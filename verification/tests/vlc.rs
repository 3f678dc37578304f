use aparatchi::vlc::{
    default_binary_name, detect_vlc, launch, launch_error, password_of, plan_launch, query_status,
    status_of, status_url, vlc_candidates, vlc_candidates_windows, Status,
};

#[test]
fn the_bare_name_depends_on_the_system() {
    assert_eq!(default_binary_name(true), "vlc.exe");
    assert_eq!(default_binary_name(false), "vlc");
}

#[test]
fn the_lookup_comes_before_the_usual_places() {
    let usual = vec![
        "/usr/bin/vlc",
        "/usr/local/bin/vlc",
        "/snap/bin/vlc",
        "/var/lib/flatpak/exports/bin/org.videolan.VLC",
        "/Applications/VLC.app/Contents/MacOS/VLC",
    ];
    assert_eq!(vlc_candidates(None), usual);
    assert_eq!(vlc_candidates(Some(" \n".to_string())), usual);
    let mut with_lookup = vec!["/opt/vlc"];
    with_lookup.extend(usual);
    assert_eq!(vlc_candidates(Some("/opt/vlc\n".to_string())), with_lookup);
}

#[test]
fn recorded_places_come_first_on_windows() {
    assert_eq!(
        vlc_candidates_windows(vec!["D:\\vlc.exe".to_string()]),
        vec![
            "D:\\vlc.exe",
            "C:\\Program Files\\VideoLAN\\VLC\\vlc.exe",
            "C:\\Program Files (x86)\\VideoLAN\\VLC\\vlc.exe",
        ]
    );
}

#[test]
fn the_first_file_is_taken() {
    let candidates: Vec<String> = vec!["a".to_string(), "b".to_string(), "c".to_string()];
    assert_eq!(detect_vlc(&candidates, &vec![false, true, true]), Some("b".to_string()));
    assert_eq!(detect_vlc(&candidates, &vec![false, false, false]), None);
    assert_eq!(detect_vlc(&Vec::new(), &Vec::new()), None);
}

#[test]
fn arguments_of_a_launch() {
    let plan = plan_launch("/usr/bin/vlc", "film.mkv", 90, " eng ", false, 19001, "pw".to_string());
    assert_eq!(plan.binary, "/usr/bin/vlc");
    assert_eq!(
        plan.args,
        vec![
            "film.mkv",
            "--extraintf=http",
            "--http-port=19001",
            "--http-password=pw",
            "--no-video-title-show",
            "--start-time=90",
            "--sub-language=eng",
        ]
    );
    assert_eq!(plan.session.port, 19001);
    assert_eq!(plan.session.password, "pw");
}

#[test]
fn a_launch_from_the_start_names_no_time() {
    for start in [0i64, -5] {
        let plan = plan_launch(" ", "film.mkv", start, "\t", true, 19999, "x".to_string());
        assert_eq!(plan.binary, "vlc.exe");
        assert_eq!(plan.args.len(), 5);
    }
}

#[test]
fn passwords_are_spelled_from_the_alphabet() {
    assert_eq!(password_of(&vec![0, 25, 26, 51, 52, 61]), "azAZ09");
    assert_eq!(password_of(&Vec::new()), "");
}

#[test]
fn random_sessions_are_in_range_and_differ() {
    let mut seen: Vec<String> = Vec::new();
    for _ in 0..50 {
        let plan = launch("", "x", 0, "", false);
        assert!(plan.session.port >= 19000 && plan.session.port < 20000);
        assert_eq!(plan.session.password.len(), 12);
        assert!(plan.session.password.chars().all(|c| c.is_ascii_alphanumeric()));
        assert_eq!(plan.args[2], format!("--http-port={}", plan.session.port));
        assert_eq!(plan.args[3], format!("--http-password={}", plan.session.password));
        seen.push(plan.session.password);
    }
    seen.sort();
    seen.dedup();
    assert!(seen.len() > 1);
}

#[test]
fn a_failed_launch_points_to_the_settings() {
    assert_eq!(
        launch_error("vlc", "not found"),
        "failed to launch 'vlc': not found. Set the correct VLC path in Settings."
    );
}

#[test]
fn status_is_read_from_the_reply() {
    assert_eq!(status_url(19042), "http://127.0.0.1:19042/requests/status.json");
    let status = query_status(br#"{"time": 61, "length": 3600, "state": "playing"}"#).unwrap();
    assert_eq!((status.time_seconds, status.length_seconds), (61, 3600));
    let status = query_status(br#"{"time": 1.5, "length": "x"}"#).unwrap();
    assert_eq!((status.time_seconds, status.length_seconds), (0, 0));
    let status = query_status(b"[]").unwrap();
    assert_eq!((status.time_seconds, status.length_seconds), (0, 0));
    assert!(query_status(b"{").is_err());
    assert!(query_status(b"\xff").is_err());
    let none = Status::default();
    assert_eq!((none.time_seconds, none.length_seconds), (0, 0));
    let reply: serde_json::Value = serde_json::from_str(r#"{"time": -3}"#).unwrap();
    assert_eq!(status_of(&reply).time_seconds, -3);
}

#[test]
fn unreadable_replies_tell_why() {
    let expected = serde_json::from_slice::<serde_json::Value>(b"{").err().unwrap().to_string();
    assert_eq!(query_status(b"{").err(), Some(expected));
}
