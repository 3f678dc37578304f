use aparatchi::pattern::{
    is_url, probe, probe_season, render, verify, FoundEpisode, Probe, ProbeError,
    MAX_EPISODES_PER_SEASON, MAX_SEASONS,
};

fn run(mut p: Probe, there: &dyn Fn(i32, i32) -> bool) -> Result<Vec<FoundEpisode>, ProbeError> {
    while let Some(next) = p.next_link() {
        let ok = there(next.season, next.episode);
        assert!(p.fits_after(ok));
        p.record(ok);
    }
    p.finish()
}

fn numbers(rows: &[FoundEpisode]) -> Vec<(i32, i32)> {
    rows.iter().map(|r| (r.season, r.episode)).collect()
}

#[test]
fn patterns_are_filled_in() {
    assert_eq!(
        render("http://example.com/S#/Movie.S#E*.mkv", 1, 2, 3, 2),
        "http://example.com/S01/Movie.S01E03.mkv"
    );
    assert_eq!(render("*-*-#", 10, 1, 7, 3), "007-007-10");
    assert_eq!(render("#*", 1, 0, 2, 0), "12");
    assert_eq!(render("plain", 1, 2, 3, 2), "plain");
    assert_eq!(render("#E*", -1, 3, 5, 2), "-01E05");
}

#[test]
fn filled_in_patterns_have_no_placeholder_left() {
    let link = render("a*b#c*", 4, 2, 5, 2);
    assert!(!link.contains('*') && !link.contains('#'));
}

#[test]
fn different_episodes_have_different_links() {
    let mut seen: Vec<String> = Vec::new();
    for season in 1..4 {
        for episode in 1..12 {
            let link = render("s#/e*", season, 2, episode, 2);
            assert!(!seen.contains(&link));
            seen.push(link);
        }
    }
}

#[test]
fn links_are_verified_by_status_or_file() {
    assert!(is_url("http://a"));
    assert!(is_url("https://a"));
    assert!(!is_url("ftp://a"));
    assert!(!is_url("HTTP://a"));
    assert!(verify("http://a", Some(200), false));
    assert!(verify("http://a", Some(299), false));
    assert!(verify("http://a", Some(405), false));
    assert!(!verify("http://a", Some(199), true));
    assert!(!verify("http://a", Some(300), true));
    assert!(!verify("http://a", Some(404), true));
    assert!(!verify("http://a", None, true));
    assert!(verify("/home/x.mkv", None, true));
    assert!(!verify("/home/x.mkv", Some(200), false));
}

#[test]
fn a_probe_walks_seasons_until_one_is_empty() {
    let there = |s: i32, e: i32| (s == 1 && e <= 3) || (s == 2 && e <= 2);
    let rows = run(probe("S#E*", 1, 2, 1, 2).unwrap(), &there).unwrap();
    assert_eq!(numbers(&rows), vec![(1, 1), (1, 2), (1, 3), (2, 1), (2, 2)]);
    assert_eq!(rows[0].link, "S01E01");
    assert_eq!(rows[4].link, "S02E02");
    for r in &rows {
        assert!(there(r.season, r.episode));
    }
}

#[test]
fn a_probe_without_season_place_stays_in_one_season() {
    let rows = run(probe("E*", 4, 2, 2, 2).unwrap(), &|_, e| e < 5).unwrap();
    assert_eq!(numbers(&rows), vec![(4, 2), (4, 3), (4, 4)]);
}

#[test]
fn a_season_probe_stays_in_its_season() {
    let rows = run(probe_season("S#E*", 3, 2, 1, 2).unwrap(), &|_, e| e < 3).unwrap();
    assert_eq!(numbers(&rows), vec![(3, 1), (3, 2)]);
}

#[test]
fn a_probe_stops_at_the_limits() {
    let rows = run(probe_season("E*", 1, 2, 1, 2).unwrap(), &|_, _| true).unwrap();
    assert_eq!(rows.len(), MAX_EPISODES_PER_SEASON as usize);
    let rows = run(probe("#*", 1, 2, 1, 2).unwrap(), &|_, e| e == 1).unwrap();
    assert_eq!(rows.len(), MAX_SEASONS as usize);
}

#[test]
fn probe_errors_tell_what_was_missing() {
    assert_eq!(probe("S#", 1, 2, 1, 2).err(), Some(ProbeError::NoPlaceholder));
    assert_eq!(probe_season("S#", 1, 2, 1, 2).err(), Some(ProbeError::NoPlaceholder));
    let e = run(probe("S#E*", 1, 2, 5, 2).unwrap(), &|_, _| false).err().unwrap();
    assert_eq!(e, ProbeError::NothingFound { season: 1, episode: 5 });
    assert_eq!(
        e.message(),
        "no episodes found - the very first link (season 1, episode 5) didn't verify. Check the pattern and starting numbers."
    );
    let e = run(probe_season("S#E*", 7, 2, 1, 2).unwrap(), &|_, _| false).err().unwrap();
    assert_eq!(e, ProbeError::NothingInSeason { season: 7, episode: 1 });
    assert_eq!(
        e.message(),
        "no episodes found - the first link (season 7, episode 1) didn't verify. Check the pattern and starting episode number."
    );
    assert_eq!(
        ProbeError::NoPlaceholder.message(),
        "pattern must contain a '*' placeholder for the episode number"
    );
}

#[test]
fn a_probe_does_not_run_past_the_largest_number() {
    let p = probe_season("E*", 1, 2, i32::MAX, 2).unwrap();
    assert!(!p.fits_after(true));
    assert!(p.fits_after(false));
}
