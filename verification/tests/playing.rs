use aparatchi::db::{
    get_entry, get_episode, get_last_played, insert_entry, insert_episode, set_last_played,
    set_subtitle_lang, set_vlc_path, update_entry_resume, update_episode_resume, LastPlayed,
};
use aparatchi::models::EntryKind;
use aparatchi::playback::{Playback, PlaybackTarget};
use aparatchi::playing::{resolve_subtitle_lang, resolve_vlc_path, vlc_path_configured};
use aparatchi::state::{AppState, Selection};
use aparatchi::tables::Library;
use aparatchi::vlc::Status;

fn app() -> (AppState, i64, i64, Vec<i64>) {
    let mut library = Library::new();
    let m = insert_entry(&mut library, "Alien", EntryKind::Movie, "", "/a.mkv").unwrap();
    update_entry_resume(&mut library, m, 120, 3600, false);
    let s = insert_entry(&mut library, "Show", EntryKind::Series, "", "").unwrap();
    let ids = vec![
        insert_episode(&mut library, s, 1, 1, "", "", "e1").unwrap(),
        insert_episode(&mut library, s, 1, 2, "", "", "e2").unwrap(),
    ];
    update_episode_resume(&mut library, ids[1], 30, 600, false);
    (AppState::new(library), m, s, ids)
}

fn played(target: PlaybackTarget, time_seconds: i64, length_seconds: i64) -> Playback {
    let mut p = Playback::new(target);
    p.reading(Status { time_seconds, length_seconds });
    p
}

#[test]
fn the_configured_player_is_preferred() {
    let mut library = Library::new();
    let found = Some("/usr/bin/vlc".to_string());
    assert!(!vlc_path_configured(&library));
    assert_eq!(resolve_vlc_path(&library, &found, false), "/usr/bin/vlc");
    assert_eq!(resolve_vlc_path(&library, &None, false), "vlc");
    assert_eq!(resolve_vlc_path(&library, &None, true), "vlc.exe");
    set_vlc_path(&mut library, "  ");
    assert!(!vlc_path_configured(&library));
    assert_eq!(resolve_vlc_path(&library, &found, false), "/usr/bin/vlc");
    set_vlc_path(&mut library, "/opt/vlc");
    assert!(vlc_path_configured(&library));
    assert_eq!(resolve_vlc_path(&library, &found, false), "/opt/vlc");
    assert_eq!(resolve_subtitle_lang(&library), "");
    set_subtitle_lang(&mut library, "eng");
    assert_eq!(resolve_subtitle_lang(&library), "eng");
}

#[test]
fn play_starts_at_the_beginning() {
    let (mut app, m, _, _) = app();
    app.select_entry(m);
    let request = app.do_play(false, 1000, &None, false).unwrap();
    assert_eq!(request.start_seconds, 0);
    assert_eq!(request.target.link(), "/a.mkv");
    assert_eq!(request.vlc_path, "vlc");
    assert_eq!(request.subtitle_lang, "");
    assert_eq!(app.status, "Launching VLC...");
    assert_eq!(get_entry(&app.library, m).unwrap().last_watched_at, 1000);
    assert_eq!(
        get_last_played(&app.library),
        Some(LastPlayed { kind: EntryKind::Movie, entry_id: m, episode_id: None })
    );
}

#[test]
fn resume_starts_where_it_was_left() {
    let (mut app, m, s, ids) = app();
    app.select_entry(m);
    assert_eq!(app.do_play(true, 1, &None, false).unwrap().start_seconds, 120);
    app.select_entry(s);
    app.select_episode(ids[1]);
    let request = app.do_play(true, 2, &None, false).unwrap();
    assert_eq!(request.start_seconds, 30);
    assert!(matches!(request.target, PlaybackTarget::Episode(id, _) if id == ids[1]));
    assert_eq!(
        get_last_played(&app.library),
        Some(LastPlayed { kind: EntryKind::Series, entry_id: s, episode_id: Some(ids[1]) })
    );
}

#[test]
fn nothing_selected_is_not_played() {
    let (mut app, _, _, _) = app();
    assert!(app.do_play(false, 1, &None, false).is_none());
    assert_eq!(app.status, "");
    assert!(get_last_played(&app.library).is_none());
}

#[test]
fn what_has_no_link_is_not_played() {
    let mut library = Library::new();
    let m = insert_entry(&mut library, "Alien", EntryKind::Movie, "", " ").unwrap();
    let mut app = AppState::new(library);
    app.select_entry(m);
    assert!(app.do_play(false, 7, &None, false).is_none());
    assert_eq!(app.status, "No link/path set for this item.");
    assert_eq!(get_entry(&app.library, m).unwrap().last_watched_at, 0);
    assert!(get_last_played(&app.library).is_none());
}

#[test]
fn a_player_closed_before_it_reports_leaves_the_progress() {
    let (mut app, m, s, ids) = app();
    app.select_entry(m);
    app.playback_started();
    app.playback_ended(&Playback::new(PlaybackTarget::Entry(m, String::new())));
    let e = get_entry(&app.library, m).unwrap();
    assert_eq!((e.resume_position, e.duration, e.finished), (120, 3600, false));
    assert_eq!(app.do_play(true, 1, &None, false).unwrap().start_seconds, 120);
    app.playback_ended(&played(PlaybackTarget::Entry(m, String::new()), 5, 0));
    let e = get_entry(&app.library, m).unwrap();
    assert_eq!((e.resume_position, e.duration, e.finished), (120, 3600, false));
    app.select_entry(s);
    app.select_episode(ids[1]);
    app.playback_ended(&Playback::new(PlaybackTarget::Episode(ids[1], String::new())));
    let e = get_episode(&app.library, ids[1]).unwrap();
    assert_eq!((e.resume_position, e.duration, e.finished), (30, 600, false));
    assert_eq!(app.do_play(true, 2, &None, false).unwrap().start_seconds, 30);
}

#[test]
fn an_entry_is_resumed_at_its_current_episode() {
    let (mut app, m, s, ids) = app();
    assert!(app.resume_entry(1, &None, false).is_none());
    app.select_entry(s);
    update_episode_resume(&mut app.library, ids[0], 0, 600, true);
    let request = app.resume_entry(1, &None, false).unwrap();
    assert!(matches!(request.target, PlaybackTarget::Episode(id, _) if id == ids[1]));
    assert_eq!(request.start_seconds, 30);
    assert_eq!(app.selected, Selection::Series { entry_id: s, episode_id: Some(ids[1]) });
    app.select_entry(m);
    let request = app.resume_entry(1, &None, false).unwrap();
    assert_eq!(request.start_seconds, 120);
}

#[test]
fn what_was_played_last_is_resumed() {
    let (mut app, m, s, ids) = app();
    assert!(app.resume_last_played(1, &None, false).is_none());
    set_last_played(&mut app.library, EntryKind::Movie, m, None);
    assert_eq!(app.resume_last_played(1, &None, false).unwrap().start_seconds, 120);
    set_last_played(&mut app.library, EntryKind::Series, s, Some(ids[1]));
    let request = app.resume_last_played(1, &None, false).unwrap();
    assert!(matches!(request.target, PlaybackTarget::Episode(id, _) if id == ids[0]));
}

#[test]
fn progress_is_saved_when_the_player_closes() {
    let (mut app, m, _, _) = app();
    app.select_entry(m);
    app.playback_started();
    assert_eq!(app.status, "Playing in VLC...");
    app.playback_ended(&played(PlaybackTarget::Entry(m, String::new()), 100, 1000));
    let e = get_entry(&app.library, m).unwrap();
    assert_eq!((e.resume_position, e.duration, e.finished), (100, 1000, false));
    assert_eq!(app.detail.progress, "1:40 / 16:40");
    assert_eq!(app.status, "");
}

#[test]
fn a_finished_movie_has_no_resume_point() {
    let (mut app, m, _, _) = app();
    app.playback_ended(&played(PlaybackTarget::Entry(m, String::new()), 900, 1000));
    let e = get_entry(&app.library, m).unwrap();
    assert_eq!((e.resume_position, e.duration, e.finished), (0, 1000, true));
    assert_eq!(app.status, "Finished. Moved to the next episode.");
}

#[test]
fn a_stopped_playback_is_told_where_nothing_is_open() {
    let (mut app, m, _, _) = app();
    app.playback_ended(&played(PlaybackTarget::Entry(m, String::new()), 1, 1000));
    assert_eq!(app.status, "Stopped. Progress saved.");
}

#[test]
fn a_finished_episode_moves_on_to_the_next() {
    let (mut app, _, s, ids) = app();
    app.select_entry(s);
    app.playback_ended(&played(PlaybackTarget::Episode(ids[0], String::new()), 600, 600));
    assert!(get_episode(&app.library, ids[0]).unwrap().finished);
    assert_eq!(app.selected, Selection::Series { entry_id: s, episode_id: Some(ids[1]) });
    assert_eq!(
        get_last_played(&app.library),
        Some(LastPlayed { kind: EntryKind::Series, entry_id: s, episode_id: Some(ids[1]) })
    );
    app.playback_ended(&played(PlaybackTarget::Episode(ids[1], String::new()), 600, 600));
    assert_eq!(app.selected, Selection::Series { entry_id: s, episode_id: Some(ids[1]) });
}

#[test]
fn an_unfinished_episode_stays_selected() {
    let (mut app, _, s, ids) = app();
    app.select_entry(s);
    app.playback_ended(&played(PlaybackTarget::Episode(ids[0], String::new()), 10, 600));
    assert_eq!(app.selected, Selection::Series { entry_id: s, episode_id: Some(ids[0]) });
    assert_eq!(get_episode(&app.library, ids[0]).unwrap().resume_position, 10);
}

#[test]
fn a_player_that_does_not_start_is_told() {
    let (mut app, _, _, _) = app();
    app.playback_failed("vlc", "not found");
    assert_eq!(
        app.status,
        "Failed to launch VLC: failed to launch 'vlc': not found. Set the correct VLC path in Settings."
    );
}

#[test]
fn what_was_played_resumes_where_it_was_left() {
    let (mut app, m, s, ids) = app();
    app.select_entry(m);
    app.playback_ended(&played(PlaybackTarget::Entry(m, String::new()), 555, 3600));
    assert_eq!(app.do_play(true, 1, &None, false).unwrap().start_seconds, 555);
    app.playback_ended(&played(PlaybackTarget::Entry(m, String::new()), 3500, 3600));
    assert_eq!(app.do_play(true, 1, &None, false).unwrap().start_seconds, 0);
    app.select_entry(s);
    app.playback_ended(&played(PlaybackTarget::Episode(ids[0], String::new()), 77, 600));
    let request = app.do_play(true, 1, &None, false).unwrap();
    assert_eq!(request.start_seconds, 77);
    assert_eq!(request.target.link(), "e1");
}
