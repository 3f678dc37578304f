use aparatchi::adding::AddStep;
use aparatchi::db::{get_entry, get_episode, get_subtitle_lang, get_vlc_path, insert_entry, insert_episode};
use aparatchi::models::EntryKind;
use aparatchi::state::{AppState, EditTarget, Selection};
use aparatchi::storing::Request;
use aparatchi::tables::Library;

fn app() -> (AppState, i64, i64, i64) {
    let mut library = Library::new();
    let m = insert_entry(&mut library, "Alien", EntryKind::Movie, "d", "/a.mkv").unwrap();
    let s = insert_entry(&mut library, "Show", EntryKind::Series, "", "").unwrap();
    let e = insert_episode(&mut library, s, 1, 1, "Pilot", "x", "l").unwrap();
    (AppState::new(library), m, s, e)
}

#[test]
fn an_entry_is_edited() {
    let (mut app, m, _, _) = app();
    app.open_edit_entry_dialog();
    assert!(!app.edit_form.open);
    app.select_entry(m);
    app.open_edit_entry_dialog();
    assert_eq!((app.edit_form.title.as_str(), app.edit_form.link.as_str()), ("Alien", "/a.mkv"));
    assert!(app.edit_form.open && !app.edit_form.is_episode);
    assert_eq!(app.pending_edit, Some(EditTarget::Entry(m)));
    app.edit_form.title = "Aliens".to_string();
    app.edit_form.poster_path = "/p.png".to_string();
    match app.submit_edit() {
        AddStep::SavePoster { entry_id, source } => {
            assert_eq!((entry_id, source.as_str()), (m, "/p.png"));
        }
        _ => panic!("a poster was chosen"),
    }
    assert_eq!(get_entry(&app.library, m).unwrap().title, "Aliens");
    assert_eq!(app.detail.title, "Aliens");
    assert_eq!(app.sidebar.movies[0].title, "Aliens");
    assert!(!app.edit_form.open);
}

#[test]
fn an_episode_is_edited() {
    let (mut app, m, s, e) = app();
    app.select_entry(m);
    app.open_edit_episode_dialog(99);
    assert!(!app.edit_form.open);
    app.open_edit_episode_dialog(e);
    assert!(app.edit_form.is_episode);
    assert_eq!(app.edit_form.title, "Pilot");
    app.edit_form.title = "One".to_string();
    app.edit_form.poster_path = "/p.png".to_string();
    assert!(matches!(app.submit_edit(), AddStep::Nothing));
    assert_eq!(get_episode(&app.library, e).unwrap().title, "One");
    assert_eq!(app.selected, Selection::Series { entry_id: s, episode_id: Some(e) });
    assert_eq!(app.detail.seasons[0].episodes[0].label, "S01E01 - One");
}

#[test]
fn nothing_to_edit_changes_nothing() {
    let (mut app, m, _, _) = app();
    app.edit_form.open = true;
    assert!(matches!(app.submit_edit(), AddStep::Nothing));
    assert!(!app.edit_form.open);
    assert_eq!(get_entry(&app.library, m).unwrap().title, "Alien");
    app.select_entry(m);
    app.open_edit_entry_dialog();
    app.close_edit_dialog();
    assert!(!app.edit_form.open);
}

#[test]
fn settings_are_saved() {
    let (mut app, _, _, _) = app();
    app.open_settings_dialog();
    assert!(app.settings_form.open);
    assert_eq!(app.settings_form.vlc_path, "");
    app.detect_settings_vlc(None);
    assert_eq!(app.status, "Could not find VLC automatically. Browse for it manually.");
    app.detect_settings_vlc(Some("/usr/bin/vlc".to_string()));
    assert_eq!(app.status, "Found VLC automatically.");
    app.settings_form.subtitle_lang = "eng".to_string();
    app.submit_settings();
    assert_eq!(app.status, "Settings saved.");
    assert_eq!(get_vlc_path(&app.library), Some("/usr/bin/vlc".to_string()));
    assert_eq!(get_subtitle_lang(&app.library), Some("eng".to_string()));
    app.open_settings_dialog();
    assert_eq!(app.settings_form.vlc_path, "/usr/bin/vlc");
    assert_eq!(app.settings_form.subtitle_lang, "eng");
    app.close_settings_dialog();
    assert!(!app.settings_form.open);
}

#[test]
fn the_player_that_was_found_is_stored_once() {
    let (mut app, _, _, _) = app();
    app.start(None);
    assert_eq!(get_vlc_path(&app.library), None);
    assert_eq!(app.sidebar.movies.len(), 1);
    app.start(Some("/a".to_string()));
    assert_eq!(get_vlc_path(&app.library), Some("/a".to_string()));
    app.start(Some("/b".to_string()));
    assert_eq!(get_vlc_path(&app.library), Some("/a".to_string()));
}

#[test]
fn failures_to_store_are_told() {
    for (request, prefix) in [
        (Request::AddMovie, "Failed to save: "),
        (Request::AddSeries, "Failed to save series: "),
        (Request::AddEpisode, "Failed to add episode: "),
        (Request::Edit, "Failed to save: "),
        (Request::Delete, "Failed to delete: "),
        (Request::DeleteSeason, "Failed to delete season: "),
        (Request::SaveSettings, "Failed to save settings: "),
    ] {
        let (mut app, _, _, _) = app();
        app.storage_failed(Library::new(), Selection::Nothing, request, "disk I/O error");
        assert_eq!(app.status, format!("{}disk I/O error", prefix));
        assert!(app.library.entries().is_empty());
        assert!(app.sidebar.movies.is_empty());
    }
}

#[test]
fn a_dialog_is_open_again_when_storing_failed() {
    let (mut app, m, _, _) = app();
    app.select_entry(m);
    app.open_edit_entry_dialog();
    app.edit_form.title = "Aliens".to_string();
    let before = app.selected;
    assert!(matches!(app.submit_edit(), AddStep::Nothing));
    assert!(!app.edit_form.open);
    assert_eq!(app.detail.title, "Aliens");
    let mut stored = Library::new();
    let id = insert_entry(&mut stored, "Alien", EntryKind::Movie, "", "/a.mkv").unwrap();
    assert_eq!(id, m);
    app.storage_failed(stored, before, Request::Edit, "disk full");
    assert!(app.edit_form.open);
    assert_eq!(app.edit_form.title, "Aliens");
    assert_eq!(app.detail.title, "Alien");
    assert_eq!(app.selected, before);
    assert_eq!(app.status, "Failed to save: disk full");
    for (request, open) in [
        (Request::AddMovie, [true, false, false, false]),
        (Request::AddSeries, [true, false, false, false]),
        (Request::AddEpisode, [false, true, false, false]),
        (Request::Edit, [false, false, true, false]),
        (Request::SaveSettings, [false, false, false, true]),
        (Request::Delete, [false, false, false, false]),
        (Request::DeleteSeason, [false, false, false, false]),
    ] {
        let mut app = AppState::new(Library::new());
        app.storage_failed(Library::new(), Selection::Nothing, request, "");
        let forms = [
            app.add_form.open,
            app.episode_form.open,
            app.edit_form.open,
            app.settings_form.open,
        ];
        assert_eq!(forms, open);
    }
}

#[test]
fn an_entry_is_open_again_when_deleting_it_failed() {
    let (mut app, m, _, _) = app();
    app.select_entry(m);
    let before = app.selected;
    app.request_delete_entry();
    let _ = app.confirm_delete();
    assert!(!app.detail.has_selection);
    let mut stored = Library::new();
    let _ = insert_entry(&mut stored, "Alien", EntryKind::Movie, "", "/a.mkv").unwrap();
    app.storage_failed(stored, before, Request::Delete, "locked");
    assert_eq!(app.selected, Selection::Movie(m));
    assert!(app.detail.has_selection);
    assert_eq!(app.detail.title, "Alien");
    assert_eq!(app.sidebar.movies.len(), 1);
    assert!(!app.confirm.open);
    assert_eq!(app.status, "Failed to delete: locked");
}

#[test]
fn a_reload_shows_what_is_stored() {
    let (mut app, m, _, _) = app();
    app.select_entry(m);
    app.set_status("Playing");
    let mut stored = Library::new();
    let _ = insert_entry(&mut stored, "Alien 3", EntryKind::Movie, "", "/a.mkv").unwrap();
    app.reload(stored, Selection::Movie(m));
    assert_eq!(app.detail.title, "Alien 3");
    assert_eq!(app.sidebar.movies[0].title, "Alien 3");
    assert_eq!(app.status, "Playing");
    app.reload(Library::new(), Selection::Nothing);
    assert!(!app.detail.has_selection);
    assert!(app.sidebar.movies.is_empty());
}
