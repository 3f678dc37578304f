use aparatchi::adding::SeriesJob;
use aparatchi::db::{
    insert_entry, insert_episode, list_entries, list_episodes, touch_last_watched,
    update_episode_resume,
};
use aparatchi::models::EntryKind;
use aparatchi::pattern::FoundEpisode;
use aparatchi::playback::{Playback, PlaybackTarget};
use aparatchi::state::{AppState, Selection};
use aparatchi::tables::Library;
use aparatchi::transfer::export_library_text;
use aparatchi::vlc::Status;

fn sample() -> (AppState, i64, i64, Vec<i64>) {
    let mut library = Library::new();
    let m = insert_entry(&mut library, "Alien", EntryKind::Movie, "", "/a.mkv").unwrap();
    let s = insert_entry(&mut library, "Show", EntryKind::Series, "", "").unwrap();
    let mut ids: Vec<i64> = Vec::new();
    for (season, episode) in [(1, 1), (1, 2), (2, 1), (1, 1)] {
        ids.push(insert_episode(&mut library, s, season, episode, "", "", "x").unwrap());
    }
    library.take_journal();
    (AppState::new(library), m, s, ids)
}

#[test]
fn looking_around_writes_nothing() {
    let (mut app, m, s, ids) = sample();
    app.refresh_sidebar();
    app.refresh_last_played();
    app.select_entry(m);
    app.open_edit_entry_dialog();
    app.request_delete_entry();
    app.cancel_delete();
    app.select_entry(s);
    app.select_episode(ids[1]);
    app.select_adjacent_episode(1);
    app.jump_to_next_unfinished();
    app.toggle_bulk_select_mode();
    app.toggle_bulk_selected(ids[0]);
    app.bulk_delete_selected();
    app.request_delete_current();
    app.request_delete_season(1);
    app.open_add_dialog();
    app.open_add_episode_dialog(1);
    app.open_add_season_dialog();
    app.open_edit_episode_dialog(ids[0]);
    app.open_settings_dialog();
    assert!(app.request_reprobe_season(1).is_none());
    assert!(app.library.journal().is_empty());
}

#[test]
fn what_is_played_tops_the_recently_watched() {
    let (mut app, m, _, _) = sample();
    let other = insert_entry(&mut app.library, "Brazil", EntryKind::Movie, "", "x").unwrap();
    touch_last_watched(&mut app.library, other, 50);
    app.sidebar.sort_mode = "Recently watched".to_string();
    app.refresh_sidebar();
    assert_eq!(app.sidebar.movies[0].id, other);
    app.select_entry(m);
    assert!(app.do_play(false, 51, &None, false).is_some());
    app.refresh_sidebar();
    assert_eq!(app.sidebar.movies[0].id, m);
}

#[test]
fn what_is_new_tops_the_recently_added() {
    let (mut app, m, _, _) = sample();
    app.sidebar.sort_mode = "Recently added".to_string();
    app.refresh_sidebar();
    assert_eq!(app.sidebar.movies[0].id, m);
    let new = insert_entry(&mut app.library, "Aaa", EntryKind::Movie, "", "").unwrap();
    app.refresh_sidebar();
    assert_eq!(app.sidebar.movies[0].id, new);
}

#[test]
fn listed_ids_differ() {
    let (app, _, s, ids) = sample();
    let mut listed: Vec<i64> = list_episodes(&app.library, s).iter().map(|e| e.id).collect();
    assert_eq!(listed, vec![ids[0], ids[3], ids[1], ids[2]]);
    listed.sort();
    listed.dedup();
    assert_eq!(listed.len(), 4);
}

#[test]
fn the_timeline_is_drawn_alone() {
    let (mut app, _, s, ids) = sample();
    app.select_entry(s);
    update_episode_resume(&mut app.library, ids[0], 9, 90, true);
    app.set_status("kept");
    app.refresh_current_series_timeline();
    assert!(app.detail.seasons[0].episodes[0].finished);
    assert_eq!(app.detail.progress, "");
    assert_eq!(app.status, "kept");
    assert_eq!(app.detail.seasons.len(), 2);
    let shown: usize = app.detail.seasons.iter().map(|g| g.episodes.len()).sum();
    assert_eq!(shown, 4);
}

#[test]
fn choosing_before_or_after_sorting_is_the_same() {
    let mut library = Library::new();
    for t in ["delta", "alpha", "Alpha", "beta", "gamma alpha"] {
        insert_entry(&mut library, t, EntryKind::Movie, "", "").unwrap();
    }
    let mut app = AppState::new(library);
    app.sidebar.search_query = "alpha".to_string();
    app.refresh_sidebar();
    let searched: Vec<i64> = app.sidebar.movies.iter().map(|i| i.id).collect();
    let chosen: Vec<i64> = list_entries(&app.library, EntryKind::Movie)
        .into_iter()
        .filter(|e| e.title.to_lowercase().contains("alpha"))
        .map(|e| e.id)
        .collect();
    assert_eq!(searched, chosen);
}

#[test]
fn everything_the_user_does_goes_through_the_journal() {
    let mut app = AppState::new(Library::new());
    app.start(Some("/usr/bin/vlc".to_string()));
    app.open_add_dialog();
    app.add_form.title = "Alien".to_string();
    app.add_form.link = "/a.mkv".to_string();
    app.submit_add();
    let job = SeriesJob {
        title: "Show".to_string(),
        description: String::new(),
        pattern: "S#E*".to_string(),
        season_start: 1,
        season_width: 2,
        ep_start: 1,
        ep_width: 2,
        poster_source: String::new(),
    };
    let rows: Vec<FoundEpisode> = (1..5)
        .map(|episode| FoundEpisode { season: 1, episode, link: format!("e{}", episode) })
        .collect();
    app.finish_add(&job, Ok(rows));
    let show = app.selected.open_entry().unwrap();
    let ids: Vec<i64> = list_episodes(&app.library, show).iter().map(|e| e.id).collect();
    let mut p = Playback::new(PlaybackTarget::Episode(ids[0], "e1".to_string()));
    p.reading(Status { time_seconds: 100, length_seconds: 100 });
    app.do_play(false, 9, &None, false);
    app.playback_ended(&p);
    app.toggle_bulk_selected(ids[2]);
    app.bulk_set_finished(true);
    app.select_episode(ids[3]);
    app.request_delete_current();
    app.confirm_delete();
    app.open_edit_entry_dialog();
    app.edit_form.title = "Renamed".to_string();
    app.submit_edit();
    app.open_settings_dialog();
    app.settings_form.subtitle_lang = "eng".to_string();
    app.submit_settings();
    let exported = export_library_text(&app.library);
    app.import_library(&exported);

    let mut copy = Library::new();
    for change in app.library.take_journal() {
        copy.execute(change);
    }
    assert_eq!(export_library_text(&copy), export_library_text(&app.library));
    assert_eq!(copy.last_entry_id(), app.library.last_entry_id());
    assert_eq!(copy.last_episode_id(), app.library.last_episode_id());
    assert_eq!(aparatchi::db::get_last_played(&copy), aparatchi::db::get_last_played(&app.library));
    assert_eq!(list_entries(&copy, EntryKind::Movie).len(), 2);
}

#[test]
fn the_jump_leads_where_resume_leads() {
    let (mut app, _, s, ids) = sample();
    update_episode_resume(&mut app.library, ids[0], 0, 90, true);
    app.select_entry(s);
    app.jump_to_next_unfinished();
    let jumped = app.selected;
    assert_eq!(jumped, Selection::Series { entry_id: s, episode_id: Some(ids[3]) });
    app.select_entry(s);
    assert!(app.resume_entry(1, &None, false).is_some());
    assert_eq!(app.selected, jumped);
}
