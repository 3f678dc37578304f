use aparatchi::db::{
    get_entry, get_episode, get_last_played, get_season_pattern, insert_entry, insert_episode,
    list_episodes, set_last_played, set_season_pattern, update_entry_resume, update_episode_resume,
};
use aparatchi::marking::toggle_id;
use aparatchi::models::EntryKind;
use aparatchi::state::{AppState, DeleteTarget, Selection};
use aparatchi::tables::Library;

fn app() -> (AppState, i64, i64, Vec<i64>) {
    let mut library = Library::new();
    let m = insert_entry(&mut library, "Alien", EntryKind::Movie, "", "/a.mkv").unwrap();
    let s = insert_entry(&mut library, "Show", EntryKind::Series, "", "").unwrap();
    let mut ids: Vec<i64> = Vec::new();
    for (season, episode) in [(1, 1), (1, 2), (2, 1)] {
        ids.push(insert_episode(&mut library, s, season, episode, "t", "", "x").unwrap());
    }
    let mut app = AppState::new(library);
    app.refresh_sidebar();
    (app, m, s, ids)
}

#[test]
fn an_entry_is_deleted_after_the_question() {
    let (mut app, m, _, _) = app();
    app.select_entry(m);
    app.request_delete_entry();
    assert!(app.confirm.open);
    assert_eq!(app.confirm.message, "Delete \"Alien\"? This cannot be undone.");
    set_last_played(&mut app.library, EntryKind::Movie, m, None);
    assert_eq!(app.confirm_delete(), Some(m));
    assert!(!app.confirm.open);
    assert!(get_entry(&app.library, m).is_err());
    assert!(get_last_played(&app.library).is_none());
    assert_eq!(app.selected, Selection::Nothing);
    assert!(!app.detail.has_selection && app.detail.title.is_empty());
    assert!(app.sidebar.movies.is_empty());
    assert!(!app.landing.has_last_played);
}

#[test]
fn deleting_something_else_keeps_what_was_played_last() {
    let (mut app, m, s, ids) = app();
    set_last_played(&mut app.library, EntryKind::Series, s, Some(ids[2]));
    app.select_entry(m);
    app.request_delete_entry();
    app.confirm_delete();
    assert!(get_last_played(&app.library).is_some());
    app.select_entry(s);
    app.request_delete_season(1);
    assert_eq!(app.confirm_delete(), None);
    assert!(get_last_played(&app.library).is_some());
    app.request_delete_season(2);
    app.confirm_delete();
    assert!(get_last_played(&app.library).is_none());
}

#[test]
fn an_answer_of_no_deletes_nothing() {
    let (mut app, m, _, _) = app();
    app.select_entry(m);
    app.request_delete_current();
    app.cancel_delete();
    assert!(!app.confirm.open);
    assert!(get_entry(&app.library, m).is_ok());
}

#[test]
fn an_unasked_confirmation_deletes_nothing() {
    let (mut app, m, s, _) = app();
    assert_eq!(app.confirm_delete(), None);
    assert!(get_entry(&app.library, m).is_ok() && get_entry(&app.library, s).is_ok());
    app.request_delete_entry();
    assert!(app.pending_delete.is_none());
    app.request_delete_season(1);
    assert!(app.pending_delete.is_none());
    app.request_delete_episode(99);
    assert!(app.pending_delete.is_none());
}

#[test]
fn an_episode_is_deleted() {
    let (mut app, _, s, ids) = app();
    app.select_entry(s);
    app.request_delete_current();
    assert_eq!(app.confirm.message, "Delete episode \"S01E01 - t\"?");
    set_last_played(&mut app.library, EntryKind::Series, s, Some(ids[0]));
    assert_eq!(app.confirm_delete(), None);
    assert!(get_episode(&app.library, ids[0]).is_err());
    assert!(get_last_played(&app.library).is_none());
    assert_eq!(app.selected, Selection::Series { entry_id: s, episode_id: Some(ids[1]) });
}

#[test]
fn a_season_is_deleted_with_its_pattern() {
    let (mut app, _, s, ids) = app();
    set_season_pattern(&mut app.library, s, 1, "*", 2, 2);
    app.select_entry(s);
    app.request_delete_season(1);
    assert_eq!(app.confirm.message, "Delete Season 1 and all its episodes? This cannot be undone.");
    app.confirm_delete();
    let left: Vec<i64> = list_episodes(&app.library, s).iter().map(|e| e.id).collect();
    assert_eq!(left, vec![ids[2]]);
    assert_eq!(get_season_pattern(&app.library, s, 1), None);
    assert_eq!(app.detail.seasons.len(), 1);
}

#[test]
fn ticking_twice_unticks() {
    let mut ticked: Vec<i64> = Vec::new();
    toggle_id(&mut ticked, 5);
    toggle_id(&mut ticked, 6);
    toggle_id(&mut ticked, 7);
    toggle_id(&mut ticked, 6);
    assert_eq!(ticked, vec![5, 7]);
    toggle_id(&mut ticked, 6);
    assert_eq!(ticked, vec![5, 7, 6]);
}

#[test]
fn ticked_episodes_are_shown_and_counted() {
    let (mut app, _, s, ids) = app();
    app.select_entry(s);
    app.toggle_bulk_select_mode();
    app.toggle_bulk_selected(ids[1]);
    assert_eq!(app.bulk.count, 1);
    assert!(app.detail.seasons[0].episodes[1].checked);
    assert!(!app.detail.seasons[0].episodes[0].checked);
    app.toggle_bulk_selected(ids[1]);
    assert_eq!(app.bulk.count, 0);
    app.toggle_bulk_selected(ids[0]);
    app.toggle_bulk_select_mode();
    assert!(!app.bulk.mode && app.bulk.selected.is_empty());
    assert_eq!(app.bulk.count, 0);
    assert!(!app.detail.seasons[0].episodes[0].checked);
}

#[test]
fn ticked_episodes_are_deleted_together() {
    let (mut app, _, s, ids) = app();
    app.select_entry(s);
    app.bulk_delete_selected();
    assert!(app.pending_delete.is_none());
    app.toggle_bulk_select_mode();
    app.toggle_bulk_selected(ids[0]);
    app.toggle_bulk_selected(ids[2]);
    set_last_played(&mut app.library, EntryKind::Series, s, Some(ids[2]));
    app.bulk_delete_selected();
    assert_eq!(app.confirm.message, "Delete 2 selected episode(s)? This cannot be undone.");
    assert_eq!(app.confirm_delete(), None);
    assert_eq!(app.status, "Deleted 2 episode(s).");
    assert_eq!(list_episodes(&app.library, s).len(), 1);
    assert!(get_last_played(&app.library).is_none());
    assert!(!app.bulk.mode && app.bulk.selected.is_empty());
    app.pending_delete = Some(DeleteTarget::BulkEpisodes(Vec::new()));
    app.set_status("x");
    app.confirm_delete();
    assert_eq!(app.status, "x");
}

#[test]
fn ticked_episodes_are_marked_together() {
    let (mut app, m, s, ids) = app();
    update_episode_resume(&mut app.library, ids[0], 5, 600, false);
    app.select_entry(m);
    app.bulk_set_finished(true);
    assert_eq!(app.status, "");
    app.select_entry(s);
    app.bulk_set_finished(true);
    assert_eq!(app.status, "");
    app.toggle_bulk_selected(ids[0]);
    app.toggle_bulk_selected(ids[1]);
    app.bulk_set_finished(true);
    assert_eq!(app.status, "Marked 2 episode(s) as watched.");
    let e = get_episode(&app.library, ids[0]).unwrap();
    assert_eq!((e.resume_position, e.duration, e.finished), (600, 600, true));
    let e = get_episode(&app.library, ids[1]).unwrap();
    assert_eq!((e.resume_position, e.finished), (0, true));
    assert!(!get_episode(&app.library, ids[2]).unwrap().finished);
    assert!(app.detail.seasons[0].episodes[0].finished);
    app.bulk_set_finished(false);
    assert_eq!(app.status, "Marked 2 episode(s) as unwatched.");
    let e = get_episode(&app.library, ids[0]).unwrap();
    assert_eq!((e.resume_position, e.finished), (0, false));
}

#[test]
fn a_movie_is_marked_by_hand() {
    let (mut app, m, s, _) = app();
    update_entry_resume(&mut app.library, m, 7, 100, false);
    app.select_entry(m);
    app.toggle_movie_watched();
    assert_eq!(app.status, "Marked as watched.");
    let e = get_entry(&app.library, m).unwrap();
    assert_eq!((e.resume_position, e.finished), (100, true));
    assert!(app.detail.watched);
    app.toggle_movie_watched();
    assert_eq!(app.status, "Marked as unwatched.");
    let e = get_entry(&app.library, m).unwrap();
    assert_eq!((e.resume_position, e.finished), (0, false));
    app.select_entry(s);
    app.toggle_movie_watched();
    assert_eq!(app.status, "");
}
