use aparatchi::db::{
    insert_entry, insert_episode, set_last_played, touch_last_watched, update_entry_resume,
    update_episode_resume,
};
use aparatchi::models::EntryKind;
use aparatchi::sidebar::sort_entries;
use aparatchi::state::{AppState, Selection};
use aparatchi::tables::Library;

fn movie(library: &mut Library, title: &str, link: &str) -> i64 {
    insert_entry(library, title, EntryKind::Movie, "about", link).unwrap()
}

fn show(library: &mut Library, title: &str, numbers: &[(i32, i32)]) -> (i64, Vec<i64>) {
    let id = insert_entry(library, title, EntryKind::Series, "about", "").unwrap();
    let ids = numbers
        .iter()
        .map(|(s, e)| insert_episode(library, id, *s, *e, "", "ep", "link").unwrap())
        .collect();
    (id, ids)
}

fn names(items: &[aparatchi::screen::EntryItem]) -> Vec<String> {
    items.iter().map(|i| i.title.clone()).collect()
}

#[test]
fn the_sidebar_sorts_three_ways() {
    let mut library = Library::new();
    let b = movie(&mut library, "beta", "");
    let a = movie(&mut library, "Alpha", "");
    let o = movie(&mut library, "Ärger", "");
    touch_last_watched(&mut library, b, 5);
    touch_last_watched(&mut library, o, 9);
    let mut app = AppState::new(library);
    app.refresh_sidebar();
    assert_eq!(names(&app.sidebar.movies), vec!["Alpha", "beta", "Ärger"]);
    app.sidebar.sort_mode = "Recently added".to_string();
    app.refresh_sidebar();
    let ids: Vec<i64> = app.sidebar.movies.iter().map(|i| i.id).collect();
    assert_eq!(ids, vec![o, a, b]);
    app.sidebar.sort_mode = "Recently watched".to_string();
    app.refresh_sidebar();
    let ids: Vec<i64> = app.sidebar.movies.iter().map(|i| i.id).collect();
    assert_eq!(ids, vec![o, b, a]);
    app.sidebar.sort_mode = "anything".to_string();
    app.refresh_sidebar();
    assert_eq!(names(&app.sidebar.movies), vec!["Alpha", "beta", "Ärger"]);
}

#[test]
fn titles_sort_by_their_lower_case_form() {
    let mut library = Library::new();
    movie(&mut library, "Ärger", "");
    movie(&mut library, "ähre", "");
    movie(&mut library, "Zorn", "");
    let rows = aparatchi::db::list_entries(&library, EntryKind::Movie);
    let sorted: Vec<String> = sort_entries(rows, "").into_iter().map(|e| e.title).collect();
    assert_eq!(sorted, vec!["Zorn", "ähre", "Ärger"]);
}

#[test]
fn the_search_finds_parts_of_titles() {
    let mut library = Library::new();
    movie(&mut library, "The ÄRGER Report", "");
    movie(&mut library, "Other", "");
    show(&mut library, "ärgerlich", &[]);
    let mut app = AppState::new(library);
    app.sidebar.search_query = "  äRger ".to_string();
    app.refresh_sidebar();
    assert_eq!(names(&app.sidebar.movies), vec!["The ÄRGER Report"]);
    assert_eq!(names(&app.sidebar.series), vec!["ärgerlich"]);
    app.sidebar.search_query = " \t".to_string();
    app.refresh_sidebar();
    assert_eq!(app.sidebar.movies.len(), 2);
    app.sidebar.search_query = "nothing".to_string();
    app.refresh_sidebar();
    assert!(app.sidebar.movies.is_empty());
}

#[test]
fn sections_fold() {
    let mut app = AppState::new(Library::new());
    let before = (app.sidebar.movies_expanded, app.sidebar.series_expanded);
    app.toggle_movies();
    assert_eq!((app.sidebar.movies_expanded, app.sidebar.series_expanded), (!before.0, before.1));
    app.toggle_series();
    assert_eq!((app.sidebar.movies_expanded, app.sidebar.series_expanded), (!before.0, !before.1));
}

#[test]
fn a_movie_is_opened() {
    let mut library = Library::new();
    let id = movie(&mut library, "Alien", "/a.mkv");
    update_entry_resume(&mut library, id, 90, 3600, false);
    let mut app = AppState::new(library);
    app.set_status("old");
    app.select_entry(id);
    assert_eq!(app.selected, Selection::Movie(id));
    assert_eq!(app.detail.title, "Alien");
    assert_eq!(app.detail.kind, "movie");
    assert_eq!(app.detail.description, "about");
    assert_eq!(app.detail.link, "/a.mkv");
    assert_eq!(app.detail.progress, "1:30 / 1:00:00");
    assert!(app.detail.has_selection && app.detail.resume_enabled && app.detail.play_enabled);
    assert!(app.detail.top_resume_enabled && !app.detail.watched);
    assert!(app.detail.seasons.is_empty());
    assert_eq!(app.detail.entry_id, id);
    assert_eq!(app.status, "");
}

#[test]
fn a_series_is_opened_at_its_first_episode() {
    let mut library = Library::new();
    let (id, ids) = show(&mut library, "Show", &[(2, 1), (1, 1), (1, 2)]);
    update_episode_resume(&mut library, ids[1], 5, 60, false);
    let mut app = AppState::new(library);
    app.select_entry(id);
    assert_eq!(app.selected, Selection::Series { entry_id: id, episode_id: Some(ids[1]) });
    assert_eq!(app.detail.kind, "series");
    assert_eq!(app.detail.link, "link");
    assert_eq!(app.detail.episode_description, "ep");
    assert_eq!(app.detail.progress, "0:05 / 1:00");
    assert!(app.detail.resume_enabled && app.detail.play_enabled && app.detail.top_resume_enabled);
    let labels: Vec<&str> = app.detail.seasons.iter().map(|g| g.label.as_str()).collect();
    assert_eq!(labels, vec!["Season 1", "Season 2"]);
    assert_eq!(app.detail.seasons[0].season, 1);
    let first = &app.detail.seasons[0].episodes[0];
    assert_eq!((first.id, first.label.as_str(), first.selected), (ids[1], "S01E01", true));
    assert!(!app.detail.seasons[0].episodes[1].selected);
    assert_eq!(app.detail.seasons[1].episodes.len(), 1);
}

#[test]
fn an_empty_series_is_opened() {
    let mut library = Library::new();
    let (id, _) = show(&mut library, "Show", &[]);
    let mut app = AppState::new(library);
    app.select_entry(id);
    assert_eq!(app.selected, Selection::Series { entry_id: id, episode_id: None });
    assert!(!app.detail.watched && !app.detail.top_resume_enabled);
    assert!(!app.detail.play_enabled && !app.detail.resume_enabled);
    assert_eq!(app.detail.link, "");
}

#[test]
fn a_series_is_watched_when_all_episodes_are() {
    let mut library = Library::new();
    let (id, ids) = show(&mut library, "Show", &[(1, 1), (1, 2)]);
    update_episode_resume(&mut library, ids[0], 0, 60, true);
    let mut app = AppState::new(library);
    app.select_entry(id);
    assert!(!app.detail.watched);
    update_episode_resume(&mut app.library, ids[1], 0, 60, true);
    app.select_entry(id);
    assert!(app.detail.watched);
}

#[test]
fn opening_what_is_not_there_leaves_bulk_mode_only() {
    let mut library = Library::new();
    let (id, ids) = show(&mut library, "Show", &[(1, 1)]);
    let mut app = AppState::new(library);
    app.select_entry(id);
    app.toggle_bulk_select_mode();
    app.toggle_bulk_selected(ids[0]);
    app.select_entry(id);
    assert!(app.bulk.mode && app.bulk.selected.len() == 1);
    app.select_entry(99);
    assert!(!app.bulk.mode && app.bulk.selected.is_empty());
    assert_eq!(app.bulk.count, 1);
    assert_eq!(app.selected.open_entry(), Some(id));
    app.select_episode(99);
    assert_eq!(app.detail.title, "Show");
}

#[test]
fn steps_stop_at_both_ends() {
    let mut library = Library::new();
    let (id, ids) = show(&mut library, "Show", &[(1, 1), (1, 2), (2, 1)]);
    let mut app = AppState::new(library);
    app.select_entry(id);
    app.select_adjacent_episode(-1);
    assert_eq!(app.selected, Selection::Series { entry_id: id, episode_id: Some(ids[0]) });
    app.select_adjacent_episode(1);
    app.select_adjacent_episode(1);
    assert_eq!(app.selected, Selection::Series { entry_id: id, episode_id: Some(ids[2]) });
    assert!(app.detail.seasons[1].episodes[0].selected);
    app.select_adjacent_episode(1);
    assert_eq!(app.selected, Selection::Series { entry_id: id, episode_id: Some(ids[2]) });
    app.select_adjacent_episode(-1);
    assert_eq!(app.selected, Selection::Series { entry_id: id, episode_id: Some(ids[1]) });
}

#[test]
fn a_step_from_nowhere_leads_to_the_first() {
    let mut library = Library::new();
    let (id, ids) = show(&mut library, "Show", &[(1, 1), (1, 2)]);
    let mut app = AppState::new(library);
    app.selected = Selection::Series { entry_id: id, episode_id: None };
    app.select_adjacent_episode(1);
    assert_eq!(app.selected, Selection::Series { entry_id: id, episode_id: Some(ids[0]) });
    let mut app = AppState::new(Library::new());
    app.select_adjacent_episode(1);
    assert_eq!(app.selected, Selection::Nothing);
}

#[test]
fn the_jump_leads_to_the_first_unfinished() {
    let mut library = Library::new();
    let (id, ids) = show(&mut library, "Show", &[(1, 1), (1, 2)]);
    update_episode_resume(&mut library, ids[0], 0, 60, true);
    let mut app = AppState::new(library);
    app.select_entry(id);
    app.jump_to_next_unfinished();
    assert_eq!(app.selected, Selection::Series { entry_id: id, episode_id: Some(ids[1]) });
    update_episode_resume(&mut app.library, ids[1], 0, 60, true);
    app.jump_to_next_unfinished();
    assert_eq!(app.status, "All episodes are finished.");
}

#[test]
fn the_landing_page_names_what_was_played_last() {
    let mut library = Library::new();
    let m = movie(&mut library, "Alien", "");
    let (s, ids) = show(&mut library, "Show", &[(1, 1), (1, 2)]);
    let mut app = AppState::new(library);
    app.refresh_last_played();
    assert!(!app.landing.has_last_played);
    set_last_played(&mut app.library, EntryKind::Movie, m, None);
    app.refresh_last_played();
    assert!(app.landing.has_last_played);
    assert_eq!(app.landing.last_played_label, "Alien");
    set_last_played(&mut app.library, EntryKind::Series, s, Some(ids[0]));
    update_episode_resume(&mut app.library, ids[0], 0, 60, true);
    app.refresh_last_played();
    assert_eq!(app.landing.last_played_label, "Show - S01E02");
    set_last_played(&mut app.library, EntryKind::Series, 99, None);
    app.refresh_last_played();
    assert_eq!(app.landing.last_played_label, "");
}

#[test]
fn at_most_five_entries_are_continued() {
    let mut library = Library::new();
    for i in 0..6i64 {
        let id = movie(&mut library, &format!("m{}", i), "");
        update_entry_resume(&mut library, id, 10, 100, false);
        touch_last_watched(&mut library, id, i);
    }
    let done = movie(&mut library, "done", "");
    update_entry_resume(&mut library, done, 10, 100, true);
    let (s, ids) = show(&mut library, "Show", &[(1, 1), (1, 2)]);
    update_episode_resume(&mut library, ids[1], 3, 60, false);
    touch_last_watched(&mut library, s, 4);
    show(&mut library, "Fresh", &[(1, 1)]);
    let mut app = AppState::new(library);
    app.refresh_last_played();
    let titles: Vec<&str> =
        app.landing.continue_watching.iter().map(|c| c.title.as_str()).collect();
    assert_eq!(titles, vec!["m5", "m4", "Show", "m3", "m2"]);
    assert_eq!(app.landing.continue_watching[2].kind, EntryKind::Series);
    assert_eq!(app.landing.continue_watching[2].id, s);
}
