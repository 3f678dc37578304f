use aparatchi::adding::{AddStep, SeriesJob};
use aparatchi::db::{
    get_entry, get_season_pattern, insert_entry, insert_episode, list_entries, list_episodes,
};
use aparatchi::models::EntryKind;
use aparatchi::pattern::{FoundEpisode, ProbeError};
use aparatchi::state::{AppState, Selection};
use aparatchi::tables::Library;

fn found(rows: &[(i32, i32)]) -> Vec<FoundEpisode> {
    rows.iter()
        .map(|(season, episode)| FoundEpisode {
            season: *season,
            episode: *episode,
            link: format!("l{}-{}", season, episode),
        })
        .collect()
}

fn job() -> SeriesJob {
    SeriesJob {
        title: "Show".to_string(),
        description: "d".to_string(),
        pattern: "S#E*".to_string(),
        season_start: 1,
        season_width: 2,
        ep_start: 1,
        ep_width: 3,
        poster_source: String::new(),
    }
}

fn with_series(numbers: &[(i32, i32)]) -> (AppState, i64) {
    let mut library = Library::new();
    let id = insert_entry(&mut library, "Show", EntryKind::Series, "", "").unwrap();
    for (s, e) in numbers {
        insert_episode(&mut library, id, *s, *e, "", "", "x").unwrap();
    }
    let mut app = AppState::new(library);
    app.select_entry(id);
    (app, id)
}

fn full() -> AppState {
    AppState::new(Library::load(vec![], vec![], vec![], None, None, None, i64::MAX, 0).unwrap())
}

#[test]
fn the_form_opens_empty() {
    let mut app = AppState::new(Library::new());
    app.add_form.title = "x".to_string();
    app.set_status("old");
    app.open_add_dialog();
    assert!(app.add_form.open && !app.add_form.in_progress);
    assert_eq!(app.add_form.title, "");
    assert_eq!(app.add_form.kind, "movie");
    assert_eq!(app.add_form.pattern_season_start, "1");
    assert_eq!(app.add_form.pattern_season_width, "2");
    assert_eq!(app.status, "");
    app.close_add_dialog();
    assert!(!app.add_form.open);
}

#[test]
fn a_movie_needs_title_and_link() {
    let mut app = AppState::new(Library::new());
    app.open_add_dialog();
    assert!(matches!(app.submit_add(), AddStep::Nothing));
    assert_eq!(app.status, "Title is required.");
    app.add_form.title = "Alien".to_string();
    assert!(matches!(app.submit_add(), AddStep::Nothing));
    assert_eq!(app.status, "Provide a file path or URL.");
    assert!(app.library.entries().is_empty());
}

#[test]
fn a_movie_is_added() {
    let mut app = AppState::new(Library::new());
    app.open_add_dialog();
    app.add_form.title = "Alien".to_string();
    app.add_form.description = "d".to_string();
    app.add_form.link = "/a.mkv".to_string();
    assert!(matches!(app.submit_add(), AddStep::Nothing));
    assert!(!app.add_form.open);
    let movies = list_entries(&app.library, EntryKind::Movie);
    assert_eq!(movies.len(), 1);
    assert_eq!(movies[0].link_or_path, "/a.mkv");
    assert_eq!(app.sidebar.movies[0].title, "Alien");
}

#[test]
fn a_chosen_picture_becomes_the_poster() {
    let mut app = AppState::new(Library::new());
    app.open_add_dialog();
    app.add_form.title = "Alien".to_string();
    app.add_form.link = "/a.mkv".to_string();
    app.add_form.poster_path = "/p.jpg".to_string();
    match app.submit_add() {
        AddStep::SavePoster { entry_id, source } => {
            assert_eq!((entry_id, source.as_str()), (1, "/p.jpg"));
        }
        _ => panic!("a poster was chosen"),
    }
}

#[test]
fn a_full_library_is_told() {
    let mut app = full();
    app.open_add_dialog();
    app.add_form.title = "Alien".to_string();
    app.add_form.link = "/a.mkv".to_string();
    assert!(matches!(app.submit_add(), AddStep::Nothing));
    assert_eq!(app.status, "Failed to save: database or disk is full");
    assert!(app.add_form.open);
    let mut app = full();
    assert!(matches!(app.finish_add(&job(), Ok(found(&[(1, 1)]))), AddStep::Nothing));
    assert_eq!(app.status, "Failed to save series: database or disk is full");
}

#[test]
fn a_series_is_probed_for() {
    let mut app = AppState::new(Library::new());
    app.open_add_dialog();
    app.add_form.title = "Show".to_string();
    app.add_form.kind = "series".to_string();
    app.add_form.pattern_link = "S#".to_string();
    assert!(matches!(app.submit_add(), AddStep::Nothing));
    assert_eq!(app.status, "Provide a link pattern containing '*' for the episode number.");
    app.add_form.pattern_link = "S#E*".to_string();
    app.add_form.pattern_season_start = " 3 ".to_string();
    app.add_form.pattern_start = "x".to_string();
    app.add_form.pattern_episode_width = "-1".to_string();
    match app.submit_add() {
        AddStep::Probe(job) => {
            assert_eq!((job.season_start, job.season_width, job.ep_start, job.ep_width), (3, 2, 1, 2));
            assert_eq!(job.pattern, "S#E*");
            assert_eq!(job.title, "Show");
        }
        _ => panic!("a series is probed for"),
    }
    assert_eq!(app.status, "Probing for episodes... this may take a while.");
    assert!(app.add_form.in_progress);
    app.probe_found(1, 2);
    assert_eq!(app.status, "Found S01E02, checking next...");
}

#[test]
fn a_series_is_added_with_what_was_found() {
    let mut app = AppState::new(Library::new());
    app.add_form.in_progress = true;
    let step = app.finish_add(&job(), Ok(found(&[(1, 1), (1, 2), (2, 1)])));
    assert!(matches!(step, AddStep::Nothing));
    let series = list_entries(&app.library, EntryKind::Series);
    assert_eq!(series[0].title, "Show");
    let episodes = list_episodes(&app.library, series[0].id);
    assert_eq!(episodes.len(), 3);
    assert_eq!((episodes[2].title.as_str(), episodes[2].link_or_path.as_str()), ("Episode 1", "l2-1"));
    assert_eq!(get_season_pattern(&app.library, series[0].id, 1), Some(("S#E*".to_string(), 2, 3)));
    assert_eq!(get_season_pattern(&app.library, series[0].id, 2), Some(("S#E*".to_string(), 2, 3)));
    assert_eq!(get_season_pattern(&app.library, series[0].id, 3), None);
    assert_eq!(app.selected.open_entry(), Some(series[0].id));
    assert!(!app.add_form.in_progress && !app.add_form.open);
    assert_eq!(app.sidebar.series.len(), 1);
    assert_eq!(app.status, "");
}

#[test]
fn a_failed_probe_is_told() {
    let mut app = AppState::new(Library::new());
    app.add_form.in_progress = true;
    let step = app.finish_add(&job(), Err(ProbeError::NoPlaceholder));
    assert!(matches!(step, AddStep::Nothing));
    assert_eq!(app.status, "Error: pattern must contain a '*' placeholder for the episode number");
    assert!(!app.add_form.in_progress);
    assert!(app.library.entries().is_empty());
}

#[test]
fn the_next_episode_number_is_filled_in() {
    let (mut app, _) = with_series(&[(1, 4), (1, 2), (2, 9)]);
    assert!(app.episode_number_left(1));
    app.open_add_episode_dialog(1);
    assert_eq!((app.episode_form.season.as_str(), app.episode_form.number.as_str()), ("1", "5"));
    app.open_add_episode_dialog(3);
    assert_eq!((app.episode_form.season.as_str(), app.episode_form.number.as_str()), ("3", "1"));
    assert!(app.episode_form.open);
    app.close_add_episode_dialog();
    assert!(!app.episode_form.open);
    let (app, _) = with_series(&[(1, i32::MAX)]);
    assert!(!app.episode_number_left(1));
    assert!(app.episode_number_left(2));
}

#[test]
fn an_episode_is_added_and_selected() {
    let (mut app, id) = with_series(&[(1, 1)]);
    app.open_add_episode_dialog(1);
    app.submit_add_episode();
    assert_eq!(app.status, "Provide a file path or URL for the episode.");
    app.episode_form.link = "/e2.mkv".to_string();
    app.submit_add_episode();
    let episodes = list_episodes(&app.library, id);
    assert_eq!(episodes.len(), 2);
    assert_eq!(episodes[1].title, "Episode 2");
    assert_eq!(app.selected, Selection::Series { entry_id: id, episode_id: Some(episodes[1].id) });
    assert!(!app.episode_form.open);
    app.open_add_episode_dialog(1);
    app.episode_form.title = "Named".to_string();
    app.episode_form.number = "?".to_string();
    app.episode_form.link = "x".to_string();
    app.submit_add_episode();
    assert_eq!(app.library.episodes()[2].title, "Named");
    assert_eq!(app.library.episodes()[2].episode, 1);
}

#[test]
fn an_episode_of_a_lost_series_is_turned_down() {
    let mut app = AppState::new(Library::new());
    app.selected = Selection::Series { entry_id: 5, episode_id: None };
    app.episode_form.link = "x".to_string();
    app.submit_add_episode();
    assert_eq!(app.status, "Failed to add episode: FOREIGN KEY constraint failed");
}

#[test]
fn a_season_is_probed_for_and_added() {
    let (mut app, id) = with_series(&[(1, 1), (3, 1)]);
    assert!(app.season_number_left());
    app.open_add_season_dialog();
    assert_eq!(app.season_form.number, "4");
    assert!(app.submit_add_season().is_none());
    assert_eq!(app.status, "Provide a link pattern containing '*' for the episode number.");
    app.season_form.pattern = "S#E*".to_string();
    let job = app.submit_add_season().unwrap();
    assert_eq!((job.entry_id, job.season, job.season_width, job.ep_start, job.ep_width), (id, 4, 2, 1, 2));
    assert!(app.season_form.in_progress);
    app.finish_add_season(&job, Ok(found(&[(4, 1), (4, 2)])));
    assert_eq!(list_episodes(&app.library, id).len(), 4);
    assert_eq!(get_season_pattern(&app.library, id, 4), Some(("S#E*".to_string(), 2, 2)));
    assert!(!app.season_form.open && !app.season_form.in_progress);
    assert_eq!(app.detail.seasons.len(), 3);
}

#[test]
fn a_season_that_is_not_there_is_told() {
    let (mut app, id) = with_series(&[]);
    app.open_add_season_dialog();
    assert_eq!(app.season_form.number, "1");
    app.season_form.pattern = "S#E*".to_string();
    let job = app.submit_add_season().unwrap();
    app.finish_add_season(&job, Err(ProbeError::NothingInSeason { season: 1, episode: 1 }));
    assert!(app.status.starts_with("Error: no episodes found"));
    assert!(!app.season_form.in_progress);
    assert!(list_episodes(&app.library, id).is_empty());
    app.close_add_season_dialog();
    assert!(!app.season_form.open);
}

#[test]
fn new_episodes_are_probed_for_after_the_last() {
    let mut app = AppState::new(Library::new());
    app.finish_add(&job(), Ok(found(&[(1, 1), (1, 2)])));
    let id = app.selected.open_entry().unwrap();
    assert!(app.reprobe_fits(1));
    let again = app.request_reprobe_season(1).unwrap();
    assert_eq!((again.ep_start, again.season_width, again.ep_width), (3, 2, 3));
    assert_eq!(again.pattern, "S#E*");
    assert_eq!(app.status, "Re-probing season 1 for new episodes...");
    app.finish_reprobe(&again, Err(ProbeError::NothingInSeason { season: 1, episode: 3 }));
    assert_eq!(app.status, "No new episodes found.");
    app.finish_reprobe(&again, Ok(found(&[(1, 3)])));
    assert_eq!(list_episodes(&app.library, id).len(), 3);
    assert!(get_entry(&app.library, id).is_ok());
}

#[test]
fn a_season_added_by_hand_cannot_be_probed_again() {
    let (mut app, _) = with_series(&[(1, i32::MAX)]);
    assert!(app.reprobe_fits(1));
    assert!(app.request_reprobe_season(1).is_none());
    assert_eq!(
        app.status,
        "No saved link pattern for season 1 - can't re-probe. Add episodes manually, or delete and re-add this season with a pattern."
    );
}
