use aparatchi::db::{
    clear_last_played, current_episode, delete_entry, delete_episode, delete_season, ensure_column,
    first_unfinished_episode, get_entry, get_episode, get_last_played, get_season_pattern,
    get_subtitle_lang, get_vlc_path, insert_entry, insert_episode, last_episode, list_entries,
    list_episodes, next_episode, parse_last_played, row_to_entry, row_to_episode, set_last_played,
    set_season_pattern, set_subtitle_lang, set_vlc_path, touch_last_watched, update_entry,
    update_entry_resume, update_episode, update_episode_resume, DbError, EntryRow, EpisodeRow,
    LastPlayed,
};
use aparatchi::models::{Entry, EntryKind, Episode};
use aparatchi::state::AppState;
use aparatchi::tables::{Change, Library, LoadError, SeasonPattern, Setting};
use aparatchi::transfer::export_library_json;

fn row(id: i64, title: &str, kind: &str) -> EntryRow {
    EntryRow {
        id,
        title: title.to_string(),
        kind: kind.to_string(),
        description: String::new(),
        link_or_path: "x".to_string(),
        resume_position: 0,
        duration: 0,
        finished: 0,
        last_watched_at: 0,
    }
}

fn entry(id: i64, title: &str) -> EntryRow {
    row(id, title, "movie")
}

fn episode(id: i64, entry_id: i64) -> Episode {
    Episode {
        id,
        entry_id,
        season: 1,
        episode: 1,
        title: String::new(),
        description: String::new(),
        link_or_path: String::new(),
        resume_position: 0,
        duration: 0,
        finished: false,
    }
}

fn load(entries: Vec<EntryRow>, episodes: Vec<Episode>, patterns: Vec<SeasonPattern>, last: i64) -> Result<Library, LoadError> {
    Library::load(entries, episodes, patterns, None, None, None, last, 0)
}

fn pattern(entry_id: i64, season: i32) -> SeasonPattern {
    SeasonPattern { entry_id, season, pattern: "*".to_string(), season_width: 2, ep_width: 2 }
}

fn titles(rows: &[Entry]) -> Vec<&str> {
    rows.iter().map(|e| e.title.as_str()).collect()
}

fn series(library: &mut Library, numbers: &[(i32, i32)]) -> (i64, Vec<i64>) {
    let id = insert_entry(library, "Show", EntryKind::Series, "", "").unwrap();
    let ids = numbers
        .iter()
        .map(|(s, e)| insert_episode(library, id, *s, *e, "", "", "link").unwrap())
        .collect();
    (id, ids)
}

#[test]
fn rows_are_loaded_in_order() {
    let library = load(vec![entry(2, "b"), entry(5, "a")], vec![], vec![], 9).unwrap();
    assert_eq!(library.entries().len(), 2);
    assert_eq!(library.last_entry_id(), 9);
    let library = load(vec![entry(2, "b"), entry(12, "a")], vec![], vec![], 9).unwrap();
    assert_eq!(library.last_entry_id(), 12);
    assert!(library.journal().is_empty());
}

#[test]
fn only_the_word_for_a_kind_is_listed() {
    let rows = vec![
        row(1, "m", "movie"),
        row(2, "s", "series"),
        row(3, "upper", "Movie"),
        row(4, "other", "documentary"),
        row(5, "none", ""),
    ];
    let mut library = load(rows, vec![episode(1, 4)], vec![], 0).unwrap();
    assert_eq!(titles(&list_entries(&library, EntryKind::Movie)), vec!["m"]);
    assert_eq!(titles(&list_entries(&library, EntryKind::Series)), vec!["s"]);
    assert_eq!(library.entries().len(), 5);
    let e = get_entry(&library, 4).unwrap();
    assert_eq!((e.title.as_str(), e.kind), ("other", EntryKind::Movie));
    assert!(library.is_unlisted(4) && !library.is_unlisted(1) && !library.is_unlisted(9));
    update_entry(&mut library, 4, "renamed", "", "x");
    touch_last_watched(&mut library, 4, 7);
    assert_eq!(get_entry(&library, 4).unwrap().title, "renamed");
    assert_eq!(titles(&list_entries(&library, EntryKind::Movie)), vec!["m"]);
    delete_entry(&mut library, 4);
    assert!(get_entry(&library, 4).is_err());
    assert!(!library.is_unlisted(4));
    assert!(library.episodes().is_empty());
    let new = insert_entry(&mut library, "new", EntryKind::Movie, "", "").unwrap();
    assert_eq!(new, 6);
    assert_eq!(titles(&list_entries(&library, EntryKind::Movie)), vec!["m", "new"]);
    let mut app = AppState::new(library);
    app.refresh_sidebar();
    assert_eq!(app.sidebar.movies.len(), 2);
    let v = export_library_json(&app.library);
    assert_eq!(v.get("movies").unwrap().as_array().unwrap().len(), 2);
    app.select_entry(5);
    assert_eq!((app.detail.title.as_str(), app.detail.kind.as_str()), ("none", "movie"));
}

#[test]
fn rows_out_of_order_are_turned_down() {
    assert_eq!(
        load(vec![entry(5, "a"), entry(2, "b")], vec![], vec![], 0).err(),
        Some(LoadError::EntriesOutOfOrder)
    );
    assert_eq!(
        load(vec![], vec![episode(1, 1), episode(1, 1)], vec![], 0).err(),
        Some(LoadError::EpisodesOutOfOrder)
    );
    assert_eq!(
        load(vec![], vec![], vec![pattern(1, 2), pattern(1, 3), pattern(1, 2)], 0).err(),
        Some(LoadError::PatternRepeated)
    );
}

#[test]
fn entries_read_back() {
    let mut library = Library::new();
    let id = insert_entry(&mut library, "Alien", EntryKind::Movie, "d", "/a.mkv").unwrap();
    assert_eq!(id, 1);
    let e = get_entry(&library, id).unwrap();
    assert_eq!((e.title.as_str(), e.description.as_str(), e.link_or_path.as_str()), ("Alien", "d", "/a.mkv"));
    assert_eq!((e.resume_position, e.duration, e.finished, e.last_watched_at), (0, 0, false, 0));
    update_entry(&mut library, id, "Aliens", "e", "/b.mkv");
    update_entry_resume(&mut library, id, 12, 100, true);
    touch_last_watched(&mut library, id, 77);
    let e = get_entry(&library, id).unwrap();
    assert_eq!((e.title.as_str(), e.description.as_str(), e.link_or_path.as_str()), ("Aliens", "e", "/b.mkv"));
    assert_eq!((e.resume_position, e.duration, e.finished, e.last_watched_at), (12, 100, true, 77));
    assert_eq!(get_entry(&library, 99).err(), Some(DbError::NotFound));
}

#[test]
fn entries_are_listed_by_title() {
    let mut library = Library::new();
    for t in ["beta", "Alpha", "gamma", "alpha", "Äther"] {
        insert_entry(&mut library, t, EntryKind::Movie, "", "").unwrap();
    }
    insert_entry(&mut library, "Show", EntryKind::Series, "", "").unwrap();
    let listed = list_entries(&library, EntryKind::Movie);
    assert_eq!(titles(&listed), vec!["Alpha", "alpha", "beta", "gamma", "Äther"]);
    assert_eq!(titles(&list_entries(&library, EntryKind::Series)), vec!["Show"]);
}

#[test]
fn ids_are_not_used_twice() {
    let mut library = Library::new();
    let a = insert_entry(&mut library, "a", EntryKind::Movie, "", "").unwrap();
    delete_entry(&mut library, a);
    let b = insert_entry(&mut library, "b", EntryKind::Movie, "", "").unwrap();
    assert!(b > a);
    let (_, ids) = series(&mut library, &[(1, 1)]);
    delete_episode(&mut library, ids[0]);
    let (_, more) = series(&mut library, &[(1, 1)]);
    assert!(more[0] > ids[0]);
}

#[test]
fn a_full_library_takes_nothing_more() {
    let mut library = load(vec![], vec![], vec![], i64::MAX).unwrap();
    let e = insert_entry(&mut library, "a", EntryKind::Movie, "", "").err().unwrap();
    assert_eq!(e, DbError::Full);
    assert_eq!(e.message(), "database or disk is full");
    assert!(library.journal().is_empty());
    let mut library =
        Library::load(vec![entry(1, "s")], vec![], vec![], None, None, None, 1, i64::MAX).unwrap();
    assert_eq!(insert_episode(&mut library, 1, 1, 1, "", "", "").err(), Some(DbError::Full));
}

#[test]
fn an_episode_needs_its_entry() {
    let mut library = Library::new();
    let e = insert_episode(&mut library, 3, 1, 1, "", "", "").err().unwrap();
    assert_eq!(e, DbError::NoSuchEntry);
    assert_eq!(e.message(), "FOREIGN KEY constraint failed");
    assert_eq!(DbError::NotFound.message(), "Query returned no rows");
}

#[test]
fn episodes_read_back() {
    let mut library = Library::new();
    let (id, ids) = series(&mut library, &[(1, 1), (1, 2)]);
    update_episode(&mut library, ids[0], "t", "d", "l");
    update_episode_resume(&mut library, ids[0], 5, 50, false);
    let e = get_episode(&library, ids[0]).unwrap();
    assert_eq!((e.title.as_str(), e.description.as_str(), e.link_or_path.as_str()), ("t", "d", "l"));
    assert_eq!((e.entry_id, e.resume_position, e.duration, e.finished), (id, 5, 50, false));
    let other = get_episode(&library, ids[1]).unwrap();
    assert_eq!((other.resume_position, other.link_or_path.as_str()), (0, "link"));
    assert_eq!(get_episode(&library, 99).err(), Some(DbError::NotFound));
}

#[test]
fn deleting_an_entry_takes_its_episodes() {
    let mut library = Library::new();
    let (a, ids) = series(&mut library, &[(1, 1), (1, 2)]);
    let (b, kept) = series(&mut library, &[(1, 1)]);
    delete_entry(&mut library, a);
    assert!(get_entry(&library, a).is_err());
    assert!(list_episodes(&library, a).is_empty());
    assert!(get_episode(&library, ids[0]).is_err());
    assert_eq!(list_episodes(&library, b).len(), 1);
    assert!(get_episode(&library, kept[0]).is_ok());
}

#[test]
fn deleting_a_season_takes_its_pattern() {
    let mut library = Library::new();
    let (id, _) = series(&mut library, &[(1, 1), (2, 1), (2, 2)]);
    set_season_pattern(&mut library, id, 1, "a*", 2, 3);
    set_season_pattern(&mut library, id, 2, "b*", 1, 1);
    delete_season(&mut library, id, 2);
    assert_eq!(list_episodes(&library, id).len(), 1);
    assert_eq!(get_season_pattern(&library, id, 2), None);
    assert_eq!(get_season_pattern(&library, id, 1), Some(("a*".to_string(), 2, 3)));
    set_season_pattern(&mut library, id, 1, "c*", 4, 5);
    assert_eq!(get_season_pattern(&library, id, 1), Some(("c*".to_string(), 4, 5)));
}

#[test]
fn the_next_episode_follows_the_numbers() {
    let mut library = Library::new();
    let (id, ids) = series(&mut library, &[(2, 1), (1, 1), (1, 3), (1, 2)]);
    let order: Vec<i64> = list_episodes(&library, id).iter().map(|e| e.id).collect();
    assert_eq!(order, vec![ids[1], ids[3], ids[2], ids[0]]);
    assert_eq!(next_episode(&library, id, 1, 1).map(|e| e.id), Some(ids[3]));
    assert_eq!(next_episode(&library, id, 1, 3).map(|e| e.id), Some(ids[0]));
    assert_eq!(next_episode(&library, id, 0, 9).map(|e| e.id), Some(ids[1]));
    assert_eq!(next_episode(&library, id, 2, 1).map(|e| e.id), None);
}

#[test]
fn watching_goes_on_with_the_first_unfinished() {
    let mut library = Library::new();
    let (id, ids) = series(&mut library, &[(1, 1), (1, 2), (1, 3)]);
    assert_eq!(current_episode(&library, id).map(|e| e.id), Some(ids[0]));
    update_episode_resume(&mut library, ids[0], 0, 10, true);
    assert_eq!(first_unfinished_episode(&library, id).map(|e| e.id), Some(ids[1]));
    assert_eq!(current_episode(&library, id).map(|e| e.id), Some(ids[1]));
    update_episode_resume(&mut library, ids[1], 0, 10, true);
    update_episode_resume(&mut library, ids[2], 0, 10, true);
    assert_eq!(first_unfinished_episode(&library, id).map(|e| e.id), None);
    assert_eq!(last_episode(&library, id).map(|e| e.id), Some(ids[2]));
    assert_eq!(current_episode(&library, id).map(|e| e.id), Some(ids[2]));
    assert!(current_episode(&library, 99).is_none());
}

#[test]
fn of_equal_last_episodes_the_first_added_is_taken() {
    let mut library = Library::new();
    let (id, ids) = series(&mut library, &[(1, 1), (2, 5), (2, 5)]);
    assert_eq!(last_episode(&library, id).map(|e| e.id), Some(ids[1]));
}

#[test]
fn last_played_reads_back() {
    let mut library = Library::new();
    assert_eq!(get_last_played(&library), None);
    set_last_played(&mut library, EntryKind::Movie, 7, None);
    assert_eq!(
        get_last_played(&library),
        Some(LastPlayed { kind: EntryKind::Movie, entry_id: 7, episode_id: None })
    );
    set_last_played(&mut library, EntryKind::Series, 7, Some(-3));
    assert_eq!(
        get_last_played(&library),
        Some(LastPlayed { kind: EntryKind::Series, entry_id: 7, episode_id: Some(-3) })
    );
    clear_last_played(&mut library);
    assert_eq!(get_last_played(&library), None);
}

#[test]
fn odd_last_played_values_are_read_leniently() {
    assert_eq!(
        parse_last_played("movie:5:"),
        Some(LastPlayed { kind: EntryKind::Movie, entry_id: 5, episode_id: None })
    );
    assert_eq!(
        parse_last_played("series:5:x"),
        Some(LastPlayed { kind: EntryKind::Series, entry_id: 5, episode_id: None })
    );
    assert_eq!(parse_last_played("movie:x:1"), None);
    assert_eq!(parse_last_played("movie"), None);
}

#[test]
fn settings_read_back() {
    let mut library = Library::new();
    assert_eq!(get_vlc_path(&library), None);
    assert_eq!(get_subtitle_lang(&library), None);
    set_vlc_path(&mut library, "/opt/vlc");
    set_subtitle_lang(&mut library, "fas");
    assert_eq!(get_vlc_path(&library), Some("/opt/vlc".to_string()));
    assert_eq!(get_subtitle_lang(&library), Some("fas".to_string()));
    assert_eq!(Setting::VlcPath.key(), "vlc_path");
    assert_eq!(Setting::LastPlayed.key(), "last_played");
    assert_eq!(Setting::SubtitleLang.key(), "subtitle_lang");
}

#[test]
fn the_journal_tells_every_change() {
    let mut library = Library::new();
    let (id, ids) = series(&mut library, &[(1, 1)]);
    delete_season(&mut library, id, 1);
    let journal = library.take_journal();
    assert_eq!(journal.len(), 4);
    assert!(matches!(&journal[0], Change::InsertEntry { id: k, kind: EntryKind::Series, .. } if *k == id));
    assert!(matches!(&journal[1], Change::InsertEpisode { id: k, .. } if *k == ids[0]));
    assert!(matches!(&journal[2], Change::DeleteSeasonEpisodes { season: 1, .. }));
    assert!(matches!(&journal[3], Change::DeleteSeasonPattern { season: 1, .. }));
    assert!(library.journal().is_empty());
}

#[test]
fn replaying_the_journal_gives_the_same_rows() {
    let mut library = Library::new();
    let (id, ids) = series(&mut library, &[(1, 1), (1, 2)]);
    update_episode_resume(&mut library, ids[1], 3, 9, true);
    set_vlc_path(&mut library, "v");
    delete_episode(&mut library, ids[0]);
    update_entry(&mut library, id, "New", "", "");
    let mut copy = Library::new();
    for change in library.take_journal() {
        copy.execute(change);
    }
    assert_eq!(copy.entries().len(), 1);
    assert_eq!(copy.entries()[0].title, "New");
    assert_eq!(copy.episodes().len(), 1);
    assert_eq!(copy.episodes()[0].id, ids[1]);
    assert!(copy.episodes()[0].finished);
    assert_eq!(get_vlc_path(&copy), Some("v".to_string()));
    assert_eq!(copy.last_episode_id(), library.last_episode_id());
}

#[test]
fn stored_rows_become_entries_and_episodes() {
    let e = row_to_entry(EntryRow {
        id: 4,
        title: "t".to_string(),
        kind: "series".to_string(),
        description: "d".to_string(),
        link_or_path: "l".to_string(),
        resume_position: 1,
        duration: 2,
        finished: 3,
        last_watched_at: 5,
    });
    assert_eq!(e.kind, EntryKind::Series);
    assert!(e.finished);
    assert_eq!((e.id, e.resume_position, e.duration, e.last_watched_at), (4, 1, 2, 5));
    let e = row_to_episode(EpisodeRow {
        id: 4,
        entry_id: 6,
        season: 2,
        episode: 3,
        title: "t".to_string(),
        description: "d".to_string(),
        link_or_path: "l".to_string(),
        resume_position: 1,
        duration: 2,
        finished: 0,
    });
    assert!(!e.finished);
    assert_eq!((e.id, e.entry_id, e.season, e.episode), (4, 6, 2, 3));
}

#[test]
fn missing_columns_are_added() {
    let existing: Vec<String> = vec!["id".to_string(), "finished".to_string()];
    assert_eq!(ensure_column("entries", &existing, "finished", "finished INTEGER"), None);
    assert_eq!(
        ensure_column("entries", &existing, "extra", "extra TEXT"),
        Some("ALTER TABLE entries ADD COLUMN extra TEXT".to_string())
    );
}
