use aparatchi::db::{
    insert_entry, insert_episode, list_entries, list_episodes, touch_last_watched,
    update_entry_resume, update_episode_resume,
};
use aparatchi::models::EntryKind;
use aparatchi::state::AppState;
use aparatchi::tables::Library;
use aparatchi::transfer::{export_library_json, export_library_text, import_library_json};
use serde_json::Value;

fn sample() -> Library {
    let mut library = Library::new();
    let b = insert_entry(&mut library, "Brazil", EntryKind::Movie, "dream", "/b \"q\".mkv").unwrap();
    let _ = insert_entry(&mut library, "alien", EntryKind::Movie, "", "https://x/ä").unwrap();
    update_entry_resume(&mut library, b, 61, 7200, false);
    touch_last_watched(&mut library, b, 1000);
    let s = insert_entry(&mut library, "Show", EntryKind::Series, "desc", "").unwrap();
    let _ = insert_episode(&mut library, s, 2, 1, "later", "", "l2").unwrap();
    let e = insert_episode(&mut library, s, 1, 1, "first", "line\nbreak", "l1").unwrap();
    update_episode_resume(&mut library, e, 0, 1200, true);
    library
}

fn parse(text: &str) -> Value {
    serde_json::from_str(text).unwrap()
}

#[test]
fn a_library_is_written_in_the_order_of_the_lists() {
    let v = export_library_json(&sample());
    assert_eq!(v.get("format").and_then(|f| f.as_str()), Some("aparatchi-library-v1"));
    assert_eq!(v.as_object().unwrap().len(), 3);
    let movies = v.get("movies").unwrap().as_array().unwrap();
    assert_eq!(movies.len(), 2);
    assert_eq!(movies[0].get("title").unwrap().as_str(), Some("alien"));
    assert_eq!(movies[1].get("resume_position").unwrap().as_i64(), Some(61));
    assert_eq!(movies[1].get("duration").unwrap().as_i64(), Some(7200));
    assert_eq!(movies[1].get("finished").unwrap().as_bool(), Some(false));
    assert_eq!(movies[1].get("link_or_path").unwrap().as_str(), Some("/b \"q\".mkv"));
    assert_eq!(movies[1].as_object().unwrap().len(), 6);
    let series = v.get("series").unwrap().as_array().unwrap();
    assert_eq!(series[0].as_object().unwrap().len(), 4);
    assert_eq!(series[0].get("link_or_path").unwrap().as_str(), Some(""));
    let episodes = series[0].get("episodes").unwrap().as_array().unwrap();
    assert_eq!(episodes[0].get("title").unwrap().as_str(), Some("first"));
    assert_eq!(episodes[0].get("finished").unwrap().as_bool(), Some(true));
    assert_eq!(episodes[1].get("season").unwrap().as_i64(), Some(2));
    assert_eq!(episodes[1].as_object().unwrap().len(), 8);
}

#[test]
fn the_text_is_the_pretty_form_of_the_document() {
    let library = sample();
    let v = export_library_json(&library);
    let text = export_library_text(&library);
    assert_eq!(text, serde_json::to_string_pretty(&v).unwrap());
    assert_eq!(parse(&text), v);
}

#[test]
fn an_empty_library_is_written() {
    let v = export_library_json(&Library::new());
    assert!(v.get("movies").unwrap().as_array().unwrap().is_empty());
    assert!(v.get("series").unwrap().as_array().unwrap().is_empty());
}

#[test]
fn a_restored_library_holds_the_same() {
    let library = sample();
    let text = export_library_text(&library);
    let mut app = AppState::new(Library::new());
    app.import_library(&text);
    assert_eq!(app.status, "Imported 2 movie(s) and 1 series.");
    assert_eq!(export_library_text(&app.library), text);
    let movies = list_entries(&app.library, EntryKind::Movie);
    assert_eq!(movies[1].resume_position, 61);
    assert_eq!(movies[1].last_watched_at, 0);
    assert_eq!(app.sidebar.movies.len(), 2);
    assert_eq!(app.sidebar.series.len(), 1);
}

#[test]
fn importing_twice_gives_everything_twice() {
    let v = export_library_json(&sample());
    let mut library = Library::new();
    assert_eq!(import_library_json(&mut library, &v), (2, 1));
    assert_eq!(import_library_json(&mut library, &v), (2, 1));
    assert_eq!(list_entries(&library, EntryKind::Movie).len(), 4);
    let series = list_entries(&library, EntryKind::Series);
    assert_eq!(series.len(), 2);
    for s in &series {
        assert_eq!(list_episodes(&library, s.id).len(), 2);
    }
}

#[test]
fn what_a_document_lacks_gets_a_default() {
    let v = parse(r#"{"movies": [{}, {"title": 5, "finished": "yes", "duration": 1.5}, 7],
        "series": [{"episodes": [{}, {"season": 4294967298, "episode": -2}]}, {"title": "S", "episodes": 3}]}"#);
    let mut library = Library::new();
    assert_eq!(import_library_json(&mut library, &v), (3, 2));
    for m in library.entries().iter().take(3) {
        assert_eq!(m.title, "Untitled");
        assert_eq!((m.description.as_str(), m.link_or_path.as_str()), ("", ""));
        assert_eq!((m.resume_position, m.duration, m.finished), (0, 0, false));
        assert_eq!(m.kind, EntryKind::Movie);
    }
    let series = list_entries(&library, EntryKind::Series);
    assert_eq!(series[0].title, "S");
    assert_eq!(series[1].title, "Untitled");
    let episodes = library.episodes();
    assert_eq!((episodes[0].season, episodes[0].episode), (1, 1));
    assert_eq!((episodes[1].season, episodes[1].episode), (2, -2));
    assert_eq!(episodes[0].title, "");
}

#[test]
fn a_document_of_something_else_adds_nothing() {
    let mut library = Library::new();
    assert_eq!(import_library_json(&mut library, &parse("[1, 2]")), (0, 0));
    assert_eq!(import_library_json(&mut library, &parse("null")), (0, 0));
    assert_eq!(import_library_json(&mut library, &parse(r#"{"movies": {}}"#)), (0, 0));
    assert!(library.journal().is_empty());
}

#[test]
fn a_full_library_counts_what_was_added() {
    let mut library =
        Library::load(vec![], vec![], vec![], None, None, None, i64::MAX - 1, 0).unwrap();
    let v = export_library_json(&sample());
    assert_eq!(import_library_json(&mut library, &v), (1, 0));
    assert_eq!(library.entries().len(), 1);
    assert_eq!(library.entries()[0].title, "alien");
}

#[test]
fn unreadable_documents_are_reported() {
    let mut app = AppState::new(Library::new());
    app.import_library("{");
    let cause = serde_json::from_str::<Value>("{").err().unwrap().to_string();
    assert_eq!(app.status, format!("Import failed: {}", cause));
    app.import_failed("no such file");
    assert_eq!(app.status, "Import failed: no such file");
    app.finish_export(Ok(()));
    assert_eq!(app.status, "Library exported.");
    app.finish_export(Err("disk full".to_string()));
    assert_eq!(app.status, "Export failed: disk full");
    app.finish_import(Err("bad".to_string()));
    assert_eq!(app.status, "Import failed: bad");
}

#[test]
fn the_link_of_a_series_comes_back() {
    let mut library = Library::new();
    let _ = insert_entry(&mut library, "Show", EntryKind::Series, "desc", "https://x/show").unwrap();
    let mut restored = Library::new();
    assert_eq!(import_library_json(&mut restored, &export_library_json(&library)), (0, 1));
    let entries = list_entries(&restored, EntryKind::Series);
    assert_eq!(entries.len(), 1);
    assert_eq!(entries[0].link_or_path, "https://x/show");
    let old = parse(
        "{\"format\":\"aparatchi-library-v1\",\"movies\":[],\"series\":[{\"title\":\"Old\",\"description\":\"\",\"episodes\":[]}]}",
    );
    let mut restored = Library::new();
    assert_eq!(import_library_json(&mut restored, &old), (0, 1));
    assert_eq!(list_entries(&restored, EntryKind::Series)[0].link_or_path, "");
}
