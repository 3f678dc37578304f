use aparatchi::models::{code_text, EntryKind, Episode};

fn episode(season: i32, number: i32, title: &str) -> Episode {
    Episode {
        id: 1,
        entry_id: 1,
        season,
        episode: number,
        title: title.to_string(),
        description: String::new(),
        link_or_path: String::new(),
        resume_position: 0,
        duration: 0,
        finished: false,
    }
}

#[test]
fn kinds_are_stored_as_words() {
    assert_eq!(EntryKind::Movie.as_str(), "movie");
    assert_eq!(EntryKind::Series.as_str(), "series");
    assert_eq!(EntryKind::from_str("series"), EntryKind::Series);
    assert_eq!(EntryKind::from_str("movie"), EntryKind::Movie);
    assert_eq!(EntryKind::from_str("Series"), EntryKind::Movie);
}

#[test]
fn kinds_read_back() {
    for kind in [EntryKind::Movie, EntryKind::Series] {
        assert_eq!(EntryKind::from_str(kind.as_str()), kind);
    }
}

#[test]
fn labels_show_numbers_and_title() {
    assert_eq!(episode(1, 2, "Pilot").label(), "S01E02 - Pilot");
    assert_eq!(episode(1, 2, "").label(), "S01E02");
    assert_eq!(episode(12, 345, " \t").label(), "S12E345");
    assert_eq!(episode(-1, 0, "x").label(), "S-1E00 - x");
    assert_eq!(code_text(3, 4), "S03E04");
}
