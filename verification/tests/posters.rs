use aparatchi::posters::{
    poster_file, shown_file, POSTER_HEIGHT, POSTER_WIDTH, THUMB_HEIGHT, THUMB_WIDTH,
};

#[test]
fn posters_are_named_by_entry() {
    assert_eq!(poster_file(12, false), "12.png");
    assert_eq!(poster_file(12, true), "12_thumb.png");
    assert_eq!(shown_file(12, true, true), "12_thumb.png");
    assert_eq!(shown_file(12, true, false), "placeholder.png");
    assert_eq!((POSTER_WIDTH, POSTER_HEIGHT, THUMB_WIDTH, THUMB_HEIGHT), (800, 1200, 90, 135));
}

#[test]
fn no_two_posters_share_a_file() {
    let mut seen: Vec<String> = vec!["placeholder.png".to_string()];
    for id in [-11i64, -1, 0, 1, 11, 111] {
        for thumb in [false, true] {
            let name = poster_file(id, thumb);
            assert!(!seen.contains(&name));
            seen.push(name);
        }
    }
}
