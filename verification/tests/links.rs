use aparatchi::db::{insert_entry, insert_episode};
use aparatchi::links::collect_links;
use aparatchi::models::EntryKind;
use aparatchi::state::AppState;
use aparatchi::tables::Library;

fn movies(count: usize) -> AppState {
    let mut library = Library::new();
    for i in 0..count {
        let title = format!("m{}", i);
        insert_entry(&mut library, &title, EntryKind::Movie, "", "x").unwrap();
    }
    AppState::new(library)
}

fn run(app: &mut AppState, ok: &dyn Fn(&str, usize) -> bool) -> Vec<String> {
    let mut check = app.check_all_links();
    let mut told = vec![app.status.clone()];
    let mut i = 0;
    while let Some(link) = check.next_link() {
        let answer = ok(link, i);
        app.link_checked(&mut check, answer);
        if told.last() != Some(&app.status) {
            told.push(app.status.clone());
        }
        i += 1;
    }
    told
}

#[test]
fn links_are_collected_in_the_order_of_the_lists() {
    let mut library = Library::new();
    insert_entry(&mut library, "b", EntryKind::Movie, "", "lb").unwrap();
    insert_entry(&mut library, "a", EntryKind::Movie, "", "la").unwrap();
    insert_entry(&mut library, "none", EntryKind::Movie, "", "  ").unwrap();
    let s = insert_entry(&mut library, "Show", EntryKind::Series, "", "not used").unwrap();
    insert_episode(&mut library, s, 1, 2, "Two", "", "l2").unwrap();
    insert_episode(&mut library, s, 1, 1, "", "", "l1").unwrap();
    insert_episode(&mut library, s, 1, 3, "", "", "").unwrap();
    let items: Vec<(String, String)> =
        collect_links(&library).into_iter().map(|i| (i.label, i.link)).collect();
    let expected: Vec<(String, String)> = vec![
        ("a".to_string(), "la".to_string()),
        ("b".to_string(), "lb".to_string()),
        ("Show - S01E01".to_string(), "l1".to_string()),
        ("Show - S01E02 - Two".to_string(), "l2".to_string()),
    ];
    assert_eq!(items, expected);
}

#[test]
fn no_links_are_told() {
    let mut app = AppState::new(Library::new());
    assert_eq!(run(&mut app, &|_, _| true), vec!["No links to check."]);
}

#[test]
fn a_check_tells_how_far_it_is() {
    let mut app = movies(11);
    assert_eq!(
        run(&mut app, &|_, _| true),
        vec![
            "Checking links...",
            "Checking links... 5/11",
            "Checking links... 10/11",
            "Checked 11 link(s). All resolved fine.",
        ]
    );
}

#[test]
fn broken_links_are_named() {
    let mut app = movies(3);
    let told = run(&mut app, &|_, i| i == 1);
    assert_eq!(told.last().unwrap(), "Checked 3 link(s) - 2 broken: m0, m2");
    let mut app = movies(7);
    let told = run(&mut app, &|_, i| i == 6);
    assert_eq!(told.last().unwrap(), "Checked 7 link(s) - 6 broken: m0, m1, m2, m3, m4, and 1 more.");
    let mut app = movies(5);
    let told = run(&mut app, &|_, _| false);
    assert_eq!(told.last().unwrap(), "Checked 5 link(s) - 5 broken: m0, m1, m2, m3, m4");
}
