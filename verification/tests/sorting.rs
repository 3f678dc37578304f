use aparatchi::db::{EpisodeRank, TextRank};
use aparatchi::sidebar::LargestFirst;
use aparatchi::sorting::sort_rows;

#[test]
fn sorting_keeps_the_order_of_equal_rows() {
    let rows: Vec<(LargestFirst, &str)> = vec![
        (LargestFirst { number: 1 }, "a"),
        (LargestFirst { number: 3 }, "b"),
        (LargestFirst { number: 1 }, "c"),
        (LargestFirst { number: 3 }, "d"),
        (LargestFirst { number: 2 }, "e"),
    ];
    let names: Vec<&str> = sort_rows(rows).into_iter().map(|r| r.1).collect();
    assert_eq!(names, vec!["b", "d", "e", "a", "c"]);
}

#[test]
fn episodes_sort_by_season_and_number() {
    let rows: Vec<(EpisodeRank, i32)> = vec![
        (EpisodeRank { season: 2, episode: 1 }, 1),
        (EpisodeRank { season: 1, episode: 9 }, 2),
        (EpisodeRank { season: 1, episode: 2 }, 3),
        (EpisodeRank { season: 2, episode: 1 }, 4),
    ];
    let order: Vec<i32> = sort_rows(rows).into_iter().map(|r| r.1).collect();
    assert_eq!(order, vec![3, 2, 1, 4]);
}

#[test]
fn sorted_rows_stay() {
    let rows: Vec<(TextRank, i32)> = vec![
        (TextRank { chars: vec!['a'] }, 1),
        (TextRank { chars: vec!['a', 'b'] }, 2),
        (TextRank { chars: vec!['b'] }, 3),
    ];
    let order: Vec<i32> = sort_rows(rows).into_iter().map(|r| r.1).collect();
    assert_eq!(order, vec![1, 2, 3]);
}
