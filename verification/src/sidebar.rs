//! The sidebar: searching and sorting the movies and series.

use vstd::prelude::*;

use crate::db::{list_entries, without_keys, TextRank};
use crate::models::{entry_views, Entry, EntryKind, EntryView};
use crate::screen::{entry_item_views, EntryItem, EntryItemView, SidebarView};
use crate::sorting::{by_key, lemma_sorted_map, sort_rows, stable_sorted, Rank};
use crate::state::{AppState, AppView};
use crate::tables::Tables;
use crate::text::{
    blank, chars_of, contains_text, has_text, is_blank, lowercase, same_text, text_le, trim,
    trimmed,
};

verus! {

broadcast use vstd::string::group_string_axioms;

// ---------------------------------------------------------------------
// Sorting
// ---------------------------------------------------------------------

/// The order that a sort mode asks for: the newest first, the most recently
/// watched first, or by title with upper and lower case alike.
pub open spec fn sort_order(mode: Seq<char>) -> spec_fn(EntryView, EntryView) -> bool {
    if mode == "Recently added"@ {
        |a: EntryView, b: EntryView| a.id >= b.id
    } else if mode == "Recently watched"@ {
        |a: EntryView, b: EntryView| a.last_watched_at >= b.last_watched_at
    } else {
        |a: EntryView, b: EntryView| text_le(lowercase(a.title), lowercase(b.title))
    }
}

/// What rows are sorted by: a number, the largest first.
#[derive(Clone, Copy)]
pub struct LargestFirst {
    pub number: i64,
}

impl Rank for LargestFirst {
    open spec fn rank_le(self, other: Self) -> bool {
        self.number >= other.number
    }

    fn at_most(&self, other: &Self) -> (res: bool) {
        self.number >= other.number
    }
}

/// The number that a sort mode with numbers goes by.
spec fn sort_number(e: EntryView, watched: bool) -> i64 {
    if watched {
        e.last_watched_at
    } else {
        e.id
    }
}

fn sort_by_number(entries: Vec<Entry>, watched: bool) -> (res: Vec<Entry>)
    ensures
        entry_views(res@) == stable_sorted(
            entry_views(entries@),
            |a: EntryView, b: EntryView| sort_number(a, watched) >= sort_number(b, watched),
        ),
{
    let ghost f = |r: (LargestFirst, Entry)| r.1@;
    let ghost le = |a: EntryView, b: EntryView| sort_number(a, watched) >= sort_number(b, watched);
    let mut keyed: Vec<(LargestFirst, Entry)> = Vec::new();
    let mut i: usize = 0;
    while i < entries.len()
        invariant
            i <= entries@.len(),
            keyed@.len() == i,
            forall|k: int|
                0 <= k < i ==> (#[trigger] keyed@[k]).1@ == entries@[k]@ && keyed@[k].0.number
                    == sort_number(entries@[k]@, watched),
        decreases entries@.len() - i,
    {
        let row = entries[i].clone();
        let number: i64 = if watched {
            row.last_watched_at
        } else {
            row.id
        };
        keyed.push((LargestFirst { number }, row));
        i += 1;
    }
    let ghost unsorted = keyed@;
    assert(unsorted.map_values(f) == entry_views(entries@));
    let sorted = sort_rows(keyed);
    proof {
        let ok = |r: (LargestFirst, Entry)| r.0.number == sort_number(r.1@, watched);
        lemma_sorted_map(unsorted, f, ok, by_key::<LargestFirst, Entry>(), le);
    }
    let ghost arranged = sorted@;
    let res = without_keys(sorted);
    assert(entry_views(res@) == arranged.map_values(f));
    res
}

fn sort_by_title(entries: Vec<Entry>) -> (res: Vec<Entry>)
    ensures
        entry_views(res@) == stable_sorted(
            entry_views(entries@),
            |a: EntryView, b: EntryView| text_le(lowercase(a.title), lowercase(b.title)),
        ),
{
    let ghost f = |r: (TextRank, Entry)| r.1@;
    let ghost le = |a: EntryView, b: EntryView| text_le(lowercase(a.title), lowercase(b.title));
    let mut keyed: Vec<(TextRank, Entry)> = Vec::new();
    let mut i: usize = 0;
    while i < entries.len()
        invariant
            i <= entries@.len(),
            keyed@.len() == i,
            forall|k: int|
                0 <= k < i ==> (#[trigger] keyed@[k]).1@ == entries@[k]@ && keyed@[k].0.chars@
                    == lowercase(entries@[k]@.title),
        decreases entries@.len() - i,
    {
        let row = entries[i].clone();
        let folded = row.title.as_str().to_lowercase();
        keyed.push((TextRank { chars: chars_of(folded.as_str()) }, row));
        i += 1;
    }
    let ghost unsorted = keyed@;
    assert(unsorted.map_values(f) == entry_views(entries@));
    let sorted = sort_rows(keyed);
    proof {
        let ok = |r: (TextRank, Entry)| r.0.chars@ == lowercase(r.1@.title);
        lemma_sorted_map(unsorted, f, ok, by_key::<TextRank, Entry>(), le);
    }
    let ghost arranged = sorted@;
    let res = without_keys(sorted);
    assert(entry_views(res@) == arranged.map_values(f));
    res
}

/// Sorts entries the way a sort mode asks for; those that it does not tell
/// apart keep their order.
pub fn sort_entries(entries: Vec<Entry>, mode: &str) -> (res: Vec<Entry>)
    ensures
        entry_views(res@) == stable_sorted(entry_views(entries@), sort_order(mode@)),
{
    let ghost all = entry_views(entries@);
    if same_text(mode, "Recently added") {
        let res = sort_by_number(entries, false);
        assert(sort_order(mode@) =~= (|a: EntryView, b: EntryView|
            sort_number(a, false) >= sort_number(b, false)));
        res
    } else if same_text(mode, "Recently watched") {
        let res = sort_by_number(entries, true);
        assert("Recently watched"@ != "Recently added"@) by {
            reveal_strlit("Recently watched");
            reveal_strlit("Recently added");
        }
        assert(sort_order(mode@) =~= (|a: EntryView, b: EntryView|
            sort_number(a, true) >= sort_number(b, true)));
        res
    } else {
        sort_by_title(entries)
    }
}

// ---------------------------------------------------------------------
// Searching
// ---------------------------------------------------------------------

/// A search finds the titles that hold what is searched for, upper and lower
/// case alike; a blank one finds everything.
pub open spec fn found_by(search: Seq<char>) -> spec_fn(EntryView) -> bool {
    |e: EntryView|
        blank(lowercase(search)) || contains_text(lowercase(e.title), trimmed(lowercase(search)))
}

fn search_entries(entries: &Vec<Entry>, search: &str) -> (res: Vec<Entry>)
    ensures
        entry_views(res@) == entry_views(entries@).filter(found_by(search@)),
{
    let query = search.to_lowercase();
    let everything = is_blank(query.as_str());
    let wanted = trim(query.as_str());
    let ghost all = entry_views(entries@);
    let ghost p = found_by(search@);
    let mut res: Vec<Entry> = Vec::new();
    let mut i: usize = 0;
    proof {
        reveal(Seq::filter);
        assert(all.take(0).filter(p) == Seq::<EntryView>::empty());
        assert(entry_views(res@) == Seq::<EntryView>::empty());
    }
    while i < entries.len()
        invariant
            i <= entries@.len(),
            all == entry_views(entries@),
            p == found_by(search@),
            everything == blank(lowercase(search@)),
            wanted@ == trimmed(lowercase(search@)),
            entry_views(res@) == all.take(i as int).filter(p),
        decreases entries@.len() - i,
    {
        let ghost before = res@;
        proof {
            reveal(Seq::filter);
            assert(all.take(i + 1).drop_last() == all.take(i as int));
            assert(all.take(i + 1).last() == entries@[i as int]@);
        }
        if everything || has_text(entries[i].title.as_str().to_lowercase().as_str(), wanted.as_str()) {
            let row = entries[i].clone();
            res.push(row);
            assert(entry_views(res@) == entry_views(before).push(row@));
        }
        i += 1;
    }
    assert(all.take(all.len() as int) == all);
    res
}

// ---------------------------------------------------------------------
// The lists
// ---------------------------------------------------------------------

pub open spec fn item_of() -> spec_fn(EntryView) -> EntryItemView {
    |e: EntryView| EntryItemView { id: e.id, title: e.title }
}

impl Tables {
    /// The entries of a kind that a search finds, in the order of a sort mode.
    pub open spec fn shown_entries(self, kind: EntryKind, search: Seq<char>, mode: Seq<char>) -> Seq<
        EntryView,
    > {
        stable_sorted(self.listed_entries(kind).filter(found_by(search)), sort_order(mode))
    }
}

impl AppView {
    /// The state with the lists in the sidebar drawn anew.
    pub open spec fn refresh_sidebar(self) -> AppView {
        let search = self.sidebar.search_query;
        let mode = self.sidebar.sort_mode;
        let t = self.library.tables;
        AppView {
            sidebar: SidebarView {
                movies: t.shown_entries(EntryKind::Movie, search, mode).map_values(item_of()),
                series: t.shown_entries(EntryKind::Series, search, mode).map_values(item_of()),
                ..self.sidebar
            },
            ..self
        }
    }
}

fn items_of(entries: &Vec<Entry>) -> (res: Vec<EntryItem>)
    ensures
        entry_item_views(res@) == entry_views(entries@).map_values(item_of()),
{
    let mut res: Vec<EntryItem> = Vec::new();
    let mut i: usize = 0;
    while i < entries.len()
        invariant
            i <= entries@.len(),
            res@.len() == i,
            forall|k: int|
                0 <= k < i ==> (#[trigger] res@[k])@ == item_of()(entries@[k]@),
        decreases entries@.len() - i,
    {
        res.push(EntryItem { id: entries[i].id, title: entries[i].title.clone() });
        i += 1;
    }
    assert(entry_item_views(res@) =~= entry_views(entries@).map_values(item_of()));
    res
}

impl AppState {
    fn shown_items(&self, kind: EntryKind) -> (res: Vec<EntryItem>)
        ensures
            entry_item_views(res@) == self@.library.tables.shown_entries(
                kind,
                self@.sidebar.search_query,
                self@.sidebar.sort_mode,
            ).map_values(item_of()),
    {
        let listed = list_entries(&self.library, kind);
        let found = search_entries(&listed, self.sidebar.search_query.as_str());
        let sorted = sort_entries(found, self.sidebar.sort_mode.as_str());
        items_of(&sorted)
    }

    /// Draws the lists in the sidebar anew.
    pub fn refresh_sidebar(&mut self)
        ensures
            final(self)@ == old(self)@.refresh_sidebar(),
    {
        let movies = self.shown_items(EntryKind::Movie);
        let series = self.shown_items(EntryKind::Series);
        self.sidebar.movies = movies;
        self.sidebar.series = series;
    }
}

} // verus!
