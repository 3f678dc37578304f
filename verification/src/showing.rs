//! What holds of looking around: the lists, the steps through episodes, and that
//! nothing is left out.

use vstd::prelude::*;

use crate::db::{
    entry_of, episode_order, first, last_played_text, lemma_episode_order, lemma_title_order,
    of_entry, of_kind, title_order, EntryRow, LastPlayed,
};
use crate::laws::{law_current_unfinished, lemma_sorted_contains};
use crate::links::{episode_link, linked_entry, linked_episode, movie_link, LinkItemView};
use crate::models::{is_kind, kind_text, law_kind_reads_back, EntryKind, EntryView, EpisodeView};
use crate::readback::law_entry_after_change;
use crate::rows::lemma_filter_positions;
use crate::screen::DetailView;
use crate::selection::{position_of, stepped};
use crate::sidebar::{found_by, sort_order};
use crate::sorting::{in_order, law_stable_sorted, lemma_filter_members, total_preorder};
use crate::state::{AppView, Selection};
use crate::tables::{
    entry_ids_ascend, law_changes_keep_tables, not_entry, unlisted_ids, ChangeView, LibraryView,
    Setting, Tables,
};
use crate::text::{blank, law_text_le_total, law_text_le_transitive, lowercase};
use crate::transfer::{doc_of_episode, doc_of_movie};

verus! {

broadcast use vstd::string::group_string_axioms;

// ---------------------------------------------------------------------
// Browsing
// ---------------------------------------------------------------------

/// Looking around changes nothing in the library.
pub proof fn law_browsing_keeps_library(s: AppView, id: i64, season: i32, direction: int)
    ensures
        s.select_entry(id).library == s.library,
        s.select_episode(id).library == s.library,
        s.select_adjacent_episode(direction).library == s.library,
        s.jump_to_next_unfinished().library == s.library,
        s.refresh_sidebar().library == s.library,
        s.refresh_timeline().library == s.library,
        s.refresh_last_played().library == s.library,
        s.refresh_detail().library == s.library,
        s.request_delete_entry().library == s.library,
        s.request_delete_episode(id).library == s.library,
        s.request_delete_season(season).library == s.library,
        s.request_delete_current().library == s.library,
        s.open_add_dialog().library == s.library,
        s.open_add_episode_dialog(season).library == s.library,
        s.open_add_season_dialog().library == s.library,
        s.open_edit_entry_dialog().library == s.library,
        s.open_edit_episode_dialog(id).library == s.library,
        s.open_settings_dialog().library == s.library,
        s.toggle_bulk_select_mode().library == s.library,
        s.toggle_bulk_selected(id).library == s.library,
        s.bulk_delete_selected().library == s.library,
        s.submit_add_season().0.library == s.library,
        s.request_reprobe_season(season).0.library == s.library,
{
}

/// Opening another entry leaves bulk-select mode.
pub proof fn law_switching_leaves_bulk(s: AppView, id: i64)
    requires
        s.selected.entry() != Some(id),
    ensures
        !s.select_entry(id).bulk.mode,
        s.select_entry(id).bulk.selected.len() == 0,
{
}

/// No id occurs twice.
pub open spec fn ids_differ(episodes: Seq<EpisodeView>) -> bool {
    forall|i: int, j: int|
        #![trigger episodes[i], episodes[j]]
        0 <= i < j < episodes.len() ==> episodes[i].id != episodes[j].id
}

/// The list of a series' episodes holds no id twice.
pub proof fn law_listed_ids_differ(t: Tables, entry_id: i64)
    requires
        t.wf(),
    ensures
        ids_differ(t.listed_episodes(entry_id)),
{
    let s = t.episodes_of(entry_id);
    let listed = t.listed_episodes(entry_id);
    let p = of_entry(entry_id);
    lemma_episode_order();
    law_stable_sorted(s, episode_order());
    lemma_filter_members(t.episodes, p);
    assert forall|i: int, j: int| 0 <= i < j < s.len() implies (#[trigger] s[i]).id < (
    #[trigger] s[j]).id by {
        lemma_filter_positions(t.episodes, p, i, j);
        let (a, b) = choose|a: int, b: int|
            0 <= a < b < t.episodes.len() && t.episodes[a] == s[i] && t.episodes[b] == s[j];
        assert(t.episodes[a].id < t.episodes[b].id);
    }
    assert(s.no_duplicates()) by {
        assert forall|i: int, j: int| 0 <= i < s.len() && 0 <= j < s.len() && i != j implies s[i]
            != s[j] by {
            if i < j {
                assert(s[i].id < s[j].id);
            } else {
                assert(s[j].id < s[i].id);
            }
        }
    }
    s.lemma_multiset_has_no_duplicates();
    listed.lemma_multiset_has_no_duplicates_conv();
    assert forall|i: int, j: int|
        #![trigger listed[i], listed[j]]
        0 <= i < j < listed.len() implies listed[i].id != listed[j].id by {
        lemma_sorted_contains(s, episode_order(), listed[i]);
        lemma_sorted_contains(s, episode_order(), listed[j]);
        assert(listed.contains(listed[i]) && listed.contains(listed[j]));
        let a = choose|a: int| 0 <= a < s.len() && s[a] == listed[i];
        let b = choose|b: int| 0 <= b < s.len() && s[b] == listed[j];
        assert(listed[i] != listed[j]);
        if a < b {
            assert(s[a].id < s[b].id);
        } else {
            assert(s[b].id < s[a].id);
        }
    }
}

pub proof fn lemma_position_at(episodes: Seq<EpisodeView>, at: int)
    requires
        ids_differ(episodes),
        0 <= at < episodes.len(),
    ensures
        position_of(episodes, episodes[at].id) == Some(at),
    decreases episodes.len(),
{
    if at > 0 {
        let rest = episodes.drop_first();
        assert(episodes[0].id != episodes[at].id);
        assert forall|i: int, j: int|
            #![trigger rest[i], rest[j]]
            0 <= i < j < rest.len() implies rest[i].id != rest[j].id by {
            assert(episodes[i + 1].id != episodes[j + 1].id);
        }
        lemma_position_at(rest, at - 1);
        assert(rest[at - 1] == episodes[at]);
    }
}

/// A step forward and a step back lead to where one was.
pub proof fn law_step_and_back(episodes: Seq<EpisodeView>, at: int)
    requires
        ids_differ(episodes),
        0 <= at,
        at + 1 < episodes.len(),
    ensures
        stepped(episodes, Some(episodes[at].id), 1) == Some(episodes[at + 1].id),
        stepped(episodes, Some(episodes[at + 1].id), -1) == Some(episodes[at].id),
{
    lemma_position_at(episodes, at);
    lemma_position_at(episodes, at + 1);
}

/// The list ends where it ends: no step leads past the first or the last
/// episode.
pub proof fn law_step_stops(episodes: Seq<EpisodeView>)
    requires
        ids_differ(episodes),
        episodes.len() > 0,
    ensures
        stepped(episodes, Some(episodes[0].id), -1) is None,
        stepped(episodes, Some(episodes.last().id), 1) is None,
{
    lemma_position_at(episodes, 0);
    lemma_position_at(episodes, episodes.len() - 1);
}

pub proof fn lemma_sort_order(mode: Seq<char>)
    ensures
        total_preorder(sort_order(mode)),
{
    let le = sort_order(mode);
    if mode != "Recently added"@ && mode != "Recently watched"@ {
        assert forall|x: EntryView, y: EntryView| #[trigger] le(x, y) || le(y, x) by {
            law_text_le_total(lowercase(x.title), lowercase(y.title));
        }
        assert forall|x: EntryView, y: EntryView, z: EntryView|
            #[trigger] le(x, y) && #[trigger] le(y, z) implies le(x, z) by {
            law_text_le_transitive(lowercase(x.title), lowercase(y.title), lowercase(z.title));
        }
    }
}

/// A list in the sidebar holds the entries stored under the word for its kind
/// that the search finds, no others, in the order that was asked for.
pub proof fn law_shown_entries(
    t: Tables,
    kind: EntryKind,
    search: Seq<char>,
    mode: Seq<char>,
    e: EntryView,
)
    ensures
        in_order(t.shown_entries(kind, search, mode), sort_order(mode)),
        t.shown_entries(kind, search, mode).contains(e) <==> t.lists(e) && e.kind == kind
            && found_by(search)(e),
{
    let of = of_kind(kind, t.unlisted);
    let found = found_by(search);
    let listed = t.listed_entries(kind);
    lemma_sort_order(mode);
    lemma_title_order();
    law_stable_sorted(listed.filter(found), sort_order(mode));
    lemma_sorted_contains(listed.filter(found), sort_order(mode), e);
    lemma_sorted_contains(t.entries.filter(of), title_order(), e);
    lemma_contains_filter(listed, found, e);
    lemma_contains_filter(t.entries, of, e);
}

/// Of stored rows, a list holds those whose word is the one for its kind.
pub proof fn law_listed_by_word(rows: Seq<EntryRow>, kind: EntryKind, i: int)
    requires
        entry_ids_ascend(rows.map_values(entry_of())),
        0 <= i < rows.len(),
    ensures
        of_kind(kind, unlisted_ids(rows))(entry_of()(rows[i])) <==> rows[i].kind@ == kind_text(kind),
{
    law_kind_reads_back(kind);
    let s = rows.map_values(entry_of());
    if unlisted_ids(rows).contains(rows[i].id) {
        let j = choose|j: int|
            0 <= j < rows.len() && (#[trigger] rows[j]).id == rows[i].id && !is_kind(rows[j].kind@);
        assert(s[i].id == s[j].id);
        if i < j {
            assert(s[i].id < s[j].id);
        } else if j < i {
            assert(s[j].id < s[i].id);
        }
    } else {
        assert(is_kind(rows[i].kind@));
        law_kind_reads_back(EntryKind::Movie);
        law_kind_reads_back(EntryKind::Series);
    }
}

/// An entry that was there before a change is listed after it as before, for as
/// long as it is there; an entry that the change adds is listed.
pub proof fn law_changes_keep_listing(t: Tables, c: ChangeView, id: i64)
    requires
        t.wf(),
        t.accepts(c),
        t.applied(c).has_entry(id),
    ensures
        t.applied(c).unlisted.contains(id) <==> t.unlisted.contains(id),
        !t.has_entry(id) ==> !t.applied(c).unlisted.contains(id),
{
    if let ChangeView::DeleteEntry { id: gone } = c {
        let after = t.applied(c);
        lemma_filter_members(t.entries, not_entry(gone));
        let k = choose|k: int| 0 <= k < after.entries.len() && (#[trigger] after.entries[k]).id == id;
        assert(not_entry(gone)(after.entries[k]));
    }
}

pub proof fn lemma_contains_filter<A>(s: Seq<A>, p: spec_fn(A) -> bool, x: A)
    ensures
        s.filter(p).contains(x) <==> s.contains(x) && p(x),
{
    lemma_filter_members(s, p);
    if s.contains(x) && p(x) {
        let k = choose|k: int| 0 <= k < s.len() && s[k] == x;
        crate::rows::lemma_filter_contains(s, p, k);
    }
    if s.filter(p).contains(x) {
        let k = choose|k: int| 0 <= k < s.filter(p).len() && s.filter(p)[k] == x;
        assert(p(s.filter(p)[k]) && s.contains(s.filter(p)[k]));
    }
}

proof fn lemma_first_shown(
    t: Tables,
    kind: EntryKind,
    search: Seq<char>,
    mode: Seq<char>,
    e: EntryView,
)
    requires
        t.lists(e),
        e.kind == kind,
        found_by(search)(e),
        forall|x: EntryView| #[trigger] t.entries.contains(x) && sort_order(mode)(x, e) ==> x == e,
    ensures
        first(t.shown_entries(kind, search, mode)) == Some(e),
{
    let shown = t.shown_entries(kind, search, mode);
    law_shown_entries(t, kind, search, mode, e);
    let k = choose|k: int| 0 <= k < shown.len() && shown[k] == e;
    law_shown_entries(t, kind, search, mode, shown[0]);
    assert(shown.contains(shown[0]));
    if k > 0 {
        assert(sort_order(mode)(shown[0], shown[k]));
    }
}

/// What is played moves to the top of the recently watched, where nothing was
/// watched later.
pub proof fn law_played_is_recently_watched(
    s: AppView,
    id: i64,
    e: EntryView,
    search: Seq<char>,
    now: i64,
)
    requires
        s.wf(),
        s.selected.entry() == Some(id),
        s.library.tables.entry(id) == Some(e),
        !s.library.tables.unlisted.contains(id),
        s.play_target() matches Some((target, _)) && !blank(target.link()),
        found_by(search)(e),
        forall|x: EntryView| #[trigger] s.library.tables.entries.contains(x) ==> x.last_watched_at < now,
    ensures
        first(
            s.play(now).library.tables.shown_entries(e.kind, search, "Recently watched"@),
        ) == Some(EntryView { last_watched_at: now, ..e }),
{
    reveal_strlit("Recently watched");
    reveal_strlit("Recently added");
    assert("Recently watched"@.len() == 16 && "Recently added"@.len() == 14);
    let t = s.library.tables;
    let kind = match s.selected {
        Selection::Movie(_) => EntryKind::Movie,
        _ => EntryKind::Series,
    };
    let episode_id = match s.selected {
        Selection::Series { episode_id, .. } => episode_id,
        _ => None,
    };
    let put = ChangeView::PutSetting {
        setting: Setting::LastPlayed,
        value: last_played_text(LastPlayed { kind, entry_id: id, episode_id }),
    };
    let touch = ChangeView::TouchLastWatched { id, at: now };
    let after = t.applied(put).applied(touch);
    assert(s.play(now).library.tables == after);
    law_changes_keep_tables(t, put);
    law_changes_keep_tables(t.applied(put), touch);
    law_entry_after_change(t, put, id);
    law_entry_after_change(t.applied(put), touch, id);
    let stamped = EntryView { last_watched_at: now, ..e };
    assert(after.entry(id) == Some(stamped));
    let k = choose|k: int| 0 <= k < after.entries.len() && (#[trigger] after.entries[k]).id == id;
    assert(after.entries[k] == stamped);
    assert forall|x: EntryView| #[trigger]
        after.entries.contains(x) && sort_order("Recently watched"@)(x, stamped) implies x == stamped by {
        let j = choose|j: int| 0 <= j < after.entries.len() && after.entries[j] == x;
        assert(t.entries.contains(t.entries[j]));
        if x.id == id {
            if j < k {
                assert(after.entries[j].id < after.entries[k].id);
            } else if k < j {
                assert(after.entries[k].id < after.entries[j].id);
            }
        } else {
            assert(x == t.entries[j]);
        }
    }
    lemma_first_shown(after, e.kind, search, "Recently watched"@, stamped);
}

/// A new entry stands first among the recently added.
pub proof fn law_new_is_recently_added(
    l: LibraryView,
    id: i64,
    title: Seq<char>,
    kind: EntryKind,
    description: Seq<char>,
    link_or_path: Seq<char>,
    search: Seq<char>,
    e: EntryView,
)
    requires
        l.tables.wf(),
        l.next_entry_id() == Some(id),
        l.insert_entry(id, title, kind, description, link_or_path).tables.entry(id) == Some(e),
        found_by(search)(e),
    ensures
        first(
            l.insert_entry(id, title, kind, description, link_or_path).tables.shown_entries(
                kind,
                search,
                "Recently added"@,
            ),
        ) == Some(e),
{
    let change = ChangeView::InsertEntry { id, title, kind, description, link_or_path };
    let after = l.tables.applied(change);
    law_changes_keep_tables(l.tables, change);
    law_entry_after_change(l.tables, change, id);
    let n = l.tables.entries.len() as int;
    assert(after.entries[n] == e);
    assert(!after.unlisted.contains(id)) by {
        if l.tables.has_entry(id) {
            let k = choose|k: int|
                0 <= k < l.tables.entries.len() && (#[trigger] l.tables.entries[k]).id == id;
            assert(l.tables.entries[k].id <= l.tables.last_entry_id);
        }
    }
    assert forall|x: EntryView| #[trigger]
        after.entries.contains(x) && sort_order("Recently added"@)(x, e) implies x == e by {
        let j = choose|j: int| 0 <= j < after.entries.len() && after.entries[j] == x;
        if j < n {
            assert(after.entries[j].id < after.entries[n].id);
        }
    }
    lemma_first_shown(after, kind, search, "Recently added"@, e);
}

/// Drawing the timeline anew touches nothing else.
pub proof fn law_timeline_alone(s: AppView)
    ensures
        s.refresh_timeline() == (AppView {
            detail: DetailView { seasons: s.refresh_timeline().detail.seasons, ..s.detail },
            ..s
        }),
{
}

/// The jump leads where Resume would lead, as long as an episode is unfinished.
pub proof fn law_jump_leads_to_current(s: AppView, entry_id: i64, e: EpisodeView)
    requires
        s.selected.series() == Some(entry_id),
        s.library.tables.episodes_of(entry_id).contains(e),
        !e.finished,
    ensures
        s.library.tables.current_episode(entry_id) matches Some(n) && s.jump_to_next_unfinished()
            == s.select_episode(n.id),
{
    law_current_unfinished(s.library.tables, entry_id, e);
}

// ---------------------------------------------------------------------
// Nothing is left out
// ---------------------------------------------------------------------

proof fn lemma_listed_entry(t: Tables, e: EntryView)
    requires
        t.lists(e),
    ensures
        t.listed_entries(e.kind).contains(e),
{
    let of = of_kind(e.kind, t.unlisted);
    lemma_title_order();
    lemma_contains_filter(t.entries, of, e);
    lemma_sorted_contains(t.entries.filter(of), title_order(), e);
}

proof fn lemma_listed_episode(t: Tables, entry_id: i64, e: EpisodeView)
    requires
        t.episodes_of(entry_id).contains(e),
    ensures
        t.listed_episodes(entry_id).contains(e),
{
    lemma_episode_order();
    lemma_sorted_contains(t.episodes_of(entry_id), episode_order(), e);
}

proof fn lemma_map_contains<A, B>(s: Seq<A>, f: spec_fn(A) -> B, x: A)
    requires
        s.contains(x),
    ensures
        s.map_values(f).contains(f(x)),
{
    let k = choose|k: int| 0 <= k < s.len() && s[k] == x;
    assert(s.map_values(f)[k] == f(x));
}

/// A check of all links tries the link of every listed movie that has one.
pub proof fn law_movie_links_are_checked(t: Tables, e: EntryView)
    requires
        t.lists(e),
        e.kind == EntryKind::Movie,
        !blank(e.link_or_path),
    ensures
        t.all_links().contains(movie_link()(e)),
{
    let listed = t.listed_entries(EntryKind::Movie);
    lemma_listed_entry(t, e);
    lemma_contains_filter(listed, linked_entry(), e);
    lemma_map_contains(listed.filter(linked_entry()), movie_link(), e);
    let links = listed.filter(linked_entry()).map_values(movie_link());
    let k = choose|k: int| 0 <= k < links.len() && links[k] == movie_link()(e);
    assert(t.all_links()[k] == links[k]);
}

proof fn lemma_links_of_all(t: Tables, series: Seq<EntryView>, e: EntryView, link: LinkItemView)
    requires
        series.contains(e),
        t.links_of(e).contains(link),
    ensures
        t.links_of_all(series).contains(link),
    decreases series.len(),
{
    let rest = series.drop_last();
    let before = t.links_of_all(rest);
    let k = choose|k: int| 0 <= k < series.len() && series[k] == e;
    if k == series.len() - 1 {
        let j = choose|j: int| 0 <= j < t.links_of(e).len() && t.links_of(e)[j] == link;
        assert(t.links_of_all(series)[before.len() + j] == link);
    } else {
        assert(rest[k] == e);
        lemma_links_of_all(t, rest, e, link);
        let j = choose|j: int| 0 <= j < before.len() && before[j] == link;
        assert(t.links_of_all(series)[j] == link);
    }
}

/// A check of all links tries the link of every episode of a listed series that
/// has one.
pub proof fn law_episode_links_are_checked(t: Tables, series: EntryView, e: EpisodeView)
    requires
        t.lists(series),
        series.kind == EntryKind::Series,
        t.episodes_of(series.id).contains(e),
        !blank(e.link_or_path),
    ensures
        t.all_links().contains(episode_link(series.title)(e)),
{
    let listed = t.listed_episodes(series.id);
    let link = episode_link(series.title)(e);
    lemma_listed_episode(t, series.id, e);
    lemma_contains_filter(listed, linked_episode(), e);
    lemma_map_contains(listed.filter(linked_episode()), episode_link(series.title), e);
    lemma_listed_entry(t, series);
    let all = t.listed_entries(EntryKind::Series);
    lemma_links_of_all(t, all, series, link);
    let movies = t.listed_entries(EntryKind::Movie).filter(linked_entry()).map_values(movie_link());
    let links = t.links_of_all(all);
    let k = choose|k: int| 0 <= k < links.len() && links[k] == link;
    assert(t.all_links()[movies.len() + k] == link);
}

/// The document of a library holds each of its listed movies.
pub proof fn law_document_holds_movies(t: Tables, e: EntryView)
    requires
        t.lists(e),
        e.kind == EntryKind::Movie,
    ensures
        t.doc().movies.contains(doc_of_movie()(e)),
{
    lemma_listed_entry(t, e);
    lemma_map_contains(t.listed_entries(EntryKind::Movie), doc_of_movie(), e);
}

/// The document of a library holds each of its listed series, with each of its
/// episodes.
pub proof fn law_document_holds_series(t: Tables, series: EntryView, e: EpisodeView)
    requires
        t.lists(series),
        series.kind == EntryKind::Series,
    ensures
        t.doc().series.contains(t.doc_of_series()(series)),
        t.episodes_of(series.id).contains(e) ==> t.doc_of_series()(series).episodes.contains(
            doc_of_episode()(e),
        ),
{
    lemma_listed_entry(t, series);
    lemma_map_contains(t.listed_entries(EntryKind::Series), t.doc_of_series(), series);
    if t.episodes_of(series.id).contains(e) {
        lemma_listed_episode(t, series.id, e);
        lemma_map_contains(t.listed_episodes(series.id), doc_of_episode(), e);
    }
}

} // verus!
