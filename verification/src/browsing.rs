//! What the lists, the landing page and the panes show, told from the rows alone.

use vstd::prelude::*;

use crate::db::{
    episode_order, lemma_entry_at, lemma_episode_order, lemma_title_order, of_kind, title_order,
    LastPlayed,
};
use crate::adding::SeriesJobView;
use crate::landing::recently_watched;
use crate::laws::lemma_sorted_contains;
use crate::links::LinkItemView;
use crate::models::{label_text, EntryKind, EntryView, EpisodeView};
use crate::pattern::FoundView;
use crate::rows::{lemma_filter_distinct, lemma_filter_positions};
use crate::screen::{ContinueItemView, EntryItemView, EpisodeItemView, SeasonGroupView};
use crate::showing::{law_shown_entries, lemma_contains_filter, lemma_sort_order};
use crate::sidebar::{found_by, sort_order};
use crate::sorting::{
    in_order, law_sorted_ties, law_stable_sorted, lemma_filter_members, lemma_sorted_distinct,
};
use crate::playback::PlaybackTargetView;
use crate::state::{AppView, DeleteTargetView, EditTarget, Selection};
use crate::tables::Tables;
use crate::text::{blank, contains_text, folded, lowercase, text_le, trimmed};
use crate::vlc::Status;
use crate::watching::{belongs, lemma_belongs, no_later};

verus! {

broadcast use vstd::string::group_string_axioms;

// ---------------------------------------------------------------------
// Rows
// ---------------------------------------------------------------------

/// An entry that the library lists.
pub open spec fn is_listed(t: Tables, e: EntryView) -> bool {
    t.entry(e.id) == Some(e) && !t.unlisted.contains(e.id)
}

/// The entries that are listed are those found under their ids.
pub proof fn lemma_is_listed(t: Tables, e: EntryView)
    requires
        t.wf(),
    ensures
        is_listed(t, e) <==> t.lists(e),
{
    if t.entries.contains(e) {
        let i = choose|i: int| 0 <= i < t.entries.len() && t.entries[i] == e;
        lemma_entry_at(t, i);
    }
    if t.entry(e.id) == Some(e) {
        let i = choose|i: int| 0 <= i < t.entries.len() && (#[trigger] t.entries[i]).id == e.id;
        assert(t.entries[i] == e);
    }
}

proof fn lemma_entries_distinct(t: Tables)
    requires
        t.wf(),
    ensures
        t.entries.no_duplicates(),
{
    assert forall|i: int, j: int|
        0 <= i < t.entries.len() && 0 <= j < t.entries.len() && i != j implies t.entries[i]
        != t.entries[j] by {
        if i < j {
            assert(t.entries[i].id < t.entries[j].id);
        } else {
            assert(t.entries[j].id < t.entries[i].id);
        }
    }
}

/// The lists of movies and series are in the order of their titles, upper and
/// lower case ASCII letters alike; of entries with the same title the one that was
/// added first comes first. Each entry is there once.
pub proof fn law_listed_by_title(t: Tables, kind: EntryKind, i: int, j: int)
    requires
        t.wf(),
        0 <= i < j < t.listed_entries(kind).len(),
    ensures
        text_le(
            folded(t.listed_entries(kind)[i].title),
            folded(t.listed_entries(kind)[j].title),
        ),
        text_le(folded(t.listed_entries(kind)[j].title), folded(t.listed_entries(kind)[i].title))
            ==> t.listed_entries(kind)[i].id < t.listed_entries(kind)[j].id,
        t.listed_entries(kind)[i].id != t.listed_entries(kind)[j].id,
{
    let p = of_kind(kind, t.unlisted);
    let s = t.entries.filter(p);
    let listed = t.listed_entries(kind);
    let stood = |a: EntryView, b: EntryView| a.id < b.id;
    lemma_title_order();
    law_stable_sorted(s, title_order());
    assert(title_order()(listed[i], listed[j]));
    assert(in_order(s, stood)) by {
        assert forall|a: int, b: int| 0 <= a < b < s.len() implies #[trigger] stood(s[a], s[b]) by {
            lemma_filter_positions(t.entries, p, a, b);
            let (c, d) = choose|c: int, d: int|
                0 <= c < d < t.entries.len() && #[trigger] t.entries[c] == s[a]
                    && #[trigger] t.entries[d] == s[b];
            assert(t.entries[c].id < t.entries[d].id);
        }
    }
    if title_order()(listed[j], listed[i]) {
        law_sorted_ties(s, title_order(), stood, i, j);
        assert(stood(listed[i], listed[j]));
    }
    if listed[i].id == listed[j].id {
        lemma_entries_distinct(t);
        lemma_filter_distinct(t.entries, p);
        lemma_sorted_distinct(s, title_order());
        lemma_listed_row(t, kind, i);
        lemma_listed_row(t, kind, j);
        assert(listed[i] != listed[j]);
    }
}

pub proof fn lemma_listed_row(t: Tables, kind: EntryKind, i: int)
    requires
        t.wf(),
        0 <= i < t.listed_entries(kind).len(),
    ensures
        is_listed(t, t.listed_entries(kind)[i]),
        t.listed_entries(kind)[i].kind == kind,
{
    let p = of_kind(kind, t.unlisted);
    let s = t.entries.filter(p);
    let e = t.listed_entries(kind)[i];
    lemma_title_order();
    assert(t.listed_entries(kind).contains(e));
    lemma_sorted_contains(s, title_order(), e);
    lemma_contains_filter(t.entries, p, e);
    lemma_is_listed(t, e);
}

// ---------------------------------------------------------------------
// The sidebar
// ---------------------------------------------------------------------

/// A search finds an entry: it is blank, or the title holds it, white space at
/// its ends left out, upper and lower case alike.
pub open spec fn search_finds(search: Seq<char>, e: EntryView) -> bool {
    blank(lowercase(search)) || contains_text(lowercase(e.title), trimmed(lowercase(search)))
}

/// Two entries stand in the order of a sort mode.
pub open spec fn stands_before(mode: Seq<char>, a: EntryView, b: EntryView) -> bool {
    if mode == "Recently added"@ {
        a.id > b.id
    } else if mode == "Recently watched"@ {
        a.last_watched_at >= b.last_watched_at
    } else {
        text_le(lowercase(a.title), lowercase(b.title))
    }
}

/// Items are those of the listed entries of a kind that a search finds, each
/// once, in the order of a sort mode.
pub open spec fn shows(
    t: Tables,
    items: Seq<EntryItemView>,
    kind: EntryKind,
    search: Seq<char>,
    mode: Seq<char>,
) -> bool {
    &&& forall|i: int|
        0 <= i < items.len() ==> (t.entry((#[trigger] items[i]).id) matches Some(e) && is_listed(t, e)
            && e.kind == kind && search_finds(search, e) && items[i].title == e.title)
    &&& forall|e: EntryView| #[trigger]
        is_listed(t, e) && e.kind == kind && search_finds(search, e) ==> exists|i: int|
            0 <= i < items.len() && (#[trigger] items[i]).id == e.id
    &&& forall|i: int, j: int|
        #![trigger items[i], items[j]]
        0 <= i < j < items.len() ==> items[i].id != items[j].id && stands_before(
            mode,
            t.entry(items[i].id)->0,
            t.entry(items[j].id)->0,
        )
}

/// The lists in the sidebar show the movies and the series that the search finds,
/// all of them and no others, in the order that was asked for. Nothing else on the
/// screen changes.
pub proof fn law_sidebar_shows(s: AppView)
    requires
        s.wf(),
    ensures
        ({
            let done = s.refresh_sidebar();
            let search = s.sidebar.search_query;
            let mode = s.sidebar.sort_mode;
            &&& shows(s.library.tables, done.sidebar.movies, EntryKind::Movie, search, mode)
            &&& shows(s.library.tables, done.sidebar.series, EntryKind::Series, search, mode)
            &&& done.sidebar.search_query == search
            &&& done.sidebar.sort_mode == mode
            &&& done == (AppView { sidebar: done.sidebar, ..s })
        }),
{
    let t = s.library.tables;
    let search = s.sidebar.search_query;
    let mode = s.sidebar.sort_mode;
    lemma_shows(t, s.refresh_sidebar().sidebar.movies, EntryKind::Movie, search, mode);
    lemma_shows(t, s.refresh_sidebar().sidebar.series, EntryKind::Series, search, mode);
}

#[verifier::rlimit(40)]
proof fn lemma_shows(
    t: Tables,
    items: Seq<EntryItemView>,
    kind: EntryKind,
    search: Seq<char>,
    mode: Seq<char>,
)
    requires
        t.wf(),
        items == t.shown_entries(kind, search, mode).map_values(crate::sidebar::item_of()),
    ensures
        shows(t, items, kind, search, mode),
{
    let shown = t.shown_entries(kind, search, mode);
    let found = t.listed_entries(kind).filter(found_by(search));
    let p = of_kind(kind, t.unlisted);
    lemma_sort_order(mode);
    lemma_title_order();
    lemma_entries_distinct(t);
    lemma_filter_distinct(t.entries, p);
    lemma_sorted_distinct(t.entries.filter(p), title_order());
    lemma_filter_distinct(t.listed_entries(kind), found_by(search));
    lemma_sorted_distinct(found, sort_order(mode));
    law_stable_sorted(found, sort_order(mode));
    assert forall|i: int| 0 <= i < items.len() implies (t.entry((#[trigger] items[i]).id) matches Some(
        e,
    ) && is_listed(t, e) && e.kind == kind && search_finds(search, e) && items[i].title == e.title
        && e == shown[i]) by {
        let e = shown[i];
        assert(shown.contains(e));
        law_shown_entries(t, kind, search, mode, e);
        lemma_is_listed(t, e);
        assert(items[i].id == e.id);
    }
    assert forall|e: EntryView| #[trigger]
        is_listed(t, e) && e.kind == kind && search_finds(search, e) implies exists|i: int|
        0 <= i < items.len() && (#[trigger] items[i]).id == e.id by {
        law_shown_entries(t, kind, search, mode, e);
        lemma_is_listed(t, e);
        let i = choose|i: int| 0 <= i < shown.len() && shown[i] == e;
        assert(items[i].id == e.id);
    }
    assert forall|i: int, j: int|
        #![trigger items[i], items[j]]
        0 <= i < j < items.len() implies items[i].id != items[j].id && stands_before(
        mode,
        t.entry(items[i].id)->0,
        t.entry(items[j].id)->0,
    ) by {
        assert(t.entry(items[i].id) == Some(shown[i]));
        assert(t.entry(items[j].id) == Some(shown[j]));
        assert(shown[i] != shown[j]);
        assert(sort_order(mode)(shown[i], shown[j]));
    }
}

// ---------------------------------------------------------------------
// The landing page
// ---------------------------------------------------------------------

/// Something was begun and not finished.
pub open spec fn half_watched(t: Tables, e: EntryView) -> bool {
    match e.kind {
        EntryKind::Movie => e.resume_position > 0 && !e.finished,
        EntryKind::Series => exists|x: EpisodeView| #[trigger]
            belongs(t, e.id, x) && x.resume_position > 0 && !x.finished,
    }
}

/// Items are listed entries that were begun and not finished, each once, the most
/// recently watched first, five at most; whatever else was begun was watched no
/// later.
pub open spec fn offers(t: Tables, items: Seq<ContinueItemView>) -> bool {
    &&& items.len() <= 5
    &&& forall|i: int|
        0 <= i < items.len() ==> (t.entry((#[trigger] items[i]).id) matches Some(e) && is_listed(t, e)
            && half_watched(t, e) && items[i].title == e.title && items[i].kind == e.kind)
    &&& forall|i: int, j: int|
        #![trigger items[i], items[j]]
        0 <= i < j < items.len() ==> items[i].id != items[j].id && t.entry(
            items[i].id,
        )->0.last_watched_at >= t.entry(items[j].id)->0.last_watched_at
    &&& forall|e: EntryView| #[trigger]
        is_listed(t, e) && half_watched(t, e) ==> {
            ||| exists|i: int| 0 <= i < items.len() && (#[trigger] items[i]).id == e.id
            ||| items.len() == 5 && forall|i: int|
                0 <= i < items.len() ==> t.entry((#[trigger] items[i]).id)->0.last_watched_at
                    >= e.last_watched_at
        }
}

/// An episode with which watching a series goes on: an unfinished one, with no
/// unfinished one before it.
pub open spec fn first_to_watch(t: Tables, entry_id: i64, n: EpisodeView) -> bool {
    &&& belongs(t, entry_id, n)
    &&& !n.finished
    &&& forall|x: EpisodeView| #[trigger]
        belongs(t, entry_id, x) && !x.finished ==> no_later(n, x)
}

/// A text names what was played last: a movie by its title, a series by its title
/// and the episode with which watching goes on.
pub open spec fn names_last(t: Tables, lp: LastPlayed, label: Seq<char>) -> bool {
    t.entry(lp.entry_id) matches Some(e) ==> {
        &&& lp.kind == EntryKind::Movie ==> label == e.title
        &&& lp.kind == EntryKind::Series && (exists|x: EpisodeView| #[trigger]
            belongs(t, lp.entry_id, x) && !x.finished) ==> exists|n: EpisodeView| #[trigger]
            first_to_watch(t, lp.entry_id, n) && label == e.title + " - "@ + label_text(n)
        &&& lp.kind == EntryKind::Series && (forall|x: EpisodeView|
            !#[trigger] belongs(t, lp.entry_id, x)) ==> label == e.title
    }
}

/// The landing page offers what was begun, and names what was played last.
pub open spec fn landing_is_current(s: AppView) -> bool {
    &&& offers(s.library.tables, s.landing.continue_watching)
    &&& s.landing.has_last_played == (s.library.last_played() is Some)
    &&& match s.library.last_played() {
        Some(lp) => names_last(s.library.tables, lp, s.landing.last_played_label),
        None => s.landing.last_played_label.len() == 0,
    }
}

/// The lists in the sidebar show what the search finds, in the order that was asked
/// for.
pub open spec fn sidebar_is_current(s: AppView) -> bool {
    let search = s.sidebar.search_query;
    let mode = s.sidebar.sort_mode;
    &&& shows(s.library.tables, s.sidebar.movies, EntryKind::Movie, search, mode)
    &&& shows(s.library.tables, s.sidebar.series, EntryKind::Series, search, mode)
}

/// Drawing the landing page anew makes it current, and touches nothing else.
pub proof fn law_landing_shows(s: AppView)
    requires
        s.wf(),
    ensures
        landing_is_current(s.refresh_last_played()),
        s.refresh_last_played() == (AppView { landing: s.refresh_last_played().landing, ..s }),
{
    lemma_landing(s.refresh_last_played(), s.refresh_last_played());
}

#[verifier::rlimit(40)]
proof fn lemma_landing(s: AppView, drawn: AppView)
    requires
        s.library.tables.wf(),
        drawn.library == s.library,
        s.landing == drawn.refresh_last_played().landing,
    ensures
        landing_is_current(s),
{
    let t = s.library.tables;
    lemma_offers(t, s.landing.continue_watching);
    if let Some(lp) = s.library.last_played() {
        if exists|x: EpisodeView| #[trigger] belongs(t, lp.entry_id, x) && !x.finished {
            let e = choose|x: EpisodeView| #[trigger] belongs(t, lp.entry_id, x) && !x.finished;
            lemma_belongs(t, lp.entry_id, e);
            crate::laws::law_current_unfinished(t, lp.entry_id, e);
            let n = t.current_episode(lp.entry_id)->0;
            lemma_belongs(t, lp.entry_id, n);
            assert forall|x: EpisodeView| #[trigger]
                belongs(t, lp.entry_id, x) && !x.finished implies no_later(n, x) by {
                lemma_belongs(t, lp.entry_id, x);
                crate::laws::law_current_unfinished(t, lp.entry_id, x);
            }
            assert(first_to_watch(t, lp.entry_id, n));
        }
        if forall|x: EpisodeView| !#[trigger] belongs(t, lp.entry_id, x) {
            let of = t.episodes_of(lp.entry_id);
            let listed = t.listed_episodes(lp.entry_id);
            if of.len() > 0 {
                assert(of.contains(of[0]));
                lemma_belongs(t, lp.entry_id, of[0]);
            }
            lemma_episode_order();
            law_stable_sorted(of, episode_order());
            lemma_filter_members(listed, crate::db::unfinished());
            if listed.filter(crate::db::unfinished()).len() > 0 {
                assert(listed.contains(listed.filter(crate::db::unfinished())[0]));
            }
        }
    }
}

proof fn lemma_sidebar(s: AppView)
    requires
        s.library.tables.wf(),
        s.sidebar == s.refresh_sidebar().sidebar,
    ensures
        sidebar_is_current(s),
{
    let t = s.library.tables;
    let search = s.sidebar.search_query;
    let mode = s.sidebar.sort_mode;
    lemma_shows(t, s.sidebar.movies, EntryKind::Movie, search, mode);
    lemma_shows(t, s.sidebar.series, EntryKind::Series, search, mode);
}

/// What is shown does not hang on which player is set.
#[verifier::rlimit(40)]
proof fn lemma_started(s: AppView, detected: Option<Seq<char>>)
    requires
        s.started(detected).wf(),
    ensures
        sidebar_is_current(s.started(detected)),
        landing_is_current(s.started(detected)),
{
    let done = s.started(detected);
    let t = s.library.tables;
    let u = done.library.tables;
    assert(t.entries == u.entries && t.episodes == u.episodes && t.unlisted == u.unlisted);
    lemma_shown_same(t, u, s.sidebar.search_query, s.sidebar.sort_mode);
    lemma_sidebar(done);
    lemma_landing(done, done);
}

/// Lists hang on entries and episodes alone.
proof fn lemma_shown_same(t: Tables, u: Tables, search: Seq<char>, mode: Seq<char>)
    requires
        t.entries == u.entries,
        t.episodes == u.episodes,
        t.unlisted == u.unlisted,
    ensures
        forall|kind: EntryKind|
            #![trigger t.shown_entries(kind, search, mode)]
            t.shown_entries(kind, search, mode) == u.shown_entries(kind, search, mode),
        t.continued() == u.continued(),
        forall|lp: LastPlayed| #[trigger] t.last_played_label(lp) == u.last_played_label(lp),
{
    assert forall|entry_id: i64| #[trigger] t.listed_episodes(entry_id) == u.listed_episodes(
        entry_id,
    ) by {}
    assert(t.begun() =~= u.begun());
    crate::outcomes::lemma_same_entries(t, u);
    assert forall|lp: LastPlayed| #[trigger] t.last_played_label(lp) == u.last_played_label(lp) by {
        assert(t.entry(lp.entry_id) == u.entry(lp.entry_id));
        assert(t.listed_episodes(lp.entry_id) == u.listed_episodes(lp.entry_id));
        assert(t.episodes_of(lp.entry_id) == u.episodes_of(lp.entry_id));
        assert(t.last_episode(lp.entry_id) == u.last_episode(lp.entry_id));
    }
}

/// After every change that touches them, the lists in the sidebar and the landing
/// page show the library as it is then.
#[verifier::rlimit(40)]
pub proof fn law_screen_follows_entries(
    s: AppView,
    job: SeriesJobView,
    rows: Seq<FoundView>,
    v: serde_json::Value,
    detected: Option<Seq<char>>,
)
    ensures
        s.started(detected).wf() ==> sidebar_is_current(s.started(detected)) && landing_is_current(
            s.started(detected),
        ),
        s.submit_add().0.wf() && s.submit_add().0.library != s.library ==> sidebar_is_current(
            s.submit_add().0,
        ),
        s.finish_add(job, Ok(rows)).0.wf() && s.finish_add(job, Ok(rows)).0.library != s.library
            ==> sidebar_is_current(s.finish_add(job, Ok(rows)).0),
        s.import_read(Ok(v)).wf() ==> sidebar_is_current(s.import_read(Ok(v))),
{
    if s.started(detected).wf() {
        lemma_started(s, detected);
    }
    if s.submit_add().0.wf() && s.submit_add().0.library != s.library {
        lemma_sidebar(s.submit_add().0);
    }
    if s.finish_add(job, Ok(rows)).0.wf() && s.finish_add(job, Ok(rows)).0.library != s.library {
        lemma_sidebar(s.finish_add(job, Ok(rows)).0);
    }
    if s.import_read(Ok(v)).wf() {
        lemma_sidebar(s.import_read(Ok(v)));
    }
}

/// After something was edited, the landing page shows the library as it is then;
/// after an entry was, the lists in the sidebar do too.
#[verifier::rlimit(40)]
pub proof fn law_screen_follows_edit(s: AppView)
    requires
        s.submit_edit().0.wf(),
    ensures
        s.pending_edit is Some ==> landing_is_current(s.submit_edit().0),
        s.pending_edit matches Some(EditTarget::Entry(_)) ==> sidebar_is_current(
            s.submit_edit().0,
        ),
{
    let edited = s.submit_edit().0;
    if s.pending_edit is Some {
        lemma_landing(edited, edited);
    }
    if s.pending_edit matches Some(EditTarget::Entry(_)) {
        lemma_sidebar(edited);
    }
}

/// After something was deleted, the landing page shows the library as it is then;
/// after an entry was, the lists in the sidebar do too.
#[verifier::rlimit(40)]
pub proof fn law_screen_follows_deletion(s: AppView)
    requires
        s.confirm_delete().wf(),
    ensures
        s.confirm_delete().library != s.library ==> landing_is_current(s.confirm_delete()),
        s.pending_delete matches Some(DeleteTargetView::Entry(_)) ==> sidebar_is_current(
            s.confirm_delete(),
        ),
{
    let gone = s.confirm_delete();
    if gone.library != s.library {
        lemma_landing(gone, gone);
    }
    if s.pending_delete matches Some(DeleteTargetView::Entry(_)) {
        lemma_sidebar(gone);
    }
}

/// After something was played, the landing page shows the library as it is then.
#[verifier::rlimit(40)]
pub proof fn law_screen_follows_playback(s: AppView, target: PlaybackTargetView, status: Status)
    requires
        s.playback_ended(target, status).wf(),
    ensures
        landing_is_current(s.playback_ended(target, status)),
{
    let ended = s.playback_ended(target, status);
    lemma_landing(ended, ended);
}

/// After episodes were marked, the landing page shows the library as it is then.
#[verifier::rlimit(40)]
pub proof fn law_screen_follows_marking(s: AppView, watched: bool)
    requires
        s.bulk_set_finished(watched).wf(),
        s.selected.series() is Some,
        s.bulk.selected.len() > 0,
    ensures
        landing_is_current(s.bulk_set_finished(watched)),
{
    let marked = s.bulk_set_finished(watched);
    lemma_landing(marked, marked);
}

proof fn lemma_begun(t: Tables, e: EntryView)
    requires
        t.wf(),
    ensures
        t.begun()(e) == half_watched(t, e),
{
    if e.kind == EntryKind::Series {
        let listed = t.listed_episodes(e.id);
        lemma_episode_order();
        if crate::landing::some_in_progress(listed) {
            let i = choose|i: int|
                0 <= i < listed.len() && crate::landing::in_progress()(#[trigger] listed[i]);
            assert(listed.contains(listed[i]));
            lemma_sorted_contains(t.episodes_of(e.id), episode_order(), listed[i]);
            lemma_belongs(t, e.id, listed[i]);
        }
        if half_watched(t, e) {
            let x = choose|x: EpisodeView| #[trigger]
                belongs(t, e.id, x) && x.resume_position > 0 && !x.finished;
            lemma_belongs(t, e.id, x);
            lemma_sorted_contains(t.episodes_of(e.id), episode_order(), x);
            let i = choose|i: int| 0 <= i < listed.len() && listed[i] == x;
            assert(crate::landing::in_progress()(listed[i]));
        }
    }
}

#[verifier::rlimit(40)]
proof fn lemma_offers(t: Tables, items: Seq<ContinueItemView>)
    requires
        t.wf(),
        items == t.continued().map_values(crate::landing::continue_item()),
    ensures
        offers(t, items),
{
    let movies = t.listed_entries(EntryKind::Movie).filter(t.begun());
    let series = t.listed_entries(EntryKind::Series).filter(t.begun());
    let all = movies + series;
    let begun = t.begun_entries();
    let le = recently_watched();
    lemma_title_order();
    lemma_entries_distinct(t);
    lemma_begun_list(t, EntryKind::Movie);
    lemma_begun_list(t, EntryKind::Series);
    assert(all.no_duplicates()) by {
        assert forall|i: int, j: int| 0 <= i < all.len() && 0 <= j < all.len() && i != j implies all[i]
            != all[j] by {
            if i < movies.len() && j < movies.len() {
                assert(movies[i] != movies[j]);
            } else if i >= movies.len() && j >= movies.len() {
                assert(series[i - movies.len()] != series[j - movies.len()]);
            } else if i < movies.len() {
                assert(movies[i].kind != series[j - movies.len()].kind);
            } else {
                assert(movies[j].kind != series[i - movies.len()].kind);
            }
        }
    }
    law_stable_sorted(all, le);
    lemma_sorted_distinct(all, le);
    let shown = t.continued();
    assert forall|i: int| 0 <= i < begun.len() implies is_listed(t, #[trigger] begun[i])
        && half_watched(t, begun[i]) by {
        assert(begun.contains(begun[i]));
        lemma_sorted_contains(all, le, begun[i]);
        let k = choose|k: int| 0 <= k < all.len() && all[k] == begun[i];
        if k < movies.len() {
            assert(movies[k] == begun[i]);
        } else {
            assert(series[k - movies.len()] == begun[i]);
        }
    }
    assert forall|i: int| 0 <= i < items.len() implies (t.entry((#[trigger] items[i]).id) matches Some(
        e,
    ) && e == begun[i] && is_listed(t, e) && half_watched(t, e) && items[i].title == e.title
        && items[i].kind == e.kind) by {
        assert(shown[i] == begun[i]);
        assert(is_listed(t, begun[i]));
    }
    assert forall|i: int, j: int|
        #![trigger items[i], items[j]]
        0 <= i < j < items.len() implies items[i].id != items[j].id && t.entry(
        items[i].id,
    )->0.last_watched_at >= t.entry(items[j].id)->0.last_watched_at by {
        assert(t.entry(items[i].id) == Some(begun[i]) && t.entry(items[j].id) == Some(begun[j]));
        assert(begun[i] != begun[j]);
        assert(le(begun[i], begun[j]));
    }
    assert forall|e: EntryView| #[trigger] is_listed(t, e) && half_watched(t, e) implies {
        ||| exists|i: int| 0 <= i < items.len() && (#[trigger] items[i]).id == e.id
        ||| items.len() == 5 && forall|i: int|
            0 <= i < items.len() ==> t.entry((#[trigger] items[i]).id)->0.last_watched_at
                >= e.last_watched_at
    } by {
        let listed = t.listed_entries(e.kind);
        lemma_begun(t, e);
        lemma_is_listed(t, e);
        lemma_contains_filter(t.entries, of_kind(e.kind, t.unlisted), e);
        lemma_sorted_contains(t.entries.filter(of_kind(e.kind, t.unlisted)), title_order(), e);
        lemma_contains_filter(listed, t.begun(), e);
        if e.kind == EntryKind::Movie {
            let k = choose|k: int| 0 <= k < movies.len() && movies[k] == e;
            assert(all[k] == e);
        } else {
            let k = choose|k: int| 0 <= k < series.len() && series[k] == e;
            assert(all[movies.len() + k] == e);
        }
        assert(all.contains(e));
        lemma_sorted_contains(all, le, e);
        let at = choose|at: int| 0 <= at < begun.len() && begun[at] == e;
        if at < items.len() {
            assert(items[at].id == e.id);
        } else {
            assert forall|i: int| 0 <= i < items.len() implies t.entry(
                (#[trigger] items[i]).id,
            )->0.last_watched_at >= e.last_watched_at by {
                assert(t.entry(items[i].id) == Some(begun[i]));
                assert(le(begun[i], begun[at]));
            }
        }
    }
}

proof fn lemma_begun_list(t: Tables, kind: EntryKind)
    requires
        t.wf(),
    ensures
        t.listed_entries(kind).filter(t.begun()).no_duplicates(),
        forall|i: int|
            0 <= i < t.listed_entries(kind).filter(t.begun()).len() ==> {
                let e = #[trigger] t.listed_entries(kind).filter(t.begun())[i];
                e.kind == kind && is_listed(t, e) && half_watched(t, e)
            },
{
    let p = of_kind(kind, t.unlisted);
    let listed = t.listed_entries(kind);
    lemma_title_order();
    lemma_entries_distinct(t);
    lemma_filter_distinct(t.entries, p);
    lemma_sorted_distinct(t.entries.filter(p), title_order());
    lemma_filter_distinct(listed, t.begun());
    lemma_filter_members(listed, t.begun());
    assert forall|i: int| 0 <= i < listed.filter(t.begun()).len() implies {
        let e = #[trigger] listed.filter(t.begun())[i];
        e.kind == kind && is_listed(t, e) && half_watched(t, e)
    } by {
        let e = listed.filter(t.begun())[i];
        let k = choose|k: int| 0 <= k < listed.len() && listed[k] == e;
        lemma_listed_row(t, kind, k);
        lemma_begun(t, e);
    }
}

// ---------------------------------------------------------------------
// The episodes of a series
// ---------------------------------------------------------------------

/// An episode stands before another one of its series: by season, then by number;
/// of those with the same numbers the one that was added first.
pub open spec fn precedes(a: EpisodeView, b: EpisodeView) -> bool {
    a.season < b.season || (a.season == b.season && (a.episode < b.episode || (a.episode
        == b.episode && a.id < b.id)))
}

/// The list of a series holds its episodes, all of them and no others, each before
/// those that it stands before.
pub proof fn law_episodes_in_order(t: Tables, entry_id: i64)
    requires
        t.wf(),
    ensures
        forall|i: int, j: int|
            #![trigger t.listed_episodes(entry_id)[i], t.listed_episodes(entry_id)[j]]
            0 <= i < j < t.listed_episodes(entry_id).len() ==> precedes(
                t.listed_episodes(entry_id)[i],
                t.listed_episodes(entry_id)[j],
            ),
        forall|i: int|
            0 <= i < t.listed_episodes(entry_id).len() ==> belongs(
                t,
                entry_id,
                #[trigger] t.listed_episodes(entry_id)[i],
            ),
        forall|e: EpisodeView| #[trigger]
            belongs(t, entry_id, e) ==> t.listed_episodes(entry_id).contains(e),
{
    let p = crate::db::of_entry(entry_id);
    let s = t.episodes_of(entry_id);
    let listed = t.listed_episodes(entry_id);
    let stood = |a: EpisodeView, b: EpisodeView| a.id < b.id;
    lemma_episode_order();
    law_stable_sorted(s, episode_order());
    assert(in_order(s, stood)) by {
        assert forall|a: int, b: int| 0 <= a < b < s.len() implies #[trigger] stood(s[a], s[b]) by {
            lemma_filter_positions(t.episodes, p, a, b);
            let (c, d) = choose|c: int, d: int|
                0 <= c < d < t.episodes.len() && #[trigger] t.episodes[c] == s[a]
                    && #[trigger] t.episodes[d] == s[b];
            assert(t.episodes[c].id < t.episodes[d].id);
        }
    }
    assert forall|i: int, j: int|
        #![trigger listed[i], listed[j]]
        0 <= i < j < listed.len() implies precedes(listed[i], listed[j]) by {
        assert(episode_order()(listed[i], listed[j]));
        if episode_order()(listed[j], listed[i]) {
            law_sorted_ties(s, episode_order(), stood, i, j);
            assert(stood(listed[i], listed[j]));
        }
    }
    assert forall|i: int| 0 <= i < listed.len() implies belongs(
        t,
        entry_id,
        #[trigger] listed[i],
    ) by {
        assert(listed.contains(listed[i]));
        lemma_sorted_contains(s, episode_order(), listed[i]);
        lemma_belongs(t, entry_id, listed[i]);
    }
    assert forall|e: EpisodeView| #[trigger] belongs(t, entry_id, e) implies listed.contains(e) by {
        lemma_sorted_contains(s, episode_order(), e);
        lemma_belongs(t, entry_id, e);
    }
}

/// How far something was watched, as the pane shows it.
pub open spec fn progress_shown(position: i64, duration: i64, finished: bool) -> Seq<char> {
    if duration <= 0 {
        Seq::empty()
    } else if finished {
        crate::playback::duration_text(duration as int) + " / "@ + crate::playback::duration_text(
            duration as int,
        )
    } else {
        crate::playback::duration_text(position as int) + " / "@ + crate::playback::duration_text(
            duration as int,
        )
    }
}

/// A movie that is opened is what the pane shows: its title, description and link,
/// how far it was watched, and what can be done with it.
pub proof fn law_movie_opened(s: AppView, e: EntryView)
    requires
        s.wf(),
        s.library.tables.entry(e.id) == Some(e),
        e.kind == EntryKind::Movie,
    ensures
        ({
            let done = s.select_entry(e.id);
            let d = done.detail;
            &&& done.library == s.library
            &&& done.selected == Selection::Movie(e.id)
            &&& d.has_selection && d.entry_id == e.id
            &&& d.title == e.title && d.description == e.description && d.link == e.link_or_path
            &&& d.kind == "movie"@
            &&& d.progress == progress_shown(e.resume_position, e.duration, e.finished)
            &&& d.watched == e.finished
            &&& d.resume_enabled == (e.resume_position > 0)
            &&& d.play_enabled == (e.link_or_path.len() > 0)
            &&& d.top_resume_enabled == (e.link_or_path.len() > 0)
            &&& d.seasons.len() == 0 && d.episode_description.len() == 0
        }),
{
}

/// A series that is opened is what the pane shows, with its first episode selected.
/// It counts as watched once every episode is.
#[verifier::rlimit(40)]
pub proof fn law_series_opened(s: AppView, e: EntryView, n: EpisodeView)
    requires
        s.wf(),
        s.library.tables.entry(e.id) == Some(e),
        e.kind == EntryKind::Series,
    ensures
        ({
            let t = s.library.tables;
            let done = s.select_entry(e.id);
            let d = done.detail;
            &&& done.library == s.library
            &&& done.selected.series() == Some(e.id)
            &&& d.has_selection && d.entry_id == e.id
            &&& d.title == e.title && d.description == e.description
            &&& d.kind == "series"@
            &&& belongs(t, e.id, n) && (forall|x: EpisodeView| #[trigger]
                belongs(t, e.id, x) ==> x == n || precedes(n, x)) ==> {
                &&& done.selected == (Selection::Series { entry_id: e.id, episode_id: Some(n.id) })
                &&& d.link == n.link_or_path && d.episode_description == n.description
                &&& d.progress == progress_shown(n.resume_position, n.duration, n.finished)
                &&& d.resume_enabled == (n.resume_position > 0)
                &&& d.play_enabled == (n.link_or_path.len() > 0)
                &&& d.top_resume_enabled
                &&& d.watched <==> forall|x: EpisodeView| #[trigger]
                    belongs(t, e.id, x) ==> x.finished
            }
            &&& (forall|x: EpisodeView| !#[trigger] belongs(t, e.id, x)) ==> {
                &&& done.selected == (Selection::Series { entry_id: e.id, episode_id: None })
                &&& !d.watched && !d.play_enabled && !d.resume_enabled && !d.top_resume_enabled
                &&& d.link.len() == 0
            }
        }),
{
    let t = s.library.tables;
    let listed = t.listed_episodes(e.id);
    let done = s.select_entry(e.id);
    law_episodes_in_order(t, e.id);
    if belongs(t, e.id, n) && (forall|x: EpisodeView| #[trigger]
        belongs(t, e.id, x) ==> x == n || precedes(n, x)) {
        assert(listed.contains(n));
        let k = choose|k: int| 0 <= k < listed.len() && listed[k] == n;
        assert(belongs(t, e.id, listed[0]));
        if k > 0 {
            assert(precedes(listed[0], listed[k]));
        }
        assert(listed[0] == n);
        if done.detail.watched {
            assert forall|x: EpisodeView| #[trigger] belongs(t, e.id, x) implies x.finished by {
                let i = choose|i: int| 0 <= i < listed.len() && listed[i] == x;
                assert(listed[i].finished);
            }
        }
        if forall|x: EpisodeView| #[trigger] belongs(t, e.id, x) ==> x.finished {
            assert forall|i: int| 0 <= i < listed.len() implies (#[trigger] listed[i]).finished by {
                assert(belongs(t, e.id, listed[i]));
            }
        }
    }
    if forall|x: EpisodeView| !#[trigger] belongs(t, e.id, x) {
        if listed.len() > 0 {
            assert(belongs(t, e.id, listed[0]));
        }
    }
}

/// An episode that is selected is what the pane shows.
pub proof fn law_episode_opened(s: AppView, e: EpisodeView)
    requires
        s.library.tables.episode(e.id) == Some(e),
    ensures
        ({
            let done = s.select_episode(e.id);
            let d = done.detail;
            &&& done.library == s.library
            &&& done.selected == (Selection::Series {
                entry_id: e.entry_id,
                episode_id: Some(e.id),
            })
            &&& d.link == e.link_or_path && d.episode_description == e.description
            &&& d.progress == progress_shown(e.resume_position, e.duration, e.finished)
            &&& d.resume_enabled == (e.resume_position > 0)
            &&& d.play_enabled == (e.link_or_path.len() > 0)
            &&& d.title == s.detail.title && d.entry_id == s.detail.entry_id && d.description
                == s.detail.description && d.watched == s.detail.watched
        }),
{
}

/// A step forward leads to the episode that stands right behind the selected one,
/// a step back to the one right before it; at the ends of the series a step leads
/// nowhere.
#[verifier::rlimit(40)]
pub proof fn law_steps(s: AppView, e: EpisodeView, n: EpisodeView)
    requires
        s.wf(),
        belongs(s.library.tables, e.entry_id, e),
        s.selected == (Selection::Series { entry_id: e.entry_id, episode_id: Some(e.id) }),
    ensures
        ({
            let t = s.library.tables;
            &&& belongs(t, e.entry_id, n) && precedes(e, n) && (forall|x: EpisodeView| #[trigger]
                belongs(t, e.entry_id, x) && precedes(e, x) ==> x == n || precedes(n, x))
                ==> s.select_adjacent_episode(1) == s.select_episode(n.id)
            &&& belongs(t, e.entry_id, n) && precedes(n, e) && (forall|x: EpisodeView| #[trigger]
                belongs(t, e.entry_id, x) && precedes(x, e) ==> x == n || precedes(x, n))
                ==> s.select_adjacent_episode(-1) == s.select_episode(n.id)
            &&& (forall|x: EpisodeView| #[trigger]
                belongs(t, e.entry_id, x) ==> !precedes(e, x)) ==> s.select_adjacent_episode(1) == s
            &&& (forall|x: EpisodeView| #[trigger]
                belongs(t, e.entry_id, x) ==> !precedes(x, e)) ==> s.select_adjacent_episode(-1)
                == s
        }),
{
    let t = s.library.tables;
    let listed = t.listed_episodes(e.entry_id);
    law_episodes_in_order(t, e.entry_id);
    crate::showing::law_listed_ids_differ(t, e.entry_id);
    let at = choose|at: int| 0 <= at < listed.len() && listed[at] == e;
    crate::showing::lemma_position_at(listed, at);
    if at + 1 < listed.len() {
        assert(belongs(t, e.entry_id, listed[at + 1]) && precedes(listed[at], listed[at + 1]));
    }
    if at > 0 {
        assert(belongs(t, e.entry_id, listed[at - 1]) && precedes(listed[at - 1], listed[at]));
    }
    if belongs(t, e.entry_id, n) {
        assert(listed.contains(n));
        let k = choose|k: int| 0 <= k < listed.len() && listed[k] == n;
        if k < at {
            assert(precedes(listed[k], listed[at]));
            if k < at - 1 {
                assert(precedes(listed[k], listed[at - 1]));
            }
        } else if k > at {
            assert(precedes(listed[at], listed[k]));
            if k > at + 1 {
                assert(precedes(listed[at + 1], listed[k]));
            }
        }
    }
}

/// A step where no episode of the open series is selected leads to its first one.
pub proof fn law_step_from_nowhere(s: AppView, entry_id: i64, n: EpisodeView, direction: int)
    requires
        s.wf(),
        s.selected == (Selection::Series { entry_id, episode_id: None }),
        belongs(s.library.tables, entry_id, n),
        forall|x: EpisodeView| #[trigger]
            belongs(s.library.tables, entry_id, x) ==> x == n || precedes(n, x),
    ensures
        s.select_adjacent_episode(direction) == s.select_episode(n.id),
{
    let t = s.library.tables;
    let listed = t.listed_episodes(entry_id);
    law_episodes_in_order(t, entry_id);
    assert(listed.contains(n));
    let k = choose|k: int| 0 <= k < listed.len() && listed[k] == n;
    assert(belongs(t, entry_id, listed[0]));
    if k > 0 {
        assert(precedes(listed[0], listed[k]));
    }
}

/// The jump leads to the first episode of the open series that is not finished;
/// where all are, the user is told so and nothing else happens.
pub proof fn law_jump(s: AppView, entry_id: i64, n: EpisodeView)
    requires
        s.wf(),
        s.selected.series() == Some(entry_id),
    ensures
        ({
            let t = s.library.tables;
            &&& belongs(t, entry_id, n) && !n.finished && (forall|x: EpisodeView| #[trigger]
                belongs(t, entry_id, x) && !x.finished ==> x == n || precedes(n, x))
                ==> s.jump_to_next_unfinished() == s.select_episode(n.id)
            &&& (forall|x: EpisodeView| #[trigger] belongs(t, entry_id, x) ==> x.finished)
                ==> s.jump_to_next_unfinished() == (AppView {
                status: "All episodes are finished."@,
                ..s
            })
        }),
{
    let t = s.library.tables;
    let listed = t.listed_episodes(entry_id);
    let p = crate::db::unfinished();
    law_episodes_in_order(t, entry_id);
    if belongs(t, entry_id, n) && !n.finished && (forall|x: EpisodeView| #[trigger]
        belongs(t, entry_id, x) && !x.finished ==> x == n || precedes(n, x)) {
        assert(listed.contains(n));
        let k = choose|k: int| 0 <= k < listed.len() && listed[k] == n;
        assert forall|i: int| 0 <= i < k implies !p(#[trigger] listed[i]) by {
            assert(belongs(t, entry_id, listed[i]));
            assert(precedes(listed[i], listed[k]));
        }
        crate::db::lemma_first_match(listed, p, k);
    }
    if forall|x: EpisodeView| #[trigger] belongs(t, entry_id, x) ==> x.finished {
        assert forall|i: int| 0 <= i < listed.len() implies !p(#[trigger] listed[i]) by {
            assert(belongs(t, entry_id, listed[i]));
        }
        crate::db::lemma_first_match(listed, p, listed.len() as int);
    }
}

// ---------------------------------------------------------------------
// The timeline
// ---------------------------------------------------------------------

/// An item of the timeline tells what an episode is, whether it is selected and
/// whether it is ticked.
pub open spec fn tells_of(
    item: EpisodeItemView,
    e: EpisodeView,
    selected: Option<i64>,
    ticked: Seq<i64>,
) -> bool {
    &&& item.id == e.id
    &&& item.label == label_text(e)
    &&& item.finished == e.finished
    &&& item.selected == (selected == Some(e.id))
    &&& item.checked == ticked.contains(e.id)
}

/// There is an item at a place in the timeline.
pub open spec fn has_place(groups: Seq<SeasonGroupView>, g: int, i: int) -> bool {
    0 <= g < groups.len() && 0 <= i < groups[g].episodes.len()
}

/// An item of the timeline tells of an episode, and stands under its season.
spec fn stems_from(
    groups: Seq<SeasonGroupView>,
    g: int,
    i: int,
    e: EpisodeView,
    selected: Option<i64>,
    ticked: Seq<i64>,
) -> bool {
    e.season == groups[g].season && tells_of(groups[g].episodes[i], e, selected, ticked)
}

/// An item of the timeline tells of one of some episodes.
spec fn stems(
    groups: Seq<SeasonGroupView>,
    g: int,
    i: int,
    episodes: Seq<EpisodeView>,
    selected: Option<i64>,
    ticked: Seq<i64>,
) -> bool {
    exists|k: int|
        0 <= k < episodes.len() && stems_from(
            groups,
            g,
            i,
            #[trigger] episodes[k],
            selected,
            ticked,
        )
}

/// The timeline has an item for an episode.
pub open spec fn has_item(groups: Seq<SeasonGroupView>, id: i64) -> bool {
    exists|g: int, i: int| #[trigger] has_place(groups, g, i) && groups[g].episodes[i].id == id
}

#[verifier::rlimit(40)]
proof fn lemma_item_added(
    before: Seq<SeasonGroupView>,
    season: i32,
    item: EpisodeItemView,
    g: int,
    i: int,
)
    ensures
        ({
            let after = crate::timeline::with_item(before, season, item);
            let last = after.len() - 1;
            &&& has_place(after, last, after[last].episodes.len() - 1)
            &&& after[last].season == season
            &&& after[last].episodes[after[last].episodes.len() - 1] == item
            &&& has_place(after, g, i) && !(g == last && i == after[last].episodes.len() - 1)
                ==> has_place(before, g, i) && before[g].episodes[i] == after[g].episodes[i]
                && before[g].season == after[g].season
            &&& has_place(before, g, i) ==> has_place(after, g, i) && before[g].episodes[i]
                == after[g].episodes[i]
            &&& has_place(after, g, i) && g < last ==> after[g].label == before[g].label
            &&& after[last].label == "Season "@ + crate::text::decimal(season as int)
        }),
{
}

proof fn lemma_items_stem(
    episodes: Seq<EpisodeView>,
    selected: Option<i64>,
    ticked: Seq<i64>,
    g: int,
    i: int,
)
    requires
        has_place(crate::timeline::grouped(episodes, selected, ticked), g, i),
    ensures
        stems(
            crate::timeline::grouped(episodes, selected, ticked),
            g,
            i,
            episodes,
            selected,
            ticked,
        ),
        crate::timeline::grouped(episodes, selected, ticked)[g].label == "Season "@
            + crate::text::decimal(
            crate::timeline::grouped(episodes, selected, ticked)[g].season as int,
        ),
    decreases episodes.len(),
{
    let after = crate::timeline::grouped(episodes, selected, ticked);
    if episodes.len() > 0 {
        let rest = episodes.drop_last();
        let before = crate::timeline::grouped(rest, selected, ticked);
        let n = episodes.len() - 1;
        let item = crate::timeline::item_for(episodes[n], selected, ticked);
        lemma_item_added(before, episodes[n].season, item, g, i);
        let last = after.len() - 1;
        if g == last && i == after[last].episodes.len() - 1 {
            assert(stems_from(after, g, i, episodes[n], selected, ticked));
        } else {
            lemma_items_stem(rest, selected, ticked, g, i);
            let k = choose|k: int|
                0 <= k < rest.len() && stems_from(
                    before,
                    g,
                    i,
                    #[trigger] rest[k],
                    selected,
                    ticked,
                );
            assert(stems_from(after, g, i, episodes[k], selected, ticked));
        }
    }
}

proof fn lemma_all_told(
    episodes: Seq<EpisodeView>,
    selected: Option<i64>,
    ticked: Seq<i64>,
    k: int,
)
    requires
        0 <= k < episodes.len(),
    ensures
        has_item(crate::timeline::grouped(episodes, selected, ticked), episodes[k].id),
    decreases episodes.len(),
{
    let after = crate::timeline::grouped(episodes, selected, ticked);
    let rest = episodes.drop_last();
    let before = crate::timeline::grouped(rest, selected, ticked);
    let n = episodes.len() - 1;
    let item = crate::timeline::item_for(episodes[n], selected, ticked);
    if k == n {
        lemma_item_added(before, episodes[n].season, item, 0, 0);
        let last = after.len() - 1;
        assert(has_place(after, last, after[last].episodes.len() - 1));
    } else {
        lemma_all_told(rest, selected, ticked, k);
        let (g, i) = choose|g: int, i: int| #[trigger]
            has_place(before, g, i) && before[g].episodes[i].id == rest[k].id;
        lemma_item_added(before, episodes[n].season, item, g, i);
        assert(has_place(after, g, i));
    }
}

/// A timeline shows the episodes of a series, all of them and no others, each
/// under its season, and tells of each its name and whether it is finished,
/// selected or ticked. Each season is there once, in order.
pub open spec fn is_timeline(
    t: Tables,
    groups: Seq<SeasonGroupView>,
    entry_id: i64,
    selected: Option<i64>,
    ticked: Seq<i64>,
) -> bool {
    &&& forall|g: int, i: int| #[trigger]
        has_place(groups, g, i) ==> (t.episode(groups[g].episodes[i].id) matches Some(e) && belongs(
            t,
            entry_id,
            e,
        ) && e.season == groups[g].season && tells_of(groups[g].episodes[i], e, selected, ticked))
            && groups[g].label == "Season "@ + crate::text::decimal(groups[g].season as int)
    &&& forall|e: EpisodeView| #[trigger] belongs(t, entry_id, e) ==> has_item(groups, e.id)
    &&& forall|g: int, h: int|
        #![trigger groups[g], groups[h]]
        0 <= g < h < groups.len() ==> groups[g].season < groups[h].season
}

proof fn lemma_is_timeline(s: AppView, entry_id: i64, selected: Option<i64>)
    requires
        s.library.tables.wf(),
    ensures
        is_timeline(
            s.library.tables,
            s.timeline(entry_id, selected),
            entry_id,
            selected,
            s.bulk.selected,
        ),
{
    let t = s.library.tables;
    let ticked = s.bulk.selected;
    let groups = s.timeline(entry_id, selected);
    let listed = t.listed_episodes(entry_id);
    law_episodes_in_order(t, entry_id);
    crate::timeline::law_listed_timeline(t, entry_id, selected, ticked);
    assert forall|g: int, i: int| #[trigger] has_place(groups, g, i) implies (t.episode(
        groups[g].episodes[i].id,
    ) matches Some(e) && belongs(t, entry_id, e) && e.season == groups[g].season && tells_of(
        groups[g].episodes[i],
        e,
        selected,
        ticked,
    )) && groups[g].label == "Season "@ + crate::text::decimal(groups[g].season as int) by {
        lemma_items_stem(listed, selected, ticked, g, i);
        let k = choose|k: int|
            0 <= k < listed.len() && stems_from(
                groups,
                g,
                i,
                #[trigger] listed[k],
                selected,
                ticked,
            );
        assert(belongs(t, entry_id, listed[k]));
    }
    assert forall|e: EpisodeView| #[trigger] belongs(t, entry_id, e) implies has_item(
        groups,
        e.id,
    ) by {
        let k = choose|k: int| 0 <= k < listed.len() && listed[k] == e;
        lemma_all_told(listed, selected, ticked, k);
    }
}

/// Whenever a series is opened, an episode of it selected, an episode ticked or
/// the ticked ones marked, the timeline shows the episodes as they are then.
#[verifier::rlimit(40)]
pub proof fn law_timeline_is_current(s: AppView, id: i64, watched: bool)
    requires
        s.wf(),
    ensures
        s.library.tables.entry(id) matches Some(e) && e.kind == EntryKind::Series ==> shows_timeline(
            s.select_entry(id),
        ),
        s.library.tables.episode(id) is Some ==> shows_timeline(s.select_episode(id)),
        shows_timeline(s.toggle_bulk_selected(id)),
        shows_timeline(s.toggle_bulk_select_mode()),
        s.selected.series() is Some && s.bulk.selected.len() > 0 ==> shows_timeline(
            s.bulk_set_finished(watched),
        ),
{
    match s.select_entry(id).selected {
        Selection::Series { entry_id, episode_id } => {
            lemma_is_timeline(s.select_entry(id), entry_id, episode_id);
        },
        _ => {},
    }
    match s.select_episode(id).selected {
        Selection::Series { entry_id, episode_id } => {
            lemma_is_timeline(s.select_episode(id), entry_id, episode_id);
        },
        _ => {},
    }
    match s.selected {
        Selection::Series { entry_id, episode_id } => {
            lemma_is_timeline(s.toggle_bulk_selected(id), entry_id, episode_id);
            lemma_is_timeline(s.toggle_bulk_select_mode(), entry_id, episode_id);
            crate::laws::law_marked_episodes(s.library, s.bulk.selected, watched, id);
            lemma_is_timeline(s.bulk_set_finished(watched), entry_id, episode_id);
        },
        _ => {},
    }
}

/// Where a series is open, the pane shows its timeline.
pub open spec fn shows_timeline(s: AppView) -> bool {
    match s.selected {
        Selection::Series { entry_id, episode_id } => is_timeline(
            s.library.tables,
            s.detail.seasons,
            entry_id,
            episode_id,
            s.bulk.selected,
        ),
        _ => true,
    }
}

// ---------------------------------------------------------------------
// Links
// ---------------------------------------------------------------------

/// A link to check is that of a listed movie, under its title.
pub open spec fn links_movie(item: LinkItemView, e: EntryView) -> bool {
    e.kind == EntryKind::Movie && !blank(e.link_or_path) && item.link == e.link_or_path
        && item.label == e.title
}

/// A link to check is that of an episode, under the title of its series and its
/// own name.
pub open spec fn links_episode(item: LinkItemView, series: EntryView, x: EpisodeView) -> bool {
    series.kind == EntryKind::Series && !blank(x.link_or_path) && item.link == x.link_or_path
        && item.label == series.title + " - "@ + label_text(x)
}

/// A link to check is that of a listed movie or of an episode of a listed series.
pub open spec fn links_something(t: Tables, item: LinkItemView) -> bool {
    ||| exists|e: EntryView| #[trigger] is_listed(t, e) && links_movie(item, e)
    ||| exists|e: EntryView, x: EpisodeView| #[trigger]
        is_listed(t, e) && #[trigger] belongs(t, e.id, x) && links_episode(item, e, x)
}

/// A check of all links tries the link of each listed movie and of each episode of
/// a listed series that has one, and no others.
#[verifier::rlimit(40)]
pub proof fn law_links_to_check(t: Tables, e: EntryView, x: EpisodeView, i: int)
    requires
        t.wf(),
    ensures
        is_listed(t, e) && e.kind == EntryKind::Movie && !blank(e.link_or_path) ==> exists|k: int|
            0 <= k < t.all_links().len() && links_movie(#[trigger] t.all_links()[k], e),
        is_listed(t, e) && e.kind == EntryKind::Series && belongs(t, e.id, x) && !blank(
            x.link_or_path,
        ) ==> exists|k: int|
            0 <= k < t.all_links().len() && links_episode(#[trigger] t.all_links()[k], e, x),
        0 <= i < t.all_links().len() ==> links_something(t, t.all_links()[i]),
{
    let all = t.all_links();
    let movies = t.listed_entries(EntryKind::Movie);
    let linked = movies.filter(crate::links::linked_entry());
    let first = linked.map_values(crate::links::movie_link());
    let series = t.listed_entries(EntryKind::Series);
    if is_listed(t, e) {
        lemma_is_listed(t, e);
        if e.kind == EntryKind::Movie && !blank(e.link_or_path) {
            crate::showing::law_movie_links_are_checked(t, e);
            let k = choose|k: int| 0 <= k < all.len() && all[k] == crate::links::movie_link()(e);
            assert(links_movie(all[k], e));
        }
        if e.kind == EntryKind::Series && belongs(t, e.id, x) && !blank(x.link_or_path) {
            lemma_belongs(t, e.id, x);
            crate::showing::law_episode_links_are_checked(t, e, x);
            let k = choose|k: int|
                0 <= k < all.len() && all[k] == crate::links::episode_link(e.title)(x);
            assert(links_episode(all[k], e, x));
        }
    }
    if 0 <= i < all.len() {
        if i < first.len() {
            let m = linked[i];
            lemma_filter_members(movies, crate::links::linked_entry());
            assert(crate::links::linked_entry()(linked[i]) && movies.contains(m));
            let k = choose|k: int| 0 <= k < movies.len() && movies[k] == m;
            lemma_listed_row(t, EntryKind::Movie, k);
            assert(is_listed(t, m) && links_movie(all[i], m));
        } else {
            assert(all[i] == t.links_of_all(series)[i - first.len()]);
            assert forall|k: int| 0 <= k < series.len() implies is_listed(t, #[trigger] series[k])
                && series[k].kind == EntryKind::Series by {
                lemma_listed_row(t, EntryKind::Series, k);
            }
            lemma_series_links(t, series, i - first.len());
        }
    }
}

proof fn lemma_series_links(t: Tables, series: Seq<EntryView>, i: int)
    requires
        t.wf(),
        0 <= i < t.links_of_all(series).len(),
        forall|k: int|
            0 <= k < series.len() ==> is_listed(t, #[trigger] series[k]) && series[k].kind
                == EntryKind::Series,
    ensures
        links_something(t, t.links_of_all(series)[i]),
    decreases series.len(),
{
    let rest = series.drop_last();
    let before = t.links_of_all(rest);
    if i < before.len() {
        assert forall|k: int| 0 <= k < rest.len() implies is_listed(t, #[trigger] rest[k])
            && rest[k].kind == EntryKind::Series by {
            assert(rest[k] == series[k]);
        }
        lemma_series_links(t, rest, i);
    } else {
        let e = series[series.len() - 1];
        let listed = t.listed_episodes(e.id);
        let linked = listed.filter(crate::links::linked_episode());
        let x = linked[i - before.len()];
        law_episodes_in_order(t, e.id);
        lemma_filter_members(listed, crate::links::linked_episode());
        assert(crate::links::linked_episode()(x) && listed.contains(x));
        let k = choose|k: int| 0 <= k < listed.len() && listed[k] == x;
        assert(belongs(t, e.id, listed[k]));
        assert(links_episode(t.links_of_all(series)[i], e, x));
    }
}

} // verus!
