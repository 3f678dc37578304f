//! The landing page: what was played last, and what to continue watching.

use vstd::prelude::*;

use crate::db::{
    current_episode, get_entry, get_last_played, list_entries, list_episodes, without_keys,
    LastPlayed,
};
use crate::models::{
    entry_views, episode_views, label_text, Entry, EntryKind, EntryView, Episode, EpisodeView,
};
use crate::screen::{continue_item_views, ContinueItem, ContinueItemView, Landing, LandingView};
use crate::sidebar::LargestFirst;
use crate::sorting::{
    by_key, in_order, law_stable_sorted, lemma_sorted_map, sort_rows, stable_sorted,
    total_preorder,
};
use crate::state::{AppState, AppView};
use crate::tables::Tables;
use crate::text::concat3;

verus! {

broadcast use vstd::string::group_string_axioms;

// ---------------------------------------------------------------------
// What was played last
// ---------------------------------------------------------------------

impl Tables {
    /// The title of an entry, or nothing where there is no such entry.
    pub open spec fn title_of(self, entry_id: i64) -> Seq<char> {
        match self.entry(entry_id) {
            Some(e) => e.title,
            None => Seq::empty(),
        }
    }

    /// How what was played last is named: the title and, for a series, the
    /// episode with which watching goes on.
    pub open spec fn last_played_label(self, lp: LastPlayed) -> Seq<char> {
        match lp.kind {
            EntryKind::Movie => self.title_of(lp.entry_id),
            EntryKind::Series => match self.current_episode(lp.entry_id) {
                Some(e) => self.title_of(lp.entry_id) + " - "@ + label_text(e),
                None => self.title_of(lp.entry_id),
            },
        }
    }
}

// ---------------------------------------------------------------------
// What to continue watching
// ---------------------------------------------------------------------

/// How many entries there are to continue watching at most.
pub const CONTINUE_LIMIT: usize = 5;

pub open spec fn in_progress() -> spec_fn(EpisodeView) -> bool {
    |e: EpisodeView| e.resume_position > 0 && !e.finished
}

/// One of the episodes was begun and not finished.
pub open spec fn some_in_progress(episodes: Seq<EpisodeView>) -> bool {
    exists|i: int| 0 <= i < episodes.len() && in_progress()(#[trigger] episodes[i])
}

impl Tables {
    /// A movie that was begun and not finished, or a series with such an
    /// episode.
    pub open spec fn begun(self) -> spec_fn(EntryView) -> bool {
        |e: EntryView|
            match e.kind {
                EntryKind::Movie => e.resume_position > 0 && !e.finished,
                EntryKind::Series => some_in_progress(self.listed_episodes(e.id)),
            }
    }

    /// All that was begun, the most recently watched first. Movies come before
    /// series that were watched at the same time, and titles in order.
    pub open spec fn begun_entries(self) -> Seq<EntryView> {
        stable_sorted(
            self.listed_entries(EntryKind::Movie).filter(self.begun()) + self.listed_entries(
                EntryKind::Series,
            ).filter(self.begun()),
            recently_watched(),
        )
    }

    /// What to continue watching: the most recently watched of what was begun.
    pub open spec fn continued(self) -> Seq<EntryView> {
        if self.begun_entries().len() <= CONTINUE_LIMIT {
            self.begun_entries()
        } else {
            self.begun_entries().take(CONTINUE_LIMIT as int)
        }
    }
}

pub open spec fn recently_watched() -> spec_fn(EntryView, EntryView) -> bool {
    |a: EntryView, b: EntryView| a.last_watched_at >= b.last_watched_at
}

pub open spec fn continue_item() -> spec_fn(EntryView) -> ContinueItemView {
    |e: EntryView| ContinueItemView { id: e.id, kind: e.kind, title: e.title }
}

impl AppView {
    /// The state with the landing page drawn anew.
    pub open spec fn refresh_last_played(self) -> AppView {
        let t = self.library.tables;
        AppView {
            landing: LandingView {
                has_last_played: self.library.last_played() is Some,
                last_played_label: match self.library.last_played() {
                    Some(lp) => t.last_played_label(lp),
                    None => Seq::empty(),
                },
                continue_watching: t.continued().map_values(continue_item()),
            },
            ..self
        }
    }
}

fn any_in_progress(episodes: &Vec<Episode>) -> (res: bool)
    ensures
        res == some_in_progress(episode_views(episodes@)),
{
    let ghost all = episode_views(episodes@);
    let mut i: usize = 0;
    while i < episodes.len()
        invariant
            i <= episodes@.len(),
            all == episode_views(episodes@),
            forall|k: int| 0 <= k < i ==> !in_progress()(#[trigger] all[k]),
        decreases episodes@.len() - i,
    {
        assert(all[i as int] == episodes@[i as int]@);
        if episodes[i].resume_position > 0 && !episodes[i].finished {
            return true;
        }
        i += 1;
    }
    false
}

impl AppState {
    fn last_label(&self, lp: &LastPlayed) -> (res: String)
        requires
            self.wf(),
        ensures
            res@ == self@.library.tables.last_played_label(*lp),
    {
        let title = match get_entry(&self.library, lp.entry_id) {
            Ok(e) => e.title,
            Err(_) => String::new(),
        };
        match lp.kind {
            EntryKind::Movie => title,
            EntryKind::Series => match current_episode(&self.library, lp.entry_id) {
                Some(e) => concat3(title.as_str(), " - ", e.label().as_str()),
                None => title,
            },
        }
    }

    fn is_begun(&self, e: &Entry) -> (res: bool)
        ensures
            res == self@.library.tables.begun()(e@),
    {
        match e.kind {
            EntryKind::Movie => e.resume_position > 0 && !e.finished,
            EntryKind::Series => {
                let episodes = list_episodes(&self.library, e.id);
                any_in_progress(&episodes)
            },
        }
    }

    /// Adds what was begun of a kind, with the times it was watched at.
    fn push_begun(&self, kind: EntryKind, rows: &mut Vec<(LargestFirst, Entry)>)
        requires
            forall|k: int|
                0 <= k < old(rows)@.len() ==> (#[trigger] old(rows)@[k]).0.number
                    == old(rows)@[k].1.last_watched_at,
        ensures
            forall|k: int|
                0 <= k < final(rows)@.len() ==> (#[trigger] final(rows)@[k]).0.number
                    == final(rows)@[k].1.last_watched_at,
            final(rows)@.map_values(|r: (LargestFirst, Entry)| r.1@) == old(rows)@.map_values(
                |r: (LargestFirst, Entry)| r.1@,
            ) + self@.library.tables.listed_entries(kind).filter(self@.library.tables.begun()),
    {
        let listed = list_entries(&self.library, kind);
        let ghost all = entry_views(listed@);
        let ghost p = self@.library.tables.begun();
        let ghost f = |r: (LargestFirst, Entry)| r.1@;
        let ghost start = rows@.map_values(f);
        let mut i: usize = 0;
        proof {
            reveal(Seq::filter);
            assert(all.take(0).filter(p) == Seq::<EntryView>::empty());
            assert(start + Seq::<EntryView>::empty() == start);
        }
        while i < listed.len()
            invariant
                i <= listed@.len(),
                all == entry_views(listed@),
                p == self@.library.tables.begun(),
                f == (|r: (LargestFirst, Entry)| r.1@),
                forall|k: int|
                    0 <= k < rows@.len() ==> (#[trigger] rows@[k]).0.number
                        == rows@[k].1.last_watched_at,
                rows@.map_values(f) == start + all.take(i as int).filter(p),
            decreases listed@.len() - i,
        {
            let ghost before = rows@;
            proof {
                reveal(Seq::filter);
                assert(all.take(i + 1).drop_last() == all.take(i as int));
                assert(all.take(i + 1).last() == listed@[i as int]@);
            }
            if self.is_begun(&listed[i]) {
                let row = listed[i].clone();
                rows.push((LargestFirst { number: row.last_watched_at }, row));
                assert(rows@.map_values(f) == before.map_values(f).push(row@));
                assert(rows@.map_values(f) == start + all.take(i + 1).filter(p));
            }
            i += 1;
        }
        assert(all.take(all.len() as int) == all);
    }

    fn continue_list(&self) -> (res: Vec<ContinueItem>)
        ensures
            continue_item_views(res@) == self@.library.tables.continued().map_values(
                continue_item(),
            ),
    {
        let ghost t = self@.library.tables;
        let ghost f = |r: (LargestFirst, Entry)| r.1@;
        let mut keyed: Vec<(LargestFirst, Entry)> = Vec::new();
        assert(keyed@.map_values(f) == Seq::<EntryView>::empty());
        self.push_begun(EntryKind::Movie, &mut keyed);
        self.push_begun(EntryKind::Series, &mut keyed);
        let ghost unsorted = keyed@;
        assert(unsorted.map_values(f) == t.listed_entries(EntryKind::Movie).filter(t.begun())
            + t.listed_entries(EntryKind::Series).filter(t.begun()));
        let sorted = sort_rows(keyed);
        proof {
            let ok = |r: (LargestFirst, Entry)| r.0.number == r.1.last_watched_at;
            lemma_sorted_map(unsorted, f, ok, by_key::<LargestFirst, Entry>(), recently_watched());
        }
        let ghost arranged = sorted@;
        let rows = without_keys(sorted);
        assert(entry_views(rows@) == arranged.map_values(f));
        assert(entry_views(rows@) == t.begun_entries());
        let mut res: Vec<ContinueItem> = Vec::new();
        let mut i: usize = 0;
        while i < rows.len() && i < CONTINUE_LIMIT
            invariant
                i <= rows@.len(),
                i <= CONTINUE_LIMIT,
                res@.len() == i,
                forall|k: int|
                    0 <= k < i ==> (#[trigger] res@[k])@ == continue_item()(rows@[k]@),
            decreases rows@.len() - i,
        {
            res.push(
                ContinueItem { id: rows[i].id, kind: rows[i].kind, title: rows[i].title.clone() },
            );
            i += 1;
        }
        proof {
            let listed = t.continued();
            assert(listed.len() == i);
            assert forall|k: int| 0 <= k < i implies #[trigger] listed[k] == rows@[k]@ by {
                assert(entry_views(rows@)[k] == rows@[k]@);
            }
            assert(continue_item_views(res@) =~= listed.map_values(continue_item()));
        }
        res
    }

    /// Draws the landing page anew. For a series it names the episode with
    /// which watching goes on, which need not be the one that was played last.
    pub fn refresh_last_played(&mut self)
        requires
            old(self).wf(),
        ensures
            final(self).wf(),
            final(self)@ == old(self)@.refresh_last_played(),
    {
        let last = get_last_played(&self.library);
        let (has_last_played, last_played_label): (bool, String) = match last {
            Some(lp) => (true, self.last_label(&lp)),
            None => (false, String::new()),
        };
        let continue_watching = self.continue_list();
        self.landing = Landing { has_last_played, last_played_label, continue_watching };
    }
}

/// What is offered to continue watching: at most five entries, each of them
/// begun and not finished, the most recently watched first, and none left out
/// that was watched later.
pub proof fn law_continue_watching(t: Tables)
    ensures
        t.continued().len() <= CONTINUE_LIMIT,
        t.begun_entries().len() >= CONTINUE_LIMIT ==> t.continued().len() == CONTINUE_LIMIT,
        in_order(t.continued(), recently_watched()),
        forall|i: int| 0 <= i < t.continued().len() ==> t.begun()(#[trigger] t.continued()[i]),
        forall|i: int, j: int|
            0 <= i < t.continued().len() <= j < t.begun_entries().len() ==> (
            #[trigger] t.continued()[i]).last_watched_at >= (
            #[trigger] t.begun_entries()[j]).last_watched_at,
{
    let movies = t.listed_entries(EntryKind::Movie).filter(t.begun());
    let series = t.listed_entries(EntryKind::Series).filter(t.begun());
    let all = movies + series;
    assert(total_preorder(recently_watched()));
    law_stable_sorted(all, recently_watched());
    crate::sorting::lemma_filter_members(t.listed_entries(EntryKind::Movie), t.begun());
    crate::sorting::lemma_filter_members(t.listed_entries(EntryKind::Series), t.begun());
    assert forall|i: int| 0 <= i < all.len() implies t.begun()(#[trigger] all[i]) by {
        if i < movies.len() {
            assert(all[i] == movies[i]);
        } else {
            assert(all[i] == series[i - movies.len()]);
        }
    }
    crate::sorting::lemma_sorted_all(all, recently_watched(), t.begun());
    let begun = t.begun_entries();
    assert forall|i: int, j: int| 0 <= i < j < t.continued().len() implies #[trigger] recently_watched()(
        t.continued()[i],
        t.continued()[j],
    ) by {
        assert(recently_watched()(begun[i], begun[j]));
    }
    assert forall|i: int| 0 <= i < t.continued().len() implies t.begun()(
        #[trigger] t.continued()[i],
    ) by {
        assert(t.begun()(begun[i]));
    }
    assert forall|i: int, j: int| 0 <= i < t.continued().len() <= j < begun.len() implies (
    #[trigger] t.continued()[i]).last_watched_at >= (#[trigger] begun[j]).last_watched_at by {
        assert(recently_watched()(begun[i], begun[j]));
    }
}

} // verus!
