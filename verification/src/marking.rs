//! Ticking episodes to act on them together, and marking things as watched.

use vstd::prelude::*;

use crate::db::{get_entry, get_episode, update_entry_resume, update_episode_resume};
use crate::rows::lemma_filter_all;
use crate::screen::BulkView;
use crate::state::{AppState, AppView, DeleteTarget, DeleteTargetView, Selection};
use crate::tables::{Library, LibraryView};
use crate::text::{concat3, count_text, decimal};

verus! {

broadcast use vstd::string::group_string_axioms;

// ---------------------------------------------------------------------
// Ticking
// ---------------------------------------------------------------------

pub open spec fn other_than(id: i64) -> spec_fn(i64) -> bool {
    |k: i64| k != id
}

/// The ticked episodes after one was clicked: it is ticked, or no longer so.
pub open spec fn toggled(selected: Seq<i64>, id: i64) -> Seq<i64> {
    if selected.contains(id) {
        selected.filter(other_than(id))
    } else {
        selected.push(id)
    }
}

impl AppView {
    /// The state after bulk-select mode was turned on or off. Turning it off
    /// unticks everything.
    pub open spec fn toggle_bulk_select_mode(self) -> AppView {
        AppView {
            bulk: BulkView {
                mode: !self.bulk.mode,
                count: 0,
                selected: if self.bulk.mode {
                    Seq::empty()
                } else {
                    self.bulk.selected
                },
            },
            ..self
        }.refresh_timeline()
    }

    /// The state after an episode was ticked or unticked.
    pub open spec fn toggle_bulk_selected(self, id: i64) -> AppView {
        let selected = toggled(self.bulk.selected, id);
        AppView {
            bulk: BulkView { count: selected.len() as usize, selected, ..self.bulk },
            ..self
        }.refresh_timeline()
    }

    /// Deleting the ticked episodes waits for an answer, if any are.
    pub open spec fn bulk_delete_selected(self) -> AppView {
        let ids = self.bulk.selected;
        if ids.len() == 0 {
            self
        } else {
            self.asked_to_confirm(
                DeleteTargetView::BulkEpisodes(ids),
                "Delete "@ + decimal(ids.len() as int)
                    + " selected episode(s)? This cannot be undone."@,
            )
        }
    }
}

/// Where the only occurrence of an element is, removing it is the same as
/// keeping all others.
proof fn lemma_remove_only(s: Seq<i64>, at: int)
    requires
        0 <= at < s.len(),
        s.no_duplicates(),
    ensures
        s.filter(other_than(s[at])) == s.remove(at),
    decreases s.len(),
{
    let id = s[at];
    let p = other_than(id);
    let rest = s.drop_last();
    reveal(Seq::filter);
    if at == s.len() - 1 {
        assert forall|i: int| 0 <= i < rest.len() implies p(#[trigger] rest[i]) by {
            assert(rest[i] == s[i]);
        }
        lemma_filter_all(rest, p);
        assert(s.remove(at) == rest);
    } else {
        assert(rest[at] == id);
        assert(rest.no_duplicates()) by {
            assert forall|i: int, j: int| 0 <= i < rest.len() && 0 <= j < rest.len() && i != j implies rest[i]
                != rest[j] by {
                assert(s[i] != s[j]);
            }
        }
        lemma_remove_only(rest, at);
        assert(s.last() != id);
        assert(s.remove(at) == rest.remove(at).push(s.last()));
    }
}

/// Ticks an episode, or unticks it.
pub fn toggle_id(selected: &mut Vec<i64>, id: i64)
    requires
        old(selected)@.no_duplicates(),
    ensures
        final(selected)@ == toggled(old(selected)@, id),
        final(selected)@.no_duplicates(),
{
    let ghost before = selected@;
    let mut i: usize = 0;
    while i < selected.len()
        invariant
            i <= selected@.len(),
            selected@ == before,
            before.no_duplicates(),
            before == old(selected)@,
            forall|k: int| 0 <= k < i ==> selected@[k] != id,
        decreases selected@.len() - i,
    {
        if selected[i] == id {
            proof {
                lemma_remove_only(before, i as int);
                assert(before.contains(id));
            }
            selected.remove(i);
            proof {
                assert forall|a: int, b: int|
                    0 <= a < selected@.len() && 0 <= b < selected@.len() && a != b implies selected@[a]
                    != selected@[b] by {
                    let x = if a < i {
                        a
                    } else {
                        a + 1
                    };
                    let y = if b < i {
                        b
                    } else {
                        b + 1
                    };
                    assert(before[x] != before[y]);
                }
            }
            return ;
        }
        i += 1;
    }
    selected.push(id);
}

/// Clicking an episode twice leaves exactly the same episodes ticked.
pub proof fn law_toggle_twice(selected: Seq<i64>, id: i64)
    requires
        selected.no_duplicates(),
    ensures
        toggled(selected, id).contains(id) == !selected.contains(id),
        forall|other: i64|
            other != id ==> #[trigger] toggled(selected, id).contains(other) == selected.contains(
                other,
            ),
        forall|other: i64|
            #[trigger] toggled(toggled(selected, id), id).contains(other) == selected.contains(
                other,
            ),
{
    lemma_toggle_once(selected, id);
    let once = toggled(selected, id);
    lemma_toggle_once(once, id);
}

proof fn lemma_toggle_once(selected: Seq<i64>, id: i64)
    requires
        selected.no_duplicates(),
    ensures
        toggled(selected, id).no_duplicates(),
        toggled(selected, id).contains(id) == !selected.contains(id),
        forall|other: i64|
            other != id ==> #[trigger] toggled(selected, id).contains(other) == selected.contains(
                other,
            ),
{
    let after = toggled(selected, id);
    if selected.contains(id) {
        let at = choose|k: int| 0 <= k < selected.len() && selected[k] == id;
        lemma_remove_only(selected, at);
        assert(after == selected.remove(at));
        assert forall|other: i64| other != id implies #[trigger] after.contains(other)
            == selected.contains(other) by {
            if selected.contains(other) {
                let k = choose|k: int| 0 <= k < selected.len() && selected[k] == other;
                assert(after[if k < at {
                    k
                } else {
                    k - 1
                }] == other);
            }
            if after.contains(other) {
                let k = choose|k: int| 0 <= k < after.len() && after[k] == other;
                assert(selected[if k < at {
                    k
                } else {
                    k + 1
                }] == other);
            }
        }
        if after.contains(id) {
            let k = choose|k: int| 0 <= k < after.len() && after[k] == id;
            let j = if k < at {
                k
            } else {
                k + 1
            };
            assert(selected[j] == id && j != at);
        }
        assert forall|a: int, b: int| 0 <= a < after.len() && 0 <= b < after.len() && a != b implies after[a]
            != after[b] by {
            let x = if a < at {
                a
            } else {
                a + 1
            };
            let y = if b < at {
                b
            } else {
                b + 1
            };
            assert(selected[x] != selected[y]);
        }
    } else {
        assert(after[after.len() - 1] == id);
        assert forall|other: i64| other != id implies #[trigger] after.contains(other)
            == selected.contains(other) by {
            if selected.contains(other) {
                let k = choose|k: int| 0 <= k < selected.len() && selected[k] == other;
                assert(after[k] == other);
            }
            if after.contains(other) {
                let k = choose|k: int| 0 <= k < after.len() && after[k] == other;
                assert(selected[k] == other);
            }
        }
    }
}

impl AppState {
    /// Turns bulk-select mode on or off.
    pub fn toggle_bulk_select_mode(&mut self)
        requires
            old(self).wf(),
        ensures
            final(self).wf(),
            final(self)@ == old(self)@.toggle_bulk_select_mode(),
    {
        let mode = !self.bulk.mode;
        self.bulk.mode = mode;
        if !mode {
            self.bulk.selected = Vec::new();
        }
        self.bulk.count = 0;
        self.refresh_current_series_timeline();
    }

    /// Ticks an episode, or unticks it.
    pub fn toggle_bulk_selected(&mut self, episode_id: i64)
        requires
            old(self).wf(),
        ensures
            final(self).wf(),
            final(self)@ == old(self)@.toggle_bulk_selected(episode_id),
    {
        toggle_id(&mut self.bulk.selected, episode_id);
        self.bulk.count = self.bulk.selected.len();
        self.refresh_current_series_timeline();
    }

    /// Asks before the ticked episodes are deleted.
    pub fn bulk_delete_selected(&mut self)
        requires
            old(self).wf(),
        ensures
            final(self).wf(),
            final(self)@ == old(self)@.bulk_delete_selected(),
    {
        let ids = copy_ids(&self.bulk.selected);
        if ids.len() > 0 {
            let message = concat3(
                "Delete ",
                count_text(ids.len()).as_str(),
                " selected episode(s)? This cannot be undone.",
            );
            self.ask_to_confirm(DeleteTarget::BulkEpisodes(ids), message);
        }
    }
}

fn copy_ids(ids: &Vec<i64>) -> (res: Vec<i64>)
    ensures
        res@ == ids@,
{
    let mut res: Vec<i64> = Vec::new();
    let mut i: usize = 0;
    while i < ids.len()
        invariant
            i <= ids@.len(),
            res@ == ids@.take(i as int),
        decreases ids@.len() - i,
    {
        res.push(ids[i]);
        i += 1;
        assert(ids@.take(i as int) == ids@.take(i - 1).push(ids@[i - 1]));
    }
    assert(ids@.take(ids@.len() as int) == ids@);
    res
}

// ---------------------------------------------------------------------
// Marking as watched
// ---------------------------------------------------------------------

pub open spec fn watched_word(finished: bool) -> Seq<char> {
    if finished {
        "watched"@
    } else {
        "unwatched"@
    }
}

/// Where something marked by hand stands: at its end, or at its start.
pub open spec fn marked_position(duration: i64, finished: bool) -> i64 {
    if finished && duration > 0 {
        duration
    } else {
        0
    }
}

fn position_for(duration: i64, finished: bool) -> (res: i64)
    ensures
        res == marked_position(duration, finished),
{
    if finished && duration > 0 {
        duration
    } else {
        0
    }
}

fn word_for(finished: bool) -> (res: &'static str)
    ensures
        res@ == watched_word(finished),
{
    if finished {
        "watched"
    } else {
        "unwatched"
    }
}

impl LibraryView {
    /// An episode is marked, if there is one with the id.
    pub open spec fn mark_episode(self, id: i64, finished: bool) -> LibraryView {
        match self.tables.episode(id) {
            Some(e) => self.update_episode_resume(
                id,
                marked_position(e.duration, finished),
                e.duration,
                finished,
            ),
            None => self,
        }
    }

    /// Each of the episodes is marked.
    pub open spec fn mark_episodes(self, ids: Seq<i64>, finished: bool) -> LibraryView
        decreases ids.len(),
    {
        if ids.len() == 0 {
            self
        } else {
            self.mark_episodes(ids.drop_last(), finished).mark_episode(ids.last(), finished)
        }
    }
}

impl AppView {
    /// The state after the ticked episodes of the open series were marked.
    pub open spec fn bulk_set_finished(self, finished: bool) -> AppView {
        let ids = self.bulk.selected;
        if self.selected.series() is None || ids.len() == 0 {
            self
        } else {
            self.with_library(self.library.mark_episodes(ids, finished)).with_status(
                "Marked "@ + decimal(ids.len() as int) + " episode(s) as "@ + watched_word(finished)
                    + "."@,
            ).refresh_last_played().refresh_timeline()
        }
    }

    /// The state after the open movie was marked as watched, or as unwatched
    /// where it was watched.
    pub open spec fn toggle_movie_watched(self) -> AppView {
        match self.selected {
            Selection::Movie(id) => match self.library.tables.entry(id) {
                Some(e) => self.with_library(
                    self.library.update_entry_resume(
                        id,
                        marked_position(e.duration, !e.finished),
                        e.duration,
                        !e.finished,
                    ),
                ).select_entry(id).with_status("Marked as "@ + watched_word(!e.finished) + "."@),
                None => self,
            },
            _ => self,
        }
    }
}

fn mark_each(library: &mut Library, ids: &Vec<i64>, finished: bool)
    requires
        old(library).wf(),
    ensures
        final(library).wf(),
        final(library)@ == old(library)@.mark_episodes(ids@, finished),
{
    let ghost start = library@;
    let mut i: usize = 0;
    while i < ids.len()
        invariant
            i <= ids@.len(),
            library.wf(),
            library@ == start.mark_episodes(ids@.take(i as int), finished),
        decreases ids@.len() - i,
    {
        proof {
            assert(ids@.take(i + 1).drop_last() == ids@.take(i as int));
            assert(ids@.take(i + 1).last() == ids@[i as int]);
        }
        if let Ok(e) = get_episode(library, ids[i]) {
            let position: i64 = position_for(e.duration, finished);
            update_episode_resume(library, ids[i], position, e.duration, finished);
        }
        i += 1;
    }
    assert(ids@.take(ids@.len() as int) == ids@);
}

impl AppState {
    /// Marks the ticked episodes as watched or unwatched.
    pub fn bulk_set_finished(&mut self, finished: bool)
        requires
            old(self).wf(),
        ensures
            final(self).wf(),
            final(self)@ == old(self)@.bulk_set_finished(finished),
    {
        if self.selected.open_series().is_none() || self.bulk.selected.len() == 0 {
            return ;
        }
        mark_each(&mut self.library, &self.bulk.selected, finished);
        let counted = concat3(
            "Marked ",
            count_text(self.bulk.selected.len()).as_str(),
            " episode(s) as ",
        );
        let status = concat3(counted.as_str(), word_for(finished), ".");
        self.set_status(status.as_str());
        self.refresh_last_played();
        self.refresh_current_series_timeline();
    }

    /// Marks the open movie as watched, or as unwatched where it was watched.
    pub fn toggle_movie_watched(&mut self)
        requires
            old(self).wf(),
        ensures
            final(self).wf(),
            final(self)@ == old(self)@.toggle_movie_watched(),
    {
        if let Selection::Movie(id) = self.selected {
            if let Ok(e) = get_entry(&self.library, id) {
                let finished = !e.finished;
                let position: i64 = position_for(e.duration, finished);
                update_entry_resume(&mut self.library, id, position, e.duration, finished);
                self.select_entry(id);
                let status = concat3("Marked as ", word_for(finished), ".");
                self.set_status(status.as_str());
            }
        }
    }
}

} // verus!
