//! Deleting what was confirmed.

use vstd::prelude::*;

use crate::db::{
    clear_last_played, delete_entry, delete_episode, delete_season, get_episode, get_last_played,
};
use crate::screen::{ConfirmDialogView, DetailView, SeasonGroupView};
use crate::state::{AppState, AppView, DeleteTarget, DeleteTargetView, Selection};
use crate::tables::{Library, LibraryView, Tables};
use crate::text::{concat3, count_text, decimal};
use crate::timeline::holds_id;

verus! {

broadcast use vstd::string::group_string_axioms;

// ---------------------------------------------------------------------
// Deleting
// ---------------------------------------------------------------------

impl LibraryView {
    /// What was played last belongs to what is deleted.
    pub open spec fn last_played_within(self, target: DeleteTargetView) -> bool {
        match self.last_played() {
            Some(lp) => match target {
                DeleteTargetView::Entry(id) => lp.entry_id == id,
                DeleteTargetView::Episode(id) => lp.episode_id == Some(id),
                DeleteTargetView::Season(entry_id, season) => match lp.episode_id {
                    Some(id) => match self.tables.episode(id) {
                        Some(e) => e.entry_id == entry_id && e.season == season,
                        None => false,
                    },
                    None => false,
                },
                DeleteTargetView::BulkEpisodes(ids) => match lp.episode_id {
                    Some(id) => ids.contains(id),
                    None => false,
                },
            },
            None => false,
        }
    }

    /// What was played last is forgotten where it belongs to what is deleted.
    pub open spec fn forgetting(self, target: DeleteTargetView) -> LibraryView {
        if self.last_played_within(target) {
            self.clear_last_played()
        } else {
            self
        }
    }

    /// Each of the episodes is deleted.
    pub open spec fn delete_episodes(self, ids: Seq<i64>) -> LibraryView
        decreases ids.len(),
    {
        if ids.len() == 0 {
            self
        } else {
            self.delete_episodes(ids.drop_last()).delete_episode(ids.last())
        }
    }

    /// The library after what was confirmed is deleted.
    pub open spec fn deleted(self, target: DeleteTargetView) -> LibraryView {
        match target {
            DeleteTargetView::Entry(id) => self.forgetting(target).delete_entry(id),
            DeleteTargetView::Episode(id) => self.forgetting(target).delete_episode(id),
            DeleteTargetView::Season(entry_id, season) => self.forgetting(target).delete_season(
                entry_id,
                season,
            ),
            DeleteTargetView::BulkEpisodes(ids) => self.forgetting(target).delete_episodes(ids),
        }
    }
}

impl Tables {
    /// The series that an episode belongs to.
    pub open spec fn series_of(self, episode_id: i64) -> Option<i64> {
        match self.episode(episode_id) {
            Some(e) => Some(e.entry_id),
            None => None,
        }
    }
}

impl AppView {
    /// Nothing is open any more.
    pub open spec fn nothing_open(self) -> AppView {
        AppView {
            selected: Selection::Nothing,
            detail: DetailView {
                has_selection: false,
                title: Seq::empty(),
                description: Seq::empty(),
                link: Seq::empty(),
                progress: Seq::empty(),
                episode_description: Seq::empty(),
                watched: false,
                seasons: Seq::empty(),
                ..self.detail
            },
            status: Seq::empty(),
            ..self
        }
    }

    /// An entry is opened, if there is one to open.
    pub open spec fn select_some(self, id: Option<i64>) -> AppView {
        match id {
            Some(id) => self.select_entry(id),
            None => self,
        }
    }

    /// The question was answered.
    pub open spec fn answered(self) -> AppView {
        AppView {
            pending_delete: None,
            confirm: ConfirmDialogView { open: false, ..self.confirm },
            ..self
        }
    }

    /// The state after the user confirmed that something is to be deleted.
    pub open spec fn confirm_delete(self) -> AppView {
        let s = self.answered();
        match self.pending_delete {
            Some(target) => {
                let gone = s.with_library(s.library.deleted(target));
                match target {
                    DeleteTargetView::Entry(_) =>
                        gone.nothing_open().refresh_sidebar().refresh_last_played(),
                    DeleteTargetView::Episode(id) => gone.refresh_last_played().select_some(
                        s.library.tables.series_of(id),
                    ),
                    DeleteTargetView::Season(entry_id, _) =>
                        gone.refresh_last_played().select_entry(entry_id),
                    DeleteTargetView::BulkEpisodes(ids) => if ids.len() == 0 {
                        s
                    } else {
                        gone.bulk_left().refresh_last_played().select_some(
                            s.library.tables.series_of(ids[0]),
                        ).with_status("Deleted "@ + decimal(ids.len() as int) + " episode(s)."@)
                    },
                }
            },
            None => s,
        }
    }

    /// The entry whose posters go with what the user confirmed.
    pub open spec fn posters_to_delete(self) -> Option<i64> {
        match self.pending_delete {
            Some(DeleteTargetView::Entry(id)) => Some(id),
            _ => None,
        }
    }
}

/// Whether what was played last belongs to what is deleted.
fn touches_last_played(library: &Library, target: &DeleteTarget) -> (res: bool)
    requires
        library.wf(),
    ensures
        res == library@.last_played_within(target@),
{
    let lp = match get_last_played(library) {
        Some(lp) => lp,
        None => {
            return false;
        },
    };
    match target {
        DeleteTarget::Entry(id) => lp.entry_id == *id,
        DeleteTarget::Episode(id) => match lp.episode_id {
            Some(played) => played == *id,
            None => false,
        },
        DeleteTarget::Season(entry_id, season) => match lp.episode_id {
            Some(played) => match get_episode(library, played) {
                Ok(e) => e.entry_id == *entry_id && e.season == *season,
                Err(_) => false,
            },
            None => false,
        },
        DeleteTarget::BulkEpisodes(ids) => match lp.episode_id {
            Some(played) => holds_id(ids, played),
            None => false,
        },
    }
}

fn delete_each(library: &mut Library, ids: &Vec<i64>)
    requires
        old(library).wf(),
    ensures
        final(library).wf(),
        final(library)@ == old(library)@.delete_episodes(ids@),
{
    let ghost start = library@;
    let mut i: usize = 0;
    while i < ids.len()
        invariant
            i <= ids@.len(),
            library.wf(),
            library@ == start.delete_episodes(ids@.take(i as int)),
        decreases ids@.len() - i,
    {
        proof {
            assert(ids@.take(i + 1).drop_last() == ids@.take(i as int));
            assert(ids@.take(i + 1).last() == ids@[i as int]);
        }
        delete_episode(library, ids[i]);
        i += 1;
    }
    assert(ids@.take(ids@.len() as int) == ids@);
}

/// Deletes something, and forgets what was played last where that belongs to
/// it.
fn delete_from(library: &mut Library, target: &DeleteTarget)
    requires
        old(library).wf(),
    ensures
        final(library).wf(),
        final(library)@ == old(library)@.deleted(target@),
{
    if touches_last_played(library, target) {
        clear_last_played(library);
    }
    match target {
        DeleteTarget::Entry(id) => delete_entry(library, *id),
        DeleteTarget::Episode(id) => delete_episode(library, *id),
        DeleteTarget::Season(entry_id, season) => delete_season(library, *entry_id, *season),
        DeleteTarget::BulkEpisodes(ids) => delete_each(library, ids),
    }
}

fn series_of(library: &Library, episode_id: i64) -> (res: Option<i64>)
    requires
        library.wf(),
    ensures
        res == library@.tables.series_of(episode_id),
{
    match get_episode(library, episode_id) {
        Ok(e) => Some(e.entry_id),
        Err(_) => None,
    }
}

impl AppState {
    pub(crate) fn close_all(&mut self)
        ensures
            final(self)@ == old(self)@.nothing_open(),
    {
        self.selected = Selection::Nothing;
        self.detail.has_selection = false;
        self.detail.title = String::new();
        self.detail.description = String::new();
        self.detail.link = String::new();
        self.detail.progress = String::new();
        self.detail.episode_description = String::new();
        self.detail.watched = false;
        self.detail.seasons = Vec::new();
        self.status = String::new();
        proof {
            assert(self@.detail.seasons == Seq::<SeasonGroupView>::empty());
            assert(self@ =~= old(self)@.nothing_open());
        }
    }

    fn select_if_some(&mut self, id: Option<i64>)
        requires
            old(self).wf(),
        ensures
            final(self).wf(),
            final(self)@ == old(self)@.select_some(id),
    {
        if let Some(id) = id {
            self.select_entry(id);
        }
    }

    /// Deletes what waits for an answer. The result is the entry whose posters
    /// go with it.
    pub fn confirm_delete(&mut self) -> (res: Option<i64>)
        requires
            old(self).wf(),
        ensures
            final(self).wf(),
            final(self)@ == old(self)@.confirm_delete(),
            res == old(self)@.posters_to_delete(),
    {
        let pending = self.pending_delete.take();
        self.confirm.open = false;
        assert(self@ == old(self)@.answered());
        let target = match pending {
            Some(target) => target,
            None => {
                return None;
            },
        };
        assert(old(self)@.pending_delete == Some(target@));
        match &target {
            DeleteTarget::Entry(id) => {
                delete_from(&mut self.library, &target);
                self.close_all();
                self.refresh_sidebar();
                self.refresh_last_played();
                Some(*id)
            },
            DeleteTarget::Episode(id) => {
                let entry_id = series_of(&self.library, *id);
                delete_from(&mut self.library, &target);
                self.refresh_last_played();
                self.select_if_some(entry_id);
                None
            },
            DeleteTarget::Season(entry_id, _) => {
                delete_from(&mut self.library, &target);
                self.refresh_last_played();
                self.select_entry(*entry_id);
                None
            },
            DeleteTarget::BulkEpisodes(ids) => {
                if ids.len() == 0 {
                    return None;
                }
                let entry_id = series_of(&self.library, ids[0]);
                delete_from(&mut self.library, &target);
                self.leave_bulk();
                self.refresh_last_played();
                self.select_if_some(entry_id);
                let status = concat3("Deleted ", count_text(ids.len()).as_str(), " episode(s).");
                self.set_status(status.as_str());
                None
            },
        }
    }
}

} // verus!
