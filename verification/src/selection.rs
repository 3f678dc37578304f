//! Opening entries and episodes, and asking to delete what is open.

use vstd::prelude::*;

use crate::db::{first, first_unfinished_episode, get_entry, get_episode, list_episodes};
use crate::models::{
    episode_views, kind_text, label_text, Entry, EntryKind, EntryView, Episode, EpisodeView,
};
use crate::playback::{progress_string, progress_text};
use crate::screen::{BulkView, Detail, DetailView, SeasonGroupView};
use crate::state::{AppState, AppView, DeleteTarget, DeleteTargetView, Selection};
use crate::text::{concat3, decimal, number_text};
use crate::timeline::season_groups;

verus! {

broadcast use vstd::string::group_string_axioms;

/// Every episode is finished, and there is one.
pub open spec fn all_watched(episodes: Seq<EpisodeView>) -> bool {
    episodes.len() > 0 && forall|i: int| 0 <= i < episodes.len() ==> (#[trigger] episodes[i]).finished
}

pub open spec fn id_of(e: Option<EpisodeView>) -> Option<i64> {
    match e {
        Some(e) => Some(e.id),
        None => None,
    }
}

impl DetailView {
    /// The pane with what it shows of an episode; of none where there is none.
    pub open spec fn showing(self, e: Option<EpisodeView>) -> DetailView {
        match e {
            Some(e) => DetailView {
                link: e.link_or_path,
                progress: progress_text(e.resume_position, e.duration, e.finished),
                episode_description: e.description,
                resume_enabled: e.resume_position > 0,
                play_enabled: e.link_or_path.len() > 0,
                ..self
            },
            None => DetailView {
                link: Seq::empty(),
                progress: Seq::empty(),
                episode_description: Seq::empty(),
                resume_enabled: false,
                play_enabled: false,
                ..self
            },
        }
    }

    /// The pane with what it shows of an entry as a whole.
    pub open spec fn headed(self, e: EntryView) -> DetailView {
        DetailView {
            entry_id: e.id,
            has_selection: true,
            title: e.title,
            kind: kind_text(e.kind),
            description: e.description,
            ..self
        }
    }
}

impl AppView {
    /// Bulk-select mode is off, and nothing is ticked. The number shown stays.
    pub open spec fn bulk_left(self) -> AppView {
        AppView {
            bulk: BulkView { mode: false, selected: Seq::empty(), ..self.bulk },
            ..self
        }
    }

    /// A movie is open.
    pub open spec fn movie_open(self, e: EntryView) -> AppView {
        AppView {
            selected: Selection::Movie(e.id),
            detail: DetailView {
                link: e.link_or_path,
                progress: progress_text(e.resume_position, e.duration, e.finished),
                episode_description: Seq::empty(),
                seasons: Seq::empty(),
                watched: e.finished,
                resume_enabled: e.resume_position > 0,
                play_enabled: e.link_or_path.len() > 0,
                top_resume_enabled: e.link_or_path.len() > 0,
                ..self.detail.headed(e)
            },
            status: Seq::empty(),
            ..self
        }
    }

    /// A series is open, with its first episode selected.
    pub open spec fn series_open(self, e: EntryView) -> AppView {
        let episodes = self.library.tables.listed_episodes(e.id);
        let chosen = first(episodes);
        AppView {
            selected: Selection::Series { entry_id: e.id, episode_id: id_of(chosen) },
            detail: DetailView {
                seasons: self.timeline(e.id, id_of(chosen)),
                watched: all_watched(episodes),
                top_resume_enabled: episodes.len() > 0,
                ..self.detail.headed(e).showing(chosen)
            },
            status: Seq::empty(),
            ..self
        }
    }

    /// The state after an entry was opened. Opening another entry than the open
    /// one leaves bulk-select mode; where no entry has the id nothing else
    /// happens.
    pub open spec fn select_entry(self, id: i64) -> AppView {
        let s = if self.selected.entry() == Some(id) {
            self
        } else {
            self.bulk_left()
        };
        match s.library.tables.entry(id) {
            Some(e) => match e.kind {
                EntryKind::Movie => s.movie_open(e),
                EntryKind::Series => s.series_open(e),
            },
            None => s,
        }
    }

    /// The state after an episode was selected, if there is one with the id.
    pub open spec fn select_episode(self, id: i64) -> AppView {
        match self.library.tables.episode(id) {
            Some(e) => AppView {
                selected: Selection::Series { entry_id: e.entry_id, episode_id: Some(id) },
                detail: DetailView {
                    seasons: self.timeline(e.entry_id, Some(id)),
                    ..self.detail.showing(Some(e))
                },
                ..self
            },
            None => self,
        }
    }
}

fn all_finished(episodes: &Vec<Episode>) -> (res: bool)
    ensures
        res == all_watched(episode_views(episodes@)),
{
    let ghost all = episode_views(episodes@);
    if episodes.len() == 0 {
        return false;
    }
    let mut i: usize = 0;
    while i < episodes.len()
        invariant
            i <= episodes@.len(),
            all == episode_views(episodes@),
            forall|k: int| 0 <= k < i ==> (#[trigger] all[k]).finished,
        decreases episodes@.len() - i,
    {
        if !episodes[i].finished {
            assert(!all[i as int].finished);
            return false;
        }
        assert(all[i as int].finished);
        i += 1;
    }
    true
}

impl Detail {
    fn show_episode(&mut self, e: &Episode)
        ensures
            final(self)@ == old(self)@.showing(Some(e@)),
    {
        self.link = e.link_or_path.clone();
        self.progress = progress_string(e.resume_position, e.duration, e.finished);
        self.episode_description = e.description.clone();
        self.resume_enabled = e.resume_position > 0;
        self.play_enabled = !e.link_or_path.as_str().is_empty();
    }

    fn show_no_episode(&mut self)
        ensures
            final(self)@ == old(self)@.showing(None),
    {
        self.link = String::new();
        self.progress = String::new();
        self.episode_description = String::new();
        self.resume_enabled = false;
        self.play_enabled = false;
    }

    fn head(&mut self, e: &Entry)
        ensures
            final(self)@ == old(self)@.headed(e@),
    {
        self.entry_id = e.id;
        self.has_selection = true;
        self.title = e.title.clone();
        self.kind = e.kind.as_str().to_owned();
        self.description = e.description.clone();
    }
}

impl AppState {
    pub(crate) fn leave_bulk(&mut self)
        ensures
            final(self)@ == old(self)@.bulk_left(),
    {
        self.bulk.selected = Vec::new();
        self.bulk.mode = false;
        assert(self@.bulk.selected == Seq::<i64>::empty());
    }

    fn open_movie(&mut self, e: &Entry)
        ensures
            final(self)@ == old(self)@.movie_open(e@),
    {
        self.detail.head(e);
        self.detail.link = e.link_or_path.clone();
        self.detail.seasons = Vec::new();
        self.detail.watched = e.finished;
        self.detail.progress = progress_string(e.resume_position, e.duration, e.finished);
        self.detail.episode_description = String::new();
        self.detail.resume_enabled = e.resume_position > 0;
        self.detail.play_enabled = !e.link_or_path.as_str().is_empty();
        self.detail.top_resume_enabled = !e.link_or_path.as_str().is_empty();
        self.selected = Selection::Movie(e.id);
        self.status = String::new();
        proof {
            assert(self@.detail.seasons == Seq::<SeasonGroupView>::empty());
            assert(self@ =~= old(self)@.movie_open(e@));
        }
    }

    fn open_series(&mut self, e: &Entry)
        ensures
            final(self)@ == old(self)@.series_open(e@),
    {
        let episodes = list_episodes(&self.library, e.id);
        let ghost listed = episode_views(episodes@);
        let first_id: Option<i64> = if episodes.len() > 0 {
            Some(episodes[0].id)
        } else {
            None
        };
        assert(first_id == id_of(first(listed)));
        let groups = season_groups(&episodes, first_id, &self.bulk.selected);
        self.detail.head(e);
        self.detail.seasons = groups;
        self.detail.watched = all_finished(&episodes);
        if episodes.len() > 0 {
            self.detail.show_episode(&episodes[0]);
        } else {
            self.detail.show_no_episode();
        }
        self.detail.top_resume_enabled = episodes.len() > 0;
        self.selected = Selection::Series { entry_id: e.id, episode_id: first_id };
        self.status = String::new();
        proof {
            assert(self@ =~= old(self)@.series_open(e@));
        }
    }

    /// Opens an entry.
    pub fn select_entry(&mut self, id: i64)
        requires
            old(self).wf(),
        ensures
            final(self).wf(),
            final(self)@ == old(self)@.select_entry(id),
    {
        let switching = match self.selected.open_entry() {
            Some(open) => open != id,
            None => true,
        };
        if switching {
            self.leave_bulk();
        }
        match get_entry(&self.library, id) {
            Ok(e) => {
                if e.kind == EntryKind::Series {
                    self.open_series(&e);
                } else {
                    self.open_movie(&e);
                }
            },
            Err(_) => {},
        }
    }

    /// Selects an episode.
    pub fn select_episode(&mut self, episode_id: i64)
        requires
            old(self).wf(),
        ensures
            final(self).wf(),
            final(self)@ == old(self)@.select_episode(episode_id),
    {
        match get_episode(&self.library, episode_id) {
            Ok(e) => {
                let episodes = list_episodes(&self.library, e.entry_id);
                let groups = season_groups(&episodes, Some(episode_id), &self.bulk.selected);
                self.detail.seasons = groups;
                self.detail.show_episode(&e);
                self.selected = Selection::Series {
                    entry_id: e.entry_id,
                    episode_id: Some(episode_id),
                };
            },
            Err(_) => {},
        }
    }
}

// ---------------------------------------------------------------------
// Stepping through the episodes
// ---------------------------------------------------------------------

/// Where an episode stands in a list, if it is there.
pub open spec fn position_of(episodes: Seq<EpisodeView>, id: i64) -> Option<int>
    decreases episodes.len(),
{
    if episodes.len() == 0 {
        None
    } else if episodes[0].id == id {
        Some(0)
    } else {
        match position_of(episodes.drop_first(), id) {
            Some(i) => Some(i + 1),
            None => None,
        }
    }
}

/// The episode that a step leads to. A step from no episode, or from one that
/// is not in the list, leads to the first; none leads out of the list.
pub open spec fn stepped(episodes: Seq<EpisodeView>, current: Option<i64>, direction: int) -> Option<
    i64,
> {
    let from = match current {
        Some(id) => position_of(episodes, id),
        None => None,
    };
    let to = match from {
        Some(i) => i + direction,
        None => 0,
    };
    if 0 <= to < episodes.len() {
        Some(episodes[to].id)
    } else {
        None
    }
}

impl AppView {
    /// The state after a step through the episodes of the open series.
    pub open spec fn select_adjacent_episode(self, direction: int) -> AppView {
        match self.selected {
            Selection::Series { entry_id, episode_id } => match stepped(
                self.library.tables.listed_episodes(entry_id),
                episode_id,
                direction,
            ) {
                Some(id) => self.select_episode(id),
                None => self,
            },
            _ => self,
        }
    }

    /// The state after the jump to the first unfinished episode of the open
    /// series.
    pub open spec fn jump_to_next_unfinished(self) -> AppView {
        match self.selected.series() {
            Some(entry_id) => match self.library.tables.first_unfinished_episode(entry_id) {
                Some(e) => self.select_episode(e.id),
                None => self.with_status("All episodes are finished."@),
            },
            None => self,
        }
    }
}

fn find_episode(episodes: &Vec<Episode>, id: i64) -> (res: Option<usize>)
    ensures
        match res {
            Some(i) => position_of(episode_views(episodes@), id) == Some(i as int) && i
                < episodes@.len(),
            None => position_of(episode_views(episodes@), id) is None,
        },
{
    let ghost all = episode_views(episodes@);
    let mut i: usize = 0;
    assert(all.skip(0) == all);
    while i < episodes.len()
        invariant
            i <= episodes@.len(),
            all == episode_views(episodes@),
            position_of(all, id) == (match position_of(all.skip(i as int), id) {
                Some(k) => Some(k + i),
                None => None::<int>,
            }),
        decreases episodes@.len() - i,
    {
        assert(all.skip(i as int)[0] == episodes@[i as int]@);
        assert(all.skip(i as int).drop_first() == all.skip(i + 1));
        if episodes[i].id == id {
            return Some(i);
        }
        i += 1;
    }
    None
}

impl AppState {
    /// Steps forward or back through all episodes of the open series.
    pub fn select_adjacent_episode(&mut self, direction: i32)
        requires
            old(self).wf(),
        ensures
            final(self).wf(),
            final(self)@ == old(self)@.select_adjacent_episode(direction as int),
    {
        if let Selection::Series { entry_id, episode_id } = self.selected {
            let episodes = list_episodes(&self.library, entry_id);
            let from: Option<usize> = match episode_id {
                Some(id) => find_episode(&episodes, id),
                None => None,
            };
            let to: i128 = match from {
                Some(i) => i as i128 + direction as i128,
                None => 0,
            };
            if 0 <= to && to < episodes.len() as i128 {
                let id: i64 = episodes[to as usize].id;
                assert(episode_views(episodes@)[to as int].id == id);
                self.select_episode(id);
            }
        }
    }

    /// Selects the first episode of the open series that is not finished.
    pub fn jump_to_next_unfinished(&mut self)
        requires
            old(self).wf(),
        ensures
            final(self).wf(),
            final(self)@ == old(self)@.jump_to_next_unfinished(),
    {
        match self.selected.open_series() {
            Some(entry_id) => match first_unfinished_episode(&self.library, entry_id) {
                Some(e) => self.select_episode(e.id),
                None => self.set_status("All episodes are finished."),
            },
            None => {},
        }
    }
}

// ---------------------------------------------------------------------
// Asking to delete
// ---------------------------------------------------------------------

impl AppView {
    /// Deleting the open entry waits for an answer.
    pub open spec fn request_delete_entry(self) -> AppView {
        match self.selected.entry() {
            Some(id) => self.asked_to_confirm(
                DeleteTargetView::Entry(id),
                "Delete \""@ + (match self.library.tables.entry(id) {
                    Some(e) => e.title,
                    None => Seq::empty(),
                }) + "\"? This cannot be undone."@,
            ),
            None => self,
        }
    }

    /// Deleting an episode waits for an answer, if there is one with the id.
    pub open spec fn request_delete_episode(self, id: i64) -> AppView {
        match self.library.tables.episode(id) {
            Some(e) => self.asked_to_confirm(
                DeleteTargetView::Episode(id),
                "Delete episode \""@ + label_text(e) + "\"?"@,
            ),
            None => self,
        }
    }

    /// Deleting a season of the open series waits for an answer.
    pub open spec fn request_delete_season(self, season: i32) -> AppView {
        match self.selected.series() {
            Some(entry_id) => self.asked_to_confirm(
                DeleteTargetView::Season(entry_id, season),
                "Delete Season "@ + decimal(season as int)
                    + " and all its episodes? This cannot be undone."@,
            ),
            None => self,
        }
    }

    /// Deleting what is open waits for an answer: the selected episode of a
    /// series, or else the entry.
    pub open spec fn request_delete_current(self) -> AppView {
        match self.selected {
            Selection::Series { episode_id: Some(id), .. } => self.request_delete_episode(id),
            _ => self.request_delete_entry(),
        }
    }
}

impl AppState {
    /// Asks before the open entry is deleted, even where an episode of it is
    /// selected.
    pub fn request_delete_entry(&mut self)
        requires
            old(self).wf(),
        ensures
            final(self).wf(),
            final(self)@ == old(self)@.request_delete_entry(),
    {
        match self.selected.open_entry() {
            Some(id) => {
                let title = match get_entry(&self.library, id) {
                    Ok(e) => e.title,
                    Err(_) => String::new(),
                };
                let message = concat3("Delete \"", title.as_str(), "\"? This cannot be undone.");
                self.ask_to_confirm(DeleteTarget::Entry(id), message);
            },
            None => {},
        }
    }

    /// Asks before an episode is deleted.
    pub fn request_delete_episode(&mut self, episode_id: i64)
        requires
            old(self).wf(),
        ensures
            final(self).wf(),
            final(self)@ == old(self)@.request_delete_episode(episode_id),
    {
        match get_episode(&self.library, episode_id) {
            Ok(e) => {
                let message = concat3("Delete episode \"", e.label().as_str(), "\"?");
                self.ask_to_confirm(DeleteTarget::Episode(episode_id), message);
            },
            Err(_) => {},
        }
    }

    /// Asks before a season of the open series is deleted.
    pub fn request_delete_season(&mut self, season: i32)
        requires
            old(self).wf(),
        ensures
            final(self).wf(),
            final(self)@ == old(self)@.request_delete_season(season),
    {
        match self.selected.open_series() {
            Some(entry_id) => {
                let message = concat3(
                    "Delete Season ",
                    number_text(season as i64).as_str(),
                    " and all its episodes? This cannot be undone.",
                );
                self.ask_to_confirm(DeleteTarget::Season(entry_id, season), message);
            },
            None => {},
        }
    }

    /// Asks before what is open is deleted.
    pub fn request_delete_current(&mut self)
        requires
            old(self).wf(),
        ensures
            final(self).wf(),
            final(self)@ == old(self)@.request_delete_current(),
    {
        match self.selected {
            Selection::Series { episode_id: Some(id), .. } => self.request_delete_episode(id),
            _ => self.request_delete_entry(),
        }
    }

    /// Deletes nothing.
    pub fn cancel_delete(&mut self)
        ensures
            final(self)@ == (AppView {
                confirm: crate::screen::ConfirmDialogView { open: false, ..old(self)@.confirm },
                ..old(self)@
            }),
    {
        self.confirm.open = false;
    }
}

} // verus!
