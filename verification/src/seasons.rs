//! Adding single episodes and whole seasons to a series, and looking for new
//! episodes of a season.

use vstd::prelude::*;

use crate::adding::{
    i32_or, is_usable_pattern, outcome, read_i32, read_usize, store_found, usable_pattern,
    usize_or,
};
use crate::db::{error_text, get_season_pattern, insert_episode, list_episodes, set_season_pattern};
use crate::models::{episode_views, Episode, EpisodeView};
use crate::pattern::{probe_error_text, FoundEpisode, FoundView, ProbeError};
use crate::screen::{EpisodeForm, EpisodeFormView, SeasonForm, SeasonFormView};
use crate::state::{AppState, AppView};
use crate::tables::Tables;
use crate::text::{blank, concat2, concat3, concat5, count_text, decimal, is_blank, number_text};

verus! {

broadcast use vstd::string::group_string_axioms;

// ---------------------------------------------------------------------
// The next free number
// ---------------------------------------------------------------------

/// The largest of some numbers.
pub open spec fn largest(numbers: Seq<i32>) -> Option<i32>
    decreases numbers.len(),
{
    if numbers.len() == 0 {
        None
    } else {
        match largest(numbers.drop_last()) {
            Some(m) => if m >= numbers.last() {
                Some(m)
            } else {
                Some(numbers.last())
            },
            None => Some(numbers.last()),
        }
    }
}

/// The number after the largest one; one where there is none.
pub open spec fn number_after(numbers: Seq<i32>) -> int {
    match largest(numbers) {
        Some(m) => m + 1,
        None => 1,
    }
}

pub open spec fn in_season(season: i32) -> spec_fn(EpisodeView) -> bool {
    |e: EpisodeView| e.season == season
}

impl Tables {
    /// The numbers of the episodes of a season.
    pub open spec fn episode_numbers(self, entry_id: i64, season: i32) -> Seq<i32> {
        self.listed_episodes(entry_id).filter(in_season(season)).map_values(
            |e: EpisodeView| e.episode,
        )
    }

    /// The numbers of the seasons of a series, one for each episode.
    pub open spec fn season_numbers(self, entry_id: i64) -> Seq<i32> {
        self.listed_episodes(entry_id).map_values(|e: EpisodeView| e.season)
    }

    /// The number that the next episode of a season gets.
    pub open spec fn next_episode_number(self, entry_id: i64, season: i32) -> int {
        number_after(self.episode_numbers(entry_id, season))
    }

    /// The number that the next season of a series gets.
    pub open spec fn next_season_number(self, entry_id: i64) -> int {
        number_after(self.season_numbers(entry_id))
    }
}

/// The number after the largest is larger than all.
pub proof fn law_number_after(numbers: Seq<i32>)
    ensures
        largest(numbers) matches Some(m) ==> numbers.contains(m),
        largest(numbers) is None <==> numbers.len() == 0,
        forall|i: int| 0 <= i < numbers.len() ==> (#[trigger] numbers[i]) < number_after(numbers),
    decreases numbers.len(),
{
    if numbers.len() > 0 {
        let rest = numbers.drop_last();
        law_number_after(rest);
        assert forall|i: int| 0 <= i < numbers.len() implies (#[trigger] numbers[i]) < number_after(
            numbers,
        ) by {
            if i < rest.len() {
                assert(rest[i] == numbers[i]);
            }
        }
        if let Some(m) = largest(rest) {
            let k = choose|k: int| 0 <= k < rest.len() && rest[k] == m;
            assert(numbers[k] == m);
        }
        assert(numbers[numbers.len() - 1] == numbers.last());
    }
}

/// The next number of an episode is free: no episode of the season has it.
pub proof fn law_next_episode_number_free(t: Tables, entry_id: i64, season: i32, i: int)
    requires
        0 <= i < t.listed_episodes(entry_id).len(),
        t.listed_episodes(entry_id)[i].season == season,
    ensures
        t.listed_episodes(entry_id)[i].episode < t.next_episode_number(entry_id, season),
{
    let listed = t.listed_episodes(entry_id);
    let p = in_season(season);
    crate::rows::lemma_filter_contains(listed, p, i);
    let kept = listed.filter(p);
    let k = choose|k: int| 0 <= k < kept.len() && kept[k] == listed[i];
    assert(t.episode_numbers(entry_id, season)[k] == listed[i].episode);
    law_number_after(t.episode_numbers(entry_id, season));
}

fn larger(so_far: Option<i32>, n: i32) -> (res: Option<i32>)
    ensures
        res == (match so_far {
            Some(m) => if m >= n {
                Some(m)
            } else {
                Some(n)
            },
            None => Some(n),
        }),
{
    match so_far {
        Some(m) => if m >= n {
            Some(m)
        } else {
            Some(n)
        },
        None => Some(n),
    }
}

fn largest_episode(episodes: &Vec<Episode>, season: i32) -> (res: Option<i32>)
    ensures
        res == largest(
            episode_views(episodes@).filter(in_season(season)).map_values(
                |e: EpisodeView| e.episode,
            ),
        ),
{
    let ghost all = episode_views(episodes@);
    let ghost p = in_season(season);
    let ghost f = |e: EpisodeView| e.episode;
    let mut res: Option<i32> = None;
    let mut i: usize = 0;
    proof {
        reveal(Seq::filter);
        assert(all.take(0).filter(p).map_values(f) == Seq::<i32>::empty());
    }
    while i < episodes.len()
        invariant
            i <= episodes@.len(),
            all == episode_views(episodes@),
            p == in_season(season),
            f == (|e: EpisodeView| e.episode),
            res == largest(all.take(i as int).filter(p).map_values(f)),
        decreases episodes@.len() - i,
    {
        proof {
            reveal(Seq::filter);
            let before = all.take(i as int).filter(p);
            let e = episodes@[i as int]@;
            assert(all.take(i + 1).drop_last() == all.take(i as int));
            assert(all.take(i + 1).last() == e);
            assert(before.push(e).map_values(f) == before.map_values(f).push(e.episode));
            assert(before.map_values(f).push(e.episode).drop_last() == before.map_values(f));
        }
        if episodes[i].season == season {
            res = larger(res, episodes[i].episode);
        }
        i += 1;
    }
    assert(all.take(all.len() as int) == all);
    res
}

fn largest_season(episodes: &Vec<Episode>) -> (res: Option<i32>)
    ensures
        res == largest(episode_views(episodes@).map_values(|e: EpisodeView| e.season)),
{
    let ghost all = episode_views(episodes@);
    let ghost f = |e: EpisodeView| e.season;
    let mut res: Option<i32> = None;
    let mut i: usize = 0;
    assert(all.take(0).map_values(f) == Seq::<i32>::empty());
    while i < episodes.len()
        invariant
            i <= episodes@.len(),
            all == episode_views(episodes@),
            f == (|e: EpisodeView| e.season),
            res == largest(all.take(i as int).map_values(f)),
        decreases episodes@.len() - i,
    {
        proof {
            let before = all.take(i as int).map_values(f);
            assert(all.take(i + 1).map_values(f) == before.push(episodes@[i as int].season));
            assert(before.push(episodes@[i as int].season).drop_last() == before);
        }
        res = larger(res, episodes[i].season);
        i += 1;
    }
    assert(all.take(all.len() as int) == all);
    res
}

// ---------------------------------------------------------------------
// One more episode
// ---------------------------------------------------------------------

impl AppView {
    /// There is a number left for the next episode of a season.
    pub open spec fn episode_number_left(self, season: i32) -> bool {
        match self.selected.series() {
            Some(id) => self.library.tables.next_episode_number(id, season) <= i32::MAX,
            None => true,
        }
    }

    /// There is a number left for the next season.
    pub open spec fn season_number_left(self) -> bool {
        match self.selected.series() {
            Some(id) => self.library.tables.next_season_number(id) <= i32::MAX,
            None => true,
        }
    }

    /// A season that can be probed again has a number left for its next episode.
    pub open spec fn reprobe_fits(self, season: i32) -> bool {
        match self.selected.series() {
            Some(id) => self.library.tables.pattern(id, season) is Some
                ==> self.episode_number_left(season),
            None => true,
        }
    }

    /// The state with the form for an episode of the open series open.
    pub open spec fn open_add_episode_dialog(self, season: i32) -> AppView {
        match self.selected.series() {
            Some(id) => AppView {
                episode_form: EpisodeFormView {
                    season: decimal(season as int),
                    number: decimal(self.library.tables.next_episode_number(id, season)),
                    title: Seq::empty(),
                    description: Seq::empty(),
                    link: Seq::empty(),
                    open: true,
                },
                status: Seq::empty(),
                ..self
            },
            None => self,
        }
    }

    pub open spec fn episode_dialog_closed(self) -> AppView {
        AppView { episode_form: EpisodeFormView { open: false, ..self.episode_form }, ..self }
    }

    /// The title that the form gives the episode.
    pub open spec fn typed_episode_title(self) -> Seq<char> {
        if blank(self.episode_form.title) {
            "Episode "@ + decimal(i32_or(self.episode_form.number, 1) as int)
        } else {
            self.episode_form.title
        }
    }

    /// What submitting the form for an episode does: the episode is added and
    /// selected.
    pub open spec fn submit_add_episode(self) -> AppView {
        let form = self.episode_form;
        match self.selected.series() {
            Some(entry_id) => if blank(form.link) {
                self.with_status("Provide a file path or URL for the episode."@)
            } else {
                match self.library.episode_refused(entry_id) {
                    Some(e) => self.with_status("Failed to add episode: "@ + error_text(e)),
                    None => {
                        let id = self.library.next_episode_id()->0;
                        self.with_library(
                            self.library.insert_episode(
                                id,
                                entry_id,
                                i32_or(form.season, 1),
                                i32_or(form.number, 1),
                                self.typed_episode_title(),
                                form.description,
                                form.link,
                            ),
                        ).episode_dialog_closed().select_entry(entry_id).select_episode(id)
                    },
                }
            },
            None => self,
        }
    }
}

impl AppState {
    /// Whether there is a number left for the next episode of a season of the
    /// open series.
    pub fn episode_number_left(&self, season: i32) -> (res: bool)
        ensures
            res == self@.episode_number_left(season),
    {
        match self.selected.open_series() {
            Some(id) => {
                let episodes = list_episodes(&self.library, id);
                match largest_episode(&episodes, season) {
                    Some(m) => m < i32::MAX,
                    None => true,
                }
            },
            None => true,
        }
    }

    /// Opens the dialog that adds an episode, with the next number of the
    /// season filled in.
    pub fn open_add_episode_dialog(&mut self, season: i32)
        requires
            old(self).wf(),
            old(self)@.episode_number_left(season),
        ensures
            final(self).wf(),
            final(self)@ == old(self)@.open_add_episode_dialog(season),
    {
        match self.selected.open_series() {
            Some(id) => {
                let episodes = list_episodes(&self.library, id);
                let next: i32 = match largest_episode(&episodes, season) {
                    Some(m) => m + 1,
                    None => 1,
                };
                self.episode_form = EpisodeForm {
                    season: number_text(season as i64),
                    number: number_text(next as i64),
                    title: String::new(),
                    description: String::new(),
                    link: String::new(),
                    open: true,
                };
                self.status = String::new();
            },
            None => {},
        }
    }

    pub fn close_add_episode_dialog(&mut self)
        ensures
            final(self)@ == old(self)@.episode_dialog_closed(),
    {
        self.episode_form.open = false;
    }

    /// Submits the dialog that adds an episode.
    pub fn submit_add_episode(&mut self)
        requires
            old(self).wf(),
        ensures
            final(self).wf(),
            final(self)@ == old(self)@.submit_add_episode(),
    {
        let entry_id: i64 = match self.selected.open_series() {
            Some(id) => id,
            None => {
                return;
            },
        };
        if is_blank(self.episode_form.link.as_str()) {
            self.set_status("Provide a file path or URL for the episode.");
            return;
        }
        let season: i32 = read_i32(self.episode_form.season.as_str(), 1);
        let episode: i32 = read_i32(self.episode_form.number.as_str(), 1);
        let title: String = if is_blank(self.episode_form.title.as_str()) {
            concat2("Episode ", number_text(episode as i64).as_str())
        } else {
            self.episode_form.title.clone()
        };
        match insert_episode(
            &mut self.library,
            entry_id,
            season,
            episode,
            title.as_str(),
            self.episode_form.description.as_str(),
            self.episode_form.link.as_str(),
        ) {
            Ok(id) => {
                self.episode_form.open = false;
                self.select_entry(entry_id);
                self.select_episode(id);
            },
            Err(e) => {
                let status = concat2("Failed to add episode: ", e.message().as_str());
                self.set_status(status.as_str());
            },
        }
    }
}

// ---------------------------------------------------------------------
// One more season
// ---------------------------------------------------------------------

/// A season to probe for.
pub struct SeasonJob {
    pub entry_id: i64,
    pub season: i32,
    pub season_width: usize,
    pub pattern: String,
    pub ep_start: i32,
    pub ep_width: usize,
}

#[verifier::ext_equal]
pub struct SeasonJobView {
    pub entry_id: i64,
    pub season: i32,
    pub season_width: usize,
    pub pattern: Seq<char>,
    pub ep_start: i32,
    pub ep_width: usize,
}

impl View for SeasonJob {
    type V = SeasonJobView;

    open spec fn view(&self) -> SeasonJobView {
        SeasonJobView {
            entry_id: self.entry_id,
            season: self.season,
            season_width: self.season_width,
            pattern: self.pattern@,
            ep_start: self.ep_start,
            ep_width: self.ep_width,
        }
    }
}

pub open spec fn job_view(job: Option<SeasonJob>) -> Option<SeasonJobView> {
    match job {
        Some(j) => Some(j@),
        None => None,
    }
}

impl AppView {
    /// The state with the form for a season of the open series open.
    pub open spec fn open_add_season_dialog(self) -> AppView {
        match self.selected.series() {
            Some(id) => AppView {
                season_form: SeasonFormView {
                    number: decimal(self.library.tables.next_season_number(id)),
                    width: "2"@,
                    pattern: Seq::empty(),
                    ep_start: "1"@,
                    ep_width: "2"@,
                    in_progress: false,
                    open: true,
                },
                status: Seq::empty(),
                ..self
            },
            None => self,
        }
    }

    pub open spec fn season_dialog_closed(self) -> AppView {
        AppView { season_form: SeasonFormView { open: false, ..self.season_form }, ..self }
    }

    pub open spec fn adding_season(self, in_progress: bool) -> AppView {
        AppView { season_form: SeasonFormView { in_progress, ..self.season_form }, ..self }
    }

    /// What submitting the form for a season does: the season is probed for.
    pub open spec fn submit_add_season(self) -> (AppView, Option<SeasonJobView>) {
        let form = self.season_form;
        match self.selected.series() {
            Some(entry_id) => if usable_pattern(form.pattern) {
                (
                    self.with_status(
                        "Probing for episodes... this may take a while."@,
                    ).adding_season(true),
                    Some(
                        SeasonJobView {
                            entry_id,
                            season: i32_or(form.number, 1),
                            season_width: usize_or(form.width, 2),
                            pattern: form.pattern,
                            ep_start: i32_or(form.ep_start, 1),
                            ep_width: usize_or(form.ep_width, 2),
                        },
                    ),
                )
            } else {
                (
                    self.with_status(
                        "Provide a link pattern containing '*' for the episode number."@,
                    ),
                    None,
                )
            },
            None => (self, None),
        }
    }

    /// What the end of the probe for a season does: what was found is added,
    /// and the series opened.
    pub open spec fn finish_add_season(
        self,
        job: SeasonJobView,
        found: Result<Seq<FoundView>, ProbeError>,
    ) -> AppView {
        match found {
            Ok(rows) => self.with_library(
                self.library.with_all_found(job.entry_id, rows).set_season_pattern(
                    job.entry_id,
                    job.season,
                    job.pattern,
                    job.season_width as i32,
                    job.ep_width as i32,
                ),
            ).season_dialog_closed().adding_season(false).with_status(
                "Added season "@ + decimal(job.season as int) + " with "@ + decimal(
                    rows.len() as int,
                ) + " episode(s)."@,
            ).select_entry(job.entry_id),
            Err(e) => self.with_status("Error: "@ + probe_error_text(e)).adding_season(false),
        }
    }

    /// What asking for new episodes of a season does: they are probed for after
    /// the last one, with the pattern that the season was found with.
    pub open spec fn request_reprobe_season(self, season: i32) -> (AppView, Option<SeasonJobView>) {
        match self.selected.series() {
            Some(entry_id) => match self.library.tables.pattern(entry_id, season) {
                Some(kept) => (
                    self.with_status(
                        "Re-probing season "@ + decimal(season as int) + " for new episodes..."@,
                    ),
                    Some(
                        SeasonJobView {
                            entry_id,
                            season,
                            season_width: kept.season_width as usize,
                            pattern: kept.pattern,
                            ep_start: self.library.tables.next_episode_number(
                                entry_id,
                                season,
                            ) as i32,
                            ep_width: kept.ep_width as usize,
                        },
                    ),
                ),
                None => (
                    self.with_status(
                        "No saved link pattern for season "@ + decimal(season as int)
                            + " - can't re-probe. Add episodes manually, or delete and re-add this season with a pattern."@,
                    ),
                    None,
                ),
            },
            None => (self, None),
        }
    }

    /// What the end of the probe for new episodes does: what was found is
    /// added, and the series opened.
    pub open spec fn finish_reprobe(
        self,
        job: SeasonJobView,
        found: Result<Seq<FoundView>, ProbeError>,
    ) -> AppView {
        match found {
            Ok(rows) => self.with_library(
                self.library.with_all_found(job.entry_id, rows),
            ).with_status(
                "Found "@ + decimal(rows.len() as int) + " new episode(s) in season "@ + decimal(
                    job.season as int,
                ) + "."@,
            ).select_entry(job.entry_id),
            Err(_) => self.with_status("No new episodes found."@),
        }
    }
}

impl AppState {
    /// Whether there is a number left for the next season of the open series.
    pub fn season_number_left(&self) -> (res: bool)
        ensures
            res == self@.season_number_left(),
    {
        match self.selected.open_series() {
            Some(id) => {
                let episodes = list_episodes(&self.library, id);
                match largest_season(&episodes) {
                    Some(m) => m < i32::MAX,
                    None => true,
                }
            },
            None => true,
        }
    }

    /// Opens the dialog that adds a season, with the next number filled in.
    pub fn open_add_season_dialog(&mut self)
        requires
            old(self).wf(),
            old(self)@.season_number_left(),
        ensures
            final(self).wf(),
            final(self)@ == old(self)@.open_add_season_dialog(),
    {
        match self.selected.open_series() {
            Some(id) => {
                let episodes = list_episodes(&self.library, id);
                let next: i32 = match largest_season(&episodes) {
                    Some(m) => m + 1,
                    None => 1,
                };
                self.season_form = SeasonForm {
                    number: number_text(next as i64),
                    width: "2".to_owned(),
                    pattern: String::new(),
                    ep_start: "1".to_owned(),
                    ep_width: "2".to_owned(),
                    in_progress: false,
                    open: true,
                };
                self.status = String::new();
            },
            None => {},
        }
    }

    pub fn close_add_season_dialog(&mut self)
        ensures
            final(self)@ == old(self)@.season_dialog_closed(),
    {
        self.season_form.open = false;
    }

    /// Submits the dialog that adds a season.
    pub fn submit_add_season(&mut self) -> (res: Option<SeasonJob>)
        requires
            old(self).wf(),
        ensures
            final(self).wf(),
            (final(self)@, job_view(res)) == old(self)@.submit_add_season(),
    {
        let entry_id: i64 = match self.selected.open_series() {
            Some(id) => id,
            None => {
                return None;
            },
        };
        if !is_usable_pattern(self.season_form.pattern.as_str()) {
            self.set_status("Provide a link pattern containing '*' for the episode number.");
            return None;
        }
        let job = SeasonJob {
            entry_id,
            season: read_i32(self.season_form.number.as_str(), 1),
            season_width: read_usize(self.season_form.width.as_str(), 2),
            pattern: self.season_form.pattern.clone(),
            ep_start: read_i32(self.season_form.ep_start.as_str(), 1),
            ep_width: read_usize(self.season_form.ep_width.as_str(), 2),
        };
        self.set_status("Probing for episodes... this may take a while.");
        self.season_form.in_progress = true;
        Some(job)
    }

    /// Adds a season with what the probe for it found.
    pub fn finish_add_season(
        &mut self,
        job: &SeasonJob,
        found: Result<Vec<FoundEpisode>, ProbeError>,
    )
        requires
            old(self).wf(),
        ensures
            final(self).wf(),
            final(self)@ == old(self)@.finish_add_season(job@, outcome(found)),
    {
        match found {
            Ok(rows) => {
                store_found(&mut self.library, job.entry_id, &rows);
                set_season_pattern(
                    &mut self.library,
                    job.entry_id,
                    job.season,
                    job.pattern.as_str(),
                    #[verifier::truncate]
                    (job.season_width as i32),
                    #[verifier::truncate]
                    (job.ep_width as i32),
                );
                self.season_form.open = false;
                self.season_form.in_progress = false;
                let status = concat5(
                    "Added season ",
                    number_text(job.season as i64).as_str(),
                    " with ",
                    count_text(rows.len()).as_str(),
                    " episode(s).",
                );
                self.set_status(status.as_str());
                self.select_entry(job.entry_id);
            },
            Err(e) => {
                let status = concat2("Error: ", e.message().as_str());
                self.set_status(status.as_str());
                self.season_form.in_progress = false;
            },
        }
    }

    /// Whether, where a season can be probed again, there is a number left for
    /// its next episode.
    pub fn reprobe_fits(&self, season: i32) -> (res: bool)
        requires
            self.wf(),
        ensures
            res == self@.reprobe_fits(season),
    {
        match self.selected.open_series() {
            Some(id) => match get_season_pattern(&self.library, id, season) {
                Some(_) => self.episode_number_left(season),
                None => true,
            },
            None => true,
        }
    }

    /// Asks for new episodes of a season of the open series.
    pub fn request_reprobe_season(&mut self, season: i32) -> (res: Option<SeasonJob>)
        requires
            old(self).wf(),
            old(self)@.reprobe_fits(season),
        ensures
            final(self).wf(),
            (final(self)@, job_view(res)) == old(self)@.request_reprobe_season(season),
    {
        let entry_id: i64 = match self.selected.open_series() {
            Some(id) => id,
            None => {
                return None;
            },
        };
        let episodes = list_episodes(&self.library, entry_id);
        match get_season_pattern(&self.library, entry_id, season) {
            Some((pattern, season_width, ep_width)) => {
                let next: i32 = match largest_episode(&episodes, season) {
                    Some(m) => m + 1,
                    None => 1,
                };
                let status = concat3(
                    "Re-probing season ",
                    number_text(season as i64).as_str(),
                    " for new episodes...",
                );
                self.set_status(status.as_str());
                Some(
                    SeasonJob {
                        entry_id,
                        season,
                        season_width: #[verifier::truncate]
                        (season_width as usize),
                        pattern,
                        ep_start: next,
                        ep_width: #[verifier::truncate]
                        (ep_width as usize),
                    },
                )
            },
            None => {
                let status = concat3(
                    "No saved link pattern for season ",
                    number_text(season as i64).as_str(),
                    " - can't re-probe. Add episodes manually, or delete and re-add this season with a pattern.",
                );
                self.set_status(status.as_str());
                None
            },
        }
    }

    /// Adds the new episodes that a probe found.
    pub fn finish_reprobe(&mut self, job: &SeasonJob, found: Result<Vec<FoundEpisode>, ProbeError>)
        requires
            old(self).wf(),
        ensures
            final(self).wf(),
            final(self)@ == old(self)@.finish_reprobe(job@, outcome(found)),
    {
        match found {
            Ok(rows) => {
                store_found(&mut self.library, job.entry_id, &rows);
                let found_text = concat3(
                    "Found ",
                    count_text(rows.len()).as_str(),
                    " new episode(s) in season ",
                );
                let status = concat3(
                    found_text.as_str(),
                    number_text(job.season as i64).as_str(),
                    ".",
                );
                self.set_status(status.as_str());
                self.select_entry(job.entry_id);
            },
            Err(_) => self.set_status("No new episodes found."),
        }
    }
}

} // verus!
