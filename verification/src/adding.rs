//! Adding movies and series.
//!
//! A series is found by probing its link pattern. The functions here hand out
//! what to probe for, and take in what the probe found.

use vstd::prelude::*;

use crate::db::{error_text, insert_entry, insert_episode, set_season_pattern, DbError};
use crate::models::{code_text, episode_code, EntryKind};
use crate::pattern::{found_views, probe_error_text, FoundEpisode, FoundView, ProbeError};
use crate::screen::{AddForm, AddFormView};
use crate::state::{AppState, AppView};
use crate::tables::{Library, LibraryView};
use crate::text::{
    blank, concat2, concat3, count_text, decimal, has_char, is_blank, number_in, number_text,
    parse_i32, parse_usize, same_text, trim, trimmed,
};

verus! {

broadcast use vstd::string::group_string_axioms;

// ---------------------------------------------------------------------
// Numbers that were typed in
// ---------------------------------------------------------------------

/// The number that was typed in, or another one where it is none.
pub open spec fn i32_or(s: Seq<char>, otherwise: i32) -> i32 {
    match number_in(trimmed(s), true, i32::MIN as int, i32::MAX as int) {
        Some(n) => n as i32,
        None => otherwise,
    }
}

/// The number that was typed in, or another one where it is none.
pub open spec fn usize_or(s: Seq<char>, otherwise: usize) -> usize {
    match number_in(trimmed(s), false, 0, usize::MAX as int) {
        Some(n) => n as usize,
        None => otherwise,
    }
}

pub(crate) fn read_i32(s: &str, otherwise: i32) -> (res: i32)
    ensures
        res == i32_or(s@, otherwise),
{
    match parse_i32(trim(s).as_str()) {
        Some(n) => n,
        None => otherwise,
    }
}

pub(crate) fn read_usize(s: &str, otherwise: usize) -> (res: usize)
    ensures
        res == usize_or(s@, otherwise),
{
    match parse_usize(trim(s).as_str()) {
        Some(n) => n,
        None => otherwise,
    }
}

/// A pattern that can be probed: it has a place for the episode number.
pub open spec fn usable_pattern(pattern: Seq<char>) -> bool {
    !blank(pattern) && pattern.contains('*')
}

pub(crate) fn is_usable_pattern(pattern: &str) -> (res: bool)
    ensures
        res == usable_pattern(pattern@),
{
    !is_blank(pattern) && has_char(pattern, '*')
}

// ---------------------------------------------------------------------
// Storing what a probe found
// ---------------------------------------------------------------------

/// The title of an episode that was found.
pub open spec fn found_title(episode: int) -> Seq<char> {
    "Episode "@ + decimal(episode)
}

impl LibraryView {
    /// The library with one more episode, unless that is turned down.
    pub open spec fn with_found(self, entry_id: i64, row: FoundView) -> LibraryView {
        if self.episode_refused(entry_id) is None {
            self.insert_episode(
                self.next_episode_id()->0,
                entry_id,
                row.season as i32,
                row.episode as i32,
                found_title(row.episode),
                Seq::empty(),
                row.link,
            )
        } else {
            self
        }
    }

    /// The library with all episodes that were found.
    pub open spec fn with_all_found(self, entry_id: i64, rows: Seq<FoundView>) -> LibraryView
        decreases rows.len(),
    {
        if rows.len() == 0 {
            self
        } else {
            self.with_all_found(entry_id, rows.drop_last()).with_found(entry_id, rows.last())
        }
    }

    /// The library with a pattern for each season that was found.
    pub open spec fn with_patterns(
        self,
        entry_id: i64,
        rows: Seq<FoundView>,
        pattern: Seq<char>,
        season_width: i32,
        ep_width: i32,
    ) -> LibraryView
        decreases rows.len(),
    {
        if rows.len() == 0 {
            self
        } else {
            let before = self.with_patterns(
                entry_id,
                rows.drop_last(),
                pattern,
                season_width,
                ep_width,
            );
            if rows.len() > 1 && rows[rows.len() - 2].season == rows.last().season {
                before
            } else {
                before.set_season_pattern(
                    entry_id,
                    rows.last().season as i32,
                    pattern,
                    season_width,
                    ep_width,
                )
            }
        }
    }
}

pub(crate) fn store_found(library: &mut Library, entry_id: i64, rows: &Vec<FoundEpisode>)
    requires
        old(library).wf(),
    ensures
        final(library).wf(),
        final(library)@ == old(library)@.with_all_found(entry_id, found_views(rows@)),
{
    let ghost all = found_views(rows@);
    let ghost start = library@;
    let mut i: usize = 0;
    while i < rows.len()
        invariant
            i <= rows@.len(),
            library.wf(),
            all == found_views(rows@),
            library@ == start.with_all_found(entry_id, all.take(i as int)),
        decreases rows@.len() - i,
    {
        let row = &rows[i];
        proof {
            assert(all.take(i + 1).drop_last() == all.take(i as int));
            assert(all.take(i + 1).last() == row@);
        }
        let title = concat2("Episode ", number_text(row.episode as i64).as_str());
        proof {
            reveal_strlit("");
            assert(""@ == Seq::<char>::empty());
        }
        let stored = insert_episode(
            library,
            entry_id,
            row.season,
            row.episode,
            title.as_str(),
            "",
            row.link.as_str(),
        );
        i += 1;
    }
    assert(all.take(all.len() as int) == all);
}

fn store_patterns(
    library: &mut Library,
    entry_id: i64,
    rows: &Vec<FoundEpisode>,
    pattern: &str,
    season_width: i32,
    ep_width: i32,
)
    requires
        old(library).wf(),
    ensures
        final(library).wf(),
        final(library)@ == old(library)@.with_patterns(
            entry_id,
            found_views(rows@),
            pattern@,
            season_width,
            ep_width,
        ),
{
    let ghost all = found_views(rows@);
    let ghost start = library@;
    let mut i: usize = 0;
    while i < rows.len()
        invariant
            i <= rows@.len(),
            library.wf(),
            all == found_views(rows@),
            library@ == start.with_patterns(
                entry_id,
                all.take(i as int),
                pattern@,
                season_width,
                ep_width,
            ),
        decreases rows@.len() - i,
    {
        proof {
            assert(all.take(i + 1).drop_last() == all.take(i as int));
            assert(all.take(i + 1).last() == rows@[i as int]@);
            if i > 0 {
                assert(all.take(i + 1)[i - 1] == rows@[i - 1]@);
            }
        }
        if i == 0 || rows[i - 1].season != rows[i].season {
            set_season_pattern(library, entry_id, rows[i].season, pattern, season_width, ep_width);
        }
        i += 1;
    }
    assert(all.take(all.len() as int) == all);
}

/// What a probe gave.
pub open spec fn outcome(found: Result<Vec<FoundEpisode>, ProbeError>) -> Result<
    Seq<FoundView>,
    ProbeError,
> {
    match found {
        Ok(rows) => Ok(found_views(rows@)),
        Err(e) => Err(e),
    }
}

// ---------------------------------------------------------------------
// A new movie or series
// ---------------------------------------------------------------------

/// A series to probe for.
pub struct SeriesJob {
    pub title: String,
    pub description: String,
    pub pattern: String,
    pub season_start: i32,
    pub season_width: usize,
    pub ep_start: i32,
    pub ep_width: usize,
    pub poster_source: String,
}

#[verifier::ext_equal]
pub struct SeriesJobView {
    pub title: Seq<char>,
    pub description: Seq<char>,
    pub pattern: Seq<char>,
    pub season_start: i32,
    pub season_width: usize,
    pub ep_start: i32,
    pub ep_width: usize,
    pub poster_source: Seq<char>,
}

impl View for SeriesJob {
    type V = SeriesJobView;

    open spec fn view(&self) -> SeriesJobView {
        SeriesJobView {
            title: self.title@,
            description: self.description@,
            pattern: self.pattern@,
            season_start: self.season_start,
            season_width: self.season_width,
            ep_start: self.ep_start,
            ep_width: self.ep_width,
            poster_source: self.poster_source@,
        }
    }
}

/// What is left to do after a form was submitted.
pub enum AddStep {
    Nothing,
    /// Make the posters of an entry from a picture.
    SavePoster { entry_id: i64, source: String },
    /// Probe for a series.
    Probe(SeriesJob),
}

#[verifier::ext_equal]
pub enum AddStepView {
    Nothing,
    SavePoster { entry_id: i64, source: Seq<char> },
    Probe(SeriesJobView),
}

impl View for AddStep {
    type V = AddStepView;

    open spec fn view(&self) -> AddStepView {
        match self {
            AddStep::Nothing => AddStepView::Nothing,
            AddStep::SavePoster { entry_id, source } => AddStepView::SavePoster {
                entry_id: *entry_id,
                source: source@,
            },
            AddStep::Probe(job) => AddStepView::Probe(job@),
        }
    }
}

/// The posters of an entry are made where a picture was chosen.
pub open spec fn poster_step(entry_id: i64, source: Seq<char>) -> AddStepView {
    if blank(source) {
        AddStepView::Nothing
    } else {
        AddStepView::SavePoster { entry_id, source }
    }
}

pub(crate) fn save_poster_step(entry_id: i64, source: &str) -> (res: AddStep)
    ensures
        res@ == poster_step(entry_id, source@),
{
    if is_blank(source) {
        AddStep::Nothing
    } else {
        AddStep::SavePoster { entry_id, source: source.to_owned() }
    }
}

impl AppView {
    /// The state with an empty form open.
    pub open spec fn open_add_dialog(self) -> AppView {
        AppView {
            add_form: AddFormView {
                title: Seq::empty(),
                description: Seq::empty(),
                link: Seq::empty(),
                poster_path: Seq::empty(),
                kind: "movie"@,
                pattern_link: Seq::empty(),
                pattern_season_start: "1"@,
                pattern_season_width: "2"@,
                pattern_start: "1"@,
                pattern_episode_width: "2"@,
                in_progress: false,
                open: true,
            },
            status: Seq::empty(),
            ..self
        }
    }

    pub open spec fn add_dialog_closed(self) -> AppView {
        AppView { add_form: AddFormView { open: false, ..self.add_form }, ..self }
    }

    pub open spec fn adding(self, in_progress: bool) -> AppView {
        AppView { add_form: AddFormView { in_progress, ..self.add_form }, ..self }
    }

    /// The series that the form describes.
    pub open spec fn series_job(self) -> SeriesJobView {
        SeriesJobView {
            title: self.add_form.title,
            description: self.add_form.description,
            pattern: self.add_form.pattern_link,
            season_start: i32_or(self.add_form.pattern_season_start, 1),
            season_width: usize_or(self.add_form.pattern_season_width, 2),
            ep_start: i32_or(self.add_form.pattern_start, 1),
            ep_width: usize_or(self.add_form.pattern_episode_width, 2),
            poster_source: self.add_form.poster_path,
        }
    }

    /// What submitting the form does: a movie is added at once, a series is
    /// first probed for.
    pub open spec fn submit_add(self) -> (AppView, AddStepView) {
        let form = self.add_form;
        if blank(form.title) {
            (self.with_status("Title is required."@), AddStepView::Nothing)
        } else if form.kind == "movie"@ {
            if blank(form.link) {
                (self.with_status("Provide a file path or URL."@), AddStepView::Nothing)
            } else {
                match self.library.next_entry_id() {
                    Some(id) => (
                        self.with_library(
                            self.library.insert_entry(
                                id,
                                form.title,
                                EntryKind::Movie,
                                form.description,
                                form.link,
                            ),
                        ).refresh_sidebar().add_dialog_closed(),
                        poster_step(id, form.poster_path),
                    ),
                    None => (
                        self.with_status("Failed to save: "@ + error_text(DbError::Full)),
                        AddStepView::Nothing,
                    ),
                }
            }
        } else if usable_pattern(form.pattern_link) {
            (
                self.with_status("Probing for episodes... this may take a while."@).adding(true),
                AddStepView::Probe(self.series_job()),
            )
        } else {
            (
                self.with_status(
                    "Provide a link pattern containing '*' for the episode number."@,
                ),
                AddStepView::Nothing,
            )
        }
    }

    /// What the end of the probe for a series does: the series is added with
    /// what was found, and opened.
    pub open spec fn finish_add(
        self,
        job: SeriesJobView,
        found: Result<Seq<FoundView>, ProbeError>,
    ) -> (AppView, AddStepView) {
        match found {
            Ok(rows) => match self.library.next_entry_id() {
                Some(id) => {
                    let library = self.library.insert_entry(
                        id,
                        job.title,
                        EntryKind::Series,
                        job.description,
                        Seq::empty(),
                    ).with_all_found(id, rows).with_patterns(
                        id,
                        rows,
                        job.pattern,
                        job.season_width as i32,
                        job.ep_width as i32,
                    );
                    (
                        self.with_library(library).refresh_sidebar().add_dialog_closed().adding(
                            false,
                        ).with_status(
                            "Added series with "@ + decimal(rows.len() as int)
                                + " episode(s) found automatically."@,
                        ).select_entry(id),
                        poster_step(id, job.poster_source),
                    )
                },
                None => (
                    self.with_status("Failed to save series: "@ + error_text(DbError::Full)).adding(
                        false,
                    ),
                    AddStepView::Nothing,
                ),
            },
            Err(e) => (
                self.with_status("Error: "@ + probe_error_text(e)).adding(false),
                AddStepView::Nothing,
            ),
        }
    }

    /// The state after a probe found an episode.
    pub open spec fn probe_found(self, season: i32, episode: i32) -> AppView {
        self.with_status("Found "@ + episode_code(season, episode) + ", checking next..."@)
    }
}

impl AppState {
    /// Opens the dialog that adds a movie or a series.
    pub fn open_add_dialog(&mut self)
        ensures
            final(self)@ == old(self)@.open_add_dialog(),
    {
        self.add_form = AddForm {
            title: String::new(),
            description: String::new(),
            link: String::new(),
            poster_path: String::new(),
            kind: "movie".to_owned(),
            pattern_link: String::new(),
            pattern_season_start: "1".to_owned(),
            pattern_season_width: "2".to_owned(),
            pattern_start: "1".to_owned(),
            pattern_episode_width: "2".to_owned(),
            in_progress: false,
            open: true,
        };
        self.status = String::new();
    }

    pub fn close_add_dialog(&mut self)
        ensures
            final(self)@ == old(self)@.add_dialog_closed(),
    {
        self.add_form.open = false;
    }

    fn add_movie(&mut self) -> (res: AddStep)
        requires
            old(self).wf(),
            !blank(old(self)@.add_form.title),
            !blank(old(self)@.add_form.link),
            old(self)@.add_form.kind == "movie"@,
        ensures
            final(self).wf(),
            (final(self)@, res@) == old(self)@.submit_add(),
    {
        match insert_entry(
            &mut self.library,
            self.add_form.title.as_str(),
            EntryKind::Movie,
            self.add_form.description.as_str(),
            self.add_form.link.as_str(),
        ) {
            Ok(id) => {
                self.refresh_sidebar();
                self.add_form.open = false;
                save_poster_step(id, self.add_form.poster_path.as_str())
            },
            Err(e) => {
                let status = concat2("Failed to save: ", e.message().as_str());
                self.set_status(status.as_str());
                AddStep::Nothing
            },
        }
    }

    /// Submits the dialog that adds a movie or a series.
    pub fn submit_add(&mut self) -> (res: AddStep)
        requires
            old(self).wf(),
        ensures
            final(self).wf(),
            (final(self)@, res@) == old(self)@.submit_add(),
    {
        if is_blank(self.add_form.title.as_str()) {
            self.set_status("Title is required.");
            return AddStep::Nothing;
        }
        if same_text(self.add_form.kind.as_str(), "movie") {
            if is_blank(self.add_form.link.as_str()) {
                self.set_status("Provide a file path or URL.");
                return AddStep::Nothing;
            }
            return self.add_movie();
        }
        if !is_usable_pattern(self.add_form.pattern_link.as_str()) {
            self.set_status("Provide a link pattern containing '*' for the episode number.");
            return AddStep::Nothing;
        }
        let job = SeriesJob {
            title: self.add_form.title.clone(),
            description: self.add_form.description.clone(),
            pattern: self.add_form.pattern_link.clone(),
            season_start: read_i32(self.add_form.pattern_season_start.as_str(), 1),
            season_width: read_usize(self.add_form.pattern_season_width.as_str(), 2),
            ep_start: read_i32(self.add_form.pattern_start.as_str(), 1),
            ep_width: read_usize(self.add_form.pattern_episode_width.as_str(), 2),
            poster_source: self.add_form.poster_path.clone(),
        };
        self.set_status("Probing for episodes... this may take a while.");
        self.add_form.in_progress = true;
        AddStep::Probe(job)
    }

    /// Tells that a probe found an episode.
    pub fn probe_found(&mut self, season: i32, episode: i32)
        ensures
            final(self)@ == old(self)@.probe_found(season, episode),
    {
        let status = concat3("Found ", code_text(season, episode).as_str(), ", checking next...");
        self.set_status(status.as_str());
    }

    /// Adds a series with what the probe for it found.
    pub fn finish_add(
        &mut self,
        job: &SeriesJob,
        found: Result<Vec<FoundEpisode>, ProbeError>,
    ) -> (res: AddStep)
        requires
            old(self).wf(),
        ensures
            final(self).wf(),
            (final(self)@, res@) == old(self)@.finish_add(job@, outcome(found)),
    {
        let rows = match found {
            Ok(rows) => rows,
            Err(e) => {
                let status = concat2("Error: ", e.message().as_str());
                self.set_status(status.as_str());
                self.add_form.in_progress = false;
                return AddStep::Nothing;
            },
        };
        proof {
            reveal_strlit("");
            assert(""@ == Seq::<char>::empty());
        }
        match insert_entry(
            &mut self.library,
            job.title.as_str(),
            EntryKind::Series,
            job.description.as_str(),
            "",
        ) {
            Ok(id) => {
                store_found(&mut self.library, id, &rows);
                store_patterns(
                    &mut self.library,
                    id,
                    &rows,
                    job.pattern.as_str(),
                    #[verifier::truncate]
                    (job.season_width as i32),
                    #[verifier::truncate]
                    (job.ep_width as i32),
                );
                self.refresh_sidebar();
                self.add_form.open = false;
                self.add_form.in_progress = false;
                let status = concat3(
                    "Added series with ",
                    count_text(rows.len()).as_str(),
                    " episode(s) found automatically.",
                );
                self.set_status(status.as_str());
                self.select_entry(id);
                save_poster_step(id, job.poster_source.as_str())
            },
            Err(e) => {
                let status = concat2("Failed to save series: ", e.message().as_str());
                self.set_status(status.as_str());
                self.add_form.in_progress = false;
                AddStep::Nothing
            },
        }
    }
}

} // verus!
