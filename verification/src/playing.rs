//! Playing what is open, and taking note of how far it was watched.

use vstd::prelude::*;

use crate::db::{
    current_episode, get_entry, get_episode, get_last_played, get_subtitle_lang, get_vlc_path,
    next_episode, set_last_played, touch_last_watched, LastPlayed,
};
use crate::models::EntryKind;
use crate::playback::{resume_point, watched_through, Playback, PlaybackTarget, PlaybackTargetView};
use crate::state::{AppState, AppView, Selection};
use crate::tables::{text_view, Library, LibraryView, Tables};
use crate::text::{blank, concat2, is_blank};
use crate::vlc::{binary_name, default_binary_name, launch_error, launch_error_text, Status};

verus! {

broadcast use vstd::string::group_string_axioms;

// ---------------------------------------------------------------------
// Which player to run
// ---------------------------------------------------------------------

/// The player to run: the one set in the settings, or else the one that was
/// found, or else the bare name.
pub open spec fn chosen_vlc_path(
    configured: Option<Seq<char>>,
    detected: Option<Seq<char>>,
    windows: bool,
) -> Seq<char> {
    if configured is Some && !blank(configured->0) {
        configured->0
    } else {
        match detected {
            Some(p) => p,
            None => binary_name(windows),
        }
    }
}

/// Whether a player is set in the settings; where none is, it has to be found.
pub fn vlc_path_configured(library: &Library) -> (res: bool)
    ensures
        res == (library@.tables.vlc_path matches Some(p) && !blank(p)),
{
    match get_vlc_path(library) {
        Some(p) => !is_blank(p.as_str()),
        None => false,
    }
}

/// Which player to run.
pub fn resolve_vlc_path(
    library: &Library,
    detected: &Option<String>,
    windows: bool,
) -> (res: String)
    ensures
        res@ == chosen_vlc_path(library@.tables.vlc_path, text_view(*detected), windows),
{
    if let Some(p) = get_vlc_path(library) {
        if !is_blank(p.as_str()) {
            return p;
        }
    }
    match detected {
        Some(p) => p.clone(),
        None => default_binary_name(windows).to_owned(),
    }
}

/// The subtitle language to ask for, or nothing where none is set.
pub open spec fn chosen_subtitle_lang(configured: Option<Seq<char>>) -> Seq<char> {
    match configured {
        Some(lang) => lang,
        None => Seq::empty(),
    }
}

/// Which subtitle language to ask for.
pub fn resolve_subtitle_lang(library: &Library) -> (res: String)
    ensures
        res@ == chosen_subtitle_lang(library@.tables.subtitle_lang),
{
    match get_subtitle_lang(library) {
        Some(lang) => lang,
        None => String::new(),
    }
}

// ---------------------------------------------------------------------
// Playing
// ---------------------------------------------------------------------

/// What to play, from where, with which player and subtitles.
pub struct PlayRequest {
    pub target: PlaybackTarget,
    pub start_seconds: i64,
    pub vlc_path: String,
    pub subtitle_lang: String,
}

#[verifier::ext_equal]
pub struct PlayRequestView {
    pub target: PlaybackTargetView,
    pub start_seconds: i64,
    pub vlc_path: Seq<char>,
    pub subtitle_lang: Seq<char>,
}

impl View for PlayRequest {
    type V = PlayRequestView;

    open spec fn view(&self) -> PlayRequestView {
        PlayRequestView {
            target: self.target@,
            start_seconds: self.start_seconds,
            vlc_path: self.vlc_path@,
            subtitle_lang: self.subtitle_lang@,
        }
    }
}

pub open spec fn request_view(request: Option<PlayRequest>) -> Option<PlayRequestView> {
    match request {
        Some(r) => Some(r@),
        None => None,
    }
}

impl AppView {
    /// What is selected to be played, and where it was left.
    pub open spec fn play_target(self) -> Option<(PlaybackTargetView, i64)> {
        match self.selected {
            Selection::Movie(id) => match self.library.tables.entry(id) {
                Some(e) => Some((PlaybackTargetView::Entry(id, e.link_or_path), e.resume_position)),
                None => None,
            },
            Selection::Series { episode_id: Some(id), .. } => match self.library.tables.episode(id) {
                Some(e) => Some(
                    (PlaybackTargetView::Episode(id, e.link_or_path), e.resume_position),
                ),
                None => None,
            },
            _ => None,
        }
    }

    /// The library with what is selected remembered as played last, and its
    /// entry stamped as watched.
    pub open spec fn marked_played(self, now: i64) -> LibraryView {
        match self.selected {
            Selection::Movie(id) => self.library.set_last_played(
                LastPlayed { kind: EntryKind::Movie, entry_id: id, episode_id: None },
            ).touch_last_watched(id, now),
            Selection::Series { entry_id, episode_id } => self.library.set_last_played(
                LastPlayed { kind: EntryKind::Series, entry_id, episode_id },
            ).touch_last_watched(entry_id, now),
            Selection::Nothing => self.library,
        }
    }

    /// The state after what is selected was asked to be played. What has no
    /// link is not played, and so not remembered as played either.
    pub open spec fn play(self, now: i64) -> AppView {
        match self.play_target() {
            Some((target, _)) => if blank(target.link()) {
                self.with_status("No link/path set for this item."@)
            } else {
                self.with_library(self.marked_played(now)).with_status("Launching VLC..."@)
            },
            None => self,
        }
    }

    /// What to play: what is selected, from the start or from where it was
    /// left. There is nothing to play where nothing is selected or it has no
    /// link.
    pub open spec fn play_request(
        self,
        resume: bool,
        detected: Option<Seq<char>>,
        windows: bool,
    ) -> Option<PlayRequestView> {
        match self.play_target() {
            Some((target, position)) => if blank(target.link()) {
                None
            } else {
                Some(
                    PlayRequestView {
                        target,
                        start_seconds: if resume {
                            position
                        } else {
                            0
                        },
                        vlc_path: chosen_vlc_path(self.library.tables.vlc_path, detected, windows),
                        subtitle_lang: chosen_subtitle_lang(self.library.tables.subtitle_lang),
                    },
                )
            },
            None => None,
        }
    }

    /// The state with what there is to watch of the open entry selected: the
    /// movie, or the episode of the series with which watching goes on.
    pub open spec fn at_current(self) -> Option<AppView> {
        match self.selected.entry() {
            Some(id) => match self.library.tables.entry(id) {
                Some(e) => match e.kind {
                    EntryKind::Movie => Some(self.select_entry(id)),
                    EntryKind::Series => match self.library.tables.current_episode(id) {
                        Some(ep) => Some(self.select_entry(id).select_episode(ep.id)),
                        None => None,
                    },
                },
                None => None,
            },
            None => None,
        }
    }

    /// The state with what was played last selected; for a series, the episode
    /// with which watching goes on.
    pub open spec fn at_last_played(self) -> Option<AppView> {
        match self.library.last_played() {
            Some(lp) => match lp.kind {
                EntryKind::Movie => Some(self.select_entry(lp.entry_id)),
                EntryKind::Series => match self.library.tables.current_episode(lp.entry_id) {
                    Some(ep) => Some(self.select_entry(lp.entry_id).select_episode(ep.id)),
                    None => Some(self.select_entry(lp.entry_id)),
                },
            },
            None => None,
        }
    }
}

impl AppState {
    fn playable(&self) -> (res: Option<(PlaybackTarget, i64)>)
        requires
            self.wf(),
        ensures
            match res {
                Some((target, position)) => self@.play_target() == Some((target@, position)),
                None => self@.play_target() is None,
            },
    {
        match self.selected {
            Selection::Movie(id) => match get_entry(&self.library, id) {
                Ok(e) => Some((PlaybackTarget::Entry(id, e.link_or_path), e.resume_position)),
                Err(_) => None,
            },
            Selection::Series { episode_id: Some(id), .. } => match get_episode(&self.library, id) {
                Ok(e) => Some((PlaybackTarget::Episode(id, e.link_or_path), e.resume_position)),
                Err(_) => None,
            },
            _ => None,
        }
    }

    /// Asks for what is selected to be played, from the start or from where it
    /// was left. `now` is the time as a Unix timestamp, `detected` the player
    /// that was found, needed where none is set in the settings.
    pub fn do_play(
        &mut self,
        resume: bool,
        now: i64,
        detected: &Option<String>,
        windows: bool,
    ) -> (res: Option<PlayRequest>)
        requires
            old(self).wf(),
        ensures
            final(self).wf(),
            final(self)@ == old(self)@.play(now),
            request_view(res) == old(self)@.play_request(resume, text_view(*detected), windows),
    {
        match self.playable() {
            Some((target, position)) => {
                if is_blank(target.link()) {
                    self.set_status("No link/path set for this item.");
                    return None;
                }
                match self.selected {
                    Selection::Movie(id) => {
                        set_last_played(&mut self.library, EntryKind::Movie, id, None);
                        touch_last_watched(&mut self.library, id, now);
                    },
                    Selection::Series { entry_id, episode_id } => {
                        set_last_played(&mut self.library, EntryKind::Series, entry_id, episode_id);
                        touch_last_watched(&mut self.library, entry_id, now);
                    },
                    Selection::Nothing => {},
                }
                let vlc_path = resolve_vlc_path(&self.library, detected, windows);
                let subtitle_lang = resolve_subtitle_lang(&self.library);
                self.set_status("Launching VLC...");
                let start_seconds: i64 = if resume {
                    position
                } else {
                    0
                };
                Some(PlayRequest { target, start_seconds, vlc_path, subtitle_lang })
            },
            None => None,
        }
    }

    /// Resumes the open entry: the movie, or the episode of the series with
    /// which watching goes on.
    pub fn resume_entry(
        &mut self,
        now: i64,
        detected: &Option<String>,
        windows: bool,
    ) -> (res: Option<PlayRequest>)
        requires
            old(self).wf(),
        ensures
            final(self).wf(),
            match old(self)@.at_current() {
                Some(s) => {
                    &&& final(self)@ == s.play(now)
                    &&& request_view(res) == s.play_request(true, text_view(*detected), windows)
                },
                None => final(self)@ == old(self)@ && res is None,
            },
    {
        let id: i64 = match self.selected.open_entry() {
            Some(id) => id,
            None => {
                return None;
            },
        };
        let kind = match get_entry(&self.library, id) {
            Ok(e) => e.kind,
            Err(_) => {
                return None;
            },
        };
        if kind == EntryKind::Movie {
            self.select_entry(id);
            return self.do_play(true, now, detected, windows);
        }
        match current_episode(&self.library, id) {
            Some(ep) => {
                self.select_entry(id);
                self.select_episode(ep.id);
                self.do_play(true, now, detected, windows)
            },
            None => None,
        }
    }

    /// Resumes what was played last.
    pub fn resume_last_played(
        &mut self,
        now: i64,
        detected: &Option<String>,
        windows: bool,
    ) -> (res: Option<PlayRequest>)
        requires
            old(self).wf(),
        ensures
            final(self).wf(),
            match old(self)@.at_last_played() {
                Some(s) => {
                    &&& final(self)@ == s.play(now)
                    &&& request_view(res) == s.play_request(true, text_view(*detected), windows)
                },
                None => final(self)@ == old(self)@ && res is None,
            },
    {
        match get_last_played(&self.library) {
            Some(lp) => {
                self.select_entry(lp.entry_id);
                if lp.kind == EntryKind::Series {
                    if let Some(ep) = current_episode(&self.library, lp.entry_id) {
                        self.select_episode(ep.id);
                    }
                }
                self.do_play(true, now, detected, windows)
            },
            None => None,
        }
    }
}

// ---------------------------------------------------------------------
// While it plays, and after
// ---------------------------------------------------------------------

impl LibraryView {
    /// The library after something was played: how far it was watched is
    /// stored. Where the player was closed before it reported anything, what
    /// was known before is kept.
    pub open spec fn played(self, target: PlaybackTargetView, status: Status) -> LibraryView {
        if status.length_seconds > 0 {
            target.persisted(
                self,
                resume_point(status),
                status.length_seconds,
                watched_through(status),
            )
        } else {
            self
        }
    }
}

impl Tables {
    /// The episode that follows another in its series.
    pub open spec fn following(self, episode_id: i64) -> Option<(i64, i64)> {
        match self.episode(episode_id) {
            Some(e) => match self.next_episode(e.entry_id, e.season, e.episode) {
                Some(next) => Some((e.entry_id, next.id)),
                None => None,
            },
            None => None,
        }
    }
}

impl AppView {
    /// The state with the detail pane drawn anew.
    pub open spec fn refresh_detail(self) -> AppView {
        match self.selected {
            Selection::Movie(id) => self.select_entry(id),
            Selection::Series { entry_id, episode_id: Some(id) } => self.select_entry(
                entry_id,
            ).select_episode(id),
            Selection::Series { entry_id, episode_id: None } => self.select_entry(entry_id),
            Selection::Nothing => self,
        }
    }

    /// The state with the episode after a finished one selected and remembered
    /// as what was played last.
    pub open spec fn advanced(self, target: PlaybackTargetView) -> AppView {
        match target {
            PlaybackTargetView::Episode(id, _) => match self.library.tables.following(id) {
                Some((entry_id, next)) => AppView {
                    selected: Selection::Series { entry_id, episode_id: Some(next) },
                    library: self.library.set_last_played(
                        LastPlayed { kind: EntryKind::Series, entry_id, episode_id: Some(next) },
                    ),
                    ..self
                },
                None => self,
            },
            PlaybackTargetView::Entry(_, _) => self,
        }
    }

    /// The state after the player was closed.
    pub open spec fn playback_ended(self, target: PlaybackTargetView, status: Status) -> AppView {
        let stored = self.with_library(self.library.played(target, status));
        let moved = if watched_through(status) {
            stored.advanced(target).with_status("Finished. Moved to the next episode."@)
        } else {
            stored.with_status("Stopped. Progress saved."@)
        };
        moved.refresh_detail().refresh_last_played()
    }
}

impl AppState {
    /// Tells that the player could not be started.
    pub fn playback_failed(&mut self, binary: &str, cause: &str)
        ensures
            final(self)@ == old(self)@.with_status(
                "Failed to launch VLC: "@ + launch_error_text(binary@, cause@),
            ),
    {
        let message = launch_error(binary, cause);
        let status = concat2("Failed to launch VLC: ", message.as_str());
        self.set_status(status.as_str());
    }

    /// Tells that the player was started.
    pub fn playback_started(&mut self)
        ensures
            final(self)@ == old(self)@.with_status("Playing in VLC..."@),
    {
        self.set_status("Playing in VLC...");
    }

    /// Draws the detail pane anew.
    pub fn refresh_detail(&mut self)
        requires
            old(self).wf(),
        ensures
            final(self).wf(),
            final(self)@ == old(self)@.refresh_detail(),
    {
        match self.selected {
            Selection::Movie(id) => self.select_entry(id),
            Selection::Series { entry_id, episode_id: Some(id) } => {
                self.select_entry(entry_id);
                self.select_episode(id);
            },
            Selection::Series { entry_id, episode_id: None } => self.select_entry(entry_id),
            Selection::Nothing => {},
        }
    }

    fn advance(&mut self, target: &PlaybackTarget)
        requires
            old(self).wf(),
        ensures
            final(self).wf(),
            final(self)@ == old(self)@.advanced(target@),
    {
        if let PlaybackTarget::Episode(id, _) = target {
            if let Ok(e) = get_episode(&self.library, *id) {
                if let Some(next) = next_episode(&self.library, e.entry_id, e.season, e.episode) {
                    self.selected = Selection::Series {
                        entry_id: e.entry_id,
                        episode_id: Some(next.id),
                    };
                    set_last_played(
                        &mut self.library,
                        EntryKind::Series,
                        e.entry_id,
                        Some(next.id),
                    );
                }
            }
        }
    }

    /// Takes note of how far something was watched, once the player was closed.
    /// After a finished episode the next one is selected. A player that was
    /// closed before it reported anything leaves the stored progress as it is.
    pub fn playback_ended(&mut self, playback: &Playback)
        requires
            old(self).wf(),
        ensures
            final(self).wf(),
            final(self)@ == old(self)@.playback_ended(playback.target@, playback.last_status),
    {
        let finished = playback.finished();
        let position: i64 = if finished {
            0
        } else {
            playback.last_status.time_seconds
        };
        if playback.last_status.length_seconds > 0 {
            playback.target.persist(
                &mut self.library,
                position,
                playback.last_status.length_seconds,
                finished,
            );
        }
        if finished {
            self.advance(&playback.target);
            self.set_status("Finished. Moved to the next episode.");
        } else {
            self.set_status("Stopped. Progress saved.");
        }
        self.refresh_detail();
        self.refresh_last_played();
    }
}

} // verus!
