//! Telling that the database could not be written.

use vstd::prelude::*;

use crate::screen::{AddFormView, EditFormView, EpisodeFormView, SettingsFormView};
use crate::state::{AppState, AppView, Selection};
use crate::tables::{Library, LibraryView};
use crate::text::concat2;

verus! {

broadcast use vstd::string::group_string_axioms;

/// What the user asked for.
#[derive(Debug, Clone, Copy, PartialEq, Eq, Structural)]
pub enum Request {
    AddMovie,
    AddSeries,
    AddEpisode,
    Edit,
    Delete,
    DeleteSeason,
    SaveSettings,
}

/// How the message about a request that failed begins.
pub open spec fn failure_prefix(request: Request) -> Seq<char> {
    match request {
        Request::AddMovie => "Failed to save: "@,
        Request::AddSeries => "Failed to save series: "@,
        Request::AddEpisode => "Failed to add episode: "@,
        Request::Edit => "Failed to save: "@,
        Request::Delete => "Failed to delete: "@,
        Request::DeleteSeason => "Failed to delete season: "@,
        Request::SaveSettings => "Failed to save settings: "@,
    }
}

impl Request {
    fn prefix(&self) -> (res: &'static str)
        ensures
            res@ == failure_prefix(*self),
    {
        match self {
            Request::AddMovie => "Failed to save: ",
            Request::AddSeries => "Failed to save series: ",
            Request::AddEpisode => "Failed to add episode: ",
            Request::Edit => "Failed to save: ",
            Request::Delete => "Failed to delete: ",
            Request::DeleteSeason => "Failed to delete season: ",
            Request::SaveSettings => "Failed to save settings: ",
        }
    }
}

impl AppView {
    /// The state with the dialog open again that a request came from. The
    /// question before something is deleted has been answered and stays closed.
    pub open spec fn dialog_reopened(self, request: Request) -> AppView {
        match request {
            Request::AddMovie | Request::AddSeries => AppView {
                add_form: AddFormView { open: true, ..self.add_form },
                ..self
            },
            Request::AddEpisode => AppView {
                episode_form: EpisodeFormView { open: true, ..self.episode_form },
                ..self
            },
            Request::Edit => AppView {
                edit_form: EditFormView { open: true, ..self.edit_form },
                ..self
            },
            Request::SaveSettings => AppView {
                settings_form: SettingsFormView { open: true, ..self.settings_form },
                ..self
            },
            Request::Delete | Request::DeleteSeason => self,
        }
    }

    /// The state with a selection taken up again, and the detail pane drawn
    /// anew.
    pub open spec fn back_at(self, selected: Selection) -> AppView {
        match selected {
            Selection::Nothing => self.nothing_open(),
            _ => (AppView { selected, ..self }).refresh_detail(),
        }
    }

    /// The state with the library as it is stored, and everything drawn anew.
    pub open spec fn reloaded(self, stored: LibraryView, selected: Selection) -> AppView {
        self.with_library(stored).refresh_sidebar().refresh_last_played().back_at(
            selected,
        ).with_status(self.status)
    }

    /// The state after a request could not be stored: the library is as it is
    /// stored, what was selected before is selected, the dialog that the request
    /// came from is open, and the user is told why.
    pub open spec fn storage_failed(
        self,
        stored: LibraryView,
        selected: Selection,
        request: Request,
        cause: Seq<char>,
    ) -> AppView {
        self.reloaded(stored, selected).dialog_reopened(request).with_status(
            failure_prefix(request) + cause,
        )
    }
}

impl AppState {
    fn reopen_dialog(&mut self, request: Request)
        ensures
            final(self)@ == old(self)@.dialog_reopened(request),
    {
        match request {
            Request::AddMovie | Request::AddSeries => {
                self.add_form.open = true;
            },
            Request::AddEpisode => {
                self.episode_form.open = true;
            },
            Request::Edit => {
                self.edit_form.open = true;
            },
            Request::SaveSettings => {
                self.settings_form.open = true;
            },
            Request::Delete | Request::DeleteSeason => {},
        }
    }

    /// Goes back to the library as it is stored, and to what was selected, and
    /// draws everything anew.
    pub fn reload(&mut self, stored: Library, selected: Selection)
        requires
            old(self).wf(),
            stored.wf(),
        ensures
            final(self).wf(),
            final(self)@ == old(self)@.reloaded(stored@, selected),
    {
        let status = self.status.clone();
        self.library = stored;
        self.refresh_sidebar();
        self.refresh_last_played();
        if selected == Selection::Nothing {
            self.close_all();
        } else {
            self.selected = selected;
            self.refresh_detail();
        }
        self.set_status(status.as_str());
    }

    /// Goes back to the library as it is stored, and to what was selected before
    /// a request, and tells why the request could not be stored.
    pub fn storage_failed(
        &mut self,
        stored: Library,
        selected: Selection,
        request: Request,
        cause: &str,
    )
        requires
            old(self).wf(),
            stored.wf(),
        ensures
            final(self).wf(),
            final(self)@ == old(self)@.storage_failed(stored@, selected, request, cause@),
    {
        self.reload(stored, selected);
        self.reopen_dialog(request);
        let status = concat2(request.prefix(), cause);
        self.set_status(status.as_str());
    }
}

} // verus!
