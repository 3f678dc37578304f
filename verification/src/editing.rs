//! Editing entries and episodes, and the settings.

use vstd::prelude::*;

use crate::adding::{poster_step, save_poster_step, AddStep, AddStepView};
use crate::db::{
    get_entry, get_episode, get_subtitle_lang, get_vlc_path, set_subtitle_lang, set_vlc_path,
    update_entry, update_episode,
};
use crate::screen::{EditFormView, SettingsForm, SettingsFormView};
use crate::state::{AppState, AppView, EditTarget};
use crate::tables::{text_view, Setting};

verus! {

broadcast use vstd::string::group_string_axioms;

// ---------------------------------------------------------------------
// Entries and episodes
// ---------------------------------------------------------------------

impl AppView {
    /// The state with the form for the open entry open.
    pub open spec fn open_edit_entry_dialog(self) -> AppView {
        match self.selected.entry() {
            Some(id) => match self.library.tables.entry(id) {
                Some(e) => AppView {
                    pending_edit: Some(EditTarget::Entry(id)),
                    edit_form: EditFormView {
                        title: e.title,
                        description: e.description,
                        link: e.link_or_path,
                        poster_path: Seq::empty(),
                        is_episode: false,
                        open: true,
                    },
                    ..self
                },
                None => self,
            },
            None => self,
        }
    }

    /// The state with the form for an episode open, if there is one with the
    /// id.
    pub open spec fn open_edit_episode_dialog(self, id: i64) -> AppView {
        match self.library.tables.episode(id) {
            Some(e) => AppView {
                pending_edit: Some(EditTarget::Episode(id)),
                edit_form: EditFormView {
                    title: e.title,
                    description: e.description,
                    link: e.link_or_path,
                    is_episode: true,
                    open: true,
                    ..self.edit_form
                },
                ..self
            },
            None => self,
        }
    }

    pub open spec fn edit_dialog_closed(self) -> AppView {
        AppView { edit_form: EditFormView { open: false, ..self.edit_form }, ..self }
    }

    /// What submitting the form does: what it edits is changed and drawn anew.
    pub open spec fn submit_edit(self) -> (AppView, AddStepView) {
        let form = self.edit_form;
        match self.pending_edit {
            Some(EditTarget::Entry(id)) => (
                self.with_library(
                    self.library.update_entry(id, form.title, form.description, form.link),
                ).edit_dialog_closed().refresh_sidebar().select_entry(id).refresh_last_played(),
                poster_step(id, form.poster_path),
            ),
            Some(EditTarget::Episode(id)) => {
                let s = self.with_library(
                    self.library.update_episode(id, form.title, form.description, form.link),
                ).edit_dialog_closed();
                (
                    s.select_some(s.library.tables.series_of(id)).refresh_last_played(),
                    AddStepView::Nothing,
                )
            },
            None => (self.edit_dialog_closed(), AddStepView::Nothing),
        }
    }
}

impl AppState {
    /// Opens the dialog that edits the open entry, even where an episode of it
    /// is selected.
    pub fn open_edit_entry_dialog(&mut self)
        requires
            old(self).wf(),
        ensures
            final(self).wf(),
            final(self)@ == old(self)@.open_edit_entry_dialog(),
    {
        if let Some(id) = self.selected.open_entry() {
            if let Ok(e) = get_entry(&self.library, id) {
                self.pending_edit = Some(EditTarget::Entry(id));
                self.edit_form.title = e.title;
                self.edit_form.description = e.description;
                self.edit_form.link = e.link_or_path;
                self.edit_form.poster_path = String::new();
                self.edit_form.is_episode = false;
                self.edit_form.open = true;
            }
        }
    }

    /// Opens the dialog that edits an episode.
    pub fn open_edit_episode_dialog(&mut self, episode_id: i64)
        requires
            old(self).wf(),
        ensures
            final(self).wf(),
            final(self)@ == old(self)@.open_edit_episode_dialog(episode_id),
    {
        if let Ok(e) = get_episode(&self.library, episode_id) {
            self.pending_edit = Some(EditTarget::Episode(episode_id));
            self.edit_form.title = e.title;
            self.edit_form.description = e.description;
            self.edit_form.link = e.link_or_path;
            self.edit_form.is_episode = true;
            self.edit_form.open = true;
        }
    }

    pub fn close_edit_dialog(&mut self)
        ensures
            final(self)@ == old(self)@.edit_dialog_closed(),
    {
        self.edit_form.open = false;
    }

    /// Submits the dialog that edits an entry or an episode.
    pub fn submit_edit(&mut self) -> (res: AddStep)
        requires
            old(self).wf(),
        ensures
            final(self).wf(),
            (final(self)@, res@) == old(self)@.submit_edit(),
    {
        match self.pending_edit {
            Some(EditTarget::Entry(id)) => {
                update_entry(
                    &mut self.library,
                    id,
                    self.edit_form.title.as_str(),
                    self.edit_form.description.as_str(),
                    self.edit_form.link.as_str(),
                );
                self.edit_form.open = false;
                self.refresh_sidebar();
                self.select_entry(id);
                self.refresh_last_played();
                save_poster_step(id, self.edit_form.poster_path.as_str())
            },
            Some(EditTarget::Episode(id)) => {
                update_episode(
                    &mut self.library,
                    id,
                    self.edit_form.title.as_str(),
                    self.edit_form.description.as_str(),
                    self.edit_form.link.as_str(),
                );
                self.edit_form.open = false;
                if let Ok(e) = get_episode(&self.library, id) {
                    self.select_entry(e.entry_id);
                }
                self.refresh_last_played();
                AddStep::Nothing
            },
            None => {
                self.edit_form.open = false;
                AddStep::Nothing
            },
        }
    }
}

// ---------------------------------------------------------------------
// Settings
// ---------------------------------------------------------------------

pub open spec fn or_empty(s: Option<Seq<char>>) -> Seq<char> {
    match s {
        Some(t) => t,
        None => Seq::empty(),
    }
}

impl AppView {
    /// The state with the settings dialog open.
    pub open spec fn open_settings_dialog(self) -> AppView {
        AppView {
            settings_form: SettingsFormView {
                vlc_path: or_empty(self.library.tables.vlc_path),
                subtitle_lang: or_empty(self.library.tables.subtitle_lang),
                open: true,
            },
            status: Seq::empty(),
            ..self
        }
    }

    pub open spec fn settings_dialog_closed(self) -> AppView {
        AppView { settings_form: SettingsFormView { open: false, ..self.settings_form }, ..self }
    }

    /// The state after the settings were saved.
    pub open spec fn submit_settings(self) -> AppView {
        self.with_library(
            self.library.put_setting(Setting::VlcPath, self.settings_form.vlc_path).put_setting(
                Setting::SubtitleLang,
                self.settings_form.subtitle_lang,
            ),
        ).settings_dialog_closed().with_status("Settings saved."@)
    }

    /// The state after the player was looked for, with what was found.
    pub open spec fn detect_settings_vlc(self, detected: Option<Seq<char>>) -> AppView {
        match detected {
            Some(path) => AppView {
                settings_form: SettingsFormView { vlc_path: path, ..self.settings_form },
                status: "Found VLC automatically."@,
                ..self
            },
            None => self.with_status(
                "Could not find VLC automatically. Browse for it manually."@,
            ),
        }
    }

    /// The state after the start: everything is drawn, and the player that was
    /// found is stored where none ever was.
    pub open spec fn started(self, detected: Option<Seq<char>>) -> AppView {
        let s = self.refresh_sidebar().refresh_last_played();
        match (s.library.tables.vlc_path, detected) {
            (None, Some(path)) => s.with_library(s.library.put_setting(Setting::VlcPath, path)),
            _ => s,
        }
    }
}

fn text_or_empty(s: Option<String>) -> (res: String)
    ensures
        res@ == or_empty(text_view(s)),
{
    match s {
        Some(t) => t,
        None => String::new(),
    }
}

impl AppState {
    /// Opens the settings dialog.
    pub fn open_settings_dialog(&mut self)
        ensures
            final(self)@ == old(self)@.open_settings_dialog(),
    {
        let vlc_path = text_or_empty(get_vlc_path(&self.library));
        let subtitle_lang = text_or_empty(get_subtitle_lang(&self.library));
        self.settings_form = SettingsForm { vlc_path, subtitle_lang, open: true };
        self.status = String::new();
    }

    pub fn close_settings_dialog(&mut self)
        ensures
            final(self)@ == old(self)@.settings_dialog_closed(),
    {
        self.settings_form.open = false;
    }

    /// Fills in the player that was found.
    pub fn detect_settings_vlc(&mut self, detected: Option<String>)
        ensures
            final(self)@ == old(self)@.detect_settings_vlc(text_view(detected)),
    {
        match detected {
            Some(path) => {
                self.settings_form.vlc_path = path;
                self.set_status("Found VLC automatically.");
            },
            None => self.set_status("Could not find VLC automatically. Browse for it manually."),
        }
    }

    /// Saves the settings.
    pub fn submit_settings(&mut self)
        requires
            old(self).wf(),
        ensures
            final(self).wf(),
            final(self)@ == old(self)@.submit_settings(),
    {
        set_vlc_path(&mut self.library, self.settings_form.vlc_path.as_str());
        set_subtitle_lang(&mut self.library, self.settings_form.subtitle_lang.as_str());
        self.settings_form.open = false;
        self.set_status("Settings saved.");
    }

    /// Draws everything for the first time, and stores the player that was
    /// found where none ever was.
    pub fn start(&mut self, detected: Option<String>)
        requires
            old(self).wf(),
        ensures
            final(self).wf(),
            final(self)@ == old(self)@.started(text_view(detected)),
    {
        self.refresh_sidebar();
        self.refresh_last_played();
        if get_vlc_path(&self.library).is_none() {
            if let Some(path) = detected {
                set_vlc_path(&mut self.library, path.as_str());
            }
        }
    }
}

} // verus!
