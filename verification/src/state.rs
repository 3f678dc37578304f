//! The state of the application: the library, what is selected, what waits for
//! an answer, and what the window shows.

use vstd::prelude::*;

use crate::screen::{
    AddForm, AddFormView, Bulk, BulkView, ConfirmDialog, ConfirmDialogView, ContinueItemView,
    Detail, DetailView, EditForm, EditFormView, EntryItemView, EpisodeForm, EpisodeFormView,
    Landing, LandingView, SeasonForm, SeasonFormView, SeasonGroupView, SettingsForm,
    SettingsFormView, Sidebar, SidebarView,
};
use crate::tables::{Library, LibraryView};

verus! {

broadcast use vstd::string::group_string_axioms;

/// What is open in the detail pane.
#[derive(Debug, Clone, Copy, PartialEq, Eq, Structural)]
pub enum Selection {
    Nothing,
    Movie(i64),
    Series { entry_id: i64, episode_id: Option<i64> },
}

impl Selection {
    /// The entry that is open.
    pub open spec fn entry(self) -> Option<i64> {
        match self {
            Selection::Nothing => None,
            Selection::Movie(id) => Some(id),
            Selection::Series { entry_id, .. } => Some(entry_id),
        }
    }

    /// The series that is open.
    pub open spec fn series(self) -> Option<i64> {
        match self {
            Selection::Series { entry_id, .. } => Some(entry_id),
            _ => None,
        }
    }

    /// The entry that is open, if one is.
    pub fn open_entry(&self) -> (res: Option<i64>)
        ensures
            res == self.entry(),
    {
        match self {
            Selection::Nothing => None,
            Selection::Movie(id) => Some(*id),
            Selection::Series { entry_id, .. } => Some(*entry_id),
        }
    }

    /// The series that is open, if one is.
    pub fn open_series(&self) -> (res: Option<i64>)
        ensures
            res == self.series(),
    {
        match self {
            Selection::Series { entry_id, .. } => Some(*entry_id),
            _ => None,
        }
    }
}

/// What is deleted once that is confirmed.
pub enum DeleteTarget {
    Entry(i64),
    Episode(i64),
    Season(i64, i32),
    BulkEpisodes(Vec<i64>),
}

#[verifier::ext_equal]
pub enum DeleteTargetView {
    Entry(i64),
    Episode(i64),
    Season(i64, i32),
    BulkEpisodes(Seq<i64>),
}

impl View for DeleteTarget {
    type V = DeleteTargetView;

    open spec fn view(&self) -> DeleteTargetView {
        match self {
            DeleteTarget::Entry(id) => DeleteTargetView::Entry(*id),
            DeleteTarget::Episode(id) => DeleteTargetView::Episode(*id),
            DeleteTarget::Season(entry_id, season) => DeleteTargetView::Season(*entry_id, *season),
            DeleteTarget::BulkEpisodes(ids) => DeleteTargetView::BulkEpisodes(ids@),
        }
    }
}

pub open spec fn delete_target_view(target: Option<DeleteTarget>) -> Option<DeleteTargetView> {
    match target {
        Some(t) => Some(t@),
        None => None,
    }
}

/// What the edit dialog edits.
#[derive(Debug, Clone, Copy, PartialEq, Eq, Structural)]
pub enum EditTarget {
    Entry(i64),
    Episode(i64),
}

/// The state of the application.
pub struct AppState {
    pub library: Library,
    pub selected: Selection,
    pub pending_delete: Option<DeleteTarget>,
    pub pending_edit: Option<EditTarget>,
    pub bulk: Bulk,
    pub sidebar: Sidebar,
    pub detail: Detail,
    pub landing: Landing,
    pub add_form: AddForm,
    pub edit_form: EditForm,
    pub confirm: ConfirmDialog,
    pub episode_form: EpisodeForm,
    pub season_form: SeasonForm,
    pub settings_form: SettingsForm,
    pub status: String,
}

#[verifier::ext_equal]
pub struct AppView {
    pub library: LibraryView,
    pub selected: Selection,
    pub pending_delete: Option<DeleteTargetView>,
    pub pending_edit: Option<EditTarget>,
    pub bulk: BulkView,
    pub sidebar: SidebarView,
    pub detail: DetailView,
    pub landing: LandingView,
    pub add_form: AddFormView,
    pub edit_form: EditFormView,
    pub confirm: ConfirmDialogView,
    pub episode_form: EpisodeFormView,
    pub season_form: SeasonFormView,
    pub settings_form: SettingsFormView,
    pub status: Seq<char>,
}

impl View for AppState {
    type V = AppView;

    open spec fn view(&self) -> AppView {
        AppView {
            library: self.library@,
            selected: self.selected,
            pending_delete: delete_target_view(self.pending_delete),
            pending_edit: self.pending_edit,
            bulk: self.bulk@,
            sidebar: self.sidebar@,
            detail: self.detail@,
            landing: self.landing@,
            add_form: self.add_form@,
            edit_form: self.edit_form@,
            confirm: self.confirm@,
            episode_form: self.episode_form@,
            season_form: self.season_form@,
            settings_form: self.settings_form@,
            status: self.status@,
        }
    }
}

impl AppView {
    /// The library is well formed, and no episode is ticked twice.
    pub open spec fn wf(self) -> bool {
        &&& self.library.tables.wf()
        &&& self.bulk.selected.no_duplicates()
    }

    pub open spec fn with_status(self, status: Seq<char>) -> AppView {
        AppView { status, ..self }
    }

    pub open spec fn with_library(self, library: LibraryView) -> AppView {
        AppView { library, ..self }
    }

    pub open spec fn asked_to_confirm(self, target: DeleteTargetView, message: Seq<char>) -> AppView {
        AppView {
            pending_delete: Some(target),
            confirm: ConfirmDialogView { message, open: true },
            ..self
        }
    }
}

/// The state to start from: a library, and nothing shown of it yet.
pub open spec fn fresh(library: LibraryView) -> AppView {
    AppView {
        library,
        selected: Selection::Nothing,
        pending_delete: None,
        pending_edit: None,
        bulk: BulkView { mode: false, count: 0, selected: Seq::empty() },
        sidebar: SidebarView {
            search_query: Seq::empty(),
            sort_mode: "Title (A-Z)"@,
            movies_expanded: true,
            series_expanded: true,
            movies: Seq::empty(),
            series: Seq::empty(),
        },
        detail: DetailView {
            entry_id: 0,
            has_selection: false,
            title: Seq::empty(),
            kind: Seq::empty(),
            description: Seq::empty(),
            link: Seq::empty(),
            progress: Seq::empty(),
            episode_description: Seq::empty(),
            seasons: Seq::empty(),
            watched: false,
            resume_enabled: false,
            play_enabled: false,
            top_resume_enabled: false,
        },
        landing: LandingView {
            has_last_played: false,
            last_played_label: Seq::empty(),
            continue_watching: Seq::empty(),
        },
        add_form: AddFormView {
            title: Seq::empty(),
            description: Seq::empty(),
            link: Seq::empty(),
            poster_path: Seq::empty(),
            kind: "movie"@,
            pattern_link: Seq::empty(),
            pattern_season_start: "1"@,
            pattern_season_width: "2"@,
            pattern_start: "1"@,
            pattern_episode_width: "2"@,
            in_progress: false,
            open: false,
        },
        edit_form: EditFormView {
            title: Seq::empty(),
            description: Seq::empty(),
            link: Seq::empty(),
            poster_path: Seq::empty(),
            is_episode: false,
            open: false,
        },
        confirm: ConfirmDialogView { message: Seq::empty(), open: false },
        episode_form: EpisodeFormView {
            season: Seq::empty(),
            number: Seq::empty(),
            title: Seq::empty(),
            description: Seq::empty(),
            link: Seq::empty(),
            open: false,
        },
        season_form: SeasonFormView {
            number: Seq::empty(),
            width: "2"@,
            pattern: Seq::empty(),
            ep_start: "1"@,
            ep_width: "2"@,
            in_progress: false,
            open: false,
        },
        settings_form: SettingsFormView {
            vlc_path: Seq::empty(),
            subtitle_lang: Seq::empty(),
            open: false,
        },
        status: Seq::empty(),
    }
}

impl AppState {
    pub open spec fn wf(self) -> bool {
        self@.wf()
    }

    /// The state to start from.
    pub fn new(library: Library) -> (res: AppState)
        requires
            library.wf(),
        ensures
            res.wf(),
            res@ == fresh(library@),
    {
        let res = AppState {
            library,
            selected: Selection::Nothing,
            pending_delete: None,
            pending_edit: None,
            bulk: Bulk { mode: false, count: 0, selected: Vec::new() },
            sidebar: Sidebar {
                search_query: String::new(),
                sort_mode: "Title (A-Z)".to_owned(),
                movies_expanded: true,
                series_expanded: true,
                movies: Vec::new(),
                series: Vec::new(),
            },
            detail: Detail {
                entry_id: 0,
                has_selection: false,
                title: String::new(),
                kind: String::new(),
                description: String::new(),
                link: String::new(),
                progress: String::new(),
                episode_description: String::new(),
                seasons: Vec::new(),
                watched: false,
                resume_enabled: false,
                play_enabled: false,
                top_resume_enabled: false,
            },
            landing: Landing {
                has_last_played: false,
                last_played_label: String::new(),
                continue_watching: Vec::new(),
            },
            add_form: AddForm {
                title: String::new(),
                description: String::new(),
                link: String::new(),
                poster_path: String::new(),
                kind: "movie".to_owned(),
                pattern_link: String::new(),
                pattern_season_start: "1".to_owned(),
                pattern_season_width: "2".to_owned(),
                pattern_start: "1".to_owned(),
                pattern_episode_width: "2".to_owned(),
                in_progress: false,
                open: false,
            },
            edit_form: EditForm {
                title: String::new(),
                description: String::new(),
                link: String::new(),
                poster_path: String::new(),
                is_episode: false,
                open: false,
            },
            confirm: ConfirmDialog { message: String::new(), open: false },
            episode_form: EpisodeForm {
                season: String::new(),
                number: String::new(),
                title: String::new(),
                description: String::new(),
                link: String::new(),
                open: false,
            },
            season_form: SeasonForm {
                number: String::new(),
                width: "2".to_owned(),
                pattern: String::new(),
                ep_start: "1".to_owned(),
                ep_width: "2".to_owned(),
                in_progress: false,
                open: false,
            },
            settings_form: SettingsForm {
                vlc_path: String::new(),
                subtitle_lang: String::new(),
                open: false,
            },
            status: String::new(),
        };
        proof {
            assert(res@.sidebar.movies == Seq::<EntryItemView>::empty());
            assert(res@.sidebar.series == Seq::<EntryItemView>::empty());
            assert(res@.detail.seasons == Seq::<SeasonGroupView>::empty());
            assert(res@.landing.continue_watching == Seq::<ContinueItemView>::empty());
            assert(res@ =~= fresh(library@));
        }
        res
    }

    /// Shows a message.
    pub fn set_status(&mut self, status: &str)
        ensures
            final(self)@ == old(self)@.with_status(status@),
    {
        self.status = status.to_owned();
    }

    /// Asks before something is deleted.
    pub fn ask_to_confirm(&mut self, target: DeleteTarget, message: String)
        ensures
            final(self)@ == old(self)@.asked_to_confirm(target@, message@),
    {
        self.pending_delete = Some(target);
        self.confirm = ConfirmDialog { message, open: true };
    }

    pub fn toggle_movies(&mut self)
        ensures
            final(self)@ == (AppView {
                sidebar: SidebarView {
                    movies_expanded: !old(self)@.sidebar.movies_expanded,
                    ..old(self)@.sidebar
                },
                ..old(self)@
            }),
    {
        self.sidebar.movies_expanded = !self.sidebar.movies_expanded;
    }

    pub fn toggle_series(&mut self)
        ensures
            final(self)@ == (AppView {
                sidebar: SidebarView {
                    series_expanded: !old(self)@.sidebar.series_expanded,
                    ..old(self)@.sidebar
                },
                ..old(self)@
            }),
    {
        self.sidebar.series_expanded = !self.sidebar.series_expanded;
    }
}

} // verus!
