//! What the window shows: the sidebar, the detail pane, the landing page and the
//! dialogs.

use vstd::prelude::*;

use crate::models::EntryKind;

verus! {

/// A movie or series in the sidebar.
pub struct EntryItem {
    pub id: i64,
    pub title: String,
}

#[verifier::ext_equal]
pub struct EntryItemView {
    pub id: i64,
    pub title: Seq<char>,
}

impl View for EntryItem {
    type V = EntryItemView;

    open spec fn view(&self) -> EntryItemView {
        EntryItemView {
            id: self.id,
            title: self.title@,
        }
    }
}

pub open spec fn entry_item_views(s: Seq<EntryItem>) -> Seq<EntryItemView> {
    s.map_values(|e: EntryItem| e@)
}

/// The sidebar: what is searched for, how the lists are sorted, and the lists.
pub struct Sidebar {
    pub search_query: String,
    /// How to sort: `Recently added`, `Recently watched`, or by title.
    pub sort_mode: String,
    pub movies_expanded: bool,
    pub series_expanded: bool,
    pub movies: Vec<EntryItem>,
    pub series: Vec<EntryItem>,
}

#[verifier::ext_equal]
pub struct SidebarView {
    pub search_query: Seq<char>,
    pub sort_mode: Seq<char>,
    pub movies_expanded: bool,
    pub series_expanded: bool,
    pub movies: Seq<EntryItemView>,
    pub series: Seq<EntryItemView>,
}

impl View for Sidebar {
    type V = SidebarView;

    open spec fn view(&self) -> SidebarView {
        SidebarView {
            search_query: self.search_query@,
            sort_mode: self.sort_mode@,
            movies_expanded: self.movies_expanded,
            series_expanded: self.series_expanded,
            movies: entry_item_views(self.movies@),
            series: entry_item_views(self.series@),
        }
    }
}

/// An episode in the timeline.
pub struct EpisodeItem {
    pub id: i64,
    pub label: String,
    pub selected: bool,
    pub finished: bool,
    /// Ticked in bulk-select mode.
    pub checked: bool,
}

#[verifier::ext_equal]
pub struct EpisodeItemView {
    pub id: i64,
    pub label: Seq<char>,
    pub selected: bool,
    pub finished: bool,
    pub checked: bool,
}

impl View for EpisodeItem {
    type V = EpisodeItemView;

    open spec fn view(&self) -> EpisodeItemView {
        EpisodeItemView {
            id: self.id,
            label: self.label@,
            selected: self.selected,
            finished: self.finished,
            checked: self.checked,
        }
    }
}

pub open spec fn episode_item_views(s: Seq<EpisodeItem>) -> Seq<EpisodeItemView> {
    s.map_values(|e: EpisodeItem| e@)
}

/// A season in the timeline.
pub struct SeasonGroup {
    pub season: i32,
    pub label: String,
    pub episodes: Vec<EpisodeItem>,
}

#[verifier::ext_equal]
pub struct SeasonGroupView {
    pub season: i32,
    pub label: Seq<char>,
    pub episodes: Seq<EpisodeItemView>,
}

impl View for SeasonGroup {
    type V = SeasonGroupView;

    open spec fn view(&self) -> SeasonGroupView {
        SeasonGroupView {
            season: self.season,
            label: self.label@,
            episodes: episode_item_views(self.episodes@),
        }
    }
}

pub open spec fn season_group_views(s: Seq<SeasonGroup>) -> Seq<SeasonGroupView> {
    s.map_values(|e: SeasonGroup| e@)
}

/// The detail pane: the selected entry and, for a series, its timeline and the
/// selected episode.
pub struct Detail {
    pub entry_id: i64,
    pub has_selection: bool,
    pub title: String,
    pub kind: String,
    pub description: String,
    pub link: String,
    pub progress: String,
    pub episode_description: String,
    pub seasons: Vec<SeasonGroup>,
    /// All of it was watched.
    pub watched: bool,
    pub resume_enabled: bool,
    pub play_enabled: bool,
    /// The entry's own resume button works.
    pub top_resume_enabled: bool,
}

#[verifier::ext_equal]
pub struct DetailView {
    pub entry_id: i64,
    pub has_selection: bool,
    pub title: Seq<char>,
    pub kind: Seq<char>,
    pub description: Seq<char>,
    pub link: Seq<char>,
    pub progress: Seq<char>,
    pub episode_description: Seq<char>,
    pub seasons: Seq<SeasonGroupView>,
    pub watched: bool,
    pub resume_enabled: bool,
    pub play_enabled: bool,
    pub top_resume_enabled: bool,
}

impl View for Detail {
    type V = DetailView;

    open spec fn view(&self) -> DetailView {
        DetailView {
            entry_id: self.entry_id,
            has_selection: self.has_selection,
            title: self.title@,
            kind: self.kind@,
            description: self.description@,
            link: self.link@,
            progress: self.progress@,
            episode_description: self.episode_description@,
            seasons: season_group_views(self.seasons@),
            watched: self.watched,
            resume_enabled: self.resume_enabled,
            play_enabled: self.play_enabled,
            top_resume_enabled: self.top_resume_enabled,
        }
    }
}

/// Something to continue watching.
pub struct ContinueItem {
    pub id: i64,
    pub kind: EntryKind,
    pub title: String,
}

#[verifier::ext_equal]
pub struct ContinueItemView {
    pub id: i64,
    pub kind: EntryKind,
    pub title: Seq<char>,
}

impl View for ContinueItem {
    type V = ContinueItemView;

    open spec fn view(&self) -> ContinueItemView {
        ContinueItemView {
            id: self.id,
            kind: self.kind,
            title: self.title@,
        }
    }
}

pub open spec fn continue_item_views(s: Seq<ContinueItem>) -> Seq<ContinueItemView> {
    s.map_values(|e: ContinueItem| e@)
}

/// The page shown while nothing is selected.
pub struct Landing {
    pub has_last_played: bool,
    pub last_played_label: String,
    pub continue_watching: Vec<ContinueItem>,
}

#[verifier::ext_equal]
pub struct LandingView {
    pub has_last_played: bool,
    pub last_played_label: Seq<char>,
    pub continue_watching: Seq<ContinueItemView>,
}

impl View for Landing {
    type V = LandingView;

    open spec fn view(&self) -> LandingView {
        LandingView {
            has_last_played: self.has_last_played,
            last_played_label: self.last_played_label@,
            continue_watching: continue_item_views(self.continue_watching@),
        }
    }
}

/// The dialog that adds a movie or a series.
pub struct AddForm {
    pub title: String,
    pub description: String,
    pub link: String,
    pub poster_path: String,
    /// `movie`, or anything else for a series.
    pub kind: String,
    pub pattern_link: String,
    pub pattern_season_start: String,
    pub pattern_season_width: String,
    pub pattern_start: String,
    pub pattern_episode_width: String,
    pub in_progress: bool,
    pub open: bool,
}

#[verifier::ext_equal]
pub struct AddFormView {
    pub title: Seq<char>,
    pub description: Seq<char>,
    pub link: Seq<char>,
    pub poster_path: Seq<char>,
    pub kind: Seq<char>,
    pub pattern_link: Seq<char>,
    pub pattern_season_start: Seq<char>,
    pub pattern_season_width: Seq<char>,
    pub pattern_start: Seq<char>,
    pub pattern_episode_width: Seq<char>,
    pub in_progress: bool,
    pub open: bool,
}

impl View for AddForm {
    type V = AddFormView;

    open spec fn view(&self) -> AddFormView {
        AddFormView {
            title: self.title@,
            description: self.description@,
            link: self.link@,
            poster_path: self.poster_path@,
            kind: self.kind@,
            pattern_link: self.pattern_link@,
            pattern_season_start: self.pattern_season_start@,
            pattern_season_width: self.pattern_season_width@,
            pattern_start: self.pattern_start@,
            pattern_episode_width: self.pattern_episode_width@,
            in_progress: self.in_progress,
            open: self.open,
        }
    }
}

/// The dialog that edits an entry or an episode.
pub struct EditForm {
    pub title: String,
    pub description: String,
    pub link: String,
    pub poster_path: String,
    pub is_episode: bool,
    pub open: bool,
}

#[verifier::ext_equal]
pub struct EditFormView {
    pub title: Seq<char>,
    pub description: Seq<char>,
    pub link: Seq<char>,
    pub poster_path: Seq<char>,
    pub is_episode: bool,
    pub open: bool,
}

impl View for EditForm {
    type V = EditFormView;

    open spec fn view(&self) -> EditFormView {
        EditFormView {
            title: self.title@,
            description: self.description@,
            link: self.link@,
            poster_path: self.poster_path@,
            is_episode: self.is_episode,
            open: self.open,
        }
    }
}

/// The dialog that asks before something is deleted.
pub struct ConfirmDialog {
    pub message: String,
    pub open: bool,
}

#[verifier::ext_equal]
pub struct ConfirmDialogView {
    pub message: Seq<char>,
    pub open: bool,
}

impl View for ConfirmDialog {
    type V = ConfirmDialogView;

    open spec fn view(&self) -> ConfirmDialogView {
        ConfirmDialogView {
            message: self.message@,
            open: self.open,
        }
    }
}

/// The dialog that adds one episode.
pub struct EpisodeForm {
    pub season: String,
    pub number: String,
    pub title: String,
    pub description: String,
    pub link: String,
    pub open: bool,
}

#[verifier::ext_equal]
pub struct EpisodeFormView {
    pub season: Seq<char>,
    pub number: Seq<char>,
    pub title: Seq<char>,
    pub description: Seq<char>,
    pub link: Seq<char>,
    pub open: bool,
}

impl View for EpisodeForm {
    type V = EpisodeFormView;

    open spec fn view(&self) -> EpisodeFormView {
        EpisodeFormView {
            season: self.season@,
            number: self.number@,
            title: self.title@,
            description: self.description@,
            link: self.link@,
            open: self.open,
        }
    }
}

/// The dialog that adds a season.
pub struct SeasonForm {
    pub number: String,
    pub width: String,
    pub pattern: String,
    pub ep_start: String,
    pub ep_width: String,
    pub in_progress: bool,
    pub open: bool,
}

#[verifier::ext_equal]
pub struct SeasonFormView {
    pub number: Seq<char>,
    pub width: Seq<char>,
    pub pattern: Seq<char>,
    pub ep_start: Seq<char>,
    pub ep_width: Seq<char>,
    pub in_progress: bool,
    pub open: bool,
}

impl View for SeasonForm {
    type V = SeasonFormView;

    open spec fn view(&self) -> SeasonFormView {
        SeasonFormView {
            number: self.number@,
            width: self.width@,
            pattern: self.pattern@,
            ep_start: self.ep_start@,
            ep_width: self.ep_width@,
            in_progress: self.in_progress,
            open: self.open,
        }
    }
}

/// The settings dialog.
pub struct SettingsForm {
    pub vlc_path: String,
    pub subtitle_lang: String,
    pub open: bool,
}

#[verifier::ext_equal]
pub struct SettingsFormView {
    pub vlc_path: Seq<char>,
    pub subtitle_lang: Seq<char>,
    pub open: bool,
}

impl View for SettingsForm {
    type V = SettingsFormView;

    open spec fn view(&self) -> SettingsFormView {
        SettingsFormView {
            vlc_path: self.vlc_path@,
            subtitle_lang: self.subtitle_lang@,
            open: self.open,
        }
    }
}

/// Bulk-select mode: whether it is on, the number shown, and the ticked episodes.
pub struct Bulk {
    pub mode: bool,
    pub count: usize,
    /// Ids of episodes, none twice.
    pub selected: Vec<i64>,
}

#[verifier::ext_equal]
pub struct BulkView {
    pub mode: bool,
    pub count: usize,
    pub selected: Seq<i64>,
}

impl View for Bulk {
    type V = BulkView;

    open spec fn view(&self) -> BulkView {
        BulkView {
            mode: self.mode,
            count: self.count,
            selected: self.selected@,
        }
    }
}

} // verus!
