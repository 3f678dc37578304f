//! The tables of the library, and the changes made to them.
//!
//! A `Library` holds the rows in memory. Every change goes through `execute`,
//! which also writes it down in a journal; whoever stores the tables replays
//! the journal there, one statement for each change.

use std::collections::HashSet;
use vstd::prelude::*;

use crate::db::{entry_of, row_to_entry, EntryRow};
use crate::models::{
    entry_views, episode_views, is_kind, Entry, EntryKind, EntryView, Episode, EpisodeView,
};
use crate::rows::{
    lemma_filter_contains, lemma_filter_map, lemma_filter_positions, retain_rows, update_rows,
};
use crate::sorting::lemma_filter_members;
use crate::text::same_text;

verus! {

broadcast use vstd::std_specs::hash::group_hash_axioms;

/// The link pattern a season was found with, and the widths of the numbers in
/// it.
#[derive(Debug)]
pub struct SeasonPattern {
    pub entry_id: i64,
    pub season: i32,
    pub pattern: String,
    pub season_width: i32,
    pub ep_width: i32,
}

#[verifier::ext_equal]
pub struct SeasonPatternView {
    pub entry_id: i64,
    pub season: i32,
    pub pattern: Seq<char>,
    pub season_width: i32,
    pub ep_width: i32,
}

impl View for SeasonPattern {
    type V = SeasonPatternView;

    open spec fn view(&self) -> SeasonPatternView {
        SeasonPatternView {
            entry_id: self.entry_id,
            season: self.season,
            pattern: self.pattern@,
            season_width: self.season_width,
            ep_width: self.ep_width,
        }
    }
}

pub open spec fn pattern_views(s: Seq<SeasonPattern>) -> Seq<SeasonPatternView> {
    s.map_values(|p: SeasonPattern| p@)
}

/// What the settings table holds under a key of its own.
#[derive(Debug, Clone, Copy, PartialEq, Eq, Structural)]
pub enum Setting {
    LastPlayed,
    VlcPath,
    SubtitleLang,
}

pub open spec fn setting_key(setting: Setting) -> Seq<char> {
    match setting {
        Setting::LastPlayed => "last_played"@,
        Setting::VlcPath => "vlc_path"@,
        Setting::SubtitleLang => "subtitle_lang"@,
    }
}

impl Setting {
    /// The key a setting is stored under.
    pub fn key(&self) -> (res: &'static str)
        ensures
            res@ == setting_key(*self),
    {
        match self {
            Setting::LastPlayed => "last_played",
            Setting::VlcPath => "vlc_path",
            Setting::SubtitleLang => "subtitle_lang",
        }
    }
}

/// One change to the tables.
#[derive(Debug)]
pub enum Change {
    InsertEntry {
        id: i64,
        title: String,
        kind: EntryKind,
        description: String,
        link_or_path: String,
    },
    UpdateEntry { id: i64, title: String, description: String, link_or_path: String },
    UpdateEntryResume { id: i64, position: i64, duration: i64, finished: bool },
    TouchLastWatched { id: i64, at: i64 },
    DeleteEntry { id: i64 },
    InsertEpisode {
        id: i64,
        entry_id: i64,
        season: i32,
        episode: i32,
        title: String,
        description: String,
        link_or_path: String,
    },
    UpdateEpisode { id: i64, title: String, description: String, link_or_path: String },
    UpdateEpisodeResume { id: i64, position: i64, duration: i64, finished: bool },
    DeleteEpisode { id: i64 },
    DeleteSeasonEpisodes { entry_id: i64, season: i32 },
    DeleteSeasonPattern { entry_id: i64, season: i32 },
    SetSeasonPattern {
        entry_id: i64,
        season: i32,
        pattern: String,
        season_width: i32,
        ep_width: i32,
    },
    PutSetting { setting: Setting, value: String },
    DeleteSetting { setting: Setting },
}

#[verifier::ext_equal]
pub enum ChangeView {
    InsertEntry {
        id: i64,
        title: Seq<char>,
        kind: EntryKind,
        description: Seq<char>,
        link_or_path: Seq<char>,
    },
    UpdateEntry { id: i64, title: Seq<char>, description: Seq<char>, link_or_path: Seq<char> },
    UpdateEntryResume { id: i64, position: i64, duration: i64, finished: bool },
    TouchLastWatched { id: i64, at: i64 },
    DeleteEntry { id: i64 },
    InsertEpisode {
        id: i64,
        entry_id: i64,
        season: i32,
        episode: i32,
        title: Seq<char>,
        description: Seq<char>,
        link_or_path: Seq<char>,
    },
    UpdateEpisode { id: i64, title: Seq<char>, description: Seq<char>, link_or_path: Seq<char> },
    UpdateEpisodeResume { id: i64, position: i64, duration: i64, finished: bool },
    DeleteEpisode { id: i64 },
    DeleteSeasonEpisodes { entry_id: i64, season: i32 },
    DeleteSeasonPattern { entry_id: i64, season: i32 },
    SetSeasonPattern {
        entry_id: i64,
        season: i32,
        pattern: Seq<char>,
        season_width: i32,
        ep_width: i32,
    },
    PutSetting { setting: Setting, value: Seq<char> },
    DeleteSetting { setting: Setting },
}

impl View for Change {
    type V = ChangeView;

    open spec fn view(&self) -> ChangeView {
        match *self {
            Change::InsertEntry { id, title, kind, description, link_or_path } =>
                ChangeView::InsertEntry {
                id,
                title: title@,
                kind,
                description: description@,
                link_or_path: link_or_path@,
            },
            Change::UpdateEntry { id, title, description, link_or_path } =>
                ChangeView::UpdateEntry {
                id,
                title: title@,
                description: description@,
                link_or_path: link_or_path@,
            },
            Change::UpdateEntryResume { id, position, duration, finished } =>
                ChangeView::UpdateEntryResume { id, position, duration, finished },
            Change::TouchLastWatched { id, at } => ChangeView::TouchLastWatched { id, at },
            Change::DeleteEntry { id } => ChangeView::DeleteEntry { id },
            Change::InsertEpisode {
                id,
                entry_id,
                season,
                episode,
                title,
                description,
                link_or_path,
            } => ChangeView::InsertEpisode {
                id,
                entry_id,
                season,
                episode,
                title: title@,
                description: description@,
                link_or_path: link_or_path@,
            },
            Change::UpdateEpisode { id, title, description, link_or_path } =>
                ChangeView::UpdateEpisode {
                id,
                title: title@,
                description: description@,
                link_or_path: link_or_path@,
            },
            Change::UpdateEpisodeResume { id, position, duration, finished } =>
                ChangeView::UpdateEpisodeResume { id, position, duration, finished },
            Change::DeleteEpisode { id } => ChangeView::DeleteEpisode { id },
            Change::DeleteSeasonEpisodes { entry_id, season } =>
                ChangeView::DeleteSeasonEpisodes { entry_id, season },
            Change::DeleteSeasonPattern { entry_id, season } => ChangeView::DeleteSeasonPattern {
                entry_id,
                season,
            },
            Change::SetSeasonPattern { entry_id, season, pattern, season_width, ep_width } =>
                ChangeView::SetSeasonPattern {
                entry_id,
                season,
                pattern: pattern@,
                season_width,
                ep_width,
            },
            Change::PutSetting { setting, value } => ChangeView::PutSetting {
                setting,
                value: value@,
            },
            Change::DeleteSetting { setting } => ChangeView::DeleteSetting { setting },
        }
    }
}

pub open spec fn change_views(s: Seq<Change>) -> Seq<ChangeView> {
    s.map_values(|c: Change| c@)
}

/// The rows of all tables, and the largest id each table ever handed out. An
/// entry that is stored under a word for no kind counts as a movie, but stands in
/// no list of movies or series; `unlisted` holds the ids of those.
#[verifier::ext_equal]
pub struct Tables {
    pub entries: Seq<EntryView>,
    pub unlisted: Set<i64>,
    pub episodes: Seq<EpisodeView>,
    pub patterns: Seq<SeasonPatternView>,
    pub last_played: Option<Seq<char>>,
    pub vlc_path: Option<Seq<char>>,
    pub subtitle_lang: Option<Seq<char>>,
    pub last_entry_id: i64,
    pub last_episode_id: i64,
}

pub open spec fn entry_with(e: EntryView, id: i64, changed: EntryView) -> EntryView {
    if e.id == id {
        changed
    } else {
        e
    }
}

pub open spec fn episode_with(e: EpisodeView, id: i64, changed: EpisodeView) -> EpisodeView {
    if e.id == id {
        changed
    } else {
        e
    }
}

pub open spec fn not_entry(id: i64) -> spec_fn(EntryView) -> bool {
    |e: EntryView| e.id != id
}

pub open spec fn not_episode(id: i64) -> spec_fn(EpisodeView) -> bool {
    |e: EpisodeView| e.id != id
}

pub open spec fn not_of_entry(entry_id: i64) -> spec_fn(EpisodeView) -> bool {
    |e: EpisodeView| e.entry_id != entry_id
}

pub open spec fn not_of_season(entry_id: i64, season: i32) -> spec_fn(EpisodeView) -> bool {
    |e: EpisodeView| !(e.entry_id == entry_id && e.season == season)
}

pub open spec fn not_pattern_of(entry_id: i64, season: i32) -> spec_fn(SeasonPatternView) -> bool {
    |p: SeasonPatternView| !(p.entry_id == entry_id && p.season == season)
}

pub open spec fn entry_edited(
    id: i64,
    title: Seq<char>,
    description: Seq<char>,
    link_or_path: Seq<char>,
) -> spec_fn(EntryView) -> EntryView {
    |e: EntryView| entry_with(e, id, EntryView { title, description, link_or_path, ..e })
}

pub open spec fn entry_resumed(id: i64, position: i64, duration: i64, finished: bool) -> spec_fn(
    EntryView,
) -> EntryView {
    |e: EntryView|
        entry_with(e, id, EntryView { resume_position: position, duration, finished, ..e })
}

pub open spec fn entry_touched(id: i64, at: i64) -> spec_fn(EntryView) -> EntryView {
    |e: EntryView| entry_with(e, id, EntryView { last_watched_at: at, ..e })
}

pub open spec fn episode_edited(
    id: i64,
    title: Seq<char>,
    description: Seq<char>,
    link_or_path: Seq<char>,
) -> spec_fn(EpisodeView) -> EpisodeView {
    |e: EpisodeView| episode_with(e, id, EpisodeView { title, description, link_or_path, ..e })
}

pub open spec fn episode_resumed(
    id: i64,
    position: i64,
    duration: i64,
    finished: bool,
) -> spec_fn(EpisodeView) -> EpisodeView {
    |e: EpisodeView|
        episode_with(e, id, EpisodeView { resume_position: position, duration, finished, ..e })
}

/// Each row has a larger id than the rows before it.
pub open spec fn entry_ids_ascend(s: Seq<EntryView>) -> bool {
    forall|i: int, j: int|
        0 <= i < j < s.len() ==> (#[trigger] s[i]).id < (#[trigger] s[j]).id
}

/// Each row has a larger id than the rows before it.
pub open spec fn episode_ids_ascend(s: Seq<EpisodeView>) -> bool {
    forall|i: int, j: int|
        0 <= i < j < s.len() ==> (#[trigger] s[i]).id < (#[trigger] s[j]).id
}

/// No two rows are for the same season of the same series.
pub open spec fn pattern_keys_distinct(s: Seq<SeasonPatternView>) -> bool {
    forall|i: int, j: int|
        0 <= i < j < s.len() ==> (#[trigger] s[i]).entry_id != (#[trigger] s[j]).entry_id
            || s[i].season != s[j].season
}

/// The largest id handed out, going by the record of it and by the rows.
pub open spec fn highest_entry_id(recorded: i64, s: Seq<EntryView>) -> i64 {
    if s.len() > 0 && s.last().id > recorded {
        s.last().id
    } else {
        recorded
    }
}

/// The largest id handed out, going by the record of it and by the rows.
pub open spec fn highest_episode_id(recorded: i64, s: Seq<EpisodeView>) -> i64 {
    if s.len() > 0 && s.last().id > recorded {
        s.last().id
    } else {
        recorded
    }
}

impl Tables {
    /// The value stored for a setting.
    pub open spec fn setting(self, setting: Setting) -> Option<Seq<char>> {
        match setting {
            Setting::LastPlayed => self.last_played,
            Setting::VlcPath => self.vlc_path,
            Setting::SubtitleLang => self.subtitle_lang,
        }
    }

    pub open spec fn with_setting(self, setting: Setting, value: Option<Seq<char>>) -> Tables {
        match setting {
            Setting::LastPlayed => Tables { last_played: value, ..self },
            Setting::VlcPath => Tables { vlc_path: value, ..self },
            Setting::SubtitleLang => Tables { subtitle_lang: value, ..self },
        }
    }

    /// The tables after a change.
    pub open spec fn applied(self, change: ChangeView) -> Tables {
        match change {
            ChangeView::InsertEntry { id, title, kind, description, link_or_path } => Tables {
                entries: self.entries.push(
                    EntryView {
                        id,
                        title,
                        kind,
                        description,
                        link_or_path,
                        resume_position: 0,
                        duration: 0,
                        finished: false,
                        last_watched_at: 0,
                    },
                ),
                last_entry_id: id,
                ..self
            },
            ChangeView::UpdateEntry { id, title, description, link_or_path } => Tables {
                entries: self.entries.map_values(
                    entry_edited(id, title, description, link_or_path),
                ),
                ..self
            },
            ChangeView::UpdateEntryResume { id, position, duration, finished } => Tables {
                entries: self.entries.map_values(entry_resumed(id, position, duration, finished)),
                ..self
            },
            ChangeView::TouchLastWatched { id, at } => Tables {
                entries: self.entries.map_values(entry_touched(id, at)),
                ..self
            },
            ChangeView::DeleteEntry { id } => Tables {
                entries: self.entries.filter(not_entry(id)),
                unlisted: self.unlisted.remove(id),
                episodes: self.episodes.filter(not_of_entry(id)),
                ..self
            },
            ChangeView::InsertEpisode {
                id,
                entry_id,
                season,
                episode,
                title,
                description,
                link_or_path,
            } => Tables {
                episodes: self.episodes.push(
                    EpisodeView {
                        id,
                        entry_id,
                        season,
                        episode,
                        title,
                        description,
                        link_or_path,
                        resume_position: 0,
                        duration: 0,
                        finished: false,
                    },
                ),
                last_episode_id: id,
                ..self
            },
            ChangeView::UpdateEpisode { id, title, description, link_or_path } => Tables {
                episodes: self.episodes.map_values(
                    episode_edited(id, title, description, link_or_path),
                ),
                ..self
            },
            ChangeView::UpdateEpisodeResume { id, position, duration, finished } => Tables {
                episodes: self.episodes.map_values(
                    episode_resumed(id, position, duration, finished),
                ),
                ..self
            },
            ChangeView::DeleteEpisode { id } => Tables {
                episodes: self.episodes.filter(not_episode(id)),
                ..self
            },
            ChangeView::DeleteSeasonEpisodes { entry_id, season } => Tables {
                episodes: self.episodes.filter(not_of_season(entry_id, season)),
                ..self
            },
            ChangeView::DeleteSeasonPattern { entry_id, season } => Tables {
                patterns: self.patterns.filter(not_pattern_of(entry_id, season)),
                ..self
            },
            ChangeView::SetSeasonPattern { entry_id, season, pattern, season_width, ep_width } =>
                Tables {
                patterns: self.patterns.filter(not_pattern_of(entry_id, season)).push(
                    SeasonPatternView { entry_id, season, pattern, season_width, ep_width },
                ),
                ..self
            },
            ChangeView::PutSetting { setting, value } => self.with_setting(setting, Some(value)),
            ChangeView::DeleteSetting { setting } => self.with_setting(setting, None),
        }
    }

    /// The tables after a run of changes, the first one first.
    pub open spec fn replayed(self, changes: Seq<ChangeView>) -> Tables
        decreases changes.len(),
    {
        if changes.len() == 0 {
            self
        } else {
            self.replayed(changes.drop_last()).applied(changes.last())
        }
    }

    pub open spec fn entries_ascend(self) -> bool {
        &&& entry_ids_ascend(self.entries)
        &&& forall|i: int|
            0 <= i < self.entries.len() ==> (#[trigger] self.entries[i]).id <= self.last_entry_id
    }

    pub open spec fn episodes_ascend(self) -> bool {
        &&& episode_ids_ascend(self.episodes)
        &&& forall|i: int|
            0 <= i < self.episodes.len() ==> (#[trigger] self.episodes[i]).id
                <= self.last_episode_id
    }

    /// Only entries that exist are left out of the lists.
    pub open spec fn unlisted_exist(self) -> bool {
        forall|id: i64| #[trigger] self.unlisted.contains(id) ==> self.has_entry(id)
    }

    /// Rows stand in the order of their ids, no id was handed out twice, and a
    /// season has at most one pattern.
    pub open spec fn wf(self) -> bool {
        &&& self.entries_ascend()
        &&& self.unlisted_exist()
        &&& self.episodes_ascend()
        &&& pattern_keys_distinct(self.patterns)
    }

    pub open spec fn has_entry(self, id: i64) -> bool {
        exists|i: int| 0 <= i < self.entries.len() && (#[trigger] self.entries[i]).id == id
    }

    /// Every episode belongs to an entry that exists.
    pub open spec fn linked(self) -> bool {
        forall|i: int|
            0 <= i < self.episodes.len() ==> self.has_entry((#[trigger] self.episodes[i]).entry_id)
    }

    /// A new row takes an id above all that were handed out, and a new episode
    /// belongs to an entry that exists.
    pub open spec fn accepts(self, change: ChangeView) -> bool {
        match change {
            ChangeView::InsertEntry { id, .. } => id > self.last_entry_id,
            ChangeView::InsertEpisode { id, entry_id, .. } => id > self.last_episode_id
                && self.has_entry(entry_id),
            _ => true,
        }
    }
}

/// A change that the tables accept keeps them well formed, keeps every episode
/// with an entry, and never takes back an id.
pub proof fn law_changes_keep_tables(t: Tables, c: ChangeView)
    requires
        t.wf(),
        t.accepts(c),
    ensures
        t.applied(c).wf(),
        t.linked() ==> t.applied(c).linked(),
        t.applied(c).last_entry_id >= t.last_entry_id,
        t.applied(c).last_episode_id >= t.last_episode_id,
{
    let after = t.applied(c);
    match c {
        ChangeView::DeleteEntry { id } => {
            lemma_episodes_kept(t, not_of_entry(id));
            lemma_entries_kept(t, not_entry(id));
            lemma_others_stay(t, after, id);
            if t.linked() {
                lemma_filter_members(t.episodes, not_of_entry(id));
                assert forall|i: int| 0 <= i < after.episodes.len() implies after.has_entry(
                    (#[trigger] after.episodes[i]).entry_id,
                ) by {
                    let e = after.episodes[i];
                    assert(not_of_entry(id)(e));
                    let at = choose|k: int| 0 <= k < t.episodes.len() && t.episodes[k] == e;
                    assert(t.has_entry(t.episodes[at].entry_id));
                }
            }
        },
        ChangeView::DeleteEpisode { id } => {
            lemma_episodes_kept(t, not_episode(id));
            lemma_entries_stay(t, after);
        },
        ChangeView::DeleteSeasonEpisodes { entry_id, season } => {
            lemma_episodes_kept(t, not_of_season(entry_id, season));
            lemma_entries_stay(t, after);
        },
        ChangeView::DeleteSeasonPattern { entry_id, season } => {
            lemma_patterns_kept(t, not_pattern_of(entry_id, season));
            lemma_entries_stay(t, after);
        },
        ChangeView::SetSeasonPattern { entry_id, season, .. } => {
            let p = not_pattern_of(entry_id, season);
            let kept = t.patterns.filter(p);
            lemma_patterns_kept(t, p);
            lemma_filter_members(t.patterns, p);
            lemma_entries_stay(t, after);
            assert forall|i: int, j: int| 0 <= i < j < after.patterns.len() implies (
            #[trigger] after.patterns[i]).entry_id != (#[trigger] after.patterns[j]).entry_id
                || after.patterns[i].season != after.patterns[j].season by {
                assert(after.patterns[i] == kept[i]);
                assert(p(kept[i]));
                if j < kept.len() {
                    assert(after.patterns[j] == kept[j]);
                    assert(kept[i].entry_id != kept[j].entry_id || kept[i].season
                        != kept[j].season);
                } else {
                    assert(after.patterns[j].entry_id == entry_id);
                    assert(!(kept[i].entry_id == entry_id && kept[i].season == season));
                }
            }
        },
        ChangeView::InsertEntry { .. } => {
            lemma_entries_stay(t, after);
        },
        ChangeView::UpdateEntry { .. } => {
            lemma_entries_stay(t, after);
        },
        ChangeView::UpdateEntryResume { .. } => {
            lemma_entries_stay(t, after);
        },
        ChangeView::TouchLastWatched { .. } => {
            lemma_entries_stay(t, after);
        },
        ChangeView::InsertEpisode { .. } => {
            lemma_entries_stay(t, after);
        },
        _ => {
            lemma_entries_stay(t, after);
        },
    }
}

proof fn lemma_entries_stay(before: Tables, after: Tables)
    requires
        before.entries.len() <= after.entries.len(),
        forall|i: int|
            0 <= i < before.entries.len() ==> (#[trigger] after.entries[i]).id
                == before.entries[i].id,
    ensures
        forall|id: i64| before.has_entry(id) ==> #[trigger] after.has_entry(id),
{
    assert forall|id: i64| before.has_entry(id) implies #[trigger] after.has_entry(id) by {
        let k = choose|k: int|
            0 <= k < before.entries.len() && (#[trigger] before.entries[k]).id == id;
        assert(after.entries[k].id == id);
    }
}

proof fn lemma_others_stay(before: Tables, after: Tables, id: i64)
    requires
        after.entries == before.entries.filter(not_entry(id)),
    ensures
        forall|other: i64|
            other != id && before.has_entry(other) ==> #[trigger] after.has_entry(other),
{
    assert forall|other: i64| other != id && before.has_entry(other) implies #[trigger]
    after.has_entry(other) by {
        let k = choose|k: int|
            0 <= k < before.entries.len() && (#[trigger] before.entries[k]).id == other;
        lemma_filter_contains(before.entries, not_entry(id), k);
        let m = choose|m: int|
            0 <= m < after.entries.len() && after.entries[m] == before.entries[k];
        assert(after.entries[m].id == other);
    }
}

proof fn lemma_entries_kept(t: Tables, p: spec_fn(EntryView) -> bool)
    requires
        t.entries_ascend(),
    ensures
        (Tables { entries: t.entries.filter(p), ..t }).entries_ascend(),
{
    let kept = t.entries.filter(p);
    lemma_filter_members(t.entries, p);
    assert forall|i: int, j: int| 0 <= i < j < kept.len() implies (#[trigger] kept[i]).id < (
    #[trigger] kept[j]).id by {
        lemma_filter_positions(t.entries, p, i, j);
    }
    assert forall|i: int| 0 <= i < kept.len() implies (#[trigger] kept[i]).id
        <= t.last_entry_id by {
        let k = choose|k: int| 0 <= k < t.entries.len() && t.entries[k] == kept[i];
        assert(t.entries[k].id <= t.last_entry_id);
    }
}

proof fn lemma_episodes_kept(t: Tables, p: spec_fn(EpisodeView) -> bool)
    requires
        t.episodes_ascend(),
    ensures
        ({
            let after = Tables { episodes: t.episodes.filter(p), ..t };
            &&& after.episodes_ascend()
            &&& t.linked() ==> after.linked()
        }),
{
    let kept = t.episodes.filter(p);
    let after = Tables { episodes: kept, ..t };
    lemma_filter_members(t.episodes, p);
    assert forall|i: int, j: int| 0 <= i < j < kept.len() implies (#[trigger] kept[i]).id < (
    #[trigger] kept[j]).id by {
        lemma_filter_positions(t.episodes, p, i, j);
    }
    assert forall|i: int| 0 <= i < kept.len() implies (#[trigger] kept[i]).id
        <= t.last_episode_id by {
        let k = choose|k: int| 0 <= k < t.episodes.len() && t.episodes[k] == kept[i];
        assert(t.episodes[k].id <= t.last_episode_id);
    }
    if t.linked() {
        lemma_entries_stay(t, after);
        assert forall|i: int| 0 <= i < kept.len() implies after.has_entry(
            (#[trigger] kept[i]).entry_id,
        ) by {
            let k = choose|k: int| 0 <= k < t.episodes.len() && t.episodes[k] == kept[i];
            assert(t.has_entry(t.episodes[k].entry_id));
        }
    }
}

proof fn lemma_patterns_kept(t: Tables, p: spec_fn(SeasonPatternView) -> bool)
    requires
        pattern_keys_distinct(t.patterns),
    ensures
        pattern_keys_distinct(t.patterns.filter(p)),
{
    let kept = t.patterns.filter(p);
    assert forall|i: int, j: int| 0 <= i < j < kept.len() implies (#[trigger] kept[i]).entry_id != (
    #[trigger] kept[j]).entry_id || kept[i].season != kept[j].season by {
        lemma_filter_positions(t.patterns, p, i, j);
    }
}

/// Why stored rows were turned down.
#[derive(Debug, Clone, Copy, PartialEq, Eq, Structural)]
pub enum LoadError {
    /// Two entries with one id, or entries not in the order of their ids.
    EntriesOutOfOrder,
    /// Two episodes with one id, or episodes not in the order of their ids.
    EpisodesOutOfOrder,
    /// Two patterns for one season.
    PatternRepeated,
}

/// The rows of all tables, held in memory, and the changes made to them since
/// they were loaded.
pub struct Library {
    entries: Vec<Entry>,
    unlisted: HashSet<i64>,
    episodes: Vec<Episode>,
    patterns: Vec<SeasonPattern>,
    last_played: Option<String>,
    vlc_path: Option<String>,
    subtitle_lang: Option<String>,
    last_entry_id: i64,
    last_episode_id: i64,
    journal: Vec<Change>,
}

#[verifier::ext_equal]
pub struct LibraryView {
    pub tables: Tables,
    pub journal: Seq<ChangeView>,
}

impl LibraryView {
    /// The library after a change: the change is made and written down.
    pub open spec fn with(self, change: ChangeView) -> LibraryView {
        LibraryView { tables: self.tables.applied(change), journal: self.journal.push(change) }
    }
}

pub open spec fn text_view(s: Option<String>) -> Option<Seq<char>> {
    match s {
        Some(t) => Some(t@),
        None => None,
    }
}

impl View for Library {
    type V = LibraryView;

    closed spec fn view(&self) -> LibraryView {
        LibraryView {
            tables: Tables {
                entries: entry_views(self.entries@),
                unlisted: self.unlisted@,
                episodes: episode_views(self.episodes@),
                patterns: pattern_views(self.patterns@),
                last_played: text_view(self.last_played),
                vlc_path: text_view(self.vlc_path),
                subtitle_lang: text_view(self.subtitle_lang),
                last_entry_id: self.last_entry_id,
                last_episode_id: self.last_episode_id,
            },
            journal: change_views(self.journal@),
        }
    }
}

impl Library {
    pub open spec fn wf(self) -> bool {
        self@.tables.wf()
    }

    /// A library with nothing in it.
    pub fn new() -> (res: Library)
        ensures
            res.wf(),
            res@ == (LibraryView {
                tables: Tables {
                    entries: Seq::empty(),
                    unlisted: Set::empty(),
                    episodes: Seq::empty(),
                    patterns: Seq::empty(),
                    last_played: None,
                    vlc_path: None,
                    subtitle_lang: None,
                    last_entry_id: 0,
                    last_episode_id: 0,
                },
                journal: Seq::empty(),
            }),
    {
        let res = Library {
            entries: Vec::new(),
            unlisted: HashSet::new(),
            episodes: Vec::new(),
            patterns: Vec::new(),
            last_played: None,
            vlc_path: None,
            subtitle_lang: None,
            last_entry_id: 0,
            last_episode_id: 0,
            journal: Vec::new(),
        };
        assert(res@.tables.entries == Seq::<EntryView>::empty());
        assert(res@.tables.episodes == Seq::<EpisodeView>::empty());
        assert(res@.tables.patterns == Seq::<SeasonPatternView>::empty());
        assert(res@.journal == Seq::<ChangeView>::empty());
        res
    }

    pub fn entries(&self) -> (res: &Vec<Entry>)
        ensures
            entry_views(res@) == self@.tables.entries,
    {
        &self.entries
    }

    /// An entry stands in no list of movies or series.
    pub fn is_unlisted(&self, id: i64) -> (res: bool)
        ensures
            res == self@.tables.unlisted.contains(id),
    {
        self.unlisted.contains(&id)
    }

    pub fn episodes(&self) -> (res: &Vec<Episode>)
        ensures
            episode_views(res@) == self@.tables.episodes,
    {
        &self.episodes
    }

    pub fn patterns(&self) -> (res: &Vec<SeasonPattern>)
        ensures
            pattern_views(res@) == self@.tables.patterns,
    {
        &self.patterns
    }

    pub fn last_entry_id(&self) -> (res: i64)
        ensures
            res == self@.tables.last_entry_id,
    {
        self.last_entry_id
    }

    pub fn last_episode_id(&self) -> (res: i64)
        ensures
            res == self@.tables.last_episode_id,
    {
        self.last_episode_id
    }

    /// The value stored for a setting.
    pub fn setting(&self, setting: Setting) -> (res: &Option<String>)
        ensures
            text_view(*res) == self@.tables.setting(setting),
    {
        match setting {
            Setting::LastPlayed => &self.last_played,
            Setting::VlcPath => &self.vlc_path,
            Setting::SubtitleLang => &self.subtitle_lang,
        }
    }

    /// The changes made since the library was loaded, or since they were last
    /// taken.
    pub fn journal(&self) -> (res: &Vec<Change>)
        ensures
            change_views(res@) == self@.journal,
    {
        &self.journal
    }

    /// Hands out the changes, and starts a new journal.
    pub fn take_journal(&mut self) -> (res: Vec<Change>)
        ensures
            change_views(res@) == old(self)@.journal,
            final(self)@ == (LibraryView { journal: Seq::empty(), ..old(self)@ }),
    {
        let mut taken: Vec<Change> = Vec::new();
        std::mem::swap(&mut taken, &mut self.journal);
        assert(self@.journal == Seq::<ChangeView>::empty());
        taken
    }
}

/// The entry rows of a change that touches one row.
fn update_entries<F: Fn(&Entry) -> Option<Entry>>(
    rows: &mut Vec<Entry>,
    change: F,
    Ghost(f): Ghost<spec_fn(EntryView) -> EntryView>,
)
    requires
        forall|e: &Entry| #[trigger] change.requires((e,)),
        forall|e: &Entry, r: Option<Entry>| #[trigger]
            change.ensures((e,), r) ==> match r {
                Some(n) => n@ == f(e@),
                None => f(e@) == e@,
            },
    ensures
        entry_views(final(rows)@) == entry_views(old(rows)@).map_values(f),
{
    let ghost before = rows@;
    update_rows(rows, change);
    assert forall|i: int| 0 <= i < before.len() implies entry_views(rows@)[i] == entry_views(
        before,
    ).map_values(f)[i] by {
        assert(rows@[i]@ == f(before[i]@));
    }
    assert(entry_views(rows@) == entry_views(before).map_values(f));
}

/// The episode rows of a change that touches one row.
fn update_episodes<F: Fn(&Episode) -> Option<Episode>>(
    rows: &mut Vec<Episode>,
    change: F,
    Ghost(f): Ghost<spec_fn(EpisodeView) -> EpisodeView>,
)
    requires
        forall|e: &Episode| #[trigger] change.requires((e,)),
        forall|e: &Episode, r: Option<Episode>| #[trigger]
            change.ensures((e,), r) ==> match r {
                Some(n) => n@ == f(e@),
                None => f(e@) == e@,
            },
    ensures
        episode_views(final(rows)@) == episode_views(old(rows)@).map_values(f),
{
    let ghost before = rows@;
    update_rows(rows, change);
    assert forall|i: int| 0 <= i < before.len() implies episode_views(rows@)[i] == episode_views(
        before,
    ).map_values(f)[i] by {
        assert(rows@[i]@ == f(before[i]@));
    }
    assert(episode_views(rows@) == episode_views(before).map_values(f));
}

fn keep_entries<F: Fn(&Entry) -> bool>(
    rows: &mut Vec<Entry>,
    keep: F,
    Ghost(p): Ghost<spec_fn(EntryView) -> bool>,
)
    requires
        forall|e: &Entry| #[trigger] keep.requires((e,)),
        forall|e: &Entry, b: bool| #[trigger] keep.ensures((e,), b) ==> b == p(e@),
    ensures
        entry_views(final(rows)@) == entry_views(old(rows)@).filter(p),
{
    let ghost q = |e: Entry| p(e@);
    proof {
        lemma_filter_map(rows@, |e: Entry| e@, q, p);
    }
    retain_rows(rows, keep, Ghost(q));
}

fn keep_episodes<F: Fn(&Episode) -> bool>(
    rows: &mut Vec<Episode>,
    keep: F,
    Ghost(p): Ghost<spec_fn(EpisodeView) -> bool>,
)
    requires
        forall|e: &Episode| #[trigger] keep.requires((e,)),
        forall|e: &Episode, b: bool| #[trigger] keep.ensures((e,), b) ==> b == p(e@),
    ensures
        episode_views(final(rows)@) == episode_views(old(rows)@).filter(p),
{
    let ghost q = |e: Episode| p(e@);
    proof {
        lemma_filter_map(rows@, |e: Episode| e@, q, p);
    }
    retain_rows(rows, keep, Ghost(q));
}

fn drop_pattern(rows: &mut Vec<SeasonPattern>, entry_id: i64, season: i32)
    ensures
        pattern_views(final(rows)@) == pattern_views(old(rows)@).filter(
            not_pattern_of(entry_id, season),
        ),
{
    let ghost p = not_pattern_of(entry_id, season);
    let ghost q = |r: SeasonPattern| p(r@);
    proof {
        lemma_filter_map(rows@, |r: SeasonPattern| r@, q, p);
    }
    let keep = |r: &SeasonPattern| -> (b: bool)
        ensures
            b == !(r.entry_id == entry_id && r.season == season),
        { !(r.entry_id == entry_id && r.season == season) };
    retain_rows(rows, keep, Ghost(q));
}

impl Library {
    /// Makes a change and writes it down.
    pub fn execute(&mut self, change: Change)
        requires
            old(self).wf(),
            old(self)@.tables.accepts(change@),
        ensures
            final(self).wf(),
            final(self)@ == old(self)@.with(change@),
    {
        proof {
            law_changes_keep_tables(self@.tables, change@);
        }
        let ghost before = self@;
        match &change {
            Change::InsertEntry { id, title, kind, description, link_or_path } => {
                self.entries.push(
                    Entry {
                        id: *id,
                        title: title.clone(),
                        kind: *kind,
                        description: description.clone(),
                        link_or_path: link_or_path.clone(),
                        resume_position: 0,
                        duration: 0,
                        finished: false,
                        last_watched_at: 0,
                    },
                );
                self.last_entry_id = *id;
            },
            Change::UpdateEntry { id, title, description, link_or_path } => {
                let id: i64 = *id;
                let edit = |e: &Entry| -> (r: Option<Entry>)
                    ensures
                        match r {
                            Some(n) => e.id == id && n@ == (EntryView {
                                title: title@,
                                description: description@,
                                link_or_path: link_or_path@,
                                ..e@
                            }),
                            None => e.id != id,
                        },
                    {
                        if e.id != id {
                            return None;
                        }
                        let mut n = e.clone();
                        n.title = title.clone();
                        n.description = description.clone();
                        n.link_or_path = link_or_path.clone();
                        Some(n)
                    };
                update_entries(
                    &mut self.entries,
                    edit,
                    Ghost(entry_edited(id, title@, description@, link_or_path@)),
                );
            },
            Change::UpdateEntryResume { id, position, duration, finished } => {
                let id: i64 = *id;
                let position: i64 = *position;
                let duration: i64 = *duration;
                let finished: bool = *finished;
                let edit = |e: &Entry| -> (r: Option<Entry>)
                    ensures
                        match r {
                            Some(n) => e.id == id && n@ == (EntryView {
                                resume_position: position,
                                duration,
                                finished,
                                ..e@
                            }),
                            None => e.id != id,
                        },
                    {
                        if e.id != id {
                            return None;
                        }
                        let mut n = e.clone();
                        n.resume_position = position;
                        n.duration = duration;
                        n.finished = finished;
                        Some(n)
                    };
                update_entries(
                    &mut self.entries,
                    edit,
                    Ghost(entry_resumed(id, position, duration, finished)),
                );
            },
            Change::TouchLastWatched { id, at } => {
                let id: i64 = *id;
                let at: i64 = *at;
                let edit = |e: &Entry| -> (r: Option<Entry>)
                    ensures
                        match r {
                            Some(n) => e.id == id && n@ == (EntryView {
                                last_watched_at: at,
                                ..e@
                            }),
                            None => e.id != id,
                        },
                    {
                        if e.id != id {
                            return None;
                        }
                        let mut n = e.clone();
                        n.last_watched_at = at;
                        Some(n)
                    };
                update_entries(&mut self.entries, edit, Ghost(entry_touched(id, at)));
            },
            Change::DeleteEntry { id } => {
                let id: i64 = *id;
                let other = |e: &Entry| -> (b: bool)
                    ensures
                        b == (e.id != id),
                    { e.id != id };
                let elsewhere = |e: &Episode| -> (b: bool)
                    ensures
                        b == (e.entry_id != id),
                    { e.entry_id != id };
                keep_entries(&mut self.entries, other, Ghost(not_entry(id)));
                self.unlisted.remove(&id);
                keep_episodes(&mut self.episodes, elsewhere, Ghost(not_of_entry(id)));
            },
            Change::InsertEpisode {
                id,
                entry_id,
                season,
                episode,
                title,
                description,
                link_or_path,
            } => {
                self.episodes.push(
                    Episode {
                        id: *id,
                        entry_id: *entry_id,
                        season: *season,
                        episode: *episode,
                        title: title.clone(),
                        description: description.clone(),
                        link_or_path: link_or_path.clone(),
                        resume_position: 0,
                        duration: 0,
                        finished: false,
                    },
                );
                self.last_episode_id = *id;
            },
            Change::UpdateEpisode { id, title, description, link_or_path } => {
                let id: i64 = *id;
                let edit = |e: &Episode| -> (r: Option<Episode>)
                    ensures
                        match r {
                            Some(n) => e.id == id && n@ == (EpisodeView {
                                title: title@,
                                description: description@,
                                link_or_path: link_or_path@,
                                ..e@
                            }),
                            None => e.id != id,
                        },
                    {
                        if e.id != id {
                            return None;
                        }
                        let mut n = e.clone();
                        n.title = title.clone();
                        n.description = description.clone();
                        n.link_or_path = link_or_path.clone();
                        Some(n)
                    };
                update_episodes(
                    &mut self.episodes,
                    edit,
                    Ghost(episode_edited(id, title@, description@, link_or_path@)),
                );
            },
            Change::UpdateEpisodeResume { id, position, duration, finished } => {
                let id: i64 = *id;
                let position: i64 = *position;
                let duration: i64 = *duration;
                let finished: bool = *finished;
                let edit = |e: &Episode| -> (r: Option<Episode>)
                    ensures
                        match r {
                            Some(n) => e.id == id && n@ == (EpisodeView {
                                resume_position: position,
                                duration,
                                finished,
                                ..e@
                            }),
                            None => e.id != id,
                        },
                    {
                        if e.id != id {
                            return None;
                        }
                        let mut n = e.clone();
                        n.resume_position = position;
                        n.duration = duration;
                        n.finished = finished;
                        Some(n)
                    };
                update_episodes(
                    &mut self.episodes,
                    edit,
                    Ghost(episode_resumed(id, position, duration, finished)),
                );
            },
            Change::DeleteEpisode { id } => {
                let id: i64 = *id;
                let other = |e: &Episode| -> (b: bool)
                    ensures
                        b == (e.id != id),
                    { e.id != id };
                keep_episodes(&mut self.episodes, other, Ghost(not_episode(id)));
            },
            Change::DeleteSeasonEpisodes { entry_id, season } => {
                let entry_id: i64 = *entry_id;
                let season: i32 = *season;
                let elsewhere = |e: &Episode| -> (b: bool)
                    ensures
                        b == !(e.entry_id == entry_id && e.season == season),
                    { !(e.entry_id == entry_id && e.season == season) };
                keep_episodes(
                    &mut self.episodes,
                    elsewhere,
                    Ghost(not_of_season(entry_id, season)),
                );
            },
            Change::DeleteSeasonPattern { entry_id, season } => {
                drop_pattern(&mut self.patterns, *entry_id, *season);
            },
            Change::SetSeasonPattern { entry_id, season, pattern, season_width, ep_width } => {
                drop_pattern(&mut self.patterns, *entry_id, *season);
                self.patterns.push(
                    SeasonPattern {
                        entry_id: *entry_id,
                        season: *season,
                        pattern: pattern.clone(),
                        season_width: *season_width,
                        ep_width: *ep_width,
                    },
                );
            },
            Change::PutSetting { setting, value } => {
                self.put_setting(*setting, Some(value.clone()));
            },
            Change::DeleteSetting { setting } => {
                self.put_setting(*setting, None);
            },
        }
        let ghost after = before.tables.applied(change@);
        assert(self@.tables.entries == after.entries);
        assert(self@.tables.episodes == after.episodes);
        assert(self@.tables.patterns == after.patterns);
        assert(self@.tables == after);
        self.journal.push(change);
        assert(self@.journal == before.journal.push(change@));
    }

    fn put_setting(&mut self, setting: Setting, value: Option<String>)
        ensures
            final(self)@ == (LibraryView {
                tables: old(self)@.tables.with_setting(setting, text_view(value)),
                ..old(self)@
            }),
    {
        match setting {
            Setting::LastPlayed => {
                self.last_played = value;
            },
            Setting::VlcPath => {
                self.vlc_path = value;
            },
            Setting::SubtitleLang => {
                self.subtitle_lang = value;
            },
        }
    }
}

/// The ids of the rows that are stored under a word for no kind.
pub open spec fn unlisted_ids(rows: Seq<EntryRow>) -> Set<i64> {
    Set::new(
        |id: i64|
            exists|i: int|
                0 <= i < rows.len() && (#[trigger] rows[i]).id == id && !is_kind(rows[i].kind@),
    )
}

/// The entries that stored rows stand for, and the ids of those that are not
/// listed.
fn read_entries(rows: Vec<EntryRow>) -> (res: (Vec<Entry>, HashSet<i64>))
    ensures
        entry_views(res.0@) == rows@.map_values(entry_of()),
        res.1@ == unlisted_ids(rows@),
{
    let ghost all = rows@;
    let mut entries: Vec<Entry> = Vec::new();
    let mut unlisted: HashSet<i64> = HashSet::new();
    assert(unlisted@ == unlisted_ids(all.take(0)));
    assert(entry_views(entries@) == all.take(0).map_values(entry_of()));
    for row in it: rows
        invariant
            it.seq() == all,
            entry_views(entries@) == all.take(it.index() as int).map_values(entry_of()),
            unlisted@ == unlisted_ids(all.take(it.index() as int)),
    {
        let ghost k = it.index() as int;
        let ghost before = entries@;
        let ghost hidden = unlisted@;
        assert(all.take(k + 1) == all.take(k).push(row));
        let word = row.kind.as_str();
        if !same_text(word, EntryKind::Movie.as_str()) && !same_text(
            word,
            EntryKind::Series.as_str(),
        ) {
            unlisted.insert(row.id);
        }
        entries.push(row_to_entry(row));
        proof {
            let fewer = all.take(k);
            let more = all.take(k + 1);
            assert(entry_views(entries@) == entry_views(before).push(entry_of()(row)));
            assert(more.map_values(entry_of()) == fewer.map_values(entry_of()).push(
                entry_of()(row),
            ));
            assert forall|id: i64| unlisted@.contains(id) <==> #[trigger] unlisted_ids(
                more,
            ).contains(id) by {
                if unlisted_ids(fewer).contains(id) {
                    let i = choose|i: int|
                        0 <= i < fewer.len() && (#[trigger] fewer[i]).id == id && !is_kind(
                            fewer[i].kind@,
                        );
                    assert(more[i] == fewer[i]);
                }
                if unlisted_ids(more).contains(id) {
                    let i = choose|i: int|
                        0 <= i < more.len() && (#[trigger] more[i]).id == id && !is_kind(
                            more[i].kind@,
                        );
                    if i < k {
                        assert(fewer[i] == more[i]);
                    }
                }
                assert(more[k] == row);
            }
            assert(unlisted@ == unlisted_ids(more));
        }
    }
    assert(all.take(all.len() as int) == all);
    (entries, unlisted)
}

fn entries_in_order(rows: &Vec<Entry>) -> (res: bool)
    ensures
        res == entry_ids_ascend(entry_views(rows@)),
{
    let ghost s = entry_views(rows@);
    let mut i: usize = 1;
    while i < rows.len()
        invariant
            1 <= i,
            i <= rows@.len() || rows@.len() <= 1,
            s == entry_views(rows@),
            forall|a: int, b: int|
                0 <= a < b < i && b < s.len() ==> (#[trigger] s[a]).id < (#[trigger] s[b]).id,
        decreases rows@.len() - i,
    {
        assert(s[i as int].id == rows@[i as int].id);
        assert(s[i - 1].id == rows@[i - 1].id);
        if rows[i].id <= rows[i - 1].id {
            return false;
        }
        i += 1;
    }
    true
}

fn episodes_in_order(rows: &Vec<Episode>) -> (res: bool)
    ensures
        res == episode_ids_ascend(episode_views(rows@)),
{
    let ghost s = episode_views(rows@);
    let mut i: usize = 1;
    while i < rows.len()
        invariant
            1 <= i,
            i <= rows@.len() || rows@.len() <= 1,
            s == episode_views(rows@),
            forall|a: int, b: int|
                0 <= a < b < i && b < s.len() ==> (#[trigger] s[a]).id < (#[trigger] s[b]).id,
        decreases rows@.len() - i,
    {
        assert(s[i as int].id == rows@[i as int].id);
        assert(s[i - 1].id == rows@[i - 1].id);
        if rows[i].id <= rows[i - 1].id {
            return false;
        }
        i += 1;
    }
    true
}

fn patterns_apart(rows: &Vec<SeasonPattern>) -> (res: bool)
    ensures
        res == pattern_keys_distinct(pattern_views(rows@)),
{
    let ghost s = pattern_views(rows@);
    let mut j: usize = 0;
    while j < rows.len()
        invariant
            j <= rows@.len(),
            s == pattern_views(rows@),
            forall|a: int, b: int|
                0 <= a < b < j ==> (#[trigger] s[a]).entry_id != (#[trigger] s[b]).entry_id
                    || s[a].season != s[b].season,
        decreases rows@.len() - j,
    {
        let mut i: usize = 0;
        while i < j
            invariant
                i <= j < rows@.len(),
                s == pattern_views(rows@),
                forall|a: int|
                    0 <= a < i ==> (#[trigger] s[a]).entry_id != s[j as int].entry_id
                        || s[a].season != s[j as int].season,
            decreases j - i,
        {
            assert(s[i as int] == rows@[i as int]@);
            assert(s[j as int] == rows@[j as int]@);
            if rows[i].entry_id == rows[j].entry_id && rows[i].season == rows[j].season {
                return false;
            }
            i += 1;
        }
        j += 1;
    }
    true
}

impl Library {
    /// A library made of stored rows. The rows come in the order of their ids.
    pub fn load(
        rows: Vec<EntryRow>,
        episodes: Vec<Episode>,
        patterns: Vec<SeasonPattern>,
        last_played: Option<String>,
        vlc_path: Option<String>,
        subtitle_lang: Option<String>,
        last_entry_id: i64,
        last_episode_id: i64,
    ) -> (res: Result<Library, LoadError>)
        ensures
            match res {
                Ok(l) => {
                    &&& entry_ids_ascend(rows@.map_values(entry_of()))
                    &&& episode_ids_ascend(episode_views(episodes@))
                    &&& pattern_keys_distinct(pattern_views(patterns@))
                    &&& l.wf()
                    &&& l@.journal == Seq::<ChangeView>::empty()
                    &&& l@.tables == (Tables {
                        entries: rows@.map_values(entry_of()),
                        unlisted: unlisted_ids(rows@),
                        episodes: episode_views(episodes@),
                        patterns: pattern_views(patterns@),
                        last_played: text_view(last_played),
                        vlc_path: text_view(vlc_path),
                        subtitle_lang: text_view(subtitle_lang),
                        last_entry_id: highest_entry_id(last_entry_id, rows@.map_values(entry_of())),
                        last_episode_id: highest_episode_id(
                            last_episode_id,
                            episode_views(episodes@),
                        ),
                    })
                },
                Err(LoadError::EntriesOutOfOrder) => !entry_ids_ascend(rows@.map_values(entry_of())),
                Err(LoadError::EpisodesOutOfOrder) => entry_ids_ascend(rows@.map_values(entry_of()))
                    && !episode_ids_ascend(episode_views(episodes@)),
                Err(LoadError::PatternRepeated) => entry_ids_ascend(rows@.map_values(entry_of()))
                    && episode_ids_ascend(episode_views(episodes@)) && !pattern_keys_distinct(
                    pattern_views(patterns@),
                ),
            },
    {
        let ghost stored = rows@;
        let (entries, unlisted) = read_entries(rows);
        if !entries_in_order(&entries) {
            return Err(LoadError::EntriesOutOfOrder);
        }
        if !episodes_in_order(&episodes) {
            return Err(LoadError::EpisodesOutOfOrder);
        }
        if !patterns_apart(&patterns) {
            return Err(LoadError::PatternRepeated);
        }
        let mut top_entry: i64 = last_entry_id;
        if entries.len() > 0 && entries[entries.len() - 1].id > top_entry {
            top_entry = entries[entries.len() - 1].id;
        }
        let mut top_episode: i64 = last_episode_id;
        if episodes.len() > 0 && episodes[episodes.len() - 1].id > top_episode {
            top_episode = episodes[episodes.len() - 1].id;
        }
        let ghost e = entry_views(entries@);
        let ghost p = episode_views(episodes@);
        assert(e.len() > 0 ==> e.last() == entries@.last()@);
        assert(p.len() > 0 ==> p.last() == episodes@.last()@);
        let res = Library {
            entries,
            unlisted,
            episodes,
            patterns,
            last_played,
            vlc_path,
            subtitle_lang,
            last_entry_id: top_entry,
            last_episode_id: top_episode,
            journal: Vec::new(),
        };
        assert forall|i: int| 0 <= i < e.len() implies (#[trigger] e[i]).id <= top_entry by {
            if i < e.len() - 1 {
                assert(e[i].id < e[e.len() - 1].id);
            }
        }
        assert forall|i: int| 0 <= i < p.len() implies (#[trigger] p[i]).id <= top_episode by {
            if i < p.len() - 1 {
                assert(p[i].id < p[p.len() - 1].id);
            }
        }
        assert forall|id: i64| #[trigger] res@.tables.unlisted.contains(
            id,
        ) implies res@.tables.has_entry(id) by {
            let i = choose|i: int|
                0 <= i < stored.len() && (#[trigger] stored[i]).id == id && !is_kind(
                    stored[i].kind@,
                );
            assert(e[i] == entry_of()(stored[i]));
        }
        assert(res@.journal == Seq::<ChangeView>::empty());
        Ok(res)
    }
}

} // verus!
