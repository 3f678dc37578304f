//! What reads give back of changes.

use vstd::prelude::*;

use crate::db::{law_last_played_reads_back, lemma_entry_at, lemma_episode_at, LastPlayed};
use crate::models::{EntryView, EpisodeView};
use crate::rows::lemma_filter_contains;
use crate::sorting::lemma_filter_members;
use crate::tables::{
    entry_edited, entry_resumed, entry_touched, episode_edited, episode_resumed,
    law_changes_keep_tables, not_entry, not_episode, not_of_entry, not_of_season, not_pattern_of,
    ChangeView, LibraryView, SeasonPatternView, Setting, Tables,
};

verus! {

broadcast use vstd::string::group_string_axioms;

// ---------------------------------------------------------------------
// Entries
// ---------------------------------------------------------------------

/// The entry under an id after a change, told from the entry before it.
pub open spec fn entry_after(before: Option<EntryView>, change: ChangeView, id: i64) -> Option<
    EntryView,
> {
    match change {
        ChangeView::InsertEntry { id: k, title, kind, description, link_or_path } => if k == id {
            Some(
                EntryView {
                    id,
                    title,
                    kind,
                    description,
                    link_or_path,
                    resume_position: 0,
                    duration: 0,
                    finished: false,
                    last_watched_at: 0,
                },
            )
        } else {
            before
        },
        ChangeView::UpdateEntry { id: k, title, description, link_or_path } => match before {
            Some(e) => if k == id {
                Some(EntryView { title, description, link_or_path, ..e })
            } else {
                Some(e)
            },
            None => None,
        },
        ChangeView::UpdateEntryResume { id: k, position, duration, finished } => match before {
            Some(e) => if k == id {
                Some(EntryView { resume_position: position, duration, finished, ..e })
            } else {
                Some(e)
            },
            None => None,
        },
        ChangeView::TouchLastWatched { id: k, at } => match before {
            Some(e) => if k == id {
                Some(EntryView { last_watched_at: at, ..e })
            } else {
                Some(e)
            },
            None => None,
        },
        ChangeView::DeleteEntry { id: k } => if k == id {
            None
        } else {
            before
        },
        _ => before,
    }
}

/// The entry under an id, told from a row that has the id, or from there being
/// none.
proof fn lemma_entry_is(t: Tables, id: i64, at: int)
    requires
        t.wf(),
        -1 <= at < t.entries.len(),
        at >= 0 ==> t.entries[at].id == id,
        at < 0 ==> forall|i: int| 0 <= i < t.entries.len() ==> (#[trigger] t.entries[i]).id != id,
    ensures
        t.entry(id) == if at >= 0 {
            Some(t.entries[at])
        } else {
            None
        },
{
    if at >= 0 {
        lemma_entry_at(t, at);
    }
}

/// Where the row with an id stands, or -1.
spec fn entry_index(t: Tables, id: i64) -> int {
    if t.has_entry(id) {
        choose|i: int| 0 <= i < t.entries.len() && (#[trigger] t.entries[i]).id == id
    } else {
        -1
    }
}

proof fn lemma_entry_mapped(t: Tables, after: Tables, f: spec_fn(EntryView) -> EntryView, id: i64)
    requires
        t.wf(),
        after.wf(),
        after.entries == t.entries.map_values(f),
        forall|e: EntryView| (#[trigger] f(e)).id == e.id,
    ensures
        after.entry(id) == match t.entry(id) {
            Some(e) => Some(f(e)),
            None => None,
        },
{
    let at = entry_index(t, id);
    lemma_entry_is(t, id, at);
    assert forall|i: int| 0 <= i < t.entries.len() implies (#[trigger] after.entries[i]).id
        == t.entries[i].id by {
        assert(after.entries[i] == f(t.entries[i]));
    }
    lemma_entry_is(after, id, at);
}

/// What a change makes of the entry under an id: it touches the entry it is
/// about, as it says, and no other.
pub proof fn law_entry_after_change(t: Tables, change: ChangeView, id: i64)
    requires
        t.wf(),
        t.accepts(change),
    ensures
        t.applied(change).entry(id) == entry_after(t.entry(id), change, id),
{
    let after = t.applied(change);
    law_changes_keep_tables(t, change);
    let at = entry_index(t, id);
    lemma_entry_is(t, id, at);
    match change {
        ChangeView::InsertEntry { id: k, .. } => {
            let n = t.entries.len() as int;
            assert forall|i: int| 0 <= i < n implies (#[trigger] after.entries[i]) == t.entries[i]
                && t.entries[i].id != k by {}
            assert(after.entries[n].id == k);
            if k == id {
                lemma_entry_is(after, id, n);
            } else {
                lemma_entry_is(after, id, at);
            }
        },
        ChangeView::UpdateEntry { id: k, title, description, link_or_path } => {
            lemma_entry_mapped(t, after, entry_edited(k, title, description, link_or_path), id);
        },
        ChangeView::UpdateEntryResume { id: k, position, duration, finished } => {
            lemma_entry_mapped(t, after, entry_resumed(k, position, duration, finished), id);
        },
        ChangeView::TouchLastWatched { id: k, at } => {
            lemma_entry_mapped(t, after, entry_touched(k, at), id);
        },
        ChangeView::DeleteEntry { id: k } => {
            let p = not_entry(k);
            lemma_filter_members(t.entries, p);
            if k != id && at >= 0 {
                lemma_filter_contains(t.entries, p, at);
                let kept = t.entries.filter(p);
                let j = choose|j: int| 0 <= j < kept.len() && kept[j] == t.entries[at];
                lemma_entry_is(after, id, j);
            } else {
                assert forall|i: int| 0 <= i < after.entries.len() implies (
                #[trigger] after.entries[i]).id != id by {
                    assert(p(after.entries[i]));
                    assert(t.entries.contains(after.entries[i]));
                }
                lemma_entry_is(after, id, -1);
            }
        },
        _ => {
            lemma_entry_is(after, id, at);
        },
    }
}

// ---------------------------------------------------------------------
// Episodes
// ---------------------------------------------------------------------

/// The episode under an id after a change, told from the episode before it.
pub open spec fn episode_after(before: Option<EpisodeView>, change: ChangeView, id: i64) -> Option<
    EpisodeView,
> {
    match change {
        ChangeView::InsertEpisode {
            id: k,
            entry_id,
            season,
            episode,
            title,
            description,
            link_or_path,
        } => if k == id {
            Some(
                EpisodeView {
                    id,
                    entry_id,
                    season,
                    episode,
                    title,
                    description,
                    link_or_path,
                    resume_position: 0,
                    duration: 0,
                    finished: false,
                },
            )
        } else {
            before
        },
        ChangeView::UpdateEpisode { id: k, title, description, link_or_path } => match before {
            Some(e) => if k == id {
                Some(EpisodeView { title, description, link_or_path, ..e })
            } else {
                Some(e)
            },
            None => None,
        },
        ChangeView::UpdateEpisodeResume { id: k, position, duration, finished } => match before {
            Some(e) => if k == id {
                Some(EpisodeView { resume_position: position, duration, finished, ..e })
            } else {
                Some(e)
            },
            None => None,
        },
        ChangeView::DeleteEpisode { id: k } => if k == id {
            None
        } else {
            before
        },
        ChangeView::DeleteEntry { id: entry_id } => match before {
            Some(e) => if e.entry_id == entry_id {
                None
            } else {
                Some(e)
            },
            None => None,
        },
        ChangeView::DeleteSeasonEpisodes { entry_id, season } => match before {
            Some(e) => if e.entry_id == entry_id && e.season == season {
                None
            } else {
                Some(e)
            },
            None => None,
        },
        _ => before,
    }
}

proof fn lemma_episode_is(t: Tables, id: i64, at: int)
    requires
        t.wf(),
        -1 <= at < t.episodes.len(),
        at >= 0 ==> t.episodes[at].id == id,
        at < 0 ==> forall|i: int| 0 <= i < t.episodes.len() ==> (#[trigger] t.episodes[i]).id != id,
    ensures
        t.episode(id) == if at >= 0 {
            Some(t.episodes[at])
        } else {
            None
        },
{
    if at >= 0 {
        lemma_episode_at(t, at);
    }
}

spec fn episode_index(t: Tables, id: i64) -> int {
    if t.has_episode(id) {
        choose|i: int| 0 <= i < t.episodes.len() && (#[trigger] t.episodes[i]).id == id
    } else {
        -1
    }
}

proof fn lemma_episode_mapped(
    t: Tables,
    after: Tables,
    f: spec_fn(EpisodeView) -> EpisodeView,
    id: i64,
)
    requires
        t.wf(),
        after.wf(),
        after.episodes == t.episodes.map_values(f),
        forall|e: EpisodeView| (#[trigger] f(e)).id == e.id,
    ensures
        after.episode(id) == match t.episode(id) {
            Some(e) => Some(f(e)),
            None => None,
        },
{
    let at = episode_index(t, id);
    lemma_episode_is(t, id, at);
    assert forall|i: int| 0 <= i < t.episodes.len() implies (#[trigger] after.episodes[i]).id
        == t.episodes[i].id by {
        assert(after.episodes[i] == f(t.episodes[i]));
    }
    lemma_episode_is(after, id, at);
}

proof fn lemma_episode_kept(t: Tables, after: Tables, p: spec_fn(EpisodeView) -> bool, id: i64)
    requires
        t.wf(),
        after.wf(),
        after.episodes == t.episodes.filter(p),
    ensures
        after.episode(id) == match t.episode(id) {
            Some(e) => if p(e) {
                Some(e)
            } else {
                None
            },
            None => None,
        },
{
    let at = episode_index(t, id);
    lemma_episode_is(t, id, at);
    lemma_filter_members(t.episodes, p);
    let kept = t.episodes.filter(p);
    if at >= 0 && p(t.episodes[at]) {
        lemma_filter_contains(t.episodes, p, at);
        let j = choose|j: int| 0 <= j < kept.len() && kept[j] == t.episodes[at];
        lemma_episode_is(after, id, j);
    } else {
        assert forall|i: int| 0 <= i < kept.len() implies (#[trigger] after.episodes[i]).id != id by {
            assert(p(kept[i]) && t.episodes.contains(kept[i]));
            let j = choose|j: int| 0 <= j < t.episodes.len() && t.episodes[j] == kept[i];
            if t.episodes[j].id == id {
                lemma_episode_is(t, id, j);
            }
        }
        lemma_episode_is(after, id, -1);
    }
}

/// What a change makes of the episode under an id: it touches the episodes it
/// is about, as it says, and no other.
pub proof fn law_episode_after_change(t: Tables, change: ChangeView, id: i64)
    requires
        t.wf(),
        t.accepts(change),
    ensures
        t.applied(change).episode(id) == episode_after(t.episode(id), change, id),
{
    let after = t.applied(change);
    law_changes_keep_tables(t, change);
    let at = episode_index(t, id);
    lemma_episode_is(t, id, at);
    match change {
        ChangeView::InsertEpisode { id: k, .. } => {
            let n = t.episodes.len() as int;
            assert forall|i: int| 0 <= i < n implies (#[trigger] after.episodes[i]) == t.episodes[i]
                && t.episodes[i].id != k by {}
            assert(after.episodes[n].id == k);
            if k == id {
                lemma_episode_is(after, id, n);
            } else {
                lemma_episode_is(after, id, at);
            }
        },
        ChangeView::UpdateEpisode { id: k, title, description, link_or_path } => {
            lemma_episode_mapped(t, after, episode_edited(k, title, description, link_or_path), id);
        },
        ChangeView::UpdateEpisodeResume { id: k, position, duration, finished } => {
            lemma_episode_mapped(t, after, episode_resumed(k, position, duration, finished), id);
        },
        ChangeView::DeleteEpisode { id: k } => {
            lemma_episode_kept(t, after, not_episode(k), id);
        },
        ChangeView::DeleteEntry { id: entry_id } => {
            lemma_episode_kept(t, after, not_of_entry(entry_id), id);
        },
        ChangeView::DeleteSeasonEpisodes { entry_id, season } => {
            lemma_episode_kept(t, after, not_of_season(entry_id, season), id);
        },
        _ => {
            lemma_episode_is(after, id, at);
        },
    }
}

// ---------------------------------------------------------------------
// Patterns and settings
// ---------------------------------------------------------------------

/// The pattern of a season after a change, told from the pattern before it.
pub open spec fn pattern_after(
    before: Option<SeasonPatternView>,
    change: ChangeView,
    entry_id: i64,
    season: i32,
) -> Option<SeasonPatternView> {
    match change {
        ChangeView::SetSeasonPattern { entry_id: k, season: n, pattern, season_width, ep_width } =>
            if k == entry_id && n == season {
            Some(SeasonPatternView { entry_id, season, pattern, season_width, ep_width })
        } else {
            before
        },
        ChangeView::DeleteSeasonPattern { entry_id: k, season: n } => if k == entry_id && n
            == season {
            None
        } else {
            before
        },
        _ => before,
    }
}

proof fn lemma_pattern_is(t: Tables, entry_id: i64, season: i32, at: int)
    requires
        t.wf(),
        -1 <= at < t.patterns.len(),
        at >= 0 ==> t.pattern_at(entry_id, season, at),
        at < 0 ==> forall|i: int| !#[trigger] t.pattern_at(entry_id, season, i),
    ensures
        t.pattern(entry_id, season) == if at >= 0 {
            Some(t.patterns[at])
        } else {
            None
        },
{
    if at >= 0 {
        let k = choose|k: int| t.pattern_at(entry_id, season, k);
        assert(t.pattern_at(entry_id, season, k));
        if k != at {
            assert(t.patterns[k].entry_id == t.patterns[at].entry_id && t.patterns[k].season
                == t.patterns[at].season);
        }
    }
}

spec fn pattern_index(t: Tables, entry_id: i64, season: i32) -> int {
    if exists|i: int| t.pattern_at(entry_id, season, i) {
        choose|i: int| t.pattern_at(entry_id, season, i)
    } else {
        -1
    }
}

/// The pattern of another season is where it was, or is still not there.
proof fn lemma_pattern_kept(
    t: Tables,
    after: Tables,
    p: spec_fn(SeasonPatternView) -> bool,
    entry_id: i64,
    season: i32,
)
    requires
        t.wf(),
        after.wf(),
        t.patterns.filter(p).len() <= after.patterns.len(),
        forall|i: int|
            0 <= i < t.patterns.filter(p).len() ==> #[trigger] after.patterns[i]
                == t.patterns.filter(p)[i],
        forall|i: int|
            t.patterns.filter(p).len() <= i < after.patterns.len() ==> !#[trigger] after.pattern_at(
                entry_id,
                season,
                i,
            ),
        forall|q: SeasonPatternView|
            q.entry_id == entry_id && q.season == season ==> #[trigger] p(q),
    ensures
        after.pattern(entry_id, season) == t.pattern(entry_id, season),
{
    let at = pattern_index(t, entry_id, season);
    lemma_pattern_is(t, entry_id, season, at);
    let kept = t.patterns.filter(p);
    lemma_filter_members(t.patterns, p);
    if at >= 0 {
        assert(p(t.patterns[at]));
        lemma_filter_contains(t.patterns, p, at);
        let j = choose|j: int| 0 <= j < kept.len() && kept[j] == t.patterns[at];
        assert(after.patterns[j] == kept[j]);
        assert(after.pattern_at(entry_id, season, j));
        lemma_pattern_is(after, entry_id, season, j);
    } else {
        assert forall|i: int| !#[trigger] after.pattern_at(entry_id, season, i) by {
            if after.pattern_at(entry_id, season, i) && i < kept.len() {
                assert(after.patterns[i] == kept[i]);
                assert(t.patterns.contains(kept[i]));
                let j = choose|j: int| 0 <= j < t.patterns.len() && t.patterns[j] == kept[i];
                assert(t.pattern_at(entry_id, season, j));
            }
        }
        lemma_pattern_is(after, entry_id, season, -1);
    }
}

/// What a change makes of the pattern of a season.
pub proof fn law_pattern_after_change(t: Tables, change: ChangeView, entry_id: i64, season: i32)
    requires
        t.wf(),
        t.accepts(change),
    ensures
        t.applied(change).pattern(entry_id, season) == pattern_after(
            t.pattern(entry_id, season),
            change,
            entry_id,
            season,
        ),
{
    let after = t.applied(change);
    law_changes_keep_tables(t, change);
    match change {
        ChangeView::SetSeasonPattern { entry_id: k, season: n, .. } => {
            let p = not_pattern_of(k, n);
            let kept = t.patterns.filter(p);
            if k == entry_id && n == season {
                assert(after.pattern_at(entry_id, season, kept.len() as int));
                lemma_pattern_is(after, entry_id, season, kept.len() as int);
            } else {
                lemma_pattern_kept(t, after, p, entry_id, season);
            }
        },
        ChangeView::DeleteSeasonPattern { entry_id: k, season: n } => {
            let p = not_pattern_of(k, n);
            if k == entry_id && n == season {
                lemma_filter_members(t.patterns, p);
                assert forall|i: int| !#[trigger] after.pattern_at(entry_id, season, i) by {
                    if 0 <= i < after.patterns.len() {
                        assert(p(after.patterns[i]));
                    }
                }
                lemma_pattern_is(after, entry_id, season, -1);
            } else {
                lemma_pattern_kept(t, after, p, entry_id, season);
            }
        },
        _ => {
            let at = pattern_index(t, entry_id, season);
            lemma_pattern_is(t, entry_id, season, at);
            assert forall|i: int| #[trigger] after.pattern_at(entry_id, season, i) == t.pattern_at(
                entry_id,
                season,
                i,
            ) by {}
            if at >= 0 {
                assert(after.pattern_at(entry_id, season, at));
            }
            lemma_pattern_is(after, entry_id, season, at);
        },
    }
}

/// A setting has the value it was last given, and no change of anything else
/// changes it.
pub proof fn law_setting_after_change(t: Tables, change: ChangeView, setting: Setting)
    ensures
        t.applied(change).setting(setting) == match change {
            ChangeView::PutSetting { setting: k, value } => if k == setting {
                Some(value)
            } else {
                t.setting(setting)
            },
            ChangeView::DeleteSetting { setting: k } => if k == setting {
                None
            } else {
                t.setting(setting)
            },
            _ => t.setting(setting),
        },
{
}

/// What was played last is remembered until something else is played or it is
/// forgotten.
pub proof fn law_last_played_kept(l: LibraryView, lp: LastPlayed)
    ensures
        l.set_last_played(lp).last_played() == Some(lp),
        l.clear_last_played().last_played() is None,
{
    law_last_played_reads_back(lp);
}

// ---------------------------------------------------------------------
// Ids and the journal
// ---------------------------------------------------------------------

/// The id of a new entry or episode was never handed out before, not even to
/// one that was deleted since.
pub proof fn law_new_ids(l: LibraryView)
    requires
        l.tables.wf(),
    ensures
        l.next_entry_id() matches Some(id) ==> id > l.tables.last_entry_id
            && !l.tables.has_entry(id),
        l.next_episode_id() matches Some(id) ==> id > l.tables.last_episode_id
            && !l.tables.has_episode(id),
{
}

/// The journal tells how the tables came to be: replaying it on the tables it
/// started from gives the tables.
pub open spec fn tells(l: LibraryView, from: Tables) -> bool {
    l.tables == from.replayed(l.journal)
}

/// Every change goes into the journal, so the journal keeps telling how the
/// tables came to be.
pub proof fn law_journal_tells(l: LibraryView, from: Tables, change: ChangeView)
    requires
        tells(l, from),
    ensures
        tells(l.with(change), from),
{
    assert(l.journal.push(change).drop_last() =~= l.journal);
}

} // verus!
