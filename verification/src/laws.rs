//! What holds of the operations together.

use vstd::prelude::*;
use vstd::utf8::encode_utf8;

use crate::adding::found_title;
use crate::db::{
    episode_order, first, last_played_text, later_than, latest_at, law_last_played_reads_back,
    lemma_episode_order, lemma_first_match, unfinished, LastPlayed,
};
use crate::json::parsed;
use crate::marking::marked_position;
use crate::models::{EntryKind, EntryView, EpisodeView};
use crate::pattern::FoundView;
use crate::playback::{resume_point, watched_through, PlaybackTargetView};
use crate::readback::{law_entry_after_change, law_episode_after_change, law_pattern_after_change};
use crate::restoring::{fits, law_import_adds_rows, law_restored_library, no_rows};
use crate::seasons::{law_next_episode_number_free, law_number_after};
use crate::sorting::{law_stable_sorted, lemma_filter_members, stable_sorted, total_preorder};
use crate::state::{AppView, DeleteTargetView, Selection};
use crate::tables::{
    law_changes_keep_tables, ChangeView, LibraryView, SeasonPatternView, Setting, Tables,
};
use crate::text::{blank, decimal};
use crate::transfer::{law_text_reads_back, library_doc, written_as, LibraryDoc};
use crate::vlc::{launch_args, Status};

verus! {

broadcast use vstd::string::group_string_axioms;

// ---------------------------------------------------------------------
// Deleting
// ---------------------------------------------------------------------

/// An episode goes when its entry goes, when its season goes, or when it is
/// itself among what is deleted.
pub open spec fn goes_with(e: EpisodeView, target: DeleteTargetView) -> bool {
    match target {
        DeleteTargetView::Entry(id) => e.entry_id == id,
        DeleteTargetView::Episode(id) => e.id == id,
        DeleteTargetView::Season(entry_id, season) => e.entry_id == entry_id && e.season == season,
        DeleteTargetView::BulkEpisodes(ids) => ids.contains(e.id),
    }
}

proof fn lemma_episode_id(t: Tables, id: i64)
    requires
        t.wf(),
    ensures
        t.episode(id) matches Some(e) ==> e.id == id,
{
}

proof fn lemma_forgetting(l: LibraryView, target: DeleteTargetView, id: i64)
    requires
        l.tables.wf(),
    ensures
        l.forgetting(target).tables.wf(),
        l.forgetting(target).tables.episode(id) == l.tables.episode(id),
        l.forgetting(target).tables.entry(id) == l.tables.entry(id),
{
    let forget = ChangeView::DeleteSetting { setting: Setting::LastPlayed };
    law_changes_keep_tables(l.tables, forget);
    law_episode_after_change(l.tables, forget, id);
    law_entry_after_change(l.tables, forget, id);
}

proof fn lemma_delete_episodes(l: LibraryView, ids: Seq<i64>, id: i64)
    requires
        l.tables.wf(),
    ensures
        l.delete_episodes(ids).tables.wf(),
        l.delete_episodes(ids).tables.entry(id) == l.tables.entry(id),
        l.delete_episodes(ids).tables.episode(id) == if ids.contains(id) {
            None
        } else {
            l.tables.episode(id)
        },
        l.delete_episodes(ids).tables.last_played == l.tables.last_played,
    decreases ids.len(),
{
    if ids.len() > 0 {
        let rest = ids.drop_last();
        lemma_delete_episodes(l, rest, id);
        let before = l.delete_episodes(rest);
        let change = ChangeView::DeleteEpisode { id: ids.last() };
        law_changes_keep_tables(before.tables, change);
        law_episode_after_change(before.tables, change, id);
        law_entry_after_change(before.tables, change, id);
        if ids.contains(id) {
            let k = choose|k: int| 0 <= k < ids.len() && ids[k] == id;
            if k < rest.len() {
                assert(rest[k] == id);
            }
        }
        if rest.contains(id) {
            let k = choose|k: int| 0 <= k < rest.len() && rest[k] == id;
            assert(ids[k] == id);
        }
        assert(ids[ids.len() - 1] == ids.last());
    }
}

/// Deleting takes the episodes that go with what is deleted, and no others.
pub proof fn law_deleted_episodes(l: LibraryView, target: DeleteTargetView, id: i64)
    requires
        l.tables.wf(),
    ensures
        l.deleted(target).tables.wf(),
        l.deleted(target).tables.episode(id) == match l.tables.episode(id) {
            Some(e) => if goes_with(e, target) {
                None
            } else {
                Some(e)
            },
            None => None,
        },
{
    let l1 = l.forgetting(target);
    lemma_forgetting(l, target, id);
    lemma_episode_id(l.tables, id);
    match target {
        DeleteTargetView::Entry(k) => {
            let change = ChangeView::DeleteEntry { id: k };
            law_changes_keep_tables(l1.tables, change);
            law_episode_after_change(l1.tables, change, id);
        },
        DeleteTargetView::Episode(k) => {
            let change = ChangeView::DeleteEpisode { id: k };
            law_changes_keep_tables(l1.tables, change);
            law_episode_after_change(l1.tables, change, id);
        },
        DeleteTargetView::Season(entry_id, season) => {
            let change = ChangeView::DeleteSeasonEpisodes { entry_id, season };
            let drop = ChangeView::DeleteSeasonPattern { entry_id, season };
            law_changes_keep_tables(l1.tables, change);
            law_changes_keep_tables(l1.tables.applied(change), drop);
            law_episode_after_change(l1.tables, change, id);
            law_episode_after_change(l1.tables.applied(change), drop, id);
        },
        DeleteTargetView::BulkEpisodes(ids) => {
            lemma_delete_episodes(l1, ids, id);
        },
    }
}

/// Deleting takes an entry only where that is what is deleted.
pub proof fn law_deleted_entries(l: LibraryView, target: DeleteTargetView, id: i64)
    requires
        l.tables.wf(),
    ensures
        l.deleted(target).tables.entry(id) == if target == DeleteTargetView::Entry(id) {
            None
        } else {
            l.tables.entry(id)
        },
{
    let l1 = l.forgetting(target);
    lemma_forgetting(l, target, id);
    match target {
        DeleteTargetView::Entry(k) => {
            law_entry_after_change(l1.tables, ChangeView::DeleteEntry { id: k }, id);
        },
        DeleteTargetView::Episode(k) => {
            law_entry_after_change(l1.tables, ChangeView::DeleteEpisode { id: k }, id);
        },
        DeleteTargetView::Season(entry_id, season) => {
            let change = ChangeView::DeleteSeasonEpisodes { entry_id, season };
            law_changes_keep_tables(l1.tables, change);
            law_entry_after_change(l1.tables, change, id);
            law_entry_after_change(
                l1.tables.applied(change),
                ChangeView::DeleteSeasonPattern { entry_id, season },
                id,
            );
        },
        DeleteTargetView::BulkEpisodes(ids) => {
            lemma_delete_episodes(l1, ids, id);
        },
    }
}

/// What is remembered as played last after something was deleted does not
/// belong to it.
pub proof fn law_deleted_is_forgotten(l: LibraryView, target: DeleteTargetView)
    requires
        l.tables.wf(),
    ensures
        l.deleted(target).last_played() == if l.last_played_within(target) {
            None
        } else {
            l.last_played()
        },
{
    if let DeleteTargetView::BulkEpisodes(ids) = target {
        lemma_forgetting(l, target, 0);
        lemma_delete_episodes(l.forgetting(target), ids, 0);
    }
}

/// A deleted season cannot be probed again: its pattern went with it.
pub proof fn law_deleted_season_pattern(l: LibraryView, entry_id: i64, season: i32)
    requires
        l.tables.wf(),
    ensures
        l.deleted(DeleteTargetView::Season(entry_id, season)).tables.pattern(
            entry_id,
            season,
        ) is None,
{
    let target = DeleteTargetView::Season(entry_id, season);
    let l1 = l.forgetting(target);
    lemma_forgetting(l, target, 0);
    let change = ChangeView::DeleteSeasonEpisodes { entry_id, season };
    law_changes_keep_tables(l1.tables, change);
    law_pattern_after_change(
        l1.tables.applied(change),
        ChangeView::DeleteSeasonPattern { entry_id, season },
        entry_id,
        season,
    );
}

// ---------------------------------------------------------------------
// Which episode comes next
// ---------------------------------------------------------------------

pub proof fn lemma_sorted_contains<A>(s: Seq<A>, le: spec_fn(A, A) -> bool, x: A)
    requires
        total_preorder(le),
    ensures
        stable_sorted(s, le).contains(x) == s.contains(x),
{
    broadcast use vstd::seq_lib::group_to_multiset_ensures;

    law_stable_sorted(s, le);
    s.to_multiset_ensures();
    stable_sorted(s, le).to_multiset_ensures();
    assert(s.contains(x) <==> s.to_multiset().count(x) > 0);
    assert(stable_sorted(s, le).contains(x) <==> stable_sorted(s, le).to_multiset().count(x) > 0);
}

/// The first of the listed episodes with a property is one of the series that
/// has it, and no other that has it comes before; where there is none, no
/// episode of the series has it.
proof fn lemma_first_listed(
    t: Tables,
    entry_id: i64,
    p: spec_fn(EpisodeView) -> bool,
    e: EpisodeView,
)
    requires
        t.episodes_of(entry_id).contains(e),
        p(e),
    ensures
        first(t.listed_episodes(entry_id).filter(p)) matches Some(n) && p(n) && t.episodes_of(
            entry_id,
        ).contains(n) && episode_order()(n, e),
{
    let s = t.episodes_of(entry_id);
    let listed = t.listed_episodes(entry_id);
    lemma_episode_order();
    law_stable_sorted(s, episode_order());
    lemma_sorted_contains(s, episode_order(), e);
    let k = choose|k: int| 0 <= k < listed.len() && listed[k] == e;
    crate::rows::lemma_filter_contains(listed, p, k);
    lemma_filter_members(listed, p);
    let kept = listed.filter(p);
    let j = choose|j: int| 0 <= j < kept.len() && kept[j] == e;
    assert(p(kept[0]) && listed.contains(kept[0]));
    lemma_sorted_contains(s, episode_order(), kept[0]);
    crate::sorting::law_sorted_filter(s, episode_order(), p);
    law_stable_sorted(s.filter(p), episode_order());
    if j > 0 {
        assert(episode_order()(kept[0], kept[j]));
    }
}

/// The next episode comes after the given numbers, and no other episode of the
/// series that does comes before it.
pub proof fn law_next_episode(t: Tables, entry_id: i64, season: i32, episode: i32, e: EpisodeView)
    requires
        t.episodes_of(entry_id).contains(e),
        later_than(season, episode)(e),
    ensures
        t.next_episode(entry_id, season, episode) matches Some(n) && later_than(season, episode)(n)
            && t.episodes_of(entry_id).contains(n) && episode_order()(n, e),
{
    lemma_first_listed(t, entry_id, later_than(season, episode), e);
}

/// Where watching goes on: with the earliest episode that is not finished, as
/// long as there is one.
pub proof fn law_current_unfinished(t: Tables, entry_id: i64, e: EpisodeView)
    requires
        t.episodes_of(entry_id).contains(e),
        !e.finished,
    ensures
        t.first_unfinished_episode(entry_id) == t.current_episode(entry_id),
        t.current_episode(entry_id) matches Some(n) && !n.finished && t.episodes_of(
            entry_id,
        ).contains(n) && episode_order()(n, e),
{
    lemma_first_listed(t, entry_id, unfinished(), e);
}

proof fn lemma_latest_exists(s: Seq<EpisodeView>)
    requires
        s.len() > 0,
    ensures
        exists|i: int| latest_at(s, i),
    decreases s.len(),
{
    if s.len() == 1 {
        assert(latest_at(s, 0));
    } else {
        let rest = s.drop_last();
        lemma_latest_exists(rest);
        let k = choose|k: int| latest_at(rest, k);
        let n = s.len() - 1;
        if episode_order()(s[n], s[k]) {
            assert forall|j: int| 0 <= j < s.len() implies episode_order()(#[trigger] s[j], s[k]) by {
                if j < n {
                    assert(episode_order()(rest[j], rest[k]));
                }
            }
            assert forall|j: int| 0 <= j < k implies !episode_order()(s[k], #[trigger] s[j]) by {
                assert(!episode_order()(rest[k], rest[j]));
            }
            assert(latest_at(s, k));
        } else {
            assert forall|j: int| 0 <= j < s.len() implies episode_order()(#[trigger] s[j], s[n]) by {
                if j < n {
                    assert(episode_order()(rest[j], rest[k]));
                }
            }
            assert forall|j: int| 0 <= j < n implies !episode_order()(s[n], #[trigger] s[j]) by {
                assert(episode_order()(rest[j], rest[k]));
            }
            assert(latest_at(s, n));
        }
    }
}

/// Once all episodes are finished, watching goes on with the last one.
pub proof fn law_current_when_finished(t: Tables, entry_id: i64, e: EpisodeView)
    requires
        t.episodes_of(entry_id).contains(e),
        forall|x: EpisodeView| #[trigger] t.episodes_of(entry_id).contains(x) ==> x.finished,
    ensures
        t.current_episode(entry_id) == t.last_episode(entry_id),
        t.last_episode(entry_id) matches Some(n) && t.episodes_of(entry_id).contains(n)
            && episode_order()(e, n),
{
    let s = t.episodes_of(entry_id);
    let listed = t.listed_episodes(entry_id);
    lemma_episode_order();
    assert forall|i: int| 0 <= i < listed.len() implies !unfinished()(#[trigger] listed[i]) by {
        assert(listed.contains(listed[i]));
        lemma_sorted_contains(s, episode_order(), listed[i]);
    }
    lemma_first_match(listed, unfinished(), listed.len() as int);
    lemma_latest_exists(s);
    let k = choose|k: int| latest_at(s, k);
    let j = choose|j: int| 0 <= j < s.len() && s[j] == e;
    assert(episode_order()(s[j], s[k]));
    assert(s.contains(s[k]));
}

// ---------------------------------------------------------------------
// Playing
// ---------------------------------------------------------------------

/// Play starts at the beginning, Resume where the movie or episode was left.
pub proof fn law_play_positions(s: AppView, detected: Option<Seq<char>>, windows: bool)
    ensures
        s.play_request(false, detected, windows) matches Some(r) ==> r.start_seconds == 0,
        s.play_request(true, detected, windows) matches Some(r) ==> s.play_target() == Some(
            (r.target, r.start_seconds),
        ),
{
}

/// What has no link is not played: asking for it changes nothing in the library,
/// so it is neither stamped as watched nor remembered as played last.
pub proof fn law_unplayed_is_not_marked(
    s: AppView,
    resume: bool,
    now: i64,
    detected: Option<Seq<char>>,
    windows: bool,
)
    requires
        s.play_request(resume, detected, windows) is None,
    ensures
        s.play(now).library == s.library,
{
}

/// The player is told a position to start at exactly where there is one.
pub proof fn law_start_time_argument(
    target: Seq<char>,
    start_seconds: i64,
    subtitle_lang: Seq<char>,
    port: u16,
    password: Seq<char>,
)
    ensures
        ({
            let args = launch_args(target, start_seconds, subtitle_lang, port, password);
            let plain = launch_args(target, 0, subtitle_lang, port, password);
            &&& args[0] == target
            &&& start_seconds > 0 ==> args == plain.insert(
                5,
                "--start-time="@ + decimal(start_seconds as int),
            )
            &&& start_seconds <= 0 ==> args == plain
        }),
{
    let args = launch_args(target, start_seconds, subtitle_lang, port, password);
    let plain = launch_args(target, 0, subtitle_lang, port, password);
    if start_seconds > 0 {
        assert(args =~= plain.insert(5, "--start-time="@ + decimal(start_seconds as int)));
    }
}

/// Once the player was closed, the movie or episode that was played has the
/// position and length that were last known, or no resume point where it was
/// watched through.
pub proof fn law_progress_stored(s: AppView, target: PlaybackTargetView, status: Status)
    requires
        s.wf(),
        status.length_seconds > 0,
    ensures
        ({
            let after = s.playback_ended(target, status).library.tables;
            match target {
                PlaybackTargetView::Entry(id, _) => after.entry(id) == match s.library.tables.entry(
                    id,
                ) {
                    Some(e) => Some(
                        EntryView {
                            resume_position: resume_point(status),
                            duration: status.length_seconds,
                            finished: watched_through(status),
                            ..e
                        },
                    ),
                    None => None,
                },
                PlaybackTargetView::Episode(id, _) => after.episode(id)
                    == match s.library.tables.episode(id) {
                    Some(e) => Some(
                        EpisodeView {
                            resume_position: resume_point(status),
                            duration: status.length_seconds,
                            finished: watched_through(status),
                            ..e
                        },
                    ),
                    None => None,
                },
            }
        }),
{
    let t = s.library.tables;
    match target {
        PlaybackTargetView::Entry(id, _) => {
            let change = ChangeView::UpdateEntryResume {
                id,
                position: resume_point(status),
                duration: status.length_seconds,
                finished: watched_through(status),
            };
            law_changes_keep_tables(t, change);
            law_entry_after_change(t, change, id);
        },
        PlaybackTargetView::Episode(id, _) => {
            let change = ChangeView::UpdateEpisodeResume {
                id,
                position: resume_point(status),
                duration: status.length_seconds,
                finished: watched_through(status),
            };
            law_changes_keep_tables(t, change);
            law_episode_after_change(t, change, id);
            if watched_through(status) {
                if let Some((entry_id, next)) = t.applied(change).following(id) {
                    let lp = LastPlayed {
                        kind: EntryKind::Series,
                        entry_id,
                        episode_id: Some(next),
                    };
                    law_episode_after_change(
                        t.applied(change),
                        ChangeView::PutSetting {
                            setting: Setting::LastPlayed,
                            value: last_played_text(lp),
                        },
                        id,
                    );
                }
            }
        },
    }
}

/// A player that was closed before it reported anything changes nothing in the
/// library: every movie and episode keeps its position, its duration and whether
/// it is finished.
pub proof fn law_unreported_playback_keeps_progress(
    s: AppView,
    target: PlaybackTargetView,
    status: Status,
    id: i64,
)
    requires
        status.length_seconds <= 0,
    ensures
        s.playback_ended(target, status).library == s.library,
        s.playback_ended(target, status).library.tables.entry(id) == s.library.tables.entry(id),
        s.playback_ended(target, status).library.tables.episode(id) == s.library.tables.episode(id),
{
}

/// Where something is resumed after it was played: where it was left, at the
/// beginning where it was watched through, and where it was left before where
/// the player reported nothing.
pub open spec fn resumed_at(before: i64, status: Status) -> i64 {
    if status.length_seconds > 0 {
        resume_point(status)
    } else {
        before
    }
}

/// Resuming a movie after it was played starts where it was left, or at the
/// beginning where it was watched through.
pub proof fn law_movie_resumes_where_left(
    s: AppView,
    id: i64,
    e: EntryView,
    link: Seq<char>,
    status: Status,
    detected: Option<Seq<char>>,
    windows: bool,
)
    requires
        s.wf(),
        s.selected == Selection::Movie(id),
        s.library.tables.entry(id) == Some(e),
        e.kind == EntryKind::Movie,
        !blank(e.link_or_path),
    ensures
        s.playback_ended(PlaybackTargetView::Entry(id, link), status).play_request(
            true,
            detected,
            windows,
        ) matches Some(r) && r.target == PlaybackTargetView::Entry(id, e.link_or_path)
            && r.start_seconds == resumed_at(e.resume_position, status),
{
    let target = PlaybackTargetView::Entry(id, link);
    if status.length_seconds > 0 {
        law_progress_stored(s, target, status);
    }
    let after = s.playback_ended(target, status);
    assert(after.library.tables.entry(id) is Some);
    assert(e.id == id);
    assert(after.selected == Selection::Movie(id));
}

/// Resuming an episode after it was played, but not watched through, starts
/// where it was left.
pub proof fn law_episode_resumes_where_left(
    s: AppView,
    entry_id: i64,
    id: i64,
    e: EpisodeView,
    link: Seq<char>,
    status: Status,
    detected: Option<Seq<char>>,
    windows: bool,
)
    requires
        s.wf(),
        s.selected == (Selection::Series { entry_id, episode_id: Some(id) }),
        s.library.tables.episode(id) == Some(e),
        !blank(e.link_or_path),
        !watched_through(status),
    ensures
        s.playback_ended(PlaybackTargetView::Episode(id, link), status).play_request(
            true,
            detected,
            windows,
        ) matches Some(r) && r.target == PlaybackTargetView::Episode(id, e.link_or_path)
            && r.start_seconds == resumed_at(e.resume_position, status),
{
    let target = PlaybackTargetView::Episode(id, link);
    if status.length_seconds > 0 {
        law_progress_stored(s, target, status);
    }
    let after = s.playback_ended(target, status);
    assert(after.library.tables.episode(id) is Some);
    assert(after.selected == (Selection::Series { entry_id: e.entry_id, episode_id: Some(id) }));
}

/// After a finished episode that has a next one, the next one is remembered as
/// what was played last.
pub proof fn law_finished_episode_moves_on(
    s: AppView,
    id: i64,
    link: Seq<char>,
    status: Status,
    entry_id: i64,
    next: i64,
)
    requires
        s.wf(),
        watched_through(status),
        s.library.played(PlaybackTargetView::Episode(id, link), status).tables.following(id)
            == Some((entry_id, next)),
    ensures
        s.playback_ended(PlaybackTargetView::Episode(id, link), status).library.last_played()
            == Some(LastPlayed { kind: EntryKind::Series, entry_id, episode_id: Some(next) }),
{
    law_last_played_reads_back(
        LastPlayed { kind: EntryKind::Series, entry_id, episode_id: Some(next) },
    );
}

// ---------------------------------------------------------------------
// Marking as watched
// ---------------------------------------------------------------------

/// Marking touches the ticked episodes, as it says, and no other.
pub proof fn law_marked_episodes(l: LibraryView, ids: Seq<i64>, finished: bool, id: i64)
    requires
        l.tables.wf(),
    ensures
        l.mark_episodes(ids, finished).tables.wf(),
        l.mark_episodes(ids, finished).tables.episode(id) == match l.tables.episode(id) {
            Some(e) => if ids.contains(id) {
                Some(
                    EpisodeView {
                        resume_position: marked_position(e.duration, finished),
                        finished,
                        ..e
                    },
                )
            } else {
                Some(e)
            },
            None => None,
        },
    decreases ids.len(),
{
    if ids.len() > 0 {
        let rest = ids.drop_last();
        let before = l.mark_episodes(rest, finished);
        law_marked_episodes(l, rest, finished, id);
        law_marked_episodes(l, rest, finished, ids.last());
        if let Some(e) = before.tables.episode(ids.last()) {
            let change = ChangeView::UpdateEpisodeResume {
                id: ids.last(),
                position: marked_position(e.duration, finished),
                duration: e.duration,
                finished,
            };
            law_changes_keep_tables(before.tables, change);
            law_episode_after_change(before.tables, change, id);
        }
        if ids.contains(id) {
            let k = choose|k: int| 0 <= k < ids.len() && ids[k] == id;
            if k < rest.len() {
                assert(rest[k] == id);
            }
        }
        if rest.contains(id) {
            let k = choose|k: int| 0 <= k < rest.len() && rest[k] == id;
            assert(ids[k] == id);
        }
        assert(ids[ids.len() - 1] == ids.last());
    }
}

/// Marking the open movie twice leaves it watched, or unwatched, as it was.
pub proof fn law_mark_movie_twice(s: AppView, id: i64, e: EntryView)
    requires
        s.wf(),
        s.selected == Selection::Movie(id),
        s.library.tables.entry(id) == Some(e),
        e.kind == EntryKind::Movie,
    ensures
        s.toggle_movie_watched().library.tables.entry(id) == Some(
            EntryView {
                finished: !e.finished,
                resume_position: marked_position(e.duration, !e.finished),
                ..e
            },
        ),
        s.toggle_movie_watched().toggle_movie_watched().library.tables.entry(id) == Some(
            EntryView { resume_position: marked_position(e.duration, e.finished), ..e },
        ),
{
    let t = s.library.tables;
    let change = ChangeView::UpdateEntryResume {
        id,
        position: marked_position(e.duration, !e.finished),
        duration: e.duration,
        finished: !e.finished,
    };
    law_changes_keep_tables(t, change);
    law_entry_after_change(t, change, id);
    let once = s.toggle_movie_watched();
    assert(once.library.tables == t.applied(change));
    let e1 = once.library.tables.entry(id)->0;
    assert(e.id == id);
    assert(once.selected == Selection::Movie(id));
    let back = ChangeView::UpdateEntryResume {
        id,
        position: marked_position(e.duration, e.finished),
        duration: e.duration,
        finished: e.finished,
    };
    law_entry_after_change(t.applied(change), back, id);
}

// ---------------------------------------------------------------------
// What a probe found
// ---------------------------------------------------------------------

/// The row that an episode that was found becomes.
pub open spec fn found_row(id: i64, entry_id: i64, row: FoundView) -> EpisodeView {
    EpisodeView {
        id,
        entry_id,
        season: row.season as i32,
        episode: row.episode as i32,
        title: found_title(row.episode),
        description: Seq::empty(),
        link_or_path: row.link,
        resume_position: 0,
        duration: 0,
        finished: false,
    }
}

/// Every episode that was found becomes a row of the series, in the order in
/// which they were found, after all rows that were there.
pub proof fn law_found_episodes_added(l: LibraryView, entry_id: i64, rows: Seq<FoundView>)
    requires
        l.tables.wf(),
        l.tables.has_entry(entry_id),
        l.tables.last_episode_id + rows.len() <= i64::MAX,
    ensures
        l.with_all_found(entry_id, rows).tables.wf(),
        l.with_all_found(entry_id, rows).tables == (Tables {
            episodes: l.tables.episodes + Seq::new(
                rows.len(),
                |i: int|
                    found_row((l.tables.last_episode_id + 1 + i) as i64, entry_id, rows[i]),
            ),
            last_episode_id: (l.tables.last_episode_id + rows.len()) as i64,
            ..l.tables
        }),
    decreases rows.len(),
{
    let last = l.tables.last_episode_id as int;
    let added = Seq::new(
        rows.len(),
        |i: int| found_row((last + 1 + i) as i64, entry_id, rows[i]),
    );
    if rows.len() > 0 {
        let rest = rows.drop_last();
        law_found_episodes_added(l, entry_id, rest);
        let before = l.with_all_found(entry_id, rest);
        let id = (last + rows.len()) as i64;
        assert(before.tables.entries == l.tables.entries);
        assert(before.tables.has_entry(entry_id)) by {
            let k = choose|k: int|
                0 <= k < l.tables.entries.len() && (#[trigger] l.tables.entries[k]).id == entry_id;
            assert(before.tables.entries[k].id == entry_id);
        }
        let row = rows.last();
        law_changes_keep_tables(
            before.tables,
            ChangeView::InsertEpisode {
                id,
                entry_id,
                season: row.season as i32,
                episode: row.episode as i32,
                title: found_title(row.episode),
                description: Seq::empty(),
                link_or_path: row.link,
            },
        );
        let fewer = Seq::new(
            rest.len(),
            |i: int| found_row((last + 1 + i) as i64, entry_id, rest[i]),
        );
        assert(added =~= fewer.push(found_row(id, entry_id, row)));
        assert(l.tables.episodes + added =~= (l.tables.episodes + fewer).push(
            found_row(id, entry_id, row),
        ));
    } else {
        assert(l.tables.episodes + added =~= l.tables.episodes);
    }
}

/// Each season of a series that was found keeps the pattern it was found with,
/// so that it can be probed again.
pub proof fn law_found_seasons_keep_pattern(
    l: LibraryView,
    entry_id: i64,
    rows: Seq<FoundView>,
    pattern: Seq<char>,
    season_width: i32,
    ep_width: i32,
    at: int,
)
    requires
        l.tables.wf(),
        0 <= at < rows.len(),
        i32::MIN <= rows[at].season <= i32::MAX,
    ensures
        l.with_patterns(entry_id, rows, pattern, season_width, ep_width).tables.wf(),
        l.with_patterns(entry_id, rows, pattern, season_width, ep_width).tables.pattern(
            entry_id,
            rows[at].season as i32,
        ) == Some(
            SeasonPatternView {
                entry_id,
                season: rows[at].season as i32,
                pattern,
                season_width,
                ep_width,
            },
        ),
    decreases rows.len(),
{
    let rest = rows.drop_last();
    let before = l.with_patterns(entry_id, rest, pattern, season_width, ep_width);
    let season = rows[at].season as i32;
    lemma_with_patterns_wf(l, entry_id, rest, pattern, season_width, ep_width);
    let change = ChangeView::SetSeasonPattern {
        entry_id,
        season: rows.last().season as i32,
        pattern,
        season_width,
        ep_width,
    };
    law_changes_keep_tables(before.tables, change);
    law_pattern_after_change(before.tables, change, entry_id, season);
    if at < rest.len() {
        law_found_seasons_keep_pattern(l, entry_id, rest, pattern, season_width, ep_width, at);
        assert(rest[at] == rows[at]);
    } else if rest.len() > 0 && rows[rows.len() - 2].season == rows.last().season {
        assert(rest[rest.len() - 1] == rows[rows.len() - 2]);
        law_found_seasons_keep_pattern(
            l,
            entry_id,
            rest,
            pattern,
            season_width,
            ep_width,
            rest.len() - 1,
        );
    }
}

proof fn lemma_with_patterns_wf(
    l: LibraryView,
    entry_id: i64,
    rows: Seq<FoundView>,
    pattern: Seq<char>,
    season_width: i32,
    ep_width: i32,
)
    requires
        l.tables.wf(),
    ensures
        l.with_patterns(entry_id, rows, pattern, season_width, ep_width).tables.wf(),
    decreases rows.len(),
{
    if rows.len() > 0 {
        let rest = rows.drop_last();
        lemma_with_patterns_wf(l, entry_id, rest, pattern, season_width, ep_width);
        law_changes_keep_tables(
            l.with_patterns(entry_id, rest, pattern, season_width, ep_width).tables,
            ChangeView::SetSeasonPattern {
                entry_id,
                season: rows.last().season as i32,
                pattern,
                season_width,
                ep_width,
            },
        );
    }
}

/// A season is probed again with the pattern it was found with, from a number
/// that none of its episodes has reached; a season without a pattern is not.
pub proof fn law_reprobe_goes_on(s: AppView, season: i32, entry_id: i64, at: int)
    requires
        s.selected.series() == Some(entry_id),
        s.reprobe_fits(season),
    ensures
        s.request_reprobe_season(season).1 is Some <==> s.library.tables.pattern(
            entry_id,
            season,
        ) is Some,
        s.request_reprobe_season(season).1 matches Some(job) ==> job.entry_id == entry_id
            && job.season == season && job.pattern == s.library.tables.pattern(
            entry_id,
            season,
        )->0.pattern && (0 <= at < s.library.tables.listed_episodes(entry_id).len()
            && s.library.tables.listed_episodes(entry_id)[at].season == season
            ==> s.library.tables.listed_episodes(entry_id)[at].episode < job.ep_start),
{
    let t = s.library.tables;
    if 0 <= at < t.listed_episodes(entry_id).len() && t.listed_episodes(entry_id)[at].season
        == season {
        law_next_episode_number_free(t, entry_id, season, at);
        law_number_after(t.episode_numbers(entry_id, season));
    }
}

// ---------------------------------------------------------------------
// Moving the library
// ---------------------------------------------------------------------

/// Reading the same document twice adds everything twice.
pub proof fn law_import_twice(l: LibraryView, doc: LibraryDoc)
    requires
        l.tables.wf(),
        fits(l.tables, doc),
        fits(l.tables.with_document(doc), doc),
    ensures
        l.imported(doc).imported(doc).tables == l.tables.with_document(doc).with_document(doc),
{
    law_import_adds_rows(l, doc);
    law_import_adds_rows(l.imported(doc), doc);
}

/// Reading the text that a library was written as into an empty library gives
/// the same movies, series and episodes again.
pub proof fn law_export_then_import(text: Seq<char>, t: Tables, l: LibraryView)
    requires
        written_as(text, t.doc()),
        l.tables.wf(),
        no_rows(l.tables),
        fits(l.tables, t.doc()),
    ensures
        parsed(encode_utf8(text)) matches Ok(v) && l.imported(library_doc(v)).tables.doc()
            == t.doc(),
{
    law_text_reads_back(text, t.doc());
    law_restored_library(t, l);
}

} // verus!
