//! What comes of watching: what is played and from where, what is remembered of
//! it, and what is offered next.

use vstd::prelude::*;

use crate::db::{
    episode_order, law_last_played_reads_back, lemma_episode_at, lemma_episode_order, LastPlayed,
};
use crate::laws::{
    law_current_unfinished, law_current_when_finished, law_marked_episodes, law_next_episode,
};
use crate::models::{EntryKind, EntryView, EpisodeView};
use crate::outcomes::{other_entries_stay, other_episodes_stay};
use crate::playback::PlaybackTargetView;
use crate::readback::{law_entry_after_change, law_episode_after_change, law_last_played_kept};
use crate::sorting::lemma_filter_members;
use crate::state::{AppView, Selection};
use crate::tables::{law_changes_keep_tables, ChangeView, LibraryView, Setting, Tables};
use crate::text::{blank, decimal};
use crate::vlc::Status;

verus! {

broadcast use vstd::string::group_string_axioms;

/// An episode does not come after another one of its series.
pub open spec fn no_later(a: EpisodeView, b: EpisodeView) -> bool {
    a.season < b.season || (a.season == b.season && a.episode <= b.episode)
}

/// An episode comes after another one of its series.
pub open spec fn later(a: EpisodeView, b: EpisodeView) -> bool {
    a.season > b.season || (a.season == b.season && a.episode > b.episode)
}

/// An episode that a series has.
pub open spec fn belongs(t: Tables, entry_id: i64, e: EpisodeView) -> bool {
    t.episode(e.id) == Some(e) && e.entry_id == entry_id
}

/// The episodes of a series are those that have its id.
pub proof fn lemma_belongs(t: Tables, entry_id: i64, e: EpisodeView)
    requires
        t.wf(),
    ensures
        belongs(t, entry_id, e) <==> t.episodes_of(entry_id).contains(e),
{
    let p = crate::db::of_entry(entry_id);
    lemma_filter_members(t.episodes, p);
    if t.episodes_of(entry_id).contains(e) {
        let k = choose|k: int| 0 <= k < t.episodes_of(entry_id).len() && t.episodes_of(entry_id)[k]
            == e;
        assert(p(t.episodes_of(entry_id)[k]) && t.episodes.contains(e));
        let i = choose|i: int| 0 <= i < t.episodes.len() && t.episodes[i] == e;
        lemma_episode_at(t, i);
    }
    if belongs(t, entry_id, e) {
        let i = choose|i: int| 0 <= i < t.episodes.len() && (#[trigger] t.episodes[i]).id == e.id;
        lemma_episode_at(t, i);
        assert(t.episodes[i] == e);
        crate::rows::lemma_filter_contains(t.episodes, p, i);
    }
}

// ---------------------------------------------------------------------
// Playing what is open
// ---------------------------------------------------------------------

/// Playing the open movie plays its link, from the beginning or from where it was
/// left, and remembers it as played last and as watched now. Nothing else in the
/// library changes.
pub proof fn law_movie_played(
    s: AppView,
    id: i64,
    e: EntryView,
    resume: bool,
    now: i64,
    detected: Option<Seq<char>>,
    windows: bool,
)
    requires
        s.wf(),
        s.selected == Selection::Movie(id),
        s.library.tables.entry(id) == Some(e),
        !blank(e.link_or_path),
    ensures
        s.play_request(resume, detected, windows) matches Some(r) && r.target
            == PlaybackTargetView::Entry(id, e.link_or_path) && r.start_seconds == if resume {
            e.resume_position
        } else {
            0
        },
        s.play(now).library.last_played() == Some(
            LastPlayed { kind: EntryKind::Movie, entry_id: id, episode_id: None },
        ),
        s.play(now).library.tables.entry(id) == Some(EntryView { last_watched_at: now, ..e }),
        other_entries_stay(s.library.tables, s.play(now).library.tables, id),
        s.play(now).library.tables.episodes == s.library.tables.episodes,
        s.play(now).library.tables.patterns == s.library.tables.patterns,
        s.play(now).selected == s.selected,
{
    lemma_stamped(
        s.library,
        LastPlayed { kind: EntryKind::Movie, entry_id: id, episode_id: None },
        id,
        e,
        now,
    );
}

/// Playing the selected episode plays its link, from the beginning or from where
/// it was left, and remembers it as played last and its series as watched now.
/// Nothing else in the library changes.
pub proof fn law_episode_played(
    s: AppView,
    entry_id: i64,
    id: i64,
    series: EntryView,
    e: EpisodeView,
    resume: bool,
    now: i64,
    detected: Option<Seq<char>>,
    windows: bool,
)
    requires
        s.wf(),
        s.selected == (Selection::Series { entry_id, episode_id: Some(id) }),
        s.library.tables.entry(entry_id) == Some(series),
        s.library.tables.episode(id) == Some(e),
        !blank(e.link_or_path),
    ensures
        s.play_request(resume, detected, windows) matches Some(r) && r.target
            == PlaybackTargetView::Episode(id, e.link_or_path) && r.start_seconds == if resume {
            e.resume_position
        } else {
            0
        },
        s.play(now).library.last_played() == Some(
            LastPlayed { kind: EntryKind::Series, entry_id, episode_id: Some(id) },
        ),
        s.play(now).library.tables.entry(entry_id) == Some(
            EntryView { last_watched_at: now, ..series },
        ),
        other_entries_stay(s.library.tables, s.play(now).library.tables, entry_id),
        s.play(now).library.tables.episodes == s.library.tables.episodes,
        s.play(now).library.tables.patterns == s.library.tables.patterns,
        s.play(now).selected == s.selected,
{
    lemma_stamped(
        s.library,
        LastPlayed { kind: EntryKind::Series, entry_id, episode_id: Some(id) },
        entry_id,
        series,
        now,
    );
}

proof fn lemma_stamped(l: LibraryView, lp: LastPlayed, id: i64, e: EntryView, now: i64)
    requires
        l.tables.wf(),
        l.tables.entry(id) == Some(e),
    ensures
        ({
            let after = l.set_last_played(lp).touch_last_watched(id, now);
            &&& after.last_played() == Some(lp)
            &&& after.tables.entry(id) == Some(EntryView { last_watched_at: now, ..e })
            &&& other_entries_stay(l.tables, after.tables, id)
        }),
{
    law_last_played_kept(l, lp);
    let put = ChangeView::PutSetting {
        setting: Setting::LastPlayed,
        value: crate::db::last_played_text(lp),
    };
    let touch = ChangeView::TouchLastWatched { id, at: now };
    let t = l.tables;
    law_changes_keep_tables(t, put);
    law_changes_keep_tables(t.applied(put), touch);
    law_entry_after_change(t, put, id);
    law_entry_after_change(t.applied(put), touch, id);
    assert forall|other: i64| other != id implies #[trigger] t.applied(put).applied(touch).entry(
        other,
    ) == t.entry(other) by {
        law_entry_after_change(t, put, other);
        law_entry_after_change(t.applied(put), touch, other);
    }
}

// ---------------------------------------------------------------------
// Resuming
// ---------------------------------------------------------------------

/// A request goes on with a series: it plays an unfinished episode of it from
/// where that was left, and no unfinished episode of the series comes before it.
pub open spec fn goes_on_with(
    t: Tables,
    entry_id: i64,
    selected: Selection,
    request: Option<crate::playing::PlayRequestView>,
) -> bool {
    exists|n: EpisodeView|
        {
            &&& #[trigger] belongs(t, entry_id, n)
            &&& !n.finished
            &&& forall|x: EpisodeView| #[trigger]
                belongs(t, entry_id, x) && !x.finished ==> no_later(n, x)
            &&& selected == (Selection::Series { entry_id, episode_id: Some(n.id) })
            &&& if blank(n.link_or_path) {
                request is None
            } else {
                &&& request is Some
                &&& request->0.target == PlaybackTargetView::Episode(n.id, n.link_or_path)
                &&& request->0.start_seconds == n.resume_position
            }
        }
}

/// A request plays the last episode of a series that is watched through.
pub open spec fn plays_last(
    t: Tables,
    entry_id: i64,
    selected: Selection,
    request: Option<crate::playing::PlayRequestView>,
) -> bool {
    exists|n: EpisodeView|
        {
            &&& #[trigger] belongs(t, entry_id, n)
            &&& forall|x: EpisodeView| #[trigger] belongs(t, entry_id, x) ==> no_later(x, n)
            &&& selected == (Selection::Series { entry_id, episode_id: Some(n.id) })
            &&& !blank(n.link_or_path) ==> request is Some && request->0.target
                == PlaybackTargetView::Episode(n.id, n.link_or_path) && request->0.start_seconds
                == n.resume_position
        }
}

#[verifier::rlimit(40)]
proof fn lemma_goes_on(
    s: AppView,
    at: AppView,
    entry_id: i64,
    e: EpisodeView,
    detected: Option<Seq<char>>,
    windows: bool,
)
    requires
        s.wf(),
        belongs(s.library.tables, entry_id, e),
        s.library.tables.current_episode(entry_id) matches Some(n) ==> at.library == s.library
            && at.selected == (Selection::Series { entry_id: n.entry_id, episode_id: Some(n.id) }),
    ensures
        !e.finished ==> goes_on_with(
            s.library.tables,
            entry_id,
            at.selected,
            at.play_request(true, detected, windows),
        ),
        (forall|x: EpisodeView| #[trigger]
            belongs(s.library.tables, entry_id, x) ==> x.finished) ==> plays_last(
            s.library.tables,
            entry_id,
            at.selected,
            at.play_request(true, detected, windows),
        ),
{
    let t = s.library.tables;
    lemma_belongs(t, entry_id, e);
    if !e.finished {
        law_current_unfinished(t, entry_id, e);
        let n = t.current_episode(entry_id)->0;
        lemma_belongs(t, entry_id, n);
        assert forall|x: EpisodeView| #[trigger]
            belongs(t, entry_id, x) && !x.finished implies no_later(n, x) by {
            lemma_belongs(t, entry_id, x);
            law_current_unfinished(t, entry_id, x);
        }
        assert(belongs(t, entry_id, n));
    }
    if forall|x: EpisodeView| #[trigger] belongs(t, entry_id, x) ==> x.finished {
        assert forall|x: EpisodeView| #[trigger]
            t.episodes_of(entry_id).contains(x) implies x.finished by {
            lemma_belongs(t, entry_id, x);
        }
        law_current_when_finished(t, entry_id, e);
        let n = t.current_episode(entry_id)->0;
        lemma_belongs(t, entry_id, n);
        assert forall|x: EpisodeView| #[trigger] belongs(t, entry_id, x) implies no_later(x, n) by {
            lemma_belongs(t, entry_id, x);
            law_current_when_finished(t, entry_id, x);
        }
        assert(belongs(t, entry_id, n));
    }
}

/// Resuming what was played last: a movie from where it was left; a series with
/// its earliest unfinished episode, from where that was left, or with its last
/// one where all are finished. Getting there changes nothing in the library.
#[verifier::rlimit(40)]
pub proof fn law_last_played_resumed(
    s: AppView,
    lp: LastPlayed,
    e: EpisodeView,
    movie: EntryView,
    detected: Option<Seq<char>>,
    windows: bool,
)
    requires
        s.wf(),
        s.library.last_played() == Some(lp),
    ensures
        s.at_last_played() matches Some(at) && at.library == s.library && {
            &&& lp.kind == EntryKind::Series && belongs(s.library.tables, lp.entry_id, e)
                && !e.finished ==> goes_on_with(
                s.library.tables,
                lp.entry_id,
                at.selected,
                at.play_request(true, detected, windows),
            )
            &&& lp.kind == EntryKind::Series && belongs(s.library.tables, lp.entry_id, e) && (
            forall|x: EpisodeView| #[trigger]
                belongs(s.library.tables, lp.entry_id, x) ==> x.finished) ==> plays_last(
                s.library.tables,
                lp.entry_id,
                at.selected,
                at.play_request(true, detected, windows),
            )
            &&& lp.kind == EntryKind::Movie && s.library.tables.entry(lp.entry_id) == Some(movie)
                && movie.kind == EntryKind::Movie ==> at.selected == Selection::Movie(lp.entry_id)
                && (!blank(movie.link_or_path) ==> (at.play_request(
                true,
                detected,
                windows,
            ) matches Some(r) && r.target == PlaybackTargetView::Entry(
                lp.entry_id,
                movie.link_or_path,
            ) && r.start_seconds == movie.resume_position))
        },
{
    let t = s.library.tables;
    let at = s.at_last_played()->0;
    if lp.kind == EntryKind::Series && belongs(t, lp.entry_id, e) {
        lemma_current_is_row(t, lp.entry_id, e);
        lemma_goes_on(s, at, lp.entry_id, e, detected, windows);
    }
}

/// Where nothing was played, there is nothing to resume.
pub proof fn law_nothing_to_resume(s: AppView)
    requires
        s.library.last_played() is None,
    ensures
        s.at_last_played() is None,
{
}

/// Resuming the open entry: a movie from where it was left; a series with its
/// earliest unfinished episode, from where that was left, or with its last one
/// where all are finished. Getting there changes nothing in the library.
#[verifier::rlimit(40)]
pub proof fn law_open_entry_resumed(
    s: AppView,
    entry: EntryView,
    e: EpisodeView,
    detected: Option<Seq<char>>,
    windows: bool,
)
    requires
        s.wf(),
        s.selected.entry() == Some(entry.id),
        s.library.tables.entry(entry.id) == Some(entry),
    ensures
        entry.kind == EntryKind::Series && belongs(s.library.tables, entry.id, e) ==> (
        s.at_current() matches Some(at) && at.library == s.library && (!e.finished ==> goes_on_with(
            s.library.tables,
            entry.id,
            at.selected,
            at.play_request(true, detected, windows),
        )) && ((forall|x: EpisodeView| #[trigger]
            belongs(s.library.tables, entry.id, x) ==> x.finished) ==> plays_last(
            s.library.tables,
            entry.id,
            at.selected,
            at.play_request(true, detected, windows),
        ))),
        entry.kind == EntryKind::Movie ==> (s.at_current() matches Some(at) && at.library
            == s.library && at.selected == Selection::Movie(entry.id) && (!blank(entry.link_or_path)
            ==> (at.play_request(true, detected, windows) matches Some(r) && r.target
            == PlaybackTargetView::Entry(entry.id, entry.link_or_path) && r.start_seconds
            == entry.resume_position))),
{
    let t = s.library.tables;
    if entry.kind == EntryKind::Series && belongs(t, entry.id, e) {
        lemma_current_is_row(t, entry.id, e);
        lemma_goes_on(s, s.at_current()->0, entry.id, e, detected, windows);
    }
}

proof fn lemma_current_is_row(t: Tables, entry_id: i64, e: EpisodeView)
    requires
        t.wf(),
        belongs(t, entry_id, e),
    ensures
        t.current_episode(entry_id) matches Some(n) && belongs(t, entry_id, n),
{
    lemma_belongs(t, entry_id, e);
    if exists|x: EpisodeView| #[trigger] belongs(t, entry_id, x) && !x.finished {
        let x = choose|x: EpisodeView| #[trigger] belongs(t, entry_id, x) && !x.finished;
        lemma_belongs(t, entry_id, x);
        law_current_unfinished(t, entry_id, x);
    } else {
        assert forall|x: EpisodeView| #[trigger]
            t.episodes_of(entry_id).contains(x) implies x.finished by {
            lemma_belongs(t, entry_id, x);
        }
        law_current_when_finished(t, entry_id, e);
    }
    lemma_belongs(t, entry_id, t.current_episode(entry_id)->0);
}

// ---------------------------------------------------------------------
// After the player was closed
// ---------------------------------------------------------------------

/// A player's report says that something was watched through: nine tenths of it
/// or more.
pub open spec fn seen(status: Status) -> bool {
    status.length_seconds > 0 && 10 * status.time_seconds >= 9 * status.length_seconds
}

/// A row after it was played, told from the report.
pub open spec fn entry_seen(e: EntryView, status: Status) -> EntryView {
    if status.length_seconds > 0 {
        EntryView {
            duration: status.length_seconds,
            finished: seen(status),
            resume_position: if seen(status) {
                0
            } else {
                status.time_seconds
            },
            ..e
        }
    } else {
        e
    }
}

/// A row after it was played, told from the report.
pub open spec fn episode_seen(e: EpisodeView, status: Status) -> EpisodeView {
    if status.length_seconds > 0 {
        EpisodeView {
            duration: status.length_seconds,
            finished: seen(status),
            resume_position: if seen(status) {
                0
            } else {
                status.time_seconds
            },
            ..e
        }
    } else {
        e
    }
}

#[verifier::rlimit(40)]
proof fn lemma_ended_library(s: AppView, target: PlaybackTargetView, status: Status)
    ensures
        ({
            let after = s.playback_ended(target, status).library.tables;
            after == (Tables {
                last_played: after.last_played,
                ..s.library.played(target, status).tables
            })
        }),
{
}

/// Once the player was closed, a movie that was played has the length that was
/// reported; it is finished and has no resume point where nine tenths of it were
/// watched, and else is resumed where it was left. No other movie, no series and
/// no episode changes.
#[verifier::rlimit(40)]
pub proof fn law_only_played_movie_changes(s: AppView, id: i64, link: Seq<char>, status: Status)
    requires
        s.wf(),
    ensures
        ({
            let before = s.library.tables;
            let after = s.playback_ended(PlaybackTargetView::Entry(id, link), status).library.tables;
            &&& after.patterns == before.patterns
            &&& after.episodes == before.episodes
            &&& other_entries_stay(before, after, id)
            &&& before.entry(id) matches Some(e) ==> after.entry(id) == Some(entry_seen(e, status))
        }),
{
    let target = PlaybackTargetView::Entry(id, link);
    let t = s.library.tables;
    let mid = s.library.played(target, status).tables;
    let after = s.playback_ended(target, status).library.tables;
    lemma_ended_library(s, target, status);
    crate::outcomes::lemma_same_entries(mid, after);
    if status.length_seconds > 0 {
        let change = ChangeView::UpdateEntryResume {
            id,
            position: crate::playback::resume_point(status),
            duration: status.length_seconds,
            finished: crate::playback::watched_through(status),
        };
        assert(mid == t.applied(change));
        law_entry_after_change(t, change, id);
        assert forall|other: i64| other != id implies #[trigger] after.entry(other) == t.entry(
            other,
        ) by {
            law_entry_after_change(t, change, other);
            assert(mid.entry(other) == after.entry(other));
        }
        assert(mid.entry(id) == after.entry(id));
    }
}

/// Once the player was closed, an episode that was played has the length that was
/// reported; it is finished and has no resume point where nine tenths of it were
/// watched, and else is resumed where it was left. No other episode and no entry
/// changes.
#[verifier::rlimit(40)]
pub proof fn law_only_played_episode_changes(s: AppView, id: i64, link: Seq<char>, status: Status)
    requires
        s.wf(),
    ensures
        ({
            let before = s.library.tables;
            let after = s.playback_ended(
                PlaybackTargetView::Episode(id, link),
                status,
            ).library.tables;
            &&& after.patterns == before.patterns
            &&& after.entries == before.entries
            &&& after.unlisted == before.unlisted
            &&& other_episodes_stay(before, after, id)
            &&& before.episode(id) matches Some(e) ==> after.episode(id) == Some(
                episode_seen(e, status),
            )
        }),
{
    let target = PlaybackTargetView::Episode(id, link);
    let t = s.library.tables;
    let mid = s.library.played(target, status).tables;
    let after = s.playback_ended(target, status).library.tables;
    lemma_ended_library(s, target, status);
    crate::outcomes::lemma_same_episodes(mid, after);
    if status.length_seconds > 0 {
        let change = ChangeView::UpdateEpisodeResume {
            id,
            position: crate::playback::resume_point(status),
            duration: status.length_seconds,
            finished: crate::playback::watched_through(status),
        };
        assert(mid == t.applied(change));
        law_episode_after_change(t, change, id);
        assert forall|other: i64| other != id implies #[trigger] after.episode(other)
            == t.episode(other) by {
            law_episode_after_change(t, change, other);
            assert(mid.episode(other) == after.episode(other));
        }
        assert(mid.episode(id) == after.episode(id));
    }
}

/// The episode that follows another one: it comes after it, and none that does
/// comes before.
pub open spec fn follows(t: Tables, e: EpisodeView, n: EpisodeView) -> bool {
    &&& belongs(t, e.entry_id, n)
    &&& later(n, e)
    &&& forall|y: EpisodeView| #[trigger]
        belongs(t, e.entry_id, y) && later(y, e) ==> no_later(n, y)
}

/// The episode after another one is the first of its series that comes after it; the
/// last one of a series has none after it.
#[verifier::rlimit(40)]
pub proof fn law_following(t: Tables, id: i64, e: EpisodeView, x: EpisodeView)
    requires
        t.wf(),
        t.episode(id) == Some(e),
    ensures
        belongs(t, e.entry_id, x) && later(x, e) ==> (t.following(id) matches Some((entry_id, next))
            && entry_id == e.entry_id && (t.episode(next) matches Some(n) && n.id == next && follows(
            t,
            e,
            n,
        ))),
        (forall|y: EpisodeView| #[trigger] belongs(t, e.entry_id, y) ==> !later(y, e))
            ==> t.following(id) is None,
{
    if belongs(t, e.entry_id, x) && later(x, e) {
        lemma_belongs(t, e.entry_id, x);
        law_next_episode(t, e.entry_id, e.season, e.episode, x);
        let n = t.next_episode(e.entry_id, e.season, e.episode)->0;
        lemma_belongs(t, e.entry_id, n);
        assert forall|y: EpisodeView| #[trigger]
            belongs(t, e.entry_id, y) && later(y, e) implies no_later(n, y) by {
            lemma_belongs(t, e.entry_id, y);
            law_next_episode(t, e.entry_id, e.season, e.episode, y);
        }
    }
    if forall|y: EpisodeView| #[trigger] belongs(t, e.entry_id, y) ==> !later(y, e) {
        if let Some(n) = t.next_episode(e.entry_id, e.season, e.episode) {
            let p = crate::db::later_than(e.season, e.episode);
            let listed = t.listed_episodes(e.entry_id);
            lemma_filter_members(listed, p);
            assert(listed.filter(p)[0] == n);
            assert(p(n) && listed.contains(n));
            lemma_episode_order();
            crate::laws::lemma_sorted_contains(t.episodes_of(e.entry_id), episode_order(), n);
            lemma_belongs(t, e.entry_id, n);
        }
    }
}

#[verifier::rlimit(40)]
proof fn lemma_ended_moves(
    s: AppView,
    id: i64,
    link: Seq<char>,
    status: Status,
    n: EpisodeView,
)
    requires
        s.library.played(PlaybackTargetView::Episode(id, link), status).tables.episode(n.id)
            == Some(n),
        s.library.played(PlaybackTargetView::Episode(id, link), status).tables.following(id)
            == Some((n.entry_id, n.id)),
        seen(status),
    ensures
        ({
            let done = s.playback_ended(PlaybackTargetView::Episode(id, link), status);
            &&& done.selected == (Selection::Series {
                entry_id: n.entry_id,
                episode_id: Some(n.id),
            })
            &&& done.library.last_played() == Some(
                LastPlayed {
                    kind: EntryKind::Series,
                    entry_id: n.entry_id,
                    episode_id: Some(n.id),
                },
            )
        }),
{
    let target = PlaybackTargetView::Episode(id, link);
    let mid = s.library.played(target, status).tables;
    let done = s.playback_ended(target, status);
    lemma_ended_library(s, target, status);
    crate::outcomes::lemma_same_episodes(mid, done.library.tables);
    assert(mid.episode(n.id) == done.library.tables.episode(n.id));
    law_last_played_reads_back(
        LastPlayed { kind: EntryKind::Series, entry_id: n.entry_id, episode_id: Some(n.id) },
    );
}

#[verifier::rlimit(40)]
proof fn lemma_ended_stays(s: AppView, id: i64, link: Seq<char>, status: Status)
    requires
        !seen(status) || s.library.played(
            PlaybackTargetView::Episode(id, link),
            status,
        ).tables.following(id) is None,
    ensures
        s.playback_ended(PlaybackTargetView::Episode(id, link), status).library.last_played()
            == s.library.last_played(),
{
}

/// After an episode that was watched through, the next one of its series is
/// selected and remembered as played last: one that comes after it, with none in
/// between.
#[verifier::rlimit(40)]
pub proof fn law_next_episode_offered(
    s: AppView,
    id: i64,
    link: Seq<char>,
    e: EpisodeView,
    x: EpisodeView,
    status: Status,
)
    requires
        s.wf(),
        s.library.tables.episode(id) == Some(e),
        seen(status),
        belongs(s.library.tables, e.entry_id, x),
        later(x, e),
    ensures
        ({
            let done = s.playback_ended(PlaybackTargetView::Episode(id, link), status);
            exists|n: EpisodeView|
                {
                    &&& #[trigger] follows(s.library.tables, e, n)
                    &&& done.selected == (Selection::Series {
                        entry_id: e.entry_id,
                        episode_id: Some(n.id),
                    })
                    &&& done.library.last_played() == Some(
                        LastPlayed {
                            kind: EntryKind::Series,
                            entry_id: e.entry_id,
                            episode_id: Some(n.id),
                        },
                    )
                }
        }),
{
    let target = PlaybackTargetView::Episode(id, link);
    let t = s.library.tables;
    let mid = s.library.played(target, status).tables;
    lemma_played_episode(s.library, id, link, e, status);
    let after = episode_seen(e, status);
    assert(mid.episode(x.id) == Some(x));
    law_following(mid, id, after, x);
    let (series, next) = mid.following(id)->0;
    let n = mid.episode(next)->0;
    assert(n.id != id);
    assert(t.episode(n.id) == mid.episode(n.id));
    assert forall|y: EpisodeView| #[trigger]
        belongs(t, e.entry_id, y) && later(y, e) implies no_later(n, y) by {
        assert(y.id != id);
        assert(mid.episode(y.id) == t.episode(y.id));
        assert(belongs(mid, e.entry_id, y));
    }
    assert(follows(t, e, n));
    lemma_ended_moves(s, id, link, status, n);
}

proof fn lemma_played_episode(
    l: LibraryView,
    id: i64,
    link: Seq<char>,
    e: EpisodeView,
    status: Status,
)
    requires
        l.tables.wf(),
        l.tables.episode(id) == Some(e),
        status.length_seconds > 0,
    ensures
        ({
            let mid = l.played(PlaybackTargetView::Episode(id, link), status).tables;
            &&& mid.wf()
            &&& mid.episode(id) == Some(episode_seen(e, status))
            &&& other_episodes_stay(l.tables, mid, id)
            &&& e.id == id
        }),
{
    let t = l.tables;
    let change = ChangeView::UpdateEpisodeResume {
        id,
        position: crate::playback::resume_point(status),
        duration: status.length_seconds,
        finished: crate::playback::watched_through(status),
    };
    law_changes_keep_tables(t, change);
    law_episode_after_change(t, change, id);
    assert forall|other: i64| other != id implies #[trigger] t.applied(change).episode(other)
        == t.episode(other) by {
        law_episode_after_change(t, change, other);
    }
}

/// After an episode that was not watched through, and after the last one of a
/// series, what was played last stays.
pub proof fn law_last_played_stays(
    s: AppView,
    id: i64,
    link: Seq<char>,
    e: EpisodeView,
    status: Status,
)
    requires
        s.wf(),
        s.library.tables.episode(id) == Some(e),
        !seen(status) || forall|y: EpisodeView| #[trigger]
            belongs(s.library.tables, e.entry_id, y) ==> !later(y, e),
    ensures
        s.playback_ended(PlaybackTargetView::Episode(id, link), status).library.last_played()
            == s.library.last_played(),
{
    if seen(status) {
        let target = PlaybackTargetView::Episode(id, link);
        let t = s.library.tables;
        let mid = s.library.played(target, status).tables;
        lemma_played_episode(s.library, id, link, e, status);
        let after = episode_seen(e, status);
        assert forall|y: EpisodeView| #[trigger]
            belongs(mid, after.entry_id, y) implies !later(y, after) by {
            if y.id != id {
                assert(mid.episode(y.id) == t.episode(y.id));
                assert(belongs(t, e.entry_id, y));
            }
        }
        law_following(mid, id, after, after);
    }
    lemma_ended_stays(s, id, link, status);
}

/// After a movie what was played last stays, and so does what is selected.
#[verifier::rlimit(40)]
pub proof fn law_movie_ends_where_it_is(s: AppView, id: i64, link: Seq<char>, status: Status)
    requires
        s.wf(),
        s.selected == Selection::Movie(id),
        s.library.tables.entry(id) matches Some(e) && e.kind == EntryKind::Movie,
    ensures
        s.playback_ended(PlaybackTargetView::Entry(id, link), status).library.last_played()
            == s.library.last_played(),
        s.playback_ended(PlaybackTargetView::Entry(id, link), status).selected == s.selected,
        ({
            let seen = entry_seen(s.library.tables.entry(id)->0, status);
            s.playback_ended(PlaybackTargetView::Entry(id, link), status).detail.progress
                == crate::browsing::progress_shown(
                seen.resume_position,
                seen.duration,
                seen.finished,
            )
        }),
{
    law_only_played_movie_changes(s, id, link, status);
    let e = s.library.tables.entry(id)->0;
    assert(e.id == id);
    let after = s.playback_ended(PlaybackTargetView::Entry(id, link), status);
    assert(after.library.tables.entry(id) == Some(entry_seen(e, status)));
}

// ---------------------------------------------------------------------
// Marking by hand
// ---------------------------------------------------------------------

/// Where something stands that was marked by hand: at its end where it counts as
/// watched and its length is known, and else at its start.
pub open spec fn stands_at(duration: i64, watched: bool) -> i64 {
    if watched && duration > 0 {
        duration
    } else {
        0
    }
}

/// Marking the ticked episodes as watched, or as unwatched, makes just these so,
/// and changes nothing else of them, and nothing else.
pub proof fn law_ticked_are_marked(s: AppView, watched: bool, entry_id: i64)
    requires
        s.wf(),
        s.selected.series() == Some(entry_id),
    ensures
        ({
            let before = s.library.tables;
            let after = s.bulk_set_finished(watched).library.tables;
            &&& forall|id: i64| #[trigger]
                after.episode(id) == match before.episode(id) {
                    Some(e) => if s.bulk.selected.contains(id) {
                        Some(
                            EpisodeView {
                                finished: watched,
                                resume_position: stands_at(e.duration, watched),
                                ..e
                            },
                        )
                    } else {
                        Some(e)
                    },
                    None => None,
                }
            &&& after == (Tables { episodes: after.episodes, ..before })
        }),
        s.bulk.selected.len() > 0 ==> s.bulk_set_finished(watched).status == "Marked "@ + decimal(
            s.bulk.selected.len() as int,
        ) + " episode(s) as "@ + (if watched {
            "watched"@
        } else {
            "unwatched"@
        }) + "."@,
{
    let before = s.library.tables;
    let after = s.bulk_set_finished(watched).library.tables;
    lemma_marked_frame(s.library, s.bulk.selected, watched);
    assert forall|id: i64| #[trigger]
        after.episode(id) == match before.episode(id) {
            Some(e) => if s.bulk.selected.contains(id) {
                Some(
                    EpisodeView {
                        finished: watched,
                        resume_position: stands_at(e.duration, watched),
                        ..e
                    },
                )
            } else {
                Some(e)
            },
            None => None,
        } by {
        law_marked_episodes(s.library, s.bulk.selected, watched, id);
    }
}

proof fn lemma_marked_frame(l: LibraryView, ids: Seq<i64>, watched: bool)
    ensures
        ({
            let after = l.mark_episodes(ids, watched).tables;
            after == (Tables { episodes: after.episodes, ..l.tables })
        }),
    decreases ids.len(),
{
    if ids.len() > 0 {
        lemma_marked_frame(l, ids.drop_last(), watched);
    }
}

/// Marking the open movie makes it watched where it was not, and unwatched where
/// it was. It changes nothing else, and the pane shows it.
pub proof fn law_movie_marked(s: AppView, id: i64, e: EntryView)
    requires
        s.wf(),
        s.selected == Selection::Movie(id),
        s.library.tables.entry(id) == Some(e),
        e.kind == EntryKind::Movie,
    ensures
        ({
            let before = s.library.tables;
            let done = s.toggle_movie_watched();
            let after = done.library.tables;
            &&& after.entry(id) == Some(
                EntryView {
                    finished: !e.finished,
                    resume_position: stands_at(e.duration, !e.finished),
                    ..e
                },
            )
            &&& other_entries_stay(before, after, id)
            &&& after.episodes == before.episodes
            &&& after.patterns == before.patterns
            &&& after.last_played == before.last_played
            &&& done.selected == s.selected
            &&& done.detail.watched == !e.finished
            &&& done.status == "Marked as "@ + (if e.finished {
                "unwatched"@
            } else {
                "watched"@
            }) + "."@
        }),
{
    let t = s.library.tables;
    let change = ChangeView::UpdateEntryResume {
        id,
        position: stands_at(e.duration, !e.finished),
        duration: e.duration,
        finished: !e.finished,
    };
    law_changes_keep_tables(t, change);
    law_entry_after_change(t, change, id);
    assert forall|other: i64| other != id implies #[trigger] t.applied(change).entry(other)
        == t.entry(other) by {
        law_entry_after_change(t, change, other);
    }
    assert(e.id == id);
    assert(s.toggle_movie_watched().library.tables == t.applied(change));
}

/// Ticking an episode ticks it, or unticks it where it was ticked, and no other;
/// the number shown is that of the ticked episodes. Turning bulk-select mode off
/// unticks all.
pub proof fn law_ticking(s: AppView, id: i64, other: i64)
    requires
        s.wf(),
        s.bulk.selected.len() < usize::MAX,
    ensures
        s.toggle_bulk_selected(id).bulk.selected.contains(id) == !s.bulk.selected.contains(id),
        other != id ==> s.toggle_bulk_selected(id).bulk.selected.contains(other)
            == s.bulk.selected.contains(other),
        s.toggle_bulk_selected(id).bulk.count == s.toggle_bulk_selected(id).bulk.selected.len(),
        s.toggle_bulk_selected(id).bulk.mode == s.bulk.mode,
        s.toggle_bulk_select_mode().bulk.mode == !s.bulk.mode,
        s.bulk.mode ==> s.toggle_bulk_select_mode().bulk.selected.len() == 0,
{
    crate::marking::law_toggle_twice(s.bulk.selected, id);
    lemma_filter_len(s.bulk.selected, crate::marking::other_than(id));
}

proof fn lemma_filter_len(s: Seq<i64>, p: spec_fn(i64) -> bool)
    ensures
        s.filter(p).len() <= s.len(),
    decreases s.len(),
{
    reveal(Seq::filter);
    if s.len() > 0 {
        lemma_filter_len(s.drop_last(), p);
    }
}

} // verus!
