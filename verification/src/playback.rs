//! What is played, how far it got, and when it counts as finished.

use vstd::prelude::*;

use crate::db::{update_entry_resume, update_episode_resume};
use crate::tables::{Library, LibraryView};
use crate::text::{
    all_digits, concat3, concat5, decimal, digits, digits_value, is_digit, lemma_natural_digits,
    number_text, padded_text, zero_padded,
};
use crate::vlc::Status;

verus! {

broadcast use vstd::string::group_string_axioms;

// ---------------------------------------------------------------------
// Times as texts
// ---------------------------------------------------------------------

/// A time in seconds, a negative one counted as none.
pub open spec fn clamped(total_seconds: int) -> int {
    if total_seconds < 0 {
        0
    } else {
        total_seconds
    }
}

/// A time in seconds as `minutes:seconds`, or `hours:minutes:seconds` from one
/// hour on. A negative time counts as none.
pub open spec fn duration_text(total_seconds: int) -> Seq<char> {
    let total = clamped(total_seconds);
    let hours = total / 3600;
    let minutes = total % 3600 / 60;
    let seconds = total % 60;
    if hours > 0 {
        decimal(hours) + ":"@ + zero_padded(minutes, 2) + ":"@ + zero_padded(seconds, 2)
    } else {
        decimal(minutes) + ":"@ + zero_padded(seconds, 2)
    }
}

/// Writes a time in seconds.
pub fn format_duration(total_seconds: i64) -> (res: String)
    ensures
        res@ == duration_text(total_seconds as int),
{
    let total: i64 = if total_seconds < 0 {
        0
    } else {
        total_seconds
    };
    let hours: i64 = total / 3600;
    let minutes: i64 = (total % 3600) / 60;
    let seconds: i64 = total % 60;
    if hours > 0 {
        concat5(
            number_text(hours).as_str(),
            ":",
            padded_text(minutes, 2).as_str(),
            ":",
            padded_text(seconds, 2).as_str(),
        )
    } else {
        concat3(number_text(minutes).as_str(), ":", padded_text(seconds, 2).as_str())
    }
}

/// The parts of a text between its colons.
pub open spec fn fields(s: Seq<char>) -> Seq<Seq<char>>
    decreases s.len(),
{
    if s.len() == 0 {
        seq![Seq::empty()]
    } else {
        let before = fields(s.drop_last());
        if s.last() == ':' {
            before.push(Seq::empty())
        } else {
            before.drop_last().push(before.last().push(s.last()))
        }
    }
}

/// Fields of digits read in base 60.
pub open spec fn base_sixty(parts: Seq<Seq<char>>) -> int
    decreases parts.len(),
{
    if parts.len() == 0 {
        0
    } else {
        60 * base_sixty(parts.drop_last()) + digits_value(parts.last())
    }
}

proof fn lemma_fields_append(before: Seq<char>, part: Seq<char>)
    requires
        all_digits(part) || part.len() == 0,
    ensures
        fields(before).len() > 0,
        fields(before + part) == fields(before).drop_last().push(fields(before).last() + part),
    decreases before.len(), part.len(),
{
    if part.len() == 0 {
        if before.len() > 0 {
            lemma_fields_append(before.drop_last(), Seq::empty());
        }
        assert(before + part =~= before);
        assert(fields(before).last() + part =~= fields(before).last());
        assert(fields(before).drop_last().push(fields(before).last()) =~= fields(before));
    } else {
        let rest = part.drop_last();
        assert(is_digit(part.last())) by {
            assert(part.last() == part[part.len() - 1]);
        }
        assert forall|i: int| 0 <= i < rest.len() implies #[trigger] is_digit(rest[i]) by {
            assert(is_digit(part[i]));
        }
        lemma_fields_append(before, rest);
        let s = before + part;
        assert(s.drop_last() =~= before + rest);
        assert(s.last() == part.last());
        let last = fields(before).last();
        assert((last + rest).push(part.last()) =~= last + part);
        assert(fields(s) =~= fields(before).drop_last().push(last + part));
    }
}

/// A run of digits is one field.
proof fn lemma_one_field(part: Seq<char>)
    requires
        all_digits(part),
    ensures
        fields(part) == seq![part],
{
    lemma_fields_append(Seq::empty(), part);
    assert(Seq::<char>::empty() + part =~= part);
    assert(fields(part) =~= seq![part]);
}

/// Digits after a colon are one more field.
proof fn lemma_next_field(before: Seq<char>, part: Seq<char>)
    requires
        all_digits(part),
    ensures
        fields(before + ":"@ + part) == fields(before).push(part),
{
    reveal_strlit(":");
    let s = before + ":"@;
    assert(s.drop_last() =~= before);
    assert(s.last() == ':');
    lemma_fields_append(s, part);
    assert(Seq::<char>::empty() + part =~= part);
    assert(fields(s + part) =~= fields(before).push(part));
}

/// A number below sixty takes two digits, padded.
proof fn lemma_two_digits(n: nat)
    requires
        n < 60,
    ensures
        zero_padded(n as int, 2).len() == 2,
{
    reveal_with_fuel(digits, 3);
}

/// A time that was written reads back: its fields, three from one hour on and
/// two below, are digits; all but the first have two of them and are below
/// sixty, the first has no leading zeros; and read in base 60 they give the
/// time.
pub proof fn law_duration_reads_back(total_seconds: int)
    ensures
        ({
            let parts = fields(duration_text(total_seconds));
            &&& parts.len() == if total_seconds >= 3600 {
                3int
            } else {
                2int
            }
            &&& forall|i: int| 0 <= i < parts.len() ==> all_digits(#[trigger] parts[i])
            &&& forall|i: int|
                0 < i < parts.len() ==> (#[trigger] parts[i]).len() == 2 && digits_value(parts[i])
                    < 60
            &&& parts[0] == decimal(digits_value(parts[0]) as int)
            &&& base_sixty(parts) == clamped(total_seconds)
        }),
{
    let total = clamped(total_seconds);
    let hours = total / 3600;
    let minutes = total % 3600 / 60;
    let seconds = total % 60;
    lemma_natural_digits(hours as nat, 2);
    lemma_natural_digits(minutes as nat, 2);
    lemma_natural_digits(seconds as nat, 2);
    lemma_two_digits(minutes as nat);
    lemma_two_digits(seconds as nat);
    reveal_with_fuel(base_sixty, 4);
    let sec = zero_padded(seconds, 2);
    if hours > 0 {
        let min = zero_padded(minutes, 2);
        let hour = decimal(hours);
        lemma_one_field(hour);
        lemma_next_field(hour, min);
        lemma_next_field(hour + ":"@ + min, sec);
        let parts = seq![hour, min, sec];
        assert(seq![hour].push(min).push(sec) =~= parts);
        assert(duration_text(total_seconds) =~= hour + ":"@ + min + ":"@ + sec);
        assert(parts.drop_last() =~= seq![hour, min]);
        assert(seq![hour, min].drop_last() =~= seq![hour]);
        assert(seq![hour].drop_last() =~= Seq::empty());
        assert(base_sixty(parts) == 60 * (60 * hours + minutes) + seconds);
    } else {
        let min = decimal(minutes);
        lemma_one_field(min);
        lemma_next_field(min, sec);
        let parts = seq![min, sec];
        assert(seq![min].push(sec) =~= parts);
        assert(parts.drop_last() =~= seq![min]);
        assert(seq![min].drop_last() =~= Seq::empty());
        assert(base_sixty(parts) == 60 * minutes + seconds);
    }
}

/// Two times are written alike exactly where they are the same, negative ones
/// counted as none.
pub proof fn law_durations_differ(a: int, b: int)
    ensures
        duration_text(a) == duration_text(b) <==> clamped(a) == clamped(b),
{
    law_duration_reads_back(a);
    law_duration_reads_back(b);
}

/// How far something was watched, as `position / duration`; nothing where the
/// duration is not known. What is finished was watched to the end.
pub open spec fn progress_text(resume_position: i64, duration: i64, finished: bool) -> Seq<char> {
    if duration > 0 {
        duration_text(
            if finished {
                duration as int
            } else {
                resume_position as int
            },
        ) + " / "@ + duration_text(duration as int)
    } else {
        Seq::empty()
    }
}

/// Writes how far something was watched.
pub fn progress_string(resume_position: i64, duration: i64, finished: bool) -> (res: String)
    ensures
        res@ == progress_text(resume_position, duration, finished),
{
    if duration > 0 {
        let shown: i64 = if finished {
            duration
        } else {
            resume_position
        };
        concat3(format_duration(shown).as_str(), " / ", format_duration(duration).as_str())
    } else {
        String::new()
    }
}

// ---------------------------------------------------------------------
// What is played
// ---------------------------------------------------------------------

/// What is played: a movie or an episode, by id, and the link to it.
pub enum PlaybackTarget {
    Entry(i64, String),
    Episode(i64, String),
}

#[verifier::ext_equal]
pub enum PlaybackTargetView {
    Entry(i64, Seq<char>),
    Episode(i64, Seq<char>),
}

impl View for PlaybackTarget {
    type V = PlaybackTargetView;

    open spec fn view(&self) -> PlaybackTargetView {
        match self {
            PlaybackTarget::Entry(id, link) => PlaybackTargetView::Entry(*id, link@),
            PlaybackTarget::Episode(id, link) => PlaybackTargetView::Episode(*id, link@),
        }
    }
}

impl PlaybackTargetView {
    pub open spec fn link(self) -> Seq<char> {
        match self {
            PlaybackTargetView::Entry(_, link) => link,
            PlaybackTargetView::Episode(_, link) => link,
        }
    }

    /// The library with the progress stored where the target is.
    pub open spec fn persisted(
        self,
        library: LibraryView,
        position: i64,
        duration: i64,
        finished: bool,
    ) -> LibraryView {
        match self {
            PlaybackTargetView::Entry(id, _) => library.update_entry_resume(
                id,
                position,
                duration,
                finished,
            ),
            PlaybackTargetView::Episode(id, _) => library.update_episode_resume(
                id,
                position,
                duration,
                finished,
            ),
        }
    }
}

impl PlaybackTarget {
    /// The link or path to play.
    pub fn link(&self) -> (res: &str)
        ensures
            res@ == self@.link(),
    {
        match self {
            PlaybackTarget::Entry(_, link) => link.as_str(),
            PlaybackTarget::Episode(_, link) => link.as_str(),
        }
    }

    /// Stores how far the target was watched.
    pub fn persist(&self, library: &mut Library, position: i64, duration: i64, finished: bool)
        requires
            old(library).wf(),
        ensures
            final(library).wf(),
            final(library)@ == self@.persisted(old(library)@, position, duration, finished),
    {
        match self {
            PlaybackTarget::Entry(id, _) => update_entry_resume(
                library,
                *id,
                position,
                duration,
                finished,
            ),
            PlaybackTarget::Episode(id, _) => update_episode_resume(
                library,
                *id,
                position,
                duration,
                finished,
            ),
        }
    }
}

// ---------------------------------------------------------------------
// How far it got
// ---------------------------------------------------------------------

/// Nothing is known yet.
pub open spec fn no_status() -> Status {
    Status { time_seconds: 0, length_seconds: 0 }
}

/// What is known after another reading. A player that has played something to
/// its end goes idle and reports no length: such a reading says nothing about
/// what was played.
pub open spec fn after_reading(last: Status, reading: Status) -> Status {
    if reading.length_seconds > 0 {
        reading
    } else {
        last
    }
}

/// What is known after a number of readings.
pub open spec fn followed(readings: Seq<Status>) -> Status
    decreases readings.len(),
{
    if readings.len() == 0 {
        no_status()
    } else {
        after_reading(followed(readings.drop_last()), readings.last())
    }
}

/// Played to nine tenths of its length or further.
pub open spec fn watched_through(status: Status) -> bool {
    status.length_seconds > 0 && 10 * status.time_seconds >= 9 * status.length_seconds
}

/// Where to resume: nowhere, once it counts as finished.
pub open spec fn resume_point(status: Status) -> i64 {
    if watched_through(status) {
        0
    } else {
        status.time_seconds
    }
}

/// Something being played, and the last that is known of how far it got.
pub struct Playback {
    pub target: PlaybackTarget,
    pub last_status: Status,
}

impl Playback {
    pub fn new(target: PlaybackTarget) -> (res: Playback)
        ensures
            res.target == target,
            res.last_status == no_status(),
    {
        Playback { target, last_status: Status::default() }
    }

    /// Takes note of what the player reports.
    pub fn reading(&mut self, status: Status)
        ensures
            final(self).target == old(self).target,
            final(self).last_status == after_reading(old(self).last_status, status),
    {
        if status.length_seconds > 0 {
            self.last_status = status;
        }
    }

    /// Whether it was played far enough to count as finished.
    pub fn finished(&self) -> (res: bool)
        ensures
            res == watched_through(self.last_status),
    {
        self.last_status.length_seconds > 0 && 10 * (self.last_status.time_seconds as i128) >= 9 * (
        self.last_status.length_seconds as i128)
    }
}

/// Readings of an idle player change nothing: what is known after them is what
/// was known before.
pub proof fn law_idle_readings_ignored(readings: Seq<Status>, idle: Seq<Status>)
    requires
        forall|i: int| 0 <= i < idle.len() ==> (#[trigger] idle[i]).length_seconds <= 0,
    ensures
        followed(readings + idle) == followed(readings),
    decreases idle.len(),
{
    if idle.len() == 0 {
        assert(readings + idle == readings);
    } else {
        let all = readings + idle;
        assert(all.drop_last() == readings + idle.drop_last());
        assert(all.last() == idle.last());
        assert(idle.last() == idle[idle.len() - 1]);
        assert forall|i: int| 0 <= i < idle.drop_last().len() implies (
        #[trigger] idle.drop_last()[i]).length_seconds <= 0 by {
            assert(idle.drop_last()[i] == idle[i]);
        }
        law_idle_readings_ignored(readings, idle.drop_last());
    }
}

/// What is known is the latest reading with a length, or nothing where there
/// was none.
pub proof fn law_followed_is_latest(readings: Seq<Status>, at: int)
    requires
        -1 <= at < readings.len(),
        at >= 0 ==> readings[at].length_seconds > 0,
        forall|i: int| at < i < readings.len() ==> (#[trigger] readings[i]).length_seconds <= 0,
    ensures
        followed(readings) == if at >= 0 {
            readings[at]
        } else {
            no_status()
        },
{
    let known = readings.take(at + 1);
    let idle = readings.skip(at + 1);
    assert(readings == known + idle);
    assert forall|i: int| 0 <= i < idle.len() implies (#[trigger] idle[i]).length_seconds <= 0 by {
        assert(idle[i] == readings[at + 1 + i]);
    }
    law_idle_readings_ignored(known, idle);
    if at >= 0 {
        assert(known.last() == readings[at]);
    }
}

/// What is finished has no resume point; what is not is resumed where it was
/// left.
pub proof fn law_resume_point(status: Status)
    ensures
        watched_through(status) ==> resume_point(status) == 0,
        !watched_through(status) ==> resume_point(status) == status.time_seconds,
        status.length_seconds > 0 && status.time_seconds >= status.length_seconds
            ==> watched_through(status),
        status.length_seconds <= 0 ==> !watched_through(status),
        0 < status.length_seconds && status.time_seconds <= 0 ==> !watched_through(status),
{
}

} // verus!
