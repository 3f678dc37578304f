//! Link patterns, and finding out which episodes exist.
//!
//! In a pattern `#` stands for the season number and `*` for the episode
//! number; both may occur more than once. A probe fills in growing numbers and
//! asks, link by link, whether there is something there.

use vstd::prelude::*;

use crate::text::{
    chars_of, concat5, decimal, has_char, has_prefix, is_digit, law_zero_padded_reads_back,
    number_text, padded_text, zero_padded,
};

verus! {

broadcast use vstd::string::group_string_axioms;

/// Where a probe gives up on a pattern or a server that finds everything.
pub const MAX_SEASONS: i32 = 500;

pub const MAX_EPISODES_PER_SEASON: i32 = 2000;

// ---------------------------------------------------------------------
// Filling in a pattern
// ---------------------------------------------------------------------

/// `s` with `by` in place of every `c`.
pub open spec fn replaced(s: Seq<char>, c: char, by: Seq<char>) -> Seq<char>
    decreases s.len(),
{
    if s.len() == 0 {
        Seq::empty()
    } else {
        replaced(s.drop_last(), c, by) + if s.last() == c {
            by
        } else {
            seq![s.last()]
        }
    }
}

fn replace_char(s: &str, c: char, by: &str) -> (res: String)
    ensures
        res@ == replaced(s@, c, by@),
{
    let chars = chars_of(s);
    let mut res = String::new();
    let mut i: usize = 0;
    assert(s@.take(0) == Seq::<char>::empty());
    while i < chars.len()
        invariant
            i <= chars@.len(),
            chars@ == s@,
            res@ == replaced(s@.take(i as int), c, by@),
        decreases chars@.len() - i,
    {
        let ghost before = res@;
        assert(s@.take(i + 1).drop_last() == s@.take(i as int));
        if chars[i] == c {
            res.append(by);
        } else {
            res.push(chars[i]);
            assert(res@ == before + seq![s@[i as int]]);
        }
        i += 1;
    }
    assert(s@.take(s@.len() as int) == s@);
    res
}

/// A width of at least one.
pub open spec fn width_of(width: usize) -> int {
    if width < 1 {
        1
    } else {
        width as int
    }
}

/// The link a pattern gives for a season and an episode: every `#` is the
/// season number, every `*` the episode number, padded to their widths.
pub open spec fn rendered(
    pattern: Seq<char>,
    season: int,
    season_width: usize,
    episode: int,
    ep_width: usize,
) -> Seq<char> {
    replaced(
        replaced(pattern, '#', zero_padded(season, width_of(season_width))),
        '*',
        zero_padded(episode, width_of(ep_width)),
    )
}

/// Fills a season and an episode number into a pattern.
pub fn render(
    pattern: &str,
    season: i32,
    season_width: usize,
    episode: i32,
    ep_width: usize,
) -> (res: String)
    ensures
        res@ == rendered(pattern@, season as int, season_width, episode as int, ep_width),
{
    let sw: usize = if season_width < 1 {
        1
    } else {
        season_width
    };
    let ew: usize = if ep_width < 1 {
        1
    } else {
        ep_width
    };
    let season_text = padded_text(season as i64, sw);
    let ep_text = padded_text(episode as i64, ew);
    let with_season = replace_char(pattern, '#', season_text.as_str());
    replace_char(with_season.as_str(), '*', ep_text.as_str())
}

proof fn lemma_replaced_gone(s: Seq<char>, c: char, by: Seq<char>, d: char)
    requires
        !by.contains(d),
        d == c || !s.contains(d),
    ensures
        !replaced(s, c, by).contains(d),
    decreases s.len(),
{
    if s.len() > 0 {
        let rest = s.drop_last();
        if d != c {
            if rest.contains(d) {
                let k = choose|k: int| 0 <= k < rest.len() && rest[k] == d;
                assert(s[k] == d);
            }
        }
        lemma_replaced_gone(rest, c, by, d);
        let piece = if s.last() == c {
            by
        } else {
            seq![s.last()]
        };
        let res = replaced(rest, c, by) + piece;
        if res.contains(d) {
            let k = choose|k: int| 0 <= k < res.len() && res[k] == d;
            let cut = replaced(rest, c, by).len() as int;
            if k < cut {
                assert(replaced(rest, c, by)[k] == d);
            } else {
                assert(piece[k - cut] == d);
                if s.last() != c {
                    assert(s[s.len() - 1] == d);
                }
            }
        }
    }
}

proof fn lemma_padded_plain(n: int, width: int, c: char)
    requires
        !is_digit(c),
        c != '-',
        c != '+',
    ensures
        !zero_padded(n, width).contains(c),
{
    law_zero_padded_reads_back(n, width);
    let s = zero_padded(n, width);
    if s.contains(c) {
        let k = choose|k: int| 0 <= k < s.len() && s[k] == c;
        if s[0] == '-' || s[0] == '+' {
            assert(is_digit(s.drop_first()[k - 1]));
        } else {
            assert(is_digit(s[k]));
        }
    }
}

/// No placeholder is left in a link.
pub proof fn law_no_placeholder_left(
    pattern: Seq<char>,
    season: int,
    season_width: usize,
    episode: int,
    ep_width: usize,
)
    ensures
        !rendered(pattern, season, season_width, episode, ep_width).contains('#'),
        !rendered(pattern, season, season_width, episode, ep_width).contains('*'),
{
    let s = zero_padded(season, width_of(season_width));
    let e = zero_padded(episode, width_of(ep_width));
    lemma_padded_plain(season, width_of(season_width), '#');
    lemma_padded_plain(episode, width_of(ep_width), '#');
    lemma_padded_plain(episode, width_of(ep_width), '*');
    lemma_replaced_gone(pattern, '#', s, '#');
    lemma_replaced_gone(replaced(pattern, '#', s), '*', e, '#');
    lemma_replaced_gone(replaced(pattern, '#', s), '*', e, '*');
}

/// How often a character occurs.
spec fn occurrences(s: Seq<char>, c: char) -> nat
    decreases s.len(),
{
    if s.len() == 0 {
        0
    } else {
        occurrences(s.drop_last(), c) + if s.last() == c {
            1nat
        } else {
            0nat
        }
    }
}

proof fn lemma_replaced_len(s: Seq<char>, c: char, by: Seq<char>)
    ensures
        replaced(s, c, by).len() == s.len() - occurrences(s, c) + occurrences(s, c) * by.len(),
        occurrences(s, c) <= s.len(),
    decreases s.len(),
{
    if s.len() > 0 {
        lemma_replaced_len(s.drop_last(), c, by);
        let k = occurrences(s.drop_last(), c);
        assert((k + 1) * by.len() == k * by.len() + by.len()) by (nonlinear_arith);
    } else {
        assert(0 * by.len() == 0) by (nonlinear_arith);
    }
}

proof fn lemma_occurs(s: Seq<char>, c: char)
    requires
        s.contains(c),
    ensures
        occurrences(s, c) >= 1,
    decreases s.len(),
{
    let k = choose|k: int| 0 <= k < s.len() && s[k] == c;
    if k < s.len() - 1 {
        assert(s.drop_last()[k] == c);
        lemma_occurs(s.drop_last(), c);
    }
}

proof fn lemma_replaced_same(s: Seq<char>, c: char, a: Seq<char>, b: Seq<char>)
    requires
        s.contains(c),
        a.len() == b.len(),
        replaced(s, c, a) == replaced(s, c, b),
    ensures
        a == b,
    decreases s.len(),
{
    let rest = s.drop_last();
    lemma_replaced_len(rest, c, a);
    lemma_replaced_len(rest, c, b);
    let cut = replaced(rest, c, a).len() as int;
    let whole = replaced(s, c, a);
    assert(whole.take(cut) == replaced(rest, c, a));
    assert(whole.take(cut) == replaced(rest, c, b));
    if s.last() == c {
        assert(whole.skip(cut) == a);
        assert(whole.skip(cut) == b);
    } else {
        let k = choose|k: int| 0 <= k < s.len() && s[k] == c;
        assert(rest[k] == c);
        lemma_replaced_same(rest, c, a, b);
    }
}

proof fn lemma_replaced_keeps(s: Seq<char>, c: char, by: Seq<char>, d: char)
    requires
        s.contains(d),
        c != d,
    ensures
        replaced(s, c, by).contains(d),
    decreases s.len(),
{
    let k = choose|k: int| 0 <= k < s.len() && s[k] == d;
    let rest = s.drop_last();
    let front = replaced(rest, c, by);
    if k == s.len() - 1 {
        assert(replaced(s, c, by)[front.len() as int] == d);
    } else {
        assert(rest[k] == d);
        lemma_replaced_keeps(rest, c, by, d);
        let m = choose|m: int| 0 <= m < front.len() && front[m] == d;
        assert(replaced(s, c, by)[m] == d);
    }
}

/// Different episodes have different links, where the pattern has a place for
/// the episode number.
pub proof fn law_links_differ(
    pattern: Seq<char>,
    season: int,
    season_width: usize,
    a: int,
    b: int,
    ep_width: usize,
)
    requires
        pattern.contains('*'),
        a != b,
    ensures
        rendered(pattern, season, season_width, a, ep_width) != rendered(
            pattern,
            season,
            season_width,
            b,
            ep_width,
        ),
{
    let w = width_of(ep_width);
    let mid = replaced(pattern, '#', zero_padded(season, width_of(season_width)));
    let ta = zero_padded(a, w);
    let tb = zero_padded(b, w);
    lemma_replaced_keeps(pattern, '#', zero_padded(season, width_of(season_width)), '*');
    lemma_occurs(mid, '*');
    lemma_replaced_len(mid, '*', ta);
    lemma_replaced_len(mid, '*', tb);
    law_zero_padded_reads_back(a, w);
    law_zero_padded_reads_back(b, w);
    if replaced(mid, '*', ta) == replaced(mid, '*', tb) {
        let k = occurrences(mid, '*');
        assert(ta.len() == tb.len()) by (nonlinear_arith)
            requires
                k * ta.len() == k * tb.len(),
                k >= 1,
        ;
        lemma_replaced_same(mid, '*', ta, tb);
    }
}

proof fn lemma_replaced_none(s: Seq<char>, c: char, by: Seq<char>)
    requires
        !s.contains(c),
    ensures
        replaced(s, c, by) == s,
    decreases s.len(),
{
    if s.len() > 0 {
        let rest = s.drop_last();
        assert(s[s.len() - 1] != c);
        if rest.contains(c) {
            let k = choose|k: int| 0 <= k < rest.len() && rest[k] == c;
            assert(s[k] == c);
        }
        lemma_replaced_none(rest, c, by);
        assert(rest + seq![s.last()] =~= s);
    }
}

proof fn lemma_replaced_add(a: Seq<char>, b: Seq<char>, c: char, by: Seq<char>)
    ensures
        replaced(a + b, c, by) == replaced(a, c, by) + replaced(b, c, by),
    decreases b.len(),
{
    if b.len() > 0 {
        lemma_replaced_add(a, b.drop_last(), c, by);
        assert((a + b).drop_last() =~= a + b.drop_last());
        assert((a + b).last() == b.last());
        assert(replaced(a + b, c, by) =~= replaced(a, c, by) + replaced(b, c, by));
    } else {
        assert(a + b =~= a);
        assert(replaced(a, c, by) + replaced(b, c, by) =~= replaced(a, c, by));
    }
}

/// A link is spelled character by character: `#` is the number of the season and
/// `*` that of the episode, each with zeros in front up to its own width, and
/// everything else stands for itself.
pub proof fn law_link_spelled(
    pattern: Seq<char>,
    c: char,
    season: int,
    season_width: usize,
    episode: int,
    ep_width: usize,
)
    requires
        season_width >= 1,
        ep_width >= 1,
    ensures
        rendered(Seq::empty(), season, season_width, episode, ep_width).len() == 0,
        rendered(pattern.push(c), season, season_width, episode, ep_width) == rendered(
            pattern,
            season,
            season_width,
            episode,
            ep_width,
        ) + if c == '#' {
            zero_padded(season, season_width as int)
        } else if c == '*' {
            zero_padded(episode, ep_width as int)
        } else {
            seq![c]
        },
{
    let s = zero_padded(season, season_width as int);
    let e = zero_padded(episode, ep_width as int);
    let one = seq![c];
    assert(pattern.push(c) =~= pattern + one);
    let none = Seq::<char>::empty();
    assert(one.drop_last() =~= none);
    assert(one.last() == c);
    assert(replaced(none, '#', s) =~= none);
    assert(replaced(none, '*', e) =~= none);
    assert(none + s =~= s && none + e =~= e && none + one =~= one);
    lemma_replaced_add(pattern, one, '#', s);
    let by_season = replaced(one, '#', s);
    lemma_replaced_add(replaced(pattern, '#', s), by_season, '*', e);
    lemma_padded_plain(season, season_width as int, '*');
    if c == '#' {
        assert(by_season =~= s);
        lemma_replaced_none(s, '*', e);
    } else {
        assert(by_season =~= one);
        assert(replaced(one, '*', e) =~= if c == '*' {
            e
        } else {
            one
        });
    }
}

// ---------------------------------------------------------------------
// Checking a link
// ---------------------------------------------------------------------

/// A link that is asked for over HTTP; anything else is a path.
pub open spec fn url(link: Seq<char>) -> bool {
    "http://"@.is_prefix_of(link) || "https://"@.is_prefix_of(link)
}

/// Whether a link is asked for over HTTP.
pub fn is_url(link: &str) -> (res: bool)
    ensures
        res == url(link@),
{
    has_prefix(link, "http://") || has_prefix(link, "https://")
}

/// Whether a link leads somewhere. Of a URL that is told by the status that a
/// HEAD request was answered with, `None` if there was no answer: any success,
/// and 405, because some servers turn HEAD down. Of a path it is told by
/// whether the file exists.
pub fn verify(link: &str, head_status: Option<u16>, file_exists: bool) -> (res: bool)
    ensures
        res == if url(link@) {
            match head_status {
                Some(status) => 200 <= status < 300 || status == 405,
                None => false,
            }
        } else {
            file_exists
        },
{
    if is_url(link) {
        match head_status {
            Some(status) => (200 <= status && status < 300) || status == 405,
            None => false,
        }
    } else {
        file_exists
    }
}

// ---------------------------------------------------------------------
// Probing
// ---------------------------------------------------------------------

/// An episode whose link led somewhere.
#[derive(Debug)]
pub struct FoundEpisode {
    pub season: i32,
    pub episode: i32,
    pub link: String,
}

#[verifier::ext_equal]
pub struct FoundView {
    pub season: int,
    pub episode: int,
    pub link: Seq<char>,
}

impl View for FoundEpisode {
    type V = FoundView;

    open spec fn view(&self) -> FoundView {
        FoundView { season: self.season as int, episode: self.episode as int, link: self.link@ }
    }
}

pub open spec fn found_views(s: Seq<FoundEpisode>) -> Seq<FoundView> {
    s.map_values(|f: FoundEpisode| f@)
}

/// Why a probe gave nothing.
#[derive(Debug, Clone, Copy, PartialEq, Eq, Structural)]
pub enum ProbeError {
    /// The pattern has no place for the episode number.
    NoPlaceholder,
    /// Not even the first link of the series led somewhere.
    NothingFound { season: i32, episode: i32 },
    /// Not even the first link of the season led somewhere.
    NothingInSeason { season: i32, episode: i32 },
}

pub open spec fn probe_error_text(e: ProbeError) -> Seq<char> {
    match e {
        ProbeError::NoPlaceholder =>
            "pattern must contain a '*' placeholder for the episode number"@,
        ProbeError::NothingFound { season, episode } =>
            "no episodes found - the very first link (season "@ + decimal(season as int)
            + ", episode "@ + decimal(episode as int)
            + ") didn't verify. Check the pattern and starting numbers."@,
        ProbeError::NothingInSeason { season, episode } =>
            "no episodes found - the first link (season "@ + decimal(season as int)
            + ", episode "@ + decimal(episode as int)
            + ") didn't verify. Check the pattern and starting episode number."@,
    }
}

impl ProbeError {
    /// What the user is told.
    pub fn message(&self) -> (res: String)
        ensures
            res@ == probe_error_text(*self),
    {
        match self {
            ProbeError::NoPlaceholder =>
                "pattern must contain a '*' placeholder for the episode number".to_owned(),
            ProbeError::NothingFound { season, episode } => concat5(
                "no episodes found - the very first link (season ",
                number_text(*season as i64).as_str(),
                ", episode ",
                number_text(*episode as i64).as_str(),
                ") didn't verify. Check the pattern and starting numbers.",
            ),
            ProbeError::NothingInSeason { season, episode } => concat5(
                "no episodes found - the first link (season ",
                number_text(*season as i64).as_str(),
                ", episode ",
                number_text(*episode as i64).as_str(),
                ") didn't verify. Check the pattern and starting episode number.",
            ),
        }
    }
}

/// A probe under way: the link that is asked for next, and what was found.
pub struct Probe {
    pattern: String,
    /// Go on with the next season after this one.
    seasons: bool,
    /// Started for a series, not for one season of it.
    series: bool,
    season_start: i32,
    season_width: usize,
    ep_start: i32,
    ep_width: usize,
    season: i32,
    episode: i32,
    rows: Vec<FoundEpisode>,
    done: bool,
}

#[verifier::ext_equal]
pub struct ProbeView {
    pub pattern: Seq<char>,
    pub seasons: bool,
    pub series: bool,
    pub season_start: int,
    pub season_width: usize,
    pub ep_start: int,
    pub ep_width: usize,
    pub season: int,
    pub episode: int,
    pub rows: Seq<FoundView>,
    pub done: bool,
}

impl View for Probe {
    type V = ProbeView;

    closed spec fn view(&self) -> ProbeView {
        ProbeView {
            pattern: self.pattern@,
            seasons: self.seasons,
            series: self.series,
            season_start: self.season_start as int,
            season_width: self.season_width,
            ep_start: self.ep_start as int,
            ep_width: self.ep_width,
            season: self.season as int,
            episode: self.episode as int,
            rows: found_views(self.rows@),
            done: self.done,
        }
    }
}

/// The answer to "does the link of this season and episode lead somewhere?".
pub type Answers = spec_fn(int, int) -> bool;

/// How many episodes in a row are there, from `episode` on, `left` at most.
pub open spec fn run_length(answers: Answers, season: int, episode: int, left: nat) -> nat
    decreases left,
{
    if left == 0 || !answers(season, episode) {
        0
    } else {
        1 + run_length(answers, season, episode + 1, (left - 1) as nat)
    }
}

impl ProbeView {
    pub open spec fn wf(self) -> bool {
        &&& self.ep_start <= self.episode
        &&& self.season_start <= self.season
        &&& !self.done ==> self.episode - self.ep_start < MAX_EPISODES_PER_SEASON
        &&& !self.done ==> self.season - self.season_start < MAX_SEASONS
    }

    pub open spec fn link_at(self, season: int, episode: int) -> Seq<char> {
        rendered(self.pattern, season, self.season_width, episode, self.ep_width)
    }

    pub open spec fn row_at(self, season: int, episode: int) -> FoundView {
        FoundView { season, episode, link: self.link_at(season, episode) }
    }

    /// The season is over; `found` says whether anything was found in it.
    pub open spec fn season_over(self, found: bool) -> ProbeView {
        if !self.seasons || !found {
            ProbeView { done: true, ..self }
        } else if self.season + 1 - self.season_start >= MAX_SEASONS {
            ProbeView { season: self.season + 1, done: true, ..self }
        } else {
            ProbeView { season: self.season + 1, episode: self.ep_start, ..self }
        }
    }

    /// The probe after the answer for the link it asked for.
    pub open spec fn after(self, ok: bool) -> ProbeView {
        if self.done {
            self
        } else if !ok {
            self.season_over(self.episode > self.ep_start)
        } else {
            let next = ProbeView {
                rows: self.rows.push(self.row_at(self.season, self.episode)),
                episode: self.episode + 1,
                ..self
            };
            if next.episode - next.ep_start >= MAX_EPISODES_PER_SEASON {
                next.season_over(true)
            } else {
                next
            }
        }
    }

    /// The numbers that come next after an answer still fit in an `i32`.
    pub open spec fn in_range_after(self, ok: bool) -> bool {
        &&& self.after(ok).episode <= i32::MAX
        &&& ok ==> self.episode + 1 <= i32::MAX
        &&& self.after(ok).season <= i32::MAX
    }

    /// The rows of a season from `episode` on.
    pub open spec fn rows_from(self, answers: Answers, season: int, episode: int) -> Seq<
        FoundView,
    > {
        Seq::new(
            run_length(
                answers,
                season,
                episode,
                (MAX_EPISODES_PER_SEASON - (episode - self.ep_start)) as nat,
            ),
            |i: int| self.row_at(season, episode + i),
        )
    }

    /// The rows of a season and of those after it, until one has none,
    /// `left` seasons at most.
    pub open spec fn seasons_from(self, answers: Answers, season: int, left: nat) -> Seq<FoundView>
        decreases left,
    {
        if left == 0 {
            Seq::empty()
        } else {
            let rows = self.rows_from(answers, season, self.ep_start);
            if self.seasons && rows.len() > 0 {
                rows + self.seasons_from(answers, season + 1, (left - 1) as nat)
            } else {
                rows
            }
        }
    }

    /// All that will have been found when the probe is done.
    pub open spec fn goal(self, answers: Answers) -> Seq<FoundView> {
        if self.done {
            self.rows
        } else {
            let here = self.rows_from(answers, self.season, self.episode);
            let left = (MAX_SEASONS - (self.season - self.season_start) - 1) as nat;
            if self.seasons && (here.len() > 0 || self.episode > self.ep_start) {
                self.rows + here + self.seasons_from(answers, self.season + 1, left)
            } else {
                self.rows + here
            }
        }
    }

    /// An upper bound of the links that are still asked for.
    pub open spec fn links_left(self) -> nat {
        if self.done {
            0
        } else {
            ((MAX_SEASONS - (self.season - self.season_start)) * (MAX_EPISODES_PER_SEASON + 1) - (
            self.episode - self.ep_start)) as nat
        }
    }

    /// The probe when it is done, or after `steps` links.
    pub open spec fn run(self, answers: Answers, steps: nat) -> ProbeView
        decreases steps,
    {
        if self.done || steps == 0 {
            self
        } else {
            self.after(answers(self.season, self.episode)).run(answers, (steps - 1) as nat)
        }
    }
}

pub open spec fn probe_start(
    pattern: Seq<char>,
    series: bool,
    season: i32,
    season_width: usize,
    ep_start: i32,
    ep_width: usize,
) -> ProbeView {
    ProbeView {
        pattern,
        seasons: series && pattern.contains('#'),
        series,
        season_start: season as int,
        season_width,
        ep_start: ep_start as int,
        ep_width,
        season: season as int,
        episode: ep_start as int,
        rows: Seq::empty(),
        done: false,
    }
}

/// Starts a probe for a series. Seasons are tried one after the other where the
/// pattern has a place for the season number.
pub fn probe(
    pattern: &str,
    season_start: i32,
    season_width: usize,
    ep_start: i32,
    ep_width: usize,
) -> (res: Result<Probe, ProbeError>)
    ensures
        match res {
            Ok(p) => {
                &&& pattern@.contains('*')
                &&& p.wf()
                &&& p@ == probe_start(
                    pattern@,
                    true,
                    season_start,
                    season_width,
                    ep_start,
                    ep_width,
                )
            },
            Err(e) => !pattern@.contains('*') && e == ProbeError::NoPlaceholder,
        },
{
    if !has_char(pattern, '*') {
        return Err(ProbeError::NoPlaceholder);
    }
    let seasons = has_char(pattern, '#');
    Ok(Probe::start(pattern, seasons, true, season_start, season_width, ep_start, ep_width))
}

/// Starts a probe for exactly one season.
pub fn probe_season(
    pattern: &str,
    season: i32,
    season_width: usize,
    ep_start: i32,
    ep_width: usize,
) -> (res: Result<Probe, ProbeError>)
    ensures
        match res {
            Ok(p) => {
                &&& pattern@.contains('*')
                &&& p.wf()
                &&& p@ == probe_start(pattern@, false, season, season_width, ep_start, ep_width)
            },
            Err(e) => !pattern@.contains('*') && e == ProbeError::NoPlaceholder,
        },
{
    if !has_char(pattern, '*') {
        return Err(ProbeError::NoPlaceholder);
    }
    Ok(Probe::start(pattern, false, false, season, season_width, ep_start, ep_width))
}

impl Probe {
    pub open spec fn wf(self) -> bool {
        self@.wf()
    }

    fn start(
        pattern: &str,
        seasons: bool,
        series: bool,
        season: i32,
        season_width: usize,
        ep_start: i32,
        ep_width: usize,
    ) -> (res: Probe)
        ensures
            res.wf(),
            res@ == (ProbeView {
                seasons,
                ..probe_start(pattern@, series, season, season_width, ep_start, ep_width)
            }),
    {
        let res = Probe {
            pattern: pattern.to_owned(),
            seasons,
            series,
            season_start: season,
            season_width,
            ep_start,
            ep_width,
            season,
            episode: ep_start,
            rows: Vec::new(),
            done: false,
        };
        assert(res@.rows == Seq::<FoundView>::empty());
        res
    }

    /// The season, the episode and the link that are asked for next; `None` when
    /// the probe is done.
    pub fn next_link(&self) -> (res: Option<FoundEpisode>)
        ensures
            match res {
                Some(f) => !self@.done && f@ == self@.row_at(self@.season, self@.episode),
                None => self@.done,
            },
    {
        if self.done {
            return None;
        }
        let link = render(
            self.pattern.as_str(),
            self.season,
            self.season_width,
            self.episode,
            self.ep_width,
        );
        Some(FoundEpisode { season: self.season, episode: self.episode, link })
    }

    /// Whether the numbers that come next after an answer fit in an `i32`.
    pub fn fits_after(&self, ok: bool) -> (res: bool)
        requires
            self.wf(),
        ensures
            res == self@.in_range_after(ok),
    {
        if self.done {
            return !(ok && self.episode == i32::MAX);
        }
        if ok && self.episode == i32::MAX {
            return false;
        }
        let full: bool = ok && self.episode as i64 + 1 - self.ep_start as i64
            >= MAX_EPISODES_PER_SEASON as i64;
        let over: bool = !ok || full;
        let found: bool = ok || self.episode > self.ep_start;
        !(over && self.seasons && found && self.season == i32::MAX)
    }

    /// Takes the answer for the link that was asked for.
    pub fn record(&mut self, ok: bool)
        requires
            old(self).wf(),
            old(self)@.in_range_after(ok),
        ensures
            final(self).wf(),
            final(self)@ == old(self)@.after(ok),
    {
        if self.done {
            return;
        }
        let ghost before = self@;
        let mut found: bool = self.episode > self.ep_start;
        if ok {
            let link = render(
                self.pattern.as_str(),
                self.season,
                self.season_width,
                self.episode,
                self.ep_width,
            );
            self.rows.push(FoundEpisode { season: self.season, episode: self.episode, link });
            assert(found_views(self.rows@) == before.rows.push(
                before.row_at(before.season, before.episode),
            ));
            self.episode += 1;
            found = true;
            if (self.episode as i64) - (self.ep_start as i64) < MAX_EPISODES_PER_SEASON as i64 {
                return;
            }
        }
        if !self.seasons || !found {
            self.done = true;
            return;
        }
        self.season += 1;
        if self.season as i64 - self.season_start as i64 >= MAX_SEASONS as i64 {
            self.done = true;
        } else {
            self.episode = self.ep_start;
        }
    }

    /// What was found, in season-then-episode order.
    pub fn finish(self) -> (res: Result<Vec<FoundEpisode>, ProbeError>)
        ensures
            match res {
                Ok(rows) => found_views(rows@) == self@.rows && rows@.len() > 0,
                Err(e) => self@.rows.len() == 0 && e == self@.nothing(),
            },
    {
        assert(self@.rows.len() == self.rows@.len());
        if self.rows.len() == 0 {
            if self.series {
                Err(
                    ProbeError::NothingFound { season: self.season_start, episode: self.ep_start },
                )
            } else {
                Err(
                    ProbeError::NothingInSeason {
                        season: self.season_start,
                        episode: self.ep_start,
                    },
                )
            }
        } else {
            Ok(self.rows)
        }
    }
}

impl ProbeView {
    /// The error of a probe that found nothing.
    pub open spec fn nothing(self) -> ProbeError {
        if self.series {
            ProbeError::NothingFound {
                season: self.season_start as i32,
                episode: self.ep_start as i32,
            }
        } else {
            ProbeError::NothingInSeason {
                season: self.season_start as i32,
                episode: self.ep_start as i32,
            }
        }
    }
}

proof fn lemma_seasons_from_same(a: ProbeView, b: ProbeView, answers: Answers, season: int, left: nat)
    requires
        a.pattern == b.pattern,
        a.seasons == b.seasons,
        a.season_width == b.season_width,
        a.ep_start == b.ep_start,
        a.ep_width == b.ep_width,
    ensures
        a.seasons_from(answers, season, left) == b.seasons_from(answers, season, left),
    decreases left,
{
    if left > 0 {
        lemma_seasons_from_same(a, b, answers, season + 1, (left - 1) as nat);
        assert(a.rows_from(answers, season, a.ep_start) == b.rows_from(
            answers,
            season,
            b.ep_start,
        ));
    }
}

/// An answer brings a probe closer to its end, and what it will have found
/// stays the same.
pub proof fn law_probe_step(p: ProbeView, answers: Answers)
    requires
        p.wf(),
        !p.done,
    ensures
        ({
            let q = p.after(answers(p.season, p.episode));
            &&& q.wf()
            &&& q.goal(answers) == p.goal(answers)
            &&& q.links_left() < p.links_left()
        }),
{
    let ok = answers(p.season, p.episode);
    let q = p.after(ok);
    let left = (MAX_SEASONS - (p.season - p.season_start) - 1) as nat;
    let here = p.rows_from(answers, p.season, p.episode);
    let there = p.seasons_from(answers, p.season + 1, left);
    if !ok {
        assert(here == Seq::<FoundView>::empty());
        assert(p.rows + here == p.rows);
        if !q.done {
            lemma_seasons_from_same(p, q, answers, p.season + 1, left);
            lemma_goal_at_start(q, answers);
        } else if p.seasons && p.episode > p.ep_start {
            assert(left == 0);
            assert(there == Seq::<FoundView>::empty());
        }
    } else {
        let row = p.row_at(p.season, p.episode);
        let next = ProbeView { rows: p.rows.push(row), episode: p.episode + 1, ..p };
        let rest = next.rows_from(answers, p.season, p.episode + 1);
        assert(here == seq![row] + rest);
        assert(p.rows + here == next.rows + rest);
        if next.episode - next.ep_start >= MAX_EPISODES_PER_SEASON {
            assert(rest == Seq::<FoundView>::empty());
            assert(next.rows + rest == next.rows);
            if !q.done {
                lemma_seasons_from_same(p, q, answers, p.season + 1, left);
                lemma_goal_at_start(q, answers);
            } else if p.seasons {
                assert(left == 0);
                assert(there == Seq::<FoundView>::empty());
            }
        } else {
            lemma_seasons_from_same(p, q, answers, p.season + 1, left);
        }
    }
}

proof fn lemma_goal_at_start(p: ProbeView, answers: Answers)
    requires
        p.wf(),
        !p.done,
        p.episode == p.ep_start,
    ensures
        p.goal(answers) == p.rows + p.seasons_from(
            answers,
            p.season,
            (MAX_SEASONS - (p.season - p.season_start)) as nat,
        ),
{
    let left = (MAX_SEASONS - (p.season - p.season_start)) as nat;
    let here = p.rows_from(answers, p.season, p.episode);
    if p.seasons && here.len() > 0 {
        let there = p.seasons_from(answers, p.season + 1, (left - 1) as nat);
        assert(p.rows + here + there == p.rows + (here + there));
    }
}

proof fn lemma_probe_ends(p: ProbeView, answers: Answers, steps: nat)
    requires
        p.wf(),
        p.links_left() <= steps,
    ensures
        p.run(answers, steps).done,
        p.run(answers, steps).rows == p.goal(answers),
    decreases steps,
{
    if !p.done {
        law_probe_step(p, answers);
        lemma_probe_ends(
            p.after(answers(p.season, p.episode)),
            answers,
            (steps - 1) as nat,
        );
    }
}

/// A probe comes to an end, and has then found, season after season, the
/// episodes up to the first one that is not there, and no season after the
/// first one without any.
pub proof fn law_probe_finds(
    pattern: Seq<char>,
    series: bool,
    season: i32,
    season_width: usize,
    ep_start: i32,
    ep_width: usize,
    answers: Answers,
)
    ensures
        ({
            let p = probe_start(pattern, series, season, season_width, ep_start, ep_width);
            let end = p.run(answers, p.links_left());
            &&& end.done
            &&& end.rows == p.seasons_from(answers, season as int, MAX_SEASONS as nat)
        }),
{
    let p = probe_start(pattern, series, season, season_width, ep_start, ep_width);
    lemma_probe_ends(p, answers, p.links_left());
    lemma_goal_at_start(p, answers);
    let rows = p.seasons_from(answers, season as int, MAX_SEASONS as nat);
    assert(p.rows + rows == rows);
}

proof fn lemma_run_length(answers: Answers, season: int, episode: int, left: nat)
    ensures
        run_length(answers, season, episode, left) <= left,
        forall|i: int|
            0 <= i < run_length(answers, season, episode, left) ==> #[trigger] answers(
                season,
                episode + i,
            ),
        run_length(answers, season, episode, left) < left ==> !answers(
            season,
            episode + run_length(answers, season, episode, left),
        ),
    decreases left,
{
    if left > 0 && answers(season, episode) {
        let rest = run_length(answers, season, episode + 1, (left - 1) as nat);
        lemma_run_length(answers, season, episode + 1, (left - 1) as nat);
        assert forall|i: int| 0 <= i < 1 + rest implies #[trigger] answers(
            season,
            episode + i,
        ) by {
            if i > 0 {
                assert(answers(season, (episode + 1) + (i - 1)));
            }
        }
        assert(episode + 1 + rest == episode + (1 + rest));
    }
}

/// Of a season everything is found up to the first episode that is not there,
/// or up to the limit, and nothing else.
pub proof fn law_season_rows(p: ProbeView, answers: Answers, season: int)
    ensures
        ({
            let rows = p.rows_from(answers, season, p.ep_start);
            &&& rows.len() <= MAX_EPISODES_PER_SEASON
            &&& forall|i: int|
                0 <= i < rows.len() ==> #[trigger] rows[i] == p.row_at(season, p.ep_start + i)
                    && answers(season, p.ep_start + i)
            &&& rows.len() < MAX_EPISODES_PER_SEASON ==> !answers(
                season,
                p.ep_start + rows.len(),
            )
        }),
{
    lemma_run_length(answers, season, p.ep_start, MAX_EPISODES_PER_SEASON as nat);
}

/// Every link that was found was asked for and led somewhere.
pub proof fn law_found_rows_verified(p: ProbeView, answers: Answers, season: int, left: nat)
    ensures
        forall|i: int|
            0 <= i < p.seasons_from(answers, season, left).len() ==> {
                let row = #[trigger] p.seasons_from(answers, season, left)[i];
                answers(row.season, row.episode) && row.link == p.link_at(row.season, row.episode)
            },
    decreases left,
{
    if left > 0 {
        let rows = p.rows_from(answers, season, p.ep_start);
        law_season_rows(p, answers, season);
        law_found_rows_verified(p, answers, season + 1, (left - 1) as nat);
        assert forall|i: int| 0 <= i < p.seasons_from(answers, season, left).len() implies {
            let row = #[trigger] p.seasons_from(answers, season, left)[i];
            answers(row.season, row.episode) && row.link == p.link_at(row.season, row.episode)
        } by {
            if i < rows.len() {
                assert(p.seasons_from(answers, season, left)[i] == rows[i]);
            } else {
                assert(p.seasons_from(answers, season, left)[i] == p.seasons_from(
                    answers,
                    season + 1,
                    (left - 1) as nat,
                )[i - rows.len()]);
            }
        }
    }
}

/// An episode that a probe gets to and finds: every episode before it in its season
/// is there, and every season before has a first episode. Only where seasons are
/// tried is there more than one, `left` at most.
pub open spec fn reached(
    answers: Answers,
    first: int,
    left: nat,
    ep_start: int,
    seasons: bool,
    season: int,
    episode: int,
) -> bool {
    &&& first <= season < first + left
    &&& seasons || season == first
    &&& ep_start <= episode < ep_start + 2000
    &&& forall|q: int| first <= q <= season ==> #[trigger] answers(q, ep_start)
    &&& forall|x: int| ep_start <= x <= episode ==> #[trigger] answers(season, x)
}

/// Rows hold an episode.
pub open spec fn holds_row(rows: Seq<FoundView>, season: int, episode: int) -> bool {
    exists|i: int|
        0 <= i < rows.len() && (#[trigger] rows[i]).season == season && rows[i].episode == episode
}

/// Rows stand season after season, and in a season episode after episode.
pub open spec fn rows_ascend(rows: Seq<FoundView>) -> bool {
    forall|i: int, j: int|
        #![trigger rows[i], rows[j]]
        0 <= i < j < rows.len() ==> rows[i].season < rows[j].season || (rows[i].season
            == rows[j].season && rows[i].episode < rows[j].episode)
}

#[verifier::rlimit(40)]
proof fn lemma_seasons_hold(
    p: ProbeView,
    answers: Answers,
    first: int,
    left: nat,
    season: int,
    episode: int,
)
    ensures
        holds_row(p.seasons_from(answers, first, left), season, episode) <==> reached(
            answers,
            first,
            left,
            p.ep_start,
            p.seasons,
            season,
            episode,
        ),
    decreases left,
{
    let all = p.seasons_from(answers, first, left);
    if left > 0 {
        let rows = p.rows_from(answers, first, p.ep_start);
        let rest = p.seasons_from(answers, first + 1, (left - 1) as nat);
        law_season_rows(p, answers, first);
        lemma_seasons_hold(p, answers, first + 1, (left - 1) as nat, season, episode);
        let more = p.seasons && rows.len() > 0;
        assert(all == if more {
            rows + rest
        } else {
            rows
        });
        if rows.len() > 0 {
            assert(rows[0] == p.row_at(first, p.ep_start + 0) && answers(first, p.ep_start + 0));
            assert(answers(first, p.ep_start));
        }
        if holds_row(all, season, episode) {
            let i = choose|i: int|
                0 <= i < all.len() && (#[trigger] all[i]).season == season && all[i].episode
                    == episode;
            if i < rows.len() {
                assert(all[i] == rows[i]);
                assert forall|x: int| p.ep_start <= x <= episode implies #[trigger] answers(
                    season,
                    x,
                ) by {
                    let k = x - p.ep_start;
                    assert(rows[k] == p.row_at(first, p.ep_start + k));
                    assert(answers(first, p.ep_start + k));
                }
            } else {
                assert(all[i] == rest[i - rows.len()]);
                assert(holds_row(rest, season, episode));
                assert forall|q: int| first <= q <= season implies #[trigger] answers(
                    q,
                    p.ep_start,
                ) by {}
            }
        }
        if reached(answers, first, left, p.ep_start, p.seasons, season, episode) {
            assert(answers(first, p.ep_start));
            if rows.len() == 0 {
                assert(!answers(first, p.ep_start + rows.len()));
            }
            if season == first {
                let k = episode - p.ep_start;
                if k >= rows.len() {
                    assert(!answers(first, p.ep_start + rows.len()));
                }
                assert(all[k] == rows[k]);
                assert(rows[k] == p.row_at(first, p.ep_start + k));
            } else {
                assert(reached(
                    answers,
                    first + 1,
                    (left - 1) as nat,
                    p.ep_start,
                    p.seasons,
                    season,
                    episode,
                ));
                let i = choose|i: int|
                    0 <= i < rest.len() && (#[trigger] rest[i]).season == season && rest[i].episode
                        == episode;
                assert(all[rows.len() + i] == rest[i]);
            }
        }
    }
}

#[verifier::rlimit(40)]
proof fn lemma_seasons_ascend(p: ProbeView, answers: Answers, first: int, left: nat)
    ensures
        rows_ascend(p.seasons_from(answers, first, left)),
        forall|i: int|
            0 <= i < p.seasons_from(answers, first, left).len() ==> first <= (
            #[trigger] p.seasons_from(answers, first, left)[i]).season,
    decreases left,
{
    let all = p.seasons_from(answers, first, left);
    if left > 0 {
        let rows = p.rows_from(answers, first, p.ep_start);
        let rest = p.seasons_from(answers, first + 1, (left - 1) as nat);
        law_season_rows(p, answers, first);
        lemma_seasons_ascend(p, answers, first + 1, (left - 1) as nat);
        assert forall|i: int| 0 <= i < all.len() implies if i < rows.len() {
            #[trigger] all[i] == p.row_at(first, p.ep_start + i)
        } else {
            all[i] == rest[i - rows.len()]
        } by {
            if i < rows.len() {
                assert(all[i] == rows[i]);
            }
        }
        assert forall|i: int, j: int|
            #![trigger all[i], all[j]]
            0 <= i < j < all.len() implies all[i].season < all[j].season || (all[i].season
            == all[j].season && all[i].episode < all[j].episode) by {
            if i >= rows.len() {
                assert(rest[i - rows.len()].season < rest[j - rows.len()].season || (
                rest[i - rows.len()].season == rest[j - rows.len()].season
                    && rest[i - rows.len()].episode < rest[j - rows.len()].episode));
            } else if j >= rows.len() {
                assert(rest[j - rows.len()].season >= first + 1);
            }
        }
    }
}

/// A probe that ran to its end has found just the episodes that it gets to, each
/// with its link, season after season and episode after episode. Seasons are tried
/// one after the other for a series whose pattern has a place for the season
/// number, five hundred at most; else only the season it starts with is.
pub proof fn law_probe_finds_all(
    pattern: Seq<char>,
    series: bool,
    season: i32,
    season_width: usize,
    ep_start: i32,
    ep_width: usize,
    answers: Answers,
    at_season: int,
    at_episode: int,
)
    ensures
        ({
            let p = probe_start(pattern, series, season, season_width, ep_start, ep_width);
            let rows = p.run(answers, p.links_left()).rows;
            &&& holds_row(rows, at_season, at_episode) <==> reached(
                answers,
                season as int,
                500,
                ep_start as int,
                series && pattern.contains('#'),
                at_season,
                at_episode,
            )
            &&& rows_ascend(rows)
            &&& forall|i: int|
                0 <= i < rows.len() ==> (#[trigger] rows[i]).link == rendered(
                    pattern,
                    rows[i].season,
                    season_width,
                    rows[i].episode,
                    ep_width,
                )
        }),
{
    let p = probe_start(pattern, series, season, season_width, ep_start, ep_width);
    law_probe_finds(pattern, series, season, season_width, ep_start, ep_width, answers);
    lemma_seasons_hold(p, answers, season as int, 500, at_season, at_episode);
    lemma_seasons_ascend(p, answers, season as int, 500);
    law_found_rows_verified(p, answers, season as int, 500);
}

} // verus!
