//! What the library keeps: movies and series, and the episodes of a series.

use vstd::prelude::*;

use crate::text::{concat3, is_blank, padded_text, same_text};

verus! {

broadcast use vstd::string::group_string_axioms;

#[derive(Debug, Clone, Copy, PartialEq, Eq, Structural)]
pub enum EntryKind {
    Movie,
    Series,
}

/// The word a kind is stored as.
pub open spec fn kind_text(kind: EntryKind) -> Seq<char> {
    match kind {
        EntryKind::Movie => "movie"@,
        EntryKind::Series => "series"@,
    }
}

/// The kind a stored word stands for; anything but `series` is a movie.
pub open spec fn kind_of(s: Seq<char>) -> EntryKind {
    if s == "series"@ {
        EntryKind::Series
    } else {
        EntryKind::Movie
    }
}

/// A word is stored for one of the kinds.
pub open spec fn is_kind(s: Seq<char>) -> bool {
    s == kind_text(EntryKind::Movie) || s == kind_text(EntryKind::Series)
}

impl EntryKind {
    /// The word a kind is stored as.
    pub fn as_str(&self) -> (res: &'static str)
        ensures
            res@ == kind_text(*self),
    {
        match self {
            EntryKind::Movie => "movie",
            EntryKind::Series => "series",
        }
    }

    /// The kind a stored word stands for.
    pub fn from_str(s: &str) -> (res: Self)
        ensures
            res == kind_of(s@),
    {
        if same_text(s, "series") {
            EntryKind::Series
        } else {
            EntryKind::Movie
        }
    }
}

/// A kind reads back from the word it is stored as.
pub proof fn law_kind_reads_back(kind: EntryKind)
    ensures
        kind_of(kind_text(kind)) == kind,
{
    reveal_strlit("movie");
    reveal_strlit("series");
    assert("movie"@.len() != "series"@.len());
}

/// A movie or a series.
#[derive(Debug)]
pub struct Entry {
    pub id: i64,
    pub title: String,
    pub kind: EntryKind,
    pub description: String,
    /// The file path or URL to play, for a movie. A series does not play from
    /// this field; there it is an optional reference link.
    pub link_or_path: String,
    /// Seconds; meaningful for movies only.
    pub resume_position: i64,
    /// Seconds; the length that was last seen.
    pub duration: i64,
    /// Played through to roughly the last tenth of its runtime, last time.
    pub finished: bool,
    /// When this was last played, as a Unix timestamp; 0 if it never was.
    pub last_watched_at: i64,
}

#[verifier::ext_equal]
pub struct EntryView {
    pub id: i64,
    pub title: Seq<char>,
    pub kind: EntryKind,
    pub description: Seq<char>,
    pub link_or_path: Seq<char>,
    pub resume_position: i64,
    pub duration: i64,
    pub finished: bool,
    pub last_watched_at: i64,
}

impl View for Entry {
    type V = EntryView;

    open spec fn view(&self) -> EntryView {
        EntryView {
            id: self.id,
            title: self.title@,
            kind: self.kind,
            description: self.description@,
            link_or_path: self.link_or_path@,
            resume_position: self.resume_position,
            duration: self.duration,
            finished: self.finished,
            last_watched_at: self.last_watched_at,
        }
    }
}

impl Clone for Entry {
    fn clone(&self) -> (res: Self)
        ensures
            res@ == self@,
    {
        Entry {
            id: self.id,
            title: self.title.clone(),
            kind: self.kind,
            description: self.description.clone(),
            link_or_path: self.link_or_path.clone(),
            resume_position: self.resume_position,
            duration: self.duration,
            finished: self.finished,
            last_watched_at: self.last_watched_at,
        }
    }
}

/// One episode of a series.
#[derive(Debug)]
pub struct Episode {
    pub id: i64,
    pub entry_id: i64,
    pub season: i32,
    pub episode: i32,
    pub title: String,
    pub description: String,
    pub link_or_path: String,
    pub resume_position: i64,
    pub duration: i64,
    /// Played through to roughly the last tenth of its runtime, last time.
    pub finished: bool,
}

#[verifier::ext_equal]
pub struct EpisodeView {
    pub id: i64,
    pub entry_id: i64,
    pub season: i32,
    pub episode: i32,
    pub title: Seq<char>,
    pub description: Seq<char>,
    pub link_or_path: Seq<char>,
    pub resume_position: i64,
    pub duration: i64,
    pub finished: bool,
}

impl View for Episode {
    type V = EpisodeView;

    open spec fn view(&self) -> EpisodeView {
        EpisodeView {
            id: self.id,
            entry_id: self.entry_id,
            season: self.season,
            episode: self.episode,
            title: self.title@,
            description: self.description@,
            link_or_path: self.link_or_path@,
            resume_position: self.resume_position,
            duration: self.duration,
            finished: self.finished,
        }
    }
}

impl Clone for Episode {
    fn clone(&self) -> (res: Self)
        ensures
            res@ == self@,
    {
        Episode {
            id: self.id,
            entry_id: self.entry_id,
            season: self.season,
            episode: self.episode,
            title: self.title.clone(),
            description: self.description.clone(),
            link_or_path: self.link_or_path.clone(),
            resume_position: self.resume_position,
            duration: self.duration,
            finished: self.finished,
        }
    }
}

/// `SxxEyy`, both numbers with at least two characters.
pub open spec fn episode_code(season: i32, episode: i32) -> Seq<char> {
    "S"@ + crate::text::zero_padded(season as int, 2) + "E"@ + crate::text::zero_padded(
        episode as int,
        2,
    )
}

/// `SxxEyy`, followed by the title unless that is blank.
pub open spec fn label_text(e: EpisodeView) -> Seq<char> {
    if crate::text::blank(e.title) {
        episode_code(e.season, e.episode)
    } else {
        episode_code(e.season, e.episode) + " - "@ + e.title
    }
}

/// The numbers of an episode can be read off its code: the season behind `S`, the
/// episode behind `E`, two digits each.
pub proof fn law_code_reads_back(season: i32, episode: i32)
    requires
        0 <= season < 100,
        0 <= episode < 100,
    ensures
        ({
            let code = episode_code(season, episode);
            &&& code.len() == 6
            &&& code[0] == 'S' && code[3] == 'E'
            &&& crate::text::digits_value(code.subrange(1, 3)) == season
            &&& crate::text::digits_value(code.subrange(4, 6)) == episode
        }),
{
    let s = crate::text::zero_padded(season as int, 2);
    let e = crate::text::zero_padded(episode as int, 2);
    reveal_strlit("S");
    reveal_strlit("E");
    reveal_with_fuel(crate::text::digits, 3);
    crate::text::lemma_natural_digits(season as nat, 2);
    crate::text::lemma_natural_digits(episode as nat, 2);
    assert(s.len() == 2 && e.len() == 2);
    let code = episode_code(season, episode);
    assert(code.subrange(1, 3) =~= s);
    assert(code.subrange(4, 6) =~= e);
}

/// An episode is named by its code, and by its title where it has one.
pub proof fn law_label_names(e: EpisodeView)
    ensures
        episode_code(e.season, e.episode).is_prefix_of(label_text(e)),
        !crate::text::blank(e.title) ==> label_text(e) == episode_code(e.season, e.episode)
            + " - "@ + e.title,
        crate::text::blank(e.title) ==> label_text(e) == episode_code(e.season, e.episode),
{
    assert(label_text(e).subrange(0, episode_code(e.season, e.episode).len() as int)
        =~= episode_code(e.season, e.episode));
}

/// Writes `SxxEyy`.
pub fn code_text(season: i32, episode: i32) -> (res: String)
    ensures
        res@ == episode_code(season, episode),
{
    let mut res = concat3("S", padded_text(season as i64, 2).as_str(), "E");
    res.append(padded_text(episode as i64, 2).as_str());
    res
}

impl Episode {
    /// The name an episode is listed under.
    pub fn label(&self) -> (res: String)
        ensures
            res@ == label_text(self@),
    {
        let base = code_text(self.season, self.episode);
        if is_blank(self.title.as_str()) {
            base
        } else {
            concat3(base.as_str(), " - ", self.title.as_str())
        }
    }
}

/// The rows a list of entries holds.
pub open spec fn entry_views(s: Seq<Entry>) -> Seq<EntryView> {
    s.map_values(|e: Entry| e@)
}

/// The rows a list of episodes holds.
pub open spec fn episode_views(s: Seq<Episode>) -> Seq<EpisodeView> {
    s.map_values(|e: Episode| e@)
}

} // verus!
