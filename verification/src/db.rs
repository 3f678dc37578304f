//! Reading and changing the library: entries, episodes, season patterns and
//! settings.

use vstd::prelude::*;

use crate::models::{
    entry_views, episode_views, kind_of, kind_text, law_kind_reads_back, Entry, EntryKind,
    EntryView, Episode, EpisodeView,
};
use crate::sorting::{
    by_key, lemma_filter_first, lemma_sorted_map, sort_rows, stable_sorted, total_preorder, Rank,
};
use crate::tables::{
    pattern_views, text_view, Change, ChangeView, Library, LibraryView, SeasonPatternView, Setting,
    Tables,
};
use crate::text::{
    chars_of, concat3, concat5, decimal, folded, folded_chars, law_decimal_reads_back,
    law_text_le_total, law_text_le_transitive, number_in, number_text, parse_i64, same_text,
    text_at_most, text_le,
};

verus! {

broadcast use vstd::string::group_string_axioms;

/// Why the library turned a request down.
#[derive(Debug, Clone, Copy, PartialEq, Eq, Structural)]
pub enum DbError {
    /// No row has that id.
    NotFound,
    /// An episode must belong to an entry that exists.
    NoSuchEntry,
    /// Every id has been handed out.
    Full,
}

pub open spec fn error_text(e: DbError) -> Seq<char> {
    match e {
        DbError::NotFound => "Query returned no rows"@,
        DbError::NoSuchEntry => "FOREIGN KEY constraint failed"@,
        DbError::Full => "database or disk is full"@,
    }
}

impl DbError {
    /// What the user is told.
    pub fn message(&self) -> (res: String)
        ensures
            res@ == error_text(*self),
    {
        match self {
            DbError::NotFound => "Query returned no rows".to_owned(),
            DbError::NoSuchEntry => "FOREIGN KEY constraint failed".to_owned(),
            DbError::Full => "database or disk is full".to_owned(),
        }
    }
}

// ---------------------------------------------------------------------
// What was played last
// ---------------------------------------------------------------------

/// Whatever was played last. It lets the landing page offer to resume it, also
/// after a restart.
#[derive(Debug, Clone, Copy, PartialEq, Eq, Structural)]
pub struct LastPlayed {
    pub kind: EntryKind,
    pub entry_id: i64,
    pub episode_id: Option<i64>,
}

/// `kind:entry:episode`, the last part empty where there is no episode.
pub open spec fn last_played_text(lp: LastPlayed) -> Seq<char> {
    kind_text(lp.kind) + ":"@ + decimal(lp.entry_id as int) + ":"@ + match lp.episode_id {
        Some(id) => decimal(id as int),
        None => Seq::empty(),
    }
}

/// What stands before and after the first colon.
pub open spec fn split_at_colon(s: Seq<char>) -> Option<(Seq<char>, Seq<char>)>
    decreases s.len(),
{
    if s.len() == 0 {
        None
    } else if s[0] == ':' {
        Some((Seq::empty(), s.drop_first()))
    } else {
        match split_at_colon(s.drop_first()) {
            Some((before, after)) => Some((seq![s[0]] + before, after)),
            None => None,
        }
    }
}

pub open spec fn i64_value(s: Seq<char>) -> Option<i64> {
    match number_in(s, true, i64::MIN as int, i64::MAX as int) {
        Some(n) => Some(n as i64),
        None => None,
    }
}

/// What a stored text says was played last: three parts between colons, the
/// second a number. A third part that is no number counts as none.
pub open spec fn last_played_value(s: Seq<char>) -> Option<LastPlayed> {
    match split_at_colon(s) {
        Some((kind, rest)) => match split_at_colon(rest) {
            Some((entry, episode)) => match i64_value(entry) {
                Some(entry_id) => Some(
                    LastPlayed {
                        kind: kind_of(kind),
                        entry_id,
                        episode_id: i64_value(episode),
                    },
                ),
                None => None,
            },
            None => None,
        },
        None => None,
    }
}

fn split_text(s: &str) -> (res: Option<(String, String)>)
    ensures
        match res {
            Some((before, after)) => split_at_colon(s@) == Some((before@, after@)),
            None => split_at_colon(s@) is None,
        },
{
    let chars = chars_of(s);
    let mut before = String::new();
    let mut i: usize = 0;
    assert(s@.skip(0) == s@);
    assert(forall|t: Seq<char>| Seq::<char>::empty() + t == t);
    while i < chars.len()
        invariant
            i <= chars@.len(),
            chars@ == s@,
            split_at_colon(s@) == match split_at_colon(s@.skip(i as int)) {
                Some((b, a)) => Some((before@ + b, a)),
                None => None,
            },
        decreases chars@.len() - i,
    {
        let ghost rest = s@.skip(i as int);
        assert(rest[0] == s@[i as int]);
        assert(rest.drop_first() == s@.skip(i + 1));
        if chars[i] == ':' {
            let mut after = String::new();
            let mut k: usize = i + 1;
            while k < chars.len()
                invariant
                    i + 1 <= k <= chars@.len(),
                    chars@ == s@,
                    after@ == s@.subrange(i + 1, k as int),
                decreases chars@.len() - k,
            {
                after.push(chars[k]);
                assert(s@.subrange(i + 1, k + 1) == s@.subrange(i + 1, k as int).push(
                    s@[k as int],
                ));
                k += 1;
            }
            assert(s@.subrange(i + 1, k as int) == rest.drop_first());
            assert(before@ + Seq::<char>::empty() == before@);
            return Some((before, after));
        }
        let ghost earlier = before@;
        before.push(chars[i]);
        assert(forall|b: Seq<char>|
            earlier + (seq![rest[0]] + b) == #[trigger] (earlier.push(rest[0]) + b));
        i += 1;
    }
    None
}

/// What a stored text says was played last.
pub fn parse_last_played(v: &str) -> (res: Option<LastPlayed>)
    ensures
        res == last_played_value(v@),
{
    let (kind, rest) = match split_text(v) {
        Some(parts) => parts,
        None => {
            return None;
        },
    };
    let (entry, episode) = match split_text(rest.as_str()) {
        Some(parts) => parts,
        None => {
            return None;
        },
    };
    match parse_i64(entry.as_str()) {
        Some(entry_id) => Some(
            LastPlayed {
                kind: EntryKind::from_str(kind.as_str()),
                entry_id,
                episode_id: parse_i64(episode.as_str()),
            },
        ),
        None => None,
    }
}

fn last_played_string(lp: &LastPlayed) -> (res: String)
    ensures
        res@ == last_played_text(*lp),
{
    let episode = match lp.episode_id {
        Some(id) => number_text(id),
        None => String::new(),
    };
    concat5(
        lp.kind.as_str(),
        ":",
        number_text(lp.entry_id).as_str(),
        ":",
        episode.as_str(),
    )
}

proof fn lemma_split_found(before: Seq<char>, after: Seq<char>)
    requires
        !before.contains(':'),
    ensures
        split_at_colon(before + seq![':'] + after) == Some((before, after)),
    decreases before.len(),
{
    let s = before + seq![':'] + after;
    if before.len() == 0 {
        assert(s.drop_first() == after);
        assert(before == Seq::<char>::empty());
    } else {
        let rest = before.drop_first();
        assert(s.drop_first() == rest + seq![':'] + after);
        assert(s[0] == before[0]);
        assert(before.contains(before[0]));
        assert(!rest.contains(':')) by {
            if rest.contains(':') {
                let k = choose|k: int| 0 <= k < rest.len() && rest[k] == ':';
                assert(before[k + 1] == ':');
            }
        }
        lemma_split_found(rest, after);
        assert(seq![s[0]] + rest == before);
    }
}

proof fn lemma_decimal_no_colon(n: int)
    ensures
        !decimal(n).contains(':'),
{
    law_decimal_reads_back(n);
    let s = decimal(n);
    if s.contains(':') {
        let k = choose|k: int| 0 <= k < s.len() && s[k] == ':';
        if s[0] == '-' {
            assert(crate::text::is_digit(s.drop_first()[k - 1]));
        } else if s[0] == '+' {
            assert(crate::text::is_digit(s.drop_first()[k - 1]));
        } else {
            assert(crate::text::is_digit(s[k]));
        }
    }
}

/// What was stored as played last reads back as it was.
pub proof fn law_last_played_reads_back(lp: LastPlayed)
    ensures
        last_played_value(last_played_text(lp)) == Some(lp),
{
    reveal_strlit("movie");
    reveal_strlit("series");
    reveal_strlit(":");
    assert(":"@ == seq![':']);
    let entry = decimal(lp.entry_id as int);
    let episode = match lp.episode_id {
        Some(id) => decimal(id as int),
        None => Seq::empty(),
    };
    let rest = entry + seq![':'] + episode;
    assert(last_played_text(lp) == kind_text(lp.kind) + seq![':'] + rest);
    assert(!kind_text(lp.kind).contains(':'));
    lemma_split_found(kind_text(lp.kind), rest);
    lemma_decimal_no_colon(lp.entry_id as int);
    lemma_split_found(entry, episode);
    law_kind_reads_back(lp.kind);
    law_decimal_reads_back(lp.entry_id as int);
    match lp.episode_id {
        Some(id) => {
            law_decimal_reads_back(id as int);
        },
        None => {
            assert(i64_value(episode) is None);
        },
    }
}

impl LibraryView {
    /// What was played last, as far as the settings say.
    pub open spec fn last_played(self) -> Option<LastPlayed> {
        match self.tables.last_played {
            Some(s) => last_played_value(s),
            None => None,
        }
    }

    pub open spec fn set_last_played(self, lp: LastPlayed) -> LibraryView {
        self.with(
            ChangeView::PutSetting { setting: Setting::LastPlayed, value: last_played_text(lp) },
        )
    }

    pub open spec fn clear_last_played(self) -> LibraryView {
        self.with(ChangeView::DeleteSetting { setting: Setting::LastPlayed })
    }

    pub open spec fn put_setting(self, setting: Setting, value: Seq<char>) -> LibraryView {
        self.with(ChangeView::PutSetting { setting, value })
    }
}

/// What was played last.
pub fn get_last_played(library: &Library) -> (res: Option<LastPlayed>)
    ensures
        res == library@.last_played(),
{
    match library.setting(Setting::LastPlayed) {
        Some(v) => parse_last_played(v.as_str()),
        None => None,
    }
}

/// Remembers what was played last.
pub fn set_last_played(
    library: &mut Library,
    kind: EntryKind,
    entry_id: i64,
    episode_id: Option<i64>,
)
    requires
        old(library).wf(),
    ensures
        final(library).wf(),
        final(library)@ == old(library)@.set_last_played(
            LastPlayed { kind, entry_id, episode_id },
        ),
{
    let value = last_played_string(&LastPlayed { kind, entry_id, episode_id });
    library.execute(Change::PutSetting { setting: Setting::LastPlayed, value });
}

/// Forgets what was played last.
pub fn clear_last_played(library: &mut Library)
    requires
        old(library).wf(),
    ensures
        final(library).wf(),
        final(library)@ == old(library)@.clear_last_played(),
{
    library.execute(Change::DeleteSetting { setting: Setting::LastPlayed });
}

fn setting_value(library: &Library, setting: Setting) -> (res: Option<String>)
    ensures
        text_view(res) == library@.tables.setting(setting),
{
    match library.setting(setting) {
        Some(v) => Some(v.clone()),
        None => None,
    }
}

/// The VLC path set in the settings. `None` means that none was ever set.
pub fn get_vlc_path(library: &Library) -> (res: Option<String>)
    ensures
        text_view(res) == library@.tables.vlc_path,
{
    setting_value(library, Setting::VlcPath)
}

/// Stores the VLC path.
pub fn set_vlc_path(library: &mut Library, path: &str)
    requires
        old(library).wf(),
    ensures
        final(library).wf(),
        final(library)@ == old(library)@.put_setting(Setting::VlcPath, path@),
{
    library.execute(Change::PutSetting { setting: Setting::VlcPath, value: path.to_owned() });
}

/// The subtitle language that VLC is asked for, `eng` for example. Empty or
/// `None` means that none is asked for.
pub fn get_subtitle_lang(library: &Library) -> (res: Option<String>)
    ensures
        text_view(res) == library@.tables.subtitle_lang,
{
    setting_value(library, Setting::SubtitleLang)
}

/// Stores the subtitle language.
pub fn set_subtitle_lang(library: &mut Library, lang: &str)
    requires
        old(library).wf(),
    ensures
        final(library).wf(),
        final(library)@ == old(library)@.put_setting(Setting::SubtitleLang, lang@),
{
    library.execute(
        Change::PutSetting { setting: Setting::SubtitleLang, value: lang.to_owned() },
    );
}

// ---------------------------------------------------------------------
// Entries
// ---------------------------------------------------------------------

/// A stored entry row: the kind as its word, the flag as a number.
pub struct EntryRow {
    pub id: i64,
    pub title: String,
    pub kind: String,
    pub description: String,
    pub link_or_path: String,
    pub resume_position: i64,
    pub duration: i64,
    pub finished: i64,
    pub last_watched_at: i64,
}

/// The entry a stored row stands for.
pub open spec fn entry_of() -> spec_fn(EntryRow) -> EntryView {
    |row: EntryRow|
        EntryView {
            id: row.id,
            title: row.title@,
            kind: kind_of(row.kind@),
            description: row.description@,
            link_or_path: row.link_or_path@,
            resume_position: row.resume_position,
            duration: row.duration,
            finished: row.finished != 0,
            last_watched_at: row.last_watched_at,
        }
}

/// The entry a stored row stands for.
pub fn row_to_entry(row: EntryRow) -> (res: Entry)
    ensures
        res@ == entry_of()(row),
        res.id == row.id,
        res.title@ == row.title@,
        row.kind@ == "series"@ ==> res.kind == EntryKind::Series,
        row.kind@ != "series"@ ==> res.kind == EntryKind::Movie,
        res.description@ == row.description@,
        res.link_or_path@ == row.link_or_path@,
        res.resume_position == row.resume_position,
        res.duration == row.duration,
        res.finished == (row.finished != 0),
        res.last_watched_at == row.last_watched_at,
{
    Entry {
        id: row.id,
        title: row.title,
        kind: EntryKind::from_str(row.kind.as_str()),
        description: row.description,
        link_or_path: row.link_or_path,
        resume_position: row.resume_position,
        duration: row.duration,
        finished: row.finished != 0,
        last_watched_at: row.last_watched_at,
    }
}

/// The entries of a kind, without those that are not listed.
pub open spec fn of_kind(kind: EntryKind, unlisted: Set<i64>) -> spec_fn(EntryView) -> bool {
    |e: EntryView| e.kind == kind && !unlisted.contains(e.id)
}

/// The order of titles, upper and lower case ASCII letters alike.
pub open spec fn title_order() -> spec_fn(EntryView, EntryView) -> bool {
    |a: EntryView, b: EntryView| text_le(folded(a.title), folded(b.title))
}

impl Tables {
    /// The entry with an id.
    pub open spec fn entry(self, id: i64) -> Option<EntryView> {
        if self.has_entry(id) {
            Some(
                self.entries[choose|i: int|
                    0 <= i < self.entries.len() && (#[trigger] self.entries[i]).id == id],
            )
        } else {
            None
        }
    }

    /// An entry is stored under the word for its kind, so that it is listed.
    pub open spec fn lists(self, e: EntryView) -> bool {
        self.entries.contains(e) && !self.unlisted.contains(e.id)
    }

    /// All entries stored under the word for a kind, by title; those with the
    /// same title by id.
    pub open spec fn listed_entries(self, kind: EntryKind) -> Seq<EntryView> {
        stable_sorted(self.entries.filter(of_kind(kind, self.unlisted)), title_order())
    }
}

/// A row found under an id is the one with that id.
pub proof fn lemma_entry_at(t: Tables, i: int)
    requires
        t.wf(),
        0 <= i < t.entries.len(),
    ensures
        t.entry(t.entries[i].id) == Some(t.entries[i]),
{
    let id = t.entries[i].id;
    let k = choose|k: int| 0 <= k < t.entries.len() && (#[trigger] t.entries[k]).id == id;
    assert(t.has_entry(id));
    if k < i {
        assert(t.entries[k].id < t.entries[i].id);
    } else if i < k {
        assert(t.entries[i].id < t.entries[k].id);
    }
}

/// Titles can be put in order.
pub proof fn lemma_title_order()
    ensures
        total_preorder(title_order()),
{
    let le = title_order();
    assert forall|x: EntryView, y: EntryView| #[trigger] le(x, y) || le(y, x) by {
        law_text_le_total(folded(x.title), folded(y.title));
    }
    assert forall|x: EntryView, y: EntryView, z: EntryView|
        #[trigger] le(x, y) && #[trigger] le(y, z) implies le(x, z) by {
        law_text_le_transitive(folded(x.title), folded(y.title), folded(z.title));
    }
}

/// What rows are sorted by: a text.
pub struct TextRank {
    pub chars: Vec<char>,
}

impl Rank for TextRank {
    open spec fn rank_le(self, other: Self) -> bool {
        text_le(self.chars@, other.chars@)
    }

    fn at_most(&self, other: &Self) -> (res: bool) {
        text_at_most(&self.chars, &other.chars)
    }
}

/// The rows without the keys they were sorted by.
pub fn without_keys<K, T>(rows: Vec<(K, T)>) -> (res: Vec<T>)
    ensures
        res@ == rows@.map_values(|r: (K, T)| r.1),
{
    let ghost all = rows@;
    let ghost f = |r: (K, T)| r.1;
    let mut left = rows;
    let mut res: Vec<T> = Vec::new();
    while left.len() > 0
        invariant
            left@.len() + res@.len() == all.len(),
            left@ == all.skip(res@.len() as int),
            res@ == all.take(res@.len() as int).map_values(f),
            f == (|r: (K, T)| r.1),
        decreases left@.len(),
    {
        let row = left.remove(0);
        let ghost count = res@.len() as int;
        res.push(row.1);
        assert(all.take(count + 1).map_values(f) == all.take(count).map_values(f).push(row.1));
    }
    assert(all.take(all.len() as int) == all);
    res
}

/// All entries stored under the word for a kind, by title.
pub fn list_entries(library: &Library, kind: EntryKind) -> (res: Vec<Entry>)
    ensures
        entry_views(res@) == library@.tables.listed_entries(kind),
{
    let rows = library.entries();
    let ghost all = library@.tables.entries;
    let ghost p = of_kind(kind, library@.tables.unlisted);
    let ghost f = |r: (TextRank, Entry)| r.1@;
    let mut keyed: Vec<(TextRank, Entry)> = Vec::new();
    let mut i: usize = 0;
    proof {
        reveal(Seq::filter);
        assert(all.take(0).filter(p) == Seq::<EntryView>::empty());
        assert(keyed@.map_values(f) == Seq::<EntryView>::empty());
    }
    while i < rows.len()
        invariant
            i <= rows@.len(),
            all == entry_views(rows@),
            p == of_kind(kind, library@.tables.unlisted),
            f == (|r: (TextRank, Entry)| r.1@),
            keyed@.map_values(f) == all.take(i as int).filter(p),
            forall|k: int|
                0 <= k < keyed@.len() ==> (#[trigger] keyed@[k]).0.chars@ == folded(
                    keyed@[k].1.title@,
                ),
        decreases rows@.len() - i,
    {
        let ghost before = keyed@;
        proof {
            reveal(Seq::filter);
            assert(all.take(i + 1).drop_last() == all.take(i as int));
            assert(all.take(i + 1).last() == rows@[i as int]@);
        }
        if rows[i].kind == kind && !library.is_unlisted(rows[i].id) {
            let row = rows[i].clone();
            let rank = TextRank { chars: folded_chars(row.title.as_str()) };
            keyed.push((rank, row));
            assert(keyed@.map_values(f) == before.map_values(f).push(row@));
        }
        i += 1;
    }
    assert(all.take(all.len() as int) == all);
    let ghost unsorted = keyed@;
    let sorted = sort_rows(keyed);
    proof {
        let ok = |r: (TextRank, Entry)| r.0.chars@ == folded(r.1.title@);
        lemma_sorted_map(unsorted, f, ok, by_key::<TextRank, Entry>(), title_order());
    }
    let ghost arranged = sorted@;
    let res = without_keys(sorted);
    assert(entry_views(res@) == arranged.map_values(f));
    res
}

/// The entry with an id.
pub fn get_entry(library: &Library, id: i64) -> (res: Result<Entry, DbError>)
    requires
        library.wf(),
    ensures
        match res {
            Ok(e) => library@.tables.entry(id) == Some(e@),
            Err(e) => e == DbError::NotFound && library@.tables.entry(id) is None,
        },
{
    let rows = library.entries();
    let ghost t = library@.tables;
    let mut i: usize = 0;
    while i < rows.len()
        invariant
            i <= rows@.len(),
            t == library@.tables,
            t.wf(),
            t.entries == entry_views(rows@),
            forall|k: int| 0 <= k < i ==> (#[trigger] t.entries[k]).id != id,
        decreases rows@.len() - i,
    {
        assert(t.entries[i as int] == rows@[i as int]@);
        if rows[i].id == id {
            proof {
                lemma_entry_at(t, i as int);
            }
            return Ok(rows[i].clone());
        }
        i += 1;
    }
    Err(DbError::NotFound)
}

impl LibraryView {
    pub open spec fn touch_last_watched(self, id: i64, now: i64) -> LibraryView {
        self.with(ChangeView::TouchLastWatched { id, at: now })
    }

    /// The id a new entry gets, if one is left.
    pub open spec fn next_entry_id(self) -> Option<i64> {
        if self.tables.last_entry_id < i64::MAX {
            Some((self.tables.last_entry_id + 1) as i64)
        } else {
            None
        }
    }

    pub open spec fn insert_entry(
        self,
        id: i64,
        title: Seq<char>,
        kind: EntryKind,
        description: Seq<char>,
        link_or_path: Seq<char>,
    ) -> LibraryView {
        self.with(ChangeView::InsertEntry { id, title, kind, description, link_or_path })
    }

    pub open spec fn update_entry(
        self,
        id: i64,
        title: Seq<char>,
        description: Seq<char>,
        link_or_path: Seq<char>,
    ) -> LibraryView {
        self.with(ChangeView::UpdateEntry { id, title, description, link_or_path })
    }

    pub open spec fn update_entry_resume(
        self,
        id: i64,
        position: i64,
        duration: i64,
        finished: bool,
    ) -> LibraryView {
        self.with(ChangeView::UpdateEntryResume { id, position, duration, finished })
    }

    pub open spec fn delete_entry(self, id: i64) -> LibraryView {
        self.with(ChangeView::DeleteEntry { id })
    }
}

/// Stamps an entry as watched at `now`, a Unix timestamp.
pub fn touch_last_watched(library: &mut Library, id: i64, now: i64)
    requires
        old(library).wf(),
    ensures
        final(library).wf(),
        final(library)@ == old(library)@.touch_last_watched(id, now),
{
    library.execute(Change::TouchLastWatched { id, at: now });
}

/// Adds an entry that was never played, and gives its id.
pub fn insert_entry(
    library: &mut Library,
    title: &str,
    kind: EntryKind,
    description: &str,
    link_or_path: &str,
) -> (res: Result<i64, DbError>)
    requires
        old(library).wf(),
    ensures
        final(library).wf(),
        match res {
            Ok(id) => {
                &&& old(library)@.next_entry_id() == Some(id)
                &&& final(library)@ == old(library)@.insert_entry(
                    id,
                    title@,
                    kind,
                    description@,
                    link_or_path@,
                )
            },
            Err(e) => {
                &&& e == DbError::Full
                &&& old(library)@.next_entry_id() is None
                &&& final(library)@ == old(library)@
            },
        },
{
    let last: i64 = library.last_entry_id();
    if last == i64::MAX {
        return Err(DbError::Full);
    }
    let id: i64 = last + 1;
    library.execute(
        Change::InsertEntry {
            id,
            title: title.to_owned(),
            kind,
            description: description.to_owned(),
            link_or_path: link_or_path.to_owned(),
        },
    );
    Ok(id)
}

/// Changes title, description and link of an entry. Nothing happens where no
/// entry has the id.
pub fn update_entry(
    library: &mut Library,
    id: i64,
    title: &str,
    description: &str,
    link_or_path: &str,
)
    requires
        old(library).wf(),
    ensures
        final(library).wf(),
        final(library)@ == old(library)@.update_entry(id, title@, description@, link_or_path@),
{
    library.execute(
        Change::UpdateEntry {
            id,
            title: title.to_owned(),
            description: description.to_owned(),
            link_or_path: link_or_path.to_owned(),
        },
    );
}

/// Stores how far an entry was watched.
pub fn update_entry_resume(
    library: &mut Library,
    id: i64,
    position: i64,
    duration: i64,
    finished: bool,
)
    requires
        old(library).wf(),
    ensures
        final(library).wf(),
        final(library)@ == old(library)@.update_entry_resume(id, position, duration, finished),
{
    library.execute(Change::UpdateEntryResume { id, position, duration, finished });
}

/// Deletes an entry, movie or series, and with it its episodes.
pub fn delete_entry(library: &mut Library, id: i64)
    requires
        old(library).wf(),
    ensures
        final(library).wf(),
        final(library)@ == old(library)@.delete_entry(id),
{
    library.execute(Change::DeleteEntry { id });
}

// ---------------------------------------------------------------------
// Episodes
// ---------------------------------------------------------------------

/// A stored episode row: the flag as a number.
pub struct EpisodeRow {
    pub id: i64,
    pub entry_id: i64,
    pub season: i32,
    pub episode: i32,
    pub title: String,
    pub description: String,
    pub link_or_path: String,
    pub resume_position: i64,
    pub duration: i64,
    pub finished: i64,
}

/// The episode a stored row stands for.
pub fn row_to_episode(row: EpisodeRow) -> (res: Episode)
    ensures
        res@ == (EpisodeView {
            id: row.id,
            entry_id: row.entry_id,
            season: row.season,
            episode: row.episode,
            title: row.title@,
            description: row.description@,
            link_or_path: row.link_or_path@,
            resume_position: row.resume_position,
            duration: row.duration,
            finished: row.finished != 0,
        }),
{
    Episode {
        id: row.id,
        entry_id: row.entry_id,
        season: row.season,
        episode: row.episode,
        title: row.title,
        description: row.description,
        link_or_path: row.link_or_path,
        resume_position: row.resume_position,
        duration: row.duration,
        finished: row.finished != 0,
    }
}

pub open spec fn of_entry(entry_id: i64) -> spec_fn(EpisodeView) -> bool {
    |e: EpisodeView| e.entry_id == entry_id
}

/// Season by season, and within a season episode by episode.
pub open spec fn episode_order() -> spec_fn(EpisodeView, EpisodeView) -> bool {
    |a: EpisodeView, b: EpisodeView|
        a.season < b.season || (a.season == b.season && a.episode <= b.episode)
}

pub open spec fn later_than(season: i32, episode: i32) -> spec_fn(EpisodeView) -> bool {
    |e: EpisodeView| e.season > season || (e.season == season && e.episode > episode)
}

pub open spec fn unfinished() -> spec_fn(EpisodeView) -> bool {
    |e: EpisodeView| !e.finished
}

/// The first element, if there is one.
pub open spec fn first<A>(s: Seq<A>) -> Option<A> {
    if s.len() > 0 {
        Some(s[0])
    } else {
        None
    }
}

/// No episode of `s` comes after the one at `i`, and those at the same place in
/// the order stand behind it.
pub open spec fn latest_at(s: Seq<EpisodeView>, i: int) -> bool {
    &&& 0 <= i < s.len()
    &&& forall|j: int| 0 <= j < s.len() ==> episode_order()(#[trigger] s[j], s[i])
    &&& forall|j: int| 0 <= j < i ==> !episode_order()(s[i], #[trigger] s[j])
}

impl Tables {
    pub open spec fn has_episode(self, id: i64) -> bool {
        exists|i: int| 0 <= i < self.episodes.len() && (#[trigger] self.episodes[i]).id == id
    }

    /// The episode with an id.
    pub open spec fn episode(self, id: i64) -> Option<EpisodeView> {
        if self.has_episode(id) {
            Some(
                self.episodes[choose|i: int|
                    0 <= i < self.episodes.len() && (#[trigger] self.episodes[i]).id == id],
            )
        } else {
            None
        }
    }

    /// The episodes of a series, by id.
    pub open spec fn episodes_of(self, entry_id: i64) -> Seq<EpisodeView> {
        self.episodes.filter(of_entry(entry_id))
    }

    /// The episodes of a series in season/episode order; those with the same
    /// numbers by id.
    pub open spec fn listed_episodes(self, entry_id: i64) -> Seq<EpisodeView> {
        stable_sorted(self.episodes_of(entry_id), episode_order())
    }

    /// The first episode after the given numbers.
    pub open spec fn next_episode(self, entry_id: i64, season: i32, episode: i32) -> Option<
        EpisodeView,
    > {
        first(self.listed_episodes(entry_id).filter(later_than(season, episode)))
    }

    /// The earliest episode that is not finished.
    pub open spec fn first_unfinished_episode(self, entry_id: i64) -> Option<EpisodeView> {
        first(self.listed_episodes(entry_id).filter(unfinished()))
    }

    /// The last episode, finished or not; of those with the same numbers, the
    /// one that was added first.
    pub open spec fn last_episode(self, entry_id: i64) -> Option<EpisodeView> {
        let s = self.episodes_of(entry_id);
        if s.len() > 0 {
            Some(s[choose|i: int| latest_at(s, i)])
        } else {
            None
        }
    }

    /// Where watching goes on: the first unfinished episode, or the last one
    /// where all are finished.
    pub open spec fn current_episode(self, entry_id: i64) -> Option<EpisodeView> {
        match self.first_unfinished_episode(entry_id) {
            Some(e) => Some(e),
            None => self.last_episode(entry_id),
        }
    }
}

/// A row found under an id is the one with that id.
pub proof fn lemma_episode_at(t: Tables, i: int)
    requires
        t.wf(),
        0 <= i < t.episodes.len(),
    ensures
        t.episode(t.episodes[i].id) == Some(t.episodes[i]),
{
    let id = t.episodes[i].id;
    let k = choose|k: int| 0 <= k < t.episodes.len() && (#[trigger] t.episodes[k]).id == id;
    assert(t.has_episode(id));
    if k < i {
        assert(t.episodes[k].id < t.episodes[i].id);
    } else if i < k {
        assert(t.episodes[i].id < t.episodes[k].id);
    }
}

proof fn lemma_latest_unique(s: Seq<EpisodeView>, i: int, j: int)
    requires
        latest_at(s, i),
        latest_at(s, j),
    ensures
        i == j,
{
    assert(episode_order()(s[i], s[j]));
    assert(episode_order()(s[j], s[i]));
}

/// What a filter keeps first, told from the first element that passes.
pub proof fn lemma_first_match<A>(s: Seq<A>, p: spec_fn(A) -> bool, at: int)
    requires
        0 <= at <= s.len(),
        forall|i: int| 0 <= i < at ==> !p(#[trigger] s[i]),
        at < s.len() ==> p(s[at]),
    ensures
        first(s.filter(p)) == if at < s.len() {
            Some(s[at])
        } else {
            None
        },
    decreases at,
{
    if s.len() == 0 {
        reveal(Seq::filter);
    } else {
        lemma_filter_first(s, p);
        if at > 0 {
            assert(!p(s[0]));
            let rest = s.drop_first();
            assert forall|i: int| 0 <= i < at - 1 implies !p(#[trigger] rest[i]) by {
                assert(rest[i] == s[i + 1]);
            }
            lemma_first_match(rest, p, at - 1);
        }
    }
}

/// Episodes can be put in order.
pub proof fn lemma_episode_order()
    ensures
        total_preorder(episode_order()),
{
}

/// What episodes are sorted by.
#[derive(Clone, Copy)]
pub struct EpisodeRank {
    pub season: i32,
    pub episode: i32,
}

impl Rank for EpisodeRank {
    open spec fn rank_le(self, other: Self) -> bool {
        self.season < other.season || (self.season == other.season && self.episode
            <= other.episode)
    }

    fn at_most(&self, other: &Self) -> (res: bool) {
        self.season < other.season || (self.season == other.season && self.episode
            <= other.episode)
    }
}

fn episodes_of(library: &Library, entry_id: i64) -> (res: Vec<Episode>)
    ensures
        episode_views(res@) == library@.tables.episodes_of(entry_id),
{
    let rows = library.episodes();
    let ghost all = library@.tables.episodes;
    let ghost p = of_entry(entry_id);
    let mut res: Vec<Episode> = Vec::new();
    let mut i: usize = 0;
    proof {
        reveal(Seq::filter);
        assert(all.take(0).filter(p) == Seq::<EpisodeView>::empty());
        assert(episode_views(res@) == Seq::<EpisodeView>::empty());
    }
    while i < rows.len()
        invariant
            i <= rows@.len(),
            all == episode_views(rows@),
            p == of_entry(entry_id),
            episode_views(res@) == all.take(i as int).filter(p),
        decreases rows@.len() - i,
    {
        let ghost before = res@;
        proof {
            reveal(Seq::filter);
            assert(all.take(i + 1).drop_last() == all.take(i as int));
            assert(all.take(i + 1).last() == rows@[i as int]@);
        }
        if rows[i].entry_id == entry_id {
            let row = rows[i].clone();
            res.push(row);
            assert(episode_views(res@) == episode_views(before).push(row@));
        }
        i += 1;
    }
    assert(all.take(all.len() as int) == all);
    res
}

/// The episodes of a series, in season/episode order.
pub fn list_episodes(library: &Library, entry_id: i64) -> (res: Vec<Episode>)
    ensures
        episode_views(res@) == library@.tables.listed_episodes(entry_id),
{
    let rows = episodes_of(library, entry_id);
    let ghost all = rows@;
    let ghost f = |r: (EpisodeRank, Episode)| r.1@;
    let mut keyed: Vec<(EpisodeRank, Episode)> = Vec::new();
    let mut i: usize = 0;
    while i < rows.len()
        invariant
            i <= rows@.len(),
            rows@ == all,
            keyed@.len() == i,
            forall|k: int|
                0 <= k < i ==> (#[trigger] keyed@[k]).1@ == all[k]@ && keyed@[k].0.season
                    == all[k].season && keyed@[k].0.episode == all[k].episode,
        decreases rows@.len() - i,
    {
        let row = rows[i].clone();
        keyed.push((EpisodeRank { season: row.season, episode: row.episode }, row));
        i += 1;
    }
    let ghost unsorted = keyed@;
    assert(unsorted.map_values(f) == episode_views(all));
    let sorted = sort_rows(keyed);
    proof {
        let ok = |r: (EpisodeRank, Episode)|
            r.0.season == r.1.season && r.0.episode == r.1.episode;
        assert forall|k: int| 0 <= k < unsorted.len() implies ok(#[trigger] unsorted[k]) by {
            assert(unsorted[k].1@ == all[k]@);
        }
        lemma_sorted_map(unsorted, f, ok, by_key::<EpisodeRank, Episode>(), episode_order());
    }
    let ghost arranged = sorted@;
    let res = without_keys(sorted);
    assert(episode_views(res@) == arranged.map_values(f));
    res
}

/// The episode with an id.
pub fn get_episode(library: &Library, id: i64) -> (res: Result<Episode, DbError>)
    requires
        library.wf(),
    ensures
        match res {
            Ok(e) => library@.tables.episode(id) == Some(e@),
            Err(e) => e == DbError::NotFound && library@.tables.episode(id) is None,
        },
{
    let rows = library.episodes();
    let ghost t = library@.tables;
    let mut i: usize = 0;
    while i < rows.len()
        invariant
            i <= rows@.len(),
            t == library@.tables,
            t.wf(),
            t.episodes == episode_views(rows@),
            forall|k: int| 0 <= k < i ==> (#[trigger] t.episodes[k]).id != id,
        decreases rows@.len() - i,
    {
        assert(t.episodes[i as int] == rows@[i as int]@);
        if rows[i].id == id {
            proof {
                lemma_episode_at(t, i as int);
            }
            return Ok(rows[i].clone());
        }
        i += 1;
    }
    Err(DbError::NotFound)
}

pub open spec fn maybe_episode(e: Option<Episode>) -> Option<EpisodeView> {
    match e {
        Some(e) => Some(e@),
        None => None,
    }
}

/// The next episode after the given one, in season/episode order.
pub fn next_episode(
    library: &Library,
    entry_id: i64,
    after_season: i32,
    after_episode: i32,
) -> (res: Option<Episode>)
    ensures
        maybe_episode(res) == library@.tables.next_episode(entry_id, after_season, after_episode),
{
    let rows = list_episodes(library, entry_id);
    let ghost s = episode_views(rows@);
    let ghost p = later_than(after_season, after_episode);
    let mut i: usize = 0;
    while i < rows.len()
        invariant
            i <= rows@.len(),
            s == episode_views(rows@),
            s == library@.tables.listed_episodes(entry_id),
            p == later_than(after_season, after_episode),
            forall|k: int| 0 <= k < i ==> !p(#[trigger] s[k]),
        decreases rows@.len() - i,
    {
        assert(s[i as int] == rows@[i as int]@);
        if rows[i].season > after_season || (rows[i].season == after_season && rows[i].episode
            > after_episode) {
            proof {
                lemma_first_match(s, p, i as int);
            }
            return Some(rows[i].clone());
        }
        i += 1;
    }
    proof {
        lemma_first_match(s, p, s.len() as int);
    }
    None
}

/// The earliest episode that is not finished, in season/episode order.
pub fn first_unfinished_episode(library: &Library, entry_id: i64) -> (res: Option<Episode>)
    ensures
        maybe_episode(res) == library@.tables.first_unfinished_episode(entry_id),
{
    let rows = list_episodes(library, entry_id);
    let ghost s = episode_views(rows@);
    let ghost p = unfinished();
    let mut i: usize = 0;
    while i < rows.len()
        invariant
            i <= rows@.len(),
            s == episode_views(rows@),
            s == library@.tables.listed_episodes(entry_id),
            p == unfinished(),
            forall|k: int| 0 <= k < i ==> !p(#[trigger] s[k]),
        decreases rows@.len() - i,
    {
        assert(s[i as int] == rows@[i as int]@);
        if !rows[i].finished {
            proof {
                lemma_first_match(s, p, i as int);
            }
            return Some(rows[i].clone());
        }
        i += 1;
    }
    proof {
        lemma_first_match(s, p, s.len() as int);
    }
    None
}

/// The last episode in season/episode order, finished or not.
pub fn last_episode(library: &Library, entry_id: i64) -> (res: Option<Episode>)
    ensures
        maybe_episode(res) == library@.tables.last_episode(entry_id),
{
    let rows = episodes_of(library, entry_id);
    let ghost s = episode_views(rows@);
    if rows.len() == 0 {
        return None;
    }
    let mut best: usize = 0;
    let mut i: usize = 1;
    while i < rows.len()
        invariant
            best < i <= rows@.len(),
            s == episode_views(rows@),
            forall|j: int| 0 <= j < i ==> episode_order()(#[trigger] s[j], s[best as int]),
            forall|j: int| 0 <= j < best ==> !episode_order()(s[best as int], #[trigger] s[j]),
        decreases rows@.len() - i,
    {
        let ghost top = s[best as int];
        assert(top == rows@[best as int]@);
        assert(s[i as int] == rows@[i as int]@);
        if rows[i].season > rows[best].season || (rows[i].season == rows[best].season
            && rows[i].episode > rows[best].episode) {
            best = i;
            assert forall|j: int| 0 <= j < i implies episode_order()(#[trigger] s[j], s[i as int])
                && !episode_order()(s[i as int], s[j]) by {
                assert(episode_order()(s[j], top));
            }
        }
        i += 1;
    }
    proof {
        assert(latest_at(s, best as int));
        let k = choose|k: int| latest_at(s, k);
        lemma_latest_unique(s, best as int, k);
        assert(s[best as int] == rows@[best as int]@);
    }
    Some(rows[best].clone())
}

/// Where a resume lands: the first unfinished episode, or the last one where
/// everything has been watched.
pub fn current_episode(library: &Library, entry_id: i64) -> (res: Option<Episode>)
    ensures
        maybe_episode(res) == library@.tables.current_episode(entry_id),
{
    match first_unfinished_episode(library, entry_id) {
        Some(e) => Some(e),
        None => last_episode(library, entry_id),
    }
}

impl LibraryView {
    /// The id a new episode gets, if one is left.
    pub open spec fn next_episode_id(self) -> Option<i64> {
        if self.tables.last_episode_id < i64::MAX {
            Some((self.tables.last_episode_id + 1) as i64)
        } else {
            None
        }
    }

    /// Why a new episode of an entry is turned down, if it is.
    pub open spec fn episode_refused(self, entry_id: i64) -> Option<DbError> {
        if self.next_episode_id() is None {
            Some(DbError::Full)
        } else if !self.tables.has_entry(entry_id) {
            Some(DbError::NoSuchEntry)
        } else {
            None
        }
    }

    pub open spec fn insert_episode(
        self,
        id: i64,
        entry_id: i64,
        season: i32,
        episode: i32,
        title: Seq<char>,
        description: Seq<char>,
        link_or_path: Seq<char>,
    ) -> LibraryView {
        self.with(
            ChangeView::InsertEpisode {
                id,
                entry_id,
                season,
                episode,
                title,
                description,
                link_or_path,
            },
        )
    }

    pub open spec fn update_episode(
        self,
        id: i64,
        title: Seq<char>,
        description: Seq<char>,
        link_or_path: Seq<char>,
    ) -> LibraryView {
        self.with(ChangeView::UpdateEpisode { id, title, description, link_or_path })
    }

    pub open spec fn update_episode_resume(
        self,
        id: i64,
        position: i64,
        duration: i64,
        finished: bool,
    ) -> LibraryView {
        self.with(ChangeView::UpdateEpisodeResume { id, position, duration, finished })
    }

    pub open spec fn delete_episode(self, id: i64) -> LibraryView {
        self.with(ChangeView::DeleteEpisode { id })
    }

    pub open spec fn delete_season(self, entry_id: i64, season: i32) -> LibraryView {
        self.with(ChangeView::DeleteSeasonEpisodes { entry_id, season }).with(
            ChangeView::DeleteSeasonPattern { entry_id, season },
        )
    }

    pub open spec fn set_season_pattern(
        self,
        entry_id: i64,
        season: i32,
        pattern: Seq<char>,
        season_width: i32,
        ep_width: i32,
    ) -> LibraryView {
        self.with(
            ChangeView::SetSeasonPattern { entry_id, season, pattern, season_width, ep_width },
        )
    }
}

fn entry_exists(library: &Library, id: i64) -> (res: bool)
    ensures
        res == library@.tables.has_entry(id),
{
    let rows = library.entries();
    let ghost t = library@.tables;
    let mut i: usize = 0;
    while i < rows.len()
        invariant
            i <= rows@.len(),
            t == library@.tables,
            t.entries == entry_views(rows@),
            forall|k: int| 0 <= k < i ==> (#[trigger] t.entries[k]).id != id,
        decreases rows@.len() - i,
    {
        assert(t.entries[i as int] == rows@[i as int]@);
        if rows[i].id == id {
            return true;
        }
        i += 1;
    }
    false
}

/// Adds an episode that was never played, and gives its id.
pub fn insert_episode(
    library: &mut Library,
    entry_id: i64,
    season: i32,
    episode: i32,
    title: &str,
    description: &str,
    link_or_path: &str,
) -> (res: Result<i64, DbError>)
    requires
        old(library).wf(),
    ensures
        final(library).wf(),
        match res {
            Ok(id) => {
                &&& old(library)@.episode_refused(entry_id) is None
                &&& old(library)@.next_episode_id() == Some(id)
                &&& final(library)@ == old(library)@.insert_episode(
                    id,
                    entry_id,
                    season,
                    episode,
                    title@,
                    description@,
                    link_or_path@,
                )
            },
            Err(e) => {
                &&& old(library)@.episode_refused(entry_id) == Some(e)
                &&& final(library)@ == old(library)@
            },
        },
{
    let last: i64 = library.last_episode_id();
    if last == i64::MAX {
        return Err(DbError::Full);
    }
    if !entry_exists(library, entry_id) {
        return Err(DbError::NoSuchEntry);
    }
    let id: i64 = last + 1;
    library.execute(
        Change::InsertEpisode {
            id,
            entry_id,
            season,
            episode,
            title: title.to_owned(),
            description: description.to_owned(),
            link_or_path: link_or_path.to_owned(),
        },
    );
    Ok(id)
}

/// Changes title, description and link of an episode. Nothing happens where no
/// episode has the id.
pub fn update_episode(
    library: &mut Library,
    id: i64,
    title: &str,
    description: &str,
    link_or_path: &str,
)
    requires
        old(library).wf(),
    ensures
        final(library).wf(),
        final(library)@ == old(library)@.update_episode(id, title@, description@, link_or_path@),
{
    library.execute(
        Change::UpdateEpisode {
            id,
            title: title.to_owned(),
            description: description.to_owned(),
            link_or_path: link_or_path.to_owned(),
        },
    );
}

/// Stores how far an episode was watched.
pub fn update_episode_resume(
    library: &mut Library,
    id: i64,
    position: i64,
    duration: i64,
    finished: bool,
)
    requires
        old(library).wf(),
    ensures
        final(library).wf(),
        final(library)@ == old(library)@.update_episode_resume(id, position, duration, finished),
{
    library.execute(Change::UpdateEpisodeResume { id, position, duration, finished });
}

/// Deletes an episode.
pub fn delete_episode(library: &mut Library, id: i64)
    requires
        old(library).wf(),
    ensures
        final(library).wf(),
        final(library)@ == old(library)@.delete_episode(id),
{
    library.execute(Change::DeleteEpisode { id });
}

/// Deletes a whole season of a series, and the pattern kept for it.
pub fn delete_season(library: &mut Library, entry_id: i64, season: i32)
    requires
        old(library).wf(),
    ensures
        final(library).wf(),
        final(library)@ == old(library)@.delete_season(entry_id, season),
{
    library.execute(Change::DeleteSeasonEpisodes { entry_id, season });
    library.execute(Change::DeleteSeasonPattern { entry_id, season });
}

// ---------------------------------------------------------------------
// Season patterns
// ---------------------------------------------------------------------

impl Tables {
    pub open spec fn pattern_at(self, entry_id: i64, season: i32, i: int) -> bool {
        0 <= i < self.patterns.len() && self.patterns[i].entry_id == entry_id
            && self.patterns[i].season == season
    }

    /// The pattern kept for a season.
    pub open spec fn pattern(self, entry_id: i64, season: i32) -> Option<SeasonPatternView> {
        if exists|i: int| self.pattern_at(entry_id, season, i) {
            Some(self.patterns[choose|i: int| self.pattern_at(entry_id, season, i)])
        } else {
            None
        }
    }
}

/// Remembers the pattern a season was found with, and the widths of its
/// numbers, in place of any pattern kept before.
pub fn set_season_pattern(
    library: &mut Library,
    entry_id: i64,
    season: i32,
    pattern: &str,
    season_width: i32,
    ep_width: i32,
)
    requires
        old(library).wf(),
    ensures
        final(library).wf(),
        final(library)@ == old(library)@.set_season_pattern(
            entry_id,
            season,
            pattern@,
            season_width,
            ep_width,
        ),
{
    library.execute(
        Change::SetSeasonPattern {
            entry_id,
            season,
            pattern: pattern.to_owned(),
            season_width,
            ep_width,
        },
    );
}

/// The pattern kept for a season and its widths. `None` means that the season
/// was added by hand.
pub fn get_season_pattern(library: &Library, entry_id: i64, season: i32) -> (res: Option<
    (String, i32, i32),
>)
    requires
        library.wf(),
    ensures
        match res {
            Some((pattern, season_width, ep_width)) => library@.tables.pattern(entry_id, season)
                == Some(
                SeasonPatternView {
                    entry_id,
                    season,
                    pattern: pattern@,
                    season_width,
                    ep_width,
                },
            ),
            None => library@.tables.pattern(entry_id, season) is None,
        },
{
    let rows = library.patterns();
    let ghost t = library@.tables;
    let mut i: usize = 0;
    while i < rows.len()
        invariant
            i <= rows@.len(),
            t == library@.tables,
            t.wf(),
            t.patterns == pattern_views(rows@),
            forall|k: int| 0 <= k < i ==> !#[trigger] t.pattern_at(entry_id, season, k),
        decreases rows@.len() - i,
    {
        assert(t.patterns[i as int] == rows@[i as int]@);
        if rows[i].entry_id == entry_id && rows[i].season == season {
            proof {
                lemma_pattern_at(t, entry_id, season, i as int);
            }
            return Some((rows[i].pattern.clone(), rows[i].season_width, rows[i].ep_width));
        }
        i += 1;
    }
    None
}

proof fn lemma_pattern_at(t: Tables, entry_id: i64, season: i32, i: int)
    requires
        t.wf(),
        t.pattern_at(entry_id, season, i),
    ensures
        t.pattern(entry_id, season) == Some(t.patterns[i]),
{
    let k = choose|k: int| t.pattern_at(entry_id, season, k);
    if k < i {
        assert(t.patterns[k].entry_id != t.patterns[i].entry_id || t.patterns[k].season
            != t.patterns[i].season);
    } else if i < k {
        assert(t.patterns[i].entry_id != t.patterns[k].entry_id || t.patterns[i].season
            != t.patterns[k].season);
    }
}

// ---------------------------------------------------------------------
// Stored tables of an older version
// ---------------------------------------------------------------------

/// The statement that adds a column to a stored table, unless the table has it.
pub fn ensure_column(
    table: &str,
    existing: &Vec<String>,
    column: &str,
    add_column_ddl: &str,
) -> (res: Option<String>)
    ensures
        text_view(res) == if exists|i: int|
            0 <= i < existing@.len() && (#[trigger] existing@[i])@ == column@ {
            None
        } else {
            Some("ALTER TABLE "@ + table@ + " ADD COLUMN "@ + add_column_ddl@)
        },
{
    let mut i: usize = 0;
    while i < existing.len()
        invariant
            i <= existing@.len(),
            forall|k: int| 0 <= k < i ==> (#[trigger] existing@[k])@ != column@,
        decreases existing@.len() - i,
    {
        if same_text(existing[i].as_str(), column) {
            return None;
        }
        i += 1;
    }
    let mut res = concat3("ALTER TABLE ", table, " ADD COLUMN ");
    res.append(add_column_ddl);
    Some(res)
}

} // verus!
