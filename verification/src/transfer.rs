//! Moving a library between machines: writing it as JSON, and reading it back.

use serde_json::Value;
use vstd::prelude::*;
use vstd::utf8::encode_utf8;

use crate::db::{
    insert_entry, insert_episode, list_entries, list_episodes, update_entry_resume,
    update_episode_resume,
};
use crate::json::{
    array_field, array_value, bool_field, bool_value, field_of, flag_set, integer_field,
    integer_or, integer_value, items, keys_differ, lemma_member, members, node, object_value,
    parse, parsed, plain, pretty, reads_as, shallow, text_field, text_or, text_value, write_pretty,
    Node,
};
use crate::models::{entry_views, episode_views, Entry, EntryKind, EntryView, Episode, EpisodeView};
use crate::state::{AppState, AppView};
use crate::tables::{Library, LibraryView, Tables};
use crate::text::{concat2, concat5, count_text, decimal};

verus! {

broadcast use vstd::string::group_string_axioms;

// ---------------------------------------------------------------------
// What a document says
// ---------------------------------------------------------------------

/// A movie in a document.
#[verifier::ext_equal]
pub struct MovieDoc {
    pub title: Seq<char>,
    pub description: Seq<char>,
    pub link_or_path: Seq<char>,
    pub resume_position: i64,
    pub duration: i64,
    pub finished: bool,
}

/// An episode in a document.
#[verifier::ext_equal]
pub struct EpisodeDoc {
    pub season: i32,
    pub episode: i32,
    pub title: Seq<char>,
    pub description: Seq<char>,
    pub link_or_path: Seq<char>,
    pub resume_position: i64,
    pub duration: i64,
    pub finished: bool,
}

/// A series in a document.
#[verifier::ext_equal]
pub struct SeriesDoc {
    pub title: Seq<char>,
    pub description: Seq<char>,
    pub link_or_path: Seq<char>,
    pub episodes: Seq<EpisodeDoc>,
}

/// All that a document holds.
#[verifier::ext_equal]
pub struct LibraryDoc {
    pub movies: Seq<MovieDoc>,
    pub series: Seq<SeriesDoc>,
}

pub open spec fn text_in(v: Value, key: Seq<char>, otherwise: Seq<char>) -> Seq<char> {
    match text_field(v, key) {
        Some(s) => s,
        None => otherwise,
    }
}

pub open spec fn integer_in(v: Value, key: Seq<char>, otherwise: i64) -> i64 {
    match integer_field(v, key) {
        Some(n) => n,
        None => otherwise,
    }
}

pub open spec fn flag_in(v: Value, key: Seq<char>) -> bool {
    bool_field(v, key) == Some(true)
}

pub open spec fn items_in(v: Value, key: Seq<char>) -> Seq<Value> {
    match array_field(v, key) {
        Some(list) => list,
        None => Seq::empty(),
    }
}

/// The movie that a value describes. What is missing is nothing, and a movie
/// without a title is untitled.
pub open spec fn movie_doc() -> spec_fn(Value) -> MovieDoc {
    |v: Value|
        MovieDoc {
            title: text_in(v, "title"@, "Untitled"@),
            description: text_in(v, "description"@, ""@),
            link_or_path: text_in(v, "link_or_path"@, ""@),
            resume_position: integer_in(v, "resume_position"@, 0),
            duration: integer_in(v, "duration"@, 0),
            finished: flag_in(v, "finished"@),
        }
}

/// The episode that a value describes. What is missing is nothing, and numbers
/// that are missing are one.
pub open spec fn episode_doc() -> spec_fn(Value) -> EpisodeDoc {
    |v: Value|
        EpisodeDoc {
            season: integer_in(v, "season"@, 1) as i32,
            episode: integer_in(v, "episode"@, 1) as i32,
            title: text_in(v, "title"@, ""@),
            description: text_in(v, "description"@, ""@),
            link_or_path: text_in(v, "link_or_path"@, ""@),
            resume_position: integer_in(v, "resume_position"@, 0),
            duration: integer_in(v, "duration"@, 0),
            finished: flag_in(v, "finished"@),
        }
}

/// The series that a value describes.
pub open spec fn series_doc() -> spec_fn(Value) -> SeriesDoc {
    |v: Value|
        SeriesDoc {
            title: text_in(v, "title"@, "Untitled"@),
            description: text_in(v, "description"@, ""@),
            link_or_path: text_in(v, "link_or_path"@, ""@),
            episodes: items_in(v, "episodes"@).map_values(episode_doc()),
        }
}

/// What a document says.
pub open spec fn library_doc(v: Value) -> LibraryDoc {
    LibraryDoc {
        movies: items_in(v, "movies"@).map_values(movie_doc()),
        series: items_in(v, "series"@).map_values(series_doc()),
    }
}

// ---------------------------------------------------------------------
// Reading a document into the library
// ---------------------------------------------------------------------

impl LibraryView {
    /// The library with a movie of a document added, as a new entry.
    pub open spec fn import_movie(self, m: MovieDoc) -> LibraryView {
        match self.next_entry_id() {
            Some(id) => self.insert_entry(
                id,
                m.title,
                EntryKind::Movie,
                m.description,
                m.link_or_path,
            ).update_entry_resume(id, m.resume_position, m.duration, m.finished),
            None => self,
        }
    }

    pub open spec fn import_movies(self, docs: Seq<MovieDoc>) -> LibraryView
        decreases docs.len(),
    {
        if docs.len() == 0 {
            self
        } else {
            self.import_movies(docs.drop_last()).import_movie(docs.last())
        }
    }

    /// The library with an episode of a document added to a series.
    pub open spec fn import_episode(self, entry_id: i64, e: EpisodeDoc) -> LibraryView {
        if self.episode_refused(entry_id) is None {
            let id = self.next_episode_id()->0;
            self.insert_episode(
                id,
                entry_id,
                e.season,
                e.episode,
                e.title,
                e.description,
                e.link_or_path,
            ).update_episode_resume(id, e.resume_position, e.duration, e.finished)
        } else {
            self
        }
    }

    pub open spec fn import_episodes(self, entry_id: i64, docs: Seq<EpisodeDoc>) -> LibraryView
        decreases docs.len(),
    {
        if docs.len() == 0 {
            self
        } else {
            self.import_episodes(entry_id, docs.drop_last()).import_episode(entry_id, docs.last())
        }
    }

    /// The library with a series of a document added, as a new entry.
    pub open spec fn import_one_series(self, s: SeriesDoc) -> LibraryView {
        match self.next_entry_id() {
            Some(id) => self.insert_entry(
                id,
                s.title,
                EntryKind::Series,
                s.description,
                s.link_or_path,
            ).import_episodes(id, s.episodes),
            None => self,
        }
    }

    pub open spec fn import_series(self, docs: Seq<SeriesDoc>) -> LibraryView
        decreases docs.len(),
    {
        if docs.len() == 0 {
            self
        } else {
            self.import_series(docs.drop_last()).import_one_series(docs.last())
        }
    }

    /// The library with everything in a document added.
    pub open spec fn imported(self, doc: LibraryDoc) -> LibraryView {
        self.import_movies(doc.movies).import_series(doc.series)
    }

    /// How many of some new entries get an id.
    pub open spec fn room_for(self, count: nat) -> int {
        if count <= i64::MAX - self.tables.last_entry_id {
            count as int
        } else {
            i64::MAX - self.tables.last_entry_id
        }
    }
}

fn import_movie(library: &mut Library, v: &Value) -> (res: bool)
    requires
        old(library).wf(),
    ensures
        final(library).wf(),
        final(library)@ == old(library)@.import_movie(movie_doc()(*v)),
        res == old(library)@.next_entry_id() is Some,
{
    let title = text_or(v, "title", "Untitled");
    let description = text_or(v, "description", "");
    let link = text_or(v, "link_or_path", "");
    match insert_entry(
        library,
        title.as_str(),
        EntryKind::Movie,
        description.as_str(),
        link.as_str(),
    ) {
        Ok(id) => {
            let position: i64 = integer_or(v, "resume_position", 0);
            let duration: i64 = integer_or(v, "duration", 0);
            let finished = flag_set(v, "finished");
            update_entry_resume(library, id, position, duration, finished);
            true
        },
        Err(_) => false,
    }
}

fn import_episode(library: &mut Library, entry_id: i64, v: &Value)
    requires
        old(library).wf(),
    ensures
        final(library).wf(),
        final(library)@ == old(library)@.import_episode(entry_id, episode_doc()(*v)),
{
    let season: i32 = #[verifier::truncate]
    (integer_or(v, "season", 1) as i32);
    let episode: i32 = #[verifier::truncate]
    (integer_or(v, "episode", 1) as i32);
    let title = text_or(v, "title", "");
    let description = text_or(v, "description", "");
    let link = text_or(v, "link_or_path", "");
    match insert_episode(
        library,
        entry_id,
        season,
        episode,
        title.as_str(),
        description.as_str(),
        link.as_str(),
    ) {
        Ok(id) => {
            let position: i64 = integer_or(v, "resume_position", 0);
            let duration: i64 = integer_or(v, "duration", 0);
            let finished = flag_set(v, "finished");
            update_episode_resume(library, id, position, duration, finished);
        },
        Err(_) => {},
    }
}

fn import_episodes(library: &mut Library, entry_id: i64, list: &Vec<Value>)
    requires
        old(library).wf(),
    ensures
        final(library).wf(),
        final(library)@ == old(library)@.import_episodes(
            entry_id,
            list@.map_values(episode_doc()),
        ),
{
    let ghost docs = list@.map_values(episode_doc());
    let ghost start = library@;
    let mut i: usize = 0;
    while i < list.len()
        invariant
            i <= list@.len(),
            library.wf(),
            docs == list@.map_values(episode_doc()),
            library@ == start.import_episodes(entry_id, docs.take(i as int)),
        decreases list@.len() - i,
    {
        proof {
            assert(docs.take(i + 1).drop_last() == docs.take(i as int));
            assert(docs.take(i + 1).last() == episode_doc()(list@[i as int]));
        }
        import_episode(library, entry_id, &list[i]);
        i += 1;
    }
    assert(docs.take(docs.len() as int) == docs);
}

fn import_one_series(library: &mut Library, v: &Value) -> (res: bool)
    requires
        old(library).wf(),
    ensures
        final(library).wf(),
        final(library)@ == old(library)@.import_one_series(series_doc()(*v)),
        res == old(library)@.next_entry_id() is Some,
{
    let title = text_or(v, "title", "Untitled");
    let description = text_or(v, "description", "");
    let link = text_or(v, "link_or_path", "");
    match insert_entry(
        library,
        title.as_str(),
        EntryKind::Series,
        description.as_str(),
        link.as_str(),
    ) {
        Ok(id) => {
            match items(v, "episodes") {
                Some(list) => import_episodes(library, id, list),
                None => {
                    assert(Seq::<Value>::empty().map_values(episode_doc()) == Seq::<
                        EpisodeDoc,
                    >::empty());
                },
            }
            true
        },
        Err(_) => false,
    }
}

/// Whether there is an id left after movies were added.
proof fn lemma_import_movies_ids(l: LibraryView, docs: Seq<MovieDoc>)
    ensures
        l.import_movies(docs).tables.last_entry_id == l.tables.last_entry_id + l.room_for(
            docs.len(),
        ),
    decreases docs.len(),
{
    if docs.len() > 0 {
        lemma_import_movies_ids(l, docs.drop_last());
    }
}

proof fn lemma_import_episodes_ids(l: LibraryView, entry_id: i64, docs: Seq<EpisodeDoc>)
    ensures
        l.import_episodes(entry_id, docs).tables.last_entry_id == l.tables.last_entry_id,
    decreases docs.len(),
{
    if docs.len() > 0 {
        lemma_import_episodes_ids(l, entry_id, docs.drop_last());
    }
}

proof fn lemma_import_series_ids(l: LibraryView, docs: Seq<SeriesDoc>)
    ensures
        l.import_series(docs).tables.last_entry_id == l.tables.last_entry_id + l.room_for(
            docs.len(),
        ),
    decreases docs.len(),
{
    if docs.len() > 0 {
        let before = l.import_series(docs.drop_last());
        lemma_import_series_ids(l, docs.drop_last());
        if let Some(id) = before.next_entry_id() {
            let s = docs.last();
            lemma_import_episodes_ids(
                before.insert_entry(
                    id,
                    s.title,
                    EntryKind::Series,
                    s.description,
                    s.link_or_path,
                ),
                id,
                s.episodes,
            );
        }
    }
}

/// Adds everything in a document to the library, as new entries: nothing is
/// matched with what is there, so the same document read twice gives everything
/// twice. The result counts the movies and the series that were added.
pub fn import_library_json(library: &mut Library, value: &Value) -> (res: (usize, usize))
    requires
        old(library).wf(),
    ensures
        final(library).wf(),
        final(library)@ == old(library)@.imported(library_doc(*value)),
        res.0 == old(library)@.room_for(library_doc(*value).movies.len()),
        res.1 == old(library)@.import_movies(library_doc(*value).movies).room_for(
            library_doc(*value).series.len(),
        ),
{
    let ghost doc = library_doc(*value);
    let ghost start = library@;
    let mut movie_count: usize = 0;
    match items(value, "movies") {
        Some(list) => {
            let mut i: usize = 0;
            while i < list.len()
                invariant
                    i <= list@.len(),
                    library.wf(),
                    doc.movies == list@.map_values(movie_doc()),
                    library@ == start.import_movies(doc.movies.take(i as int)),
                    movie_count <= i,
                    movie_count == start.room_for(i as nat),
                decreases list@.len() - i,
            {
                proof {
                    lemma_import_movies_ids(start, doc.movies.take(i as int));
                    assert(doc.movies.take(i + 1).drop_last() == doc.movies.take(i as int));
                    assert(doc.movies.take(i + 1).last() == movie_doc()(list@[i as int]));
                }
                if import_movie(library, &list[i]) {
                    movie_count += 1;
                }
                i += 1;
            }
            assert(doc.movies.take(doc.movies.len() as int) == doc.movies);
        },
        None => {
            assert(doc.movies == Seq::<MovieDoc>::empty());
        },
    }
    let ghost mid = library@;
    let mut series_count: usize = 0;
    match items(value, "series") {
        Some(list) => {
            let mut i: usize = 0;
            while i < list.len()
                invariant
                    i <= list@.len(),
                    library.wf(),
                    doc.series == list@.map_values(series_doc()),
                    library@ == mid.import_series(doc.series.take(i as int)),
                    series_count <= i,
                    series_count == mid.room_for(i as nat),
                decreases list@.len() - i,
            {
                proof {
                    lemma_import_series_ids(mid, doc.series.take(i as int));
                    assert(doc.series.take(i + 1).drop_last() == doc.series.take(i as int));
                    assert(doc.series.take(i + 1).last() == series_doc()(list@[i as int]));
                }
                if import_one_series(library, &list[i]) {
                    series_count += 1;
                }
                i += 1;
            }
            assert(doc.series.take(doc.series.len() as int) == doc.series);
        },
        None => {
            assert(doc.series == Seq::<SeriesDoc>::empty());
        },
    }
    (movie_count, series_count)
}

// ---------------------------------------------------------------------
// Writing the library as a document
// ---------------------------------------------------------------------

/// What a document says of a movie.
pub open spec fn doc_of_movie() -> spec_fn(EntryView) -> MovieDoc {
    |e: EntryView|
        MovieDoc {
            title: e.title,
            description: e.description,
            link_or_path: e.link_or_path,
            resume_position: e.resume_position,
            duration: e.duration,
            finished: e.finished,
        }
}

/// What a document says of an episode.
pub open spec fn doc_of_episode() -> spec_fn(EpisodeView) -> EpisodeDoc {
    |e: EpisodeView|
        EpisodeDoc {
            season: e.season,
            episode: e.episode,
            title: e.title,
            description: e.description,
            link_or_path: e.link_or_path,
            resume_position: e.resume_position,
            duration: e.duration,
            finished: e.finished,
        }
}

impl Tables {
    /// What a document says of a series.
    pub open spec fn doc_of_series(self) -> spec_fn(EntryView) -> SeriesDoc {
        |e: EntryView|
            SeriesDoc {
                title: e.title,
                description: e.description,
                link_or_path: e.link_or_path,
                episodes: self.listed_episodes(e.id).map_values(doc_of_episode()),
            }
    }

    /// What a document says of the library: its movies and series in the order
    /// of the lists. Posters and the times things were watched at are left out.
    pub open spec fn doc(self) -> LibraryDoc {
        LibraryDoc {
            movies: self.listed_entries(EntryKind::Movie).map_values(doc_of_movie()),
            series: self.listed_entries(EntryKind::Series).map_values(self.doc_of_series()),
        }
    }
}

/// The value is an object that holds just these keys.
pub open spec fn has_keys(v: Value, keys: Set<Seq<char>>) -> bool {
    node(v) matches Node::Object(m) && m.dom() == keys
}

/// A movie as it is written.
pub open spec fn writes_movie(v: Value, m: MovieDoc) -> bool {
    &&& has_keys(
        v,
        set![
            "title"@,
            "description"@,
            "link_or_path"@,
            "resume_position"@,
            "duration"@,
            "finished"@,
        ],
    )
    &&& text_field(v, "title"@) == Some(m.title)
    &&& text_field(v, "description"@) == Some(m.description)
    &&& text_field(v, "link_or_path"@) == Some(m.link_or_path)
    &&& integer_field(v, "resume_position"@) == Some(m.resume_position)
    &&& integer_field(v, "duration"@) == Some(m.duration)
    &&& bool_field(v, "finished"@) == Some(m.finished)
}

/// An episode as it is written.
pub open spec fn writes_episode(v: Value, e: EpisodeDoc) -> bool {
    &&& has_keys(
        v,
        set![
            "season"@,
            "episode"@,
            "title"@,
            "description"@,
            "link_or_path"@,
            "resume_position"@,
            "duration"@,
            "finished"@,
        ],
    )
    &&& integer_field(v, "season"@) == Some(e.season as i64)
    &&& integer_field(v, "episode"@) == Some(e.episode as i64)
    &&& text_field(v, "title"@) == Some(e.title)
    &&& text_field(v, "description"@) == Some(e.description)
    &&& text_field(v, "link_or_path"@) == Some(e.link_or_path)
    &&& integer_field(v, "resume_position"@) == Some(e.resume_position)
    &&& integer_field(v, "duration"@) == Some(e.duration)
    &&& bool_field(v, "finished"@) == Some(e.finished)
}

/// A series as it is written.
pub open spec fn writes_series(v: Value, s: SeriesDoc) -> bool {
    &&& has_keys(v, set!["title"@, "description"@, "link_or_path"@, "episodes"@])
    &&& text_field(v, "title"@) == Some(s.title)
    &&& text_field(v, "description"@) == Some(s.description)
    &&& text_field(v, "link_or_path"@) == Some(s.link_or_path)
    &&& array_field(v, "episodes"@) matches Some(list) && list.len() == s.episodes.len()
        && forall|i: int|
        0 <= i < list.len() ==> writes_episode(#[trigger] list[i], s.episodes[i])
}

/// A document as it is written.
pub open spec fn writes_library(v: Value, doc: LibraryDoc) -> bool {
    &&& has_keys(v, set!["format"@, "movies"@, "series"@])
    &&& text_field(v, "format"@) == Some("aparatchi-library-v1"@)
    &&& array_field(v, "movies"@) matches Some(list) && list.len() == doc.movies.len()
        && forall|i: int| 0 <= i < list.len() ==> writes_movie(#[trigger] list[i], doc.movies[i])
    &&& array_field(v, "series"@) matches Some(list) && list.len() == doc.series.len()
        && forall|i: int| 0 <= i < list.len() ==> writes_series(#[trigger] list[i], doc.series[i])
}

/// What tells the keys apart.
proof fn lemma_keys()
    ensures
        "title"@.len() == 5,
        "format"@.len() == 6 && "format"@[0] == 'f',
        "movies"@.len() == 6 && "movies"@[0] == 'm',
        "series"@.len() == 6 && "series"@[0] == 's',
        "season"@.len() == 6,
        "episode"@.len() == 7,
        "episodes"@.len() == 8,
        "duration"@.len() == 8 && "duration"@[0] == 'd',
        "finished"@.len() == 8 && "finished"@[0] == 'f',
        "description"@.len() == 11,
        "link_or_path"@.len() == 12,
        "resume_position"@.len() == 15,
{
    reveal_strlit("title");
    reveal_strlit("format");
    reveal_strlit("movies");
    reveal_strlit("series");
    reveal_strlit("season");
    reveal_strlit("episode");
    reveal_strlit("episodes");
    reveal_strlit("duration");
    reveal_strlit("finished");
    reveal_strlit("description");
    reveal_strlit("link_or_path");
    reveal_strlit("resume_position");
}

fn put(fields: &mut Vec<(String, Value)>, key: &str, value: Value)
    requires
        keys_differ(old(fields)@),
        !members(old(fields)@).contains_key(key@),
    ensures
        keys_differ(final(fields)@),
        members(final(fields)@) == members(old(fields)@).insert(key@, value),
{
    let ghost before = fields@;
    let name = key.to_owned();
    fields.push((name, value));
    assert(fields@.drop_last() == before);
    assert forall|i: int, j: int|
        #![trigger fields@[i], fields@[j]]
        0 <= i < j < fields@.len() implies fields@[i].0@ != fields@[j].0@ by {
        if j == before.len() {
            lemma_member(before, i);
        }
        assert(fields@[i] == before[i]);
    }
}

fn movie_value(e: &Entry) -> (res: Value)
    ensures
        writes_movie(res, doc_of_movie()(e@)),
{
    let mut fields: Vec<(String, Value)> = Vec::new();
    proof {
        lemma_keys();
    }
    put(&mut fields, "title", text_value(e.title.as_str()));
    put(&mut fields, "description", text_value(e.description.as_str()));
    put(&mut fields, "link_or_path", text_value(e.link_or_path.as_str()));
    put(&mut fields, "resume_position", integer_value(e.resume_position));
    put(&mut fields, "duration", integer_value(e.duration));
    put(&mut fields, "finished", bool_value(e.finished));
    let ghost m = members(fields@);
    proof {
        assert(m.dom() =~= set![
            "title"@,
            "description"@,
            "link_or_path"@,
            "resume_position"@,
            "duration"@,
            "finished"@,
        ]);
    }
    object_value(fields)
}

fn episode_value(e: &Episode) -> (res: Value)
    ensures
        writes_episode(res, doc_of_episode()(e@)),
{
    let mut fields: Vec<(String, Value)> = Vec::new();
    proof {
        lemma_keys();
    }
    put(&mut fields, "season", integer_value(e.season as i64));
    put(&mut fields, "episode", integer_value(e.episode as i64));
    put(&mut fields, "title", text_value(e.title.as_str()));
    put(&mut fields, "description", text_value(e.description.as_str()));
    put(&mut fields, "link_or_path", text_value(e.link_or_path.as_str()));
    put(&mut fields, "resume_position", integer_value(e.resume_position));
    put(&mut fields, "duration", integer_value(e.duration));
    put(&mut fields, "finished", bool_value(e.finished));
    let ghost m = members(fields@);
    proof {
        assert(m.dom() =~= set![
            "season"@,
            "episode"@,
            "title"@,
            "description"@,
            "link_or_path"@,
            "resume_position"@,
            "duration"@,
            "finished"@,
        ]);
    }
    object_value(fields)
}

fn series_value(library: &Library, e: &Entry) -> (res: Value)
    ensures
        writes_series(res, library@.tables.doc_of_series()(e@)),
{
    let episodes = list_episodes(library, e.id);
    let ghost docs = library@.tables.doc_of_series()(e@).episodes;
    assert(docs == episode_views(episodes@).map_values(doc_of_episode()));
    let mut list: Vec<Value> = Vec::new();
    let mut i: usize = 0;
    while i < episodes.len()
        invariant
            i <= episodes@.len(),
            list@.len() == i,
            docs == episode_views(episodes@).map_values(doc_of_episode()),
            forall|k: int| 0 <= k < i ==> writes_episode(#[trigger] list@[k], docs[k]),
        decreases episodes@.len() - i,
    {
        let v = episode_value(&episodes[i]);
        assert(docs[i as int] == doc_of_episode()(episodes@[i as int]@));
        list.push(v);
        i += 1;
    }
    let mut fields: Vec<(String, Value)> = Vec::new();
    proof {
        lemma_keys();
    }
    put(&mut fields, "title", text_value(e.title.as_str()));
    put(&mut fields, "description", text_value(e.description.as_str()));
    put(&mut fields, "link_or_path", text_value(e.link_or_path.as_str()));
    put(&mut fields, "episodes", array_value(list));
    let ghost m = members(fields@);
    proof {
        assert(m.dom() =~= set!["title"@, "description"@, "link_or_path"@, "episodes"@]);
    }
    object_value(fields)
}

/// Writes the whole library as a document.
pub fn export_library_json(library: &Library) -> (res: Value)
    ensures
        writes_library(res, library@.tables.doc()),
{
    let ghost t = library@.tables;
    let ghost doc = t.doc();
    let movies = list_entries(library, EntryKind::Movie);
    let series = list_entries(library, EntryKind::Series);
    assert(doc.movies == entry_views(movies@).map_values(doc_of_movie()));
    assert(doc.series == entry_views(series@).map_values(t.doc_of_series()));
    let mut movie_list: Vec<Value> = Vec::new();
    let mut i: usize = 0;
    while i < movies.len()
        invariant
            i <= movies@.len(),
            movie_list@.len() == i,
            doc.movies == entry_views(movies@).map_values(doc_of_movie()),
            forall|k: int| 0 <= k < i ==> writes_movie(#[trigger] movie_list@[k], doc.movies[k]),
        decreases movies@.len() - i,
    {
        let v = movie_value(&movies[i]);
        assert(doc.movies[i as int] == doc_of_movie()(movies@[i as int]@));
        movie_list.push(v);
        i += 1;
    }
    let mut series_list: Vec<Value> = Vec::new();
    let mut j: usize = 0;
    while j < series.len()
        invariant
            j <= series@.len(),
            series_list@.len() == j,
            t == library@.tables,
            doc.series == entry_views(series@).map_values(t.doc_of_series()),
            forall|k: int| 0 <= k < j ==> writes_series(#[trigger] series_list@[k], doc.series[k]),
        decreases series@.len() - j,
    {
        let v = series_value(library, &series[j]);
        assert(doc.series[j as int] == t.doc_of_series()(series@[j as int]@));
        series_list.push(v);
        j += 1;
    }
    let mut fields: Vec<(String, Value)> = Vec::new();
    proof {
        lemma_keys();
    }
    put(&mut fields, "format", text_value("aparatchi-library-v1"));
    put(&mut fields, "movies", array_value(movie_list));
    put(&mut fields, "series", array_value(series_list));
    let ghost m = members(fields@);
    proof {
        assert(m.dom() =~= set!["format"@, "movies"@, "series"@]);
    }
    object_value(fields)
}

/// What is written can be read: a document says what was written into it.
pub proof fn law_document_reads_back(v: Value, doc: LibraryDoc)
    requires
        writes_library(v, doc),
    ensures
        library_doc(v) == doc,
{
    let movies = items_in(v, "movies"@);
    let series = items_in(v, "series"@);
    assert forall|i: int| 0 <= i < movies.len() implies #[trigger] movie_doc()(movies[i])
        == doc.movies[i] by {
        assert(writes_movie(movies[i], doc.movies[i]));
    }
    assert(library_doc(v).movies =~= doc.movies);
    assert forall|i: int| 0 <= i < series.len() implies #[trigger] series_doc()(series[i])
        == doc.series[i] by {
        assert(writes_series(series[i], doc.series[i]));
        let list = items_in(series[i], "episodes"@);
        assert forall|k: int| 0 <= k < list.len() implies #[trigger] episode_doc()(list[k])
            == doc.series[i].episodes[k] by {
            assert(writes_episode(list[k], doc.series[i].episodes[k]));
        }
        assert(series_doc()(series[i]).episodes =~= doc.series[i].episodes);
    }
    assert(library_doc(v).series =~= doc.series);
}

// ---------------------------------------------------------------------
// Documents as texts
// ---------------------------------------------------------------------

proof fn lemma_movie_plain(v: Value, m: MovieDoc, depth: nat)
    requires
        writes_movie(v, m),
        depth >= 1,
    ensures
        plain(v, depth),
{
    reveal_with_fuel(plain, 2);
    if let Node::Object(m) = node(v) {
        assert forall|k: Seq<char>| m.contains_key(k) implies plain(
            #[trigger] m[k],
            (depth - 1) as nat,
        ) by {
            assert(m.dom().contains(k));
        }
    }
}

proof fn lemma_episode_plain(v: Value, e: EpisodeDoc, depth: nat)
    requires
        writes_episode(v, e),
        depth >= 1,
    ensures
        plain(v, depth),
{
    reveal_with_fuel(plain, 2);
    if let Node::Object(m) = node(v) {
        assert forall|k: Seq<char>| m.contains_key(k) implies plain(
            #[trigger] m[k],
            (depth - 1) as nat,
        ) by {
            assert(m.dom().contains(k));
        }
    }
}

proof fn lemma_series_plain(v: Value, s: SeriesDoc, depth: nat)
    requires
        writes_series(v, s),
        depth >= 3,
    ensures
        plain(v, depth),
{
    let list = array_field(v, "episodes"@)->0;
    let inner = (depth - 2) as nat;
    assert forall|i: int| 0 <= i < list.len() implies plain(#[trigger] list[i], inner) by {
        lemma_episode_plain(list[i], s.episodes[i], inner);
    }
    assert(plain(field_of(v, "episodes"@)->0, (depth - 1) as nat));
    reveal_with_fuel(plain, 2);
    if let Node::Object(m) = node(v) {
        assert forall|k: Seq<char>| m.contains_key(k) implies plain(
            #[trigger] m[k],
            (depth - 1) as nat,
        ) by {
            assert(m.dom().contains(k));
        }
    }
}

proof fn lemma_library_plain(v: Value, doc: LibraryDoc)
    requires
        writes_library(v, doc),
    ensures
        plain(v, shallow()),
{
    let movies = array_field(v, "movies"@)->0;
    let series = array_field(v, "series"@)->0;
    let outer = (shallow() - 1) as nat;
    let inner = (shallow() - 2) as nat;
    assert forall|i: int| 0 <= i < movies.len() implies plain(#[trigger] movies[i], inner) by {
        lemma_movie_plain(movies[i], doc.movies[i], inner);
    }
    assert forall|i: int| 0 <= i < series.len() implies plain(#[trigger] series[i], inner) by {
        lemma_series_plain(series[i], doc.series[i], inner);
    }
    assert(plain(field_of(v, "movies"@)->0, outer));
    assert(plain(field_of(v, "series"@)->0, outer));
    reveal_with_fuel(plain, 2);
    if let Node::Object(m) = node(v) {
        assert forall|k: Seq<char>| m.contains_key(k) implies plain(
            #[trigger] m[k],
            outer,
        ) by {
            assert(m.dom().contains(k));
        }
    }
}

/// A text that a document was written as.
pub open spec fn written_as(text: Seq<char>, doc: LibraryDoc) -> bool {
    exists|v: Value| #[trigger] writes_library(v, doc) && text == pretty(v) && reads_as(text, v)
}

/// Writes the whole library as a text.
pub fn export_library_text(library: &Library) -> (res: String)
    ensures
        written_as(res@, library@.tables.doc()),
{
    let v = export_library_json(library);
    proof {
        lemma_library_plain(v, library@.tables.doc());
    }
    write_pretty(&v)
}

/// Reading a text that a library was written as gives what the library held.
pub proof fn law_text_reads_back(text: Seq<char>, doc: LibraryDoc)
    requires
        written_as(text, doc),
    ensures
        parsed(encode_utf8(text)) matches Ok(v) && library_doc(v) == doc,
{
    let v = choose|v: Value|
        #[trigger] writes_library(v, doc) && text == pretty(v) && reads_as(text, v);
    law_document_reads_back(v, doc);
}

impl AppView {
    /// The state after a document was read in, or could not be read.
    pub open spec fn import_read(self, read: Result<Value, Seq<char>>) -> AppView {
        match read {
            Ok(v) => {
                let doc = library_doc(v);
                let movies = self.library.room_for(doc.movies.len());
                let series = self.library.import_movies(doc.movies).room_for(doc.series.len());
                self.with_library(self.library.imported(doc)).refresh_sidebar().with_status(
                    "Imported "@ + decimal(movies) + " movie(s) and "@ + decimal(series)
                        + " series."@,
                )
            },
            Err(e) => self.with_status("Import failed: "@ + e),
        }
    }
}

pub open spec fn read_view(read: Result<Value, String>) -> Result<Value, Seq<char>> {
    match read {
        Ok(v) => Ok(v),
        Err(e) => Err(e@),
    }
}

impl AppState {
    /// Adds what a document holds, or tells why it could not be read.
    pub fn finish_import(&mut self, read: Result<Value, String>)
        requires
            old(self).wf(),
        ensures
            final(self).wf(),
            final(self)@ == old(self)@.import_read(read_view(read)),
    {
        match read {
            Ok(v) => {
                let (movies, series): (usize, usize) = import_library_json(&mut self.library, &v);
                self.refresh_sidebar();
                let status = concat5(
                    "Imported ",
                    count_text(movies).as_str(),
                    " movie(s) and ",
                    count_text(series).as_str(),
                    " series.",
                );
                self.set_status(status.as_str());
            },
            Err(e) => {
                let status = concat2("Import failed: ", e.as_str());
                self.set_status(status.as_str());
            },
        }
    }

    /// Reads a text and adds what it holds.
    pub fn import_library(&mut self, content: &str)
        requires
            old(self).wf(),
        ensures
            final(self).wf(),
            final(self)@ == old(self)@.import_read(parsed(encode_utf8(content@))),
    {
        let read = parse(content.as_bytes());
        self.finish_import(read);
    }

    /// Tells that the file to read could not be read.
    pub fn import_failed(&mut self, cause: &str)
        ensures
            final(self)@ == old(self)@.with_status("Import failed: "@ + cause@),
    {
        let status = concat2("Import failed: ", cause);
        self.set_status(status.as_str());
    }

    /// Tells whether the library was stored in a file.
    pub fn finish_export(&mut self, stored: Result<(), String>)
        ensures
            final(self)@ == old(self)@.with_status(
                match stored {
                    Ok(_) => "Library exported."@,
                    Err(e) => "Export failed: "@ + e@,
                },
            ),
    {
        match stored {
            Ok(_) => self.set_status("Library exported."),
            Err(e) => {
                let status = concat2("Export failed: ", e.as_str());
                self.set_status(status.as_str());
            },
        }
    }
}

} // verus!
