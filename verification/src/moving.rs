//! What a document says of the library it was written from, and what a library
//! holds of the document it read, member by member.

use serde_json::Value;
use vstd::prelude::*;

use crate::browsing::{is_listed, law_episodes_in_order, lemma_is_listed, lemma_listed_row};
use crate::db::{lemma_title_order, of_entry, of_kind, title_order};
use crate::json::{array_field, bool_field, integer_field, text_field};
use crate::laws::lemma_sorted_contains;
use crate::models::{EntryKind, EntryView, EpisodeView};
use crate::restoring::{
    all_episode_rows, episode_count, episode_rows, fits, law_import_adds_rows,
    lemma_rows_of_series, movie_rows, series_rows,
};
use crate::showing::lemma_contains_filter;
use crate::state::AppView;
use crate::tables::Tables;
use crate::text::decimal;
use crate::transfer::{
    library_doc, writes_episode, writes_library, writes_movie, writes_series, LibraryDoc,
};
use crate::watching::belongs;

verus! {

broadcast use vstd::string::group_string_axioms;

// ---------------------------------------------------------------------
// Writing
// ---------------------------------------------------------------------

/// A value says of a movie what is to be kept of it.
pub open spec fn says_movie(v: Value, e: EntryView) -> bool {
    &&& text_field(v, "title"@) == Some(e.title)
    &&& text_field(v, "description"@) == Some(e.description)
    &&& text_field(v, "link_or_path"@) == Some(e.link_or_path)
    &&& integer_field(v, "resume_position"@) == Some(e.resume_position)
    &&& integer_field(v, "duration"@) == Some(e.duration)
    &&& bool_field(v, "finished"@) == Some(e.finished)
}

/// A value says of an episode what is to be kept of it.
pub open spec fn says_episode(v: Value, e: EpisodeView) -> bool {
    &&& integer_field(v, "season"@) == Some(e.season as i64)
    &&& integer_field(v, "episode"@) == Some(e.episode as i64)
    &&& text_field(v, "title"@) == Some(e.title)
    &&& text_field(v, "description"@) == Some(e.description)
    &&& text_field(v, "link_or_path"@) == Some(e.link_or_path)
    &&& integer_field(v, "resume_position"@) == Some(e.resume_position)
    &&& integer_field(v, "duration"@) == Some(e.duration)
    &&& bool_field(v, "finished"@) == Some(e.finished)
}

/// One of some values says of an episode what is to be kept of it.
pub open spec fn episode_said(list: Seq<Value>, e: EpisodeView) -> bool {
    exists|i: int| 0 <= i < list.len() && says_episode(#[trigger] list[i], e)
}

/// A value says of one of the episodes of a series what is to be kept of it.
pub open spec fn says_some_episode(v: Value, t: Tables, entry_id: i64) -> bool {
    exists|x: EpisodeView| #[trigger] belongs(t, entry_id, x) && says_episode(v, x)
}

/// A value says of a series what is to be kept of it, with all its episodes and no
/// others.
pub open spec fn says_series(v: Value, t: Tables, e: EntryView) -> bool {
    &&& text_field(v, "title"@) == Some(e.title)
    &&& text_field(v, "description"@) == Some(e.description)
    &&& text_field(v, "link_or_path"@) == Some(e.link_or_path)
    &&& array_field(v, "episodes"@) is Some
    &&& forall|x: EpisodeView| #[trigger]
        belongs(t, e.id, x) ==> episode_said(array_field(v, "episodes"@)->0, x)
    &&& forall|i: int|
        0 <= i < array_field(v, "episodes"@)->0.len() ==> says_some_episode(
            #[trigger] array_field(v, "episodes"@)->0[i],
            t,
            e.id,
        )
}

/// One of some values says of a movie what is to be kept of it.
pub open spec fn movie_said(list: Seq<Value>, e: EntryView) -> bool {
    exists|i: int| 0 <= i < list.len() && says_movie(#[trigger] list[i], e)
}

/// A value says of one of the listed movies what is to be kept of it.
pub open spec fn says_some_movie(v: Value, t: Tables) -> bool {
    exists|e: EntryView| #[trigger] is_listed(t, e) && e.kind == EntryKind::Movie && says_movie(v, e)
}

/// One of some values says of a series what is to be kept of it.
pub open spec fn series_said(list: Seq<Value>, t: Tables, e: EntryView) -> bool {
    exists|i: int| 0 <= i < list.len() && says_series(#[trigger] list[i], t, e)
}

/// A value says of one of the listed series what is to be kept of it.
pub open spec fn says_some_series(v: Value, t: Tables) -> bool {
    exists|e: EntryView| #[trigger]
        is_listed(t, e) && e.kind == EntryKind::Series && says_series(v, t, e)
}

/// A document that a library is written as says of each of its listed movies and
/// series what is to be kept of it, and of nothing else.
#[verifier::rlimit(40)]
pub proof fn law_document_says(v: Value, t: Tables, movies: Seq<Value>, series: Seq<Value>)
    requires
        t.wf(),
        writes_library(v, t.doc()),
        array_field(v, "movies"@) == Some(movies),
        array_field(v, "series"@) == Some(series),
    ensures
        forall|e: EntryView| #[trigger]
            is_listed(t, e) && e.kind == EntryKind::Movie ==> movie_said(movies, e),
        forall|i: int| 0 <= i < movies.len() ==> says_some_movie(#[trigger] movies[i], t),
        forall|e: EntryView| #[trigger]
            is_listed(t, e) && e.kind == EntryKind::Series ==> series_said(series, t, e),
        forall|i: int| 0 <= i < series.len() ==> says_some_series(#[trigger] series[i], t),
{
    let listed_movies = t.listed_entries(EntryKind::Movie);
    let listed_series = t.listed_entries(EntryKind::Series);
    assert forall|i: int| 0 <= i < movies.len() implies says_movie(
        #[trigger] movies[i],
        listed_movies[i],
    ) by {
        assert(writes_movie(movies[i], t.doc().movies[i]));
    }
    assert forall|i: int| 0 <= i < series.len() implies says_series(
        #[trigger] series[i],
        t,
        listed_series[i],
    ) by {
        assert(writes_series(series[i], t.doc().series[i]));
        lemma_says_series(series[i], t, listed_series[i]);
    }
    assert forall|e: EntryView| #[trigger]
        is_listed(t, e) && e.kind == EntryKind::Movie implies movie_said(movies, e) by {
        lemma_listed_at(t, e);
        let i = choose|i: int| 0 <= i < listed_movies.len() && listed_movies[i] == e;
        assert(says_movie(movies[i], listed_movies[i]));
    }
    assert forall|e: EntryView| #[trigger]
        is_listed(t, e) && e.kind == EntryKind::Series implies series_said(series, t, e) by {
        lemma_listed_at(t, e);
        let i = choose|i: int| 0 <= i < listed_series.len() && listed_series[i] == e;
        assert(says_series(series[i], t, listed_series[i]));
    }
    assert forall|i: int| 0 <= i < movies.len() implies says_some_movie(#[trigger] movies[i], t) by {
        lemma_listed_row(t, EntryKind::Movie, i);
        assert(says_movie(movies[i], listed_movies[i]));
    }
    assert forall|i: int| 0 <= i < series.len() implies says_some_series(
        #[trigger] series[i],
        t,
    ) by {
        lemma_listed_row(t, EntryKind::Series, i);
        assert(says_series(series[i], t, listed_series[i]));
    }
}

proof fn lemma_says_series(v: Value, t: Tables, e: EntryView)
    requires
        t.wf(),
        writes_series(v, t.doc_of_series()(e)),
    ensures
        says_series(v, t, e),
{
    let list = array_field(v, "episodes"@)->0;
    let listed = t.listed_episodes(e.id);
    law_episodes_in_order(t, e.id);
    let docs = t.doc_of_series()(e).episodes;
    assert forall|k: int| 0 <= k < list.len() implies says_episode(#[trigger] list[k], listed[k]) by {
        assert(writes_episode(list[k], docs[k]));
    }
    assert forall|x: EpisodeView| #[trigger] belongs(t, e.id, x) implies episode_said(list, x) by {
        let k = choose|k: int| 0 <= k < listed.len() && listed[k] == x;
        assert(says_episode(list[k], listed[k]));
    }
    assert forall|k: int| 0 <= k < list.len() implies says_some_episode(
        #[trigger] list[k],
        t,
        e.id,
    ) by {
        assert(belongs(t, e.id, listed[k]));
        assert(says_episode(list[k], listed[k]));
    }
}

proof fn lemma_listed_at(t: Tables, e: EntryView)
    requires
        t.wf(),
        is_listed(t, e),
    ensures
        t.listed_entries(e.kind).contains(e),
{
    let p = of_kind(e.kind, t.unlisted);
    lemma_is_listed(t, e);
    lemma_title_order();
    lemma_contains_filter(t.entries, p, e);
    lemma_sorted_contains(t.entries.filter(p), title_order(), e);
}

// ---------------------------------------------------------------------
// Reading
// ---------------------------------------------------------------------

/// What is given, or something else where nothing is.
pub open spec fn given<A>(value: Option<A>, otherwise: A) -> A {
    match value {
        Some(x) => x,
        None => otherwise,
    }
}

/// A movie is the one that a value describes. A movie without a title is untitled,
/// and whatever else is missing is nothing.
pub open spec fn is_movie_of(e: EntryView, v: Value) -> bool {
    &&& e.kind == EntryKind::Movie
    &&& e.title == given(text_field(v, "title"@), "Untitled"@)
    &&& e.description == given(text_field(v, "description"@), Seq::empty())
    &&& e.link_or_path == given(text_field(v, "link_or_path"@), Seq::empty())
    &&& e.resume_position == given(integer_field(v, "resume_position"@), 0)
    &&& e.duration == given(integer_field(v, "duration"@), 0)
    &&& e.finished == given(bool_field(v, "finished"@), false)
}

/// A series is the one that a value describes, episodes aside.
pub open spec fn is_series_of(e: EntryView, v: Value) -> bool {
    &&& e.kind == EntryKind::Series
    &&& e.title == given(text_field(v, "title"@), "Untitled"@)
    &&& e.description == given(text_field(v, "description"@), Seq::empty())
    &&& e.link_or_path == given(text_field(v, "link_or_path"@), Seq::empty())
    &&& e.resume_position == 0 && e.duration == 0 && !e.finished
}

/// An episode is the one that a value describes. Numbers that are missing are one.
pub open spec fn is_episode_of(e: EpisodeView, v: Value) -> bool {
    let season = given(integer_field(v, "season"@), 1);
    let episode = given(integer_field(v, "episode"@), 1);
    &&& i32::MIN <= season <= i32::MAX ==> e.season == season
    &&& i32::MIN <= episode <= i32::MAX ==> e.episode == episode
    &&& e.title == given(text_field(v, "title"@), Seq::empty())
    &&& e.description == given(text_field(v, "description"@), Seq::empty())
    &&& e.link_or_path == given(text_field(v, "link_or_path"@), Seq::empty())
    &&& e.resume_position == given(integer_field(v, "resume_position"@), 0)
    &&& e.duration == given(integer_field(v, "duration"@), 0)
    &&& e.finished == given(bool_field(v, "finished"@), false)
}

/// The user is told how many movies and how many series a document brought.
pub proof fn law_import_counted(s: AppView, v: Value, movies: Seq<Value>, series: Seq<Value>)
    requires
        s.wf(),
        fits(s.library.tables, library_doc(v)),
        movies == given(array_field(v, "movies"@), Seq::empty()),
        series == given(array_field(v, "series"@), Seq::empty()),
    ensures
        s.import_read(Ok(v)).status == "Imported "@ + decimal(movies.len() as int)
            + " movie(s) and "@ + decimal(series.len() as int) + " series."@,
{
    let doc = library_doc(v);
    let first = LibraryDoc { movies: doc.movies, series: Seq::empty() };
    law_import_adds_rows(s.library, first);
    assert(s.library.imported(first) == s.library.import_movies(doc.movies));
}

/// Reading a document adds each movie and each series that it describes, as it
/// describes it, behind the entries that were there; each series gets the episodes
/// that are described for it. Nothing that was there changes.
#[verifier::rlimit(40)]
pub proof fn law_document_added(s: AppView, v: Value, movies: Seq<Value>, series: Seq<Value>)
    requires
        s.wf(),
        s.library.tables.last_entry_id >= 0,
        fits(s.library.tables, library_doc(v)),
        movies == given(array_field(v, "movies"@), Seq::empty()),
        series == given(array_field(v, "series"@), Seq::empty()),
    ensures
        ({
            let before = s.library.tables;
            let after = s.import_read(Ok(v)).library.tables;
            let n = before.entries.len() as int;
            &&& after.entries.len() == n + movies.len() + series.len()
            &&& forall|i: int| 0 <= i < n ==> #[trigger] after.entries[i] == before.entries[i]
            &&& forall|i: int|
                0 <= i < movies.len() ==> is_movie_of(after.entries[n + i], #[trigger] movies[i])
            &&& forall|i: int|
                0 <= i < series.len() ==> is_series_of(
                    after.entries[n + movies.len() + i],
                    #[trigger] series[i],
                )
            &&& forall|i: int|
                0 <= i < series.len() ==> gets_episodes(
                    before,
                    after,
                    after.entries[n + movies.len() + i].id,
                    #[trigger] series[i],
                )
            &&& after.unlisted == before.unlisted
            &&& after.patterns == before.patterns
            &&& after.last_played == before.last_played && after.vlc_path == before.vlc_path
                && after.subtitle_lang == before.subtitle_lang
        }),
{
    let before = s.library.tables;
    let doc = library_doc(v);
    law_import_adds_rows(s.library, doc);
    let after = before.with_document(doc);
    assert(s.import_read(Ok(v)).library.tables == after);
    let n = before.entries.len() as int;
    assert forall|i: int| 0 <= i < movies.len() implies is_movie_of(
        after.entries[n + i],
        #[trigger] movies[i],
    ) by {
        lemma_movie_at(before, v, movies, i);
    }
    assert forall|i: int| 0 <= i < series.len() implies is_series_of(
        after.entries[n + movies.len() + i],
        #[trigger] series[i],
    ) && gets_episodes(
        before,
        after,
        after.entries[n + movies.len() + i].id,
        series[i],
    ) by {
        lemma_series_at(before, v, movies, series, i);
    }
}

proof fn lemma_movie_at(before: Tables, v: Value, movies: Seq<Value>, i: int)
    requires
        movies == given(array_field(v, "movies"@), Seq::empty()),
        0 <= i < movies.len(),
    ensures
        is_movie_of(
            before.with_document(library_doc(v)).entries[before.entries.len() + i],
            movies[i],
        ),
{
    reveal_strlit("");
    assert(""@ =~= Seq::<char>::empty());
    let doc = library_doc(v);
    let m = movie_rows(before.last_entry_id as int, doc.movies);
    assert(before.with_document(doc).entries[before.entries.len() + i] == m[i]);
    assert(doc.movies[i] == crate::transfer::movie_doc()(movies[i]));
}

#[verifier::rlimit(40)]
proof fn lemma_series_at(
    before: Tables,
    v: Value,
    movies: Seq<Value>,
    series: Seq<Value>,
    i: int,
)
    requires
        before.last_entry_id >= 0,
        fits(before, library_doc(v)),
        movies == given(array_field(v, "movies"@), Seq::empty()),
        series == given(array_field(v, "series"@), Seq::empty()),
        0 <= i < series.len(),
    ensures
        ({
            let after = before.with_document(library_doc(v));
            let e = after.entries[before.entries.len() + movies.len() + i];
            is_series_of(e, series[i]) && gets_episodes(before, after, e.id, series[i])
        }),
{
    reveal_strlit("");
    assert(""@ =~= Seq::<char>::empty());
    let doc = library_doc(v);
    let after = before.with_document(doc);
    let last_series = before.last_entry_id + doc.movies.len();
    let r = series_rows(last_series, doc.series);
    assert(after.entries[before.entries.len() + movies.len() + i] == r[i]);
    assert(doc.series[i] == crate::transfer::series_doc()(series[i]));
    let id = (last_series + 1 + i) as i64;
    let list = given(array_field(series[i], "episodes"@), Seq::<Value>::empty());
    let docs = doc.series[i].episodes;
    let all = all_episode_rows(before.last_episode_id as int, last_series, doc.series);
    lemma_rows_of_series(before.last_episode_id as int, last_series, doc.series, i);
    let rows = episode_rows(before.last_episode_id + episode_count(doc.series.take(i)), id, docs);
    Seq::filter_distributes_over_add(before.episodes, all, of_entry(id));
    let had = before.episodes_of(id);
    let has = after.episodes_of(id);
    assert(has == had + rows);
    assert forall|k: int| 0 <= k < list.len() implies is_episode_of(
        has[had.len() + k],
        #[trigger] list[k],
    ) && has[had.len() + k].entry_id == id by {
        assert(has[had.len() + k] == rows[k]);
        assert(docs[k] == crate::transfer::episode_doc()(list[k]));
    }
}

/// A series has the episodes that a value describes for it, behind any that were
/// there under its id.
pub open spec fn gets_episodes(before: Tables, after: Tables, id: i64, v: Value) -> bool {
    let list = given(array_field(v, "episodes"@), Seq::empty());
    let had = before.episodes_of(id);
    let has = after.episodes_of(id);
    &&& has.len() == had.len() + list.len()
    &&& forall|k: int| 0 <= k < had.len() ==> #[trigger] has[k] == had[k]
    &&& forall|k: int|
        0 <= k < list.len() ==> is_episode_of(has[had.len() + k], #[trigger] list[k]) && has[had.len()
            + k].entry_id == id
}

/// A document that cannot be read changes nothing in the library; the user is told
/// why.
pub proof fn law_unreadable_document(s: AppView, cause: Seq<char>)
    ensures
        s.import_read(Err(cause)) == (AppView { status: "Import failed: "@ + cause, ..s }),
{
}

} // verus!
