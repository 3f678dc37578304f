//! What reading a document does to the rows, and that a library restored from
//! its own document holds the same.

use vstd::prelude::*;

use crate::db::{
    episode_order, lemma_episode_order, lemma_title_order, of_entry, of_kind, title_order,
};
use crate::models::{EntryKind, EntryView, EpisodeView};
use crate::rows::{lemma_filter_all, lemma_filter_none};
use crate::sorting::{in_order, law_stable_sorted, stable_sorted};
use crate::tables::{
    entry_resumed, episode_resumed, law_changes_keep_tables, ChangeView, LibraryView, Tables,
};
use crate::text::{folded, text_le};
use crate::transfer::{doc_of_episode, EpisodeDoc, LibraryDoc, MovieDoc, SeriesDoc};

verus! {

broadcast use vstd::string::group_string_axioms;

// ---------------------------------------------------------------------
// The rows that a document becomes
// ---------------------------------------------------------------------

/// The row that a movie becomes.
pub open spec fn movie_row(id: i64, m: MovieDoc) -> EntryView {
    EntryView {
        id,
        title: m.title,
        kind: EntryKind::Movie,
        description: m.description,
        link_or_path: m.link_or_path,
        resume_position: m.resume_position,
        duration: m.duration,
        finished: m.finished,
        last_watched_at: 0,
    }
}

/// The row that a series becomes.
pub open spec fn series_row(id: i64, s: SeriesDoc) -> EntryView {
    EntryView {
        id,
        title: s.title,
        kind: EntryKind::Series,
        description: s.description,
        link_or_path: s.link_or_path,
        resume_position: 0,
        duration: 0,
        finished: false,
        last_watched_at: 0,
    }
}

/// The row that an episode becomes.
pub open spec fn episode_row(id: i64, entry_id: i64, e: EpisodeDoc) -> EpisodeView {
    EpisodeView {
        id,
        entry_id,
        season: e.season,
        episode: e.episode,
        title: e.title,
        description: e.description,
        link_or_path: e.link_or_path,
        resume_position: e.resume_position,
        duration: e.duration,
        finished: e.finished,
    }
}

/// The rows that movies become, with ids after `last`.
pub open spec fn movie_rows(last: int, docs: Seq<MovieDoc>) -> Seq<EntryView> {
    Seq::new(docs.len(), |i: int| movie_row((last + 1 + i) as i64, docs[i]))
}

/// The rows that series become, with ids after `last`.
pub open spec fn series_rows(last: int, docs: Seq<SeriesDoc>) -> Seq<EntryView> {
    Seq::new(docs.len(), |i: int| series_row((last + 1 + i) as i64, docs[i]))
}

/// The rows that the episodes of a series become, with ids after `last`.
pub open spec fn episode_rows(last: int, entry_id: i64, docs: Seq<EpisodeDoc>) -> Seq<EpisodeView> {
    Seq::new(docs.len(), |i: int| episode_row((last + 1 + i) as i64, entry_id, docs[i]))
}

/// How many episodes some series have.
pub open spec fn episode_count(docs: Seq<SeriesDoc>) -> nat
    decreases docs.len(),
{
    if docs.len() == 0 {
        0
    } else {
        episode_count(docs.drop_last()) + docs.last().episodes.len()
    }
}

/// The rows that the episodes of some series become: episode ids go on after
/// `last`, those of the series after `last_entry`.
pub open spec fn all_episode_rows(last: int, last_entry: int, docs: Seq<SeriesDoc>) -> Seq<EpisodeView>
    decreases docs.len(),
{
    if docs.len() == 0 {
        Seq::empty()
    } else {
        all_episode_rows(last, last_entry, docs.drop_last()) + episode_rows(
            last + episode_count(docs.drop_last()),
            (last_entry + docs.len()) as i64,
            docs.last().episodes,
        )
    }
}

/// There are ids for everything in a document.
pub open spec fn fits(t: Tables, doc: LibraryDoc) -> bool {
    &&& t.last_entry_id + doc.movies.len() + doc.series.len() <= i64::MAX
    &&& t.last_episode_id + episode_count(doc.series) <= i64::MAX
}

impl Tables {
    /// The tables with a row for everything in a document added.
    pub open spec fn with_document(self, doc: LibraryDoc) -> Tables {
        let last = self.last_entry_id as int;
        let last_series = last + doc.movies.len();
        Tables {
            entries: self.entries + movie_rows(last, doc.movies) + series_rows(
                last_series,
                doc.series,
            ),
            episodes: self.episodes + all_episode_rows(
                self.last_episode_id as int,
                last_series,
                doc.series,
            ),
            last_entry_id: (last_series + doc.series.len()) as i64,
            last_episode_id: (self.last_episode_id + episode_count(doc.series)) as i64,
            ..self
        }
    }
}

proof fn lemma_import_movie(l: LibraryView, m: MovieDoc)
    requires
        l.tables.wf(),
        l.tables.last_entry_id < i64::MAX,
    ensures
        l.import_movie(m).tables.wf(),
        l.import_movie(m).tables == (Tables {
            entries: l.tables.entries.push(
                movie_row((l.tables.last_entry_id + 1) as i64, m),
            ),
            last_entry_id: (l.tables.last_entry_id + 1) as i64,
            ..l.tables
        }),
{
    let id = (l.tables.last_entry_id + 1) as i64;
    let insert = ChangeView::InsertEntry {
        id,
        title: m.title,
        kind: EntryKind::Movie,
        description: m.description,
        link_or_path: m.link_or_path,
    };
    let resume = ChangeView::UpdateEntryResume {
        id,
        position: m.resume_position,
        duration: m.duration,
        finished: m.finished,
    };
    law_changes_keep_tables(l.tables, insert);
    law_changes_keep_tables(l.tables.applied(insert), resume);
    let f = entry_resumed(id, m.resume_position, m.duration, m.finished);
    assert(l.tables.applied(insert).applied(resume).entries =~= l.tables.entries.push(
        movie_row(id, m),
    )) by {
        let rows = l.tables.applied(insert).entries;
        assert forall|i: int| 0 <= i < l.tables.entries.len() implies f(rows[i])
            == l.tables.entries[i] by {
            assert(l.tables.entries[i].id <= l.tables.last_entry_id);
        }
    }
}

proof fn lemma_import_movies(l: LibraryView, docs: Seq<MovieDoc>)
    requires
        l.tables.wf(),
        l.tables.last_entry_id + docs.len() <= i64::MAX,
    ensures
        l.import_movies(docs).tables.wf(),
        l.import_movies(docs).tables == (Tables {
            entries: l.tables.entries + movie_rows(l.tables.last_entry_id as int, docs),
            last_entry_id: (l.tables.last_entry_id + docs.len()) as i64,
            ..l.tables
        }),
    decreases docs.len(),
{
    let last = l.tables.last_entry_id as int;
    if docs.len() > 0 {
        let rest = docs.drop_last();
        lemma_import_movies(l, rest);
        lemma_import_movie(l.import_movies(rest), docs.last());
        assert(movie_rows(last, docs) =~= movie_rows(last, rest).push(
            movie_row((last + docs.len()) as i64, docs.last()),
        ));
        assert(l.tables.entries + movie_rows(last, docs) =~= (l.tables.entries + movie_rows(
            last,
            rest,
        )).push(movie_row((last + docs.len()) as i64, docs.last())));
    } else {
        assert(l.tables.entries + movie_rows(last, docs) =~= l.tables.entries);
    }
}

proof fn lemma_import_episode(l: LibraryView, entry_id: i64, e: EpisodeDoc)
    requires
        l.tables.wf(),
        l.tables.has_entry(entry_id),
        l.tables.last_episode_id < i64::MAX,
    ensures
        l.import_episode(entry_id, e).tables.wf(),
        l.import_episode(entry_id, e).tables == (Tables {
            episodes: l.tables.episodes.push(
                episode_row((l.tables.last_episode_id + 1) as i64, entry_id, e),
            ),
            last_episode_id: (l.tables.last_episode_id + 1) as i64,
            ..l.tables
        }),
{
    let id = (l.tables.last_episode_id + 1) as i64;
    let insert = ChangeView::InsertEpisode {
        id,
        entry_id,
        season: e.season,
        episode: e.episode,
        title: e.title,
        description: e.description,
        link_or_path: e.link_or_path,
    };
    let resume = ChangeView::UpdateEpisodeResume {
        id,
        position: e.resume_position,
        duration: e.duration,
        finished: e.finished,
    };
    law_changes_keep_tables(l.tables, insert);
    law_changes_keep_tables(l.tables.applied(insert), resume);
    let f = episode_resumed(id, e.resume_position, e.duration, e.finished);
    assert(l.tables.applied(insert).applied(resume).episodes =~= l.tables.episodes.push(
        episode_row(id, entry_id, e),
    )) by {
        let rows = l.tables.applied(insert).episodes;
        assert forall|i: int| 0 <= i < l.tables.episodes.len() implies f(rows[i])
            == l.tables.episodes[i] by {
            assert(l.tables.episodes[i].id <= l.tables.last_episode_id);
        }
    }
}

proof fn lemma_import_episodes(l: LibraryView, entry_id: i64, docs: Seq<EpisodeDoc>)
    requires
        l.tables.wf(),
        l.tables.has_entry(entry_id),
        l.tables.last_episode_id + docs.len() <= i64::MAX,
    ensures
        l.import_episodes(entry_id, docs).tables.wf(),
        l.import_episodes(entry_id, docs).tables == (Tables {
            episodes: l.tables.episodes + episode_rows(
                l.tables.last_episode_id as int,
                entry_id,
                docs,
            ),
            last_episode_id: (l.tables.last_episode_id + docs.len()) as i64,
            ..l.tables
        }),
    decreases docs.len(),
{
    let last = l.tables.last_episode_id as int;
    if docs.len() > 0 {
        let rest = docs.drop_last();
        lemma_import_episodes(l, entry_id, rest);
        let before = l.import_episodes(entry_id, rest);
        assert(before.tables.entries == l.tables.entries);
        assert(before.tables.has_entry(entry_id)) by {
            let k = choose|k: int|
                0 <= k < l.tables.entries.len() && (#[trigger] l.tables.entries[k]).id == entry_id;
            assert(before.tables.entries[k].id == entry_id);
        }
        lemma_import_episode(before, entry_id, docs.last());
        let row = episode_row((last + docs.len()) as i64, entry_id, docs.last());
        assert(episode_rows(last, entry_id, docs) =~= episode_rows(last, entry_id, rest).push(row));
        assert(l.tables.episodes + episode_rows(last, entry_id, docs) =~= (l.tables.episodes
            + episode_rows(last, entry_id, rest)).push(row));
    } else {
        assert(l.tables.episodes + episode_rows(last, entry_id, docs) =~= l.tables.episodes);
    }
}

proof fn lemma_import_one_series(l: LibraryView, s: SeriesDoc)
    requires
        l.tables.wf(),
        l.tables.last_entry_id < i64::MAX,
        l.tables.last_episode_id + s.episodes.len() <= i64::MAX,
    ensures
        l.import_one_series(s).tables.wf(),
        l.import_one_series(s).tables == (Tables {
            entries: l.tables.entries.push(series_row((l.tables.last_entry_id + 1) as i64, s)),
            episodes: l.tables.episodes + episode_rows(
                l.tables.last_episode_id as int,
                (l.tables.last_entry_id + 1) as i64,
                s.episodes,
            ),
            last_entry_id: (l.tables.last_entry_id + 1) as i64,
            last_episode_id: (l.tables.last_episode_id + s.episodes.len()) as i64,
            ..l.tables
        }),
{
    let id = (l.tables.last_entry_id + 1) as i64;
    let insert = ChangeView::InsertEntry {
        id,
        title: s.title,
        kind: EntryKind::Series,
        description: s.description,
        link_or_path: s.link_or_path,
    };
    law_changes_keep_tables(l.tables, insert);
    let mid = l.with(insert);
    assert(mid.tables.entries[l.tables.entries.len() as int].id == id);
    assert(mid.tables.has_entry(id));
    lemma_import_episodes(mid, id, s.episodes);
}

proof fn lemma_import_series(l: LibraryView, docs: Seq<SeriesDoc>)
    requires
        l.tables.wf(),
        l.tables.last_entry_id + docs.len() <= i64::MAX,
        l.tables.last_episode_id + episode_count(docs) <= i64::MAX,
    ensures
        l.import_series(docs).tables.wf(),
        l.import_series(docs).tables == (Tables {
            entries: l.tables.entries + series_rows(l.tables.last_entry_id as int, docs),
            episodes: l.tables.episodes + all_episode_rows(
                l.tables.last_episode_id as int,
                l.tables.last_entry_id as int,
                docs,
            ),
            last_entry_id: (l.tables.last_entry_id + docs.len()) as i64,
            last_episode_id: (l.tables.last_episode_id + episode_count(docs)) as i64,
            ..l.tables
        }),
    decreases docs.len(),
{
    let last = l.tables.last_entry_id as int;
    let last_episode = l.tables.last_episode_id as int;
    if docs.len() > 0 {
        let rest = docs.drop_last();
        lemma_import_series(l, rest);
        let before = l.import_series(rest);
        lemma_import_one_series(before, docs.last());
        let row = series_row((last + docs.len()) as i64, docs.last());
        assert(series_rows(last, docs) =~= series_rows(last, rest).push(row));
        assert(l.tables.entries + series_rows(last, docs) =~= (l.tables.entries + series_rows(
            last,
            rest,
        )).push(row));
        let added = episode_rows(
            last_episode + episode_count(rest),
            (last + docs.len()) as i64,
            docs.last().episodes,
        );
        assert(l.tables.episodes + (all_episode_rows(last_episode, last, rest) + added) =~= (
        l.tables.episodes + all_episode_rows(last_episode, last, rest)) + added);
    } else {
        assert(l.tables.entries + series_rows(last, docs) =~= l.tables.entries);
        assert(l.tables.episodes + all_episode_rows(last_episode, last, docs)
            =~= l.tables.episodes);
    }
}

/// Reading a document adds a new row for each movie, series and episode in it,
/// in the order of the document, and leaves the rows that were there as they
/// are. Reading it a second time therefore adds everything a second time.
pub proof fn law_import_adds_rows(l: LibraryView, doc: LibraryDoc)
    requires
        l.tables.wf(),
        fits(l.tables, doc),
    ensures
        l.imported(doc).tables.wf(),
        l.imported(doc).tables == l.tables.with_document(doc),
{
    lemma_import_movies(l, doc.movies);
    lemma_import_series(l.import_movies(doc.movies), doc.series);
}

// ---------------------------------------------------------------------
// Restoring
// ---------------------------------------------------------------------

/// What is in order already stays as it is when it is sorted.
pub proof fn law_sorted_stays<A>(s: Seq<A>, le: spec_fn(A, A) -> bool)
    requires
        in_order(s, le),
    ensures
        stable_sorted(s, le) == s,
    decreases s.len(),
{
    if s.len() > 0 {
        let rest = s.drop_first();
        assert forall|i: int, j: int| 0 <= i < j < rest.len() implies #[trigger] le(
            rest[i],
            rest[j],
        ) by {
            assert(le(s[i + 1], s[j + 1]));
        }
        law_sorted_stays(rest, le);
        if rest.len() > 0 {
            assert(le(s[0], s[1]));
            assert(rest[0] == s[1]);
        }
        assert(seq![s[0]] + rest =~= s);
    }
}

/// Everything in the document stands in the order in which it is listed.
pub open spec fn listed_in_order(doc: LibraryDoc) -> bool {
    &&& forall|i: int, j: int|
        #![trigger doc.movies[i], doc.movies[j]]
        0 <= i < j < doc.movies.len() ==> text_le(
            folded(doc.movies[i].title),
            folded(doc.movies[j].title),
        )
    &&& forall|i: int, j: int|
        #![trigger doc.series[i], doc.series[j]]
        0 <= i < j < doc.series.len() ==> text_le(
            folded(doc.series[i].title),
            folded(doc.series[j].title),
        )
    &&& forall|k: int| 0 <= k < doc.series.len() ==> numbered_in_order((#[trigger] doc.series[k]).episodes)
}

pub open spec fn numbered_in_order(docs: Seq<EpisodeDoc>) -> bool {
    forall|i: int, j: int|
        #![trigger docs[i], docs[j]]
        0 <= i < j < docs.len() ==> docs[i].season < docs[j].season || (docs[i].season
            == docs[j].season && docs[i].episode <= docs[j].episode)
}

/// The document of a library stands in order.
proof fn lemma_doc_in_order(t: Tables)
    ensures
        listed_in_order(t.doc()),
{
    let doc = t.doc();
    lemma_title_order();
    lemma_episode_order();
    let movies = t.listed_entries(EntryKind::Movie);
    let series = t.listed_entries(EntryKind::Series);
    law_stable_sorted(t.entries.filter(of_kind(EntryKind::Movie, t.unlisted)), title_order());
    law_stable_sorted(t.entries.filter(of_kind(EntryKind::Series, t.unlisted)), title_order());
    assert forall|i: int, j: int|
        #![trigger doc.movies[i], doc.movies[j]]
        0 <= i < j < doc.movies.len() implies text_le(
        folded(doc.movies[i].title),
        folded(doc.movies[j].title),
    ) by {
        assert(title_order()(movies[i], movies[j]));
    }
    assert forall|i: int, j: int|
        #![trigger doc.series[i], doc.series[j]]
        0 <= i < j < doc.series.len() implies text_le(
        folded(doc.series[i].title),
        folded(doc.series[j].title),
    ) by {
        assert(title_order()(series[i], series[j]));
    }
    assert forall|k: int| 0 <= k < doc.series.len() implies numbered_in_order(
        (#[trigger] doc.series[k]).episodes,
    ) by {
        let listed = t.listed_episodes(series[k].id);
        law_stable_sorted(t.episodes_of(series[k].id), episode_order());
        let docs = doc.series[k].episodes;
        assert forall|i: int, j: int|
            #![trigger docs[i], docs[j]]
            0 <= i < j < docs.len() implies docs[i].season < docs[j].season || (docs[i].season
            == docs[j].season && docs[i].episode <= docs[j].episode) by {
            assert(episode_order()(listed[i], listed[j]));
        }
    }
}

/// The rows of one series among those of all.
pub proof fn lemma_rows_of_series(last: int, last_entry: int, docs: Seq<SeriesDoc>, at: int)
    requires
        0 <= at < docs.len(),
        0 <= last_entry,
        last_entry + docs.len() <= i64::MAX,
    ensures
        all_episode_rows(last, last_entry, docs).filter(of_entry((last_entry + 1 + at) as i64))
            == episode_rows(
            last + episode_count(docs.take(at)),
            (last_entry + 1 + at) as i64,
            docs[at].episodes,
        ),
    decreases docs.len(),
{
    let rest = docs.drop_last();
    let id = (last_entry + 1 + at) as i64;
    let p = of_entry(id);
    let before = all_episode_rows(last, last_entry, rest);
    let added = episode_rows(
        last + episode_count(rest),
        (last_entry + docs.len()) as i64,
        docs.last().episodes,
    );
    Seq::filter_distributes_over_add(before, added, p);
    if at == docs.len() - 1 {
        lemma_series_ids(last, last_entry, rest);
        assert forall|i: int| 0 <= i < before.len() implies !p(#[trigger] before[i]) by {
            assert(before[i].entry_id <= last_entry + rest.len());
        }
        lemma_filter_none(before, p);
        assert forall|i: int| 0 <= i < added.len() implies p(#[trigger] added[i]) by {}
        lemma_filter_all(added, p);
        assert(docs.take(at) =~= rest);
        assert(Seq::<EpisodeView>::empty() + added =~= added);
    } else {
        lemma_rows_of_series(last, last_entry, rest, at);
        assert forall|i: int| 0 <= i < added.len() implies !p(#[trigger] added[i]) by {}
        lemma_filter_none(added, p);
        assert(rest.take(at) =~= docs.take(at));
        assert(before.filter(p) + Seq::<EpisodeView>::empty() =~= before.filter(p));
    }
}

proof fn lemma_series_ids(last: int, last_entry: int, docs: Seq<SeriesDoc>)
    requires
        0 <= last_entry,
        last_entry + docs.len() <= i64::MAX,
    ensures
        forall|i: int|
            0 <= i < all_episode_rows(last, last_entry, docs).len() ==> (
            #[trigger] all_episode_rows(last, last_entry, docs)[i]).entry_id <= last_entry
                + docs.len(),
    decreases docs.len(),
{
    if docs.len() > 0 {
        let rest = docs.drop_last();
        lemma_series_ids(last, last_entry, rest);
        let before = all_episode_rows(last, last_entry, rest);
        let all = all_episode_rows(last, last_entry, docs);
        assert forall|i: int| 0 <= i < all.len() implies (#[trigger] all[i]).entry_id <= last_entry
            + docs.len() by {
            if i < before.len() {
                assert(all[i] == before[i]);
            }
        }
    }
}

/// The tables of a library with nothing in it.
pub open spec fn no_rows(t: Tables) -> bool {
    &&& t.entries.len() == 0
    &&& t.episodes.len() == 0
    &&& t.last_entry_id >= 0
    &&& t.last_episode_id >= 0
}

/// How a library restored from a document lists its movies and series.
proof fn lemma_restored_lists(t: Tables, doc: LibraryDoc)
    requires
        t.wf(),
        no_rows(t),
        fits(t, doc),
        listed_in_order(doc),
    ensures
        t.with_document(doc).listed_entries(EntryKind::Movie) == movie_rows(
            t.last_entry_id as int,
            doc.movies,
        ),
        t.with_document(doc).listed_entries(EntryKind::Series) == series_rows(
            t.last_entry_id + doc.movies.len(),
            doc.series,
        ),
{
    let after = t.with_document(doc);
    let movies = movie_rows(t.last_entry_id as int, doc.movies);
    let series = series_rows(t.last_entry_id + doc.movies.len(), doc.series);
    assert(after.entries =~= movies + series);
    let is_movie = of_kind(EntryKind::Movie, t.unlisted);
    let is_series = of_kind(EntryKind::Series, t.unlisted);
    assert forall|id: i64| !#[trigger] t.unlisted.contains(id) by {
        assert(!t.has_entry(id));
    }
    Seq::filter_distributes_over_add(movies, series, is_movie);
    Seq::filter_distributes_over_add(movies, series, is_series);
    lemma_filter_all(movies, is_movie);
    lemma_filter_none(series, is_movie);
    lemma_filter_none(movies, is_series);
    lemma_filter_all(series, is_series);
    assert(movies + Seq::<EntryView>::empty() =~= movies);
    assert(Seq::<EntryView>::empty() + series =~= series);
    assert(in_order(movies, title_order())) by {
        assert forall|i: int, j: int| 0 <= i < j < movies.len() implies #[trigger] title_order()(
            movies[i],
            movies[j],
        ) by {
            assert(doc.movies[i].title == movies[i].title && doc.movies[j].title
                == movies[j].title);
        }
    }
    assert(in_order(series, title_order())) by {
        assert forall|i: int, j: int| 0 <= i < j < series.len() implies #[trigger] title_order()(
            series[i],
            series[j],
        ) by {
            assert(doc.series[i].title == series[i].title && doc.series[j].title
                == series[j].title);
        }
    }
    law_sorted_stays(movies, title_order());
    law_sorted_stays(series, title_order());
}

/// How a library restored from a document lists the episodes of a series.
proof fn lemma_restored_episodes(t: Tables, doc: LibraryDoc, k: int)
    requires
        t.wf(),
        no_rows(t),
        fits(t, doc),
        listed_in_order(doc),
        0 <= k < doc.series.len(),
    ensures
        t.with_document(doc).listed_episodes(
            (t.last_entry_id + doc.movies.len() + 1 + k) as i64,
        ).map_values(doc_of_episode()) == doc.series[k].episodes,
{
    let after = t.with_document(doc);
    let last_series = t.last_entry_id + doc.movies.len();
    let all = all_episode_rows(t.last_episode_id as int, last_series, doc.series);
    assert(after.episodes =~= all);
    let id = (last_series + 1 + k) as i64;
    let docs = doc.series[k].episodes;
    lemma_rows_of_series(t.last_episode_id as int, last_series, doc.series, k);
    let rows = episode_rows(t.last_episode_id + episode_count(doc.series.take(k)), id, docs);
    assert(after.episodes_of(id) == rows);
    assert(numbered_in_order(docs));
    assert forall|i: int, j: int| 0 <= i < j < rows.len() implies #[trigger] episode_order()(
        rows[i],
        rows[j],
    ) by {
        assert(docs[i].season == rows[i].season && docs[j].season == rows[j].season);
    }
    law_sorted_stays(rows, episode_order());
    assert(rows.map_values(doc_of_episode()) =~= docs);
}

/// What a library restored from a document in order would be written as is that
/// document again.
proof fn lemma_restored_doc(t: Tables, doc: LibraryDoc)
    requires
        t.wf(),
        no_rows(t),
        fits(t, doc),
        listed_in_order(doc),
    ensures
        t.with_document(doc).doc() == doc,
{
    let after = t.with_document(doc);
    let last_series = t.last_entry_id + doc.movies.len();
    lemma_restored_lists(t, doc);
    assert(after.doc().movies =~= doc.movies);
    let series = series_rows(last_series, doc.series);
    assert forall|k: int| 0 <= k < doc.series.len() implies #[trigger] after.doc().series[k]
        == doc.series[k] by {
        lemma_restored_episodes(t, doc, k);
        assert(series[k] == series_row((last_series + 1 + k) as i64, doc.series[k]));
    }
    assert(after.doc().series =~= doc.series);
}

/// Restoring: a library read from its own document into an empty one lists the
/// same movies, series and episodes, in the same order and watched as far.
pub proof fn law_restored_library(t: Tables, l: LibraryView)
    requires
        l.tables.wf(),
        no_rows(l.tables),
        fits(l.tables, t.doc()),
    ensures
        l.imported(t.doc()).tables.doc() == t.doc(),
{
    law_import_adds_rows(l, t.doc());
    lemma_doc_in_order(t);
    lemma_restored_doc(l.tables, t.doc());
}

} // verus!
