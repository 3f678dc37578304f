//! What comes of the forms and the questions: what was typed in is what the
//! library holds then, what was agreed to is gone, and nothing else has changed.

use vstd::prelude::*;

use crate::adding::{AddStepView, SeriesJobView};
use crate::db::of_entry;
use crate::laws::{
    found_row, law_deleted_entries, law_deleted_episodes, law_deleted_is_forgotten,
    law_deleted_season_pattern, law_found_episodes_added, law_found_seasons_keep_pattern,
};
use crate::models::{label_text, EntryKind, EntryView, EpisodeView};
use crate::pattern::{probe_start, FoundView, ProbeError};
use crate::readback::{
    law_entry_after_change, law_episode_after_change, law_new_ids, law_pattern_after_change,
};
use crate::rows::{lemma_filter_all, lemma_filter_none};
use crate::seasons::{law_next_episode_number_free, law_number_after, SeasonJobView};
use crate::screen::{AddFormView, EditFormView, EpisodeFormView, SettingsFormView};
use crate::state::{AppView, DeleteTargetView, EditTarget, Selection};
use crate::storing::Request;
use crate::tables::{law_changes_keep_tables, ChangeView, LibraryView, Setting, Tables};
use crate::text::{
    blank, contains_text, decimal, law_typed_number, types_no_number, types_number, zero_padded,
};

verus! {

broadcast use vstd::string::group_string_axioms;

// ---------------------------------------------------------------------
// What stays as it was
// ---------------------------------------------------------------------

/// Every entry but one is as it was, and as listed as it was.
pub open spec fn other_entries_stay(before: Tables, after: Tables, id: i64) -> bool {
    forall|other: i64|
        other != id ==> #[trigger] after.entry(other) == before.entry(other)
            && after.unlisted.contains(other) == before.unlisted.contains(other)
}

/// Every episode but one is as it was.
pub open spec fn other_episodes_stay(before: Tables, after: Tables, id: i64) -> bool {
    forall|other: i64| other != id ==> #[trigger] after.episode(other) == before.episode(other)
}

/// Settings and what was played last are as they were.
pub open spec fn settings_stay(before: Tables, after: Tables) -> bool {
    before.last_played == after.last_played && before.vlc_path == after.vlc_path
        && before.subtitle_lang == after.subtitle_lang
}

// ---------------------------------------------------------------------
// Adding a movie
// ---------------------------------------------------------------------

/// A movie that is submitted is in the library then, under a new id, with the
/// title, the description and the link that were typed in, and never played. Its
/// posters are made from the picture that was chosen, if one was.
pub proof fn law_movie_added(s: AppView, id: i64)
    requires
        s.wf(),
        s.add_form.kind == "movie"@,
        !blank(s.add_form.title),
        !blank(s.add_form.link),
        s.library.next_entry_id() == Some(id),
    ensures
        !s.library.tables.has_entry(id),
        s.submit_add().0.library.tables.entry(id) == Some(
            EntryView {
                id,
                title: s.add_form.title,
                kind: EntryKind::Movie,
                description: s.add_form.description,
                link_or_path: s.add_form.link,
                resume_position: 0,
                duration: 0,
                finished: false,
                last_watched_at: 0,
            },
        ),
        !s.submit_add().0.library.tables.unlisted.contains(id),
        other_entries_stay(s.library.tables, s.submit_add().0.library.tables, id),
        s.submit_add().0.library.tables.episodes == s.library.tables.episodes,
        s.submit_add().0.library.tables.patterns == s.library.tables.patterns,
        settings_stay(s.library.tables, s.submit_add().0.library.tables),
        !s.submit_add().0.add_form.open,
        s.submit_add().1 == if blank(s.add_form.poster_path) {
            AddStepView::Nothing
        } else {
            AddStepView::SavePoster { entry_id: id, source: s.add_form.poster_path }
        },
{
    let t = s.library.tables;
    let change = ChangeView::InsertEntry {
        id,
        title: s.add_form.title,
        kind: EntryKind::Movie,
        description: s.add_form.description,
        link_or_path: s.add_form.link,
    };
    law_new_ids(s.library);
    law_changes_keep_tables(t, change);
    law_entry_after_change(t, change, id);
    assert forall|other: i64| other != id implies #[trigger] t.applied(change).entry(other)
        == t.entry(other) by {
        law_entry_after_change(t, change, other);
    }
    assert(s.submit_add().0.library.tables == t.applied(change));
}

/// A form that cannot be submitted stays as it is, and so does the library; the
/// user is told.
pub proof fn law_incomplete_form_stays(s: AppView)
    requires
        ({
            ||| blank(s.add_form.title)
            ||| s.add_form.kind == "movie"@ && blank(s.add_form.link)
            ||| s.add_form.kind != "movie"@ && (blank(s.add_form.pattern_link)
                || !s.add_form.pattern_link.contains('*'))
        }),
    ensures
        s.submit_add().1 == AddStepView::Nothing,
        s.submit_add().0 == (AppView { status: s.submit_add().0.status, ..s }),
        s.submit_add().0.status.len() > 0,
{
    reveal_strlit("Title is required.");
    reveal_strlit("Provide a file path or URL.");
    reveal_strlit("Provide a link pattern containing '*' for the episode number.");
}

// ---------------------------------------------------------------------
// Adding a series
// ---------------------------------------------------------------------

/// A series that is submitted is probed for under the title, description,
/// pattern and picture that were typed in. Nothing is stored before the probe.
pub proof fn law_series_submitted(s: AppView)
    requires
        s.add_form.kind != "movie"@,
        !blank(s.add_form.title),
        !blank(s.add_form.pattern_link),
        s.add_form.pattern_link.contains('*'),
    ensures
        s.submit_add().1 matches AddStepView::Probe(job) && job.title == s.add_form.title
            && job.description == s.add_form.description && job.pattern == s.add_form.pattern_link
            && job.poster_source == s.add_form.poster_path,
        s.submit_add().0.library == s.library,
        s.submit_add().0.add_form.open == s.add_form.open,
        s.submit_add().0.add_form.in_progress,
{
}

/// The numbers of the probe for a series are those in the fields of that name:
/// where it starts with seasons and episodes, and how wide either number is. A
/// field that holds no number counts as one for a start and as two for a width.
pub proof fn law_series_numbers(
    s: AppView,
    season_start: i32,
    season_width: usize,
    ep_start: i32,
    ep_width: usize,
)
    ensures
        s.submit_add().1 matches AddStepView::Probe(job) ==> {
            let form = s.add_form;
            &&& types_number(form.pattern_season_start, season_start as int) ==> job.season_start
                == season_start
            &&& types_number(form.pattern_season_width, season_width as int) ==> job.season_width
                == season_width
            &&& types_number(form.pattern_start, ep_start as int) ==> job.ep_start == ep_start
            &&& types_number(form.pattern_episode_width, ep_width as int) ==> job.ep_width
                == ep_width
            &&& types_no_number(form.pattern_season_start) ==> job.season_start == 1
            &&& types_no_number(form.pattern_season_width) ==> job.season_width == 2
            &&& types_no_number(form.pattern_start) ==> job.ep_start == 1
            &&& types_no_number(form.pattern_episode_width) ==> job.ep_width == 2
        },
{
    let form = s.add_form;
    let low = i32::MIN as int;
    let high = i32::MAX as int;
    law_typed_number(form.pattern_season_start, season_start as int, true, low, high);
    law_typed_number(form.pattern_start, ep_start as int, true, low, high);
    law_typed_number(form.pattern_season_width, season_width as int, false, 0, usize::MAX as int);
    law_typed_number(form.pattern_episode_width, ep_width as int, false, 0, usize::MAX as int);
}

/// The first link that is tried for a series is the pattern that was typed in,
/// with the first season in place of `#` and the first episode in place of `*`,
/// each as wide as was typed in for it.
#[verifier::rlimit(40)]
pub proof fn law_series_first_link(
    s: AppView,
    season: i32,
    season_width: usize,
    episode: i32,
    ep_width: usize,
    before: Seq<char>,
    between: Seq<char>,
    after: Seq<char>,
)
    requires
        s.add_form.pattern_link == before + seq!['#'] + between + seq!['*'] + after,
        plain_piece(before),
        plain_piece(between),
        plain_piece(after),
        types_number(s.add_form.pattern_season_start, season as int),
        types_number(s.add_form.pattern_season_width, season_width as int),
        types_number(s.add_form.pattern_start, episode as int),
        types_number(s.add_form.pattern_episode_width, ep_width as int),
        season_width >= 1,
        ep_width >= 1,
    ensures
        s.submit_add().1 matches AddStepView::Probe(job) ==> {
            let p = probe_start(
                job.pattern,
                true,
                job.season_start,
                job.season_width,
                job.ep_start,
                job.ep_width,
            );
            &&& !p.done
            &&& p.row_at(p.season, p.episode).link == before + zero_padded(
                season as int,
                season_width as int,
            ) + between + zero_padded(episode as int, ep_width as int) + after
        },
{
    law_series_numbers(s, season, season_width, episode, ep_width);
    lemma_rendered_plain(before, season as int, season_width, episode as int, ep_width);
    let head = before + seq!['#'];
    assert(head =~= before.push('#'));
    crate::pattern::law_link_spelled(
        before,
        '#',
        season as int,
        season_width,
        episode as int,
        ep_width,
    );
    lemma_rendered_more(head, between, season as int, season_width, episode as int, ep_width);
    let middle = head + between;
    assert(middle + seq!['*'] =~= middle.push('*'));
    crate::pattern::law_link_spelled(
        middle,
        '*',
        season as int,
        season_width,
        episode as int,
        ep_width,
    );
    lemma_rendered_more(
        middle + seq!['*'],
        after,
        season as int,
        season_width,
        episode as int,
        ep_width,
    );
}

/// A piece of a pattern without a place for a number.
pub open spec fn plain_piece(piece: Seq<char>) -> bool {
    !piece.contains('#') && !piece.contains('*')
}

proof fn lemma_rendered_plain(
    piece: Seq<char>,
    season: int,
    season_width: usize,
    episode: int,
    ep_width: usize,
)
    requires
        plain_piece(piece),
        season_width >= 1,
        ep_width >= 1,
    ensures
        crate::pattern::rendered(piece, season, season_width, episode, ep_width) == piece,
{
    let none = Seq::<char>::empty();
    crate::pattern::law_link_spelled(none, 'x', season, season_width, episode, ep_width);
    lemma_rendered_more(none, piece, season, season_width, episode, ep_width);
    assert(crate::pattern::rendered(none, season, season_width, episode, ep_width) =~= none);
    assert(none + piece =~= piece);
}

proof fn lemma_rendered_more(
    pattern: Seq<char>,
    piece: Seq<char>,
    season: int,
    season_width: usize,
    episode: int,
    ep_width: usize,
)
    requires
        plain_piece(piece),
        season_width >= 1,
        ep_width >= 1,
    ensures
        crate::pattern::rendered(pattern + piece, season, season_width, episode, ep_width)
            == crate::pattern::rendered(pattern, season, season_width, episode, ep_width) + piece,
    decreases piece.len(),
{
    let start = crate::pattern::rendered(pattern, season, season_width, episode, ep_width);
    if piece.len() > 0 {
        let rest = piece.drop_last();
        let c = piece.last();
        assert(piece[piece.len() - 1] == c);
        assert(plain_piece(rest)) by {
            assert forall|d: char| rest.contains(d) implies piece.contains(d) by {
                let k = choose|k: int| 0 <= k < rest.len() && rest[k] == d;
                assert(piece[k] == d);
            }
        }
        lemma_rendered_more(pattern, rest, season, season_width, episode, ep_width);
        assert(pattern + piece =~= (pattern + rest).push(c));
        crate::pattern::law_link_spelled(
            pattern + rest,
            c,
            season,
            season_width,
            episode,
            ep_width,
        );
        assert(start + rest + seq![c] =~= start + piece);
    } else {
        assert(pattern + piece =~= pattern);
        assert(start + piece =~= start);
    }
}

/// What was found has numbers that an episode can have.
pub open spec fn numbers_fit(rows: Seq<FoundView>) -> bool {
    forall|i: int|
        0 <= i < rows.len() ==> i32::MIN <= (#[trigger] rows[i]).season <= i32::MAX && i32::MIN
            <= rows[i].episode <= i32::MAX
}

/// An episode is one that was found: it has the numbers and the link it was
/// found with, and was never played.
pub open spec fn is_found(e: EpisodeView, entry_id: i64, row: FoundView) -> bool {
    &&& e.entry_id == entry_id
    &&& e.season == row.season
    &&& e.episode == row.episode
    &&& e.link_or_path == row.link
    &&& e.title == "Episode "@ + decimal(row.episode)
    &&& e.description.len() == 0
    &&& e.resume_position == 0
    &&& e.duration == 0
    &&& !e.finished
}

/// A series has the episodes it had, and then one for each that was found; no
/// other series has changed.
pub open spec fn gained(before: Tables, after: Tables, entry_id: i64, rows: Seq<FoundView>) -> bool {
    let had = before.episodes_of(entry_id);
    let has = after.episodes_of(entry_id);
    &&& has.len() == had.len() + rows.len()
    &&& forall|i: int| 0 <= i < had.len() ==> #[trigger] has[i] == had[i]
    &&& forall|i: int|
        0 <= i < rows.len() ==> is_found(has[had.len() + i], entry_id, #[trigger] rows[i])
    &&& forall|other: i64|
        other != entry_id ==> #[trigger] after.episodes_of(other) == before.episodes_of(other)
}

/// Rows of one series that stand behind all others.
proof fn lemma_gained(before: Tables, after: Tables, entry_id: i64, last: int, rows: Seq<FoundView>)
    requires
        numbers_fit(rows),
        after.episodes == before.episodes + Seq::new(
            rows.len(),
            |i: int| found_row((last + 1 + i) as i64, entry_id, rows[i]),
        ),
    ensures
        gained(before, after, entry_id, rows),
{
    let added = Seq::new(
        rows.len(),
        |i: int| found_row((last + 1 + i) as i64, entry_id, rows[i]),
    );
    let p = of_entry(entry_id);
    Seq::filter_distributes_over_add(before.episodes, added, p);
    assert forall|i: int| 0 <= i < added.len() implies p(#[trigger] added[i]) by {}
    lemma_filter_all(added, p);
    let had = before.episodes_of(entry_id);
    let has = after.episodes_of(entry_id);
    assert(has == had + added);
    assert forall|i: int| 0 <= i < rows.len() implies is_found(
        has[had.len() + i],
        entry_id,
        #[trigger] rows[i],
    ) by {
        assert(has[had.len() + i] == added[i]);
    }
    assert forall|other: i64| other != entry_id implies #[trigger] after.episodes_of(other)
        == before.episodes_of(other) by {
        let q = of_entry(other);
        Seq::filter_distributes_over_add(before.episodes, added, q);
        assert forall|i: int| 0 <= i < added.len() implies !q(#[trigger] added[i]) by {}
        lemma_filter_none(added, q);
        assert(before.episodes_of(other) + Seq::<EpisodeView>::empty() =~= before.episodes_of(other));
    }
}

proof fn lemma_patterns_only(
    l: LibraryView,
    entry_id: i64,
    rows: Seq<FoundView>,
    pattern: Seq<char>,
    season_width: i32,
    ep_width: i32,
)
    requires
        l.tables.wf(),
    ensures
        ({
            let after = l.with_patterns(entry_id, rows, pattern, season_width, ep_width).tables;
            &&& after.wf()
            &&& after == (Tables { patterns: after.patterns, ..l.tables })
            &&& forall|other: i64, season: i32|
                other != entry_id ==> #[trigger] after.pattern(other, season) == l.tables.pattern(
                    other,
                    season,
                )
        }),
    decreases rows.len(),
{
    if rows.len() > 0 {
        let rest = rows.drop_last();
        lemma_patterns_only(l, entry_id, rest, pattern, season_width, ep_width);
        let before = l.with_patterns(entry_id, rest, pattern, season_width, ep_width).tables;
        let change = ChangeView::SetSeasonPattern {
            entry_id,
            season: rows.last().season as i32,
            pattern,
            season_width,
            ep_width,
        };
        law_changes_keep_tables(before, change);
        assert forall|other: i64, season: i32|
            other != entry_id implies #[trigger] before.applied(change).pattern(other, season)
            == l.tables.pattern(other, season) by {
            law_pattern_after_change(before, change, other, season);
        }
    }
}

/// A series that was probed for is in the library then, under a new id, with the
/// title and description it was submitted with, and with one episode for each
/// link that was found. The pattern is kept for each season.
#[verifier::rlimit(40)]
pub proof fn law_series_added(
    s: AppView,
    job: SeriesJobView,
    rows: Seq<FoundView>,
    id: i64,
)
    requires
        s.wf(),
        s.library.next_entry_id() == Some(id),
        s.library.tables.last_episode_id + rows.len() <= i64::MAX,
        numbers_fit(rows),
        job.season_width <= i32::MAX,
        job.ep_width <= i32::MAX,
    ensures
        ({
            let before = s.library.tables;
            let (done, step) = s.finish_add(job, Ok(rows));
            let after = done.library.tables;
            &&& !before.has_entry(id)
            &&& after.entry(id) == Some(
                EntryView {
                    id,
                    title: job.title,
                    kind: EntryKind::Series,
                    description: job.description,
                    link_or_path: Seq::empty(),
                    resume_position: 0,
                    duration: 0,
                    finished: false,
                    last_watched_at: 0,
                },
            )
            &&& !after.unlisted.contains(id)
            &&& other_entries_stay(before, after, id)
            &&& gained(before, after, id, rows)
            &&& settings_stay(before, after)
            &&& forall|i: int|
                0 <= i < rows.len() ==> (after.pattern(id, (#[trigger] rows[i]).season as i32)
                    matches Some(kept) && kept.pattern == job.pattern && kept.season_width
                    == job.season_width && kept.ep_width == job.ep_width)
            &&& forall|other: i64, season: i32|
                other != id ==> #[trigger] after.pattern(other, season) == before.pattern(
                    other,
                    season,
                )
            &&& done.selected.series() == Some(id)
            &&& !done.add_form.open
            &&& !done.add_form.in_progress
            &&& step == if blank(job.poster_source) {
                AddStepView::Nothing
            } else {
                AddStepView::SavePoster { entry_id: id, source: job.poster_source }
            }
        }),
{
    let t = s.library.tables;
    let change = ChangeView::InsertEntry {
        id,
        title: job.title,
        kind: EntryKind::Series,
        description: job.description,
        link_or_path: Seq::empty(),
    };
    law_new_ids(s.library);
    law_changes_keep_tables(t, change);
    law_entry_after_change(t, change, id);
    let l1 = s.library.with(change);
    assert(l1.tables.entries[t.entries.len() as int].id == id);
    assert(l1.tables.has_entry(id));
    law_found_episodes_added(l1, id, rows);
    let l2 = l1.with_all_found(id, rows);
    let sw = job.season_width as i32;
    let ew = job.ep_width as i32;
    lemma_patterns_only(l2, id, rows, job.pattern, sw, ew);
    let l3 = l2.with_patterns(id, rows, job.pattern, sw, ew);
    let after = l3.tables;
    assert(s.finish_add(job, Ok(rows)).0.library == l3);
    lemma_gained(t, after, id, t.last_episode_id as int, rows);
    assert(after.entries == l1.tables.entries);
    lemma_same_entries(l1.tables, after);
    assert forall|other: i64| other != id implies #[trigger] after.entry(other) == t.entry(
        other,
    ) by {
        law_entry_after_change(t, change, other);
        assert(l1.tables.entry(other) == after.entry(other));
    }
    assert forall|i: int| 0 <= i < rows.len() implies (after.pattern(
        id,
        (#[trigger] rows[i]).season as i32,
    ) matches Some(kept) && kept.pattern == job.pattern && kept.season_width == job.season_width
        && kept.ep_width == job.ep_width) by {
        law_found_seasons_keep_pattern(l2, id, rows, job.pattern, sw, ew, i);
    }
    assert forall|other: i64, season: i32| other != id implies #[trigger] after.pattern(
        other,
        season,
    ) == t.pattern(other, season) by {
        lemma_same_patterns(t, l2.tables, other, season);
    }
    assert(after.entry(id) is Some);
}

pub proof fn lemma_same_entries(a: Tables, b: Tables)
    requires
        a.entries == b.entries,
    ensures
        forall|id: i64| #[trigger] a.entry(id) == b.entry(id),
{
    assert forall|id: i64| #[trigger] a.entry(id) == b.entry(id) by {
        assert(a.has_entry(id) == b.has_entry(id));
    }
}

pub proof fn lemma_same_episodes(a: Tables, b: Tables)
    requires
        a.episodes == b.episodes,
    ensures
        forall|id: i64| #[trigger] a.episode(id) == b.episode(id),
{
    assert forall|id: i64| #[trigger] a.episode(id) == b.episode(id) by {
        assert(a.has_episode(id) == b.has_episode(id));
    }
}

proof fn lemma_same_patterns(a: Tables, b: Tables, entry_id: i64, season: i32)
    requires
        a.wf(),
        a.patterns == b.patterns,
    ensures
        a.pattern(entry_id, season) == b.pattern(entry_id, season),
{
    if exists|i: int| a.pattern_at(entry_id, season, i) {
        let i = choose|i: int| a.pattern_at(entry_id, season, i);
        assert(b.pattern_at(entry_id, season, i));
        let j = choose|j: int| b.pattern_at(entry_id, season, j);
        if i < j {
            assert(a.patterns[i].entry_id != a.patterns[j].entry_id || a.patterns[i].season
                != a.patterns[j].season);
        } else if j < i {
            assert(a.patterns[j].entry_id != a.patterns[i].entry_id || a.patterns[j].season
                != a.patterns[i].season);
        }
    } else if exists|i: int| b.pattern_at(entry_id, season, i) {
        let i = choose|i: int| b.pattern_at(entry_id, season, i);
        assert(a.pattern_at(entry_id, season, i));
    }
}

/// A probe that found nothing adds nothing; the form stays open to be mended.
pub proof fn law_failed_probe_adds_nothing(
    s: AppView,
    job: SeriesJobView,
    season: SeasonJobView,
    e: ProbeError,
)
    ensures
        s.finish_add(job, Err(e)).0.library == s.library,
        s.finish_add(job, Err(e)).1 == AddStepView::Nothing,
        s.finish_add(job, Err(e)).0.add_form.open == s.add_form.open,
        !s.finish_add(job, Err(e)).0.add_form.in_progress,
        s.finish_add_season(season, Err(e)).library == s.library,
        s.finish_add_season(season, Err(e)).season_form.open == s.season_form.open,
        !s.finish_add_season(season, Err(e)).season_form.in_progress,
        s.finish_reprobe(season, Err(e)).library == s.library,
{
}

// ---------------------------------------------------------------------
// More episodes of a series
// ---------------------------------------------------------------------

/// The form for an episode comes with the season that was asked for, and with
/// the number after the last episode of it; a season without episodes starts
/// with one.
pub proof fn law_episode_form_filled(s: AppView, season: i32, entry_id: i64, n: int)
    requires
        s.selected.series() == Some(entry_id),
        types_number(s.open_add_episode_dialog(season).episode_form.number, n),
    ensures
        s.open_add_episode_dialog(season).episode_form.open,
        s.open_add_episode_dialog(season).episode_form.season == decimal(season as int),
        forall|e: EpisodeView| #[trigger]
            s.library.tables.episodes_of(entry_id).contains(e) && e.season == season ==> e.episode
                < n,
        n == 1 || exists|e: EpisodeView| #[trigger]
            s.library.tables.episodes_of(entry_id).contains(e) && e.season == season && e.episode
                == n - 1,
{
    let t = s.library.tables;
    let number = t.next_episode_number(entry_id, season);
    let listed = t.listed_episodes(entry_id);
    lemma_types_once(decimal(number), number, n);
    crate::db::lemma_episode_order();
    assert forall|e: EpisodeView| #[trigger]
        t.episodes_of(entry_id).contains(e) && e.season == season implies e.episode < n by {
        crate::laws::lemma_sorted_contains(
            t.episodes_of(entry_id),
            crate::db::episode_order(),
            e,
        );
        let i = choose|i: int| 0 <= i < listed.len() && listed[i] == e;
        law_next_episode_number_free(t, entry_id, season, i);
    }
    let numbers = t.episode_numbers(entry_id, season);
    law_number_after(numbers);
    if n != 1 {
        let m = (n - 1) as i32;
        assert(numbers.contains(m));
        let k = choose|k: int| 0 <= k < numbers.len() && numbers[k] == m;
        let p = crate::seasons::in_season(season);
        crate::sorting::lemma_filter_members(listed, p);
        let e = listed.filter(p)[k];
        assert(p(e) && listed.contains(e));
        crate::laws::lemma_sorted_contains(
            t.episodes_of(entry_id),
            crate::db::episode_order(),
            e,
        );
        assert(t.episodes_of(entry_id).contains(e) && e.season == season && e.episode == n - 1);
    }
}

/// The form for a season comes with the number after the last season of the
/// series; a series without episodes starts with one.
pub proof fn law_season_form_filled(s: AppView, entry_id: i64, n: int)
    requires
        s.selected.series() == Some(entry_id),
        types_number(s.open_add_season_dialog().season_form.number, n),
    ensures
        s.open_add_season_dialog().season_form.open,
        forall|e: EpisodeView| #[trigger]
            s.library.tables.episodes_of(entry_id).contains(e) ==> e.season < n,
        n == 1 || exists|e: EpisodeView| #[trigger]
            s.library.tables.episodes_of(entry_id).contains(e) && e.season == n - 1,
{
    let t = s.library.tables;
    let number = t.next_season_number(entry_id);
    let listed = t.listed_episodes(entry_id);
    let numbers = t.season_numbers(entry_id);
    lemma_types_once(decimal(number), number, n);
    crate::db::lemma_episode_order();
    law_number_after(numbers);
    assert forall|e: EpisodeView| #[trigger]
        t.episodes_of(entry_id).contains(e) implies e.season < n by {
        crate::laws::lemma_sorted_contains(
            t.episodes_of(entry_id),
            crate::db::episode_order(),
            e,
        );
        let i = choose|i: int| 0 <= i < listed.len() && listed[i] == e;
        assert(numbers[i] == e.season);
    }
    if n != 1 {
        let m = (n - 1) as i32;
        assert(numbers.contains(m));
        let k = choose|k: int| 0 <= k < numbers.len() && numbers[k] == m;
        let e = listed[k];
        assert(listed.contains(e));
        crate::laws::lemma_sorted_contains(
            t.episodes_of(entry_id),
            crate::db::episode_order(),
            e,
        );
        assert(t.episodes_of(entry_id).contains(e) && e.season == n - 1);
    }
}

/// A field holds no two numbers.
proof fn lemma_types_once(s: Seq<char>, a: int, b: int)
    requires
        s == decimal(a),
        types_number(s, b),
    ensures
        a == b,
{
    let none = Seq::<char>::empty();
    assert(s =~= none + decimal(a) + none);
    assert(crate::text::surrounded(s, none, decimal(a), none));
    assert(types_number(s, a));
    let low = if a < b {
        a
    } else {
        b
    };
    let high = if a < b {
        b
    } else {
        a
    };
    law_typed_number(s, a, true, low, high);
    law_typed_number(s, b, true, low, high);
}

/// An episode that is submitted is in the library then, under a new id, as one of
/// the open series, with the numbers, the description and the link that were
/// typed in. An episode without a title is named after its number.
#[verifier::rlimit(40)]
pub proof fn law_episode_added(s: AppView, entry_id: i64, id: i64, season: i32, number: i32)
    requires
        s.wf(),
        s.selected.series() == Some(entry_id),
        s.library.tables.has_entry(entry_id),
        s.library.next_episode_id() == Some(id),
        !blank(s.episode_form.link),
        types_number(s.episode_form.season, season as int),
        types_number(s.episode_form.number, number as int),
    ensures
        ({
            let before = s.library.tables;
            let done = s.submit_add_episode();
            let after = done.library.tables;
            let form = s.episode_form;
            &&& !before.has_episode(id)
            &&& after.episode(id) == Some(
                EpisodeView {
                    id,
                    entry_id,
                    season,
                    episode: number,
                    title: if blank(form.title) {
                        "Episode "@ + decimal(number as int)
                    } else {
                        form.title
                    },
                    description: form.description,
                    link_or_path: form.link,
                    resume_position: 0,
                    duration: 0,
                    finished: false,
                },
            )
            &&& other_episodes_stay(before, after, id)
            &&& after.entries == before.entries
            &&& after.unlisted == before.unlisted
            &&& after.patterns == before.patterns
            &&& settings_stay(before, after)
            &&& !done.episode_form.open
            &&& done.selected == Selection::Series { entry_id, episode_id: Some(id) }
        }),
{
    let t = s.library.tables;
    let form = s.episode_form;
    let low = i32::MIN as int;
    let high = i32::MAX as int;
    law_typed_number(form.season, season as int, true, low, high);
    law_typed_number(form.number, number as int, true, low, high);
    law_new_ids(s.library);
    let change = ChangeView::InsertEpisode {
        id,
        entry_id,
        season,
        episode: number,
        title: s.typed_episode_title(),
        description: form.description,
        link_or_path: form.link,
    };
    law_changes_keep_tables(t, change);
    law_episode_after_change(t, change, id);
    assert forall|other: i64| other != id implies #[trigger] t.applied(change).episode(other)
        == t.episode(other) by {
        law_episode_after_change(t, change, other);
    }
    assert(s.submit_add_episode().library.tables == t.applied(change));
}

/// An episode without a link is not added; the form stays as it is.
pub proof fn law_episode_needs_link(s: AppView)
    requires
        blank(s.episode_form.link),
    ensures
        s.submit_add_episode() == (AppView { status: s.submit_add_episode().status, ..s }),
{
}

/// A season that is submitted is probed for with the pattern and the numbers in
/// the fields of that name. Nothing is stored before the probe.
pub proof fn law_season_submitted(
    s: AppView,
    entry_id: i64,
    season: i32,
    season_width: usize,
    ep_start: i32,
    ep_width: usize,
)
    requires
        s.selected.series() == Some(entry_id),
        !blank(s.season_form.pattern),
        s.season_form.pattern.contains('*'),
    ensures
        s.submit_add_season().0.library == s.library,
        s.submit_add_season().0.season_form.open == s.season_form.open,
        s.submit_add_season().1 matches Some(job) && {
            let form = s.season_form;
            &&& job.entry_id == entry_id
            &&& job.pattern == form.pattern
            &&& types_number(form.number, season as int) ==> job.season == season
            &&& types_number(form.width, season_width as int) ==> job.season_width == season_width
            &&& types_number(form.ep_start, ep_start as int) ==> job.ep_start == ep_start
            &&& types_number(form.ep_width, ep_width as int) ==> job.ep_width == ep_width
            &&& types_no_number(form.number) ==> job.season == 1
            &&& types_no_number(form.width) ==> job.season_width == 2
            &&& types_no_number(form.ep_start) ==> job.ep_start == 1
            &&& types_no_number(form.ep_width) ==> job.ep_width == 2
        },
{
    let form = s.season_form;
    let low = i32::MIN as int;
    let high = i32::MAX as int;
    law_typed_number(form.number, season as int, true, low, high);
    law_typed_number(form.ep_start, ep_start as int, true, low, high);
    law_typed_number(form.width, season_width as int, false, 0, usize::MAX as int);
    law_typed_number(form.ep_width, ep_width as int, false, 0, usize::MAX as int);
}

/// A pattern without a place for the episode number is not probed.
pub proof fn law_season_needs_pattern(s: AppView)
    requires
        blank(s.season_form.pattern) || !s.season_form.pattern.contains('*'),
    ensures
        s.submit_add_season().1 is None,
        s.submit_add_season().0 == (AppView { status: s.submit_add_season().0.status, ..s }),
{
}

/// A season that was probed for brings its series one episode for each link that
/// was found, and keeps the pattern and the widths of its numbers: probing it
/// again goes on with just these.
#[verifier::rlimit(40)]
pub proof fn law_season_added(s: AppView, job: SeasonJobView, rows: Seq<FoundView>, series: EntryView)
    requires
        s.wf(),
        s.library.tables.entry(job.entry_id) == Some(series),
        s.library.tables.last_episode_id + rows.len() <= i64::MAX,
        numbers_fit(rows),
        job.season_width <= i32::MAX,
        job.ep_width <= i32::MAX,
    ensures
        ({
            let before = s.library.tables;
            let done = s.finish_add_season(job, Ok(rows));
            let after = done.library.tables;
            &&& gained(before, after, job.entry_id, rows)
            &&& after.entries == before.entries
            &&& after.unlisted == before.unlisted
            &&& settings_stay(before, after)
            &&& after.pattern(job.entry_id, job.season) matches Some(kept) && kept.pattern
                == job.pattern && kept.season_width == job.season_width && kept.ep_width
                == job.ep_width
            &&& forall|other: i64, season: i32|
                other != job.entry_id || season != job.season ==> #[trigger] after.pattern(
                    other,
                    season,
                ) == before.pattern(other, season)
            &&& !done.season_form.open
            &&& done.selected.entry() == Some(job.entry_id)
            &&& series.kind == EntryKind::Series ==> (done.request_reprobe_season(
                job.season,
            ).1 matches Some(again) && again.entry_id == job.entry_id && again.season == job.season
                && again.pattern == job.pattern && again.season_width == job.season_width
                && again.ep_width == job.ep_width)
        }),
{
    let t = s.library.tables;
    assert(t.has_entry(job.entry_id));
    law_found_episodes_added(s.library, job.entry_id, rows);
    let l1 = s.library.with_all_found(job.entry_id, rows);
    let change = ChangeView::SetSeasonPattern {
        entry_id: job.entry_id,
        season: job.season,
        pattern: job.pattern,
        season_width: job.season_width as i32,
        ep_width: job.ep_width as i32,
    };
    law_changes_keep_tables(l1.tables, change);
    law_pattern_after_change(l1.tables, change, job.entry_id, job.season);
    let after = l1.tables.applied(change);
    assert(s.finish_add_season(job, Ok(rows)).library.tables == after);
    lemma_gained(t, after, job.entry_id, t.last_episode_id as int, rows);
    assert forall|other: i64, season: i32|
        other != job.entry_id || season != job.season implies #[trigger] after.pattern(other, season)
        == t.pattern(other, season) by {
        law_pattern_after_change(l1.tables, change, other, season);
        lemma_same_patterns(t, l1.tables, other, season);
    }
    lemma_same_entries(t, after);
    assert(after.entry(job.entry_id) == Some(series));
    assert(series.id == job.entry_id);
}

/// A season that was probed again brings its series one episode for each new link
/// that was found. The user is told how many.
#[verifier::rlimit(40)]
pub proof fn law_reprobe_adds(s: AppView, job: SeasonJobView, rows: Seq<FoundView>)
    requires
        s.wf(),
        s.library.tables.has_entry(job.entry_id),
        s.library.tables.last_episode_id + rows.len() <= i64::MAX,
        numbers_fit(rows),
    ensures
        ({
            let before = s.library.tables;
            let done = s.finish_reprobe(job, Ok(rows));
            let after = done.library.tables;
            &&& gained(before, after, job.entry_id, rows)
            &&& after.entries == before.entries
            &&& after.unlisted == before.unlisted
            &&& after.patterns == before.patterns
            &&& settings_stay(before, after)
            &&& done.selected.entry() == Some(job.entry_id)
        }),
{
    let t = s.library.tables;
    law_found_episodes_added(s.library, job.entry_id, rows);
    let after = s.finish_reprobe(job, Ok(rows)).library.tables;
    lemma_gained(t, after, job.entry_id, t.last_episode_id as int, rows);
    lemma_same_entries(t, after);
    assert(after.entry(job.entry_id) is Some);
}

/// A season is probed again with the pattern and widths that were kept for it,
/// from the number after its last episode; a season without a kept pattern is
/// not.
pub proof fn law_reprobe_asks(s: AppView, season: i32, entry_id: i64)
    requires
        s.selected.series() == Some(entry_id),
        s.reprobe_fits(season),
    ensures
        s.library.tables.pattern(entry_id, season) is None ==> s.request_reprobe_season(
            season,
        ).1 is None,
        s.library.tables.pattern(entry_id, season) matches Some(kept) ==> {
            &&& s.request_reprobe_season(season).1 matches Some(job) && job.entry_id == entry_id
                && job.season == season && job.pattern == kept.pattern && (kept.season_width >= 0
                ==> job.season_width == kept.season_width) && (kept.ep_width >= 0 ==> job.ep_width
                == kept.ep_width) && types_number(
                s.open_add_episode_dialog(season).episode_form.number,
                job.ep_start as int,
            )
        },
{
    let t = s.library.tables;
    let number = t.next_episode_number(entry_id, season);
    law_number_after(t.episode_numbers(entry_id, season));
    let none = Seq::<char>::empty();
    assert(decimal(number) =~= none + decimal(number) + none);
    assert(crate::text::surrounded(decimal(number), none, decimal(number), none));
}

// ---------------------------------------------------------------------
// Editing
// ---------------------------------------------------------------------

/// Editing an entry gives it the title, the description and the link that stand
/// in the fields of that name, and leaves all else of it, and everything else, as
/// it was.
#[verifier::rlimit(40)]
pub proof fn law_entry_edited(s: AppView, id: i64, e: EntryView)
    requires
        s.wf(),
        s.pending_edit == Some(EditTarget::Entry(id)),
        s.library.tables.entry(id) == Some(e),
    ensures
        ({
            let before = s.library.tables;
            let (done, step) = s.submit_edit();
            let after = done.library.tables;
            &&& after.entry(id) == Some(
                EntryView {
                    title: s.edit_form.title,
                    description: s.edit_form.description,
                    link_or_path: s.edit_form.link,
                    ..e
                },
            )
            &&& other_entries_stay(before, after, id)
            &&& after.unlisted == before.unlisted
            &&& after.episodes == before.episodes
            &&& after.patterns == before.patterns
            &&& settings_stay(before, after)
            &&& done.selected.entry() == Some(id)
            &&& done.detail.title == s.edit_form.title
            &&& !done.edit_form.open
            &&& step == if blank(s.edit_form.poster_path) {
                AddStepView::Nothing
            } else {
                AddStepView::SavePoster { entry_id: id, source: s.edit_form.poster_path }
            }
        }),
{
    let t = s.library.tables;
    let change = ChangeView::UpdateEntry {
        id,
        title: s.edit_form.title,
        description: s.edit_form.description,
        link_or_path: s.edit_form.link,
    };
    law_changes_keep_tables(t, change);
    law_entry_after_change(t, change, id);
    assert forall|other: i64| other != id implies #[trigger] t.applied(change).entry(other)
        == t.entry(other) by {
        law_entry_after_change(t, change, other);
    }
    assert(s.submit_edit().0.library.tables == t.applied(change));
}

/// Editing an episode gives it the title, the description and the link that stand
/// in the fields of that name, and leaves all else of it, and everything else, as
/// it was. Posters belong to entries.
#[verifier::rlimit(40)]
pub proof fn law_episode_edited(s: AppView, id: i64, e: EpisodeView)
    requires
        s.wf(),
        s.pending_edit == Some(EditTarget::Episode(id)),
        s.library.tables.episode(id) == Some(e),
    ensures
        ({
            let before = s.library.tables;
            let (done, step) = s.submit_edit();
            let after = done.library.tables;
            &&& after.episode(id) == Some(
                EpisodeView {
                    title: s.edit_form.title,
                    description: s.edit_form.description,
                    link_or_path: s.edit_form.link,
                    ..e
                },
            )
            &&& other_episodes_stay(before, after, id)
            &&& after.entries == before.entries
            &&& after.unlisted == before.unlisted
            &&& after.patterns == before.patterns
            &&& settings_stay(before, after)
            &&& before.has_entry(e.entry_id) ==> done.selected.entry() == Some(e.entry_id)
            &&& !done.edit_form.open
            &&& step == AddStepView::Nothing
        }),
{
    let t = s.library.tables;
    let change = ChangeView::UpdateEpisode {
        id,
        title: s.edit_form.title,
        description: s.edit_form.description,
        link_or_path: s.edit_form.link,
    };
    law_changes_keep_tables(t, change);
    law_episode_after_change(t, change, id);
    let after = t.applied(change);
    assert forall|other: i64| other != id implies #[trigger] after.episode(other) == t.episode(
        other,
    ) by {
        law_episode_after_change(t, change, other);
    }
    assert(s.submit_edit().0.library.tables == after);
    lemma_same_entries(t, after);
    if t.has_entry(e.entry_id) {
        assert(after.entry(e.entry_id) is Some);
        assert(t.entry(e.entry_id)->0.id == e.entry_id);
    }
}

/// The form for an entry comes with what the entry says, and submitting it
/// unchanged leaves the entry as it was.
pub proof fn law_unchanged_edit_keeps_entry(s: AppView, id: i64, e: EntryView)
    requires
        s.wf(),
        s.selected.entry() == Some(id),
        s.library.tables.entry(id) == Some(e),
    ensures
        s.open_edit_entry_dialog().edit_form.open,
        !s.open_edit_entry_dialog().edit_form.is_episode,
        s.open_edit_entry_dialog().edit_form.title == e.title,
        s.open_edit_entry_dialog().edit_form.description == e.description,
        s.open_edit_entry_dialog().edit_form.link == e.link_or_path,
        s.open_edit_entry_dialog().submit_edit().0.library.tables.entry(id) == Some(e),
        s.open_edit_entry_dialog().submit_edit().1 == AddStepView::Nothing,
{
    law_entry_edited(s.open_edit_entry_dialog(), id, e);
}

/// The form for an episode comes with what the episode says, and submitting it
/// unchanged leaves the episode as it was.
pub proof fn law_unchanged_edit_keeps_episode(s: AppView, id: i64, e: EpisodeView)
    requires
        s.wf(),
        s.library.tables.episode(id) == Some(e),
    ensures
        s.open_edit_episode_dialog(id).edit_form.open,
        s.open_edit_episode_dialog(id).edit_form.is_episode,
        s.open_edit_episode_dialog(id).edit_form.title == e.title,
        s.open_edit_episode_dialog(id).edit_form.description == e.description,
        s.open_edit_episode_dialog(id).edit_form.link == e.link_or_path,
        s.open_edit_episode_dialog(id).submit_edit().0.library.tables.episode(id) == Some(e),
{
    law_episode_edited(s.open_edit_episode_dialog(id), id, e);
}

// ---------------------------------------------------------------------
// Settings
// ---------------------------------------------------------------------

/// The player and the subtitle language that are saved are those that stand in
/// the fields of that name; opening the dialog again shows them, and what is
/// played then is played with them. Nothing else in the library changes.
pub proof fn law_settings_saved(s: AppView, detected: Option<Seq<char>>, resume: bool, windows: bool)
    ensures
        ({
            let done = s.submit_settings();
            let form = s.settings_form;
            &&& done.library.tables.setting(Setting::VlcPath) == Some(form.vlc_path)
            &&& done.library.tables.setting(Setting::SubtitleLang) == Some(form.subtitle_lang)
            &&& done.library.tables.setting(Setting::LastPlayed) == s.library.tables.setting(
                Setting::LastPlayed,
            )
            &&& done.library.tables.entries == s.library.tables.entries
            &&& done.library.tables.unlisted == s.library.tables.unlisted
            &&& done.library.tables.episodes == s.library.tables.episodes
            &&& done.library.tables.patterns == s.library.tables.patterns
            &&& done.open_settings_dialog().settings_form.vlc_path == form.vlc_path
            &&& done.open_settings_dialog().settings_form.subtitle_lang == form.subtitle_lang
            &&& done.play_request(resume, detected, windows) matches Some(r) ==> r.subtitle_lang
                == form.subtitle_lang && (!blank(form.vlc_path) ==> r.vlc_path == form.vlc_path)
            &&& !done.settings_form.open
        }),
{
}

/// A player that is set in the settings is the one that is run; else the one that
/// was found is, and the bare name only where none was.
pub proof fn law_player_chosen(s: AppView, detected: Option<Seq<char>>, resume: bool, windows: bool)
    ensures
        s.play_request(resume, detected, windows) matches Some(r) ==> {
            let set = s.library.tables.setting(Setting::VlcPath);
            &&& set is Some && !blank(set->0) ==> r.vlc_path == set->0
            &&& (set is None || blank(set->0)) && detected is Some ==> r.vlc_path == detected->0
            &&& (set is None || blank(set->0)) && detected is None ==> r.vlc_path == if windows {
                "vlc.exe"@
            } else {
                "vlc"@
            }
            &&& s.library.tables.setting(Setting::SubtitleLang) is None ==> r.subtitle_lang.len()
                == 0
        },
{
}

/// The player that is found at the start is stored where none ever was, and a
/// player that was stored is never replaced by it.
pub proof fn law_start_keeps_player(s: AppView, detected: Option<Seq<char>>)
    ensures
        s.started(detected).library.tables.setting(Setting::VlcPath) == if s.library.tables.setting(
            Setting::VlcPath,
        ) is Some {
            s.library.tables.setting(Setting::VlcPath)
        } else {
            detected
        },
        s.started(detected).library.tables == (Tables {
            vlc_path: s.started(detected).library.tables.vlc_path,
            ..s.library.tables
        }),
{
}

/// A player that is looked for from the settings is filled in where one was
/// found; nothing is stored yet, and the language stays.
pub proof fn law_found_player_filled_in(s: AppView, detected: Option<Seq<char>>)
    ensures
        s.detect_settings_vlc(detected).settings_form.vlc_path == match detected {
            Some(path) => path,
            None => s.settings_form.vlc_path,
        },
        s.detect_settings_vlc(detected).settings_form.subtitle_lang
            == s.settings_form.subtitle_lang,
        s.detect_settings_vlc(detected).library == s.library,
{
}

// ---------------------------------------------------------------------
// Deleting
// ---------------------------------------------------------------------

/// Episodes are those that were there before, without those that went.
pub open spec fn episodes_without(
    before: Tables,
    after: Tables,
    gone: spec_fn(EpisodeView) -> bool,
) -> bool {
    forall|id: i64| #[trigger]
        after.episode(id) == match before.episode(id) {
            Some(e) => if gone(e) {
                None
            } else {
                Some(e)
            },
            None => None,
        }
}

/// What was played last is forgotten where it went, and else remembered.
pub open spec fn forgotten_if(before: LibraryView, after: LibraryView, gone: bool) -> bool {
    after.last_played() == if gone {
        None
    } else {
        before.last_played()
    }
}

/// Deleting the open entry asks first. Once the user agrees, the entry is gone with
/// all its episodes, and nothing else is; its posters go too, and nothing is open.
#[verifier::rlimit(40)]
pub proof fn law_entry_deleted(s: AppView, id: i64)
    requires
        s.wf(),
        s.selected.entry() == Some(id),
    ensures
        s.request_delete_entry().library == s.library,
        s.request_delete_entry().confirm.open,
        s.request_delete_entry().posters_to_delete() == Some(id),
        ({
            let before = s.library.tables;
            let done = s.request_delete_entry().confirm_delete();
            let after = done.library.tables;
            &&& after.entry(id) is None
            &&& other_entries_stay(before, after, id)
            &&& episodes_without(before, after, |e: EpisodeView| e.entry_id == id)
            &&& forgotten_if(
                s.library,
                done.library,
                s.library.last_played() matches Some(lp) && lp.entry_id == id,
            )
            &&& before.vlc_path == after.vlc_path && before.subtitle_lang == after.subtitle_lang
            &&& done.selected == Selection::Nothing
            &&& !done.detail.has_selection
            &&& !done.confirm.open
        }),
{
    let target = DeleteTargetView::Entry(id);
    let before = s.library.tables;
    let done = s.request_delete_entry().confirm_delete();
    let after = done.library.tables;
    assert(done.library == s.library.deleted(target));
    law_deleted_entries(s.library, target, id);
    law_deleted_is_forgotten(s.library, target);
    assert forall|other: i64| other != id implies #[trigger] after.entry(other) == before.entry(
        other,
    ) by {
        law_deleted_entries(s.library, target, other);
    }
    let gone = |e: EpisodeView| e.entry_id == id;
    assert forall|other: i64| #[trigger]
        after.episode(other) == match before.episode(other) {
            Some(e) => if gone(e) {
                None
            } else {
                Some(e)
            },
            None => None,
        } by {
        law_deleted_episodes(s.library, target, other);
    }
}

/// Deleting an episode asks first. Once the user agrees, the episode is gone, and
/// nothing else is; its series is open then.
#[verifier::rlimit(40)]
pub proof fn law_episode_deleted(s: AppView, e: EpisodeView)
    requires
        s.wf(),
        s.library.tables.episode(e.id) == Some(e),
    ensures
        s.request_delete_episode(e.id).library == s.library,
        s.request_delete_episode(e.id).confirm.open,
        s.request_delete_episode(e.id).posters_to_delete() is None,
        ({
            let before = s.library.tables;
            let done = s.request_delete_episode(e.id).confirm_delete();
            let after = done.library.tables;
            &&& after.episode(e.id) is None
            &&& other_episodes_stay(before, after, e.id)
            &&& forall|id: i64| #[trigger] after.entry(id) == before.entry(id)
            &&& after.patterns == before.patterns
            &&& forgotten_if(
                s.library,
                done.library,
                s.library.last_played() matches Some(lp) && lp.episode_id == Some(e.id),
            )
            &&& before.has_entry(e.entry_id) ==> done.selected.entry() == Some(e.entry_id)
            &&& !done.confirm.open
        }),
{
    let target = DeleteTargetView::Episode(e.id);
    let before = s.library.tables;
    let done = s.request_delete_episode(e.id).confirm_delete();
    let after = done.library.tables;
    assert(done.library == s.library.deleted(target));
    law_deleted_episodes(s.library, target, e.id);
    law_deleted_is_forgotten(s.library, target);
    assert forall|id: i64| #[trigger] after.entry(id) == before.entry(id) by {
        law_deleted_entries(s.library, target, id);
    }
    assert forall|other: i64| other != e.id implies #[trigger] after.episode(other)
        == before.episode(other) by {
        law_deleted_episodes(s.library, target, other);
        if before.episode(other) is Some {
            assert(before.episode(other)->0.id == other);
        }
    }
    if before.has_entry(e.entry_id) {
        assert(after.entry(e.entry_id) == before.entry(e.entry_id));
        assert(before.entry(e.entry_id)->0.id == e.entry_id);
    }
}

/// Deleting a season of the open series asks first. Once the user agrees, its
/// episodes are gone with the pattern kept for it, and nothing else is.
#[verifier::rlimit(40)]
pub proof fn law_season_deleted(s: AppView, entry_id: i64, season: i32)
    requires
        s.wf(),
        s.selected.series() == Some(entry_id),
    ensures
        s.request_delete_season(season).library == s.library,
        s.request_delete_season(season).confirm.open,
        s.request_delete_season(season).posters_to_delete() is None,
        ({
            let before = s.library.tables;
            let done = s.request_delete_season(season).confirm_delete();
            let after = done.library.tables;
            &&& episodes_without(
                before,
                after,
                |e: EpisodeView| e.entry_id == entry_id && e.season == season,
            )
            &&& forall|id: i64| #[trigger] after.entry(id) == before.entry(id)
            &&& after.pattern(entry_id, season) is None
            &&& forall|other: i64, n: i32|
                other != entry_id || n != season ==> #[trigger] after.pattern(other, n)
                    == before.pattern(other, n)
            &&& forgotten_if(
                s.library,
                done.library,
                s.library.last_played() matches Some(lp) && lp.episode_id is Some
                    && (before.episode(lp.episode_id->0) matches Some(e) && e.entry_id == entry_id
                    && e.season == season),
            )
            &&& before.has_entry(entry_id) ==> done.selected.entry() == Some(entry_id)
            &&& !done.confirm.open
        }),
{
    let target = DeleteTargetView::Season(entry_id, season);
    let before = s.library.tables;
    let done = s.request_delete_season(season).confirm_delete();
    let after = done.library.tables;
    assert(done.library == s.library.deleted(target));
    law_deleted_is_forgotten(s.library, target);
    law_deleted_season_pattern(s.library, entry_id, season);
    let l1 = s.library.forgetting(target);
    let drop = ChangeView::DeleteSeasonEpisodes { entry_id, season };
    let forget = ChangeView::DeleteSeasonPattern { entry_id, season };
    law_changes_keep_tables(before, ChangeView::DeleteSetting { setting: Setting::LastPlayed });
    law_changes_keep_tables(l1.tables, drop);
    assert forall|other: i64, n: i32|
        other != entry_id || n != season implies #[trigger] after.pattern(other, n)
        == before.pattern(other, n) by {
        law_pattern_after_change(l1.tables.applied(drop), forget, other, n);
        lemma_same_patterns(before, l1.tables.applied(drop), other, n);
    }
    assert forall|id: i64| #[trigger] after.entry(id) == before.entry(id) by {
        law_deleted_entries(s.library, target, id);
    }
    let gone = |e: EpisodeView| e.entry_id == entry_id && e.season == season;
    assert forall|other: i64| #[trigger]
        after.episode(other) == match before.episode(other) {
            Some(e) => if gone(e) {
                None
            } else {
                Some(e)
            },
            None => None,
        } by {
        law_deleted_episodes(s.library, target, other);
    }
    if before.has_entry(entry_id) {
        assert(after.entry(entry_id) == before.entry(entry_id));
        assert(before.entry(entry_id)->0.id == entry_id);
    }
}

proof fn lemma_patterns_survive(l: LibraryView, ids: Seq<i64>)
    ensures
        l.delete_episodes(ids).tables.patterns == l.tables.patterns,
    decreases ids.len(),
{
    if ids.len() > 0 {
        lemma_patterns_survive(l, ids.drop_last());
    }
}

/// Deleting the ticked episodes asks first. Once the user agrees, just these are
/// gone, nothing is ticked any more, and bulk-select mode is off.
#[verifier::rlimit(40)]
pub proof fn law_ticked_deleted(s: AppView)
    requires
        s.wf(),
        s.bulk.selected.len() > 0,
    ensures
        s.bulk_delete_selected().library == s.library,
        s.bulk_delete_selected().confirm.open,
        s.bulk_delete_selected().posters_to_delete() is None,
        ({
            let before = s.library.tables;
            let done = s.bulk_delete_selected().confirm_delete();
            let after = done.library.tables;
            &&& episodes_without(before, after, |e: EpisodeView| s.bulk.selected.contains(e.id))
            &&& forall|id: i64| #[trigger] after.entry(id) == before.entry(id)
            &&& after.patterns == before.patterns
            &&& forgotten_if(
                s.library,
                done.library,
                s.library.last_played() matches Some(lp) && lp.episode_id is Some
                    && s.bulk.selected.contains(lp.episode_id->0),
            )
            &&& done.bulk.selected.len() == 0
            &&& !done.bulk.mode
            &&& done.status == "Deleted "@ + decimal(s.bulk.selected.len() as int)
                + " episode(s)."@
            &&& !done.confirm.open
        }),
{
    let ids = s.bulk.selected;
    let target = DeleteTargetView::BulkEpisodes(ids);
    lemma_patterns_survive(s.library.forgetting(target), ids);
    let before = s.library.tables;
    let done = s.bulk_delete_selected().confirm_delete();
    let after = done.library.tables;
    assert(done.library == s.library.deleted(target));
    law_deleted_is_forgotten(s.library, target);
    assert forall|id: i64| #[trigger] after.entry(id) == before.entry(id) by {
        law_deleted_entries(s.library, target, id);
    }
    let gone = |e: EpisodeView| s.bulk.selected.contains(e.id);
    assert forall|other: i64| #[trigger]
        after.episode(other) == match before.episode(other) {
            Some(e) => if gone(e) {
                None
            } else {
                Some(e)
            },
            None => None,
        } by {
        law_deleted_episodes(s.library, target, other);
    }
}

/// What is deleted where the open entry or episode is to be: the selected episode
/// of a series, and else the entry.
pub proof fn law_delete_what_is_open(s: AppView, entry_id: i64, id: i64)
    ensures
        s.selected == (Selection::Series { entry_id, episode_id: Some(id) })
            ==> s.request_delete_current() == s.request_delete_episode(id),
        s.selected == Selection::Movie(id) || s.selected == (Selection::Series {
            entry_id,
            episode_id: None,
        }) ==> s.request_delete_current() == s.request_delete_entry(),
        s.pending_delete is None ==> s.confirm_delete().library == s.library,
{
}

// ---------------------------------------------------------------------
// What could not be stored
// ---------------------------------------------------------------------

/// What could not be stored has not happened: the library is what is stored, what
/// was selected before is selected if it is still there, and the form that was
/// submitted is open with what was typed in.
#[verifier::rlimit(40)]
pub proof fn law_failed_store_undone(
    s: AppView,
    stored: LibraryView,
    e: EntryView,
    request: Request,
    cause: Seq<char>,
)
    requires
        stored.tables.entry(e.id) == Some(e),
        e.kind == EntryKind::Movie,
    ensures
        ({
            let done = s.storage_failed(stored, Selection::Movie(e.id), request, cause);
            &&& done.library == stored
            &&& done.selected == Selection::Movie(e.id)
            &&& done.detail.title == e.title
            &&& done.add_form == (AddFormView {
                open: s.add_form.open || request == Request::AddMovie || request
                    == Request::AddSeries,
                ..s.add_form
            })
            &&& done.episode_form == (EpisodeFormView {
                open: s.episode_form.open || request == Request::AddEpisode,
                ..s.episode_form
            })
            &&& done.edit_form == (EditFormView {
                open: s.edit_form.open || request == Request::Edit,
                ..s.edit_form
            })
            &&& done.settings_form == (SettingsFormView {
                open: s.settings_form.open || request == Request::SaveSettings,
                ..s.settings_form
            })
        }),
{
}

/// A selected episode is selected again where what was asked for could not be
/// stored, and the user is told why.
#[verifier::rlimit(40)]
pub proof fn law_failed_store_keeps_episode(
    s: AppView,
    stored: LibraryView,
    x: EpisodeView,
    request: Request,
    cause: Seq<char>,
)
    requires
        stored.tables.episode(x.id) == Some(x),
    ensures
        ({
            let selected = Selection::Series { entry_id: x.entry_id, episode_id: Some(x.id) };
            let done = s.storage_failed(stored, selected, request, cause);
            &&& done.library == stored
            &&& done.selected == selected
            &&& done.detail.link == x.link_or_path
            &&& cause.is_suffix_of(done.status)
        }),
{
    let selected = Selection::Series { entry_id: x.entry_id, episode_id: Some(x.id) };
    let done = s.storage_failed(stored, selected, request, cause);
    assert(done.status.subrange(done.status.len() - cause.len(), done.status.len() as int)
        =~= cause);
}

// ---------------------------------------------------------------------
// Forms as they open, and questions
// ---------------------------------------------------------------------

/// The form for a new entry opens empty, for a movie, and starts a series with its
/// first season and episode, numbers two digits wide.
pub proof fn law_add_form_opens(s: AppView)
    ensures
        ({
            let form = s.open_add_dialog().add_form;
            &&& form.open && !form.in_progress
            &&& form.kind == "movie"@
            &&& form.title.len() == 0 && form.description.len() == 0 && form.link.len() == 0
                && form.poster_path.len() == 0 && form.pattern_link.len() == 0
            &&& types_number(form.pattern_season_start, 1)
            &&& types_number(form.pattern_start, 1)
            &&& types_number(form.pattern_season_width, 2)
            &&& types_number(form.pattern_episode_width, 2)
        }),
{
    lemma_small_numbers();
}

/// The form for a season opens without a pattern, and starts with the first
/// episode, numbers two digits wide; the form for an episode opens without a title,
/// a description and a link.
pub proof fn law_season_form_opens(s: AppView, season: i32)
    requires
        s.selected.series() is Some,
    ensures
        ({
            let form = s.open_add_season_dialog().season_form;
            &&& form.open && !form.in_progress
            &&& form.pattern.len() == 0
            &&& types_number(form.ep_start, 1)
            &&& types_number(form.width, 2)
            &&& types_number(form.ep_width, 2)
        }),
        ({
            let form = s.open_add_episode_dialog(season).episode_form;
            form.title.len() == 0 && form.description.len() == 0 && form.link.len() == 0
        }),
{
    lemma_small_numbers();
}

proof fn lemma_small_numbers()
    ensures
        types_number("1"@, 1),
        types_number("2"@, 2),
{
    reveal_strlit("1");
    reveal_strlit("2");
    let none = Seq::<char>::empty();
    assert("1"@ =~= none + decimal(1) + none);
    assert("2"@ =~= none + decimal(2) + none);
    assert(crate::text::surrounded("1"@, none, decimal(1), none));
    assert(crate::text::surrounded("2"@, none, decimal(2), none));
}

/// The question before something is deleted names it: an entry by its title, an
/// episode by its name, a season by its number, and ticked episodes by how many
/// they are.
pub proof fn law_question_names(s: AppView, e: EntryView, x: EpisodeView, season: i32)
    ensures
        s.selected.entry() == Some(e.id) && s.library.tables.entry(e.id) == Some(e)
            ==> contains_text(s.request_delete_entry().confirm.message, e.title),
        s.library.tables.episode(x.id) == Some(x) ==> contains_text(
            s.request_delete_episode(x.id).confirm.message,
            label_text(x),
        ),
        s.selected.series() is Some ==> contains_text(
            s.request_delete_season(season).confirm.message,
            "Season "@ + decimal(season as int),
        ),
        s.bulk.selected.len() > 0 ==> contains_text(
            s.bulk_delete_selected().confirm.message,
            decimal(s.bulk.selected.len() as int),
        ),
{
    lemma_holds_part("Delete \""@, e.title, "\"? This cannot be undone."@);
    lemma_holds_part("Delete episode \""@, label_text(x), "\"?"@);
    reveal_strlit("Delete Season ");
    reveal_strlit("Delete ");
    reveal_strlit("Season ");
    let tail = " and all its episodes? This cannot be undone."@;
    let name = "Season "@ + decimal(season as int);
    lemma_holds_part("Delete "@, name, tail);
    assert("Delete "@ + name + tail =~= "Delete Season "@ + decimal(season as int) + tail);
    lemma_holds_part(
        "Delete "@,
        decimal(s.bulk.selected.len() as int),
        " selected episode(s)? This cannot be undone."@,
    );
}

proof fn lemma_holds_part(before: Seq<char>, part: Seq<char>, after: Seq<char>)
    ensures
        contains_text(before + part + after, part),
{
    let whole = before + part + after;
    let at = before.len() as int;
    assert(whole.subrange(at, at + part.len()) =~= part);
}

} // verus!
