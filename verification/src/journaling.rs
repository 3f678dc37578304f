//! The journal tells how the tables came to be, whatever the user does.

use serde_json::Value;
use vstd::prelude::*;

use crate::adding::{found_title, i32_or, SeriesJobView};
use crate::db::{last_played_text, LastPlayed};
use crate::marking::marked_position;
use crate::models::EntryKind;
use crate::pattern::{FoundView, ProbeError};
use crate::playback::{resume_point, watched_through, PlaybackTargetView};
use crate::readback::{law_journal_tells, tells};
use crate::seasons::SeasonJobView;
use crate::state::{AppView, DeleteTargetView, EditTarget, Selection};
use crate::tables::{ChangeView, LibraryView, Setting, Tables};
use crate::transfer::{library_doc, EpisodeDoc, MovieDoc, SeriesDoc};
use crate::vlc::Status;

verus! {

broadcast use vstd::string::group_string_axioms;

proof fn lemma_deleted_journal(l: LibraryView, from: Tables, target: DeleteTargetView)
    requires
        tells(l, from),
    ensures
        tells(l.deleted(target), from),
{
    let l1 = l.forgetting(target);
    law_journal_tells(l, from, ChangeView::DeleteSetting { setting: Setting::LastPlayed });
    match target {
        DeleteTargetView::Entry(id) => {
            law_journal_tells(l1, from, ChangeView::DeleteEntry { id });
        },
        DeleteTargetView::Episode(id) => {
            law_journal_tells(l1, from, ChangeView::DeleteEpisode { id });
        },
        DeleteTargetView::Season(entry_id, season) => {
            let change = ChangeView::DeleteSeasonEpisodes { entry_id, season };
            law_journal_tells(l1, from, change);
            law_journal_tells(
                l1.with(change),
                from,
                ChangeView::DeleteSeasonPattern { entry_id, season },
            );
        },
        DeleteTargetView::BulkEpisodes(ids) => {
            lemma_delete_episodes_journal(l1, from, ids);
        },
    }
}

proof fn lemma_delete_episodes_journal(l: LibraryView, from: Tables, ids: Seq<i64>)
    requires
        tells(l, from),
    ensures
        tells(l.delete_episodes(ids), from),
    decreases ids.len(),
{
    if ids.len() > 0 {
        lemma_delete_episodes_journal(l, from, ids.drop_last());
        law_journal_tells(
            l.delete_episodes(ids.drop_last()),
            from,
            ChangeView::DeleteEpisode { id: ids.last() },
        );
    }
}

proof fn lemma_found_journal(l: LibraryView, from: Tables, entry_id: i64, rows: Seq<FoundView>)
    requires
        tells(l, from),
    ensures
        tells(l.with_all_found(entry_id, rows), from),
    decreases rows.len(),
{
    if rows.len() > 0 {
        lemma_found_journal(l, from, entry_id, rows.drop_last());
        let before = l.with_all_found(entry_id, rows.drop_last());
        let row = rows.last();
        if before.episode_refused(entry_id) is None {
            law_journal_tells(
                before,
                from,
                ChangeView::InsertEpisode {
                    id: before.next_episode_id()->0,
                    entry_id,
                    season: row.season as i32,
                    episode: row.episode as i32,
                    title: found_title(row.episode),
                    description: Seq::empty(),
                    link_or_path: row.link,
                },
            );
        }
    }
}

proof fn lemma_patterns_journal(
    l: LibraryView,
    from: Tables,
    entry_id: i64,
    rows: Seq<FoundView>,
    pattern: Seq<char>,
    season_width: i32,
    ep_width: i32,
)
    requires
        tells(l, from),
    ensures
        tells(l.with_patterns(entry_id, rows, pattern, season_width, ep_width), from),
    decreases rows.len(),
{
    if rows.len() > 0 {
        let rest = rows.drop_last();
        lemma_patterns_journal(l, from, entry_id, rest, pattern, season_width, ep_width);
        law_journal_tells(
            l.with_patterns(entry_id, rest, pattern, season_width, ep_width),
            from,
            ChangeView::SetSeasonPattern {
                entry_id,
                season: rows.last().season as i32,
                pattern,
                season_width,
                ep_width,
            },
        );
    }
}

proof fn lemma_mark_journal(l: LibraryView, from: Tables, ids: Seq<i64>, finished: bool)
    requires
        tells(l, from),
    ensures
        tells(l.mark_episodes(ids, finished), from),
    decreases ids.len(),
{
    if ids.len() > 0 {
        lemma_mark_journal(l, from, ids.drop_last(), finished);
        let before = l.mark_episodes(ids.drop_last(), finished);
        if let Some(e) = before.tables.episode(ids.last()) {
            law_journal_tells(
                before,
                from,
                ChangeView::UpdateEpisodeResume {
                    id: ids.last(),
                    position: marked_position(e.duration, finished),
                    duration: e.duration,
                    finished,
                },
            );
        }
    }
}

proof fn lemma_import_movies_journal(l: LibraryView, from: Tables, docs: Seq<MovieDoc>)
    requires
        tells(l, from),
    ensures
        tells(l.import_movies(docs), from),
    decreases docs.len(),
{
    if docs.len() > 0 {
        lemma_import_movies_journal(l, from, docs.drop_last());
        let before = l.import_movies(docs.drop_last());
        let m = docs.last();
        if let Some(id) = before.next_entry_id() {
            let insert = ChangeView::InsertEntry {
                id,
                title: m.title,
                kind: EntryKind::Movie,
                description: m.description,
                link_or_path: m.link_or_path,
            };
            law_journal_tells(before, from, insert);
            law_journal_tells(
                before.with(insert),
                from,
                ChangeView::UpdateEntryResume {
                    id,
                    position: m.resume_position,
                    duration: m.duration,
                    finished: m.finished,
                },
            );
        }
    }
}

proof fn lemma_import_episodes_journal(
    l: LibraryView,
    from: Tables,
    entry_id: i64,
    docs: Seq<EpisodeDoc>,
)
    requires
        tells(l, from),
    ensures
        tells(l.import_episodes(entry_id, docs), from),
    decreases docs.len(),
{
    if docs.len() > 0 {
        lemma_import_episodes_journal(l, from, entry_id, docs.drop_last());
        let before = l.import_episodes(entry_id, docs.drop_last());
        let e = docs.last();
        if before.episode_refused(entry_id) is None {
            let id = before.next_episode_id()->0;
            let insert = ChangeView::InsertEpisode {
                id,
                entry_id,
                season: e.season,
                episode: e.episode,
                title: e.title,
                description: e.description,
                link_or_path: e.link_or_path,
            };
            law_journal_tells(before, from, insert);
            law_journal_tells(
                before.with(insert),
                from,
                ChangeView::UpdateEpisodeResume {
                    id,
                    position: e.resume_position,
                    duration: e.duration,
                    finished: e.finished,
                },
            );
        }
    }
}

proof fn lemma_import_series_journal(l: LibraryView, from: Tables, docs: Seq<SeriesDoc>)
    requires
        tells(l, from),
    ensures
        tells(l.import_series(docs), from),
    decreases docs.len(),
{
    if docs.len() > 0 {
        lemma_import_series_journal(l, from, docs.drop_last());
        let before = l.import_series(docs.drop_last());
        let s = docs.last();
        if let Some(id) = before.next_entry_id() {
            let insert = ChangeView::InsertEntry {
                id,
                title: s.title,
                kind: EntryKind::Series,
                description: s.description,
                link_or_path: s.link_or_path,
            };
            law_journal_tells(before, from, insert);
            lemma_import_episodes_journal(before.with(insert), from, id, s.episodes);
        }
    }
}

/// Deleting and marking go through the journal: it still tells how the tables
/// came to be.
pub proof fn law_deleting_is_journaled(s: AppView, from: Tables, finished: bool)
    requires
        tells(s.library, from),
    ensures
        tells(s.confirm_delete().library, from),
        tells(s.bulk_set_finished(finished).library, from),
        tells(s.toggle_movie_watched().library, from),
{
    let l = s.library;
    if let Some(target) = s.pending_delete {
        lemma_deleted_journal(l, from, target);
    }
    lemma_mark_journal(l, from, s.bulk.selected, finished);
    if let Selection::Movie(id) = s.selected {
        if let Some(e) = l.tables.entry(id) {
            law_journal_tells(
                l,
                from,
                ChangeView::UpdateEntryResume {
                    id,
                    position: marked_position(e.duration, !e.finished),
                    duration: e.duration,
                    finished: !e.finished,
                },
            );
        }
    }
}

/// Adding by hand goes through the journal too.
pub proof fn law_adding_is_journaled(s: AppView, from: Tables)
    requires
        tells(s.library, from),
    ensures
        tells(s.submit_add().0.library, from),
        tells(s.submit_add_episode().library, from),
{
    let l = s.library;
    let form = s.add_form;
    if let Some(id) = l.next_entry_id() {
        law_journal_tells(
            l,
            from,
            ChangeView::InsertEntry {
                id,
                title: form.title,
                kind: EntryKind::Movie,
                description: form.description,
                link_or_path: form.link,
            },
        );
    }
    let ep = s.episode_form;
    if let Some(entry_id) = s.selected.series() {
        law_journal_tells(
            l,
            from,
            ChangeView::InsertEpisode {
                id: l.next_episode_id()->0,
                entry_id,
                season: i32_or(ep.season, 1),
                episode: i32_or(ep.number, 1),
                title: s.typed_episode_title(),
                description: ep.description,
                link_or_path: ep.link,
            },
        );
    }
}

/// Editing and the settings go through the journal too.
pub proof fn law_editing_is_journaled(s: AppView, from: Tables, detected: Option<Seq<char>>)
    requires
        tells(s.library, from),
    ensures
        tells(s.submit_edit().0.library, from),
        tells(s.submit_settings().library, from),
        tells(s.started(detected).library, from),
{
    let l = s.library;
    let edit = s.edit_form;
    match s.pending_edit {
        Some(EditTarget::Entry(id)) => {
            law_journal_tells(
                l,
                from,
                ChangeView::UpdateEntry {
                    id,
                    title: edit.title,
                    description: edit.description,
                    link_or_path: edit.link,
                },
            );
        },
        Some(EditTarget::Episode(id)) => {
            law_journal_tells(
                l,
                from,
                ChangeView::UpdateEpisode {
                    id,
                    title: edit.title,
                    description: edit.description,
                    link_or_path: edit.link,
                },
            );
        },
        None => {},
    }
    let path = ChangeView::PutSetting {
        setting: Setting::VlcPath,
        value: s.settings_form.vlc_path,
    };
    law_journal_tells(l, from, path);
    law_journal_tells(
        l.with(path),
        from,
        ChangeView::PutSetting {
            setting: Setting::SubtitleLang,
            value: s.settings_form.subtitle_lang,
        },
    );
    if let Some(found) = detected {
        law_journal_tells(
            l,
            from,
            ChangeView::PutSetting { setting: Setting::VlcPath, value: found },
        );
    }
}

/// What a probe found and what a document holds goes through the journal too.
pub proof fn law_additions_are_journaled(
    s: AppView,
    from: Tables,
    job: SeriesJobView,
    season: SeasonJobView,
    found: Result<Seq<FoundView>, ProbeError>,
    read: Result<Value, Seq<char>>,
)
    requires
        tells(s.library, from),
    ensures
        tells(s.finish_add(job, found).0.library, from),
        tells(s.finish_add_season(season, found).library, from),
        tells(s.finish_reprobe(season, found).library, from),
        tells(s.import_read(read).library, from),
{
    let l = s.library;
    if let Ok(rows) = found {
        if let Some(id) = l.next_entry_id() {
            let insert = ChangeView::InsertEntry {
                id,
                title: job.title,
                kind: EntryKind::Series,
                description: job.description,
                link_or_path: Seq::empty(),
            };
            law_journal_tells(l, from, insert);
            lemma_found_journal(l.with(insert), from, id, rows);
            lemma_patterns_journal(
                l.with(insert).with_all_found(id, rows),
                from,
                id,
                rows,
                job.pattern,
                job.season_width as i32,
                job.ep_width as i32,
            );
        }
        lemma_found_journal(l, from, season.entry_id, rows);
        law_journal_tells(
            l.with_all_found(season.entry_id, rows),
            from,
            ChangeView::SetSeasonPattern {
                entry_id: season.entry_id,
                season: season.season,
                pattern: season.pattern,
                season_width: season.season_width as i32,
                ep_width: season.ep_width as i32,
            },
        );
    }
    if let Ok(v) = read {
        let doc = library_doc(v);
        lemma_import_movies_journal(l, from, doc.movies);
        lemma_import_series_journal(l.import_movies(doc.movies), from, doc.series);
    }
}

/// Playing goes through the journal too.
pub proof fn law_playing_is_journaled(
    s: AppView,
    from: Tables,
    now: i64,
    target: PlaybackTargetView,
    status: Status,
)
    requires
        tells(s.library, from),
    ensures
        tells(s.play(now).library, from),
        tells(s.playback_ended(target, status).library, from),
{
    let l = s.library;
    match s.selected {
        Selection::Movie(id) => {
            let lp = LastPlayed { kind: EntryKind::Movie, entry_id: id, episode_id: None };
            let put = ChangeView::PutSetting {
                setting: Setting::LastPlayed,
                value: last_played_text(lp),
            };
            law_journal_tells(l, from, put);
            law_journal_tells(l.with(put), from, ChangeView::TouchLastWatched { id, at: now });
        },
        Selection::Series { entry_id, episode_id } => {
            let lp = LastPlayed { kind: EntryKind::Series, entry_id, episode_id };
            let put = ChangeView::PutSetting {
                setting: Setting::LastPlayed,
                value: last_played_text(lp),
            };
            law_journal_tells(l, from, put);
            law_journal_tells(
                l.with(put),
                from,
                ChangeView::TouchLastWatched { id: entry_id, at: now },
            );
        },
        Selection::Nothing => {},
    }
    let stored = match target {
        PlaybackTargetView::Entry(id, _) => ChangeView::UpdateEntryResume {
            id,
            position: resume_point(status),
            duration: status.length_seconds,
            finished: watched_through(status),
        },
        PlaybackTargetView::Episode(id, _) => ChangeView::UpdateEpisodeResume {
            id,
            position: resume_point(status),
            duration: status.length_seconds,
            finished: watched_through(status),
        },
    };
    law_journal_tells(l, from, stored);
    if let PlaybackTargetView::Episode(id, _) = target {
        if let Some((entry_id, next)) = l.with(stored).tables.following(id) {
            let lp = LastPlayed { kind: EntryKind::Series, entry_id, episode_id: Some(next) };
            law_journal_tells(
                l.with(stored),
                from,
                ChangeView::PutSetting {
                    setting: Setting::LastPlayed,
                    value: last_played_text(lp),
                },
            );
        }
    }
}

} // verus!
