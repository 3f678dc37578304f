use aparatchi::db::{get_entry, get_episode, insert_entry, insert_episode};
use aparatchi::models::EntryKind;
use aparatchi::playback::{format_duration, progress_string, Playback, PlaybackTarget};
use aparatchi::tables::Library;
use aparatchi::vlc::Status;

fn status(time_seconds: i64, length_seconds: i64) -> Status {
    Status { time_seconds, length_seconds }
}

fn watched(readings: &[Status]) -> Playback {
    let mut p = Playback::new(PlaybackTarget::Entry(1, "x".to_string()));
    for r in readings {
        p.reading(*r);
    }
    p
}

#[test]
fn durations_are_written() {
    assert_eq!(format_duration(0), "0:00");
    assert_eq!(format_duration(-9), "0:00");
    assert_eq!(format_duration(59), "0:59");
    assert_eq!(format_duration(61), "1:01");
    assert_eq!(format_duration(3599), "59:59");
    assert_eq!(format_duration(3600), "1:00:00");
    assert_eq!(format_duration(36061), "10:01:01");
}

#[test]
fn a_duration_reads_back_in_base_sixty() {
    for total in [-7, 0, 9, 59, 60, 61, 599, 600, 3599, 3600, 3661, 36000, 359999, 360000] {
        let text = format_duration(total);
        let fields: Vec<&str> = text.split(':').collect();
        assert_eq!(fields.len(), if total >= 3600 { 3 } else { 2 });
        let mut value: i64 = 0;
        for (i, field) in fields.iter().enumerate() {
            let n: i64 = field.parse().unwrap();
            if i > 0 {
                assert!(field.len() == 2 && n < 60);
            } else {
                assert_eq!(*field, n.to_string());
            }
            value = value * 60 + n;
        }
        assert_eq!(value, total.max(0));
    }
    assert_ne!(format_duration(3600), format_duration(60));
    assert_eq!(format_duration(-1), format_duration(0));
}

#[test]
fn progress_is_written() {
    assert_eq!(progress_string(90, 3600, false), "1:30 / 1:00:00");
    assert_eq!(progress_string(0, 3600, true), "1:00:00 / 1:00:00");
    assert_eq!(progress_string(90, 0, false), "");
    assert_eq!(progress_string(90, -1, true), "");
}

#[test]
fn nine_tenths_count_as_finished() {
    assert!(watched(&[status(90, 100)]).finished());
    assert!(!watched(&[status(89, 100)]).finished());
    assert!(watched(&[status(9, 10)]).finished());
    assert!(!watched(&[status(8, 9)]).finished());
    assert!(watched(&[status(100, 100)]).finished());
    assert!(!watched(&[status(5, 0)]).finished());
    assert!(!watched(&[]).finished());
    assert!(watched(&[status(i64::MAX, i64::MAX)]).finished());
}

#[test]
fn an_idle_player_is_not_believed() {
    let p = watched(&[status(10, 100), status(95, 100), status(0, 0), status(0, 0)]);
    assert_eq!((p.last_status.time_seconds, p.last_status.length_seconds), (95, 100));
    assert!(p.finished());
    let p = watched(&[status(7, 0)]);
    assert_eq!((p.last_status.time_seconds, p.last_status.length_seconds), (0, 0));
}

#[test]
fn the_latest_reading_with_a_length_counts() {
    let p = watched(&[status(95, 100), status(3, 100), status(0, -1)]);
    assert_eq!(p.last_status.time_seconds, 3);
    assert!(!p.finished());
}

#[test]
fn progress_is_stored_where_the_target_is() {
    let mut library = Library::new();
    let movie = insert_entry(&mut library, "m", EntryKind::Movie, "", "").unwrap();
    let show = insert_entry(&mut library, "s", EntryKind::Series, "", "").unwrap();
    let ep = insert_episode(&mut library, show, 1, 1, "", "", "").unwrap();
    let target = PlaybackTarget::Entry(movie, "a".to_string());
    assert_eq!(target.link(), "a");
    target.persist(&mut library, 5, 50, false);
    let target = PlaybackTarget::Episode(ep, "b".to_string());
    assert_eq!(target.link(), "b");
    target.persist(&mut library, 0, 60, true);
    let m = get_entry(&library, movie).unwrap();
    assert_eq!((m.resume_position, m.duration, m.finished), (5, 50, false));
    let e = get_episode(&library, ep).unwrap();
    assert_eq!((e.resume_position, e.duration, e.finished), (0, 60, true));
}
