//! Compressed undo/redo history, and the session registry.

use media_core::demux::Demuxer;
use media_core::history::HistoryState;
use media_core::registry::PlaybackRegistry;
use media_core::session::Session;

#[test]
fn history_round_trips_snapshots() {
    let mut h = HistoryState::new();
    h.clear_history(&b"state one".to_vec()).unwrap();
    h.push_history(&b"state two".to_vec()).unwrap();
    h.push_history(&b"state three".to_vec()).unwrap();
    assert_eq!(h.undo.len(), 3);
    // undo pops "three" aside and yields "two"
    assert_eq!(h.read_undo().unwrap(), b"state two");
    assert_eq!(h.undo.len(), 2);
    assert_eq!(h.redo.len(), 1);
    // and then "one"
    assert_eq!(h.read_undo().unwrap(), b"state one");
    // one snapshot left: undoing it leaves nothing beneath to show
    assert_eq!(h.read_undo().unwrap_err(), "no data");
    assert_eq!(h.read_undo().unwrap_err(), "nothing to undo");
}

#[test]
fn snapshots_are_stored_compressed() {
    let mut h = HistoryState::new();
    let big = vec![b'x'; 100_000];
    h.clear_history(&big).unwrap();
    assert!(h.undo[0].len() < big.len());
    assert_eq!(h.push_history(&big).unwrap(), ());
    assert_eq!(h.read_undo().unwrap(), big);
}

#[test]
fn pushing_invalidates_redo() {
    let mut h = HistoryState::new();
    h.clear_history(&b"a".to_vec()).unwrap();
    h.push_history(&b"b".to_vec()).unwrap();
    h.read_undo().unwrap();
    assert_eq!(h.redo.len(), 1);
    h.push_history(&b"c".to_vec()).unwrap();
    assert_eq!(h.redo.len(), 0);
}

#[test]
fn redo_reads_the_newest_undo_snapshot() {
    let mut h = HistoryState::new();
    h.clear_history(&b"one".to_vec()).unwrap();
    h.push_history(&b"two".to_vec()).unwrap();
    assert_eq!(h.read_undo().unwrap(), b"one");
    // the redo stack keeps its snapshot and the newest undo entry is shown
    assert_eq!(h.read_redo().unwrap(), b"one");
    assert_eq!(h.redo.len(), 1);
    let mut empty = HistoryState::new();
    assert_eq!(empty.read_redo().unwrap_err(), "nothing to redo");
}

#[test]
fn registry_issues_and_retires_identifiers() {
    let mut reg = PlaybackRegistry::new();
    let s1 = Session::create(Demuxer::new(Vec::new(), 0, None, None));
    let s2 = Session::create(Demuxer::new(Vec::new(), 0, None, None));
    let id1 = reg.open_media(s1);
    let id2 = reg.open_media(s2);
    assert_eq!(id1, 0);
    assert_eq!(id2, 1);
    assert!(reg.has_session(id1));
    assert!(reg.has_session(id2));
    // closing twice: the second time the identifier is invalid, which is
    // a recoverable condition, not an error
    assert!(reg.close_media(id1));
    assert!(!reg.close_media(id1));
    assert!(!reg.has_session(id1));
    assert!(reg.has_session(id2));
}
