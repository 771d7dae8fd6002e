use dagger::cancel::CancelToken;
use dagger::errors::EngineError;
use dagger::home::{home_snapshot, HomeCache};
use dagger::nav::FileItem;
use dagger::stream::{HomeStep, HomeStream};
use dagger::layouts::SortKey;
use dagger::snapshot::EntryMeta;
use dagger::stream::{DirStream, MetaStep};

fn entry(name: &str, is_dir: bool) -> EntryMeta {
    EntryMeta {
        name: name.to_string(),
        path: format!("/d/{}", name),
        is_dir,
        size: if is_dir { None } else { Some(4) },
        filetype: String::new(),
        modified: None,
    }
}

#[test]
fn token_begin_cancel_staleness() {
    let mut t = CancelToken::new();
    t.begin(7);
    assert!(!t.is_stale(7));
    assert!(t.is_stale(6));
    t.cancel();
    assert!(t.is_stale(7));
    t.begin(8);
    assert!(!t.is_stale(8));
    assert!(t.is_stale(7));
}

#[test]
fn phase_one_emits_sorted_then_completes() {
    let mut token = CancelToken::new();
    let snap = vec![entry("b.txt", false), entry("A", true), entry("a.png", false)];
    let mut s = DirStream::new(snap, SortKey::Name, true, 1, &mut token);

    let mut seen: Vec<String> = Vec::new();
    loop {
        match s.next_metadata(&token) {
            Some(MetaStep::Item(e)) => seen.push(e.name),
            Some(MetaStep::PhaseComplete) => break,
            None => panic!("stream went silent before phase completion"),
        }
    }
    assert_eq!(seen, vec!["A", "a.png", "b.txt"]);
    assert!(s.next_metadata(&token).is_none());
    assert!(s.finish(&token));
    assert!(!s.finish(&token));
}

#[test]
fn newer_request_silences_older_stream() {
    // Request 2 supersedes request 1 while 1 is mid-stream: 1 emits
    // nothing after 2 begins.
    let mut token = CancelToken::new();
    let snap = vec![entry("x", false), entry("y", false), entry("z", false)];
    let mut s1 = DirStream::new(snap, SortKey::Name, true, 1, &mut token);
    assert!(matches!(s1.next_metadata(&token), Some(MetaStep::Item(_))));

    let snap2 = vec![entry("q", false)];
    let mut s2 = DirStream::new(snap2, SortKey::Name, true, 2, &mut token);

    assert!(s1.next_metadata(&token).is_none());
    assert!(s1.next_metadata(&token).is_none());
    assert!(!s1.may_emit_thumbnail(&token));
    assert!(!s1.finish(&token));

    assert!(matches!(s2.next_metadata(&token), Some(MetaStep::Item(_))));
}

#[test]
fn cancel_stops_emission_without_completion_event() {
    let mut token = CancelToken::new();
    let snap = vec![entry("x", false), entry("y", false)];
    let mut s = DirStream::new(snap, SortKey::Name, true, 5, &mut token);
    assert!(matches!(s.next_metadata(&token), Some(MetaStep::Item(_))));
    token.cancel();
    assert!(s.next_metadata(&token).is_none());
    assert!(!s.finish(&token));
}

#[test]
fn home_stream_keeps_cache_order_and_cancellation_discipline() {
    let mut cache = HomeCache::new();
    cache.push_recent_file(FileItem {
        name: "old.txt".to_string(),
        path: "/p/old.txt".to_string(),
        is_dir: false,
        size: Some(1),
    });
    cache.push_recent_file(FileItem {
        name: "new.txt".to_string(),
        path: "/p/new.txt".to_string(),
        is_dir: false,
        size: Some(2),
    });

    let mut token = CancelToken::new();
    let mut s = HomeStream::new(home_snapshot(&cache), 4, &mut token);
    // Cache order, newest first — not re-sorted alphabetically.
    match s.next_metadata(&token) {
        Some(HomeStep::Item(e)) => assert_eq!(e.name, "new.txt"),
        _ => panic!("expected the newest cached item first"),
    }
    token.begin(5);
    assert!(s.next_metadata(&token).is_none());
    assert!(!s.finish(&token));
}

#[test]
fn each_family_owns_its_token() {
    // Cancelling the transfer family must not stop an unrelated
    // directory listing.
    let mut listing_token = CancelToken::new();
    listing_token.begin(1);
    let mut transfer = dagger::opstream::CopyStreamState::new();
    transfer.token.begin(1);
    transfer.token.cancel();
    assert!(transfer.token.is_stale(1));
    assert!(!listing_token.is_stale(1));
}

#[test]
fn error_taxonomy_policy() {
    assert!(EngineError::NotFound.aborts_operation());
    assert!(EngineError::NotADirectory.aborts_operation());
    assert!(!EngineError::IoError.aborts_operation());
    assert!(!EngineError::DecodeError.aborts_operation());
    assert!(!EngineError::StaleRequest.aborts_operation());
    assert!(!EngineError::ConflictProtocolError.aborts_operation());
    assert_eq!(EngineError::StaleRequest.message(), "superseded by a newer request");
}

#[test]
fn thumbnail_tasks_follow_phase_one_completion() {
    let mut token = CancelToken::new();
    let snap = vec![entry("b", false), entry("a", false)];
    let mut s = DirStream::new(snap, SortKey::Name, true, 3, &mut token);
    // Phase-2 emission is gated until the phase-1-complete event is out.
    assert!(!s.may_emit_thumbnail(&token));
    loop {
        match s.next_metadata(&token) {
            Some(MetaStep::Item(_)) => {},
            Some(MetaStep::PhaseComplete) => break,
            None => panic!("stream went silent before phase completion"),
        }
    }
    assert!(s.may_emit_thumbnail(&token));
    assert_eq!(s.thumb_task_count(), 2);
    assert_eq!(s.thumb_task_path(0), "/d/a");
    assert_eq!(s.thumb_task_path(1), "/d/b");
}
