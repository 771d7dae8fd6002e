use dagger::opstream::{resolve_copy_conflict, ConflictRequest, ConflictResponse, CopyStreamState,
    DuplicateStrategy, ResolveCopyPayload};

fn request(id: u64) -> ConflictRequest {
    ConflictRequest {
        request_id: id,
        src: "/src/a.txt".to_string(),
        dest: "/dest/a.txt".to_string(),
        name: "a.txt".to_string(),
    }
}

#[test]
fn fresh_state_is_idle() {
    let s = CopyStreamState::new();
    assert_eq!(s.token.current_id, 0);
    assert!(!s.token.cancelled);
    assert!(s.take_pending_request().is_none());
}

#[test]
fn submission_without_pending_request_is_rejected() {
    let mut s = CopyStreamState::new();
    let resp = ConflictResponse { strategy: DuplicateStrategy::Replace, repeat_for_all: false };
    let err = s.submit_conflict_response(1, resp).unwrap_err();
    assert_eq!(err, "no pending conflict request");
}

#[test]
fn mismatched_request_id_is_rejected() {
    let mut s = CopyStreamState::new();
    s.request_conflict_decision(request(1));
    let resp = ConflictResponse { strategy: DuplicateStrategy::Replace, repeat_for_all: false };
    let err = s.submit_conflict_response(2, resp).unwrap_err();
    assert_eq!(err, "mismatched request id");
    // The pending request is still there, unanswered.
    assert_eq!(s.take_pending_request().unwrap().request_id, 1);
    assert!(s.consume_response(1).is_none());
}

#[test]
fn matched_submission_hands_the_answer_over_once() {
    let mut s = CopyStreamState::new();
    s.request_conflict_decision(request(7));
    assert_eq!(s.take_pending_request().unwrap().name, "a.txt");

    let resp = ConflictResponse { strategy: DuplicateStrategy::Index, repeat_for_all: true };
    s.submit_conflict_response(7, resp).unwrap();

    let got = s.consume_response(7).expect("the executor reads its answer");
    assert_eq!(got.strategy, DuplicateStrategy::Index);
    assert!(got.repeat_for_all);

    // The slot is cleared after the hand-off.
    assert!(s.take_pending_request().is_none());
    assert!(s.consume_response(7).is_none());
}

#[test]
fn executor_revalidates_the_request_id_before_consuming() {
    let mut s = CopyStreamState::new();
    s.request_conflict_decision(request(3));
    let resp = ConflictResponse { strategy: DuplicateStrategy::Ignore, repeat_for_all: false };
    s.submit_conflict_response(3, resp).unwrap();
    // A consumer blocked on a different request must not steal it.
    assert!(s.consume_response(4).is_none());
    assert!(s.consume_response(3).is_some());
}

#[test]
fn a_new_request_clears_a_stale_answer() {
    let mut s = CopyStreamState::new();
    s.request_conflict_decision(request(1));
    let resp = ConflictResponse { strategy: DuplicateStrategy::Replace, repeat_for_all: false };
    s.submit_conflict_response(1, resp).unwrap();
    // The executor posts the next conflict before reading: the old
    // answer must not leak into it.
    s.request_conflict_decision(request(2));
    assert!(s.consume_response(2).is_none());
}

#[test]
fn payload_parsing_accepts_the_three_strategies() {
    for (text, want) in [
        ("Ignore", DuplicateStrategy::Ignore),
        ("Replace", DuplicateStrategy::Replace),
        ("Index", DuplicateStrategy::Index),
    ] {
        let mut s = CopyStreamState::new();
        s.request_conflict_decision(request(5));
        let payload = ResolveCopyPayload {
            request_id: 5,
            strategy: text.to_string(),
            repeat_for_all: false,
        };
        resolve_copy_conflict(&mut s, payload).unwrap();
        assert_eq!(s.consume_response(5).unwrap().strategy, want);
    }
}

#[test]
fn unknown_strategy_name_is_refused() {
    let mut s = CopyStreamState::new();
    s.request_conflict_decision(request(5));
    let payload = ResolveCopyPayload {
        request_id: 5,
        strategy: "Overwrite".to_string(),
        repeat_for_all: false,
    };
    assert!(resolve_copy_conflict(&mut s, payload).is_err());
    // Nothing was submitted.
    assert!(s.consume_response(5).is_none());
}
