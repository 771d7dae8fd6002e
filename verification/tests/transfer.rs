use dagger::cancel::CancelToken;
use dagger::executor::{copy_file_model, execute_plan_on, move_file_model, next_free_name,
    transfer_op_of, indexed_name, TransferEvent, TransferOp};
use dagger::fsmodel::FsModel;
use dagger::opstream::{ClipboardOp, ConflictResponse, CopyStreamState, DuplicateStrategy};
use dagger::planner::{plan_transfer, SourceListing, WalkedFile};
use dagger::strutil::split_stem_ext;

fn file(path: &str, size: u64) -> SourceListing {
    SourceListing::File { path: path.to_string(), size }
}

#[test]
fn plan_total_is_sum_of_flat_files() {
    let token = CancelToken::new();
    let sources = vec![file("/s/a.txt", 10), file("/s/b.bin", 32), file("/s/c", 0)];
    let plan = plan_transfer(&sources, &token, 0);
    assert!(!plan.cancelled);
    assert_eq!(plan.total_bytes, 42);
    assert_eq!(plan.entries.len(), 3);
    assert_eq!(plan.entries[0].rel, "a.txt");
    assert_eq!(plan.entries[1].rel, "b.bin");
}

#[test]
fn plan_total_is_sum_over_directory_tree() {
    let token = CancelToken::new();
    let sources = vec![
        file("/s/top.txt", 5),
        SourceListing::Dir {
            path: "/s/photos".to_string(),
            files: vec![
                WalkedFile { path: "/s/photos/a.png".to_string(), size: 100 },
                WalkedFile { path: "/s/photos/trip/b.png".to_string(), size: 200 },
            ],
        },
    ];
    let plan = plan_transfer(&sources, &token, 0);
    assert!(!plan.cancelled);
    assert_eq!(plan.total_bytes, 305);
    assert_eq!(plan.entries.len(), 3);
    // The directory's own name prefixes every contained file.
    assert_eq!(plan.entries[1].rel, "photos/a.png");
    assert_eq!(plan.entries[2].rel, "photos/trip/b.png");
}

#[test]
fn plan_total_saturates_at_the_machine_limit() {
    let token = CancelToken::new();
    let sources = vec![file("/s/huge1", u64::MAX - 5), file("/s/huge2", 100)];
    let plan = plan_transfer(&sources, &token, 0);
    assert!(!plan.cancelled);
    assert_eq!(plan.total_bytes, u64::MAX);
    let exact = plan_transfer(&vec![file("/s/huge", u64::MAX - 5), file("/s/five", 5)], &token, 0);
    assert_eq!(exact.total_bytes, u64::MAX);
}

#[test]
fn stale_request_yields_cancelled_empty_plan() {
    let mut token = CancelToken::new();
    token.begin(2);
    let sources = vec![file("/s/a", 10)];
    let plan = plan_transfer(&sources, &token, 1);
    assert!(plan.cancelled);
    assert_eq!(plan.entries.len(), 0);
    assert_eq!(plan.total_bytes, 0);
}

#[test]
fn index_strategy_numbering() {
    // With "report.txt" taken, the resolved name is "report (1).txt";
    // with that also taken, "report (2).txt".
    let taken1 = vec!["report.txt".to_string()];
    assert_eq!(next_free_name("report.txt", &taken1), "report (1).txt");
    let taken2 = vec!["report.txt".to_string(), "report (1).txt".to_string()];
    assert_eq!(next_free_name("report.txt", &taken2), "report (2).txt");
    let taken3 = vec![
        "report.txt".to_string(),
        "report (1).txt".to_string(),
        "report (2).txt".to_string(),
    ];
    assert_eq!(next_free_name("report.txt", &taken3), "report (3).txt");
}

#[test]
fn index_strategy_without_extension_and_with_path() {
    let taken = vec!["/d/notes".to_string()];
    assert_eq!(next_free_name("/d/notes", &taken), "/d/notes (1)");
    let taken = vec!["/d.old/a.tar.gz".to_string()];
    assert_eq!(next_free_name("/d.old/a.tar.gz", &taken), "/d.old/a.tar (1).gz");
}

#[test]
fn stem_and_extension_split() {
    let (s, e) = split_stem_ext("report.txt");
    assert_eq!((s.as_str(), e.as_str()), ("report", ".txt"));
    let (s, e) = split_stem_ext("archive.tar.gz");
    assert_eq!((s.as_str(), e.as_str()), ("archive.tar", ".gz"));
    let (s, e) = split_stem_ext(".bashrc");
    assert_eq!((s.as_str(), e.as_str()), (".bashrc", ""));
    let (s, e) = split_stem_ext("/dir.d/plain");
    assert_eq!((s.as_str(), e.as_str()), ("/dir.d/plain", ""));
    assert_eq!(indexed_name("report", 4, ".txt"), "report (4).txt");
}

#[test]
fn move_fallback_still_moves() {
    // A failed atomic rename falls back to copy-then-delete: the source
    // is removed and the destination holds the bytes.
    let mut fs = FsModel::empty();
    fs.write_file("/src/a.bin", vec![7u8; 10]);
    let moved = move_file_model(&mut fs, "/src/a.bin", "/dst/a.bin", false);
    assert_eq!(moved, Some(10));
    assert!(!fs.exists_file("/src/a.bin"));
    assert_eq!(fs.read_file("/dst/a.bin").unwrap().len(), 10);
}

#[test]
fn working_rename_reports_zero_copied_bytes() {
    let mut fs = FsModel::empty();
    fs.write_file("/src/a.bin", vec![7u8; 10]);
    let moved = move_file_model(&mut fs, "/src/a.bin", "/dst/a.bin", true);
    assert_eq!(moved, Some(0));
    assert!(!fs.exists_file("/src/a.bin"));
    assert_eq!(fs.read_file("/dst/a.bin").unwrap(), vec![7u8; 10]);
}

#[test]
fn copy_leaves_source_in_place() {
    let mut fs = FsModel::empty();
    fs.write_file("/src/a", vec![1u8, 2]);
    assert_eq!(copy_file_model(&mut fs, "/src/a", "/dst/a"), Some(2));
    assert!(fs.exists_file("/src/a"));
    assert_eq!(fs.read_file("/dst/a").unwrap(), vec![1u8, 2]);
    assert_eq!(copy_file_model(&mut fs, "/src/missing", "/dst/b"), None);
}

fn count_conflicts(events: &Vec<TransferEvent>) -> usize {
    events.iter().filter(|e| matches!(e, TransferEvent::Conflict { .. })).count()
}

#[test]
fn paste_with_replace_for_all_asks_once() {
    // Two files pasted where both names already exist; the first prompt
    // is answered Replace with repeat-for-all: both files end up copied,
    // the pre-existing contents overwritten, and no second conflict
    // event is emitted.
    let mut fs = FsModel::empty();
    fs.write_file("/src/a.txt", vec![1u8; 3]);
    fs.write_file("/src/b.txt", vec![2u8; 5]);
    fs.write_file("/dest/a.txt", vec![9u8; 1]);
    fs.write_file("/dest/b.txt", vec![9u8; 1]);

    let token = CancelToken::new();
    let sources = vec![file("/src/a.txt", 3), file("/src/b.txt", 5)];
    let plan = plan_transfer(&sources, &token, 0);

    let mut state = CopyStreamState::new();
    let responses = vec![ConflictResponse { strategy: DuplicateStrategy::Replace, repeat_for_all: true }];
    let events = execute_plan_on(&mut fs, "/dest", &plan, TransferOp::Copy, &mut state, &responses, 0, true);

    assert_eq!(count_conflicts(&events), 1);
    assert_eq!(fs.read_file("/dest/a.txt").unwrap(), vec![1u8; 3]);
    assert_eq!(fs.read_file("/dest/b.txt").unwrap(), vec![2u8; 5]);
    assert!(matches!(events.last().unwrap(),
        TransferEvent::Complete { files_processed: 2, .. }));
}

#[test]
fn paste_with_ignore_skips_the_entry() {
    let mut fs = FsModel::empty();
    fs.write_file("/src/a.txt", vec![1u8; 3]);
    fs.write_file("/dest/a.txt", vec![9u8; 4]);

    let token = CancelToken::new();
    let plan = plan_transfer(&vec![file("/src/a.txt", 3)], &token, 0);
    let mut state = CopyStreamState::new();
    let responses = vec![ConflictResponse { strategy: DuplicateStrategy::Ignore, repeat_for_all: false }];
    let events = execute_plan_on(&mut fs, "/dest", &plan, TransferOp::Copy, &mut state, &responses, 0, true);

    assert_eq!(count_conflicts(&events), 1);
    // The existing file is untouched and no per-file event was emitted.
    assert_eq!(fs.read_file("/dest/a.txt").unwrap(), vec![9u8; 4]);
    assert!(!events.iter().any(|e| matches!(e, TransferEvent::FileDone { .. })));
}

#[test]
fn paste_with_index_renames_the_newcomer() {
    let mut fs = FsModel::empty();
    fs.write_file("/src/report.txt", vec![5u8; 2]);
    fs.write_file("/dest/report.txt", vec![9u8; 4]);

    let token = CancelToken::new();
    let plan = plan_transfer(&vec![file("/src/report.txt", 2)], &token, 0);
    let mut state = CopyStreamState::new();
    let responses = vec![ConflictResponse { strategy: DuplicateStrategy::Index, repeat_for_all: false }];
    let events = execute_plan_on(&mut fs, "/dest", &plan, TransferOp::Copy, &mut state, &responses, 0, true);

    assert_eq!(count_conflicts(&events), 1);
    assert_eq!(fs.read_file("/dest/report.txt").unwrap(), vec![9u8; 4]);
    assert_eq!(fs.read_file("/dest/report (1).txt").unwrap(), vec![5u8; 2]);
}

#[test]
fn unanswered_conflict_skips_and_batch_continues() {
    let mut fs = FsModel::empty();
    fs.write_file("/src/a.txt", vec![1u8]);
    fs.write_file("/src/b.txt", vec![2u8]);
    fs.write_file("/dest/a.txt", vec![9u8]);

    let token = CancelToken::new();
    let plan = plan_transfer(&vec![file("/src/a.txt", 1), file("/src/b.txt", 1)], &token, 0);
    let mut state = CopyStreamState::new();
    let events = execute_plan_on(&mut fs, "/dest", &plan, TransferOp::Copy, &mut state, &Vec::new(), 0, true);

    // No answer ever arrives for the conflicting file: it is skipped,
    // yet the second file still lands and the batch completes.
    assert_eq!(fs.read_file("/dest/a.txt").unwrap(), vec![9u8]);
    assert_eq!(fs.read_file("/dest/b.txt").unwrap(), vec![2u8]);
    assert!(matches!(events.last().unwrap(), TransferEvent::Complete { .. }));
}

#[test]
fn stale_executor_emits_only_cancelled() {
    let mut fs = FsModel::empty();
    fs.write_file("/src/a.txt", vec![1u8]);
    let token = CancelToken::new();
    let plan = plan_transfer(&vec![file("/src/a.txt", 1)], &token, 0);

    let mut state = CopyStreamState::new();
    state.token.begin(9);
    let events = execute_plan_on(&mut fs, "/dest", &plan, TransferOp::Copy, &mut state, &Vec::new(), 3, true);
    assert_eq!(events.len(), 1);
    assert!(matches!(events[0], TransferEvent::Cancelled { request_id: 3 }));
    assert!(!fs.exists_file("/dest/a.txt"));
}

#[test]
fn moving_a_batch_removes_sources() {
    let mut fs = FsModel::empty();
    fs.write_file("/src/a.txt", vec![1u8; 8]);
    let token = CancelToken::new();
    let plan = plan_transfer(&vec![file("/src/a.txt", 8)], &token, 0);
    let mut state = CopyStreamState::new();
    let events = execute_plan_on(&mut fs, "/dest", &plan, TransferOp::Move, &mut state, &Vec::new(), 0, false);
    assert!(!fs.exists_file("/src/a.txt"));
    assert_eq!(fs.read_file("/dest/a.txt").unwrap(), vec![1u8; 8]);
    assert!(events.iter().any(|e| matches!(e, TransferEvent::FileDone { bytes: 8, .. })));
}

#[test]
fn clipboard_operation_semantics() {
    assert_eq!(transfer_op_of(ClipboardOp::Copy), Some(TransferOp::Copy));
    assert_eq!(transfer_op_of(ClipboardOp::Link), Some(TransferOp::Copy));
    assert_eq!(transfer_op_of(ClipboardOp::Move), Some(TransferOp::Move));
    assert_eq!(transfer_op_of(ClipboardOp::Unknown), None);
}

#[test]
fn missing_source_reports_error_and_continues() {
    let mut fs = FsModel::empty();
    fs.write_file("/src/b.txt", vec![2u8]);
    let token = CancelToken::new();
    let plan = plan_transfer(&vec![file("/src/gone.txt", 1), file("/src/b.txt", 1)], &token, 0);
    let mut state = CopyStreamState::new();
    let events = execute_plan_on(&mut fs, "/dest", &plan, TransferOp::Copy, &mut state, &Vec::new(), 0, true);
    assert!(events.iter().any(|e| matches!(e, TransferEvent::FileError { .. })));
    assert_eq!(fs.read_file("/dest/b.txt").unwrap(), vec![2u8]);
    assert!(matches!(events.last().unwrap(), TransferEvent::Complete { .. }));
}
