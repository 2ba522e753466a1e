use rustdown::disk::{IoErrorKind, IoFailure};
use rustdown::sync::{
    ConflictChoice, DiskReadMessage, DiskReloadOutcome, DiskRevision, Editor, ReloadRequest,
    reload_outcome,
};

fn test_rev(seconds: u64, len: u64) -> DiskRevision {
    DiskRevision { modified_secs: seconds, modified_nanos: 0, len, dev: 0, inode: 0 }
}

fn merge_app(base_text: &str, text: &str, rev_seconds: u64, rev_len: u64, dirty: bool) -> Editor {
    let mut app = Editor::new();
    app.doc.path = Some("note.md".to_owned());
    app.doc.base_text = base_text.to_owned();
    app.doc.text = text.to_owned();
    app.doc.disk_rev = Some(test_rev(rev_seconds, rev_len));
    app.doc.dirty = dirty;
    app
}

struct Case<'a> {
    base: &'a str,
    ours: &'a str,
    dirty: bool,
    disk_text: &'a str,
    initial_disk_rev: (u64, u64),
    incoming_disk_rev: (u64, u64),
    expected_text: &'a str,
    expected_base: &'a str,
    expected_disk_rev: (u64, u64),
    expected_dirty: bool,
    expect_conflict: bool,
}

#[test]
fn incorporate_disk_text_handles_clean_merge_and_conflict_outcomes() {
    for case in [
        Case {
            base: "old",
            ours: "old",
            dirty: false,
            disk_text: "new",
            initial_disk_rev: (1, 3),
            incoming_disk_rev: (2, 3),
            expected_text: "new",
            expected_base: "new",
            expected_disk_rev: (2, 3),
            expected_dirty: false,
            expect_conflict: false,
        },
        Case {
            base: "a\nb\n",
            ours: "a\nB\n",
            dirty: true,
            disk_text: "A\nb\n",
            initial_disk_rev: (1, 4),
            incoming_disk_rev: (2, 4),
            expected_text: "A\nB\n",
            expected_base: "A\nb\n",
            expected_disk_rev: (2, 4),
            expected_dirty: true,
            expect_conflict: false,
        },
        Case {
            base: "a\nb\n",
            ours: "a\nO\n",
            dirty: true,
            disk_text: "a\nT\n",
            initial_disk_rev: (1, 4),
            incoming_disk_rev: (2, 4),
            expected_text: "a\nO\n",
            expected_base: "a\nb\n",
            expected_disk_rev: (1, 4),
            expected_dirty: true,
            expect_conflict: true,
        },
    ] {
        let mut app = merge_app(
            case.base,
            case.ours,
            case.initial_disk_rev.0,
            case.initial_disk_rev.1,
            case.dirty,
        );
        app.incorporate_disk_text(
            case.disk_text.to_owned(),
            test_rev(case.incoming_disk_rev.0, case.incoming_disk_rev.1),
        );
        assert_eq!(app.doc.text.as_str(), case.expected_text);
        assert_eq!(app.doc.base_text.as_str(), case.expected_base);
        assert_eq!(
            app.doc.disk_rev,
            Some(test_rev(case.expected_disk_rev.0, case.expected_disk_rev.1))
        );
        assert_eq!(app.doc.dirty, case.expected_dirty);
        assert_eq!(app.sync.conflict.is_some(), case.expect_conflict);
    }
}

#[test]
fn conflict_choice_open_merge_replaces_buffer_with_conflict_markers() {
    let mut app = merge_app("a\nb\n", "a\nO\n", 1, 4, true);

    app.incorporate_disk_text("a\nT\n".to_owned(), test_rev(2, 4));
    let expected_merge = app.sync.conflict.as_ref().expect("conflict").conflict_marked.clone();

    app.apply_conflict_choice(ConflictChoice::OpenConflictMerge);

    assert_eq!(app.doc.text.as_str(), expected_merge.as_str());
    assert_eq!(app.doc.base_text.as_str(), "a\nT\n");
    assert_eq!(app.doc.disk_rev, Some(test_rev(2, 4)));
    assert!(app.doc.dirty);
    assert!(app.sync.conflict.is_none());
}

#[test]
fn keep_mine_hands_back_the_marked_text_for_the_sidecar() {
    let mut app = merge_app("line1\nline2\nline3\n", "line1\nO2\nline3\n", 1, 18, true);
    app.incorporate_disk_text("line1\nT2\nT3\n".to_owned(), test_rev(2, 15));
    let conflict = app.sync.conflict.as_ref().expect("conflict");
    let expected_sidecar = conflict.conflict_marked.clone();
    let expected_ours_wins = conflict.ours_wins.clone();

    let sidecar = app.apply_conflict_choice(ConflictChoice::KeepMineWriteSidecar);

    assert_eq!(sidecar, Some(expected_sidecar));
    assert_eq!(app.doc.text, expected_ours_wins);
    assert_eq!(app.doc.base_text.as_str(), "line1\nT2\nT3\n");
    assert_eq!(app.doc.disk_rev, Some(test_rev(2, 15)));
    assert!(app.sync.conflict.is_none());
}

#[test]
fn reload_disk_choice_drops_local_edits() {
    let mut app = merge_app("a\nb\n", "a\nO\n", 1, 4, true);
    app.incorporate_disk_text("a\nT\n".to_owned(), test_rev(2, 4));
    let nonce = app.sync.nonce;
    assert_eq!(app.apply_conflict_choice(ConflictChoice::ReloadDisk), None);
    assert_eq!(app.doc.text, "a\nT\n");
    assert_eq!(app.doc.base_text, "a\nT\n");
    assert!(!app.doc.dirty);
    assert_eq!(app.sync.nonce, nonce + 1);
}

#[test]
fn overwrite_choice_waits_for_the_write() {
    let mut app = merge_app("a\nb\n", "a\nO\n", 1, 4, true);
    app.incorporate_disk_text("a\nT\n".to_owned(), test_rev(2, 4));
    assert_eq!(app.apply_conflict_choice(ConflictChoice::OverwriteDisk), None);
    assert!(app.sync.conflict.is_some());
    app.mark_saved(None, Some(test_rev(3, 4)));
    assert!(app.sync.conflict.is_none());
    assert_eq!(app.doc.base_text, "a\nO\n");
    assert!(!app.doc.dirty);
    assert_eq!(app.doc.disk_rev, Some(test_rev(3, 4)));
}

fn message(app: &Editor, req: &ReloadRequest, outcome: Result<DiskReloadOutcome, String>) -> DiskReadMessage {
    let _ = app;
    DiskReadMessage { path: req.path.clone(), nonce: req.nonce, edit_seq: req.edit_seq, outcome }
}

#[test]
fn stale_edit_seq_reschedules_instead_of_applying() {
    let mut app = merge_app("a\n", "a\n", 1, 2, false);
    let req = app.start_disk_reload("note.md".to_owned());
    assert!(app.sync.in_flight);
    app.bump_edit_seq();
    let text_before = app.doc.text.clone();
    let msg = message(
        &app,
        &req,
        Ok(DiskReloadOutcome::Replace { disk_text: "z\n".to_owned(), disk_rev: test_rev(5, 2) }),
    );
    app.handle_disk_read_message(msg, 1_000);
    assert_eq!(app.doc.text, text_before);
    assert!(!app.sync.in_flight);
    assert_eq!(app.sync.pending_reload_at, Some(1_075));
}

#[test]
fn old_nonce_is_ignored() {
    let mut app = merge_app("a\n", "a\n", 1, 2, false);
    let req = app.start_disk_reload("note.md".to_owned());
    let _newer = app.start_disk_reload("note.md".to_owned());
    let msg = message(
        &app,
        &req,
        Ok(DiskReloadOutcome::Replace { disk_text: "z\n".to_owned(), disk_rev: test_rev(5, 2) }),
    );
    app.handle_disk_read_message(msg, 10);
    assert_eq!(app.doc.text, "a\n");
    assert!(app.sync.in_flight);
}

#[test]
fn current_reload_replaces_clean_document() {
    let mut app = merge_app("a\n", "a\n", 1, 2, false);
    let req = app.start_disk_reload("note.md".to_owned());
    let outcome = reload_outcome(&req, "z\n".to_owned(), test_rev(5, 2));
    app.handle_disk_read_message(message(&app, &req, Ok(outcome)), 10);
    assert_eq!(app.doc.text, "z\n");
    assert_eq!(app.doc.base_text, "z\n");
    assert_eq!(app.doc.disk_rev, Some(test_rev(5, 2)));
    assert!(!app.sync.in_flight);
}

#[test]
fn reload_of_dirty_document_merges() {
    let mut app = merge_app("a\nb\n", "a\nB\n", 1, 4, true);
    let req = app.start_disk_reload("note.md".to_owned());
    let outcome = reload_outcome(&req, "A\nb\n".to_owned(), test_rev(2, 4));
    app.handle_disk_read_message(message(&app, &req, Ok(outcome)), 10);
    assert_eq!(app.doc.text, "A\nB\n");
    assert_eq!(app.doc.base_text, "A\nb\n");
    assert!(app.doc.dirty);
}

#[test]
fn failed_reload_reports_error() {
    let mut app = merge_app("a\n", "a\n", 1, 2, false);
    let req = app.start_disk_reload("note.md".to_owned());
    app.handle_disk_read_message(message(&app, &req, Err("boom".to_owned())), 10);
    assert_eq!(app.error.as_deref(), Some("Reload failed: boom"));
}

#[test]
fn debounced_reloads_coalesce_to_earliest() {
    let mut app = merge_app("a\n", "a\n", 1, 2, false);
    app.schedule_disk_reload(100);
    app.schedule_disk_reload(50);
    assert_eq!(app.sync.pending_reload_at, Some(125));
    app.schedule_disk_reload(200);
    assert_eq!(app.sync.pending_reload_at, Some(125));
}

#[test]
fn tick_polls_and_starts_due_reload() {
    let mut app = merge_app("a\n", "a\n", 1, 2, false);
    assert!(app.poll_due(0));
    let r = app.tick_disk_sync(0, false, Some(Ok(test_rev(9, 2))));
    assert!(r.is_none());
    assert_eq!(app.sync.poll_at, Some(250));
    assert_eq!(app.sync.pending_reload_at, Some(75));
    assert!(!app.poll_due(100));
    let r = app.tick_disk_sync(100, false, None);
    let req = r.expect("reload should start");
    assert_eq!(req.path, "note.md");
    assert!(app.sync.in_flight);
    assert_eq!(app.sync.pending_reload_at, None);
}

#[test]
fn tick_does_nothing_while_conflicted() {
    let mut app = merge_app("a\nb\n", "a\nO\n", 1, 4, true);
    app.incorporate_disk_text("a\nT\n".to_owned(), test_rev(2, 4));
    let r = app.tick_disk_sync(0, true, Some(Ok(test_rev(3, 3))));
    assert!(r.is_none());
    assert_eq!(app.sync.pending_reload_at, None);
}

#[test]
fn tick_without_path_resets() {
    let mut app = Editor::new();
    app.sync.pending_reload_at = Some(5);
    app.sync.in_flight = true;
    assert!(app.tick_disk_sync(10, true, None).is_none());
    assert_eq!(app.sync.pending_reload_at, None);
    assert!(!app.sync.in_flight);
    assert_eq!(app.sync.nonce, 1);
}

#[test]
fn open_path_missing_file_starts_new_document() {
    let mut app = merge_app("existing text", "existing text", 1, 13, true);
    app.error = Some("old error".to_owned());
    app.open_path(
        "new.md".to_owned(),
        Err(IoFailure { kind: IoErrorKind::NotFound, message: "gone".to_owned() }),
    );
    assert_eq!(app.doc.path.as_deref(), Some("new.md"));
    assert_eq!(app.doc.text, "");
    assert_eq!(app.doc.base_text, "");
    assert_eq!(app.doc.disk_rev, None);
    assert!(!app.doc.dirty);
    assert!(app.error.is_none());
}

#[test]
fn open_failure_keeps_document() {
    let mut app = merge_app("t", "t", 1, 1, false);
    app.open_path(
        "x.md".to_owned(),
        Err(IoFailure { kind: IoErrorKind::Other, message: "denied".to_owned() }),
    );
    assert_eq!(app.doc.path.as_deref(), Some("note.md"));
    assert_eq!(app.error.as_deref(), Some("Open failed: denied"));
}

#[test]
fn next_wake_prefers_earliest() {
    let mut app = Editor::new();
    app.sync.pending_reload_at = Some(300);
    app.sync.poll_at = Some(200);
    assert_eq!(app.next_wake(), Some(200));
    app.sync.watching = true;
    assert_eq!(app.next_wake(), Some(300));
}

#[test]
fn pre_save_reconciliation_aborts_on_conflict() {
    let mut app = merge_app("a\nb\n", "a\nO\n", 1, 4, true);
    let ok = app.reconcile_before_save(true, Some(Ok(("a\nT\n".to_owned(), test_rev(2, 4)))));
    assert!(!ok);
    assert!(app.sync.conflict.is_some());
    assert_eq!(app.doc.text, "a\nO\n");
}

#[test]
fn pre_save_reconciliation_merges_clean_changes() {
    let mut app = merge_app("a\nb\n", "a\nB\n", 1, 4, true);
    let ok = app.reconcile_before_save(true, Some(Ok(("A\nb\n".to_owned(), test_rev(2, 4)))));
    assert!(ok);
    assert_eq!(app.doc.text, "A\nB\n");
    let missing = IoFailure { kind: IoErrorKind::NotFound, message: "gone".to_owned() };
    assert!(app.reconcile_before_save(true, Some(Err(missing))));
    assert!(app.error.is_none());
    let denied = IoFailure { kind: IoErrorKind::Other, message: "denied".to_owned() };
    assert!(app.reconcile_before_save(true, Some(Err(denied))));
    assert_eq!(app.error.as_deref(), Some("Pre-save reload failed: denied"));
}

#[test]
fn watch_failure_keeps_first_error_and_falls_back_to_polling() {
    let mut app = merge_app("a\n", "a\n", 1, 2, false);
    app.watch_started();
    assert!(app.sync.watching);
    assert!(!app.poll_due(0));
    app.watch_failed(Some("Watch error: gone".to_owned()));
    assert!(!app.sync.watching);
    assert!(app.poll_due(0));
    assert_eq!(app.error.as_deref(), Some("Watch error: gone"));
    app.watch_failed(Some("second".to_owned()));
    assert_eq!(app.error.as_deref(), Some("Watch error: gone"));
}

#[test]
fn format_document_counts_as_an_edit() {
    let mut app = merge_app("a  b \n", "a  b \n", 1, 6, false);
    let seq = app.doc.edit_seq;
    app.format_document(rustdown::format::FormatOptions::default(), 42);
    assert_eq!(app.doc.text, "a  b\n");
    assert!(app.doc.dirty);
    assert_eq!(app.doc.edit_seq, seq + 1);
    assert_eq!(app.doc.last_edit_at, Some(42));
    app.format_document(rustdown::format::FormatOptions::default(), 50);
    assert_eq!(app.doc.edit_seq, seq + 1);
}
