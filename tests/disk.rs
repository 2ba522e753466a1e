use rustdown::disk::{
    backup_file_name, merge_sidecar_name, next_merge_sidecar_name, temp_file_name, write_suffix,
    AtomicWrite, IoErrorKind, IoFailure, ReadAttempt, StableRead, StableStep, WriteAction,
    WriteEvent,
};
use rustdown::sync::DiskRevision;

fn rev(len: u64) -> DiskRevision {
    DiskRevision { modified_secs: 1, modified_nanos: 0, len, dev: 0, inode: 0 }
}

fn unstable() -> ReadAttempt {
    ReadAttempt::Read { before: rev(1), text: "x".to_owned(), after: rev(2) }
}

#[test]
fn stable_read_returns_content_when_fingerprints_match() {
    let mut r = StableRead::new();
    match r.step(ReadAttempt::Read { before: rev(7), text: "content".to_owned(), after: rev(7) }) {
        StableStep::Done(Ok((text, got))) => {
            assert_eq!(text, "content");
            assert_eq!(got.len, 7);
        }
        other => panic!("unexpected {other:?}"),
    }
}

#[test]
fn stable_read_gives_up_after_three_unstable_attempts() {
    let mut r = StableRead::new();
    assert!(matches!(r.step(unstable()), StableStep::Retry));
    assert!(matches!(r.step(unstable()), StableStep::Retry));
    match r.step(unstable()) {
        StableStep::Done(Err(e)) => {
            assert_eq!(e.kind, IoErrorKind::Other);
            assert_eq!(e.message, "file changed while reading");
        }
        other => panic!("unexpected {other:?}"),
    }
}

#[test]
fn stable_read_reports_last_io_error() {
    let mut r = StableRead::new();
    let fail = |m: &str| IoFailure { kind: IoErrorKind::Other, message: m.to_owned() };
    assert!(matches!(r.step(ReadAttempt::ReadFailed(fail("first"))), StableStep::Retry));
    assert!(matches!(r.step(unstable()), StableStep::Retry));
    match r.step(ReadAttempt::RestatFailed(fail("last"))) {
        StableStep::Done(Err(e)) => assert_eq!(e.message, "last"),
        other => panic!("unexpected {other:?}"),
    }
}

#[test]
fn stable_read_stops_on_first_stat_failure() {
    let mut r = StableRead::new();
    let e = IoFailure { kind: IoErrorKind::NotFound, message: "missing".to_owned() };
    match r.step(ReadAttempt::StatFailed(e)) {
        StableStep::Done(Err(e)) => assert_eq!(e.kind, IoErrorKind::NotFound),
        other => panic!("unexpected {other:?}"),
    }
}

#[test]
fn sidecar_name_first_candidate() {
    let name = next_merge_sidecar_name("notes", Some("md"), &vec![]);
    assert_eq!(name.as_deref(), Some("notes.merge.md"));
}

#[test]
fn sidecar_name_skips_taken() {
    let taken = vec!["notes.md".to_owned(), "notes.merge.md".to_owned()];
    let name = next_merge_sidecar_name("notes", Some("md"), &taken);
    assert_eq!(name.as_deref(), Some("notes.merge-2.md"));
}

#[test]
fn sidecar_name_without_extension() {
    let name = next_merge_sidecar_name("README", None, &vec![]);
    assert_eq!(name.as_deref(), Some("README.merge"));
}

#[test]
fn sidecar_names_run_out_after_a_hundred() {
    let taken: Vec<String> = (1..=100).map(|n| merge_sidecar_name("a", Some("md"), n)).collect();
    assert_eq!(taken[99], "a.merge-100.md");
    assert_eq!(next_merge_sidecar_name("a", Some("md"), &taken), None);
    let fewer = taken[..99].to_vec();
    assert_eq!(
        next_merge_sidecar_name("a", Some("md"), &fewer).as_deref(),
        Some("a.merge-100.md")
    );
}

#[test]
fn temp_and_backup_names() {
    assert_eq!(temp_file_name("test.md", 42), ".rustdown-tmp-test.md-42");
    assert_eq!(backup_file_name("test.md", 0), ".rustdown-backup-test.md-0");
    assert_eq!(write_suffix(5, 3, 1), 7);
}

fn other(m: &str) -> IoFailure {
    IoFailure { kind: IoErrorKind::Other, message: m.to_owned() }
}

#[test]
fn atomic_write_direct_rename() {
    let mut w = AtomicWrite::new("test.md", 5, 3);
    match w.first_action() {
        WriteAction::CreateTemp(n) => assert_eq!(n, ".rustdown-tmp-test.md-6"),
        a => panic!("unexpected {a:?}"),
    }
    assert!(matches!(w.step(WriteEvent::Created), WriteAction::WriteAndSync));
    assert!(matches!(w.step(WriteEvent::Written), WriteAction::RenameTempOverTarget));
    assert!(matches!(w.step(WriteEvent::Renamed), WriteAction::Done(Ok(()))));
    assert!(!w.accepts(&WriteEvent::Renamed));
}

#[test]
fn atomic_write_retries_taken_names_then_gives_up() {
    let mut w = AtomicWrite::new("a", 0, 0);
    let taken = || IoFailure { kind: IoErrorKind::AlreadyExists, message: "exists".to_owned() };
    for attempt in 1..10u128 {
        match w.step(WriteEvent::CreateFailed(taken())) {
            WriteAction::CreateTemp(n) => assert_eq!(n, format!(".rustdown-tmp-a-{attempt}")),
            a => panic!("unexpected {a:?}"),
        }
    }
    match w.step(WriteEvent::CreateFailed(taken())) {
        WriteAction::Done(Err(e)) => {
            assert_eq!(e.kind, IoErrorKind::AlreadyExists);
            assert_eq!(e.message, "failed to create a temporary file");
        }
        a => panic!("unexpected {a:?}"),
    }
}

#[test]
fn atomic_write_other_create_failure_ends_at_once() {
    let mut w = AtomicWrite::new("a", 0, 0);
    match w.step(WriteEvent::CreateFailed(other("denied"))) {
        WriteAction::Done(Err(e)) => assert_eq!(e.message, "denied"),
        a => panic!("unexpected {a:?}"),
    }
}

#[test]
fn atomic_write_backup_path_removes_backup() {
    let mut w = AtomicWrite::new("n.md", 0, 7);
    w.step(WriteEvent::Created);
    w.step(WriteEvent::Written);
    match w.step(WriteEvent::RenameFailed { target_exists: true }) {
        WriteAction::MoveTargetToBackup(n) => assert_eq!(n, ".rustdown-backup-n.md-7"),
        a => panic!("unexpected {a:?}"),
    }
    assert!(matches!(w.step(WriteEvent::BackedUp), WriteAction::RenameTempOverTargetAgain));
    match w.step(WriteEvent::SecondRenameDone) {
        WriteAction::RemoveBackup(n) => assert_eq!(n, ".rustdown-backup-n.md-7"),
        a => panic!("unexpected {a:?}"),
    }
    assert!(matches!(w.step(WriteEvent::CleanedUp), WriteAction::Done(Ok(()))));
}

#[test]
fn atomic_write_failed_second_rename_restores_and_cleans_up() {
    let mut w = AtomicWrite::new("n.md", 0, 0);
    w.step(WriteEvent::Created);
    w.step(WriteEvent::Written);
    w.step(WriteEvent::RenameFailed { target_exists: true });
    w.step(WriteEvent::BackedUp);
    assert!(matches!(w.step(WriteEvent::SecondRenameFailed(other("busy"))), WriteAction::RestoreBackup(_)));
    assert!(matches!(w.step(WriteEvent::CleanedUp), WriteAction::RemoveTemp));
    match w.step(WriteEvent::CleanedUp) {
        WriteAction::Done(Err(e)) => assert_eq!(e.message, "busy"),
        a => panic!("unexpected {a:?}"),
    }
}

#[test]
fn atomic_write_failures_remove_temp() {
    let mut w = AtomicWrite::new("n.md", 0, 0);
    w.step(WriteEvent::Created);
    assert!(matches!(w.step(WriteEvent::WriteFailed(other("full"))), WriteAction::RemoveTemp));
    assert!(matches!(w.step(WriteEvent::CleanedUp), WriteAction::Done(Err(_))));

    let mut w = AtomicWrite::new("n.md", 0, 0);
    w.step(WriteEvent::Created);
    w.step(WriteEvent::Written);
    assert!(matches!(w.step(WriteEvent::RenameFailed { target_exists: false }), WriteAction::RenameTempOverTargetAgain));
    assert!(matches!(w.step(WriteEvent::SecondRenameDone), WriteAction::Done(Ok(()))));

    let mut w = AtomicWrite::new("n.md", 0, 0);
    w.step(WriteEvent::Created);
    w.step(WriteEvent::Written);
    w.step(WriteEvent::RenameFailed { target_exists: true });
    assert!(matches!(w.step(WriteEvent::BackupFailed(other("ro"))), WriteAction::RemoveTemp));
    match w.step(WriteEvent::CleanedUp) {
        WriteAction::Done(Err(e)) => assert_eq!(e.message, "ro"),
        a => panic!("unexpected {a:?}"),
    }
}
