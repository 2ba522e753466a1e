use vstd::prelude::*;

use crate::sync::DiskRevision;
use crate::text::{same_text, string_of, strings_view};

verus! {

/// How many times a stable read tries before giving up.
pub const STABLE_READ_RETRIES: usize = 3;

/// How many temporary names an atomic write tries before giving up.
pub const ATOMIC_WRITE_ATTEMPTS: u128 = 10;

/// How many merge sidecar names are tried.
pub const MAX_MERGE_SIDECARS: usize = 100;

/// The kinds of I/O failure that the library tells apart.
#[derive(Clone, Copy, Debug, PartialEq, Eq, Structural)]
pub enum IoErrorKind {
    NotFound,
    AlreadyExists,
    InvalidInput,
    Other,
}

/// A failed I/O operation: its kind and its message.
#[derive(Debug)]
pub struct IoFailure {
    pub kind: IoErrorKind,
    pub message: String,
}

/// What one attempt of a stable read observed: the fingerprint before, the
/// content, and the fingerprint after, or the step that failed.
#[derive(Debug)]
pub enum ReadAttempt {
    StatFailed(IoFailure),
    ReadFailed(IoFailure),
    RestatFailed(IoFailure),
    Read { before: DiskRevision, text: String, after: DiskRevision },
}

/// What a stable read does after an attempt.
#[derive(Debug)]
pub enum StableStep {
    Retry,
    Done(Result<(String, DiskRevision), IoFailure>),
}

/// The progress of a stable read: attempts made and the last I/O error.
#[derive(Debug)]
pub struct StableRead {
    pub attempts: usize,
    pub last_err: Option<IoFailure>,
}

impl StableRead {
    /// A read with no attempt made yet.
    pub fn new() -> (r: StableRead)
        ensures
            r.attempts == 0,
            r.last_err is None,
    {
        StableRead { attempts: 0, last_err: None }
    }

    /// Takes the result of one attempt. Equal fingerprints around the read
    /// give its content; a failure of the first fingerprint ends the read;
    /// a failed read or second fingerprint, or a fingerprint that moved, is
    /// retried until `STABLE_READ_RETRIES` attempts were made. The read then
    /// fails with the last I/O error, or with "file changed while reading"
    /// when every read succeeded but none was stable.
    pub fn step(&mut self, attempt: ReadAttempt) -> (r: StableStep)
        requires
            old(self).attempts < STABLE_READ_RETRIES,
        ensures
            match attempt {
                ReadAttempt::StatFailed(e) => r == StableStep::Done(Err(e)) && *final(self) == *old(self),
                ReadAttempt::Read { before, text, after } if before == after => {
                    r == StableStep::Done(Ok((text, after))) && *final(self) == *old(self)
                },
                _ => {
                    let last = match attempt {
                        ReadAttempt::ReadFailed(e) => Some(e),
                        ReadAttempt::RestatFailed(e) => Some(e),
                        _ => old(self).last_err,
                    };
                    &&& final(self).attempts == old(self).attempts + 1
                    &&& final(self).last_err == last
                    &&& final(self).attempts < STABLE_READ_RETRIES ==> r is Retry
                    &&& final(self).attempts == STABLE_READ_RETRIES ==> match last {
                        Some(e) => r == StableStep::Done(Err(e)),
                        None => r matches StableStep::Done(Err(e)) && e.kind == IoErrorKind::Other
                            && e.message@ == "file changed while reading"@,
                    }
                },
            },
    {
        match attempt {
            ReadAttempt::StatFailed(e) => {
                return StableStep::Done(Err(e));
            },
            ReadAttempt::ReadFailed(e) => {
                self.last_err = Some(e);
            },
            ReadAttempt::RestatFailed(e) => {
                self.last_err = Some(e);
            },
            ReadAttempt::Read { before, text, after } => {
                if before == after {
                    return StableStep::Done(Ok((text, after)));
                }
            },
        }
        self.attempts = self.attempts + 1;
        if self.attempts < STABLE_READ_RETRIES {
            return StableStep::Retry;
        }
        match self.last_err.take() {
            Some(e) => {
                self.last_err = Some(IoFailure { kind: e.kind, message: e.message.clone() });
                StableStep::Done(Err(e))
            },
            None => StableStep::Done(
                Err(IoFailure { kind: IoErrorKind::Other, message: "file changed while reading".to_owned() }),
            ),
        }
    }
}

/// The decimal digit for `d < 10`.
pub open spec fn digit(d: nat) -> char {
    if d == 0 { '0' } else if d == 1 { '1' } else if d == 2 { '2' } else if d == 3 { '3' } else if d == 4 {
        '4'
    } else if d == 5 { '5' } else if d == 6 { '6' } else if d == 7 { '7' } else if d == 8 { '8' } else {
        '9'
    }
}

/// `n` written in decimal, without leading zeros.
pub open spec fn decimal(n: nat) -> Seq<char>
    decreases n,
{
    if n < 10 {
        seq![digit(n)]
    } else {
        decimal(n / 10).push(digit(n % 10))
    }
}

/// The decimal digit for `d < 10`.
fn digit_char(d: u128) -> (c: char)
    requires
        d < 10,
    ensures
        c == digit(d as nat),
{
    if d == 0 { '0' } else if d == 1 { '1' } else if d == 2 { '2' } else if d == 3 { '3' } else if d == 4 {
        '4'
    } else if d == 5 { '5' } else if d == 6 { '6' } else if d == 7 { '7' } else if d == 8 { '8' } else {
        '9'
    }
}

/// `n` written in decimal.
fn decimal_string(n: u128) -> (r: String)
    ensures
        r@ == decimal(n as nat),
{
    let mut m = n;
    let mut tail: Vec<char> = Vec::new();
    while m >= 10
        invariant
            decimal(n as nat) == decimal(m as nat) + tail@,
        decreases m,
    {
        let d = digit_char(m % 10);
        let ghost old_tail = tail@;
        tail.insert(0, d);
        assert(tail@ =~= seq![d] + old_tail);
        assert(decimal(m as nat) == decimal((m / 10) as nat).push(d));
        assert(decimal((m / 10) as nat).push(d) + old_tail =~= decimal((m / 10) as nat) + tail@);
        m = m / 10;
    }
    let d = digit_char(m);
    let ghost old_tail = tail@;
    tail.insert(0, d);
    assert(tail@ =~= seq![d] + old_tail);
    assert(decimal(m as nat) =~= seq![d]);
    string_of(&tail)
}

/// The name of the temporary file an atomic write of `file_name` creates
/// next to it.
pub open spec fn temp_name_spec(file_name: Seq<char>, suffix: u128) -> Seq<char> {
    ".rustdown-tmp-"@ + file_name + "-"@ + decimal(suffix as nat)
}

/// The name under which an atomic write keeps the old file while replacing it.
pub open spec fn backup_name_spec(file_name: Seq<char>, suffix: u128) -> Seq<char> {
    ".rustdown-backup-"@ + file_name + "-"@ + decimal(suffix as nat)
}

/// The suffix of the temporary and backup names for one attempt.
pub fn write_suffix(pid: u32, nanos: u128, attempt: u128) -> (r: u128)
    ensures
        r == (pid as u128) ^ nanos ^ attempt,
{
    (pid as u128) ^ nanos ^ attempt
}

/// The temporary file name for writing `file_name` with `suffix`.
pub fn temp_file_name(file_name: &str, suffix: u128) -> (r: String)
    ensures
        r@ == temp_name_spec(file_name@, suffix),
{
    let mut r = String::new();
    r.append(".rustdown-tmp-");
    r.append(file_name);
    r.append("-");
    r.append(decimal_string(suffix).as_str());
    proof {
        assert(Seq::<char>::empty() + ".rustdown-tmp-"@ == ".rustdown-tmp-"@);
    }
    r
}

/// The backup file name for replacing `file_name` with `suffix`.
pub fn backup_file_name(file_name: &str, suffix: u128) -> (r: String)
    ensures
        r@ == backup_name_spec(file_name@, suffix),
{
    let mut r = String::new();
    r.append(".rustdown-backup-");
    r.append(file_name);
    r.append("-");
    r.append(decimal_string(suffix).as_str());
    proof {
        assert(Seq::<char>::empty() + ".rustdown-backup-"@ == ".rustdown-backup-"@);
    }
    r
}

/// The `n`th merge sidecar name for a file with `stem` and `ext`:
/// `<stem>.merge[-n].<ext>`, the number only from the second on.
pub open spec fn sidecar_name_spec(stem: Seq<char>, ext: Option<Seq<char>>, n: nat) -> Seq<char> {
    let numbered = if n > 1 { stem + ".merge"@ + "-"@ + decimal(n) } else { stem + ".merge"@ };
    match ext {
        Some(e) => numbered + "."@ + e,
        None => numbered,
    }
}

/// The first sidecar name from the `n`th on, up to `MAX_MERGE_SIDECARS`,
/// that is not in `taken`.
pub open spec fn first_free_sidecar(stem: Seq<char>, ext: Option<Seq<char>>, taken: Seq<Seq<char>>, n: nat) -> Option<Seq<char>>
    decreases MAX_MERGE_SIDECARS + 1 - n,
{
    if n > MAX_MERGE_SIDECARS || n == 0 {
        None
    } else if !taken.contains(sidecar_name_spec(stem, ext, n)) {
        Some(sidecar_name_spec(stem, ext, n))
    } else {
        first_free_sidecar(stem, ext, taken, n + 1)
    }
}

/// The view of an optional string slice.
pub open spec fn opt_view(o: Option<&str>) -> Option<Seq<char>> {
    match o {
        Some(s) => Some(s@),
        None => None,
    }
}

/// The `n`th merge sidecar name for a file with `stem` and `ext`.
pub fn merge_sidecar_name(stem: &str, ext: Option<&str>, n: usize) -> (r: String)
    ensures
        r@ == sidecar_name_spec(stem@, opt_view(ext), n as nat),
{
    let mut r = String::new();
    r.append(stem);
    r.append(".merge");
    if n > 1 {
        r.append("-");
        r.append(decimal_string(n as u128).as_str());
    }
    match ext {
        Some(e) => {
            r.append(".");
            r.append(e);
        },
        None => {},
    }
    proof {
        assert(Seq::<char>::empty() + stem@ == stem@);
    }
    r
}

/// Whether `name` is one of `names`.
fn contains_name(names: &Vec<String>, name: &str) -> (r: bool)
    ensures
        r == strings_view(names@).contains(name@),
{
    let mut i: usize = 0;
    while i < names.len()
        invariant
            i <= names.len(),
            forall|k: int| 0 <= k < i ==> names@[k]@ != name@,
        decreases names.len() - i,
    {
        if same_text(names[i].as_str(), name) {
            assert(strings_view(names@)[i as int] == name@);
            return true;
        }
        i = i + 1;
    }
    proof {
        if strings_view(names@).contains(name@) {
            let k = choose|k: int| 0 <= k < strings_view(names@).len() && strings_view(names@)[k] == name@;
            assert(names@[k]@ == name@);
        }
    }
    false
}

/// The first merge sidecar name for a file with `stem` and `ext` that is not
/// among the `taken` names of its directory, or `None` when the first
/// `MAX_MERGE_SIDECARS` are all taken.
pub fn next_merge_sidecar_name(stem: &str, ext: Option<&str>, taken: &Vec<String>) -> (r: Option<String>)
    ensures
        match r {
            Some(name) => first_free_sidecar(stem@, opt_view(ext), strings_view(taken@), 1) == Some(name@),
            None => first_free_sidecar(stem@, opt_view(ext), strings_view(taken@), 1) is None,
        },
{
    let ghost tv = strings_view(taken@);
    let mut n: usize = 1;
    while n <= MAX_MERGE_SIDECARS
        invariant
            1 <= n <= MAX_MERGE_SIDECARS + 1,
            tv == strings_view(taken@),
            first_free_sidecar(stem@, opt_view(ext), tv, n as nat) == first_free_sidecar(stem@, opt_view(ext), tv, 1),
        decreases MAX_MERGE_SIDECARS + 1 - n,
    {
        let name = merge_sidecar_name(stem, ext, n);
        if !contains_name(taken, name.as_str()) {
            return Some(name);
        }
        n = n + 1;
    }
    None
}

/// A sidecar name found among `taken` is never returned: the name chosen is
/// free in the directory state it was chosen for.
pub proof fn lemma_sidecar_is_free(stem: Seq<char>, ext: Option<Seq<char>>, taken: Seq<Seq<char>>, n: nat)
    ensures
        first_free_sidecar(stem, ext, taken, n) matches Some(name) ==> !taken.contains(name),
    decreases MAX_MERGE_SIDECARS + 1 - n,
{
    if n <= MAX_MERGE_SIDECARS && n != 0 && taken.contains(sidecar_name_spec(stem, ext, n)) {
        lemma_sidecar_is_free(stem, ext, taken, n + 1);
    }
}

/// What the file system reported for the last action of an atomic write.
#[derive(Debug)]
pub enum WriteEvent {
    Created,
    CreateFailed(IoFailure),
    Written,
    WriteFailed(IoFailure),
    Renamed,
    RenameFailed { target_exists: bool },
    BackedUp,
    BackupFailed(IoFailure),
    SecondRenameDone,
    SecondRenameFailed(IoFailure),
    /// A best-effort clean-up step (removing or restoring a file) ran;
    /// its outcome does not matter.
    CleanedUp,
}

/// The next file-system step of an atomic write.
#[derive(Debug)]
pub enum WriteAction {
    /// Create this file, new, next to the target.
    CreateTemp(String),
    /// Write all the content to the temporary file and sync it.
    WriteAndSync,
    /// Rename the temporary file over the target.
    RenameTempOverTarget,
    /// Rename the target to this backup name.
    MoveTargetToBackup(String),
    /// Rename the temporary file to the target once more.
    RenameTempOverTargetAgain,
    /// Remove this backup file.
    RemoveBackup(String),
    /// Rename this backup file back to the target.
    RestoreBackup(String),
    /// Remove the temporary file.
    RemoveTemp,
    /// The write is over.
    Done(Result<(), IoFailure>),
}

/// Where an atomic write stands.
#[derive(Clone, Copy, Debug, PartialEq, Eq, Structural)]
pub enum WritePhase {
    Creating,
    Writing,
    Renaming,
    BackingUp,
    SecondRename { backed_up: bool },
    RemovingBackup,
    Restoring,
    RemovingTemp,
    Finished,
}

/// An atomic replacement of one file: a temporary file next to it takes the
/// content and is renamed over it, with a backup of the old file where the
/// platform cannot rename over an existing file.
#[derive(Debug)]
pub struct AtomicWrite {
    pub file_name: String,
    pub pid: u32,
    pub nanos: u128,
    pub attempt: u128,
    pub phase: WritePhase,
    /// The failure to report once the clean-up is over.
    pub failure: Option<IoFailure>,
}

/// The suffix of the names of the `attempt`th try.
pub open spec fn suffix_spec(pid: u32, nanos: u128, attempt: u128) -> u128 {
    (pid as u128) ^ nanos ^ attempt
}

impl AtomicWrite {
    /// Well-formed: the attempt count stays below its bound, and a failure
    /// is held exactly while cleaning up after one.
    pub open spec fn wf(&self) -> bool {
        &&& self.attempt < ATOMIC_WRITE_ATTEMPTS
        &&& (self.failure is Some <==> (self.phase == WritePhase::Restoring || self.phase == WritePhase::RemovingTemp))
    }

    /// The temporary file name of the current attempt.
    pub open spec fn temp_name(&self) -> Seq<char> {
        temp_name_spec(self.file_name@, suffix_spec(self.pid, self.nanos, self.attempt))
    }

    /// The backup file name of the current attempt.
    pub open spec fn backup_name(&self) -> Seq<char> {
        backup_name_spec(self.file_name@, suffix_spec(self.pid, self.nanos, self.attempt))
    }

    /// Whether `ev` answers the action the current phase asked for.
    pub open spec fn accepts_spec(&self, ev: WriteEvent) -> bool {
        match self.phase {
            WritePhase::Creating => ev is Created || ev is CreateFailed,
            WritePhase::Writing => ev is Written || ev is WriteFailed,
            WritePhase::Renaming => ev is Renamed || ev is RenameFailed,
            WritePhase::BackingUp => ev is BackedUp || ev is BackupFailed,
            WritePhase::SecondRename { .. } => ev is SecondRenameDone || ev is SecondRenameFailed,
            WritePhase::RemovingBackup | WritePhase::Restoring | WritePhase::RemovingTemp => ev is CleanedUp,
            WritePhase::Finished => false,
        }
    }

    /// A write of the file named `file_name`, whose temporary names are made
    /// unique by the process id and a time in nanoseconds; it starts by
    /// creating the first temporary file (see [`AtomicWrite::first_action`]).
    pub fn new(file_name: &str, pid: u32, nanos: u128) -> (r: AtomicWrite)
        ensures
            r.wf(),
            r.file_name@ == file_name@,
            r.pid == pid,
            r.nanos == nanos,
            r.attempt == 0,
            r.phase == WritePhase::Creating,
    {
        AtomicWrite { file_name: file_name.to_owned(), pid, nanos, attempt: 0, phase: WritePhase::Creating, failure: None }
    }

    /// The action that starts the write: create the first temporary file.
    pub fn first_action(&self) -> (a: WriteAction)
        ensures
            a matches WriteAction::CreateTemp(n) && n@ == self.temp_name(),
    {
        WriteAction::CreateTemp(temp_file_name(self.file_name.as_str(), write_suffix(self.pid, self.nanos, self.attempt)))
    }

    /// Whether `ev` answers the action the current phase asked for.
    pub fn accepts(&self, ev: &WriteEvent) -> (r: bool)
        ensures
            r == self.accepts_spec(*ev),
    {
        match self.phase {
            WritePhase::Creating => matches!(ev, WriteEvent::Created | WriteEvent::CreateFailed(_)),
            WritePhase::Writing => matches!(ev, WriteEvent::Written | WriteEvent::WriteFailed(_)),
            WritePhase::Renaming => matches!(ev, WriteEvent::Renamed | WriteEvent::RenameFailed { .. }),
            WritePhase::BackingUp => matches!(ev, WriteEvent::BackedUp | WriteEvent::BackupFailed(_)),
            WritePhase::SecondRename { .. } => matches!(ev, WriteEvent::SecondRenameDone | WriteEvent::SecondRenameFailed(_)),
            WritePhase::RemovingBackup | WritePhase::Restoring | WritePhase::RemovingTemp => matches!(ev, WriteEvent::CleanedUp),
            WritePhase::Finished => false,
        }
    }

    /// Takes what the last action gave and returns the next one.
    /// - A temporary name that is taken is followed by the next one, up to
    ///   `ATOMIC_WRITE_ATTEMPTS` names, then the write fails with
    ///   `AlreadyExists`; any other failure to create ends it at once.
    /// - After the content is written and synced, the temporary file is
    ///   renamed over the target. Where that fails and the target exists, the
    ///   target is first moved to a backup; the backup is removed once the
    ///   second rename worked and restored when it failed.
    /// - Once the temporary file exists, every failure removes it before the
    ///   write ends with that failure.
    pub fn step(&mut self, ev: WriteEvent) -> (a: WriteAction)
        requires
            old(self).wf(),
            old(self).accepts_spec(ev),
        ensures
            final(self).wf(),
            final(self).file_name == old(self).file_name,
            final(self).pid == old(self).pid,
            final(self).nanos == old(self).nanos,
            match ev {
                WriteEvent::Created => final(self).phase == WritePhase::Writing && a is WriteAndSync,
                WriteEvent::CreateFailed(e) => if e.kind != IoErrorKind::AlreadyExists {
                    final(self).phase == WritePhase::Finished && a == WriteAction::Done(Err(e))
                } else if old(self).attempt + 1 < ATOMIC_WRITE_ATTEMPTS {
                    &&& final(self).attempt == old(self).attempt + 1
                    &&& final(self).phase == WritePhase::Creating
                    &&& a matches WriteAction::CreateTemp(n) && n@ == final(self).temp_name()
                } else {
                    &&& final(self).phase == WritePhase::Finished
                    &&& a matches WriteAction::Done(Err(f)) && f.kind == IoErrorKind::AlreadyExists
                        && f.message@ == "failed to create a temporary file"@
                },
                WriteEvent::Written => final(self).phase == WritePhase::Renaming && a is RenameTempOverTarget,
                WriteEvent::Renamed => final(self).phase == WritePhase::Finished && a == WriteAction::Done(Ok(())),
                WriteEvent::RenameFailed { target_exists } => if target_exists {
                    &&& final(self).phase == WritePhase::BackingUp
                    &&& a matches WriteAction::MoveTargetToBackup(n) && n@ == old(self).backup_name()
                } else {
                    final(self).phase == (WritePhase::SecondRename { backed_up: false }) && a is RenameTempOverTargetAgain
                },
                WriteEvent::BackedUp => final(self).phase == (WritePhase::SecondRename { backed_up: true })
                    && a is RenameTempOverTargetAgain,
                WriteEvent::SecondRenameDone => if old(self).phase == (WritePhase::SecondRename { backed_up: true }) {
                    &&& final(self).phase == WritePhase::RemovingBackup
                    &&& a matches WriteAction::RemoveBackup(n) && n@ == old(self).backup_name()
                } else {
                    final(self).phase == WritePhase::Finished && a == WriteAction::Done(Ok(()))
                },
                WriteEvent::SecondRenameFailed(e) => if old(self).phase == (WritePhase::SecondRename { backed_up: true }) {
                    &&& final(self).phase == WritePhase::Restoring
                    &&& final(self).failure == Some(e)
                    &&& a matches WriteAction::RestoreBackup(n) && n@ == old(self).backup_name()
                } else {
                    final(self).phase == WritePhase::RemovingTemp && final(self).failure == Some(e) && a is RemoveTemp
                },
                WriteEvent::WriteFailed(e) | WriteEvent::BackupFailed(e) => {
                    final(self).phase == WritePhase::RemovingTemp && final(self).failure == Some(e) && a is RemoveTemp
                },
                WriteEvent::CleanedUp => match old(self).phase {
                    WritePhase::RemovingBackup => final(self).phase == WritePhase::Finished && a == WriteAction::Done(Ok(())),
                    WritePhase::Restoring => {
                        &&& final(self).phase == WritePhase::RemovingTemp
                        &&& final(self).failure == old(self).failure
                        &&& a is RemoveTemp
                    },
                    _ => {
                        &&& final(self).phase == WritePhase::Finished
                        &&& old(self).failure matches Some(e) && a == WriteAction::Done(Err(e))
                    },
                },
            },
            a matches WriteAction::Done(Ok(())) ==> old(self).phase == WritePhase::Renaming
                || old(self).phase == (WritePhase::SecondRename { backed_up: false })
                || old(self).phase == WritePhase::RemovingBackup,
            a matches WriteAction::Done(Err(_)) ==> old(self).phase == WritePhase::Creating
                || old(self).phase == WritePhase::RemovingTemp,
    {
        let phase = self.phase;
        match ev {
            WriteEvent::Created => {
                self.phase = WritePhase::Writing;
                WriteAction::WriteAndSync
            },
            WriteEvent::CreateFailed(e) => {
                if e.kind != IoErrorKind::AlreadyExists {
                    self.phase = WritePhase::Finished;
                    return WriteAction::Done(Err(e));
                }
                if self.attempt + 1 < ATOMIC_WRITE_ATTEMPTS {
                    self.attempt = self.attempt + 1;
                    WriteAction::CreateTemp(
                        temp_file_name(self.file_name.as_str(), write_suffix(self.pid, self.nanos, self.attempt)),
                    )
                } else {
                    self.phase = WritePhase::Finished;
                    WriteAction::Done(
                        Err(IoFailure { kind: IoErrorKind::AlreadyExists, message: "failed to create a temporary file".to_owned() }),
                    )
                }
            },
            WriteEvent::Written => {
                self.phase = WritePhase::Renaming;
                WriteAction::RenameTempOverTarget
            },
            WriteEvent::Renamed => {
                self.phase = WritePhase::Finished;
                WriteAction::Done(Ok(()))
            },
            WriteEvent::RenameFailed { target_exists } => {
                if target_exists {
                    self.phase = WritePhase::BackingUp;
                    WriteAction::MoveTargetToBackup(self.backup_file())
                } else {
                    self.phase = WritePhase::SecondRename { backed_up: false };
                    WriteAction::RenameTempOverTargetAgain
                }
            },
            WriteEvent::BackedUp => {
                self.phase = WritePhase::SecondRename { backed_up: true };
                WriteAction::RenameTempOverTargetAgain
            },
            WriteEvent::SecondRenameDone => {
                if phase == (WritePhase::SecondRename { backed_up: true }) {
                    self.phase = WritePhase::RemovingBackup;
                    WriteAction::RemoveBackup(self.backup_file())
                } else {
                    self.phase = WritePhase::Finished;
                    WriteAction::Done(Ok(()))
                }
            },
            WriteEvent::SecondRenameFailed(e) => {
                self.failure = Some(e);
                if phase == (WritePhase::SecondRename { backed_up: true }) {
                    self.phase = WritePhase::Restoring;
                    WriteAction::RestoreBackup(self.backup_file())
                } else {
                    self.phase = WritePhase::RemovingTemp;
                    WriteAction::RemoveTemp
                }
            },
            WriteEvent::WriteFailed(e) => {
                self.failure = Some(e);
                self.phase = WritePhase::RemovingTemp;
                WriteAction::RemoveTemp
            },
            WriteEvent::BackupFailed(e) => {
                self.failure = Some(e);
                self.phase = WritePhase::RemovingTemp;
                WriteAction::RemoveTemp
            },
            WriteEvent::CleanedUp => {
                if phase == WritePhase::RemovingBackup {
                    self.phase = WritePhase::Finished;
                    WriteAction::Done(Ok(()))
                } else if phase == WritePhase::Restoring {
                    self.phase = WritePhase::RemovingTemp;
                    WriteAction::RemoveTemp
                } else {
                    self.phase = WritePhase::Finished;
                    match self.failure.take() {
                        Some(e) => WriteAction::Done(Err(e)),
                        None => WriteAction::Done(Ok(())),
                    }
                }
            },
        }
    }

    /// The backup file name of the current attempt.
    fn backup_file(&self) -> (r: String)
        ensures
            r@ == self.backup_name(),
    {
        backup_file_name(self.file_name.as_str(), write_suffix(self.pid, self.nanos, self.attempt))
    }
}

} // verus!
