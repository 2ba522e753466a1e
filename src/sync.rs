use vstd::prelude::*;

use crate::merge::{merge_spec, merge_three_way, MergeOutcome, MergeView};
use crate::disk::{IoErrorKind, IoFailure};
use crate::format::{format_markdown, format_spec, FormatOptions};
use crate::text::same_text;

verus! {

/// Delay between a detected change and the reload it schedules, in milliseconds.
pub const DISK_RELOAD_DEBOUNCE_MS: u64 = 75;

/// Interval between fingerprint polls when no watch is active, in milliseconds.
pub const DISK_POLL_INTERVAL_MS: u64 = 250;

/// A cheap fingerprint of a file's state on disk: modification time, length
/// and, where the platform has them, device and inode. Equal fingerprints are
/// taken to mean equal content.
#[derive(Clone, Copy, Debug, PartialEq, Eq, Structural)]
pub struct DiskRevision {
    pub modified_secs: u64,
    pub modified_nanos: u32,
    pub len: u64,
    pub dev: u64,
    pub inode: u64,
}

/// The counter that follows `x`, wrapping at the top.
pub open spec fn next_seq(x: u64) -> u64 {
    if x == u64::MAX {
        0
    } else {
        (x + 1) as u64
    }
}

/// The counter after `x`, wrapping at the top.
pub fn bump(x: u64) -> (r: u64)
    ensures
        r == next_seq(x),
{
    if x == u64::MAX {
        0
    } else {
        x + 1
    }
}

/// The open document: the text as last reconciled with disk (`base_text`),
/// the live text, whether they diverged, and a counter bumped on every
/// change of the live text. Times are milliseconds on a monotonic clock.
#[derive(Debug)]
pub struct Document {
    pub path: Option<String>,
    pub text: String,
    pub base_text: String,
    pub disk_rev: Option<DiskRevision>,
    pub dirty: bool,
    pub last_edit_at: Option<u64>,
    pub edit_seq: u64,
}

/// A change on disk that could not be merged with local edits.
#[derive(Debug)]
pub struct DiskConflict {
    pub disk_text: String,
    pub disk_rev: DiskRevision,
    pub conflict_marked: String,
    pub ours_wins: String,
}

/// The state of disk synchronisation for one open document.
#[derive(Debug)]
pub struct DiskSync {
    pub nonce: u64,
    pub watching: bool,
    pub poll_at: Option<u64>,
    pub pending_reload_at: Option<u64>,
    pub in_flight: bool,
    pub conflict: Option<DiskConflict>,
}

/// A document together with its disk synchronisation and the last error.
#[derive(Debug)]
pub struct Editor {
    pub doc: Document,
    pub sync: DiskSync,
    pub error: Option<String>,
}

/// The ways the user can resolve a conflict.
#[derive(Clone, Copy, Debug, PartialEq, Eq, Structural)]
pub enum ConflictChoice {
    OpenConflictMerge,
    KeepMineWriteSidecar,
    SaveAs,
    ReloadDisk,
    OverwriteDisk,
}

/// What one background reload found.
#[derive(Debug)]
pub enum DiskReloadOutcome {
    Replace { disk_text: String, disk_rev: DiskRevision },
    MergeClean { merged_text: String, disk_text: String, disk_rev: DiskRevision },
    MergeConflict {
        disk_text: String,
        disk_rev: DiskRevision,
        conflict_marked: String,
        ours_wins: String,
    },
}

/// A reload that was started: what to read, and the document as it stood.
#[derive(Debug)]
pub struct ReloadRequest {
    pub path: String,
    pub nonce: u64,
    pub edit_seq: u64,
    pub dirty: bool,
    pub base_text: String,
    pub ours_text: String,
}

/// The answer to a [`ReloadRequest`], tagged with what identified it.
#[derive(Debug)]
pub struct DiskReadMessage {
    pub path: String,
    pub nonce: u64,
    pub edit_seq: u64,
    pub outcome: Result<DiskReloadOutcome, String>,
}

/// The earlier of a pending due time and `due`.
pub open spec fn coalesce(pending: Option<u64>, due: u64) -> Option<u64> {
    match pending {
        Some(p) if p <= due => Some(p),
        _ => Some(due),
    }
}

/// The outcome of reconciling `disk_text` with a request's snapshot: replace
/// when there were no local edits, else merge the snapshot with the disk text.
pub open spec fn reload_outcome_matches(
    dirty: bool,
    base: Seq<char>,
    ours: Seq<char>,
    disk_text: Seq<char>,
    disk_rev: DiskRevision,
    o: DiskReloadOutcome,
) -> bool {
    if !dirty {
        o matches DiskReloadOutcome::Replace { disk_text: t, disk_rev: r } && t@ == disk_text && r == disk_rev
    } else {
        match merge_spec(base, ours, disk_text) {
            MergeView::Clean(m) => o matches DiskReloadOutcome::MergeClean { merged_text, disk_text: t, disk_rev: r }
                && merged_text@ == m && t@ == disk_text && r == disk_rev,
            MergeView::Conflicted { conflict_marked: c, ours_wins: w } => o matches DiskReloadOutcome::MergeConflict {
                disk_text: t,
                disk_rev: r,
                conflict_marked,
                ours_wins,
            } && t@ == disk_text && r == disk_rev && conflict_marked@ == c && ours_wins@ == w,
        }
    }
}

/// Reconciles freshly read disk content with the snapshot of a request; this
/// is the work a reload does once the file was read.
pub fn reload_outcome(req: &ReloadRequest, disk_text: String, disk_rev: DiskRevision) -> (o: DiskReloadOutcome)
    ensures
        reload_outcome_matches(req.dirty, req.base_text@, req.ours_text@, disk_text@, disk_rev, o),
{
    if !req.dirty {
        return DiskReloadOutcome::Replace { disk_text, disk_rev };
    }
    match merge_three_way(req.base_text.as_str(), req.ours_text.as_str(), disk_text.as_str()) {
        MergeOutcome::Clean(merged_text) => DiskReloadOutcome::MergeClean { merged_text, disk_text, disk_rev },
        MergeOutcome::Conflicted { conflict_marked, ours_wins } => DiskReloadOutcome::MergeConflict {
            disk_text,
            disk_rev,
            conflict_marked,
            ours_wins,
        },
    }
}

impl Editor {
    /// A blank, unsaved document with nothing to synchronise.
    pub fn new() -> (r: Editor)
        ensures
            r.doc.path is None,
            r.doc.text@.len() == 0,
            r.doc.base_text@.len() == 0,
            r.doc.disk_rev is None,
            !r.doc.dirty,
            r.doc.last_edit_at is None,
            r.doc.edit_seq == 0,
            r.sync.nonce == 0,
            !r.sync.watching,
            r.sync.poll_at is None,
            r.sync.pending_reload_at is None,
            !r.sync.in_flight,
            r.sync.conflict is None,
            r.error is None,
    {
        Editor {
            doc: Document {
                path: None,
                text: String::new(),
                base_text: String::new(),
                disk_rev: None,
                dirty: false,
                last_edit_at: None,
                edit_seq: 0,
            },
            sync: DiskSync {
                nonce: 0,
                watching: false,
                poll_at: None,
                pending_reload_at: None,
                in_flight: false,
                conflict: None,
            },
            error: None,
        }
    }

    /// Bumps the document's change counter.
    pub fn bump_edit_seq(&mut self)
        ensures
            final(self).doc.edit_seq == next_seq(old(self).doc.edit_seq),
            final(self).doc.path == old(self).doc.path,
            final(self).doc.text == old(self).doc.text,
            final(self).doc.base_text == old(self).doc.base_text,
            final(self).doc.disk_rev == old(self).doc.disk_rev,
            final(self).doc.dirty == old(self).doc.dirty,
            final(self).doc.last_edit_at == old(self).doc.last_edit_at,
            final(self).sync == old(self).sync,
            final(self).error == old(self).error,
    {
        self.doc.edit_seq = bump(self.doc.edit_seq);
    }

    /// Schedules a reload `DISK_RELOAD_DEBOUNCE_MS` after `now`, keeping an
    /// earlier one that is already pending.
    pub fn schedule_disk_reload(&mut self, now: u64)
        requires
            now <= u64::MAX - DISK_RELOAD_DEBOUNCE_MS,
        ensures
            final(self).sync.pending_reload_at == coalesce(old(self).sync.pending_reload_at, (now + DISK_RELOAD_DEBOUNCE_MS) as u64),
            final(self).sync.nonce == old(self).sync.nonce,
            final(self).sync.watching == old(self).sync.watching,
            final(self).sync.poll_at == old(self).sync.poll_at,
            final(self).sync.in_flight == old(self).sync.in_flight,
            final(self).sync.conflict == old(self).sync.conflict,
            final(self).doc == old(self).doc,
            final(self).error == old(self).error,
    {
        let due_at = now + DISK_RELOAD_DEBOUNCE_MS;
        let keep = match self.sync.pending_reload_at {
            Some(existing) => existing <= due_at,
            None => false,
        };
        if !keep {
            self.sync.pending_reload_at = Some(due_at);
        }
    }

    /// Adopts reconciled text: `text` becomes the live text and `base_text`
    /// the base, with the revision they came from; the change counter is
    /// bumped and the error cleared.
    pub fn apply_disk_text_state(
        &mut self,
        text: String,
        base_text: String,
        disk_rev: DiskRevision,
        dirty: bool,
        clear_last_edit: bool,
    )
        ensures
            final(self).doc.text@ == text@,
            final(self).doc.base_text@ == base_text@,
            final(self).doc.disk_rev == Some(disk_rev),
            final(self).doc.dirty == dirty,
            final(self).doc.edit_seq == next_seq(old(self).doc.edit_seq),
            final(self).doc.last_edit_at == (if clear_last_edit { None } else { old(self).doc.last_edit_at }),
            final(self).doc.path == old(self).doc.path,
            final(self).sync == old(self).sync,
            final(self).error is None,
    {
        self.doc.text = text;
        self.doc.base_text = base_text;
        self.doc.disk_rev = Some(disk_rev);
        self.bump_edit_seq();
        self.doc.dirty = dirty;
        if clear_last_edit {
            self.doc.last_edit_at = None;
        }
        self.error = None;
    }

    /// Records a conflict, which stops passive reconciliation until resolved.
    pub fn set_disk_conflict(
        &mut self,
        disk_text: String,
        disk_rev: DiskRevision,
        conflict_marked: String,
        ours_wins: String,
    )
        ensures
            final(self).sync.conflict matches Some(c) && c.disk_text@ == disk_text@ && c.disk_rev == disk_rev
                && c.conflict_marked@ == conflict_marked@ && c.ours_wins@ == ours_wins@,
            final(self).sync.nonce == old(self).sync.nonce,
            final(self).sync.watching == old(self).sync.watching,
            final(self).sync.poll_at == old(self).sync.poll_at,
            final(self).sync.pending_reload_at == old(self).sync.pending_reload_at,
            final(self).sync.in_flight == old(self).sync.in_flight,
            final(self).doc == old(self).doc,
            final(self).error == old(self).error,
    {
        self.sync.conflict = Some(DiskConflict { disk_text, disk_rev, conflict_marked, ours_wins });
    }

    /// Starts a new synchronisation epoch: results of earlier reloads no
    /// longer apply, nothing is pending, the watch is dropped and any
    /// conflict is cleared.
    pub fn reset_disk_sync_state(&mut self)
        ensures
            final(self).sync.nonce == next_seq(old(self).sync.nonce),
            !final(self).sync.watching,
            final(self).sync.poll_at is None,
            final(self).sync.pending_reload_at is None,
            !final(self).sync.in_flight,
            final(self).sync.conflict is None,
            final(self).doc == old(self).doc,
            final(self).error == old(self).error,
    {
        self.sync.nonce = bump(self.sync.nonce);
        self.sync.watching = false;
        self.sync.poll_at = None;
        self.sync.pending_reload_at = None;
        self.sync.in_flight = false;
        self.sync.conflict = None;
    }

    /// Records a change of the live text made at `now`.
    pub fn note_text_changed(&mut self, now: u64)
        ensures
            final(self).doc.dirty,
            final(self).doc.last_edit_at == Some(now),
            final(self).doc.path == old(self).doc.path,
            final(self).doc.text == old(self).doc.text,
            final(self).doc.base_text == old(self).doc.base_text,
            final(self).doc.disk_rev == old(self).doc.disk_rev,
            final(self).doc.edit_seq == old(self).doc.edit_seq,
            final(self).sync == old(self).sync,
            final(self).error == old(self).error,
    {
        self.doc.dirty = true;
        self.doc.last_edit_at = Some(now);
    }

    /// Starts a reload of `path`: issues a new nonce, marks a reload in
    /// flight, and snapshots the change counter and, when there are local
    /// edits, the base and live texts.
    pub fn start_disk_reload(&mut self, path: String) -> (r: ReloadRequest)
        ensures
            final(self).sync.nonce == next_seq(old(self).sync.nonce),
            final(self).sync.in_flight,
            final(self).sync.watching == old(self).sync.watching,
            final(self).sync.poll_at == old(self).sync.poll_at,
            final(self).sync.pending_reload_at == old(self).sync.pending_reload_at,
            final(self).sync.conflict == old(self).sync.conflict,
            final(self).doc == old(self).doc,
            final(self).error == old(self).error,
            r.path@ == path@,
            r.nonce == final(self).sync.nonce,
            r.edit_seq == old(self).doc.edit_seq,
            r.dirty == old(self).doc.dirty,
            r.dirty ==> r.base_text@ == old(self).doc.base_text@ && r.ours_text@ == old(self).doc.text@,
    {
        let dirty = self.doc.dirty;
        let base_text = if dirty { self.doc.base_text.clone() } else { String::new() };
        let ours_text = if dirty { self.doc.text.clone() } else { String::new() };
        self.sync.nonce = bump(self.sync.nonce);
        self.sync.in_flight = true;
        ReloadRequest { path, nonce: self.sync.nonce, edit_seq: self.doc.edit_seq, dirty, base_text, ours_text }
    }

    /// Handles the answer to a reload. An answer to an older nonce, or for
    /// another path than the document's, is ignored. When the document
    /// changed since the snapshot, the answer is dropped and a new reload is
    /// scheduled. Otherwise the outcome is applied: disk text replaces a clean
    /// document, a clean merge becomes the live text over the disk text as
    /// base, and a conflict is recorded.
    pub fn handle_disk_read_message(&mut self, msg: DiskReadMessage, now: u64)
        requires
            now <= u64::MAX - DISK_RELOAD_DEBOUNCE_MS,
        ensures
            ({
                let stale = msg.nonce != old(self).sync.nonce || !(old(self).doc.path matches Some(p) && p@ == msg.path@);
                &&& stale ==> *final(self) == *old(self)
                &&& !stale ==> !final(self).sync.in_flight
                &&& !stale ==> final(self).sync.nonce == old(self).sync.nonce
                &&& !stale ==> final(self).sync.watching == old(self).sync.watching
                &&& !stale ==> final(self).sync.poll_at == old(self).sync.poll_at
                &&& !stale && msg.edit_seq != old(self).doc.edit_seq ==> {
                    &&& final(self).sync.pending_reload_at
                        == coalesce(old(self).sync.pending_reload_at, (now + DISK_RELOAD_DEBOUNCE_MS) as u64)
                    &&& final(self).sync.conflict == old(self).sync.conflict
                    &&& final(self).doc == old(self).doc
                    &&& final(self).error == old(self).error
                }
                &&& !stale && msg.edit_seq == old(self).doc.edit_seq ==> {
                    &&& final(self).sync.pending_reload_at == old(self).sync.pending_reload_at
                    &&& final(self).doc.path == old(self).doc.path
                    &&& match msg.outcome {
                        Ok(DiskReloadOutcome::Replace { disk_text, disk_rev }) => {
                            &&& final(self).doc.text@ == disk_text@
                            &&& final(self).doc.base_text@ == disk_text@
                            &&& final(self).doc.disk_rev == Some(disk_rev)
                            &&& !final(self).doc.dirty
                            &&& final(self).doc.last_edit_at is None
                            &&& final(self).doc.edit_seq == next_seq(old(self).doc.edit_seq)
                            &&& final(self).sync.conflict == old(self).sync.conflict
                            &&& final(self).error is None
                        },
                        Ok(DiskReloadOutcome::MergeClean { merged_text, disk_text, disk_rev }) => {
                            &&& final(self).doc.text@ == merged_text@
                            &&& final(self).doc.base_text@ == disk_text@
                            &&& final(self).doc.disk_rev == Some(disk_rev)
                            &&& final(self).doc.dirty
                            &&& final(self).doc.last_edit_at == old(self).doc.last_edit_at
                            &&& final(self).doc.edit_seq == next_seq(old(self).doc.edit_seq)
                            &&& final(self).sync.conflict == old(self).sync.conflict
                            &&& final(self).error is None
                        },
                        Ok(DiskReloadOutcome::MergeConflict { disk_text, disk_rev, conflict_marked, ours_wins }) => {
                            &&& final(self).doc == old(self).doc
                            &&& final(self).error == old(self).error
                            &&& final(self).sync.conflict matches Some(c) && c.disk_text@ == disk_text@
                                && c.disk_rev == disk_rev && c.conflict_marked@ == conflict_marked@
                                && c.ours_wins@ == ours_wins@
                        },
                        Err(e) => {
                            &&& final(self).doc == old(self).doc
                            &&& final(self).sync.conflict == old(self).sync.conflict
                            &&& final(self).error matches Some(m) && m@ == "Reload failed: "@ + e@
                        },
                    }
                }
            }),
    {
        if msg.nonce != self.sync.nonce {
            return;
        }
        let same_path = match &self.doc.path {
            Some(p) => same_text(p.as_str(), msg.path.as_str()),
            None => false,
        };
        if !same_path {
            return;
        }
        self.sync.in_flight = false;
        if self.doc.edit_seq != msg.edit_seq {
            self.schedule_disk_reload(now);
            return;
        }
        match msg.outcome {
            Ok(DiskReloadOutcome::Replace { disk_text, disk_rev }) => {
                let base = disk_text.clone();
                self.apply_disk_text_state(disk_text, base, disk_rev, false, true);
            },
            Ok(DiskReloadOutcome::MergeClean { merged_text, disk_text, disk_rev }) => {
                self.apply_disk_text_state(merged_text, disk_text, disk_rev, true, false);
            },
            Ok(DiskReloadOutcome::MergeConflict { disk_text, disk_rev, conflict_marked, ours_wins }) => {
                self.set_disk_conflict(disk_text, disk_rev, conflict_marked, ours_wins);
            },
            Err(e) => {
                let mut m = String::new();
                m.append("Reload failed: ");
                m.append(e.as_str());
                proof {
                    assert(Seq::<char>::empty() + "Reload failed: "@ == "Reload failed: "@);
                }
                self.error = Some(m);
            },
        }
    }

    /// A change-notification watch on the document's directory is in place:
    /// fingerprint polling stops.
    pub fn watch_started(&mut self)
        ensures
            final(self).sync.watching,
            final(self).sync.poll_at is None,
            final(self).sync.nonce == old(self).sync.nonce,
            final(self).sync.pending_reload_at == old(self).sync.pending_reload_at,
            final(self).sync.in_flight == old(self).sync.in_flight,
            final(self).sync.conflict == old(self).sync.conflict,
            final(self).doc == old(self).doc,
            final(self).error == old(self).error,
    {
        self.sync.watching = true;
        self.sync.poll_at = None;
    }

    /// The watch could not be set up, reported an error (`message`), or went
    /// away (no message): sync falls back to polling, and the message is
    /// shown unless an error already is.
    pub fn watch_failed(&mut self, message: Option<String>)
        ensures
            !final(self).sync.watching,
            final(self).error == (match old(self).error {
                Some(e) => Some(e),
                None => message,
            }),
            final(self).sync.nonce == old(self).sync.nonce,
            final(self).sync.poll_at == old(self).sync.poll_at,
            final(self).sync.pending_reload_at == old(self).sync.pending_reload_at,
            final(self).sync.in_flight == old(self).sync.in_flight,
            final(self).sync.conflict == old(self).sync.conflict,
            final(self).doc == old(self).doc,
    {
        self.sync.watching = false;
        if self.error.is_none() {
            self.error = message;
        }
    }

    /// Formats the live text with `options` at time `now`; a change counts
    /// as an edit (the counter is bumped and the document made dirty), and
    /// text that formatting leaves as it is stays untouched.
    pub fn format_document(&mut self, options: FormatOptions, now: u64)
        ensures
            ({
                let formatted = format_spec(old(self).doc.text@, options);
                &&& formatted == old(self).doc.text@ ==> *final(self) == *old(self)
                &&& formatted != old(self).doc.text@ ==> {
                    &&& final(self).doc.text@ == formatted
                    &&& final(self).doc.edit_seq == next_seq(old(self).doc.edit_seq)
                    &&& final(self).doc.dirty
                    &&& final(self).doc.last_edit_at == Some(now)
                    &&& final(self).doc.base_text == old(self).doc.base_text
                    &&& final(self).doc.path == old(self).doc.path
                    &&& final(self).doc.disk_rev == old(self).doc.disk_rev
                    &&& final(self).sync == old(self).sync
                    &&& final(self).error == old(self).error
                }
            }),
    {
        let formatted = format_markdown(self.doc.text.as_str(), options);
        if formatted == self.doc.text {
            return;
        }
        self.doc.text = formatted;
        self.bump_edit_seq();
        self.note_text_changed(now);
    }

    /// The background reader went away: no reload is in flight any more.
    pub fn disk_reader_disconnected(&mut self)
        ensures
            !final(self).sync.in_flight,
            final(self).sync.nonce == old(self).sync.nonce,
            final(self).sync.watching == old(self).sync.watching,
            final(self).sync.poll_at == old(self).sync.poll_at,
            final(self).sync.pending_reload_at == old(self).sync.pending_reload_at,
            final(self).sync.conflict == old(self).sync.conflict,
            final(self).doc == old(self).doc,
            final(self).error == old(self).error,
    {
        self.sync.in_flight = false;
    }

    /// Brings freshly read disk content into the document, as before a save:
    /// nothing happens when it is the known revision with the base text;
    /// a clean document takes the disk text; local edits are merged with it,
    /// and a merge that conflicts is recorded as a conflict.
    pub fn incorporate_disk_text(&mut self, disk_text: String, disk_rev: DiskRevision)
        ensures
            incorporated(*old(self), *final(self), disk_text@, disk_rev),
    {
        let same_rev = match self.doc.disk_rev {
            Some(r) => r == disk_rev,
            None => false,
        };
        if same_rev && disk_text == self.doc.base_text {
            return;
        }
        if !self.doc.dirty {
            let base = disk_text.clone();
            self.apply_disk_text_state(disk_text, base, disk_rev, false, true);
            return;
        }
        match merge_three_way(self.doc.base_text.as_str(), self.doc.text.as_str(), disk_text.as_str()) {
            MergeOutcome::Clean(merged) => {
                self.apply_disk_text_state(merged, disk_text, disk_rev, true, false);
            },
            MergeOutcome::Conflicted { conflict_marked, ours_wins } => {
                self.set_disk_conflict(disk_text, disk_rev, conflict_marked, ours_wins);
            },
        }
    }

    /// The check before an explicit save. When saving to the document's own
    /// path with no conflict pending, what a stable read of that path gave
    /// (`read`) is brought in as by [`Editor::incorporate_disk_text`]; a
    /// missing file is fine, and another failure is recorded as
    /// "Pre-save reload failed: ..." unless an error is already shown.
    /// Returns whether the write may go ahead: only with no conflict pending.
    pub fn reconcile_before_save(
        &mut self,
        saving_to_current_path: bool,
        read: Option<Result<(String, DiskRevision), IoFailure>>,
    ) -> (r: bool)
        ensures
            r == final(self).sync.conflict is None,
            !(saving_to_current_path && old(self).sync.conflict is None) ==> *final(self) == *old(self),
            saving_to_current_path && old(self).sync.conflict is None ==> match read {
                Some(Ok((text, rev))) => incorporated(*old(self), *final(self), text@, rev),
                Some(Err(e)) => if e.kind == IoErrorKind::NotFound || old(self).error is Some {
                    *final(self) == *old(self)
                } else {
                    &&& final(self).doc == old(self).doc
                    &&& final(self).sync == old(self).sync
                    &&& final(self).error matches Some(m) && m@ == "Pre-save reload failed: "@ + e.message@
                },
                None => *final(self) == *old(self),
            },
    {
        if saving_to_current_path && self.sync.conflict.is_none() {
            match read {
                Some(Ok((text, rev))) => self.incorporate_disk_text(text, rev),
                Some(Err(e)) => {
                    if e.kind != IoErrorKind::NotFound && self.error.is_none() {
                        let mut m = String::new();
                        m.append("Pre-save reload failed: ");
                        m.append(e.message.as_str());
                        proof {
                            assert(Seq::<char>::empty() + "Pre-save reload failed: "@ == "Pre-save reload failed: "@);
                        }
                        self.error = Some(m);
                    }
                },
                None => {},
            }
        }
        self.sync.conflict.is_none()
    }

    /// Whether a fingerprint poll is due at `now`: only without a watch and
    /// with no reload in flight, once the poll time has come.
    pub fn poll_due(&self, now: u64) -> (r: bool)
        ensures
            r == poll_due_spec(self.sync, now),
    {
        !self.sync.watching && !self.sync.in_flight && match self.sync.poll_at {
            Some(next) => now >= next,
            None => true,
        }
    }

    /// One cycle of disk synchronisation, after reload answers were handled.
    /// While a conflict is pending nothing happens. Without a path all sync
    /// state is reset. Otherwise a watched change schedules a reload; a poll
    /// that was due (see [`Editor::poll_due`]) sets the next poll time and
    /// schedules a reload when the fingerprint differs from the known one, or
    /// records its error; and, with no reload in flight, a due reload is
    /// started and returned.
    pub fn tick_disk_sync(
        &mut self,
        now: u64,
        watch_saw_change: bool,
        polled: Option<Result<DiskRevision, String>>,
    ) -> (r: Option<ReloadRequest>)
        requires
            now <= u64::MAX - DISK_POLL_INTERVAL_MS,
        ensures
            old(self).sync.conflict is Some ==> *final(self) == *old(self) && r is None,
            old(self).sync.conflict is None && old(self).doc.path is None ==> {
                &&& r is None
                &&& final(self).sync.nonce == next_seq(old(self).sync.nonce)
                &&& !final(self).sync.watching
                &&& final(self).sync.poll_at is None
                &&& final(self).sync.pending_reload_at is None
                &&& !final(self).sync.in_flight
                &&& final(self).sync.conflict is None
                &&& final(self).doc == old(self).doc
                &&& final(self).error == old(self).error
            },
            old(self).sync.conflict is None && old(self).doc.path is Some ==> {
                let due = (now + DISK_RELOAD_DEBOUNCE_MS) as u64;
                let p1 = if watch_saw_change { coalesce(old(self).sync.pending_reload_at, due) } else { old(self).sync.pending_reload_at };
                let polling = poll_due_spec(old(self).sync, now) && polled is Some;
                let changed = polling && (polled matches Some(Ok(rev)) && old(self).doc.disk_rev != Some(rev));
                let p2 = if changed { coalesce(p1, due) } else { p1 };
                let start = !old(self).sync.in_flight && (p2 matches Some(d) && now >= d);
                &&& final(self).doc == old(self).doc
                &&& final(self).sync.watching == old(self).sync.watching
                &&& final(self).sync.conflict == old(self).sync.conflict
                &&& final(self).sync.poll_at == if polling {
                    Some((now + DISK_POLL_INTERVAL_MS) as u64)
                } else if old(self).sync.watching || old(self).sync.in_flight {
                    None
                } else {
                    old(self).sync.poll_at
                }
                &&& match polled {
                    Some(Err(e)) if polling && old(self).error is None => final(self).error matches Some(m)
                        && m@ == "Disk check failed: "@ + e@,
                    _ => final(self).error == old(self).error,
                }
                &&& start ==> {
                    &&& final(self).sync.pending_reload_at is None
                    &&& final(self).sync.in_flight
                    &&& final(self).sync.nonce == next_seq(old(self).sync.nonce)
                    &&& r matches Some(req) && old(self).doc.path matches Some(p) && req.path@ == p@
                        && req.nonce == final(self).sync.nonce && req.edit_seq == old(self).doc.edit_seq
                        && req.dirty == old(self).doc.dirty
                        && (req.dirty ==> req.base_text@ == old(self).doc.base_text@ && req.ours_text@ == old(self).doc.text@)
                }
                &&& !start ==> {
                    &&& final(self).sync.pending_reload_at == p2
                    &&& final(self).sync.in_flight == old(self).sync.in_flight
                    &&& final(self).sync.nonce == old(self).sync.nonce
                    &&& r is None
                }
            },
    {
        if self.sync.conflict.is_some() {
            return None;
        }
        let path = match &self.doc.path {
            Some(p) => p.clone(),
            None => {
                self.reset_disk_sync_state();
                return None;
            },
        };
        if watch_saw_change {
            self.schedule_disk_reload(now);
        }
        if self.poll_due(now) && polled.is_some() {
            self.sync.poll_at = Some(now + DISK_POLL_INTERVAL_MS);
            match polled {
                Some(Ok(rev)) => {
                    let known = match self.doc.disk_rev {
                        Some(k) => k == rev,
                        None => false,
                    };
                    if !known {
                        self.schedule_disk_reload(now);
                    }
                },
                Some(Err(e)) => {
                    if self.error.is_none() {
                        let mut m = String::new();
                        m.append("Disk check failed: ");
                        m.append(e.as_str());
                        proof {
                            assert(Seq::<char>::empty() + "Disk check failed: "@ == "Disk check failed: "@);
                        }
                        self.error = Some(m);
                    }
                },
                None => {},
            }
        } else if self.sync.watching || self.sync.in_flight {
            self.sync.poll_at = None;
        }
        if self.sync.in_flight {
            return None;
        }
        let due = match self.sync.pending_reload_at {
            Some(d) => now >= d,
            None => false,
        };
        if due {
            self.sync.pending_reload_at = None;
            let req = self.start_disk_reload(path);
            return Some(req);
        }
        None
    }

    /// When the next cycle should run on its own: the pending reload, or,
    /// without a watch, the earlier of it and the next poll.
    pub fn next_wake(&self) -> (r: Option<u64>)
        ensures
            r == next_wake_spec(self.sync),
    {
        let pending = self.sync.pending_reload_at;
        if self.sync.watching {
            return pending;
        }
        match (pending, self.sync.poll_at) {
            (Some(a), Some(b)) => if a <= b { Some(a) } else { Some(b) },
            (Some(a), None) => Some(a),
            (None, Some(b)) => Some(b),
            (None, None) => None,
        }
    }

    /// Replaces the document by one for `path` holding `text`, as read at
    /// `disk_rev`, with no local edits.
    pub fn load_document(&mut self, path: String, text: String, disk_rev: Option<DiskRevision>)
        ensures
            final(self).doc.path matches Some(p) && p@ == path@,
            final(self).doc.text@ == text@,
            final(self).doc.base_text@ == text@,
            final(self).doc.disk_rev == disk_rev,
            !final(self).doc.dirty,
            final(self).doc.last_edit_at is None,
            final(self).doc.edit_seq == 0,
            final(self).sync == old(self).sync,
            final(self).error == old(self).error,
    {
        let base_text = text.clone();
        self.doc = Document {
            path: Some(path),
            text,
            base_text,
            disk_rev,
            dirty: false,
            last_edit_at: None,
            edit_seq: 0,
        };
    }

    /// Opens `path` given what a stable read of it gave: its content, or,
    /// when the file does not exist, an empty new document. Either way sync
    /// starts afresh. Any other failure keeps the document and records
    /// "Open failed: ..." unless an error is already shown.
    pub fn open_path(&mut self, path: String, read: Result<(String, DiskRevision), IoFailure>)
        ensures
            match read {
                Ok((text, rev)) => {
                    &&& final(self).doc.path matches Some(p) && p@ == path@
                    &&& final(self).doc.text@ == text@
                    &&& final(self).doc.base_text@ == text@
                    &&& final(self).doc.disk_rev == Some(rev)
                    &&& !final(self).doc.dirty
                    &&& final(self).doc.edit_seq == 0
                    &&& final(self).error is None
                    &&& final(self).sync.nonce == next_seq(old(self).sync.nonce)
                    &&& final(self).sync.conflict is None
                    &&& !final(self).sync.in_flight
                },
                Err(e) => if e.kind == IoErrorKind::NotFound {
                    &&& final(self).doc.path matches Some(p) && p@ == path@
                    &&& final(self).doc.text@.len() == 0
                    &&& final(self).doc.base_text@.len() == 0
                    &&& final(self).doc.disk_rev is None
                    &&& !final(self).doc.dirty
                    &&& final(self).doc.edit_seq == 0
                    &&& final(self).error is None
                    &&& final(self).sync.nonce == next_seq(old(self).sync.nonce)
                    &&& final(self).sync.conflict is None
                    &&& !final(self).sync.in_flight
                } else {
                    &&& final(self).doc == old(self).doc
                    &&& final(self).sync == old(self).sync
                    &&& old(self).error is Some ==> final(self).error == old(self).error
                    &&& old(self).error is None ==> (final(self).error matches Some(m)
                        && m@ == "Open failed: "@ + e.message@)
                },
            },
    {
        match read {
            Ok((text, rev)) => {
                self.load_document(path, text, Some(rev));
                self.error = None;
                self.reset_disk_sync_state();
            },
            Err(e) => {
                if e.kind == IoErrorKind::NotFound {
                    self.load_document(path, String::new(), None);
                    self.error = None;
                    self.reset_disk_sync_state();
                } else if self.error.is_none() {
                    let mut m = String::new();
                    m.append("Open failed: ");
                    m.append(e.message.as_str());
                    proof {
                        assert(Seq::<char>::empty() + "Open failed: "@ == "Open failed: "@);
                    }
                    self.error = Some(m);
                }
            },
        }
    }

    /// Records that the live text was written to disk, under `new_path` when
    /// it was saved elsewhere: the text becomes the base, the document is
    /// clean at `disk_rev`, and sync starts afresh.
    pub fn mark_saved(&mut self, new_path: Option<String>, disk_rev: Option<DiskRevision>)
        ensures
            final(self).doc.path == (match new_path {
                Some(p) => Some(p),
                None => old(self).doc.path,
            }),
            final(self).doc.text == old(self).doc.text,
            final(self).doc.base_text@ == old(self).doc.text@,
            final(self).doc.disk_rev == disk_rev,
            !final(self).doc.dirty,
            final(self).doc.edit_seq == old(self).doc.edit_seq,
            final(self).doc.last_edit_at == old(self).doc.last_edit_at,
            final(self).error is None,
            final(self).sync.nonce == next_seq(old(self).sync.nonce),
            !final(self).sync.watching,
            final(self).sync.poll_at is None,
            final(self).sync.pending_reload_at is None,
            !final(self).sync.in_flight,
            final(self).sync.conflict is None,
    {
        if new_path.is_some() {
            self.doc.path = new_path;
        }
        self.doc.dirty = false;
        self.doc.base_text = self.doc.text.clone();
        self.doc.disk_rev = disk_rev;
        self.error = None;
        self.reset_disk_sync_state();
    }

    /// Resolves a pending conflict in memory. Opening the merge takes the
    /// marked text as the live text; keeping mine takes the ours-wins text
    /// and returns the marked text, to be written to a sidecar file;
    /// reloading takes the disk text and drops local edits. The first two
    /// keep the document dirty over the disk text as base. Each of them
    /// starts sync afresh. Saving elsewhere and overwriting need a write
    /// first and change nothing here (see [`Editor::mark_saved`]).
    pub fn apply_conflict_choice(&mut self, choice: ConflictChoice) -> (r: Option<String>)
        ensures
            match old(self).sync.conflict {
                None => *final(self) == *old(self) && r is None,
                Some(c) => match choice {
                    ConflictChoice::SaveAs | ConflictChoice::OverwriteDisk => *final(self) == *old(self) && r is None,
                    _ => {
                        &&& final(self).doc.text@ == (match choice {
                            ConflictChoice::OpenConflictMerge => c.conflict_marked@,
                            ConflictChoice::KeepMineWriteSidecar => c.ours_wins@,
                            _ => c.disk_text@,
                        })
                        &&& final(self).doc.base_text@ == c.disk_text@
                        &&& final(self).doc.disk_rev == Some(c.disk_rev)
                        &&& final(self).doc.dirty == (choice != ConflictChoice::ReloadDisk)
                        &&& final(self).doc.edit_seq == next_seq(old(self).doc.edit_seq)
                        &&& final(self).doc.path == old(self).doc.path
                        &&& final(self).error is None
                        &&& final(self).sync.nonce == next_seq(old(self).sync.nonce)
                        &&& final(self).sync.conflict is None
                        &&& final(self).sync.pending_reload_at is None
                        &&& !final(self).sync.in_flight
                        &&& !final(self).sync.watching
                        &&& choice == ConflictChoice::KeepMineWriteSidecar ==> (r matches Some(m) && m@ == c.conflict_marked@)
                        &&& choice != ConflictChoice::KeepMineWriteSidecar ==> r is None
                    },
                },
            },
    {
        if self.sync.conflict.is_none() {
            return None;
        }
        if choice == ConflictChoice::SaveAs || choice == ConflictChoice::OverwriteDisk {
            return None;
        }
        let conflict = match self.sync.conflict.take() {
            Some(c) => c,
            None => {
                return None;
            },
        };
        let mut sidecar = None;
        match choice {
            ConflictChoice::OpenConflictMerge => {
                self.apply_disk_text_state(conflict.conflict_marked, conflict.disk_text, conflict.disk_rev, true, false);
            },
            ConflictChoice::KeepMineWriteSidecar => {
                sidecar = Some(conflict.conflict_marked);
                self.apply_disk_text_state(conflict.ours_wins, conflict.disk_text, conflict.disk_rev, true, false);
            },
            _ => {
                let base = conflict.disk_text.clone();
                self.apply_disk_text_state(conflict.disk_text, base, conflict.disk_rev, false, false);
            },
        }
        self.reset_disk_sync_state();
        sidecar
    }
}

/// `new` is `old` after bringing in `disk_text` read at `disk_rev`: nothing
/// changes for the known revision with the base text; a clean document takes
/// the disk text; local edits are merged with it, a clean merge becoming the
/// live text over the disk text as base, and a conflicting one recorded.
pub open spec fn incorporated(old: Editor, new: Editor, disk_text: Seq<char>, disk_rev: DiskRevision) -> bool {
    let unchanged = old.doc.disk_rev == Some(disk_rev) && disk_text == old.doc.base_text@;
    &&& unchanged ==> new == old
    &&& !unchanged && !old.doc.dirty ==> {
        &&& new.doc.text@ == disk_text
        &&& new.doc.base_text@ == disk_text
        &&& new.doc.disk_rev == Some(disk_rev)
        &&& !new.doc.dirty
        &&& new.doc.last_edit_at is None
        &&& new.doc.edit_seq == next_seq(old.doc.edit_seq)
        &&& new.doc.path == old.doc.path
        &&& new.sync == old.sync
        &&& new.error is None
    }
    &&& !unchanged && old.doc.dirty ==> match merge_spec(old.doc.base_text@, old.doc.text@, disk_text) {
        MergeView::Clean(m) => {
            &&& new.doc.text@ == m
            &&& new.doc.base_text@ == disk_text
            &&& new.doc.disk_rev == Some(disk_rev)
            &&& new.doc.dirty
            &&& new.doc.last_edit_at == old.doc.last_edit_at
            &&& new.doc.edit_seq == next_seq(old.doc.edit_seq)
            &&& new.doc.path == old.doc.path
            &&& new.sync == old.sync
            &&& new.error is None
        },
        MergeView::Conflicted { conflict_marked: c, ours_wins: w } => {
            &&& new.doc == old.doc
            &&& new.error == old.error
            &&& new.sync.conflict matches Some(k) && k.disk_text@ == disk_text && k.disk_rev == disk_rev
                && k.conflict_marked@ == c && k.ours_wins@ == w
            &&& new.sync.nonce == old.sync.nonce
            &&& new.sync.pending_reload_at == old.sync.pending_reload_at
            &&& new.sync.in_flight == old.sync.in_flight
        },
    }
}

/// Whether a fingerprint poll is due at `now`.
pub open spec fn poll_due_spec(s: DiskSync, now: u64) -> bool {
    !s.watching && !s.in_flight && match s.poll_at {
        Some(next) => now >= next,
        None => true,
    }
}

/// The time of the next unprompted cycle.
pub open spec fn next_wake_spec(s: DiskSync) -> Option<u64> {
    if s.watching {
        s.pending_reload_at
    } else {
        match (s.pending_reload_at, s.poll_at) {
            (Some(a), Some(b)) => if a <= b { Some(a) } else { Some(b) },
            (Some(a), None) => Some(a),
            (None, Some(b)) => Some(b),
            (None, None) => None,
        }
    }
}


} // verus!
