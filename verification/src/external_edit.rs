//! Syncing a remote file edited in an external editor: the local copy is
//! polled, each settled save is cached as pending, and a pending version is
//! uploaded until the remote host acknowledges it. An edit is never dropped
//! before the remote acknowledged it.
use vstd::prelude::*;

verus! {

/// Retry delay after a failed upload, in milliseconds.
pub const EXTERNAL_EDIT_RETRY_INTERVAL_MS: u64 = 15_000;

/// What identifies one saved version of the local copy: its modification
/// time and its length.
#[derive(Clone, Copy, Debug, PartialEq, Eq, Structural)]
pub struct FileSignature {
    pub modified_ns: u64,
    pub len: u64,
}

/// What a poll of the local copy leads to.
#[derive(Clone, Copy, Debug, PartialEq, Eq, Structural)]
pub enum PollDecision {
    /// The copy is gone and was never there: stop watching.
    Stop,
    /// Nothing to do in this round.
    Skip,
    /// The copy changed: wait until this signature stops changing.
    Settle(FileSignature),
    /// The copy is unchanged: go on to the connection check.
    CheckOwner,
}

/// How an upload of the pending version ended.
#[derive(Clone, Copy, Debug, PartialEq, Eq, Structural)]
pub enum UploadOutcome {
    /// The remote file now holds the local edit.
    Applied,
    /// An older version was applied while the editor saved again; the newer
    /// save is pending.
    NewerSavePending,
    /// The upload failed; the same version is retried later.
    Retrying,
}

/// The sync state of one external edit.
#[derive(Clone, Copy, Debug, PartialEq, Eq, Structural)]
pub struct ExternalEditSync {
    /// The last local version seen settled.
    pub baseline: Option<FileSignature>,
    /// The cached version the remote has not acknowledged yet.
    pub pending: Option<FileSignature>,
    /// When the next upload may start, in milliseconds of the caller's clock.
    pub retry_at_ms: u64,
}

impl ExternalEditSync {
    /// The state right after the download, with the downloaded copy's signature.
    pub fn new(downloaded: Option<FileSignature>, now_ms: u64) -> (r: Self)
        ensures
            r.baseline == downloaded,
            r.pending is None,
            r.retry_at_ms == now_ms,
    {
        ExternalEditSync { baseline: downloaded, pending: None, retry_at_ms: now_ms }
    }

    /// What one poll of the local copy leads to.
    pub fn on_poll(&self, observed: Option<FileSignature>) -> (r: PollDecision)
        ensures
            r == match observed {
                None => if self.baseline is None {
                    PollDecision::Stop
                } else {
                    PollDecision::Skip
                },
                Some(s) => if self.baseline != Some(s) {
                    PollDecision::Settle(s)
                } else {
                    PollDecision::CheckOwner
                },
            },
    {
        match observed {
            None => {
                if self.baseline.is_none() {
                    PollDecision::Stop
                } else {
                    PollDecision::Skip
                }
            },
            Some(s) => {
                let unchanged = match self.baseline {
                    Some(b) => b == s,
                    None => false,
                };
                if unchanged {
                    PollDecision::CheckOwner
                } else {
                    PollDecision::Settle(s)
                }
            },
        }
    }

    /// Takes the settled version of a changed copy: it becomes the baseline
    /// and the pending version, due for upload now. Returns whether the round
    /// goes on (false when the copy vanished while settling).
    pub fn on_settled(&mut self, settled: Option<FileSignature>, now_ms: u64) -> (r: bool)
        ensures
            r == settled is Some,
            match settled {
                Some(s) => *final(self) == (ExternalEditSync {
                    baseline: Some(s),
                    pending: Some(s),
                    retry_at_ms: now_ms,
                }),
                None => *final(self) == *old(self),
            },
    {
        match settled {
            Some(s) => {
                self.baseline = Some(s);
                self.pending = Some(s);
                self.retry_at_ms = now_ms;
                true
            },
            None => false,
        }
    }

    /// Whether a pending version should be uploaded now.
    pub fn upload_due(&self, now_ms: u64) -> (r: bool)
        ensures
            r == (self.pending is Some && now_ms >= self.retry_at_ms),
    {
        self.pending.is_some() && now_ms >= self.retry_at_ms
    }

    /// Takes the result of uploading the pending version; `latest` is the
    /// local copy's signature read after the upload.
    pub fn on_upload_finished(&mut self, succeeded: bool, latest: Option<FileSignature>, now_ms: u64) -> (r: UploadOutcome)
        requires
            old(self).pending is Some,
            now_ms <= u64::MAX - EXTERNAL_EDIT_RETRY_INTERVAL_MS,
        ensures
            !succeeded ==> r == UploadOutcome::Retrying && *final(self) == (ExternalEditSync {
                retry_at_ms: (now_ms + EXTERNAL_EDIT_RETRY_INTERVAL_MS) as u64,
                ..*old(self)
            }),
            succeeded && (latest matches Some(l) && Some(l) != old(self).pending) ==> r
                == UploadOutcome::NewerSavePending && *final(self) == (ExternalEditSync {
                baseline: old(self).pending,
                pending: latest,
                retry_at_ms: now_ms,
            }),
            succeeded && !(latest matches Some(l) && Some(l) != old(self).pending) ==> r
                == UploadOutcome::Applied && *final(self) == (ExternalEditSync {
                pending: None,
                ..*old(self)
            }),
    {
        if !succeeded {
            self.retry_at_ms = now_ms + EXTERNAL_EDIT_RETRY_INTERVAL_MS;
            return UploadOutcome::Retrying;
        }
        let uploaded = self.pending;
        let newer = match latest {
            Some(l) => match uploaded {
                Some(u) => l != u,
                None => true,
            },
            None => false,
        };
        if newer {
            self.baseline = uploaded;
            self.pending = latest;
            self.retry_at_ms = now_ms;
            UploadOutcome::NewerSavePending
        } else {
            self.pending = None;
            UploadOutcome::Applied
        }
    }

    /// Whether the local cache must be kept when watching ends: some edit was
    /// never acknowledged by the remote.
    pub fn cache_retained(&self) -> (r: bool)
        ensures
            r == self.pending is Some,
    {
        self.pending.is_some()
    }
}

/// The state after one poll round's state change.
pub open spec fn after_settle(s: ExternalEditSync, settled: Option<FileSignature>, now_ms: u64) -> ExternalEditSync {
    match settled {
        Some(v) => ExternalEditSync { baseline: Some(v), pending: Some(v), retry_at_ms: now_ms },
        None => s,
    }
}

/// An edit is never dropped before the remote acknowledged it: settling a
/// save and failed uploads keep a version pending, and the pending version
/// is cleared only by a successful upload with no newer save.
pub proof fn lemma_pending_edit_is_never_dropped(s: ExternalEditSync, settled: Option<FileSignature>, now_ms: u64)
    ensures
        s.pending is Some ==> after_settle(s, settled, now_ms).pending is Some,
        settled is Some ==> after_settle(s, settled, now_ms).pending == settled,
{
}

}
