//! Transfer progress snapshots and the single-active-transfer bookkeeping
//! that decides which progress notifications are sent.

use vstd::prelude::*;

verus! {

/// A snapshot of one transfer's progress.
#[derive(Clone, Debug, PartialEq, Eq)]
pub struct ZmodemTransferProgress {
    pub transfer_id: ZmodemTransferId,
    pub direction: ZmodemTransferDirection,
    pub file_name: String,
    pub file_index: usize,
    pub file_count: usize,
    pub current_file_transferred: u64,
    pub current_file_total: u64,
    pub transferred: u64,
    pub total: u64,
}

/// Identifies one transfer; the default (0) is never handed out.
#[derive(Clone, Copy, Debug, Default, PartialEq, Eq, Hash, Structural)]
pub struct ZmodemTransferId(pub u64);

impl ZmodemTransferId {
    pub fn as_u64(self) -> (r: u64)
        ensures
            r == self.0,
    {
        self.0
    }
}

/// Why a transfer ended, so that the background task list marks it right.
#[derive(Clone, Debug, PartialEq, Eq)]
pub enum ZmodemTransferOutcome {
    Succeeded,
    Cancelled,
    Failed(String),
}

#[derive(Clone, Copy, Debug, PartialEq, Eq, Structural)]
pub enum ZmodemTransferDirection {
    Upload,
    Download,
}

impl ZmodemTransferDirection {
    pub fn as_str(self) -> (r: &'static str)
        ensures
            r@ == (match self {
                ZmodemTransferDirection::Upload => "upload"@,
                ZmodemTransferDirection::Download => "download"@,
            }),
    {
        match self {
            ZmodemTransferDirection::Upload => "upload",
            ZmodemTransferDirection::Download => "download",
        }
    }
}

/// Whole percent of `transferred` out of `total`, at most 100; 0 when the
/// total is unknown (0).
pub open spec fn spec_percent(transferred: u64, total: u64) -> nat {
    if total == 0 {
        0
    } else if (transferred as nat) * 100 / (total as nat) > 100 {
        100
    } else {
        (transferred as nat) * 100 / (total as nat)
    }
}

/// Two snapshots that agree in every field (the file name by its text).
pub open spec fn same_progress(a: ZmodemTransferProgress, b: ZmodemTransferProgress) -> bool {
    a.transfer_id == b.transfer_id && a.direction == b.direction
        && a.file_name@ == b.file_name@ && a.file_index == b.file_index
        && a.file_count == b.file_count
        && a.current_file_transferred == b.current_file_transferred
        && a.current_file_total == b.current_file_total
        && a.transferred == b.transferred && a.total == b.total
}

/// Whether `progress` repeats the previous snapshot exactly.
pub open spec fn repeats_snapshot(previous: Option<ZmodemTransferProgress>, progress: ZmodemTransferProgress) -> bool {
    match previous {
        Some(previous) => same_progress(previous, progress),
        None => false,
    }
}

impl ZmodemTransferProgress {
    pub fn transfer_id(&self) -> (r: ZmodemTransferId)
        ensures
            r == self.transfer_id,
    {
        self.transfer_id
    }

    pub fn file_name(&self) -> (r: &str)
        ensures
            r@ == self.file_name@,
    {
        self.file_name.as_str()
    }

    pub fn file_index(&self) -> (r: usize)
        ensures
            r == self.file_index,
    {
        self.file_index
    }

    pub fn file_count(&self) -> (r: usize)
        ensures
            r == self.file_count,
    {
        self.file_count
    }

    pub fn current_file_transferred(&self) -> (r: u64)
        ensures
            r == self.current_file_transferred,
    {
        self.current_file_transferred
    }

    pub fn current_file_total(&self) -> (r: u64)
        ensures
            r == self.current_file_total,
    {
        self.current_file_total
    }

    pub fn transferred(&self) -> (r: u64)
        ensures
            r == self.transferred,
    {
        self.transferred
    }

    pub fn total(&self) -> (r: u64)
        ensures
            r == self.total,
    {
        self.total
    }

    pub fn direction(&self) -> (r: ZmodemTransferDirection)
        ensures
            r == self.direction,
    {
        self.direction
    }

    /// Percent of the total bytes transferred, clamped to 100.
    pub fn percent(&self) -> (r: u32)
        ensures
            r == spec_percent(self.transferred, self.total),
    {
        if self.total == 0 {
            return 0;
        }
        let ratio = self.transferred as u128 * 100 / self.total as u128;
        if ratio > 100 {
            100
        } else {
            ratio as u32
        }
    }

    /// A field-by-field copy.
    pub fn duplicate(&self) -> (r: Self)
        ensures
            r == *self,
    {
        ZmodemTransferProgress {
            transfer_id: self.transfer_id,
            direction: self.direction,
            file_name: self.file_name.clone(),
            file_index: self.file_index,
            file_count: self.file_count,
            current_file_transferred: self.current_file_transferred,
            current_file_total: self.current_file_total,
            transferred: self.transferred,
            total: self.total,
        }
    }

    /// Whether two snapshots are equal in every field.
    pub fn same_as(&self, other: &Self) -> (r: bool)
        ensures
            r == same_progress(*self, *other),
    {
        self.transfer_id.0 == other.transfer_id.0 && self.direction == other.direction
            && self.file_name == other.file_name && self.file_index == other.file_index
            && self.file_count == other.file_count
            && self.current_file_transferred == other.current_file_transferred
            && self.current_file_total == other.current_file_total
            && self.transferred == other.transferred && self.total == other.total
    }
}

/// A notification for the terminal's event stream.
#[derive(Debug)]
pub enum ZmodemProgressNotification {
    Changed(ZmodemTransferProgress),
    Finished {
        transfer_id: ZmodemTransferId,
        outcome: ZmodemTransferOutcome,
        progress: Option<ZmodemTransferProgress>,
    },
}

/// The id handed out after `previous`: the successor, skipping 0 on wrap.
pub open spec fn next_transfer_id(previous: u64) -> u64 {
    if previous == u64::MAX {
        1
    } else {
        (previous + 1) as u64
    }
}

/// Bookkeeping for the one active transfer of a terminal: which transfer is
/// current and its latest snapshot. Only the current transfer may publish
/// progress or finish; a new transfer cancels the previous one.
pub struct ZmodemProgressBook {
    next_id: u64,
    active_id: Option<ZmodemTransferId>,
    snapshot: Option<ZmodemTransferProgress>,
}

impl ZmodemProgressBook {
    pub closed spec fn last_id(&self) -> u64 {
        self.next_id
    }

    pub closed spec fn active(&self) -> Option<ZmodemTransferId> {
        self.active_id
    }

    pub closed spec fn current(&self) -> Option<ZmodemTransferProgress> {
        self.snapshot
    }

    pub fn new() -> (r: Self)
        ensures
            r.last_id() == 0,
            r.active() is None,
            r.current() is None,
    {
        ZmodemProgressBook { next_id: 0, active_id: None, snapshot: None }
    }

    /// The latest snapshot of the current transfer.
    pub fn snapshot(&self) -> (r: Option<ZmodemTransferProgress>)
        ensures
            r == self.current(),
    {
        match &self.snapshot {
            Some(progress) => Some(progress.duplicate()),
            None => None,
        }
    }

    /// Starts a new transfer. A transfer that was still current is reported
    /// as cancelled, with its last snapshot.
    pub fn begin_transfer(&mut self, direction: ZmodemTransferDirection) -> (r: (ZmodemTransferId, Option<ZmodemProgressNotification>))
        ensures
            final(self).last_id() == next_transfer_id(old(self).last_id()),
            r.0 == ZmodemTransferId(final(self).last_id()),
            r.0.0 != 0,
            final(self).active() == Some(r.0),
            final(self).current() is None,
            match old(self).active() {
                Some(displaced) => r.1 == Some(ZmodemProgressNotification::Finished {
                    transfer_id: displaced,
                    outcome: ZmodemTransferOutcome::Cancelled,
                    progress: old(self).current(),
                }),
                None => r.1 is None,
            },
    {
        let displaced = match self.active_id.take() {
            Some(transfer_id) => Some((transfer_id, self.snapshot.take())),
            None => None,
        };
        self.next_id = if self.next_id == u64::MAX { 1 } else { self.next_id + 1 };
        let transfer_id = ZmodemTransferId(self.next_id);
        self.active_id = Some(transfer_id);
        self.snapshot = None;
        let notification = match displaced {
            Some((displaced_id, progress)) => Some(ZmodemProgressNotification::Finished {
                transfer_id: displaced_id,
                outcome: ZmodemTransferOutcome::Cancelled,
                progress,
            }),
            None => None,
        };
        (transfer_id, notification)
    }

    /// Publishes a snapshot of the current transfer. A snapshot for another
    /// transfer is ignored. The change is reported when forced or when the
    /// snapshot differs from the previous one.
    pub fn set(&mut self, transfer_id: ZmodemTransferId, progress: ZmodemTransferProgress, force: bool) -> (r: Option<ZmodemProgressNotification>)
        ensures
            final(self).last_id() == old(self).last_id(),
            final(self).active() == old(self).active(),
            old(self).active() != Some(transfer_id) ==> final(self).current() == old(self).current() && r is None,
            old(self).active() == Some(transfer_id) ==> {
                let stamped = (ZmodemTransferProgress { transfer_id, ..progress });
                let unchanged = repeats_snapshot(old(self).current(), stamped);
                &&& final(self).current() == Some(stamped)
                &&& (force || !unchanged) ==> r == Some(ZmodemProgressNotification::Changed(stamped))
                &&& !(force || !unchanged) ==> r is None
            },
    {
        let mut progress = progress;
        progress.transfer_id = transfer_id;
        let is_active = match self.active_id {
            Some(active) => active.0 == transfer_id.0,
            None => false,
        };
        if !is_active {
            return None;
        }
        let changed = force || match &self.snapshot {
            Some(previous) => !previous.same_as(&progress),
            None => true,
        };
        let notification = progress.duplicate();
        self.snapshot = Some(progress);
        if changed {
            Some(ZmodemProgressNotification::Changed(notification))
        } else {
            None
        }
    }

    /// Ends the current transfer with its outcome and last snapshot. Ending
    /// any other transfer changes nothing.
    pub fn finish(&mut self, transfer_id: ZmodemTransferId, outcome: ZmodemTransferOutcome) -> (r: Option<ZmodemProgressNotification>)
        ensures
            final(self).last_id() == old(self).last_id(),
            old(self).active() != Some(transfer_id) ==> final(self).active() == old(self).active()
                && final(self).current() == old(self).current() && r is None,
            old(self).active() == Some(transfer_id) ==> {
                &&& final(self).active() is None
                &&& final(self).current() is None
                &&& r == Some(ZmodemProgressNotification::Finished {
                    transfer_id,
                    outcome,
                    progress: old(self).current(),
                })
            },
    {
        let is_active = match self.active_id {
            Some(active) => active.0 == transfer_id.0,
            None => false,
        };
        if !is_active {
            return None;
        }
        let progress = self.snapshot.take();
        self.active_id = None;
        Some(ZmodemProgressNotification::Finished { transfer_id, outcome, progress })
    }
}

} // verus!
