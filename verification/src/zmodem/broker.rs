//! The pending file-picker request of a ZMODEM transfer and who may answer it.
//!
//! A terminal can be shown in more than one view, so the claim on the system
//! picker lives beside the shared pending request: at most one view owns it,
//! only for the request it claimed, and dropping a claim frees the request for
//! another view.

use vstd::prelude::*;
use std::path::PathBuf;

verus! {

#[derive(Clone, Copy, Debug, PartialEq, Eq, Structural)]
pub enum ZmodemPickerKind {
    UploadFiles,
    DownloadDirectory,
}

#[derive(Clone, Copy, Debug, PartialEq, Eq, Structural)]
pub struct ZmodemPickerRequest {
    id: u64,
    kind: ZmodemPickerKind,
}

impl ZmodemPickerRequest {
    pub closed spec fn spec_id(self) -> u64 {
        self.id
    }

    pub closed spec fn spec_kind(self) -> ZmodemPickerKind {
        self.kind
    }

    pub fn id(self) -> (r: u64)
        ensures
            r == self.spec_id(),
    {
        self.id
    }

    pub fn kind(self) -> (r: ZmodemPickerKind)
        ensures
            r == self.spec_kind(),
    {
        self.kind
    }
}

/// The user's answer to a picker request.
#[derive(Debug, PartialEq, Eq)]
pub enum ZmodemPickerResponse {
    UploadFiles(Vec<PathBuf>),
    DownloadDirectory(PathBuf),
    Cancel,
}

/// Why a new picker request was refused.
#[derive(Clone, Copy, Debug, PartialEq, Eq, Structural)]
pub enum ZmodemPickerError {
    AlreadyPending,
}

/// The id given to the request after `previous`: the successor, skipping 0.
pub open spec fn next_request_id(previous: u64) -> u64 {
    if previous == u64::MAX {
        1
    } else {
        (previous + 1) as u64
    }
}

/// The pending picker request, the reply channel `T` that answers it, and the
/// view that currently owns the picker for it.
pub struct ZmodemPickerState<T> {
    next_id: u64,
    pending: Option<(ZmodemPickerRequest, T)>,
    picker_claim: Option<u64>,
}

impl<T> ZmodemPickerState<T> {
    pub closed spec fn last_id(&self) -> u64 {
        self.next_id
    }

    /// The pending request, if any.
    pub closed spec fn pending_spec(&self) -> Option<ZmodemPickerRequest> {
        match self.pending {
            Some((request, _)) => Some(request),
            None => None,
        }
    }

    /// The request id whose picker is claimed, if any.
    pub closed spec fn claim(&self) -> Option<u64> {
        self.picker_claim
    }

    /// A claim always belongs to the pending request.
    pub open spec fn wf(&self) -> bool {
        self.claim() matches Some(id) ==> (self.pending_spec() matches Some(request) && request.spec_id() == id)
    }

    pub fn new() -> (r: Self)
        ensures
            r.wf(),
            r.last_id() == 0,
            r.pending_spec() is None,
            r.claim() is None,
    {
        ZmodemPickerState { next_id: 0, pending: None, picker_claim: None }
    }

    pub fn pending_request(&self) -> (r: Option<ZmodemPickerRequest>)
        ensures
            r == self.pending_spec(),
    {
        match &self.pending {
            Some((request, _)) => Some(*request),
            None => None,
        }
    }

    /// Publishes a new request with a fresh id; refused while one is pending.
    pub fn request(&mut self, kind: ZmodemPickerKind, reply: T) -> (r: Result<ZmodemPickerRequest, ZmodemPickerError>)
        requires
            old(self).wf(),
        ensures
            final(self).wf(),
            old(self).pending_spec() is Some ==> r == Err::<ZmodemPickerRequest, ZmodemPickerError>(ZmodemPickerError::AlreadyPending)
                && final(self).pending_spec() == old(self).pending_spec() && final(self).claim() == old(self).claim()
                && final(self).last_id() == old(self).last_id(),
            old(self).pending_spec() is None ==> (r matches Ok(request) && {
                &&& request.spec_id() == next_request_id(old(self).last_id())
                &&& request.spec_kind() == kind
                &&& final(self).last_id() == request.spec_id()
                &&& final(self).pending_spec() == Some(request)
                &&& final(self).claim() is None
            }),
    {
        if self.pending.is_some() {
            return Err(ZmodemPickerError::AlreadyPending);
        }
        self.next_id = if self.next_id == u64::MAX { 1 } else { self.next_id + 1 };
        let request = ZmodemPickerRequest { id: self.next_id, kind };
        self.pending = Some((request, reply));
        self.picker_claim = None;
        Ok(request)
    }

    /// Gives the picker to one view for the pending request `request_id`.
    /// Refused for any other id and while another view holds the claim.
    pub fn try_claim_picker(&mut self, request_id: u64) -> (r: bool)
        requires
            old(self).wf(),
        ensures
            final(self).wf(),
            final(self).pending_spec() == old(self).pending_spec(),
            final(self).last_id() == old(self).last_id(),
            r == ((old(self).pending_spec() matches Some(request) && request.spec_id() == request_id)
                && old(self).claim() is None),
            r ==> final(self).claim() == Some(request_id),
            !r ==> final(self).claim() == old(self).claim(),
    {
        let matches_pending = match &self.pending {
            Some((request, _)) => request.id == request_id,
            None => false,
        };
        if !matches_pending || self.picker_claim.is_some() {
            return false;
        }
        self.picker_claim = Some(request_id);
        true
    }

    /// Takes the pending request and its reply channel, whoever holds the claim.
    pub fn take_pending(&mut self) -> (r: Option<(ZmodemPickerRequest, T)>)
        requires
            old(self).wf(),
        ensures
            final(self).wf(),
            final(self).pending_spec() is None,
            final(self).claim() is None,
            final(self).last_id() == old(self).last_id(),
            match r {
                Some((request, _)) => old(self).pending_spec() == Some(request),
                None => old(self).pending_spec() is None,
            },
    {
        self.picker_claim = None;
        self.pending.take()
    }

    /// Takes the pending request only for the view that claimed exactly it.
    pub fn take_claimed_pending(&mut self, request_id: u64) -> (r: Option<(ZmodemPickerRequest, T)>)
        requires
            old(self).wf(),
        ensures
            final(self).wf(),
            final(self).last_id() == old(self).last_id(),
            old(self).claim() == Some(request_id) ==> final(self).pending_spec() is None && final(self).claim() is None
                && (r matches Some((request, _)) && old(self).pending_spec() == Some(request)),
            old(self).claim() != Some(request_id) ==> r is None && final(self).pending_spec() == old(self).pending_spec()
                && final(self).claim() == old(self).claim(),
    {
        match self.picker_claim {
            Some(claimed) => {
                if claimed != request_id {
                    return None;
                }
            },
            None => return None,
        }
        self.picker_claim = None;
        self.pending.take()
    }

    /// Frees the picker claimed for `request_id`; any other claim stays.
    pub fn release_picker_claim(&mut self, request_id: u64) -> (r: bool)
        requires
            old(self).wf(),
        ensures
            final(self).wf(),
            final(self).pending_spec() == old(self).pending_spec(),
            final(self).last_id() == old(self).last_id(),
            r == (old(self).claim() == Some(request_id)),
            r ==> final(self).claim() is None,
            !r ==> final(self).claim() == old(self).claim(),
    {
        match self.picker_claim {
            Some(claimed) => {
                if claimed != request_id {
                    return false;
                }
            },
            None => return false,
        }
        self.picker_claim = None;
        true
    }

    /// Drops the pending request `request_id` (its waiter went away); a newer
    /// request is left alone.
    pub fn clear_request(&mut self, request_id: u64) -> (r: bool)
        requires
            old(self).wf(),
        ensures
            final(self).wf(),
            final(self).last_id() == old(self).last_id(),
            r == (old(self).pending_spec() matches Some(request) && request.spec_id() == request_id),
            r ==> final(self).pending_spec() is None && final(self).claim() is None,
            !r ==> final(self).pending_spec() == old(self).pending_spec() && final(self).claim() == old(self).claim(),
    {
        let is_match = match &self.pending {
            Some((request, _)) => request.id == request_id,
            None => false,
        };
        if !is_match {
            return false;
        }
        self.picker_claim = None;
        self.pending = None;
        true
    }
}

/// A claim for an older request can neither take nor release the picker of a
/// newer one.
pub proof fn lemma_stale_claim_is_inert<T>(state: ZmodemPickerState<T>, stale_id: u64)
    requires
        state.wf(),
        (state.pending_spec() matches Some(request) && request.spec_id() != stale_id),
    ensures
        state.claim() != Some(stale_id),
{
}

} // verus!
