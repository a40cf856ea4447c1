//! The decisions of a running ZMODEM upload or download.
//!
//! A session owns the `zmodem2` state machine, the wire bytes that arrived
//! but were not consumed yet, the count of protocol timeouts in a row and
//! the progress tracker. The caller does the I/O: it asks the machine for
//! its next action (`poll`), lets the session decide what it means
//! (`apply`), performs the step (send wire bytes, read or write a file) and
//! reports back. No received byte is lost or reordered on its way to the
//! machine, and the session gives up after `MAX_PROTOCOL_TIMEOUTS` timeouts
//! in a row.

use vstd::prelude::*;
use zmodem2::{Receiver, Sender};
use crate::text::utf8_lossy;
use crate::zmodem::machine::{
    receiver_file_written, receiver_new, receiver_poll, receiver_submit_wire, receiver_timeout,
    receiver_wire_written, sender_finish, sender_new, sender_poll, sender_set_streaming_window,
    sender_start_file, sender_submit_file, sender_submit_wire, sender_timeout, sender_wire_written,
    ZmodemAction,
};
use crate::zmodem::progress::{ZmodemTransferDirection, ZmodemTransferId, ZmodemTransferProgress};
use crate::zmodem::tracker::{
    download_snapshot, sum_sizes, upload_after_complete, upload_after_read, upload_after_start,
    upload_snapshot, DownloadCurrentFile, DownloadProgressTracker, UploadCurrentFile, UploadProgressTracker,
    UploadTrackerView, ZmodemProgressError,
};
use crate::zmodem::transfer::MAX_PROTOCOL_TIMEOUTS;

verus! {

/// Why a transfer stopped.
#[derive(Clone, Copy, Debug, PartialEq, Eq, Structural)]
pub enum ZmodemSessionError {
    CreateSender,
    CreateReceiver,
    StartFile,
    FinishSession,
    SubmitFileData,
    AcknowledgeFileData,
    ProcessWire(ZmodemTransferDirection),
    Retry(ZmodemTransferDirection),
    TimedOut(ZmodemTransferDirection),
    RemoteAborted(ZmodemTransferDirection),
    UnexpectedAction(ZmodemTransferDirection),
    /// The sender asked for file data while no file was open.
    NoOpenUploadFile,
    /// The receiver produced file data while no file was open.
    NoOpenDownloadFile,
    /// The receiver finished a file that was not open.
    NoDownloadFileToComplete,
    Progress(ZmodemProgressError),
}

pub open spec fn session_error_text(e: ZmodemSessionError) -> Seq<char> {
    match e {
        ZmodemSessionError::CreateSender => "create ZMODEM sender"@,
        ZmodemSessionError::CreateReceiver => "create ZMODEM receiver"@,
        ZmodemSessionError::StartFile => "start ZMODEM upload file"@,
        ZmodemSessionError::FinishSession => "finish ZMODEM upload session"@,
        ZmodemSessionError::SubmitFileData => "submit ZMODEM upload data"@,
        ZmodemSessionError::AcknowledgeFileData => "acknowledge ZMODEM download data"@,
        ZmodemSessionError::ProcessWire(ZmodemTransferDirection::Upload) => "process ZMODEM upload wire data"@,
        ZmodemSessionError::ProcessWire(ZmodemTransferDirection::Download) => "process ZMODEM download wire data"@,
        ZmodemSessionError::Retry(ZmodemTransferDirection::Upload) => "retry ZMODEM upload"@,
        ZmodemSessionError::Retry(ZmodemTransferDirection::Download) => "retry ZMODEM download"@,
        ZmodemSessionError::TimedOut(ZmodemTransferDirection::Upload) => "ZMODEM upload timed out"@,
        ZmodemSessionError::TimedOut(ZmodemTransferDirection::Download) => "ZMODEM download timed out"@,
        ZmodemSessionError::RemoteAborted(ZmodemTransferDirection::Upload) => "remote aborted ZMODEM upload"@,
        ZmodemSessionError::RemoteAborted(ZmodemTransferDirection::Download) => "remote aborted ZMODEM download"@,
        ZmodemSessionError::UnexpectedAction(ZmodemTransferDirection::Upload) => "unexpected ZMODEM sender action"@,
        ZmodemSessionError::UnexpectedAction(ZmodemTransferDirection::Download) => "unexpected ZMODEM receiver action"@,
        ZmodemSessionError::NoOpenUploadFile => "ZMODEM sender requested data without an open file"@,
        ZmodemSessionError::NoOpenDownloadFile => "ZMODEM receiver produced data without an open file"@,
        ZmodemSessionError::NoDownloadFileToComplete => "ZMODEM receiver completed a file that was not open"@,
        ZmodemSessionError::Progress(ZmodemProgressError::NoFileToStart) => "ZMODEM upload has no file to start"@,
        ZmodemSessionError::Progress(ZmodemProgressError::NoCurrentFile) => "ZMODEM upload progress has no current file"@,
        ZmodemSessionError::Progress(ZmodemProgressError::NoFileToComplete) => "ZMODEM completed without a current upload file"@,
    }
}

impl ZmodemSessionError {
    pub fn message(&self) -> (r: &'static str)
        ensures
            r@ == session_error_text(*self),
    {
        match self {
            ZmodemSessionError::CreateSender => "create ZMODEM sender",
            ZmodemSessionError::CreateReceiver => "create ZMODEM receiver",
            ZmodemSessionError::StartFile => "start ZMODEM upload file",
            ZmodemSessionError::FinishSession => "finish ZMODEM upload session",
            ZmodemSessionError::SubmitFileData => "submit ZMODEM upload data",
            ZmodemSessionError::AcknowledgeFileData => "acknowledge ZMODEM download data",
            ZmodemSessionError::ProcessWire(ZmodemTransferDirection::Upload) => "process ZMODEM upload wire data",
            ZmodemSessionError::ProcessWire(ZmodemTransferDirection::Download) => "process ZMODEM download wire data",
            ZmodemSessionError::Retry(ZmodemTransferDirection::Upload) => "retry ZMODEM upload",
            ZmodemSessionError::Retry(ZmodemTransferDirection::Download) => "retry ZMODEM download",
            ZmodemSessionError::TimedOut(ZmodemTransferDirection::Upload) => "ZMODEM upload timed out",
            ZmodemSessionError::TimedOut(ZmodemTransferDirection::Download) => "ZMODEM download timed out",
            ZmodemSessionError::RemoteAborted(ZmodemTransferDirection::Upload) => "remote aborted ZMODEM upload",
            ZmodemSessionError::RemoteAborted(ZmodemTransferDirection::Download) => "remote aborted ZMODEM download",
            ZmodemSessionError::UnexpectedAction(ZmodemTransferDirection::Upload) => "unexpected ZMODEM sender action",
            ZmodemSessionError::UnexpectedAction(ZmodemTransferDirection::Download) => "unexpected ZMODEM receiver action",
            ZmodemSessionError::NoOpenUploadFile => "ZMODEM sender requested data without an open file",
            ZmodemSessionError::NoOpenDownloadFile => "ZMODEM receiver produced data without an open file",
            ZmodemSessionError::NoDownloadFileToComplete => "ZMODEM receiver completed a file that was not open",
            ZmodemSessionError::Progress(e) => e.message(),
        }
    }
}

/// Wire bytes on their way to a state machine.
pub struct WireInbox {
    pending: Vec<u8>,
    timeouts: usize,
    received: Ghost<Seq<u8>>,
    fed: Ghost<Seq<u8>>,
}

/// What the inbox holds: the bytes not consumed yet, the timeouts in a row,
/// and (for the proofs) everything received and everything consumed.
pub struct WireInboxView {
    pub pending: Seq<u8>,
    pub timeouts: nat,
    pub received: Seq<u8>,
    pub fed: Seq<u8>,
}

impl View for WireInbox {
    type V = WireInboxView;

    closed spec fn view(&self) -> WireInboxView {
        WireInboxView { pending: self.pending@, timeouts: self.timeouts as nat, received: self.received@, fed: self.fed@ }
    }
}

/// The bytes consumed, then those still pending, are exactly the bytes
/// received, in order; and fewer timeouts than the limit came in a row.
pub open spec fn inbox_wf(v: WireInboxView) -> bool {
    &&& v.fed + v.pending == v.received
    &&& v.timeouts < MAX_PROTOCOL_TIMEOUTS
}

impl WireInbox {
    pub fn new(initial: Vec<u8>) -> (r: Self)
        ensures
            inbox_wf(r@),
            r@.pending == initial@,
            r@.received == initial@,
            r@.fed == Seq::<u8>::empty(),
            r@.timeouts == 0,
    {
        let ghost received = initial@;
        let r = WireInbox { pending: initial, timeouts: 0, received: Ghost(received), fed: Ghost(Seq::empty()) };
        assert(r@.fed + r@.pending =~= r@.received);
        r
    }

    /// The machine consumed the first `consumed` pending bytes; the run of
    /// timeouts ends.
    fn consume(&mut self, consumed: usize)
        requires
            inbox_wf(old(self)@),
            0 < consumed <= old(self)@.pending.len(),
        ensures
            inbox_wf(final(self)@),
            final(self)@.pending == old(self)@.pending.subrange(consumed as int, old(self)@.pending.len() as int),
            final(self)@.fed == old(self)@.fed + old(self)@.pending.subrange(0, consumed as int),
            final(self)@.received == old(self)@.received,
            final(self)@.timeouts == 0,
    {
        let ghost before = self.pending@;
        let rest = self.pending.split_off(consumed);
        self.pending = rest;
        self.fed = Ghost(self.fed@ + before.subrange(0, consumed as int));
        self.timeouts = 0;
        assert(before == before.subrange(0, consumed as int) + self.pending@);
        assert(self.fed@ + self.pending@ =~= self.received@);
    }

    /// The channel delivered `data`, or `None` when a read timed out. The
    /// result says whether the timeouts in a row reached the limit.
    fn receive(&mut self, data: Option<Vec<u8>>) -> (limit: bool)
        requires
            inbox_wf(old(self)@),
        ensures
            match data {
                Some(bytes) => {
                    &&& !limit
                    &&& final(self)@.pending == old(self)@.pending + bytes@
                    &&& final(self)@.received == old(self)@.received + bytes@
                    &&& final(self)@.fed == old(self)@.fed
                    &&& final(self)@.timeouts == old(self)@.timeouts
                    &&& inbox_wf(final(self)@)
                },
                None => {
                    &&& limit == (old(self)@.timeouts + 1 >= MAX_PROTOCOL_TIMEOUTS)
                    &&& !limit ==> inbox_wf(final(self)@)
                    &&& final(self)@.pending == old(self)@.pending
                    &&& final(self)@.received == old(self)@.received
                    &&& final(self)@.fed == old(self)@.fed
                    &&& final(self)@.timeouts == old(self)@.timeouts + 1
                },
            },
    {
        match data {
            Some(bytes) => {
                let mut bytes = bytes;
                let ghost added = bytes@;
                self.pending.append(&mut bytes);
                self.received = Ghost(self.received@ + added);
                assert(self.fed@ + self.pending@ =~= self.received@);
                false
            },
            None => {
                self.timeouts = self.timeouts + 1;
                self.timeouts >= MAX_PROTOCOL_TIMEOUTS
            },
        }
    }

    /// The bytes not consumed yet, for the terminal after the transfer.
    fn into_pending(self) -> (r: Vec<u8>)
        ensures
            r@ == self@.pending,
    {
        self.pending
    }
}

/// One file of an upload, as offered to the remote side.
#[derive(Clone, Debug, PartialEq, Eq)]
pub struct UploadFileEntry {
    pub name: Vec<u8>,
    pub size: u32,
}

pub open spec fn entry_sizes(files: Seq<UploadFileEntry>) -> Seq<u32> {
    files.map_values(|entry: UploadFileEntry| entry.size)
}

/// What an upload asks its caller to do next.
#[derive(Debug, PartialEq, Eq)]
pub enum UploadStep {
    /// Write these bytes to the channel, then report them with `wire_sent`.
    SendWire(Vec<u8>),
    /// Read at most `max_len` bytes of file `index` at `offset`, and hand
    /// them to `file_chunk`.
    ReadFile { index: usize, offset: u32, max_len: usize },
    /// The current file is done (the snapshot shows it whole): open the next
    /// one with `next_file`.
    FileCompleted(ZmodemTransferProgress),
    /// The session is over: send what `next_wire` still gives.
    Complete,
    /// Feed pending wire bytes, or wait for more.
    Idle,
    /// Poll again.
    Continue,
}

/// What an upload session holds.
pub struct UploadSessionView {
    pub tracker: UploadTrackerView,
    pub files: Seq<UploadFileEntry>,
    pub next: nat,
    pub opening: Option<nat>,
    pub current: Option<UploadCurrentFile>,
    pub inbox: WireInboxView,
}

/// The decision an upload takes on the sender's `action`, given the file it
/// is on.
pub open spec fn upload_step(
    action: ZmodemAction,
    current: Option<UploadCurrentFile>,
    tracker: UploadTrackerView,
) -> Result<UploadStep, ZmodemSessionError> {
    match action {
        ZmodemAction::WriteWire(bytes) => Ok(UploadStep::SendWire(bytes)),
        ZmodemAction::ReadFile { offset, max_len } => match current {
            Some(file) => Ok(UploadStep::ReadFile { index: file.index, offset, max_len }),
            None => Err(ZmodemSessionError::NoOpenUploadFile),
        },
        ZmodemAction::FileCompleted => match current {
            Some(file) => Ok(
                UploadStep::FileCompleted(upload_snapshot(UploadTrackerView { high_water: file.size, ..tracker }, file)),
            ),
            None => Err(ZmodemSessionError::Progress(ZmodemProgressError::NoFileToComplete)),
        },
        ZmodemAction::SessionCompleted => Ok(UploadStep::Complete),
        ZmodemAction::Aborted => Err(ZmodemSessionError::RemoteAborted(ZmodemTransferDirection::Upload)),
        ZmodemAction::FileStarted { .. } => Err(ZmodemSessionError::UnexpectedAction(ZmodemTransferDirection::Upload)),
        ZmodemAction::WriteFile(_) => Err(ZmodemSessionError::UnexpectedAction(ZmodemTransferDirection::Upload)),
        ZmodemAction::Idle => Ok(UploadStep::Idle),
        _ => Ok(UploadStep::Continue),
    }
}

/// Drives the sending side of a transfer.
pub struct UploadSession {
    sender: Sender,
    tracker: UploadProgressTracker,
    files: Vec<UploadFileEntry>,
    next: usize,
    opening: Option<usize>,
    current: Option<UploadCurrentFile>,
    inbox: WireInbox,
}

impl View for UploadSession {
    type V = UploadSessionView;

    closed spec fn view(&self) -> UploadSessionView {
        UploadSessionView {
            tracker: self.tracker@,
            files: self.files@,
            next: self.next as nat,
            opening: match self.opening {
                Some(i) => Some(i as nat),
                None => None,
            },
            current: self.current,
            inbox: self.inbox@,
        }
    }
}

impl UploadSession {
    pub closed spec fn wf(&self) -> bool {
        &&& self.tracker.wf()
        &&& self.tracker@.file_count == self.files@.len()
        &&& self.next <= self.files@.len()
        &&& (self.opening matches Some(i) ==> i < self.next)
        &&& inbox_wf(self.inbox@)
    }

    /// A session that offers `files` in order, with `initial_wire` (what came
    /// after the handshake) pending. Only creating the sender can fail.
    pub fn new(files: Vec<UploadFileEntry>, initial_wire: Vec<u8>, transfer_id: ZmodemTransferId) -> (r: Result<Self, ZmodemSessionError>)
        requires
            sum_sizes(entry_sizes(files@)) <= u64::MAX,
        ensures
            r is Err ==> r == Err::<Self, ZmodemSessionError>(ZmodemSessionError::CreateSender),
            r matches Ok(s) ==> {
                &&& s.wf()
                &&& s@.files == files@
                &&& s@.tracker.transfer_id == transfer_id
                &&& s@.tracker.total == sum_sizes(entry_sizes(files@))
                &&& s@.tracker.completed == 0
                &&& s@.tracker.high_water == 0
                &&& s@.next == 0
                &&& s@.opening is None
                &&& s@.current is None
                &&& s@.inbox.pending == initial_wire@
                &&& s@.inbox.received == initial_wire@
                &&& s@.inbox.fed == Seq::<u8>::empty()
                &&& s@.inbox.timeouts == 0
            },
    {
        let mut sizes: Vec<u32> = Vec::new();
        let mut i: usize = 0;
        while i < files.len()
            invariant
                i <= files@.len(),
                sizes@ == entry_sizes(files@).take(i as int),
            decreases files@.len() - i,
        {
            sizes.push(files[i].size);
            proof {
                assert(entry_sizes(files@).take(i + 1) =~= entry_sizes(files@).take(i as int).push(files@[i as int].size));
            }
            i = i + 1;
        }
        assert(sizes@ =~= entry_sizes(files@));
        let tracker = UploadProgressTracker::new(&sizes, transfer_id);
        let mut sender = match sender_new() {
            Some(sender) => sender,
            None => return Err(ZmodemSessionError::CreateSender),
        };
        sender_set_streaming_window(&mut sender, usize::MAX);
        Ok(UploadSession {
            sender,
            tracker,
            files,
            next: 0,
            opening: None,
            current: None,
            inbox: WireInbox::new(initial_wire),
        })
    }

    /// Moves on to the next queued file: `Some(index)` of the file to open
    /// (then call `file_opened`), or `None` when the queue is done and the
    /// sender was told to finish the session.
    pub fn next_file(&mut self) -> (r: Result<Option<usize>, ZmodemSessionError>)
        requires
            old(self).wf(),
        ensures
            final(self).wf(),
            final(self)@.tracker == old(self)@.tracker,
            final(self)@.files == old(self)@.files,
            final(self)@.inbox == old(self)@.inbox,
            old(self)@.next < old(self)@.files.len() ==> {
                &&& r == Ok::<Option<usize>, ZmodemSessionError>(Some(old(self)@.next as usize))
                &&& final(self)@.next == old(self)@.next + 1
                &&& final(self)@.opening == Some(old(self)@.next)
                &&& final(self)@.current == old(self)@.current
            },
            old(self)@.next == old(self)@.files.len() ==> {
                &&& (r is Ok ==> r == Ok::<Option<usize>, ZmodemSessionError>(None))
                &&& (r is Err ==> r == Err::<Option<usize>, ZmodemSessionError>(ZmodemSessionError::FinishSession))
                &&& final(self)@.next == old(self)@.next
                &&& final(self)@.opening is None
                &&& final(self)@.current is None
            },
    {
        let index = self.tracker.next_file_index(self.files.len() - self.next);
        if self.next == self.files.len() {
            self.opening = None;
            self.current = None;
            if !sender_finish(&mut self.sender) {
                return Err(ZmodemSessionError::FinishSession);
            }
            return Ok(None);
        }
        self.opening = Some(index);
        self.next = self.next + 1;
        Ok(Some(index))
    }

    /// The file that `next_file` named is open: the sender starts it, and it
    /// becomes the current file, shown by its name's text.
    pub fn file_opened(&mut self) -> (r: Result<(), ZmodemSessionError>)
        requires
            old(self).wf(),
            old(self)@.opening is Some,
        ensures
            final(self).wf(),
            final(self)@.tracker == old(self)@.tracker,
            final(self)@.files == old(self)@.files,
            final(self)@.next == old(self)@.next,
            final(self)@.inbox == old(self)@.inbox,
            final(self)@.opening is None,
            r is Err ==> r == Err::<(), ZmodemSessionError>(ZmodemSessionError::StartFile),
            r is Ok ==> (final(self)@.current matches Some(file) && {
                let entry = old(self)@.files[old(self)@.opening->0 as int];
                &&& file.name@ == crate::text::utf8_lossy_decoding(entry.name@)
                &&& file.index == old(self)@.opening->0
                &&& file.size == entry.size
            }),
    {
        let index = match self.opening {
            Some(index) => index,
            None => return Ok(()),
        };
        self.opening = None;
        let entry = &self.files[index];
        if !sender_start_file(&mut self.sender, entry.name.as_slice(), entry.size) {
            return Err(ZmodemSessionError::StartFile);
        }
        let name = utf8_lossy(entry.name.as_slice());
        self.current = Some(UploadCurrentFile { name, index, size: entry.size as u64 });
        Ok(())
    }

    /// The first snapshot of the upload, on its first file.
    pub fn begin(&self) -> (r: Result<ZmodemTransferProgress, ZmodemSessionError>)
        ensures
            match self@.current {
                Some(file) => r == Ok::<ZmodemTransferProgress, ZmodemSessionError>(upload_snapshot(self@.tracker, file)),
                None => r == Err::<ZmodemTransferProgress, ZmodemSessionError>(
                    ZmodemSessionError::Progress(ZmodemProgressError::NoFileToStart),
                ),
            },
    {
        match self.tracker.begin(self.current.as_ref()) {
            Ok(progress) => Ok(progress),
            Err(e) => Err(ZmodemSessionError::Progress(e)),
        }
    }

    /// The snapshot once the next file started; `None` when the queue ran out.
    pub fn start_file_progress(&mut self) -> (r: Option<ZmodemTransferProgress>)
        requires
            old(self).wf(),
        ensures
            final(self).wf(),
            final(self)@.tracker == upload_after_start(old(self)@.tracker),
            final(self)@.files == old(self)@.files,
            final(self)@.next == old(self)@.next,
            final(self)@.opening == old(self)@.opening,
            final(self)@.current == old(self)@.current,
            final(self)@.inbox == old(self)@.inbox,
            match old(self)@.current {
                Some(file) => r == Some(upload_snapshot(final(self)@.tracker, file)),
                None => r is None,
            },
    {
        self.tracker.start_file(self.current.as_ref())
    }

    /// What the sender asks for next. Its answer depends on the protocol
    /// state, so only that the session's own state stays is stated.
    pub fn poll(&mut self) -> (r: ZmodemAction)
        requires
            old(self).wf(),
        ensures
            final(self).wf(),
            final(self)@ == old(self)@,
    {
        sender_poll(&mut self.sender)
    }

    /// The decision on the sender's `action`; a finished file joins the
    /// completed bytes.
    pub fn apply(&mut self, action: ZmodemAction) -> (r: Result<UploadStep, ZmodemSessionError>)
        requires
            old(self).wf(),
        ensures
            final(self).wf(),
            r == upload_step(action, old(self)@.current, old(self)@.tracker),
            final(self)@.tracker == (match (action, old(self)@.current) {
                (ZmodemAction::FileCompleted, Some(file)) => upload_after_complete(old(self)@.tracker, file.size),
                _ => old(self)@.tracker,
            }),
            final(self)@.files == old(self)@.files,
            final(self)@.next == old(self)@.next,
            final(self)@.opening == old(self)@.opening,
            final(self)@.current == old(self)@.current,
            final(self)@.inbox == old(self)@.inbox,
    {
        match action {
            ZmodemAction::WriteWire(bytes) => Ok(UploadStep::SendWire(bytes)),
            ZmodemAction::ReadFile { offset, max_len } => match &self.current {
                Some(file) => Ok(UploadStep::ReadFile { index: file.index, offset, max_len }),
                None => Err(ZmodemSessionError::NoOpenUploadFile),
            },
            ZmodemAction::FileCompleted => match self.tracker.complete(self.current.as_ref()) {
                Ok(progress) => Ok(UploadStep::FileCompleted(progress)),
                Err(e) => Err(ZmodemSessionError::Progress(e)),
            },
            ZmodemAction::SessionCompleted => Ok(UploadStep::Complete),
            ZmodemAction::Aborted => Err(ZmodemSessionError::RemoteAborted(ZmodemTransferDirection::Upload)),
            ZmodemAction::FileStarted { .. } => Err(ZmodemSessionError::UnexpectedAction(ZmodemTransferDirection::Upload)),
            ZmodemAction::WriteFile(_) => Err(ZmodemSessionError::UnexpectedAction(ZmodemTransferDirection::Upload)),
            ZmodemAction::Idle => Ok(UploadStep::Idle),
            ZmodemAction::OtherEvent => Ok(UploadStep::Continue),
            ZmodemAction::Other => Ok(UploadStep::Continue),
        }
    }

    /// `n` wire bytes of a `SendWire` step were written.
    pub fn wire_sent(&mut self, n: usize)
        requires
            old(self).wf(),
        ensures
            final(self).wf(),
            final(self)@ == old(self)@,
    {
        sender_wire_written(&mut self.sender, n)
    }

    /// The bytes read for a `ReadFile` step at `offset`: the sender takes
    /// them, and the current file's progress rises to their end.
    pub fn file_chunk(&mut self, offset: u32, data: &[u8]) -> (r: Result<ZmodemTransferProgress, ZmodemSessionError>)
        requires
            old(self).wf(),
        ensures
            final(self).wf(),
            final(self)@.files == old(self)@.files,
            final(self)@.next == old(self)@.next,
            final(self)@.opening == old(self)@.opening,
            final(self)@.current == old(self)@.current,
            final(self)@.inbox == old(self)@.inbox,
            old(self)@.current is None ==> r == Err::<ZmodemTransferProgress, ZmodemSessionError>(
                ZmodemSessionError::NoOpenUploadFile,
            ) && final(self)@.tracker == old(self)@.tracker,
            r == Err::<ZmodemTransferProgress, ZmodemSessionError>(ZmodemSessionError::SubmitFileData)
                ==> final(self)@.tracker == old(self)@.tracker,
            r is Ok ==> (old(self)@.current matches Some(file) && {
                &&& final(self)@.tracker == upload_after_read(old(self)@.tracker, file.size, offset, data@.len() as usize)
                &&& r == Ok::<ZmodemTransferProgress, ZmodemSessionError>(upload_snapshot(final(self)@.tracker, file))
            }),
            r is Err ==> r == Err::<ZmodemTransferProgress, ZmodemSessionError>(ZmodemSessionError::NoOpenUploadFile)
                || r == Err::<ZmodemTransferProgress, ZmodemSessionError>(ZmodemSessionError::SubmitFileData),
    {
        if self.current.is_none() {
            return Err(ZmodemSessionError::NoOpenUploadFile);
        }
        if !sender_submit_file(&mut self.sender, data) {
            return Err(ZmodemSessionError::SubmitFileData);
        }
        match self.tracker.advance(self.current.as_ref(), offset, data.len()) {
            Ok(progress) => Ok(progress),
            Err(e) => Err(ZmodemSessionError::Progress(e)),
        }
    }

    /// Hands the pending wire bytes to the sender. `Ok(true)` when it took
    /// some (they leave the front of the pending bytes, and the run of
    /// timeouts ends); `Ok(false)` when there was nothing or it took none.
    pub fn feed(&mut self) -> (r: Result<bool, ZmodemSessionError>)
        requires
            old(self).wf(),
        ensures
            final(self).wf(),
            final(self)@.tracker == old(self)@.tracker,
            final(self)@.files == old(self)@.files,
            final(self)@.next == old(self)@.next,
            final(self)@.opening == old(self)@.opening,
            final(self)@.current == old(self)@.current,
            final(self)@.inbox.received == old(self)@.inbox.received,
            old(self)@.inbox.pending.len() == 0 ==> r == Ok::<bool, ZmodemSessionError>(false),
            r is Err ==> r == Err::<bool, ZmodemSessionError>(
                ZmodemSessionError::ProcessWire(ZmodemTransferDirection::Upload),
            ),
            r == Ok::<bool, ZmodemSessionError>(true) ==> {
                &&& final(self)@.inbox.timeouts == 0
                &&& final(self)@.inbox.pending.len() < old(self)@.inbox.pending.len()
                &&& old(self)@.inbox.pending == (final(self)@.inbox.fed.subrange(
                    old(self)@.inbox.fed.len() as int,
                    final(self)@.inbox.fed.len() as int,
                ) + final(self)@.inbox.pending)
            },
            r != Ok::<bool, ZmodemSessionError>(true) ==> final(self)@.inbox == old(self)@.inbox,
    {
        if self.inbox.pending.len() == 0 {
            return Ok(false);
        }
        let consumed = match sender_submit_wire(&mut self.sender, self.inbox.pending.as_slice()) {
            Some(consumed) => consumed,
            None => return Err(ZmodemSessionError::ProcessWire(ZmodemTransferDirection::Upload)),
        };
        if consumed == 0 {
            return Ok(false);
        }
        let ghost before = self.inbox@;
        self.inbox.consume(consumed);
        assert(self.inbox@.fed.subrange(before.fed.len() as int, self.inbox@.fed.len() as int)
            =~= before.pending.subrange(0, consumed as int));
        assert(before.pending =~= before.pending.subrange(0, consumed as int) + self.inbox@.pending);
        Ok(true)
    }

    /// What the channel delivered: `Some` bytes join the pending ones; `None`
    /// (a read timed out) counts a timeout, ends the transfer at the limit,
    /// and otherwise lets the sender repeat its handshake.
    pub fn wire_received(&mut self, data: Option<Vec<u8>>) -> (r: Result<(), ZmodemSessionError>)
        requires
            old(self).wf(),
        ensures
            final(self)@.tracker == old(self)@.tracker,
            final(self)@.files == old(self)@.files,
            final(self)@.next == old(self)@.next,
            final(self)@.opening == old(self)@.opening,
            final(self)@.current == old(self)@.current,
            final(self)@.inbox.fed == old(self)@.inbox.fed,
            match data {
                Some(bytes) => {
                    &&& r is Ok
                    &&& final(self).wf()
                    &&& final(self)@.inbox.pending == old(self)@.inbox.pending + bytes@
                    &&& final(self)@.inbox.received == old(self)@.inbox.received + bytes@
                    &&& final(self)@.inbox.timeouts == old(self)@.inbox.timeouts
                },
                None => {
                    &&& final(self)@.inbox.pending == old(self)@.inbox.pending
                    &&& final(self)@.inbox.timeouts == old(self)@.inbox.timeouts + 1
                    &&& (old(self)@.inbox.timeouts + 1 >= MAX_PROTOCOL_TIMEOUTS <==> r == Err::<(), ZmodemSessionError>(
                        ZmodemSessionError::TimedOut(ZmodemTransferDirection::Upload),
                    ))
                    &&& (r is Err && old(self)@.inbox.timeouts + 1 < MAX_PROTOCOL_TIMEOUTS) ==> r == Err::<(), ZmodemSessionError>(
                        ZmodemSessionError::Retry(ZmodemTransferDirection::Upload),
                    )
                    &&& r is Ok ==> final(self).wf()
                },
            },
    {
        let timed_out = data.is_none();
        let limit = self.inbox.receive(data);
        if !timed_out {
            return Ok(());
        }
        if limit {
            return Err(ZmodemSessionError::TimedOut(ZmodemTransferDirection::Upload));
        }
        if !sender_timeout(&mut self.sender) {
            return Err(ZmodemSessionError::Retry(ZmodemTransferDirection::Upload));
        }
        Ok(())
    }

    /// Wire bytes the sender still has queued once the session completed;
    /// `None` when it asks for anything else.
    pub fn next_wire(&mut self) -> (r: Option<Vec<u8>>)
        requires
            old(self).wf(),
        ensures
            final(self).wf(),
            final(self)@ == old(self)@,
            r matches Some(bytes) ==> bytes@.len() > 0,
    {
        match sender_poll(&mut self.sender) {
            ZmodemAction::WriteWire(bytes) => Some(bytes),
            _ => None,
        }
    }

    /// The wire bytes the sender never consumed: they belong to the terminal.
    pub fn into_pending(self) -> (r: Vec<u8>)
        ensures
            r@ == self@.inbox.pending,
    {
        self.inbox.into_pending()
    }
}

/// What a download asks its caller to do next.
#[derive(Debug, PartialEq, Eq)]
pub enum DownloadStep {
    /// Write these bytes to the channel, then report them with `wire_sent`.
    SendWire(Vec<u8>),
    /// Append these bytes to the current file, then report them with
    /// `file_bytes_written`.
    WriteFile(Vec<u8>),
    /// The remote side offers a file: create it, then call `file_opened`.
    OpenFile { name: Vec<u8>, size: Option<u32> },
    /// The current file is complete: flush it, then call `file_finished`.
    FileCompleted,
    /// The session is over and the machine has nothing left to send.
    Finish,
    /// Feed pending wire bytes, or wait for more.
    Idle,
    /// Poll again.
    Continue,
}

/// What a download session holds.
pub struct DownloadSessionView {
    pub transfer_id: ZmodemTransferId,
    pub file_index: usize,
    pub completed: u64,
    pub current: Option<DownloadCurrentFile>,
    pub session_complete: bool,
    pub inbox: WireInboxView,
}

/// The decision a download takes on the receiver's `action`.
pub open spec fn download_step(
    action: ZmodemAction,
    current: Option<DownloadCurrentFile>,
    session_complete: bool,
) -> Result<DownloadStep, ZmodemSessionError> {
    match action {
        ZmodemAction::WriteWire(bytes) => Ok(DownloadStep::SendWire(bytes)),
        ZmodemAction::WriteFile(bytes) => match current {
            Some(_) => Ok(DownloadStep::WriteFile(bytes)),
            None => Err(ZmodemSessionError::NoOpenDownloadFile),
        },
        ZmodemAction::FileStarted { name, size } => Ok(DownloadStep::OpenFile { name, size }),
        ZmodemAction::FileCompleted => match current {
            Some(_) => Ok(DownloadStep::FileCompleted),
            None => Err(ZmodemSessionError::NoDownloadFileToComplete),
        },
        ZmodemAction::SessionCompleted => Ok(DownloadStep::Continue),
        ZmodemAction::Aborted => Err(ZmodemSessionError::RemoteAborted(ZmodemTransferDirection::Download)),
        ZmodemAction::OtherEvent => Err(ZmodemSessionError::UnexpectedAction(ZmodemTransferDirection::Download)),
        ZmodemAction::ReadFile { .. } => Err(ZmodemSessionError::UnexpectedAction(ZmodemTransferDirection::Download)),
        ZmodemAction::Idle => if session_complete {
            Ok(DownloadStep::Finish)
        } else {
            Ok(DownloadStep::Idle)
        },
        ZmodemAction::Other => Ok(DownloadStep::Continue),
    }
}

/// Drives the receiving side of a transfer.
pub struct DownloadSession {
    receiver: Receiver,
    tracker: DownloadProgressTracker,
    current: Option<DownloadCurrentFile>,
    session_complete: bool,
    inbox: WireInbox,
}

impl View for DownloadSession {
    type V = DownloadSessionView;

    closed spec fn view(&self) -> DownloadSessionView {
        DownloadSessionView {
            transfer_id: self.tracker.transfer_id,
            file_index: self.tracker.file_index,
            completed: self.tracker.completed,
            current: self.current,
            session_complete: self.session_complete,
            inbox: self.inbox@,
        }
    }
}

impl DownloadSession {
    pub closed spec fn wf(&self) -> bool {
        inbox_wf(self.inbox@)
    }

    /// A session with `initial_wire` (the remote offer that started it)
    /// pending. Where that offer is there, the handshake the receiver queued
    /// on its own is dropped, so that it answers the offer only once. Only
    /// creating the receiver can fail.
    pub fn new(initial_wire: Vec<u8>, transfer_id: ZmodemTransferId) -> (r: Result<Self, ZmodemSessionError>)
        ensures
            r is Err ==> r == Err::<Self, ZmodemSessionError>(ZmodemSessionError::CreateReceiver),
            r matches Ok(s) ==> {
                &&& s.wf()
                &&& s@.transfer_id == transfer_id
                &&& s@.file_index == 0
                &&& s@.completed == 0
                &&& s@.current is None
                &&& !s@.session_complete
                &&& s@.inbox.pending == initial_wire@
                &&& s@.inbox.received == initial_wire@
                &&& s@.inbox.fed == Seq::<u8>::empty()
                &&& s@.inbox.timeouts == 0
            },
    {
        let mut receiver = match receiver_new() {
            Some(receiver) => receiver,
            None => return Err(ZmodemSessionError::CreateReceiver),
        };
        if initial_wire.len() > 0 {
            if let ZmodemAction::WriteWire(premature) = receiver_poll(&mut receiver) {
                receiver_wire_written(&mut receiver, premature.len());
            }
        }
        Ok(DownloadSession {
            receiver,
            tracker: DownloadProgressTracker::new(transfer_id),
            current: None,
            session_complete: false,
            inbox: WireInbox::new(initial_wire),
        })
    }

    /// What the receiver asks for next. Its answer depends on the protocol
    /// state, so only that the session's own state stays is stated.
    pub fn poll(&mut self) -> (r: ZmodemAction)
        requires
            old(self).wf(),
        ensures
            final(self).wf(),
            final(self)@ == old(self)@,
    {
        receiver_poll(&mut self.receiver)
    }

    /// The decision on the receiver's `action`; the end of the session is
    /// remembered until the receiver falls idle.
    pub fn apply(&mut self, action: ZmodemAction) -> (r: Result<DownloadStep, ZmodemSessionError>)
        requires
            old(self).wf(),
        ensures
            final(self).wf(),
            r == download_step(action, old(self)@.current, old(self)@.session_complete),
            final(self)@.session_complete == (old(self)@.session_complete || action == ZmodemAction::SessionCompleted),
            final(self)@.transfer_id == old(self)@.transfer_id,
            final(self)@.file_index == old(self)@.file_index,
            final(self)@.completed == old(self)@.completed,
            final(self)@.current == old(self)@.current,
            final(self)@.inbox == old(self)@.inbox,
    {
        match action {
            ZmodemAction::WriteWire(bytes) => Ok(DownloadStep::SendWire(bytes)),
            ZmodemAction::WriteFile(bytes) => match &self.current {
                Some(_) => Ok(DownloadStep::WriteFile(bytes)),
                None => Err(ZmodemSessionError::NoOpenDownloadFile),
            },
            ZmodemAction::FileStarted { name, size } => Ok(DownloadStep::OpenFile { name, size }),
            ZmodemAction::FileCompleted => match &self.current {
                Some(_) => Ok(DownloadStep::FileCompleted),
                None => Err(ZmodemSessionError::NoDownloadFileToComplete),
            },
            ZmodemAction::SessionCompleted => {
                self.session_complete = true;
                Ok(DownloadStep::Continue)
            },
            ZmodemAction::Aborted => Err(ZmodemSessionError::RemoteAborted(ZmodemTransferDirection::Download)),
            ZmodemAction::OtherEvent => Err(ZmodemSessionError::UnexpectedAction(ZmodemTransferDirection::Download)),
            ZmodemAction::ReadFile { .. } => Err(ZmodemSessionError::UnexpectedAction(ZmodemTransferDirection::Download)),
            ZmodemAction::Idle => if self.session_complete {
                Ok(DownloadStep::Finish)
            } else {
                Ok(DownloadStep::Idle)
            },
            ZmodemAction::Other => Ok(DownloadStep::Continue),
        }
    }

    /// `n` wire bytes of a `SendWire` step were written.
    pub fn wire_sent(&mut self, n: usize)
        requires
            old(self).wf(),
        ensures
            final(self).wf(),
            final(self)@ == old(self)@,
    {
        receiver_wire_written(&mut self.receiver, n)
    }

    /// The file of an `OpenFile` step was created: it becomes the current
    /// file (its name shown as text, nothing written yet), and the snapshot
    /// that opens it is returned.
    pub fn file_opened(&mut self, name: &[u8], size: Option<u32>) -> (r: ZmodemTransferProgress)
        requires
            old(self).wf(),
        ensures
            final(self).wf(),
            final(self)@.current matches Some(file) && file.remote_name@ == crate::text::utf8_lossy_decoding(name@)
                && file.advertised_size == (match size {
                Some(s) => Some(s as u64),
                None => None,
            }) && file.written == 0 && r == download_snapshot(
                old(self)@.transfer_id,
                old(self)@.file_index,
                file,
                0,
                0,
            ),
            final(self)@.transfer_id == old(self)@.transfer_id,
            final(self)@.file_index == old(self)@.file_index,
            final(self)@.completed == old(self)@.completed,
            final(self)@.session_complete == old(self)@.session_complete,
            final(self)@.inbox == old(self)@.inbox,
    {
        let file = DownloadCurrentFile {
            remote_name: utf8_lossy(name),
            advertised_size: match size {
                Some(s) => Some(s as u64),
                None => None,
            },
            written: 0,
        };
        let progress = self.tracker.start_file(&file);
        self.current = Some(file);
        progress
    }

    /// `n` bytes of a `WriteFile` step were written to the current file:
    /// they count towards it, the snapshot shows them, and the receiver is
    /// told.
    pub fn file_bytes_written(&mut self, n: usize) -> (r: Result<Option<ZmodemTransferProgress>, ZmodemSessionError>)
        requires
            old(self).wf(),
        ensures
            final(self).wf(),
            final(self)@.transfer_id == old(self)@.transfer_id,
            final(self)@.file_index == old(self)@.file_index,
            final(self)@.completed == old(self)@.completed,
            final(self)@.session_complete == old(self)@.session_complete,
            final(self)@.inbox == old(self)@.inbox,
            match old(self)@.current {
                Some(file) => final(self)@.current matches Some(now) && now.remote_name == file.remote_name
                    && now.advertised_size == file.advertised_size
                    && now.written == file.written.saturating_add(n as u64) && (r is Ok ==> r == Ok::<
                    Option<ZmodemTransferProgress>,
                    ZmodemSessionError,
                >(
                    Some(
                        download_snapshot(
                            old(self)@.transfer_id,
                            old(self)@.file_index,
                            now,
                            now.written,
                            old(self)@.completed.saturating_add(now.written),
                        ),
                    ),
                )),
                None => final(self)@.current is None && (r is Ok ==> r == Ok::<
                    Option<ZmodemTransferProgress>,
                    ZmodemSessionError,
                >(None)),
            },
            r is Err ==> r == Err::<Option<ZmodemTransferProgress>, ZmodemSessionError>(
                ZmodemSessionError::AcknowledgeFileData,
            ),
    {
        let mut progress = None;
        match &mut self.current {
            Some(file) => {
                file.record_written(n as u64);
            },
            None => {},
        }
        match &self.current {
            Some(file) => {
                progress = self.tracker.advance(Some(file));
            },
            None => {},
        }
        if !receiver_file_written(&mut self.receiver, n) {
            return Err(ZmodemSessionError::AcknowledgeFileData);
        }
        Ok(progress)
    }

    /// The current file of a `FileCompleted` step was flushed: its bytes join
    /// the completed ones, the file index moves on, and no file is open.
    pub fn file_finished(&mut self) -> (r: Option<ZmodemTransferProgress>)
        requires
            old(self).wf(),
        ensures
            final(self).wf(),
            final(self)@.current is None,
            final(self)@.transfer_id == old(self)@.transfer_id,
            final(self)@.session_complete == old(self)@.session_complete,
            final(self)@.inbox == old(self)@.inbox,
            match old(self)@.current {
                Some(file) => {
                    &&& final(self)@.completed == old(self)@.completed.saturating_add(file.written)
                    &&& final(self)@.file_index == old(self)@.file_index.saturating_add(1)
                    &&& r == Some(
                        download_snapshot(
                            final(self)@.transfer_id,
                            final(self)@.file_index,
                            file,
                            file.written,
                            final(self)@.completed,
                        ),
                    )
                },
                None => {
                    &&& final(self)@.completed == old(self)@.completed
                    &&& final(self)@.file_index == old(self)@.file_index
                    &&& r is None
                },
            },
    {
        let progress = self.tracker.complete(self.current.as_ref());
        self.current = None;
        progress
    }

    /// Hands the pending wire bytes to the receiver; as `UploadSession::feed`.
    pub fn feed(&mut self) -> (r: Result<bool, ZmodemSessionError>)
        requires
            old(self).wf(),
        ensures
            final(self).wf(),
            final(self)@.transfer_id == old(self)@.transfer_id,
            final(self)@.file_index == old(self)@.file_index,
            final(self)@.completed == old(self)@.completed,
            final(self)@.current == old(self)@.current,
            final(self)@.session_complete == old(self)@.session_complete,
            final(self)@.inbox.received == old(self)@.inbox.received,
            old(self)@.inbox.pending.len() == 0 ==> r == Ok::<bool, ZmodemSessionError>(false),
            r is Err ==> r == Err::<bool, ZmodemSessionError>(
                ZmodemSessionError::ProcessWire(ZmodemTransferDirection::Download),
            ),
            r == Ok::<bool, ZmodemSessionError>(true) ==> {
                &&& final(self)@.inbox.timeouts == 0
                &&& final(self)@.inbox.pending.len() < old(self)@.inbox.pending.len()
                &&& old(self)@.inbox.pending == (final(self)@.inbox.fed.subrange(
                    old(self)@.inbox.fed.len() as int,
                    final(self)@.inbox.fed.len() as int,
                ) + final(self)@.inbox.pending)
            },
            r != Ok::<bool, ZmodemSessionError>(true) ==> final(self)@.inbox == old(self)@.inbox,
    {
        if self.inbox.pending.len() == 0 {
            return Ok(false);
        }
        let consumed = match receiver_submit_wire(&mut self.receiver, self.inbox.pending.as_slice()) {
            Some(consumed) => consumed,
            None => return Err(ZmodemSessionError::ProcessWire(ZmodemTransferDirection::Download)),
        };
        if consumed == 0 {
            return Ok(false);
        }
        let ghost before = self.inbox@;
        self.inbox.consume(consumed);
        assert(self.inbox@.fed.subrange(before.fed.len() as int, self.inbox@.fed.len() as int)
            =~= before.pending.subrange(0, consumed as int));
        assert(before.pending =~= before.pending.subrange(0, consumed as int) + self.inbox@.pending);
        Ok(true)
    }

    /// What the channel delivered; as `UploadSession::wire_received`, with the
    /// receiver repeating its handshake on a timeout.
    pub fn wire_received(&mut self, data: Option<Vec<u8>>) -> (r: Result<(), ZmodemSessionError>)
        requires
            old(self).wf(),
        ensures
            final(self)@.transfer_id == old(self)@.transfer_id,
            final(self)@.file_index == old(self)@.file_index,
            final(self)@.completed == old(self)@.completed,
            final(self)@.current == old(self)@.current,
            final(self)@.session_complete == old(self)@.session_complete,
            final(self)@.inbox.fed == old(self)@.inbox.fed,
            match data {
                Some(bytes) => {
                    &&& r is Ok
                    &&& final(self).wf()
                    &&& final(self)@.inbox.pending == old(self)@.inbox.pending + bytes@
                    &&& final(self)@.inbox.received == old(self)@.inbox.received + bytes@
                    &&& final(self)@.inbox.timeouts == old(self)@.inbox.timeouts
                },
                None => {
                    &&& final(self)@.inbox.pending == old(self)@.inbox.pending
                    &&& final(self)@.inbox.timeouts == old(self)@.inbox.timeouts + 1
                    &&& (old(self)@.inbox.timeouts + 1 >= MAX_PROTOCOL_TIMEOUTS <==> r == Err::<(), ZmodemSessionError>(
                        ZmodemSessionError::TimedOut(ZmodemTransferDirection::Download),
                    ))
                    &&& (r is Err && old(self)@.inbox.timeouts + 1 < MAX_PROTOCOL_TIMEOUTS) ==> r == Err::<(), ZmodemSessionError>(
                        ZmodemSessionError::Retry(ZmodemTransferDirection::Download),
                    )
                    &&& r is Ok ==> final(self).wf()
                },
            },
    {
        let timed_out = data.is_none();
        let limit = self.inbox.receive(data);
        if !timed_out {
            return Ok(());
        }
        if limit {
            return Err(ZmodemSessionError::TimedOut(ZmodemTransferDirection::Download));
        }
        if !receiver_timeout(&mut self.receiver) {
            return Err(ZmodemSessionError::Retry(ZmodemTransferDirection::Download));
        }
        Ok(())
    }

    /// The wire bytes the receiver never consumed: they belong to the
    /// terminal once the session's closing bytes are dropped.
    pub fn into_pending(self) -> (r: Vec<u8>)
        ensures
            r@ == self@.inbox.pending,
    {
        self.inbox.into_pending()
    }
}

/// No wire byte that reached an upload is lost or reordered on its way to
/// the sender: the bytes it consumed, then those still pending, are exactly
/// the bytes received; and the session never holds the timeout limit.
pub proof fn lemma_upload_wire_is_conserved(session: &UploadSession)
    requires
        session.wf(),
    ensures
        session@.inbox.fed + session@.inbox.pending == session@.inbox.received,
        session@.inbox.timeouts < MAX_PROTOCOL_TIMEOUTS,
{
}

/// The same for a download and its receiver.
pub proof fn lemma_download_wire_is_conserved(session: &DownloadSession)
    requires
        session.wf(),
    ensures
        session@.inbox.fed + session@.inbox.pending == session@.inbox.received,
        session@.inbox.timeouts < MAX_PROTOCOL_TIMEOUTS,
{
}

} // verus!
