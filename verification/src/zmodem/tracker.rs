//! Progress bookkeeping for a running upload or download: how far the current
//! file and the whole transfer have got, as the snapshots that the terminal
//! shows.

use vstd::prelude::*;
use crate::zmodem::progress::{ZmodemTransferDirection, ZmodemTransferId, ZmodemTransferProgress};

verus! {

pub open spec fn smaller(a: u64, b: u64) -> u64 {
    if a <= b {
        a
    } else {
        b
    }
}

pub open spec fn larger(a: u64, b: u64) -> u64 {
    if a >= b {
        a
    } else {
        b
    }
}

/// The sum of the file sizes of an upload.
pub open spec fn sum_sizes(sizes: Seq<u32>) -> nat
    decreases sizes.len(),
{
    if sizes.len() == 0 {
        0
    } else {
        sum_sizes(sizes.drop_last()) + (sizes.last() as nat)
    }
}

/// Why a progress update could not be made.
#[derive(Clone, Copy, Debug, PartialEq, Eq, Structural)]
pub enum ZmodemProgressError {
    /// The upload queue held no file to start with.
    NoFileToStart,
    /// The sender asked for data while no file was open.
    NoCurrentFile,
    /// The sender reported a finished file while none was open.
    NoFileToComplete,
}

impl ZmodemProgressError {
    pub fn message(&self) -> (r: &'static str)
        ensures
            r@ == (match self {
                ZmodemProgressError::NoFileToStart => "ZMODEM upload has no file to start"@,
                ZmodemProgressError::NoCurrentFile => "ZMODEM upload progress has no current file"@,
                ZmodemProgressError::NoFileToComplete => "ZMODEM completed without a current upload file"@,
            }),
    {
        match self {
            ZmodemProgressError::NoFileToStart => "ZMODEM upload has no file to start",
            ZmodemProgressError::NoCurrentFile => "ZMODEM upload progress has no current file",
            ZmodemProgressError::NoFileToComplete => "ZMODEM completed without a current upload file",
        }
    }
}

/// The file that an upload is sending: its name as shown, its place in the
/// queue and its size.
#[derive(Clone, Debug, PartialEq, Eq)]
pub struct UploadCurrentFile {
    pub name: String,
    pub index: usize,
    pub size: u64,
}

/// What the upload tracker holds.
pub struct UploadTrackerView {
    pub transfer_id: ZmodemTransferId,
    pub file_count: usize,
    pub total: u64,
    pub completed: u64,
    pub high_water: u64,
}

/// The bytes of the whole upload that a snapshot reports as sent: the
/// finished files and the furthest point reached in the current one.
pub open spec fn upload_transferred(v: UploadTrackerView) -> u64 {
    smaller(v.completed.saturating_add(v.high_water), v.total)
}

pub open spec fn upload_snapshot(v: UploadTrackerView, current: UploadCurrentFile) -> ZmodemTransferProgress {
    ZmodemTransferProgress {
        transfer_id: v.transfer_id,
        direction: ZmodemTransferDirection::Upload,
        file_name: current.name,
        file_index: current.index,
        file_count: v.file_count,
        current_file_transferred: smaller(v.high_water, current.size),
        current_file_total: current.size,
        transferred: upload_transferred(v),
        total: v.total,
    }
}

/// The sender read `read` bytes of the current file from `offset` on: the
/// furthest point reached rises to that read's end, capped at the file size.
pub open spec fn upload_after_read(v: UploadTrackerView, size: u64, offset: u32, read: usize) -> UploadTrackerView {
    UploadTrackerView {
        high_water: larger(v.high_water, smaller((offset as u64).saturating_add(read as u64), size)),
        ..v
    }
}

/// The current file is finished: all of it counts, and it joins the
/// completed bytes (capped at the total).
pub open spec fn upload_after_complete(v: UploadTrackerView, size: u64) -> UploadTrackerView {
    UploadTrackerView {
        high_water: size,
        completed: smaller(v.completed.saturating_add(size), v.total),
        ..v
    }
}

/// A new file starts from its beginning.
pub open spec fn upload_after_start(v: UploadTrackerView) -> UploadTrackerView {
    UploadTrackerView { high_water: 0, ..v }
}

/// Tracks an upload: the file count and total size fixed at the start, the
/// bytes of the files already finished and how far the current one got.
pub struct UploadProgressTracker {
    transfer_id: ZmodemTransferId,
    file_count: usize,
    total: u64,
    completed: u64,
    current_high_water: u64,
}

impl View for UploadProgressTracker {
    type V = UploadTrackerView;

    closed spec fn view(&self) -> UploadTrackerView {
        UploadTrackerView {
            transfer_id: self.transfer_id,
            file_count: self.file_count,
            total: self.total,
            completed: self.completed,
            high_water: self.current_high_water,
        }
    }
}

impl UploadProgressTracker {
    /// The finished bytes never exceed the total.
    pub open spec fn wf(&self) -> bool {
        self@.completed <= self@.total
    }

    /// A tracker for an upload of files of the given sizes.
    pub fn new(sizes: &Vec<u32>, transfer_id: ZmodemTransferId) -> (r: Self)
        requires
            sum_sizes(sizes@) <= u64::MAX,
        ensures
            r.wf(),
            r@.transfer_id == transfer_id,
            r@.file_count == sizes.len(),
            r@.total == sum_sizes(sizes@),
            r@.completed == 0,
            r@.high_water == 0,
    {
        let mut total: u64 = 0;
        let mut i: usize = 0;
        while i < sizes.len()
            invariant
                i <= sizes.len(),
                total == sum_sizes(sizes@.subrange(0, i as int)),
                sum_sizes(sizes@) <= u64::MAX,
            decreases sizes.len() - i,
        {
            proof {
                assert(sizes@.subrange(0, i + 1).drop_last() == sizes@.subrange(0, i as int));
                lemma_sum_prefix_bounded(sizes@, i + 1);
            }
            total = total + sizes[i] as u64;
            i = i + 1;
        }
        proof {
            assert(sizes@.subrange(0, sizes@.len() as int) == sizes@);
        }
        UploadProgressTracker { transfer_id, file_count: sizes.len(), total, completed: 0, current_high_water: 0 }
    }

    /// Where the next file from a queue that still holds `remaining` files
    /// stands among all of them.
    pub fn next_file_index(&self, remaining: usize) -> (r: usize)
        ensures
            r == self@.file_count.saturating_sub(remaining),
    {
        self.file_count.saturating_sub(remaining)
    }

    /// The first snapshot of the upload, taken on its first file.
    pub fn begin(&self, current: Option<&UploadCurrentFile>) -> (r: Result<ZmodemTransferProgress, ZmodemProgressError>)
        ensures
            match current {
                Some(file) => r == Ok::<ZmodemTransferProgress, ZmodemProgressError>(upload_snapshot(self@, *file)),
                None => r == Err::<ZmodemTransferProgress, ZmodemProgressError>(ZmodemProgressError::NoFileToStart),
            },
    {
        match current {
            Some(file) => Ok(self.snapshot(file)),
            None => Err(ZmodemProgressError::NoFileToStart),
        }
    }

    /// A new file starts (or the queue ran out): the current file's progress
    /// starts again from 0, and a snapshot is taken if there is a file.
    pub fn start_file(&mut self, current: Option<&UploadCurrentFile>) -> (r: Option<ZmodemTransferProgress>)
        requires
            old(self).wf(),
        ensures
            final(self).wf(),
            final(self)@ == upload_after_start(old(self)@),
            match current {
                Some(file) => r == Some(upload_snapshot(final(self)@, *file)),
                None => r is None,
            },
    {
        self.current_high_water = 0;
        match current {
            Some(file) => Some(self.snapshot(file)),
            None => None,
        }
    }

    /// The sender read `read` bytes of the current file from `offset` on.
    pub fn advance(&mut self, current: Option<&UploadCurrentFile>, offset: u32, read: usize) -> (r: Result<ZmodemTransferProgress, ZmodemProgressError>)
        requires
            old(self).wf(),
        ensures
            final(self).wf(),
            match current {
                Some(file) => {
                    &&& final(self)@ == upload_after_read(old(self)@, file.size, offset, read)
                    &&& r == Ok::<ZmodemTransferProgress, ZmodemProgressError>(upload_snapshot(final(self)@, *file))
                },
                None => {
                    &&& final(self)@ == old(self)@
                    &&& r == Err::<ZmodemTransferProgress, ZmodemProgressError>(ZmodemProgressError::NoCurrentFile)
                },
            },
            upload_transferred(final(self)@) >= upload_transferred(old(self)@),
    {
        let file = match current {
            Some(file) => file,
            None => return Err(ZmodemProgressError::NoCurrentFile),
        };
        let end = (offset as u64).saturating_add(read as u64);
        let position = if end <= file.size {
            end
        } else {
            file.size
        };
        if position > self.current_high_water {
            self.current_high_water = position;
        }
        Ok(self.snapshot(file))
    }

    /// The current file is finished. The snapshot shows all of it sent; the
    /// file's size then joins the finished bytes.
    pub fn complete(&mut self, current: Option<&UploadCurrentFile>) -> (r: Result<ZmodemTransferProgress, ZmodemProgressError>)
        requires
            old(self).wf(),
        ensures
            final(self).wf(),
            match current {
                Some(file) => {
                    &&& final(self)@ == upload_after_complete(old(self)@, file.size)
                    &&& r == Ok::<ZmodemTransferProgress, ZmodemProgressError>(
                        upload_snapshot((UploadTrackerView { high_water: file.size, ..old(self)@ }), *file),
                    )
                },
                None => {
                    &&& final(self)@ == old(self)@
                    &&& r == Err::<ZmodemTransferProgress, ZmodemProgressError>(ZmodemProgressError::NoFileToComplete)
                },
            },
    {
        let file = match current {
            Some(file) => file,
            None => return Err(ZmodemProgressError::NoFileToComplete),
        };
        self.current_high_water = file.size;
        let snapshot = self.snapshot(file);
        let completed = self.completed.saturating_add(file.size);
        self.completed = if completed <= self.total {
            completed
        } else {
            self.total
        };
        Ok(snapshot)
    }

    /// The snapshot of the upload on the given current file.
    pub fn snapshot(&self, current: &UploadCurrentFile) -> (r: ZmodemTransferProgress)
        ensures
            r == upload_snapshot(self@, *current),
    {
        let current_file_transferred = if self.current_high_water <= current.size {
            self.current_high_water
        } else {
            current.size
        };
        let sum = self.completed.saturating_add(self.current_high_water);
        let transferred = if sum <= self.total {
            sum
        } else {
            self.total
        };
        ZmodemTransferProgress {
            transfer_id: self.transfer_id,
            direction: ZmodemTransferDirection::Upload,
            file_name: current.name.clone(),
            file_index: current.index,
            file_count: self.file_count,
            current_file_transferred,
            current_file_total: current.size,
            transferred,
            total: self.total,
        }
    }
}

proof fn lemma_sum_prefix_bounded(sizes: Seq<u32>, n: int)
    requires
        0 <= n <= sizes.len(),
    ensures
        sum_sizes(sizes.subrange(0, n)) <= sum_sizes(sizes),
    decreases sizes.len() - n,
{
    if n < sizes.len() {
        lemma_sum_prefix_bounded(sizes, n + 1);
        assert(sizes.subrange(0, n + 1).drop_last() == sizes.subrange(0, n));
    } else {
        assert(sizes.subrange(0, n) == sizes);
    }
}

/// The total an upload reports never goes back: reading more of a file,
/// finishing it (while the furthest point reached lies within it) and
/// starting the next file each report at least as much as before, and the
/// next file starts from exactly the total that the finished one reported.
pub proof fn lemma_upload_total_never_decreases(v: UploadTrackerView, size: u64, offset: u32, read: usize)
    requires
        v.completed <= v.total,
        v.high_water <= size,
    ensures
        upload_transferred(upload_after_read(v, size, offset, read)) >= upload_transferred(v),
        upload_transferred((UploadTrackerView { high_water: size, ..v })) >= upload_transferred(v),
        upload_transferred(upload_after_start(upload_after_complete(v, size)))
            == upload_transferred((UploadTrackerView { high_water: size, ..v })),
        upload_after_complete(v, size).completed <= upload_after_complete(v, size).total,
{
}

/// The file that a download is writing: its name as the remote side sent
/// it, the size it announced (if any) and how many bytes were written.
#[derive(Clone, Debug, PartialEq, Eq)]
pub struct DownloadCurrentFile {
    pub remote_name: String,
    pub advertised_size: Option<u64>,
    pub written: u64,
}

impl DownloadCurrentFile {
    /// `count` more bytes were written to the file (saturating).
    pub fn record_written(&mut self, count: u64)
        ensures
            final(self).written == old(self).written.saturating_add(count),
            final(self).remote_name == old(self).remote_name,
            final(self).advertised_size == old(self).advertised_size,
    {
        self.written = self.written.saturating_add(count);
    }
}

/// A download snapshot: the current file's progress is shown against its
/// announced size (0 when it announced none); a download knows neither its
/// file count nor its total.
pub open spec fn download_snapshot(
    transfer_id: ZmodemTransferId,
    file_index: usize,
    file: DownloadCurrentFile,
    current_file_transferred: u64,
    transferred: u64,
) -> ZmodemTransferProgress {
    ZmodemTransferProgress {
        transfer_id,
        direction: ZmodemTransferDirection::Download,
        file_name: file.remote_name,
        file_index,
        file_count: 0,
        current_file_transferred: match file.advertised_size {
            Some(size) => smaller(current_file_transferred, size),
            None => 0,
        },
        current_file_total: match file.advertised_size {
            Some(size) => size,
            None => 0,
        },
        transferred,
        total: 0,
    }
}

/// Tracks a download: which file it is on and how many bytes the finished
/// files had.
pub struct DownloadProgressTracker {
    pub transfer_id: ZmodemTransferId,
    pub file_index: usize,
    pub completed: u64,
}

impl DownloadProgressTracker {
    pub fn new(transfer_id: ZmodemTransferId) -> (r: Self)
        ensures
            r.transfer_id == transfer_id,
            r.file_index == 0,
            r.completed == 0,
    {
        DownloadProgressTracker { transfer_id, file_index: 0, completed: 0 }
    }

    /// The snapshot that opens a file; it reports 0 bytes of the transfer.
    pub fn start_file(&self, file: &DownloadCurrentFile) -> (r: ZmodemTransferProgress)
        ensures
            r == download_snapshot(self.transfer_id, self.file_index, *file, file.written, 0),
    {
        self.snapshot(file, 0)
    }

    /// The snapshot after data was written to the current file, if one is
    /// open.
    pub fn advance(&self, current: Option<&DownloadCurrentFile>) -> (r: Option<ZmodemTransferProgress>)
        ensures
            match current {
                Some(file) => r == Some(
                    download_snapshot(
                        self.transfer_id,
                        self.file_index,
                        *file,
                        file.written,
                        self.completed.saturating_add(file.written),
                    ),
                ),
                None => r is None,
            },
    {
        match current {
            Some(file) => {
                let transferred = self.completed.saturating_add(file.written);
                Some(self.snapshot_with_current(file, file.written, transferred))
            },
            None => None,
        }
    }

    /// The current file is finished: its bytes join the finished ones, the
    /// file index moves on, and the snapshot reports the finished bytes.
    pub fn complete(&mut self, current: Option<&DownloadCurrentFile>) -> (r: Option<ZmodemTransferProgress>)
        ensures
            match current {
                Some(file) => {
                    &&& final(self).completed == old(self).completed.saturating_add(file.written)
                    &&& final(self).file_index == old(self).file_index.saturating_add(1)
                    &&& final(self).transfer_id == old(self).transfer_id
                    &&& r == Some(
                        download_snapshot(
                            final(self).transfer_id,
                            final(self).file_index,
                            *file,
                            file.written,
                            final(self).completed,
                        ),
                    )
                },
                None => {
                    &&& *final(self) == *old(self)
                    &&& r is None
                },
            },
    {
        match current {
            Some(file) => {
                self.completed = self.completed.saturating_add(file.written);
                self.file_index = self.file_index.saturating_add(1);
                Some(self.snapshot(file, self.completed))
            },
            None => None,
        }
    }

    /// The snapshot with the file's own written bytes as its progress.
    pub fn snapshot(&self, file: &DownloadCurrentFile, transferred: u64) -> (r: ZmodemTransferProgress)
        ensures
            r == download_snapshot(self.transfer_id, self.file_index, *file, file.written, transferred),
    {
        self.snapshot_with_current(file, file.written, transferred)
    }

    pub fn snapshot_with_current(
        &self,
        file: &DownloadCurrentFile,
        current_file_transferred: u64,
        transferred: u64,
    ) -> (r: ZmodemTransferProgress)
        ensures
            r == download_snapshot(self.transfer_id, self.file_index, *file, current_file_transferred, transferred),
    {
        let shown = match file.advertised_size {
            Some(size) => if current_file_transferred <= size {
                current_file_transferred
            } else {
                size
            },
            None => 0,
        };
        ZmodemTransferProgress {
            transfer_id: self.transfer_id,
            direction: ZmodemTransferDirection::Download,
            file_name: file.remote_name.clone(),
            file_index: self.file_index,
            file_count: 0,
            current_file_transferred: shown,
            current_file_total: match file.advertised_size {
                Some(size) => size,
                None => 0,
            },
            transferred,
            total: 0,
        }
    }
}

} // verus!
