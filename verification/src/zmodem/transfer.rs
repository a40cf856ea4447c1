//! Decisions taken while a ZMODEM transfer runs over the SSH channel.

use vstd::prelude::*;
use crate::zmodem::broker::ZmodemPickerKind;
use crate::zmodem::detector::ZmodemDirection;

verus! {

/// The cancel sequence: eight CAN bytes, then eight backspaces to erase them.
pub const ZCAN: [u8; 16] = [
    0x18, 0x18, 0x18, 0x18, 0x18, 0x18, 0x18, 0x18, 0x08, 0x08, 0x08, 0x08, 0x08, 0x08, 0x08, 0x08,
];

/// How much remote data may pile up while the user picks files.
pub const MAX_PICKER_WIRE_BYTES: usize = 1048576;

/// How many protocol timeouts in a row end a transfer.
pub const MAX_PROTOCOL_TIMEOUTS: usize = 6;

/// Why a transfer step failed.
#[derive(Clone, Copy, Debug, PartialEq, Eq, Structural)]
pub enum ZmodemTransferError {
    /// ZMODEM positions are 32-bit: the file is 4 GiB or larger.
    FileTooLarge,
    /// More remote data arrived during file selection than may be buffered.
    PickerWireOverflow,
    /// The channel reached EOF or closed.
    ChannelClosed,
}

impl ZmodemTransferError {
    pub fn message(&self) -> (r: &'static str)
        ensures
            r@ == (match self {
                ZmodemTransferError::FileTooLarge => "ZMODEM cannot upload files of 4 GiB or larger"@,
                ZmodemTransferError::PickerWireOverflow => "too much ZMODEM data arrived while waiting for file selection"@,
                ZmodemTransferError::ChannelClosed => "SSH channel closed before ZMODEM transfer completed"@,
            }),
    {
        match self {
            ZmodemTransferError::FileTooLarge => "ZMODEM cannot upload files of 4 GiB or larger",
            ZmodemTransferError::PickerWireOverflow =>
                "too much ZMODEM data arrived while waiting for file selection",
            ZmodemTransferError::ChannelClosed => "SSH channel closed before ZMODEM transfer completed",
        }
    }
}

/// What the SSH channel delivered.
#[derive(Debug, PartialEq, Eq)]
pub enum ZmodemChannelEvent {
    /// Data, ordinary or extended.
    Data(Vec<u8>),
    /// End of file, close, or the channel went away.
    Closed,
    /// Anything else (window changes, exit status, ...).
    Other,
}

pub open spec fn picker_kind_for(direction: ZmodemDirection) -> ZmodemPickerKind {
    match direction {
        ZmodemDirection::Upload => ZmodemPickerKind::UploadFiles,
        ZmodemDirection::Download => ZmodemPickerKind::DownloadDirectory,
    }
}

/// An upload asks for files, a download for a target directory.
pub fn picker_kind(direction: ZmodemDirection) -> (r: ZmodemPickerKind)
    ensures
        r == picker_kind_for(direction),
{
    match direction {
        ZmodemDirection::Upload => ZmodemPickerKind::UploadFiles,
        ZmodemDirection::Download => ZmodemPickerKind::DownloadDirectory,
    }
}

/// A file size as a ZMODEM position, refused from 4 GiB on.
pub fn checked_file_size(size: u64) -> (r: Result<u32, ZmodemTransferError>)
    ensures
        size <= u32::MAX ==> r == Ok::<u32, ZmodemTransferError>(size as u32),
        size > u32::MAX ==> r == Err::<u32, ZmodemTransferError>(ZmodemTransferError::FileTooLarge),
{
    if size <= 0xffff_ffff {
        Ok(size as u32)
    } else {
        Err(ZmodemTransferError::FileTooLarge)
    }
}

/// Whether `pending` starts with the CR LF that ends a hex header (the LF may
/// carry the parity bit).
pub open spec fn starts_with_hex_terminator(pending: Seq<u8>) -> bool {
    pending.len() >= 2 && pending[0] == 0x0d && (pending[1] == 0x0a || pending[1] == 0x8a)
}

/// Drops the CR LF that ends a hex header from the front of `pending`.
pub fn strip_hex_header_terminator(pending: &mut Vec<u8>) -> (r: bool)
    ensures
        r == starts_with_hex_terminator(old(pending)@),
        r ==> final(pending)@ == old(pending)@.subrange(2, old(pending)@.len() as int),
        !r ==> final(pending)@ == old(pending)@,
{
    if pending.len() >= 2 && pending[0] == 0x0d && (pending[1] & 0x7f) == 0x0a {
        let b = pending[1];
        assert((b & 0x7f) == 0x0a <==> (b == 0x0a || b == 0x8a)) by (bit_vector);
        let rest = pending.split_off(2);
        *pending = rest;
        true
    } else {
        proof {
            if old(pending)@.len() >= 2 && old(pending)@[0] == 0x0d {
                let b = old(pending)@[1];
                assert((b & 0x7f) == 0x0a <==> (b == 0x0a || b == 0x8a)) by (bit_vector);
            }
        }
        false
    }
}

/// Whether more bytes must arrive before the CR LF that may end a hex header
/// can be told apart: fewer than two are buffered and none of them is
/// anything but a leading CR.
pub fn needs_terminator_bytes(pending: &[u8]) -> (r: bool)
    ensures
        r == (pending@.len() < 2 && (pending@.len() == 0 || pending@[0] == 0x0d)),
{
    pending.len() < 2 && (pending.len() == 0 || pending[0] == 0x0d)
}

/// Whether `pending` starts with the `OO` that closes a session.
pub open spec fn starts_with_session_trailer(pending: Seq<u8>) -> bool {
    pending.len() >= 2 && pending[0] == 0x4f && pending[1] == 0x4f
}

/// After the session ends, drops its closing `OO` from the front of
/// `pending`. Returns `false` when too few bytes are buffered to tell (none,
/// or a single `O`), and `true` when the remaining bytes belong to the
/// terminal.
pub fn strip_session_trailer(pending: &mut Vec<u8>) -> (done: bool)
    ensures
        starts_with_session_trailer(old(pending)@) ==> done && final(pending)@ == old(pending)@.subrange(
            2,
            old(pending)@.len() as int,
        ),
        !starts_with_session_trailer(old(pending)@) ==> final(pending)@ == old(pending)@ && done == !(
        old(pending)@.len() == 0 || (old(pending)@.len() == 1 && old(pending)@[0] == 0x4f)),
{
    if pending.len() >= 2 && pending[0] == 0x4f && pending[1] == 0x4f {
        let rest = pending.split_off(2);
        *pending = rest;
        return true;
    }
    !(pending.len() == 0 || (pending.len() == 1 && pending[0] == 0x4f))
}

/// Buffers what the channel delivers while the file picker is open.
pub fn append_picker_wire(wire: &mut Vec<u8>, event: ZmodemChannelEvent) -> (r: Result<(), ZmodemTransferError>)
    ensures
        match event {
            ZmodemChannelEvent::Data(data) => if old(wire)@.len() + data@.len() > MAX_PICKER_WIRE_BYTES {
                r == Err::<(), ZmodemTransferError>(ZmodemTransferError::PickerWireOverflow)
                    && final(wire)@ == old(wire)@
            } else {
                r is Ok && final(wire)@ == old(wire)@ + data@
            },
            ZmodemChannelEvent::Closed => r == Err::<(), ZmodemTransferError>(
                ZmodemTransferError::ChannelClosed,
            ) && final(wire)@ == old(wire)@,
            ZmodemChannelEvent::Other => r is Ok && final(wire)@ == old(wire)@,
        },
{
    match event {
        ZmodemChannelEvent::Data(data) => {
            if data.len() > MAX_PICKER_WIRE_BYTES || wire.len() > MAX_PICKER_WIRE_BYTES - data.len() {
                return Err(ZmodemTransferError::PickerWireOverflow);
            }
            let mut data = data;
            wire.append(&mut data);
            Ok(())
        },
        ZmodemChannelEvent::Closed => Err(ZmodemTransferError::ChannelClosed),
        ZmodemChannelEvent::Other => Ok(()),
    }
}

} // verus!
