//! Spotting the start of a ZMODEM session in a remote terminal stream.
//!
//! Bytes flow through to the terminal untouched until a ZMODEM header prefix
//! shows up. From there the detector holds the bytes back (at most
//! `MAX_HANDSHAKE_BYTES` of them) and asks the `zmodem2` state machines
//! whether they form a complete handshake. A real handshake is handed to the
//! transfer together with everything after it; anything else goes back to
//! the terminal in its original order.

use vstd::prelude::*;
use zmodem2::{Receiver, Sender};
use crate::zmodem::machine::{
    receiver_new, receiver_poll, receiver_submit_wire, receiver_wire_written, sender_new, sender_poll,
    sender_start_file, sender_submit_wire, sender_wire_written, ZmodemAction,
};

verus! {

/// How many bytes may be held back while a handshake is still incomplete.
pub const MAX_HANDSHAKE_BYTES: usize = 64;

const ZPAD: u8 = 0x2a;
const ZDLE: u8 = 0x18;

#[derive(Clone, Copy, Debug, PartialEq, Eq, Structural)]
pub enum ZmodemDirection {
    /// The remote side waits to receive a file from us.
    Upload,
    /// The remote side offers a file to us.
    Download,
}

/// A detected handshake: which way the files go, and the wire bytes from the
/// handshake's first byte on.
#[derive(Debug, PartialEq, Eq)]
pub struct DetectedZmodem {
    pub direction: ZmodemDirection,
    pub wire: Vec<u8>,
}

/// Where the bytes of one pushed chunk went.
#[derive(Debug, PartialEq, Eq)]
pub struct ZmodemRouting {
    pub terminal: Vec<u8>,
    pub transfer: Option<DetectedZmodem>,
}

/// Whether a ZMODEM header prefix (`**ZDLE B`, `*ZDLE A` or `*ZDLE C`)
/// starts at `i`.
pub open spec fn header_at(bytes: Seq<u8>, i: int) -> bool {
    ||| (i + 4 <= bytes.len() && bytes[i] == 0x2a && bytes[i + 1] == 0x2a && bytes[i + 2] == 0x18
        && bytes[i + 3] == 0x42)
    ||| (i + 3 <= bytes.len() && bytes[i] == 0x2a && bytes[i + 1] == 0x18 && bytes[i + 2] == 0x41)
    ||| (i + 3 <= bytes.len() && bytes[i] == 0x2a && bytes[i + 1] == 0x18 && bytes[i + 2] == 0x43)
}

pub open spec fn ends_with(bytes: Seq<u8>, tail: Seq<u8>) -> bool {
    tail.len() <= bytes.len() && bytes.subrange(bytes.len() - tail.len(), bytes.len() as int) == tail
}

/// The length of the longest proper start of a header prefix that `bytes`
/// ends with: those bytes may still become a header with the next chunk.
pub open spec fn partial_header_len(bytes: Seq<u8>) -> nat {
    if ends_with(bytes, seq![0x2au8, 0x2au8, 0x18u8]) {
        3
    } else if ends_with(bytes, seq![0x2au8, 0x2au8]) || ends_with(bytes, seq![0x2au8, 0x18u8]) {
        2
    } else if ends_with(bytes, seq![0x2au8]) {
        1
    } else {
        0
    }
}

pub open spec fn wire_of(transfer: Option<DetectedZmodem>) -> Seq<u8> {
    match transfer {
        Some(detected) => detected.wire@,
        None => Seq::empty(),
    }
}

fn header_at_exec(bytes: &[u8], i: usize) -> (r: bool)
    requires
        i < bytes.len(),
    ensures
        r == header_at(bytes@, i as int),
{
    let len = bytes.len();
    if bytes[i] != ZPAD || len - i < 3 {
        return false;
    }
    if len - i >= 4 && bytes[i + 1] == ZPAD && bytes[i + 2] == ZDLE && bytes[i + 3] == 0x42 {
        return true;
    }
    bytes[i + 1] == ZDLE && (bytes[i + 2] == 0x41 || bytes[i + 2] == 0x43)
}

/// The first position at which a header prefix starts.
pub fn find_candidate(bytes: &[u8]) -> (r: Option<usize>)
    ensures
        match r {
            Some(i) => i < bytes.len() && header_at(bytes@, i as int) && forall|j: int|
                0 <= j < i ==> !header_at(bytes@, j),
            None => forall|j: int| 0 <= j < bytes.len() ==> !header_at(bytes@, j),
        },
{
    let mut i: usize = 0;
    while i < bytes.len()
        invariant
            i <= bytes.len(),
            forall|j: int| 0 <= j < i ==> !header_at(bytes@, j),
        decreases bytes.len() - i,
    {
        if header_at_exec(bytes, i) {
            return Some(i);
        }
        i = i + 1;
    }
    None
}

fn ends_with_exec(bytes: &[u8], tail: &[u8]) -> (r: bool)
    ensures
        r == ends_with(bytes@, tail@),
{
    if tail.len() > bytes.len() {
        return false;
    }
    let offset = bytes.len() - tail.len();
    let mut k: usize = 0;
    while k < tail.len()
        invariant
            offset + tail.len() == bytes.len(),
            k <= tail.len(),
            forall|j: int| 0 <= j < k ==> bytes@[offset + j] == tail@[j],
        decreases tail.len() - k,
    {
        if bytes[offset + k] != tail[k] {
            assert(bytes@.subrange(offset as int, bytes.len() as int)[k as int] != tail@[k as int]);
            return false;
        }
        k = k + 1;
    }
    assert(bytes@.subrange(offset as int, bytes.len() as int) =~= tail@);
    true
}

/// How many trailing bytes may start a header that the next chunk completes.
pub fn partial_prefix_len(bytes: &[u8]) -> (r: usize)
    ensures
        r == partial_header_len(bytes@),
{
    let three: [u8; 3] = [ZPAD, ZPAD, ZDLE];
    let pad_pad: [u8; 2] = [ZPAD, ZPAD];
    let pad_zdle: [u8; 2] = [ZPAD, ZDLE];
    let pad: [u8; 1] = [ZPAD];
    assert(three@ =~= seq![0x2au8, 0x2au8, 0x18u8]);
    assert(pad_pad@ =~= seq![0x2au8, 0x2au8]);
    assert(pad_zdle@ =~= seq![0x2au8, 0x18u8]);
    assert(pad@ =~= seq![0x2au8]);
    if ends_with_exec(bytes, &three) {
        3
    } else if ends_with_exec(bytes, &pad_pad) || ends_with_exec(bytes, &pad_zdle) {
        2
    } else if ends_with_exec(bytes, &pad) {
        1
    } else {
        0
    }
}

#[derive(Clone, Copy, Debug, PartialEq, Eq, Structural)]
pub enum ProbeState {
    Detected,
    Invalid,
    Pending,
}

#[derive(Clone, Copy, Debug, PartialEq, Eq, Structural)]
pub enum ProbeResult {
    Detected(ZmodemDirection),
    Invalid,
    Pending,
}

/// Marks the handshake that a fresh sender queued as written, so that the
/// probe sees only what the bytes under test make it send.
fn acknowledge_sender_initial(sender: &mut Sender) {
    if let ZmodemAction::WriteWire(initial) = sender_poll(sender) {
        sender_wire_written(sender, initial.len());
    }
}

/// Marks the handshake that a fresh receiver queued as written.
fn acknowledge_receiver_initial(receiver: &mut Receiver) {
    if let ZmodemAction::WriteWire(initial) = receiver_poll(receiver) {
        receiver_wire_written(receiver, initial.len());
    }
}

/// Feeds `bytes` to a fresh sender that offers a one-byte probe file, as if
/// they came from a remote receiver: a reply means they hold a complete
/// handshake (`ZRINIT`).
fn probe_upload(bytes: &[u8]) -> (r: ProbeState) {
    let mut sender = match sender_new() {
        Some(sender) => sender,
        None => return ProbeState::Invalid,
    };
    let probe_name: [u8; 5] = [0x70, 0x72, 0x6f, 0x62, 0x65];
    if !sender_start_file(&mut sender, &probe_name, 1) {
        return ProbeState::Invalid;
    }
    acknowledge_sender_initial(&mut sender);
    if sender_submit_wire(&mut sender, bytes).is_none() {
        return ProbeState::Invalid;
    }
    match sender_poll(&mut sender) {
        ZmodemAction::WriteWire(_) => ProbeState::Detected,
        _ => ProbeState::Pending,
    }
}

/// Feeds `bytes` to a fresh receiver, as if they came from a remote sender: a
/// reply means they hold a complete handshake (`ZRQINIT`).
fn probe_download(bytes: &[u8]) -> (r: ProbeState) {
    let mut receiver = match receiver_new() {
        Some(receiver) => receiver,
        None => return ProbeState::Invalid,
    };
    acknowledge_receiver_initial(&mut receiver);
    if receiver_submit_wire(&mut receiver, bytes).is_none() {
        return ProbeState::Invalid;
    }
    match receiver_poll(&mut receiver) {
        ZmodemAction::WriteWire(_) => ProbeState::Detected,
        _ => ProbeState::Pending,
    }
}

/// The verdict from the two probes: a download wins over an upload, and the
/// bytes are refused only when both refuse them.
pub open spec fn combine_probes(upload: ProbeState, download: ProbeState) -> ProbeResult {
    if download == ProbeState::Detected {
        ProbeResult::Detected(ZmodemDirection::Download)
    } else if upload == ProbeState::Detected {
        ProbeResult::Detected(ZmodemDirection::Upload)
    } else if upload == ProbeState::Invalid && download == ProbeState::Invalid {
        ProbeResult::Invalid
    } else {
        ProbeResult::Pending
    }
}

pub fn combine_probe_states(upload: ProbeState, download: ProbeState) -> (r: ProbeResult)
    ensures
        r == combine_probes(upload, download),
{
    match (upload, download) {
        (_, ProbeState::Detected) => ProbeResult::Detected(ZmodemDirection::Download),
        (ProbeState::Detected, _) => ProbeResult::Detected(ZmodemDirection::Upload),
        (ProbeState::Invalid, ProbeState::Invalid) => ProbeResult::Invalid,
        _ => ProbeResult::Pending,
    }
}

/// The verdict of the two probes on `bytes`. Each probe drives a fresh
/// `zmodem2` state machine through several calls, so its answer has no name
/// here: `push` states its routing for whatever verdicts came back.
fn probe_handshake(bytes: &[u8]) -> (r: ProbeResult) {
    let upload = probe_upload(bytes);
    let download = probe_download(bytes);
    combine_probe_states(upload, download)
}

/// Whether a header prefix starts at `i` and at no earlier position.
pub open spec fn is_first_header(bytes: Seq<u8>, i: int) -> bool {
    &&& 0 <= i < bytes.len()
    &&& header_at(bytes, i)
    &&& forall|j: int| 0 <= j < i ==> !header_at(bytes, j)
}

proof fn lemma_first_header_unique(bytes: Seq<u8>, i: int)
    requires
        is_first_header(bytes, i),
    ensures
        (choose|k: int| is_first_header(bytes, k)) == i,
{
    let k = choose|k: int| is_first_header(bytes, k);
    assert(is_first_header(bytes, k));
    if k < i {
        assert(!header_at(bytes, k));
    } else if i < k {
        assert(!header_at(bytes, i));
    }
}

/// A detected transfer as values: its direction and wire bytes.
pub open spec fn transfer_view(transfer: Option<DetectedZmodem>) -> Option<(ZmodemDirection, Seq<u8>)> {
    match transfer {
        Some(detected) => Some((detected.direction, detected.wire@)),
        None => None,
    }
}

/// How the detector routes `pending`, after `terminal` went to the
/// terminal, where the probe's verdict on the bytes from a header prefix on
/// is `verdict` of them: the result is the terminal bytes, the bytes held
/// and the transfer. Bytes before the first header prefix go to the
/// terminal. A detected handshake is the transfer, with everything from its
/// first byte on. Refused bytes give up their first byte to the terminal and
/// are looked at again. An incomplete handshake is held while it is shorter
/// than `MAX_HANDSHAKE_BYTES`, and goes to the terminal otherwise. Where no
/// header prefix starts, all goes to the terminal except a tail that may
/// start one.
pub open spec fn route_from(
    terminal: Seq<u8>,
    pending: Seq<u8>,
    verdict: spec_fn(Seq<u8>) -> ProbeResult,
) -> (Seq<u8>, Seq<u8>, Option<(ZmodemDirection, Seq<u8>)>)
    decreases pending.len(),
{
    if exists|i: int| is_first_header(pending, i) {
        let c = choose|i: int| is_first_header(pending, i);
        let window = pending.skip(c);
        let sent = terminal + pending.take(c);
        match verdict(window) {
            ProbeResult::Detected(direction) => (sent, Seq::empty(), Some((direction, window))),
            ProbeResult::Invalid => route_from(sent.push(window[0]), window.skip(1), verdict),
            ProbeResult::Pending => if window.len() < MAX_HANDSHAKE_BYTES {
                (sent, window, None)
            } else {
                route_from(sent + window, Seq::empty(), verdict)
            },
        }
    } else {
        let cut = pending.len() - partial_header_len(pending);
        (terminal + pending.take(cut), pending.skip(cut), None)
    }
}

proof fn lemma_route_step(terminal: Seq<u8>, pending: Seq<u8>, verdict: spec_fn(Seq<u8>) -> ProbeResult, c: int)
    requires
        is_first_header(pending, c),
    ensures
        ({
            let window = pending.skip(c);
            let sent = terminal + pending.take(c);
            route_from(terminal, pending, verdict) == match verdict(window) {
                ProbeResult::Detected(direction) => (sent, Seq::empty(), Some((direction, window))),
                ProbeResult::Invalid => route_from(sent.push(window[0]), window.skip(1), verdict),
                ProbeResult::Pending => if window.len() < MAX_HANDSHAKE_BYTES {
                    (sent, window, None)
                } else {
                    route_from(sent + window, Seq::empty(), verdict)
                },
            }
        }),
{
    lemma_first_header_unique(pending, c);
    assert(exists|i: int| is_first_header(pending, i));
}

/// A transfer is reported only for bytes that the probe called a handshake:
/// in the routing that `route_from` describes, a transfer's wire starts with
/// a header prefix, ends the bytes routed, and is what the verdict called a
/// handshake in the transfer's direction.
pub proof fn lemma_route_transfer_is_detected(terminal: Seq<u8>, pending: Seq<u8>, verdict: spec_fn(Seq<u8>) -> ProbeResult)
    ensures
        route_from(terminal, pending, verdict).2 matches Some((direction, wire)) ==> {
            &&& verdict(wire) == ProbeResult::Detected(direction)
            &&& header_at(wire, 0)
            &&& wire.len() <= pending.len()
            &&& wire == pending.skip(pending.len() - wire.len())
        },
    decreases pending.len(),
{
    if exists|i: int| is_first_header(pending, i) {
        let c = choose|i: int| is_first_header(pending, i);
        lemma_route_step(terminal, pending, verdict, c);
        let window = pending.skip(c);
        let sent = terminal + pending.take(c);
        assert(header_at(window, 0));
        match verdict(window) {
            ProbeResult::Detected(_) => {
                assert(window == pending.skip(pending.len() - window.len()));
            },
            ProbeResult::Invalid => {
                lemma_route_transfer_is_detected(sent.push(window[0]), window.skip(1), verdict);
                let rest = window.skip(1);
                match route_from(sent.push(window[0]), rest, verdict).2 {
                    Some((_, wire)) => {
                        assert(rest.skip(rest.len() - wire.len()) =~= pending.skip(pending.len() - wire.len()));
                    },
                    None => {},
                }
            },
            ProbeResult::Pending => {
                if window.len() >= MAX_HANDSHAKE_BYTES {
                    lemma_route_transfer_is_detected(sent + window, Seq::empty(), verdict);
                }
            },
        }
    }
}

/// Whether `verdict` gives each probed window the verdict it got.
pub open spec fn agrees(verdict: spec_fn(Seq<u8>) -> ProbeResult, probed: Map<Seq<u8>, ProbeResult>) -> bool {
    forall|w: Seq<u8>| #[trigger] probed.dom().contains(w) ==> verdict(w) == probed[w]
}

/// The verdict function that gives the probed windows their verdicts.
pub open spec fn verdict_of(probed: Map<Seq<u8>, ProbeResult>) -> spec_fn(Seq<u8>) -> ProbeResult {
    |w: Seq<u8>| if probed.dom().contains(w) { probed[w] } else { ProbeResult::Invalid }
}

/// Routes terminal output, holding back a possible handshake between chunks.
pub struct ZmodemDetector {
    pending: Vec<u8>,
}

impl ZmodemDetector {
    /// The bytes held back from earlier chunks.
    pub closed spec fn held(&self) -> Seq<u8> {
        self.pending@
    }

    /// What is held back is shorter than a handshake may grow, and starts like
    /// a header.
    pub open spec fn wf(&self) -> bool {
        &&& self.held().len() < MAX_HANDSHAKE_BYTES
        &&& self.held().len() > 0 ==> self.held()[0] == 0x2a
    }

    pub fn new() -> (r: Self)
        ensures
            r.wf(),
            r.held() == Seq::<u8>::empty(),
    {
        ZmodemDetector { pending: Vec::new() }
    }

    /// Routes `data`. No byte is lost, duplicated or reordered: the terminal
    /// part, then what stays held, then the transfer's wire, are exactly the
    /// held bytes followed by `data`. The routing is the one `route_from`
    /// describes, for the verdicts the probe gave on the windows it saw.
    pub fn push(&mut self, data: &[u8]) -> (r: ZmodemRouting)
        requires
            old(self).wf(),
        ensures
            final(self).wf(),
            r.terminal@ + final(self).held() + wire_of(r.transfer) == old(self).held() + data@,
            r.transfer matches Some(detected) ==> header_at(detected.wire@, 0) && final(self).held().len() == 0,
            !(old(self).held() + data@).contains(0x2au8) ==> r.terminal@ == old(self).held() + data@
                && r.transfer is None && final(self).held().len() == 0,
            exists|verdict: spec_fn(Seq<u8>) -> ProbeResult| #[trigger]
                route_from(Seq::empty(), old(self).held() + data@, verdict) == (
                    r.terminal@,
                    final(self).held(),
                    transfer_view(r.transfer),
                ),
    {
        let ghost all = self.pending@ + data@;
        self.pending.extend_from_slice(data);
        assert(self.pending@ =~= all);
        let mut terminal: Vec<u8> = Vec::new();
        let ghost mut probed: Map<Seq<u8>, ProbeResult> = Map::empty();
        assert(terminal@ + self.pending@ =~= self.pending@);
        loop
            invariant
                terminal@ + self.pending@ == all,
                all == old(self).held() + data@,
                forall|v: spec_fn(Seq<u8>) -> ProbeResult| agrees(v, probed) ==> #[trigger] route_from(
                    Seq::empty(),
                    all,
                    v,
                ) == route_from(terminal@, self.pending@, v),
                forall|w: Seq<u8>| #[trigger] probed.dom().contains(w) ==> w.len() > self.pending@.len(),
            decreases self.pending@.len(),
        {
            proof {
                lemma_suffix_keeps_absence(terminal@, self.pending@, all);
            }
            let found = find_candidate(self.pending.as_slice());
            match found {
                None => {
                    let retained = partial_prefix_len(self.pending.as_slice());
                    let terminal_len = self.pending.len() - retained;
                    let ghost before = self.pending@;
                    let ghost sent = terminal@;
                    let mut front = self.pending.split_off(terminal_len);
                    core::mem::swap(&mut self.pending, &mut front);
                    terminal.append(&mut front);
                    proof {
                        lemma_partial_starts_with_pad(before);
                        if retained > 0 {
                            assert(self.pending@[0] == before[terminal_len as int]);
                            assert(before.contains(0x2au8));
                        }
                        assert(terminal@ + self.pending@ =~= all);
                        assert(!exists|i: int| is_first_header(before, i));
                        let v = verdict_of(probed);
                        assert(agrees(v, probed));
                        assert(terminal@ =~= sent + before.take(terminal_len as int));
                        assert(self.pending@ =~= before.skip(terminal_len as int));
                        assert(route_from(Seq::empty(), all, v) == route_from(sent, before, v));
                        assert(route_from(Seq::empty(), all, v) == (terminal@, self.pending@, transfer_view(None)));
                    }
                    return ZmodemRouting { terminal, transfer: None };
                },
                Some(candidate_start) => {
                    let ghost before = self.pending@;
                    let ghost sent_before = terminal@;
                    let mut front = self.pending.split_off(candidate_start);
                    core::mem::swap(&mut self.pending, &mut front);
                    terminal.append(&mut front);
                    let ghost window = self.pending@;
                    proof {
                        assert(terminal@ + self.pending@ =~= all);
                        assert(self.pending@ =~= before.subrange(candidate_start as int, before.len() as int));
                        assert(header_at(self.pending@, 0));
                        assert(before[candidate_start as int] == 0x2au8);
                        assert(before.contains(0x2au8));
                        lemma_first_header_unique(before, candidate_start as int);
                        assert(window =~= before.skip(candidate_start as int));
                        assert(terminal@ =~= sent_before + before.take(candidate_start as int));
                    }
                    let verdict = probe_handshake(self.pending.as_slice());
                    let ghost probed_before = probed;
                    proof {
                        assert(!probed.dom().contains(window));
                        probed = probed.insert(window, verdict);
                        assert forall|v: spec_fn(Seq<u8>) -> ProbeResult| agrees(v, probed) implies agrees(v, probed_before) && v(window) == verdict by {
                            assert(probed.dom().contains(window));
                            assert forall|w: Seq<u8>| #[trigger] probed_before.dom().contains(w) implies v(w) == probed_before[w] by {
                                assert(probed.dom().contains(w));
                                assert(w != window);
                            }
                        }
                    }
                    match verdict {
                        ProbeResult::Detected(direction) => {
                            let mut wire: Vec<u8> = Vec::new();
                            core::mem::swap(&mut self.pending, &mut wire);
                            proof {
                                let v = verdict_of(probed);
                                assert(agrees(v, probed));
                                assert(route_from(Seq::empty(), all, v) == route_from(sent_before, before, v));
                                lemma_route_step(sent_before, before, v, candidate_start as int);
                                assert(self.pending@ =~= Seq::<u8>::empty());
                            }
                            return ZmodemRouting {
                                terminal,
                                transfer: Some(DetectedZmodem { direction, wire }),
                            };
                        },
                        ProbeResult::Invalid => {
                            let first = self.pending.remove(0);
                            terminal.push(first);
                            assert(terminal@ + self.pending@ =~= all);
                            proof {
                                assert(terminal@ =~= (sent_before + before.take(candidate_start as int)).push(window[0]));
                                assert(self.pending@ =~= window.skip(1));
                                assert forall|v: spec_fn(Seq<u8>) -> ProbeResult| agrees(v, probed) implies #[trigger] route_from(
                                    Seq::empty(),
                                    all,
                                    v,
                                ) == route_from(terminal@, self.pending@, v) by {
                                    assert(agrees(v, probed_before));
                                    assert(v(window) == ProbeResult::Invalid);
                                    assert(route_from(Seq::empty(), all, v) == route_from(sent_before, before, v));
                                    lemma_route_step(sent_before, before, v, candidate_start as int);
                                }
                            }
                        },
                        ProbeResult::Pending => {
                            if self.pending.len() < MAX_HANDSHAKE_BYTES {
                                proof {
                                    let v = verdict_of(probed);
                                    assert(agrees(v, probed));
                                    assert(v(window) == ProbeResult::Pending);
                                    assert(route_from(Seq::empty(), all, v) == route_from(sent_before, before, v));
                                    lemma_route_step(sent_before, before, v, candidate_start as int);
                                }
                                return ZmodemRouting { terminal, transfer: None };
                            }
                            let mut held: Vec<u8> = Vec::new();
                            core::mem::swap(&mut self.pending, &mut held);
                            terminal.append(&mut held);
                            assert(terminal@ + self.pending@ =~= all);
                            proof {
                                assert(terminal@ =~= (sent_before + before.take(candidate_start as int)) + window);
                                assert(self.pending@ =~= Seq::<u8>::empty());
                                assert forall|v: spec_fn(Seq<u8>) -> ProbeResult| agrees(v, probed) implies #[trigger] route_from(
                                    Seq::empty(),
                                    all,
                                    v,
                                ) == route_from(terminal@, self.pending@, v) by {
                                    assert(agrees(v, probed_before));
                                    assert(v(window) == ProbeResult::Pending);
                                    assert(route_from(Seq::empty(), all, v) == route_from(sent_before, before, v));
                                    lemma_route_step(sent_before, before, v, candidate_start as int);
                                }
                            }
                        },
                    }
                },
            }
        }
    }
}

/// A suffix of a sequence without `x` has no `x` either.
proof fn lemma_suffix_keeps_absence(front: Seq<u8>, back: Seq<u8>, all: Seq<u8>)
    requires
        front + back == all,
    ensures
        back.contains(0x2au8) ==> all.contains(0x2au8),
{
    if back.contains(0x2au8) {
        let k = choose|k: int| 0 <= k < back.len() && back[k] == 0x2au8;
        assert(all[front.len() + k] == 0x2au8);
    }
}

/// Every partial header starts with the padding byte.
proof fn lemma_partial_starts_with_pad(bytes: Seq<u8>)
    ensures
        partial_header_len(bytes) > 0 ==> bytes[bytes.len() - partial_header_len(bytes)] == 0x2au8,
        partial_header_len(bytes) <= 3,
        partial_header_len(bytes) <= bytes.len(),
{
    let n = partial_header_len(bytes);
    if n > 0 {
        let tail = bytes.subrange(bytes.len() - n, bytes.len() as int);
        assert(tail[0] == bytes[bytes.len() - n]);
    }
}

impl Default for ZmodemDetector {
    fn default() -> (r: Self)
        ensures
            r.wf(),
            r.held() == Seq::<u8>::empty(),
    {
        ZmodemDetector::new()
    }
}

/// The bytes of `chunks`, one after the other.
pub open spec fn joined(chunks: Seq<Seq<u8>>) -> Seq<u8>
    decreases chunks.len(),
{
    if chunks.len() == 0 {
        Seq::empty()
    } else {
        joined(chunks.drop_last()) + chunks.last()
    }
}

/// What one push routed away from the detector: the terminal bytes, then the
/// transfer's wire bytes.
pub open spec fn routed(r: ZmodemRouting) -> Seq<u8> {
    r.terminal@ + wire_of(r.transfer)
}

/// What a push promises, between the bytes held before it (`held`), the
/// chunk pushed, what it routed and the bytes held after it.
pub open spec fn push_step(held: Seq<u8>, chunk: Seq<u8>, out: Seq<u8>, held_after: Seq<u8>) -> bool {
    &&& out + held_after == held + chunk
    &&& held_after.len() < MAX_HANDSHAKE_BYTES
}

/// One push, as `push_step` states it.
pub proof fn lemma_push_is_a_step(held: Seq<u8>, chunk: Seq<u8>, r: ZmodemRouting, held_after: Seq<u8>)
    requires
        r.terminal@ + held_after + wire_of(r.transfer) == held + chunk,
        r.transfer is Some ==> held_after.len() == 0,
        held_after.len() < MAX_HANDSHAKE_BYTES,
    ensures
        push_step(held, chunk, routed(r), held_after),
{
    if r.transfer is Some {
        assert(r.terminal@ + held_after =~= r.terminal@);
    } else {
        assert(wire_of(r.transfer) =~= Seq::<u8>::empty());
        assert(r.terminal@ + held_after + wire_of(r.transfer) =~= r.terminal@ + held_after);
        assert(routed(r) =~= r.terminal@);
    }
}

/// Over any run of pushes into a fresh detector, what was routed is a prefix
/// of what was pushed, in order, without a byte dropped or duplicated, and
/// what is still held (the rest) is shorter than a handshake may grow.
pub proof fn lemma_detector_run(chunks: Seq<Seq<u8>>, outs: Seq<Seq<u8>>, helds: Seq<Seq<u8>>)
    requires
        outs.len() == chunks.len(),
        helds.len() == chunks.len() + 1,
        helds[0] == Seq::<u8>::empty(),
        forall|i: int| 0 <= i < chunks.len() ==> #[trigger] push_step(helds[i], chunks[i], outs[i], helds[i + 1]),
    ensures
        joined(outs) + helds[chunks.len() as int] == joined(chunks),
        joined(chunks).len() - joined(outs).len() < MAX_HANDSHAKE_BYTES,
    decreases chunks.len(),
{
    let n = chunks.len() as int;
    if n == 0 {
        assert(joined(outs) + helds[0] =~= joined(chunks));
    } else {
        assert forall|i: int| 0 <= i < n - 1 implies #[trigger] push_step(
            helds.drop_last()[i],
            chunks.drop_last()[i],
            outs.drop_last()[i],
            helds.drop_last()[i + 1],
        ) by {
            assert(push_step(helds[i], chunks[i], outs[i], helds[i + 1]));
        }
        lemma_detector_run(chunks.drop_last(), outs.drop_last(), helds.drop_last());
        assert(push_step(helds[n - 1], chunks[n - 1], outs[n - 1], helds[n]));
        assert(helds.drop_last()[n - 1] == helds[n - 1]);
        assert(joined(outs) + helds[n] =~= joined(outs.drop_last()) + (outs[n - 1] + helds[n]));
        assert(joined(chunks) =~= (joined(outs.drop_last()) + helds[n - 1]) + chunks[n - 1]);
    }
}

} // verus!
