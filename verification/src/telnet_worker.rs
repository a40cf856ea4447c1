//! The decisions of a Telnet session's worker. The worker owns the codec,
//! the login script and the recording attribution of a held-back CR; each
//! event (server bytes, a client write, a resize, the CR flush deadline)
//! yields the ordered actions to perform: socket writes, input recordings,
//! terminal deliveries and the arming or cancelling of the CR flush timer.
//! The caller performs them in order and stops at the first that fails.

use vstd::prelude::*;
use crate::bytes::views_of;
use crate::login_expect::ExpectState;
use crate::login_expect::advance_result;
use crate::login_expect::script_inv;
use crate::telnet::TelnetCodec;
use crate::telnet::TelnetCodecModel;
use crate::telnet::TelnetDisconnectReason;
use crate::telnet::TelnetOptionSideState;
use crate::telnet::TELNET_OPTION_BINARY;
use crate::telnet::initial_model;
use crate::telnet::model_wf;
use crate::telnet::nvt_encode;
use crate::telnet::nvt_flush;
use crate::telnet::spec_filter;
use crate::telnet::spec_naws_message;
use crate::telnet::spec_server_step;
use crate::telnet_expect::TelnetLoginScript;

verus! {

/// Window size of a fresh session, before the first resize.
pub const INITIAL_COLS: u16 = 80;
pub const INITIAL_ROWS: u16 = 24;

/// What a socket write is for; a failed write names it.
#[derive(Clone, Copy, Debug, PartialEq, Eq, Structural)]
pub enum TelnetWriteOperation {
    NegotiationReply,
    LoginScript,
    UserInput,
    NawsUpdate,
    TerminalResponse,
    CrFlush,
}

impl TelnetWriteOperation {
    /// The operation's name in a write failure.
    pub fn label(&self) -> (r: &'static str)
        ensures
            r@ == operation_label(*self),
    {
        match self {
            TelnetWriteOperation::NegotiationReply => "协商应答/子协商应答",
            TelnetWriteOperation::LoginScript => "登录脚本发送",
            TelnetWriteOperation::UserInput => "用户输入发送",
            TelnetWriteOperation::NawsUpdate => "NAWS 窗口尺寸更新",
            TelnetWriteOperation::TerminalResponse => "终端响应回写",
            TelnetWriteOperation::CrFlush => "NVT CR flush",
        }
    }
}

/// The name of each write operation.
pub open spec fn operation_label(op: TelnetWriteOperation) -> Seq<char> {
    match op {
        TelnetWriteOperation::NegotiationReply => "协商应答/子协商应答"@,
        TelnetWriteOperation::LoginScript => "登录脚本发送"@,
        TelnetWriteOperation::UserInput => "用户输入发送"@,
        TelnetWriteOperation::NawsUpdate => "NAWS 窗口尺寸更新"@,
        TelnetWriteOperation::TerminalResponse => "终端响应回写"@,
        TelnetWriteOperation::CrFlush => "NVT CR flush"@,
    }
}

/// One thing for the caller to do.
#[derive(Debug, PartialEq, Eq)]
pub enum TelnetAction {
    /// Write these bytes to the socket.
    Write { bytes: Vec<u8>, operation: TelnetWriteOperation },
    /// Record these bytes, just written, as input.
    RecordInput(Vec<u8>),
    /// Hand this output to the terminal.
    Deliver(Vec<u8>),
    /// (Re)start the short timer after which a held-back CR is flushed.
    ArmCrFlush,
    /// Stop that timer.
    CancelCrFlush,
}

/// An action as mathematical values.
pub enum TelnetStep {
    Write(Seq<u8>, TelnetWriteOperation),
    RecordInput(Seq<u8>),
    Deliver(Seq<u8>),
    ArmCrFlush,
    CancelCrFlush,
}

pub open spec fn action_view(a: TelnetAction) -> TelnetStep {
    match a {
        TelnetAction::Write { bytes, operation } => TelnetStep::Write(bytes@, operation),
        TelnetAction::RecordInput(bytes) => TelnetStep::RecordInput(bytes@),
        TelnetAction::Deliver(bytes) => TelnetStep::Deliver(bytes@),
        TelnetAction::ArmCrFlush => TelnetStep::ArmCrFlush,
        TelnetAction::CancelCrFlush => TelnetStep::CancelCrFlush,
    }
}

pub open spec fn actions_view(a: Seq<TelnetAction>) -> Seq<TelnetStep> {
    Seq::new(a.len(), |i: int| action_view(a[i]))
}

/// The worker's state as mathematical values.
pub struct TelnetWorkerView {
    pub codec: TelnetCodecModel,
    pub login: ExpectState,
    /// Whether the CR held back by the codec belongs to recordable input.
    pub record_pending_cr: bool,
}

/// What the worker keeps: a well-formed codec and login script, and a
/// recording attribution only for a CR that is actually held back.
pub open spec fn worker_inv(v: TelnetWorkerView) -> bool {
    &&& model_wf(v.codec)
    &&& script_inv(v.login)
    &&& (v.record_pending_cr ==> v.codec.pending_cr)
}

/// A write of `bytes`, followed by their recording when `record`; nothing
/// for empty bytes.
pub open spec fn write_steps(bytes: Seq<u8>, operation: TelnetWriteOperation, record: bool) -> Seq<TelnetStep> {
    if bytes.len() == 0 {
        Seq::empty()
    } else if record {
        seq![TelnetStep::Write(bytes, operation), TelnetStep::RecordInput(bytes)]
    } else {
        seq![TelnetStep::Write(bytes, operation)]
    }
}

/// Committing a held-back CR as CR NUL (recorded when it belongs to
/// recordable input) and stopping the flush timer.
pub open spec fn flush_cr(v: TelnetWorkerView) -> (TelnetWorkerView, Seq<TelnetStep>) {
    let encoded = nvt_flush(v.codec.pending_cr);
    (
        TelnetWorkerView { codec: TelnetCodecModel { pending_cr: false, ..v.codec }, login: v.login, record_pending_cr: false },
        write_steps(encoded, TelnetWriteOperation::CrFlush, v.record_pending_cr).push(TelnetStep::CancelCrFlush),
    )
}

/// A protocol frame: a command may not split CR from its partner, so a
/// held-back CR is committed first.
pub open spec fn write_protocol(v: TelnetWorkerView, bytes: Seq<u8>, operation: TelnetWriteOperation) -> (TelnetWorkerView, Seq<TelnetStep>) {
    let f = flush_cr(v);
    (f.0, f.1.push(TelnetStep::Write(bytes, operation)))
}

/// Client data, NVT-encoded. Empty data changes nothing. A held-back CR of
/// the other recording kind is committed on its own first; afterwards the
/// flush timer runs exactly when a CR is held back, and that CR is
/// recordable when this data is.
pub open spec fn write_client(v: TelnetWorkerView, bytes: Seq<u8>, operation: TelnetWriteOperation, record: bool) -> (TelnetWorkerView, Seq<TelnetStep>) {
    if bytes.len() == 0 {
        (v, Seq::empty())
    } else {
        let f = if v.codec.pending_cr && v.record_pending_cr != record {
            flush_cr(v)
        } else {
            (v, Seq::<TelnetStep>::empty())
        };
        let binary = f.0.codec.local[TELNET_OPTION_BINARY as int] == TelnetOptionSideState::Enabled;
        let e = nvt_encode(f.0.codec.pending_cr, bytes, binary);
        let timer = if e.0 {
            TelnetStep::ArmCrFlush
        } else {
            TelnetStep::CancelCrFlush
        };
        (
            TelnetWorkerView { codec: TelnetCodecModel { pending_cr: e.0, ..f.0.codec }, login: f.0.login, record_pending_cr: record && e.0 },
            f.1 + write_steps(e.1, operation, record).push(timer),
        )
    }
}

/// Protocol frames, one after the other.
pub open spec fn write_protocol_all(v: TelnetWorkerView, frames: Seq<Seq<u8>>, operation: TelnetWriteOperation) -> (TelnetWorkerView, Seq<TelnetStep>)
    decreases frames.len(),
{
    if frames.len() == 0 {
        (v, Seq::empty())
    } else {
        let before = write_protocol_all(v, frames.drop_last(), operation);
        let last = write_protocol(before.0, frames.last(), operation);
        (last.0, before.1 + last.1)
    }
}

/// Client writes, one after the other.
pub open spec fn write_client_all(v: TelnetWorkerView, writes: Seq<Seq<u8>>, operation: TelnetWriteOperation, record: bool) -> (TelnetWorkerView, Seq<TelnetStep>)
    decreases writes.len(),
{
    if writes.len() == 0 {
        (v, Seq::empty())
    } else {
        let before = write_client_all(v, writes.drop_last(), operation, record);
        let last = write_client(before.0, writes.last(), operation, record);
        (last.0, before.1 + last.1)
    }
}

/// Server bytes: filtered by the codec; its replies written first; the
/// terminal data delivered and fed to the login script; then the script's
/// sends written as (unrecorded) client data.
pub open spec fn receive_bytes(v: TelnetWorkerView, bytes: Seq<u8>) -> (TelnetWorkerView, Seq<TelnetStep>) {
    let filtered = spec_filter(v.codec, bytes);
    let replies = write_protocol_all(
        TelnetWorkerView { codec: filtered.0, login: v.login, record_pending_cr: v.record_pending_cr },
        filtered.2,
        TelnetWriteOperation::NegotiationReply,
    );
    let advanced = advance_result(replies.0.login, filtered.1);
    let delivery = if filtered.1.len() > 0 {
        seq![TelnetStep::Deliver(filtered.1)]
    } else {
        Seq::empty()
    };
    let sends = write_client_all(
        TelnetWorkerView { codec: replies.0.codec, login: advanced.1, record_pending_cr: replies.0.record_pending_cr },
        advanced.0,
        TelnetWriteOperation::LoginScript,
        false,
    );
    (sends.0, replies.1 + delivery + sends.1)
}

/// A new window size, announced with NAWS once the server has enabled it.
pub open spec fn resize_window(v: TelnetWorkerView, cols: u16, rows: u16) -> (TelnetWorkerView, Seq<TelnetStep>) {
    let codec = TelnetCodecModel {
        cols: if cols < 2 { 2 } else { cols },
        rows: if rows < 2 { 2 } else { rows },
        ..v.codec
    };
    let resized = TelnetWorkerView { codec, login: v.login, record_pending_cr: v.record_pending_cr };
    match spec_naws_message(codec) {
        Some(message) => write_protocol(resized, message, TelnetWriteOperation::NawsUpdate),
        None => (resized, Seq::empty()),
    }
}

/// Whether the flush timer runs after `steps`, starting from `armed`: the
/// last arming or cancelling decides.
pub open spec fn timer_after(armed: bool, steps: Seq<TelnetStep>) -> bool
    decreases steps.len(),
{
    if steps.len() == 0 {
        armed
    } else {
        match steps.last() {
            TelnetStep::ArmCrFlush => true,
            TelnetStep::CancelCrFlush => false,
            _ => timer_after(armed, steps.drop_last()),
        }
    }
}

// ---------------------------------------------------------------------------
// The worker.
// ---------------------------------------------------------------------------

/// A Telnet session's protocol state.
pub struct TelnetWorker {
    codec: TelnetCodec,
    login: TelnetLoginScript,
    record_pending_cr: bool,
}

impl View for TelnetWorker {
    type V = TelnetWorkerView;

    closed spec fn view(&self) -> TelnetWorkerView {
        TelnetWorkerView { codec: self.codec@, login: self.login@, record_pending_cr: self.record_pending_cr }
    }
}

proof fn lemma_actions_push(a: Seq<TelnetAction>, x: TelnetAction)
    ensures
        actions_view(a.push(x)) == actions_view(a).push(action_view(x)),
{
    assert(actions_view(a.push(x)) =~= actions_view(a).push(action_view(x)));
}

/// Appends the write of `bytes`, and its recording when `record`.
fn push_write(acts: &mut Vec<TelnetAction>, bytes: Vec<u8>, operation: TelnetWriteOperation, record: bool)
    ensures
        actions_view(final(acts)@) == actions_view(old(acts)@) + write_steps(bytes@, operation, record),
{
    let ghost start = actions_view(acts@);
    let ghost b = bytes@;
    if bytes.len() == 0 {
        assert(start + write_steps(b, operation, record) =~= start);
        return;
    }
    if record {
        let copy = bytes.clone();
        assert(copy@ =~= b);
        proof {
            lemma_actions_push(acts@, TelnetAction::Write { bytes, operation });
        }
        acts.push(TelnetAction::Write { bytes, operation });
        proof {
            lemma_actions_push(acts@, TelnetAction::RecordInput(copy));
        }
        acts.push(TelnetAction::RecordInput(copy));
    } else {
        proof {
            lemma_actions_push(acts@, TelnetAction::Write { bytes, operation });
        }
        acts.push(TelnetAction::Write { bytes, operation });
    }
    assert(actions_view(acts@) =~= start + write_steps(b, operation, record));
}

fn push_action(acts: &mut Vec<TelnetAction>, action: TelnetAction)
    ensures
        actions_view(final(acts)@) == actions_view(old(acts)@).push(action_view(action)),
{
    proof {
        lemma_actions_push(acts@, action);
    }
    acts.push(action);
}

impl TelnetWorker {
    /// A fresh session with an 80x24 window running `login`.
    pub fn new(login: TelnetLoginScript) -> (r: Self)
        requires
            script_inv(login@),
        ensures
            r@ == (TelnetWorkerView { codec: initial_model(INITIAL_COLS, INITIAL_ROWS), login: login@, record_pending_cr: false }),
            worker_inv(r@),
    {
        TelnetWorker { codec: TelnetCodec::new(INITIAL_COLS, INITIAL_ROWS), login, record_pending_cr: false }
    }

    /// Whether the codec holds a CR back.
    pub fn has_pending_cr(&self) -> (r: bool)
        ensures
            r == self@.codec.pending_cr,
    {
        self.codec.has_pending_client_cr()
    }

    /// Whether the login script has run all its steps.
    pub fn login_complete(&self) -> (r: bool)
        ensures
            r == (self@.login.next_step >= self@.login.steps.len()),
    {
        self.login.is_complete()
    }

    fn flush_pending_client_cr(&mut self, acts: &mut Vec<TelnetAction>)
        requires
            worker_inv(old(self)@),
        ensures
            final(self)@ == flush_cr(old(self)@).0,
            actions_view(final(acts)@) == actions_view(old(acts)@) + flush_cr(old(self)@).1,
            worker_inv(final(self)@),
    {
        let ghost start = actions_view(acts@);
        let ghost v = self@;
        let encoded = self.codec.flush_client_data();
        push_write(acts, encoded, TelnetWriteOperation::CrFlush, self.record_pending_cr);
        self.record_pending_cr = false;
        push_action(acts, TelnetAction::CancelCrFlush);
        assert(actions_view(acts@) =~= start + flush_cr(v).1);
    }

    fn write_telnet_protocol_bytes(&mut self, acts: &mut Vec<TelnetAction>, bytes: Vec<u8>, operation: TelnetWriteOperation)
        requires
            worker_inv(old(self)@),
        ensures
            final(self)@ == write_protocol(old(self)@, bytes@, operation).0,
            actions_view(final(acts)@) == actions_view(old(acts)@) + write_protocol(old(self)@, bytes@, operation).1,
            worker_inv(final(self)@),
    {
        let ghost start = actions_view(acts@);
        let ghost v = self@;
        self.flush_pending_client_cr(acts);
        push_action(acts, TelnetAction::Write { bytes, operation });
        assert(actions_view(acts@) =~= start + write_protocol(v, bytes@, operation).1);
    }

    fn write_telnet_client_data(&mut self, acts: &mut Vec<TelnetAction>, bytes: &[u8], operation: TelnetWriteOperation, record: bool)
        requires
            worker_inv(old(self)@),
        ensures
            final(self)@ == write_client(old(self)@, bytes@, operation, record).0,
            actions_view(final(acts)@) == actions_view(old(acts)@) + write_client(old(self)@, bytes@, operation, record).1,
            worker_inv(final(self)@),
    {
        let ghost start = actions_view(acts@);
        let ghost v = self@;
        if bytes.len() == 0 {
            assert(start + Seq::<TelnetStep>::empty() =~= start);
            return;
        }
        if self.codec.has_pending_client_cr() && self.record_pending_cr != record {
            self.flush_pending_client_cr(acts);
        } else {
            assert(start + Seq::<TelnetStep>::empty() =~= start);
        }
        let encoded = self.codec.encode_client_data(bytes);
        push_write(acts, encoded, operation, record);
        let pending = self.codec.has_pending_client_cr();
        self.record_pending_cr = record && pending;
        if pending {
            push_action(acts, TelnetAction::ArmCrFlush);
        } else {
            push_action(acts, TelnetAction::CancelCrFlush);
        }
        let ghost w = write_client(v, bytes@, operation, record);
        assert(actions_view(acts@) =~= start + w.1);
    }

    /// A CR flush when the timer fires: commits the held-back CR.
    pub fn flush_pending_cr(&mut self) -> (r: Vec<TelnetAction>)
        requires
            worker_inv(old(self)@),
        ensures
            (final(self)@, actions_view(r@)) == flush_cr(old(self)@),
            worker_inv(final(self)@),
            timer_after(old(self)@.codec.pending_cr, actions_view(r@)) == final(self)@.codec.pending_cr,
    {
        let mut acts: Vec<TelnetAction> = Vec::new();
        self.flush_pending_client_cr(&mut acts);
        assert(actions_view(acts@) =~= Seq::<TelnetStep>::empty() + flush_cr(old(self)@).1);
        acts
    }

    /// User input, recorded when `recordable`.
    pub fn write_user_input(&mut self, data: &[u8], recordable: bool) -> (r: Vec<TelnetAction>)
        requires
            worker_inv(old(self)@),
        ensures
            (final(self)@, actions_view(r@)) == write_client(old(self)@, data@, TelnetWriteOperation::UserInput, recordable),
            worker_inv(final(self)@),
            timer_after(old(self)@.codec.pending_cr, actions_view(r@)) == final(self)@.codec.pending_cr,
    {
        proof {
            lemma_client_write_keeps_timer(old(self)@, data@, TelnetWriteOperation::UserInput, recordable);
        }
        let mut acts: Vec<TelnetAction> = Vec::new();
        self.write_telnet_client_data(&mut acts, data, TelnetWriteOperation::UserInput, recordable);
        assert(actions_view(acts@) =~= Seq::<TelnetStep>::empty() + write_client(old(self)@, data@, TelnetWriteOperation::UserInput, recordable).1);
        acts
    }

    /// The terminal's own reply (such as a cursor report), never recorded.
    pub fn write_terminal_response(&mut self, data: &[u8]) -> (r: Vec<TelnetAction>)
        requires
            worker_inv(old(self)@),
        ensures
            (final(self)@, actions_view(r@)) == write_client(old(self)@, data@, TelnetWriteOperation::TerminalResponse, false),
            worker_inv(final(self)@),
            timer_after(old(self)@.codec.pending_cr, actions_view(r@)) == final(self)@.codec.pending_cr,
    {
        proof {
            lemma_client_write_keeps_timer(old(self)@, data@, TelnetWriteOperation::TerminalResponse, false);
        }
        let mut acts: Vec<TelnetAction> = Vec::new();
        self.write_telnet_client_data(&mut acts, data, TelnetWriteOperation::TerminalResponse, false);
        assert(actions_view(acts@) =~= Seq::<TelnetStep>::empty() + write_client(old(self)@, data@, TelnetWriteOperation::TerminalResponse, false).1);
        acts
    }

    /// A new window size.
    pub fn resize(&mut self, cols: u16, rows: u16) -> (r: Vec<TelnetAction>)
        requires
            worker_inv(old(self)@),
        ensures
            (final(self)@, actions_view(r@)) == resize_window(old(self)@, cols, rows),
            worker_inv(final(self)@),
            timer_after(old(self)@.codec.pending_cr, actions_view(r@)) == final(self)@.codec.pending_cr,
    {
        proof {
            lemma_resize_keeps_timer(old(self)@, cols, rows);
        }
        let mut acts: Vec<TelnetAction> = Vec::new();
        self.codec.set_window_size(cols, rows);
        match self.codec.naws_message() {
            Some(message) => {
                self.write_telnet_protocol_bytes(&mut acts, message, TelnetWriteOperation::NawsUpdate);
                assert(actions_view(acts@) =~= Seq::<TelnetStep>::empty() + resize_window(old(self)@, cols, rows).1);
            },
            None => {
                assert(actions_view(acts@) =~= Seq::<TelnetStep>::empty());
            },
        }
        acts
    }

    /// Server bytes read from the socket.
    pub fn receive(&mut self, bytes: &[u8]) -> (r: Vec<TelnetAction>)
        requires
            worker_inv(old(self)@),
        ensures
            (final(self)@, actions_view(r@)) == receive_bytes(old(self)@, bytes@),
            worker_inv(final(self)@),
            timer_after(old(self)@.codec.pending_cr, actions_view(r@)) == final(self)@.codec.pending_cr,
    {
        proof {
            lemma_receive_keeps_timer(old(self)@, bytes@);
        }
        let ghost v0 = self@;
        let mut acts: Vec<TelnetAction> = Vec::new();
        proof {
            lemma_filter_keeps_pending_cr(v0.codec, bytes@);
        }
        let (data, responses) = self.codec.filter_server_bytes(bytes);
        let ghost filtered = spec_filter(v0.codec, bytes@);
        let ghost v1 = self@;
        assert(v1 == (TelnetWorkerView { codec: filtered.0, login: v0.login, record_pending_cr: v0.record_pending_cr }));
        let mut i: usize = 0;
        assert(views_of(responses@).take(0) =~= Seq::<Seq<u8>>::empty());
        assert(actions_view(acts@) =~= Seq::<TelnetStep>::empty());
        while i < responses.len()
            invariant
                i <= responses@.len(),
                worker_inv(self@),
                views_of(responses@) == filtered.2,
                (self@, actions_view(acts@)) == write_protocol_all(v1, filtered.2.take(i as int), TelnetWriteOperation::NegotiationReply),
            decreases responses@.len() - i,
        {
            let frame = responses[i].clone();
            assert(frame@ =~= filtered.2[i as int]);
            self.write_telnet_protocol_bytes(&mut acts, frame, TelnetWriteOperation::NegotiationReply);
            i = i + 1;
            assert(filtered.2.take(i as int).drop_last() =~= filtered.2.take(i - 1));
        }
        assert(filtered.2.take(i as int) =~= filtered.2);
        let ghost replies = write_protocol_all(v1, filtered.2, TelnetWriteOperation::NegotiationReply);
        let sends = self.login.advance(data.as_slice());
        let ghost advanced = advance_result(replies.0.login, filtered.1);
        if data.len() > 0 {
            push_action(&mut acts, TelnetAction::Deliver(data));
        }
        let ghost v2 = self@;
        let ghost after_delivery = actions_view(acts@);
        assert(after_delivery =~= replies.1 + (if filtered.1.len() > 0 {
            seq![TelnetStep::Deliver(filtered.1)]
        } else {
            Seq::<TelnetStep>::empty()
        }));
        let mut k: usize = 0;
        assert(advanced.0.take(0) =~= Seq::<Seq<u8>>::empty());
        assert(after_delivery + Seq::<TelnetStep>::empty() =~= after_delivery);
        while k < sends.len()
            invariant
                k <= sends@.len(),
                worker_inv(self@),
                views_of(sends@) == advanced.0,
                ({
                    let w = write_client_all(v2, advanced.0.take(k as int), TelnetWriteOperation::LoginScript, false);
                    self@ == w.0 && actions_view(acts@) == after_delivery + w.1
                }),
            decreases sends@.len() - k,
        {
            assert(sends@[k as int]@ == advanced.0[k as int]);
            self.write_telnet_client_data(&mut acts, sends[k].as_slice(), TelnetWriteOperation::LoginScript, false);
            k = k + 1;
            assert(advanced.0.take(k as int).drop_last() =~= advanced.0.take(k - 1));
            assert(actions_view(acts@) =~= after_delivery + write_client_all(v2, advanced.0.take(k as int), TelnetWriteOperation::LoginScript, false).1);
        }
        assert(advanced.0.take(k as int) =~= advanced.0);
        let ghost total = receive_bytes(v0, bytes@);
        assert(actions_view(acts@) =~= total.1);
        acts
    }
}

/// The codec's filter never touches the CR held back from client writes.
proof fn lemma_filter_keeps_pending_cr(m: TelnetCodecModel, bytes: Seq<u8>)
    ensures
        spec_filter(m, bytes).0.pending_cr == m.pending_cr,
    decreases bytes.len(),
{
    if bytes.len() > 0 {
        lemma_filter_keeps_pending_cr(m, bytes.drop_last());
        let before = spec_filter(m, bytes.drop_last());
        let step = spec_server_step(before.0, bytes.last());
        assert(step.0.pending_cr == before.0.pending_cr);
    }
}

// ---------------------------------------------------------------------------
// The flush timer follows the held-back CR.
// ---------------------------------------------------------------------------

/// Steps after steps: the later ones decide when they arm or cancel.
proof fn lemma_timer_append(armed: bool, a: Seq<TelnetStep>, b: Seq<TelnetStep>)
    ensures
        timer_after(armed, a + b) == timer_after(timer_after(armed, a), b),
    decreases b.len(),
{
    if b.len() == 0 {
        assert(a + b =~= a);
    } else {
        assert((a + b).drop_last() =~= a + b.drop_last());
        assert((a + b).last() == b.last());
        lemma_timer_append(armed, a, b.drop_last());
    }
}

proof fn lemma_timer_protocol(armed: bool, v: TelnetWorkerView, bytes: Seq<u8>, operation: TelnetWriteOperation)
    ensures
        timer_after(armed, write_protocol(v, bytes, operation).1) == false,
        write_protocol(v, bytes, operation).0.codec.pending_cr == false,
{
    let f = flush_cr(v);
    let steps = f.1.push(TelnetStep::Write(bytes, operation));
    assert(steps.drop_last() =~= f.1);
    assert(f.1.last() == TelnetStep::CancelCrFlush);
    assert(timer_after(armed, f.1) == false);
    assert(steps.last() == TelnetStep::Write(bytes, operation));
}

proof fn lemma_timer_protocol_all(v: TelnetWorkerView, frames: Seq<Seq<u8>>, operation: TelnetWriteOperation)
    ensures
        timer_after(v.codec.pending_cr, write_protocol_all(v, frames, operation).1) == write_protocol_all(v, frames, operation).0.codec.pending_cr,
        write_protocol_all(v, frames, operation).0.login == v.login,
    decreases frames.len(),
{
    if frames.len() > 0 {
        lemma_timer_protocol_all(v, frames.drop_last(), operation);
        let before = write_protocol_all(v, frames.drop_last(), operation);
        lemma_timer_protocol(timer_after(v.codec.pending_cr, before.1), before.0, frames.last(), operation);
        lemma_timer_append(v.codec.pending_cr, before.1, write_protocol(before.0, frames.last(), operation).1);
    }
}

proof fn lemma_timer_client(v: TelnetWorkerView, bytes: Seq<u8>, operation: TelnetWriteOperation, record: bool)
    ensures
        timer_after(v.codec.pending_cr, write_client(v, bytes, operation, record).1) == write_client(v, bytes, operation, record).0.codec.pending_cr,
        write_client(v, bytes, operation, record).0.login == v.login,
{
}

proof fn lemma_timer_client_all(v: TelnetWorkerView, writes: Seq<Seq<u8>>, operation: TelnetWriteOperation, record: bool)
    ensures
        timer_after(v.codec.pending_cr, write_client_all(v, writes, operation, record).1) == write_client_all(v, writes, operation, record).0.codec.pending_cr,
    decreases writes.len(),
{
    if writes.len() > 0 {
        lemma_timer_client_all(v, writes.drop_last(), operation, record);
        let before = write_client_all(v, writes.drop_last(), operation, record);
        let last = write_client(before.0, writes.last(), operation, record);
        lemma_timer_client(before.0, writes.last(), operation, record);
        lemma_timer_append(v.codec.pending_cr, before.1, last.1);
    }
}

/// The caller's flush timer follows the held-back CR: if it runs exactly
/// while a CR is held back before server bytes arrive, it still does after
/// the caller performs their actions.
pub proof fn lemma_receive_keeps_timer(v: TelnetWorkerView, bytes: Seq<u8>)
    ensures
        timer_after(v.codec.pending_cr, receive_bytes(v, bytes).1) == receive_bytes(v, bytes).0.codec.pending_cr,
{
    let filtered = spec_filter(v.codec, bytes);
    lemma_filter_keeps_pending_cr(v.codec, bytes);
    let v1 = TelnetWorkerView { codec: filtered.0, login: v.login, record_pending_cr: v.record_pending_cr };
    let replies = write_protocol_all(v1, filtered.2, TelnetWriteOperation::NegotiationReply);
    lemma_timer_protocol_all(v1, filtered.2, TelnetWriteOperation::NegotiationReply);
    let advanced = advance_result(replies.0.login, filtered.1);
    let delivery = if filtered.1.len() > 0 {
        seq![TelnetStep::Deliver(filtered.1)]
    } else {
        Seq::<TelnetStep>::empty()
    };
    let v2 = TelnetWorkerView { codec: replies.0.codec, login: advanced.1, record_pending_cr: replies.0.record_pending_cr };
    let sends = write_client_all(v2, advanced.0, TelnetWriteOperation::LoginScript, false);
    lemma_timer_client_all(v2, advanced.0, TelnetWriteOperation::LoginScript, false);
    lemma_timer_append(v.codec.pending_cr, replies.1, delivery);
    lemma_timer_append(v.codec.pending_cr, replies.1 + delivery, sends.1);
    let t = timer_after(v.codec.pending_cr, replies.1);
    if filtered.1.len() > 0 {
        assert(delivery.drop_last() =~= Seq::<TelnetStep>::empty());
        assert(timer_after(t, delivery.drop_last()) == t);
    }
    assert(timer_after(t, delivery) == t);
}

/// A resize keeps the timer following the held-back CR.
pub proof fn lemma_resize_keeps_timer(v: TelnetWorkerView, cols: u16, rows: u16)
    ensures
        timer_after(v.codec.pending_cr, resize_window(v, cols, rows).1) == resize_window(v, cols, rows).0.codec.pending_cr,
{
    let codec = TelnetCodecModel {
        cols: if cols < 2 { 2 } else { cols },
        rows: if rows < 2 { 2 } else { rows },
        ..v.codec
    };
    let resized = TelnetWorkerView { codec, login: v.login, record_pending_cr: v.record_pending_cr };
    match spec_naws_message(codec) {
        Some(message) => lemma_timer_protocol(v.codec.pending_cr, resized, message, TelnetWriteOperation::NawsUpdate),
        None => {},
    }
}

/// A client write keeps the timer following the held-back CR.
pub proof fn lemma_client_write_keeps_timer(v: TelnetWorkerView, bytes: Seq<u8>, operation: TelnetWriteOperation, record: bool)
    ensures
        timer_after(v.codec.pending_cr, write_client(v, bytes, operation, record).1) == write_client(v, bytes, operation, record).0.codec.pending_cr,
{
    lemma_timer_client(v, bytes, operation, record);
}

// ---------------------------------------------------------------------------
// Terminal delivery.
// ---------------------------------------------------------------------------

/// What became of output handed to the terminal.
pub enum TelnetDeliveryOutcome {
    Delivered,
    /// The terminal's queue is full; the text describes the refusal.
    Full(String),
    /// The terminal is gone.
    Closed,
    /// Refused for another reason, described by the text.
    Rejected(String),
}

/// How the session goes on after a delivery.
pub enum TelnetDeliveryDecision {
    Continue,
    /// Keep the output and stop reading from the socket until the terminal
    /// takes it.
    HoldReads,
    Stop(TelnetDisconnectReason),
}

/// Output handed over right after a read: a full queue holds further reads
/// until the terminal takes it, a closed terminal ends the session, and any
/// other refusal ends it as an output-queue failure.
pub fn delivery_decision(outcome: TelnetDeliveryOutcome) -> (r: TelnetDeliveryDecision)
    ensures
        match outcome {
            TelnetDeliveryOutcome::Delivered => r is Continue,
            TelnetDeliveryOutcome::Full(_) => r is HoldReads,
            TelnetDeliveryOutcome::Closed => r matches TelnetDeliveryDecision::Stop(TelnetDisconnectReason::Shutdown),
            TelnetDeliveryOutcome::Rejected(text) => r matches TelnetDeliveryDecision::Stop(
                TelnetDisconnectReason::OutputQueue(message),
            ) && message@ == text@,
        },
{
    match outcome {
        TelnetDeliveryOutcome::Delivered => TelnetDeliveryDecision::Continue,
        TelnetDeliveryOutcome::Full(_) => TelnetDeliveryDecision::HoldReads,
        TelnetDeliveryOutcome::Closed => TelnetDeliveryDecision::Stop(TelnetDisconnectReason::Shutdown),
        TelnetDeliveryOutcome::Rejected(text) => TelnetDeliveryDecision::Stop(TelnetDisconnectReason::OutputQueue(text)),
    }
}

/// Output that was held while reads waited: once the terminal takes it the
/// session goes on; a closed terminal ends it, and any refusal, a full queue
/// included, ends it as an output-queue failure.
pub fn held_delivery_decision(outcome: TelnetDeliveryOutcome) -> (r: TelnetDeliveryDecision)
    ensures
        match outcome {
            TelnetDeliveryOutcome::Delivered => r is Continue,
            TelnetDeliveryOutcome::Closed => r matches TelnetDeliveryDecision::Stop(TelnetDisconnectReason::Shutdown),
            TelnetDeliveryOutcome::Full(text) => r matches TelnetDeliveryDecision::Stop(
                TelnetDisconnectReason::OutputQueue(message),
            ) && message@ == text@,
            TelnetDeliveryOutcome::Rejected(text) => r matches TelnetDeliveryDecision::Stop(
                TelnetDisconnectReason::OutputQueue(message),
            ) && message@ == text@,
        },
{
    match outcome {
        TelnetDeliveryOutcome::Delivered => TelnetDeliveryDecision::Continue,
        TelnetDeliveryOutcome::Closed => TelnetDeliveryDecision::Stop(TelnetDisconnectReason::Shutdown),
        TelnetDeliveryOutcome::Full(text) => TelnetDeliveryDecision::Stop(TelnetDisconnectReason::OutputQueue(text)),
        TelnetDeliveryOutcome::Rejected(text) => TelnetDeliveryDecision::Stop(TelnetDisconnectReason::OutputQueue(text)),
    }
}

} // verus!
