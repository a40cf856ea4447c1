//! Expect/send login scripts shared by the SSH and Telnet sessions: the
//! escape syntax of send texts, byte patterns compiled by the `regex` crate,
//! and the script that feeds server output through its steps in order, each
//! step at most once, over a bounded window of unmatched output.

use vstd::prelude::*;
use crate::bytes::views_of;
use crate::bytes::lemma_views_of_push;
use crate::bytes::push_all;
use crate::bytes::append_all;

verus! {

/// Most unmatched output kept between reads.
pub const MAX_PENDING_BYTES: usize = 16384;
/// Output is matched in pieces of at most this many bytes.
pub const FEED_CHUNK_BYTES: usize = 8192;

pub const BACKSLASH: u8 = 92;
pub const CR: u8 = 13;
pub const LF: u8 = 10;
pub const TAB: u8 = 9;
pub const NUL: u8 = 0;
pub const LETTER_R: u8 = 114;
pub const LETTER_N: u8 = 110;
pub const LETTER_T: u8 = 116;
pub const LETTER_X: u8 = 120;
pub const DIGIT_ZERO: u8 = 48;
pub const DIGIT_NINE: u8 = 57;
pub const SMALL_A: u8 = 97;
pub const SMALL_F: u8 = 102;
pub const CAPITAL_A: u8 = 65;
pub const CAPITAL_F: u8 = 70;

// ---------------------------------------------------------------------------
// Send texts
// ---------------------------------------------------------------------------

/// The value of a hexadecimal digit.
pub open spec fn hex_digit(b: u8) -> Option<u8> {
    if DIGIT_ZERO <= b && b <= DIGIT_NINE {
        Some((b - DIGIT_ZERO) as u8)
    } else if SMALL_A <= b && b <= SMALL_F {
        Some((b - SMALL_A + 10) as u8)
    } else if CAPITAL_A <= b && b <= CAPITAL_F {
        Some((b - CAPITAL_A + 10) as u8)
    } else {
        None
    }
}

/// The byte that a two-byte escape `\e` stands for: `\r`, `\n`, `\t`, `\0`
/// or `\\`.
pub open spec fn simple_escape(e: u8) -> Option<u8> {
    if e == LETTER_R {
        Some(CR)
    } else if e == LETTER_N {
        Some(LF)
    } else if e == LETTER_T {
        Some(TAB)
    } else if e == DIGIT_ZERO {
        Some(NUL)
    } else if e == BACKSLASH {
        Some(BACKSLASH)
    } else {
        None
    }
}

/// The bytes that a send text's bytes stand for: `\r`, `\n`, `\t`, `\0`,
/// `\\` and `\xNN` are replaced by the byte they name; any other backslash,
/// and one at the end, stands for itself.
pub open spec fn unescape(b: Seq<u8>) -> Seq<u8>
    decreases b.len(),
{
    if b.len() == 0 {
        Seq::empty()
    } else if b[0] != BACKSLASH || b.len() == 1 {
        seq![b[0]] + unescape(b.drop_first())
    } else if simple_escape(b[1]) is Some {
        seq![simple_escape(b[1])->0] + unescape(b.skip(2))
    } else if b[1] == LETTER_X && b.len() >= 4 && hex_digit(b[2]) is Some && hex_digit(b[3]) is Some {
        seq![(hex_digit(b[2])->0 * 16 + hex_digit(b[3])->0) as u8] + unescape(b.skip(4))
    } else {
        seq![BACKSLASH] + unescape(b.drop_first())
    }
}

/// The bytes sent for a step's text: its escapes resolved, and a carriage
/// return added unless the result already ends in CR or LF.
pub open spec fn login_send(text: Seq<char>) -> Seq<u8> {
    let u = unescape(vstd::utf8::encode_utf8(text));
    if u.len() > 0 && (u.last() == CR || u.last() == LF) {
        u
    } else {
        u.push(CR)
    }
}

fn hex_value(byte: u8) -> (r: Option<u8>)
    ensures
        r == hex_digit(byte),
{
    if DIGIT_ZERO <= byte && byte <= DIGIT_NINE {
        Some(byte - DIGIT_ZERO)
    } else if SMALL_A <= byte && byte <= SMALL_F {
        Some(byte - SMALL_A + 10)
    } else if CAPITAL_A <= byte && byte <= CAPITAL_F {
        Some(byte - CAPITAL_A + 10)
    } else {
        None
    }
}

/// The byte named by the first two hexadecimal digits of `bytes`.
fn parse_hex_byte(bytes: &[u8]) -> (r: Option<u8>)
    ensures
        r == (if bytes@.len() >= 2 && hex_digit(bytes@[0]) is Some && hex_digit(bytes@[1]) is Some {
            Some((hex_digit(bytes@[0])->0 * 16 + hex_digit(bytes@[1])->0) as u8)
        } else {
            None
        }),
{
    if bytes.len() < 2 {
        return None;
    }
    let high = match hex_value(bytes[0]) {
        Some(v) => v,
        None => return None,
    };
    let low = match hex_value(bytes[1]) {
        Some(v) => v,
        None => return None,
    };
    Some(high * 16 + low)
}

/// Resolves the escape that starts at `*index`, which holds a backslash.
fn parse_escape(bytes: &[u8], index: &mut usize, output: &mut Vec<u8>)
    requires
        *old(index) < bytes@.len(),
        bytes@[*old(index) as int] == BACKSLASH,
    ensures
        *old(index) < *final(index) <= bytes@.len(),
        final(output)@ + unescape(bytes@.skip(*final(index) as int)) == old(output)@ + unescape(bytes@.skip(*old(index) as int)),
{
    let ghost b = bytes@;
    let ghost i = *index as int;
    assert(b.skip(i)[0] == BACKSLASH);
    if *index >= bytes.len() - 1 {
        output.push(BACKSLASH);
        *index = *index + 1;
        assert(b.skip(i).drop_first() =~= b.skip(i + 1));
        return;
    }
    let escaped = bytes[*index + 1];
    assert(b.skip(i)[1] == escaped);
    assert(b.skip(i).skip(2) =~= b.skip(i + 2));
    assert(b.skip(i).drop_first() =~= b.skip(i + 1));
    if escaped == LETTER_R {
        output.push(CR);
        *index = *index + 2;
    } else if escaped == LETTER_N {
        output.push(LF);
        *index = *index + 2;
    } else if escaped == LETTER_T {
        output.push(TAB);
        *index = *index + 2;
    } else if escaped == DIGIT_ZERO {
        output.push(NUL);
        *index = *index + 2;
    } else if escaped == BACKSLASH {
        output.push(BACKSLASH);
        *index = *index + 2;
    } else if escaped == LETTER_X {
        let rest = vstd::slice::slice_subrange(bytes, *index + 2, bytes.len());
        assert(rest@ =~= b.skip(i + 2));
        match parse_hex_byte(rest) {
            Some(value) => {
                output.push(value);
                *index = *index + 4;
                assert(b.skip(i).skip(4) =~= b.skip(i + 4));
            },
            None => {
                output.push(BACKSLASH);
                *index = *index + 1;
            },
        }
    } else {
        output.push(BACKSLASH);
        *index = *index + 1;
    }
}

/// The bytes of `input` with its escapes resolved.
pub fn parse_send_escapes(input: &str) -> (r: Vec<u8>)
    ensures
        r@ == unescape(vstd::utf8::encode_utf8(input@)),
{
    let bytes = input.as_bytes();
    let ghost b = bytes@;
    let mut output: Vec<u8> = Vec::new();
    let mut index: usize = 0;
    assert(b.skip(0) =~= b);
    while index < bytes.len()
        invariant
            b == bytes@,
            index <= b.len(),
            output@ + unescape(b.skip(index as int)) == unescape(b),
        decreases b.len() - index,
    {
        if bytes[index] != BACKSLASH {
            let ghost i = index as int;
            assert(b.skip(i)[0] == b[i]);
            assert(b.skip(i).drop_first() =~= b.skip(i + 1));
            output.push(bytes[index]);
            index = index + 1;
            assert(output@ + unescape(b.skip(index as int)) =~= unescape(b));
        } else {
            parse_escape(bytes, &mut index, &mut output);
        }
    }
    assert(b.skip(b.len() as int) =~= Seq::<u8>::empty());
    assert(output@ + unescape(b.skip(index as int)) =~= output@);
    output
}

/// The bytes sent for `send`: escapes resolved, ending in CR or LF.
pub fn compile_login_send(send: &str) -> (r: Vec<u8>)
    ensures
        r@ == login_send(send@),
{
    let mut bytes = parse_send_escapes(send);
    let n = bytes.len();
    if n == 0 || (bytes[n - 1] != CR && bytes[n - 1] != LF) {
        bytes.push(CR);
    }
    bytes
}

// ---------------------------------------------------------------------------
// Byte patterns
// ---------------------------------------------------------------------------

#[verifier::external_type_specification]
#[verifier::external_body]
pub struct ExRegex(regex::bytes::Regex);

#[verifier::external_type_specification]
#[verifier::external_body]
pub struct ExRegexError(regex::Error);

/// Whether `regex::bytes::Regex::new` accepts `pattern`.
pub uninterp spec fn regex_accepts(pattern: Seq<char>) -> bool;

/// The first match of `pattern` in `haystack`, as found by
/// `regex::bytes::Regex::find`: its start and end offsets.
pub uninterp spec fn regex_first_match(pattern: Seq<char>, haystack: Seq<u8>) -> Option<(int, int)>;

/// `regex::bytes::Regex::new`: a compiled regex, or the error for a pattern
/// it refuses. Whether it refuses depends on the pattern alone.
#[verifier::external_body]
fn regex_new(pattern: &str) -> (r: Result<regex::bytes::Regex, regex::Error>)
    ensures
        r is Ok <==> regex_accepts(pattern@),
{
    regex::bytes::Regex::new(pattern)
}

/// `regex::Error::Syntax` with the given message.
#[verifier::external_body]
pub(crate) fn regex_syntax_error(message: &str) -> (r: regex::Error) {
    regex::Error::Syntax(message.to_string())
}

/// A byte regex, together with the pattern it was compiled from.
pub struct BytePattern {
    regex: regex::bytes::Regex,
    pattern: Ghost<Seq<char>>,
}

impl View for BytePattern {
    type V = Seq<char>;

    closed spec fn view(&self) -> Seq<char> {
        self.pattern@
    }
}

/// Compiles `pattern` as a byte regex.
pub fn compile_pattern(pattern: &str) -> (r: Result<BytePattern, regex::Error>)
    ensures
        r is Ok <==> regex_accepts(pattern@),
        r matches Ok(p) ==> p@ == pattern@,
{
    match regex_new(pattern) {
        Ok(regex) => Ok(BytePattern { regex, pattern: Ghost(pattern@) }),
        Err(e) => Err(e),
    }
}

/// `regex::bytes::Regex::find`: the offsets of the first match in
/// `haystack`, which the crate documents as a range of it (`start <= end <=
/// len`). The value rests on `p` holding the regex compiled from `p@`, which
/// `compile_pattern`, the only constructor, ensures.
#[verifier::external_body]
fn pattern_find(p: &BytePattern, haystack: &[u8]) -> (r: Option<(usize, usize)>)
    ensures
        match r {
            Some((s, e)) => regex_first_match(p@, haystack@) == Some((s as int, e as int)) && s <= e
                <= haystack@.len(),
            None => regex_first_match(p@, haystack@) is None,
        },
{
    match p.regex.find(haystack) {
        Some(m) => Some((m.start(), m.end())),
        None => None,
    }
}

/// Whether the pattern matches empty input: `find` there finds a match.
pub(crate) fn pattern_matches_empty(p: &BytePattern) -> (r: bool)
    ensures
        r == regex_first_match(p@, Seq::empty()) is Some,
{
    let empty: Vec<u8> = Vec::new();
    assert(empty@ =~= Seq::<u8>::empty());
    pattern_find(p, empty.as_slice()).is_some()
}

// ---------------------------------------------------------------------------
// Scripts
// ---------------------------------------------------------------------------

/// One step of a script: the pattern awaited and the bytes sent when it
/// matches.
pub struct ExpectStepView {
    pub pattern: Seq<char>,
    pub send: Seq<u8>,
}

/// A script: its steps, the index of the step awaited next, and the output
/// not yet consumed by a match.
pub struct ExpectState {
    pub steps: Seq<ExpectStepView>,
    pub next_step: nat,
    pub pending: Seq<u8>,
}

/// A fresh script over `steps`.
pub open spec fn fresh_state(steps: Seq<ExpectStepView>) -> ExpectState {
    ExpectState { steps, next_step: 0, pending: Seq::empty() }
}

/// What every script keeps: the awaited step exists or the script is done,
/// and the unmatched output stays within its window.
pub open spec fn script_inv(s: ExpectState) -> bool {
    s.next_step <= s.steps.len() && s.pending.len() <= MAX_PENDING_BYTES
}

/// The sends of `steps`, in order.
pub open spec fn sends_of(steps: Seq<ExpectStepView>) -> Seq<Seq<u8>> {
    Seq::new(steps.len(), |i: int| steps[i].send)
}

/// Matching the steps from `next` against `pending`: each step whose pattern
/// matches sends its bytes and consumes the output through the end of its
/// match; the first step that does not match stops the run. Gives the sends,
/// the next step and what is left of the output.
pub open spec fn run_matches(steps: Seq<ExpectStepView>, next: nat, pending: Seq<u8>) -> (Seq<Seq<u8>>, nat, Seq<u8>)
    decreases steps.len() - next,
{
    if next >= steps.len() {
        (Seq::empty(), next, pending)
    } else {
        match regex_first_match(steps[next as int].pattern, pending) {
            None => (Seq::empty(), next, pending),
            Some((_, end)) => {
                let rest = run_matches(steps, next + 1, pending.skip(end));
                (seq![steps[next as int].send] + rest.0, rest.1, rest.2)
            },
        }
    }
}

/// The last `MAX_PENDING_BYTES` bytes of `p`.
pub open spec fn trim_window(p: Seq<u8>) -> Seq<u8> {
    if p.len() > MAX_PENDING_BYTES {
        p.skip(p.len() - MAX_PENDING_BYTES)
    } else {
        p
    }
}

/// One piece of output: appended to the window and matched; the window is
/// emptied when the script completes and trimmed otherwise.
pub open spec fn feed_chunk(steps: Seq<ExpectStepView>, next: nat, pending: Seq<u8>, chunk: Seq<u8>) -> (Seq<Seq<u8>>, nat, Seq<u8>) {
    let m = run_matches(steps, next, pending + chunk);
    if m.1 >= steps.len() {
        (m.0, m.1, Seq::empty())
    } else {
        (m.0, m.1, trim_window(m.2))
    }
}

/// The size of the first piece of `len` bytes of output.
pub open spec fn chunk_len(len: nat) -> nat {
    if len < FEED_CHUNK_BYTES {
        len
    } else {
        FEED_CHUNK_BYTES as nat
    }
}

/// Output fed piece by piece, stopping once the script completes.
pub open spec fn feed(steps: Seq<ExpectStepView>, next: nat, pending: Seq<u8>, data: Seq<u8>) -> (Seq<Seq<u8>>, nat, Seq<u8>)
    decreases data.len(),
{
    if data.len() == 0 {
        (Seq::empty(), next, pending)
    } else {
        let n = chunk_len(data.len());
        let first = feed_chunk(steps, next, pending, data.take(n as int));
        if first.1 >= steps.len() {
            first
        } else {
            let rest = feed(steps, first.1, first.2, data.skip(n as int));
            (first.0 + rest.0, rest.1, rest.2)
        }
    }
}

/// The sends and the new state when `data` arrives. A completed script, or
/// empty output, changes nothing.
pub open spec fn advance_result(s: ExpectState, data: Seq<u8>) -> (Seq<Seq<u8>>, ExpectState) {
    if s.next_step >= s.steps.len() || data.len() == 0 {
        (Seq::empty(), s)
    } else {
        let f = feed(s.steps, s.next_step, s.pending, data);
        (f.0, ExpectState { steps: s.steps, next_step: f.1, pending: f.2 })
    }
}

/// Matching runs steps in order from `next`, each once, and sends exactly
/// their bytes.
pub proof fn lemma_run_matches(steps: Seq<ExpectStepView>, next: nat, pending: Seq<u8>)
    requires
        next <= steps.len(),
    ensures
        next <= run_matches(steps, next, pending).1 <= steps.len(),
        run_matches(steps, next, pending).0 == sends_of(steps.subrange(next as int, run_matches(steps, next, pending).1 as int)),
    decreases steps.len() - next,
{
    let m = run_matches(steps, next, pending);
    if next >= steps.len() {
        assert(m.0 =~= sends_of(steps.subrange(next as int, m.1 as int)));
    } else {
        match regex_first_match(steps[next as int].pattern, pending) {
            None => {
                assert(m.0 =~= sends_of(steps.subrange(next as int, m.1 as int)));
            },
            Some((_, end)) => {
                lemma_run_matches(steps, next + 1, pending.skip(end));
                assert(m.0 =~= sends_of(steps.subrange(next as int, m.1 as int)));
            },
        }
    }
}

/// Sends of two adjacent runs of steps join into the sends of both.
proof fn lemma_sends_join(steps: Seq<ExpectStepView>, i: int, j: int, k: int)
    requires
        0 <= i <= j <= k <= steps.len(),
    ensures
        sends_of(steps.subrange(i, j)) + sends_of(steps.subrange(j, k)) == sends_of(steps.subrange(i, k)),
{
    assert(sends_of(steps.subrange(i, j)) + sends_of(steps.subrange(j, k)) =~= sends_of(steps.subrange(i, k)));
}

/// Feeding output runs steps in order from `next`, each once, sends exactly
/// their bytes, and leaves the window within its bound.
pub proof fn lemma_feed(steps: Seq<ExpectStepView>, next: nat, pending: Seq<u8>, data: Seq<u8>)
    requires
        next <= steps.len(),
        pending.len() <= MAX_PENDING_BYTES,
    ensures
        next <= feed(steps, next, pending, data).1 <= steps.len(),
        feed(steps, next, pending, data).0 == sends_of(steps.subrange(next as int, feed(steps, next, pending, data).1 as int)),
        feed(steps, next, pending, data).2.len() <= MAX_PENDING_BYTES,
    decreases data.len(),
{
    let f = feed(steps, next, pending, data);
    if data.len() == 0 {
        assert(f.0 =~= sends_of(steps.subrange(next as int, f.1 as int)));
    } else {
        let n = chunk_len(data.len());
        let first = feed_chunk(steps, next, pending, data.take(n as int));
        lemma_run_matches(steps, next, pending + data.take(n as int));
        if first.1 < steps.len() {
            lemma_feed(steps, first.1, first.2, data.skip(n as int));
            let rest = feed(steps, first.1, first.2, data.skip(n as int));
            lemma_sends_join(steps, next as int, first.1 as int, rest.1 as int);
        }
    }
}

/// A compiled step: the pattern awaited and the bytes to send.
pub struct CompiledStep {
    expect: BytePattern,
    send: Vec<u8>,
}

impl View for CompiledStep {
    type V = ExpectStepView;

    closed spec fn view(&self) -> ExpectStepView {
        ExpectStepView { pattern: self.expect@, send: self.send@ }
    }
}

impl CompiledStep {
    /// The step that sends `send` when `expect` matches.
    pub fn new(expect: BytePattern, send: Vec<u8>) -> (r: Self)
        ensures
            r@ == (ExpectStepView { pattern: expect@, send: send@ }),
    {
        CompiledStep { expect, send }
    }
}

/// The views of compiled steps.
pub open spec fn steps_view(steps: Seq<CompiledStep>) -> Seq<ExpectStepView> {
    Seq::new(steps.len(), |i: int| steps[i]@)
}

/// Matches the steps from `next` against `pending`, as `run_matches` says.
fn match_pending(steps: &Vec<CompiledStep>, next: usize, pending: Vec<u8>) -> (r: (Vec<Vec<u8>>, usize, Vec<u8>))
    requires
        next <= steps@.len(),
    ensures
        (views_of(r.0@), r.1 as nat, r.2@) == run_matches(steps_view(steps@), next as nat, pending@),
{
    let ghost sv = steps_view(steps@);
    let ghost total = run_matches(sv, next as nat, pending@);
    let mut sends: Vec<Vec<u8>> = Vec::new();
    let mut next = next;
    let mut pending = pending;
    assert(views_of(sends@) + total.0 =~= total.0);
    while next < steps.len()
        invariant
            sv == steps_view(steps@),
            next <= steps@.len(),
            views_of(sends@) + run_matches(sv, next as nat, pending@).0 == total.0,
            run_matches(sv, next as nat, pending@).1 == total.1,
            run_matches(sv, next as nat, pending@).2 == total.2,
        ensures
            run_matches(sv, next as nat, pending@) == (Seq::<Seq<u8>>::empty(), next as nat, pending@),
        decreases steps@.len() - next,
    {
        let step = &steps[next];
        match pattern_find(&step.expect, pending.as_slice()) {
            None => {
                break;
            },
            Some((_, end)) => {
                let ghost n = next as nat;
                let ghost p = pending@;
                let ghost rest = run_matches(sv, n + 1, p.skip(end as int));
                assert(run_matches(sv, n, p) == (seq![sv[n as int].send] + rest.0, rest.1, rest.2));
                let send = step.send.clone();
                assert(send@ =~= sv[n as int].send);
                proof {
                    lemma_views_of_push(sends@, send);
                }
                let ghost before = views_of(sends@);
                sends.push(send);
                let tail = pending.split_off(end);
                pending = tail;
                next = next + 1;
                assert(pending@ =~= p.skip(end as int));
                assert(views_of(sends@) + rest.0 =~= before + (seq![sv[n as int].send] + rest.0));
            },
        }
    }
    assert(views_of(sends@) + Seq::<Seq<u8>>::empty() =~= views_of(sends@));
    (sends, next, pending)
}

/// The last `MAX_PENDING_BYTES` bytes of `pending`.
fn trim_pending(pending: Vec<u8>) -> (r: Vec<u8>)
    ensures
        r@ == trim_window(pending@),
{
    if pending.len() > MAX_PENDING_BYTES {
        let mut pending = pending;
        let at = pending.len() - MAX_PENDING_BYTES;
        let tail = pending.split_off(at);
        assert(tail@ =~= trim_window(pending@ + tail@));
        tail
    } else {
        pending
    }
}

/// An expect/send script: its compiled steps, the step awaited next and the
/// window of output not yet consumed by a match.
pub struct LoginScript {
    steps: Vec<CompiledStep>,
    next_step: usize,
    pending: Vec<u8>,
}

impl View for LoginScript {
    type V = ExpectState;

    closed spec fn view(&self) -> ExpectState {
        ExpectState { steps: steps_view(self.steps@), next_step: self.next_step as nat, pending: self.pending@ }
    }
}

impl LoginScript {
    /// A script over `steps`, awaiting the first.
    pub fn new(steps: Vec<CompiledStep>) -> (r: Self)
        ensures
            r@ == fresh_state(steps_view(steps@)),
            script_inv(r@),
    {
        LoginScript { steps, next_step: 0, pending: Vec::new() }
    }

    /// Whether every step has run.
    pub fn is_complete(&self) -> (r: bool)
        ensures
            r == (self@.next_step >= self@.steps.len()),
    {
        self.next_step >= self.steps.len()
    }

    /// How many bytes of unmatched output are kept.
    pub fn pending_len(&self) -> (r: usize)
        ensures
            r == self@.pending.len(),
    {
        self.pending.len()
    }

    /// Feeds server output to the script and gives the bytes to send, in
    /// order: steps run in their order, each at most once, and the unmatched
    /// output kept stays within `MAX_PENDING_BYTES`.
    pub fn advance(&mut self, data: &[u8]) -> (r: Vec<Vec<u8>>)
        requires
            script_inv(old(self)@),
        ensures
            (views_of(r@), final(self)@) == advance_result(old(self)@, data@),
            script_inv(final(self)@),
            final(self)@.steps == old(self)@.steps,
            old(self)@.next_step <= final(self)@.next_step,
            views_of(r@) == sends_of(old(self)@.steps.subrange(old(self)@.next_step as int, final(self)@.next_step as int)),
    {
        let ghost s0 = self@;
        if self.is_complete() || data.len() == 0 {
            let r: Vec<Vec<u8>> = Vec::new();
            assert(views_of(r@) =~= Seq::<Seq<u8>>::empty());
            assert(sends_of(s0.steps.subrange(s0.next_step as int, s0.next_step as int)) =~= Seq::<Seq<u8>>::empty());
            return r;
        }
        let ghost sv = s0.steps;
        let mut pending: Vec<u8> = Vec::new();
        core::mem::swap(&mut pending, &mut self.pending);
        let mut next = self.next_step;
        let mut sends: Vec<Vec<u8>> = Vec::new();
        let mut offset: usize = 0;
        let ghost whole = feed(sv, next as nat, pending@, data@);
        assert(data@.skip(0) =~= data@);
        assert(views_of(sends@) + whole.0 =~= whole.0);
        while offset < data.len()
            invariant_except_break
                next < sv.len(),
            invariant
                sv == steps_view(self.steps@),
                offset <= data@.len(),
                views_of(sends@) + feed(sv, next as nat, pending@, data@.skip(offset as int)).0 == whole.0,
                feed(sv, next as nat, pending@, data@.skip(offset as int)).1 == whole.1,
                feed(sv, next as nat, pending@, data@.skip(offset as int)).2 == whole.2,
            ensures
                whole == (views_of(sends@), next as nat, pending@),
            decreases data@.len() - offset,
        {
            let remaining = data.len() - offset;
            let n = if remaining < FEED_CHUNK_BYTES {
                remaining
            } else {
                FEED_CHUNK_BYTES
            };
            let end = offset + n;
            let chunk = vstd::slice::slice_subrange(data, offset, end);
            let ghost here = data@.skip(offset as int);
            let ghost before = views_of(sends@);
            let ghost n0 = next as nat;
            let ghost p0 = pending@;
            assert(here.take(n as int) =~= chunk@);
            assert(here.skip(n as int) =~= data@.skip(end as int));
            assert(n as nat == chunk_len(here.len()));
            push_all(&mut pending, chunk);
            let (found, new_next, rest) = match_pending(&self.steps, next, pending);
            let ghost m = run_matches(sv, n0, p0 + chunk@);
            append_all(&mut sends, found);
            next = new_next;
            if next >= self.steps.len() {
                pending = Vec::new();
                assert(pending@ =~= Seq::<u8>::empty());
                break;
            }
            pending = trim_pending(rest);
            offset = end;
            let ghost later = feed(sv, next as nat, pending@, data@.skip(offset as int));
            assert(views_of(sends@) + later.0 =~= before + (m.0 + later.0));
        }
        self.pending = pending;
        self.next_step = next;
        proof {
            lemma_feed(sv, s0.next_step, s0.pending, data@);
        }
        sends
    }
}

} // verus!
