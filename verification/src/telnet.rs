//! Telnet protocol codec.
//!
//! The codec statefully strips IAC negotiation and subnegotiation from the
//! server byte stream (across read boundaries) and produces the replies, keeps
//! the negotiation state of every option for each direction, escapes client
//! IAC bytes and applies NVT CR encoding until BINARY is negotiated, and
//! builds the NAWS window-size message once the server agreed to NAWS.

use vstd::prelude::*;
use crate::bytes::{views_of, lemma_views_of_push, push_all, append_all};
use crate::error_text::io_error_text;

verus! {

pub const TELNET_COMMAND_IAC: u8 = 255;
pub const TELNET_COMMAND_DONT: u8 = 254;
pub const TELNET_COMMAND_DO: u8 = 253;
pub const TELNET_COMMAND_WONT: u8 = 252;
pub const TELNET_COMMAND_WILL: u8 = 251;
pub const TELNET_COMMAND_SB: u8 = 250;
pub const TELNET_COMMAND_AYT: u8 = 246;
pub const TELNET_COMMAND_SE: u8 = 240;

pub const TELNET_OPTION_BINARY: u8 = 0;
pub const TELNET_OPTION_ECHO: u8 = 1;
pub const TELNET_OPTION_SUPPRESS_GO_AHEAD: u8 = 3;
pub const TELNET_OPTION_TERMINAL_TYPE: u8 = 24;
pub const TELNET_OPTION_NAWS: u8 = 31;
pub const TELNET_TERMINAL_TYPE_IS: u8 = 0;
pub const TELNET_TERMINAL_TYPE_SEND: u8 = 1;

/// Longest subnegotiation payload that is buffered; a longer one is
/// discarded up to the next valid `IAC SE`.
pub const TELNET_MAX_PENDING_BYTES: usize = 65536;

/// Number of distinct option codes.
pub const TELNET_OPTION_COUNT: usize = 256;

/// The terminal type announced to the server: `xterm-256color`.
pub open spec fn terminal_type_name() -> Seq<u8> {
    seq![120u8, 116u8, 101u8, 114u8, 109u8, 45u8, 50u8, 53u8, 54u8, 99u8, 111u8, 108u8, 111u8, 114u8]
}

/// The answer to "Are You There": `\r\n[Navop: yes]\r\n`.
pub open spec fn are_you_there_response() -> Seq<u8> {
    seq![13u8, 10u8, 91u8, 78u8, 97u8, 118u8, 111u8, 112u8, 58u8, 32u8, 121u8, 101u8, 115u8, 93u8, 13u8, 10u8]
}

pub fn terminal_type_name_bytes() -> (r: Vec<u8>)
    ensures
        r@ == terminal_type_name(),
{
    vec![120u8, 116u8, 101u8, 114u8, 109u8, 45u8, 50u8, 53u8, 54u8, 99u8, 111u8, 108u8, 111u8, 114u8]
}

pub fn are_you_there_response_bytes() -> (r: Vec<u8>)
    ensures
        r@ == are_you_there_response(),
{
    vec![13u8, 10u8, 91u8, 78u8, 97u8, 118u8, 111u8, 112u8, 58u8, 32u8, 121u8, 101u8, 115u8, 93u8, 13u8, 10u8]
}

/// Negotiation state of one option in one direction.
///
/// `Unnegotiated` means no command was ever received for it; repeating
/// DO/WILL on `Enabled` or DONT/WONT on `Disabled` produces no reply, so a
/// misbehaving peer cannot start an endless exchange.
#[derive(Clone, Copy, Debug, PartialEq, Eq, Structural)]
pub enum TelnetOptionSideState {
    Unnegotiated,
    Disabled,
    Enabled,
}

/// Where the server-stream parser stands between two bytes.
#[derive(Debug)]
pub enum TelnetParseState {
    Data,
    Iac,
    Negotiation { command: u8 },
    Subnegotiation {
        payload: Vec<u8>,
        /// The previous byte was an IAC inside the SB payload.
        previous_iac: bool,
    },
    /// An oversized, unterminated SB: discarded up to a valid, unescaped `IAC SE`.
    DiscardingSubnegotiation { previous_iac: bool },
}

/// The parser position with the buffered payload as a sequence.
pub enum ParseModel {
    Data,
    Iac,
    Negotiation { command: u8 },
    Subnegotiation { payload: Seq<u8>, previous_iac: bool },
    DiscardingSubnegotiation { previous_iac: bool },
}

impl TelnetParseState {
    pub open spec fn model(&self) -> ParseModel {
        match self {
            TelnetParseState::Data => ParseModel::Data,
            TelnetParseState::Iac => ParseModel::Iac,
            TelnetParseState::Negotiation { command } => ParseModel::Negotiation { command: *command },
            TelnetParseState::Subnegotiation { payload, previous_iac } => ParseModel::Subnegotiation {
                payload: payload@,
                previous_iac: *previous_iac,
            },
            TelnetParseState::DiscardingSubnegotiation { previous_iac } => ParseModel::DiscardingSubnegotiation {
                previous_iac: *previous_iac,
            },
        }
    }
}

/// The whole codec state as mathematical values.
pub struct TelnetCodecModel {
    pub cols: u16,
    pub rows: u16,
    pub parse: ParseModel,
    pub local: Seq<TelnetOptionSideState>,
    pub remote: Seq<TelnetOptionSideState>,
    pub pending_cr: bool,
    pub last_subnegotiation: Option<Seq<u8>>,
}

// ---------------------------------------------------------------------------
// Specification of the client-side NVT encoding.
// ---------------------------------------------------------------------------

/// A byte with IAC doubled.
pub open spec fn escape_byte(byte: u8) -> Seq<u8> {
    if byte == TELNET_COMMAND_IAC {
        seq![TELNET_COMMAND_IAC, TELNET_COMMAND_IAC]
    } else {
        seq![byte]
    }
}

/// Every IAC byte doubled, all other bytes unchanged.
pub open spec fn escape_iac(bytes: Seq<u8>) -> Seq<u8>
    decreases bytes.len(),
{
    if bytes.len() == 0 {
        Seq::empty()
    } else {
        escape_byte(bytes[0]) + escape_iac(bytes.subrange(1, bytes.len() as int))
    }
}

/// NVT encoding of a chunk with no CR held back from an earlier chunk:
/// the resulting "CR held back" flag and the encoded bytes.
///
/// In BINARY mode only IAC is escaped. Otherwise IAC is escaped, CR LF and
/// CR NUL pass through, any other CR becomes CR NUL, and a CR at the very end
/// of the chunk is held back.
pub open spec fn nvt_body(bytes: Seq<u8>, binary: bool) -> (bool, Seq<u8>)
    decreases bytes.len(),
{
    if bytes.len() == 0 {
        (false, Seq::empty())
    } else {
        let byte = bytes[0];
        if binary {
            let rest = nvt_body(bytes.subrange(1, bytes.len() as int), binary);
            (rest.0, escape_byte(byte) + rest.1)
        } else if byte == TELNET_COMMAND_IAC {
            let rest = nvt_body(bytes.subrange(1, bytes.len() as int), binary);
            (rest.0, seq![TELNET_COMMAND_IAC, TELNET_COMMAND_IAC] + rest.1)
        } else if byte == 13u8 {
            if bytes.len() >= 2 {
                let next = bytes[1];
                if next == 10u8 || next == 0u8 {
                    let rest = nvt_body(bytes.subrange(2, bytes.len() as int), binary);
                    (rest.0, seq![13u8, next] + rest.1)
                } else {
                    let rest = nvt_body(bytes.subrange(1, bytes.len() as int), binary);
                    (rest.0, seq![13u8, 0u8] + rest.1)
                }
            } else {
                (true, Seq::empty())
            }
        } else {
            let rest = nvt_body(bytes.subrange(1, bytes.len() as int), binary);
            (rest.0, seq![byte] + rest.1)
        }
    }
}

/// NVT encoding of a client write, given whether a CR is held back from the
/// previous write. An empty write changes nothing. A held-back CR is first
/// committed as CR NUL in BINARY mode (it was produced in NVT mode), combined
/// with a leading LF or NUL, or committed as CR NUL otherwise.
pub open spec fn nvt_encode(pending_cr: bool, bytes: Seq<u8>, binary: bool) -> (bool, Seq<u8>) {
    if bytes.len() == 0 {
        (pending_cr, Seq::empty())
    } else if !pending_cr {
        nvt_body(bytes, binary)
    } else if binary {
        let rest = nvt_body(bytes, binary);
        (rest.0, seq![13u8, 0u8] + rest.1)
    } else if bytes[0] == 10u8 || bytes[0] == 0u8 {
        let rest = nvt_body(bytes.subrange(1, bytes.len() as int), binary);
        (rest.0, seq![13u8, bytes[0]] + rest.1)
    } else {
        let rest = nvt_body(bytes, binary);
        (rest.0, seq![13u8, 0u8] + rest.1)
    }
}

/// What a flush sends: CR NUL for a held-back CR, nothing otherwise.
pub open spec fn nvt_flush(pending_cr: bool) -> Seq<u8> {
    if pending_cr {
        seq![13u8, 0u8]
    } else {
        Seq::empty()
    }
}

// ---------------------------------------------------------------------------
// Specification of negotiation and of the server-stream filter.
// ---------------------------------------------------------------------------

/// Options this side agrees to enable when the server asks with DO.
pub open spec fn supported_locally(option: u8) -> bool {
    option == TELNET_OPTION_BINARY || option == TELNET_OPTION_SUPPRESS_GO_AHEAD
        || option == TELNET_OPTION_TERMINAL_TYPE || option == TELNET_OPTION_NAWS
}

/// Options this side asks the server to enable when it offers them with WILL.
pub open spec fn supported_remotely(option: u8) -> bool {
    option == TELNET_OPTION_BINARY || option == TELNET_OPTION_ECHO
        || option == TELNET_OPTION_SUPPRESS_GO_AHEAD
}

/// The NAWS payload: width then height, big-endian, with IAC escaped.
pub open spec fn naws_payload(cols: u16, rows: u16) -> Seq<u8> {
    escape_iac(seq![(cols / 256) as u8, (cols % 256) as u8, (rows / 256) as u8, (rows % 256) as u8])
}

/// The NAWS subnegotiation, only once the server has enabled NAWS on this side.
pub open spec fn spec_naws_message(m: TelnetCodecModel) -> Option<Seq<u8>> {
    if m.local[TELNET_OPTION_NAWS as int] != TelnetOptionSideState::Enabled {
        None
    } else {
        Some(seq![TELNET_COMMAND_IAC, TELNET_COMMAND_SB, TELNET_OPTION_NAWS]
            + naws_payload(m.cols, m.rows) + seq![TELNET_COMMAND_IAC, TELNET_COMMAND_SE])
    }
}

/// The codec after setting one option's state on this side.
pub open spec fn with_local(m: TelnetCodecModel, option: u8, state: TelnetOptionSideState) -> TelnetCodecModel {
    TelnetCodecModel { local: m.local.update(option as int, state), ..m }
}

/// The codec after setting one option's state on the server side.
pub open spec fn with_remote(m: TelnetCodecModel, option: u8, state: TelnetOptionSideState) -> TelnetCodecModel {
    TelnetCodecModel { remote: m.remote.update(option as int, state), ..m }
}

/// The codec after a negotiation command, and the replies it sends.
pub open spec fn spec_negotiate(m: TelnetCodecModel, command: u8, option: u8) -> (TelnetCodecModel, Seq<Seq<u8>>) {
    if command == TELNET_COMMAND_DO {
        let current = m.local[option as int];
        if current == TelnetOptionSideState::Enabled {
            (m, Seq::empty())
        } else if supported_locally(option) {
            let next = with_local(m, option, TelnetOptionSideState::Enabled);
            let will = seq![seq![TELNET_COMMAND_IAC, TELNET_COMMAND_WILL, option]];
            if option == TELNET_OPTION_NAWS {
                match spec_naws_message(next) {
                    Some(message) => (next, will.push(message)),
                    None => (next, will),
                }
            } else {
                (next, will)
            }
        } else if current == TelnetOptionSideState::Unnegotiated {
            (with_local(m, option, TelnetOptionSideState::Disabled),
                seq![seq![TELNET_COMMAND_IAC, TELNET_COMMAND_WONT, option]])
        } else {
            (m, Seq::empty())
        }
    } else if command == TELNET_COMMAND_WILL {
        let current = m.remote[option as int];
        if current == TelnetOptionSideState::Enabled {
            (m, Seq::empty())
        } else if supported_remotely(option) {
            (with_remote(m, option, TelnetOptionSideState::Enabled),
                seq![seq![TELNET_COMMAND_IAC, TELNET_COMMAND_DO, option]])
        } else if current == TelnetOptionSideState::Unnegotiated {
            (with_remote(m, option, TelnetOptionSideState::Disabled),
                seq![seq![TELNET_COMMAND_IAC, TELNET_COMMAND_DONT, option]])
        } else {
            (m, Seq::empty())
        }
    } else if command == TELNET_COMMAND_DONT {
        let next = with_local(m, option, TelnetOptionSideState::Disabled);
        if m.local[option as int] == TelnetOptionSideState::Enabled {
            (next, seq![seq![TELNET_COMMAND_IAC, TELNET_COMMAND_WONT, option]])
        } else {
            (next, Seq::empty())
        }
    } else if command == TELNET_COMMAND_WONT {
        let next = with_remote(m, option, TelnetOptionSideState::Disabled);
        if m.remote[option as int] == TelnetOptionSideState::Enabled {
            (next, seq![seq![TELNET_COMMAND_IAC, TELNET_COMMAND_DONT, option]])
        } else {
            (next, Seq::empty())
        }
    } else {
        (m, Seq::empty())
    }
}

/// The reply to a complete subnegotiation payload: the terminal type when
/// the server sends `TERMINAL-TYPE SEND` after TERMINAL-TYPE was enabled here.
pub open spec fn spec_subnegotiation_responses(m: TelnetCodecModel, payload: Seq<u8>) -> Seq<Seq<u8>> {
    if m.local[TELNET_OPTION_TERMINAL_TYPE as int] == TelnetOptionSideState::Enabled
        && payload.len() >= 2 && payload[0] == TELNET_OPTION_TERMINAL_TYPE
        && payload[1] == TELNET_TERMINAL_TYPE_SEND {
        seq![seq![TELNET_COMMAND_IAC, TELNET_COMMAND_SB, TELNET_OPTION_TERMINAL_TYPE, TELNET_TERMINAL_TYPE_IS]
            + terminal_type_name() + seq![TELNET_COMMAND_IAC, TELNET_COMMAND_SE]]
    } else {
        Seq::empty()
    }
}

/// A grown SB payload is kept, or the SB is discarded once it is too long.
pub open spec fn checked_subnegotiation(payload: Seq<u8>) -> ParseModel {
    if payload.len() > TELNET_MAX_PENDING_BYTES {
        ParseModel::DiscardingSubnegotiation { previous_iac: false }
    } else {
        ParseModel::Subnegotiation { payload, previous_iac: false }
    }
}

/// The codec with another parser position.
pub open spec fn with_parse(m: TelnetCodecModel, parse: ParseModel) -> TelnetCodecModel {
    TelnetCodecModel { parse, ..m }
}

/// One server byte: the next codec state, the terminal data it yields and
/// the replies it causes.
pub open spec fn spec_server_step(m: TelnetCodecModel, byte: u8) -> (TelnetCodecModel, Seq<u8>, Seq<Seq<u8>>) {
    match m.parse {
        ParseModel::Data => {
            if byte == TELNET_COMMAND_IAC {
                (with_parse(m, ParseModel::Iac), Seq::empty(), Seq::empty())
            } else {
                (m, seq![byte], Seq::empty())
            }
        },
        ParseModel::Iac => {
            if byte == TELNET_COMMAND_IAC {
                (with_parse(m, ParseModel::Data), seq![TELNET_COMMAND_IAC], Seq::empty())
            } else if byte == TELNET_COMMAND_DO || byte == TELNET_COMMAND_DONT || byte == TELNET_COMMAND_WILL
                || byte == TELNET_COMMAND_WONT {
                (with_parse(m, ParseModel::Negotiation { command: byte }), Seq::empty(), Seq::empty())
            } else if byte == TELNET_COMMAND_SB {
                (with_parse(m, ParseModel::Subnegotiation { payload: Seq::empty(), previous_iac: false }),
                    Seq::empty(), Seq::empty())
            } else if byte == TELNET_COMMAND_AYT {
                (with_parse(m, ParseModel::Data), Seq::empty(), seq![are_you_there_response()])
            } else {
                (with_parse(m, ParseModel::Data), Seq::empty(), Seq::empty())
            }
        },
        ParseModel::Negotiation { command } => {
            let r = spec_negotiate(with_parse(m, ParseModel::Data), command, byte);
            (r.0, Seq::empty(), r.1)
        },
        ParseModel::Subnegotiation { payload, previous_iac } => {
            if previous_iac {
                if byte == TELNET_COMMAND_IAC {
                    (with_parse(m, checked_subnegotiation(payload.push(TELNET_COMMAND_IAC))), Seq::empty(), Seq::empty())
                } else if byte == TELNET_COMMAND_SE {
                    let done = TelnetCodecModel {
                        parse: ParseModel::Data,
                        last_subnegotiation: Some(payload),
                        ..m
                    };
                    (done, Seq::empty(), spec_subnegotiation_responses(m, payload))
                } else {
                    (with_parse(m, checked_subnegotiation(payload.push(byte))), Seq::empty(), Seq::empty())
                }
            } else if byte == TELNET_COMMAND_IAC {
                (with_parse(m, ParseModel::Subnegotiation { payload, previous_iac: true }), Seq::empty(), Seq::empty())
            } else {
                (with_parse(m, checked_subnegotiation(payload.push(byte))), Seq::empty(), Seq::empty())
            }
        },
        ParseModel::DiscardingSubnegotiation { previous_iac } => {
            if previous_iac && byte == TELNET_COMMAND_SE {
                (with_parse(m, ParseModel::Data), Seq::empty(), Seq::empty())
            } else if !previous_iac && byte == TELNET_COMMAND_IAC {
                (with_parse(m, ParseModel::DiscardingSubnegotiation { previous_iac: true }), Seq::empty(), Seq::empty())
            } else {
                (with_parse(m, ParseModel::DiscardingSubnegotiation { previous_iac: false }), Seq::empty(), Seq::empty())
            }
        },
    }
}

/// A whole chunk of server bytes, one byte after the other: the final codec
/// state, the terminal data and the replies, in order.
pub open spec fn spec_filter(m: TelnetCodecModel, bytes: Seq<u8>) -> (TelnetCodecModel, Seq<u8>, Seq<Seq<u8>>)
    decreases bytes.len(),
{
    if bytes.len() == 0 {
        (m, Seq::empty(), Seq::empty())
    } else {
        let before = spec_filter(m, bytes.drop_last());
        let step = spec_server_step(before.0, bytes.last());
        (step.0, before.1 + step.1, before.2 + step.2)
    }
}

/// Well-formed models keep one state per option code in each direction.
pub open spec fn model_wf(m: TelnetCodecModel) -> bool {
    m.local.len() == TELNET_OPTION_COUNT && m.remote.len() == TELNET_OPTION_COUNT
}


// ---------------------------------------------------------------------------
// Client NVT encoder.
// ---------------------------------------------------------------------------

/// NVT encoder for the non-BINARY mode.
///
/// RFC 854 encodes a bare CR as CR NUL and a newline as CR LF. A CR at the end
/// of a chunk is held back briefly: when the next write starts with LF the two
/// form CR LF, otherwise the caller flushes it as CR NUL.
#[derive(Clone, Debug, Default)]
pub struct TelnetNvtEncoder {
    pending_cr: bool,
}

impl View for TelnetNvtEncoder {
    type V = bool;

    closed spec fn view(&self) -> bool {
        self.pending_cr
    }
}

impl TelnetNvtEncoder {
    pub fn new() -> (r: Self)
        ensures
            r@ == false,
    {
        TelnetNvtEncoder { pending_cr: false }
    }

    pub fn encode(&mut self, bytes: &[u8], binary_enabled: bool) -> (encoded: Vec<u8>)
        ensures
            (final(self)@, encoded@) == nvt_encode(old(self)@, bytes@, binary_enabled),
    {
        if bytes.len() == 0 {
            return Vec::new();
        }
        let mut encoded: Vec<u8> = Vec::new();
        let mut index: usize = 0;
        let ghost start_pending = self.pending_cr;
        if self.pending_cr {
            self.pending_cr = false;
            if binary_enabled {
                encoded.push(13u8);
                encoded.push(0u8);
            } else if bytes[0] == 10u8 {
                encoded.push(13u8);
                encoded.push(10u8);
                index = 1;
            } else if bytes[0] == 0u8 {
                encoded.push(13u8);
                encoded.push(0u8);
                index = 1;
            } else {
                encoded.push(13u8);
                encoded.push(0u8);
            }
        }
        let ghost prefix = encoded@;
        let ghost body_start = index as int;
        proof {
            assert(bytes@.subrange(body_start, bytes@.len() as int) =~= if body_start == 0 {
                bytes@
            } else {
                bytes@.subrange(1, bytes@.len() as int)
            });
        }
        while index < bytes.len()
            invariant
                0 <= index <= bytes@.len(),
                0 <= body_start <= index,
                start_pending == old(self)@,
                self.pending_cr == false,
                ({
                    let target = nvt_body(bytes@.subrange(body_start, bytes@.len() as int), binary_enabled);
                    nvt_encode(start_pending, bytes@, binary_enabled) == (target.0, prefix + target.1)
                }),
                ({
                    let target = nvt_body(bytes@.subrange(body_start, bytes@.len() as int), binary_enabled);
                    let rest = nvt_body(bytes@.subrange(index as int, bytes@.len() as int), binary_enabled);
                    &&& target.0 == rest.0
                    &&& prefix + target.1 == encoded@ + rest.1
                }),
            decreases bytes@.len() - index,
        {
            let ghost old_index = index as int;
            let ghost old_encoded = encoded@;
            let byte = bytes[index];
            let ghost tail = bytes@.subrange(old_index, bytes@.len() as int);
            if binary_enabled {
                encoded.push(byte);
                if byte == TELNET_COMMAND_IAC {
                    encoded.push(TELNET_COMMAND_IAC);
                }
                index = index + 1;
                proof {
                    assert(tail.subrange(1, tail.len() as int) =~= bytes@.subrange(index as int, bytes@.len() as int));
                    assert(encoded@ =~= old_encoded + escape_byte(byte));
                }
            } else if byte == TELNET_COMMAND_IAC {
                encoded.push(TELNET_COMMAND_IAC);
                encoded.push(TELNET_COMMAND_IAC);
                index = index + 1;
                proof {
                    assert(tail.subrange(1, tail.len() as int) =~= bytes@.subrange(index as int, bytes@.len() as int));
                    assert(encoded@ =~= old_encoded + seq![TELNET_COMMAND_IAC, TELNET_COMMAND_IAC]);
                }
            } else if byte == 13u8 {
                if index + 1 < bytes.len() {
                    let next = bytes[index + 1];
                    if next == 10u8 || next == 0u8 {
                        encoded.push(13u8);
                        encoded.push(next);
                        index = index + 2;
                        proof {
                            assert(tail.subrange(2, tail.len() as int) =~= bytes@.subrange(index as int, bytes@.len() as int));
                            assert(encoded@ =~= old_encoded + seq![13u8, next]);
                        }
                    } else {
                        encoded.push(13u8);
                        encoded.push(0u8);
                        index = index + 1;
                        proof {
                            assert(tail.subrange(1, tail.len() as int) =~= bytes@.subrange(index as int, bytes@.len() as int));
                            assert(encoded@ =~= old_encoded + seq![13u8, 0u8]);
                        }
                    }
                } else {
                    self.pending_cr = true;
                    index = index + 1;
                    proof {
                        assert(bytes@.subrange(index as int, bytes@.len() as int) =~= Seq::<u8>::empty());
                    }
                    proof {
                        // the held-back CR ends the chunk
                        assert(tail.len() == 1 && tail[0] == 13u8);
                        assert(nvt_body(tail, binary_enabled) == (true, Seq::<u8>::empty()));
                        let target = nvt_body(bytes@.subrange(body_start, bytes@.len() as int), binary_enabled);
                        assert(target.0 == true);
                        assert(prefix + target.1 =~= encoded@);
                    }
                    return encoded;
                }
            } else {
                encoded.push(byte);
                index = index + 1;
                proof {
                    assert(tail.subrange(1, tail.len() as int) =~= bytes@.subrange(index as int, bytes@.len() as int));
                    assert(encoded@ =~= old_encoded + seq![byte]);
                }
            }
        }
        proof {
            assert(bytes@.subrange(index as int, bytes@.len() as int) =~= Seq::<u8>::empty());
        }
        encoded
    }

    pub fn has_pending_cr(&self) -> (r: bool)
        ensures
            r == self@,
    {
        self.pending_cr
    }

    /// The held-back CR keeps the NVT encoding it was produced under, even if
    /// BINARY was negotiated since.
    pub fn flush(&mut self) -> (r: Vec<u8>)
        ensures
            final(self)@ == false,
            r@ == nvt_flush(old(self)@),
    {
        if !self.pending_cr {
            return Vec::new();
        }
        self.pending_cr = false;
        vec![13u8, 0u8]
    }
}


// ---------------------------------------------------------------------------
// The codec.
// ---------------------------------------------------------------------------

/// Options supported on this side (answered with WILL).
pub fn is_option_supported_locally(option: u8) -> (r: bool)
    ensures
        r == supported_locally(option),
{
    option == TELNET_OPTION_BINARY || option == TELNET_OPTION_SUPPRESS_GO_AHEAD
        || option == TELNET_OPTION_TERMINAL_TYPE || option == TELNET_OPTION_NAWS
}

/// Options requested from the server (answered with DO).
pub fn is_option_supported_remotely(option: u8) -> (r: bool)
    ensures
        r == supported_remotely(option),
{
    option == TELNET_OPTION_BINARY || option == TELNET_OPTION_ECHO
        || option == TELNET_OPTION_SUPPRESS_GO_AHEAD
}

/// Keeps a grown SB payload, or switches to discarding once it is too long.
pub fn checked_subnegotiation_state(payload: Vec<u8>, previous_iac: bool) -> (r: TelnetParseState)
    ensures
        r.model() == (if payload@.len() > TELNET_MAX_PENDING_BYTES {
            ParseModel::DiscardingSubnegotiation { previous_iac: false }
        } else {
            ParseModel::Subnegotiation { payload: payload@, previous_iac }
        }),
{
    if payload.len() > TELNET_MAX_PENDING_BYTES {
        TelnetParseState::DiscardingSubnegotiation { previous_iac: false }
    } else {
        TelnetParseState::Subnegotiation { payload, previous_iac }
    }
}

/// A fresh codec: every option unnegotiated in both directions, nothing
/// buffered, and the window no smaller than 2x2.
pub open spec fn initial_model(cols: u16, rows: u16) -> TelnetCodecModel {
    TelnetCodecModel {
        cols: if cols < 2 { 2 } else { cols },
        rows: if rows < 2 { 2 } else { rows },
        parse: ParseModel::Data,
        local: Seq::new(TELNET_OPTION_COUNT as nat, |i: int| TelnetOptionSideState::Unnegotiated),
        remote: Seq::new(TELNET_OPTION_COUNT as nat, |i: int| TelnetOptionSideState::Unnegotiated),
        pending_cr: false,
        last_subnegotiation: None,
    }
}

/// Telnet protocol codec (see the module documentation).
pub struct TelnetCodec {
    cols: u16,
    rows: u16,
    parse_state: TelnetParseState,
    local_options: Vec<TelnetOptionSideState>,
    remote_options: Vec<TelnetOptionSideState>,
    nvt_encoder: TelnetNvtEncoder,
    last_subnegotiation_payload: Option<Vec<u8>>,
}

impl View for TelnetCodec {
    type V = TelnetCodecModel;

    closed spec fn view(&self) -> TelnetCodecModel {
        TelnetCodecModel {
            cols: self.cols,
            rows: self.rows,
            parse: self.parse_state.model(),
            local: self.local_options@,
            remote: self.remote_options@,
            pending_cr: self.nvt_encoder@,
            last_subnegotiation: match self.last_subnegotiation_payload {
                Some(payload) => Some(payload@),
                None => None,
            },
        }
    }
}

fn unnegotiated_options() -> (r: Vec<TelnetOptionSideState>)
    ensures
        r@ == Seq::new(TELNET_OPTION_COUNT as nat, |i: int| TelnetOptionSideState::Unnegotiated),
{
    let mut options: Vec<TelnetOptionSideState> = Vec::new();
    let mut i: usize = 0;
    while i < TELNET_OPTION_COUNT
        invariant
            i <= TELNET_OPTION_COUNT,
            options@ == Seq::new(i as nat, |j: int| TelnetOptionSideState::Unnegotiated),
        decreases TELNET_OPTION_COUNT - i,
    {
        options.push(TelnetOptionSideState::Unnegotiated);
        i = i + 1;
        assert(options@ =~= Seq::new(i as nat, |j: int| TelnetOptionSideState::Unnegotiated));
    }
    options
}

impl TelnetCodec {
    pub fn new(cols: u16, rows: u16) -> (r: Self)
        ensures
            r@ == initial_model(cols, rows),
            model_wf(r@),
    {
        let codec = TelnetCodec {
            cols: if cols < 2 { 2 } else { cols },
            rows: if rows < 2 { 2 } else { rows },
            parse_state: TelnetParseState::Data,
            local_options: unnegotiated_options(),
            remote_options: unnegotiated_options(),
            nvt_encoder: TelnetNvtEncoder::new(),
            last_subnegotiation_payload: None,
        };
        codec
    }

    pub fn set_window_size(&mut self, cols: u16, rows: u16)
        ensures
            final(self)@ == (TelnetCodecModel {
                cols: if cols < 2 { 2 } else { cols },
                rows: if rows < 2 { 2 } else { rows },
                ..old(self)@
            }),
    {
        self.cols = if cols < 2 { 2 } else { cols };
        self.rows = if rows < 2 { 2 } else { rows };
    }

    /// This side's negotiation state of `option`.
    pub fn local_state(&self, option: u8) -> (r: TelnetOptionSideState)
        requires
            model_wf(self@),
        ensures
            r == self@.local[option as int],
    {
        self.local_options[option as usize]
    }

    /// The server side's negotiation state of `option`.
    pub fn remote_state(&self, option: u8) -> (r: TelnetOptionSideState)
        requires
            model_wf(self@),
        ensures
            r == self@.remote[option as int],
    {
        self.remote_options[option as usize]
    }

    fn set_local_state(&mut self, option: u8, state: TelnetOptionSideState)
        requires
            model_wf(old(self)@),
        ensures
            final(self)@ == with_local(old(self)@, option, state),
    {
        self.local_options.set(option as usize, state);
    }

    fn set_remote_state(&mut self, option: u8, state: TelnetOptionSideState)
        requires
            model_wf(old(self)@),
        ensures
            final(self)@ == with_remote(old(self)@, option, state),
    {
        self.remote_options.set(option as usize, state);
    }

    /// Whether BINARY is enabled for the data this side sends.
    pub fn local_binary_enabled(&self) -> (r: bool)
        requires
            model_wf(self@),
        ensures
            r == (self@.local[TELNET_OPTION_BINARY as int] == TelnetOptionSideState::Enabled),
    {
        self.local_state(TELNET_OPTION_BINARY) == TelnetOptionSideState::Enabled
    }

    /// The payload of the last complete subnegotiation received.
    pub fn last_subnegotiation_payload(&self) -> (r: Option<&[u8]>)
        ensures
            match r {
                Some(payload) => self@.last_subnegotiation == Some(payload@),
                None => self@.last_subnegotiation is None,
            },
    {
        match &self.last_subnegotiation_payload {
            Some(payload) => Some(payload.as_slice()),
            None => None,
        }
    }

    /// IAC escaping and NVT encoding of client data.
    pub fn encode_client_data(&mut self, bytes: &[u8]) -> (r: Vec<u8>)
        requires
            model_wf(old(self)@),
        ensures
            ({
                let encoded = nvt_encode(
                    old(self)@.pending_cr,
                    bytes@,
                    old(self)@.local[TELNET_OPTION_BINARY as int] == TelnetOptionSideState::Enabled,
                );
                &&& final(self)@ == (TelnetCodecModel { pending_cr: encoded.0, ..old(self)@ })
                &&& r@ == encoded.1
            }),
    {
        let binary = self.local_binary_enabled();
        self.nvt_encoder.encode(bytes, binary)
    }

    pub fn has_pending_client_cr(&self) -> (r: bool)
        ensures
            r == self@.pending_cr,
    {
        self.nvt_encoder.has_pending_cr()
    }

    pub fn flush_client_data(&mut self) -> (r: Vec<u8>)
        ensures
            final(self)@ == (TelnetCodecModel { pending_cr: false, ..old(self)@ }),
            r@ == nvt_flush(old(self)@.pending_cr),
    {
        self.nvt_encoder.flush()
    }

    /// The NAWS message for the current window, with IAC escaped in the
    /// payload; `None` until the server has negotiated NAWS.
    pub fn naws_message(&self) -> (r: Option<Vec<u8>>)
        requires
            model_wf(self@),
        ensures
            match r {
                Some(message) => spec_naws_message(self@) == Some(message@),
                None => spec_naws_message(self@) is None,
            },
    {
        if self.local_state(TELNET_OPTION_NAWS) != TelnetOptionSideState::Enabled {
            return None;
        }
        let payload: Vec<u8> = vec![
            (self.cols / 256) as u8,
            (self.cols % 256) as u8,
            (self.rows / 256) as u8,
            (self.rows % 256) as u8,
        ];
        let mut bytes: Vec<u8> = vec![TELNET_COMMAND_IAC, TELNET_COMMAND_SB, TELNET_OPTION_NAWS];
        let escaped = escape_iac_bytes(payload.as_slice());
        push_all(&mut bytes, escaped.as_slice());
        bytes.push(TELNET_COMMAND_IAC);
        bytes.push(TELNET_COMMAND_SE);
        proof {
            assert(bytes@ =~= seq![TELNET_COMMAND_IAC, TELNET_COMMAND_SB, TELNET_OPTION_NAWS]
                + naws_payload(self.cols, self.rows) + seq![TELNET_COMMAND_IAC, TELNET_COMMAND_SE]);
        }
        Some(bytes)
    }

    fn negotiation_responses(&mut self, command: u8, option: u8) -> (r: Vec<Vec<u8>>)
        requires
            model_wf(old(self)@),
        ensures
            model_wf(final(self)@),
            (final(self)@, views_of(r@)) == spec_negotiate(old(self)@, command, option),
    {
        if command == TELNET_COMMAND_DO {
            let current = self.local_state(option);
            if current == TelnetOptionSideState::Enabled {
                let r: Vec<Vec<u8>> = Vec::new();
                assert(views_of(r@) =~= Seq::<Seq<u8>>::empty());
                return r;
            }
            if is_option_supported_locally(option) {
                self.set_local_state(option, TelnetOptionSideState::Enabled);
                let mut responses: Vec<Vec<u8>> = Vec::new();
                let will: Vec<u8> = vec![TELNET_COMMAND_IAC, TELNET_COMMAND_WILL, option];
                responses.push(will);
                assert(views_of(responses@) =~= seq![seq![TELNET_COMMAND_IAC, TELNET_COMMAND_WILL, option]]);
                if option == TELNET_OPTION_NAWS {
                    match self.naws_message() {
                        Some(message) => {
                            proof {
                                lemma_views_of_push(responses@, message);
                            }
                            responses.push(message);
                        },
                        None => {},
                    }
                }
                return responses;
            }
            if current == TelnetOptionSideState::Unnegotiated {
                self.set_local_state(option, TelnetOptionSideState::Disabled);
                let r: Vec<Vec<u8>> = vec![vec![TELNET_COMMAND_IAC, TELNET_COMMAND_WONT, option]];
                assert(views_of(r@) =~= seq![seq![TELNET_COMMAND_IAC, TELNET_COMMAND_WONT, option]]);
                return r;
            }
            let r: Vec<Vec<u8>> = Vec::new();
            assert(views_of(r@) =~= Seq::<Seq<u8>>::empty());
            r
        } else if command == TELNET_COMMAND_WILL {
            let current = self.remote_state(option);
            if current == TelnetOptionSideState::Enabled {
                let r: Vec<Vec<u8>> = Vec::new();
                assert(views_of(r@) =~= Seq::<Seq<u8>>::empty());
                return r;
            }
            if is_option_supported_remotely(option) {
                self.set_remote_state(option, TelnetOptionSideState::Enabled);
                let r: Vec<Vec<u8>> = vec![vec![TELNET_COMMAND_IAC, TELNET_COMMAND_DO, option]];
                assert(views_of(r@) =~= seq![seq![TELNET_COMMAND_IAC, TELNET_COMMAND_DO, option]]);
                return r;
            }
            if current == TelnetOptionSideState::Unnegotiated {
                self.set_remote_state(option, TelnetOptionSideState::Disabled);
                let r: Vec<Vec<u8>> = vec![vec![TELNET_COMMAND_IAC, TELNET_COMMAND_DONT, option]];
                assert(views_of(r@) =~= seq![seq![TELNET_COMMAND_IAC, TELNET_COMMAND_DONT, option]]);
                return r;
            }
            let r: Vec<Vec<u8>> = Vec::new();
            assert(views_of(r@) =~= Seq::<Seq<u8>>::empty());
            r
        } else if command == TELNET_COMMAND_DONT {
            let was_enabled = self.local_state(option) == TelnetOptionSideState::Enabled;
            self.set_local_state(option, TelnetOptionSideState::Disabled);
            if was_enabled {
                let r: Vec<Vec<u8>> = vec![vec![TELNET_COMMAND_IAC, TELNET_COMMAND_WONT, option]];
                assert(views_of(r@) =~= seq![seq![TELNET_COMMAND_IAC, TELNET_COMMAND_WONT, option]]);
                r
            } else {
                let r: Vec<Vec<u8>> = Vec::new();
                assert(views_of(r@) =~= Seq::<Seq<u8>>::empty());
                r
            }
        } else if command == TELNET_COMMAND_WONT {
            let was_enabled = self.remote_state(option) == TelnetOptionSideState::Enabled;
            self.set_remote_state(option, TelnetOptionSideState::Disabled);
            if was_enabled {
                let r: Vec<Vec<u8>> = vec![vec![TELNET_COMMAND_IAC, TELNET_COMMAND_DONT, option]];
                assert(views_of(r@) =~= seq![seq![TELNET_COMMAND_IAC, TELNET_COMMAND_DONT, option]]);
                r
            } else {
                let r: Vec<Vec<u8>> = Vec::new();
                assert(views_of(r@) =~= Seq::<Seq<u8>>::empty());
                r
            }
        } else {
            let r: Vec<Vec<u8>> = Vec::new();
            assert(views_of(r@) =~= Seq::<Seq<u8>>::empty());
            r
        }
    }

    fn subnegotiation_responses(&self, bytes: &[u8]) -> (r: Vec<Vec<u8>>)
        requires
            model_wf(self@),
        ensures
            views_of(r@) == spec_subnegotiation_responses(self@, bytes@),
    {
        if self.local_state(TELNET_OPTION_TERMINAL_TYPE) == TelnetOptionSideState::Enabled
            && bytes.len() >= 2 && bytes[0] == TELNET_OPTION_TERMINAL_TYPE
            && bytes[1] == TELNET_TERMINAL_TYPE_SEND {
            let mut response: Vec<u8> = vec![
                TELNET_COMMAND_IAC,
                TELNET_COMMAND_SB,
                TELNET_OPTION_TERMINAL_TYPE,
                TELNET_TERMINAL_TYPE_IS,
            ];
            let name = terminal_type_name_bytes();
            push_all(&mut response, name.as_slice());
            response.push(TELNET_COMMAND_IAC);
            response.push(TELNET_COMMAND_SE);
            assert(response@ =~= seq![TELNET_COMMAND_IAC, TELNET_COMMAND_SB, TELNET_OPTION_TERMINAL_TYPE, TELNET_TERMINAL_TYPE_IS]
                + terminal_type_name() + seq![TELNET_COMMAND_IAC, TELNET_COMMAND_SE]);
            let r: Vec<Vec<u8>> = vec![response];
            assert(views_of(r@) =~= spec_subnegotiation_responses(self@, bytes@));
            return r;
        }
        let r: Vec<Vec<u8>> = Vec::new();
        assert(views_of(r@) =~= Seq::<Seq<u8>>::empty());
        r
    }
}

impl TelnetCodec {
    /// One server byte through the parser.
    fn filter_server_byte(&mut self, byte: u8, data: &mut Vec<u8>, responses: &mut Vec<Vec<u8>>)
        requires
            model_wf(old(self)@),
        ensures
            model_wf(final(self)@),
            ({
                let step = spec_server_step(old(self)@, byte);
                &&& final(self)@ == step.0
                &&& final(data)@ == old(data)@ + step.1
                &&& views_of(final(responses)@) == views_of(old(responses)@) + step.2
            }),
    {
        let ghost m = self@;
        let ghost old_responses = responses@;
        let mut state = TelnetParseState::Data;
        core::mem::swap(&mut state, &mut self.parse_state);
        match state {
            TelnetParseState::Data => {
                if byte == TELNET_COMMAND_IAC {
                    self.parse_state = TelnetParseState::Iac;
                } else {
                    data.push(byte);
                }
                assert(views_of(responses@) =~= views_of(old_responses) + Seq::<Seq<u8>>::empty());
            },
            TelnetParseState::Iac => {
                if byte == TELNET_COMMAND_IAC {
                    data.push(TELNET_COMMAND_IAC);
                } else if byte == TELNET_COMMAND_DO || byte == TELNET_COMMAND_DONT || byte == TELNET_COMMAND_WILL
                    || byte == TELNET_COMMAND_WONT {
                    self.parse_state = TelnetParseState::Negotiation { command: byte };
                } else if byte == TELNET_COMMAND_SB {
                    self.parse_state = TelnetParseState::Subnegotiation { payload: Vec::new(), previous_iac: false };
                } else if byte == TELNET_COMMAND_AYT {
                    let response = are_you_there_response_bytes();
                    proof {
                        lemma_views_of_push(responses@, response);
                    }
                    responses.push(response);
                    assert(views_of(responses@) =~= views_of(old_responses) + seq![are_you_there_response()]);
                }
                assert(data@ =~= old(data)@ + spec_server_step(m, byte).1);
                assert(views_of(responses@) =~= views_of(old_responses) + spec_server_step(m, byte).2);
            },
            TelnetParseState::Negotiation { command } => {
                let replies = self.negotiation_responses(command, byte);
                append_all(responses, replies);
                assert(data@ =~= old(data)@ + Seq::<u8>::empty());
            },
            TelnetParseState::Subnegotiation { payload, previous_iac } => {
                let mut payload = payload;
                if previous_iac {
                    if byte == TELNET_COMMAND_IAC {
                        payload.push(TELNET_COMMAND_IAC);
                        self.parse_state = checked_subnegotiation_state(payload, false);
                        assert(views_of(responses@) =~= views_of(old_responses) + Seq::<Seq<u8>>::empty());
                    } else if byte == TELNET_COMMAND_SE {
                        let replies = self.subnegotiation_responses(payload.as_slice());
                        self.last_subnegotiation_payload = Some(payload);
                        append_all(responses, replies);
                    } else {
                        payload.push(byte);
                        self.parse_state = checked_subnegotiation_state(payload, false);
                        assert(views_of(responses@) =~= views_of(old_responses) + Seq::<Seq<u8>>::empty());
                    }
                } else if byte == TELNET_COMMAND_IAC {
                    self.parse_state = TelnetParseState::Subnegotiation { payload, previous_iac: true };
                    assert(views_of(responses@) =~= views_of(old_responses) + Seq::<Seq<u8>>::empty());
                } else {
                    payload.push(byte);
                    self.parse_state = checked_subnegotiation_state(payload, false);
                    assert(views_of(responses@) =~= views_of(old_responses) + Seq::<Seq<u8>>::empty());
                }
                assert(data@ =~= old(data)@ + Seq::<u8>::empty());
            },
            TelnetParseState::DiscardingSubnegotiation { previous_iac } => {
                if previous_iac && byte == TELNET_COMMAND_SE {
                    self.parse_state = TelnetParseState::Data;
                } else if !previous_iac && byte == TELNET_COMMAND_IAC {
                    self.parse_state = TelnetParseState::DiscardingSubnegotiation { previous_iac: true };
                } else {
                    self.parse_state = TelnetParseState::DiscardingSubnegotiation { previous_iac: false };
                }
                assert(data@ =~= old(data)@ + Seq::<u8>::empty());
                assert(views_of(responses@) =~= views_of(old_responses) + Seq::<Seq<u8>>::empty());
            },
        }
    }

    /// Strips the protocol bytes from a chunk of server output and produces
    /// the replies to send back. State carries over between chunks, so a
    /// command split across reads is handled as if it arrived at once.
    pub fn filter_server_bytes(&mut self, bytes: &[u8]) -> (r: (Vec<u8>, Vec<Vec<u8>>))
        requires
            model_wf(old(self)@),
        ensures
            model_wf(final(self)@),
            (final(self)@, r.0@, views_of(r.1@)) == spec_filter(old(self)@, bytes@),
    {
        let mut data: Vec<u8> = Vec::new();
        let mut responses: Vec<Vec<u8>> = Vec::new();
        let mut index: usize = 0;
        assert(bytes@.subrange(0, 0) =~= Seq::<u8>::empty());
        assert(views_of(responses@) =~= Seq::<Seq<u8>>::empty());
        while index < bytes.len()
            invariant
                index <= bytes@.len(),
                model_wf(self@),
                (self@, data@, views_of(responses@)) == spec_filter(old(self)@, bytes@.subrange(0, index as int)),
            decreases bytes@.len() - index,
        {
            let ghost prefix = bytes@.subrange(0, index as int);
            self.filter_server_byte(bytes[index], &mut data, &mut responses);
            index = index + 1;
            proof {
                let next = bytes@.subrange(0, index as int);
                assert(next.drop_last() =~= prefix);
                assert(next.last() == bytes@[index - 1]);
            }
        }
        assert(bytes@.subrange(0, bytes@.len() as int) =~= bytes@);
        (data, responses)
    }
}

/// Every IAC byte of `bytes` doubled.
pub fn escape_iac_bytes(bytes: &[u8]) -> (r: Vec<u8>)
    ensures
        r@ == escape_iac(bytes@),
{
    let mut out: Vec<u8> = Vec::new();
    let mut index: usize = 0;
    assert(bytes@.subrange(0, bytes@.len() as int) =~= bytes@);
    while index < bytes.len()
        invariant
            index <= bytes@.len(),
            out@ + escape_iac(bytes@.subrange(index as int, bytes@.len() as int)) == escape_iac(bytes@),
        decreases bytes@.len() - index,
    {
        let ghost tail = bytes@.subrange(index as int, bytes@.len() as int);
        let byte = bytes[index];
        out.push(byte);
        if byte == TELNET_COMMAND_IAC {
            out.push(TELNET_COMMAND_IAC);
        }
        index = index + 1;
        proof {
            assert(tail.subrange(1, tail.len() as int) =~= bytes@.subrange(index as int, bytes@.len() as int));
            assert(out@ + escape_iac(bytes@.subrange(index as int, bytes@.len() as int))
                =~= escape_iac(bytes@));
        }
    }
    proof {
        assert(bytes@.subrange(index as int, bytes@.len() as int) =~= Seq::<u8>::empty());
        assert(bytes@.subrange(0, bytes@.len() as int) =~= bytes@);
    }
    out
}


// ---------------------------------------------------------------------------
// Laws.
// ---------------------------------------------------------------------------

/// Filtering two consecutive chunks gives the same state, terminal data and
/// replies as filtering their concatenation in one call: commands split
/// across reads are reassembled.
pub proof fn lemma_filter_chunking(m: TelnetCodecModel, a: Seq<u8>, b: Seq<u8>)
    ensures
        ({
            let first = spec_filter(m, a);
            let second = spec_filter(first.0, b);
            spec_filter(m, a + b) == (second.0, first.1 + second.1, first.2 + second.2)
        }),
    decreases b.len(),
{
    if b.len() == 0 {
        assert(a + b =~= a);
        let first = spec_filter(m, a);
        assert(first.1 + Seq::<u8>::empty() =~= first.1);
        assert(first.2 + Seq::<Seq<u8>>::empty() =~= first.2);
    } else {
        lemma_filter_chunking(m, a, b.drop_last());
        assert((a + b).drop_last() =~= a + b.drop_last());
        assert((a + b).last() == b.last());
        let first = spec_filter(m, a);
        let mid = spec_filter(first.0, b.drop_last());
        let step = spec_server_step(mid.0, b.last());
        assert(first.1 + mid.1 + step.1 =~= first.1 + (mid.1 + step.1));
        assert(first.2 + mid.2 + step.2 =~= first.2 + (mid.2 + step.2));
    }
}

/// A negotiation command received between commands: filtering `IAC command
/// option` yields no terminal data and is the negotiation step.
proof fn lemma_command_filter(m: TelnetCodecModel, command: u8, option: u8)
    requires
        m.parse is Data,
        command == TELNET_COMMAND_DO || command == TELNET_COMMAND_DONT || command == TELNET_COMMAND_WILL || command
            == TELNET_COMMAND_WONT,
    ensures
        spec_filter(m, seq![TELNET_COMMAND_IAC, command, option]) == (
            spec_negotiate(m, command, option).0,
            Seq::<u8>::empty(),
            spec_negotiate(m, command, option).1,
        ),
{
    let bytes = seq![TELNET_COMMAND_IAC, command, option];
    let b2 = bytes.drop_last();
    let b1 = b2.drop_last();
    let b0 = b1.drop_last();
    assert(b2 =~= seq![TELNET_COMMAND_IAC, command]);
    assert(b1 =~= seq![TELNET_COMMAND_IAC]);
    assert(b0 =~= Seq::<u8>::empty());
    assert(bytes.last() == option && b2.last() == command && b1.last() == TELNET_COMMAND_IAC);
    let s0 = spec_filter(m, b0);
    assert(s0 == (m, Seq::<u8>::empty(), Seq::<Seq<u8>>::empty()));
    let s1 = spec_filter(m, b1);
    assert(s1.0 == with_parse(m, ParseModel::Iac));
    assert(s1.1 =~= Seq::<u8>::empty());
    assert(s1.2 =~= Seq::<Seq<u8>>::empty());
    let s2 = spec_filter(m, b2);
    assert(s2.0 == with_parse(m, ParseModel::Negotiation { command }));
    assert(s2.1 =~= Seq::<u8>::empty());
    assert(s2.2 =~= Seq::<Seq<u8>>::empty());
    assert(with_parse(s2.0, ParseModel::Data) == m);
    let step = spec_negotiate(m, command, option);
    let r = spec_filter(m, bytes);
    assert(r.0 == step.0);
    assert(r.1 =~= Seq::<u8>::empty());
    assert(r.2 =~= step.1);
}

/// The options the client accepts from the server are exactly BINARY, ECHO
/// and SUPPRESS-GO-AHEAD: a server offer `IAC WILL option`, received between
/// commands for an option not yet enabled on the server side, yields no
/// terminal data; for those three it is answered with `IAC DO option` and
/// enables the option on the server side; for any other option it never
/// enables it, and a first offer is answered with `IAC DONT option` and
/// leaves the option disabled.
pub proof fn lemma_server_offers_accepted(m: TelnetCodecModel, option: u8)
    requires
        model_wf(m),
        m.parse is Data,
        m.remote[option as int] != TelnetOptionSideState::Enabled,
    ensures
        ({
            let r = spec_filter(m, seq![TELNET_COMMAND_IAC, TELNET_COMMAND_WILL, option]);
            let accepted = option == 0 || option == 1 || option == 3;
            &&& r.1 == Seq::<u8>::empty()
            &&& accepted ==> r.0 == with_remote(m, option, TelnetOptionSideState::Enabled) && r.2 == seq![
                seq![TELNET_COMMAND_IAC, TELNET_COMMAND_DO, option],
            ]
            &&& !accepted ==> r.0.remote[option as int] != TelnetOptionSideState::Enabled
            &&& !accepted && m.remote[option as int] == TelnetOptionSideState::Unnegotiated ==> r.0 == with_remote(
                m,
                option,
                TelnetOptionSideState::Disabled,
            ) && r.2 == seq![seq![TELNET_COMMAND_IAC, TELNET_COMMAND_DONT, option]]
        }),
{
    lemma_command_filter(m, TELNET_COMMAND_WILL, option);
}

/// The options the client agrees to enable on its own side are exactly
/// BINARY, SUPPRESS-GO-AHEAD, TERMINAL-TYPE and NAWS: a server request `IAC
/// DO option`, received between commands for an option not yet enabled on
/// this side, yields no terminal data; for those four it is answered first
/// with `IAC WILL option` and enables the option here (NAWS then also
/// reports the window size); for any other option it never enables it, and
/// a first request is answered with `IAC WONT option` alone and leaves the
/// option disabled.
pub proof fn lemma_server_requests_accepted(m: TelnetCodecModel, option: u8)
    requires
        model_wf(m),
        m.parse is Data,
        m.local[option as int] != TelnetOptionSideState::Enabled,
    ensures
        ({
            let r = spec_filter(m, seq![TELNET_COMMAND_IAC, TELNET_COMMAND_DO, option]);
            let accepted = option == 0 || option == 3 || option == 24 || option == 31;
            &&& r.1 == Seq::<u8>::empty()
            &&& accepted ==> r.0 == with_local(m, option, TelnetOptionSideState::Enabled) && r.2.len() >= 1
                && r.2[0] == seq![TELNET_COMMAND_IAC, TELNET_COMMAND_WILL, option]
            &&& accepted && option != 31 ==> r.2.len() == 1
            &&& option == 31 ==> r.2.len() == 2 && r.2[1].take(3) == seq![TELNET_COMMAND_IAC, TELNET_COMMAND_SB, option]
            &&& !accepted ==> r.0.local[option as int] != TelnetOptionSideState::Enabled
            &&& !accepted && m.local[option as int] == TelnetOptionSideState::Unnegotiated ==> r.0 == with_local(
                m,
                option,
                TelnetOptionSideState::Disabled,
            ) && r.2 == seq![seq![TELNET_COMMAND_IAC, TELNET_COMMAND_WONT, option]]
        }),
{
    lemma_command_filter(m, TELNET_COMMAND_DO, option);
    if option == 31 {
        let next = with_local(m, option, TelnetOptionSideState::Enabled);
        assert(next.local[31] == TelnetOptionSideState::Enabled);
        let message = spec_naws_message(next).unwrap();
        assert(message.take(3) =~= seq![TELNET_COMMAND_IAC, TELNET_COMMAND_SB, TELNET_OPTION_NAWS]);
    }
}

/// Whether a buffered subnegotiation payload is within the buffering limit.
pub open spec fn subnegotiation_bounded(m: TelnetCodecModel) -> bool {
    m.parse matches ParseModel::Subnegotiation { payload, .. } ==> payload.len() <= TELNET_MAX_PENDING_BYTES
}

/// One server byte keeps a buffered subnegotiation within the limit; while
/// an overlong subnegotiation is discarded, a byte yields no terminal data
/// and no reply, and only `IAC SE` ends the discarding.
pub proof fn lemma_subnegotiation_step_bounded(m: TelnetCodecModel, byte: u8)
    requires
        subnegotiation_bounded(m),
    ensures
        subnegotiation_bounded(spec_server_step(m, byte).0),
        m.parse matches ParseModel::DiscardingSubnegotiation { previous_iac } ==> {
            let next = spec_server_step(m, byte);
            &&& next.1.len() == 0
            &&& next.2.len() == 0
            &&& (next.0.parse is Data <==> previous_iac && byte == TELNET_COMMAND_SE)
            &&& (!(next.0.parse is Data) ==> next.0.parse is DiscardingSubnegotiation)
        },
{
}

/// Subnegotiation buffering is bounded over any run of server bytes: from a
/// codec whose buffered subnegotiation is within `TELNET_MAX_PENDING_BYTES`,
/// filtering never buffers more; a longer subnegotiation is discarded.
pub proof fn lemma_subnegotiation_stays_bounded(m: TelnetCodecModel, bytes: Seq<u8>)
    requires
        subnegotiation_bounded(m),
    ensures
        subnegotiation_bounded(spec_filter(m, bytes).0),
    decreases bytes.len(),
{
    if bytes.len() > 0 {
        lemma_subnegotiation_stays_bounded(m, bytes.drop_last());
        lemma_subnegotiation_step_bounded(spec_filter(m, bytes.drop_last()).0, bytes.last());
    }
}

/// Server bytes without IAC, received between commands, reach the terminal
/// unchanged and cause no reply and no state change.
pub proof fn lemma_plain_bytes_pass_through(m: TelnetCodecModel, bytes: Seq<u8>)
    requires
        m.parse is Data,
        forall|i: int| 0 <= i < bytes.len() ==> bytes[i] != TELNET_COMMAND_IAC,
    ensures
        spec_filter(m, bytes) == (m, bytes, Seq::<Seq<u8>>::empty()),
    decreases bytes.len(),
{
    if bytes.len() > 0 {
        lemma_plain_bytes_pass_through(m, bytes.drop_last());
        assert(bytes.drop_last().push(bytes.last()) =~= bytes);
        assert(Seq::<Seq<u8>>::empty() + Seq::<Seq<u8>>::empty() =~= Seq::<Seq<u8>>::empty());
    }
}

/// A negotiation command answered once is not answered again: repeating the
/// same command right after changes neither the state nor produces replies.
pub proof fn lemma_negotiation_is_idempotent(m: TelnetCodecModel, command: u8, option: u8)
    requires
        model_wf(m),
    ensures
        ({
            let once = spec_negotiate(m, command, option);
            let twice = spec_negotiate(once.0, command, option);
            &&& twice.0 == once.0
            &&& twice.1 == Seq::<Seq<u8>>::empty()
        }),
{
    let once = spec_negotiate(m, command, option);
    if command == TELNET_COMMAND_DONT || command == TELNET_COMMAND_DO {
        assert(once.0.local[option as int] != TelnetOptionSideState::Unnegotiated
            || once.0 == m);
    }
    if command == TELNET_COMMAND_DONT {
        assert(with_local(once.0, option, TelnetOptionSideState::Disabled).local =~= once.0.local);
    }
    if command == TELNET_COMMAND_WONT {
        assert(with_remote(once.0, option, TelnetOptionSideState::Disabled).remote =~= once.0.remote);
    }
}

/// The replies negotiation may send to `command` for `option`: WILL only to
/// a DO of an option this side supports, DO only to a WILL of an option it
/// wants from the server, WONT to DO or DONT, DONT to WILL or WONT, and the
/// window size after agreeing to NAWS.
pub open spec fn allowed_reply(m: TelnetCodecModel, command: u8, option: u8, reply: Seq<u8>) -> bool {
    ||| reply == seq![TELNET_COMMAND_IAC, TELNET_COMMAND_WILL, option] && command == TELNET_COMMAND_DO
        && supported_locally(option)
    ||| reply == seq![TELNET_COMMAND_IAC, TELNET_COMMAND_WONT, option] && (command == TELNET_COMMAND_DO
        || command == TELNET_COMMAND_DONT)
    ||| reply == seq![TELNET_COMMAND_IAC, TELNET_COMMAND_DO, option] && command == TELNET_COMMAND_WILL
        && supported_remotely(option)
    ||| reply == seq![TELNET_COMMAND_IAC, TELNET_COMMAND_DONT, option] && (command == TELNET_COMMAND_WILL
        || command == TELNET_COMMAND_WONT)
    ||| command == TELNET_COMMAND_DO && option == TELNET_OPTION_NAWS && spec_naws_message(
        spec_negotiate(m, command, option).0,
    ) == Some(reply)
}

/// Every reply to a negotiation command is one of the answers the protocol
/// allows for it, and there are at most two (WILL NAWS and the window size).
pub proof fn lemma_negotiation_replies_are_answers(m: TelnetCodecModel, command: u8, option: u8)
    ensures
        spec_negotiate(m, command, option).1.len() <= 2,
        forall|i: int|
            0 <= i < spec_negotiate(m, command, option).1.len() ==> allowed_reply(
                m,
                command,
                option,
                #[trigger] spec_negotiate(m, command, option).1[i],
            ),
{
}

/// DO and DONT only change this side's options, WILL and WONT only the
/// server side's: the two directions are negotiated independently.
pub proof fn lemma_negotiation_directions_are_independent(m: TelnetCodecModel, command: u8, option: u8)
    ensures
        ({
            let next = spec_negotiate(m, command, option).0;
            &&& (command == TELNET_COMMAND_DO || command == TELNET_COMMAND_DONT) ==> next.remote == m.remote
            &&& (command == TELNET_COMMAND_WILL || command == TELNET_COMMAND_WONT) ==> next.local == m.local
            &&& next.cols == m.cols && next.rows == m.rows && next.parse == m.parse
            &&& next.pending_cr == m.pending_cr
        }),
{
}

/// In BINARY mode the client encoding only doubles IAC bytes and never holds
/// a CR back.
pub proof fn lemma_binary_encoding_escapes_iac(bytes: Seq<u8>)
    ensures
        nvt_body(bytes, true) == (false, escape_iac(bytes)),
    decreases bytes.len(),
{
    if bytes.len() > 0 {
        lemma_binary_encoding_escapes_iac(bytes.subrange(1, bytes.len() as int));
    }
}


/// Encoding a chunk followed by more bytes equals encoding the chunk, then
/// continuing from the CR it held back.
proof fn lemma_nvt_body_append(a: Seq<u8>, b: Seq<u8>, binary: bool)
    ensures
        ({
            let first = nvt_body(a, binary);
            let second = nvt_encode(first.0, b, binary);
            nvt_body(a + b, binary) == (second.0, first.1 + second.1)
        }),
    decreases a.len(),
{
    if a.len() == 0 {
        assert(a + b =~= b);
        if b.len() > 0 {
            assert(Seq::<u8>::empty() + nvt_body(b, binary).1 =~= nvt_body(b, binary).1);
        }
    } else {
        let ab = a + b;
        assert(ab[0] == a[0]);
        let byte = a[0];
        let a1 = a.subrange(1, a.len() as int);
        assert(ab.subrange(1, ab.len() as int) =~= a1 + b);
        if binary || byte == TELNET_COMMAND_IAC || byte != 13u8 {
            lemma_nvt_body_append(a1, b, binary);
            let first = nvt_body(a1, binary);
            let second = nvt_encode(first.0, b, binary);
            let head = if binary { escape_byte(byte) } else if byte == TELNET_COMMAND_IAC {
                seq![TELNET_COMMAND_IAC, TELNET_COMMAND_IAC]
            } else {
                seq![byte]
            };
            assert(head + first.1 + second.1 =~= head + (first.1 + second.1));
        } else if a.len() >= 2 {
            let next = a[1];
            assert(ab[1] == next);
            if next == 10u8 || next == 0u8 {
                let a2 = a.subrange(2, a.len() as int);
                assert(ab.subrange(2, ab.len() as int) =~= a2 + b);
                lemma_nvt_body_append(a2, b, binary);
                let first = nvt_body(a2, binary);
                let second = nvt_encode(first.0, b, binary);
                assert(seq![13u8, next] + first.1 + second.1 =~= seq![13u8, next] + (first.1 + second.1));
            } else {
                lemma_nvt_body_append(a1, b, binary);
                let first = nvt_body(a1, binary);
                let second = nvt_encode(first.0, b, binary);
                assert(seq![13u8, 0u8] + first.1 + second.1 =~= seq![13u8, 0u8] + (first.1 + second.1));
            }
        } else {
            // `a` is a single CR: it is held back, and `b` decides its encoding.
            assert(a1 =~= Seq::<u8>::empty());
            assert(a1 + b =~= b);
            if b.len() == 0 {
                assert(ab =~= a);
            } else {
                assert(ab[1] == b[0]);
                if b[0] == 10u8 || b[0] == 0u8 {
                    assert(ab.subrange(2, ab.len() as int) =~= b.subrange(1, b.len() as int));
                } else {
                    assert(ab.subrange(1, ab.len() as int) =~= b);
                }
                assert(Seq::<u8>::empty() + nvt_encode(true, b, binary).1 =~= nvt_encode(true, b, binary).1);
            }
        }
    }
}

/// Writing two chunks one after the other produces exactly the bytes of one
/// write of their concatenation, and leaves the same CR held back: a CR LF
/// split across writes is still sent as CR LF.
pub proof fn lemma_nvt_chunking(pending_cr: bool, a: Seq<u8>, b: Seq<u8>, binary: bool)
    ensures
        ({
            let first = nvt_encode(pending_cr, a, binary);
            let second = nvt_encode(first.0, b, binary);
            nvt_encode(pending_cr, a + b, binary) == (second.0, first.1 + second.1)
        }),
{
    if a.len() == 0 {
        assert(a + b =~= b);
        assert(Seq::<u8>::empty() + nvt_encode(pending_cr, b, binary).1 =~= nvt_encode(pending_cr, b, binary).1);
    } else {
        let ab = a + b;
        assert(ab[0] == a[0]);
        if !pending_cr {
            lemma_nvt_body_append(a, b, binary);
        } else if binary || !(a[0] == 10u8 || a[0] == 0u8) {
            lemma_nvt_body_append(a, b, binary);
            let first = nvt_body(a, binary);
            let second = nvt_encode(first.0, b, binary);
            assert(seq![13u8, 0u8] + first.1 + second.1 =~= seq![13u8, 0u8] + (first.1 + second.1));
        } else {
            let a1 = a.subrange(1, a.len() as int);
            assert(ab.subrange(1, ab.len() as int) =~= a1 + b);
            lemma_nvt_body_append(a1, b, binary);
            let first = nvt_body(a1, binary);
            let second = nvt_encode(first.0, b, binary);
            assert(seq![13u8, a[0]] + first.1 + second.1 =~= seq![13u8, a[0]] + (first.1 + second.1));
        }
    }
}


// ---------------------------------------------------------------------------
// Disconnect reasons.
// ---------------------------------------------------------------------------

/// Why a Telnet session ended. A regular EOF and an explicit shutdown are not
/// errors and show nothing to the user.
#[derive(Debug)]
pub enum TelnetDisconnectReason {
    Eof,
    Read(std::io::Error),
    Write { operation: &'static str, error: std::io::Error },
    OutputQueue(String),
    Shutdown,
}

impl TelnetDisconnectReason {
    /// The message shown to the user, if any.
    pub fn user_message(&self) -> (r: Option<String>)
        ensures
            match self {
                TelnetDisconnectReason::Eof | TelnetDisconnectReason::Shutdown => r is None,
                TelnetDisconnectReason::Read(_) => r matches Some(message)
                    && exists|text: Seq<char>| message@ == "读取 Telnet 数据失败: "@ + text,
                TelnetDisconnectReason::Write { operation, .. } => r matches Some(message)
                    && exists|text: Seq<char>| message@ == "Telnet 写入失败（"@ + operation@ + "）: "@ + text,
                TelnetDisconnectReason::OutputQueue(error) => r matches Some(message)
                    && message@ == "Telnet 终端输出队列异常: "@ + error@,
            },
    {
        match self {
            TelnetDisconnectReason::Eof | TelnetDisconnectReason::Shutdown => None,
            TelnetDisconnectReason::Read(error) => {
                let text = io_error_text(error);
                let mut message = String::from_str("读取 Telnet 数据失败: ");
                message.append(text.as_str());
                Some(message)
            },
            TelnetDisconnectReason::Write { operation, error } => {
                let text = io_error_text(error);
                let mut message = String::from_str("Telnet 写入失败（");
                message.append(operation);
                message.append("）: ");
                message.append(text.as_str());
                Some(message)
            },
            TelnetDisconnectReason::OutputQueue(error) => {
                let mut message = String::from_str("Telnet 终端输出队列异常: ");
                message.append(error.as_str());
                Some(message)
            },
        }
    }
}

} // verus!
