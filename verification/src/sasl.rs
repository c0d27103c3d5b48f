//! The authentication handshake, as a deterministic state machine from
//! server line to next state and lines to send. The I/O shell feeds it
//! one received line at a time and writes out whatever it hands back.
use vstd::prelude::*;
use vstd::string::StrSliceExecFns;
use vstd::string::StringExecFns;
use vstd::utf8::encode_utf8;
use base64::Engine;

use crate::payload::seq_views;
use crate::protocol::join_line;
use crate::protocol::join_line_spec;
use crate::protocol::nick_line;
use crate::protocol::nick_line_spec;
use crate::protocol::user_line;
use crate::protocol::user_line_spec;
use crate::text::contains_at_all;
use crate::text::contains_str;
use crate::text::str_eq;
use crate::text::trim_spec;
use crate::text::trim_str;

verus! {

/// What the standard base64 encoding of a byte sequence is; the encoding
/// depends on the bytes alone.
pub uninterp spec fn b64_of(bytes: Seq<u8>) -> Seq<char>;

/// Relies on base64's `Engine::encode` with the standard alphabet and
/// padding: the encoding of the given bytes, a function of them alone.
/// Its only panic is an overflow computing the encoded length, which
/// would need a slice longer than any that can exist.
#[verifier::external_body]
fn b64_encode(bytes: &Vec<u8>) -> (r: String)
    ensures
        r@ == b64_of(bytes@),
{
    base64::engine::general_purpose::STANDARD.encode(bytes.as_slice())
}

/// The credential payload of the PLAIN mechanism: NUL, authentication
/// identity, NUL, password, all as UTF-8 bytes.
pub open spec fn sasl_payload_bytes(user: Seq<char>, pass: Seq<char>) -> Seq<u8> {
    seq![0u8] + encode_utf8(user) + seq![0u8] + encode_utf8(pass)
}

/// Builds the PLAIN credential payload.
pub fn sasl_payload(user: &str, pass: &str) -> (r: Vec<u8>)
    ensures
        r@ == sasl_payload_bytes(user@, pass@),
{
    let mut out: Vec<u8> = Vec::new();
    out.push(0u8);
    let mut ub = user.as_bytes_vec();
    out.append(&mut ub);
    out.push(0u8);
    let mut pb = pass.as_bytes_vec();
    out.append(&mut pb);
    proof {
        assert(out@ =~= sasl_payload_bytes(user@, pass@));
    }
    out
}

/// The credential line: the encoded PLAIN payload behind the command word.
pub open spec fn auth_line_spec(user: Seq<char>, pass: Seq<char>) -> Seq<char> {
    "AUTHENTICATE "@ + b64_of(sasl_payload_bytes(user, pass)) + "\r\n"@
}

/// Builds the credential line for the wire.
pub fn auth_credentials_line(user: &str, pass: &str) -> (r: String)
    ensures
        r@ == auth_line_spec(user@, pass@),
{
    let payload = sasl_payload(user, pass);
    let encoded = b64_encode(&payload);
    let mut out = String::new();
    out.append("AUTHENTICATE ");
    out.append(encoded.as_str());
    out.append("\r\n");
    proof {
        assert(out@ =~= auth_line_spec(user@, pass@));
    }
    out
}

/// Where the handshake stands.
#[derive(PartialEq, Eq, Structural, Clone, Copy, Debug)]
pub enum HandshakeState {
    /// Capability requested; waiting for its acknowledgment.
    AwaitCapAck,
    /// Mechanism selected; waiting for the continuation prompt.
    AwaitPlus,
    /// Credentials sent; waiting for the success or rejection code.
    AwaitSaslResult,
    /// Registration sent; waiting for end of MOTD (or its absence).
    AwaitMotd,
    /// The channel join line has been issued; the connection is ready.
    Joined,
    /// The server rejected the credentials; nothing more is sent.
    Rejected,
}

/// The opening move: with credentials, request the authentication
/// capability; without, register at once.
pub open spec fn handshake_start_spec(has_creds: bool, nick: Seq<char>) -> (
    HandshakeState,
    Seq<Seq<char>>,
) {
    if has_creds {
        (HandshakeState::AwaitCapAck, seq!["CAP REQ :sasl\r\n"@])
    } else {
        (HandshakeState::AwaitMotd, seq![nick_line_spec(nick), user_line_spec(nick)])
    }
}

pub fn handshake_start(has_creds: bool, nick: &str) -> (r: (HandshakeState, Vec<String>))
    ensures
        r.0 == handshake_start_spec(has_creds, nick@).0,
        seq_views(r.1@) == handshake_start_spec(has_creds, nick@).1,
{
    let mut lines: Vec<String> = Vec::new();
    if has_creds {
        lines.push(String::from_str("CAP REQ :sasl\r\n"));
        proof {
            assert(seq_views(lines@) =~= handshake_start_spec(true, nick@).1);
        }
        (HandshakeState::AwaitCapAck, lines)
    } else {
        lines.push(nick_line(nick));
        lines.push(user_line(nick));
        proof {
            assert(seq_views(lines@) =~= handshake_start_spec(false, nick@).1);
        }
        (HandshakeState::AwaitMotd, lines)
    }
}

/// One handshake transition on one received server line. The handshake is
/// deterministic: waiting states absorb unrelated lines; the capability
/// acknowledgment draws the mechanism selection; the continuation prompt
/// draws the encoded credentials; the success code draws end of capability
/// negotiation and registration; either rejection code ends the handshake
/// with nothing further sent; end of MOTD (or no MOTD) draws the join.
pub open spec fn handshake_step_spec(
    st: HandshakeState,
    line: Seq<char>,
    nick: Seq<char>,
    channel: Seq<char>,
    user: Seq<char>,
    pass: Seq<char>,
) -> (HandshakeState, Seq<Seq<char>>) {
    match st {
        HandshakeState::AwaitCapAck => {
            if contains_at_all(line, "CAP"@) && contains_at_all(line, "ACK"@) && contains_at_all(
                line,
                "sasl"@,
            ) {
                (HandshakeState::AwaitPlus, seq!["AUTHENTICATE PLAIN\r\n"@])
            } else {
                (HandshakeState::AwaitCapAck, Seq::empty())
            }
        },
        HandshakeState::AwaitPlus => {
            if trim_spec(line) == "AUTHENTICATE +"@ {
                (HandshakeState::AwaitSaslResult, seq![auth_line_spec(user, pass)])
            } else {
                (HandshakeState::AwaitPlus, Seq::empty())
            }
        },
        HandshakeState::AwaitSaslResult => {
            if contains_at_all(line, "903"@) {
                (
                    HandshakeState::AwaitMotd,
                    seq!["CAP END\r\n"@, nick_line_spec(nick), user_line_spec(nick)],
                )
            } else if contains_at_all(line, "904"@) || contains_at_all(line, "905"@) {
                (HandshakeState::Rejected, Seq::empty())
            } else {
                (HandshakeState::AwaitSaslResult, Seq::empty())
            }
        },
        HandshakeState::AwaitMotd => {
            if contains_at_all(line, "376"@) || contains_at_all(line, "422"@) {
                (HandshakeState::Joined, seq![join_line_spec(channel)])
            } else {
                (HandshakeState::AwaitMotd, Seq::empty())
            }
        },
        HandshakeState::Joined => (HandshakeState::Joined, Seq::empty()),
        HandshakeState::Rejected => (HandshakeState::Rejected, Seq::empty()),
    }
}

/// Runs one handshake transition, exactly as `handshake_step_spec` says.
pub fn handshake_step(
    st: HandshakeState,
    line: &str,
    nick: &str,
    channel: &str,
    user: &str,
    pass: &str,
) -> (r: (HandshakeState, Vec<String>))
    ensures
        r.0 == handshake_step_spec(st, line@, nick@, channel@, user@, pass@).0,
        seq_views(r.1@) == handshake_step_spec(st, line@, nick@, channel@, user@, pass@).1,
{
    let mut lines: Vec<String> = Vec::new();
    let next: HandshakeState = match st {
        HandshakeState::AwaitCapAck => {
            if contains_str(line, "CAP") && contains_str(line, "ACK") && contains_str(
                line,
                "sasl",
            ) {
                lines.push(String::from_str("AUTHENTICATE PLAIN\r\n"));
                HandshakeState::AwaitPlus
            } else {
                HandshakeState::AwaitCapAck
            }
        },
        HandshakeState::AwaitPlus => {
            if str_eq(trim_str(line), "AUTHENTICATE +") {
                lines.push(auth_credentials_line(user, pass));
                HandshakeState::AwaitSaslResult
            } else {
                HandshakeState::AwaitPlus
            }
        },
        HandshakeState::AwaitSaslResult => {
            if contains_str(line, "903") {
                lines.push(String::from_str("CAP END\r\n"));
                lines.push(nick_line(nick));
                lines.push(user_line(nick));
                HandshakeState::AwaitMotd
            } else if contains_str(line, "904") || contains_str(line, "905") {
                HandshakeState::Rejected
            } else {
                HandshakeState::AwaitSaslResult
            }
        },
        HandshakeState::AwaitMotd => {
            if contains_str(line, "376") || contains_str(line, "422") {
                lines.push(join_line(channel));
                HandshakeState::Joined
            } else {
                HandshakeState::AwaitMotd
            }
        },
        HandshakeState::Joined => HandshakeState::Joined,
        HandshakeState::Rejected => HandshakeState::Rejected,
    };
    proof {
        assert(seq_views(lines@) =~= handshake_step_spec(st, line@, nick@, channel@, user@, pass@).1);
    }
    (next, lines)
}

} // verus!
