//! The line protocol: parsing a received line into a direct message,
//! sanitising and framing outgoing lines, and the fixed command lines of
//! registration and channel join.
use vstd::prelude::*;
use vstd::string::StrSliceExecFns;
use vstd::string::StringExecFns;

use crate::text::contains_at_all;
use crate::text::contains_str;
use crate::text::find_from;
use crate::text::find_str;
use crate::text::lemma_find_from_props;
use crate::text::trim_spec;
use crate::text::trim_str;

verus! {

/// A received line parsed as a direct message: `(target, message, sender)`.
/// The line is trimmed; anything without the direct-message marker or with
/// fewer than four space-delimited fields is not a direct message. The
/// sender is the origin prefix (the first field, its leading `:` removed)
/// up to the first `!`, or the whole prefix if there is none; the target
/// is the third field; the message is the fourth field with one leading
/// `:` stripped.
pub open spec fn parse_irc_spec(raw: Seq<char>) -> Option<(Seq<char>, Seq<char>, Seq<char>)> {
    let t = trim_spec(raw);
    if !contains_at_all(t, "PRIVMSG"@) {
        None
    } else {
        let i1 = find_from(t, " "@, 0);
        let i2 = find_from(t, " "@, i1 + 1);
        let i3 = find_from(t, " "@, i2 + 1);
        if i1 < 0 || i2 < 0 || i3 < 0 {
            None
        } else {
            let target = t.subrange(i2 + 1, i3);
            let rest = t.subrange(i3 + 1, t.len() as int);
            let msg = if rest.len() > 0 && rest[0] == ':' {
                rest.skip(1)
            } else {
                rest
            };
            let first = t.subrange(0, i1);
            let prefix = if first.len() > 0 && first[0] == ':' {
                first.skip(1)
            } else {
                first
            };
            let k = find_from(prefix, "!"@, 0);
            let nick = if k < 0 {
                prefix
            } else {
                prefix.subrange(0, k)
            };
            Some((target, msg, nick))
        }
    }
}

/// Parses one received protocol line into `(target, message, sender_nick)`,
/// or `None` when the line is not a direct message.
pub fn parse_irc_message(raw: &str) -> (r: Option<(String, String, String)>)
    ensures
        ({
            let p = parse_irc_spec(raw@);
            match r {
                Some(tup) => p == Some((tup.0@, tup.1@, tup.2@)),
                None => p is None,
            }
        }),
{
    let t = trim_str(raw);
    let n: usize = t.unicode_len();
    if !contains_str(t, "PRIVMSG") {
        return None;
    }
    proof {
        reveal_strlit(" ");
        reveal_strlit("!");
    }
    let i1 = match find_str(t, " ", 0) {
        Some(i) => i,
        None => { return None },
    };
    proof {
        lemma_find_from_props(t@, " "@, 0);
    }
    let i2 = match find_str(t, " ", i1 + 1) {
        Some(i) => i,
        None => { return None },
    };
    proof {
        lemma_find_from_props(t@, " "@, i1 + 1);
    }
    let i3 = match find_str(t, " ", i2 + 1) {
        Some(i) => i,
        None => { return None },
    };
    proof {
        lemma_find_from_props(t@, " "@, i2 + 1);
    }
    let target = String::from_str(t.substring_char(i2 + 1, i3));
    let rest = t.substring_char(i3 + 1, n);
    let rn: usize = rest.unicode_len();
    let msg = if rn > 0 && rest.get_char(0) == ':' {
        String::from_str(rest.substring_char(1, rn))
    } else {
        String::from_str(rest)
    };
    let first = t.substring_char(0, i1);
    let fl: usize = first.unicode_len();
    let prefix = if fl > 0 && first.get_char(0) == ':' {
        first.substring_char(1, fl)
    } else {
        first
    };
    let nick = match find_str(prefix, "!", 0) {
        Some(k) => {
            proof {
                lemma_find_from_props(prefix@, "!"@, 0);
            }
            String::from_str(prefix.substring_char(0, k))
        },
        None => String::from_str(prefix),
    };
    Some((target, msg, nick))
}

/// A carriage return or line feed becomes a space; anything else stays.
pub open spec fn sanitize_char(c: char) -> char {
    if c == '\r' || c == '\n' {
        ' '
    } else {
        c
    }
}

/// An outgoing chat line: embedded CR/LF replaced by spaces, truncated to
/// at most 400 characters.
pub open spec fn sanitize_spec(s: Seq<char>) -> Seq<char> {
    let m = s.map_values(|c: char| sanitize_char(c));
    if m.len() <= 400 {
        m
    } else {
        m.take(400)
    }
}

/// Any outgoing chat line is sent as a single line: the sanitised text has
/// no CR or LF left, each kept character is the sanitised original, and the
/// length never exceeds 400.
pub proof fn lemma_line_sanitation(s: Seq<char>)
    ensures
        sanitize_spec(s).len() <= 400,
        sanitize_spec(s).len() == if s.len() <= 400 {
            s.len()
        } else {
            400
        },
        forall|i: int|
            0 <= i < sanitize_spec(s).len() ==> sanitize_spec(s)[i] == sanitize_char(s[i])
                && sanitize_spec(s)[i] != '\r' && sanitize_spec(s)[i] != '\n',
{
}

/// Replaces CR/LF by spaces and truncates to 400 characters.
pub fn sanitize_message(s: &str) -> (r: String)
    ensures
        r@ == sanitize_spec(s@),
{
    let n: usize = s.unicode_len();
    let mut out = String::new();
    let mut i: usize = 0;
    while i < n && i < 400
        invariant
            n == s@.len(),
            i <= n,
            i <= 400,
            out@.len() == i,
            forall|k: int| 0 <= k < i ==> out@[k] == sanitize_char(s@[k]),
        decreases n - i,
    {
        let ch = s.get_char(i);
        if ch == '\r' || ch == '\n' {
            out.append(" ");
            proof {
                reveal_strlit(" ");
            }
        } else {
            let piece = s.substring_char(i, i + 1);
            proof {
                assert(piece@ =~= seq![s@[i as int]]);
            }
            out.append(piece);
        }
        i = i + 1;
    }
    proof {
        assert(out@ =~= sanitize_spec(s@));
    }
    out
}

/// The framed chat-message line for `target` carrying the sanitised text.
pub open spec fn privmsg_line_spec(target: Seq<char>, text: Seq<char>) -> Seq<char> {
    "PRIVMSG "@ + target + " :"@ + sanitize_spec(text) + "\r\n"@
}

/// Frames a chat message: sanitises the text and builds the command line.
pub fn privmsg_line(target: &str, text: &str) -> (r: String)
    ensures
        r@ == privmsg_line_spec(target@, text@),
{
    let clean = sanitize_message(text);
    let mut out = String::new();
    out.append("PRIVMSG ");
    out.append(target);
    out.append(" :");
    out.append(clean.as_str());
    out.append("\r\n");
    proof {
        assert(out@ =~= privmsg_line_spec(target@, text@));
    }
    out
}

/// The nickname registration line.
pub open spec fn nick_line_spec(nick: Seq<char>) -> Seq<char> {
    "NICK "@ + nick + "\r\n"@
}

pub fn nick_line(nick: &str) -> (r: String)
    ensures
        r@ == nick_line_spec(nick@),
{
    let mut out = String::new();
    out.append("NICK ");
    out.append(nick);
    out.append("\r\n");
    proof {
        assert(out@ =~= nick_line_spec(nick@));
    }
    out
}

/// The user registration line, with the nickname doubling as the real name.
pub open spec fn user_line_spec(nick: Seq<char>) -> Seq<char> {
    "USER "@ + nick + " 0 * :"@ + nick + "\r\n"@
}

pub fn user_line(nick: &str) -> (r: String)
    ensures
        r@ == user_line_spec(nick@),
{
    let mut out = String::new();
    out.append("USER ");
    out.append(nick);
    out.append(" 0 * :");
    out.append(nick);
    out.append("\r\n");
    proof {
        assert(out@ =~= user_line_spec(nick@));
    }
    out
}

/// The general user registration line: username, mode, host, and the
/// real name behind a colon.
pub open spec fn user_line_full_spec(
    user: Seq<char>,
    mode: Seq<char>,
    host: Seq<char>,
    realname: Seq<char>,
) -> Seq<char> {
    "USER "@ + user + " "@ + mode + " "@ + host + " :"@ + realname + "\r\n"@
}

pub fn user_line_full(user: &str, mode: &str, host: &str, realname: &str) -> (r: String)
    ensures
        r@ == user_line_full_spec(user@, mode@, host@, realname@),
{
    let mut out = String::new();
    out.append("USER ");
    out.append(user);
    out.append(" ");
    out.append(mode);
    out.append(" ");
    out.append(host);
    out.append(" :");
    out.append(realname);
    out.append("\r\n");
    proof {
        assert(out@ =~= user_line_full_spec(user@, mode@, host@, realname@));
    }
    out
}

/// The channel join line.
pub open spec fn join_line_spec(channel: Seq<char>) -> Seq<char> {
    "JOIN "@ + channel + "\r\n"@
}

pub fn join_line(channel: &str) -> (r: String)
    ensures
        r@ == join_line_spec(channel@),
{
    let mut out = String::new();
    out.append("JOIN ");
    out.append(channel);
    out.append("\r\n");
    proof {
        assert(out@ =~= join_line_spec(channel@));
    }
    out
}

} // verus!
