//! The decision cores of the two steady-state loops. The polling side
//! takes a batch of fetched room-service messages, deduplicates them,
//! blocks looped-back protocol-origin messages, and reformats the rest
//! into dispatch items. The relay side takes one received protocol line
//! and decides whether to answer a ping, reply to the about command,
//! forward the message to the room service, or ignore it.
use vstd::prelude::*;
use vstd::string::StrSliceExecFns;
use vstd::string::StringExecFns;

use crate::dedup::DedupSet;
use crate::dedup::PairDedupSet;
use crate::payload::pair_views;
use crate::payload::seq_views;
use crate::protocol::parse_irc_message;
use crate::protocol::parse_irc_spec;
use crate::text::concat2;
use crate::text::find_from;
use crate::text::find_str;
use crate::text::lemma_find_from_props;
use crate::text::replace_all;
use crate::text::replace_spec;
use crate::text::starts_with;
use crate::text::starts_with_str;
use crate::text::str_eq;
use crate::text::trim_spec;
use crate::text::trim_str;

verus! {

/// A fetched message with the room-service origin marker stripped.
pub open spec fn strip_amz(m: Seq<char>) -> Seq<char> {
    if starts_with(m, "[AMZ]"@) {
        m.skip("[AMZ]"@.len() as int)
    } else {
        m
    }
}

/// A fetched `name: body` message reformatted for the channel, with the
/// sender set off in bold and colour; anything else passes unmodified.
pub open spec fn incoming_format(c: Seq<char>) -> Seq<char> {
    let i = find_from(c, ": "@, 0);
    if i >= 0 {
        "\x02\x0311"@ + trim_spec(c.subrange(0, i)) + " >\x02\x03 "@ + trim_spec(
            c.subrange(i + ": "@.len(), c.len() as int),
        )
    } else {
        c
    }
}

/// Reformats a fetched message as `incoming_format` says.
pub fn format_incoming(c: &str) -> (r: String)
    ensures
        r@ == incoming_format(c@),
{
    let n: usize = c.unicode_len();
    proof {
        reveal_strlit(": ");
    }
    match find_str(c, ": ", 0) {
        Some(i) => {
            proof {
                lemma_find_from_props(c@, ": "@, 0);
            }
            let user = trim_str(c.substring_char(0, i));
            let body = trim_str(c.substring_char(i + 2, n));
            let mut out = String::new();
            out.append("\x02\x0311");
            out.append(user);
            out.append(" >\x02\x03 ");
            out.append(body);
            proof {
                assert(out@ =~= incoming_format(c@));
            }
            out
        },
        None => String::from_str(c),
    }
}

/// One polling pass over a batch of fetched messages: each message is
/// recorded once; a message seen before is skipped; a new one has the
/// origin marker stripped and, unless it carries the protocol-origin
/// marker, is reformatted and paired with the target channel.
/// Returns the grown fingerprint record and the dispatch items, in order.
pub open spec fn poll_model(
    fps: Seq<Seq<char>>,
    msgs: Seq<Seq<char>>,
    chan: Seq<char>,
) -> (Seq<Seq<char>>, Seq<(Seq<char>, Seq<char>)>)
    decreases msgs.len(),
{
    if msgs.len() == 0 {
        (fps, Seq::empty())
    } else {
        let m = msgs[0];
        let rest = msgs.drop_first();
        if fps.contains(m) {
            poll_model(fps, rest, chan)
        } else {
            let fps2 = fps.push(m);
            let content = strip_amz(m);
            if starts_with(content, "[IRC]"@) {
                poll_model(fps2, rest, chan)
            } else {
                let r = poll_model(fps2, rest, chan);
                (r.0, seq![(chan, incoming_format(content))] + r.1)
            }
        }
    }
}

/// Processes one batch of fetched room-service messages against the
/// room-service dedup record, producing the dispatch items for the
/// channel, exactly as `poll_model` says.
pub fn poll_step(seen: &mut DedupSet, msgs: &Vec<String>, channel: &str) -> (out: Vec<
    (String, String),
>)
    ensures
        ({
            let r = poll_model(old(seen).fingerprints(), seq_views(msgs@), channel@);
            final(seen).fingerprints() == r.0 && pair_views(out@) == r.1
        }),
{
    let ghost fps0 = seen.fingerprints();
    let ghost vmsgs = seq_views(msgs@);
    let k: usize = msgs.len();
    let mut out: Vec<(String, String)> = Vec::new();
    let mut i: usize = 0;
    proof {
        reveal_strlit("[AMZ]");
        assert(vmsgs.skip(0) =~= vmsgs);
        assert(pair_views(out@) =~= Seq::<(Seq<char>, Seq<char>)>::empty());
        assert(pair_views(out@) + poll_model(fps0, vmsgs, channel@).1 =~= poll_model(
            fps0,
            vmsgs,
            channel@,
        ).1);
    }
    while i < k
        invariant
            k == msgs@.len(),
            i <= k,
            vmsgs == seq_views(msgs@),
            poll_model(fps0, vmsgs, channel@).0 == poll_model(
                seen.fingerprints(),
                vmsgs.skip(i as int),
                channel@,
            ).0,
            poll_model(fps0, vmsgs, channel@).1 == pair_views(out@) + poll_model(
                seen.fingerprints(),
                vmsgs.skip(i as int),
                channel@,
            ).1,
            "[AMZ]"@.len() == 5,
        decreases k - i,
    {
        let ghost fps_i = seen.fingerprints();
        let ghost tail = vmsgs.skip(i as int);
        proof {
            assert(tail[0] == vmsgs[i as int]);
            assert(tail.drop_first() =~= vmsgs.skip(i as int + 1));
            assert(vmsgs[i as int] == msgs@[i as int]@);
        }
        let m = &msgs[i];
        let fresh = seen.observe(m.as_str());
        if fresh {
            let mlen: usize = m.as_str().unicode_len();
            let content: &str = if starts_with_str(m.as_str(), "[AMZ]") {
                m.as_str().substring_char(5, mlen)
            } else {
                m.as_str()
            };
            proof {
                assert(content@ =~= strip_amz(vmsgs[i as int]));
            }
            if !starts_with_str(content, "[IRC]") {
                let txt = format_incoming(content);
                let ghost prior = out@;
                out.push((String::from_str(channel), txt));
                proof {
                    assert(pair_views(out@) =~= pair_views(prior).push(
                        (channel@, incoming_format(content@)),
                    ));
                    assert(pair_views(prior) + (seq![
                        (channel@, incoming_format(content@)),
                    ] + poll_model(seen.fingerprints(), vmsgs.skip(i as int + 1), channel@).1)
                        =~= pair_views(out@) + poll_model(
                        seen.fingerprints(),
                        vmsgs.skip(i as int + 1),
                        channel@,
                    ).1);
                }
            }
        }
        i = i + 1;
    }
    proof {
        assert(vmsgs.skip(k as int) =~= Seq::<Seq<char>>::empty());
        assert(pair_views(out@) + Seq::<(Seq<char>, Seq<char>)>::empty() =~= pair_views(out@));
    }
    out
}

/// The number of messages in the batch that are duplicates: already in
/// the record, or a repeat of an earlier message of the same batch, at
/// the moment each is processed.
pub open spec fn dup_count(fps: Seq<Seq<char>>, msgs: Seq<Seq<char>>) -> nat
    decreases msgs.len(),
{
    if msgs.len() == 0 {
        0
    } else if fps.contains(msgs[0]) {
        1 + dup_count(fps, msgs.drop_first())
    } else {
        dup_count(fps.push(msgs[0]), msgs.drop_first())
    }
}

/// Message `i` of the batch is a duplicate at the moment it is
/// processed: already in the record, or a repeat of an earlier batch
/// message.
pub open spec fn seen_before(fps: Seq<Seq<char>>, msgs: Seq<Seq<char>>, i: int) -> bool {
    fps.contains(msgs[i]) || exists|j: int| 0 <= j < i && #[trigger] msgs[j] == msgs[i]
}

/// Dedup idempotence: over a batch of N fetched messages of which K are
/// duplicates of something already observed (in the record or earlier in
/// the batch), exactly N − K dispatch items go out, provided every
/// message that is new at the moment it is processed is free of the
/// protocol-origin marker.
pub proof fn lemma_dedup_idempotence(fps: Seq<Seq<char>>, msgs: Seq<Seq<char>>, chan: Seq<char>)
    requires
        forall|i: int|
            0 <= i < msgs.len() && !seen_before(fps, msgs, i) ==> !starts_with(
                #[trigger] strip_amz(msgs[i]),
                "[IRC]"@,
            ),
    ensures
        dup_count(fps, msgs) <= msgs.len(),
        poll_model(fps, msgs, chan).1.len() == msgs.len() - dup_count(fps, msgs),
    decreases msgs.len(),
{
    if msgs.len() == 0 {
    } else {
        let rest = msgs.drop_first();
        assert(forall|i: int| 0 <= i < rest.len() ==> rest[i] == msgs[i + 1]);
        if fps.contains(msgs[0]) {
            assert forall|i: int|
                0 <= i < rest.len() && !seen_before(fps, rest, i) implies !starts_with(
                strip_amz(rest[i]),
                "[IRC]"@,
            ) by {
                if seen_before(fps, msgs, i + 1) {
                    if !fps.contains(msgs[i + 1]) {
                        let j = choose|j: int| 0 <= j < i + 1 && #[trigger] msgs[j] == msgs[i + 1];
                        if j == 0 {
                            assert(fps.contains(rest[i]));
                        } else {
                            assert(rest[j - 1] == rest[i]);
                        }
                    }
                    assert(seen_before(fps, rest, i));
                }
                assert(!starts_with(strip_amz(msgs[i + 1]), "[IRC]"@));
            }
            lemma_dedup_idempotence(fps, rest, chan);
        } else {
            let fps2 = fps.push(msgs[0]);
            assert(!seen_before(fps, msgs, 0));
            assert(!starts_with(strip_amz(msgs[0]), "[IRC]"@));
            assert forall|i: int|
                0 <= i < rest.len() && !seen_before(fps2, rest, i) implies !starts_with(
                strip_amz(rest[i]),
                "[IRC]"@,
            ) by {
                if seen_before(fps, msgs, i + 1) {
                    if fps.contains(msgs[i + 1]) {
                        let j = choose|j: int|
                            0 <= j < fps.len() && #[trigger] fps[j] == msgs[i + 1];
                        assert(fps2[j] == rest[i]);
                        assert(fps2.contains(rest[i]));
                    } else {
                        let j = choose|j: int| 0 <= j < i + 1 && #[trigger] msgs[j] == msgs[i + 1];
                        if j == 0 {
                            assert(fps2[fps.len() as int] == rest[i]);
                            assert(fps2.contains(rest[i]));
                        } else {
                            assert(rest[j - 1] == rest[i]);
                        }
                    }
                    assert(seen_before(fps2, rest, i));
                }
                assert(!starts_with(strip_amz(msgs[i + 1]), "[IRC]"@));
            }
            lemma_dedup_idempotence(fps2, rest, chan);
        }
    }
}

/// Loop prevention: a batch in which every message carries the
/// protocol-origin marker (after origin-marker stripping) produces no
/// dispatch items at all; such messages are recorded but never forwarded
/// back to the protocol side.
pub proof fn lemma_loop_prevention(fps: Seq<Seq<char>>, msgs: Seq<Seq<char>>, chan: Seq<char>)
    requires
        forall|i: int|
            0 <= i < msgs.len() ==> starts_with(#[trigger] strip_amz(msgs[i]), "[IRC]"@),
    ensures
        poll_model(fps, msgs, chan).1.len() == 0,
    decreases msgs.len(),
{
    if msgs.len() == 0 {
    } else {
        let rest = msgs.drop_first();
        assert(forall|i: int| 0 <= i < rest.len() ==> rest[i] == msgs[i + 1]);
        assert(starts_with(strip_amz(msgs[0]), "[IRC]"@));
        if fps.contains(msgs[0]) {
            lemma_loop_prevention(fps, rest, chan);
        } else {
            lemma_loop_prevention(fps.push(msgs[0]), rest, chan);
        }
    }
}

/// A forwarded message echoed back is blocked: the exact text this bridge
/// forwards for a protocol-side message carries the protocol-origin
/// marker, so when it comes back through the fetch path — bare or behind
/// the room-service origin marker — the polling pass never turns it into
/// a dispatch item.
pub proof fn lemma_echo_blocked(
    fps: Seq<Seq<char>>,
    nick: Seq<char>,
    msg: Seq<char>,
    chan: Seq<char>,
)
    ensures
        poll_model(fps, seq![forward_text(nick, msg)], chan).1.len() == 0,
        poll_model(fps, seq!["[AMZ]"@ + forward_text(nick, msg)], chan).1.len() == 0,
{
    reveal_strlit("[IRC]<strong>");
    reveal_strlit("[IRC]");
    reveal_strlit("[AMZ]");
    let ft = forward_text(nick, msg);
    assert(!starts_with(ft, "[AMZ]"@)) by {
        if starts_with(ft, "[AMZ]"@) {
            assert(ft.subrange(0, 5)[1] == 'A');
            assert(ft[1] == 'I');
        }
    }
    assert(starts_with(ft, "[IRC]"@)) by {
        assert(ft.subrange(0, 5) =~= "[IRC]"@);
    }
    assert(strip_amz(seq![ft][0]) == ft);
    lemma_loop_prevention(fps, seq![ft], chan);
    let wrapped = "[AMZ]"@ + ft;
    assert(starts_with(wrapped, "[AMZ]"@)) by {
        assert(wrapped.subrange(0, 5) =~= "[AMZ]"@);
    }
    assert(strip_amz(seq![wrapped][0]) =~= ft);
    lemma_loop_prevention(fps, seq![wrapped], chan);
}

/// What the relay loop does with one received line.
pub enum RelayDecision {
    /// Nothing to do: not a direct message, a duplicate, or already
    /// room-service-origin.
    Ignore,
    /// The line was a protocol ping; answer with this line.
    Pong { line: String },
    /// The about command; reply in-channel with the identification text.
    Reply { target: String, text: String },
    /// Forward this plaintext to the room service after sealing.
    Forward { plain: String },
}

/// The ghost image of a `RelayDecision`.
pub enum RelayDecisionModel {
    Ignore,
    Pong { line: Seq<char> },
    Reply { target: Seq<char>, text: Seq<char> },
    Forward { plain: Seq<char> },
}

pub open spec fn decision_view(d: RelayDecision) -> RelayDecisionModel {
    match d {
        RelayDecision::Ignore => RelayDecisionModel::Ignore,
        RelayDecision::Pong { line } => RelayDecisionModel::Pong { line: line@ },
        RelayDecision::Reply { target, text } => RelayDecisionModel::Reply {
            target: target@,
            text: text@,
        },
        RelayDecision::Forward { plain } => RelayDecisionModel::Forward { plain: plain@ },
    }
}

/// The dedup fingerprint of a protocol-side message: the sender and the
/// text, as a pair.
pub open spec fn fingerprint_of(nick: Seq<char>, msg: Seq<char>) -> (Seq<char>, Seq<char>) {
    (nick, msg)
}

/// The in-channel reply to the about command.
pub open spec fn about_reply(nick: Seq<char>) -> Seq<char> {
    nick
        + ": Anti-forensic and secure messenger. Source code: https://github.com/Amnezichat/Amnezichat"@
}

/// The text forwarded to the room service for a protocol-side message.
pub open spec fn forward_text(nick: Seq<char>, msg: Seq<char>) -> Seq<char> {
    "[IRC]<strong>"@ + nick + "</strong>: "@ + msg
}

/// The relay decision for one received line: a ping is answered; a
/// non-message line is ignored; a duplicate direct message is ignored; the
/// about command draws the fixed reply; a message already carrying the
/// protocol-origin marker is recorded but not forwarded; anything else is
/// marked, attributed, and forwarded. Also returns the grown record.
pub open spec fn relay_model(fps: Seq<(Seq<char>, Seq<char>)>, raw: Seq<char>) -> (
    Seq<(Seq<char>, Seq<char>)>,
    RelayDecisionModel,
) {
    if starts_with(raw, "PING"@) {
        (fps, RelayDecisionModel::Pong { line: replace_spec(raw, "PING"@, "PONG"@) })
    } else {
        match parse_irc_spec(raw) {
            None => (fps, RelayDecisionModel::Ignore),
            Some(pm) => {
                let key = fingerprint_of(pm.2, pm.1);
                if fps.contains(key) {
                    (fps, RelayDecisionModel::Ignore)
                } else {
                    let fps2 = fps.push(key);
                    if trim_spec(pm.1) == ".amnezichat"@ {
                        (
                            fps2,
                            RelayDecisionModel::Reply { target: pm.0, text: about_reply(pm.2) },
                        )
                    } else if starts_with(pm.1, "[AMZ]"@) {
                        (fps2, RelayDecisionModel::Ignore)
                    } else {
                        (fps2, RelayDecisionModel::Forward { plain: forward_text(pm.2, pm.1) })
                    }
                }
            },
        }
    }
}

/// Decides what to do with one received protocol line, recording the
/// message fingerprint in the protocol-side dedup record, exactly as
/// `relay_model` says.
pub fn relay_step(seen: &mut PairDedupSet, raw: &str) -> (d: RelayDecision)
    ensures
        ({
            let r = relay_model(old(seen).fingerprints(), raw@);
            final(seen).fingerprints() == r.0 && decision_view(d) == r.1
        }),
{
    if starts_with_str(raw, "PING") {
        return RelayDecision::Pong { line: replace_all(raw, "PING", "PONG") };
    }
    match parse_irc_message(raw) {
        None => RelayDecision::Ignore,
        Some((target, msg, nick)) => {
            let fresh = seen.observe(nick.as_str(), msg.as_str());
            if !fresh {
                return RelayDecision::Ignore;
            }
            if str_eq(trim_str(msg.as_str()), ".amnezichat") {
                let text = concat2(
                    nick.as_str(),
                    ": Anti-forensic and secure messenger. Source code: https://github.com/Amnezichat/Amnezichat",
                );
                return RelayDecision::Reply { target, text };
            }
            if starts_with_str(msg.as_str(), "[AMZ]") {
                return RelayDecision::Ignore;
            }
            let mut plain = String::new();
            plain.append("[IRC]<strong>");
            plain.append(nick.as_str());
            plain.append("</strong>: ");
            plain.append(msg.as_str());
            proof {
                assert(plain@ =~= forward_text(nick@, msg@));
            }
            RelayDecision::Forward { plain }
        },
    }
}

} // verus!
