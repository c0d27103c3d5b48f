//! Room-service payload handling: extracting the encrypted payloads out of
//! a fetched body, wrapping an outgoing payload in the same markers, and
//! cleaning a decrypted message (padding span, strong tags, picture and
//! media spans, dummy traffic).
use vstd::prelude::*;
use vstd::string::StrSliceExecFns;
use vstd::string::StringExecFns;

use crate::text::concat2;
use crate::text::concat3;
use crate::text::contains_at_all;
use crate::text::contains_str;
use crate::text::find_from;
use crate::text::find_str;
use crate::text::lemma_find_from_props;
use crate::text::replace_all;
use crate::text::replace_spec;
use crate::text::trim_spec;
use crate::text::trim_str;

verus! {

/// The views of a sequence of owned strings.
pub open spec fn seq_views(v: Seq<String>) -> Seq<Seq<char>> {
    v.map_values(|s: String| s@)
}

/// The views of a sequence of pairs of owned strings.
pub open spec fn pair_views(v: Seq<(String, String)>) -> Seq<(Seq<char>, Seq<char>)> {
    v.map_values(|p: (String, String)| (p.0@, p.1@))
}

/// The padding span removed: everything from the first `<padding>` up to
/// and including the first `</padding>`, when both occur; otherwise the
/// text unchanged.
pub open spec fn unpad_spec(s: Seq<char>) -> Seq<char> {
    let a = find_from(s, "<padding>"@, 0);
    let b = find_from(s, "</padding>"@, 0);
    if a >= 0 && b >= 0 {
        s.subrange(0, a) + s.subrange(b + "</padding>"@.len(), s.len() as int)
    } else {
        s
    }
}

/// Removes the padding span, as `unpad_spec` says.
pub fn unpad_message(s: &str) -> (r: String)
    ensures
        r@ == unpad_spec(s@),
{
    let n: usize = s.unicode_len();
    proof {
        reveal_strlit("<padding>");
        reveal_strlit("</padding>");
    }
    let oa = find_str(s, "<padding>", 0);
    let ob = find_str(s, "</padding>", 0);
    match (oa, ob) {
        (Some(a), Some(b)) => {
            proof {
                lemma_find_from_props(s@, "<padding>"@, 0);
                lemma_find_from_props(s@, "</padding>"@, 0);
            }
            concat2(s.substring_char(0, a), s.substring_char(b + 10, n))
        },
        _ => String::from_str(s),
    }
}

/// Text from `from` on with `<open>...<close>` spans removed: repeatedly,
/// the earliest `open` and the earliest `close` after it are located and
/// the whole span is dropped; a lone `open` with no following `close`
/// leaves the rest unchanged.
pub open spec fn remove_spans_from(
    s: Seq<char>,
    open_tag: Seq<char>,
    close_tag: Seq<char>,
    from: int,
) -> Seq<char>
    decreases s.len() - from,
{
    let i = find_from(s, open_tag, from);
    if i < 0 {
        s.subrange(from, s.len() as int)
    } else {
        let j = find_from(s, close_tag, i + open_tag.len());
        if j < 0 {
            s.subrange(from, s.len() as int)
        } else if from <= i && i + open_tag.len() <= j && j + close_tag.len() <= s.len()
            && close_tag.len() > 0 {
            s.subrange(from, i) + remove_spans_from(s, open_tag, close_tag, j + close_tag.len())
        } else {
            s.subrange(from, s.len() as int)
        }
    }
}

/// Removes every `open_tag ... close_tag` span, left to right.
pub fn remove_spans(s: &str, open_tag: &str, close_tag: &str) -> (r: String)
    requires
        open_tag@.len() > 0,
        close_tag@.len() > 0,
    ensures
        r@ == remove_spans_from(s@, open_tag@, close_tag@, 0),
{
    let n: usize = s.unicode_len();
    let olen: usize = open_tag.unicode_len();
    let clen: usize = close_tag.unicode_len();
    let mut out = String::new();
    let mut from: usize = 0;
    loop
        invariant
            n == s@.len(),
            olen == open_tag@.len(),
            clen == close_tag@.len(),
            olen > 0,
            clen > 0,
            from <= n,
            remove_spans_from(s@, open_tag@, close_tag@, 0) == out@ + remove_spans_from(
                s@,
                open_tag@,
                close_tag@,
                from as int,
            ),
        decreases n - from,
    {
        let oi = find_str(s, open_tag, from);
        match oi {
            None => {
                out.append(s.substring_char(from, n));
                proof {
                    assert(out@ =~= remove_spans_from(s@, open_tag@, close_tag@, 0));
                }
                return out;
            },
            Some(i) => {
                proof {
                    lemma_find_from_props(s@, open_tag@, from as int);
                }
                let oj = find_str(s, close_tag, i + olen);
                match oj {
                    None => {
                        out.append(s.substring_char(from, n));
                        proof {
                            assert(out@ =~= remove_spans_from(s@, open_tag@, close_tag@, 0));
                        }
                        return out;
                    },
                    Some(j) => {
                        proof {
                            lemma_find_from_props(s@, close_tag@, i + olen);
                        }
                        out.append(s.substring_char(from, i));
                        from = j + clen;
                    },
                }
            },
        }
    }
}

/// Dummy traffic is dropped entirely.
pub open spec fn is_dummy(s: Seq<char>) -> bool {
    contains_at_all(s, "[DUMMY_DATA]:"@)
}

/// A decrypted payload after cleaning: padding span removed, strong tags
/// stripped, picture and media spans removed; `None` when the message is
/// dummy traffic.
pub open spec fn clean_message_spec(s: Seq<char>) -> Option<Seq<char>> {
    let u = unpad_spec(s);
    let t = replace_spec(
        replace_spec(u, "<strong>"@, Seq::empty()),
        "</strong>"@,
        Seq::empty(),
    );
    let p = remove_spans_from(t, "<pfp>"@, "</pfp>"@, 0);
    let m = remove_spans_from(p, "<media>"@, "</media>"@, 0);
    if is_dummy(m) {
        None
    } else {
        Some(m)
    }
}

/// Cleans one decrypted payload; `None` drops dummy traffic.
pub fn clean_message(s: &str) -> (r: Option<String>)
    ensures
        ({
            let c = clean_message_spec(s@);
            match r {
                Some(m) => c == Some(m@),
                None => c is None,
            }
        }),
{
    proof {
        reveal_strlit("");
        reveal_strlit("<pfp>");
        reveal_strlit("</pfp>");
        reveal_strlit("<media>");
        reveal_strlit("</media>");
        assert(""@ =~= Seq::<char>::empty());
    }
    let u = unpad_message(s);
    let t1 = replace_all(u.as_str(), "<strong>", "");
    let t = replace_all(t1.as_str(), "</strong>", "");
    let p = remove_spans(t.as_str(), "<pfp>", "</pfp>");
    let m = remove_spans(p.as_str(), "<media>", "</media>");
    if contains_str(m.as_str(), "[DUMMY_DATA]:") {
        None
    } else {
        Some(m)
    }
}

/// The payloads carried by a fetched body from `from` on: for each
/// begin marker with an end marker after it, the text between the two,
/// trimmed; the scan resumes after the end marker.
pub open spec fn extract_payloads_from(s: Seq<char>, from: int) -> Seq<Seq<char>>
    decreases s.len() - from,
{
    let b = find_from(s, "-----BEGIN ENCRYPTED MESSAGE-----"@, from);
    if b < 0 {
        Seq::empty()
    } else {
        let ps = b + "-----BEGIN ENCRYPTED MESSAGE-----"@.len();
        let e = find_from(s, "-----END ENCRYPTED MESSAGE-----"@, ps);
        if e < 0 {
            Seq::empty()
        } else if from <= b && ps <= e && e + "-----END ENCRYPTED MESSAGE-----"@.len() <= s.len()
            && "-----END ENCRYPTED MESSAGE-----"@.len() > 0 {
            seq![trim_spec(s.subrange(ps, e))] + extract_payloads_from(
                s,
                e + "-----END ENCRYPTED MESSAGE-----"@.len(),
            )
        } else {
            Seq::empty()
        }
    }
}

/// Extracts every marker-wrapped payload from a fetched body, in order,
/// each trimmed of surrounding whitespace.
pub fn extract_payloads(body: &str) -> (r: Vec<String>)
    ensures
        seq_views(r@) == extract_payloads_from(body@, 0),
{
    let n: usize = body.unicode_len();
    proof {
        reveal_strlit("-----BEGIN ENCRYPTED MESSAGE-----");
        reveal_strlit("-----END ENCRYPTED MESSAGE-----");
    }
    let blen: usize = "-----BEGIN ENCRYPTED MESSAGE-----".unicode_len();
    let elen: usize = "-----END ENCRYPTED MESSAGE-----".unicode_len();
    let mut out: Vec<String> = Vec::new();
    let mut from: usize = 0;
    loop
        invariant
            n == body@.len(),
            blen == "-----BEGIN ENCRYPTED MESSAGE-----"@.len(),
            elen == "-----END ENCRYPTED MESSAGE-----"@.len(),
            blen > 0,
            elen > 0,
            from <= n,
            extract_payloads_from(body@, 0) == seq_views(out@) + extract_payloads_from(
                body@,
                from as int,
            ),
        decreases n - from,
    {
        let ob = match find_str(body, "-----BEGIN ENCRYPTED MESSAGE-----", from) {
            Some(b) => b,
            None => {
                proof {
                    assert(seq_views(out@) =~= extract_payloads_from(body@, 0));
                }
                return out;
            },
        };
        proof {
            lemma_find_from_props(body@, "-----BEGIN ENCRYPTED MESSAGE-----"@, from as int);
        }
        let ps = ob + blen;
        let oe = match find_str(body, "-----END ENCRYPTED MESSAGE-----", ps) {
            Some(e) => e,
            None => {
                proof {
                    assert(seq_views(out@) =~= extract_payloads_from(body@, 0));
                }
                return out;
            },
        };
        proof {
            lemma_find_from_props(body@, "-----END ENCRYPTED MESSAGE-----"@, ps as int);
        }
        let payload = String::from_str(trim_str(body.substring_char(ps, oe)));
        out.push(payload);
        proof {
            assert(seq_views(out@) =~= seq_views(out@.drop_last()).push(
                trim_spec(body@.subrange(ps as int, oe as int)),
            ));
        }
        from = oe + elen;
    }
}

/// An outgoing payload wrapped in the begin and end markers.
pub open spec fn wrap_payload_spec(enc: Seq<char>) -> Seq<char> {
    "-----BEGIN ENCRYPTED MESSAGE-----"@ + enc + "-----END ENCRYPTED MESSAGE-----"@
}

/// Wraps an encrypted payload in the markers the room service expects.
pub fn wrap_payload(enc: &str) -> (r: String)
    ensures
        r@ == wrap_payload_spec(enc@),
{
    concat3("-----BEGIN ENCRYPTED MESSAGE-----", enc, "-----END ENCRYPTED MESSAGE-----")
}

} // verus!
