//! Room identifier generation: sixteen characters drawn from an
//! alphanumeric alphabet using operating-system entropy.
use vstd::prelude::*;
use vstd::string::StrSliceExecFns;
use vstd::string::StringExecFns;
use rand::RngCore;

verus! {

/// The alphabet a room identifier is drawn from.
pub open spec fn room_id_alphabet() -> Seq<char> {
    "ABCDEFGHIJKLMNOPQRSTUVWXYZabcdefghijklmnopqrstuvwxyz0123456789"@
}

/// Relies on rand's `OsRng` (`try_fill_bytes`): fills the buffer from the
/// operating system's entropy source; nothing is assumed of the values,
/// only that on success the buffer keeps its length.
#[verifier::external_body]
fn os_random_bytes(n: usize) -> (r: Option<Vec<u8>>)
    ensures
        match r {
            Some(v) => v@.len() == n,
            None => true,
        },
{
    let mut buf = vec![0u8; n];
    match rand::rngs::OsRng.try_fill_bytes(&mut buf) {
        Ok(()) => Some(buf),
        Err(_) => None,
    }
}

/// The little-endian 32-bit word drawn for character `i`: bytes
/// `4i .. 4i+4` of the entropy buffer.
pub open spec fn le_word(b: Seq<u8>, i: int) -> int {
    b[4 * i] + 256 * b[4 * i + 1] + 65536 * b[4 * i + 2] + 16777216 * b[4 * i + 3]
}

/// Maps sixty-four entropy bytes to the sixteen-character identifier:
/// character `i` is the alphabet entry selected by the `i`th
/// little-endian word, reduced modulo the alphabet size.
pub fn room_id_from_bytes(b: &Vec<u8>) -> (r: String)
    requires
        b@.len() == 64,
    ensures
        r@.len() == 16,
        forall|i: int|
            0 <= i < 16 ==> #[trigger] r@[i] == room_id_alphabet()[le_word(b@, i) % 62],
{
    let alphabet = "ABCDEFGHIJKLMNOPQRSTUVWXYZabcdefghijklmnopqrstuvwxyz0123456789";
    proof {
        reveal_strlit("ABCDEFGHIJKLMNOPQRSTUVWXYZabcdefghijklmnopqrstuvwxyz0123456789");
    }
    let mut out = String::new();
    let mut i: usize = 0;
    while i < 16
        invariant
            b@.len() == 64,
            i <= 16,
            out@.len() == i,
            alphabet@ == room_id_alphabet(),
            alphabet@.len() == 62,
            forall|k: int|
                0 <= k < i ==> #[trigger] out@[k] == room_id_alphabet()[le_word(b@, k) % 62],
        decreases 16 - i,
    {
        let w: u32 = (b[4 * i] as u32) + 256 * (b[4 * i + 1] as u32) + 65536 * (b[4 * i + 2]
            as u32) + 16777216 * (b[4 * i + 3] as u32);
        let idx: usize = (w % 62) as usize;
        let piece = alphabet.substring_char(idx, idx + 1);
        out.append(piece);
        proof {
            assert(w as int == le_word(b@, i as int));
            assert(out@[i as int] == room_id_alphabet()[le_word(b@, i as int) % 62]);
        }
        i = i + 1;
    }
    out
}

/// Draws a fresh sixteen-character room identifier: sixty-four bytes of
/// operating-system entropy, mapped by `room_id_from_bytes`; `None` only
/// when the entropy source fails. Whatever bytes come back, the
/// identifier has sixteen characters of the alphanumeric alphabet.
pub fn generate_random_room_id() -> (r: Option<String>)
    ensures
        match r {
            Some(id) => id@.len() == 16 && forall|i: int|
                0 <= i < 16 ==> room_id_alphabet().contains(#[trigger] id@[i]),
            None => true,
        },
{
    let b = match os_random_bytes(64) {
        Some(b) => b,
        None => { return None },
    };
    let id = room_id_from_bytes(&b);
    proof {
        reveal_strlit("ABCDEFGHIJKLMNOPQRSTUVWXYZabcdefghijklmnopqrstuvwxyz0123456789");
        assert forall|i: int| 0 <= i < 16 implies room_id_alphabet().contains(
            #[trigger] id@[i],
        ) by {
            assert(id@[i] == room_id_alphabet()[le_word(b@, i) % 62]);
        }
    }
    Some(id)
}

} // verus!
