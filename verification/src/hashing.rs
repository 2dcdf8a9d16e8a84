//! BLAKE3 hashes of file contents, and their writing in hexadecimal.

use crate::text::digit_char;
use vstd::prelude::*;

verus! {

/// The length of a hash in bytes.
pub const OUT_LEN: usize = 32;

/// `blake3::Hasher`, carried as it is.
#[verifier::external_type_specification]
#[verifier::external_body]
pub struct ExHasher(blake3::Hasher);

/// `hex::FromHexError`, carried as it is.
#[verifier::external_type_specification]
#[verifier::external_body]
pub struct ExFromHexError(hex::FromHexError);

/// The bytes that a hasher was fed, in order.
pub uninterp spec fn hasher_input(hasher: blake3::Hasher) -> Seq<u8>;

/// The offset in chunks at which a hasher counts its input; zero unless set
/// through the hazardous-materials interface, which nothing here touches.
pub uninterp spec fn hasher_input_offset(hasher: blake3::Hasher) -> nat;

/// Whether a hasher is one for the regular hash function: made without a
/// key and without a context to derive a key from.
pub uninterp spec fn hasher_regular(hasher: blake3::Hasher) -> bool;

/// The BLAKE3 hash of `input` by the regular hash function, thirty-two bytes
/// long.
pub uninterp spec fn blake3_hash(input: Seq<u8>) -> Seq<u8>;

/// `blake3::Hasher::new`: a hasher for the regular hash function that was fed
/// nothing yet.
#[verifier::external_body]
pub(crate) fn hasher_new() -> (hasher: blake3::Hasher)
    ensures
        hasher_input(hasher) == Seq::<u8>::empty(),
        hasher_input_offset(hasher) == 0,
        hasher_regular(hasher),
{
    blake3::Hasher::new()
}

/// `blake3::Hasher::update`: the hasher is fed `input` after what it was fed
/// before. On a hasher with an input offset the call panics where the input
/// goes beyond the offset's subtree, so such a hasher is left out.
#[verifier::external_body]
pub(crate) fn hasher_update(hasher: &mut blake3::Hasher, input: &[u8])
    requires
        hasher_input_offset(*old(hasher)) == 0,
    ensures
        hasher_input(*final(hasher)) == hasher_input(*old(hasher)) + input@,
        hasher_input_offset(*final(hasher)) == hasher_input_offset(*old(hasher)),
        hasher_regular(*final(hasher)) == hasher_regular(*old(hasher)),
{
    hasher.update(input);
}

/// `blake3::Hasher::finalize`: the hash of all that the hasher was fed. The
/// hasher itself is left as it was. The call panics on a hasher with an input
/// offset, and a hasher with a key gives another hash of the same bytes, so
/// both are left out.
#[verifier::external_body]
pub(crate) fn hasher_finalize(hasher: &blake3::Hasher) -> (hash: [u8; 32])
    requires
        hasher_input_offset(*hasher) == 0,
        hasher_regular(*hasher),
    ensures
        hash@ == blake3_hash(hasher_input(*hasher)),
{
    *hasher.finalize().as_bytes()
}

/// The value of a hexadecimal digit of either case.
pub open spec fn hex_value(c: char) -> Option<nat> {
    if '0' <= c && c <= '9' {
        Some((c as int - '0' as int) as nat)
    } else if 'a' <= c && c <= 'f' {
        Some((c as int - 'a' as int + 10) as nat)
    } else if 'A' <= c && c <= 'F' {
        Some((c as int - 'A' as int + 10) as nat)
    } else {
        None
    }
}

/// `s` writes whole bytes in hexadecimal: an even number of digits.
pub open spec fn is_hex(s: Seq<char>) -> bool {
    s.len() % 2 == 0 && forall|i: int| 0 <= i < s.len() ==> hex_value(#[trigger] s[i]) is Some
}

/// The bytes that `s` writes, two digits each, the high one first.
pub open spec fn hex_decode(s: Seq<char>) -> Seq<u8> {
    Seq::new(
        s.len() / 2,
        |i: int| (hex_value(s[2 * i])->0 * 16 + hex_value(s[2 * i + 1])->0) as u8,
    )
}

/// The bytes `b` in lower-case hexadecimal, two digits each.
pub open spec fn hex_encode(b: Seq<u8>) -> Seq<char> {
    Seq::new(
        2 * b.len(),
        |i: int|
            digit_char(
                if i % 2 == 0 {
                    (b[i / 2] / 16) as nat
                } else {
                    (b[i / 2] % 16) as nat
                },
            ),
    )
}

/// Reading back what was written in hexadecimal gives the bytes.
pub proof fn lemma_hex_round_trip(b: Seq<u8>)
    ensures
        is_hex(hex_encode(b)),
        hex_decode(hex_encode(b)) == b,
{
    let s = hex_encode(b);
    assert forall|i: int| 0 <= i < s.len() implies hex_value(#[trigger] s[i]) is Some by {
        let d: nat = if i % 2 == 0 {
            (b[i / 2] / 16) as nat
        } else {
            (b[i / 2] % 16) as nat
        };
        assert(d < 16);
        assert(s[i] == digit_char(d));
    }
    assert forall|i: int| 0 <= i < b.len() implies #[trigger] hex_decode(s)[i] == b[i] by {
        let hi: nat = (b[i] / 16) as nat;
        let lo: nat = (b[i] % 16) as nat;
        assert(s[2 * i] == digit_char(hi));
        assert(s[2 * i + 1] == digit_char(lo));
        assert(hex_value(digit_char(hi)) == Some(hi));
        assert(hex_value(digit_char(lo)) == Some(lo));
    }
    assert(hex_decode(s) =~= b);
}

/// `hex::decode`: the bytes that a text writes in hexadecimal digits of
/// either case; an error where the text has an odd length or holds anything
/// but such digits.
#[verifier::external_body]
pub(crate) fn hex_decode_text(data: &str) -> (bytes: Result<Vec<u8>, hex::FromHexError>)
    ensures
        match bytes {
            Ok(b) => is_hex(data@) && b@ == hex_decode(data@),
            Err(_) => !is_hex(data@),
        },
{
    hex::decode(data)
}

/// `blake3::Hash::to_hex`: a hash in lower-case hexadecimal.
#[verifier::external_body]
pub(crate) fn hash_to_hex(hash: &[u8; 32]) -> (text: String)
    ensures
        text@ == hex_encode(hash@),
{
    blake3::Hash::from_bytes(*hash).to_hex().to_string()
}

} // verus!
