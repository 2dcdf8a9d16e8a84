//! A hash as the text that a digest file holds: sixty-four hexadecimal digits.

use crate::hashing::{
    hash_to_hex, hex_decode, hex_decode_text, hex_encode, is_hex, lemma_hex_round_trip,
};
use vstd::prelude::*;

verus! {

/// Why a text is no hash.
#[derive(Clone, Copy, Debug, PartialEq, Eq, Structural)]
pub enum HashTextError {
    /// The text is not made of pairs of hexadecimal digits.
    Hex,
    /// The text does not write thirty-two bytes.
    Length,
}

impl HashTextError {
    /// The error in words.
    pub fn message(&self) -> (text: &'static str)
        ensures
            text@ == match *self {
                HashTextError::Hex => "Failed to decode hex"@,
                HashTextError::Length => "Invalid length"@,
            },
    {
        match self {
            HashTextError::Hex => "Failed to decode hex",
            HashTextError::Length => "Invalid length",
        }
    }
}

/// The hash that `text` writes.
pub open spec fn hash_of_text(text: Seq<char>) -> Result<Seq<u8>, HashTextError> {
    if !is_hex(text) {
        Err(HashTextError::Hex)
    } else if text.len() != 64 {
        Err(HashTextError::Length)
    } else {
        Ok(hex_decode(text))
    }
}

/// The value of a result that holds a hash.
pub open spec fn hash_result_view(r: Result<[u8; 32], HashTextError>) -> Result<
    Seq<u8>,
    HashTextError,
> {
    match r {
        Ok(hash) => Ok(hash@),
        Err(e) => Err(e),
    }
}

/// The text of a hash: lower-case hexadecimal.
pub fn serialize(hash: &[u8; 32]) -> (text: String)
    ensures
        text@ == hex_encode(hash@),
{
    hash_to_hex(hash)
}

/// The hash that a text of hexadecimal digits, of either case, writes.
pub fn deserialize(text: &str) -> (hash: Result<[u8; 32], HashTextError>)
    ensures
        hash_result_view(hash) == hash_of_text(text@),
{
    match hex_decode_text(text) {
        Err(_) => Err(HashTextError::Hex),
        Ok(bytes) => to_hash(&bytes),
    }
}

/// The array of the thirty-two bytes of `bytes`.
pub fn to_hash(bytes: &Vec<u8>) -> (hash: Result<[u8; 32], HashTextError>)
    ensures
        match hash {
            Ok(h) => bytes@.len() == 32 && h@ == bytes@,
            Err(e) => bytes@.len() != 32 && e == HashTextError::Length,
        },
{
    if bytes.len() != 32 {
        return Err(HashTextError::Length);
    }
    let mut out: [u8; 32] = [0u8; 32];
    let mut i: usize = 0;
    while i < 32
        invariant
            i <= 32,
            bytes@.len() == 32,
            forall|j: int| 0 <= j < i ==> out@[j] == bytes@[j],
        decreases 32 - i,
    {
        out[i] = bytes[i];
        i = i + 1;
    }
    assert(out@ =~= bytes@);
    Ok(out)
}

/// A hash written and read back is the same hash.
pub proof fn lemma_hash_text_round_trip(hash: Seq<u8>)
    requires
        hash.len() == 32,
    ensures
        hash_of_text(hex_encode(hash)) == Ok::<Seq<u8>, HashTextError>(hash),
{
    lemma_hex_round_trip(hash);
}

} // verus!
