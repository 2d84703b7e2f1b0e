//! Content hashes: the 64-bit XXH3 digest of the bytes, written in lower-case
//! hexadecimal.

use vstd::prelude::*;
use crate::hex::{hex_numeral, hex_numeral_injective, hex_numeral_shape, is_hex_digit, to_hex_lower};
use vstd::string::StringSliceAdditionalSpecFns;
use vstd::utf8::encode_utf8;

verus! {

/// The 64-bit XXH3 digest (seed 0) of a byte sequence, as `twox_hash` computes it.
pub uninterp spec fn xxh3_64(data: Seq<u8>) -> u64;

/// Calls `twox_hash::xxh3::hash64`. The contract claims only that the digest is a
/// function of the bytes: the same bytes always give the same digest.
#[verifier::external_body]
fn xxh3_hash64(data: &[u8]) -> (h: u64)
    ensures
        h == xxh3_64(data@),
{
    twox_hash::xxh3::hash64(data)
}

/// The hash text of a byte sequence: its XXH3 digest in lower-case hexadecimal
/// without leading zeros.
pub open spec fn hash_text(data: Seq<u8>) -> Seq<char> {
    hex_numeral(xxh3_64(data) as nat)
}

/// Hashes the UTF-8 bytes of a string.
pub fn hash_str(input: &str) -> (r: String)
    ensures
        r@ == hash_text(encode_utf8(input@)),
{
    let bytes = input.as_bytes();
    let h = xxh3_hash64(bytes);
    to_hex_lower(h)
}

/// Hashes a byte slice.
pub fn hash_vec(input: &[u8]) -> (r: String)
    ensures
        r@ == hash_text(input@),
{
    let h = xxh3_hash64(input);
    to_hex_lower(h)
}

/// Hashing a string gives what hashing its UTF-8 bytes gives: the contract of
/// `hash_str` on `s` and that of `hash_vec` on `s.as_bytes()` name one text.
pub proof fn str_hash_is_bytes_hash(s: &str)
    ensures
        hash_text(encode_utf8(s@)) == hash_text(s.spec_bytes()),
{
}

/// Two byte sequences have the same hash text exactly when they have the same
/// digest: writing the digest in hexadecimal loses nothing.
pub proof fn hash_text_identifies_digest(a: Seq<u8>, b: Seq<u8>)
    ensures
        hash_text(a) == hash_text(b) <==> xxh3_64(a) == xxh3_64(b),
{
    if hash_text(a) == hash_text(b) {
        hex_numeral_injective(xxh3_64(a) as nat, xxh3_64(b) as nat);
    }
}

/// A hash text is 1 to 16 lower-case hexadecimal digits, with no leading zero
/// unless it is "0".
pub proof fn hash_text_shape(data: Seq<u8>)
    ensures
        1 <= hash_text(data).len() <= 16,
        forall|i: int| 0 <= i < hash_text(data).len() ==> is_hex_digit(#[trigger] hash_text(data)[i]),
        hash_text(data)[0] == '0' ==> hash_text(data) == seq!['0'],
{
    hex_numeral_shape(xxh3_64(data) as nat);
    if hash_text(data)[0] == '0' {
        assert(hash_text(data) =~= seq!['0']);
    }
}

} // verus!
