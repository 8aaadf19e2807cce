//! Content hashing: the BLAKE3 digest of a byte string, in lower-case hex.

use vstd::prelude::*;
use crate::text::push_char;

verus! {

/// The 32-byte BLAKE3 digest of `input`, as computed by the `blake3` crate.
pub uninterp spec fn blake3_digest(input: Seq<u8>) -> Seq<u8>;

/// Calls `blake3::hash` and copies out the digest's bytes (`Hash::as_bytes`).
/// Trusted: the bytes are the BLAKE3 digest of `input` (named `blake3_digest`),
/// and there are 32 of them, the size of the array inside `blake3::Hash`.
#[verifier::external_body]
fn blake3_hash_bytes(input: &[u8]) -> (digest: Vec<u8>)
    ensures
        digest@ == blake3_digest(input@),
        digest@.len() == 32,
{
    blake3::hash(input).as_bytes().to_vec()
}

/// The lower-case hex digit for a value below 16.
pub open spec fn hex_digit(n: int) -> char {
    if n < 10 {
        (48 + n) as char
    } else {
        (87 + n) as char
    }
}

/// Lower-case hex encoding: two digits per byte, high nibble first.
pub open spec fn hex_lower(bytes: Seq<u8>) -> Seq<char> {
    Seq::new(
        2 * bytes.len(),
        |i: int|
            if i % 2 == 0 {
                hex_digit(bytes[i / 2] as int / 16)
            } else {
                hex_digit(bytes[i / 2] as int % 16)
            },
    )
}

fn hex_char(n: u8) -> (c: char)
    requires
        n < 16,
    ensures
        c == hex_digit(n as int),
{
    if n < 10 {
        (48u8 + n) as char
    } else {
        (87u8 + n) as char
    }
}

/// Lower-case hex encoding of a byte string.
pub fn to_hex_lower(bytes: &[u8]) -> (hex: String)
    requires
        bytes@.len() <= usize::MAX / 2,
    ensures
        hex@ == hex_lower(bytes@),
{
    let mut out = String::new();
    let mut i: usize = 0;
    while i < bytes.len()
        invariant
            i <= bytes@.len(),
            out@.len() == 2 * i,
            forall|j: int| 0 <= j < 2 * i ==> out@[j] == hex_lower(bytes@)[j],
        decreases bytes@.len() - i,
    {
        let b = bytes[i];
        push_char(&mut out, hex_char(b / 16));
        push_char(&mut out, hex_char(b % 16));
        assert((2 * i) / 2 == i as int && (2 * i + 1) / 2 == i as int && (2 * i) % 2 == 0
            && (2 * i + 1) % 2 == 1);
        i = i + 1;
    }
    assert(out@ =~= hex_lower(bytes@));
    out
}

/// BLAKE3 hash of `bytes` in lower-case hex (64 characters).
pub fn hex_hash(bytes: &[u8]) -> (hex: String)
    ensures
        hex@ == hex_lower(blake3_digest(bytes@)),
        hex@.len() == 64,
{
    let digest = blake3_hash_bytes(bytes);
    to_hex_lower(digest.as_slice())
}

/// A lower-case hexadecimal digit.
pub open spec fn is_hex_digit(c: char) -> bool {
    ('0' <= c && c <= '9') || ('a' <= c && c <= 'f')
}

/// Law: a content hash is 64 lower-case hexadecimal digits, and equal contents
/// have equal hashes.
pub proof fn lemma_hash_shape(bytes: Seq<u8>, digest: Seq<u8>)
    requires
        digest == blake3_digest(bytes),
        digest.len() == 32,
    ensures
        hex_lower(digest).len() == 64,
        forall|i: int| 0 <= i < 64 ==> is_hex_digit(#[trigger] hex_lower(digest)[i]),
{
    assert forall|i: int| 0 <= i < 64 implies is_hex_digit(#[trigger] hex_lower(digest)[i]) by {
        let b = digest[i / 2] as int;
        assert(0 <= b / 16 < 16);
        assert(0 <= b % 16 < 16);
    }
}

} // verus!
