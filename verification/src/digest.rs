//! Content digests of serialized values.
use vstd::prelude::*;

verus! {

/// The BLAKE3 hash of a byte string, as its 32 bytes.
pub uninterp spec fn blake3_of(bytes: Seq<u8>) -> Seq<u8>;

/// Lowercase hexadecimal digit of a value below sixteen.
pub open spec fn hex_digit(n: int) -> char {
    if n < 10 {
        ((n + 48) as u32) as char
    } else {
        ((n + 87) as u32) as char
    }
}

/// Lowercase hexadecimal text of a byte string: two digits per byte, the
/// high half first.
pub open spec fn hex_text(bytes: Seq<u8>) -> Seq<char> {
    Seq::new(
        bytes.len() * 2,
        |i: int|
            hex_digit(
                if i % 2 == 0 {
                    bytes[i / 2] / 16
                } else {
                    bytes[i / 2] % 16
                } as int,
            ),
    )
}

/// `blake3::hash(bytes).as_bytes()`: the 32 bytes of the BLAKE3 hash.
#[verifier::external_body]
pub(crate) fn blake3_digest(bytes: &[u8]) -> (d: [u8; 32])
    ensures
        d@ == blake3_of(bytes@),
{
    *blake3::hash(bytes).as_bytes()
}

/// `blake3::hash(bytes).to_hex()`, which the crate documents as the hash
/// encoded in lowercase hexadecimal.
#[verifier::external_body]
pub(crate) fn blake3_hex(bytes: &[u8]) -> (s: String)
    ensures
        s@ == hex_text(blake3_of(bytes@)),
{
    blake3::hash(bytes).to_hex().to_string()
}

} // verus!
