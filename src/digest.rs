//! Content digests: BLAKE2b-512, rendered as lowercase hexadecimal.
use vstd::prelude::*;

verus! {

/// The BLAKE2b digest, with default parameters (64 bytes), of `data`.
pub uninterp spec fn blake2b_512(data: Seq<u8>) -> Seq<u8>;

pub open spec fn hex_digit(v: u8) -> char {
    if v < 10 {
        (v + 48) as char
    } else {
        (v + 87) as char
    }
}

/// Two lowercase hexadecimal digits per byte, high nibble first.
pub open spec fn lower_hex(b: Seq<u8>) -> Seq<char>
    decreases b.len(),
{
    if b.len() == 0 {
        Seq::empty()
    } else {
        lower_hex(b.drop_last()) + seq![hex_digit(b.last() / 16), hex_digit(b.last() % 16)]
    }
}

/// Relies on `blake2b_simd::blake2b`, which hashes with the default parameters
/// (a 64-byte digest), and on `Hash::to_hex`, which writes two lowercase hex
/// digits per digest byte.
#[verifier::external_body]
fn blake2b_hex(data: &[u8]) -> (r: String)
    ensures
        r@ == lower_hex(blake2b_512(data@)),
        r@.len() == 128,
{
    blake2b_simd::blake2b(data).to_hex().to_string()
}

/// The stored form of the digest of `contents`.
pub fn calculate_hash(contents: &[u8]) -> (r: String)
    ensures
        r@ == lower_hex(blake2b_512(contents@)),
        r@.len() == 128,
{
    blake2b_hex(contents)
}

} // verus!
