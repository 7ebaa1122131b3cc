use vstd::bytes::{
    lemma_auto_spec_u32_to_from_le_bytes, spec_u32_from_le_bytes, spec_u32_to_le_bytes,
    u32_from_le_bytes, u32_to_le_bytes,
};
use vstd::prelude::*;

verus! {

/// Bytes in the stream header: width, height and scale, four bytes each.
pub const HEADER_LEN: usize = 12;

/// Bytes in one entity record: x and y, four bytes each, then the
/// movement-blocking byte, the vision-blocking byte and the tile-type byte.
pub const RECORD_LEN: usize = 11;

/// The four little-endian bytes of a signed 32-bit integer: the bytes of its
/// two's-complement 32-bit image.
pub open spec fn spec_i32_to_le_bytes(x: i32) -> Seq<u8> {
    spec_u32_to_le_bytes(x as u32)
}

/// The signed 32-bit integer read from four little-endian bytes.
pub open spec fn spec_i32_from_le_bytes(s: Seq<u8>) -> i32
    recommends
        s.len() == 4,
{
    spec_u32_from_le_bytes(s) as i32
}

/// An encoded integer is four bytes long, and decoding those four bytes
/// gives the integer back.
pub proof fn lemma_i32_to_from_le_bytes(x: i32)
    ensures
        spec_i32_to_le_bytes(x).len() == 4,
        spec_i32_from_le_bytes(spec_i32_to_le_bytes(x)) == x,
{
    lemma_auto_spec_u32_to_from_le_bytes();
    let u = x as u32;
    assert(spec_u32_to_le_bytes(u).len() == 4);
    assert(spec_u32_from_le_bytes(spec_u32_to_le_bytes(u)) == u);
    assert(x as u32 as i32 == x) by (bit_vector);
}

/// Read a signed 32-bit integer from four little-endian bytes.
pub fn i32_from_le_bytes(s: &[u8]) -> (x: i32)
    requires
        s@.len() == 4,
    ensures
        x == spec_i32_from_le_bytes(s@),
{
    let u = u32_from_le_bytes(s);
    #[verifier::truncate] (u as i32)
}

/// Write a signed 32-bit integer as four little-endian bytes.
pub fn i32_to_le_bytes(x: i32) -> (s: Vec<u8>)
    ensures
        s@ == spec_i32_to_le_bytes(x),
        s@.len() == 4,
{
    let u = #[verifier::truncate] (x as u32);
    let s = u32_to_le_bytes(u);
    proof {
        lemma_auto_spec_u32_to_from_le_bytes();
    }
    s
}

/// The wire byte of a boolean: 1 for true, 0 for false.
pub open spec fn spec_bool_to_byte(b: bool) -> u8 {
    if b {
        1
    } else {
        0
    }
}

/// The boolean a wire byte decodes to: any non-zero byte counts as true.
pub open spec fn spec_byte_to_bool(b: u8) -> bool {
    b != 0
}

/// Encode a boolean as its wire byte.
pub fn bool_to_byte(b: bool) -> (r: u8)
    ensures
        r == spec_bool_to_byte(b),
{
    if b {
        1
    } else {
        0
    }
}

/// Decode a boolean from a wire byte.
pub fn byte_to_bool(b: u8) -> (r: bool)
    ensures
        r == spec_byte_to_bool(b),
{
    b != 0
}

/// Decoding a boolean byte inverts encoding.
pub proof fn lemma_bool_round_trip(b: bool)
    ensures
        spec_byte_to_bool(spec_bool_to_byte(b)) == b,
{
}

} // verus!
