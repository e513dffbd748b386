//! Packed 32-bit ARGB colour helpers: packing four 8-bit channels into
//! one word and extracting them again.

use vstd::prelude::*;

verus! {

/// The packed ARGB word for four 8-bit channels: alpha in the top byte,
/// then red, green and blue.
pub open spec fn spec_hex(a: u8, r: u8, g: u8, b: u8) -> u32 {
    ((a as u32) << 24) | ((r as u32) << 16) | ((g as u32) << 8) | (b as u32)
}

/// Packs four 8-bit channels into one 32-bit word, alpha in the top
/// byte, then red, green and blue.
pub fn u8_to_hex(a: u8, r: u8, g: u8, b: u8) -> (hex: u32)
    ensures
        hex == spec_hex(a, r, g, b),
{
    let (a, r, g, b) = (a as u32, r as u32, g as u32, b as u32);
    (a << 24) | (r << 16) | (g << 8) | b
}

/// Splits a packed 32-bit ARGB word back into its four 8-bit channels,
/// in (alpha, red, green, blue) order.
pub fn hex_channels(hex: u32) -> (c: (u8, u8, u8, u8))
    ensures
        c.0 == (hex >> 24) as u8,
        c.1 == (hex >> 16) as u8,
        c.2 == (hex >> 8) as u8,
        c.3 == hex as u8,
        spec_hex(c.0, c.1, c.2, c.3) == hex,
{
    let c = ((hex >> 24) as u8, (hex >> 16) as u8, (hex >> 8) as u8, hex as u8);
    proof {
        assert(((((hex >> 24) as u8) as u32) << 24) | ((((hex >> 16) as u8) as u32) << 16) | ((((
        hex >> 8) as u8) as u32) << 8) | ((hex as u8) as u32) == hex) by (bit_vector);
    }
    c
}

/// Unpacking a packed colour returns exactly the four channels that
/// were packed.
pub proof fn lemma_hex_round_trip(a: u8, r: u8, g: u8, b: u8)
    ensures
        (spec_hex(a, r, g, b) >> 24) as u8 == a,
        (spec_hex(a, r, g, b) >> 16) as u8 == r,
        (spec_hex(a, r, g, b) >> 8) as u8 == g,
        spec_hex(a, r, g, b) as u8 == b,
{
    let h = spec_hex(a, r, g, b);
    assert((((a as u32) << 24) | ((r as u32) << 16) | ((g as u32) << 8) | (b as u32)) >> 24 == a
        as u32) by (bit_vector);
    assert(((((a as u32) << 24) | ((r as u32) << 16) | ((g as u32) << 8) | (b as u32)) >> 16) as u8
        == r) by (bit_vector);
    assert(((((a as u32) << 24) | ((r as u32) << 16) | ((g as u32) << 8) | (b as u32)) >> 8) as u8
        == g) by (bit_vector);
    assert((((a as u32) << 24) | ((r as u32) << 16) | ((g as u32) << 8) | (b as u32)) as u8 == b)
        by (bit_vector);
}

} // verus!
