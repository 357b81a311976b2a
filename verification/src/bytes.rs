//! Multi-byte integers as they arrive from the network (little endian) and from the inertial
//! sensor (big endian).
use vstd::prelude::*;

verus! {

/// The signed value of a 16-bit pattern in two's complement.
pub open spec fn signed16(pattern: int) -> int {
    if pattern < 0x8000 {
        pattern
    } else {
        pattern - 0x1_0000
    }
}

/// The big-endian 16-bit pattern of a high and a low byte.
pub open spec fn pattern16(h: u8, l: u8) -> int {
    h * 256 + l
}

/// The two bytes come back out of their pattern, the high one on top.
pub proof fn law_pattern_holds_bytes(h: u8, l: u8)
    ensures
        pattern16(h, l) / 256 == h,
        pattern16(h, l) % 256 == l,
{
}

/// The signed value of two bytes is the one number in the range of a signed word that differs from
/// the bytes, read as an unsigned number, by a multiple of two to the sixteenth. It is negative if
/// and only if the top bit of the high byte is set.
pub proof fn law_signed_word(h: u8, l: u8)
    ensures
        ({
            let value = signed16(pattern16(h, l));
            &&& -0x8000 <= value < 0x8000
            &&& (value - 256 * h - l) % 0x1_0000 == 0
            &&& value < 0 <==> h >= 0x80
        }),
{
}

/// Joins the high byte `h` and the low byte `l` of a sensor register pair into a signed word.
pub fn i16_be(h: u8, l: u8) -> (r: i16)
    ensures
        r as int == signed16(pattern16(h, l)),
{
    let r: i16 = ((h as i16) << 8) | l as i16;
    assert(r == if h < 128u8 {
        h * 256 + l
    } else {
        h * 256 + l - 65536
    }) by (bit_vector)
        requires
            r == ((h as i16) << 8) | l as i16,
    ;
    r
}

/// The unsigned word whose bytes arrive as `b0`, then `b1`.
pub fn u16_le(b0: u8, b1: u8) -> (r: u16)
    ensures
        r as int == pattern16(b1, b0),
{
    b1 as u16 * 256 + b0 as u16
}

/// The signed word whose bytes arrive as `b0`, then `b1`.
pub fn i16_le(b0: u8, b1: u8) -> (r: i16)
    ensures
        r as int == signed16(pattern16(b1, b0)),
{
    i16_be(b1, b0)
}

/// The 32-bit pattern whose bytes arrive in the order of the arguments.
pub fn u32_le(b0: u8, b1: u8, b2: u8, b3: u8) -> (r: u32)
    ensures
        r as int == b0 + 0x100 * b1 + 0x1_0000 * b2 + 0x100_0000 * b3,
{
    b0 as u32 + 0x100 * b1 as u32 + 0x1_0000 * b2 as u32 + 0x100_0000 * b3 as u32
}

} // verus!
