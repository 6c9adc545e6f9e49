//! Turning the words that the point cloud shader writes into image pixels.

use vstd::prelude::*;

verus! {

/// The RGBA8 pixel, red in the least significant byte, that shows one output
/// word of the point cloud shader. The word holds three 4-bit channels: red in
/// bits 0 to 3, green in bits 4 to 7, blue in bits 8 to 11. Each becomes the
/// high half of its 8-bit channel, and the pixel is fully opaque.
pub fn output_pixel(p: u32) -> (r: u32)
    ensures
        r & 0xffu32 == (p & 0xfu32) << 4u32,
        (r >> 8u32) & 0xffu32 == ((p >> 4u32) & 0xfu32) << 4u32,
        (r >> 16u32) & 0xffu32 == ((p >> 8u32) & 0xfu32) << 4u32,
        r >> 24u32 == 0xffu32,
{
    let r = 0xFF00_0000u32 | ((p & 0xF) << 4u32) | ((p & 0xF0) << 8u32) | ((p & 0xF00) << 12u32);
    assert(r & 0xffu32 == (p & 0xfu32) << 4u32 && (r >> 8u32) & 0xffu32 == ((p >> 4u32) & 0xfu32)
        << 4u32 && (r >> 16u32) & 0xffu32 == ((p >> 8u32) & 0xfu32) << 4u32 && r >> 24u32
        == 0xffu32) by (bit_vector)
        requires
            r == 0xFF00_0000u32 | ((p & 0xF) << 4u32) | ((p & 0xF0) << 8u32) | ((p & 0xF00)
                << 12u32),
    ;
    r
}

} // verus!
