//! RGBA colours with 8 bits per channel, and source-over alpha compositing.

use vstd::prelude::*;

verus! {

/// A colour with red, green, blue and alpha channels, one byte each.
/// Alpha 0 is fully transparent, 255 fully opaque.
#[derive(Clone, Copy, Debug, PartialEq, Eq, Structural)]
pub struct Rgba {
    pub r: u8,
    pub g: u8,
    pub b: u8,
    pub a: u8,
}

impl Rgba {
    /// The fully transparent colour, used as the default background.
    pub fn transparent() -> (c: Rgba)
        ensures
            c == (Rgba { r: 0, g: 0, b: 0, a: 0 }),
    {
        Rgba { r: 0, g: 0, b: 0, a: 0 }
    }
}

/// One colour channel of source-over compositing, on bytes:
/// `(s * sa + d * (255 - sa)) / 255`, the integer form of
/// `s * alpha + d * (1 - alpha)` with alpha scaled to 0..=255.
/// The division rounds down.
pub open spec fn blend_channel(s: u8, d: u8, sa: u8) -> int {
    ((s as int) * (sa as int) + (d as int) * (255 - sa as int)) / 255
}

/// The alpha channel of source-over compositing:
/// `sa + da * (255 - sa) / 255`, the integer form of
/// `sa + da * (1 - sa)` with alpha scaled to 0..=255.
pub open spec fn blend_alpha(sa: u8, da: u8) -> int {
    sa as int + ((da as int) * (255 - sa as int)) / 255
}

/// Source-over compositing of `src` onto `dst`: the colour a pixel shows
/// after a glyph pixel `src` is laid over a background pixel `dst`.
pub open spec fn blend(src: Rgba, dst: Rgba) -> Rgba {
    Rgba {
        r: blend_channel(src.r, dst.r, src.a) as u8,
        g: blend_channel(src.g, dst.g, src.a) as u8,
        b: blend_channel(src.b, dst.b, src.a) as u8,
        a: blend_alpha(src.a, dst.a) as u8,
    }
}

/// Each composited channel stays a byte: `blend_channel` and `blend_alpha`
/// land in 0..=255.
pub proof fn lemma_blend_in_range(src: Rgba, dst: Rgba)
    ensures
        0 <= blend_channel(src.r, dst.r, src.a) <= 255,
        0 <= blend_channel(src.g, dst.g, src.a) <= 255,
        0 <= blend_channel(src.b, dst.b, src.a) <= 255,
        0 <= blend_alpha(src.a, dst.a) <= 255,
{
    lemma_blend_channel_in_range(src.r, dst.r, src.a);
    lemma_blend_channel_in_range(src.g, dst.g, src.a);
    lemma_blend_channel_in_range(src.b, dst.b, src.a);
    assert(0 <= blend_alpha(src.a, dst.a) <= 255) by (nonlinear_arith);
}

/// A fully opaque source replaces the destination channel for channel;
/// a fully transparent source leaves it unchanged.
pub proof fn lemma_blend_extremes(src: Rgba, dst: Rgba)
    ensures
        src.a == 255 ==> blend(src, dst) == src,
        src.a == 0 ==> blend(src, dst) == dst,
{
    if src.a == 255 {
        assert(blend_channel(src.r, dst.r, 255) == src.r as int) by (nonlinear_arith);
        assert(blend_channel(src.g, dst.g, 255) == src.g as int) by (nonlinear_arith);
        assert(blend_channel(src.b, dst.b, 255) == src.b as int) by (nonlinear_arith);
        assert(blend_alpha(255, dst.a) == 255) by (nonlinear_arith);
    }
    if src.a == 0 {
        assert(blend_channel(src.r, dst.r, 0) == dst.r as int) by (nonlinear_arith);
        assert(blend_channel(src.g, dst.g, 0) == dst.g as int) by (nonlinear_arith);
        assert(blend_channel(src.b, dst.b, 0) == dst.b as int) by (nonlinear_arith);
        assert(blend_alpha(0, dst.a) == dst.a as int) by (nonlinear_arith);
    }
}

proof fn lemma_blend_channel_in_range(s: u8, d: u8, sa: u8)
    ensures
        0 <= blend_channel(s, d, sa) <= 255,
{
    assert(0 <= ((s as int) * (sa as int) + (d as int) * (255 - sa as int)) / 255 <= 255)
        by (nonlinear_arith)
        requires
            s <= 255,
            d <= 255,
            sa <= 255,
    ;
}

fn blend_channel_exec(s: u8, d: u8, sa: u8) -> (r: u8)
    ensures
        r as int == blend_channel(s, d, sa),
{
    proof {
        lemma_blend_channel_in_range(s, d, sa);
        assert((s as int) * (sa as int) <= 255 * 255) by (nonlinear_arith)
            requires
                s <= 255,
                sa <= 255,
        ;
        assert((d as int) * (255 - sa as int) <= 255 * 255) by (nonlinear_arith)
            requires
                d <= 255,
                sa <= 255,
        ;
    }
    let num: u32 = (s as u32) * (sa as u32) + (d as u32) * (255 - sa as u32);
    (num / 255) as u8
}

/// Source-over compositing of `src` onto `dst`, as [`blend`] states.
pub fn blend_pixel(src: Rgba, dst: Rgba) -> (r: Rgba)
    ensures
        r == blend(src, dst),
{
    proof {
        lemma_blend_in_range(src, dst);
        assert((dst.a as int) * (255 - src.a as int) <= 255 * 255) by (nonlinear_arith)
            requires
                dst.a <= 255,
                src.a <= 255,
        ;
    }
    let a: u32 = (src.a as u32) + ((dst.a as u32) * (255 - src.a as u32)) / 255;
    Rgba {
        r: blend_channel_exec(src.r, dst.r, src.a),
        g: blend_channel_exec(src.g, dst.g, src.a),
        b: blend_channel_exec(src.b, dst.b, src.a),
        a: a as u8,
    }
}

} // verus!
