//! Colors in 0xAARRGGBB form.

use vstd::prelude::*;

verus! {

/// Named colors.
pub struct Color;

impl Color {
    pub const BLACK: u32 = 0x00000000;
    pub const WHITE: u32 = 0xFFFFFFFF;
    pub const RED: u32 = 0x00FF0000;
    pub const GREEN: u32 = 0x0000FF00;
    pub const BLUE: u32 = 0x000000FF;
    pub const YELLOW: u32 = 0x00FFFF00;
    pub const MAGENTA: u32 = 0x00FF00FF;
    pub const CYAN: u32 = 0x0000FFFF;
}

/// One channel of a blend: `fg` weighted by `factor` and `bg` by `255 - factor`,
/// over 255.
pub open spec fn blend_channel(fg: u32, bg: u32, factor: u32) -> u32 {
    ((fg * factor + bg * (255 - factor)) / 255) as u32
}

/// Mixes `foreground` over `background`: each of the red, green and blue channels is
/// `(fg * f + bg * (255 - f)) / 255` for the blend factor `f`; the alpha channel of
/// the result is clear.
pub fn blend_colors(foreground: u32, background: u32, blend_factor: u8) -> (c: u32)
    ensures
        c == (blend_channel((foreground >> 16) & 0xFF, (background >> 16) & 0xFF, blend_factor as u32) << 16)
            | (blend_channel((foreground >> 8) & 0xFF, (background >> 8) & 0xFF, blend_factor as u32) << 8)
            | blend_channel(foreground & 0xFF, background & 0xFF, blend_factor as u32),
        (c >> 24) == 0,
{
    let fg_ratio = blend_factor as u32;
    let bg_ratio = 255 - fg_ratio;
    let fr = (foreground >> 16) & 0xFF;
    let br = (background >> 16) & 0xFF;
    let fgc = (foreground >> 8) & 0xFF;
    let bgc = (background >> 8) & 0xFF;
    let fb = foreground & 0xFF;
    let bb = background & 0xFF;
    assert(fr <= 0xFF && br <= 0xFF && fgc <= 0xFF && bgc <= 0xFF && fb <= 0xFF && bb <= 0xFF) by (bit_vector)
        requires
            fr == (foreground >> 16) & 0xFF,
            br == (background >> 16) & 0xFF,
            fgc == (foreground >> 8) & 0xFF,
            bgc == (background >> 8) & 0xFF,
            fb == foreground & 0xFF,
            bb == background & 0xFF,
    ;
    proof {
        lemma_blend_bound(fr, br, fg_ratio);
        lemma_blend_bound(fgc, bgc, fg_ratio);
        lemma_blend_bound(fb, bb, fg_ratio);
    }
    let r = (fr * fg_ratio + br * bg_ratio) / 255;
    let g = (fgc * fg_ratio + bgc * bg_ratio) / 255;
    let b = (fb * fg_ratio + bb * bg_ratio) / 255;
    assert(((r << 16) | (g << 8) | b) >> 24 == 0) by (bit_vector)
        requires
            r <= 255,
            g <= 255,
            b <= 255,
    ;
    (r << 16) | (g << 8) | b
}

proof fn lemma_blend_bound(f: u32, b: u32, factor: u32)
    requires
        f <= 255,
        b <= 255,
        factor <= 255,
    ensures
        f * factor + b * (255 - factor) <= 255 * 255,
        (f * factor + b * (255 - factor)) / 255 <= 255,
{
    assert(f * factor + b * (255 - factor) <= 255 * 255) by (nonlinear_arith)
        requires
            f <= 255,
            b <= 255,
            factor <= 255,
    ;
}

/// Blending with the full factor gives the foreground, and with factor zero the
/// background, each without its alpha channel.
pub proof fn lemma_blend_extremes(foreground: u32, background: u32)
    ensures
        (blend_channel((foreground >> 16) & 0xFF, (background >> 16) & 0xFF, 255) << 16)
            | (blend_channel((foreground >> 8) & 0xFF, (background >> 8) & 0xFF, 255) << 8)
            | blend_channel(foreground & 0xFF, background & 0xFF, 255) == foreground & 0xFF_FFFF,
        (blend_channel((foreground >> 16) & 0xFF, (background >> 16) & 0xFF, 0) << 16)
            | (blend_channel((foreground >> 8) & 0xFF, (background >> 8) & 0xFF, 0) << 8)
            | blend_channel(foreground & 0xFF, background & 0xFF, 0) == background & 0xFF_FFFF,
{
    let f2 = (foreground >> 16) & 0xFF;
    let f1 = (foreground >> 8) & 0xFF;
    let f0 = foreground & 0xFF;
    let b2 = (background >> 16) & 0xFF;
    let b1 = (background >> 8) & 0xFF;
    let b0 = background & 0xFF;
    assert(f2 <= 0xFF && f1 <= 0xFF && f0 <= 0xFF && b2 <= 0xFF && b1 <= 0xFF && b0 <= 0xFF) by (bit_vector)
        requires
            f2 == (foreground >> 16) & 0xFF,
            f1 == (foreground >> 8) & 0xFF,
            f0 == foreground & 0xFF,
            b2 == (background >> 16) & 0xFF,
            b1 == (background >> 8) & 0xFF,
            b0 == background & 0xFF,
    ;
    assert(blend_channel(f2, b2, 255) == f2 && blend_channel(f1, b1, 255) == f1 && blend_channel(f0, b0, 255) == f0);
    assert(blend_channel(f2, b2, 0) == b2 && blend_channel(f1, b1, 0) == b1 && blend_channel(f0, b0, 0) == b0);
    assert((f2 << 16) | (f1 << 8) | f0 == foreground & 0xFF_FFFF) by (bit_vector)
        requires
            f2 == (foreground >> 16) & 0xFF,
            f1 == (foreground >> 8) & 0xFF,
            f0 == foreground & 0xFF,
    ;
    assert((b2 << 16) | (b1 << 8) | b0 == background & 0xFF_FFFF) by (bit_vector)
        requires
            b2 == (background >> 16) & 0xFF,
            b1 == (background >> 8) & 0xFF,
            b0 == background & 0xFF,
    ;
}

} // verus!
