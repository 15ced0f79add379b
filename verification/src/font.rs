//! Monospace text: glyph lookup in the 6x10 and 8x13 built-in fonts of the
//! embedded-graphics crate, and rasterization of glyph runs into pixel
//! requests.
//!
//! Both fonts store their glyphs in one bitmap atlas, sixteen glyphs per row,
//! and share one character mapping: the characters `0x20..=0x7F` in order,
//! with everything else replaced by the question-mark glyph. The atlas
//! bitmaps themselves are named by the uninterpreted functions
//! [`font6x10_atlas`] and [`font8x13_atlas`] and read through trusted
//! wrappers; which atlas cell a character selects is computed and verified
//! here.

use vstd::prelude::*;

use embedded_graphics::image::GetPixel;

use crate::canvas::contains_point;
use crate::canvas::lemma_contains_concat;
use crate::canvas::lemma_contains_push;
use crate::canvas::uniform_on;
use crate::canvas::Pixel;

verus! {

/// The two built-in monospace fonts the driver can render.
#[derive(Clone, Copy, Debug, PartialEq, Eq, Structural)]
pub enum Font {
    /// 6 by 10 pixel glyphs.
    Small,
    /// 8 by 13 pixel glyphs.
    Medium,
}

/// Glyph width of a font, in pixels.
pub open spec fn glyph_width(f: Font) -> int {
    match f {
        Font::Small => 6,
        Font::Medium => 8,
    }
}

/// Glyph height of a font, in pixels.
pub open spec fn glyph_height(f: Font) -> int {
    match f {
        Font::Small => 10,
        Font::Medium => 13,
    }
}

/// Pixel (`x`, `y`) of the 6x10 font's glyph atlas, as stored in the
/// embedded-graphics font data.
pub uninterp spec fn font6x10_atlas(x: int, y: int) -> bool;

/// Pixel (`x`, `y`) of the 8x13 font's glyph atlas, as stored in the
/// embedded-graphics font data.
pub uninterp spec fn font8x13_atlas(x: int, y: int) -> bool;

/// The glyph index of `c` in the fonts' shared mapping: characters
/// `0x20..=0x7F` in order, anything else replaced by glyph 31, the question
/// mark.
pub open spec fn glyph_index(c: char) -> int {
    if 0x20 <= c as int <= 0x7f {
        c as int - 0x20
    } else {
        31
    }
}

/// Whether pixel (`gx`, `gy`) of the glyph for `c` is lit in font `f`: both
/// atlases hold sixteen glyphs per row.
pub open spec fn glyph_on(f: Font, c: char, gx: int, gy: int) -> bool {
    let col = glyph_index(c) % 16;
    let row = glyph_index(c) / 16;
    match f {
        Font::Small => font6x10_atlas(col * 6 + gx, row * 10 + gy),
        Font::Medium => font8x13_atlas(col * 8 + gx, row * 13 + gy),
    }
}

/// Relies on embedded-graphics' `GetPixel` implementation for `ImageRaw`:
/// one pixel of the `FONT_6X10` glyph atlas, a function of the coordinates
/// and the font data alone.
#[verifier::external_body]
fn atlas_pixel_small(x: i32, y: i32) -> (r: bool)
    ensures
        r == font6x10_atlas(x as int, y as int),
{
    let p = embedded_graphics::mono_font::ascii::FONT_6X10.image.pixel(
        embedded_graphics::geometry::Point::new(x, y),
    );
    match p {
        Some(embedded_graphics::pixelcolor::BinaryColor::On) => true,
        _ => false,
    }
}

/// Relies on embedded-graphics' `GetPixel` implementation for `ImageRaw`:
/// one pixel of the `FONT_8X13` glyph atlas, a function of the coordinates
/// and the font data alone.
#[verifier::external_body]
fn atlas_pixel_medium(x: i32, y: i32) -> (r: bool)
    ensures
        r == font8x13_atlas(x as int, y as int),
{
    let p = embedded_graphics::mono_font::ascii::FONT_8X13.image.pixel(
        embedded_graphics::geometry::Point::new(x, y),
    );
    match p {
        Some(embedded_graphics::pixelcolor::BinaryColor::On) => true,
        _ => false,
    }
}

impl Font {
    /// Glyph width of the font, in pixels.
    pub fn width(self) -> (r: u8)
        ensures
            r as int == glyph_width(self),
    {
        match self {
            Font::Small => 6,
            Font::Medium => 8,
        }
    }

    /// Glyph height of the font, in pixels.
    pub fn height(self) -> (r: u8)
        ensures
            r as int == glyph_height(self),
    {
        match self {
            Font::Small => 10,
            Font::Medium => 13,
        }
    }
}

/// The glyph index of `c` in the fonts' shared character mapping.
pub fn glyph_index_of(c: char) -> (r: u32)
    ensures
        r as int == glyph_index(c),
        r < 96,
{
    let code = c as u32;
    if 0x20 <= code && code <= 0x7f {
        code - 0x20
    } else {
        31
    }
}

/// Whether pixel (`gx`, `gy`) of the glyph for `c` is lit in font `f`.
pub fn glyph_pixel(f: Font, c: char, gx: u32, gy: u32) -> (r: bool)
    requires
        gx < glyph_width(f),
        gy < glyph_height(f),
    ensures
        r == glyph_on(f, c, gx as int, gy as int),
{
    let i = glyph_index_of(c);
    let col = i % 16;
    let row = i / 16;
    match f {
        Font::Small => atlas_pixel_small((col * 6 + gx) as i32, (row * 10 + gy) as i32),
        Font::Medium => atlas_pixel_medium((col * 8 + gx) as i32, (row * 13 + gy) as i32),
    }
}

/// Whether the glyph for `c`, drawn with its top-left corner at (`cx`, `cy`)
/// in font `f`, has a lit pixel at (`i`, `j`).
pub open spec fn glyph_hits(f: Font, c: char, cx: int, cy: int, i: int, j: int) -> bool {
    cx <= i < cx + glyph_width(f) && cy <= j < cy + glyph_height(f) && glyph_on(
        f,
        c,
        i - cx,
        j - cy,
    )
}

/// Whether some of the first `n` glyphs of `text`, laid out left to right
/// from (`x`, `y`) in font `f`, has a lit pixel at (`i`, `j`).
pub open spec fn text_hits_upto(
    f: Font,
    text: Seq<char>,
    x: int,
    y: int,
    n: int,
    i: int,
    j: int,
) -> bool {
    exists|k: int|
        0 <= k < n && k < text.len() && glyph_hits(f, text[k], x + k * glyph_width(f), y, i, j)
}

/// Whether some glyph of `text`, laid out left to right from (`x`, `y`) in
/// font `f`, has a lit pixel at (`i`, `j`).
pub open spec fn text_hits(f: Font, text: Seq<char>, x: int, y: int, i: int, j: int) -> bool {
    text_hits_upto(f, text, x, y, text.len() as int, i, j)
}

/// The pixel requests for the lit pixels of one glyph, all set to `on`, with
/// the glyph's top-left corner at (`cx`, `cy`): they name exactly the
/// coordinates the glyph hits.
fn glyph_run_pixels(f: Font, c: char, cx: i32, cy: i32, on: bool) -> (r: Vec<Pixel>)
    requires
        cx + glyph_width(f) <= i32::MAX,
        cy + glyph_height(f) <= i32::MAX,
    ensures
        uniform_on(r@, on),
        forall|i: int, j: int|
            #[trigger] contains_point(r@, i, j) == glyph_hits(f, c, cx as int, cy as int, i, j),
{
    let w = f.width() as u32;
    let h = f.height() as u32;
    let mut v: Vec<Pixel> = Vec::new();
    proof {
        assert(forall|i: int, j: int| !#[trigger] contains_point(v@, i, j));
    }
    let mut gy: u32 = 0;
    while gy < h
        invariant
            gy <= h,
            w == glyph_width(f),
            h == glyph_height(f),
            cx + glyph_width(f) <= i32::MAX,
            cy + glyph_height(f) <= i32::MAX,
            uniform_on(v@, on),
            forall|i: int, j: int|
                #[trigger] contains_point(v@, i, j) == (cx <= i < cx + w && cy <= j < cy + gy
                    && glyph_on(f, c, i - cx, j - cy)),
        decreases h - gy,
    {
        let mut gx: u32 = 0;
        while gx < w
            invariant
                gy < h,
                gx <= w,
                w == glyph_width(f),
                h == glyph_height(f),
                cx + glyph_width(f) <= i32::MAX,
                cy + glyph_height(f) <= i32::MAX,
                uniform_on(v@, on),
                forall|i: int, j: int|
                    #[trigger] contains_point(v@, i, j) == ((cx <= i < cx + w && cy <= j < cy + gy
                        && glyph_on(f, c, i - cx, j - cy)) || (j == cy + gy && cx <= i < cx + gx
                        && glyph_on(f, c, i - cx, j - cy))),
            decreases w - gx,
        {
            if glyph_pixel(f, c, gx, gy) {
                let p = Pixel { x: cx + gx as i32, y: cy + gy as i32, on };
                let ghost before = v@;
                v.push(p);
                proof {
                    assert forall|i: int, j: int| #[trigger]
                        contains_point(v@, i, j) == ((cx <= i < cx + w && cy <= j < cy + gy
                            && glyph_on(f, c, i - cx, j - cy)) || (j == cy + gy && cx <= i < cx + gx
                            + 1 && glyph_on(f, c, i - cx, j - cy))) by {
                        lemma_contains_push(before, p, i, j);
                    }
                }
            }
            gx = gx + 1;
        }
        gy = gy + 1;
    }
    v
}

/// The pixel requests for the lit pixels of `text`, laid out left to right
/// from (`x`, `y`) in font `f`, all set to `on`: they name exactly the
/// coordinates the text hits.
pub fn text_pixels(f: Font, text: &str, x: i32, y: i32, on: bool) -> (r: Vec<Pixel>)
    requires
        text@.len() * glyph_width(f) <= i32::MAX,
        x + text@.len() * glyph_width(f) <= i32::MAX,
        y + glyph_height(f) <= i32::MAX,
    ensures
        uniform_on(r@, on),
        forall|i: int, j: int|
            #[trigger] contains_point(r@, i, j) == text_hits(f, text@, x as int, y as int, i, j),
{
    let w = f.width() as i32;
    let n = text.unicode_len();
    let mut v: Vec<Pixel> = Vec::new();
    proof {
        assert(forall|i: int, j: int| !#[trigger] contains_point(v@, i, j));
    }
    let mut k: usize = 0;
    while k < n
        invariant
            k <= n,
            n == text@.len(),
            w == glyph_width(f),
            text@.len() * glyph_width(f) <= i32::MAX,
            x + text@.len() * glyph_width(f) <= i32::MAX,
            y + glyph_height(f) <= i32::MAX,
            uniform_on(v@, on),
            forall|i: int, j: int|
                #[trigger] contains_point(v@, i, j) == text_hits_upto(
                    f,
                    text@,
                    x as int,
                    y as int,
                    k as int,
                    i,
                    j,
                ),
        decreases n - k,
    {
        proof {
            assert((k as int) * glyph_width(f) <= text@.len() * glyph_width(f)
                && 0 <= (k as int) * glyph_width(f) && (k as int + 1) * glyph_width(f) == (k as int)
                * glyph_width(f) + glyph_width(f) && (k as int + 1) * glyph_width(f) <= text@.len()
                * glyph_width(f)) by (nonlinear_arith)
                requires
                    0 <= (k as int) && (k as int) < text@.len(),
                    glyph_width(f) > 0,
            ;
        }
        let c = text.get_char(k);
        let cx = x + (k as i32) * w;
        let mut g = glyph_run_pixels(f, c, cx, y, on);
        let ghost before = v@;
        let ghost gseq = g@;
        v.append(&mut g);
        proof {
            assert forall|i: int, j: int| #[trigger]
                contains_point(v@, i, j) == text_hits_upto(
                    f,
                    text@,
                    x as int,
                    y as int,
                    k as int + 1,
                    i,
                    j,
                ) by {
                lemma_contains_concat(before, gseq, i, j);
                if contains_point(v@, i, j) {
                    if contains_point(before, i, j) {
                        let k0 = choose|k0: int|
                            0 <= k0 < k as int && k0 < text@.len() && glyph_hits(
                                f,
                                text@[k0],
                                x + k0 * glyph_width(f),
                                y as int,
                                i,
                                j,
                            );
                        assert(0 <= k0 < k as int + 1 && k0 < text@.len() && glyph_hits(
                            f,
                            text@[k0],
                            x + k0 * glyph_width(f),
                            y as int,
                            i,
                            j,
                        ));
                    } else {
                        assert(glyph_hits(f, text@[k as int], x + (k as int) * glyph_width(f), y as int, i, j));
                    }
                }
                if text_hits_upto(f, text@, x as int, y as int, k as int + 1, i, j) {
                    let k0 = choose|k0: int|
                        0 <= k0 < k as int + 1 && k0 < text@.len() && glyph_hits(
                            f,
                            text@[k0],
                            x + k0 * glyph_width(f),
                            y as int,
                            i,
                            j,
                        );
                    if k0 < k as int {
                        assert(text_hits_upto(f, text@, x as int, y as int, k as int, i, j));
                        assert(contains_point(before, i, j));
                    } else {
                        assert(contains_point(gseq, i, j));
                    }
                }
            }
        }
        k = k + 1;
    }
    v
}

/// The left edge that centers a run of `len` glyphs of width `font_width` on
/// the 128-pixel-wide panel, rounding toward zero; negative when the text is
/// wider than the panel.
pub open spec fn centered_x(len: int, font_width: int) -> int {
    let tw = len * font_width;
    if tw <= 128 {
        (128 - tw) / 2
    } else {
        -((tw - 128) / 2)
    }
}

/// A text style: a monospace font and the pixel state its glyphs are drawn
/// in.
#[derive(Clone, Copy, Debug, PartialEq, Eq, Structural)]
pub struct TextStyle {
    /// The font glyphs are taken from.
    pub font: Font,
    /// `true` draws lit glyph pixels lit; `false` draws them dark, for
    /// inverted text on a lit background.
    pub on: bool,
}

/// Ready-made text styles.
pub struct TextStyles;

impl TextStyles {
    /// The small (6x10) font, drawn lit.
    pub fn small() -> (r: TextStyle)
        ensures
            r == (TextStyle { font: Font::Small, on: true }),
    {
        TextStyle { font: Font::Small, on: true }
    }

    /// The medium (8x13) font, drawn lit.
    pub fn medium() -> (r: TextStyle)
        ensures
            r == (TextStyle { font: Font::Medium, on: true }),
    {
        TextStyle { font: Font::Medium, on: true }
    }

    /// The small (6x10) font, drawn dark for inverted text.
    pub fn small_inverted() -> (r: TextStyle)
        ensures
            r == (TextStyle { font: Font::Small, on: false }),
    {
        TextStyle { font: Font::Small, on: false }
    }
}

} // verus!
