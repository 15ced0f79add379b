//! The framebuffer model: the page-major, column-byte, row-bit addressing
//! scheme of the controller, and what setting or clearing one pixel does to
//! the byte image.
//!
//! A framebuffer is a sequence of `BUFFER_SIZE` bytes organized as
//! `PAGE_COUNT` pages of `SCREEN_WIDTH` bytes each; the byte at column `x` of
//! page `p` holds the eight pixels of rows `8 * p` through `8 * p + 7` of that
//! column, least significant bit topmost. These definitions are the single
//! source of truth for that layout: every drawing and flush operation is
//! specified through them.

use vstd::prelude::*;

use crate::BUFFER_SIZE;
use crate::SCREEN_HEIGHT;
use crate::SCREEN_WIDTH;

verus! {

/// Holds when (`x`, `y`) names a pixel of the panel.
pub open spec fn in_bounds(x: int, y: int) -> bool {
    0 <= x < SCREEN_WIDTH as int && 0 <= y < SCREEN_HEIGHT as int
}

/// The index of the framebuffer byte holding pixel (`x`, `y`): byte `x` of
/// page `y / 8`.
pub open spec fn pixel_index(x: int, y: int) -> int {
    (y / 8) * (SCREEN_WIDTH as int) + x
}

/// The bit position of pixel (`x`, `y`) within its framebuffer byte.
pub open spec fn pixel_bit(y: int) -> u8 {
    (y % 8) as u8
}

/// Whether bit `k` of byte `b` is set.
pub open spec fn bit_of(b: u8, k: u8) -> bool {
    b & (1u8 << k) != 0
}

/// Byte `b` with bit `k` set (`on`) or cleared (`!on`).
pub open spec fn byte_with_bit(b: u8, k: u8, on: bool) -> u8 {
    if on {
        b | (1u8 << k)
    } else {
        b & !(1u8 << k)
    }
}

/// Whether pixel (`x`, `y`) is lit in framebuffer image `buf`.
pub open spec fn pixel_of(buf: Seq<u8>, x: int, y: int) -> bool {
    bit_of(buf[pixel_index(x, y)], pixel_bit(y))
}

/// The framebuffer image after a set-pixel request: unchanged when the
/// coordinates are out of range, else the addressed byte with the addressed
/// bit set or cleared.
pub open spec fn set_pixel_spec(buf: Seq<u8>, x: int, y: int, on: bool) -> Seq<u8> {
    if in_bounds(x, y) {
        buf.update(pixel_index(x, y), byte_with_bit(buf[pixel_index(x, y)], pixel_bit(y), on))
    } else {
        buf
    }
}

/// The all-dark framebuffer image.
pub open spec fn zero_buf() -> Seq<u8> {
    Seq::new(BUFFER_SIZE as nat, |i: int| 0u8)
}

/// Writing bit `k` of a byte changes that bit to the requested value and no
/// other.
pub proof fn lemma_byte_with_bit(b: u8, k: u8, m: u8, on: bool)
    requires
        k < 8,
        m < 8,
    ensures
        bit_of(byte_with_bit(b, k, on), m) == if m == k {
            on
        } else {
            bit_of(b, m)
        },
{
    assert(k == m ==> ((b | (1u8 << k)) & (1u8 << m) != 0)) by (bit_vector)
        requires
            k < 8,
            m < 8,
    ;
    assert(k == m ==> ((b & !(1u8 << k)) & (1u8 << m) == 0)) by (bit_vector)
        requires
            k < 8,
            m < 8,
    ;
    assert(k != m ==> ((b | (1u8 << k)) & (1u8 << m) == b & (1u8 << m))) by (bit_vector)
        requires
            k < 8,
            m < 8,
    ;
    assert(k != m ==> ((b & !(1u8 << k)) & (1u8 << m) == b & (1u8 << m))) by (bit_vector)
        requires
            k < 8,
            m < 8,
    ;
}

/// Every in-range pixel owns exactly one (byte, bit) address: two distinct
/// in-range pixels either live in different bytes or in different bits of the
/// same byte.
pub proof fn lemma_pixel_address_injective(x: int, y: int, i: int, j: int)
    requires
        in_bounds(x, y),
        in_bounds(i, j),
        !(i == x && j == y),
    ensures
        pixel_index(i, j) != pixel_index(x, y) || pixel_bit(j) != pixel_bit(y),
{
    if pixel_index(i, j) == pixel_index(x, y) {
        assert(i == x && j / 8 == y / 8) by (nonlinear_arith)
            requires
                0 <= i < 128,
                0 <= x < 128,
                0 <= j,
                0 <= y,
                (j / 8) * 128 + i == (y / 8) * 128 + x,
        ;
        assert(j % 8 != y % 8);
    }
}

/// A set-pixel request changes the addressed pixel to the requested state and
/// leaves every other pixel of the image as it was.
pub proof fn lemma_set_pixel_spec_pixels(buf: Seq<u8>, x: int, y: int, on: bool)
    requires
        buf.len() == BUFFER_SIZE,
    ensures
        forall|i: int, j: int|
            in_bounds(i, j) ==> #[trigger] pixel_of(set_pixel_spec(buf, x, y, on), i, j) == if i
                == x && j == y {
                on
            } else {
                pixel_of(buf, i, j)
            },
        set_pixel_spec(buf, x, y, on).len() == buf.len(),
{
    assert forall|i: int, j: int| in_bounds(i, j) implies #[trigger] pixel_of(
        set_pixel_spec(buf, x, y, on),
        i,
        j,
    ) == if i == x && j == y {
        on
    } else {
        pixel_of(buf, i, j)
    } by {
        if in_bounds(x, y) {
            lemma_pixel_index_range(x, y);
            lemma_pixel_index_range(i, j);
            if i == x && j == y {
                lemma_byte_with_bit(buf[pixel_index(x, y)], pixel_bit(y), pixel_bit(y), on);
            } else {
                lemma_pixel_address_injective(x, y, i, j);
                if pixel_index(i, j) == pixel_index(x, y) {
                    lemma_byte_with_bit(buf[pixel_index(x, y)], pixel_bit(y), pixel_bit(j), on);
                }
            }
        }
    }
}

/// Every in-range pixel address falls inside the framebuffer.
pub proof fn lemma_pixel_index_range(x: int, y: int)
    requires
        in_bounds(x, y),
    ensures
        0 <= pixel_index(x, y) < BUFFER_SIZE,
        pixel_bit(y) < 8,
{
    assert(0 <= (y / 8) * 128 + x < 1024) by (nonlinear_arith)
        requires
            0 <= x < 128,
            0 <= y < 64,
    ;
}

/// Setting a pixel that was dark and then clearing it again restores the
/// framebuffer image exactly: on a clear bit, the set/clear pair is its own
/// inverse. (On a pixel that was already lit, the pair leaves the pixel
/// cleared instead, so the hypothesis that the pixel starts dark is needed.)
pub proof fn lemma_set_then_clear_restores(buf: Seq<u8>, x: int, y: int)
    requires
        buf.len() == BUFFER_SIZE,
        in_bounds(x, y),
        !pixel_of(buf, x, y),
    ensures
        set_pixel_spec(set_pixel_spec(buf, x, y, true), x, y, false) == buf,
{
    lemma_pixel_index_range(x, y);
    let k = pixel_bit(y);
    let b = buf[pixel_index(x, y)];
    assert(b & (1u8 << k) == 0 ==> ((b | (1u8 << k)) & !(1u8 << k)) == b) by (bit_vector);
    assert(set_pixel_spec(set_pixel_spec(buf, x, y, true), x, y, false) =~= buf);
}

/// In the all-dark image every byte is zero and every pixel is dark.
pub proof fn lemma_zero_buf_dark()
    ensures
        forall|k: int| 0 <= k < BUFFER_SIZE ==> #[trigger] zero_buf()[k] == 0u8,
        forall|x: int, y: int| in_bounds(x, y) ==> !#[trigger] pixel_of(zero_buf(), x, y),
{
    assert forall|x: int, y: int| in_bounds(x, y) implies !#[trigger] pixel_of(
        zero_buf(),
        x,
        y,
    ) by {
        lemma_pixel_index_range(x, y);
        let k = pixel_bit(y);
        assert(0u8 & (1u8 << k) == 0) by (bit_vector);
    }
}

} // verus!
