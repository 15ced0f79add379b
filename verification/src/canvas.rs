//! The pixel-canvas capability: fixed dimensions plus a set-pixels-from-list
//! operation.
//!
//! A rasterizer that can decompose a shape or a glyph run into `(coordinate,
//! on/off)` pairs can draw onto anything implementing [`Canvas`]; the driver
//! implements it over its framebuffer. Painting applies the pairs in order
//! (the last write to a coordinate wins) and clips out-of-range coordinates
//! silently.

use vstd::prelude::*;

verus! {

/// One requested pixel: a coordinate pair and the state to set it to.
#[derive(Clone, Copy, Debug, PartialEq, Eq, Structural)]
pub struct Pixel {
    /// Column of the pixel; coordinates outside the canvas are clipped.
    pub x: i32,
    /// Row of the pixel.
    pub y: i32,
    /// `true` to light the pixel, `false` to darken it.
    pub on: bool,
}

/// The state of pixel (`x`, `y`) after painting the requests `ps` over a
/// pixel whose prior state is `base`: the last request naming the coordinate
/// wins, and with no such request the pixel keeps `base`.
pub open spec fn pixel_after(ps: Seq<Pixel>, x: int, y: int, base: bool) -> bool
    decreases ps.len(),
{
    if ps.len() == 0 {
        base
    } else {
        let p = ps.last();
        if p.x == x && p.y == y {
            p.on
        } else {
            pixel_after(ps.drop_last(), x, y, base)
        }
    }
}

/// Whether some request in `ps` names coordinate (`x`, `y`).
pub open spec fn contains_point(ps: Seq<Pixel>, x: int, y: int) -> bool {
    exists|k: int| 0 <= k < ps.len() && ps[k].x == x && ps[k].y == y
}

/// Whether every request in `ps` lights its pixel.
pub open spec fn all_on(ps: Seq<Pixel>) -> bool {
    forall|k: int| 0 <= k < ps.len() ==> #[trigger] ps[k].on
}

/// Whether every request in `ps` sets its pixel to `c`.
pub open spec fn uniform_on(ps: Seq<Pixel>, c: bool) -> bool {
    forall|k: int| 0 <= k < ps.len() ==> #[trigger] ps[k].on == c
}

/// Concatenating two request lists names the union of their coordinates.
pub proof fn lemma_contains_concat(a: Seq<Pixel>, b: Seq<Pixel>, x: int, y: int)
    ensures
        contains_point(a + b, x, y) == (contains_point(a, x, y) || contains_point(b, x, y)),
{
    if contains_point(a, x, y) {
        let k = choose|k: int| 0 <= k < a.len() && a[k].x == x && a[k].y == y;
        assert((a + b)[k].x == x && (a + b)[k].y == y);
    }
    if contains_point(b, x, y) {
        let k = choose|k: int| 0 <= k < b.len() && b[k].x == x && b[k].y == y;
        assert((a + b)[a.len() + k].x == x && (a + b)[a.len() + k].y == y);
    }
    if contains_point(a + b, x, y) {
        let k = choose|k: int| 0 <= k < (a + b).len() && (a + b)[k].x == x && (a + b)[k].y == y;
        if k < a.len() {
            assert(a[k].x == x && a[k].y == y);
        } else {
            assert(b[k - a.len()].x == x && b[k - a.len()].y == y);
        }
    }
}

/// Appending one request adds exactly its coordinate to the named set.
pub proof fn lemma_contains_push(ps: Seq<Pixel>, p: Pixel, x: int, y: int)
    ensures
        contains_point(ps.push(p), x, y) == (contains_point(ps, x, y) || (p.x == x && p.y == y)),
{
    if contains_point(ps, x, y) {
        let k = choose|k: int| 0 <= k < ps.len() && ps[k].x == x && ps[k].y == y;
        assert(ps.push(p)[k].x == x && ps.push(p)[k].y == y);
    }
    if p.x == x && p.y == y {
        assert(ps.push(p)[ps.len() as int].x == x && ps.push(p)[ps.len() as int].y == y);
    }
    if contains_point(ps.push(p), x, y) {
        let k = choose|k: int| 0 <= k < ps.push(p).len() && ps.push(p)[k].x == x && ps.push(p)[k].y
            == y;
        if k < ps.len() {
            assert(ps[k].x == x && ps[k].y == y);
        }
    }
}

/// Painting requests that all set their pixel to `c` sets exactly the named
/// coordinates to `c` and leaves every other pixel at its prior state.
pub proof fn lemma_pixel_after_uniform(ps: Seq<Pixel>, x: int, y: int, base: bool, c: bool)
    requires
        uniform_on(ps, c),
    ensures
        pixel_after(ps, x, y, base) == if contains_point(ps, x, y) {
            c
        } else {
            base
        },
    decreases ps.len(),
{
    if ps.len() == 0 {
        assert(!contains_point(ps, x, y));
    } else {
        let p = ps.last();
        let rest = ps.drop_last();
        assert(uniform_on(rest, c)) by {
            assert(forall|k: int| 0 <= k < rest.len() ==> rest[k] == ps[k]);
        }
        lemma_pixel_after_uniform(rest, x, y, base, c);
        assert(rest.push(p) =~= ps);
        lemma_contains_push(rest, p, x, y);
        if p.x == x && p.y == y {
            assert(ps[ps.len() - 1].on == c);
        }
    }
}

/// Painting only lighting requests lights exactly the named coordinates and
/// leaves every other pixel at its prior state.
pub proof fn lemma_pixel_after_all_on(ps: Seq<Pixel>, x: int, y: int, base: bool)
    requires
        all_on(ps),
    ensures
        pixel_after(ps, x, y, base) == (base || contains_point(ps, x, y)),
{
    assert(uniform_on(ps, true));
    lemma_pixel_after_uniform(ps, x, y, base, true);
}

/// A surface of fixed dimensions whose pixels can be set from a list of
/// requests: the extension point that lets shape and text rasterization be
/// written once against any pixel device.
pub trait Canvas: Sized {
    /// The canvas dimensions, (width, height), in pixels.
    spec fn dims(&self) -> (int, int);

    /// The state of pixel (`x`, `y`).
    spec fn pix(&self, x: int, y: int) -> bool;

    /// Reports the fixed dimensions, (width, height).
    fn size(&self) -> (r: (u32, u32))
        ensures
            r.0 as int == self.dims().0,
            r.1 as int == self.dims().1,
    ;

    /// Applies the requests in order: each in-range coordinate is set to the
    /// requested state (the last request wins), out-of-range coordinates are
    /// clipped.
    fn draw_iter(&mut self, pixels: &[Pixel])
        ensures
            final(self).dims() == old(self).dims(),
            forall|i: int, j: int|
                0 <= i < old(self).dims().0 && 0 <= j < old(self).dims().1
                    ==> #[trigger] final(self).pix(i, j) == pixel_after(
                    pixels@,
                    i,
                    j,
                    old(self).pix(i, j),
                ),
    ;
}

} // verus!
