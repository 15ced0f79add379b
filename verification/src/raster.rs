//! Rasterizers: they decompose rectangles (stroke and fill) into pixel
//! request lists for a [`crate::canvas::Canvas`], and say exactly which
//! coordinates each list names.

use vstd::prelude::*;

use crate::canvas::all_on;
use crate::canvas::contains_point;
use crate::canvas::lemma_contains_push;
use crate::canvas::Pixel;

verus! {

/// The absolute value, as a mathematical integer.
pub open spec fn iabs(x: int) -> int {
    if x < 0 {
        -x
    } else {
        x
    }
}

/// The direction of one axis of a line: `1` when the start lies before the
/// end, else `-1`.
pub open spec fn line_sign(a: int, b: int) -> int {
    if a < b {
        1
    } else {
        -1
    }
}

/// The points the line rasterizer visits from (`x0`, `y0`) with the end
/// point, axis deltas, step directions and error term as further state: at
/// each step the current point is plotted; then, twice the error term
/// permitting, each axis steps one pixel toward its target, the error term
/// absorbing the other axis's delta, until the end point is plotted. (The
/// recursion stops early on state that no call of [`line_points`] produces:
/// an axis asked to step while already at its target, or a step that fails
/// to approach the end point.)
pub open spec fn line_points_rec(
    x0: int,
    y0: int,
    x1: int,
    y1: int,
    dx: int,
    dy: int,
    sx: int,
    sy: int,
    err: int,
) -> Seq<(int, int)>
    decreases iabs(x1 - x0) + iabs(y1 - y0),
{
    let cur = seq![(x0, y0)];
    if x0 == x1 && y0 == y1 {
        cur
    } else {
        let e2 = 2 * err;
        if e2 >= dy && x0 == x1 {
            cur
        } else {
            let xa = if e2 >= dy {
                x0 + sx
            } else {
                x0
            };
            let erra = if e2 >= dy {
                err + dy
            } else {
                err
            };
            if e2 <= dx && y0 == y1 {
                cur
            } else {
                let ya = if e2 <= dx {
                    y0 + sy
                } else {
                    y0
                };
                let errb = if e2 <= dx {
                    erra + dx
                } else {
                    erra
                };
                if iabs(x1 - xa) + iabs(y1 - ya) < iabs(x1 - x0) + iabs(y1 - y0) {
                    cur + line_points_rec(xa, ya, x1, y1, dx, dy, sx, sy, errb)
                } else {
                    cur
                }
            }
        }
    }
}

/// The points of the rasterized line from (`x0`, `y0`) to (`x1`, `y1`),
/// first endpoint first.
pub open spec fn line_points(x0: int, y0: int, x1: int, y1: int) -> Seq<(int, int)> {
    line_points_rec(
        x0,
        y0,
        x1,
        y1,
        iabs(x1 - x0),
        -iabs(y1 - y0),
        line_sign(x0, x1),
        line_sign(y0, y1),
        iabs(x1 - x0) - iabs(y1 - y0),
    )
}

/// Appending one point adds exactly it to the set a point sequence holds.
proof fn lemma_points_push(s: Seq<(int, int)>, p: (int, int), q: (int, int))
    ensures
        s.push(p).contains(q) == (s.contains(q) || p == q),
{
    if s.contains(q) {
        let k = choose|k: int| 0 <= k < s.len() && s[k] == q;
        assert(s.push(p)[k] == q);
    }
    if p == q {
        assert(s.push(p)[s.len() as int] == q);
    }
    if s.push(p).contains(q) {
        let k = choose|k: int| 0 <= k < s.push(p).len() && s.push(p)[k] == q;
        if k < s.len() {
            assert(s[k] == q);
        }
    }
}

/// Whether (`i`, `j`) lies in the `w` by `h` rectangle whose top-left corner
/// is (`x`, `y`).
pub open spec fn in_rect(x: int, y: int, w: int, h: int, i: int, j: int) -> bool {
    x <= i < x + w && y <= j < y + h
}

/// Whether (`i`, `j`) lies on the one-pixel border of that rectangle.
pub open spec fn on_rect_border(x: int, y: int, w: int, h: int, i: int, j: int) -> bool {
    in_rect(x, y, w, h, i, j) && (i == x || i == x + w - 1 || j == y || j == y + h - 1)
}

/// Appends the horizontal run of `n` lighting requests starting at (`x`,
/// `y`).
fn push_row(v: &mut Vec<Pixel>, x: u16, y: u16, n: u16)
    requires
        x as int + n as int <= 0xFFFF,
    ensures
        all_on(old(v)@) ==> all_on(final(v)@),
        forall|i: int, j: int|
            #[trigger] contains_point(final(v)@, i, j) == (contains_point(old(v)@, i, j) || (j
                == y as int && x as int <= i < x as int + n as int)),
{
    let mut d: u16 = 0;
    while d < n
        invariant
            d <= n,
            x as int + n as int <= 0xFFFF,
            all_on(old(v)@) ==> all_on(v@),
            forall|i: int, j: int|
                #[trigger] contains_point(v@, i, j) == (contains_point(old(v)@, i, j) || (j
                    == y as int && x as int <= i < x as int + d as int)),
        decreases n - d,
    {
        let p = Pixel { x: (x + d) as i32, y: y as i32, on: true };
        let ghost before = v@;
        v.push(p);
        proof {
            assert forall|i: int, j: int| #[trigger]
                contains_point(v@, i, j) == (contains_point(old(v)@, i, j) || (j == y as int
                    && x as int <= i < x as int + d as int + 1)) by {
                lemma_contains_push(before, p, i, j);
            }
        }
        d = d + 1;
    }
}

/// Appends the vertical run of `n` lighting requests starting at (`x`, `y`).
fn push_col(v: &mut Vec<Pixel>, x: u16, y: u16, n: u16)
    requires
        y as int + n as int <= 0xFFFF,
    ensures
        all_on(old(v)@) ==> all_on(final(v)@),
        forall|i: int, j: int|
            #[trigger] contains_point(final(v)@, i, j) == (contains_point(old(v)@, i, j) || (i
                == x as int && y as int <= j < y as int + n as int)),
{
    let mut d: u16 = 0;
    while d < n
        invariant
            d <= n,
            y as int + n as int <= 0xFFFF,
            all_on(old(v)@) ==> all_on(v@),
            forall|i: int, j: int|
                #[trigger] contains_point(v@, i, j) == (contains_point(old(v)@, i, j) || (i
                    == x as int && y as int <= j < y as int + d as int)),
        decreases n - d,
    {
        let p = Pixel { x: x as i32, y: (y + d) as i32, on: true };
        let ghost before = v@;
        v.push(p);
        proof {
            assert forall|i: int, j: int| #[trigger]
                contains_point(v@, i, j) == (contains_point(old(v)@, i, j) || (i == x as int
                    && y as int <= j < y as int + d as int + 1)) by {
                lemma_contains_push(before, p, i, j);
            }
        }
        d = d + 1;
    }
}

/// The lighting requests that fill the `w` by `h` rectangle at (`x`, `y`):
/// they name exactly the rectangle's coordinates.
pub fn rect_fill_pixels(x: u8, y: u8, w: u8, h: u8) -> (r: Vec<Pixel>)
    ensures
        all_on(r@),
        forall|i: int, j: int|
            #[trigger] contains_point(r@, i, j) == in_rect(x as int, y as int, w as int, h as int, i, j),
{
    let mut v: Vec<Pixel> = Vec::new();
    proof {
        assert(forall|i: int, j: int| !#[trigger] contains_point(v@, i, j));
    }
    let mut dj: u8 = 0;
    while dj < h
        invariant
            dj <= h,
            all_on(v@),
            forall|i: int, j: int|
                #[trigger] contains_point(v@, i, j) == in_rect(
                    x as int,
                    y as int,
                    w as int,
                    dj as int,
                    i,
                    j,
                ),
        decreases h - dj,
    {
        push_row(&mut v, x as u16, y as u16 + dj as u16, w as u16);
        dj = dj + 1;
    }
    v
}

/// The lighting requests for the rasterized line from (`x0`, `y0`) to
/// (`x1`, `y1`): they name exactly the coordinates of [`line_points`].
pub fn line_pixels(x0: i32, y0: i32, x1: i32, y1: i32) -> (r: Vec<Pixel>)
    ensures
        all_on(r@),
        forall|i: int, j: int|
            #[trigger] contains_point(r@, i, j) == line_points(
                x0 as int,
                y0 as int,
                x1 as int,
                y1 as int,
            ).contains((i, j)),
{
    let dx: i64 = if x1 >= x0 {
        x1 as i64 - x0 as i64
    } else {
        x0 as i64 - x1 as i64
    };
    let dy: i64 = if y1 >= y0 {
        -(y1 as i64 - y0 as i64)
    } else {
        -(y0 as i64 - y1 as i64)
    };
    let sx: i64 = if x0 < x1 {
        1
    } else {
        -1
    };
    let sy: i64 = if y0 < y1 {
        1
    } else {
        -1
    };
    let mut err: i64 = dx + dy;
    let mut cx: i64 = x0 as i64;
    let mut cy: i64 = y0 as i64;
    let mut v: Vec<Pixel> = Vec::new();
    let ghost full = line_points(x0 as int, y0 as int, x1 as int, y1 as int);
    let ghost mut done: Seq<(int, int)> = Seq::empty();
    proof {
        assert(forall|i: int, j: int| !#[trigger] contains_point(v@, i, j));
        assert(done + line_points_rec(
            cx as int,
            cy as int,
            x1 as int,
            y1 as int,
            dx as int,
            dy as int,
            sx as int,
            sy as int,
            err as int,
        ) =~= full);
    }
    loop
        invariant
            dx as int == iabs(x1 as int - x0 as int),
            dy as int == -iabs(y1 as int - y0 as int),
            sx as int == line_sign(x0 as int, x1 as int),
            sy as int == line_sign(y0 as int, y1 as int),
            if x0 <= x1 {
                x0 as int <= cx as int <= x1 as int
            } else {
                x1 as int <= cx as int <= x0 as int
            },
            if y0 <= y1 {
                y0 as int <= cy as int <= y1 as int
            } else {
                y1 as int <= cy as int <= y0 as int
            },
            2 * (dy as int) <= err as int <= 2 * (dx as int),
            full == line_points(x0 as int, y0 as int, x1 as int, y1 as int),
            all_on(v@),
            forall|i: int, j: int| #[trigger] contains_point(v@, i, j) == done.contains((i, j)),
            full == done + line_points_rec(
                cx as int,
                cy as int,
                x1 as int,
                y1 as int,
                dx as int,
                dy as int,
                sx as int,
                sy as int,
                err as int,
            ),
        decreases iabs(x1 as int - cx as int) + iabs(y1 as int - cy as int),
    {
        let ghost scx = cx as int;
        let ghost scy = cy as int;
        let ghost serr = err as int;
        let ghost dbefore = done;
        let ghost rec0 = line_points_rec(
            scx,
            scy,
            x1 as int,
            y1 as int,
            dx as int,
            dy as int,
            sx as int,
            sy as int,
            serr,
        );
        let p = Pixel { x: cx as i32, y: cy as i32, on: true };
        let ghost vbefore = v@;
        v.push(p);
        proof {
            done = done.push((scx, scy));
            assert forall|i: int, j: int| #[trigger]
                contains_point(v@, i, j) == done.contains((i, j)) by {
                lemma_contains_push(vbefore, p, i, j);
                lemma_points_push(dbefore, (scx, scy), (i, j));
            }
            assert(dbefore + seq![(scx, scy)] =~= done);
        }
        if cx == x1 as i64 && cy == y1 as i64 {
            proof {
                assert(rec0 =~= seq![(scx, scy)]);
                assert(full =~= done);
            }
            return v;
        }
        let e2 = 2 * err;
        if e2 >= dy {
            if cx == x1 as i64 {
                proof {
                    assert(rec0 =~= seq![(scx, scy)]);
                    assert(full =~= done);
                }
                return v;
            }
            err = err + dy;
            cx = cx + sx;
        }
        if e2 <= dx {
            if cy == y1 as i64 {
                proof {
                    assert(rec0 =~= seq![(scx, scy)]);
                    assert(full =~= done);
                }
                return v;
            }
            err = err + dx;
            cy = cy + sy;
        }
        proof {
            assert(dy as int <= 0 <= dx as int);
            if 2 * serr >= dy as int {
                assert(scx != x1 as int);
                assert(iabs(x1 as int - cx as int) == iabs(x1 as int - scx) - 1);
            }
            if 2 * serr <= dx as int {
                assert(scy != y1 as int);
                assert(iabs(y1 as int - cy as int) == iabs(y1 as int - scy) - 1);
            }
            assert(2 * serr >= dy as int || 2 * serr <= dx as int);
            assert(iabs(x1 as int - cx as int) + iabs(y1 as int - cy as int) < iabs(
                x1 as int - scx,
            ) + iabs(y1 as int - scy));
            assert(rec0 =~= seq![(scx, scy)] + line_points_rec(
                cx as int,
                cy as int,
                x1 as int,
                y1 as int,
                dx as int,
                dy as int,
                sx as int,
                sy as int,
                err as int,
            ));
            assert(full =~= done + line_points_rec(
                cx as int,
                cy as int,
                x1 as int,
                y1 as int,
                dx as int,
                dy as int,
                sx as int,
                sy as int,
                err as int,
            ));
        }
    }
}

/// The lighting requests that stroke the one-pixel border of the `w` by `h`
/// rectangle at (`x`, `y`): they name exactly the border's coordinates. A
/// rectangle with zero width or height has no border.
pub fn rect_stroke_pixels(x: u8, y: u8, w: u8, h: u8) -> (r: Vec<Pixel>)
    ensures
        all_on(r@),
        forall|i: int, j: int|
            #[trigger] contains_point(r@, i, j) == on_rect_border(
                x as int,
                y as int,
                w as int,
                h as int,
                i,
                j,
            ),
{
    let mut v: Vec<Pixel> = Vec::new();
    proof {
        assert(forall|i: int, j: int| !#[trigger] contains_point(v@, i, j));
    }
    if w == 0 || h == 0 {
        return v;
    }
    push_row(&mut v, x as u16, y as u16, w as u16);
    push_row(&mut v, x as u16, y as u16 + h as u16 - 1, w as u16);
    push_col(&mut v, x as u16, y as u16, h as u16);
    push_col(&mut v, x as u16 + w as u16 - 1, y as u16, h as u16);
    v
}

} // verus!
