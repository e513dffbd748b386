//! The debug line rasterizer's drawing core: an integer
//! incremental-error (Bresenham-family) line algorithm that walks from
//! one pixel to another, inclusive of both endpoints, writing a fixed
//! colour at each visited pixel. The walk itself is a spec function, so
//! the drawing contract pins exactly which pixels are painted.

use vstd::prelude::*;

use crate::texture::Texture;

verus! {

/// |a - b| over the integers.
pub open spec fn absd(a: int, b: int) -> int {
    if a >= b {
        a - b
    } else {
        b - a
    }
}

/// (i, j) lies in the axis-aligned rectangle spanned by the two
/// endpoints, inclusive.
pub open spec fn in_segment_rect(i: int, j: int, x0: int, y0: int, x1: int, y1: int) -> bool {
    vstd::math::min(x0, x1) <= i <= vstd::math::max(x0, x1) && vstd::math::min(y0, y1) <= j
        <= vstd::math::max(y0, y1)
}

/// The walk's x coordinate after one step: x moves one unit along `sx`
/// when twice the accumulated error has reached `dy`.
pub open spec fn walk_next_x(x: int, error: int, dy: int, sx: int) -> int {
    if 2 * error >= dy {
        x + sx
    } else {
        x
    }
}

/// The walk's y coordinate after one step: y moves one unit along `sy`
/// when twice the accumulated error has not passed `dx`.
pub open spec fn walk_next_y(y: int, error: int, dx: int, sy: int) -> int {
    if 2 * error <= dx {
        y + sy
    } else {
        y
    }
}

/// The accumulated error after one step: each axis stepped adds the
/// other axis's extent.
pub open spec fn walk_next_error(error: int, dx: int, dy: int) -> int {
    let after_x = if 2 * error >= dy {
        error + dy
    } else {
        error
    };
    if 2 * error <= dx {
        after_x + dx
    } else {
        after_x
    }
}

/// The positions the incremental-error walk visits from (x, y) until it
/// reaches (fx, fy), in order, both ends included. `fuel` bounds the
/// number of steps so that the definition is total; the walk from a
/// segment's start with fuel `dx - dy` always reaches the end first.
pub open spec fn error_walk(
    x: int,
    y: int,
    error: int,
    fx: int,
    fy: int,
    dx: int,
    dy: int,
    sx: int,
    sy: int,
    fuel: nat,
) -> Seq<(int, int)>
    decreases fuel,
{
    if (x == fx && y == fy) || fuel == 0 {
        seq![(x, y)]
    } else {
        seq![(x, y)] + error_walk(
            walk_next_x(x, error, dy, sx),
            walk_next_y(y, error, dx, sy),
            walk_next_error(error, dx, dy),
            fx,
            fy,
            dx,
            dy,
            sx,
            sy,
            (fuel - 1) as nat,
        )
    }
}

/// The pixels the incremental-error walk from (x0, y0) to (x1, y1)
/// visits, in order, both endpoints included.
pub open spec fn line_walk(x0: int, y0: int, x1: int, y1: int) -> Seq<(int, int)> {
    let dx = absd(x1, x0);
    let dy = -absd(y1, y0);
    let sx: int = if x0 < x1 {
        1
    } else {
        -1
    };
    let sy: int = if y0 < y1 {
        1
    } else {
        -1
    };
    error_walk(x0, y0, dx + dy, x1, y1, dx, dy, sx, sy, (dx - dy) as nat)
}

proof fn lemma_concat_contains<T>(a: Seq<T>, b: Seq<T>, p: T)
    ensures
        (a + b).contains(p) <==> a.contains(p) || b.contains(p),
{
    if a.contains(p) {
        let k = choose|k: int| 0 <= k < a.len() && a[k] == p;
        assert((a + b)[k] == p);
    }
    if b.contains(p) {
        let k = choose|k: int| 0 <= k < b.len() && b[k] == p;
        assert((a + b)[a.len() + k] == p);
    }
    if (a + b).contains(p) {
        let k = choose|k: int| 0 <= k < (a + b).len() && (a + b)[k] == p;
        if k < a.len() {
            assert(a[k] == p);
        } else {
            assert(b[k - a.len()] == p);
        }
    }
}

proof fn lemma_singleton_contains<T>(v: T, p: T)
    ensures
        seq![v].contains(p) <==> p == v,
{
    if p == v {
        assert(seq![v][0] == p);
    }
    if seq![v].contains(p) {
        let k = choose|k: int| 0 <= k < seq![v].len() && seq![v][k] == p;
        assert(k == 0);
    }
}

/// Draws the line from (x0, y0) to (x1, y1) into the colour buffer with
/// unit steps chosen by an accumulated error term, writing `colour` at
/// exactly the pixels of `line_walk`, both endpoints included. Every
/// painted pixel lies in the rectangle spanned by the endpoints; every
/// other pixel is left untouched.
#[verifier::loop_isolation(false)]
#[verifier::rlimit(20)]
pub fn draw_line(out: &mut Texture, x0: usize, y0: usize, x1: usize, y1: usize, colour: u32)
    requires
        old(out).wf(),
        old(out).spec_width() <= 32768,
        old(out).spec_height() <= 32768,
        x0 < old(out).spec_width(),
        x1 < old(out).spec_width(),
        y0 < old(out).spec_height(),
        y1 < old(out).spec_height(),
    ensures
        final(out).wf(),
        final(out).spec_width() == old(out).spec_width(),
        final(out).spec_height() == old(out).spec_height(),
        forall|i: int, j: int|
            0 <= i < old(out).spec_width() && 0 <= j < old(out).spec_height()
                ==> final(out).pix(i, j) == (if line_walk(
                x0 as int,
                y0 as int,
                x1 as int,
                y1 as int,
            ).contains((i, j)) {
                colour
            } else {
                old(out).pix(i, j)
            }),
        final(out).pix(x0 as int, y0 as int) == colour,
        final(out).pix(x1 as int, y1 as int) == colour,
        forall|i: int, j: int|
            0 <= i < old(out).spec_width() && 0 <= j < old(out).spec_height()
                && !in_segment_rect(i, j, x0 as int, y0 as int, x1 as int, y1 as int)
                ==> final(out).pix(i, j) == old(out).pix(i, j),
{
    let ghost orig = *out;
    let mut x: i64 = x0 as i64;
    let mut y: i64 = y0 as i64;
    let fx: i64 = x1 as i64;
    let fy: i64 = y1 as i64;

    let dx: i64 = if fx >= x {
        fx - x
    } else {
        x - fx
    };
    let dy: i64 = if fy >= y {
        -(fy - y)
    } else {
        -(y - fy)
    };

    let sx: i64 = if x < fx {
        1
    } else {
        -1
    };
    let sy: i64 = if y < fy {
        1
    } else {
        -1
    };

    let mut error: i64 = dx + dy;

    let ghost full = line_walk(x0 as int, y0 as int, x1 as int, y1 as int);
    let ghost mut prefix: Seq<(int, int)> = Seq::empty();
    let ghost mut rem: nat = (dx - dy) as nat;

    proof {
        assert(full == error_walk(
            x0 as int,
            y0 as int,
            (dx + dy) as int,
            x1 as int,
            y1 as int,
            dx as int,
            dy as int,
            sx as int,
            sy as int,
            rem,
        ));
        assert(prefix + error_walk(
            x0 as int,
            y0 as int,
            (dx + dy) as int,
            x1 as int,
            y1 as int,
            dx as int,
            dy as int,
            sx as int,
            sy as int,
            rem,
        ) =~= full);
    }

    out.write(x0, y0, colour);

    while x != fx || y != fy
        invariant
            out.wf(),
            out.spec_width() == orig.spec_width(),
            out.spec_height() == orig.spec_height(),
            sx == 1 ==> x0 <= x <= fx,
            sx == -1 ==> fx <= x <= x0,
            sy == 1 ==> y0 <= y <= fy,
            sy == -1 ==> fy <= y <= y0,
            error == dx + dy + absd(x as int, x0 as int) * dy + absd(y as int, y0 as int) * dx,
            rem >= absd(x as int, fx as int) + absd(y as int, fy as int),
            full == prefix + error_walk(
                x as int,
                y as int,
                error as int,
                fx as int,
                fy as int,
                dx as int,
                dy as int,
                sx as int,
                sy as int,
                rem,
            ),
            out.pix(x0 as int, y0 as int) == colour,
            out.pix(x as int, y as int) == colour,
            forall|i: int, j: int|
                0 <= i < orig.spec_width() && 0 <= j < orig.spec_height()
                    ==> out.pix(i, j) == (if prefix.contains((i, j)) || (i == x as int && j == y
                    as int) {
                    colour
                } else {
                    orig.pix(i, j)
                }),
            forall|i: int, j: int|
                0 <= i < orig.spec_width() && 0 <= j < orig.spec_height()
                    && !in_segment_rect(i, j, x0 as int, y0 as int, x1 as int, y1 as int)
                    ==> out.pix(i, j) == orig.pix(i, j),
        decreases absd(x as int, fx as int) + absd(y as int, fy as int),
    {
        let ghost e0: int = error as int;
        let ghost px: int = x as int;
        let ghost py: int = y as int;
        let ghost prefix0: Seq<(int, int)> = prefix;
        let ghost xs0: int = absd(x as int, x0 as int);
        let ghost ys0: int = absd(y as int, y0 as int);

        proof {
            assert(-5000000000 <= e0 <= 5000000000) by (nonlinear_arith)
                requires
                    e0 == dx + dy + xs0 * dy + ys0 * dx,
                    0 <= xs0 <= dx,
                    0 <= ys0 <= -dy,
                    0 <= dx <= 32768,
                    0 <= -dy <= 32768,
            ;
        }
        let e2: i64 = 2 * error;

        if e2 >= dy {
            proof {
                if x == fx {
                    assert(2 * e0 < dy) by (nonlinear_arith)
                        requires
                            e0 == dx + dy + xs0 * dy + ys0 * dx,
                            xs0 == dx,
                            0 <= ys0 <= -dy - 1,
                            dx >= 0,
                            dy <= 0,
                    ;
                }
                assert((xs0 + 1) * dy == xs0 * dy + dy) by (nonlinear_arith);
            }
            error = error + dy;
            x = x + sx;
        }

        if e2 <= dx {
            proof {
                if y == fy {
                    assert(2 * e0 > dx) by (nonlinear_arith)
                        requires
                            e0 == dx + dy + xs0 * dy + ys0 * dx,
                            ys0 == -dy,
                            0 <= xs0 <= dx - 1,
                            dx >= 1,
                            dy <= 0,
                    ;
                }
                assert((ys0 + 1) * dx == ys0 * dx + dx) by (nonlinear_arith);
            }
            error = error + dx;
            y = y + sy;
        }

        proof {
            // One unfolding of the walk matches this iteration's steps.
            assert(x as int == walk_next_x(px, e0, dy as int, sx as int));
            assert(y as int == walk_next_y(py, e0, dx as int, sy as int));
            assert(error as int == walk_next_error(e0, dx as int, dy as int));
            assert(error_walk(
                px,
                py,
                e0,
                fx as int,
                fy as int,
                dx as int,
                dy as int,
                sx as int,
                sy as int,
                rem,
            ) == seq![(px, py)] + error_walk(
                x as int,
                y as int,
                error as int,
                fx as int,
                fy as int,
                dx as int,
                dy as int,
                sx as int,
                sy as int,
                (rem - 1) as nat,
            ));
            assert((prefix + seq![(px, py)]) + error_walk(
                x as int,
                y as int,
                error as int,
                fx as int,
                fy as int,
                dx as int,
                dy as int,
                sx as int,
                sy as int,
                (rem - 1) as nat,
            ) =~= full);
            prefix = prefix0 + seq![(px, py)];
            rem = (rem - 1) as nat;
        }

        let ghost pre = *out;
        out.write(x as usize, y as usize, colour);

        proof {
            assert forall|i: int, j: int|
                0 <= i < orig.spec_width() && 0 <= j < orig.spec_height() implies out.pix(i, j)
                == (if prefix.contains((i, j)) || (i == x as int && j == y as int) {
                colour
            } else {
                orig.pix(i, j)
            }) by {
                lemma_concat_contains(prefix0, seq![(px, py)], (i, j));
                lemma_singleton_contains((px, py), (i, j));
                if !(i == x as int && j == y as int) {
                    assert(out.pix(i, j) == pre.pix(i, j));
                }
            }
        }
    }

    proof {
        // The walk's tail at the endpoint is the endpoint alone.
        assert(error_walk(
            x as int,
            y as int,
            error as int,
            fx as int,
            fy as int,
            dx as int,
            dy as int,
            sx as int,
            sy as int,
            rem,
        ) == seq![(x as int, y as int)]);
        assert forall|i: int, j: int|
            0 <= i < orig.spec_width() && 0 <= j < orig.spec_height() implies out.pix(i, j) == (
        if full.contains((i, j)) {
            colour
        } else {
            orig.pix(i, j)
        }) by {
            lemma_concat_contains(
                prefix,
                seq![(x as int, y as int)],
                (i, j),
            );
            lemma_singleton_contains((x as int, y as int), (i, j));
        }
    }
}

} // verus!
