//! The cells of a rasterized line segment.
//!
//! A segment is walked along its longer axis, one cell for each step, both
//! ends included. Along the shorter axis the cell is the one nearest to the
//! ideal line; where the line passes exactly between two cells, the one
//! nearer to the start is taken.

use vstd::prelude::*;

verus! {

/// The distance between two coordinates.
pub open spec fn span(a: int, b: int) -> int {
    if a < b {
        b - a
    } else {
        a - b
    }
}

/// The coordinate `k` steps from `a` in the direction of `b`.
pub open spec fn toward(a: int, b: int, k: int) -> int {
    if a < b {
        a + k
    } else {
        a - k
    }
}

/// The number of steps from `a` in the direction of `b` that lead to `p`.
pub open spec fn steps_from(a: int, b: int, p: int) -> int {
    if a < b {
        p - a
    } else {
        a - p
    }
}

/// The steps made along the shorter axis after `i` steps along the longer
/// one: `i * minor / major` rounded to nearest, halves rounded down.
pub open spec fn minor_steps(i: int, major: int, minor: int) -> int {
    (2 * i * minor + major - 1) / (2 * major)
}

/// Whether the segment from `(x0, y0)` to `(x1, y1)` is walked along x.
pub open spec fn x_major(x0: int, y0: int, x1: int, y1: int) -> bool {
    span(x0, x1) >= span(y0, y1)
}

/// The position of the cell `(px, py)` along the longer axis of the segment,
/// counted in steps from its start.
pub open spec fn line_step(x0: int, y0: int, x1: int, y1: int, px: int, py: int) -> int {
    if x_major(x0, y0, x1, y1) {
        steps_from(x0, x1, px)
    } else {
        steps_from(y0, y1, py)
    }
}

/// Whether the cell `(px, py)` belongs to the segment from `(x0, y0)` to
/// `(x1, y1)`.
pub open spec fn on_line(x0: int, y0: int, x1: int, y1: int, px: int, py: int) -> bool {
    let xd = span(x0, x1);
    let yd = span(y0, y1);
    let i = line_step(x0, y0, x1, y1, px, py);
    if xd == 0 && yd == 0 {
        px == x0 && py == y0
    } else if xd >= yd {
        0 <= i <= xd && py == toward(y0, y1, minor_steps(i, xd, yd))
    } else {
        0 <= i <= yd && px == toward(x0, x1, minor_steps(i, yd, xd))
    }
}

/// An error term in the stated range fixes the number of steps made along
/// the shorter axis.
pub proof fn lemma_minor_steps(i: int, k: int, major: int, minor: int, slack: int)
    requires
        major > 0,
        0 <= slack < 2 * major,
        2 * i * minor + major - 1 == 2 * k * major + slack,
    ensures
        minor_steps(i, major, minor) == k,
{
    let n = 2 * i * minor + major - 1;
    let d = 2 * major;
    assert(2 * k * major == k * d) by (nonlinear_arith)
        requires
            d == 2 * major,
    ;
    vstd::arithmetic::div_mod::lemma_fundamental_div_mod_converse(n, d, k, slack);
}

/// No step along the shorter axis has been made at the start, and all of
/// them at the end.
pub proof fn lemma_minor_steps_ends(major: int, minor: int)
    requires
        0 <= minor <= major,
        major > 0,
    ensures
        minor_steps(0, major, minor) == 0,
        minor_steps(major, major, minor) == minor,
{
    assert(2 * 0 * minor + major - 1 == 2 * 0 * major + (major - 1)) by (nonlinear_arith);
    lemma_minor_steps(0, 0, major, minor, major - 1);
    assert(2 * major * minor + major - 1 == 2 * minor * major + (major - 1)) by (nonlinear_arith);
    lemma_minor_steps(major, minor, major, minor, major - 1);
}

/// Both ends of a segment belong to it.
pub proof fn lemma_line_endpoints(x0: int, y0: int, x1: int, y1: int)
    ensures
        on_line(x0, y0, x1, y1, x0, y0),
        on_line(x0, y0, x1, y1, x1, y1),
{
    let xd = span(x0, x1);
    let yd = span(y0, y1);
    if xd == 0 && yd == 0 {
    } else if xd >= yd {
        lemma_minor_steps_ends(xd, yd);
    } else {
        lemma_minor_steps_ends(yd, xd);
    }
}

/// A horizontal segment holds exactly the cells of its row that lie between
/// its ends.
pub proof fn lemma_line_horizontal(x0: int, x1: int, y: int, px: int, py: int)
    ensures
        on_line(x0, y, x1, y, px, py) <==> (py == y && (x0 <= px <= x1 || x1 <= px <= x0)),
{
    let xd = span(x0, x1);
    if xd > 0 {
        let i = steps_from(x0, x1, px);
        assert(2 * i * 0 + xd - 1 == 2 * 0 * xd + (xd - 1)) by (nonlinear_arith);
        lemma_minor_steps(i, 0, xd, 0, xd - 1);
    }
}

/// A vertical segment holds exactly the cells of its column that lie between
/// its ends.
pub proof fn lemma_line_vertical(x: int, y0: int, y1: int, px: int, py: int)
    ensures
        on_line(x, y0, x, y1, px, py) <==> (px == x && (y0 <= py <= y1 || y1 <= py <= y0)),
{
    let yd = span(y0, y1);
    if yd > 0 {
        let j = steps_from(y0, y1, py);
        assert(2 * j * 0 + yd - 1 == 2 * 0 * yd + (yd - 1)) by (nonlinear_arith);
        lemma_minor_steps(j, 0, yd, 0, yd - 1);
    }
}

/// The state of a walk along the segment after `i` steps along its longer
/// axis and `k` along its shorter one: the walk stands on `(xs, ys)`, and
/// `err` is twice its error term.
pub open spec fn walk_inv(
    x0: int,
    y0: int,
    x1: int,
    y1: int,
    i: int,
    k: int,
    xs: int,
    ys: int,
    err: int,
) -> bool {
    let xd = span(x0, x1);
    let yd = span(y0, y1);
    if xd >= yd {
        &&& 0 <= k <= i <= xd
        &&& xs == toward(x0, x1, i)
        &&& ys == toward(y0, y1, k)
        &&& err == xd - 2 * (i * yd) + 2 * (k * xd)
        &&& xd > 0 ==> 0 <= err < 2 * xd
        &&& xd > 0 ==> k == minor_steps(i, xd, yd)
        &&& xd == 0 ==> k == 0
    } else {
        &&& 0 <= k <= i <= yd
        &&& ys == toward(y0, y1, i)
        &&& xs == toward(x0, x1, k)
        &&& err == -yd + 2 * (i * xd) - 2 * (k * yd)
        &&& -2 * yd < err <= 0
        &&& k == minor_steps(i, yd, xd)
    }
}

/// The length of the segment along its longer axis.
pub open spec fn major_span(x0: int, y0: int, x1: int, y1: int) -> int {
    if span(x0, x1) >= span(y0, y1) {
        span(x0, x1)
    } else {
        span(y0, y1)
    }
}

/// A walk starts on the first end of the segment.
pub proof fn lemma_walk_start(x0: int, y0: int, x1: int, y1: int)
    ensures
        walk_inv(
            x0,
            y0,
            x1,
            y1,
            0,
            0,
            x0,
            y0,
            if span(x0, x1) >= span(y0, y1) {
                span(x0, x1)
            } else {
                -span(y0, y1)
            },
        ),
{
    let xd = span(x0, x1);
    let yd = span(y0, y1);
    assert(0 * yd == 0 && 0 * xd == 0);
    if xd >= yd {
        if xd > 0 {
            lemma_minor_steps_ends(xd, yd);
        }
    } else {
        lemma_minor_steps_ends(yd, xd);
    }
}

/// A walk stands on the second end of the segment exactly when it has made
/// all the steps of the longer axis.
pub proof fn lemma_walk_end(
    x0: int,
    y0: int,
    x1: int,
    y1: int,
    i: int,
    k: int,
    xs: int,
    ys: int,
    err: int,
)
    requires
        walk_inv(x0, y0, x1, y1, i, k, xs, ys, err),
    ensures
        (xs == x1 && ys == y1) <==> i == major_span(x0, y0, x1, y1),
{
    let xd = span(x0, x1);
    let yd = span(y0, y1);
    if xd >= yd {
        if xd > 0 {
            lemma_minor_steps_ends(xd, yd);
        }
    } else {
        lemma_minor_steps_ends(yd, xd);
    }
}

/// The cell a walk stands on after `i` steps is the one cell of the segment
/// with that position along the longer axis.
pub proof fn lemma_walk_point(
    x0: int,
    y0: int,
    x1: int,
    y1: int,
    i: int,
    k: int,
    xs: int,
    ys: int,
    err: int,
)
    requires
        walk_inv(x0, y0, x1, y1, i, k, xs, ys, err),
    ensures
        on_line(x0, y0, x1, y1, xs, ys),
        line_step(x0, y0, x1, y1, xs, ys) == i,
        forall|px: int, py: int|
            on_line(x0, y0, x1, y1, px, py) && line_step(x0, y0, x1, y1, px, py) == i ==> px == xs
                && py == ys,
        forall|px: int, py: int|
            on_line(x0, y0, x1, y1, px, py) ==> 0 <= line_step(x0, y0, x1, y1, px, py)
                <= major_span(x0, y0, x1, y1),
{
}

/// One step of a walk along x: the error term after it is in range again,
/// and it fixes the steps made along y.
proof fn lemma_step_along_x(xd: int, yd: int, i: int, k: int, err: int)
    requires
        0 <= yd <= xd,
        0 <= k <= i < xd,
        err == xd - 2 * (i * yd) + 2 * (k * xd),
        0 <= err < 2 * xd,
    ensures
        ({
            let nk = if err < 2 * yd {
                k + 1
            } else {
                k
            };
            let e = if err < 2 * yd {
                err - 2 * yd + 2 * xd
            } else {
                err - 2 * yd
            };
            &&& e == xd - 2 * ((i + 1) * yd) + 2 * (nk * xd)
            &&& 0 <= e < 2 * xd
            &&& nk == minor_steps(i + 1, xd, yd)
        }),
{
    let nk = if err < 2 * yd {
        k + 1
    } else {
        k
    };
    let e = if err < 2 * yd {
        err - 2 * yd + 2 * xd
    } else {
        err - 2 * yd
    };
    assert((i + 1) * yd == i * yd + yd) by (nonlinear_arith);
    assert((k + 1) * xd == k * xd + xd) by (nonlinear_arith);
    assert(2 * (i + 1) * yd == 2 * ((i + 1) * yd)) by (nonlinear_arith);
    assert(2 * nk * xd == 2 * (nk * xd)) by (nonlinear_arith);
    lemma_minor_steps(i + 1, nk, xd, yd, 2 * xd - 1 - e);
}

/// One step of a walk along y: the error term after it is in range again,
/// and it fixes the steps made along x.
proof fn lemma_step_along_y(xd: int, yd: int, i: int, k: int, err: int)
    requires
        0 <= xd < yd,
        0 <= k <= i < yd,
        err == -yd + 2 * (i * xd) - 2 * (k * yd),
        -2 * yd < err <= 0,
    ensures
        ({
            let nk = if err > -2 * xd {
                k + 1
            } else {
                k
            };
            let e = if err > -2 * xd {
                err - 2 * yd + 2 * xd
            } else {
                err + 2 * xd
            };
            &&& e == -yd + 2 * ((i + 1) * xd) - 2 * (nk * yd)
            &&& -2 * yd < e <= 0
            &&& nk == minor_steps(i + 1, yd, xd)
        }),
{
    let nk = if err > -2 * xd {
        k + 1
    } else {
        k
    };
    let e = if err > -2 * xd {
        err - 2 * yd + 2 * xd
    } else {
        err + 2 * xd
    };
    assert((i + 1) * xd == i * xd + xd) by (nonlinear_arith);
    assert((k + 1) * yd == k * yd + yd) by (nonlinear_arith);
    assert(2 * (i + 1) * xd == 2 * ((i + 1) * xd)) by (nonlinear_arith);
    assert(2 * nk * yd == 2 * (nk * yd)) by (nonlinear_arith);
    lemma_minor_steps(i + 1, nk, yd, xd, 2 * yd + e - 1);
}

/// Moves a walk that has not reached the second end one step along the
/// longer axis, and along the shorter one where the error term asks for it.
pub(crate) fn walk_step(
    x0: i32,
    y0: i32,
    x1: i32,
    y1: i32,
    xs: i64,
    ys: i64,
    err: i64,
    Ghost(i): Ghost<int>,
    Ghost(k): Ghost<int>,
) -> (r: (i64, i64, i64, Ghost<int>))
    requires
        walk_inv(x0 as int, y0 as int, x1 as int, y1 as int, i, k, xs as int, ys as int, err as int),
        !(xs == x1 && ys == y1),
    ensures
        walk_inv(
            x0 as int,
            y0 as int,
            x1 as int,
            y1 as int,
            i + 1,
            r.3@,
            r.0 as int,
            r.1 as int,
            r.2 as int,
        ),
{
    let xd: i64 = if x0 < x1 { x1 as i64 - x0 as i64 } else { x0 as i64 - x1 as i64 };
    let yd: i64 = if y0 < y1 { y1 as i64 - y0 as i64 } else { y0 as i64 - y1 as i64 };
    let xc: i64 = if x0 < x1 { 1 } else { -1 };
    let yc: i64 = if y0 < y1 { 1 } else { -1 };
    let ghost mut nk = k;
    proof {
        lemma_walk_end(
            x0 as int,
            y0 as int,
            x1 as int,
            y1 as int,
            i,
            k,
            xs as int,
            ys as int,
            err as int,
        );
        if xd >= yd {
            lemma_step_along_x(xd as int, yd as int, i, k, err as int);
            nk = if err < 2 * yd { k + 1 } else { k };
        } else {
            lemma_step_along_y(xd as int, yd as int, i, k, err as int);
            nk = if err > -2 * xd { k + 1 } else { k };
        }
    }
    let mut nx = xs;
    let mut ny = ys;
    let mut e = err;
    if err > -2 * xd {
        e = e - 2 * yd;
        nx = nx + xc;
    }
    if err < 2 * yd {
        e = e + 2 * xd;
        ny = ny + yc;
    }
    (nx, ny, e, Ghost(nk))
}

} // verus!
