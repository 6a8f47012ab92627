//! The seven buffer and record constructors.
//!
//! A point buffer is a `Vec<u32>` of single-precision bit patterns, three per
//! point in `(x, y, z)` order; a valid buffer's length is a multiple of three.
//! The two record constructors return plain structs whose fields stand in the
//! documented order.

use vstd::prelude::*;

verus! {

use crate::scalar;
use vstd::string::StringExecFns;

/// The one failure a constructor reports: an argument outside its documented
/// domain, with a descriptive message.
#[derive(Debug)]
pub enum GeomError {
    InvalidArgument(String),
}

/// Builds the three-element buffer `[x, y, z]` for a single point.
pub fn make_point(x: u32, y: u32, z: u32) -> (r: Vec<u32>)
    ensures
        r@ == seq![x, y, z],
{
    let mut out: Vec<u32> = Vec::new();
    out.push(x);
    out.push(y);
    out.push(z);
    proof {
        assert(out@ =~= seq![x, y, z]);
    }
    out
}

/// Copies a polyline buffer through unchanged, rejecting a length that is not
/// a multiple of three.
pub fn make_polyline(coords: &Vec<u32>) -> (r: Result<Vec<u32>, GeomError>)
    ensures
        coords@.len() % 3 == 0 <==> r is Ok,
        r is Ok ==> r->Ok_0@ == coords@,
        r is Err ==> (r->Err_0 matches GeomError::InvalidArgument(m)
            && m@ == "coords length must be multiple of 3"@),
{
    if coords.len() % 3 != 0 {
        return Err(GeomError::InvalidArgument(String::from_str(
            "coords length must be multiple of 3",
        )));
    }
    Ok(copy_buffer(coords))
}

/// The first and last point of the buffer coincide under IEEE-754 equality,
/// component by component.
pub open spec fn closes_exactly(s: Seq<u32>) -> bool
    recommends
        s.len() >= 6,
        s.len() % 3 == 0,
{
    let n: int = s.len() as int;
    &&& scalar::eq_bits(s[0], s[n - 3])
    &&& scalar::eq_bits(s[1], s[n - 2])
    &&& scalar::eq_bits(s[2], s[n - 1])
}

/// The closed ring built from `s`: `s` itself when its first and last point
/// already coincide, otherwise `s` with its first point repeated at the end.
pub open spec fn contour_points(s: Seq<u32>) -> Seq<u32> {
    if closes_exactly(s) {
        s
    } else {
        s + s.subrange(0, 3)
    }
}

/// Closes a contour of at least two points: the input comes back unchanged
/// when its first and last point already coincide exactly (no tolerance), and
/// gains a copy of its first point otherwise. A buffer shorter than two
/// points or of a length not a multiple of three is rejected.
pub fn make_contour(coords: &Vec<u32>) -> (r: Result<Vec<u32>, GeomError>)
    ensures
        (coords@.len() >= 6 && coords@.len() % 3 == 0) <==> r is Ok,
        r is Ok ==> r->Ok_0@ == contour_points(coords@),
        r is Err ==> (r->Err_0 matches GeomError::InvalidArgument(m)
            && m@ == "need at least 2 points"@),
{
    if coords.len() < 6 || coords.len() % 3 != 0 {
        return Err(GeomError::InvalidArgument(String::from_str("need at least 2 points")));
    }
    let n: usize = coords.len();
    let same: bool = scalar::scalar_eq(coords[0], coords[n - 3])
        && scalar::scalar_eq(coords[1], coords[n - 2])
        && scalar::scalar_eq(coords[2], coords[n - 1]);
    let mut out: Vec<u32> = copy_buffer(coords);
    if !same {
        out.push(coords[0]);
        out.push(coords[1]);
        out.push(coords[2]);
        proof {
            assert(out@ =~= coords@ + coords@.subrange(0, 3));
        }
    }
    Ok(out)
}

/// A well-formed contour argument either comes back unchanged (when it is
/// already closed) or gains exactly one point; either way the result's length
/// is still a multiple of three.
pub proof fn lemma_contour_length(s: Seq<u32>)
    requires
        s.len() >= 6,
        s.len() % 3 == 0,
    ensures
        closes_exactly(s) ==> contour_points(s) == s,
        !closes_exactly(s) ==> contour_points(s).len() == s.len() + 3,
        contour_points(s).len() % 3 == 0,
        contour_points(s).len() >= s.len(),
{
}

/// Closing a contour works: as long as no component of the first point is a
/// NaN, the ring that `contour_points` yields starts and ends on coinciding
/// points.
pub proof fn lemma_contour_closes(s: Seq<u32>)
    requires
        s.len() >= 6,
        s.len() % 3 == 0,
        !scalar::is_nan_bits(s[0]),
        !scalar::is_nan_bits(s[1]),
        !scalar::is_nan_bits(s[2]),
    ensures
        closes_exactly(contour_points(s)),
{
    if !closes_exactly(s) {
        let t = contour_points(s);
        let n: int = t.len() as int;
        assert(t[0] == s[0] && t[1] == s[1] && t[2] == s[2]);
        assert(t[n - 3] == s[0] && t[n - 2] == s[1] && t[n - 1] == s[2]);
    }
}

/// The offset in a matrix buffer of the first component of the point at row
/// `r`, column `c`, with `cols` columns per row.
pub open spec fn matrix_slot(r: int, c: int, cols: int) -> int {
    3 * (r * cols + c)
}

/// A slot in an earlier row lies strictly below a slot in a later row.
proof fn lemma_slot_in_prior_row(i: int, j: int, r: int, c: int, cols: int)
    by (nonlinear_arith)
    requires
        0 <= i < r,
        0 <= j < cols,
        0 <= c,
    ensures
        3 * (i * cols + j) + 3 <= 3 * (r * cols + c),
{
}

/// Lays out a `rows * cols` grid of points in row-major order: the row index
/// varies slower, and the point at row `r`, column `c` is
/// `(xs[c], ys[r], zs[r])`. The caller supplies the per-column x values and
/// the per-row y and z values; a zero `rows` or `cols` yields an empty
/// buffer.
#[verifier::rlimit(50)]
pub fn make_point_matrix(
    rows: u32,
    cols: u32,
    xs: &Vec<u32>,
    ys: &Vec<u32>,
    zs: &Vec<u32>,
) -> (out: Vec<u32>)
    requires
        xs@.len() == cols,
        ys@.len() == rows,
        zs@.len() == rows,
    ensures
        out@.len() == 3 * (rows as int) * (cols as int),
        forall|r: int, c: int|
            0 <= r < rows && 0 <= c < cols ==> {
                &&& #[trigger] out@[matrix_slot(r, c, cols as int)] == xs@[c]
                &&& out@[matrix_slot(r, c, cols as int) + 1] == ys@[r]
                &&& out@[matrix_slot(r, c, cols as int) + 2] == zs@[r]
            },
{
    let rows_n: usize = rows as usize;
    let cols_n: usize = cols as usize;
    let mut out: Vec<u32> = Vec::new();
    proof {
        assert(matrix_slot(0, 0, cols as int) == 0) by (nonlinear_arith);
    }
    let mut r: usize = 0;
    while r < rows_n
        invariant
            rows_n == rows,
            cols_n == cols,
            r <= rows_n,
            xs@.len() == cols,
            ys@.len() == rows,
            zs@.len() == rows,
            out@.len() == matrix_slot(r as int, 0, cols as int),
            forall|i: int, j: int|
                0 <= i < r && 0 <= j < cols ==> {
                    &&& #[trigger] out@[matrix_slot(i, j, cols as int)] == xs@[j]
                    &&& out@[matrix_slot(i, j, cols as int) + 1] == ys@[i]
                    &&& out@[matrix_slot(i, j, cols as int) + 2] == zs@[i]
                },
        decreases rows_n - r,
    {
        let mut c: usize = 0;
        while c < cols_n
            invariant
                rows_n == rows,
                cols_n == cols,
                r < rows_n,
                c <= cols_n,
                xs@.len() == cols,
                ys@.len() == rows,
                zs@.len() == rows,
                out@.len() == matrix_slot(r as int, c as int, cols as int),
                forall|i: int, j: int|
                    0 <= i < r && 0 <= j < cols ==> {
                        &&& #[trigger] out@[matrix_slot(i, j, cols as int)] == xs@[j]
                        &&& out@[matrix_slot(i, j, cols as int) + 1] == ys@[i]
                        &&& out@[matrix_slot(i, j, cols as int) + 2] == zs@[i]
                    },
                forall|j: int|
                    0 <= j < c ==> {
                        &&& #[trigger] out@[matrix_slot(r as int, j, cols as int)] == xs@[j]
                        &&& out@[matrix_slot(r as int, j, cols as int) + 1] == ys@[r as int]
                        &&& out@[matrix_slot(r as int, j, cols as int) + 2] == zs@[r as int]
                    },
            decreases cols_n - c,
        {
            let ghost pre = out@;
            let ghost base: int = pre.len() as int;
            out.push(xs[c]);
            out.push(ys[r]);
            out.push(zs[r]);
            proof {
                assert(out@ == pre.push(xs@[c as int]).push(ys@[r as int]).push(zs@[r as int]));
                assert(out@[base] == xs@[c as int]);
                assert(out@[base + 1] == ys@[r as int]);
                assert(out@[base + 2] == zs@[r as int]);
                assert(forall|k: int| 0 <= k < base ==> #[trigger] out@[k] == pre[k]);
                assert(base == matrix_slot(r as int, c as int, cols as int));
                assert forall|j: int| 0 <= j < c as int + 1 implies {
                    &&& out@[matrix_slot(r as int, j, cols as int)] == xs@[j]
                    &&& out@[matrix_slot(r as int, j, cols as int) + 1] == ys@[r as int]
                    &&& out@[matrix_slot(r as int, j, cols as int) + 2] == zs@[r as int]
                } by {
                    if j < c as int {
                        assert(pre[matrix_slot(r as int, j, cols as int)] == xs@[j]);
                        assert(pre[matrix_slot(r as int, j, cols as int) + 1] == ys@[r as int]);
                        assert(pre[matrix_slot(r as int, j, cols as int) + 2] == zs@[r as int]);
                        assert(matrix_slot(r as int, j, cols as int) + 3 <= base);
                    } else {
                        assert(matrix_slot(r as int, j, cols as int) == base);
                    }
                }
                assert forall|i: int, j: int| 0 <= i < r as int && 0 <= j < cols as int implies {
                    &&& out@[matrix_slot(i, j, cols as int)] == xs@[j]
                    &&& out@[matrix_slot(i, j, cols as int) + 1] == ys@[i]
                    &&& out@[matrix_slot(i, j, cols as int) + 2] == zs@[i]
                } by {
                    lemma_slot_in_prior_row(i, j, r as int, c as int, cols as int);
                    assert(pre[matrix_slot(i, j, cols as int)] == xs@[j]);
                    assert(pre[matrix_slot(i, j, cols as int) + 1] == ys@[i]);
                    assert(pre[matrix_slot(i, j, cols as int) + 2] == zs@[i]);
                }
            }
            c = c + 1;
        }
        proof {
            assert(matrix_slot(r as int, cols as int, cols as int)
                == matrix_slot(r as int + 1, 0, cols as int)) by (nonlinear_arith);
            assert forall|i: int, j: int| 0 <= i < r as int + 1 && 0 <= j < cols as int implies {
                &&& out@[matrix_slot(i, j, cols as int)] == xs@[j]
                &&& out@[matrix_slot(i, j, cols as int) + 1] == ys@[i]
                &&& out@[matrix_slot(i, j, cols as int) + 2] == zs@[i]
            } by {
                if i == r as int {
                    assert(out@[matrix_slot(r as int, j, cols as int)] == xs@[j]);
                    assert(out@[matrix_slot(r as int, j, cols as int) + 1] == ys@[r as int]);
                    assert(out@[matrix_slot(r as int, j, cols as int) + 2] == zs@[r as int]);
                }
            }
        }
        r = r + 1;
    }
    proof {
        assert(matrix_slot(rows as int, 0, cols as int) == 3 * (rows as int) * (cols as int))
            by (nonlinear_arith);
    }
    out
}

/// The four corners of a square of the given side, centered at the origin in
/// the plane `z = 0`, counter-clockwise from the bottom-left corner. With
/// `h` the half side, the points are `(-h,-h,0)`, `(h,-h,0)`, `(h,h,0)`,
/// `(-h,h,0)`.
pub open spec fn square_points(side: u32) -> Seq<u32> {
    let h: u32 = scalar::half_bits(side);
    let n: u32 = scalar::neg_bits(h);
    seq![n, n, 0u32, h, n, 0u32, h, h, 0u32, n, h, 0u32]
}

/// Builds the four corners of an origin-centered, axis-aligned square of the
/// given side in the plane `z = 0`, counter-clockwise from the bottom-left
/// corner. No closing point is appended: the buffer holds four points, not
/// five.
pub fn make_square(side: u32) -> (r: Vec<u32>)
    ensures
        r@ == square_points(side),
{
    let h: u32 = scalar::scalar_half(side);
    let n: u32 = scalar::scalar_neg(h);
    let mut out: Vec<u32> = Vec::new();
    out.push(n);
    out.push(n);
    out.push(0);
    out.push(h);
    out.push(n);
    out.push(0);
    out.push(h);
    out.push(h);
    out.push(0);
    out.push(n);
    out.push(h);
    out.push(0);
    proof {
        assert(out@ =~= square_points(side));
    }
    out
}

/// A marker record: a `position` point buffer first, then a scalar `size`.
pub struct Marker {
    pub position: Vec<u32>,
    pub size: u32,
}

/// Builds a marker at `(x, y, z)` with the given size.
pub fn make_marker(x: u32, y: u32, z: u32, size: u32) -> (r: Marker)
    ensures
        r.position@ == seq![x, y, z],
        r.size == size,
{
    Marker { position: make_point(x, y, z), size }
}

/// A text-anchored segment record: a `start` point buffer, an `end` point
/// buffer, then the `text` label.
pub struct TextLine {
    pub start: Vec<u32>,
    pub end: Vec<u32>,
    pub text: String,
}

/// Builds a labeled segment from `(x0, y0, z0)` to `(x1, y1, z1)` carrying
/// the given text unchanged.
pub fn make_text_line(
    x0: u32,
    y0: u32,
    z0: u32,
    x1: u32,
    y1: u32,
    z1: u32,
    text: String,
) -> (r: TextLine)
    ensures
        r.start@ == seq![x0, y0, z0],
        r.end@ == seq![x1, y1, z1],
        r.text@ == text@,
{
    TextLine { start: make_point(x0, y0, z0), end: make_point(x1, y1, z1), text }
}

/// Copies a buffer element by element into a fresh allocation.
fn copy_buffer(coords: &Vec<u32>) -> (r: Vec<u32>)
    ensures
        r@ == coords@,
{
    let mut out: Vec<u32> = Vec::new();
    let n: usize = coords.len();
    for i in 0..n
        invariant
            n == coords@.len(),
            out@ == coords@.subrange(0, i as int),
    {
        out.push(coords[i]);
        proof {
            assert(out@ =~= coords@.subrange(0, i + 1));
        }
    }
    proof {
        assert(coords@.subrange(0, n as int) =~= coords@);
    }
    out
}

} // verus!
