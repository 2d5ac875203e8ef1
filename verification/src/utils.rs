//! Small geometric helpers shared by the geometry builders.

use vstd::prelude::*;

use crate::fixed::{sat, tdiv, wide_mul, LIMIT};
use crate::point::Point;

verus! {

/// The position of entry (`col`, `row`) in a column-major matrix with
/// `rows` rows.
pub open spec fn spec_index(col: int, row: int, rows: int) -> int {
    col * rows + row
}

/// Exec counterpart of [`spec_index`].
pub fn index(col: usize, row: usize, rows: usize) -> (i: usize)
    requires
        col * rows + row <= usize::MAX,
    ensures
        i == spec_index(col as int, row as int, rows as int),
{
    col * rows + row
}

/// Twice the signed area of the triangle (`p1`, `p2`, `p3`): positive
/// exactly when the three points wind anti-clockwise.
pub open spec fn signed_area2(p1: Point, p2: Point, p3: Point) -> int {
    (p2.x - p1.x) * (p3.y - p1.y) - (p3.x - p1.x) * (p2.y - p1.y)
}

/// Swapping the first two vertices flips the sign of the signed area.
pub proof fn lemma_swap_negates_area(p1: Point, p2: Point, p3: Point)
    ensures
        signed_area2(p2, p1, p3) == -signed_area2(p1, p2, p3),
{
    assert((p1.x - p2.x) * (p3.y - p2.y) - (p3.x - p2.x) * (p1.y - p2.y)
        == -((p2.x - p1.x) * (p3.y - p1.y) - (p3.x - p1.x) * (p2.y - p1.y)))
        by (nonlinear_arith);
}

/// Whether the three points wind anti-clockwise, decided by the sign of
/// the cross product of the two edge vectors out of `p1`.
pub fn have_anticlockwise_winding(p1: &Point, p2: &Point, p3: &Point) -> (r: bool)
    requires
        p1.bounded(),
        p2.bounded(),
        p3.bounded(),
    ensures
        r == (signed_area2(*p1, *p2, *p3) > 0),
{
    let u = wide_mul(p2.x - p1.x, p3.y - p1.y);
    let v = wide_mul(p3.x - p1.x, p2.y - p1.y);
    proof {
        crate::fixed::lemma_mul_bound(
            p2.x - p1.x,
            p3.y - p1.y,
            2 * LIMIT as int,
            2 * LIMIT as int,
        );
        crate::fixed::lemma_mul_bound(
            p3.x - p1.x,
            p2.y - p1.y,
            2 * LIMIT as int,
            2 * LIMIT as int,
        );
    }
    let c = u - v;
    c > 0
}

/// The left, top, right and bottom extremes of a point list, as the
/// coordinate-wise minima and maxima.  An empty list yields the
/// empty band (`i64::MAX` minima against `i64::MIN` maxima).
pub fn bounding_box(points: &Vec<Point>) -> (r: (i64, i64, i64, i64))
    ensures
        forall|i: int| 0 <= i < points@.len() ==> r.0 <= #[trigger] points@[i].x,
        forall|i: int| 0 <= i < points@.len() ==> r.3 <= #[trigger] points@[i].y,
        forall|i: int| 0 <= i < points@.len() ==> r.2 >= #[trigger] points@[i].x,
        forall|i: int| 0 <= i < points@.len() ==> r.1 >= #[trigger] points@[i].y,
        points@.len() > 0 ==> (exists|i: int|
            0 <= i < points@.len() && r.0 == #[trigger] points@[i].x),
        points@.len() > 0 ==> (exists|i: int|
            0 <= i < points@.len() && r.3 == #[trigger] points@[i].y),
        points@.len() > 0 ==> (exists|i: int|
            0 <= i < points@.len() && r.2 == #[trigger] points@[i].x),
        points@.len() > 0 ==> (exists|i: int|
            0 <= i < points@.len() && r.1 == #[trigger] points@[i].y),
        points@.len() == 0 ==> r == (i64::MAX, i64::MIN, i64::MIN, i64::MAX),
{
    let mut left: i64 = i64::MAX;
    let mut bottom: i64 = i64::MAX;
    let mut right: i64 = i64::MIN;
    let mut top: i64 = i64::MIN;

    let mut k: usize = 0;
    while k < points.len()
        invariant
            k <= points@.len(),
            forall|i: int| 0 <= i < k ==> left <= #[trigger] points@[i].x,
            forall|i: int| 0 <= i < k ==> bottom <= #[trigger] points@[i].y,
            forall|i: int| 0 <= i < k ==> right >= #[trigger] points@[i].x,
            forall|i: int| 0 <= i < k ==> top >= #[trigger] points@[i].y,
            k > 0 ==> (exists|i: int| 0 <= i < k && left == #[trigger] points@[i].x),
            k > 0 ==> (exists|i: int| 0 <= i < k && bottom == #[trigger] points@[i].y),
            k > 0 ==> (exists|i: int| 0 <= i < k && right == #[trigger] points@[i].x),
            k > 0 ==> (exists|i: int| 0 <= i < k && top == #[trigger] points@[i].y),
            k == 0 ==> left == i64::MAX && bottom == i64::MAX && right == i64::MIN
                && top == i64::MIN,
        decreases points@.len() - k,
    {
        let p = &points[k];
        if p.x < left {
            left = p.x;
        }
        if p.y < bottom {
            bottom = p.y;
        }
        if p.x > right {
            right = p.x;
        }
        if p.y > top {
            top = p.y;
        }
        k = k + 1;
    }
    (left, top, right, bottom)
}

/// Linear interpolation of `iv` from the band `[il, iu]` into `[ol, ou]`,
/// in fixed point.  A degenerate input band maps everything to `ol`.
pub open spec fn spec_map(iv: int, il: int, iu: int, ol: int, ou: int) -> int {
    if iu == il {
        ol
    } else if iu > il {
        sat(ol + tdiv((ou - ol) * (iv - il), iu - il), LIMIT as int)
    } else {
        sat(ol + tdiv((ol - ou) * (iv - il), il - iu), LIMIT as int)
    }
}

/// Exec counterpart of [`spec_map`].
pub fn map_i64(iv: i64, il: i64, iu: i64, ol: i64, ou: i64) -> (r: i64)
    requires
        -LIMIT <= iv <= LIMIT,
        -LIMIT <= il <= LIMIT,
        -LIMIT <= iu <= LIMIT,
        -LIMIT <= ol <= LIMIT,
        -LIMIT <= ou <= LIMIT,
    ensures
        r == spec_map(iv as int, il as int, iu as int, ol as int, ou as int),
{
    if iu == il {
        return ol;
    }
    let num: i128 = if iu > il {
        wide_mul(ou - ol, iv - il)
    } else {
        wide_mul(ol - ou, iv - il)
    };
    let den: i64 = if iu > il {
        iu - il
    } else {
        il - iu
    };
    proof {
        crate::fixed::lemma_mul_bound(
            if iu > il { ou - ol } else { ol - ou },
            iv - il,
            2 * LIMIT as int,
            2 * LIMIT as int,
        );
    }
    let q: i128 = num / (den as i128);
    proof {
        crate::fixed::lemma_tdiv_bound(num as int, den as int, 4 * LIMIT as int * LIMIT as int);
    }
    let s: i128 = (ol as i128) + q;
    if s > LIMIT as i128 {
        LIMIT
    } else if s < -(LIMIT as i128) {
        -LIMIT
    } else {
        s as i64
    }
}

} // verus!
