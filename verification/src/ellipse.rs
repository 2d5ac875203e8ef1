//! Ellipses: the builder samples one quarter of the ellipse at evenly
//! spaced angles and mirrors each sample into all four quadrants,
//! producing a triangle-strip-ready vertex order that starts at the left
//! extreme and ends at the right extreme.
//!
//! The sine and cosine of each sample angle arrive as fixed-point pairs
//! computed by the caller; they are the only trigonometric inputs.
//! Texture coordinates map the ellipse onto the unit circle, so a
//! fragment shader can discard pixels outside radius one.

use vstd::prelude::*;

use crate::canvas::{draw_transition, Canvas};
use crate::color::Color;
use crate::fixed::{fx_mul, fx_mul_exec, sat, tdiv, LIMIT, SCALE};
use crate::matrix::{spec_mul, spec_transform_point, translation_view, MatView, Matrix};
use crate::point::Point;
use crate::shape::{assign_vertex, draw, vertex_block, zero_vec, DescView, Shape};

verus! {

/// How many segments an `ellipse` call renders with.
pub const N_SEGMENTS: u32 = 64;

/// The largest segment count a builder accepts; keeps the flat vertex
/// array within address range.
pub const MAX_SEGMENTS: u32 = 0x0fff_ffff;

/// How many quarter-circle samples a build with `n` segments consumes.
pub open spec fn ellipse_quarter_count(n: nat) -> nat
    recommends
        n >= 2,
{
    if n % 4 == 0 {
        ((n - 4) / 4) as nat
    } else {
        ((n - 2) / 4) as nat
    }
}

/// Nine zeroes: the content of a vertex slot no case of the mirrored
/// fill writes.
pub open spec fn zero_block() -> Seq<i64> {
    Seq::new(9, |j: int| 0i64)
}

/// A texture coordinate: `(v / r + 1) / 2` in fixed point, mapping
/// `[-r, r]` onto `[0, SCALE]`.  A zero radius maps everything to zero.
pub open spec fn ellipse_uv(v: i64, r: i64) -> i64
    recommends
        r >= 0,
{
    if r == 0 {
        0
    } else {
        sat(tdiv(tdiv(v as int * SCALE, r as int) + SCALE, 2), LIMIT as int) as i64
    }
}

/// Exec counterpart of [`ellipse_uv`].
fn ellipse_uv_exec(v: i64, r: i64) -> (u: i64)
    requires
        r >= 0,
    ensures
        u == ellipse_uv(v, r),
{
    if r == 0 {
        return 0;
    }
    let num = crate::fixed::wide_mul(v, SCALE);
    let frac: i128 = num / (r as i128);
    proof {
        crate::fixed::lemma_mul_bound(
            v as int,
            SCALE as int,
            0x8000_0000_0000_0000,
            SCALE as int,
        );
        crate::fixed::lemma_tdiv_bound(
            num as int,
            r as int,
            0x8000_0000_0000_0000 * SCALE as int,
        );
    }
    let s: i128 = (frac + SCALE as i128) / 2;
    if s > LIMIT as i128 {
        LIMIT
    } else if s < -(LIMIT as i128) {
        -LIMIT
    } else {
        s as i64
    }
}

/// One written ellipse vertex: the sample point transformed, with its
/// unit-circle texture coordinates.
pub open spec fn ellipse_vertex(pt: Point, a: i64, b: i64, m: MatView, c: Color) -> Seq<i64> {
    vertex_block(spec_transform_point(m, pt), ellipse_uv(pt.x, a), ellipse_uv(pt.y, b), c)
}

/// The contents of vertex slot `k` for an ellipse with `n` segments,
/// half-width `a = width / 2` and half-height `b = height / 2`: the left
/// extreme first, the right extreme last, the bottom and top extremes in
/// the middle when `n` is a multiple of four, and each quarter sample
/// mirrored into the four quadrants — the lower half filling forward
/// from the left, the upper half filling backward from the right.  Any
/// slot no case reaches keeps its nine zeroes.
pub open spec fn ellipse_block(
    n: nat,
    width: i64,
    height: i64,
    samples: Seq<(i64, i64)>,
    m: MatView,
    col: Color,
    k: int,
) -> Seq<i64>
    recommends
        n >= 2,
        width >= 0,
        height >= 0,
{
    let a = tdiv(width as int, 2) as i64;
    let b = tdiv(height as int, 2) as i64;
    let q = ellipse_quarter_count(n) as int;
    let last = n as int - 1;
    let half = (SCALE as int / 2) as i64;
    if k == 0 {
        vertex_block(
            spec_transform_point(m, Point { x: (-(a as int)) as i64, y: 0, z: 0 }),
            0,
            half,
            col,
        )
    } else if k == last {
        vertex_block(spec_transform_point(m, Point { x: a, y: 0, z: 0 }), SCALE, half, col)
    } else if n % 4 == 0 && k == last / 2 {
        vertex_block(
            spec_transform_point(m, Point { x: 0, y: (-(b as int)) as i64, z: 0 }),
            half,
            0,
            col,
        )
    } else if n % 4 == 0 && k == last / 2 + 1 {
        vertex_block(spec_transform_point(m, Point { x: 0, y: b, z: 0 }), half, SCALE, col)
    } else if 1 <= k <= 2 * q && k % 2 == 1 {
        let i = (k + 1) / 2;
        let px = fx_mul(a as int, samples[i - 1].0 as int) as i64;
        let py = fx_mul(b as int, samples[i - 1].1 as int) as i64;
        ellipse_vertex(Point { x: px, y: (-(py as int)) as i64, z: 0 }, a, b, m, col)
    } else if 1 <= k <= 2 * q {
        let i = k / 2;
        let px = fx_mul(a as int, samples[i - 1].0 as int) as i64;
        let py = fx_mul(b as int, samples[i - 1].1 as int) as i64;
        ellipse_vertex(Point { x: px, y: py, z: 0 }, a, b, m, col)
    } else if last - 2 * q <= k <= last - 1 && (last - k) % 2 == 0 {
        let i = (last - k) / 2;
        let px = fx_mul(a as int, samples[i - 1].0 as int) as i64;
        let py = fx_mul(b as int, samples[i - 1].1 as int) as i64;
        ellipse_vertex(
            Point { x: (-(px as int)) as i64, y: (-(py as int)) as i64, z: 0 },
            a,
            b,
            m,
            col,
        )
    } else if last - 2 * q <= k <= last - 1 {
        let i = (last - k + 1) / 2;
        let px = fx_mul(a as int, samples[i - 1].0 as int) as i64;
        let py = fx_mul(b as int, samples[i - 1].1 as int) as i64;
        ellipse_vertex(Point { x: (-(px as int)) as i64, y: py, z: 0 }, a, b, m, col)
    } else {
        zero_block()
    }
}

/// Which slots the build has filled once the quarter samples up to
/// `upto` are mirrored in: the extremes, the middle pair when `n` is a
/// multiple of four, and the two growing mirrored bands.
pub open spec fn ellipse_written(n: int, upto: int, k: int) -> bool {
    ||| k == 0
    ||| k == n - 1
    ||| (n % 4 == 0 && (k == (n - 1) / 2 || k == (n - 1) / 2 + 1))
    ||| (1 <= k <= 2 * upto)
    ||| (n - 1 - 2 * upto <= k <= n - 2)
}

/// A write into one nine-value slot leaves every other slot unchanged.
proof fn lemma_write_preserves_slots(pre: Seq<i64>, post: Seq<i64>, t: int, n: int)
    requires
        pre.len() == post.len(),
        pre.len() == 9 * n,
        0 <= t < n,
        forall|j: int| 0 <= j < post.len() && !(9 * t <= j < 9 * t + 9) ==> post[j] == pre[j],
    ensures
        forall|k: int|
            0 <= k < n && k != t ==> #[trigger] post.subrange(9 * k, 9 * k + 9) == pre.subrange(
                9 * k,
                9 * k + 9,
            ),
{
    assert forall|k: int|
        0 <= k < n && k != t implies #[trigger] post.subrange(9 * k, 9 * k + 9) == pre.subrange(
        9 * k,
        9 * k + 9,
    ) by {
        assert(post.subrange(9 * k, 9 * k + 9) =~= pre.subrange(9 * k, 9 * k + 9));
    }
}

/// A built ellipse, ready to draw.
#[derive(Debug)]
pub struct Ellipse {
    pub vertex_data: Vec<i64>,
    pub index_data: Vec<u32>,
    pub n_segments: u32,
    pub is_stroke: bool,
}

impl Ellipse {
    /// Build an ellipse around the transform's origin.  The caller
    /// supplies one fixed-point (sine, cosine) pair per quarter sample,
    /// taken at evenly spaced angles; the transform already carries the
    /// ellipse's center.
    #[verifier::rlimit(100)]
    pub fn new(
        width: i64,
        height: i64,
        n_segments: u32,
        is_stroke: bool,
        samples: &Vec<(i64, i64)>,
        transform: &Matrix,
        color: Color,
    ) -> (e: Ellipse)
        requires
            0 <= width <= LIMIT,
            0 <= height <= LIMIT,
            2 <= n_segments <= MAX_SEGMENTS,
            samples@.len() >= ellipse_quarter_count(n_segments as nat),
            forall|j: int|
                0 <= j < samples@.len() ==> -SCALE <= (#[trigger] samples@[j]).0 <= SCALE && -SCALE
                    <= samples@[j].1 <= SCALE,
            transform.wf(),
            transform@.rows == 4,
            transform@.cols == 4,
        ensures
            e.vertex_data@.len() == 9 * n_segments,
            forall|k: int|
                0 <= k < n_segments ==> #[trigger] e.vertex_data@.subrange(9 * k, 9 * k + 9)
                    == ellipse_block(
                    n_segments as nat,
                    width,
                    height,
                    samples@,
                    transform@,
                    color,
                    k,
                ),
            e.index_data@.len() == n_segments,
            forall|i: int| 0 <= i < n_segments ==> #[trigger] e.index_data@[i] == i as u32,
            e.n_segments == n_segments,
            e.is_stroke == is_stroke,
    {
        let ghost gn = n_segments as nat;
        let n = n_segments as usize;
        let a = width / 2;
        let b = height / 2;
        let half = SCALE / 2;
        let last = n - 1;
        let mut vd = zero_vec(9 * n);
        proof {
            assert forall|k: int|
                0 <= k < n implies #[trigger] vd@.subrange(9 * k, 9 * k + 9)
                == zero_block() by {
                assert(vd@.subrange(9 * k, 9 * k + 9) =~= zero_block());
            }
        }
        let p0 = Point { x: -a, y: 0, z: 0 };
        let t0 = transform.transform_point(&p0);
        let ghost vd0 = vd@;
        assign_vertex(&mut vd, 0, &t0, 0, half, &color);
        proof {
            lemma_write_preserves_slots(vd0, vd@, 0, n as int);
            assert(vd@.subrange(0, 9) == ellipse_block(
                gn,
                width,
                height,
                samples@,
                transform@,
                color,
                0,
            ));
        }
        let pl = Point { x: a, y: 0, z: 0 };
        let tl = transform.transform_point(&pl);
        let ghost vd1 = vd@;
        assign_vertex(&mut vd, last * 9, &tl, SCALE, half, &color);
        proof {
            lemma_write_preserves_slots(vd1, vd@, last as int, n as int);
            assert(vd@.subrange(9 * (last as int), 9 * (last as int) + 9) == ellipse_block(
                gn,
                width,
                height,
                samples@,
                transform@,
                color,
                last as int,
            ));
        }
        if n_segments % 4 == 0 {
            let ci = last / 2;
            let pb = Point { x: 0, y: -b, z: 0 };
            let tb = transform.transform_point(&pb);
            let ghost vd2 = vd@;
            assign_vertex(&mut vd, ci * 9, &tb, half, 0, &color);
            proof {
                lemma_write_preserves_slots(vd2, vd@, ci as int, n as int);
                assert(vd@.subrange(9 * (ci as int), 9 * (ci as int) + 9) == ellipse_block(
                    gn,
                    width,
                    height,
                    samples@,
                    transform@,
                    color,
                    ci as int,
                ));
            }
            let pt = Point { x: 0, y: b, z: 0 };
            let tt = transform.transform_point(&pt);
            let ghost vd3 = vd@;
            assign_vertex(&mut vd, (ci + 1) * 9, &tt, half, SCALE, &color);
            proof {
                lemma_write_preserves_slots(vd3, vd@, ci as int + 1, n as int);
                assert(vd@.subrange(9 * (ci as int + 1), 9 * (ci as int + 1) + 9) == ellipse_block(
                    gn,
                    width,
                    height,
                    samples@,
                    transform@,
                    color,
                    ci as int + 1,
                ));
            }
        }
        let q: usize = if n_segments % 4 == 0 {
            (n - 4) / 4
        } else {
            (n - 2) / 4
        };
        proof {
            assert(q == ellipse_quarter_count(gn));
            if n_segments % 4 == 0 {
                vstd::arithmetic::div_mod::lemma_fundamental_div_mod(n as int - 4, 4);
                vstd::arithmetic::div_mod::lemma_mod_bound(n as int - 4, 4);
                vstd::arithmetic::div_mod::lemma_mod_sub_multiples_vanish(n as int, 4);
                assert(4 * (q as int) == n - 4);
                vstd::arithmetic::div_mod::lemma_fundamental_div_mod_converse(
                    4 * (q as int) + 3,
                    2,
                    2 * (q as int) + 1,
                    1,
                );
                assert((n as int - 1) / 2 == 2 * (q as int) + 1);
            } else {
                vstd::arithmetic::div_mod::lemma_fundamental_div_mod(n as int - 2, 4);
                vstd::arithmetic::div_mod::lemma_mod_bound(n as int - 2, 4);
                assert(4 * (q as int) <= n - 2);
            }
            assert forall|k: int|
                0 <= k < n implies #[trigger] vd@.subrange(9 * k, 9 * k + 9) == (
            if ellipse_written(n as int, 0, k) {
                ellipse_block(gn, width, height, samples@, transform@, color, k)
            } else {
                zero_block()
            }) by {}
        }
        let mut i: usize = 1;
        while i <= q
            invariant
                1 <= i,
                i <= q + 1,
                n == n_segments,
                2 <= n_segments <= MAX_SEGMENTS,
                0 <= width <= LIMIT,
                0 <= height <= LIMIT,
                a == width / 2,
                b == height / 2,
                half == SCALE / 2,
                last == n - 1,
                q == ellipse_quarter_count(gn),
                4 * (q as int) <= n as int - 2,
                n_segments % 4 == 0 ==> 4 * (q as int) == n as int - 4 && (n as int - 1) / 2 == 2
                    * (q as int) + 1,
                gn == n_segments as nat,
                samples@.len() >= q,
                forall|j: int|
                    0 <= j < samples@.len() ==> -SCALE <= (#[trigger] samples@[j]).0 <= SCALE
                        && -SCALE <= samples@[j].1 <= SCALE,
                transform.wf(),
                transform@.rows == 4,
                transform@.cols == 4,
                vd@.len() == 9 * n,
                forall|k: int|
                    0 <= k < n ==> #[trigger] vd@.subrange(9 * k, 9 * k + 9) == (
                    if ellipse_written(n as int, i - 1, k) {
                        ellipse_block(gn, width, height, samples@, transform@, color, k)
                    } else {
                        zero_block()
                    }),
            decreases q + 1 - i,
        {
            let pair = samples[i - 1];
            let px = fx_mul_exec(a, pair.0);
            let py = fx_mul_exec(b, pair.1);
            let u_px = ellipse_uv_exec(px, a);
            let u_mpx = ellipse_uv_exec(-px, a);
            let v_py = ellipse_uv_exec(py, b);
            let v_mpy = ellipse_uv_exec(-py, b);
            let bl = Point { x: px, y: -py, z: 0 };
            let tlp = Point { x: px, y: py, z: 0 };
            let br = Point { x: -px, y: -py, z: 0 };
            let tr = Point { x: -px, y: py, z: 0 };
            let w_bl = transform.transform_point(&bl);
            let w_tl = transform.transform_point(&tlp);
            let w_br = transform.transform_point(&br);
            let w_tr = transform.transform_point(&tr);
            let ghost before = vd@;
            let k1 = 2 * i - 1;
            assign_vertex(&mut vd, k1 * 9, &w_bl, u_px, v_mpy, &color);
            proof {
                lemma_write_preserves_slots(before, vd@, k1 as int, n as int);
            }
            let ghost s1 = vd@;
            let k2 = 2 * i;
            assign_vertex(&mut vd, k2 * 9, &w_tl, u_px, v_py, &color);
            proof {
                lemma_write_preserves_slots(s1, vd@, k2 as int, n as int);
            }
            let ghost s2 = vd@;
            let k3 = last - 2 * i;
            assign_vertex(&mut vd, k3 * 9, &w_br, u_mpx, v_mpy, &color);
            proof {
                lemma_write_preserves_slots(s2, vd@, k3 as int, n as int);
            }
            let ghost s3 = vd@;
            let k4 = last - 2 * i + 1;
            assign_vertex(&mut vd, k4 * 9, &w_tr, u_mpx, v_py, &color);
            proof {
                lemma_write_preserves_slots(s3, vd@, k4 as int, n as int);
                assert forall|k: int|
                    0 <= k < n implies #[trigger] vd@.subrange(9 * k, 9 * k + 9) == (
                if ellipse_written(n as int, i as int, k) {
                    ellipse_block(gn, width, height, samples@, transform@, color, k)
                } else {
                    zero_block()
                }) by {
                    if k == k1 as int {
                        assert(vd@.subrange(9 * k, 9 * k + 9) == s1.subrange(9 * k, 9 * k + 9));
                        assert(s1.subrange(9 * k, 9 * k + 9) == vertex_block(
                            spec_transform_point(transform@, bl),
                            u_px,
                            v_mpy,
                            color,
                        ));
                        assert((k + 1) / 2 == i);
                        assert(k % 2 == 1);
                        assert(ellipse_block(gn, width, height, samples@, transform@, color, k)
                            == ellipse_vertex(bl, a, b, transform@, color));
                    } else if k == k2 as int {
                        assert(vd@.subrange(9 * k, 9 * k + 9) == s2.subrange(9 * k, 9 * k + 9));
                        assert(s2.subrange(9 * k, 9 * k + 9) == vertex_block(
                            spec_transform_point(transform@, tlp),
                            u_px,
                            v_py,
                            color,
                        ));
                        assert(k / 2 == i);
                        assert(k % 2 == 0);
                        assert(ellipse_block(gn, width, height, samples@, transform@, color, k)
                            == ellipse_vertex(tlp, a, b, transform@, color));
                    } else if k == k3 as int {
                        assert(vd@.subrange(9 * k, 9 * k + 9) == s3.subrange(9 * k, 9 * k + 9));
                        assert(s3.subrange(9 * k, 9 * k + 9) == vertex_block(
                            spec_transform_point(transform@, br),
                            u_mpx,
                            v_mpy,
                            color,
                        ));
                        assert((n as int - 1 - k) == 2 * i);
                        assert((n as int - 1 - k) % 2 == 0);
                        assert((n as int - 1 - k) / 2 == i);
                        assert(ellipse_block(gn, width, height, samples@, transform@, color, k)
                            == ellipse_vertex(br, a, b, transform@, color));
                    } else if k == k4 as int {
                        assert(vd@.subrange(9 * k, 9 * k + 9) == vertex_block(
                            spec_transform_point(transform@, tr),
                            u_mpx,
                            v_py,
                            color,
                        ));
                        assert((n as int - 1 - k) == 2 * i - 1);
                        assert((n as int - 1 - k) % 2 == 1);
                        assert((n as int - 1 - k + 1) / 2 == i);
                        assert(ellipse_block(gn, width, height, samples@, transform@, color, k)
                            == ellipse_vertex(tr, a, b, transform@, color));
                    } else {
                        assert(vd@.subrange(9 * k, 9 * k + 9) == before.subrange(9 * k, 9 * k + 9));
                        assert(ellipse_written(n as int, i as int, k) == ellipse_written(
                            n as int,
                            i - 1,
                            k,
                        ));
                    }
                }
            }
            i = i + 1;
        }
        proof {
            assert forall|k: int|
                0 <= k < n_segments implies #[trigger] vd@.subrange(9 * k, 9 * k + 9)
                == ellipse_block(gn, width, height, samples@, transform@, color, k) by {
                if !ellipse_written(n as int, q as int, k) {
                    assert(ellipse_block(gn, width, height, samples@, transform@, color, k)
                        == zero_block());
                }
            }
        }
        let mut id: Vec<u32> = Vec::new();
        let mut j: usize = 0;
        while j < n
            invariant
                j <= n,
                n == n_segments,
                n_segments <= MAX_SEGMENTS,
                id@.len() == j,
                forall|t: int| 0 <= t < j ==> #[trigger] id@[t] == t as u32,
            decreases n - j,
        {
            id.push(j as u32);
            j = j + 1;
        }
        Ellipse { vertex_data: vd, index_data: id, n_segments, is_stroke }
    }
}

/// The flat vertex array of a built ellipse, slot by slot.
pub open spec fn spec_ellipse_vertex_data(
    n: nat,
    width: i64,
    height: i64,
    samples: Seq<(i64, i64)>,
    m: MatView,
    col: Color,
) -> Seq<i64> {
    Seq::new(
        9 * n,
        |j: int| ellipse_block(n, width, height, samples, m, col, j / 9)[j % 9],
    )
}

/// The canonical descriptor of an ellipse draw; the transform `m`
/// already carries the center translation.
pub open spec fn ellipse_descriptor_view(
    n: nat,
    width: i64,
    height: i64,
    samples: Seq<(i64, i64)>,
    m: MatView,
    col: Color,
    is_stroke: bool,
) -> DescView {
    DescView {
        vertex_data: spec_ellipse_vertex_data(n, width, height, samples, m, col),
        index_data: Seq::new(n, |i: int| i as u32),
        vertex_shader: None,
        fragment_shader: None,
        is_stroke: is_stroke,
    }
}

/// A vertex array whose every nine-value slot matches `ellipse_block`
/// is, value for value, the flat ellipse vertex array.
pub proof fn lemma_slots_to_flat(
    vd: Seq<i64>,
    n: nat,
    width: i64,
    height: i64,
    samples: Seq<(i64, i64)>,
    m: MatView,
    col: Color,
)
    requires
        vd.len() == 9 * n,
        forall|k: int|
            0 <= k < n ==> #[trigger] vd.subrange(9 * k, 9 * k + 9) == ellipse_block(
                n,
                width,
                height,
                samples,
                m,
                col,
                k,
            ),
    ensures
        vd =~= spec_ellipse_vertex_data(n, width, height, samples, m, col),
{
    assert forall|j: int|
        0 <= j < vd.len() implies vd[j] == spec_ellipse_vertex_data(
        n,
        width,
        height,
        samples,
        m,
        col,
    )[j] by {
        let k = j / 9;
        let r = j % 9;
        vstd::arithmetic::div_mod::lemma_fundamental_div_mod(j, 9);
        vstd::arithmetic::div_mod::lemma_mod_bound(j, 9);
        assert(0 <= k < n) by {
            vstd::arithmetic::div_mod::lemma_div_pos_is_pos(j, 9);
            if k >= n {
                assert(9 * k >= 9 * n) by (nonlinear_arith)
                    requires
                        k >= n,
                ;
            }
        }
        assert(vd.subrange(9 * k, 9 * k + 9)[r] == vd[9 * k + r]);
        assert(vd[j] == ellipse_block(n, width, height, samples, m, col, k)[r]);
    }
}

impl Canvas {
    /// Draw a filled ellipse of the given width and height around
    /// `center`, under the current transform and fill color, with
    /// [`N_SEGMENTS`] segments.  `samples` holds one fixed-point
    /// (sine, cosine) pair per quarter sample.
    pub fn ellipse(&mut self, center: Point, width: i64, height: i64, samples: &Vec<(i64, i64)>)
        requires
            old(self).wf(),
            center.bounded(),
            0 <= width <= LIMIT,
            0 <= height <= LIMIT,
            samples@.len() >= ellipse_quarter_count(N_SEGMENTS as nat),
            forall|j: int|
                0 <= j < samples@.len() ==> -SCALE <= (#[trigger] samples@[j]).0 <= SCALE && -SCALE
                    <= samples@[j].1 <= SCALE,
            old(self).next_object_id < u64::MAX,
        ensures
            final(self).wf(),
            draw_transition(
                *old(self),
                *final(self),
                ellipse_descriptor_view(
                    N_SEGMENTS as nat,
                    width,
                    height,
                    samples@,
                    spec_mul(
                        spec_mul(
                            old(self).sketch.transformation@,
                            old(self).transformations.top(),
                        ),
                        translation_view(center),
                    ),
                    old(self).sketch.fill,
                    false,
                ),
            ),
    {
        let mut tm = self.sketch.transformation.duplicate();
        tm.mul(self.transformations.current());
        let centering = Matrix::translation(center);
        tm.mul(&centering);
        let color = self.sketch.fill;
        let shape = Ellipse::new(width, height, N_SEGMENTS, false, samples, &tm, color);
        proof {
            lemma_slots_to_flat(
                shape.vertex_data@,
                N_SEGMENTS as nat,
                width,
                height,
                samples@,
                tm@,
                color,
            );
            assert(shape.index_data@ =~= Seq::new(N_SEGMENTS as nat, |i: int| i as u32));
        }
        draw(&shape, self);
    }
}

impl Shape for Ellipse {
    open spec fn model(&self) -> DescView {
        DescView {
            vertex_data: self.vertex_data@,
            index_data: self.index_data@,
            vertex_shader: None,
            fragment_shader: None,
            is_stroke: self.is_stroke,
        }
    }

    fn vertex_data(&self) -> (r: &Vec<i64>) {
        &self.vertex_data
    }

    fn index_data(&self) -> (r: &Vec<u32>) {
        &self.index_data
    }

    fn vertex_shader(&self) -> (r: Option<String>) {
        None
    }

    fn fragment_shader(&self) -> (r: Option<String>) {
        None
    }

    fn is_stroke(&self) -> (r: bool) {
        self.is_stroke
    }
}

} // verus!
