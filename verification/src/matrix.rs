//! Column-major matrices over fixed-point entries, and the elementary
//! transforms (translation, rotation, scaling, shearing) composed onto
//! them.
//!
//! A rotation is built from the sine and cosine of its angle, handed in
//! as fixed-point values; only those two numbers ever depend on
//! floating-point trigonometry, and they are computed by the caller.

use vstd::prelude::*;

use crate::fixed::{lemma_mul_bound, sat, sat_div_wide, tdiv, wide_mul, LIMIT, SCALE};
use crate::point::Point;

verus! {

/// The largest row or column count a matrix may have; keeps every dot
/// product inside a 128-bit intermediate.
pub const MAX_DIM: usize = 4096;

/// The mathematical value of a matrix: its dimensions and its entries in
/// column-major order.
pub ghost struct MatView {
    pub rows: nat,
    pub cols: nat,
    pub m: Seq<int>,
}

impl MatView {
    pub open spec fn wf(self) -> bool {
        &&& 1 <= self.rows <= MAX_DIM
        &&& 1 <= self.cols <= MAX_DIM
        &&& self.m.len() == self.rows * self.cols
        &&& forall|k: int| 0 <= k < self.m.len() ==> -LIMIT <= #[trigger] self.m[k] <= LIMIT
    }

    /// The entry in column `col`, row `row`.
    pub open spec fn entry(self, col: int, row: int) -> int {
        self.m[col * self.rows + row]
    }
}

/// The sum of the first `k` products pairing row `row` of `a` with
/// column `col` of `b`.
pub open spec fn sum_prod(a: MatView, b: MatView, col: int, row: int, k: int) -> int
    decreases k,
{
    if k <= 0 {
        0
    } else {
        sum_prod(a, b, col, row, k - 1) + a.entry(k - 1, row) * b.entry(col, k - 1)
    }
}

/// The matrix product `a * b` in fixed point: each entry is the scaled
/// dot product, truncated toward zero and saturated at `LIMIT`.  When the
/// dimensions do not line up the product is left undefined and `a` is
/// returned unchanged, mirroring the executable no-op.
pub open spec fn spec_mul(a: MatView, b: MatView) -> MatView {
    if a.cols != b.rows {
        a
    } else {
        MatView {
            rows: a.rows,
            cols: b.cols,
            m: Seq::new(
                b.cols * a.rows,
                |k: int|
                    sat(
                        tdiv(
                            sum_prod(a, b, k / (a.rows as int), k % (a.rows as int), a.cols as int),
                            SCALE as int,
                        ),
                        LIMIT as int,
                    ),
            ),
        }
    }
}

/// The identity over `w` columns and `h` rows: `SCALE` on the diagonal.
pub open spec fn identity_view(w: nat, h: nat) -> MatView {
    MatView {
        rows: h,
        cols: w,
        m: Seq::new(
            w * h,
            |k: int| if k / (h as int) == k % (h as int) { SCALE as int } else { 0 },
        ),
    }
}

/// A 4x4 view built from sixteen column-major entries.
pub open spec fn mat4_view(m: Seq<int>) -> MatView {
    MatView { rows: 4, cols: 4, m: m }
}

/// The elementary translation by `p`.
pub open spec fn translation_view(p: Point) -> MatView {
    mat4_view(
        Seq::new(
            16,
            |k: int|
                if k == 12 {
                    p.x as int
                } else if k == 13 {
                    p.y as int
                } else if k == 14 {
                    p.z as int
                } else if k == 0 || k == 5 || k == 10 || k == 15 {
                    SCALE as int
                } else {
                    0
                },
        ),
    )
}

/// The elementary rotation about the x axis with sine `s`, cosine `c`.
pub open spec fn rotation_x_view(s: int, c: int) -> MatView {
    mat4_view(
        Seq::new(
            16,
            |k: int|
                if k == 5 || k == 10 {
                    c
                } else if k == 6 {
                    s
                } else if k == 9 {
                    -s
                } else if k == 0 || k == 15 {
                    SCALE as int
                } else {
                    0
                },
        ),
    )
}

/// The elementary rotation about the y axis with sine `s`, cosine `c`.
pub open spec fn rotation_y_view(s: int, c: int) -> MatView {
    mat4_view(
        Seq::new(
            16,
            |k: int|
                if k == 0 || k == 10 {
                    c
                } else if k == 8 {
                    s
                } else if k == 2 {
                    -s
                } else if k == 5 || k == 15 {
                    SCALE as int
                } else {
                    0
                },
        ),
    )
}

/// The elementary rotation about the z axis with sine `s`, cosine `c`.
pub open spec fn rotation_z_view(s: int, c: int) -> MatView {
    mat4_view(
        Seq::new(
            16,
            |k: int|
                if k == 0 || k == 5 {
                    c
                } else if k == 1 {
                    s
                } else if k == 4 {
                    -s
                } else if k == 10 || k == 15 {
                    SCALE as int
                } else {
                    0
                },
        ),
    )
}

/// The elementary non-uniform scaling by `f`.
pub open spec fn scaling_view(f: Point) -> MatView {
    mat4_view(
        Seq::new(
            16,
            |k: int|
                if k == 0 {
                    f.x as int
                } else if k == 5 {
                    f.y as int
                } else if k == 10 {
                    f.z as int
                } else if k == 15 {
                    SCALE as int
                } else {
                    0
                },
        ),
    )
}

/// The elementary shear along x by `o`.
pub open spec fn shear_x_view(o: int) -> MatView {
    mat4_view(
        Seq::new(
            16,
            |k: int|
                if k == 4 {
                    o
                } else if k == 0 || k == 5 || k == 10 || k == 15 {
                    SCALE as int
                } else {
                    0
                },
        ),
    )
}

/// The elementary shear along y by `o`.
pub open spec fn shear_y_view(o: int) -> MatView {
    mat4_view(
        Seq::new(
            16,
            |k: int|
                if k == 1 {
                    o
                } else if k == 0 || k == 5 || k == 10 || k == 15 {
                    SCALE as int
                } else {
                    0
                },
        ),
    )
}

/// An affine 4x4 view applied to a point: each coordinate is the scaled
/// dot product of a matrix row with `(x, y, z, 1)`, saturated at `LIMIT`.
pub open spec fn spec_transform_point(a: MatView, p: Point) -> Point {
    Point {
        x: sat(
            tdiv(
                a.entry(0, 0) * p.x + a.entry(1, 0) * p.y + a.entry(2, 0) * p.z + a.entry(3, 0)
                    * SCALE,
                SCALE as int,
            ),
            LIMIT as int,
        ) as i64,
        y: sat(
            tdiv(
                a.entry(0, 1) * p.x + a.entry(1, 1) * p.y + a.entry(2, 1) * p.z + a.entry(3, 1)
                    * SCALE,
                SCALE as int,
            ),
            LIMIT as int,
        ) as i64,
        z: sat(
            tdiv(
                a.entry(0, 2) * p.x + a.entry(1, 2) * p.y + a.entry(2, 2) * p.z + a.entry(3, 2)
                    * SCALE,
                SCALE as int,
            ),
            LIMIT as int,
        ) as i64,
    }
}

/// A matrix with fixed-point entries, stored in column-major order.
#[derive(Debug)]
pub struct Matrix {
    pub rows: usize,
    pub cols: usize,
    pub matrix: Vec<i64>,
}

impl View for Matrix {
    type V = MatView;

    open spec fn view(&self) -> MatView {
        MatView {
            rows: self.rows as nat,
            cols: self.cols as nat,
            m: Seq::new(self.matrix@.len(), |k: int| self.matrix@[k] as int),
        }
    }
}

impl Matrix {
    /// Well-formed: consistent dimensions and every entry in band.
    pub open spec fn wf(self) -> bool {
        self@.wf()
    }

    /// The zero matrix with `w` columns and `h` rows.
    pub fn new(w: usize, h: usize) -> (r: Matrix)
        requires
            1 <= w <= MAX_DIM,
            1 <= h <= MAX_DIM,
        ensures
            r.wf(),
            r@ == (MatView { rows: h as nat, cols: w as nat, m: Seq::new((w * h) as nat, |k: int| 0int) }),
    {
        proof {
            lemma_mul_bound(w as int, h as int, MAX_DIM as int, MAX_DIM as int);
        }
        let n = w * h;
        let mut m: Vec<i64> = Vec::new();
        let mut k: usize = 0;
        while k < n
            invariant
                k <= n,
                m@.len() == k,
                forall|i: int| 0 <= i < k ==> #[trigger] m@[i] == 0i64,
            decreases n - k,
        {
            m.push(0);
            k = k + 1;
        }
        let r = Matrix { rows: h, cols: w, matrix: m };
        proof {
            assert((w as int) * (h as int) == (h as int) * (w as int)) by (nonlinear_arith);
            assert(r@.m =~= Seq::new((w * h) as nat, |k: int| 0int));
        }
        r
    }

    /// The entries in column-major order.
    pub fn as_vec(&self) -> (r: Vec<i64>)
        ensures
            r@.len() == self@.m.len(),
            forall|k: int| 0 <= k < r@.len() ==> #[trigger] r@[k] == self@.m[k],
    {
        let mut r: Vec<i64> = Vec::new();
        let mut k: usize = 0;
        while k < self.matrix.len()
            invariant
                k <= self.matrix@.len(),
                r@.len() == k,
                forall|i: int| 0 <= i < k ==> #[trigger] r@[i] == self.matrix@[i],
            decreases self.matrix@.len() - k,
        {
            r.push(self.matrix[k]);
            k = k + 1;
        }
        r
    }

    /// An identical copy.
    pub fn duplicate(&self) -> (r: Matrix)
        ensures
            r@ == self@,
            r.rows == self.rows,
            r.cols == self.cols,
    {
        let m = self.as_vec();
        let r = Matrix { rows: self.rows, cols: self.cols, matrix: m };
        proof {
            assert(r@.m =~= self@.m);
        }
        r
    }

    /// Whether (`row`, `col`) lies outside the matrix.
    pub fn out_of_bounds(&self, row: usize, col: usize) -> (r: bool)
        ensures
            r == (row >= self@.rows || col >= self@.cols),
    {
        row >= self.rows || col >= self.cols
    }

    /// The identity with `w` columns and `h` rows.
    pub fn identity(w: usize, h: usize) -> (r: Matrix)
        requires
            1 <= w <= MAX_DIM,
            1 <= h <= MAX_DIM,
        ensures
            r.wf(),
            r@ == identity_view(w as nat, h as nat),
    {
        let mut matrix = Matrix::new(w, h);
        proof {
            assert forall|k: int| 0 <= k < w * h implies #[trigger] matrix.matrix@[k]
                == 0i64 by {
                assert(matrix@.m[k] == 0int);
            }
        }
        let mut ij: usize = 0;
        while !matrix.out_of_bounds(ij, ij)
            invariant
                matrix.rows == h,
                matrix.cols == w,
                1 <= w <= MAX_DIM,
                1 <= h <= MAX_DIM,
                matrix.matrix@.len() == w * h,
                ij <= w,
                ij <= h,
                forall|k: int|
                    0 <= k < w * h ==> #[trigger] matrix.matrix@[k] as int == (
                    if k / (h as int) == k % (h as int) && k / (h as int) < ij {
                        SCALE as int
                    } else {
                        0
                    }),
            decreases h - ij,
        {
            proof {
                lemma_mul_bound(ij as int, h as int, MAX_DIM as int, MAX_DIM as int);
            }
            let idx = crate::utils::index(ij, ij, matrix.rows);
            proof {
                assert(ij as int * h as int + ij < h as int * w as int) by (nonlinear_arith)
                    requires
                        0 <= ij as int,
                        (ij as int) < h as int,
                        (ij as int) < w as int,
                ;
                vstd::arithmetic::div_mod::lemma_fundamental_div_mod_converse(
                    ij as int * h as int + ij as int,
                    h as int,
                    ij as int,
                    ij as int,
                );
            }
            matrix.matrix[idx] = SCALE;
            proof {
                assert forall|k: int| 0 <= k < w * h implies #[trigger] matrix.matrix@[k] as int
                    == (if k / (h as int) == k % (h as int) && k / (h as int) < ij + 1 {
                        SCALE as int
                    } else {
                        0
                    }) by {
                    if k != idx && k / (h as int) == k % (h as int) && k / (h as int) == ij {
                        vstd::arithmetic::div_mod::lemma_fundamental_div_mod(k, h as int);
                    }
                }
            }
            ij = ij + 1;
        }
        proof {
            assert forall|k: int|
                0 <= k < w * h && #[trigger] (k / (h as int)) == k % (h as int) implies k / (
            h as int) < ij by {
                vstd::arithmetic::div_mod::lemma_fundamental_div_mod(k, h as int);
                vstd::arithmetic::div_mod::lemma_mod_bound(k, h as int);
                if k / (h as int) >= w as int {
                    assert((h as int) * (k / (h as int)) >= (h as int) * (w as int))
                        by (nonlinear_arith)
                        requires
                            k / (h as int) >= w as int,
                            h as int >= 1,
                    ;
                }
            }
            assert(matrix@.m =~= identity_view(w as nat, h as nat).m);
        }
        matrix
    }

    /// Right-multiply: `self` becomes `self * m`, or stays unchanged when
    /// the dimensions do not line up.
    pub fn mul(&mut self, m: &Matrix)
        requires
            old(self).wf(),
            m.wf(),
        ensures
            final(self)@ == spec_mul(old(self)@, m@),
            final(self).wf(),
    {
        if self.cols != m.rows {
            return ;
        }
        let data = mat_mul_data(self, m);
        self.matrix = data;
        self.cols = m.cols;
        proof {
            assert(self@.m =~= spec_mul(old(self)@, m@).m);
        }
    }

    /// Left-multiply: `self` becomes `m * self`, or stays unchanged when
    /// the dimensions do not line up.
    pub fn pre_mul(&mut self, m: &Matrix)
        requires
            old(self).wf(),
            m.wf(),
        ensures
            final(self)@ == (if m@.cols != old(self)@.rows {
                old(self)@
            } else {
                spec_mul(m@, old(self)@)
            }),
            final(self).wf(),
    {
        if m.cols != self.rows {
            return ;
        }
        let data = mat_mul_data(m, self);
        self.matrix = data;
        self.rows = m.rows;
        proof {
            assert(self@.m =~= spec_mul(m@, old(self)@).m);
        }
    }

    /// The elementary translation matrix by `p`.
    pub fn translation(p: Point) -> (t: Matrix)
        requires
            p.bounded(),
        ensures
            t.wf(),
            t@ == translation_view(p),
    {
        let mut t = Matrix::identity(4, 4);
        proof {
            lemma_identity4_entries(t);
        }
        t.matrix[12] = p.x;
        t.matrix[13] = p.y;
        t.matrix[14] = p.z;
        proof {
            assert forall|k: int| 0 <= k < 16 implies t@.m[k] == translation_view(p).m[k] by {
                assert(t@.m[k] == t.matrix@[k] as int);
            }
            assert(t@.m =~= translation_view(p).m);
        }
        t
    }

    /// Left-compose a translation by `p` onto `self`.
    #[verifier::rlimit(60)]
    pub fn translate(&mut self, p: Point)
        requires
            old(self).wf(),
            p.bounded(),
        ensures
            final(self)@ == (if old(self)@.rows != 4 {
                old(self)@
            } else {
                spec_mul(translation_view(p), old(self)@)
            }),
            final(self).wf(),
    {
        let mut t = Matrix::identity(4, 4);
        proof {
            lemma_identity4_entries(t);
        }
        t.matrix[12] = p.x;
        t.matrix[13] = p.y;
        t.matrix[14] = p.z;
        proof {
            assert forall|k: int| 0 <= k < 16 implies t@.m[k] == translation_view(p).m[k] by {
                assert(t@.m[k] == t.matrix@[k] as int);
            }
            assert(t@.m =~= translation_view(p).m);
        }
        self.pre_mul(&t);
    }

    /// Left-compose a rotation about the x axis, given the fixed-point
    /// sine and cosine of the angle.
    #[verifier::rlimit(60)]
    pub fn rotateX(&mut self, s: i64, c: i64)
        requires
            old(self).wf(),
            -SCALE <= s <= SCALE,
            -SCALE <= c <= SCALE,
        ensures
            final(self)@ == (if old(self)@.rows != 4 {
                old(self)@
            } else {
                spec_mul(rotation_x_view(s as int, c as int), old(self)@)
            }),
            final(self).wf(),
    {
        let mut t = Matrix::identity(4, 4);
        proof {
            lemma_identity4_entries(t);
        }
        t.matrix[5] = c;
        t.matrix[9] = -s;
        t.matrix[6] = s;
        t.matrix[10] = c;
        proof {
            assert forall|k: int| 0 <= k < 16 implies t@.m[k] == rotation_x_view(s as int, c as int).m[k] by {
                assert(t@.m[k] == t.matrix@[k] as int);
            }
            assert(t@.m =~= rotation_x_view(s as int, c as int).m);
        }
        self.pre_mul(&t);
    }

    /// Left-compose a rotation about the y axis, given the fixed-point
    /// sine and cosine of the angle.
    #[verifier::rlimit(60)]
    pub fn rotateY(&mut self, s: i64, c: i64)
        requires
            old(self).wf(),
            -SCALE <= s <= SCALE,
            -SCALE <= c <= SCALE,
        ensures
            final(self)@ == (if old(self)@.rows != 4 {
                old(self)@
            } else {
                spec_mul(rotation_y_view(s as int, c as int), old(self)@)
            }),
            final(self).wf(),
    {
        let mut t = Matrix::identity(4, 4);
        proof {
            lemma_identity4_entries(t);
        }
        t.matrix[0] = c;
        t.matrix[8] = s;
        t.matrix[2] = -s;
        t.matrix[10] = c;
        proof {
            assert forall|k: int|
                0 <= k < 16 implies t@.m[k] == rotation_y_view(s as int, c as int).m[k] by {
                assert(t@.m[k] == t.matrix@[k] as int);
            }
            assert(t@.m =~= rotation_y_view(s as int, c as int).m);
        }
        self.pre_mul(&t);
    }

    /// Left-compose a rotation about the z axis, given the fixed-point
    /// sine and cosine of the angle.
    #[verifier::rlimit(60)]
    pub fn rotateZ(&mut self, s: i64, c: i64)
        requires
            old(self).wf(),
            -SCALE <= s <= SCALE,
            -SCALE <= c <= SCALE,
        ensures
            final(self)@ == (if old(self)@.rows != 4 {
                old(self)@
            } else {
                spec_mul(rotation_z_view(s as int, c as int), old(self)@)
            }),
            final(self).wf(),
    {
        let mut t = Matrix::identity(4, 4);
        proof {
            lemma_identity4_entries(t);
        }
        t.matrix[0] = c;
        t.matrix[4] = -s;
        t.matrix[1] = s;
        t.matrix[5] = c;
        proof {
            assert forall|k: int| 0 <= k < 16 implies t@.m[k] == rotation_z_view(s as int, c as int).m[k] by {
                assert(t@.m[k] == t.matrix@[k] as int);
            }
            assert(t@.m =~= rotation_z_view(s as int, c as int).m);
        }
        self.pre_mul(&t);
    }

    /// Left-compose a non-uniform scaling by `factors`.
    #[verifier::rlimit(60)]
    pub fn scale(&mut self, factors: Point)
        requires
            old(self).wf(),
            factors.bounded(),
        ensures
            final(self)@ == (if old(self)@.rows != 4 {
                old(self)@
            } else {
                spec_mul(scaling_view(factors), old(self)@)
            }),
            final(self).wf(),
    {
        let mut t = Matrix::identity(4, 4);
        proof {
            lemma_identity4_entries(t);
        }
        t.matrix[0] = factors.x;
        t.matrix[5] = factors.y;
        t.matrix[10] = factors.z;
        proof {
            assert forall|k: int|
                0 <= k < 16 implies t@.m[k] == scaling_view(factors).m[k] by {
                assert(t@.m[k] == t.matrix@[k] as int);
            }
            assert(t@.m =~= scaling_view(factors).m);
        }
        self.pre_mul(&t);
    }

    /// Left-compose a shear along x by `offset`.
    #[verifier::rlimit(60)]
    pub fn shearX(&mut self, offset: i64)
        requires
            old(self).wf(),
            -LIMIT <= offset <= LIMIT,
        ensures
            final(self)@ == (if old(self)@.rows != 4 {
                old(self)@
            } else {
                spec_mul(shear_x_view(offset as int), old(self)@)
            }),
            final(self).wf(),
    {
        let mut t = Matrix::identity(4, 4);
        proof {
            lemma_identity4_entries(t);
        }
        t.matrix[4] = offset;
        proof {
            assert forall|k: int| 0 <= k < 16 implies t@.m[k] == shear_x_view(offset as int).m[k] by {
                assert(t@.m[k] == t.matrix@[k] as int);
            }
            assert(t@.m =~= shear_x_view(offset as int).m);
        }
        self.pre_mul(&t);
    }

    /// Left-compose a shear along y by `offset`.
    #[verifier::rlimit(60)]
    pub fn shearY(&mut self, offset: i64)
        requires
            old(self).wf(),
            -LIMIT <= offset <= LIMIT,
        ensures
            final(self)@ == (if old(self)@.rows != 4 {
                old(self)@
            } else {
                spec_mul(shear_y_view(offset as int), old(self)@)
            }),
            final(self).wf(),
    {
        let mut t = Matrix::identity(4, 4);
        proof {
            lemma_identity4_entries(t);
        }
        t.matrix[1] = offset;
        proof {
            assert forall|k: int| 0 <= k < 16 implies t@.m[k] == shear_y_view(offset as int).m[k] by {
                assert(t@.m[k] == t.matrix@[k] as int);
            }
            assert(t@.m =~= shear_y_view(offset as int).m);
        }
        self.pre_mul(&t);
    }

    /// One affine row of [`Matrix::transform_point`].
    fn row_dot(&self, row: usize, p: &Point) -> (r: i64)
        requires
            self.wf(),
            self@.rows == 4,
            self@.cols == 4,
            row < 3,
            p.bounded_within(4 * LIMIT as int),
        ensures
            r as int == sat(
                tdiv(
                    self@.entry(0, row as int) * p.x + self@.entry(1, row as int) * p.y
                        + self@.entry(2, row as int) * p.z + self@.entry(3, row as int) * SCALE,
                    SCALE as int,
                ),
                LIMIT as int,
            ),
    {
        let m0 = self.matrix[row];
        let m1 = self.matrix[4 + row];
        let m2 = self.matrix[8 + row];
        let m3 = self.matrix[12 + row];
        proof {
            assert(self@.m[row as int] == m0 as int);
            assert(self@.m[4 + row as int] == m1 as int);
            assert(self@.m[8 + row as int] == m2 as int);
            assert(self@.m[12 + row as int] == m3 as int);
            lemma_mul_bound(m0 as int, p.x as int, LIMIT as int, 4 * LIMIT as int);
            lemma_mul_bound(m1 as int, p.y as int, LIMIT as int, 4 * LIMIT as int);
            lemma_mul_bound(m2 as int, p.z as int, LIMIT as int, 4 * LIMIT as int);
            lemma_mul_bound(m3 as int, SCALE as int, LIMIT as int, SCALE as int);
        }
        let sum = wide_mul(m0, p.x) + wide_mul(m1, p.y) + wide_mul(m2, p.z) + wide_mul(m3, SCALE);
        sat_div_wide(sum, SCALE, LIMIT)
    }

    /// Apply an affine 4x4 transform to a point.
    pub fn transform_point(&self, p: &Point) -> (r: Point)
        requires
            self.wf(),
            self@.rows == 4,
            self@.cols == 4,
            p.bounded_within(4 * LIMIT as int),
        ensures
            r == spec_transform_point(self@, *p),
            r.bounded(),
    {
        Point { x: self.row_dot(0, p), y: self.row_dot(1, p), z: self.row_dot(2, p) }
    }
}

/// The raw entries of a freshly built 4x4 identity, read back from its
/// backing vector.
pub proof fn lemma_identity4_entries(t: Matrix)
    requires
        t@ == identity_view(4, 4),
    ensures
        t.matrix@.len() == 16,
        forall|k: int|
            0 <= k < 16 ==> #[trigger] (t.matrix@[k] as int) == (if k / 4 == k % 4 {
                SCALE as int
            } else {
                0
            }),
{
    assert(t@.m.len() == 16);
    assert(t.matrix@.len() == 16);
    assert forall|k: int|
        0 <= k < 16 implies #[trigger] (t.matrix@[k] as int) == (if k / 4 == k % 4 {
        SCALE as int
    } else {
        0
    }) by {
        assert(t@.m[k] == t.matrix@[k] as int);
        assert(identity_view(4, 4).m[k] == (if k / 4 == k % 4 {
            SCALE as int
        } else {
            0
        }));
        assert(t@.m[k] == identity_view(4, 4).m[k]);
    }
}

/// The entries of the product `a * b`, in column-major order.
fn mat_mul_data(a: &Matrix, b: &Matrix) -> (result: Vec<i64>)
    requires
        a.wf(),
        b.wf(),
        a@.cols == b@.rows,
    ensures
        result@.len() == spec_mul(a@, b@).m.len(),
        forall|k: int|
            0 <= k < result@.len() ==> #[trigger] result@[k] as int == spec_mul(a@, b@).m[k],
{
    let rows = a.rows;
    let cols = b.cols;
    let inner = a.cols;
    let mut result: Vec<i64> = Vec::new();
    proof {
        lemma_mul_bound(cols as int, rows as int, MAX_DIM as int, MAX_DIM as int);
    }
    let mut col: usize = 0;
    while col < cols
        invariant
            a.wf(),
            b.wf(),
            a@.cols == b@.rows,
            rows == a@.rows,
            cols == b@.cols,
            inner == a@.cols,
            col <= cols,
            result@.len() == col * rows,
            forall|k: int|
                0 <= k < result@.len() ==> #[trigger] result@[k] as int == spec_mul(a@, b@).m[k],
        decreases cols - col,
    {
        let mut row: usize = 0;
        proof {
            lemma_mul_bound(col as int, rows as int, MAX_DIM as int, MAX_DIM as int);
        }
        while row < rows
            invariant
                a.wf(),
                b.wf(),
                a@.cols == b@.rows,
                rows == a@.rows,
                cols == b@.cols,
                inner == a@.cols,
                col < cols,
                row <= rows,
                result@.len() == col * rows + row,
                forall|k: int|
                    0 <= k < result@.len() ==> #[trigger] result@[k] as int == spec_mul(
                        a@,
                        b@,
                    ).m[k],
            decreases rows - row,
        {
            let mut sum: i128 = 0;
            let mut i: usize = 0;
            while i < inner
                invariant
                    a.wf(),
                    b.wf(),
                    a@.cols == b@.rows,
                    rows == a@.rows,
                    cols == b@.cols,
                    inner == a@.cols,
                    col < cols,
                    row < rows,
                    i <= inner,
                    sum == sum_prod(a@, b@, col as int, row as int, i as int),
                    -(i as int) * 0x1_0000_0000_0000_0000_0000_0000_0000 <= sum
                        <= (i as int) * 0x1_0000_0000_0000_0000_0000_0000_0000,
                decreases inner - i,
            {
                proof {
                    lemma_mul_bound(i as int, rows as int, MAX_DIM as int, MAX_DIM as int);
                    lemma_mul_bound(col as int, inner as int, MAX_DIM as int, MAX_DIM as int);
                    assert(i as int * rows as int + row < inner as int * rows as int)
                        by (nonlinear_arith)
                        requires
                            0 <= i as int,
                            (i as int) < inner as int,
                            0 <= (row as int) < rows as int,
                    ;
                    assert(inner as int * rows as int == a@.m.len());
                    assert(col as int * inner as int + i < cols as int * inner as int)
                        by (nonlinear_arith)
                        requires
                            0 <= col as int,
                            (col as int) < cols as int,
                            0 <= (i as int) < inner as int,
                    ;
                    assert(cols as int * inner as int == b@.m.len()) by (nonlinear_arith)
                        requires
                            b@.m.len() == b@.rows * b@.cols,
                            inner as int == b@.rows,
                            cols as int == b@.cols,
                    ;
                }
                let x = a.matrix[i * rows + row];
                let y = b.matrix[col * inner + i];
                proof {
                    assert(a@.m[i as int * rows as int + row as int] == x as int);
                    assert(b@.m[col as int * inner as int + i as int] == y as int);
                    assert(a@.entry(i as int, row as int) == x as int);
                    assert(b@.entry(col as int, i as int) == y as int);
                    lemma_mul_bound(x as int, y as int, LIMIT as int, LIMIT as int);
                    assert((LIMIT as int) * (LIMIT as int)
                        == 0x1_0000_0000_0000_0000_0000_0000_0000);
                }
                sum = sum + wide_mul(x, y);
                i = i + 1;
            }
            let e = sat_div_wide(sum, SCALE, LIMIT);
            result.push(e);
            proof {
                let k: int = col as int * rows as int + row as int;
                vstd::arithmetic::div_mod::lemma_fundamental_div_mod_converse(
                    k,
                    rows as int,
                    col as int,
                    row as int,
                );
                assert(k < spec_mul(a@, b@).m.len()) by (nonlinear_arith)
                    requires
                        spec_mul(a@, b@).m.len() == b@.cols * a@.rows,
                        0 <= (col as int) < b@.cols,
                        0 <= (row as int) < a@.rows,
                        k == col as int * a@.rows + row as int,
                        rows as int == a@.rows,
                ;
                assert(result@[k] as int == spec_mul(a@, b@).m[k]);
            }
            row = row + 1;
        }
        proof {
            assert(col as int * rows as int + rows as int == (col as int + 1) * rows as int)
                by (nonlinear_arith);
        }
        col = col + 1;
    }
    proof {
        assert(cols as int * rows as int == spec_mul(a@, b@).m.len()) by (nonlinear_arith)
            requires
                spec_mul(a@, b@).m.len() == b@.cols * a@.rows,
                cols as int == b@.cols,
                rows as int == a@.rows,
        ;
    }
    result
}

} // verus!
