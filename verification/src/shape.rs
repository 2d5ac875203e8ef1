//! Shapes as data: the vertex layout every builder emits, and the
//! canonical descriptor a draw call is reduced to.
//!
//! A descriptor is the cache key of the pipeline: two draws that would
//! put bit-identical data on the GPU produce equal descriptors.

use vstd::prelude::*;

use crate::color::Color;
use crate::point::Point;

verus! {

/// How many values one vertex occupies in a flat vertex array:
/// position (3), texture coordinates (2), color (4).
pub const VERTEX_STRIDE: usize = 9;

/// The nine values of one vertex in the flat layout.
pub open spec fn vertex_block(p: Point, u: i64, v: i64, c: Color) -> Seq<i64> {
    seq![p.x, p.y, p.z, u, v, c.r as i64, c.g as i64, c.b as i64, c.a as i64]
}

/// Write one vertex into the flat array `vd` starting at `at`.
pub fn assign_vertex(vd: &mut Vec<i64>, at: usize, p: &Point, u: i64, v: i64, c: &Color)
    requires
        at + VERTEX_STRIDE <= old(vd).len(),
    ensures
        final(vd)@.len() == old(vd)@.len(),
        final(vd)@.subrange(at as int, at + VERTEX_STRIDE) == vertex_block(*p, u, v, *c),
        forall|k: int|
            0 <= k < old(vd)@.len() && !(at <= k < at + VERTEX_STRIDE) ==> final(vd)@[k] == old(
                vd,
            )@[k],
{
    vd[at] = p.x;
    vd[at + 1] = p.y;
    vd[at + 2] = p.z;
    vd[at + 3] = u;
    vd[at + 4] = v;
    vd[at + 5] = c.r as i64;
    vd[at + 6] = c.g as i64;
    vd[at + 7] = c.b as i64;
    vd[at + 8] = c.a as i64;
    proof {
        assert(vd@.subrange(at as int, at + VERTEX_STRIDE) =~= vertex_block(*p, u, v, *c));
    }
}

/// The mathematical value of a [`ShapeDescriptor`].
pub ghost struct DescView {
    pub vertex_data: Seq<i64>,
    pub index_data: Seq<u32>,
    pub vertex_shader: Option<Seq<char>>,
    pub fragment_shader: Option<Seq<char>>,
    pub is_stroke: bool,
}

/// A canonical, exact snapshot of one draw: post-transform vertex data,
/// topology indices, optional custom shader sources, and whether the
/// shape was drawn as a stroke.  Equal descriptors describe draws that
/// put bit-identical state on the GPU.
#[derive(Debug, Hash)]
pub struct ShapeDescriptor {
    pub vertex_data: Vec<i64>,
    pub index_data: Vec<u32>,
    pub vertex_shader: Option<String>,
    pub fragment_shader: Option<String>,
    pub is_stroke: bool,
}

impl View for ShapeDescriptor {
    type V = DescView;

    open spec fn view(&self) -> DescView {
        DescView {
            vertex_data: self.vertex_data@,
            index_data: self.index_data@,
            vertex_shader: match self.vertex_shader {
                Some(s) => Some(s@),
                None => None,
            },
            fragment_shader: match self.fragment_shader {
                Some(s) => Some(s@),
                None => None,
            },
            is_stroke: self.is_stroke,
        }
    }
}

/// Whether two optional shader sources hold the same text.
pub fn opt_string_eq(a: &Option<String>, b: &Option<String>) -> (r: bool)
    ensures
        r == (match (a, b) {
            (Some(x), Some(y)) => x@ == y@,
            (None, None) => true,
            _ => false,
        }),
{
    match (a, b) {
        (Some(x), Some(y)) => x.eq(y),
        (None, None) => true,
        _ => false,
    }
}

/// A copy of an optional shader source.
pub fn opt_string_clone(a: &Option<String>) -> (r: Option<String>)
    ensures
        (match (a, r) {
            (Some(x), Some(y)) => x@ == y@,
            (None, None) => true,
            _ => false,
        }),
{
    match a {
        Some(s) => Some(s.clone()),
        None => None,
    }
}

/// Whether two descriptors are bit-for-bit the same draw.
pub fn descriptor_eq(a: &ShapeDescriptor, b: &ShapeDescriptor) -> (r: bool)
    ensures
        r <==> a@ == b@,
{
    let vd = a.vertex_data == b.vertex_data;
    let id = a.index_data == b.index_data;
    let vs = opt_string_eq(&a.vertex_shader, &b.vertex_shader);
    let fs = opt_string_eq(&a.fragment_shader, &b.fragment_shader);
    let st = a.is_stroke == b.is_stroke;
    let r = vd && id && vs && fs && st;
    proof {
        if r {
            assert(a@.vertex_data =~= b@.vertex_data);
            assert(a@.index_data =~= b@.index_data);
        } else {
            if a@ == b@ {
                assert(a@.vertex_data == b@.vertex_data);
                assert(a@.index_data == b@.index_data);
                assert(a@.vertex_shader == b@.vertex_shader);
                assert(a@.fragment_shader == b@.fragment_shader);
            }
        }
    }
    r
}

/// A copy of a flat vertex array.
pub fn clone_vec_i64(v: &Vec<i64>) -> (r: Vec<i64>)
    ensures
        r@ == v@,
{
    let mut r: Vec<i64> = Vec::new();
    let mut k: usize = 0;
    while k < v.len()
        invariant
            k <= v@.len(),
            r@ == v@.subrange(0, k as int),
        decreases v@.len() - k,
    {
        r.push(v[k]);
        proof {
            assert(r@ =~= v@.subrange(0, k + 1));
        }
        k = k + 1;
    }
    proof {
        assert(v@.subrange(0, v@.len() as int) =~= v@);
    }
    r
}

/// A copy of an index list.
pub fn clone_vec_u32(v: &Vec<u32>) -> (r: Vec<u32>)
    ensures
        r@ == v@,
{
    let mut r: Vec<u32> = Vec::new();
    let mut k: usize = 0;
    while k < v.len()
        invariant
            k <= v@.len(),
            r@ == v@.subrange(0, k as int),
        decreases v@.len() - k,
    {
        r.push(v[k]);
        proof {
            assert(r@ =~= v@.subrange(0, k + 1));
        }
        k = k + 1;
    }
    proof {
        assert(v@.subrange(0, v@.len() as int) =~= v@);
    }
    r
}

/// A copy of a descriptor, describing the same draw.
pub fn clone_descriptor(d: &ShapeDescriptor) -> (r: ShapeDescriptor)
    ensures
        r@ == d@,
{
    ShapeDescriptor {
        vertex_data: clone_vec_i64(&d.vertex_data),
        index_data: clone_vec_u32(&d.index_data),
        vertex_shader: opt_string_clone(&d.vertex_shader),
        fragment_shader: opt_string_clone(&d.fragment_shader),
        is_stroke: d.is_stroke,
    }
}

/// A flat array of `n` zeroes, the blank slate every builder writes
/// vertices into.
pub fn zero_vec(n: usize) -> (r: Vec<i64>)
    ensures
        r@.len() == n,
        forall|i: int| 0 <= i < n ==> #[trigger] r@[i] == 0i64,
{
    let mut r: Vec<i64> = Vec::new();
    let mut k: usize = 0;
    while k < n
        invariant
            k <= n,
            r@.len() == k,
            forall|i: int| 0 <= i < k ==> #[trigger] r@[i] == 0i64,
        decreases n - k,
    {
        r.push(0);
        k = k + 1;
    }
    r
}

/// What every drawable shape exposes: its built geometry, its optional
/// shader pair, and its stroke flag, all pinned to one abstract model.
pub trait Shape: Sized {
    /// The descriptor-level model of this shape.
    spec fn model(&self) -> DescView;

    /// The flat vertex array of the built shape.
    fn vertex_data(&self) -> (r: &Vec<i64>)
        ensures
            r@ == self.model().vertex_data,
    ;

    /// The topology indices of the built shape.
    fn index_data(&self) -> (r: &Vec<u32>)
        ensures
            r@ == self.model().index_data,
    ;

    /// The custom vertex shader source, if any.
    fn vertex_shader(&self) -> (r: Option<String>)
        ensures
            (match r {
                Some(s) => self.model().vertex_shader == Some(s@),
                None => self.model().vertex_shader is None,
            }),
    ;

    /// The custom fragment shader source, if any.
    fn fragment_shader(&self) -> (r: Option<String>)
        ensures
            (match r {
                Some(s) => self.model().fragment_shader == Some(s@),
                None => self.model().fragment_shader is None,
            }),
    ;

    /// Whether the shape renders a stroke rather than a fill.
    fn is_stroke(&self) -> (r: bool)
        ensures
            r == self.model().is_stroke,
    ;
}

/// Draw a built shape on a canvas: reduce it to its canonical
/// descriptor and run the cached draw pipeline on it.
pub fn draw<S: Shape>(shape: &S, canvas: &mut crate::canvas::Canvas)
    requires
        old(canvas).wf(),
        old(canvas).next_object_id < u64::MAX,
    ensures
        final(canvas).wf(),
        crate::canvas::draw_transition(*old(canvas), *final(canvas), shape.model()),
{
    let descriptor = ShapeDescriptor {
        vertex_data: clone_vec_i64(shape.vertex_data()),
        index_data: clone_vec_u32(shape.index_data()),
        vertex_shader: shape.vertex_shader(),
        fragment_shader: shape.fragment_shader(),
        is_stroke: shape.is_stroke(),
    };
    proof {
        assert(descriptor@ == shape.model());
    }
    canvas.draw_shape(descriptor);
}

} // verus!
