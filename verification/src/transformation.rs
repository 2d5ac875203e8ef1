//! The stack of transforms every drawing primitive consults.
//!
//! The stack always holds at least one entry; popping the last entry is
//! ignored rather than performed, so a sketch can never draw without a
//! current transform.

use vstd::prelude::*;

use crate::matrix::{
    identity_view, rotation_x_view, rotation_y_view, rotation_z_view, scaling_view, spec_mul,
    translation_view, MatView, Matrix,
};
use crate::fixed::SCALE;
use crate::point::Point;

verus! {

/// One stack operation, for stating the stack-depth law.
pub enum MatrixStackOp {
    Push,
    Pop,
}

/// The stack depth after running `ops` from a stack of depth `init`,
/// with a push adding one entry and a pop removing one only when more
/// than one is present.
pub open spec fn stack_depth_after(init: nat, ops: Seq<MatrixStackOp>) -> nat
    decreases ops.len(),
{
    if ops.len() == 0 {
        init
    } else {
        let d = stack_depth_after(init, ops.drop_last());
        match ops.last() {
            MatrixStackOp::Push => d + 1,
            MatrixStackOp::Pop => if d > 1 {
                (d - 1) as nat
            } else {
                d
            },
        }
    }
}

/// Law: starting from a non-empty stack, no sequence of `pushMatrix` /
/// `popMatrix` calls can empty it — a pop on a one-entry stack is a
/// no-op, which is exactly the step `stack_depth_after` takes and the
/// step the executable `popMatrix` is specified to take.
pub proof fn lemma_stack_never_empty(init: nat, ops: Seq<MatrixStackOp>)
    requires
        init >= 1,
    ensures
        stack_depth_after(init, ops) >= 1,
    decreases ops.len(),
{
    if ops.len() > 0 {
        lemma_stack_never_empty(init, ops.drop_last());
    }
}

/// A stack of affine 4x4 transforms.
#[derive(Debug)]
pub struct TransformStack {
    pub stack: Vec<Matrix>,
}

impl TransformStack {
    /// Well-formed: never empty, and every entry a well-formed 4x4.
    pub open spec fn wf(self) -> bool {
        &&& self.stack@.len() >= 1
        &&& forall|i: int|
            0 <= i < self.stack@.len() ==> (#[trigger] self.stack@[i]).wf()
                && self.stack@[i]@.rows == 4 && self.stack@[i]@.cols == 4
    }

    /// How many transforms are on the stack.
    pub open spec fn depth(self) -> nat {
        self.stack@.len()
    }

    /// The transform on top of the stack.
    pub open spec fn top(self) -> MatView {
        self.stack@[self.stack@.len() - 1]@
    }

    /// A fresh stack holding a single identity.
    pub fn new() -> (s: TransformStack)
        ensures
            s.wf(),
            s.depth() == 1,
            s.top() == identity_view(4, 4),
    {
        let mut stack: Vec<Matrix> = Vec::new();
        stack.push(Matrix::identity(4, 4));
        TransformStack { stack }
    }

    /// Clear the stack back to a single identity, as happens at the
    /// start of every frame.
    pub fn reset(&mut self)
        ensures
            final(self).wf(),
            final(self).depth() == 1,
            final(self).top() == identity_view(4, 4),
    {
        self.stack.truncate(0);
        self.stack.push(Matrix::identity(4, 4));
    }

    /// Read-only access to the whole stack.
    pub fn getTransformations(&self) -> (r: &Vec<Matrix>)
        ensures
            r@ == self.stack@,
    {
        &self.stack
    }

    /// Read-only access to the top of the stack.
    pub fn current(&self) -> (r: &Matrix)
        requires
            self.wf(),
        ensures
            r@ == self.top(),
            r.wf(),
    {
        let n = self.stack.len();
        &self.stack[n - 1]
    }

    /// Duplicate the top of the stack.
    pub fn pushMatrix(&mut self)
        requires
            old(self).wf(),
        ensures
            final(self).wf(),
            final(self).depth() == old(self).depth() + 1,
            final(self).top() == old(self).top(),
            forall|i: int|
                0 <= i < old(self).stack@.len() ==> final(self).stack@[i] == old(self).stack@[i],
    {
        let n = self.stack.len();
        let clone = self.stack[n - 1].duplicate();
        self.stack.push(clone);
    }

    /// Drop the top of the stack, unless it is the last entry, in which
    /// case nothing happens.
    pub fn popMatrix(&mut self)
        requires
            old(self).wf(),
        ensures
            final(self).wf(),
            old(self).depth() > 1 ==> final(self).stack@ == old(self).stack@.drop_last(),
            old(self).depth() <= 1 ==> *final(self) == *old(self),
            final(self).depth() == (if old(self).depth() > 1 {
                (old(self).depth() - 1) as nat
            } else {
                old(self).depth()
            }),
    {
        if self.stack.len() > 1 {
            self.stack.pop();
        }
    }

    /// Left-compose a translation onto the top of the stack.
    pub fn translate(&mut self, v: Point)
        requires
            old(self).wf(),
            v.bounded(),
        ensures
            final(self).wf(),
            final(self).depth() == old(self).depth(),
            final(self).top() == spec_mul(translation_view(v), old(self).top()),
            forall|i: int|
                0 <= i < old(self).stack@.len() - 1 ==> final(self).stack@[i] == old(
                    self,
                ).stack@[i],
    {
        let n = self.stack.len();
        self.stack[n - 1].translate(v);
    }

    /// Left-compose a rotation about the z axis; `rotate` is drawing in
    /// the plane, so the z axis is the default.
    pub fn rotate(&mut self, s: i64, c: i64)
        requires
            old(self).wf(),
            -SCALE <= s <= SCALE,
            -SCALE <= c <= SCALE,
        ensures
            final(self).wf(),
            final(self).depth() == old(self).depth(),
            final(self).top() == spec_mul(rotation_z_view(s as int, c as int), old(self).top()),
            forall|i: int|
                0 <= i < old(self).stack@.len() - 1 ==> final(self).stack@[i] == old(
                    self,
                ).stack@[i],
    {
        self.rotateZ(s, c);
    }

    /// Left-compose a rotation about the x axis onto the top.
    pub fn rotateX(&mut self, s: i64, c: i64)
        requires
            old(self).wf(),
            -SCALE <= s <= SCALE,
            -SCALE <= c <= SCALE,
        ensures
            final(self).wf(),
            final(self).depth() == old(self).depth(),
            final(self).top() == spec_mul(rotation_x_view(s as int, c as int), old(self).top()),
            forall|i: int|
                0 <= i < old(self).stack@.len() - 1 ==> final(self).stack@[i] == old(
                    self,
                ).stack@[i],
    {
        let n = self.stack.len();
        self.stack[n - 1].rotateX(s, c);
    }

    /// Left-compose a rotation about the y axis onto the top.
    pub fn rotateY(&mut self, s: i64, c: i64)
        requires
            old(self).wf(),
            -SCALE <= s <= SCALE,
            -SCALE <= c <= SCALE,
        ensures
            final(self).wf(),
            final(self).depth() == old(self).depth(),
            final(self).top() == spec_mul(rotation_y_view(s as int, c as int), old(self).top()),
            forall|i: int|
                0 <= i < old(self).stack@.len() - 1 ==> final(self).stack@[i] == old(
                    self,
                ).stack@[i],
    {
        let n = self.stack.len();
        self.stack[n - 1].rotateY(s, c);
    }

    /// Left-compose a rotation about the z axis onto the top.
    pub fn rotateZ(&mut self, s: i64, c: i64)
        requires
            old(self).wf(),
            -SCALE <= s <= SCALE,
            -SCALE <= c <= SCALE,
        ensures
            final(self).wf(),
            final(self).depth() == old(self).depth(),
            final(self).top() == spec_mul(rotation_z_view(s as int, c as int), old(self).top()),
            forall|i: int|
                0 <= i < old(self).stack@.len() - 1 ==> final(self).stack@[i] == old(
                    self,
                ).stack@[i],
    {
        let n = self.stack.len();
        self.stack[n - 1].rotateZ(s, c);
    }

    /// Left-compose a non-uniform scaling onto the top.
    pub fn scale(&mut self, factors: Point)
        requires
            old(self).wf(),
            factors.bounded(),
        ensures
            final(self).wf(),
            final(self).depth() == old(self).depth(),
            final(self).top() == spec_mul(scaling_view(factors), old(self).top()),
            forall|i: int|
                0 <= i < old(self).stack@.len() - 1 ==> final(self).stack@[i] == old(
                    self,
                ).stack@[i],
    {
        let n = self.stack.len();
        self.stack[n - 1].scale(factors);
    }
}

} // verus!
