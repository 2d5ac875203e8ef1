//! The canvas: one explicit context object holding the sketch state, the
//! transform stack, the shape cache, the pending command batch, and the
//! ghost history of every command ever pushed.
//!
//! Every drawing primitive is a method here; each one reads the current
//! state, builds geometry, consults the cache, and pushes commands.  The
//! ghost history carries the crate's central bookkeeping laws: an object
//! id is created at most once, deleted at most once, and never deleted
//! while its entry is still cached.

use vstd::prelude::*;

use crate::cache::{spec_find, spec_has, CacheEntryView, ShapeCache};
use crate::channel::CommandChannel;
use crate::color::{Color, CHANNEL_MAX};
use crate::command::{count_creates, count_deletes, Command, CommandView};
use crate::fixed::{tdiv, SCALE};
use crate::matrix::{identity_view, scaling_view, Matrix};
use crate::point::Point;
use crate::shape::{clone_descriptor, opt_string_eq, DescView, ShapeDescriptor};
use crate::sketch::{Sketch, DEFAULT_HEIGHT, DEFAULT_WIDTH};
use crate::transformation::TransformStack;

verus! {

/// How many shapes the cache keeps before evicting.
pub const DEFAULT_CACHE_CAPACITY: usize = 1024;

/// The mathematical value of one compiled-shader record.
pub ghost struct ShaderEntryView {
    pub vertex_shader: Option<Seq<char>>,
    pub fragment_shader: Option<Seq<char>>,
    pub program: u64,
}

/// A compiled shader pair the sketch side already knows the handle of.
#[derive(Debug)]
pub struct ShaderEntry {
    pub vertex_shader: Option<String>,
    pub fragment_shader: Option<String>,
    pub program: u64,
}

impl View for ShaderEntry {
    type V = ShaderEntryView;

    open spec fn view(&self) -> ShaderEntryView {
        ShaderEntryView {
            vertex_shader: match self.vertex_shader {
                Some(s) => Some(s@),
                None => None,
            },
            fragment_shader: match self.fragment_shader {
                Some(s) => Some(s@),
                None => None,
            },
            program: self.program,
        }
    }
}

/// The outcome of asking for a shader program: either the handle is
/// already known, or a round-trip command has been pushed and the
/// caller must wait for the GPU side's reply.
#[derive(Clone, Copy, Debug, PartialEq, Eq, Structural)]
pub enum ShaderResolution {
    Ready(u64),
    Pending,
}

/// The drawing context.
pub struct Canvas {
    pub sketch: Sketch,
    pub transformations: TransformStack,
    pub queue: Vec<Command>,
    pub cache: ShapeCache,
    pub next_object_id: u64,
    pub shader_programs: Vec<ShaderEntry>,
    pub default_program: u64,
    pub history: Ghost<Seq<CommandView>>,
}

impl Canvas {
    /// The views of the pending command batch, in push order.
    pub open spec fn queue_view(self) -> Seq<CommandView> {
        self.queue@.map_values(|c: Command| c@)
    }

    /// Well-formed: components valid, cached ids below the allocator
    /// mark, and the command history consistent — each id created at
    /// most once, deleted at most once and only after a creation, never
    /// deleted while cached, and ids at or above the mark untouched.
    pub open spec fn wf(self) -> bool {
        wf_state(
            self.sketch,
            self.transformations,
            self.cache,
            self.next_object_id,
            self.history@,
        )
    }

    /// A fresh canvas: default sketch state, a one-entry transform
    /// stack, an empty queue, an empty cache, and an empty history.
    pub fn new(cache_capacity: usize) -> (c: Canvas)
        requires
            cache_capacity >= 1,
        ensures
            c.wf(),
            c.queue_view() =~= Seq::<CommandView>::empty(),
            c.history@ =~= Seq::<CommandView>::empty(),
            c.cache.view_entries() =~= Seq::<CacheEntryView>::empty(),
            c.cache.capacity == cache_capacity,
            c.next_object_id == 0,
            c.default_program == 0,
            c.sketch.width == DEFAULT_WIDTH,
            c.sketch.height == DEFAULT_HEIGHT,
            c.sketch.background == (Color {
                r: CHANNEL_MAX,
                g: CHANNEL_MAX,
                b: CHANNEL_MAX,
                a: CHANNEL_MAX,
            }),
            c.sketch.fill == (Color { r: 0, g: CHANNEL_MAX, b: 0, a: CHANNEL_MAX }),
            c.sketch.stroke == (Color { r: 0, g: 0, b: 0, a: CHANNEL_MAX }),
            c.sketch.stroke_weight == 1,
            c.sketch.transformation@ == identity_view(4, 4),
            c.transformations.depth() == 1,
            c.transformations.top() == identity_view(4, 4),
    {
        let c = Canvas {
            sketch: Sketch::new(),
            transformations: TransformStack::new(),
            queue: Vec::new(),
            cache: ShapeCache::new(cache_capacity),
            next_object_id: 0,
            shader_programs: Vec::new(),
            default_program: 0,
            history: Ghost(Seq::empty()),
        };
        proof {
            lemma_counts_empty(c.history@);
        }
        c
    }

    /// Append one command to the pending batch (and to the history).
    pub fn push(&mut self, command: Command)
        ensures
            final(self).queue@ == old(self).queue@.push(command),
            final(self).queue_view() =~= old(self).queue_view().push(command@),
            final(self).history@ == old(self).history@.push(command@),
            final(self).sketch == old(self).sketch,
            final(self).transformations == old(self).transformations,
            final(self).cache == old(self).cache,
            final(self).next_object_id == old(self).next_object_id,
            final(self).shader_programs == old(self).shader_programs,
            final(self).default_program == old(self).default_program,
    {
        self.queue.push(command);
        proof {
            self.history@ = self.history@.push(command@);
        }
    }

    /// Hand the pending batch to the channel; delivery fails while the
    /// previous batch has not been consumed (the backpressure that keeps
    /// the sketch at most one frame ahead).
    pub fn send(&mut self, channel: &mut CommandChannel) -> (delivered: bool)
        ensures
            old(channel).contents() is None ==> delivered && final(channel).contents() == Some(
                old(self).queue_view(),
            ) && final(self).queue_view() =~= Seq::<CommandView>::empty(),
            old(channel).contents() is Some ==> !delivered && final(channel).contents() == old(
                channel,
            ).contents() && final(self).queue@ == old(self).queue@,
            final(self).history@ == old(self).history@,
            final(self).sketch == old(self).sketch,
            final(self).transformations == old(self).transformations,
            final(self).cache == old(self).cache,
            final(self).next_object_id == old(self).next_object_id,
            final(self).default_program == old(self).default_program,
            old(self).wf() ==> final(self).wf(),
    {
        let r = channel.send(&mut self.queue);
        proof {
            if old(channel).contents() is None {
                assert(crate::command::batch_view(old(self).queue@) =~= old(self).queue_view());
            }
            if old(self).wf() {
                lemma_wf_components(*old(self), *self);
            }
        }
        r
    }

    /// Set the background color and push a clear of the screen.
    pub fn background(&mut self, color: Color)
        requires
            old(self).wf(),
        ensures
            final(self).wf(),
            final(self).sketch == (Sketch { background: color, ..old(self).sketch }),
            final(self).history@ == old(self).history@.push(CommandView::Clear(color)),
            final(self).queue_view() =~= old(self).queue_view().push(CommandView::Clear(color)),
    {
        self.sketch.background = color;
        self.draw_background();
    }

    /// Push a clear of the screen to the current background color.
    pub fn draw_background(&mut self)
        requires
            old(self).wf(),
        ensures
            final(self).wf(),
            final(self).sketch == old(self).sketch,
            final(self).history@ == old(self).history@.push(
                CommandView::Clear(old(self).sketch.background),
            ),
            final(self).queue_view() =~= old(self).queue_view().push(
                CommandView::Clear(old(self).sketch.background),
            ),
            final(self).transformations == old(self).transformations,
            final(self).cache == old(self).cache,
            final(self).next_object_id == old(self).next_object_id,
            final(self).default_program == old(self).default_program,
    {
        let color = self.sketch.background;
        self.push(Command::Clear(color));
        proof {
            lemma_wf_after_neutral_push(*old(self), *self, CommandView::Clear(color));
        }
    }

    /// Set the fill color.
    pub fn fill(&mut self, color: Color)
        requires
            old(self).wf(),
        ensures
            final(self).wf(),
            *final(self) == (Canvas { sketch: Sketch { fill: color, ..old(self).sketch }, ..*old(
                self,
            ) }),
    {
        self.sketch.fill = color;
    }

    /// The current fill color.
    pub fn get_fill(&self) -> (c: Color)
        ensures
            c == self.sketch.fill,
    {
        self.sketch.fill
    }

    /// Disable filling: a fully transparent fill.
    pub fn noFill(&mut self)
        requires
            old(self).wf(),
        ensures
            final(self).wf(),
            *final(self) == (Canvas {
                sketch: Sketch { fill: Color { r: 0, g: 0, b: 0, a: 0 }, ..old(self).sketch },
                ..*old(self)
            }),
    {
        self.sketch.fill = Color::transparent();
    }

    /// Set the stroke color.
    pub fn stroke(&mut self, color: Color)
        requires
            old(self).wf(),
        ensures
            final(self).wf(),
            *final(self) == (Canvas { sketch: Sketch { stroke: color, ..old(self).sketch }, ..*old(
                self,
            ) }),
    {
        self.sketch.stroke = color;
    }

    /// The current stroke color.
    pub fn get_stroke(&self) -> (c: Color)
        ensures
            c == self.sketch.stroke,
    {
        self.sketch.stroke
    }

    /// Disable stroking: a fully transparent stroke.
    pub fn noStroke(&mut self)
        requires
            old(self).wf(),
        ensures
            final(self).wf(),
            *final(self) == (Canvas {
                sketch: Sketch { stroke: Color { r: 0, g: 0, b: 0, a: 0 }, ..old(self).sketch },
                ..*old(self)
            }),
    {
        self.sketch.stroke = Color::transparent();
    }

    /// Set the stroke weight, in whole pixels.
    pub fn stroke_weight(&mut self, w: u32)
        requires
            old(self).wf(),
        ensures
            final(self).wf(),
            *final(self) == (Canvas {
                sketch: Sketch { stroke_weight: w, ..old(self).sketch },
                ..*old(self)
            }),
    {
        self.sketch.stroke_weight = w;
    }

    /// The current stroke weight.
    pub fn get_stroke_weight(&self) -> (w: u32)
        ensures
            w == self.sketch.stroke_weight,
    {
        self.sketch.stroke_weight
    }

    /// Read-only access to the whole sketch state.
    pub fn get_sketch(&self) -> (s: &Sketch)
        ensures
            s == &self.sketch,
    {
        &self.sketch
    }

    /// The base transform mapping sketch coordinates to clip space.
    pub fn get_transform(&self) -> (r: Matrix)
        ensures
            r@ == self.sketch.transformation@,
    {
        self.sketch.transformation.duplicate()
    }

    /// Resize the canvas: record the new size, rebuild the base
    /// transform so that `w` pixels span two clip-space units, and push
    /// a resize command.  A zero dimension is ignored.
    pub fn size(&mut self, w: u32, h: u32)
        requires
            old(self).wf(),
        ensures
            final(self).wf(),
            w == 0 || h == 0 ==> *final(self) == *old(self),
            w != 0 && h != 0 ==> {
                &&& final(self).sketch.width == w
                &&& final(self).sketch.height == h
                &&& final(self).sketch.transformation@ == scaling_view(
                    Point {
                        x: tdiv(2 * SCALE as int, w as int) as i64,
                        y: tdiv(2 * SCALE as int, h as int) as i64,
                        z: tdiv(2 * SCALE as int, h as int) as i64,
                    },
                )
                &&& final(self).history@ == old(self).history@.push(CommandView::Resize(w, h))
                &&& final(self).queue_view() =~= old(self).queue_view().push(
                    CommandView::Resize(w, h),
                )
                &&& final(self).cache == old(self).cache
                &&& final(self).next_object_id == old(self).next_object_id
            },
    {
        if w == 0 || h == 0 {
            return ;
        }
        self.sketch.width = w;
        self.sketch.height = h;
        let ex = (2 * SCALE) / (w as i64);
        let ey = (2 * SCALE) / (h as i64);
        proof {
            crate::fixed::lemma_tdiv_bound(2 * SCALE as int, w as int, 2 * SCALE as int);
            crate::fixed::lemma_tdiv_bound(2 * SCALE as int, h as int, 2 * SCALE as int);
        }
        let mut t = Matrix::identity(4, 4);
        proof {
            crate::matrix::lemma_identity4_entries(t);
        }
        t.matrix[0] = ex;
        t.matrix[5] = ey;
        t.matrix[10] = ey;
        proof {
            assert forall|k: int|
                0 <= k < 16 implies t@.m[k] == scaling_view(Point { x: ex, y: ey, z: ey }).m[k] by {
                assert(t@.m[k] == t.matrix@[k] as int);
            }
            assert(t@.m =~= scaling_view(Point { x: ex, y: ey, z: ey }).m);
        }
        self.sketch.transformation = t;
        self.push(Command::Resize(w, h));
        proof {
            lemma_wf_after_neutral_push(*old(self), *self, CommandView::Resize(w, h));
        }
    }

    /// Push a poll of the window's events.
    pub fn poll_events(&mut self)
        requires
            old(self).wf(),
        ensures
            final(self).wf(),
            final(self).sketch == old(self).sketch,
            final(self).history@ == old(self).history@.push(CommandView::PollEvents),
            final(self).queue_view() =~= old(self).queue_view().push(CommandView::PollEvents),
            final(self).transformations == old(self).transformations,
            final(self).cache == old(self).cache,
            final(self).next_object_id == old(self).next_object_id,
            final(self).default_program == old(self).default_program,
    {
        self.push(Command::PollEvents);
        proof {
            lemma_wf_after_neutral_push(*old(self), *self, CommandView::PollEvents);
        }
    }

    /// Push a present of the frame.
    pub fn swap_buffers(&mut self)
        requires
            old(self).wf(),
        ensures
            final(self).wf(),
            final(self).sketch == old(self).sketch,
            final(self).history@ == old(self).history@.push(CommandView::SwapBuffers),
            final(self).queue_view() =~= old(self).queue_view().push(CommandView::SwapBuffers),
            final(self).transformations == old(self).transformations,
            final(self).cache == old(self).cache,
            final(self).next_object_id == old(self).next_object_id,
            final(self).default_program == old(self).default_program,
    {
        self.push(Command::SwapBuffers);
        proof {
            lemma_wf_after_neutral_push(*old(self), *self, CommandView::SwapBuffers);
        }
    }

    /// Push the one-time context setup.
    pub fn setup(&mut self)
        requires
            old(self).wf(),
        ensures
            final(self).wf(),
            final(self).sketch == old(self).sketch,
            final(self).history@ == old(self).history@.push(CommandView::Setup),
            final(self).queue_view() =~= old(self).queue_view().push(CommandView::Setup),
            final(self).transformations == old(self).transformations,
            final(self).cache == old(self).cache,
            final(self).next_object_id == old(self).next_object_id,
            final(self).default_program == old(self).default_program,
    {
        self.push(Command::Setup);
        proof {
            lemma_wf_after_neutral_push(*old(self), *self, CommandView::Setup);
        }
    }

    /// Reset the transform stack to a single identity, as at the start
    /// of each frame.
    pub fn reset(&mut self)
        requires
            old(self).wf(),
        ensures
            final(self).wf(),
            final(self).transformations.depth() == 1,
            final(self).transformations.top() == identity_view(4, 4),
            final(self).sketch == old(self).sketch,
            final(self).history@ == old(self).history@,
            final(self).queue@ == old(self).queue@,
            final(self).cache == old(self).cache,
            final(self).next_object_id == old(self).next_object_id,
            final(self).shader_programs == old(self).shader_programs,
            final(self).default_program == old(self).default_program,
    {
        self.transformations.reset();
    }

    /// Duplicate the top of the transform stack.
    pub fn pushMatrix(&mut self)
        requires
            old(self).wf(),
        ensures
            final(self).wf(),
            final(self).transformations.depth() == old(self).transformations.depth() + 1,
            final(self).transformations.top() == old(self).transformations.top(),
            forall|i: int|
                0 <= i < old(self).transformations.stack@.len()
                    ==> #[trigger] final(self).transformations.stack@[i] == old(
                    self,
                ).transformations.stack@[i],
            final(self).sketch == old(self).sketch,
            final(self).history@ == old(self).history@,
            final(self).cache == old(self).cache,
            final(self).queue@ == old(self).queue@,
            final(self).next_object_id == old(self).next_object_id,
            final(self).shader_programs == old(self).shader_programs,
            final(self).default_program == old(self).default_program,
    {
        self.transformations.pushMatrix();
    }

    /// Drop the top of the transform stack; a no-op on a one-entry
    /// stack, which therefore never empties.
    pub fn popMatrix(&mut self)
        requires
            old(self).wf(),
        ensures
            final(self).wf(),
            final(self).transformations.depth() == (if old(self).transformations.depth() > 1 {
                (old(self).transformations.depth() - 1) as nat
            } else {
                old(self).transformations.depth()
            }),
            final(self).transformations.depth() >= 1,
            old(self).transformations.depth() > 1 ==> final(self).transformations.stack@ == old(
                self,
            ).transformations.stack@.drop_last(),
            old(self).transformations.depth() <= 1 ==> final(self).transformations == old(
                self,
            ).transformations,
            final(self).sketch == old(self).sketch,
            final(self).history@ == old(self).history@,
            final(self).cache == old(self).cache,
            final(self).queue@ == old(self).queue@,
            final(self).next_object_id == old(self).next_object_id,
            final(self).shader_programs == old(self).shader_programs,
            final(self).default_program == old(self).default_program,
    {
        self.transformations.popMatrix();
    }

    /// Left-compose a translation onto the current transform.
    pub fn translate(&mut self, v: Point)
        requires
            old(self).wf(),
            v.bounded(),
        ensures
            final(self).wf(),
            final(self).transformations.top() == crate::matrix::spec_mul(
                crate::matrix::translation_view(v),
                old(self).transformations.top(),
            ),
            final(self).transformations.depth() == old(self).transformations.depth(),
            final(self).sketch == old(self).sketch,
            final(self).history@ == old(self).history@,
            final(self).cache == old(self).cache,
            final(self).queue@ == old(self).queue@,
            final(self).next_object_id == old(self).next_object_id,
            final(self).shader_programs == old(self).shader_programs,
            final(self).default_program == old(self).default_program,
    {
        self.transformations.translate(v);
    }

    /// Left-compose a rotation in the drawing plane (about the z axis),
    /// given the fixed-point sine and cosine of the angle.
    pub fn rotate(&mut self, s: i64, c: i64)
        requires
            old(self).wf(),
            -SCALE <= s <= SCALE,
            -SCALE <= c <= SCALE,
        ensures
            final(self).wf(),
            final(self).transformations.top() == crate::matrix::spec_mul(
                crate::matrix::rotation_z_view(s as int, c as int),
                old(self).transformations.top(),
            ),
            final(self).transformations.depth() == old(self).transformations.depth(),
            final(self).sketch == old(self).sketch,
            final(self).history@ == old(self).history@,
            final(self).cache == old(self).cache,
            final(self).queue@ == old(self).queue@,
            final(self).next_object_id == old(self).next_object_id,
            final(self).shader_programs == old(self).shader_programs,
            final(self).default_program == old(self).default_program,
    {
        self.transformations.rotate(s, c);
    }

    /// Left-compose a rotation about the x axis.
    pub fn rotateX(&mut self, s: i64, c: i64)
        requires
            old(self).wf(),
            -SCALE <= s <= SCALE,
            -SCALE <= c <= SCALE,
        ensures
            final(self).wf(),
            final(self).transformations.top() == crate::matrix::spec_mul(
                crate::matrix::rotation_x_view(s as int, c as int),
                old(self).transformations.top(),
            ),
            final(self).transformations.depth() == old(self).transformations.depth(),
            final(self).sketch == old(self).sketch,
            final(self).history@ == old(self).history@,
            final(self).cache == old(self).cache,
            final(self).queue@ == old(self).queue@,
            final(self).next_object_id == old(self).next_object_id,
            final(self).shader_programs == old(self).shader_programs,
            final(self).default_program == old(self).default_program,
    {
        self.transformations.rotateX(s, c);
    }

    /// Left-compose a rotation about the y axis.
    pub fn rotateY(&mut self, s: i64, c: i64)
        requires
            old(self).wf(),
            -SCALE <= s <= SCALE,
            -SCALE <= c <= SCALE,
        ensures
            final(self).wf(),
            final(self).transformations.top() == crate::matrix::spec_mul(
                crate::matrix::rotation_y_view(s as int, c as int),
                old(self).transformations.top(),
            ),
            final(self).transformations.depth() == old(self).transformations.depth(),
            final(self).sketch == old(self).sketch,
            final(self).history@ == old(self).history@,
            final(self).cache == old(self).cache,
            final(self).queue@ == old(self).queue@,
            final(self).next_object_id == old(self).next_object_id,
            final(self).shader_programs == old(self).shader_programs,
            final(self).default_program == old(self).default_program,
    {
        self.transformations.rotateY(s, c);
    }

    /// Left-compose a rotation about the z axis.
    pub fn rotateZ(&mut self, s: i64, c: i64)
        requires
            old(self).wf(),
            -SCALE <= s <= SCALE,
            -SCALE <= c <= SCALE,
        ensures
            final(self).wf(),
            final(self).transformations.top() == crate::matrix::spec_mul(
                crate::matrix::rotation_z_view(s as int, c as int),
                old(self).transformations.top(),
            ),
            final(self).transformations.depth() == old(self).transformations.depth(),
            final(self).sketch == old(self).sketch,
            final(self).history@ == old(self).history@,
            final(self).cache == old(self).cache,
            final(self).queue@ == old(self).queue@,
            final(self).next_object_id == old(self).next_object_id,
            final(self).shader_programs == old(self).shader_programs,
            final(self).default_program == old(self).default_program,
    {
        self.transformations.rotateZ(s, c);
    }

    /// Left-compose a non-uniform scaling.
    pub fn scale(&mut self, factors: Point)
        requires
            old(self).wf(),
            factors.bounded(),
        ensures
            final(self).wf(),
            final(self).transformations.top() == crate::matrix::spec_mul(
                crate::matrix::scaling_view(factors),
                old(self).transformations.top(),
            ),
            final(self).transformations.depth() == old(self).transformations.depth(),
            final(self).sketch == old(self).sketch,
            final(self).history@ == old(self).history@,
            final(self).cache == old(self).cache,
            final(self).queue@ == old(self).queue@,
            final(self).next_object_id == old(self).next_object_id,
            final(self).shader_programs == old(self).shader_programs,
            final(self).default_program == old(self).default_program,
    {
        self.transformations.scale(factors);
    }

    /// Read-only access to the transform stack's entries.
    pub fn getTransformations(&self) -> (r: &Vec<Matrix>)
        ensures
            r@ == self.transformations.stack@,
    {
        self.transformations.getTransformations()
    }

    /// Record the default program handle answered by the GPU side.
    pub fn set_default_program(&mut self, program: u64)
        requires
            old(self).wf(),
        ensures
            final(self).wf(),
            *final(self) == (Canvas { default_program: program, ..*old(self) }),
    {
        self.default_program = program;
    }

    /// Record the outcome of a custom shader pair's round trip.  A
    /// successful compile (`Some(program)`) records the pair under that
    /// handle, so every later request for it answers `Ready(program)`
    /// without recompiling.  A failed compile or link (`None`) falls
    /// back to the default program — drawing continues with degraded
    /// visuals — and the broken handle never enters the table.
    pub fn set_shader_program(
        &mut self,
        vertex_shader: Option<String>,
        fragment_shader: Option<String>,
        outcome: Option<u64>,
    )
        requires
            old(self).wf(),
        ensures
            final(self).wf(),
            final(self).sketch == old(self).sketch,
            final(self).transformations == old(self).transformations,
            final(self).history@ == old(self).history@,
            final(self).cache == old(self).cache,
            final(self).queue@ == old(self).queue@,
            final(self).next_object_id == old(self).next_object_id,
            final(self).default_program == old(self).default_program,
            shader_views(final(self).shader_programs@) =~= shader_views(
                old(self).shader_programs@,
            ).push(
                ShaderEntryView {
                    vertex_shader: vs_view(vertex_shader),
                    fragment_shader: vs_view(fragment_shader),
                    program: (match outcome {
                        Some(p) => p,
                        None => old(self).default_program,
                    }),
                },
            ),
            spec_shader_lookup(
                shader_views(old(self).shader_programs@),
                vs_view(vertex_shader),
                vs_view(fragment_shader),
            ) is None ==> spec_shader_lookup(
                shader_views(final(self).shader_programs@),
                vs_view(vertex_shader),
                vs_view(fragment_shader),
            ) == Some(
                match outcome {
                    Some(p) => p,
                    None => old(self).default_program,
                },
            ),
    {
        let program = match outcome {
            Some(p) => p,
            None => self.default_program,
        };
        let ghost s0 = shader_views(self.shader_programs@);
        self.shader_programs.push(
            ShaderEntry { vertex_shader, fragment_shader, program },
        );
        proof {
            let s = shader_views(self.shader_programs@);
            let e = ShaderEntryView {
                vertex_shader: vs_view(vertex_shader),
                fragment_shader: vs_view(fragment_shader),
                program,
            };
            assert(s =~= s0.push(e));
            if spec_shader_lookup(s0, e.vertex_shader, e.fragment_shader) is None {
                lemma_shader_lookup_after_push(s0, e);
            }
        }
    }

    /// Resolve a shader pair to a program handle.  Plain draws — no
    /// custom sources — use the default program; the first request for
    /// it, and the first request for each distinct custom pair, pushes a
    /// round-trip command and reports `Pending` until the GPU side's
    /// reply is recorded.  Every later request for the same pair answers
    /// from the canvas's own table without pushing anything.
    pub fn get_shader_program(
        &mut self,
        vertex_shader: Option<String>,
        fragment_shader: Option<String>,
    ) -> (r: ShaderResolution)
        requires
            old(self).wf(),
        ensures
            final(self).wf(),
            final(self).sketch == old(self).sketch,
            final(self).cache == old(self).cache,
            final(self).next_object_id == old(self).next_object_id,
            final(self).shader_programs@ == old(self).shader_programs@,
            final(self).default_program == old(self).default_program,
            ({
                let vs = vs_view(vertex_shader);
                let fs = vs_view(fragment_shader);
                if vs is None && fs is None {
                    if old(self).default_program != 0 {
                        r == ShaderResolution::Ready(old(self).default_program)
                            && final(self).history@ == old(self).history@
                            && final(self).queue@ == old(self).queue@
                    } else {
                        r == ShaderResolution::Pending && final(self).history@ == old(
                            self,
                        ).history@.push(CommandView::GetDefaultProgram)
                            && final(self).queue_view() =~= old(self).queue_view().push(
                            CommandView::GetDefaultProgram,
                        )
                    }
                } else {
                    match spec_shader_lookup(
                        shader_views(old(self).shader_programs@),
                        vs,
                        fs,
                    ) {
                        Some(p) => r == ShaderResolution::Ready(p) && final(self).history@ == old(
                            self,
                        ).history@ && final(self).queue@ == old(self).queue@,
                        None => r == ShaderResolution::Pending && final(self).history@ == old(
                            self,
                        ).history@.push(
                            CommandView::CompileProgram { vertex_shader: vs, fragment_shader: fs },
                        ) && final(self).queue_view() =~= old(self).queue_view().push(
                            CommandView::CompileProgram { vertex_shader: vs, fragment_shader: fs },
                        ),
                    }
                }
            }),
    {
        if vertex_shader.is_none() && fragment_shader.is_none() {
            if self.default_program != 0 {
                return ShaderResolution::Ready(self.default_program);
            }
            self.push(Command::GetDefaultProgram);
            proof {
                lemma_wf_after_neutral_push(*old(self), *self, CommandView::GetDefaultProgram);
            }
            return ShaderResolution::Pending;
        }
        let mut i: usize = 0;
        let n = self.shader_programs.len();
        while i < n
            invariant
                *self == *old(self),
                old(self).wf(),
                !(vs_view(vertex_shader) is None && vs_view(fragment_shader) is None),
                n == self.shader_programs@.len(),
                i <= n,
                forall|j: int|
                    0 <= j < i ==> !entry_matches(
                        (#[trigger] self.shader_programs@[j])@,
                        vs_view(vertex_shader),
                        vs_view(fragment_shader),
                    ),
            decreases n - i,
        {
            let hit_vs = opt_string_eq(&self.shader_programs[i].vertex_shader, &vertex_shader);
            let hit_fs = opt_string_eq(&self.shader_programs[i].fragment_shader, &fragment_shader);
            if hit_vs && hit_fs {
                let p = self.shader_programs[i].program;
                proof {
                    let s = shader_views(self.shader_programs@);
                    let vs = vs_view(vertex_shader);
                    let fs = vs_view(fragment_shader);
                    assert(s[i as int] == self.shader_programs@[i as int]@);
                    assert(entry_matches(s[i as int], vs, fs));
                    assert forall|j: int| 0 <= j < i implies !entry_matches(
                        #[trigger] s[j],
                        vs,
                        fs,
                    ) by {
                        assert(s[j] == self.shader_programs@[j]@);
                    }
                    lemma_shader_lookup_at(s, vs, fs, i as int, p);
                }
                return ShaderResolution::Ready(p);
            }
            i = i + 1;
        }
        proof {
            let s = shader_views(self.shader_programs@);
            assert forall|j: int| 0 <= j < s.len() implies !entry_matches(
                #[trigger] s[j],
                vs_view(vertex_shader),
                vs_view(fragment_shader),
            ) by {
                assert(s[j] == self.shader_programs@[j]@);
            }
            lemma_shader_lookup_absent(s, vs_view(vertex_shader), vs_view(fragment_shader));
        }
        let cmd = Command::CompileProgram { vertex_shader, fragment_shader };
        let ghost cv = cmd@;
        self.push(cmd);
        proof {
            lemma_wf_after_neutral_push(*old(self), *self, cv);
        }
        ShaderResolution::Pending
    }
}

/// The well-formedness of a canvas, over its state components; the
/// pending queue plays no part in it.
pub open spec fn wf_state(
    sketch: Sketch,
    transformations: TransformStack,
    cache: ShapeCache,
    next_object_id: u64,
    history: Seq<CommandView>,
) -> bool {
    &&& sketch.wf()
    &&& transformations.wf()
    &&& cache.wf()
    &&& forall|i: int|
        0 <= i < cache.view_entries().len() ==> (#[trigger] cache.view_entries()[i]).id
            < next_object_id
    &&& forall|i: int|
        0 <= i < cache.view_entries().len() ==> count_creates(
            history,
            (#[trigger] cache.view_entries()[i]).id,
        ) == 1
    &&& forall|i: int|
        0 <= i < cache.view_entries().len() ==> count_deletes(
            history,
            (#[trigger] cache.view_entries()[i]).id,
        ) == 0
    &&& forall|id: u64| #[trigger] count_creates(history, id) <= 1
    &&& forall|id: u64| #[trigger] count_deletes(history, id) <= count_creates(history, id)
    &&& forall|id: u64| id >= next_object_id ==> #[trigger] count_creates(history, id) == 0
}

impl Canvas {
    /// The work the sketch loop performs at the start of every frame:
    /// poll window events, reset the transform stack to a single
    /// identity, and clear the screen to the background color.
    pub fn begin_frame(&mut self)
        requires
            old(self).wf(),
        ensures
            final(self).wf(),
            final(self).transformations.depth() == 1,
            final(self).transformations.top() == identity_view(4, 4),
            final(self).sketch == old(self).sketch,
            final(self).history@ == old(self).history@.push(CommandView::PollEvents).push(
                CommandView::Clear(old(self).sketch.background),
            ),
            final(self).queue_view() =~= old(self).queue_view().push(
                CommandView::PollEvents,
            ).push(CommandView::Clear(old(self).sketch.background)),
            final(self).cache == old(self).cache,
            final(self).next_object_id == old(self).next_object_id,
    {
        self.poll_events();
        self.reset();
        self.draw_background();
    }

    /// The work the sketch loop performs at the end of every frame:
    /// push the present of the frame and hand the whole batch to the
    /// channel.  Delivery fails while the previous frame's batch has
    /// not been consumed — the backpressure that keeps the sketch at
    /// most one frame ahead.
    pub fn end_frame(&mut self, channel: &mut CommandChannel) -> (delivered: bool)
        requires
            old(self).wf(),
        ensures
            final(self).wf(),
            old(channel).contents() is None ==> delivered && final(channel).contents() == Some(
                old(self).queue_view().push(CommandView::SwapBuffers),
            ) && final(self).queue_view() =~= Seq::<CommandView>::empty(),
            old(channel).contents() is Some ==> !delivered && final(channel).contents() == old(
                channel,
            ).contents() && final(self).queue_view() =~= old(self).queue_view().push(
                CommandView::SwapBuffers,
            ),
            final(self).sketch == old(self).sketch,
            final(self).history@ == old(self).history@.push(CommandView::SwapBuffers),
            final(self).cache == old(self).cache,
            final(self).next_object_id == old(self).next_object_id,
    {
        self.swap_buffers();
        self.send(channel)
    }
}

/// The joint effect of drawing one descriptor: the cache afterwards, the
/// id allocator afterwards, and the commands pushed, in order.
pub ghost struct DrawEffect {
    pub cache: Seq<CacheEntryView>,
    pub next_object_id: u64,
    pub pushed: Seq<CommandView>,
}

/// What drawing a descriptor does.  On a hit, the entry moves to the
/// most-recent end and a single draw command is pushed.  On a miss, a
/// fresh id is allocated, the descriptor enters the cache — evicting the
/// least recently used entry (the front) when the cache is full, whose
/// deletion is pushed first — and a creation command carrying the
/// descriptor is pushed, followed by a draw command.
pub open spec fn spec_draw_shape(
    cache: Seq<CacheEntryView>,
    capacity: nat,
    next_object_id: u64,
    d: DescView,
) -> DrawEffect {
    let f = spec_find(cache, d);
    if f >= 0 {
        DrawEffect {
            cache: cache.remove(f).push(cache[f]),
            next_object_id,
            pushed: seq![CommandView::DrawObject { id: cache[f].id }],
        }
    } else {
        let entry = CacheEntryView { descriptor: d, id: next_object_id };
        if cache.len() < capacity {
            DrawEffect {
                cache: cache.push(entry),
                next_object_id: (next_object_id + 1) as u64,
                pushed: seq![
                    CommandView::CreateObject { id: next_object_id, descriptor: d },
                    CommandView::DrawObject { id: next_object_id },
                ],
            }
        } else {
            DrawEffect {
                cache: cache.skip(1).push(entry),
                next_object_id: (next_object_id + 1) as u64,
                pushed: seq![
                    CommandView::DeleteObject { id: cache[0].id },
                    CommandView::CreateObject { id: next_object_id, descriptor: d },
                    CommandView::DrawObject { id: next_object_id },
                ],
            }
        }
    }
}

/// How one draw call relates the canvas before it to the canvas after
/// it: the cache, the id allocator, the pending queue and the history
/// advance by [`spec_draw_shape`]'s effect, and all other state is kept.
pub open spec fn draw_transition(pre: Canvas, post: Canvas, d: DescView) -> bool {
    let eff = spec_draw_shape(
        pre.cache.view_entries(),
        pre.cache.capacity as nat,
        pre.next_object_id,
        d,
    );
    &&& post.cache.view_entries() == eff.cache
    &&& post.cache.capacity == pre.cache.capacity
    &&& post.next_object_id == eff.next_object_id
    &&& post.queue_view() == pre.queue_view() + eff.pushed
    &&& post.history@ == pre.history@ + eff.pushed
    &&& post.sketch == pre.sketch
    &&& post.transformations == pre.transformations
    &&& post.shader_programs == pre.shader_programs
    &&& post.default_program == pre.default_program
}

impl Canvas {
    /// Draw one canonical shape through the cache: push a draw of the
    /// already-uploaded object on a hit, or a creation (preceded, when
    /// the cache is full, by the deletion of the evicted least recently
    /// used object) and a draw on a miss.
    pub fn draw_shape(&mut self, descriptor: ShapeDescriptor)
        requires
            old(self).wf(),
            old(self).next_object_id < u64::MAX,
        ensures
            final(self).wf(),
            draw_transition(*old(self), *final(self), descriptor@),
    {
        let ghost s = old(self).cache.view_entries();
        let ghost d = descriptor@;
        let ghost h0 = old(self).history@;
        proof {
            crate::cache::lemma_find(s, d);
        }
        let hit = self.cache.lookup(&descriptor);
        match hit {
            Some(id) => {
                let ghost f = spec_find(s, d);
                self.push(Command::DrawObject { id });
                proof {
                    let c = CommandView::DrawObject { id };
                    lemma_counts_push(h0, c);
                    assert(self.history@ == h0.push(c));
                    let t = self.cache.view_entries();
                    assert forall|i: int|
                        0 <= i < t.len() implies (#[trigger] t[i]).id < self.next_object_id
                            && count_creates(self.history@, t[i].id) == 1 && count_deletes(
                            self.history@,
                            t[i].id,
                        ) == 0 by {
                        let j: int = if i < f {
                            i
                        } else if i == t.len() - 1 {
                            f
                        } else {
                            i + 1
                        };
                        assert(t[i] == s[j]);
                        assert(s[j].id < old(self).next_object_id);
                        assert(count_creates(h0, s[j].id) == 1);
                        assert(count_deletes(h0, s[j].id) == 0);
                    }
                    assert(self.queue_view() =~= old(self).queue_view() + seq![c]);
                    assert(self.history@ =~= h0 + seq![c]);
                }
            },
            None => {
                let id = self.next_object_id;
                self.next_object_id = id + 1;
                let copy = clone_descriptor(&descriptor);
                proof {
                    assert forall|i: int| 0 <= i < self.cache.view_entries().len() implies (
                    #[trigger] self.cache.view_entries()[i]).id != id by {
                        assert(self.cache.view_entries()[i] == s[i]);
                        assert(s[i].id < id);
                    }
                }
                let evicted = self.cache.insert(descriptor, id);
                let ghost evicted_pushed: Seq<CommandView> = match evicted {
                    Some(eid) => seq![CommandView::DeleteObject { id: eid }],
                    None => Seq::empty(),
                };
                match evicted {
                    Some(eid) => {
                        self.push(Command::DeleteObject { id: eid });
                    },
                    None => {},
                }
                self.push(Command::CreateObject { id, descriptor: copy });
                self.push(Command::DrawObject { id });
                proof {
                    lemma_draw_shape_miss_wf(*old(self), *self, s, d, id, evicted);
                    let eff = spec_draw_shape(
                        s,
                        old(self).cache.capacity as nat,
                        old(self).next_object_id,
                        d,
                    );
                    assert(self.queue_view() =~= old(self).queue_view() + eff.pushed);
                    assert(self.history@ =~= h0 + eff.pushed);
                    assert(self.cache.view_entries() =~= eff.cache);
                }
            },
        }
    }
}

/// The bookkeeping of a cache miss: after (possibly) one deletion of the
/// evicted front entry, one creation under the fresh id and one draw,
/// the canvas's history invariants all hold again.
proof fn lemma_draw_shape_miss_wf(
    pre: Canvas,
    post: Canvas,
    s: Seq<CacheEntryView>,
    d: DescView,
    id: u64,
    evicted: Option<u64>,
)
    requires
        pre.wf(),
        pre.next_object_id < u64::MAX,
        s == pre.cache.view_entries(),
        !spec_has(s, d),
        id == pre.next_object_id,
        post.next_object_id == id + 1,
        post.sketch == pre.sketch,
        post.transformations == pre.transformations,
        post.cache.capacity == pre.cache.capacity,
        post.cache.wf(),
        ({
            if s.len() < pre.cache.capacity {
                evicted is None && post.cache.view_entries() =~= s.push(
                    CacheEntryView { descriptor: d, id },
                ) && post.history@ =~= pre.history@.push(
                    CommandView::CreateObject { id, descriptor: d },
                ).push(CommandView::DrawObject { id })
            } else {
                evicted == Some(s[0].id) && post.cache.view_entries() =~= s.skip(1).push(
                    CacheEntryView { descriptor: d, id },
                ) && post.history@ =~= pre.history@.push(
                    CommandView::DeleteObject { id: s[0].id },
                ).push(CommandView::CreateObject { id, descriptor: d }).push(
                    CommandView::DrawObject { id },
                )
            }
        }),
    ensures
        post.wf(),
{
    let h0 = pre.history@;
    let create = CommandView::CreateObject { id, descriptor: d };
    let draw = CommandView::DrawObject { id };
    let t = post.cache.view_entries();
    if s.len() < pre.cache.capacity {
        let h1 = h0.push(create);
        let h2 = h1.push(draw);
        lemma_counts_push(h0, create);
        lemma_counts_push(h1, draw);
        assert(post.history@ == h2);
        assert(count_creates(h2, id) == 1) by {
            assert(count_creates(h0, id) == 0);
        }
        assert forall|i: int|
            0 <= i < t.len() implies (#[trigger] t[i]).id < post.next_object_id && count_creates(
                post.history@,
                t[i].id,
            ) == 1 && count_deletes(post.history@, t[i].id) == 0 by {
            if i < t.len() - 1 {
                assert(t[i] == s[i]);
                assert(s[i].id < pre.next_object_id);
                assert(count_creates(h0, s[i].id) == 1);
                assert(count_deletes(h0, s[i].id) == 0);
            } else {
                assert(t[i] == CacheEntryView { descriptor: d, id });
                assert(count_deletes(h0, id) <= count_creates(h0, id));
            }
        }
        assert forall|x: u64| #[trigger] count_creates(post.history@, x) <= 1 by {
            if x != id {
                assert(count_creates(h2, x) == count_creates(h0, x));
            }
        }
        assert forall|x: u64| #[trigger] count_deletes(post.history@, x) <= count_creates(
            post.history@,
            x,
        ) by {
            assert(count_deletes(h2, x) == count_deletes(h0, x));
            if x != id {
                assert(count_creates(h2, x) == count_creates(h0, x));
            } else {
                assert(count_deletes(h0, id) <= count_creates(h0, id));
            }
        }
        assert forall|x: u64|
            x >= post.next_object_id implies #[trigger] count_creates(post.history@, x) == 0 by {
            assert(x >= pre.next_object_id);
            assert(count_creates(h0, x) == 0);
            assert(x != id);
        }
    } else {
        let del = CommandView::DeleteObject { id: s[0].id };
        let h1 = h0.push(del);
        let h2 = h1.push(create);
        let h3 = h2.push(draw);
        lemma_counts_push(h0, del);
        lemma_counts_push(h1, create);
        lemma_counts_push(h2, draw);
        assert(post.history@ == h3);
        assert(s.len() >= 1);
        assert(s[0].id < pre.next_object_id);
        assert(count_creates(h0, id) == 0);
        assert(count_creates(h3, id) == 1);
        assert forall|i: int|
            0 <= i < t.len() implies (#[trigger] t[i]).id < post.next_object_id && count_creates(
                post.history@,
                t[i].id,
            ) == 1 && count_deletes(post.history@, t[i].id) == 0 by {
            if i < t.len() - 1 {
                assert(t[i] == s[i + 1]);
                assert(s[i + 1].id < pre.next_object_id);
                assert(count_creates(h0, s[i + 1].id) == 1);
                assert(count_deletes(h0, s[i + 1].id) == 0);
                assert(s[i + 1].id != s[0].id);
                assert(s[i + 1].id != id);
            } else {
                assert(t[i] == CacheEntryView { descriptor: d, id });
                assert(count_deletes(h0, id) <= count_creates(h0, id));
                assert(s[0].id != id);
            }
        }
        assert forall|x: u64| #[trigger] count_creates(post.history@, x) <= 1 by {
            if x != id {
                assert(count_creates(h3, x) == count_creates(h0, x));
            }
        }
        assert forall|x: u64| #[trigger] count_deletes(post.history@, x) <= count_creates(
            post.history@,
            x,
        ) by {
            if x == s[0].id {
                assert(count_deletes(h0, x) == 0);
                assert(count_creates(h0, x) == 1);
                assert(x != id);
                assert(count_deletes(h3, x) == 1);
                assert(count_creates(h3, x) == 1);
            } else {
                assert(count_deletes(h3, x) == count_deletes(h0, x));
                if x != id {
                    assert(count_creates(h3, x) == count_creates(h0, x));
                } else {
                    assert(count_deletes(h0, id) <= count_creates(h0, id));
                }
            }
        }
        assert forall|x: u64|
            x >= post.next_object_id implies #[trigger] count_creates(post.history@, x) == 0 by {
            assert(x >= pre.next_object_id);
            assert(count_creates(h0, x) == 0);
            assert(x != id);
        }
    }
}

/// Pushing one command raises the create (or delete) count of exactly
/// the object it creates (or deletes), by one, and no other count.
proof fn lemma_counts_push(h: Seq<CommandView>, c: CommandView)
    ensures
        forall|id: u64| #[trigger] count_creates(h.push(c), id) == count_creates(h, id) + (
        match c {
            CommandView::CreateObject { id: i, .. } => if i == id {
                1nat
            } else {
                0nat
            },
            _ => 0nat,
        }),
        forall|id: u64| #[trigger] count_deletes(h.push(c), id) == count_deletes(h, id) + (
        match c {
            CommandView::DeleteObject { id: i } => if i == id {
                1nat
            } else {
                0nat
            },
            _ => 0nat,
        }),
{
    assert forall|id: u64| #[trigger] count_creates(h.push(c), id) == count_creates(h, id) + (
    match c {
        CommandView::CreateObject { id: i, .. } => if i == id {
            1nat
        } else {
            0nat
        },
        _ => 0nat,
    }) by {
        assert(h.push(c).drop_last() =~= h);
        assert(h.push(c).last() == c);
    }
    assert forall|id: u64| #[trigger] count_deletes(h.push(c), id) == count_deletes(h, id) + (
    match c {
        CommandView::DeleteObject { id: i } => if i == id {
            1nat
        } else {
            0nat
        },
        _ => 0nat,
    }) by {
        assert(h.push(c).drop_last() =~= h);
        assert(h.push(c).last() == c);
    }
}

/// Law (round-trip idempotence): drawing a shape leaves its descriptor
/// cached, so drawing the same descriptor again — same geometry, color,
/// transform and shaders, hence an equal descriptor — is a cache hit:
/// the second draw pushes exactly one draw command, no creation and no
/// deletion, and allocates no object id.
pub proof fn lemma_repeat_draw_is_cache_hit(
    cache: Seq<CacheEntryView>,
    capacity: nat,
    next_object_id: u64,
    d: DescView,
)
    requires
        capacity >= 1,
        cache.len() <= capacity,
    ensures
        ({
            let first = spec_draw_shape(cache, capacity, next_object_id, d);
            let second = spec_draw_shape(first.cache, capacity, first.next_object_id, d);
            let f = spec_find(first.cache, d);
            &&& f >= 0
            &&& second.pushed =~= seq![
                CommandView::DrawObject { id: first.cache[f].id },
            ]
            &&& second.next_object_id == first.next_object_id
            &&& second.cache =~= first.cache.remove(f).push(first.cache[f])
        }),
{
    let first = spec_draw_shape(cache, capacity, next_object_id, d);
    crate::cache::lemma_find(cache, d);
    assert(first.cache.len() >= 1);
    assert(first.cache[first.cache.len() - 1].descriptor == d);
    crate::cache::lemma_find(first.cache, d);
    if spec_find(first.cache, d) == -1 {
        assert(first.cache[first.cache.len() - 1].descriptor != d);
    }
    let f2 = spec_find(first.cache, d);
    assert(f2 >= 0);
}

/// Law (cache eviction correctness): a miss against a full cache evicts
/// exactly the least recently used entry — the front.  The step pushes
/// one deletion, aimed at that entry's id; the evicted id is no longer
/// cached afterwards; and no id that remains cached is the target of
/// any deletion this step pushes.
pub proof fn lemma_eviction_deletes_lru(
    cache: Seq<CacheEntryView>,
    capacity: nat,
    next_object_id: u64,
    d: DescView,
)
    requires
        capacity >= 1,
        cache.len() == capacity,
        !spec_has(cache, d),
        forall|i: int, j: int|
            0 <= i < j < cache.len() ==> (#[trigger] cache[i]).id != (#[trigger] cache[j]).id,
        forall|i: int| 0 <= i < cache.len() ==> (#[trigger] cache[i]).id < next_object_id,
    ensures
        ({
            let eff = spec_draw_shape(cache, capacity, next_object_id, d);
            &&& eff.pushed.len() == 3
            &&& eff.pushed[0] == CommandView::DeleteObject { id: cache[0].id }
            &&& !(eff.pushed[1] is DeleteObject)
            &&& !(eff.pushed[2] is DeleteObject)
            &&& forall|i: int|
                0 <= i < eff.cache.len() ==> (#[trigger] eff.cache[i]).id != cache[0].id
        }),
{
    crate::cache::lemma_find(cache, d);
    let eff = spec_draw_shape(cache, capacity, next_object_id, d);
    assert forall|i: int|
        0 <= i < eff.cache.len() implies (#[trigger] eff.cache[i]).id != cache[0].id by {
        if i < eff.cache.len() - 1 {
            assert(eff.cache[i] == cache[i + 1]);
        } else {
            assert(eff.cache[i].id == next_object_id);
            assert(cache[0].id < next_object_id);
        }
    }
}

/// Law (deletions are sound): in any well-formed canvas, every object
/// id has been the target of at most one deletion command over the
/// whole history, and no id still referenced by a cache entry has ever
/// been the target of one.
pub proof fn lemma_deletions_unique(c: Canvas)
    requires
        c.wf(),
    ensures
        forall|id: u64| #[trigger] count_deletes(c.history@, id) <= 1,
        forall|i: int|
            0 <= i < c.cache.view_entries().len() ==> count_deletes(
                c.history@,
                (#[trigger] c.cache.view_entries()[i]).id,
            ) == 0,
{
    assert forall|id: u64| #[trigger] count_deletes(c.history@, id) <= 1 by {
        assert(count_deletes(c.history@, id) <= count_creates(c.history@, id));
        assert(count_creates(c.history@, id) <= 1);
    }
}

/// The views of the compiled-shader records, in order.
pub open spec fn shader_views(s: Seq<ShaderEntry>) -> Seq<ShaderEntryView> {
    s.map_values(|e: ShaderEntry| e@)
}

/// The view of an optional shader source.
pub open spec fn vs_view(s: Option<String>) -> Option<Seq<char>> {
    match s {
        Some(t) => Some(t@),
        None => None,
    }
}

/// Whether a shader record holds exactly this source pair.
pub open spec fn entry_matches(
    e: ShaderEntryView,
    vs: Option<Seq<char>>,
    fs: Option<Seq<char>>,
) -> bool {
    e.vertex_shader == vs && e.fragment_shader == fs
}

/// The program recorded for a source pair, if any.
pub open spec fn spec_shader_lookup(
    s: Seq<ShaderEntryView>,
    vs: Option<Seq<char>>,
    fs: Option<Seq<char>>,
) -> Option<u64>
    decreases s.len(),
{
    if s.len() == 0 {
        None
    } else if entry_matches(s[0], vs, fs) {
        Some(s[0].program)
    } else {
        spec_shader_lookup(s.skip(1), vs, fs)
    }
}

/// If some record matches, the lookup answers (with the first match's
/// handle, in particular with `p` when record `i` is the first match).
proof fn lemma_shader_lookup_at(
    s: Seq<ShaderEntryView>,
    vs: Option<Seq<char>>,
    fs: Option<Seq<char>>,
    i: int,
    p: u64,
)
    requires
        0 <= i < s.len(),
        entry_matches(s[i], vs, fs),
        forall|j: int| 0 <= j < i ==> !entry_matches(#[trigger] s[j], vs, fs),
        s[i].program == p,
    ensures
        spec_shader_lookup(s, vs, fs) == Some(p),
    decreases s.len(),
{
    if i > 0 {
        assert forall|j: int| 0 <= j < i - 1 implies !entry_matches(
            #[trigger] s.skip(1)[j],
            vs,
            fs,
        ) by {
            assert(s.skip(1)[j] == s[j + 1]);
        }
        assert(s.skip(1)[i - 1] == s[i]);
        lemma_shader_lookup_at(s.skip(1), vs, fs, i - 1, p);
    }
}

/// If no record matches, the lookup answers nothing.
proof fn lemma_shader_lookup_absent(
    s: Seq<ShaderEntryView>,
    vs: Option<Seq<char>>,
    fs: Option<Seq<char>>,
)
    requires
        forall|j: int| 0 <= j < s.len() ==> !entry_matches(#[trigger] s[j], vs, fs),
    ensures
        spec_shader_lookup(s, vs, fs) is None,
    decreases s.len(),
{
    if s.len() > 0 {
        assert forall|j: int| 0 <= j < s.len() - 1 implies !entry_matches(
            #[trigger] s.skip(1)[j],
            vs,
            fs,
        ) by {
            assert(s.skip(1)[j] == s[j + 1]);
        }
        lemma_shader_lookup_absent(s.skip(1), vs, fs);
    }
}

/// Recording a pair that the table does not yet hold makes the lookup
/// answer exactly the recorded handle.
proof fn lemma_shader_lookup_after_push(s: Seq<ShaderEntryView>, e: ShaderEntryView)
    requires
        spec_shader_lookup(s, e.vertex_shader, e.fragment_shader) is None,
    ensures
        spec_shader_lookup(s.push(e), e.vertex_shader, e.fragment_shader) == Some(e.program),
    decreases s.len(),
{
    let t = s.push(e);
    if s.len() == 0 {
        assert(t[0] == e);
        assert(entry_matches(t[0], e.vertex_shader, e.fragment_shader));
    } else {
        assert(t[0] == s[0]);
        if entry_matches(s[0], e.vertex_shader, e.fragment_shader) {
            assert(spec_shader_lookup(s, e.vertex_shader, e.fragment_shader) is Some);
        }
        assert(t.skip(1) =~= s.skip(1).push(e));
        lemma_shader_lookup_after_push(s.skip(1), e);
    }
}

/// A canvas whose state components all match a well-formed one is
/// well-formed; only the pending queue may differ.
proof fn lemma_wf_components(pre: Canvas, post: Canvas)
    requires
        pre.wf(),
        post.history@ == pre.history@,
        post.sketch == pre.sketch,
        post.transformations == pre.transformations,
        post.cache == pre.cache,
        post.next_object_id == pre.next_object_id,
    ensures
        post.wf(),
{
    assert forall|i: int|
        0 <= i < post.cache.view_entries().len() implies (
    #[trigger] post.cache.view_entries()[i]).id < post.next_object_id && count_creates(
        post.history@,
        post.cache.view_entries()[i].id,
    ) == 1 && count_deletes(post.history@, post.cache.view_entries()[i].id) == 0 by {
        assert(post.cache.view_entries() == pre.cache.view_entries());
        assert(post.cache.view_entries()[i] == pre.cache.view_entries()[i]);
        assert(pre.cache.view_entries()[i].id < pre.next_object_id);
        assert(count_creates(pre.history@, pre.cache.view_entries()[i].id) == 1);
        assert(count_deletes(pre.history@, pre.cache.view_entries()[i].id) == 0);
        assert(count_creates(post.history@, post.cache.view_entries()[i].id) == count_creates(
            pre.history@,
            pre.cache.view_entries()[i].id,
        ));
    }
}

/// Counts over the empty history are zero.
proof fn lemma_counts_empty(h: Seq<CommandView>)
    requires
        h.len() == 0,
    ensures
        forall|id: u64| #[trigger] count_creates(h, id) == 0,
        forall|id: u64| #[trigger] count_deletes(h, id) == 0,
{
}

/// Pushing a command that neither creates nor deletes an object leaves
/// every create and delete count unchanged, so a canvas stays
/// well-formed when only such a command was pushed.
proof fn lemma_wf_after_neutral_push(pre: Canvas, post: Canvas, c: CommandView)
    requires
        pre.wf(),
        !(c is CreateObject),
        !(c is DeleteObject),
        post.history@ == pre.history@.push(c),
        post.sketch.wf(),
        post.transformations == pre.transformations,
        post.cache == pre.cache,
        post.next_object_id == pre.next_object_id,
    ensures
        post.wf(),
{
    assert forall|id: u64| #[trigger] count_creates(post.history@, id) == count_creates(
        pre.history@,
        id,
    ) by {
        assert(post.history@.drop_last() =~= pre.history@);
        assert(post.history@.last() == c);
    }
    assert forall|id: u64| #[trigger] count_deletes(post.history@, id) == count_deletes(
        pre.history@,
        id,
    ) by {
        assert(post.history@.drop_last() =~= pre.history@);
        assert(post.history@.last() == c);
    }
    assert(post.transformations.wf());
    assert(post.cache.wf());
    assert forall|i: int|
        0 <= i < post.cache.view_entries().len() implies (
    #[trigger] post.cache.view_entries()[i]).id < post.next_object_id && count_creates(
        post.history@,
        post.cache.view_entries()[i].id,
    ) == 1 && count_deletes(post.history@, post.cache.view_entries()[i].id) == 0 by {
        assert(post.cache.view_entries() == pre.cache.view_entries());
        assert(pre.cache.view_entries()[i].id < pre.next_object_id);
        assert(count_creates(pre.history@, pre.cache.view_entries()[i].id) == 1);
        assert(count_deletes(pre.history@, pre.cache.view_entries()[i].id) == 0);
    }
}

} // verus!
