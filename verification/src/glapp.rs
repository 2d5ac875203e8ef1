//! The GPU-facing side: the frame batch that accumulates raw vertex and
//! index data, and the context owner that executes commands in order.
//!
//! The owner is the single keeper of every GPU object: it allocates
//! names, uploads data, draws, and deletes — always by executing one
//! command at a time, in push order, and never reordering.  Its output
//! is a list of plain actions; the thin platform layer around the crate
//! maps each action onto one graphics call.

use vstd::prelude::*;

use crate::color::Color;
use crate::command::{Command, CommandView};
use crate::shape::ShapeDescriptor;

verus! {

/// One batched shape: which program draws it, where its indices start
/// (in bytes), and how many triangles it spans.
#[derive(Clone, Copy, Debug, PartialEq, Eq, Structural)]
pub struct GLShape {
    pub shader_program: u64,
    pub index_byte_offset: u32,
    pub n_triangles: u32,
}

/// Index data rebased onto a batch that already holds `base` vertices.
pub open spec fn offset_indices(base: int, s: Seq<u32>) -> Seq<u32> {
    Seq::new(s.len(), |i: int| (base + s[i]) as u32)
}

/// The per-frame accumulation of raw geometry: vertices are
/// concatenated, and each appended index list is stitched onto the
/// growing triangle strip with two degenerate indices.
#[derive(Debug)]
pub struct Batch {
    pub vertices: Vec<i64>,
    pub indices: Vec<u32>,
    pub shapes: Vec<GLShape>,
    pub index_bytes_offset: u32,
}

impl Batch {
    /// An empty batch.
    pub fn new() -> (b: Batch)
        ensures
            b.vertices@ =~= Seq::<i64>::empty(),
            b.indices@ =~= Seq::<u32>::empty(),
            b.shapes@ =~= Seq::<GLShape>::empty(),
            b.index_bytes_offset == 0,
    {
        Batch { vertices: Vec::new(), indices: Vec::new(), shapes: Vec::new(), index_bytes_offset: 0 }
    }

    /// Append one shape's raw data.  The vertex data is concatenated;
    /// the indices are rebased by the number of vertices already
    /// batched, and — when the strip is already under way — preceded by
    /// a repeat of the last index and of the new first index, the two
    /// degenerate triangles that stitch strips together.
    pub fn append_data(&mut self, vertex_data: &Vec<i64>, index_data: &Vec<u32>)
        requires
            old(self).vertices@.len() % 9 == 0,
            index_data@.len() >= 1,
            forall|i: int|
                0 <= i < index_data@.len() ==> old(self).vertices@.len() / 9 + (
                #[trigger] index_data@[i]) <= u32::MAX,
        ensures
            final(self).vertices@ == old(self).vertices@ + vertex_data@,
            ({
                let base = old(self).vertices@.len() as int / 9;
                if old(self).indices@.len() == 0 {
                    final(self).indices@ == offset_indices(base, index_data@)
                } else {
                    final(self).indices@ == old(self).indices@ + seq![
                        old(self).indices@.last(),
                        (base + index_data@[0]) as u32,
                    ] + offset_indices(base, index_data@)
                }
            }),
            final(self).shapes@ == old(self).shapes@,
            final(self).index_bytes_offset == old(self).index_bytes_offset,
    {
        let total_vertices_before = self.vertices.len() / 9;
        let ghost base = total_vertices_before as int;
        let mut k: usize = 0;
        while k < vertex_data.len()
            invariant
                k <= vertex_data@.len(),
                self.vertices@ == old(self).vertices@ + vertex_data@.subrange(0, k as int),
                self.indices@ == old(self).indices@,
                self.shapes@ == old(self).shapes@,
                self.index_bytes_offset == old(self).index_bytes_offset,
            decreases vertex_data@.len() - k,
        {
            self.vertices.push(vertex_data[k]);
            proof {
                assert(self.vertices@ =~= old(self).vertices@ + vertex_data@.subrange(
                    0,
                    k + 1,
                ));
            }
            k = k + 1;
        }
        proof {
            assert(vertex_data@.subrange(0, vertex_data@.len() as int) =~= vertex_data@);
        }
        let ghost mid = self.indices@;
        if !self.indices.is_empty() {
            let n = self.indices.len();
            let repeated = self.indices[n - 1];
            self.indices.push(repeated);
            let stitched = total_vertices_before as u32 + index_data[0];
            self.indices.push(stitched);
        }
        let ghost pre = self.indices@;
        let mut j: usize = 0;
        while j < index_data.len()
            invariant
                j <= index_data@.len(),
                base == old(self).vertices@.len() as int / 9,
                forall|i: int|
                    0 <= i < index_data@.len() ==> base + (#[trigger] index_data@[i])
                        <= u32::MAX,
                total_vertices_before == base,
                self.indices@ == pre + offset_indices(base, index_data@.subrange(0, j as int)),
                self.vertices@ == old(self).vertices@ + vertex_data@,
                self.shapes@ == old(self).shapes@,
                self.index_bytes_offset == old(self).index_bytes_offset,
            decreases index_data@.len() - j,
        {
            let v = total_vertices_before as u32 + index_data[j];
            self.indices.push(v);
            proof {
                assert(self.indices@ =~= pre + offset_indices(
                    base,
                    index_data@.subrange(0, j + 1),
                ));
            }
            j = j + 1;
        }
        proof {
            assert(index_data@.subrange(0, index_data@.len() as int) =~= index_data@);
            assert(offset_indices(base, index_data@.subrange(0, index_data@.len() as int))
                =~= offset_indices(base, index_data@));
            if old(self).indices@.len() == 0 {
                assert(pre =~= mid);
                assert(self.indices@ =~= offset_indices(base, index_data@));
            } else {
                assert(pre =~= old(self).indices@ + seq![
                    old(self).indices@.last(),
                    (base + index_data@[0]) as u32,
                ]);
            }
        }
    }

    /// Take the accumulated vertex and index data out, leaving the
    /// batch's geometry empty.
    pub fn drain_data(&mut self) -> (r: (Vec<i64>, Vec<u32>))
        ensures
            r.0@ == old(self).vertices@,
            r.1@ == old(self).indices@,
            final(self).vertices@ =~= Seq::<i64>::empty(),
            final(self).indices@ =~= Seq::<u32>::empty(),
            final(self).shapes@ == old(self).shapes@,
            final(self).index_bytes_offset == old(self).index_bytes_offset,
    {
        let mut vertex_data: Vec<i64> = Vec::new();
        core::mem::swap(&mut vertex_data, &mut self.vertices);
        let mut index_data: Vec<u32> = Vec::new();
        core::mem::swap(&mut index_data, &mut self.indices);
        (vertex_data, index_data)
    }

    /// Record one batched shape and advance the byte offset its indices
    /// end at: a strip of `n` triangles spans `n + 2` four-byte indices.
    pub fn append_shape(&mut self, shader_program: u64, n_triangles: u32)
        requires
            old(self).index_bytes_offset + (n_triangles + 2) * 4 <= u32::MAX,
        ensures
            final(self).shapes@ == old(self).shapes@.push(
                GLShape {
                    shader_program,
                    index_byte_offset: old(self).index_bytes_offset,
                    n_triangles,
                },
            ),
            final(self).index_bytes_offset == old(self).index_bytes_offset + (n_triangles + 2)
                * 4,
            final(self).vertices@ == old(self).vertices@,
            final(self).indices@ == old(self).indices@,
    {
        let index_byte_offset = self.index_bytes_offset;
        self.shapes.push(GLShape { shader_program, index_byte_offset, n_triangles });
        self.index_bytes_offset = self.index_bytes_offset + (n_triangles + 2) * 4;
    }

    /// Take the recorded shapes out, leaving the list empty.
    pub fn drain_shapes(&mut self) -> (r: Vec<GLShape>)
        ensures
            r@ == old(self).shapes@,
            final(self).shapes@ =~= Seq::<GLShape>::empty(),
            final(self).vertices@ == old(self).vertices@,
            final(self).indices@ == old(self).indices@,
            final(self).index_bytes_offset == old(self).index_bytes_offset,
    {
        let mut drained: Vec<GLShape> = Vec::new();
        core::mem::swap(&mut drained, &mut self.shapes);
        drained
    }

    /// Take everything out and reset the byte offset, as happens once
    /// per frame.
    pub fn drain(&mut self) -> (r: ((Vec<i64>, Vec<u32>), Vec<GLShape>))
        ensures
            r.0.0@ == old(self).vertices@,
            r.0.1@ == old(self).indices@,
            r.1@ == old(self).shapes@,
            final(self).vertices@ =~= Seq::<i64>::empty(),
            final(self).indices@ =~= Seq::<u32>::empty(),
            final(self).shapes@ =~= Seq::<GLShape>::empty(),
            final(self).index_bytes_offset == 0,
    {
        let data = self.drain_data();
        let shapes = self.drain_shapes();
        self.index_bytes_offset = 0;
        (data, shapes)
    }
}

/// The GPU resources backing one cached shape: a vertex array, two
/// buffers, the index count, and the program that draws it.  The
/// program is owned by the entry unless it is the shared default.
#[derive(Clone, Copy, Debug, PartialEq, Eq, Structural)]
pub struct GpuObject {
    pub vao: u64,
    pub vbo: u64,
    pub ebo: u64,
    pub index_count: usize,
    pub program: u64,
    pub program_is_default: bool,
}

/// One owned object under its producer-assigned id.
#[derive(Clone, Copy, Debug, PartialEq, Eq, Structural)]
pub struct ObjectEntry {
    pub id: u64,
    pub object: GpuObject,
}

/// The mathematical value of one graphics action.
pub ghost enum GlActionView {
    InitContext,
    ClearScreen(Color),
    SetSize(u32, u32),
    PollEvents,
    SwapBuffers,
    CompileDefaultProgram { program: u64 },
    CompileProgram {
        vertex_shader: Option<Seq<char>>,
        fragment_shader: Option<Seq<char>>,
        program: u64,
    },
    UploadObject { vao: u64, vbo: u64, ebo: u64, vertex_data: Seq<i64>, index_data: Seq<u32> },
    DrawCall { vao: u64, program: u64, index_count: usize },
    DeleteBuffers { vao: u64, vbo: u64, ebo: u64 },
    DeleteProgram { program: u64 },
}

/// One graphics call the platform layer must make, as plain data.
#[derive(Debug)]
pub enum GlAction {
    /// Make the context current and enable blending.
    InitContext,
    /// Clear the screen to a color.
    ClearScreen(Color),
    /// Resize the drawable surface.
    SetSize(u32, u32),
    /// Poll window events (close, escape, resize).
    PollEvents,
    /// Present the frame.
    SwapBuffers,
    /// Compile and link the default program under this name.
    CompileDefaultProgram { program: u64 },
    /// Compile and link a custom program under this name.
    CompileProgram {
        vertex_shader: Option<String>,
        fragment_shader: Option<String>,
        program: u64,
    },
    /// Upload vertex and index data into fresh objects.
    UploadObject { vao: u64, vbo: u64, ebo: u64, vertex_data: Vec<i64>, index_data: Vec<u32> },
    /// Draw an uploaded object.
    DrawCall { vao: u64, program: u64, index_count: usize },
    /// Delete an evicted object's array and buffers.
    DeleteBuffers { vao: u64, vbo: u64, ebo: u64 },
    /// Delete an evicted object's own (non-default) program.
    DeleteProgram { program: u64 },
}

impl View for GlAction {
    type V = GlActionView;

    open spec fn view(&self) -> GlActionView {
        match self {
            GlAction::InitContext => GlActionView::InitContext,
            GlAction::ClearScreen(c) => GlActionView::ClearScreen(*c),
            GlAction::SetSize(w, h) => GlActionView::SetSize(*w, *h),
            GlAction::PollEvents => GlActionView::PollEvents,
            GlAction::SwapBuffers => GlActionView::SwapBuffers,
            GlAction::CompileDefaultProgram { program } => GlActionView::CompileDefaultProgram {
                program: *program,
            },
            GlAction::CompileProgram { vertex_shader, fragment_shader, program } => {
                GlActionView::CompileProgram {
                    vertex_shader: match vertex_shader {
                        Some(s) => Some(s@),
                        None => None,
                    },
                    fragment_shader: match fragment_shader {
                        Some(s) => Some(s@),
                        None => None,
                    },
                    program: *program,
                }
            },
            GlAction::UploadObject { vao, vbo, ebo, vertex_data, index_data } => {
                GlActionView::UploadObject {
                    vao: *vao,
                    vbo: *vbo,
                    ebo: *ebo,
                    vertex_data: vertex_data@,
                    index_data: index_data@,
                }
            },
            GlAction::DrawCall { vao, program, index_count } => GlActionView::DrawCall {
                vao: *vao,
                program: *program,
                index_count: *index_count,
            },
            GlAction::DeleteBuffers { vao, vbo, ebo } => GlActionView::DeleteBuffers {
                vao: *vao,
                vbo: *vbo,
                ebo: *ebo,
            },
            GlAction::DeleteProgram { program } => GlActionView::DeleteProgram {
                program: *program,
            },
        }
    }
}

/// The views of an action list, in order.
pub open spec fn action_views(s: Seq<GlAction>) -> Seq<GlActionView> {
    s.map_values(|a: GlAction| a@)
}

/// The mathematical state of the context owner.
pub ghost struct OwnerView {
    pub width: u32,
    pub height: u32,
    pub next_name: u64,
    pub default_program: u64,
    pub objects: Seq<ObjectEntry>,
}

/// One command's effect: the state afterwards, the graphics actions to
/// perform, in order, and the reply when the command was a round trip.
pub ghost struct OwnerStep {
    pub state: OwnerView,
    pub actions: Seq<GlActionView>,
    pub reply: Option<u64>,
}

/// The index of the entry owning `id`, or `-1` when absent.
pub open spec fn spec_find_object(s: Seq<ObjectEntry>, id: u64) -> int
    decreases s.len(),
{
    if s.len() == 0 {
        -1
    } else if s[0].id == id {
        0
    } else {
        let r = spec_find_object(s.skip(1), id);
        if r == -1 {
            -1
        } else {
            r + 1
        }
    }
}

/// `spec_find_object` points at the first matching entry.
pub proof fn lemma_find_object(s: Seq<ObjectEntry>, id: u64)
    ensures
        spec_find_object(s, id) >= -1,
        spec_find_object(s, id) == -1 ==> forall|i: int|
            0 <= i < s.len() ==> (#[trigger] s[i]).id != id,
        spec_find_object(s, id) >= 0 ==> spec_find_object(s, id) < s.len() && s[spec_find_object(
            s,
            id,
        )].id == id,
        spec_find_object(s, id) >= 0 ==> forall|j: int|
            0 <= j < spec_find_object(s, id) ==> (#[trigger] s[j]).id != id,
    decreases s.len(),
{
    if s.len() > 0 && s[0].id != id {
        lemma_find_object(s.skip(1), id);
        let r = spec_find_object(s.skip(1), id);
        if r == -1 {
            assert forall|i: int| 0 <= i < s.len() implies (#[trigger] s[i]).id != id by {
                if i > 0 {
                    assert(s.skip(1)[i - 1] == s[i]);
                }
            }
        } else {
            assert(s.skip(1)[r] == s[r + 1]);
            assert forall|j: int| 0 <= j < r + 1 implies (#[trigger] s[j]).id != id by {
                if j > 0 {
                    assert(s.skip(1)[j - 1] == s[j]);
                }
            }
        }
    }
}

/// The highest name an entry occupies: its buffer names, plus its own
/// program when it is not the shared default.
pub open spec fn entry_top_name(e: ObjectEntry) -> u64 {
    if e.object.program_is_default {
        e.object.ebo
    } else {
        e.object.program
    }
}

/// The owner's invariant: names are allocated below the mark, each
/// entry occupies the consecutive band from its vertex array up to its
/// top name, entries' bands are disjoint, and ids are distinct — so
/// deleting one entry's names can never touch another entry's.
pub open spec fn owner_inv(s: OwnerView) -> bool {
    &&& 1 <= s.next_name
    &&& s.default_program < s.next_name
    &&& forall|i: int|
        0 <= i < s.objects.len() ==> {
            let e = #[trigger] s.objects[i];
            &&& 1 <= e.object.vao
            &&& e.object.vbo == e.object.vao + 1
            &&& e.object.ebo == e.object.vao + 2
            &&& !e.object.program_is_default ==> e.object.program == e.object.vao + 3
            &&& e.object.program_is_default ==> e.object.program == s.default_program
                && s.default_program >= 1
            &&& entry_top_name(e) < s.next_name
            &&& s.default_program < e.object.vao || entry_top_name(e) < s.default_program
        }
    &&& forall|i: int, j: int|
        0 <= i < j < s.objects.len() ==> (#[trigger] s.objects[i]).id != (
        #[trigger] s.objects[j]).id
    &&& forall|i: int, j: int|
        0 <= i < j < s.objects.len() ==> entry_top_name(#[trigger] s.objects[i]) < (
        #[trigger] s.objects[j]).object.vao
}

/// What executing one command does (see [`GpuOwner::execute`]).
pub open spec fn spec_execute(s: OwnerView, c: CommandView) -> OwnerStep {
    match c {
        CommandView::Clear(col) => OwnerStep {
            state: s,
            actions: seq![GlActionView::ClearScreen(col)],
            reply: None,
        },
        CommandView::Resize(w, h) => {
            if w == 0 || h == 0 {
                OwnerStep { state: s, actions: Seq::empty(), reply: None }
            } else {
                OwnerStep {
                    state: OwnerView { width: w, height: h, ..s },
                    actions: seq![GlActionView::SetSize(w, h)],
                    reply: None,
                }
            }
        },
        CommandView::PollEvents => OwnerStep {
            state: s,
            actions: seq![GlActionView::PollEvents],
            reply: None,
        },
        CommandView::SwapBuffers => OwnerStep {
            state: s,
            actions: seq![GlActionView::SwapBuffers],
            reply: None,
        },
        CommandView::Setup => {
            if s.default_program == 0 {
                OwnerStep {
                    state: OwnerView {
                        next_name: (s.next_name + 1) as u64,
                        default_program: s.next_name,
                        ..s
                    },
                    actions: seq![
                        GlActionView::InitContext,
                        GlActionView::CompileDefaultProgram { program: s.next_name },
                    ],
                    reply: None,
                }
            } else {
                OwnerStep { state: s, actions: seq![GlActionView::InitContext], reply: None }
            }
        },
        CommandView::GetDefaultProgram => {
            if s.default_program == 0 {
                OwnerStep {
                    state: OwnerView {
                        next_name: (s.next_name + 1) as u64,
                        default_program: s.next_name,
                        ..s
                    },
                    actions: seq![GlActionView::CompileDefaultProgram { program: s.next_name }],
                    reply: Some(s.next_name),
                }
            } else {
                OwnerStep { state: s, actions: Seq::empty(), reply: Some(s.default_program) }
            }
        },
        CommandView::CompileProgram { vertex_shader, fragment_shader } => OwnerStep {
            state: OwnerView { next_name: (s.next_name + 1) as u64, ..s },
            actions: seq![
                GlActionView::CompileProgram {
                    vertex_shader,
                    fragment_shader,
                    program: s.next_name,
                },
            ],
            reply: Some(s.next_name),
        },
        CommandView::CreateObject { id, descriptor } => {
            if spec_find_object(s.objects, id) >= 0 {
                OwnerStep { state: s, actions: Seq::empty(), reply: None }
            } else if descriptor.vertex_shader is Some || descriptor.fragment_shader is Some {
                let object = GpuObject {
                    vao: s.next_name,
                    vbo: (s.next_name + 1) as u64,
                    ebo: (s.next_name + 2) as u64,
                    index_count: descriptor.index_data.len() as usize,
                    program: (s.next_name + 3) as u64,
                    program_is_default: false,
                };
                OwnerStep {
                    state: OwnerView {
                        next_name: (s.next_name + 4) as u64,
                        objects: s.objects.push(ObjectEntry { id, object }),
                        ..s
                    },
                    actions: seq![
                        GlActionView::CompileProgram {
                            vertex_shader: descriptor.vertex_shader,
                            fragment_shader: descriptor.fragment_shader,
                            program: (s.next_name + 3) as u64,
                        },
                        GlActionView::UploadObject {
                            vao: s.next_name,
                            vbo: (s.next_name + 1) as u64,
                            ebo: (s.next_name + 2) as u64,
                            vertex_data: descriptor.vertex_data,
                            index_data: descriptor.index_data,
                        },
                    ],
                    reply: None,
                }
            } else if s.default_program == 0 {
                let object = GpuObject {
                    vao: (s.next_name + 1) as u64,
                    vbo: (s.next_name + 2) as u64,
                    ebo: (s.next_name + 3) as u64,
                    index_count: descriptor.index_data.len() as usize,
                    program: s.next_name,
                    program_is_default: true,
                };
                OwnerStep {
                    state: OwnerView {
                        next_name: (s.next_name + 4) as u64,
                        default_program: s.next_name,
                        objects: s.objects.push(ObjectEntry { id, object }),
                        ..s
                    },
                    actions: seq![
                        GlActionView::CompileDefaultProgram { program: s.next_name },
                        GlActionView::UploadObject {
                            vao: (s.next_name + 1) as u64,
                            vbo: (s.next_name + 2) as u64,
                            ebo: (s.next_name + 3) as u64,
                            vertex_data: descriptor.vertex_data,
                            index_data: descriptor.index_data,
                        },
                    ],
                    reply: None,
                }
            } else {
                let object = GpuObject {
                    vao: s.next_name,
                    vbo: (s.next_name + 1) as u64,
                    ebo: (s.next_name + 2) as u64,
                    index_count: descriptor.index_data.len() as usize,
                    program: s.default_program,
                    program_is_default: true,
                };
                OwnerStep {
                    state: OwnerView {
                        next_name: (s.next_name + 3) as u64,
                        objects: s.objects.push(ObjectEntry { id, object }),
                        ..s
                    },
                    actions: seq![
                        GlActionView::UploadObject {
                            vao: s.next_name,
                            vbo: (s.next_name + 1) as u64,
                            ebo: (s.next_name + 2) as u64,
                            vertex_data: descriptor.vertex_data,
                            index_data: descriptor.index_data,
                        },
                    ],
                    reply: None,
                }
            }
        },
        CommandView::DrawObject { id } => {
            let f = spec_find_object(s.objects, id);
            if f >= 0 {
                let e = s.objects[f];
                OwnerStep {
                    state: s,
                    actions: seq![
                        GlActionView::DrawCall {
                            vao: e.object.vao,
                            program: e.object.program,
                            index_count: e.object.index_count,
                        },
                    ],
                    reply: None,
                }
            } else {
                OwnerStep { state: s, actions: Seq::empty(), reply: None }
            }
        },
        CommandView::DeleteObject { id } => {
            let f = spec_find_object(s.objects, id);
            if f >= 0 {
                let e = s.objects[f];
                OwnerStep {
                    state: OwnerView { objects: s.objects.remove(f), ..s },
                    actions: if e.object.program_is_default {
                        seq![
                            GlActionView::DeleteBuffers {
                                vao: e.object.vao,
                                vbo: e.object.vbo,
                                ebo: e.object.ebo,
                            },
                        ]
                    } else {
                        seq![
                            GlActionView::DeleteBuffers {
                                vao: e.object.vao,
                                vbo: e.object.vbo,
                                ebo: e.object.ebo,
                            },
                            GlActionView::DeleteProgram { program: e.object.program },
                        ]
                    },
                    reply: None,
                }
            } else {
                OwnerStep { state: s, actions: Seq::empty(), reply: None }
            }
        },
    }
}

/// The single owner of the window, the context and every GPU object.
/// It executes commands strictly in the order they were pushed.
#[derive(Debug)]
pub struct GpuOwner {
    pub width: u32,
    pub height: u32,
    pub next_name: u64,
    pub default_program: u64,
    pub objects: Vec<ObjectEntry>,
}

impl View for GpuOwner {
    type V = OwnerView;

    open spec fn view(&self) -> OwnerView {
        OwnerView {
            width: self.width,
            height: self.height,
            next_name: self.next_name,
            default_program: self.default_program,
            objects: self.objects@,
        }
    }
}

impl GpuOwner {
    /// A fresh owner with no compiled default program (the zero
    /// sentinel) and no objects.  Zero dimensions fall back to the
    /// default window size.
    pub fn new(w: u32, h: u32) -> (r: GpuOwner)
        ensures
            owner_inv(r@),
            r.width == (if w == 0 {
                crate::sketch::DEFAULT_WIDTH
            } else {
                w
            }),
            r.height == (if h == 0 {
                crate::sketch::DEFAULT_HEIGHT
            } else {
                h
            }),
            r.next_name == 1,
            r.default_program == 0,
            r@.objects =~= Seq::<ObjectEntry>::empty(),
    {
        let width = if w == 0 {
            crate::sketch::DEFAULT_WIDTH
        } else {
            w
        };
        let height = if h == 0 {
            crate::sketch::DEFAULT_HEIGHT
        } else {
            h
        };
        GpuOwner { width, height, next_name: 1, default_program: 0, objects: Vec::new() }
    }

    /// The index of the entry owning `id`, if any.
    fn find_object(&self, id: u64) -> (r: Option<usize>)
        ensures
            (match r {
                Some(i) => spec_find_object(self@.objects, id) == i as int && (i as int)
                    < self@.objects.len() && self@.objects[i as int].id == id,
                None => spec_find_object(self@.objects, id) == -1,
            }),
    {
        proof {
            lemma_find_object(self@.objects, id);
        }
        let mut i: usize = 0;
        let n = self.objects.len();
        while i < n
            invariant
                i <= n,
                n == self.objects@.len(),
                forall|j: int| 0 <= j < i ==> (#[trigger] self.objects@[j]).id != id,
            decreases n - i,
        {
            if self.objects[i].id == id {
                proof {
                    lemma_find_object_first(self@.objects, id, i as int);
                }
                return Some(i);
            }
            i = i + 1;
        }
        proof {
            if spec_find_object(self@.objects, id) >= 0 {
                assert(self@.objects[spec_find_object(self@.objects, id)].id == id);
            }
        }
        None
    }

    /// Execute one command against the live context state, producing
    /// the graphics actions to perform, in order, and the reply when
    /// the command is a round trip.
    pub fn execute(&mut self, command: Command) -> (r: (Vec<GlAction>, Option<u64>))
        requires
            owner_inv(old(self)@),
            old(self)@.next_name < u64::MAX - 4,
        ensures
            owner_inv(final(self)@),
            final(self)@ == spec_execute(old(self)@, command@).state,
            action_views(r.0@) =~= spec_execute(old(self)@, command@).actions,
            r.1 == spec_execute(old(self)@, command@).reply,
    {
        let mut actions: Vec<GlAction> = Vec::new();
        match command {
            Command::Clear(c) => {
                actions.push(GlAction::ClearScreen(c));
                (actions, None)
            },
            Command::Resize(w, h) => {
                if w != 0 && h != 0 {
                    self.width = w;
                    self.height = h;
                    actions.push(GlAction::SetSize(w, h));
                }
                (actions, None)
            },
            Command::PollEvents => {
                actions.push(GlAction::PollEvents);
                (actions, None)
            },
            Command::SwapBuffers => {
                actions.push(GlAction::SwapBuffers);
                (actions, None)
            },
            Command::Setup => {
                actions.push(GlAction::InitContext);
                if self.default_program == 0 {
                    let program = self.next_name;
                    self.next_name = self.next_name + 1;
                    self.default_program = program;
                    actions.push(GlAction::CompileDefaultProgram { program });
                }
                (actions, None)
            },
            Command::GetDefaultProgram => {
                if self.default_program == 0 {
                    let program = self.next_name;
                    self.next_name = self.next_name + 1;
                    self.default_program = program;
                    actions.push(GlAction::CompileDefaultProgram { program });
                    (actions, Some(program))
                } else {
                    (actions, Some(self.default_program))
                }
            },
            Command::CompileProgram { vertex_shader, fragment_shader } => {
                let program = self.next_name;
                self.next_name = self.next_name + 1;
                actions.push(GlAction::CompileProgram { vertex_shader, fragment_shader, program });
                (actions, Some(program))
            },
            Command::CreateObject { id, descriptor } => {
                let found = self.find_object(id);
                if found.is_some() {
                    return (actions, None);
                }
                let ghost pre = self@;
                let ShapeDescriptor {
                    vertex_data,
                    index_data,
                    vertex_shader,
                    fragment_shader,
                    is_stroke: _,
                } = descriptor;
                let index_count = index_data.len();
                let custom = vertex_shader.is_some() || fragment_shader.is_some();
                let object: GpuObject;
                if custom {
                    object = GpuObject {
                        vao: self.next_name,
                        vbo: self.next_name + 1,
                        ebo: self.next_name + 2,
                        index_count,
                        program: self.next_name + 3,
                        program_is_default: false,
                    };
                    actions.push(
                        GlAction::CompileProgram {
                            vertex_shader,
                            fragment_shader,
                            program: object.program,
                        },
                    );
                    self.next_name = self.next_name + 4;
                } else if self.default_program == 0 {
                    let program = self.next_name;
                    object = GpuObject {
                        vao: self.next_name + 1,
                        vbo: self.next_name + 2,
                        ebo: self.next_name + 3,
                        index_count,
                        program,
                        program_is_default: true,
                    };
                    actions.push(GlAction::CompileDefaultProgram { program });
                    self.next_name = self.next_name + 4;
                    self.default_program = program;
                } else {
                    object = GpuObject {
                        vao: self.next_name,
                        vbo: self.next_name + 1,
                        ebo: self.next_name + 2,
                        index_count,
                        program: self.default_program,
                        program_is_default: true,
                    };
                    self.next_name = self.next_name + 3;
                }
                actions.push(
                    GlAction::UploadObject {
                        vao: object.vao,
                        vbo: object.vbo,
                        ebo: object.ebo,
                        vertex_data,
                        index_data,
                    },
                );
                self.objects.push(ObjectEntry { id, object });
                proof {
                    lemma_create_preserves_inv(pre, self@, id, object);
                }
                (actions, None)
            },
            Command::DrawObject { id } => {
                let found = self.find_object(id);
                match found {
                    Some(i) => {
                        let e = self.objects[i];
                        actions.push(
                            GlAction::DrawCall {
                                vao: e.object.vao,
                                program: e.object.program,
                                index_count: e.object.index_count,
                            },
                        );
                    },
                    None => {},
                }
                (actions, None)
            },
            Command::DeleteObject { id } => {
                let found = self.find_object(id);
                match found {
                    Some(i) => {
                        let ghost pre = self@;
                        let e = self.objects.remove(i);
                        actions.push(
                            GlAction::DeleteBuffers {
                                vao: e.object.vao,
                                vbo: e.object.vbo,
                                ebo: e.object.ebo,
                            },
                        );
                        if !e.object.program_is_default {
                            actions.push(GlAction::DeleteProgram { program: e.object.program });
                        }
                        proof {
                            lemma_remove_preserves_inv(pre, self@, i as int);
                        }
                    },
                    None => {},
                }
                (actions, None)
            },
        }
    }
}

/// Law (deletion safety): executing a deletion command touches only the
/// victim's resources.  Every name the step's actions delete — the
/// victim's vertex array, buffers, and its own program when it is not
/// the shared default — belongs to no entry that remains, and the
/// shared default program is never among them.
pub proof fn lemma_delete_touches_only_victim(s: OwnerView, id: u64)
    requires
        owner_inv(s),
        spec_find_object(s.objects, id) >= 0,
    ensures
        ({
            let victim = s.objects[spec_find_object(s.objects, id)];
            let t = spec_execute(s, CommandView::DeleteObject { id }).state.objects;
            &&& forall|i: int|
                0 <= i < t.len() ==> entry_disjoint_from_victim(#[trigger] t[i], victim)
            &&& !victim.object.program_is_default ==> victim.object.program != s.default_program
        }),
{
    lemma_find_object(s.objects, id);
    let f = spec_find_object(s.objects, id);
    let victim = s.objects[f];
    let t = spec_execute(s, CommandView::DeleteObject { id }).state.objects;
    assert forall|i: int|
        0 <= i < t.len() implies entry_disjoint_from_victim(#[trigger] t[i], victim) by {
        let oi = if i < f {
            i
        } else {
            i + 1
        };
        assert(t[i] == s.objects[oi]);
        let e = s.objects[oi];
        if oi < f {
            assert(entry_top_name(e) < victim.object.vao);
        } else {
            assert(entry_top_name(victim) < e.object.vao);
        }
        assert(s.default_program < victim.object.vao || entry_top_name(victim)
            < s.default_program);
        if e.object.program_is_default {
            assert(e.object.program == s.default_program);
        }
    }
}

/// Whether an entry shares no deletable name with the deleted one.
pub open spec fn entry_disjoint_from_victim(e: ObjectEntry, victim: ObjectEntry) -> bool {
    &&& e.object.vao != victim.object.vao && e.object.vao != victim.object.vbo && e.object.vao
        != victim.object.ebo
    &&& e.object.vbo != victim.object.vao && e.object.vbo != victim.object.vbo && e.object.vbo
        != victim.object.ebo
    &&& e.object.ebo != victim.object.vao && e.object.ebo != victim.object.vbo && e.object.ebo
        != victim.object.ebo
    &&& e.object.program != victim.object.vao && e.object.program != victim.object.vbo
        && e.object.program != victim.object.ebo
    &&& !victim.object.program_is_default ==> e.object.vao != victim.object.program
        && e.object.vbo != victim.object.program && e.object.ebo != victim.object.program
        && e.object.program != victim.object.program
}

/// The joint effect of draining one batch of commands in order.
pub ghost struct BatchStep {
    pub state: OwnerView,
    pub actions: Seq<GlActionView>,
    pub replies: Seq<u64>,
}

/// Executing a batch is folding [`spec_execute`] over it, front to
/// back, concatenating the actions and collecting the replies in order.
pub open spec fn spec_execute_batch(s: OwnerView, cmds: Seq<CommandView>) -> BatchStep
    decreases cmds.len(),
{
    if cmds.len() == 0 {
        BatchStep { state: s, actions: Seq::empty(), replies: Seq::empty() }
    } else {
        let step = spec_execute(s, cmds[0]);
        let rest = spec_execute_batch(step.state, cmds.skip(1));
        BatchStep {
            state: rest.state,
            actions: step.actions + rest.actions,
            replies: (match step.reply {
                Some(p) => seq![p],
                None => Seq::empty(),
            }) + rest.replies,
        }
    }
}

/// One command advances the allocation mark by at most four names.
proof fn lemma_execute_next_name(s: OwnerView, c: CommandView)
    requires
        s.next_name < u64::MAX - 4,
    ensures
        spec_execute(s, c).state.next_name <= s.next_name as int + 4,
        spec_execute(s, c).state.next_name >= s.next_name,
{
}

impl GpuOwner {
    /// Drain one frame's batch: execute every command, strictly in push
    /// order, collecting all graphics actions and every round-trip
    /// reply, both in order.
    pub fn execute_batch(&mut self, batch: Vec<Command>) -> (r: (Vec<GlAction>, Vec<u64>))
        requires
            owner_inv(old(self)@),
            old(self)@.next_name as int + 4 * batch@.len() < u64::MAX as int - 4,
        ensures
            owner_inv(final(self)@),
            ({
                let step = spec_execute_batch(old(self)@, crate::command::batch_view(batch@));
                &&& final(self)@ == step.state
                &&& action_views(r.0@) == step.actions
                &&& r.1@ == step.replies
            }),
    {
        let mut batch = batch;
        let mut actions: Vec<GlAction> = Vec::new();
        let mut replies: Vec<u64> = Vec::new();
        let ghost full = crate::command::batch_view(batch@);
        let ghost s0 = self@;
        while !batch.is_empty()
            invariant
                owner_inv(self@),
                self@.next_name as int + 4 * batch@.len() < u64::MAX as int - 4,
                ({
                    let rest = spec_execute_batch(self@, crate::command::batch_view(batch@));
                    let whole = spec_execute_batch(s0, full);
                    &&& whole.state == rest.state
                    &&& whole.actions == action_views(actions@) + rest.actions
                    &&& whole.replies == replies@ + rest.replies
                }),
            decreases batch@.len(),
        {
            let ghost pre_batch = crate::command::batch_view(batch@);
            let ghost pre_self = self@;
            let cmd = batch.remove(0);
            proof {
                assert(crate::command::batch_view(batch@) =~= pre_batch.skip(1));
                assert(pre_batch[0] == cmd@);
            }
            let (mut a, rep) = self.execute(cmd);
            proof {
                lemma_execute_next_name(pre_self, cmd@);
            }
            let ghost acts_before = actions@;
            let ghost a_view = a@;
            actions.append(&mut a);
            match rep {
                Some(p) => {
                    replies.push(p);
                },
                None => {},
            }
            proof {
                let step = spec_execute(pre_self, cmd@);
                assert(action_views(actions@) =~= action_views(acts_before) + step.actions) by {
                    assert(actions@ =~= acts_before + a_view);
                    assert(action_views(a_view) == step.actions);
                    assert forall|i: int|
                        0 <= i < actions@.len() implies #[trigger] action_views(actions@)[i]
                        == (action_views(acts_before) + step.actions)[i] by {
                        if i < acts_before.len() {
                            assert(actions@[i] == acts_before[i]);
                        } else {
                            assert(actions@[i] == a_view[i - acts_before.len()]);
                            assert(action_views(a_view)[i - acts_before.len()] == a_view[i
                                - acts_before.len()]@);
                        }
                    }
                }
                let rest_pre = spec_execute_batch(pre_self, pre_batch);
                assert(rest_pre.state == spec_execute_batch(
                    step.state,
                    pre_batch.skip(1),
                ).state);
                assert(self@ == step.state);
                match step.reply {
                    Some(p) => {
                        assert(replies@ =~= replies@.subrange(0, replies@.len() - 1).push(p));
                    },
                    None => {},
                }
                assert(spec_execute_batch(s0, full).actions =~= action_views(actions@)
                    + spec_execute_batch(self@, crate::command::batch_view(batch@)).actions);
                assert(spec_execute_batch(s0, full).replies =~= replies@ + spec_execute_batch(
                    self@,
                    crate::command::batch_view(batch@),
                ).replies);
            }
        }
        proof {
            assert(crate::command::batch_view(batch@) =~= Seq::<CommandView>::empty());
            assert(spec_execute_batch(self@, crate::command::batch_view(batch@)).actions
                =~= Seq::<GlActionView>::empty());
            assert(action_views(actions@) =~= action_views(actions@) + Seq::<
                GlActionView,
            >::empty());
            assert(replies@ =~= replies@ + Seq::<u64>::empty());
        }
        (actions, replies)
    }
}

/// Appending a fresh entry whose names sit at the allocation mark keeps
/// the owner's invariant.
proof fn lemma_create_preserves_inv(pre: OwnerView, post: OwnerView, id: u64, object: GpuObject)
    requires
        owner_inv(pre),
        pre.next_name < u64::MAX - 4,
        spec_find_object(pre.objects, id) == -1,
        post.objects == pre.objects.push(ObjectEntry { id, object }),
        object.vbo == object.vao + 1,
        object.ebo == object.vao + 2,
        !object.program_is_default ==> object.program == object.vao + 3,
        object.program_is_default ==> object.program == post.default_program
            && post.default_program >= 1,
        object.vao >= pre.next_name,
        entry_top_name(ObjectEntry { id, object }) < post.next_name,
        post.default_program != pre.default_program ==> post.default_program < object.vao,
        post.next_name >= pre.next_name,
        post.default_program < post.next_name,
        post.default_program == pre.default_program || (pre.default_program == 0
            && post.default_program >= pre.next_name),
        post.next_name >= 1,
    ensures
        owner_inv(post),
{
    lemma_find_object(pre.objects, id);
    let t = post.objects;
    assert forall|i: int|
        0 <= i < t.len() implies {
        let e = #[trigger] t[i];
        &&& 1 <= e.object.vao
        &&& e.object.vbo == e.object.vao + 1
        &&& e.object.ebo == e.object.vao + 2
        &&& !e.object.program_is_default ==> e.object.program == e.object.vao + 3
        &&& e.object.program_is_default ==> e.object.program == post.default_program
            && post.default_program >= 1
        &&& entry_top_name(e) < post.next_name
        &&& post.default_program < e.object.vao || entry_top_name(e) < post.default_program
    } by {
        if i < t.len() - 1 {
            assert(t[i] == pre.objects[i]);
            if pre.objects[i].object.program_is_default {
                assert(pre.objects[i].object.program == pre.default_program);
                assert(pre.default_program >= 1);
                assert(post.default_program == pre.default_program);
            }
            if post.default_program != pre.default_program {
                assert(entry_top_name(pre.objects[i]) < pre.next_name);
                assert(post.default_program >= pre.next_name);
            }
        } else {
            assert(t[i] == ObjectEntry { id, object });
            assert(post.default_program < post.next_name);
        }
    }
    assert forall|i: int, j: int|
        0 <= i < j < t.len() implies (#[trigger] t[i]).id != (#[trigger] t[j]).id
            && entry_top_name(t[i]) < t[j].object.vao by {
        if j < t.len() - 1 {
            assert(t[i] == pre.objects[i]);
            assert(t[j] == pre.objects[j]);
        } else {
            assert(t[i] == pre.objects[i]);
            assert(entry_top_name(pre.objects[i]) < pre.next_name);
        }
    }
}

/// Removing one entry keeps the owner's invariant.
proof fn lemma_remove_preserves_inv(pre: OwnerView, post: OwnerView, f: int)
    requires
        owner_inv(pre),
        0 <= f < pre.objects.len(),
        post.objects == pre.objects.remove(f),
        post.next_name == pre.next_name,
        post.default_program == pre.default_program,
    ensures
        owner_inv(post),
{
    let t = post.objects;
    assert forall|i: int|
        0 <= i < t.len() implies {
        let e = #[trigger] t[i];
        &&& 1 <= e.object.vao
        &&& e.object.vbo == e.object.vao + 1
        &&& e.object.ebo == e.object.vao + 2
        &&& !e.object.program_is_default ==> e.object.program == e.object.vao + 3
        &&& e.object.program_is_default ==> e.object.program == post.default_program
            && post.default_program >= 1
        &&& entry_top_name(e) < post.next_name
        &&& post.default_program < e.object.vao || entry_top_name(e) < post.default_program
    } by {
        let oi = if i < f {
            i
        } else {
            i + 1
        };
        assert(t[i] == pre.objects[oi]);
    }
    assert forall|i: int, j: int|
        0 <= i < j < t.len() implies (#[trigger] t[i]).id != (#[trigger] t[j]).id
            && entry_top_name(t[i]) < t[j].object.vao by {
        let oi = if i < f {
            i
        } else {
            i + 1
        };
        let oj = if j < f {
            j
        } else {
            j + 1
        };
        assert(t[i] == pre.objects[oi]);
        assert(t[j] == pre.objects[oj]);
    }
}

/// `spec_find_object` finds a first match where the caller shows one.
proof fn lemma_find_object_first(s: Seq<ObjectEntry>, id: u64, i: int)
    requires
        0 <= i < s.len(),
        s[i].id == id,
        forall|j: int| 0 <= j < i ==> (#[trigger] s[j]).id != id,
    ensures
        spec_find_object(s, id) == i,
    decreases s.len(),
{
    if i > 0 {
        assert forall|j: int| 0 <= j < i - 1 implies (#[trigger] s.skip(1)[j]).id != id by {
            assert(s.skip(1)[j] == s[j + 1]);
        }
        assert(s.skip(1)[i - 1] == s[i]);
        lemma_find_object_first(s.skip(1), id, i - 1);
    }
}

} // verus!
