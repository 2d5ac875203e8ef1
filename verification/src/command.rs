//! Commands: the units of deferred work the sketch side hands to the
//! GPU-owning side.
//!
//! A command is plain data — a tagged variant with its payload — so the
//! whole command set can be inspected, logged and tested as values.
//! `CompileProgram` and `GetDefaultProgram` are round-trip commands: the
//! executor answers them with a program handle.

use vstd::prelude::*;

use crate::color::Color;
use crate::shape::{DescView, ShapeDescriptor};

verus! {

/// The mathematical value of a [`Command`].
pub ghost enum CommandView {
    Clear(Color),
    Resize(u32, u32),
    PollEvents,
    SwapBuffers,
    Setup,
    CreateObject { id: u64, descriptor: DescView },
    DrawObject { id: u64 },
    DeleteObject { id: u64 },
    CompileProgram { vertex_shader: Option<Seq<char>>, fragment_shader: Option<Seq<char>> },
    GetDefaultProgram,
}

/// One unit of deferred work for the GPU-owning side.
#[derive(Debug)]
pub enum Command {
    /// Clear the screen to a color.
    Clear(Color),
    /// Resize the window.
    Resize(u32, u32),
    /// Poll window events.
    PollEvents,
    /// Present the frame.
    SwapBuffers,
    /// Make the context current and prepare the default program.
    Setup,
    /// Upload the geometry of a new cached object under a fresh id.
    CreateObject { id: u64, descriptor: ShapeDescriptor },
    /// Draw an already uploaded object.
    DrawObject { id: u64 },
    /// Delete an evicted object's GPU resources.
    DeleteObject { id: u64 },
    /// Round trip: compile a custom shader pair, answer with its handle.
    CompileProgram { vertex_shader: Option<String>, fragment_shader: Option<String> },
    /// Round trip: answer with the default program handle.
    GetDefaultProgram,
}

impl View for Command {
    type V = CommandView;

    open spec fn view(&self) -> CommandView {
        match self {
            Command::Clear(c) => CommandView::Clear(*c),
            Command::Resize(w, h) => CommandView::Resize(*w, *h),
            Command::PollEvents => CommandView::PollEvents,
            Command::SwapBuffers => CommandView::SwapBuffers,
            Command::Setup => CommandView::Setup,
            Command::CreateObject { id, descriptor } => CommandView::CreateObject {
                id: *id,
                descriptor: descriptor@,
            },
            Command::DrawObject { id } => CommandView::DrawObject { id: *id },
            Command::DeleteObject { id } => CommandView::DeleteObject { id: *id },
            Command::CompileProgram { vertex_shader, fragment_shader } => {
                CommandView::CompileProgram {
                    vertex_shader: match vertex_shader {
                        Some(s) => Some(s@),
                        None => None,
                    },
                    fragment_shader: match fragment_shader {
                        Some(s) => Some(s@),
                        None => None,
                    },
                }
            },
            Command::GetDefaultProgram => CommandView::GetDefaultProgram,
        }
    }
}

/// The views of a batch of commands, in order.
pub open spec fn batch_view(b: Seq<Command>) -> Seq<CommandView> {
    b.map_values(|c: Command| c@)
}

/// How many commands in `h` create the object `id`.
pub open spec fn count_creates(h: Seq<CommandView>, id: u64) -> nat
    decreases h.len(),
{
    if h.len() == 0 {
        0
    } else {
        count_creates(h.drop_last(), id) + (match h.last() {
            CommandView::CreateObject { id: i, .. } => if i == id {
                1nat
            } else {
                0nat
            },
            _ => 0nat,
        })
    }
}

/// How many commands in `h` delete the object `id`.
pub open spec fn count_deletes(h: Seq<CommandView>, id: u64) -> nat
    decreases h.len(),
{
    if h.len() == 0 {
        0
    } else {
        count_deletes(h.drop_last(), id) + (match h.last() {
            CommandView::DeleteObject { id: i } => if i == id {
                1nat
            } else {
                0nat
            },
            _ => 0nat,
        })
    }
}

} // verus!
