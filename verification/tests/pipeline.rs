//! The command pipeline: channel backpressure, shader-program caching,
//! and the GPU owner's execution of each command kind.

use p5::canvas::{Canvas, ShaderResolution};
use p5::channel::make_channel;
use p5::color::Color;
use p5::command::Command;
use p5::glapp::{GlAction, GpuOwner};
use p5::point::Point;
use p5::shape::ShapeDescriptor;
use p5::SCALE;

const S: i64 = SCALE;

fn plain_descriptor(tag: i64) -> ShapeDescriptor {
    ShapeDescriptor {
        vertex_data: vec![tag; 9],
        index_data: vec![0, 1, 2],
        vertex_shader: None,
        fragment_shader: None,
        is_stroke: false,
    }
}

#[test]
fn channel_holds_one_batch_at_a_time() {
    let mut canvas = Canvas::new(8);
    let mut channel = make_channel();
    canvas.push(Command::PollEvents);
    assert!(canvas.send(&mut channel));
    assert_eq!(canvas.queue.len(), 0);
    canvas.push(Command::SwapBuffers);
    // the previous batch has not been taken: delivery fails
    assert!(!canvas.send(&mut channel));
    assert_eq!(canvas.queue.len(), 1);
    let batch = channel.receive().expect("a batch was in the slot");
    assert_eq!(batch.len(), 1);
    assert!(matches!(batch[0], Command::PollEvents));
    assert!(channel.receive().is_none());
    // the slot is free again
    assert!(canvas.send(&mut channel));
}

#[test]
fn frame_functions_bracket_the_batch() {
    let mut canvas = Canvas::new(8);
    let mut channel = make_channel();
    canvas.begin_frame();
    assert_eq!(canvas.queue.len(), 2);
    assert!(matches!(canvas.queue[0], Command::PollEvents));
    assert!(matches!(canvas.queue[1], Command::Clear(_)));
    assert!(canvas.end_frame(&mut channel));
    let batch = channel.receive().expect("a batch was in the slot");
    assert_eq!(batch.len(), 3);
    assert!(matches!(batch[2], Command::SwapBuffers));
}

#[test]
fn default_program_requested_once() {
    let mut canvas = Canvas::new(8);
    assert_eq!(canvas.get_shader_program(None, None), ShaderResolution::Pending);
    assert_eq!(canvas.queue.len(), 1);
    assert!(matches!(canvas.queue[0], Command::GetDefaultProgram));
    canvas.set_default_program(7);
    assert_eq!(canvas.get_shader_program(None, None), ShaderResolution::Ready(7));
    // no further round trip was pushed
    assert_eq!(canvas.queue.len(), 1);
}

#[test]
fn custom_shader_pair_compiled_once() {
    let mut canvas = Canvas::new(8);
    let vs = Some(String::from("vertex source"));
    let fs = Some(String::from("fragment source"));
    assert_eq!(
        canvas.get_shader_program(vs.clone(), fs.clone()),
        ShaderResolution::Pending
    );
    assert_eq!(canvas.queue.len(), 1);
    assert!(matches!(canvas.queue[0], Command::CompileProgram { .. }));
    canvas.set_shader_program(vs.clone(), fs.clone(), Some(9));
    assert_eq!(canvas.get_shader_program(vs, fs), ShaderResolution::Ready(9));
    assert_eq!(canvas.queue.len(), 1);
}

#[test]
fn owner_compiles_default_lazily_with_sentinel() {
    let mut owner = GpuOwner::new(0, 0);
    assert_eq!(owner.width, 640);
    assert_eq!(owner.height, 360);
    let (actions, reply) = owner.execute(Command::GetDefaultProgram);
    assert_eq!(actions.len(), 1);
    assert!(matches!(actions[0], GlAction::CompileDefaultProgram { .. }));
    let handle = reply.expect("a round trip answers");
    assert!(handle > 0);
    // the second request answers from the nonzero sentinel, compiling nothing
    let (actions2, reply2) = owner.execute(Command::GetDefaultProgram);
    assert_eq!(actions2.len(), 0);
    assert_eq!(reply2, Some(handle));
}

#[test]
fn owner_executes_create_draw_delete_in_order() {
    let mut owner = GpuOwner::new(640, 360);
    owner.execute(Command::Setup);
    let (actions, _) = owner.execute(Command::CreateObject { id: 0, descriptor: plain_descriptor(1) });
    assert_eq!(actions.len(), 1);
    let (vao0, vbo0, ebo0) = match &actions[0] {
        GlAction::UploadObject { vao, vbo, ebo, vertex_data, index_data } => {
            assert_eq!(vertex_data.len(), 9);
            assert_eq!(index_data.len(), 3);
            (*vao, *vbo, *ebo)
        }
        other => panic!("expected an upload, got {:?}", other),
    };
    let (actions, _) = owner.execute(Command::DrawObject { id: 0 });
    match &actions[0] {
        GlAction::DrawCall { vao, index_count, .. } => {
            assert_eq!(*vao, vao0);
            assert_eq!(*index_count, 3);
        }
        other => panic!("expected a draw call, got {:?}", other),
    }
    // deleting a default-program object never deletes the shared program
    let (actions, _) = owner.execute(Command::DeleteObject { id: 0 });
    assert_eq!(actions.len(), 1);
    match &actions[0] {
        GlAction::DeleteBuffers { vao, vbo, ebo } => {
            assert_eq!((*vao, *vbo, *ebo), (vao0, vbo0, ebo0));
        }
        other => panic!("expected a buffer deletion, got {:?}", other),
    }
    // a deleted object no longer draws
    let (actions, _) = owner.execute(Command::DrawObject { id: 0 });
    assert_eq!(actions.len(), 0);
}

#[test]
fn owner_deletes_custom_program_with_its_object() {
    let mut owner = GpuOwner::new(640, 360);
    owner.execute(Command::Setup);
    let descriptor = ShapeDescriptor {
        vertex_data: vec![0; 9],
        index_data: vec![0, 1, 2],
        vertex_shader: Some(String::from("custom vertex")),
        fragment_shader: None,
        is_stroke: false,
    };
    let (actions, _) = owner.execute(Command::CreateObject { id: 5, descriptor });
    assert_eq!(actions.len(), 2);
    let program = match &actions[0] {
        GlAction::CompileProgram { program, .. } => *program,
        other => panic!("expected a compile, got {:?}", other),
    };
    let (actions, _) = owner.execute(Command::DeleteObject { id: 5 });
    assert_eq!(actions.len(), 2);
    assert!(matches!(actions[0], GlAction::DeleteBuffers { .. }));
    match &actions[1] {
        GlAction::DeleteProgram { program: p } => assert_eq!(*p, program),
        other => panic!("expected a program deletion, got {:?}", other),
    }
}

#[test]
fn owner_ignores_zero_resize() {
    let mut owner = GpuOwner::new(640, 360);
    let (actions, _) = owner.execute(Command::Resize(0, 100));
    assert_eq!(actions.len(), 0);
    assert_eq!((owner.width, owner.height), (640, 360));
    let (actions, _) = owner.execute(Command::Resize(800, 800));
    assert_eq!(actions.len(), 1);
    assert_eq!((owner.width, owner.height), (800, 800));
}

#[test]
fn owner_drains_batches_in_push_order() {
    let mut owner = GpuOwner::new(640, 360);
    let batch = vec![
        Command::Clear(Color::gray(0)),
        Command::PollEvents,
        Command::SwapBuffers,
    ];
    let (actions, replies) = owner.execute_batch(batch);
    assert_eq!(actions.len(), 3);
    assert!(matches!(actions[0], GlAction::ClearScreen(_)));
    assert!(matches!(actions[1], GlAction::PollEvents));
    assert!(matches!(actions[2], GlAction::SwapBuffers));
    assert_eq!(replies.len(), 0);
}

#[test]
fn size_rebuilds_base_transform_and_ignores_zero() {
    let mut canvas = Canvas::new(8);
    canvas.size(640, 360);
    let t = canvas.get_transform();
    let entries = t.as_vec();
    assert_eq!(entries[0], 2 * S / 640);
    assert_eq!(entries[5], 2 * S / 360);
    assert_eq!(entries[10], 2 * S / 360);
    assert_eq!(canvas.get_sketch().width, 640);
    // a zero dimension is ignored entirely
    canvas.size(0, 100);
    assert_eq!(canvas.get_sketch().width, 640);
    assert_eq!(canvas.get_sketch().height, 360);
}

#[test]
fn state_setters_round_trip() {
    let mut canvas = Canvas::new(8);
    canvas.fill(Color::rgb(1, 2, 3));
    assert_eq!(canvas.get_fill(), Color::rgb(1, 2, 3));
    canvas.noFill();
    assert_eq!(canvas.get_fill(), Color::transparent());
    canvas.stroke(Color::gray(9));
    assert_eq!(canvas.get_stroke(), Color::gray(9));
    canvas.noStroke();
    assert_eq!(canvas.get_stroke(), Color::transparent());
    canvas.stroke_weight(12);
    assert_eq!(canvas.get_stroke_weight(), 12);
    canvas.background(Color::gray(5));
    assert!(matches!(canvas.queue[0], Command::Clear(c) if c == Color::gray(5)));
    canvas.draw_background();
    assert!(matches!(canvas.queue[1], Command::Clear(c) if c == Color::gray(5)));
}

#[test]
fn failed_custom_compile_falls_back_to_default() {
    let mut canvas = Canvas::new(8);
    canvas.set_default_program(7);
    let vs = Some(String::from("broken vertex source"));
    let fs = Some(String::from("broken fragment source"));
    assert_eq!(
        canvas.get_shader_program(vs.clone(), fs.clone()),
        ShaderResolution::Pending
    );
    // the GPU side reports the compile failed: the pair falls back to
    // the default program and the broken handle never enters the table
    canvas.set_shader_program(vs.clone(), fs.clone(), None);
    assert_eq!(canvas.get_shader_program(vs, fs), ShaderResolution::Ready(7));
    // no second compile was pushed
    let compiles = canvas
        .queue
        .iter()
        .filter(|c| matches!(c, Command::CompileProgram { .. }))
        .count();
    assert_eq!(compiles, 1);
}

#[test]
fn recorded_pair_answers_its_own_handle() {
    let mut canvas = Canvas::new(8);
    let vs = Some(String::from("vertex a"));
    let fs = None;
    assert_eq!(
        canvas.get_shader_program(vs.clone(), fs.clone()),
        ShaderResolution::Pending
    );
    assert!(matches!(canvas.queue[0], Command::CompileProgram { .. }));
    canvas.set_shader_program(vs.clone(), fs.clone(), Some(41));
    assert_eq!(canvas.get_shader_program(vs, fs), ShaderResolution::Ready(41));
}
