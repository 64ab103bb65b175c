use blick::command::{
    BufferBarrier, Command, CommandBuffer, CommandBufferState, CommandError, ImageBarrier, PassKind,
    PipelineHandle, RenderPassInfo, ViewportBits, BIND_POINT_COMPUTE, BIND_POINT_GRAPHICS, REMAINING,
};
use blick::{Rect, WHOLE_SIZE};

fn area() -> Rect<u32> {
    Rect { x: 0, y: 0, width: 800, height: 600 }
}

#[test]
fn buffer_goes_idle_recording_recorded() {
    let mut cb = CommandBuffer::new(1, 2);
    assert_eq!(cb.state(), CommandBufferState::Idle);
    assert_eq!(cb.end(), Err(CommandError::NotRecording));
    cb.begin();
    assert_eq!(cb.state(), CommandBufferState::Recording);
    assert!(!cb.is_submittable());
    cb.begin_compute_pass().unwrap();
    cb.dispatch(1, 1, 1).unwrap();
    cb.end_pass(PassKind::Compute).unwrap();
    cb.end().unwrap();
    assert!(cb.is_submittable());
    assert_eq!(cb.commands_slice().len(), 1);
    cb.begin();
    assert!(cb.commands_slice().is_empty());
}

#[test]
fn passes_do_not_nest() {
    let mut cb = CommandBuffer::new(1, 2);
    cb.begin();
    cb.begin_render_pass(RenderPassInfo { raw: 5, num_attachments: 1 }, 6, &area()).unwrap();
    assert_eq!(cb.begin_compute_pass(), Err(CommandError::PassOpen));
    assert_eq!(cb.begin_render_pass(RenderPassInfo { raw: 5, num_attachments: 1 }, 6, &area()), Err(CommandError::PassOpen));
    assert_eq!(cb.end(), Err(CommandError::PassOpen));
    assert_eq!(cb.transition(&[], &[], 1, 2), Err(CommandError::PassOpen));
    assert_eq!(cb.dispatch(1, 1, 1), Err(CommandError::WrongPass));
    cb.end_pass(PassKind::Render).unwrap();
    assert_eq!(cb.end_pass(PassKind::Render), Err(CommandError::WrongPass));
    assert_eq!(cb.draw(3, 1, 0, 0), Err(CommandError::WrongPass));
}

#[test]
fn binding_before_pipeline_fails_fast() {
    let mut cb = CommandBuffer::new(1, 2);
    cb.begin();
    cb.begin_compute_pass().unwrap();
    assert_eq!(cb.bind_descriptor_set(PassKind::Compute, 0, 9), Err(CommandError::NoPipelineBound));
    assert_eq!(cb.push_constants(PassKind::Compute, 0, &[1, 2, 3, 4]), Err(CommandError::NoPipelineBound));
    assert!(cb.commands_slice().is_empty());
    cb.bind_pipeline(PassKind::Compute, PipelineHandle { raw: 40, layout: 41 }).unwrap();
    cb.bind_descriptor_set(PassKind::Compute, 0, 9).unwrap();
    cb.push_constants(PassKind::Compute, 4, &[1, 2, 3, 4]).unwrap();
    let cmds = cb.commands_slice();
    assert!(matches!(cmds[0], Command::BindPipeline { bind_point: BIND_POINT_COMPUTE, pipeline: 40 }));
    assert!(matches!(cmds[1], Command::BindDescriptorSet { bind_point: BIND_POINT_COMPUTE, layout: 41, index: 0, set: 9 }));
    match &cmds[2] {
        Command::PushConstants { layout, stage_flags, offset, data } => {
            assert_eq!((*layout, *stage_flags, *offset), (41, 0x20, 4));
            assert_eq!(data, &vec![1, 2, 3, 4]);
        }
        _ => panic!("expected push constants"),
    }
}

#[test]
fn render_pass_records_in_call_order() {
    let mut cb = CommandBuffer::new(1, 2);
    cb.begin();
    cb.begin_render_pass(RenderPassInfo { raw: 5, num_attachments: 2 }, 6, &area()).unwrap();
    cb.bind_pipeline(PassKind::Render, PipelineHandle { raw: 30, layout: 31 }).unwrap();
    cb.bind_descriptor_set(PassKind::Render, 1, 8).unwrap();
    cb.set_viewport_and_scissor(&area()).unwrap();
    cb.set_viewport(ViewportBits { x: 0, y: 0, width: 0x4448_0000, height: 0x4416_0000, min_depth: 0, max_depth: 0x3f80_0000 }).unwrap();
    cb.set_scissor(&Rect { x: 1, y: 2, width: 3, height: 4 }).unwrap();
    cb.bind_index_buffer(12, 0, 1).unwrap();
    cb.draw(3, 1, 0, 0).unwrap();
    cb.draw_indexed(6, 1, 0, -2, 0).unwrap();
    cb.end_pass(PassKind::Render).unwrap();
    let cmds = cb.commands_slice();
    assert_eq!(cmds.len(), 11);
    assert!(matches!(cmds[0], Command::BeginRenderPass { render_pass: 5, framebuffer: 6, clear_value_count: 2, .. }));
    assert!(matches!(cmds[1], Command::BindPipeline { bind_point: BIND_POINT_GRAPHICS, pipeline: 30 }));
    assert!(matches!(cmds[2], Command::BindDescriptorSet { layout: 31, index: 1, set: 8, .. }));
    assert!(matches!(cmds[3], Command::SetViewportToRect { .. }));
    assert!(matches!(cmds[4], Command::SetScissor { .. }));
    assert!(matches!(cmds[5], Command::SetViewport { .. }));
    assert!(matches!(cmds[6], Command::SetScissor { rect: Rect { x: 1, y: 2, width: 3, height: 4 } }));
    assert!(matches!(cmds[7], Command::BindIndexBuffer { buffer: 12, offset: 0, index_type: 1 }));
    assert!(matches!(cmds[8], Command::Draw { vertex_count: 3, .. }));
    assert!(matches!(cmds[9], Command::DrawIndexed { index_count: 6, vertex_offset: -2, .. }));
    assert!(matches!(cmds[10], Command::EndRenderPass));
}

#[test]
fn transition_covers_whole_resources() {
    let mut cb = CommandBuffer::new(1, 2);
    assert_eq!(cb.transition(&[], &[], 1, 2), Err(CommandError::NotRecording));
    cb.begin();
    cb.transition(
        &[BufferBarrier { buffer: 3, src_access_mask: 0x40, dst_access_mask: 0x20 }],
        &[ImageBarrier { image: 4, src_access_mask: 0x100, dst_access_mask: 0, old_layout: 2, new_layout: 1000001002, aspect_mask: 1 }],
        0x800,
        0x8,
    )
    .unwrap();
    match &cb.commands_slice()[0] {
        Command::PipelineBarrier { src_stage_mask, dst_stage_mask, buffer_barriers, image_barriers } => {
            assert_eq!((*src_stage_mask, *dst_stage_mask), (0x800, 0x8));
            assert_eq!(buffer_barriers[0].size, WHOLE_SIZE);
            assert_eq!(buffer_barriers[0].offset, 0);
            assert_eq!(buffer_barriers[0].src_access_mask, 0x40);
            assert_eq!(image_barriers[0].level_count, REMAINING);
            assert_eq!(image_barriers[0].layer_count, REMAINING);
            assert_eq!(image_barriers[0].new_layout, 1000001002);
        }
        _ => panic!("expected a barrier"),
    }
}
