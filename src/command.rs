//! Command recording: a buffer goes idle → recording → recorded, at most one render or
//! compute pass is open on it at a time, and each command is appended in call order.
use vstd::prelude::*;

use crate::{AccessFlags, Extent2d, ImageAspectFlags, ImageLayout, IndexType, PipelineStageFlags, Rect, WHOLE_SIZE};

verus! {

/// Vulkan's `VK_REMAINING_MIP_LEVELS` and `VK_REMAINING_ARRAY_LAYERS`.
pub const REMAINING: u32 = 0xffff_ffff;
/// Vulkan's `VkPipelineBindPoint` values.
pub const BIND_POINT_GRAPHICS: i32 = 0;
pub const BIND_POINT_COMPUTE: i32 = 1;
/// Vulkan's `VK_SHADER_STAGE_COMPUTE_BIT`, the stage push constants are given for.
pub const SHADER_STAGE_COMPUTE: u32 = 0x20;

#[derive(Clone, Copy, Debug, PartialEq, Eq, Structural)]
pub enum CommandBufferState {
    Idle,
    Recording,
    Recorded,
}

#[derive(Clone, Copy, Debug, PartialEq, Eq, Structural)]
pub enum PassKind {
    Render,
    Compute,
}

#[derive(Clone, Copy, Debug, PartialEq, Eq, Structural)]
pub enum CommandError {
    /// The buffer is not recording.
    NotRecording,
    /// A pass is open where none may be.
    PassOpen,
    /// The command needs an open pass of another kind, or an open pass.
    WrongPass,
    /// The command needs a pipeline bound in the open pass.
    NoPipelineBound,
}

/// A pipeline, by its driver handle and that of its layout.
#[derive(Clone, Copy, Debug, PartialEq, Eq, Structural)]
pub struct PipelineHandle {
    pub raw: u64,
    pub layout: u64,
}

/// A render pass to begin, by its driver handle, with its attachment count.
#[derive(Clone, Copy, Debug, PartialEq, Eq, Structural)]
pub struct RenderPassInfo {
    pub raw: u64,
    pub num_attachments: u32,
}

/// A viewport, each field the bit pattern of an IEEE-754 single.
#[derive(Clone, Copy, Debug, PartialEq, Eq, Structural)]
pub struct ViewportBits {
    pub x: u32,
    pub y: u32,
    pub width: u32,
    pub height: u32,
    pub min_depth: u32,
    pub max_depth: u32,
}

#[derive(Clone, Copy, Debug, PartialEq, Eq, Structural)]
pub struct BufferBarrier {
    pub buffer: u64,
    pub src_access_mask: AccessFlags,
    pub dst_access_mask: AccessFlags,
}

#[derive(Clone, Copy, Debug, PartialEq, Eq, Structural)]
pub struct ImageBarrier {
    pub image: u64,
    pub src_access_mask: AccessFlags,
    pub dst_access_mask: AccessFlags,
    pub old_layout: ImageLayout,
    pub new_layout: ImageLayout,
    pub aspect_mask: ImageAspectFlags,
}

/// A buffer barrier as recorded: it covers the whole buffer.
#[derive(Clone, Copy, Debug, PartialEq, Eq, Structural)]
pub struct BufferMemoryBarrier {
    pub buffer: u64,
    pub src_access_mask: AccessFlags,
    pub dst_access_mask: AccessFlags,
    pub offset: u64,
    pub size: u64,
}

/// An image barrier as recorded: it covers every mip level and array layer.
#[derive(Clone, Copy, Debug, PartialEq, Eq, Structural)]
pub struct ImageMemoryBarrier {
    pub image: u64,
    pub src_access_mask: AccessFlags,
    pub dst_access_mask: AccessFlags,
    pub old_layout: ImageLayout,
    pub new_layout: ImageLayout,
    pub aspect_mask: ImageAspectFlags,
    pub base_mip_level: u32,
    pub level_count: u32,
    pub base_array_layer: u32,
    pub layer_count: u32,
}

/// A recorded command.
pub enum Command {
    /// Begins a render pass over `render_area` from the origin, clearing each attachment.
    BeginRenderPass { render_pass: u64, framebuffer: u64, render_area: Extent2d, clear_value_count: u32 },
    EndRenderPass,
    BindPipeline { bind_point: i32, pipeline: u64 },
    SetViewport { viewport: ViewportBits },
    /// A viewport covering `rect` with depths from zero to one.
    SetViewportToRect { rect: Rect<u32> },
    SetScissor { rect: Rect<u32> },
    BindDescriptorSet { bind_point: i32, layout: u64, index: u32, set: u64 },
    PushConstants { layout: u64, stage_flags: u32, offset: u32, data: Vec<u8> },
    BindIndexBuffer { buffer: u64, offset: u64, index_type: IndexType },
    Draw { vertex_count: u32, instance_count: u32, first_vertex: u32, first_instance: u32 },
    DrawIndexed {
        index_count: u32,
        instance_count: u32,
        first_index: u32,
        vertex_offset: i32,
        first_instance: u32,
    },
    Dispatch { x: u32, y: u32, z: u32 },
    PipelineBarrier {
        src_stage_mask: PipelineStageFlags,
        dst_stage_mask: PipelineStageFlags,
        buffer_barriers: Vec<BufferMemoryBarrier>,
        image_barriers: Vec<ImageMemoryBarrier>,
    },
}

pub open spec fn buffer_memory_barrier(b: BufferBarrier) -> BufferMemoryBarrier {
    BufferMemoryBarrier {
        buffer: b.buffer,
        src_access_mask: b.src_access_mask,
        dst_access_mask: b.dst_access_mask,
        offset: 0,
        size: WHOLE_SIZE,
    }
}

pub open spec fn image_memory_barrier(b: ImageBarrier) -> ImageMemoryBarrier {
    ImageMemoryBarrier {
        image: b.image,
        src_access_mask: b.src_access_mask,
        dst_access_mask: b.dst_access_mask,
        old_layout: b.old_layout,
        new_layout: b.new_layout,
        aspect_mask: b.aspect_mask,
        base_mip_level: 0,
        level_count: REMAINING,
        base_array_layer: 0,
        layer_count: REMAINING,
    }
}

/// The bind point of a pass kind.
pub open spec fn bind_point(kind: PassKind) -> i32 {
    match kind {
        PassKind::Render => BIND_POINT_GRAPHICS,
        PassKind::Compute => BIND_POINT_COMPUTE,
    }
}

/// The error, if any, of a command that needs an open pass of `kind` (and a bound
/// pipeline when `needs_pipeline`), in a buffer in `state` with `open` and `bound`.
pub open spec fn pass_error(
    state: CommandBufferState,
    open: Option<PassKind>,
    bound: Option<PipelineHandle>,
    kind: PassKind,
    needs_pipeline: bool,
) -> Option<CommandError> {
    if state != CommandBufferState::Recording {
        Some(CommandError::NotRecording)
    } else if open != Some(kind) {
        Some(CommandError::WrongPass)
    } else if needs_pipeline && bound is None {
        Some(CommandError::NoPipelineBound)
    } else {
        None
    }
}

/// The error, if any, of a command that needs a recording buffer with no open pass.
pub open spec fn outside_pass_error(state: CommandBufferState, open: Option<PassKind>) -> Option<CommandError> {
    if state != CommandBufferState::Recording {
        Some(CommandError::NotRecording)
    } else if open is Some {
        Some(CommandError::PassOpen)
    } else {
        None
    }
}

pub struct CommandBuffer {
    raw: u64,
    pool: u64,
    state: CommandBufferState,
    open_pass: Option<PassKind>,
    bound_pipeline: Option<PipelineHandle>,
    commands: Vec<Command>,
}

impl CommandBuffer {
    pub closed spec fn spec_raw(&self) -> u64 {
        self.raw
    }

    pub closed spec fn spec_pool(&self) -> u64 {
        self.pool
    }

    pub closed spec fn spec_state(&self) -> CommandBufferState {
        self.state
    }

    pub closed spec fn spec_open_pass(&self) -> Option<PassKind> {
        self.open_pass
    }

    pub closed spec fn spec_bound_pipeline(&self) -> Option<PipelineHandle> {
        self.bound_pipeline
    }

    /// The commands recorded since the last `begin`, in order.
    pub closed spec fn commands(&self) -> Seq<Command> {
        self.commands@
    }

    /// Everything but the recorded commands stays as it was.
    pub open spec fn same_but_commands(&self, other: &Self) -> bool {
        &&& self.spec_raw() == other.spec_raw()
        &&& self.spec_pool() == other.spec_pool()
        &&& self.spec_state() == other.spec_state()
        &&& self.spec_open_pass() == other.spec_open_pass()
        &&& self.spec_bound_pipeline() == other.spec_bound_pipeline()
    }

    /// The command buffer `raw`, allocated from its own pool `pool`, idle.
    pub fn new(raw: u64, pool: u64) -> (r: CommandBuffer)
        ensures
            r.spec_raw() == raw,
            r.spec_pool() == pool,
            r.spec_state() == CommandBufferState::Idle,
            r.spec_open_pass() is None,
            r.spec_bound_pipeline() is None,
            r.commands().len() == 0,
    {
        CommandBuffer {
            raw,
            pool,
            state: CommandBufferState::Idle,
            open_pass: None,
            bound_pipeline: None,
            commands: Vec::new(),
        }
    }

    pub fn raw(&self) -> (r: u64)
        ensures
            r == self.spec_raw(),
    {
        self.raw
    }

    pub fn pool(&self) -> (r: u64)
        ensures
            r == self.spec_pool(),
    {
        self.pool
    }

    pub fn state(&self) -> (r: CommandBufferState)
        ensures
            r == self.spec_state(),
    {
        self.state
    }

    pub fn open_pass(&self) -> (r: Option<PassKind>)
        ensures
            r == self.spec_open_pass(),
    {
        self.open_pass
    }

    pub fn commands_slice(&self) -> (r: &[Command])
        ensures
            r@ == self.commands(),
    {
        self.commands.as_slice()
    }

    /// Starts recording, discarding whatever was recorded before.
    pub fn begin(&mut self)
        ensures
            final(self).spec_raw() == old(self).spec_raw(),
            final(self).spec_pool() == old(self).spec_pool(),
            final(self).spec_state() == CommandBufferState::Recording,
            final(self).spec_open_pass() is None,
            final(self).spec_bound_pipeline() is None,
            final(self).commands().len() == 0,
    {
        self.state = CommandBufferState::Recording;
        self.open_pass = None;
        self.bound_pipeline = None;
        self.commands = Vec::new();
    }

    /// Finishes recording; the buffer can then be submitted.
    pub fn end(&mut self) -> (r: Result<(), CommandError>)
        ensures
            ({
                let e = outside_pass_error(old(self).spec_state(), old(self).spec_open_pass());
                &&& e is None ==> r is Ok && final(self).spec_state() == CommandBufferState::Recorded
                    && final(self).spec_raw() == old(self).spec_raw() && final(self).spec_pool()
                    == old(self).spec_pool() && final(self).spec_open_pass() is None
                    && final(self).spec_bound_pipeline() == old(self).spec_bound_pipeline()
                    && final(self).commands() == old(self).commands()
                &&& e matches Some(err) ==> r == Err::<(), CommandError>(err) && *final(self) == *old(self)
            }),
    {
        if self.state != CommandBufferState::Recording {
            return Err(CommandError::NotRecording);
        }
        if self.open_pass.is_some() {
            return Err(CommandError::PassOpen);
        }
        self.state = CommandBufferState::Recorded;
        Ok(())
    }

    fn pass_check(&self, kind: PassKind, needs_pipeline: bool) -> (r: Option<CommandError>)
        ensures
            r == pass_error(self.spec_state(), self.spec_open_pass(), self.spec_bound_pipeline(), kind, needs_pipeline),
    {
        if self.state != CommandBufferState::Recording {
            Some(CommandError::NotRecording)
        } else if !matches!(self.open_pass, Some(k) if k == kind) {
            Some(CommandError::WrongPass)
        } else if needs_pipeline && self.bound_pipeline.is_none() {
            Some(CommandError::NoPipelineBound)
        } else {
            None
        }
    }

    fn outside_check(&self) -> (r: Option<CommandError>)
        ensures
            r == outside_pass_error(self.spec_state(), self.spec_open_pass()),
    {
        if self.state != CommandBufferState::Recording {
            Some(CommandError::NotRecording)
        } else if self.open_pass.is_some() {
            Some(CommandError::PassOpen)
        } else {
            None
        }
    }

    /// Opens a render pass on `framebuffer` over `render_area`; the buffer must be
    /// recording with no pass open.
    pub fn begin_render_pass(&mut self, pass: RenderPassInfo, framebuffer: u64, render_area: &Rect<u32>) -> (r:
        Result<(), CommandError>)
        ensures
            ({
                let e = outside_pass_error(old(self).spec_state(), old(self).spec_open_pass());
                &&& e is None ==> r is Ok && final(self).spec_raw() == old(self).spec_raw() && final(self).spec_pool() == old(self).spec_pool() && final(self).spec_state() == old(self).spec_state()
                    && final(self).spec_open_pass() == Some(PassKind::Render)
                    && final(self).spec_bound_pipeline() is None && final(self).commands() == old(self).commands().push(
                    Command::BeginRenderPass {
                        render_pass: pass.raw,
                        framebuffer,
                        render_area: Extent2d { width: render_area.width, height: render_area.height },
                        clear_value_count: pass.num_attachments,
                    },
                )
                &&& e matches Some(err) ==> r == Err::<(), CommandError>(err) && *final(self) == *old(self)
            }),
    {
        if let Some(e) = self.outside_check() {
            return Err(e);
        }
        self.commands.push(
            Command::BeginRenderPass {
                render_pass: pass.raw,
                framebuffer,
                render_area: Extent2d { width: render_area.width, height: render_area.height },
                clear_value_count: pass.num_attachments,
            },
        );
        self.open_pass = Some(PassKind::Render);
        self.bound_pipeline = None;
        Ok(())
    }

    /// Opens a compute pass; the buffer must be recording with no pass open.
    pub fn begin_compute_pass(&mut self) -> (r: Result<(), CommandError>)
        ensures
            ({
                let e = outside_pass_error(old(self).spec_state(), old(self).spec_open_pass());
                &&& e is None ==> r is Ok && final(self).spec_raw() == old(self).spec_raw() && final(self).spec_pool() == old(self).spec_pool() && final(self).spec_state() == old(self).spec_state()
                    && final(self).spec_open_pass() == Some(PassKind::Compute)
                    && final(self).spec_bound_pipeline() is None && final(self).commands() == old(self).commands()
                &&& e matches Some(err) ==> r == Err::<(), CommandError>(err) && *final(self) == *old(self)
            }),
    {
        if let Some(e) = self.outside_check() {
            return Err(e);
        }
        self.open_pass = Some(PassKind::Compute);
        self.bound_pipeline = None;
        Ok(())
    }

    /// Closes the open pass of `kind`; closing a render pass records its end.
    pub fn end_pass(&mut self, kind: PassKind) -> (r: Result<(), CommandError>)
        ensures
            ({
                let e = pass_error(
                    old(self).spec_state(),
                    old(self).spec_open_pass(),
                    old(self).spec_bound_pipeline(),
                    kind,
                    false,
                );
                &&& e is None ==> r is Ok && final(self).spec_raw() == old(self).spec_raw() && final(self).spec_pool() == old(self).spec_pool() && final(self).spec_state() == old(self).spec_state()
                    && final(self).spec_open_pass() is None && final(self).spec_bound_pipeline() is None
                    && final(self).commands() == if kind == PassKind::Render {
                    old(self).commands().push(Command::EndRenderPass)
                } else {
                    old(self).commands()
                }
                &&& e matches Some(err) ==> r == Err::<(), CommandError>(err) && *final(self) == *old(self)
            }),
    {
        if let Some(e) = self.pass_check(kind, false) {
            return Err(e);
        }
        if kind == PassKind::Render {
            self.commands.push(Command::EndRenderPass);
        }
        self.open_pass = None;
        self.bound_pipeline = None;
        Ok(())
    }

    /// Binds `pipeline` at the bind point of the open pass of `kind`.
    pub fn bind_pipeline(&mut self, kind: PassKind, pipeline: PipelineHandle) -> (r: Result<(), CommandError>)
        ensures
            ({
                let e = pass_error(
                    old(self).spec_state(),
                    old(self).spec_open_pass(),
                    old(self).spec_bound_pipeline(),
                    kind,
                    false,
                );
                &&& e is None ==> r is Ok && final(self).spec_raw() == old(self).spec_raw() && final(self).spec_pool() == old(self).spec_pool() && final(self).spec_state() == old(self).spec_state()
                    && final(self).spec_open_pass() == old(self).spec_open_pass()
                    && final(self).spec_bound_pipeline() == Some(pipeline) && final(self).commands()
                    == old(self).commands().push(
                    Command::BindPipeline { bind_point: bind_point(kind), pipeline: pipeline.raw },
                )
                &&& e matches Some(err) ==> r == Err::<(), CommandError>(err) && *final(self) == *old(self)
            }),
    {
        if let Some(e) = self.pass_check(kind, false) {
            return Err(e);
        }
        let point = match kind {
            PassKind::Render => BIND_POINT_GRAPHICS,
            PassKind::Compute => BIND_POINT_COMPUTE,
        };
        self.commands.push(Command::BindPipeline { bind_point: point, pipeline: pipeline.raw });
        self.bound_pipeline = Some(pipeline);
        Ok(())
    }

    /// Appends `command`, which needs an open pass of `kind` (and a bound pipeline when
    /// `needs_pipeline`).
    fn record_in_pass(&mut self, kind: PassKind, needs_pipeline: bool, command: Command) -> (r: Result<(), CommandError>)
        ensures
            ({
                let e = pass_error(
                    old(self).spec_state(),
                    old(self).spec_open_pass(),
                    old(self).spec_bound_pipeline(),
                    kind,
                    needs_pipeline,
                );
                &&& e is None ==> r is Ok && final(self).same_but_commands(old(self)) && final(self).commands()
                    == old(self).commands().push(command)
                &&& e matches Some(err) ==> r == Err::<(), CommandError>(err) && *final(self) == *old(self)
            }),
    {
        if let Some(e) = self.pass_check(kind, needs_pipeline) {
            return Err(e);
        }
        self.commands.push(command);
        Ok(())
    }

    /// Sets the viewport in the open render pass.
    pub fn set_viewport(&mut self, viewport: ViewportBits) -> (r: Result<(), CommandError>)
        ensures
            ({
                let e = pass_error(
                    old(self).spec_state(),
                    old(self).spec_open_pass(),
                    old(self).spec_bound_pipeline(),
                    PassKind::Render,
                    false,
                );
                &&& e is None ==> r is Ok && final(self).same_but_commands(old(self)) && final(self).commands()
                    == old(self).commands().push(Command::SetViewport { viewport })
                &&& e matches Some(err) ==> r == Err::<(), CommandError>(err) && *final(self) == *old(self)
            }),
    {
        self.record_in_pass(PassKind::Render, false, Command::SetViewport { viewport })
    }

    /// Sets the scissor in the open render pass.
    pub fn set_scissor(&mut self, rect: &Rect<u32>) -> (r: Result<(), CommandError>)
        ensures
            ({
                let e = pass_error(
                    old(self).spec_state(),
                    old(self).spec_open_pass(),
                    old(self).spec_bound_pipeline(),
                    PassKind::Render,
                    false,
                );
                &&& e is None ==> r is Ok && final(self).same_but_commands(old(self)) && final(self).commands()
                    == old(self).commands().push(Command::SetScissor { rect: *rect })
                &&& e matches Some(err) ==> r == Err::<(), CommandError>(err) && *final(self) == *old(self)
            }),
    {
        self.record_in_pass(PassKind::Render, false, Command::SetScissor { rect: *rect })
    }

    /// Sets both the viewport (depths zero to one) and the scissor to `rect` in the
    /// open render pass.
    pub fn set_viewport_and_scissor(&mut self, rect: &Rect<u32>) -> (r: Result<(), CommandError>)
        ensures
            ({
                let e = pass_error(
                    old(self).spec_state(),
                    old(self).spec_open_pass(),
                    old(self).spec_bound_pipeline(),
                    PassKind::Render,
                    false,
                );
                &&& e is None ==> r is Ok && final(self).same_but_commands(old(self)) && final(self).commands()
                    == old(self).commands().push(Command::SetViewportToRect { rect: *rect }).push(
                    Command::SetScissor { rect: *rect },
                )
                &&& e matches Some(err) ==> r == Err::<(), CommandError>(err) && *final(self) == *old(self)
            }),
    {
        if let Some(e) = self.pass_check(PassKind::Render, false) {
            return Err(e);
        }
        self.commands.push(Command::SetViewportToRect { rect: *rect });
        self.commands.push(Command::SetScissor { rect: *rect });
        Ok(())
    }

    /// Binds `set` at `index` through the layout of the pipeline bound in the open
    /// pass of `kind`; fails with `NoPipelineBound` before a pipeline is bound.
    pub fn bind_descriptor_set(&mut self, kind: PassKind, index: u32, set: u64) -> (r: Result<(), CommandError>)
        ensures
            ({
                let e = pass_error(
                    old(self).spec_state(),
                    old(self).spec_open_pass(),
                    old(self).spec_bound_pipeline(),
                    kind,
                    true,
                );
                &&& e is None ==> r is Ok && final(self).same_but_commands(old(self)) && final(self).commands()
                    == old(self).commands().push(
                    Command::BindDescriptorSet {
                        bind_point: bind_point(kind),
                        layout: old(self).spec_bound_pipeline()->0.layout,
                        index,
                        set,
                    },
                )
                &&& e matches Some(err) ==> r == Err::<(), CommandError>(err) && *final(self) == *old(self)
            }),
    {
        if let Some(e) = self.pass_check(kind, true) {
            return Err(e);
        }
        let layout = match self.bound_pipeline {
            Some(p) => p.layout,
            None => 0,
        };
        let point = match kind {
            PassKind::Render => BIND_POINT_GRAPHICS,
            PassKind::Compute => BIND_POINT_COMPUTE,
        };
        self.commands.push(Command::BindDescriptorSet { bind_point: point, layout, index, set });
        Ok(())
    }

    /// Pushes `data` at `offset` through the layout of the pipeline bound in the open
    /// pass of `kind`, for the compute stage; fails with `NoPipelineBound` before a
    /// pipeline is bound.
    pub fn push_constants(&mut self, kind: PassKind, offset: u32, data: &[u8]) -> (r: Result<(), CommandError>)
        ensures
            ({
                let e = pass_error(
                    old(self).spec_state(),
                    old(self).spec_open_pass(),
                    old(self).spec_bound_pipeline(),
                    kind,
                    true,
                );
                &&& e is None ==> r is Ok && final(self).same_but_commands(old(self)) && final(self).commands().len()
                    == old(self).commands().len() + 1 && final(self).commands().drop_last() == old(self).commands()
                    && (final(self).commands().last() matches Command::PushConstants {
                    layout: l,
                    stage_flags: st,
                    offset: o,
                    data: d,
                } && l == old(self).spec_bound_pipeline()->0.layout && st == SHADER_STAGE_COMPUTE && o
                    == offset && d@ == data@)
                &&& e matches Some(err) ==> r == Err::<(), CommandError>(err) && *final(self) == *old(self)
            }),
    {
        if let Some(e) = self.pass_check(kind, true) {
            return Err(e);
        }
        let layout = match self.bound_pipeline {
            Some(p) => p.layout,
            None => 0,
        };
        let mut bytes: Vec<u8> = Vec::new();
        let mut i: usize = 0;
        while i < data.len()
            invariant
                0 <= i <= data@.len(),
                bytes@ == data@.subrange(0, i as int),
            decreases data@.len() - i,
        {
            bytes.push(data[i]);
            proof {
                assert(data@.subrange(0, i + 1) =~= bytes@);
            }
            i = i + 1;
        }
        proof {
            assert(data@.subrange(0, data@.len() as int) =~= data@);
        }
        let ghost before = self.commands@;
        self.commands.push(
            Command::PushConstants { layout, stage_flags: SHADER_STAGE_COMPUTE, offset, data: bytes },
        );
        proof {
            assert(self.commands@.drop_last() =~= before);
        }
        Ok(())
    }

    /// Binds `buffer` from `offset` as the index buffer in the open render pass.
    pub fn bind_index_buffer(&mut self, buffer: u64, offset: u64, index_type: IndexType) -> (r: Result<(), CommandError>)
        ensures
            ({
                let e = pass_error(
                    old(self).spec_state(),
                    old(self).spec_open_pass(),
                    old(self).spec_bound_pipeline(),
                    PassKind::Render,
                    false,
                );
                &&& e is None ==> r is Ok && final(self).same_but_commands(old(self)) && final(self).commands()
                    == old(self).commands().push(Command::BindIndexBuffer { buffer, offset, index_type })
                &&& e matches Some(err) ==> r == Err::<(), CommandError>(err) && *final(self) == *old(self)
            }),
    {
        self.record_in_pass(PassKind::Render, false, Command::BindIndexBuffer { buffer, offset, index_type })
    }

    /// Draws in the open render pass.
    pub fn draw(&mut self, vertex_count: u32, instance_count: u32, first_vertex: u32, first_instance: u32) -> (r:
        Result<(), CommandError>)
        ensures
            ({
                let e = pass_error(
                    old(self).spec_state(),
                    old(self).spec_open_pass(),
                    old(self).spec_bound_pipeline(),
                    PassKind::Render,
                    false,
                );
                &&& e is None ==> r is Ok && final(self).same_but_commands(old(self)) && final(self).commands()
                    == old(self).commands().push(
                    Command::Draw { vertex_count, instance_count, first_vertex, first_instance },
                )
                &&& e matches Some(err) ==> r == Err::<(), CommandError>(err) && *final(self) == *old(self)
            }),
    {
        self.record_in_pass(
            PassKind::Render,
            false,
            Command::Draw { vertex_count, instance_count, first_vertex, first_instance },
        )
    }

    /// Draws indexed in the open render pass.
    pub fn draw_indexed(
        &mut self,
        index_count: u32,
        instance_count: u32,
        first_index: u32,
        vertex_offset: i32,
        first_instance: u32,
    ) -> (r: Result<(), CommandError>)
        ensures
            ({
                let e = pass_error(
                    old(self).spec_state(),
                    old(self).spec_open_pass(),
                    old(self).spec_bound_pipeline(),
                    PassKind::Render,
                    false,
                );
                &&& e is None ==> r is Ok && final(self).same_but_commands(old(self)) && final(self).commands()
                    == old(self).commands().push(
                    Command::DrawIndexed { index_count, instance_count, first_index, vertex_offset, first_instance },
                )
                &&& e matches Some(err) ==> r == Err::<(), CommandError>(err) && *final(self) == *old(self)
            }),
    {
        self.record_in_pass(
            PassKind::Render,
            false,
            Command::DrawIndexed { index_count, instance_count, first_index, vertex_offset, first_instance },
        )
    }

    /// Dispatches `x` by `y` by `z` work groups in the open compute pass.
    pub fn dispatch(&mut self, x: u32, y: u32, z: u32) -> (r: Result<(), CommandError>)
        ensures
            ({
                let e = pass_error(
                    old(self).spec_state(),
                    old(self).spec_open_pass(),
                    old(self).spec_bound_pipeline(),
                    PassKind::Compute,
                    false,
                );
                &&& e is None ==> r is Ok && final(self).same_but_commands(old(self)) && final(self).commands()
                    == old(self).commands().push(Command::Dispatch { x, y, z })
                &&& e matches Some(err) ==> r == Err::<(), CommandError>(err) && *final(self) == *old(self)
            }),
    {
        self.record_in_pass(PassKind::Compute, false, Command::Dispatch { x, y, z })
    }

    /// Records a barrier from `src_stage_mask` to `dst_stage_mask` over whole buffers
    /// and whole images; legal only outside any pass.
    pub fn transition(
        &mut self,
        buffer_barriers: &[BufferBarrier],
        image_barriers: &[ImageBarrier],
        src_stage_mask: PipelineStageFlags,
        dst_stage_mask: PipelineStageFlags,
    ) -> (r: Result<(), CommandError>)
        ensures
            ({
                let e = outside_pass_error(old(self).spec_state(), old(self).spec_open_pass());
                &&& e is None ==> r is Ok && final(self).same_but_commands(old(self)) && final(self).commands().len()
                    == old(self).commands().len() + 1 && final(self).commands().drop_last() == old(self).commands()
                    && (final(self).commands().last() matches Command::PipelineBarrier {
                    src_stage_mask: s,
                    dst_stage_mask: d,
                    buffer_barriers: bb,
                    image_barriers: ib,
                } && s == src_stage_mask && d == dst_stage_mask && bb@ == buffer_barriers@.map_values(
                    |b: BufferBarrier| buffer_memory_barrier(b),
                ) && ib@ == image_barriers@.map_values(|b: ImageBarrier| image_memory_barrier(b)))
                &&& e matches Some(err) ==> r == Err::<(), CommandError>(err) && *final(self) == *old(self)
            }),
    {
        if let Some(e) = self.outside_check() {
            return Err(e);
        }
        let mut bb: Vec<BufferMemoryBarrier> = Vec::new();
        let mut i: usize = 0;
        while i < buffer_barriers.len()
            invariant
                0 <= i <= buffer_barriers@.len(),
                bb@ == buffer_barriers@.subrange(0, i as int).map_values(
                    |b: BufferBarrier| buffer_memory_barrier(b),
                ),
            decreases buffer_barriers@.len() - i,
        {
            let b = buffer_barriers[i];
            bb.push(
                BufferMemoryBarrier {
                    buffer: b.buffer,
                    src_access_mask: b.src_access_mask,
                    dst_access_mask: b.dst_access_mask,
                    offset: 0,
                    size: WHOLE_SIZE,
                },
            );
            proof {
                assert(buffer_barriers@.subrange(0, i + 1) =~= buffer_barriers@.subrange(0, i as int).push(b));
            }
            i = i + 1;
        }
        let mut ib: Vec<ImageMemoryBarrier> = Vec::new();
        let mut j: usize = 0;
        while j < image_barriers.len()
            invariant
                0 <= j <= image_barriers@.len(),
                ib@ == image_barriers@.subrange(0, j as int).map_values(
                    |b: ImageBarrier| image_memory_barrier(b),
                ),
            decreases image_barriers@.len() - j,
        {
            let b = image_barriers[j];
            ib.push(
                ImageMemoryBarrier {
                    image: b.image,
                    src_access_mask: b.src_access_mask,
                    dst_access_mask: b.dst_access_mask,
                    old_layout: b.old_layout,
                    new_layout: b.new_layout,
                    aspect_mask: b.aspect_mask,
                    base_mip_level: 0,
                    level_count: REMAINING,
                    base_array_layer: 0,
                    layer_count: REMAINING,
                },
            );
            proof {
                assert(image_barriers@.subrange(0, j + 1) =~= image_barriers@.subrange(0, j as int).push(b));
            }
            j = j + 1;
        }
        proof {
            assert(buffer_barriers@.subrange(0, buffer_barriers@.len() as int) =~= buffer_barriers@);
            assert(image_barriers@.subrange(0, image_barriers@.len() as int) =~= image_barriers@);
        }
        let ghost before = self.commands@;
        self.commands.push(
            Command::PipelineBarrier { src_stage_mask, dst_stage_mask, buffer_barriers: bb, image_barriers: ib },
        );
        proof {
            assert(self.commands@.drop_last() =~= before);
        }
        Ok(())
    }

    /// Whether the buffer holds a finished recording.
    pub fn is_submittable(&self) -> (r: bool)
        ensures
            r == (self.spec_state() == CommandBufferState::Recorded),
    {
        self.state == CommandBufferState::Recorded
    }
}

} // verus!
