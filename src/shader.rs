//! Shader stages: what their sources are compiled as.
use vstd::prelude::*;

use crate::{ShaderSource, ShaderStageFlags};

verus! {

/// Vulkan's `VkShaderStageFlagBits` values of the stages shaders are written for.
pub const SHADER_STAGE_VERTEX: ShaderStageFlags = 0x1;
pub const SHADER_STAGE_FRAGMENT: ShaderStageFlags = 0x10;
pub const SHADER_STAGE_COMPUTE: ShaderStageFlags = 0x20;
pub const SHADER_STAGE_ALL: ShaderStageFlags = 0x7fff_ffff;

pub struct ShaderModuleDesc<'a> {
    pub source: ShaderSource<'a>,
    pub stage: ShaderStageFlags,
}

#[derive(Clone, Copy, Debug, PartialEq, Eq, Structural)]
pub struct PushConstantRange {
    pub stage_flags: ShaderStageFlags,
    pub offset: u32,
    pub size: u32,
}

/// The shader model profile a stage's HLSL source is compiled with: shader model 6.4
/// vertex, pixel or compute; `None` for any other stage.
pub fn target_profile(stage: ShaderStageFlags) -> (r: Option<&'static str>)
    ensures
        stage == SHADER_STAGE_VERTEX ==> (r matches Some(p) && p@ == "vs_6_4"@),
        stage == SHADER_STAGE_FRAGMENT ==> (r matches Some(p) && p@ == "ps_6_4"@),
        stage == SHADER_STAGE_COMPUTE ==> (r matches Some(p) && p@ == "cs_6_4"@),
        stage != SHADER_STAGE_VERTEX && stage != SHADER_STAGE_FRAGMENT && stage != SHADER_STAGE_COMPUTE
            ==> r is None,
{
    if stage == SHADER_STAGE_VERTEX {
        Some("vs_6_4")
    } else if stage == SHADER_STAGE_FRAGMENT {
        Some("ps_6_4")
    } else if stage == SHADER_STAGE_COMPUTE {
        Some("cs_6_4")
    } else {
        None
    }
}

} // verus!
