//! Choices made when the device is set up: which physical device, which queue family,
//! how many objects each cache holds.
use vstd::prelude::*;

verus! {

/// Objects each of the device's caches holds.
pub const RENDER_PASS_CACHE_SIZE: usize = 16;
pub const FRAMEBUFFER_CACHE_SIZE: usize = 16;

/// Vulkan's `VkPhysicalDeviceType` values.
pub const DEVICE_TYPE_OTHER: i32 = 0;
pub const DEVICE_TYPE_INTEGRATED_GPU: i32 = 1;
pub const DEVICE_TYPE_DISCRETE_GPU: i32 = 2;
pub const DEVICE_TYPE_VIRTUAL_GPU: i32 = 3;
pub const DEVICE_TYPE_CPU: i32 = 4;

/// Vulkan's `VK_QUEUE_GRAPHICS_BIT`.
pub const QUEUE_GRAPHICS: u32 = 1;

/// What device selection reads of a physical device.
#[derive(Clone, Copy, Debug, PartialEq, Eq, Structural)]
pub struct DeviceCandidate {
    pub device_type: i32,
    /// Some queue family of the device can present to the surface.
    pub supports_present: bool,
}

/// How much a device type is preferred: discrete over integrated over virtual over
/// anything else.
pub open spec fn device_type_score(device_type: i32) -> u32 {
    if device_type == DEVICE_TYPE_DISCRETE_GPU {
        1000
    } else if device_type == DEVICE_TYPE_INTEGRATED_GPU {
        100
    } else if device_type == DEVICE_TYPE_VIRTUAL_GPU {
        10
    } else {
        0
    }
}

pub fn device_score(device_type: i32) -> (r: u32)
    ensures
        r == device_type_score(device_type),
{
    if device_type == DEVICE_TYPE_DISCRETE_GPU {
        1000
    } else if device_type == DEVICE_TYPE_INTEGRATED_GPU {
        100
    } else if device_type == DEVICE_TYPE_VIRTUAL_GPU {
        10
    } else {
        0
    }
}

/// Whether `i` is the device to use among `candidates`: it can present, no device that
/// can present scores higher, and every earlier one that can present scores lower.
pub open spec fn is_best_device(candidates: Seq<DeviceCandidate>, i: int) -> bool {
    &&& 0 <= i < candidates.len()
    &&& candidates[i].supports_present
    &&& forall|j: int|
        0 <= j < candidates.len() && candidates[j].supports_present ==> device_type_score(
            candidates[j].device_type,
        ) <= device_type_score(candidates[i].device_type)
    &&& forall|j: int|
        0 <= j < i && candidates[j].supports_present ==> device_type_score(candidates[j].device_type)
            < device_type_score(candidates[i].device_type)
}

/// The device to use, or `None` when no device can present.
pub fn pick_physical_device(candidates: &[DeviceCandidate]) -> (r: Option<usize>)
    ensures
        r matches Some(i) ==> is_best_device(candidates@, i as int),
        r is None <==> forall|j: int| 0 <= j < candidates@.len() ==> !candidates@[j].supports_present,
{
    let mut best: Option<usize> = None;
    let mut best_score: u32 = 0;
    let mut i: usize = 0;
    while i < candidates.len()
        invariant
            0 <= i <= candidates@.len(),
            best is None ==> forall|j: int| 0 <= j < i ==> !candidates@[j].supports_present,
            best matches Some(b) ==> {
                &&& b < i
                &&& candidates@[b as int].supports_present
                &&& best_score == device_type_score(candidates@[b as int].device_type)
                &&& forall|j: int|
                    0 <= j < i && candidates@[j].supports_present ==> device_type_score(
                        candidates@[j].device_type,
                    ) <= best_score
                &&& forall|j: int|
                    0 <= j < b && candidates@[j].supports_present ==> device_type_score(
                        candidates@[j].device_type,
                    ) < best_score
            },
        decreases candidates@.len() - i,
    {
        let c = candidates[i];
        if c.supports_present {
            let score = device_score(c.device_type);
            let better = match best {
                None => true,
                Some(_) => score > best_score,
            };
            if better {
                best = Some(i);
                best_score = score;
            }
        }
        i = i + 1;
    }
    best
}

/// The first queue family, by index, that supports graphics.
pub fn graphics_queue_family(queue_flags: &[u32]) -> (r: Option<u32>)
    requires
        queue_flags@.len() <= 0xffff_ffff,
    ensures
        r matches Some(i) ==> i < queue_flags@.len() && queue_flags@[i as int] & QUEUE_GRAPHICS
            == QUEUE_GRAPHICS && forall|j: int| 0 <= j < i ==> queue_flags@[j] & QUEUE_GRAPHICS != QUEUE_GRAPHICS,
        r is None ==> forall|j: int| 0 <= j < queue_flags@.len() ==> queue_flags@[j] & QUEUE_GRAPHICS != QUEUE_GRAPHICS,
{
    let mut i: usize = 0;
    while i < queue_flags.len()
        invariant
            0 <= i <= queue_flags@.len(),
            queue_flags@.len() <= 0xffff_ffff,
            forall|j: int| 0 <= j < i ==> queue_flags@[j] & QUEUE_GRAPHICS != QUEUE_GRAPHICS,
        decreases queue_flags@.len() - i,
    {
        if queue_flags[i] & QUEUE_GRAPHICS == QUEUE_GRAPHICS {
            return Some(i as u32);
        }
        i = i + 1;
    }
    None
}

} // verus!
