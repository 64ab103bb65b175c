use blick::device::{
    graphics_queue_family, pick_physical_device, DeviceCandidate, DEVICE_TYPE_CPU, DEVICE_TYPE_DISCRETE_GPU,
    DEVICE_TYPE_INTEGRATED_GPU, DEVICE_TYPE_VIRTUAL_GPU,
};
use blick::render_pass::{render_pass_layout, ColorAttachmentDesc};
use blick::shader::{target_profile, SHADER_STAGE_COMPUTE, SHADER_STAGE_FRAGMENT, SHADER_STAGE_VERTEX};

fn dev(device_type: i32, supports_present: bool) -> DeviceCandidate {
    DeviceCandidate { device_type, supports_present }
}

#[test]
fn discrete_gpu_is_preferred_first_wins_ties() {
    let c = [
        dev(DEVICE_TYPE_INTEGRATED_GPU, true),
        dev(DEVICE_TYPE_DISCRETE_GPU, false),
        dev(DEVICE_TYPE_DISCRETE_GPU, true),
        dev(DEVICE_TYPE_DISCRETE_GPU, true),
    ];
    assert_eq!(pick_physical_device(&c), Some(2));
    let c = [dev(DEVICE_TYPE_CPU, true), dev(DEVICE_TYPE_VIRTUAL_GPU, true), dev(DEVICE_TYPE_INTEGRATED_GPU, true)];
    assert_eq!(pick_physical_device(&c), Some(2));
    assert_eq!(pick_physical_device(&[dev(DEVICE_TYPE_CPU, true), dev(DEVICE_TYPE_CPU, true)]), Some(0));
    assert_eq!(pick_physical_device(&[dev(DEVICE_TYPE_DISCRETE_GPU, false)]), None);
    assert_eq!(pick_physical_device(&[]), None);
}

#[test]
fn first_graphics_queue_family() {
    assert_eq!(graphics_queue_family(&[0x4, 0x2, 0x7, 0x1]), Some(2));
    assert_eq!(graphics_queue_family(&[0x4, 0x2]), None);
}

#[test]
fn render_pass_layout_skips_empty_slots() {
    let slots = [
        Some(ColorAttachmentDesc { format: 50, layout: 2 }),
        None,
        Some(ColorAttachmentDesc { format: 37, layout: 5 }),
    ];
    let l = render_pass_layout(&slots);
    assert_eq!(l.attachments.len(), 2);
    assert_eq!((l.attachments[1].format, l.attachments[1].final_layout), (37, 5));
    assert_eq!((l.color_refs[0].attachment, l.color_refs[0].layout), (0, 2));
    assert_eq!((l.color_refs[1].attachment, l.color_refs[1].layout), (0xffff_ffff, 0));
    assert_eq!((l.color_refs[2].attachment, l.color_refs[2].layout), (1, 5));
    assert!(render_pass_layout(&[]).attachments.is_empty());
}

#[test]
fn shader_profiles_per_stage() {
    assert_eq!(target_profile(SHADER_STAGE_VERTEX), Some("vs_6_4"));
    assert_eq!(target_profile(SHADER_STAGE_FRAGMENT), Some("ps_6_4"));
    assert_eq!(target_profile(SHADER_STAGE_COMPUTE), Some("cs_6_4"));
    assert_eq!(target_profile(0x2), None);
}
