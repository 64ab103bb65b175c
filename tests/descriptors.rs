use blick::descriptor::{
    pool_sizes, Descriptor, DescriptorError, DescriptorResource, DescriptorSet, DescriptorSetLayout,
    DescriptorSetLayoutDesc, DescriptorSetLayoutEntry,
};
use blick::WHOLE_SIZE;

const STORAGE_BUFFER: i32 = 7;
const UNIFORM_BUFFER: i32 = 6;

fn entry(binding: u32, ty: i32, count: u32) -> DescriptorSetLayoutEntry {
    DescriptorSetLayoutEntry { binding, stage_flags: 0x7fff_ffff, ty, count }
}

fn buffer(binding: u32, raw: u64) -> Descriptor {
    Descriptor { binding, resource: DescriptorResource::Buffer { buffer: raw, offset: 0, range: WHOLE_SIZE } }
}

#[test]
fn pool_is_sized_per_type() {
    let entries = [entry(0, STORAGE_BUFFER, 1), entry(1, UNIFORM_BUFFER, 2), entry(2, STORAGE_BUFFER, 3)];
    let mut sizes = pool_sizes(&entries).unwrap();
    sizes.sort_by_key(|s| s.ty);
    assert_eq!(sizes.len(), 2);
    assert_eq!((sizes[0].ty, sizes[0].descriptor_count), (UNIFORM_BUFFER, 2));
    assert_eq!((sizes[1].ty, sizes[1].descriptor_count), (STORAGE_BUFFER, 4));
    assert!(pool_sizes(&[]).unwrap().is_empty());
}

#[test]
fn pool_count_overflow_is_refused() {
    let entries = [entry(0, STORAGE_BUFFER, u32::MAX), entry(1, STORAGE_BUFFER, 1)];
    assert_eq!(pool_sizes(&entries).unwrap_err(), DescriptorError::CountOverflow);
    let desc = DescriptorSetLayoutDesc { entries: &entries };
    assert!(matches!(DescriptorSetLayout::new(1, &desc), Err(DescriptorError::CountOverflow)));
    let fits = [entry(0, STORAGE_BUFFER, u32::MAX), entry(1, UNIFORM_BUFFER, 1)];
    assert!(pool_sizes(&fits).is_ok());
}

#[test]
fn update_writes_each_entry_with_its_binding_type() {
    let entries = [entry(0, STORAGE_BUFFER, 1), entry(3, UNIFORM_BUFFER, 1)];
    let layout = DescriptorSetLayout::new(10, &DescriptorSetLayoutDesc { entries: &entries }).unwrap();
    let set = DescriptorSet::new(20, 30, &layout);
    let update = set.update(&[buffer(3, 500), buffer(0, 501)]).unwrap();
    assert_eq!(update.buffer_infos.len(), 2);
    assert_eq!(update.buffer_infos[0].buffer, 500);
    assert_eq!(update.buffer_infos[1].range, WHOLE_SIZE);
    assert_eq!(update.writes[0].descriptor_type, UNIFORM_BUFFER);
    assert_eq!(update.writes[1].descriptor_type, STORAGE_BUFFER);
    assert_eq!(update.writes[1].buffer_info_index, 1);
    assert_eq!(update.writes[1].dst_set, 20);
    assert_eq!(update.writes[0].descriptor_count, 1);
}

#[test]
fn update_with_absent_binding_is_refused_whole() {
    let entries = [entry(0, STORAGE_BUFFER, 1)];
    let layout = DescriptorSetLayout::new(10, &DescriptorSetLayoutDesc { entries: &entries }).unwrap();
    let set = DescriptorSet::new(20, 30, &layout);
    let r = set.update(&[buffer(0, 1), buffer(5, 2), buffer(6, 3)]);
    assert!(matches!(r, Err(DescriptorError::BindingNotFound(5))));
    assert!(set.update(&[]).unwrap().writes.is_empty());
}
