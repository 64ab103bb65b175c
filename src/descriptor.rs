//! Descriptor set layouts, the pool each set gets, and validated set updates.
use vstd::prelude::*;

use crate::{DescriptorType, ShaderStageFlags};

verus! {

pub const U32_MAX: u32 = 0xffff_ffff;

#[derive(Clone, Copy, Debug, PartialEq, Eq, Structural)]
pub struct DescriptorSetLayoutEntry {
    pub binding: u32,
    pub stage_flags: ShaderStageFlags,
    pub ty: DescriptorType,
    pub count: u32,
}

pub struct DescriptorSetLayoutDesc<'a> {
    pub entries: &'a [DescriptorSetLayoutEntry],
}

/// How many descriptors of one type a pool holds.
#[derive(Clone, Copy, Debug, PartialEq, Eq, Structural)]
pub struct DescriptorPoolSize {
    pub ty: DescriptorType,
    pub descriptor_count: u32,
}

#[derive(Clone, Copy, Debug, PartialEq, Eq, Structural)]
pub enum DescriptorResource {
    /// A range of a buffer, by the buffer's driver handle.
    Buffer { buffer: u64, offset: u64, range: u64 },
}

#[derive(Clone, Copy, Debug, PartialEq, Eq, Structural)]
pub struct Descriptor {
    pub binding: u32,
    pub resource: DescriptorResource,
}

/// A buffer range to write into a descriptor.
#[derive(Clone, Copy, Debug, PartialEq, Eq, Structural)]
pub struct DescriptorBufferInfo {
    pub buffer: u64,
    pub offset: u64,
    pub range: u64,
}

/// One descriptor write: a single descriptor of `binding`, taken from the buffer info
/// at `buffer_info_index` of the update.
#[derive(Clone, Copy, Debug, PartialEq, Eq, Structural)]
pub struct DescriptorWrite {
    pub dst_set: u64,
    pub binding: u32,
    pub descriptor_type: DescriptorType,
    pub buffer_info_index: usize,
    pub descriptor_count: u32,
}

/// A complete update of a set: every buffer info is in place before any write
/// refers to it, so the writes can point into `buffer_infos` as it stands.
pub struct DescriptorUpdate {
    pub buffer_infos: Vec<DescriptorBufferInfo>,
    pub writes: Vec<DescriptorWrite>,
}

#[derive(Clone, Copy, Debug, PartialEq, Eq, Structural)]
pub enum DescriptorError {
    /// An update named a binding that the set's layout does not have.
    BindingNotFound(u32),
    /// The descriptors of one type add up to more than a pool can count.
    CountOverflow,
}

/// The number of descriptors of type `ty` over `entries`.
pub open spec fn type_total(entries: Seq<DescriptorSetLayoutEntry>, ty: DescriptorType) -> int
    decreases entries.len(),
{
    if entries.len() == 0 {
        0
    } else {
        type_total(entries.drop_last(), ty) + if entries.last().ty == ty {
            entries.last().count as int
        } else {
            0
        }
    }
}

/// Whether some entry has type `ty`.
pub open spec fn has_type(entries: Seq<DescriptorSetLayoutEntry>, ty: DescriptorType) -> bool {
    exists|i: int| 0 <= i < entries.len() && entries[i].ty == ty
}

/// The pool sizes of `entries`: one per type present, holding that type's total.
pub open spec fn is_pool_sizes(sizes: Seq<DescriptorPoolSize>, entries: Seq<DescriptorSetLayoutEntry>) -> bool {
    &&& forall|k: int|
        0 <= k < sizes.len() ==> #[trigger] sizes[k].descriptor_count == type_total(entries, sizes[k].ty)
            && has_type(entries, sizes[k].ty)
    &&& forall|k: int, l: int| 0 <= k < sizes.len() && 0 <= l < sizes.len() && k != l ==> sizes[k].ty != sizes[l].ty
    &&& forall|i: int| 0 <= i < entries.len() ==> exists|k: int| 0 <= k < sizes.len() && sizes[k].ty == #[trigger] entries[i].ty
}

/// Whether some type's total is more than a pool can count.
pub open spec fn counts_overflow(entries: Seq<DescriptorSetLayoutEntry>) -> bool {
    exists|ty: DescriptorType| type_total(entries, ty) > U32_MAX
}

proof fn lemma_type_total_grows(entries: Seq<DescriptorSetLayoutEntry>, i: int, ty: DescriptorType)
    requires
        0 <= i <= entries.len(),
    ensures
        0 <= type_total(entries.subrange(0, i), ty) <= type_total(entries, ty),
    decreases entries.len() - i,
{
    if i < entries.len() {
        lemma_type_total_grows(entries, i + 1, ty);
        assert(entries.subrange(0, i + 1).drop_last() =~= entries.subrange(0, i));
    } else {
        assert(entries.subrange(0, i) =~= entries);
    }
    lemma_type_total_nonneg(entries.subrange(0, i), ty);
}

proof fn lemma_type_total_nonneg(entries: Seq<DescriptorSetLayoutEntry>, ty: DescriptorType)
    ensures
        type_total(entries, ty) >= 0,
    decreases entries.len(),
{
    if entries.len() > 0 {
        lemma_type_total_nonneg(entries.drop_last(), ty);
    }
}

/// The pool sizes of `entries`, or `CountOverflow` when some type's total does not
/// fit a `u32`.
pub fn pool_sizes(entries: &[DescriptorSetLayoutEntry]) -> (r: Result<Vec<DescriptorPoolSize>, DescriptorError>)
    ensures
        r is Ok <==> !counts_overflow(entries@),
        r matches Ok(sizes) ==> is_pool_sizes(sizes@, entries@),
        r matches Err(e) ==> e == DescriptorError::CountOverflow,
{
    let mut sizes: Vec<DescriptorPoolSize> = Vec::new();
    let n = entries.len();
    let mut i: usize = 0;
    while i < n
        invariant
            n == entries@.len(),
            0 <= i <= n,
            is_pool_sizes(sizes@, entries@.subrange(0, i as int)),
        decreases n - i,
    {
        let e = entries[i];
        let ghost prefix = entries@.subrange(0, i as int);
        let ghost next = entries@.subrange(0, i + 1);
        proof {
            assert(next.drop_last() =~= prefix);
            assert(next.last() == e);
        }
        let ghost old_sizes = sizes@;
        let position = find_type(&sizes, e.ty);
        let found = position.is_some();
        let k: usize = match position {
            Some(p) => p,
            None => 0,
        };
        if found {
            let current = sizes[k].descriptor_count;
            if current > U32_MAX - e.count {
                proof {
                    assert(type_total(next, e.ty) > U32_MAX);
                    lemma_type_total_grows(entries@, i + 1, e.ty);
                }
                return Err(DescriptorError::CountOverflow);
            }
            sizes.set(k, DescriptorPoolSize { ty: e.ty, descriptor_count: current + e.count });
        } else {
            sizes.push(DescriptorPoolSize { ty: e.ty, descriptor_count: e.count });
        }
        proof {
            let s = sizes@;
            assert forall|m: int| 0 <= m < s.len() implies #[trigger] s[m].descriptor_count == type_total(
                next,
                s[m].ty,
            ) && has_type(next, s[m].ty) by {
                assert(next[i as int].ty == e.ty);
                if s[m].ty == e.ty {
                    if !found {
                        assert(!has_type(prefix, e.ty)) by {
                            if has_type(prefix, e.ty) {
                                let w = choose|w: int| 0 <= w < prefix.len() && prefix[w].ty == e.ty;
                                assert(prefix[w].ty == e.ty);
                                let mm = choose|mm: int|
                                    0 <= mm < old_sizes.len() && old_sizes[mm].ty == #[trigger] prefix[w].ty;
                            }
                        }
                        lemma_no_type_zero(prefix, e.ty);
                    } else {
                        assert(m == k);
                    }
                } else {
                    assert(s[m] == old_sizes[m]);
                    assert(old_sizes[m].descriptor_count == type_total(prefix, old_sizes[m].ty));
                    let w = choose|w: int| 0 <= w < prefix.len() && prefix[w].ty == s[m].ty;
                    assert(next[w] == prefix[w]);
                }
            }
            assert forall|a: int, b: int| 0 <= a < s.len() && 0 <= b < s.len() && a != b implies s[a].ty
                != s[b].ty by {
                if !found && (a == s.len() - 1 || b == s.len() - 1) {
                } else {
                    assert(s[a].ty == old_sizes[a].ty);
                    assert(s[b].ty == old_sizes[b].ty);
                }
            }
            assert forall|j: int| 0 <= j < next.len() implies exists|m: int|
                0 <= m < s.len() && s[m].ty == #[trigger] next[j].ty by {
                if j < i {
                    assert(next[j] == prefix[j]);
                    let mm = choose|mm: int| 0 <= mm < old_sizes.len() && old_sizes[mm].ty == #[trigger] prefix[j].ty;
                    assert(s[mm].ty == old_sizes[mm].ty);
                } else {
                    if found {
                        assert(s[k as int].ty == e.ty);
                    } else {
                        assert(s[s.len() - 1].ty == e.ty);
                    }
                }
            }
        }
        i = i + 1;
    }
    proof {
        assert(entries@.subrange(0, n as int) =~= entries@);
        assert(!counts_overflow(entries@)) by {
            if counts_overflow(entries@) {
                let ty = choose|ty: DescriptorType| type_total(entries@, ty) > U32_MAX;
                if !has_type(entries@, ty) {
                    lemma_no_type_zero(entries@, ty);
                } else {
                    let w = choose|w: int| 0 <= w < entries@.len() && entries@[w].ty == ty;
                    let m = choose|m: int| 0 <= m < sizes@.len() && sizes@[m].ty == entries@[w].ty;
                    assert(sizes@[m].descriptor_count == type_total(entries@, ty));
                }
            }
        }
    }
    Ok(sizes)
}

fn find_type(sizes: &Vec<DescriptorPoolSize>, ty: DescriptorType) -> (r: Option<usize>)
    ensures
        r matches Some(k) ==> k < sizes@.len() && sizes@[k as int].ty == ty,
        r is None ==> forall|l: int| 0 <= l < sizes@.len() ==> sizes@[l].ty != ty,
{
    let mut k: usize = 0;
    while k < sizes.len()
        invariant
            0 <= k <= sizes@.len(),
            forall|l: int| 0 <= l < k ==> sizes@[l].ty != ty,
        decreases sizes@.len() - k,
    {
        if sizes[k].ty == ty {
            return Some(k);
        }
        k = k + 1;
    }
    None
}

proof fn lemma_no_type_zero(entries: Seq<DescriptorSetLayoutEntry>, ty: DescriptorType)
    requires
        !has_type(entries, ty),
    ensures
        type_total(entries, ty) == 0,
    decreases entries.len(),
{
    if entries.len() > 0 {
        assert(!has_type(entries.drop_last(), ty)) by {
            if has_type(entries.drop_last(), ty) {
                let w = choose|w: int| 0 <= w < entries.drop_last().len() && entries.drop_last()[w].ty == ty;
                assert(entries[w].ty == ty);
            }
        }
        assert(entries[entries.len() - 1].ty != ty);
        lemma_no_type_zero(entries.drop_last(), ty);
    }
}

/// The position of the entry that defines `binding`: the last one naming it, or -1.
pub open spec fn find_binding(bindings: Seq<DescriptorSetLayoutEntry>, binding: u32) -> int
    decreases bindings.len(),
{
    if bindings.len() == 0 {
        -1
    } else if bindings.last().binding == binding {
        bindings.len() - 1
    } else {
        find_binding(bindings.drop_last(), binding)
    }
}

proof fn lemma_find_binding(bindings: Seq<DescriptorSetLayoutEntry>, binding: u32)
    ensures
        -1 <= find_binding(bindings, binding) < bindings.len(),
        find_binding(bindings, binding) >= 0 ==> bindings[find_binding(bindings, binding)].binding == binding,
        find_binding(bindings, binding) == -1 <==> forall|i: int|
            0 <= i < bindings.len() ==> bindings[i].binding != binding,
    decreases bindings.len(),
{
    if bindings.len() > 0 {
        lemma_find_binding(bindings.drop_last(), binding);
        if bindings.last().binding != binding {
            assert forall|i: int| 0 <= i < bindings.len() - 1 implies bindings[i]
                == bindings.drop_last()[i] by {}
        }
    }
}

fn lookup_binding(bindings: &Vec<DescriptorSetLayoutEntry>, binding: u32) -> (r: Option<usize>)
    ensures
        r matches Some(k) ==> k as int == find_binding(bindings@, binding),
        r is None ==> find_binding(bindings@, binding) == -1,
{
    let mut k: usize = bindings.len();
    proof {
        assert(bindings@.subrange(0, k as int) =~= bindings@);
    }
    while k > 0
        invariant
            0 <= k <= bindings@.len(),
            find_binding(bindings@, binding) == find_binding(bindings@.subrange(0, k as int), binding),
        decreases k,
    {
        let ghost prefix = bindings@.subrange(0, k as int);
        proof {
            assert(prefix.drop_last() =~= bindings@.subrange(0, k - 1));
        }
        if bindings[k - 1].binding == binding {
            return Some(k - 1);
        }
        k = k - 1;
    }
    None
}

/// A binding schema: for each binding, its type, count and shader stages, and the
/// per-type totals that size a set's pool.
pub struct DescriptorSetLayout {
    raw: u64,
    bindings: Vec<DescriptorSetLayoutEntry>,
    pool_sizes: Vec<DescriptorPoolSize>,
}

impl DescriptorSetLayout {
    pub closed spec fn spec_raw(&self) -> u64 {
        self.raw
    }

    pub closed spec fn bindings(&self) -> Seq<DescriptorSetLayoutEntry> {
        self.bindings@
    }

    pub closed spec fn spec_pool_sizes(&self) -> Seq<DescriptorPoolSize> {
        self.pool_sizes@
    }

    /// The layout the driver made as `raw` from `desc`; fails with `CountOverflow`
    /// when some type's total does not fit a `u32`.
    pub fn new(raw: u64, desc: &DescriptorSetLayoutDesc) -> (r: Result<DescriptorSetLayout, DescriptorError>)
        ensures
            r is Ok <==> !counts_overflow(desc.entries@),
            r matches Ok(l) ==> l.spec_raw() == raw && l.bindings() == desc.entries@ && is_pool_sizes(
                l.spec_pool_sizes(),
                desc.entries@,
            ),
            r matches Err(e) ==> e == DescriptorError::CountOverflow,
    {
        let sizes = match pool_sizes(desc.entries) {
            Ok(sizes) => sizes,
            Err(e) => return Err(e),
        };
        let mut bindings: Vec<DescriptorSetLayoutEntry> = Vec::new();
        let n = desc.entries.len();
        let mut i: usize = 0;
        while i < n
            invariant
                n == desc.entries@.len(),
                0 <= i <= n,
                bindings@ == desc.entries@.subrange(0, i as int),
            decreases n - i,
        {
            bindings.push(desc.entries[i]);
            proof {
                assert(desc.entries@.subrange(0, i + 1) =~= bindings@);
            }
            i = i + 1;
        }
        proof {
            assert(desc.entries@.subrange(0, n as int) =~= desc.entries@);
        }
        Ok(DescriptorSetLayout { raw, bindings, pool_sizes: sizes })
    }

    pub fn raw(&self) -> (r: u64)
        ensures
            r == self.spec_raw(),
    {
        self.raw
    }

    /// The sizes of the pool of a set of this layout, which holds exactly one set.
    pub fn pool_sizes(&self) -> (r: &Vec<DescriptorPoolSize>)
        ensures
            r@ == self.spec_pool_sizes(),
    {
        &self.pool_sizes
    }

    pub fn bindings_slice(&self) -> (r: &[DescriptorSetLayoutEntry])
        ensures
            r@ == self.bindings(),
    {
        self.bindings.as_slice()
    }
}

/// A set of a layout, with the pool it was allocated from (one pool per set).
pub struct DescriptorSet {
    raw: u64,
    pool: u64,
    bindings: Vec<DescriptorSetLayoutEntry>,
}

/// The update of set `set` with bindings `bindings` by `entries`: one buffer info
/// per entry, in order, and one single-descriptor write per entry, of the type its
/// binding has, reading the entry's buffer info.
pub open spec fn is_update_of(
    u: DescriptorUpdate,
    set: u64,
    bindings: Seq<DescriptorSetLayoutEntry>,
    entries: Seq<Descriptor>,
) -> bool {
    &&& u.buffer_infos@.len() == entries.len()
    &&& u.writes@.len() == entries.len()
    &&& forall|i: int| 0 <= i < entries.len() ==> {
        let DescriptorResource::Buffer { buffer, offset, range } = (#[trigger] entries[i]).resource;
        &&& u.buffer_infos@[i] == (DescriptorBufferInfo { buffer, offset, range })
        &&& u.writes@[i] == (DescriptorWrite {
            dst_set: set,
            binding: entries[i].binding,
            descriptor_type: bindings[find_binding(bindings, entries[i].binding)].ty,
            buffer_info_index: i as usize,
            descriptor_count: 1,
        })
    }
}

/// The first entry whose binding the layout lacks, or -1.
pub open spec fn first_missing_binding(bindings: Seq<DescriptorSetLayoutEntry>, entries: Seq<Descriptor>) -> int
    decreases entries.len(),
{
    if entries.len() == 0 {
        -1
    } else {
        let before = first_missing_binding(bindings, entries.drop_last());
        if before >= 0 {
            before
        } else if find_binding(bindings, entries.last().binding) == -1 {
            entries.len() - 1
        } else {
            -1
        }
    }
}

impl DescriptorSet {
    pub closed spec fn spec_raw(&self) -> u64 {
        self.raw
    }

    pub closed spec fn spec_pool(&self) -> u64 {
        self.pool
    }

    pub closed spec fn bindings(&self) -> Seq<DescriptorSetLayoutEntry> {
        self.bindings@
    }

    /// The set `raw`, allocated from its own pool `pool`, of `layout`.
    pub fn new(raw: u64, pool: u64, layout: &DescriptorSetLayout) -> (r: DescriptorSet)
        ensures
            r.spec_raw() == raw,
            r.spec_pool() == pool,
            r.bindings() == layout.bindings(),
    {
        let mut bindings: Vec<DescriptorSetLayoutEntry> = Vec::new();
        let n = layout.bindings.len();
        let mut i: usize = 0;
        while i < n
            invariant
                n == layout.bindings@.len(),
                0 <= i <= n,
                bindings@ == layout.bindings@.subrange(0, i as int),
            decreases n - i,
        {
            bindings.push(layout.bindings[i]);
            proof {
                assert(layout.bindings@.subrange(0, i + 1) =~= bindings@);
            }
            i = i + 1;
        }
        proof {
            assert(layout.bindings@.subrange(0, n as int) =~= layout.bindings@);
        }
        DescriptorSet { raw, pool, bindings }
    }

    pub fn raw(&self) -> (r: u64)
        ensures
            r == self.spec_raw(),
    {
        self.raw
    }

    pub fn pool(&self) -> (r: u64)
        ensures
            r == self.spec_pool(),
    {
        self.pool
    }

    /// The writes that update this set with `entries`, all of them or none: fails with
    /// `BindingNotFound` for the first entry whose binding the layout lacks.
    pub fn update(&self, entries: &[Descriptor]) -> (r: Result<DescriptorUpdate, DescriptorError>)
        ensures
            ({
                let missing = first_missing_binding(self.bindings(), entries@);
                &&& r is Ok <==> missing == -1
                &&& r matches Ok(u) ==> is_update_of(u, self.spec_raw(), self.bindings(), entries@)
                &&& r matches Err(e) ==> e == DescriptorError::BindingNotFound(entries@[missing].binding)
            }),
    {
        let mut buffer_infos: Vec<DescriptorBufferInfo> = Vec::new();
        let mut types: Vec<DescriptorType> = Vec::new();
        let n = entries.len();
        let mut i: usize = 0;
        while i < n
            invariant
                n == entries@.len(),
                0 <= i <= n,
                first_missing_binding(self.bindings@, entries@.subrange(0, i as int)) == -1,
                buffer_infos@.len() == i,
                types@.len() == i,
                forall|j: int| 0 <= j < i ==> {
                    let DescriptorResource::Buffer { buffer, offset, range } = (#[trigger] entries@[j]).resource;
                    &&& buffer_infos@[j] == (DescriptorBufferInfo { buffer, offset, range })
                    &&& types@[j] == self.bindings@[find_binding(self.bindings@, entries@[j].binding)].ty
                    &&& find_binding(self.bindings@, entries@[j].binding) >= 0
                },
            decreases n - i,
        {
            let entry = entries[i];
            proof {
                assert(entries@.subrange(0, i + 1).drop_last() =~= entries@.subrange(0, i as int));
                lemma_find_binding(self.bindings@, entry.binding);
            }
            let k = match lookup_binding(&self.bindings, entry.binding) {
                Some(k) => k,
                None => {
                    proof {
                        lemma_missing_stays(self.bindings@, entries@, i as int + 1);
                    }
                    return Err(DescriptorError::BindingNotFound(entry.binding));
                },
            };
            types.push(self.bindings[k].ty);
            match entry.resource {
                DescriptorResource::Buffer { buffer, offset, range } => {
                    buffer_infos.push(DescriptorBufferInfo { buffer, offset, range });
                },
            }
            i = i + 1;
        }
        proof {
            assert(entries@.subrange(0, n as int) =~= entries@);
        }
        let mut writes: Vec<DescriptorWrite> = Vec::new();
        let mut j: usize = 0;
        while j < n
            invariant
                n == entries@.len(),
                types@.len() == n,
                0 <= j <= n,
                writes@.len() == j,
                forall|m: int| 0 <= m < j ==> #[trigger] writes@[m] == (DescriptorWrite {
                    dst_set: self.raw,
                    binding: entries@[m].binding,
                    descriptor_type: types@[m],
                    buffer_info_index: m as usize,
                    descriptor_count: 1,
                }),
            decreases n - j,
        {
            writes.push(
                DescriptorWrite {
                    dst_set: self.raw,
                    binding: entries[j].binding,
                    descriptor_type: types[j],
                    buffer_info_index: j,
                    descriptor_count: 1,
                },
            );
            j = j + 1;
        }
        Ok(DescriptorUpdate { buffer_infos, writes })
    }
}

/// Once an entry's binding is missing, the first missing one stays found in every
/// longer prefix.
proof fn lemma_missing_stays(bindings: Seq<DescriptorSetLayoutEntry>, entries: Seq<Descriptor>, k: int)
    requires
        0 < k <= entries.len(),
        first_missing_binding(bindings, entries.subrange(0, k - 1)) == -1,
        find_binding(bindings, entries[k - 1].binding) == -1,
    ensures
        first_missing_binding(bindings, entries) == k - 1,
    decreases entries.len() - k,
{
    assert(entries.subrange(0, k).drop_last() =~= entries.subrange(0, k - 1));
    if k == entries.len() {
        assert(entries.subrange(0, k) =~= entries);
    } else {
        lemma_missing_prefix(bindings, entries, k, k - 1);
    }
}

proof fn lemma_missing_prefix(bindings: Seq<DescriptorSetLayoutEntry>, entries: Seq<Descriptor>, k: int, m: int)
    requires
        0 < k <= entries.len(),
        0 <= m,
        first_missing_binding(bindings, entries.subrange(0, k)) == m,
    ensures
        first_missing_binding(bindings, entries) == m,
    decreases entries.len() - k,
{
    if k == entries.len() {
        assert(entries.subrange(0, k) =~= entries);
    } else {
        assert(entries.subrange(0, k + 1).drop_last() =~= entries.subrange(0, k));
        lemma_missing_prefix(bindings, entries, k + 1, m);
    }
}

/// An update in which some entry names a binding the layout lacks is refused as a
/// whole (so no write is made): the entry it names is absent from the layout and
/// comes no later than that one.
pub proof fn lemma_absent_binding_refused(
    bindings: Seq<DescriptorSetLayoutEntry>,
    entries: Seq<Descriptor>,
    i: int,
)
    requires
        0 <= i < entries.len(),
        forall|j: int| 0 <= j < bindings.len() ==> bindings[j].binding != entries[i].binding,
    ensures
        0 <= first_missing_binding(bindings, entries) <= i,
        forall|j: int|
            0 <= j < bindings.len() ==> bindings[j].binding != entries[first_missing_binding(
                bindings,
                entries,
            )].binding,
    decreases entries.len(),
{
    lemma_find_binding(bindings, entries[i].binding);
    let last = entries.len() - 1;
    let before = entries.drop_last();
    if i < last {
        assert(before[i] == entries[i]);
        lemma_absent_binding_refused(bindings, before, i);
        let m = first_missing_binding(bindings, before);
        assert(before[m] == entries[m]);
    } else {
        let m = first_missing_binding(bindings, before);
        if m >= 0 {
            lemma_first_missing_range(bindings, before);
            assert(before[m] == entries[m]);
            lemma_find_binding(bindings, entries[m].binding);
        }
    }
}

proof fn lemma_first_missing_range(bindings: Seq<DescriptorSetLayoutEntry>, entries: Seq<Descriptor>)
    ensures
        -1 <= first_missing_binding(bindings, entries) < entries.len(),
        first_missing_binding(bindings, entries) >= 0 ==> find_binding(
            bindings,
            entries[first_missing_binding(bindings, entries)].binding,
        ) == -1,
    decreases entries.len(),
{
    if entries.len() > 0 {
        lemma_first_missing_range(bindings, entries.drop_last());
        let m = first_missing_binding(bindings, entries.drop_last());
        if m >= 0 {
            assert(entries.drop_last()[m] == entries[m]);
        }
    }
}

} // verus!
