use vstd::prelude::*;

verus! {

/// Which list of a bind group's resources a binding slot takes its resource from.
#[derive(Clone, Copy, Debug, PartialEq, Eq)]
pub enum BindingSource {
    Uniform,
    StorageBuffer,
    TextureView,
    Sampler,
}

/// One entry of a bind group: the binding number, and the resource it binds, named by
/// its list and its position in that list.
#[derive(Clone, Copy, Debug, PartialEq, Eq)]
pub struct BindingSlot {
    pub binding: u32,
    pub source: BindingSource,
    pub index: usize,
}

/// The number of entries of a bind group with these numbers of resources.
pub open spec fn slot_count(uniforms: usize, storage_buffers: usize, textures: usize, samplers: usize) -> int {
    uniforms + storage_buffers + textures + samplers
}

/// Entry `k` of the bind group: binding numbers run from 0 without a gap, over the
/// uniforms first, then the storage buffers, the texture views and the samplers,
/// each list in its own order.
pub open spec fn slot_at(
    uniforms: usize,
    storage_buffers: usize,
    textures: usize,
    samplers: usize,
    k: int,
) -> BindingSlot {
    if k < uniforms {
        BindingSlot { binding: k as u32, source: BindingSource::Uniform, index: k as usize }
    } else if k < uniforms + storage_buffers {
        BindingSlot {
            binding: k as u32,
            source: BindingSource::StorageBuffer,
            index: (k - uniforms) as usize,
        }
    } else if k < uniforms + storage_buffers + textures {
        BindingSlot {
            binding: k as u32,
            source: BindingSource::TextureView,
            index: (k - uniforms - storage_buffers) as usize,
        }
    } else {
        BindingSlot {
            binding: k as u32,
            source: BindingSource::Sampler,
            index: (k - uniforms - storage_buffers - textures) as usize,
        }
    }
}

pub open spec fn slots_of(
    uniforms: usize,
    storage_buffers: usize,
    textures: usize,
    samplers: usize,
) -> Seq<BindingSlot> {
    Seq::new(
        slot_count(uniforms, storage_buffers, textures, samplers) as nat,
        |k: int| slot_at(uniforms, storage_buffers, textures, samplers, k),
    )
}

/// How many resources of a bind group come from `source`.
pub open spec fn source_len(
    uniforms: usize,
    storage_buffers: usize,
    textures: usize,
    samplers: usize,
    source: BindingSource,
) -> int {
    match source {
        BindingSource::Uniform => uniforms as int,
        BindingSource::StorageBuffer => storage_buffers as int,
        BindingSource::TextureView => textures as int,
        BindingSource::Sampler => samplers as int,
    }
}

/// The first binding number given to resources from `source`.
pub open spec fn source_offset(
    uniforms: usize,
    storage_buffers: usize,
    textures: usize,
    source: BindingSource,
) -> int {
    match source {
        BindingSource::Uniform => 0,
        BindingSource::StorageBuffer => uniforms as int,
        BindingSource::TextureView => uniforms + storage_buffers,
        BindingSource::Sampler => uniforms + storage_buffers + textures,
    }
}

/// Binding numbers run from 0 without a gap, so no two entries share one.
pub proof fn lemma_bindings_consecutive(
    uniforms: usize,
    storage_buffers: usize,
    textures: usize,
    samplers: usize,
)
    requires
        slot_count(uniforms, storage_buffers, textures, samplers) <= u32::MAX,
    ensures
        forall|k: int|
            0 <= k < slot_count(uniforms, storage_buffers, textures, samplers) ==> #[trigger] slots_of(
                uniforms,
                storage_buffers,
                textures,
                samplers,
            )[k].binding == k,
        forall|k1: int, k2: int|
            0 <= k1 < slot_count(uniforms, storage_buffers, textures, samplers) && 0 <= k2
                < slot_count(uniforms, storage_buffers, textures, samplers) && k1 != k2
                ==> #[trigger] slots_of(uniforms, storage_buffers, textures, samplers)[k1].binding
                != #[trigger] slots_of(uniforms, storage_buffers, textures, samplers)[k2].binding,
{
}

/// Every resource of every list is bound exactly once: resource `i` of `source` sits at
/// binding `source_offset + i`, and at no other entry.
pub proof fn lemma_each_resource_bound_once(
    uniforms: usize,
    storage_buffers: usize,
    textures: usize,
    samplers: usize,
    source: BindingSource,
    i: int,
)
    requires
        slot_count(uniforms, storage_buffers, textures, samplers) <= u32::MAX,
        0 <= i < source_len(uniforms, storage_buffers, textures, samplers, source),
    ensures
        ({
            let k = source_offset(uniforms, storage_buffers, textures, source) + i;
            &&& 0 <= k < slot_count(uniforms, storage_buffers, textures, samplers)
            &&& slots_of(uniforms, storage_buffers, textures, samplers)[k] == (BindingSlot {
                binding: k as u32,
                source,
                index: i as usize,
            })
        }),
        forall|k: int|
            0 <= k < slot_count(uniforms, storage_buffers, textures, samplers) && (#[trigger] slots_of(
                uniforms,
                storage_buffers,
                textures,
                samplers,
            )[k]).source == source && slots_of(uniforms, storage_buffers, textures, samplers)[k].index
                == i ==> k == source_offset(uniforms, storage_buffers, textures, source) + i,
{
}

/// Appends one slot per resource of one list, numbering on from `*next_binding`.
fn push_slots(
    slots: &mut Vec<BindingSlot>,
    next_binding: &mut u32,
    source: BindingSource,
    count: usize,
)
    requires
        *old(next_binding) as int == old(slots)@.len(),
        old(slots)@.len() + count <= u32::MAX,
    ensures
        final(slots)@.len() == old(slots)@.len() + count,
        *final(next_binding) as int == final(slots)@.len(),
        forall|k: int| 0 <= k < old(slots)@.len() ==> #[trigger] final(slots)@[k] == old(slots)@[k],
        forall|j: int|
            0 <= j < count ==> #[trigger] final(slots)@[old(slots)@.len() + j] == (BindingSlot {
                binding: (old(slots)@.len() + j) as u32,
                source,
                index: j as usize,
            }),
{
    let ghost start = slots@.len();
    let ghost before = slots@;
    let mut i: usize = 0;
    while i < count
        invariant
            i <= count,
            start + count <= u32::MAX,
            slots@.len() == start + i,
            *next_binding as int == slots@.len(),
            forall|k: int| 0 <= k < start ==> #[trigger] slots@[k] == before[k],
            forall|j: int|
                0 <= j < i ==> #[trigger] slots@[start + j] == (BindingSlot {
                    binding: (start + j) as u32,
                    source,
                    index: j as usize,
                }),
        decreases count - i,
    {
        slots.push(BindingSlot { binding: *next_binding, source, index: i });
        *next_binding = *next_binding + 1;
        i = i + 1;
    }
}

/// The entries of a bind group over `uniforms` uniform buffers, `storage_buffers`
/// storage buffers, `textures` texture views and `samplers` samplers, in binding order.
pub fn bind_group_slots(
    uniforms: usize,
    storage_buffers: usize,
    textures: usize,
    samplers: usize,
) -> (r: Vec<BindingSlot>)
    requires
        slot_count(uniforms, storage_buffers, textures, samplers) <= u32::MAX,
    ensures
        r@ == slots_of(uniforms, storage_buffers, textures, samplers),
{
    let mut slots: Vec<BindingSlot> = Vec::new();
    let mut next_binding: u32 = 0;
    push_slots(&mut slots, &mut next_binding, BindingSource::Uniform, uniforms);
    push_slots(&mut slots, &mut next_binding, BindingSource::StorageBuffer, storage_buffers);
    push_slots(&mut slots, &mut next_binding, BindingSource::TextureView, textures);
    push_slots(&mut slots, &mut next_binding, BindingSource::Sampler, samplers);
    proof {
        let u = uniforms as int;
        let s = storage_buffers as int;
        let t = textures as int;
        assert forall|k: int|
            0 <= k < slots@.len() implies #[trigger] slots@[k] == slot_at(
            uniforms,
            storage_buffers,
            textures,
            samplers,
            k,
        ) by {
            if k < u {
                assert(slots@[0 + k] == slots@[k]);
            } else if k < u + s {
                assert(slots@[u + (k - u)] == slots@[k]);
            } else if k < u + s + t {
                assert(slots@[u + s + (k - u - s)] == slots@[k]);
            } else {
                assert(slots@[u + s + t + (k - u - s - t)] == slots@[k]);
            }
        }
        assert(slots@ =~= slots_of(uniforms, storage_buffers, textures, samplers));
    }
    slots
}

} // verus!
