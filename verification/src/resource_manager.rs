//! The resource broker: the GPUs that nodes advertise, and their
//! reservation for tasks.

use crate::smart_contract::has_capacity;
use crate::smart_contract::is_consistent;
use crate::smart_contract::GPURequirements;
use crate::smart_contract::GPUResourceContract;
use crate::smart_contract::GpuView;
use crate::smart_contract::ResourceError;
use crate::string_map::StringMap;
use vstd::prelude::*;

verus! {

/// The advertisements of a sequence as mathematical values.
pub open spec fn gpus_view(gpus: Seq<GPUResourceContract>) -> Seq<GpuView> {
    gpus.map_values(|gpu: GPUResourceContract| gpu@)
}

/// Whether a GPU can be given to a task with `requirements`: it is free
/// and has the capacity.
pub open spec fn fits(gpu: GpuView, requirements: GPURequirements) -> bool {
    gpu.available && has_capacity(gpu, requirements)
}

/// Whether GPU `i` is the first in the order of registration that fits.
pub open spec fn is_first_fit(gpus: Seq<GpuView>, requirements: GPURequirements, i: int) -> bool {
    &&& 0 <= i < gpus.len()
    &&& fits(gpus[i], requirements)
    &&& forall|j: int| 0 <= j < i ==> !fits(#[trigger] gpus[j], requirements)
}

/// The broker's registry as a mathematical value: the identifiers of the
/// nodes in the order of their first registration, each once, and the GPU
/// of each.
pub struct RegistryView {
    pub ids: Seq<Seq<char>>,
    pub gpus: Seq<GpuView>,
}

/// The place of the node `node_id` in the registry, or `None` where it is
/// not registered.
pub open spec fn place_of(registry: RegistryView, node_id: Seq<char>) -> Option<int> {
    if registry.ids.contains(node_id) {
        Some(registry.ids.index_of(node_id))
    } else {
        None
    }
}

/// The registry after the node `node_id` has advertised `gpu`: a node that
/// was registered keeps its place, a new one comes last.
pub open spec fn registered(
    registry: RegistryView,
    node_id: Seq<char>,
    gpu: GpuView,
) -> RegistryView {
    match place_of(registry, node_id) {
        Some(i) => RegistryView { ids: registry.ids, gpus: registry.gpus.update(i, gpu) },
        None => RegistryView { ids: registry.ids.push(node_id), gpus: registry.gpus.push(gpu) },
    }
}

/// The place of the first GPU that fits, or `None` where none fits.
pub open spec fn first_fit(gpus: Seq<GpuView>, requirements: GPURequirements) -> Option<int> {
    if exists|i: int| is_first_fit(gpus, requirements, i) {
        Some(choose|i: int| is_first_fit(gpus, requirements, i))
    } else {
        None
    }
}

/// The registry after the GPU at place `i` was reserved. No task is named.
pub open spec fn reserved_at(registry: RegistryView, i: int) -> RegistryView {
    RegistryView {
        ids: registry.ids,
        gpus: registry.gpus.update(i, GpuView { available: false, ..registry.gpus[i] }),
    }
}

/// The registry after the GPU at place `i` was freed.
pub open spec fn freed_at(registry: RegistryView, i: int) -> RegistryView {
    RegistryView {
        ids: registry.ids,
        gpus: registry.gpus.update(
            i,
            GpuView { available: true, current_task: None, ..registry.gpus[i] },
        ),
    }
}

/// Whether the GPU of `node_id` can be freed: an unknown node gives
/// `NotFound`, a GPU that is free gives `AlreadyAvailable`.
pub open spec fn release_verdict(
    registry: RegistryView,
    node_id: Seq<char>,
) -> Result<(), ResourceError> {
    match place_of(registry, node_id) {
        None => Err(ResourceError::NotFound),
        Some(i) => if registry.gpus[i].available {
            Err(ResourceError::AlreadyAvailable)
        } else {
            Ok(())
        },
    }
}

/// At most one GPU is the first that fits.
pub proof fn lemma_first_fit_unique(
    gpus: Seq<GpuView>,
    requirements: GPURequirements,
    i: int,
    j: int,
)
    requires
        is_first_fit(gpus, requirements, i),
        is_first_fit(gpus, requirements, j),
    ensures
        i == j,
        first_fit(gpus, requirements) == Some(i),
{
    if i < j {
        assert(!fits(gpus[i], requirements));
    } else if j < i {
        assert(!fits(gpus[j], requirements));
    }
    let chosen = choose|k: int| is_first_fit(gpus, requirements, k);
    if chosen < i {
        assert(!fits(gpus[chosen], requirements));
    } else if i < chosen {
        assert(!fits(gpus[i], requirements));
    }
}

/// A GPU that was reserved and freed again is free and holds no task, and
/// the rest of the registry is as it was.
pub proof fn lemma_freed_after_reserved(registry: RegistryView, i: int)
    requires
        0 <= i < registry.gpus.len(),
    ensures
        freed_at(reserved_at(registry, i), i) == freed_at(registry, i),
        freed_at(registry, i).gpus[i].available,
        freed_at(registry, i).gpus[i].current_task is None,
{
    assert(freed_at(reserved_at(registry, i), i).gpus =~= freed_at(registry, i).gpus);
}

/// Reserving and freeing keep every GPU consistent: a free GPU holds no
/// task.
pub proof fn lemma_broker_keeps_consistency(registry: RegistryView, i: int)
    requires
        0 <= i < registry.gpus.len(),
        forall|k: int| 0 <= k < registry.gpus.len() ==> is_consistent(#[trigger] registry.gpus[k]),
    ensures
        forall|k: int|
            0 <= k < registry.gpus.len() ==> is_consistent(
                #[trigger] reserved_at(registry, i).gpus[k],
            ),
        forall|k: int|
            0 <= k < registry.gpus.len() ==> is_consistent(#[trigger] freed_at(registry, i).gpus[k]),
{
    assert forall|k: int| 0 <= k < registry.gpus.len() implies is_consistent(
        #[trigger] reserved_at(registry, i).gpus[k],
    ) by {
        assert(is_consistent(registry.gpus[k]));
    }
    assert forall|k: int| 0 <= k < registry.gpus.len() implies is_consistent(
        #[trigger] freed_at(registry, i).gpus[k],
    ) by {
        assert(is_consistent(registry.gpus[k]));
    }
}

/// The resource broker.
#[derive(Debug)]
pub struct ResourceManager {
    gpu_resources: StringMap<GPUResourceContract>,
}

impl View for ResourceManager {
    type V = RegistryView;

    closed spec fn view(&self) -> RegistryView {
        RegistryView {
            ids: self.gpu_resources.keys(),
            gpus: gpus_view(self.gpu_resources.values()),
        }
    }
}

impl ResourceManager {
    /// A broker without GPUs.
    pub fn new() -> (manager: Self)
        ensures
            manager@.ids.len() == 0,
            manager@.gpus.len() == 0,
    {
        ResourceManager { gpu_resources: StringMap::new() }
    }

    /// The number of registered GPUs. Every node has one GPU and occurs
    /// once.
    pub fn len(&self) -> (count: usize)
        ensures
            count == self@.ids.len(),
            self@.gpus.len() == self@.ids.len(),
            self@.ids.no_duplicates(),
    {
        self.gpu_resources.len()
    }

    /// A copy of the advertisement of the node `node_id`.
    pub fn gpu_of(&self, node_id: &str) -> (gpu: Option<GPUResourceContract>)
        ensures
            (match gpu {
                Some(found) => self@.ids.contains(node_id@) && found@
                    == self@.gpus[self@.ids.index_of(node_id@)],
                None => !self@.ids.contains(node_id@),
            }),
    {
        match self.gpu_resources.position(node_id) {
            Some(i) => Some(self.gpu_resources.value_at(i).clone()),
            None => None,
        }
    }

    /// Records the GPU that the node `node_id` advertises. A node that is
    /// registered already keeps its place, and its advertisement is
    /// replaced.
    pub fn register_gpu(&mut self, node_id: String, contract: GPUResourceContract)
        ensures
            final(self)@ == registered(old(self)@, node_id@, contract@),
    {
        let ghost before = self.gpu_resources.values();
        let count = self.gpu_resources.len();
        self.gpu_resources.insert(node_id, contract);
        proof {
            if old(self)@.ids.contains(node_id@) {
                let i = old(self)@.ids.index_of(node_id@);
                assert(0 <= i < old(self)@.ids.len() && old(self)@.ids[i] == node_id@);
                assert(gpus_view(self.gpu_resources.values()) =~= gpus_view(before).update(
                    old(self)@.ids.index_of(node_id@),
                    contract@,
                ));
            } else {
                assert(gpus_view(self.gpu_resources.values()) =~= gpus_view(before).push(
                    contract@,
                ));
            }
        }
    }

    /// Reserves a GPU for a task with `task_requirements`: the first in the
    /// order of registration that is free and has the capacity. Returns the
    /// identifier of its node.
    pub fn allocate_gpu(&mut self, task_requirements: &GPURequirements) -> (result: Result<
        String,
        ResourceError,
    >)
        ensures
            (match first_fit(old(self)@.gpus, *task_requirements) {
                Some(i) => {
                    &&& result matches Ok(node_id)
                    &&& node_id@ == old(self)@.ids[i]
                    &&& final(self)@ == reserved_at(old(self)@, i)
                },
                None => {
                    &&& result matches Err(error)
                    &&& error == ResourceError::NoSuitableResource
                    &&& final(self)@ == old(self)@
                },
            }),
    {
        let count = self.gpu_resources.len();
        let mut i: usize = 0;
        while i < count
            invariant
                i <= count,
                count == self@.gpus.len(),
                count == self.gpu_resources.keys().len(),
                self == old(self),
                forall|j: int| 0 <= j < i ==> !fits(#[trigger] self@.gpus[j], *task_requirements),
            decreases count - i,
        {
            let gpu = self.gpu_resources.value_at(i);
            if gpu.available && gpu.meets_requirements(task_requirements) {
                let node_id = self.gpu_resources.key_at(i).clone();
                let ghost before = self.gpu_resources.values();
                proof {
                    lemma_first_fit_unique(
                        old(self)@.gpus,
                        *task_requirements,
                        i as int,
                        i as int,
                    );
                }
                let slot = self.gpu_resources.value_at_mut(i);
                slot.available = false;
                assert(gpus_view(self.gpu_resources.values()) =~= gpus_view(before).update(
                    i as int,
                    GpuView { available: false, ..gpus_view(before)[i as int] },
                ));
                return Ok(node_id);
            }
            i = i + 1;
        }
        assert forall|k: int| !is_first_fit(self@.gpus, *task_requirements, k) by {
            if 0 <= k < self@.gpus.len() {
                assert(!fits(self@.gpus[k], *task_requirements));
            }
        }
        Err(ResourceError::NoSuitableResource)
    }

    /// Frees the GPU of the node `node_id`, which must be registered and
    /// reserved.
    pub fn release_gpu(&mut self, node_id: &str) -> (result: Result<(), ResourceError>)
        ensures
            result == release_verdict(old(self)@, node_id@),
            final(self)@ == (if result is Ok {
                freed_at(old(self)@, place_of(old(self)@, node_id@)->0)
            } else {
                old(self)@
            }),
    {
        match self.gpu_resources.position(node_id) {
            Some(i) => {
                let ghost before = self.gpu_resources.values();
                if self.gpu_resources.value_at(i).available {
                    Err(ResourceError::AlreadyAvailable)
                } else {
                    let slot = self.gpu_resources.value_at_mut(i);
                    slot.available = true;
                    slot.current_task = None;
                    assert(gpus_view(self.gpu_resources.values()) =~= gpus_view(before).update(
                        i as int,
                        GpuView {
                            available: true,
                            current_task: None,
                            ..gpus_view(before)[i as int]
                        },
                    ));
                    Ok(())
                }
            },
            None => Err(ResourceError::NotFound),
        }
    }
}

} // verus!
