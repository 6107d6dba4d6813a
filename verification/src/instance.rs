//! The context that resources are created in.

use vstd::prelude::*;
use crate::allocator::{MemoryAllocator, MemoryType};
use crate::cache::VulkanCache;
use crate::device::Device;

verus! {

/// One device with what belongs to it: the record of its operations, the
/// allocator over its memory types, its sampler cache, and the command pool
/// and queue that transfers use.
pub struct VulkanInstance {
    pub device: Device,
    pub memory_allocator: MemoryAllocator,
    pub vulkan_cache: VulkanCache,
    pub global_command_pool: u64,
    pub graphics_queue: u64,
}

impl VulkanInstance {
    /// The record and the cache are valid.
    pub open spec fn wf(&self) -> bool {
        &&& self.device.wf()
        &&& self.vulkan_cache.wf()
    }

    /// Whether `self` differs from `before` in its device record and its
    /// sampler cache at most.
    pub open spec fn same_context(&self, before: &VulkanInstance) -> bool {
        &&& self.memory_allocator == before.memory_allocator
        &&& self.global_command_pool == before.global_command_pool
        &&& self.graphics_queue == before.graphics_queue
    }

    /// A context with an empty record and an empty cache.
    pub fn new(memory_types: Vec<MemoryType>, global_command_pool: u64, graphics_queue: u64) -> (
        instance: VulkanInstance)
        ensures
            instance.wf(),
            instance.device@.ops == Seq::<crate::device::DeviceOp>::empty(),
            instance.device@.payload == Seq::<u8>::empty(),
            instance.device@.next_handle == 1,
            instance.vulkan_cache@ == Seq::<crate::device::SamplerInfo>::empty(),
            instance.memory_allocator@ == memory_types@,
            instance.global_command_pool == global_command_pool,
            instance.graphics_queue == graphics_queue,
    {
        VulkanInstance {
            device: Device::new(),
            memory_allocator: MemoryAllocator::new(memory_types),
            vulkan_cache: VulkanCache::new(),
            global_command_pool,
            graphics_queue,
        }
    }
}

} // verus!
