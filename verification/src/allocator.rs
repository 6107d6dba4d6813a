//! The memory allocator: which memory type serves a request.

use vstd::prelude::*;
use crate::device::DeviceOp;
use crate::error::FatalError;

verus! {

/// One memory type of the device.
#[derive(Clone, Copy, PartialEq, Eq, Structural, Debug)]
pub struct MemoryType {
    pub property_flags: u32,
    pub heap_index: u32,
}

/// What a resource requires of the memory that backs it.
#[derive(Clone, Copy, PartialEq, Eq, Structural, Debug)]
pub struct MemoryRequirements {
    pub size: u64,
    pub alignment: u64,
    /// Bit `i` is set where memory type `i` may back the resource.
    pub memory_type_bits: u32,
}

/// One block of device memory, for one resource.
#[derive(Clone, Copy, PartialEq, Eq, Structural, Debug)]
pub struct Allocation {
    pub size: u64,
    pub memory_type_index: u32,
    pub property_flags: u32,
}

/// Whether memory type `index` may back a resource with `type_bits` and has
/// every property in `desired`.
pub open spec fn suits(types: Seq<MemoryType>, index: int, type_bits: u32, desired: u32) -> bool {
    &&& 0 <= index < types.len()
    &&& index < 32
    &&& (type_bits >> (index as u32)) & 1 == 1
    &&& types[index].property_flags & desired == desired
}

/// Whether `index` is the first memory type that suits.
pub open spec fn first_suitable(
    types: Seq<MemoryType>,
    index: int,
    type_bits: u32,
    desired: u32,
) -> bool {
    &&& suits(types, index, type_bits, desired)
    &&& forall|j: int| 0 <= j < index ==> !suits(types, j, type_bits, desired)
}

/// The properties that `op` asks of the memory it allocates, if it
/// allocates memory.
pub open spec fn requested_properties(op: DeviceOp) -> Option<u32> {
    match op {
        DeviceOp::AllocateBufferMemory { properties, .. } => Some(properties),
        DeviceOp::AllocateImageMemory { properties, .. } => Some(properties),
        _ => None,
    }
}

/// Chooses memory types from the table of one device. It keeps no account
/// of what it has chosen: each request stands alone.
pub struct MemoryAllocator {
    memory_types: Vec<MemoryType>,
}

impl View for MemoryAllocator {
    type V = Seq<MemoryType>;

    closed spec fn view(&self) -> Seq<MemoryType> {
        self.memory_types@
    }
}

impl MemoryAllocator {
    /// An allocator over the memory types of a device, in the device's
    /// order.
    pub fn new(memory_types: Vec<MemoryType>) -> (allocator: MemoryAllocator)
        ensures
            allocator@ == memory_types@,
    {
        MemoryAllocator { memory_types }
    }

    /// The memory types of the device.
    pub fn memory_types(&self) -> (types: &Vec<MemoryType>)
        ensures
            types@ == self@,
    {
        &self.memory_types
    }

    /// Whether any memory type suits the request.
    pub open spec fn can_satisfy(&self, type_bits: u32, desired: u32) -> bool {
        exists|i: int| suits(self@, i, type_bits, desired)
    }

    /// The first memory type whose bit is set in `type_bits` and whose
    /// properties include all of `desired`; `None` where there is none.
    pub fn find_memory_type(&self, type_bits: u32, desired: u32) -> (found: Option<u32>)
        ensures
            found is Some <==> self.can_satisfy(type_bits, desired),
            found matches Some(index) ==> first_suitable(self@, index as int, type_bits, desired),
    {
        let mut i: u32 = 0;
        while i < 32 && (i as usize) < self.memory_types.len()
            invariant
                i <= 32,
                i <= self@.len(),
                forall|j: int| 0 <= j < i ==> !suits(self@, j, type_bits, desired),
            decreases 32 - i,
        {
            let flags: u32 = self.memory_types[i as usize].property_flags;
            if (type_bits >> i) & 1 == 1 && flags & desired == desired {
                assert(suits(self@, i as int, type_bits, desired));
                return Some(i);
            }
            i += 1;
        }
        None
    }

    /// The allocation to make for a recorded allocation, once the device
    /// has said what the resource requires.
    ///
    /// For an operation that allocates memory this is the allocation of
    /// [`MemoryAllocator::allocate`] for the properties that the operation
    /// asks for, and a fatal error where no memory type suits. For any other
    /// operation there is nothing to allocate.
    pub fn allocation_for(&self, op: DeviceOp, requirements: MemoryRequirements) -> (allocation:
        Option<Result<Allocation, FatalError>>)
        ensures
            allocation is Some <==> requested_properties(op) is Some,
            requested_properties(op) matches Some(desired) ==> match allocation {
                Some(Ok(made)) => {
                    &&& made.size == requirements.size
                    &&& first_suitable(
                        self@,
                        made.memory_type_index as int,
                        requirements.memory_type_bits,
                        desired,
                    )
                    &&& made.property_flags == self@[made.memory_type_index as int].property_flags
                },
                Some(Err(error)) => {
                    &&& error == FatalError::MemoryTypeExhausted
                    &&& !self.can_satisfy(requirements.memory_type_bits, desired)
                },
                None => false,
            },
    {
        let desired: u32 = match op {
            DeviceOp::AllocateBufferMemory { properties, .. } => properties,
            DeviceOp::AllocateImageMemory { properties, .. } => properties,
            _ => {
                return None;
            },
        };
        match self.find_memory_type(requirements.memory_type_bits, desired) {
            Some(_) => Some(Ok(self.allocate(requirements, desired))),
            None => Some(Err(FatalError::MemoryTypeExhausted)),
        }
    }

    /// The allocation that satisfies `requirements` with the properties in
    /// `desired`: exactly the required size, from the first memory type that
    /// suits.
    pub fn allocate(&self, requirements: MemoryRequirements, desired: u32) -> (allocation:
        Allocation)
        requires
            self.can_satisfy(requirements.memory_type_bits, desired),
        ensures
            allocation.size == requirements.size,
            first_suitable(
                self@,
                allocation.memory_type_index as int,
                requirements.memory_type_bits,
                desired,
            ),
            allocation.property_flags == self@[allocation.memory_type_index as int].property_flags,
    {
        match self.find_memory_type(requirements.memory_type_bits, desired) {
            Some(index) => Allocation {
                size: requirements.size,
                memory_type_index: index,
                property_flags: self.memory_types[index as usize].property_flags,
            },
            None => {
                assert(false);
                Allocation { size: requirements.size, memory_type_index: 0, property_flags: 0 }
            },
        }
    }
}

/// The memory type chosen for a request is the only one that is first to
/// suit it: two answers to one request name the same type.
pub proof fn lemma_first_suitable_unique(
    types: Seq<MemoryType>,
    a: int,
    b: int,
    type_bits: u32,
    desired: u32,
)
    requires
        first_suitable(types, a, type_bits, desired),
        first_suitable(types, b, type_bits, desired),
    ensures
        a == b,
{
}

/// The memory type chosen has every desired property: anything set in
/// `desired` is set in its flags.
pub proof fn lemma_chosen_type_is_superset(
    types: Seq<MemoryType>,
    index: int,
    type_bits: u32,
    desired: u32,
    property: u32,
)
    requires
        suits(types, index, type_bits, desired),
        desired & property == property,
    ensures
        types[index].property_flags & property == property,
{
    let flags = types[index].property_flags;
    assert(flags & desired == desired && desired & property == property ==> flags & property
        == property) by (bit_vector);
}

} // verus!
