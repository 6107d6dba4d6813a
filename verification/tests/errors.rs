use vent::allocator::{Allocation, MemoryAllocator, MemoryRequirements, MemoryType};
use vent::device::DeviceOp;
use vent::error::{
    creation_outcome, submission_outcome, FatalError, NATIVE_DEVICE_LOST, NATIVE_SUCCESS,
    NATIVE_TIMEOUT,
};

#[test]
fn only_success_lets_a_creation_go_on() {
    assert_eq!(creation_outcome(0), Ok(()));
    assert_eq!(creation_outcome(-1), Err(FatalError::ResourceCreation));
    assert_eq!(creation_outcome(-2), Err(FatalError::ResourceCreation));
    assert_eq!(creation_outcome(5), Err(FatalError::ResourceCreation));
}

#[test]
fn a_wait_that_runs_out_of_time_is_fatal() {
    assert_eq!(submission_outcome(NATIVE_SUCCESS), Ok(()));
    assert_eq!(submission_outcome(NATIVE_TIMEOUT), Err(FatalError::Submission));
    assert_eq!(submission_outcome(NATIVE_DEVICE_LOST), Err(FatalError::Submission));
    assert_eq!(submission_outcome(1), Err(FatalError::Submission));
}

#[test]
fn a_recorded_allocation_takes_the_first_type_that_suits() {
    let allocator = MemoryAllocator::new(vec![
        MemoryType { property_flags: 0x1, heap_index: 0 },
        MemoryType { property_flags: 0x6, heap_index: 1 },
    ]);
    let requirements = MemoryRequirements { size: 100, alignment: 16, memory_type_bits: 0b11 };
    let for_buffer = DeviceOp::AllocateBufferMemory { memory: 2, buffer: 1, properties: 0x6 };
    let for_image = DeviceOp::AllocateImageMemory { memory: 4, image: 3, properties: 0x1 };
    assert_eq!(
        allocator.allocation_for(for_buffer, requirements),
        Some(Ok(Allocation { size: 100, memory_type_index: 1, property_flags: 0x6 }))
    );
    assert_eq!(
        allocator.allocation_for(for_image, requirements),
        Some(Ok(Allocation { size: 100, memory_type_index: 0, property_flags: 0x1 }))
    );
}

#[test]
fn a_recorded_allocation_that_nothing_suits_is_fatal() {
    let allocator =
        MemoryAllocator::new(vec![MemoryType { property_flags: 0x1, heap_index: 0 }]);
    let requirements = MemoryRequirements { size: 100, alignment: 16, memory_type_bits: 0b1 };
    let op = DeviceOp::AllocateBufferMemory { memory: 2, buffer: 1, properties: 0x6 };
    assert_eq!(
        allocator.allocation_for(op, requirements),
        Some(Err(FatalError::MemoryTypeExhausted))
    );
}

#[test]
fn other_operations_allocate_nothing() {
    let allocator =
        MemoryAllocator::new(vec![MemoryType { property_flags: 0x1, heap_index: 0 }]);
    let requirements = MemoryRequirements { size: 100, alignment: 16, memory_type_bits: 0b1 };
    assert_eq!(allocator.allocation_for(DeviceOp::FreeMemory { memory: 2 }, requirements), None);
    assert_eq!(
        allocator.allocation_for(DeviceOp::CreateFence { fence: 2 }, requirements),
        None
    );
}
