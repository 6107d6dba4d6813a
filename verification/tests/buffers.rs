use vent::buffer::{BufferState, VulkanBuffer};
use vent::device::{Device, DeviceOp};

/// The bytes that the last write to `memory` copies.
fn last_written(device: &Device, memory: u64) -> Vec<u8> {
    for op in device.ops().iter().rev() {
        if let DeviceOp::WriteMapped { memory: target, start, len } = *op {
            if target == memory {
                let from = start as usize;
                return device.payload()[from..from + len as usize].to_vec();
            }
        }
    }
    panic!("nothing was written to the memory");
}

#[test]
fn new_buffer_is_created_before_its_memory_and_not_bound() {
    let mut device = Device::new();
    let buffer = VulkanBuffer::new(&mut device, 256, 0x80);
    assert_eq!(buffer.buffer, 1);
    assert_eq!(buffer.buffer_memory, 2);
    assert_eq!(buffer.state, BufferState::Unbound);
    assert_eq!(
        device.ops(),
        &vec![
            DeviceOp::CreateBuffer { buffer: 1, size: 256, usage: 0x80 },
            DeviceOp::AllocateBufferMemory { memory: 2, buffer: 1, properties: 0x2 | 0x4 },
        ]
    );
    assert_eq!(device.next_handle(), 3);
}

#[test]
fn two_buffers_get_different_handles() {
    let mut device = Device::new();
    let first = VulkanBuffer::new(&mut device, 16, 0x1);
    let second = VulkanBuffer::new(&mut device, 16, 0x1);
    assert_ne!(first.buffer, second.buffer);
    assert_ne!(first.buffer_memory, second.buffer_memory);
    assert_ne!(first.buffer, second.buffer_memory);
}

#[test]
fn new_init_maps_copies_and_unmaps() {
    let mut device = Device::new();
    let buffer = VulkanBuffer::new_init(&mut device, 8, 0x1, &[1, 2, 3]);
    assert_eq!(
        device.ops(),
        &vec![
            DeviceOp::CreateBuffer { buffer: 1, size: 8, usage: 0x1 },
            DeviceOp::AllocateBufferMemory { memory: 2, buffer: 1, properties: 0x6 },
            DeviceOp::MapMemory { memory: 2, offset: 0, size: 8 },
            DeviceOp::WriteMapped { memory: 2, start: 0, len: 3 },
            DeviceOp::UnmapMemory { memory: 2 },
        ]
    );
    assert_eq!(device.payload(), &vec![1, 2, 3]);
    assert_eq!(buffer.state, BufferState::Unbound);
}

#[test]
fn new_init_reads_back_byte_for_byte() {
    for size in (0usize..=64).chain([255, 256, 257, 4095, 4096, 4097, 8192, 10_000]) {
        let data: Vec<u8> = (0..size).map(|i| (i * 7 + 3) as u8).collect();
        let mut device = Device::new();
        let buffer = VulkanBuffer::new_init(&mut device, size as u64, 0x1, &data);
        assert_eq!(last_written(&device, buffer.buffer_memory), data);
    }
}

#[test]
fn upload_data_writes_only_the_bytes_given() {
    let mut device = Device::new();
    let buffer = VulkanBuffer::new(&mut device, 1024, 0x1);
    buffer.upload_data(&mut device, &[9, 8, 7, 6], 1024);
    assert_eq!(last_written(&device, buffer.buffer_memory), vec![9, 8, 7, 6]);
    assert_eq!(device.ops()[2], DeviceOp::MapMemory { memory: 2, offset: 0, size: 1024 });
}

#[test]
fn upload_data_twice_keeps_both_payloads_apart() {
    let mut device = Device::new();
    let first = VulkanBuffer::new(&mut device, 4, 0x1);
    let second = VulkanBuffer::new(&mut device, 4, 0x1);
    first.upload_data(&mut device, &[1, 1], 4);
    second.upload_data(&mut device, &[2, 2, 2], 4);
    first.upload_data(&mut device, &[3], 4);
    assert_eq!(last_written(&device, first.buffer_memory), vec![3]);
    assert_eq!(last_written(&device, second.buffer_memory), vec![2, 2, 2]);
    assert_eq!(device.payload(), &vec![1, 1, 2, 2, 2, 3]);
    assert_eq!(
        device.ops()[device.ops().len() - 2],
        DeviceOp::WriteMapped { memory: first.buffer_memory, start: 5, len: 1 }
    );
}

#[test]
fn upload_of_nothing_writes_nothing() {
    let mut device = Device::new();
    let buffer = VulkanBuffer::new_init(&mut device, 0, 0x1, &[]);
    assert_eq!(last_written(&device, buffer.buffer_memory), Vec::<u8>::new());
    assert!(device.payload().is_empty());
}

#[test]
fn bind_binds_at_offset_zero() {
    let mut device = Device::new();
    let mut buffer = VulkanBuffer::new(&mut device, 16, 0x1);
    buffer.bind(&mut device);
    assert_eq!(buffer.state, BufferState::Bound);
    assert_eq!(
        device.ops().last(),
        Some(&DeviceOp::BindBufferMemory { buffer: 1, memory: 2, offset: 0 })
    );
}

#[test]
fn destroy_releases_the_buffer_before_its_memory() {
    let mut device = Device::new();
    let mut buffer = VulkanBuffer::new(&mut device, 16, 0x1);
    buffer.destroy(&mut device);
    assert_eq!(buffer.state, BufferState::Destroyed);
    let ops = device.ops();
    assert_eq!(
        &ops[ops.len() - 2..],
        &[DeviceOp::DestroyBuffer { buffer: 1 }, DeviceOp::FreeMemory { memory: 2 }]
    );
}

#[test]
fn new_image_allocates_device_local_memory_and_binds_it() {
    let mut device = Device::new();
    let memory = VulkanBuffer::new_image(&mut device, 77);
    assert_eq!(memory, 1);
    assert_eq!(
        device.ops(),
        &vec![
            DeviceOp::AllocateImageMemory { memory: 1, image: 77, properties: 0x1 },
            DeviceOp::BindImageMemory { image: 77, memory: 1, offset: 0 },
        ]
    );
}

#[test]
fn has_room_counts_the_handles_left() {
    let device = Device::new();
    assert!(device.has_room(0));
    assert!(device.has_room(u64::MAX - 1));
    assert!(!device.has_room(u64::MAX));
}

#[test]
fn clear_forgets_the_record_and_keeps_the_handles() {
    let mut device = Device::new();
    let first = VulkanBuffer::new_init(&mut device, 4, 0x1, &[1, 2, 3, 4]);
    device.clear();
    assert!(device.ops().is_empty());
    assert!(device.payload().is_empty());
    assert_eq!(device.next_handle(), 3);
    let second = VulkanBuffer::new_init(&mut device, 2, 0x1, &[5, 6]);
    assert_ne!(second.buffer, first.buffer);
    assert_ne!(second.buffer_memory, first.buffer_memory);
    assert_eq!(last_written(&device, second.buffer_memory), vec![5, 6]);
}
