use vent::device::{Device, DeviceOp};
use vent::{begin_single_time_command, end_single_time_command};

#[test]
fn begin_allocates_then_begins() {
    let mut device = Device::new();
    let command_buffer = begin_single_time_command(&mut device, 5);
    assert_eq!(command_buffer, 1);
    assert_eq!(
        device.ops(),
        &vec![
            DeviceOp::AllocateCommandBuffer { command_buffer: 1, pool: 5 },
            DeviceOp::BeginCommandBuffer { command_buffer: 1 },
        ]
    );
}

#[test]
fn end_submits_under_a_fence_and_releases_both() {
    let mut device = Device::new();
    let command_buffer = begin_single_time_command(&mut device, 5);
    end_single_time_command(&mut device, 5, 6, command_buffer);
    assert_eq!(
        &device.ops()[2..],
        &[
            DeviceOp::EndCommandBuffer { command_buffer: 1 },
            DeviceOp::CreateFence { fence: 2 },
            DeviceOp::QueueSubmit { queue: 6, command_buffer: 1, fence: 2 },
            DeviceOp::WaitForFence { fence: 2, timeout: 100_000_000_000 },
            DeviceOp::DestroyFence { fence: 2 },
            DeviceOp::FreeCommandBuffer { pool: 5, command_buffer: 1 },
        ]
    );
    assert_eq!(device.next_handle(), 3);
}

/// The command buffers of `pool` that are allocated and not freed.
fn in_flight(ops: &[DeviceOp], pool: u64) -> Vec<u64> {
    let mut alive = Vec::new();
    for op in ops {
        match *op {
            DeviceOp::AllocateCommandBuffer { command_buffer, pool: from } if from == pool => {
                alive.push(command_buffer)
            }
            DeviceOp::FreeCommandBuffer { pool: to, command_buffer } if to == pool => {
                alive.retain(|&other| other != command_buffer)
            }
            _ => {}
        }
    }
    alive
}

#[test]
fn a_finished_sequence_leaves_the_pool_empty() {
    let mut device = Device::new();
    let command_buffer = begin_single_time_command(&mut device, 5);
    end_single_time_command(&mut device, 5, 6, command_buffer);
    assert_eq!(in_flight(device.ops(), 5), Vec::<u64>::new());
}

#[test]
fn a_sequence_that_stops_at_its_wait_does_not_disturb_the_next_begin() {
    let mut device = Device::new();
    let first = begin_single_time_command(&mut device, 5);
    end_single_time_command(&mut device, 5, 6, first);
    let wait = device
        .ops()
        .iter()
        .position(|op| matches!(op, DeviceOp::WaitForFence { .. }))
        .unwrap();
    let ran: Vec<DeviceOp> = device.ops()[..=wait].to_vec();
    assert_eq!(in_flight(&ran, 5), vec![first]);

    let second = begin_single_time_command(&mut device, 5);
    assert_ne!(second, first);
    for op in &ran {
        match *op {
            DeviceOp::AllocateCommandBuffer { command_buffer, .. } => {
                assert_ne!(command_buffer, second)
            }
            DeviceOp::CreateFence { fence } => assert_ne!(fence, second),
            _ => {}
        }
    }
    end_single_time_command(&mut device, 5, 6, second);
    assert_eq!(in_flight(device.ops(), 5), Vec::<u64>::new());
}

#[test]
fn sequences_on_two_pools_do_not_mix() {
    let mut device = Device::new();
    let first = begin_single_time_command(&mut device, 5);
    let second = begin_single_time_command(&mut device, 9);
    assert_eq!(in_flight(device.ops(), 5), vec![first]);
    assert_eq!(in_flight(device.ops(), 9), vec![second]);
    end_single_time_command(&mut device, 9, 6, second);
    assert_eq!(in_flight(device.ops(), 5), vec![first]);
    assert_eq!(in_flight(device.ops(), 9), Vec::<u64>::new());
}
