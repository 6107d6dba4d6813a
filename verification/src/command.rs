//! Command buffers that are recorded, submitted and waited for once.

use vstd::prelude::*;
use crate::device::{Device, DeviceOp, DeviceView, FENCE_TIMEOUT, introduced, nth_handle};
use crate::lifetime::{
    alive, lemma_alive_follows, lemma_begin_allocates, lemma_end_releases,
    lemma_next_handles_unused,
};

verus! {

/// What opening a single-use command buffer records.
pub open spec fn begin_ops(command_buffer: u64, pool: u64) -> Seq<DeviceOp> {
    seq![
        DeviceOp::AllocateCommandBuffer { command_buffer, pool },
        DeviceOp::BeginCommandBuffer { command_buffer },
    ]
}

/// What closing a single-use command buffer records: the submission is
/// guarded by `fence`, waited for, and both fence and command buffer are
/// released afterwards.
pub open spec fn end_ops(pool: u64, queue: u64, command_buffer: u64, fence: u64) -> Seq<DeviceOp> {
    seq![
        DeviceOp::EndCommandBuffer { command_buffer },
        DeviceOp::CreateFence { fence },
        DeviceOp::QueueSubmit { queue, command_buffer, fence },
        DeviceOp::WaitForFence { fence, timeout: FENCE_TIMEOUT },
        DeviceOp::DestroyFence { fence },
        DeviceOp::FreeCommandBuffer { pool, command_buffer },
    ]
}

/// Whether `op` allocates a command buffer from `pool` or frees one of it.
pub open spec fn moves_pool(op: DeviceOp, pool: u64) -> bool {
    match op {
        DeviceOp::AllocateCommandBuffer { pool: from, .. } => from == pool,
        DeviceOp::FreeCommandBuffer { pool: to, .. } => to == pool,
        _ => false,
    }
}

/// The command buffers of `pool` that are allocated and not freed once
/// `ops` have run.
pub open spec fn in_flight(ops: Seq<DeviceOp>, pool: u64) -> Set<u64>
    decreases ops.len(),
{
    if ops.len() == 0 {
        Set::empty()
    } else {
        let before = in_flight(ops.drop_last(), pool);
        match ops.last() {
            DeviceOp::AllocateCommandBuffer { command_buffer, pool: from } => if from == pool {
                before.insert(command_buffer)
            } else {
                before
            },
            DeviceOp::FreeCommandBuffer { pool: to, command_buffer } => if to == pool {
                before.remove(command_buffer)
            } else {
                before
            },
            _ => before,
        }
    }
}

/// The operations of a single-use command buffer up to and with the wait
/// for its fence: what has run when the wait does not succeed.
pub open spec fn ops_until_wait(queue: u64, command_buffer: u64, fence: u64) -> Seq<DeviceOp> {
    seq![
        DeviceOp::EndCommandBuffer { command_buffer },
        DeviceOp::CreateFence { fence },
        DeviceOp::QueueSubmit { queue, command_buffer, fence },
        DeviceOp::WaitForFence { fence, timeout: FENCE_TIMEOUT },
    ]
}

/// Operations that neither allocate from `pool` nor free to it leave its
/// command buffers as they are.
pub proof fn lemma_in_flight_unmoved(earlier: Seq<DeviceOp>, ops: Seq<DeviceOp>, pool: u64)
    requires
        forall|i: int| 0 <= i < ops.len() ==> !moves_pool(#[trigger] ops[i], pool),
    ensures
        in_flight(earlier + ops, pool) == in_flight(earlier, pool),
    decreases ops.len(),
{
    if ops.len() == 0 {
        assert(earlier + ops =~= earlier);
    } else {
        let shorter = ops.drop_last();
        assert forall|i: int| 0 <= i < shorter.len() implies !moves_pool(
            #[trigger] shorter[i],
            pool,
        ) by {
            assert(shorter[i] == ops[i]);
        }
        lemma_in_flight_unmoved(earlier, shorter, pool);
        assert((earlier + ops).drop_last() =~= earlier + shorter);
        assert((earlier + ops).last() == ops[ops.len() - 1]);
        assert(!moves_pool(ops[ops.len() - 1], pool));
    }
}

/// Every command buffer in flight was created by a recorded operation: in
/// a valid record its handle has been handed out.
pub proof fn lemma_in_flight_handed_out(record: DeviceView, pool: u64, command_buffer: u64)
    requires
        record.wf(),
        in_flight(record.ops, pool).contains(command_buffer),
    ensures
        command_buffer < record.next_handle,
    decreases record.ops.len(),
{
    if record.ops.len() > 0 {
        let shorter = DeviceView { ops: record.ops.drop_last(), ..record };
        assert forall|i: int| 0 <= i < shorter.ops.len() implies crate::device::op_within(
            #[trigger] shorter.ops[i],
            shorter.next_handle,
            shorter.payload.len(),
        ) by {
            assert(shorter.ops[i] == record.ops[i]);
        }
        let last = record.ops[record.ops.len() - 1];
        assert(crate::device::op_within(last, record.next_handle, record.payload.len()));
        if in_flight(shorter.ops, pool).contains(command_buffer) {
            lemma_in_flight_handed_out(shorter, pool, command_buffer);
        }
    }
}

/// A single-use command buffer leaves its pool as it found it, and one
/// whose fence wait does not succeed leaves nothing behind but itself.
///
/// After a valid record, take a single-use command buffer, record commands
/// that do not touch the pool, and close it. Then the pool's command
/// buffers in flight are those from before. If instead the record stops at
/// the wait for the fence, they are those from before and the one command
/// buffer, which was not among them: a command buffer begun afterwards on
/// the same pool is another one.
pub proof fn lemma_single_use_leaves_pool(
    earlier: DeviceView,
    pool: u64,
    queue: u64,
    commands: Seq<DeviceOp>,
)
    requires
        earlier.wf(),
        earlier.room(2),
        forall|i: int| 0 <= i < commands.len() ==> !moves_pool(#[trigger] commands[i], pool),
    ensures
        !in_flight(earlier.ops, pool).contains(earlier.next_handle),
        in_flight(
            earlier.ops + begin_ops(earlier.next_handle, pool) + commands + end_ops(
                pool,
                queue,
                earlier.next_handle,
                nth_handle(earlier.next_handle, 1),
            ),
            pool,
        ) == in_flight(earlier.ops, pool),
        in_flight(
            earlier.ops + begin_ops(earlier.next_handle, pool) + commands + ops_until_wait(
                queue,
                earlier.next_handle,
                nth_handle(earlier.next_handle, 1),
            ),
            pool,
        ) == in_flight(earlier.ops, pool).insert(earlier.next_handle),
        !in_flight(
            earlier.ops + begin_ops(earlier.next_handle, pool) + commands + ops_until_wait(
                queue,
                earlier.next_handle,
                nth_handle(earlier.next_handle, 1),
            ),
            pool,
        ).contains(nth_handle(earlier.next_handle, 2)),
{
    let command_buffer = earlier.next_handle;
    let fence = nth_handle(command_buffer, 1);
    let before = in_flight(earlier.ops, pool);
    if before.contains(command_buffer) {
        lemma_in_flight_handed_out(earlier, pool, command_buffer);
    }
    if before.contains(nth_handle(command_buffer, 2)) {
        lemma_in_flight_handed_out(earlier, pool, nth_handle(command_buffer, 2));
    }
    let begin = begin_ops(command_buffer, pool);
    let allocated = earlier.ops.push(begin[0]);
    let begun = allocated.push(begin[1]);
    assert(earlier.ops + begin =~= begun);
    assert(begun.drop_last() =~= allocated);
    assert(allocated.drop_last() =~= earlier.ops);
    assert(allocated.last() == begin[0]);
    assert(in_flight(allocated, pool) == before.insert(command_buffer));
    assert(begun.last() == begin[1]);
    assert(in_flight(begun, pool) == before.insert(command_buffer));
    lemma_in_flight_unmoved(begun, commands, pool);
    let recorded = begun + commands;
    let cut = ops_until_wait(queue, command_buffer, fence);
    lemma_in_flight_unmoved(recorded, cut, pool);
    let end = end_ops(pool, queue, command_buffer, fence);
    let waited = recorded + cut;
    let released = waited.push(end[4]);
    let freed = released.push(end[5]);
    assert(recorded + end =~= freed);
    assert(freed.drop_last() =~= released);
    assert(released.drop_last() =~= waited);
    assert(released.last() == end[4]);
    assert(in_flight(released, pool) == before.insert(command_buffer));
    assert(freed.last() == end[5]);
    assert(in_flight(freed, pool) == before.insert(command_buffer).remove(command_buffer));
    assert(before.insert(command_buffer).remove(command_buffer) =~= before);
}

/// Allocate a primary command buffer from `command_pool` and begin
/// recording it for one submission.
///
/// The command buffer is new whatever was recorded before: no earlier
/// operation created an object under its handle.
pub fn begin_single_time_command(device: &mut Device, command_pool: u64) -> (command_buffer: u64)
    requires
        old(device).wf(),
        old(device)@.room(1),
    ensures
        command_buffer == old(device)@.next_handle,
        final(device)@.follows(
            old(device)@,
            begin_ops(command_buffer, command_pool),
            Seq::empty(),
            1,
        ),
        forall|i: int|
            0 <= i < old(device)@.ops.len() ==> introduced(#[trigger] old(device)@.ops[i])
                != Some(command_buffer),
        !alive(old(device)@.ops).contains(command_buffer),
        alive(final(device)@.ops) == alive(old(device)@.ops).insert(command_buffer),
{
    let command_buffer: u64 = device.fresh();
    device.record(DeviceOp::AllocateCommandBuffer { command_buffer, pool: command_pool });
    device.record(DeviceOp::BeginCommandBuffer { command_buffer });
    proof {
        let begin = begin_ops(command_buffer, command_pool);
        assert(device@.ops =~= old(device)@.ops + begin);
        assert(device@.payload =~= old(device)@.payload + Seq::<u8>::empty());
        lemma_next_handles_unused(old(device)@, 1);
        assert(command_buffer == nth_handle(command_buffer, 0));
        lemma_alive_follows(old(device)@, device@, begin, Seq::empty(), 1);
        lemma_begin_allocates(command_buffer, command_pool, alive(old(device)@.ops));
    }
    command_buffer
}

/// End recording of `command_buffer`, submit it to `submit_queue` under a
/// new fence, wait for the fence, then release the fence and the command
/// buffer.
pub fn end_single_time_command(
    device: &mut Device,
    command_pool: u64,
    submit_queue: u64,
    command_buffer: u64,
)
    requires
        old(device).wf(),
        old(device)@.room(1),
    ensures
        final(device)@.follows(
            old(device)@,
            end_ops(command_pool, submit_queue, command_buffer, old(device)@.next_handle),
            Seq::empty(),
            1,
        ),
        alive(final(device)@.ops) == alive(old(device)@.ops).remove(command_buffer),
{
    device.record(DeviceOp::EndCommandBuffer { command_buffer });
    let fence: u64 = device.fresh();
    device.record(DeviceOp::CreateFence { fence });
    device.record(DeviceOp::QueueSubmit { queue: submit_queue, command_buffer, fence });
    device.record(DeviceOp::WaitForFence { fence, timeout: FENCE_TIMEOUT });
    device.record(DeviceOp::DestroyFence { fence });
    device.record(DeviceOp::FreeCommandBuffer { pool: command_pool, command_buffer });
    proof {
        let end = end_ops(command_pool, submit_queue, command_buffer, fence);
        assert(device@.ops =~= old(device)@.ops + end);
        assert(device@.payload =~= old(device)@.payload + Seq::<u8>::empty());
        lemma_next_handles_unused(old(device)@, 1);
        assert(fence == nth_handle(fence, 0));
        lemma_alive_follows(old(device)@, device@, end, Seq::empty(), 1);
        lemma_end_releases(
            command_pool,
            submit_queue,
            command_buffer,
            fence,
            alive(old(device)@.ops),
        );
    }
}

} // verus!
