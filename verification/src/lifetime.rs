//! The lifetimes of native objects, followed through recorded operations.
//!
//! Nothing is released on its own: an object lives from the operation that
//! creates it to the operation that destroys or frees it. This module says
//! which objects a record leaves alive.

use vstd::prelude::*;
use crate::buffer::{create_buffer_ops, destroy_buffer_ops, image_memory_ops, upload_ops};
use crate::cache::sampler_ops;
use crate::command::{begin_ops, end_ops};
use crate::device::{
    BUFFER_USAGE_TRANSFER_SRC, DeviceOp, DeviceView, Extent2D, ImageAspect, SamplerInfo,
    introduced, nth_handle, op_within,
};
use crate::image::{
    MIPPED_IMAGE_USAGE, SAMPLED_IMAGE_USAGE, copy_commands, copy_ops, depth_image_ops,
    destroy_image_ops, is_command, lemma_mipmaps_are_commands, lemma_upload_is_commands,
    mipmap_commands, mipmap_ops, sampled_image_ops,
};
use crate::pixels::byte_count;

verus! {

/// The handle of the object that `op` destroys or frees, if it releases one
/// that the device numbers.
pub open spec fn released(op: DeviceOp) -> Option<u64> {
    match op {
        DeviceOp::DestroyBuffer { buffer } => Some(buffer),
        DeviceOp::FreeMemory { memory } => Some(memory),
        DeviceOp::DestroyImage { image } => Some(image),
        DeviceOp::DestroyImageView { view } => Some(view),
        DeviceOp::DestroyFence { fence } => Some(fence),
        DeviceOp::FreeCommandBuffer { command_buffer, .. } => Some(command_buffer),
        _ => None,
    }
}

/// Whether `op` neither creates nor releases an object that the device
/// numbers.
pub open spec fn keeps_objects(op: DeviceOp) -> bool {
    introduced(op) is None && released(op) is None
}

/// The objects alive once `op` has run, where `alive` were alive before.
pub open spec fn alive_step(op: DeviceOp, alive: Set<u64>) -> Set<u64> {
    match introduced(op) {
        Some(handle) => alive.insert(handle),
        None => match released(op) {
            Some(handle) => alive.remove(handle),
            None => alive,
        },
    }
}

/// The objects alive once `ops` have run in order, where `start` were alive
/// before.
pub open spec fn alive_after(ops: Seq<DeviceOp>, start: Set<u64>) -> Set<u64>
    decreases ops.len(),
{
    if ops.len() == 0 {
        start
    } else {
        alive_step(ops.last(), alive_after(ops.drop_last(), start))
    }
}

/// The objects that a record leaves alive: those it created and did not
/// release.
pub open spec fn alive(ops: Seq<DeviceOp>) -> Set<u64> {
    alive_after(ops, Set::empty())
}

/// Whether none of the `count` handles from `first` on is in `set`.
pub open spec fn unused(set: Set<u64>, first: u64, count: nat) -> bool {
    forall|k: nat| k < count ==> !set.contains(#[trigger] nth_handle(first, k))
}

/// Running one operation after others is one more step from where they
/// ended.
pub proof fn lemma_alive_push(ops: Seq<DeviceOp>, op: DeviceOp, start: Set<u64>)
    ensures
        alive_after(ops.push(op), start) == alive_step(op, alive_after(ops, start)),
{
    assert(ops.push(op).drop_last() =~= ops);
    assert(ops.push(op).last() == op);
}

/// Running two records one after the other is running the second from
/// where the first ended.
pub proof fn lemma_alive_concat(first: Seq<DeviceOp>, second: Seq<DeviceOp>, start: Set<u64>)
    ensures
        alive_after(first + second, start) == alive_after(second, alive_after(first, start)),
    decreases second.len(),
{
    if second.len() == 0 {
        assert(first + second =~= first);
    } else {
        lemma_alive_concat(first, second.drop_last(), start);
        assert(first + second =~= (first + second.drop_last()).push(second.last()));
        lemma_alive_push(first + second.drop_last(), second.last(), start);
    }
}

/// Operations that create nothing and release nothing leave alive what was
/// alive.
pub proof fn lemma_alive_kept(ops: Seq<DeviceOp>, start: Set<u64>)
    requires
        forall|i: int| 0 <= i < ops.len() ==> keeps_objects(#[trigger] ops[i]),
    ensures
        alive_after(ops, start) == start,
    decreases ops.len(),
{
    if ops.len() > 0 {
        assert forall|i: int| 0 <= i < ops.drop_last().len() implies keeps_objects(
            #[trigger] ops.drop_last()[i],
        ) by {
            assert(ops.drop_last()[i] == ops[i]);
        }
        lemma_alive_kept(ops.drop_last(), start);
        assert(keeps_objects(ops[ops.len() - 1]));
    }
}

/// Every object that a valid record leaves alive was created by it: its
/// handle has been handed out.
pub proof fn lemma_alive_handed_out(record: DeviceView, handle: u64)
    requires
        record.wf(),
        alive(record.ops).contains(handle),
    ensures
        handle < record.next_handle,
    decreases record.ops.len(),
{
    if record.ops.len() > 0 {
        let shorter = DeviceView { ops: record.ops.drop_last(), ..record };
        assert forall|i: int| 0 <= i < shorter.ops.len() implies op_within(
            #[trigger] shorter.ops[i],
            shorter.next_handle,
            shorter.payload.len(),
        ) by {
            assert(shorter.ops[i] == record.ops[i]);
        }
        let last = record.ops[record.ops.len() - 1];
        assert(op_within(last, record.next_handle, record.payload.len()));
        if alive(shorter.ops).contains(handle) {
            lemma_alive_handed_out(shorter, handle);
        }
    }
}

/// The handles that a valid record has still to hand out name nothing
/// alive.
pub proof fn lemma_next_handles_unused(record: DeviceView, count: nat)
    requires
        record.wf(),
        record.room(count as int),
    ensures
        unused(alive(record.ops), record.next_handle, count),
{
    assert forall|k: nat| k < count implies !alive(record.ops).contains(
        #[trigger] nth_handle(record.next_handle, k),
    ) by {
        if alive(record.ops).contains(nth_handle(record.next_handle, k)) {
            lemma_alive_handed_out(record, nth_handle(record.next_handle, k));
        }
    }
}

/// What a record leaves alive, where it follows another: what its new
/// operations leave alive of what the other left alive and of what they
/// create.
pub proof fn lemma_alive_follows(
    before: DeviceView,
    after: DeviceView,
    ops: Seq<DeviceOp>,
    staged: Seq<u8>,
    handles: int,
)
    requires
        after.follows(before, ops, staged, handles),
    ensures
        alive(after.ops) == alive_after(ops, alive(before.ops)),
{
    lemma_alive_concat(before.ops, ops, Set::empty());
}

/// Opening a single-use command buffer brings the command buffer alive.
pub proof fn lemma_begin_allocates(command_buffer: u64, pool: u64, start: Set<u64>)
    ensures
        alive_after(begin_ops(command_buffer, pool), start) == start.insert(command_buffer),
{
    let begin = begin_ops(command_buffer, pool);
    let none = Seq::<DeviceOp>::empty();
    lemma_alive_push(none, begin[0], start);
    lemma_alive_push(none.push(begin[0]), begin[1], start);
    assert(begin =~= none.push(begin[0]).push(begin[1]));
}

/// Closing a single-use command buffer releases the command buffer, and
/// the fence that it creates does not outlive it.
pub proof fn lemma_end_releases(
    pool: u64,
    queue: u64,
    command_buffer: u64,
    fence: u64,
    start: Set<u64>,
)
    requires
        !start.contains(fence),
    ensures
        alive_after(end_ops(pool, queue, command_buffer, fence), start) == start.remove(
            command_buffer,
        ),
{
    let end = end_ops(pool, queue, command_buffer, fence);
    let none = Seq::<DeviceOp>::empty();
    let e0 = none.push(end[0]);
    let e1 = e0.push(end[1]);
    let e2 = e1.push(end[2]);
    let e3 = e2.push(end[3]);
    let e4 = e3.push(end[4]);
    assert(end =~= e4.push(end[5]));
    lemma_alive_push(none, end[0], start);
    lemma_alive_push(e0, end[1], start);
    lemma_alive_push(e1, end[2], start);
    lemma_alive_push(e2, end[3], start);
    lemma_alive_push(e3, end[4], start);
    lemma_alive_push(e4, end[5], start);
    assert(alive_after(e1, start) == start.insert(fence));
    assert(alive_after(e3, start) == start.insert(fence));
    assert(start.insert(fence).remove(fence) =~= start);
}

/// A single-use command buffer leaves nothing behind: once it is closed,
/// the command buffer and its fence are released, and what was alive before
/// is alive after.
pub proof fn lemma_single_use_releases(
    command_buffer: u64,
    fence: u64,
    pool: u64,
    queue: u64,
    commands: Seq<DeviceOp>,
    start: Set<u64>,
)
    requires
        command_buffer != fence,
        !start.contains(command_buffer),
        !start.contains(fence),
        forall|i: int| 0 <= i < commands.len() ==> keeps_objects(#[trigger] commands[i]),
    ensures
        alive_after(
            begin_ops(command_buffer, pool) + commands + end_ops(
                pool,
                queue,
                command_buffer,
                fence,
            ),
            start,
        ) == start,
{
    let begin = begin_ops(command_buffer, pool);
    let end = end_ops(pool, queue, command_buffer, fence);
    let recording = start.insert(command_buffer);
    lemma_begin_allocates(command_buffer, pool, start);
    lemma_alive_kept(commands, recording);
    lemma_alive_concat(begin, commands, start);
    lemma_end_releases(pool, queue, command_buffer, fence, recording);
    assert(recording.remove(command_buffer) =~= start);
    lemma_alive_concat(begin + commands, end, start);
}

/// An upload leaves nothing behind: what was alive before is alive after.
pub proof fn lemma_upload_releases(
    command_buffer: u64,
    fence: u64,
    pool: u64,
    queue: u64,
    image: u64,
    buffer: u64,
    extent: Extent2D,
    levels: u32,
    make_ready: bool,
    start: Set<u64>,
)
    requires
        command_buffer != fence,
        !start.contains(command_buffer),
        !start.contains(fence),
    ensures
        alive_after(
            copy_ops(command_buffer, fence, pool, queue, image, buffer, extent, levels, make_ready),
            start,
        ) == start,
{
    let commands = copy_commands(command_buffer, image, buffer, extent, levels, make_ready);
    lemma_upload_is_commands(command_buffer, image, buffer, extent, levels, make_ready);
    assert forall|i: int| 0 <= i < commands.len() implies keeps_objects(
        #[trigger] commands[i],
    ) by {
        assert(is_command(commands[i]));
    }
    lemma_single_use_releases(command_buffer, fence, pool, queue, commands, start);
}

/// A mip generation leaves nothing behind: what was alive before is alive
/// after.
pub proof fn lemma_mipmaps_release(
    command_buffer: u64,
    fence: u64,
    pool: u64,
    queue: u64,
    image: u64,
    width: u32,
    height: u32,
    levels: u32,
    start: Set<u64>,
)
    requires
        levels >= 1,
        command_buffer != fence,
        !start.contains(command_buffer),
        !start.contains(fence),
    ensures
        alive_after(
            mipmap_ops(command_buffer, fence, pool, queue, image, width, height, levels),
            start,
        ) == start,
{
    let commands = mipmap_commands(command_buffer, image, width, height, levels);
    lemma_mipmaps_are_commands(command_buffer, image, width, height, levels);
    assert forall|i: int| 0 <= i < commands.len() implies keeps_objects(
        #[trigger] commands[i],
    ) by {
        assert(is_command(commands[i]));
    }
    lemma_single_use_releases(command_buffer, fence, pool, queue, commands, start);
}

/// Creating a buffer leaves the buffer and its memory alive; destroying it
/// releases both.
pub proof fn lemma_buffer_lifetime(
    buffer: u64,
    memory: u64,
    size: u64,
    usage: u32,
    start: Set<u64>,
)
    ensures
        alive_after(create_buffer_ops(buffer, memory, size, usage), start) == start.insert(
            buffer,
        ).insert(memory),
        alive_after(destroy_buffer_ops(buffer, memory), start) == start.remove(buffer).remove(
            memory,
        ),
{
    let none = Seq::<DeviceOp>::empty();
    let create = create_buffer_ops(buffer, memory, size, usage);
    lemma_alive_push(none, create[0], start);
    lemma_alive_push(none.push(create[0]), create[1], start);
    assert(create =~= none.push(create[0]).push(create[1]));
    let destroy = destroy_buffer_ops(buffer, memory);
    lemma_alive_push(none, destroy[0], start);
    lemma_alive_push(none.push(destroy[0]), destroy[1], start);
    assert(destroy =~= none.push(destroy[0]).push(destroy[1]));
}

/// Allocating for an image leaves the memory alive.
pub proof fn lemma_image_memory_lifetime(memory: u64, image: u64, start: Set<u64>)
    ensures
        alive_after(image_memory_ops(memory, image), start) == start.insert(memory),
{
    let none = Seq::<DeviceOp>::empty();
    let ops = image_memory_ops(memory, image);
    lemma_alive_push(none, ops[0], start);
    lemma_alive_push(none.push(ops[0]), ops[1], start);
    assert(ops =~= none.push(ops[0]).push(ops[1]));
}

/// Destroying an image releases its view, the image and its memory, and
/// nothing else.
pub proof fn lemma_destroy_image_releases(view: u64, image: u64, memory: u64, start: Set<u64>)
    ensures
        alive_after(destroy_image_ops(view, image, memory), start) == start.remove(view).remove(
            image,
        ).remove(memory),
{
    let none = Seq::<DeviceOp>::empty();
    let ops = destroy_image_ops(view, image, memory);
    lemma_alive_push(none, ops[0], start);
    lemma_alive_push(none.push(ops[0]), ops[1], start);
    lemma_alive_push(none.push(ops[0]).push(ops[1]), ops[2], start);
    assert(ops =~= none.push(ops[0]).push(ops[1]).push(ops[2]));
}

/// Creating a depth target leaves the image, its memory and its view
/// alive.
pub proof fn lemma_depth_image_lifetime(
    first: u64,
    format: i32,
    extent: Extent2D,
    start: Set<u64>,
)
    ensures
        alive_after(depth_image_ops(first, format, extent), start) == start.insert(first).insert(
            nth_handle(first, 1),
        ).insert(nth_handle(first, 2)),
{
    let none = Seq::<DeviceOp>::empty();
    let ops = depth_image_ops(first, format, extent);
    let s0 = none.push(ops[0]);
    let s1 = s0.push(ops[1]);
    let s2 = s1.push(ops[2]);
    let s3 = s2.push(ops[3]);
    assert(ops =~= s3);
    lemma_alive_push(none, ops[0], start);
    lemma_alive_push(s0, ops[1], start);
    lemma_alive_push(s1, ops[2], start);
    lemma_alive_push(s2, ops[3], start);
}

/// The number of handles that creating a sampled image takes: two more
/// with a mip chain than without.
pub open spec fn sampled_image_handles(chain: bool) -> nat {
    if chain {
        9
    } else {
        7
    }
}

/// Creating a sampled image leaves alive the image, its memory and its
/// view, and nothing else that was not alive before: the staging buffer,
/// its memory, and the command buffers and fences of the transfers are
/// all released again.
#[verifier::rlimit(40)]
pub proof fn lemma_sampled_image_lifetime(
    first: u64,
    start: u64,
    len: u64,
    pool: u64,
    queue: u64,
    extent: Extent2D,
    format: i32,
    levels: u32,
    chain: bool,
    before: Set<u64>,
)
    requires
        levels >= 1,
        first + sampled_image_handles(chain) <= u64::MAX,
        unused(before, first, sampled_image_handles(chain)),
    ensures
        alive_after(
            sampled_image_ops(first, start, len, pool, queue, extent, format, levels, chain),
            before,
        ) == before.insert(nth_handle(first, 2)).insert(nth_handle(first, 3)).insert(
            nth_handle(
                first,
                if chain {
                    8
                } else {
                    6
                },
            ),
        ),
{
    let buffer = first;
    let buffer_memory = nth_handle(first, 1);
    let image = nth_handle(first, 2);
    let memory = nth_handle(first, 3);
    let view = nth_handle(
        first,
        if chain {
            8
        } else {
            6
        },
    );
    assert(buffer == nth_handle(first, 0));
    let size = byte_count(extent.width, extent.height, 4) as u64;
    let t_create = create_buffer_ops(buffer, buffer_memory, size, BUFFER_USAGE_TRANSFER_SRC);
    let t_fill = upload_ops(buffer_memory, size, start, len) + seq![
        DeviceOp::BindBufferMemory { buffer, memory: buffer_memory, offset: 0 },
    ];
    let t_image = seq![
        DeviceOp::CreateImage {
            image,
            format,
            extent,
            mip_levels: levels,
            usage: if chain {
                MIPPED_IMAGE_USAGE
            } else {
                SAMPLED_IMAGE_USAGE
            },
        },
    ];
    let t_memory = image_memory_ops(memory, image);
    let t_copy = copy_ops(
        nth_handle(first, 4),
        nth_handle(first, 5),
        pool,
        queue,
        image,
        buffer,
        extent,
        levels,
        !chain,
    );
    let t_destroy = destroy_buffer_ops(buffer, buffer_memory);
    let t_chain = if chain {
        mipmap_ops(
            nth_handle(first, 6),
            nth_handle(first, 7),
            pool,
            queue,
            image,
            extent.width,
            extent.height,
            levels,
        )
    } else {
        Seq::empty()
    };
    let t_view = seq![
        DeviceOp::CreateImageView {
            view,
            image,
            format,
            mip_levels: levels,
            aspect: ImageAspect::Color,
        },
    ];
    let none = Seq::<DeviceOp>::empty();
    let a1 = before.insert(buffer).insert(buffer_memory);
    let a2 = a1.insert(image);
    let a3 = a2.insert(memory);
    let a4 = before.insert(image).insert(memory);
    lemma_buffer_lifetime(buffer, buffer_memory, size, BUFFER_USAGE_TRANSFER_SRC, before);
    lemma_alive_kept(t_fill, a1);
    lemma_alive_concat(t_create, t_fill, before);
    lemma_alive_push(none, t_image[0], a1);
    assert(t_image =~= none.push(t_image[0]));
    lemma_alive_concat(t_create + t_fill, t_image, before);
    lemma_image_memory_lifetime(memory, image, a2);
    lemma_alive_concat(t_create + t_fill + t_image, t_memory, before);
    lemma_upload_releases(
        nth_handle(first, 4),
        nth_handle(first, 5),
        pool,
        queue,
        image,
        buffer,
        extent,
        levels,
        !chain,
        a3,
    );
    lemma_alive_concat(t_create + t_fill + t_image + t_memory, t_copy, before);
    lemma_buffer_lifetime(buffer, buffer_memory, size, BUFFER_USAGE_TRANSFER_SRC, a3);
    assert(a3.remove(buffer).remove(buffer_memory) =~= a4);
    lemma_alive_concat(t_create + t_fill + t_image + t_memory + t_copy, t_destroy, before);
    if chain {
        lemma_mipmaps_release(
            nth_handle(first, 6),
            nth_handle(first, 7),
            pool,
            queue,
            image,
            extent.width,
            extent.height,
            levels,
            a4,
        );
    } else {
        lemma_alive_kept(t_chain, a4);
    }
    lemma_alive_concat(
        t_create + t_fill + t_image + t_memory + t_copy + t_destroy,
        t_chain,
        before,
    );
    lemma_alive_push(none, t_view[0], a4);
    assert(t_view =~= none.push(t_view[0]));
    lemma_alive_concat(
        t_create + t_fill + t_image + t_memory + t_copy + t_destroy + t_chain,
        t_view,
        before,
    );
    assert(sampled_image_ops(first, start, len, pool, queue, extent, format, levels, chain)
        =~= t_create + t_fill + t_image + t_memory + t_copy + t_destroy + t_chain + t_view);
}

/// An image that is created and destroyed leaves nothing behind: after
/// both, exactly what was alive before is alive.
pub proof fn lemma_image_round_trip(
    first: u64,
    start: u64,
    len: u64,
    pool: u64,
    queue: u64,
    extent: Extent2D,
    format: i32,
    levels: u32,
    chain: bool,
    before: Set<u64>,
)
    requires
        levels >= 1,
        first + sampled_image_handles(chain) <= u64::MAX,
        unused(before, first, sampled_image_handles(chain)),
    ensures
        alive_after(
            sampled_image_ops(first, start, len, pool, queue, extent, format, levels, chain)
                + destroy_image_ops(
                nth_handle(
                    first,
                    if chain {
                        8
                    } else {
                        6
                    },
                ),
                nth_handle(first, 2),
                nth_handle(first, 3),
            ),
            before,
        ) == before,
{
    let image = nth_handle(first, 2);
    let memory = nth_handle(first, 3);
    let view = nth_handle(
        first,
        if chain {
            8
        } else {
            6
        },
    );
    let created = sampled_image_ops(first, start, len, pool, queue, extent, format, levels, chain);
    let with_image = before.insert(image).insert(memory).insert(view);
    lemma_sampled_image_lifetime(
        first,
        start,
        len,
        pool,
        queue,
        extent,
        format,
        levels,
        chain,
        before,
    );
    lemma_destroy_image_releases(view, image, memory, with_image);
    lemma_alive_concat(created, destroy_image_ops(view, image, memory), before);
    assert(with_image.remove(view).remove(image).remove(memory) =~= before);
}

/// After a valid record, creating a sampled image and asking for its
/// sampler leaves alive what was alive and the image, its memory and its
/// view.
pub proof fn lemma_sampled_image_record_lifetime(
    before: DeviceView,
    cache: Seq<SamplerInfo>,
    info: SamplerInfo,
    len: u64,
    pool: u64,
    queue: u64,
    extent: Extent2D,
    format: i32,
    levels: u32,
    chain: bool,
)
    requires
        before.wf(),
        before.room(sampled_image_handles(chain) as int),
        levels >= 1,
    ensures
        alive(
            before.ops + (sampled_image_ops(
                before.next_handle,
                before.payload.len() as u64,
                len,
                pool,
                queue,
                extent,
                format,
                levels,
                chain,
            ) + sampler_ops(cache, info)),
        ) == alive(before.ops).insert(nth_handle(before.next_handle, 2)).insert(
            nth_handle(before.next_handle, 3),
        ).insert(
            nth_handle(
                before.next_handle,
                if chain {
                    8
                } else {
                    6
                },
            ),
        ),
{
    let first = before.next_handle;
    let image_ops = sampled_image_ops(
        first,
        before.payload.len() as u64,
        len,
        pool,
        queue,
        extent,
        format,
        levels,
        chain,
    );
    let start = alive(before.ops);
    lemma_next_handles_unused(before, sampled_image_handles(chain));
    lemma_sampled_image_lifetime(
        first,
        before.payload.len() as u64,
        len,
        pool,
        queue,
        extent,
        format,
        levels,
        chain,
        start,
    );
    lemma_alive_kept(sampler_ops(cache, info), alive_after(image_ops, start));
    lemma_alive_concat(image_ops, sampler_ops(cache, info), start);
    lemma_alive_concat(before.ops, image_ops + sampler_ops(cache, info), Set::empty());
}

/// A request for a sampler creates and releases no object that the device
/// numbers: samplers are the cache's.
pub proof fn lemma_sampler_request_keeps_objects(
    cache: Seq<SamplerInfo>,
    info: SamplerInfo,
    start: Set<u64>,
)
    ensures
        alive_after(sampler_ops(cache, info), start) == start,
{
    lemma_alive_kept(sampler_ops(cache, info), start);
}

} // verus!
