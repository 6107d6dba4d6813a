//! The order of recorded operations: whether each finds alive what it
//! uses.
//!
//! The device checks nothing. An operation that names an object before it
//! is created, or after it is released, is an error that shows up late or
//! never. This module says what each operation needs, and proves that what
//! the library records is in order.

use vstd::prelude::*;
use crate::buffer::{create_buffer_ops, destroy_buffer_ops, image_memory_ops, upload_ops};
use crate::cache::sampler_ops;
use crate::command::{begin_ops, end_ops};
use crate::device::{
    BUFFER_USAGE_TRANSFER_SRC, DeviceOp, Extent2D, ImageAspect, SamplerInfo, nth_handle,
};
use crate::image::{
    MIPPED_IMAGE_USAGE, SAMPLED_IMAGE_USAGE, copy_commands, copy_ops, depth_image_ops,
    destroy_image_ops, is_command, lemma_mipmaps_are_commands, lemma_upload_is_commands,
    mip_chain, mipmap_commands, mipmap_ops, sampled_image_ops,
};
use crate::lifetime::{
    alive_after, keeps_objects, lemma_alive_concat, lemma_alive_kept, lemma_alive_push,
    lemma_begin_allocates, lemma_buffer_lifetime, lemma_image_memory_lifetime,
    lemma_mipmaps_release, lemma_upload_releases, sampled_image_handles, unused,
};
use crate::pixels::byte_count;

verus! {

/// Whether `op` can run where `alive` are the objects alive: what it
/// creates is not alive yet, and what it uses or releases is.
pub open spec fn finds(op: DeviceOp, alive: Set<u64>) -> bool {
    match op {
        DeviceOp::CreateBuffer { buffer, .. } => !alive.contains(buffer),
        DeviceOp::DestroyBuffer { buffer } => alive.contains(buffer),
        DeviceOp::AllocateBufferMemory { memory, buffer, .. } => alive.contains(buffer)
            && !alive.contains(memory),
        DeviceOp::AllocateImageMemory { memory, image, .. } => alive.contains(image)
            && !alive.contains(memory),
        DeviceOp::BindBufferMemory { buffer, memory, .. } => alive.contains(buffer)
            && alive.contains(memory),
        DeviceOp::BindImageMemory { image, memory, .. } => alive.contains(image) && alive.contains(
            memory,
        ),
        DeviceOp::FreeMemory { memory } => alive.contains(memory),
        DeviceOp::MapMemory { memory, .. } => alive.contains(memory),
        DeviceOp::WriteMapped { memory, .. } => alive.contains(memory),
        DeviceOp::UnmapMemory { memory } => alive.contains(memory),
        DeviceOp::CreateImage { image, .. } => !alive.contains(image),
        DeviceOp::DestroyImage { image } => alive.contains(image),
        DeviceOp::CreateImageView { view, image, .. } => alive.contains(image) && !alive.contains(
            view,
        ),
        DeviceOp::DestroyImageView { view } => alive.contains(view),
        DeviceOp::CreateSampler { .. } => true,
        DeviceOp::DestroySampler { .. } => true,
        DeviceOp::AllocateCommandBuffer { command_buffer, .. } => !alive.contains(command_buffer),
        DeviceOp::BeginCommandBuffer { command_buffer } => alive.contains(command_buffer),
        DeviceOp::EndCommandBuffer { command_buffer } => alive.contains(command_buffer),
        DeviceOp::CreateFence { fence } => !alive.contains(fence),
        DeviceOp::QueueSubmit { command_buffer, fence, .. } => alive.contains(command_buffer)
            && alive.contains(fence),
        DeviceOp::WaitForFence { fence, .. } => alive.contains(fence),
        DeviceOp::DestroyFence { fence } => alive.contains(fence),
        DeviceOp::FreeCommandBuffer { command_buffer, .. } => alive.contains(command_buffer),
        DeviceOp::CmdPipelineBarrier { command_buffer, barrier } => alive.contains(command_buffer)
            && alive.contains(barrier.image),
        DeviceOp::CmdCopyBufferToImage { command_buffer, buffer, image, .. } => alive.contains(
            command_buffer,
        ) && alive.contains(buffer) && alive.contains(image),
        DeviceOp::CmdBlitImage { command_buffer, image, .. } => alive.contains(command_buffer)
            && alive.contains(image),
    }
}

/// Whether `ops`, run in order where `start` are alive, each find alive
/// what they use.
pub open spec fn in_order(ops: Seq<DeviceOp>, start: Set<u64>) -> bool
    decreases ops.len(),
{
    ops.len() == 0 || (in_order(ops.drop_last(), start) && finds(
        ops.last(),
        alive_after(ops.drop_last(), start),
    ))
}

/// One more operation is in order after others that are, where it finds
/// what they leave alive.
pub proof fn lemma_in_order_push(ops: Seq<DeviceOp>, op: DeviceOp, start: Set<u64>)
    ensures
        in_order(ops.push(op), start) == (in_order(ops, start) && finds(
            op,
            alive_after(ops, start),
        )),
{
    assert(ops.push(op).drop_last() =~= ops);
    assert(ops.push(op).last() == op);
}

/// Two records one after the other are in order where the first is, and
/// the second is from what the first leaves alive.
pub proof fn lemma_in_order_concat(first: Seq<DeviceOp>, second: Seq<DeviceOp>, start: Set<u64>)
    ensures
        in_order(first + second, start) == (in_order(first, start) && in_order(
            second,
            alive_after(first, start),
        )),
    decreases second.len(),
{
    if second.len() == 0 {
        assert(first + second =~= first);
    } else {
        let shorter = second.drop_last();
        lemma_in_order_concat(first, shorter, start);
        assert(first + second =~= (first + shorter).push(second.last()));
        lemma_in_order_push(first + shorter, second.last(), start);
        lemma_alive_concat(first, shorter, start);
    }
}

/// Operations that create nothing and release nothing are in order where
/// each finds what is alive at the start.
pub proof fn lemma_in_order_kept(ops: Seq<DeviceOp>, start: Set<u64>)
    requires
        forall|i: int| 0 <= i < ops.len() ==> keeps_objects(#[trigger] ops[i]) && finds(
            ops[i],
            start,
        ),
    ensures
        in_order(ops, start),
    decreases ops.len(),
{
    if ops.len() > 0 {
        let shorter = ops.drop_last();
        assert forall|i: int| 0 <= i < shorter.len() implies keeps_objects(
            #[trigger] shorter[i],
        ) && finds(shorter[i], start) by {
            assert(shorter[i] == ops[i]);
        }
        lemma_in_order_kept(shorter, start);
        lemma_alive_kept(shorter, start);
        assert(keeps_objects(ops[ops.len() - 1]) && finds(ops[ops.len() - 1], start));
    }
}

/// A single-use command buffer is in order where its commands find what
/// they use: the command buffer is begun before it is recorded to, ended
/// before it is submitted, waited for before it is freed.
pub proof fn lemma_single_use_in_order(
    command_buffer: u64,
    fence: u64,
    pool: u64,
    queue: u64,
    commands: Seq<DeviceOp>,
    start: Set<u64>,
)
    requires
        command_buffer != fence,
        !start.contains(command_buffer),
        !start.contains(fence),
        forall|i: int|
            0 <= i < commands.len() ==> keeps_objects(#[trigger] commands[i]) && finds(
                commands[i],
                start.insert(command_buffer),
            ),
    ensures
        in_order(
            begin_ops(command_buffer, pool) + commands + end_ops(
                pool,
                queue,
                command_buffer,
                fence,
            ),
            start,
        ),
{
    let begin = begin_ops(command_buffer, pool);
    let end = end_ops(pool, queue, command_buffer, fence);
    let none = Seq::<DeviceOp>::empty();
    let recording = start.insert(command_buffer);
    lemma_in_order_push(none, begin[0], start);
    lemma_alive_push(none, begin[0], start);
    lemma_in_order_push(none.push(begin[0]), begin[1], start);
    assert(begin =~= none.push(begin[0]).push(begin[1]));
    lemma_begin_allocates(command_buffer, pool, start);
    lemma_in_order_kept(commands, recording);
    lemma_alive_kept(commands, recording);
    lemma_in_order_concat(begin, commands, start);
    lemma_alive_concat(begin, commands, start);
    let e0 = none.push(end[0]);
    let e1 = e0.push(end[1]);
    let e2 = e1.push(end[2]);
    let e3 = e2.push(end[3]);
    let e4 = e3.push(end[4]);
    assert(end =~= e4.push(end[5]));
    lemma_in_order_push(none, end[0], recording);
    lemma_in_order_push(e0, end[1], recording);
    lemma_in_order_push(e1, end[2], recording);
    lemma_in_order_push(e2, end[3], recording);
    lemma_in_order_push(e3, end[4], recording);
    lemma_in_order_push(e4, end[5], recording);
    lemma_alive_push(none, end[0], recording);
    lemma_alive_push(e0, end[1], recording);
    lemma_alive_push(e1, end[2], recording);
    lemma_alive_push(e2, end[3], recording);
    lemma_alive_push(e3, end[4], recording);
    assert(alive_after(e1, recording) == recording.insert(fence));
    assert(alive_after(e3, recording) == recording.insert(fence));
    assert(alive_after(e4, recording) == recording.insert(fence).remove(fence));
    assert(recording.insert(fence).remove(fence) =~= recording);
    lemma_in_order_concat(begin + commands, end, start);
}

/// Every command of a mip chain uses the command buffer and the image, and
/// nothing else.
pub proof fn lemma_chain_finds(
    command_buffer: u64,
    image: u64,
    width: u32,
    height: u32,
    last: nat,
    alive: Set<u64>,
    i: int,
)
    requires
        alive.contains(command_buffer),
        alive.contains(image),
        0 <= i < mip_chain(command_buffer, image, width, height, last).len(),
    ensures
        finds(mip_chain(command_buffer, image, width, height, last)[i], alive),
    decreases last,
{
    if last > 0 {
        let earlier = mip_chain(command_buffer, image, width, height, (last - 1) as nat);
        if i < earlier.len() {
            lemma_chain_finds(command_buffer, image, width, height, (last - 1) as nat, alive, i);
        }
    }
}

/// An upload is in order where the image and the staging buffer are
/// alive.
pub proof fn lemma_upload_in_order(
    command_buffer: u64,
    fence: u64,
    pool: u64,
    queue: u64,
    image: u64,
    buffer: u64,
    extent: Extent2D,
    levels: u32,
    make_ready: bool,
    start: Set<u64>,
)
    requires
        command_buffer != fence,
        !start.contains(command_buffer),
        !start.contains(fence),
        start.contains(image),
        start.contains(buffer),
    ensures
        in_order(
            copy_ops(command_buffer, fence, pool, queue, image, buffer, extent, levels, make_ready),
            start,
        ),
{
    let commands = copy_commands(command_buffer, image, buffer, extent, levels, make_ready);
    lemma_upload_is_commands(command_buffer, image, buffer, extent, levels, make_ready);
    assert forall|i: int| 0 <= i < commands.len() implies keeps_objects(
        #[trigger] commands[i],
    ) && finds(commands[i], start.insert(command_buffer)) by {
        assert(is_command(commands[i]));
    }
    lemma_single_use_in_order(command_buffer, fence, pool, queue, commands, start);
}

/// A mip generation is in order where the image is alive.
pub proof fn lemma_mipmaps_in_order(
    command_buffer: u64,
    fence: u64,
    pool: u64,
    queue: u64,
    image: u64,
    width: u32,
    height: u32,
    levels: u32,
    start: Set<u64>,
)
    requires
        levels >= 1,
        command_buffer != fence,
        !start.contains(command_buffer),
        !start.contains(fence),
        start.contains(image),
    ensures
        in_order(
            mipmap_ops(command_buffer, fence, pool, queue, image, width, height, levels),
            start,
        ),
{
    let commands = mipmap_commands(command_buffer, image, width, height, levels);
    let chain = mip_chain(command_buffer, image, width, height, (levels - 1) as nat);
    lemma_mipmaps_are_commands(command_buffer, image, width, height, levels);
    assert forall|i: int| 0 <= i < commands.len() implies keeps_objects(
        #[trigger] commands[i],
    ) && finds(commands[i], start.insert(command_buffer)) by {
        assert(is_command(commands[i]));
        if i < chain.len() {
            lemma_chain_finds(
                command_buffer,
                image,
                width,
                height,
                (levels - 1) as nat,
                start.insert(command_buffer),
                i,
            );
        }
    }
    lemma_single_use_in_order(command_buffer, fence, pool, queue, commands, start);
}

/// Creating a buffer is in order where its two handles are not in use; an
/// upload to it and its binding are in order while it is alive; destroying
/// it is in order where the buffer and its memory are alive and are two
/// objects.
pub proof fn lemma_buffer_in_order(
    buffer: u64,
    memory: u64,
    size: u64,
    usage: u32,
    start: u64,
    len: u64,
    before: Set<u64>,
)
    requires
        buffer != memory,
    ensures
        !before.contains(buffer) && !before.contains(memory) ==> in_order(
            create_buffer_ops(buffer, memory, size, usage),
            before,
        ),
        before.contains(memory) ==> in_order(upload_ops(memory, size, start, len), before),
        before.contains(buffer) && before.contains(memory) ==> in_order(
            seq![DeviceOp::BindBufferMemory { buffer, memory, offset: 0 }],
            before,
        ),
        before.contains(buffer) && before.contains(memory) ==> in_order(
            destroy_buffer_ops(buffer, memory),
            before,
        ),
{
    let none = Seq::<DeviceOp>::empty();
    let create = create_buffer_ops(buffer, memory, size, usage);
    lemma_in_order_push(none, create[0], before);
    lemma_alive_push(none, create[0], before);
    lemma_in_order_push(none.push(create[0]), create[1], before);
    assert(create =~= none.push(create[0]).push(create[1]));
    if before.contains(memory) {
        lemma_in_order_kept(upload_ops(memory, size, start, len), before);
    }
    if before.contains(buffer) && before.contains(memory) {
        lemma_in_order_kept(seq![DeviceOp::BindBufferMemory { buffer, memory, offset: 0 }], before);
        let destroy = destroy_buffer_ops(buffer, memory);
        lemma_in_order_push(none, destroy[0], before);
        lemma_alive_push(none, destroy[0], before);
        lemma_in_order_push(none.push(destroy[0]), destroy[1], before);
        assert(destroy =~= none.push(destroy[0]).push(destroy[1]));
    }
}

/// Allocating for an image is in order where the image is alive and the
/// handle of the memory is not in use.
pub proof fn lemma_image_memory_in_order(memory: u64, image: u64, start: Set<u64>)
    requires
        start.contains(image),
        !start.contains(memory),
    ensures
        in_order(image_memory_ops(memory, image), start),
{
    let none = Seq::<DeviceOp>::empty();
    let ops = image_memory_ops(memory, image);
    lemma_in_order_push(none, ops[0], start);
    lemma_alive_push(none, ops[0], start);
    lemma_in_order_push(none.push(ops[0]), ops[1], start);
    assert(ops =~= none.push(ops[0]).push(ops[1]));
}

/// Destroying an image is in order where its view, the image and its
/// memory are alive and are three objects.
pub proof fn lemma_destroy_image_in_order(view: u64, image: u64, memory: u64, start: Set<u64>)
    requires
        start.contains(view),
        start.contains(image),
        start.contains(memory),
        view != image,
        view != memory,
        image != memory,
    ensures
        in_order(destroy_image_ops(view, image, memory), start),
{
    let none = Seq::<DeviceOp>::empty();
    let ops = destroy_image_ops(view, image, memory);
    let s0 = none.push(ops[0]);
    let s1 = s0.push(ops[1]);
    assert(ops =~= s1.push(ops[2]));
    lemma_in_order_push(none, ops[0], start);
    lemma_in_order_push(s0, ops[1], start);
    lemma_in_order_push(s1, ops[2], start);
    lemma_alive_push(none, ops[0], start);
    lemma_alive_push(s0, ops[1], start);
}

/// Creating a depth target is in order where its three handles are not in
/// use.
pub proof fn lemma_depth_image_in_order(
    first: u64,
    format: i32,
    extent: Extent2D,
    start: Set<u64>,
)
    requires
        first + 3 <= u64::MAX,
        unused(start, first, 3),
    ensures
        in_order(depth_image_ops(first, format, extent), start),
{
    assert(first == nth_handle(first, 0));
    let none = Seq::<DeviceOp>::empty();
    let ops = depth_image_ops(first, format, extent);
    let s0 = none.push(ops[0]);
    let s1 = s0.push(ops[1]);
    let s2 = s1.push(ops[2]);
    assert(ops =~= s2.push(ops[3]));
    lemma_in_order_push(none, ops[0], start);
    lemma_in_order_push(s0, ops[1], start);
    lemma_in_order_push(s1, ops[2], start);
    lemma_in_order_push(s2, ops[3], start);
    lemma_alive_push(none, ops[0], start);
    lemma_alive_push(s0, ops[1], start);
    lemma_alive_push(s1, ops[2], start);
}

/// Everything that creating a sampled image records is in order: the
/// staging buffer is created before it is filled and bound, bound before
/// it is copied from, and destroyed after the copy has been waited for; the
/// image has its memory before anything is written to it; the view is
/// created over an image that is alive.
#[verifier::rlimit(60)]
pub proof fn lemma_sampled_image_in_order(
    first: u64,
    start: u64,
    len: u64,
    pool: u64,
    queue: u64,
    extent: Extent2D,
    format: i32,
    levels: u32,
    chain: bool,
    cache: Seq<SamplerInfo>,
    info: SamplerInfo,
    before: Set<u64>,
)
    requires
        levels >= 1,
        first + sampled_image_handles(chain) <= u64::MAX,
        unused(before, first, sampled_image_handles(chain)),
    ensures
        in_order(
            sampled_image_ops(first, start, len, pool, queue, extent, format, levels, chain)
                + sampler_ops(cache, info),
            before,
        ),
{
    let buffer = first;
    let buffer_memory = nth_handle(first, 1);
    let image = nth_handle(first, 2);
    let memory = nth_handle(first, 3);
    let view = nth_handle(
        first,
        if chain {
            8
        } else {
            6
        },
    );
    assert(buffer == nth_handle(first, 0));
    let size = byte_count(extent.width, extent.height, 4) as u64;
    let t_create = create_buffer_ops(buffer, buffer_memory, size, BUFFER_USAGE_TRANSFER_SRC);
    let t_fill = upload_ops(buffer_memory, size, start, len) + seq![
        DeviceOp::BindBufferMemory { buffer, memory: buffer_memory, offset: 0 },
    ];
    let t_image = seq![
        DeviceOp::CreateImage {
            image,
            format,
            extent,
            mip_levels: levels,
            usage: if chain {
                MIPPED_IMAGE_USAGE
            } else {
                SAMPLED_IMAGE_USAGE
            },
        },
    ];
    let t_memory = image_memory_ops(memory, image);
    let t_copy = copy_ops(
        nth_handle(first, 4),
        nth_handle(first, 5),
        pool,
        queue,
        image,
        buffer,
        extent,
        levels,
        !chain,
    );
    let t_destroy = destroy_buffer_ops(buffer, buffer_memory);
    let t_chain = if chain {
        mipmap_ops(
            nth_handle(first, 6),
            nth_handle(first, 7),
            pool,
            queue,
            image,
            extent.width,
            extent.height,
            levels,
        )
    } else {
        Seq::empty()
    };
    let t_view = seq![
        DeviceOp::CreateImageView {
            view,
            image,
            format,
            mip_levels: levels,
            aspect: ImageAspect::Color,
        },
    ];
    let t_sampler = sampler_ops(cache, info);
    let none = Seq::<DeviceOp>::empty();
    let a1 = before.insert(buffer).insert(buffer_memory);
    let a2 = a1.insert(image);
    let a3 = a2.insert(memory);
    let a4 = before.insert(image).insert(memory);
    let a5 = a4.insert(view);

    // The staging buffer and its memory.
    lemma_in_order_push(none, t_create[0], before);
    lemma_alive_push(none, t_create[0], before);
    lemma_in_order_push(none.push(t_create[0]), t_create[1], before);
    assert(t_create =~= none.push(t_create[0]).push(t_create[1]));
    lemma_buffer_lifetime(buffer, buffer_memory, size, BUFFER_USAGE_TRANSFER_SRC, before);
    let p1 = t_create;

    // The upload and the binding.
    lemma_in_order_kept(t_fill, a1);
    lemma_alive_kept(t_fill, a1);
    lemma_in_order_concat(p1, t_fill, before);
    lemma_alive_concat(p1, t_fill, before);
    let p2 = p1 + t_fill;

    // The image.
    lemma_in_order_push(none, t_image[0], a1);
    lemma_alive_push(none, t_image[0], a1);
    assert(t_image =~= none.push(t_image[0]));
    lemma_in_order_concat(p2, t_image, before);
    lemma_alive_concat(p2, t_image, before);
    let p3 = p2 + t_image;

    // Its memory.
    lemma_in_order_push(none, t_memory[0], a2);
    lemma_alive_push(none, t_memory[0], a2);
    lemma_in_order_push(none.push(t_memory[0]), t_memory[1], a2);
    assert(t_memory =~= none.push(t_memory[0]).push(t_memory[1]));
    lemma_image_memory_lifetime(memory, image, a2);
    lemma_in_order_concat(p3, t_memory, before);
    lemma_alive_concat(p3, t_memory, before);
    let p4 = p3 + t_memory;

    // The copy.
    lemma_upload_in_order(
        nth_handle(first, 4),
        nth_handle(first, 5),
        pool,
        queue,
        image,
        buffer,
        extent,
        levels,
        !chain,
        a3,
    );
    lemma_upload_releases(
        nth_handle(first, 4),
        nth_handle(first, 5),
        pool,
        queue,
        image,
        buffer,
        extent,
        levels,
        !chain,
        a3,
    );
    lemma_in_order_concat(p4, t_copy, before);
    lemma_alive_concat(p4, t_copy, before);
    let p5 = p4 + t_copy;

    // The end of the staging buffer.
    lemma_in_order_push(none, t_destroy[0], a3);
    lemma_alive_push(none, t_destroy[0], a3);
    lemma_in_order_push(none.push(t_destroy[0]), t_destroy[1], a3);
    assert(t_destroy =~= none.push(t_destroy[0]).push(t_destroy[1]));
    lemma_buffer_lifetime(buffer, buffer_memory, size, BUFFER_USAGE_TRANSFER_SRC, a3);
    assert(a3.remove(buffer).remove(buffer_memory) =~= a4);
    lemma_in_order_concat(p5, t_destroy, before);
    lemma_alive_concat(p5, t_destroy, before);
    let p6 = p5 + t_destroy;

    // The mip chain.
    if chain {
        lemma_mipmaps_in_order(
            nth_handle(first, 6),
            nth_handle(first, 7),
            pool,
            queue,
            image,
            extent.width,
            extent.height,
            levels,
            a4,
        );
        lemma_mipmaps_release(
            nth_handle(first, 6),
            nth_handle(first, 7),
            pool,
            queue,
            image,
            extent.width,
            extent.height,
            levels,
            a4,
        );
    }
    lemma_in_order_concat(p6, t_chain, before);
    lemma_alive_concat(p6, t_chain, before);
    let p7 = p6 + t_chain;

    // The view and the sampler.
    lemma_in_order_push(none, t_view[0], a4);
    lemma_alive_push(none, t_view[0], a4);
    assert(t_view =~= none.push(t_view[0]));
    lemma_in_order_concat(p7, t_view, before);
    lemma_alive_concat(p7, t_view, before);
    let p8 = p7 + t_view;
    lemma_in_order_kept(t_sampler, a5);
    lemma_in_order_concat(p8, t_sampler, before);
    assert(sampled_image_ops(first, start, len, pool, queue, extent, format, levels, chain)
        =~= p8);
}

} // verus!
