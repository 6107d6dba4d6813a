//! The layouts of an image's mip levels, followed through recorded
//! operations.
//!
//! The device keeps no account of layouts: a level is in the layout that the
//! last barrier over it named. This module follows the barriers of a record
//! and says which commands found their levels in the layout they need.

use vstd::prelude::*;
use crate::command::{begin_ops, end_ops};
use crate::cache::sampler_ops;
use crate::device::{
    BUFFER_USAGE_TRANSFER_SRC, DeviceOp, Extent2D, ImageAspect, ImageBarrier, ImageLayout,
    SamplerInfo, nth_handle,
};
use crate::buffer::{create_buffer_ops, destroy_buffer_ops, image_memory_ops, upload_ops};
use crate::image::{
    MIPPED_IMAGE_USAGE, SAMPLED_IMAGE_USAGE, copy_commands, copy_ops, last_barrier, mip_chain,
    mip_step, mipmap_commands, mipmap_ops, ready_barrier, sampled_image_ops, upload_barrier,
};
use crate::pixels::byte_count;

verus! {

/// `count` levels, all in `layout`.
pub open spec fn uniform(count: nat, layout: ImageLayout) -> Seq<ImageLayout> {
    Seq::new(count, |level: int| layout)
}

/// Whether `barrier` covers mip level `level`.
pub open spec fn covers(barrier: ImageBarrier, level: int) -> bool {
    barrier.base_mip_level <= level < barrier.base_mip_level + barrier.level_count
}

/// Whether `op` is a command on `image`.
pub open spec fn touches(op: DeviceOp, image: u64) -> bool {
    match op {
        DeviceOp::CmdPipelineBarrier { barrier, .. } => barrier.image == image,
        DeviceOp::CmdCopyBufferToImage { image: target, .. } => target == image,
        DeviceOp::CmdBlitImage { image: target, .. } => target == image,
        _ => false,
    }
}

/// Whether `op` finds the levels of `image` in the layouts it needs.
///
/// A barrier needs the levels it covers to exist and, unless it discards
/// their contents, to be in its old layout. A copy from a buffer needs level
/// 0 in the transfer-destination layout. A blit needs its source level in
/// the transfer-source and its destination level in the transfer-destination
/// layout. Anything that is no command on `image` needs nothing.
pub open spec fn permitted(op: DeviceOp, image: u64, layouts: Seq<ImageLayout>) -> bool {
    match op {
        DeviceOp::CmdPipelineBarrier { barrier, .. } => barrier.image == image ==> {
            &&& barrier.base_mip_level + barrier.level_count <= layouts.len()
            &&& barrier.old_layout != ImageLayout::Undefined ==> forall|level: int|
                0 <= level < layouts.len() && covers(barrier, level) ==> #[trigger] layouts[level]
                    == barrier.old_layout
        },
        DeviceOp::CmdCopyBufferToImage { image: target, .. } => target == image ==> {
            &&& layouts.len() >= 1
            &&& layouts[0] == ImageLayout::TransferDstOptimal
        },
        DeviceOp::CmdBlitImage { image: target, blit, .. } => target == image ==> {
            &&& blit.src_level < layouts.len()
            &&& blit.dst_level < layouts.len()
            &&& layouts[blit.src_level as int] == ImageLayout::TransferSrcOptimal
            &&& layouts[blit.dst_level as int] == ImageLayout::TransferDstOptimal
        },
        _ => true,
    }
}

/// The layouts of the levels of `image` once `op` has run: a barrier on
/// `image` puts the levels it covers in its new layout, and nothing else
/// changes a layout.
pub open spec fn transition(op: DeviceOp, image: u64, layouts: Seq<ImageLayout>) -> Seq<
    ImageLayout,
> {
    match op {
        DeviceOp::CmdPipelineBarrier { barrier, .. } => if barrier.image == image {
            Seq::new(
                layouts.len(),
                |level: int|
                    if covers(barrier, level) {
                        barrier.new_layout
                    } else {
                        layouts[level]
                    },
            )
        } else {
            layouts
        },
        _ => layouts,
    }
}

/// The layouts of the levels of `image` once `ops` have run in order from
/// `layouts`; `None` where one of them does not find the layouts it needs.
pub open spec fn layouts_after(ops: Seq<DeviceOp>, image: u64, layouts: Seq<ImageLayout>) -> Option<
    Seq<ImageLayout>,
>
    decreases ops.len(),
{
    if ops.len() == 0 {
        Some(layouts)
    } else {
        match layouts_after(ops.drop_last(), image, layouts) {
            Some(before) => if permitted(ops.last(), image, before) {
                Some(transition(ops.last(), image, before))
            } else {
                None
            },
            None => None,
        }
    }
}

/// The layouts while a mip chain is generated, when levels 1 to `done` have
/// been filled: the first `done` levels are finished, the others wait in
/// the transfer-destination layout.
pub open spec fn chain_layouts(count: nat, done: nat) -> Seq<ImageLayout> {
    Seq::new(
        count,
        |level: int|
            if level < done {
                ImageLayout::ShaderReadOnlyOptimal
            } else {
                ImageLayout::TransferDstOptimal
            },
    )
}

/// Running one operation after others is one more step from where they
/// ended.
pub proof fn lemma_layouts_push(
    ops: Seq<DeviceOp>,
    op: DeviceOp,
    image: u64,
    layouts: Seq<ImageLayout>,
)
    ensures
        layouts_after(ops.push(op), image, layouts) == match layouts_after(ops, image, layouts) {
            Some(before) => if permitted(op, image, before) {
                Some(transition(op, image, before))
            } else {
                None
            },
            None => None,
        },
{
    assert(ops.push(op).drop_last() =~= ops);
    assert(ops.push(op).last() == op);
}

/// Running two records one after the other is running the second from
/// where the first ended.
pub proof fn lemma_layouts_concat(
    first: Seq<DeviceOp>,
    second: Seq<DeviceOp>,
    image: u64,
    layouts: Seq<ImageLayout>,
)
    ensures
        layouts_after(first + second, image, layouts) == match layouts_after(
            first,
            image,
            layouts,
        ) {
            Some(between) => layouts_after(second, image, between),
            None => None,
        },
    decreases second.len(),
{
    if second.len() == 0 {
        assert(first + second =~= first);
    } else {
        lemma_layouts_concat(first, second.drop_last(), image, layouts);
        assert(first + second =~= (first + second.drop_last()).push(second.last()));
        lemma_layouts_push(first + second.drop_last(), second.last(), image, layouts);
    }
}

/// Operations that are no commands on `image` leave its layouts as they
/// are.
pub proof fn lemma_layouts_untouched(ops: Seq<DeviceOp>, image: u64, layouts: Seq<ImageLayout>)
    requires
        forall|i: int| 0 <= i < ops.len() ==> !touches(#[trigger] ops[i], image),
    ensures
        layouts_after(ops, image, layouts) == Some(layouts),
    decreases ops.len(),
{
    if ops.len() > 0 {
        assert forall|i: int| 0 <= i < ops.drop_last().len() implies !touches(
            #[trigger] ops.drop_last()[i],
            image,
        ) by {
            assert(ops.drop_last()[i] == ops[i]);
        }
        lemma_layouts_untouched(ops.drop_last(), image, layouts);
        assert(!touches(ops[ops.len() - 1], image));
    }
}

/// Filling levels 1 to `last` of an image of `count` levels, all waiting in
/// the transfer-destination layout, finds every level in the layout it
/// needs and finishes the first `last` levels.
pub proof fn lemma_chain_layouts(
    command_buffer: u64,
    image: u64,
    width: u32,
    height: u32,
    count: nat,
    last: nat,
)
    requires
        last < count <= u32::MAX,
    ensures
        layouts_after(
            mip_chain(command_buffer, image, width, height, last),
            image,
            uniform(count, ImageLayout::TransferDstOptimal),
        ) == Some(chain_layouts(count, last)),
    decreases last,
{
    let start = uniform(count, ImageLayout::TransferDstOptimal);
    if last == 0 {
        assert(chain_layouts(count, 0) =~= start);
    } else {
        let earlier = mip_chain(command_buffer, image, width, height, (last - 1) as nat);
        lemma_chain_layouts(command_buffer, image, width, height, count, (last - 1) as nat);
        let step = mip_step(command_buffer, image, width, height, last);
        let l0 = chain_layouts(count, (last - 1) as nat);
        let s0 = earlier.push(step[0]);
        let s1 = s0.push(step[1]);
        let s2 = s1.push(step[2]);
        assert(earlier + step =~= s2);
        let source = (last - 1) as int;
        lemma_layouts_push(earlier, step[0], image, start);
        assert(permitted(step[0], image, l0));
        let l1 = transition(step[0], image, l0);
        assert(l1[source] == ImageLayout::TransferSrcOptimal);
        assert(l1[last as int] == ImageLayout::TransferDstOptimal);
        lemma_layouts_push(s0, step[1], image, start);
        assert(permitted(step[1], image, l1));
        lemma_layouts_push(s1, step[2], image, start);
        assert(permitted(step[2], image, l1));
        assert(transition(step[2], image, l1) =~= chain_layouts(count, last));
    }
}

/// Mip generation ends with every level in the shader-read layout: from
/// `levels` levels in the transfer-destination layout, each command of the
/// generation finds the layouts it needs, and afterwards no level needs a
/// further transition before it is sampled.
pub proof fn lemma_mipmaps_leave_levels_readable(
    command_buffer: u64,
    fence: u64,
    pool: u64,
    queue: u64,
    image: u64,
    width: u32,
    height: u32,
    levels: u32,
)
    requires
        levels >= 1,
    ensures
        layouts_after(
            mipmap_commands(command_buffer, image, width, height, levels),
            image,
            uniform(levels as nat, ImageLayout::TransferDstOptimal),
        ) == Some(uniform(levels as nat, ImageLayout::ShaderReadOnlyOptimal)),
        layouts_after(
            mipmap_ops(command_buffer, fence, pool, queue, image, width, height, levels),
            image,
            uniform(levels as nat, ImageLayout::TransferDstOptimal),
        ) == Some(uniform(levels as nat, ImageLayout::ShaderReadOnlyOptimal)),
{
    let count = levels as nat;
    let start = uniform(count, ImageLayout::TransferDstOptimal);
    let end = uniform(count, ImageLayout::ShaderReadOnlyOptimal);
    let chain = mip_chain(command_buffer, image, width, height, (levels - 1) as nat);
    let closing = DeviceOp::CmdPipelineBarrier {
        command_buffer,
        barrier: last_barrier(image, (levels - 1) as u32),
    };
    let commands = mipmap_commands(command_buffer, image, width, height, levels);
    lemma_chain_layouts(command_buffer, image, width, height, count, (levels - 1) as nat);
    let waiting = chain_layouts(count, (levels - 1) as nat);
    lemma_layouts_push(chain, closing, image, start);
    assert(permitted(closing, image, waiting));
    assert(transition(closing, image, waiting) =~= end);
    let begin = begin_ops(command_buffer, pool);
    let finish = end_ops(pool, queue, command_buffer, fence);
    lemma_layouts_untouched(begin, image, start);
    lemma_layouts_untouched(finish, image, end);
    lemma_layouts_concat(begin, commands, image, start);
    lemma_layouts_concat(begin + commands, finish, image, start);
}

/// An upload that readies the image ends with every level in the
/// shader-read layout, whatever layouts the levels were in; one that does
/// not, with every level in the transfer-destination layout.
pub proof fn lemma_upload_layouts(
    command_buffer: u64,
    fence: u64,
    pool: u64,
    queue: u64,
    image: u64,
    buffer: u64,
    extent: Extent2D,
    levels: u32,
    make_ready: bool,
    layouts: Seq<ImageLayout>,
)
    requires
        levels >= 1,
        layouts.len() == levels,
    ensures
        layouts_after(
            copy_ops(command_buffer, fence, pool, queue, image, buffer, extent, levels, make_ready),
            image,
            layouts,
        ) == Some(
            uniform(
                levels as nat,
                if make_ready {
                    ImageLayout::ShaderReadOnlyOptimal
                } else {
                    ImageLayout::TransferDstOptimal
                },
            ),
        ),
{
    let count = levels as nat;
    let written = uniform(count, ImageLayout::TransferDstOptimal);
    let readable = uniform(count, ImageLayout::ShaderReadOnlyOptimal);
    let begin = begin_ops(command_buffer, pool);
    let finish = end_ops(pool, queue, command_buffer, fence);
    let commands = copy_commands(command_buffer, image, buffer, extent, levels, make_ready);
    let first = DeviceOp::CmdPipelineBarrier {
        command_buffer,
        barrier: upload_barrier(image, levels),
    };
    let copy = DeviceOp::CmdCopyBufferToImage { command_buffer, buffer, image, extent };
    let ready = DeviceOp::CmdPipelineBarrier {
        command_buffer,
        barrier: ready_barrier(image, levels),
    };
    let none = Seq::<DeviceOp>::empty();
    lemma_layouts_push(none, first, image, layouts);
    assert(transition(first, image, layouts) =~= written);
    lemma_layouts_push(none.push(first), copy, image, layouts);
    assert(permitted(copy, image, written));
    if make_ready {
        lemma_layouts_push(none.push(first).push(copy), ready, image, layouts);
        assert(permitted(ready, image, written));
        assert(transition(ready, image, written) =~= readable);
        assert(commands =~= none.push(first).push(copy).push(ready));
    } else {
        assert(commands =~= none.push(first).push(copy));
    }
    let end = if make_ready {
        readable
    } else {
        written
    };
    lemma_layouts_untouched(begin, image, layouts);
    lemma_layouts_untouched(finish, image, end);
    lemma_layouts_concat(begin, commands, image, layouts);
    lemma_layouts_concat(begin + commands, finish, image, layouts);
}

/// A sampled image is created with every level in the shader-read layout:
/// from levels whose contents are undefined, each command of the creation
/// finds the layouts it needs, and afterwards no level needs a further
/// transition before it is sampled.
#[verifier::rlimit(40)]
pub proof fn lemma_sampled_image_layouts(
    first: u64,
    start: u64,
    len: u64,
    pool: u64,
    queue: u64,
    extent: Extent2D,
    format: i32,
    levels: u32,
    chain: bool,
)
    requires
        levels >= 1,
    ensures
        layouts_after(
            sampled_image_ops(first, start, len, pool, queue, extent, format, levels, chain),
            nth_handle(first, 2),
            uniform(levels as nat, ImageLayout::Undefined),
        ) == Some(uniform(levels as nat, ImageLayout::ShaderReadOnlyOptimal)),
{
    let count = levels as nat;
    let image = nth_handle(first, 2);
    let buffer = first;
    let buffer_memory = nth_handle(first, 1);
    let memory = nth_handle(first, 3);
    let size = byte_count(extent.width, extent.height, 4) as u64;
    let fresh = uniform(count, ImageLayout::Undefined);
    let written = uniform(count, ImageLayout::TransferDstOptimal);
    let readable = uniform(count, ImageLayout::ShaderReadOnlyOptimal);
    let copied = if chain {
        written
    } else {
        readable
    };
    let t_setup = create_buffer_ops(buffer, buffer_memory, size, BUFFER_USAGE_TRANSFER_SRC)
        + upload_ops(buffer_memory, size, start, len) + seq![
        DeviceOp::BindBufferMemory { buffer, memory: buffer_memory, offset: 0 },
    ] + seq![
        DeviceOp::CreateImage {
            image,
            format,
            extent,
            mip_levels: levels,
            usage: if chain {
                MIPPED_IMAGE_USAGE
            } else {
                SAMPLED_IMAGE_USAGE
            },
        },
    ] + image_memory_ops(memory, image);
    let t_copy = copy_ops(
        nth_handle(first, 4),
        nth_handle(first, 5),
        pool,
        queue,
        image,
        buffer,
        extent,
        levels,
        !chain,
    );
    let t_destroy = destroy_buffer_ops(buffer, buffer_memory);
    let t_chain = if chain {
        mipmap_ops(
            nth_handle(first, 6),
            nth_handle(first, 7),
            pool,
            queue,
            image,
            extent.width,
            extent.height,
            levels,
        )
    } else {
        Seq::empty()
    };
    let t_view = seq![
        DeviceOp::CreateImageView {
            view: nth_handle(
                first,
                if chain {
                    8
                } else {
                    6
                },
            ),
            image,
            format,
            mip_levels: levels,
            aspect: ImageAspect::Color,
        },
    ];
    lemma_layouts_untouched(t_setup, image, fresh);
    lemma_upload_layouts(
        nth_handle(first, 4),
        nth_handle(first, 5),
        pool,
        queue,
        image,
        buffer,
        extent,
        levels,
        !chain,
        fresh,
    );
    lemma_layouts_concat(t_setup, t_copy, image, fresh);
    lemma_layouts_untouched(t_destroy, image, copied);
    lemma_layouts_concat(t_setup + t_copy, t_destroy, image, fresh);
    if chain {
        lemma_mipmaps_leave_levels_readable(
            nth_handle(first, 6),
            nth_handle(first, 7),
            pool,
            queue,
            image,
            extent.width,
            extent.height,
            levels,
        );
    } else {
        lemma_layouts_untouched(t_chain, image, copied);
    }
    lemma_layouts_concat(t_setup + t_copy + t_destroy, t_chain, image, fresh);
    lemma_layouts_untouched(t_view, image, readable);
    lemma_layouts_concat(t_setup + t_copy + t_destroy + t_chain, t_view, image, fresh);
    assert(sampled_image_ops(first, start, len, pool, queue, extent, format, levels, chain)
        =~= t_setup + t_copy + t_destroy + t_chain + t_view);
}

/// A sampled image and its sampler are created with every level of the
/// image in the shader-read layout.
pub proof fn lemma_sampled_image_record_layouts(
    first: u64,
    start: u64,
    len: u64,
    pool: u64,
    queue: u64,
    extent: Extent2D,
    format: i32,
    levels: u32,
    chain: bool,
    cache: Seq<SamplerInfo>,
    info: SamplerInfo,
)
    requires
        levels >= 1,
    ensures
        layouts_after(
            sampled_image_ops(first, start, len, pool, queue, extent, format, levels, chain)
                + sampler_ops(cache, info),
            nth_handle(first, 2),
            uniform(levels as nat, ImageLayout::Undefined),
        ) == Some(uniform(levels as nat, ImageLayout::ShaderReadOnlyOptimal)),
{
    let image = nth_handle(first, 2);
    let image_ops = sampled_image_ops(first, start, len, pool, queue, extent, format, levels, chain);
    lemma_sampled_image_layouts(first, start, len, pool, queue, extent, format, levels, chain);
    lemma_layouts_untouched(
        sampler_ops(cache, info),
        image,
        uniform(levels as nat, ImageLayout::ShaderReadOnlyOptimal),
    );
    lemma_layouts_concat(
        image_ops,
        sampler_ops(cache, info),
        image,
        uniform(levels as nat, ImageLayout::Undefined),
    );
}

/// Whether `op`, if it is a blit, writes a region of at least one texel in
/// each direction.
pub open spec fn blit_target_positive(op: DeviceOp) -> bool {
    op matches DeviceOp::CmdBlitImage { blit, .. } ==> blit.dst_width >= 1 && blit.dst_height >= 1
}

/// No blit of a mip chain writes a region of less than one texel in either
/// direction, whatever the size of the image.
pub proof fn lemma_chain_blits_positive(
    command_buffer: u64,
    image: u64,
    width: u32,
    height: u32,
    last: nat,
    i: int,
)
    requires
        0 <= i < mip_chain(command_buffer, image, width, height, last).len(),
    ensures
        blit_target_positive(mip_chain(command_buffer, image, width, height, last)[i]),
    decreases last,
{
    if last > 0 {
        let earlier = mip_chain(command_buffer, image, width, height, (last - 1) as nat);
        if i < earlier.len() {
            lemma_chain_blits_positive(command_buffer, image, width, height, (last - 1) as nat, i);
        }
    }
}

/// No blit of a mip generation writes a region of less than one texel in
/// either direction, whatever the size of the image: for a source of one
/// texel, too, the target is one texel.
pub proof fn lemma_mipmap_blits_positive(
    command_buffer: u64,
    fence: u64,
    pool: u64,
    queue: u64,
    image: u64,
    width: u32,
    height: u32,
    levels: u32,
    i: int,
)
    requires
        levels >= 1,
        0 <= i < mipmap_ops(
            command_buffer,
            fence,
            pool,
            queue,
            image,
            width,
            height,
            levels,
        ).len(),
    ensures
        blit_target_positive(
            mipmap_ops(command_buffer, fence, pool, queue, image, width, height, levels)[i],
        ),
{
    let chain = mip_chain(command_buffer, image, width, height, (levels - 1) as nat);
    if 2 <= i < 2 + chain.len() {
        lemma_chain_blits_positive(command_buffer, image, width, height, (levels - 1) as nat, i - 2);
    }
}

} // verus!
