//! Images: creation, the transfer from a staging buffer, and the mip chain.

use vstd::prelude::*;
use crate::buffer::{
    BufferState, VulkanBuffer, create_buffer_ops, destroy_buffer_ops, image_memory_ops, upload_ops,
};
use crate::cache::{default_sampler_info, handle_for, sampler_ops, with_sampler};
use crate::command::{begin_ops, begin_single_time_command, end_ops, end_single_time_command};
use crate::device::{
    Access, BUFFER_USAGE_TRANSFER_SRC, Device, DeviceOp, Extent2D, FORMAT_R8G8B8A8_UNORM, Filter,
    IMAGE_USAGE_DEPTH_STENCIL_ATTACHMENT, ImageAspect, ImageBarrier, ImageBlit, ImageLayout,
    SamplerInfo, Stage, nth_handle,
};
use crate::instance::VulkanInstance;
use crate::lifetime::{
    alive, lemma_alive_follows, lemma_depth_image_lifetime, lemma_destroy_image_releases,
    sampled_image_handles,
    lemma_mipmaps_release, lemma_next_handles_unused, lemma_sampled_image_record_lifetime,
    lemma_upload_releases,
};
use crate::mip::{blit_target, mip_extent, mip_level_count, mip_levels};
use crate::order::{
    in_order, lemma_depth_image_in_order, lemma_destroy_image_in_order, lemma_mipmaps_in_order,
    lemma_sampled_image_in_order, lemma_upload_in_order,
};
use crate::layout::{
    blit_target_positive, layouts_after, lemma_mipmap_blits_positive,
    lemma_mipmaps_leave_levels_readable, lemma_sampled_image_record_layouts, uniform,
};
use crate::pixels::{DecodedImage, byte_count, normalized, pixel_count, solid_rgba8};

verus! {

/// The barrier that readies every level for the upload.
pub open spec fn upload_barrier(image: u64, levels: u32) -> ImageBarrier {
    ImageBarrier {
        image,
        base_mip_level: 0,
        level_count: levels,
        old_layout: ImageLayout::Undefined,
        new_layout: ImageLayout::TransferDstOptimal,
        src_access: Access::NoAccess,
        dst_access: Access::TransferWrite,
        src_stage: Stage::TopOfPipe,
        dst_stage: Stage::Transfer,
    }
}

/// The barrier that hands every uploaded level to the fragment shader.
pub open spec fn ready_barrier(image: u64, levels: u32) -> ImageBarrier {
    ImageBarrier {
        image,
        base_mip_level: 0,
        level_count: levels,
        old_layout: ImageLayout::TransferDstOptimal,
        new_layout: ImageLayout::ShaderReadOnlyOptimal,
        src_access: Access::TransferWrite,
        dst_access: Access::ShaderRead,
        src_stage: Stage::Transfer,
        dst_stage: Stage::FragmentShader,
    }
}

/// The barrier that turns the written level `level` into a blit source.
pub open spec fn source_barrier(image: u64, level: u32) -> ImageBarrier {
    ImageBarrier {
        image,
        base_mip_level: level,
        level_count: 1,
        old_layout: ImageLayout::TransferDstOptimal,
        new_layout: ImageLayout::TransferSrcOptimal,
        src_access: Access::TransferWrite,
        dst_access: Access::TransferRead,
        src_stage: Stage::Transfer,
        dst_stage: Stage::Transfer,
    }
}

/// The barrier that hands level `level`, read for the last time, to the
/// fragment shader.
pub open spec fn finished_barrier(image: u64, level: u32) -> ImageBarrier {
    ImageBarrier {
        image,
        base_mip_level: level,
        level_count: 1,
        old_layout: ImageLayout::TransferSrcOptimal,
        new_layout: ImageLayout::ShaderReadOnlyOptimal,
        src_access: Access::TransferRead,
        dst_access: Access::ShaderRead,
        src_stage: Stage::Transfer,
        dst_stage: Stage::FragmentShader,
    }
}

/// The barrier that hands the last level, which was only ever written, to
/// the fragment shader.
pub open spec fn last_barrier(image: u64, level: u32) -> ImageBarrier {
    ImageBarrier {
        image,
        base_mip_level: level,
        level_count: 1,
        old_layout: ImageLayout::TransferDstOptimal,
        new_layout: ImageLayout::ShaderReadOnlyOptimal,
        src_access: Access::TransferWrite,
        dst_access: Access::ShaderRead,
        src_stage: Stage::Blit,
        dst_stage: Stage::FragmentShader,
    }
}

/// The blit that fills level `level` (at least 1) from the level above it.
pub open spec fn level_blit(width: u32, height: u32, level: nat) -> ImageBlit {
    let src_width = mip_extent(width, (level - 1) as nat);
    let src_height = mip_extent(height, (level - 1) as nat);
    ImageBlit {
        src_level: (level - 1) as u32,
        dst_level: level as u32,
        src_width,
        src_height,
        dst_width: blit_target(src_width),
        dst_height: blit_target(src_height),
    }
}

/// What filling level `level` (at least 1) records: the level above becomes
/// a source, is blitted down, and is finished.
pub open spec fn mip_step(
    command_buffer: u64,
    image: u64,
    width: u32,
    height: u32,
    level: nat,
) -> Seq<DeviceOp> {
    seq![
        DeviceOp::CmdPipelineBarrier {
            command_buffer,
            barrier: source_barrier(image, (level - 1) as u32),
        },
        DeviceOp::CmdBlitImage {
            command_buffer,
            image,
            blit: level_blit(width, height, level),
            filter: Filter::Linear,
        },
        DeviceOp::CmdPipelineBarrier {
            command_buffer,
            barrier: finished_barrier(image, (level - 1) as u32),
        },
    ]
}

/// What filling levels 1 to `last` records, in the order of the levels.
pub open spec fn mip_chain(
    command_buffer: u64,
    image: u64,
    width: u32,
    height: u32,
    last: nat,
) -> Seq<DeviceOp>
    decreases last,
{
    if last == 0 {
        Seq::empty()
    } else {
        mip_chain(command_buffer, image, width, height, (last - 1) as nat) + mip_step(
            command_buffer,
            image,
            width,
            height,
            last,
        )
    }
}

/// The commands of a mip generation over `levels` levels: the chain, then
/// the transition of the last level.
pub open spec fn mipmap_commands(
    command_buffer: u64,
    image: u64,
    width: u32,
    height: u32,
    levels: u32,
) -> Seq<DeviceOp> {
    mip_chain(command_buffer, image, width, height, (levels - 1) as nat).push(
        DeviceOp::CmdPipelineBarrier {
            command_buffer,
            barrier: last_barrier(image, (levels - 1) as u32),
        },
    )
}

/// What a mip generation records, from the allocation of its command
/// buffer to the release of it.
pub open spec fn mipmap_ops(
    command_buffer: u64,
    fence: u64,
    pool: u64,
    queue: u64,
    image: u64,
    width: u32,
    height: u32,
    levels: u32,
) -> Seq<DeviceOp> {
    begin_ops(command_buffer, pool) + mipmap_commands(command_buffer, image, width, height, levels)
        + end_ops(pool, queue, command_buffer, fence)
}

/// The commands of an upload: every level is readied, level 0 is copied
/// from the buffer, and, where nothing follows, every level is handed to the
/// fragment shader.
pub open spec fn copy_commands(
    command_buffer: u64,
    image: u64,
    buffer: u64,
    extent: Extent2D,
    levels: u32,
    make_ready: bool,
) -> Seq<DeviceOp> {
    let upload = seq![
        DeviceOp::CmdPipelineBarrier { command_buffer, barrier: upload_barrier(image, levels) },
        DeviceOp::CmdCopyBufferToImage { command_buffer, buffer, image, extent },
    ];
    if make_ready {
        upload.push(
            DeviceOp::CmdPipelineBarrier { command_buffer, barrier: ready_barrier(image, levels) },
        )
    } else {
        upload
    }
}

/// What an upload records, from the allocation of its command buffer to
/// the release of it.
pub open spec fn copy_ops(
    command_buffer: u64,
    fence: u64,
    pool: u64,
    queue: u64,
    image: u64,
    buffer: u64,
    extent: Extent2D,
    levels: u32,
    make_ready: bool,
) -> Seq<DeviceOp> {
    begin_ops(command_buffer, pool) + copy_commands(
        command_buffer,
        image,
        buffer,
        extent,
        levels,
        make_ready,
    ) + end_ops(pool, queue, command_buffer, fence)
}

/// The number of handles that a transfer takes: one for its command
/// buffer, one for its fence.
pub const TRANSFER_HANDLES: u64 = 2;

/// The number of handles that creating a depth target takes.
pub const DEPTH_IMAGE_HANDLES: u64 = 3;

/// The number of handles that creating a sampled image of one level takes.
pub const SAMPLED_IMAGE_HANDLES: u64 = 7;

/// The number of handles that creating a sampled image with a mip chain
/// takes.
pub const MIPPED_IMAGE_HANDLES: u64 = 9;

/// The usage of an image that is uploaded to and sampled.
pub const SAMPLED_IMAGE_USAGE: u32 = 0x6;

/// The usage of an image that is uploaded to, blitted within and sampled.
pub const MIPPED_IMAGE_USAGE: u32 = 0x7;

/// The sampler configuration that an image is created with: the one asked
/// for, or the default.
pub open spec fn chosen_sampler(sampler_info: Option<SamplerInfo>) -> SamplerInfo {
    match sampler_info {
        Some(info) => info,
        None => default_sampler_info(),
    }
}

/// What creating a sampled image records, but for its sampler, where
/// `first` is the first handle that is handed out, and the `len` bytes
/// uploaded are staged at `start`.
///
/// In order: the staging buffer is created, filled and bound; the image is
/// created and given memory; the staging buffer is copied into level 0; the
/// staging buffer is destroyed; with `chain`, the mip levels are generated;
/// the view over all levels is created.
pub open spec fn sampled_image_ops(
    first: u64,
    start: u64,
    len: u64,
    pool: u64,
    queue: u64,
    extent: Extent2D,
    format: i32,
    levels: u32,
    chain: bool,
) -> Seq<DeviceOp> {
    let buffer = first;
    let buffer_memory = nth_handle(first, 1);
    let image = nth_handle(first, 2);
    let memory = nth_handle(first, 3);
    let size = byte_count(extent.width, extent.height, 4) as u64;
    create_buffer_ops(buffer, buffer_memory, size, BUFFER_USAGE_TRANSFER_SRC) + upload_ops(
        buffer_memory,
        size,
        start,
        len,
    ) + seq![DeviceOp::BindBufferMemory { buffer, memory: buffer_memory, offset: 0 }] + seq![
        DeviceOp::CreateImage {
            image,
            format,
            extent,
            mip_levels: levels,
            usage: if chain {
                MIPPED_IMAGE_USAGE
            } else {
                SAMPLED_IMAGE_USAGE
            },
        },
    ] + image_memory_ops(memory, image) + copy_ops(
        nth_handle(first, 4),
        nth_handle(first, 5),
        pool,
        queue,
        image,
        buffer,
        extent,
        levels,
        !chain,
    ) + destroy_buffer_ops(buffer, buffer_memory) + (if chain {
        mipmap_ops(
            nth_handle(first, 6),
            nth_handle(first, 7),
            pool,
            queue,
            image,
            extent.width,
            extent.height,
            levels,
        )
    } else {
        Seq::empty()
    }) + seq![
        DeviceOp::CreateImageView {
            view: nth_handle(
                first,
                if chain {
                    8
                } else {
                    6
                },
            ),
            image,
            format,
            mip_levels: levels,
            aspect: ImageAspect::Color,
        },
    ]
}

/// What creating a sampled image comes to, where the context was `before`
/// and is `after`, and `data` are the bytes of level 0.
///
/// The context is valid and differs in its record and its sampler cache
/// only. The cache has the sampler that the image uses. The image has the
/// third, the fourth and the last of the handles handed out, and is in the
/// shader-read layout. The record has grown by exactly the operations of
/// [`sampled_image_ops`] and of the sampler request. Those operations move
/// every level of the image from an undefined layout to the shader-read
/// layout, each finding the layouts and the objects it needs, and they leave
/// alive the image, its memory and its view, and nothing else that was not
/// alive before.
pub open spec fn image_created(
    before: VulkanInstance,
    after: VulkanInstance,
    created: VulkanImage,
    data: Seq<u8>,
    size: Extent2D,
    format: i32,
    levels: u32,
    chain: bool,
    sampler_info: Option<SamplerInfo>,
) -> bool {
    let first = before.device@.next_handle;
    let info = chosen_sampler(sampler_info);
    let recorded = after.device@.since(before.device@);
    &&& after.wf()
    &&& after.same_context(&before)
    &&& after.vulkan_cache@ == with_sampler(before.vulkan_cache@, info)
    &&& created == (VulkanImage {
        image: nth_handle(first, 2),
        image_view: nth_handle(
            first,
            if chain {
                8
            } else {
                6
            },
        ),
        sampler: handle_for(before.vulkan_cache@, info) as u64,
        memory: nth_handle(first, 3),
        mip_levels: levels,
        format,
        layout: ImageLayout::ShaderReadOnlyOptimal,
        destroyed: false,
    })
    &&& after.device@.follows(
        before.device@,
        sampled_image_ops(
            first,
            before.device@.payload.len() as u64,
            data.len() as u64,
            before.global_command_pool,
            before.graphics_queue,
            size,
            format,
            levels,
            chain,
        ) + sampler_ops(before.vulkan_cache@, info),
        data,
        sampled_image_handles(chain) as int,
    )
    &&& layouts_after(recorded, created.image, uniform(levels as nat, ImageLayout::Undefined))
        == Some(uniform(levels as nat, ImageLayout::ShaderReadOnlyOptimal))
    &&& alive(after.device@.ops) == alive(before.device@.ops).insert(created.image).insert(
        created.memory,
    ).insert(created.image_view)
    &&& in_order(recorded, alive(before.device@.ops))
}

/// Whether the view, the image and the memory of an image are alive and
/// are three objects.
pub open spec fn held_apart(alive: Set<u64>, view: u64, image: u64, memory: u64) -> bool {
    &&& alive.contains(view)
    &&& alive.contains(image)
    &&& alive.contains(memory)
    &&& view != image
    &&& view != memory
    &&& image != memory
}

/// What creating a depth target records: the image, its memory, its view.
pub open spec fn depth_image_ops(first: u64, format: i32, extent: Extent2D) -> Seq<DeviceOp> {
    seq![
        DeviceOp::CreateImage {
            image: first,
            format,
            extent,
            mip_levels: 1,
            usage: IMAGE_USAGE_DEPTH_STENCIL_ATTACHMENT,
        },
    ] + image_memory_ops(nth_handle(first, 1), first) + seq![
        DeviceOp::CreateImageView {
            view: nth_handle(first, 2),
            image: first,
            format,
            mip_levels: 1,
            aspect: ImageAspect::Depth,
        },
    ]
}

/// What destroying an image records: the view goes first, then the image,
/// then the memory. The sampler stays: it belongs to the cache.
pub open spec fn destroy_image_ops(view: u64, image: u64, memory: u64) -> Seq<DeviceOp> {
    seq![
        DeviceOp::DestroyImageView { view },
        DeviceOp::DestroyImage { image },
        DeviceOp::FreeMemory { memory },
    ]
}

/// The number of bytes of the four-channel pixels of an image of `size`;
/// `None` where they are more than a 32-bit size can say.
pub fn image_data_size(size: Extent2D) -> (bytes: Option<u32>)
    ensures
        bytes == if byte_count(size.width, size.height, 4) <= u32::MAX {
            Some(byte_count(size.width, size.height, 4) as u32)
        } else {
            None
        },
{
    let pixels: u64 = pixel_count(size.width, size.height);
    if pixels <= 0x3fff_ffff {
        Some((pixels * 4) as u32)
    } else {
        None
    }
}

/// A depth-stencil target: an image, its view and its memory. It has no
/// sampler and one mip level.
#[derive(Debug)]
pub struct DepthImage {
    pub image: u64,
    pub image_view: u64,
    pub memory: u64,
    pub destroyed: bool,
}

/// A sampled image: an image, its view, its memory, and the sampler it
/// shares with every image of the same sampler configuration.
#[derive(Debug)]
pub struct VulkanImage {
    pub image: u64,
    pub image_view: u64,
    pub sampler: u64,
    pub memory: u64,
    pub mip_levels: u32,
    pub format: i32,
    /// The layout that every mip level is in.
    pub layout: ImageLayout,
    pub destroyed: bool,
}

impl DepthImage {
    /// Destroy the view, then the image, then free the memory.
    pub fn destroy(&mut self, device: &mut Device)
        requires
            old(device).wf(),
            !old(self).destroyed,
        ensures
            final(self).destroyed,
            final(self).image == old(self).image,
            final(self).image_view == old(self).image_view,
            final(self).memory == old(self).memory,
            final(device)@.follows(
                old(device)@,
                destroy_image_ops(old(self).image_view, old(self).image, old(self).memory),
                Seq::empty(),
                0,
            ),
            alive(final(device)@.ops) == alive(old(device)@.ops).remove(
                old(self).image_view,
            ).remove(old(self).image).remove(old(self).memory),
            held_apart(
                alive(old(device)@.ops),
                old(self).image_view,
                old(self).image,
                old(self).memory,
            ) ==> in_order(final(device)@.since(old(device)@), alive(old(device)@.ops)),
    {
        device.record(DeviceOp::DestroyImageView { view: self.image_view });
        device.record(DeviceOp::DestroyImage { image: self.image });
        device.record(DeviceOp::FreeMemory { memory: self.memory });
        self.destroyed = true;
        proof {
            let destroyed = destroy_image_ops(
                old(self).image_view,
                old(self).image,
                old(self).memory,
            );
            assert(device@.ops =~= old(device)@.ops + destroyed);
            assert(device@.payload =~= old(device)@.payload + Seq::<u8>::empty());
            lemma_alive_follows(old(device)@, device@, destroyed, Seq::empty(), 0);
            lemma_destroy_image_releases(
                old(self).image_view,
                old(self).image,
                old(self).memory,
                alive(old(device)@.ops),
            );
            assert(device@.since(old(device)@) =~= destroyed);
            if held_apart(
                alive(old(device)@.ops),
                old(self).image_view,
                old(self).image,
                old(self).memory,
            ) {
                lemma_destroy_image_in_order(
                    old(self).image_view,
                    old(self).image,
                    old(self).memory,
                    alive(old(device)@.ops),
                );
            }
        }
    }
}

impl VulkanImage {
    /// Create a two-dimensional image with optimal tiling, one layer and one
    /// sample per texel.
    fn create_image(
        device: &mut Device,
        format: i32,
        size: Extent2D,
        mip_level: u32,
        usage: u32,
    ) -> (image: u64)
        requires
            old(device).wf(),
            old(device)@.room(1),
        ensures
            image == old(device)@.next_handle,
            final(device)@.follows(
                old(device)@,
                seq![
                    DeviceOp::CreateImage {
                        image,
                        format,
                        extent: size,
                        mip_levels: mip_level,
                        usage,
                    },
                ],
                Seq::empty(),
                1,
            ),
    {
        let image: u64 = device.fresh();
        device.record(
            DeviceOp::CreateImage { image, format, extent: size, mip_levels: mip_level, usage },
        );
        proof {
            assert(device@.ops =~= old(device)@.ops + seq![
                DeviceOp::CreateImage {
                    image,
                    format,
                    extent: size,
                    mip_levels: mip_level,
                    usage,
                },
            ]);
            assert(device@.payload =~= old(device)@.payload + Seq::<u8>::empty());
        }
        image
    }

    /// Create a two-dimensional view over the first `mip_level` levels of
    /// `image`.
    fn create_image_view(
        image: u64,
        device: &mut Device,
        format: i32,
        mip_level: u32,
        mask: ImageAspect,
    ) -> (view: u64)
        requires
            old(device).wf(),
            old(device)@.room(1),
        ensures
            view == old(device)@.next_handle,
            final(device)@.follows(
                old(device)@,
                seq![
                    DeviceOp::CreateImageView {
                        view,
                        image,
                        format,
                        mip_levels: mip_level,
                        aspect: mask,
                    },
                ],
                Seq::empty(),
                1,
            ),
    {
        let view: u64 = device.fresh();
        device.record(
            DeviceOp::CreateImageView { view, image, format, mip_levels: mip_level, aspect: mask },
        );
        proof {
            assert(device@.ops =~= old(device)@.ops + seq![
                DeviceOp::CreateImageView {
                    view,
                    image,
                    format,
                    mip_levels: mip_level,
                    aspect: mask,
                },
            ]);
            assert(device@.payload =~= old(device)@.payload + Seq::<u8>::empty());
        }
        view
    }

    /// Create a sampled image of `mip_level` levels from the bytes of its
    /// level 0, with the lower levels generated where `chain` says so.
    #[verifier::rlimit(40)]
    fn build(
        instance: &mut VulkanInstance,
        data: &[u8],
        size: Extent2D,
        format: i32,
        mip_level: u32,
        chain: bool,
        sampler_info: Option<SamplerInfo>,
    ) -> (created: VulkanImage)
        requires
            old(instance).wf(),
            old(instance).device@.room(sampled_image_handles(chain) as int),
            mip_level >= 1,
            byte_count(size.width, size.height, 4) <= u32::MAX,
            data@.len() <= byte_count(size.width, size.height, 4),
        ensures
            image_created(
                *old(instance),
                *final(instance),
                created,
                data@,
                size,
                format,
                mip_level,
                chain,
                sampler_info,
            ),
    {
        let ghost first = instance.device@.next_handle;
        let ghost start = instance.device@.payload.len() as u64;
        let ghost before = instance.device@.ops;
        let pool: u64 = instance.global_command_pool;
        let pixels: u64 = pixel_count(size.width, size.height);
        let image_data_size: u64 = pixels * 4;
        let mut staging_buffer = VulkanBuffer::new_init(
            &mut instance.device,
            image_data_size,
            BUFFER_USAGE_TRANSFER_SRC,
            data,
        );
        staging_buffer.bind(&mut instance.device);
        let ghost bound = instance.device@.ops;
        let usage: u32 = if chain {
            MIPPED_IMAGE_USAGE
        } else {
            SAMPLED_IMAGE_USAGE
        };
        let image: u64 = Self::create_image(&mut instance.device, format, size, mip_level, usage);
        let memory: u64 = VulkanBuffer::new_image(&mut instance.device, image);
        let ghost backed = instance.device@.ops;
        Self::copy_buffer_to_image(instance, image, &staging_buffer, pool, size, mip_level, !chain);
        staging_buffer.destroy(&mut instance.device);
        let ghost copied = instance.device@.ops;
        if chain {
            Self::generate_mipmaps(instance, image, pool, size.width, size.height, mip_level);
        }
        let ghost chained = instance.device@.ops;
        let image_view: u64 = Self::create_image_view(
            image,
            &mut instance.device,
            format,
            mip_level,
            ImageAspect::Color,
        );
        let ghost viewed = instance.device@.ops;
        let info: SamplerInfo = match sampler_info {
            Some(info) => info,
            None => SamplerInfo::default(),
        };
        let sampler: u64 = instance.vulkan_cache.get_sampler(&mut instance.device, info);
        proof {
            let queue = instance.graphics_queue;
            let buffer = first;
            let buffer_memory = nth_handle(first, 1);
            let t_buffer = create_buffer_ops(
                buffer,
                buffer_memory,
                image_data_size,
                BUFFER_USAGE_TRANSFER_SRC,
            ) + upload_ops(buffer_memory, image_data_size, start, data@.len() as u64);
            let t_bind = seq![DeviceOp::BindBufferMemory { buffer, memory: buffer_memory, offset: 0 }];
            let t_image = seq![
                DeviceOp::CreateImage {
                    image,
                    format,
                    extent: size,
                    mip_levels: mip_level,
                    usage,
                },
            ];
            let t_memory = image_memory_ops(memory, image);
            let t_copy = copy_ops(
                nth_handle(first, 4),
                nth_handle(first, 5),
                pool,
                queue,
                image,
                buffer,
                size,
                mip_level,
                !chain,
            );
            let t_destroy = destroy_buffer_ops(buffer, buffer_memory);
            let t_chain = if chain {
                mipmap_ops(
                    nth_handle(first, 6),
                    nth_handle(first, 7),
                    pool,
                    queue,
                    image,
                    size.width,
                    size.height,
                    mip_level,
                )
            } else {
                Seq::empty()
            };
            let t_view = seq![
                DeviceOp::CreateImageView {
                    view: image_view,
                    image,
                    format,
                    mip_levels: mip_level,
                    aspect: ImageAspect::Color,
                },
            ];
            let t_sampler = sampler_ops(old(instance).vulkan_cache@, info);
            assert(bound =~= before + t_buffer + t_bind);
            assert(backed =~= bound + t_image + t_memory);
            assert(copied =~= backed + t_copy + t_destroy);
            assert(chained =~= copied + t_chain);
            assert(viewed =~= chained + t_view);
            let all = sampled_image_ops(
                first,
                start,
                data@.len() as u64,
                pool,
                queue,
                size,
                format,
                mip_level,
                chain,
            );
            assert(all =~= t_buffer + t_bind + t_image + t_memory + t_copy + t_destroy + t_chain
                + t_view);
            assert(viewed =~= before + all);
            assert(instance.device@.ops =~= before + (all + t_sampler));
            assert(instance.device@.payload =~= old(instance).device@.payload + data@);
            assert(instance.device@.since(old(instance).device@) =~= all + t_sampler);
            lemma_sampled_image_record_layouts(
                first,
                start,
                data@.len() as u64,
                pool,
                queue,
                size,
                format,
                mip_level,
                chain,
                old(instance).vulkan_cache@,
                info,
            );
            lemma_sampled_image_record_lifetime(
                old(instance).device@,
                old(instance).vulkan_cache@,
                info,
                data@.len() as u64,
                pool,
                queue,
                size,
                format,
                mip_level,
                chain,
            );
            lemma_next_handles_unused(old(instance).device@, sampled_image_handles(chain));
            lemma_sampled_image_in_order(
                first,
                start,
                data@.len() as u64,
                pool,
                queue,
                size,
                format,
                mip_level,
                chain,
                old(instance).vulkan_cache@,
                info,
                alive(old(instance).device@.ops),
            );
        }
        VulkanImage {
            image,
            image_view,
            sampler,
            memory,
            mip_levels: mip_level,
            format,
            layout: ImageLayout::ShaderReadOnlyOptimal,
            destroyed: false,
        }
    }

    /// Create a sampled image of one mip level from four-channel pixel
    /// bytes.
    ///
    /// The bytes go through a staging buffer, which is destroyed once the
    /// copy is recorded. The image comes out in the shader-read layout, with
    /// the sampler that the cache holds for its configuration.
    pub fn new(
        instance: &mut VulkanInstance,
        data: &[u8],
        image_size: Extent2D,
        format: i32,
        sampler_info: Option<SamplerInfo>,
    ) -> (created: VulkanImage)
        requires
            old(instance).wf(),
            old(instance).device@.room(SAMPLED_IMAGE_HANDLES as int),
            byte_count(image_size.width, image_size.height, 4) <= u32::MAX,
            data@.len() <= byte_count(image_size.width, image_size.height, 4),
        ensures
            image_created(
                *old(instance),
                *final(instance),
                created,
                data@,
                image_size,
                format,
                1,
                false,
                sampler_info,
            ),
    {
        Self::build(instance, data, image_size, format, 1, false, sampler_info)
    }

    /// Create a sampled image with a full mip chain from the bytes of its
    /// level 0, in the format of four 8-bit normalized channels.
    ///
    /// The number of levels is [`mip_levels`] of the size. Level 0 is
    /// uploaded through a staging buffer, the lower levels are generated by
    /// blits, and every level comes out in the shader-read layout.
    pub fn from_pixels(
        instance: &mut VulkanInstance,
        data: &[u8],
        image_size: Extent2D,
        sampler_info: Option<SamplerInfo>,
    ) -> (created: VulkanImage)
        requires
            old(instance).wf(),
            old(instance).device@.room(MIPPED_IMAGE_HANDLES as int),
            byte_count(image_size.width, image_size.height, 4) <= u32::MAX,
            data@.len() <= byte_count(image_size.width, image_size.height, 4),
        ensures
            created.mip_levels == mip_levels(image_size.width, image_size.height),
            1 <= created.mip_levels <= 32,
            image_created(
                *old(instance),
                *final(instance),
                created,
                data@,
                image_size,
                FORMAT_R8G8B8A8_UNORM,
                created.mip_levels,
                true,
                sampler_info,
            ),
    {
        let mip_level: u32 = mip_level_count(image_size.width, image_size.height);
        Self::build(
            instance,
            data,
            image_size,
            FORMAT_R8G8B8A8_UNORM,
            mip_level,
            true,
            sampler_info,
        )
    }

    /// Create a sampled image with a full mip chain from a decoded image.
    ///
    /// The pixels are normalized to four channels first: what is uploaded is
    /// [`normalized`] of the image. The rest is [`VulkanImage::from_pixels`].
    pub fn from_image(
        instance: &mut VulkanInstance,
        image: DecodedImage,
        sampler_info: Option<SamplerInfo>,
    ) -> (created: VulkanImage)
        requires
            old(instance).wf(),
            old(instance).device@.room(MIPPED_IMAGE_HANDLES as int),
            image.wf(),
            byte_count(image.width, image.height, 4) <= u32::MAX,
        ensures
            created.mip_levels == mip_levels(image.width, image.height),
            1 <= created.mip_levels <= 32,
            image_created(
                *old(instance),
                *final(instance),
                created,
                normalized(image),
                (Extent2D { width: image.width, height: image.height }),
                FORMAT_R8G8B8A8_UNORM,
                created.mip_levels,
                true,
                sampler_info,
            ),
    {
        let image_size = Extent2D { width: image.width, height: image.height };
        let image_data = image.normalize();
        Self::from_pixels(instance, image_data.as_slice(), image_size, sampler_info)
    }

    /// Create a depth-stencil target of the given size: one mip level,
    /// device-local memory, no upload and no sampler.
    pub fn new_depth(device: &mut Device, format: i32, size: Extent2D) -> (created: DepthImage)
        requires
            old(device).wf(),
            old(device)@.room(DEPTH_IMAGE_HANDLES as int),
        ensures
            created == (DepthImage {
                image: old(device)@.next_handle,
                image_view: nth_handle(old(device)@.next_handle, 2),
                memory: nth_handle(old(device)@.next_handle, 1),
                destroyed: false,
            }),
            final(device)@.follows(
                old(device)@,
                depth_image_ops(old(device)@.next_handle, format, size),
                Seq::empty(),
                3,
            ),
            alive(final(device)@.ops) == alive(old(device)@.ops).insert(created.image).insert(
                created.memory,
            ).insert(created.image_view),
            in_order(final(device)@.since(old(device)@), alive(old(device)@.ops)),
    {
        let image: u64 = Self::create_image(
            device,
            format,
            size,
            1,
            IMAGE_USAGE_DEPTH_STENCIL_ATTACHMENT,
        );
        let memory: u64 = VulkanBuffer::new_image(device, image);
        let image_view: u64 = Self::create_image_view(
            image,
            device,
            format,
            1,
            ImageAspect::Depth,
        );
        proof {
            assert(device@.ops =~= old(device)@.ops + depth_image_ops(image, format, size));
            assert(device@.payload =~= old(device)@.payload + Seq::<u8>::empty());
            lemma_alive_follows(
                old(device)@,
                device@,
                depth_image_ops(image, format, size),
                Seq::empty(),
                3,
            );
            lemma_depth_image_lifetime(image, format, size, alive(old(device)@.ops));
            assert(device@.since(old(device)@) =~= depth_image_ops(image, format, size));
            lemma_next_handles_unused(old(device)@, 3);
            lemma_depth_image_in_order(image, format, size, alive(old(device)@.ops));
        }
        DepthImage { image, image_view, memory, destroyed: false }
    }

    /// Create a sampled image of one colour, with a full mip chain and the
    /// default sampler: a texture to stand in where none is at hand.
    pub fn from_color(instance: &mut VulkanInstance, color: [u8; 4], size: Extent2D) -> (created:
        VulkanImage)
        requires
            old(instance).wf(),
            old(instance).device@.room(MIPPED_IMAGE_HANDLES as int),
            byte_count(size.width, size.height, 4) <= u32::MAX,
        ensures
            created.mip_levels == mip_levels(size.width, size.height),
            1 <= created.mip_levels <= 32,
            image_created(
                *old(instance),
                *final(instance),
                created,
                solid_rgba8(size.width, size.height, color@),
                size,
                FORMAT_R8G8B8A8_UNORM,
                created.mip_levels,
                true,
                None,
            ),
    {
        let color_img = DecodedImage::solid(color, size.width, size.height);
        Self::from_image(instance, color_img, None)
    }

    /// Destroy the view, then the image, then free the memory. The sampler
    /// is left alone: it is the cache's.
    pub fn destroy(&mut self, device: &mut Device)
        requires
            old(device).wf(),
            !old(self).destroyed,
        ensures
            final(self).destroyed,
            final(self).image == old(self).image,
            final(self).image_view == old(self).image_view,
            final(self).sampler == old(self).sampler,
            final(self).memory == old(self).memory,
            final(self).mip_levels == old(self).mip_levels,
            final(self).format == old(self).format,
            final(self).layout == old(self).layout,
            final(device)@.follows(
                old(device)@,
                destroy_image_ops(old(self).image_view, old(self).image, old(self).memory),
                Seq::empty(),
                0,
            ),
            alive(final(device)@.ops) == alive(old(device)@.ops).remove(
                old(self).image_view,
            ).remove(old(self).image).remove(old(self).memory),
            held_apart(
                alive(old(device)@.ops),
                old(self).image_view,
                old(self).image,
                old(self).memory,
            ) ==> in_order(final(device)@.since(old(device)@), alive(old(device)@.ops)),
    {
        device.record(DeviceOp::DestroyImageView { view: self.image_view });
        device.record(DeviceOp::DestroyImage { image: self.image });
        device.record(DeviceOp::FreeMemory { memory: self.memory });
        self.destroyed = true;
        proof {
            let destroyed = destroy_image_ops(
                old(self).image_view,
                old(self).image,
                old(self).memory,
            );
            assert(device@.ops =~= old(device)@.ops + destroyed);
            assert(device@.payload =~= old(device)@.payload + Seq::<u8>::empty());
            lemma_alive_follows(old(device)@, device@, destroyed, Seq::empty(), 0);
            lemma_destroy_image_releases(
                old(self).image_view,
                old(self).image,
                old(self).memory,
                alive(old(device)@.ops),
            );
            assert(device@.since(old(device)@) =~= destroyed);
            if held_apart(
                alive(old(device)@.ops),
                old(self).image_view,
                old(self).image,
                old(self).memory,
            ) {
                lemma_destroy_image_in_order(
                    old(self).image_view,
                    old(self).image,
                    old(self).memory,
                    alive(old(device)@.ops),
                );
            }
        }
    }

    /// Copy the staging buffer into mip level 0 of `image`, in one
    /// single-use command buffer.
    ///
    /// All `mip_level` levels are first moved from the layout they were
    /// created in to the transfer-destination layout. With `make_ready`
    /// they are moved on to the shader-read layout after the copy.
    pub fn copy_buffer_to_image(
        instance: &mut VulkanInstance,
        image: u64,
        staging_buffer: &VulkanBuffer,
        command_pool: u64,
        size: Extent2D,
        mip_level: u32,
        make_ready: bool,
    )
        requires
            old(instance).wf(),
            old(instance).device@.room(TRANSFER_HANDLES as int),
            staging_buffer.state == BufferState::Bound,
        ensures
            final(instance).same_context(old(instance)),
            final(instance).vulkan_cache == old(instance).vulkan_cache,
            final(instance).device@.follows(
                old(instance).device@,
                copy_ops(
                    old(instance).device@.next_handle,
                    (old(instance).device@.next_handle + 1) as u64,
                    command_pool,
                    old(instance).graphics_queue,
                    image,
                    staging_buffer.buffer,
                    size,
                    mip_level,
                    make_ready,
                ),
                Seq::empty(),
                2,
            ),
            alive(final(instance).device@.ops) == alive(old(instance).device@.ops),
            alive(old(instance).device@.ops).contains(image) && alive(
                old(instance).device@.ops,
            ).contains(staging_buffer.buffer) ==> in_order(
                final(instance).device@.since(old(instance).device@),
                alive(old(instance).device@.ops),
            ),
    {
        let queue: u64 = instance.graphics_queue;
        let command_buffer: u64 = begin_single_time_command(&mut instance.device, command_pool);
        instance.device.record(
            DeviceOp::CmdPipelineBarrier {
                command_buffer,
                barrier: ImageBarrier {
                    image,
                    base_mip_level: 0,
                    level_count: mip_level,
                    old_layout: ImageLayout::Undefined,
                    new_layout: ImageLayout::TransferDstOptimal,
                    src_access: Access::NoAccess,
                    dst_access: Access::TransferWrite,
                    src_stage: Stage::TopOfPipe,
                    dst_stage: Stage::Transfer,
                },
            },
        );
        instance.device.record(
            DeviceOp::CmdCopyBufferToImage {
                command_buffer,
                buffer: staging_buffer.buffer,
                image,
                extent: size,
            },
        );
        if make_ready {
            instance.device.record(
                DeviceOp::CmdPipelineBarrier {
                    command_buffer,
                    barrier: ImageBarrier {
                        image,
                        base_mip_level: 0,
                        level_count: mip_level,
                        old_layout: ImageLayout::TransferDstOptimal,
                        new_layout: ImageLayout::ShaderReadOnlyOptimal,
                        src_access: Access::TransferWrite,
                        dst_access: Access::ShaderRead,
                        src_stage: Stage::Transfer,
                        dst_stage: Stage::FragmentShader,
                    },
                },
            );
        }
        end_single_time_command(&mut instance.device, command_pool, queue, command_buffer);
        proof {
            let fence = (command_buffer + 1) as u64;
            let recorded = copy_ops(
                command_buffer,
                fence,
                command_pool,
                queue,
                image,
                staging_buffer.buffer,
                size,
                mip_level,
                make_ready,
            );
            assert(instance.device@.ops =~= old(instance).device@.ops + recorded);
            assert(instance.device@.payload =~= old(instance).device@.payload + Seq::<u8>::empty());
            lemma_alive_follows(old(instance).device@, instance.device@, recorded, Seq::empty(), 2);
            lemma_next_handles_unused(old(instance).device@, 2);
            assert(command_buffer == nth_handle(command_buffer, 0));
            assert(fence == nth_handle(command_buffer, 1));
            lemma_upload_releases(
                command_buffer,
                fence,
                command_pool,
                queue,
                image,
                staging_buffer.buffer,
                size,
                mip_level,
                make_ready,
                alive(old(instance).device@.ops),
            );
            assert(instance.device@.since(old(instance).device@) =~= recorded);
            if alive(old(instance).device@.ops).contains(image) && alive(
                old(instance).device@.ops,
            ).contains(staging_buffer.buffer) {
                lemma_upload_in_order(
                    command_buffer,
                    fence,
                    command_pool,
                    queue,
                    image,
                    staging_buffer.buffer,
                    size,
                    mip_level,
                    make_ready,
                    alive(old(instance).device@.ops),
                );
            }
        }
    }

    /// Fill mip levels 1 to `mip_level - 1` of `image`, each by a blit with
    /// linear filtering from the level above, in one single-use command
    /// buffer.
    ///
    /// Every level is expected in the transfer-destination layout. Each
    /// level that is blitted from is moved to the transfer-source layout
    /// before and to the shader-read layout after; the last level, which is
    /// never blitted from, is moved to the shader-read layout at the end.
    pub fn generate_mipmaps(
        instance: &mut VulkanInstance,
        image: u64,
        command_pool: u64,
        width: u32,
        height: u32,
        mip_level: u32,
    )
        requires
            old(instance).wf(),
            old(instance).device@.room(TRANSFER_HANDLES as int),
            mip_level >= 1,
        ensures
            final(instance).same_context(old(instance)),
            final(instance).vulkan_cache == old(instance).vulkan_cache,
            final(instance).device@.follows(
                old(instance).device@,
                mipmap_ops(
                    old(instance).device@.next_handle,
                    (old(instance).device@.next_handle + 1) as u64,
                    command_pool,
                    old(instance).graphics_queue,
                    image,
                    width,
                    height,
                    mip_level,
                ),
                Seq::empty(),
                2,
            ),
            layouts_after(
                final(instance).device@.since(old(instance).device@),
                image,
                uniform(mip_level as nat, ImageLayout::TransferDstOptimal),
            ) == Some(uniform(mip_level as nat, ImageLayout::ShaderReadOnlyOptimal)),
            forall|i: int|
                old(instance).device@.ops.len() <= i < final(instance).device@.ops.len()
                    ==> blit_target_positive(#[trigger] final(instance).device@.ops[i]),
            alive(final(instance).device@.ops) == alive(old(instance).device@.ops),
            alive(old(instance).device@.ops).contains(image) ==> in_order(
                final(instance).device@.since(old(instance).device@),
                alive(old(instance).device@.ops),
            ),
    {
        let queue: u64 = instance.graphics_queue;
        let command_buffer: u64 = begin_single_time_command(&mut instance.device, command_pool);
        let ghost begun = instance.device@;
        let mut mip_width: u32 = width;
        let mut mip_height: u32 = height;
        let mut i: u32 = 1;
        proof {
            assert(begun.ops =~= begun.ops + mip_chain(command_buffer, image, width, height, 0));
        }
        while i < mip_level
            invariant
                1 <= i <= mip_level,
                instance.device.wf(),
                instance.vulkan_cache == old(instance).vulkan_cache,
                instance.same_context(old(instance)),
                instance.device@.ops == begun.ops + mip_chain(
                    command_buffer,
                    image,
                    width,
                    height,
                    (i - 1) as nat,
                ),
                instance.device@.payload == begun.payload,
                instance.device@.next_handle == begun.next_handle,
                mip_width == mip_extent(width, (i - 1) as nat),
                mip_height == mip_extent(height, (i - 1) as nat),
            decreases mip_level - i,
        {
            let ghost before = instance.device@.ops;
            instance.device.record(
                DeviceOp::CmdPipelineBarrier {
                    command_buffer,
                    barrier: ImageBarrier {
                        image,
                        base_mip_level: i - 1,
                        level_count: 1,
                        old_layout: ImageLayout::TransferDstOptimal,
                        new_layout: ImageLayout::TransferSrcOptimal,
                        src_access: Access::TransferWrite,
                        dst_access: Access::TransferRead,
                        src_stage: Stage::Transfer,
                        dst_stage: Stage::Transfer,
                    },
                },
            );
            instance.device.record(
                DeviceOp::CmdBlitImage {
                    command_buffer,
                    image,
                    blit: ImageBlit {
                        src_level: i - 1,
                        dst_level: i,
                        src_width: mip_width,
                        src_height: mip_height,
                        dst_width: if mip_width > 1 {
                            mip_width / 2
                        } else {
                            1
                        },
                        dst_height: if mip_height > 1 {
                            mip_height / 2
                        } else {
                            1
                        },
                    },
                    filter: Filter::Linear,
                },
            );
            instance.device.record(
                DeviceOp::CmdPipelineBarrier {
                    command_buffer,
                    barrier: ImageBarrier {
                        image,
                        base_mip_level: i - 1,
                        level_count: 1,
                        old_layout: ImageLayout::TransferSrcOptimal,
                        new_layout: ImageLayout::ShaderReadOnlyOptimal,
                        src_access: Access::TransferRead,
                        dst_access: Access::ShaderRead,
                        src_stage: Stage::Transfer,
                        dst_stage: Stage::FragmentShader,
                    },
                },
            );
            if mip_width > 1 {
                mip_width = mip_width / 2;
            }
            if mip_height > 1 {
                mip_height = mip_height / 2;
            }
            proof {
                assert(instance.device@.ops =~= before + mip_step(
                    command_buffer,
                    image,
                    width,
                    height,
                    i as nat,
                ));
                assert(instance.device@.ops =~= begun.ops + mip_chain(
                    command_buffer,
                    image,
                    width,
                    height,
                    i as nat,
                ));
            }
            i = i + 1;
        }
        instance.device.record(
            DeviceOp::CmdPipelineBarrier {
                command_buffer,
                barrier: ImageBarrier {
                    image,
                    base_mip_level: mip_level - 1,
                    level_count: 1,
                    old_layout: ImageLayout::TransferDstOptimal,
                    new_layout: ImageLayout::ShaderReadOnlyOptimal,
                    src_access: Access::TransferWrite,
                    dst_access: Access::ShaderRead,
                    src_stage: Stage::Blit,
                    dst_stage: Stage::FragmentShader,
                },
            },
        );
        end_single_time_command(&mut instance.device, command_pool, queue, command_buffer);
        proof {
            let fence = (command_buffer + 1) as u64;
            let recorded = mipmap_ops(
                command_buffer,
                fence,
                command_pool,
                queue,
                image,
                width,
                height,
                mip_level,
            );
            assert(instance.device@.ops =~= old(instance).device@.ops + recorded);
            assert(instance.device@.payload =~= old(instance).device@.payload + Seq::<u8>::empty());
            assert(instance.device@.since(old(instance).device@) =~= recorded);
            lemma_mipmaps_leave_levels_readable(
                command_buffer,
                fence,
                command_pool,
                queue,
                image,
                width,
                height,
                mip_level,
            );
            lemma_alive_follows(
                old(instance).device@,
                instance.device@,
                recorded,
                Seq::empty(),
                2,
            );
            lemma_next_handles_unused(old(instance).device@, 2);
            assert(command_buffer == nth_handle(command_buffer, 0));
            assert(fence == nth_handle(command_buffer, 1));
            lemma_mipmaps_release(
                command_buffer,
                fence,
                command_pool,
                queue,
                image,
                width,
                height,
                mip_level,
                alive(old(instance).device@.ops),
            );
            if alive(old(instance).device@.ops).contains(image) {
                lemma_mipmaps_in_order(
                    command_buffer,
                    fence,
                    command_pool,
                    queue,
                    image,
                    width,
                    height,
                    mip_level,
                    alive(old(instance).device@.ops),
                );
            }
            assert forall|i: int|
                old(instance).device@.ops.len() <= i
                    < instance.device@.ops.len() implies blit_target_positive(
                #[trigger] instance.device@.ops[i],
            ) by {
                lemma_mipmap_blits_positive(
                    command_buffer,
                    fence,
                    command_pool,
                    queue,
                    image,
                    width,
                    height,
                    mip_level,
                    i - old(instance).device@.ops.len(),
                );
            }
        }
    }
}

/// Whether `op` is a command: something recorded into a command buffer.
pub open spec fn is_command(op: DeviceOp) -> bool {
    match op {
        DeviceOp::CmdPipelineBarrier { .. } => true,
        DeviceOp::CmdCopyBufferToImage { .. } => true,
        DeviceOp::CmdBlitImage { .. } => true,
        _ => false,
    }
}

/// Everything in a mip chain is a command.
pub proof fn lemma_chain_is_commands(
    command_buffer: u64,
    image: u64,
    width: u32,
    height: u32,
    last: nat,
    i: int,
)
    requires
        0 <= i < mip_chain(command_buffer, image, width, height, last).len(),
    ensures
        is_command(mip_chain(command_buffer, image, width, height, last)[i]),
    decreases last,
{
    if last > 0 {
        let earlier = mip_chain(command_buffer, image, width, height, (last - 1) as nat);
        if i < earlier.len() {
            lemma_chain_is_commands(command_buffer, image, width, height, (last - 1) as nat, i);
        }
    }
}

/// Between the opening and the closing of its single-use command buffer,
/// an upload records commands and nothing else.
pub proof fn lemma_upload_is_commands(
    command_buffer: u64,
    image: u64,
    buffer: u64,
    extent: Extent2D,
    levels: u32,
    make_ready: bool,
)
    ensures
        forall|i: int|
            0 <= i < copy_commands(
                command_buffer,
                image,
                buffer,
                extent,
                levels,
                make_ready,
            ).len() ==> is_command(
                #[trigger] copy_commands(command_buffer, image, buffer, extent, levels, make_ready)[i],
            ),
{
}

/// Between the opening and the closing of its single-use command buffer, a
/// mip generation records commands and nothing else.
pub proof fn lemma_mipmaps_are_commands(
    command_buffer: u64,
    image: u64,
    width: u32,
    height: u32,
    levels: u32,
)
    requires
        levels >= 1,
    ensures
        forall|i: int|
            0 <= i < mipmap_commands(command_buffer, image, width, height, levels).len()
                ==> is_command(
                #[trigger] mipmap_commands(command_buffer, image, width, height, levels)[i],
            ),
{
    let commands = mipmap_commands(command_buffer, image, width, height, levels);
    let chain = mip_chain(command_buffer, image, width, height, (levels - 1) as nat);
    assert forall|i: int| 0 <= i < commands.len() implies is_command(#[trigger] commands[i]) by {
        if i < chain.len() {
            lemma_chain_is_commands(command_buffer, image, width, height, (levels - 1) as nat, i);
        }
    }
}

} // verus!
