use vent::device::{
    DeviceOp, Extent2D, ImageAspect, ImageLayout, SamplerInfo, Filter, Device,
};
use vent::image::{image_data_size, DepthImage, VulkanImage};
use vent::instance::VulkanInstance;
use vent::pixels::{ChannelLayout, DecodedImage};

fn instance() -> VulkanInstance {
    VulkanInstance::new(Vec::new(), 70, 80)
}

/// Follows the barriers of a record over the levels of one image, and
/// panics where a command finds a level in another layout than it needs.
fn layouts_of(ops: &[DeviceOp], image: u64, levels: u32) -> Vec<ImageLayout> {
    let mut layouts = vec![ImageLayout::Undefined; levels as usize];
    for op in ops {
        match *op {
            DeviceOp::CmdPipelineBarrier { barrier, .. } if barrier.image == image => {
                let from = barrier.base_mip_level as usize;
                for level in from..from + barrier.level_count as usize {
                    if barrier.old_layout != ImageLayout::Undefined {
                        assert_eq!(layouts[level], barrier.old_layout);
                    }
                    layouts[level] = barrier.new_layout;
                }
            }
            DeviceOp::CmdCopyBufferToImage { image: target, .. } if target == image => {
                assert_eq!(layouts[0], ImageLayout::TransferDstOptimal);
            }
            DeviceOp::CmdBlitImage { image: target, blit, .. } if target == image => {
                assert_eq!(layouts[blit.src_level as usize], ImageLayout::TransferSrcOptimal);
                assert_eq!(layouts[blit.dst_level as usize], ImageLayout::TransferDstOptimal);
            }
            _ => {}
        }
    }
    layouts
}

fn position(ops: &[DeviceOp], wanted: DeviceOp) -> usize {
    ops.iter().position(|op| *op == wanted).unwrap()
}

#[test]
fn new_image_from_bytes_has_one_level_and_is_readable() {
    let mut instance = instance();
    let size = Extent2D { width: 2, height: 2 };
    let data: Vec<u8> = (0..16).collect();
    let image = VulkanImage::new(&mut instance, &data, size, 43, None);
    assert_eq!(image.mip_levels, 1);
    assert_eq!(image.format, 43);
    assert!(!image.destroyed);
    assert_eq!((image.image, image.memory, image.image_view, image.sampler), (3, 4, 7, 0));
    assert_eq!(instance.device.payload(), &data);
    let ops = instance.device.ops();
    assert_eq!(ops[0], DeviceOp::CreateBuffer { buffer: 1, size: 16, usage: 0x1 });
    assert_eq!(
        ops[6],
        DeviceOp::CreateImage { image: 3, format: 43, extent: size, mip_levels: 1, usage: 0x6 }
    );
    assert_eq!(
        ops[ops.len() - 2],
        DeviceOp::CreateImageView {
            view: 7,
            image: 3,
            format: 43,
            mip_levels: 1,
            aspect: ImageAspect::Color,
        }
    );
    assert_eq!(
        ops[ops.len() - 1],
        DeviceOp::CreateSampler { sampler: 0, info: SamplerInfo::default() }
    );
    assert_eq!(ops.len(), 2 + 3 + 1 + 1 + 2 + 11 + 2 + 1 + 1);
    assert_eq!(
        layouts_of(ops, image.image, 1),
        vec![ImageLayout::ShaderReadOnlyOptimal]
    );
}

#[test]
fn new_image_binds_its_staging_buffer_before_the_copy_and_destroys_it_after() {
    let mut instance = instance();
    let size = Extent2D { width: 1, height: 1 };
    VulkanImage::new(&mut instance, &[1, 2, 3, 4], size, 37, None);
    let ops = instance.device.ops();
    let bound = position(ops, DeviceOp::BindBufferMemory { buffer: 1, memory: 2, offset: 0 });
    let memory = position(ops, DeviceOp::BindImageMemory { image: 3, memory: 4, offset: 0 });
    let copy = position(
        ops,
        DeviceOp::CmdCopyBufferToImage { command_buffer: 5, buffer: 1, image: 3, extent: size },
    );
    let waited = position(ops, DeviceOp::WaitForFence { fence: 6, timeout: 100_000_000_000 });
    let destroyed = position(ops, DeviceOp::DestroyBuffer { buffer: 1 });
    let freed = position(ops, DeviceOp::FreeMemory { memory: 2 });
    assert!(bound < copy);
    assert!(memory < copy);
    assert!(copy < waited);
    assert!(waited < destroyed);
    assert!(destroyed < freed);
}

#[test]
fn from_pixels_builds_the_full_chain() {
    let mut instance = instance();
    let size = Extent2D { width: 8, height: 4 };
    let data = vec![7u8; 8 * 4 * 4];
    let image = VulkanImage::from_pixels(&mut instance, &data, size, None);
    assert_eq!(image.mip_levels, 4);
    assert_eq!(image.format, 37);
    assert_eq!((image.image, image.memory, image.image_view, image.sampler), (3, 4, 9, 0));
    let ops = instance.device.ops();
    assert_eq!(
        ops[6],
        DeviceOp::CreateImage { image: 3, format: 37, extent: size, mip_levels: 4, usage: 0x7 }
    );
    let blits = ops.iter().filter(|op| matches!(op, DeviceOp::CmdBlitImage { .. })).count();
    assert_eq!(blits, 3);
    assert_eq!(
        layouts_of(ops, image.image, 4),
        vec![ImageLayout::ShaderReadOnlyOptimal; 4]
    );
    assert_eq!(instance.device.next_handle(), 10);
}

#[test]
fn images_of_many_sizes_come_out_readable() {
    for (width, height) in [(1u32, 1u32), (2, 2), (3, 1), (1, 9), (16, 16), (33, 17), (300, 300)] {
        let mut instance = instance();
        let size = Extent2D { width, height };
        let data = vec![0u8; (width * height * 4) as usize];
        let image = VulkanImage::from_pixels(&mut instance, &data, size, None);
        assert_eq!(
            layouts_of(instance.device.ops(), image.image, image.mip_levels),
            vec![ImageLayout::ShaderReadOnlyOptimal; image.mip_levels as usize]
        );
    }
}

#[test]
fn from_image_uploads_the_normalized_pixels() {
    let mut instance = instance();
    let decoded = DecodedImage::new(2, 1, ChannelLayout::Rgb, vec![1, 2, 3, 4, 5, 6]).unwrap();
    let image = VulkanImage::from_image(&mut instance, decoded, None);
    assert_eq!(instance.device.payload(), &vec![1, 2, 3, 255, 4, 5, 6, 255]);
    assert_eq!(image.mip_levels, 2);
    assert_eq!(
        instance.device.ops()[3],
        DeviceOp::WriteMapped { memory: 2, start: 0, len: 8 }
    );
}

#[test]
fn from_image_uploads_luma_as_grey() {
    let mut instance = instance();
    let decoded = DecodedImage::new(1, 2, ChannelLayout::Luma, vec![0, 200]).unwrap();
    VulkanImage::from_image(&mut instance, decoded, None);
    assert_eq!(instance.device.payload(), &vec![0, 0, 0, 255, 200, 200, 200, 255]);
}

#[test]
fn from_image_uploads_luma_alpha_as_it_is() {
    let mut instance = instance();
    let decoded = DecodedImage::new(2, 1, ChannelLayout::LumaAlpha, vec![9, 8, 7, 6]).unwrap();
    VulkanImage::from_image(&mut instance, decoded, None);
    assert_eq!(instance.device.payload(), &vec![9, 8, 7, 6]);
    assert_eq!(
        instance.device.ops()[2],
        DeviceOp::MapMemory { memory: 2, offset: 0, size: 8 }
    );
    assert_eq!(
        instance.device.ops()[3],
        DeviceOp::WriteMapped { memory: 2, start: 0, len: 4 }
    );
}

#[test]
fn from_color_fills_every_texel() {
    let mut instance = instance();
    let size = Extent2D { width: 2, height: 2 };
    let image = VulkanImage::from_color(&mut instance, [10, 20, 30, 40], size);
    assert_eq!(
        instance.device.payload(),
        &vec![10, 20, 30, 40, 10, 20, 30, 40, 10, 20, 30, 40, 10, 20, 30, 40]
    );
    assert_eq!(image.mip_levels, 2);
    assert_eq!(image.sampler, 0);
    assert_eq!(
        layouts_of(instance.device.ops(), image.image, 2),
        vec![ImageLayout::ShaderReadOnlyOptimal; 2]
    );
}

#[test]
fn images_with_one_sampler_configuration_share_the_sampler() {
    let mut instance = instance();
    let size = Extent2D { width: 1, height: 1 };
    let nearest = SamplerInfo { mag_filter: Filter::Nearest, ..SamplerInfo::default() };
    let a = VulkanImage::new(&mut instance, &[0; 4], size, 37, None);
    let b = VulkanImage::new(&mut instance, &[0; 4], size, 37, Some(nearest));
    let c = VulkanImage::from_color(&mut instance, [0; 4], size);
    let d = VulkanImage::new(&mut instance, &[0; 4], size, 37, Some(nearest));
    assert_eq!(a.sampler, c.sampler);
    assert_eq!(b.sampler, d.sampler);
    assert_ne!(a.sampler, b.sampler);
    let samplers = instance
        .device
        .ops()
        .iter()
        .filter(|op| matches!(op, DeviceOp::CreateSampler { .. }))
        .count();
    assert_eq!(samplers, 2);
    assert_ne!(a.image, b.image);
    assert_ne!(a.image_view, b.image_view);
    assert_ne!(a.memory, b.memory);
}

#[test]
fn destroy_releases_view_then_image_then_memory() {
    let mut instance = instance();
    let size = Extent2D { width: 4, height: 4 };
    let mut image = VulkanImage::from_color(&mut instance, [1, 1, 1, 1], size);
    let before = instance.device.ops().len();
    image.destroy(&mut instance.device);
    assert!(image.destroyed);
    assert_eq!(
        &instance.device.ops()[before..],
        &[
            DeviceOp::DestroyImageView { view: image.image_view },
            DeviceOp::DestroyImage { image: image.image },
            DeviceOp::FreeMemory { memory: image.memory },
        ]
    );
}

#[test]
fn destroy_leaves_the_sampler_to_the_cache() {
    let mut instance = instance();
    let size = Extent2D { width: 1, height: 1 };
    let mut image = VulkanImage::new(&mut instance, &[0; 4], size, 37, None);
    image.destroy(&mut instance.device);
    assert!(!instance
        .device
        .ops()
        .iter()
        .any(|op| matches!(op, DeviceOp::DestroySampler { .. })));
    assert_eq!(instance.vulkan_cache.len(), 1);
    let next = VulkanImage::new(&mut instance, &[0; 4], size, 37, None);
    assert_eq!(next.sampler, image.sampler);
}

#[test]
fn new_depth_has_no_upload_and_no_sampler() {
    let mut device = Device::new();
    let size = Extent2D { width: 640, height: 480 };
    let depth = VulkanImage::new_depth(&mut device, 126, size);
    assert_eq!(
        (depth.image, depth.memory, depth.image_view, depth.destroyed),
        (1, 2, 3, false)
    );
    assert_eq!(
        device.ops(),
        &vec![
            DeviceOp::CreateImage {
                image: 1,
                format: 126,
                extent: size,
                mip_levels: 1,
                usage: 0x20,
            },
            DeviceOp::AllocateImageMemory { memory: 2, image: 1, properties: 0x1 },
            DeviceOp::BindImageMemory { image: 1, memory: 2, offset: 0 },
            DeviceOp::CreateImageView {
                view: 3,
                image: 1,
                format: 126,
                mip_levels: 1,
                aspect: ImageAspect::Depth,
            },
        ]
    );
    assert!(device.payload().is_empty());
}

#[test]
fn depth_image_destroy_releases_view_then_image_then_memory() {
    let mut device = Device::new();
    let mut depth: DepthImage =
        VulkanImage::new_depth(&mut device, 126, Extent2D { width: 8, height: 8 });
    depth.destroy(&mut device);
    assert!(depth.destroyed);
    assert_eq!(
        &device.ops()[4..],
        &[
            DeviceOp::DestroyImageView { view: 3 },
            DeviceOp::DestroyImage { image: 1 },
            DeviceOp::FreeMemory { memory: 2 },
        ]
    );
}

#[test]
fn image_data_size_is_four_bytes_a_texel() {
    assert_eq!(image_data_size(Extent2D { width: 3, height: 5 }), Some(60));
    assert_eq!(image_data_size(Extent2D { width: 0, height: 5 }), Some(0));
    assert_eq!(image_data_size(Extent2D { width: 32768, height: 32767 }), Some(0xfffe_0000));
    assert_eq!(image_data_size(Extent2D { width: 0x3fff_ffff, height: 1 }), Some(0xffff_fffc));
    assert_eq!(image_data_size(Extent2D { width: 32768, height: 32768 }), None);
    assert_eq!(image_data_size(Extent2D { width: 0x4000_0000, height: 1 }), None);
    assert_eq!(image_data_size(Extent2D { width: u32::MAX, height: u32::MAX }), None);
}

/// The objects that a record has created and not released.
fn alive(ops: &[DeviceOp]) -> Vec<u64> {
    let mut alive = Vec::new();
    for op in ops {
        match *op {
            DeviceOp::CreateBuffer { buffer: made, .. }
            | DeviceOp::AllocateBufferMemory { memory: made, .. }
            | DeviceOp::AllocateImageMemory { memory: made, .. }
            | DeviceOp::CreateImage { image: made, .. }
            | DeviceOp::CreateImageView { view: made, .. }
            | DeviceOp::AllocateCommandBuffer { command_buffer: made, .. }
            | DeviceOp::CreateFence { fence: made } => {
                assert!(!alive.contains(&made));
                alive.push(made);
            }
            DeviceOp::DestroyBuffer { buffer: gone }
            | DeviceOp::FreeMemory { memory: gone }
            | DeviceOp::DestroyImage { image: gone }
            | DeviceOp::DestroyImageView { view: gone }
            | DeviceOp::DestroyFence { fence: gone }
            | DeviceOp::FreeCommandBuffer { command_buffer: gone, .. } => {
                assert!(alive.contains(&gone));
                alive.retain(|other| *other != gone);
            }
            _ => {}
        }
    }
    alive.sort();
    alive
}

#[test]
fn a_created_image_leaves_only_itself_alive() {
    let mut instance = instance();
    let size = Extent2D { width: 16, height: 8 };
    let image = VulkanImage::from_color(&mut instance, [9, 9, 9, 9], size);
    let mut expected = vec![image.image, image.memory, image.image_view];
    expected.sort();
    assert_eq!(alive(instance.device.ops()), expected);
}

#[test]
fn a_destroyed_image_leaves_nothing_alive() {
    let mut instance = instance();
    let size = Extent2D { width: 16, height: 8 };
    let mut first = VulkanImage::from_color(&mut instance, [9, 9, 9, 9], size);
    let mut second = VulkanImage::new(&mut instance, &[0; 16 * 8 * 4], size, 37, None);
    first.destroy(&mut instance.device);
    let mut expected = vec![second.image, second.memory, second.image_view];
    expected.sort();
    assert_eq!(alive(instance.device.ops()), expected);
    second.destroy(&mut instance.device);
    assert_eq!(alive(instance.device.ops()), Vec::<u64>::new());
}

#[test]
fn a_depth_target_lives_until_it_is_destroyed() {
    let mut device = Device::new();
    let mut depth = VulkanImage::new_depth(&mut device, 126, Extent2D { width: 4, height: 4 });
    assert_eq!(alive(device.ops()), vec![depth.image, depth.memory, depth.image_view]);
    depth.destroy(&mut device);
    assert_eq!(alive(device.ops()), Vec::<u64>::new());
}
