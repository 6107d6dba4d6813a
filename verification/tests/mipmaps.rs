use vent::device::{
    Access, DeviceOp, Extent2D, Filter, ImageBarrier, ImageBlit, ImageLayout, Stage,
};
use vent::image::VulkanImage;
use vent::mip::mip_level_count;
use vent::instance::VulkanInstance;

fn instance() -> VulkanInstance {
    VulkanInstance::new(Vec::new(), 70, 80)
}

fn barrier(
    image: u64,
    level: u32,
    old_layout: ImageLayout,
    new_layout: ImageLayout,
    src_access: Access,
    dst_access: Access,
    src_stage: Stage,
    dst_stage: Stage,
) -> DeviceOp {
    DeviceOp::CmdPipelineBarrier {
        command_buffer: 1,
        barrier: ImageBarrier {
            image,
            base_mip_level: level,
            level_count: 1,
            old_layout,
            new_layout,
            src_access,
            dst_access,
            src_stage,
            dst_stage,
        },
    }
}

fn to_source(image: u64, level: u32) -> DeviceOp {
    barrier(
        image,
        level,
        ImageLayout::TransferDstOptimal,
        ImageLayout::TransferSrcOptimal,
        Access::TransferWrite,
        Access::TransferRead,
        Stage::Transfer,
        Stage::Transfer,
    )
}

fn to_finished(image: u64, level: u32) -> DeviceOp {
    barrier(
        image,
        level,
        ImageLayout::TransferSrcOptimal,
        ImageLayout::ShaderReadOnlyOptimal,
        Access::TransferRead,
        Access::ShaderRead,
        Stage::Transfer,
        Stage::FragmentShader,
    )
}

fn to_last(image: u64, level: u32) -> DeviceOp {
    barrier(
        image,
        level,
        ImageLayout::TransferDstOptimal,
        ImageLayout::ShaderReadOnlyOptimal,
        Access::TransferWrite,
        Access::ShaderRead,
        Stage::Blit,
        Stage::FragmentShader,
    )
}

fn blit(image: u64, src_level: u32, src: (u32, u32), dst: (u32, u32)) -> DeviceOp {
    DeviceOp::CmdBlitImage {
        command_buffer: 1,
        image,
        blit: ImageBlit {
            src_level,
            dst_level: src_level + 1,
            src_width: src.0,
            src_height: src.1,
            dst_width: dst.0,
            dst_height: dst.1,
        },
        filter: Filter::Linear,
    }
}

fn one_shot_head() -> Vec<DeviceOp> {
    vec![
        DeviceOp::AllocateCommandBuffer { command_buffer: 1, pool: 70 },
        DeviceOp::BeginCommandBuffer { command_buffer: 1 },
    ]
}

fn one_shot_tail() -> Vec<DeviceOp> {
    vec![
        DeviceOp::EndCommandBuffer { command_buffer: 1 },
        DeviceOp::CreateFence { fence: 2 },
        DeviceOp::QueueSubmit { queue: 80, command_buffer: 1, fence: 2 },
        DeviceOp::WaitForFence { fence: 2, timeout: 100_000_000_000 },
        DeviceOp::DestroyFence { fence: 2 },
        DeviceOp::FreeCommandBuffer { pool: 70, command_buffer: 1 },
    ]
}

/// Follows the barriers of a record over the levels of one image, and
/// panics where a command finds a level in another layout than it needs.
fn follow(ops: &[DeviceOp], image: u64, mut layouts: Vec<ImageLayout>) -> Vec<ImageLayout> {
    for op in ops {
        match *op {
            DeviceOp::CmdPipelineBarrier { barrier, .. } if barrier.image == image => {
                let from = barrier.base_mip_level as usize;
                let to = from + barrier.level_count as usize;
                assert!(to <= layouts.len());
                for level in from..to {
                    if barrier.old_layout != ImageLayout::Undefined {
                        assert_eq!(layouts[level], barrier.old_layout);
                    }
                    layouts[level] = barrier.new_layout;
                }
            }
            DeviceOp::CmdCopyBufferToImage { image: target, .. } if target == image => {
                assert_eq!(layouts[0], ImageLayout::TransferDstOptimal);
            }
            DeviceOp::CmdBlitImage { image: target, blit, .. } if target == image => {
                assert_eq!(layouts[blit.src_level as usize], ImageLayout::TransferSrcOptimal);
                assert_eq!(layouts[blit.dst_level as usize], ImageLayout::TransferDstOptimal);
            }
            _ => {}
        }
    }
    layouts
}

#[test]
fn mip_level_count_of_named_sizes() {
    assert_eq!(mip_level_count(512, 256), 10);
    assert_eq!(mip_level_count(1, 1), 1);
    assert_eq!(mip_level_count(300, 300), 9);
}

#[test]
fn mip_level_count_takes_the_larger_side() {
    assert_eq!(mip_level_count(256, 512), 10);
    assert_eq!(mip_level_count(511, 256), 9);
    assert_eq!(mip_level_count(1024, 1), 11);
    assert_eq!(mip_level_count(1, 1024), 11);
    assert_eq!(mip_level_count(2, 2), 2);
    assert_eq!(mip_level_count(3, 2), 2);
    assert_eq!(mip_level_count(4, 1), 3);
}

#[test]
fn mip_level_count_at_the_edges() {
    assert_eq!(mip_level_count(0, 0), 1);
    assert_eq!(mip_level_count(0, 1), 1);
    assert_eq!(mip_level_count(u32::MAX, 1), 32);
    assert_eq!(mip_level_count(0x8000_0000, 0), 32);
    assert_eq!(mip_level_count(0x7fff_ffff, 0), 31);
}

#[test]
fn mip_level_count_is_exact_above_float_precision() {
    // 2^25 - 1 rounds up to 2^25 as a 32-bit float.
    assert_eq!(mip_level_count(0x01ff_ffff, 1), 25);
    assert_eq!(mip_level_count(0x0200_0000, 1), 26);
}

#[test]
fn mip_level_count_brackets_the_larger_side() {
    for side in 1u32..5000 {
        let levels = mip_level_count(side, 1);
        assert!(1u64 << (levels - 1) <= side as u64);
        assert!((side as u64) < 1u64 << levels);
    }
}

#[test]
fn generate_mipmaps_records_each_level_in_order() {
    let mut instance = instance();
    VulkanImage::generate_mipmaps(&mut instance, 9, 70, 8, 2, 4);
    let mut expected = one_shot_head();
    expected.extend([
        to_source(9, 0),
        blit(9, 0, (8, 2), (4, 1)),
        to_finished(9, 0),
        to_source(9, 1),
        blit(9, 1, (4, 1), (2, 1)),
        to_finished(9, 1),
        to_source(9, 2),
        blit(9, 2, (2, 1), (1, 1)),
        to_finished(9, 2),
        to_last(9, 3),
    ]);
    expected.extend(one_shot_tail());
    assert_eq!(instance.device.ops(), &expected);
    assert_eq!(instance.device.next_handle(), 3);
    assert!(instance.device.payload().is_empty());
}

#[test]
fn generate_mipmaps_of_one_level_only_finishes_it() {
    let mut instance = instance();
    VulkanImage::generate_mipmaps(&mut instance, 9, 70, 64, 64, 1);
    let mut expected = one_shot_head();
    expected.push(to_last(9, 0));
    expected.extend(one_shot_tail());
    assert_eq!(instance.device.ops(), &expected);
}

#[test]
fn generate_mipmaps_leaves_every_level_readable() {
    for (width, height) in [(1u32, 1u32), (2, 1), (5, 3), (16, 16), (300, 300), (1, 77)] {
        let levels = mip_level_count(width, height);
        let mut instance = instance();
        VulkanImage::generate_mipmaps(&mut instance, 9, 70, width, height, levels);
        let start = vec![ImageLayout::TransferDstOptimal; levels as usize];
        let end = follow(instance.device.ops(), 9, start);
        assert_eq!(end, vec![ImageLayout::ShaderReadOnlyOptimal; levels as usize]);
    }
}

#[test]
fn generate_mipmaps_never_blits_to_an_empty_region() {
    for (width, height) in [(1u32, 1u32), (1, 64), (64, 1), (3, 5), (0, 4), (4, 0), (0, 0)] {
        for levels in 1u32..9 {
            let mut instance = instance();
            VulkanImage::generate_mipmaps(&mut instance, 9, 70, width, height, levels);
            let mut blits = 0;
            for op in instance.device.ops() {
                if let DeviceOp::CmdBlitImage { blit, .. } = op {
                    assert!(blit.dst_width >= 1);
                    assert!(blit.dst_height >= 1);
                    blits += 1;
                }
            }
            assert_eq!(blits, levels - 1);
        }
    }
}

#[test]
fn generate_mipmaps_halves_odd_sizes_downwards() {
    let mut instance = instance();
    VulkanImage::generate_mipmaps(&mut instance, 9, 70, 7, 5, 3);
    let ops = instance.device.ops();
    assert_eq!(ops[3], blit(9, 0, (7, 5), (3, 2)));
    assert_eq!(ops[6], blit(9, 1, (3, 2), (1, 1)));
}

#[test]
fn copy_buffer_to_image_that_readies_the_image() {
    let mut instance = instance();
    let staging = vent::buffer::VulkanBuffer {
        buffer: 40,
        buffer_memory: 41,
        state: vent::buffer::BufferState::Bound,
    };
    let size = Extent2D { width: 4, height: 4 };
    VulkanImage::copy_buffer_to_image(&mut instance, 9, &staging, 70, size, 3, true);
    let mut expected = one_shot_head();
    expected.push(DeviceOp::CmdPipelineBarrier {
        command_buffer: 1,
        barrier: ImageBarrier {
            image: 9,
            base_mip_level: 0,
            level_count: 3,
            old_layout: ImageLayout::Undefined,
            new_layout: ImageLayout::TransferDstOptimal,
            src_access: Access::NoAccess,
            dst_access: Access::TransferWrite,
            src_stage: Stage::TopOfPipe,
            dst_stage: Stage::Transfer,
        },
    });
    expected.push(DeviceOp::CmdCopyBufferToImage {
        command_buffer: 1,
        buffer: 40,
        image: 9,
        extent: size,
    });
    expected.push(DeviceOp::CmdPipelineBarrier {
        command_buffer: 1,
        barrier: ImageBarrier {
            image: 9,
            base_mip_level: 0,
            level_count: 3,
            old_layout: ImageLayout::TransferDstOptimal,
            new_layout: ImageLayout::ShaderReadOnlyOptimal,
            src_access: Access::TransferWrite,
            dst_access: Access::ShaderRead,
            src_stage: Stage::Transfer,
            dst_stage: Stage::FragmentShader,
        },
    });
    expected.extend(one_shot_tail());
    assert_eq!(instance.device.ops(), &expected);
    let end = follow(instance.device.ops(), 9, vec![ImageLayout::Undefined; 3]);
    assert_eq!(end, vec![ImageLayout::ShaderReadOnlyOptimal; 3]);
}

#[test]
fn copy_buffer_to_image_before_mip_generation() {
    let mut instance = instance();
    let staging = vent::buffer::VulkanBuffer {
        buffer: 40,
        buffer_memory: 41,
        state: vent::buffer::BufferState::Bound,
    };
    let size = Extent2D { width: 4, height: 4 };
    VulkanImage::copy_buffer_to_image(&mut instance, 9, &staging, 70, size, 3, false);
    assert_eq!(instance.device.ops().len(), 2 + 2 + 6);
    let end = follow(instance.device.ops(), 9, vec![ImageLayout::Undefined; 3]);
    assert_eq!(end, vec![ImageLayout::TransferDstOptimal; 3]);
}
