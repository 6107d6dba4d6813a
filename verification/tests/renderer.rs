use vent::assets::Asset;
use vent::device::{Device, DeviceOp, Extent2D};
use vent::pixels::{ChannelLayout, DecodedImage};
use vent::render::{Dimension, RuntimeRenderer};

fn is_asset<T: Asset>(_: &T) -> bool {
    true
}

#[test]
fn a_decoded_image_is_an_asset() {
    let image = DecodedImage::new(1, 1, ChannelLayout::Luma, vec![0]).unwrap();
    assert!(is_asset(&image));
}

#[test]
fn renderer_starts_with_a_depth_target_of_the_surface_size() {
    let mut device = Device::new();
    let extent = Extent2D { width: 800, height: 600 };
    let renderer = RuntimeRenderer::new(Dimension::D3, &mut device, extent);
    assert_eq!(renderer.dimension, Dimension::D3);
    assert_eq!(renderer.extent, extent);
    assert_eq!(renderer.depth.image, 1);
    assert_eq!(
        device.ops()[0],
        DeviceOp::CreateImage { image: 1, format: 126, extent, mip_levels: 1, usage: 0x20 }
    );
    assert_eq!(device.ops().len(), 4);
}

#[test]
fn resize_replaces_the_depth_target() {
    let mut device = Device::new();
    let mut renderer =
        RuntimeRenderer::new(Dimension::D2, &mut device, Extent2D { width: 800, height: 600 });
    let larger = Extent2D { width: 1024, height: 768 };
    renderer.resize(&mut device, larger);
    assert_eq!(renderer.extent, larger);
    assert_eq!(renderer.dimension, Dimension::D2);
    assert_eq!(renderer.depth.image, 4);
    assert!(!renderer.depth.destroyed);
    assert_eq!(
        &device.ops()[4..8],
        &[
            DeviceOp::DestroyImageView { view: 3 },
            DeviceOp::DestroyImage { image: 1 },
            DeviceOp::FreeMemory { memory: 2 },
            DeviceOp::CreateImage {
                image: 4,
                format: 126,
                extent: larger,
                mip_levels: 1,
                usage: 0x20,
            },
        ]
    );
    assert_eq!(device.ops().len(), 11);
}

#[test]
fn resize_to_the_same_size_records_nothing() {
    let mut device = Device::new();
    let extent = Extent2D { width: 800, height: 600 };
    let mut renderer = RuntimeRenderer::new(Dimension::D3, &mut device, extent);
    renderer.resize(&mut device, extent);
    assert_eq!(device.ops().len(), 4);
    assert_eq!(renderer.depth.image, 1);
}

#[test]
fn resize_to_an_empty_size_keeps_the_target() {
    let mut device = Device::new();
    let extent = Extent2D { width: 800, height: 600 };
    let mut renderer = RuntimeRenderer::new(Dimension::D3, &mut device, extent);
    renderer.resize(&mut device, Extent2D { width: 0, height: 600 });
    renderer.resize(&mut device, Extent2D { width: 800, height: 0 });
    renderer.resize(&mut device, Extent2D { width: 0, height: 0 });
    assert_eq!(device.ops().len(), 4);
    assert_eq!(renderer.extent, extent);
}

#[test]
fn renderer_destroy_releases_the_depth_target() {
    let mut device = Device::new();
    let mut renderer =
        RuntimeRenderer::new(Dimension::D3, &mut device, Extent2D { width: 4, height: 4 });
    renderer.destroy(&mut device);
    assert!(renderer.depth.destroyed);
    assert_eq!(
        &device.ops()[4..],
        &[
            DeviceOp::DestroyImageView { view: 3 },
            DeviceOp::DestroyImage { image: 1 },
            DeviceOp::FreeMemory { memory: 2 },
        ]
    );
}
