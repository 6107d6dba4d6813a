use vent::pixels::{pixel_count, ChannelLayout, DecodedImage};

#[test]
fn channels_of_each_layout() {
    assert_eq!(ChannelLayout::Luma.channels(), 1);
    assert_eq!(ChannelLayout::LumaAlpha.channels(), 2);
    assert_eq!(ChannelLayout::Rgb.channels(), 3);
    assert_eq!(ChannelLayout::Rgba.channels(), 4);
}

#[test]
fn decoded_image_needs_exactly_its_pixels() {
    assert!(DecodedImage::new(2, 3, ChannelLayout::Rgb, vec![0; 18]).is_some());
    assert!(DecodedImage::new(2, 3, ChannelLayout::Rgb, vec![0; 17]).is_none());
    assert!(DecodedImage::new(2, 3, ChannelLayout::Rgb, vec![0; 19]).is_none());
    assert!(DecodedImage::new(0, 3, ChannelLayout::Rgba, Vec::new()).is_some());
    assert!(DecodedImage::new(u32::MAX, u32::MAX, ChannelLayout::Rgba, Vec::new()).is_none());
}

#[test]
fn pixel_count_does_not_overflow() {
    assert_eq!(pixel_count(3, 5), 15);
    assert_eq!(pixel_count(0, 5), 0);
    assert_eq!(pixel_count(u32::MAX, u32::MAX), 0xffff_fffe_0000_0001);
}

#[test]
fn luma_is_widened_to_four_channels() {
    let luma: Vec<u8> = (0..=255).collect();
    let image = DecodedImage::new(16, 16, ChannelLayout::Luma, luma.clone()).unwrap();
    let bytes = image.normalize();
    assert_eq!(bytes.len(), 16 * 16 * 4);
    for (pixel, value) in bytes.chunks(4).zip(luma) {
        assert_eq!(pixel, [value, value, value, 255]);
    }
}

#[test]
fn rgb_gets_an_opaque_alpha() {
    let rgb = vec![10, 20, 30, 40, 50, 60, 70, 80, 90, 1, 2, 3, 0, 255, 128, 7, 7, 7];
    let image = DecodedImage::new(3, 2, ChannelLayout::Rgb, rgb).unwrap();
    let bytes = image.normalize();
    assert_eq!(
        bytes,
        vec![
            10, 20, 30, 255, 40, 50, 60, 255, 70, 80, 90, 255, 1, 2, 3, 255, 0, 255, 128, 255, 7,
            7, 7, 255
        ]
    );
}

#[test]
fn luma_alpha_passes_through() {
    let data = vec![1, 2, 3, 4, 5, 6, 7, 8];
    let image = DecodedImage::new(2, 2, ChannelLayout::LumaAlpha, data.clone()).unwrap();
    assert_eq!(image.normalize(), data);
}

#[test]
fn rgba_passes_through() {
    let data: Vec<u8> = (0..48).collect();
    let image = DecodedImage::new(4, 3, ChannelLayout::Rgba, data.clone()).unwrap();
    assert_eq!(image.normalize(), data);
}

#[test]
fn normalized_byte_counts() {
    for (width, height) in [(1u32, 1u32), (3, 5), (8, 8), (0, 4), (17, 1)] {
        let pixels = (width * height) as usize;
        for (layout, channels) in [
            (ChannelLayout::Luma, 1),
            (ChannelLayout::LumaAlpha, 2),
            (ChannelLayout::Rgb, 3),
            (ChannelLayout::Rgba, 4),
        ] {
            let image = DecodedImage::new(width, height, layout, vec![9; pixels * channels]);
            let bytes = image.unwrap().normalize();
            let expected = match layout {
                ChannelLayout::Luma | ChannelLayout::Rgb => pixels * 4,
                ChannelLayout::LumaAlpha => pixels * 2,
                ChannelLayout::Rgba => pixels * 4,
            };
            assert_eq!(bytes.len(), expected);
        }
    }
}

#[test]
fn solid_image_repeats_its_colour() {
    let image = DecodedImage::solid([1, 2, 3, 4], 3, 2);
    assert_eq!(image.width, 3);
    assert_eq!(image.height, 2);
    assert_eq!(image.layout, ChannelLayout::Rgba);
    assert_eq!(
        image.bytes,
        vec![1, 2, 3, 4, 1, 2, 3, 4, 1, 2, 3, 4, 1, 2, 3, 4, 1, 2, 3, 4, 1, 2, 3, 4]
    );
}

#[test]
fn solid_image_of_no_pixels_is_empty() {
    assert!(DecodedImage::solid([1, 2, 3, 4], 0, 7).bytes.is_empty());
}
