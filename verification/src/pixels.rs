//! Decoded pixel data and its normalization to four channels.

use vstd::prelude::*;

verus! {

/// The channels of each pixel of decoded 8-bit data, in the order they are
/// stored.
#[derive(Clone, Copy, PartialEq, Eq, Structural, Debug)]
pub enum ChannelLayout {
    Luma,
    LumaAlpha,
    Rgb,
    Rgba,
}

impl ChannelLayout {
    /// The number of bytes of one pixel.
    pub open spec fn channel_count(self) -> nat {
        match self {
            ChannelLayout::Luma => 1,
            ChannelLayout::LumaAlpha => 2,
            ChannelLayout::Rgb => 3,
            ChannelLayout::Rgba => 4,
        }
    }

    /// The number of bytes of one pixel.
    pub fn channels(self) -> (count: u8)
        ensures
            count == self.channel_count(),
    {
        match self {
            ChannelLayout::Luma => 1,
            ChannelLayout::LumaAlpha => 2,
            ChannelLayout::Rgb => 3,
            ChannelLayout::Rgba => 4,
        }
    }
}

/// A decoded image: rows of pixels from the top, each pixel `layout`'s
/// channels of one byte.
#[derive(Debug)]
pub struct DecodedImage {
    pub width: u32,
    pub height: u32,
    pub layout: ChannelLayout,
    pub bytes: Vec<u8>,
}

/// The number of bytes that `width` by `height` pixels of `channels` bytes
/// take.
pub open spec fn byte_count(width: u32, height: u32, channels: nat) -> nat {
    (width as nat) * (height as nat) * channels
}

/// What 8-bit luma pixels become as four-channel pixels.
///
/// This names the result of the conversion that the codec library makes,
/// which goes through its colour pipeline.
pub uninterp spec fn luma8_as_rgba8(width: u32, height: u32, bytes: Seq<u8>) -> Seq<u8>;

/// What 8-bit red-green-blue pixels become as four-channel pixels: each
/// pixel keeps its three bytes and gets a fourth of 255.
pub open spec fn rgb8_as_rgba8(width: u32, height: u32, bytes: Seq<u8>) -> Seq<u8> {
    Seq::new(
        byte_count(width, height, 4),
        |i: int|
            if i % 4 == 3 {
                255u8
            } else {
                bytes[i / 4 * 3 + i % 4]
            },
    )
}

/// A `width` by `height` image of one colour, as four-channel pixels.
pub open spec fn solid_rgba8(width: u32, height: u32, color: Seq<u8>) -> Seq<u8> {
    Seq::new(byte_count(width, height, 4), |i: int| color[i % 4])
}

/// The bytes that are uploaded for `image`: luma and red-green-blue pixels
/// are widened to four channels, pixels with an alpha channel are taken as
/// they are.
pub open spec fn normalized(image: DecodedImage) -> Seq<u8> {
    match image.layout {
        ChannelLayout::Luma => luma8_as_rgba8(image.width, image.height, image.bytes@),
        ChannelLayout::Rgb => rgb8_as_rgba8(image.width, image.height, image.bytes@),
        ChannelLayout::LumaAlpha => image.bytes@,
        ChannelLayout::Rgba => image.bytes@,
    }
}

/// Converts 8-bit luma pixels with `image::DynamicImage::into_rgba8`, on a
/// buffer made by `image::ImageBuffer::from_raw`, which takes the bytes
/// because they are exactly the pixels.
///
/// The contract names the converted bytes by [`luma8_as_rgba8`] and claims
/// their number: four for each pixel. The conversion is not written out
/// here: it runs through the codec library's floating-point colour
/// pipeline.
#[verifier::external_body]
fn convert_luma8(width: u32, height: u32, bytes: Vec<u8>) -> (rgba: Vec<u8>)
    requires
        bytes@.len() == byte_count(width, height, 1),
        byte_count(width, height, 4) <= usize::MAX,
    ensures
        rgba@ == luma8_as_rgba8(width, height, bytes@),
        rgba@.len() == byte_count(width, height, 4),
{
    let gray = image::GrayImage::from_raw(width, height, bytes).unwrap();
    image::DynamicImage::ImageLuma8(gray).into_rgba8().into_raw()
}

/// Converts 8-bit red-green-blue pixels with
/// `image::DynamicImage::into_rgba8`, on a buffer made by
/// `image::ImageBuffer::from_raw`, which takes the bytes because they are
/// exactly the pixels.
///
/// The contract claims that each pixel keeps its three bytes, in order, and
/// gets an alpha byte of 255.
#[verifier::external_body]
fn convert_rgb8(width: u32, height: u32, bytes: Vec<u8>) -> (rgba: Vec<u8>)
    requires
        bytes@.len() == byte_count(width, height, 3),
        byte_count(width, height, 4) <= usize::MAX,
    ensures
        rgba@ == rgb8_as_rgba8(width, height, bytes@),
{
    let rgb = image::RgbImage::from_raw(width, height, bytes).unwrap();
    image::DynamicImage::ImageRgb8(rgb).into_rgba8().into_raw()
}

/// Builds a one-colour image with `image::ImageBuffer::from_pixel`.
///
/// The contract claims that the buffer holds `width * height` pixels, each
/// the four bytes of `color`.
#[verifier::external_body]
fn fill_rgba8(width: u32, height: u32, color: [u8; 4]) -> (rgba: Vec<u8>)
    requires
        byte_count(width, height, 4) <= usize::MAX,
    ensures
        rgba@ == solid_rgba8(width, height, color@),
{
    image::RgbaImage::from_pixel(width, height, image::Rgba(color)).into_raw()
}

impl DecodedImage {
    /// The bytes are exactly those of `width * height` pixels.
    pub open spec fn wf(&self) -> bool {
        self.bytes@.len() == byte_count(self.width, self.height, self.layout.channel_count())
    }

    /// The decoded image of the given size over `bytes`; `None` unless
    /// `bytes` holds exactly `width * height` pixels.
    pub fn new(width: u32, height: u32, layout: ChannelLayout, bytes: Vec<u8>) -> (image: Option<
        DecodedImage,
    >)
        ensures
            image is Some <==> bytes@.len() == byte_count(width, height, layout.channel_count()),
            image matches Some(decoded) ==> decoded.wf() && decoded.width == width
                && decoded.height == height && decoded.layout == layout && decoded.bytes@
                == bytes@,
    {
        let pixels: u64 = pixel_count(width, height);
        let needed: u128 = (pixels as u128) * (layout.channels() as u128);
        if bytes.len() as u128 == needed {
            Some(DecodedImage { width, height, layout, bytes })
        } else {
            None
        }
    }

    /// An image of one colour, in four channels.
    pub fn solid(color: [u8; 4], width: u32, height: u32) -> (image: DecodedImage)
        requires
            byte_count(width, height, 4) <= usize::MAX,
        ensures
            image.wf(),
            image.width == width,
            image.height == height,
            image.layout == ChannelLayout::Rgba,
            image.bytes@ == solid_rgba8(width, height, color@),
    {
        let bytes = fill_rgba8(width, height, color);
        DecodedImage { width, height, layout: ChannelLayout::Rgba, bytes }
    }

    /// The bytes to upload for this image.
    ///
    /// Luma and red-green-blue pixels come out as four bytes a pixel; pixels
    /// with an alpha channel come out as they went in, byte for byte.
    pub fn normalize(self) -> (bytes: Vec<u8>)
        requires
            self.wf(),
            byte_count(self.width, self.height, 4) <= usize::MAX,
        ensures
            bytes@ == normalized(self),
            self.layout == ChannelLayout::Luma || self.layout == ChannelLayout::Rgb
                ==> bytes@.len() == byte_count(self.width, self.height, 4),
            self.layout == ChannelLayout::LumaAlpha || self.layout == ChannelLayout::Rgba
                ==> bytes@ == self.bytes@,
            bytes@.len() <= byte_count(self.width, self.height, 4),
    {
        proof {
            lemma_byte_count_grows(self.width, self.height, self.layout.channel_count(), 4);
        }
        match self.layout {
            ChannelLayout::Luma => convert_luma8(self.width, self.height, self.bytes),
            ChannelLayout::Rgb => convert_rgb8(self.width, self.height, self.bytes),
            ChannelLayout::LumaAlpha => self.bytes,
            ChannelLayout::Rgba => self.bytes,
        }
    }
}

/// The number of pixels of a `width` by `height` image.
pub fn pixel_count(width: u32, height: u32) -> (pixels: u64)
    ensures
        pixels == (width as nat) * (height as nat),
{
    assert((width as nat) * (height as nat) <= 0xffff_ffff * 0xffff_ffff) by (nonlinear_arith)
        requires
            width <= 0xffff_ffff,
            height <= 0xffff_ffff,
    ;
    (width as u64) * (height as u64)
}

/// More channels take at least as many bytes.
pub proof fn lemma_byte_count_grows(width: u32, height: u32, fewer: nat, more: nat)
    requires
        fewer <= more,
    ensures
        byte_count(width, height, fewer) <= byte_count(width, height, more),
{
    assert((width as nat) * (height as nat) * fewer <= (width as nat) * (height as nat) * more)
        by (nonlinear_arith)
        requires
            fewer <= more,
    ;
}

} // verus!
