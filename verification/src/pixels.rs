//! Decoded pixel buffers and the resampling step.

use vstd::prelude::*;

verus! {

/// Layout of one pixel in a buffer.
#[derive(Clone, Copy, Debug, PartialEq, Eq, Structural)]
pub enum PixelFormat {
    /// Three bytes: red, green, blue.
    Rgb8,
    /// Four bytes: red, green, blue, alpha.
    Rgba8,
}

impl PixelFormat {
    /// Bytes per pixel.
    pub open spec fn spec_channels(self) -> nat {
        match self {
            PixelFormat::Rgb8 => 3,
            PixelFormat::Rgba8 => 4,
        }
    }


    /// Bits per pixel, as the graphics protocol names the format.
    pub open spec fn spec_bits(self) -> nat {
        match self {
            PixelFormat::Rgb8 => 24,
            PixelFormat::Rgba8 => 32,
        }
    }

    /// Bits per pixel, as the graphics protocol names the format.
    pub fn bits(self) -> (n: u32)
        ensures
            n == self.spec_bits(),
    {
        match self {
            PixelFormat::Rgb8 => 24,
            PixelFormat::Rgba8 => 32,
        }
    }
}

/// Resampling filter used when an image is resized.
#[derive(Clone, Copy, Debug, PartialEq, Eq, Structural)]
pub enum FilterType {
    Nearest,
    Triangle,
    CatmullRom,
    Gaussian,
    Lanczos3,
}

/// The tag under which a filter takes part in a thumbnail cache key.
pub open spec fn filter_tag(filter: FilterType) -> u8 {
    match filter {
        FilterType::Nearest => 0,
        FilterType::Triangle => 1,
        FilterType::CatmullRom => 2,
        FilterType::Gaussian => 3,
        FilterType::Lanczos3 => 4,
    }
}

/// Cache tag of a filter.
pub fn filter_cache_id(filter: FilterType) -> (tag: u8)
    ensures
        tag == filter_tag(filter),
{
    match filter {
        FilterType::Nearest => 0,
        FilterType::Triangle => 1,
        FilterType::CatmullRom => 2,
        FilterType::Gaussian => 3,
        FilterType::Lanczos3 => 4,
    }
}

/// An image in memory: rows of pixels from top to bottom, each row from
/// left to right, without padding.
#[derive(Debug)]
pub struct Pixels {
    pub width: u32,
    pub height: u32,
    pub format: PixelFormat,
    pub data: Vec<u8>,
}

impl Clone for Pixels {
    fn clone(&self) -> (img: Pixels)
        ensures
            img.width == self.width,
            img.height == self.height,
            img.format == self.format,
            img.data@ == self.data@,
    {
        let mut data: Vec<u8> = Vec::new();
        data.extend_from_slice(self.data.as_slice());
        assert(data@ =~= self.data@);
        Pixels { width: self.width, height: self.height, format: self.format, data }
    }
}

impl Pixels {
    /// The buffer holds exactly the pixels the dimensions announce.
    pub open spec fn wf(&self) -> bool {
        self.data@.len() == self.width * self.height * self.format.spec_channels()
    }

    /// Whether the buffer holds exactly the pixels the dimensions announce.
    pub fn is_wf(&self) -> (b: bool)
        ensures
            b == self.wf(),
    {
        assert(0 <= self.width * self.height <= 0xFFFF_FFFF * 0xFFFF_FFFF) by (nonlinear_arith)
            requires
                0 <= self.width <= 0xFFFF_FFFF,
                0 <= self.height <= 0xFFFF_FFFF,
        ;
        let channels: u128 = match self.format {
            PixelFormat::Rgb8 => 3,
            PixelFormat::Rgba8 => 4,
        };
        self.data.len() as u128 == (self.width as u128) * (self.height as u128) * channels
    }
}

/// Width and height of the image that the resampler produces when an image
/// of `width` by `height` pixels is resized into the box `nwidth` by
/// `nheight`: the source's aspect ratio is kept, so the result may be
/// smaller than the box along one side.
pub uninterp spec fn resized_dimensions(width: u32, height: u32, nwidth: u32, nheight: u32) -> (
    u32,
    u32,
);

/// Whether the buffers that resampling allocates stay within what a
/// vector can hold: sixteen bytes per pixel, for the source's width at the
/// new height and for the new size.
pub open spec fn resize_fits(width: u32, nwidth: u32, nheight: u32) -> bool {
    &&& (width + 1) * (nheight + 1) * 16 <= isize::MAX
    &&& (nwidth + 1) * (nheight + 1) * 16 <= isize::MAX
}

/// Calls `image::DynamicImage::resize` on a copy of the buffer. Trusted:
/// the result keeps the pixel format, its buffer holds exactly the pixels
/// of its dimensions, and the dimensions depend on the two sizes alone.
/// Nothing is claimed of the pixel values.
#[verifier::external_body]
pub(crate) fn resize_image(img: &Pixels, nwidth: u32, nheight: u32, filter: FilterType) -> (out:
    Pixels)
    requires
        img.wf(),
        resize_fits(img.width, nwidth, nheight),
    ensures
        out.wf(),
        out.format == img.format,
        (out.width, out.height) == resized_dimensions(img.width, img.height, nwidth, nheight),
{
    let kinds = [image::imageops::FilterType::Nearest, image::imageops::FilterType::Triangle, image::imageops::FilterType::CatmullRom, image::imageops::FilterType::Gaussian, image::imageops::FilterType::Lanczos3];
    let data = img.data.clone();
    let source = match img.format {
        PixelFormat::Rgb8 => image::DynamicImage::ImageRgb8(image::RgbImage::from_raw(img.width, img.height, data).unwrap_or_default()),
        PixelFormat::Rgba8 => image::DynamicImage::ImageRgba8(image::RgbaImage::from_raw(img.width, img.height, data).unwrap_or_default()),
    };
    let scaled = source.resize(nwidth, nheight, kinds[filter as usize]);
    Pixels { width: scaled.width(), height: scaled.height(), format: img.format, data: scaled.into_bytes() }
}

} // verus!
