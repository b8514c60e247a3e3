//! Image buffers and the preprocessing steps that work on their bytes:
//! decoding, resizing, cropping to a region and reducing colour to grey.

use vstd::prelude::*;
use crate::error::MatchError;
use crate::imaging::{average_rgb8, decode_rgb8, resample_rgb8};
use crate::matcher::ImageMatchRegion;
use crate::surface::lemma_cell_position;

verus! {

/// The grey value of a colour: its red, green and blue parts weighted by
/// 0.299, 0.587 and 0.114, in fixed point with 15 fractional bits, rounded to
/// the nearest value.
pub open spec fn luma(red: u8, green: u8, blue: u8) -> u8 {
    ((red * 9798 + green * 19235 + blue * 3735 + 16384) / 32768) as u8
}

/// The height that keeps an image's proportions when its width becomes
/// `target`: `height * target / width` rounded to the nearest whole number,
/// a half being rounded up.
pub open spec fn resized_height(width: int, height: int, target: int) -> int {
    (2 * height * target + width) / (2 * width)
}

/// The mathematical model of an image: its size, the number of bytes per
/// pixel, and the bytes themselves, row after row and pixel after pixel.
pub struct Raster {
    pub width: nat,
    pub height: nat,
    pub channels: nat,
    pub data: Seq<u8>,
}

impl Raster {
    /// A pixel is one grey byte or three colour bytes, every pixel has its
    /// bytes, and the size fits in 32 bits.
    pub open spec fn wf(self) -> bool {
        &&& self.channels == 1 || self.channels == 3
        &&& self.data.len() == self.width * self.height * self.channels
        &&& self.width <= u32::MAX
        &&& self.height <= u32::MAX
    }

    /// Byte `c` of the pixel in column `x` of row `y`.
    pub open spec fn sample(self, x: int, y: int, c: int) -> u8 {
        self.data[(y * self.width + x) * self.channels + c]
    }

    /// The part of the image that `region` selects. Byte `i` of the result
    /// lies in row `i / stride` at offset `i % stride`, where `stride` is the
    /// number of bytes in a row of the region; it is the byte at the same
    /// offset from the region's left border in the row that many rows below
    /// the region's top.
    pub open spec fn cropped(self, region: ImageMatchRegion) -> Raster {
        let stride = region.width * self.channels;
        Raster {
            width: region.width as nat,
            height: region.height as nat,
            channels: self.channels,
            data: Seq::new(
                (region.height * stride) as nat,
                |i: int|
                    self.data[((region.top + i / stride) * self.width + region.left)
                        * self.channels + i % stride],
            ),
        }
    }

    /// The image has no pixel.
    pub open spec fn is_empty(self) -> bool {
        self.width == 0 || self.height == 0
    }

    /// The height of the image after a resize to the width `target`.
    pub open spec fn height_at(self, target: int) -> int {
        resized_height(self.width as int, self.height as int, target)
    }

    /// Whether the image can be resampled to the width `target`: the new
    /// height is at least 1 and fits in 32 bits, and the image as a colour
    /// image, the sampler's working image, of 16 bytes for every pixel of the
    /// old width and the new height, and its result fit in memory.
    pub open spec fn can_resample(self, target: int) -> bool {
        &&& 1 <= self.height_at(target) <= u32::MAX
        &&& 3 * self.width * self.height <= usize::MAX
        &&& 16 * self.width * self.height_at(target) <= isize::MAX
        &&& 3 * target * self.height_at(target) <= isize::MAX
    }

    /// Whether a resize to the width `target` is possible: the image has
    /// pixels, the width is not zero, and the image already has that width
    /// or can be resampled to it.
    pub open spec fn can_resize(self, target: int) -> bool {
        &&& !self.is_empty()
        &&& target > 0
        &&& target == self.width || self.can_resample(target)
    }

    /// The width of the image after an optional resize: the width asked
    /// for, or its own where none is asked for.
    pub open spec fn width_after(self, target: Option<u32>) -> int {
        match target {
            Some(w) => w as int,
            None => self.width as int,
        }
    }

    /// The height of the image after an optional resize.
    pub open spec fn height_after(self, target: Option<u32>) -> int {
        match target {
            Some(w) => self.height_at(w as int),
            None => self.height as int,
        }
    }

    /// Whether an optional resize leaves the pixels as they are: none is
    /// asked for, or the image already has the width.
    pub open spec fn keeps_pixels(self, target: Option<u32>) -> bool {
        target matches Some(w) ==> w == self.width
    }

    /// The grey image as a colour image: every grey byte three times.
    pub open spec fn spread(self) -> Raster {
        Raster {
            width: self.width,
            height: self.height,
            channels: 3,
            data: Seq::new(self.data.len() * 3, |i: int| self.data[i / 3]),
        }
    }

    /// The image reduced to one grey byte per pixel. A grey image stays as
    /// it is.
    pub open spec fn grayed(self) -> Raster {
        if self.channels == 3 {
            Raster {
                width: self.width,
                height: self.height,
                channels: 1,
                data: Seq::new(
                    self.width * self.height,
                    |i: int| luma(self.data[3 * i], self.data[3 * i + 1], self.data[3 * i + 2]),
                ),
            }
        } else {
            self
        }
    }
}

/// An owned image: a grid of pixels of one or three bytes each.
#[derive(Debug)]
pub struct ImageBuffer {
    width: u32,
    height: u32,
    channels: u8,
    data: Vec<u8>,
}

impl View for ImageBuffer {
    type V = Raster;

    closed spec fn view(&self) -> Raster {
        Raster {
            width: self.width as nat,
            height: self.height as nat,
            channels: self.channels as nat,
            data: self.data@,
        }
    }
}

impl ImageBuffer {
    /// The buffer holds the bytes of every pixel and nothing else.
    pub open spec fn wf(&self) -> bool {
        self@.wf()
    }

    /// Makes an image of `width` by `height` pixels of `channels` bytes each
    /// from its bytes. Returns `None` exactly when `channels` is neither 1
    /// nor 3 or the number of bytes is not `width * height * channels`.
    pub fn new(width: u32, height: u32, channels: u8, data: Vec<u8>) -> (made: Option<ImageBuffer>)
        ensures
            made is Some <==> (channels == 1 || channels == 3) && data@.len() == width * height
                * channels,
            made matches Some(b) ==> b.wf() && b@ == (Raster {
                width: width as nat,
                height: height as nat,
                channels: channels as nat,
                data: data@,
            }),
    {
        if channels != 1 && channels != 3 {
            return None;
        }
        assert(width * height * channels <= u128::MAX) by (nonlinear_arith)
            requires
                width <= u32::MAX,
                height <= u32::MAX,
                channels <= 3,
        ;
        assert(0 <= width * height <= u64::MAX) by (nonlinear_arith)
            requires
                0 <= width <= u32::MAX,
                0 <= height <= u32::MAX,
        ;
        let wanted: u128 = (width as u128) * (height as u128) * (channels as u128);
        if data.len() as u128 != wanted {
            return None;
        }
        Some(ImageBuffer { width, height, channels, data })
    }

    /// The width in pixels.
    pub fn width(&self) -> (w: u32)
        ensures
            w == self@.width,
    {
        self.width
    }

    /// The height in pixels.
    pub fn height(&self) -> (h: u32)
        ensures
            h == self@.height,
    {
        self.height
    }

    /// The number of bytes per pixel.
    pub fn channels(&self) -> (c: u8)
        ensures
            c == self@.channels,
    {
        self.channels
    }

    /// The bytes, row after row.
    pub fn data(&self) -> (bytes: &Vec<u8>)
        ensures
            bytes@ == self@.data,
    {
        &self.data
    }

    /// A copy of the image.
    pub fn duplicate(&self) -> (copy: ImageBuffer)
        ensures
            copy@ == self@,
    {
        ImageBuffer {
            width: self.width,
            height: self.height,
            channels: self.channels,
            data: vstd::slice::slice_to_vec(self.data.as_slice()),
        }
    }

    /// Reduces a colour image to grey, one byte per pixel. A grey image is
    /// copied as it is.
    pub fn to_gray(&self) -> (gray: ImageBuffer)
        requires
            self.wf(),
        ensures
            gray.wf(),
            gray@ == self@.grayed(),
    {
        if self.channels != 3 {
            return self.duplicate();
        }
        let total: usize = self.data.len();
        let pixels: usize = total / 3;
        assert(self.width * self.height * 3 == 3 * (self.width * self.height)) by (nonlinear_arith);
        let mut out: Vec<u8> = Vec::new();
        let mut i: usize = 0;
        while i < pixels
            invariant
                total == self.data@.len(),
                total == 3 * pixels,
                i <= pixels,
                out@.len() == i,
                forall|k: int|
                    0 <= k < i ==> out@[k] == luma(
                        self.data@[3 * k],
                        self.data@[3 * k + 1],
                        self.data@[3 * k + 2],
                    ),
            decreases pixels - i,
        {
            let red: u32 = self.data[3 * i] as u32;
            let green: u32 = self.data[3 * i + 1] as u32;
            let blue: u32 = self.data[3 * i + 2] as u32;
            let weighted: u32 = red * 9798 + green * 19235 + blue * 3735 + 16384;
            out.push((weighted / 32768) as u8);
            i = i + 1;
        }
        assert(out@ =~= self@.grayed().data);
        ImageBuffer { width: self.width, height: self.height, channels: 1, data: out }
    }

    /// Cuts the part that `region` selects out of the image.
    ///
    /// An empty region and a region that leaves the image are rejected. The
    /// pixel at `(x, y)` of the result is the pixel at `(region.left + x,
    /// region.top + y)` of the image: coordinates in the result count from
    /// the region's corner, not from the image's.
    pub fn crop(&self, region: ImageMatchRegion) -> (cut: Result<ImageBuffer, MatchError>)
        requires
            self.wf(),
        ensures
            cut is Ok <==> region.wf() && region.fits(self@.width as int, self@.height as int),
            cut matches Ok(b) ==> b.wf() && b@ == self@.cropped(region),
            cut matches Err(e) ==> e is InvalidConfiguration,
    {
        if region.width == 0 || region.height == 0 {
            return Err(MatchError::InvalidConfiguration);
        }
        if region.left as u64 + region.width as u64 > self.width as u64 || region.top as u64
            + region.height as u64 > self.height as u64 {
            return Err(MatchError::InvalidConfiguration);
        }
        let total: usize = self.data.len();
        let channels: usize = self.channels as usize;
        let width: usize = self.width as usize;
        let left: usize = region.left as usize;
        let top: usize = region.top as usize;
        let rows: usize = region.height as usize;
        proof {
            assert(1 <= region.width * channels <= width * channels) by (nonlinear_arith)
                requires
                    1 <= region.width <= width,
                    channels > 0,
            ;
            lemma_crop_index(
                self@,
                region,
                (region.height - 1) as int,
                (region.width * channels - 1) as int,
            );
        }
        let stride: usize = region.width as usize * channels;
        let mut out: Vec<u8> = Vec::new();
        let mut y: usize = 0;
        while y < rows
            invariant
                self.wf(),
                region.wf(),
                region.fits(self@.width as int, self@.height as int),
                total == self.data@.len(),
                channels == self@.channels,
                width == self@.width,
                left == region.left,
                top == region.top,
                rows == region.height,
                stride == region.width * channels,
                stride > 0,
                y <= rows,
                out@.len() == y * stride,
                forall|i: int|
                    0 <= i < out@.len() ==> out@[i] == self.data@[((top + i / (stride as int))
                        * width + left) * channels + i % (stride as int)],
            decreases rows - y,
        {
            let mut k: usize = 0;
            proof {
                lemma_crop_index(self@, region, y as int, 0);
            }
            let start: usize = ((top + y) * width + left) * channels;
            while k < stride
                invariant
                    self.wf(),
                    region.wf(),
                    region.fits(self@.width as int, self@.height as int),
                    total == self.data@.len(),
                    channels == self@.channels,
                    width == self@.width,
                    left == region.left,
                    top == region.top,
                    rows == region.height,
                    stride == region.width * channels,
                    stride > 0,
                    y < rows,
                    k <= stride,
                    start == ((top + y) * width + left) * channels,
                    out@.len() == y * stride + k,
                    forall|i: int|
                        0 <= i < out@.len() ==> out@[i] == self.data@[((top + i / (stride as int))
                            * width + left) * channels + i % (stride as int)],
                decreases stride - k,
            {
                proof {
                    lemma_crop_index(self@, region, y as int, k as int);
                    lemma_cell_position(stride as int, rows as int, k as int, y as int);
                }
                out.push(self.data[start + k]);
                k = k + 1;
            }
            proof {
                assert((y + 1) * stride == y * stride + stride) by (nonlinear_arith);
            }
            y = y + 1;
        }
        proof {
            assert(out@.len() == region.height * (region.width * self@.channels));
            assert(out@ =~= self@.cropped(region).data);
            assert(region.width * region.height * self@.channels == region.height * (region.width
                * self@.channels)) by (nonlinear_arith);
        }
        Ok(
            ImageBuffer {
                width: region.width,
                height: region.height,
                channels: self.channels,
                data: out,
            },
        )
    }
}

impl ImageBuffer {
    /// Decodes an image file held in memory into a colour image of three
    /// bytes per pixel. Whether the bytes can be decoded is for the decoder to
    /// say; where it fails, or hands out fewer or more bytes than the size it
    /// names, the error is `DecodeError`.
    pub fn decode(bytes: &[u8]) -> (decoded: Result<ImageBuffer, MatchError>)
        ensures
            decoded matches Ok(b) ==> b.wf() && b@.channels == 3,
            decoded matches Err(e) ==> e is DecodeError,
    {
        match decode_rgb8(bytes) {
            Ok((width, height, data)) => Self::from_decoded(width, height, data),
            Err(e) => Err(MatchError::DecodeError(e.to_string())),
        }
    }

    /// Makes a colour image of what a decoder handed out: `width`, `height`
    /// and the bytes, which must be three for every pixel.
    pub fn from_decoded(width: u32, height: u32, data: Vec<u8>) -> (made: Result<
        ImageBuffer,
        MatchError,
    >)
        ensures
            made is Ok <==> data@.len() == width * height * 3,
            made matches Ok(b) ==> b.wf() && b@ == (Raster {
                width: width as nat,
                height: height as nat,
                channels: 3,
                data: data@,
            }),
            made matches Err(e) ==> e matches MatchError::DecodeError(text) && text@
                == "pixel data does not match the image size"@,
    {
        match ImageBuffer::new(width, height, 3, data) {
            Some(b) => Ok(b),
            None => Err(
                MatchError::DecodeError("pixel data does not match the image size".to_owned()),
            ),
        }
    }

    /// Computes the height that keeps the image's proportions at the width
    /// `target`.
    fn height_for(&self, target: u32) -> (h: u64)
        requires
            self@.width > 0,
        ensures
            h == self@.height_at(target as int),
    {
        assert(2 * self.height * target + self.width <= u128::MAX) by (nonlinear_arith)
            requires
                self.height <= u32::MAX,
                target <= u32::MAX,
                self.width <= u32::MAX,
        ;
        assert(0 <= 2 * self.height * target) by (nonlinear_arith);
        assert(0 <= 2 * self.height) by (nonlinear_arith);
        let doubled: u128 = 2 * (self.height as u128) * (target as u128) + (self.width as u128);
        let h: u128 = doubled / (2 * (self.width as u128));
        assert(h <= u64::MAX) by (nonlinear_arith)
            requires
                h as int == (doubled as int) / (2 * self.width),
                doubled == 2 * self.height * target + self.width,
                self.width >= 1,
                self.height <= u32::MAX,
                target <= u32::MAX,
                self.width <= u32::MAX,
        ;
        h as u64
    }

    /// Spreads a grey image to three equal bytes per pixel.
    fn to_spread(&self) -> (colour: ImageBuffer)
        requires
            self.wf(),
            self@.channels == 1,
            self@.data.len() * 3 <= usize::MAX,
        ensures
            colour.wf(),
            colour@ == self@.spread(),
    {
        let total: usize = self.data.len();
        let mut out: Vec<u8> = Vec::new();
        let mut i: usize = 0;
        while i < total
            invariant
                total == self.data@.len(),
                i <= total,
                out@.len() == 3 * i,
                forall|k: int| 0 <= k < out@.len() ==> out@[k] == self.data@[k / 3],
            decreases total - i,
        {
            let v: u8 = self.data[i];
            out.push(v);
            out.push(v);
            out.push(v);
            i = i + 1;
        }
        proof {
            assert(out@ =~= self@.spread().data);
            assert(self.width * self.height * 1 == self.width * self.height) by (nonlinear_arith);
            assert(self.width * self.height * 3 == (self.width * self.height) * 3)
                by (nonlinear_arith);
        }
        ImageBuffer { width: self.width, height: self.height, channels: 3, data: out }
    }

    /// Resizes the image to the width `width`, keeping its proportions.
    ///
    /// The resize is rejected where `can_resize` says that it is impossible.
    /// An image that already has the width is copied as it is. An image
    /// that becomes smaller is averaged: every new pixel is the mean of the
    /// old pixels that fall into it. Only an image of more than 16 777 215
    /// pixels, whose sums the averaging could not hold, is resampled with a
    /// Lanczos kernel instead, as is every image that becomes larger. Of the
    /// new pixels the contract says nothing but how many they are. A grey
    /// image comes back grey.
    pub fn resize(&self, width: u32) -> (resized: Result<ImageBuffer, MatchError>)
        requires
            self.wf(),
        ensures
            resized is Ok <==> self@.can_resize(width as int),
            resized matches Ok(b) ==> {
                &&& b.wf()
                &&& b@.width == width
                &&& b@.height == self@.height_at(width as int)
                &&& b@.channels == self@.channels
                &&& width == self@.width ==> b@ == self@
            },
            resized matches Err(e) ==> e is InvalidConfiguration,
    {
        if width == 0 || self.width == 0 || self.height == 0 {
            return Err(MatchError::InvalidConfiguration);
        }
        let height: u64 = self.height_for(width);
        if width == self.width {
            proof {
                lemma_same_width_same_height(self.width as int, self.height as int);
            }
            return Ok(self.duplicate());
        }
        if height < 1 || height > u32::MAX as u64 {
            return Err(MatchError::InvalidConfiguration);
        }
        let new_height: u32 = height as u32;
        let total: usize = self.data.len();
        assert(16 * self.width * new_height <= u128::MAX && 3 * width * new_height <= u128::MAX
            && 3 * self.width * self.height <= u128::MAX && 0 <= 16 * self.width && 0 <= 3 * width
            && 0 <= 3 * self.width) by (nonlinear_arith)
            requires
                0 <= self.width <= u32::MAX,
                0 <= self.height <= u32::MAX,
                0 <= width <= u32::MAX,
                0 <= new_height <= u32::MAX,
        ;
        let source: u128 = 3 * (self.width as u128) * (self.height as u128);
        let working: u128 = 16 * (self.width as u128) * (new_height as u128);
        let result: u128 = 3 * (width as u128) * (new_height as u128);
        if source > usize::MAX as u128 || working > isize::MAX as u128 || result > isize::MAX as u128 {
            return Err(MatchError::InvalidConfiguration);
        }
        proof {
            assert(width * new_height * 3 == 3 * width * new_height) by (nonlinear_arith);
            assert(self.width * self.height * 3 == 3 * self.width * self.height)
                by (nonlinear_arith);
            assert(self.width * self.height * 1 == self.width * self.height) by (nonlinear_arith);
            assert(3 * self.width * self.height == (self.width * self.height) * 3)
                by (nonlinear_arith);
        }
        let colour: Vec<u8> = if self.channels == 3 {
            vstd::slice::slice_to_vec(self.data.as_slice())
        } else {
            self.to_spread().data
        };
        assert(self.width * self.height <= u128::MAX) by (nonlinear_arith)
            requires
                self.width <= u32::MAX,
                self.height <= u32::MAX,
        ;
        let pixels: u128 = (self.width as u128) * (self.height as u128);
        let shrinks: bool = width < self.width && new_height <= self.height;
        let outcome = if shrinks && pixels <= 16_777_215u128 {
            proof {
                assert(256 * self.width * self.height == 256 * (self.width * self.height))
                    by (nonlinear_arith);
            }
            average_rgb8(colour, self.width, self.height, width, new_height)
        } else {
            resample_rgb8(colour, self.width, self.height, width, new_height)
        };
        let sampled = match outcome {
            Some(data) => ImageBuffer { width, height: new_height, channels: 3, data },
            None => {
                return Err(MatchError::InvalidConfiguration);
            },
        };
        if self.channels == 3 {
            Ok(sampled)
        } else {
            Ok(sampled.to_gray())
        }
    }
}

/// At its own width an image keeps its height.
pub proof fn lemma_same_width_same_height(width: int, height: int)
    requires
        width > 0,
        height >= 0,
    ensures
        resized_height(width, height, width) == height,
{
    assert(2 * height * width + width == height * (2 * width) + width) by (nonlinear_arith);
    vstd::arithmetic::div_mod::lemma_fundamental_div_mod_converse(
        2 * height * width + width,
        2 * width,
        height,
        width,
    );
}

/// Where the byte at offset `k` of row `y` of a region lies in the image
/// that the region is cut from.
proof fn lemma_crop_index(img: Raster, region: ImageMatchRegion, y: int, k: int)
    requires
        img.wf(),
        region.fits(img.width as int, img.height as int),
        0 <= y < region.height,
        0 <= k < region.width * img.channels,
    ensures
        0 <= (region.top + y) * img.width,
        (region.top + y) * img.width + region.left <= ((region.top + y) * img.width + region.left)
            * img.channels,
        ((region.top + y) * img.width + region.left) * img.channels + k < img.data.len(),
{
    let w = img.width as int;
    let h = img.height as int;
    let ch = img.channels as int;
    let row = region.top + y;
    assert(0 <= row * w) by (nonlinear_arith)
        requires
            0 <= row,
            0 <= w,
    ;
    assert(row * w + region.left <= (row * w + region.left) * ch) by (nonlinear_arith)
        requires
            0 <= row * w + region.left,
            0 < ch,
    ;
    assert((row * w + region.left) * ch + k < (row + 1) * w * ch) by (nonlinear_arith)
        requires
            k < region.width * ch,
            region.left + region.width <= w,
            0 < ch,
    ;
    assert((row + 1) * w * ch <= w * h * ch) by (nonlinear_arith)
        requires
            row + 1 <= h,
            0 <= w,
            0 < ch,
    ;
}

/// Cropping keeps every pixel of the region: the pixel at `(x, y)` of the
/// cropped image is the pixel at `(left + x, top + y)` of the image it was
/// cut from.
pub proof fn lemma_cropped_sample(img: Raster, region: ImageMatchRegion, x: int, y: int, c: int)
    requires
        img.channels > 0,
        0 <= x < region.width,
        0 <= y < region.height,
        0 <= c < img.channels,
    ensures
        img.cropped(region).sample(x, y, c) == img.sample(region.left + x, region.top + y, c),
{
    let ch = img.channels as int;
    let stride = region.width * ch;
    let cut = img.cropped(region);
    let i = (y * region.width + x) * ch + c;
    let k = x * ch + c;
    assert(i == y * stride + k) by (nonlinear_arith)
        requires
            i == (y * region.width + x) * ch + c,
            k == x * ch + c,
            stride == region.width * ch,
    ;
    assert(0 <= k < stride) by (nonlinear_arith)
        requires
            k == x * ch + c,
            stride == region.width * ch,
            0 <= x < region.width,
            0 <= c < ch,
    ;
    lemma_cell_position(stride, region.height as int, k, y);
    assert(((region.top + y) * img.width + region.left) * ch + k == ((region.top + y) * img.width
        + (region.left + x)) * ch + c) by (nonlinear_arith)
        requires
            k == x * ch + c,
    ;
    assert(region.height * stride == stride * region.height) by (nonlinear_arith);
}

} // verus!
