//! Decoded images as plain RGBA rasters, and the codec operations on them.
//!
//! An [`Image`] owns four bytes per pixel (red, green, blue, alpha) in
//! row-major order. Its mathematical model is a [`Raster`]. Rotations are
//! specified pixel by pixel; resampling and grayscale conversion are carried
//! out by the `image` crate and appear in contracts under a name.

use vstd::prelude::*;
use vstd::arithmetic::div_mod::lemma_fundamental_div_mod;
use vstd::arithmetic::div_mod::lemma_fundamental_div_mod_converse;
use image::DynamicImage;
use image::RgbaImage;
use image::imageops::FilterType;

verus! {

/// The mathematical model of an image: its dimensions and its channel bytes,
/// four per pixel, rows from top to bottom and pixels from left to right.
pub struct Raster {
    pub width: nat,
    pub height: nat,
    pub data: Seq<u8>,
}

/// Position, in the channel bytes of a raster `width` pixels wide, of channel
/// `c` of the pixel in column `x` and row `y`.
pub open spec fn offset(width: nat, x: int, y: int, c: int) -> int {
    4 * (y * width + x) + c
}

impl Raster {
    /// The channel bytes cover the dimensions exactly.
    pub open spec fn wf(self) -> bool {
        self.data.len() == 4 * self.width * self.height
    }

    /// Channel `c` of the pixel in column `x` and row `y`.
    pub open spec fn at(self, x: int, y: int, c: int) -> u8 {
        self.data[offset(self.width, x, y, c)]
    }

    /// The raster turned a quarter clockwise: the pixel that ends in column
    /// `x` and row `y` comes from column `y` of the row `x` places above the
    /// last one.
    pub open spec fn rotate90(self) -> Raster {
        Raster {
            width: self.height,
            height: self.width,
            data: Seq::new(
                self.data.len(),
                |i: int|
                    {
                        let x = (i / 4) % (self.height as int);
                        let y = (i / 4) / (self.height as int);
                        self.at(y, self.height - 1 - x, i % 4)
                    },
            ),
        }
    }

    /// The raster turned upside down: the pixel that ends in column `x` and
    /// row `y` comes from the column `x` places before the last one and the
    /// row `y` places above the last one.
    pub open spec fn rotate180(self) -> Raster {
        Raster {
            width: self.width,
            height: self.height,
            data: Seq::new(
                self.data.len(),
                |i: int|
                    {
                        let x = (i / 4) % (self.width as int);
                        let y = (i / 4) / (self.width as int);
                        self.at(self.width - 1 - x, self.height - 1 - y, i % 4)
                    },
            ),
        }
    }

    /// The raster turned three quarters clockwise: the pixel that ends in
    /// column `x` and row `y` comes from row `x` of the column `y` places
    /// before the last one.
    pub open spec fn rotate270(self) -> Raster {
        Raster {
            width: self.height,
            height: self.width,
            data: Seq::new(
                self.data.len(),
                |i: int|
                    {
                        let x = (i / 4) % (self.height as int);
                        let y = (i / 4) / (self.height as int);
                        self.at(self.width - 1 - y, x, i % 4)
                    },
            ),
        }
    }
}

/// What `image::DynamicImage::resize_exact` with the Lanczos-3 filter returns
/// for an RGBA image of `width` by `height` pixels with channel bytes `data`
/// and the target dimensions `nwidth` by `nheight`: the channel bytes of the
/// resampled image. The codec computes them in floating point; that equal
/// arguments give equal bytes is taken from it on trust.
pub uninterp spec fn lanczos3_resized(
    width: nat,
    height: nat,
    data: Seq<u8>,
    nwidth: nat,
    nheight: nat,
) -> Seq<u8>;

/// What `image::DynamicImage::to_luma8` returns for an RGBA image with channel
/// bytes `data`: one luminance byte per pixel, in the same order. The codec
/// weighs the colour channels in floating point; that equal arguments give
/// equal bytes is taken from it on trust.
pub uninterp spec fn luma8_of(data: Seq<u8>) -> Seq<u8>;

/// Calls `image::DynamicImage::rotate90` on the RGBA image with the given
/// dimensions and channel bytes. The contract restates the loop in the
/// crate's `rotate90_in`: the pixel at `(x, y)` is put at `(height - 1 - y, x)`
/// of an image `height` wide and `width` high.
#[verifier::external_body]
fn codec_rotate90(width: u32, height: u32, data: &Vec<u8>) -> (out: Vec<u8>)
    requires
        data@.len() == 4 * width * height,
    ensures
        out@ == (Raster { width: width as nat, height: height as nat, data: data@ }).rotate90().data,
{
    let buffer = RgbaImage::from_raw(width, height, data.clone()).unwrap();
    DynamicImage::ImageRgba8(buffer).rotate90().into_rgba8().into_raw()
}

/// Calls `image::DynamicImage::rotate180` on the RGBA image with the given
/// dimensions and channel bytes. The contract restates the loop in the
/// crate's `rotate180_in`: the pixel at `(x, y)` is put at
/// `(width - 1 - x, height - 1 - y)` of an image of the same dimensions.
#[verifier::external_body]
fn codec_rotate180(width: u32, height: u32, data: &Vec<u8>) -> (out: Vec<u8>)
    requires
        data@.len() == 4 * width * height,
    ensures
        out@ == (Raster { width: width as nat, height: height as nat, data: data@ }).rotate180().data,
{
    let buffer = RgbaImage::from_raw(width, height, data.clone()).unwrap();
    DynamicImage::ImageRgba8(buffer).rotate180().into_rgba8().into_raw()
}

/// Calls `image::DynamicImage::rotate270` on the RGBA image with the given
/// dimensions and channel bytes. The contract restates the loop in the
/// crate's `rotate270_in`: the pixel at `(x, y)` is put at `(y, width - 1 - x)`
/// of an image `height` wide and `width` high.
#[verifier::external_body]
fn codec_rotate270(width: u32, height: u32, data: &Vec<u8>) -> (out: Vec<u8>)
    requires
        data@.len() == 4 * width * height,
    ensures
        out@ == (Raster { width: width as nat, height: height as nat, data: data@ }).rotate270().data,
{
    let buffer = RgbaImage::from_raw(width, height, data.clone()).unwrap();
    DynamicImage::ImageRgba8(buffer).rotate270().into_rgba8().into_raw()
}

/// The largest width or height, of the image or of the target, that
/// [`Image::resize_exact`] takes. The codec places pixels and weighs them in
/// 32-bit floating point. Up to this size a position is off by less than a
/// hundredth of a pixel, so the pixel nearest to the centre of a window lies
/// in the window and the weights, which the codec divides by their sum, sum
/// to more than zero. From 2^24 on, whole windows can miss their centre, the
/// sum can be zero, and the codec panics on the value that the division
/// gives.
pub const RESIZE_LIMIT: u32 = 65_535;

/// Calls `image::DynamicImage::resize_exact` with `FilterType::Lanczos3`. The
/// result is named, not computed here; the crate allocates exactly
/// `nwidth * nheight` pixels for it. The preconditions keep every dimension
/// within [`RESIZE_LIMIT`], where the crate's floating-point weights are
/// sound, and keep both buffers that the crate allocates (an intermediate one
/// of `width * nheight` pixels of four 32-bit samples, and the result) within
/// what a vector can hold.
#[verifier::external_body]
fn codec_resize_lanczos3(width: u32, height: u32, data: &Vec<u8>, nwidth: u32, nheight: u32) -> (out:
    Vec<u8>)
    requires
        data@.len() == 4 * width * height,
        width <= RESIZE_LIMIT,
        height <= RESIZE_LIMIT,
        nwidth <= RESIZE_LIMIT,
        nheight <= RESIZE_LIMIT,
        16 * width * nheight <= isize::MAX,
        4 * nwidth * nheight <= isize::MAX,
    ensures
        out@ == lanczos3_resized(width as nat, height as nat, data@, nwidth as nat, nheight as nat),
        out@.len() == 4 * nwidth * nheight,
{
    let buffer = RgbaImage::from_raw(width, height, data.clone()).unwrap();
    let resized = DynamicImage::ImageRgba8(buffer).resize_exact(nwidth, nheight, FilterType::Lanczos3);
    resized.into_rgba8().into_raw()
}

/// Calls `image::DynamicImage::to_luma8` on the RGBA image with the given
/// dimensions and channel bytes. The result is named, not computed here; the
/// crate returns one byte for each pixel.
#[verifier::external_body]
fn codec_to_luma8(width: u32, height: u32, data: &Vec<u8>) -> (out: Vec<u8>)
    requires
        data@.len() == 4 * width * height,
    ensures
        out@ == luma8_of(data@),
        out@.len() == width * height,
{
    let buffer = RgbaImage::from_raw(width, height, data.clone()).unwrap();
    DynamicImage::ImageRgba8(buffer).to_luma8().into_raw()
}

/// A decoded image: `width * height` pixels of four channel bytes each. Every
/// image is a well-formed raster; the functions that read one say so.
#[derive(Debug, PartialEq, Eq)]
pub struct Image {
    width: u32,
    height: u32,
    data: Vec<u8>,
}

impl View for Image {
    type V = Raster;

    closed spec fn view(&self) -> Raster {
        Raster { width: self.width as nat, height: self.height as nat, data: self.data@ }
    }
}

impl Clone for Image {
    fn clone(&self) -> (copy: Image)
        ensures
            copy@ == self@,
    {
        proof {
            use_type_invariant(self);
        }
        let data = self.data.clone();
        assert(data@ =~= self.data@);
        Image { width: self.width, height: self.height, data }
    }
}

impl Image {
    #[verifier::type_invariant]
    spec fn inv(self) -> bool {
        self.data@.len() == 4 * self.width * self.height
    }

    /// Builds an image from its dimensions and channel bytes, if the bytes
    /// cover the dimensions exactly.
    pub fn new(width: u32, height: u32, data: Vec<u8>) -> (r: Option<Image>)
        ensures
            r is Some <==> data@.len() == 4 * width * height,
            r matches Some(img) ==> img@ == (Raster {
                width: width as nat,
                height: height as nat,
                data: data@,
            }),
    {
        assert(4 * width * height <= 4 * 0xffff_ffff * 0xffff_ffff) by (nonlinear_arith)
            requires
                width <= 0xffff_ffff,
                height <= 0xffff_ffff,
        ;
        let need: u128 = 4 * (width as u128) * (height as u128);
        if data.len() as u128 == need {
            Some(Image { width, height, data })
        } else {
            None
        }
    }

    /// Width in pixels.
    pub fn width(&self) -> (w: u32)
        ensures
            w == self@.width,
            self@.wf(),
    {
        proof {
            use_type_invariant(self);
        }
        self.width
    }

    /// Height in pixels.
    pub fn height(&self) -> (h: u32)
        ensures
            h == self@.height,
            self@.wf(),
    {
        proof {
            use_type_invariant(self);
        }
        self.height
    }

    /// The channel bytes, four per pixel in row-major order.
    pub fn as_raw(&self) -> (data: &Vec<u8>)
        ensures
            data@ == self@.data,
            self@.wf(),
    {
        proof {
            use_type_invariant(self);
        }
        &self.data
    }

    /// Gives up the image for its channel bytes.
    pub fn into_raw(self) -> (data: Vec<u8>)
        ensures
            data@ == self@.data,
            self@.wf(),
    {
        proof {
            use_type_invariant(&self);
        }
        self.data
    }

    /// A copy turned a quarter clockwise.
    pub fn rotate90(&self) -> (out: Image)
        ensures
            out@ == self@.rotate90(),
            self@.wf(),
            out@.wf(),
    {
        proof {
            use_type_invariant(self);
            lemma_mul_swap(self.width as int, self.height as int);
        }
        let data = codec_rotate90(self.width, self.height, &self.data);
        Image { width: self.height, height: self.width, data }
    }

    /// A copy turned upside down.
    pub fn rotate180(&self) -> (out: Image)
        ensures
            out@ == self@.rotate180(),
            self@.wf(),
            out@.wf(),
    {
        proof {
            use_type_invariant(self);
        }
        let data = codec_rotate180(self.width, self.height, &self.data);
        Image { width: self.width, height: self.height, data }
    }

    /// A copy turned three quarters clockwise.
    pub fn rotate270(&self) -> (out: Image)
        ensures
            out@ == self@.rotate270(),
            self@.wf(),
            out@.wf(),
    {
        proof {
            use_type_invariant(self);
            lemma_mul_swap(self.width as int, self.height as int);
        }
        let data = codec_rotate270(self.width, self.height, &self.data);
        Image { width: self.height, height: self.width, data }
    }

    /// Whether the codec can resample this raster to `nwidth` by `nheight`
    /// pixels: no dimension is past [`RESIZE_LIMIT`], and the buffers that
    /// the codec allocates on the way fit in memory.
    pub open spec fn resizable(raster: Raster, nwidth: nat, nheight: nat) -> bool {
        &&& raster.width <= RESIZE_LIMIT
        &&& raster.height <= RESIZE_LIMIT
        &&& nwidth <= RESIZE_LIMIT
        &&& nheight <= RESIZE_LIMIT
        &&& 16 * raster.width * nheight <= isize::MAX
        &&& 4 * nwidth * nheight <= isize::MAX
    }

    /// Tells whether [`Image::resize_exact`] accepts the target dimensions.
    pub fn can_resize(&self, nwidth: u32, nheight: u32) -> (ok: bool)
        ensures
            ok == Self::resizable(self@, nwidth as nat, nheight as nat),
    {
        if self.width > RESIZE_LIMIT || self.height > RESIZE_LIMIT || nwidth > RESIZE_LIMIT
            || nheight > RESIZE_LIMIT {
            return false;
        }
        assert(16 * self.width * nheight <= 16 * 65535 * 65535) by (nonlinear_arith)
            requires
                self.width <= 65535,
                nheight <= 65535,
        ;
        assert(4 * nwidth * nheight <= 4 * 65535 * 65535) by (nonlinear_arith)
            requires
                nwidth <= 65535,
                nheight <= 65535,
        ;
        let limit: u64 = isize::MAX as u64;
        16 * (self.width as u64) * (nheight as u64) <= limit && 4 * (nwidth as u64) * (
        nheight as u64) <= limit
    }

    /// A copy resampled to exactly `nwidth` by `nheight` pixels with the
    /// Lanczos-3 filter.
    pub fn resize_exact(&self, nwidth: u32, nheight: u32) -> (out: Image)
        requires
            Self::resizable(self@, nwidth as nat, nheight as nat),
        ensures
            out@.width == nwidth,
            out@.height == nheight,
            out@.data == lanczos3_resized(
                self@.width,
                self@.height,
                self@.data,
                nwidth as nat,
                nheight as nat,
            ),
            out@.wf(),
    {
        proof {
            use_type_invariant(self);
        }
        let data = codec_resize_lanczos3(self.width, self.height, &self.data, nwidth, nheight);
        Image { width: nwidth, height: nheight, data }
    }

    /// The luminance of each pixel as one byte, in row-major order.
    pub fn to_luma8(&self) -> (luma: Vec<u8>)
        ensures
            luma@ == luma8_of(self@.data),
            luma@.len() == self@.width * self@.height,
    {
        proof {
            use_type_invariant(self);
        }
        codec_to_luma8(self.width, self.height, &self.data)
    }
}

proof fn lemma_mul_swap(a: int, b: int)
    ensures
        a * b == b * a,
        4 * a * b == 4 * b * a,
{
    assert(a * b == b * a) by (nonlinear_arith);
    assert(4 * a * b == 4 * (a * b)) by (nonlinear_arith);
    assert(4 * b * a == 4 * (b * a)) by (nonlinear_arith);
}

/// The position of a channel byte determines its column, row and channel.
pub proof fn lemma_offset_parts(width: nat, x: int, y: int, c: int)
    requires
        0 <= x < width,
        0 <= y,
        0 <= c < 4,
    ensures
        offset(width, x, y, c) >= 0,
        offset(width, x, y, c) / 4 == y * width + x,
        offset(width, x, y, c) % 4 == c,
        (offset(width, x, y, c) / 4) % (width as int) == x,
        (offset(width, x, y, c) / 4) / (width as int) == y,
{
    let p = y * width + x;
    assert(0 <= y * width) by (nonlinear_arith)
        requires
            0 <= y,
            0 <= width,
    ;
    lemma_fundamental_div_mod_converse(p, width as int, y, x);
}

/// A channel byte of a pixel inside the raster lies inside its data.
pub proof fn lemma_offset_bound(width: nat, height: nat, x: int, y: int, c: int)
    requires
        0 <= x < width,
        0 <= y < height,
        0 <= c < 4,
    ensures
        0 <= offset(width, x, y, c) < 4 * width * height,
{
    assert(0 <= y * width && y * width + width <= height * width) by (nonlinear_arith)
        requires
            0 <= y < height,
            0 <= width,
    ;
    assert(4 * width * height == 4 * (height * width)) by (nonlinear_arith);
}

/// Every position in the data of a raster is the channel byte of one pixel
/// inside it.
pub proof fn lemma_offset_whole(width: nat, height: nat, i: int)
    requires
        0 <= i < 4 * width * height,
    ensures
        width > 0,
        0 <= (i / 4) % (width as int) < width,
        0 <= (i / 4) / (width as int) < height,
        0 <= i % 4 < 4,
        i == offset(width, (i / 4) % (width as int), (i / 4) / (width as int), i % 4),
{
    if width == 0 {
        assert(4 * width * height == 0) by (nonlinear_arith)
            requires
                width == 0,
        ;
    }
    let w = width as int;
    let p = i / 4;
    lemma_fundamental_div_mod(p, w);
    assert(4 * width * height == 4 * (width * height)) by (nonlinear_arith);
    assert(p < w * height);
    assert(0 <= p / w) by (nonlinear_arith)
        requires
            0 <= p,
            0 < w,
    ;
    assert(p / w < height) by (nonlinear_arith)
        requires
            p < w * height,
            p == w * (p / w) + p % w,
            0 <= p % w,
            0 < w,
    ;
    assert((p / w) * w == w * (p / w)) by (nonlinear_arith);
}

impl Raster {
    /// Where each pixel of a quarter turn comes from.
    pub proof fn lemma_rotate90_at(self, x: int, y: int, c: int)
        requires
            self.wf(),
            0 <= x < self.height,
            0 <= y < self.width,
            0 <= c < 4,
        ensures
            self.rotate90().wf(),
            self.rotate90().at(x, y, c) == self.at(y, self.height - 1 - x, c),
    {
        lemma_mul_swap(self.width as int, self.height as int);
        lemma_offset_parts(self.height, x, y, c);
        lemma_offset_bound(self.height, self.width, x, y, c);
    }

    /// Where each pixel of a half turn comes from.
    pub proof fn lemma_rotate180_at(self, x: int, y: int, c: int)
        requires
            self.wf(),
            0 <= x < self.width,
            0 <= y < self.height,
            0 <= c < 4,
        ensures
            self.rotate180().wf(),
            self.rotate180().at(x, y, c) == self.at(self.width - 1 - x, self.height - 1 - y, c),
    {
        lemma_offset_parts(self.width, x, y, c);
        lemma_offset_bound(self.width, self.height, x, y, c);
    }

    /// Where each pixel of a three-quarter turn comes from.
    pub proof fn lemma_rotate270_at(self, x: int, y: int, c: int)
        requires
            self.wf(),
            0 <= x < self.height,
            0 <= y < self.width,
            0 <= c < 4,
        ensures
            self.rotate270().wf(),
            self.rotate270().at(x, y, c) == self.at(self.width - 1 - y, x, c),
    {
        lemma_mul_swap(self.width as int, self.height as int);
        lemma_offset_parts(self.height, x, y, c);
        lemma_offset_bound(self.height, self.width, x, y, c);
    }

    /// A quarter turn after a three-quarter turn gives the raster back, pixel
    /// for pixel.
    pub proof fn lemma_rotate90_undoes_rotate270(self)
        requires
            self.wf(),
        ensures
            self.rotate270().rotate90() == self,
    {
        let turned = self.rotate270();
        let back = turned.rotate90();
        lemma_mul_swap(self.width as int, self.height as int);
        assert forall|i: int| 0 <= i < self.data.len() implies back.data[i] == self.data[i] by {
            lemma_offset_whole(self.width, self.height, i);
            let x = (i / 4) % (self.width as int);
            let y = (i / 4) / (self.width as int);
            let c = i % 4;
            assert(back.data[i] == turned.at(y, self.width - 1 - x, c));
            self.lemma_rotate270_at(y, self.width - 1 - x, c);
        }
        assert(back.data =~= self.data);
    }

    /// A three-quarter turn after a quarter turn gives the raster back, pixel
    /// for pixel.
    pub proof fn lemma_rotate270_undoes_rotate90(self)
        requires
            self.wf(),
        ensures
            self.rotate90().rotate270() == self,
    {
        let turned = self.rotate90();
        let back = turned.rotate270();
        lemma_mul_swap(self.width as int, self.height as int);
        assert forall|i: int| 0 <= i < self.data.len() implies back.data[i] == self.data[i] by {
            lemma_offset_whole(self.width, self.height, i);
            let x = (i / 4) % (self.width as int);
            let y = (i / 4) / (self.width as int);
            let c = i % 4;
            assert(back.data[i] == turned.at(self.height - 1 - y, x, c));
            self.lemma_rotate90_at(self.height - 1 - y, x, c);
        }
        assert(back.data =~= self.data);
    }

    /// Two half turns give the raster back, pixel for pixel.
    pub proof fn lemma_rotate180_twice(self)
        requires
            self.wf(),
        ensures
            self.rotate180().rotate180() == self,
    {
        let turned = self.rotate180();
        let back = turned.rotate180();
        assert forall|i: int| 0 <= i < self.data.len() implies back.data[i] == self.data[i] by {
            lemma_offset_whole(self.width, self.height, i);
            let x = (i / 4) % (self.width as int);
            let y = (i / 4) / (self.width as int);
            let c = i % 4;
            assert(back.data[i] == turned.at(self.width - 1 - x, self.height - 1 - y, c));
            self.lemma_rotate180_at(self.width - 1 - x, self.height - 1 - y, c);
        }
        assert(back.data =~= self.data);
    }

    /// Two quarter turns make a half turn.
    pub proof fn lemma_rotate90_twice(self)
        requires
            self.wf(),
        ensures
            self.rotate90().rotate90() == self.rotate180(),
    {
        let turned = self.rotate90();
        let twice = turned.rotate90();
        let half = self.rotate180();
        lemma_mul_swap(self.width as int, self.height as int);
        assert forall|i: int| 0 <= i < self.data.len() implies twice.data[i] == half.data[i] by {
            lemma_offset_whole(self.width, self.height, i);
            let x = (i / 4) % (self.width as int);
            let y = (i / 4) / (self.width as int);
            let c = i % 4;
            assert(twice.data[i] == turned.at(y, self.width - 1 - x, c));
            self.lemma_rotate90_at(y, self.width - 1 - x, c);
        }
        assert(twice.data =~= half.data);
    }
}

} // verus!
