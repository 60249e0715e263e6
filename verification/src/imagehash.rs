//! Hash algorithms: each turns a decoded image into a fingerprint.
//!
//! [`AverageHash`] resamples the image to a small grid, turns it to
//! grayscale, and emits one bit per pixel: set where the pixel is darker than
//! the mean of the grid.

use vstd::prelude::*;
use crate::fingerprint;
use crate::fingerprint::hex_of;
use crate::fingerprint::ones;
use crate::fingerprint::packed;
use crate::raster::Image;
use crate::raster::Raster;
use crate::raster::lanczos3_resized;
use crate::raster::luma8_of;

verus! {

/// Sum of the luminance values.
pub open spec fn total(luma: Seq<u8>) -> int
    decreases luma.len(),
{
    if luma.len() == 0 {
        0
    } else {
        total(luma.drop_last()) + luma.last() as int
    }
}

/// One bit per pixel: set where the pixel is darker than the mean of all of
/// them. A value `p` lies below the mean `total / len` exactly when
/// `p * len < total`, which needs no division.
pub open spec fn mean_bits(luma: Seq<u8>) -> Seq<bool> {
    Seq::new(luma.len(), |i: int| luma[i] as int * luma.len() < total(luma))
}

/// The algorithm of [`AverageHash`] on the luminance values of the sampling
/// grid: one bit per pixel, set where the pixel is darker than the mean.
pub fn mean_threshold(luma: &Vec<u8>) -> (h: fingerprint::Hash)
    requires
        luma@.len() <= usize::MAX / 8,
    ensures
        h@ == mean_bits(luma@),
{
    let len = luma.len();
    let mut sum: u128 = 0;
    let mut i: usize = 0;
    while i < len
        invariant
            len == luma@.len(),
            i <= len,
            sum == total(luma@.take(i as int)),
            sum <= 255 * i,
        decreases len - i,
    {
        assert(luma@.take(i + 1).drop_last() =~= luma@.take(i as int));
        sum = sum + luma[i] as u128;
        i += 1;
    }
    assert(luma@.take(len as int) =~= luma@);
    let mut h = fingerprint::Hash::empty();
    let mut i: usize = 0;
    while i < len
        invariant
            len == luma@.len(),
            len <= usize::MAX / 8,
            i <= len,
            sum == total(luma@),
            h@ == mean_bits(luma@).take(i as int),
        decreases len - i,
    {
        assert(luma[i as int] * len <= 255 * 0xffff_ffff_ffff_ffff) by (nonlinear_arith)
            requires
                luma[i as int] <= 255,
                len <= 0xffff_ffff_ffff_ffff,
        ;
        let darker = (luma[i] as u128) * (len as u128) < sum;
        h.push(darker);
        assert(mean_bits(luma@).take(i as int).push(darker) =~= mean_bits(luma@).take(i + 1));
        i += 1;
    }
    assert(mean_bits(luma@).take(len as int) =~= mean_bits(luma@));
    h
}

/// What every hash algorithm offers: a default configuration, and a
/// fingerprint for an image.
pub trait HashMethod: Default + Sized {
    /// The fingerprint that this configuration gives a raster.
    spec fn fingerprint(&self, img: Raster) -> Seq<bool>;

    /// Number of bits of every fingerprint that this configuration gives.
    spec fn bit_len(&self) -> nat;

    /// Whether hashing this raster stays within what the codec and the
    /// machine can take.
    spec fn accepts(&self, img: Raster) -> bool;

    /// The default configuration.
    fn new() -> (method: Self)
        ensures
            call_ensures(Self::default, (), method),
    {
        Self::default()
    }

    /// Computes the fingerprint of an image.
    fn hash(self, img: Image) -> (h: fingerprint::Hash)
        requires
            self.accepts(img@),
        ensures
            h@ == self.fingerprint(img@),
            h@.len() == self.bit_len(),
    ;
}

/// Average hash: the image is resampled to a grid of `img_size` pixels and
/// turned to grayscale; each pixel gives one bit, set where it is darker than
/// the mean of the grid.
#[derive(Clone, Copy, Debug, PartialEq, Eq)]
pub struct AverageHash {
    img_size: (usize, usize),
}

impl AverageHash {
    /// Width of the sampling grid.
    pub closed spec fn grid_width(self) -> nat {
        self.img_size.0 as nat
    }

    /// Height of the sampling grid.
    pub closed spec fn grid_height(self) -> nat {
        self.img_size.1 as nat
    }

    /// The sampling grid, width first.
    pub fn img_size(&self) -> (size: (usize, usize))
        ensures
            size.0 == self.grid_width(),
            size.1 == self.grid_height(),
    {
        self.img_size
    }

    /// The same configuration with another sampling grid.
    pub fn with_img_size(self, width: usize, height: usize) -> (method: AverageHash)
        ensures
            method.grid_width() == width,
            method.grid_height() == height,
    {
        AverageHash { img_size: (width, height) }
    }

    /// The same configuration with fingerprints laid out as `width` by
    /// `height` bits. Each pixel of the sampling grid gives one bit, so this
    /// is the sampling grid under its other name.
    pub fn with_hash_size(self, width: usize, height: usize) -> (method: AverageHash)
        ensures
            method.grid_width() == width,
            method.grid_height() == height,
    {
        AverageHash { img_size: (width, height) }
    }

    /// Tells whether [`HashMethod::hash`] accepts the image.
    pub fn can_hash(&self, img: &Image) -> (ok: bool)
        ensures
            ok == self.accepts(img@),
    {
        if self.img_size.0 > u32::MAX as usize || self.img_size.1 > u32::MAX as usize {
            return false;
        }
        img.can_resize(self.img_size.0 as u32, self.img_size.1 as u32)
    }
}

impl Default for AverageHash {
    /// A grid of 8 by 8 pixels, which gives fingerprints of 64 bits.
    fn default() -> (method: AverageHash)
        ensures
            method.grid_width() == 8,
            method.grid_height() == 8,
    {
        AverageHash { img_size: (8, 8) }
    }
}

impl HashMethod for AverageHash {
    open spec fn fingerprint(&self, img: Raster) -> Seq<bool> {
        mean_bits(
            luma8_of(
                lanczos3_resized(
                    img.width,
                    img.height,
                    img.data,
                    self.grid_width(),
                    self.grid_height(),
                ),
            ),
        )
    }

    open spec fn bit_len(&self) -> nat {
        self.grid_width() * self.grid_height()
    }

    open spec fn accepts(&self, img: Raster) -> bool {
        &&& self.grid_width() <= u32::MAX
        &&& self.grid_height() <= u32::MAX
        &&& Image::resizable(img, self.grid_width(), self.grid_height())
    }

    fn hash(self, img: Image) -> (h: fingerprint::Hash)
        ensures
            h@.len() == self.grid_width() * self.grid_height(),
            ones(h@) <= h@.len(),
            h@.len() > 0 ==> ones(h@) < h@.len(),
    {
        let resized = img.resize_exact(self.img_size.0 as u32, self.img_size.1 as u32);
        let luma = resized.to_luma8();
        proof {
            let (w, h) = (self.grid_width() as int, self.grid_height() as int);
            assert(4 * w * h == 4 * (w * h)) by (nonlinear_arith);
            assert(isize::MAX / 4 <= usize::MAX / 8);
            lemma_mean_bits_balance(luma@);
        }
        mean_threshold(&luma)
    }
}

/// A fingerprint has no more set bits than bits, and as many only if every
/// bit is set.
pub proof fn lemma_ones_bound(bits: Seq<bool>)
    ensures
        ones(bits) <= bits.len(),
        ones(bits) == bits.len() ==> forall|i: int| 0 <= i < bits.len() ==> bits[i],
    decreases bits.len(),
{
    if bits.len() > 0 {
        let front = bits.drop_last();
        lemma_ones_bound(front);
        if ones(bits) == bits.len() {
            assert forall|i: int| 0 <= i < bits.len() implies bits[i] by {
                if i < front.len() {
                    assert(front[i] == bits[i]);
                }
            }
        }
    }
}

/// A fingerprint without a set bit has none to count.
pub proof fn lemma_ones_none(bits: Seq<bool>)
    requires
        forall|i: int| 0 <= i < bits.len() ==> !bits[i],
    ensures
        ones(bits) == 0,
    decreases bits.len(),
{
    if bits.len() > 0 {
        lemma_ones_none(bits.drop_last());
    }
}

/// If each of some values, taken `n` times, stays below `t`, then their sum,
/// taken `n` times, stays below `t` taken once for each value.
proof fn lemma_total_below(luma: Seq<u8>, n: int, t: int)
    requires
        luma.len() > 0,
        forall|i: int| 0 <= i < luma.len() ==> luma[i] as int * n < t,
    ensures
        total(luma) * n < luma.len() * t,
    decreases luma.len(),
{
    let front = luma.drop_last();
    let last = luma.last() as int;
    assert(last * n < t);
    if front.len() == 0 {
        assert(total(front) == 0);
        assert((0 + last) * n == last * n && 1 * t == t) by (nonlinear_arith);
    } else {
        assert forall|i: int| 0 <= i < front.len() implies front[i] as int * n < t by {
            assert(front[i] == luma[i]);
        }
        lemma_total_below(front, n, t);
        let s = total(front);
        let m = front.len() as int;
        assert((s + last) * n < (m + 1) * t) by (nonlinear_arith)
            requires
                s * n < m * t,
                last * n < t,
        ;
    }
}

/// The sum of equal values is one of them taken once for each.
proof fn lemma_total_uniform(luma: Seq<u8>, p: int)
    requires
        forall|i: int| 0 <= i < luma.len() ==> luma[i] as int == p,
    ensures
        total(luma) == luma.len() * p,
    decreases luma.len(),
{
    if luma.len() == 0 {
        assert(0 * p == 0) by (nonlinear_arith);
    } else {
        let front = luma.drop_last();
        assert forall|i: int| 0 <= i < front.len() implies front[i] as int == p by {
            assert(front[i] == luma[i]);
        }
        lemma_total_uniform(front, p);
        let m = front.len() as int;
        assert(m * p + p == (m + 1) * p) by (nonlinear_arith);
    }
}

/// Balance of the bits: the pixels of a grid are never all darker than their
/// mean, so a fingerprint of at least one bit has fewer set bits than bits.
pub proof fn lemma_mean_bits_balance(luma: Seq<u8>)
    ensures
        mean_bits(luma).len() == luma.len(),
        ones(mean_bits(luma)) <= luma.len(),
        luma.len() > 0 ==> ones(mean_bits(luma)) < luma.len(),
{
    let bits = mean_bits(luma);
    let n = luma.len() as int;
    let t = total(luma);
    lemma_ones_bound(bits);
    if n > 0 && ones(bits) == n {
        assert forall|i: int| 0 <= i < luma.len() implies luma[i] as int * n < t by {
            assert(bits[i]);
        }
        lemma_total_below(luma, n, t);
        assert(t * n == n * t) by (nonlinear_arith);
    }
}

/// A grid of one shade gives no set bit: a pixel equal to the mean is not
/// darker than it.
pub proof fn lemma_mean_bits_uniform(luma: Seq<u8>)
    requires
        forall|i: int, j: int| 0 <= i < luma.len() && 0 <= j < luma.len() ==> luma[i] == luma[j],
    ensures
        forall|i: int| 0 <= i < luma.len() ==> !mean_bits(luma)[i],
        ones(mean_bits(luma)) == 0,
{
    if luma.len() > 0 {
        let p = luma[0] as int;
        let n = luma.len() as int;
        lemma_total_uniform(luma, p);
        assert(p * n == n * p) by (nonlinear_arith);
    }
    lemma_ones_none(mean_bits(luma));
}

/// Hashing is a function of the configuration and the image: two
/// fingerprints that both are what the configuration gives the image are
/// equal, bit for bit and in both forms.
pub proof fn lemma_hash_deterministic<M: HashMethod>(
    method: M,
    img: Raster,
    first: Seq<bool>,
    second: Seq<bool>,
)
    requires
        first == method.fingerprint(img),
        second == method.fingerprint(img),
    ensures
        first == second,
        packed(first) == packed(second),
        hex_of(packed(first)) == hex_of(packed(second)),
{
}

} // verus!
