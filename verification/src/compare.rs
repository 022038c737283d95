//! The comparator: per-channel thresholding, mismatch counting against the
//! error threshold, and diff-image synthesis, all in one pass.

use vstd::prelude::*;
use crate::raster::Image;
use crate::raster::Pixel;
use crate::threshold::ErrorThreshold;

verus! {

/// The comparison configuration: the per-channel difference threshold, the
/// tolerated number of mismatched pixels, and whether to build a diff image.
pub struct Config {
    pub channel_threshold: u8,
    pub error_threshold: ErrorThreshold,
    pub want_diff_image: bool,
}

/// The result of one comparison run. A non-match is either a dimension
/// mismatch — reported as such, with no pixels scanned — or a mismatch due
/// to content.
pub struct ComparisonOutcome {
    pub matched: bool,
    pub dimension_mismatch: bool,
    pub mismatched_pixel_count: u64,
    pub diff_image: Option<Image>,
}

/// The absolute difference of two channel values.
pub open spec fn abs_diff_spec(v1: u8, v2: u8) -> int {
    if v1 >= v2 { v1 - v2 } else { v2 - v1 }
}

/// A channel pair is divergent when its absolute difference exceeds the
/// channel threshold; a difference of exactly the threshold still passes.
pub open spec fn channel_divergent_spec(v1: u8, v2: u8, t: u8) -> bool {
    abs_diff_spec(v1, v2) > t
}

/// The diff image's channel value: 0 for a non-divergent channel; otherwise
/// the difference remapped into the upper half of the range by `128 + d / 2`,
/// so that every divergent channel is visible.
pub open spec fn diff_channel_spec(v1: u8, v2: u8, t: u8) -> u8 {
    if channel_divergent_spec(v1, v2, t) {
        (128 + abs_diff_spec(v1, v2) / 2) as u8
    } else {
        0
    }
}

/// A pixel pair is mismatched when at least one of its three channels is
/// divergent.
pub open spec fn pixel_mismatched_spec(p1: Pixel, p2: Pixel, t: u8) -> bool {
    ||| channel_divergent_spec(p1.r, p2.r, t)
    ||| channel_divergent_spec(p1.g, p2.g, t)
    ||| channel_divergent_spec(p1.b, p2.b, t)
}

/// The diff image's pixel for one input pixel pair.
pub open spec fn diff_pixel_spec(p1: Pixel, p2: Pixel, t: u8) -> Pixel {
    Pixel {
        r: diff_channel_spec(p1.r, p2.r, t),
        g: diff_channel_spec(p1.g, p2.g, t),
        b: diff_channel_spec(p1.b, p2.b, t),
    }
}

/// The whole diff image as a sequence of pixels.
pub open spec fn diff_seq(pa: Seq<Pixel>, pb: Seq<Pixel>, t: u8) -> Seq<Pixel> {
    Seq::new(pa.len(), |i: int| diff_pixel_spec(pa[i], pb[i], t))
}

/// The number of mismatched pixel pairs among the first `n`.
pub open spec fn mismatch_count_upto(pa: Seq<Pixel>, pb: Seq<Pixel>, t: u8, n: int) -> int
    decreases n,
{
    if n <= 0 {
        0
    } else {
        mismatch_count_upto(pa, pb, t, n - 1)
            + if pixel_mismatched_spec(pa[n - 1], pb[n - 1], t) { 1int } else { 0int }
    }
}

/// The number of mismatched pixel pairs over the whole image.
pub open spec fn mismatch_count(pa: Seq<Pixel>, pb: Seq<Pixel>, t: u8) -> int {
    mismatch_count_upto(pa, pb, t, pa.len() as int)
}

/// The final decision: a run matches exactly when the mismatch count stays
/// within the resolved error threshold.
pub open spec fn is_match(count: int, resolved_threshold: int) -> bool {
    count <= resolved_threshold
}

/// The absolute difference of two channel values.
pub fn abs_diff(v1: u8, v2: u8) -> (d: u8)
    ensures
        d == abs_diff_spec(v1, v2),
{
    if v1 >= v2 { v1 - v2 } else { v2 - v1 }
}

/// Whether a channel pair is divergent under threshold `t`.
pub fn channel_divergent(v1: u8, v2: u8, t: u8) -> (r: bool)
    ensures
        r == channel_divergent_spec(v1, v2, t),
{
    abs_diff(v1, v2) > t
}

/// The diff image's channel value for one channel pair.
pub fn diff_channel(v1: u8, v2: u8, t: u8) -> (r: u8)
    ensures
        r == diff_channel_spec(v1, v2, t),
{
    let d = abs_diff(v1, v2);
    if d > t {
        proof {
            assert(128u8 | (d >> 1u8) == (128 + d / 2) as u8) by (bit_vector);
        }
        128u8 | (d >> 1u8)
    } else {
        0
    }
}

/// Whether a pixel pair is mismatched under channel threshold `t`.
pub fn pixel_mismatched(p1: Pixel, p2: Pixel, t: u8) -> (r: bool)
    ensures
        r == pixel_mismatched_spec(p1, p2, t),
{
    channel_divergent(p1.r, p2.r, t)
        || channel_divergent(p1.g, p2.g, t)
        || channel_divergent(p1.b, p2.b, t)
}

/// Compares two images pixel by pixel.
///
/// Images of different dimensions are an immediate non-match: no pixels are
/// scanned and no diff image is produced. Otherwise every pixel pair is
/// examined, the mismatched ones are counted, the count is held against the
/// error threshold resolved over the pixel count, and, when requested, a
/// diff image of the same dimensions is built.
pub fn compare(a: &Image, b: &Image, config: &Config) -> (out: ComparisonOutcome)
    requires
        a.wf(),
        b.wf(),
        config.error_threshold.wf(),
    ensures
        out.dimension_mismatch == (a.width != b.width || a.height != b.height),
        (a.width != b.width || a.height != b.height) ==> {
            &&& !out.matched
            &&& out.mismatched_pixel_count == 0
            &&& out.diff_image is None
        },
        (a.width == b.width && a.height == b.height) ==> {
            let count = mismatch_count(a@, b@, config.channel_threshold);
            let resolved = config.error_threshold.resolved_spec(
                a.width as int * a.height as int);
            &&& out.mismatched_pixel_count == count
            &&& out.matched == is_match(count, resolved)
            &&& (config.want_diff_image ==> (out.diff_image matches Some(d)
                    && d.wf() && d.width == a.width && d.height == a.height
                    && d@ == diff_seq(a@, b@, config.channel_threshold)))
            &&& (!config.want_diff_image ==> out.diff_image is None)
        },
{
    if a.width != b.width || a.height != b.height {
        return ComparisonOutcome {
            matched: false,
            dimension_mismatch: true,
            mismatched_pixel_count: 0,
            diff_image: None,
        };
    }

    let t = config.channel_threshold;
    let total: usize = a.pixel_count();
    let mut count: u64 = 0;
    let mut diff_pixels: Vec<Pixel> = Vec::new();
    let mut i: usize = 0;
    while i < total
        invariant
            total == a@.len(),
            a@.len() == b@.len(),
            i <= total,
            count <= i,
            count == mismatch_count_upto(a@, b@, t, i as int),
            config.want_diff_image ==> diff_pixels@ =~= diff_seq(a@, b@, t).take(i as int),
            !config.want_diff_image ==> diff_pixels@.len() == 0,
        decreases total - i,
    {
        let pa = a.pixel_index(i);
        let pb = b.pixel_index(i);
        if pixel_mismatched(pa, pb, t) {
            count = count + 1;
        }
        if config.want_diff_image {
            let dp = Pixel {
                r: diff_channel(pa.r, pb.r, t),
                g: diff_channel(pa.g, pb.g, t),
                b: diff_channel(pa.b, pb.b, t),
            };
            diff_pixels.push(dp);
            proof {
                assert(diff_pixels@ =~= diff_seq(a@, b@, t).take(i as int + 1));
            }
        }
        i = i + 1;
    }

    let resolved: u64 = config.error_threshold.resolve(a.width, a.height);
    let matched = count <= resolved;

    let diff_image = if config.want_diff_image {
        proof {
            assert(diff_seq(a@, b@, t).take(total as int) =~= diff_seq(a@, b@, t));
        }
        let img = Image::from_pixels(a.width, a.height, diff_pixels);
        Some(img.unwrap())
    } else {
        None
    };

    ComparisonOutcome {
        matched,
        dimension_mismatch: false,
        mismatched_pixel_count: count,
        diff_image,
    }
}

/// Comparing any image with itself yields no mismatched pixels, and hence a
/// match under every channel threshold and well-formed error threshold.
pub proof fn lemma_identical_images_match(
    pa: Seq<Pixel>,
    t: u8,
    et: ErrorThreshold,
    pixel_count: int,
)
    requires
        et.wf(),
        0 <= pixel_count,
    ensures
        mismatch_count(pa, pa, t) == 0,
        is_match(mismatch_count(pa, pa, t), et.resolved_spec(pixel_count)),
{
    lemma_mismatch_count_upto_self(pa, t, pa.len() as int);
    et.lemma_resolved_nonneg(pixel_count);
}

proof fn lemma_mismatch_count_upto_self(pa: Seq<Pixel>, t: u8, n: int)
    ensures
        mismatch_count_upto(pa, pa, t, n) == 0,
    decreases n,
{
    if n > 0 {
        lemma_mismatch_count_upto_self(pa, t, n - 1);
    }
}

/// Raising the channel threshold never increases the mismatch count.
pub proof fn lemma_channel_threshold_monotonic(pa: Seq<Pixel>, pb: Seq<Pixel>, t1: u8, t2: u8)
    requires
        t1 <= t2,
    ensures
        mismatch_count(pa, pb, t2) <= mismatch_count(pa, pb, t1),
{
    lemma_mismatch_count_upto_monotonic(pa, pb, t1, t2, pa.len() as int);
}

proof fn lemma_mismatch_count_upto_monotonic(
    pa: Seq<Pixel>,
    pb: Seq<Pixel>,
    t1: u8,
    t2: u8,
    n: int,
)
    requires
        t1 <= t2,
    ensures
        mismatch_count_upto(pa, pb, t2, n) <= mismatch_count_upto(pa, pb, t1, n),
    decreases n,
{
    if n > 0 {
        lemma_mismatch_count_upto_monotonic(pa, pb, t1, t2, n - 1);
    }
}

/// The boundary of the error threshold: a mismatch count equal to the
/// resolved threshold still matches; one past it does not.
pub proof fn lemma_error_threshold_boundary(resolved_threshold: int)
    ensures
        is_match(resolved_threshold, resolved_threshold),
        !is_match(resolved_threshold + 1, resolved_threshold),
{
}

/// The boundary of the diff-image channel mapping: a difference of exactly
/// the channel threshold maps to 0, a difference one past it into the upper
/// half of the range.
pub proof fn lemma_diff_channel_boundary(v1: u8, v2: u8, t: u8)
    ensures
        abs_diff_spec(v1, v2) == t ==> diff_channel_spec(v1, v2, t) == 0,
        abs_diff_spec(v1, v2) == t + 1 ==> diff_channel_spec(v1, v2, t) == 128 + (t + 1) / 2,
{
}

} // verus!
