//! Error thresholds: an absolute pixel count, or a ratio of the image size.

use vstd::prelude::*;

verus! {

/// The number of mismatched pixels tolerated before a run is a non-match:
/// either an absolute pixel count, or a ratio of the image's pixel count.
/// The ratio is held exactly as the fraction `num / den`.
#[derive(Clone, Copy, Debug, PartialEq, Eq, Structural)]
pub enum ErrorThreshold {
    Absolute(u32),
    Ratio { num: u64, den: u64 },
}

impl ErrorThreshold {
    /// A ratio lies in `[0, 1]`.
    pub open spec fn wf(self) -> bool {
        match self {
            ErrorThreshold::Absolute(_) => true,
            ErrorThreshold::Ratio { num, den } => 0 < den && num <= den,
        }
    }

    /// The absolute pixel count this threshold stands for on an image of
    /// `pixel_count` pixels: a ratio is scaled by the pixel count, truncated
    /// toward zero.
    pub open spec fn resolved_spec(self, pixel_count: int) -> int {
        match self {
            ErrorThreshold::Absolute(n) => n as int,
            ErrorThreshold::Ratio { num, den } => (num as int * pixel_count) / (den as int),
        }
    }

    /// A resolved threshold is never negative.
    pub proof fn lemma_resolved_nonneg(self, pixel_count: int)
        requires
            self.wf(),
            0 <= pixel_count,
        ensures
            0 <= self.resolved_spec(pixel_count),
    {
        match self {
            ErrorThreshold::Absolute(_) => {},
            ErrorThreshold::Ratio { num, den } => {
                vstd::arithmetic::mul::lemma_mul_nonnegative(num as int, pixel_count);
                vstd::arithmetic::div_mod::lemma_div_pos_is_pos(
                    num as int * pixel_count, den as int);
            },
        }
    }

    /// Resolves the threshold against the image dimensions.
    pub fn resolve(&self, width: u32, height: u32) -> (r: u64)
        requires
            self.wf(),
        ensures
            r == self.resolved_spec(width as int * height as int),
    {
        match self {
            ErrorThreshold::Absolute(n) => *n as u64,
            ErrorThreshold::Ratio { num, den } => {
                proof {
                    vstd::arithmetic::mul::lemma_mul_upper_bound(
                        width as int, u32::MAX as int, height as int, u32::MAX as int);
                }
                let wh: u128 = (width as u128) * (height as u128);
                proof {
                    vstd::arithmetic::mul::lemma_mul_upper_bound(
                        *num as int, u64::MAX as int, wh as int, u64::MAX as int);
                    vstd::arithmetic::mul::lemma_mul_inequality(
                        *num as int, *den as int, wh as int);
                    vstd::arithmetic::div_mod::lemma_div_is_ordered(
                        (*num as int) * (wh as int), (*den as int) * (wh as int), *den as int);
                    vstd::arithmetic::div_mod::lemma_div_multiples_vanish(
                        wh as int, *den as int);
                    vstd::arithmetic::mul::lemma_mul_nonnegative(*num as int, wh as int);
                    vstd::arithmetic::div_mod::lemma_div_pos_is_pos(
                        (*num as int) * (wh as int), *den as int);
                }
                let scaled: u128 = (*num as u128) * wh / (*den as u128);
                scaled as u64
            },
        }
    }
}

} // verus!
