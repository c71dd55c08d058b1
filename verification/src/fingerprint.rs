//! Fingerprint engine: reduces a full image to a small fixed-size grayscale
//! digest and computes a bounded change metric between two digests.
//!
//! The change rate is kept in hundredths of a percent (0 ..= 10000), so the
//! whole pipeline stays in integer arithmetic: 10000 means every position
//! differs (or the digests are not comparable at all), 0 means no position
//! differs beyond the noise tolerance.

use vstd::prelude::*;
use vstd::arithmetic::div_mod::{lemma_div_is_ordered, lemma_div_multiples_vanish};
use vstd::arithmetic::mul::lemma_mul_inequality;

use crate::encoding::{b64_decode, b64_decode_of};
use crate::errors::CaptureError;

verus! {

/// Width and height of the square thumbnail digest.
pub const THUMB_SIZE: usize = 64;

/// Bytes in one digest: one grayscale intensity per thumbnail pixel.
pub const DIGEST_LEN: usize = 4096;

/// Per-pixel grayscale differences of at most this value count as noise.
/// Only a strictly larger difference marks a pixel as changed.
pub const NOISE_TOLERANCE: u8 = 10;

/// Change rate given to digests that cannot be compared, and to a pair that
/// differs at every position: one hundred percent, in hundredths.
pub const FULL_CHANGE: u32 = 10000;

/// Absolute difference of two grayscale intensities.
pub open spec fn abs_diff(x: u8, y: u8) -> int {
    if x >= y {
        x - y
    } else {
        y - x
    }
}

/// Whether one digest position counts as changed: the difference must exceed
/// the noise tolerance strictly.
pub open spec fn pixel_changed(x: u8, y: u8) -> bool {
    abs_diff(x, y) > NOISE_TOLERANCE
}

/// How many of the first `n` positions of two equal-length digests changed.
pub open spec fn changed_count(a: Seq<u8>, b: Seq<u8>, n: int) -> int
    decreases n,
{
    if n <= 0 {
        0
    } else {
        changed_count(a, b, n - 1) + if pixel_changed(a[n - 1], b[n - 1]) {
            1int
        } else {
            0int
        }
    }
}

/// The change rate between two digests, in hundredths of a percent.
/// Digests of unequal length are not comparable and count as fully changed,
/// never as an error.
pub open spec fn spec_change_rate(a: Seq<u8>, b: Seq<u8>) -> int {
    if a.len() != b.len() {
        FULL_CHANGE as int
    } else if a.len() == 0 {
        0
    } else {
        changed_count(a, b, a.len() as int) * (FULL_CHANGE as int) / (a.len() as int)
    }
}

/// The changed-position count never exceeds the number of positions looked at.
pub proof fn lemma_changed_count_bounds(a: Seq<u8>, b: Seq<u8>, n: int)
    requires
        n >= 0,
    ensures
        0 <= changed_count(a, b, n) <= n,
    decreases n,
{
    if n > 0 {
        lemma_changed_count_bounds(a, b, n - 1);
    }
}

/// Every digest is unchanged relative to itself: the self change rate is zero.
pub proof fn lemma_change_rate_self(d: Seq<u8>)
    ensures
        spec_change_rate(d, d) == 0,
{
    assert forall|n: int| 0 <= n <= d.len() implies changed_count(d, d, n) == 0 by {
        lemma_changed_count_zero_upto(d, n);
    }
    if d.len() > 0 {
        assert(changed_count(d, d, d.len() as int) == 0);
        assert(0 * (FULL_CHANGE as int) / (d.len() as int) == 0) by {
            lemma_div_multiples_vanish(0, d.len() as int);
        }
    }
}

proof fn lemma_changed_count_zero_upto(d: Seq<u8>, n: int)
    ensures
        changed_count(d, d, n) == 0,
    decreases n,
{
    if n > 0 {
        lemma_changed_count_zero_upto(d, n - 1);
    }
}

/// Digests of different lengths always read as total change.
pub proof fn lemma_change_rate_len_mismatch(a: Seq<u8>, b: Seq<u8>)
    requires
        a.len() != b.len(),
    ensures
        spec_change_rate(a, b) == FULL_CHANGE,
{
}

/// The noise boundary is strict: a per-pixel difference of exactly the
/// tolerance does not count as changed, while tolerance plus one does.
pub proof fn lemma_noise_tolerance_boundary(x: u8, y: u8)
    ensures
        abs_diff(x, y) == NOISE_TOLERANCE ==> !pixel_changed(x, y),
        abs_diff(x, y) == NOISE_TOLERANCE + 1 ==> pixel_changed(x, y),
{
}

/// The change rate is always within 0 ..= 10000.
pub proof fn lemma_change_rate_bounds(a: Seq<u8>, b: Seq<u8>)
    ensures
        0 <= spec_change_rate(a, b) <= FULL_CHANGE,
{
    if a.len() == b.len() && a.len() > 0 {
        let n = a.len() as int;
        let c = changed_count(a, b, n);
        lemma_changed_count_bounds(a, b, n);
        lemma_mul_inequality(c, n, FULL_CHANGE as int);
        lemma_div_is_ordered(c * (FULL_CHANGE as int), n * (FULL_CHANGE as int), n);
        assert(n * (FULL_CHANGE as int) == (FULL_CHANGE as int) * n);
        lemma_div_multiples_vanish(FULL_CHANGE as int, n);
        lemma_div_is_ordered(0, c * (FULL_CHANGE as int), n);
    }
}

/// Percentage of digest positions (in hundredths of a percent) whose
/// intensity difference exceeds the noise tolerance. Unequal lengths yield
/// the maximum rate unconditionally.
pub fn calc_change_rate(a: &[u8], b: &[u8]) -> (r: u32)
    ensures
        r == spec_change_rate(a@, b@),
        r <= FULL_CHANGE,
{
    if a.len() != b.len() {
        return FULL_CHANGE;
    }
    let n = a.len();
    if n == 0 {
        return 0;
    }
    let mut changed: usize = 0;
    let mut i: usize = 0;
    while i < n
        invariant
            n == a@.len(),
            n == b@.len(),
            0 < n,
            i <= n,
            changed == changed_count(a@, b@, i as int),
            changed <= i,
        decreases n - i,
    {
        let d = if a[i] >= b[i] {
            a[i] - b[i]
        } else {
            b[i] - a[i]
        };
        if d > NOISE_TOLERANCE {
            changed = changed + 1;
        }
        i = i + 1;
    }
    proof {
        lemma_changed_count_bounds(a@, b@, n as int);
        let c = changed as int;
        let nn = n as int;
        lemma_mul_inequality(c, nn, FULL_CHANGE as int);
        lemma_div_is_ordered(c * (FULL_CHANGE as int), nn * (FULL_CHANGE as int), nn);
        assert(nn * (FULL_CHANGE as int) == (FULL_CHANGE as int) * nn);
        lemma_div_multiples_vanish(FULL_CHANGE as int, nn);
        lemma_div_is_ordered(0, c * (FULL_CHANGE as int), nn);
    }
    ((changed as u128) * (FULL_CHANGE as u128) / (n as u128)) as u32
}

/// What decoding and nearest-neighbour downscaling makes of an encoded image:
/// the 64x64 grayscale buffer, or `None` where the bytes are not a decodable
/// image.
pub uninterp spec fn thumb_of(image_bytes: Seq<u8>) -> Option<Seq<u8>>;

/// Relies on `image::load_from_memory`, `DynamicImage::resize_exact` with
/// `FilterType::Nearest` and `DynamicImage::to_luma8`: decoding plus
/// nearest-neighbour resampling is deterministic in the image bytes alone,
/// and the resulting 64x64 one-byte-per-pixel buffer holds 4096 bytes.
#[verifier::external_body]
fn png_thumbnail(image_bytes: &Vec<u8>) -> (r: Option<Vec<u8>>)
    ensures
        match r {
            Some(v) => thumb_of(image_bytes@) == Some(v@) && v@.len() == DIGEST_LEN,
            None => thumb_of(image_bytes@) is None,
        },
{
    match image::load_from_memory(image_bytes) {
        Ok(img) => Some(
            img.resize_exact(64, 64, image::imageops::FilterType::Nearest).to_luma8().into_raw(),
        ),
        Err(_) => None,
    }
}

/// Compute the 64x64 grayscale thumbnail digest of a base64-encoded image.
/// Fails with `DecodeError` exactly where the text is not valid base64 or
/// the decoded bytes are not a decodable image.
pub fn compute_fingerprint(image_base64: &str) -> (r: Result<Vec<u8>, CaptureError>)
    ensures
        match r {
            Ok(d) => {
                &&& b64_decode_of(image_base64@) matches Some(bytes)
                &&& thumb_of(bytes) == Some(d@)
                &&& d@.len() == DIGEST_LEN
            },
            Err(e) => {
                &&& e is DecodeError
                &&& match b64_decode_of(image_base64@) {
                    Some(bytes) => thumb_of(bytes) is None,
                    None => true,
                }
            },
        },
{
    let image_bytes = match b64_decode(image_base64) {
        Some(v) => v,
        None => {
            return Err(CaptureError::DecodeError);
        },
    };
    match png_thumbnail(&image_bytes) {
        Some(d) => Ok(d),
        None => Err(CaptureError::DecodeError),
    }
}

} // verus!
