//! Change-gated screen sampling: a fingerprint engine that reduces images to
//! small grayscale digests, a capture gate that decides when a sample is worth
//! the expensive analysis pipeline, an analysis orchestrator that builds the
//! interpretation request and classifies replies, and a scheduler that owns
//! the run/stop lifecycle.

use vstd::prelude::*;

pub mod analysis;
pub mod encoding;
pub mod errors;
pub mod fingerprint;
pub mod gate;
pub mod manual;
pub mod scheduler;
pub mod settings;
pub mod storage;
pub mod textops;

verus! {

/// Mask an API key for safe logging: show only the last 4 characters.
pub fn mask_api_key(key: &str) -> (r: String)
    ensures
        key@.len() <= 4 ==> r@ == "****"@,
        key@.len() > 4 ==> r@ == "****"@ + key@.subrange(key@.len() - 4, key@.len() as int),
{
    let n = key.unicode_len();
    let mut r = String::from_str("****");
    if n > 4 {
        let tail = key.substring_char(n - 4, n);
        r.append(tail);
    }
    r
}

} // verus!
