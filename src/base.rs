//! A general-purpose string hash, for naming cache files.

use std::hash::{DefaultHasher, Hash, Hasher};
use vstd::prelude::*;

verus! {

/// What std's default hasher, created with `DefaultHasher::new`, gives for
/// a string.
pub uninterp spec fn default_hash_of(s: Seq<char>) -> u64;

/// Relies on `DefaultHasher::new`, whose keys are fixed, fed the string
/// through `Hash for str`: the result depends on the characters alone.
#[verifier::external_body]
pub fn hash_str(url: &str) -> (r: u64)
    ensures
        r == default_hash_of(url@),
{
    let mut hasher = DefaultHasher::new();
    url.hash(&mut hasher);
    hasher.finish()
}

} // verus!
