//! The file type of an image URL.

use vstd::prelude::*;

use crate::base::{default_hash_of, hash_str};
use crate::text::{chars_of, decimal, decimal_u128, is_word, lower_of, lowercase, push_str, slice_chars, string_of};

verus! {

/// The part of `s` before its first `c` (all of `s` without one).
pub open spec fn before_first(s: Seq<char>, c: char) -> Seq<char>
    decreases s.len(),
{
    if s.len() == 0 || s[0] == c {
        Seq::empty()
    } else {
        seq![s[0]] + before_first(s.drop_first(), c)
    }
}

/// The part of `s` after its last `c` (all of `s` without one).
pub open spec fn after_last(s: Seq<char>, c: char) -> Seq<char>
    decreases s.len(),
{
    if s.len() == 0 || s.last() == c {
        Seq::empty()
    } else {
        after_last(s.drop_last(), c).push(s.last())
    }
}

/// The extension of a lower-cased URL's path when it names a known image
/// type; `png` otherwise.
pub open spec fn ext_of_lower(lower: Seq<char>) -> Seq<char> {
    let e = after_last(before_first(lower, '?'), '.');
    if is_image_ext(e) {
        e
    } else {
        "png"@
    }
}

/// One of the image types that a cache file may carry.
pub open spec fn is_image_ext(e: Seq<char>) -> bool {
    e == "png"@ || e == "jpg"@ || e == "jpeg"@ || e == "webp"@ || e == "svg"@
}

/// The extension of a URL's path, lower-cased, when it names a known image
/// type; `png` otherwise.
pub open spec fn image_ext(url: Seq<char>) -> Seq<char> {
    ext_of_lower(lower_of(url))
}

pub(crate) proof fn lemma_before_first(s: Seq<char>, c: char, p: int)
    requires
        0 <= p <= s.len(),
        forall|k: int| 0 <= k < p ==> s[k] != c,
        p == s.len() || s[p] == c,
    ensures
        before_first(s, c) == s.take(p),
    decreases p,
{
    if p > 0 {
        lemma_before_first(s.drop_first(), c, p - 1);
        assert(s.take(p) =~= seq![s[0]] + s.drop_first().take(p - 1));
    } else {
        assert(s.take(0) =~= Seq::<char>::empty());
    }
}

proof fn lemma_after_last(s: Seq<char>, c: char, q: int)
    requires
        0 <= q <= s.len(),
        forall|k: int| q <= k < s.len() ==> s[k] != c,
        q == 0 || s[q - 1] == c,
    ensures
        after_last(s, c) == s.skip(q),
    decreases s.len() - q,
{
    if q < s.len() {
        lemma_after_last(s.drop_last(), c, q);
        assert(s.skip(q) =~= s.drop_last().skip(q).push(s.last()));
    } else {
        assert(s.skip(q) =~= Seq::<char>::empty());
    }
}

/// The image type of a URL, for naming its cache file.
pub fn get_image_url_ext(url: &str) -> (r: String)
    ensures
        r@ == image_ext(url@),
{
    let lower = lowercase(url);
    image_ext_of_lower(lower.as_str())
}

/// The image type of a lower-cased URL.
pub fn image_ext_of_lower(lower: &str) -> (r: String)
    ensures
        r@ == ext_of_lower(lower@),
{
    let cs = chars_of(lower);
    let mut p: usize = 0;
    while p < cs.len() && cs[p] != '?'
        invariant
            p <= cs@.len(),
            forall|k: int| 0 <= k < p ==> cs@[k] != '?',
        decreases cs@.len() - p,
    {
        p = p + 1;
    }
    proof {
        lemma_before_first(cs@, '?', p as int);
    }
    let no_query = slice_chars(&cs, 0, p);
    let mut q: usize = no_query.len();
    while q > 0 && no_query[q - 1] != '.'
        invariant
            q <= no_query@.len(),
            forall|k: int| q <= k < no_query@.len() ==> no_query@[k] != '.',
        decreases q,
    {
        q = q - 1;
    }
    proof {
        lemma_after_last(no_query@, '.', q as int);
    }
    let ext = slice_chars(&no_query, q, no_query.len());
    assert(ext@ =~= no_query@.skip(q as int));
    if is_word(&ext, "png") || is_word(&ext, "jpg") || is_word(&ext, "jpeg") || is_word(&ext, "webp")
        || is_word(&ext, "svg") {
        string_of(&ext)
    } else {
        "png".to_owned()
    }
}

/// Where downloaded images are cached.
pub const ICON_CACHE_DIR: &'static str = "user://cache/image";

/// The cache file of an image URL whose hash is `hash`: named by the hash,
/// typed by the URL's extension.
pub open spec fn cache_path_with(url: Seq<char>, hash: u64) -> Seq<char> {
    ICON_CACHE_DIR@ + "/"@ + decimal(hash as nat) + "."@ + image_ext(url)
}

pub fn cache_path_for(url: &str, hash: u64) -> (r: String)
    ensures
        r@ == cache_path_with(url@, hash),
{
    let ext = get_image_url_ext(url);
    let mut v: Vec<char> = Vec::new();
    push_str(&mut v, ICON_CACHE_DIR);
    push_str(&mut v, "/");
    let mut digits = decimal_u128(hash as u128);
    v.append(&mut digits);
    push_str(&mut v, ".");
    push_str(&mut v, ext.as_str());
    string_of(&v)
}

/// The cache file of an image URL, named by the URL's default hash.
pub fn get_cache_path(url: &str) -> (r: String)
    ensures
        r@ == cache_path_with(url@, default_hash_of(url@)),
{
    cache_path_for(url, hash_str(url))
}

} // verus!
