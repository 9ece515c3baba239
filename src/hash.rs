//! Stable 64-bit content fingerprints (an FNV-style accumulator) and the
//! capability that every comparable item implements.

use vstd::bytes::{spec_u64_from_le_bytes, u64_from_le_bytes};
use vstd::prelude::*;
use vstd::utf8::encode_utf8;

verus! {

/// The fixed non-zero seed of every accumulator.
pub const FNV_SEED: u64 = 0xcbf29ce484222325;

/// The odd multiplier applied to the running state before each word.
pub const FNV_PRIME: u64 = 0x100000001b3;

/// An order-sensitive 64-bit fingerprint of an item's semantic content.
#[derive(Debug, Clone, Copy, PartialEq, Eq, Structural, Hash, Default)]
pub struct ContentHash(pub u64);

/// One step of the accumulator: multiply (mod 2^64), then xor the new word.
pub open spec fn mix(state: u64, word: u64) -> u64 {
    (((state as nat) * (FNV_PRIME as nat)) % 0x1_0000_0000_0000_0000nat) as u64 ^ word
}

/// Folds a sequence of words, first to last, into a running state.
pub open spec fn absorb(state: u64, words: Seq<u64>) -> u64
    decreases words.len(),
{
    if words.len() == 0 {
        state
    } else {
        absorb(mix(state, words[0]), words.drop_first())
    }
}

/// A chunk of at most eight bytes, zero-padded and read little-endian.
pub open spec fn padded_word(chunk: Seq<u8>) -> u64 {
    spec_u64_from_le_bytes(chunk + Seq::new((8 - chunk.len()) as nat, |k: int| 0u8))
}

/// The words that a byte string contributes: one per chunk of eight bytes,
/// the last chunk zero-padded.
pub open spec fn byte_words(b: Seq<u8>) -> Seq<u64>
    decreases b.len(),
{
    if b.len() == 0 {
        Seq::empty()
    } else if b.len() <= 8 {
        seq![padded_word(b)]
    } else {
        seq![padded_word(b.take(8))] + byte_words(b.skip(8))
    }
}

/// The fingerprint of a sequence of words fed to a fresh accumulator.
pub open spec fn words_hash(words: Seq<u64>) -> u64 {
    absorb(FNV_SEED, words)
}

/// The fingerprint of a string: its UTF-8 bytes fed to a fresh accumulator.
pub open spec fn str_hash(s: Seq<char>) -> u64 {
    words_hash(byte_words(encode_utf8(s)))
}

/// Anything that has a pure, deterministic content fingerprint.
pub trait ContentHashable {
    /// The fingerprint of this value: what `content_hash` returns.
    spec fn spec_content_hash(&self) -> ContentHash;

    fn content_hash(&self) -> (r: ContentHash)
        ensures
            r == self.spec_content_hash(),
    ;
}

/// The accumulator behind every fingerprint.
#[derive(Debug, Default)]
pub struct StableHasher {
    state: u64,
}

impl View for StableHasher {
    type V = u64;

    closed spec fn view(&self) -> u64 {
        self.state
    }
}

impl StableHasher {
    pub fn new() -> (r: Self)
        ensures
            r@ == FNV_SEED,
    {
        StableHasher { state: FNV_SEED }
    }

    pub fn write_u64(&mut self, value: u64)
        ensures
            final(self)@ == mix(old(self)@, value),
    {
        self.state = self.state.wrapping_mul(FNV_PRIME);
        self.state = self.state ^ value;
    }

    pub fn write_i64(&mut self, value: i64)
        ensures
            final(self)@ == mix(old(self)@, value as u64),
    {
        self.write_u64(value as u64);
    }

    pub fn write_u32(&mut self, value: u32)
        ensures
            final(self)@ == mix(old(self)@, value as u64),
    {
        self.write_u64(value as u64);
    }

    pub fn write_i32(&mut self, value: i32)
        ensures
            final(self)@ == mix(old(self)@, (value as u32) as u64),
    {
        self.write_u32(value as u32);
    }

    /// Feeds the bytes in chunks of eight, each read little-endian, the last
    /// one zero-padded.
    pub fn write_bytes(&mut self, bytes: &[u8])
        ensures
            final(self)@ == absorb(old(self)@, byte_words(bytes@)),
    {
        let n = bytes.len();
        let mut i: usize = 0;
        assert(bytes@.skip(0) =~= bytes@);
        while i < n
            invariant
                n == bytes@.len(),
                i <= n,
                absorb(self@, byte_words(bytes@.skip(i as int))) == absorb(
                    old(self)@,
                    byte_words(bytes@),
                ),
            decreases n - i,
        {
            let end: usize = if n - i > 8 { i + 8 } else { n };
            let mut buf: Vec<u8> = vec![0u8; 8];
            let mut k: usize = 0;
            while k < end - i
                invariant
                    i < end <= n,
                    end - i <= 8,
                    n == bytes@.len(),
                    k <= end - i,
                    buf@.len() == 8,
                    forall|m: int| 0 <= m < k ==> buf@[m] == bytes@[i + m],
                    forall|m: int| k <= m < 8 ==> buf@[m] == 0u8,
                decreases end - i - k,
            {
                buf.set(k, bytes[i + k]);
                k = k + 1;
            }
            let ghost chunk = bytes@.subrange(i as int, end as int);
            assert(buf@ =~= chunk + Seq::new((8 - chunk.len()) as nat, |k: int| 0u8));
            let word = u64_from_le_bytes(buf.as_slice());
            let ghost rest = bytes@.skip(i as int);
            if n - i > 8 {
                assert(rest.take(8) =~= chunk);
                assert(rest.skip(8) =~= bytes@.skip(end as int));
            } else {
                assert(rest =~= chunk);
                assert(bytes@.skip(end as int) =~= Seq::<u8>::empty());
            }
            assert(byte_words(rest) =~= seq![word] + byte_words(bytes@.skip(end as int)));
            assert((seq![word] + byte_words(bytes@.skip(end as int))).drop_first() =~= byte_words(
                bytes@.skip(end as int),
            ));
            self.write_u64(word);
            i = end;
        }
        assert(bytes@.skip(n as int) =~= Seq::<u8>::empty());
    }

    /// Feeds the UTF-8 bytes of a string.
    pub fn write_str(&mut self, s: &str)
        ensures
            final(self)@ == absorb(old(self)@, byte_words(encode_utf8(s@))),
    {
        self.write_bytes(s.as_bytes());
    }

    pub fn finish(&self) -> (r: ContentHash)
        ensures
            r.0 == self@,
    {
        ContentHash(self.state)
    }
}

impl ContentHashable for String {
    open spec fn spec_content_hash(&self) -> ContentHash {
        ContentHash(str_hash(self@))
    }

    fn content_hash(&self) -> (r: ContentHash) {
        let mut hasher = StableHasher::new();
        hasher.write_str(self.as_str());
        hasher.finish()
    }
}

impl<'a> ContentHashable for &'a str {
    open spec fn spec_content_hash(&self) -> ContentHash {
        ContentHash(str_hash((*self)@))
    }

    fn content_hash(&self) -> (r: ContentHash) {
        let mut hasher = StableHasher::new();
        hasher.write_str(*self);
        hasher.finish()
    }
}

impl ContentHashable for i32 {
    open spec fn spec_content_hash(&self) -> ContentHash {
        ContentHash(mix(FNV_SEED, (*self as u32) as u64))
    }

    fn content_hash(&self) -> (r: ContentHash) {
        let mut hasher = StableHasher::new();
        hasher.write_i32(*self);
        hasher.finish()
    }
}

impl ContentHashable for i64 {
    open spec fn spec_content_hash(&self) -> ContentHash {
        ContentHash(mix(FNV_SEED, *self as u64))
    }

    fn content_hash(&self) -> (r: ContentHash) {
        let mut hasher = StableHasher::new();
        hasher.write_i64(*self);
        hasher.finish()
    }
}

impl ContentHashable for u32 {
    open spec fn spec_content_hash(&self) -> ContentHash {
        ContentHash(mix(FNV_SEED, *self as u64))
    }

    fn content_hash(&self) -> (r: ContentHash) {
        let mut hasher = StableHasher::new();
        hasher.write_u32(*self);
        hasher.finish()
    }
}

impl ContentHashable for u64 {
    open spec fn spec_content_hash(&self) -> ContentHash {
        ContentHash(mix(FNV_SEED, *self))
    }

    fn content_hash(&self) -> (r: ContentHash) {
        let mut hasher = StableHasher::new();
        hasher.write_u64(*self);
        hasher.finish()
    }
}

/// The fingerprints of the elements of a sequence, in order.
pub open spec fn element_hashes<T: ContentHashable>(s: Seq<T>) -> Seq<u64> {
    s.map_values(|x: T| x.spec_content_hash().0)
}

impl<T: ContentHashable> ContentHashable for Vec<T> {
    open spec fn spec_content_hash(&self) -> ContentHash {
        ContentHash(words_hash(element_hashes(self@)))
    }

    fn content_hash(&self) -> (r: ContentHash) {
        let mut hasher = StableHasher::new();
        let mut i: usize = 0;
        assert(element_hashes(self@).skip(0) =~= element_hashes(self@));
        while i < self.len()
            invariant
                i <= self@.len(),
                absorb(hasher@, element_hashes(self@).skip(i as int)) == words_hash(
                    element_hashes(self@),
                ),
            decreases self@.len() - i,
        {
            let h = self[i].content_hash();
            let ghost rest = element_hashes(self@).skip(i as int);
            assert(rest.drop_first() =~= element_hashes(self@).skip(i + 1));
            hasher.write_u64(h.0);
            i = i + 1;
        }
        assert(element_hashes(self@).skip(i as int) =~= Seq::<u64>::empty());
        hasher.finish()
    }
}

impl<T: ContentHashable> ContentHashable for Option<T> {
    open spec fn spec_content_hash(&self) -> ContentHash {
        match self {
            Some(v) => ContentHash(mix(mix(FNV_SEED, 1), v.spec_content_hash().0)),
            None => ContentHash(mix(FNV_SEED, 0)),
        }
    }

    fn content_hash(&self) -> (r: ContentHash) {
        let mut hasher = StableHasher::new();
        match self {
            Some(val) => {
                hasher.write_u64(1);
                let h = val.content_hash();
                hasher.write_u64(h.0);
            },
            None => {
                hasher.write_u64(0);
            },
        }
        hasher.finish()
    }
}

} // verus!
