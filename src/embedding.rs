//! The deterministic stand-in vectorizer, used where a backend cannot give
//! real embeddings.
use std::collections::hash_map::DefaultHasher;
use std::hash::Hasher;
use vstd::prelude::*;
use vstd::std_specs::hash::DefaultHasherAdditionalSpecFns;
use vstd::utf8::encode_utf8;

verus! {

/// Number of components in an embedding.
pub const EMBEDDING_DIM: usize = 384;

/// The 64-bit hash of a text: its UTF-8 bytes, then the byte `0xff`, fed to
/// a fresh `DefaultHasher`.
pub open spec fn text_hash(s: Seq<char>) -> u64 {
    DefaultHasher::spec_finish(seq![encode_utf8(s), seq![0xffu8]])
}

/// The stand-in codes for a hash `h`: component `i` is coded `h + i`, wrapping.
pub open spec fn stand_in_codes(h: u64) -> Seq<u64> {
    Seq::new(EMBEDDING_DIM as nat, |i: int| h.wrapping_add(i as u64))
}

/// The hash of `text` that the stand-in vector is drawn from.
pub fn hash_text(text: &str) -> (r: u64)
    ensures
        r == text_hash(text@),
{
    let mut hasher = DefaultHasher::new();
    let bytes = text.as_bytes();
    assert(bytes@ == encode_utf8(text@));
    hasher.write(bytes);
    let mut end: Vec<u8> = Vec::new();
    end.push(0xffu8);
    let tail = end.as_slice();
    assert(tail@ =~= seq![0xffu8]);
    hasher.write(tail);
    assert(hasher@ =~= seq![encode_utf8(text@), seq![0xffu8]]);
    hasher.finish()
}

/// A 384-component pseudo-embedding of `text` that depends on `text` alone.
pub fn stand_in_vector(text: &str) -> (r: Vec<u64>)
    ensures
        r@ == stand_in_codes(text_hash(text@)),
        r@.len() == EMBEDDING_DIM,
{
    let h = hash_text(text);
    let mut r: Vec<u64> = Vec::with_capacity(EMBEDDING_DIM);
    let mut i: usize = 0;
    while i < EMBEDDING_DIM
        invariant
            i <= EMBEDDING_DIM,
            r@ == stand_in_codes(h).take(i as int),
        decreases EMBEDDING_DIM - i,
    {
        r.push(h.wrapping_add(i as u64));
        i = i + 1;
        assert(r@ =~= stand_in_codes(h).take(i as int));
    }
    assert(r@ =~= stand_in_codes(h));
    r
}

/// The stand-in vectorizer is a function of the text: two vectors drawn
/// from the same text are equal, and each has exactly 384 components.
pub proof fn lemma_stand_in_deterministic(text: Seq<char>, first: Seq<u64>, second: Seq<u64>)
    requires
        first == stand_in_codes(text_hash(text)),
        second == stand_in_codes(text_hash(text)),
    ensures
        first == second,
        first.len() == EMBEDDING_DIM,
{
}

} // verus!
