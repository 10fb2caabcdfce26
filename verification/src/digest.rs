use vstd::prelude::*;

use crate::text::same_bytes;

verus! {

/// A hash state of the `blake3` crate.
#[verifier::external_type_specification]
#[verifier::external_body]
pub struct ExHasher(blake3::Hasher);

/// The bytes that a hash state has absorbed so far.
pub uninterp spec fn hasher_input(hasher: blake3::Hasher) -> Seq<u8>;

/// Where a hash state begins: zero means that it hashes in the default mode, without a key or
/// a context, and from the start of the input.
pub uninterp spec fn hasher_offset(hasher: blake3::Hasher) -> nat;

/// The BLAKE3 hash of the bytes, with its default length.
pub uninterp spec fn blake3_hash(input: Seq<u8>) -> Seq<u8>;

/// [`blake3::Hasher::new`]: a hash state of the default mode that has absorbed nothing and
/// begins at the start of the input.
#[verifier::external_body]
fn new_hasher() -> (hasher: blake3::Hasher)
    ensures
        hasher_input(hasher) == Seq::<u8>::empty(),
        hasher_offset(hasher) == 0,
{
    blake3::Hasher::new()
}

/// [`blake3::Hasher::update`] on a state of the default mode that begins at the start: the bytes are
/// absorbed after those that came before.
#[verifier::external_body]
fn absorb(hasher: &mut blake3::Hasher, bytes: &[u8])
    requires
        hasher_offset(*old(hasher)) == 0,
    ensures
        hasher_input(*final(hasher)) == hasher_input(*old(hasher)) + bytes@,
        hasher_offset(*final(hasher)) == 0,
    no_unwind
{
    hasher.update(bytes);
}

/// [`blake3::Hasher::finalize`] on a state of the default mode that begins at the start: the hash of
/// all the bytes that were absorbed.
#[verifier::external_body]
fn finalized(hasher: &blake3::Hasher) -> (hash: [u8; 32])
    requires
        hasher_offset(*hasher) == 0,
    ensures
        hash@ == blake3_hash(hasher_input(*hasher)),
{
    *hasher.finalize().as_bytes()
}

/// [`blake3::hash`]: the hash of the bytes, which is also what a hash state gives that
/// absorbed them.
#[verifier::external_body]
fn hashed(bytes: &[u8]) -> (hash: [u8; 32])
    ensures
        hash@ == blake3_hash(bytes@),
{
    *blake3::hash(bytes).as_bytes()
}

/// A running digest of a text, which need not be kept.
pub struct ContentDigest {
    hasher: blake3::Hasher,
}

impl View for ContentDigest {
    type V = Seq<u8>;

    /// The bytes of the text so far.
    closed spec fn view(&self) -> Seq<u8> {
        hasher_input(self.hasher)
    }
}

impl ContentDigest {
    #[verifier::type_invariant]
    spec fn starts_at_zero(self) -> bool {
        hasher_offset(self.hasher) == 0
    }

    pub fn new() -> (digest: ContentDigest)
        ensures
            digest@ == Seq::<u8>::empty(),
    {
        ContentDigest { hasher: new_hasher() }
    }

    pub fn append(&mut self, text: &str)
        ensures
            final(self)@ == old(self)@ + vstd::utf8::encode_utf8(text@),
    {
        proof {
            use_type_invariant(&*self);
        }
        absorb(&mut self.hasher, text.as_bytes());
    }

    /// Whether the text so far has the digest of `text`.
    pub fn matches(&self, text: &str) -> (same: bool)
        ensures
            same == (blake3_hash(self@) == blake3_hash(vstd::utf8::encode_utf8(text@))),
    {
        proof {
            use_type_invariant(self);
        }
        let own = finalized(&self.hasher);
        let other = hashed(text.as_bytes());
        same_bytes(&own, &other)
    }
}

} // verus!
