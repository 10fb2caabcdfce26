use std::collections::hash_map::{DefaultHasher, RandomState};
use std::hash::{BuildHasher, Hasher};

use vstd::arithmetic::div_mod::*;
use vstd::prelude::*;
use vstd::utf8::*;

use crate::text::{
    lemma_boundary_of_concat, lemma_bytes_determine_text, lemma_encode_concat, lemma_encode_empty,
    lemma_split_at_boundary,
};

verus! {

/// Whether the first `k` characters of `replayed` are the last `k` characters of `existing`.
pub open spec fn is_overlap(existing: Seq<char>, replayed: Seq<char>, k: int) -> bool {
    &&& 0 <= k <= existing.len()
    &&& k <= replayed.len()
    &&& replayed.take(k) == existing.skip(existing.len() - k)
}

/// The greatest overlap of at most `bound` characters.
pub open spec fn longest_overlap_up_to(
    existing: Seq<char>,
    replayed: Seq<char>,
    bound: nat,
) -> nat
    decreases bound,
{
    if bound == 0 || is_overlap(existing, replayed, bound as int) {
        bound
    } else {
        longest_overlap_up_to(existing, replayed, (bound - 1) as nat)
    }
}

/// How many characters at the start of `replayed` the end of `existing` already holds.
pub open spec fn longest_overlap(existing: Seq<char>, replayed: Seq<char>) -> nat {
    longest_overlap_up_to(existing, replayed, replayed.len())
}

/// The part of `replayed` that `existing` already ends with.
pub open spec fn overlap_text(existing: Seq<char>, replayed: Seq<char>) -> Seq<char> {
    replayed.take(longest_overlap(existing, replayed) as int)
}

/// The overlap is an overlap, and no overlap is longer.
pub proof fn lemma_longest_overlap(existing: Seq<char>, replayed: Seq<char>)
    ensures
        is_overlap(existing, replayed, longest_overlap(existing, replayed) as int),
        forall|k: int| is_overlap(existing, replayed, k) ==> k <= longest_overlap(existing, replayed),
{
    lemma_longest_overlap_up_to(existing, replayed, replayed.len());
}

proof fn lemma_longest_overlap_up_to(existing: Seq<char>, replayed: Seq<char>, bound: nat)
    requires
        bound <= replayed.len(),
    ensures
        is_overlap(existing, replayed, longest_overlap_up_to(existing, replayed, bound) as int),
        forall|k: int|
            #![trigger is_overlap(existing, replayed, k)]
            k <= bound && is_overlap(existing, replayed, k) ==> k <= longest_overlap_up_to(
                existing,
                replayed,
                bound,
            ),
    decreases bound,
{
    if bound == 0 {
        assert(replayed.take(0) =~= existing.skip(existing.len() as int));
    } else if !is_overlap(existing, replayed, bound as int) {
        lemma_longest_overlap_up_to(existing, replayed, (bound - 1) as nat);
    }
}

/// The base-`base` polynomial of the bytes, each raised by one, with the last byte as the
/// constant term.
pub open spec fn polynomial(bytes: Seq<u8>, base: int) -> int
    decreases bytes.len(),
{
    if bytes.len() == 0 {
        0
    } else {
        polynomial(bytes.drop_last(), base) * base + bytes.last() + 1
    }
}

pub open spec fn power_of(base: int, n: nat) -> int
    decreases n,
{
    if n == 0 {
        1
    } else {
        power_of(base, (n - 1) as nat) * base
    }
}

/// One more than the greatest `u128`.
pub open spec fn hash_modulus() -> int {
    0x1_0000_0000_0000_0000_0000_0000_0000_0000int
}

/// The rolling hash of the bytes.
pub open spec fn rolling_hash(bytes: Seq<u8>, base: int) -> int {
    polynomial(bytes, base) % hash_modulus()
}

/// Whether `n` bytes of overlap cannot be ruled out by the rolling hash with this base: the
/// first `n` bytes of `replayed` and the last `n` of `existing` are whole characters with the
/// same hash.
pub open spec fn hashes_agree(existing: Seq<u8>, replayed: Seq<u8>, base: int, n: int) -> bool {
    &&& 0 <= n <= existing.len()
    &&& n <= replayed.len()
    &&& rolling_hash(replayed.take(n), base) == rolling_hash(
        existing.skip(existing.len() - n),
        base,
    )
    &&& is_char_boundary(replayed, n)
    &&& is_char_boundary(existing, existing.len() - n)
}

proof fn lemma_polynomial_push_front(b: u8, bytes: Seq<u8>, base: int)
    ensures
        polynomial(seq![b] + bytes, base) == (b + 1) * power_of(base, bytes.len()) + polynomial(
            bytes,
            base,
        ),
    decreases bytes.len(),
{
    let all = seq![b] + bytes;
    if bytes.len() == 0 {
        assert(all.drop_last() =~= Seq::<u8>::empty());
        assert(all.last() == b);
        assert(polynomial(all.drop_last(), base) == 0);
        assert(0 * base == 0) by (nonlinear_arith);
    } else {
        let rest = bytes.drop_last();
        lemma_polynomial_push_front(b, rest, base);
        assert(all.drop_last() =~= seq![b] + rest);
        assert(all.last() == bytes.last());
        let p = power_of(base, rest.len());
        let q = polynomial(rest, base);
        assert(((b + 1) * p + q) * base == (b + 1) * (p * base) + q * base) by (nonlinear_arith);
    }
}

/// The hash of a prefix that is one byte longer.
proof fn lemma_prefix_hash(bytes: Seq<u8>, base: int, n: int)
    requires
        0 <= n < bytes.len(),
    ensures
        rolling_hash(bytes.take(n + 1), base) == (rolling_hash(bytes.take(n), base) * base
            + bytes[n] + 1) % hash_modulus(),
{
    let h = polynomial(bytes.take(n), base);
    let c = bytes[n] + 1;
    let m = hash_modulus();
    assert(bytes.take(n + 1).drop_last() =~= bytes.take(n));
    assert(bytes.take(n + 1).last() == bytes[n]);
    lemma_mul_mod_noop_left(h, base, m);
    lemma_add_mod_noop(h * base, c, m);
    lemma_add_mod_noop((h % m) * base, c, m);
}

/// The hash of a suffix that is one byte longer.
proof fn lemma_suffix_hash(bytes: Seq<u8>, base: int, n: int)
    requires
        0 <= n < bytes.len(),
    ensures
        rolling_hash(bytes.skip(bytes.len() - n - 1), base) == ((bytes[bytes.len() - n - 1] + 1)
            * (power_of(base, n as nat) % hash_modulus()) + rolling_hash(
            bytes.skip(bytes.len() - n),
            base,
        )) % hash_modulus(),
{
    let front = bytes[bytes.len() - n - 1];
    let tail = bytes.skip(bytes.len() - n);
    let c = front + 1;
    let p = power_of(base, n as nat);
    let h = polynomial(tail, base);
    let m = hash_modulus();
    assert(bytes.skip(bytes.len() - n - 1) =~= seq![front] + tail);
    lemma_polynomial_push_front(front, tail, base);
    lemma_mul_mod_noop_right(c, p, m);
    lemma_add_mod_noop(c * p, h, m);
    lemma_add_mod_noop(c * (p % m), h % m, m);
    lemma_mod_twice(h, m);
}

/// `a` times `b` plus `c`, as `u128` wraps it round.
fn wrapping_mul_add(a: u128, b: u128, c: u128) -> (sum: u128)
    ensures
        sum == (a * b + c) % hash_modulus(),
{
    proof {
        lemma_add_mod_noop(a * b, c as int, hash_modulus());
        lemma_add_mod_noop((a * b) % hash_modulus(), c as int, hash_modulus());
        lemma_mod_twice(a * b, hash_modulus());
    }
    a.wrapping_mul(b).wrapping_add(c)
}

/// The longest common length of `replayed`'s start and `existing`'s end, in bytes at
/// character boundaries, that the rolling hash with this base does not rule out.
pub fn rolling_overlap_candidate(existing: &str, replayed: &str, base: u128) -> (best: usize)
    ensures
        best != 0 ==> hashes_agree(
            encode_utf8(existing@),
            encode_utf8(replayed@),
            base as int,
            best as int,
        ),
        forall|n: int|
            best < n ==> !hashes_agree(
                encode_utf8(existing@),
                encode_utf8(replayed@),
                base as int,
                n,
            ),
{
    let existing_bytes = existing.as_bytes();
    let replayed_bytes = replayed.as_bytes();
    let max: usize = if existing_bytes.len() <= replayed_bytes.len() {
        existing_bytes.len()
    } else {
        replayed_bytes.len()
    };
    let mut prefix_hash: u128 = 0;
    let mut suffix_hash: u128 = 0;
    let mut power: u128 = 1;
    let mut best: usize = 0;
    let mut length: usize = 0;
    let ghost e = existing_bytes@;
    let ghost r = replayed_bytes@;
    let ghost b = base as int;
    proof {
        assert(r.take(0) =~= Seq::<u8>::empty());
        assert(e.skip(e.len() as int) =~= Seq::<u8>::empty());
    }
    while length < max
        invariant
            e == existing_bytes@,
            r == replayed_bytes@,
            e == encode_utf8(existing@),
            r == encode_utf8(replayed@),
            b == base as int,
            max <= e.len(),
            max <= r.len(),
            length <= max,
            prefix_hash == rolling_hash(r.take(length as int), b),
            suffix_hash == rolling_hash(e.skip(e.len() - length), b),
            power == power_of(b, length as nat) % hash_modulus(),
            best <= length,
            best != 0 ==> hashes_agree(e, r, b, best as int),
            forall|n: int| best < n <= length ==> !hashes_agree(e, r, b, n),
        decreases max - length,
    {
        let ghost before = length as int;
        length += 1;
        let next: u8 = replayed_bytes[length - 1];
        let front: u8 = existing_bytes[existing_bytes.len() - length];
        proof {
            lemma_prefix_hash(r, b, before);
            lemma_suffix_hash(e, b, before);
            lemma_mul_mod_noop_left(power_of(b, before as nat), b, hash_modulus());
        }
        prefix_hash = wrapping_mul_add(prefix_hash, base, next as u128 + 1);
        suffix_hash = wrapping_mul_add(front as u128 + 1, power, suffix_hash);
        if prefix_hash == suffix_hash && replayed.is_char_boundary(length)
            && existing.is_char_boundary(existing_bytes.len() - length) {
            best = length;
        }
        power = wrapping_mul_add(power, base, 0);
    }
    best
}

/// [`RandomState::new`] from std: a hasher factory with keys that std picks at random.
/// Nothing is claimed of the keys.
pub assume_specification[ RandomState::new ]() -> RandomState
;

/// [`BuildHasher::build_hasher`] of std's [`RandomState`]: a hasher seeded with its keys.
/// Nothing is claimed of the seed.
#[verifier::external_body]
fn seeded_hasher(state: &RandomState) -> DefaultHasher {
    state.build_hasher()
}

/// The hash base made of a random word: at least 257, so that no two bytes share a digit,
/// and odd, so that multiplying by it loses nothing.
pub open spec fn hash_base_from_word(word: u64) -> u128 {
    (if word >= 257 { word as u128 } else { 257u128 }) | 1
}

pub fn overlap_hash_base(word: u64) -> (base: u128)
    ensures
        base == hash_base_from_word(word),
        base >= 257,
        base % 2 == 1,
{
    let floor: u128 = if word >= 257 {
        word as u128
    } else {
        257
    };
    proof {
        assert((floor | 1) >= floor) by (bit_vector);
        assert((floor | 1) % 2 == 1) by (bit_vector);
    }
    floor | 1
}

/// A hash base that an author of texts cannot know beforehand.
pub fn random_overlap_hash_base() -> (base: u128)
    ensures
        exists|word: u64| base == hash_base_from_word(word),
        base >= 257,
        base % 2 == 1,
{
    let state = RandomState::new();
    let mut hasher = seeded_hasher(&state);
    let zero: [u8; 1] = [0u8];
    hasher.write(&zero);
    overlap_hash_base(hasher.finish())
}

/// Whether the bytes at these two places agree for `n` bytes.
fn ranges_agree(x: &[u8], from: usize, y: &[u8], n: usize) -> (same: bool)
    requires
        from + n == x@.len(),
        n <= y@.len(),
    ensures
        same == (x@.skip(from as int) == y@.take(n as int)),
{
    let len = x.len();
    let mut i: usize = 0;
    while i < n
        invariant
            i <= n,
            len == x@.len(),
            from + n == len,
            n <= y@.len(),
            forall|j: int| 0 <= j < i ==> x@[from + j] == y@[j],
        decreases n - i,
    {
        if x[from + i] != y[i] {
            proof {
                assert(x@.skip(from as int)[i as int] != y@.take(n as int)[i as int]);
            }
            return false;
        }
        i += 1;
    }
    assert(x@.skip(from as int) =~= y@.take(n as int));
    true
}

/// Whether `n` bytes at the start of `replayed` are the last `n` bytes of `existing`, cut
/// between characters in both.
pub open spec fn is_byte_overlap(existing: Seq<u8>, replayed: Seq<u8>, n: int) -> bool {
    &&& 0 <= n <= existing.len()
    &&& n <= replayed.len()
    &&& is_char_boundary(replayed, n)
    &&& is_char_boundary(existing, existing.len() - n)
    &&& existing.skip(existing.len() - n) == replayed.take(n)
}

/// An overlap of bytes at character boundaries is an overlap of characters.
proof fn lemma_byte_overlap_is_overlap(existing: Seq<char>, replayed: Seq<char>, n: int) -> (k: int)
    requires
        is_byte_overlap(encode_utf8(existing), encode_utf8(replayed), n),
    ensures
        is_overlap(existing, replayed, k),
        encode_utf8(replayed.take(k)).len() == n,
{
    let e = encode_utf8(existing);
    let r = encode_utf8(replayed);
    let k = lemma_split_at_boundary(replayed, n);
    let from = lemma_split_at_boundary(existing, e.len() - n);
    lemma_bytes_determine_text(existing.skip(from), replayed.take(k));
    assert(existing.skip(from).len() == existing.len() - from);
    k
}

/// An overlap of characters is an overlap of bytes at character boundaries.
proof fn lemma_overlap_is_byte_overlap(existing: Seq<char>, replayed: Seq<char>, k: int)
    requires
        is_overlap(existing, replayed, k),
    ensures
        is_byte_overlap(
            encode_utf8(existing),
            encode_utf8(replayed),
            encode_utf8(replayed.take(k)).len() as int,
        ),
{
    let from = existing.len() - k;
    assert(existing.take(from) + existing.skip(from) =~= existing);
    assert(replayed.take(k) + replayed.skip(k) =~= replayed);
    lemma_encode_concat(existing.take(from), existing.skip(from));
    lemma_encode_concat(replayed.take(k), replayed.skip(k));
    lemma_boundary_of_concat(existing.take(from), existing.skip(from));
    lemma_boundary_of_concat(replayed.take(k), replayed.skip(k));
    let e = encode_utf8(existing);
    let r = encode_utf8(replayed);
    let n = encode_utf8(replayed.take(k)).len() as int;
    assert(r.take(n) =~= encode_utf8(replayed.take(k)));
    assert(e.skip(e.len() - n) =~= encode_utf8(existing.skip(from)));
}

/// More characters of a text have more bytes.
pub proof fn lemma_prefix_bytes_grow(s: Seq<char>, j: int, k: int)
    requires
        0 <= j <= k <= s.len(),
    ensures
        encode_utf8(s.take(j)).len() <= encode_utf8(s.take(k)).len(),
        j < k ==> encode_utf8(s.take(j)).len() < encode_utf8(s.take(k)).len(),
{
    let mid = s.subrange(j, k);
    assert(s.take(j) + mid =~= s.take(k));
    lemma_encode_concat(s.take(j), mid);
    lemma_encode_empty(mid);
}

/// The greatest overlap of bytes is the greatest overlap of characters.
proof fn lemma_greatest_byte_overlap(existing: Seq<char>, replayed: Seq<char>, n: int)
    requires
        is_byte_overlap(encode_utf8(existing), encode_utf8(replayed), n),
        forall|m: int|
            n < m ==> !is_byte_overlap(encode_utf8(existing), encode_utf8(replayed), m),
    ensures
        n == encode_utf8(overlap_text(existing, replayed)).len(),
{
    lemma_longest_overlap(existing, replayed);
    let best = longest_overlap(existing, replayed) as int;
    let k = lemma_byte_overlap_is_overlap(existing, replayed, n);
    lemma_overlap_is_byte_overlap(existing, replayed, best);
    lemma_prefix_bytes_grow(replayed, k, best);
}

proof fn lemma_no_bytes_is_byte_overlap(existing: Seq<char>, replayed: Seq<char>)
    ensures
        is_byte_overlap(encode_utf8(existing), encode_utf8(replayed), 0),
{
    assert(replayed.take(0) =~= existing.skip(existing.len() as int));
    lemma_overlap_is_byte_overlap(existing, replayed, 0);
    assert(replayed.take(0) =~= Seq::<char>::empty());
    assert(encode_utf8(replayed.take(0)).len() == 0);
}

/// The longest prefix of `replayed` that is also a suffix of `existing`, measured in bytes.
///
/// The rolling hash proposes a length, which is then held against the bytes. Where the hash
/// proposes a wrong length twice, every length is tried instead.
pub fn replayed_prefix_len(existing: &str, replayed: &str) -> (n: usize)
    ensures
        n == encode_utf8(overlap_text(existing@, replayed@)).len(),
{
    let e = existing.as_bytes();
    let r = replayed.as_bytes();
    proof {
        lemma_no_bytes_is_byte_overlap(existing@, replayed@);
    }
    if r.len() == 0 {
        proof {
            lemma_greatest_byte_overlap(existing@, replayed@, 0);
        }
        return 0;
    }
    let mut attempt: u8 = 0;
    while attempt < 2
        invariant
            attempt <= 2,
            e@ == encode_utf8(existing@),
            r@ == encode_utf8(replayed@),
            is_byte_overlap(e@, r@, 0),
        decreases 2 - attempt,
    {
        let base = random_overlap_hash_base();
        let candidate = rolling_overlap_candidate(existing, replayed, base);
        if candidate == 0 || ranges_agree(e, e.len() - candidate, r, candidate) {
            proof {
                assert forall|m: int| candidate < m implies !is_byte_overlap(e@, r@, m) by {
                    assert(!hashes_agree(e@, r@, base as int, m));
                }
                lemma_greatest_byte_overlap(existing@, replayed@, candidate as int);
            }
            return candidate;
        }
        attempt += 1;
    }
    let mut n: usize = if e.len() <= r.len() {
        e.len()
    } else {
        r.len()
    };
    while n > 0
        invariant
            n <= e@.len(),
            n <= r@.len(),
            e@ == encode_utf8(existing@),
            r@ == encode_utf8(replayed@),
            is_byte_overlap(e@, r@, 0),
            forall|m: int| n < m ==> !is_byte_overlap(e@, r@, m),
        decreases n,
    {
        if replayed.is_char_boundary(n) && existing.is_char_boundary(e.len() - n)
            && ranges_agree(e, e.len() - n, r, n) {
            proof {
                lemma_greatest_byte_overlap(existing@, replayed@, n as int);
            }
            return n;
        }
        n -= 1;
    }
    proof {
        lemma_greatest_byte_overlap(existing@, replayed@, 0);
    }
    0
}

/// What is taken for a replay is the longest start of the one text that the other ends with, and
/// it is measured in bytes.
pub proof fn law_replayed_start_is_the_longest(existing: &str, replayed: &str, n: usize)
    requires
        call_ensures(replayed_prefix_len, (existing, replayed), n),
    ensures
        exists|k: int|
            0 <= k <= replayed@.len() && n == encode_utf8(#[trigger] replayed@.take(k)).len()
                && replayed@.take(k).is_suffix_of(existing@),
        forall|k: int|
            0 <= k <= replayed@.len() && (#[trigger] replayed@.take(k)).is_suffix_of(existing@)
                ==> encode_utf8(replayed@.take(k)).len() <= n,
{
    lemma_longest_overlap(existing@, replayed@);
    let best = longest_overlap(existing@, replayed@) as int;
    let whole = existing@;
    assert(replayed@.take(best).is_suffix_of(whole)) by {
        assert(whole.skip(whole.len() - best) =~= whole.subrange(
            whole.len() - best,
            whole.len() as int,
        ));
    }
    assert forall|k: int|
        0 <= k <= replayed@.len() && (#[trigger] replayed@.take(k)).is_suffix_of(
            existing@,
        ) implies encode_utf8(replayed@.take(k)).len() <= n by {
        assert(whole.skip(whole.len() - k) =~= replayed@.take(k));
        assert(is_overlap(whole, replayed@, k));
        lemma_prefix_bytes_grow(replayed@, k, best);
    }
}

} // verus!
