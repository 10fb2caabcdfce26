use vstd::prelude::*;
use vstd::utf8::*;

verus! {

/// Encoding a concatenation gives the concatenation of the encodings.
pub proof fn lemma_encode_concat(a: Seq<char>, b: Seq<char>)
    ensures
        encode_utf8(a + b) == encode_utf8(a) + encode_utf8(b),
    decreases a.len(),
{
    if a.len() == 0 {
        assert(a + b =~= b);
        assert(encode_utf8(a) + encode_utf8(b) =~= encode_utf8(b));
    } else {
        lemma_encode_concat(a.drop_first(), b);
        assert((a + b).drop_first() =~= a.drop_first() + b);
        assert(encode_utf8(a) + encode_utf8(b) =~= encode_scalar(a[0] as u32) + (encode_utf8(
            a.drop_first(),
        ) + encode_utf8(b)));
    }
}

/// Two texts with the same bytes are the same text.
pub proof fn lemma_bytes_determine_text(a: Seq<char>, b: Seq<char>)
    requires
        encode_utf8(a) == encode_utf8(b),
    ensures
        a == b,
{
    encode_utf8_decode_utf8(a);
    encode_utf8_decode_utf8(b);
}

/// Only the empty text has no bytes.
pub proof fn lemma_encode_empty(a: Seq<char>)
    ensures
        encode_utf8(a).len() == 0 <==> a.len() == 0,
{
    if a.len() > 0 {
        assert(encode_scalar(a[0] as u32).len() > 0);
    }
}

/// The place where one text ends and the next begins is a character boundary of their
/// concatenation.
pub proof fn lemma_boundary_of_concat(a: Seq<char>, b: Seq<char>)
    ensures
        is_char_boundary(encode_utf8(a + b), encode_utf8(a).len() as int),
{
    lemma_encode_concat(a, b);
    let bytes = encode_utf8(a + b);
    let at = encode_utf8(a).len() as int;
    encode_utf8_valid_utf8(a + b);
    encode_utf8_valid_utf8(b);
    if b.len() == 0 {
        assert(a + b =~= a);
        is_char_boundary_start_end_of_seq(bytes);
    } else {
        lemma_encode_empty(b);
        is_char_boundary_start_end_of_seq(encode_utf8(b));
        assert(bytes[at] == encode_utf8(b)[0]);
        is_char_boundary_iff_not_is_continuation_byte(encode_utf8(b), 0);
        is_char_boundary_iff_not_is_continuation_byte(bytes, at);
    }
}

/// A character boundary of a text splits its bytes into the bytes of two texts.
pub proof fn lemma_split_at_boundary(s: Seq<char>, at: int) -> (k: int)
    requires
        is_char_boundary(encode_utf8(s), at),
    ensures
        0 <= k <= s.len(),
        0 <= at <= encode_utf8(s).len(),
        encode_utf8(s.take(k)) == encode_utf8(s).take(at),
        encode_utf8(s.skip(k)) == encode_utf8(s).skip(at),
{
    let bytes = encode_utf8(s);
    encode_utf8_valid_utf8(s);
    encode_utf8_decode_utf8(s);
    lemma_boundary_in_range(bytes, at);
    valid_utf8_split(bytes, at);
    decode_utf8_split(bytes, at);
    let head = bytes.subrange(0, at);
    let tail = bytes.subrange(at, bytes.len() as int);
    let k = decode_utf8(head).len() as int;
    assert(s == decode_utf8(head) + decode_utf8(tail));
    assert(s.take(k) =~= decode_utf8(head));
    assert(s.skip(k) =~= decode_utf8(tail));
    decode_utf8_encode_utf8(head);
    decode_utf8_encode_utf8(tail);
    assert(bytes.take(at) =~= head);
    assert(bytes.skip(at) =~= tail);
    k
}

proof fn lemma_boundary_in_range(bytes: Seq<u8>, at: int)
    requires
        valid_utf8(bytes),
        is_char_boundary(bytes, at),
    ensures
        0 <= at <= bytes.len(),
{
}

/// Whether two texts are equal, character for character.
pub fn same_text(a: &str, b: &str) -> (same: bool)
    ensures
        same == (a@ == b@),
{
    let same = same_bytes(a.as_bytes(), b.as_bytes());
    proof {
        if same {
            lemma_bytes_determine_text(a@, b@);
        }
    }
    same
}

/// Whether two byte strings are equal.
pub fn same_bytes(x: &[u8], y: &[u8]) -> (same: bool)
    ensures
        same == (x@ == y@),
{
    if x.len() != y.len() {
        return false;
    }
    let mut i: usize = 0;
    while i < x.len()
        invariant
            i <= x@.len(),
            x@.len() == y@.len(),
            forall|j: int| 0 <= j < i ==> x@[j] == y@[j],
        decreases x@.len() - i,
    {
        if x[i] != y[i] {
            return false;
        }
        i += 1;
    }
    assert(x@ =~= y@);
    true
}

/// The decimal digit of a number below ten.
pub open spec fn digit(n: nat) -> char {
    (48 + n) as u8 as char
}

/// The decimal digits of a natural number, without leading zeros.
pub open spec fn digits(n: nat) -> Seq<char>
    decreases n,
{
    if n < 10 {
        seq![digit(n)]
    } else {
        digits(n / 10).push(digit(n % 10))
    }
}

/// The decimal text of an integer.
pub open spec fn decimal(n: int) -> Seq<char> {
    if n < 0 {
        seq!['-'] + digits((-n) as nat)
    } else {
        digits(n as nat)
    }
}

fn digit_text(n: u64) -> (text: &'static str)
    requires
        n < 10,
    ensures
        text@ == seq![digit(n as nat)],
{
    proof {
        reveal_strlit("0");
        reveal_strlit("1");
        reveal_strlit("2");
        reveal_strlit("3");
        reveal_strlit("4");
        reveal_strlit("5");
        reveal_strlit("6");
        reveal_strlit("7");
        reveal_strlit("8");
        reveal_strlit("9");
    }
    let text = match n {
        0 => "0",
        1 => "1",
        2 => "2",
        3 => "3",
        4 => "4",
        5 => "5",
        6 => "6",
        7 => "7",
        8 => "8",
        _ => "9",
    };
    assert(text@ =~= seq![digit(n as nat)]);
    text
}

/// The decimal digits of `n`.
pub fn digits_text(n: u64) -> (text: String)
    ensures
        text@ == digits(n as nat),
    decreases n,
{
    if n < 10 {
        digit_text(n).to_owned()
    } else {
        let mut text = digits_text(n / 10);
        text.append(digit_text(n % 10));
        assert(text@ =~= digits(n as nat));
        text
    }
}

/// The decimal text of `n`.
pub fn decimal_text(n: i64) -> (text: String)
    ensures
        text@ == decimal(n as int),
{
    if n >= 0 {
        digits_text(n as u64)
    } else {
        proof {
            reveal_strlit("-");
        }
        let magnitude: u64 = if n == i64::MIN {
            0x8000_0000_0000_0000
        } else {
            (-n) as u64
        };
        let mut text = "-".to_owned();
        let tail = digits_text(magnitude);
        text.append(tail.as_str());
        assert(text@ =~= decimal(n as int));
        text
    }
}

/// A text whose bytes start with the bytes of another starts with that text.
pub proof fn lemma_byte_prefix(whole: Seq<char>, prefix: Seq<char>)
    ensures
        encode_utf8(prefix).is_prefix_of(encode_utf8(whole)) <==> prefix.is_prefix_of(whole),
{
    let w = encode_utf8(whole);
    let p = encode_utf8(prefix);
    if p.is_prefix_of(w) {
        encode_utf8_valid_utf8(whole);
        encode_utf8_valid_utf8(prefix);
        let n = p.len() as int;
        let rest = w.subrange(n, w.len() as int);
        assert(w.subrange(0, n) =~= p);
        if !valid_utf8(rest) {
            partial_valid_partial_invalid_utf8(w, n);
        }
        decode_utf8_encode_utf8(rest);
        let tail = decode_utf8(rest);
        lemma_encode_concat(prefix, tail);
        assert(w =~= p + rest);
        lemma_bytes_determine_text(whole, prefix + tail);
        assert(prefix =~= whole.subrange(0, prefix.len() as int));
    }
    if prefix.is_prefix_of(whole) {
        let tail = whole.skip(prefix.len() as int);
        assert(whole =~= prefix + tail);
        lemma_encode_concat(prefix, tail);
        assert(p =~= w.subrange(0, p.len() as int));
    }
}

/// Whether `whole` starts with `prefix`.
pub fn starts_with(whole: &str, prefix: &str) -> (found: bool)
    ensures
        found == prefix@.is_prefix_of(whole@),
{
    let w = whole.as_bytes();
    let p = prefix.as_bytes();
    proof {
        lemma_byte_prefix(whole@, prefix@);
    }
    if p.len() > w.len() {
        return false;
    }
    let mut i: usize = 0;
    while i < p.len()
        invariant
            i <= p@.len() <= w@.len(),
            p@.is_prefix_of(w@) <==> prefix@.is_prefix_of(whole@),
            forall|j: int| 0 <= j < i ==> p@[j] == w@[j],
        decreases p@.len() - i,
    {
        if p[i] != w[i] {
            proof {
                assert(p@[i as int] != w@.subrange(0, p@.len() as int)[i as int]);
            }
            return false;
        }
        i += 1;
    }
    assert(p@ =~= w@.subrange(0, p@.len() as int));
    true
}

/// What follows `prefix` in `whole`.
pub fn after_prefix<'a>(whole: &'a str, prefix: &str) -> (rest: &'a str)
    requires
        prefix@.is_prefix_of(whole@),
    ensures
        rest@ == whole@.skip(prefix@.len() as int),
{
    let at = prefix.as_bytes().len();
    proof {
        let tail = whole@.skip(prefix@.len() as int);
        assert(whole@ =~= prefix@ + tail);
        lemma_boundary_of_concat(prefix@, tail);
        lemma_encode_concat(prefix@, tail);
        let w = encode_utf8(whole@);
        assert(w.subrange(at as int, w.len() as int) =~= encode_utf8(tail));
    }
    let parts = whole.split_at(at);
    proof {
        lemma_bytes_determine_text(parts.1@, whole@.skip(prefix@.len() as int));
    }
    parts.1
}

/// The text from byte `at` on, where a character starts or the text ends there; otherwise
/// nothing.
pub open spec fn text_from(text: Seq<char>, at: nat) -> Seq<char> {
    if is_char_boundary(encode_utf8(text), at as int) {
        decode_utf8(encode_utf8(text).skip(at as int))
    } else {
        Seq::empty()
    }
}

/// The text that follows the bytes of its first `k` characters.
pub proof fn lemma_text_from(text: Seq<char>, k: int)
    requires
        0 <= k <= text.len(),
    ensures
        text_from(text, encode_utf8(text.take(k)).len()) == text.skip(k),
{
    assert(text =~= text.take(k) + text.skip(k));
    lemma_boundary_of_concat(text.take(k), text.skip(k));
    lemma_encode_concat(text.take(k), text.skip(k));
    let bytes = encode_utf8(text);
    assert(bytes.skip(encode_utf8(text.take(k)).len() as int) =~= encode_utf8(text.skip(k)));
    encode_utf8_decode_utf8(text.skip(k));
}

/// The text from byte `at` on, where that is a character boundary.
pub fn tail_from(text: &str, at: usize) -> (tail: &str)
    ensures
        tail@ == text_from(text@, at as nat),
{
    if text.is_char_boundary(at) {
        let parts = text.split_at(at);
        proof {
            let k = lemma_split_at_boundary(text@, at as int);
            let w = encode_utf8(text@);
            assert(w.subrange(at as int, w.len() as int) =~= w.skip(at as int));
            encode_utf8_decode_utf8(parts.1@);
        }
        parts.1
    } else {
        proof {
            reveal_strlit("");
        }
        let tail = "";
        assert(tail@ =~= Seq::empty());
        tail
    }
}

/// The texts joined with `separator` between them.
pub open spec fn joined(texts: Seq<Seq<char>>, separator: Seq<char>) -> Seq<char>
    decreases texts.len(),
{
    if texts.len() == 0 {
        Seq::empty()
    } else if texts.len() == 1 {
        texts[0]
    } else {
        joined(texts.drop_last(), separator) + separator + texts.last()
    }
}

/// One more text comes after a separator, but for the first.
pub proof fn lemma_joined_push(texts: Seq<Seq<char>>, text: Seq<char>, separator: Seq<char>)
    ensures
        joined(texts.push(text), separator) == if texts.len() == 0 {
            text
        } else {
            joined(texts, separator) + separator + text
        },
{
    assert(texts.push(text).drop_last() =~= texts);
}

/// The view of an optional text.
pub open spec fn text_view(text: Option<String>) -> Option<Seq<char>> {
    match text {
        Some(text) => Some(text@),
        None => None,
    }
}

/// The view of an optional text slice.
pub open spec fn slice_view(text: Option<&str>) -> Option<Seq<char>> {
    match text {
        Some(text) => Some(text@),
        None => None,
    }
}

pub fn copy_text(text: Option<&str>) -> (copy: Option<String>)
    ensures
        text_view(copy) == slice_view(text),
{
    match text {
        Some(text) => Some(text.to_owned()),
        None => None,
    }
}

pub fn clone_text(text: &Option<String>) -> (copy: Option<String>)
    ensures
        text_view(copy) == text_view(*text),
{
    match text {
        Some(text) => Some(text.clone()),
        None => None,
    }
}

/// Whether an optional text is present and equal to `other`.
pub fn text_is(text: &Option<String>, other: &str) -> (same: bool)
    ensures
        same == (text_view(*text) == Some(other@)),
{
    match text {
        Some(text) => same_text(text.as_str(), other),
        None => false,
    }
}

/// Three texts in a row.
pub fn concat3(a: &str, b: &str, c: &str) -> (text: String)
    ensures
        text@ == a@ + b@ + c@,
{
    let mut text = a.to_owned();
    text.append(b);
    text.append(c);
    text
}

/// Five texts in a row.
pub fn concat5(a: &str, b: &str, c: &str, d: &str, e: &str) -> (text: String)
    ensures
        text@ == a@ + b@ + c@ + d@ + e@,
{
    let mut text = concat3(a, b, c);
    text.append(d);
    text.append(e);
    text
}

} // verus!
