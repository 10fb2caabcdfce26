use vstd::prelude::*;

verus! {

/// Whether Unicode counts a character as white space.
pub open spec fn is_whitespace(c: char) -> bool {
    let n = c as u32;
    ||| 9 <= n <= 13
    ||| n == 0x20
    ||| n == 0x85
    ||| n == 0xA0
    ||| n == 0x1680
    ||| 0x2000 <= n <= 0x200A
    ||| n == 0x2028
    ||| n == 0x2029
    ||| n == 0x202F
    ||| n == 0x205F
    ||| n == 0x3000
}

pub fn char_is_whitespace(c: char) -> (white: bool)
    ensures
        white == is_whitespace(c),
{
    let n: u32 = c as u32;
    (9 <= n && n <= 13) || n == 0x20 || n == 0x85 || n == 0xA0 || n == 0x1680 || (0x2000 <= n && n
        <= 0x200A) || n == 0x2028 || n == 0x2029 || n == 0x202F || n == 0x205F || n == 0x3000
}

/// The characters of a text.
pub fn chars_of(text: &str) -> (chars: Vec<char>)
    ensures
        chars@ == text@,
{
    let mut chars: Vec<char> = Vec::new();
    for c in it: text.chars()
        invariant
            it.seq() == text@,
            chars@ == text@.take(it.index() as int),
    {
        chars.push(c);
        assert(text@.take(it.index() + 1) =~= text@.take(it.index() as int).push(c));
    }
    assert(text@.take(text@.len() as int) =~= text@);
    chars
}

pub open spec fn trimmed_start(text: Seq<char>) -> Seq<char>
    decreases text.len(),
{
    if text.len() > 0 && is_whitespace(text[0]) {
        trimmed_start(text.drop_first())
    } else {
        text
    }
}

pub open spec fn trimmed_end(text: Seq<char>) -> Seq<char>
    decreases text.len(),
{
    if text.len() > 0 && is_whitespace(text.last()) {
        trimmed_end(text.drop_last())
    } else {
        text
    }
}

/// The text without the white space at both of its ends.
pub open spec fn trimmed(text: Seq<char>) -> Seq<char> {
    trimmed_end(trimmed_start(text))
}

pub fn trim(text: &str) -> (rest: &str)
    ensures
        rest@ == trimmed(text@),
{
    let chars = chars_of(text);
    let mut from: usize = 0;
    assert(text@.skip(0) =~= text@);
    while from < chars.len() && char_is_whitespace(chars[from])
        invariant
            from <= chars@.len(),
            chars@ == text@,
            trimmed_start(text@) == trimmed_start(text@.skip(from as int)),
        decreases chars@.len() - from,
    {
        assert(text@.skip(from as int).drop_first() =~= text@.skip(from + 1));
        from += 1;
    }
    let ghost rest = text@.skip(from as int);
    assert(trimmed_start(text@) == rest);
    let mut to: usize = chars.len();
    assert(text@.subrange(from as int, to as int) =~= rest);
    while to > from && char_is_whitespace(chars[to - 1])
        invariant
            from <= to <= chars@.len(),
            chars@ == text@,
            trimmed_end(rest) == trimmed_end(text@.subrange(from as int, to as int)),
        decreases to,
    {
        let ghost part = text@.subrange(from as int, to as int);
        assert(part.last() == text@[to - 1]);
        assert(part.drop_last() =~= text@.subrange(from as int, to - 1));
        to -= 1;
    }
    proof {
        let part = text@.subrange(from as int, to as int);
        if part.len() > 0 {
            assert(part.last() == text@[to - 1]);
        }
    }
    text.substring_char(from, to)
}

/// Whether `part` stands somewhere in `whole`.
pub open spec fn contains_text(whole: Seq<char>, part: Seq<char>) -> bool {
    exists|at: int| stands_at(whole, part, at)
}

/// Whether `part` stands in `whole` from character `at` on.
pub open spec fn stands_at(whole: Seq<char>, part: Seq<char>, at: int) -> bool {
    &&& 0 <= at
    &&& at + part.len() <= whole.len()
    &&& whole.subrange(at, at + part.len()) == part
}

pub fn contains(whole: &str, part: &str) -> (found: bool)
    ensures
        found == contains_text(whole@, part@),
{
    let w = chars_of(whole);
    let p = chars_of(part);
    let len = w.len();
    if p.len() > len {
        return false;
    }
    let mut at: usize = 0;
    while at <= len - p.len()
        invariant
            len == w@.len(),
            w@ == whole@,
            p@ == part@,
            p@.len() <= w@.len(),
            at <= w@.len() - p@.len() + 1,
            forall|j: int| 0 <= j < at ==> !#[trigger] stands_at(whole@, part@, j),
        decreases w@.len() - p@.len() + 1 - at,
    {
        let mut i: usize = 0;
        while i < p.len() && w[at + i] == p[i]
            invariant
                i <= p@.len(),
                len == w@.len(),
                at + p@.len() <= len,
                forall|j: int| 0 <= j < i ==> w@[at + j] == p@[j],
            decreases p@.len() - i,
        {
            i += 1;
        }
        if i == p.len() {
            assert(w@.subrange(at as int, at + p@.len()) =~= p@);
            assert(stands_at(whole@, part@, at as int));
            return true;
        }
        assert(w@.subrange(at as int, at + p@.len())[i as int] != p@[i as int]);
        if at == len - p.len() {
            return false;
        }
        at += 1;
    }
    false
}

pub open spec fn is_digit(c: char) -> bool {
    48 <= c as u32 <= 57
}

/// The number that some decimal digits write.
pub open spec fn value_of_digits(digits: Seq<char>) -> nat
    decreases digits.len(),
{
    if digits.len() == 0 {
        0
    } else {
        value_of_digits(digits.drop_last()) * 10 + (digits.last() as u32 - 48) as nat
    }
}

pub open spec fn without_plus(text: Seq<char>) -> Seq<char> {
    if text.len() > 0 && text[0] == '+' {
        text.drop_first()
    } else {
        text
    }
}

/// The number that a text writes in decimal digits, perhaps after a plus sign, where a `u64`
/// can hold it.
pub open spec fn parsed_u64(text: Seq<char>) -> Option<u64> {
    let digits = without_plus(text);
    if digits.len() > 0 && (forall|i: int| 0 <= i < digits.len() ==> is_digit(#[trigger] digits[i]))
        && value_of_digits(digits) <= u64::MAX {
        Some(value_of_digits(digits) as u64)
    } else {
        None
    }
}

proof fn lemma_value_grows(digits: Seq<char>, n: int)
    requires
        0 <= n <= digits.len(),
    ensures
        value_of_digits(digits.take(n)) <= value_of_digits(digits),
    decreases digits.len(),
{
    if n == digits.len() {
        assert(digits.take(n) =~= digits);
    } else {
        lemma_value_grows(digits.drop_last(), n);
        assert(digits.drop_last().take(n) =~= digits.take(n));
    }
}

pub fn parse_u64(text: &str) -> (number: Option<u64>)
    ensures
        number == parsed_u64(text@),
{
    let chars = chars_of(text);
    let from: usize = if chars.len() > 0 && chars[0] == '+' {
        1
    } else {
        0
    };
    let ghost digits = text@.skip(from as int);
    assert(digits =~= without_plus(text@));
    if from == chars.len() {
        return None;
    }
    let mut value: u64 = 0;
    let mut i: usize = from;
    assert(digits.take(0) =~= Seq::empty());
    while i < chars.len()
        invariant
            from <= i <= chars@.len(),
            chars@ == text@,
            digits == text@.skip(from as int),
            digits == without_plus(text@),
            digits.len() > 0,
            value == value_of_digits(digits.take(i - from)),
            forall|j: int| 0 <= j < i - from ==> is_digit(#[trigger] digits[j]),
        decreases chars@.len() - i,
    {
        let n: u32 = chars[i] as u32;
        let ghost k = i - from;
        assert(digits[k] == chars@[i as int]);
        if n < 48 || 57 < n {
            assert(!is_digit(digits[k]));
            return None;
        }
        proof {
            let part = digits.take(k + 1);
            assert(part.drop_last() =~= digits.take(k));
            assert(part.last() == chars@[i as int]);
            assert(part.last() as u32 == n);
            assert(value_of_digits(part) == value * 10 + (n - 48));
            lemma_value_grows(digits, k + 1);
        }
        let d: u64 = (n - 48) as u64;
        if value > (u64::MAX - d) / 10 {
            return None;
        }
        value = value * 10 + d;
        i += 1;
    }
    assert(digits.take(i - from) =~= digits);
    Some(value)
}

/// How many characters a text has before its first white space.
pub open spec fn word_len(text: Seq<char>) -> nat
    decreases text.len(),
{
    if text.len() == 0 || is_whitespace(text[0]) {
        0
    } else {
        1 + word_len(text.drop_first())
    }
}

/// The words of a text: its parts between white space.
pub open spec fn words(text: Seq<char>) -> Seq<Seq<char>>
    decreases text.len(),
{
    let rest = trimmed_start(text);
    if rest.len() == 0 {
        Seq::empty()
    } else {
        proof {
            lemma_trimmed_start_len(text);
        }
        seq![rest.take(word_len(rest) as int)] + words(rest.skip(word_len(rest) as int))
    }
}

pub proof fn lemma_trimmed_start_len(text: Seq<char>)
    ensures
        trimmed_start(text).len() <= text.len(),
        trimmed_start(text).len() > 0 ==> !is_whitespace(trimmed_start(text)[0]) && word_len(
            trimmed_start(text),
        ) > 0,
        word_len(trimmed_start(text)) <= trimmed_start(text).len(),
    decreases text.len(),
{
    if text.len() > 0 && is_whitespace(text[0]) {
        lemma_trimmed_start_len(text.drop_first());
    } else {
        lemma_word_len(text);
    }
}

proof fn lemma_word_len(text: Seq<char>)
    ensures
        word_len(text) <= text.len(),
    decreases text.len(),
{
    if text.len() > 0 && !is_whitespace(text[0]) {
        lemma_word_len(text.drop_first());
    }
}

/// The views of some texts.
pub open spec fn text_views(texts: Seq<String>) -> Seq<Seq<char>> {
    texts.map_values(|text: String| text@)
}

/// Where the white space that starts at `from` ends.
fn skip_whitespace(chars: &Vec<char>, from: usize) -> (to: usize)
    requires
        from <= chars@.len(),
    ensures
        from <= to <= chars@.len(),
        trimmed_start(chars@.skip(from as int)) == chars@.skip(to as int),
{
    let mut to: usize = from;
    while to < chars.len() && char_is_whitespace(chars[to])
        invariant
            from <= to <= chars@.len(),
            trimmed_start(chars@.skip(from as int)) == trimmed_start(chars@.skip(to as int)),
        decreases chars@.len() - to,
    {
        assert(chars@.skip(to as int).drop_first() =~= chars@.skip(to + 1));
        to += 1;
    }
    to
}

/// Where the word that starts at `from` ends.
fn skip_word(chars: &Vec<char>, from: usize) -> (to: usize)
    requires
        from <= chars@.len(),
    ensures
        from <= to <= chars@.len(),
        word_len(chars@.skip(from as int)) == to - from,
{
    let mut to: usize = from;
    while to < chars.len() && !char_is_whitespace(chars[to])
        invariant
            from <= to <= chars@.len(),
            word_len(chars@.skip(from as int)) == to - from + word_len(chars@.skip(to as int)),
        decreases chars@.len() - to,
    {
        assert(chars@.skip(to as int).drop_first() =~= chars@.skip(to + 1));
        to += 1;
    }
    to
}

/// The words of a text.
pub fn split_words(text: &str) -> (all: Vec<String>)
    ensures
        text_views(all@) == words(text@),
{
    let chars = chars_of(text);
    let mut all: Vec<String> = Vec::new();
    let mut at: usize = 0;
    assert(text@.skip(0) =~= text@);
    assert(text_views(all@) =~= Seq::empty());
    assert(text_views(all@) + words(text@) =~= words(text@));
    loop
        invariant
            at <= chars@.len(),
            chars@ == text@,
            words(text@) == text_views(all@) + words(text@.skip(at as int)),
        decreases chars@.len() - at,
    {
        let from = skip_whitespace(&chars, at);
        if from == chars.len() {
            assert(words(text@.skip(at as int)) =~= Seq::empty());
            assert(words(text@) =~= text_views(all@));
            return all;
        }
        let to = skip_word(&chars, from);
        let ghost before = all@;
        let word = text.substring_char(from, to).to_owned();
        proof {
            let rest = text@.skip(from as int);
            lemma_trimmed_start_len(text@.skip(at as int));
            assert(rest == trimmed_start(text@.skip(at as int)));
            assert(rest.take(to - from) =~= text@.subrange(from as int, to as int));
            assert(rest.skip(to - from) =~= text@.skip(to as int));
        }
        all.push(word);
        proof {
            assert(text_views(all@) =~= text_views(before).push(word@));
            assert(text_views(before) + (seq![word@] + words(text@.skip(to as int)))
                =~= text_views(all@) + words(text@.skip(to as int)));
        }
        at = to;
    }
}

/// Whether `i` is the last place of a character in a text.
pub open spec fn is_last_place(text: Seq<char>, c: char, i: int) -> bool {
    &&& 0 <= i < text.len()
    &&& text[i] == c
    &&& forall|j: int| i < j < text.len() ==> #[trigger] text[j] != c
}

/// A text before and after the last place of a character in it.
pub open spec fn split_at_last(text: Seq<char>, c: char) -> Option<(Seq<char>, Seq<char>)> {
    if exists|i: int| is_last_place(text, c, i) {
        let i = choose|i: int| is_last_place(text, c, i);
        Some((text.take(i), text.skip(i + 1)))
    } else {
        None
    }
}

pub fn rsplit_once<'a>(text: &'a str, c: char) -> (parts: Option<(&'a str, &'a str)>)
    ensures
        match parts {
            Some((before, after)) => split_at_last(text@, c) == Some((before@, after@)),
            None => split_at_last(text@, c) is None,
        },
{
    let chars = chars_of(text);
    let mut i: usize = chars.len();
    while i > 0
        invariant
            i <= chars@.len(),
            chars@ == text@,
            forall|j: int| i <= j < chars@.len() ==> #[trigger] text@[j] != c,
        decreases i,
    {
        i -= 1;
        if chars[i] == c {
            proof {
                assert(is_last_place(text@, c, i as int));
                let k = choose|k: int| is_last_place(text@, c, k);
                assert(k == i);
                assert(text@.subrange(0, i as int) =~= text@.take(i as int));
                assert(text@.subrange(i + 1, text@.len() as int) =~= text@.skip(i + 1));
            }
            return Some(
                (text.substring_char(0, i), text.substring_char(i + 1, chars.len())),
            );
        }
    }
    None
}

/// Whether one text comes before another: at the first character in which they differ, or by
/// being its start.
pub open spec fn comes_before(a: Seq<char>, b: Seq<char>) -> bool
    decreases a.len(),
{
    if b.len() == 0 {
        false
    } else if a.len() == 0 {
        true
    } else if a[0] != b[0] {
        (a[0] as u32) < (b[0] as u32)
    } else {
        comes_before(a.drop_first(), b.drop_first())
    }
}

pub fn text_before(a: &str, b: &str) -> (before: bool)
    ensures
        before == comes_before(a@, b@),
{
    let x = chars_of(a);
    let y = chars_of(b);
    let mut i: usize = 0;
    assert(a@.skip(0) =~= a@);
    assert(b@.skip(0) =~= b@);
    loop
        invariant
            i <= x@.len(),
            i <= y@.len(),
            x@ == a@,
            y@ == b@,
            comes_before(a@, b@) == comes_before(a@.skip(i as int), b@.skip(i as int)),
        decreases x@.len() - i,
    {
        if i == y.len() {
            return false;
        }
        if i == x.len() {
            return true;
        }
        let p: u32 = x[i] as u32;
        let q: u32 = y[i] as u32;
        assert(a@.skip(i as int)[0] == x@[i as int]);
        assert(b@.skip(i as int)[0] == y@[i as int]);
        if x[i] != y[i] {
            return p < q;
        }
        assert(a@.skip(i as int).drop_first() =~= a@.skip(i + 1));
        assert(b@.skip(i as int).drop_first() =~= b@.skip(i + 1));
        i += 1;
    }
}

} // verus!
