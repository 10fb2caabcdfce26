use vstd::prelude::*;

use crate::text::{digit, digits};
use crate::words::{
    comes_before, is_digit, is_last_place, is_whitespace, parsed_u64, split_at_last, trimmed,
    trimmed_end, trimmed_start, value_of_digits, without_plus, word_len, words,
};

verus! {

/// White space is what Unicode calls so: twenty-five characters.
pub proof fn law_white_space_is_that_of_unicode(c: char)
    ensures
        is_whitespace(c) <==> (c == '\t' || c == '\n' || c == '\u{b}' || c == '\u{c}' || c == '\r'
            || c == ' ' || c == '\u{85}' || c == '\u{a0}' || c == '\u{1680}' || c == '\u{2000}'
            || c == '\u{2001}' || c == '\u{2002}' || c == '\u{2003}' || c == '\u{2004}' || c
            == '\u{2005}' || c == '\u{2006}' || c == '\u{2007}' || c == '\u{2008}' || c
            == '\u{2009}' || c == '\u{200a}' || c == '\u{2028}' || c == '\u{2029}' || c
            == '\u{202f}' || c == '\u{205f}' || c == '\u{3000}'),
{
}

/// To trim a text is to take the white space from both of its ends and nothing else.
pub proof fn law_trimming_takes_white_space_from_the_ends(
    before: Seq<char>,
    text: Seq<char>,
    after: Seq<char>,
)
    requires
        forall|i: int| 0 <= i < before.len() ==> is_whitespace(#[trigger] before[i]),
        forall|i: int| 0 <= i < after.len() ==> is_whitespace(#[trigger] after[i]),
        text.len() > 0 ==> !is_whitespace(text[0]) && !is_whitespace(text.last()),
    ensures
        trimmed(before + text + after) == text,
{
    if text.len() == 0 {
        assert(before + text + after =~= before + after);
        lemma_white_start(before + after, Seq::empty());
        assert(before + after + Seq::<char>::empty() =~= before + after);
        assert(text =~= Seq::empty());
    } else {
        lemma_white_start(before, text + after);
        assert(before + (text + after) =~= before + text + after);
        assert((text + after)[0] == text[0]);
        lemma_white_end(text, after);
    }
}

proof fn lemma_white_start(white: Seq<char>, text: Seq<char>)
    requires
        forall|i: int| 0 <= i < white.len() ==> is_whitespace(#[trigger] white[i]),
    ensures
        trimmed_start(white + text) == trimmed_start(text),
    decreases white.len(),
{
    if white.len() == 0 {
        assert(white + text =~= text);
    } else {
        assert((white + text).drop_first() =~= white.drop_first() + text);
        assert((white + text)[0] == white[0]);
        lemma_white_start(white.drop_first(), text);
    }
}

proof fn lemma_white_end(text: Seq<char>, white: Seq<char>)
    requires
        forall|i: int| 0 <= i < white.len() ==> is_whitespace(#[trigger] white[i]),
    ensures
        trimmed_end(text + white) == trimmed_end(text),
    decreases white.len(),
{
    if white.len() == 0 {
        assert(text + white =~= text);
    } else {
        assert((text + white).drop_last() =~= text + white.drop_last());
        assert((text + white).last() == white.last());
        lemma_white_end(text, white.drop_last());
    }
}

/// White space parts words: the words on both sides of it are the words of the whole.
pub proof fn law_white_space_parts_words(before: Seq<char>, white: char, after: Seq<char>)
    requires
        is_whitespace(white),
    ensures
        words(before + seq![white] + after) == words(before) + words(after),
    decreases before.len(),
{
    let whole = before + seq![white] + after;
    if before.len() == 0 {
        lemma_white_start(seq![white], after);
        assert(whole =~= seq![white] + after);
        assert(words(before) =~= Seq::empty());
        assert(words(before) + words(after) =~= words(after));
    } else if is_whitespace(before[0]) {
        let rest = before.drop_first();
        assert(whole.drop_first() =~= rest + seq![white] + after);
        assert(whole[0] == before[0]);
        assert(trimmed_start(whole) == trimmed_start(whole.drop_first()));
        assert(trimmed_start(before) == trimmed_start(rest));
        assert(words(whole) == words(whole.drop_first()));
        assert(words(before) == words(rest));
        law_white_space_parts_words(rest, white, after);
    } else {
        let n = word_len(before) as int;
        lemma_word_ends(before, white, after);
        assert(whole[0] == before[0]);
        let rest = before.skip(n);
        assert(whole.take(n) =~= before.take(n));
        assert(whole.skip(n) =~= rest + seq![white] + after);
        assert(words(before) == seq![before.take(n)] + words(rest));
        assert(words(whole) == seq![whole.take(n)] + words(whole.skip(n)));
        law_white_space_parts_words(rest, white, after);
        assert(seq![before.take(n)] + (words(rest) + words(after)) =~= words(before) + words(
            after,
        ));
    }
}

proof fn lemma_word_ends(before: Seq<char>, white: char, after: Seq<char>)
    requires
        is_whitespace(white),
    ensures
        word_len(before + seq![white] + after) == word_len(before),
        word_len(before) <= before.len(),
        before.len() > 0 && !is_whitespace(before[0]) ==> word_len(before) > 0,
    decreases before.len(),
{
    let whole = before + seq![white] + after;
    if before.len() == 0 {
        assert(whole[0] == white);
    } else {
        assert(whole[0] == before[0]);
        assert(whole.drop_first() =~= before.drop_first() + seq![white] + after);
        lemma_word_ends(before.drop_first(), white, after);
    }
}

/// A text without white space is one word, unless it is empty: then it has none.
pub proof fn law_text_without_white_space_is_a_word(text: Seq<char>)
    requires
        forall|i: int| 0 <= i < text.len() ==> !is_whitespace(#[trigger] text[i]),
    ensures
        words(text) == if text.len() == 0 {
            Seq::<Seq<char>>::empty()
        } else {
            seq![text]
        },
{
    if text.len() > 0 {
        lemma_whole_word(text);
        assert(text.take(text.len() as int) =~= text);
        assert(words(text.skip(text.len() as int)) =~= Seq::empty());
        assert(words(text) =~= seq![text]);
    }
}

proof fn lemma_whole_word(text: Seq<char>)
    requires
        forall|i: int| 0 <= i < text.len() ==> !is_whitespace(#[trigger] text[i]),
    ensures
        word_len(text) == text.len(),
    decreases text.len(),
{
    if text.len() > 0 {
        lemma_whole_word(text.drop_first());
    }
}

/// A number is read from the decimal digits that write it, also after a plus sign.
pub proof fn law_number_is_read_from_its_digits(n: u64)
    ensures
        parsed_u64(digits(n as nat)) == Some(n),
        parsed_u64(seq!['+'] + digits(n as nat)) == Some(n),
{
    let text = digits(n as nat);
    lemma_digits_write(n as nat);
    assert(is_digit(text[0]));
    assert(without_plus(text) == text);
    assert((seq!['+'] + text).drop_first() =~= text);
    assert(without_plus(seq!['+'] + text) == text);
}

proof fn lemma_digits_write(n: nat)
    ensures
        digits(n).len() > 0,
        value_of_digits(digits(n)) == n,
        forall|i: int| 0 <= i < digits(n).len() ==> is_digit(#[trigger] digits(n)[i]),
    decreases n,
{
    let text = digits(n);
    let last = n % 10;
    assert(digit(last) as u32 == 48 + last);
    assert(text.last() == digit(last));
    if n < 10 {
        assert(text.drop_last() =~= Seq::empty());
        assert(value_of_digits(text.drop_last()) == 0);
    } else {
        lemma_digits_write(n / 10);
        assert(text.drop_last() =~= digits(n / 10));
    }
}

/// Nothing but digits is read as a number, apart from one plus sign before them, and each digit
/// more makes ten times the number and the digit.
pub proof fn law_only_digits_are_read(text: Seq<char>)
    ensures
        parsed_u64(text) is Some ==> {
            let from: int = if text[0] == '+' {
                1
            } else {
                0
            };
            &&& text.len() > from
            &&& forall|i: int| from <= i < text.len() ==> 48 <= #[trigger] text[i] as u32 <= 57
            &&& text.len() > from + 1 ==> (parsed_u64(text.drop_last()) matches Some(n)
                && parsed_u64(text)->0 == n * 10 + (text.last() as u32 - 48))
        },
{
    if parsed_u64(text) is Some {
        let all = without_plus(text);
        let from: int = if text.len() > 0 && text[0] == '+' {
            1
        } else {
            0
        };
        assert(all =~= text.skip(from));
        assert forall|i: int| from <= i < text.len() implies 48 <= #[trigger] text[i] as u32 <= 57 by {
            assert(all[i - from] == text[i]);
            assert(is_digit(all[i - from]));
        }
        if text.len() > from + 1 {
            assert(without_plus(text.drop_last()) =~= all.drop_last());
            assert(all.last() == text.last());
            assert(is_digit(all[all.len() - 1]));
            assert forall|i: int| 0 <= i < all.drop_last().len() implies is_digit(
                #[trigger] all.drop_last()[i],
            ) by {
                assert(is_digit(all[i]));
            }
        }
    }
}

/// A text is split at the last place of a character: the parts make up the text round it, and the
/// part after it is free of it. Only a text without the character is not split.
pub proof fn law_text_is_split_at_the_last_place(before: Seq<char>, c: char, after: Seq<char>)
    requires
        !after.contains(c),
    ensures
        split_at_last(before + seq![c] + after, c) == Some((before, after)),
        split_at_last(after, c) is None,
{
    let text = before + seq![c] + after;
    let at = before.len() as int;
    assert forall|j: int| at < j < text.len() implies #[trigger] text[j] != c by {
        assert(after[j - at - 1] == text[j]);
    }
    assert(text[at] == c);
    assert(is_last_place(text, c, at));
    let i = choose|i: int| is_last_place(text, c, i);
    assert(i == at);
    assert(text.take(at) =~= before);
    assert(text.skip(at + 1) =~= after);
    assert forall|k: int| !is_last_place(after, c, k) by {
        if 0 <= k < after.len() {
            assert(after.contains(after[k]));
        }
    }
}

/// Texts are in order by the first character in which they differ, and a text comes after its
/// own start.
pub proof fn law_texts_are_in_order_by_their_first_difference(
    start: Seq<char>,
    x: char,
    a: Seq<char>,
    y: char,
    b: Seq<char>,
)
    ensures
        x != y ==> (comes_before(start + seq![x] + a, start + seq![y] + b) <==> (x as u32) < (y as u32)),
        comes_before(start, start + seq![x] + a),
        !comes_before(start + seq![x] + a, start),
        !comes_before(start, start),
    decreases start.len(),
{
    let p = start + seq![x] + a;
    let q = start + seq![y] + b;
    if start.len() > 0 {
        let rest = start.drop_first();
        assert(p.drop_first() =~= rest + seq![x] + a);
        assert(q.drop_first() =~= rest + seq![y] + b);
        assert(p[0] == start[0] && q[0] == start[0]);
        law_texts_are_in_order_by_their_first_difference(rest, x, a, y, b);
    } else {
        assert(p[0] == x && q[0] == y);
    }
}

} // verus!
