//! Trimming, splitting, beginnings of texts, and numerals.

use vstd::prelude::*;

use crate::text::{
    ascii_lower, ascii_upper, chars_if_any, decimal, decimal_text, digit, is_white_space, numeral, split, split_at_each,
    starts_with, trim, trim_end, trimmed, trimmed_end, trimmed_start,
};

verus! {

/// White space are the space and the control characters from tab to carriage
/// return, the next-line character and the no-break space, and the spaces and
/// separators further on. No other character is.
pub proof fn law_white_space(c: char)
    ensures
        (c as u32) < 0x80 ==> (is_white_space(c) <==> c == ' ' || '\t' <= c <= '\r'),
        (c as u32) >= 0x80 ==> (is_white_space(c) <==> {
            ||| c == '\u{85}' || c == '\u{a0}' || c == '\u{1680}'
            ||| '\u{2000}' <= c <= '\u{200a}'
            ||| c == '\u{2028}' || c == '\u{2029}' || c == '\u{202f}' || c == '\u{205f}'
            ||| c == '\u{3000}'
        }),
{
}

/// The cases of an ASCII letter lie 32 apart, the capital one first; any other
/// character has one case only.
pub proof fn law_ascii_case(c: char)
    ensures
        'A' <= c <= 'Z' ==> ascii_lower(c) as u32 == c as u32 + 32 && ascii_upper(c) == c,
        'a' <= c <= 'z' ==> ascii_upper(c) as u32 == c as u32 - 32 && ascii_lower(c) == c,
        !('A' <= c <= 'Z') && !('a' <= c <= 'z') ==> ascii_lower(c) == c && ascii_upper(c) == c,
{
}

/// A text that is there has its characters; one that is missing has none.
pub proof fn law_chars_if_any(text: &str)
    ensures
        chars_if_any(Some(text)) == Some(text@),
        chars_if_any(None) is None,
{
}

/// A text begins with another one if that is not longer and each character of
/// it stands at the same place.
pub proof fn law_starts_with(text: &str, prefix: &str, found: bool)
    requires
        call_ensures(starts_with, (text, prefix), found),
    ensures
        found <==> prefix@.len() <= text@.len() && forall|i: int|
            0 <= i < prefix@.len() ==> #[trigger] text@[i] == prefix@[i],
{
    if prefix@.len() <= text@.len() && forall|i: int|
        0 <= i < prefix@.len() ==> #[trigger] text@[i] == prefix@[i] {
        assert(prefix@ =~= text@.subrange(0, prefix@.len() as int));
    }
    if found {
        assert forall|i: int| 0 <= i < prefix@.len() implies #[trigger] text@[i] == prefix@[i] by {
            assert(text@.subrange(0, prefix@.len() as int)[i] == text@[i]);
        }
    }
}

proof fn lemma_trimmed_end(text: Seq<char>)
    ensures
        trimmed_end(text).len() <= text.len(),
        trimmed_end(text) == text.take(trimmed_end(text).len() as int),
        forall|i: int|
            trimmed_end(text).len() <= i < text.len() ==> is_white_space(#[trigger] text[i]),
        trimmed_end(text).len() > 0 ==> !is_white_space(trimmed_end(text).last()),
    decreases text.len(),
{
    if text.len() > 0 && is_white_space(text.last()) {
        let init = text.drop_last();
        lemma_trimmed_end(init);
        let short = trimmed_end(init);
        assert(init.take(short.len() as int) == text.take(short.len() as int));
        assert forall|i: int| short.len() <= i < text.len() implies is_white_space(
            #[trigger] text[i],
        ) by {
            if i < init.len() {
                assert(init[i] == text[i]);
            }
        }
    } else {
        assert(text.take(text.len() as int) == text);
    }
}

proof fn lemma_trimmed_start(text: Seq<char>)
    ensures
        trimmed_start(text).len() <= text.len(),
        trimmed_start(text) == text.skip(text.len() - trimmed_start(text).len()),
        forall|i: int|
            0 <= i < text.len() - trimmed_start(text).len() ==> is_white_space(#[trigger] text[i]),
        trimmed_start(text).len() > 0 ==> !is_white_space(trimmed_start(text).first()),
    decreases text.len(),
{
    if text.len() > 0 && is_white_space(text.first()) {
        let tail = text.drop_first();
        lemma_trimmed_start(tail);
        let short = trimmed_start(tail);
        assert(tail.skip(tail.len() - short.len()) == text.skip(text.len() - short.len()));
        assert forall|i: int| 0 <= i < text.len() - short.len() implies is_white_space(
            #[trigger] text[i],
        ) by {
            if i > 0 {
                assert(tail[i - 1] == text[i]);
            }
        }
    } else {
        assert(text.skip(0) == text);
    }
}

/// Trimming the end takes the white space there away, all of it, and nothing
/// else.
pub proof fn law_trim_end(text: &str, short: String)
    requires
        call_ensures(trim_end, (text,), short),
    ensures
        short@.len() <= text@.len(),
        short@ == text@.take(short@.len() as int),
        forall|i: int| short@.len() <= i < text@.len() ==> is_white_space(#[trigger] text@[i]),
        short@.len() > 0 ==> !is_white_space(short@.last()),
{
    lemma_trimmed_end(text@);
}

/// A text without the white space around it: what stands between two indices
/// such that all outside of them is white space, while neither the first nor the
/// last character within is.
pub proof fn law_trimmed(text: Seq<char>)
    ensures
        exists|from: int, to: int| #[trigger]
            text.subrange(from, to) == trimmed(text) && 0 <= from <= to <= text.len() && (forall|
                i: int,
            |
                0 <= i < from || to <= i < text.len() ==> is_white_space(#[trigger] text[i])),
        trimmed(text).len() > 0 ==> !is_white_space(trimmed(text).first()) && !is_white_space(
            trimmed(text).last(),
        ),
{
    lemma_trimmed_end(text);
    let head = trimmed_end(text);
    lemma_trimmed_start(head);
    let short = trimmed(text);
    let from = head.len() - short.len();
    let to = head.len() as int;
    assert(text.subrange(from, to) == short);
    assert forall|i: int| 0 <= i < from || to <= i < text.len() implies is_white_space(
        #[trigger] text[i],
    ) by {
        if i < from {
            assert(head[i] == text[i]);
        }
    }
    if short.len() > 0 {
        assert(short.last() == head.last());
    }
}

/// Trimming takes the white space at both ends away, all of it, and nothing
/// else.
pub proof fn law_trim(text: &str, short: String)
    requires
        call_ensures(trim, (text,), short),
    ensures
        exists|from: int, to: int| #[trigger]
            text@.subrange(from, to) == short@ && 0 <= from <= to <= text@.len() && (forall|i: int|
                0 <= i < from || to <= i < text@.len() ==> is_white_space(#[trigger] text@[i])),
        short@.len() > 0 ==> !is_white_space(short@.first()) && !is_white_space(short@.last()),
{
    law_trimmed(text@);
}

/// The pieces with a separator between each and the next.
pub open spec fn put_together(pieces: Seq<Seq<char>>, separator: char) -> Seq<char>
    decreases pieces.len(),
{
    if pieces.len() == 0 {
        Seq::empty()
    } else if pieces.len() == 1 {
        pieces[0]
    } else {
        put_together(pieces.drop_last(), separator).push(separator) + pieces.last()
    }
}

/// The pieces of a text hold no separator, and with separators between them they
/// are the text.
pub proof fn law_pieces(text: Seq<char>, separator: char)
    ensures
        split_at_each(text, separator).len() > 0,
        put_together(split_at_each(text, separator), separator) == text,
        forall|i: int, j: int|
            0 <= i < split_at_each(text, separator).len() && 0 <= j < split_at_each(
                text,
                separator,
            )[i].len() ==> #[trigger] split_at_each(text, separator)[i][j] != separator,
    decreases text.len(),
{
    let pieces = split_at_each(text, separator);
    if text.len() == 0 {
        assert(pieces[0] == Seq::<char>::empty());
        assert(text == Seq::<char>::empty());
    } else {
        let init = text.drop_last();
        law_pieces(init, separator);
        let before = split_at_each(init, separator);
        assert(init.push(text.last()) == text);
        if text.last() == separator {
            assert(pieces.drop_last() == before);
            assert(put_together(pieces, separator) == text);
        } else {
            let grown = before.last().push(text.last());
            assert(pieces.drop_last() == before.drop_last());
            assert(pieces.last() == grown);
            assert(put_together(pieces, separator) == text);
            assert forall|i: int, j: int|
                0 <= i < pieces.len() && 0 <= j < pieces[i].len() implies #[trigger] pieces[i][j]
                != separator by {
                if i < pieces.len() - 1 {
                    assert(pieces[i] == before[i]);
                } else if j < grown.len() - 1 {
                    assert(pieces[i][j] == before[before.len() - 1][j]);
                }
            }
        }
    }
}

/// Splitting cuts a text at the separators and nowhere else.
pub proof fn law_split(text: &str, separator: char, pieces: Vec<String>)
    requires
        call_ensures(split, (text, separator), pieces),
    ensures
        pieces@.len() > 0,
        put_together(Seq::new(pieces@.len(), |i: int| pieces@[i]@), separator) == text@,
        forall|i: int, j: int|
            0 <= i < pieces@.len() && 0 <= j < pieces@[i]@.len() ==> #[trigger] pieces@[i]@[j]
                != separator,
{
    law_pieces(text@, separator);
    let views = split_at_each(text@, separator);
    assert(pieces@.map_values(|piece: String| piece@).len() == pieces@.len());
    assert(Seq::new(pieces@.len(), |i: int| pieces@[i]@) == views);
    assert forall|i: int, j: int|
        0 <= i < pieces@.len() && 0 <= j < pieces@[i]@.len() implies #[trigger] pieces@[i]@[j]
        != separator by {
        assert(views[i] == pieces@[i]@);
        assert(views[i][j] != separator);
    }
}

/// The number that decimal digits are read as.
pub open spec fn number_read(digits: Seq<char>) -> int
    decreases digits.len(),
{
    if digits.len() == 0 {
        0
    } else {
        10 * number_read(digits.drop_last()) + (digits.last() as int - '0' as int)
    }
}

proof fn lemma_numeral(number: nat)
    ensures
        numeral(number).len() > 0,
        number_read(numeral(number)) == number,
        forall|i: int| 0 <= i < numeral(number).len() ==> '0' <= #[trigger] numeral(number)[i] <= '9',
        numeral(number).len() > 1 ==> numeral(number)[0] != '0',
        number > 0 ==> numeral(number)[0] != '0',
    decreases number,
{
    let digits = numeral(number);
    if number < 10 {
        assert(digits == seq![digit(number)]);
        assert(digits.drop_last() == Seq::<char>::empty());
        assert(number_read(digits.drop_last()) == 0);
    } else {
        lemma_numeral(number / 10);
        assert(digits.drop_last() == numeral(number / 10));
    }
}

/// A numeral reads back as its number: digits without a needless zero in front,
/// and a sign before them just if the number is negative.
pub proof fn law_decimal_text(number: i64, text: String)
    requires
        call_ensures(decimal_text, (number,), text),
    ensures
        ({
            let digits = if number < 0 {
                text@.skip(1)
            } else {
                text@
            };
            &&& number < 0 ==> text@.len() > 0 && text@[0] == '-'
            &&& digits.len() > 0
            &&& forall|i: int| 0 <= i < digits.len() ==> '0' <= #[trigger] digits[i] <= '9'
            &&& digits.len() > 1 ==> digits[0] != '0'
            &&& number_read(digits) == (if number < 0 {
                -number
            } else {
                number as int
            })
        }),
{
    if number < 0 {
        lemma_numeral((-number) as nat);
        assert(decimal(number as int).skip(1) == numeral((-number) as nat));
    } else {
        lemma_numeral(number as nat);
    }
}

} // verus!
