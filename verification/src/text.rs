//! Text as a sequence of characters: comparing, trimming, splitting, letter
//! case, and decimal numerals.

use vstd::prelude::*;

verus! {

/// The characters with Unicode's `White_Space` property.
pub open spec fn is_white_space(c: char) -> bool {
    let code = c as u32;
    ||| 0x09 <= code <= 0x0d
    ||| code == 0x20
    ||| code == 0x85
    ||| code == 0xa0
    ||| code == 0x1680
    ||| 0x2000 <= code <= 0x200a
    ||| code == 0x2028
    ||| code == 0x2029
    ||| code == 0x202f
    ||| code == 0x205f
    ||| code == 0x3000
}

/// `char::is_whitespace` tells whether a character has Unicode's
/// `White_Space` property.
pub assume_specification[ char::is_whitespace ](c: char) -> (white: bool)
    ensures
        white == is_white_space(c),
;

/// `String::push` appends one character.
pub assume_specification[ String::push ](text: &mut String, c: char)
    ensures
        final(text)@ == old(text)@.push(c),
;

/// Two `str` are equal when they hold the same characters.
pub assume_specification[ <str as PartialEq>::eq ](left: &str, right: &str) -> (equal: bool)
    ensures
        equal == (left@ == right@),
;

/// The characters of a text that may be missing.
pub open spec fn chars_if_any(text: Option<&str>) -> Option<Seq<char>> {
    match text {
        Some(text) => Some(text@),
        None => None,
    }
}

/// Every character is an ASCII character.
pub open spec fn is_ascii_text(text: Seq<char>) -> bool {
    forall|i: int| 0 <= i < text.len() ==> (#[trigger] text[i] as u32) < 0x80
}

/// An ASCII capital letter as a small one; any other character as it is.
pub open spec fn ascii_lower(c: char) -> char {
    if 'A' <= c <= 'Z' {
        (c as u32 + 32) as char
    } else {
        c
    }
}

/// An ASCII small letter as a capital one; any other character as it is.
pub open spec fn ascii_upper(c: char) -> char {
    if 'a' <= c <= 'z' {
        (c as u32 - 32) as char
    } else {
        c
    }
}

/// The text with every ASCII letter small.
pub open spec fn ascii_lowercase(text: Seq<char>) -> Seq<char> {
    text.map_values(|c: char| ascii_lower(c))
}

/// The text with every ASCII letter capital.
pub open spec fn ascii_uppercase(text: Seq<char>) -> Seq<char> {
    text.map_values(|c: char| ascii_upper(c))
}

/// The lower case of a text, as Unicode defines it.
pub uninterp spec fn lowercase(text: Seq<char>) -> Seq<char>;

/// The upper case of a text, as Unicode defines it.
pub uninterp spec fn uppercase(text: Seq<char>) -> Seq<char>;

/// `str::to_lowercase` gives the lower case of the text, by Unicode's default
/// rules: each character is turned into its lower case on its own, but for the
/// Greek sigma, whose small letter depends on whether a word goes on. So:
/// - On ASCII text it turns each capital letter into the small one and changes
///   nothing else.
/// - Which case the ASCII letters of the text are in makes no difference.
/// - An ASCII beginning of the text is turned letter by letter, whatever
///   follows.
/// - As far as the lower case of a beginning of the text is ASCII, it begins
///   the lower case of the whole.
pub assume_specification[ str::to_lowercase ](text: &str) -> (lower: String)
    ensures
        lower@ == lowercase(text@),
        is_ascii_text(text@) ==> lower@ == ascii_lowercase(text@),
        (forall|other: Seq<char>|
            ascii_lowercase(other) == ascii_lowercase(text@) ==> lower@ == #[trigger] lowercase(
                other,
            )),
        (forall|n: int|
            0 <= n <= text@.len() && is_ascii_text(#[trigger] text@.take(n)) ==> ascii_lowercase(
                text@.take(n),
            ).is_prefix_of(lower@)),
        (forall|n: int, start: Seq<char>|
            0 <= n <= text@.len() && is_ascii_text(start) && #[trigger] start.is_prefix_of(
                lowercase(text@.take(n)),
            ) ==> start.is_prefix_of(lower@)),
;

/// `str::to_uppercase` gives the upper case of the text, by Unicode's default
/// rules: each character is turned into its upper case on its own. So on ASCII
/// text it turns each small letter into the capital one and changes nothing
/// else, and which case the ASCII letters of any text are in makes no
/// difference.
pub assume_specification[ str::to_uppercase ](text: &str) -> (upper: String)
    ensures
        upper@ == uppercase(text@),
        is_ascii_text(text@) ==> upper@ == ascii_uppercase(text@),
        (forall|other: Seq<char>|
            ascii_uppercase(other) == ascii_uppercase(text@) ==> upper@ == #[trigger] uppercase(
                other,
            )),
;

/// Texts that are the same with all ASCII letters small are the same with all
/// of them capital.
pub proof fn lemma_same_but_for_case(one: Seq<char>, other: Seq<char>)
    requires
        ascii_lowercase(one) == ascii_lowercase(other),
    ensures
        one.len() == other.len(),
        ascii_uppercase(one) == ascii_uppercase(other),
{
    assert(ascii_lowercase(one).len() == one.len());
    assert(ascii_lowercase(other).len() == other.len());
    assert forall|i: int| 0 <= i < one.len() implies ascii_upper(#[trigger] one[i]) == ascii_upper(
        other[i],
    ) by {
        assert(ascii_lowercase(one)[i] == ascii_lower(one[i]));
        assert(ascii_lowercase(other)[i] == ascii_lower(other[i]));
    }
    assert(ascii_uppercase(one) == ascii_uppercase(other));
}

/// Small letters stay small.
pub proof fn lemma_lowercase_twice(text: Seq<char>)
    ensures
        ascii_lowercase(ascii_lowercase(text)) == ascii_lowercase(text),
{
    assert(ascii_lowercase(ascii_lowercase(text)) =~= ascii_lowercase(text));
}

/// Only ASCII text becomes ASCII text.
pub proof fn lemma_ascii_from_lowercase(text: Seq<char>)
    requires
        is_ascii_text(ascii_lowercase(text)),
    ensures
        is_ascii_text(text),
{
    assert forall|i: int| 0 <= i < text.len() implies (#[trigger] text[i] as u32) < 0x80 by {
        assert(ascii_lowercase(text)[i] == ascii_lower(text[i]));
        assert((ascii_lowercase(text)[i] as u32) < 0x80);
    }
}

/// The characters of a text.
pub fn chars_of(text: &str) -> (chars: Vec<char>)
    ensures
        chars@ == text@,
{
    let mut chars: Vec<char> = Vec::new();
    for c in rest: text.chars()
        invariant
            rest.seq() == text@,
            chars@ == text@.take(rest.index()),
    {
        chars.push(c);
        assert(text@.take(rest.index() + 1) == text@.take(rest.index()).push(c));
    }
    assert(text@.take(text@.len() as int) == text@);
    chars
}

/// The text made of the characters from index `from` up to index `to`.
pub fn text_between(chars: &[char], from: usize, to: usize) -> (text: String)
    requires
        from <= to <= chars@.len(),
    ensures
        text@ == chars@.subrange(from as int, to as int),
{
    let mut text = String::new();
    let mut at: usize = from;
    while at < to
        invariant
            from <= at <= to <= chars@.len(),
            text@ == chars@.subrange(from as int, at as int),
        decreases to - at,
    {
        text.push(chars[at]);
        assert(chars@.subrange(from as int, at + 1) == chars@.subrange(from as int, at as int).push(
            chars@[at as int],
        ));
        at += 1;
    }
    text
}

/// Whether the text begins with `prefix`.
pub fn starts_with(text: &str, prefix: &str) -> (found: bool)
    ensures
        found == prefix@.is_prefix_of(text@),
{
    let chars = chars_of(text);
    let wanted = chars_of(prefix);
    if chars.len() < wanted.len() {
        return false;
    }
    let mut at: usize = 0;
    while at < wanted.len()
        invariant
            at <= wanted.len() <= chars.len(),
            chars@ == text@,
            wanted@ == prefix@,
            forall|i: int| 0 <= i < at ==> chars@[i] == wanted@[i],
        decreases wanted.len() - at,
    {
        if chars[at] != wanted[at] {
            return false;
        }
        at += 1;
    }
    assert(prefix@ =~= text@.subrange(0, prefix@.len() as int));
    true
}

/// The text without the white space at its end.
pub open spec fn trimmed_end(text: Seq<char>) -> Seq<char>
    decreases text.len(),
{
    if text.len() > 0 && is_white_space(text.last()) {
        trimmed_end(text.drop_last())
    } else {
        text
    }
}

/// The text without the white space at its beginning.
pub open spec fn trimmed_start(text: Seq<char>) -> Seq<char>
    decreases text.len(),
{
    if text.len() > 0 && is_white_space(text.first()) {
        trimmed_start(text.drop_first())
    } else {
        text
    }
}

/// The text without the white space at its beginning and at its end.
pub open spec fn trimmed(text: Seq<char>) -> Seq<char> {
    trimmed_start(trimmed_end(text))
}

/// The index after the last character that is not white space.
fn content_end(chars: &[char]) -> (end: usize)
    ensures
        end <= chars@.len(),
        chars@.take(end as int) == trimmed_end(chars@),
{
    let mut end: usize = chars.len();
    assert(chars@.take(end as int) == chars@);
    while end > 0 && chars[end - 1].is_whitespace()
        invariant
            end <= chars@.len(),
            trimmed_end(chars@.take(end as int)) == trimmed_end(chars@),
        decreases end,
    {
        assert(chars@.take(end as int).drop_last() == chars@.take(end - 1));
        end -= 1;
    }
    end
}

/// The text without the white space at its end.
pub fn trim_end(text: &str) -> (short: String)
    ensures
        short@ == trimmed_end(text@),
{
    let chars = chars_of(text);
    let end = content_end(chars.as_slice());
    assert(chars@.take(end as int) == chars@.subrange(0, end as int));
    text_between(chars.as_slice(), 0, end)
}

/// The text without the white space at its beginning and at its end.
pub fn trim(text: &str) -> (short: String)
    ensures
        short@ == trimmed(text@),
{
    let chars = chars_of(text);
    let end = content_end(chars.as_slice());
    let mut start: usize = 0;
    assert(chars@.subrange(0, end as int) == chars@.take(end as int));
    while start < end && chars[start].is_whitespace()
        invariant
            start <= end <= chars@.len(),
            trimmed_start(chars@.subrange(start as int, end as int)) == trimmed_start(
                chars@.take(end as int),
            ),
        decreases end - start,
    {
        assert(chars@.subrange(start as int, end as int).drop_first() == chars@.subrange(
            start + 1,
            end as int,
        ));
        start += 1;
    }
    text_between(chars.as_slice(), start, end)
}

/// The pieces of a text between the separators: one more piece than there are
/// separators, in order.
pub open spec fn split_at_each(text: Seq<char>, separator: char) -> Seq<Seq<char>>
    decreases text.len(),
{
    if text.len() == 0 {
        seq![Seq::empty()]
    } else {
        let before = split_at_each(text.drop_last(), separator);
        if text.last() == separator {
            before.push(Seq::empty())
        } else {
            before.drop_last().push(before.last().push(text.last()))
        }
    }
}

/// The pieces of a text between the separators.
pub fn split(text: &str, separator: char) -> (pieces: Vec<String>)
    ensures
        pieces@.map_values(|piece: String| piece@) == split_at_each(text@, separator),
{
    let chars = chars_of(text);
    let mut pieces: Vec<String> = Vec::new();
    let mut open = String::new();
    let mut at: usize = 0;
    assert(pieces@.map_values(|piece: String| piece@).push(open@) =~= split_at_each(
        chars@.take(0),
        separator,
    ));
    while at < chars.len()
        invariant
            at <= chars.len(),
            pieces@.map_values(|piece: String| piece@).push(open@) == split_at_each(
                chars@.take(at as int),
                separator,
            ),
        decreases chars.len() - at,
    {
        let ghost closed = pieces@.map_values(|piece: String| piece@);
        let ghost head = chars@.take(at + 1);
        assert(head.drop_last() == chars@.take(at as int));
        assert(head.last() == chars@[at as int]);
        assert(closed.push(open@).drop_last() == closed);
        if chars[at] == separator {
            pieces.push(open);
            open = String::new();
            assert(pieces@.map_values(|piece: String| piece@) == closed.push(pieces@.last()@));
        } else {
            open.push(chars[at]);
        }
        at += 1;
    }
    let ghost closed = pieces@.map_values(|piece: String| piece@);
    assert(chars@.take(chars@.len() as int) == text@);
    pieces.push(open);
    assert(pieces@.map_values(|piece: String| piece@) == closed.push(open@));
    pieces
}

/// The character of a decimal digit.
pub open spec fn digit(value: nat) -> char {
    ('0' as u32 + value) as char
}

/// The decimal numeral of a natural number.
pub open spec fn numeral(number: nat) -> Seq<char>
    decreases number,
{
    if number < 10 {
        seq![digit(number)]
    } else {
        numeral(number / 10).push(digit(number % 10))
    }
}

/// The decimal numeral of a number, with a sign in front if it is negative.
pub open spec fn decimal(number: int) -> Seq<char> {
    if number < 0 {
        seq!['-'] + numeral((-number) as nat)
    } else {
        numeral(number as nat)
    }
}

/// Appends the decimal numeral of `number`.
fn push_numeral(text: &mut String, number: u64)
    ensures
        final(text)@ == old(text)@ + numeral(number as nat),
    decreases number,
{
    if number >= 10 {
        push_numeral(text, number / 10);
    }
    let value: u8 = (number % 10) as u8;
    text.push((48 + value) as char);
    assert(text@ == old(text)@ + numeral(number as nat));
}

/// The decimal numeral of `number`.
pub fn decimal_text(number: i64) -> (text: String)
    ensures
        text@ == decimal(number as int),
{
    let mut text = String::new();
    if number < 0 {
        text.push('-');
        push_numeral(&mut text, (-(number + 1)) as u64 + 1);
    } else {
        push_numeral(&mut text, number as u64);
    }
    assert(text@ == decimal(number as int));
    text
}

} // verus!
