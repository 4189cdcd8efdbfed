//! Words, and the rolling window over them.

use vstd::prelude::*;

use crate::text::is_white_space;
use crate::words::{
    extend_window, extended, law_window_keeps_last_words, law_words_are_words, spaced, split_words,
    texts, words,
};

verus! {

/// White space of any kind separates words: those before it and those behind it
/// are the words of the whole.
pub proof fn law_white_space_separates_words(one: Seq<char>, space: char, other: Seq<char>)
    requires
        is_white_space(space),
    ensures
        words(one.push(space) + other) == words(one) + words(other),
    decreases other.len(),
{
    let all = one.push(space) + other;
    if other.len() == 0 {
        assert(all == one.push(space));
        assert(all.drop_last() == one);
        assert(words(all) == words(one) + words(other));
    } else {
        let init = other.drop_last();
        law_white_space_separates_words(one, space, init);
        law_words_are_words(init);
        assert(all.drop_last() == one.push(space) + init);
        assert(all.last() == other.last());
        if init.len() > 0 {
            assert((one.push(space) + init).last() == init.last());
        } else {
            assert((one.push(space) + init).last() == space);
        }
        assert(words(all) == words(one) + words(other));
    }
}

/// Characters without white space among them are one word.
pub proof fn law_word_is_one_word(word: Seq<char>)
    requires
        word.len() > 0,
        forall|i: int| 0 <= i < word.len() ==> !is_white_space(#[trigger] word[i]),
    ensures
        words(word) == seq![word],
    decreases word.len(),
{
    let init = word.drop_last();
    assert(!is_white_space(word[word.len() - 1]));
    if init.len() == 0 {
        assert(words(init) == Seq::<Seq<char>>::empty());
        assert(word == seq![word.last()]);
        assert(words(word) == seq![word]);
    } else {
        assert forall|i: int| 0 <= i < init.len() implies !is_white_space(#[trigger] init[i]) by {
            assert(init[i] == word[i]);
        }
        law_word_is_one_word(init);
        assert(!is_white_space(init[init.len() - 1]));
        assert(init.push(word.last()) == word);
        assert(words(word) == seq![word]);
    }
}

/// No text, no words.
pub proof fn law_no_words_in_no_text()
    ensures
        words(Seq::<char>::empty()) == Seq::<Seq<char>>::empty(),
{
}

/// The words that are handed out are those of the text, in order.
pub proof fn law_split_words(text: &str, list: Vec<String>)
    requires
        call_ensures(split_words, (text,), list),
    ensures
        list@.len() == words(text@).len(),
        forall|i: int| 0 <= i < list@.len() ==> (#[trigger] list@[i])@ == words(text@)[i],
{
    assert(texts(list@).len() == list@.len());
    assert forall|i: int| 0 <= i < list@.len() implies (#[trigger] list@[i])@ == words(
        text@,
    )[i] by {
        assert(texts(list@)[i] == list@[i]@);
    }
}

/// Of a text in two parts with white space between them the words are those of
/// the one part, and then those of the other.
pub proof fn law_words_of_two_parts(
    text: &str,
    one: &str,
    space: char,
    other: &str,
    all: Vec<String>,
    first: Vec<String>,
    second: Vec<String>,
)
    requires
        is_white_space(space),
        text@ == one@.push(space) + other@,
        call_ensures(split_words, (text,), all),
        call_ensures(split_words, (one,), first),
        call_ensures(split_words, (other,), second),
    ensures
        all@.len() == first@.len() + second@.len(),
        forall|i: int| 0 <= i < first@.len() ==> (#[trigger] all@[i])@ == first@[i]@,
        forall|i: int|
            first@.len() <= i < all@.len() ==> (#[trigger] all@[i])@ == second@[i
                - first@.len()]@,
{
    law_split_words(text, all);
    law_split_words(one, first);
    law_split_words(other, second);
    law_white_space_separates_words(one@, space, other@);
}

/// The words, each with one space behind it.
pub open spec fn spelled_out(list: Seq<Seq<char>>) -> Seq<char>
    decreases list.len(),
{
    if list.len() == 0 {
        Seq::empty()
    } else {
        (spelled_out(list.drop_last()) + list.last()).push(' ')
    }
}

/// The text after an addition under the rolling window: nothing added leaves it
/// as it is; up to 120 words everything stays; with more, the last 80 words
/// are left, each with one space behind it.
pub open spec fn rolled(before: Seq<char>, added: Seq<char>, after: Seq<char>) -> bool {
    let all = words(before + added);
    &&& added.len() == 0 ==> after == before
    &&& added.len() > 0 && all.len() <= 120 ==> after == before + added
    &&& added.len() > 0 && all.len() > 120 ==> {
        &&& after == spelled_out(all.skip(all.len() - 80))
        &&& words(after) == all.skip(all.len() - 80)
    }
}

proof fn lemma_spaced_is_spelled_out(list: Seq<Seq<char>>)
    requires
        list.len() > 0,
    ensures
        spaced(list).push(' ') == spelled_out(list),
    decreases list.len(),
{
    if list.len() == 1 {
        assert(list.drop_last() == Seq::<Seq<char>>::empty());
        assert(spelled_out(list.drop_last()) == Seq::<char>::empty());
        assert(spaced(list).push(' ') == spelled_out(list));
    } else {
        lemma_spaced_is_spelled_out(list.drop_last());
        assert(spaced(list).push(' ') == spelled_out(list));
    }
}

/// What an addition makes of a text is what the rolling window leaves.
pub proof fn law_extended_text_is_rolled(before: Seq<char>, added: Seq<char>)
    ensures
        rolled(before, added, extended(before, added)),
{
    let text = before + added;
    let all = words(text);
    law_window_keeps_last_words(text);
    if all.len() > 120 {
        lemma_spaced_is_spelled_out(all.skip(all.len() - 80));
    }
}

/// A text that is added to rolls.
pub proof fn law_extend_window(text: &mut String, added: &str)
    requires
        call_ensures(extend_window, (text, added), ()),
    ensures
        rolled(old(text)@, added@, final(text)@),
{
    law_extended_text_is_rolled(old(text)@, added@);
}

} // verus!
