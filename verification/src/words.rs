//! The rolling window: a text that only grows is cut back to its last words
//! once it holds too many.

use vstd::prelude::*;

use crate::text::{chars_of, is_white_space, trimmed_end};

verus! {

/// A text is cut when it holds more words than this.
pub const MAX_WORDS: usize = 120;

/// The number of words that a cut leaves.
pub const KEPT_WORDS: usize = 80;

/// The words of a text: the longest runs of characters without white space,
/// in order.
pub open spec fn words(text: Seq<char>) -> Seq<Seq<char>>
    decreases text.len(),
{
    if text.len() == 0 {
        Seq::empty()
    } else {
        let before = text.drop_last();
        if is_white_space(text.last()) {
            words(before)
        } else if ends_open(before) {
            words(before).drop_last().push(words(before).last().push(text.last()))
        } else {
            words(before).push(seq![text.last()])
        }
    }
}

/// The text ends within a word: a character that follows would belong to it.
pub open spec fn ends_open(text: Seq<char>) -> bool {
    text.len() > 0 && !is_white_space(text.last())
}

/// One or more characters, none of them white space.
pub open spec fn is_word(text: Seq<char>) -> bool {
    &&& text.len() > 0
    &&& forall|i: int| 0 <= i < text.len() ==> !is_white_space(#[trigger] text[i])
}

/// The given words with one space between each and the next.
pub open spec fn spaced(list: Seq<Seq<char>>) -> Seq<char>
    decreases list.len(),
{
    if list.len() == 0 {
        Seq::empty()
    } else if list.len() == 1 {
        list[0]
    } else {
        spaced(list.drop_last()).push(' ') + list.last()
    }
}

/// The text as the rolling window leaves it: with more than `MAX_WORDS` words
/// only the last `KEPT_WORDS` of them, each followed by one space; otherwise as
/// it is.
pub open spec fn windowed(text: Seq<char>) -> Seq<char> {
    let all = words(text);
    if all.len() > MAX_WORDS {
        spaced(all.skip(all.len() - KEPT_WORDS)).push(' ')
    } else {
        text
    }
}

/// A text that was added to: `added` at the end, then the rolling window.
/// Adding nothing leaves the text as it is.
pub open spec fn extended(text: Seq<char>, added: Seq<char>) -> Seq<char> {
    if added.len() == 0 {
        text
    } else {
        windowed(text + added)
    }
}

/// The views of a list of texts.
pub open spec fn texts(list: Seq<String>) -> Seq<Seq<char>> {
    list.map_values(|text: String| text@)
}

/// The words of a text.
pub fn split_words(text: &str) -> (list: Vec<String>)
    ensures
        texts(list@) == words(text@),
{
    let chars = chars_of(text);
    let mut list: Vec<String> = Vec::new();
    let mut open = String::new();
    let mut at: usize = 0;
    assert(texts(list@) == words(chars@.take(0)));
    while at < chars.len()
        invariant
            at <= chars.len(),
            open@.len() > 0 <==> ends_open(chars@.take(at as int)),
            open@.len() > 0 ==> texts(list@).push(open@) == words(chars@.take(at as int)),
            open@.len() == 0 ==> texts(list@) == words(chars@.take(at as int)),
        decreases chars.len() - at,
    {
        let ghost head = chars@.take(at + 1);
        let ghost closed = texts(list@);
        assert(head.drop_last() == chars@.take(at as int));
        assert(head.last() == chars@[at as int]);
        assert(closed.push(open@).drop_last() == closed);
        if chars[at].is_whitespace() {
            if !open.as_str().is_empty() {
                list.push(open);
                open = String::new();
                assert(texts(list@) == closed.push(list@.last()@));
            }
        } else {
            open.push(chars[at]);
            assert(open@.drop_last().len() == 0 ==> open@ == seq![chars@[at as int]]);
            assert(texts(list@).push(open@) == words(head));
        }
        at += 1;
    }
    assert(chars@.take(chars@.len() as int) == text@);
    if !open.as_str().is_empty() {
        let ghost closed = texts(list@);
        list.push(open);
        assert(texts(list@) == closed.push(open@));
    }
    list
}

/// The words from index `from` on, each followed by one space.
fn join_from(list: &Vec<String>, from: usize) -> (text: String)
    requires
        from < list@.len(),
    ensures
        text@ == spaced(texts(list@).skip(from as int)).push(' '),
{
    let ghost kept = texts(list@).skip(from as int);
    assert(from < list.len());
    let mut text = list[from].clone();
    text.push(' ');
    let mut at: usize = from + 1;
    assert(kept.take(1) == seq![list@[from as int]@]);
    while at < list.len()
        invariant
            from < at <= list.len(),
            kept == texts(list@).skip(from as int),
            text@ == spaced(kept.take(at - from)).push(' '),
        decreases list.len() - at,
    {
        let ghost next = kept.take(at + 1 - from);
        assert(next.drop_last() == kept.take(at - from));
        assert(next.last() == list@[at as int]@);
        text.append(list[at].as_str());
        text.push(' ');
        assert(text@ == spaced(next).push(' '));
        at += 1;
    }
    assert(kept.take(list.len() - from) == kept);
    text
}

/// Adds text at the end of a text under the rolling window.
pub fn extend_window(text: &mut String, added: &str)
    ensures
        final(text)@ == extended(old(text)@, added@),
{
    if added.is_empty() {
        return ;
    }
    text.append(added);
    let list = split_words(text.as_str());
    assert(texts(list@).len() == list@.len());
    if list.len() > MAX_WORDS {
        let joined = join_from(&list, list.len() - KEPT_WORDS);
        *text = joined;
    }
}

/// White space at the end of a text adds no word.
proof fn lemma_words_then_space(text: Seq<char>)
    ensures
        words(text.push(' ')) == words(text),
{
    assert(text.push(' ').drop_last() == text);
}

/// Every word of a text is one: it has characters, and none is white space.
pub proof fn law_words_are_words(text: Seq<char>)
    ensures
        forall|i: int| 0 <= i < words(text).len() ==> is_word(#[trigger] words(text)[i]),
        ends_open(text) ==> words(text).len() > 0,
    decreases text.len(),
{
    if text.len() > 0 {
        law_words_are_words(text.drop_last());
        let before = words(text.drop_last());
        if !is_white_space(text.last()) && ends_open(text.drop_last()) {
            let grown = before.last().push(text.last());
            assert(is_word(before[before.len() - 1]));
            assert(is_word(grown));
        }
    }
}

/// The given texts one after another, with nothing between them.
pub open spec fn run_together(list: Seq<Seq<char>>) -> Seq<char>
    decreases list.len(),
{
    if list.len() == 0 {
        Seq::empty()
    } else {
        run_together(list.drop_last()) + list.last()
    }
}

/// Splitting a text into words loses its white space and nothing else.
pub proof fn law_words_lose_only_white_space(text: Seq<char>)
    ensures
        run_together(words(text)) == text.filter(|c: char| !is_white_space(c)),
    decreases text.len(),
{
    reveal(Seq::filter);
    if text.len() > 0 {
        let before = text.drop_last();
        law_words_lose_only_white_space(before);
        law_words_are_words(before);
        let list = words(before);
        if !is_white_space(text.last()) {
            if ends_open(before) {
                let grown = list.last().push(text.last());
                assert(list.drop_last().push(grown).drop_last() == list.drop_last());
                assert(run_together(list.drop_last()) + grown == (run_together(list.drop_last())
                    + list.last()).push(text.last()));
            } else {
                let word = seq![text.last()];
                assert(list.push(word).drop_last() == list);
                assert(run_together(list) + word == run_together(list).push(text.last()));
            }
        }
    }
}

/// A word after a text that does not end within one is one more word.
proof fn lemma_words_then_word(text: Seq<char>, word: Seq<char>)
    requires
        !ends_open(text),
        is_word(word),
    ensures
        words(text + word) == words(text).push(word),
    decreases word.len(),
{
    let whole = text + word;
    assert(whole.last() == word.last());
    assert(!is_white_space(word[word.len() - 1]));
    assert(whole.drop_last() == text + word.drop_last());
    if word.len() == 1 {
        assert(text + word.drop_last() == text);
        assert(word == seq![word.last()]);
    } else {
        let start = word.drop_last();
        assert forall|i: int| 0 <= i < start.len() implies !is_white_space(#[trigger] start[i]) by {
            assert(start[i] == word[i]);
        }
        lemma_words_then_word(text, start);
        assert((text + start).last() == start.last());
        assert(!is_white_space(start[start.len() - 1]));
        assert(words(text).push(start).drop_last() == words(text));
        assert(start.push(word.last()) == word);
    }
}

/// Splitting gives back what was joined: the words of a spaced list of words
/// are that list.
pub proof fn law_split_after_join(list: Seq<Seq<char>>)
    requires
        forall|i: int| 0 <= i < list.len() ==> is_word(#[trigger] list[i]),
    ensures
        words(spaced(list)) == list,
        words(spaced(list).push(' ')) == list,
    decreases list.len(),
{
    lemma_words_then_space(spaced(list));
    if list.len() == 0 {
    } else if list.len() == 1 {
        assert(is_word(list[0]));
        lemma_words_then_word(Seq::empty(), list[0]);
        assert(Seq::<char>::empty() + list[0] == list[0]);
        assert(list == seq![list[0]]);
    } else {
        let init = list.drop_last();
        assert forall|i: int| 0 <= i < init.len() implies is_word(#[trigger] init[i]) by {
            assert(init[i] == list[i]);
        }
        law_split_after_join(init);
        assert(is_word(list[list.len() - 1]));
        lemma_words_then_word(spaced(init).push(' '), list.last());
        assert(init.push(list.last()) == list);
    }
}

/// A cut leaves exactly the last `KEPT_WORDS` words; without a cut all words
/// stay. Either way the text then holds at most `MAX_WORDS` words.
pub proof fn law_window_keeps_last_words(text: Seq<char>)
    ensures
        words(windowed(text)) == (if words(text).len() > MAX_WORDS {
            words(text).skip(words(text).len() - KEPT_WORDS)
        } else {
            words(text)
        }),
        words(windowed(text)).len() <= MAX_WORDS,
{
    let all = words(text);
    if all.len() > MAX_WORDS {
        let kept = all.skip(all.len() - KEPT_WORDS);
        law_words_are_words(text);
        assert forall|i: int| 0 <= i < kept.len() implies is_word(#[trigger] kept[i]) by {
            assert(kept[i] == all[i + all.len() - KEPT_WORDS]);
        }
        law_split_after_join(kept);
    }
}

/// A text that the window has cut is not cut again.
pub proof fn law_window_is_stable(text: Seq<char>)
    ensures
        windowed(windowed(text)) == windowed(text),
{
    law_window_keeps_last_words(text);
}

/// The window holds whatever is added: a text of at most `MAX_WORDS` words
/// still has at most that many, and its words are the last ones of the text
/// with the addition.
pub proof fn law_extension_stays_in_window(text: Seq<char>, added: Seq<char>)
    requires
        words(text).len() <= MAX_WORDS,
    ensures
        words(extended(text, added)).len() <= MAX_WORDS,
        words(extended(text, added)).is_suffix_of(words(text + added)),
{
    law_window_keeps_last_words(text + added);
    if added.len() == 0 {
        assert(text + added == text);
    }
}

/// Trimming the end of a text takes no word away.
pub proof fn law_trimming_keeps_words(text: Seq<char>)
    ensures
        words(trimmed_end(text)) == words(text),
    decreases text.len(),
{
    if text.len() > 0 && is_white_space(text.last()) {
        law_trimming_keeps_words(text.drop_last());
    }
}

/// A text that began empty and had the given additions made to it, one after
/// another.
pub open spec fn grown(additions: Seq<Seq<char>>) -> Seq<char>
    decreases additions.len(),
{
    if additions.len() == 0 {
        Seq::empty()
    } else {
        extended(grown(additions.drop_last()), additions.last())
    }
}

/// A longer text has no fewer words.
proof fn lemma_words_do_not_vanish(text: Seq<char>, added: Seq<char>)
    ensures
        words(text).len() <= words(text + added).len(),
    decreases added.len(),
{
    if added.len() == 0 {
        assert(text + added == text);
    } else {
        lemma_words_do_not_vanish(text, added.drop_last());
        assert((text + added).drop_last() == text + added.drop_last());
        law_words_are_words(text + added.drop_last());
    }
}

/// However long the text grows, the window holds at most `MAX_WORDS` words of
/// it.
pub proof fn law_grown_text_stays_in_window(additions: Seq<Seq<char>>)
    ensures
        words(grown(additions)).len() <= MAX_WORDS,
    decreases additions.len(),
{
    if additions.len() > 0 {
        law_grown_text_stays_in_window(additions.drop_last());
        law_extension_stays_in_window(grown(additions.drop_last()), additions.last());
    }
}

/// As long as all additions together hold at most `MAX_WORDS` words, nothing
/// is lost: the text is the additions one after another.
pub proof fn law_short_text_is_complete(additions: Seq<Seq<char>>)
    requires
        words(run_together(additions)).len() <= MAX_WORDS,
    ensures
        grown(additions) == run_together(additions),
    decreases additions.len(),
{
    if additions.len() > 0 {
        let before = run_together(additions.drop_last());
        lemma_words_do_not_vanish(before, additions.last());
        law_short_text_is_complete(additions.drop_last());
        assert(additions.last().len() == 0 ==> before + additions.last() == before);
    }
}

} // verus!
