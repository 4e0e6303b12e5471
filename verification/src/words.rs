//! Splitting of command text into words at white space.

use crate::string_map::texts;
use vstd::prelude::*;

verus! {

/// Whether `c` is white space: a character with the Unicode property
/// `White_Space`.
pub open spec fn is_white_space(c: char) -> bool {
    ||| '\u{9}' <= c <= '\u{d}'
    ||| c == ' '
    ||| c == '\u{85}'
    ||| c == '\u{a0}'
    ||| c == '\u{1680}'
    ||| '\u{2000}' <= c <= '\u{200a}'
    ||| c == '\u{2028}'
    ||| c == '\u{2029}'
    ||| c == '\u{202f}'
    ||| c == '\u{205f}'
    ||| c == '\u{3000}'
}

/// The words of `text`: its longest runs of characters that are not white
/// space, in their order. Text of white space alone has no words.
pub open spec fn words_of(text: Seq<char>) -> Seq<Seq<char>>
    decreases text.len(),
{
    if text.len() == 0 {
        Seq::empty()
    } else {
        let before = words_of(text.drop_last());
        if is_white_space(text.last()) {
            before
        } else if text.len() >= 2 && !is_white_space(text[text.len() - 2]) && before.len() > 0 {
            before.drop_last().push(before.last().push(text.last()))
        } else {
            before.push(seq![text.last()])
        }
    }
}

/// Whether `word` is a word: not empty, and without white space.
pub open spec fn is_word(word: Seq<char>) -> bool {
    &&& word.len() > 0
    &&& forall|i: int| 0 <= i < word.len() ==> !is_white_space(#[trigger] word[i])
}

/// Whether `c` is white space.
pub fn is_whitespace(c: char) -> (space: bool)
    ensures
        space == is_white_space(c),
{
    ('\u{9}' <= c && c <= '\u{d}') || c == ' ' || c == '\u{85}' || c == '\u{a0}' || c
        == '\u{1680}' || ('\u{2000}' <= c && c <= '\u{200a}') || c == '\u{2028}' || c
        == '\u{2029}' || c == '\u{202f}' || c == '\u{205f}' || c == '\u{3000}'
}

/// Splits `text` into its words.
pub fn split_whitespace(text: &str) -> (words: Vec<String>)
    ensures
        texts(words@) == words_of(text@),
{
    let mut words: Vec<String> = Vec::new();
    let mut current = String::new();
    for c in it: text.chars()
        invariant
            it.seq() == text@,
            current@.len() > 0 <==> it.index() > 0 && !is_white_space(text@[it.index() - 1]),
            words_of(text@.take(it.index() as int)) == (if current@.len() > 0 {
                texts(words@).push(current@)
            } else {
                texts(words@)
            }),
    {
        let ghost i = it.index() as int;
        let ghost done = texts(words@);
        let ghost word = current@;
        assert(text@.take(i + 1).drop_last() =~= text@.take(i));
        assert(text@.take(i + 1).last() == c);
        if is_whitespace(c) {
            if !current.as_str().is_empty() {
                words.push(current);
                current = String::new();
                assert(texts(words@) =~= done.push(word));
            }
        } else {
            current.push(c);
            proof {
                if word.len() > 0 {
                    assert(text@.take(i + 1)[i - 1] == text@[i - 1]);
                    assert(done.push(word).drop_last().push(done.push(word).last().push(c))
                        =~= done.push(current@));
                } else {
                    assert(current@ =~= seq![c]);
                }
            }
        }
    }
    assert(text@.take(text@.len() as int) =~= text@);
    if !current.as_str().is_empty() {
        let ghost done = texts(words@);
        let ghost word = current@;
        words.push(current);
        assert(texts(words@) =~= done.push(word));
    }
    words
}

/// White space after a text adds no word.
pub proof fn lemma_words_then_space(text: Seq<char>, c: char)
    requires
        is_white_space(c),
    ensures
        words_of(text.push(c)) == words_of(text),
{
    assert(text.push(c).drop_last() =~= text);
}

/// A word after a text that is empty or ends in white space is one more
/// word.
pub proof fn lemma_words_then_word(text: Seq<char>, word: Seq<char>)
    requires
        is_word(word),
        text.len() == 0 || is_white_space(text.last()),
    ensures
        words_of(text + word) == words_of(text).push(word),
    decreases word.len(),
{
    let whole = text + word;
    assert(whole.drop_last() =~= text + word.drop_last());
    assert(whole.last() == word.last());
    if word.len() == 1 {
        assert(text + word.drop_last() =~= text);
        assert(word =~= seq![word.last()]);
        if text.len() > 0 {
            assert(whole[whole.len() - 2] == text.last());
        }
    } else {
        let shorter = word.drop_last();
        assert(is_word(shorter)) by {
            assert forall|i: int| 0 <= i < shorter.len() implies !is_white_space(
                #[trigger] shorter[i],
            ) by {
                assert(shorter[i] == word[i]);
            }
        }
        lemma_words_then_word(text, shorter);
        let before = words_of(text + shorter);
        assert(whole[whole.len() - 2] == word[word.len() - 2]);
        assert(before.drop_last() =~= words_of(text));
        assert(shorter.push(word.last()) =~= word);
    }
}

/// The words of three words with one space between them are the three.
pub proof fn lemma_words_of_three(first: Seq<char>, second: Seq<char>, third: Seq<char>)
    requires
        is_word(first),
        is_word(second),
        is_word(third),
    ensures
        words_of(first + seq![' '] + second + seq![' '] + third) == seq![first, second, third],
{
    let empty = Seq::<char>::empty();
    lemma_words_then_word(empty, first);
    assert(empty + first =~= first);
    lemma_words_then_space(first, ' ');
    assert(first.push(' ') =~= first + seq![' ']);
    lemma_words_then_word(first + seq![' '], second);
    lemma_words_then_space(first + seq![' '] + second, ' ');
    assert((first + seq![' '] + second).push(' ') =~= first + seq![' '] + second + seq![' ']);
    lemma_words_then_word(first + seq![' '] + second + seq![' '], third);
    assert(Seq::<Seq<char>>::empty().push(first).push(second).push(third) =~= seq![
        first,
        second,
        third,
    ]);
}

/// The words of two words with one space between them are the two.
pub proof fn lemma_words_of_two(first: Seq<char>, second: Seq<char>)
    requires
        is_word(first),
        is_word(second),
    ensures
        words_of(first + seq![' '] + second) == seq![first, second],
{
    let empty = Seq::<char>::empty();
    lemma_words_then_word(empty, first);
    assert(empty + first =~= first);
    lemma_words_then_space(first, ' ');
    assert(first.push(' ') =~= first + seq![' ']);
    lemma_words_then_word(first + seq![' '], second);
    assert(Seq::<Seq<char>>::empty().push(first).push(second) =~= seq![first, second]);
}

} // verus!
