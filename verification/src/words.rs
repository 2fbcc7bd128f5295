//! Lines and words: splitting a line into its words, joining words with a
//! separator, and splitting a text at a separator.

use vstd::prelude::*;
use vstd::std_specs::iter::IteratorSpec;
use crate::text::{is_space, is_whitespace, push_char};

verus! {

/// The characters of each string, in order.
pub open spec fn words_of(strings: Seq<String>) -> Seq<Seq<char>> {
    strings.map_values(|s: String| s@)
}

/// Length of the longest prefix of `s` that holds no separator.
pub open spec fn word_len(s: Seq<char>) -> nat
    decreases s.len(),
{
    if s.len() == 0 || is_space(s[0]) {
        0
    } else {
        1 + word_len(s.drop_first())
    }
}

/// The words of a line: its maximal runs of characters that are not
/// separators, from left to right.
pub open spec fn tokens(s: Seq<char>) -> Seq<Seq<char>>
    decreases s.len(),
{
    if s.len() == 0 {
        Seq::empty()
    } else if is_space(s[0]) {
        tokens(s.drop_first())
    } else {
        proof {
            lemma_word_len_bound(s);
        }
        let n = word_len(s) as int;
        seq![s.subrange(0, n)] + tokens(s.subrange(n, s.len() as int))
    }
}

/// Whether no character of `s` is a separator.
pub open spec fn is_word(s: Seq<char>) -> bool {
    forall|i: int| 0 <= i < s.len() ==> !is_space(#[trigger] s[i])
}

/// The first run of a line lies within the line and holds no separator;
/// it ends at a separator or at the end of the line, and it is not empty
/// where the line starts with a character that is no separator.
pub proof fn lemma_word_len_bound(s: Seq<char>)
    ensures
        word_len(s) <= s.len(),
        is_word(s.subrange(0, word_len(s) as int)),
        word_len(s) < s.len() ==> is_space(s[word_len(s) as int]),
        s.len() > 0 && !is_space(s[0]) ==> word_len(s) > 0,
    decreases s.len(),
{
    if s.len() == 0 || is_space(s[0]) {
    } else {
        let t = s.drop_first();
        lemma_word_len_bound(t);
        let n = word_len(s) as int;
        assert forall|i: int| 0 <= i < n implies !is_space(#[trigger] s.subrange(0, n)[i]) by {
            if i > 0 {
                assert(s.subrange(0, n)[i] == t.subrange(0, n - 1)[i - 1]);
            }
        }
    }
}

/// Where a word is followed by the end of the line or by a separator, the
/// first run of the line is that word.
pub proof fn lemma_word_len_of_prefix(w: Seq<char>, rest: Seq<char>)
    requires
        is_word(w),
        rest.len() == 0 || is_space(rest[0]),
    ensures
        word_len(w + rest) == w.len(),
    decreases w.len(),
{
    if w.len() == 0 {
        assert(w + rest =~= rest);
    } else {
        assert((w + rest)[0] == w[0]);
        assert((w + rest).drop_first() =~= w.drop_first() + rest);
        lemma_word_len_of_prefix(w.drop_first(), rest);
    }
}

/// The words of a line that starts with a complete word: that word, then
/// the words of what follows it.
pub proof fn lemma_tokens_after_word(w: Seq<char>, rest: Seq<char>)
    requires
        w.len() > 0,
        is_word(w),
        rest.len() == 0 || is_space(rest[0]),
    ensures
        tokens(w + rest) == seq![w] + tokens(rest),
{
    lemma_word_len_of_prefix(w, rest);
    let s = w + rest;
    assert(s[0] == w[0]);
    assert(s.subrange(0, w.len() as int) =~= w);
    assert(s.subrange(w.len() as int, s.len() as int) =~= rest);
}

/// A line holds no word exactly when each of its characters is a separator.
pub proof fn lemma_no_tokens_iff_blank(s: Seq<char>)
    ensures
        tokens(s).len() == 0 <==> forall|i: int| 0 <= i < s.len() ==> is_space(#[trigger] s[i]),
    decreases s.len(),
{
    if s.len() > 0 && is_space(s[0]) {
        let rest = s.drop_first();
        lemma_no_tokens_iff_blank(rest);
        if tokens(s).len() == 0 {
            assert forall|i: int| 0 <= i < s.len() implies is_space(#[trigger] s[i]) by {
                if i > 0 {
                    assert(s[i] == rest[i - 1]);
                }
            }
        } else {
            let i = choose|i: int| 0 <= i < rest.len() && !is_space(#[trigger] rest[i]);
            assert(s[i + 1] == rest[i]);
        }
    }
}

/// Every word of a line is non-empty and free of separators.
pub proof fn lemma_tokens_are_words(s: Seq<char>)
    ensures
        forall|i: int|
            0 <= i < tokens(s).len() ==> (#[trigger] tokens(s)[i]).len() > 0 && is_word(
                tokens(s)[i],
            ),
    decreases s.len(),
{
    if s.len() == 0 {
        assert(tokens(s).len() == 0);
    } else if is_space(s[0]) {
        lemma_tokens_are_words(s.drop_first());
        assert(tokens(s) == tokens(s.drop_first()));
    } else {
        lemma_word_len_bound(s);
        let n = word_len(s) as int;
        let rest = tokens(s.subrange(n, s.len() as int));
        lemma_tokens_are_words(s.subrange(n, s.len() as int));
        assert forall|i: int| 0 <= i < tokens(s).len() implies (#[trigger] tokens(s)[i]).len() > 0
            && is_word(tokens(s)[i]) by {
            if i > 0 {
                assert(tokens(s)[i] == rest[i - 1]);
            }
        }
    }
}

/// Splits a line into its words. Leading and trailing separators are
/// dropped, and a run of separators counts as one.
pub fn tokenize(line: &str) -> (words: Vec<String>)
    ensures
        words_of(words@) == tokens(line@),
{
    broadcast use vstd::string::axiom_spec_iter, vstd::string::next_postcondition;

    let mut words: Vec<String> = Vec::new();
    let mut word = String::new();
    let mut chars = line.chars();
    assert(words_of(words@) =~= Seq::empty());
    assert(word@ + chars.remaining() =~= line@);
    loop
        invariant
            chars.obeys_prophetic_iter_laws(),
            chars.decrease() is Some,
            is_word(word@),
            tokens(line@) == words_of(words@) + tokens(word@ + chars.remaining()),
        ensures
            chars.remaining().len() == 0,
        decreases chars.decrease()->0,
    {
        let ghost before = chars.remaining();
        let ghost done = words_of(words@);
        let ghost pending = word@;
        match chars.next() {
            None => {
                break ;
            },
            Some(c) => {
                let ghost after = chars.remaining();
                if !is_whitespace(c) {
                    push_char(&mut word, c);
                    assert(word@ + after =~= pending + before);
                } else if word.as_str().is_empty() {
                    assert(pending + before =~= before);
                    assert(word@ + after =~= after);
                } else {
                    words.push(word);
                    word = String::new();
                    proof {
                        lemma_tokens_after_word(pending, before);
                        assert(words_of(words@) =~= done + seq![pending]);
                        assert(word@ + after =~= after);
                    }
                }
            },
        }
    }
    let ghost done = words_of(words@);
    let ghost pending = word@;
    if !word.as_str().is_empty() {
        words.push(word);
        proof {
            lemma_tokens_after_word(pending, chars.remaining());
            assert(words_of(words@) =~= done + seq![pending]);
        }
    } else {
        assert(pending + chars.remaining() =~= Seq::empty());
    }
    words
}

/// The words joined into one line, with `separator` between neighbours
/// and none at either end.
pub open spec fn joined(words: Seq<Seq<char>>, separator: char) -> Seq<char>
    decreases words.len(),
{
    if words.len() == 0 {
        Seq::empty()
    } else if words.len() == 1 {
        words[0]
    } else {
        joined(words.drop_last(), separator) + seq![separator] + words.last()
    }
}

/// Joins the words with single spaces.
pub fn join_words(words: &[String]) -> (line: String)
    ensures
        line@ == joined(words_of(words@), ' '),
{
    let mut line = String::new();
    let mut i: usize = 0;
    while i < words.len()
        invariant
            i <= words.len(),
            line@ == joined(words_of(words@).take(i as int), ' '),
        decreases words.len() - i,
    {
        let ghost sofar = words_of(words@).take(i as int);
        let ghost next = words_of(words@).take(i + 1);
        proof {
            reveal_strlit(" ");
            assert(next.drop_last() =~= sofar);
            assert(next.last() == words@[i as int]@);
        }
        if i > 0 {
            line.append(" ");
            assert(line@ =~= joined(sofar, ' ') + seq![' ']);
        } else {
            assert(line@ + words@[i as int]@ =~= words@[i as int]@);
        }
        line.append(words[i].as_str());
        i += 1;
    }
    assert(words_of(words@).take(i as int) =~= words_of(words@));
    line
}

/// The pieces of `s` that lie between its occurrences of `separator`. Empty
/// pieces are kept, so that a text with n separators has n + 1 pieces.
pub open spec fn pieces(s: Seq<char>, separator: char) -> Seq<Seq<char>>
    decreases s.len(),
{
    if s.len() == 0 {
        seq![Seq::empty()]
    } else {
        let before = pieces(s.drop_last(), separator);
        if s.last() == separator {
            before.push(Seq::empty())
        } else {
            before.drop_last().push(before.last().push(s.last()))
        }
    }
}

/// A text always has at least one piece.
pub proof fn lemma_pieces_nonempty(s: Seq<char>, separator: char)
    ensures
        pieces(s, separator).len() >= 1,
    decreases s.len(),
{
    if s.len() > 0 {
        lemma_pieces_nonempty(s.drop_last(), separator);
    }
}

/// No piece holds the separator, and the pieces joined by the separator
/// give the text back: splitting loses nothing.
pub proof fn lemma_pieces_rejoin(s: Seq<char>, separator: char)
    ensures
        joined(pieces(s, separator), separator) == s,
        forall|i: int|
            0 <= i < pieces(s, separator).len() ==> !(#[trigger] pieces(s, separator)[i]).contains(
                separator,
            ),
    decreases s.len(),
{
    if s.len() == 0 {
        assert(pieces(s, separator)[0] =~= s);
    } else {
        let front = s.drop_last();
        let before = pieces(front, separator);
        let after = pieces(s, separator);
        lemma_pieces_rejoin(front, separator);
        lemma_pieces_nonempty(front, separator);
        assert(s =~= front.push(s.last()));
        if s.last() == separator {
            assert(after.drop_last() =~= before);
            assert(joined(after, separator) =~= front.push(separator));
        } else {
            let grown = before.last().push(s.last());
            assert(after.last() == grown);
            assert(after.drop_last() =~= before.drop_last());
            if before.len() == 1 {
                assert(joined(after, separator) =~= s);
            } else {
                assert(joined(after, separator) =~= joined(before, separator).push(s.last()));
            }
            assert forall|i: int| 0 <= i < after.len() implies !(#[trigger] after[i]).contains(
                separator,
            ) by {
                if i == after.len() - 1 {
                    if grown.contains(separator) {
                        let k = choose|k: int| 0 <= k < grown.len() && grown[k] == separator;
                        assert(before.last()[k] == separator);
                    }
                } else {
                    assert(after[i] == before[i]);
                }
            }
        }
    }
}

/// Splits a text at every occurrence of `separator`.
pub fn split(text: &str, separator: char) -> (parts: Vec<String>)
    ensures
        words_of(parts@) == pieces(text@, separator),
{
    broadcast use vstd::string::axiom_spec_iter, vstd::string::next_postcondition;

    let mut parts: Vec<String> = Vec::new();
    let mut part = String::new();
    let mut chars = text.chars();
    let ghost mut seen: Seq<char> = Seq::empty();
    assert(words_of(parts@).push(part@) =~= pieces(seen, separator));
    assert(seen + chars.remaining() =~= text@);
    loop
        invariant
            chars.obeys_prophetic_iter_laws(),
            chars.decrease() is Some,
            seen + chars.remaining() == text@,
            pieces(seen, separator) == words_of(parts@).push(part@),
        ensures
            chars.remaining().len() == 0,
        decreases chars.decrease()->0,
    {
        let ghost done = words_of(parts@);
        let ghost pending = part@;
        let ghost before = chars.remaining();
        match chars.next() {
            None => {
                break ;
            },
            Some(c) => {
                proof {
                    assert(seen.push(c).drop_last() =~= seen);
                    assert(seen.push(c) + chars.remaining() =~= seen + before);
                    seen = seen.push(c);
                    assert(done.push(pending).drop_last() =~= done);
                }
                if c == separator {
                    parts.push(part);
                    part = String::new();
                    assert(words_of(parts@) =~= done.push(pending));
                } else {
                    push_char(&mut part, c);
                }
            },
        }
    }
    assert(seen =~= text@);
    let ghost done = words_of(parts@);
    parts.push(part);
    assert(words_of(parts@) =~= done.push(parts@.last()@));
    parts
}

/// Copies a list of words.
pub fn copy_words(words: &[String]) -> (copy: Vec<String>)
    ensures
        words_of(copy@) == words_of(words@),
{
    let mut copy: Vec<String> = Vec::new();
    let mut i: usize = 0;
    while i < words.len()
        invariant
            i <= words.len(),
            copy@.len() == i,
            forall|j: int| 0 <= j < i ==> copy@[j]@ == words@[j]@,
        decreases words.len() - i,
    {
        copy.push(words[i].clone());
        i += 1;
    }
    assert(words_of(copy@) =~= words_of(words@));
    copy
}

} // verus!
