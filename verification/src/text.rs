//! Text as sequences of characters: trimming, splitting, joining, cutting.
//!
//! A text is modelled by its view, a `Seq<char>`. The spec functions say what
//! each operation yields on such sequences; the executable functions of the
//! same subject compute it on `&str` and character slices.

use vstd::prelude::*;
use vstd::string::*;
use vstd::utf8::*;

verus! {

/// `String::push` appends one character and keeps what was there before.
pub assume_specification[ String::push ](text: &mut String, ch: char)
    ensures
        final(text)@ == old(text)@.push(ch),
;

/// The Unicode `White_Space` property.
pub open spec fn is_white(ch: char) -> bool {
    ||| '\u{9}' <= ch <= '\u{d}'
    ||| ch == ' '
    ||| ch == '\u{85}'
    ||| ch == '\u{a0}'
    ||| ch == '\u{1680}'
    ||| '\u{2000}' <= ch <= '\u{200a}'
    ||| ch == '\u{2028}'
    ||| ch == '\u{2029}'
    ||| ch == '\u{202f}'
    ||| ch == '\u{205f}'
    ||| ch == '\u{3000}'
}

/// `char::is_whitespace` tells whether a character has the Unicode
/// `White_Space` property.
pub assume_specification[ char::is_whitespace ](ch: char) -> (white: bool)
    ensures
        white == is_white(ch),
;

/// The views of a list of texts.
pub open spec fn views(texts: Seq<String>) -> Seq<Seq<char>> {
    texts.map_values(|text: String| text@)
}

/// The view of a text that may be absent.
pub open spec fn optional_view(text: Option<String>) -> Option<Seq<char>> {
    match text {
        Some(text) => Some(text@),
        None => None,
    }
}

/// The view of a borrowed text that may be absent.
pub open spec fn borrowed_view(text: Option<&str>) -> Option<Seq<char>> {
    match text {
        Some(text) => Some(text@),
        None => None,
    }
}

/// Borrows a text that may be absent.
pub fn borrowed(text: &Option<String>) -> (borrowed: Option<&str>)
    ensures
        borrowed_view(borrowed) == optional_view(*text),
{
    match text {
        Some(text) => Some(text.as_str()),
        None => None,
    }
}

/// The characters of a text, in order.
pub fn chars_of(text: &str) -> (chars: Vec<char>)
    ensures
        chars@ == text@,
{
    let mut chars: Vec<char> = Vec::new();
    for ch in it: text.chars()
        invariant
            chars@ == text@.take(it.index() as int),
            it.seq() == text@,
    {
        chars.push(ch);
    }
    chars
}

/// The text made of the characters `from..to` of `chars`.
pub fn text_of(chars: &[char], from: usize, to: usize) -> (text: String)
    requires
        from <= to <= chars@.len(),
    ensures
        text@ == chars@.subrange(from as int, to as int),
{
    let mut text = String::new();
    let mut i: usize = from;
    while i < to
        invariant
            from <= i <= to <= chars@.len(),
            text@ == chars@.subrange(from as int, i as int),
        decreases to - i,
    {
        text.push(chars[i]);
        i += 1;
    }
    text
}

/// Whether two texts are the same.
pub fn same_text(left: &str, right: &str) -> (same: bool)
    ensures
        same == (left@ == right@),
{
    let left_chars = chars_of(left);
    let right_chars = chars_of(right);
    assert(left_chars@.subrange(0, left_chars@.len() as int) == left_chars@);
    left_chars.len() == right_chars.len() && matches_at(&left_chars, 0, &right_chars)
}

/// Whether `needle` stands in `chars` at position `at`.
pub fn matches_at(chars: &[char], at: usize, needle: &[char]) -> (found: bool)
    requires
        at + needle@.len() <= chars@.len(),
    ensures
        found == (chars@.subrange(at as int, at + needle@.len()) == needle@),
{
    let end: usize = chars.len();
    let mut i: usize = 0;
    while i < needle.len()
        invariant
            end == chars@.len(),
            at + needle@.len() <= end,
            i <= needle@.len(),
            chars@.subrange(at as int, at + i) == needle@.take(i as int),
        decreases needle@.len() - i,
    {
        if chars[at + i] != needle[i] {
            assert(chars@.subrange(at as int, at + needle@.len())[i as int] != needle@[i as int]);
            return false;
        }
        i += 1;
    }
    assert(needle@.take(i as int) == needle@);
    true
}

/// Whether `chars` begins with `prefix`.
pub fn has_prefix(chars: &[char], prefix: &str) -> (found: bool)
    ensures
        found == prefix@.is_prefix_of(chars@),
{
    let prefix_chars = chars_of(prefix);
    prefix_chars.len() <= chars.len() && matches_at(chars, 0, &prefix_chars)
}

/// Whether `needle` occurs in `text`.
pub open spec fn occurs_in(needle: Seq<char>, text: Seq<char>) -> bool {
    exists|at: int|
        0 <= at && at + needle.len() <= text.len() && #[trigger] text.subrange(
            at,
            at + needle.len(),
        ) == needle
}

/// Whether `needle` occurs in `chars`.
pub fn contains_text(chars: &[char], needle: &str) -> (found: bool)
    ensures
        found == occurs_in(needle@, chars@),
{
    let needle_chars = chars_of(needle);
    if needle_chars.len() > chars.len() {
        return false;
    }
    let last: usize = chars.len() - needle_chars.len();
    let mut at: usize = 0;
    loop
        invariant
            needle_chars@ == needle@,
            last + needle@.len() == chars@.len(),
            at <= last,
            forall|j: int|
                0 <= j < at ==> #[trigger] chars@.subrange(j, j + needle@.len()) != needle@,
        decreases last - at,
    {
        if matches_at(chars, at, &needle_chars) {
            return true;
        }
        if at == last {
            return false;
        }
        at += 1;
    }
}

/// `text` from its first character that is not white space on.
pub open spec fn trimmed_start(text: Seq<char>) -> Seq<char>
    decreases text.len(),
{
    if text.len() > 0 && is_white(text[0]) {
        trimmed_start(text.drop_first())
    } else {
        text
    }
}

/// `text` up to and including its last character that is not white space.
pub open spec fn trimmed_end(text: Seq<char>) -> Seq<char>
    decreases text.len(),
{
    if text.len() > 0 && is_white(text.last()) {
        trimmed_end(text.drop_last())
    } else {
        text
    }
}

/// `text` without the white space at both ends.
pub open spec fn trimmed(text: Seq<char>) -> Seq<char> {
    trimmed_end(trimmed_start(text))
}

/// Returns `text` without the white space at both ends.
pub fn trim(text: &str) -> (inner: &str)
    ensures
        inner@ == trimmed(text@),
{
    let chars = chars_of(text);
    let mut from: usize = 0;
    assert(chars@.skip(0) == chars@);
    while from < chars.len() && chars[from].is_whitespace()
        invariant
            from <= chars@.len(),
            trimmed_start(chars@.skip(from as int)) == trimmed_start(chars@),
        decreases chars@.len() - from,
    {
        assert(chars@.skip(from as int).drop_first() == chars@.skip(from + 1));
        from += 1;
    }
    let mut to: usize = chars.len();
    assert(trimmed_start(chars@) == chars@.skip(from as int));
    assert(chars@.subrange(from as int, to as int) == chars@.skip(from as int));
    while to > from && chars[to - 1].is_whitespace()
        invariant
            from <= to <= chars@.len(),
            trimmed_end(chars@.subrange(from as int, to as int)) == trimmed(chars@),
        decreases to,
    {
        assert(chars@.subrange(from as int, to as int).drop_last() == chars@.subrange(
            from as int,
            to - 1,
        ));
        to -= 1;
    }
    text.substring_char(from, to)
}

/// The maximal runs of characters that are not white space, in order.
pub open spec fn words(text: Seq<char>) -> Seq<Seq<char>>
    decreases text.len(),
{
    if text.len() == 0 {
        Seq::empty()
    } else {
        let before = text.drop_last();
        let ch = text.last();
        if is_white(ch) {
            words(before)
        } else if before.len() > 0 && !is_white(before.last()) {
            words(before).drop_last().push(words(before).last().push(ch))
        } else {
            words(before).push(seq![ch])
        }
    }
}

/// Splits `chars` at white space.
pub fn split_words(chars: &[char]) -> (parts: Vec<String>)
    ensures
        views(parts@) == words(chars@),
{
    let mut parts: Vec<String> = Vec::new();
    let mut word = String::new();
    let mut in_word: bool = false;
    let mut i: usize = 0;
    while i < chars.len()
        invariant
            i <= chars@.len(),
            in_word == (i > 0 && !is_white(chars@[i - 1])),
            !in_word ==> word@.len() == 0 && words(chars@.take(i as int)) == views(parts@),
            in_word ==> words(chars@.take(i as int)) == views(parts@).push(word@),
        decreases chars@.len() - i,
    {
        let ch: char = chars[i];
        assert(chars@.take(i + 1).drop_last() == chars@.take(i as int));
        if ch.is_whitespace() {
            if in_word {
                let ghost done = parts@;
                parts.push(word);
                assert(views(parts@) == views(done).push(word@));
                word = String::new();
                in_word = false;
            }
        } else {
            let ghost before = word@;
            word.push(ch);
            assert(!in_word ==> word@ == seq![ch]);
            in_word = true;
        }
        i += 1;
    }
    assert(chars@.take(i as int) == chars@);
    if in_word {
        let ghost done = parts@;
        parts.push(word);
        assert(views(parts@) == views(done).push(word@));
    }
    parts
}

/// `parts` in order, with `separator` between neighbours.
pub open spec fn joined(parts: Seq<Seq<char>>, separator: Seq<char>) -> Seq<char>
    decreases parts.len(),
{
    if parts.len() == 0 {
        Seq::empty()
    } else {
        let before = parts.drop_last();
        if before.len() == 0 {
            parts.last()
        } else {
            joined(before, separator) + separator + parts.last()
        }
    }
}

/// Joins `parts`, with `separator` between neighbours.
pub fn join(parts: &Vec<String>, separator: &str) -> (text: String)
    ensures
        text@ == joined(views(parts@), separator@),
{
    let mut text = String::new();
    let mut i: usize = 0;
    let ghost all = views(parts@);
    while i < parts.len()
        invariant
            i <= parts@.len(),
            all == views(parts@),
            text@ == joined(all.take(i as int), separator@),
        decreases parts@.len() - i,
    {
        assert(all.take(i + 1).drop_last() == all.take(i as int));
        assert(all.take(i + 1).last() == parts@[i as int]@);
        if i > 0 {
            text.append(separator);
        }
        text.append(parts[i].as_str());
        i += 1;
    }
    assert(all.take(i as int) == all);
    text
}

/// `text` with every run of white space turned into one space and none left
/// at the ends.
pub open spec fn collapsed(text: Seq<char>) -> Seq<char> {
    joined(words(text), seq![' '])
}

/// Turns every run of white space into one space and drops it at both ends.
pub fn collapse_whitespace(value: &str) -> (text: String)
    ensures
        text@ == collapsed(value@),
{
    let chars = chars_of(value);
    let parts = split_words(&chars);
    proof {
        reveal_strlit(" ");
        assert(" "@ == seq![' ']);
    }
    join(&parts, " ")
}

/// `text` if it has at most `max_chars` characters, else its first
/// `max_chars` characters and three dots.
pub open spec fn truncated(text: Seq<char>, max_chars: nat) -> Seq<char> {
    if text.len() <= max_chars {
        text
    } else {
        text.take(max_chars as int) + seq!['.', '.', '.']
    }
}

/// Cuts `value` to `max_chars` characters and marks the cut with three dots.
pub fn truncate_chars(value: &str, max_chars: usize) -> (text: String)
    ensures
        text@ == truncated(value@, max_chars as nat),
{
    let chars = chars_of(value);
    if chars.len() <= max_chars {
        let whole = text_of(&chars, 0, chars.len());
        assert(whole@ == value@);
        whole
    } else {
        let mut cut = text_of(&chars, 0, max_chars);
        proof {
            reveal_strlit("...");
            assert("..."@ == seq!['.', '.', '.']);
        }
        cut.append("...");
        cut
    }
}

/// `text` with every `from` turned into `to`.
pub open spec fn replaced(text: Seq<char>, from: char, to: char) -> Seq<char> {
    text.map_values(|ch: char| if ch == from { to } else { ch })
}

/// Turns every `from` in `text` into `to`.
pub fn replace_char(text: &str, from: char, to: char) -> (result: String)
    ensures
        result@ == replaced(text@, from, to),
{
    let chars = chars_of(text);
    let mut result = String::new();
    let mut i: usize = 0;
    while i < chars.len()
        invariant
            i <= chars@.len(),
            chars@ == text@,
            result@ == replaced(text@, from, to).take(i as int),
        decreases chars@.len() - i,
    {
        if chars[i] == from {
            result.push(to);
        } else {
            result.push(chars[i]);
        }
        i += 1;
    }
    result
}

/// The views of a list of borrowed texts.
pub open spec fn str_views(texts: Seq<&str>) -> Seq<Seq<char>> {
    texts.map_values(|text: &str| text@)
}

/// A line without the carriage return that a line feed followed.
pub open spec fn without_return(line: Seq<char>) -> Seq<char> {
    if line.len() > 0 && line.last() == '\r' {
        line.drop_last()
    } else {
        line
    }
}

/// The lines of a text, without the line feed, or the carriage return and line
/// feed, that ends each. The last line need not be ended.
pub open spec fn lines(text: Seq<char>) -> Seq<Seq<char>>
    decreases text.len(),
{
    if text.len() == 0 {
        Seq::empty()
    } else {
        let before = text.drop_last();
        let ch = text.last();
        let open = before.len() > 0 && before.last() != '\n';
        let done = lines(before);
        if ch == '\n' {
            if open {
                done.drop_last().push(without_return(done.last()))
            } else {
                done.push(Seq::empty())
            }
        } else if open {
            done.drop_last().push(done.last().push(ch))
        } else {
            done.push(seq![ch])
        }
    }
}

/// Splits `chars` into lines.
pub fn split_lines(chars: &[char]) -> (parts: Vec<String>)
    ensures
        views(parts@) == lines(chars@),
{
    let mut parts: Vec<String> = Vec::new();
    let mut line: Vec<char> = Vec::new();
    let mut open: bool = false;
    let mut i: usize = 0;
    while i < chars.len()
        invariant
            i <= chars@.len(),
            open == (i > 0 && chars@[i - 1] != '\n'),
            !open ==> line@.len() == 0 && lines(chars@.take(i as int)) == views(parts@),
            open ==> lines(chars@.take(i as int)) == views(parts@).push(line@),
        decreases chars@.len() - i,
    {
        let ch: char = chars[i];
        let ghost done = parts@;
        assert(chars@.take(i + 1).drop_last() == chars@.take(i as int));
        if ch == '\n' {
            let mut end: usize = line.len();
            if end > 0 && line[end - 1] == '\r' {
                end -= 1;
            }
            assert(line@.subrange(0, end as int) =~= without_return(line@));
            parts.push(text_of(&line, 0, end));
            assert(views(parts@) =~= views(done).push(without_return(line@)));
            assert(open ==> lines(chars@.take(i as int)).drop_last() =~= views(done));
            assert(!open ==> line@ =~= Seq::<char>::empty());
            line = Vec::new();
            open = false;
        } else {
            line.push(ch);
            assert(!open ==> line@ =~= seq![ch]);
            open = true;
        }
        i += 1;
    }
    assert(chars@.take(i as int) == chars@);
    if open {
        let ghost done = parts@;
        parts.push(text_of(&line, 0, line.len()));
        assert(line@.subrange(0, line@.len() as int) =~= line@);
        assert(views(parts@) =~= views(done).push(line@));
    }
    parts
}

/// How many characters stand before the first `ch`; all of them if there is
/// none.
pub open spec fn first_at(text: Seq<char>, ch: char) -> nat
    decreases text.len(),
{
    if text.len() == 0 || text[0] == ch {
        0
    } else {
        1 + first_at(text.drop_first(), ch)
    }
}

/// Finds the first `ch`; returns the number of characters if there is none.
pub fn find_char(chars: &[char], ch: char) -> (at: usize)
    ensures
        at == first_at(chars@, ch),
        at <= chars@.len(),
{
    let mut at: usize = 0;
    assert(chars@.skip(0) == chars@);
    while at < chars.len() && chars[at] != ch
        invariant
            at <= chars@.len(),
            first_at(chars@, ch) == at + first_at(chars@.skip(at as int), ch),
        decreases chars@.len() - at,
    {
        assert(chars@.skip(at as int).drop_first() == chars@.skip(at + 1));
        at += 1;
    }
    at
}

/// The number of bytes that `text` takes in UTF-8.
pub open spec fn byte_len(text: Seq<char>) -> nat {
    encode_utf8(text).len()
}

/// The number of bytes that `text` takes in UTF-8.
pub fn utf8_len(text: &str) -> (bytes: usize)
    ensures
        bytes == byte_len(text@),
{
    text.as_bytes().len()
}

/// A text has no more characters than bytes.
pub proof fn lemma_chars_within_bytes(text: Seq<char>)
    ensures
        text.len() <= byte_len(text),
    decreases text.len(),
{
    if text.len() > 0 {
        lemma_chars_within_bytes(text.drop_first());
    }
}

/// A text takes at most four bytes a character.
pub proof fn lemma_bytes_within_chars(text: Seq<char>)
    ensures
        byte_len(text) <= 4 * text.len(),
    decreases text.len(),
{
    if text.len() > 0 {
        lemma_bytes_within_chars(text.drop_first());
    }
}

/// Two texts in a row take the bytes of both.
pub proof fn lemma_byte_len_concat(left: Seq<char>, right: Seq<char>)
    ensures
        byte_len(left + right) == byte_len(left) + byte_len(right),
    decreases left.len(),
{
    if left.len() == 0 {
        assert(left + right =~= right);
    } else {
        assert((left + right).drop_first() =~= left.drop_first() + right);
        lemma_byte_len_concat(left.drop_first(), right);
    }
}

/// A word: at least one character, and no white space.
pub open spec fn is_word(text: Seq<char>) -> bool {
    text.len() > 0 && forall|i: int| 0 <= i < text.len() ==> !is_white(#[trigger] text[i])
}

/// Every part that white space separates is a word, and a text that ends in
/// a word ends in the last of its parts.
proof fn lemma_words_are_words(text: Seq<char>)
    ensures
        forall|i: int| 0 <= i < words(text).len() ==> is_word(#[trigger] words(text)[i]),
        text.len() > 0 && !is_white(text.last()) ==> words(text).len() > 0,
    decreases text.len(),
{
    if text.len() > 0 {
        let before = text.drop_last();
        lemma_words_are_words(before);
        let ch = text.last();
        if !is_white(ch) {
            if before.len() > 0 && !is_white(before.last()) {
                assert(is_word(words(before).last()));
                assert(is_word(words(before).last().push(ch)));
            } else {
                assert(is_word(seq![ch]));
            }
        }
    }
}

/// A word after a space is a part of its own.
proof fn lemma_word_after_space(text: Seq<char>, word: Seq<char>)
    requires
        is_word(word),
    ensures
        words(text + seq![' '] + word) == words(text).push(word),
    decreases word.len(),
{
    let whole = text + seq![' '] + word;
    let before = whole.drop_last();
    assert(whole.last() == word.last());
    assert(!is_white(word.last()));
    if word.len() == 1 {
        assert(before == text + seq![' ']);
        assert(before.drop_last() == text);
        assert(words(before) == words(text));
        assert(word == seq![word.last()]);
    } else {
        assert(before == text + seq![' '] + word.drop_last());
        lemma_word_after_space(text, word.drop_last());
        assert(before.last() == word[word.len() - 2]);
        assert(!is_white(before.last()));
        assert(words(text).push(word.drop_last()).drop_last() == words(text));
        assert(word.drop_last().push(word.last()) == word);
    }
}

/// A word by itself is its only part.
proof fn lemma_single_word(word: Seq<char>)
    requires
        is_word(word),
    ensures
        words(word) == seq![word],
    decreases word.len(),
{
    assert(!is_white(word.last()));
    if word.len() == 1 {
        assert(word == seq![word.last()]);
        assert(words(word.drop_last()) == Seq::<Seq<char>>::empty());
    } else {
        lemma_single_word(word.drop_last());
        assert(!is_white(word[word.len() - 2]));
        assert(word.drop_last().push(word.last()) == word);
    }
}

/// Words joined by spaces come apart into the same words.
pub proof fn lemma_joined_words(parts: Seq<Seq<char>>)
    requires
        forall|i: int| 0 <= i < parts.len() ==> is_word(#[trigger] parts[i]),
    ensures
        words(joined(parts, seq![' '])) == parts,
    decreases parts.len(),
{
    if parts.len() > 0 {
        let before = parts.drop_last();
        assert(is_word(parts.last()));
        if before.len() == 0 {
            lemma_single_word(parts.last());
        } else {
            assert forall|i: int| 0 <= i < before.len() implies is_word(#[trigger] before[i]) by {
                assert(is_word(parts[i]));
            }
            lemma_joined_words(before);
            lemma_word_after_space(joined(before, seq![' ']), parts.last());
        }
    }
}

/// Collapsing white space keeps the words, and doing it twice does no more
/// than doing it once.
pub proof fn law_collapse_is_idempotent(text: Seq<char>)
    ensures
        words(collapsed(text)) == words(text),
        collapsed(collapsed(text)) == collapsed(text),
{
    lemma_words_are_words(text);
    lemma_joined_words(words(text));
}

/// Whether a text neither starts nor ends with white space, and what white
/// space it holds is single spaces.
pub open spec fn is_neat(text: Seq<char>) -> bool {
    &&& text.len() > 0 ==> !is_white(text[0]) && !is_white(text.last())
    &&& forall|i: int|
        0 <= i < text.len() && is_white(#[trigger] text[i]) ==> text[i] == ' ' && !is_white(
            text[i + 1],
        )
}

/// A neat text has no white space to collapse.
pub proof fn lemma_neat_is_collapsed(text: Seq<char>)
    requires
        is_neat(text),
    ensures
        collapsed(text) == text,
    decreases text.len(),
{
    if text.len() > 0 {
        let before = text.drop_last();
        let ch = text.last();
        if before.len() == 0 {
            assert(words(before) =~= Seq::empty());
            assert(words(text).drop_last() =~= Seq::empty());
            assert(collapsed(text) =~= text);
        } else if !is_white(before.last()) {
            assert forall|i: int| 0 <= i < before.len() && is_white(#[trigger] before[i]) implies
                before[i] == ' ' && !is_white(before[i + 1]) by {
                assert(is_white(text[i]));
            }
            lemma_neat_is_collapsed(before);
            lemma_words_are_words(before);
            let parts = words(before);
            assert(words(text).drop_last() =~= parts.drop_last());
            assert(words(text).last() == parts.last().push(ch));
            assert(collapsed(text) =~= collapsed(before).push(ch));
        } else {
            let start = before.drop_last();
            let at = before.len() - 1;
            assert(is_white(text[at]));
            assert(text[at] == ' ');
            assert(start.len() > 0);
            assert(!is_white(start.last())) by {
                if is_white(start.last()) {
                    assert(is_white(text[at - 1]));
                }
            }
            assert forall|i: int| 0 <= i < start.len() && is_white(#[trigger] start[i]) implies
                start[i] == ' ' && !is_white(start[i + 1]) by {
                assert(is_white(text[i]));
            }
            lemma_neat_is_collapsed(start);
            lemma_words_are_words(start);
            assert(words(before) == words(start));
            assert(words(text).drop_last() =~= words(start));
            assert(collapsed(text) =~= start + seq![' '] + seq![ch]);
        }
        assert(collapsed(text) =~= text);
    }
}

/// A character that neither the parts nor the separator hold is not in the
/// joined text.
pub proof fn lemma_joined_without(parts: Seq<Seq<char>>, separator: Seq<char>, ch: char)
    requires
        !separator.contains(ch),
        forall|i: int| 0 <= i < parts.len() ==> !(#[trigger] parts[i]).contains(ch),
    ensures
        !joined(parts, separator).contains(ch),
    decreases parts.len(),
{
    if parts.len() > 0 {
        let before = parts.drop_last();
        assert forall|i: int| 0 <= i < before.len() implies !(#[trigger] before[i]).contains(ch) by {
            assert(!parts[i].contains(ch));
        }
        lemma_joined_without(before, separator, ch);
        assert(!parts[parts.len() - 1].contains(ch));
        lemma_concat_without(joined(before, separator), separator, ch);
        lemma_concat_without(joined(before, separator) + separator, parts.last(), ch);
    }
}

/// A character that neither of two texts holds is not in both in a row.
pub proof fn lemma_concat_without(left: Seq<char>, right: Seq<char>, ch: char)
    requires
        !left.contains(ch),
        !right.contains(ch),
    ensures
        !(left + right).contains(ch),
{
    if (left + right).contains(ch) {
        let i = choose|i: int| 0 <= i < (left + right).len() && (left + right)[i] == ch;
        if i < left.len() {
            assert(left[i] == ch);
        } else {
            assert(right[i - left.len()] == ch);
        }
    }
}

/// The lines of a text that is not empty are not none.
pub proof fn lemma_some_line(text: Seq<char>)
    requires
        text.len() > 0,
    ensures
        lines(text).len() > 0,
    decreases text.len(),
{
    if text.len() > 1 {
        lemma_some_line(text.drop_last());
    }
}

/// A line feed ends a line for good: the lines of what follows come after.
pub proof fn lemma_lines_after_line_feed(left: Seq<char>, right: Seq<char>)
    ensures
        lines(left + seq!['\n'] + right) == lines(left + seq!['\n']) + lines(right),
    decreases right.len(),
{
    let ended = left + seq!['\n'];
    let whole = ended + right;
    if right.len() == 0 {
        assert(whole =~= ended);
        assert(lines(ended) + lines(right) =~= lines(ended));
    } else {
        let before = right.drop_last();
        assert(whole.drop_last() =~= ended + before);
        lemma_lines_after_line_feed(left, before);
        if before.len() > 0 {
            lemma_some_line(before);
            assert(whole.drop_last().last() == before.last());
            assert((lines(ended) + lines(before)).drop_last() =~= lines(ended) + lines(
                before,
            ).drop_last());
        } else {
            assert(whole.drop_last().last() == '\n');
        }
        assert(lines(whole) =~= lines(ended) + lines(right));
    }
}

/// The only white space in joined words is the spaces between them.
proof fn lemma_joined_white(parts: Seq<Seq<char>>)
    requires
        forall|i: int| 0 <= i < parts.len() ==> is_word(#[trigger] parts[i]),
    ensures
        parts.len() > 0 ==> joined(parts, seq![' ']).len() > 0 && !is_white(
            joined(parts, seq![' '])[0],
        ) && !is_white(joined(parts, seq![' ']).last()),
        forall|i: int|
            0 <= i < joined(parts, seq![' ']).len() && is_white(
                #[trigger] joined(parts, seq![' '])[i],
            ) ==> joined(parts, seq![' '])[i] == ' ' && i + 1 < joined(parts, seq![' ']).len()
                && !is_white(joined(parts, seq![' '])[i + 1]),
    decreases parts.len(),
{
    if parts.len() > 0 {
        let before = parts.drop_last();
        let last = parts.last();
        assert(is_word(last));
        let whole = joined(parts, seq![' ']);
        if before.len() > 0 {
            assert forall|i: int| 0 <= i < before.len() implies is_word(#[trigger] before[i]) by {
                assert(is_word(parts[i]));
            }
            lemma_joined_white(before);
            let head = joined(before, seq![' ']);
            assert forall|i: int| 0 <= i < whole.len() && is_white(#[trigger] whole[i]) implies
                whole[i] == ' ' && i + 1 < whole.len() && !is_white(whole[i + 1]) by {
                if i < head.len() {
                    assert(whole[i] == head[i]);
                    assert(is_white(head[i]));
                    assert(whole[i + 1] == head[i + 1]);
                } else if i == head.len() {
                    assert(whole[i + 1] == last[0]);
                } else {
                    assert(whole[i] == last[i - head.len() - 1]);
                }
            }
            assert(whole[0] == head[0]);
            assert(whole.last() == last.last());
        }
    }
}

/// Collapsed text neither starts nor ends with white space, and what white
/// space it holds is single spaces.
pub proof fn law_collapsed_white_space(text: Seq<char>)
    ensures
        is_neat(collapsed(text)),
{
    lemma_words_are_words(text);
    lemma_joined_white(words(text));
}

/// Whether a text is made of white space alone.
pub open spec fn all_white(text: Seq<char>) -> bool {
    forall|i: int| 0 <= i < text.len() ==> is_white(#[trigger] text[i])
}

proof fn lemma_white_start(before: Seq<char>, rest: Seq<char>)
    requires
        all_white(before),
    ensures
        trimmed_start(before + rest) == trimmed_start(rest),
    decreases before.len(),
{
    if before.len() == 0 {
        assert(before + rest =~= rest);
    } else {
        assert(is_white(before[0]));
        assert((before + rest).drop_first() =~= before.drop_first() + rest);
        assert forall|i: int| 0 <= i < before.drop_first().len() implies is_white(
            #[trigger] before.drop_first()[i],
        ) by {
            assert(is_white(before[i + 1]));
        }
        lemma_white_start(before.drop_first(), rest);
    }
}

proof fn lemma_white_end(rest: Seq<char>, after: Seq<char>)
    requires
        all_white(after),
    ensures
        trimmed_end(rest + after) == trimmed_end(rest),
    decreases after.len(),
{
    if after.len() == 0 {
        assert(rest + after =~= rest);
    } else {
        assert(is_white(after[after.len() - 1]));
        assert((rest + after).drop_last() =~= rest + after.drop_last());
        assert forall|i: int| 0 <= i < after.drop_last().len() implies is_white(
            #[trigger] after.drop_last()[i],
        ) by {
            assert(is_white(after[i]));
        }
        lemma_white_end(rest, after.drop_last());
    }
}

/// Trimming takes the white space at both ends away, all of it and nothing
/// else.
pub proof fn law_trim_takes_white_space_only(
    before: Seq<char>,
    inner: Seq<char>,
    after: Seq<char>,
)
    requires
        all_white(before),
        all_white(after),
        inner.len() > 0 ==> !is_white(inner[0]) && !is_white(inner[inner.len() - 1]),
    ensures
        trimmed(before + inner + after) == inner,
{
    let rest = inner + after;
    assert(before + inner + after =~= before + rest);
    lemma_white_start(before, rest);
    if inner.len() == 0 {
        assert(rest =~= after + Seq::<char>::empty());
        lemma_white_start(after, Seq::empty());
        assert(trimmed(before + inner + after) =~= inner);
    } else {
        assert(rest[0] == inner[0]);
        lemma_white_end(inner, after);
    }
}

/// A text without white space is one word, an empty text none.
pub proof fn law_a_word_is_its_only_part(word: Seq<char>)
    requires
        forall|i: int| 0 <= i < word.len() ==> !is_white(#[trigger] word[i]),
    ensures
        words(word) == if word.len() == 0 {
            Seq::<Seq<char>>::empty()
        } else {
            seq![word]
        },
{
    if word.len() > 0 {
        lemma_single_word(word);
    }
}

/// White space separates words: those before it come first, then those after
/// it.
pub proof fn law_white_space_separates_words(left: Seq<char>, ch: char, right: Seq<char>)
    requires
        is_white(ch),
    ensures
        words(left + seq![ch] + right) == words(left) + words(right),
    decreases right.len(),
{
    let whole = left + seq![ch] + right;
    if right.len() == 0 {
        assert(whole.drop_last() =~= left);
        assert(whole.last() == ch);
        assert(words(left) + words(right) =~= words(left));
    } else {
        let before = right.drop_last();
        assert(whole.drop_last() =~= left + seq![ch] + before);
        assert(whole.last() == right.last());
        law_white_space_separates_words(left, ch, before);
        if before.len() > 0 {
            assert(whole.drop_last().last() == before.last());
            lemma_words_are_words(before);
            if !is_white(before.last()) {
                assert((words(left) + words(before)).drop_last() =~= words(left) + words(
                    before,
                ).drop_last());
            }
        } else {
            assert(whole.drop_last().last() == ch);
        }
        assert(words(whole) =~= words(left) + words(right));
    }
}

/// Joining puts the separator between neighbours and nowhere else.
pub proof fn law_joined_parts(left: Seq<Seq<char>>, right: Seq<Seq<char>>, separator: Seq<char>)
    ensures
        left.len() == 0 ==> joined(left, separator) == Seq::<char>::empty(),
        left.len() == 1 ==> joined(left, separator) == left[0],
        left.len() > 0 && right.len() > 0 ==> joined(left + right, separator) == joined(
            left,
            separator,
        ) + separator + joined(right, separator),
    decreases right.len(),
{
    if left.len() > 0 && right.len() > 0 {
        let before = right.drop_last();
        assert((left + right).drop_last() =~= left + before);
        assert((left + right).last() == right.last());
        if before.len() == 0 {
            assert(left + before =~= left);
            assert(joined(right, separator) == right.last());
        } else {
            law_joined_parts(left, before, separator);
        }
        assert(joined(left + right, separator) =~= joined(left, separator) + separator + joined(
            right,
            separator,
        ));
    }
}

/// A text that is short enough is kept; of a longer one the first characters
/// are, as many as there may be, and three dots follow.
pub proof fn law_cut_text(text: Seq<char>, max_chars: nat)
    ensures
        text.len() <= max_chars ==> truncated(text, max_chars) == text,
        text.len() > max_chars ==> {
            &&& truncated(text, max_chars).len() == max_chars + 3
            &&& forall|i: int|
                0 <= i < max_chars ==> #[trigger] truncated(text, max_chars)[i] == text[i]
            &&& forall|i: int|
                max_chars <= i < max_chars + 3 ==> #[trigger] truncated(text, max_chars)[i] == '.'
        },
{
}

/// Replacing a character changes every one of them and no other.
pub proof fn law_replaced_characters(text: Seq<char>, from: char, to: char)
    ensures
        replaced(text, from, to).len() == text.len(),
        forall|i: int|
            0 <= i < text.len() ==> #[trigger] replaced(text, from, to)[i] == if text[i] == from {
                to
            } else {
                text[i]
            },
{
}

/// A text without a line feed is one line, unless it is empty.
proof fn lemma_one_line(line: Seq<char>)
    requires
        forall|i: int| 0 <= i < line.len() ==> #[trigger] line[i] != '\n',
    ensures
        lines(line) == if line.len() == 0 {
            Seq::<Seq<char>>::empty()
        } else {
            seq![line]
        },
    decreases line.len(),
{
    if line.len() > 0 {
        let before = line.drop_last();
        lemma_one_line(before);
        assert(line[line.len() - 1] != '\n');
        if before.len() > 0 {
            assert(before.last() == line[line.len() - 2]);
            assert(before.push(line.last()) =~= line);
            assert(seq![before].drop_last() =~= Seq::<Seq<char>>::empty());
        } else {
            assert(seq![line.last()] =~= line);
        }
        assert(lines(line) =~= seq![line]);
    }
}

/// A line feed ends a line, together with a carriage return before it; the
/// lines of what follows come after. What no line feed ends is a line too,
/// carriage return and all, unless it is empty.
pub proof fn law_line_feed_ends_a_line(line: Seq<char>, rest: Seq<char>)
    requires
        forall|i: int| 0 <= i < line.len() ==> #[trigger] line[i] != '\n',
    ensures
        lines(line) == if line.len() == 0 {
            Seq::<Seq<char>>::empty()
        } else {
            seq![line]
        },
        lines(line + seq!['\n'] + rest) == seq![
            if line.len() > 0 && line[line.len() - 1] == '\r' {
                line.take(line.len() - 1)
            } else {
                line
            },
        ] + lines(rest),
{
    lemma_one_line(line);
    lemma_lines_after_line_feed(line, rest);
    let ended = line + seq!['\n'];
    assert(ended.drop_last() =~= line);
    if line.len() > 0 {
        assert(line[line.len() - 1] != '\n');
        assert(line.take(line.len() - 1) =~= line.drop_last());
        assert(seq![line].drop_last() =~= Seq::<Seq<char>>::empty());
        assert(lines(ended) =~= seq![without_return(line)]);
    } else {
        assert(line =~= Seq::<char>::empty());
        assert(lines(ended) =~= seq![line]);
    }
}

/// The first place of a character has it, unless there is none, and no
/// earlier place does.
pub proof fn law_first_place(text: Seq<char>, ch: char)
    ensures
        first_at(text, ch) <= text.len(),
        first_at(text, ch) < text.len() ==> text[first_at(text, ch) as int] == ch,
        forall|i: int| 0 <= i < first_at(text, ch) ==> #[trigger] text[i] != ch,
    decreases text.len(),
{
    if text.len() > 0 && text[0] != ch {
        law_first_place(text.drop_first(), ch);
        assert forall|i: int| 0 <= i < first_at(text, ch) implies #[trigger] text[i] != ch by {
            if i > 0 {
                assert(text.drop_first()[i - 1] == text[i]);
            }
        }
    }
}

/// A text occurs in every text that it is a part of, and in no other.
pub proof fn law_occurrence(before: Seq<char>, needle: Seq<char>, after: Seq<char>, text: Seq<char>)
    ensures
        occurs_in(needle, before + needle + after),
        occurs_in(needle, text) ==> exists|before: Seq<char>, after: Seq<char>|
            #[trigger] (before + needle + after) == text,
{
    let whole = before + needle + after;
    let at = before.len() as int;
    assert(whole.subrange(at, at + needle.len()) =~= needle);
    if occurs_in(needle, text) {
        let at = choose|at: int|
            0 <= at && at + needle.len() <= text.len() && #[trigger] text.subrange(
                at,
                at + needle.len(),
            ) == needle;
        let start = text.subrange(0, at);
        let end = text.subrange(at + needle.len(), text.len() as int);
        assert(start + needle + end =~= text);
    }
}

/// The view of a text that may be missing, or of a list of texts, is the views
/// of the texts themselves; bytes are those of UTF-8.
pub proof fn law_views_of_texts(
    text: String,
    slice: &str,
    texts: Seq<String>,
    slices: Seq<&str>,
    i: int,
)
    ensures
        optional_view(Some(text)) == Some(text@),
        optional_view(None) is None,
        borrowed_view(Some(slice)) == Some(slice@),
        borrowed_view(None) is None,
        views(texts).len() == texts.len(),
        0 <= i < texts.len() ==> views(texts)[i] == texts[i]@,
        str_views(slices).len() == slices.len(),
        0 <= i < slices.len() ==> str_views(slices)[i] == slices[i]@,
        byte_len(slice@) == encode_utf8(slice@).len(),
{
}

/// Collapsing white space joins the words with single spaces.
pub proof fn law_collapsed_words(text: Seq<char>)
    ensures
        collapsed(text) == joined(words(text), seq![' ']),
{
}

} // verus!
