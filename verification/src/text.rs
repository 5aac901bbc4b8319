//! Text and byte-string operations, stated over the sequences that they work on.

use vstd::prelude::*;
use vstd::string::*;
use vstd::utf8::{decode_utf8, encode_utf8_decode_utf8, valid_utf8};

verus! {

/// Whether two byte strings are the same.
pub fn same_bytes(a: &[u8], b: &[u8]) -> (same: bool)
    ensures
        same == (a@ == b@),
{
    if a.len() != b.len() {
        return false;
    }
    let mut i: usize = 0;
    while i < a.len()
        invariant
            a@.len() == b@.len(),
            i <= a@.len(),
            a@.take(i as int) == b@.take(i as int),
        decreases a@.len() - i,
    {
        if a[i] != b[i] {
            return false;
        }
        proof {
            assert(a@.take(i + 1) =~= a@.take(i as int).push(a@[i as int]));
            assert(b@.take(i + 1) =~= b@.take(i as int).push(b@[i as int]));
        }
        i = i + 1;
    }
    proof {
        assert(a@.take(i as int) =~= a@);
        assert(b@.take(i as int) =~= b@);
    }
    true
}

/// Whether two texts are the same.
pub fn same_text(a: &str, b: &str) -> (same: bool)
    ensures
        same == (a@ == b@),
{
    proof {
        encode_utf8_decode_utf8(a@);
        encode_utf8_decode_utf8(b@);
    }
    same_bytes(a.as_bytes(), b.as_bytes())
}

/// The characters of a text.
pub fn chars_of(text: &str) -> (chars: Vec<char>)
    ensures
        chars@ == text@,
{
    let mut chars: Vec<char> = Vec::new();
    for c in it: text.chars()
        invariant
            it.seq() == text@,
            chars@ == text@.take(it.index()),
    {
        chars.push(c);
        proof {
            assert(chars@ =~= text@.take(it.index() + 1));
        }
    }
    proof {
        assert(text@.take(text@.len() as int) =~= text@);
    }
    chars
}

/// The text from character `from` up to character `to`.
pub fn text_between(text: &str, from: usize, to: usize) -> (part: String)
    requires
        from <= to <= text@.len(),
    ensures
        part@ == text@.subrange(from as int, to as int),
{
    text.substring_char(from, to).to_owned()
}

/// `first` followed by `second`.
pub fn joined(first: &str, second: &str) -> (text: String)
    ensures
        text@ == first@ + second@,
{
    let mut text: String = first.to_owned();
    text.append(second);
    text
}

pub open spec fn text_view(text: Option<String>) -> Option<Seq<char>> {
    match text {
        Some(text) => Some(text@),
        None => None,
    }
}

pub open spec fn bytes_view(bytes: Option<Vec<u8>>) -> Option<Seq<u8>> {
    match bytes {
        Some(bytes) => Some(bytes@),
        None => None,
    }
}

pub open spec fn byte_strings_view(strings: Seq<Vec<u8>>) -> Seq<Seq<u8>> {
    strings.map_values(|string: Vec<u8>| string@)
}

/// Where `c` occurs first in `text`, or the length of `text` where it does not.
pub open spec fn first_at(text: Seq<char>, c: char) -> int
    decreases text.len(),
{
    if text.len() == 0 || text[0] == c {
        0
    } else {
        1 + first_at(text.skip(1), c)
    }
}

/// Where `c` occurs last in `text`, or -1 where it does not.
pub open spec fn last_at(text: Seq<char>, c: char) -> int
    decreases text.len(),
{
    if text.len() == 0 {
        -1
    } else if text.last() == c {
        text.len() - 1
    } else {
        last_at(text.drop_last(), c)
    }
}

/// A position with `c` at it, or the end, and no `c` before it is the first one.
pub proof fn first_at_is(text: Seq<char>, c: char, at: int)
    requires
        0 <= at <= text.len(),
        at < text.len() ==> text[at] == c,
        forall|j: int| 0 <= j < at ==> text[j] != c,
    ensures
        first_at(text, c) == at,
    decreases text.len(),
{
    if at > 0 {
        let rest = text.skip(1);
        assert forall|j: int| 0 <= j < at - 1 implies rest[j] != c by {
            assert(rest[j] == text[j + 1]);
        }
        first_at_is(rest, c, at - 1);
    }
}

pub proof fn last_at_is(text: Seq<char>, c: char, at: int)
    requires
        -1 <= at < text.len(),
        at >= 0 ==> text[at] == c,
        forall|j: int| at < j < text.len() ==> text[j] != c,
    ensures
        last_at(text, c) == at,
    decreases text.len(),
{
    if text.len() > 0 && at < text.len() - 1 {
        assert(text.last() == text[text.len() - 1]);
        last_at_is(text.drop_last(), c, at);
    }
}

/// What is found first is there, and not before; what is found nowhere is not there.
pub proof fn first_at_found(text: Seq<char>, c: char)
    ensures
        0 <= first_at(text, c) <= text.len(),
        first_at(text, c) < text.len() ==> text[first_at(text, c)] == c,
        !text.take(first_at(text, c)).contains(c),
    decreases text.len(),
{
    if text.len() > 0 && text[0] != c {
        let rest = text.skip(1);
        first_at_found(rest, c);
        let at = first_at(rest, c);
        let front = text.take(at + 1);
        assert forall|j: int| 0 <= j < front.len() implies front[j] != c by {
            if j > 0 {
                assert(rest.take(at)[j - 1] == text[j]);
                assert(rest.take(at).contains(rest.take(at)[j - 1]));
            }
        }
    }
}

/// What is found last is there, and not behind; what is found nowhere is not there.
pub proof fn last_at_found(text: Seq<char>, c: char)
    ensures
        -1 <= last_at(text, c) < text.len(),
        last_at(text, c) >= 0 ==> text[last_at(text, c)] == c,
        !text.skip(last_at(text, c) + 1).contains(c),
    decreases text.len(),
{
    if text.len() > 0 && text.last() != c {
        let rest = text.drop_last();
        last_at_found(rest, c);
        let at = last_at(rest, c) + 1;
        let behind = text.skip(at);
        assert forall|j: int| 0 <= j < behind.len() implies behind[j] != c by {
            if j < rest.len() - at {
                assert(rest.skip(at)[j] == text[at + j]);
                assert(rest.skip(at).contains(rest.skip(at)[j]));
            }
        }
    }
}

pub proof fn first_at_bounds(text: Seq<char>, c: char)
    ensures
        0 <= first_at(text, c) <= text.len(),
    decreases text.len(),
{
    if text.len() > 0 && text[0] != c {
        first_at_bounds(text.skip(1), c);
    }
}

/// `text` cut at the first `c`, which belongs to neither part.
pub open spec fn split_once_at(text: Seq<char>, c: char) -> Option<(Seq<char>, Seq<char>)> {
    let at = first_at(text, c);
    if at < text.len() {
        Some((text.take(at), text.skip(at + 1)))
    } else {
        None
    }
}

/// `text` cut at the last `c`, which belongs to neither part.
pub open spec fn rsplit_once_at(text: Seq<char>, c: char) -> Option<(Seq<char>, Seq<char>)> {
    let at = last_at(text, c);
    if at >= 0 {
        Some((text.take(at), text.skip(at + 1)))
    } else {
        None
    }
}

pub open spec fn pair_view(pair: Option<(String, String)>) -> Option<(Seq<char>, Seq<char>)> {
    match pair {
        Some((first, second)) => Some((first@, second@)),
        None => None,
    }
}

pub fn split_once(text: &str, c: char) -> (parts: Option<(String, String)>)
    ensures
        pair_view(parts) == split_once_at(text@, c),
{
    let chars: Vec<char> = chars_of(text);
    let mut i: usize = 0;
    while i < chars.len()
        invariant
            chars@ == text@,
            i <= chars@.len(),
            forall|j: int| 0 <= j < i ==> text@[j] != c,
        decreases chars@.len() - i,
    {
        if chars[i] == c {
            proof {
                first_at_is(text@, c, i as int);
            }
            let before: String = text_between(text, 0, i);
            let after: String = text_between(text, i + 1, chars.len());
            proof {
                assert(before@ =~= text@.take(i as int));
                assert(after@ =~= text@.skip(i + 1));
            }
            return Some((before, after));
        }
        i = i + 1;
    }
    proof {
        first_at_is(text@, c, i as int);
    }
    None
}

pub fn rsplit_once(text: &str, c: char) -> (parts: Option<(String, String)>)
    ensures
        pair_view(parts) == rsplit_once_at(text@, c),
{
    let chars: Vec<char> = chars_of(text);
    let mut i: usize = chars.len();
    while i > 0
        invariant
            chars@ == text@,
            i <= chars@.len(),
            forall|j: int| i <= j < text@.len() ==> text@[j] != c,
        decreases i,
    {
        if chars[i - 1] == c {
            proof {
                last_at_is(text@, c, i - 1);
            }
            let before: String = text_between(text, 0, i - 1);
            let after: String = text_between(text, i, chars.len());
            proof {
                assert(before@ =~= text@.take(i - 1));
                assert(after@ =~= text@.skip(i as int));
            }
            return Some((before, after));
        }
        i = i - 1;
    }
    proof {
        last_at_is(text@, c, -1);
    }
    None
}

/// The characters that Unicode counts as white space.
pub open spec fn is_white_space(c: char) -> bool {
    ||| '\u{9}' <= c <= '\u{d}'
    ||| c == ' '
    ||| c == '\u{85}'
    ||| c == '\u{a0}'
    ||| c == '\u{1680}'
    ||| '\u{2000}' <= c <= '\u{200a}'
    ||| c == '\u{2028}'
    ||| c == '\u{2029}'
    ||| c == '\u{202f}'
    ||| c == '\u{205f}'
    ||| c == '\u{3000}'
}

pub fn white_space(c: char) -> (white: bool)
    ensures
        white == is_white_space(c),
{
    ('\u{9}' <= c && c <= '\u{d}') || c == ' ' || c == '\u{85}' || c == '\u{a0}' || c == '\u{1680}'
        || ('\u{2000}' <= c && c <= '\u{200a}') || c == '\u{2028}' || c == '\u{2029}' || c
        == '\u{202f}' || c == '\u{205f}' || c == '\u{3000}'
}

/// `text` without the white space in front.
pub open spec fn trimmed_start(text: Seq<char>) -> Seq<char>
    decreases text.len(),
{
    if text.len() > 0 && is_white_space(text[0]) {
        trimmed_start(text.skip(1))
    } else {
        text
    }
}

/// `text` without the white space behind.
pub open spec fn trimmed_end(text: Seq<char>) -> Seq<char>
    decreases text.len(),
{
    if text.len() > 0 && is_white_space(text.last()) {
        trimmed_end(text.drop_last())
    } else {
        text
    }
}

/// `text` without the white space around it.
pub open spec fn trimmed(text: Seq<char>) -> Seq<char> {
    trimmed_end(trimmed_start(text))
}

/// Exactly the white space in front goes.
pub proof fn lemma_trimmed_start(text: Seq<char>, at: int)
    requires
        0 <= at <= text.len(),
        forall|j: int| 0 <= j < at ==> is_white_space(text[j]),
        at < text.len() ==> !is_white_space(text[at]),
    ensures
        trimmed_start(text) == text.skip(at),
    decreases text.len(),
{
    if at > 0 {
        let rest = text.skip(1);
        assert forall|j: int| 0 <= j < at - 1 implies is_white_space(rest[j]) by {
            assert(rest[j] == text[j + 1]);
        }
        lemma_trimmed_start(rest, at - 1);
        assert(rest.skip(at - 1) =~= text.skip(at));
    } else {
        assert(text.skip(0) =~= text);
    }
}

/// Exactly the white space behind goes.
pub proof fn lemma_trimmed_end(text: Seq<char>, end: int)
    requires
        0 <= end <= text.len(),
        forall|j: int| end <= j < text.len() ==> is_white_space(text[j]),
        end > 0 ==> !is_white_space(text[end - 1]),
    ensures
        trimmed_end(text) == text.take(end),
    decreases text.len(),
{
    if end < text.len() {
        assert(text.last() == text[text.len() - 1]);
        lemma_trimmed_end(text.drop_last(), end);
        assert(text.drop_last().take(end) =~= text.take(end));
    } else {
        assert(text.take(end) =~= text);
    }
}

pub fn trim(text: &str) -> (inner: String)
    ensures
        inner@ == trimmed(text@),
{
    let chars: Vec<char> = chars_of(text);
    let mut start: usize = 0;
    while start < chars.len() && white_space(chars[start])
        invariant
            chars@ == text@,
            start <= chars@.len(),
            forall|j: int| 0 <= j < start ==> is_white_space(text@[j]),
        decreases chars@.len() - start,
    {
        start = start + 1;
    }
    let mut end: usize = chars.len();
    while end > start && white_space(chars[end - 1])
        invariant
            chars@ == text@,
            start <= end <= chars@.len(),
            forall|j: int| end <= j < text@.len() ==> is_white_space(text@[j]),
        decreases end,
    {
        end = end - 1;
    }
    let inner: String = text_between(text, start, end);
    proof {
        lemma_trimmed_start(text@, start as int);
        let rest = text@.skip(start as int);
        lemma_trimmed_end(rest, end - start);
        assert(rest.take(end - start) =~= inner@);
    }
    inner
}

/// Where the first white space of `text` is, or its length where there is none.
pub open spec fn word_len(text: Seq<char>) -> int
    decreases text.len(),
{
    if text.len() == 0 || is_white_space(text[0]) {
        0
    } else {
        1 + word_len(text.skip(1))
    }
}

proof fn lemma_word_len(text: Seq<char>, at: int)
    requires
        0 <= at <= text.len(),
        forall|j: int| 0 <= j < at ==> !is_white_space(text[j]),
        at < text.len() ==> is_white_space(text[at]),
    ensures
        word_len(text) == at,
    decreases text.len(),
{
    if at > 0 {
        let rest = text.skip(1);
        assert forall|j: int| 0 <= j < at - 1 implies !is_white_space(rest[j]) by {
            assert(rest[j] == text[j + 1]);
        }
        lemma_word_len(rest, at - 1);
    }
}

/// Trimming never makes a text longer, and where anything is left, it starts with a word.
pub proof fn trimmed_start_has_a_word(text: Seq<char>)
    ensures
        trimmed_start(text).len() <= text.len(),
        0 <= word_len(trimmed_start(text)) <= trimmed_start(text).len(),
        trimmed_start(text).len() > 0 ==> word_len(trimmed_start(text)) > 0,
    decreases text.len(),
{
    if text.len() > 0 && is_white_space(text[0]) {
        trimmed_start_has_a_word(text.skip(1));
    } else {
        word_len_bounds(text);
        if text.len() > 0 {
            word_len_bounds(text.skip(1));
        }
    }
}

/// A word is no longer than its text.
pub proof fn word_len_bounds(text: Seq<char>)
    ensures
        0 <= word_len(text) <= text.len(),
    decreases text.len(),
{
    if text.len() > 0 && !is_white_space(text[0]) {
        word_len_bounds(text.skip(1));
    }
}

/// The pieces of `text` between white space.
pub open spec fn words(text: Seq<char>) -> Seq<Seq<char>>
    decreases text.len(),
{
    let rest = trimmed_start(text);
    if rest.len() == 0 {
        Seq::empty()
    } else {
        proof {
            trimmed_start_has_a_word(text);
        }
        seq![rest.take(word_len(rest))] + words(rest.skip(word_len(rest)))
    }
}

pub open spec fn texts_view(texts: Seq<String>) -> Seq<Seq<char>> {
    texts.map_values(|text: String| text@)
}

pub fn split_whitespace(text: &str) -> (parts: Vec<String>)
    ensures
        texts_view(parts@) == words(text@),
{
    let chars: Vec<char> = chars_of(text);
    let mut parts: Vec<String> = Vec::new();
    let mut i: usize = 0;
    proof {
        assert(text@.skip(0) =~= text@);
        assert(texts_view(parts@) + words(text@) =~= words(text@));
    }
    while i < chars.len()
        invariant
            chars@ == text@,
            i <= chars@.len(),
            texts_view(parts@) + words(text@.skip(i as int)) == words(text@),
        decreases chars@.len() - i,
    {
        let ghost from = text@.skip(i as int);
        let mut start: usize = i;
        while start < chars.len() && white_space(chars[start])
            invariant
                chars@ == text@,
                i <= start <= chars@.len(),
                forall|j: int| i <= j < start ==> is_white_space(text@[j]),
            decreases chars@.len() - start,
        {
            start = start + 1;
        }
        proof {
            assert forall|j: int| 0 <= j < start - i implies is_white_space(from[j]) by {
                assert(from[j] == text@[i + j]);
            }
            lemma_trimmed_start(from, start - i);
            assert(from.skip(start - i) =~= text@.skip(start as int));
        }
        if start == chars.len() {
            proof {
                assert(words(from) =~= Seq::<Seq<char>>::empty());
                assert(texts_view(parts@) + words(from) =~= texts_view(parts@));
            }
            return parts;
        }
        let mut end: usize = start;
        while end < chars.len() && !white_space(chars[end])
            invariant
                chars@ == text@,
                start <= end <= chars@.len(),
                forall|j: int| start <= j < end ==> !is_white_space(text@[j]),
            decreases chars@.len() - end,
        {
            end = end + 1;
        }
        let part: String = text_between(text, start, end);
        let ghost before = parts@;
        parts.push(part);
        proof {
            let rest = text@.skip(start as int);
            assert forall|j: int| 0 <= j < end - start implies !is_white_space(rest[j]) by {
                assert(rest[j] == text@[start + j]);
            }
            lemma_word_len(rest, end - start);
            assert(rest.take(end - start) =~= part@);
            assert(rest.skip(end - start) =~= text@.skip(end as int));
            assert(words(from) == seq![part@] + words(text@.skip(end as int)));
            assert(texts_view(parts@) =~= texts_view(before).push(part@));
            assert(texts_view(parts@) + words(text@.skip(end as int)) =~= texts_view(before)
                + words(from));
        }
        i = end;
    }
    proof {
        assert(text@.skip(i as int) =~= Seq::<char>::empty());
        assert(texts_view(parts@) + words(Seq::empty()) =~= texts_view(parts@));
    }
    parts
}

/// A line without the carriage return that ends it.
pub open spec fn without_return(line: Seq<char>) -> Seq<char> {
    if line.len() > 0 && line.last() == '\r' {
        line.drop_last()
    } else {
        line
    }
}

/// The lines of `text`. A line ends with a line feed, or a carriage return and a line feed; the
/// last one need not.
pub open spec fn lines_of(text: Seq<char>) -> Seq<Seq<char>>
    decreases text.len(),
{
    let at = first_at(text, '\n');
    if text.len() == 0 {
        Seq::empty()
    } else if 0 <= at < text.len() {
        seq![without_return(text.take(at))] + lines_of(text.skip(at + 1))
    } else {
        seq![text]
    }
}

pub fn lines(text: &str) -> (parts: Vec<String>)
    ensures
        texts_view(parts@) == lines_of(text@),
{
    let chars: Vec<char> = chars_of(text);
    let mut parts: Vec<String> = Vec::new();
    let mut start: usize = 0;
    proof {
        assert(text@.skip(0) =~= text@);
        assert(texts_view(parts@) + lines_of(text@) =~= lines_of(text@));
    }
    while start < chars.len()
        invariant
            chars@ == text@,
            start <= chars@.len(),
            texts_view(parts@) + lines_of(text@.skip(start as int)) == lines_of(text@),
        decreases chars@.len() - start,
    {
        let ghost from = text@.skip(start as int);
        let mut end: usize = start;
        while end < chars.len() && chars[end] != '\n'
            invariant
                chars@ == text@,
                start <= end <= chars@.len(),
                forall|j: int| start <= j < end ==> text@[j] != '\n',
            decreases chars@.len() - end,
        {
            end = end + 1;
        }
        proof {
            assert forall|j: int| 0 <= j < end - start implies from[j] != '\n' by {
                assert(from[j] == text@[start + j]);
            }
            if end < text@.len() {
                assert(from[end - start] == text@[end as int]);
            }
            first_at_is(from, '\n', end - start);
        }
        let stop: usize = if end < chars.len() && end > start && chars[end - 1] == '\r' {
            end - 1
        } else {
            end
        };
        let part: String = text_between(text, start, stop);
        let ghost before = parts@;
        parts.push(part);
        let next: usize = if end < chars.len() {
            end + 1
        } else {
            end
        };
        proof {
            assert(texts_view(parts@) =~= texts_view(before).push(part@));
            if end < text@.len() {
                let line = from.take(end - start);
                if line.len() > 0 {
                    assert(line.last() == text@[end - 1]);
                }
                assert(without_return(line) =~= part@);
                assert(from.skip(end - start + 1) =~= text@.skip(next as int));
            } else {
                assert(from =~= part@);
                assert(text@.skip(next as int) =~= Seq::<char>::empty());
            }
            assert(lines_of(from) =~= seq![part@] + lines_of(text@.skip(next as int)));
            assert(texts_view(parts@) + lines_of(text@.skip(next as int)) =~= texts_view(before)
                + lines_of(from));
        }
        start = next;
    }
    proof {
        assert(text@.skip(start as int) =~= Seq::<char>::empty());
        assert(texts_view(parts@) + lines_of(Seq::empty()) =~= texts_view(parts@));
    }
    parts
}

/// An ASCII letter in upper case; any other character as it is.
pub open spec fn upper_char(c: char) -> char {
    if 'a' <= c <= 'z' {
        ((c as u32) - 32) as char
    } else {
        c
    }
}

/// An ASCII letter in lower case; any other character as it is.
pub open spec fn lower_char(c: char) -> char {
    if 'A' <= c <= 'Z' {
        ((c as u32) + 32) as char
    } else {
        c
    }
}

pub open spec fn lowered(text: Seq<char>) -> Seq<char> {
    text.map_values(|c: char| lower_char(c))
}

pub open spec fn uppered(text: Seq<char>) -> Seq<char> {
    text.map_values(|c: char| upper_char(c))
}

fn to_upper_char(c: char) -> (upper: char)
    ensures
        upper == upper_char(c),
{
    if 'a' <= c && c <= 'z' {
        (c as u8 - 32) as char
    } else {
        c
    }
}

fn to_lower_char(c: char) -> (lower: char)
    ensures
        lower == lower_char(c),
{
    if 'A' <= c && c <= 'Z' {
        (c as u8 + 32) as char
    } else {
        c
    }
}

/// The characters of `text` with its ASCII letters in upper case.
pub fn upper_chars(text: &str) -> (upper: Vec<char>)
    ensures
        upper@ == uppered(text@),
{
    let chars: Vec<char> = chars_of(text);
    let mut upper: Vec<char> = Vec::new();
    let mut i: usize = 0;
    while i < chars.len()
        invariant
            chars@ == text@,
            i <= chars@.len(),
            upper@ == uppered(text@.take(i as int)),
        decreases chars@.len() - i,
    {
        upper.push(to_upper_char(chars[i]));
        proof {
            assert(upper@ =~= uppered(text@.take(i + 1)));
        }
        i = i + 1;
    }
    proof {
        assert(text@.take(i as int) =~= text@);
    }
    upper
}

/// The characters of `text` with its ASCII letters in lower case.
pub fn lower_chars(text: &str) -> (lower: Vec<char>)
    ensures
        lower@ == lowered(text@),
{
    let chars: Vec<char> = chars_of(text);
    let mut lower: Vec<char> = Vec::new();
    let mut i: usize = 0;
    while i < chars.len()
        invariant
            chars@ == text@,
            i <= chars@.len(),
            lower@ == lowered(text@.take(i as int)),
        decreases chars@.len() - i,
    {
        lower.push(to_lower_char(chars[i]));
        proof {
            assert(lower@ =~= lowered(text@.take(i + 1)));
        }
        i = i + 1;
    }
    proof {
        assert(text@.take(i as int) =~= text@);
    }
    lower
}

/// Whether the characters of `part` stand in `chars` from `at` on.
pub open spec fn stands_at(chars: Seq<char>, part: Seq<char>, at: int) -> bool {
    0 <= at && at + part.len() <= chars.len() && chars.subrange(at, at + part.len()) == part
}

/// Whether the characters of `part` stand in `chars` from `at` on.
pub fn has_at(chars: &[char], part: &str, at: usize) -> (found: bool)
    ensures
        found == stands_at(chars@, part@, at as int),
{
    let wanted: Vec<char> = chars_of(part);
    if at > chars.len() || chars.len() - at < wanted.len() {
        return false;
    }
    let len: usize = chars.len();
    let mut i: usize = 0;
    while i < wanted.len()
        invariant
            wanted@ == part@,
            i <= wanted@.len(),
            at + wanted@.len() <= len,
            len == chars@.len(),
            forall|j: int| 0 <= j < i ==> chars@[at + j] == part@[j],
        decreases wanted@.len() - i,
    {
        if chars[at + i] != wanted[i] {
            proof {
                assert(chars@.subrange(at as int, at + part@.len())[i as int] != part@[i as int]);
            }
            return false;
        }
        i = i + 1;
    }
    proof {
        assert(chars@.subrange(at as int, at + part@.len()) =~= part@);
    }
    true
}

/// Whether `chars` are the characters of `text`.
pub fn same_chars(chars: &[char], text: &str) -> (same: bool)
    ensures
        same == (chars@ == text@),
{
    proof {
        assert(chars@.subrange(0, chars@.len() as int) =~= chars@);
    }
    chars.len() == text.unicode_len() && has_at(chars, text, 0)
}

/// Whether the characters of `part` stand anywhere in `chars`.
pub open spec fn has_part(chars: Seq<char>, part: Seq<char>) -> bool {
    exists|at: int| #[trigger] stands_at(chars, part, at)
}

pub fn contains(chars: &[char], part: &str) -> (found: bool)
    ensures
        found == has_part(chars@, part@),
{
    let mut at: usize = 0;
    while at < chars.len()
        invariant
            at <= chars@.len(),
            forall|k: int| 0 <= k < at ==> !#[trigger] stands_at(chars@, part@, k),
        decreases chars@.len() - at,
    {
        if has_at(chars, part, at) {
            return true;
        }
        at = at + 1;
    }
    let found: bool = has_at(chars, part, at);
    proof {
        if !found {
            assert forall|k: int| !#[trigger] stands_at(chars@, part@, k) by {
                if k >= 0 && k > at {
                }
            }
        }
    }
    found
}

/// `text` without the `c`s behind.
pub open spec fn without_trailing(text: Seq<char>, c: char) -> Seq<char>
    decreases text.len(),
{
    if text.len() > 0 && text.last() == c {
        without_trailing(text.drop_last(), c)
    } else {
        text
    }
}

/// Exactly the `c`s behind go.
pub proof fn lemma_without_trailing(text: Seq<char>, c: char, end: int)
    requires
        0 <= end <= text.len(),
        forall|j: int| end <= j < text.len() ==> text[j] == c,
        end > 0 ==> text[end - 1] != c,
    ensures
        without_trailing(text, c) == text.take(end),
    decreases text.len(),
{
    if end < text.len() {
        assert(text.last() == text[text.len() - 1]);
        lemma_without_trailing(text.drop_last(), c, end);
        assert(text.drop_last().take(end) =~= text.take(end));
    } else {
        assert(text.take(end) =~= text);
    }
}

pub fn trim_end_matches(text: &str, c: char) -> (inner: String)
    ensures
        inner@ == without_trailing(text@, c),
{
    let chars: Vec<char> = chars_of(text);
    let mut end: usize = chars.len();
    while end > 0 && chars[end - 1] == c
        invariant
            chars@ == text@,
            end <= chars@.len(),
            forall|j: int| end <= j < text@.len() ==> text@[j] == c,
        decreases end,
    {
        end = end - 1;
    }
    let inner: String = text_between(text, 0, end);
    proof {
        lemma_without_trailing(text@, c, end as int);
        assert(inner@ =~= text@.take(end as int));
    }
    inner
}

/// `text` without the ends of lines behind.
pub open spec fn without_line_ends(text: Seq<char>) -> Seq<char>
    decreases text.len(),
{
    if text.len() > 0 && (text.last() == '\r' || text.last() == '\n') {
        without_line_ends(text.drop_last())
    } else {
        text
    }
}

/// Exactly the ends of lines behind go.
pub proof fn lemma_without_line_ends(text: Seq<char>, end: int)
    requires
        0 <= end <= text.len(),
        forall|j: int| end <= j < text.len() ==> text[j] == '\r' || text[j] == '\n',
        end > 0 ==> text[end - 1] != '\r' && text[end - 1] != '\n',
    ensures
        without_line_ends(text) == text.take(end),
    decreases text.len(),
{
    if end < text.len() {
        assert(text.last() == text[text.len() - 1]);
        lemma_without_line_ends(text.drop_last(), end);
        assert(text.drop_last().take(end) =~= text.take(end));
    } else {
        assert(text.take(end) =~= text);
    }
}

pub fn trim_line_ends(text: &str) -> (inner: String)
    ensures
        inner@ == without_line_ends(text@),
{
    let chars: Vec<char> = chars_of(text);
    let mut end: usize = chars.len();
    while end > 0 && (chars[end - 1] == '\r' || chars[end - 1] == '\n')
        invariant
            chars@ == text@,
            end <= chars@.len(),
            forall|j: int| end <= j < text@.len() ==> text@[j] == '\r' || text@[j] == '\n',
        decreases end,
    {
        end = end - 1;
    }
    let inner: String = text_between(text, 0, end);
    proof {
        lemma_without_line_ends(text@, end as int);
        assert(inner@ =~= text@.take(end as int));
    }
    inner
}

/// Texts one after the other, with `between` in between.
pub open spec fn joined_with(texts: Seq<Seq<char>>, between: Seq<char>) -> Seq<char>
    decreases texts.len(),
{
    if texts.len() == 0 {
        Seq::empty()
    } else if texts.len() == 1 {
        texts[0]
    } else {
        joined_with(texts.drop_last(), between) + between + texts.last()
    }
}

pub fn join_texts(texts: &[String], between: &str) -> (text: String)
    ensures
        text@ == joined_with(texts_view(texts@), between@),
{
    proof {
        reveal_strlit("");
    }
    let mut text: String = "".to_owned();
    let ghost all = texts_view(texts@);
    let mut i: usize = 0;
    proof {
        assert(all.take(0) =~= Seq::<Seq<char>>::empty());
        assert(text@ =~= joined_with(all.take(0), between@));
    }
    while i < texts.len()
        invariant
            i <= texts@.len(),
            all == texts_view(texts@),
            text@ == joined_with(all.take(i as int), between@),
        decreases texts@.len() - i,
    {
        let ghost before = text@;
        if i > 0 {
            text.append(between);
        }
        text.append(texts[i].as_str());
        proof {
            let next = all.take(i + 1);
            assert(next.drop_last() =~= all.take(i as int));
            assert(next.last() == texts@[i as int]@);
            if i == 0 {
                assert(before =~= Seq::<char>::empty());
                assert(text@ =~= next[0]);
            }
            assert(text@ =~= joined_with(next, between@));
        }
        i = i + 1;
    }
    proof {
        assert(all.take(i as int) =~= all);
    }
    text
}

/// The decimal digit of a number below ten.
pub open spec fn digit(value: nat) -> char {
    if value == 0 {
        '0'
    } else if value == 1 {
        '1'
    } else if value == 2 {
        '2'
    } else if value == 3 {
        '3'
    } else if value == 4 {
        '4'
    } else if value == 5 {
        '5'
    } else if value == 6 {
        '6'
    } else if value == 7 {
        '7'
    } else if value == 8 {
        '8'
    } else {
        '9'
    }
}

/// A number in decimal digits.
pub open spec fn decimal_digits(value: nat) -> Seq<char>
    decreases value,
{
    if value < 10 {
        seq![digit(value)]
    } else {
        decimal_digits(value / 10).push(digit(value % 10))
    }
}

/// A number in decimal digits.
pub fn decimal(value: u64) -> (text: String)
    ensures
        text@ == decimal_digits(value as nat),
    decreases value,
{
    let last: &str = match value % 10 {
        0 => "0",
        1 => "1",
        2 => "2",
        3 => "3",
        4 => "4",
        5 => "5",
        6 => "6",
        7 => "7",
        8 => "8",
        _ => "9",
    };
    proof {
        reveal_strlit("0");
        reveal_strlit("1");
        reveal_strlit("2");
        reveal_strlit("3");
        reveal_strlit("4");
        reveal_strlit("5");
        reveal_strlit("6");
        reveal_strlit("7");
        reveal_strlit("8");
        reveal_strlit("9");
        assert(last@ =~= seq![digit((value % 10) as nat)]);
    }
    if value < 10 {
        last.to_owned()
    } else {
        let text: String = joined(decimal(value / 10).as_str(), last);
        proof {
            assert(text@ =~= decimal_digits(value as nat));
        }
        text
    }
}

/// Bytes as text, where they are UTF-8: `String::from_utf8`. It succeeds exactly on valid UTF-8
/// and yields the characters that the bytes encode.
#[verifier::external_body]
pub(crate) fn utf8_text(bytes: Vec<u8>) -> (text: Option<String>)
    ensures
        match text {
            Some(text) => valid_utf8(bytes@) && text@ == decode_utf8(bytes@),
            None => !valid_utf8(bytes@),
        },
{
    String::from_utf8(bytes).ok()
}

/// What `String::from_utf8_lossy` makes of bytes that are not UTF-8.
pub uninterp spec fn replaced_text(bytes: Seq<u8>) -> Seq<char>;

/// Bytes as text, with a replacement character in place of what is not UTF-8.
pub open spec fn lossy(bytes: Seq<u8>) -> Seq<char> {
    if valid_utf8(bytes) {
        decode_utf8(bytes)
    } else {
        replaced_text(bytes)
    }
}

/// `String::from_utf8_lossy`: what the bytes encode where they are UTF-8; its result on other bytes
/// is named.
#[verifier::external_body]
pub(crate) fn lossy_text(bytes: &[u8]) -> (text: String)
    ensures
        text@ == if valid_utf8(bytes@) {
            decode_utf8(bytes@)
        } else {
            replaced_text(bytes@)
        },
{
    String::from_utf8_lossy(bytes).into_owned()
}

/// A text is cut at the first `c`: what is before it holds none.
pub proof fn text_is_cut_at_the_first(before: Seq<char>, c: char, after: Seq<char>)
    requires
        !before.contains(c),
    ensures
        split_once_at(before + seq![c] + after, c) == Some((before, after)),
        split_once_at(before, c) is None,
{
    let text = before + seq![c] + after;
    assert forall|j: int| 0 <= j < before.len() implies text[j] != c && before[j] != c by {
        assert(text[j] == before[j]);
        assert(before.contains(before[j]));
    }
    assert(text[before.len() as int] == c);
    first_at_is(text, c, before.len() as int);
    first_at_is(before, c, before.len() as int);
    assert(text.take(before.len() as int) =~= before);
    assert(text.skip(before.len() as int + 1) =~= after);
}

/// A text is cut at the last `c`: what is behind it holds none.
pub proof fn text_is_cut_at_the_last(before: Seq<char>, c: char, after: Seq<char>)
    requires
        !after.contains(c),
    ensures
        rsplit_once_at(before + seq![c] + after, c) == Some((before, after)),
        rsplit_once_at(after, c) is None,
{
    let text = before + seq![c] + after;
    assert forall|j: int| before.len() < j < text.len() implies text[j] != c by {
        assert(text[j] == after[j - before.len() - 1]);
        assert(after.contains(after[j - before.len() - 1]));
    }
    assert(text[before.len() as int] == c);
    last_at_is(text, c, before.len() as int);
    assert forall|j: int| 0 <= j < after.len() implies after[j] != c by {
        assert(after.contains(after[j]));
    }
    last_at_is(after, c, -1);
    assert(text.take(before.len() as int) =~= before);
    assert(text.skip(before.len() as int + 1) =~= after);
}

/// The blank, the tab and the characters that end lines are white space, and so are the blanks of
/// other widths and the separators beyond ASCII; letters, digits and the other signs of ASCII are
/// not, nor is any other character.
pub proof fn blanks_are_white_space(c: char)
    ensures
        is_white_space(c) <==> {
            let code = c as u32;
            ||| 9 <= code <= 13
            ||| code == 32
            ||| code == 133
            ||| code == 160
            ||| code == 5760
            ||| 8192 <= code <= 8202
            ||| 8232 <= code <= 8233
            ||| code == 8239
            ||| code == 8287
            ||| code == 12288
        },
        c == ' ' || c == '\t' || c == '\n' || c == '\r' ==> is_white_space(c),
        '!' <= c <= '~' ==> !is_white_space(c),
{
}

/// Trimming takes the white space around a text, and nothing else.
pub proof fn white_space_around_goes(before: Seq<char>, inner: Seq<char>, after: Seq<char>)
    requires
        forall|i: int| 0 <= i < before.len() ==> is_white_space(#[trigger] before[i]),
        forall|i: int| 0 <= i < after.len() ==> is_white_space(#[trigger] after[i]),
        inner.len() > 0,
        !is_white_space(inner[0]),
        !is_white_space(inner.last()),
    ensures
        trimmed(before + inner + after) == inner,
{
    let text = before + inner + after;
    assert forall|j: int| 0 <= j < before.len() implies is_white_space(text[j]) by {
        assert(text[j] == before[j]);
    }
    assert(text[before.len() as int] == inner[0]);
    lemma_trimmed_start(text, before.len() as int);
    let rest = text.skip(before.len() as int);
    assert(rest =~= inner + after);
    assert forall|j: int| inner.len() <= j < rest.len() implies is_white_space(rest[j]) by {
        assert(rest[j] == after[j - inner.len()]);
    }
    assert(rest[inner.len() - 1] == inner.last());
    lemma_trimmed_end(rest, inner.len() as int);
    assert(rest.take(inner.len() as int) =~= inner);
}

/// Of a text of white space nothing is left.
pub proof fn white_space_goes_entirely(text: Seq<char>)
    requires
        forall|i: int| 0 <= i < text.len() ==> is_white_space(#[trigger] text[i]),
    ensures
        trimmed(text) == Seq::<char>::empty(),
        words(text) == Seq::<Seq<char>>::empty(),
{
    lemma_trimmed_start(text, text.len() as int);
    assert(text.skip(text.len() as int) =~= Seq::<char>::empty());
    lemma_trimmed_end(Seq::empty(), 0);
    assert(Seq::<char>::empty().take(0) =~= Seq::<char>::empty());
}

/// A word ends at white space, and the words behind it follow.
pub proof fn first_word_ends_at_white_space(
    before: Seq<char>,
    word: Seq<char>,
    blank: char,
    rest: Seq<char>,
)
    requires
        forall|i: int| 0 <= i < before.len() ==> is_white_space(#[trigger] before[i]),
        word.len() > 0,
        forall|i: int| 0 <= i < word.len() ==> !is_white_space(#[trigger] word[i]),
        is_white_space(blank),
    ensures
        words(before + word + seq![blank] + rest) == seq![word] + words(rest),
        words(before + word) == seq![word],
{
    let text = before + word + seq![blank] + rest;
    assert forall|j: int| 0 <= j < before.len() implies is_white_space(text[j]) by {
        assert(text[j] == before[j]);
    }
    assert(text[before.len() as int] == word[0]);
    lemma_trimmed_start(text, before.len() as int);
    let from = text.skip(before.len() as int);
    assert(from =~= word + seq![blank] + rest);
    assert forall|j: int| 0 <= j < word.len() implies !is_white_space(from[j]) by {
        assert(from[j] == word[j]);
    }
    assert(from[word.len() as int] == blank);
    lemma_word_len(from, word.len() as int);
    assert(from.take(word.len() as int) =~= word);
    let behind = from.skip(word.len() as int);
    assert(behind =~= seq![blank] + rest);
    assert(trimmed_start(behind) == trimmed_start(rest)) by {
        assert(behind[0] == blank);
        assert(behind.skip(1) =~= rest);
    }
    assert(words(behind) == words(rest));
    let alone = before + word;
    assert forall|j: int| 0 <= j < before.len() implies is_white_space(alone[j]) by {
        assert(alone[j] == before[j]);
    }
    assert(alone[before.len() as int] == word[0]);
    lemma_trimmed_start(alone, before.len() as int);
    assert(alone.skip(before.len() as int) =~= word);
    lemma_word_len(word, word.len() as int);
    assert(word.take(word.len() as int) =~= word);
    assert(word.skip(word.len() as int) =~= Seq::<char>::empty());
    white_space_goes_entirely(Seq::empty());
    assert(seq![word] + Seq::<Seq<char>>::empty() =~= seq![word]);
}

/// A line ends at a line feed, with a carriage return before it or not, and the lines behind it
/// follow; the last needs no end.
pub proof fn first_line_ends_at_its_end(line: Seq<char>, rest: Seq<char>)
    requires
        !line.contains('\n'),
        line.len() > 0 ==> line.last() != '\r',
    ensures
        lines_of(line + seq!['\n'] + rest) == seq![line] + lines_of(rest),
        lines_of(line + seq!['\r', '\n'] + rest) == seq![line] + lines_of(rest),
        line.len() > 0 ==> lines_of(line) == seq![line],
        lines_of(Seq::empty()) == Seq::<Seq<char>>::empty(),
{
    let text = line + seq!['\n'] + rest;
    assert forall|j: int| 0 <= j < line.len() implies text[j] != '\n' && line[j] != '\n' by {
        assert(text[j] == line[j]);
        assert(line.contains(line[j]));
    }
    assert(text[line.len() as int] == '\n');
    first_at_is(text, '\n', line.len() as int);
    assert(text.take(line.len() as int) =~= line);
    assert(text.skip(line.len() as int + 1) =~= rest);
    let text = line + seq!['\r', '\n'] + rest;
    let at = line.len() as int + 1;
    assert forall|j: int| 0 <= j < at implies text[j] != '\n' by {
        if j < line.len() {
            assert(text[j] == line[j]);
            assert(line.contains(line[j]));
        }
    }
    assert(text[at] == '\n');
    first_at_is(text, '\n', at);
    assert(text.take(at) =~= line.push('\r'));
    assert(line.push('\r').drop_last() =~= line);
    assert(text.skip(at + 1) =~= rest);
    first_at_is(line, '\n', line.len() as int);
}

/// Letters of ASCII have their counterparts in the other case, 32 places away, and every other
/// character is its own.
pub proof fn letters_have_two_cases(c: char)
    ensures
        'a' <= c <= 'z' ==> upper_char(c) as u32 == c as u32 - 32 && lower_char(c) == c,
        'A' <= c <= 'Z' ==> lower_char(c) as u32 == c as u32 + 32 && upper_char(c) == c,
        !('a' <= c <= 'z') && !('A' <= c <= 'Z') ==> upper_char(c) == c && lower_char(c) == c,
{
}

/// Changing the case of a text changes the case of each character, in its place.
pub proof fn each_character_changes_its_case(text: Seq<char>, i: int)
    requires
        0 <= i < text.len(),
    ensures
        uppered(text).len() == text.len(),
        lowered(text).len() == text.len(),
        uppered(text)[i] == upper_char(text[i]),
        lowered(text)[i] == lower_char(text[i]),
{
}

/// Texts are put together one by one, with the same text in between.
pub proof fn one_more_text_is_put_behind(
    texts: Seq<Seq<char>>,
    text: Seq<char>,
    between: Seq<char>,
)
    ensures
        texts.len() > 0 ==> joined_with(texts.push(text), between) == joined_with(texts, between)
            + between + text,
        joined_with(seq![text], between) == text,
        joined_with(Seq::empty(), between) == Seq::<char>::empty(),
{
    assert(texts.push(text).drop_last() =~= texts);
    assert(texts.push(text).last() == text);
}

/// The number that decimal digits stand for.
pub open spec fn number_of(digits: Seq<char>) -> int
    decreases digits.len(),
{
    if digits.len() == 0 {
        0
    } else {
        number_of(digits.drop_last()) * 10 + (digits.last() as int - '0' as int)
    }
}

/// The digits of a number stand for it, and do not start with a zero but for zero itself.
pub proof fn digits_stand_for_the_number(value: nat)
    ensures
        number_of(decimal_digits(value)) == value,
        decimal_digits(value).len() > 0,
        forall|i: int|
            0 <= i < decimal_digits(value).len() ==> '0' <= #[trigger] decimal_digits(value)[i]
                <= '9',
        value > 0 ==> decimal_digits(value)[0] != '0',
    decreases value,
{
    let digits = decimal_digits(value);
    if value < 10 {
        assert(digits.drop_last() =~= Seq::<char>::empty());
        assert(number_of(Seq::<char>::empty()) == 0);
        assert(digits.last() as int - '0' as int == value);
    } else {
        digits_stand_for_the_number(value / 10);
        assert(digits.drop_last() =~= decimal_digits(value / 10));
        assert(digits.last() as int - '0' as int == value % 10);
        let front = decimal_digits(value / 10);
        assert forall|i: int| 0 <= i < digits.len() implies '0' <= #[trigger] digits[i] <= '9' by {
            if i < front.len() {
                assert(digits[i] == front[i]);
            }
        }
        assert(digits[0] == front[0]);
    }
}

/// Text that is written as bytes is read back from them.
pub proof fn encoded_text_is_read_back(text: Seq<char>)
    ensures
        lossy(vstd::utf8::encode_utf8(text)) == text,
{
    vstd::utf8::encode_utf8_valid_utf8(text);
    encode_utf8_decode_utf8(text);
}

/// A text holds each of its parts.
pub proof fn text_holds_its_parts(before: Seq<char>, part: Seq<char>, after: Seq<char>)
    ensures
        has_part(before + part + after, part),
        stands_at(before + part + after, part, before.len() as int),
{
    let text = before + part + after;
    assert(text.subrange(before.len() as int, (before.len() + part.len()) as int) =~= part);
    assert(stands_at(text, part, before.len() as int));
}

/// What stands in a text is a part of it, and the text is what is before it, the part, and what is
/// behind it.
pub proof fn part_stands_between_the_rest(text: Seq<char>, part: Seq<char>)
    requires
        has_part(text, part),
    ensures
        exists|before: Seq<char>, after: Seq<char>| text == #[trigger] (before + part + after),
{
    let at = choose|at: int| #[trigger] stands_at(text, part, at);
    let before = text.take(at);
    let after = text.skip(at + part.len());
    assert(text =~= before + part + after);
}

} // verus!
