//! Small helpers on strings.

use vstd::prelude::*;

verus! {

/// The characters of each string of a list.
pub open spec fn texts(list: Seq<String>) -> Seq<Seq<char>> {
    Seq::new(list.len(), |i: int| list[i]@)
}

/// Appending a string to a list appends its characters to the list's texts.
pub proof fn lemma_texts_push(list: Seq<String>, last: String)
    ensures
        texts(list.push(last)) == texts(list).push(last@),
{
    assert(texts(list.push(last)) =~= texts(list).push(last@));
}

/// `String::push`: the character is appended at the end, the rest is kept.
#[verifier::external_body]
pub(crate) fn push_char(text: &mut String, c: char)
    ensures
        final(text)@ == old(text)@.push(c),
{
    text.push(c)
}

/// Whether a character is whitespace, as `char::is_whitespace` tells.
pub uninterp spec fn is_whitespace(c: char) -> bool;

/// `char::is_whitespace`: whether the character has the Unicode property
/// `White_Space`.
#[verifier::external_body]
pub(crate) fn whitespace(c: char) -> (white: bool)
    ensures
        white == is_whitespace(c),
{
    c.is_whitespace()
}

/// The number of whitespace characters that `line` begins with.
pub open spec fn leading(line: Seq<char>) -> nat
    decreases line.len(),
{
    if line.len() > 0 && is_whitespace(line[0]) {
        1 + leading(line.drop_first())
    } else {
        0
    }
}

/// The length of `line` without the whitespace that it ends with.
pub open spec fn trailing(line: Seq<char>) -> nat
    decreases line.len(),
{
    if line.len() > 0 && is_whitespace(line.last()) {
        trailing(line.drop_last())
    } else {
        line.len()
    }
}

/// A line without the whitespace at its two ends.
pub open spec fn trimmed(line: Seq<char>) -> Seq<char> {
    if leading(line) < trailing(line) {
        line.subrange(leading(line) as int, trailing(line) as int)
    } else {
        Seq::empty()
    }
}

/// Where the leading whitespace ends: all before `at` is whitespace, and the
/// character at `at`, if there is one, is not.
pub proof fn lemma_leading(line: Seq<char>, at: int)
    requires
        0 <= at <= line.len(),
        forall|i: int| 0 <= i < at ==> is_whitespace(line[i]),
        at < line.len() ==> !is_whitespace(line[at]),
    ensures
        leading(line) == at,
    decreases line.len(),
{
    if at > 0 {
        let rest = line.drop_first();
        assert forall|i: int| 0 <= i < at - 1 implies is_whitespace(rest[i]) by {
            assert(rest[i] == line[i + 1]);
        }
        lemma_leading(rest, at - 1);
    }
}

/// Where the trailing whitespace begins: all from `at` on is whitespace, and
/// the character before `at`, if there is one, is not.
pub proof fn lemma_trailing(line: Seq<char>, at: int)
    requires
        0 <= at <= line.len(),
        forall|i: int| at <= i < line.len() ==> is_whitespace(line[i]),
        at > 0 ==> !is_whitespace(line[at - 1]),
    ensures
        trailing(line) == at,
    decreases line.len(),
{
    if at < line.len() {
        lemma_trailing(line.drop_last(), at);
    }
}

/// The whitespace at the two ends of a line, and what stands next to it.
pub proof fn lemma_ends(line: Seq<char>)
    ensures
        leading(line) <= line.len(),
        trailing(line) <= line.len(),
        forall|i: int| 0 <= i < leading(line) ==> is_whitespace(line[i]),
        forall|i: int| trailing(line) <= i < line.len() ==> is_whitespace(line[i]),
        leading(line) < line.len() ==> !is_whitespace(line[leading(line) as int]),
        trailing(line) > 0 ==> !is_whitespace(line[trailing(line) - 1]),
    decreases line.len(),
{
    if line.len() > 0 {
        let rest = line.drop_first();
        let front = line.drop_last();
        lemma_ends(rest);
        lemma_ends(front);
        if is_whitespace(line[0]) {
            assert forall|i: int| 0 <= i < leading(line) implies is_whitespace(line[i]) by {
                if i > 0 {
                    assert(rest[i - 1] == line[i]);
                }
            }
            if leading(line) < line.len() {
                assert(rest[leading(rest) as int] == line[leading(line) as int]);
            }
        }
        if is_whitespace(line.last()) {
            assert forall|i: int| trailing(line) <= i < line.len() implies is_whitespace(
                line[i],
            ) by {
                if i < line.len() - 1 {
                    assert(front[i] == line[i]);
                }
            }
            if trailing(line) > 0 {
                assert(front[trailing(front) - 1] == line[trailing(line) - 1]);
            }
        }
    }
}

/// What is trimmed has nothing left to trim.
pub proof fn lemma_trimmed_twice(line: Seq<char>)
    ensures
        trimmed(trimmed(line)) == trimmed(line),
{
    lemma_ends(line);
    let inner = trimmed(line);
    if leading(line) < trailing(line) {
        lemma_leading(inner, 0);
        lemma_trailing(inner, inner.len() as int);
        assert(inner.subrange(0, inner.len() as int) =~= inner);
    } else {
        assert(trimmed(inner) =~= inner);
    }
}

/// The line without the whitespace at its two ends.
pub fn trim(line: &str) -> (inner: &str)
    ensures
        inner@ == trimmed(line@),
{
    let length: usize = line.unicode_len();
    let mut start: usize = 0;
    let mut end: usize = 0;
    let mut index: usize = 0;
    for c in chars: line.chars()
        invariant
            chars.seq() == line@,
            length == line@.len(),
            index == chars.index(),
            start <= index,
            end <= index,
            forall|i: int| 0 <= i < start ==> is_whitespace(line@[i]),
            forall|i: int| end <= i < index ==> is_whitespace(line@[i]),
            start < index ==> !is_whitespace(line@[start as int]),
            end > 0 ==> !is_whitespace(line@[end - 1]),
            end == 0 ==> start == index,
    {
        if whitespace(c) {
            if end == 0 {
                start = index + 1;
            }
        } else {
            end = index + 1;
        }
        index = index + 1;
    }
    proof {
        lemma_leading(line@, start as int);
        lemma_trailing(line@, end as int);
    }
    if start < end {
        line.substring_char(start, end)
    } else {
        let inner = line.substring_char(0, 0);
        assert(inner@ =~= Seq::<char>::empty());
        inner
    }
}

/// Whether `text` holds exactly the characters of `word`.
pub(crate) fn is_word(text: &String, word: &str) -> (same: bool)
    ensures
        same == (text@ == word@),
{
    *text == String::from_str(word)
}

/// `count` spaces.
pub open spec fn spaces(count: nat) -> Seq<char> {
    Seq::new(count, |i: int| ' ')
}

/// `text`, filled up with spaces on the right to `width` characters. A text
/// that is as long or longer is kept as it is.
pub open spec fn padded(text: Seq<char>, width: nat) -> Seq<char> {
    if text.len() >= width {
        text
    } else {
        text + spaces((width - text.len()) as nat)
    }
}

/// The number of bytes that `text` takes in UTF-8.
pub open spec fn byte_len(text: Seq<char>) -> nat {
    vstd::utf8::encode_utf8(text).len()
}

/// A text has at least as many bytes as characters.
pub proof fn lemma_byte_len_covers(text: Seq<char>)
    ensures
        text.len() <= byte_len(text),
    decreases text.len(),
{
    if text.len() > 0 {
        lemma_byte_len_covers(text.drop_first());
    }
}

/// Spaces after spaces are spaces.
pub proof fn lemma_spaces_add(first: nat, second: nat)
    ensures
        spaces(first) + spaces(second) == spaces(first + second),
{
    assert(spaces(first) + spaces(second) =~= spaces(first + second));
}

/// The number of bytes that `text` takes in UTF-8.
pub(crate) fn count_bytes(text: &str) -> (count: usize)
    ensures
        count == byte_len(text@),
{
    text.as_bytes().len()
}

/// Appends `count` spaces to `text`.
pub(crate) fn push_spaces(text: &mut String, count: usize)
    ensures
        final(text)@ == old(text)@ + spaces(count as nat),
{
    let mut done: usize = 0;
    assert(text@ =~= old(text)@ + spaces(0));
    while done < count
        invariant
            done <= count,
            text@ == old(text)@ + spaces(done as nat),
        decreases count - done,
    {
        push_char(text, ' ');
        done = done + 1;
        assert(text@ =~= old(text)@ + spaces(done as nat));
    }
}

} // verus!
