//! Splitting one line of input into arguments.
//!
//! The whitespace at the two ends of the line does not count. What is left
//! is read once, left to right. A space ends the current argument.
//! Double quotes switch quoting on and off; inside quotes a space is an
//! ordinary character. A backslash escapes the character after it:
//! `\\`, `\n`, `\r`, `\t`, `\"`, and, outside quotes, `\ ` for a space that
//! does not end the argument. The quotes and the backslash themselves are not
//! part of any argument.
//!
//! A backslash that is the last character of the line escapes nothing and is
//! dropped.

use vstd::prelude::*;
use crate::text::{
    lemma_ends, lemma_texts_push, lemma_trimmed_twice, push_char, texts, trim, trimmed,
};

verus! {

/// Why a line could not be split.
#[derive(Debug, Clone, Copy, PartialEq, Eq, Structural)]
pub enum UnescapeError {
    /// A backslash stood before a character that cannot be escaped there.
    UnhandledEscapeSequence(char),
    /// The line ended inside double quotes.
    UnclosedQuotes,
}

impl UnescapeError {
    /// The error in words.
    pub open spec fn text(&self) -> Seq<char> {
        match *self {
            UnescapeError::UnhandledEscapeSequence(c) => "unhandled escape sequence \\"@.push(c),
            UnescapeError::UnclosedQuotes => "unclosed quotes"@,
        }
    }

    /// The error in words, for the user.
    pub fn message(&self) -> (message: String)
        ensures
            message@ == self.text(),
    {
        match self {
            UnescapeError::UnhandledEscapeSequence(c) => {
                let mut message = String::from_str("unhandled escape sequence \\");
                push_char(&mut message, *c);
                message
            },
            UnescapeError::UnclosedQuotes => String::from_str("unclosed quotes"),
        }
    }
}

/// What has been read of a line so far.
pub struct Scan {
    /// The arguments that a space has ended.
    pub finished: Seq<Seq<char>>,
    /// The argument that is still growing.
    pub current: Seq<char>,
    /// The last character was a backslash that escapes the next one.
    pub escape: bool,
    /// Inside double quotes.
    pub quoted: bool,
}

/// The state before the first character.
pub open spec fn start() -> Scan {
    Scan { finished: Seq::empty(), current: Seq::empty(), escape: false, quoted: false }
}

/// The character that `c` stands for after a backslash, if any.
pub open spec fn escaped(c: char, quoted: bool) -> Option<char> {
    if c == '\\' {
        Some('\\')
    } else if c == ' ' && !quoted {
        Some(' ')
    } else if c == 'n' {
        Some('\n')
    } else if c == 'r' {
        Some('\r')
    } else if c == 't' {
        Some('\t')
    } else if c == '"' {
        Some('"')
    } else {
        None
    }
}

/// Reading one more character.
pub open spec fn step(scan: Scan, c: char) -> Result<Scan, UnescapeError> {
    if scan.escape {
        match escaped(c, scan.quoted) {
            Some(literal) => Ok(
                Scan { current: scan.current.push(literal), escape: false, ..scan },
            ),
            None => Err(UnescapeError::UnhandledEscapeSequence(c)),
        }
    } else if c == '\\' {
        Ok(Scan { escape: true, ..scan })
    } else if c == '"' {
        Ok(Scan { quoted: !scan.quoted, ..scan })
    } else if c == ' ' && !scan.quoted {
        Ok(Scan { finished: scan.finished.push(scan.current), current: Seq::empty(), ..scan })
    } else {
        Ok(Scan { current: scan.current.push(c), ..scan })
    }
}

/// Reading `rest` after `from`, or the first error on the way.
pub open spec fn resume(from: Scan, rest: Seq<char>) -> Result<Scan, UnescapeError>
    decreases rest.len(),
{
    if rest.len() == 0 {
        Ok(from)
    } else {
        match resume(from, rest.drop_last()) {
            Ok(before) => step(before, rest.last()),
            Err(e) => Err(e),
        }
    }
}

/// Reading a whole line, or the first error on the way.
pub open spec fn scan(line: Seq<char>) -> Result<Scan, UnescapeError> {
    resume(start(), line)
}

/// The arguments of a line that is read from its first character to its
/// last.
///
/// An empty line has no arguments at all, rather than one empty argument.
pub open spec fn tokens_of(line: Seq<char>) -> Result<Seq<Seq<char>>, UnescapeError> {
    match scan(line) {
        Err(e) => Err(e),
        Ok(end) => if end.quoted {
            Err(UnescapeError::UnclosedQuotes)
        } else if end.finished.len() == 0 && end.current.len() == 0 {
            Ok(Seq::empty())
        } else {
            Ok(end.finished.push(end.current))
        },
    }
}

/// The arguments of a line: those of the line without the whitespace at its
/// two ends.
pub open spec fn tokenized(line: Seq<char>) -> Result<Seq<Seq<char>>, UnescapeError> {
    tokens_of(trimmed(line))
}

/// Splits a line into its arguments. The whitespace at the two ends of the
/// line does not count.
pub fn tokenize(line: &str) -> (result: Result<Vec<String>, UnescapeError>)
    ensures
        match result {
            Ok(tokens) => tokenized(line@) == Ok::<Seq<Seq<char>>, UnescapeError>(texts(tokens@)),
            Err(e) => tokenized(line@) == Err::<Seq<Seq<char>>, UnescapeError>(e),
        },
{
    unescape(trim(line))
}

/// Splits a line into its arguments, reading it from its first character to
/// its last.
pub fn unescape(line: &str) -> (result: Result<Vec<String>, UnescapeError>)
    ensures
        match result {
            Ok(tokens) => tokens_of(line@) == Ok::<Seq<Seq<char>>, UnescapeError>(texts(tokens@)),
            Err(e) => tokens_of(line@) == Err::<Seq<Seq<char>>, UnescapeError>(e),
        },
{
    let mut finished: Vec<String> = Vec::new();
    let mut current = String::new();
    let mut escape = false;
    let mut quoted = false;
    assert(texts(finished@) =~= Seq::<Seq<char>>::empty());
    assert(line@.take(0) =~= Seq::<char>::empty());
    for c in chars: line.chars()
        invariant
            chars.seq() == line@,
            scan(line@.take(chars.index())) == Ok::<Scan, UnescapeError>(
                Scan { finished: texts(finished@), current: current@, escape, quoted },
            ),
    {
        proof {
            let read = line@.take(chars.index() + 1);
            assert(read.drop_last() =~= line@.take(chars.index()));
            assert(read.last() == c);
        }
        if escape {
            let literal = match c {
                '\\' => '\\',
                ' ' if !quoted => ' ',
                'n' => '\n',
                'r' => '\r',
                't' => '\t',
                '"' => '"',
                _ => {
                    proof {
                        lemma_scan_error_stays(line@, chars.index() + 1);
                    }
                    return Err(UnescapeError::UnhandledEscapeSequence(c));
                },
            };
            push_char(&mut current, literal);
            escape = false;
        } else if c == '\\' {
            escape = true;
        } else if c == '"' {
            quoted = !quoted;
        } else if c == ' ' && !quoted {
            proof {
                lemma_texts_push(finished@, current);
            }
            finished.push(current);
            current = String::new();
        } else {
            push_char(&mut current, c);
        }
    }
    assert(line@.take(line@.len() as int) =~= line@);
    if quoted {
        return Err(UnescapeError::UnclosedQuotes);
    }
    if finished.len() == 0 && current.as_str().is_empty() {
        assert(texts(finished@) =~= Seq::<Seq<char>>::empty());
        return Ok(finished);
    }
    proof {
        lemma_texts_push(finished@, current);
    }
    finished.push(current);
    Ok(finished)
}

/// An error met while reading a prefix of a line is the error of the line.
pub proof fn lemma_scan_error_stays(line: Seq<char>, read: int)
    requires
        0 <= read <= line.len(),
        scan(line.take(read)) is Err,
    ensures
        scan(line) == scan(line.take(read)),
    decreases line.len() - read,
{
    if read == line.len() {
        assert(line.take(read) =~= line);
    } else {
        assert(line.take(read + 1).drop_last() =~= line.take(read));
        lemma_scan_error_stays(line, read + 1);
    }
}

/// Reading two pieces in a row is reading the first and resuming with the
/// second.
pub proof fn lemma_resume_concat(from: Scan, first: Seq<char>, second: Seq<char>)
    ensures
        resume(from, first + second) == match resume(from, first) {
            Ok(middle) => resume(middle, second),
            Err(e) => Err(e),
        },
    decreases second.len(),
{
    if second.len() == 0 {
        assert(first + second =~= first);
    } else {
        assert((first + second).drop_last() =~= first + second.drop_last());
        assert((first + second).last() == second.last());
        lemma_resume_concat(from, first, second.drop_last());
    }
}

/// No character of `text` is a space, a double quote or a backslash.
pub open spec fn bare(text: Seq<char>) -> bool {
    forall|i: int| 0 <= i < text.len() ==> text[i] != ' ' && text[i] != '"' && text[i] != '\\'
}

/// No character of `line` is a double quote or a backslash.
pub open spec fn plain(line: Seq<char>) -> bool {
    forall|i: int| 0 <= i < line.len() ==> line[i] != '"' && line[i] != '\\'
}

/// The arguments written on one line, a single space between neighbours.
pub open spec fn joined(tokens: Seq<Seq<char>>) -> Seq<char>
    decreases tokens.len(),
{
    if tokens.len() == 0 {
        Seq::empty()
    } else if tokens.len() == 1 {
        tokens[0]
    } else {
        joined(tokens.drop_last()) + seq![' '] + tokens.last()
    }
}

/// Outside an escape, bare text only grows the current argument.
pub proof fn lemma_resume_bare(from: Scan, text: Seq<char>)
    requires
        !from.escape,
        bare(text),
    ensures
        resume(from, text) == Ok::<Scan, UnescapeError>(
            Scan { current: from.current + text, ..from },
        ),
    decreases text.len(),
{
    if text.len() == 0 {
        assert(from.current + text =~= from.current);
    } else {
        lemma_resume_bare(from, text.drop_last());
        assert((from.current + text.drop_last()).push(text.last()) =~= from.current + text);
    }
}

/// Reading bare arguments that were joined by spaces ends with the last of
/// them as the current argument and the others finished, in order.
pub proof fn lemma_scan_joined(tokens: Seq<Seq<char>>)
    requires
        tokens.len() > 0,
        forall|i: int| 0 <= i < tokens.len() ==> bare(#[trigger] tokens[i]),
    ensures
        scan(joined(tokens)) == Ok::<Scan, UnescapeError>(
            Scan {
                finished: tokens.drop_last(),
                current: tokens.last(),
                escape: false,
                quoted: false,
            },
        ),
    decreases tokens.len(),
{
    if tokens.len() == 1 {
        lemma_resume_bare(start(), tokens[0]);
        assert(start().current + tokens[0] =~= tokens[0]);
        assert(tokens.drop_last() =~= Seq::<Seq<char>>::empty());
    } else {
        let front = tokens.drop_last();
        lemma_scan_joined(front);
        let after_front = Scan {
            finished: front.drop_last(),
            current: front.last(),
            escape: false,
            quoted: false,
        };
        let space = seq![' '];
        assert(space.drop_last() =~= Seq::<char>::empty());
        assert(resume(after_front, space.drop_last()) == Ok::<Scan, UnescapeError>(after_front));
        let after_space = Scan {
            finished: front,
            current: Seq::empty(),
            escape: false,
            quoted: false,
        };
        assert(front.drop_last().push(front.last()) =~= front);
        assert(resume(after_front, space) == Ok::<Scan, UnescapeError>(after_space));
        lemma_resume_concat(start(), joined(front), space);
        lemma_resume_bare(after_space, tokens.last());
        assert(after_space.current + tokens.last() =~= tokens.last());
        lemma_resume_concat(start(), joined(front) + space, tokens.last());
    }
}

/// Bare arguments survive being joined by spaces and split again.
///
/// The one list left out is the list of a single empty argument: it is
/// written as the empty line, which has no arguments.
pub proof fn lemma_join_then_tokenize(tokens: Seq<Seq<char>>)
    requires
        forall|i: int| 0 <= i < tokens.len() ==> bare(#[trigger] tokens[i]),
        !(tokens.len() == 1 && tokens[0].len() == 0),
    ensures
        tokens_of(joined(tokens)) == Ok::<Seq<Seq<char>>, UnescapeError>(tokens),
{
    if tokens.len() == 0 {
        assert(tokens =~= Seq::<Seq<char>>::empty());
    } else {
        lemma_scan_joined(tokens);
        assert(tokens.drop_last().push(tokens.last()) =~= tokens);
    }
}

/// A plain line is read without error, outside quotes and escapes, into bare
/// arguments which, joined by spaces, give the line back.
pub proof fn lemma_scan_plain(line: Seq<char>)
    requires
        plain(line),
    ensures
        scan(line) matches Ok(end) && ({
            &&& !end.escape
            &&& !end.quoted
            &&& bare(end.current)
            &&& forall|i: int| 0 <= i < end.finished.len() ==> bare(#[trigger] end.finished[i])
            &&& joined(end.finished.push(end.current)) == line
        }),
    decreases line.len(),
{
    if line.len() == 0 {
        assert(joined(start().finished.push(start().current)) =~= line);
    } else {
        let front = line.drop_last();
        lemma_scan_plain(front);
        let before = scan(front)->Ok_0;
        let end = scan(line)->Ok_0;
        let c = line.last();
        let all_before = before.finished.push(before.current);
        let all = end.finished.push(end.current);
        assert(front.push(c) =~= line);
        if c == ' ' {
            assert(all.drop_last() =~= all_before);
            assert(joined(all) =~= joined(all_before) + seq![' '] + Seq::<char>::empty());
            assert(joined(all) =~= line);
        } else {
            if before.finished.len() == 0 {
                assert(joined(all_before) == before.current);
                assert(joined(all) =~= line);
            } else {
                assert(all.drop_last() =~= before.finished);
                assert(all_before.drop_last() =~= before.finished);
                assert(joined(all) =~= line);
            }
        }
    }
}

/// Splitting a plain line, joining the arguments by spaces and splitting
/// again gives the same arguments as splitting once.
pub proof fn lemma_tokenize_idempotent(line: Seq<char>)
    requires
        plain(line),
    ensures
        tokenized(line) matches Ok(tokens) && tokenized(joined(tokens)) == tokenized(line),
{
    let inner = trimmed(line);
    lemma_ends(line);
    lemma_trimmed_twice(line);
    lemma_scan_plain(inner);
    let end = scan(inner)->Ok_0;
    let tokens = tokens_of(inner)->Ok_0;
    if end.finished.len() == 0 && end.current.len() == 0 {
        assert(joined(tokens) =~= Seq::<char>::empty());
        assert(joined(end.finished.push(end.current)) =~= Seq::<char>::empty());
    } else {
        assert(joined(tokens) == inner);
    }
}

} // verus!
