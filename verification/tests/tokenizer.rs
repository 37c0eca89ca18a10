use shellfish::text::trim;
use shellfish::{tokenize, unescape, DefaultHandler, Shell, UnescapeError, IO};

fn words(list: &[&str]) -> Vec<String> {
    list.iter().map(|word| word.to_string()).collect()
}

#[test]
fn empty_line_has_no_tokens() {
    assert_eq!(tokenize(""), Ok(Vec::<String>::new()));
}

#[test]
fn blank_line_has_no_tokens() {
    assert_eq!(tokenize("   "), Ok(Vec::<String>::new()));
    assert_eq!(tokenize(" \t\n"), Ok(Vec::<String>::new()));
}

#[test]
fn spaces_split_tokens() {
    assert_eq!(tokenize("a b"), Ok(words(&["a", "b"])));
}

#[test]
fn quotes_keep_spaces() {
    assert_eq!(tokenize("a \"b c\" d"), Ok(words(&["a", "b c", "d"])));
}

#[test]
fn escaped_space_does_not_split() {
    assert_eq!(tokenize("a\\ b"), Ok(words(&["a b"])));
}

#[test]
fn unclosed_quotes_are_an_error() {
    assert_eq!(tokenize("a \"b"), Err(UnescapeError::UnclosedQuotes));
}

#[test]
fn unknown_escape_is_an_error() {
    assert_eq!(tokenize("a \\q"), Err(UnescapeError::UnhandledEscapeSequence('q')));
}

#[test]
fn escape_table() {
    assert_eq!(tokenize("a\\\\b"), Ok(words(&["a\\b"])));
    assert_eq!(tokenize("a\\nb"), Ok(words(&["a\nb"])));
    assert_eq!(tokenize("a\\rb"), Ok(words(&["a\rb"])));
    assert_eq!(tokenize("a\\tb"), Ok(words(&["a\tb"])));
    assert_eq!(tokenize("a\\\"b"), Ok(words(&["a\"b"])));
}

#[test]
fn escaped_quote_does_not_open_quotes() {
    assert_eq!(tokenize("\\\"a b\\\""), Ok(words(&["\"a", "b\""])));
}

#[test]
fn escaped_space_inside_quotes_is_an_error() {
    assert_eq!(tokenize("\"a\\ b\""), Err(UnescapeError::UnhandledEscapeSequence(' ')));
}

#[test]
fn escapes_work_inside_quotes() {
    assert_eq!(tokenize("\"a\\tb \\\" c\""), Ok(words(&["a\tb \" c"])));
}

#[test]
fn the_first_error_is_reported() {
    assert_eq!(tokenize("\\q \""), Err(UnescapeError::UnhandledEscapeSequence('q')));
    assert_eq!(tokenize("\" \\x \\y"), Err(UnescapeError::UnhandledEscapeSequence('x')));
}

#[test]
fn trailing_backslash_is_dropped() {
    assert_eq!(tokenize("a\\"), Ok(words(&["a"])));
    assert_eq!(tokenize("\\"), Ok(Vec::<String>::new()));
}

#[test]
fn every_space_ends_a_token() {
    assert_eq!(tokenize("a  b"), Ok(words(&["a", "", "b"])));
}

#[test]
fn quotes_may_hold_nothing() {
    assert_eq!(tokenize("a \"\""), Ok(words(&["a", ""])));
    assert_eq!(tokenize("\"\""), Ok(Vec::<String>::new()));
    assert_eq!(tokenize("\"\" \"\""), Ok(words(&["", ""])));
}

#[test]
fn quotes_join_with_their_neighbours() {
    assert_eq!(tokenize("a\"b c\"d"), Ok(words(&["ab cd"])));
}

#[test]
fn whitespace_at_the_ends_does_not_count() {
    assert_eq!(tokenize(" a "), Ok(words(&["a"])));
    assert_eq!(tokenize("quit\n"), Ok(words(&["quit"])));
    assert_eq!(tokenize("\t greet  you \r\n"), Ok(words(&["greet", "", "you"])));
    assert_eq!(tokenize("\u{a0}a\u{3000}"), Ok(words(&["a"])));
}

#[test]
fn whitespace_inside_is_kept() {
    assert_eq!(tokenize("a\tb"), Ok(words(&["a\tb"])));
    assert_eq!(tokenize("\"  a  \""), Ok(words(&["  a  "])));
}

#[test]
fn unescape_reads_the_whole_line() {
    assert_eq!(unescape(""), Ok(Vec::<String>::new()));
    assert_eq!(unescape("   "), Ok(words(&["", "", "", ""])));
    assert_eq!(unescape(" a"), Ok(words(&["", "a"])));
    assert_eq!(unescape("a "), Ok(words(&["a", ""])));
    assert_eq!(unescape("a\n"), Ok(words(&["a\n"])));
    assert_eq!(unescape("a \"b c\" d"), Ok(words(&["a", "b c", "d"])));
    assert_eq!(unescape("a \"b"), Err(UnescapeError::UnclosedQuotes));
    assert_eq!(unescape("a \\q"), Err(UnescapeError::UnhandledEscapeSequence('q')));
}

#[test]
fn shell_unescape_reads_the_whole_line() {
    type Plain = Shell<(), &'static str, DefaultHandler, IO, (), ()>;
    assert_eq!(Plain::unescape("a\\ b c"), Ok(words(&["a b", "c"])));
    assert_eq!(Plain::unescape(" a"), Ok(words(&["", "a"])));
    assert_eq!(Plain::unescape("\"a"), Err(UnescapeError::UnclosedQuotes));
}

#[test]
fn non_ascii_text_passes_through() {
    assert_eq!(tokenize("grüße \"日本 語\""), Ok(words(&["grüße", "日本 語"])));
}

fn split_join_split(line: &str) {
    let once = tokenize(line).unwrap();
    let twice = tokenize(&once.join(" ")).unwrap();
    assert_eq!(once, twice, "line {:?}", line);
}

#[test]
fn splitting_a_plain_line_twice_changes_nothing() {
    split_join_split("");
    split_join_split("a");
    split_join_split("a b c");
    split_join_split("a  b");
    split_join_split("  a  b  ");
    split_join_split("   ");
    split_join_split("echo hello, world!");
}

#[test]
fn plain_tokens_survive_join_and_split() {
    let tokens = words(&["greet", "", "you", "there"]);
    assert_eq!(unescape(&tokens.join(" ")), Ok(tokens));
}

#[test]
fn errors_have_messages() {
    assert_eq!(UnescapeError::UnclosedQuotes.message(), "unclosed quotes");
    assert_eq!(
        UnescapeError::UnhandledEscapeSequence('q').message(),
        "unhandled escape sequence \\q"
    );
}

#[test]
fn trim_removes_whitespace_at_both_ends_only() {
    assert_eq!(trim(""), "");
    assert_eq!(trim("   "), "");
    assert_eq!(trim("a"), "a");
    assert_eq!(trim("  a b \n"), "a b");
    assert_eq!(trim("a \t b"), "a \t b");
    assert_eq!(trim("\u{2003}größe\u{2003}\r\n"), "größe");
    assert_eq!(trim("\\ "), "\\");
}
