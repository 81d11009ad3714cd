use shell_core::special_char_args_builder;

fn words(line: &str) -> Vec<String> {
    special_char_args_builder(line)
}

#[test]
fn single_quotes_keep_inner_spaces() {
    assert_eq!(words("'hello    world'"), vec!["hello    world"]);
}

#[test]
fn unquoted_spaces_collapse() {
    assert_eq!(words("hello    world"), vec!["hello", "world"]);
}

#[test]
fn adjacent_quoted_fragments_join() {
    assert_eq!(words("'a''b'"), vec!["ab"]);
    assert_eq!(words("'hello''world'"), vec!["helloworld"]);
}

#[test]
fn empty_quotes_contribute_nothing() {
    assert_eq!(words("a''b"), vec!["ab"]);
    assert_eq!(words("hello''world"), vec!["helloworld"]);
    assert_eq!(words("''"), Vec::<String>::new());
    assert_eq!(words("a '' b"), vec!["a", "b"]);
}

#[test]
fn single_quote_inside_double_quotes() {
    assert_eq!(words("\"it's\""), vec!["it's"]);
    assert_eq!(words("\"shell's test\""), vec!["shell's test"]);
}

#[test]
fn double_quotes_inside_single_quotes() {
    assert_eq!(words("'say \"hi\"'"), vec!["say \"hi\""]);
}

#[test]
fn backslash_escapes_space() {
    assert_eq!(words("a\\ b"), vec!["a b"]);
}

#[test]
fn backslash_quote_inside_double_quotes() {
    assert_eq!(words("\"a\\\"b\""), vec!["a\"b"]);
    assert_eq!(words("\"mixed\\\"quote'world'\\\\\""), vec!["mixed\"quote'world'\\"]);
}

#[test]
fn backslash_is_literal_in_single_quotes() {
    assert_eq!(words("'a\\nb'"), vec!["a\\nb"]);
}

#[test]
fn escaped_quotes_outside_quotes() {
    assert_eq!(words("\\'\\\"world example\\\"\\'"), vec!["'\"world", "example\"'"]);
}

#[test]
fn double_quoted_words() {
    assert_eq!(words("\"hello    world\""), vec!["hello    world"]);
    assert_eq!(words("\"hello\"\"world\""), vec!["helloworld"]);
    assert_eq!(words("\"hello\" \"world\""), vec!["hello", "world"]);
    assert_eq!(words("\"test  world\"  \"shell\"\"script\""), vec!["test  world", "shellscript"]);
}

#[test]
fn quoted_parts_inside_paths() {
    assert_eq!(
        words("/tmp/dog/\"number 41\" /tmp/dog/\"doublequote \\\" 22\" /tmp/dog/\"backslash \\\\ 82\""),
        vec!["/tmp/dog/number 41", "/tmp/dog/doublequote \" 22", "/tmp/dog/backslash \\ 82"]
    );
}

#[test]
fn unterminated_quote_keeps_what_was_gathered() {
    assert_eq!(words("'abc def"), vec!["abc def"]);
    assert_eq!(words("x \"y z"), vec!["x", "y z"]);
}

#[test]
fn leading_and_trailing_whitespace_dropped() {
    assert_eq!(words("   a\tb  \n"), vec!["a", "b"]);
    assert_eq!(words(""), Vec::<String>::new());
    assert_eq!(words("    "), Vec::<String>::new());
}

#[test]
fn blank_quoted_word_is_dropped() {
    assert_eq!(words("a ' ' b"), vec!["a", "b"]);
}

#[test]
fn trailing_backslash_is_dropped() {
    assert_eq!(words("ab\\"), vec!["ab"]);
}

#[test]
fn plain_words_round_trip() {
    let ws = vec!["echo", "a1", "b-2", "/usr/bin/x", "été"];
    let joined = ws.join(" ");
    assert_eq!(words(&joined), ws);
}

#[test]
fn unicode_whitespace_separates_words() {
    assert_eq!(words("a\u{000B}b"), vec!["a", "b"]);
    assert_eq!(words("a\u{00A0}b\u{3000}c"), vec!["a", "b", "c"]);
    assert_eq!(words("\u{2003}\u{2003}"), Vec::<String>::new());
    assert_eq!(words("x '\u{2003}' y"), vec!["x", "y"]);
}
