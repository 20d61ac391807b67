use eldiro::expr::Number;
use eldiro::utils::{
    extract_digits, extract_identifier, extract_whitespace, extract_whitespace_error, sequence,
    sequence_error, tag, take_while, take_while_error,
};

#[test]
fn take_while_splits_at_first_rejected_character() {
    assert_eq!(take_while(|c| c == 'a', "aaab"), ("b", "aaa"));
}

#[test]
fn take_while_may_take_nothing() {
    assert_eq!(take_while(|c| c == 'a', "baaa"), ("baaa", ""));
}

#[test]
fn take_while_may_take_everything() {
    assert_eq!(take_while(|c| c == 'a', "aaa"), ("", "aaa"));
}

#[test]
fn take_while_on_empty_input() {
    assert_eq!(take_while(|_| true, ""), ("", ""));
}

#[test]
fn take_while_counts_characters_not_bytes() {
    assert_eq!(take_while(|c| c != ' ', "héllo wörld"), (" wörld", "héllo"));
}

#[test]
fn take_while_error_fails_with_given_message() {
    assert_eq!(
        take_while_error(|c| c == 'a', "bbb", "no a".to_string()),
        Err("no a".to_string())
    );
}

#[test]
fn take_while_error_succeeds_with_one_character() {
    assert_eq!(
        take_while_error(|c| c == 'a', "ab", "no a".to_string()),
        Ok(("b", "a"))
    );
}

#[test]
fn tag_returns_rest_after_literal() {
    assert_eq!(tag("{", "{ 1 }"), Ok(" 1 }"));
}

#[test]
fn tag_whole_input() {
    assert_eq!(tag("let", "let"), Ok(""));
}

#[test]
fn tag_empty_literal_takes_nothing() {
    assert_eq!(tag("", "abc"), Ok("abc"));
}

#[test]
fn tag_fails_when_input_starts_otherwise() {
    assert_eq!(tag("let", "lit a"), Err("expected let".to_string()));
}

#[test]
fn tag_fails_when_input_is_shorter() {
    assert_eq!(tag("let", "le"), Err("expected let".to_string()));
}

#[test]
fn tag_is_case_sensitive() {
    assert_eq!(tag("let", "Let a"), Err("expected let".to_string()));
}

#[test]
fn tag_does_not_skip_whitespace() {
    assert_eq!(tag("let", " let"), Err("expected let".to_string()));
}

#[test]
fn tag_with_non_ascii_text() {
    assert_eq!(tag("é", "és"), Ok("s"));
}

#[test]
fn extract_digits_stops_at_first_non_digit() {
    assert_eq!(extract_digits("007abc9"), Ok(("abc9", "007")));
}

#[test]
fn extract_digits_on_empty_input_fails() {
    assert_eq!(extract_digits(""), Err("expected digits".to_string()));
}

#[test]
fn extract_digits_rejects_non_ascii_digits() {
    assert_eq!(extract_digits("٣"), Err("expected digits".to_string()));
}

#[test]
fn extract_whitespace_may_take_nothing() {
    assert_eq!(extract_whitespace("abc "), ("abc ", ""));
}

#[test]
fn extract_whitespace_does_not_take_carriage_return() {
    assert_eq!(extract_whitespace(" \rabc"), ("\rabc", " "));
}

#[test]
fn extract_whitespace_error_takes_all_leading_whitespace() {
    assert_eq!(extract_whitespace_error("\t\n x"), Ok(("x", "\t\n ")));
}

#[test]
fn extract_whitespace_error_on_empty_input_fails() {
    assert_eq!(
        extract_whitespace_error(""),
        Err("expected a whitespace".to_string())
    );
}

#[test]
fn extract_identifier_takes_maximal_prefix() {
    assert_eq!(extract_identifier("a1b2 c3"), Ok((" c3", "a1b2")));
}

#[test]
fn extract_identifier_stops_at_underscore() {
    assert_eq!(extract_identifier("foo_bar"), Ok(("_bar", "foo")));
}

#[test]
fn extract_identifier_that_takes_full_input() {
    assert_eq!(extract_identifier("x"), Ok(("", "x")));
}

#[test]
fn extract_identifier_on_empty_input_fails() {
    assert_eq!(
        extract_identifier(""),
        Err("expected identifier".to_string())
    );
}

#[test]
fn extract_identifier_rejects_non_ascii_letter() {
    assert_eq!(
        extract_identifier("éa"),
        Err("expected identifier".to_string())
    );
}

#[test]
fn sequence_collects_items_until_parser_fails() {
    assert_eq!(
        sequence(Number::new, extract_whitespace, "1 22  333 x"),
        Ok(("x", vec![Number(1), Number(22), Number(333)]))
    );
}

#[test]
fn sequence_consumes_separator_after_last_item() {
    assert_eq!(
        sequence(Number::new, extract_whitespace, "1 \n"),
        Ok(("", vec![Number(1)]))
    );
}

#[test]
fn sequence_with_no_item_succeeds() {
    assert_eq!(
        sequence(Number::new, extract_whitespace, "x 1"),
        Ok(("x 1", vec![]))
    );
}

#[test]
fn sequence_with_closures() {
    assert_eq!(
        sequence(
            |s| tag("ab", s).map(|rest| (rest, ())),
            |s| take_while(|c| c == ',', s),
            "ab,ab,,abab;"
        ),
        Ok((";", vec![(), (), (), ()]))
    );
}

#[test]
fn sequence_error_with_items_succeeds() {
    assert_eq!(
        sequence_error(Number::new, extract_whitespace, "4 5"),
        Ok(("", vec![Number(4), Number(5)]))
    );
}

#[test]
fn sequence_error_with_no_item_fails() {
    assert_eq!(
        sequence_error(Number::new, extract_whitespace, "x"),
        Err("expected a sequence with more than one item".to_string())
    );
}
