use eldiro::utils::{
    extract_digits, extract_identifier, extract_whitespace, extract_whitespace_error, tag,
};

#[test]
fn extract_one_digit() {
    assert_eq!(extract_digits("1+2"), Ok(("+2", "1")));
}

#[test]
fn extract_multiple_digits() {
    assert_eq!(extract_digits("10-20"), Ok(("-20", "10")));
}

#[test]
fn do_not_extract_digits_when_input_is_invalid() {
    assert_eq!(extract_digits("abcd"), Err("expected digits".to_string()));
}

#[test]
fn extract_digits_that_take_full_input() {
    assert_eq!(extract_digits("10000"), Ok(("", "10000")));
}

#[test]
fn do_not_extract_spaces_when_input_does_not_start_with_them() {
    assert_eq!(
        extract_whitespace_error("blah"),
        Err("expected a whitespace".to_string())
    )
}

#[test]
fn extract_newlines_spaces_and_tabs() {
    assert_eq!(extract_whitespace(" \n   \n\tabc"), ("abc", " \n   \n\t"))
}

#[test]
fn extract_alphabetic_identifier() {
    assert_eq!(extract_identifier("GreetingS hi"), Ok((" hi", "GreetingS")));
}

#[test]
fn extract_alphanumeric_identifier() {
    assert_eq!(extract_identifier("base64()"), Ok(("()", "base64")));
}

#[test]
fn cannot_extract_ident_beginning_with_number() {
    assert_eq!(
        extract_identifier("123foo"),
        Err("expected identifier".to_string())
    );
}

#[test]
fn tag_word() {
    assert_eq!(tag("let", "let a"), Ok(" a"));
}
