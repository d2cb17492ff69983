use pratt::Cursor;
use pratt::Language;
use pratt::ParseError;
use pratt::chars_of;
use pratt::infix;
use pratt::paren;
use pratt::parse_expr;
use pratt::postfix;
use pratt::prefix;

fn sample_language() -> Language {
    Language::new(
        vec![
            prefix("-".to_string(), vec!['-'], 51),
            prefix("if-then-else".to_string(), vec!['I', 'T', 'E'], 41),
            paren("paren".to_string(), vec!['(', ')']),
        ],
        vec![
            postfix("?".to_string(), vec!['?'], 20),
            postfix("subscript".to_string(), vec!['[', ']'], 100),
            infix("+".to_string(), vec!['+'], 50, 51),
            infix("-".to_string(), vec!['-'], 50, 51),
            infix("*".to_string(), vec!['*'], 80, 81),
            infix("=".to_string(), vec!['='], 21, 20),
        ],
    )
}

fn parse_error_of(input: &str) -> ParseError {
    let lang = sample_language();
    let mut cursor = Cursor::new(chars_of(input));
    parse_expr(&lang, &mut cursor, 0).unwrap_err()
}

#[test]
fn unexpected_character_where_expression_is_mandatory() {
    assert_eq!(
        parse_error_of("x"),
        ParseError::UnexpectedCharacter { found: 'x' }
    );
}

#[test]
fn unexpected_character_after_infix_operator() {
    assert_eq!(
        parse_error_of("1+y"),
        ParseError::UnexpectedCharacter { found: 'y' }
    );
}

#[test]
fn empty_input_is_unexpected_end() {
    assert_eq!(parse_error_of(""), ParseError::UnexpectedEndOfInput);
}

#[test]
fn missing_operand_after_prefix_is_unexpected_end() {
    assert_eq!(parse_error_of("-"), ParseError::UnexpectedEndOfInput);
}

#[test]
fn unclosed_paren_fails_fatally() {
    assert_eq!(parse_error_of("1*(2+3"), ParseError::UnexpectedEndOfInput);
}

#[test]
fn unclosed_subscript_fails_fatally() {
    assert_eq!(parse_error_of("5[6"), ParseError::UnexpectedEndOfInput);
}

#[test]
fn mismatched_closing_delimiter_fails_fatally() {
    assert_eq!(
        parse_error_of("1*(2+3]"),
        ParseError::MissingOrMismatchedDelimiter {
            expected: ')',
            found: ']',
        }
    );
}

#[test]
fn mixfix_missing_interior_delimiter_fails_fatally() {
    assert_eq!(
        parse_error_of("I(3)4"),
        ParseError::MissingOrMismatchedDelimiter {
            expected: 'T',
            found: '4',
        }
    );
}

#[test]
fn mixfix_truncated_before_interior_delimiter_fails_fatally() {
    assert_eq!(parse_error_of("I(3)"), ParseError::UnexpectedEndOfInput);
}
