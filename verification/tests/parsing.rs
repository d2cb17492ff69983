use pratt::Cursor;
use pratt::Expression;
use pratt::Language;
use pratt::ParseError;
use pratt::chars_of;
use pratt::infix;
use pratt::paren;
use pratt::parse_expr;
use pratt::postfix;
use pratt::prefix;

fn sample_language() -> Language {
    Language::new(
        vec![
            prefix("-".to_string(), vec!['-'], 51),
            prefix("if-then-else".to_string(), vec!['I', 'T', 'E'], 41),
            paren("paren".to_string(), vec!['(', ')']),
        ],
        vec![
            postfix("?".to_string(), vec!['?'], 20),
            postfix("subscript".to_string(), vec!['[', ']'], 100),
            infix("+".to_string(), vec!['+'], 50, 51),
            infix("-".to_string(), vec!['-'], 50, 51),
            infix("*".to_string(), vec!['*'], 80, 81),
            infix("=".to_string(), vec!['='], 21, 20),
        ],
    )
}

fn parse_to_text(input: &str) -> Result<String, ParseError> {
    let lang = sample_language();
    let mut cursor = Cursor::new(chars_of(input));
    parse_expr(&lang, &mut cursor, 0).map(|e| e.render())
}

#[test]
fn precedence_mul_over_add() {
    assert_eq!(parse_to_text("1+2*3").unwrap(), "(+ 1 (* 2 3))");
}

#[test]
fn left_associativity_at_equal_precedence() {
    assert_eq!(parse_to_text("1*2+3").unwrap(), "(+ (* 1 2) 3)");
}

#[test]
fn parenthesization_overrides_precedence() {
    assert_eq!(parse_to_text("1*(2+3)").unwrap(), "(* 1 (paren (+ 2 3)))");
}

#[test]
fn prefix_absorbs_tighter_following_operator() {
    assert_eq!(parse_to_text("-1*2").unwrap(), "(- (* 1 2))");
}

#[test]
fn prefix_releases_looser_following_operator() {
    assert_eq!(parse_to_text("-1+2").unwrap(), "(+ (- 1) 2)");
}

#[test]
fn low_precedence_postfix_absorbs_subtree() {
    assert_eq!(parse_to_text("1*2?").unwrap(), "(? (* 1 2))");
}

#[test]
fn postfix_after_prefix_and_infix() {
    assert_eq!(parse_to_text("-1*2?").unwrap(), "(? (- (* 1 2)))");
}

#[test]
fn prefix_chain_with_infix() {
    assert_eq!(parse_to_text("-1--2").unwrap(), "(- (- 1) (- 2))");
}

#[test]
fn mixfix_composes_with_infix_and_postfix() {
    assert_eq!(
        parse_to_text("1=2=I(3)T(4)E(5[6])").unwrap(),
        "(= 1 (= 2 (if-then-else (paren 3) (paren 4) (paren (subscript 5 6)))))"
    );
}

#[test]
fn right_associativity_when_right_bp_not_above_left() {
    assert_eq!(parse_to_text("1=2=3").unwrap(), "(= 1 (= 2 3))");
}

#[test]
fn single_atom() {
    assert_eq!(parse_to_text("7").unwrap(), "7");
}

#[test]
fn tree_structure_of_simple_infix() {
    let lang = sample_language();
    let mut cursor = Cursor::new(chars_of("1+2"));
    let e = parse_expr(&lang, &mut cursor, 0).unwrap();
    let expected = Expression::Node(vec![
        Expression::Atom("+".to_string()),
        Expression::Atom("1".to_string()),
        Expression::Atom("2".to_string()),
    ]);
    assert_eq!(e, expected);
}

#[test]
fn parse_stops_at_operator_not_exceeding_threshold() {
    let lang = sample_language();
    let mut cursor = Cursor::new(chars_of("1+2"));
    let e = parse_expr(&lang, &mut cursor, 60).unwrap();
    assert_eq!(e.render(), "1");
    assert_eq!(cursor.position, 1);
}

#[test]
fn parse_consumes_maximal_prefix_and_stops() {
    let lang = sample_language();
    let mut cursor = Cursor::new(chars_of("1+2)"));
    let e = parse_expr(&lang, &mut cursor, 0).unwrap();
    assert_eq!(e.render(), "(+ 1 2)");
    assert_eq!(cursor.position, 3);
}

#[test]
fn declaration_order_first_leading_wins() {
    let lang = Language::new(
        vec![
            prefix("first".to_string(), vec!['-'], 51),
            prefix("second".to_string(), vec!['-'], 60),
        ],
        vec![],
    );
    let mut cursor = Cursor::new(chars_of("-1"));
    let e = parse_expr(&lang, &mut cursor, 0).unwrap();
    assert_eq!(e.render(), "(first 1)");
    let mut again = Cursor::new(chars_of("-1"));
    let e2 = parse_expr(&lang, &mut again, 0).unwrap();
    assert_eq!(e2.render(), "(first 1)");
}

#[test]
fn declaration_order_first_following_wins() {
    let lang = Language::new(
        vec![],
        vec![
            infix("first".to_string(), vec!['+'], 50, 51),
            infix("second".to_string(), vec!['+'], 50, 51),
        ],
    );
    let mut cursor = Cursor::new(chars_of("1+2"));
    let e = parse_expr(&lang, &mut cursor, 0).unwrap();
    assert_eq!(e.render(), "(first 1 2)");
}

#[test]
fn rendering_is_stable_across_repeated_calls() {
    let lang = sample_language();
    let mut cursor = Cursor::new(chars_of("1=2=I(3)T(4)E(5[6])"));
    let e = parse_expr(&lang, &mut cursor, 0).unwrap();
    let first = e.render();
    let second = e.render();
    assert_eq!(first, second);
    let third = e.render();
    assert_eq!(second, third);
}
