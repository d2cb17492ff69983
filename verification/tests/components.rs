use pratt::Cursor;
use pratt::Expression;
use pratt::ParseError;
use pratt::chars_of;
use pratt::parse_atom;

#[test]
fn chars_of_collects_codepoints() {
    assert_eq!(chars_of("1+2"), vec!['1', '+', '2']);
    assert_eq!(chars_of(""), Vec::<char>::new());
}

#[test]
fn cursor_peek_does_not_consume() {
    let cursor = Cursor::new(chars_of("ab"));
    assert_eq!(cursor.peek(), Some('a'));
    assert_eq!(cursor.peek(), Some('a'));
    assert_eq!(cursor.position, 0);
}

#[test]
fn cursor_advance_moves_one_codepoint() {
    let mut cursor = Cursor::new(chars_of("ab"));
    cursor.advance();
    assert_eq!(cursor.peek(), Some('b'));
    cursor.advance();
    assert_eq!(cursor.peek(), None);
}

#[test]
fn atom_is_exactly_one_digit() {
    let mut cursor = Cursor::new(chars_of("42"));
    let e = parse_atom(&mut cursor).unwrap();
    assert_eq!(e, Expression::Atom("4".to_string()));
    assert_eq!(cursor.position, 1);
}

#[test]
fn every_digit_is_an_atom() {
    for (i, c) in ['0', '1', '2', '3', '4', '5', '6', '7', '8', '9']
        .into_iter()
        .enumerate()
    {
        let mut cursor = Cursor::new(vec![c]);
        let e = parse_atom(&mut cursor).unwrap();
        assert_eq!(e, Expression::Atom(i.to_string()));
    }
}

#[test]
fn non_digit_is_not_an_atom() {
    let mut cursor = Cursor::new(chars_of("a"));
    assert_eq!(
        parse_atom(&mut cursor).unwrap_err(),
        ParseError::UnexpectedCharacter { found: 'a' }
    );
    assert_eq!(cursor.position, 0);
}

#[test]
fn atom_at_end_of_input_fails() {
    let mut cursor = Cursor::new(Vec::new());
    assert_eq!(
        parse_atom(&mut cursor).unwrap_err(),
        ParseError::UnexpectedEndOfInput
    );
}

#[test]
fn render_atom_is_its_text() {
    assert_eq!(Expression::Atom("7".to_string()).render(), "7");
}

#[test]
fn render_node_joins_children_with_spaces() {
    let e = Expression::Node(vec![
        Expression::Atom("+".to_string()),
        Expression::Atom("1".to_string()),
        Expression::Node(vec![
            Expression::Atom("*".to_string()),
            Expression::Atom("2".to_string()),
            Expression::Atom("3".to_string()),
        ]),
    ]);
    assert_eq!(e.render(), "(+ 1 (* 2 3))");
}

#[test]
fn render_empty_node() {
    assert_eq!(Expression::Node(Vec::new()).render(), "()");
}
