//! The binding-power recursive-descent engine.
//!
//! Each call parses one expression: a leading part (operator or atom),
//! then a loop that attaches following operators while their left binding
//! power strictly exceeds the caller's threshold.  Every function is
//! proved to return exactly what the spec-level parser in `model` says,
//! and to leave the cursor exactly past the consumed text.

use crate::cursor::Cursor;
use crate::expr::Expression;
use crate::expr::ExprView;
use crate::expr::lemma_seq_view_concat;
use crate::expr::lemma_seq_view_one;
use crate::expr::lemma_seq_view_two;
use crate::expr::lemma_seq_view_push;
use crate::model::ParseError;
use crate::model::Step;
use crate::model::Steps;
use crate::model::first_following_from;
use crate::model::first_leading_from;
use crate::model::is_ascii_digit;
use crate::model::parse_atom_spec;
use crate::model::parse_expr_spec;
use crate::model::parse_following_spec;
use crate::model::parse_interiors_spec;
use crate::model::parse_leading_spec;
use crate::table::FollowingKind;
use crate::table::Language;
use crate::table::LeadingKind;
use vstd::prelude::*;

verus! {

/// The one-character text of one ASCII digit.
fn digit_string(c: char) -> (r: String)
    requires
        is_ascii_digit(c),
    ensures
        r@ == seq![c],
{
    let u = c as u32;
    proof {
        vstd::utf8::char_u32_cast(c, c as u32);
    }
    if u == 48 {
        proof {
            vstd::utf8::char_u32_cast('0', 48);
            reveal_strlit("0");
            assert("0"@ =~= seq![c]);
        }
        "0".to_owned()
    } else if u == 49 {
        proof {
            vstd::utf8::char_u32_cast('1', 49);
            reveal_strlit("1");
            assert("1"@ =~= seq![c]);
        }
        "1".to_owned()
    } else if u == 50 {
        proof {
            vstd::utf8::char_u32_cast('2', 50);
            reveal_strlit("2");
            assert("2"@ =~= seq![c]);
        }
        "2".to_owned()
    } else if u == 51 {
        proof {
            vstd::utf8::char_u32_cast('3', 51);
            reveal_strlit("3");
            assert("3"@ =~= seq![c]);
        }
        "3".to_owned()
    } else if u == 52 {
        proof {
            vstd::utf8::char_u32_cast('4', 52);
            reveal_strlit("4");
            assert("4"@ =~= seq![c]);
        }
        "4".to_owned()
    } else if u == 53 {
        proof {
            vstd::utf8::char_u32_cast('5', 53);
            reveal_strlit("5");
            assert("5"@ =~= seq![c]);
        }
        "5".to_owned()
    } else if u == 54 {
        proof {
            vstd::utf8::char_u32_cast('6', 54);
            reveal_strlit("6");
            assert("6"@ =~= seq![c]);
        }
        "6".to_owned()
    } else if u == 55 {
        proof {
            vstd::utf8::char_u32_cast('7', 55);
            reveal_strlit("7");
            assert("7"@ =~= seq![c]);
        }
        "7".to_owned()
    } else if u == 56 {
        proof {
            vstd::utf8::char_u32_cast('8', 56);
            reveal_strlit("8");
            assert("8"@ =~= seq![c]);
        }
        "8".to_owned()
    } else {
        proof {
            assert(u == 57);
            vstd::utf8::char_u32_cast('9', 57);
            reveal_strlit("9");
            assert("9"@ =~= seq![c]);
        }
        "9".to_owned()
    }
}

/// Recognize one atom: if and only if the lookahead is an ASCII digit,
/// consume exactly that codepoint and return a leaf holding its text.
pub fn parse_atom(cursor: &mut Cursor) -> (r: Result<Expression, ParseError>)
    requires
        old(cursor).wf(),
    ensures
        final(cursor).wf(),
        final(cursor).text@ == old(cursor).text@,
        final(cursor).position >= old(cursor).position,
        match r {
            Ok(e) => (parse_atom_spec(old(cursor).text@, old(cursor).position as int)
                == (Step::Done { expr: e@, next: final(cursor).position as int })) && final(cursor).position == old(cursor).position + 1,
            Err(err) => (parse_atom_spec(old(cursor).text@, old(cursor).position as int)
                == (Step::Fail { err })) && final(cursor).position == old(cursor).position,
        },
{
    match cursor.peek() {
        Option::None => Err(ParseError::UnexpectedEndOfInput),
        Option::Some(c) => {
            let u = c as u32;
            if 48 <= u && u <= 57 {
                let text = digit_string(c);
                cursor.advance();
                Ok(Expression::Atom(text))
            } else {
                Err(ParseError::UnexpectedCharacter { found: c })
            }
        },
    }
}

/// Index of the first declared leading operator whose entry token is `c`.
#[verifier::loop_isolation(false)]
fn find_leading(lang: &Language, c: char) -> (r: Option<usize>)
    requires
        lang.wf(),
    ensures
        match r {
            Some(i) => i < lang.leading_operators@.len() && first_leading_from(
                lang@.leading_operators,
                c,
                0,
            ) == Some(lang@.leading_operators[i as int]),
            None => first_leading_from(lang@.leading_operators, c, 0) is None,
        },
{
    let n = lang.leading_operators.len();
    let mut i: usize = 0;
    while i < n
        invariant
            i <= n,
            first_leading_from(lang@.leading_operators, c, 0) == first_leading_from(
                lang@.leading_operators,
                c,
                i as int,
            ),
        decreases n - i,
    {
        if lang.leading_operators[i].symbols[0] == c {
            return Some(i);
        }
        i = i + 1;
    }
    None
}

/// Index of the first declared following operator whose entry token is
/// `c`.
#[verifier::loop_isolation(false)]
fn find_following(lang: &Language, c: char) -> (r: Option<usize>)
    requires
        lang.wf(),
    ensures
        match r {
            Some(i) => i < lang.following_operators@.len() && first_following_from(
                lang@.following_operators,
                c,
                0,
            ) == Some(lang@.following_operators[i as int]),
            None => first_following_from(lang@.following_operators, c, 0) is None,
        },
{
    let n = lang.following_operators.len();
    let mut i: usize = 0;
    while i < n
        invariant
            i <= n,
            first_following_from(lang@.following_operators, c, 0) == first_following_from(
                lang@.following_operators,
                c,
                i as int,
            ),
        decreases n - i,
    {
        if lang.following_operators[i].symbols[0] == c {
            return Some(i);
        }
        i = i + 1;
    }
    None
}

/// Parse the delimited interior parts of one operator: for each symbol
/// after the entry token, one sub-expression with threshold 0, then
/// exactly that symbol.  The sub-expressions are pushed onto `children`
/// in order.
#[verifier::loop_isolation(false)]
fn parse_interiors(
    lang: &Language,
    cursor: &mut Cursor,
    symbols: &Vec<char>,
    children: &mut Vec<Expression>,
) -> (r: Result<(), ParseError>)
    requires
        lang.wf(),
        old(cursor).wf(),
        symbols@.len() >= 1,
    ensures
        final(cursor).wf(),
        final(cursor).text@ == old(cursor).text@,
        final(cursor).position >= old(cursor).position,
        match r {
            Ok(u) => {
                &&& old(children)@.len() <= final(children)@.len()
                &&& final(children)@.subrange(0, old(children)@.len() as int) == old(children)@
                &&& parse_interiors_spec(
                    lang@,
                    old(cursor).text@,
                    symbols@,
                    1,
                    old(cursor).position as int,
                ) == (Steps::Done {
                    exprs: Expression::seq_view(
                        final(children)@.subrange(
                            old(children)@.len() as int,
                            final(children)@.len() as int,
                        ),
                    ),
                    next: final(cursor).position as int,
                })
            },
            Err(err) => parse_interiors_spec(
                lang@,
                old(cursor).text@,
                symbols@,
                1,
                old(cursor).position as int,
            ) == (Steps::Fail { err }),
        },
    decreases old(cursor).text@.len() - old(cursor).position, 4int,
{
    let ghost pos0 = old(cursor).position as int;
    let ghost text = old(cursor).text@;
    let ghost base = old(children)@.len() as int;
    let n = symbols.len();
    let mut i: usize = 1;
    while i < n
        invariant
            1 <= i <= n,
            cursor.wf(),
            cursor.text@ == text,
            cursor.position >= pos0,
            children@.len() >= base,
            children@.subrange(0, base) == old(children)@,
            (match parse_interiors_spec(lang@, text, symbols@, i as int, cursor.position as int) {
                Steps::Done { exprs, next } => parse_interiors_spec(lang@, text, symbols@, 1, pos0)
                    == (Steps::Done {
                    exprs: Expression::seq_view(children@.subrange(base, children@.len() as int))
                        + exprs,
                    next,
                }),
                Steps::Fail { err } => parse_interiors_spec(lang@, text, symbols@, 1, pos0)
                    == (Steps::Fail { err }),
                Steps::Stuck => parse_interiors_spec(lang@, text, symbols@, 1, pos0)
                    == Steps::Stuck,
            }),
        decreases n - i,
    {
        let ghost built = children@;
        match parse_expr(lang, cursor, 0) {
            Err(e) => {
                return Err(e);
            },
            Ok(sub) => {
                match cursor.peek() {
                    Option::None => {
                        return Err(ParseError::UnexpectedEndOfInput);
                    },
                    Option::Some(d) => {
                        if d != symbols[i] {
                            return Err(
                                ParseError::MissingOrMismatchedDelimiter {
                                    expected: symbols[i],
                                    found: d,
                                },
                            );
                        }
                        cursor.advance();
                        children.push(sub);
                        proof {
                            lemma_seq_view_push(built.subrange(base, built.len() as int), sub);
                            assert(children@.subrange(0, base) =~= old(children)@);
                            assert(children@.subrange(base, children@.len() as int) =~= built
                                .subrange(base, built.len() as int).push(sub));
                            assert(forall|es: Seq<ExprView>|
                                Expression::seq_view(built.subrange(base, built.len() as int)).push(
                                    sub.view(),
                                ) + es =~= Expression::seq_view(
                                    built.subrange(base, built.len() as int),
                                ) + (seq![sub.view()] + es));
                        }
                        i = i + 1;
                    },
                }
            },
        }
    }
    proof {
        assert(Expression::seq_view(children@.subrange(base, children@.len() as int))
            + Seq::<ExprView>::empty() =~= Expression::seq_view(
            children@.subrange(base, children@.len() as int),
        ));
    }
    Ok(())
}

/// Parse one expression: the leading part, then every following operator
/// whose left binding power strictly exceeds `min_bp`.  On success the
/// cursor stands immediately after the consumed text, which is the
/// maximal prefix forming one such expression; on failure the parse is
/// abandoned as a whole.
#[verifier::loop_isolation(false)]
pub fn parse_expr(lang: &Language, cursor: &mut Cursor, min_bp: i32) -> (r: Result<
    Expression,
    ParseError,
>)
    requires
        lang.wf(),
        old(cursor).wf(),
    ensures
        final(cursor).wf(),
        final(cursor).text@ == old(cursor).text@,
        final(cursor).position >= old(cursor).position,
        match r {
            Ok(e) => (parse_expr_spec(
                lang@,
                old(cursor).text@,
                old(cursor).position as int,
                min_bp,
            ) == (Step::Done { expr: e@, next: final(cursor).position as int })) && final(cursor).position > old(cursor).position,
            Err(err) => parse_expr_spec(
                lang@,
                old(cursor).text@,
                old(cursor).position as int,
                min_bp,
            ) == (Step::Fail { err }),
        },
    decreases old(cursor).text@.len() - old(cursor).position, 3int,
{
    let ghost pos0 = old(cursor).position as int;
    let ghost text = old(cursor).text@;
    let mut leading_expr = match parse_leading(lang, cursor) {
        Err(e) => {
            return Err(e);
        },
        Ok(le) => le,
    };
    loop
        invariant
            cursor.wf(),
            cursor.text@ == text,
            cursor.position > pos0,
            parse_expr_spec(lang@, text, pos0, min_bp) == parse_following_spec(
                lang@,
                text,
                leading_expr@,
                cursor.position as int,
                min_bp,
            ),
        decreases text.len() - cursor.position,
    {
        let c = match cursor.peek() {
            Option::None => {
                return Ok(leading_expr);
            },
            Option::Some(c) => c,
        };
        let idx = match find_following(lang, c) {
            Option::None => {
                return Ok(leading_expr);
            },
            Option::Some(idx) => idx,
        };
        let k = lang.following_operators[idx].kind;
        if min_bp >= k.left_bp() {
            return Ok(leading_expr);
        }
        let ghost lead_v = leading_expr@;
        cursor.advance();
        let name = lang.following_operators[idx].name.clone();
        let ghost name_v = name@;
        let mut children: Vec<Expression> = Vec::new();
        children.push(Expression::Atom(name));
        children.push(leading_expr);
        let ghost prefix = children@;
        match parse_interiors(lang, cursor, &lang.following_operators[idx].symbols, &mut children) {
            Err(e) => {
                return Err(e);
            },
            Ok(()) => {},
        }
        let ghost opv = lang@.following_operators[idx as int];
        proof {
            assert(children@.subrange(0, 2) =~= prefix);
            lemma_seq_view_concat(prefix, children@.subrange(2, children@.len() as int));
            assert(prefix + children@.subrange(2, children@.len() as int) =~= children@);
            lemma_seq_view_two(prefix[0], prefix[1]);
            assert(prefix =~= seq![prefix[0], prefix[1]]);
            assert(prefix[0].view() == ExprView::Atom(name_v));
            assert(name_v == opv.name);
            assert(Expression::seq_view(prefix) =~= seq![ExprView::Atom(opv.name), lead_v]);
        }
        match k {
            FollowingKind::Postfix { .. } => {
                leading_expr = Expression::Node(children);
            },
            FollowingKind::Infix { right_bp, .. } => {
                match parse_expr(lang, cursor, right_bp) {
                    Err(e) => {
                        return Err(e);
                    },
                    Ok(tail) => {
                        proof {
                            lemma_seq_view_push(children@, tail);
                        }
                        children.push(tail);
                        leading_expr = Expression::Node(children);
                    },
                }
            },
        }
    }
}

/// Parse the leading position: the first declared leading operator whose
/// entry token matches, or an atom when none does.
#[verifier::loop_isolation(false)]
fn parse_leading(lang: &Language, cursor: &mut Cursor) -> (r: Result<Expression, ParseError>)
    requires
        lang.wf(),
        old(cursor).wf(),
    ensures
        final(cursor).wf(),
        final(cursor).text@ == old(cursor).text@,
        final(cursor).position >= old(cursor).position,
        match r {
            Ok(e) => (parse_leading_spec(lang@, old(cursor).text@, old(cursor).position as int)
                == (Step::Done { expr: e@, next: final(cursor).position as int })) && final(cursor).position > old(cursor).position,
            Err(err) => parse_leading_spec(lang@, old(cursor).text@, old(cursor).position as int)
                == (Step::Fail { err }),
        },
    decreases old(cursor).text@.len() - old(cursor).position, 2int,
{
    let ghost pos0 = old(cursor).position as int;
    let ghost text = old(cursor).text@;
    let c = match cursor.peek() {
        Option::None => {
            return Err(ParseError::UnexpectedEndOfInput);
        },
        Option::Some(c) => c,
    };
    let idx = match find_leading(lang, c) {
        Option::None => {
            return parse_atom(cursor);
        },
        Option::Some(idx) => idx,
    };
    let k = lang.leading_operators[idx].kind;
    cursor.advance();
    let name = lang.leading_operators[idx].name.clone();
    let ghost name_v = name@;
    let mut children: Vec<Expression> = Vec::new();
    children.push(Expression::Atom(name));
    let ghost prefix = children@;
    match parse_interiors(lang, cursor, &lang.leading_operators[idx].symbols, &mut children) {
        Err(e) => {
            return Err(e);
        },
        Ok(()) => {},
    }
    let ghost opv = lang@.leading_operators[idx as int];
    proof {
        assert(children@.subrange(0, 1) =~= prefix);
        lemma_seq_view_concat(prefix, children@.subrange(1, children@.len() as int));
        assert(prefix + children@.subrange(1, children@.len() as int) =~= children@);
        lemma_seq_view_one(prefix[0]);
        assert(prefix =~= seq![prefix[0]]);
        assert(prefix[0].view() == ExprView::Atom(name_v));
        assert(name_v == opv.name);
        assert(Expression::seq_view(prefix) =~= seq![ExprView::Atom(opv.name)]);
    }
    match k {
        LeadingKind::Paren => Ok(Expression::Node(children)),
        LeadingKind::Prefix { right_bp } => {
            match parse_expr(lang, cursor, right_bp) {
                Err(e) => Err(e),
                Ok(tail) => {
                    proof {
                        lemma_seq_view_push(children@, tail);
                    }
                    children.push(tail);
                    Ok(Expression::Node(children))
                },
            }
        },
    }
}

} // verus!
