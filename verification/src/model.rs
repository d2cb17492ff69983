//! The mathematical model of a parse.
//!
//! A total, spec-level parser over a character sequence: given the
//! operator table, a start position and a binding-power threshold, it
//! determines the one tree the engine must build, the position just past
//! the consumed text, and exactly when and how a parse fails.  The
//! executable engine is proved to return precisely what these functions
//! say.

use crate::expr::ExprView;
use crate::table::FollowingKind;
use crate::table::FollowingOpView;
use crate::table::LanguageView;
use crate::table::LeadingKind;
use crate::table::LeadingOpView;
use vstd::prelude::*;

verus! {

/// Why a parse fails.  Every failure is fatal to the whole invocation:
/// the engine offers no recovery and never returns a partial tree.
#[derive(Debug, Clone, Copy, PartialEq, Eq, Structural)]
pub enum ParseError {
    /// The lookahead matches no atom and no operator at a position that
    /// requires an expression.
    UnexpectedCharacter { found: char },
    /// A required interior or closing delimiter of a multi-token operator
    /// is not the next token.
    MissingOrMismatchedDelimiter { expected: char, found: char },
    /// Input ended while a mandatory operand or delimiter was pending.
    UnexpectedEndOfInput,
}

/// Outcome of one spec-level parse: the tree together with the position
/// just past the consumed text, or a fatal error.  `Stuck` is the outcome
/// of states in which a nested parse would have had to consume nothing or
/// run past the buffer; it keeps the definitions below well founded, and
/// the engine's contracts show it is never the outcome of a parse the
/// engine actually performs.
pub enum Step {
    Done { expr: ExprView, next: int },
    Fail { err: ParseError },
    Stuck,
}

/// As `Step`, for the list of delimited sub-expressions consumed around
/// the interior symbols of one operator.
pub enum Steps {
    Done { exprs: Seq<ExprView>, next: int },
    Fail { err: ParseError },
    Stuck,
}

pub open spec fn is_ascii_digit(c: char) -> bool {
    48 <= c as u32 && c as u32 <= 57
}

/// The first declared leading operator whose entry token is `c`, scanning
/// from index `i` on: when several operators share an entry token, the
/// earliest declaration wins.
pub open spec fn first_leading_from(ops: Seq<LeadingOpView>, c: char, i: int) -> Option<
    LeadingOpView,
>
    decreases ops.len() - i,
{
    if i < 0 || i >= ops.len() {
        None
    } else if ops[i].symbols.len() >= 1 && ops[i].symbols[0] == c {
        Some(ops[i])
    } else {
        first_leading_from(ops, c, i + 1)
    }
}

/// The first declared following operator whose entry token is `c`,
/// scanning from index `i` on.
pub open spec fn first_following_from(ops: Seq<FollowingOpView>, c: char, i: int) -> Option<
    FollowingOpView,
>
    decreases ops.len() - i,
{
    if i < 0 || i >= ops.len() {
        None
    } else if ops[i].symbols.len() >= 1 && ops[i].symbols[0] == c {
        Some(ops[i])
    } else {
        first_following_from(ops, c, i + 1)
    }
}

/// One atom: exactly one ASCII digit, consumed as a leaf, if and only if
/// the lookahead is one.
pub open spec fn parse_atom_spec(text: Seq<char>, pos: int) -> Step {
    if !(0 <= pos <= text.len()) {
        Step::Stuck
    } else if pos == text.len() {
        Step::Fail { err: ParseError::UnexpectedEndOfInput }
    } else if is_ascii_digit(text[pos]) {
        Step::Done { expr: ExprView::Atom(seq![text[pos]]), next: pos + 1 }
    } else {
        Step::Fail { err: ParseError::UnexpectedCharacter { found: text[pos] } }
    }
}

/// One full expression from `pos`: a leading part, then every following
/// operator whose left binding power strictly exceeds `min_bp`.
pub open spec fn parse_expr_spec(lang: LanguageView, text: Seq<char>, pos: int, min_bp: i32) -> Step
    decreases text.len() - pos, 3int,
{
    if !(0 <= pos <= text.len()) {
        Step::Stuck
    } else {
        match parse_leading_spec(lang, text, pos) {
            Step::Fail { err } => Step::Fail { err },
            Step::Stuck => Step::Stuck,
            Step::Done { expr, next } => {
                if pos < next <= text.len() {
                    parse_following_spec(lang, text, expr, next, min_bp)
                } else {
                    Step::Stuck
                }
            },
        }
    }
}

/// The leading position: the first matching leading operator, or an atom
/// when none matches.  A matching operator consumes its entry token, one
/// sub-expression and delimiter per interior symbol, and, for a prefix
/// operator, one trailing operand parsed with its right binding power.
pub open spec fn parse_leading_spec(lang: LanguageView, text: Seq<char>, pos: int) -> Step
    decreases text.len() - pos, 2int,
{
    if !(0 <= pos <= text.len()) {
        Step::Stuck
    } else if pos == text.len() {
        Step::Fail { err: ParseError::UnexpectedEndOfInput }
    } else {
        match first_leading_from(lang.leading_operators, text[pos], 0) {
            Option::None => parse_atom_spec(text, pos),
            Option::Some(op) => match parse_interiors_spec(lang, text, op.symbols, 1, pos + 1) {
                Steps::Fail { err } => Step::Fail { err },
                Steps::Stuck => Step::Stuck,
                Steps::Done { exprs, next } => {
                    let children = seq![ExprView::Atom(op.name)] + exprs;
                    match op.kind {
                        LeadingKind::Paren => Step::Done { expr: ExprView::Node(children), next },
                        LeadingKind::Prefix { right_bp } => {
                            if pos < next <= text.len() {
                                match parse_expr_spec(lang, text, next, right_bp) {
                                    Step::Fail { err } => Step::Fail { err },
                                    Step::Stuck => Step::Stuck,
                                    Step::Done { expr, next: after } => Step::Done {
                                        expr: ExprView::Node(children.push(expr)),
                                        next: after,
                                    },
                                }
                            } else {
                                Step::Stuck
                            }
                        },
                    }
                },
            },
        }
    }
}

/// The sub-expressions and delimiters for `syms[i..]`: for each remaining
/// symbol, one sub-expression parsed with threshold 0, then exactly that
/// symbol.
pub open spec fn parse_interiors_spec(
    lang: LanguageView,
    text: Seq<char>,
    syms: Seq<char>,
    i: int,
    pos: int,
) -> Steps
    decreases text.len() - pos, 4int,
{
    if !(0 <= pos <= text.len()) || i < 0 {
        Steps::Stuck
    } else if i >= syms.len() {
        Steps::Done { exprs: Seq::empty(), next: pos }
    } else {
        match parse_expr_spec(lang, text, pos, 0) {
            Step::Fail { err } => Steps::Fail { err },
            Step::Stuck => Steps::Stuck,
            Step::Done { expr, next } => {
                if pos < next <= text.len() {
                    if next == text.len() {
                        Steps::Fail { err: ParseError::UnexpectedEndOfInput }
                    } else if text[next] != syms[i] {
                        Steps::Fail {
                            err: ParseError::MissingOrMismatchedDelimiter {
                                expected: syms[i],
                                found: text[next],
                            },
                        }
                    } else {
                        match parse_interiors_spec(lang, text, syms, i + 1, next + 1) {
                            Steps::Fail { err } => Steps::Fail { err },
                            Steps::Stuck => Steps::Stuck,
                            Steps::Done { exprs, next: after } => Steps::Done {
                                exprs: seq![expr] + exprs,
                                next: after,
                            },
                        }
                    }
                } else {
                    Steps::Stuck
                }
            },
        }
    }
}

/// The following position: starting from the completed operand `lead`,
/// repeatedly attach the first matching following operator as long as its
/// left binding power strictly exceeds `min_bp`; an operator at or below
/// the threshold is left, unconsumed, to an enclosing call.
pub open spec fn parse_following_spec(
    lang: LanguageView,
    text: Seq<char>,
    lead: ExprView,
    pos: int,
    min_bp: i32,
) -> Step
    decreases text.len() - pos, 0int,
{
    if !(0 <= pos <= text.len()) {
        Step::Stuck
    } else if pos == text.len() {
        Step::Done { expr: lead, next: pos }
    } else {
        match first_following_from(lang.following_operators, text[pos], 0) {
            Option::None => Step::Done { expr: lead, next: pos },
            Option::Some(op) => {
                if min_bp >= op.kind.spec_left_bp() {
                    Step::Done { expr: lead, next: pos }
                } else {
                    match parse_interiors_spec(lang, text, op.symbols, 1, pos + 1) {
                        Steps::Fail { err } => Step::Fail { err },
                        Steps::Stuck => Step::Stuck,
                        Steps::Done { exprs, next } => {
                            if pos < next <= text.len() {
                                let children = seq![ExprView::Atom(op.name), lead] + exprs;
                                match op.kind {
                                    FollowingKind::Postfix { .. } => parse_following_spec(
                                        lang,
                                        text,
                                        ExprView::Node(children),
                                        next,
                                        min_bp,
                                    ),
                                    FollowingKind::Infix { right_bp, .. } => {
                                        match parse_expr_spec(lang, text, next, right_bp) {
                                            Step::Fail { err } => Step::Fail { err },
                                            Step::Stuck => Step::Stuck,
                                            Step::Done { expr, next: after } => {
                                                if pos < after <= text.len() {
                                                    parse_following_spec(
                                                        lang,
                                                        text,
                                                        ExprView::Node(children.push(expr)),
                                                        after,
                                                        min_bp,
                                                    )
                                                } else {
                                                    Step::Stuck
                                                }
                                            },
                                        }
                                    },
                                }
                            } else {
                                Step::Stuck
                            }
                        },
                    }
                }
            },
        }
    }
}

} // verus!
