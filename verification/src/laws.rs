//! Properties that hold for every operator table and every input.

use crate::expr::ExprView;
use crate::model::Step;
use crate::model::Steps;
use crate::model::first_following_from;
use crate::model::first_leading_from;
use crate::model::parse_expr_spec;
use crate::model::parse_following_spec;
use crate::model::parse_interiors_spec;
use crate::model::parse_leading_spec;
use crate::table::FollowingKind;
use crate::table::FollowingOpView;
use crate::table::LanguageView;
use crate::table::LeadingKind;
use crate::table::LeadingOpView;
use vstd::prelude::*;

verus! {

/// Every parse of one expression ends in a tree or in one of the three
/// fatal errors — never in the `Stuck` marker — and a parse that returns
/// a tree consumes a contiguous, non-empty span of the text: its end
/// position lies strictly past the start and never past the end of the
/// buffer.  Together with the engine's contracts this is the guarantee
/// that each invocation consumes one contiguous prefix of the remaining
/// input, no token twice and none skipped.
pub proof fn lemma_parse_consumes_contiguous_span(
    lang: LanguageView,
    text: Seq<char>,
    pos: int,
    min_bp: i32,
)
    requires
        0 <= pos <= text.len(),
    ensures
        !(parse_expr_spec(lang, text, pos, min_bp) is Stuck),
        parse_expr_spec(lang, text, pos, min_bp) matches Step::Done { expr, next } ==> pos < next
            <= text.len(),
    decreases text.len() - pos, 3int,
{
    lemma_leading_consumes_span(lang, text, pos);
    match parse_leading_spec(lang, text, pos) {
        Step::Done { expr, next } => {
            lemma_following_consumes_span(lang, text, expr, next, min_bp);
        },
        _ => {},
    }
}

proof fn lemma_leading_consumes_span(lang: LanguageView, text: Seq<char>, pos: int)
    requires
        0 <= pos <= text.len(),
    ensures
        !(parse_leading_spec(lang, text, pos) is Stuck),
        parse_leading_spec(lang, text, pos) matches Step::Done { expr, next } ==> pos < next
            <= text.len(),
    decreases text.len() - pos, 2int,
{
    if pos < text.len() {
        match first_leading_from(lang.leading_operators, text[pos], 0) {
            Option::None => {},
            Option::Some(op) => {
                lemma_interiors_consume_span(lang, text, op.symbols, 1, pos + 1);
                match parse_interiors_spec(lang, text, op.symbols, 1, pos + 1) {
                    Steps::Done { exprs, next } => {
                        match op.kind {
                            LeadingKind::Paren => {},
                            LeadingKind::Prefix { right_bp } => {
                                lemma_parse_consumes_contiguous_span(lang, text, next, right_bp);
                            },
                        }
                    },
                    _ => {},
                }
            },
        }
    }
}

proof fn lemma_interiors_consume_span(
    lang: LanguageView,
    text: Seq<char>,
    syms: Seq<char>,
    i: int,
    pos: int,
)
    requires
        0 <= pos <= text.len(),
        0 <= i,
    ensures
        !(parse_interiors_spec(lang, text, syms, i, pos) is Stuck),
        parse_interiors_spec(lang, text, syms, i, pos) matches Steps::Done { exprs, next } ==> pos
            <= next <= text.len(),
    decreases text.len() - pos, 4int,
{
    if i < syms.len() {
        lemma_parse_consumes_contiguous_span(lang, text, pos, 0);
        match parse_expr_spec(lang, text, pos, 0) {
            Step::Done { expr, next } => {
                if next < text.len() && text[next] == syms[i] {
                    lemma_interiors_consume_span(lang, text, syms, i + 1, next + 1);
                }
            },
            _ => {},
        }
    }
}

proof fn lemma_following_consumes_span(
    lang: LanguageView,
    text: Seq<char>,
    lead: ExprView,
    pos: int,
    min_bp: i32,
)
    requires
        0 <= pos <= text.len(),
    ensures
        !(parse_following_spec(lang, text, lead, pos, min_bp) is Stuck),
        parse_following_spec(lang, text, lead, pos, min_bp) matches Step::Done { expr, next }
            ==> pos <= next <= text.len(),
    decreases text.len() - pos, 0int,
{
    if pos < text.len() {
        match first_following_from(lang.following_operators, text[pos], 0) {
            Option::None => {},
            Option::Some(op) => {
                if min_bp < op.kind.spec_left_bp() {
                    lemma_interiors_consume_span(lang, text, op.symbols, 1, pos + 1);
                    match parse_interiors_spec(lang, text, op.symbols, 1, pos + 1) {
                        Steps::Done { exprs, next } => {
                            let children = seq![ExprView::Atom(op.name), lead] + exprs;
                            match op.kind {
                                FollowingKind::Postfix { .. } => {
                                    lemma_following_consumes_span(
                                        lang,
                                        text,
                                        ExprView::Node(children),
                                        next,
                                        min_bp,
                                    );
                                },
                                FollowingKind::Infix { right_bp, .. } => {
                                    lemma_parse_consumes_contiguous_span(
                                        lang,
                                        text,
                                        next,
                                        right_bp,
                                    );
                                    match parse_expr_spec(lang, text, next, right_bp) {
                                        Step::Done { expr, next: after } => {
                                            lemma_following_consumes_span(
                                                lang,
                                                text,
                                                ExprView::Node(children.push(expr)),
                                                after,
                                                min_bp,
                                            );
                                        },
                                        _ => {},
                                    }
                                },
                            }
                        },
                        _ => {},
                    }
                }
            },
        }
    }
}

proof fn lemma_leading_scan(ops: Seq<LeadingOpView>, c: char, s: int, i: int)
    requires
        0 <= s <= i < ops.len(),
        ops[i].symbols.len() >= 1,
        ops[i].symbols[0] == c,
        forall|k: int|
            s <= k < i ==> !((#[trigger] ops[k]).symbols.len() >= 1 && ops[k].symbols[0] == c),
    ensures
        first_leading_from(ops, c, s) == Some(ops[i]),
    decreases i - s,
{
    if s < i {
        lemma_leading_scan(ops, c, s + 1, i);
    }
}

/// Declaration-order determinism for leading operators: whenever several
/// declared operators share an entry token, a lookup of that token
/// resolves to the earliest declaration — for every table and every
/// character, hence for every input and every run of the engine.
pub proof fn lemma_leading_first_declared_wins(ops: Seq<LeadingOpView>, c: char, i: int)
    requires
        0 <= i < ops.len(),
        ops[i].symbols.len() >= 1,
        ops[i].symbols[0] == c,
        forall|k: int|
            0 <= k < i ==> !((#[trigger] ops[k]).symbols.len() >= 1 && ops[k].symbols[0] == c),
    ensures
        first_leading_from(ops, c, 0) == Some(ops[i]),
{
    lemma_leading_scan(ops, c, 0, i);
}

proof fn lemma_following_scan(ops: Seq<FollowingOpView>, c: char, s: int, i: int)
    requires
        0 <= s <= i < ops.len(),
        ops[i].symbols.len() >= 1,
        ops[i].symbols[0] == c,
        forall|k: int|
            s <= k < i ==> !((#[trigger] ops[k]).symbols.len() >= 1 && ops[k].symbols[0] == c),
    ensures
        first_following_from(ops, c, s) == Some(ops[i]),
    decreases i - s,
{
    if s < i {
        lemma_following_scan(ops, c, s + 1, i);
    }
}

/// Declaration-order determinism for following operators, as for leading
/// ones.
pub proof fn lemma_following_first_declared_wins(ops: Seq<FollowingOpView>, c: char, i: int)
    requires
        0 <= i < ops.len(),
        ops[i].symbols.len() >= 1,
        ops[i].symbols[0] == c,
        forall|k: int|
            0 <= k < i ==> !((#[trigger] ops[k]).symbols.len() >= 1 && ops[k].symbols[0] == c),
    ensures
        first_following_from(ops, c, 0) == Some(ops[i]),
{
    lemma_following_scan(ops, c, 0, i);
}

} // verus!
