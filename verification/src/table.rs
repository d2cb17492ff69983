//! The declarative operator table.

use vstd::prelude::*;

verus! {

/// Role of an operator that begins an expression.
#[derive(Debug, Clone, Copy, PartialEq, Eq, Structural)]
pub enum LeadingKind {
    /// After its delimited parts, binds one trailing operand parsed with
    /// threshold `right_bp`.
    Prefix { right_bp: i32 },
    /// Fully delimited by its closing token; its effect does not extend
    /// past it, so it carries no binding power.
    Paren,
}

/// Role of an operator that attaches after a completed operand.
#[derive(Debug, Clone, Copy, PartialEq, Eq, Structural)]
pub enum FollowingKind {
    Postfix { left_bp: i32 },
    Infix { left_bp: i32, right_bp: i32 },
}

impl FollowingKind {
    /// The threshold this operator must strictly exceed to attach to the
    /// operand on its left.
    pub open spec fn spec_left_bp(self) -> i32 {
        match self {
            FollowingKind::Postfix { left_bp } => left_bp,
            FollowingKind::Infix { left_bp, right_bp } => left_bp,
        }
    }

    pub fn left_bp(&self) -> (r: i32)
        ensures
            r == self.spec_left_bp(),
    {
        match self {
            FollowingKind::Postfix { left_bp } => *left_bp,
            FollowingKind::Infix { left_bp, right_bp } => *left_bp,
        }
    }
}

/// One operator declaration: role, display name, ordered tokens.
/// `symbols[0]` is the entry token that triggers the operator; each later
/// symbol is a delimiter consumed after a recursively parsed
/// sub-expression, which is how multi-token operators are declared.
#[derive(Debug)]
pub struct LeadingOp {
    pub kind: LeadingKind,
    pub name: String,
    pub symbols: Vec<char>,
}

#[derive(Debug)]
pub struct FollowingOp {
    pub kind: FollowingKind,
    pub name: String,
    pub symbols: Vec<char>,
}

pub struct LeadingOpView {
    pub kind: LeadingKind,
    pub name: Seq<char>,
    pub symbols: Seq<char>,
}

pub struct FollowingOpView {
    pub kind: FollowingKind,
    pub name: Seq<char>,
    pub symbols: Seq<char>,
}

impl View for LeadingOp {
    type V = LeadingOpView;

    open spec fn view(&self) -> LeadingOpView {
        LeadingOpView { kind: self.kind, name: self.name@, symbols: self.symbols@ }
    }
}

impl View for FollowingOp {
    type V = FollowingOpView;

    open spec fn view(&self) -> FollowingOpView {
        FollowingOpView { kind: self.kind, name: self.name@, symbols: self.symbols@ }
    }
}

pub open spec fn leading_views(v: Seq<LeadingOp>) -> Seq<LeadingOpView> {
    v.map_values(|op: LeadingOp| op@)
}

pub open spec fn following_views(v: Seq<FollowingOp>) -> Seq<FollowingOpView> {
    v.map_values(|op: FollowingOp| op@)
}

/// The operator table: leading and following declarations, in order.
/// Order is significant: when several operators share an entry token, the
/// first declared wins.
#[derive(Debug)]
pub struct Language {
    pub leading_operators: Vec<LeadingOp>,
    pub following_operators: Vec<FollowingOp>,
}

pub struct LanguageView {
    pub leading_operators: Seq<LeadingOpView>,
    pub following_operators: Seq<FollowingOpView>,
}

impl View for Language {
    type V = LanguageView;

    open spec fn view(&self) -> LanguageView {
        LanguageView {
            leading_operators: leading_views(self.leading_operators@),
            following_operators: following_views(self.following_operators@),
        }
    }
}

/// Every declared operator has at least its entry token.
pub open spec fn language_wf(l: LanguageView) -> bool {
    &&& forall|i: int|
        0 <= i < l.leading_operators.len() ==> (#[trigger] l.leading_operators[i]).symbols.len()
            >= 1
    &&& forall|i: int|
        0 <= i < l.following_operators.len() ==> (
        #[trigger] l.following_operators[i]).symbols.len() >= 1
}

impl Language {
    pub open spec fn wf(&self) -> bool {
        language_wf(self@)
    }

    pub fn new(leading_operators: Vec<LeadingOp>, following_operators: Vec<FollowingOp>) -> (r:
        Language)
        ensures
            r@ == (LanguageView {
                leading_operators: leading_views(leading_operators@),
                following_operators: following_views(following_operators@),
            }),
    {
        Language { leading_operators, following_operators }
    }
}

/// A leading operator that, after any delimited parts, binds one trailing
/// operand on its right.
pub fn prefix(name: String, symbols: Vec<char>, right_bp: i32) -> (r: LeadingOp)
    requires
        symbols@.len() >= 1,
    ensures
        r@ == (LeadingOpView {
            kind: LeadingKind::Prefix { right_bp },
            name: name@,
            symbols: symbols@,
        }),
{
    LeadingOp { kind: LeadingKind::Prefix { right_bp }, name, symbols }
}

/// A leading operator whose scope is exactly its delimiters.
pub fn paren(name: String, symbols: Vec<char>) -> (r: LeadingOp)
    requires
        symbols@.len() >= 1,
    ensures
        r@ == (LeadingOpView { kind: LeadingKind::Paren, name: name@, symbols: symbols@ }),
{
    LeadingOp { kind: LeadingKind::Paren, name, symbols }
}

/// A following operator with no trailing operand.
pub fn postfix(name: String, symbols: Vec<char>, left_bp: i32) -> (r: FollowingOp)
    requires
        symbols@.len() >= 1,
    ensures
        r@ == (FollowingOpView {
            kind: FollowingKind::Postfix { left_bp },
            name: name@,
            symbols: symbols@,
        }),
{
    FollowingOp { kind: FollowingKind::Postfix { left_bp }, name, symbols }
}

/// A following operator that also binds one trailing operand, parsed with
/// threshold `right_bp`.
pub fn infix(name: String, symbols: Vec<char>, left_bp: i32, right_bp: i32) -> (r: FollowingOp)
    requires
        symbols@.len() >= 1,
    ensures
        r@ == (FollowingOpView {
            kind: FollowingKind::Infix { left_bp, right_bp },
            name: name@,
            symbols: symbols@,
        }),
{
    FollowingOp { kind: FollowingKind::Infix { left_bp, right_bp }, name, symbols }
}

} // verus!
