//! The output tree of the parser and its canonical text form.

use vstd::prelude::*;

verus! {

broadcast use vstd::std_specs::vec::axiom_vec_index_decreases;

/// Mathematical form of an expression tree: an atom's text, or an ordered
/// list of child trees.
pub enum ExprView {
    Atom(Seq<char>),
    Node(Seq<ExprView>),
}

/// An expression tree: a leaf token, or a node whose first child by
/// convention is an atom naming the operator.  Trees are immutable once
/// built; the engine is their only producer.
#[derive(Debug, PartialEq, Eq)]
pub enum Expression {
    Atom(String),
    Node(Vec<Expression>),
}

impl Expression {
    pub open spec fn view(&self) -> ExprView
        decreases self,
    {
        match self {
            Expression::Atom(s) => ExprView::Atom(s@),
            Expression::Node(cs) => ExprView::Node(Self::seq_view(cs@)),
        }
    }

    /// The views of a list of trees, in order.
    pub open spec fn seq_view(s: Seq<Expression>) -> Seq<ExprView>
        decreases s,
    {
        if s.len() == 0 {
            Seq::empty()
        } else {
            Self::seq_view(s.drop_last()).push(s.last().view())
        }
    }
}

pub proof fn lemma_seq_view_len(s: Seq<Expression>)
    ensures
        Expression::seq_view(s).len() == s.len(),
    decreases s.len(),
{
    if s.len() > 0 {
        lemma_seq_view_len(s.drop_last());
    }
}

pub proof fn lemma_seq_view_push(s: Seq<Expression>, e: Expression)
    ensures
        Expression::seq_view(s.push(e)) == Expression::seq_view(s).push(e.view()),
{
    assert(s.push(e).drop_last() =~= s);
    assert(s.push(e).last() == e);
}

pub proof fn lemma_seq_view_concat(a: Seq<Expression>, b: Seq<Expression>)
    ensures
        Expression::seq_view(a + b) == Expression::seq_view(a) + Expression::seq_view(b),
    decreases b.len(),
{
    if b.len() == 0 {
        assert(a + b =~= a);
        assert(Expression::seq_view(a) + Expression::seq_view(b) =~= Expression::seq_view(a));
    } else {
        lemma_seq_view_concat(a, b.drop_last());
        assert((a + b).drop_last() =~= a + b.drop_last());
        assert((a + b).last() == b.last());
        lemma_seq_view_len(a + b.drop_last());
        assert(Expression::seq_view(a) + Expression::seq_view(b) =~= (Expression::seq_view(a)
            + Expression::seq_view(b.drop_last())).push(b.last().view()));
    }
}

pub proof fn lemma_seq_view_one(a: Expression)
    ensures
        Expression::seq_view(seq![a]) == seq![a.view()],
{
    assert(Expression::seq_view(Seq::<Expression>::empty()) =~= Seq::<ExprView>::empty());
    assert(seq![a].drop_last() =~= Seq::<Expression>::empty());
    assert(seq![a].last() == a);
    assert(Expression::seq_view(seq![a]) =~= seq![a.view()]);
}

pub proof fn lemma_seq_view_two(a: Expression, b: Expression)
    ensures
        Expression::seq_view(seq![a, b]) == seq![a.view(), b.view()],
{
    lemma_seq_view_one(a);
    assert(seq![a, b].drop_last() =~= seq![a]);
    assert(seq![a, b].last() == b);
    assert(Expression::seq_view(seq![a, b]) =~= seq![a.view(), b.view()]);
}

/// Canonical text of a tree: an atom is its literal text; a node is `(`,
/// the space-joined texts of its children in order, then `)`.
pub open spec fn render_view(v: ExprView) -> Seq<char>
    decreases v,
{
    match v {
        ExprView::Atom(s) => s,
        ExprView::Node(cs) => seq!['('] + render_children(cs) + seq![')'],
    }
}

/// Space-joined canonical texts of a list of trees.
pub open spec fn render_children(cs: Seq<ExprView>) -> Seq<char>
    decreases cs,
{
    if cs.len() == 0 {
        Seq::empty()
    } else if cs.len() == 1 {
        render_view(cs[0])
    } else {
        render_children(cs.drop_last()) + seq![' '] + render_view(cs.last())
    }
}

impl Expression {
    /// Render the canonical text form, used by tests as the structural
    /// equality oracle.
    #[verifier::loop_isolation(false)]
    pub fn render(&self) -> (r: String)
        ensures
            r@ == render_view(self.view()),
        decreases self,
    {
        match self {
            Expression::Atom(s) => s.clone(),
            Expression::Node(cs) => {
                proof {
                    reveal_strlit("(");
                    reveal_strlit(")");
                    reveal_strlit(" ");
                }
                let mut r = String::new();
                r.append("(");
                assert(r@ =~= seq!['(']);
                proof {
                    lemma_seq_view_len(cs@);
                }
                let n = cs.len();
                let mut i: usize = 0;
                while i < n
                    invariant
                        n == cs@.len(),
                        i <= n,
                        "("@ == seq!['('],
                        ")"@ == seq![')'],
                        " "@ == seq![' '],
                        r@ == seq!['('] + render_children(Expression::seq_view(cs@).subrange(
                            0,
                            i as int,
                        )),
                        Expression::seq_view(cs@).len() == cs@.len(),
                    decreases n - i,
                {
                    if i > 0 {
                        r.append(" ");
                    }
                    let piece = cs[i].render();
                    r.append(piece.as_str());
                    proof {
                        let vs = Expression::seq_view(cs@);
                        lemma_seq_view_index(cs@, i as int);
                        assert(vs.subrange(0, i + 1 as int).drop_last() =~= vs.subrange(
                            0,
                            i as int,
                        ));
                        assert(vs.subrange(0, i + 1 as int).last() == vs[i as int]);
                        assert(r@ =~= seq!['('] + render_children(
                            vs.subrange(0, i + 1 as int),
                        ));
                    }
                    i = i + 1;
                }
                r.append(")");
                proof {
                    let vs = Expression::seq_view(cs@);
                    assert(vs.subrange(0, vs.len() as int) =~= vs);
                    assert(r@ =~= seq!['('] + render_children(vs) + seq![')']);
                }
                r
            },
        }
    }
}

pub proof fn lemma_seq_view_index(s: Seq<Expression>, i: int)
    requires
        0 <= i < s.len(),
    ensures
        Expression::seq_view(s).len() == s.len(),
        Expression::seq_view(s)[i] == s[i].view(),
    decreases s.len(),
{
    lemma_seq_view_len(s);
    if i < s.len() - 1 {
        lemma_seq_view_index(s.drop_last(), i);
    }
}

} // verus!
