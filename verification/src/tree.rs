//! The expression tree.
//!
//! An [`Expression`] is a recursive sum type: literals at the leaves,
//! arithmetic, logical, bitwise and comparison operators, conversions, the
//! two cell-access markers and the variadic aggregates.  Every non-leaf
//! node owns its operands; a tree is never mutated after it is built.
//!
//! [`ExprV`] is the mathematical value of a tree.  It mirrors the tree
//! shape, holds text as character sequences, and carries the bit pattern
//! of a float literal as an `Option`: `None` stands for a float value the
//! contracts leave open, which arises where a value came through one of
//! the embedder's floating-point operations (see [`crate::floatops`]).
//! The view of a concrete tree always holds `Some` bits.

use vstd::prelude::*;

verus! {

/// A formula expression tree.
#[derive(Debug)]
pub enum Expression {
    Integer(i64),
    Float(u64),
    Boolean(bool),
    String(String),
    Add(Box<Expression>, Box<Expression>),
    Subtract(Box<Expression>, Box<Expression>),
    Multiply(Box<Expression>, Box<Expression>),
    Divide(Box<Expression>, Box<Expression>),
    Modulo(Box<Expression>, Box<Expression>),
    Exp(Box<Expression>, Box<Expression>),
    Negate(Box<Expression>),
    LAnd(Box<Expression>, Box<Expression>),
    LOr(Box<Expression>, Box<Expression>),
    LNot(Box<Expression>),
    CellLValue(Box<Expression>, Box<Expression>),
    CellRValue(Box<Expression>, Box<Expression>),
    BAnd(Box<Expression>, Box<Expression>),
    BOr(Box<Expression>, Box<Expression>),
    Xor(Box<Expression>, Box<Expression>),
    BNot(Box<Expression>),
    LeftShift(Box<Expression>, Box<Expression>),
    RightShift(Box<Expression>, Box<Expression>),
    Equals(Box<Expression>, Box<Expression>),
    NotEquals(Box<Expression>, Box<Expression>),
    LessThan(Box<Expression>, Box<Expression>),
    LessThanEq(Box<Expression>, Box<Expression>),
    GreaterThan(Box<Expression>, Box<Expression>),
    GreaterThanEq(Box<Expression>, Box<Expression>),
    FTI(Box<Expression>),
    ITF(Box<Expression>),
    Max(Vec<Expression>),
    Min(Vec<Expression>),
    Mean(Vec<Expression>),
    Sum(Vec<Expression>),
}

/// The mathematical value of an [`Expression`].
pub enum ExprV {
    Integer(i64),
    Float(Option<u64>),
    Boolean(bool),
    String(Seq<char>),
    Add(Box<ExprV>, Box<ExprV>),
    Subtract(Box<ExprV>, Box<ExprV>),
    Multiply(Box<ExprV>, Box<ExprV>),
    Divide(Box<ExprV>, Box<ExprV>),
    Modulo(Box<ExprV>, Box<ExprV>),
    Exp(Box<ExprV>, Box<ExprV>),
    Negate(Box<ExprV>),
    LAnd(Box<ExprV>, Box<ExprV>),
    LOr(Box<ExprV>, Box<ExprV>),
    LNot(Box<ExprV>),
    CellLValue(Box<ExprV>, Box<ExprV>),
    CellRValue(Box<ExprV>, Box<ExprV>),
    BAnd(Box<ExprV>, Box<ExprV>),
    BOr(Box<ExprV>, Box<ExprV>),
    Xor(Box<ExprV>, Box<ExprV>),
    BNot(Box<ExprV>),
    LeftShift(Box<ExprV>, Box<ExprV>),
    RightShift(Box<ExprV>, Box<ExprV>),
    Equals(Box<ExprV>, Box<ExprV>),
    NotEquals(Box<ExprV>, Box<ExprV>),
    LessThan(Box<ExprV>, Box<ExprV>),
    LessThanEq(Box<ExprV>, Box<ExprV>),
    GreaterThan(Box<ExprV>, Box<ExprV>),
    GreaterThanEq(Box<ExprV>, Box<ExprV>),
    FTI(Box<ExprV>),
    ITF(Box<ExprV>),
    Max(Seq<ExprV>),
    Min(Seq<ExprV>),
    Mean(Seq<ExprV>),
    Sum(Seq<ExprV>),
}

/// The views of the elements of a sequence of subexpressions.
pub open spec fn views_of(es: Seq<Expression>) -> Seq<ExprV>
    decreases es,
{
    if es.len() == 0 {
        Seq::empty()
    } else {
        seq![view_of(es[0])] + views_of(es.drop_first())
    }
}

/// How [`views_of`] relates to indexing: element by element.
pub proof fn lemma_views_of(es: Seq<Expression>)
    ensures
        views_of(es).len() == es.len(),
        forall|i: int| 0 <= i < es.len() ==> views_of(es)[i] == view_of(es[i]),
    decreases es.len(),
{
    if es.len() > 0 {
        lemma_views_of(es.drop_first());
        assert forall|i: int| 0 <= i < es.len() implies views_of(es)[i] == view_of(es[i]) by {
            if i > 0 {
                assert(es.drop_first()[i - 1] == es[i]);
            }
        }
    }
}

impl DeepView for Expression {
    type V = ExprV;

    #[verifier::inline]
    open spec fn deep_view(&self) -> ExprV {
        view_of(*self)
    }
}

/// The mathematical value of a tree; see [`ExprV`].
pub open spec fn view_of(e: Expression) -> ExprV
    decreases e,
    via view_of_decreases
{
    {
        match &e {
            Expression::Integer(i) => ExprV::Integer(*i),
            Expression::Float(b) => ExprV::Float(Some(*b)),
            Expression::Boolean(b) => ExprV::Boolean(*b),
            Expression::String(s) => ExprV::String(s@),
            Expression::Add(l, r) => ExprV::Add(Box::new(view_of(**l)), Box::new(view_of(**r))),
            Expression::Subtract(l, r) => ExprV::Subtract(
                Box::new(view_of(**l)),
                Box::new(view_of(**r)),
            ),
            Expression::Multiply(l, r) => ExprV::Multiply(
                Box::new(view_of(**l)),
                Box::new(view_of(**r)),
            ),
            Expression::Divide(l, r) => ExprV::Divide(
                Box::new(view_of(**l)),
                Box::new(view_of(**r)),
            ),
            Expression::Modulo(l, r) => ExprV::Modulo(
                Box::new(view_of(**l)),
                Box::new(view_of(**r)),
            ),
            Expression::Exp(l, r) => ExprV::Exp(Box::new(view_of(**l)), Box::new(view_of(**r))),
            Expression::Negate(e) => ExprV::Negate(Box::new(view_of(**e))),
            Expression::LAnd(l, r) => ExprV::LAnd(Box::new(view_of(**l)), Box::new(view_of(**r))),
            Expression::LOr(l, r) => ExprV::LOr(Box::new(view_of(**l)), Box::new(view_of(**r))),
            Expression::LNot(e) => ExprV::LNot(Box::new(view_of(**e))),
            Expression::CellLValue(c, r) => ExprV::CellLValue(
                Box::new(view_of(**c)),
                Box::new(view_of(**r)),
            ),
            Expression::CellRValue(c, r) => ExprV::CellRValue(
                Box::new(view_of(**c)),
                Box::new(view_of(**r)),
            ),
            Expression::BAnd(l, r) => ExprV::BAnd(Box::new(view_of(**l)), Box::new(view_of(**r))),
            Expression::BOr(l, r) => ExprV::BOr(Box::new(view_of(**l)), Box::new(view_of(**r))),
            Expression::Xor(l, r) => ExprV::Xor(Box::new(view_of(**l)), Box::new(view_of(**r))),
            Expression::BNot(e) => ExprV::BNot(Box::new(view_of(**e))),
            Expression::LeftShift(l, r) => ExprV::LeftShift(
                Box::new(view_of(**l)),
                Box::new(view_of(**r)),
            ),
            Expression::RightShift(l, r) => ExprV::RightShift(
                Box::new(view_of(**l)),
                Box::new(view_of(**r)),
            ),
            Expression::Equals(l, r) => ExprV::Equals(
                Box::new(view_of(**l)),
                Box::new(view_of(**r)),
            ),
            Expression::NotEquals(l, r) => ExprV::NotEquals(
                Box::new(view_of(**l)),
                Box::new(view_of(**r)),
            ),
            Expression::LessThan(l, r) => ExprV::LessThan(
                Box::new(view_of(**l)),
                Box::new(view_of(**r)),
            ),
            Expression::LessThanEq(l, r) => ExprV::LessThanEq(
                Box::new(view_of(**l)),
                Box::new(view_of(**r)),
            ),
            Expression::GreaterThan(l, r) => ExprV::GreaterThan(
                Box::new(view_of(**l)),
                Box::new(view_of(**r)),
            ),
            Expression::GreaterThanEq(l, r) => ExprV::GreaterThanEq(
                Box::new(view_of(**l)),
                Box::new(view_of(**r)),
            ),
            Expression::FTI(e) => ExprV::FTI(Box::new(view_of(**e))),
            Expression::ITF(e) => ExprV::ITF(Box::new(view_of(**e))),
            Expression::Max(es) => ExprV::Max(views_of(es@)),
            Expression::Min(es) => ExprV::Min(views_of(es@)),
            Expression::Mean(es) => ExprV::Mean(views_of(es@)),
            Expression::Sum(es) => ExprV::Sum(views_of(es@)),
        }
    }
}

#[via_fn]
proof fn view_of_decreases(e: Expression) {
    match &e {
        Expression::Max(es) => {
            assert(decreases_to!(e => *es));
            assert(decreases_to!(*es => es@));
        },
        Expression::Min(es) => {
            assert(decreases_to!(e => *es));
            assert(decreases_to!(*es => es@));
        },
        Expression::Mean(es) => {
            assert(decreases_to!(e => *es));
            assert(decreases_to!(*es => es@));
        },
        Expression::Sum(es) => {
            assert(decreases_to!(e => *es));
            assert(decreases_to!(*es => es@));
        },
        _ => {},
    }
}

/// Well-formedness of a tree: every aggregate node carries at least one
/// operand.  The parser never builds an empty aggregate; a hand-built
/// empty one is a precondition violation of the evaluator.
pub open spec fn expr_wf(e: ExprV) -> bool
    decreases e,
{
    match e {
        ExprV::Integer(_) => true,
        ExprV::Float(_) => true,
        ExprV::Boolean(_) => true,
        ExprV::String(_) => true,
        ExprV::Add(l, r) => expr_wf(*l) && expr_wf(*r),
        ExprV::Subtract(l, r) => expr_wf(*l) && expr_wf(*r),
        ExprV::Multiply(l, r) => expr_wf(*l) && expr_wf(*r),
        ExprV::Divide(l, r) => expr_wf(*l) && expr_wf(*r),
        ExprV::Modulo(l, r) => expr_wf(*l) && expr_wf(*r),
        ExprV::Exp(l, r) => expr_wf(*l) && expr_wf(*r),
        ExprV::Negate(e) => expr_wf(*e),
        ExprV::LAnd(l, r) => expr_wf(*l) && expr_wf(*r),
        ExprV::LOr(l, r) => expr_wf(*l) && expr_wf(*r),
        ExprV::LNot(e) => expr_wf(*e),
        ExprV::CellLValue(c, r) => expr_wf(*c) && expr_wf(*r),
        ExprV::CellRValue(c, r) => expr_wf(*c) && expr_wf(*r),
        ExprV::BAnd(l, r) => expr_wf(*l) && expr_wf(*r),
        ExprV::BOr(l, r) => expr_wf(*l) && expr_wf(*r),
        ExprV::Xor(l, r) => expr_wf(*l) && expr_wf(*r),
        ExprV::BNot(e) => expr_wf(*e),
        ExprV::LeftShift(l, r) => expr_wf(*l) && expr_wf(*r),
        ExprV::RightShift(l, r) => expr_wf(*l) && expr_wf(*r),
        ExprV::Equals(l, r) => expr_wf(*l) && expr_wf(*r),
        ExprV::NotEquals(l, r) => expr_wf(*l) && expr_wf(*r),
        ExprV::LessThan(l, r) => expr_wf(*l) && expr_wf(*r),
        ExprV::LessThanEq(l, r) => expr_wf(*l) && expr_wf(*r),
        ExprV::GreaterThan(l, r) => expr_wf(*l) && expr_wf(*r),
        ExprV::GreaterThanEq(l, r) => expr_wf(*l) && expr_wf(*r),
        ExprV::FTI(e) => expr_wf(*e),
        ExprV::ITF(e) => expr_wf(*e),
        ExprV::Max(es) => es.len() > 0 && (forall|i: int|
            0 <= i < es.len() ==> expr_wf(#[trigger] es[i])),
        ExprV::Min(es) => es.len() > 0 && (forall|i: int|
            0 <= i < es.len() ==> expr_wf(#[trigger] es[i])),
        ExprV::Mean(es) => es.len() > 0 && (forall|i: int|
            0 <= i < es.len() ==> expr_wf(#[trigger] es[i])),
        ExprV::Sum(es) => es.len() > 0 && (forall|i: int|
            0 <= i < es.len() ==> expr_wf(#[trigger] es[i])),
    }
}

impl Expression {
    /// A structural copy of the tree, equal to the original in value.
    pub fn duplicate(&self) -> (r: Expression)
        ensures
            r.deep_view() == self.deep_view(),
        decreases self,
    {
        match self {
            Expression::Integer(i) => Expression::Integer(*i),
            Expression::Float(b) => Expression::Float(*b),
            Expression::Boolean(b) => Expression::Boolean(*b),
            Expression::String(s) => Expression::String(s.clone()),
            Expression::Add(l, r) => Expression::Add(
                Box::new(l.duplicate()),
                Box::new(r.duplicate()),
            ),
            Expression::Subtract(l, r) => Expression::Subtract(
                Box::new(l.duplicate()),
                Box::new(r.duplicate()),
            ),
            Expression::Multiply(l, r) => Expression::Multiply(
                Box::new(l.duplicate()),
                Box::new(r.duplicate()),
            ),
            Expression::Divide(l, r) => Expression::Divide(
                Box::new(l.duplicate()),
                Box::new(r.duplicate()),
            ),
            Expression::Modulo(l, r) => Expression::Modulo(
                Box::new(l.duplicate()),
                Box::new(r.duplicate()),
            ),
            Expression::Exp(l, r) => Expression::Exp(
                Box::new(l.duplicate()),
                Box::new(r.duplicate()),
            ),
            Expression::Negate(e) => Expression::Negate(Box::new(e.duplicate())),
            Expression::LAnd(l, r) => Expression::LAnd(
                Box::new(l.duplicate()),
                Box::new(r.duplicate()),
            ),
            Expression::LOr(l, r) => Expression::LOr(
                Box::new(l.duplicate()),
                Box::new(r.duplicate()),
            ),
            Expression::LNot(e) => Expression::LNot(Box::new(e.duplicate())),
            Expression::CellLValue(c, r) => Expression::CellLValue(
                Box::new(c.duplicate()),
                Box::new(r.duplicate()),
            ),
            Expression::CellRValue(c, r) => Expression::CellRValue(
                Box::new(c.duplicate()),
                Box::new(r.duplicate()),
            ),
            Expression::BAnd(l, r) => Expression::BAnd(
                Box::new(l.duplicate()),
                Box::new(r.duplicate()),
            ),
            Expression::BOr(l, r) => Expression::BOr(
                Box::new(l.duplicate()),
                Box::new(r.duplicate()),
            ),
            Expression::Xor(l, r) => Expression::Xor(
                Box::new(l.duplicate()),
                Box::new(r.duplicate()),
            ),
            Expression::BNot(e) => Expression::BNot(Box::new(e.duplicate())),
            Expression::LeftShift(l, r) => Expression::LeftShift(
                Box::new(l.duplicate()),
                Box::new(r.duplicate()),
            ),
            Expression::RightShift(l, r) => Expression::RightShift(
                Box::new(l.duplicate()),
                Box::new(r.duplicate()),
            ),
            Expression::Equals(l, r) => Expression::Equals(
                Box::new(l.duplicate()),
                Box::new(r.duplicate()),
            ),
            Expression::NotEquals(l, r) => Expression::NotEquals(
                Box::new(l.duplicate()),
                Box::new(r.duplicate()),
            ),
            Expression::LessThan(l, r) => Expression::LessThan(
                Box::new(l.duplicate()),
                Box::new(r.duplicate()),
            ),
            Expression::LessThanEq(l, r) => Expression::LessThanEq(
                Box::new(l.duplicate()),
                Box::new(r.duplicate()),
            ),
            Expression::GreaterThan(l, r) => Expression::GreaterThan(
                Box::new(l.duplicate()),
                Box::new(r.duplicate()),
            ),
            Expression::GreaterThanEq(l, r) => Expression::GreaterThanEq(
                Box::new(l.duplicate()),
                Box::new(r.duplicate()),
            ),
            Expression::FTI(e) => Expression::FTI(Box::new(e.duplicate())),
            Expression::ITF(e) => Expression::ITF(Box::new(e.duplicate())),
            Expression::Max(es) => Expression::Max(duplicate_all(es)),
            Expression::Min(es) => Expression::Min(duplicate_all(es)),
            Expression::Mean(es) => Expression::Mean(duplicate_all(es)),
            Expression::Sum(es) => Expression::Sum(duplicate_all(es)),
        }
    }
}

/// Structural copies of every element.
fn duplicate_all(es: &Vec<Expression>) -> (r: Vec<Expression>)
    ensures
        views_of(r@) == views_of(es@),
    decreases es,
{
    let mut out: Vec<Expression> = Vec::new();
    let mut i: usize = 0;
    while i < es.len()
        invariant
            i <= es@.len(),
            out@.len() == i,
            forall|k: int| 0 <= k < i ==> (#[trigger] out@[k]).deep_view() == es@[k].deep_view(),
        decreases es@.len() - i,
    {
        proof {
            assert(decreases_to!(es => es@));
            assert(decreases_to!(es@ => es@[i as int]));
        }
        let d = es[i].duplicate();
        out.push(d);
        i += 1;
    }
    proof {
        lemma_views_of(out@);
        lemma_views_of(es@);
        assert(views_of(out@) =~= views_of(es@));
    }
    out
}

} // verus!
