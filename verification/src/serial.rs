//! Serialization of a tree to its canonical text.
//!
//! Every binary and unary operator prints fully parenthesized, literals
//! print bare, and the aggregates print in function-call notation.  The
//! text is a function of the tree alone, except at float leaves, whose
//! decimal text comes from the embedder: [`ser_spec`] is `None` exactly
//! when the tree holds a float leaf, and the contract of
//! [`Expression::serialize`] pins the result down whenever it is `Some`.

use vstd::prelude::*;

use crate::floatops::FloatOps;
use crate::text::int_text;
use crate::text::i64_to_string;
use crate::tree::Expression;
use crate::tree::ExprV;
use crate::tree::view_of;
use crate::tree::views_of;
use crate::tree::lemma_views_of;

verus! {

/// Joins two serialized operands with an operator, parenthesized.
pub open spec fn paren2(a: Option<Seq<char>>, op: Seq<char>, b: Option<Seq<char>>) -> Option<
    Seq<char>,
> {
    match (a, b) {
        (Some(x), Some(y)) => Some(seq!['('] + x + op + y + seq![')']),
        _ => None,
    }
}

/// Wraps one serialized operand in a prefix and a suffix.
pub open spec fn wrap1(pre: Seq<char>, a: Option<Seq<char>>, post: Seq<char>) -> Option<
    Seq<char>,
> {
    match a {
        Some(x) => Some(pre + x + post),
        None => None,
    }
}

/// The canonical text of a tree, or `None` when the tree holds a float
/// leaf (its text is the embedder's and is not pinned down).
pub open spec fn ser_spec(e: ExprV) -> Option<Seq<char>>
    decreases e,
{
    match e {
        ExprV::Integer(i) => Some(int_text(i as int)),
        ExprV::Float(_) => None,
        ExprV::Boolean(b) => Some(
            if b {
                "true"@
            } else {
                "false"@
            },
        ),
        ExprV::String(s) => Some(s),
        ExprV::Add(l, r) => paren2(ser_spec(*l), " + "@, ser_spec(*r)),
        ExprV::Subtract(l, r) => paren2(ser_spec(*l), " - "@, ser_spec(*r)),
        ExprV::Multiply(l, r) => paren2(ser_spec(*l), " * "@, ser_spec(*r)),
        ExprV::Divide(l, r) => paren2(ser_spec(*l), " / "@, ser_spec(*r)),
        ExprV::Modulo(l, r) => paren2(ser_spec(*l), " % "@, ser_spec(*r)),
        ExprV::Exp(l, r) => paren2(ser_spec(*l), " ^ "@, ser_spec(*r)),
        ExprV::Negate(e) => wrap1("-"@, ser_spec(*e), Seq::empty()),
        ExprV::LAnd(l, r) => paren2(ser_spec(*l), " && "@, ser_spec(*r)),
        ExprV::LOr(l, r) => paren2(ser_spec(*l), " || "@, ser_spec(*r)),
        ExprV::LNot(e) => wrap1("!"@, ser_spec(*e), Seq::empty()),
        ExprV::CellLValue(c, r) => cell2("(["@, ser_spec(*c), ser_spec(*r)),
        ExprV::CellRValue(c, r) => cell2("(#["@, ser_spec(*c), ser_spec(*r)),
        ExprV::BAnd(l, r) => paren2(ser_spec(*l), " & "@, ser_spec(*r)),
        ExprV::BOr(l, r) => paren2(ser_spec(*l), " | "@, ser_spec(*r)),
        ExprV::Xor(l, r) => paren2(ser_spec(*l), " ^ "@, ser_spec(*r)),
        ExprV::BNot(e) => wrap1("(~"@, ser_spec(*e), ")"@),
        ExprV::LeftShift(l, r) => paren2(ser_spec(*l), " << "@, ser_spec(*r)),
        ExprV::RightShift(l, r) => paren2(ser_spec(*l), " >> "@, ser_spec(*r)),
        ExprV::Equals(l, r) => paren2(ser_spec(*l), " == "@, ser_spec(*r)),
        ExprV::NotEquals(l, r) => paren2(ser_spec(*l), " != "@, ser_spec(*r)),
        ExprV::LessThan(l, r) => paren2(ser_spec(*l), " < "@, ser_spec(*r)),
        ExprV::LessThanEq(l, r) => paren2(ser_spec(*l), " <= "@, ser_spec(*r)),
        ExprV::GreaterThan(l, r) => paren2(ser_spec(*l), " > "@, ser_spec(*r)),
        ExprV::GreaterThanEq(l, r) => paren2(ser_spec(*l), " >= "@, ser_spec(*r)),
        ExprV::FTI(e) => wrap1("(int("@, ser_spec(*e), "))"@),
        ExprV::ITF(e) => wrap1("(float("@, ser_spec(*e), "))"@),
        ExprV::Max(es) => wrap1("max("@, ser_list(es), ")"@),
        ExprV::Min(es) => wrap1("min("@, ser_list(es), ")"@),
        ExprV::Mean(es) => wrap1("avg("@, ser_list(es), ")"@),
        ExprV::Sum(es) => wrap1("sum("@, ser_list(es), ")"@),
    }
}

/// Joins the two cell coordinates after a prefix, closing with `])`.
pub open spec fn cell2(pre: Seq<char>, a: Option<Seq<char>>, b: Option<Seq<char>>) -> Option<
    Seq<char>,
> {
    match (a, b) {
        (Some(x), Some(y)) => Some(pre + x + ", "@ + y + "])"@),
        _ => None,
    }
}

/// The comma-joined texts of a sequence of trees, `None` when any one of
/// them is `None`.
pub open spec fn ser_list(es: Seq<ExprV>) -> Option<Seq<char>>
    decreases es,
{
    if es.len() == 0 {
        Some(Seq::empty())
    } else if es.len() == 1 {
        ser_spec(es[0])
    } else {
        match (ser_spec(es[0]), ser_list(es.drop_first())) {
            (Some(a), Some(b)) => Some(a + ", "@ + b),
            _ => None,
        }
    }
}

/// Appending one more tree to a non-empty list appends `, ` and its text.
proof fn lemma_ser_list_snoc(es: Seq<ExprV>, x: ExprV)
    requires
        es.len() > 0,
    ensures
        ser_list(es.push(x)) == match (ser_list(es), ser_spec(x)) {
            (Some(a), Some(b)) => Some(a + ", "@ + b),
            _ => None,
        },
    decreases es.len(),
{
    let p = es.push(x);
    assert(p[0] == es[0]);
    if es.len() == 1 {
        assert(p.drop_first() =~= seq![x]);
        assert(seq![x][0] == x);
        assert(ser_list(seq![x]) == ser_spec(x));
        assert(ser_list(p) == match (ser_spec(es[0]), ser_spec(x)) {
            (Some(a), Some(b)) => Some(a + ", "@ + b),
            _ => None,
        });
    } else {
        lemma_ser_list_snoc(es.drop_first(), x);
        assert(p.drop_first() =~= es.drop_first().push(x));
        if ser_spec(es[0]) is Some && ser_list(es.drop_first()) is Some && ser_spec(x) is Some {
            assert((ser_spec(es[0]).unwrap() + ", "@ + ser_list(es.drop_first()).unwrap())
                + ", "@ + ser_spec(x).unwrap() =~= ser_spec(es[0]).unwrap() + ", "@ + (ser_list(
                es.drop_first(),
            ).unwrap() + ", "@ + ser_spec(x).unwrap()));
        }
    }
}

/// Appends `b` to `a`.
fn append_str(a: &mut String, b: &str)
    ensures
        final(a)@ == old(a)@ + b@,
{
    a.append(b);
}

impl Expression {
    /// The canonical text of the tree: parenthesized operators, bare
    /// literals, function-call notation for the aggregates.  The result
    /// is a function of the tree alone — two calls on equal trees give
    /// equal text — except that the decimal text of a float leaf is the
    /// embedder's (see [`ser_spec`]).
    pub fn serialize<F: FloatOps>(&self, fl: &F) -> (r: String)
        ensures
            match ser_spec(view_of(*self)) {
                Some(t) => r@ == t,
                None => true,
            },
        decreases self,
    {
        proof {
            reveal_strlit("");
            reveal_strlit(", ");
            reveal_strlit("(");
            reveal_strlit(")");
            reveal_strlit(" + ");
            reveal_strlit(" - ");
            reveal_strlit(" * ");
            reveal_strlit(" / ");
            reveal_strlit(" % ");
            reveal_strlit(" ^ ");
            reveal_strlit("-");
            reveal_strlit(" && ");
            reveal_strlit(" || ");
            reveal_strlit("!");
            reveal_strlit("([");
            reveal_strlit("(#[");
            reveal_strlit("])");
            reveal_strlit(" & ");
            reveal_strlit(" | ");
            reveal_strlit("(~");
            reveal_strlit(" << ");
            reveal_strlit(" >> ");
            reveal_strlit(" == ");
            reveal_strlit(" != ");
            reveal_strlit(" < ");
            reveal_strlit(" <= ");
            reveal_strlit(" > ");
            reveal_strlit(" >= ");
            reveal_strlit("(int(");
            reveal_strlit("(float(");
            reveal_strlit("))");
            reveal_strlit("max(");
            reveal_strlit("min(");
            reveal_strlit("avg(");
            reveal_strlit("sum(");
        }
        match self {
            Expression::Integer(i) => i64_to_string(*i),
            Expression::Float(b) => fl.to_text(*b),
            Expression::Boolean(b) => {
                proof {
                    reveal_strlit("true");
                    reveal_strlit("false");
                }
                if *b {
                    "true".to_owned()
                } else {
                    "false".to_owned()
                }
            },
            Expression::String(s) => s.as_str().to_owned(),
            Expression::Add(l, r) => binary_text(l.serialize(fl), " + ", r.serialize(fl)),
            Expression::Subtract(l, r) => binary_text(l.serialize(fl), " - ", r.serialize(fl)),
            Expression::Multiply(l, r) => binary_text(l.serialize(fl), " * ", r.serialize(fl)),
            Expression::Divide(l, r) => binary_text(l.serialize(fl), " / ", r.serialize(fl)),
            Expression::Modulo(l, r) => binary_text(l.serialize(fl), " % ", r.serialize(fl)),
            Expression::Exp(l, r) => binary_text(l.serialize(fl), " ^ ", r.serialize(fl)),
            Expression::Negate(e) => around_text("-", e.serialize(fl), ""),
            Expression::LAnd(l, r) => binary_text(l.serialize(fl), " && ", r.serialize(fl)),
            Expression::LOr(l, r) => binary_text(l.serialize(fl), " || ", r.serialize(fl)),
            Expression::LNot(e) => around_text("!", e.serialize(fl), ""),
            Expression::CellLValue(c, r) => cell_text("([", c.serialize(fl), r.serialize(fl)),
            Expression::CellRValue(c, r) => cell_text("(#[", c.serialize(fl), r.serialize(fl)),
            Expression::BAnd(l, r) => binary_text(l.serialize(fl), " & ", r.serialize(fl)),
            Expression::BOr(l, r) => binary_text(l.serialize(fl), " | ", r.serialize(fl)),
            Expression::Xor(l, r) => binary_text(l.serialize(fl), " ^ ", r.serialize(fl)),
            Expression::BNot(e) => around_text("(~", e.serialize(fl), ")"),
            Expression::LeftShift(l, r) => binary_text(l.serialize(fl), " << ", r.serialize(fl)),
            Expression::RightShift(l, r) => binary_text(l.serialize(fl), " >> ", r.serialize(fl)),
            Expression::Equals(l, r) => binary_text(l.serialize(fl), " == ", r.serialize(fl)),
            Expression::NotEquals(l, r) => binary_text(l.serialize(fl), " != ", r.serialize(fl)),
            Expression::LessThan(l, r) => binary_text(l.serialize(fl), " < ", r.serialize(fl)),
            Expression::LessThanEq(l, r) => binary_text(l.serialize(fl), " <= ", r.serialize(fl)),
            Expression::GreaterThan(l, r) => binary_text(l.serialize(fl), " > ", r.serialize(fl)),
            Expression::GreaterThanEq(l, r) => binary_text(
                l.serialize(fl),
                " >= ",
                r.serialize(fl),
            ),
            Expression::FTI(e) => around_text("(int(", e.serialize(fl), "))"),
            Expression::ITF(e) => around_text("(float(", e.serialize(fl), "))"),
            Expression::Max(es) => list_text("max(", es, fl),
            Expression::Min(es) => list_text("min(", es, fl),
            Expression::Mean(es) => list_text("avg(", es, fl),
            Expression::Sum(es) => list_text("sum(", es, fl),
        }
    }
}

/// `(a OP b)` as a string.
fn binary_text(a: String, op: &str, b: String) -> (r: String)
    ensures
        r@ == seq!['('] + a@ + op@ + b@ + seq![')'],
{
    proof {
        reveal_strlit("(");
        reveal_strlit(")");
    }
    let mut s = String::new();
    append_str(&mut s, "(");
    append_str(&mut s, a.as_str());
    append_str(&mut s, op);
    append_str(&mut s, b.as_str());
    append_str(&mut s, ")");
    proof {
        assert(s@ =~= seq!['('] + a@ + op@ + b@ + seq![')']);
    }
    s
}

/// `PRE a POST` as a string.
fn around_text(pre: &str, a: String, post: &str) -> (r: String)
    ensures
        r@ == pre@ + a@ + post@,
{
    let mut s = String::new();
    append_str(&mut s, pre);
    append_str(&mut s, a.as_str());
    append_str(&mut s, post);
    proof {
        assert(s@ =~= pre@ + a@ + post@);
    }
    s
}

/// `PRE a, b])` as a string: the shared shape of the two cell markers.
fn cell_text(pre: &str, a: String, b: String) -> (r: String)
    ensures
        r@ == pre@ + a@ + ", "@ + b@ + "])"@,
{
    let mut s = String::new();
    append_str(&mut s, pre);
    append_str(&mut s, a.as_str());
    append_str(&mut s, ", ");
    append_str(&mut s, b.as_str());
    append_str(&mut s, "])");
    proof {
        assert(s@ =~= pre@ + a@ + ", "@ + b@ + "])"@);
    }
    s
}

/// `NAME(e0, e1, ...)` as a string.
fn list_text<F: FloatOps>(name: &str, es: &Vec<Expression>, fl: &F) -> (r: String)
    ensures
        match ser_list(views_of(es@)) {
            Some(t) => r@ == name@ + t + seq![')'],
            None => true,
        },
    decreases es,
{
    proof {
        reveal_strlit(")");
        lemma_views_of(es@);
    }
    let mut s = String::new();
    append_str(&mut s, name);
    let mut i: usize = 0;
    while i < es.len()
        invariant
            i <= es@.len(),
            views_of(es@).len() == es@.len(),
            forall|k: int| 0 <= k < es@.len() ==> views_of(es@)[k] == view_of(es@[k]),
            match ser_list(views_of(es@).take(i as int)) {
                Some(t) => s@ == name@ + t,
                None => true,
            },
        decreases es@.len() - i,
    {
        proof {
            assert(decreases_to!(es => es@));
            assert(decreases_to!(es@ => es@[i as int]));
        }
        if i > 0 {
            append_str(&mut s, ", ");
        }
        let part = es[i].serialize(fl);
        append_str(&mut s, part.as_str());
        proof {
            let pre = views_of(es@).take(i as int);
            let post = views_of(es@).take(i as int + 1);
            assert(post =~= pre.push(views_of(es@)[i as int]));
            if i > 0 {
                lemma_ser_list_snoc(pre, views_of(es@)[i as int]);
            } else {
                assert(post =~= seq![views_of(es@)[i as int]]);
            }
        }
        i += 1;
    }
    append_str(&mut s, ")");
    proof {
        assert(views_of(es@).take(es@.len() as int) =~= views_of(es@));
        if ser_list(views_of(es@)) is Some {
            assert(s@ =~= name@ + ser_list(views_of(es@)).unwrap() + seq![')']);
        }
    }
    s
}

} // verus!


verus! {

/// Serialization is deterministic: two trees of equal value have equal
/// canonical text.  This is the law behind the `ensures` of
/// [`Expression::serialize`], which pins the text to [`ser_spec`], a
/// function of the tree alone.
pub proof fn lemma_serialize_deterministic(a: Expression, b: Expression)
    requires
        view_of(a) == view_of(b),
    ensures
        ser_spec(view_of(a)) == ser_spec(view_of(b)),
{
}

} // verus!
