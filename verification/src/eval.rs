//! Evaluation of a tree against a grid.
//!
//! Evaluation is strictly post-order: operands are evaluated before the
//! operator is applied, and the first failing subexpression wins — its
//! siblings to the right are not evaluated.  The result is a literal
//! expression (or a cell-write marker, which evaluates to itself), or a
//! human-readable error message.
//!
//! [`eval_spec`] is the mathematical account: for every node it gives the
//! exact result, except where a value passed through one of the embedder's
//! floating-point operations.  A float whose bits are not pinned down
//! appears as `ExprV::Float(None)`; where not even the choice between
//! success and failure is pinned down (a division whose divisor is such a
//! float, a float truncated to an integer) the outcome is `None`, and the
//! contract of [`Expression::evaluate`] says nothing there.
//!
//! Where an integer result would fall outside `i64` the
//! evaluator fails rather than wrapping: integer overflow, a shift amount
//! outside `0..64`, and an exponent outside `0..=u32::MAX` each give an
//! error; this engine's evaluator never panics.

use vstd::prelude::*;

use vstd::arithmetic::power::pow;

use crate::cell::CellValueV;
use crate::cell::CellV;
use crate::floatops::f64_eq;
use crate::floatops::f64_is_zero;
use crate::floatops::f64_lt;
use crate::floatops::f64_le;
use crate::floatops::f64_neg;
use crate::grid::COLS;
use crate::grid::ROWS;
use crate::serial::ser_spec;
use crate::tree::ExprV;

verus! {

/// The error text of a failed integer operation under this engine's
/// no-wrapping policy.
pub open spec fn overflow_msg() -> Seq<char> {
    "Integer overflow"@
}

/// The arithmetic operators that share one coercion shape.
#[derive(Clone, Copy, Debug)]
pub enum ArithOp {
    Add,
    Sub,
    Mul,
}

/// The binary bitwise operators.
#[derive(Clone, Copy, Debug)]
pub enum BitOp {
    And,
    Or,
    Xor,
}

/// The two shift operators.
#[derive(Clone, Copy, Debug)]
pub enum ShiftOp {
    Left,
    Right,
}

/// The four ordering comparisons.
#[derive(Clone, Copy, Debug)]
pub enum OrdOp {
    Lt,
    Le,
    Gt,
    Ge,
}

/// Exact integer arithmetic, `None` on overflow.
pub open spec fn arith_int(op: ArithOp, a: i64, b: i64) -> Option<i64> {
    match op {
        ArithOp::Add => a.checked_add(b),
        ArithOp::Sub => a.checked_sub(b),
        ArithOp::Mul => a.checked_mul(b),
    }
}

/// The incompatible-types text of an arithmetic operator.
pub open spec fn arith_msg(op: ArithOp) -> Seq<char> {
    match op {
        ArithOp::Add => "Incompatible types for addition"@,
        ArithOp::Sub => "Incompatible types for subtraction"@,
        ArithOp::Mul => "Incompatible types for multiplication"@,
    }
}

/// Addition, subtraction and multiplication on two evaluated values:
/// integers stay integers, any mix of integer and float widens to float
/// (with bits left open, as the embedder computes them), anything else is
/// an incompatible-types error.
pub open spec fn arith_vals(op: ArithOp, l: ExprV, r: ExprV) -> Option<
    Result<ExprV, Seq<char>>,
> {
    match (l, r) {
        (ExprV::Integer(a), ExprV::Integer(b)) => match arith_int(op, a, b) {
            Some(v) => Some(Ok(ExprV::Integer(v))),
            None => Some(Err(overflow_msg())),
        },
        (ExprV::Integer(_), ExprV::Float(_)) => Some(Ok(ExprV::Float(None))),
        (ExprV::Float(_), ExprV::Integer(_)) => Some(Ok(ExprV::Float(None))),
        (ExprV::Float(_), ExprV::Float(_)) => Some(Ok(ExprV::Float(None))),
        _ => Some(Err(arith_msg(op))),
    }
}

/// Division: checked on integers, and on floats only after the divisor is
/// seen not to be a zero.  A divisor whose bits are open leaves the whole
/// outcome open.
pub open spec fn div_vals(l: ExprV, r: ExprV) -> Option<Result<ExprV, Seq<char>>> {
    match (l, r) {
        (ExprV::Integer(a), ExprV::Integer(b)) => if b == 0 {
            Some(Err("Divide by zero error"@))
        } else {
            match a.checked_div(b) {
                Some(q) => Some(Ok(ExprV::Integer(q))),
                None => Some(Err(overflow_msg())),
            }
        },
        (ExprV::Integer(_), ExprV::Float(ob)) => match ob {
            Some(b) => if f64_is_zero(b) {
                Some(Err("Divide by zero error"@))
            } else {
                Some(Ok(ExprV::Float(None)))
            },
            None => None,
        },
        (ExprV::Float(_), ExprV::Float(ob)) => match ob {
            Some(b) => if f64_is_zero(b) {
                Some(Err("Divide by zero error"@))
            } else {
                Some(Ok(ExprV::Float(None)))
            },
            None => None,
        },
        (ExprV::Float(_), ExprV::Integer(b)) => if b == 0 {
            Some(Err("Divide by zero error"@))
        } else {
            Some(Ok(ExprV::Float(None)))
        },
        _ => Some(Err("Incompatible types for division"@)),
    }
}

/// Modulo: integers only, checked.
pub open spec fn mod_vals(l: ExprV, r: ExprV) -> Option<Result<ExprV, Seq<char>>> {
    match (l, r) {
        (ExprV::Integer(a), ExprV::Integer(b)) => if b == 0 {
            Some(Err("Modulo by zero error"@))
        } else {
            match a.checked_rem(b) {
                Some(v) => Some(Ok(ExprV::Integer(v))),
                None => Some(Err(overflow_msg())),
            }
        },
        _ => Some(Err("Modulo operation only valid on integers"@)),
    }
}

/// Exponentiation: an integer base under an integer exponent is exact
/// integer power, failing outside `i64` or on an exponent outside
/// `0..=u32::MAX`; any float operand goes to the embedder and the bits
/// are left open.
pub open spec fn exp_vals(l: ExprV, r: ExprV) -> Option<Result<ExprV, Seq<char>>> {
    match (l, r) {
        (ExprV::Integer(a), ExprV::Integer(b)) => if b < 0 || b > u32::MAX as i64 {
            Some(Err("Exponent out of range"@))
        } else if pow(a as int, b as nat) < i64::MIN || pow(a as int, b as nat) > i64::MAX {
            Some(Err(overflow_msg()))
        } else {
            Some(Ok(ExprV::Integer(pow(a as int, b as nat) as i64)))
        },
        (ExprV::Integer(_), ExprV::Float(_)) => Some(Ok(ExprV::Float(None))),
        (ExprV::Float(_), ExprV::Integer(_)) => Some(Ok(ExprV::Float(None))),
        (ExprV::Float(_), ExprV::Float(_)) => Some(Ok(ExprV::Float(None))),
        _ => Some(Err("Incompatible types for exponentiation"@)),
    }
}

/// Sign flip: exact on integers (failing only on `i64::MIN`) and exact on
/// floats with known bits, since negation only flips the sign bit.
pub open spec fn neg_val(v: ExprV) -> Option<Result<ExprV, Seq<char>>> {
    match v {
        ExprV::Integer(a) => if a == i64::MIN {
            Some(Err(overflow_msg()))
        } else {
            Some(Ok(ExprV::Integer((0 - a) as i64)))
        },
        ExprV::Float(ob) => match ob {
            Some(b) => Some(Ok(ExprV::Float(Some(f64_neg(b))))),
            None => Some(Ok(ExprV::Float(None))),
        },
        _ => Some(Err("Negate operation only valid on numeric types"@)),
    }
}

/// Logical and / or: booleans only.
pub open spec fn logic_vals(is_and: bool, l: ExprV, r: ExprV) -> Option<
    Result<ExprV, Seq<char>>,
> {
    match (l, r) {
        (ExprV::Boolean(a), ExprV::Boolean(b)) => Some(
            Ok(
                ExprV::Boolean(
                    if is_and {
                        a && b
                    } else {
                        a || b
                    },
                ),
            ),
        ),
        _ => Some(
            Err(
                if is_and {
                    "Logical AND only valid on boolean values"@
                } else {
                    "Logical OR only valid on boolean values"@
                },
            ),
        ),
    }
}

/// Logical not: booleans only.
pub open spec fn lnot_val(v: ExprV) -> Option<Result<ExprV, Seq<char>>> {
    match v {
        ExprV::Boolean(b) => Some(Ok(ExprV::Boolean(!b))),
        _ => Some(Err("Logical NOT only valid on booleans"@)),
    }
}

/// The incompatible-types text of a bitwise operator.
pub open spec fn bit_msg(op: BitOp) -> Seq<char> {
    match op {
        BitOp::And => "Incompatible types for Bitwise AND"@,
        BitOp::Or => "Incompatible types for Bitwise OR"@,
        BitOp::Xor => "Incompatible types for Bitwise XOR"@,
    }
}

/// Bitwise and / or / xor: integers only, two's-complement, total.
pub open spec fn bit_vals(op: BitOp, l: ExprV, r: ExprV) -> Option<Result<ExprV, Seq<char>>> {
    match (l, r) {
        (ExprV::Integer(a), ExprV::Integer(b)) => Some(
            Ok(
                ExprV::Integer(
                    match op {
                        BitOp::And => a & b,
                        BitOp::Or => a | b,
                        BitOp::Xor => a ^ b,
                    },
                ),
            ),
        ),
        _ => Some(Err(bit_msg(op))),
    }
}

/// Bitwise not: integers only.  In two's complement, flipping every bit
/// of `a` gives `-1 - a`.
pub open spec fn bnot_val(v: ExprV) -> Option<Result<ExprV, Seq<char>>> {
    match v {
        ExprV::Integer(a) => Some(Ok(ExprV::Integer((-1 - a) as i64))),
        _ => Some(Err("Incompatible type for Bitwise NOT"@)),
    }
}

/// Shifts: integers only, and the amount must lie in `0..64`.
pub open spec fn shift_vals(op: ShiftOp, l: ExprV, r: ExprV) -> Option<
    Result<ExprV, Seq<char>>,
> {
    match (l, r) {
        (ExprV::Integer(a), ExprV::Integer(b)) => if b < 0 || b >= 64 {
            Some(Err("Shift amount out of range"@))
        } else {
            Some(
                Ok(
                    ExprV::Integer(
                        match op {
                            ShiftOp::Left => a << b,
                            ShiftOp::Right => a >> b,
                        },
                    ),
                ),
            )
        },
        _ => Some(
            Err(
                match op {
                    ShiftOp::Left => "Incompatible types for Left Shift"@,
                    ShiftOp::Right => "Incompatible types for Right Shift"@,
                },
            ),
        ),
    }
}

/// Equality and inequality: defined across same-typed pairs of the four
/// scalar kinds; floats compare by IEEE-754 equality when both bit
/// patterns are known.
pub open spec fn eq_vals(negated: bool, l: ExprV, r: ExprV) -> Option<
    Result<ExprV, Seq<char>>,
> {
    match (l, r) {
        (ExprV::Integer(a), ExprV::Integer(b)) => Some(Ok(ExprV::Boolean((a == b) != negated))),
        (ExprV::Float(oa), ExprV::Float(ob)) => match (oa, ob) {
            (Some(a), Some(b)) => Some(Ok(ExprV::Boolean(f64_eq(a, b) != negated))),
            _ => None,
        },
        (ExprV::Boolean(a), ExprV::Boolean(b)) => Some(Ok(ExprV::Boolean((a == b) != negated))),
        (ExprV::String(a), ExprV::String(b)) => Some(Ok(ExprV::Boolean((a == b) != negated))),
        _ => Some(
            Err(
                if negated {
                    "Incompatible types for inequality comparison"@
                } else {
                    "Incompatible types for equality comparison"@
                },
            ),
        ),
    }
}

/// The incompatible-types text of an ordering comparison.
pub open spec fn ord_msg(op: OrdOp) -> Seq<char> {
    match op {
        OrdOp::Lt => "Incompatible types for less-than comparison"@,
        OrdOp::Le => "Incompatible types for less-than-or-equal comparison"@,
        OrdOp::Gt => "Incompatible types for greater-than comparison"@,
        OrdOp::Ge => "Incompatible types for greater-than-or-equal comparison"@,
    }
}

/// Ordering comparisons: integer pairs and float pairs only; floats order
/// by IEEE-754 when both bit patterns are known.
pub open spec fn ord_vals(op: OrdOp, l: ExprV, r: ExprV) -> Option<Result<ExprV, Seq<char>>> {
    match (l, r) {
        (ExprV::Integer(a), ExprV::Integer(b)) => Some(
            Ok(
                ExprV::Boolean(
                    match op {
                        OrdOp::Lt => a < b,
                        OrdOp::Le => a <= b,
                        OrdOp::Gt => a > b,
                        OrdOp::Ge => a >= b,
                    },
                ),
            ),
        ),
        (ExprV::Float(oa), ExprV::Float(ob)) => match (oa, ob) {
            (Some(a), Some(b)) => Some(
                Ok(
                    ExprV::Boolean(
                        match op {
                            OrdOp::Lt => f64_lt(a, b),
                            OrdOp::Le => f64_le(a, b),
                            OrdOp::Gt => f64_lt(b, a),
                            OrdOp::Ge => f64_le(b, a),
                        },
                    ),
                ),
            ),
            _ => None,
        },
        _ => Some(Err(ord_msg(op))),
    }
}

/// The float-promotion node: it requires an integer and produces a float
/// (the bits come from the embedder).  The name and the behaviour are
/// inverted relative to each other; the inversion is kept as the engine
/// has always had it.
pub open spec fn fti_val(v: ExprV) -> Option<Result<ExprV, Seq<char>>> {
    match v {
        ExprV::Integer(_) => Some(Ok(ExprV::Float(None))),
        _ => Some(Err("FTI operation only valid on integers"@)),
    }
}

/// The truncation node: it requires a float and produces an integer.  The
/// truncation is the embedder's, so the outcome is left open; a non-float
/// operand is an exact error.
pub open spec fn itf_val(v: ExprV) -> Option<Result<ExprV, Seq<char>>> {
    match v {
        ExprV::Float(_) => None,
        _ => Some(Err("ITF operation only valid on floats"@)),
    }
}

/// An evaluated cell value as an expression literal.
pub open spec fn cellval_expr(v: CellValueV) -> ExprV {
    match v {
        CellValueV::String(s) => ExprV::String(s),
        CellValueV::Int(i) => ExprV::Integer(i),
        CellValueV::Bool(b) => ExprV::Boolean(b),
        CellValueV::Float(b) => ExprV::Float(Some(b)),
    }
}




/// The grouped binary operators.
#[derive(Clone, Copy, Debug)]
pub enum BinOp {
    Arith(ArithOp),
    Div,
    Mod,
    Exp,
    Logic(bool),
    Bit(BitOp),
    Shift(ShiftOp),
    Eq(bool),
    Ord(OrdOp),
}

/// The unary operators.
#[derive(Clone, Copy, Debug)]
pub enum UnOp {
    Neg,
    LNot,
    BNot,
    Fti,
    Itf,
}

/// The four aggregates.
#[derive(Clone, Copy, Debug)]
pub enum AggOp {
    Max,
    Min,
    Mean,
    Sum,
}

/// Applies a binary operator to two evaluated values.
pub open spec fn bin_vals(op: BinOp, l: ExprV, r: ExprV) -> Option<Result<ExprV, Seq<char>>> {
    match op {
        BinOp::Arith(o) => arith_vals(o, l, r),
        BinOp::Div => div_vals(l, r),
        BinOp::Mod => mod_vals(l, r),
        BinOp::Exp => exp_vals(l, r),
        BinOp::Logic(is_and) => logic_vals(is_and, l, r),
        BinOp::Bit(o) => bit_vals(o, l, r),
        BinOp::Shift(o) => shift_vals(o, l, r),
        BinOp::Eq(negated) => eq_vals(negated, l, r),
        BinOp::Ord(o) => ord_vals(o, l, r),
    }
}

/// Applies a unary operator to an evaluated value.
pub open spec fn un_vals(op: UnOp, v: ExprV) -> Option<Result<ExprV, Seq<char>>> {
    match op {
        UnOp::Neg => neg_val(v),
        UnOp::LNot => lnot_val(v),
        UnOp::BNot => bnot_val(v),
        UnOp::Fti => fti_val(v),
        UnOp::Itf => itf_val(v),
    }
}

/// A binary node's outcome from its operands' outcomes: the left failure
/// wins, then the right one, then the operator applies.
pub open spec fn bin_outcome(
    op: BinOp,
    lo: Option<Result<ExprV, Seq<char>>>,
    ro: Option<Result<ExprV, Seq<char>>>,
) -> Option<Result<ExprV, Seq<char>>> {
    match lo {
        None => None,
        Some(Err(m)) => Some(Err(m)),
        Some(Ok(a)) => match ro {
            None => None,
            Some(Err(m)) => Some(Err(m)),
            Some(Ok(b)) => bin_vals(op, a, b),
        },
    }
}

/// A unary node's outcome from its operand's outcome.
pub open spec fn un_outcome(op: UnOp, o: Option<Result<ExprV, Seq<char>>>) -> Option<
    Result<ExprV, Seq<char>>,
> {
    match o {
        None => None,
        Some(Err(m)) => Some(Err(m)),
        Some(Ok(v)) => un_vals(op, v),
    }
}

/// An aggregate node's outcome from its operand list's outcome.
pub open spec fn agg_outcome(op: AggOp, lo: Option<Result<Seq<ExprV>, Seq<char>>>) -> Option<
    Result<ExprV, Seq<char>>,
> {
    match lo {
        None => None,
        Some(Err(m)) => Some(Err(m)),
        Some(Ok(vs)) => match op {
            AggOp::Max => if vs.len() > 0 {
                Some(extreme_from(vs, 1, vs[0], true))
            } else {
                None
            },
            AggOp::Min => if vs.len() > 0 {
                Some(extreme_from(vs, 1, vs[0], false))
            } else {
                None
            },
            AggOp::Mean => Some(mean_from(vs, 0)),
            AggOp::Sum => sum_from(vs, 0, 0),
        },
    }
}

/// A cell-read node's outcome: both coordinates must evaluate to
/// integers, the pair must lie inside the grid, and the cell's stored
/// value comes back unchanged.  Out of range, the error names the two
/// coordinate subexpressions in their serialized form.
pub open spec fn cell_read_outcome(
    ct: ExprV,
    rt: ExprV,
    co: Option<Result<ExprV, Seq<char>>>,
    ro: Option<Result<ExprV, Seq<char>>>,
    g: Seq<Seq<CellV>>,
) -> Option<Result<ExprV, Seq<char>>> {
    match co {
        None => None,
        Some(Err(m)) => Some(Err(m)),
        Some(Ok(cv)) => match cv {
            ExprV::Integer(ci) => match ro {
                None => None,
                Some(Err(m)) => Some(Err(m)),
                Some(Ok(rv)) => match rv {
                    ExprV::Integer(ri) => if 0 <= ri < ROWS as i64 && 0 <= ci < COLS as i64 {
                        Some(Ok(cellval_expr(g[ri as int][ci as int].value)))
                    } else {
                        match (ser_spec(ct), ser_spec(rt)) {
                            (Some(sc), Some(sr)) => Some(
                                Err("Cell at ("@ + sc + ", "@ + sr + ") not found"@),
                            ),
                            _ => None,
                        }
                    },
                    _ => Some(Err("Row index must be an integer"@)),
                },
            },
            _ => Some(Err("Column index must be an integer"@)),
        },
    }
}

/// The exact evaluation of a tree against a grid, where it is pinned
/// down; see the module comment for what `None` means.
pub open spec fn eval_spec(e: ExprV, g: Seq<Seq<CellV>>) -> Option<Result<ExprV, Seq<char>>>
    decreases e,
{
    match e {
        ExprV::Integer(_) => Some(Ok(e)),
        ExprV::Float(_) => Some(Ok(e)),
        ExprV::Boolean(_) => Some(Ok(e)),
        ExprV::String(_) => Some(Ok(e)),
        ExprV::Add(l, r) => bin_outcome(
            BinOp::Arith(ArithOp::Add),
            eval_spec(*l, g),
            eval_spec(*r, g),
        ),
        ExprV::Subtract(l, r) => bin_outcome(
            BinOp::Arith(ArithOp::Sub),
            eval_spec(*l, g),
            eval_spec(*r, g),
        ),
        ExprV::Multiply(l, r) => bin_outcome(
            BinOp::Arith(ArithOp::Mul),
            eval_spec(*l, g),
            eval_spec(*r, g),
        ),
        ExprV::Divide(l, r) => bin_outcome(BinOp::Div, eval_spec(*l, g), eval_spec(*r, g)),
        ExprV::Modulo(l, r) => bin_outcome(BinOp::Mod, eval_spec(*l, g), eval_spec(*r, g)),
        ExprV::Exp(l, r) => bin_outcome(BinOp::Exp, eval_spec(*l, g), eval_spec(*r, g)),
        ExprV::Negate(e0) => un_outcome(UnOp::Neg, eval_spec(*e0, g)),
        ExprV::LAnd(l, r) => bin_outcome(BinOp::Logic(true), eval_spec(*l, g), eval_spec(*r, g)),
        ExprV::LOr(l, r) => bin_outcome(BinOp::Logic(false), eval_spec(*l, g), eval_spec(*r, g)),
        ExprV::LNot(e0) => un_outcome(UnOp::LNot, eval_spec(*e0, g)),
        ExprV::CellLValue(_, _) => Some(Ok(e)),
        ExprV::CellRValue(c, r) => cell_read_outcome(
            *c,
            *r,
            eval_spec(*c, g),
            eval_spec(*r, g),
            g,
        ),
        ExprV::BAnd(l, r) => bin_outcome(BinOp::Bit(BitOp::And), eval_spec(*l, g), eval_spec(*r, g)),
        ExprV::BOr(l, r) => bin_outcome(BinOp::Bit(BitOp::Or), eval_spec(*l, g), eval_spec(*r, g)),
        ExprV::Xor(l, r) => bin_outcome(BinOp::Bit(BitOp::Xor), eval_spec(*l, g), eval_spec(*r, g)),
        ExprV::BNot(e0) => un_outcome(UnOp::BNot, eval_spec(*e0, g)),
        ExprV::LeftShift(l, r) => bin_outcome(
            BinOp::Shift(ShiftOp::Left),
            eval_spec(*l, g),
            eval_spec(*r, g),
        ),
        ExprV::RightShift(l, r) => bin_outcome(
            BinOp::Shift(ShiftOp::Right),
            eval_spec(*l, g),
            eval_spec(*r, g),
        ),
        ExprV::Equals(l, r) => bin_outcome(BinOp::Eq(false), eval_spec(*l, g), eval_spec(*r, g)),
        ExprV::NotEquals(l, r) => bin_outcome(BinOp::Eq(true), eval_spec(*l, g), eval_spec(*r, g)),
        ExprV::LessThan(l, r) => bin_outcome(BinOp::Ord(OrdOp::Lt), eval_spec(*l, g), eval_spec(*r, g)),
        ExprV::LessThanEq(l, r) => bin_outcome(
            BinOp::Ord(OrdOp::Le),
            eval_spec(*l, g),
            eval_spec(*r, g),
        ),
        ExprV::GreaterThan(l, r) => bin_outcome(
            BinOp::Ord(OrdOp::Gt),
            eval_spec(*l, g),
            eval_spec(*r, g),
        ),
        ExprV::GreaterThanEq(l, r) => bin_outcome(
            BinOp::Ord(OrdOp::Ge),
            eval_spec(*l, g),
            eval_spec(*r, g),
        ),
        ExprV::FTI(e0) => un_outcome(UnOp::Fti, eval_spec(*e0, g)),
        ExprV::ITF(e0) => un_outcome(UnOp::Itf, eval_spec(*e0, g)),
        ExprV::Max(es) => agg_outcome(AggOp::Max, eval_list_from(es, 0, g)),
        ExprV::Min(es) => agg_outcome(AggOp::Min, eval_list_from(es, 0, g)),
        ExprV::Mean(es) => agg_outcome(AggOp::Mean, eval_list_from(es, 0, g)),
        ExprV::Sum(es) => agg_outcome(AggOp::Sum, eval_list_from(es, 0, g)),
    }
}

/// The evaluation of a list of operands from position `i` on: the values,
/// or the first failure, left to right.
pub open spec fn eval_list_from(es: Seq<ExprV>, i: int, g: Seq<Seq<CellV>>) -> Option<
    Result<Seq<ExprV>, Seq<char>>,
>
    decreases es, es.len() - i,
{
    if i < 0 || i >= es.len() {
        Some(Ok(Seq::empty()))
    } else {
        match eval_spec(es[i], g) {
            None => None,
            Some(Err(m)) => Some(Err(m)),
            Some(Ok(v)) => match eval_list_from(es, i + 1, g) {
                None => None,
                Some(Err(m)) => Some(Err(m)),
                Some(Ok(vs)) => Some(Ok(seq![v] + vs)),
            },
        }
    }
}

/// The fold of max or min over evaluated values, from position `i`, with
/// `cur` the extreme so far.  Pairs of integers and pairs of floats
/// compare; a float with open bits keeps the fold a float with open bits;
/// any other pairing fails.
pub open spec fn extreme_from(vs: Seq<ExprV>, i: int, cur: ExprV, is_max: bool) -> Result<
    ExprV,
    Seq<char>,
>
    decreases vs.len() - i,
{
    if i < 0 || i >= vs.len() {
        Ok(cur)
    } else {
        match (cur, vs[i]) {
            (ExprV::Integer(a), ExprV::Integer(b)) => extreme_from(
                vs,
                i + 1,
                if (is_max && b > a) || (!is_max && b < a) {
                    ExprV::Integer(b)
                } else {
                    ExprV::Integer(a)
                },
                is_max,
            ),
            (ExprV::Float(oa), ExprV::Float(ob)) => match (oa, ob) {
                (Some(a), Some(b)) => extreme_from(
                    vs,
                    i + 1,
                    if (is_max && f64_lt(a, b)) || (!is_max && f64_lt(b, a)) {
                        ExprV::Float(Some(b))
                    } else {
                        ExprV::Float(Some(a))
                    },
                    is_max,
                ),
                _ => extreme_from(vs, i + 1, ExprV::Float(None), is_max),
            },
            _ => Err(
                if is_max {
                    "Incompatible types in Max"@
                } else {
                    "Incompatible types in Min"@
                },
            ),
        }
    }
}

/// The mean over evaluated values: every operand must be numeric, and the
/// result is a float whose bits are the embedder's.
pub open spec fn mean_from(vs: Seq<ExprV>, i: int) -> Result<ExprV, Seq<char>>
    decreases vs.len() - i,
{
    if i < 0 || i >= vs.len() {
        Ok(ExprV::Float(None))
    } else {
        match vs[i] {
            ExprV::Integer(_) => mean_from(vs, i + 1),
            ExprV::Float(_) => mean_from(vs, i + 1),
            _ => Err("Incompatible types in Mean"@),
        }
    }
}

/// The sum over evaluated values, folding as a checked integer; a float
/// operand truncates through the embedder, after which the outcome is
/// open.
pub open spec fn sum_from(vs: Seq<ExprV>, i: int, acc: i64) -> Option<
    Result<ExprV, Seq<char>>,
>
    decreases vs.len() - i,
{
    if i < 0 || i >= vs.len() {
        Some(Ok(ExprV::Integer(acc)))
    } else {
        match vs[i] {
            ExprV::Integer(b) => match acc.checked_add(b) {
                Some(s) => sum_from(vs, i + 1, s),
                None => Some(Err(overflow_msg())),
            },
            ExprV::Float(_) => None,
            _ => Some(Err("Incompatible types in Sum"@)),
        }
    }
}

} // verus!

use crate::cell::CellValue;
use crate::floatops::FloatOps;
use crate::floatops::f64_bits_eq;
use crate::floatops::f64_bits_is_zero;
use crate::floatops::f64_bits_lt;
use crate::floatops::f64_bits_le;
use crate::floatops::f64_bits_neg;
use crate::grid::Grid;
use crate::grid::grid_wf;
use crate::tree::Expression;
use crate::tree::expr_wf;
use crate::tree::view_of;
use crate::tree::views_of;
use crate::tree::lemma_views_of;
use vstd::arithmetic::power::lemma0_pow;
use vstd::arithmetic::power::lemma_pow0;
use vstd::arithmetic::power::lemma_pow1;
use vstd::arithmetic::power::lemma1_pow;
use vstd::arithmetic::power::lemma_pow_adds;
use vstd::arithmetic::power::lemma_pow_increases;
use vstd::math::abs;

verus! {

/// Whether an evaluated value is admitted by its mathematical account: a
/// float whose bits are left open admits any float, everything else is
/// exact.
pub open spec fn val_admits(sv: ExprV, av: ExprV) -> bool {
    match sv {
        ExprV::Float(ob) => match ob {
            None => av is Float,
            Some(_) => av == sv,
        },
        _ => av == sv,
    }
}

/// Whether an evaluation result is admitted by its mathematical account.
/// An open outcome (`None`) admits everything; otherwise success and
/// failure must agree, failures must carry the exact message, and the
/// value must be admitted by [`val_admits`].
pub open spec fn out_admits(o: Option<Result<ExprV, Seq<char>>>, r: Result<Expression, String>) -> bool {
    match o {
        None => true,
        Some(Ok(sv)) => match r {
            Ok(av) => val_admits(sv, view_of(av)),
            Err(_) => false,
        },
        Some(Err(m)) => match r {
            Ok(_) => false,
            Err(am) => am@ == m,
        },
    }
}

/// [`out_admits`] for an account that is never open.
pub open spec fn res_admits(rr: Result<ExprV, Seq<char>>, r: Result<Expression, String>) -> bool {
    out_admits(Some(rr), r)
}

/// [`out_admits`] lifted to a list of evaluated operands.
pub open spec fn list_admits(
    o: Option<Result<Seq<ExprV>, Seq<char>>>,
    r: Result<Vec<Expression>, String>,
) -> bool {
    match o {
        None => true,
        Some(Ok(vs)) => match r {
            Ok(av) => av@.len() == vs.len() && (forall|k: int|
                0 <= k < vs.len() ==> val_admits(vs[k], view_of(#[trigger] av@[k]))),
            Err(_) => false,
        },
        Some(Err(m)) => match r {
            Ok(_) => false,
            Err(am) => am@ == m,
        },
    }
}

/// An owned error message from its text.
fn emsg(s: &str) -> (r: String)
    ensures
        r@ == s@,
{
    s.to_owned()
}

/// The magnitude of a power grows with the exponent once the base's
/// magnitude is at least two.
proof fn lemma_abs_pow(a: int, e: nat)
    ensures
        abs(pow(a, e)) == pow(abs(a) as int, e),
    decreases e,
{
    reveal(pow);
    if e != 0 {
        lemma_abs_pow(a, (e - 1) as nat);
        assert(pow(a, e) == a * pow(a, (e - 1) as nat));
        assert(abs(a * pow(a, (e - 1) as nat)) == abs(a) * abs(pow(a, (e - 1) as nat)))
            by (nonlinear_arith);
        assert(pow(abs(a) as int, e) == abs(a) * pow(abs(a) as int, (e - 1) as nat));
    }
}

/// The power of a negative one alternates between one and minus one.
proof fn lemma_pow_neg_one(e: nat)
    ensures
        pow(-1, e) == if e % 2 == 0 {
            1int
        } else {
            -1int
        },
    decreases e,
{
    reveal(pow);
    if e != 0 {
        lemma_pow_neg_one((e - 1) as nat);
    }
}

/// Checked integer power: exactly `pow` when that lies within `i64`, and
/// `None` exactly when it does not.
fn int_pow_checked(a: i64, e: u32) -> (r: Option<i64>)
    ensures
        match r {
            Some(v) => v == pow(a as int, e as nat) && i64::MIN <= pow(a as int, e as nat)
                <= i64::MAX,
            None => pow(a as int, e as nat) < i64::MIN || pow(a as int, e as nat) > i64::MAX,
        },
{
    if a == 0 {
        if e == 0 {
            proof {
                lemma_pow0(a as int);
            }
            Some(1)
        } else {
            proof {
                lemma0_pow(e as nat);
            }
            Some(0)
        }
    } else if a == 1 {
        proof {
            lemma1_pow(e as nat);
        }
        Some(1)
    } else if a == -1 {
        proof {
            lemma_pow_neg_one(e as nat);
        }
        if e % 2 == 0 {
            Some(1)
        } else {
            Some(-1)
        }
    } else {
        proof {
            lemma_pow0(a as int);
        }
        let mut acc: i64 = 1;
        let mut k: u32 = 0;
        while k < e
            invariant
                k <= e,
                a < -1 || a > 1,
                acc == pow(a as int, k as nat),
                i64::MIN <= acc <= i64::MAX,
            decreases e - k,
        {
            match acc.checked_mul(a) {
                Some(x) => {
                    proof {
                        assert(pow(a as int, (k + 1) as nat) == pow(a as int, k as nat) * (
                        a as int)) by {
                            lemma_pow_adds(a as int, k as nat, 1nat);
                            lemma_pow1(a as int);
                        }
                        assert(pow(a as int, k as nat) * (a as int) == (acc as int) * (a as int));
                    }
                    acc = x;
                    k = k + 1;
                },
                None => {
                    proof {
                        let ai = a as int;
                        let prod = (acc as int) * ai;
                        assert(pow(ai, (k + 1) as nat) == pow(ai, k as nat) * ai) by {
                            lemma_pow_adds(ai, k as nat, 1nat);
                            lemma_pow1(ai);
                        }
                        assert(prod < i64::MIN || prod > i64::MAX);
                        assert(abs(prod) >= 0x8000_0000_0000_0000);
                        lemma_abs_pow(ai, (k + 1) as nat);
                        if e as nat > k + 1 {
                            let m = (e - k - 1) as nat;
                            lemma_pow_adds(ai, (k + 1) as nat, m);
                            lemma_abs_pow(ai, e as nat);
                            lemma_abs_pow(ai, m);
                            lemma_pow1(abs(ai) as int);
                            lemma_pow_increases(abs(ai), 1nat, m);
                            assert(pow(abs(ai) as int, m) >= 2);
                            assert(abs(pow(ai, e as nat)) == abs(pow(ai, (k + 1) as nat)) * abs(
                                pow(ai, m),
                            )) by {
                                assert(pow(ai, e as nat) == pow(ai, (k + 1) as nat) * pow(ai, m));
                                assert(abs(pow(ai, (k + 1) as nat) * pow(ai, m)) == abs(
                                    pow(ai, (k + 1) as nat),
                                ) * abs(pow(ai, m))) by (nonlinear_arith);
                            }
                            assert(abs(pow(ai, e as nat)) >= 0x8000_0000_0000_0000 * 2) by {
                                assert(abs(pow(ai, (k + 1) as nat)) >= 0x8000_0000_0000_0000);
                                assert(abs(pow(ai, m)) >= 2);
                                assert(forall|x: int, y: int|
                                    x >= 0x8000_0000_0000_0000 && y >= 2 ==> #[trigger] (x * y)
                                        >= 0x8000_0000_0000_0000 * 2) by (nonlinear_arith);
                            }
                        }
                    }
                    return None;
                },
            }
        }
        Some(acc)
    }
}

} // verus!

verus! {

/// Applies addition, subtraction or multiplication to two evaluated
/// values; see [`arith_vals`].
fn apply_arith<F: FloatOps>(
    fl: &F,
    op: ArithOp,
    l: Expression,
    r: Expression,
    Ghost(ls): Ghost<ExprV>,
    Ghost(rs): Ghost<ExprV>,
) -> (res: Result<Expression, String>)
    requires
        val_admits(ls, view_of(l)),
        val_admits(rs, view_of(r)),
    ensures
        out_admits(arith_vals(op, ls, rs), res),
{
    match (l, r) {
        (Expression::Integer(a), Expression::Integer(b)) => {
            let v = match op {
                ArithOp::Add => a.checked_add(b),
                ArithOp::Sub => a.checked_sub(b),
                ArithOp::Mul => a.checked_mul(b),
            };
            match v {
                Some(x) => Ok(Expression::Integer(x)),
                None => Err(emsg("Integer overflow")),
            }
        },
        (Expression::Float(a), Expression::Float(b)) => Ok(
            Expression::Float(
                match op {
                    ArithOp::Add => fl.add(a, b),
                    ArithOp::Sub => fl.sub(a, b),
                    ArithOp::Mul => fl.mul(a, b),
                },
            ),
        ),
        (Expression::Integer(a), Expression::Float(b)) => {
            let wa = fl.from_int(a);
            Ok(
                Expression::Float(
                    match op {
                        ArithOp::Add => fl.add(wa, b),
                        ArithOp::Sub => fl.sub(wa, b),
                        ArithOp::Mul => fl.mul(wa, b),
                    },
                ),
            )
        },
        (Expression::Float(a), Expression::Integer(b)) => {
            let wb = fl.from_int(b);
            Ok(
                Expression::Float(
                    match op {
                        ArithOp::Add => fl.add(a, wb),
                        ArithOp::Sub => fl.sub(a, wb),
                        ArithOp::Mul => fl.mul(a, wb),
                    },
                ),
            )
        },
        _ => Err(
            match op {
                ArithOp::Add => emsg("Incompatible types for addition"),
                ArithOp::Sub => emsg("Incompatible types for subtraction"),
                ArithOp::Mul => emsg("Incompatible types for multiplication"),
            },
        ),
    }
}

/// Applies division to two evaluated values; see [`div_vals`].
fn apply_div<F: FloatOps>(
    fl: &F,
    l: Expression,
    r: Expression,
    Ghost(ls): Ghost<ExprV>,
    Ghost(rs): Ghost<ExprV>,
) -> (res: Result<Expression, String>)
    requires
        val_admits(ls, view_of(l)),
        val_admits(rs, view_of(r)),
    ensures
        out_admits(div_vals(ls, rs), res),
{
    match (l, r) {
        (Expression::Integer(a), Expression::Integer(b)) => {
            if b == 0 {
                Err(emsg("Divide by zero error"))
            } else {
                match a.checked_div(b) {
                    Some(q) => Ok(Expression::Integer(q)),
                    None => Err(emsg("Integer overflow")),
                }
            }
        },
        (Expression::Integer(a), Expression::Float(b)) => {
            if f64_bits_is_zero(b) {
                Err(emsg("Divide by zero error"))
            } else {
                let wa = fl.from_int(a);
                Ok(Expression::Float(fl.div(wa, b)))
            }
        },
        (Expression::Float(a), Expression::Float(b)) => {
            if f64_bits_is_zero(b) {
                Err(emsg("Divide by zero error"))
            } else {
                Ok(Expression::Float(fl.div(a, b)))
            }
        },
        (Expression::Float(a), Expression::Integer(b)) => {
            if b == 0 {
                Err(emsg("Divide by zero error"))
            } else {
                let wb = fl.from_int(b);
                Ok(Expression::Float(fl.div(a, wb)))
            }
        },
        _ => Err(emsg("Incompatible types for division")),
    }
}

/// Applies modulo to two evaluated values; see [`mod_vals`].
fn apply_mod(
    l: Expression,
    r: Expression,
    Ghost(ls): Ghost<ExprV>,
    Ghost(rs): Ghost<ExprV>,
) -> (res: Result<Expression, String>)
    requires
        val_admits(ls, view_of(l)),
        val_admits(rs, view_of(r)),
    ensures
        out_admits(mod_vals(ls, rs), res),
{
    match (l, r) {
        (Expression::Integer(a), Expression::Integer(b)) => {
            if b == 0 {
                Err(emsg("Modulo by zero error"))
            } else {
                match a.checked_rem(b) {
                    Some(v) => Ok(Expression::Integer(v)),
                    None => Err(emsg("Integer overflow")),
                }
            }
        },
        _ => Err(emsg("Modulo operation only valid on integers")),
    }
}

/// Applies exponentiation to two evaluated values; see [`exp_vals`].
fn apply_exp<F: FloatOps>(
    fl: &F,
    l: Expression,
    r: Expression,
    Ghost(ls): Ghost<ExprV>,
    Ghost(rs): Ghost<ExprV>,
) -> (res: Result<Expression, String>)
    requires
        val_admits(ls, view_of(l)),
        val_admits(rs, view_of(r)),
    ensures
        out_admits(exp_vals(ls, rs), res),
{
    match (l, r) {
        (Expression::Integer(a), Expression::Integer(b)) => {
            if b < 0 || b > u32::MAX as i64 {
                Err(emsg("Exponent out of range"))
            } else {
                match int_pow_checked(a, b as u32) {
                    Some(v) => Ok(Expression::Integer(v)),
                    None => Err(emsg("Integer overflow")),
                }
            }
        },
        (Expression::Float(a), Expression::Float(b)) => Ok(Expression::Float(fl.pow(a, b))),
        (Expression::Integer(a), Expression::Float(b)) => {
            let wa = fl.from_int(a);
            Ok(Expression::Float(fl.pow(wa, b)))
        },
        (Expression::Float(a), Expression::Integer(b)) => {
            let wb = fl.from_int(b);
            Ok(Expression::Float(fl.pow(a, wb)))
        },
        _ => Err(emsg("Incompatible types for exponentiation")),
    }
}

/// Applies sign flip to an evaluated value; see [`neg_val`].
fn apply_neg(v: Expression, Ghost(vs): Ghost<ExprV>) -> (res: Result<Expression, String>)
    requires
        val_admits(vs, view_of(v)),
    ensures
        out_admits(neg_val(vs), res),
{
    match v {
        Expression::Integer(a) => {
            if a == i64::MIN {
                Err(emsg("Integer overflow"))
            } else {
                Ok(Expression::Integer(-a))
            }
        },
        Expression::Float(b) => Ok(Expression::Float(f64_bits_neg(b))),
        _ => Err(emsg("Negate operation only valid on numeric types")),
    }
}

/// Applies logical and / or to two evaluated values; see [`logic_vals`].
fn apply_logic(
    is_and: bool,
    l: Expression,
    r: Expression,
    Ghost(ls): Ghost<ExprV>,
    Ghost(rs): Ghost<ExprV>,
) -> (res: Result<Expression, String>)
    requires
        val_admits(ls, view_of(l)),
        val_admits(rs, view_of(r)),
    ensures
        out_admits(logic_vals(is_and, ls, rs), res),
{
    match (l, r) {
        (Expression::Boolean(a), Expression::Boolean(b)) => Ok(
            Expression::Boolean(
                if is_and {
                    a && b
                } else {
                    a || b
                },
            ),
        ),
        _ => Err(
            if is_and {
                emsg("Logical AND only valid on boolean values")
            } else {
                emsg("Logical OR only valid on boolean values")
            },
        ),
    }
}

/// Applies logical not to an evaluated value; see [`lnot_val`].
fn apply_lnot(v: Expression, Ghost(vs): Ghost<ExprV>) -> (res: Result<Expression, String>)
    requires
        val_admits(vs, view_of(v)),
    ensures
        out_admits(lnot_val(vs), res),
{
    match v {
        Expression::Boolean(b) => Ok(Expression::Boolean(!b)),
        _ => Err(emsg("Logical NOT only valid on booleans")),
    }
}

/// Applies a binary bitwise operator to two evaluated values; see
/// [`bit_vals`].
fn apply_bit(
    op: BitOp,
    l: Expression,
    r: Expression,
    Ghost(ls): Ghost<ExprV>,
    Ghost(rs): Ghost<ExprV>,
) -> (res: Result<Expression, String>)
    requires
        val_admits(ls, view_of(l)),
        val_admits(rs, view_of(r)),
    ensures
        out_admits(bit_vals(op, ls, rs), res),
{
    match (l, r) {
        (Expression::Integer(a), Expression::Integer(b)) => Ok(
            Expression::Integer(
                match op {
                    BitOp::And => a & b,
                    BitOp::Or => a | b,
                    BitOp::Xor => a ^ b,
                },
            ),
        ),
        _ => Err(
            match op {
                BitOp::And => emsg("Incompatible types for Bitwise AND"),
                BitOp::Or => emsg("Incompatible types for Bitwise OR"),
                BitOp::Xor => emsg("Incompatible types for Bitwise XOR"),
            },
        ),
    }
}

/// Applies bitwise not to an evaluated value; see [`bnot_val`].
fn apply_bnot(v: Expression, Ghost(vs): Ghost<ExprV>) -> (res: Result<Expression, String>)
    requires
        val_admits(vs, view_of(v)),
    ensures
        out_admits(bnot_val(vs), res),
{
    match v {
        Expression::Integer(a) => {
            let x = if a >= 0 {
                -1 - a
            } else {
                -(a + 1)
            };
            Ok(Expression::Integer(x))
        },
        _ => Err(emsg("Incompatible type for Bitwise NOT")),
    }
}

/// Applies a shift to two evaluated values; see [`shift_vals`].
fn apply_shift(
    op: ShiftOp,
    l: Expression,
    r: Expression,
    Ghost(ls): Ghost<ExprV>,
    Ghost(rs): Ghost<ExprV>,
) -> (res: Result<Expression, String>)
    requires
        val_admits(ls, view_of(l)),
        val_admits(rs, view_of(r)),
    ensures
        out_admits(shift_vals(op, ls, rs), res),
{
    match (l, r) {
        (Expression::Integer(a), Expression::Integer(b)) => {
            if b < 0 || b >= 64 {
                Err(emsg("Shift amount out of range"))
            } else {
                Ok(
                    Expression::Integer(
                        match op {
                            ShiftOp::Left => a << b,
                            ShiftOp::Right => a >> b,
                        },
                    ),
                )
            }
        },
        _ => Err(
            match op {
                ShiftOp::Left => emsg("Incompatible types for Left Shift"),
                ShiftOp::Right => emsg("Incompatible types for Right Shift"),
            },
        ),
    }
}

/// Applies equality or inequality to two evaluated values; see
/// [`eq_vals`].
fn apply_eq(
    negated: bool,
    l: Expression,
    r: Expression,
    Ghost(ls): Ghost<ExprV>,
    Ghost(rs): Ghost<ExprV>,
) -> (res: Result<Expression, String>)
    requires
        val_admits(ls, view_of(l)),
        val_admits(rs, view_of(r)),
    ensures
        out_admits(eq_vals(negated, ls, rs), res),
{
    match (l, r) {
        (Expression::Integer(a), Expression::Integer(b)) => Ok(
            Expression::Boolean((a == b) != negated),
        ),
        (Expression::Float(a), Expression::Float(b)) => Ok(
            Expression::Boolean(f64_bits_eq(a, b) != negated),
        ),
        (Expression::Boolean(a), Expression::Boolean(b)) => Ok(
            Expression::Boolean((a == b) != negated),
        ),
        (Expression::String(a), Expression::String(b)) => Ok(
            Expression::Boolean((a == b) != negated),
        ),
        _ => Err(
            if negated {
                emsg("Incompatible types for inequality comparison")
            } else {
                emsg("Incompatible types for equality comparison")
            },
        ),
    }
}

/// Applies an ordering comparison to two evaluated values; see
/// [`ord_vals`].
fn apply_ord(
    op: OrdOp,
    l: Expression,
    r: Expression,
    Ghost(ls): Ghost<ExprV>,
    Ghost(rs): Ghost<ExprV>,
) -> (res: Result<Expression, String>)
    requires
        val_admits(ls, view_of(l)),
        val_admits(rs, view_of(r)),
    ensures
        out_admits(ord_vals(op, ls, rs), res),
{
    match (l, r) {
        (Expression::Integer(a), Expression::Integer(b)) => Ok(
            Expression::Boolean(
                match op {
                    OrdOp::Lt => a < b,
                    OrdOp::Le => a <= b,
                    OrdOp::Gt => a > b,
                    OrdOp::Ge => a >= b,
                },
            ),
        ),
        (Expression::Float(a), Expression::Float(b)) => Ok(
            Expression::Boolean(
                match op {
                    OrdOp::Lt => f64_bits_lt(a, b),
                    OrdOp::Le => f64_bits_le(a, b),
                    OrdOp::Gt => f64_bits_lt(b, a),
                    OrdOp::Ge => f64_bits_le(b, a),
                },
            ),
        ),
        _ => Err(
            match op {
                OrdOp::Lt => emsg("Incompatible types for less-than comparison"),
                OrdOp::Le => emsg("Incompatible types for less-than-or-equal comparison"),
                OrdOp::Gt => emsg("Incompatible types for greater-than comparison"),
                OrdOp::Ge => emsg("Incompatible types for greater-than-or-equal comparison"),
            },
        ),
    }
}

/// Applies the float-promotion node to an evaluated value; see
/// [`fti_val`].
fn apply_fti<F: FloatOps>(fl: &F, v: Expression, Ghost(vs): Ghost<ExprV>) -> (res: Result<
    Expression,
    String,
>)
    requires
        val_admits(vs, view_of(v)),
    ensures
        out_admits(fti_val(vs), res),
{
    match v {
        Expression::Integer(a) => Ok(Expression::Float(fl.from_int(a))),
        _ => Err(emsg("FTI operation only valid on integers")),
    }
}

/// Applies the truncation node to an evaluated value; see [`itf_val`].
fn apply_itf<F: FloatOps>(fl: &F, v: Expression, Ghost(vs): Ghost<ExprV>) -> (res: Result<
    Expression,
    String,
>)
    requires
        val_admits(vs, view_of(v)),
    ensures
        out_admits(itf_val(vs), res),
{
    match v {
        Expression::Float(b) => Ok(Expression::Integer(fl.to_int(b))),
        _ => Err(emsg("ITF operation only valid on floats")),
    }
}

} // verus!

verus! {



} // verus!

use vstd::pervasive::unreached;

verus! {

/// Prepends already-evaluated values to the account of the rest of a
/// list evaluation.
pub open spec fn glue(pre: Seq<ExprV>, o: Option<Result<Seq<ExprV>, Seq<char>>>) -> Option<
    Result<Seq<ExprV>, Seq<char>>,
> {
    match o {
        None => None,
        Some(Err(m)) => Some(Err(m)),
        Some(Ok(vs)) => Some(Ok(pre + vs)),
    }
}

/// Evaluates every operand of an aggregate, left to right, stopping at
/// the first failure.
fn eval_all<F: FloatOps>(es: &Vec<Expression>, env: &mut Grid, fl: &F) -> (r: Result<
    Vec<Expression>,
    String,
>)
    requires
        grid_wf(old(env).deep_view()),
        forall|k: int| 0 <= k < es@.len() ==> expr_wf(view_of(#[trigger] es@[k])),
    ensures
        final(env).deep_view() == old(env).deep_view(),
        list_admits(eval_list_from(views_of(es@), 0, old(env).deep_view()), r),
        match r {
            Ok(v) => v@.len() == es@.len(),
            Err(_) => true,
        },
    decreases es,
{
    let ghost g0 = old(env).deep_view();
    let ghost vsx = views_of(es@);
    proof {
        lemma_views_of(es@);
    }
    let mut out: Vec<Expression> = Vec::new();
    let ghost mut pre: Seq<ExprV> = Seq::empty();
    let mut i: usize = 0;
    proof {
        assert(glue(pre, eval_list_from(vsx, 0, g0)) == eval_list_from(vsx, 0, g0)) by {
            match eval_list_from(vsx, 0, g0) {
                Some(Ok(vs)) => {
                    assert(Seq::empty() + vs =~= vs);
                },
                _ => {},
            }
        }
    }
    while i < es.len()
        invariant
            i <= es@.len(),
            out@.len() == i,
            pre.len() == i,
            vsx == views_of(es@),
            vsx.len() == es@.len(),
            forall|k: int| 0 <= k < es@.len() ==> vsx[k] == view_of(#[trigger] es@[k]),
            forall|k: int| 0 <= k < es@.len() ==> expr_wf(view_of(#[trigger] es@[k])),
            grid_wf(g0),
            g0 == old(env).deep_view(),
            env.deep_view() == g0,
            forall|k: int| 0 <= k < i ==> val_admits(pre[k], view_of(#[trigger] out@[k])),
            eval_list_from(vsx, 0, g0) == glue(pre, eval_list_from(vsx, i as int, g0))
                || eval_list_from(vsx, 0, g0) is None,
        decreases es@.len() - i,
    {
        proof {
            assert(decreases_to!(es => es@));
            assert(decreases_to!(es@ => es@[i as int]));
        }
        let v = match es[i].evaluate(env, fl) {
            Ok(v) => v,
            Err(m) => {
                proof {
                    if eval_list_from(vsx, 0, g0) is Some {
                        assert(eval_list_from(vsx, 0, g0) == glue(
                            pre,
                            eval_list_from(vsx, i as int, g0),
                        ));
                    }
                }
                return Err(m);
            },
        };
        proof {
            let lo = eval_spec(vsx[i as int], g0);
            if eval_list_from(vsx, 0, g0) is Some {
                match lo {
                    None => {
                        assert(eval_list_from(vsx, i as int, g0) is None);
                        assert(glue(pre, eval_list_from(vsx, i as int, g0)) is None);
                    },
                    Some(Err(m)) => {
                        assert(false);
                    },
                    Some(Ok(sv)) => {
                        let tail = eval_list_from(vsx, i + 1, g0);
                        match tail {
                            None => {},
                            Some(Err(_)) => {},
                            Some(Ok(ts)) => {
                                assert(pre + (seq![sv] + ts) =~= pre.push(sv) + ts);
                            },
                        }
                        pre = pre.push(sv);
                    },
                }
            } else {
                pre = pre.push(
                    match lo {
                        Some(Ok(sv)) => sv,
                        _ => view_of(v),
                    },
                );
            }
        }
        out.push(v);
        i += 1;
    }
    proof {
        if eval_list_from(vsx, 0, g0) is Some {
            assert(eval_list_from(vsx, i as int, g0) == Some(
                Ok::<Seq<ExprV>, Seq<char>>(Seq::empty()),
            ));
            assert(pre + Seq::empty() =~= pre);
        }
    }
    Ok(out)
}

/// The fold of max or min over the evaluated operands, keeping the
/// extreme so far; see [`extreme_from`].
fn fold_extreme(vals: &Vec<Expression>, is_max: bool, Ghost(vs): Ghost<Seq<ExprV>>) -> (r: Result<
    Expression,
    String,
>)
    requires
        vals@.len() > 0,
        vs.len() == vals@.len(),
        forall|k: int| 0 <= k < vs.len() ==> val_admits(vs[k], view_of(#[trigger] vals@[k])),
    ensures
        res_admits(extreme_from(vs, 1, vs[0], is_max), r),
{
    let mut best: usize = 0;
    let ghost mut cur: ExprV = vs[0];
    let mut i: usize = 1;
    while i < vals.len()
        invariant
            1 <= i <= vals@.len(),
            best < vals@.len(),
            vs.len() == vals@.len(),
            forall|k: int| 0 <= k < vs.len() ==> val_admits(vs[k], view_of(#[trigger] vals@[k])),
            val_admits(cur, view_of(vals@[best as int])),
            extreme_from(vs, 1, vs[0], is_max) == extreme_from(vs, i as int, cur, is_max),
        decreases vals@.len() - i,
    {
        match (&vals[best], &vals[i]) {
            (Expression::Integer(a), Expression::Integer(b)) => {
                if (is_max && *b > *a) || (!is_max && *b < *a) {
                    proof {
                        cur = ExprV::Integer(view_of(vals@[i as int])->Integer_0);
                    }
                    best = i;
                } else {
                    proof {
                        cur = ExprV::Integer(*a);
                    }
                }
            },
            (Expression::Float(a), Expression::Float(b)) => {
                if (is_max && f64_bits_lt(*a, *b)) || (!is_max && f64_bits_lt(*b, *a)) {
                    best = i;
                }
                proof {
                    cur = match (cur, vs[i as int]) {
                        (ExprV::Float(Some(x)), ExprV::Float(Some(y))) => if (is_max && f64_lt(
                            x,
                            y,
                        )) || (!is_max && f64_lt(y, x)) {
                            ExprV::Float(Some(y))
                        } else {
                            ExprV::Float(Some(x))
                        },
                        _ => ExprV::Float(None),
                    };
                }
            },
            _ => {
                return Err(
                    if is_max {
                        emsg("Incompatible types in Max")
                    } else {
                        emsg("Incompatible types in Min")
                    },
                );
            },
        }
        i += 1;
    }
    Ok(vals[best].duplicate())
}

/// The mean over the evaluated operands: sums as float through the
/// embedder and divides by the count; see [`mean_from`].
fn fold_mean<F: FloatOps>(vals: &Vec<Expression>, fl: &F, Ghost(vs): Ghost<Seq<ExprV>>) -> (r:
    Result<Expression, String>)
    requires
        vs.len() == vals@.len(),
        forall|k: int| 0 <= k < vs.len() ==> val_admits(vs[k], view_of(#[trigger] vals@[k])),
    ensures
        res_admits(mean_from(vs, 0), r),
{
    let mut acc: u64 = 0;
    let mut i: usize = 0;
    while i < vals.len()
        invariant
            i <= vals@.len(),
            vs.len() == vals@.len(),
            forall|k: int| 0 <= k < vs.len() ==> val_admits(vs[k], view_of(#[trigger] vals@[k])),
            mean_from(vs, 0) == mean_from(vs, i as int),
        decreases vals@.len() - i,
    {
        match &vals[i] {
            Expression::Integer(v) => {
                let w = fl.from_int(*v);
                acc = fl.add(acc, w);
            },
            Expression::Float(b) => {
                acc = fl.add(acc, *b);
            },
            _ => {
                return Err(emsg("Incompatible types in Mean"));
            },
        }
        i += 1;
    }
    let n = fl.from_int(vals.len() as i64);
    Ok(Expression::Float(fl.div(acc, n)))
}

/// The sum over the evaluated operands, folding as a checked integer,
/// floats truncating through the embedder; see [`sum_from`].
fn fold_sum<F: FloatOps>(vals: &Vec<Expression>, fl: &F, Ghost(vs): Ghost<Seq<ExprV>>) -> (r:
    Result<Expression, String>)
    requires
        vs.len() == vals@.len(),
        forall|k: int| 0 <= k < vs.len() ==> val_admits(vs[k], view_of(#[trigger] vals@[k])),
    ensures
        out_admits(sum_from(vs, 0, 0), r),
{
    let mut acc: i64 = 0;
    let ghost mut known: bool = true;
    let mut i: usize = 0;
    while i < vals.len()
        invariant
            i <= vals@.len(),
            vs.len() == vals@.len(),
            forall|k: int| 0 <= k < vs.len() ==> val_admits(vs[k], view_of(#[trigger] vals@[k])),
            known ==> sum_from(vs, 0, 0) == sum_from(vs, i as int, acc),
            !known ==> sum_from(vs, 0, 0) is None,
        decreases vals@.len() - i,
    {
        match &vals[i] {
            Expression::Integer(b) => {
                match acc.checked_add(*b) {
                    Some(s) => {
                        acc = s;
                    },
                    None => {
                        return Err(emsg("Integer overflow"));
                    },
                }
            },
            Expression::Float(b) => {
                proof {
                    known = false;
                }
                let t = fl.to_int(*b);
                match acc.checked_add(t) {
                    Some(s) => {
                        acc = s;
                    },
                    None => {
                        return Err(emsg("Integer overflow"));
                    },
                }
            },
            _ => {
                return Err(emsg("Incompatible types in Sum"));
            },
        }
        i += 1;
    }
    Ok(Expression::Integer(acc))
}

} // verus!

verus! {


} // verus!

verus! {

/// Evaluates the two operands of a binary node, left first, then applies
/// the operator; see [`bin_outcome`].
fn eval_binary<F: FloatOps>(
    op: BinOp,
    l: &Expression,
    r: &Expression,
    env: &mut Grid,
    fl: &F,
    Ghost(g0): Ghost<Seq<Seq<CellV>>>,
    Ghost(parent): Ghost<Expression>,
) -> (res: Result<Expression, String>)
    requires
        grid_wf(old(env).deep_view()),
        g0 == old(env).deep_view(),
        expr_wf(view_of(*l)),
        expr_wf(view_of(*r)),
        decreases_to!(parent => *l),
        decreases_to!(parent => *r),
    ensures
        final(env).deep_view() == old(env).deep_view(),
        out_admits(bin_outcome(op, eval_spec(view_of(*l), g0), eval_spec(view_of(*r), g0)), res),
    decreases parent, 0nat,
{
    let lv = match l.evaluate(env, fl) {
        Ok(v) => v,
        Err(m) => {
            return Err(m);
        },
    };
    let ghost ls = match eval_spec(view_of(*l), g0) {
        Some(Ok(s)) => s,
        _ => view_of(lv),
    };
    let rv = match r.evaluate(env, fl) {
        Ok(v) => v,
        Err(m) => {
            return Err(m);
        },
    };
    let ghost rs = match eval_spec(view_of(*r), g0) {
        Some(Ok(s)) => s,
        _ => view_of(rv),
    };
    match op {
        BinOp::Arith(o) => apply_arith(fl, o, lv, rv, Ghost(ls), Ghost(rs)),
        BinOp::Div => apply_div(fl, lv, rv, Ghost(ls), Ghost(rs)),
        BinOp::Mod => apply_mod(lv, rv, Ghost(ls), Ghost(rs)),
        BinOp::Exp => apply_exp(fl, lv, rv, Ghost(ls), Ghost(rs)),
        BinOp::Logic(is_and) => apply_logic(is_and, lv, rv, Ghost(ls), Ghost(rs)),
        BinOp::Bit(o) => apply_bit(o, lv, rv, Ghost(ls), Ghost(rs)),
        BinOp::Shift(o) => apply_shift(o, lv, rv, Ghost(ls), Ghost(rs)),
        BinOp::Eq(negated) => apply_eq(negated, lv, rv, Ghost(ls), Ghost(rs)),
        BinOp::Ord(o) => apply_ord(o, lv, rv, Ghost(ls), Ghost(rs)),
    }
}

/// Evaluates the operand of a unary node, then applies the operator; see
/// [`un_outcome`].
fn eval_unary<F: FloatOps>(
    op: UnOp,
    e0: &Expression,
    env: &mut Grid,
    fl: &F,
    Ghost(g0): Ghost<Seq<Seq<CellV>>>,
    Ghost(parent): Ghost<Expression>,
) -> (res: Result<Expression, String>)
    requires
        grid_wf(old(env).deep_view()),
        g0 == old(env).deep_view(),
        expr_wf(view_of(*e0)),
        decreases_to!(parent => *e0),
    ensures
        final(env).deep_view() == old(env).deep_view(),
        out_admits(un_outcome(op, eval_spec(view_of(*e0), g0)), res),
    decreases parent, 0nat,
{
    let v = match e0.evaluate(env, fl) {
        Ok(v) => v,
        Err(m) => {
            return Err(m);
        },
    };
    let ghost vs = match eval_spec(view_of(*e0), g0) {
        Some(Ok(s)) => s,
        _ => view_of(v),
    };
    match op {
        UnOp::Neg => apply_neg(v, Ghost(vs)),
        UnOp::LNot => apply_lnot(v, Ghost(vs)),
        UnOp::BNot => apply_bnot(v, Ghost(vs)),
        UnOp::Fti => apply_fti(fl, v, Ghost(vs)),
        UnOp::Itf => apply_itf(fl, v, Ghost(vs)),
    }
}

/// Evaluates every operand of an aggregate, then folds; see
/// [`agg_outcome`].
fn eval_aggregate<F: FloatOps>(
    op: AggOp,
    es: &Vec<Expression>,
    env: &mut Grid,
    fl: &F,
    Ghost(g0): Ghost<Seq<Seq<CellV>>>,
    Ghost(parent): Ghost<Expression>,
) -> (res: Result<Expression, String>)
    requires
        grid_wf(old(env).deep_view()),
        g0 == old(env).deep_view(),
        es@.len() > 0,
        forall|k: int| 0 <= k < es@.len() ==> expr_wf(view_of(#[trigger] es@[k])),
        decreases_to!(parent => *es),
    ensures
        final(env).deep_view() == old(env).deep_view(),
        out_admits(agg_outcome(op, eval_list_from(views_of(es@), 0, g0)), res),
    decreases parent, 0nat,
{
    let vals = match eval_all(es, env, fl) {
        Ok(v) => v,
        Err(m) => {
            return Err(m);
        },
    };
    let ghost vs = match eval_list_from(views_of(es@), 0, g0) {
        Some(Ok(s)) => s,
        _ => views_of(vals@),
    };
    proof {
        lemma_views_of(vals@);
        lemma_views_of(es@);
    }
    match op {
        AggOp::Max => fold_extreme(&vals, true, Ghost(vs)),
        AggOp::Min => fold_extreme(&vals, false, Ghost(vs)),
        AggOp::Mean => fold_mean(&vals, fl, Ghost(vs)),
        AggOp::Sum => fold_sum(&vals, fl, Ghost(vs)),
    }
}

/// Evaluates the coordinates of a cell read and fetches the cell's
/// value; see [`cell_read_outcome`].
fn eval_cell_read<F: FloatOps>(
    c: &Expression,
    r: &Expression,
    env: &mut Grid,
    fl: &F,
    Ghost(g0): Ghost<Seq<Seq<CellV>>>,
    Ghost(parent): Ghost<Expression>,
) -> (res: Result<Expression, String>)
    requires
        grid_wf(old(env).deep_view()),
        g0 == old(env).deep_view(),
        expr_wf(view_of(*c)),
        expr_wf(view_of(*r)),
        decreases_to!(parent => *c),
        decreases_to!(parent => *r),
    ensures
        final(env).deep_view() == old(env).deep_view(),
        out_admits(
            cell_read_outcome(
                view_of(*c),
                view_of(*r),
                eval_spec(view_of(*c), g0),
                eval_spec(view_of(*r), g0),
                g0,
            ),
            res,
        ),
    decreases parent, 0nat,
{
    let cv = match c.evaluate(env, fl) {
        Ok(v) => v,
        Err(m) => {
            return Err(m);
        },
    };
    let ci = match cv {
        Expression::Integer(v) => v,
        _ => {
            return Err(emsg("Column index must be an integer"));
        },
    };
    let rv = match r.evaluate(env, fl) {
        Ok(v) => v,
        Err(m) => {
            return Err(m);
        },
    };
    let ri = match rv {
        Expression::Integer(v) => v,
        _ => {
            return Err(emsg("Row index must be an integer"));
        },
    };
    if 0 <= ri && ri < ROWS as i64 && 0 <= ci && ci < COLS as i64 {
        match env.get_cell(ri as usize, ci as usize) {
            Some(cell) => match cell.get_value() {
                CellValue::String(s) => Ok(Expression::String(s.clone())),
                CellValue::Int(v) => Ok(Expression::Integer(*v)),
                CellValue::Bool(b) => Ok(Expression::Boolean(*b)),
                CellValue::Float(f) => Ok(Expression::Float(*f)),
            },
            None => unreached(),
        }
    } else {
        let sc = c.serialize(fl);
        let sr = r.serialize(fl);
        Err(cell_not_found_msg(sc, sr))
    }
}

/// `Cell at (COL, ROW) not found`, with the two coordinate subexpressions
/// serialized in place.
fn cell_not_found_msg(sc: String, sr: String) -> (r: String)
    ensures
        r@ == "Cell at ("@ + sc@ + ", "@ + sr@ + ") not found"@,
{
    let mut s = String::new();
    s.append("Cell at (");
    s.append(sc.as_str());
    s.append(", ");
    s.append(sr.as_str());
    s.append(") not found");
    proof {
        assert(s@ =~= "Cell at ("@ + sc@ + ", "@ + sr@ + ") not found"@);
    }
    s
}

impl Expression {
    /// Evaluates the tree against the grid, post-order, to a literal (or a
    /// cell-write marker, which evaluates to itself) or the first error.
    /// The grid is only read.  [`eval_spec`] gives the exact account of
    /// the result wherever the evaluation does not pass through one of the
    /// embedder's floating-point operations.
    pub fn evaluate<F: FloatOps>(&self, env: &mut Grid, fl: &F) -> (r: Result<Expression, String>)
        requires
            grid_wf(old(env).deep_view()),
            expr_wf(view_of(*self)),
        ensures
            final(env).deep_view() == old(env).deep_view(),
            out_admits(eval_spec(view_of(*self), old(env).deep_view()), r),
        decreases self, 1nat,
    {
        let ghost g0 = old(env).deep_view();
        match self {
            Expression::Integer(i) => Ok(Expression::Integer(*i)),
            Expression::Float(b) => Ok(Expression::Float(*b)),
            Expression::Boolean(b) => Ok(Expression::Boolean(*b)),
            Expression::String(s) => Ok(Expression::String(s.clone())),
            Expression::Add(l, r) => eval_binary(
                BinOp::Arith(ArithOp::Add),
                l,
                r,
                env,
                fl,
                Ghost(g0),
                Ghost(*self),
            ),
            Expression::Subtract(l, r) => eval_binary(
                BinOp::Arith(ArithOp::Sub),
                l,
                r,
                env,
                fl,
                Ghost(g0),
                Ghost(*self),
            ),
            Expression::Multiply(l, r) => eval_binary(
                BinOp::Arith(ArithOp::Mul),
                l,
                r,
                env,
                fl,
                Ghost(g0),
                Ghost(*self),
            ),
            Expression::Divide(l, r) => eval_binary(
                BinOp::Div,
                l,
                r,
                env,
                fl,
                Ghost(g0),
                Ghost(*self),
            ),
            Expression::Modulo(l, r) => eval_binary(
                BinOp::Mod,
                l,
                r,
                env,
                fl,
                Ghost(g0),
                Ghost(*self),
            ),
            Expression::Exp(l, r) => eval_binary(
                BinOp::Exp,
                l,
                r,
                env,
                fl,
                Ghost(g0),
                Ghost(*self),
            ),
            Expression::Negate(e0) => eval_unary(UnOp::Neg, e0, env, fl, Ghost(g0), Ghost(*self)),
            Expression::LAnd(l, r) => eval_binary(
                BinOp::Logic(true),
                l,
                r,
                env,
                fl,
                Ghost(g0),
                Ghost(*self),
            ),
            Expression::LOr(l, r) => eval_binary(
                BinOp::Logic(false),
                l,
                r,
                env,
                fl,
                Ghost(g0),
                Ghost(*self),
            ),
            Expression::LNot(e0) => eval_unary(UnOp::LNot, e0, env, fl, Ghost(g0), Ghost(*self)),
            Expression::CellLValue(c, r) => Ok(
                Expression::CellLValue(Box::new(c.duplicate()), Box::new(r.duplicate())),
            ),
            Expression::CellRValue(c, r) => eval_cell_read(
                c,
                r,
                env,
                fl,
                Ghost(g0),
                Ghost(*self),
            ),
            Expression::BAnd(l, r) => eval_binary(
                BinOp::Bit(BitOp::And),
                l,
                r,
                env,
                fl,
                Ghost(g0),
                Ghost(*self),
            ),
            Expression::BOr(l, r) => eval_binary(
                BinOp::Bit(BitOp::Or),
                l,
                r,
                env,
                fl,
                Ghost(g0),
                Ghost(*self),
            ),
            Expression::Xor(l, r) => eval_binary(
                BinOp::Bit(BitOp::Xor),
                l,
                r,
                env,
                fl,
                Ghost(g0),
                Ghost(*self),
            ),
            Expression::BNot(e0) => eval_unary(UnOp::BNot, e0, env, fl, Ghost(g0), Ghost(*self)),
            Expression::LeftShift(l, r) => eval_binary(
                BinOp::Shift(ShiftOp::Left),
                l,
                r,
                env,
                fl,
                Ghost(g0),
                Ghost(*self),
            ),
            Expression::RightShift(l, r) => eval_binary(
                BinOp::Shift(ShiftOp::Right),
                l,
                r,
                env,
                fl,
                Ghost(g0),
                Ghost(*self),
            ),
            Expression::Equals(l, r) => eval_binary(
                BinOp::Eq(false),
                l,
                r,
                env,
                fl,
                Ghost(g0),
                Ghost(*self),
            ),
            Expression::NotEquals(l, r) => eval_binary(
                BinOp::Eq(true),
                l,
                r,
                env,
                fl,
                Ghost(g0),
                Ghost(*self),
            ),
            Expression::LessThan(l, r) => eval_binary(
                BinOp::Ord(OrdOp::Lt),
                l,
                r,
                env,
                fl,
                Ghost(g0),
                Ghost(*self),
            ),
            Expression::LessThanEq(l, r) => eval_binary(
                BinOp::Ord(OrdOp::Le),
                l,
                r,
                env,
                fl,
                Ghost(g0),
                Ghost(*self),
            ),
            Expression::GreaterThan(l, r) => eval_binary(
                BinOp::Ord(OrdOp::Gt),
                l,
                r,
                env,
                fl,
                Ghost(g0),
                Ghost(*self),
            ),
            Expression::GreaterThanEq(l, r) => eval_binary(
                BinOp::Ord(OrdOp::Ge),
                l,
                r,
                env,
                fl,
                Ghost(g0),
                Ghost(*self),
            ),
            Expression::FTI(e0) => eval_unary(UnOp::Fti, e0, env, fl, Ghost(g0), Ghost(*self)),
            Expression::ITF(e0) => eval_unary(UnOp::Itf, e0, env, fl, Ghost(g0), Ghost(*self)),
            Expression::Max(es) => {
                proof {
                    lemma_views_of(es@);
                    assert forall|k: int| 0 <= k < es@.len() implies expr_wf(
                        view_of(#[trigger] es@[k]),
                    ) by {
                        assert(expr_wf(views_of(es@)[k]));
                    }
                }
                eval_aggregate(AggOp::Max, es, env, fl, Ghost(g0), Ghost(*self))
            },
            Expression::Min(es) => {
                proof {
                    lemma_views_of(es@);
                    assert forall|k: int| 0 <= k < es@.len() implies expr_wf(
                        view_of(#[trigger] es@[k]),
                    ) by {
                        assert(expr_wf(views_of(es@)[k]));
                    }
                }
                eval_aggregate(AggOp::Min, es, env, fl, Ghost(g0), Ghost(*self))
            },
            Expression::Mean(es) => {
                proof {
                    lemma_views_of(es@);
                    assert forall|k: int| 0 <= k < es@.len() implies expr_wf(
                        view_of(#[trigger] es@[k]),
                    ) by {
                        assert(expr_wf(views_of(es@)[k]));
                    }
                }
                eval_aggregate(AggOp::Mean, es, env, fl, Ghost(g0), Ghost(*self))
            },
            Expression::Sum(es) => {
                proof {
                    lemma_views_of(es@);
                    assert forall|k: int| 0 <= k < es@.len() implies expr_wf(
                        view_of(#[trigger] es@[k]),
                    ) by {
                        assert(expr_wf(views_of(es@)[k]));
                    }
                }
                eval_aggregate(AggOp::Sum, es, env, fl, Ghost(g0), Ghost(*self))
            },
        }
    }
}

} // verus!
