//! The parser: tokens to a tree, by precedence climbing.
//!
//! Each binary level parses one tighter-binding operand and then folds
//! further operands in from the left while the current token carries one
//! of its operators, so every binary level is left-associative.  The
//! levels, loosest first: logical or, logical and, bitwise or, bitwise
//! xor, bitwise and, the shifts, additive, multiplicative,
//! exponentiation; below them the unary operators (`-`, `~`, `!`, and the
//! cast keywords `int` and `float`), and the primaries: the four literal
//! kinds and a parenthesized expression.  One token of lookahead, no
//! backtracking; the first unexpected token ends parsing with a message.
//!
//! The exponentiation level sits inside the bitwise-xor level and takes
//! every `^` before that level can see one, as this engine has always
//! parsed it.  An integer literal whose digits exceed the 64-bit range is
//! a parse error.  The value of a float literal is the embedder's reading
//! of its text, so [`parse_lvl`] pins the parsed tree down only up to
//! float literal bits (see [`scrub`]).

use vstd::prelude::*;

use crate::eval::ArithOp;
use crate::eval::BinOp;
use crate::eval::BitOp;
use crate::eval::OrdOp;
use crate::eval::ShiftOp;
use crate::floatops::FloatOps;
use crate::lexer::Token;
use crate::lexer::TokenType;
use crate::lexer::TokenTypeV;
use crate::lexer::TokenV;
use crate::lexer::is_digit;
use crate::text::str_eq;
use crate::tree::Expression;
use crate::tree::ExprV;
use crate::tree::view_of;

verus! {

/// The tree node a binary operator tag builds.
pub open spec fn bin_node(op: BinOp, l: ExprV, r: ExprV) -> ExprV {
    match op {
        BinOp::Arith(ArithOp::Add) => ExprV::Add(Box::new(l), Box::new(r)),
        BinOp::Arith(ArithOp::Sub) => ExprV::Subtract(Box::new(l), Box::new(r)),
        BinOp::Arith(ArithOp::Mul) => ExprV::Multiply(Box::new(l), Box::new(r)),
        BinOp::Div => ExprV::Divide(Box::new(l), Box::new(r)),
        BinOp::Mod => ExprV::Modulo(Box::new(l), Box::new(r)),
        BinOp::Exp => ExprV::Exp(Box::new(l), Box::new(r)),
        BinOp::Logic(true) => ExprV::LAnd(Box::new(l), Box::new(r)),
        BinOp::Logic(false) => ExprV::LOr(Box::new(l), Box::new(r)),
        BinOp::Bit(BitOp::And) => ExprV::BAnd(Box::new(l), Box::new(r)),
        BinOp::Bit(BitOp::Or) => ExprV::BOr(Box::new(l), Box::new(r)),
        BinOp::Bit(BitOp::Xor) => ExprV::Xor(Box::new(l), Box::new(r)),
        BinOp::Shift(ShiftOp::Left) => ExprV::LeftShift(Box::new(l), Box::new(r)),
        BinOp::Shift(ShiftOp::Right) => ExprV::RightShift(Box::new(l), Box::new(r)),
        BinOp::Eq(false) => ExprV::Equals(Box::new(l), Box::new(r)),
        BinOp::Eq(true) => ExprV::NotEquals(Box::new(l), Box::new(r)),
        BinOp::Ord(OrdOp::Lt) => ExprV::LessThan(Box::new(l), Box::new(r)),
        BinOp::Ord(OrdOp::Le) => ExprV::LessThanEq(Box::new(l), Box::new(r)),
        BinOp::Ord(OrdOp::Gt) => ExprV::GreaterThan(Box::new(l), Box::new(r)),
        BinOp::Ord(OrdOp::Ge) => ExprV::GreaterThanEq(Box::new(l), Box::new(r)),
    }
}

/// The operator a token carries at a given binary level, if any.
pub open spec fn level_op(lv: int, tt: TokenTypeV) -> Option<BinOp> {
    match tt {
        TokenTypeV::BinaryOp(s) => if lv == 10 && s == "||"@ {
            Some(BinOp::Logic(false))
        } else if lv == 9 && s == "&&"@ {
            Some(BinOp::Logic(true))
        } else if lv == 8 && s == "|"@ {
            Some(BinOp::Bit(BitOp::Or))
        } else if lv == 7 && s == "^"@ {
            Some(BinOp::Bit(BitOp::Xor))
        } else if lv == 6 && s == "&"@ {
            Some(BinOp::Bit(BitOp::And))
        } else if lv == 5 && s == "<<"@ {
            Some(BinOp::Shift(ShiftOp::Left))
        } else if lv == 5 && s == ">>"@ {
            Some(BinOp::Shift(ShiftOp::Right))
        } else if lv == 4 && s == "+"@ {
            Some(BinOp::Arith(ArithOp::Add))
        } else if lv == 4 && s == "-"@ {
            Some(BinOp::Arith(ArithOp::Sub))
        } else if lv == 3 && s == "*"@ {
            Some(BinOp::Arith(ArithOp::Mul))
        } else if lv == 3 && s == "/"@ {
            Some(BinOp::Div)
        } else if lv == 3 && s == "%"@ {
            Some(BinOp::Mod)
        } else if lv == 2 && s == "^"@ {
            Some(BinOp::Exp)
        } else {
            None
        },
        _ => None,
    }
}

/// The decimal value of a digit string, most significant digit first.
pub open spec fn digits_val(s: Seq<char>) -> int
    decreases s.len(),
{
    if s.len() == 0 {
        0
    } else {
        digits_val(s.drop_last()) * 10 + (s.last() as int - '0' as int)
    }
}

/// Whether a token text is a well-formed integer literal within `i64`.
pub open spec fn int_text_ok(s: Seq<char>) -> bool {
    &&& s.len() > 0
    &&& (forall|k: int| 0 <= k < s.len() ==> is_digit(#[trigger] s[k]))
    &&& digits_val(s) <= i64::MAX
}

/// A digit string's value is never negative.
pub proof fn lemma_digits_val_nonneg(s: Seq<char>)
    requires
        forall|k: int| 0 <= k < s.len() ==> is_digit(#[trigger] s[k]),
    ensures
        digits_val(s) >= 0,
    decreases s.len(),
{
    if s.len() > 0 {
        lemma_digits_val_nonneg(s.drop_last());
    }
}

/// Extending a digit string never shrinks its value.
pub proof fn lemma_digits_val_prefix(s: Seq<char>, k: int)
    requires
        0 <= k <= s.len(),
        forall|j: int| 0 <= j < s.len() ==> is_digit(#[trigger] s[j]),
    ensures
        digits_val(s.take(k)) <= digits_val(s),
    decreases s.len() - k,
{
    if k < s.len() {
        lemma_digits_val_prefix(s, k + 1);
        lemma_digits_val_nonneg(s.take(k));
        assert(s.take(k + 1).drop_last() =~= s.take(k));
        assert(digits_val(s.take(k + 1)) == digits_val(s.take(k)) * 10 + (s[k] as int
            - '0' as int));
    } else {
        assert(s.take(k) =~= s);
    }
}

/// A tree with every float literal's bits forgotten: what the parser's
/// contract can pin down, since those bits come from the embedder.
pub open spec fn scrub(e: ExprV) -> ExprV
    decreases e,
{
    match e {
        ExprV::Integer(_) => e,
        ExprV::Float(_) => ExprV::Float(None),
        ExprV::Boolean(_) => e,
        ExprV::String(_) => e,
        ExprV::Add(l, r) => ExprV::Add(Box::new(scrub(*l)), Box::new(scrub(*r))),
        ExprV::Subtract(l, r) => ExprV::Subtract(Box::new(scrub(*l)), Box::new(scrub(*r))),
        ExprV::Multiply(l, r) => ExprV::Multiply(Box::new(scrub(*l)), Box::new(scrub(*r))),
        ExprV::Divide(l, r) => ExprV::Divide(Box::new(scrub(*l)), Box::new(scrub(*r))),
        ExprV::Modulo(l, r) => ExprV::Modulo(Box::new(scrub(*l)), Box::new(scrub(*r))),
        ExprV::Exp(l, r) => ExprV::Exp(Box::new(scrub(*l)), Box::new(scrub(*r))),
        ExprV::Negate(e0) => ExprV::Negate(Box::new(scrub(*e0))),
        ExprV::LAnd(l, r) => ExprV::LAnd(Box::new(scrub(*l)), Box::new(scrub(*r))),
        ExprV::LOr(l, r) => ExprV::LOr(Box::new(scrub(*l)), Box::new(scrub(*r))),
        ExprV::LNot(e0) => ExprV::LNot(Box::new(scrub(*e0))),
        ExprV::CellLValue(c, r) => ExprV::CellLValue(Box::new(scrub(*c)), Box::new(scrub(*r))),
        ExprV::CellRValue(c, r) => ExprV::CellRValue(Box::new(scrub(*c)), Box::new(scrub(*r))),
        ExprV::BAnd(l, r) => ExprV::BAnd(Box::new(scrub(*l)), Box::new(scrub(*r))),
        ExprV::BOr(l, r) => ExprV::BOr(Box::new(scrub(*l)), Box::new(scrub(*r))),
        ExprV::Xor(l, r) => ExprV::Xor(Box::new(scrub(*l)), Box::new(scrub(*r))),
        ExprV::BNot(e0) => ExprV::BNot(Box::new(scrub(*e0))),
        ExprV::LeftShift(l, r) => ExprV::LeftShift(Box::new(scrub(*l)), Box::new(scrub(*r))),
        ExprV::RightShift(l, r) => ExprV::RightShift(Box::new(scrub(*l)), Box::new(scrub(*r))),
        ExprV::Equals(l, r) => ExprV::Equals(Box::new(scrub(*l)), Box::new(scrub(*r))),
        ExprV::NotEquals(l, r) => ExprV::NotEquals(Box::new(scrub(*l)), Box::new(scrub(*r))),
        ExprV::LessThan(l, r) => ExprV::LessThan(Box::new(scrub(*l)), Box::new(scrub(*r))),
        ExprV::LessThanEq(l, r) => ExprV::LessThanEq(Box::new(scrub(*l)), Box::new(scrub(*r))),
        ExprV::GreaterThan(l, r) => ExprV::GreaterThan(Box::new(scrub(*l)), Box::new(scrub(*r))),
        ExprV::GreaterThanEq(l, r) => ExprV::GreaterThanEq(
            Box::new(scrub(*l)),
            Box::new(scrub(*r)),
        ),
        ExprV::FTI(e0) => ExprV::FTI(Box::new(scrub(*e0))),
        ExprV::ITF(e0) => ExprV::ITF(Box::new(scrub(*e0))),
        ExprV::Max(es) => ExprV::Max(scrub_all(es)),
        ExprV::Min(es) => ExprV::Min(scrub_all(es)),
        ExprV::Mean(es) => ExprV::Mean(scrub_all(es)),
        ExprV::Sum(es) => ExprV::Sum(scrub_all(es)),
    }
}

/// [`scrub`] over a list of trees.
pub open spec fn scrub_all(es: Seq<ExprV>) -> Seq<ExprV>
    decreases es,
{
    if es.len() == 0 {
        Seq::empty()
    } else {
        seq![scrub(es[0])] + scrub_all(es.drop_first())
    }
}

/// The parse of one precedence level from position `i`: the tree (with
/// float literal bits forgotten) or the failure, and the position after
/// it.  Level ten is a whole expression; level one is the unary level and
/// the primaries.
pub open spec fn parse_lvl(lv: int, t: Seq<TokenV>, i: int) -> (Result<ExprV, Seq<char>>, int)
    decreases t.len() - i, (if 1 <= lv <= 10 { lv } else { 10 }) as nat, 1int,
{
    let lvc: int = if 1 <= lv <= 10 {
        lv
    } else {
        10
    };
    if i < 0 || i > t.len() {
        (Err("Unexpected token"@), i)
    } else if lvc == 1 {
        parse_unary(t, i)
    } else {
        let (left, j0) = parse_lvl(lvc - 1, t, i);
        let j = if j0 < i {
            i
        } else if j0 > t.len() {
            t.len() as int
        } else {
            j0
        };
        match left {
            Err(m) => (Err(m), j),
            Ok(l) => parse_rest(lvc, t, j, l),
        }
    }
}

/// The left-associative fold of one level: while the current token is one
/// of the level's operators, take it and one tighter operand.
pub open spec fn parse_rest(lv: int, t: Seq<TokenV>, i: int, left: ExprV) -> (Result<
    ExprV,
    Seq<char>,
>, int)
    decreases t.len() - i, (if 1 <= lv <= 10 { lv } else { 10 }) as nat, 0int,
{
    let lvc: int = if 1 <= lv <= 10 {
        lv
    } else {
        10
    };
    if 0 <= i < t.len() && lvc >= 2 && level_op(lvc, t[i].token_type) is Some {
        let op = level_op(lvc, t[i].token_type)->Some_0;
        let (right, j0) = parse_lvl(lvc - 1, t, i + 1);
        let j = if j0 < i + 1 {
            i + 1
        } else if j0 > t.len() {
            t.len() as int
        } else {
            j0
        };
        match right {
            Err(m) => (Err(m), j),
            Ok(r) => parse_rest(lvc, t, j, bin_node(op, left, r)),
        }
    } else {
        (Ok(left), i)
    }
}

/// The unary level: `-`, `~`, `!` and the cast keywords apply to a unary
/// operand; anything else is a primary.
pub open spec fn parse_unary(t: Seq<TokenV>, i: int) -> (Result<ExprV, Seq<char>>, int)
    decreases t.len() - i, 0nat, 1int,
{
    if 0 <= i < t.len() {
        let tok = t[i];
        let un: Option<int> = match tok.token_type {
            TokenTypeV::BinaryOp(s) => if s == "-"@ {
                Some(0int)
            } else {
                None
            },
            TokenTypeV::UnaryOp(s) => if s == "~"@ {
                Some(1int)
            } else if s == "!"@ {
                Some(2int)
            } else {
                None
            },
            TokenTypeV::Identifier => if tok.text == "int"@ {
                Some(3int)
            } else if tok.text == "float"@ {
                Some(4int)
            } else {
                None
            },
            _ => None,
        };
        match un {
            Some(k) => {
                let (inner, j0) = parse_unary(t, i + 1);
                let j = if j0 < i + 1 {
                    i + 1
                } else {
                    j0
                };
                match inner {
                    Err(m) => (Err(m), j),
                    Ok(e) => (
                        Ok(
                            if k == 0 {
                                ExprV::Negate(Box::new(e))
                            } else if k == 1 {
                                ExprV::BNot(Box::new(e))
                            } else if k == 2 {
                                ExprV::LNot(Box::new(e))
                            } else if k == 3 {
                                ExprV::FTI(Box::new(e))
                            } else {
                                ExprV::ITF(Box::new(e))
                            },
                        ),
                        j,
                    ),
                }
            },
            None => parse_primary(t, i),
        }
    } else {
        (Err("Unexpected token"@), i)
    }
}

/// The primaries: the four literals and a parenthesized expression.
pub open spec fn parse_primary(t: Seq<TokenV>, i: int) -> (Result<ExprV, Seq<char>>, int)
    decreases t.len() - i, 0nat, 0int,
{
    if 0 <= i < t.len() {
        let tok = t[i];
        match tok.token_type {
            TokenTypeV::IntegerLiteral => if int_text_ok(tok.text) {
                (Ok(ExprV::Integer(digits_val(tok.text) as i64)), i + 1)
            } else {
                (Err("Integer literal out of range"@), i)
            },
            TokenTypeV::FloatLiteral => (Ok(ExprV::Float(None)), i + 1),
            TokenTypeV::BooleanLiteral => (Ok(ExprV::Boolean(tok.text == "true"@)), i + 1),
            TokenTypeV::StringLiteral => (Ok(ExprV::String(tok.text)), i + 1),
            TokenTypeV::ParenOpen => {
                let (inner, j0) = parse_lvl(10, t, i + 1);
                let j = if j0 < i + 1 {
                    i + 1
                } else {
                    j0
                };
                match inner {
                    Err(m) => (Err(m), j),
                    Ok(e) => if j < t.len() && t[j].token_type is ParenClose {
                        (Ok(e), j + 1)
                    } else {
                        (Err("Expected closing parenthesis"@), j)
                    },
                }
            },
            _ => (Err("Unexpected token"@), i),
        }
    } else {
        (Err("Unexpected token"@), i)
    }
}

/// The parse of a whole token stream: the loosest level from the start.
/// Tokens after the expression are left unread, as they always have been.
pub open spec fn parse_spec(t: Seq<TokenV>) -> Result<ExprV, Seq<char>> {
    parse_lvl(10, t, 0).0
}

} // verus!

verus! {

/// The tree node a binary operator tag builds, at runtime; see
/// [`bin_node`].
fn bin_expr(op: BinOp, l: Expression, r: Expression) -> (res: Expression)
    ensures
        view_of(res) == bin_node(op, view_of(l), view_of(r)),
{
    match op {
        BinOp::Arith(ArithOp::Add) => Expression::Add(Box::new(l), Box::new(r)),
        BinOp::Arith(ArithOp::Sub) => Expression::Subtract(Box::new(l), Box::new(r)),
        BinOp::Arith(ArithOp::Mul) => Expression::Multiply(Box::new(l), Box::new(r)),
        BinOp::Div => Expression::Divide(Box::new(l), Box::new(r)),
        BinOp::Mod => Expression::Modulo(Box::new(l), Box::new(r)),
        BinOp::Exp => Expression::Exp(Box::new(l), Box::new(r)),
        BinOp::Logic(true) => Expression::LAnd(Box::new(l), Box::new(r)),
        BinOp::Logic(false) => Expression::LOr(Box::new(l), Box::new(r)),
        BinOp::Bit(BitOp::And) => Expression::BAnd(Box::new(l), Box::new(r)),
        BinOp::Bit(BitOp::Or) => Expression::BOr(Box::new(l), Box::new(r)),
        BinOp::Bit(BitOp::Xor) => Expression::Xor(Box::new(l), Box::new(r)),
        BinOp::Shift(ShiftOp::Left) => Expression::LeftShift(Box::new(l), Box::new(r)),
        BinOp::Shift(ShiftOp::Right) => Expression::RightShift(Box::new(l), Box::new(r)),
        BinOp::Eq(false) => Expression::Equals(Box::new(l), Box::new(r)),
        BinOp::Eq(true) => Expression::NotEquals(Box::new(l), Box::new(r)),
        BinOp::Ord(OrdOp::Lt) => Expression::LessThan(Box::new(l), Box::new(r)),
        BinOp::Ord(OrdOp::Le) => Expression::LessThanEq(Box::new(l), Box::new(r)),
        BinOp::Ord(OrdOp::Gt) => Expression::GreaterThan(Box::new(l), Box::new(r)),
        BinOp::Ord(OrdOp::Ge) => Expression::GreaterThanEq(Box::new(l), Box::new(r)),
    }
}

/// Reads a decimal integer literal, or `None` when the text is not all
/// digits or its value falls outside `i64`.
fn parse_i64(s: &str) -> (r: Option<i64>)
    ensures
        match r {
            Some(v) => int_text_ok(s@) && v == digits_val(s@),
            None => !int_text_ok(s@),
        },
{
    let n = s.unicode_len();
    if n == 0 {
        return None;
    }
    let mut acc: i64 = 0;
    let mut i: usize = 0;
    while i < n
        invariant
            n == s@.len(),
            i <= n,
            forall|k: int| 0 <= k < i ==> is_digit(#[trigger] s@[k]),
            0 <= acc,
            acc == digits_val(s@.take(i as int)),
        decreases n - i,
    {
        let c = s.get_char(i);
        if !('0' <= c && c <= '9') {
            return None;
        }
        let d = ((c as u32) - ('0' as u32)) as i64;
        proof {
            assert(s@.take(i as int + 1).drop_last() =~= s@.take(i as int));
        }
        let m = match acc.checked_mul(10) {
            Some(m) => m,
            None => {
                proof {
                    if int_text_ok(s@) {
                        lemma_digits_val_prefix(s@, i as int + 1);
                    }
                }
                return None;
            },
        };
        let a2 = match m.checked_add(d) {
            Some(a2) => a2,
            None => {
                proof {
                    if int_text_ok(s@) {
                        lemma_digits_val_prefix(s@, i as int + 1);
                    }
                }
                return None;
            },
        };
        acc = a2;
        i += 1;
    }
    proof {
        assert(s@.take(n as int) =~= s@);
    }
    Some(acc)
}

/// The parser's cursor over one token stream.
#[derive(Debug)]
pub struct Parser {
    tokens: Vec<Token>,
    current_index: usize,
}

impl Parser {
    /// The token stream being parsed.
    pub closed spec fn toks(&self) -> Seq<TokenV> {
        self.tokens.deep_view()
    }

    /// The current position.
    pub closed spec fn pos(&self) -> int {
        self.current_index as int
    }

    /// The cursor stays inside the stream.
    pub closed spec fn wf(&self) -> bool {
        self.current_index <= self.tokens@.len()
    }

    /// A fresh parser at the start of the given tokens.
    pub fn new(tokens: Vec<Token>) -> (r: Self)
        ensures
            r.toks() == tokens.deep_view(),
            r.pos() == 0,
            r.wf(),
    {
        Parser { tokens, current_index: 0 }
    }

    /// Parses one whole expression from the front of the stream; tokens
    /// after it are left unread.  [`parse_spec`] is the exact account of
    /// the result, up to the bits of float literals, which the embedder
    /// reads (see [`scrub`]).
    pub fn parse<F: FloatOps>(&mut self, fl: &F) -> (r: Result<Expression, String>)
        requires
            old(self).wf(),
        ensures
            match parse_lvl(10, old(self).toks(), old(self).pos()).0 {
                Ok(sv) => r is Ok && scrub(view_of(r->Ok_0)) == sv,
                Err(m) => r is Err && r->Err_0@ == m,
            },
            old(self).pos() == 0 ==> match parse_spec(old(self).toks()) {
                Ok(sv) => r is Ok && scrub(view_of(r->Ok_0)) == sv,
                Err(m) => r is Err && r->Err_0@ == m,
            },
    {
        self.level(10, fl)
    }

    /// One binary precedence level; see [`parse_lvl`].
    #[verifier::loop_isolation(false)]
    fn level<F: FloatOps>(&mut self, lv: u8, fl: &F) -> (r: Result<Expression, String>)
        requires
            old(self).wf(),
            2 <= lv <= 10,
        ensures
            final(self).wf(),
            final(self).toks() == old(self).toks(),
            final(self).pos() >= old(self).pos(),
            ({
                let (sr, sp) = parse_lvl(lv as int, old(self).toks(), old(self).pos());
                &&& sp == final(self).pos()
                &&& match sr {
                    Ok(sv) => r is Ok && scrub(view_of(r->Ok_0)) == sv,
                    Err(m) => r is Err && r->Err_0@ == m,
                }
            }),
        decreases self.tokens@.len() - self.current_index, lv as int, 1int,
    {
        let ghost t = self.toks();
        let ghost i0 = self.pos();
        proof {
            assert(t.len() == self.tokens@.len());
            if lv == 2 {
                assert(parse_lvl(1, t, i0) == parse_unary(t, i0));
            }
        }
        let lr = if lv == 2 {
            self.unary(fl)
        } else {
            self.level(lv - 1, fl)
        };
        let mut left = match lr {
            Ok(v) => v,
            Err(m) => {
                return Err(m);
            },
        };
        proof {
            let (l0, j0) = parse_lvl(lv as int - 1, t, i0);
            assert(j0 == self.pos());
            assert(i0 <= j0 <= t.len());
            assert(parse_lvl(lv as int, t, i0) == parse_rest(
                lv as int,
                t,
                self.pos(),
                scrub(view_of(left)),
            ));
        }
        loop
            invariant
                self.wf(),
                self.toks() == t,
                t.len() == self.tokens@.len(),
                2 <= lv <= 10,
                self.pos() >= i0,
                self.pos() <= t.len(),
                parse_lvl(lv as int, t, i0) == parse_rest(
                    lv as int,
                    t,
                    self.pos(),
                    scrub(view_of(left)),
                ),
            decreases self.tokens@.len() - self.current_index,
        {
            let ghost p1 = self.pos();
            let ghost left_s = scrub(view_of(left));
            let opx = self.peek_op(lv);
            match opx {
                None => {
                    proof {
                        assert(parse_rest(lv as int, t, p1, left_s) == (
                            Ok::<ExprV, Seq<char>>(left_s),
                            p1,
                        ));
                    }
                    break ;
                },
                Some(op) => {
                    self.advance();
                    proof {
                        if lv == 2 {
                            assert(parse_lvl(1, t, p1 + 1) == parse_unary(t, p1 + 1));
                        }
                    }
                    let rr = if lv == 2 {
                        self.unary(fl)
                    } else {
                        self.level(lv - 1, fl)
                    };
                    proof {
                        let (r0, j0) = parse_lvl(lv as int - 1, t, p1 + 1);
                        assert(j0 == self.pos());
                        assert(p1 + 1 <= j0 <= t.len());
                    }
                    match rr {
                        Ok(rv) => {
                            let ghost rv_s = scrub(view_of(rv));
                            left = bin_expr(op, left, rv);
                            proof {
                                assert(scrub(view_of(left)) == bin_node(op, left_s, rv_s));
                                assert(parse_rest(lv as int, t, p1, left_s) == parse_rest(
                                    lv as int,
                                    t,
                                    self.pos(),
                                    scrub(view_of(left)),
                                ));
                            }
                        },
                        Err(m) => {
                            proof {
                                assert(parse_rest(lv as int, t, p1, left_s).0 == Err::<
                                    ExprV,
                                    Seq<char>,
                                >(m@));
                            }
                            return Err(m);
                        },
                    }
                },
            }
        }
        Ok(left)
    }

    /// The unary level; see [`parse_unary`].
    fn unary<F: FloatOps>(&mut self, fl: &F) -> (r: Result<Expression, String>)
        requires
            old(self).wf(),
        ensures
            final(self).wf(),
            final(self).toks() == old(self).toks(),
            final(self).pos() >= old(self).pos(),
            ({
                let (sr, sp) = parse_unary(old(self).toks(), old(self).pos());
                &&& sp == final(self).pos()
                &&& match sr {
                    Ok(sv) => r is Ok && scrub(view_of(r->Ok_0)) == sv,
                    Err(m) => r is Err && r->Err_0@ == m,
                }
            }),
        decreases self.tokens@.len() - self.current_index, 1int, 1int,
    {
        proof {
            reveal_strlit("-");
            reveal_strlit("~");
            reveal_strlit("!");
            reveal_strlit("int");
            reveal_strlit("float");
        }
        if self.current_index >= self.tokens.len() {
            return Err("Unexpected token".to_owned());
        }
        let un: Option<u8> = match &self.tokens[self.current_index].token_type {
            TokenType::BinaryOp(s) => if str_eq(s.as_str(), "-") {
                Some(0)
            } else {
                None
            },
            TokenType::UnaryOp(s) => if str_eq(s.as_str(), "~") {
                Some(1)
            } else if str_eq(s.as_str(), "!") {
                Some(2)
            } else {
                None
            },
            TokenType::Identifier => {
                let tx = &self.tokens[self.current_index].text;
                if str_eq(tx.as_str(), "int") {
                    Some(3)
                } else if str_eq(tx.as_str(), "float") {
                    Some(4)
                } else {
                    None
                }
            },
            _ => None,
        };
        match un {
            Some(k) => {
                self.advance();
                let inner = match self.unary(fl) {
                    Ok(v) => v,
                    Err(m) => {
                        return Err(m);
                    },
                };
                Ok(
                    if k == 0 {
                        Expression::Negate(Box::new(inner))
                    } else if k == 1 {
                        Expression::BNot(Box::new(inner))
                    } else if k == 2 {
                        Expression::LNot(Box::new(inner))
                    } else if k == 3 {
                        Expression::FTI(Box::new(inner))
                    } else {
                        Expression::ITF(Box::new(inner))
                    },
                )
            },
            None => self.primary(fl),
        }
    }

    /// The primaries; see [`parse_primary`].
    fn primary<F: FloatOps>(&mut self, fl: &F) -> (r: Result<Expression, String>)
        requires
            old(self).wf(),
        ensures
            final(self).wf(),
            final(self).toks() == old(self).toks(),
            final(self).pos() >= old(self).pos(),
            ({
                let (sr, sp) = parse_primary(old(self).toks(), old(self).pos());
                &&& sp == final(self).pos()
                &&& match sr {
                    Ok(sv) => r is Ok && scrub(view_of(r->Ok_0)) == sv,
                    Err(m) => r is Err && r->Err_0@ == m,
                }
            }),
        decreases self.tokens@.len() - self.current_index, 0int, 1int,
    {
        proof {
            reveal_strlit("true");
        }
        if self.current_index >= self.tokens.len() {
            return Err("Unexpected token".to_owned());
        }
        match &self.tokens[self.current_index].token_type {
            TokenType::IntegerLiteral => {
                let text = self.tokens[self.current_index].text.clone();
                match parse_i64(text.as_str()) {
                    Some(v) => {
                        self.advance();
                        Ok(Expression::Integer(v))
                    },
                    None => Err("Integer literal out of range".to_owned()),
                }
            },
            TokenType::FloatLiteral => {
                let text = self.tokens[self.current_index].text.clone();
                let bits = fl.from_text(text.as_str());
                self.advance();
                Ok(Expression::Float(bits))
            },
            TokenType::BooleanLiteral => {
                let text = self.tokens[self.current_index].text.clone();
                self.advance();
                Ok(Expression::Boolean(str_eq(text.as_str(), "true")))
            },
            TokenType::StringLiteral => {
                let text = self.tokens[self.current_index].text.clone();
                self.advance();
                Ok(Expression::String(text))
            },
            TokenType::ParenOpen => {
                self.advance();
                let inner = match self.level(10, fl) {
                    Ok(v) => v,
                    Err(m) => {
                        return Err(m);
                    },
                };
                if self.current_index < self.tokens.len() && matches!(
                    &self.tokens[self.current_index].token_type,
                    TokenType::ParenClose,
                ) {
                    self.advance();
                    Ok(inner)
                } else {
                    Err("Expected closing parenthesis".to_owned())
                }
            },
            _ => Err("Unexpected token".to_owned()),
        }
    }

    /// The level's operator under the cursor, if any; see [`level_op`].
    fn peek_op(&self, lv: u8) -> (r: Option<BinOp>)
        requires
            self.wf(),
            2 <= lv <= 10,
        ensures
            r == if self.pos() < self.toks().len() {
                level_op(lv as int, self.toks()[self.pos()].token_type)
            } else {
                None::<BinOp>
            },
    {
        proof {
            reveal_strlit("||");
            reveal_strlit("&&");
            reveal_strlit("|");
            reveal_strlit("^");
            reveal_strlit("&");
            reveal_strlit("<<");
            reveal_strlit(">>");
            reveal_strlit("+");
            reveal_strlit("-");
            reveal_strlit("*");
            reveal_strlit("/");
            reveal_strlit("%");
        }
        if self.current_index >= self.tokens.len() {
            return None;
        }
        match &self.tokens[self.current_index].token_type {
            TokenType::BinaryOp(s) => {
                let st = s.as_str();
                if lv == 10 && str_eq(st, "||") {
                    Some(BinOp::Logic(false))
                } else if lv == 9 && str_eq(st, "&&") {
                    Some(BinOp::Logic(true))
                } else if lv == 8 && str_eq(st, "|") {
                    Some(BinOp::Bit(BitOp::Or))
                } else if lv == 7 && str_eq(st, "^") {
                    Some(BinOp::Bit(BitOp::Xor))
                } else if lv == 6 && str_eq(st, "&") {
                    Some(BinOp::Bit(BitOp::And))
                } else if lv == 5 && str_eq(st, "<<") {
                    Some(BinOp::Shift(ShiftOp::Left))
                } else if lv == 5 && str_eq(st, ">>") {
                    Some(BinOp::Shift(ShiftOp::Right))
                } else if lv == 4 && str_eq(st, "+") {
                    Some(BinOp::Arith(ArithOp::Add))
                } else if lv == 4 && str_eq(st, "-") {
                    Some(BinOp::Arith(ArithOp::Sub))
                } else if lv == 3 && str_eq(st, "*") {
                    Some(BinOp::Arith(ArithOp::Mul))
                } else if lv == 3 && str_eq(st, "/") {
                    Some(BinOp::Div)
                } else if lv == 3 && str_eq(st, "%") {
                    Some(BinOp::Mod)
                } else if lv == 2 && str_eq(st, "^") {
                    Some(BinOp::Exp)
                } else {
                    None
                }
            },
            _ => None,
        }
    }

    /// Steps past one token; at the end of the stream it does nothing.
    fn advance(&mut self)
        requires
            old(self).wf(),
        ensures
            final(self).wf(),
            final(self).toks() == old(self).toks(),
            old(self).pos() < old(self).toks().len() ==> final(self).pos() == old(self).pos() + 1,
            old(self).pos() >= old(self).toks().len() ==> final(self).pos() == old(self).pos(),
    {
        if self.current_index < self.tokens.len() {
            self.current_index = self.current_index + 1;
        }
    }
}

} // verus!
