//! Laws that tie the pipeline's stages together.

use vstd::prelude::*;

use crate::cell::CellV;
use crate::eval::eval_spec;
use crate::lexer::TokenTypeV;
use crate::lexer::TokenV;
use crate::lexer::is_digit;
use crate::lexer::is_space;
use crate::lexer::lex_from;
use crate::lexer::lex_spec;
use crate::lexer::scan_digits;
use crate::parser::digits_val;
use crate::parser::int_text_ok;
use crate::parser::level_op;
use crate::parser::parse_lvl;
use crate::parser::parse_primary;
use crate::parser::parse_spec;
use crate::parser::parse_unary;
use crate::tree::ExprV;

verus! {

/// Scanning an all-digit text runs to its end.
proof fn lemma_scan_all_digits(s: Seq<char>, i: int)
    requires
        0 <= i <= s.len(),
        forall|k: int| 0 <= k < s.len() ==> is_digit(#[trigger] s[k]),
    ensures
        scan_digits(s, i) == s.len(),
    decreases s.len() - i,
{
    if i < s.len() {
        lemma_scan_all_digits(s, i + 1);
    }
}

/// An all-digit text tokenizes to one integer literal and the end token.
proof fn lemma_lex_digits(s: Seq<char>)
    requires
        s.len() > 0,
        forall|k: int| 0 <= k < s.len() ==> is_digit(#[trigger] s[k]),
    ensures
        lex_spec(s) =~= seq![
            TokenV {
                token_type: TokenTypeV::IntegerLiteral,
                text: s,
                start: 0,
                end: s.len() as int,
            },
            TokenV {
                token_type: TokenTypeV::EOF,
                text: Seq::empty(),
                start: s.len() as int,
                end: s.len() as int,
            },
        ],
{
    assert(is_digit(s[0]));
    assert(!is_space(s[0]));
    lemma_scan_all_digits(s, 0);
    assert(s.subrange(0, s.len() as int) =~= s);
    assert(lex_from(s, s.len() as int) =~= seq![
        TokenV {
            token_type: TokenTypeV::EOF,
            text: Seq::empty(),
            start: s.len() as int,
            end: s.len() as int,
        },
    ]);
}

/// A stream of one in-range integer literal and one end token parses, at
/// every level, to that integer, stopping before the end token.
proof fn lemma_parse_single_int(lv: int, t: Seq<TokenV>)
    requires
        1 <= lv <= 10,
        t.len() == 2,
        t[0].token_type is IntegerLiteral,
        int_text_ok(t[0].text),
        t[1].token_type is EOF,
    ensures
        parse_lvl(lv, t, 0) == (
            Ok::<ExprV, Seq<char>>(ExprV::Integer(digits_val(t[0].text) as i64)),
            1int,
        ),
    decreases lv,
{
    crate::parser::lemma_digits_val_nonneg(t[0].text);
    let v = ExprV::Integer(digits_val(t[0].text) as i64);
    if lv == 1 {
        assert(parse_primary(t, 0) == (Ok::<ExprV, Seq<char>>(v), 1int));
        assert(parse_unary(t, 0) == parse_primary(t, 0));
        assert(parse_lvl(1, t, 0) == parse_unary(t, 0));
    } else {
        lemma_parse_single_int(lv - 1, t);
        assert(parse_lvl(lv - 1, t, 0) == (Ok::<ExprV, Seq<char>>(v), 1int));
        assert(level_op(lv, t[1].token_type) is None);
        assert(crate::parser::parse_rest(lv, t, 1, v) == (Ok::<ExprV, Seq<char>>(v), 1int));
        assert(parse_lvl(lv, t, 0) == crate::parser::parse_rest(lv, t, 1, v));
    }
}

/// For every integer literal within the 64-bit range, tokenizing, then
/// parsing, then evaluating yields exactly that integer, against any
/// grid.
pub proof fn lemma_integer_literal_round_trip(s: Seq<char>, g: Seq<Seq<CellV>>)
    requires
        s.len() > 0,
        forall|k: int| 0 <= k < s.len() ==> is_digit(#[trigger] s[k]),
        digits_val(s) <= i64::MAX,
    ensures
        parse_spec(lex_spec(s)) == Ok::<ExprV, Seq<char>>(
            ExprV::Integer(digits_val(s) as i64),
        ),
        eval_spec(ExprV::Integer(digits_val(s) as i64), g) == Some(
            Ok::<ExprV, Seq<char>>(ExprV::Integer(digits_val(s) as i64)),
        ),
{
    lemma_lex_digits(s);
    let t = lex_spec(s);
    assert(t[0].text == s);
    lemma_parse_single_int(10, t);
}

} // verus!
