use gridexpr::cell::CellValue;
use gridexpr::grid::Grid;
use gridexpr::lexer::Lexer;
use gridexpr::lexer::TokenType;
use gridexpr::tree::Expression;
use gridexpr::FloatOps;

struct Machine;

impl FloatOps for Machine {
    fn add(&self, a: u64, b: u64) -> u64 {
        (f64::from_bits(a) + f64::from_bits(b)).to_bits()
    }
    fn sub(&self, a: u64, b: u64) -> u64 {
        (f64::from_bits(a) - f64::from_bits(b)).to_bits()
    }
    fn mul(&self, a: u64, b: u64) -> u64 {
        (f64::from_bits(a) * f64::from_bits(b)).to_bits()
    }
    fn div(&self, a: u64, b: u64) -> u64 {
        (f64::from_bits(a) / f64::from_bits(b)).to_bits()
    }
    fn pow(&self, a: u64, b: u64) -> u64 {
        f64::from_bits(a).powf(f64::from_bits(b)).to_bits()
    }
    fn from_int(&self, i: i64) -> u64 {
        (i as f64).to_bits()
    }
    fn to_int(&self, b: u64) -> i64 {
        f64::from_bits(b) as i64
    }
    fn from_text(&self, s: &str) -> u64 {
        s.parse::<f64>().unwrap_or(0.0).to_bits()
    }
    fn to_text(&self, b: u64) -> String {
        format!("{}", f64::from_bits(b))
    }
}

fn num(i: i64) -> Expression {
    Expression::Integer(i)
}

fn fl(x: f64) -> Expression {
    Expression::Float(x.to_bits())
}

fn boolean(b: bool) -> Expression {
    Expression::Boolean(b)
}

fn eval(e: &Expression) -> Result<Expression, String> {
    let mut g = Grid::new();
    e.evaluate(&mut g, &Machine)
}

fn expect_num(e: &Expression, want: i64) {
    match eval(e) {
        Ok(Expression::Integer(v)) => assert_eq!(v, want),
        other => panic!("expected Integer({}), got {:?}", want, other),
    }
}

fn expect_float(e: &Expression, want: f64) {
    match eval(e) {
        Ok(Expression::Float(bits)) => assert_eq!(f64::from_bits(bits), want),
        other => panic!("expected Float({}), got {:?}", want, other),
    }
}

fn expect_bool(e: &Expression, want: bool) {
    match eval(e) {
        Ok(Expression::Boolean(v)) => assert_eq!(v, want),
        other => panic!("expected Boolean({}), got {:?}", want, other),
    }
}

fn expect_err(e: &Expression, want: &str) {
    match eval(e) {
        Err(m) => assert_eq!(m, want),
        other => panic!("expected error {:?}, got {:?}", want, other),
    }
}

fn bx(e: Expression) -> Box<Expression> {
    Box::new(e)
}

#[test]
fn integer_literal_round_trip() {
    let mut lx = Lexer::new("9223372036854775807");
    let toks = lx.tokenize();
    assert_eq!(toks.len(), 2);
    assert!(matches!(toks[0].token_type, TokenType::IntegerLiteral));
    assert_eq!(toks[0].text, "9223372036854775807");
    expect_num(&num(9223372036854775807), 9223372036854775807);
    expect_num(&num(0), 0);
    expect_num(&num(-17), -17);
}

#[test]
fn serialize_is_deterministic() {
    let e = Expression::Add(bx(fl(0.1)), bx(Expression::Negate(bx(num(3)))));
    let a = e.serialize(&Machine);
    let b = e.serialize(&Machine);
    assert_eq!(a, b);
    assert_eq!(a, "(0.1 + -3)");
}

#[test]
fn divide_by_zero_fails() {
    expect_err(
        &Expression::Divide(bx(num(5)), bx(num(0))),
        "Divide by zero error",
    );
    expect_err(
        &Expression::Divide(bx(fl(5.0)), bx(fl(0.0))),
        "Divide by zero error",
    );
    expect_err(
        &Expression::Divide(bx(fl(5.0)), bx(fl(-0.0))),
        "Divide by zero error",
    );
    expect_err(
        &Expression::Divide(bx(num(5)), bx(fl(0.0))),
        "Divide by zero error",
    );
    expect_err(
        &Expression::Divide(bx(fl(5.0)), bx(num(0))),
        "Divide by zero error",
    );
}

#[test]
fn add_type_mismatch_fails() {
    expect_err(
        &Expression::Add(bx(num(1)), bx(boolean(true))),
        "Incompatible types for addition",
    );
}

#[test]
fn mixed_addition_widens() {
    expect_float(&Expression::Add(bx(num(2)), bx(fl(3.5))), 5.5);
    expect_float(&Expression::Add(bx(fl(3.5)), bx(num(2))), 5.5);
    expect_float(&Expression::Add(bx(fl(1.25)), bx(fl(0.25))), 1.5);
    expect_num(&Expression::Add(bx(num(2)), bx(num(3))), 5);
}

#[test]
fn sum_fails_on_first_non_numeric() {
    expect_err(
        &Expression::Sum(vec![num(1), boolean(true), num(2)]),
        "Incompatible types in Sum",
    );
    // A failing operand wins before the fold sees anything.
    expect_err(
        &Expression::Sum(vec![num(1), Expression::Divide(bx(num(1)), bx(num(0)))]),
        "Divide by zero error",
    );
    expect_num(&Expression::Sum(vec![num(1), num(2), num(3)]), 6);
    expect_num(&Expression::Sum(vec![num(1), fl(2.9)]), 3);
}

#[test]
fn cell_round_trip() {
    let mut g = Grid::new();
    g.set_cell_value(1, 1, CellValue::Int(22));
    let read = Expression::CellRValue(bx(num(1)), bx(num(1)));
    match read.evaluate(&mut g, &Machine) {
        Ok(Expression::Integer(v)) => assert_eq!(v, 22),
        other => panic!("unexpected {:?}", other),
    }
    let empty = Expression::CellRValue(bx(num(2)), bx(num(3)));
    match empty.evaluate(&mut g, &Machine) {
        Ok(Expression::Integer(v)) => assert_eq!(v, 0),
        other => panic!("unexpected {:?}", other),
    }
}

#[test]
fn cell_out_of_range_names_coordinates() {
    expect_err(
        &Expression::CellRValue(bx(num(100)), bx(num(1))),
        "Cell at (100, 1) not found",
    );
    expect_err(
        &Expression::CellRValue(bx(num(-1)), bx(num(1))),
        "Cell at (-1, 1) not found",
    );
    expect_err(
        &Expression::CellRValue(bx(boolean(true)), bx(num(1))),
        "Column index must be an integer",
    );
    expect_err(
        &Expression::CellRValue(bx(num(1)), bx(fl(1.0))),
        "Row index must be an integer",
    );
}

#[test]
fn comparison_tokenization() {
    let mut lx = Lexer::new(">=");
    let toks = lx.tokenize();
    assert_eq!(toks.len(), 2);
    match &toks[0].token_type {
        TokenType::BinaryOp(s) => assert_eq!(s, ">="),
        other => panic!("unexpected {:?}", other),
    }
    let mut lx2 = Lexer::new(">>>");
    let toks2 = lx2.tokenize();
    assert_eq!(toks2.len(), 3);
    match &toks2[0].token_type {
        TokenType::BinaryOp(s) => assert_eq!(s, ">>"),
        other => panic!("unexpected {:?}", other),
    }
    match &toks2[1].token_type {
        TokenType::BinaryOp(s) => assert_eq!(s, ">"),
        other => panic!("unexpected {:?}", other),
    }
    assert!(matches!(toks2[2].token_type, TokenType::EOF));
}

#[test]
fn lexer_spans_and_kinds() {
    let mut lx = Lexer::new("5 + 10 * (2.5 + 2) >= \"hi\" #[1, 2] true x_1 @");
    let toks = lx.tokenize();
    let kinds: Vec<String> = toks.iter().map(|t| format!("{:?}", t.token_type)).collect();
    assert_eq!(
        kinds,
        vec![
            "IntegerLiteral",
            "BinaryOp(\"+\")",
            "IntegerLiteral",
            "BinaryOp(\"*\")",
            "ParenOpen",
            "FloatLiteral",
            "BinaryOp(\"+\")",
            "IntegerLiteral",
            "ParenClose",
            "BinaryOp(\">=\")",
            "StringLiteral",
            "CellReference",
            "BooleanLiteral",
            "Identifier",
            "Unknown",
            "EOF",
        ]
    );
    assert_eq!(toks[5].text, "2.5");
    assert_eq!(toks[10].text, "hi");
    assert_eq!(toks[11].text, "#[1, 2]");
    assert_eq!(toks[0].start_index, 0);
    assert_eq!(toks[0].end_index, 1);
    assert_eq!(toks[1].start_index, 2);
    assert_eq!(toks[1].end_index, 3);
}

#[test]
fn lexer_doubles_logical_operators() {
    let mut lx = Lexer::new("&& & || | == = != ! ~");
    let toks = lx.tokenize();
    let kinds: Vec<String> = toks.iter().map(|t| format!("{:?}", t.token_type)).collect();
    assert_eq!(
        kinds,
        vec![
            "BinaryOp(\"&&\")",
            "BinaryOp(\"&\")",
            "BinaryOp(\"||\")",
            "BinaryOp(\"|\")",
            "BinaryOp(\"==\")",
            "Eq",
            "BinaryOp(\"!=\")",
            "UnaryOp(\"!\")",
            "UnaryOp(\"~\")",
            "EOF",
        ]
    );
}

#[test]
fn unterminated_string_runs_to_end() {
    let mut lx = Lexer::new("\"abc");
    let toks = lx.tokenize();
    assert_eq!(toks.len(), 2);
    assert!(matches!(toks[0].token_type, TokenType::StringLiteral));
    assert_eq!(toks[0].text, "abc");
}

#[test]
fn serialize_canonical_form() {
    let expr = Expression::Add(
        bx(Expression::LeftShift(
            bx(num(2)),
            bx(Expression::Add(
                bx(num(5)),
                bx(Expression::Multiply(bx(num(3)), bx(num(2)))),
            )),
        )),
        bx(Expression::CellRValue(bx(num(100)), bx(num(1)))),
    );
    assert_eq!(
        expr.serialize(&Machine),
        "((2 << (5 + (3 * 2))) + (#[100, 1]))"
    );
    let agg = Expression::Mean(vec![num(1), num(2), num(3)]);
    assert_eq!(agg.serialize(&Machine), "avg(1, 2, 3)");
    assert_eq!(
        Expression::FTI(bx(num(3))).serialize(&Machine),
        "(int(3))"
    );
    assert_eq!(
        Expression::ITF(bx(fl(3.5))).serialize(&Machine),
        "(float(3.5))"
    );
    assert_eq!(num(i64::MIN).serialize(&Machine), "-9223372036854775808");
    assert_eq!(
        Expression::LNot(bx(boolean(false))).serialize(&Machine),
        "!false"
    );
    assert_eq!(
        Expression::BNot(bx(num(7))).serialize(&Machine),
        "(~7)"
    );
}

#[test]
fn integer_overflow_policy_fails() {
    expect_err(
        &Expression::Add(bx(num(i64::MAX)), bx(num(1))),
        "Integer overflow",
    );
    expect_err(
        &Expression::Divide(bx(num(i64::MIN)), bx(num(-1))),
        "Integer overflow",
    );
    expect_err(&Expression::Negate(bx(num(i64::MIN))), "Integer overflow");
    expect_err(
        &Expression::Sum(vec![num(i64::MAX), num(1)]),
        "Integer overflow",
    );
}

#[test]
fn modulo_rules() {
    expect_num(&Expression::Modulo(bx(num(7)), bx(num(3))), 1);
    expect_num(&Expression::Modulo(bx(num(-7)), bx(num(3))), -1);
    expect_err(
        &Expression::Modulo(bx(num(7)), bx(num(0))),
        "Modulo by zero error",
    );
    expect_err(
        &Expression::Modulo(bx(fl(7.0)), bx(fl(3.0))),
        "Modulo operation only valid on integers",
    );
}

#[test]
fn exponentiation_rules() {
    expect_num(&Expression::Exp(bx(num(2)), bx(num(10))), 1024);
    expect_num(&Expression::Exp(bx(num(-2)), bx(num(3))), -8);
    expect_num(&Expression::Exp(bx(num(1)), bx(num(4000000000))), 1);
    expect_err(
        &Expression::Exp(bx(num(2)), bx(num(64))),
        "Integer overflow",
    );
    expect_err(
        &Expression::Exp(bx(num(2)), bx(num(-1))),
        "Exponent out of range",
    );
    expect_float(&Expression::Exp(bx(fl(2.0)), bx(fl(0.5))), 2.0_f64.powf(0.5));
    expect_float(&Expression::Exp(bx(num(2)), bx(fl(2.0))), 4.0);
}

#[test]
fn shift_rules() {
    expect_num(&Expression::LeftShift(bx(num(2)), bx(num(11))), 4096);
    expect_num(&Expression::RightShift(bx(num(-8)), bx(num(1))), -4);
    expect_err(
        &Expression::LeftShift(bx(num(1)), bx(num(64))),
        "Shift amount out of range",
    );
    expect_err(
        &Expression::RightShift(bx(num(1)), bx(num(-1))),
        "Shift amount out of range",
    );
    expect_err(
        &Expression::LeftShift(bx(fl(1.0)), bx(num(1))),
        "Incompatible types for Left Shift",
    );
}

#[test]
fn bitwise_rules() {
    expect_num(&Expression::BAnd(bx(num(6)), bx(num(3))), 2);
    expect_num(&Expression::BOr(bx(num(6)), bx(num(3))), 7);
    expect_num(&Expression::Xor(bx(num(6)), bx(num(3))), 5);
    expect_num(&Expression::BNot(bx(num(5))), -6);
    expect_err(
        &Expression::BAnd(bx(boolean(true)), bx(num(1))),
        "Incompatible types for Bitwise AND",
    );
}

#[test]
fn logical_rules() {
    expect_bool(&Expression::LAnd(bx(boolean(true)), bx(boolean(false))), false);
    expect_bool(&Expression::LOr(bx(boolean(true)), bx(boolean(false))), true);
    expect_bool(&Expression::LNot(bx(boolean(true))), false);
    expect_err(
        &Expression::LAnd(bx(num(1)), bx(num(1))),
        "Logical AND only valid on boolean values",
    );
}

#[test]
fn comparison_rules() {
    expect_bool(&Expression::LessThan(bx(num(1)), bx(num(2))), true);
    expect_bool(&Expression::GreaterThanEq(bx(num(2)), bx(num(2))), true);
    expect_bool(&Expression::LessThan(bx(fl(1.5)), bx(fl(2.5))), true);
    expect_bool(&Expression::Equals(bx(fl(0.0)), bx(fl(-0.0))), true);
    expect_bool(&Expression::Equals(bx(fl(f64::NAN)), bx(fl(f64::NAN))), false);
    expect_bool(&Expression::NotEquals(bx(fl(f64::NAN)), bx(fl(f64::NAN))), true);
    expect_bool(
        &Expression::Equals(
            bx(Expression::String("a".to_string())),
            bx(Expression::String("a".to_string())),
        ),
        true,
    );
    expect_err(
        &Expression::LessThan(bx(num(1)), bx(fl(2.0))),
        "Incompatible types for less-than comparison",
    );
    expect_err(
        &Expression::Equals(bx(num(1)), bx(boolean(true))),
        "Incompatible types for equality comparison",
    );
}

#[test]
fn conversion_nodes_keep_their_inversion() {
    match eval(&Expression::FTI(bx(num(3)))) {
        Ok(Expression::Float(b)) => assert_eq!(f64::from_bits(b), 3.0),
        other => panic!("unexpected {:?}", other),
    }
    expect_num(&Expression::ITF(bx(fl(3.7))), 3);
    expect_num(&Expression::ITF(bx(fl(-3.7))), -3);
    expect_err(
        &Expression::FTI(bx(fl(3.0))),
        "FTI operation only valid on integers",
    );
    expect_err(
        &Expression::ITF(bx(num(3))),
        "ITF operation only valid on floats",
    );
}

#[test]
fn aggregates_fold() {
    expect_num(&Expression::Max(vec![num(1), num(7), num(3)]), 7);
    expect_num(&Expression::Min(vec![num(4), num(-2), num(9)]), -2);
    expect_float(&Expression::Max(vec![fl(1.5), fl(2.5), fl(0.5)]), 2.5);
    expect_float(&Expression::Mean(vec![num(1), num(2)]), 1.5);
    expect_err(
        &Expression::Max(vec![num(1), fl(2.0)]),
        "Incompatible types in Max",
    );
    expect_err(
        &Expression::Min(vec![boolean(true), num(1)]),
        "Incompatible types in Min",
    );
    expect_err(
        &Expression::Mean(vec![num(1), boolean(false)]),
        "Incompatible types in Mean",
    );
    expect_bool(&Expression::Max(vec![boolean(true)]), true);
}

#[test]
fn negate_rules() {
    expect_num(&Expression::Negate(bx(num(5))), -5);
    expect_float(&Expression::Negate(bx(fl(2.5))), -2.5);
    expect_err(
        &Expression::Negate(bx(boolean(true))),
        "Negate operation only valid on numeric types",
    );
}

#[test]
fn cell_lvalue_evaluates_to_itself() {
    let e = Expression::CellLValue(bx(num(1)), bx(num(2)));
    match eval(&e) {
        Ok(Expression::CellLValue(c, r)) => {
            assert!(matches!(*c, Expression::Integer(1)));
            assert!(matches!(*r, Expression::Integer(2)));
        },
        other => panic!("unexpected {:?}", other),
    }
    assert_eq!(e.serialize(&Machine), "([1, 2])");
}

#[test]
fn cell_and_grid_accessors() {
    let mut g = Grid::new();
    g.set_cell_value(0, 0, CellValue::Bool(true));
    g.set_cell_formula(0, 0, "1 + 1".to_string());
    let c = g.get_cell(0, 0).unwrap();
    assert!(matches!(c.get_value(), CellValue::Bool(true)));
    assert_eq!(c.get_formula().unwrap(), "1 + 1");
    assert!(g.get_cell(20, 0).is_none());
    assert!(g.get_cell(0, 20).is_none());
    assert_eq!(c.evaluate(&Machine), "true");
    let c2 = gridexpr::cell::Cell::new(CellValue::Int(-42));
    assert_eq!(c2.evaluate(&Machine), "-42");
    let c3 = gridexpr::cell::Cell::new(CellValue::Float(2.5f64.to_bits()));
    assert_eq!(c3.evaluate(&Machine), "2.5");
    let c4 = gridexpr::cell::Cell::new_empty();
    assert_eq!(c4.evaluate(&Machine), "0");
}

#[test]
fn string_literal_evaluates_to_itself() {
    let e = Expression::String("hello world".to_string());
    match eval(&e) {
        Ok(Expression::String(s)) => assert_eq!(s, "hello world"),
        other => panic!("unexpected {:?}", other),
    }
    assert_eq!(e.serialize(&Machine), "hello world");
}

fn parse_text(src: &str) -> Result<Expression, String> {
    let mut lx = Lexer::new(src);
    let toks = lx.tokenize();
    let mut p = gridexpr::parser::Parser::new(toks);
    p.parse(&Machine)
}

fn eval_text(src: &str) -> Result<Expression, String> {
    let e = parse_text(src)?;
    eval(&e)
}

#[test]
fn parser_precedence() {
    match eval_text("5 + 10 * 2") {
        Ok(Expression::Integer(v)) => assert_eq!(v, 25),
        other => panic!("unexpected {:?}", other),
    }
    match eval_text("(5 + 10) * 2") {
        Ok(Expression::Integer(v)) => assert_eq!(v, 30),
        other => panic!("unexpected {:?}", other),
    }
    match eval_text("2 << 5 + 3 * 2") {
        Ok(Expression::Integer(v)) => assert_eq!(v, 2 << 11),
        other => panic!("unexpected {:?}", other),
    }
    match eval_text("10 - 3 - 2") {
        Ok(Expression::Integer(v)) => assert_eq!(v, 5),
        other => panic!("unexpected {:?}", other),
    }
}

#[test]
fn parser_whole_pipeline() {
    match eval_text("5 + 10 * (2.5 + 2) * 1000") {
        Ok(Expression::Float(b)) => assert_eq!(f64::from_bits(b), 45005.0),
        other => panic!("unexpected {:?}", other),
    }
    match eval_text("true && false || true") {
        Ok(Expression::Boolean(v)) => assert!(v),
        other => panic!("unexpected {:?}", other),
    }
    match eval_text("-5 + 1") {
        Ok(Expression::Integer(v)) => assert_eq!(v, -4),
        other => panic!("unexpected {:?}", other),
    }
    match eval_text("~0") {
        Ok(Expression::Integer(v)) => assert_eq!(v, -1),
        other => panic!("unexpected {:?}", other),
    }
    match eval_text("!true") {
        Ok(Expression::Boolean(v)) => assert!(!v),
        other => panic!("unexpected {:?}", other),
    }
    match eval_text("int 3") {
        Ok(Expression::Float(b)) => assert_eq!(f64::from_bits(b), 3.0),
        other => panic!("unexpected {:?}", other),
    }
    match eval_text("float 3.9") {
        Ok(Expression::Integer(v)) => assert_eq!(v, 3),
        other => panic!("unexpected {:?}", other),
    }
    match eval_text("2 ^ 10") {
        Ok(Expression::Integer(v)) => assert_eq!(v, 1024),
        other => panic!("unexpected {:?}", other),
    }
    match eval_text("6 & 3 | 8") {
        Ok(Expression::Integer(v)) => assert_eq!(v, 10),
        other => panic!("unexpected {:?}", other),
    }
}

#[test]
fn parser_integer_literal_values() {
    for src in ["0", "7", "42", "9223372036854775807", "007"] {
        let want: i64 = src.parse().unwrap();
        match eval_text(src) {
            Ok(Expression::Integer(v)) => assert_eq!(v, want),
            other => panic!("unexpected {:?}", other),
        }
    }
}

fn expect_parse_err(src: &str, want: &str) {
    match parse_text(src) {
        Err(m) => assert_eq!(m, want),
        other => panic!("expected error {:?}, got {:?}", want, other),
    }
}

#[test]
fn parser_errors() {
    expect_parse_err("(1 + 2", "Expected closing parenthesis");
    expect_parse_err(")", "Unexpected token");
    expect_parse_err("", "Unexpected token");
    expect_parse_err("1 +", "Unexpected token");
    expect_parse_err("9223372036854775808", "Integer literal out of range");
}

#[test]
fn token_construction() {
    let t = gridexpr::lexer::Token::new(TokenType::Identifier, "abc".to_string(), 3, 6);
    assert!(matches!(t.token_type, TokenType::Identifier));
    assert_eq!(t.text, "abc");
    assert_eq!(t.start_index, 3);
    assert_eq!(t.end_index, 6);
}

#[test]
fn grid_mutable_access() {
    let mut g = Grid::new();
    if let Some(c) = g.get_mut_cell(4, 5) {
        c.set_value(CellValue::String("x".to_string()));
    }
    match g.get_cell(4, 5).unwrap().get_value() {
        CellValue::String(s) => assert_eq!(s, "x"),
        other => panic!("unexpected {:?}", other),
    }
    assert!(g.get_mut_cell(99, 0).is_none());
}

#[test]
fn duplicate_copies_deeply() {
    let e = Expression::Max(vec![
        Expression::Add(bx(num(1)), bx(fl(2.0))),
        Expression::String("s".to_string()),
    ]);
    let d = e.duplicate();
    assert_eq!(e.serialize(&Machine), d.serialize(&Machine));
}

#[test]
fn lexer_spans_count_characters() {
    let mut lx = Lexer::new("é + 1");
    let toks = lx.tokenize();
    assert!(matches!(toks[0].token_type, TokenType::Unknown));
    assert_eq!(toks[0].text, "é");
    assert_eq!((toks[1].start_index, toks[1].end_index), (2, 3));
    assert_eq!(toks[2].text, "1");
}

#[test]
fn unterminated_cell_reference_runs_to_end() {
    let mut lx = Lexer::new("#[1, 2");
    let toks = lx.tokenize();
    assert_eq!(toks.len(), 2);
    assert!(matches!(toks[0].token_type, TokenType::CellReference));
    assert_eq!(toks[0].text, "#[1, 2");
    let mut lx2 = Lexer::new("# 1");
    let toks2 = lx2.tokenize();
    assert!(matches!(toks2[0].token_type, TokenType::CellReference));
    assert_eq!(toks2[0].text, "#");
}
