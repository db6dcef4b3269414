use compilador::error::CompilerError;
use compilador::folding::{binary_evaluation, binary_folding_overflows, unary_evaluation, BinaryType, Folded, UnaryType};
use compilador::semantics::{IntValue, SymbolType};
use compilador::text::{SourceText, Span};

fn here() -> SourceText {
    SourceText::new("x".to_string())
}

fn at() -> Span {
    Span::new(0, 1)
}

fn lit(v: i32) -> SymbolType {
    SymbolType::Int(IntValue::Literal(v))
}

fn float(v: f64) -> SymbolType {
    SymbolType::Float(Some(v.to_bits()))
}

fn string(s: &str) -> SymbolType {
    SymbolType::String(Some(s.to_string()))
}

fn known_int(r: Result<Folded, CompilerError>) -> i32 {
    match r {
        Ok(Folded::Known(SymbolType::Int(IntValue::Literal(v)))) => v,
        other => panic!("expected a known integer, got {:?}", other),
    }
}

fn known_bool(r: Result<Folded, CompilerError>) -> Option<bool> {
    match r {
        Ok(Folded::Known(SymbolType::Bool(v))) => v,
        other => panic!("expected a truth value, got {:?}", other),
    }
}

#[test]
fn integer_arithmetic_folds() {
    assert_eq!(known_int(binary_evaluation(BinaryType::Add, lit(2), lit(3), at(), &here())), 5);
    assert_eq!(known_int(binary_evaluation(BinaryType::Sub, lit(2), lit(3), at(), &here())), -1);
    assert_eq!(known_int(binary_evaluation(BinaryType::Mult, lit(-4), lit(3), at(), &here())), -12);
    assert_eq!(known_int(binary_evaluation(BinaryType::Div, lit(-7), lit(2), at(), &here())), -3);
    assert_eq!(known_int(binary_evaluation(BinaryType::Mod, lit(-7), lit(2), at(), &here())), -1);
    assert_eq!(known_int(binary_evaluation(BinaryType::Mod, lit(7), lit(-2), at(), &here())), 1);
}

#[test]
fn integer_division_by_zero_folds_to_zero() {
    assert_eq!(known_int(binary_evaluation(BinaryType::Div, lit(9), lit(0), at(), &here())), 0);
    assert_eq!(known_int(binary_evaluation(BinaryType::Mod, lit(9), lit(0), at(), &here())), 0);
}

#[test]
fn truth_values_take_part_as_integers() {
    let r = binary_evaluation(BinaryType::Add, SymbolType::Bool(Some(true)), SymbolType::Bool(Some(true)), at(), &here());
    assert_eq!(known_int(r), 2);
    let r = binary_evaluation(BinaryType::Mult, SymbolType::Bool(Some(true)), lit(7), at(), &here());
    assert_eq!(known_int(r), 7);
}

#[test]
fn comparisons_fold_to_truth_values() {
    assert_eq!(known_bool(binary_evaluation(BinaryType::Lesser, lit(1), lit(2), at(), &here())), Some(true));
    assert_eq!(known_bool(binary_evaluation(BinaryType::Greater, lit(1), lit(2), at(), &here())), Some(false));
    assert_eq!(known_bool(binary_evaluation(BinaryType::LesserEqual, lit(2), lit(2), at(), &here())), Some(true));
    assert_eq!(known_bool(binary_evaluation(BinaryType::GreaterEqual, lit(1), lit(2), at(), &here())), Some(false));
    assert_eq!(known_bool(binary_evaluation(BinaryType::Equal, lit(3), lit(3), at(), &here())), Some(true));
    assert_eq!(known_bool(binary_evaluation(BinaryType::NotEqual, lit(3), lit(3), at(), &here())), Some(false));
}

#[test]
fn unknown_operands_give_unknown_values() {
    let unknown = SymbolType::Int(IntValue::Undefined);
    match binary_evaluation(BinaryType::Add, unknown, lit(1), at(), &here()) {
        Ok(Folded::Known(SymbolType::Int(IntValue::Undefined))) => {}
        other => panic!("{:?}", other),
    }
    let unknown = SymbolType::Int(IntValue::Undefined);
    assert_eq!(known_bool(binary_evaluation(BinaryType::Equal, unknown, lit(1), at(), &here())), None);
    match binary_evaluation(BinaryType::Mult, SymbolType::Float(None), lit(1), at(), &here()) {
        Ok(Folded::Known(SymbolType::Float(None))) => {}
        other => panic!("{:?}", other),
    }
}

#[test]
fn logical_operators() {
    let t = || SymbolType::Bool(Some(true));
    let f = || SymbolType::Bool(Some(false));
    assert_eq!(known_bool(binary_evaluation(BinaryType::BoolOr, t(), f(), at(), &here())), Some(true));
    assert_eq!(known_bool(binary_evaluation(BinaryType::BoolAnd, t(), f(), at(), &here())), Some(false));
    assert_eq!(known_bool(binary_evaluation(BinaryType::BoolAnd, lit(2), float(0.5), at(), &here())), Some(true));
    assert_eq!(known_bool(binary_evaluation(BinaryType::BoolOr, SymbolType::Bool(None), t(), at(), &here())), None);
    match binary_evaluation(BinaryType::BoolOr, SymbolType::Char(Some(b'a')), t(), at(), &here()) {
        Err(CompilerError::SemanticErrorCharToX { invalid_type, line, col, highlight }) => {
            assert_eq!(invalid_type, "boolean");
            assert_eq!((line, col), (1, 1));
            assert_eq!(highlight, "x\n^");
        },
        other => panic!("{:?}", other),
    }
}

#[test]
fn bitwise_operators() {
    assert_eq!(known_int(binary_evaluation(BinaryType::BitOr, lit(0b1010), lit(0b0101), at(), &here())), 0b1111);
    assert_eq!(known_int(binary_evaluation(BinaryType::BitXor, lit(0b1110), lit(0b0101), at(), &here())), 0b1011);
    assert_eq!(known_int(binary_evaluation(BinaryType::BitAnd, lit(0b1110), lit(0b0101), at(), &here())), 0b0100);
    assert_eq!(known_int(binary_evaluation(BinaryType::BitOr, SymbolType::Bool(Some(true)), lit(2), at(), &here())), 3);
    // An unknown operand folds to a truth value of unknown value.
    assert_eq!(known_bool(binary_evaluation(BinaryType::BitAnd, SymbolType::Int(IntValue::Undefined), lit(2), at(), &here())), None);
    match binary_evaluation(BinaryType::BitAnd, lit(1), string("x"), at(), &here()) {
        Err(CompilerError::SemanticErrorStringToX { invalid_type, line, col, highlight }) => {
            assert_eq!(invalid_type, "int");
            assert_eq!((line, col), (1, 1));
            assert_eq!(highlight, "x\n^");
        },
        other => panic!("{:?}", other),
    }
}

#[test]
fn strings_can_only_be_added() {
    match binary_evaluation(BinaryType::Add, string("ab"), string("cd"), at(), &here()) {
        Ok(Folded::Known(SymbolType::String(Some(s)))) => assert_eq!(s, "abcd"),
        other => panic!("{:?}", other),
    }
    match binary_evaluation(BinaryType::Add, string("ab"), SymbolType::String(None), at(), &here()) {
        Ok(Folded::Known(SymbolType::String(Some(s)))) => assert_eq!(s, "ab"),
        other => panic!("{:?}", other),
    }
    match binary_evaluation(BinaryType::Add, SymbolType::String(None), SymbolType::String(None), at(), &here()) {
        Ok(Folded::Known(SymbolType::String(None))) => {}
        other => panic!("{:?}", other),
    }
    match binary_evaluation(BinaryType::Sub, string("ab"), string("cd"), at(), &here()) {
        Err(CompilerError::SemanticErrorStringToX { invalid_type, line, col, highlight }) => {
            assert_eq!(invalid_type, "int or float");
            assert_eq!((line, col), (1, 1));
            assert_eq!(highlight, "x\n^");
        },
        other => panic!("{:?}", other),
    }
    match binary_evaluation(BinaryType::Add, string("ab"), lit(1), at(), &here()) {
        Err(CompilerError::SemanticErrorStringToX { invalid_type, line, col, highlight }) => {
            assert_eq!(invalid_type, "int or float");
            assert_eq!((line, col), (1, 1));
            assert_eq!(highlight, "x\n^");
        },
        other => panic!("{:?}", other),
    }
}

#[test]
fn characters_take_part_in_no_operation() {
    let c = || SymbolType::Char(Some(b'z'));
    match binary_evaluation(BinaryType::Add, c(), c(), at(), &here()) {
        Err(CompilerError::SemanticErrorCharToX { invalid_type, line, col, highlight }) => {
            assert_eq!(invalid_type, "int or float");
            assert_eq!((line, col), (1, 1));
            assert_eq!(highlight, "x\n^");
        },
        other => panic!("{:?}", other),
    }
    match binary_evaluation(BinaryType::Equal, lit(1), c(), at(), &here()) {
        Err(e) => assert_eq!(e.error_code(), 32),
        other => panic!("{:?}", other),
    }
}

#[test]
fn doubles_are_handed_over_for_floating_point_arithmetic() {
    match binary_evaluation(BinaryType::Add, float(1.5), lit(2), at(), &here()) {
        Ok(Folded::FloatOperation(BinaryType::Add, a, b)) => {
            assert_eq!(f64::from_bits(a), 1.5);
            assert_eq!(f64::from_bits(b), 2.0);
        }
        other => panic!("{:?}", other),
    }
    match binary_evaluation(BinaryType::Lesser, SymbolType::Bool(Some(true)), float(0.25), at(), &here()) {
        Ok(Folded::FloatOperation(BinaryType::Lesser, a, b)) => {
            assert_eq!(f64::from_bits(a), 1.0);
            assert_eq!(f64::from_bits(b), 0.25);
        }
        other => panic!("{:?}", other),
    }
}

#[test]
fn double_division_by_zero_folds_to_zero() {
    for zero in [0.0f64, -0.0f64] {
        match binary_evaluation(BinaryType::Div, float(3.0), float(zero), at(), &here()) {
            Ok(Folded::Known(SymbolType::Float(Some(bits)))) => assert_eq!(bits, 0),
            other => panic!("{:?}", other),
        }
        match binary_evaluation(BinaryType::Mod, float(3.0), float(zero), at(), &here()) {
            Ok(Folded::Known(SymbolType::Float(Some(bits)))) => assert_eq!(bits, 0),
            other => panic!("{:?}", other),
        }
    }
}

#[test]
fn unary_sign_operators() {
    match unary_evaluation(UnaryType::Positive, lit(5), at(), &here()) {
        Ok(SymbolType::Int(IntValue::Literal(5))) => {}
        other => panic!("{:?}", other),
    }
    // The sign of a number is left as it is.
    match unary_evaluation(UnaryType::Negative, lit(5), at(), &here()) {
        Ok(SymbolType::Int(IntValue::Literal(5))) => {}
        other => panic!("{:?}", other),
    }
    match unary_evaluation(UnaryType::Negative, SymbolType::Bool(Some(true)), at(), &here()) {
        Ok(SymbolType::Int(IntValue::Literal(-1))) => {}
        other => panic!("{:?}", other),
    }
    match unary_evaluation(UnaryType::Positive, SymbolType::Bool(Some(false)), at(), &here()) {
        Ok(SymbolType::Int(IntValue::Literal(0))) => {}
        other => panic!("{:?}", other),
    }
    match unary_evaluation(UnaryType::Negative, SymbolType::Char(None), at(), &here()) {
        Err(CompilerError::SemanticErrorCharToX { invalid_type, line, col, highlight }) => {
            assert_eq!(invalid_type, "int or float");
            assert_eq!((line, col), (1, 1));
            assert_eq!(highlight, "x\n^");
        },
        other => panic!("{:?}", other),
    }
    match unary_evaluation(UnaryType::Positive, string("s"), at(), &here()) {
        Err(CompilerError::SemanticErrorStringToX { invalid_type, line, col, highlight }) => {
            assert_eq!(invalid_type, "int or float");
            assert_eq!((line, col), (1, 1));
            assert_eq!(highlight, "x\n^");
        },
        other => panic!("{:?}", other),
    }
}

#[test]
fn unary_truth_operators() {
    match unary_evaluation(UnaryType::Not, lit(0), at(), &here()) {
        Ok(SymbolType::Bool(Some(true))) => {}
        other => panic!("{:?}", other),
    }
    match unary_evaluation(UnaryType::Not, float(2.0), at(), &here()) {
        Ok(SymbolType::Bool(Some(false))) => {}
        other => panic!("{:?}", other),
    }
    match unary_evaluation(UnaryType::Boolean, float(-0.0), at(), &here()) {
        Ok(SymbolType::Bool(Some(false))) => {}
        other => panic!("{:?}", other),
    }
    match unary_evaluation(UnaryType::Boolean, SymbolType::Int(IntValue::Undefined), at(), &here()) {
        Ok(SymbolType::Bool(None)) => {}
        other => panic!("{:?}", other),
    }
    match unary_evaluation(UnaryType::Not, string("s"), at(), &here()) {
        Err(CompilerError::SemanticErrorStringToX { invalid_type, line, col, highlight }) => {
            assert_eq!(invalid_type, "bool");
            assert_eq!((line, col), (1, 1));
            assert_eq!(highlight, "x\n^");
        },
        other => panic!("{:?}", other),
    }
    match unary_evaluation(UnaryType::Boolean, SymbolType::Char(Some(b'c')), at(), &here()) {
        Err(CompilerError::SemanticErrorCharToX { invalid_type, line, col, highlight }) => {
            assert_eq!(invalid_type, "bool");
            assert_eq!((line, col), (1, 1));
            assert_eq!(highlight, "x\n^");
        },
        other => panic!("{:?}", other),
    }
}

#[test]
fn double_negation_gives_the_truth_value() {
    for v in [lit(0), lit(3), float(0.0), float(1.5), SymbolType::Bool(Some(true))] {
        let once = unary_evaluation(UnaryType::Not, v.clone(), at(), &here()).unwrap();
        let twice = unary_evaluation(UnaryType::Not, once, at(), &here()).unwrap();
        let direct = unary_evaluation(UnaryType::Boolean, v, at(), &here()).unwrap();
        match (twice, direct) {
            (SymbolType::Bool(a), SymbolType::Bool(b)) => assert_eq!(a, b),
            other => panic!("{:?}", other),
        }
    }
}

#[test]
fn other_unary_operators() {
    match unary_evaluation(UnaryType::Hash, string("s"), at(), &here()) {
        Ok(SymbolType::Int(IntValue::Undefined)) => {}
        other => panic!("{:?}", other),
    }
    match unary_evaluation(UnaryType::Address, string("s"), at(), &here()) {
        Ok(SymbolType::String(Some(s))) => assert_eq!(s, "s"),
        other => panic!("{:?}", other),
    }
    match unary_evaluation(UnaryType::Pointer, SymbolType::Char(Some(b'q')), at(), &here()) {
        Ok(SymbolType::Char(Some(b'q'))) => {}
        other => panic!("{:?}", other),
    }
}

#[test]
fn overflowing_operations_are_told_apart() {
    assert!(binary_folding_overflows(BinaryType::Add, &lit(i32::MAX), &lit(1)));
    assert!(binary_folding_overflows(BinaryType::Sub, &lit(i32::MIN), &SymbolType::Bool(Some(true))));
    assert!(binary_folding_overflows(BinaryType::Mult, &lit(1 << 16), &lit(1 << 16)));
    assert!(binary_folding_overflows(BinaryType::Div, &lit(i32::MIN), &lit(-1)));
    assert!(binary_folding_overflows(BinaryType::Mod, &lit(i32::MIN), &lit(-1)));
    assert!(!binary_folding_overflows(BinaryType::Div, &lit(i32::MIN), &lit(0)));
    assert!(!binary_folding_overflows(BinaryType::Add, &lit(i32::MAX), &SymbolType::Int(IntValue::Undefined)));
    assert!(!binary_folding_overflows(BinaryType::Add, &float(1e308), &float(1e308)));
    assert!(!binary_folding_overflows(BinaryType::Lesser, &lit(i32::MAX), &lit(1)));
    assert_eq!(known_int(binary_evaluation(BinaryType::Add, lit(i32::MAX - 1), lit(1), at(), &here())), i32::MAX);
}
