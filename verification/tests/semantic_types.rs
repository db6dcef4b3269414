use compilador::error::CompilerError;
use compilador::instructions::Register;
use compilador::semantics::{
    check_argument, check_arity, ArgumentMismatch, DefSymbol, IntValue, Parameter, SymbolClass,
    SymbolType,
};
use compilador::text::{SourceText, Span};

fn here() -> SourceText {
    SourceText::new("x".to_string())
}

fn at() -> Span {
    Span::new(0, 1)
}

fn symbol(type_value: SymbolType, size: Option<u32>) -> DefSymbol {
    DefSymbol::new(
        "x".to_string(),
        Span::new(0, 1),
        1,
        1,
        type_value,
        SymbolClass::default_var(),
        size,
        Register::Rfp,
        0,
    )
}

#[test]
fn type_names() {
    assert_eq!(SymbolType::Int(IntValue::Undefined).to_str(), "int");
    assert_eq!(SymbolType::Float(None).to_str(), "float");
    assert_eq!(SymbolType::Char(None).to_str(), "char");
    assert_eq!(SymbolType::Bool(None).to_str(), "bool");
    assert_eq!(SymbolType::String(None).to_str(), "string");
}

#[test]
fn declared_types() {
    assert!(matches!(SymbolType::from_str("int"), Ok(SymbolType::Int(IntValue::Undefined))));
    assert!(matches!(SymbolType::from_str("float"), Ok(SymbolType::Float(None))));
    assert!(matches!(SymbolType::from_str("bool"), Ok(SymbolType::Bool(None))));
    assert!(matches!(SymbolType::from_str("char"), Ok(SymbolType::Char(None))));
    assert!(matches!(SymbolType::from_str("string"), Ok(SymbolType::String(None))));
    match SymbolType::from_str("double") {
        Err(CompilerError::LexicalError(m)) => assert_eq!(m, "invalid type declaration: double"),
        other => panic!("{:?}", other),
    }
}

#[test]
fn conversions_of_known_values() {
    assert_eq!(SymbolType::Int(IntValue::Literal(0)).to_bool(at(), &here()).unwrap(), Some(false));
    assert_eq!(SymbolType::Int(IntValue::Literal(-3)).to_bool(at(), &here()).unwrap(), Some(true));
    assert_eq!(SymbolType::Float(Some(0.0f64.to_bits())).to_bool(at(), &here()).unwrap(), Some(false));
    assert_eq!(SymbolType::Int(IntValue::Temp(Register::R(1))).to_bool(at(), &here()).unwrap(), None);
    assert!(matches!(SymbolType::Bool(Some(true)).to_int(at(), &here()), Ok(IntValue::Literal(1))));
    assert!(matches!(SymbolType::Float(Some((-2.75f64).to_bits())).to_int(at(), &here()), Ok(IntValue::Literal(-2))));
    assert!(matches!(SymbolType::Float(Some(1e300f64.to_bits())).to_int(at(), &here()), Ok(IntValue::Literal(i32::MAX))));
    assert!(matches!(SymbolType::Float(Some(f64::NAN.to_bits())).to_int(at(), &here()), Ok(IntValue::Literal(0))));
    assert!(matches!(
        SymbolType::Int(IntValue::Memory(Register::Rbss, 8)).to_int(at(), &here()),
        Ok(IntValue::Memory(Register::Rbss, 8))
    ));
    assert_eq!(SymbolType::Int(IntValue::Literal(-7)).to_float(at(), &here()).unwrap(), Some((-7.0f64).to_bits()));
    assert_eq!(SymbolType::Bool(Some(true)).to_float(at(), &here()).unwrap(), Some(1.0f64.to_bits()));
    assert_eq!(SymbolType::Bool(None).to_float(at(), &here()).unwrap(), None);
}

#[test]
fn characters_and_strings_do_not_convert() {
    match SymbolType::Char(None).to_bool(at(), &here()) {
        Err(CompilerError::SemanticErrorCharToX { invalid_type, line, col, highlight }) => {
            assert_eq!(invalid_type, "boolean");
            assert_eq!((line, col, highlight.as_str()), (1, 1, "x\n^"));
        },
        other => panic!("{:?}", other),
    }
    match SymbolType::String(None).to_int(at(), &here()) {
        Err(CompilerError::SemanticErrorStringToX { invalid_type, line, col, highlight }) => {
            assert_eq!(invalid_type, "int");
            assert_eq!((line, col, highlight.as_str()), (1, 1, "x\n^"));
        },
        other => panic!("{:?}", other),
    }
    match SymbolType::Char(Some(b'a')).to_float(at(), &here()) {
        Err(CompilerError::SemanticErrorCharToX { invalid_type, line, col, highlight }) => {
            assert_eq!(invalid_type, "float");
            assert_eq!((line, col, highlight.as_str()), (1, 1, "x\n^"));
        },
        other => panic!("{:?}", other),
    }
}

#[test]
fn association_widens_numbers() {
    let i = || SymbolType::Int(IntValue::Undefined);
    let f = || SymbolType::Float(None);
    let b = || SymbolType::Bool(None);
    assert!(matches!(b().associate_with(&b(), at(), &here()), Ok(SymbolType::Bool(None))));
    assert!(matches!(b().associate_with(&i(), at(), &here()), Ok(SymbolType::Int(IntValue::Undefined))));
    assert!(matches!(i().associate_with(&b(), at(), &here()), Ok(SymbolType::Int(IntValue::Undefined))));
    assert!(matches!(i().associate_with(&f(), at(), &here()), Ok(SymbolType::Float(None))));
    assert!(matches!(f().associate_with(&b(), at(), &here()), Ok(SymbolType::Float(None))));
    assert!(matches!(
        SymbolType::String(None).associate_with(&SymbolType::String(None), at(), &here()),
        Ok(SymbolType::String(None))
    ));
    assert!(matches!(
        SymbolType::Char(None).associate_with(&SymbolType::Char(None), at(), &here()),
        Ok(SymbolType::Char(None))
    ));
}

#[test]
fn association_errors_name_the_left_operand_first() {
    match SymbolType::String(None).associate_with(&SymbolType::Char(None), at(), &here()) {
        Err(CompilerError::SemanticErrorStringToX { invalid_type, line, col, highlight }) => {
            assert_eq!(invalid_type, "int or float");
            assert_eq!((line, col, highlight.as_str()), (1, 1, "x\n^"));
        },
        other => panic!("{:?}", other),
    }
    match SymbolType::Char(None).associate_with(&SymbolType::String(None), at(), &here()) {
        Err(CompilerError::SemanticErrorCharToX { invalid_type, line, col, highlight }) => {
            assert_eq!(invalid_type, "int or float");
            assert_eq!((line, col, highlight.as_str()), (1, 1, "x\n^"));
        },
        other => panic!("{:?}", other),
    }
    match SymbolType::Int(IntValue::Undefined).associate_with(&SymbolType::Char(None), at(), &here()) {
        Err(e) => assert_eq!(e.error_code(), 32),
        other => panic!("{:?}", other),
    }
}

#[test]
fn sizes_of_types() {
    assert_eq!(SymbolType::Char(None).get_symbol_type_size(), 1);
    assert_eq!(SymbolType::Bool(None).get_symbol_type_size(), 1);
    assert_eq!(SymbolType::Int(IntValue::Undefined).get_symbol_type_size(), 4);
    assert_eq!(SymbolType::Float(None).get_symbol_type_size(), 8);
    assert_eq!(SymbolType::String(None).get_symbol_type_size(), 0);
    assert_eq!(SymbolType::String(Some("héllo".to_string())).get_symbol_type_size(), 6);
}

#[test]
fn same_kind_types_compare_equal() {
    assert!(SymbolType::Int(IntValue::Literal(1)) == SymbolType::Int(IntValue::Undefined));
    assert!(SymbolType::Float(None) != SymbolType::Int(IntValue::Undefined));
    assert!(SymbolClass::default_var() == SymbolClass::Var { is_global: true, offset: 12 });
    assert!(SymbolClass::default_vec() != SymbolClass::Lit);
}

#[test]
fn class_names() {
    assert_eq!(SymbolClass::Fn(vec![]).to_str(), "function");
    assert_eq!(SymbolClass::default_var().to_str(), "variable");
    assert_eq!(SymbolClass::default_vec().to_str(), "vector");
    assert_eq!(SymbolClass::Lit.to_str(), "literal");
}

#[test]
fn assignment_converts_numbers_to_the_symbol_type() {
    let s = symbol(SymbolType::Int(IntValue::Undefined), Some(4));
    let after = s.cast_or_scream(&SymbolType::Float(Some(3.9f64.to_bits())), at(), &here(), false).unwrap();
    assert!(matches!(after.type_value, SymbolType::Int(IntValue::Literal(3))));
    assert_eq!(after.size, Some(4));
    let s = symbol(SymbolType::Float(None), Some(8));
    let after = s.cast_or_scream(&SymbolType::Int(IntValue::Literal(2)), at(), &here(), false).unwrap();
    assert!(matches!(after.type_value, SymbolType::Float(Some(b)) if b == 2.0f64.to_bits()));
    let s = symbol(SymbolType::Bool(None), Some(1));
    let after = s.cast_or_scream(&SymbolType::Int(IntValue::Literal(2)), at(), &here(), false).unwrap();
    assert!(matches!(after.type_value, SymbolType::Bool(Some(true))));
}

#[test]
fn assignment_of_strings() {
    let s = symbol(SymbolType::String(None), Some(5));
    let after = s.cast_or_scream(&SymbolType::String(Some("abc".to_string())), at(), &here(), true).unwrap();
    assert_eq!(after.size, Some(5));
    let after = s.cast_or_scream(&SymbolType::String(Some("abc".to_string())), at(), &here(), false).unwrap();
    assert_eq!(after.size, Some(3));
    match s.cast_or_scream(&SymbolType::String(Some("too long".to_string())), at(), &here(), true) {
        Err(CompilerError::SemanticErrorStringMax { highlight, line, col, variable_size, string_size }) => {
            assert_eq!((variable_size, string_size), (5, 8));
            assert_eq!((line, col, highlight.as_str()), (1, 1, "x\n^"));
        }
        other => panic!("{:?}", other),
    }
    match s.cast_or_scream(&SymbolType::Int(IntValue::Undefined), at(), &here(), true) {
        Err(CompilerError::SemanticErrorWrongType { valid_type, received_type, highlight, line, col }) => {
            assert_eq!((valid_type.as_str(), received_type.as_str()), ("string", "int"));
            assert_eq!((line, col, highlight.as_str()), (1, 1, "x\n^"));
        }
        other => panic!("{:?}", other),
    }
}

#[test]
fn assignment_errors() {
    let c = symbol(SymbolType::Char(None), Some(1));
    match c.cast_or_scream(&SymbolType::Bool(None), at(), &here(), false) {
        Err(e @ CompilerError::SemanticErrorWrongType { .. }) => {
            assert_eq!(e.error_code(), 30);
            match e {
                CompilerError::SemanticErrorWrongType { valid_type, received_type, .. } => {
                    assert_eq!((valid_type.as_str(), received_type.as_str()), ("char", "bool"))
                }
                _ => unreachable!(),
            }
        }
        other => panic!("{:?}", other),
    }
    assert!(c.cast_or_scream(&SymbolType::Char(Some(b'k')), at(), &here(), false).is_ok());
    let i = symbol(SymbolType::Int(IntValue::Undefined), Some(4));
    match i.cast_or_scream(&SymbolType::Char(Some(b'k')), at(), &here(), false) {
        Err(CompilerError::SemanticErrorCharToX { invalid_type, line, col, highlight }) => {
            assert_eq!(invalid_type, "int");
            assert_eq!((line, col, highlight.as_str()), (1, 1, "x\n^"));
        },
        other => panic!("{:?}", other),
    }
    let f = symbol(SymbolType::Float(None), Some(8));
    match f.cast_or_scream(&SymbolType::String(None), at(), &here(), false) {
        Err(CompilerError::SemanticErrorStringToX { invalid_type, line, col, highlight }) => {
            assert_eq!(invalid_type, "float");
            assert_eq!((line, col, highlight.as_str()), (1, 1, "x\n^"));
        },
        other => panic!("{:?}", other),
    }
}

#[test]
fn call_arity() {
    assert_eq!(check_arity(2, 2), Ok(()));
    assert_eq!(check_arity(1, 2), Err(ArgumentMismatch::Missing));
    assert_eq!(check_arity(3, 2), Err(ArgumentMismatch::Excess));
}

#[test]
fn call_arguments() {
    let i = SymbolType::Int(IntValue::Undefined);
    let f = SymbolType::Float(None);
    let c = SymbolType::Char(None);
    let s = SymbolType::String(None);
    assert_eq!(check_argument(&i, &f), Ok(()));
    assert_eq!(check_argument(&c, &c), Ok(()));
    assert_eq!(check_argument(&c, &i), Err(ArgumentMismatch::WrongType));
    assert_eq!(check_argument(&f, &c), Err(ArgumentMismatch::WrongType));
    assert_eq!(check_argument(&s, &s), Err(ArgumentMismatch::StringArgument));
    assert_eq!(check_argument(&i, &s), Err(ArgumentMismatch::StringParameter));
}

#[test]
fn parameter_types() {
    let source = SourceText::new("int f(float a, char b)".to_string());
    let a = Parameter { is_const: false, param_type: Span::new(6, 11), node_id: Span::new(12, 13) };
    assert!(matches!(a.get_symbol_type(&source), Ok(SymbolType::Float(None))));
    let bad = Parameter { is_const: true, param_type: Span::new(4, 5), node_id: Span::new(4, 5) };
    match bad.get_symbol_type(&source) {
        Err(CompilerError::LexicalError(m)) => assert_eq!(m, "invalid type declaration: f"),
        other => panic!("{:?}", other),
    }
}

#[test]
fn association_does_not_depend_on_order() {
    let kinds = || {
        vec![
            SymbolType::Int(IntValue::Undefined),
            SymbolType::Float(None),
            SymbolType::Bool(None),
            SymbolType::Char(None),
            SymbolType::String(None),
        ]
    };
    for a in kinds() {
        for b in kinds() {
            match (a.associate_with(&b, at(), &here()), b.associate_with(&a, at(), &here())) {
                (Ok(x), Ok(y)) => assert_eq!(x.to_str(), y.to_str()),
                (Err(_), Err(_)) => {}
                other => panic!("{:?} {:?}: {:?}", a, b, other),
            }
        }
    }
}
