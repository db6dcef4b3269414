use compilador::decimal::{nat_to_string, push_int, push_nat};
use compilador::error::CompilerError;
use compilador::floats::{f64_bits_from_i32, f64_to_i32_exec, f64_truth};
use compilador::text::{SourceText, Span};

#[test]
fn integers_become_the_doubles_that_as_gives() {
    let samples = [
        0, 1, -1, 2, 3, 7, 10, -10, 255, 256, 1023, 65535, -65536, 123456789, -987654321,
        i32::MAX, i32::MIN, i32::MIN + 1, i32::MAX - 1, 1 << 30, -(1 << 30),
    ];
    for v in samples {
        assert_eq!(f64_bits_from_i32(v), (v as f64).to_bits(), "value {}", v);
    }
}

#[test]
fn doubles_become_the_integers_that_as_gives() {
    let samples = [
        0.0f64, -0.0, 0.5, -0.5, 0.9999, 1.0, -1.0, 1.5, -1.5, 2.75, -2.75, 1e9, -1e9,
        2147483647.0, 2147483647.9, 2147483648.0, -2147483648.0, -2147483648.9, -2147483649.0,
        1e300, -1e300, f64::INFINITY, f64::NEG_INFINITY, f64::NAN, f64::MIN_POSITIVE, 4.9e-324,
        123456.789, -0.000001,
    ];
    for x in samples {
        assert_eq!(f64_to_i32_exec(x.to_bits()), x as i32, "value {}", x);
    }
}

#[test]
fn integers_survive_the_trip_through_a_double() {
    for v in [0, 5, -5, 1 << 20, i32::MAX, i32::MIN] {
        assert_eq!(f64_to_i32_exec(f64_bits_from_i32(v)), v);
    }
}

#[test]
fn truth_of_doubles() {
    assert!(!f64_truth(0.0f64.to_bits()));
    assert!(!f64_truth((-0.0f64).to_bits()));
    assert!(f64_truth(1e-300f64.to_bits()));
    assert!(f64_truth(f64::NAN.to_bits()));
    assert!(f64_truth((-3.0f64).to_bits()));
}

#[test]
fn decimal_texts() {
    assert_eq!(nat_to_string(0), "0");
    assert_eq!(nat_to_string(1024), "1024");
    assert_eq!(nat_to_string(u64::MAX), "18446744073709551615");
    let mut s = String::from("n=");
    push_nat(&mut s, 42);
    assert_eq!(s, "n=42");
    let mut s = String::new();
    push_int(&mut s, -17);
    assert_eq!(s, "-17");
    let mut s = String::new();
    push_int(&mut s, i64::MIN);
    assert_eq!(s, "-9223372036854775808");
}

#[test]
fn spans() {
    let s = Span::new(3, 8);
    assert_eq!(s.start(), 3);
    assert_eq!(s.end(), 8);
    assert_eq!(s.len(), 5);
    assert!(!s.is_empty());
    assert!(Span::new(4, 4).is_empty());
}

#[test]
fn span_texts_and_positions() {
    let source = SourceText::new("int é = 1;\n  float z;\nchar c;".to_string());
    // "é" takes two bytes: the span of `=` starts at byte 7.
    assert_eq!(source.span_str(Span::new(4, 6)), "é");
    assert_eq!(source.span_str(Span::new(7, 8)), "=");
    assert_eq!(source.line_col(Span::new(7, 8)), ((1, 7), (1, 8)));
    assert_eq!(source.span_str(Span::new(14, 19)), "float");
    assert_eq!(source.line_col(Span::new(14, 19)), ((2, 3), (2, 8)));
    assert_eq!(source.span_lines_str(Span::new(14, 19)), "  float z;");
    assert_eq!(source.span_lines_str(Span::new(9, 25)), "int é = 1;\n  float z;\nchar c;");
    assert_eq!(source.line_col(Span::new(0, 0)), ((1, 1), (1, 1)));
}

#[test]
fn error_codes() {
    let cases: Vec<(CompilerError, i32)> = vec![
        (CompilerError::SanityError("s".to_string()), 1),
        (CompilerError::LexicalError("l".to_string()), 1),
        (CompilerError::ParsingErrors("p".to_string()), 1),
        (CompilerError::TreeBuildingError("t".to_string()), 1),
        (CompilerError::EvalParserFailure, 1),
        (CompilerError::FailedScoping, 1),
        (CompilerError::IlocErrorUndefinedBehavior("u".to_string()), 1),
        (
            CompilerError::SemanticErrorUndeclared {
                id: "x".to_string(),
                line: 1,
                col: 1,
                highlight: "x\n^".to_string(),
            },
            10,
        ),
        (
            CompilerError::SemanticErrorDeclared {
                id: "x".to_string(),
                first_line: 1,
                first_col: 1,
                first_highlight: String::new(),
                second_line: 2,
                second_col: 1,
                second_highlight: String::new(),
            },
            11,
        ),
        (CompilerError::SemanticErrorWrongType { valid_type: "char".to_string(), received_type: "int".to_string(), line: 1, col: 1, highlight: String::new() }, 30),
        (CompilerError::SemanticErrorStringToX { invalid_type: "int".to_string(), line: 1, col: 1, highlight: String::new() }, 31),
        (CompilerError::SemanticErrorCharToX { invalid_type: "int".to_string(), line: 1, col: 1, highlight: String::new() }, 32),
        (CompilerError::SemanticErrorStringMax { line: 1, col: 1, highlight: String::new(), variable_size: 1, string_size: 2 }, 33),
        (CompilerError::SemanticErrorStringVector { id: "v".to_string(), line: 1, col: 1, highlight: String::new() }, 34),
        (CompilerError::SemanticErrorMissingArgs { id: "f".to_string(), first_line: 1, first_col: 1, first_highlight: String::new(), second_line: 2, second_col: 1, second_highlight: String::new() }, 40),
        (CompilerError::SemanticErrorExcessArgs { id: "f".to_string(), first_line: 1, first_col: 1, first_highlight: String::new(), second_line: 2, second_col: 1, second_highlight: String::new() }, 41),
        (CompilerError::SemanticErrorWrongTypeArgs { id: "f".to_string(), first_line: 1, first_col: 1, first_highlight: String::new(), second_line: 2, second_col: 1, second_highlight: String::new() }, 42),
        (CompilerError::SemanticErrorFunctionString { id: "a".to_string(), line: 1, col: 1, highlight: String::new() }, 43),
        (CompilerError::SemanticErrorWrongParOutputLit { received_type: "char".to_string(), line: 1, col: 1, highlight: String::new() }, 51),
        (CompilerError::SemanticErrorWrrongParReturn { expected_type: "int".to_string(), received_type: "char".to_string(), line: 1, col: 1, highlight: String::new() }, 52),
        (CompilerError::SemanticErrorWrongParShift { received_value: 17, line: 1, col: 1, highlight: String::new() }, 53),
    ];
    for (error, code) in cases {
        assert_eq!(error.error_code(), code, "{:?}", error);
    }
    let io = CompilerError::IoReadFailure(std::io::Error::new(std::io::ErrorKind::Other, "gone"));
    assert_eq!(io.error_code(), 1);
}
