use compilador::ast::{evaluate, evaluate_node, AstNode};
use compilador::error::CompilerError;
use compilador::folding::{BinaryType, UnaryType};
use compilador::instructions::{IlocCode, Register};
use compilador::scope::ScopeStack;
use compilador::semantics::{DefSymbol, IntValue, Parameter, SymbolClass, SymbolType};
use compilador::text::{SourceText, Span};

const PROGRAM: &str = "int x;\nx 12 true;\nint f(int a, char b);\nf(7);\nf(7, 99999999999);\nf(7, x);\n{ int y; }\n";

fn source() -> SourceText {
    SourceText::new(PROGRAM.to_string())
}

fn s(start: usize, end: usize) -> Span {
    Span::new(start, end)
}

fn declare_x() -> AstNode {
    AstNode::GlobalVarDef { is_static: false, var_type: s(0, 3), node_id: s(4, 5), next: None }
}

fn function_f(params: Vec<Parameter>) -> DefSymbol {
    DefSymbol::new(
        "f".to_string(),
        s(22, 23),
        3,
        5,
        SymbolType::Int(IntValue::Undefined),
        SymbolClass::Fn(params),
        None,
        Register::Rbss,
        0,
    )
}

fn param_a() -> Parameter {
    Parameter { is_const: false, param_type: s(24, 27), node_id: s(28, 29) }
}

fn param_b() -> Parameter {
    Parameter { is_const: false, param_type: s(31, 35), node_id: s(36, 37) }
}

#[test]
fn a_declared_variable_is_found_by_its_uses() {
    let src = source();
    let mut code = IlocCode::new();
    let mut stack = ScopeStack::new();
    assert!(matches!(evaluate_node(&declare_x(), &mut code, &mut stack, &src), Ok(None)));
    let use_x = AstNode::VarInvoke { node_id: s(7, 8), next: None };
    assert!(matches!(
        evaluate_node(&use_x, &mut code, &mut stack, &src),
        Ok(Some(SymbolType::Int(IntValue::Undefined)))
    ));
    let found = stack.get_previous_def_string_no_error("x").unwrap();
    assert_eq!((found.line, found.col), (1, 5));
}

#[test]
fn a_second_declaration_is_refused() {
    let src = source();
    let mut code = IlocCode::new();
    let mut stack = ScopeStack::new();
    let twice = AstNode::GlobalVarDef {
        is_static: false,
        var_type: s(0, 3),
        node_id: s(4, 5),
        next: Some(Box::new(declare_x())),
    };
    match evaluate_node(&twice, &mut code, &mut stack, &src) {
        Err(CompilerError::SemanticErrorDeclared { id, first_line, second_line, .. }) => {
            assert_eq!(id, "x");
            assert_eq!((first_line, second_line), (1, 1));
        }
        other => panic!("{:?}", other),
    }
}

#[test]
fn an_unknown_type_is_refused() {
    let src = source();
    let mut stack = ScopeStack::new();
    let bad = AstNode::GlobalVarDef { is_static: false, var_type: s(4, 5), node_id: s(4, 5), next: None };
    match evaluate_node(&bad, &mut IlocCode::new(), &mut stack, &src) {
        Err(CompilerError::LexicalError(m)) => assert_eq!(m, "invalid type declaration: x"),
        other => panic!("{:?}", other),
    }
}

#[test]
fn an_undeclared_variable_is_reported() {
    let src = source();
    let mut stack = ScopeStack::new();
    let use_x = AstNode::VarInvoke { node_id: s(7, 8), next: None };
    match evaluate_node(&use_x, &mut IlocCode::new(), &mut stack, &src) {
        Err(CompilerError::SemanticErrorUndeclared { id, line, col, highlight }) => {
            assert_eq!(id, "x");
            assert_eq!((line, col), (2, 1));
            assert_eq!(highlight, "x 12 true;\n^");
        }
        other => panic!("{:?}", other),
    }
}

#[test]
fn literals_are_read_and_pushed() {
    let src = source();
    let mut stack = ScopeStack::new();
    let twelve = AstNode::LiteralInt { node_id: s(9, 11), next: None };
    assert!(matches!(
        evaluate_node(&twelve, &mut IlocCode::new(), &mut stack, &src),
        Ok(Some(SymbolType::Int(IntValue::Literal(12))))
    ));
    let yes = AstNode::LiteralBool { node_id: s(12, 16), next: None };
    assert!(matches!(
        evaluate_node(&yes, &mut IlocCode::new(), &mut stack, &src),
        Ok(Some(SymbolType::Bool(Some(true))))
    ));
    assert_eq!(stack.pop_symbol().unwrap().unwrap().id, "true");
    assert_eq!(stack.pop_symbol().unwrap().unwrap().id, "12");
    let huge = AstNode::LiteralInt { node_id: s(51, 62), next: None };
    match evaluate_node(&huge, &mut IlocCode::new(), &mut stack, &src) {
        Err(CompilerError::LexicalError(m)) => assert_eq!(m, "Unable to parse 99999999999 into i32."),
        other => panic!("{:?}", other),
    }
    let not_bool = AstNode::LiteralBool { node_id: s(9, 11), next: None };
    match evaluate_node(&not_bool, &mut IlocCode::new(), &mut stack, &src) {
        Err(CompilerError::LexicalError(m)) => assert_eq!(m, "Unable to parse 12 into bool."),
        other => panic!("{:?}", other),
    }
}

#[test]
fn constant_expressions_are_folded() {
    let src = source();
    let mut stack = ScopeStack::new();
    let sum = AstNode::Binary {
        node_id: s(9, 11),
        op_type: BinaryType::Add,
        lhs: Box::new(AstNode::LiteralInt { node_id: s(9, 11), next: None }),
        rhs: Box::new(AstNode::LiteralBool { node_id: s(12, 16), next: None }),
        next: None,
    };
    assert!(matches!(
        evaluate_node(&sum, &mut IlocCode::new(), &mut stack, &src),
        Ok(Some(SymbolType::Int(IntValue::Literal(13))))
    ));
    let negated = AstNode::Unary {
        node_id: s(12, 16),
        op_type: UnaryType::Negative,
        operand: Box::new(AstNode::LiteralBool { node_id: s(12, 16), next: None }),
        next: None,
    };
    assert!(matches!(
        evaluate_node(&negated, &mut IlocCode::new(), &mut stack, &src),
        Ok(Some(SymbolType::Int(IntValue::Literal(-1))))
    ));
}

#[test]
fn a_call_with_too_few_arguments() {
    let src = source();
    let mut stack = ScopeStack::new();
    stack.add_def_symbol(function_f(vec![param_a(), param_b()])).unwrap();
    let call = AstNode::FnCall {
        node_id: s(40, 41),
        args: vec![AstNode::LiteralInt { node_id: s(42, 43), next: None }],
        next: None,
    };
    match evaluate_node(&call, &mut IlocCode::new(), &mut stack, &src) {
        Err(CompilerError::SemanticErrorMissingArgs {
            id,
            first_line,
            first_col,
            first_highlight,
            second_line,
            second_col,
            second_highlight,
        }) => {
            assert_eq!(id, "f");
            assert_eq!((first_line, first_col), (3, 5));
            assert_eq!(first_highlight, "int f(int a, char b);\n    ^");
            assert_eq!((second_line, second_col), (4, 1));
            assert_eq!(second_highlight, "f(7);\n^");
        }
        other => panic!("{:?}", other),
    }
}

#[test]
fn a_call_with_too_many_arguments() {
    let src = source();
    let mut stack = ScopeStack::new();
    stack.add_def_symbol(function_f(vec![])).unwrap();
    let call = AstNode::FnCall {
        node_id: s(40, 41),
        args: vec![AstNode::LiteralInt { node_id: s(42, 43), next: None }],
        next: None,
    };
    match evaluate_node(&call, &mut IlocCode::new(), &mut stack, &src) {
        Err(e @ CompilerError::SemanticErrorExcessArgs { .. }) => assert_eq!(e.error_code(), 41),
        other => panic!("{:?}", other),
    }
}

#[test]
fn a_call_checks_each_argument() {
    let src = source();
    let mut code = IlocCode::new();
    let mut stack = ScopeStack::new();
    evaluate_node(&declare_x(), &mut code, &mut stack, &src).unwrap();
    stack.add_def_symbol(function_f(vec![param_a(), param_b()])).unwrap();
    let call = AstNode::FnCall {
        node_id: s(65, 66),
        args: vec![
            AstNode::LiteralInt { node_id: s(67, 68), next: None },
            AstNode::VarInvoke { node_id: s(70, 71), next: None },
        ],
        next: None,
    };
    match evaluate_node(&call, &mut code, &mut stack, &src) {
        Err(CompilerError::SemanticErrorWrongTypeArgs { id, second_line, second_highlight, .. }) => {
            assert_eq!(id, "f");
            assert_eq!(second_line, 6);
            assert_eq!(second_highlight, "f(7, x);\n^");
        }
        other => panic!("{:?}", other),
    }
    let failing_argument = AstNode::FnCall {
        node_id: s(46, 47),
        args: vec![
            AstNode::LiteralInt { node_id: s(48, 49), next: None },
            AstNode::LiteralInt { node_id: s(51, 62), next: None },
        ],
        next: None,
    };
    match evaluate_node(&failing_argument, &mut code, &mut stack, &src) {
        Err(CompilerError::LexicalError(m)) => assert_eq!(m, "Unable to parse 99999999999 into i32."),
        other => panic!("{:?}", other),
    }
}

#[test]
fn a_fitting_call_has_the_function_type() {
    let src = source();
    let mut stack = ScopeStack::new();
    stack.add_def_symbol(function_f(vec![param_a()])).unwrap();
    let call = AstNode::FnCall {
        node_id: s(40, 41),
        args: vec![AstNode::LiteralInt { node_id: s(42, 43), next: None }],
        next: None,
    };
    assert!(matches!(
        evaluate_node(&call, &mut IlocCode::new(), &mut stack, &src),
        Ok(Some(SymbolType::Int(IntValue::Undefined)))
    ));
}

#[test]
fn a_block_forgets_its_definitions() {
    let src = source();
    let mut code = IlocCode::new();
    let mut stack = ScopeStack::new();
    let block = AstNode::CommandBlock {
        node_id: s(74, 75),
        first_command: Some(Box::new(AstNode::GlobalVarDef {
            is_static: false,
            var_type: s(76, 79),
            node_id: s(80, 81),
            next: None,
        })),
        next: Some(Box::new(AstNode::VarInvoke { node_id: s(80, 81), next: None })),
    };
    match evaluate_node(&block, &mut code, &mut stack, &src) {
        Err(CompilerError::SemanticErrorUndeclared { id, line, .. }) => {
            assert_eq!(id, "y");
            assert_eq!(line, 7);
        }
        other => panic!("{:?}", other),
    }
}

#[test]
fn a_program_without_main_is_refused() {
    let src = source();
    match evaluate(&None, &src) {
        Err(CompilerError::IlocErrorUndefinedBehavior(m)) => assert_eq!(m, "No main() function found."),
        other => panic!("{:?}", other.map(|c| c.listing())),
    }
    match evaluate(&Some(declare_x()), &src) {
        Err(e) => assert_eq!(e.error_code(), 1),
        other => panic!("{:?}", other.map(|c| c.listing())),
    }
}

#[test]
fn a_program_with_main_is_laid_out() {
    let src = SourceText::new("int main() {}".to_string());
    let main = AstNode::FnDef {
        is_static: false,
        return_type: s(0, 3),
        node_id: s(4, 8),
        params: vec![],
        first_command: None,
        next: None,
    };
    let code = evaluate(&Some(main), &src).unwrap();
    assert_eq!(
        code.listing(),
        vec![
            "loadI 1024 => rfp",
            "loadI 1024 => rsp",
            "loadI 18 => rbss",
            "loadI 8 => r0",
            "storeAI r0 => rsp, 0",
            "storeAI rsp => rsp, 4",
            "storeAI rfp => rsp, 8",
            "jumpI -> L0",
            "halt",
            "L0: nop",
            "i2i rsp => rfp",
            "addI rsp, 16 => rsp",
            "loadAI rfp, 0 => r1",
            "loadAI rfp, 4 => r2",
            "loadAI rfp, 8 => r3",
            "i2i r2 => rsp",
            "i2i r3 => rfp",
            "jump -> r1",
        ]
    );
}

#[test]
fn a_function_frame_holds_its_parameters() {
    let src = source();
    let mut code = IlocCode::new();
    let mut stack = ScopeStack::new();
    let f = AstNode::FnDef {
        is_static: false,
        return_type: s(18, 21),
        node_id: s(22, 23),
        params: vec![param_a(), param_b()],
        first_command: Some(Box::new(AstNode::VarInvoke { node_id: s(28, 29), next: None })),
        next: None,
    };
    assert!(matches!(evaluate_node(&f, &mut code, &mut stack, &src), Ok(None)));
    let listing = code.listing();
    assert_eq!(listing[9], "L0: nop");
    assert_eq!(listing[11], "addI rsp, 21 => rsp");
    let defined = stack.get_previous_def_string_no_error("f").unwrap();
    assert!(matches!(defined.class, SymbolClass::Fn(ref params) if params.len() == 2));
    assert!(stack.get_previous_def_string_no_error("a").is_none());
    let call = AstNode::FnCall {
        node_id: s(40, 41),
        args: vec![AstNode::LiteralInt { node_id: s(42, 43), next: None }],
        next: None,
    };
    assert!(matches!(
        evaluate_node(&call, &mut code, &mut stack, &src),
        Err(CompilerError::SemanticErrorMissingArgs { .. })
    ));
}

#[test]
fn a_string_parameter_is_refused() {
    let src = SourceText::new("int g(string t)".to_string());
    let g = AstNode::FnDef {
        is_static: false,
        return_type: s(0, 3),
        node_id: s(4, 5),
        params: vec![Parameter { is_const: false, param_type: s(6, 12), node_id: s(13, 14) }],
        first_command: None,
        next: None,
    };
    match evaluate_node(&g, &mut IlocCode::new(), &mut ScopeStack::new(), &src) {
        Err(CompilerError::SemanticErrorFunctionString { id, line, col, highlight }) => {
            assert_eq!(id, "t");
            assert_eq!((line, col), (1, 14));
            assert_eq!(highlight, "int g(string t)\n             ^");
        }
        other => panic!("{:?}", other),
    }
}

#[test]
fn a_vector_defines_its_cells() {
    let src = SourceText::new("int v[3];\nstring w[2];".to_string());
    let mut stack = ScopeStack::new();
    let v = AstNode::GlobalVecDef { is_static: false, var_type: s(0, 3), node_id: s(4, 5), vec_size: s(6, 7), next: None };
    assert!(matches!(evaluate_node(&v, &mut IlocCode::new(), &mut stack, &src), Ok(None)));
    assert_eq!(stack.get_previous_def_string_no_error("v").unwrap().size, Some(12));
    assert_eq!(stack.get_previous_def_string_no_error("v[11]").unwrap().size, Some(4));
    assert!(stack.get_previous_def_string_no_error("v[12]").is_none());
    let w = AstNode::GlobalVecDef { is_static: false, var_type: s(10, 16), node_id: s(17, 18), vec_size: s(19, 20), next: None };
    match evaluate_node(&w, &mut IlocCode::new(), &mut stack, &src) {
        Err(CompilerError::SemanticErrorStringVector { id, line, col, highlight }) => {
            assert_eq!(id, "w");
            assert_eq!((line, col), (2, 1));
            assert_eq!(highlight, "string w[2];\n^^^^^^^^^^^");
        }
        other => panic!("{:?}", other),
    }
}

#[test]
fn a_return_must_fit_the_function_type() {
    let src = SourceText::new("char g() { return 1; }".to_string());
    let g = AstNode::FnDef {
        is_static: false,
        return_type: s(0, 4),
        node_id: s(5, 6),
        params: vec![],
        first_command: Some(Box::new(AstNode::Return {
            node_id: s(11, 17),
            ret_value: Box::new(AstNode::LiteralInt { node_id: s(18, 19), next: None }),
            next: None,
        })),
        next: None,
    };
    match evaluate_node(&g, &mut IlocCode::new(), &mut ScopeStack::new(), &src) {
        Err(CompilerError::SemanticErrorWrrongParReturn { expected_type, received_type, line, col, highlight }) => {
            assert_eq!((expected_type.as_str(), received_type.as_str()), ("char", "int"));
            assert_eq!((line, col), (1, 19));
            assert_eq!(highlight, "char g() { return 1; }\n                  ^");
        }
        other => panic!("{:?}", other),
    }
}

#[test]
fn a_condition_must_be_a_truth_value() {
    let src = SourceText::new("char c; while (c) {}".to_string());
    let program = AstNode::LocalVarDef {
        is_static: false,
        is_const: false,
        var_type: s(0, 4),
        node_id: s(5, 6),
        is_tree_node: false,
        next: Some(Box::new(AstNode::While {
            node_id: s(8, 13),
            condition: Box::new(AstNode::VarInvoke { node_id: s(15, 16), next: None }),
            consequence: Box::new(AstNode::CommandBlock { node_id: s(18, 19), first_command: None, next: None }),
            next: None,
        })),
    };
    match evaluate_node(&program, &mut IlocCode::new(), &mut ScopeStack::new(), &src) {
        Err(CompilerError::SemanticErrorCharToX { invalid_type, line, col, highlight }) => {
            assert_eq!(invalid_type, "boolean");
            assert_eq!((line, col), (1, 9));
            assert_eq!(highlight, "char c; while (c) {}\n        ^^^^^");
        }
        other => panic!("{:?}", other),
    }
    let fine = AstNode::If {
        node_id: s(8, 13),
        condition: Box::new(AstNode::LiteralBool { node_id: s(8, 13), next: None }),
        consequence: Box::new(AstNode::Break { node_id: s(8, 13), next: None }),
        next: Some(Box::new(AstNode::Continue { node_id: s(8, 13), next: None })),
    };
    match evaluate_node(&fine, &mut IlocCode::new(), &mut ScopeStack::new(), &src) {
        Err(CompilerError::LexicalError(m)) => assert_eq!(m, "Unable to parse while into bool."),
        other => panic!("{:?}", other),
    }
}

#[test]
fn an_assignment_is_checked_against_the_variable_type() {
    let src = SourceText::new("int n; n = 'q';".to_string());
    let program = AstNode::LocalVarDef {
        is_static: false,
        is_const: false,
        var_type: s(0, 3),
        node_id: s(4, 5),
        is_tree_node: false,
        next: Some(Box::new(AstNode::VarSet {
            node_id: s(9, 10),
            var_name: Box::new(AstNode::VarInvoke { node_id: s(7, 8), next: None }),
            new_value: Box::new(AstNode::LiteralChar { node_id: s(11, 14), next: None }),
            next: None,
        })),
    };
    match evaluate_node(&program, &mut IlocCode::new(), &mut ScopeStack::new(), &src) {
        Err(CompilerError::SemanticErrorCharToX { invalid_type, line, col, highlight }) => {
            assert_eq!(invalid_type, "int");
            assert_eq!((line, col), (1, 10));
            assert_eq!(highlight, "int n; n = 'q';\n         ^");
        }
        other => panic!("{:?}", other),
    }
}

#[test]
fn a_conditional_expression_picks_a_branch() {
    let src = SourceText::new("true ? 'a' : 2".to_string());
    let pick = AstNode::Ternary {
        left_span: s(5, 6),
        right_span: s(11, 12),
        condition: Box::new(AstNode::LiteralBool { node_id: s(0, 4), next: None }),
        if_true: Box::new(AstNode::LiteralChar { node_id: s(7, 10), next: None }),
        if_false: Box::new(AstNode::LiteralInt { node_id: s(13, 14), next: None }),
        next: None,
    };
    assert!(matches!(
        evaluate_node(&pick, &mut IlocCode::new(), &mut ScopeStack::new(), &src),
        Ok(Some(SymbolType::Char(Some(b'a'))))
    ));
}

#[test]
fn an_initialised_declaration_takes_the_value() {
    let src = SourceText::new("float k = 3;".to_string());
    let mut stack = ScopeStack::new();
    let program = AstNode::VarDefInitLit {
        node_id: s(8, 9),
        var_def: Box::new(AstNode::LocalVarDef {
            is_static: false,
            is_const: false,
            var_type: s(0, 5),
            node_id: s(6, 7),
            is_tree_node: false,
            next: None,
        }),
        var_value: Box::new(AstNode::LiteralInt { node_id: s(10, 11), next: None }),
        next: None,
    };
    assert!(matches!(evaluate_node(&program, &mut IlocCode::new(), &mut stack, &src), Ok(None)));
    let k = stack.get_previous_def_string_no_error("k").unwrap();
    assert!(matches!(k.type_value, SymbolType::Float(Some(b)) if b == 3.0f64.to_bits()));
}

#[test]
fn a_shift_is_by_at_most_sixteen() {
    let src = SourceText::new("int x; x << 17;".to_string());
    let shift = |amount: Span| AstNode::GlobalVarDef {
        is_static: false,
        var_type: s(0, 3),
        node_id: s(4, 5),
        next: Some(Box::new(AstNode::VarLeftShift {
            node_id: s(9, 11),
            var_name: Box::new(AstNode::VarInvoke { node_id: s(7, 8), next: None }),
            shift_amount: Box::new(AstNode::LiteralInt { node_id: amount, next: None }),
            next: None,
        })),
    };
    match evaluate_node(&shift(s(12, 14)), &mut IlocCode::new(), &mut ScopeStack::new(), &src) {
        Err(CompilerError::SemanticErrorWrongParShift { received_value, highlight, line, col }) => {
            assert_eq!(received_value, 17);
            assert_eq!((line, col), (1, 13));
            assert_eq!(highlight, "int x; x << 17;\n            ^^");
        }
        other => panic!("{:?}", other),
    }
    assert!(matches!(evaluate_node(&shift(s(13, 14)), &mut IlocCode::new(), &mut ScopeStack::new(), &src), Ok(None)));
}

#[test]
fn input_needs_a_number_variable() {
    let src = SourceText::new("char c; input c;".to_string());
    let program = AstNode::GlobalVarDef {
        is_static: false,
        var_type: s(0, 4),
        node_id: s(5, 6),
        next: Some(Box::new(AstNode::Input {
            node_id: s(8, 13),
            var_name: Box::new(AstNode::VarInvoke { node_id: s(14, 15), next: None }),
            next: None,
        })),
    };
    match evaluate_node(&program, &mut IlocCode::new(), &mut ScopeStack::new(), &src) {
        Err(CompilerError::SemanticErrorWrongParInput { received_type, first_line, first_col, second_col, .. }) => {
            assert_eq!(received_type, "char");
            assert_eq!((first_line, first_col, second_col), (1, 6, 15));
        }
        other => panic!("{:?}", other),
    }
}

#[test]
fn a_string_literal_loses_its_quotes() {
    let src = SourceText::new("x = \"hello\";\n\"\"".to_string());
    let mut stack = ScopeStack::new();
    let hello = AstNode::LiteralString { node_id: s(4, 11), next: None };
    match evaluate_node(&hello, &mut IlocCode::new(), &mut stack, &src) {
        Ok(Some(SymbolType::String(Some(v)))) => assert_eq!(v, "hello"),
        other => panic!("{:?}", other),
    }
    let pushed = stack.pop_symbol().unwrap().unwrap();
    assert_eq!(pushed.id, "\"hello\"");
    assert_eq!((pushed.line, pushed.col), (1, 5));
    let empty = AstNode::LiteralString { node_id: s(13, 15), next: None };
    match evaluate_node(&empty, &mut IlocCode::new(), &mut stack, &src) {
        Ok(Some(SymbolType::String(Some(v)))) => assert_eq!(v, ""),
        other => panic!("{:?}", other),
    }
    let cut = AstNode::LiteralString { node_id: s(4, 5), next: None };
    match evaluate_node(&cut, &mut IlocCode::new(), &mut stack, &src) {
        Err(CompilerError::SanityError(m)) => assert_eq!(m, "on evaluate_node(), string smaller than 2 characters (no \") "),
        other => panic!("{:?}", other),
    }
}

#[test]
fn promises_are_collected_once() {
    let src = SourceText::new("int main() {}".to_string());
    let main = AstNode::FnDef {
        is_static: false,
        return_type: s(0, 3),
        node_id: s(4, 8),
        params: vec![],
        first_command: None,
        next: None,
    };
    let mut code = evaluate(&Some(main), &src).unwrap();
    let before = code.listing();
    match code.collect_promises() {
        Err(CompilerError::SanityError(m)) => assert_eq!(m, "failed to find SIZE_PROMISE position"),
        other => panic!("{:?}", other),
    }
    assert_eq!(code.listing(), before);
}

#[test]
fn a_function_definition_defines_its_name() {
    let src = SourceText::new("int f() {}".to_string());
    let f = AstNode::FnDef {
        is_static: false,
        return_type: s(0, 3),
        node_id: s(4, 5),
        params: vec![],
        first_command: None,
        next: None,
    };
    let mut code = IlocCode::new();
    let mut stack = ScopeStack::new();
    assert!(matches!(evaluate_node(&f, &mut code, &mut stack, &src), Ok(None)));
    let found = stack.get_previous_def_string_no_error("f").unwrap();
    assert!(matches!(found.class, SymbolClass::Fn(_)));
    assert!(matches!(found.type_value, SymbolType::Int(_)));
    assert_eq!(found.size, None);
    assert_eq!(code.label_count(), 1);
}
