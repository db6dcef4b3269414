use compilador::error::CompilerError;
use compilador::instructions::Register;
use compilador::scope::{ScopeStack, SymbolTable};
use compilador::semantics::{CallSymbol, DefSymbol, IntValue, SymbolClass, SymbolType};
use compilador::text::{SourceText, Span};

const PROGRAM: &str = "int x;\nint x;\nfloat y;";

fn def(id: &str, span: Span, line: usize, col: usize, type_value: SymbolType, class: SymbolClass) -> DefSymbol {
    DefSymbol::new(id.to_string(), span, line, col, type_value, class, Some(4), Register::Rbss, 0)
}

fn first_x() -> DefSymbol {
    def("x", Span::new(4, 5), 1, 5, SymbolType::Int(IntValue::Undefined), SymbolClass::default_var())
}

#[test]
fn redeclaration_in_one_scope() {
    let source = SourceText::new(PROGRAM.to_string());
    let mut stack = ScopeStack::new();
    assert!(stack.check_duplicate(Span::new(4, 5), &source).is_ok());
    stack.add_def_symbol(first_x()).unwrap();
    match stack.check_duplicate(Span::new(11, 12), &source) {
        Err(CompilerError::SemanticErrorDeclared {
            id,
            first_line,
            first_col,
            first_highlight,
            second_line,
            second_col,
            second_highlight,
        }) => {
            assert_eq!(id, "x");
            assert_eq!((first_line, first_col), (1, 5));
            assert_eq!(first_highlight, "int x;\n    ^");
            assert_eq!((second_line, second_col), (2, 5));
            assert_eq!(second_highlight, "int x;\n    ^");
        }
        other => panic!("{:?}", other),
    }
    // In an inner scope the name may be defined again.
    stack.add_scope(None);
    assert!(stack.check_duplicate(Span::new(11, 12), &source).is_ok());
}

#[test]
fn undeclared_name() {
    let source = SourceText::new(PROGRAM.to_string());
    let stack = ScopeStack::new();
    match stack.get_previous_def(Span::new(20, 21), &source, SymbolClass::default_var()) {
        Err(CompilerError::SemanticErrorUndeclared { id, line, col, highlight }) => {
            assert_eq!(id, "y");
            assert_eq!((line, col), (3, 7));
            assert_eq!(highlight, "float y;\n      ^");
        }
        other => panic!("{:?}", other.map(|s| s.id.clone())),
    }
}

#[test]
fn definitions_are_found_from_the_innermost_scope_out() {
    let source = SourceText::new(PROGRAM.to_string());
    let mut stack = ScopeStack::new();
    stack.add_def_symbol(first_x()).unwrap();
    stack.add_scope(None);
    let inner = def("x", Span::new(11, 12), 2, 5, SymbolType::Float(None), SymbolClass::default_var());
    stack.add_def_symbol(inner).unwrap();
    let found = stack.get_previous_def(Span::new(4, 5), &source, SymbolClass::default_var()).unwrap();
    assert!(matches!(found.type_value, SymbolType::Float(None)));
    assert!(matches!(stack.get_previous_def_string_no_error("x").unwrap().type_value, SymbolType::Float(None)));
    let table: SymbolTable = stack.remove_scope().unwrap();
    assert!(matches!(table.get(&"x".to_string()).unwrap().type_value, SymbolType::Float(None)));
    assert!(table.get(&"y".to_string()).is_none());
    let found = stack.get_previous_def(Span::new(4, 5), &source, SymbolClass::default_var()).unwrap();
    assert!(matches!(found.type_value, SymbolType::Int(IntValue::Undefined)));
    assert!(stack.get_previous_def_string_no_error("y").is_none());
}

#[test]
fn misuse_of_a_variable() {
    let source = SourceText::new(PROGRAM.to_string());
    let mut stack = ScopeStack::new();
    stack.add_def_symbol(first_x()).unwrap();
    match stack.get_previous_def(Span::new(11, 12), &source, SymbolClass::Fn(vec![])) {
        Err(CompilerError::SemanticErrorVariable {
            id,
            first_line,
            first_col,
            first_highlight,
            second_class,
            second_line,
            second_col,
            second_highlight,
        }) => {
            assert_eq!(id, "x");
            assert_eq!((first_line, first_col), (1, 5));
            assert_eq!(first_highlight, "int x;\n    ^");
            assert_eq!(second_class, "function");
            assert_eq!((second_line, second_col), (2, 5));
            assert_eq!(second_highlight, "int x;\n    ^");
        }
        other => panic!("{:?}", other.map(|s| s.id.clone())),
    }
}

#[test]
fn misuse_of_a_vector_and_of_a_function() {
    let source = SourceText::new(PROGRAM.to_string());
    let mut stack = ScopeStack::new();
    stack.add_def_symbol(def("x", Span::new(4, 5), 1, 5, SymbolType::Int(IntValue::Undefined), SymbolClass::default_vec())).unwrap();
    match stack.get_previous_def(Span::new(11, 12), &source, SymbolClass::default_var()) {
        Err(e @ CompilerError::SemanticErrorVector { .. }) => assert_eq!(e.error_code(), 21),
        other => panic!("{:?}", other.map(|s| s.id.clone())),
    }
    stack.add_def_symbol(def("x", Span::new(4, 5), 1, 5, SymbolType::Int(IntValue::Undefined), SymbolClass::Fn(vec![]))).unwrap();
    match stack.get_previous_def(Span::new(11, 12), &source, SymbolClass::default_vec()) {
        Err(CompilerError::SemanticErrorFunction { second_class, .. }) => assert_eq!(second_class, "vector"),
        other => panic!("{:?}", other.map(|s| s.id.clone())),
    }
    assert!(stack.get_previous_def(Span::new(11, 12), &source, SymbolClass::Fn(vec![])).is_ok());
}

#[test]
fn a_literal_is_never_looked_up() {
    let source = SourceText::new(PROGRAM.to_string());
    let mut stack = ScopeStack::new();
    stack.add_def_symbol(def("x", Span::new(4, 5), 1, 5, SymbolType::Int(IntValue::Undefined), SymbolClass::Lit)).unwrap();
    match stack.get_previous_def(Span::new(11, 12), &source, SymbolClass::default_var()) {
        Err(CompilerError::SanityError(message)) => assert_eq!(
            message,
            "get_previous_def() with \"x\" matched a a literal: (1, 5, int x;\n    ^) => (variable, 2, 5, int x;\n    ^)"
        ),
        other => panic!("{:?}", other.map(|s| s.id.clone())),
    }
}

#[test]
fn scoping_fails_without_a_scope() {
    let source = SourceText::new(PROGRAM.to_string());
    let mut stack = ScopeStack::new();
    assert!(stack.remove_scope().is_ok());
    assert!(matches!(stack.remove_scope(), Err(CompilerError::FailedScoping)));
    assert!(matches!(stack.add_def_symbol(first_x()), Err(CompilerError::FailedScoping)));
    assert!(matches!(stack.check_duplicate(Span::new(4, 5), &source), Err(CompilerError::FailedScoping)));
    assert!(matches!(stack.get_offset(), Err(CompilerError::FailedScoping)));
    assert!(matches!(stack.add_offset(4), Err(CompilerError::FailedScoping)));
    assert!(matches!(stack.pop_symbol(), Err(CompilerError::FailedScoping)));
    let call = CallSymbol::new("x".to_string(), Span::new(4, 5), 1, 5, SymbolType::Bool(None), SymbolClass::default_var());
    match stack.push_symbol(call) {
        Err(e) => assert_eq!(e.error_code(), 1),
        Ok(()) => panic!("pushed without a scope"),
    }
}

#[test]
fn scope_types() {
    let mut stack = ScopeStack::new();
    match stack.get_current_scope_type() {
        Err(CompilerError::SanityError(m)) => assert_eq!(m, "get_current_scope_type() found no typed scopes"),
        other => panic!("{:?}", other),
    }
    stack.add_scope(Some(SymbolType::Float(None)));
    stack.add_scope(None);
    assert!(matches!(stack.get_current_scope_type(), Ok(SymbolType::Float(None))));
    stack.add_scope(Some(SymbolType::Char(None)));
    assert!(matches!(stack.get_current_scope_type(), Ok(SymbolType::Char(None))));
}

#[test]
fn symbols_are_pushed_and_popped() {
    let mut stack = ScopeStack::new();
    assert!(matches!(stack.pop_symbol(), Ok(None)));
    let a = CallSymbol::new("a".to_string(), Span::new(0, 1), 1, 1, SymbolType::Bool(None), SymbolClass::default_var());
    let b = CallSymbol::new("b".to_string(), Span::new(2, 3), 1, 3, SymbolType::Char(None), SymbolClass::default_var());
    stack.push_symbol(a).unwrap();
    stack.push_symbol(b).unwrap();
    assert_eq!(stack.pop_symbol().unwrap().unwrap().id, "b");
    stack.add_scope(None);
    assert!(matches!(stack.pop_symbol(), Ok(None)));
    stack.remove_scope().unwrap();
    assert_eq!(stack.pop_symbol().unwrap().unwrap().id, "a");
    assert!(matches!(stack.pop_symbol(), Ok(None)));
}

#[test]
fn offsets_accumulate_per_scope() {
    let mut stack = ScopeStack::new();
    assert_eq!(stack.get_offset().unwrap(), 0);
    stack.add_offset(4).unwrap();
    stack.add_offset(8).unwrap();
    assert_eq!(stack.get_offset().unwrap(), 12);
    stack.add_scope(None);
    assert_eq!(stack.get_offset().unwrap(), 0);
    stack.add_offset(1).unwrap();
    assert_eq!(stack.get_offset().unwrap(), 1);
    stack.remove_scope().unwrap();
    assert_eq!(stack.get_offset().unwrap(), 12);
}

#[test]
fn highlight_of_a_span_over_several_lines() {
    let source = SourceText::new("ab\ncd\nef".to_string());
    assert_eq!(ScopeStack::form_string_highlight(Span::new(1, 7), &source), "ab\n ^\ncd^^^\nef^^");
    assert_eq!(ScopeStack::form_string_highlight(Span::new(3, 5), &source), "cd\n^^");
}
