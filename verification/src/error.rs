//! The compiler's errors and the process exit code that each one maps to.
use vstd::prelude::*;

verus! {

/// std's `io::Error`, which a failed read of the input carries; nothing is
/// known of what it holds.
#[verifier::external_type_specification]
#[verifier::external_body]
pub struct ExIoError(std::io::Error);

/// Every way in which compiling a program can fail. Semantic errors carry
/// the line, column and highlight of the offending code.
#[derive(Debug)]
pub enum CompilerError {
    SanityError(String),
    IoReadFailure(std::io::Error),
    LexicalError(String),
    ParsingErrors(String),
    TreeBuildingError(String),
    EvalParserFailure,
    FailedScoping,
    IlocErrorUndefinedBehavior(String),
    SemanticErrorUndeclared {
        id: String,
        line: usize,
        col: usize,
        highlight: String,
    },
    SemanticErrorDeclared {
        id: String,
        first_line: usize,
        first_col: usize,
        first_highlight: String,
        second_line: usize,
        second_col: usize,
        second_highlight: String,
    },
    SemanticErrorVariable {
        id: String,
        first_line: usize,
        first_col: usize,
        first_highlight: String,
        second_class: String,
        second_line: usize,
        second_col: usize,
        second_highlight: String,
    },
    SemanticErrorVector {
        id: String,
        first_line: usize,
        first_col: usize,
        first_highlight: String,
        second_class: String,
        second_line: usize,
        second_col: usize,
        second_highlight: String,
    },
    SemanticErrorFunction {
        id: String,
        first_line: usize,
        first_col: usize,
        first_highlight: String,
        second_class: String,
        second_line: usize,
        second_col: usize,
        second_highlight: String,
    },
    SemanticErrorWrongType {
        valid_type: String,
        received_type: String,
        highlight: String,
        line: usize,
        col: usize,
    },
    SemanticErrorStringToX {
        invalid_type: String,
        line: usize,
        col: usize,
        highlight: String,
    },
    SemanticErrorCharToX {
        invalid_type: String,
        line: usize,
        col: usize,
        highlight: String,
    },
    SemanticErrorStringMax {
        highlight: String,
        line: usize,
        col: usize,
        variable_size: u32,
        string_size: u32,
    },
    SemanticErrorStringVector {
        id: String,
        line: usize,
        col: usize,
        highlight: String,
    },
    SemanticErrorMissingArgs {
        id: String,
        first_line: usize,
        first_col: usize,
        first_highlight: String,
        second_line: usize,
        second_col: usize,
        second_highlight: String,
    },
    SemanticErrorExcessArgs {
        id: String,
        first_line: usize,
        first_col: usize,
        first_highlight: String,
        second_line: usize,
        second_col: usize,
        second_highlight: String,
    },
    SemanticErrorWrongTypeArgs {
        id: String,
        first_line: usize,
        first_col: usize,
        first_highlight: String,
        second_line: usize,
        second_col: usize,
        second_highlight: String,
    },
    SemanticErrorFunctionString {
        id: String,
        line: usize,
        col: usize,
        highlight: String,
    },
    SemanticErrorWrongParInput {
        received_type: String,
        first_highlight: String,
        first_line: usize,
        first_col: usize,
        second_highlight: String,
        second_line: usize,
        second_col: usize,
    },
    SemanticErrorWrongParOutputId {
        received_type: String,
        first_highlight: String,
        first_line: usize,
        first_col: usize,
        second_highlight: String,
        second_line: usize,
        second_col: usize,
    },
    SemanticErrorWrongParOutputLit {
        received_type: String,
        highlight: String,
        line: usize,
        col: usize,
    },
    SemanticErrorWrrongParReturn {
        expected_type: String,
        received_type: String,
        line: usize,
        col: usize,
        highlight: String,
    },
    SemanticErrorWrongParShift {
        received_value: i32,
        highlight: String,
        line: usize,
        col: usize,
    },
}

/// What an error says, with its texts as character sequences: the form in
/// which contracts speak of errors. (What a failed read carries is not
/// part of it: nothing is known of it.)
pub enum ErrorView {
    SanityError(Seq<char>),
    IoReadFailure,
    LexicalError(Seq<char>),
    ParsingErrors(Seq<char>),
    TreeBuildingError(Seq<char>),
    EvalParserFailure,
    FailedScoping,
    IlocErrorUndefinedBehavior(Seq<char>),
    SemanticErrorUndeclared {
        id: Seq<char>,
        line: usize,
        col: usize,
        highlight: Seq<char>,
    },
    SemanticErrorDeclared {
        id: Seq<char>,
        first_line: usize,
        first_col: usize,
        first_highlight: Seq<char>,
        second_line: usize,
        second_col: usize,
        second_highlight: Seq<char>,
    },
    SemanticErrorVariable {
        id: Seq<char>,
        first_line: usize,
        first_col: usize,
        first_highlight: Seq<char>,
        second_class: Seq<char>,
        second_line: usize,
        second_col: usize,
        second_highlight: Seq<char>,
    },
    SemanticErrorVector {
        id: Seq<char>,
        first_line: usize,
        first_col: usize,
        first_highlight: Seq<char>,
        second_class: Seq<char>,
        second_line: usize,
        second_col: usize,
        second_highlight: Seq<char>,
    },
    SemanticErrorFunction {
        id: Seq<char>,
        first_line: usize,
        first_col: usize,
        first_highlight: Seq<char>,
        second_class: Seq<char>,
        second_line: usize,
        second_col: usize,
        second_highlight: Seq<char>,
    },
    SemanticErrorWrongType {
        valid_type: Seq<char>,
        received_type: Seq<char>,
        highlight: Seq<char>,
        line: usize,
        col: usize,
    },
    SemanticErrorStringToX {
        invalid_type: Seq<char>,
        line: usize,
        col: usize,
        highlight: Seq<char>,
    },
    SemanticErrorCharToX {
        invalid_type: Seq<char>,
        line: usize,
        col: usize,
        highlight: Seq<char>,
    },
    SemanticErrorStringMax {
        highlight: Seq<char>,
        line: usize,
        col: usize,
        variable_size: u32,
        string_size: u32,
    },
    SemanticErrorStringVector {
        id: Seq<char>,
        line: usize,
        col: usize,
        highlight: Seq<char>,
    },
    SemanticErrorMissingArgs {
        id: Seq<char>,
        first_line: usize,
        first_col: usize,
        first_highlight: Seq<char>,
        second_line: usize,
        second_col: usize,
        second_highlight: Seq<char>,
    },
    SemanticErrorExcessArgs {
        id: Seq<char>,
        first_line: usize,
        first_col: usize,
        first_highlight: Seq<char>,
        second_line: usize,
        second_col: usize,
        second_highlight: Seq<char>,
    },
    SemanticErrorWrongTypeArgs {
        id: Seq<char>,
        first_line: usize,
        first_col: usize,
        first_highlight: Seq<char>,
        second_line: usize,
        second_col: usize,
        second_highlight: Seq<char>,
    },
    SemanticErrorFunctionString {
        id: Seq<char>,
        line: usize,
        col: usize,
        highlight: Seq<char>,
    },
    SemanticErrorWrongParInput {
        received_type: Seq<char>,
        first_highlight: Seq<char>,
        first_line: usize,
        first_col: usize,
        second_highlight: Seq<char>,
        second_line: usize,
        second_col: usize,
    },
    SemanticErrorWrongParOutputId {
        received_type: Seq<char>,
        first_highlight: Seq<char>,
        first_line: usize,
        first_col: usize,
        second_highlight: Seq<char>,
        second_line: usize,
        second_col: usize,
    },
    SemanticErrorWrongParOutputLit {
        received_type: Seq<char>,
        highlight: Seq<char>,
        line: usize,
        col: usize,
    },
    SemanticErrorWrrongParReturn {
        expected_type: Seq<char>,
        received_type: Seq<char>,
        line: usize,
        col: usize,
        highlight: Seq<char>,
    },
    SemanticErrorWrongParShift {
        received_value: i32,
        highlight: Seq<char>,
        line: usize,
        col: usize,
    },
}

impl View for CompilerError {
    type V = ErrorView;

    open spec fn view(&self) -> ErrorView {
        match self {
            CompilerError::SanityError(s) => ErrorView::SanityError(s@),
            CompilerError::IoReadFailure(_) => ErrorView::IoReadFailure,
            CompilerError::LexicalError(s) => ErrorView::LexicalError(s@),
            CompilerError::ParsingErrors(s) => ErrorView::ParsingErrors(s@),
            CompilerError::TreeBuildingError(s) => ErrorView::TreeBuildingError(s@),
            CompilerError::EvalParserFailure => ErrorView::EvalParserFailure,
            CompilerError::FailedScoping => ErrorView::FailedScoping,
            CompilerError::IlocErrorUndefinedBehavior(s) => ErrorView::IlocErrorUndefinedBehavior(s@),
            CompilerError::SemanticErrorUndeclared { id, line, col, highlight } => ErrorView::SemanticErrorUndeclared { id: id@, line: *line, col: *col, highlight: highlight@ },
            CompilerError::SemanticErrorDeclared { id, first_line, first_col, first_highlight, second_line, second_col, second_highlight } => ErrorView::SemanticErrorDeclared { id: id@, first_line: *first_line, first_col: *first_col, first_highlight: first_highlight@, second_line: *second_line, second_col: *second_col, second_highlight: second_highlight@ },
            CompilerError::SemanticErrorVariable { id, first_line, first_col, first_highlight, second_class, second_line, second_col, second_highlight } => ErrorView::SemanticErrorVariable { id: id@, first_line: *first_line, first_col: *first_col, first_highlight: first_highlight@, second_class: second_class@, second_line: *second_line, second_col: *second_col, second_highlight: second_highlight@ },
            CompilerError::SemanticErrorVector { id, first_line, first_col, first_highlight, second_class, second_line, second_col, second_highlight } => ErrorView::SemanticErrorVector { id: id@, first_line: *first_line, first_col: *first_col, first_highlight: first_highlight@, second_class: second_class@, second_line: *second_line, second_col: *second_col, second_highlight: second_highlight@ },
            CompilerError::SemanticErrorFunction { id, first_line, first_col, first_highlight, second_class, second_line, second_col, second_highlight } => ErrorView::SemanticErrorFunction { id: id@, first_line: *first_line, first_col: *first_col, first_highlight: first_highlight@, second_class: second_class@, second_line: *second_line, second_col: *second_col, second_highlight: second_highlight@ },
            CompilerError::SemanticErrorWrongType { valid_type, received_type, highlight, line, col } => ErrorView::SemanticErrorWrongType { valid_type: valid_type@, received_type: received_type@, highlight: highlight@, line: *line, col: *col },
            CompilerError::SemanticErrorStringToX { invalid_type, line, col, highlight } => ErrorView::SemanticErrorStringToX { invalid_type: invalid_type@, line: *line, col: *col, highlight: highlight@ },
            CompilerError::SemanticErrorCharToX { invalid_type, line, col, highlight } => ErrorView::SemanticErrorCharToX { invalid_type: invalid_type@, line: *line, col: *col, highlight: highlight@ },
            CompilerError::SemanticErrorStringMax { highlight, line, col, variable_size, string_size } => ErrorView::SemanticErrorStringMax { highlight: highlight@, line: *line, col: *col, variable_size: *variable_size, string_size: *string_size },
            CompilerError::SemanticErrorStringVector { id, line, col, highlight } => ErrorView::SemanticErrorStringVector { id: id@, line: *line, col: *col, highlight: highlight@ },
            CompilerError::SemanticErrorMissingArgs { id, first_line, first_col, first_highlight, second_line, second_col, second_highlight } => ErrorView::SemanticErrorMissingArgs { id: id@, first_line: *first_line, first_col: *first_col, first_highlight: first_highlight@, second_line: *second_line, second_col: *second_col, second_highlight: second_highlight@ },
            CompilerError::SemanticErrorExcessArgs { id, first_line, first_col, first_highlight, second_line, second_col, second_highlight } => ErrorView::SemanticErrorExcessArgs { id: id@, first_line: *first_line, first_col: *first_col, first_highlight: first_highlight@, second_line: *second_line, second_col: *second_col, second_highlight: second_highlight@ },
            CompilerError::SemanticErrorWrongTypeArgs { id, first_line, first_col, first_highlight, second_line, second_col, second_highlight } => ErrorView::SemanticErrorWrongTypeArgs { id: id@, first_line: *first_line, first_col: *first_col, first_highlight: first_highlight@, second_line: *second_line, second_col: *second_col, second_highlight: second_highlight@ },
            CompilerError::SemanticErrorFunctionString { id, line, col, highlight } => ErrorView::SemanticErrorFunctionString { id: id@, line: *line, col: *col, highlight: highlight@ },
            CompilerError::SemanticErrorWrongParInput { received_type, first_highlight, first_line, first_col, second_highlight, second_line, second_col } => ErrorView::SemanticErrorWrongParInput { received_type: received_type@, first_highlight: first_highlight@, first_line: *first_line, first_col: *first_col, second_highlight: second_highlight@, second_line: *second_line, second_col: *second_col },
            CompilerError::SemanticErrorWrongParOutputId { received_type, first_highlight, first_line, first_col, second_highlight, second_line, second_col } => ErrorView::SemanticErrorWrongParOutputId { received_type: received_type@, first_highlight: first_highlight@, first_line: *first_line, first_col: *first_col, second_highlight: second_highlight@, second_line: *second_line, second_col: *second_col },
            CompilerError::SemanticErrorWrongParOutputLit { received_type, highlight, line, col } => ErrorView::SemanticErrorWrongParOutputLit { received_type: received_type@, highlight: highlight@, line: *line, col: *col },
            CompilerError::SemanticErrorWrrongParReturn { expected_type, received_type, line, col, highlight } => ErrorView::SemanticErrorWrrongParReturn { expected_type: expected_type@, received_type: received_type@, line: *line, col: *col, highlight: highlight@ },
            CompilerError::SemanticErrorWrongParShift { received_value, highlight, line, col } => ErrorView::SemanticErrorWrongParShift { received_value: *received_value, highlight: highlight@, line: *line, col: *col },
        }
    }
}

/// The exit code of an error: 1 for the failures of the compiler itself
/// (input, parsing, tree building, scoping, code layout), and for semantic
/// errors a code whose tens digit names the family (10s: declarations,
/// 20s: misuse of an identifier's kind, 30s: types, 40s: calls,
/// 50s: commands).
pub open spec fn spec_error_code(e: CompilerError) -> i32 {
    match e {
        CompilerError::SanityError(_) => 1,
        CompilerError::IoReadFailure(_) => 1,
        CompilerError::LexicalError(_) => 1,
        CompilerError::ParsingErrors(_) => 1,
        CompilerError::TreeBuildingError(_) => 1,
        CompilerError::EvalParserFailure => 1,
        CompilerError::FailedScoping => 1,
        CompilerError::IlocErrorUndefinedBehavior(_) => 1,
        CompilerError::SemanticErrorUndeclared { .. } => 10,
        CompilerError::SemanticErrorDeclared { .. } => 11,
        CompilerError::SemanticErrorVariable { .. } => 20,
        CompilerError::SemanticErrorVector { .. } => 21,
        CompilerError::SemanticErrorFunction { .. } => 22,
        CompilerError::SemanticErrorWrongType { .. } => 30,
        CompilerError::SemanticErrorStringToX { .. } => 31,
        CompilerError::SemanticErrorCharToX { .. } => 32,
        CompilerError::SemanticErrorStringMax { .. } => 33,
        CompilerError::SemanticErrorStringVector { .. } => 34,
        CompilerError::SemanticErrorMissingArgs { .. } => 40,
        CompilerError::SemanticErrorExcessArgs { .. } => 41,
        CompilerError::SemanticErrorWrongTypeArgs { .. } => 42,
        CompilerError::SemanticErrorFunctionString { .. } => 43,
        CompilerError::SemanticErrorWrongParInput { .. } => 50,
        CompilerError::SemanticErrorWrongParOutputId { .. } => 51,
        CompilerError::SemanticErrorWrongParOutputLit { .. } => 51,
        CompilerError::SemanticErrorWrrongParReturn { .. } => 52,
        CompilerError::SemanticErrorWrongParShift { .. } => 53,
    }
}

impl CompilerError {
    /// The process exit code that reports this error.
    pub fn error_code(&self) -> (code: i32)
        ensures
            code == spec_error_code(*self),
    {
        match self {
            CompilerError::SanityError(_) => 1,
            CompilerError::IoReadFailure(_) => 1,
            CompilerError::LexicalError(_) => 1,
            CompilerError::ParsingErrors(_) => 1,
            CompilerError::TreeBuildingError(_) => 1,
            CompilerError::EvalParserFailure => 1,
            CompilerError::FailedScoping => 1,
            CompilerError::IlocErrorUndefinedBehavior(_) => 1,
            CompilerError::SemanticErrorUndeclared { .. } => 10,
            CompilerError::SemanticErrorDeclared { .. } => 11,
            CompilerError::SemanticErrorVariable { .. } => 20,
            CompilerError::SemanticErrorVector { .. } => 21,
            CompilerError::SemanticErrorFunction { .. } => 22,
            CompilerError::SemanticErrorWrongType { .. } => 30,
            CompilerError::SemanticErrorStringToX { .. } => 31,
            CompilerError::SemanticErrorCharToX { .. } => 32,
            CompilerError::SemanticErrorStringMax { .. } => 33,
            CompilerError::SemanticErrorStringVector { .. } => 34,
            CompilerError::SemanticErrorMissingArgs { .. } => 40,
            CompilerError::SemanticErrorExcessArgs { .. } => 41,
            CompilerError::SemanticErrorWrongTypeArgs { .. } => 42,
            CompilerError::SemanticErrorFunctionString { .. } => 43,
            CompilerError::SemanticErrorWrongParInput { .. } => 50,
            CompilerError::SemanticErrorWrongParOutputId { .. } => 51,
            CompilerError::SemanticErrorWrongParOutputLit { .. } => 51,
            CompilerError::SemanticErrorWrrongParReturn { .. } => 52,
            CompilerError::SemanticErrorWrongParShift { .. } => 53,
        }
    }
}

/// A compilation ends with exit code 0 exactly when it succeeded; every
/// error is reported with a nonzero code.
pub proof fn law_error_code_is_nonzero(e: CompilerError)
    ensures
        spec_error_code(e) != 0,
{
}

} // verus!
