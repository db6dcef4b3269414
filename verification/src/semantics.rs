//! The values that the type rules work with: the types of symbols together
//! with what is known of their values, the kinds of symbol, the symbols of
//! the symbol table, and the conversions and combinations that the type
//! rules allow between them.
use vstd::prelude::*;

use crate::error::{CompilerError, ErrorView};
use crate::floats::{law_int_float_round_trip, f64_bits_from_i32, f64_bits_of_int, f64_is_zero, f64_to_i32, f64_to_i32_exec, f64_truth};
use crate::instructions::Register;
use crate::text::{locate, span_fits, span_highlight, span_text, start_col, start_line, SourceText, Span};

verus! {

/// What is known of an integer value: a literal, a place in memory (base
/// register and offset), a register holding it, or nothing.
#[derive(Clone, Copy, Debug)]
pub enum IntValue {
    Literal(i32),
    Memory(Register, u32),
    Temp(Register),
    Undefined,
}

/// The type of a symbol or expression, with its value when it is a known
/// constant. A floating-point value is held as the bits of a double.
#[derive(Debug)]
pub enum SymbolType {
    Int(IntValue),
    Float(Option<u64>),
    Char(Option<u8>),
    Bool(Option<bool>),
    String(Option<String>),
}

impl Clone for SymbolType {
    fn clone(&self) -> (r: Self)
        ensures
            r == *self,
    {
        match self {
            SymbolType::Int(v) => SymbolType::Int(*v),
            SymbolType::Float(v) => SymbolType::Float(*v),
            SymbolType::Char(v) => SymbolType::Char(*v),
            SymbolType::Bool(v) => SymbolType::Bool(*v),
            SymbolType::String(v) => SymbolType::String(
                match v {
                    Some(s) => Some(s.clone()),
                    None => None,
                },
            ),
        }
    }
}

/// A type with its known value, the text of a string as characters.
pub enum TypeView {
    Int(IntValue),
    Float(Option<u64>),
    Char(Option<u8>),
    Bool(Option<bool>),
    String(Option<Seq<char>>),
}

impl View for SymbolType {
    type V = TypeView;

    open spec fn view(&self) -> TypeView {
        match self {
            SymbolType::Int(v) => TypeView::Int(*v),
            SymbolType::Float(v) => TypeView::Float(*v),
            SymbolType::Char(v) => TypeView::Char(*v),
            SymbolType::Bool(v) => TypeView::Bool(*v),
            SymbolType::String(Some(s)) => TypeView::String(Some(s@)),
            SymbolType::String(None) => TypeView::String(None),
        }
    }
}

/// Two types are the same when they are of the same kind, whatever their
/// values.
pub open spec fn same_type(a: SymbolType, b: SymbolType) -> bool {
    match (a, b) {
        (SymbolType::Char(_), SymbolType::Char(_))
        | (SymbolType::Int(_), SymbolType::Int(_))
        | (SymbolType::Float(_), SymbolType::Float(_))
        | (SymbolType::Bool(_), SymbolType::Bool(_))
        | (SymbolType::String(_), SymbolType::String(_)) => true,
        _ => false,
    }
}

impl PartialEq for SymbolType {
    fn eq(&self, other: &Self) -> (r: bool) {
        match (self, other) {
            (SymbolType::Char(_), SymbolType::Char(_))
            | (SymbolType::Int(_), SymbolType::Int(_))
            | (SymbolType::Float(_), SymbolType::Float(_))
            | (SymbolType::Bool(_), SymbolType::Bool(_))
            | (SymbolType::String(_), SymbolType::String(_)) => true,
            _ => false,
        }
    }
}

impl vstd::std_specs::cmp::PartialEqSpecImpl for SymbolType {
    open spec fn obeys_eq_spec() -> bool {
        true
    }

    open spec fn eq_spec(&self, other: &Self) -> bool {
        same_type(*self, *other)
    }
}

/// The name of a type in the source language.
pub open spec fn type_word(t: SymbolType) -> Seq<char> {
    match t {
        SymbolType::Int(_) => "int"@,
        SymbolType::Float(_) => "float"@,
        SymbolType::Char(_) => "char"@,
        SymbolType::Bool(_) => "bool"@,
        SymbolType::String(_) => "string"@,
    }
}

/// The type that a type name declares, with no value known.
pub open spec fn declared_type(name: Seq<char>) -> Option<SymbolType> {
    if name == "int"@ {
        Some(SymbolType::Int(IntValue::Undefined))
    } else if name == "float"@ {
        Some(SymbolType::Float(None))
    } else if name == "bool"@ {
        Some(SymbolType::Bool(None))
    } else if name == "char"@ {
        Some(SymbolType::Char(None))
    } else if name == "string"@ {
        Some(SymbolType::String(None))
    } else {
        None
    }
}

/// The length in bytes of a text, as `str::len` reports it.
pub open spec fn string_byte_len(s: Seq<char>) -> usize {
    vstd::utf8::encode_utf8(s).len() as usize
}

/// The number of bytes that a value of the type takes: 1 for `char` and
/// `bool`, 4 for `int`, 8 for `float`, and for a string the length of its
/// known value (0 when unknown).
pub open spec fn type_size(t: SymbolType) -> u32 {
    match t {
        SymbolType::Char(_) => 1,
        SymbolType::Int(_) => 4,
        SymbolType::Float(_) => 8,
        SymbolType::Bool(_) => 1,
        SymbolType::String(Some(s)) => string_byte_len(s@) as u32,
        SymbolType::String(None) => 0,
    }
}

/// The error of converting a character to the type named `target`, at
/// `span`.
pub open spec fn char_error(target: Seq<char>, src: Seq<char>, span: Span) -> ErrorView {
    ErrorView::SemanticErrorCharToX {
        invalid_type: target,
        line: start_line(src, span),
        col: start_col(src, span),
        highlight: span_highlight(src, span),
    }
}

/// The error of converting a string to the type named `target`, at
/// `span`.
pub open spec fn string_error(target: Seq<char>, src: Seq<char>, span: Span) -> ErrorView {
    ErrorView::SemanticErrorStringToX {
        invalid_type: target,
        line: start_line(src, span),
        col: start_col(src, span),
        highlight: span_highlight(src, span),
    }
}

/// The error of converting a value of a character or string type to the
/// type named `target`, at `span`; `None` for the other types.
pub open spec fn conversion_error(t: SymbolType, target: Seq<char>, src: Seq<char>, span: Span) -> Option<ErrorView> {
    match t {
        SymbolType::Char(_) => Some(char_error(target, src, span)),
        SymbolType::String(_) => Some(string_error(target, src, span)),
        _ => None,
    }
}

/// The truth value of a known constant.
pub open spec fn bool_value(t: SymbolType) -> Option<bool> {
    match t {
        SymbolType::Bool(Some(v)) => Some(v),
        SymbolType::Int(IntValue::Literal(v)) => Some(v != 0),
        SymbolType::Float(Some(b)) => Some(!f64_is_zero(b)),
        _ => None,
    }
}

/// What is known of the value as an integer.
pub open spec fn int_value(t: SymbolType) -> IntValue {
    match t {
        SymbolType::Int(v) => v,
        SymbolType::Bool(Some(v)) => IntValue::Literal(if v { 1 } else { 0 }),
        SymbolType::Float(Some(b)) => IntValue::Literal(f64_to_i32(b)),
        _ => IntValue::Undefined,
    }
}

/// The value as a double, when it is a known constant.
pub open spec fn float_value(t: SymbolType) -> Option<u64> {
    match t {
        SymbolType::Float(Some(b)) => Some(b),
        SymbolType::Int(IntValue::Literal(v)) => Some(f64_bits_of_int(v as int)),
        SymbolType::Bool(Some(v)) => Some(f64_bits_of_int(if v { 1 } else { 0 })),
        _ => None,
    }
}

/// The type of an operation on operands of types `a` and `b`: numbers
/// combine to the wider of the two (`bool` below `int` below `float`), a
/// string only with a string and a char only with a char; otherwise the
/// error names the offending operand (the left one first).
pub open spec fn associated_type(a: SymbolType, b: SymbolType, src: Seq<char>, span: Span) -> Result<SymbolType, ErrorView> {
    match association(a, b) {
        Some(t) => Ok(t),
        None => match (a, b) {
            (SymbolType::String(_), _) => Err(string_error("int or float"@, src, span)),
            (SymbolType::Char(_), _) => Err(char_error("int or float"@, src, span)),
            (_, SymbolType::String(_)) => Err(string_error("int or float"@, src, span)),
            _ => Err(char_error("int or float"@, src, span)),
        },
    }
}

/// The type that operands of types `a` and `b` associate to, if they do.
pub open spec fn association(a: SymbolType, b: SymbolType) -> Option<SymbolType> {
    match (a, b) {
        (SymbolType::Int(_), SymbolType::Int(_)) => Some(SymbolType::Int(IntValue::Undefined)),
        (SymbolType::Float(_), SymbolType::Float(_)) => Some(SymbolType::Float(None)),
        (SymbolType::Bool(_), SymbolType::Bool(_)) => Some(SymbolType::Bool(None)),
        (SymbolType::Bool(_), SymbolType::Int(_))
        | (SymbolType::Int(_), SymbolType::Bool(_)) => Some(SymbolType::Int(IntValue::Undefined)),
        (SymbolType::Float(_), SymbolType::Int(_))
        | (SymbolType::Int(_), SymbolType::Float(_))
        | (SymbolType::Bool(_), SymbolType::Float(_))
        | (SymbolType::Float(_), SymbolType::Bool(_)) => Some(SymbolType::Float(None)),
        (SymbolType::String(_), SymbolType::String(_)) => Some(SymbolType::String(None)),
        (SymbolType::Char(_), SymbolType::Char(_)) => Some(SymbolType::Char(None)),
        _ => None,
    }
}

/// The error of converting a character to the type named `target`, at
/// `span`.
pub(crate) fn char_to_x(target: &str, span: Span, source: &SourceText) -> (e: CompilerError)
    requires
        span_fits(source@, span),
    ensures
        e@ == char_error(target@, source@, span),
{
    let (line, col, highlight) = locate(span, source);
    CompilerError::SemanticErrorCharToX { invalid_type: String::from_str(target), line, col, highlight }
}

/// The error of converting a string to the type named `target`, at
/// `span`.
pub(crate) fn string_to_x(target: &str, span: Span, source: &SourceText) -> (e: CompilerError)
    requires
        span_fits(source@, span),
    ensures
        e@ == string_error(target@, source@, span),
{
    let (line, col, highlight) = locate(span, source);
    CompilerError::SemanticErrorStringToX { invalid_type: String::from_str(target), line, col, highlight }
}

/// The error of assigning a value of type `received` where one of the type
/// named `valid` is needed, at `span`.
fn wrong_type(valid: &str, received: &SymbolType, span: Span, source: &SourceText) -> (e: CompilerError)
    requires
        span_fits(source@, span),
    ensures
        e@ == wrong_type_error(valid@, type_word(*received), source@, span),
{
    let (line, col, highlight) = locate(span, source);
    CompilerError::SemanticErrorWrongType {
        valid_type: String::from_str(valid),
        received_type: String::from_str(received.to_str()),
        highlight,
        line,
        col,
    }
}

impl SymbolType {
    /// The name of the type.
    pub fn to_str(&self) -> (r: &str)
        ensures
            r@ == type_word(*self),
    {
        match self {
            SymbolType::Int(_) => "int",
            SymbolType::Float(_) => "float",
            SymbolType::Char(_) => "char",
            SymbolType::Bool(_) => "bool",
            SymbolType::String(_) => "string",
        }
    }

    /// The type that a type name in a declaration stands for, with no value
    /// known; a lexical error for any other name.
    pub fn from_str(str_type: &str) -> (r: Result<SymbolType, CompilerError>)
        ensures
            match declared_type(str_type@) {
                Some(t) => r == Ok::<SymbolType, CompilerError>(t),
                None => r matches Err(e) && e@ == ErrorView::LexicalError(
                    "invalid type declaration: "@ + str_type@,
                ),
            },
    {
        let name = String::from_str(str_type);
        if name == String::from_str("int") {
            Ok(SymbolType::Int(IntValue::Undefined))
        } else if name == String::from_str("float") {
            Ok(SymbolType::Float(None))
        } else if name == String::from_str("bool") {
            Ok(SymbolType::Bool(None))
        } else if name == String::from_str("char") {
            Ok(SymbolType::Char(None))
        } else if name == String::from_str("string") {
            Ok(SymbolType::String(None))
        } else {
            let mut message = String::from_str("invalid type declaration: ");
            message.append(str_type);
            Err(CompilerError::LexicalError(message))
        }
    }

    /// The truth value of the type's constant value, if it has one; a
    /// character or string at `span` cannot be converted.
    pub fn to_bool(&self, span: Span, source: &SourceText) -> (r: Result<Option<bool>, CompilerError>)
        requires
            span_fits(source@, span),
        ensures
            match conversion_error(*self, "boolean"@, source@, span) {
                Some(e) => r matches Err(err) && err@ == e,
                None => r == Ok::<Option<bool>, CompilerError>(bool_value(*self)),
            },
    {
        match self {
            SymbolType::Bool(Some(value)) => Ok(Some(*value)),
            SymbolType::Int(IntValue::Literal(value)) => Ok(Some(*value != 0)),
            SymbolType::Float(Some(value)) => Ok(Some(f64_truth(*value))),
            SymbolType::Char(_) => Err(char_to_x("boolean", span, source)),
            SymbolType::String(_) => Err(string_to_x("boolean", span, source)),
            _ => Ok(None),
        }
    }

    /// What is known of the value as an integer; a character or string at
    /// `span` cannot be converted.
    pub fn to_int(&self, span: Span, source: &SourceText) -> (r: Result<IntValue, CompilerError>)
        requires
            span_fits(source@, span),
        ensures
            match conversion_error(*self, "int"@, source@, span) {
                Some(e) => r matches Err(err) && err@ == e,
                None => r == Ok::<IntValue, CompilerError>(int_value(*self)),
            },
    {
        match self {
            SymbolType::Int(int_type) => Ok(*int_type),
            SymbolType::Bool(Some(value)) => Ok(IntValue::Literal(if *value { 1 } else { 0 })),
            SymbolType::Float(Some(value)) => Ok(IntValue::Literal(f64_to_i32_exec(*value))),
            SymbolType::Char(_) => Err(char_to_x("int", span, source)),
            SymbolType::String(_) => Err(string_to_x("int", span, source)),
            _ => Ok(IntValue::Undefined),
        }
    }

    /// The value as a double, if it is a known constant; a character or
    /// string at `span` cannot be converted.
    pub fn to_float(&self, span: Span, source: &SourceText) -> (r: Result<Option<u64>, CompilerError>)
        requires
            span_fits(source@, span),
        ensures
            match conversion_error(*self, "float"@, source@, span) {
                Some(e) => r matches Err(err) && err@ == e,
                None => r == Ok::<Option<u64>, CompilerError>(float_value(*self)),
            },
    {
        match self {
            SymbolType::Float(Some(value)) => Ok(Some(*value)),
            SymbolType::Int(IntValue::Literal(value)) => Ok(Some(f64_bits_from_i32(*value))),
            SymbolType::Bool(Some(value)) => Ok(Some(f64_bits_from_i32(if *value { 1 } else { 0 }))),
            SymbolType::Char(_) => Err(char_to_x("float", span, source)),
            SymbolType::String(_) => Err(string_to_x("float", span, source)),
            _ => Ok(None),
        }
    }

    /// The type of an operation at `span` between a value of this type and
    /// one of type `friend`.
    pub fn associate_with(&self, friend: &SymbolType, span: Span, source: &SourceText) -> (r: Result<SymbolType, CompilerError>)
        requires
            span_fits(source@, span),
        ensures
            match associated_type(*self, *friend, source@, span) {
                Ok(t) => r == Ok::<SymbolType, CompilerError>(t),
                Err(e) => r matches Err(err) && err@ == e,
            },
    {
        match (self, friend) {
            (SymbolType::Int(_), SymbolType::Int(_)) => Ok(SymbolType::Int(IntValue::Undefined)),
            (SymbolType::Float(_), SymbolType::Float(_)) => Ok(SymbolType::Float(None)),
            (SymbolType::Bool(_), SymbolType::Bool(_)) => Ok(SymbolType::Bool(None)),
            (SymbolType::Bool(_), SymbolType::Int(_))
            | (SymbolType::Int(_), SymbolType::Bool(_)) => Ok(SymbolType::Int(IntValue::Undefined)),
            (SymbolType::Float(_), SymbolType::Int(_))
            | (SymbolType::Int(_), SymbolType::Float(_))
            | (SymbolType::Bool(_), SymbolType::Float(_))
            | (SymbolType::Float(_), SymbolType::Bool(_)) => Ok(SymbolType::Float(None)),
            (SymbolType::String(_), SymbolType::String(_)) => Ok(SymbolType::String(None)),
            (SymbolType::Char(_), SymbolType::Char(_)) => Ok(SymbolType::Char(None)),
            (SymbolType::String(_), _) => Err(string_to_x("int or float", span, source)),
            (SymbolType::Char(_), _) => Err(char_to_x("int or float", span, source)),
            (_, SymbolType::String(_)) => Err(string_to_x("int or float", span, source)),
            (_, SymbolType::Char(_)) => Err(char_to_x("int or float", span, source)),
        }
    }

    /// The number of bytes that a value of the type takes.
    pub fn get_symbol_type_size(&self) -> (r: u32)
        ensures
            r == type_size(*self),
    {
        match self {
            SymbolType::Char(_) => 1,
            SymbolType::Int(_) => 4,
            SymbolType::Float(_) => 8,
            SymbolType::Bool(_) => 1,
            SymbolType::String(maybe_string) => match maybe_string {
                Some(string) => #[verifier::truncate] (string.as_str().len() as u32),
                None => 0,
            },
        }
    }
}

/// A parameter in a function's declaration.
#[derive(Clone, Copy, Debug)]
pub struct Parameter {
    pub is_const: bool,
    pub param_type: Span,
    pub node_id: Span,
}

impl Parameter {
    /// The type that the parameter is declared with.
    pub fn get_symbol_type(&self, source: &SourceText) -> (r: Result<SymbolType, CompilerError>)
        requires
            span_fits(source@, self.param_type),
        ensures
            match declared_type(span_text(source@, self.param_type)) {
                Some(t) => r == Ok::<SymbolType, CompilerError>(t),
                None => r matches Err(e) && e@ == ErrorView::LexicalError(
                    "invalid type declaration: "@ + span_text(source@, self.param_type),
                ),
            },
    {
        let name = source.span_str(self.param_type);
        SymbolType::from_str(name.as_str())
    }
}

/// The kind of a symbol: a function (with its parameters), a variable
/// (global or not, with its offset), a vector (with its offset), or a
/// literal.
#[derive(Debug)]
pub enum SymbolClass {
    Fn(Vec<Parameter>),
    Var { is_global: bool, offset: u32 },
    Vec { offset: u32 },
    Lit,
}

pub(crate) fn copy_parameters(params: &Vec<Parameter>) -> (r: Vec<Parameter>)
    ensures
        r@ == params@,
{
    let mut r: Vec<Parameter> = Vec::new();
    let mut i: usize = 0;
    while i < params.len()
        invariant
            i <= params@.len(),
            r@ == params@.take(i as int),
        decreases params@.len() - i,
    {
        r.push(params[i]);
        i = i + 1;
        assert(r@ =~= params@.take(i as int));
    }
    assert(params@.take(i as int) =~= params@);
    r
}

/// A kind of symbol, with the parameters of a function as a sequence.
pub enum ClassView {
    Fn(Seq<Parameter>),
    Var { is_global: bool, offset: u32 },
    Vec { offset: u32 },
    Lit,
}

impl View for SymbolClass {
    type V = ClassView;

    open spec fn view(&self) -> ClassView {
        match self {
            SymbolClass::Fn(params) => ClassView::Fn(params@),
            SymbolClass::Var { is_global, offset } => ClassView::Var { is_global: *is_global, offset: *offset },
            SymbolClass::Vec { offset } => ClassView::Vec { offset: *offset },
            SymbolClass::Lit => ClassView::Lit,
        }
    }
}

impl Clone for SymbolClass {
    fn clone(&self) -> (r: Self)
        ensures
            r@ == self@,
    {
        match self {
            SymbolClass::Fn(params) => SymbolClass::Fn(copy_parameters(params)),
            SymbolClass::Var { is_global, offset } => SymbolClass::Var { is_global: *is_global, offset: *offset },
            SymbolClass::Vec { offset } => SymbolClass::Vec { offset: *offset },
            SymbolClass::Lit => SymbolClass::Lit,
        }
    }
}

/// Two kinds are the same when they are the same variant, whatever their
/// details.
pub open spec fn same_class(a: SymbolClass, b: SymbolClass) -> bool {
    match (a, b) {
        (SymbolClass::Fn(_), SymbolClass::Fn(_))
        | (SymbolClass::Var { .. }, SymbolClass::Var { .. })
        | (SymbolClass::Vec { .. }, SymbolClass::Vec { .. })
        | (SymbolClass::Lit, SymbolClass::Lit) => true,
        _ => false,
    }
}

impl PartialEq for SymbolClass {
    fn eq(&self, other: &Self) -> (r: bool) {
        match (self, other) {
            (SymbolClass::Fn(_), SymbolClass::Fn(_))
            | (SymbolClass::Var { .. }, SymbolClass::Var { .. })
            | (SymbolClass::Vec { .. }, SymbolClass::Vec { .. })
            | (SymbolClass::Lit, SymbolClass::Lit) => true,
            _ => false,
        }
    }
}

impl vstd::std_specs::cmp::PartialEqSpecImpl for SymbolClass {
    open spec fn obeys_eq_spec() -> bool {
        true
    }

    open spec fn eq_spec(&self, other: &Self) -> bool {
        same_class(*self, *other)
    }
}

/// The word for a kind of symbol in error messages.
pub open spec fn class_word(c: SymbolClass) -> Seq<char> {
    match c {
        SymbolClass::Fn(_) => "function"@,
        SymbolClass::Var { .. } => "variable"@,
        SymbolClass::Vec { .. } => "vector"@,
        SymbolClass::Lit => "literal"@,
    }
}

impl SymbolClass {
    /// A local variable at offset 0.
    pub fn default_var() -> (c: SymbolClass)
        ensures
            c == (SymbolClass::Var { is_global: false, offset: 0 }),
    {
        SymbolClass::Var { is_global: false, offset: 0 }
    }

    /// A vector at offset 0.
    pub fn default_vec() -> (c: SymbolClass)
        ensures
            c == (SymbolClass::Vec { offset: 0 }),
    {
        SymbolClass::Vec { offset: 0 }
    }

    /// The word for the kind in error messages.
    pub fn to_str(&self) -> (r: &str)
        ensures
            r@ == class_word(*self),
    {
        match self {
            SymbolClass::Fn(_) => "function",
            SymbolClass::Var { .. } => "variable",
            SymbolClass::Vec { .. } => "vector",
            SymbolClass::Lit => "literal",
        }
    }
}

/// A symbol as its definition introduces it.
#[derive(Debug)]
pub struct DefSymbol {
    pub id: String,
    pub span: Span,
    pub line: usize,
    pub col: usize,
    pub type_value: SymbolType,
    pub class: SymbolClass,
    pub size: Option<u32>,
    pub offset_source: Register,
    pub offset: u32,
}

/// What a defined symbol holds, its name as characters and its kind as a
/// view.
pub struct DefSymbolView {
    pub id: Seq<char>,
    pub span: Span,
    pub line: usize,
    pub col: usize,
    pub type_value: SymbolType,
    pub class: ClassView,
    pub size: Option<u32>,
    pub offset_source: Register,
    pub offset: u32,
}

impl View for DefSymbol {
    type V = DefSymbolView;

    open spec fn view(&self) -> DefSymbolView {
        DefSymbolView {
            id: self.id@,
            span: self.span,
            line: self.line,
            col: self.col,
            type_value: self.type_value,
            class: self.class@,
            size: self.size,
            offset_source: self.offset_source,
            offset: self.offset,
        }
    }
}

/// A symbol as a use of it records it.
#[derive(Debug)]
pub struct CallSymbol {
    pub id: String,
    pub span: Span,
    pub line: usize,
    pub col: usize,
    pub type_value: SymbolType,
    pub class: SymbolClass,
}

/// What assigning a value of type `friend` to a symbol makes of the symbol's
/// type and size, or the error that forbids it. A string takes a string
/// (when `check_string_size`, only one that fits in its declared size, and
/// then it keeps that size; otherwise it takes the size of the new value);
/// a char takes a char; a number or bool takes any number or bool,
/// converted to its own type; nothing else fits.
pub open spec fn cast_result(sym: DefSymbolView, friend: SymbolType, check_string_size: bool, src: Seq<char>, span: Span) -> Result<(SymbolType, Option<u32>), ErrorView> {
    match (sym.type_value, friend) {
        (SymbolType::String(_), SymbolType::String(None)) => Ok((friend, sym.size)),
        (SymbolType::String(_), SymbolType::String(Some(_))) => {
            let incoming = type_size(friend);
            let ours: u32 = match sym.size { Some(n) => n, None => 0 };
            if check_string_size && ours < incoming {
                Err(ErrorView::SemanticErrorStringMax {
                    highlight: span_highlight(src, span),
                    line: start_line(src, span),
                    col: start_col(src, span),
                    variable_size: ours,
                    string_size: incoming,
                })
            } else {
                Ok((sym.type_value, Some(if check_string_size { ours } else { incoming })))
            }
        },
        (SymbolType::String(_), _) => Err(wrong_type_error("string"@, type_word(friend), src, span)),
        (SymbolType::Char(_), SymbolType::Char(_)) => Ok((friend, sym.size)),
        (SymbolType::Char(_), _) => Err(wrong_type_error("char"@, type_word(friend), src, span)),
        (SymbolType::Float(_), SymbolType::Float(_))
        | (SymbolType::Float(_), SymbolType::Int(_))
        | (SymbolType::Float(_), SymbolType::Bool(_)) => Ok((SymbolType::Float(float_value(friend)), sym.size)),
        (SymbolType::Int(_), SymbolType::Float(_))
        | (SymbolType::Int(_), SymbolType::Int(_))
        | (SymbolType::Int(_), SymbolType::Bool(_)) => Ok((SymbolType::Int(int_value(friend)), sym.size)),
        (SymbolType::Bool(_), SymbolType::Float(_))
        | (SymbolType::Bool(_), SymbolType::Int(_))
        | (SymbolType::Bool(_), SymbolType::Bool(_)) => Ok((SymbolType::Bool(bool_value(friend)), sym.size)),
        (_, SymbolType::Char(_)) => Err(char_error(type_word(sym.type_value), src, span)),
        (_, SymbolType::String(_)) => Err(string_error(type_word(sym.type_value), src, span)),
    }
}

/// The error of assigning a value of the type named `received` where one
/// of the type named `valid` is needed, at `span`.
pub open spec fn wrong_type_error(valid: Seq<char>, received: Seq<char>, src: Seq<char>, span: Span) -> ErrorView {
    ErrorView::SemanticErrorWrongType {
        valid_type: valid,
        received_type: received,
        highlight: span_highlight(src, span),
        line: start_line(src, span),
        col: start_col(src, span),
    }
}

impl DefSymbol {
    pub fn new(
        id: String,
        span: Span,
        line: usize,
        col: usize,
        type_value: SymbolType,
        class: SymbolClass,
        size: Option<u32>,
        offset_source: Register,
        offset: u32,
    ) -> (s: DefSymbol)
        ensures
            s == (DefSymbol { id, span, line, col, type_value, class, size, offset_source, offset }),
    {
        DefSymbol { id, span, line, col, type_value, class, size, offset_source, offset }
    }

    /// A copy of the symbol with a new type and size.
    fn with_type(&self, type_value: SymbolType, size: Option<u32>) -> (s: DefSymbol)
        ensures
            s@ == (DefSymbolView { type_value, size, ..self@ }),
    {
        DefSymbol {
            id: self.id.clone(),
            span: self.span,
            line: self.line,
            col: self.col,
            type_value,
            class: self.class.clone(),
            size,
            offset_source: self.offset_source,
            offset: self.offset,
        }
    }

    /// The symbol as it stands after a value of type `friend` is assigned to
    /// it, or the error that forbids the assignment.
    pub fn cast_or_scream(&self, friend: &SymbolType, span: Span, source: &SourceText, check_string_size: bool) -> (r: Result<DefSymbol, CompilerError>)
        requires
            span_fits(source@, span),
        ensures
            match cast_result(self@, *friend, check_string_size, source@, span) {
                Ok((t, size)) => r matches Ok(d) && d@ == (DefSymbolView { type_value: t, size, ..self@ }),
                Err(e) => r matches Err(err) && err@ == e,
            },
    {
        match (&self.type_value, friend) {
            (SymbolType::String(_), SymbolType::String(None)) => Ok(self.with_type(friend.clone(), self.size)),
            (SymbolType::String(_), SymbolType::String(Some(_))) => {
                let incoming_size = friend.get_symbol_type_size();
                let our_size: u32 = match self.size { Some(n) => n, None => 0 };
                if check_string_size && our_size < incoming_size {
                    let (line, col, highlight) = locate(span, source);
                    Err(CompilerError::SemanticErrorStringMax {
                        highlight,
                        line,
                        col,
                        variable_size: our_size,
                        string_size: incoming_size,
                    })
                } else {
                    Ok(self.with_type(
                        self.type_value.clone(),
                        Some(if check_string_size { our_size } else { incoming_size }),
                    ))
                }
            },
            (SymbolType::String(_), _) => Err(wrong_type("string", friend, span, source)),
            (SymbolType::Char(_), SymbolType::Char(_)) => Ok(self.with_type(friend.clone(), self.size)),
            (SymbolType::Char(_), _) => Err(wrong_type("char", friend, span, source)),
            (SymbolType::Float(_), SymbolType::Float(_))
            | (SymbolType::Float(_), SymbolType::Int(_))
            | (SymbolType::Float(_), SymbolType::Bool(_)) => {
                let value = friend.to_float(span, source)?;
                Ok(self.with_type(SymbolType::Float(value), self.size))
            },
            (SymbolType::Int(_), SymbolType::Float(_))
            | (SymbolType::Int(_), SymbolType::Int(_))
            | (SymbolType::Int(_), SymbolType::Bool(_)) => {
                let value = friend.to_int(span, source)?;
                Ok(self.with_type(SymbolType::Int(value), self.size))
            },
            (SymbolType::Bool(_), SymbolType::Float(_))
            | (SymbolType::Bool(_), SymbolType::Int(_))
            | (SymbolType::Bool(_), SymbolType::Bool(_)) => {
                let value = friend.to_bool(span, source)?;
                Ok(self.with_type(SymbolType::Bool(value), self.size))
            },
            (_, SymbolType::Char(_)) => Err(char_to_x(self.type_value.to_str(), span, source)),
            (_, SymbolType::String(_)) => Err(string_to_x(self.type_value.to_str(), span, source)),
        }
    }
}

/// How the arguments of a call fail to fit the parameters of the function
/// called.
#[derive(Clone, Copy, Debug, PartialEq, Eq, Structural)]
pub enum ArgumentMismatch {
    /// Fewer arguments than parameters.
    Missing,
    /// More arguments than parameters.
    Excess,
    /// A string passed as an argument.
    StringArgument,
    /// A string parameter.
    StringParameter,
    /// A character passed for something else, or something else for a
    /// character.
    WrongType,
}

/// How the number of arguments of a call fails to fit the number of
/// parameters, if it does.
pub open spec fn arity_mismatch(args_num: nat, params_num: nat) -> Option<ArgumentMismatch> {
    if args_num < params_num {
        Some(ArgumentMismatch::Missing)
    } else if args_num > params_num {
        Some(ArgumentMismatch::Excess)
    } else {
        None
    }
}

/// How an argument of type `arg` fails to fit a parameter of type
/// `param`, if it does: no string can be passed, and a character fits only
/// a character; numbers and truth values fit one another.
pub open spec fn argument_mismatch(arg: SymbolType, param: SymbolType) -> Option<ArgumentMismatch> {
    match (arg, param) {
        (SymbolType::String(_), _) => Some(ArgumentMismatch::StringArgument),
        (_, SymbolType::String(_)) => Some(ArgumentMismatch::StringParameter),
        (SymbolType::Char(_), SymbolType::Char(_)) => None,
        (SymbolType::Char(_), _) | (_, SymbolType::Char(_)) => Some(ArgumentMismatch::WrongType),
        _ => None,
    }
}

/// Checks that a call passes as many arguments as the function has
/// parameters.
pub fn check_arity(args_num: usize, params_num: usize) -> (r: Result<(), ArgumentMismatch>)
    ensures
        match arity_mismatch(args_num as nat, params_num as nat) {
            Some(m) => r == Err::<(), ArgumentMismatch>(m),
            None => r is Ok,
        },
{
    if args_num < params_num {
        Err(ArgumentMismatch::Missing)
    } else if args_num > params_num {
        Err(ArgumentMismatch::Excess)
    } else {
        Ok(())
    }
}

/// Checks that an argument of type `arg_type` can be passed for a
/// parameter of type `param_type`.
pub fn check_argument(arg_type: &SymbolType, param_type: &SymbolType) -> (r: Result<(), ArgumentMismatch>)
    ensures
        match argument_mismatch(*arg_type, *param_type) {
            Some(m) => r == Err::<(), ArgumentMismatch>(m),
            None => r is Ok,
        },
{
    match (arg_type, param_type) {
        (SymbolType::String(_), _) => Err(ArgumentMismatch::StringArgument),
        (_, SymbolType::String(_)) => Err(ArgumentMismatch::StringParameter),
        (SymbolType::Char(_), SymbolType::Char(_)) => Ok(()),
        (SymbolType::Char(_), _) | (_, SymbolType::Char(_)) => Err(ArgumentMismatch::WrongType),
        _ => Ok(()),
    }
}

impl CallSymbol {
    pub fn new(
        id: String,
        span: Span,
        line: usize,
        col: usize,
        type_value: SymbolType,
        class: SymbolClass,
    ) -> (s: CallSymbol)
        ensures
            s == (CallSymbol { id, span, line, col, type_value, class }),
    {
        CallSymbol { id, span, line, col, type_value, class }
    }
}

/// The type that two operands associate to does not depend on their order.
pub proof fn law_association_is_symmetric(a: SymbolType, b: SymbolType, src: Seq<char>, span: Span)
    ensures
        associated_type(a, b, src, span) is Ok ==> associated_type(b, a, src, span) == associated_type(a, b, src, span),
        associated_type(a, b, src, span) is Ok <==> associated_type(b, a, src, span) is Ok,
{
}

/// Numbers associate to the wider of the two types, `bool` below `int`
/// below `float`.
pub proof fn law_numbers_widen(a: SymbolType, b: SymbolType, src: Seq<char>, span: Span)
    requires
        a is Int || a is Float || a is Bool,
        b is Int || b is Float || b is Bool,
    ensures
        associated_type(a, b, src, span) is Ok,
        associated_type(a, b, src, span)->Ok_0 is Float <==> (a is Float || b is Float),
        associated_type(a, b, src, span)->Ok_0 is Bool <==> (a is Bool && b is Bool),
        associated_type(a, b, src, span)->Ok_0 is Int <==> (!(a is Float || b is Float) && !(a is Bool && b is Bool)),
{
}

/// An assignment never changes the type of the symbol assigned to, only
/// what is known of its value (and, for a string, its size).
pub proof fn law_cast_keeps_type(sym: DefSymbolView, friend: SymbolType, check_string_size: bool, src: Seq<char>, span: Span)
    ensures
        cast_result(sym, friend, check_string_size, src, span) matches Ok((t, _)) ==> same_type(t, sym.type_value),
{
}

/// A value of the symbol's own type can always be assigned to it, but for
/// a string that does not fit the declared size; numbers and truth values
/// can be assigned to one another.
pub proof fn law_cast_of_compatible_type_succeeds(sym: DefSymbolView, friend: SymbolType, check_string_size: bool, src: Seq<char>, span: Span)
    requires
        same_type(sym.type_value, friend)
            || ((sym.type_value is Int || sym.type_value is Float || sym.type_value is Bool)
                && (friend is Int || friend is Float || friend is Bool)),
        (sym.type_value is String && check_string_size && (friend matches SymbolType::String(Some(_))))
            ==> type_size(friend) <= match sym.size { Some(n) => n, None => 0u32 },
    ensures
        cast_result(sym, friend, check_string_size, src, span) is Ok,
{
}

/// A known integer promoted to a double keeps its value and its truth
/// value: converting it back gives the integer again.
pub proof fn law_promotion_keeps_integers(v: i32)
    ensures
        int_value(SymbolType::Float(float_value(SymbolType::Int(IntValue::Literal(v))))) == IntValue::Literal(v),
        bool_value(SymbolType::Float(float_value(SymbolType::Int(IntValue::Literal(v)))))
            == bool_value(SymbolType::Int(IntValue::Literal(v))),
{
    law_int_float_round_trip(v);
}

} // verus!
