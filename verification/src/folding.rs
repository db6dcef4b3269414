//! Constant folding of the operators of the language: the type that an
//! operation yields, what is known of its value, and the type errors that
//! it raises.
use vstd::prelude::*;

use crate::error::{CompilerError, ErrorView};
use crate::floats::{f64_is_zero, f64_truth};
use crate::semantics::{
    associated_type, association, bool_value, char_error, char_to_x, conversion_error, float_value,
    int_value, string_error, string_to_x, IntValue, SymbolType, TypeView,
};
use crate::text::{span_fits, SourceText, Span};

verus! {

/// The binary operators.
#[derive(Clone, Copy, Debug, PartialEq, Eq, Structural)]
pub enum BinaryType {
    BoolOr,
    BoolAnd,
    BitOr,
    BitXor,
    BitAnd,
    Equal,
    NotEqual,
    Lesser,
    Greater,
    LesserEqual,
    GreaterEqual,
    Add,
    Sub,
    Mult,
    Div,
    Mod,
}

/// The unary operators.
#[derive(Clone, Copy, Debug, PartialEq, Eq, Structural)]
pub enum UnaryType {
    Positive,
    Negative,
    Not,
    Boolean,
    Hash,
    Address,
    Pointer,
}

/// What folding a binary operation yields: a type with what is known of
/// its value, or an operation on two known doubles, whose result only
/// floating-point arithmetic gives.
#[derive(Debug)]
pub enum Folded {
    Known(SymbolType),
    FloatOperation(BinaryType, u64, u64),
}

/// A folded result, its type taken by its view.
pub enum FoldedView {
    Known(TypeView),
    FloatOperation(BinaryType, u64, u64),
}

impl View for Folded {
    type V = FoldedView;

    open spec fn view(&self) -> FoldedView {
        match self {
            Folded::Known(t) => FoldedView::Known(t@),
            Folded::FloatOperation(op, a, b) => FoldedView::FloatOperation(*op, *a, *b),
        }
    }
}

/// Whether the operator computes a number (rather than a truth value).
pub open spec fn is_arithmetic(op: BinaryType) -> bool {
    op is Add || op is Sub || op is Mult || op is Div || op is Mod
}

/// Integer division rounding toward zero, as Rust's `/` does.
pub open spec fn trunc_div(x: int, d: int) -> int {
    if x == 0 {
        0
    } else if x > 0 && d > 0 {
        x / d
    } else if x < 0 && d < 0 {
        (x * -1) / (d * -1)
    } else if x < 0 {
        ((x * -1) / d) * -1
    } else {
        (x / (d * -1)) * -1
    }
}

/// The remainder of the division rounding toward zero, as Rust's `%`
/// computes it: it has the sign of the dividend.
pub open spec fn trunc_rem(x: int, d: int) -> int {
    if x == 0 {
        0
    } else if x > 0 && d > 0 {
        x % d
    } else if x < 0 && d < 0 {
        ((x * -1) % (d * -1)) * -1
    } else if x < 0 {
        ((x * -1) % d) * -1
    } else {
        x % (d * -1)
    }
}

/// An arithmetic operator applied to two known integers as Rust's `i32`
/// arithmetic does, except that a zero divisor gives zero; `None` where
/// that arithmetic overflows.
pub open spec fn int_arithmetic(op: BinaryType, a: i32, b: i32) -> Option<i32> {
    let r: int = match op {
        BinaryType::Add => a + b,
        BinaryType::Sub => a - b,
        BinaryType::Mult => a * b,
        BinaryType::Div => if b == 0 { 0 } else { trunc_div(a as int, b as int) },
        _ => if b == 0 { 0 } else { trunc_rem(a as int, b as int) },
    };
    if i32::MIN <= r <= i32::MAX && !(op is Mod && a == i32::MIN && b == -1) {
        Some(r as i32)
    } else {
        None
    }
}

/// A comparison operator applied to two known integers.
pub open spec fn int_comparison(op: BinaryType, a: i32, b: i32) -> bool {
    match op {
        BinaryType::Equal => a == b,
        BinaryType::NotEqual => a != b,
        BinaryType::Lesser => a < b,
        BinaryType::Greater => a > b,
        BinaryType::LesserEqual => a <= b,
        _ => a >= b,
    }
}

/// A bitwise operator applied to two known integers.
pub open spec fn int_bitwise(op: BinaryType, a: i32, b: i32) -> i32 {
    match op {
        BinaryType::BitOr => a | b,
        BinaryType::BitXor => a ^ b,
        _ => a & b,
    }
}

/// The text of two strings added together, as far as it is known: an
/// unknown operand adds nothing.
pub open spec fn concatenation(l: SymbolType, r: SymbolType) -> Option<Seq<char>> {
    match (l, r) {
        (SymbolType::String(Some(a)), SymbolType::String(Some(b))) => Some(a@ + b@),
        (SymbolType::String(Some(a)), _) => Some(a@),
        (_, SymbolType::String(Some(b))) => Some(b@),
        _ => None,
    }
}

/// Whether folding the operation overflows `i32`, where Rust's arithmetic
/// panics: an arithmetic operator of integer type on two known integers.
pub open spec fn folding_overflows(op: BinaryType, l: SymbolType, r: SymbolType) -> bool {
    &&& is_arithmetic(op)
    &&& match association(l, r) {
        Some(SymbolType::Int(_)) | Some(SymbolType::Bool(_)) => match (int_value(l), int_value(r)) {
            (IntValue::Literal(a), IntValue::Literal(b)) => int_arithmetic(op, a, b) is None,
            _ => false,
        },
        _ => false,
    }
}

/// What a binary operation on operands of types (and values) `l` and `r`
/// yields. The logical operators take truth values and the bitwise ones
/// integers. The others take the type that the two operands associate
/// to: strings can only be added, characters take part in no operation,
/// integers and truth values fold to integers, and doubles to doubles; the
/// comparisons yield truth values. A value is known only when both operands
/// are; a division by zero folds to zero.
pub open spec fn binary_fold(op: BinaryType, l: SymbolType, r: SymbolType, src: Seq<char>, span: Span) -> Result<FoldedView, ErrorView> {
    match op {
        BinaryType::BoolOr | BinaryType::BoolAnd => match (
            conversion_error(l, "boolean"@, src, span),
            conversion_error(r, "boolean"@, src, span),
        ) {
            (Some(e), _) => Err(e),
            (None, Some(e)) => Err(e),
            (None, None) => Ok(FoldedView::Known(TypeView::Bool(match (bool_value(l), bool_value(r)) {
                (Some(a), Some(b)) => Some(if op is BoolOr { a || b } else { a && b }),
                _ => None,
            }))),
        },
        BinaryType::BitOr | BinaryType::BitXor | BinaryType::BitAnd => match (
            conversion_error(l, "int"@, src, span),
            conversion_error(r, "int"@, src, span),
        ) {
            (Some(e), _) => Err(e),
            (None, Some(e)) => Err(e),
            (None, None) => Ok(FoldedView::Known(match (int_value(l), int_value(r)) {
                (IntValue::Literal(a), IntValue::Literal(b)) => TypeView::Int(IntValue::Literal(int_bitwise(op, a, b))),
                _ => TypeView::Bool(None),
            })),
        },
        _ => match associated_type(l, r, src, span) {
            Err(e) => Err(e),
            Ok(SymbolType::String(_)) => if op is Add {
                Ok(FoldedView::Known(TypeView::String(concatenation(l, r))))
            } else {
                Err(string_error("int or float"@, src, span))
            },
            Ok(SymbolType::Char(_)) => Err(char_error("int or float"@, src, span)),
            Ok(SymbolType::Float(_)) => match (float_value(l), float_value(r)) {
                (Some(a), Some(b)) => if (op is Div || op is Mod) && f64_is_zero(b) {
                    Ok(FoldedView::Known(TypeView::Float(Some(0))))
                } else {
                    Ok(FoldedView::FloatOperation(op, a, b))
                },
                _ => Ok(FoldedView::Known(if is_arithmetic(op) { TypeView::Float(None) } else { TypeView::Bool(None) })),
            },
            Ok(_) => match (int_value(l), int_value(r)) {
                (IntValue::Literal(a), IntValue::Literal(b)) => Ok(FoldedView::Known(if is_arithmetic(op) {
                    TypeView::Int(IntValue::Literal(int_arithmetic(op, a, b)->Some_0))
                } else {
                    TypeView::Bool(Some(int_comparison(op, a, b)))
                })),
                _ => Ok(FoldedView::Known(if is_arithmetic(op) { TypeView::Int(IntValue::Undefined) } else { TypeView::Bool(None) })),
            },
        },
    }
}

/// What a unary operation on an operand of type (and value) `t` yields.
/// The sign operators leave numbers as they are and turn a truth value
/// into the integer of its sign (true is 1, or -1 when negated); `!` and
/// the truth operator yield the (negated) truth value; `#` yields an
/// integer of unknown value; `&` and `*` leave the operand as it is.
pub open spec fn unary_fold(op: UnaryType, t: SymbolType, src: Seq<char>, span: Span) -> Result<TypeView, ErrorView> {
    match op {
        UnaryType::Positive | UnaryType::Negative => match t {
            SymbolType::Int(_) | SymbolType::Float(_) => Ok(t@),
            SymbolType::Bool(Some(v)) => Ok(TypeView::Int(IntValue::Literal(
                if !v { 0i32 } else if op is Positive { 1i32 } else { -1i32 },
            ))),
            SymbolType::Bool(None) => Ok(TypeView::Int(IntValue::Undefined)),
            SymbolType::Char(_) => Err(char_error("int or float"@, src, span)),
            SymbolType::String(_) => Err(string_error("int or float"@, src, span)),
        },
        UnaryType::Not | UnaryType::Boolean => match t {
            SymbolType::Char(_) => Err(char_error("bool"@, src, span)),
            SymbolType::String(_) => Err(string_error("bool"@, src, span)),
            _ => Ok(TypeView::Bool(match bool_value(t) {
                Some(v) => Some(if op is Not { !v } else { v }),
                None => None,
            })),
        },
        UnaryType::Hash => Ok(TypeView::Int(IntValue::Undefined)),
        UnaryType::Address | UnaryType::Pointer => Ok(t@),
    }
}

/// Whether the operator computes a number (rather than a truth value).
fn computes_number(op: BinaryType) -> (r: bool)
    ensures
        r == is_arithmetic(op),
{
    match op {
        BinaryType::Add | BinaryType::Sub | BinaryType::Mult | BinaryType::Div | BinaryType::Mod => true,
        _ => false,
    }
}

/// An arithmetic operator applied to two known integers.
fn fold_int_arithmetic(op: BinaryType, a: i32, b: i32) -> (r: i32)
    requires
        is_arithmetic(op),
        int_arithmetic(op, a, b) is Some,
    ensures
        int_arithmetic(op, a, b) == Some(r),
{
    match op {
        BinaryType::Add => a + b,
        BinaryType::Sub => a - b,
        BinaryType::Mult => a * b,
        BinaryType::Div => if b == 0 {
            0
        } else {
            match a.checked_div(b) {
                Some(q) => q,
                None => 0,
            }
        },
        _ => if b == 0 {
            0
        } else {
            match a.checked_rem(b) {
                Some(q) => q,
                None => 0,
            }
        },
    }
}

/// A comparison operator applied to two known integers.
fn fold_int_comparison(op: BinaryType, a: i32, b: i32) -> (r: bool)
    ensures
        r == int_comparison(op, a, b),
{
    match op {
        BinaryType::Equal => a == b,
        BinaryType::NotEqual => a != b,
        BinaryType::Lesser => a < b,
        BinaryType::Greater => a > b,
        BinaryType::LesserEqual => a <= b,
        _ => a >= b,
    }
}

/// Whether an arithmetic operator overflows `i32` on two known integers.
fn int_arithmetic_overflows(op: BinaryType, a: i32, b: i32) -> (r: bool)
    requires
        is_arithmetic(op),
    ensures
        r == (int_arithmetic(op, a, b) is None),
{
    match op {
        BinaryType::Add => a.checked_add(b).is_none(),
        BinaryType::Sub => a.checked_sub(b).is_none(),
        BinaryType::Mult => a.checked_mul(b).is_none(),
        BinaryType::Div => b != 0 && a.checked_div(b).is_none(),
        _ => {
            proof {
                if b != 0 {
                    let x = a as int;
                    let d = b as int;
                    if x > 0 && d > 0 {
                        assert(0 <= x % d < d) by (nonlinear_arith) requires d > 0;
                    } else if x < 0 && d < 0 {
                        assert(0 <= (x * -1) % (d * -1) < d * -1) by (nonlinear_arith) requires d < 0;
                    } else if x < 0 {
                        assert(0 <= (x * -1) % d < d) by (nonlinear_arith) requires d > 0;
                    } else if x > 0 {
                        assert(0 <= x % (d * -1) < d * -1) by (nonlinear_arith) requires d < 0;
                    }
                }
            }
            b != 0 && a.checked_rem(b).is_none()
        },
    }
}

/// Whether folding the operation overflows `i32`, where Rust's integer
/// arithmetic panics: `binary_evaluation` takes exactly the operations on
/// which this is false.
pub fn binary_folding_overflows(op: BinaryType, left_value: &SymbolType, right_value: &SymbolType) -> (r: bool)
    ensures
        r == folding_overflows(op, *left_value, *right_value),
{
    if !computes_number(op) {
        return false;
    }
    match (known_integer(left_value), known_integer(right_value)) {
        (Some(a), Some(b)) => int_arithmetic_overflows(op, a, b),
        _ => false,
    }
}

/// The known integer value of an integer or truth value.
fn known_integer(t: &SymbolType) -> (r: Option<i32>)
    ensures
        r matches Some(v) ==> (*t is Int || *t is Bool) && int_value(*t) == IntValue::Literal(v),
        r is None ==> !(*t is Int || *t is Bool) || !(int_value(*t) is Literal),
{
    match t {
        SymbolType::Int(IntValue::Literal(v)) => Some(*v),
        SymbolType::Bool(Some(v)) => Some(if *v { 1 } else { 0 }),
        _ => None,
    }
}

/// Folds a binary operation on two operands: the type it yields and its
/// value where both operands are known, or the type error of the operands.
/// Where the value is an operation on two known doubles, that operation is
/// handed back for floating-point arithmetic to carry out.
pub fn binary_evaluation(op: BinaryType, left_value: SymbolType, right_value: SymbolType, span: Span, source: &SourceText) -> (r: Result<Folded, CompilerError>)
    requires
        span_fits(source@, span),
        !folding_overflows(op, left_value, right_value),
    ensures
        match binary_fold(op, left_value, right_value, source@, span) {
            Ok(v) => r matches Ok(f) && f@ == v,
            Err(e) => r matches Err(err) && err@ == e,
        },
{
    match op {
        BinaryType::BoolOr | BinaryType::BoolAnd => {
            let a = match left_value.to_bool(span, source) {
                Ok(a) => a,
                Err(e) => return Err(e),
            };
            let b = match right_value.to_bool(span, source) {
                Ok(b) => b,
                Err(e) => return Err(e),
            };
            match (a, b) {
                (Some(a), Some(b)) => {
                    let v = match op {
                        BinaryType::BoolOr => a || b,
                        _ => a && b,
                    };
                    Ok(Folded::Known(SymbolType::Bool(Some(v))))
                },
                _ => Ok(Folded::Known(SymbolType::Bool(None))),
            }
        },
        BinaryType::BitOr | BinaryType::BitXor | BinaryType::BitAnd => {
            let a = match left_value.to_int(span, source) {
                Ok(a) => a,
                Err(e) => return Err(e),
            };
            let b = match right_value.to_int(span, source) {
                Ok(b) => b,
                Err(e) => return Err(e),
            };
            match (a, b) {
                (IntValue::Literal(a), IntValue::Literal(b)) => {
                    let v = match op {
                        BinaryType::BitOr => a | b,
                        BinaryType::BitXor => a ^ b,
                        _ => a & b,
                    };
                    Ok(Folded::Known(SymbolType::Int(IntValue::Literal(v))))
                },
                _ => Ok(Folded::Known(SymbolType::Bool(None))),
            }
        },
        _ => {
            let associated = match left_value.associate_with(&right_value, span, source) {
                Ok(t) => t,
                Err(e) => return Err(e),
            };
            let arithmetic = computes_number(op);
            match associated {
                SymbolType::String(_) => match op {
                    BinaryType::Add => match (left_value, right_value) {
                        (SymbolType::String(Some(l)), SymbolType::String(Some(r))) => {
                            let mut text = l;
                            text.append(r.as_str());
                            Ok(Folded::Known(SymbolType::String(Some(text))))
                        },
                        (SymbolType::String(Some(l)), SymbolType::String(None)) => Ok(Folded::Known(SymbolType::String(Some(l)))),
                        (SymbolType::String(None), SymbolType::String(Some(r))) => Ok(Folded::Known(SymbolType::String(Some(r)))),
                        (SymbolType::String(None), SymbolType::String(None)) => Ok(Folded::Known(SymbolType::String(None))),
                        _ => Err(CompilerError::SanityError(
                            String::from_str("binary_evaluation() on BinaryType::Add found non (String, String)"),
                        )),
                    },
                    _ => Err(string_to_x("int or float", span, source)),
                },
                SymbolType::Char(_) => Err(char_to_x("int or float", span, source)),
                SymbolType::Float(_) => {
                    let a = match left_value.to_float(span, source) {
                        Ok(a) => a,
                        Err(e) => return Err(e),
                    };
                    let b = match right_value.to_float(span, source) {
                        Ok(b) => b,
                        Err(e) => return Err(e),
                    };
                    match (a, b) {
                        (Some(a), Some(b)) => {
                            let divides = match op {
                                BinaryType::Div | BinaryType::Mod => true,
                                _ => false,
                            };
                            if divides && !f64_truth(b) {
                                Ok(Folded::Known(SymbolType::Float(Some(0))))
                            } else {
                                Ok(Folded::FloatOperation(op, a, b))
                            }
                        },
                        _ => if arithmetic {
                            Ok(Folded::Known(SymbolType::Float(None)))
                        } else {
                            Ok(Folded::Known(SymbolType::Bool(None)))
                        },
                    }
                },
                _ => {
                    let a = match left_value.to_int(span, source) {
                        Ok(a) => a,
                        Err(e) => return Err(e),
                    };
                    let b = match right_value.to_int(span, source) {
                        Ok(b) => b,
                        Err(e) => return Err(e),
                    };
                    match (a, b) {
                        (IntValue::Literal(a), IntValue::Literal(b)) => if arithmetic {
                            Ok(Folded::Known(SymbolType::Int(IntValue::Literal(fold_int_arithmetic(op, a, b)))))
                        } else {
                            Ok(Folded::Known(SymbolType::Bool(Some(fold_int_comparison(op, a, b)))))
                        },
                        _ => if arithmetic {
                            Ok(Folded::Known(SymbolType::Int(IntValue::Undefined)))
                        } else {
                            Ok(Folded::Known(SymbolType::Bool(None)))
                        },
                    }
                },
            }
        },
    }
}

/// Folds a unary operation on an operand: the type it yields and what is
/// known of its value, or the type error of the operand.
pub fn unary_evaluation(op: UnaryType, type_value: SymbolType, span: Span, source: &SourceText) -> (r: Result<SymbolType, CompilerError>)
    requires
        span_fits(source@, span),
    ensures
        match unary_fold(op, type_value, source@, span) {
            Ok(v) => r matches Ok(t) && t@ == v,
            Err(e) => r matches Err(err) && err@ == e,
        },
{
    match op {
        UnaryType::Positive | UnaryType::Negative => match type_value {
            SymbolType::Int(_) | SymbolType::Float(_) => Ok(type_value),
            SymbolType::Bool(Some(v)) => {
                let n: i32 = if !v {
                    0
                } else {
                    match op {
                        UnaryType::Positive => 1,
                        _ => -1,
                    }
                };
                Ok(SymbolType::Int(IntValue::Literal(n)))
            },
            SymbolType::Bool(None) => Ok(SymbolType::Int(IntValue::Undefined)),
            SymbolType::Char(_) => Err(char_to_x("int or float", span, source)),
            SymbolType::String(_) => Err(string_to_x("int or float", span, source)),
        },
        UnaryType::Not | UnaryType::Boolean => match type_value {
            SymbolType::Char(_) => Err(char_to_x("bool", span, source)),
            SymbolType::String(_) => Err(string_to_x("bool", span, source)),
            _ => {
                let truth = match type_value.to_bool(span, source) {
                    Ok(t) => t,
                    Err(e) => return Err(e),
                };
                match truth {
                    Some(v) => {
                        let w = match op {
                            UnaryType::Not => !v,
                            _ => v,
                        };
                        Ok(SymbolType::Bool(Some(w)))
                    },
                    None => Ok(SymbolType::Bool(None)),
                }
            },
        },
        UnaryType::Hash => Ok(SymbolType::Int(IntValue::Undefined)),
        UnaryType::Address | UnaryType::Pointer => Ok(type_value),
    }
}

/// The logical operators and the comparisons fold to truth values; the
/// arithmetic operators to an integer when the operands associate to an
/// integer or a truth value, and to a double when they associate to a
/// double. The operation on two known doubles is the only one left to
/// floating-point arithmetic.
pub proof fn law_folded_types(op: BinaryType, l: SymbolType, r: SymbolType, src: Seq<char>, span: Span)
    ensures
        match binary_fold(op, l, r, src, span) {
            Ok(FoldedView::Known(v)) => {
                &&& (!is_arithmetic(op) && !(op is BitOr || op is BitXor || op is BitAnd)) ==> v is Bool
                &&& is_arithmetic(op) ==> match associated_type(l, r, src, span) {
                    Ok(t) => ((t is Int || t is Bool) ==> v is Int) && (t is Float ==> v is Float),
                    Err(_) => true,
                }
            },
            Ok(FoldedView::FloatOperation(o, a, b)) => {
                &&& o == op
                &&& associated_type(l, r, src, span) == Ok::<SymbolType, ErrorView>(SymbolType::Float(None))
                &&& float_value(l) == Some(a)
                &&& float_value(r) == Some(b)
            },
            Err(_) => true,
        },
{
}

/// Negating a truth value twice gives the truth value itself.
pub proof fn law_double_negation(t: SymbolType, src: Seq<char>, span: Span)
    ensures
        unary_fold(UnaryType::Not, t, src, span) matches Ok(TypeView::Bool(v))
            ==> unary_fold(UnaryType::Not, SymbolType::Bool(v), src, span) == unary_fold(UnaryType::Boolean, t, src, span),
{
}

} // verus!
