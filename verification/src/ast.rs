//! The syntax tree of a program and its evaluation: the semantic checks of
//! each node against the scoped symbol table, the folding of constant
//! expressions, and the code that the nodes generate.
use vstd::prelude::*;

use crate::decimal::{decimal_i32, nat_text, parse_i32, push_nat};
use crate::error::{CompilerError, ErrorView};
use crate::folding::{
    binary_evaluation, binary_fold, binary_folding_overflows, folding_overflows, is_arithmetic, unary_evaluation, unary_fold,
    BinaryType, Folded, FoldedView, UnaryType,
};
use crate::instructions::{after_call, after_calls, collected_code, fresh_buffer, BufferCall, CodeLine, IlocCode, IlocCodeModel, Instruction, Label, Operation, Register};
use crate::scope::{
    current_scope_type, symbol_fits, define_in_top, fresh_scope, lookup, misuse_error, push_in_top, redeclared_error, spans_fit,
    undeclared_error, ScopeModel, ScopeStack, ScopeStackModel,
};
use crate::semantics::{
    DefSymbolView, TypeView,
    argument_mismatch, arity_mismatch, associated_type, cast_result, bool_value, conversion_error, check_argument, check_arity, declared_type, same_class, type_size, type_word,
    ArgumentMismatch, CallSymbol, ClassView, DefSymbol, IntValue, Parameter, SymbolClass, SymbolType,
};
use crate::text::{
    lemma_span_ends, range_fits, locate, span_fits, span_highlight, span_text, start_col, start_line, SourceText, Span,
};
use vstd::utf8::encode_utf8;

verus! {

/// A node of the syntax tree. Each node is identified by the span of its
/// token, and a command may be followed by the next command of its block.
pub enum AstNode {
    /// A global variable declaration: its type, its name.
    GlobalVarDef { is_static: bool, var_type: Span, node_id: Span, next: Option<Box<AstNode>> },
    /// A global vector declaration: its type, its name and the integer
    /// literal of its size.
    GlobalVecDef { is_static: bool, var_type: Span, node_id: Span, vec_size: Span, next: Option<Box<AstNode>> },
    /// The use of a variable.
    VarInvoke { node_id: Span, next: Option<Box<AstNode>> },
    /// An integer literal.
    LiteralInt { node_id: Span, next: Option<Box<AstNode>> },
    /// A boolean literal.
    LiteralBool { node_id: Span, next: Option<Box<AstNode>> },
    /// A call of a function with its arguments.
    FnCall { node_id: Span, args: Vec<AstNode>, next: Option<Box<AstNode>> },
    /// A binary operation.
    Binary { node_id: Span, op_type: BinaryType, lhs: Box<AstNode>, rhs: Box<AstNode>, next: Option<Box<AstNode>> },
    /// A unary operation.
    Unary { node_id: Span, op_type: UnaryType, operand: Box<AstNode>, next: Option<Box<AstNode>> },
    /// A function definition: its return type, its name, its parameters and
    /// its body.
    FnDef {
        is_static: bool,
        return_type: Span,
        node_id: Span,
        params: Vec<Parameter>,
        first_command: Option<Box<AstNode>>,
        next: Option<Box<AstNode>>,
    },
    /// A local variable declaration.
    LocalVarDef { is_static: bool, is_const: bool, var_type: Span, node_id: Span, is_tree_node: bool, next: Option<Box<AstNode>> },
    /// A `return` of a value from the function being compiled.
    Return { node_id: Span, ret_value: Box<AstNode>, next: Option<Box<AstNode>> },
    /// A `continue`.
    Continue { node_id: Span, next: Option<Box<AstNode>> },
    /// A `break`.
    Break { node_id: Span, next: Option<Box<AstNode>> },
    /// An `if` without `else`.
    If { node_id: Span, condition: Box<AstNode>, consequence: Box<AstNode>, next: Option<Box<AstNode>> },
    /// An `if` with `else`.
    IfElse { node_id: Span, condition: Box<AstNode>, if_true: Box<AstNode>, if_false: Box<AstNode>, next: Option<Box<AstNode>> },
    /// A `while` loop.
    While { node_id: Span, condition: Box<AstNode>, consequence: Box<AstNode>, next: Option<Box<AstNode>> },
    /// The use of a vector as a whole.
    VecInvoke { node_id: Span, next: Option<Box<AstNode>> },
    /// A character literal, quotes included.
    LiteralChar { node_id: Span, next: Option<Box<AstNode>> },
    /// A string literal, quotes included.
    LiteralString { node_id: Span, next: Option<Box<AstNode>> },
    /// An assignment of a value to a variable.
    VarSet { node_id: Span, var_name: Box<AstNode>, new_value: Box<AstNode>, next: Option<Box<AstNode>> },
    /// A conditional expression `c ? a : b`.
    Ternary {
        left_span: Span,
        right_span: Span,
        condition: Box<AstNode>,
        if_true: Box<AstNode>,
        if_false: Box<AstNode>,
        next: Option<Box<AstNode>>,
    },
    /// A local declaration initialised with a literal.
    VarDefInitLit { node_id: Span, var_def: Box<AstNode>, var_value: Box<AstNode>, next: Option<Box<AstNode>> },
    /// A local declaration initialised with the value of a variable.
    VarDefInitId { node_id: Span, var_def: Box<AstNode>, var_value: Box<AstNode>, next: Option<Box<AstNode>> },
    /// A `for` loop.
    For {
        node_id: Span,
        count_init: Box<AstNode>,
        count_check: Box<AstNode>,
        count_iter: Box<AstNode>,
        actions: Box<AstNode>,
        next: Option<Box<AstNode>>,
    },
    /// A left shift of a variable by a literal amount.
    VarLeftShift { node_id: Span, var_name: Box<AstNode>, shift_amount: Box<AstNode>, next: Option<Box<AstNode>> },
    /// A right shift of a variable by a literal amount.
    VarRightShift { node_id: Span, var_name: Box<AstNode>, shift_amount: Box<AstNode>, next: Option<Box<AstNode>> },
    /// An `input` command reading into a variable.
    Input { node_id: Span, var_name: Box<AstNode>, next: Option<Box<AstNode>> },
    /// An `output` command writing a variable.
    OutputId { node_id: Span, var_name: Box<AstNode>, next: Option<Box<AstNode>> },
    /// A block of commands, which opens a scope.
    CommandBlock { node_id: Span, first_command: Option<Box<AstNode>>, next: Option<Box<AstNode>> },
}

impl AstNode {
    /// The span of the node's token.
    pub open spec fn id(self) -> Span {
        match self {
            AstNode::GlobalVarDef { node_id, .. } => node_id,
            AstNode::GlobalVecDef { node_id, .. } => node_id,
            AstNode::VarInvoke { node_id, .. } => node_id,
            AstNode::LiteralInt { node_id, .. } => node_id,
            AstNode::LiteralBool { node_id, .. } => node_id,
            AstNode::FnCall { node_id, .. } => node_id,
            AstNode::Binary { node_id, .. } => node_id,
            AstNode::Unary { node_id, .. } => node_id,
            AstNode::FnDef { node_id, .. } => node_id,
            AstNode::LocalVarDef { node_id, .. } => node_id,
            AstNode::Return { node_id, .. } => node_id,
            AstNode::Continue { node_id, .. } => node_id,
            AstNode::Break { node_id, .. } => node_id,
            AstNode::If { node_id, .. } => node_id,
            AstNode::IfElse { node_id, .. } => node_id,
            AstNode::While { node_id, .. } => node_id,
            AstNode::VecInvoke { node_id, .. } => node_id,
            AstNode::LiteralChar { node_id, .. } => node_id,
            AstNode::LiteralString { node_id, .. } => node_id,
            AstNode::VarSet { node_id, .. } => node_id,
            AstNode::Ternary { left_span, .. } => left_span,
            AstNode::VarDefInitLit { node_id, .. } => node_id,
            AstNode::VarDefInitId { node_id, .. } => node_id,
            AstNode::For { node_id, .. } => node_id,
            AstNode::VarLeftShift { node_id, .. } => node_id,
            AstNode::VarRightShift { node_id, .. } => node_id,
            AstNode::Input { node_id, .. } => node_id,
            AstNode::OutputId { node_id, .. } => node_id,
            AstNode::CommandBlock { node_id, .. } => node_id,
        }
    }

    /// The node that follows this one, if any.
    pub open spec fn next_node(self) -> Option<Box<AstNode>> {
        match self {
            AstNode::GlobalVarDef { next, .. } => next,
            AstNode::GlobalVecDef { next, .. } => next,
            AstNode::VarInvoke { next, .. } => next,
            AstNode::LiteralInt { next, .. } => next,
            AstNode::LiteralBool { next, .. } => next,
            AstNode::FnCall { next, .. } => next,
            AstNode::Binary { next, .. } => next,
            AstNode::Unary { next, .. } => next,
            AstNode::FnDef { next, .. } => next,
            AstNode::LocalVarDef { next, .. } => next,
            AstNode::Return { next, .. } => next,
            AstNode::Continue { next, .. } => next,
            AstNode::Break { next, .. } => next,
            AstNode::If { next, .. } => next,
            AstNode::IfElse { next, .. } => next,
            AstNode::While { next, .. } => next,
            AstNode::VecInvoke { next, .. } => next,
            AstNode::LiteralChar { next, .. } => next,
            AstNode::LiteralString { next, .. } => next,
            AstNode::VarSet { next, .. } => next,
            AstNode::Ternary { next, .. } => next,
            AstNode::VarDefInitLit { next, .. } => next,
            AstNode::VarDefInitId { next, .. } => next,
            AstNode::For { next, .. } => next,
            AstNode::VarLeftShift { next, .. } => next,
            AstNode::VarRightShift { next, .. } => next,
            AstNode::Input { next, .. } => next,
            AstNode::OutputId { next, .. } => next,
            AstNode::CommandBlock { next, .. } => next,
        }
    }

    /// The span of the node's token.
    pub fn get_id(&self) -> (r: Span)
        ensures
            r == self.id(),
    {
        match self {
            AstNode::GlobalVarDef { node_id, .. } => *node_id,
            AstNode::GlobalVecDef { node_id, .. } => *node_id,
            AstNode::VarInvoke { node_id, .. } => *node_id,
            AstNode::LiteralInt { node_id, .. } => *node_id,
            AstNode::LiteralBool { node_id, .. } => *node_id,
            AstNode::FnCall { node_id, .. } => *node_id,
            AstNode::Binary { node_id, .. } => *node_id,
            AstNode::Unary { node_id, .. } => *node_id,
            AstNode::FnDef { node_id, .. } => *node_id,
            AstNode::LocalVarDef { node_id, .. } => *node_id,
            AstNode::Return { node_id, .. } => *node_id,
            AstNode::Continue { node_id, .. } => *node_id,
            AstNode::Break { node_id, .. } => *node_id,
            AstNode::If { node_id, .. } => *node_id,
            AstNode::IfElse { node_id, .. } => *node_id,
            AstNode::While { node_id, .. } => *node_id,
            AstNode::VecInvoke { node_id, .. } => *node_id,
            AstNode::LiteralChar { node_id, .. } => *node_id,
            AstNode::LiteralString { node_id, .. } => *node_id,
            AstNode::VarSet { node_id, .. } => *node_id,
            AstNode::Ternary { left_span, .. } => *left_span,
            AstNode::VarDefInitLit { node_id, .. } => *node_id,
            AstNode::VarDefInitId { node_id, .. } => *node_id,
            AstNode::For { node_id, .. } => *node_id,
            AstNode::VarLeftShift { node_id, .. } => *node_id,
            AstNode::VarRightShift { node_id, .. } => *node_id,
            AstNode::Input { node_id, .. } => *node_id,
            AstNode::OutputId { node_id, .. } => *node_id,
            AstNode::CommandBlock { node_id, .. } => *node_id,
        }
    }
}

/// Whether every span of the tree can be asked of the source.
pub open spec fn node_spans_fit(n: AstNode, src: Seq<char>) -> bool
    decreases n,
{
    &&& span_fits(src, n.id())
    &&& match n {
        AstNode::GlobalVarDef { var_type, next, .. } => span_fits(src, var_type) && next_fits(next, src),
        AstNode::GlobalVecDef { var_type, vec_size, next, .. } => {
            &&& span_fits(src, var_type)
            &&& span_fits(src, vec_size)
            &&& var_type.start() <= vec_size.end() + 1 ==> range_fits(src, var_type.start() as int, vec_size.end() + 1)
            &&& next_fits(next, src)
        },
        AstNode::VarInvoke { next, .. } => next_fits(next, src),
        AstNode::LiteralInt { next, .. } => next_fits(next, src),
        AstNode::LiteralBool { next, .. } => next_fits(next, src),
        AstNode::FnCall { args, next, .. } => args_fit(args@, src) && next_fits(next, src),
        AstNode::Binary { lhs, rhs, next, .. } => node_spans_fit(*lhs, src) && node_spans_fit(*rhs, src) && next_fits(next, src),
        AstNode::Unary { operand, next, .. } => node_spans_fit(*operand, src) && next_fits(next, src),
        AstNode::FnDef { return_type, params, first_command, next, .. } => {
            &&& span_fits(src, return_type)
            &&& params.len() < 0x1000_0000
            &&& forall|i: int| 0 <= i < params.len()
                ==> span_fits(src, #[trigger] params@[i].param_type) && span_fits(src, params@[i].node_id)
            &&& next_fits(first_command, src)
            &&& next_fits(next, src)
        },
        AstNode::LocalVarDef { var_type, next, .. } => span_fits(src, var_type) && next_fits(next, src),
        AstNode::Return { ret_value, next, .. } => node_spans_fit(*ret_value, src) && next_fits(next, src),
        AstNode::Continue { next, .. } => next_fits(next, src),
        AstNode::Break { next, .. } => next_fits(next, src),
        AstNode::If { condition, consequence, next, .. } =>
            node_spans_fit(*condition, src) && node_spans_fit(*consequence, src) && next_fits(next, src),
        AstNode::IfElse { condition, if_true, if_false, next, .. } => node_spans_fit(*condition, src)
            && node_spans_fit(*if_true, src) && node_spans_fit(*if_false, src) && next_fits(next, src),
        AstNode::While { condition, consequence, next, .. } =>
            node_spans_fit(*condition, src) && node_spans_fit(*consequence, src) && next_fits(next, src),
        AstNode::VecInvoke { next, .. } => next_fits(next, src),
        AstNode::LiteralChar { next, .. } => next_fits(next, src),
        AstNode::LiteralString { next, .. } => next_fits(next, src),
        AstNode::VarSet { var_name, new_value, next, .. } =>
            node_spans_fit(*var_name, src) && node_spans_fit(*new_value, src) && next_fits(next, src),
        AstNode::Ternary { right_span, condition, if_true, if_false, next, .. } => span_fits(src, right_span)
            && node_spans_fit(*condition, src) && node_spans_fit(*if_true, src) && node_spans_fit(*if_false, src)
            && next_fits(next, src),
        AstNode::VarDefInitLit { var_def, var_value, next, .. } | AstNode::VarDefInitId { var_def, var_value, next, .. } =>
            node_spans_fit(*var_def, src) && node_spans_fit(*var_value, src) && next_fits(next, src),
        AstNode::For { count_init, count_check, count_iter, actions, next, .. } => node_spans_fit(*count_init, src)
            && node_spans_fit(*count_check, src) && node_spans_fit(*count_iter, src) && node_spans_fit(*actions, src)
            && next_fits(next, src),
        AstNode::VarLeftShift { var_name, shift_amount, next, .. } | AstNode::VarRightShift { var_name, shift_amount, next, .. } =>
            node_spans_fit(*var_name, src) && node_spans_fit(*shift_amount, src) && next_fits(next, src),
        AstNode::Input { var_name, next, .. } | AstNode::OutputId { var_name, next, .. } =>
            node_spans_fit(*var_name, src) && next_fits(next, src),
        AstNode::CommandBlock { first_command, next, .. } => next_fits(first_command, src) && next_fits(next, src),
    }
}

/// Whether a tree holds a function definition (the only node that writes
/// code).
pub open spec fn defines_functions(n: AstNode) -> bool
    decreases n,
{
    match n {
        AstNode::FnDef { .. } => true,
        AstNode::GlobalVarDef { next, .. } => next_defines(next),
        AstNode::GlobalVecDef { next, .. } => next_defines(next),
        AstNode::VarInvoke { next, .. } => next_defines(next),
        AstNode::LiteralInt { next, .. } => next_defines(next),
        AstNode::LiteralBool { next, .. } => next_defines(next),
        AstNode::FnCall { args, next, .. } => args_define(args@) || next_defines(next),
        AstNode::Binary { lhs, rhs, next, .. } => defines_functions(*lhs) || defines_functions(*rhs) || next_defines(next),
        AstNode::Unary { operand, next, .. } => defines_functions(*operand) || next_defines(next),
        AstNode::LocalVarDef { next, .. } => next_defines(next),
        AstNode::Return { ret_value, next, .. } => defines_functions(*ret_value) || next_defines(next),
        AstNode::Continue { next, .. } => next_defines(next),
        AstNode::Break { next, .. } => next_defines(next),
        AstNode::If { condition, consequence, next, .. } =>
            defines_functions(*condition) || defines_functions(*consequence) || next_defines(next),
        AstNode::IfElse { condition, if_true, if_false, next, .. } => defines_functions(*condition)
            || defines_functions(*if_true) || defines_functions(*if_false) || next_defines(next),
        AstNode::While { condition, consequence, next, .. } =>
            defines_functions(*condition) || defines_functions(*consequence) || next_defines(next),
        AstNode::VecInvoke { next, .. } => next_defines(next),
        AstNode::LiteralChar { next, .. } => next_defines(next),
        AstNode::LiteralString { next, .. } => next_defines(next),
        AstNode::VarSet { var_name, new_value, next, .. } =>
            defines_functions(*var_name) || defines_functions(*new_value) || next_defines(next),
        AstNode::Ternary { condition, if_true, if_false, next, .. } => defines_functions(*condition)
            || defines_functions(*if_true) || defines_functions(*if_false) || next_defines(next),
        AstNode::VarDefInitLit { var_def, var_value, next, .. } | AstNode::VarDefInitId { var_def, var_value, next, .. } =>
            defines_functions(*var_def) || defines_functions(*var_value) || next_defines(next),
        AstNode::For { count_init, count_check, count_iter, actions, next, .. } => defines_functions(*count_init)
            || defines_functions(*count_check) || defines_functions(*count_iter) || defines_functions(*actions)
            || next_defines(next),
        AstNode::VarLeftShift { var_name, shift_amount, next, .. } | AstNode::VarRightShift { var_name, shift_amount, next, .. } =>
            defines_functions(*var_name) || defines_functions(*shift_amount) || next_defines(next),
        AstNode::Input { var_name, next, .. } | AstNode::OutputId { var_name, next, .. } =>
            defines_functions(*var_name) || next_defines(next),
        AstNode::CommandBlock { first_command, next, .. } => next_defines(first_command) || next_defines(next),
    }
}

/// Whether an optional node holds a function definition.
pub open spec fn next_defines(n: Option<Box<AstNode>>) -> bool
    decreases n,
{
    match n {
        Some(b) => defines_functions(*b),
        None => false,
    }
}

/// Whether one of a list of nodes holds a function definition.
pub open spec fn args_define(args: Seq<AstNode>) -> bool
    decreases args,
{
    if args.len() == 0 {
        false
    } else {
        defines_functions(args.last()) || args_define(args.drop_last())
    }
}

/// Whether the spans of an optional node fit the source.
pub open spec fn next_fits(n: Option<Box<AstNode>>, src: Seq<char>) -> bool
    decreases n,
{
    match n {
        Some(b) => node_spans_fit(*b, src),
        None => true,
    }
}

/// Whether the spans of a list of nodes fit the source.
pub open spec fn args_fit(args: Seq<AstNode>, src: Seq<char>) -> bool
    decreases args,
{
    if args.len() == 0 {
        true
    } else {
        node_spans_fit(args.last(), src) && args_fit(args.drop_last(), src)
    }
}


/// The scopes of a stack model.
proof fn lemma_fit_opened(m: ScopeStackModel, n: ScopeStackModel, t: Option<SymbolType>, src: Seq<char>)
    requires
        spans_fit(m, src),
        n.scopes == m.scopes.push(fresh_scope(t)),
    ensures
        spans_fit(n, src),
{
    assert forall|k: int, id: Seq<char>| 0 <= k < n.scopes.len() && #[trigger] n.scopes[k].defs.contains_key(id)
        implies symbol_fits(src, n.scopes[k].defs[id]) by {
        if k < m.scopes.len() {
            assert(n.scopes[k] == m.scopes[k]);
        }
    }
}

proof fn lemma_fit_closed(m: ScopeStackModel, n: ScopeStackModel, src: Seq<char>)
    requires
        spans_fit(m, src),
        m.scopes.len() > 0,
        n.scopes == m.scopes.drop_last(),
    ensures
        spans_fit(n, src),
{
    assert forall|k: int, id: Seq<char>| 0 <= k < n.scopes.len() && #[trigger] n.scopes[k].defs.contains_key(id)
        implies symbol_fits(src, n.scopes[k].defs[id]) by {
        assert(n.scopes[k] == m.scopes[k]);
    }
}

proof fn lemma_fit_same_defs(m: ScopeStackModel, n: ScopeStackModel, src: Seq<char>)
    requires
        spans_fit(m, src),
        n.scopes.len() == m.scopes.len(),
        forall|k: int| 0 <= k < m.scopes.len() ==> (#[trigger] n.scopes[k]).defs == m.scopes[k].defs,
    ensures
        spans_fit(n, src),
{
    assert forall|k: int, id: Seq<char>| 0 <= k < n.scopes.len() && #[trigger] n.scopes[k].defs.contains_key(id)
        implies symbol_fits(src, n.scopes[k].defs[id]) by {
        assert(n.scopes[k].defs == m.scopes[k].defs);
    }
}

proof fn lemma_fit_defined(m: ScopeStackModel, n: ScopeStackModel, d: DefSymbol, src: Seq<char>)
    requires
        spans_fit(m, src),
        m.scopes.len() > 0,
        symbol_fits(src, d),
        n.scopes == define_in_top(m.scopes, d),
    ensures
        spans_fit(n, src),
{
    assert forall|k: int, id: Seq<char>| 0 <= k < n.scopes.len() && #[trigger] n.scopes[k].defs.contains_key(id)
        implies symbol_fits(src, n.scopes[k].defs[id]) by {
        if k < m.scopes.len() - 1 {
            assert(n.scopes[k] == m.scopes[k]);
        } else if id != d.id@ {
            assert(m.scopes[k].defs.contains_key(id));
        }
    }
}

proof fn lemma_lookup_fits(scopes: Seq<ScopeModel>, id: Seq<char>, src: Seq<char>)
    requires
        spans_fit(ScopeStackModel { scopes, offsets: seq![] }, src),
    ensures
        lookup(scopes, id) matches Some(d) ==> symbol_fits(src, d),
    decreases scopes.len(),
{
    if scopes.len() > 0 {
        if scopes.last().defs.contains_key(id) {
            assert(scopes[scopes.len() - 1].defs.contains_key(id));
        } else {
            let shorter = scopes.drop_last();
            assert forall|k: int, i: Seq<char>| 0 <= k < shorter.len() && #[trigger] shorter[k].defs.contains_key(i)
                implies symbol_fits(src, shorter[k].defs[i]) by {
                assert(shorter[k] == scopes[k]);
            }
            lemma_lookup_fits(shorter, id, src);
        }
    }
}

/// The text of the error for a literal that does not parse.
fn parse_error(id: String, kind: &str) -> (e: CompilerError)
    ensures
        e@ == ErrorView::LexicalError("Unable to parse "@ + id@ + " into "@ + kind@ + "."@),
{
    let mut m = String::from_str("Unable to parse ");
    m.append(id.as_str());
    m.append(" into ");
    m.append(kind);
    m.append(".");
    proof {
        reveal_strlit("Unable to parse ");
        reveal_strlit(" into ");
        reveal_strlit(".");
    }
    CompilerError::LexicalError(m)
}

/// What the evaluation of an integer literal with the text `text` yields
/// (when it has no next node): its value, or the parse error.
pub open spec fn int_literal(text: Seq<char>) -> Result<i32, ErrorView> {
    match decimal_i32(encode_utf8(text)) {
        Some(v) => Ok(v),
        None => Err(ErrorView::LexicalError("Unable to parse "@ + text + " into "@ + "i32"@ + "."@)),
    }
}

/// What the evaluation of a boolean literal with the text `text` yields.
pub open spec fn bool_literal(text: Seq<char>) -> Result<bool, ErrorView> {
    if text == "true"@ {
        Ok(true)
    } else if text == "false"@ {
        Ok(false)
    } else {
        Err(ErrorView::LexicalError("Unable to parse "@ + text + " into "@ + "bool"@ + "."@))
    }
}

/// The error of a call that passes too few or too many arguments to the
/// function `def`.
pub open spec fn arity_error(m: ArgumentMismatch, src: Seq<char>, def: DefSymbol, span: Span) -> ErrorView {
    let id = span_text(src, span);
    let first_highlight = span_highlight(src, def.span);
    let second_line = start_line(src, span);
    let second_col = start_col(src, span);
    let second_highlight = span_highlight(src, span);
    if m is Missing {
        ErrorView::SemanticErrorMissingArgs {
            id, first_line: def.line, first_col: def.col, first_highlight, second_line, second_col, second_highlight,
        }
    } else {
        ErrorView::SemanticErrorExcessArgs {
            id, first_line: def.line, first_col: def.col, first_highlight, second_line, second_col, second_highlight,
        }
    }
}

/// What the evaluation of a node with no next node yields and does to the
/// symbol table, for the kinds of node whose outcome is stated: `r` is the
/// result, `before` and `after` the table before and after.
pub open spec fn evaluation_outcome(
    node: AstNode,
    before: ScopeStackModel,
    after: ScopeStackModel,
    src: Seq<char>,
    r: Result<Option<SymbolType>, CompilerError>,
) -> bool {
    match node {
        AstNode::GlobalVecDef { var_type, node_id, vec_size, .. } => {
            let id = span_text(src, node_id);
            &&& r is Ok ==> vector_defined(var_type, node_id, vec_size, before, after, src)
            &&& (before.scopes.len() > 0 && !before.scopes.last().defs.contains_key(id)
                && (declared_type(span_text(src, var_type)) matches Some(SymbolType::String(_)))
                && var_type.start() <= vec_size.end() + 1)
                ==> (r matches Err(e) && e@ == ErrorView::SemanticErrorStringVector {
                    id,
                    line: start_line(src, var_type),
                    col: start_col(src, var_type),
                    highlight: range_highlight(src, var_type.start() as int, vec_size.end() + 1),
                })
        },
        AstNode::Return { node_id, ret_value, .. } =>
            match (current_scope_type(before.scopes), simple_value_type(*ret_value, before, src)) {
                (Some(rt), Some(t)) => return_error(rt, t, ret_value.id(), node_id, src) is None
                    ==> r == Ok::<Option<SymbolType>, CompilerError>(None),
                _ => true,
            },
        AstNode::Unary { node_id, op_type, operand, .. } => match simple_value_type(*operand, before, src) {
            Some(t) => match unary_fold(op_type, t, src, node_id) {
                Ok(v) => r matches Ok(Some(x)) && x@ == v,
                Err(e) => r matches Err(x) && x@ == e,
            },
            None => true,
        },
        AstNode::Binary { node_id, op_type, lhs, rhs, .. } =>
            match (simple_value_type(*lhs, before, src), simple_value_type(*rhs, before, src)) {
                (Some(l), Some(rt)) => if folding_overflows(op_type, l, rt) {
                    r matches Err(x) && x@ == ErrorView::SanityError("constant expression overflows i32"@)
                } else {
                    match binary_fold(op_type, l, rt, src, node_id) {
                        Err(e) => r matches Err(x) && x@ == e,
                        Ok(f) => r matches Ok(Some(x)) && folded_type(f) == Some(x@),
                    }
                },
                _ => true,
            },
        AstNode::Ternary { left_span, right_span, condition, if_true, if_false, .. } => match (
            simple_value_type(*condition, before, src),
            simple_value_type(*if_true, before, src),
            simple_value_type(*if_false, before, src),
        ) {
            (Some(c), Some(t), Some(f)) => match conversion_error(c, "boolean"@, src, left_span) {
                Some(e) => r matches Err(x) && x@ == e,
                None => match bool_value(c) {
                    Some(b) => r == Ok::<Option<SymbolType>, CompilerError>(Some(if b { t } else { f })),
                    None => match associated_type(t, f, src, right_span) {
                        Ok(a) => r == Ok::<Option<SymbolType>, CompilerError>(Some(a)),
                        Err(e) => r matches Err(x) && x@ == e,
                    },
                },
            },
            _ => true,
        },
        AstNode::VarDefInitLit { node_id, var_def, var_value, .. } =>
            match initialisation_from_literal(*var_def, *var_value, before, src) {
                Some((d, vt)) => match cast_result(d, vt, false, src, node_id) {
                    Ok((t, size)) => {
                        &&& r == Ok::<Option<SymbolType>, CompilerError>(None)
                        &&& lookup(after.scopes, d.id) matches Some(x)
                        &&& x@ == (DefSymbolView { type_value: t, size, ..d })
                    },
                    Err(_) => true,
                },
                None => true,
            },
        AstNode::VarSet { node_id, var_name, new_value, .. } =>
            match assignment_to_variable(*var_name, *new_value, before, src) {
                Some((d, t)) => cast_result(d@, t, true, src, node_id) is Ok ==> r == Ok::<Option<SymbolType>, CompilerError>(None),
                None => true,
            },
        AstNode::VarDefInitId { node_id, var_def, var_value, .. } =>
            match initialisation_from_variable(*var_def, *var_value, before, src) {
                Some((d, vt)) => match cast_result(d, vt, false, src, node_id) {
                    Ok((t, size)) => {
                        &&& r == Ok::<Option<SymbolType>, CompilerError>(None)
                        &&& lookup(after.scopes, d.id) matches Some(x)
                        &&& x@ == (DefSymbolView { type_value: t, size, ..d })
                    },
                    Err(_) => true,
                },
                None => true,
            },
        AstNode::VarLeftShift { var_name, shift_amount, .. } | AstNode::VarRightShift { var_name, shift_amount, .. } =>
            match shift_amount_value(*var_name, *shift_amount, before, src) {
                Some(v) => v <= 16 ==> r == Ok::<Option<SymbolType>, CompilerError>(None),
                None => true,
            },
        AstNode::Input { var_name, .. } | AstNode::OutputId { var_name, .. } => match io_variable(*var_name, before, src) {
            Some(d) => (d.type_value is Int || d.type_value is Float) ==> r == Ok::<Option<SymbolType>, CompilerError>(None),
            None => true,
        },
        AstNode::Continue { .. } | AstNode::Break { .. } =>
            r == Ok::<Option<SymbolType>, CompilerError>(None) && after == before,
        AstNode::CommandBlock { first_command: None, .. } =>
            r == Ok::<Option<SymbolType>, CompilerError>(None) && after == before,
        AstNode::VarInvoke { node_id, .. } => {
            &&& after == before
            &&& match lookup(before.scopes, span_text(src, node_id)) {
                None => r matches Err(e) && e@ == undeclared_error(src, node_id),
                Some(d) => if d.class is Var {
                    r == Ok::<Option<SymbolType>, CompilerError>(Some(d.type_value))
                } else {
                    r matches Err(e) && e@ == misuse_error(src, d, node_id, SymbolClass::Var { is_global: false, offset: 0 })
                },
            }
        },
        AstNode::LiteralInt { node_id, .. } => match int_literal(span_text(src, node_id)) {
            Err(e) => r matches Err(err) && err@ == e && after == before,
            Ok(v) => if before.scopes.len() == 0 {
                r matches Err(e) && e@ == ErrorView::FailedScoping
            } else {
                &&& r == Ok::<Option<SymbolType>, CompilerError>(Some(SymbolType::Int(IntValue::Literal(v))))
                &&& after.scopes.len() == before.scopes.len()
                &&& after.scopes.drop_last() == before.scopes.drop_last()
                &&& after.scopes.last().defs == before.scopes.last().defs
                &&& after.scopes.last().symbols.len() == before.scopes.last().symbols.len() + 1
                &&& after.scopes.last().symbols.drop_last() == before.scopes.last().symbols
                &&& after.scopes.last().symbols.last().id@ == span_text(src, node_id)
                &&& after.scopes.last().symbols.last().line == start_line(src, node_id)
                &&& after.scopes.last().symbols.last().col == start_col(src, node_id)
                &&& after.scopes.last().symbols.last().type_value == SymbolType::Int(IntValue::Literal(v))
                &&& after.scopes.last().symbols.last().class@ == ClassView::Lit
            },
        },
        AstNode::VecInvoke { node_id, .. } => {
            &&& after == before
            &&& match lookup(before.scopes, span_text(src, node_id)) {
                None => r matches Err(e) && e@ == undeclared_error(src, node_id),
                Some(d) => if d.class is Vec {
                    r == Ok::<Option<SymbolType>, CompilerError>(Some(d.type_value))
                } else {
                    r matches Err(e) && e@ == misuse_error(src, d, node_id, SymbolClass::Vec { offset: 0 })
                },
            }
        },
        AstNode::LiteralString { node_id, .. } => {
            let text = span_text(src, node_id);
            if string_literal_too_short(text) {
                r matches Err(e) && e@ == ErrorView::SanityError("on evaluate_node(), string smaller than 2 characters (no \") "@)
            } else if before.scopes.len() == 0 {
                r matches Err(e) && e@ == ErrorView::FailedScoping
            } else {
                &&& r matches Ok(Some(t)) && t@ == TypeView::String(Some(string_literal_value(text)))
                &&& after.scopes.len() == before.scopes.len()
                &&& after.scopes.drop_last() == before.scopes.drop_last()
                &&& after.scopes.last().defs == before.scopes.last().defs
                &&& after.scopes.last().symbols.drop_last() == before.scopes.last().symbols
                &&& after.scopes.last().symbols.last().id@ == text
                &&& after.scopes.last().symbols.last().line == start_line(src, node_id)
                &&& after.scopes.last().symbols.last().col == start_col(src, node_id)
                &&& after.scopes.last().symbols.last().type_value@ == TypeView::String(Some(string_literal_value(text)))
                &&& after.scopes.last().symbols.last().class@ == ClassView::Lit
            }
        },
        AstNode::LiteralChar { node_id, .. } => {
            let bytes = encode_utf8(span_text(src, node_id));
            if bytes.len() != 3 {
                r matches Err(e) && e@ == ErrorView::SanityError("on evaluate_node(), character not 3 characters long "@)
            } else if before.scopes.len() == 0 {
                r matches Err(e) && e@ == ErrorView::FailedScoping
            } else {
                &&& r == Ok::<Option<SymbolType>, CompilerError>(Some(SymbolType::Char(Some(bytes[1]))))
                &&& after.scopes.len() == before.scopes.len()
                &&& after.scopes.drop_last() == before.scopes.drop_last()
                &&& after.scopes.last().defs == before.scopes.last().defs
                &&& after.scopes.last().symbols.drop_last() == before.scopes.last().symbols
                &&& after.scopes.last().symbols.last().id@ == span_text(src, node_id)
                &&& after.scopes.last().symbols.last().line == start_line(src, node_id)
                &&& after.scopes.last().symbols.last().col == start_col(src, node_id)
                &&& after.scopes.last().symbols.last().type_value == SymbolType::Char(Some(bytes[1]))
                &&& after.scopes.last().symbols.last().class@ == ClassView::Lit
            }
        },
        AstNode::FnDef { return_type, node_id, params, .. } => r is Ok ==> match declared_type(span_text(src, return_type)) {
            Some(t) => {
                &&& lookup(after.scopes, span_text(src, node_id)) matches Some(d)
                &&& d.type_value == t
                &&& d.class@ == ClassView::Fn(params@)
                &&& d.size is None
                &&& d.span == node_id
            },
            None => false,
        },
        AstNode::LiteralBool { node_id, .. } => match bool_literal(span_text(src, node_id)) {
            Err(e) => r matches Err(err) && err@ == e && after == before,
            Ok(v) => if before.scopes.len() == 0 {
                r matches Err(e) && e@ == ErrorView::FailedScoping
            } else {
                &&& r == Ok::<Option<SymbolType>, CompilerError>(Some(SymbolType::Bool(Some(v))))
                &&& after.scopes.len() == before.scopes.len()
                &&& after.scopes.drop_last() == before.scopes.drop_last()
                &&& after.scopes.last().defs == before.scopes.last().defs
                &&& after.scopes.last().symbols.drop_last() == before.scopes.last().symbols
                &&& after.scopes.last().symbols.last().type_value == SymbolType::Bool(Some(v))
            },
        },
        AstNode::GlobalVarDef { var_type, node_id, .. } | AstNode::LocalVarDef { var_type, node_id, .. } => {
            let id = span_text(src, node_id);
            if before.scopes.len() == 0 {
                r matches Err(e) && e@ == ErrorView::FailedScoping
            } else if before.scopes.last().defs.contains_key(id) {
                r matches Err(e) && e@ == redeclared_error(src, before.scopes.last().defs[id], node_id)
            } else {
                match declared_type(span_text(src, var_type)) {
                    None => r matches Err(e) && e@ == ErrorView::LexicalError(
                        "invalid type declaration: "@ + span_text(src, var_type)),
                    Some(t) => {
                        &&& r == Ok::<Option<SymbolType>, CompilerError>(None)
                        &&& lookup(after.scopes, id) matches Some(d)
                        &&& d.type_value == t
                        &&& d.span == node_id
                        &&& d.line == start_line(src, node_id)
                        &&& d.col == start_col(src, node_id)
                        &&& d@ == declared_variable(src, id, node_id, t, node is GlobalVarDef)
                        &&& forall|x: Seq<char>| x != id ==> #[trigger] lookup(after.scopes, x) == lookup(before.scopes, x)
                    },
                }
            }
        },
        AstNode::FnCall { node_id, args, .. } => match lookup(before.scopes, span_text(src, node_id)) {
            None => r matches Err(e) && e@ == undeclared_error(src, node_id),
            Some(d) => if !(d.class is Fn) {
                r matches Err(e) && (forall|c: SymbolClass| c is Fn ==> e@ == #[trigger] misuse_error(src, d, node_id, c))
            } else {
                match arity_mismatch(args.len() as nat, d.class@->Fn_0.len()) {
                    Some(m) => r matches Err(e) && e@ == arity_error(m, src, d, node_id)
                        && after == before,
                    None => {
                        &&& r is Ok ==> r == Ok::<Option<SymbolType>, CompilerError>(Some(d.type_value))
                        &&& d.class@->Fn_0.len() == 0 ==> r == Ok::<Option<SymbolType>, CompilerError>(Some(d.type_value))
                            && after == before
                        &&& (all_simple(args@, before, src) && params_declared(d.class@->Fn_0, src)
                            && first_argument_error(args@, d.class@->Fn_0, before, src, node_id, d.span, d.line, d.col, 0) is None)
                            ==> r == Ok::<Option<SymbolType>, CompilerError>(Some(d.type_value))
                    },
                }
            },
        },
        _ => true,
    }
}

/// The name of the definition of the byte `i` of the vector `id`.
pub open spec fn element_name(id: Seq<char>, i: nat) -> Seq<char> {
    id + "["@ + nat_text(i) + "]"@
}

/// A global vector's definition, or that of one of its bytes, under the
/// name `id`, declared at `span` with the element type `t`, of `size` bytes.
pub open spec fn vector_symbol(src: Seq<char>, id: Seq<char>, span: Span, t: SymbolType, size: u32) -> DefSymbolView {
    DefSymbolView {
        id,
        span,
        line: start_line(src, span),
        col: start_col(src, span),
        type_value: t,
        class: ClassView::Vec { offset: 0 },
        size: Some(size),
        offset_source: Register::Rbss,
        offset: 0,
    }
}

/// What a vector declaration that succeeded defined in the innermost scope
/// of `after`: the vector, of its length times the size of its type, and
/// one definition for each byte it takes.
pub open spec fn vector_defined(var_type: Span, node_id: Span, vec_size: Span, before: ScopeStackModel, after: ScopeStackModel, src: Seq<char>) -> bool {
    let id = span_text(src, node_id);
    match (declared_type(span_text(src, var_type)), decimal_i32(encode_utf8(span_text(src, vec_size)))) {
        (Some(t), Some(v)) => {
            let total = (type_size(t) * (v as u32)) as u32;
            let top = after.scopes.last();
            &&& after.scopes.len() == before.scopes.len()
            &&& top.defs.contains_key(id)
            &&& top.defs[id]@ == vector_symbol(src, id, node_id, t, total)
            &&& forall|i: nat| i < total ==> #[trigger] top.defs.contains_key(element_name(id, i))
                && top.defs[element_name(id, i)]@ == vector_symbol(src, element_name(id, i), node_id, t, type_size(t))
        },
        _ => false,
    }
}

/// The value of a string literal with the text `text`: the characters
/// between its quotes.
pub open spec fn string_literal_value(text: Seq<char>) -> Seq<char> {
    text.subrange(1, text.len() - 1)
}

/// Whether a string literal's text is too short to hold its two quotes
/// (fewer than two bytes, or fewer than two characters).
pub open spec fn string_literal_too_short(text: Seq<char>) -> bool {
    encode_utf8(text).len() < 2 || text.len() < 2
}

/// The type that evaluating `m` from the table `before` yields, for a use
/// of a variable or a number or truth literal with no next node (the
/// operands the parser gives most often), when that evaluation succeeds;
/// `None` otherwise.
#[verifier::opaque]
pub open spec fn simple_value_type(m: AstNode, before: ScopeStackModel, src: Seq<char>) -> Option<SymbolType> {
    match m {
        AstNode::VarInvoke { node_id, next: None } => match lookup(before.scopes, span_text(src, node_id)) {
            Some(d) => if d.class is Var { Some(d.type_value) } else { None },
            None => None,
        },
        AstNode::LiteralInt { node_id, next: None } => match int_literal(span_text(src, node_id)) {
            Ok(v) => if before.scopes.len() > 0 { Some(SymbolType::Int(IntValue::Literal(v))) } else { None },
            Err(_) => None,
        },
        AstNode::LiteralBool { node_id, next: None } => match bool_literal(span_text(src, node_id)) {
            Ok(v) => if before.scopes.len() > 0 { Some(SymbolType::Bool(Some(v))) } else { None },
            Err(_) => None,
        },
        _ => None,
    }
}

/// The type that a folded binary operation yields: the known result, or,
/// for an operation on floats, an unknown float or truth value.
pub open spec fn folded_type(f: FoldedView) -> Option<TypeView> {
    match f {
        FoldedView::Known(t) => Some(t),
        FoldedView::FloatOperation(op, _, _) => if is_arithmetic(op) {
            Some(TypeView::Float(None))
        } else {
            Some(TypeView::Bool(None))
        },
    }
}

/// Whether two tables hold the same definitions, scope by scope (what
/// they hold of symbols met in expressions may differ).
pub open spec fn same_definitions(a: ScopeStackModel, b: ScopeStackModel) -> bool {
    &&& a.scopes.len() == b.scopes.len()
    &&& forall|i: int| 0 <= i < a.scopes.len() ==> #[trigger] a.scopes[i].defs == b.scopes[i].defs
}

proof fn lemma_lookup_same_definitions(a: Seq<ScopeModel>, b: Seq<ScopeModel>, id: Seq<char>)
    requires
        a.len() == b.len(),
        forall|i: int| 0 <= i < a.len() ==> #[trigger] a[i].defs == b[i].defs,
    ensures
        lookup(a, id) == lookup(b, id),
    decreases a.len(),
{
    if a.len() > 0 {
        assert(a.last().defs == b.last().defs);
        let (sa, sb) = (a.drop_last(), b.drop_last());
        assert forall|i: int| 0 <= i < sa.len() implies #[trigger] sa[i].defs == sb[i].defs by {
            assert(sa[i] == a[i] && sb[i] == b[i]);
        }
        lemma_lookup_same_definitions(sa, sb, id);
    }
}

/// A simple operand gives the same type from two tables with the same
/// definitions.
proof fn lemma_simple_stable(m: AstNode, a: ScopeStackModel, b: ScopeStackModel, src: Seq<char>)
    requires
        same_definitions(a, b),
    ensures
        simple_value_type(m, a, src) == simple_value_type(m, b, src),
{
    reveal(simple_value_type);
    if let AstNode::VarInvoke { node_id, .. } = m {
        lemma_lookup_same_definitions(a.scopes, b.scopes, span_text(src, node_id));
    }
}

/// Evaluating a simple operand yields its simple type and leaves the
/// definitions as they were.
proof fn lemma_simple_operand(m: AstNode, before: ScopeStackModel, after: ScopeStackModel, src: Seq<char>, r: Result<Option<SymbolType>, CompilerError>)
    requires
        simple_value_type(m, before, src) is Some,
        m.next_node() is None ==> evaluation_outcome(m, before, after, src, r),
    ensures
        r == Ok::<Option<SymbolType>, CompilerError>(Some(simple_value_type(m, before, src)->Some_0)),
        same_definitions(before, after),
{
    reveal(simple_value_type);
    match m {
        AstNode::VarInvoke { .. } => {},
        _ => {
            assert forall|i: int| 0 <= i < before.scopes.len() implies #[trigger] before.scopes[i].defs == after.scopes[i].defs by {
                if i < before.scopes.len() - 1 {
                    assert(before.scopes.drop_last()[i] == before.scopes[i]);
                    assert(after.scopes.drop_last()[i] == after.scopes[i]);
                }
            }
        },
    }
}

/// Whether every argument of a call is a simple operand, evaluated from the
/// table `s`.
pub open spec fn all_simple(args: Seq<AstNode>, s: ScopeStackModel, src: Seq<char>) -> bool {
    forall|k: int| 0 <= k < args.len() ==> #[trigger] simple_value_type(args[k], s, src) is Some
}

/// Whether every parameter names a known type.
pub open spec fn params_declared(ps: Seq<Parameter>, src: Seq<char>) -> bool {
    forall|k: int| 0 <= k < ps.len() ==> #[trigger] declared_type(span_text(src, ps[k].param_type)) is Some
}

/// The error of the argument `k` of a call at `span` that does not suit its
/// parameter, `m` saying how: a string argument is refused at the
/// parameter, a string parameter at the argument, and any other mismatch
/// names the function (defined at `def_span`, on `def_line` and
/// `def_col`) and the call.
pub open spec fn argument_error(
    m: ArgumentMismatch,
    k: int,
    args: Seq<AstNode>,
    ps: Seq<Parameter>,
    src: Seq<char>,
    span: Span,
    def_span: Span,
    def_line: usize,
    def_col: usize,
) -> ErrorView {
    match m {
        ArgumentMismatch::StringArgument => ErrorView::SemanticErrorFunctionString {
            id: span_text(src, ps[k].node_id),
            line: start_line(src, ps[k].node_id),
            col: start_col(src, ps[k].node_id),
            highlight: span_highlight(src, ps[k].node_id),
        },
        ArgumentMismatch::StringParameter => ErrorView::SemanticErrorFunctionString {
            id: span_text(src, args[k].id()),
            line: start_line(src, args[k].id()),
            col: start_col(src, args[k].id()),
            highlight: span_highlight(src, args[k].id()),
        },
        _ => ErrorView::SemanticErrorWrongTypeArgs {
            id: span_text(src, span),
            first_line: def_line,
            first_col: def_col,
            first_highlight: span_highlight(src, def_span),
            second_line: start_line(src, span),
            second_col: start_col(src, span),
            second_highlight: span_highlight(src, span),
        },
    }
}

/// The error of the first of the simple arguments from `from` on that does
/// not suit the type of its parameter, if any.
pub open spec fn first_argument_error(
    args: Seq<AstNode>,
    ps: Seq<Parameter>,
    s: ScopeStackModel,
    src: Seq<char>,
    span: Span,
    def_span: Span,
    def_line: usize,
    def_col: usize,
    from: int,
) -> Option<ErrorView>
    decreases args.len() - from,
{
    if from < 0 || from >= args.len() {
        None
    } else {
        match argument_mismatch(
            simple_value_type(args[from], s, src)->Some_0,
            declared_type(span_text(src, ps[from].param_type))->Some_0,
        ) {
            Some(m) => Some(argument_error(m, from, args, ps, src, span, def_span, def_line, def_col)),
            None => first_argument_error(args, ps, s, src, span, def_span, def_line, def_col, from + 1),
        }
    }
}

/// The definition that a declaration of the variable `id` at `span` with
/// the type `t` makes: global variables live from `rbss`, local ones from
/// `rfp`.
pub open spec fn declared_variable(src: Seq<char>, id: Seq<char>, span: Span, t: SymbolType, is_global: bool) -> DefSymbolView {
    DefSymbolView {
        id,
        span,
        line: start_line(src, span),
        col: start_col(src, span),
        type_value: t,
        class: ClassView::Var { is_global, offset: 0 },
        size: Some(type_size(t)),
        offset_source: if is_global { Register::Rbss } else { Register::Rfp },
        offset: 0,
    }
}

/// For a declaration initialised from a variable, `T x = y` (a variable
/// declaration and a use of a variable, neither followed by another
/// node), evaluated from the table `before`: when the declaration and the
/// use both succeed, the definition of `x` that the declaration makes and
/// the type of `y` (which is `x` itself when the names are the same).
pub open spec fn initialisation_from_variable(
    var_def: AstNode,
    var_value: AstNode,
    before: ScopeStackModel,
    src: Seq<char>,
) -> Option<(DefSymbolView, SymbolType)> {
    let decl: Option<(Span, Span, bool)> = match var_def {
        AstNode::GlobalVarDef { var_type, node_id, next: None, .. } => Some((var_type, node_id, true)),
        AstNode::LocalVarDef { var_type, node_id, next: None, .. } => Some((var_type, node_id, false)),
        _ => None,
    };
    match (decl, var_value) {
        (Some((var_type, name_span, is_global)), AstNode::VarInvoke { node_id: value_span, next: None }) => {
            let name = span_text(src, name_span);
            if before.scopes.len() > 0 && !before.scopes.last().defs.contains_key(name)
                && declared_type(span_text(src, var_type)) is Some {
                let t = declared_type(span_text(src, var_type))->Some_0;
                let d = declared_variable(src, name, name_span, t, is_global);
                let value_name = span_text(src, value_span);
                if value_name == name {
                    Some((d, t))
                } else {
                    match lookup(before.scopes, value_name) {
                        Some(v) => if v.class is Var { Some((d, v.type_value)) } else { None },
                        None => None,
                    }
                }
            } else {
                None
            }
        },
        _ => None,
    }
}

/// For a declaration initialised from a literal, `T x = 5` (a variable
/// declaration and a number or truth literal, neither followed by another
/// node), evaluated from the table `before`: when the declaration
/// succeeds, the definition of `x` it makes and the literal's type.
pub open spec fn initialisation_from_literal(
    var_def: AstNode,
    var_value: AstNode,
    before: ScopeStackModel,
    src: Seq<char>,
) -> Option<(DefSymbolView, SymbolType)> {
    let decl: Option<(Span, Span, bool)> = match var_def {
        AstNode::GlobalVarDef { var_type, node_id, next: None, .. } => Some((var_type, node_id, true)),
        AstNode::LocalVarDef { var_type, node_id, next: None, .. } => Some((var_type, node_id, false)),
        _ => None,
    };
    let value: Option<SymbolType> = match var_value {
        AstNode::LiteralInt { node_id, next: None } => match int_literal(span_text(src, node_id)) {
            Ok(v) => Some(SymbolType::Int(IntValue::Literal(v))),
            Err(_) => None,
        },
        AstNode::LiteralBool { node_id, next: None } => match bool_literal(span_text(src, node_id)) {
            Ok(v) => Some(SymbolType::Bool(Some(v))),
            Err(_) => None,
        },
        _ => None,
    };
    match (decl, value) {
        (Some((var_type, name_span, is_global)), Some(t)) => {
            let name = span_text(src, name_span);
            if before.scopes.len() > 0 && !before.scopes.last().defs.contains_key(name)
                && declared_type(span_text(src, var_type)) is Some {
                Some((declared_variable(src, name, name_span, declared_type(span_text(src, var_type))->Some_0, is_global), t))
            } else {
                None
            }
        },
        _ => None,
    }
}

/// For an assignment `x = e` to a variable (a use of a variable and a
/// simple operand, neither followed by another node), evaluated from the
/// table `before`: when `x` is declared as a variable, its definition and
/// the type of `e`.
pub open spec fn assignment_to_variable(
    var_name: AstNode,
    new_value: AstNode,
    before: ScopeStackModel,
    src: Seq<char>,
) -> Option<(DefSymbol, SymbolType)> {
    match var_name {
        AstNode::VarInvoke { node_id, next: None } => match lookup(before.scopes, span_text(src, node_id)) {
            Some(d) => if d.class is Var && simple_value_type(new_value, before, src) is Some {
                Some((d, simple_value_type(new_value, before, src)->Some_0))
            } else {
                None
            },
            None => None,
        },
        _ => None,
    }
}

/// For a shift of a variable by an integer literal (the shape the parser
/// gives), the literal's value when the shift gets that far: the variable
/// is declared as a variable and the literal parses.
#[verifier::opaque]
pub open spec fn shift_amount_value(var_name: AstNode, amount: AstNode, before: ScopeStackModel, src: Seq<char>) -> Option<i32> {
    match (var_name, amount) {
        (AstNode::VarInvoke { node_id: name, next: None }, AstNode::LiteralInt { node_id: lit, next: None }) =>
            if before.scopes.len() > 0 && (lookup(before.scopes, span_text(src, name)) matches Some(d) && d.class is Var) {
                match int_literal(span_text(src, lit)) {
                    Ok(v) => Some(v),
                    Err(_) => None,
                }
            } else {
                None
            },
        _ => None,
    }
}

/// The error of a shift by `v` bytes, which is more than 16, given by the
/// literal at `span`.
pub open spec fn shift_error(src: Seq<char>, v: i32, span: Span) -> ErrorView {
    ErrorView::SemanticErrorWrongParShift {
        received_value: v,
        highlight: span_highlight(src, span),
        line: start_line(src, span),
        col: start_col(src, span),
    }
}

proof fn lemma_shift_shape(var_name: AstNode, amount: AstNode, before: ScopeStackModel, src: Seq<char>)
    requires
        shift_amount_value(var_name, amount, before, src) is Some,
    ensures
        simple_value_type(var_name, before, src) is Some,
        before.scopes.len() > 0,
        amount matches AstNode::LiteralInt { node_id: lit, next: None }
            && int_literal(span_text(src, lit)) == Ok::<i32, ErrorView>(shift_amount_value(var_name, amount, before, src)->Some_0),
{
    reveal(shift_amount_value);
    reveal(simple_value_type);
}

/// For `input x` or `output x` of a variable with no next node, evaluated
/// from the table `before`: its definition, when it is declared as a
/// variable.
pub open spec fn io_variable(var_name: AstNode, before: ScopeStackModel, src: Seq<char>) -> Option<DefSymbol> {
    match var_name {
        AstNode::VarInvoke { node_id, next: None } => match lookup(before.scopes, span_text(src, node_id)) {
            Some(d) => if d.class is Var { Some(d) } else { None },
            None => None,
        },
        _ => None,
    }
}

/// The error of reading into, or writing, the variable defined by `d` and
/// used at `span`, which is neither an integer nor a float.
pub open spec fn io_error(input: bool, d: DefSymbol, span: Span, src: Seq<char>) -> ErrorView {
    if input {
        ErrorView::SemanticErrorWrongParInput {
            received_type: type_word(d.type_value),
            first_highlight: span_highlight(src, d.span),
            first_line: start_line(src, d.span),
            first_col: start_col(src, d.span),
            second_highlight: span_highlight(src, span),
            second_line: start_line(src, span),
            second_col: start_col(src, span),
        }
    } else {
        ErrorView::SemanticErrorWrongParOutputId {
            received_type: type_word(d.type_value),
            first_highlight: span_highlight(src, d.span),
            first_line: start_line(src, d.span),
            first_col: start_col(src, d.span),
            second_highlight: span_highlight(src, span),
            second_line: start_line(src, span),
            second_col: start_col(src, span),
        }
    }
}

/// The error of returning a value of type `t`, written at `value_span`, from
/// a function of type `rt`: a string, or a type that does not go with the
/// function's; `None` when the value fits.
#[verifier::opaque]
pub open spec fn return_error(rt: SymbolType, t: SymbolType, value_span: Span, span: Span, src: Seq<char>) -> Option<ErrorView> {
    if t is String {
        Some(ErrorView::SemanticErrorFunctionString {
            id: span_text(src, value_span),
            line: start_line(src, value_span),
            col: start_col(src, value_span),
            highlight: span_highlight(src, value_span),
        })
    } else if associated_type(rt, t, src, span) is Err {
        Some(ErrorView::SemanticErrorWrrongParReturn {
            expected_type: type_word(rt),
            received_type: type_word(t),
            line: start_line(src, value_span),
            col: start_col(src, value_span),
            highlight: span_highlight(src, value_span),
        })
    } else {
        None
    }
}

/// The errors of a declaration of the name at `span` with the type named at
/// `type_span`, which come before anything is defined: no scope is open,
/// the name is already declared in the innermost scope, or the type is
/// unknown.
pub open spec fn declaration_errors(
    type_span: Span,
    span: Span,
    before: ScopeStackModel,
    src: Seq<char>,
    r: Result<Option<SymbolType>, CompilerError>,
) -> bool {
    let id = span_text(src, span);
    if before.scopes.len() == 0 {
        r matches Err(e) && e@ == ErrorView::FailedScoping
    } else if before.scopes.last().defs.contains_key(id) {
        r matches Err(e) && e@ == redeclared_error(src, before.scopes.last().defs[id], span)
    } else {
        declared_type(span_text(src, type_span)) is None ==> (r matches Err(e) && e@ == ErrorView::LexicalError(
            "invalid type declaration: "@ + span_text(src, type_span)))
    }
}

/// The errors that a node gives from its own checks, before it evaluates
/// any of its parts or the node that follows it, whatever follows it: `r`
/// is the result of evaluating `node` from the table `before`.
pub open spec fn early_outcome(
    node: AstNode,
    before: ScopeStackModel,
    src: Seq<char>,
    r: Result<Option<SymbolType>, CompilerError>,
) -> bool {
    match node {
        AstNode::GlobalVarDef { var_type, node_id, .. } => declaration_errors(var_type, node_id, before, src, r),
        AstNode::LocalVarDef { var_type, node_id, .. } => declaration_errors(var_type, node_id, before, src, r),
        AstNode::FnDef { return_type, node_id, .. } => declaration_errors(return_type, node_id, before, src, r),
        AstNode::GlobalVecDef { var_type, node_id, vec_size, .. } => {
            let id = span_text(src, node_id);
            &&& declaration_errors(var_type, node_id, before, src, r)
            &&& (before.scopes.len() > 0 && !before.scopes.last().defs.contains_key(id)) ==> match declared_type(span_text(src, var_type)) {
                Some(SymbolType::String(_)) => if vec_size.end() >= usize::MAX || vec_size.end() + 1 < var_type.start() {
                    r matches Err(e) && e@ == ErrorView::SanityError(
                        "evaluate_node() found unlawful spans on GlobalVecDef for \""@ + id + "\""@)
                } else {
                    r matches Err(e) && e@ == ErrorView::SemanticErrorStringVector {
                        id,
                        line: start_line(src, var_type),
                        col: start_col(src, var_type),
                        highlight: range_highlight(src, var_type.start() as int, vec_size.end() + 1),
                    }
                },
                Some(_) => decimal_i32(encode_utf8(span_text(src, vec_size))) is None ==> (r matches Err(e)
                    && e@ == ErrorView::LexicalError("Unable to parse "@ + span_text(src, vec_size) + " into "@ + "i32"@ + "."@)),
                None => true,
            }
        },
        AstNode::VarInvoke { node_id, .. } => match lookup(before.scopes, span_text(src, node_id)) {
            None => r matches Err(e) && e@ == undeclared_error(src, node_id),
            Some(d) => !(d.class is Var) ==> (r matches Err(e)
                && e@ == misuse_error(src, d, node_id, SymbolClass::Var { is_global: false, offset: 0 })),
        },
        AstNode::VecInvoke { node_id, .. } => match lookup(before.scopes, span_text(src, node_id)) {
            None => r matches Err(e) && e@ == undeclared_error(src, node_id),
            Some(d) => !(d.class is Vec) ==> (r matches Err(e)
                && e@ == misuse_error(src, d, node_id, SymbolClass::Vec { offset: 0 })),
        },
        AstNode::LiteralInt { node_id, .. } => match int_literal(span_text(src, node_id)) {
            Err(e) => r matches Err(err) && err@ == e,
            Ok(_) => before.scopes.len() == 0 ==> (r matches Err(e) && e@ == ErrorView::FailedScoping),
        },
        AstNode::LiteralBool { node_id, .. } => match bool_literal(span_text(src, node_id)) {
            Err(e) => r matches Err(err) && err@ == e,
            Ok(_) => before.scopes.len() == 0 ==> (r matches Err(e) && e@ == ErrorView::FailedScoping),
        },
        AstNode::LiteralString { node_id, .. } => if string_literal_too_short(span_text(src, node_id)) {
            r matches Err(e) && e@ == ErrorView::SanityError("on evaluate_node(), string smaller than 2 characters (no \") "@)
        } else {
            before.scopes.len() == 0 ==> (r matches Err(e) && e@ == ErrorView::FailedScoping)
        },
        AstNode::LiteralChar { node_id, .. } => if encode_utf8(span_text(src, node_id)).len() != 3 {
            r matches Err(e) && e@ == ErrorView::SanityError("on evaluate_node(), character not 3 characters long "@)
        } else {
            before.scopes.len() == 0 ==> (r matches Err(e) && e@ == ErrorView::FailedScoping)
        },
        AstNode::FnCall { node_id, args, .. } => match lookup(before.scopes, span_text(src, node_id)) {
            None => r matches Err(e) && e@ == undeclared_error(src, node_id),
            Some(d) => if !(d.class is Fn) {
                r matches Err(e) && (forall|c: SymbolClass| c is Fn ==> e@ == #[trigger] misuse_error(src, d, node_id, c))
            } else {
                &&& arity_mismatch(args.len() as nat, d.class@->Fn_0.len()) matches Some(m)
                    ==> (r matches Err(e) && e@ == arity_error(m, src, d, node_id))
                &&& (arity_mismatch(args.len() as nat, d.class@->Fn_0.len()) is None && all_simple(args@, before, src)
                    && params_declared(d.class@->Fn_0, src))
                    ==> match first_argument_error(args@, d.class@->Fn_0, before, src, node_id, d.span, d.line, d.col, 0) {
                        Some(e) => r matches Err(x) && x@ == e,
                        None => true,
                    }
            },
        },
        AstNode::VarDefInitId { node_id, var_def, var_value, .. } =>
            match initialisation_from_variable(*var_def, *var_value, before, src) {
                Some((d, vt)) => match cast_result(d, vt, false, src, node_id) {
                    Err(e) => r matches Err(x) && x@ == e,
                    Ok(_) => true,
                },
                None => true,
            },
        AstNode::If { node_id, condition, .. } | AstNode::IfElse { node_id, condition, .. } | AstNode::While { node_id, condition, .. } =>
            match simple_value_type(*condition, before, src) {
                Some(c) => match conversion_error(c, "boolean"@, src, node_id) {
                    Some(e) => r matches Err(x) && x@ == e,
                    None => true,
                },
                None => true,
            },
        AstNode::VarDefInitLit { node_id, var_def, var_value, .. } =>
            match initialisation_from_literal(*var_def, *var_value, before, src) {
                Some((d, t)) => match cast_result(d, t, false, src, node_id) {
                    Err(e) => r matches Err(x) && x@ == e,
                    Ok(_) => true,
                },
                None => true,
            },
        AstNode::VarSet { node_id, var_name, new_value, .. } =>
            match assignment_to_variable(*var_name, *new_value, before, src) {
                Some((d, t)) => match cast_result(d@, t, true, src, node_id) {
                    Err(e) => r matches Err(x) && x@ == e,
                    Ok(_) => true,
                },
                None => true,
            },
        AstNode::Return { node_id, ret_value, .. } => {
            &&& current_scope_type(before.scopes) is None ==> (r matches Err(e)
                && e@ == ErrorView::SanityError("get_current_scope_type() found no typed scopes"@))
            &&& match (current_scope_type(before.scopes), simple_value_type(*ret_value, before, src)) {
                (Some(rt), Some(t)) => match return_error(rt, t, ret_value.id(), node_id, src) {
                    Some(e) => r matches Err(x) && x@ == e,
                    None => true,
                },
                _ => true,
            }
        },
        AstNode::VarLeftShift { var_name, shift_amount, .. } | AstNode::VarRightShift { var_name, shift_amount, .. } =>
            match shift_amount_value(*var_name, *shift_amount, before, src) {
                Some(v) => v > 16 ==> (r matches Err(e) && e@ == shift_error(src, v, shift_amount.id())),
                None => true,
            },
        AstNode::Input { var_name, .. } | AstNode::OutputId { var_name, .. } => match io_variable(*var_name, before, src) {
            Some(d) => !(d.type_value is Int || d.type_value is Float)
                ==> (r matches Err(e) && e@ == io_error(node is Input, d, var_name.id(), src)),
            None => true,
        },
        AstNode::Unary { next, .. } => next is Some ==> (r matches Err(e)
            && e@ == ErrorView::LexicalError("Unary struct holds a reference to a next node"@)),
        _ => true,
    }
}

/// The size of the frame of a function with the parameters `ps`: 16 bytes,
/// and the size of the type of each parameter.
pub open spec fn frame_size(ps: Seq<Parameter>, src: Seq<char>) -> int
    decreases ps.len(),
{
    if ps.len() == 0 {
        16
    } else {
        frame_size(ps.drop_last(), src) + match declared_type(span_text(src, ps.last().param_type)) {
            Some(t) => type_size(t) as int,
            None => 0,
        }
    }
}

/// The calls on the code buffer that a definition of the function `id`
/// makes, whose frame has `frame` bytes, when the buffer's next label is
/// `l` and its next register `k`: the function's label is bound to its
/// name and starts its entry, which sets the frame; after the body, the
/// return address and the caller's stack and frame pointers are loaded
/// into three new registers, the pointers restored, and the return taken.
pub open spec fn definition_calls(id: Seq<char>, l: u32, frame: u32, k: u32) -> Seq<BufferCall> {
    let ret = Register::R(k);
    let rsp = Register::R((k + 1) as u32);
    let rfp = Register::R((k + 2) as u32);
    seq![
        BufferCall::AddFnLabel(id),
        BufferCall::PushCode(CodeLine::Deliver(Instruction::Labeled(Label(l), Operation::Nop))),
        BufferCall::PushCode(CodeLine::Deliver(Instruction::Unlabeled(Operation::I2i(Register::Rsp, Register::Rfp)))),
        BufferCall::PushCode(CodeLine::Deliver(Instruction::Unlabeled(Operation::AddI(Register::Rsp, frame as i32, Register::Rsp)))),
        BufferCall::NewRegister,
        BufferCall::NewRegister,
        BufferCall::NewRegister,
        BufferCall::PushCode(CodeLine::Deliver(Instruction::Unlabeled(Operation::LoadAI(Register::Rfp, 0, ret)))),
        BufferCall::PushCode(CodeLine::Deliver(Instruction::Unlabeled(Operation::LoadAI(Register::Rfp, 4, rsp)))),
        BufferCall::PushCode(CodeLine::Deliver(Instruction::Unlabeled(Operation::LoadAI(Register::Rfp, 8, rfp)))),
        BufferCall::PushCode(CodeLine::Deliver(Instruction::Unlabeled(Operation::I2i(rsp, Register::Rsp)))),
        BufferCall::PushCode(CodeLine::Deliver(Instruction::Unlabeled(Operation::I2i(rfp, Register::Rfp)))),
        BufferCall::PushCode(CodeLine::Deliver(Instruction::Unlabeled(Operation::Jump(ret)))),
    ]
}

/// The code that a function definition writes when it succeeds, has no
/// next node, and nothing in its body defines a function: the buffer
/// `before` after the calls of `definition_calls`.
pub open spec fn definition_code(
    node: AstNode,
    before: IlocCodeModel,
    after: IlocCodeModel,
    src: Seq<char>,
    r: Result<Option<SymbolType>, CompilerError>,
) -> bool {
    match node {
        AstNode::FnDef { node_id, params, first_command, next, .. } =>
            (r is Ok && next is None && !next_defines(first_command)) ==> after == after_calls(
                before,
                definition_calls(span_text(src, node_id), before.label_counter, frame_size(params@, src) as u32, before.register_counter),
            ),
        _ => true,
    }
}

proof fn lemma_after_calls_push(m: IlocCodeModel, cs: Seq<BufferCall>, c: BufferCall)
    ensures
        after_calls(m, cs.push(c)) == after_call(after_calls(m, cs), c),
{
    assert(cs.push(c).drop_last() =~= cs);
}

/// Evaluates a node of the tree (and the nodes that follow it): checks it
/// against the symbol table, records what it defines, and yields the type
/// (and known value) of an expression.
pub fn evaluate_node(node: &AstNode, code: &mut IlocCode, stack: &mut ScopeStack, source: &SourceText) -> (r: Result<Option<SymbolType>, CompilerError>)
    requires
        node_spans_fit(*node, source@),
        spans_fit(old(stack)@, source@),
    ensures
        spans_fit(final(stack)@, source@),
        !defines_functions(*node) ==> final(code)@ == old(code)@,
        early_outcome(*node, old(stack)@, source@, r),
        node.next_node() is None ==> evaluation_outcome(*node, old(stack)@, final(stack)@, source@, r),
        definition_code(*node, old(code)@, final(code)@, source@, r),
    decreases node, 2nat,
{
    match node {
        AstNode::GlobalVarDef { .. } => evaluate_global_var_def(node, code, stack, source),
        AstNode::GlobalVecDef { .. } => evaluate_global_vec_def(node, code, stack, source),
        AstNode::VarInvoke { .. } => evaluate_var_invoke(node, code, stack, source),
        AstNode::LiteralInt { .. } => evaluate_literal_int(node, code, stack, source),
        AstNode::LiteralBool { .. } => evaluate_literal_bool(node, code, stack, source),
        AstNode::FnCall { .. } => evaluate_fn_call(node, code, stack, source),
        AstNode::Binary { .. } => evaluate_binary(node, code, stack, source),
        AstNode::Unary { .. } => evaluate_unary(node, code, stack, source),
        AstNode::FnDef { .. } => evaluate_fn_def(node, code, stack, source),
        AstNode::LocalVarDef { .. } => evaluate_local_var_def(node, code, stack, source),
        AstNode::Return { .. } => evaluate_return(node, code, stack, source),
        AstNode::Continue { .. } => evaluate_continue(node, code, stack, source),
        AstNode::Break { .. } => evaluate_break(node, code, stack, source),
        AstNode::If { .. } => evaluate_if(node, code, stack, source),
        AstNode::IfElse { .. } => evaluate_if_else(node, code, stack, source),
        AstNode::While { .. } => evaluate_while(node, code, stack, source),
        AstNode::VecInvoke { .. } => evaluate_vec_invoke(node, code, stack, source),
        AstNode::LiteralChar { .. } => evaluate_literal_char(node, code, stack, source),
        AstNode::LiteralString { .. } => evaluate_literal_string(node, code, stack, source),
        AstNode::VarSet { .. } => evaluate_var_set(node, code, stack, source),
        AstNode::Ternary { .. } => evaluate_ternary(node, code, stack, source),
        AstNode::VarDefInitLit { .. } => evaluate_var_def_init_lit(node, code, stack, source),
        AstNode::VarDefInitId { .. } => evaluate_var_def_init_id(node, code, stack, source),
        AstNode::For { .. } => evaluate_for(node, code, stack, source),
        AstNode::VarLeftShift { .. } | AstNode::VarRightShift { .. } => evaluate_shift(node, code, stack, source),
        AstNode::Input { .. } | AstNode::OutputId { .. } => evaluate_io(node, code, stack, source),
        AstNode::CommandBlock { .. } => evaluate_command_block(node, code, stack, source),
    }
}

#[verifier::rlimit(50)]
#[verifier::spinoff_prover]
fn evaluate_global_var_def(node: &AstNode, code: &mut IlocCode, stack: &mut ScopeStack, source: &SourceText) -> (r: Result<Option<SymbolType>, CompilerError>)
    requires
        node is GlobalVarDef,
        node_spans_fit(*node, source@),
        spans_fit(old(stack)@, source@),
    ensures
        spans_fit(final(stack)@, source@),
        !defines_functions(*node) ==> final(code)@ == old(code)@,
        early_outcome(*node, old(stack)@, source@, r),
        node.next_node() is None ==> evaluation_outcome(*node, old(stack)@, final(stack)@, source@, r),
    decreases node, 1nat,
{
    let AstNode::GlobalVarDef { is_static: _, var_type, node_id, next } = node else {
        return Err(CompilerError::SanityError(String::from_str("node of another kind")));
    };
        let span = *node_id;
        stack.check_duplicate(span, source)?;
        let declared_name = source.span_str(*var_type);
        let var_type = SymbolType::from_str(declared_name.as_str())?;
        let id = source.span_str(span);
        let ((line, col), (_, _)) = source.line_col(span);
        let size = var_type.get_symbol_type_size();
        let our_symbol = DefSymbol::new(
            id, span, line, col, var_type, SymbolClass::Var { is_global: true, offset: 0 }, Some(size),
            Register::Rbss, 0,
        );
        let ghost before = stack@;
        let ghost sym = our_symbol;
        stack.add_def_symbol(our_symbol)?;
        proof {
            lemma_fit_defined(before, stack@, sym, source@);
            crate::scope::law_definition_is_found(before.scopes, sym, sym.id@);
            assert forall|x: Seq<char>| x != sym.id@ implies #[trigger] lookup(stack@.scopes, x) == lookup(before.scopes, x) by {
                crate::scope::law_definition_is_found(before.scopes, sym, x);
            }
        }
        if let Some(n) = next {
            proof {
                assert(next_fits(*next, source@));
                assert(node_spans_fit(**n, source@));
                assert(next_defines(*next) == defines_functions(**n));
            }
            evaluate_node(n, code, stack, source)?;
        }
        Ok(None)
}

/// The highlight of the stretch of bytes from `start` to `end`.
pub open spec fn range_highlight(src: Seq<char>, start: int, end: int) -> Seq<char> {
    span_highlight(src, choose|s: Span| s.start() == start && s.end() == end)
}

#[verifier::rlimit(40)]
#[verifier::spinoff_prover]
fn evaluate_global_vec_def(node: &AstNode, code: &mut IlocCode, stack: &mut ScopeStack, source: &SourceText) -> (r: Result<Option<SymbolType>, CompilerError>)
    requires
        node is GlobalVecDef,
        node_spans_fit(*node, source@),
        spans_fit(old(stack)@, source@),
    ensures
        spans_fit(final(stack)@, source@),
        !defines_functions(*node) ==> final(code)@ == old(code)@,
        early_outcome(*node, old(stack)@, source@, r),
        node.next_node() is None ==> evaluation_outcome(*node, old(stack)@, final(stack)@, source@, r),
    decreases node, 1nat,
{
    let AstNode::GlobalVecDef { is_static: _, var_type, node_id, vec_size, next } = node else {
        return Err(CompilerError::SanityError(String::from_str("node of another kind")));
    };
    let span = *node_id;
    stack.check_duplicate(span, source)?;
    let id = source.span_str(span);
    let declared = source.span_str(*var_type);
    let element_type = SymbolType::from_str(declared.as_str())?;
    crate::text::source_fits_offsets(source);
    if let SymbolType::String(_) = element_type {
        let start = var_type.start();
        let size_end = vec_size.end();
        if size_end == usize::MAX || size_end + 1 < start {
            let mut message = String::from_str("evaluate_node() found unlawful spans on GlobalVecDef for \"");
            message.append(id.as_str());
            message.append("\"");
            return Err(CompilerError::SanityError(message));
        }
        let range = Span::new(start, size_end + 1);
        let (line, col, highlight) = locate(range, source);
        proof {
            assert(range.start() == start && range.end() == size_end + 1);
            let chosen = choose|s: Span| s.start() == start && s.end() == size_end + 1;
            assert(chosen.start() == range.start() && chosen.end() == range.end());
            lemma_span_ends(chosen, range);
        }
        return Err(CompilerError::SemanticErrorStringVector { id, line, col, highlight });
    }
    let ((line, col), (_, _)) = source.line_col(span);
    let size_text = source.span_str(*vec_size);
    let size_value = match parse_i32(size_text.as_str()) {
        Some(v) => v,
        None => return Err(parse_error(size_text, "i32")),
    };
    let ((size_line, size_col), (_, _)) = source.line_col(*vec_size);
    let size_symbol = CallSymbol::new(size_text, *vec_size, size_line, size_col, SymbolType::Int(IntValue::Literal(size_value)), SymbolClass::Lit);
    let ghost before = stack@;
    stack.push_symbol(size_symbol)?;
    proof {
        lemma_fit_same_defs(before, stack@, source@);
    }
    let size_int: u32 = #[verifier::truncate] (size_value as u32);
    let base_size = element_type.get_symbol_type_size();
    let size = match base_size.checked_mul(size_int) {
        Some(n) => n,
        None => return Err(CompilerError::SanityError(String::from_str("vector size overflows u32"))),
    };
    let ghost depth = stack@.scopes.len();
    let mut i: u32 = 0;
    while i < size
        invariant
            i <= size,
            stack@.scopes.len() == depth > 0,
            line == start_line(source@, span),
            col == start_col(source@, span),
            id@ == span_text(source@, span),
            base_size == type_size(element_type),
            forall|j: nat| j < i ==> #[trigger] stack@.scopes.last().defs.contains_key(element_name(id@, j))
                && stack@.scopes.last().defs[element_name(id@, j)]@
                    == vector_symbol(source@, element_name(id@, j), span, element_type, base_size),
            match *node { AstNode::GlobalVecDef { var_type: t, .. } => t == *var_type, _ => false },
            declared_type(span_text(source@, *var_type)) == Some(element_type),
            !(element_type is String),
            forall|x: Result<Option<SymbolType>, CompilerError>| #[trigger] early_outcome(*node, old(stack)@, source@, x),
            spans_fit(stack@, source@),
            code@ == old(code)@,
            span_fits(source@, span),
        decreases size - i,
    {
        let mut index_id = id.clone();
        index_id.append("[");
        push_nat(&mut index_id, i as u64);
        index_id.append("]");
        let index_symbol = DefSymbol::new(
            index_id, span, line, col, element_type.clone(), SymbolClass::default_vec(), Some(base_size), Register::Rbss, 0,
        );
        let ghost at = stack@;
        let ghost sym = index_symbol;
        stack.add_def_symbol(index_symbol)?;
        proof {
            lemma_fit_defined(at, stack@, sym, source@);
            let top = stack@.scopes.last();
            assert(sym.id@ == element_name(id@, i as nat));
            assert(top.defs == at.scopes.last().defs.insert(sym.id@, sym));
            assert(sym@ == vector_symbol(source@, element_name(id@, i as nat), span, element_type, base_size));
            assert forall|j: nat| j < i + 1 implies #[trigger] top.defs.contains_key(element_name(id@, j))
                && top.defs[element_name(id@, j)]@ == vector_symbol(source@, element_name(id@, j), span, element_type, base_size) by {
                if j < i && element_name(id@, j) != sym.id@ {
                    assert(at.scopes.last().defs.contains_key(element_name(id@, j)));
                }
            }
        }
        i = i + 1;
    }
    let ghost idv = id@;
    let our_symbol = DefSymbol::new(id, span, line, col, element_type, SymbolClass::default_vec(), Some(size), Register::Rbss, 0);
    let ghost at = stack@;
    let ghost sym = our_symbol;
    stack.add_def_symbol(our_symbol)?;
    proof {
        lemma_fit_defined(at, stack@, sym, source@);
        assert forall|j: nat| j < size implies #[trigger] stack@.scopes.last().defs.contains_key(element_name(idv, j))
            && stack@.scopes.last().defs[element_name(idv, j)]@
                == vector_symbol(source@, element_name(idv, j), span, element_type, base_size) by {
            assert(element_name(idv, j).len() > idv.len());
            assert(at.scopes.last().defs.contains_key(element_name(idv, j)));
        }
        assert(stack@.scopes.last().defs[idv]@ == vector_symbol(source@, idv, span, element_type, size));
    }
    if let Some(n) = next {
        proof {
            assert(next_fits(*next, source@));
            assert(node_spans_fit(**n, source@));
            assert(next_defines(*next) == defines_functions(**n));
        }
        evaluate_node(n, code, stack, source)?;
    }
    Ok(None)
}

#[verifier::spinoff_prover]
fn evaluate_local_var_def(node: &AstNode, code: &mut IlocCode, stack: &mut ScopeStack, source: &SourceText) -> (r: Result<Option<SymbolType>, CompilerError>)
    requires
        node is LocalVarDef,
        node_spans_fit(*node, source@),
        spans_fit(old(stack)@, source@),
    ensures
        spans_fit(final(stack)@, source@),
        !defines_functions(*node) ==> final(code)@ == old(code)@,
        early_outcome(*node, old(stack)@, source@, r),
        node.next_node() is None ==> evaluation_outcome(*node, old(stack)@, final(stack)@, source@, r),
    decreases node, 1nat,
{
    let AstNode::LocalVarDef { is_static: _, is_const: _, var_type, node_id, is_tree_node: _, next } = node else {
        return Err(CompilerError::SanityError(String::from_str("node of another kind")));
    };
    let span = *node_id;
    stack.check_duplicate(span, source)?;
    let declared = source.span_str(*var_type);
    let var_type = SymbolType::from_str(declared.as_str())?;
    let id = source.span_str(span);
    let ((line, col), (_, _)) = source.line_col(span);
    let size = var_type.get_symbol_type_size();
    let our_symbol = DefSymbol::new(id, span, line, col, var_type, SymbolClass::default_var(), Some(size), Register::Rfp, 0);
    let ghost before = stack@;
    let ghost sym = our_symbol;
    stack.add_def_symbol(our_symbol)?;
    proof {
        lemma_fit_defined(before, stack@, sym, source@);
        crate::scope::law_definition_is_found(before.scopes, sym, sym.id@);
        assert forall|x: Seq<char>| x != sym.id@ implies #[trigger] lookup(stack@.scopes, x) == lookup(before.scopes, x) by {
            crate::scope::law_definition_is_found(before.scopes, sym, x);
        }
    }
    if let Some(n) = next {
        proof {
            assert(next_fits(*next, source@));
            assert(node_spans_fit(**n, source@));
            assert(next_defines(*next) == defines_functions(**n));
        }
        evaluate_node(n, code, stack, source)?;
    }
    Ok(None)
}

#[verifier::spinoff_prover]
fn evaluate_return(node: &AstNode, code: &mut IlocCode, stack: &mut ScopeStack, source: &SourceText) -> (r: Result<Option<SymbolType>, CompilerError>)
    requires
        node is Return,
        node_spans_fit(*node, source@),
        spans_fit(old(stack)@, source@),
    ensures
        spans_fit(final(stack)@, source@),
        !defines_functions(*node) ==> final(code)@ == old(code)@,
        early_outcome(*node, old(stack)@, source@, r),
        node.next_node() is None ==> evaluation_outcome(*node, old(stack)@, final(stack)@, source@, r),
    decreases node, 1nat,
{
    let AstNode::Return { node_id, ret_value, next } = node else {
        return Err(CompilerError::SanityError(String::from_str("node of another kind")));
    };
    proof {
        reveal(simple_value_type);
        reveal(return_error);
    }
    let current_scope_type = stack.get_current_scope_type()?;
    let ghost simple = simple_value_type(**ret_value, stack@, source@);
    let rv = evaluate_node(ret_value, code, stack, source);
    proof {
        if simple is Some {
            assert(rv == Ok::<Option<SymbolType>, CompilerError>(Some(simple->0)));
        }
    }
    let return_value_type = match rv {
        Ok(Some(t)) => t,
        Ok(None) => return Err(CompilerError::SanityError(String::from_str(
            "Return got no return_value_type from ret_value.evaluate_node()",
        ))),
        Err(e) => return Err(e),
    };
    let value_span = ret_value.get_id();
    proof {
        assert(node_spans_fit(**ret_value, source@));
        assert(span_fits(source@, value_span));
    }
    if let SymbolType::String(_) = return_value_type {
        let id = source.span_str(value_span);
        let (line, col, highlight) = locate(value_span, source);
        return Err(CompilerError::SemanticErrorFunctionString { id, line, col, highlight });
    }
    if current_scope_type.associate_with(&return_value_type, *node_id, source).is_err() {
        let (line, col, highlight) = locate(value_span, source);
        return Err(CompilerError::SemanticErrorWrrongParReturn {
            expected_type: String::from_str(current_scope_type.to_str()),
            received_type: String::from_str(return_value_type.to_str()),
            line,
            col,
            highlight,
        });
    }
    if let Some(n) = next {
        proof {
            assert(next_fits(*next, source@));
            assert(node_spans_fit(**n, source@));
            assert(next_defines(*next) == defines_functions(**n));
        }
        evaluate_node(n, code, stack, source)?;
    }
    Ok(None)
}

fn evaluate_continue(node: &AstNode, code: &mut IlocCode, stack: &mut ScopeStack, source: &SourceText) -> (r: Result<Option<SymbolType>, CompilerError>)
    requires
        node is Continue,
        node_spans_fit(*node, source@),
        spans_fit(old(stack)@, source@),
    ensures
        spans_fit(final(stack)@, source@),
        !defines_functions(*node) ==> final(code)@ == old(code)@,
        early_outcome(*node, old(stack)@, source@, r),
        node.next_node() is None ==> evaluation_outcome(*node, old(stack)@, final(stack)@, source@, r),
    decreases node, 1nat,
{
    let AstNode::Continue { node_id: _, next } = node else {
        return Err(CompilerError::SanityError(String::from_str("node of another kind")));
    };
    if let Some(n) = next {
        proof {
            assert(next_fits(*next, source@));
            assert(node_spans_fit(**n, source@));
            assert(next_defines(*next) == defines_functions(**n));
        }
        evaluate_node(n, code, stack, source)?;
    }
    Ok(None)
}

fn evaluate_break(node: &AstNode, code: &mut IlocCode, stack: &mut ScopeStack, source: &SourceText) -> (r: Result<Option<SymbolType>, CompilerError>)
    requires
        node is Break,
        node_spans_fit(*node, source@),
        spans_fit(old(stack)@, source@),
    ensures
        spans_fit(final(stack)@, source@),
        !defines_functions(*node) ==> final(code)@ == old(code)@,
        early_outcome(*node, old(stack)@, source@, r),
        node.next_node() is None ==> evaluation_outcome(*node, old(stack)@, final(stack)@, source@, r),
    decreases node, 1nat,
{
    let AstNode::Break { node_id: _, next } = node else {
        return Err(CompilerError::SanityError(String::from_str("node of another kind")));
    };
    if let Some(n) = next {
        proof {
            assert(next_fits(*next, source@));
            assert(node_spans_fit(**n, source@));
            assert(next_defines(*next) == defines_functions(**n));
        }
        evaluate_node(n, code, stack, source)?;
    }
    Ok(None)
}

#[verifier::spinoff_prover]
fn evaluate_if(node: &AstNode, code: &mut IlocCode, stack: &mut ScopeStack, source: &SourceText) -> (r: Result<Option<SymbolType>, CompilerError>)
    requires
        node is If,
        node_spans_fit(*node, source@),
        spans_fit(old(stack)@, source@),
    ensures
        spans_fit(final(stack)@, source@),
        !defines_functions(*node) ==> final(code)@ == old(code)@,
        early_outcome(*node, old(stack)@, source@, r),
        node.next_node() is None ==> evaluation_outcome(*node, old(stack)@, final(stack)@, source@, r),
    decreases node, 1nat,
{
    let AstNode::If { node_id, condition, consequence, next } = node else {
        return Err(CompilerError::SanityError(String::from_str("node of another kind")));
    };
    let ghost s0 = stack@;
    let rc = evaluate_node(condition, code, stack, source);
    proof {
        if simple_value_type(**condition, s0, source@) is Some {
            lemma_simple_operand(**condition, s0, stack@, source@, rc);
        }
    }
    let condition_symbol = match rc {
        Ok(Some(t)) => t,
        Ok(None) => return Err(CompilerError::SanityError(String::from_str("condition has no SymbolType (on If.evaluate_node())"))),
        Err(e) => return Err(e),
    };
    condition_symbol.to_bool(*node_id, source)?;
    evaluate_node(consequence, code, stack, source)?;
    if let Some(n) = next {
        proof {
            assert(next_fits(*next, source@));
            assert(node_spans_fit(**n, source@));
            assert(next_defines(*next) == defines_functions(**n));
        }
        evaluate_node(n, code, stack, source)?;
    }
    Ok(None)
}

#[verifier::spinoff_prover]
fn evaluate_if_else(node: &AstNode, code: &mut IlocCode, stack: &mut ScopeStack, source: &SourceText) -> (r: Result<Option<SymbolType>, CompilerError>)
    requires
        node is IfElse,
        node_spans_fit(*node, source@),
        spans_fit(old(stack)@, source@),
    ensures
        spans_fit(final(stack)@, source@),
        !defines_functions(*node) ==> final(code)@ == old(code)@,
        early_outcome(*node, old(stack)@, source@, r),
        node.next_node() is None ==> evaluation_outcome(*node, old(stack)@, final(stack)@, source@, r),
    decreases node, 1nat,
{
    let AstNode::IfElse { node_id, condition, if_true, if_false, next } = node else {
        return Err(CompilerError::SanityError(String::from_str("node of another kind")));
    };
    let ghost s0 = stack@;
    let rc = evaluate_node(condition, code, stack, source);
    proof {
        if simple_value_type(**condition, s0, source@) is Some {
            lemma_simple_operand(**condition, s0, stack@, source@, rc);
        }
    }
    let condition_symbol = match rc {
        Ok(Some(t)) => t,
        Ok(None) => return Err(CompilerError::SanityError(String::from_str("condition has no SymbolType (on IfElse.evaluate_node())"))),
        Err(e) => return Err(e),
    };
    condition_symbol.to_bool(*node_id, source)?;
    evaluate_node(if_true, code, stack, source)?;
    evaluate_node(if_false, code, stack, source)?;
    if let Some(n) = next {
        proof {
            assert(next_fits(*next, source@));
            assert(node_spans_fit(**n, source@));
            assert(next_defines(*next) == defines_functions(**n));
        }
        evaluate_node(n, code, stack, source)?;
    }
    Ok(None)
}

#[verifier::spinoff_prover]
fn evaluate_while(node: &AstNode, code: &mut IlocCode, stack: &mut ScopeStack, source: &SourceText) -> (r: Result<Option<SymbolType>, CompilerError>)
    requires
        node is While,
        node_spans_fit(*node, source@),
        spans_fit(old(stack)@, source@),
    ensures
        spans_fit(final(stack)@, source@),
        !defines_functions(*node) ==> final(code)@ == old(code)@,
        early_outcome(*node, old(stack)@, source@, r),
        node.next_node() is None ==> evaluation_outcome(*node, old(stack)@, final(stack)@, source@, r),
    decreases node, 1nat,
{
    let AstNode::While { node_id, condition, consequence, next } = node else {
        return Err(CompilerError::SanityError(String::from_str("node of another kind")));
    };
    let ghost s0 = stack@;
    let rc = evaluate_node(condition, code, stack, source);
    proof {
        if simple_value_type(**condition, s0, source@) is Some {
            lemma_simple_operand(**condition, s0, stack@, source@, rc);
        }
    }
    let condition_symbol = match rc {
        Ok(Some(t)) => t,
        Ok(None) => return Err(CompilerError::SanityError(String::from_str("condition has no SymbolType (on While.evaluate_node())"))),
        Err(e) => return Err(e),
    };
    condition_symbol.to_bool(*node_id, source)?;
    evaluate_node(consequence, code, stack, source)?;
    if let Some(n) = next {
        proof {
            assert(next_fits(*next, source@));
            assert(node_spans_fit(**n, source@));
            assert(next_defines(*next) == defines_functions(**n));
        }
        evaluate_node(n, code, stack, source)?;
    }
    Ok(None)
}

fn evaluate_vec_invoke(node: &AstNode, code: &mut IlocCode, stack: &mut ScopeStack, source: &SourceText) -> (r: Result<Option<SymbolType>, CompilerError>)
    requires
        node is VecInvoke,
        node_spans_fit(*node, source@),
        spans_fit(old(stack)@, source@),
    ensures
        spans_fit(final(stack)@, source@),
        !defines_functions(*node) ==> final(code)@ == old(code)@,
        early_outcome(*node, old(stack)@, source@, r),
        node.next_node() is None ==> evaluation_outcome(*node, old(stack)@, final(stack)@, source@, r),
    decreases node, 1nat,
{
    let AstNode::VecInvoke { node_id, next } = node else {
        return Err(CompilerError::SanityError(String::from_str("node of another kind")));
    };
    let type_value = {
        let previous_def = stack.get_previous_def(*node_id, source, SymbolClass::default_vec())?;
        previous_def.type_value.clone()
    };
    if let Some(n) = next {
        proof {
            assert(next_fits(*next, source@));
            assert(node_spans_fit(**n, source@));
            assert(next_defines(*next) == defines_functions(**n));
        }
        evaluate_node(n, code, stack, source)?;
    }
    Ok(Some(type_value))
}

#[verifier::spinoff_prover]
fn evaluate_literal_string(node: &AstNode, code: &mut IlocCode, stack: &mut ScopeStack, source: &SourceText) -> (r: Result<Option<SymbolType>, CompilerError>)
    requires
        node is LiteralString,
        node_spans_fit(*node, source@),
        spans_fit(old(stack)@, source@),
    ensures
        spans_fit(final(stack)@, source@),
        !defines_functions(*node) ==> final(code)@ == old(code)@,
        early_outcome(*node, old(stack)@, source@, r),
        node.next_node() is None ==> evaluation_outcome(*node, old(stack)@, final(stack)@, source@, r),
    decreases node, 1nat,
{
    let AstNode::LiteralString { node_id, next } = node else {
        return Err(CompilerError::SanityError(String::from_str("node of another kind")));
    };
    let span = *node_id;
    let id = source.span_str(span);
    let byte_len = id.as_str().as_bytes().len();
    let char_len = id.as_str().unicode_len();
    if byte_len < 2 || char_len < 2 {
        return Err(CompilerError::SanityError(String::from_str("on evaluate_node(), string smaller than 2 characters (no \") ")));
    }
    let value = String::from_str(id.as_str().substring_char(1, char_len - 1));
    let var_type = SymbolType::String(Some(value));
    let ((line, col), (_, _)) = source.line_col(span);
    let our_symbol = CallSymbol::new(id, span, line, col, var_type.clone(), SymbolClass::Lit);
    let ghost before = stack@;
    stack.push_symbol(our_symbol)?;
    proof {
        lemma_fit_same_defs(before, stack@, source@);
        assert(stack@.scopes.last().symbols.drop_last() =~= before.scopes.last().symbols);
        assert(stack@.scopes.drop_last() =~= before.scopes.drop_last());
    }
    if let Some(n) = next {
        proof {
            assert(next_fits(*next, source@));
            assert(node_spans_fit(**n, source@));
            assert(next_defines(*next) == defines_functions(**n));
        }
        evaluate_node(n, code, stack, source)?;
    }
    Ok(Some(var_type))
}

#[verifier::rlimit(40)]
#[verifier::spinoff_prover]
fn evaluate_literal_char(node: &AstNode, code: &mut IlocCode, stack: &mut ScopeStack, source: &SourceText) -> (r: Result<Option<SymbolType>, CompilerError>)
    requires
        node is LiteralChar,
        node_spans_fit(*node, source@),
        spans_fit(old(stack)@, source@),
    ensures
        spans_fit(final(stack)@, source@),
        !defines_functions(*node) ==> final(code)@ == old(code)@,
        early_outcome(*node, old(stack)@, source@, r),
        node.next_node() is None ==> evaluation_outcome(*node, old(stack)@, final(stack)@, source@, r),
    decreases node, 1nat,
{
    let AstNode::LiteralChar { node_id, next } = node else {
        return Err(CompilerError::SanityError(String::from_str("node of another kind")));
    };
    let span = *node_id;
    let id = source.span_str(span);
    let id_chars = id.as_str().as_bytes();
    if id_chars.len() != 3 {
        return Err(CompilerError::SanityError(String::from_str("on evaluate_node(), character not 3 characters long ")));
    }
    let var_value = id_chars[1];
    let ((line, col), (_, _)) = source.line_col(span);
    let our_symbol = CallSymbol::new(id, span, line, col, SymbolType::Char(Some(var_value)), SymbolClass::Lit);
    let ghost before = stack@;
    stack.push_symbol(our_symbol)?;
    proof {
        lemma_fit_same_defs(before, stack@, source@);
        assert(stack@.scopes.last().symbols.drop_last() =~= before.scopes.last().symbols);
        assert(stack@.scopes.drop_last() =~= before.scopes.drop_last());
    }
    if let Some(n) = next {
        proof {
            assert(next_fits(*next, source@));
            assert(node_spans_fit(**n, source@));
            assert(next_defines(*next) == defines_functions(**n));
        }
        evaluate_node(n, code, stack, source)?;
    }
    Ok(Some(SymbolType::Char(Some(var_value))))
}

#[verifier::spinoff_prover]
fn evaluate_var_set(node: &AstNode, code: &mut IlocCode, stack: &mut ScopeStack, source: &SourceText) -> (r: Result<Option<SymbolType>, CompilerError>)
    requires
        node is VarSet,
        node_spans_fit(*node, source@),
        spans_fit(old(stack)@, source@),
    ensures
        spans_fit(final(stack)@, source@),
        !defines_functions(*node) ==> final(code)@ == old(code)@,
        early_outcome(*node, old(stack)@, source@, r),
        node.next_node() is None ==> evaluation_outcome(*node, old(stack)@, final(stack)@, source@, r),
    decreases node, 1nat,
{
    let AstNode::VarSet { node_id, var_name, new_value, next } = node else {
        return Err(CompilerError::SanityError(String::from_str("node of another kind")));
    };
    let ghost s0 = stack@;
    let ghost target = assignment_to_variable(**var_name, **new_value, s0, source@);
    proof {
        reveal(simple_value_type);
    }
    let r1 = evaluate_node(var_name, code, stack, source);
    let ghost s1 = stack@;
    proof {
        if target is Some {
            lemma_simple_operand(**var_name, s0, s1, source@, r1);
            lemma_simple_stable(**new_value, s0, s1, source@);
        }
    }
    if r1.is_err() {
        return r1;
    }
    let r2 = evaluate_node(new_value, code, stack, source);
    proof {
        if target is Some {
            lemma_simple_operand(**new_value, s1, stack@, source@, r2);
            assert forall|k: int| 0 <= k < s0.scopes.len() implies #[trigger] s0.scopes[k].defs == stack@.scopes[k].defs by {
                assert(s0.scopes[k].defs == s1.scopes[k].defs);
            }
            if let AstNode::VarInvoke { node_id: n, .. } = **var_name {
                lemma_lookup_same_definitions(s0.scopes, stack@.scopes, span_text(source@, n));
            }
        }
    }
    let new_value_symbol = match r2 {
        Ok(Some(t)) => t,
        Ok(None) => return Err(CompilerError::SanityError(String::from_str("New value has no SymbolType (on VarSet.evaluate_node())"))),
        Err(e) => return Err(e),
    };
    let name_span = var_name.get_id();
    proof {
        assert(node_spans_fit(**var_name, source@));
        assert(span_fits(source@, name_span));
        lemma_lookup_fits(stack@.scopes, span_text(source@, name_span), source@);
    }
    {
        let def_symbol = stack.get_previous_def(name_span, source, SymbolClass::default_var())?;
        let _updated_symbol = def_symbol.cast_or_scream(&new_value_symbol, *node_id, source, true)?;
    }
    if let Some(n) = next {
        proof {
            assert(next_fits(*next, source@));
            assert(node_spans_fit(**n, source@));
            assert(next_defines(*next) == defines_functions(**n));
        }
        evaluate_node(n, code, stack, source)?;
    }
    Ok(None)
}

#[verifier::spinoff_prover]
fn evaluate_ternary(node: &AstNode, code: &mut IlocCode, stack: &mut ScopeStack, source: &SourceText) -> (r: Result<Option<SymbolType>, CompilerError>)
    requires
        node is Ternary,
        node_spans_fit(*node, source@),
        spans_fit(old(stack)@, source@),
    ensures
        spans_fit(final(stack)@, source@),
        !defines_functions(*node) ==> final(code)@ == old(code)@,
        early_outcome(*node, old(stack)@, source@, r),
        node.next_node() is None ==> evaluation_outcome(*node, old(stack)@, final(stack)@, source@, r),
    decreases node, 1nat,
{
    let AstNode::Ternary { left_span, right_span, condition, if_true, if_false, next } = node else {
        return Err(CompilerError::SanityError(String::from_str("node of another kind")));
    };
    let ghost s0 = stack@;
    let ghost all = simple_value_type(**condition, s0, source@) is Some && simple_value_type(**if_true, s0, source@) is Some
        && simple_value_type(**if_false, s0, source@) is Some;
    let rc = evaluate_node(condition, code, stack, source);
    let ghost s1 = stack@;
    proof {
        if all {
            lemma_simple_operand(**condition, s0, s1, source@, rc);
            lemma_simple_stable(**if_true, s0, s1, source@);
            lemma_simple_stable(**if_false, s0, s1, source@);
        }
    }
    let condition_symbol = match rc {
        Ok(Some(t)) => t,
        Ok(None) => return Err(CompilerError::SanityError(String::from_str("condition has no SymbolType (on Ternary.evaluate_node())"))),
        Err(e) => return Err(e),
    };
    let rt = evaluate_node(if_true, code, stack, source);
    let ghost s2 = stack@;
    proof {
        if all {
            lemma_simple_operand(**if_true, s1, s2, source@, rt);
            lemma_simple_stable(**if_false, s1, s2, source@);
        }
    }
    let if_true_symbol = match rt {
        Ok(Some(t)) => t,
        Ok(None) => return Err(CompilerError::SanityError(String::from_str("if_true has no SymbolType (on Ternary.evaluate_node())"))),
        Err(e) => return Err(e),
    };
    let rf = evaluate_node(if_false, code, stack, source);
    proof {
        if all {
            lemma_simple_operand(**if_false, s2, stack@, source@, rf);
        }
    }
    let if_false_symbol = match rf {
        Ok(Some(t)) => t,
        Ok(None) => return Err(CompilerError::SanityError(String::from_str("if_false has no SymbolType (on Ternary.evaluate_node())"))),
        Err(e) => return Err(e),
    };
    let return_symbol = match condition_symbol.to_bool(*left_span, source)? {
        Some(truthy_value) => if truthy_value {
            if_true_symbol
        } else {
            if_false_symbol
        },
        None => if_true_symbol.associate_with(&if_false_symbol, *right_span, source)?,
    };
    if let Some(n) = next {
        proof {
            assert(next_fits(*next, source@));
            assert(node_spans_fit(**n, source@));
            assert(next_defines(*next) == defines_functions(**n));
        }
        evaluate_node(n, code, stack, source)?;
    }
    Ok(Some(return_symbol))
}

#[verifier::spinoff_prover]
fn evaluate_var_def_init_lit(node: &AstNode, code: &mut IlocCode, stack: &mut ScopeStack, source: &SourceText) -> (r: Result<Option<SymbolType>, CompilerError>)
    requires
        node is VarDefInitLit,
        node_spans_fit(*node, source@),
        spans_fit(old(stack)@, source@),
    ensures
        spans_fit(final(stack)@, source@),
        !defines_functions(*node) ==> final(code)@ == old(code)@,
        early_outcome(*node, old(stack)@, source@, r),
        node.next_node() is None ==> evaluation_outcome(*node, old(stack)@, final(stack)@, source@, r),
    decreases node, 1nat,
{
    let AstNode::VarDefInitLit { node_id, var_def, var_value, next } = node else {
        return Err(CompilerError::SanityError(String::from_str("node of another kind")));
    };
    let ghost s0 = stack@;
    let ghost init = initialisation_from_literal(**var_def, **var_value, s0, source@);
    let r1 = evaluate_node(var_def, code, stack, source);
    let ghost s1 = stack@;
    proof {
        reveal(simple_value_type);
        if init is Some {
            assert(r1 is Ok);
            assert(s1.scopes.len() > 0);
            assert(simple_value_type(**var_value, s1, source@) is Some);
        }
    }
    if r1.is_err() {
        return r1;
    }
    let r2 = evaluate_node(var_value, code, stack, source);
    proof {
        if init is Some {
            lemma_simple_operand(**var_value, s1, stack@, source@, r2);
            lemma_lookup_same_definitions(s1.scopes, stack@.scopes, init->Some_0.0.id);
        }
    }
    let lit_symbol_type = match r2 {
        Ok(Some(t)) => t,
        Ok(None) => return Err(CompilerError::SanityError(String::from_str(
            "VarDefInitLit found no SymbolType (on self.var_value.evaluate_node())",
        ))),
        Err(e) => return Err(e),
    };
    let span = var_def.get_id();
    proof {
        assert(node_spans_fit(**var_def, source@));
        assert(span_fits(source@, span));
        lemma_lookup_fits(stack@.scopes, span_text(source@, span), source@);
    }
    let updated_symbol = {
        let def_symbol = stack.get_previous_def(span, source, SymbolClass::default_var())?;
        def_symbol.cast_or_scream(&lit_symbol_type, *node_id, source, false)?
    };
    let ghost before = stack@;
    let ghost sym = updated_symbol;
    stack.add_def_symbol(updated_symbol)?;
    proof {
        lemma_fit_defined(before, stack@, sym, source@);
        crate::scope::law_definition_is_found(before.scopes, sym, sym.id@);
    }
    if let Some(n) = next {
        proof {
            assert(next_fits(*next, source@));
            assert(node_spans_fit(**n, source@));
            assert(next_defines(*next) == defines_functions(**n));
        }
        evaluate_node(n, code, stack, source)?;
    }
    Ok(None)
}

#[verifier::spinoff_prover]
fn evaluate_var_def_init_id(node: &AstNode, code: &mut IlocCode, stack: &mut ScopeStack, source: &SourceText) -> (r: Result<Option<SymbolType>, CompilerError>)
    requires
        node is VarDefInitId,
        node_spans_fit(*node, source@),
        spans_fit(old(stack)@, source@),
    ensures
        spans_fit(final(stack)@, source@),
        !defines_functions(*node) ==> final(code)@ == old(code)@,
        early_outcome(*node, old(stack)@, source@, r),
        node.next_node() is None ==> evaluation_outcome(*node, old(stack)@, final(stack)@, source@, r),
    decreases node, 1nat,
{
    let AstNode::VarDefInitId { node_id, var_def, var_value, next } = node else {
        return Err(CompilerError::SanityError(String::from_str("node of another kind")));
    };
    let ghost s0 = stack@;
    let ghost init = initialisation_from_variable(**var_def, **var_value, s0, source@);
    let r1 = evaluate_node(var_def, code, stack, source);
    proof {
        if init is Some {
            assert(r1 is Ok);
        }
    }
    if r1.is_err() {
        return r1;
    }
    let ghost s1 = stack@;
    let r2 = evaluate_node(var_value, code, stack, source);
    proof {
        if init is Some {
            assert(stack@ == s1);
            assert(r2 is Ok);
        }
    }
    if r2.is_err() {
        return r2;
    }
    let span = var_def.get_id();
    let value_span = var_value.get_id();
    proof {
        assert(node_spans_fit(**var_def, source@));
        assert(node_spans_fit(**var_value, source@));
        assert(span_fits(source@, span));
        assert(span_fits(source@, value_span));
        lemma_lookup_fits(stack@.scopes, span_text(source@, span), source@);
    }
    let updated_symbol = {
        let def_symbol = stack.get_previous_def(span, source, SymbolClass::default_var())?;
        let var_symbol = stack.get_previous_def(value_span, source, SymbolClass::default_var())?;
        def_symbol.cast_or_scream(&var_symbol.type_value, *node_id, source, false)?
    };
    let ghost before = stack@;
    let ghost sym = updated_symbol;
    stack.add_def_symbol(updated_symbol)?;
    proof {
        lemma_fit_defined(before, stack@, sym, source@);
        crate::scope::law_definition_is_found(before.scopes, sym, sym.id@);
    }
    if let Some(n) = next {
        proof {
            assert(next_fits(*next, source@));
            assert(node_spans_fit(**n, source@));
            assert(next_defines(*next) == defines_functions(**n));
        }
        evaluate_node(n, code, stack, source)?;
    }
    Ok(None)
}

fn evaluate_for(node: &AstNode, code: &mut IlocCode, stack: &mut ScopeStack, source: &SourceText) -> (r: Result<Option<SymbolType>, CompilerError>)
    requires
        node is For,
        node_spans_fit(*node, source@),
        spans_fit(old(stack)@, source@),
    ensures
        spans_fit(final(stack)@, source@),
        !defines_functions(*node) ==> final(code)@ == old(code)@,
        early_outcome(*node, old(stack)@, source@, r),
        node.next_node() is None ==> evaluation_outcome(*node, old(stack)@, final(stack)@, source@, r),
    decreases node, 1nat,
{
    let AstNode::For { node_id, count_init, count_check, count_iter, actions, next } = node else {
        return Err(CompilerError::SanityError(String::from_str("node of another kind")));
    };
    evaluate_node(count_init, code, stack, source)?;
    let count_check_symbol = match evaluate_node(count_check, code, stack, source)? {
        Some(t) => t,
        None => return Err(CompilerError::SanityError(String::from_str("count_check has no SymbolType (on For.evaluate_node())"))),
    };
    count_check_symbol.to_bool(*node_id, source)?;
    evaluate_node(count_iter, code, stack, source)?;
    evaluate_node(actions, code, stack, source)?;
    if let Some(n) = next {
        proof {
            assert(next_fits(*next, source@));
            assert(node_spans_fit(**n, source@));
            assert(next_defines(*next) == defines_functions(**n));
        }
        evaluate_node(n, code, stack, source)?;
    }
    Ok(None)
}

#[verifier::spinoff_prover]
fn evaluate_shift(node: &AstNode, code: &mut IlocCode, stack: &mut ScopeStack, source: &SourceText) -> (r: Result<Option<SymbolType>, CompilerError>)
    requires
        node is VarLeftShift || node is VarRightShift,
        node_spans_fit(*node, source@),
        spans_fit(old(stack)@, source@),
    ensures
        spans_fit(final(stack)@, source@),
        !defines_functions(*node) ==> final(code)@ == old(code)@,
        early_outcome(*node, old(stack)@, source@, r),
        node.next_node() is None ==> evaluation_outcome(*node, old(stack)@, final(stack)@, source@, r),
    decreases node, 1nat,
{
    let (var_name, shift_amount, next, left) = match node {
        AstNode::VarLeftShift { node_id: _, var_name, shift_amount, next } => (var_name, shift_amount, next, true),
        AstNode::VarRightShift { node_id: _, var_name, shift_amount, next } => (var_name, shift_amount, next, false),
        _ => return Err(CompilerError::SanityError(String::from_str("node of another kind"))),
    };
    proof {
        assert(node_spans_fit(**var_name, source@) && node_spans_fit(**shift_amount, source@));
        assert(defines_functions(*node) == (defines_functions(**var_name) || defines_functions(**shift_amount) || next_defines(*next)));
    }
    let ghost s0 = stack@;
    let ghost amount = shift_amount_value(**var_name, **shift_amount, s0, source@);
    proof {
        if amount is Some {
            lemma_shift_shape(**var_name, **shift_amount, s0, source@);
        }
    }
    let r1 = evaluate_node(var_name, code, stack, source);
    let ghost s1 = stack@;
    proof {
        if amount is Some {
            lemma_simple_operand(**var_name, s0, s1, source@, r1);
            assert(s1.scopes.len() > 0);
        }
    }
    if r1.is_err() {
        return r1;
    }
    let r2 = evaluate_node(shift_amount, code, stack, source);
    proof {
        if amount is Some {
            assert(r2 is Ok);
            assert(stack@.scopes.len() > 0);
            assert(stack@.scopes.last().symbols.last().type_value == SymbolType::Int(IntValue::Literal(amount->0)));
        }
    }
    if r2.is_err() {
        return r2;
    }
    let symbol = match stack.pop_symbol()? {
        Some(symbol) => symbol,
        None => return Err(CompilerError::SanityError(String::from_str(if left {
            "failed to pop expected literal int symbol (on varLeftShift.evaluate_node())"
        } else {
            "failed to pop expected literal int symbol (on varRightShift.evaluate_node())"
        }))),
    };
    match symbol.type_value {
        SymbolType::Int(IntValue::Literal(value)) => {
            if value > 16 {
                let amount_span = shift_amount.get_id();
                let (line, col, highlight) = locate(amount_span, source);
                return Err(CompilerError::SemanticErrorWrongParShift { received_value: value, highlight, line, col });
            }
        },
        SymbolType::Int(_) => return Err(CompilerError::SanityError(String::from_str(if left {
            "shift_amount option received is None (on varLeftShift.evaluate_node())"
        } else {
            "shift_amount option received is None (on varRightShift.evaluate_node())"
        }))),
        _ => return Err(CompilerError::SanityError(String::from_str(if left {
            "shift_amount received is NOT a literal int (on varLeftShift.evaluate_node())"
        } else {
            "shift_amount received is NOT a literal int (on varRightShift.evaluate_node())"
        }))),
    }
    if let Some(n) = next {
        proof {
            assert(next_fits(*next, source@));
            assert(node_spans_fit(**n, source@));
            assert(next_defines(*next) == defines_functions(**n));
        }
        evaluate_node(n, code, stack, source)?;
    }
    Ok(None)
}

#[verifier::spinoff_prover]
fn evaluate_io(node: &AstNode, code: &mut IlocCode, stack: &mut ScopeStack, source: &SourceText) -> (r: Result<Option<SymbolType>, CompilerError>)
    requires
        node is Input || node is OutputId,
        node_spans_fit(*node, source@),
        spans_fit(old(stack)@, source@),
    ensures
        spans_fit(final(stack)@, source@),
        !defines_functions(*node) ==> final(code)@ == old(code)@,
        early_outcome(*node, old(stack)@, source@, r),
        node.next_node() is None ==> evaluation_outcome(*node, old(stack)@, final(stack)@, source@, r),
    decreases node, 1nat,
{
    let (var_name, next, input) = match node {
        AstNode::Input { node_id: _, var_name, next } => (var_name, next, true),
        AstNode::OutputId { node_id: _, var_name, next } => (var_name, next, false),
        _ => return Err(CompilerError::SanityError(String::from_str("node of another kind"))),
    };
    proof {
        assert(node_spans_fit(**var_name, source@));
        assert(defines_functions(*node) == (defines_functions(**var_name) || next_defines(*next)));
    }
    let ghost s0 = stack@;
    let ghost target = io_variable(**var_name, s0, source@);
    let r1 = evaluate_node(var_name, code, stack, source);
    proof {
        if target is Some {
            assert(r1 is Ok && stack@ == s0);
        }
    }
    if r1.is_err() {
        return r1;
    }
    let id = var_name.get_id();
    proof {
        lemma_lookup_fits(stack@.scopes, span_text(source@, id), source@);
    }
    {
        let var_def = stack.get_previous_def(id, source, SymbolClass::default_var())?;
        match var_def.type_value {
            SymbolType::Int(_) | SymbolType::Float(_) => {},
            _ => {
                let received_type = String::from_str(var_def.type_value.to_str());
                let (first_line, first_col, first_highlight) = locate(var_def.span, source);
                let (second_line, second_col, second_highlight) = locate(id, source);
                return Err(if input {
                    CompilerError::SemanticErrorWrongParInput {
                        received_type, first_highlight, first_line, first_col, second_highlight, second_line, second_col,
                    }
                } else {
                    CompilerError::SemanticErrorWrongParOutputId {
                        received_type, first_highlight, first_line, first_col, second_highlight, second_line, second_col,
                    }
                });
            },
        }
    }
    if let Some(n) = next {
        proof {
            assert(next_fits(*next, source@));
            assert(node_spans_fit(**n, source@));
            assert(next_defines(*next) == defines_functions(**n));
        }
        evaluate_node(n, code, stack, source)?;
    }
    Ok(None)
}

fn evaluate_var_invoke(node: &AstNode, code: &mut IlocCode, stack: &mut ScopeStack, source: &SourceText) -> (r: Result<Option<SymbolType>, CompilerError>)
    requires
        node is VarInvoke,
        node_spans_fit(*node, source@),
        spans_fit(old(stack)@, source@),
    ensures
        spans_fit(final(stack)@, source@),
        !defines_functions(*node) ==> final(code)@ == old(code)@,
        early_outcome(*node, old(stack)@, source@, r),
        node.next_node() is None ==> evaluation_outcome(*node, old(stack)@, final(stack)@, source@, r),
    decreases node, 1nat,
{
    let AstNode::VarInvoke { node_id, next } = node else {
        return Err(CompilerError::SanityError(String::from_str("node of another kind")));
    };
        let type_value = {
            let previous_def = stack.get_previous_def(*node_id, source, SymbolClass::default_var())?;
            previous_def.type_value.clone()
        };
        if let Some(n) = next {
            proof {
                assert(next_fits(*next, source@));
                assert(node_spans_fit(**n, source@));
                assert(next_defines(*next) == defines_functions(**n));
            }
            evaluate_node(n, code, stack, source)?;
        }
        Ok(Some(type_value))
}

#[verifier::spinoff_prover]
fn evaluate_literal_int(node: &AstNode, code: &mut IlocCode, stack: &mut ScopeStack, source: &SourceText) -> (r: Result<Option<SymbolType>, CompilerError>)
    requires
        node is LiteralInt,
        node_spans_fit(*node, source@),
        spans_fit(old(stack)@, source@),
    ensures
        spans_fit(final(stack)@, source@),
        !defines_functions(*node) ==> final(code)@ == old(code)@,
        early_outcome(*node, old(stack)@, source@, r),
        node.next_node() is None ==> evaluation_outcome(*node, old(stack)@, final(stack)@, source@, r),
    decreases node, 1nat,
{
    let AstNode::LiteralInt { node_id, next } = node else {
        return Err(CompilerError::SanityError(String::from_str("node of another kind")));
    };
        let span = *node_id;
        let id = source.span_str(span);
        let var_value = match parse_i32(id.as_str()) {
            Some(v) => v,
            None => return Err(parse_error(id, "i32")),
        };
        let var_type = SymbolType::Int(IntValue::Literal(var_value));
        let ((line, col), (_, _)) = source.line_col(span);
        let our_symbol = CallSymbol::new(id, span, line, col, SymbolType::Int(IntValue::Literal(var_value)), SymbolClass::Lit);
        let ghost before = stack@;
        stack.push_symbol(our_symbol)?;
        proof {
            lemma_fit_same_defs(before, stack@, source@);
            assert(stack@.scopes.last().symbols.drop_last() =~= before.scopes.last().symbols);
            assert(stack@.scopes.drop_last() =~= before.scopes.drop_last());
        }
        if let Some(n) = next {
            proof {
                assert(next_fits(*next, source@));
                assert(node_spans_fit(**n, source@));
                assert(next_defines(*next) == defines_functions(**n));
            }
            evaluate_node(n, code, stack, source)?;
        }
        Ok(Some(var_type))
}

#[verifier::spinoff_prover]
fn evaluate_literal_bool(node: &AstNode, code: &mut IlocCode, stack: &mut ScopeStack, source: &SourceText) -> (r: Result<Option<SymbolType>, CompilerError>)
    requires
        node is LiteralBool,
        node_spans_fit(*node, source@),
        spans_fit(old(stack)@, source@),
    ensures
        spans_fit(final(stack)@, source@),
        !defines_functions(*node) ==> final(code)@ == old(code)@,
        early_outcome(*node, old(stack)@, source@, r),
        node.next_node() is None ==> evaluation_outcome(*node, old(stack)@, final(stack)@, source@, r),
    decreases node, 1nat,
{
    let AstNode::LiteralBool { node_id, next } = node else {
        return Err(CompilerError::SanityError(String::from_str("node of another kind")));
    };
        let span = *node_id;
        let id = source.span_str(span);
        let var_value = if id == String::from_str("true") {
            true
        } else if id == String::from_str("false") {
            false
        } else {
            return Err(parse_error(id, "bool"));
        };
        proof {
            reveal_strlit("true");
            reveal_strlit("false");
        }
        let ((line, col), (_, _)) = source.line_col(span);
        let our_symbol = CallSymbol::new(id, span, line, col, SymbolType::Bool(Some(var_value)), SymbolClass::Lit);
        let ghost before = stack@;
        stack.push_symbol(our_symbol)?;
        proof {
            lemma_fit_same_defs(before, stack@, source@);
            assert(stack@.scopes.last().symbols.drop_last() =~= before.scopes.last().symbols);
            assert(stack@.scopes.drop_last() =~= before.scopes.drop_last());
        }
        if let Some(n) = next {
            proof {
                assert(next_fits(*next, source@));
                assert(node_spans_fit(**n, source@));
                assert(next_defines(*next) == defines_functions(**n));
            }
            evaluate_node(n, code, stack, source)?;
        }
        Ok(Some(SymbolType::Bool(Some(var_value))))
}

#[verifier::spinoff_prover]
fn evaluate_fn_call(node: &AstNode, code: &mut IlocCode, stack: &mut ScopeStack, source: &SourceText) -> (r: Result<Option<SymbolType>, CompilerError>)
    requires
        node is FnCall,
        node_spans_fit(*node, source@),
        spans_fit(old(stack)@, source@),
    ensures
        spans_fit(final(stack)@, source@),
        !defines_functions(*node) ==> final(code)@ == old(code)@,
        early_outcome(*node, old(stack)@, source@, r),
        node.next_node() is None ==> evaluation_outcome(*node, old(stack)@, final(stack)@, source@, r),
    decreases node, 1nat,
{
    let AstNode::FnCall { node_id, args, next } = node else {
        return Err(CompilerError::SanityError(String::from_str("node of another kind")));
    };
        let span = *node_id;
        proof {
            lemma_lookup_fits(stack@.scopes, span_text(source@, span), source@);
        }
        let (parameters, type_value, def_line, def_col, def_span) = {
            let previous_def = stack.get_previous_def(span, source, SymbolClass::Fn(Vec::new()))?;
            match &previous_def.class {
                SymbolClass::Fn(params) => (
                    crate::semantics::copy_parameters(params),
                    previous_def.type_value.clone(),
                    previous_def.line,
                    previous_def.col,
                    previous_def.span,
                ),
                _ => {
                    return Err(CompilerError::SanityError(String::from_str(
                        "FnCall.evaluate_node() received an invalid class from previous def.",
                    )))
                },
            }
        };
        let args_num = args.len();
        let params_num = parameters.len();
        match check_arity(args_num, params_num) {
            Ok(()) => {},
            Err(mismatch) => {
                let id = source.span_str(span);
                let (_, _, first_highlight) = locate(def_span, source);
                let (second_line, second_col, second_highlight) = locate(span, source);
                return Err(match mismatch {
                    ArgumentMismatch::Missing => CompilerError::SemanticErrorMissingArgs {
                        id, first_line: def_line, first_col: def_col, first_highlight,
                        second_line, second_col, second_highlight,
                    },
                    _ => CompilerError::SemanticErrorExcessArgs {
                        id, first_line: def_line, first_col: def_col, first_highlight,
                        second_line, second_col, second_highlight,
                    },
                });
            },
        }
        if params_num > 0 {
            check_call_arguments(node, args, &parameters, span, def_span, def_line, def_col, code, stack, source)?;
        }
        if let Some(n) = next {
            proof {
                assert(next_fits(*next, source@));
                assert(node_spans_fit(**n, source@));
                assert(next_defines(*next) == defines_functions(**n));
            }
            evaluate_node(n, code, stack, source)?;
        }
        Ok(Some(type_value))
}

#[verifier::spinoff_prover]
fn evaluate_binary(node: &AstNode, code: &mut IlocCode, stack: &mut ScopeStack, source: &SourceText) -> (r: Result<Option<SymbolType>, CompilerError>)
    requires
        node is Binary,
        node_spans_fit(*node, source@),
        spans_fit(old(stack)@, source@),
    ensures
        spans_fit(final(stack)@, source@),
        !defines_functions(*node) ==> final(code)@ == old(code)@,
        early_outcome(*node, old(stack)@, source@, r),
        node.next_node() is None ==> evaluation_outcome(*node, old(stack)@, final(stack)@, source@, r),
    decreases node, 1nat,
{
    let AstNode::Binary { node_id, op_type, lhs, rhs, next } = node else {
        return Err(CompilerError::SanityError(String::from_str("node of another kind")));
    };
        let ghost s0 = stack@;
        let ghost both = simple_value_type(**lhs, s0, source@) is Some && simple_value_type(**rhs, s0, source@) is Some;
        let rl = evaluate_node(lhs, code, stack, source);
        let ghost s1 = stack@;
        proof {
            if both {
                lemma_simple_operand(**lhs, s0, s1, source@, rl);
                lemma_simple_stable(**rhs, s0, s1, source@);
            }
        }
        let left = match rl {
            Ok(Some(t)) => t,
            Ok(None) => return Err(CompilerError::SanityError(String::from_str("lhs.evaluate_node() returned None for Binary"))),
            Err(e) => return Err(e),
        };
        let rr = evaluate_node(rhs, code, stack, source);
        proof {
            if both {
                lemma_simple_operand(**rhs, s1, stack@, source@, rr);
            }
        }
        let right = match rr {
            Ok(Some(t)) => t,
            Ok(None) => return Err(CompilerError::SanityError(String::from_str("rhs.evaluate_node() returned None for Binary"))),
            Err(e) => return Err(e),
        };
        if next.is_some() {
            return Err(CompilerError::SanityError(String::from_str("Binary has a self.next node")));
        }
        if binary_folding_overflows(*op_type, &left, &right) {
            return Err(CompilerError::SanityError(String::from_str("constant expression overflows i32")));
        }
        match binary_evaluation(*op_type, left, right, *node_id, source)? {
            Folded::Known(t) => Ok(Some(t)),
            Folded::FloatOperation(op, _, _) => if is_arithmetic_exec(op) {
                Ok(Some(SymbolType::Float(None)))
            } else {
                Ok(Some(SymbolType::Bool(None)))
            },
        }
}

#[verifier::spinoff_prover]
fn evaluate_unary(node: &AstNode, code: &mut IlocCode, stack: &mut ScopeStack, source: &SourceText) -> (r: Result<Option<SymbolType>, CompilerError>)
    requires
        node is Unary,
        node_spans_fit(*node, source@),
        spans_fit(old(stack)@, source@),
    ensures
        spans_fit(final(stack)@, source@),
        !defines_functions(*node) ==> final(code)@ == old(code)@,
        early_outcome(*node, old(stack)@, source@, r),
        node.next_node() is None ==> evaluation_outcome(*node, old(stack)@, final(stack)@, source@, r),
    decreases node, 1nat,
{
    let AstNode::Unary { node_id, op_type, operand, next } = node else {
        return Err(CompilerError::SanityError(String::from_str("node of another kind")));
    };
        if next.is_some() {
            return Err(CompilerError::LexicalError(String::from_str("Unary struct holds a reference to a next node")));
        }
        let ghost s0 = stack@;
        let ro = evaluate_node(operand, code, stack, source);
        proof {
            if simple_value_type(**operand, s0, source@) is Some {
                lemma_simple_operand(**operand, s0, stack@, source@, ro);
            }
        }
        let type_value = match ro {
            Ok(Some(t)) => t,
            Ok(None) => return Err(CompilerError::SanityError(String::from_str("Unary struct operand returned no value on evaluation"))),
            Err(e) => return Err(e),
        };
        let folded = unary_evaluation(*op_type, type_value, *node_id, source)?;
        Ok(Some(folded))
}

fn evaluate_command_block(node: &AstNode, code: &mut IlocCode, stack: &mut ScopeStack, source: &SourceText) -> (r: Result<Option<SymbolType>, CompilerError>)
    requires
        node is CommandBlock,
        node_spans_fit(*node, source@),
        spans_fit(old(stack)@, source@),
    ensures
        spans_fit(final(stack)@, source@),
        !defines_functions(*node) ==> final(code)@ == old(code)@,
        early_outcome(*node, old(stack)@, source@, r),
        node.next_node() is None ==> evaluation_outcome(*node, old(stack)@, final(stack)@, source@, r),
    decreases node, 1nat,
{
    let AstNode::CommandBlock { node_id: _, first_command, next } = node else {
        return Err(CompilerError::SanityError(String::from_str("node of another kind")));
    };
        if let Some(command) = first_command {
            let ghost before = stack@;
            stack.add_scope(None);
            proof {
                lemma_fit_opened(before, stack@, None, source@);
            }
            proof {
                assert(next_fits(*first_command, source@));
                assert(node_spans_fit(**command, source@));
                assert(next_defines(*first_command) == defines_functions(**command));
            }
            evaluate_node(command, code, stack, source)?;
            let ghost middle = stack@;
            stack.remove_scope()?;
            proof {
                lemma_fit_closed(middle, stack@, source@);
            }
        }
        if let Some(n) = next {
            proof {
                assert(next_fits(*next, source@));
                assert(node_spans_fit(**n, source@));
                assert(next_defines(*next) == defines_functions(**n));
            }
            evaluate_node(n, code, stack, source)?;
        }
        Ok(None)
}

/// Evaluates the arguments of a call one after the other, checking each
/// against the type of its parameter as `check_argument` does.
/// Evaluates a part of a function definition (its body, or the node that
/// follows it), of which the definition needs only that it keeps the
/// symbol table's spans within the source and leaves the code alone
/// unless it defines a function.
fn evaluate_part(node: &AstNode, code: &mut IlocCode, stack: &mut ScopeStack, source: &SourceText) -> (r: Result<Option<SymbolType>, CompilerError>)
    requires
        node_spans_fit(*node, source@),
        spans_fit(old(stack)@, source@),
    ensures
        spans_fit(final(stack)@, source@),
        !defines_functions(*node) ==> final(code)@ == old(code)@,
    decreases node, 3nat,
{
    evaluate_node(node, code, stack, source)
}

#[verifier::rlimit(100)]
#[verifier::spinoff_prover]
fn evaluate_fn_def(node: &AstNode, code: &mut IlocCode, stack: &mut ScopeStack, source: &SourceText) -> (r: Result<Option<SymbolType>, CompilerError>)
    requires
        node is FnDef,
        node_spans_fit(*node, source@),
        spans_fit(old(stack)@, source@),
    ensures
        spans_fit(final(stack)@, source@),
        !defines_functions(*node) ==> final(code)@ == old(code)@,
        early_outcome(*node, old(stack)@, source@, r),
        node.next_node() is None ==> evaluation_outcome(*node, old(stack)@, final(stack)@, source@, r),
        definition_code(*node, old(code)@, final(code)@, source@, r),
    decreases node, 1nat,
{
    let AstNode::FnDef { is_static: _, return_type, node_id, params, first_command, next } = node else {
        return Err(CompilerError::SanityError(String::from_str("node of another kind")));
    };
    let span = *node_id;
    stack.check_duplicate(span, source)?;
    let declared = source.span_str(*return_type);
    let return_type = SymbolType::from_str(declared.as_str())?;
    let id = source.span_str(span);
    let ((line, col), (_, _)) = source.line_col(span);
    let our_symbol = DefSymbol::new(
        id.clone(), span, line, col, return_type.clone(),
        SymbolClass::Fn(crate::semantics::copy_parameters(params)), None, Register::Rbss, 0,
    );
    let ghost before = stack@;
    stack.add_scope(Some(return_type));
    proof {
        lemma_fit_opened(before, stack@, Some(return_type), source@);
    }
    let mut starting_size: u32 = 16;
    let mut i: usize = 0;
    while i < params.len()
        invariant
            i <= params@.len() < 0x1000_0000,
            *node is FnDef,
            starting_size <= 16 + 8 * i,
            starting_size == frame_size(params@.take(i as int), source@),
            forall|x: Result<Option<SymbolType>, CompilerError>| #[trigger] early_outcome(*node, old(stack)@, source@, x),
            spans_fit(stack@, source@),
            code@ == old(code)@,
            forall|k: int| 0 <= k < params@.len()
                ==> span_fits(source@, #[trigger] params@[k].param_type) && span_fits(source@, params@[k].node_id),
        decreases params@.len() - i,
    {
        assert(span_fits(source@, params@[i as int].param_type) && span_fits(source@, params@[i as int].node_id));
        let size = evaluate_param(&params[i], stack, source)?;
        proof {
            assert(params@.take(i + 1).drop_last() =~= params@.take(i as int));
            assert(params@.take(i + 1).last() == params@[i as int]);
        }
        starting_size = starting_size + size;
        i = i + 1;
    }
    proof {
        assert(params@.take(i as int) =~= params@);
    }
    if code.label_count() == u32::MAX || code.register_count() > u32::MAX - 3 {
        return Err(CompilerError::SanityError(String::from_str("the code buffer has run out of labels or registers")));
    }
    let ghost c0 = code@;
    let ghost name = id@;
    let ghost clean = !next_defines(*first_command);
    let new_label = code.add_fn_label(id);
    let ghost calls = seq![BufferCall::AddFnLabel(name)];
    proof {
        lemma_after_calls_push(c0, seq![], BufferCall::AddFnLabel(name));
        assert(seq![].push(BufferCall::AddFnLabel(name)) =~= calls);
    }
    let line1 = CodeLine::Deliver(Instruction::Labeled(new_label, Operation::Nop));
    code.push_code(line1);
    proof {
        lemma_after_calls_push(c0, calls, BufferCall::PushCode(line1));
        calls = calls.push(BufferCall::PushCode(line1));
    }
    let line2 = CodeLine::Deliver(Instruction::Unlabeled(Operation::I2i(Register::Rsp, Register::Rfp)));
    code.push_code(line2);
    proof {
        lemma_after_calls_push(c0, calls, BufferCall::PushCode(line2));
        calls = calls.push(BufferCall::PushCode(line2));
    }
    let line3 = CodeLine::Deliver(Instruction::Unlabeled(Operation::AddI(Register::Rsp, starting_size as i32, Register::Rsp)));
    code.push_code(line3);
    proof {
        lemma_after_calls_push(c0, calls, BufferCall::PushCode(line3));
        calls = calls.push(BufferCall::PushCode(line3));
        assert(code@ == after_calls(c0, calls));
    }
    let ghost entry = code@;
    if let Some(command) = first_command {
        proof {
            assert(next_fits(*first_command, source@));
            assert(node_spans_fit(**command, source@));
            assert(next_defines(*first_command) == defines_functions(**command));
        }
        evaluate_part(command, code, stack, source)?;
    }
    proof {
        assert(clean ==> code@ == after_calls(c0, calls));
    }
    let ghost middle = stack@;
    stack.remove_scope()?;
    proof {
        lemma_fit_closed(middle, stack@, source@);
    }
    let ghost closed = stack@;
    let ghost sym = our_symbol;
    stack.add_def_symbol(our_symbol)?;
    proof {
        lemma_fit_defined(closed, stack@, sym, source@);
        crate::scope::law_definition_is_found(closed.scopes, sym, sym.id@);
    }
    if code.register_count() > u32::MAX - 3 {
        return Err(CompilerError::SanityError(String::from_str("the code buffer has run out of labels or registers")));
    }
    let ghost k = code@.register_counter;
    let return_addr_reg = code.new_register();
    proof {
        if clean {
            lemma_after_calls_push(c0, calls, BufferCall::NewRegister);
        }
        calls = calls.push(BufferCall::NewRegister);
    }
    let restore_rsp_reg = code.new_register();
    proof {
        if clean {
            lemma_after_calls_push(c0, calls, BufferCall::NewRegister);
        }
        calls = calls.push(BufferCall::NewRegister);
    }
    let restore_rfp_reg = code.new_register();
    proof {
        if clean {
            lemma_after_calls_push(c0, calls, BufferCall::NewRegister);
        }
        calls = calls.push(BufferCall::NewRegister);
    }
    let line4 = CodeLine::Deliver(Instruction::Unlabeled(Operation::LoadAI(Register::Rfp, 0, return_addr_reg)));
    code.push_code(line4);
    proof {
        if clean {
            lemma_after_calls_push(c0, calls, BufferCall::PushCode(line4));
        }
        calls = calls.push(BufferCall::PushCode(line4));
    }
    let line5 = CodeLine::Deliver(Instruction::Unlabeled(Operation::LoadAI(Register::Rfp, 4, restore_rsp_reg)));
    code.push_code(line5);
    proof {
        if clean {
            lemma_after_calls_push(c0, calls, BufferCall::PushCode(line5));
        }
        calls = calls.push(BufferCall::PushCode(line5));
    }
    let line6 = CodeLine::Deliver(Instruction::Unlabeled(Operation::LoadAI(Register::Rfp, 8, restore_rfp_reg)));
    code.push_code(line6);
    proof {
        if clean {
            lemma_after_calls_push(c0, calls, BufferCall::PushCode(line6));
        }
        calls = calls.push(BufferCall::PushCode(line6));
    }
    let line7 = CodeLine::Deliver(Instruction::Unlabeled(Operation::I2i(restore_rsp_reg, Register::Rsp)));
    code.push_code(line7);
    proof {
        if clean {
            lemma_after_calls_push(c0, calls, BufferCall::PushCode(line7));
        }
        calls = calls.push(BufferCall::PushCode(line7));
    }
    let line8 = CodeLine::Deliver(Instruction::Unlabeled(Operation::I2i(restore_rfp_reg, Register::Rfp)));
    code.push_code(line8);
    proof {
        if clean {
            lemma_after_calls_push(c0, calls, BufferCall::PushCode(line8));
        }
        calls = calls.push(BufferCall::PushCode(line8));
    }
    let line9 = CodeLine::Deliver(Instruction::Unlabeled(Operation::Jump(return_addr_reg)));
    code.push_code(line9);
    proof {
        if clean {
            lemma_after_calls_push(c0, calls, BufferCall::PushCode(line9));
        }
        calls = calls.push(BufferCall::PushCode(line9));
        assert(calls =~= definition_calls(name, c0.label_counter, frame_size(params@, source@) as u32, k));
        assert(clean ==> code@ == after_calls(c0, calls));
    }
    if let Some(n) = next {
        proof {
            assert(next_fits(*next, source@));
            assert(node_spans_fit(**n, source@));
            assert(next_defines(*next) == defines_functions(**n));
        }
        evaluate_part(n, code, stack, source)?;
    }
    Ok(None)
}

/// Evaluates a parameter of a function being defined: defines it as a
/// variable of the function's scope and gives its size. A string
/// parameter is refused.
pub fn evaluate_param(param: &Parameter, stack: &mut ScopeStack, source: &SourceText) -> (r: Result<u32, CompilerError>)
    requires
        span_fits(source@, param.param_type),
        span_fits(source@, param.node_id),
        spans_fit(old(stack)@, source@),
    ensures
        spans_fit(final(stack)@, source@),
        r matches Ok(size) ==> size <= 8,
        r matches Ok(size) ==> (declared_type(span_text(source@, param.param_type)) matches Some(t)
            && !(t is String) && size == type_size(t)),
        match declared_type(span_text(source@, param.param_type)) {
            Some(SymbolType::String(_)) => old(stack)@.scopes.len() > 0
                && !old(stack)@.scopes.last().defs.contains_key(span_text(source@, param.node_id))
                ==> (r matches Err(e) && e@ == ErrorView::SemanticErrorFunctionString {
                    id: span_text(source@, param.node_id),
                    line: start_line(source@, param.node_id),
                    col: start_col(source@, param.node_id),
                    highlight: span_highlight(source@, param.node_id),
                }),
            Some(t) => r matches Ok(size) ==> {
                &&& size == crate::semantics::type_size(t)
                &&& lookup(final(stack)@.scopes, span_text(source@, param.node_id)) matches Some(d)
                &&& d.type_value == t
                &&& d.class is Var
            },
            None => r is Err,
        },
{
    let span = param.node_id;
    stack.check_duplicate(span, source)?;
    let declared = source.span_str(param.param_type);
    let var_type = SymbolType::from_str(declared.as_str())?;
    if let SymbolType::String(_) = var_type {
        let id = source.span_str(span);
        let (line, col, highlight) = locate(span, source);
        return Err(CompilerError::SemanticErrorFunctionString { id, line, col, highlight });
    }
    let id = source.span_str(span);
    let ((line, col), (_, _)) = source.line_col(span);
    let size = var_type.get_symbol_type_size();
    let our_symbol = DefSymbol::new(id, span, line, col, var_type, SymbolClass::default_var(), Some(size), Register::Rfp, 0);
    let ghost before = stack@;
    let ghost sym = our_symbol;
    stack.add_def_symbol(our_symbol)?;
    proof {
        lemma_fit_defined(before, stack@, sym, source@);
        crate::scope::law_definition_is_found(before.scopes, sym, sym.id@);
        assert forall|x: Seq<char>| x != sym.id@ implies #[trigger] lookup(stack@.scopes, x) == lookup(before.scopes, x) by {
            crate::scope::law_definition_is_found(before.scopes, sym, x);
        }
    }
    Ok(size)
}

proof fn lemma_args_define_index(args: Seq<AstNode>, i: int)
    requires
        0 <= i < args.len(),
    ensures
        !args_define(args) ==> !defines_functions(args[i]),
    decreases args.len(),
{
    if i < args.len() - 1 {
        assert(args.drop_last()[i] == args[i]);
        lemma_args_define_index(args.drop_last(), i);
    }
}

#[verifier::loop_isolation(false)]
#[verifier::spinoff_prover]
fn check_call_arguments(
    node: &AstNode,
    args: &Vec<AstNode>,
    parameters: &Vec<Parameter>,
    span: Span,
    def_span: Span,
    def_line: usize,
    def_col: usize,
    code: &mut IlocCode,
    stack: &mut ScopeStack,
    source: &SourceText,
) -> (r: Result<(), CompilerError>)
    requires
        match *node { AstNode::FnCall { args: a, .. } => a == *args, _ => false },
        args@.len() == parameters@.len(),
        forall|k: int| 0 <= k < parameters@.len() ==> span_fits(source@, #[trigger] parameters@[k].param_type)
            && span_fits(source@, parameters@[k].node_id),
        args_fit(args@, source@),
        spans_fit(old(stack)@, source@),
        span_fits(source@, span),
        span_fits(source@, def_span),
    ensures
        spans_fit(final(stack)@, source@),
        !args_define(args@) ==> final(code)@ == old(code)@,
        (all_simple(args@, old(stack)@, source@) && params_declared(parameters@, source@)) ==> match first_argument_error(
            args@, parameters@, old(stack)@, source@, span, def_span, def_line, def_col, 0,
        ) {
            Some(e) => r matches Err(x) && x@ == e,
            None => r is Ok && same_definitions(old(stack)@, final(stack)@),
        },
    decreases node, 0nat,
{
    let ghost s_start = stack@;
    let ghost simple = all_simple(args@, s_start, source@) && params_declared(parameters@, source@);
    let params_num = parameters.len();
    let args_num = args.len();
        let mut param_types: Vec<SymbolType> = Vec::new();
        let mut j: usize = 0;
        while j < params_num
            invariant
                j <= params_num,
                param_types@.len() == j,
                forall|k: int| 0 <= k < j ==> declared_type(span_text(source@, parameters@[k].param_type))
                    == Some(#[trigger] param_types@[k]),
            decreases params_num - j,
        {
            let t = parameters[j].get_symbol_type(source)?;
            param_types.push(t);
            j = j + 1;
        }
        let mut i: usize = 0;
        while i < args_num
            invariant
                i <= args_num,
                spans_fit(stack@, source@),
                !args_define(args@) ==> code@ == old(code)@,
                simple ==> same_definitions(s_start, stack@),
                simple ==> first_argument_error(args@, parameters@, s_start, source@, span, def_span, def_line, def_col, 0)
                    == first_argument_error(args@, parameters@, s_start, source@, span, def_span, def_line, def_col, i as int),
            decreases args_num - i,
        {
            proof {
                lemma_args_fit_index(args@, i as int, source@);
                lemma_args_define_index(args@, i as int);
            }
            let arg = &args[i];
            proof {
                assert(decreases_to!(*node => *args));
                assert(decreases_to!(*args => args@));
                assert(decreases_to!(args@ => args@[i as int]));
            }
            let ghost cur = stack@;
            proof {
                if simple {
                    assert(simple_value_type(args@[i as int], s_start, source@) is Some);
                    lemma_simple_stable(args@[i as int], s_start, cur, source@);
                }
            }
            let ra = evaluate_node(arg, code, stack, source);
            proof {
                if simple {
                    lemma_simple_operand(args@[i as int], cur, stack@, source@, ra);
                    assert forall|k: int| 0 <= k < s_start.scopes.len() implies #[trigger] s_start.scopes[k].defs
                        == stack@.scopes[k].defs by {
                        assert(s_start.scopes[k].defs == cur.scopes[k].defs);
                        assert(cur.scopes[k].defs == stack@.scopes[k].defs);
                    }
                    assert(declared_type(span_text(source@, parameters@[i as int].param_type)) == Some(param_types@[i as int]));
                }
            }
            let arg_type = match ra {
                Ok(Some(t)) => t,
                Ok(None) => {
                    return Err(CompilerError::SanityError(String::from_str(
                        "FnCall error; .evaluate_node() on arg returned no type",
                    )))
                },
                Err(e) => return Err(e),
            };
            match check_argument(&arg_type, &param_types[i]) {
                Ok(()) => {},
                Err(ArgumentMismatch::StringArgument) => {
                    let pspan = parameters[i].node_id;
                    assert(span_fits(source@, parameters@[i as int].param_type));
                    let id = source.span_str(pspan);
                    let (line, col, highlight) = locate(pspan, source);
                    return Err(CompilerError::SemanticErrorFunctionString { id, line, col, highlight });
                },
                Err(ArgumentMismatch::StringParameter) => {
                    let aspan = arg.get_id();
                    let id = source.span_str(aspan);
                    let (line, col, highlight) = locate(aspan, source);
                    return Err(CompilerError::SemanticErrorFunctionString { id, line, col, highlight });
                },
                Err(_) => {
                    let id = source.span_str(span);
                    let (_, _, first_highlight) = locate(def_span, source);
                    let (second_line, second_col, second_highlight) = locate(span, source);
                    return Err(CompilerError::SemanticErrorWrongTypeArgs {
                        id, first_line: def_line, first_col: def_col, first_highlight,
                        second_line, second_col, second_highlight,
                    });
                },
            }
            i = i + 1;
        }
    
    Ok(())
}

/// The symbol table of a program before any node is evaluated: one scope,
/// with no type.
pub open spec fn fresh_table() -> ScopeStackModel {
    ScopeStackModel { scopes: seq![fresh_scope(None)], offsets: seq![0u32] }
}

/// What a program's evaluation gives once its top node has been evaluated
/// with the result `rn`, leaving the code buffer `m`: the node's error, or
/// the buffer with its promises collected, or the error of the collection.
pub open spec fn program_result(rn: Result<Option<SymbolType>, CompilerError>, m: IlocCodeModel, r: Result<IlocCode, CompilerError>) -> bool {
    match rn {
        Err(e) => r == Err::<IlocCode, CompilerError>(e),
        Ok(_) => match collected_code(m) {
            Ok(lines) => r matches Ok(c) && c@ == (IlocCodeModel { code_lines: lines, ..m }),
            Err(e) => r matches Err(x) && x@ == e,
        },
    }
}

/// Evaluates a whole program: its nodes against a fresh symbol table, into
/// a fresh code buffer whose promises are then collected. The result is
/// `Ok` exactly when the evaluation of the nodes and the collection both
/// succeed, and then it is the collected code.
pub fn evaluate(top_node: &Option<AstNode>, source: &SourceText) -> (r: Result<IlocCode, CompilerError>)
    requires
        top_node matches Some(n) ==> node_spans_fit(*n, source@),
    ensures
        top_node is None ==> (r matches Err(e) && e@ == ErrorView::IlocErrorUndefinedBehavior(
            "No main() function found."@,
        )),
        top_node matches Some(n) ==> exists|m: IlocCodeModel, rn: Result<Option<SymbolType>, CompilerError>| {
            &&& #[trigger] program_result(rn, m, r)
            &&& early_outcome(*n, fresh_table(), source@, rn)
            &&& (n.next_node() is None ==> exists|s1: ScopeStackModel| #[trigger] evaluation_outcome(*n, fresh_table(), s1, source@, rn))
            &&& definition_code(*n, fresh_buffer(), m, source@, rn)
            &&& (!defines_functions(*n) ==> m == fresh_buffer())
        },
{
    let mut code = IlocCode::new();
    if let Some(node) = top_node {
        let mut stack = ScopeStack::new();
        proof {
            assert forall|k: int, id: Seq<char>| 0 <= k < stack@.scopes.len() && #[trigger] stack@.scopes[k].defs.contains_key(id)
                implies symbol_fits(source@, stack@.scopes[k].defs[id]) by {}
            assert(stack@.scopes =~= fresh_table().scopes);
            assert(stack@.offsets =~= fresh_table().offsets);
            assert(stack@ == fresh_table());
        }
        let rn = evaluate_node(node, &mut code, &mut stack, source);
        let ghost m = code@;
        let ghost s1 = stack@;
        let r = match rn {
            Err(e) => Err(e),
            Ok(_) => match code.collect_promises() {
                Ok(()) => Ok(code),
                Err(e) => Err(e),
            },
        };
        proof {
            assert(program_result(rn, m, r));
            assert(early_outcome(*node, fresh_table(), source@, rn));
            if node.next_node() is None {
                assert(evaluation_outcome(*node, fresh_table(), s1, source@, rn));
            }
            assert(*top_node == Some(*node));
            assert(definition_code(*node, fresh_buffer(), m, source@, rn));
        }
        return r;
    }
    proof {
        let m = code@;
        assert(!m.labels.contains_key("main"@));
        assert(m.code_lines.take(8).drop_last() =~= m.code_lines.take(7));
        assert(m.code_lines =~= m.code_lines.take(9));
        reveal_with_fuel(crate::instructions::expand_lines, 10);
        assert(crate::instructions::expand_lines(m.code_lines.take(8), m) is Err);
    }
    code.collect_promises()?;
    Ok(code)
}

fn is_arithmetic_exec(op: BinaryType) -> (r: bool)
    ensures
        r == is_arithmetic(op),
{
    match op {
        BinaryType::Add | BinaryType::Sub | BinaryType::Mult | BinaryType::Div | BinaryType::Mod => true,
        _ => false,
    }
}

proof fn lemma_args_fit_index(args: Seq<AstNode>, i: int, src: Seq<char>)
    requires
        args_fit(args, src),
        0 <= i < args.len(),
    ensures
        node_spans_fit(args[i], src),
    decreases args.len(),
{
    if i < args.len() - 1 {
        assert(args.drop_last()[i] == args[i]);
        lemma_args_fit_index(args.drop_last(), i, src);
    }
}


/// A conditional expression `c ? a : b` whose condition is the literal
/// `true` or `false`, and whose branches are simple operands, yields the
/// value of the branch the literal picks: `a` for `true`, `b` for `false`.
#[verifier::spinoff_prover]
pub proof fn law_literal_condition_picks_branch(
    left_span: Span,
    right_span: Span,
    c: Span,
    a: AstNode,
    b: AstNode,
    before: ScopeStackModel,
    after: ScopeStackModel,
    src: Seq<char>,
    r: Result<Option<SymbolType>, CompilerError>,
)
    requires
        before.scopes.len() > 0,
        span_text(src, c) == "true"@ || span_text(src, c) == "false"@,
        simple_value_type(a, before, src) is Some,
        simple_value_type(b, before, src) is Some,
        evaluation_outcome(
            AstNode::Ternary {
                left_span,
                right_span,
                condition: Box::new(AstNode::LiteralBool { node_id: c, next: None }),
                if_true: Box::new(a),
                if_false: Box::new(b),
                next: None,
            },
            before,
            after,
            src,
            r,
        ),
    ensures
        span_text(src, c) == "true"@ ==> r == Ok::<Option<SymbolType>, CompilerError>(Some(simple_value_type(a, before, src)->Some_0)),
        span_text(src, c) == "false"@ ==> r == Ok::<Option<SymbolType>, CompilerError>(Some(simple_value_type(b, before, src)->Some_0)),
{
    lemma_truth_literal_value(c, before, src);
}

proof fn lemma_truth_literal_value(c: Span, before: ScopeStackModel, src: Seq<char>)
    requires
        before.scopes.len() > 0,
        span_text(src, c) == "true"@ || span_text(src, c) == "false"@,
    ensures
        simple_value_type(AstNode::LiteralBool { node_id: c, next: None }, before, src)
            == Some(SymbolType::Bool(Some(span_text(src, c) == "true"@))),
        (span_text(src, c) == "false"@) == (span_text(src, c) != "true"@),
{
    reveal(simple_value_type);
    reveal_strlit("true");
    reveal_strlit("false");
    assert("false"@.len() != "true"@.len());
    assert("false"@ != "true"@);
    if span_text(src, c) != "true"@ {
        reveal_strlit("true");
        reveal_strlit("false");
        assert(bool_literal(span_text(src, c)) == Ok::<bool, ErrorView>(false));
    }
}

/// Subtraction folds in the order of its operands: `x - y`, for integer
/// literals whose difference is an `i32`, yields the known integer `x - y`
/// (and not `y - x`).
pub proof fn law_subtraction_keeps_operand_order(
    node_id: Span,
    x_span: Span,
    y_span: Span,
    x: i32,
    y: i32,
    before: ScopeStackModel,
    after: ScopeStackModel,
    src: Seq<char>,
    r: Result<Option<SymbolType>, CompilerError>,
)
    requires
        before.scopes.len() > 0,
        int_literal(span_text(src, x_span)) == Ok::<i32, ErrorView>(x),
        int_literal(span_text(src, y_span)) == Ok::<i32, ErrorView>(y),
        i32::MIN <= x - y <= i32::MAX,
        evaluation_outcome(
            AstNode::Binary {
                node_id,
                op_type: BinaryType::Sub,
                lhs: Box::new(AstNode::LiteralInt { node_id: x_span, next: None }),
                rhs: Box::new(AstNode::LiteralInt { node_id: y_span, next: None }),
                next: None,
            },
            before,
            after,
            src,
            r,
        ),
    ensures
        r == Ok::<Option<SymbolType>, CompilerError>(Some(SymbolType::Int(IntValue::Literal((x - y) as i32)))),
{
    reveal(simple_value_type);
    let l = SymbolType::Int(IntValue::Literal(x));
    let rt = SymbolType::Int(IntValue::Literal(y));
    assert(simple_value_type(AstNode::LiteralInt { node_id: x_span, next: None }, before, src) == Some(l));
    assert(simple_value_type(AstNode::LiteralInt { node_id: y_span, next: None }, before, src) == Some(rt));
    assert(!folding_overflows(BinaryType::Sub, l, rt));
    assert(binary_fold(BinaryType::Sub, l, rt, src, node_id) == Ok::<FoldedView, ErrorView>(
        FoldedView::Known(TypeView::Int(IntValue::Literal((x - y) as i32)))));
    let v = r->Ok_0->Some_0;
    assert(v@ == TypeView::Int(IntValue::Literal((x - y) as i32)));
    match v {
        SymbolType::Int(_) => {},
        SymbolType::Float(_) => {},
        SymbolType::Char(_) => {},
        SymbolType::Bool(_) => {},
        SymbolType::String(s) => {
            match s {
                Some(_) => {},
                None => {},
            }
        },
    }
}

proof fn lemma_first_argument_error_at(
    args: Seq<AstNode>,
    ps: Seq<Parameter>,
    s: ScopeStackModel,
    src: Seq<char>,
    span: Span,
    def_span: Span,
    def_line: usize,
    def_col: usize,
    from: int,
    k: int,
)
    requires
        0 <= from <= k < args.len(),
        argument_mismatch(
            simple_value_type(args[k], s, src)->Some_0,
            declared_type(span_text(src, ps[k].param_type))->Some_0,
        ) is Some,
        forall|j: int| from <= j < k ==> argument_mismatch(
            #[trigger] simple_value_type(args[j], s, src)->Some_0,
            declared_type(span_text(src, ps[j].param_type))->Some_0,
        ) is None,
    ensures
        first_argument_error(args, ps, s, src, span, def_span, def_line, def_col, from) == Some(argument_error(
            argument_mismatch(
                simple_value_type(args[k], s, src)->Some_0,
                declared_type(span_text(src, ps[k].param_type))->Some_0,
            )->Some_0,
            k, args, ps, src, span, def_span, def_line, def_col,
        )),
    decreases k - from,
{
    if from < k {
        assert(argument_mismatch(
            simple_value_type(args[from], s, src)->Some_0,
            declared_type(span_text(src, ps[from].param_type))->Some_0,
        ) is None);
        lemma_first_argument_error_at(args, ps, s, src, span, def_span, def_line, def_col, from + 1, k);
    }
}

/// A call with as many arguments as the function has parameters is refused
/// at its first argument (a simple operand) that does not suit the type of
/// its parameter: every argument, the first included, is checked, and the
/// error says how the argument fails to fit.
pub proof fn law_unfitting_argument_refuses_call(
    node_id: Span,
    args: Vec<AstNode>,
    next: Option<Box<AstNode>>,
    d: DefSymbol,
    ps: Seq<Parameter>,
    k: int,
    before: ScopeStackModel,
    src: Seq<char>,
    r: Result<Option<SymbolType>, CompilerError>,
)
    requires
        lookup(before.scopes, span_text(src, node_id)) == Some(d),
        d.class@ == ClassView::Fn(ps),
        args@.len() == ps.len(),
        all_simple(args@, before, src),
        params_declared(ps, src),
        0 <= k < ps.len(),
        argument_mismatch(
            simple_value_type(args@[k], before, src)->Some_0,
            declared_type(span_text(src, ps[k].param_type))->Some_0,
        ) is Some,
        forall|j: int| 0 <= j < k ==> argument_mismatch(
            #[trigger] simple_value_type(args@[j], before, src)->Some_0,
            declared_type(span_text(src, ps[j].param_type))->Some_0,
        ) is None,
        early_outcome(AstNode::FnCall { node_id, args, next }, before, src, r),
    ensures
        r matches Err(e) && e@ == argument_error(
            argument_mismatch(
                simple_value_type(args@[k], before, src)->Some_0,
                declared_type(span_text(src, ps[k].param_type))->Some_0,
            )->Some_0,
            k, args@, ps, src, node_id, d.span, d.line, d.col,
        ),
{
    lemma_first_argument_error_at(args@, ps, before, src, node_id, d.span, d.line, d.col, 0, k);
}

/// A declaration `T x = y` initialised from a variable takes `y`'s value
/// by the assignment rules: it fails exactly when a value of `y`'s type
/// cannot be given to `x`, and then with the rules' error (a `char` takes
/// no `int`); otherwise `x` is defined with the type and size the rules
/// give it.
pub proof fn law_initialisation_follows_assignment_rules(
    node_id: Span,
    var_def: AstNode,
    var_value: AstNode,
    before: ScopeStackModel,
    after: ScopeStackModel,
    src: Seq<char>,
    r: Result<Option<SymbolType>, CompilerError>,
)
    requires
        initialisation_from_variable(var_def, var_value, before, src) is Some,
        early_outcome(AstNode::VarDefInitId { node_id, var_def: Box::new(var_def), var_value: Box::new(var_value), next: None }, before, src, r),
        evaluation_outcome(AstNode::VarDefInitId { node_id, var_def: Box::new(var_def), var_value: Box::new(var_value), next: None }, before, after, src, r),
    ensures
        ({
            let (d, vt) = initialisation_from_variable(var_def, var_value, before, src)->Some_0;
            &&& r is Ok <==> cast_result(d, vt, false, src, node_id) is Ok
            &&& (d.type_value is Char && vt is Int) ==> (r matches Err(e)
                && e@ == ErrorView::SemanticErrorWrongType {
                    valid_type: "char"@,
                    received_type: "int"@,
                    highlight: span_highlight(src, node_id),
                    line: start_line(src, node_id),
                    col: start_col(src, node_id),
                })
            &&& r is Ok ==> (lookup(after.scopes, d.id) matches Some(x)
                && x.type_value == cast_result(d, vt, false, src, node_id)->Ok_0.0)
        }),
{
    let (d, vt) = initialisation_from_variable(var_def, var_value, before, src)->Some_0;
    if d.type_value is Char && vt is Int {
        assert(type_word(vt) == "int"@);
    }
}

/// `!` negates a truth literal: `!true` yields the known `false` and
/// `!false` the known `true`.
#[verifier::spinoff_prover]
pub proof fn law_not_negates_literal(
    node_id: Span,
    c: Span,
    before: ScopeStackModel,
    after: ScopeStackModel,
    src: Seq<char>,
    r: Result<Option<SymbolType>, CompilerError>,
)
    requires
        before.scopes.len() > 0,
        span_text(src, c) == "true"@ || span_text(src, c) == "false"@,
        evaluation_outcome(
            AstNode::Unary {
                node_id,
                op_type: UnaryType::Not,
                operand: Box::new(AstNode::LiteralBool { node_id: c, next: None }),
                next: None,
            },
            before,
            after,
            src,
            r,
        ),
    ensures
        r == Ok::<Option<SymbolType>, CompilerError>(Some(SymbolType::Bool(Some(span_text(src, c) == "false"@)))),
{
    lemma_truth_literal_value(c, before, src);
    let v = r->Ok_0->Some_0;
    lemma_view_is_bool(v, Some(span_text(src, c) == "false"@));
}


proof fn lemma_view_is_bool(v: SymbolType, b: Option<bool>)
    requires
        v@ == TypeView::Bool(b),
    ensures
        v == SymbolType::Bool(b),
{
    match v {
        SymbolType::String(s) => {
            match s {
                Some(_) => {},
                None => {},
            }
        },
        _ => {},
    }
}


/// A shift of a declared variable by an integer literal `v` is refused
/// exactly when `v` is more than 16, with the error that names `v` at the
/// literal; by 16 or less (with no next node) it succeeds.
pub proof fn law_shift_by_at_most_sixteen(
    node: AstNode,
    name: Span,
    lit: Span,
    v: i32,
    before: ScopeStackModel,
    after: ScopeStackModel,
    src: Seq<char>,
    r: Result<Option<SymbolType>, CompilerError>,
)
    requires
        node == (AstNode::VarLeftShift {
            node_id: name,
            var_name: Box::new(AstNode::VarInvoke { node_id: name, next: None }),
            shift_amount: Box::new(AstNode::LiteralInt { node_id: lit, next: None }),
            next: None,
        }) || node == (AstNode::VarRightShift {
            node_id: name,
            var_name: Box::new(AstNode::VarInvoke { node_id: name, next: None }),
            shift_amount: Box::new(AstNode::LiteralInt { node_id: lit, next: None }),
            next: None,
        }),
        before.scopes.len() > 0,
        lookup(before.scopes, span_text(src, name)) matches Some(d) && d.class is Var,
        int_literal(span_text(src, lit)) == Ok::<i32, ErrorView>(v),
        early_outcome(node, before, src, r),
        evaluation_outcome(node, before, after, src, r),
    ensures
        v > 16 ==> (r matches Err(e) && e@ == ErrorView::SemanticErrorWrongParShift {
            received_value: v,
            highlight: span_highlight(src, lit),
            line: start_line(src, lit),
            col: start_col(src, lit),
        }),
        v <= 16 ==> r == Ok::<Option<SymbolType>, CompilerError>(None),
{
    reveal(shift_amount_value);
}

/// A condition of `if` or `while` that is a character or a string (a
/// simple operand) is refused with the error of converting it to a truth
/// value, at the command.
pub proof fn law_condition_must_be_truth_value(
    node: AstNode,
    node_id: Span,
    condition: AstNode,
    before: ScopeStackModel,
    src: Seq<char>,
    r: Result<Option<SymbolType>, CompilerError>,
)
    requires
        node matches AstNode::If { node_id: n, condition: c, .. } && n == node_id && *c == condition,
        simple_value_type(condition, before, src) matches Some(t) && (t is Char || t is String),
        early_outcome(node, before, src, r),
    ensures
        r is Err,
        simple_value_type(condition, before, src)->Some_0 is Char ==> (r matches Err(e) && e@ == ErrorView::SemanticErrorCharToX {
            invalid_type: "boolean"@,
            line: start_line(src, node_id),
            col: start_col(src, node_id),
            highlight: span_highlight(src, node_id),
        }),
{
}

/// An assignment `x = e` to a declared variable follows the assignment
/// rules: it is refused exactly when a value of `e`'s type cannot be given
/// to `x` (a string too long for `x` among them), with the rules' error,
/// and otherwise (with no next node) succeeds.
pub proof fn law_assignment_follows_rules(
    node_id: Span,
    var_name: AstNode,
    new_value: AstNode,
    before: ScopeStackModel,
    after: ScopeStackModel,
    src: Seq<char>,
    r: Result<Option<SymbolType>, CompilerError>,
)
    requires
        assignment_to_variable(var_name, new_value, before, src) is Some,
        early_outcome(AstNode::VarSet { node_id, var_name: Box::new(var_name), new_value: Box::new(new_value), next: None }, before, src, r),
        evaluation_outcome(AstNode::VarSet { node_id, var_name: Box::new(var_name), new_value: Box::new(new_value), next: None }, before, after, src, r),
    ensures
        ({
            let (d, t) = assignment_to_variable(var_name, new_value, before, src)->Some_0;
            &&& r is Ok <==> cast_result(d@, t, true, src, node_id) is Ok
            &&& match cast_result(d@, t, true, src, node_id) {
                Err(e) => r matches Err(x) && x@ == e,
                Ok(_) => r == Ok::<Option<SymbolType>, CompilerError>(None),
            }
        }),
{
}

} // verus!
