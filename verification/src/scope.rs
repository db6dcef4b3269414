//! The symbol table: a stack of scopes, each mapping names to their
//! definitions, with the type of the function that the scope belongs to and
//! the stack of symbols met in expressions; beside it, a stack of the
//! offsets allocated in each scope. Lookups go from the innermost scope
//! out.
use vstd::prelude::*;

use crate::decimal::{nat_text, push_nat};
use crate::error::{CompilerError, ErrorView};
use crate::semantics::{class_word, same_class, CallSymbol, ClassView, DefSymbol, SymbolClass, SymbolType};
use crate::text::{start_col, start_line, span_fits, span_highlight, span_highlight_exec, span_text, SourceText, Span};
use vstd::utf8::encode_utf8;

verus! {

/// The definitions of one scope, by name, a later definition of a name
/// replacing an earlier one.
pub struct SymbolTable {
    entries: Vec<DefSymbol>,
}

/// The definitions named by a list of symbols, a later symbol standing over
/// an earlier one of the same name.
pub open spec fn table_of(entries: Seq<DefSymbol>) -> Map<Seq<char>, DefSymbol>
    decreases entries.len(),
{
    if entries.len() == 0 {
        Map::empty()
    } else {
        table_of(entries.drop_last()).insert(entries.last().id@, entries.last())
    }
}

proof fn lemma_table_of_skip(entries: Seq<DefSymbol>, i: int, name: Seq<char>)
    requires
        0 <= i <= entries.len(),
        forall|j: int| i <= j < entries.len() ==> entries[j].id@ != name,
    ensures
        table_of(entries).contains_key(name) == table_of(entries.take(i)).contains_key(name),
        table_of(entries).contains_key(name) ==> table_of(entries)[name] == table_of(entries.take(i))[name],
    decreases entries.len() - i,
{
    if i < entries.len() {
        let shorter = entries.drop_last();
        assert(shorter.take(i) =~= entries.take(i));
        lemma_table_of_skip(shorter, i, name);
    } else {
        assert(entries.take(i) =~= entries);
    }
}

impl View for SymbolTable {
    type V = Map<Seq<char>, DefSymbol>;

    closed spec fn view(&self) -> Map<Seq<char>, DefSymbol> {
        table_of(self.entries@)
    }
}

impl SymbolTable {
    /// A table with no definition.
    pub fn new() -> (t: SymbolTable)
        ensures
            t@ == Map::<Seq<char>, DefSymbol>::empty(),
    {
        SymbolTable { entries: Vec::new() }
    }

    /// Defines a symbol under its name, replacing any earlier definition of
    /// the name.
    pub fn insert(&mut self, symbol: DefSymbol)
        ensures
            final(self)@ == old(self)@.insert(symbol.id@, symbol),
    {
        self.entries.push(symbol);
        proof {
            assert(self.entries@.drop_last() =~= old(self).entries@);
        }
    }

    /// The definition of a name, if the table has one.
    pub fn get(&self, id: &String) -> (r: Option<&DefSymbol>)
        ensures
            r is Some == self@.contains_key(id@),
            r matches Some(s) ==> *s == self@[id@],
    {
        let mut i = self.entries.len();
        while i > 0
            invariant
                i <= self.entries@.len(),
                forall|j: int| i <= j < self.entries@.len() ==> self.entries@[j].id@ != id@,
            decreases i,
        {
            let entry = &self.entries[i - 1];
            if entry.id == *id {
                proof {
                    let e = self.entries@;
                    lemma_table_of_skip(e, i as int, id@);
                    assert(e.take(i as int).drop_last() =~= e.take(i - 1));
                    assert(e.take(i as int).last() == e[i - 1]);
                }
                return Some(entry);
            }
            i = i - 1;
        }
        proof {
            lemma_table_of_skip(self.entries@, 0, id@);
            assert(self.entries@.take(0) =~= Seq::<DefSymbol>::empty());
        }
        None
    }
}

/// One scope of the stack.
struct Scope {
    defs: SymbolTable,
    scope_type: Option<SymbolType>,
    symbols: Vec<CallSymbol>,
}

/// What a scope holds: its definitions by name, the type of the function it
/// belongs to (if any), and the symbols pushed while evaluating expressions.
pub struct ScopeModel {
    pub defs: Map<Seq<char>, DefSymbol>,
    pub scope_type: Option<SymbolType>,
    pub symbols: Seq<CallSymbol>,
}

/// What the symbol table holds: its scopes, innermost last, and the offset
/// allocated in each.
pub struct ScopeStackModel {
    pub scopes: Seq<ScopeModel>,
    pub offsets: Seq<u32>,
}

/// The scoped symbol table of a compilation.
pub struct ScopeStack {
    stack: Vec<Scope>,
    offsets: Vec<u32>,
}

spec fn scope_model(s: Scope) -> ScopeModel {
    ScopeModel { defs: s.defs@, scope_type: s.scope_type, symbols: s.symbols@ }
}

impl View for ScopeStack {
    type V = ScopeStackModel;

    closed spec fn view(&self) -> ScopeStackModel {
        ScopeStackModel {
            scopes: self.stack@.map_values(|s: Scope| scope_model(s)),
            offsets: self.offsets@,
        }
    }
}

/// A scope with no definition and no pending symbol.
pub open spec fn fresh_scope(scope_type: Option<SymbolType>) -> ScopeModel {
    ScopeModel { defs: Map::empty(), scope_type, symbols: seq![] }
}

/// The definition that a name has where the scopes are looked at from the
/// innermost out.
pub open spec fn lookup(scopes: Seq<ScopeModel>, id: Seq<char>) -> Option<DefSymbol>
    decreases scopes.len(),
{
    if scopes.len() == 0 {
        None
    } else if scopes.last().defs.contains_key(id) {
        Some(scopes.last().defs[id])
    } else {
        lookup(scopes.drop_last(), id)
    }
}

/// The type of the innermost scope that has one.
pub open spec fn current_scope_type(scopes: Seq<ScopeModel>) -> Option<SymbolType>
    decreases scopes.len(),
{
    if scopes.len() == 0 {
        None
    } else if scopes.last().scope_type is Some {
        scopes.last().scope_type
    } else {
        current_scope_type(scopes.drop_last())
    }
}

/// The scopes with `sym` defined in the innermost one, over any earlier
/// definition of its name there.
pub open spec fn define_in_top(scopes: Seq<ScopeModel>, sym: DefSymbol) -> Seq<ScopeModel> {
    let top = scopes.last();
    scopes.update(scopes.len() - 1, ScopeModel { defs: top.defs.insert(sym.id@, sym), ..top })
}

/// The scopes with `sym` pushed onto the symbols of the innermost one.
pub open spec fn push_in_top(scopes: Seq<ScopeModel>, sym: CallSymbol) -> Seq<ScopeModel> {
    let top = scopes.last();
    scopes.update(scopes.len() - 1, ScopeModel { symbols: top.symbols.push(sym), ..top })
}

/// The scopes with the last symbol of the innermost one popped.
pub open spec fn pop_in_top(scopes: Seq<ScopeModel>) -> Seq<ScopeModel> {
    let top = scopes.last();
    scopes.update(scopes.len() - 1, ScopeModel { symbols: top.symbols.drop_last(), ..top })
}

/// The offsets with `extra` added to the innermost one.
pub open spec fn grow_top_offset(offsets: Seq<u32>, extra: u32) -> Seq<u32> {
    offsets.update(offsets.len() - 1, (offsets.last() + extra) as u32)
}

/// Whether every defined symbol has a span that the source can be asked
/// about.
pub open spec fn spans_fit(m: ScopeStackModel, src: Seq<char>) -> bool {
    forall|k: int, id: Seq<char>| 0 <= k < m.scopes.len() && #[trigger] m.scopes[k].defs.contains_key(id)
        ==> symbol_fits(src, m.scopes[k].defs[id])
}

/// Whether the spans of a definition (and of a function's parameters) can
/// be asked of the source.
pub open spec fn symbol_fits(src: Seq<char>, d: DefSymbol) -> bool {
    &&& span_fits(src, d.span)
    &&& d.class@ matches ClassView::Fn(params) ==> forall|i: int| 0 <= i < params.len()
        ==> span_fits(src, #[trigger] params[i].param_type) && span_fits(src, params[i].node_id)
}

/// The error of a second definition of a name in one scope.
pub open spec fn redeclared_error(src: Seq<char>, older: DefSymbol, span: Span) -> ErrorView {
    ErrorView::SemanticErrorDeclared {
        id: span_text(src, span),
        first_line: older.line,
        first_col: older.col,
        first_highlight: span_highlight(src, older.span),
        second_line: start_line(src, span),
        second_col: start_col(src, span),
        second_highlight: span_highlight(src, span),
    }
}

/// The text of the error for a name that turns out to be a literal.
pub open spec fn literal_message(
    id: Seq<char>,
    first_line: usize,
    first_col: usize,
    first_highlight: Seq<char>,
    second_class: Seq<char>,
    second_line: usize,
    second_col: usize,
    second_highlight: Seq<char>,
) -> Seq<char> {
    "get_previous_def() with \""@ + id + "\" matched a a literal: ("@ + nat_text(first_line as nat)
        + ", "@ + nat_text(first_col as nat) + ", "@ + first_highlight + ") => ("@ + second_class
        + ", "@ + nat_text(second_line as nat) + ", "@ + nat_text(second_col as nat) + ", "@
        + second_highlight + ")"@
}

/// The error of using as a `expected` a name defined as something else.
pub open spec fn misuse_error(src: Seq<char>, older: DefSymbol, span: Span, expected: SymbolClass) -> ErrorView {
    let id = span_text(src, span);
    let first_highlight = span_highlight(src, older.span);
    let second_class = class_word(expected);
    let second_line = start_line(src, span);
    let second_col = start_col(src, span);
    let second_highlight = span_highlight(src, span);
    match older.class {
        SymbolClass::Var { .. } => ErrorView::SemanticErrorVariable {
            id, first_line: older.line, first_col: older.col, first_highlight,
            second_class, second_line, second_col, second_highlight,
        },
        SymbolClass::Vec { .. } => ErrorView::SemanticErrorVector {
            id, first_line: older.line, first_col: older.col, first_highlight,
            second_class, second_line, second_col, second_highlight,
        },
        SymbolClass::Fn(_) => ErrorView::SemanticErrorFunction {
            id, first_line: older.line, first_col: older.col, first_highlight,
            second_class, second_line, second_col, second_highlight,
        },
        SymbolClass::Lit => ErrorView::SanityError(literal_message(
            id, older.line, older.col, first_highlight, second_class, second_line, second_col,
            second_highlight,
        )),
    }
}

/// The error of using a name that no scope defines.
pub open spec fn undeclared_error(src: Seq<char>, span: Span) -> ErrorView {
    ErrorView::SemanticErrorUndeclared {
        id: span_text(src, span),
        line: start_line(src, span),
        col: start_col(src, span),
        highlight: span_highlight(src, span),
    }
}

/// Builds the text of the error for a name that turns out to be a literal.
fn literal_message_exec(
    id: &String,
    first_line: usize,
    first_col: usize,
    first_highlight: &String,
    second_class: &str,
    second_line: usize,
    second_col: usize,
    second_highlight: &String,
) -> (r: String)
    ensures
        r@ == literal_message(id@, first_line, first_col, first_highlight@, second_class@, second_line, second_col, second_highlight@),
{
    let mut m = String::from_str("get_previous_def() with \"");
    m.append(id.as_str());
    m.append("\" matched a a literal: (");
    push_nat(&mut m, first_line as u64);
    m.append(", ");
    push_nat(&mut m, first_col as u64);
    m.append(", ");
    m.append(first_highlight.as_str());
    m.append(") => (");
    m.append(second_class);
    m.append(", ");
    push_nat(&mut m, second_line as u64);
    m.append(", ");
    push_nat(&mut m, second_col as u64);
    m.append(", ");
    m.append(second_highlight.as_str());
    m.append(")");
    assert(m@ =~= literal_message(id@, first_line, first_col, first_highlight@, second_class@, second_line, second_col, second_highlight@));
    m
}

impl ScopeStack {
    /// A table with the global scope alone, untyped and empty.
    pub fn new() -> (s: ScopeStack)
        ensures
            s@.scopes == seq![fresh_scope(None)],
            s@.offsets == seq![0u32],
    {
        let mut stack: Vec<Scope> = Vec::new();
        stack.push(Scope { defs: SymbolTable::new(), scope_type: None, symbols: Vec::new() });
        let mut offsets: Vec<u32> = Vec::new();
        offsets.push(0);
        let s = ScopeStack { stack, offsets };
        assert(s@.scopes =~= seq![fresh_scope(None)]);
        assert(s@.offsets =~= seq![0u32]);
        s
    }

    /// Opens a scope, of the given function type if any, with its offset at
    /// 0.
    pub fn add_scope(&mut self, scope_type: Option<SymbolType>)
        ensures
            final(self)@.scopes == old(self)@.scopes.push(fresh_scope(scope_type)),
            final(self)@.offsets == old(self)@.offsets.push(0),
    {
        self.offsets.push(0);
        let ghost t = scope_type;
        self.stack.push(Scope { defs: SymbolTable::new(), scope_type, symbols: Vec::new() });
        assert(self@.scopes =~= old(self)@.scopes.push(fresh_scope(t)));
    }

    /// Closes the innermost scope and hands back its definitions; fails when
    /// no scope is open.
    pub fn remove_scope(&mut self) -> (r: Result<SymbolTable, CompilerError>)
        ensures
            final(self)@.offsets == if old(self)@.offsets.len() > 0 {
                old(self)@.offsets.drop_last()
            } else {
                old(self)@.offsets
            },
            old(self)@.scopes.len() == 0 ==> {
                &&& r matches Err(e) && e@ == ErrorView::FailedScoping
                &&& final(self)@.scopes == old(self)@.scopes
            },
            old(self)@.scopes.len() > 0 ==> {
                &&& r matches Ok(t) && t@ == old(self)@.scopes.last().defs
                &&& final(self)@.scopes == old(self)@.scopes.drop_last()
            },
    {
        self.offsets.pop();
        proof {
            if old(self).offsets@.len() > 0 {
                assert(self.offsets@ =~= old(self).offsets@.drop_last());
            }
        }
        match self.stack.pop() {
            Some(scope) => {
                assert(self@.scopes =~= old(self)@.scopes.drop_last());
                Ok(scope.defs)
            },
            None => Err(CompilerError::FailedScoping),
        }
    }

    /// Checks that the name at `span` is not yet defined in the innermost
    /// scope; fails when no scope is open.
    pub fn check_duplicate(&self, span: Span, source: &SourceText) -> (r: Result<(), CompilerError>)
        requires
            span_fits(source@, span),
            spans_fit(self@, source@),
        ensures
            self@.scopes.len() == 0 ==> (r matches Err(e) && e@ == ErrorView::FailedScoping),
            self@.scopes.len() > 0 ==> {
                let top = self@.scopes.last();
                let id = span_text(source@, span);
                if top.defs.contains_key(id) {
                    r matches Err(e) && e@ == redeclared_error(source@, top.defs[id], span)
                } else {
                    r is Ok
                }
            },
    {
        let n = self.stack.len();
        if n == 0 {
            return Err(CompilerError::FailedScoping);
        }
        let scope = &self.stack[n - 1];
        let id = source.span_str(span);
        match scope.defs.get(&id) {
            Some(older_symbol) => {
                proof {
                    assert(self@.scopes[n - 1] == scope_model(self.stack@[n - 1]));
                    assert(self@.scopes[n - 1].defs.contains_key(id@));
                }
                let first_line = older_symbol.line;
                let first_col = older_symbol.col;
                let first_highlight = ScopeStack::form_string_highlight(older_symbol.span, source);
                let ((second_line, second_col), (_, _)) = source.line_col(span);
                let second_highlight = ScopeStack::form_string_highlight(span, source);
                Err(CompilerError::SemanticErrorDeclared {
                    id,
                    first_line,
                    first_col,
                    first_highlight,
                    second_line,
                    second_col,
                    second_highlight,
                })
            },
            None => Ok(()),
        }
    }

    /// The type of the innermost typed scope, that is, the type of the
    /// function being compiled. When no scope is typed, the error's text
    /// names the failure only: it carries no dump of the scopes.
    pub fn get_current_scope_type(&self) -> (r: Result<SymbolType, CompilerError>)
        ensures
            match current_scope_type(self@.scopes) {
                Some(t) => r == Ok::<SymbolType, CompilerError>(t),
                None => r matches Err(e) && e@ == ErrorView::SanityError(
                    "get_current_scope_type() found no typed scopes"@,
                ),
            },
    {
        let mut i = self.stack.len();
        assert(self@.scopes.take(i as int) =~= self@.scopes);
        while i > 0
            invariant
                i <= self.stack@.len(),
                current_scope_type(self@.scopes) == current_scope_type(self@.scopes.take(i as int)),
            decreases i,
        {
            proof {
                assert(self@.scopes.take(i as int).drop_last() =~= self@.scopes.take(i - 1));
            }
            assert(self@.scopes[i - 1] == scope_model(self.stack@[i - 1]));
            assert(self@.scopes.take(i as int).last() == self@.scopes[i - 1]);
            match &self.stack[i - 1].scope_type {
                Some(thing) => return Ok(thing.clone()),
                None => {},
            }
            i = i - 1;
        }
        Err(CompilerError::SanityError(String::from_str("get_current_scope_type() found no typed scopes")))
    }

    /// The definition that the name at `span` refers to, which must be of
    /// the kind `expected_class`.
    pub fn get_previous_def(&self, span: Span, source: &SourceText, expected_class: SymbolClass) -> (r: Result<&DefSymbol, CompilerError>)
        requires
            span_fits(source@, span),
            spans_fit(self@, source@),
        ensures
            match lookup(self@.scopes, span_text(source@, span)) {
                None => r matches Err(e) && e@ == undeclared_error(source@, span),
                Some(older) => if same_class(older.class, expected_class) {
                    r matches Ok(s) && *s == older
                } else {
                    r matches Err(e) && e@ == misuse_error(source@, older, span, expected_class)
                },
            },
    {
        let id = source.span_str(span);
        let mut i = self.stack.len();
        assert(self@.scopes.take(i as int) =~= self@.scopes);
        while i > 0
            invariant
                i <= self.stack@.len(),
                id@ == span_text(source@, span),
                span_fits(source@, span),
                spans_fit(self@, source@),
                lookup(self@.scopes, id@) == lookup(self@.scopes.take(i as int), id@),
            decreases i,
        {
            proof {
                assert(self@.scopes.take(i as int).drop_last() =~= self@.scopes.take(i - 1));
            }
            if let Some(older_symbol) = self.stack[i - 1].defs.get(&id) {
                proof {
                    assert(self@.scopes[i - 1] == scope_model(self.stack@[i - 1]));
                    assert(self@.scopes[i - 1].defs.contains_key(id@));
                    assert(self@.scopes.take(i as int).last() == self@.scopes[i - 1]);
                    assert(lookup(self@.scopes, id@) == Some(*older_symbol));
                }
                if older_symbol.class == expected_class {
                    return Ok(older_symbol);
                } else {
                    let first_line = older_symbol.line;
                    let first_col = older_symbol.col;
                    let first_highlight = ScopeStack::form_string_highlight(older_symbol.span, source);
                    let second_class = String::from_str(expected_class.to_str());
                    let ((second_line, second_col), (_, _)) = source.line_col(span);
                    let second_highlight = ScopeStack::form_string_highlight(span, source);
                    return Err(match &older_symbol.class {
                        SymbolClass::Var { .. } => CompilerError::SemanticErrorVariable {
                            id, first_line, first_col, first_highlight,
                            second_class, second_line, second_col, second_highlight,
                        },
                        SymbolClass::Vec { .. } => CompilerError::SemanticErrorVector {
                            id, first_line, first_col, first_highlight,
                            second_class, second_line, second_col, second_highlight,
                        },
                        SymbolClass::Fn(_) => CompilerError::SemanticErrorFunction {
                            id, first_line, first_col, first_highlight,
                            second_class, second_line, second_col, second_highlight,
                        },
                        SymbolClass::Lit => CompilerError::SanityError(literal_message_exec(
                            &id, first_line, first_col, &first_highlight, expected_class.to_str(),
                            second_line, second_col, &second_highlight,
                        )),
                    });
                }
            }
            i = i - 1;
        }
        let ((line, col), (_, _)) = source.line_col(span);
        let highlight = ScopeStack::form_string_highlight(span, source);
        Err(CompilerError::SemanticErrorUndeclared { id, line, col, highlight })
    }

    /// The definition of a name, looked up from the innermost scope out,
    /// if any scope has one.
    pub fn get_previous_def_string_no_error(&self, id: &str) -> (r: Option<&DefSymbol>)
        ensures
            r is Some == lookup(self@.scopes, id@) is Some,
            r matches Some(s) ==> lookup(self@.scopes, id@) == Some(*s),
    {
        let key = String::from_str(id);
        let mut i = self.stack.len();
        assert(self@.scopes.take(i as int) =~= self@.scopes);
        while i > 0
            invariant
                i <= self.stack@.len(),
                key@ == id@,
                lookup(self@.scopes, id@) == lookup(self@.scopes.take(i as int), id@),
            decreases i,
        {
            proof {
                assert(self@.scopes.take(i as int).drop_last() =~= self@.scopes.take(i - 1));
            }
            if let Some(older_symbol) = self.stack[i - 1].defs.get(&key) {
                proof {
                    assert(self@.scopes[i - 1] == scope_model(self.stack@[i - 1]));
                    assert(self@.scopes.take(i as int).last() == self@.scopes[i - 1]);
                }
                return Some(older_symbol);
            }
            i = i - 1;
        }
        None
    }

    /// Defines a symbol in the innermost scope, replacing any definition of
    /// its name there; fails when no scope is open.
    pub fn add_def_symbol(&mut self, addition: DefSymbol) -> (r: Result<(), CompilerError>)
        ensures
            final(self)@.offsets == old(self)@.offsets,
            old(self)@.scopes.len() == 0 ==> {
                &&& r matches Err(e) && e@ == ErrorView::FailedScoping
                &&& final(self)@.scopes == old(self)@.scopes
            },
            old(self)@.scopes.len() > 0 ==> {
                &&& r is Ok
                &&& final(self)@.scopes == define_in_top(old(self)@.scopes, addition)
            },
    {
        match self.stack.pop() {
            Some(mut scope) => {
                let ghost key = addition.id@;
                let ghost value = addition;
                scope.defs.insert(addition);
                self.stack.push(scope);
                proof {
                    let top = old(self)@.scopes.last();
                    assert(self@.scopes =~= old(self)@.scopes.update(
                        old(self)@.scopes.len() - 1,
                        ScopeModel { defs: top.defs.insert(key, value), ..top },
                    ));
                }
                Ok(())
            },
            None => Err(CompilerError::FailedScoping),
        }
    }

    /// Pushes a symbol met in an expression onto the innermost scope; fails
    /// when no scope is open.
    pub fn push_symbol(&mut self, addition: CallSymbol) -> (r: Result<(), CompilerError>)
        ensures
            final(self)@.offsets == old(self)@.offsets,
            old(self)@.scopes.len() == 0 ==> {
                &&& r matches Err(e) && e@ == ErrorView::FailedScoping
                &&& final(self)@.scopes == old(self)@.scopes
            },
            old(self)@.scopes.len() > 0 ==> {
                &&& r is Ok
                &&& final(self)@.scopes == push_in_top(old(self)@.scopes, addition)
            },
    {
        match self.stack.pop() {
            Some(mut scope) => {
                let ghost value = addition;
                scope.symbols.push(addition);
                self.stack.push(scope);
                proof {
                    let top = old(self)@.scopes.last();
                    assert(self@.scopes =~= old(self)@.scopes.update(
                        old(self)@.scopes.len() - 1,
                        ScopeModel { symbols: top.symbols.push(value), ..top },
                    ));
                }
                Ok(())
            },
            None => Err(CompilerError::FailedScoping),
        }
    }

    /// Pops the last symbol pushed onto the innermost scope, if any; fails
    /// when no scope is open.
    pub fn pop_symbol(&mut self) -> (r: Result<Option<CallSymbol>, CompilerError>)
        ensures
            final(self)@.offsets == old(self)@.offsets,
            old(self)@.scopes.len() == 0 ==> {
                &&& r matches Err(e) && e@ == ErrorView::FailedScoping
                &&& final(self)@.scopes == old(self)@.scopes
            },
            old(self)@.scopes.len() > 0 ==> {
                let top = old(self)@.scopes.last();
                if top.symbols.len() == 0 {
                    &&& r == Ok::<Option<CallSymbol>, CompilerError>(None)
                    &&& final(self)@.scopes == old(self)@.scopes
                } else {
                    &&& r == Ok::<Option<CallSymbol>, CompilerError>(Some(top.symbols.last()))
                    &&& final(self)@.scopes == pop_in_top(old(self)@.scopes)
                }
            },
    {
        match self.stack.pop() {
            Some(mut scope) => {
                let popped = scope.symbols.pop();
                self.stack.push(scope);
                proof {
                    let top = old(self)@.scopes.last();
                    if top.symbols.len() == 0 {
                        assert(self@.scopes =~= old(self)@.scopes);
                    } else {
                        assert(self@.scopes =~= old(self)@.scopes.update(
                            old(self)@.scopes.len() - 1,
                            ScopeModel { symbols: top.symbols.drop_last(), ..top },
                        ));
                    }
                }
                Ok(popped)
            },
            None => Err(CompilerError::FailedScoping),
        }
    }

    /// Adds to the offset allocated in the innermost scope; fails when no
    /// scope is open.
    pub fn add_offset(&mut self, extra_offset: u32) -> (r: Result<(), CompilerError>)
        requires
            old(self)@.offsets.len() > 0 ==> old(self)@.offsets.last() + extra_offset <= u32::MAX,
        ensures
            final(self)@.scopes == old(self)@.scopes,
            old(self)@.offsets.len() == 0 ==> {
                &&& r matches Err(e) && e@ == ErrorView::FailedScoping
                &&& final(self)@.offsets == old(self)@.offsets
            },
            old(self)@.offsets.len() > 0 ==> {
                &&& r is Ok
                &&& final(self)@.offsets == grow_top_offset(old(self)@.offsets, extra_offset)
            },
    {
        let n = self.offsets.len();
        if n == 0 {
            return Err(CompilerError::FailedScoping);
        }
        let num = self.offsets[n - 1];
        self.offsets.set(n - 1, num + extra_offset);
        Ok(())
    }

    /// The offset allocated in the innermost scope; fails when no scope is
    /// open.
    pub fn get_offset(&self) -> (r: Result<u32, CompilerError>)
        ensures
            self@.offsets.len() == 0 ==> (r matches Err(e) && e@ == ErrorView::FailedScoping),
            self@.offsets.len() > 0 ==> r == Ok::<u32, CompilerError>(self@.offsets.last()),
    {
        let n = self.offsets.len();
        if n == 0 {
            return Err(CompilerError::FailedScoping);
        }
        Ok(self.offsets[n - 1])
    }

    /// The caret highlight of a span of the source, as error messages show
    /// it.
    pub fn form_string_highlight(span: Span, source: &SourceText) -> (r: String)
        requires
            span_fits(source@, span),
        ensures
            r@ == span_highlight(source@, span),
    {
        span_highlight_exec(span, source)
    }
}

/// Right after a definition is made in the innermost scope, its name finds
/// it; every other name finds what it found before.
pub proof fn law_definition_is_found(scopes: Seq<ScopeModel>, sym: DefSymbol, id: Seq<char>)
    requires
        scopes.len() > 0,
    ensures
        lookup(define_in_top(scopes, sym), sym.id@) == Some(sym),
        id != sym.id@ ==> lookup(define_in_top(scopes, sym), id) == lookup(scopes, id),
{
    let after = define_in_top(scopes, sym);
    assert(after.last().defs.contains_key(sym.id@));
    assert(after.drop_last() =~= scopes.drop_last());
}

/// Opening a scope hides no definition; closing it again forgets the
/// definitions made in it, so that every name finds what it found before
/// the scope was opened.
pub proof fn law_closed_scope_is_forgotten(scopes: Seq<ScopeModel>, scope_type: Option<SymbolType>, sym: DefSymbol, id: Seq<char>)
    ensures
        lookup(scopes.push(fresh_scope(scope_type)), id) == lookup(scopes, id),
        lookup(define_in_top(scopes.push(fresh_scope(scope_type)), sym).drop_last(), id) == lookup(scopes, id),
{
    let opened = scopes.push(fresh_scope(scope_type));
    assert(opened.drop_last() =~= scopes);
    assert(define_in_top(opened, sym).drop_last() =~= scopes);
}

/// Closing a scope right after opening it hands back an empty table and
/// leaves the stack and its offsets as they were.
pub proof fn law_scope_round_trip(m: ScopeStackModel, scope_type: Option<SymbolType>)
    ensures
        m.scopes.push(fresh_scope(scope_type)).last().defs == Map::<Seq<char>, DefSymbol>::empty(),
        m.scopes.push(fresh_scope(scope_type)).drop_last() == m.scopes,
        m.offsets.push(0).len() > 0 && m.offsets.push(0).drop_last() == m.offsets,
{
    assert(m.scopes.push(fresh_scope(scope_type)).drop_last() =~= m.scopes);
    assert(m.offsets.push(0).drop_last() =~= m.offsets);
}

/// Popping a symbol right after pushing one gives that symbol back and
/// leaves the scopes as they were.
pub proof fn law_symbol_round_trip(scopes: Seq<ScopeModel>, sym: CallSymbol)
    requires
        scopes.len() > 0,
    ensures
        push_in_top(scopes, sym).last().symbols.len() > 0,
        push_in_top(scopes, sym).last().symbols.last() == sym,
        pop_in_top(push_in_top(scopes, sym)) == scopes,
{
    let pushed = push_in_top(scopes, sym);
    let top = scopes.last();
    assert(pushed.last().symbols =~= top.symbols.push(sym));
    assert(top.symbols.push(sym).drop_last() =~= top.symbols);
    assert(pop_in_top(pushed) =~= scopes);
}

/// The offset of the innermost scope grows by what is added to it; the
/// offsets of the outer scopes stay.
pub proof fn law_offsets_accumulate(offsets: Seq<u32>, extra: u32)
    requires
        offsets.len() > 0,
        offsets.last() + extra <= u32::MAX,
    ensures
        grow_top_offset(offsets, extra).len() == offsets.len(),
        grow_top_offset(offsets, extra).last() == offsets.last() + extra,
        grow_top_offset(offsets, extra).drop_last() == offsets.drop_last(),
{
    assert(grow_top_offset(offsets, extra).drop_last() =~= offsets.drop_last());
}

} // verus!
