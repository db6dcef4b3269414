# compilador

The semantic analysis and code generation of a compiler for a small
C-like teaching language, verified with Verus: the syntax tree of a
program and the evaluation of its nodes, over a scoped symbol table and an
ILOC code buffer.

- `src/ast.rs`: the syntax tree (declarations of variables, vectors and
  functions, initialisations and assignments, uses of variables and
  vectors, integer, boolean, character and string literals, calls, unary, binary
  and conditional expressions, blocks, `if`, `while`, `for`, `return`,
  `break`, `continue`, shifts, `input` and `output` of variables) and its
  evaluation, which checks each node against
  the symbol table and writes the code of function definitions.
- `src/scope.rs`: the symbol table, a stack of scopes looked up from the
  innermost out, with the function type of each scope, the symbols met in
  expressions and the offsets allocated per scope.
- `src/semantics.rs`: types with what is known of their values, symbol
  kinds and definitions, conversions, type association, assignment and
  call-argument rules.
- `src/folding.rs`: constant folding of the unary and binary operators.
- `src/instructions.rs`: ILOC instructions, their text, and the code
  buffer with its promised blocks and their layout.
- `src/text.rs`: source text, spans, lines and columns, and the highlights
  shown under offending code in error messages (positions come from
  lrlex).
- `src/floats.rs`, `src/decimal.rs`: doubles held as IEEE-754 bits and
  their conversions to and from integers; decimal text and parsing.
- `src/error.rs`: the errors and their exit codes.
- `app/`: the command that reads a program, runs the lexer and parser
  generated by grmtools from `scanner.l` and `parser.y`, evaluates the tree
  and prints the code or the error; the error messages.

The symbol tables and the labels of functions are kept as lists of
(name, value) entries, a later entry standing over an earlier one, rather
than as maps keyed by `String`: for such keys Verus proves nothing of what
a lookup gives back after an insertion, and the lookups here must be
proved to find the definition most recently made.

Not in the syntax tree: floating-point literals (their value is a double
read from text, which Verus cannot check), the commands on vector
elements (assignment to an element, an element in an expression, shifts
of an element) and the output of a literal.
