# atoy

An interpreter for Atoy, a small scripting language: a lexer, a
recursive-descent parser, a compiler to stack-machine code and a stack
virtual machine with tables, prototypes, metatables, arrays and closures.
Besides the arithmetic, comparisons, `and`/`or`/`not`, `let`, `if`,
`while`, `return` and `fn` literals, the language has table literals `{}`,
array literals `[a, b]`, the concatenation `..`, indexing `obj[key]`, field
reads and writes `obj.name` and method calls `obj:name(args)`, which pass
`obj` as the first argument.
The library is written in Verus: each stage states what it does as a
contract over a mathematical model, and Verus proves the code against it.

## Layout

- `src/text.rs`, `src/token.rs`, `src/lexer.rs`: characters, tokens, and the
  lexer, specified by `lex_from` (what lexing a source from a position gives).
- `src/ast.rs`, `src/grammar.rs`, `src/parser.rs`: the syntax tree, the
  grammar as spec functions (one per rule), and the parser, which agrees with
  the grammar and only builds trees the compiler accepts.
- `src/value.rs`, `src/codegen.rs`, `src/compiler.rs`: values and
  instructions, what the compiler emits for each construct (`cexpr`,
  `cstmt`), and the compiler.
- `src/heap.rs`, `src/runtime.rs`, `src/builtin.rs`, `src/invoke.rs`: the
  machine's heap, runtime errors and their texts, the built-in functions, and
  the argument checks of a built-in call.
- `src/machine.rs`, `src/vm.rs`: one step of the machine as a spec function
  (`step_spec`) and the machine that implements it. The machine runs as a
  state machine: a step says what it needs from its host (a line printed or
  read, a float computed, a registered function called).
- `src/laws.rs`: properties that span several functions.
- `app/main.rs`: the REPL and the script runner; it does the I/O and the
  floating-point arithmetic, which stay outside the verified library.
