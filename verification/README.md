# penguin

The front and back ends of the Penguin scripting language, written in Verus with
their behaviour stated in contracts and proved.

- `lexer/`: splits source text into positioned tokens. The contract of
  `lex_file_source` is a transition system over characters (`scan`), and token
  reading (`PengToken::from_string`) is stated word by word.
- `optimizer/`: the AST passes (constant propagation, boolean simplification,
  constant folding, dead code and empty block removal) and the traversal that
  runs them. Each pass has an exact contract, and `optimize_ast` states the whole
  result (`optimized.rs`): every expression rebuilt from its optimized parts and put
  through the enabled passes in the scope of the names known where it stands, every
  list of statements optimized in order with the scope each statement leaves.
- `binary/`: the binary file format. `peng_binary_encode` succeeds exactly on
  valid files and writes `enc_file` of the file's model; `peng_binary_decode`
  succeeds exactly on such bytes and gives the file back. Errors name the first
  check that failed (`file_error`).
- `generator/`: code generation for expressions (`generate_expression`, with
  `expression_code` stating the exact instructions, constants and names each
  expression adds, and when generating fails), including calls, method calls,
  operation calls and `try`, and the bookkeeping of generation (locals and scopes,
  globals, constants, jumps and loop patching).
- `heap.rs`, `call.rs`, `runtime.rs`, `numeric.rs`, `value.rs`, `scheduler.rs`: the
  virtual machine over a model of its heap (values by address, floats held as bits)
  and of a thread (its value stack and frames): calls (arguments padded with nil, the
  rest of a variadic call stored as a new vector), the stack, local, jump, heap, vector,
  object, arithmetic, logic and comparison instructions, attribute and member access,
  reading items by number and joining strings (`attributes.rs`), one step of a thread with return and error
  recovery, integer arithmetic, comparisons and conversions on cells (`cell.rs`,
  `numeric.rs`, `value.rs`), scheduler rounds, and mark-and-sweep collection
  that keeps exactly what the roots reach. Floating-point arithmetic and conversions
  are reported to the caller, not computed.
- `parser/ast.rs`: the syntax tree the passes work on.
- the other modules hold the runtime's plain data types (positions, frames,
  instructions, types, errors).

Native functions, units, constants and strings pushed from a unit's pools, type values
and what needs them (conversion, typed objects, unions), writing items by index,
operation calls, floating-point arithmetic, and the generation of statements,
declarations and literals other than plain values and strings are not part of this
crate.

`app/main.rs` reads a file and prints its tokens; it also holds the scheduler's
endless loop with its clock, and the floating-point conversions.
