# fack_codegen

The verified engine behind the `fack` error derive: it reads an item and its
`#[error(...)]` attributes, validates them against the item's fields, and
renders the `Display`, `Error` and `From` implementations.

Layout:

- `src/ast.rs` – plain models of the Rust syntax the derive reads (spans,
  identifiers, literals, types, generics, diagnostics).
- `src/input/` – the attribute grammar over Rust tokens (`tokens.rs`: format
  literal and explicit arguments, parameter keywords and their contents),
  duplicate and placement checks, and the classification of each structure,
  enum and variant.
- `src/literal.rs` – the value a Rust string literal token denotes, and the
  calls that write literal tokens and read their values.
- `src/semantic/` – format-string resolution, source containers, and
  validation of every declaration against its fields.
- `src/expand/` – rendering of the generated items as Rust source text, with
  where predicates added only where an implementation needs them.
- `src/indexed.rs` – index based field identities, source shapes and the
  inline and forwarding options.
- `src/lib.rs` – the staged API: `Target::input`, `Target::validate`,
  `ValidatedTarget::expand` and `generate`.
- `app/lib.rs` – the adapter from `syn::DeriveInput` to the model (each
  attribute token tree handed over one for one) and from the library's
  diagnostics back to `syn::Error`.
