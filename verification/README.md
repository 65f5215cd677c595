# bluejay_rb

The logic of a GraphQL extension for Ruby, verified with Verus: parsing a
query into the library's document (through `bluejay_parser`, with each
variable's declared type read from the query's text), coercion
of input values (from Ruby and from documents, with the GraphQL value
kept beside a coerced default or field), coercion of results,
collection of fields, the steps of executing a request, the walk that
gathers a schema's definitions, visibility decisions, introspection rules
and the messages of errors and validation problems.

Layout:

- `src/` — the verified library. Each module states its behaviour in
  `requires`/`ensures` over spec functions; `src/laws.rs` holds the
  properties that relate several functions.
- `tests/` — tests of the library on concrete values.
- `app/` — the Ruby extension around the library: Ruby classes of the
  schema DSL, conversions between Ruby values and the library's values,
  the loops that make the Ruby calls the library asks for, and the
  `bluejay_core` trait impls through which `bluejay_validator` and
  `bluejay_printer` see a schema.
