# juniper_eager_loading

Eager loading of GraphQL associations for Juniper, so that resolving a list of values issues one
query per association instead of one per value, with its logic verified by Verus.

## Layout

- `src/` — the verified library.
  - `association.rs`, `associations.rs` — the association types (`HasOne`, `OptionHasOne`,
    `HasMany`, `HasManyThrough`), their views, and what loading leaves in each.
  - `eager_loading.rs` — the traits a GraphQL type implements, and the generic eager loading
    that loads children, eager loads them in turn and attaches each to the parents it belongs to.
  - `unique.rs` — removing duplicate ids while keeping first occurrences.
  - `error.rs` — the errors and their messages.
  - `code_gen/` — what `#[derive(EagerLoading)]` and the Diesel `LoadFrom` macros generate,
    decided on plain values: the attributes, the types of the fields, the token trees of the
    macro input.
- `tests/` — tests of the library.
- `app/` — the token-level side: reading items and attributes with `syn` and `bae`, and writing
  the generated impls with `quote`.
