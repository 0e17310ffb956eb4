# squeel

Typed SQLite tables described by plain Rust structs.

`src/` is the verified library: it reads a struct's shape (its name, its
`#[table(...)]` and `#[column(...)]` attributes, and its fields' types) and
derives the table's schema and statements, with contracts proved by Verus.

- `text`: ASCII case mapping, string equality and joining.
- `rename`: the case conventions (`snake_case`, `camelCase`, ...) and how a
  name splits into words.
- `sqltype`: the storage class of a field's type.
- `attributes`: what the attribute items mean, how attributes combine, and
  the diagnostics they raise.
- `schema`: fields with their column settings, column lists and names.
- `sql`: the `CREATE TABLE`, `INSERT`, `DELETE` and `SELECT` statements.

`app/` is the unverified shell around it: the `Table` trait and the sqlx
connection, the derive that turns syn's view of a struct into the library's
input and the library's statements into an impl, and an example program.
