# mailkeep

The verified core of the MailKeep mail archive, written in Verus.

- `src/` is the library; Verus verifies every function in it against its
  contract. It holds the decisions of the web pages (search
  box, forms, folder picker, message list and viewer, user administration),
  the password rules and generator, and the storage side's guards and row
  changes (job queue, accounts, folders, messages, users, settings).
- `tests/` runs the library on concrete values.
- `app/` is ordinary Rust around the library: serde copies of its types,
  error display and clock conversions.
