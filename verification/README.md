# inventory

A small store: user accounts with argon2-hashed passwords, a product
catalogue, per-user carts and orders, driven from a terminal menu and kept in
JSON files.

- `src/` is the library, verified with Verus. Each operation takes the records
  it works on (accounts, products, carts, orders, issued codes) and states in its
  contract exactly what it returns and how it changes them. Money amounts are a
  type parameter: the library carries them between records and leaves the
  arithmetic on them to the caller.
- `app/` is the terminal program: prompts, printing, the JSON files, and the
  floating-point money arithmetic (order totals, balance checks and funding).
- `tests/` exercises the library on concrete values.
