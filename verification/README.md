# web_service

The request-handling logic of a question-and-answer web service (questions,
answers, accounts with roles, sessions), written in Verus and proved against
its contracts.

- `src/` is the verified library: text helpers (`text`), reading and writing
  `i32` decimal text (`number`), the error type with its HTTP status and reply
  text (`error`), the request and reply types (`types`), the per-client limit
  on failed authentication attempts (`rate_limit`), the stored forms of
  tokens and passwords and the password check (`auth_crypto`), the decisions that each
  route makes around its database calls (`routes`), and what the store computes
  from its rows (`store`).
- `app/` is the server around it: warp routes, PostgreSQL queries through
  sqlx, random secrets and salts, JSON shapes with serde, and `main`.
- `tests/` runs the library on concrete inputs.
