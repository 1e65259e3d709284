# hamplard

A course marketplace and certification platform, verified with Verus:
instructors register courses, admins approve them, students enroll and pay
(the platform's fee share goes to the treasury, the rest is credited to the
instructor for later withdrawal), admins mark completions and issue or revoke
certificates, students may ask for refunds, and two admins together govern
the platform's settings.

## Layout

- `src/model.rs` — the platform's state as maps and sets, and for every
  operation the answer it owes: an error, or the next state with the call's
  value, the authorizations it needs, the token transfers and the events.
- `src/contract.rs` — the executable platform; every operation is proved to
  answer as the model says and to keep the state's invariant, and a refused
  operation is proved to leave the state unchanged.
- `src/fees.rs` — the split of a payment between platform and instructor.
- `src/table.rs` — a small keyed table over vectors, with a map as its view.
- `src/persist.rs` — the state as plain lists for saving, and loading them
  back with every key and invariant checked.
- `src/laws.rs` — properties that span calls: payment splitting, no double
  enrollment, all-or-nothing batches, certificate validity and revocation,
  the two-step admin handover, the delayed treasury change, catalog paging.
- `app/lib.rs` — the Soroban contract around the library: it loads and saves
  the state, requires the authorizations, performs the token transfers and
  publishes the events that each operation asks for.
- `tests/` — the platform's scenarios and the rules of each operation.

## Soroban values

The Soroban SDK's `Vec`, `String` and `Address` are handles into the host
environment: a value of them exists only inside an `Env`. The library holds
plain `Vec<String>` and `String` instead, and keyed ledger storage becomes the
verified `Table`; `app/` converts at the boundary. Declaring the SDK's `Vec`
to Verus was not tried, since every use of it needs an `Env`, which the
library does not hold.
