# ckb_pitfalls

Four small CKB scripts, each in two builds (`Build::Vulnerable`, as first written, and
`Build::Fixed`, with its correction), verified with Verus.

Each script is split the same way:

* `read_transaction` reads, through the `ckb_std` syscalls in `src/syscalls.rs`, what
  the script looks at into a plain view (`FeeTx`, `OwnedTx`, `PayloadTx`, `TimedTx`),
  recording every read that failed. Every syscall hands back a `Read` tagged with the
  syscall, index and origin it was made at, and only `src/syscalls.rs` can make one; the
  reader keeps the `Receipt`s, and its contract, `well_read`, states which item of which
  list each field of the view was read from (for instance, each payload-type output's
  payload is `witnesses[i].output_type` at the output's own index `i`, read through the
  inputs' witness list, and owned-type edits look at the lock of every input of the
  transaction);
* `run` decides over that view, and is proved equal to `spec_run`, the script's rule
  written as a specification;
* `program_entry_traced` reads, decides and returns the exit code together with the
  view and the receipts: the code is the verdict of `spec_run` on that view, and
  `well_read` ties the view to the reads made; `program_entry` returns its code alone;
* the `law_*` proof functions state what the scripts promise over the view: the fee
  rule with one indivisible total, only pure outputs paying, payments that ignore order
  and other locks, paying more never turning an acceptance into a refusal, the
  correction only adding refusals (in the fee, owned and timed scripts), owners that
  are never the cell's own lock, bumps that keep the capacity, `since` flags read
  before the value, payloads checked against their output's index, and refusal on
  every failed read.

`src/hash.rs` wraps `blake2b_ref` for CKB's personalised blake2b-256. `app/main.rs` runs
one entry point by name. `tests/` builds transaction views by hand and runs the rules.
