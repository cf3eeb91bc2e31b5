# solana_tutorial

Verified logic of a series of small Solana programs: a counter, user
profiles, a todo list, a vote at program-derived addresses, transfers made
through the system program, and a calculator, together with the basic notions
of lamports, accounts and transfer transactions.

- `src/` is the verified library. `wire` is the Borsh encoding the programs
  use, `runtime` what a program sees of its accounts and the errors it
  returns, and each program has a module of its own with its instructions,
  its account state, and its processor, whose contract says what every
  instruction does to the accounts. Laws relating the instructions (what a
  read gives back after a write, what is refused) are proof functions beside
  the processors.
- Where a program asks the runtime to create an account or to move lamports,
  the library splits the instruction in two: a `begin_*` function makes the
  checks and returns the request, and a `finish_*` function writes the state
  once the runtime has done its part.
- `app/` holds the entry points on the Solana runtime: account conversion,
  logging, the cross-program invocations, the sysvars, and the error types
  with their messages.
- `tests/` runs the programs on accounts built in memory.
