# giveaways

A verified library for proof-of-chance giveaways on Solana, checked with
Verus. Participants commit to a secret (`lucky_words || 0x1f || salt`),
reveal it during the upload window, either through a provider receipt or
directly, and the aggregate of the verified reveal digests seeds a
deterministic top-K draw over the eligible entries. Winners are paid in
batches from a vault; giveaways that never reach a draw are refunded.

## Layout

- `src/` — the verified library.
  - `instructions/` — one module per instruction. Each takes a plain model
    of its accounts and returns the events to log; its contract states the
    error returned for every failing check, the exact new account state and
    the events on success.
  - `state/` — the account types (configuration, giveaway, participant,
    winners ledger, finalization ledger) with their transitions, and the
    radix-selection laws behind the top-K threshold.
  - `utils/` — entropy and winner-selection crypto, parameter validation,
    program-derived addresses, participant account sets, lamport transfers.
  - `hashing.rs`, `address.rs` — the trusted calls into `sha2`, `hex` and
    `solana-program`, each with the contract it is trusted for.
- `tests/` — tests of the library, including a full giveaway run from
  configuration to the last payout.
- `app/` — the Anchor program: account validation and (de)serialization,
  account creation and funding through the system program, the clock, and
  event logging. It hands plain values to the library and writes back what
  the library computes.

## Participant cap

A giveaway accepts at most 4,096 entries (`MAX_PARTICIPANTS`); `participate`
refuses a further new entry with `TooManyParticipants`, while existing entries
can still be updated. The project's notes disagree on this point (one says
giveaways are capped at 4,096 participants, another that there is no cap);
this library follows the stated cap.
