# crowdfund

A verified crowdfunding campaign: contributions with a cooldown and a hard
cap, pledges collected after the deadline, early withdrawal of
contributions, refunds of a failed campaign, the creator's payout with a
platform fee and commemorative-token recipients, reward tiers, stretch
goals, a whitelist that, once switched on by a first call to add
addresses (even with an empty list), limits who may contribute, and the
campaign's public record (roadmap, updates, metadata).

Contributions must be positive and at least the minimum; pledges must be at
least the minimum. The current milestone is the smallest stretch goal above
the total raised. A
refund returns what an account contributed and sets its contribution to
zero; a second refund pays nothing. Refunds leave the campaign's status as
it is.

Layout:

- `src/types.rs` – plain data: status, errors, reasons to abort, tiers,
  roadmap items, statistics, payout and collection plans, the stored record.
- `src/state.rs` – the campaign as mathematical values and the transition
  that each operation makes, with the reasons it aborts and the error it
  reports.
- `src/contract.rs` – `CrowdfundContract`, whose operations are proved to
  make exactly those transitions.
- `src/ledger.rs` – per-account amounts as a list of entries, with its map view.
- `src/sums.rs`, `src/laws.rs` – sums over accounts and the properties that
  hold of all inputs (totals match contributions, the best tier is the
  highest one reached and does not depend on the order of tiers with
  distinct minimums, fees stay within the total, collection settles pledges
  and a second collection changes nothing, a refund is paid once, a
  withdrawal undoes a contribution, updates stay chronological, ...).
- `app/lib.rs` – the Soroban contract around the library: it maps addresses
  to account numbers, stores the record between calls, checks authorization,
  performs token transfers and mints, and publishes events.
