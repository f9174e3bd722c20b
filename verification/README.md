# chainbounty

The rules of ChainBounty, a bounty board for open-source contributors:
posting a bounty with an escrowed reward, claiming it, submitting work,
approving (payout minus a platform fee), rejecting, cancelling (full refund),
disputes settled by the admin with a split, and contributor reputation.

The library in `src/` is verified with Verus. Each entry point takes the
board's state, its arguments and the ledger time, and returns the next state
and the token transfers to make; it does no I/O.

- `types.rs`: addresses, bounties, statuses, errors, transfers.
- `validation.rs`: input rules and the exact fee arithmetic.
- `model.rs`: the board's mathematical model, its invariant, and what each
  operation does to it.
- `contract.rs`: the board (`ChainBountyContract`) and its entry points.
- `bounty.rs`, `dispute.rs`: the operations.
- `laws.rs`: escrow conservation, reputation as the count of completed
  bounties, the status lifecycle, reads after writes, pagination.

`app/` is the Soroban contract around the library: authorization, storage,
token transfers and events.
