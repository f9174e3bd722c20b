//! Dispute resolution: a party raises a dispute, the admin settles it with a
//! split of the escrow.
use vstd::prelude::*;

use crate::bounty::{load_bounty, save_bounty};
use crate::contract::ChainBountyContract;
use crate::model::{
    dispute_outcome, gross_share, lemma_with_bounty_wf, record_step,
    resolve_outcome, resolve_transfers, transfers_view,
};
use crate::types::{copy_opt_address, Address, BountyId, BountyStatus, BountyView, ContractError, Transfer};
use crate::validation;

verus! {

/// Either party (poster or contributor) raises a dispute on a `Submitted`
/// bounty; the escrow stays locked pending resolution.
///
/// Rules enforced:
/// - Bounty must be in `Submitted` status.
/// - Caller must be either the poster or the locked contributor.
pub fn dispute_bounty(
    state: &mut ChainBountyContract,
    caller: Address,
    bounty_id: BountyId,
    now: u64,
) -> (r: Result<(), ContractError>)
    requires
        old(state)@.wf(),
    ensures
        record_step(old(state)@, final(state)@, dispute_outcome(old(state)@, caller@, bounty_id, now), r),
        final(state)@.wf(),
{
    let mut bounty = load_bounty(state, bounty_id)?;

    // Status guard: disputes are only valid on Submitted bounties
    if bounty.status != BountyStatus::Submitted {
        return Err(ContractError::InvalidStatus);
    }
    // Party guard: caller must be poster or contributor
    let is_poster = bounty.poster == caller;
    let is_contributor = match &bounty.contributor {
        Some(c) => *c == caller,
        None => false,
    };
    if !is_poster && !is_contributor {
        return Err(ContractError::NotAParty);
    }
    // Advance to Disputed
    bounty.status = BountyStatus::Disputed;
    proof {
        lemma_with_bounty_wf(old(state)@, BountyView { updated_at: now, ..bounty@ });
    }
    save_bounty(state, bounty, now);
    Ok(())
}

/// Admin resolves a disputed bounty by splitting the escrow.
///
/// `contributor_pct` is the percentage (0 to 100) of the escrow that goes to
/// the contributor; the remainder goes back to the poster. The platform fee
/// is deducted from the contributor's portion before transfer.
///
/// Rules enforced:
/// - `contributor_pct` must be between 0 and 100 (inclusive).
/// - Bounty must be in `Disputed` status.
/// - Caller must be the admin.
pub fn resolve_dispute(
    state: &mut ChainBountyContract,
    resolver: Address,
    bounty_id: BountyId,
    contributor_pct: u32,
    now: u64,
) -> (r: Result<Vec<Transfer>, ContractError>)
    requires
        old(state)@.wf(),
    ensures
        record_step(
            old(state)@,
            final(state)@,
            resolve_outcome(old(state)@, resolver@, bounty_id, contributor_pct, now),
            r,
        ),
        r matches Ok(t) ==> transfers_view(t@) == resolve_transfers(
            old(state)@,
            old(state)@.bounty_at(bounty_id)->0,
            contributor_pct,
        ),
        final(state)@.wf(),
{
    // Validate split percentage
    validation::require_valid_split(contributor_pct)?;

    let mut bounty = load_bounty(state, bounty_id)?;

    // Status guard: must be Disputed
    if bounty.status != BountyStatus::Disputed {
        return Err(ContractError::InvalidStatus);
    }
    // Admin guard: only the admin may resolve
    let admin = match copy_opt_address(&state.admin) {
        Some(a) => a,
        None => return Err(ContractError::NotInitialized),
    };
    if admin != resolver {
        return Err(ContractError::Unauthorized);
    }
    let contributor = match copy_opt_address(&bounty.contributor) {
        Some(c) => c,
        None => return Err(ContractError::Unauthorized),
    };

    // --- calculate shares ---
    // contributor gross share
    let contributor_gross = validation::mul_div(bounty.amount, contributor_pct, 100);
    // poster refund (remainder)
    let poster_refund = bounty.amount - contributor_gross;
    // deduct platform fee from contributor's gross share
    let fee_bps = validation::get_fee_bps(state);
    let (contributor_net, fee) = validation::compute_fee_split(contributor_gross, fee_bps);

    // --- transfers ---
    let mut transfers: Vec<Transfer> = Vec::new();
    if contributor_net > 0 {
        transfers.push(Transfer::Release { token: bounty.token.clone(), to: contributor, amount: contributor_net });
    }
    let ghost after_net = transfers@;
    if fee > 0 {
        transfers.push(Transfer::Release { token: bounty.token.clone(), to: admin, amount: fee });
    }
    let ghost after_fee = transfers@;
    if poster_refund > 0 {
        transfers.push(Transfer::Release { token: bounty.token.clone(), to: bounty.poster.clone(), amount: poster_refund });
    }

    // Advance to Resolved
    bounty.status = BountyStatus::Resolved;
    proof {
        let b0 = old(state)@.bounty_at(bounty_id)->0;
        assert(contributor_gross == gross_share(b0.amount as int, contributor_pct as int));
        assert(transfers_view(transfers@) =~= resolve_transfers(old(state)@, b0, contributor_pct));
        lemma_with_bounty_wf(old(state)@, BountyView { updated_at: now, ..bounty@ });
    }
    save_bounty(state, bounty, now);
    Ok(transfers)
}

} // verus!
