//! Core bounty logic: post, claim, submit, approve, reject, cancel, and the
//! read-only queries.
use vstd::prelude::*;

use crate::contract::{ChainBountyContract, ReputationEntry};
use crate::model::{
    approve_outcome, approve_transfers, approve_within_limits, bounties_view, cancel_outcome,
    claim_outcome, credit, credited, is_first_entry, lemma_score_absent, lemma_score_push,
    lemma_score_update, lemma_with_bounty_wf, list_page, post_outcome, record_step, record_wf,
    reject_outcome, submit_outcome, transfers_view, with_new_bounty,
};
use crate::types::{
    copy_opt_address, Address, Bounty, BountyId, BountyStatus, BountyView, ContractError, Transfer,
    TransferView,
};
use crate::validation;

verus! {

/// Load a bounty (a copy of it) or return `BountyNotFound`.
pub fn load_bounty(state: &ChainBountyContract, bounty_id: BountyId) -> (r: Result<Bounty, ContractError>)
    ensures
        match state@.bounty_at(bounty_id) {
            Some(b) => r matches Ok(x) && x@ == b,
            None => r == Err::<Bounty, ContractError>(ContractError::BountyNotFound),
        },
{
    if bounty_id == 0 || bounty_id > state.bounties.len() as u64 {
        return Err(ContractError::BountyNotFound);
    }
    let i = (bounty_id - 1) as usize;
    Ok(state.bounties[i].clone())
}

/// Store a bounty back under its id, stamping its `updated_at` with the
/// ledger time `now`.
pub fn save_bounty(state: &mut ChainBountyContract, bounty: Bounty, now: u64)
    requires
        1 <= bounty.id <= old(state).bounties.len(),
    ensures
        final(state)@ == old(state)@.with_bounty(BountyView { updated_at: now, ..bounty@ }),
{
    let mut bounty = bounty;
    bounty.updated_at = now;
    let i = (bounty.id - 1) as usize;
    let ghost b = bounty@;
    state.bounties.set(i, bounty);
    assert(final(state)@.bounties =~= old(state)@.bounties.update(i as int, b));
}

/// Lock a contributor onto an `Open` bounty.
///
/// Rules enforced:
/// - Bounty must exist and be in `Open` status.
/// - Deadline must not have passed.
/// - Poster cannot claim their own bounty.
pub fn claim_bounty(
    state: &mut ChainBountyContract,
    contributor: Address,
    bounty_id: BountyId,
    now: u64,
) -> (r: Result<(), ContractError>)
    requires
        old(state)@.wf(),
    ensures
        record_step(old(state)@, final(state)@, claim_outcome(old(state)@, contributor@, bounty_id, now), r),
        final(state)@.wf(),
{
    let mut bounty = load_bounty(state, bounty_id)?;

    // Status guard: must be Open
    if bounty.status != BountyStatus::Open {
        return Err(ContractError::InvalidStatus);
    }
    // Deadline guard: must not have expired
    validation::require_not_expired(now, bounty.deadline)?;
    // Self-claim guard: poster cannot be the contributor
    if bounty.poster == contributor {
        return Err(ContractError::Unauthorized);
    }
    // Lock the contributor and advance status
    bounty.contributor = Some(contributor);
    bounty.status = BountyStatus::Claimed;
    proof {
        lemma_with_bounty_wf(old(state)@, BountyView { updated_at: now, ..bounty@ });
    }
    save_bounty(state, bounty, now);
    Ok(())
}

/// Increment and return the next bounty ID.
pub fn next_bounty_id(state: &mut ChainBountyContract) -> (r: BountyId)
    requires
        old(state).bounty_count < u64::MAX,
    ensures
        r == old(state).bounty_count + 1,
        final(state)@ == (crate::model::ContractView { bounty_count: r, ..old(state)@ }),
{
    let count: u64 = state.bounty_count;
    let next = count + 1;
    state.bounty_count = next;
    next
}

/// Create a new bounty; the escrow amount is to be pulled from the poster.
///
/// Rules enforced:
/// - The board must be initialized.
/// - The amount must be positive and the deadline in the future.
/// - The title and description hash must be at least 3 characters long.
pub fn post_bounty(
    state: &mut ChainBountyContract,
    poster: Address,
    token: Address,
    amount: i128,
    title: Vec<u8>,
    description_hash: Vec<u8>,
    deadline: u64,
    now: u64,
) -> (r: Result<(BountyId, Vec<Transfer>), ContractError>)
    requires
        old(state)@.wf(),
        old(state).bounty_count < u64::MAX,
    ensures
        match post_outcome(
            old(state)@,
            poster@,
            token@,
            amount,
            title@,
            description_hash@,
            deadline,
            now,
        ) {
            Ok(b) => r matches Ok((id, t)) && id == b.id && final(state)@ == with_new_bounty(
                old(state)@,
                b,
            ) && transfers_view(t@) == seq![
                TransferView::Deposit { token: token@, from: poster@, amount },
            ],
            Err(e) => r == Err::<(BountyId, Vec<Transfer>), ContractError>(e) && final(state)@
                == old(state)@,
        },
        final(state)@.wf(),
{
    // --- guard: contract must be initialized ---
    if state.admin.is_none() {
        return Err(ContractError::NotInitialized);
    }
    // --- validate inputs ---
    validation::require_positive_amount(amount)?;
    validation::require_future_deadline(now, deadline)?;
    validation::require_non_empty_string(&title)?;
    validation::require_non_empty_string(&description_hash)?;

    // --- pull escrow from poster ---
    let mut transfers: Vec<Transfer> = Vec::new();
    transfers.push(Transfer::Deposit { token: token.clone(), from: poster.clone(), amount });

    // --- build and store bounty ---
    let id = next_bounty_id(state);
    let bounty = Bounty {
        id,
        poster,
        token,
        amount,
        title,
        description_hash,
        deadline,
        status: BountyStatus::Open,
        contributor: None,
        work_hash: None,
        created_at: now,
        updated_at: now,
    };
    let ghost b = bounty@;
    state.bounties.push(bounty);
    proof {
        let s = final(state)@;
        assert(s.bounties =~= old(state)@.bounties.push(b));
        assert forall|i: int| #![trigger s.bounties[i]] 0 <= i < s.bounties.len() implies record_wf(
            s.bounties[i],
            i,
        ) by {
            if i < old(state)@.bounties.len() {
                assert(s.bounties[i] == old(state)@.bounties[i]);
            }
        }
        assert(transfers_view(transfers@) =~= seq![
            TransferView::Deposit { token: token@, from: poster@, amount },
        ]);
    }
    Ok((id, transfers))
}

/// Contributor submits a content hash as proof of work.
///
/// Rules enforced:
/// - Bounty must exist and be in `Claimed` status.
/// - Caller must be the locked contributor.
/// - Deadline must not have passed.
/// - Work hash must be at least 3 characters long.
pub fn submit_work(
    state: &mut ChainBountyContract,
    contributor: Address,
    bounty_id: BountyId,
    work_hash: Vec<u8>,
    now: u64,
) -> (r: Result<(), ContractError>)
    requires
        old(state)@.wf(),
    ensures
        record_step(
            old(state)@,
            final(state)@,
            submit_outcome(old(state)@, contributor@, bounty_id, work_hash@, now),
            r,
        ),
        final(state)@.wf(),
{
    let mut bounty = load_bounty(state, bounty_id)?;

    // Status guard: must be Claimed
    if bounty.status != BountyStatus::Claimed {
        return Err(ContractError::InvalidStatus);
    }
    // Ownership guard: only the locked contributor may submit
    match &bounty.contributor {
        Some(c) if *c == contributor => {},
        _ => return Err(ContractError::Unauthorized),
    }
    // Deadline guard
    validation::require_not_expired(now, bounty.deadline)?;
    // Input guard: work hash must be long enough
    validation::require_non_empty_string(&work_hash)?;

    // Store work hash and advance status
    bounty.work_hash = Some(work_hash);
    bounty.status = BountyStatus::Submitted;
    proof {
        lemma_with_bounty_wf(old(state)@, BountyView { updated_at: now, ..bounty@ });
    }
    save_bounty(state, bounty, now);
    Ok(())
}

/// Poster cancels an `Open` bounty and receives a full escrow refund.
///
/// Rules enforced:
/// - Bounty must be in `Open` status (no contributor locked in).
/// - Caller must be the original poster.
/// - Full escrow amount is returned to the poster.
pub fn cancel_bounty(
    state: &mut ChainBountyContract,
    poster: Address,
    bounty_id: BountyId,
    now: u64,
) -> (r: Result<Vec<Transfer>, ContractError>)
    requires
        old(state)@.wf(),
    ensures
        record_step(old(state)@, final(state)@, cancel_outcome(old(state)@, poster@, bounty_id, now), r),
        r matches Ok(t) ==> transfers_view(t@) == seq![
            TransferView::Release {
                token: old(state)@.bounty_at(bounty_id)->0.token,
                to: poster@,
                amount: old(state)@.bounty_at(bounty_id)->0.amount,
            },
        ],
        final(state)@.wf(),
{
    let mut bounty = load_bounty(state, bounty_id)?;

    // Status guard: can only cancel an Open bounty
    if bounty.status != BountyStatus::Open {
        return Err(ContractError::InvalidStatus);
    }
    // Ownership guard: only the poster may cancel
    if bounty.poster != poster {
        return Err(ContractError::Unauthorized);
    }
    // Refund full escrow to poster
    let mut transfers: Vec<Transfer> = Vec::new();
    transfers.push(Transfer::Release { token: bounty.token.clone(), to: poster, amount: bounty.amount });

    // Mark as Cancelled
    bounty.status = BountyStatus::Cancelled;
    proof {
        lemma_with_bounty_wf(old(state)@, BountyView { updated_at: now, ..bounty@ });
    }
    save_bounty(state, bounty, now);
    proof {
        let b = old(state)@.bounty_at(bounty_id)->0;
        assert(transfers_view(transfers@) =~= seq![
            TransferView::Release { token: b.token, to: poster@, amount: b.amount },
        ]);
    }
    Ok(transfers)
}

/// Poster rejects submitted work: clears contributor and work hash and resets
/// the bounty to `Open`; the escrow stays locked.
///
/// Rules enforced:
/// - Bounty must be in `Submitted` status.
/// - Caller must be the original poster.
pub fn reject_submission(
    state: &mut ChainBountyContract,
    poster: Address,
    bounty_id: BountyId,
    now: u64,
) -> (r: Result<(), ContractError>)
    requires
        old(state)@.wf(),
    ensures
        record_step(old(state)@, final(state)@, reject_outcome(old(state)@, poster@, bounty_id, now), r),
        final(state)@.wf(),
{
    let mut bounty = load_bounty(state, bounty_id)?;

    // Status guard: must be Submitted
    if bounty.status != BountyStatus::Submitted {
        return Err(ContractError::InvalidStatus);
    }
    // Ownership guard: only the poster may reject
    if bounty.poster != poster {
        return Err(ContractError::Unauthorized);
    }
    // Clear contributor and work hash, reset to Open
    bounty.contributor = None;
    bounty.work_hash = None;
    bounty.status = BountyStatus::Open;
    proof {
        lemma_with_bounty_wf(old(state)@, BountyView { updated_at: now, ..bounty@ });
    }
    save_bounty(state, bounty, now);
    Ok(())
}

/// Poster approves the submitted work and releases the escrow: the payout
/// (amount less the platform fee) to the contributor, the fee to the admin.
/// The contributor's reputation goes up by one.
///
/// Rules enforced:
/// - Bounty must be in `Submitted` status.
/// - Caller must be the original poster.
pub fn approve_submission(
    state: &mut ChainBountyContract,
    poster: Address,
    bounty_id: BountyId,
    now: u64,
) -> (r: Result<Vec<Transfer>, ContractError>)
    requires
        old(state)@.wf(),
        approve_within_limits(old(state)@, poster@, bounty_id, now),
    ensures
        match approve_outcome(old(state)@, poster@, bounty_id, now) {
            Ok(b) => r matches Ok(t) && transfers_view(t@) == approve_transfers(old(state)@, b)
                && final(state)@ == old(state)@.with_bounty(b).with_reputation(
                credit(old(state)@.reputation, b.contributor->0),
            ) && credited(old(state)@.reputation, final(state)@.reputation, b.contributor->0),
            Err(e) => r == Err::<Vec<Transfer>, ContractError>(e) && final(state)@ == old(state)@,
        },
        final(state)@.wf(),
{
    let mut bounty = load_bounty(state, bounty_id)?;

    // Status guard: must be Submitted
    if bounty.status != BountyStatus::Submitted {
        return Err(ContractError::InvalidStatus);
    }
    // Ownership guard: only the poster may approve
    if bounty.poster != poster {
        return Err(ContractError::Unauthorized);
    }
    // Resolve contributor (always present when Submitted)
    let contributor = match copy_opt_address(&bounty.contributor) {
        Some(c) => c,
        None => return Err(ContractError::Unauthorized),
    };

    // Calculate payout split
    let fee_bps = validation::get_fee_bps(state);
    let (payout, fee) = validation::compute_fee_split(bounty.amount, fee_bps);

    // Release reward to contributor
    let mut transfers: Vec<Transfer> = Vec::new();
    transfers.push(Transfer::Release { token: bounty.token.clone(), to: contributor.clone(), amount: payout });

    // Send fee to admin (only if non-zero)
    if fee > 0 {
        let admin = match copy_opt_address(&state.admin) {
            Some(a) => a,
            None => return Err(ContractError::NotInitialized),
        };
        transfers.push(Transfer::Release { token: bounty.token.clone(), to: admin, amount: fee });
    }

    // Advance status to Completed
    bounty.status = BountyStatus::Completed;
    let ghost b = BountyView { updated_at: now, ..bounty@ };
    proof {
        lemma_with_bounty_wf(old(state)@, b);
        assert(transfers_view(transfers@) =~= approve_transfers(old(state)@, b));
    }
    save_bounty(state, bounty, now);

    // Increment contributor reputation
    increment_reputation(state, &contributor);
    Ok(transfers)
}

/// Increment a contributor's reputation score by 1.
pub fn increment_reputation(state: &mut ChainBountyContract, contributor: &Address)
    requires
        old(state)@.reputation_of(contributor@) < u32::MAX,
    ensures
        final(state)@ == old(state)@.with_reputation(credit(old(state)@.reputation, contributor@)),
        credited(old(state)@.reputation, final(state)@.reputation, contributor@),
{
    let ghost r = old(state)@.reputation;
    let mut i: usize = 0;
    while i < state.reputation.len()
        invariant
            i <= state.reputation.len(),
            state@ == old(state)@,
            r == state@.reputation,
            crate::model::score_of(r, contributor@) < u32::MAX,
            forall|j: int| 0 <= j < i ==> r[j].0 != contributor@,
        decreases state.reputation.len() - i,
    {
        if state.reputation[i].contributor == *contributor {
            let current: u32 = state.reputation[i].score;
            proof {
                assert(is_first_entry(r, contributor@, i as int));
                crate::model::lemma_score_first(r, contributor@, i as int);
            }
            let entry = ReputationEntry { contributor: contributor.clone(), score: current + 1 };
            state.reputation.set(i, entry);
            proof {
                lemma_score_update(r, i as int, contributor@, (current + 1) as u32);
                assert(final(state)@.reputation =~= r.update(i as int, (contributor@, (current + 1) as u32)));
                let k = choose|k: int| is_first_entry(r, contributor@, k);
                crate::model::lemma_first_entry_unique(r, contributor@, i as int, k);
            }
            return;
        }
        i = i + 1;
    }
    state.reputation.push(ReputationEntry { contributor: contributor.clone(), score: 1 });
    proof {
        lemma_score_absent(r, contributor@);
        lemma_score_push(r, contributor@, 1);
        assert(final(state)@.reputation =~= r.push((contributor@, 1u32)));
        assert(!exists|k: int| is_first_entry(r, contributor@, k));
    }
}

/// Read a contributor's reputation score (number of completed bounties).
pub fn get_reputation(state: &ChainBountyContract, contributor: &Address) -> (r: u32)
    ensures
        r == state@.reputation_of(contributor@),
{
    let ghost s = state@.reputation;
    let mut i: usize = 0;
    while i < state.reputation.len()
        invariant
            i <= state.reputation.len(),
            s == state@.reputation,
            forall|j: int| 0 <= j < i ==> s[j].0 != contributor@,
        decreases state.reputation.len() - i,
    {
        if state.reputation[i].contributor == *contributor {
            proof {
                assert(is_first_entry(s, contributor@, i as int));
                crate::model::lemma_score_first(s, contributor@, i as int);
            }
            return state.reputation[i].score;
        }
        i = i + 1;
    }
    proof {
        lemma_score_absent(s, contributor@);
    }
    0
}

/// Return a single bounty by ID.
pub fn get_bounty(state: &ChainBountyContract, bounty_id: BountyId) -> (r: Result<Bounty, ContractError>)
    ensures
        match state@.bounty_at(bounty_id) {
            Some(b) => r matches Ok(x) && x@ == b,
            None => r == Err::<Bounty, ContractError>(ContractError::BountyNotFound),
        },
{
    load_bounty(state, bounty_id)
}

/// Return a page of bounties in ascending ID order.
///
/// - `from_id`: first bounty ID to include (1-based; pass 1 to start from the
///   beginning)
/// - `limit`: maximum number of records to return (capped at 20)
pub fn list_bounties(state: &ChainBountyContract, from_id: BountyId, limit: u32) -> (r: Vec<Bounty>)
    requires
        state@.wf(),
    ensures
        bounties_view(r@) == list_page(state@, from_id, limit),
{
    let cap: u32 = if limit > 20 {
        20
    } else {
        limit
    };
    let total: u64 = state.bounty_count;
    let start: u64 = if from_id == 0 {
        1
    } else {
        from_id
    };
    let mut results: Vec<Bounty> = Vec::new();
    if start > total {
        assert(bounties_view(results@) =~= Seq::<BountyView>::empty());
        return results;
    }
    assert(start - 1 < state.bounties.len());
    let first: usize = (start - 1) as usize;
    let mut i: usize = first;
    let mut collected: u32 = 0;
    while i < state.bounties.len() && collected < cap
        invariant
            state@.wf(),
            first == start - 1,
            start <= total,
            total == state.bounties.len(),
            cap == (if limit > 20 { 20 } else { limit }),
            start == (if from_id == 0 { 1 } else { from_id }),
            first <= i <= state.bounties.len(),
            collected == i - first,
            collected <= cap,
            cap <= 20,
            bounties_view(results@) == state@.bounties.subrange(first as int, i as int),
        decreases state.bounties.len() - i,
    {
        let ghost prev = results@;
        let b = state.bounties[i].clone();
        assert(b@ == state@.bounties[i as int]);
        results.push(b);
        proof {
            assert(results@ == prev.push(b));
            let old_view = state@.bounties.subrange(first as int, i as int);
            assert(bounties_view(prev) == old_view);
            assert(prev.len() == old_view.len());
            assert(state@.bounties.len() == state.bounties@.len());
            assert(results@.len() == i + 1 - first);
            assert forall|k: int| 0 <= k < results@.len() implies #[trigger] bounties_view(results@)[k]
                == state@.bounties.subrange(first as int, i + 1)[k] by {
                if k < prev.len() {
                    assert(bounties_view(prev)[k] == old_view[k]);
                    assert(results@[k] == prev[k]);
                } else {
                    assert(results@[k] == b);
                }
            }
            assert(bounties_view(results@) =~= state@.bounties.subrange(first as int, i + 1));
        }
        collected = collected + 1;
        i = i + 1;
    }
    assert(bounties_view(results@) =~= list_page(state@, from_id, limit));
    results
}

} // verus!
