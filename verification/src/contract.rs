//! The board's state and its entry points.
use vstd::prelude::*;

use crate::model::{
    approve_outcome, approve_transfers, approve_within_limits, bounties_view, cancel_outcome,
    claim_outcome, credit, dispute_outcome, empty_board, initialize_outcome, list_page,
    post_outcome, record_step, reject_outcome, resolve_outcome, resolve_transfers, submit_outcome,
    transfers_view, with_new_bounty, ContractView,
};
use crate::types::{Address, Bounty, BountyId, ContractError, Transfer, TransferView};
use crate::validation;

verus! {

/// A contributor's reputation score (number of completed bounties).
pub struct ReputationEntry {
    pub contributor: Address,
    pub score: u32,
}

impl View for ReputationEntry {
    type V = (Seq<u8>, u32);

    open spec fn view(&self) -> (Seq<u8>, u32) {
        (self.contributor@, self.score)
    }
}

pub open spec fn reputation_view(v: Seq<ReputationEntry>) -> Seq<(Seq<u8>, u32)> {
    v.map_values(|e: ReputationEntry| e@)
}

/// ChainBounty: a bounty board for open-source contributors. It holds the
/// admin and platform fee, every bounty ever posted, and the contributors'
/// reputation. Each entry point decides, from this state and its arguments,
/// the next state and the token transfers to make; the ledger time `now` is
/// handed in by the caller.
pub struct ChainBountyContract {
    pub admin: Option<Address>,
    pub fee_bps: u32,
    pub bounty_count: u64,
    pub bounties: Vec<Bounty>,
    pub reputation: Vec<ReputationEntry>,
}

impl View for ChainBountyContract {
    type V = ContractView;

    open spec fn view(&self) -> ContractView {
        ContractView {
            admin: opt_admin_view(self.admin),
            fee_bps: self.fee_bps,
            bounty_count: self.bounty_count,
            bounties: bounties_view(self.bounties@),
            reputation: reputation_view(self.reputation@),
        }
    }
}

pub open spec fn opt_admin_view(a: Option<Address>) -> Option<Seq<u8>> {
    match a {
        Some(x) => Some(x@),
        None => None,
    }
}

impl ChainBountyContract {
    /// A board that has not been initialized yet.
    pub fn new() -> (c: ChainBountyContract)
        ensures
            c@ == empty_board(),
            c@.wf(),
    {
        let c = ChainBountyContract {
            admin: None,
            fee_bps: 0,
            bounty_count: 0,
            bounties: Vec::new(),
            reputation: Vec::new(),
        };
        assert(c@.bounties == Seq::<crate::types::BountyView>::empty());
        assert(c@.reputation == Seq::<(Seq<u8>, u32)>::empty());
        c
    }

    /// Whether the state satisfies the board's invariant (for a state read
    /// back from storage).
    pub fn is_well_formed(&self) -> (r: bool)
        ensures
            r == self@.wf(),
    {
        if self.bounty_count != self.bounties.len() as u64 {
            return false;
        }
        if self.fee_bps > validation::MAX_FEE_BPS {
            return false;
        }
        if self.bounties.len() > 0 && self.admin.is_none() {
            return false;
        }
        let mut i: usize = 0;
        while i < self.bounties.len()
            invariant
                i <= self.bounties.len(),
                forall|j: int|
                    #![trigger self@.bounties[j]]
                    0 <= j < i ==> crate::model::record_wf(self@.bounties[j], j),
            decreases self.bounties.len() - i,
        {
            let b = &self.bounties[i];
            assert(self@.bounties[i as int] == b@);
            if b.id as u128 != i as u128 + 1 || b.amount <= 0 {
                return false;
            }
            let engaged = !(b.status == crate::types::BountyStatus::Open
                || b.status == crate::types::BountyStatus::Cancelled);
            let worked = b.status == crate::types::BountyStatus::Submitted
                || b.status == crate::types::BountyStatus::Completed
                || b.status == crate::types::BountyStatus::Disputed
                || b.status == crate::types::BountyStatus::Resolved;
            if b.contributor.is_some() != engaged || b.work_hash.is_some() != worked {
                return false;
            }
            i = i + 1;
        }
        true
    }

    /// Initialize the board with its admin and platform fee in basis points
    /// (at most 1000 = 10%). Only once.
    pub fn initialize(&mut self, admin: Address, fee_bps: u32) -> (r: Result<(), ContractError>)
        requires
            old(self)@.wf(),
        ensures
            match initialize_outcome(old(self)@, admin@, fee_bps) {
                Ok(s) => r is Ok && final(self)@ == s,
                Err(e) => r == Err::<(), ContractError>(e) && final(self)@ == old(self)@,
            },
            final(self)@.wf(),
    {
        if self.admin.is_some() {
            return Err(ContractError::AlreadyInitialized);
        }
        validation::require_valid_fee(fee_bps)?;
        self.admin = Some(admin);
        self.fee_bps = fee_bps;
        self.bounty_count = 0;
        Ok(())
    }

    /// Post a new bounty; returns its id and the escrow deposit to pull from
    /// the poster.
    pub fn post_bounty(
        &mut self,
        poster: Address,
        token: Address,
        amount: i128,
        title: Vec<u8>,
        description_hash: Vec<u8>,
        deadline: u64,
        now: u64,
    ) -> (r: Result<(BountyId, Vec<Transfer>), ContractError>)
        requires
            old(self)@.wf(),
            old(self).bounty_count < u64::MAX,
        ensures
            match post_outcome(
                old(self)@,
                poster@,
                token@,
                amount,
                title@,
                description_hash@,
                deadline,
                now,
            ) {
                Ok(b) => r matches Ok((id, t)) && id == b.id && final(self)@ == with_new_bounty(
                    old(self)@,
                    b,
                ) && transfers_view(t@) == seq![
                    TransferView::Deposit { token: token@, from: poster@, amount },
                ],
                Err(e) => r == Err::<(BountyId, Vec<Transfer>), ContractError>(e) && final(self)@
                    == old(self)@,
            },
            final(self)@.wf(),
    {
        crate::bounty::post_bounty(self, poster, token, amount, title, description_hash, deadline, now)
    }

    /// Claim an open bounty. Locks the contributor to this bounty.
    pub fn claim_bounty(&mut self, contributor: Address, bounty_id: BountyId, now: u64) -> (r: Result<
        (),
        ContractError,
    >)
        requires
            old(self)@.wf(),
        ensures
            record_step(old(self)@, final(self)@, claim_outcome(old(self)@, contributor@, bounty_id, now), r),
            final(self)@.wf(),
    {
        crate::bounty::claim_bounty(self, contributor, bounty_id, now)
    }

    /// Submit work for a claimed bounty via a content hash.
    pub fn submit_work(
        &mut self,
        contributor: Address,
        bounty_id: BountyId,
        work_hash: Vec<u8>,
        now: u64,
    ) -> (r: Result<(), ContractError>)
        requires
            old(self)@.wf(),
        ensures
            record_step(
                old(self)@,
                final(self)@,
                submit_outcome(old(self)@, contributor@, bounty_id, work_hash@, now),
                r,
            ),
            final(self)@.wf(),
    {
        crate::bounty::submit_work(self, contributor, bounty_id, work_hash, now)
    }

    /// Poster approves submitted work: releases escrow to the contributor
    /// minus the fee, which goes to the admin.
    pub fn approve_submission(&mut self, poster: Address, bounty_id: BountyId, now: u64) -> (r: Result<
        Vec<Transfer>,
        ContractError,
    >)
        requires
            old(self)@.wf(),
            approve_within_limits(old(self)@, poster@, bounty_id, now),
        ensures
            match approve_outcome(old(self)@, poster@, bounty_id, now) {
                Ok(b) => r matches Ok(t) && transfers_view(t@) == approve_transfers(old(self)@, b)
                    && final(self)@ == old(self)@.with_bounty(b).with_reputation(
                    credit(old(self)@.reputation, b.contributor->0),
                ),
                Err(e) => r == Err::<Vec<Transfer>, ContractError>(e) && final(self)@ == old(self)@,
            },
            final(self)@.wf(),
    {
        crate::bounty::approve_submission(self, poster, bounty_id, now)
    }

    /// Poster rejects submitted work: resets the bounty back to `Open`.
    pub fn reject_submission(&mut self, poster: Address, bounty_id: BountyId, now: u64) -> (r: Result<
        (),
        ContractError,
    >)
        requires
            old(self)@.wf(),
        ensures
            record_step(old(self)@, final(self)@, reject_outcome(old(self)@, poster@, bounty_id, now), r),
            final(self)@.wf(),
    {
        crate::bounty::reject_submission(self, poster, bounty_id, now)
    }

    /// Poster cancels an `Open` bounty and receives a full refund.
    pub fn cancel_bounty(&mut self, poster: Address, bounty_id: BountyId, now: u64) -> (r: Result<
        Vec<Transfer>,
        ContractError,
    >)
        requires
            old(self)@.wf(),
        ensures
            record_step(old(self)@, final(self)@, cancel_outcome(old(self)@, poster@, bounty_id, now), r),
            r matches Ok(t) ==> transfers_view(t@) == seq![
                TransferView::Release {
                    token: old(self)@.bounty_at(bounty_id)->0.token,
                    to: poster@,
                    amount: old(self)@.bounty_at(bounty_id)->0.amount,
                },
            ],
            final(self)@.wf(),
    {
        crate::bounty::cancel_bounty(self, poster, bounty_id, now)
    }

    /// Either party raises a dispute on a submitted bounty.
    pub fn dispute_bounty(&mut self, caller: Address, bounty_id: BountyId, now: u64) -> (r: Result<
        (),
        ContractError,
    >)
        requires
            old(self)@.wf(),
        ensures
            record_step(old(self)@, final(self)@, dispute_outcome(old(self)@, caller@, bounty_id, now), r),
            final(self)@.wf(),
    {
        crate::dispute::dispute_bounty(self, caller, bounty_id, now)
    }

    /// The admin resolves a disputed bounty with a split ratio (0 to 100
    /// percent to the contributor).
    pub fn resolve_dispute(
        &mut self,
        resolver: Address,
        bounty_id: BountyId,
        contributor_pct: u32,
        now: u64,
    ) -> (r: Result<Vec<Transfer>, ContractError>)
        requires
            old(self)@.wf(),
        ensures
            record_step(
                old(self)@,
                final(self)@,
                resolve_outcome(old(self)@, resolver@, bounty_id, contributor_pct, now),
                r,
            ),
            r matches Ok(t) ==> transfers_view(t@) == resolve_transfers(
                old(self)@,
                old(self)@.bounty_at(bounty_id)->0,
                contributor_pct,
            ),
            final(self)@.wf(),
    {
        crate::dispute::resolve_dispute(self, resolver, bounty_id, contributor_pct, now)
    }

    /// Read a single bounty by ID.
    pub fn get_bounty(&self, bounty_id: BountyId) -> (r: Result<Bounty, ContractError>)
        ensures
            match self@.bounty_at(bounty_id) {
                Some(b) => r matches Ok(x) && x@ == b,
                None => r == Err::<Bounty, ContractError>(ContractError::BountyNotFound),
            },
    {
        crate::bounty::get_bounty(self, bounty_id)
    }

    /// Return a page of bounties in ascending ID order: `from_id` is the
    /// first ID to include; `limit` is the maximum number of records (capped
    /// at 20).
    pub fn list_bounties(&self, from_id: BountyId, limit: u32) -> (r: Vec<Bounty>)
        requires
            self@.wf(),
        ensures
            bounties_view(r@) == list_page(self@, from_id, limit),
    {
        crate::bounty::list_bounties(self, from_id, limit)
    }

    /// Read a contributor's reputation score (number of completed bounties).
    pub fn get_reputation(&self, contributor: &Address) -> (r: u32)
        ensures
            r == self@.reputation_of(contributor@),
    {
        crate::bounty::get_reputation(self, contributor)
    }

    /// The number of bounties ever created.
    pub fn bounty_count(&self) -> (r: u64)
        ensures
            r == self@.bounty_count,
    {
        self.bounty_count
    }
}

} // verus!
