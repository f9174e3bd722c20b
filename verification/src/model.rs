//! The mathematical model of the board: its state, its invariant, and what
//! each operation does to it.
use vstd::prelude::*;

use crate::types::{Bounty, BountyId, BountyStatus, BountyView, ContractError, Transfer, TransferView};
use crate::validation::{char_count, fee_of, MAX_FEE_BPS, MIN_TITLE_LEN};

verus! {

/// The mathematical value of the whole board.
pub struct ContractView {
    /// The admin, once the board is initialized.
    pub admin: Option<Seq<u8>>,
    /// Platform fee in basis points (0 before initialization).
    pub fee_bps: u32,
    /// Total number of bounties ever created.
    pub bounty_count: u64,
    /// Every bounty, in id order: the bounty with id `i + 1` is at index `i`.
    pub bounties: Seq<BountyView>,
    /// Reputation entries (contributor, score); the first entry of a
    /// contributor is the one that counts.
    pub reputation: Seq<(Seq<u8>, u32)>,
}

pub open spec fn bounties_view(v: Seq<Bounty>) -> Seq<BountyView> {
    v.map_values(|b: Bounty| b@)
}

pub open spec fn transfers_view(v: Seq<Transfer>) -> Seq<TransferView> {
    v.map_values(|t: Transfer| t@)
}

/// Statuses in which a contributor is locked onto the bounty.
pub open spec fn has_contributor(st: BountyStatus) -> bool {
    !(st == BountyStatus::Open || st == BountyStatus::Cancelled)
}

/// Statuses in which submitted work is on record.
pub open spec fn has_work(st: BountyStatus) -> bool {
    st == BountyStatus::Submitted || st == BountyStatus::Completed || st == BountyStatus::Disputed
        || st == BountyStatus::Resolved
}

/// Statuses in which the bounty's amount is still held in escrow.
pub open spec fn is_live(st: BountyStatus) -> bool {
    st == BountyStatus::Open || st == BountyStatus::Claimed || st == BountyStatus::Submitted
        || st == BountyStatus::Disputed
}

/// What holds of the record stored at index `i`.
pub open spec fn record_wf(b: BountyView, i: int) -> bool {
    &&& b.id == i + 1
    &&& b.amount > 0
    &&& (b.contributor is Some <==> has_contributor(b.status))
    &&& (b.work_hash is Some <==> has_work(b.status))
}

/// `i` is the first reputation entry of `a`.
pub open spec fn is_first_entry(r: Seq<(Seq<u8>, u32)>, a: Seq<u8>, i: int) -> bool {
    &&& 0 <= i < r.len()
    &&& r[i].0 == a
    &&& forall|j: int| 0 <= j < i ==> r[j].0 != a
}

/// The reputation score of `a`: the score of its first entry, or 0.
pub open spec fn score_of(r: Seq<(Seq<u8>, u32)>, a: Seq<u8>) -> u32 {
    if exists|i: int| is_first_entry(r, a, i) {
        r[choose|i: int| is_first_entry(r, a, i)].1
    } else {
        0
    }
}

/// `new` credits `c` with one more completed bounty and leaves every other
/// score as it was.
pub open spec fn credited(old: Seq<(Seq<u8>, u32)>, new: Seq<(Seq<u8>, u32)>, c: Seq<u8>) -> bool {
    forall|a: Seq<u8>|
        #[trigger] score_of(new, a) == score_of(old, a) + (if a == c {
            1int
        } else {
            0int
        })
}

/// The reputation entries after crediting `c` with one more completed
/// bounty: its first entry goes up by one, or a first entry with score 1 is
/// appended.
pub open spec fn credit(r: Seq<(Seq<u8>, u32)>, c: Seq<u8>) -> Seq<(Seq<u8>, u32)> {
    if exists|k: int| is_first_entry(r, c, k) {
        let k = choose|k: int| is_first_entry(r, c, k);
        r.update(k, (c, (r[k].1 + 1) as u32))
    } else {
        r.push((c, 1u32))
    }
}

impl ContractView {
    /// The board's invariant.
    pub open spec fn wf(self) -> bool {
        &&& self.bounty_count == self.bounties.len()
        &&& self.fee_bps <= MAX_FEE_BPS
        &&& (self.bounties.len() > 0 ==> self.admin is Some)
        &&& forall|i: int|
            #![trigger self.bounties[i]]
            0 <= i < self.bounties.len() ==> record_wf(self.bounties[i], i)
    }

    /// The bounty with the given id, if it exists.
    pub open spec fn bounty_at(self, id: BountyId) -> Option<BountyView> {
        if 1 <= id <= self.bounties.len() {
            Some(self.bounties[id - 1])
        } else {
            None
        }
    }

    /// The board with the record `b` stored under its id.
    pub open spec fn with_bounty(self, b: BountyView) -> ContractView {
        ContractView { bounties: self.bounties.update(b.id - 1, b), ..self }
    }

    pub open spec fn with_reputation(self, r: Seq<(Seq<u8>, u32)>) -> ContractView {
        ContractView { reputation: r, ..self }
    }

    pub open spec fn reputation_of(self, a: Seq<u8>) -> u32 {
        score_of(self.reputation, a)
    }
}

/// The empty, uninitialized board.
pub open spec fn empty_board() -> ContractView {
    ContractView {
        admin: None,
        fee_bps: 0,
        bounty_count: 0,
        bounties: Seq::empty(),
        reputation: Seq::empty(),
    }
}

/// `initialize`: the board after it, or the error.
pub open spec fn initialize_outcome(s: ContractView, admin: Seq<u8>, fee_bps: u32) -> Result<
    ContractView,
    ContractError,
> {
    if s.admin is Some {
        Err(ContractError::AlreadyInitialized)
    } else if fee_bps > MAX_FEE_BPS {
        Err(ContractError::InvalidFee)
    } else {
        Ok(ContractView { admin: Some(admin), fee_bps, bounty_count: 0, ..s })
    }
}

/// `post_bounty`: the new record, or the error.
pub open spec fn post_outcome(
    s: ContractView,
    poster: Seq<u8>,
    token: Seq<u8>,
    amount: i128,
    title: Seq<u8>,
    description_hash: Seq<u8>,
    deadline: u64,
    now: u64,
) -> Result<BountyView, ContractError> {
    if s.admin is None {
        Err(ContractError::NotInitialized)
    } else if amount <= 0 {
        Err(ContractError::InvalidAmount)
    } else if deadline <= now {
        Err(ContractError::InvalidDeadline)
    } else if char_count(title) < MIN_TITLE_LEN || char_count(description_hash) < MIN_TITLE_LEN {
        Err(ContractError::InvalidInput)
    } else {
        Ok(
            BountyView {
                id: (s.bounty_count + 1) as u64,
                poster,
                token,
                amount,
                title,
                description_hash,
                deadline,
                status: BountyStatus::Open,
                contributor: None,
                work_hash: None,
                created_at: now,
                updated_at: now,
            },
        )
    }
}

/// The board after a new record has been added.
pub open spec fn with_new_bounty(s: ContractView, b: BountyView) -> ContractView {
    ContractView { bounty_count: b.id, bounties: s.bounties.push(b), ..s }
}

/// `claim_bounty`: the updated record, or the error.
pub open spec fn claim_outcome(s: ContractView, contributor: Seq<u8>, id: BountyId, now: u64) -> Result<
    BountyView,
    ContractError,
> {
    match s.bounty_at(id) {
        None => Err(ContractError::BountyNotFound),
        Some(b) => if b.status != BountyStatus::Open {
            Err(ContractError::InvalidStatus)
        } else if now > b.deadline {
            Err(ContractError::DeadlineExpired)
        } else if b.poster == contributor {
            Err(ContractError::Unauthorized)
        } else {
            Ok(
                BountyView {
                    contributor: Some(contributor),
                    status: BountyStatus::Claimed,
                    updated_at: now,
                    ..b
                },
            )
        },
    }
}

/// `submit_work`: the updated record, or the error.
pub open spec fn submit_outcome(
    s: ContractView,
    contributor: Seq<u8>,
    id: BountyId,
    work_hash: Seq<u8>,
    now: u64,
) -> Result<BountyView, ContractError> {
    match s.bounty_at(id) {
        None => Err(ContractError::BountyNotFound),
        Some(b) => if b.status != BountyStatus::Claimed {
            Err(ContractError::InvalidStatus)
        } else if b.contributor != Some(contributor) {
            Err(ContractError::Unauthorized)
        } else if now > b.deadline {
            Err(ContractError::DeadlineExpired)
        } else if char_count(work_hash) < MIN_TITLE_LEN {
            Err(ContractError::InvalidInput)
        } else {
            Ok(
                BountyView {
                    work_hash: Some(work_hash),
                    status: BountyStatus::Submitted,
                    updated_at: now,
                    ..b
                },
            )
        },
    }
}

/// `cancel_bounty`: the updated record, or the error.
pub open spec fn cancel_outcome(s: ContractView, poster: Seq<u8>, id: BountyId, now: u64) -> Result<
    BountyView,
    ContractError,
> {
    match s.bounty_at(id) {
        None => Err(ContractError::BountyNotFound),
        Some(b) => if b.status != BountyStatus::Open {
            Err(ContractError::InvalidStatus)
        } else if b.poster != poster {
            Err(ContractError::Unauthorized)
        } else {
            Ok(BountyView { status: BountyStatus::Cancelled, updated_at: now, ..b })
        },
    }
}

/// `reject_submission`: the updated record, or the error.
pub open spec fn reject_outcome(s: ContractView, poster: Seq<u8>, id: BountyId, now: u64) -> Result<
    BountyView,
    ContractError,
> {
    match s.bounty_at(id) {
        None => Err(ContractError::BountyNotFound),
        Some(b) => if b.status != BountyStatus::Submitted {
            Err(ContractError::InvalidStatus)
        } else if b.poster != poster {
            Err(ContractError::Unauthorized)
        } else {
            Ok(
                BountyView {
                    contributor: None,
                    work_hash: None,
                    status: BountyStatus::Open,
                    updated_at: now,
                    ..b
                },
            )
        },
    }
}

/// `approve_submission`: the updated record, or the error.
pub open spec fn approve_outcome(s: ContractView, poster: Seq<u8>, id: BountyId, now: u64) -> Result<
    BountyView,
    ContractError,
> {
    match s.bounty_at(id) {
        None => Err(ContractError::BountyNotFound),
        Some(b) => if b.status != BountyStatus::Submitted {
            Err(ContractError::InvalidStatus)
        } else if b.poster != poster {
            Err(ContractError::Unauthorized)
        } else if b.contributor is None {
            Err(ContractError::Unauthorized)
        } else if fee_of(b.amount as int, s.fee_bps as int) > 0 && s.admin is None {
            Err(ContractError::NotInitialized)
        } else {
            Ok(BountyView { status: BountyStatus::Completed, updated_at: now, ..b })
        },
    }
}

/// The transfers of an approval of `b`: the payout to the contributor, then
/// the fee to the admin when it is not zero.
pub open spec fn approve_transfers(s: ContractView, b: BountyView) -> Seq<TransferView> {
    let fee = fee_of(b.amount as int, s.fee_bps as int);
    let payout = b.amount - fee;
    seq![TransferView::Release { token: b.token, to: b.contributor->0, amount: payout as i128 }]
        + if fee > 0 {
        seq![TransferView::Release { token: b.token, to: s.admin->0, amount: fee as i128 }]
    } else {
        Seq::empty()
    }
}

/// An approval would not push the contributor's score past `u32::MAX`.
pub open spec fn approve_within_limits(s: ContractView, poster: Seq<u8>, id: BountyId, now: u64) -> bool {
    approve_outcome(s, poster, id, now) is Ok ==> s.reputation_of(
        s.bounty_at(id)->0.contributor->0,
    ) < u32::MAX
}

/// `dispute_bounty`: the updated record, or the error.
pub open spec fn dispute_outcome(s: ContractView, caller: Seq<u8>, id: BountyId, now: u64) -> Result<
    BountyView,
    ContractError,
> {
    match s.bounty_at(id) {
        None => Err(ContractError::BountyNotFound),
        Some(b) => if b.status != BountyStatus::Submitted {
            Err(ContractError::InvalidStatus)
        } else if b.poster != caller && b.contributor != Some(caller) {
            Err(ContractError::NotAParty)
        } else {
            Ok(BountyView { status: BountyStatus::Disputed, updated_at: now, ..b })
        },
    }
}

/// `resolve_dispute`: the updated record, or the error.
pub open spec fn resolve_outcome(
    s: ContractView,
    resolver: Seq<u8>,
    id: BountyId,
    contributor_pct: u32,
    now: u64,
) -> Result<BountyView, ContractError> {
    if contributor_pct > 100 {
        Err(ContractError::InvalidSplit)
    } else {
        match s.bounty_at(id) {
            None => Err(ContractError::BountyNotFound),
            Some(b) => if b.status != BountyStatus::Disputed {
                Err(ContractError::InvalidStatus)
            } else if s.admin is None {
                Err(ContractError::NotInitialized)
            } else if s.admin != Some(resolver) {
                Err(ContractError::Unauthorized)
            } else if b.contributor is None {
                Err(ContractError::Unauthorized)
            } else {
                Ok(BountyView { status: BountyStatus::Resolved, updated_at: now, ..b })
            },
        }
    }
}

/// The contributor's gross share of `amount` at `pct` percent.
pub open spec fn gross_share(amount: int, pct: int) -> int {
    amount * pct / 100
}

/// The transfers of a resolution of `b` at `pct` percent to the contributor:
/// the contributor's share net of the fee, the fee to the admin, and the rest
/// back to the poster, each only when it is positive.
pub open spec fn resolve_transfers(s: ContractView, b: BountyView, pct: u32) -> Seq<TransferView> {
    let gross = gross_share(b.amount as int, pct as int);
    let refund = b.amount - gross;
    let fee = fee_of(gross, s.fee_bps as int);
    let net = gross - fee;
    (if net > 0 {
        seq![TransferView::Release { token: b.token, to: b.contributor->0, amount: net as i128 }]
    } else {
        Seq::empty()
    }) + (if fee > 0 {
        seq![TransferView::Release { token: b.token, to: s.admin->0, amount: fee as i128 }]
    } else {
        Seq::empty()
    }) + (if refund > 0 {
        seq![TransferView::Release { token: b.token, to: b.poster, amount: refund as i128 }]
    } else {
        Seq::empty()
    })
}

/// The page of `list_bounties(from_id, limit)`: at most `min(limit, 20)`
/// bounties, in ascending id order, starting at `from_id` (id 0 does not
/// exist, so a page from 0 starts at 1).
pub open spec fn list_page(s: ContractView, from_id: BountyId, limit: u32) -> Seq<BountyView> {
    let cap: int = if limit > 20 {
        20
    } else {
        limit as int
    };
    let start: int = if from_id == 0 {
        1
    } else {
        from_id as int
    };
    let total: int = s.bounty_count as int;
    if start > total {
        Seq::empty()
    } else if start - 1 + cap < total {
        s.bounties.subrange(start - 1, start - 1 + cap)
    } else {
        s.bounties.subrange(start - 1, total)
    }
}

/// How an operation that updates one record relates the board before and
/// after it to its result.
pub open spec fn record_step<T>(
    old: ContractView,
    new: ContractView,
    outcome: Result<BountyView, ContractError>,
    r: Result<T, ContractError>,
) -> bool {
    match outcome {
        Ok(b) => r is Ok && new == old.with_bounty(b),
        Err(e) => r == Err::<T, ContractError>(e) && new == old,
    }
}

/// Storing a well-formed record under its id keeps the board well-formed.
pub proof fn lemma_with_bounty_wf(s: ContractView, b: BountyView)
    requires
        s.wf(),
        1 <= b.id <= s.bounties.len(),
        record_wf(b, b.id - 1),
    ensures
        s.with_bounty(b).wf(),
{
    let t = s.with_bounty(b);
    assert forall|i: int| #![trigger t.bounties[i]] 0 <= i < t.bounties.len() implies record_wf(
        t.bounties[i],
        i,
    ) by {
        if i != b.id - 1 {
            assert(t.bounties[i] == s.bounties[i]);
        }
    }
}

/// The first entry of `a`, where there is one, gives its score.
pub proof fn lemma_score_first(r: Seq<(Seq<u8>, u32)>, a: Seq<u8>, i: int)
    requires
        is_first_entry(r, a, i),
    ensures
        score_of(r, a) == r[i].1,
{
    let k = choose|k: int| is_first_entry(r, a, k);
    assert(is_first_entry(r, a, k));
    if k < i {
        assert(r[k].0 != a);
    } else if i < k {
        assert(r[i].0 != a);
    }
}

/// Without an entry for `a`, its score is 0.
pub proof fn lemma_score_absent(r: Seq<(Seq<u8>, u32)>, a: Seq<u8>)
    requires
        forall|j: int| 0 <= j < r.len() ==> r[j].0 != a,
    ensures
        score_of(r, a) == 0,
{
    assert(!exists|i: int| is_first_entry(r, a, i));
}

/// Two entry lists with the same contributors at the same places, whose
/// scores differ only at `k`, give every contributor other than the one at
/// `k` the same score.
proof fn lemma_score_same_keys(r: Seq<(Seq<u8>, u32)>, t: Seq<(Seq<u8>, u32)>, k: int, a: Seq<u8>)
    requires
        r.len() == t.len(),
        forall|j: int| 0 <= j < r.len() ==> #[trigger] t[j].0 == r[j].0,
        forall|j: int| 0 <= j < r.len() && j != k ==> #[trigger] t[j].1 == r[j].1,
        0 <= k < r.len(),
        r[k].0 != a,
    ensures
        score_of(t, a) == score_of(r, a),
{
    if exists|i: int| is_first_entry(r, a, i) {
        let i = choose|i: int| is_first_entry(r, a, i);
        assert(is_first_entry(t, a, i));
        lemma_score_first(r, a, i);
        lemma_score_first(t, a, i);
    } else {
        assert forall|i: int| !is_first_entry(t, a, i) by {
            if is_first_entry(t, a, i) {
                assert forall|j: int| 0 <= j < i implies r[j].0 != a by {
                    assert(t[j].0 == r[j].0);
                }
                assert(t[i].0 == r[i].0);
                assert(is_first_entry(r, a, i));
            }
        }
    }
}

/// Replacing the first entry of `c` by `(c, v)` gives `c` the score `v` and
/// leaves every other score as it was.
pub proof fn lemma_score_update(r: Seq<(Seq<u8>, u32)>, k: int, c: Seq<u8>, v: u32)
    requires
        is_first_entry(r, c, k),
    ensures
        forall|a: Seq<u8>|
            #[trigger] score_of(r.update(k, (c, v)), a) == if a == c {
                v
            } else {
                score_of(r, a)
            },
{
    let t = r.update(k, (c, v));
    assert forall|a: Seq<u8>| #[trigger] score_of(t, a) == if a == c {
        v
    } else {
        score_of(r, a)
    } by {
        if a == c {
            assert(is_first_entry(t, c, k));
            lemma_score_first(t, c, k);
        } else {
            lemma_score_same_keys(r, t, k, a);
        }
    }
}

/// Appending `(c, v)` when `c` has no entry gives `c` the score `v` and
/// leaves every other score as it was.
pub proof fn lemma_score_push(r: Seq<(Seq<u8>, u32)>, c: Seq<u8>, v: u32)
    requires
        forall|j: int| 0 <= j < r.len() ==> r[j].0 != c,
    ensures
        forall|a: Seq<u8>|
            #[trigger] score_of(r.push((c, v)), a) == if a == c {
                v
            } else {
                score_of(r, a)
            },
{
    let t = r.push((c, v));
    assert forall|a: Seq<u8>| #[trigger] score_of(t, a) == if a == c {
        v
    } else {
        score_of(r, a)
    } by {
        if a == c {
            assert(is_first_entry(t, c, r.len() as int));
            lemma_score_first(t, c, r.len() as int);
        } else {
            if exists|i: int| is_first_entry(r, a, i) {
                let i = choose|i: int| is_first_entry(r, a, i);
                assert(is_first_entry(t, a, i));
                lemma_score_first(r, a, i);
                lemma_score_first(t, a, i);
            } else {
                assert forall|i: int| !is_first_entry(t, a, i) by {
                    if is_first_entry(t, a, i) {
                        if i < r.len() {
                            assert forall|j: int| 0 <= j < i implies r[j].0 != a by {
                                assert(t[j] == r[j]);
                            }
                            assert(t[i] == r[i]);
                            assert(is_first_entry(r, a, i));
                        }
                    }
                }
            }
        }
    }
}

/// There is at most one first entry of `a`.
pub proof fn lemma_first_entry_unique(r: Seq<(Seq<u8>, u32)>, a: Seq<u8>, i: int, k: int)
    requires
        is_first_entry(r, a, i),
        is_first_entry(r, a, k),
    ensures
        i == k,
{
    if k < i {
        assert(r[k].0 != a);
    } else if i < k {
        assert(r[i].0 != a);
    }
}

/// Crediting `c` raises its score by one (while below `u32::MAX`) and leaves
/// every other score as it was.
pub proof fn lemma_credit_scores(r: Seq<(Seq<u8>, u32)>, c: Seq<u8>)
    requires
        score_of(r, c) < u32::MAX,
    ensures
        credited(r, credit(r, c), c),
{
    if exists|k: int| is_first_entry(r, c, k) {
        let k = choose|k: int| is_first_entry(r, c, k);
        lemma_score_first(r, c, k);
        lemma_score_update(r, k, c, (r[k].1 + 1) as u32);
    } else {
        assert forall|j: int| 0 <= j < r.len() implies r[j].0 != c by {
            if r[j].0 == c {
                // the earliest entry of `c` at or before `j` would be a first entry
                let m = choose_first(r, c, j);
                assert(is_first_entry(r, c, m));
            }
        }
        lemma_score_absent(r, c);
        lemma_score_push(r, c, 1);
    }
}

/// Some entry of `c` at or before `j` is its first entry.
pub proof fn choose_first(r: Seq<(Seq<u8>, u32)>, c: Seq<u8>, j: int) -> (m: int)
    requires
        0 <= j < r.len(),
        r[j].0 == c,
    ensures
        0 <= m <= j,
        is_first_entry(r, c, m),
    decreases j,
{
    if exists|i: int| 0 <= i < j && r[i].0 == c {
        let i = choose|i: int| 0 <= i < j && r[i].0 == c;
        choose_first(r, c, i)
    } else {
        j
    }
}

} // verus!
