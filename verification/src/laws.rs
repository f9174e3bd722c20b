//! What holds of the board across its operations: escrow conservation,
//! reputation as the count of completed bounties, the status lifecycle, and
//! what a read gives back.
use vstd::prelude::*;

use crate::model::{
    approve_outcome, approve_transfers, approve_within_limits, cancel_outcome, claim_outcome, credit,
    dispute_outcome, empty_board, gross_share, initialize_outcome,
    is_live, lemma_credit_scores, lemma_with_bounty_wf, list_page, post_outcome, record_wf,
    reject_outcome, resolve_outcome, resolve_transfers, submit_outcome, with_new_bounty,
    ContractView,
};
use crate::types::{BountyId, BountyStatus, BountyView, ContractError, TransferView};
use crate::validation::{fee_of, MAX_FEE_BPS};

verus! {

/// An operation on the board, with its arguments (the caller first).
pub enum Action {
    Initialize { admin: Seq<u8>, fee_bps: u32 },
    Post {
        poster: Seq<u8>,
        token: Seq<u8>,
        amount: i128,
        title: Seq<u8>,
        description_hash: Seq<u8>,
        deadline: u64,
    },
    Claim { contributor: Seq<u8>, id: BountyId },
    Submit { contributor: Seq<u8>, id: BountyId, work_hash: Seq<u8> },
    Cancel { poster: Seq<u8>, id: BountyId },
    Reject { poster: Seq<u8>, id: BountyId },
    Approve { poster: Seq<u8>, id: BountyId },
    Dispute { caller: Seq<u8>, id: BountyId },
    Resolve { resolver: Seq<u8>, id: BountyId, contributor_pct: u32 },
}

/// The board and the transfers after `a` at ledger time `now`, or the error;
/// exactly what the entry point of `a` ensures.
pub open spec fn apply(s: ContractView, a: Action, now: u64) -> Result<
    (ContractView, Seq<TransferView>),
    ContractError,
> {
    match a {
        Action::Initialize { admin, fee_bps } => match initialize_outcome(s, admin, fee_bps) {
            Ok(s2) => Ok((s2, Seq::empty())),
            Err(e) => Err(e),
        },
        Action::Post { poster, token, amount, title, description_hash, deadline } => match post_outcome(
            s,
            poster,
            token,
            amount,
            title,
            description_hash,
            deadline,
            now,
        ) {
            Ok(b) => Ok(
                (
                    with_new_bounty(s, b),
                    seq![TransferView::Deposit { token, from: poster, amount }],
                ),
            ),
            Err(e) => Err(e),
        },
        Action::Claim { contributor, id } => match claim_outcome(s, contributor, id, now) {
            Ok(b) => Ok((s.with_bounty(b), Seq::empty())),
            Err(e) => Err(e),
        },
        Action::Submit { contributor, id, work_hash } => match submit_outcome(
            s,
            contributor,
            id,
            work_hash,
            now,
        ) {
            Ok(b) => Ok((s.with_bounty(b), Seq::empty())),
            Err(e) => Err(e),
        },
        Action::Cancel { poster, id } => match cancel_outcome(s, poster, id, now) {
            Ok(b) => Ok(
                (
                    s.with_bounty(b),
                    seq![TransferView::Release { token: b.token, to: poster, amount: b.amount }],
                ),
            ),
            Err(e) => Err(e),
        },
        Action::Reject { poster, id } => match reject_outcome(s, poster, id, now) {
            Ok(b) => Ok((s.with_bounty(b), Seq::empty())),
            Err(e) => Err(e),
        },
        Action::Approve { poster, id } => match approve_outcome(s, poster, id, now) {
            Ok(b) => Ok(
                (
                    s.with_bounty(b).with_reputation(credit(s.reputation, b.contributor->0)),
                    approve_transfers(s, b),
                ),
            ),
            Err(e) => Err(e),
        },
        Action::Dispute { caller, id } => match dispute_outcome(s, caller, id, now) {
            Ok(b) => Ok((s.with_bounty(b), Seq::empty())),
            Err(e) => Err(e),
        },
        Action::Resolve { resolver, id, contributor_pct } => match resolve_outcome(
            s,
            resolver,
            id,
            contributor_pct,
            now,
        ) {
            Ok(b) => Ok((s.with_bounty(b), resolve_transfers(s, s.bounty_at(id)->0, contributor_pct))),
            Err(e) => Err(e),
        },
    }
}

/// What the entry point of `a` requires beyond the invariant: room for one
/// more id when posting, room for one more point of reputation when
/// approving.
pub open spec fn within_limits(s: ContractView, a: Action, now: u64) -> bool {
    match a {
        Action::Post { .. } => s.bounty_count < u64::MAX,
        Action::Approve { poster, id } => approve_within_limits(s, poster, id, now),
        _ => true,
    }
}

/// The id of the bounty that `a` acts on, if it acts on one that exists.
pub open spec fn target(a: Action) -> Option<BountyId> {
    match a {
        Action::Initialize { .. } => None,
        Action::Post { .. } => None,
        Action::Claim { id, .. } => Some(id),
        Action::Submit { id, .. } => Some(id),
        Action::Cancel { id, .. } => Some(id),
        Action::Reject { id, .. } => Some(id),
        Action::Approve { id, .. } => Some(id),
        Action::Dispute { id, .. } => Some(id),
        Action::Resolve { id, .. } => Some(id),
    }
}

/// The sum of `f` over a sequence of bounties.
pub open spec fn sum_bounties(bs: Seq<BountyView>, f: spec_fn(BountyView) -> int) -> int
    decreases bs.len(),
{
    if bs.len() == 0 {
        0
    } else {
        sum_bounties(bs.drop_last(), f) + f(bs.last())
    }
}

/// What a bounty holds in escrow in the token `tok`.
pub open spec fn escrow_share(tok: Seq<u8>) -> spec_fn(BountyView) -> int {
    |b: BountyView|
        if is_live(b.status) && b.token == tok {
            b.amount as int
        } else {
            0
        }
}

/// The escrow the board holds in the token `tok`: the amounts of its live
/// (open, claimed, submitted or disputed) bounties in that token.
pub open spec fn held(s: ContractView, tok: Seq<u8>) -> int {
    sum_bounties(s.bounties, escrow_share(tok))
}

/// 1 for a bounty completed by `c`, else 0.
pub open spec fn completion_mark(c: Seq<u8>) -> spec_fn(BountyView) -> int {
    |b: BountyView|
        if b.status == BountyStatus::Completed && b.contributor == Some(c) {
            1int
        } else {
            0int
        }
}

/// The number of bounties completed by `c`.
pub open spec fn completed_count(s: ContractView, c: Seq<u8>) -> int {
    sum_bounties(s.bounties, completion_mark(c))
}

/// Every contributor's reputation is the number of bounties they completed.
pub open spec fn reputation_counts_completions(s: ContractView) -> bool {
    forall|c: Seq<u8>| #[trigger] s.reputation_of(c) == completed_count(s, c)
}

/// What a single transfer moves into escrow in the token `tok` (negative
/// for a release).
pub open spec fn inflow(x: TransferView, tok: Seq<u8>) -> int {
    match x {
        TransferView::Deposit { token, amount, .. } => if token == tok {
            amount as int
        } else {
            0
        },
        TransferView::Release { token, amount, .. } => if token == tok {
            -(amount as int)
        } else {
            0
        },
    }
}

/// What a sequence of transfers moves into escrow, net, in the token `tok`.
pub open spec fn net_inflow(ts: Seq<TransferView>, tok: Seq<u8>) -> int
    decreases ts.len(),
{
    if ts.len() == 0 {
        0
    } else {
        net_inflow(ts.drop_last(), tok) + inflow(ts.last(), tok)
    }
}

/// A status change that the lifecycle allows.
pub open spec fn allowed_transition(from: BountyStatus, to: BountyStatus) -> bool {
    ||| from == BountyStatus::Open && (to == BountyStatus::Claimed || to
        == BountyStatus::Cancelled)
    ||| from == BountyStatus::Claimed && to == BountyStatus::Submitted
    ||| from == BountyStatus::Submitted && (to == BountyStatus::Open || to
        == BountyStatus::Completed || to == BountyStatus::Disputed)
    ||| from == BountyStatus::Disputed && to == BountyStatus::Resolved
}

/// Completed, resolved and cancelled bounties are finished.
pub open spec fn is_final(st: BountyStatus) -> bool {
    st == BountyStatus::Completed || st == BountyStatus::Resolved || st == BountyStatus::Cancelled
}

proof fn lemma_sum_push(bs: Seq<BountyView>, b: BountyView, f: spec_fn(BountyView) -> int)
    ensures
        sum_bounties(bs.push(b), f) == sum_bounties(bs, f) + f(b),
{
    assert(bs.push(b).drop_last() =~= bs);
}

proof fn lemma_sum_update(bs: Seq<BountyView>, k: int, b: BountyView, f: spec_fn(BountyView) -> int)
    requires
        0 <= k < bs.len(),
    ensures
        sum_bounties(bs.update(k, b), f) == sum_bounties(bs, f) - f(bs[k]) + f(b),
    decreases bs.len(),
{
    let t = bs.update(k, b);
    if k == bs.len() - 1 {
        assert(t.drop_last() =~= bs.drop_last());
    } else {
        assert(t.drop_last() =~= bs.drop_last().update(k, b));
        lemma_sum_update(bs.drop_last(), k, b, f);
    }
}

proof fn lemma_inflow_concat(a: Seq<TransferView>, b: Seq<TransferView>, tok: Seq<u8>)
    ensures
        net_inflow(a + b, tok) == net_inflow(a, tok) + net_inflow(b, tok),
    decreases b.len(),
{
    if b.len() == 0 {
        assert(a + b =~= a);
    } else {
        assert((a + b).drop_last() =~= a + b.drop_last());
        lemma_inflow_concat(a, b.drop_last(), tok);
    }
}

proof fn lemma_inflow_single(x: TransferView, tok: Seq<u8>)
    ensures
        net_inflow(seq![x], tok) == inflow(x, tok),
{
    assert(seq![x].drop_last() =~= Seq::<TransferView>::empty());
    assert(net_inflow(Seq::<TransferView>::empty(), tok) == 0);
}

proof fn lemma_inflow_empty(tok: Seq<u8>)
    ensures
        net_inflow(Seq::<TransferView>::empty(), tok) == 0,
{
}

/// The fee on a non-negative amount at no more than 100% lies between zero
/// and the amount, and at no more than `MAX_FEE_BPS` it is at most a tenth
/// of it.
pub proof fn lemma_fee_bounds(amount: int, fee_bps: int)
    requires
        amount >= 0,
        0 <= fee_bps <= 10000,
    ensures
        0 <= fee_of(amount, fee_bps) <= amount,
        fee_bps <= MAX_FEE_BPS ==> 10 * fee_of(amount, fee_bps) <= amount,
{
    assert(0 <= amount * fee_bps <= amount * 10000) by (nonlinear_arith)
        requires
            amount >= 0,
            0 <= fee_bps <= 10000,
    ;
    vstd::arithmetic::div_mod::lemma_div_pos_is_pos(amount * fee_bps, 10000);
    vstd::arithmetic::div_mod::lemma_div_is_ordered(amount * fee_bps, amount * 10000, 10000);
    vstd::arithmetic::div_mod::lemma_div_multiples_vanish(amount, 10000);
    if fee_bps <= MAX_FEE_BPS {
        assert(amount * fee_bps <= amount * 1000) by (nonlinear_arith)
            requires
                amount >= 0,
                0 <= fee_bps <= 1000,
        ;
        let q = amount * fee_bps / 10000;
        vstd::arithmetic::div_mod::lemma_fundamental_div_mod(amount * fee_bps, 10000);
        assert(10000 * q <= amount * fee_bps) by {
            vstd::arithmetic::div_mod::lemma_mod_pos_bound(amount * fee_bps, 10000);
        }
    }
}

/// The contributor's gross share lies between zero and the amount.
pub proof fn lemma_gross_bounds(amount: int, pct: int)
    requires
        amount >= 0,
        0 <= pct <= 100,
    ensures
        0 <= gross_share(amount, pct) <= amount,
{
    assert(0 <= amount * pct <= amount * 100) by (nonlinear_arith)
        requires
            amount >= 0,
            0 <= pct <= 100,
    ;
    vstd::arithmetic::div_mod::lemma_div_pos_is_pos(amount * pct, 100);
    vstd::arithmetic::div_mod::lemma_div_is_ordered(amount * pct, amount * 100, 100);
    vstd::arithmetic::div_mod::lemma_div_multiples_vanish(amount, 100);
}

/// The empty board holds no escrow, owes no reputation, and is well-formed.
pub proof fn law_empty_board()
    ensures
        empty_board().wf(),
        forall|tok: Seq<u8>| held(empty_board(), tok) == 0,
        reputation_counts_completions(empty_board()),
{
    assert forall|c: Seq<u8>| #[trigger] empty_board().reputation_of(c) == completed_count(
        empty_board(),
        c,
    ) by {
        crate::model::lemma_score_absent(empty_board().reputation, c);
    }
}

/// Every operation keeps the board's invariant.
pub proof fn law_invariant_kept(s: ContractView, a: Action, now: u64)
    requires
        s.wf(),
        within_limits(s, a, now),
    ensures
        apply(s, a, now) matches Ok((s2, _)) ==> s2.wf(),
{
    if let Ok((s2, _)) = apply(s, a, now) {
        match a {
            Action::Initialize { .. } => {
                assert(s.bounties.len() == 0);
            },
            Action::Post { poster, token, amount, title, description_hash, deadline } => {
                let b = post_outcome(s, poster, token, amount, title, description_hash, deadline, now)->Ok_0;
                assert(s2.bounties =~= s.bounties.push(b));
                assert forall|i: int| #![trigger s2.bounties[i]] 0 <= i < s2.bounties.len() implies record_wf(
                    s2.bounties[i],
                    i,
                ) by {
                    if i < s.bounties.len() {
                        assert(s2.bounties[i] == s.bounties[i]);
                    } else {
                        assert(s2.bounties[i] == b);
                    }
                }
            },
            _ => {
                let id = target(a)->0;
                let b = s2.bounties[id - 1];
                assert(s.bounty_at(id) is Some);
                assert(s2.bounties =~= s.bounties.update(id - 1, b));
                assert(record_wf(s.bounties[id - 1], id - 1));
                lemma_with_bounty_wf(s, b);
            },
        }
    }
}

/// Escrow is conserved: after any operation, the escrow the board holds in
/// each token is what it held before plus what the operation's transfers
/// move into escrow, net. Posting deposits the bounty's amount; approval,
/// resolution and cancellation release exactly the bounty's amount (payout,
/// fee and refund together); no other operation moves funds.
pub proof fn law_escrow_conserved(s: ContractView, a: Action, now: u64, tok: Seq<u8>)
    requires
        s.wf(),
        within_limits(s, a, now),
    ensures
        apply(s, a, now) matches Ok((s2, ts)) ==> held(s2, tok) == held(s, tok) + net_inflow(ts, tok),
{
    if let Ok((s2, ts)) = apply(s, a, now) {
        match a {
            Action::Initialize { .. } => {
                lemma_inflow_empty(tok);
            },
            Action::Post { poster, token, amount, .. } => {
                let b = s2.bounties.last();
                assert(s2.bounties =~= s.bounties.push(b));
                lemma_sum_push(s.bounties, b, escrow_share(tok));
                lemma_inflow_single(TransferView::Deposit { token, from: poster, amount }, tok);
            },
            _ => {
                let id = target(a)->0;
                let old_b = s.bounties[id - 1];
                let b = s2.bounties[id - 1];
                assert(s.bounty_at(id) is Some);
                assert(s2.bounties =~= s.bounties.update(id - 1, b));
                assert(record_wf(old_b, id - 1));
                lemma_sum_update(s.bounties, id - 1, b, escrow_share(tok));
                match a {
                    Action::Cancel { poster, .. } => {
                        lemma_inflow_single(
                            TransferView::Release { token: b.token, to: poster, amount: b.amount },
                            tok,
                        );
                    },
                    Action::Approve { .. } => {
                        let fee = fee_of(old_b.amount as int, s.fee_bps as int);
                        lemma_fee_bounds(old_b.amount as int, s.fee_bps as int);
                        let x = TransferView::Release {
                            token: old_b.token,
                            to: old_b.contributor->0,
                            amount: (old_b.amount - fee) as i128,
                        };
                        let y = TransferView::Release {
                            token: old_b.token,
                            to: s.admin->0,
                            amount: fee as i128,
                        };
                        lemma_inflow_single(x, tok);
                        if fee > 0 {
                            lemma_inflow_single(y, tok);
                            lemma_inflow_concat(seq![x], seq![y], tok);
                        } else {
                            lemma_inflow_empty(tok);
                            lemma_inflow_concat(seq![x], Seq::empty(), tok);
                        }
                    },
                    Action::Resolve { contributor_pct, .. } => {
                        let gross = gross_share(old_b.amount as int, contributor_pct as int);
                        lemma_gross_bounds(old_b.amount as int, contributor_pct as int);
                        let fee = fee_of(gross, s.fee_bps as int);
                        lemma_fee_bounds(gross, s.fee_bps as int);
                        let net = gross - fee;
                        let refund = old_b.amount - gross;
                        let x = TransferView::Release {
                            token: old_b.token,
                            to: old_b.contributor->0,
                            amount: net as i128,
                        };
                        let y = TransferView::Release {
                            token: old_b.token,
                            to: s.admin->0,
                            amount: fee as i128,
                        };
                        let z = TransferView::Release {
                            token: old_b.token,
                            to: old_b.poster,
                            amount: refund as i128,
                        };
                        let p1: Seq<TransferView> = if net > 0 {
                            seq![x]
                        } else {
                            Seq::empty()
                        };
                        let p2: Seq<TransferView> = if fee > 0 {
                            seq![y]
                        } else {
                            Seq::empty()
                        };
                        let p3: Seq<TransferView> = if refund > 0 {
                            seq![z]
                        } else {
                            Seq::empty()
                        };
                        lemma_inflow_single(x, tok);
                        lemma_inflow_single(y, tok);
                        lemma_inflow_single(z, tok);
                        lemma_inflow_empty(tok);
                        lemma_inflow_concat(p1, p2, tok);
                        lemma_inflow_concat(p1 + p2, p3, tok);
                        assert(ts == p1 + p2 + p3);
                    },
                    _ => {
                        lemma_inflow_empty(tok);
                    },
                }
            },
        }
    }
}

/// Reputation counts completions: where every contributor's reputation is
/// the number of bounties they completed, it stays so after any operation.
/// Only an approval changes a reputation, by one, for the approved
/// contributor; a resolved dispute does not count.
pub proof fn law_reputation_counts_completions(s: ContractView, a: Action, now: u64)
    requires
        s.wf(),
        reputation_counts_completions(s),
        within_limits(s, a, now),
    ensures
        apply(s, a, now) matches Ok((s2, _)) ==> reputation_counts_completions(s2),
{
    if let Ok((s2, _)) = apply(s, a, now) {
        match a {
            Action::Initialize { .. } => {
                assert forall|c: Seq<u8>| #[trigger] s2.reputation_of(c) == completed_count(s2, c) by {
                    assert(s.reputation_of(c) == completed_count(s, c));
                }
            },
            Action::Post { .. } => {
                let b = s2.bounties.last();
                assert(s2.bounties =~= s.bounties.push(b));
                assert forall|c: Seq<u8>| #[trigger] s2.reputation_of(c) == completed_count(s2, c) by {
                    assert(s.reputation_of(c) == completed_count(s, c));
                    lemma_sum_push(s.bounties, b, completion_mark(c));
                }
            },
            _ => {
                let id = target(a)->0;
                let old_b = s.bounties[id - 1];
                let b = s2.bounties[id - 1];
                assert(s.bounty_at(id) is Some);
                assert(s2.bounties =~= s.bounties.update(id - 1, b));
                assert(record_wf(old_b, id - 1));
                if let Action::Approve { poster, id } = a {
                    let c = old_b.contributor->0;
                    assert(s.reputation_of(c) == completed_count(s, c));
                    lemma_credit_scores(s.reputation, c);
                    assert forall|d: Seq<u8>| #[trigger] s2.reputation_of(d) == completed_count(s2, d) by {
                        assert(s.reputation_of(d) == completed_count(s, d));
                        lemma_sum_update(s.bounties, id - 1, b, completion_mark(d));
                    }
                } else {
                    assert forall|d: Seq<u8>| #[trigger] s2.reputation_of(d) == completed_count(s2, d) by {
                        assert(s.reputation_of(d) == completed_count(s, d));
                        lemma_sum_update(s.bounties, id - 1, b, completion_mark(d));
                    }
                }
            },
        }
    }
}

/// The lifecycle: an operation changes at most the bounty it names, moves it
/// only along an allowed status change (open to claimed or cancelled, claimed
/// to submitted, submitted to open, completed or disputed, disputed to
/// resolved), and never touches a finished bounty; it keeps the bounty's
/// id, poster, token, amount, title, description, deadline and creation
/// time.
pub proof fn law_lifecycle(s: ContractView, a: Action, now: u64)
    requires
        s.wf(),
    ensures
        apply(s, a, now) matches Ok((s2, _)) ==> (target(a) matches Some(id) ==> {
            let old_b = s.bounties[id - 1];
            let b = s2.bounties[id - 1];
            &&& 1 <= id <= s.bounties.len()
            &&& s2.bounties.len() == s.bounties.len()
            &&& forall|j: int| 0 <= j < s.bounties.len() && j != id - 1 ==> s2.bounties[j] == s.bounties[j]
            &&& allowed_transition(old_b.status, b.status)
            &&& !is_final(old_b.status)
            &&& b.id == old_b.id && b.poster == old_b.poster && b.token == old_b.token
            &&& b.amount == old_b.amount && b.title == old_b.title
            &&& b.description_hash == old_b.description_hash && b.deadline == old_b.deadline
            &&& b.created_at == old_b.created_at
            &&& b.updated_at == now
        }),
{
}

/// A read gives back what a post wrote: after a successful post, the new
/// bounty is found under the returned id (one past the previous count) with
/// the posted fields, open, unclaimed, created and updated at `now`, and
/// every earlier bounty reads as before.
pub proof fn law_read_after_post(
    s: ContractView,
    poster: Seq<u8>,
    token: Seq<u8>,
    amount: i128,
    title: Seq<u8>,
    description_hash: Seq<u8>,
    deadline: u64,
    now: u64,
)
    requires
        s.wf(),
        s.bounty_count < u64::MAX,
    ensures
        post_outcome(s, poster, token, amount, title, description_hash, deadline, now) matches Ok(b)
            ==> {
            let s2 = with_new_bounty(s, b);
            &&& b.id == s.bounty_count + 1
            &&& s2.bounty_count == b.id
            &&& s2.bounty_at(b.id) == Some(
                BountyView {
                    id: b.id,
                    poster,
                    token,
                    amount,
                    title,
                    description_hash,
                    deadline,
                    status: BountyStatus::Open,
                    contributor: None,
                    work_hash: None,
                    created_at: now,
                    updated_at: now,
                },
            )
            &&& forall|id: BountyId| id != b.id ==> #[trigger] s2.bounty_at(id) == s.bounty_at(id)
        },
{
    if let Ok(b) = post_outcome(s, poster, token, amount, title, description_hash, deadline, now) {
        let s2 = with_new_bounty(s, b);
        assert(s2.bounties[b.id - 1] == b);
        assert forall|id: BountyId| id != b.id implies #[trigger] s2.bounty_at(id) == s.bounty_at(id) by {
            if 1 <= id <= s.bounties.len() {
                assert(s2.bounties[id - 1] == s.bounties[id - 1]);
            }
        }
    }
}

/// A read gives back what an update wrote: after any successful operation
/// on a bounty, reading that bounty gives the updated record and every
/// other bounty reads as before.
pub proof fn law_read_after_update(s: ContractView, a: Action, now: u64)
    requires
        s.wf(),
    ensures
        apply(s, a, now) matches Ok((s2, _)) ==> (target(a) matches Some(id) ==> {
            &&& s2.bounty_at(id) == Some(s2.bounties[id - 1])
            &&& forall|other: BountyId| other != id ==> #[trigger] s2.bounty_at(other) == s.bounty_at(other)
        }),
{
}

/// A rejection undoes a claim and a submission: claiming an open bounty,
/// submitting work on it and having the poster reject it gives back the
/// open, unclaimed bounty as it was, but for the time of its last change.
pub proof fn law_reject_undoes_claim_and_submit(
    s: ContractView,
    id: BountyId,
    contributor: Seq<u8>,
    work_hash: Seq<u8>,
    poster: Seq<u8>,
    t1: u64,
    t2: u64,
    t3: u64,
)
    requires
        s.wf(),
    ensures
        claim_outcome(s, contributor, id, t1) matches Ok(b1) ==> (submit_outcome(
            s.with_bounty(b1),
            contributor,
            id,
            work_hash,
            t2,
        ) matches Ok(b2) ==> (reject_outcome(s.with_bounty(b1).with_bounty(b2), poster, id, t3) matches Ok(
            b3,
        ) ==> b3 == BountyView { updated_at: t3, ..s.bounty_at(id)->0 } && s.with_bounty(b1).with_bounty(
            b2,
        ).with_bounty(b3) == s.with_bounty(BountyView { updated_at: t3, ..s.bounty_at(id)->0 }))),
{
    if let Ok(b1) = claim_outcome(s, contributor, id, t1) {
        assert(record_wf(s.bounties[id - 1], id - 1));
        let s1 = s.with_bounty(b1);
        assert(s1.bounties[id - 1] == b1);
        if let Ok(b2) = submit_outcome(s1, contributor, id, work_hash, t2) {
            let s2 = s1.with_bounty(b2);
            assert(s2.bounties[id - 1] == b2);
            if let Ok(b3) = reject_outcome(s2, poster, id, t3) {
                assert(s2.with_bounty(b3).bounties =~= s.with_bounty(
                    BountyView { updated_at: t3, ..s.bounty_at(id)->0 },
                ).bounties);
            }
        }
    }
}

/// A finished (completed, resolved or cancelled) bounty is final: every
/// later operation on it is refused with `InvalidStatus` (or, for a
/// resolution with a split above 100, `InvalidSplit`), so nothing is paid
/// twice.
pub proof fn law_finished_is_final(s: ContractView, a: Action, now: u64)
    requires
        s.wf(),
        target(a) matches Some(id) && s.bounty_at(id) matches Some(b) && is_final(b.status),
    ensures
        apply(s, a, now) is Err,
        (a matches Action::Resolve { contributor_pct, .. } && contributor_pct > 100) || apply(s, a, now)
            == Err::<(ContractView, Seq<TransferView>), ContractError>(ContractError::InvalidStatus),
{
}

/// The number of bounties changes only by posting, and then by one.
pub proof fn law_count_grows_only_by_posting(s: ContractView, a: Action, now: u64)
    requires
        s.wf(),
        within_limits(s, a, now),
    ensures
        apply(s, a, now) matches Ok((s2, _)) ==> s2.bounty_count == s.bounty_count + (if a is Post {
            1int
        } else {
            0int
        }) && forall|j: int| 0 <= j < s.bounties.len() && (target(a) matches Some(id) ==> j != id - 1)
            ==> #[trigger] s2.bounties[j] == s.bounties[j],
{
    if let Ok((s2, _)) = apply(s, a, now) {
        match a {
            Action::Initialize { .. } => {
                assert(s.bounties.len() == 0);
            },
            Action::Post { .. } => {},
            _ => {
                let id = target(a)->0;
                assert(s.bounty_at(id) is Some);
            },
        }
    }
}

/// Cancelling a freshly posted bounty gives the poster back what the post
/// took: the post deposits `amount` of `token` from the poster, the
/// cancellation releases the same `amount` of `token` to the poster, the
/// bounty is cancelled, and the escrow held in every token is as before.
pub proof fn law_cancel_returns_deposit(
    s: ContractView,
    poster: Seq<u8>,
    token: Seq<u8>,
    amount: i128,
    title: Seq<u8>,
    description_hash: Seq<u8>,
    deadline: u64,
    now: u64,
    later: u64,
)
    requires
        s.wf(),
        s.bounty_count < u64::MAX,
    ensures
        ({
            let post = Action::Post { poster, token, amount, title, description_hash, deadline };
            apply(s, post, now) matches Ok((s1, t1)) ==> {
                let cancel = Action::Cancel { poster, id: (s.bounty_count + 1) as u64 };
                &&& apply(s1, cancel, later) matches Ok((s2, t2))
                &&& t1 == seq![TransferView::Deposit { token, from: poster, amount }]
                &&& t2 == seq![TransferView::Release { token, to: poster, amount }]
                &&& s2.bounty_at((s.bounty_count + 1) as u64)->0.status == BountyStatus::Cancelled
                &&& forall|tok: Seq<u8>| #[trigger] held(s2, tok) == held(s, tok)
            }
        }),
{
    let post = Action::Post { poster, token, amount, title, description_hash, deadline };
    if let Ok((s1, t1)) = apply(s, post, now) {
        let id = (s.bounty_count + 1) as u64;
        let cancel = Action::Cancel { poster, id };
        law_invariant_kept(s, post, now);
        assert(s1.bounties[id - 1] == post_outcome(s, poster, token, amount, title, description_hash, deadline, now)->Ok_0);
        if let Ok((s2, t2)) = apply(s1, cancel, later) {
            assert forall|tok: Seq<u8>| #[trigger] held(s2, tok) == held(s, tok) by {
                law_escrow_conserved(s, post, now, tok);
                law_escrow_conserved(s1, cancel, later, tok);
                lemma_inflow_single(TransferView::Deposit { token, from: poster, amount }, tok);
                lemma_inflow_single(TransferView::Release { token, to: poster, amount }, tok);
            }
        }
    }
}

/// The board is initialized once: after a successful initialization, every
/// further initialization is refused with `AlreadyInitialized`.
pub proof fn law_initialize_once(s: ContractView, admin: Seq<u8>, fee_bps: u32, admin2: Seq<u8>, fee_bps2: u32)
    ensures
        initialize_outcome(s, admin, fee_bps) matches Ok(s2) ==> initialize_outcome(s2, admin2, fee_bps2)
            == Err::<ContractView, ContractError>(ContractError::AlreadyInitialized),
{
}

/// A page holds exactly `min(limit, 20)` bounties, or as many as there are
/// from its start to the last bounty when that is fewer: the stored bounties
/// with consecutive ids in ascending order starting at `from_id` (or at 1
/// when `from_id` is 0).
pub proof fn law_list_page(s: ContractView, from_id: BountyId, limit: u32)
    requires
        s.wf(),
    ensures
        ({
            let p = list_page(s, from_id, limit);
            let start: int = if from_id == 0 {
                1
            } else {
                from_id as int
            };
            let cap: int = if limit > 20 {
                20
            } else {
                limit as int
            };
            let remaining: int = if start > s.bounty_count {
                0
            } else {
                s.bounty_count - start + 1
            };
            &&& p.len() == if cap < remaining {
                cap
            } else {
                remaining
            }
            &&& forall|i: int|
                0 <= i < p.len() ==> #[trigger] p[i].id == start + i && s.bounty_at(p[i].id) == Some(p[i])
        }),
{
    let p = list_page(s, from_id, limit);
    let start: int = if from_id == 0 {
        1
    } else {
        from_id as int
    };
    assert forall|i: int| 0 <= i < p.len() implies #[trigger] p[i].id == start + i && s.bounty_at(
        p[i].id,
    ) == Some(p[i]) by {
        assert(p[i] == s.bounties[start - 1 + i]);
        assert(record_wf(s.bounties[start - 1 + i], start - 1 + i));
    }
}

} // verus!
