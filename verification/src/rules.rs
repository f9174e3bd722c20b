//! What each operation does, stated directly over its inputs: when it
//! succeeds, what it records, what it pays and to whom, and which of its
//! refusals depend on what.
use vstd::prelude::*;

use crate::laws::{apply, Action};
use crate::model::{
    bounties_view, record_step, transfers_view,
    approve_outcome, cancel_outcome, claim_outcome, credit, dispute_outcome, initialize_outcome,
    lemma_credit_scores, post_outcome, record_wf, reject_outcome, resolve_outcome, submit_outcome,
    ContractView,
};
use crate::types::{Bounty, BountyId, BountyStatus, BountyView, ContractError, Transfer, TransferView};
use crate::validation::{char_count, MAX_FEE_BPS, MIN_TITLE_LEN};

verus! {

/// Initializing a board that has no admin, with a fee of at most 1000 basis
/// points, succeeds: it sets the admin and the fee and moves no funds.
pub proof fn law_initialize_succeeds(s: ContractView, admin: Seq<u8>, fee_bps: u32, now: u64)
    requires
        s.admin is None,
        fee_bps <= MAX_FEE_BPS,
    ensures
        apply(s, Action::Initialize { admin, fee_bps }, now) matches Ok((s2, ts)) && ts.len() == 0
            && s2.admin == Some(admin) && s2.fee_bps == fee_bps && s2.bounties == s.bounties,
{
}

/// Posting is refused for want of initialization exactly when the board has
/// no admin, whatever its fee.
pub proof fn law_post_not_initialized_iff_no_admin(
    s: ContractView,
    poster: Seq<u8>,
    token: Seq<u8>,
    amount: i128,
    title: Seq<u8>,
    description_hash: Seq<u8>,
    deadline: u64,
    now: u64,
)
    ensures
        (post_outcome(s, poster, token, amount, title, description_hash, deadline, now)
            == Err::<BountyView, ContractError>(ContractError::NotInitialized)) <==> s.admin is None,
{
}

/// On an initialized board (any fee), a post with a positive amount, a
/// deadline after `now`, and a title and description of at least 3
/// characters succeeds: it records an open, unclaimed bounty under the next
/// id with the given fields, created and updated at `now`, and pulls exactly
/// `amount` of `token` from the poster.
pub proof fn law_post_succeeds(
    s: ContractView,
    poster: Seq<u8>,
    token: Seq<u8>,
    amount: i128,
    title: Seq<u8>,
    description_hash: Seq<u8>,
    deadline: u64,
    now: u64,
)
    requires
        s.wf(),
        s.admin is Some,
        s.bounty_count < u64::MAX,
        amount > 0,
        now < deadline,
        char_count(title) >= MIN_TITLE_LEN,
        char_count(description_hash) >= MIN_TITLE_LEN,
    ensures
        apply(s, Action::Post { poster, token, amount, title, description_hash, deadline }, now) matches Ok(
            (s2, ts),
        ) && ts == seq![TransferView::Deposit { token, from: poster, amount }] && s2.bounty_count
            == s.bounty_count + 1 && s2.bounty_at((s.bounty_count + 1) as u64) == Some(
            BountyView {
                id: (s.bounty_count + 1) as u64,
                poster,
                token,
                amount,
                title,
                description_hash,
                deadline,
                status: BountyStatus::Open,
                contributor: None,
                work_hash: None,
                created_at: now,
                updated_at: now,
            },
        ),
{
}

/// Initializing and then posting: once `initialize` has succeeded, with any
/// admissible fee (zero included), a valid post succeeds.
pub proof fn law_post_after_initialize(
    s: ContractView,
    admin: Seq<u8>,
    fee_bps: u32,
    poster: Seq<u8>,
    token: Seq<u8>,
    amount: i128,
    title: Seq<u8>,
    description_hash: Seq<u8>,
    deadline: u64,
    now: u64,
)
    requires
        amount > 0,
        now < deadline,
        char_count(title) >= MIN_TITLE_LEN,
        char_count(description_hash) >= MIN_TITLE_LEN,
    ensures
        initialize_outcome(s, admin, fee_bps) matches Ok(s1) ==> post_outcome(
            s1,
            poster,
            token,
            amount,
            title,
            description_hash,
            deadline,
            now,
        ) is Ok,
{
}

/// Claiming an open bounty on or before its deadline is refused only when
/// the claimant is the poster (the same address); any other address
/// succeeds, is locked onto the bounty, and no funds move.
pub proof fn law_claim_succeeds(s: ContractView, contributor: Seq<u8>, id: BountyId, now: u64)
    requires
        s.wf(),
        s.bounty_at(id) matches Some(b) && b.status == BountyStatus::Open && now <= b.deadline,
    ensures
        ({
            let b = s.bounty_at(id)->0;
            &&& contributor == b.poster ==> claim_outcome(s, contributor, id, now) == Err::<
                BountyView,
                ContractError,
            >(ContractError::Unauthorized)
            &&& contributor != b.poster ==> (apply(
                s,
                Action::Claim { contributor, id },
                now,
            ) matches Ok((s2, ts)) && ts.len() == 0 && s2.bounty_at(id) == Some(
                BountyView {
                    contributor: Some(contributor),
                    status: BountyStatus::Claimed,
                    updated_at: now,
                    ..b
                },
            ))
        }),
{
}

/// Submitting work of at least 3 characters on a claimed bounty, by its
/// contributor, on or before the deadline, succeeds and records the work.
pub proof fn law_submit_succeeds(
    s: ContractView,
    contributor: Seq<u8>,
    id: BountyId,
    work_hash: Seq<u8>,
    now: u64,
)
    requires
        s.wf(),
        s.bounty_at(id) matches Some(b) && b.status == BountyStatus::Claimed && b.contributor == Some(
            contributor,
        ) && now <= b.deadline,
        char_count(work_hash) >= MIN_TITLE_LEN,
    ensures
        apply(s, Action::Submit { contributor, id, work_hash }, now) matches Ok((s2, ts)) && ts.len()
            == 0 && s2.bounty_at(id) == Some(
            BountyView {
                work_hash: Some(work_hash),
                status: BountyStatus::Submitted,
                updated_at: now,
                ..s.bounty_at(id)->0
            },
        ),
{
}

/// Cancelling an open bounty by its poster succeeds at any time and whatever
/// the bounty went through before: the bounty is cancelled and its full
/// amount goes back to the poster in its token.
pub proof fn law_cancel_succeeds(s: ContractView, poster: Seq<u8>, id: BountyId, now: u64)
    requires
        s.wf(),
        s.bounty_at(id) matches Some(b) && b.status == BountyStatus::Open && b.poster == poster,
    ensures
        ({
            let b = s.bounty_at(id)->0;
            apply(s, Action::Cancel { poster, id }, now) matches Ok((s2, ts)) && ts == seq![
                TransferView::Release { token: b.token, to: poster, amount: b.amount },
            ] && s2.bounty_at(id) == Some(
                BountyView { status: BountyStatus::Cancelled, updated_at: now, ..b },
            )
        }),
{
}

/// Rejecting submitted work by the poster succeeds at any time: the bounty
/// is open again, with no contributor and no work, and no funds move.
pub proof fn law_reject_succeeds(s: ContractView, poster: Seq<u8>, id: BountyId, now: u64)
    requires
        s.wf(),
        s.bounty_at(id) matches Some(b) && b.status == BountyStatus::Submitted && b.poster == poster,
    ensures
        apply(s, Action::Reject { poster, id }, now) matches Ok((s2, ts)) && ts.len() == 0
            && s2.bounty_at(id) == Some(
            BountyView {
                contributor: None,
                work_hash: None,
                status: BountyStatus::Open,
                updated_at: now,
                ..s.bounty_at(id)->0
            },
        ),
{
}

/// After the poster rejects submitted work, the poster can cancel the bounty
/// and recover the full escrow.
pub proof fn law_cancel_after_reject(s: ContractView, poster: Seq<u8>, id: BountyId, t1: u64, t2: u64)
    requires
        s.wf(),
        s.bounty_at(id) matches Some(b) && b.status == BountyStatus::Submitted && b.poster == poster,
    ensures
        apply(s, Action::Reject { poster, id }, t1) matches Ok((s1, _)) && apply(
            s1,
            Action::Cancel { poster, id },
            t2,
        ) matches Ok((s2, ts)) && ts == seq![
            TransferView::Release {
                token: s.bounty_at(id)->0.token,
                to: poster,
                amount: s.bounty_at(id)->0.amount,
            },
        ] && s2.bounty_at(id)->0.status == BountyStatus::Cancelled,
{
    let b = s.bounty_at(id)->0;
    assert(record_wf(s.bounties[id - 1], id - 1));
    let b1 = reject_outcome(s, poster, id, t1)->Ok_0;
    let s1 = s.with_bounty(b1);
    assert(s1.bounties[id - 1] == b1);
    crate::model::lemma_with_bounty_wf(s, b1);
    law_cancel_succeeds(s1, poster, id, t2);
}

/// Approving submitted work by the poster succeeds at any time, deadline or
/// not: the bounty is completed; the contributor is paid the amount less
/// the platform fee (the amount times the fee in basis points over 10000,
/// rounded down), the admin is paid the fee when it is not zero, and the
/// contributor's reputation, and only theirs, goes up by one.
pub proof fn law_approve_succeeds(s: ContractView, poster: Seq<u8>, id: BountyId, now: u64)
    requires
        s.wf(),
        s.bounty_at(id) matches Some(b) && b.status == BountyStatus::Submitted && b.poster == poster,
        s.reputation_of(s.bounty_at(id)->0.contributor->0) < u32::MAX,
    ensures
        ({
            let b = s.bounty_at(id)->0;
            let c = b.contributor->0;
            let fee = b.amount * s.fee_bps / 10000;
            &&& b.contributor is Some
            &&& apply(s, Action::Approve { poster, id }, now) matches Ok((s2, ts)) && {
                &&& s2.bounty_at(id) == Some(
                    BountyView { status: BountyStatus::Completed, updated_at: now, ..b },
                )
                &&& ts.len() == (if fee > 0 {
                    2int
                } else {
                    1int
                })
                &&& ts[0] == TransferView::Release { token: b.token, to: c, amount: (b.amount - fee) as i128 }
                &&& fee > 0 ==> ts[1] == TransferView::Release {
                    token: b.token,
                    to: s.admin->0,
                    amount: fee as i128,
                }
                &&& s2.reputation_of(c) == s.reputation_of(c) + 1
                &&& forall|d: Seq<u8>| d != c ==> #[trigger] s2.reputation_of(d) == s.reputation_of(d)
            }
        }),
{
    let b = s.bounty_at(id)->0;
    assert(record_wf(s.bounties[id - 1], id - 1));
    let c = b.contributor->0;
    lemma_credit_scores(s.reputation, c);
    crate::laws::lemma_fee_bounds(b.amount as int, s.fee_bps as int);
}

/// A dispute on submitted work raised by its poster or its contributor
/// succeeds at any time; anyone else is refused with `NotAParty`. No funds
/// move.
pub proof fn law_dispute_succeeds(s: ContractView, caller: Seq<u8>, id: BountyId, now: u64)
    requires
        s.wf(),
        s.bounty_at(id) matches Some(b) && b.status == BountyStatus::Submitted,
    ensures
        ({
            let b = s.bounty_at(id)->0;
            &&& (caller == b.poster || b.contributor == Some(caller)) ==> (apply(
                s,
                Action::Dispute { caller, id },
                now,
            ) matches Ok((s2, ts)) && ts.len() == 0 && s2.bounty_at(id) == Some(
                BountyView { status: BountyStatus::Disputed, updated_at: now, ..b },
            ))
            &&& !(caller == b.poster || b.contributor == Some(caller)) ==> dispute_outcome(
                s,
                caller,
                id,
                now,
            ) == Err::<BountyView, ContractError>(ContractError::NotAParty)
        }),
{
}

/// Resolving a disputed bounty by the admin with a split of at most 100
/// percent succeeds at any ledger time, before or after the deadline: the
/// bounty is resolved; of the contributor's gross share (the amount times
/// the percentage over 100, rounded down) the fee (the share times the fee
/// in basis points over 10000, rounded down) goes to the admin and the rest
/// to the contributor, and the remainder of the amount goes back to the
/// poster, each only when positive and in this order.
pub proof fn law_resolve_succeeds(s: ContractView, resolver: Seq<u8>, id: BountyId, pct: u32, now: u64)
    requires
        s.wf(),
        s.bounty_at(id) matches Some(b) && b.status == BountyStatus::Disputed,
        s.admin == Some(resolver),
        pct <= 100,
    ensures
        ({
            let b = s.bounty_at(id)->0;
            let gross = b.amount * pct / 100;
            let fee = gross * s.fee_bps / 10000;
            let net = gross - fee;
            let refund = b.amount - gross;
            apply(s, Action::Resolve { resolver, id, contributor_pct: pct }, now) matches Ok((s2, ts))
                && s2.bounty_at(id) == Some(
                BountyView { status: BountyStatus::Resolved, updated_at: now, ..b },
            ) && ts == (if net > 0 {
                seq![TransferView::Release { token: b.token, to: b.contributor->0, amount: net as i128 }]
            } else {
                Seq::empty()
            }) + (if fee > 0 {
                seq![TransferView::Release { token: b.token, to: resolver, amount: fee as i128 }]
            } else {
                Seq::empty()
            }) + (if refund > 0 {
                seq![TransferView::Release { token: b.token, to: b.poster, amount: refund as i128 }]
            } else {
                Seq::empty()
            })
        }),
{
    assert(record_wf(s.bounties[id - 1], id - 1));
}

/// The ledger time decides nothing about approving, rejecting, cancelling,
/// disputing or resolving: at any two times the same call succeeds or is
/// refused with the same error, and a success records the same bounty but
/// for its update time.
pub proof fn law_time_only_stamps(s: ContractView, caller: Seq<u8>, id: BountyId, pct: u32, t1: u64, t2: u64)
    ensures
        approve_outcome(s, caller, id, t1) is Ok <==> approve_outcome(s, caller, id, t2) is Ok,
        approve_outcome(s, caller, id, t1) matches Err(e) ==> approve_outcome(s, caller, id, t2) == Err::<
            BountyView,
            ContractError,
        >(e),
        approve_outcome(s, caller, id, t1) matches Ok(b) ==> approve_outcome(s, caller, id, t2) == Ok::<
            BountyView,
            ContractError,
        >(BountyView { updated_at: t2, ..b }),
        reject_outcome(s, caller, id, t1) is Ok <==> reject_outcome(s, caller, id, t2) is Ok,
        reject_outcome(s, caller, id, t1) matches Err(e) ==> reject_outcome(s, caller, id, t2) == Err::<
            BountyView,
            ContractError,
        >(e),
        cancel_outcome(s, caller, id, t1) is Ok <==> cancel_outcome(s, caller, id, t2) is Ok,
        cancel_outcome(s, caller, id, t1) matches Err(e) ==> cancel_outcome(s, caller, id, t2) == Err::<
            BountyView,
            ContractError,
        >(e),
        dispute_outcome(s, caller, id, t1) is Ok <==> dispute_outcome(s, caller, id, t2) is Ok,
        dispute_outcome(s, caller, id, t1) matches Err(e) ==> dispute_outcome(s, caller, id, t2) == Err::<
            BountyView,
            ContractError,
        >(e),
        resolve_outcome(s, caller, id, pct, t1) is Ok <==> resolve_outcome(s, caller, id, pct, t2) is Ok,
        resolve_outcome(s, caller, id, pct, t1) matches Err(e) ==> resolve_outcome(s, caller, id, pct, t2)
            == Err::<BountyView, ContractError>(e),
        resolve_outcome(s, caller, id, pct, t1) matches Ok(b) ==> resolve_outcome(s, caller, id, pct, t2)
            == Ok::<BountyView, ContractError>(BountyView { updated_at: t2, ..b }),
{
}

/// The status each operation on a bounty needs: open to claim or cancel,
/// claimed to submit, submitted to approve, reject or dispute, disputed to
/// resolve.
pub open spec fn required_status(a: Action) -> Option<BountyStatus> {
    match a {
        Action::Claim { .. } => Some(BountyStatus::Open),
        Action::Cancel { .. } => Some(BountyStatus::Open),
        Action::Submit { .. } => Some(BountyStatus::Claimed),
        Action::Approve { .. } => Some(BountyStatus::Submitted),
        Action::Reject { .. } => Some(BountyStatus::Submitted),
        Action::Dispute { .. } => Some(BountyStatus::Submitted),
        Action::Resolve { .. } => Some(BountyStatus::Disputed),
        _ => None,
    }
}

/// An operation on a bounty that does not exist is refused with
/// `BountyNotFound`, and one on a bounty in any other status than the one it
/// needs is refused with `InvalidStatus`, whoever calls and whenever (a
/// resolution with a split above 100 is refused with `InvalidSplit` first).
pub proof fn law_status_guards(s: ContractView, a: Action, now: u64)
    requires
        s.wf(),
        required_status(a) is Some,
        !(a matches Action::Resolve { contributor_pct, .. } && contributor_pct > 100),
    ensures
        s.bounty_at(crate::laws::target(a)->0) is None ==> apply(s, a, now) == Err::<
            (ContractView, Seq<TransferView>),
            ContractError,
        >(ContractError::BountyNotFound),
        s.bounty_at(crate::laws::target(a)->0) matches Some(b) && b.status != required_status(a)->0
            ==> apply(s, a, now) == Err::<(ContractView, Seq<TransferView>), ContractError>(
            ContractError::InvalidStatus,
        ),
{
}

/// Only the poster may approve, reject or cancel, and only the admin may
/// resolve: on a bounty in the right status, any other caller is refused with
/// `Unauthorized` at any time.
pub proof fn law_caller_guards(s: ContractView, caller: Seq<u8>, id: BountyId, now: u64)
    requires
        s.wf(),
        s.bounty_at(id) is Some,
        caller != s.bounty_at(id)->0.poster,
    ensures
        s.bounty_at(id)->0.status == BountyStatus::Submitted ==> approve_outcome(s, caller, id, now)
            == Err::<BountyView, ContractError>(ContractError::Unauthorized),
        s.bounty_at(id)->0.status == BountyStatus::Submitted ==> reject_outcome(s, caller, id, now)
            == Err::<BountyView, ContractError>(ContractError::Unauthorized),
        s.bounty_at(id)->0.status == BountyStatus::Open ==> cancel_outcome(s, caller, id, now) == Err::<
            BountyView,
            ContractError,
        >(ContractError::Unauthorized),
{
}

/// Only the admin may resolve a dispute.
pub proof fn law_resolver_is_admin(s: ContractView, resolver: Seq<u8>, id: BountyId, pct: u32, now: u64)
    requires
        s.wf(),
        s.bounty_at(id) matches Some(b) && b.status == BountyStatus::Disputed,
        pct <= 100,
        s.admin != Some(resolver),
    ensures
        resolve_outcome(s, resolver, id, pct, now) == Err::<BountyView, ContractError>(
            ContractError::Unauthorized,
        ),
{
    assert(record_wf(s.bounties[id - 1], id - 1));
}

/// Deadlines bind claims and submissions: after the deadline, claiming an
/// open bounty is refused with `DeadlineExpired` whoever asks, and so is a
/// submission by the bounty's contributor; a submission by anyone else is
/// refused with `Unauthorized` at any time.
pub proof fn law_deadline_guards(s: ContractView, caller: Seq<u8>, id: BountyId, work_hash: Seq<u8>, now: u64)
    requires
        s.wf(),
        s.bounty_at(id) is Some,
    ensures
        ({
            let b = s.bounty_at(id)->0;
            &&& b.status == BountyStatus::Open && now > b.deadline ==> claim_outcome(s, caller, id, now)
                == Err::<BountyView, ContractError>(ContractError::DeadlineExpired)
            &&& b.status == BountyStatus::Claimed && b.contributor == Some(caller) && now > b.deadline
                ==> submit_outcome(s, caller, id, work_hash, now) == Err::<BountyView, ContractError>(
                ContractError::DeadlineExpired,
            )
            &&& b.status == BountyStatus::Claimed && b.contributor != Some(caller) ==> submit_outcome(
                s,
                caller,
                id,
                work_hash,
                now,
            ) == Err::<BountyView, ContractError>(ContractError::Unauthorized)
            &&& b.status == BountyStatus::Claimed && b.contributor == Some(caller) && now <= b.deadline
                && char_count(work_hash) < MIN_TITLE_LEN ==> submit_outcome(
                s,
                caller,
                id,
                work_hash,
                now,
            ) == Err::<BountyView, ContractError>(ContractError::InvalidInput)
        }),
{
}

/// What a post on an initialized board is refused for, checked in this
/// order: a non-positive amount (`InvalidAmount`), a deadline not after
/// `now` (`InvalidDeadline`), a title or description of fewer than 3
/// characters (`InvalidInput`).
pub proof fn law_post_guards(
    s: ContractView,
    poster: Seq<u8>,
    token: Seq<u8>,
    amount: i128,
    title: Seq<u8>,
    description_hash: Seq<u8>,
    deadline: u64,
    now: u64,
)
    requires
        s.admin is Some,
    ensures
        amount <= 0 ==> post_outcome(s, poster, token, amount, title, description_hash, deadline, now)
            == Err::<BountyView, ContractError>(ContractError::InvalidAmount),
        amount > 0 && deadline <= now ==> post_outcome(
            s,
            poster,
            token,
            amount,
            title,
            description_hash,
            deadline,
            now,
        ) == Err::<BountyView, ContractError>(ContractError::InvalidDeadline),
        amount > 0 && deadline > now && (char_count(title) < MIN_TITLE_LEN || char_count(
            description_hash,
        ) < MIN_TITLE_LEN) ==> post_outcome(
            s,
            poster,
            token,
            amount,
            title,
            description_hash,
            deadline,
            now,
        ) == Err::<BountyView, ContractError>(ContractError::InvalidInput),
{
}

/// Initialization is refused on an initialized board (`AlreadyInitialized`)
/// and, otherwise, for a fee above 1000 basis points (`InvalidFee`).
pub proof fn law_initialize_guards(s: ContractView, admin: Seq<u8>, fee_bps: u32)
    ensures
        s.admin is Some ==> initialize_outcome(s, admin, fee_bps) == Err::<ContractView, ContractError>(
            ContractError::AlreadyInitialized,
        ),
        s.admin is None && fee_bps > MAX_FEE_BPS ==> initialize_outcome(s, admin, fee_bps) == Err::<
            ContractView,
            ContractError,
        >(ContractError::InvalidFee),
{
}

/// Counting characters: the count of two texts put together is the sum of
/// their counts, and a single byte counts one character unless it is a
/// UTF-8 continuation byte (`0x80` to `0xBF`), which counts none. So ASCII
/// text counts its bytes and each multi-byte character counts once.
pub proof fn law_char_count(a: Seq<u8>, b: Seq<u8>, x: u8)
    ensures
        char_count(a + b) == char_count(a) + char_count(b),
        char_count(seq![x]) == (if 0x80 <= x && x < 0xC0 {
            0nat
        } else {
            1nat
        }),
        (forall|i: int| 0 <= i < a.len() ==> a[i] < 0x80) ==> char_count(a) == a.len(),
    decreases b.len(),
{
    if b.len() > 0 {
        assert((a + b).drop_last() =~= a + b.drop_last());
        law_char_count(a, b.drop_last(), x);
    } else {
        assert(a + b =~= a);
    }
    assert(seq![x].drop_last() =~= Seq::<u8>::empty());
    assert(char_count(Seq::<u8>::empty()) == 0);
    assert(seq![x].last() == x);
    lemma_ascii_count(a);
}

proof fn lemma_ascii_count(a: Seq<u8>)
    ensures
        (forall|i: int| 0 <= i < a.len() ==> a[i] < 0x80) ==> char_count(a) == a.len(),
    decreases a.len(),
{
    if a.len() > 0 {
        lemma_ascii_count(a.drop_last());
        if forall|i: int| 0 <= i < a.len() ==> a[i] < 0x80 {
            assert(a.last() < 0x80);
            assert forall|i: int| 0 <= i < a.drop_last().len() implies a.drop_last()[i] < 0x80 by {
                assert(a.drop_last()[i] == a[i]);
            }
        }
    }
}

/// How an operation's result binds the board: a refusal returns its error
/// and leaves the board exactly as it was; a success stores the updated
/// record under its id and changes nothing else.
pub proof fn law_refusal_changes_nothing<T>(
    old: ContractView,
    new: ContractView,
    outcome: Result<BountyView, ContractError>,
    r: Result<T, ContractError>,
)
    requires
        record_step(old, new, outcome, r),
    ensures
        outcome matches Err(e) ==> new == old && r == Err::<T, ContractError>(e),
        outcome matches Ok(b) ==> r is Ok && new.bounties == old.bounties.update(b.id - 1, b)
            && new.admin == old.admin && new.fee_bps == old.fee_bps && new.bounty_count
            == old.bounty_count && new.reputation == old.reputation,
{
}

/// The views of returned transfers and bounties are taken element by
/// element, keeping their number and order.
pub proof fn law_views_elementwise(ts: Seq<Transfer>, bs: Seq<Bounty>)
    ensures
        transfers_view(ts).len() == ts.len(),
        forall|i: int| 0 <= i < ts.len() ==> #[trigger] transfers_view(ts)[i] == ts[i]@,
        bounties_view(bs).len() == bs.len(),
        forall|i: int| 0 <= i < bs.len() ==> #[trigger] bounties_view(bs)[i] == bs[i]@,
{
}

} // verus!
