use chainbounty::contract::ChainBountyContract;
use chainbounty::types::{Address, BountyStatus, ContractError, Transfer};

fn addr(name: &str) -> Address {
    Address::new(name.as_bytes().to_vec())
}

fn bytes(s: &str) -> Vec<u8> {
    s.as_bytes().to_vec()
}

/// A board initialized with a 5% platform fee (500 bps), at ledger time 0.
fn setup_test() -> (ChainBountyContract, Address, Address, Address) {
    let mut client = ChainBountyContract::new();
    let admin = addr("GADMIN");
    let poster = addr("GPOSTER");
    let token = addr("CTOKEN");
    client.initialize(admin.clone(), 500).unwrap();
    (client, admin, poster, token)
}

fn post(client: &mut ChainBountyContract, poster: &Address, token: &Address, amount: i128, deadline: u64, now: u64) -> u64 {
    client
        .post_bounty(poster.clone(), token.clone(), amount, bytes("Test"), bytes("QmTest"), deadline, now)
        .unwrap()
        .0
}

fn release(t: &Transfer) -> (Vec<u8>, i128) {
    match t {
        Transfer::Release { to, amount, .. } => (to.as_bytes().clone(), *amount),
        Transfer::Deposit { .. } => panic!("expected a release"),
    }
}

// ---------------------------------------------------------------------------
// Post bounty tests
// ---------------------------------------------------------------------------

#[test]
fn test_post_bounty_success() {
    let (mut client, _admin, poster, token_id) = setup_test();
    let now: u64 = 0;

    let title = bytes("Fix critical bug");
    let desc = bytes("QmXyz123456789");
    let amount = 100_000i128;
    let deadline = now + 86400; // 1 day from now

    let (bounty_id, transfers) = client
        .post_bounty(poster.clone(), token_id.clone(), amount, title.clone(), desc, deadline, now)
        .unwrap();

    assert_eq!(bounty_id, 1);

    // Verify bounty state
    let bounty = client.get_bounty(bounty_id).unwrap();
    assert_eq!(bounty.id, 1);
    assert_eq!(bounty.poster, poster);
    assert_eq!(bounty.amount, amount);
    assert_eq!(bounty.title, title);

    // The escrow is pulled from the poster
    assert_eq!(transfers.len(), 1);
    match &transfers[0] {
        Transfer::Deposit { token, from, amount: a } => {
            assert_eq!(*token, token_id);
            assert_eq!(*from, poster);
            assert_eq!(*a, amount);
        }
        Transfer::Release { .. } => panic!("expected a deposit"),
    }
}

#[test]
fn test_post_bounty_invalid_amount() {
    let (mut client, _admin, poster, token_id) = setup_test();
    let now: u64 = 0;

    let title = bytes("Test");
    let desc = bytes("QmTest");
    let deadline = now + 1000;

    let result = client.post_bounty(poster, token_id, 0, title, desc, deadline, now);

    assert_eq!(result.err(), Some(ContractError::InvalidAmount));
}

#[test]
fn test_post_bounty_invalid_deadline() {
    let (mut client, _admin, poster, token_id) = setup_test();
    // The ledger has advanced one second, so that one second ago is a time.
    let now: u64 = 1;

    let title = bytes("Test");
    let desc = bytes("QmTest");
    let past_deadline = now - 1;

    let result = client.post_bounty(poster, token_id, 1000, title, desc, past_deadline, now);

    assert_eq!(result.err(), Some(ContractError::InvalidDeadline));
}

#[test]
fn test_post_bounty_invalid_title() {
    let (mut client, _admin, poster, token_id) = setup_test();
    let now: u64 = 0;

    let short_title = bytes("ab"); // too short (< 3 chars)
    let desc = bytes("QmTest");
    let deadline = now + 1000;

    let result = client.post_bounty(poster, token_id, 1000, short_title, desc, deadline, now);

    assert_eq!(result.err(), Some(ContractError::InvalidInput));
}

// ---------------------------------------------------------------------------
// Claim bounty tests
// ---------------------------------------------------------------------------

#[test]
fn test_claim_bounty_success() {
    let (mut client, _admin, poster, token_id) = setup_test();
    let now: u64 = 0;

    let title = bytes("Fix bug");
    let desc = bytes("QmAbc");
    let amount = 50_000i128;
    let deadline = now + 86400;

    let (bounty_id, _) = client
        .post_bounty(poster, token_id, amount, title, desc, deadline, now)
        .unwrap();

    let contributor = addr("GCONTRIB");
    client.claim_bounty(contributor.clone(), bounty_id, now).unwrap();

    // Verify claim
    let bounty = client.get_bounty(bounty_id).unwrap();
    assert_eq!(bounty.contributor, Some(contributor));
    assert_eq!(bounty.status, BountyStatus::Claimed);
}

#[test]
fn test_claim_bounty_already_claimed() {
    let (mut client, _admin, poster, token_id) = setup_test();
    let now: u64 = 0;
    let deadline = now + 1000;

    let bounty_id = post(&mut client, &poster, &token_id, 10000, deadline, now);

    let contributor1 = addr("GCONTRIB1");
    client.claim_bounty(contributor1, bounty_id, now).unwrap();

    // Try to claim again with a different contributor
    let contributor2 = addr("GCONTRIB2");
    let result = client.claim_bounty(contributor2, bounty_id, now);

    assert_eq!(result, Err(ContractError::InvalidStatus));
}

#[test]
fn test_claim_bounty_poster_cannot_claim() {
    let (mut client, _admin, poster, token_id) = setup_test();
    let now: u64 = 0;
    let deadline = now + 1000;

    let bounty_id = post(&mut client, &poster, &token_id, 10000, deadline, now);

    // Poster tries to claim their own bounty
    let result = client.claim_bounty(poster.clone(), bounty_id, now);

    assert_eq!(result, Err(ContractError::Unauthorized));
}

#[test]
fn test_claim_bounty_expired() {
    let (mut client, _admin, poster, token_id) = setup_test();
    let now: u64 = 0;
    let deadline = now + 100;

    let bounty_id = post(&mut client, &poster, &token_id, 10000, deadline, now);

    // Advance ledger past deadline
    let later = deadline + 1;

    let contributor = addr("GCONTRIB");
    let result = client.claim_bounty(contributor, bounty_id, later);

    assert_eq!(result, Err(ContractError::DeadlineExpired));
}

// ---------------------------------------------------------------------------
// Full lifecycle
// ---------------------------------------------------------------------------

#[test]
fn approve_releases_escrow_minus_fee_and_credits_reputation() {
    let (mut client, admin, poster, token) = setup_test();
    let id = post(&mut client, &poster, &token, 100_000, 1000, 0);
    let contributor = addr("GCONTRIB");
    client.claim_bounty(contributor.clone(), id, 10).unwrap();
    client.submit_work(contributor.clone(), id, bytes("QmWork"), 20).unwrap();
    assert_eq!(client.get_reputation(&contributor), 0);

    let transfers = client.approve_submission(poster.clone(), id, 30).unwrap();
    assert_eq!(transfers.len(), 2);
    assert_eq!(release(&transfers[0]), (contributor.as_bytes().clone(), 95_000));
    assert_eq!(release(&transfers[1]), (admin.as_bytes().clone(), 5_000));

    let b = client.get_bounty(id).unwrap();
    assert_eq!(b.status, BountyStatus::Completed);
    assert_eq!(b.updated_at, 30);
    assert_eq!(b.created_at, 0);
    assert_eq!(b.work_hash, Some(bytes("QmWork")));
    assert_eq!(client.get_reputation(&contributor), 1);
    assert_eq!(client.get_reputation(&poster), 0);

    // A second completed bounty counts too.
    let id2 = post(&mut client, &poster, &token, 7, 1000, 40);
    client.claim_bounty(contributor.clone(), id2, 41).unwrap();
    client.submit_work(contributor.clone(), id2, bytes("QmWork2"), 42).unwrap();
    let transfers = client.approve_submission(poster.clone(), id2, 43).unwrap();
    // 7 * 500 / 10000 rounds down to 0: no fee transfer.
    assert_eq!(transfers.len(), 1);
    assert_eq!(release(&transfers[0]), (contributor.as_bytes().clone(), 7));
    assert_eq!(client.get_reputation(&contributor), 2);

    // A finished bounty cannot be approved again.
    assert_eq!(client.approve_submission(poster, id, 50).err(), Some(ContractError::InvalidStatus));
}

#[test]
fn approve_and_reject_only_by_poster() {
    let (mut client, _admin, poster, token) = setup_test();
    let id = post(&mut client, &poster, &token, 1000, 1000, 0);
    let contributor = addr("GCONTRIB");
    assert_eq!(
        client.approve_submission(poster.clone(), id, 1).err(),
        Some(ContractError::InvalidStatus)
    );
    client.claim_bounty(contributor.clone(), id, 1).unwrap();
    client.submit_work(contributor.clone(), id, bytes("QmWork"), 2).unwrap();
    assert_eq!(
        client.approve_submission(contributor.clone(), id, 3).err(),
        Some(ContractError::Unauthorized)
    );
    assert_eq!(client.reject_submission(contributor.clone(), id, 3), Err(ContractError::Unauthorized));
    // Nothing changed.
    assert_eq!(client.get_bounty(id).unwrap().status, BountyStatus::Submitted);
}

#[test]
fn reject_resets_bounty_to_open() {
    let (mut client, _admin, poster, token) = setup_test();
    let id = post(&mut client, &poster, &token, 1000, 1000, 0);
    let contributor = addr("GCONTRIB");
    client.claim_bounty(contributor.clone(), id, 1).unwrap();
    client.submit_work(contributor.clone(), id, bytes("QmWork"), 2).unwrap();
    client.reject_submission(poster.clone(), id, 3).unwrap();

    let b = client.get_bounty(id).unwrap();
    assert_eq!(b.status, BountyStatus::Open);
    assert_eq!(b.contributor, None);
    assert_eq!(b.work_hash, None);
    assert_eq!(b.updated_at, 3);

    // Another contributor may now claim it.
    let other = addr("GOTHER");
    client.claim_bounty(other.clone(), id, 4).unwrap();
    assert_eq!(client.get_bounty(id).unwrap().contributor, Some(other));
}

#[test]
fn submit_rules() {
    let (mut client, _admin, poster, token) = setup_test();
    let id = post(&mut client, &poster, &token, 1000, 100, 0);
    let contributor = addr("GCONTRIB");
    // Not claimed yet.
    assert_eq!(
        client.submit_work(contributor.clone(), id, bytes("QmWork"), 1),
        Err(ContractError::InvalidStatus)
    );
    client.claim_bounty(contributor.clone(), id, 1).unwrap();
    // Only the locked contributor may submit.
    assert_eq!(
        client.submit_work(addr("GSTRANGER"), id, bytes("QmWork"), 2),
        Err(ContractError::Unauthorized)
    );
    // The work hash must be at least 3 characters.
    assert_eq!(client.submit_work(contributor.clone(), id, bytes("Qm"), 2), Err(ContractError::InvalidInput));
    // Not after the deadline; exactly at the deadline is fine.
    assert_eq!(
        client.submit_work(contributor.clone(), id, bytes("QmWork"), 101),
        Err(ContractError::DeadlineExpired)
    );
    client.submit_work(contributor.clone(), id, bytes("QmWork"), 100).unwrap();
    assert_eq!(client.get_bounty(id).unwrap().status, BountyStatus::Submitted);
}

#[test]
fn cancel_refunds_full_escrow() {
    let (mut client, _admin, poster, token) = setup_test();
    let id = post(&mut client, &poster, &token, 12_345, 1000, 0);
    assert_eq!(client.cancel_bounty(addr("GSTRANGER"), id, 1).err(), Some(ContractError::Unauthorized));
    let transfers = client.cancel_bounty(poster.clone(), id, 1).unwrap();
    assert_eq!(transfers.len(), 1);
    assert_eq!(release(&transfers[0]), (poster.as_bytes().clone(), 12_345));
    assert_eq!(client.get_bounty(id).unwrap().status, BountyStatus::Cancelled);
    // Cancelled is final.
    assert_eq!(client.cancel_bounty(poster.clone(), id, 2).err(), Some(ContractError::InvalidStatus));
    assert_eq!(client.claim_bounty(addr("GCONTRIB"), id, 2), Err(ContractError::InvalidStatus));
}

#[test]
fn cancel_only_while_open() {
    let (mut client, _admin, poster, token) = setup_test();
    let id = post(&mut client, &poster, &token, 1000, 1000, 0);
    client.claim_bounty(addr("GCONTRIB"), id, 1).unwrap();
    assert_eq!(client.cancel_bounty(poster, id, 2).err(), Some(ContractError::InvalidStatus));
}

#[test]
fn dispute_and_resolve_split() {
    let (mut client, admin, poster, token) = setup_test();
    let id = post(&mut client, &poster, &token, 10_000, 1000, 0);
    let contributor = addr("GCONTRIB");
    client.claim_bounty(contributor.clone(), id, 1).unwrap();
    client.submit_work(contributor.clone(), id, bytes("QmWork"), 2).unwrap();

    assert_eq!(client.dispute_bounty(addr("GSTRANGER"), id, 3), Err(ContractError::NotAParty));
    client.dispute_bounty(contributor.clone(), id, 3).unwrap();
    assert_eq!(client.get_bounty(id).unwrap().status, BountyStatus::Disputed);

    assert_eq!(client.resolve_dispute(admin.clone(), id, 101, 4).err(), Some(ContractError::InvalidSplit));
    assert_eq!(client.resolve_dispute(poster.clone(), id, 60, 4).err(), Some(ContractError::Unauthorized));

    let transfers = client.resolve_dispute(admin.clone(), id, 60, 4).unwrap();
    // gross 6000, fee 300 (5% of the contributor's share), refund 4000
    assert_eq!(transfers.len(), 3);
    assert_eq!(release(&transfers[0]), (contributor.as_bytes().clone(), 5_700));
    assert_eq!(release(&transfers[1]), (admin.as_bytes().clone(), 300));
    assert_eq!(release(&transfers[2]), (poster.as_bytes().clone(), 4_000));
    assert_eq!(client.get_bounty(id).unwrap().status, BountyStatus::Resolved);
    // A resolved dispute does not count towards reputation.
    assert_eq!(client.get_reputation(&contributor), 0);
    assert_eq!(client.resolve_dispute(admin, id, 60, 5).err(), Some(ContractError::InvalidStatus));
}

#[test]
fn resolve_all_to_poster_or_all_to_contributor() {
    let (mut client, admin, poster, token) = setup_test();
    let contributor = addr("GCONTRIB");
    let id = post(&mut client, &poster, &token, 10_000, 1000, 0);
    client.claim_bounty(contributor.clone(), id, 1).unwrap();
    client.submit_work(contributor.clone(), id, bytes("QmWork"), 2).unwrap();
    client.dispute_bounty(poster.clone(), id, 3).unwrap();
    let transfers = client.resolve_dispute(admin.clone(), id, 0, 4).unwrap();
    assert_eq!(transfers.len(), 1);
    assert_eq!(release(&transfers[0]), (poster.as_bytes().clone(), 10_000));

    let id2 = post(&mut client, &poster, &token, 10_000, 1000, 5);
    client.claim_bounty(contributor.clone(), id2, 6).unwrap();
    client.submit_work(contributor.clone(), id2, bytes("QmWork"), 7).unwrap();
    client.dispute_bounty(poster.clone(), id2, 8).unwrap();
    let transfers = client.resolve_dispute(admin.clone(), id2, 100, 9).unwrap();
    assert_eq!(transfers.len(), 2);
    assert_eq!(release(&transfers[0]), (contributor.as_bytes().clone(), 9_500));
    assert_eq!(release(&transfers[1]), (admin.as_bytes().clone(), 500));
}

#[test]
fn dispute_only_on_submitted() {
    let (mut client, _admin, poster, token) = setup_test();
    let id = post(&mut client, &poster, &token, 1000, 1000, 0);
    assert_eq!(client.dispute_bounty(poster.clone(), id, 1), Err(ContractError::InvalidStatus));
    assert_eq!(client.dispute_bounty(poster.clone(), 99, 1), Err(ContractError::BountyNotFound));
}

#[test]
fn unknown_bounty_is_not_found() {
    let (mut client, admin, poster, _token) = setup_test();
    assert_eq!(client.get_bounty(0).err(), Some(ContractError::BountyNotFound));
    assert_eq!(client.get_bounty(1).err(), Some(ContractError::BountyNotFound));
    assert_eq!(client.claim_bounty(addr("GC"), 1, 0), Err(ContractError::BountyNotFound));
    assert_eq!(client.submit_work(addr("GC"), 1, bytes("QmWork"), 0), Err(ContractError::BountyNotFound));
    assert_eq!(client.cancel_bounty(poster.clone(), 1, 0).err(), Some(ContractError::BountyNotFound));
    assert_eq!(client.reject_submission(poster.clone(), 1, 0), Err(ContractError::BountyNotFound));
    assert_eq!(client.approve_submission(poster, 1, 0).err(), Some(ContractError::BountyNotFound));
    assert_eq!(client.resolve_dispute(admin, 1, 50, 0).err(), Some(ContractError::BountyNotFound));
}

#[test]
fn initialize_once_and_fee_capped() {
    let mut client = ChainBountyContract::new();
    assert_eq!(client.bounty_count(), 0);
    assert_eq!(client.initialize(addr("GADMIN"), 1001), Err(ContractError::InvalidFee));
    client.initialize(addr("GADMIN"), 1000).unwrap();
    assert_eq!(client.initialize(addr("GOTHER"), 10), Err(ContractError::AlreadyInitialized));
    assert_eq!(client.fee_bps, 1000);
    assert_eq!(client.bounty_count(), 0);
}

#[test]
fn post_requires_initialization() {
    let mut client = ChainBountyContract::new();
    let result = client.post_bounty(addr("GPOSTER"), addr("CTOKEN"), 1000, bytes("Test"), bytes("QmTest"), 10, 0);
    assert_eq!(result.err(), Some(ContractError::NotInitialized));
    assert_eq!(client.bounty_count(), 0);
}

#[test]
fn post_rejects_short_description_and_keeps_state() {
    let (mut client, _admin, poster, token) = setup_test();
    let result = client.post_bounty(poster, token, 1000, bytes("Test"), bytes("Qm"), 10, 0);
    assert_eq!(result.err(), Some(ContractError::InvalidInput));
    assert_eq!(client.bounty_count(), 0);
    assert!(client.bounties.is_empty());
}

#[test]
fn ids_are_sequential() {
    let (mut client, _admin, poster, token) = setup_test();
    for expected in 1..=5u64 {
        assert_eq!(post(&mut client, &poster, &token, 10, 100, 0), expected);
    }
    assert_eq!(client.bounty_count(), 5);
    assert!(client.is_well_formed());
}

#[test]
fn list_bounties_pages() {
    let (mut client, _admin, poster, token) = setup_test();
    for _ in 0..25 {
        post(&mut client, &poster, &token, 10, 100, 0);
    }
    let page = client.list_bounties(1, 100);
    assert_eq!(page.len(), 20);
    for (i, b) in page.iter().enumerate() {
        assert_eq!(b.id, i as u64 + 1);
    }
    let page = client.list_bounties(0, 3);
    assert_eq!(page.iter().map(|b| b.id).collect::<Vec<_>>(), vec![1, 2, 3]);
    let page = client.list_bounties(23, 10);
    assert_eq!(page.iter().map(|b| b.id).collect::<Vec<_>>(), vec![23, 24, 25]);
    assert!(client.list_bounties(26, 10).is_empty());
    assert!(client.list_bounties(5, 0).is_empty());
}

#[test]
fn escrow_is_conserved_over_a_lifecycle() {
    // Sum of deposits minus releases equals the escrow of live bounties.
    let (mut client, _admin, poster, token) = setup_test();
    let mut net: i128 = 0;
    let mut apply = |ts: &Vec<Transfer>| {
        for t in ts {
            match t {
                Transfer::Deposit { amount, .. } => net += *amount,
                Transfer::Release { amount, .. } => net -= *amount,
            }
        }
    };
    let (a, t) = client.post_bounty(poster.clone(), token.clone(), 999, bytes("One"), bytes("Qm1"), 100, 0).unwrap();
    apply(&t);
    let (b, t) = client.post_bounty(poster.clone(), token.clone(), 12_347, bytes("Two"), bytes("Qm2"), 100, 0).unwrap();
    apply(&t);
    let (c, t) = client.post_bounty(poster.clone(), token.clone(), 555, bytes("Three"), bytes("Qm3"), 100, 0).unwrap();
    apply(&t);
    let contributor = addr("GCONTRIB");
    client.claim_bounty(contributor.clone(), a, 1).unwrap();
    client.submit_work(contributor.clone(), a, bytes("QmW"), 1).unwrap();
    apply(&client.approve_submission(poster.clone(), a, 2).unwrap());
    client.claim_bounty(contributor.clone(), b, 1).unwrap();
    client.submit_work(contributor.clone(), b, bytes("QmW"), 1).unwrap();
    client.dispute_bounty(poster.clone(), b, 2).unwrap();
    apply(&client.resolve_dispute(addr("GADMIN"), b, 33, 3).unwrap());
    drop(apply);
    // Only bounty `c` is still live.
    assert_eq!(net, 555);
    let mut apply2 = |ts: &Vec<Transfer>| {
        for t in ts {
            if let Transfer::Release { amount, .. } = t {
                net -= *amount;
            }
        }
    };
    apply2(&client.cancel_bounty(poster.clone(), c, 4).unwrap());
    drop(apply2);
    assert_eq!(net, 0);
    assert!(client.is_well_formed());
}

#[test]
fn expired_bounty_can_still_be_cancelled() {
    let (mut client, _admin, poster, token) = setup_test();
    let id = post(&mut client, &poster, &token, 500, 10, 0);
    assert_eq!(client.claim_bounty(addr("GCONTRIB"), id, 11), Err(ContractError::DeadlineExpired));
    let transfers = client.cancel_bounty(poster.clone(), id, 1_000_000).unwrap();
    assert_eq!(release(&transfers[0]), (poster.as_bytes().clone(), 500));
}

#[test]
fn reject_undoes_claim_and_submit() {
    let (mut client, _admin, poster, token) = setup_test();
    let id = post(&mut client, &poster, &token, 500, 100, 0);
    let before = client.get_bounty(id).unwrap();
    let contributor = addr("GCONTRIB");
    client.claim_bounty(contributor.clone(), id, 1).unwrap();
    client.submit_work(contributor, id, bytes("QmWork"), 2).unwrap();
    client.reject_submission(poster, id, 3).unwrap();
    let after = client.get_bounty(id).unwrap();
    assert_eq!(after.updated_at, 3);
    let mut expected = before;
    expected.updated_at = 3;
    assert_eq!(format!("{:?}", after), format!("{:?}", expected));
}

#[test]
fn corrupted_state_is_detected() {
    let (mut client, _admin, poster, token) = setup_test();
    let id = post(&mut client, &poster, &token, 500, 100, 0);
    assert!(client.is_well_formed());
    client.bounties[0].status = BountyStatus::Claimed; // claimed without a contributor
    assert!(!client.is_well_formed());
    client.bounties[0].status = BountyStatus::Open;
    client.bounties[0].id = id + 1;
    assert!(!client.is_well_formed());
    client.bounties[0].id = id;
    client.bounty_count = 2;
    assert!(!client.is_well_formed());
}

#[test]
fn post_rejects_two_character_title_of_four_bytes() {
    let (mut client, _admin, poster, token) = setup_test();
    let result = client.post_bounty(poster.clone(), token.clone(), 1000, bytes("éé"), bytes("QmTest"), 10, 0);
    assert_eq!(result.err(), Some(ContractError::InvalidInput));
    let (id, _) = client.post_bounty(poster, token, 1000, bytes("ééé"), bytes("QmTest"), 10, 0).unwrap();
    assert_eq!(id, 1);
}

#[test]
fn finished_bounty_blocks_every_later_operation() {
    let (mut client, admin, poster, token) = setup_test();
    let id = post(&mut client, &poster, &token, 1000, 100, 0);
    let contributor = addr("GCONTRIB");
    client.claim_bounty(contributor.clone(), id, 1).unwrap();
    client.submit_work(contributor.clone(), id, bytes("QmWork"), 2).unwrap();
    client.approve_submission(poster.clone(), id, 3).unwrap();
    let s = Some(ContractError::InvalidStatus);
    assert_eq!(client.approve_submission(poster.clone(), id, 4).err(), s);
    assert_eq!(client.reject_submission(poster.clone(), id, 4).err(), s);
    assert_eq!(client.dispute_bounty(poster.clone(), id, 4).err(), s);
    assert_eq!(client.cancel_bounty(poster.clone(), id, 4).err(), s);
    assert_eq!(client.claim_bounty(addr("GOTHER"), id, 4).err(), s);
    assert_eq!(client.submit_work(contributor.clone(), id, bytes("QmWork"), 4).err(), s);
    assert_eq!(client.resolve_dispute(admin, id, 50, 4).err(), s);
    assert_eq!(client.get_reputation(&contributor), 1);
}
