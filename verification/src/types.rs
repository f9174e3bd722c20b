use vstd::prelude::*;

verus! {

/// Unique bounty identifier (auto-incrementing, starting at 1).
pub type BountyId = u64;

/// All possible states a bounty can be in.
#[derive(Clone, Copy, Debug, PartialEq, Eq, Structural)]
pub enum BountyStatus {
    /// Bounty is open and accepting claims.
    Open,
    /// A contributor has claimed the bounty and is working.
    Claimed,
    /// Contributor has submitted work, awaiting poster review.
    Submitted,
    /// Poster approved the submission: escrow released, bounty complete.
    Completed,
    /// Poster or contributor has raised a dispute.
    Disputed,
    /// Admin resolved the dispute.
    Resolved,
    /// Poster cancelled the bounty before a claim: refunded.
    Cancelled,
}

/// All errors the contract can return.
#[derive(Clone, Copy, Debug, PartialEq, Eq, Structural)]
pub enum ContractError {
    /// Contract has already been initialized.
    AlreadyInitialized,
    /// Contract has not been initialized.
    NotInitialized,
    /// Caller is not authorized to perform this action.
    Unauthorized,
    /// The referenced bounty does not exist.
    BountyNotFound,
    /// The bounty is not in the required status for this operation.
    InvalidStatus,
    /// The provided amount is zero or negative.
    InvalidAmount,
    /// The provided deadline is in the past.
    InvalidDeadline,
    /// The fee basis points exceed the maximum (1000 = 10%).
    InvalidFee,
    /// The title or hash string is too short.
    InvalidInput,
    /// The bounty deadline has passed.
    DeadlineExpired,
    /// Dispute split percentage is out of range (must be 0 to 100).
    InvalidSplit,
    /// Caller is not a party to this bounty.
    NotAParty,
}

/// An on-chain account or contract address, held as the bytes of its
/// textual (strkey) form. Two addresses are the same exactly when their
/// bytes are.
#[derive(Debug)]
pub struct Address {
    pub bytes: Vec<u8>,
}

impl View for Address {
    type V = Seq<u8>;

    open spec fn view(&self) -> Seq<u8> {
        self.bytes@
    }
}

/// Copies a byte string, keeping its contents.
pub fn copy_bytes(b: &Vec<u8>) -> (r: Vec<u8>)
    ensures
        r@ == b@,
{
    let mut r: Vec<u8> = Vec::new();
    let mut i: usize = 0;
    while i < b.len()
        invariant
            i <= b.len(),
            r@ == b@.subrange(0, i as int),
        decreases b.len() - i,
    {
        r.push(b[i]);
        i = i + 1;
    }
    r
}

/// Byte-wise equality of two byte strings.
pub fn bytes_equal(a: &Vec<u8>, b: &Vec<u8>) -> (r: bool)
    ensures
        r == (a@ == b@),
{
    if a.len() != b.len() {
        return false;
    }
    let mut i: usize = 0;
    while i < a.len()
        invariant
            i <= a.len(),
            a.len() == b.len(),
            a@.subrange(0, i as int) == b@.subrange(0, i as int),
        decreases a.len() - i,
    {
        if a[i] != b[i] {
            assert(a@[i as int] != b@[i as int]);
            return false;
        }
        assert(a@.subrange(0, i + 1) == a@.subrange(0, i as int).push(a@[i as int]));
        assert(b@.subrange(0, i + 1) == b@.subrange(0, i as int).push(b@[i as int]));
        i = i + 1;
    }
    assert(a@ == a@.subrange(0, a.len() as int));
    assert(b@ == b@.subrange(0, b.len() as int));
    true
}

impl Address {
    /// Builds an address from the bytes of its textual form.
    pub fn new(bytes: Vec<u8>) -> (a: Address)
        ensures
            a@ == bytes@,
    {
        Address { bytes }
    }

    /// The bytes of the address's textual form.
    pub fn as_bytes(&self) -> (r: &Vec<u8>)
        ensures
            r@ == self@,
    {
        &self.bytes
    }
}

impl Clone for Address {
    fn clone(&self) -> (r: Self)
        ensures
            r@ == self@,
    {
        Address { bytes: copy_bytes(&self.bytes) }
    }
}

impl PartialEq for Address {
    fn eq(&self, other: &Self) -> (r: bool) {
        bytes_equal(&self.bytes, &other.bytes)
    }
}

impl vstd::std_specs::cmp::PartialEqSpecImpl for Address {
    open spec fn obeys_eq_spec() -> bool {
        true
    }

    open spec fn eq_spec(&self, other: &Address) -> bool {
        self@ == other@
    }
}

impl Eq for Address {
}

/// Core bounty record.
#[derive(Debug)]
pub struct Bounty {
    /// Auto-assigned unique ID.
    pub id: BountyId,
    /// Address of the user who posted the bounty.
    pub poster: Address,
    /// Token contract address used for escrow.
    pub token: Address,
    /// Escrowed reward amount in the token's smallest unit.
    pub amount: i128,
    /// Short title for the bounty (UTF-8 text).
    pub title: Vec<u8>,
    /// Content hash of the full description (UTF-8 text).
    pub description_hash: Vec<u8>,
    /// Unix timestamp deadline for submission.
    pub deadline: u64,
    /// Current lifecycle status.
    pub status: BountyStatus,
    /// Address of the contributor who claimed the bounty (if any).
    pub contributor: Option<Address>,
    /// Hash of the submitted work (if submitted).
    pub work_hash: Option<Vec<u8>>,
    /// Ledger timestamp when the bounty was posted.
    pub created_at: u64,
    /// Ledger timestamp of the last status change.
    pub updated_at: u64,
}

/// The mathematical value of a [`Bounty`]: byte strings become sequences.
pub struct BountyView {
    pub id: BountyId,
    pub poster: Seq<u8>,
    pub token: Seq<u8>,
    pub amount: i128,
    pub title: Seq<u8>,
    pub description_hash: Seq<u8>,
    pub deadline: u64,
    pub status: BountyStatus,
    pub contributor: Option<Seq<u8>>,
    pub work_hash: Option<Seq<u8>>,
    pub created_at: u64,
    pub updated_at: u64,
}

pub open spec fn opt_address_view(a: Option<Address>) -> Option<Seq<u8>> {
    match a {
        Some(x) => Some(x@),
        None => None,
    }
}

pub open spec fn opt_bytes_view(b: Option<Vec<u8>>) -> Option<Seq<u8>> {
    match b {
        Some(x) => Some(x@),
        None => None,
    }
}

impl View for Bounty {
    type V = BountyView;

    open spec fn view(&self) -> BountyView {
        BountyView {
            id: self.id,
            poster: self.poster@,
            token: self.token@,
            amount: self.amount,
            title: self.title@,
            description_hash: self.description_hash@,
            deadline: self.deadline,
            status: self.status,
            contributor: opt_address_view(self.contributor),
            work_hash: opt_bytes_view(self.work_hash),
            created_at: self.created_at,
            updated_at: self.updated_at,
        }
    }
}

/// Copies an optional address, keeping its value.
pub fn copy_opt_address(a: &Option<Address>) -> (r: Option<Address>)
    ensures
        opt_address_view(r) == opt_address_view(*a),
{
    match a {
        Some(x) => Some(x.clone()),
        None => None,
    }
}

/// Copies an optional byte string, keeping its value.
pub fn copy_opt_bytes(b: &Option<Vec<u8>>) -> (r: Option<Vec<u8>>)
    ensures
        opt_bytes_view(r) == opt_bytes_view(*b),
{
    match b {
        Some(x) => Some(copy_bytes(x)),
        None => None,
    }
}

impl Clone for Bounty {
    fn clone(&self) -> (r: Self)
        ensures
            r@ == self@,
    {
        Bounty {
            id: self.id,
            poster: self.poster.clone(),
            token: self.token.clone(),
            amount: self.amount,
            title: copy_bytes(&self.title),
            description_hash: copy_bytes(&self.description_hash),
            deadline: self.deadline,
            status: self.status,
            contributor: copy_opt_address(&self.contributor),
            work_hash: copy_opt_bytes(&self.work_hash),
            created_at: self.created_at,
            updated_at: self.updated_at,
        }
    }
}

/// A token movement that an operation asks for. `Deposit` moves funds from an
/// account into the contract's escrow; `Release` moves funds out of escrow to
/// an account.
#[derive(Debug)]
pub enum Transfer {
    Deposit { token: Address, from: Address, amount: i128 },
    Release { token: Address, to: Address, amount: i128 },
}

/// The mathematical value of a [`Transfer`].
pub enum TransferView {
    Deposit { token: Seq<u8>, from: Seq<u8>, amount: i128 },
    Release { token: Seq<u8>, to: Seq<u8>, amount: i128 },
}

impl View for Transfer {
    type V = TransferView;

    open spec fn view(&self) -> TransferView {
        match self {
            Transfer::Deposit { token, from, amount } => TransferView::Deposit {
                token: token@,
                from: from@,
                amount: *amount,
            },
            Transfer::Release { token, to, amount } => TransferView::Release {
                token: token@,
                to: to@,
                amount: *amount,
            },
        }
    }
}

} // verus!
