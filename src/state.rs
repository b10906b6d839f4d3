//! What a distribution records: the distribution itself, its claim records,
//! and the token accounts that it moves funds between.
use vstd::prelude::*;

verus! {

/// One distribution campaign. Keys and ids are 32-byte public identities.
#[derive(Debug, Clone, Copy, PartialEq, Eq)]
pub struct Distribution {
    /// The identity that administers this distribution.
    pub authority: [u8; 32],
    /// The identity that may relay claims; recorded, not enforced.
    pub operator: [u8; 32],
    /// The token type being distributed.
    pub mint: [u8; 32],
    /// The escrow account holding the undistributed tokens.
    pub vault: [u8; 32],
    /// Unique identifier, also mixed into every leaf.
    pub distribution_id: [u8; 32],
    /// Commitment to all (recipient, amount) allocations.
    pub merkle_root: [u8; 32],
    /// Tokens allocated in all.
    pub total_amount: u64,
    /// Tokens claimed so far.
    pub claimed_amount: u64,
    /// Number of allocations.
    pub num_recipients: u64,
    /// Number of claims made so far.
    pub num_claimed: u64,
    /// While set, claims are refused.
    pub paused: bool,
    /// Address-derivation bump of this record.
    pub bump: u8,
    /// Address-derivation bump of the vault.
    pub vault_bump: u8,
}

impl Distribution {
    /// The counters stay within what was committed.
    pub open spec fn within_bounds(&self) -> bool {
        self.claimed_amount <= self.total_amount && self.num_claimed <= self.num_recipients
    }
}

/// The record of one claimed leaf index.
#[derive(Debug, Clone, Copy, PartialEq, Eq)]
pub struct ClaimRecord {
    /// Id of the distribution the claim belongs to.
    pub distribution: [u8; 32],
    /// Position of the leaf in the allocation list.
    pub index: u64,
    /// Who was paid.
    pub recipient: [u8; 32],
    /// How much was paid.
    pub amount: u64,
    /// Unix time of the claim.
    pub claimed_at: i64,
    /// Address-derivation bump of this record.
    pub bump: u8,
}

/// A token account: its address, the token type it holds, who controls it, and its balance.
#[derive(Debug, Clone, Copy, PartialEq, Eq)]
pub struct TokenAccount {
    pub key: [u8; 32],
    pub mint: [u8; 32],
    pub owner: [u8; 32],
    pub amount: u64,
}

/// Why an operation was refused. A refused operation changes nothing.
#[derive(Debug, Clone, Copy, PartialEq, Eq)]
pub enum DistributorError {
    /// The leaf and proof do not lead to the committed root.
    InvalidProof,
    /// Claims are paused.
    Paused,
    /// The caller lacks the authority the operation needs.
    Unauthorized,
    /// The vault given is not the distribution's vault.
    InvalidVault,
    /// A counter or balance would leave its bounds.
    Overflow,
    /// The proof is longer than the depth bound.
    ProofTooLong,
    /// The leaf index has been claimed already.
    DuplicateClaim,
    /// A distribution already exists under this id.
    AlreadyInitialized,
    /// A token account has the wrong token type or controller, or is the vault itself.
    InvalidTokenAccount,
}

/// The claim records of one distribution, at most one per leaf index.
pub struct ClaimLedger {
    records: Vec<ClaimRecord>,
}

impl View for ClaimLedger {
    type V = Seq<ClaimRecord>;

    closed spec fn view(&self) -> Seq<ClaimRecord> {
        self.records@
    }
}

impl ClaimLedger {
    /// Whether leaf `index` has a record.
    pub open spec fn has(&self, index: u64) -> bool {
        exists|k: int| 0 <= k < self@.len() && self@[k].index == index
    }

    /// No two records share an index.
    pub open spec fn wf(&self) -> bool {
        forall|k: int, l: int| 0 <= k < l < self@.len() ==> self@[k].index != self@[l].index
    }

    /// A ledger with no records.
    pub fn new() -> (r: Self)
        ensures
            r@ == Seq::<ClaimRecord>::empty(),
            r.wf(),
    {
        ClaimLedger { records: Vec::new() }
    }

    /// The number of records.
    pub fn len(&self) -> (r: usize)
        ensures
            r == self@.len(),
    {
        self.records.len()
    }

    /// Whether leaf `index` has a record.
    pub fn contains(&self, index: u64) -> (r: bool)
        ensures
            r == self.has(index),
    {
        let mut k: usize = 0;
        while k < self.records.len()
            invariant
                0 <= k <= self@.len(),
                forall|j: int| 0 <= j < k ==> self@[j].index != index,
            decreases self@.len() - k,
        {
            if self.records[k].index == index {
                return true;
            }
            k += 1;
        }
        false
    }

    /// The record of leaf `index`, if there is one.
    pub fn get(&self, index: u64) -> (r: Option<ClaimRecord>)
        ensures
            r is None <==> !self.has(index),
            r matches Some(rec) ==> rec.index == index && self@.contains(rec),
    {
        let mut k: usize = 0;
        while k < self.records.len()
            invariant
                0 <= k <= self@.len(),
                forall|j: int| 0 <= j < k ==> self@[j].index != index,
            decreases self@.len() - k,
        {
            if self.records[k].index == index {
                return Some(self.records[k]);
            }
            k += 1;
        }
        None
    }

    /// Adds a record for an index that has none.
    pub(crate) fn record(&mut self, rec: ClaimRecord)
        ensures
            final(self)@ == old(self)@.push(rec),
    {
        self.records.push(rec);
    }
}

} // verus!
