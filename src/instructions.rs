//! The operations on a distribution. Each takes the accounts it works on as a
//! context, and either applies all of its effects or refuses with an error and
//! changes nothing.
use vstd::prelude::*;
use crate::merkle::{
    bytes_eq, compute_leaf, leaf_hash, proof_accepts, verify_proof, MAX_PROOF_LEN,
};
use crate::state::{ClaimLedger, ClaimRecord, Distribution, DistributorError, TokenAccount};

verus! {

/// Accounts for creating a distribution.
pub struct Initialize {
    /// The administering identity, which signs the call.
    pub authority: [u8; 32],
    /// The identity that funds the vault.
    pub funder: [u8; 32],
    /// The record slot at the distribution id's address; `Some` once created.
    pub distribution: Option<Distribution>,
    pub mint: [u8; 32],
    pub vault: [u8; 32],
    pub bump: u8,
    pub vault_bump: u8,
}

/// Accounts for replacing the operator.
pub struct SetOperator {
    pub distribution: Distribution,
    /// The identity that signs the call.
    pub authority: [u8; 32],
}

/// Accounts for pausing and unpausing.
pub struct AdminAction {
    pub distribution: Distribution,
    /// The identity that signs the call.
    pub authority: [u8; 32],
}

/// Accounts for a claim.
pub struct ProcessClaim {
    pub distribution: Distribution,
    /// The distribution's claim records.
    pub claims: ClaimLedger,
    pub vault: TokenAccount,
    /// The identity that the allocation is for.
    pub recipient: [u8; 32],
    /// The account, controlled by the recipient, that is paid.
    pub recipient_token_account: TokenAccount,
    /// Unix time at which the claim is processed.
    pub now: i64,
    /// Address-derivation bump of the new claim record.
    pub claim_bump: u8,
}

/// Accounts for sweeping the vault back to the authority.
pub struct Clawback {
    pub distribution: Distribution,
    pub vault: TokenAccount,
    /// The authority's account that receives the sweep.
    pub authority_token_account: TokenAccount,
    /// The identity that signs the call.
    pub authority: [u8; 32],
}

/// Why creating a distribution is refused, if it is.
pub open spec fn initialize_error(c: Initialize) -> Option<DistributorError> {
    if c.funder@ != c.authority@ {
        Some(DistributorError::Unauthorized)
    } else if c.distribution is Some {
        Some(DistributorError::AlreadyInitialized)
    } else {
        None
    }
}

/// A new distribution, with the authority as operator and nothing claimed.
pub open spec fn new_distribution(
    c: Initialize,
    distribution_id: [u8; 32],
    merkle_root: [u8; 32],
    total_amount: u64,
    num_recipients: u64,
) -> Distribution {
    Distribution {
        authority: c.authority,
        operator: c.authority,
        mint: c.mint,
        vault: c.vault,
        distribution_id,
        merkle_root,
        total_amount,
        claimed_amount: 0,
        num_recipients,
        num_claimed: 0,
        paused: false,
        bump: c.bump,
        vault_bump: c.vault_bump,
    }
}

/// Creates the distribution in its initial state, once per distribution id.
pub fn initialize(
    ctx: &mut Initialize,
    distribution_id: [u8; 32],
    merkle_root: [u8; 32],
    total_amount: u64,
    num_recipients: u64,
) -> (r: Result<(), DistributorError>)
    ensures
        match initialize_error(*old(ctx)) {
            Some(e) => r == Err::<(), DistributorError>(e) && *final(ctx) == *old(ctx),
            None => r is Ok && final(ctx).distribution == Some(
                new_distribution(*old(ctx), distribution_id, merkle_root, total_amount, num_recipients),
            ) && final(ctx).authority == old(ctx).authority && final(ctx).funder == old(ctx).funder
                && final(ctx).mint == old(ctx).mint && final(ctx).vault == old(ctx).vault
                && final(ctx).bump == old(ctx).bump && final(ctx).vault_bump == old(ctx).vault_bump,
        },
{
    if !bytes_eq(&ctx.funder, &ctx.authority) {
        return Err(DistributorError::Unauthorized);
    }
    if ctx.distribution.is_some() {
        return Err(DistributorError::AlreadyInitialized);
    }
    ctx.distribution = Some(
        Distribution {
            authority: ctx.authority,
            operator: ctx.authority,
            mint: ctx.mint,
            vault: ctx.vault,
            distribution_id,
            merkle_root,
            total_amount,
            claimed_amount: 0,
            num_recipients,
            num_claimed: 0,
            paused: false,
            bump: ctx.bump,
            vault_bump: ctx.vault_bump,
        },
    );
    Ok(())
}

/// Replaces the operator; only the distribution's authority may.
pub fn set_operator(ctx: &mut SetOperator, new_operator: [u8; 32]) -> (r: Result<
    (),
    DistributorError,
>)
    ensures
        old(ctx).authority@ != old(ctx).distribution.authority@ ==> r == Err::<(), DistributorError>(
            DistributorError::Unauthorized,
        ) && *final(ctx) == *old(ctx),
        old(ctx).authority@ == old(ctx).distribution.authority@ ==> r is Ok && final(ctx).distribution
            == (Distribution { operator: new_operator, ..old(ctx).distribution })
            && final(ctx).authority == old(ctx).authority,
{
    if !bytes_eq(&ctx.authority, &ctx.distribution.authority) {
        return Err(DistributorError::Unauthorized);
    }
    ctx.distribution.operator = new_operator;
    Ok(())
}

fn set_paused(ctx: &mut AdminAction, paused: bool) -> (r: Result<(), DistributorError>)
    ensures
        old(ctx).authority@ != old(ctx).distribution.authority@ ==> r == Err::<(), DistributorError>(
            DistributorError::Unauthorized,
        ) && *final(ctx) == *old(ctx),
        old(ctx).authority@ == old(ctx).distribution.authority@ ==> r is Ok && final(ctx).distribution
            == (Distribution { paused, ..old(ctx).distribution })
            && final(ctx).authority == old(ctx).authority,
{
    if !bytes_eq(&ctx.authority, &ctx.distribution.authority) {
        return Err(DistributorError::Unauthorized);
    }
    ctx.distribution.paused = paused;
    Ok(())
}

/// Stops claims; only the distribution's authority may.
pub fn pause(ctx: &mut AdminAction) -> (r: Result<(), DistributorError>)
    ensures
        old(ctx).authority@ != old(ctx).distribution.authority@ ==> r == Err::<(), DistributorError>(
            DistributorError::Unauthorized,
        ) && *final(ctx) == *old(ctx),
        old(ctx).authority@ == old(ctx).distribution.authority@ ==> r is Ok && final(ctx).distribution
            == (Distribution { paused: true, ..old(ctx).distribution })
            && final(ctx).authority == old(ctx).authority,
{
    set_paused(ctx, true)
}

/// Lets claims through again; only the distribution's authority may.
pub fn unpause(ctx: &mut AdminAction) -> (r: Result<(), DistributorError>)
    ensures
        old(ctx).authority@ != old(ctx).distribution.authority@ ==> r == Err::<(), DistributorError>(
            DistributorError::Unauthorized,
        ) && *final(ctx) == *old(ctx),
        old(ctx).authority@ == old(ctx).distribution.authority@ ==> r is Ok && final(ctx).distribution
            == (Distribution { paused: false, ..old(ctx).distribution })
            && final(ctx).authority == old(ctx).authority,
{
    set_paused(ctx, false)
}

/// Why a token account cannot take part: wrong token type or controller, or it is the vault.
pub open spec fn bad_token_account(acct: TokenAccount, d: Distribution, owner: [u8; 32], vault: TokenAccount) -> bool {
    acct.mint@ != d.mint@ || acct.owner@ != owner@ || acct.key@ == vault.key@
}

/// The refusals that the accounts and the claim records decide.
pub open spec fn claim_account_error(c: ProcessClaim, index: u64) -> Option<DistributorError> {
    if c.vault.key@ != c.distribution.vault@ {
        Some(DistributorError::InvalidVault)
    } else if bad_token_account(c.recipient_token_account, c.distribution, c.recipient, c.vault) {
        Some(DistributorError::InvalidTokenAccount)
    } else if c.claims.has(index) {
        Some(DistributorError::DuplicateClaim)
    } else {
        None
    }
}

/// Whether paying `amount` keeps the vault, the recipient's balance and the counters in bounds.
pub open spec fn amounts_fit(c: ProcessClaim, amount: u64) -> bool {
    &&& amount <= c.vault.amount
    &&& c.recipient_token_account.amount + amount <= u64::MAX
    &&& c.distribution.claimed_amount + amount <= c.distribution.total_amount
    &&& c.distribution.num_claimed + 1 <= c.distribution.num_recipients
}

/// Why a claim is refused, if it is, in the order in which it is checked.
pub open spec fn claim_error(c: ProcessClaim, index: u64, amount: u64, proof: Seq<[u8; 32]>) -> Option<
    DistributorError,
> {
    let d = c.distribution;
    if claim_account_error(c, index) is Some {
        claim_account_error(c, index)
    } else if d.paused {
        Some(DistributorError::Paused)
    } else if proof.len() > MAX_PROOF_LEN {
        Some(DistributorError::ProofTooLong)
    } else if !proof_accepts(
        proof,
        d.merkle_root@,
        leaf_hash(d.distribution_id@, c.recipient@, amount),
    ) {
        Some(DistributorError::InvalidProof)
    } else if !amounts_fit(c, amount) {
        Some(DistributorError::Overflow)
    } else {
        None
    }
}

/// `post` is `pre` after paying claim `index` of `amount`: the vault pays the
/// recipient, both counters grow, and one record is added.
pub open spec fn claimed_state(pre: ProcessClaim, post: ProcessClaim, index: u64, amount: u64) -> bool {
    &&& post.distribution == (Distribution {
        claimed_amount: (pre.distribution.claimed_amount + amount) as u64,
        num_claimed: (pre.distribution.num_claimed + 1) as u64,
        ..pre.distribution
    })
    &&& post.vault == (TokenAccount { amount: (pre.vault.amount - amount) as u64, ..pre.vault })
    &&& post.recipient_token_account == (TokenAccount {
        amount: (pre.recipient_token_account.amount + amount) as u64,
        ..pre.recipient_token_account
    })
    &&& post.claims@ == pre.claims@.push(
        ClaimRecord {
            distribution: pre.distribution.distribution_id,
            index,
            recipient: pre.recipient,
            amount,
            claimed_at: pre.now,
            bump: pre.claim_bump,
        },
    )
    &&& post.recipient == pre.recipient
    &&& post.now == pre.now
    &&& post.claim_bump == pre.claim_bump
}

/// Pays leaf `index` (`amount` to the context's recipient) once its proof
/// verifies against the committed root, and records the claim.
pub fn claim(ctx: &mut ProcessClaim, index: u64, amount: u64, proof: Vec<[u8; 32]>) -> (r: Result<
    (),
    DistributorError,
>)
    ensures
        match claim_error(*old(ctx), index, amount, proof@) {
            Some(e) => r == Err::<(), DistributorError>(e) && *final(ctx) == *old(ctx),
            None => r is Ok && claimed_state(*old(ctx), *final(ctx), index, amount),
        },
{
    if !bytes_eq(&ctx.vault.key, &ctx.distribution.vault) {
        return Err(DistributorError::InvalidVault);
    }
    if !bytes_eq(&ctx.recipient_token_account.mint, &ctx.distribution.mint) || !bytes_eq(
        &ctx.recipient_token_account.owner,
        &ctx.recipient,
    ) || bytes_eq(&ctx.recipient_token_account.key, &ctx.vault.key) {
        return Err(DistributorError::InvalidTokenAccount);
    }
    if ctx.claims.contains(index) {
        return Err(DistributorError::DuplicateClaim);
    }
    if ctx.distribution.paused {
        return Err(DistributorError::Paused);
    }
    if proof.len() > MAX_PROOF_LEN {
        return Err(DistributorError::ProofTooLong);
    }
    let leaf = compute_leaf(&ctx.distribution.distribution_id, &ctx.recipient, amount);
    if !verify_proof(proof.as_slice(), &ctx.distribution.merkle_root, leaf) {
        return Err(DistributorError::InvalidProof);
    }
    if amount > ctx.vault.amount {
        return Err(DistributorError::Overflow);
    }
    let credited = match ctx.recipient_token_account.amount.checked_add(amount) {
        Some(v) => v,
        None => return Err(DistributorError::Overflow),
    };
    let claimed = match ctx.distribution.claimed_amount.checked_add(amount) {
        Some(v) => v,
        None => return Err(DistributorError::Overflow),
    };
    if claimed > ctx.distribution.total_amount {
        return Err(DistributorError::Overflow);
    }
    let count = match ctx.distribution.num_claimed.checked_add(1) {
        Some(v) => v,
        None => return Err(DistributorError::Overflow),
    };
    if count > ctx.distribution.num_recipients {
        return Err(DistributorError::Overflow);
    }
    ctx.vault.amount = ctx.vault.amount - amount;
    ctx.recipient_token_account.amount = credited;
    ctx.distribution.claimed_amount = claimed;
    ctx.distribution.num_claimed = count;
    let rec = ClaimRecord {
        distribution: ctx.distribution.distribution_id,
        index,
        recipient: ctx.recipient,
        amount,
        claimed_at: ctx.now,
        bump: ctx.claim_bump,
    };
    ctx.claims.record(rec);
    Ok(())
}

/// Why a clawback is refused, if it is, in the order in which it is checked.
pub open spec fn clawback_error(c: Clawback) -> Option<DistributorError> {
    if c.authority@ != c.distribution.authority@ {
        Some(DistributorError::Unauthorized)
    } else if c.vault.key@ != c.distribution.vault@ {
        Some(DistributorError::InvalidVault)
    } else if bad_token_account(c.authority_token_account, c.distribution, c.authority, c.vault) {
        Some(DistributorError::InvalidTokenAccount)
    } else if c.authority_token_account.amount + c.vault.amount > u64::MAX {
        Some(DistributorError::Overflow)
    } else {
        None
    }
}

/// Moves the vault's whole balance, whatever it is, to the authority's
/// account. The counters are left as they are and claims stay possible.
pub fn clawback(ctx: &mut Clawback) -> (r: Result<(), DistributorError>)
    ensures
        match clawback_error(*old(ctx)) {
            Some(e) => r == Err::<(), DistributorError>(e) && *final(ctx) == *old(ctx),
            None => r is Ok && final(ctx).vault == (TokenAccount { amount: 0, ..old(ctx).vault })
                && final(ctx).authority_token_account == (TokenAccount {
                amount: (old(ctx).authority_token_account.amount + old(ctx).vault.amount) as u64,
                ..old(ctx).authority_token_account
            }) && final(ctx).distribution == old(ctx).distribution && final(ctx).authority
                == old(ctx).authority,
        },
{
    if !bytes_eq(&ctx.authority, &ctx.distribution.authority) {
        return Err(DistributorError::Unauthorized);
    }
    if !bytes_eq(&ctx.vault.key, &ctx.distribution.vault) {
        return Err(DistributorError::InvalidVault);
    }
    if !bytes_eq(&ctx.authority_token_account.mint, &ctx.distribution.mint) || !bytes_eq(
        &ctx.authority_token_account.owner,
        &ctx.authority,
    ) || bytes_eq(&ctx.authority_token_account.key, &ctx.vault.key) {
        return Err(DistributorError::InvalidTokenAccount);
    }
    let remaining = ctx.vault.amount;
    let credited = match ctx.authority_token_account.amount.checked_add(remaining) {
        Some(v) => v,
        None => return Err(DistributorError::Overflow),
    };
    ctx.vault.amount = 0;
    ctx.authority_token_account.amount = credited;
    Ok(())
}

/// Once leaf `index` has been claimed, every further claim of it is refused as
/// a duplicate, whatever amount and proof it carries.
pub proof fn lemma_claim_once(
    pre: ProcessClaim,
    post: ProcessClaim,
    index: u64,
    amount: u64,
    proof: Seq<[u8; 32]>,
    amount2: u64,
    proof2: Seq<[u8; 32]>,
)
    requires
        claim_error(pre, index, amount, proof) is None,
        claimed_state(pre, post, index, amount),
    ensures
        claim_error(post, index, amount2, proof2) == Some(DistributorError::DuplicateClaim),
{
    let k = pre.claims@.len() as int;
    assert(post.claims@[k].index == index);
}

/// A successful claim keeps `claimed_amount <= total_amount`,
/// `num_claimed <= num_recipients` and one record per index; so does every
/// sequence of them.
pub proof fn lemma_claim_keeps_bounds(
    pre: ProcessClaim,
    post: ProcessClaim,
    index: u64,
    amount: u64,
    proof: Seq<[u8; 32]>,
)
    requires
        pre.claims.wf(),
        claim_error(pre, index, amount, proof) is None,
        claimed_state(pre, post, index, amount),
    ensures
        post.distribution.within_bounds(),
        post.claims.wf(),
{
    assert forall|k: int, l: int| 0 <= k < l < post.claims@.len() implies post.claims@[k].index
        != post.claims@[l].index by {
        if l == pre.claims@.len() {
            assert(pre.claims@[k] == post.claims@[k]);
        }
    }
}

/// A claim that passes every other check but would overdraw the vault or the
/// recipient's balance, or take a counter past its bound, is refused with
/// `Overflow`.
pub proof fn lemma_overdraw_refused(c: ProcessClaim, index: u64, amount: u64, proof: Seq<[u8; 32]>)
    requires
        claim_account_error(c, index) is None,
        !c.distribution.paused,
        proof_accepts(
            proof,
            c.distribution.merkle_root@,
            leaf_hash(c.distribution.distribution_id@, c.recipient@, amount),
        ),
        !amounts_fit(c, amount),
    ensures
        claim_error(c, index, amount, proof) == Some(DistributorError::Overflow),
{
}

/// While paused, a claim that the accounts admit is refused with `Paused`;
/// once unpaused, the same claim goes through if its proof verifies and its
/// amount fits.
pub proof fn lemma_pause_blocks_claim(
    c: ProcessClaim,
    unpaused: ProcessClaim,
    index: u64,
    amount: u64,
    proof: Seq<[u8; 32]>,
)
    requires
        c.distribution.paused,
        claim_account_error(c, index) is None,
        unpaused == (ProcessClaim {
            distribution: Distribution { paused: false, ..c.distribution },
            ..c
        }),
        proof_accepts(
            proof,
            c.distribution.merkle_root@,
            leaf_hash(c.distribution.distribution_id@, c.recipient@, amount),
        ),
        amounts_fit(c, amount),
    ensures
        claim_error(c, index, amount, proof) == Some(DistributorError::Paused),
        claim_error(unpaused, index, amount, proof) is None,
{
}

} // verus!
