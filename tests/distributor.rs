use anchor_lang::solana_program::keccak;
use merkle_distributor::instructions::{
    claim, clawback, initialize, pause, set_operator, unpause, AdminAction, Clawback,
    Initialize, ProcessClaim, SetOperator,
};
use merkle_distributor::merkle::{compute_leaf, hash_pair, verify_proof, MAX_PROOF_LEN};
use merkle_distributor::state::{ClaimLedger, Distribution, DistributorError, TokenAccount};

const AUTHORITY: [u8; 32] = [1u8; 32];
const MINT: [u8; 32] = [2u8; 32];
const VAULT: [u8; 32] = [3u8; 32];
const ID: [u8; 32] = [4u8; 32];
const R1: [u8; 32] = [5u8; 32];
const R2: [u8; 32] = [6u8; 32];
const R1_ACCOUNT: [u8; 32] = [7u8; 32];
const AUTHORITY_ACCOUNT: [u8; 32] = [8u8; 32];
const STRANGER: [u8; 32] = [9u8; 32];

fn two_leaf_tree() -> ([u8; 32], [u8; 32], [u8; 32]) {
    let l0 = compute_leaf(&ID, &R1, 400);
    let l1 = compute_leaf(&ID, &R2, 600);
    (l0, l1, hash_pair(&l0, &l1))
}

fn new_distribution(root: [u8; 32]) -> Distribution {
    let mut ctx = Initialize {
        authority: AUTHORITY,
        funder: AUTHORITY,
        distribution: None,
        mint: MINT,
        vault: VAULT,
        bump: 254,
        vault_bump: 253,
    };
    assert_eq!(initialize(&mut ctx, ID, root, 1000, 2), Ok(()));
    ctx.distribution.unwrap()
}

fn token_account(key: [u8; 32], owner: [u8; 32], amount: u64) -> TokenAccount {
    TokenAccount { key, mint: MINT, owner, amount }
}

fn claim_context(d: Distribution, recipient: [u8; 32], vault_amount: u64) -> ProcessClaim {
    ProcessClaim {
        distribution: d,
        claims: ClaimLedger::new(),
        vault: token_account(VAULT, ID, vault_amount),
        recipient,
        recipient_token_account: token_account(R1_ACCOUNT, recipient, 0),
        now: 1_700_000_000,
        claim_bump: 250,
    }
}

#[test]
fn initialize_sets_initial_state() {
    let d = new_distribution([0u8; 32]);
    assert_eq!(d.authority, AUTHORITY);
    assert_eq!(d.operator, AUTHORITY);
    assert_eq!(d.mint, MINT);
    assert_eq!(d.vault, VAULT);
    assert_eq!(d.distribution_id, ID);
    assert_eq!(d.total_amount, 1000);
    assert_eq!(d.num_recipients, 2);
    assert_eq!(d.claimed_amount, 0);
    assert_eq!(d.num_claimed, 0);
    assert!(!d.paused);
    assert_eq!(d.bump, 254);
    assert_eq!(d.vault_bump, 253);
}

#[test]
fn initialize_twice_is_refused() {
    let d = new_distribution([0u8; 32]);
    let mut ctx = Initialize {
        authority: AUTHORITY,
        funder: AUTHORITY,
        distribution: Some(d),
        mint: MINT,
        vault: VAULT,
        bump: 1,
        vault_bump: 1,
    };
    assert_eq!(initialize(&mut ctx, ID, [9u8; 32], 5, 5), Err(DistributorError::AlreadyInitialized));
    assert_eq!(ctx.distribution, Some(d));
}

#[test]
fn initialize_by_non_funder_is_unauthorized() {
    let mut ctx = Initialize {
        authority: AUTHORITY,
        funder: STRANGER,
        distribution: None,
        mint: MINT,
        vault: VAULT,
        bump: 1,
        vault_bump: 1,
    };
    assert_eq!(initialize(&mut ctx, ID, [0u8; 32], 5, 5), Err(DistributorError::Unauthorized));
    assert_eq!(ctx.distribution, None);
}

#[test]
fn leaf_layout_matches_keccak_of_tag_id_recipient_amount() {
    let amount: u64 = 0x0102_0304_0506_0708;
    let mut data: Vec<u8> = b"L33_MERKLE_V1".to_vec();
    data.extend_from_slice(&ID);
    data.extend_from_slice(&R1);
    data.extend_from_slice(&amount.to_le_bytes());
    assert_eq!(compute_leaf(&ID, &R1, amount), keccak::hash(&data).to_bytes());
}

#[test]
fn leaf_depends_on_every_field() {
    let base = compute_leaf(&ID, &R1, 400);
    assert_ne!(base, compute_leaf(&[0u8; 32], &R1, 400));
    assert_ne!(base, compute_leaf(&ID, &R2, 400));
    assert_ne!(base, compute_leaf(&ID, &R1, 401));
}

#[test]
fn hash_pair_sorts_then_hashes() {
    let lo = [0u8; 32];
    let hi = [0xffu8; 32];
    let mut data = lo.to_vec();
    data.extend_from_slice(&hi);
    let expected = keccak::hash(&data).to_bytes();
    assert_eq!(hash_pair(&lo, &hi), expected);
    assert_eq!(hash_pair(&hi, &lo), expected);
}

#[test]
fn hash_pair_is_commutative() {
    let a = compute_leaf(&ID, &R1, 1);
    let b = compute_leaf(&ID, &R2, 2);
    assert_eq!(hash_pair(&a, &b), hash_pair(&b, &a));
    assert_eq!(hash_pair(&a, &a), hash_pair(&a, &a));
}

#[test]
fn correct_proof_verifies_and_corruption_fails() {
    let (l0, l1, root) = two_leaf_tree();
    assert!(verify_proof(&[l1], &root, l0));
    assert!(verify_proof(&[l0], &root, l1));
    let mut bad_root = root;
    bad_root[5] ^= 1;
    assert!(!verify_proof(&[l1], &bad_root, l0));
    let mut bad_leaf = l0;
    bad_leaf[31] ^= 0x80;
    assert!(!verify_proof(&[l1], &root, bad_leaf));
    let mut bad_sibling = l1;
    bad_sibling[0] ^= 2;
    assert!(!verify_proof(&[bad_sibling], &root, l0));
}

#[test]
fn empty_proof_means_leaf_is_root() {
    let l0 = compute_leaf(&ID, &R1, 400);
    assert!(verify_proof(&[], &l0, l0));
    assert!(!verify_proof(&[], &[0u8; 32], l0));
}

#[test]
fn over_long_proof_is_refused() {
    let leaf = [7u8; 32];
    let mut proof: Vec<[u8; 32]> = Vec::new();
    let mut root = leaf;
    for k in 0..(MAX_PROOF_LEN + 1) {
        let sibling = [k as u8; 32];
        root = hash_pair(&root, &sibling);
        proof.push(sibling);
    }
    assert!(!verify_proof(&proof, &root, leaf));
    proof.pop();
    let mut root20 = leaf;
    for sibling in proof.iter() {
        root20 = hash_pair(&root20, sibling);
    }
    assert!(verify_proof(&proof, &root20, leaf));
}

#[test]
fn two_recipients_claim_then_clawback_sweeps_nothing() {
    let (l0, l1, root) = two_leaf_tree();
    let d = new_distribution(root);

    let mut c1 = claim_context(d, R1, 1000);
    assert_eq!(claim(&mut c1, 0, 400, vec![l1]), Ok(()));
    assert_eq!(c1.vault.amount, 600);
    assert_eq!(c1.recipient_token_account.amount, 400);
    assert_eq!(c1.distribution.claimed_amount, 400);
    assert_eq!(c1.distribution.num_claimed, 1);
    let rec = c1.claims.get(0).unwrap();
    assert_eq!(rec.recipient, R1);
    assert_eq!(rec.amount, 400);
    assert_eq!(rec.distribution, ID);
    assert_eq!(rec.claimed_at, 1_700_000_000);

    let mut c2 = ProcessClaim {
        distribution: c1.distribution,
        claims: c1.claims,
        vault: c1.vault,
        recipient: R2,
        recipient_token_account: token_account([10u8; 32], R2, 0),
        now: 1_700_000_100,
        claim_bump: 249,
    };
    assert_eq!(claim(&mut c2, 1, 600, vec![l0]), Ok(()));
    assert_eq!(c2.vault.amount, 0);
    assert_eq!(c2.recipient_token_account.amount, 600);
    assert_eq!(c2.distribution.claimed_amount, 1000);
    assert_eq!(c2.distribution.num_claimed, 2);
    assert_eq!(c2.claims.len(), 2);

    let mut cb = Clawback {
        distribution: c2.distribution,
        vault: c2.vault,
        authority_token_account: token_account(AUTHORITY_ACCOUNT, AUTHORITY, 5),
        authority: AUTHORITY,
    };
    assert_eq!(clawback(&mut cb), Ok(()));
    assert_eq!(cb.vault.amount, 0);
    assert_eq!(cb.authority_token_account.amount, 5);
}

#[test]
fn other_recipients_proof_is_invalid() {
    let (l0, _l1, root) = two_leaf_tree();
    let d = new_distribution(root);
    let mut c = claim_context(d, R1, 1000);
    assert_eq!(claim(&mut c, 0, 400, vec![l0]), Err(DistributorError::InvalidProof));
    assert_eq!(c.vault.amount, 1000);
    assert_eq!(c.distribution.claimed_amount, 0);
    assert_eq!(c.claims.len(), 0);
}

#[test]
fn second_claim_of_index_is_duplicate() {
    let (_l0, l1, root) = two_leaf_tree();
    let d = new_distribution(root);
    let mut c = claim_context(d, R1, 1000);
    assert_eq!(claim(&mut c, 0, 400, vec![l1]), Ok(()));
    let before = c.distribution;
    assert_eq!(claim(&mut c, 0, 400, vec![l1]), Err(DistributorError::DuplicateClaim));
    assert_eq!(claim(&mut c, 0, 1, vec![]), Err(DistributorError::DuplicateClaim));
    assert_eq!(c.distribution, before);
    assert_eq!(c.vault.amount, 600);
    assert_eq!(c.claims.len(), 1);
}

#[test]
fn paused_claim_refused_then_succeeds_after_unpause() {
    let (_l0, l1, root) = two_leaf_tree();
    let d = new_distribution(root);
    let mut admin = AdminAction { distribution: d, authority: AUTHORITY };
    assert_eq!(pause(&mut admin), Ok(()));
    assert!(admin.distribution.paused);
    let mut c = claim_context(admin.distribution, R1, 1000);
    assert_eq!(claim(&mut c, 0, 400, vec![l1]), Err(DistributorError::Paused));
    assert_eq!(c.vault.amount, 1000);
    assert_eq!(c.distribution.claimed_amount, 0);
    let mut admin = AdminAction { distribution: c.distribution, authority: AUTHORITY };
    assert_eq!(unpause(&mut admin), Ok(()));
    assert!(!admin.distribution.paused);
    c.distribution = admin.distribution;
    assert_eq!(claim(&mut c, 0, 400, vec![l1]), Ok(()));
    assert_eq!(c.vault.amount, 600);
}

#[test]
fn admin_actions_need_the_authority() {
    let d = new_distribution([0u8; 32]);
    let mut admin = AdminAction { distribution: d, authority: STRANGER };
    assert_eq!(pause(&mut admin), Err(DistributorError::Unauthorized));
    assert_eq!(unpause(&mut admin), Err(DistributorError::Unauthorized));
    assert_eq!(admin.distribution, d);
    let mut op = SetOperator { distribution: d, authority: STRANGER };
    assert_eq!(set_operator(&mut op, STRANGER), Err(DistributorError::Unauthorized));
    assert_eq!(op.distribution.operator, AUTHORITY);
    let mut op = SetOperator { distribution: d, authority: AUTHORITY };
    assert_eq!(set_operator(&mut op, R2), Ok(()));
    assert_eq!(op.distribution.operator, R2);
    assert_eq!(op.distribution.authority, AUTHORITY);
}

#[test]
fn claim_beyond_vault_or_total_is_overflow() {
    let l0 = compute_leaf(&ID, &R1, 400);
    // A single-leaf tree: the leaf is the root.
    let d = new_distribution(l0);
    let mut c = claim_context(d, R1, 399);
    assert_eq!(claim(&mut c, 0, 400, vec![]), Err(DistributorError::Overflow));
    assert_eq!(c.vault.amount, 399);

    let mut small = d;
    small.total_amount = 300;
    let mut c = claim_context(small, R1, 1000);
    assert_eq!(claim(&mut c, 0, 400, vec![]), Err(DistributorError::Overflow));
    assert_eq!(c.distribution.claimed_amount, 0);

    let mut full = d;
    full.num_claimed = 2;
    let mut c = claim_context(full, R1, 1000);
    assert_eq!(claim(&mut c, 0, 400, vec![]), Err(DistributorError::Overflow));

    let mut c = claim_context(d, R1, 1000);
    c.recipient_token_account.amount = u64::MAX - 10;
    assert_eq!(claim(&mut c, 0, 400, vec![]), Err(DistributorError::Overflow));
    assert_eq!(c.recipient_token_account.amount, u64::MAX - 10);
}

#[test]
fn claim_refusals_for_accounts_and_long_proof() {
    let l0 = compute_leaf(&ID, &R1, 400);
    let d = new_distribution(l0);

    let mut c = claim_context(d, R1, 1000);
    c.vault.key = STRANGER;
    assert_eq!(claim(&mut c, 0, 400, vec![]), Err(DistributorError::InvalidVault));

    let mut c = claim_context(d, R1, 1000);
    c.recipient_token_account.owner = STRANGER;
    assert_eq!(claim(&mut c, 0, 400, vec![]), Err(DistributorError::InvalidTokenAccount));

    let mut c = claim_context(d, R1, 1000);
    c.recipient_token_account.mint = STRANGER;
    assert_eq!(claim(&mut c, 0, 400, vec![]), Err(DistributorError::InvalidTokenAccount));

    let mut c = claim_context(d, R1, 1000);
    assert_eq!(
        claim(&mut c, 0, 400, vec![[0u8; 32]; MAX_PROOF_LEN + 1]),
        Err(DistributorError::ProofTooLong)
    );
    assert_eq!(claim(&mut c, 0, 400, vec![]), Ok(()));
}

#[test]
fn counters_stay_within_bounds_over_claims() {
    let (l0, l1, root) = two_leaf_tree();
    let d = new_distribution(root);
    let mut c = claim_context(d, R1, 5000);
    assert_eq!(claim(&mut c, 0, 400, vec![l1]), Ok(()));
    assert!(c.distribution.claimed_amount <= c.distribution.total_amount);
    assert!(c.distribution.num_claimed <= c.distribution.num_recipients);
    c.recipient = R2;
    c.recipient_token_account = token_account([10u8; 32], R2, 0);
    assert_eq!(claim(&mut c, 1, 600, vec![l0]), Ok(()));
    assert_eq!(c.distribution.claimed_amount, 1000);
    assert_eq!(c.distribution.num_claimed, 2);
    assert_eq!(c.vault.amount, 4000);
}

#[test]
fn clawback_sweeps_remaining_balance() {
    let d = new_distribution([0u8; 32]);
    let mut cb = Clawback {
        distribution: d,
        vault: token_account(VAULT, ID, 750),
        authority_token_account: token_account(AUTHORITY_ACCOUNT, AUTHORITY, 50),
        authority: AUTHORITY,
    };
    assert_eq!(clawback(&mut cb), Ok(()));
    assert_eq!(cb.vault.amount, 0);
    assert_eq!(cb.authority_token_account.amount, 800);
    assert_eq!(cb.distribution, d);
}

#[test]
fn clawback_refusals() {
    let d = new_distribution([0u8; 32]);
    let base = Clawback {
        distribution: d,
        vault: token_account(VAULT, ID, 750),
        authority_token_account: token_account(AUTHORITY_ACCOUNT, AUTHORITY, 50),
        authority: AUTHORITY,
    };
    let mut cb = Clawback { authority: STRANGER, ..base };
    assert_eq!(clawback(&mut cb), Err(DistributorError::Unauthorized));
    let mut cb = Clawback { vault: token_account(STRANGER, ID, 750), ..base };
    assert_eq!(clawback(&mut cb), Err(DistributorError::InvalidVault));
    let mut cb = Clawback {
        authority_token_account: token_account(AUTHORITY_ACCOUNT, STRANGER, 50),
        ..base
    };
    assert_eq!(clawback(&mut cb), Err(DistributorError::InvalidTokenAccount));
    let mut cb = Clawback {
        authority_token_account: token_account(AUTHORITY_ACCOUNT, AUTHORITY, u64::MAX),
        ..base
    };
    assert_eq!(clawback(&mut cb), Err(DistributorError::Overflow));
    assert_eq!(cb.vault.amount, 750);
}
