//! Leaf hashing and proof verification.
use vstd::prelude::*;

verus! {

/// Largest number of sibling hashes that a proof may hold (trees of up to 2^20 leaves).
pub const MAX_PROOF_LEN: usize = 20;

/// The Keccak-256 digest of a byte string.
pub uninterp spec fn keccak_of(data: Seq<u8>) -> Seq<u8>;

/// Relies on `solana_program::keccak::hash`: the Keccak-256 digest of `data`,
/// which depends on the bytes alone.
#[verifier::external_body]
fn keccak256(data: &[u8]) -> (r: [u8; 32])
    ensures
        r@ == keccak_of(data@),
{
    anchor_lang::solana_program::keccak::hash(data).to_bytes()
}

/// The domain-separation tag that starts every leaf preimage: ASCII `L33_MERKLE_V1`.
pub open spec fn domain_tag() -> Seq<u8> {
    seq![76u8, 51u8, 51u8, 95u8, 77u8, 69u8, 82u8, 75u8, 76u8, 69u8, 95u8, 86u8, 49u8]
}

/// Byte `j` of `v` in little-endian order.
pub open spec fn le_byte(v: u64, j: int) -> u8 {
    (v >> ((8 * j) as u64)) as u8
}

/// The eight little-endian bytes of `v`.
pub open spec fn le_bytes(v: u64) -> Seq<u8> {
    Seq::new(8, |j: int| le_byte(v, j))
}

/// The bytes hashed into a leaf: tag, distribution id, recipient, amount.
pub open spec fn leaf_preimage(id: Seq<u8>, recipient: Seq<u8>, amount: u64) -> Seq<u8> {
    domain_tag() + id + recipient + le_bytes(amount)
}

/// The leaf that commits to one allocation of a distribution.
pub open spec fn leaf_hash(id: Seq<u8>, recipient: Seq<u8>, amount: u64) -> Seq<u8> {
    keccak_of(leaf_preimage(id, recipient, amount))
}

/// Lexicographic `a <= b` on the bytes from position `i` on.
pub open spec fn lex_le_from(a: Seq<u8>, b: Seq<u8>, i: int) -> bool
    decreases a.len() - i,
{
    if i < 0 || i >= a.len() || i >= b.len() {
        true
    } else if a[i] < b[i] {
        true
    } else if a[i] > b[i] {
        false
    } else {
        lex_le_from(a, b, i + 1)
    }
}

/// Lexicographic `a <= b` on byte strings of equal length.
pub open spec fn lex_le(a: Seq<u8>, b: Seq<u8>) -> bool {
    lex_le_from(a, b, 0)
}

/// The parent of two nodes: the digest of the smaller one followed by the larger one.
pub open spec fn pair_hash(a: Seq<u8>, b: Seq<u8>) -> Seq<u8> {
    if lex_le(a, b) {
        keccak_of(a + b)
    } else {
        keccak_of(b + a)
    }
}

/// The root reached from `leaf` by combining it with each sibling in turn.
pub open spec fn fold_proof(leaf: Seq<u8>, proof: Seq<[u8; 32]>) -> Seq<u8>
    decreases proof.len(),
{
    if proof.len() == 0 {
        leaf
    } else {
        pair_hash(fold_proof(leaf, proof.drop_last()), proof.last()@)
    }
}

/// Whether `proof` leads from `leaf` to `root` within the depth bound.
pub open spec fn proof_accepts(proof: Seq<[u8; 32]>, root: Seq<u8>, leaf: Seq<u8>) -> bool {
    proof.len() <= MAX_PROOF_LEN && fold_proof(leaf, proof) == root
}

proof fn lemma_lex_total(a: Seq<u8>, b: Seq<u8>, i: int)
    requires
        a.len() == b.len(),
        0 <= i,
    ensures
        lex_le_from(a, b, i) || lex_le_from(b, a, i),
    decreases a.len() - i,
{
    if i < a.len() && a[i] == b[i] {
        lemma_lex_total(a, b, i + 1);
    }
}

proof fn lemma_lex_antisymmetric(a: Seq<u8>, b: Seq<u8>, i: int)
    requires
        a.len() == b.len(),
        0 <= i,
        lex_le_from(a, b, i),
        lex_le_from(b, a, i),
    ensures
        forall|j: int| i <= j < a.len() ==> a[j] == b[j],
    decreases a.len() - i,
{
    if i < a.len() {
        lemma_lex_antisymmetric(a, b, i + 1);
    }
}

/// Combining two nodes does not depend on their order.
pub proof fn lemma_pair_hash_commutative(a: Seq<u8>, b: Seq<u8>)
    requires
        a.len() == b.len(),
    ensures
        pair_hash(a, b) == pair_hash(b, a),
{
    lemma_lex_total(a, b, 0);
    if lex_le(a, b) && lex_le(b, a) {
        lemma_lex_antisymmetric(a, b, 0);
        assert(a =~= b);
    }
}

/// A proof built from a tree over an allocation, within the depth bound, is
/// accepted against that tree's root, and refused against any other root.
pub proof fn lemma_built_proof_accepted(
    id: Seq<u8>,
    recipient: Seq<u8>,
    amount: u64,
    proof: Seq<[u8; 32]>,
    root: Seq<u8>,
    other_root: Seq<u8>,
)
    requires
        proof.len() <= MAX_PROOF_LEN,
        fold_proof(leaf_hash(id, recipient, amount), proof) == root,
        other_root != root,
    ensures
        proof_accepts(proof, root, leaf_hash(id, recipient, amount)),
        !proof_accepts(proof, other_root, leaf_hash(id, recipient, amount)),
{
}

/// A proof longer than the depth bound is refused whatever it holds.
pub proof fn lemma_long_proof_refused(proof: Seq<[u8; 32]>, root: Seq<u8>, leaf: Seq<u8>)
    requires
        proof.len() > MAX_PROOF_LEN,
    ensures
        !proof_accepts(proof, root, leaf),
{
}

fn push_array(data: &mut Vec<u8>, bytes: &[u8; 32])
    ensures
        final(data)@ == old(data)@ + bytes@,
{
    let mut i: usize = 0;
    while i < 32
        invariant
            0 <= i <= 32,
            bytes@.len() == 32,
            data@ == old(data)@ + bytes@.subrange(0, i as int),
        decreases 32 - i,
    {
        data.push(bytes[i]);
        assert(bytes@.subrange(0, i + 1) =~= bytes@.subrange(0, i as int).push(bytes@[i as int]));
        i += 1;
    }
    assert(bytes@.subrange(0, 32) =~= bytes@);
}

fn push_domain_tag(data: &mut Vec<u8>)
    ensures
        final(data)@ == old(data)@ + domain_tag(),
{
    data.push(76u8);
    data.push(51u8);
    data.push(51u8);
    data.push(95u8);
    data.push(77u8);
    data.push(69u8);
    data.push(82u8);
    data.push(75u8);
    data.push(76u8);
    data.push(69u8);
    data.push(95u8);
    data.push(86u8);
    data.push(49u8);
    assert(data@ =~= old(data)@ + domain_tag());
}

fn push_le_u64(data: &mut Vec<u8>, v: u64)
    ensures
        final(data)@ == old(data)@ + le_bytes(v),
{
    let mut i: u64 = 0;
    while i < 8
        invariant
            0 <= i <= 8,
            data@ == old(data)@ + le_bytes(v).subrange(0, i as int),
        decreases 8 - i,
    {
        data.push((v >> (8 * i)) as u8);
        assert(le_bytes(v).subrange(0, i + 1) =~= le_bytes(v).subrange(0, i as int).push(
            le_byte(v, i as int),
        ));
        i += 1;
    }
    assert(le_bytes(v).subrange(0, 8) =~= le_bytes(v));
}

/// Computes the leaf of one allocation: the digest of the domain tag, the
/// distribution id, the recipient's key and the amount in little-endian order.
pub fn compute_leaf(distribution_id: &[u8; 32], recipient: &[u8; 32], amount: u64) -> (r: [u8; 32])
    ensures
        r@ == leaf_hash(distribution_id@, recipient@, amount),
{
    let mut data: Vec<u8> = Vec::new();
    push_domain_tag(&mut data);
    push_array(&mut data, distribution_id);
    push_array(&mut data, recipient);
    push_le_u64(&mut data, amount);
    keccak256(data.as_slice())
}

fn bytes_le(a: &[u8; 32], b: &[u8; 32]) -> (r: bool)
    ensures
        r == lex_le(a@, b@),
{
    let mut i: usize = 0;
    while i < 32
        invariant
            0 <= i <= 32,
            a@.len() == 32,
            b@.len() == 32,
            lex_le(a@, b@) == lex_le_from(a@, b@, i as int),
        decreases 32 - i,
    {
        if a[i] < b[i] {
            return true;
        }
        if a[i] > b[i] {
            return false;
        }
        i += 1;
    }
    true
}

/// Whether two 32-byte values are equal.
pub fn bytes_eq(a: &[u8; 32], b: &[u8; 32]) -> (r: bool)
    ensures
        r == (a@ == b@),
{
    let mut i: usize = 0;
    while i < 32
        invariant
            0 <= i <= 32,
            a@.len() == 32,
            b@.len() == 32,
            forall|j: int| 0 <= j < i ==> a@[j] == b@[j],
        decreases 32 - i,
    {
        if a[i] != b[i] {
            return false;
        }
        i += 1;
    }
    assert(a@ =~= b@);
    true
}

/// Combines two nodes into their parent, in an order that does not depend on
/// which of the two is given first.
pub fn hash_pair(a: &[u8; 32], b: &[u8; 32]) -> (r: [u8; 32])
    ensures
        r@ == pair_hash(a@, b@),
{
    let mut data: Vec<u8> = Vec::new();
    if bytes_le(a, b) {
        push_array(&mut data, a);
        push_array(&mut data, b);
    } else {
        push_array(&mut data, b);
        push_array(&mut data, a);
    }
    keccak256(data.as_slice())
}

/// Checks that `proof` leads from `leaf` to `root`; a proof longer than the
/// depth bound is refused before any hashing.
pub fn verify_proof(proof: &[[u8; 32]], root: &[u8; 32], leaf: [u8; 32]) -> (r: bool)
    ensures
        r == proof_accepts(proof@, root@, leaf@),
        proof@.len() > MAX_PROOF_LEN ==> !r,
{
    if proof.len() > MAX_PROOF_LEN {
        return false;
    }
    let mut current = leaf;
    let mut i: usize = 0;
    while i < proof.len()
        invariant
            0 <= i <= proof@.len(),
            current@ == fold_proof(leaf@, proof@.subrange(0, i as int)),
        decreases proof@.len() - i,
    {
        let ghost prefix = proof@.subrange(0, i + 1);
        assert(prefix.drop_last() =~= proof@.subrange(0, i as int));
        current = hash_pair(&current, &proof[i]);
        i += 1;
    }
    assert(proof@.subrange(0, proof@.len() as int) =~= proof@);
    bytes_eq(&current, root)
}

} // verus!
