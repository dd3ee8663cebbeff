//! Merkle-path verification over SHA-256, and the claim leaf a resolver commits to.
use vstd::prelude::*;

use sha2::{Digest, Sha256};

verus! {

/// The SHA-256 digest of a byte string.
pub uninterp spec fn sha256_of(data: Seq<u8>) -> Seq<u8>;

/// Relies on `sha2::Sha256::digest`: the 32-byte SHA-256 digest of `data`,
/// a function of the bytes alone.
#[verifier::external_body]
fn sha256(data: &Vec<u8>) -> (r: [u8; 32])
    ensures
        r@ == sha256_of(data@),
{
    Sha256::digest(data.as_slice()).into()
}

/// The parent of `node` and its `sibling` at position `index` of a level:
/// an even index hashes node then sibling, an odd one sibling then node.
pub open spec fn merkle_parent(node: Seq<u8>, sibling: Seq<u8>, index: nat) -> Seq<u8> {
    if index % 2 == 0 {
        sha256_of(node + sibling)
    } else {
        sha256_of(sibling + node)
    }
}

/// The root reached from `node` at `index` by folding in the siblings of
/// `proof`, leaf level first, halving the index at each level.
pub open spec fn merkle_fold(node: Seq<u8>, proof: Seq<[u8; 32]>, index: nat) -> Seq<u8>
    decreases proof.len(),
{
    if proof.len() == 0 {
        node
    } else {
        merkle_fold(merkle_parent(node, proof[0]@, index), proof.drop_first(), index / 2)
    }
}

fn push_all(buf: &mut Vec<u8>, bytes: &[u8; 32])
    ensures
        final(buf)@ == old(buf)@ + bytes@,
{
    let mut i: usize = 0;
    while i < 32
        invariant
            i <= 32,
            buf@ == old(buf)@ + bytes@.take(i as int),
        decreases 32 - i,
    {
        buf.push(bytes[i]);
        assert(bytes@.take(i + 1) == bytes@.take(i as int).push(bytes@[i as int]));
        i += 1;
    }
    assert(bytes@.take(32) == bytes@);
}

/// Whether two 32-byte strings are equal.
pub fn bytes32_eq(a: &[u8; 32], b: &[u8; 32]) -> (r: bool)
    ensures
        r == (a@ == b@),
{
    let mut i: usize = 0;
    while i < 32
        invariant
            i <= 32,
            forall|j: int| 0 <= j < i ==> a@[j] == b@[j],
        decreases 32 - i,
    {
        if a[i] != b[i] {
            return false;
        }
        i += 1;
    }
    assert(a@ == b@);
    true
}

/// Checks that `proof` leads from `leaf` at `index` to `root`.
pub fn verify_merkle_proof(leaf: &[u8; 32], proof: &[[u8; 32]], root: &[u8; 32], index: u32) -> (r:
    bool)
    ensures
        r == (merkle_fold(leaf@, proof@, index as nat) == root@),
{
    let mut computed: [u8; 32] = *leaf;
    let mut idx: u32 = index;
    let mut i: usize = 0;
    assert(proof@.skip(0) == proof@);
    while i < proof.len()
        invariant
            i <= proof@.len(),
            merkle_fold(leaf@, proof@, index as nat) == merkle_fold(
                computed@,
                proof@.skip(i as int),
                idx as nat,
            ),
        decreases proof@.len() - i,
    {
        let sibling = &proof[i];
        let mut buf: Vec<u8> = Vec::new();
        if idx % 2 == 0 {
            push_all(&mut buf, &computed);
            push_all(&mut buf, sibling);
        } else {
            push_all(&mut buf, sibling);
            push_all(&mut buf, &computed);
        }
        assert(buf@ == if idx % 2 == 0 {
            computed@ + sibling@
        } else {
            sibling@ + computed@
        });
        assert(proof@.skip(i as int).drop_first() == proof@.skip(i + 1));
        assert(proof@.skip(i as int)[0] == proof@[i as int]);
        computed = sha256(&buf);
        idx = idx / 2;
        i += 1;
    }
    assert(proof@.skip(i as int).len() == 0);
    bytes32_eq(&computed, root)
}

/// Domain tag that opens every claim leaf ("IC42N_V2").
pub open spec fn claim_leaf_tag() -> Seq<u8> {
    seq![73u8, 67u8, 52u8, 50u8, 78u8, 95u8, 86u8, 50u8]
}

/// The low `n` bytes of `v`, least significant first.
pub open spec fn le_bytes(v: u64, n: nat) -> Seq<u8> {
    Seq::new(n, |i: int| ((v >> ((8 * i) as u64)) & 0xffu64) as u8)
}

/// The bytes a claim leaf hashes: tag, epoch, tier, index, claimer, amount
/// and selection mask, integers little-endian at their own width.
pub open spec fn claim_leaf_preimage(
    epoch: u64,
    tier: u8,
    index: u32,
    claimer: [u8; 32],
    amount: u64,
    selections_mask: u16,
) -> Seq<u8> {
    claim_leaf_tag() + le_bytes(epoch, 8) + seq![tier] + le_bytes(index as u64, 4) + claimer@
        + le_bytes(amount, 8) + le_bytes(selections_mask as u64, 2)
}

fn push_le(buf: &mut Vec<u8>, v: u64, n: usize)
    requires
        n <= 8,
    ensures
        final(buf)@ == old(buf)@ + le_bytes(v, n as nat),
{
    let mut i: usize = 0;
    while i < n
        invariant
            i <= n <= 8,
            buf@ == old(buf)@ + le_bytes(v, i as nat),
        decreases n - i,
    {
        buf.push(((v >> ((8 * i) as u64)) & 0xffu64) as u8);
        assert(le_bytes(v, (i + 1) as nat) == le_bytes(v, i as nat).push(
            ((v >> ((8 * i) as u64)) & 0xffu64) as u8,
        ));
        i += 1;
    }
}

/// The leaf hash a resolver commits to for one winner.
pub fn claim_leaf_hash(
    epoch: u64,
    tier: u8,
    index: u32,
    claimer: &[u8; 32],
    amount: u64,
    selections_mask: u16,
) -> (r: [u8; 32])
    ensures
        r@ == sha256_of(claim_leaf_preimage(epoch, tier, index, *claimer, amount, selections_mask)),
{
    let mut buf: Vec<u8> = Vec::new();
    buf.push(73u8);
    buf.push(67u8);
    buf.push(52u8);
    buf.push(50u8);
    buf.push(78u8);
    buf.push(95u8);
    buf.push(86u8);
    buf.push(50u8);
    assert(buf@ == claim_leaf_tag());
    push_le(&mut buf, epoch, 8);
    buf.push(tier);
    push_le(&mut buf, index as u64, 4);
    push_all(&mut buf, claimer);
    push_le(&mut buf, amount, 8);
    push_le(&mut buf, selections_mask as u64, 2);
    assert(buf@ == claim_leaf_preimage(epoch, tier, index, *claimer, amount, selections_mask));
    sha256(&buf)
}

} // verus!
