//! Merkle root over 32-byte leaf hashes.
use vstd::prelude::*;
use crate::digest::{sha256, sha256_digest};

verus! {

/// The views of a sequence of 32-byte hashes.
pub open spec fn digests(hashes: Seq<[u8; 32]>) -> Seq<Seq<u8>> {
    hashes.map_values(|h: [u8; 32]| h@)
}

/// Parent node: `SHA-256(left || right)`.
pub open spec fn hash_pair(left: Seq<u8>, right: Seq<u8>) -> Seq<u8> {
    sha256(left + right)
}

/// A level padded to even length by repeating its last node when it is odd.
pub open spec fn padded(level: Seq<Seq<u8>>) -> Seq<Seq<u8>> {
    if level.len() % 2 == 1 {
        level.push(level.last())
    } else {
        level
    }
}

/// The level above `level`: the parents of consecutive pairs of the padded
/// level.
pub open spec fn next_level(level: Seq<Seq<u8>>) -> Seq<Seq<u8>> {
    Seq::new(
        padded(level).len() / 2,
        |i: int| hash_pair(padded(level)[2 * i], padded(level)[2 * i + 1]),
    )
}

/// The root reached from a non-empty level by building levels upward until
/// one node is left. A single node is still hashed once (with itself).
pub open spec fn root_from(level: Seq<Seq<u8>>) -> Seq<u8>
    decreases level.len(),
{
    if level.len() == 0 {
        Seq::empty()
    } else if next_level(level).len() == 1 {
        next_level(level)[0]
    } else {
        root_from(next_level(level))
    }
}

/// Thirty-two zero bytes.
pub open spec fn zero_hash() -> Seq<u8> {
    Seq::new(32, |i: int| 0u8)
}

/// The Merkle root of a list of leaf hashes: 32 zero bytes for no leaves,
/// otherwise the root built level by level.
pub open spec fn merkle_root(leaves: Seq<Seq<u8>>) -> Seq<u8> {
    if leaves.len() == 0 {
        zero_hash()
    } else {
        root_from(leaves)
    }
}

/// `SHA-256(left || right)` of two 32-byte nodes.
fn parent(left: &[u8; 32], right: &[u8; 32]) -> (res: [u8; 32])
    ensures
        res@ == hash_pair(left@, right@),
{
    let mut joined: Vec<u8> = Vec::with_capacity(64);
    for i in 0..32
        invariant
            joined@ == left@.take(i as int),
    {
        joined.push(left[i]);
        assert(left@.take(i + 1) =~= left@.take(i as int).push(left@[i as int]));
    }
    for i in 0..32
        invariant
            joined@ == left@ + right@.take(i as int),
    {
        joined.push(right[i]);
        assert(right@.take(i + 1) =~= right@.take(i as int).push(right@[i as int]));
    }
    assert(left@.take(32) =~= left@);
    assert(right@.take(32) =~= right@);
    sha256_digest(joined.as_slice())
}

/// Compute the Merkle root of a set of leaf hashes.
///
/// - Empty input returns `[0u8; 32]`.
/// - Odd-length levels duplicate the last node before hashing.
/// - Parent nodes are `SHA-256(left || right)`.
pub fn compute_merkle_root(leaves: &[[u8; 32]]) -> (res: [u8; 32])
    ensures
        res@ == merkle_root(digests(leaves@)),
{
    if leaves.len() == 0 {
        let zero = [0u8; 32];
        assert(zero@ =~= zero_hash());
        return zero;
    }
    let mut current: Vec<[u8; 32]> = Vec::new();
    for i in 0..leaves.len()
        invariant
            current@ == leaves@.take(i as int),
    {
        current.push(leaves[i]);
        assert(leaves@.take(i + 1) =~= leaves@.take(i as int).push(leaves@[i as int]));
    }
    assert(leaves@.take(leaves@.len() as int) =~= leaves@);
    loop
        invariant_except_break
            current@.len() >= 1,
            root_from(digests(current@)) == root_from(digests(leaves@)),
        ensures
            current@.len() == 1,
            current@[0]@ == root_from(digests(leaves@)),
        decreases current@.len(),
    {
        let ghost level = digests(current@);
        if current.len() % 2 == 1 {
            let last = current[current.len() - 1];
            current.push(last);
        }
        assert(digests(current@) =~= padded(level));
        let len = current.len();
        let half = len / 2;
        let mut next: Vec<[u8; 32]> = Vec::with_capacity(half);
        for i in 0..half
            invariant
                len == current@.len(),
                half == len / 2,
                digests(current@) == padded(level),
                next@.len() == i,
                forall|k: int|
                    0 <= k < i ==> (#[trigger] next@[k])@ == hash_pair(
                        padded(level)[2 * k],
                        padded(level)[2 * k + 1],
                    ),
        {
            assert(2 * i + 1 < current@.len());
            let node = parent(&current[2 * i], &current[2 * i + 1]);
            next.push(node);
        }
        assert(digests(next@) =~= next_level(level));
        assert(level.len() > 0);
        current = next;
        if current.len() == 1 {
            break;
        }
    }
    current[0]
}

/// One leaf: the root is the leaf hashed with itself.
pub proof fn merkle_root_single_leaf(leaf: Seq<u8>)
    ensures
        merkle_root(seq![leaf]) == sha256(leaf + leaf),
{
    let level = seq![leaf];
    assert(padded(level) =~= seq![leaf, leaf]);
    assert(next_level(level).len() == 1);
}

/// Two leaves: the root is their parent.
pub proof fn merkle_root_two_leaves(a: Seq<u8>, b: Seq<u8>)
    ensures
        merkle_root(seq![a, b]) == sha256(a + b),
{
    let level = seq![a, b];
    assert(padded(level) =~= level);
    assert(next_level(level).len() == 1);
}

/// Pairing law: a level of four or more leaves, of even length, has the same
/// root as the level of its parents, where parent `i` is SHA-256 of leaf
/// `2i` followed by leaf `2i + 1`.
pub proof fn merkle_root_pairs_in_order(leaves: Seq<Seq<u8>>)
    requires
        leaves.len() >= 4,
        leaves.len() % 2 == 0,
    ensures
        merkle_root(leaves) == merkle_root(
            Seq::new(leaves.len() / 2, |i: int| sha256(leaves[2 * i] + leaves[2 * i + 1])),
        ),
{
    let parents = Seq::new(leaves.len() / 2, |i: int| sha256(leaves[2 * i] + leaves[2 * i + 1]));
    assert(padded(leaves) == leaves);
    assert(next_level(leaves) =~= parents);
}

/// Odd levels: a level of odd length has the same root as the level with its
/// last leaf repeated.
pub proof fn merkle_root_repeats_last(leaves: Seq<Seq<u8>>)
    requires
        leaves.len() % 2 == 1,
    ensures
        merkle_root(leaves) == merkle_root(leaves.push(leaves.last())),
{
    let longer = leaves.push(leaves.last());
    assert(padded(leaves) == longer);
    assert(padded(longer) == longer);
    assert(next_level(leaves) =~= next_level(longer));
}

/// Four leaves: the root is the parent of the two pairs, each hashed left
/// then right.
pub proof fn merkle_root_four_leaves(a: Seq<u8>, b: Seq<u8>, c: Seq<u8>, d: Seq<u8>)
    ensures
        merkle_root(seq![a, b, c, d]) == sha256(sha256(a + b) + sha256(c + d)),
{
    let leaves = seq![a, b, c, d];
    merkle_root_pairs_in_order(leaves);
    let parents = Seq::new(2, |i: int| sha256(leaves[2 * i] + leaves[2 * i + 1]));
    assert(parents =~= seq![sha256(a + b), sha256(c + d)]);
    merkle_root_two_leaves(sha256(a + b), sha256(c + d));
}

} // verus!
