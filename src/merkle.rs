//! Merkle authentication of block fragments: a fragment's signature covers the
//! root of a Merkle tree over its erasure set, recomputed from the fragment's
//! own leaf and the proof it carries.
use vstd::prelude::*;
use crate::crypto::{concat, hashv_pair, sha256_of};
use crate::shred::{DataShredHeader, ShredCommonHeader};
use crate::layout::{self, le_u32, SIZE_OF_SIGNATURE, OFFSET_OF_FEC_SET_INDEX, OFFSET_OF_SHRED_INDEX};

verus! {

pub const SIZE_OF_MERKLE_PROOF_ENTRY: usize = 20;

pub const SIZE_OF_HEADERS: usize = 88;

/// Largest datagram payload: 1280 (IPv6 minimum MTU) - 40 (IPv6 header) - 8 (UDP header).
pub const PACKET_DATA_SIZE: usize = 1232;

pub const SIZE_OF_NONCE: usize = 4;

/// Size of a Merkle fragment payload.
pub const SIZE_OF_MERKLE_PAYLOAD: usize = 1204;

pub const SIZE_OF_MERKLE_ROOT: usize = 32;

pub struct ShredData {
    pub common_header: ShredCommonHeader,
    pub data_header: DataShredHeader,
    pub payload: Vec<u8>,
}

pub struct ShredCode {
    pub common_header: ShredCommonHeader,
    pub data_header: DataShredHeader,
    pub payload: Vec<u8>,
}

/// A Merkle-authenticated fragment.
pub enum Shred {
    ShredCode(ShredCode),
    ShredData(ShredData),
}

/// Why a Merkle root could not be computed.
#[derive(PartialEq, Eq, Structural, Debug, Clone, Copy)]
pub enum MerkleRootErrors {
    InvalidMerkleProof,
    InvalidProofSize,
    InvalidPayloadSize,
}

/// Domain prefix of an inner node hash: `"\x01SOLANA_MERKLE_SHREDS_NODE"`.
pub open spec fn node_prefix() -> Seq<u8> {
    seq![0x01u8, 0x53, 0x4f, 0x4c, 0x41, 0x4e, 0x41, 0x5f, 0x4d, 0x45, 0x52, 0x4b, 0x4c, 0x45, 0x5f, 0x53, 0x48, 0x52, 0x45, 0x44, 0x53, 0x5f, 0x4e, 0x4f, 0x44, 0x45]
}

/// Domain prefix of a leaf hash: `"\x00SOLANA_MERKLE_SHREDS_LEAF"`.
pub open spec fn leaf_prefix() -> Seq<u8> {
    seq![0x00u8, 0x53, 0x4f, 0x4c, 0x41, 0x4e, 0x41, 0x5f, 0x4d, 0x45, 0x52, 0x4b, 0x4c, 0x45, 0x5f, 0x53, 0x48, 0x52, 0x45, 0x44, 0x53, 0x5f, 0x4c, 0x45, 0x41, 0x46]
}

fn node_prefix_bytes() -> (r: Vec<u8>)
    ensures
        r@ == node_prefix(),
{
    let r: Vec<u8> = vec![0x01u8, 0x53, 0x4f, 0x4c, 0x41, 0x4e, 0x41, 0x5f, 0x4d, 0x45, 0x52, 0x4b, 0x4c, 0x45, 0x5f, 0x53, 0x48, 0x52, 0x45, 0x44, 0x53, 0x5f, 0x4e, 0x4f, 0x44, 0x45];
    assert(r@ =~= node_prefix());
    r
}

fn leaf_prefix_bytes() -> (r: Vec<u8>)
    ensures
        r@ == leaf_prefix(),
{
    let r: Vec<u8> = vec![0x00u8, 0x53, 0x4f, 0x4c, 0x41, 0x4e, 0x41, 0x5f, 0x4d, 0x45, 0x52, 0x4b, 0x4c, 0x45, 0x5f, 0x53, 0x48, 0x52, 0x45, 0x44, 0x53, 0x5f, 0x4c, 0x45, 0x41, 0x46];
    assert(r@ =~= leaf_prefix());
    r
}

/// Hash of an inner node from its two children, each cut to a proof entry.
pub open spec fn join_spec(node: Seq<u8>, other: Seq<u8>) -> Seq<u8> {
    sha256_of(node_prefix() + node.take(20) + other.take(20))
}

/// Walks a proof upward from a leaf: the final index and the final node.
pub open spec fn fold_proof(index: nat, node: Seq<u8>, proof: Seq<Seq<u8>>) -> (nat, Seq<u8>)
    decreases proof.len(),
{
    if proof.len() == 0 {
        (index, node)
    } else {
        let parent = if index % 2 == 0 {
            join_spec(node, proof[0])
        } else {
            join_spec(proof[0], node)
        };
        fold_proof(index / 2, parent, proof.drop_first())
    }
}

/// The root that a proof leads to, if the proof consumes the whole index.
pub open spec fn merkle_root_spec(index: nat, node: Seq<u8>, proof: Seq<Seq<u8>>) -> Option<Seq<u8>> {
    let (i, root) = fold_proof(index, node, proof);
    if i == 0 {
        Some(root)
    } else {
        None
    }
}

pub open spec fn views(proof: Seq<Vec<u8>>) -> Seq<Seq<u8>> {
    proof.map_values(|e: Vec<u8>| e@)
}

/// Inner node hash of two children, each at least a proof entry long.
pub fn join_nodes(node: &[u8], other: &[u8]) -> (r: Vec<u8>)
    requires
        node@.len() >= SIZE_OF_MERKLE_PROOF_ENTRY,
        other@.len() >= SIZE_OF_MERKLE_PROOF_ENTRY,
    ensures
        r@ == join_spec(node@, other@),
        r@.len() == 32,
{
    let prefix = node_prefix_bytes();
    let head = concat(prefix.as_slice(), &node[0..SIZE_OF_MERKLE_PROOF_ENTRY]);
    assert(node@.subrange(0, 20) =~= node@.take(20));
    assert(other@.subrange(0, 20) =~= other@.take(20));
    hashv_pair(head.as_slice(), &other[0..SIZE_OF_MERKLE_PROOF_ENTRY])
}

/// Recomputes the Merkle root from a leaf at `index` and its proof.
pub fn get_merkle_root(index: usize, node: Vec<u8>, proof: &Vec<Vec<u8>>) -> (r: Result<Vec<u8>, MerkleRootErrors>)
    requires
        node@.len() >= SIZE_OF_MERKLE_PROOF_ENTRY,
        forall|i: int| 0 <= i < proof@.len() ==> (#[trigger] proof@[i])@.len() >= SIZE_OF_MERKLE_PROOF_ENTRY,
    ensures
        match merkle_root_spec(index as nat, node@, views(proof@)) {
            Some(root) => r matches Ok(v) && v@ == root,
            None => r == Err::<Vec<u8>, MerkleRootErrors>(MerkleRootErrors::InvalidMerkleProof),
        },
{
    let mut index = index;
    let mut node = node;
    let mut k: usize = 0;
    let ghost all = views(proof@);
    let ghost start = fold_proof(index as nat, node@, all);
    assert(all.subrange(0, all.len() as int) =~= all);
    while k < proof.len()
        invariant
            0 <= k <= proof@.len(),
            all == views(proof@),
            node@.len() >= SIZE_OF_MERKLE_PROOF_ENTRY,
            forall|i: int| 0 <= i < proof@.len() ==> (#[trigger] proof@[i])@.len() >= SIZE_OF_MERKLE_PROOF_ENTRY,
            fold_proof(index as nat, node@, all.subrange(k as int, all.len() as int))
                == start,
        decreases proof@.len() - k,
    {
        let other = &proof[k];
        let parent = if index % 2 == 0 {
            join_nodes(node.as_slice(), other.as_slice())
        } else {
            join_nodes(other.as_slice(), node.as_slice())
        };
        proof {
            let rest = all.subrange(k as int, all.len() as int);
            assert(rest[0] == other@);
            assert(rest.drop_first() =~= all.subrange(k + 1, all.len() as int));
        }
        index = index / 2;
        node = parent;
        k = k + 1;
    }
    assert(all.subrange(k as int, all.len() as int) =~= Seq::<Seq<u8>>::empty());
    if index == 0 {
        Ok(node)
    } else {
        Err(MerkleRootErrors::InvalidMerkleProof)
    }
}

/// Bytes left for data once headers, chained root, proof and retransmitter
/// signature are taken out of a Merkle payload (may be negative).
pub open spec fn capacity_spec(proof_size: u8, chained: bool, resigned: bool) -> int {
    SIZE_OF_MERKLE_PAYLOAD - (SIZE_OF_HEADERS
        + (if chained { SIZE_OF_MERKLE_ROOT as int } else { 0 })
        + proof_size * SIZE_OF_MERKLE_PROOF_ENTRY
        + (if resigned { SIZE_OF_SIGNATURE as int } else { 0 }))
}

/// Data capacity of a Merkle fragment; an error where the proof does not fit.
pub fn capacity(proof_size: u8, chained: bool, resigned: bool) -> (r: Result<usize, MerkleRootErrors>)
    ensures
        capacity_spec(proof_size, chained, resigned) >= 0 ==> r == Ok::<usize, MerkleRootErrors>(capacity_spec(proof_size, chained, resigned) as usize),
        capacity_spec(proof_size, chained, resigned) < 0 ==> r == Err::<usize, MerkleRootErrors>(MerkleRootErrors::InvalidProofSize),
{
    let used: usize = SIZE_OF_HEADERS
        + (if chained { SIZE_OF_MERKLE_ROOT } else { 0 })
        + (proof_size as usize) * SIZE_OF_MERKLE_PROOF_ENTRY
        + (if resigned { SIZE_OF_SIGNATURE } else { 0 });
    match SIZE_OF_MERKLE_PAYLOAD.checked_sub(used) {
        Some(c) => Ok(c),
        None => Err(MerkleRootErrors::InvalidProofSize),
    }
}

/// Where the Merkle proof starts in a fragment: after headers, data and the
/// chained root.
pub open spec fn proof_offset_spec(proof_size: u8, chained: bool, resigned: bool) -> int {
    SIZE_OF_HEADERS + capacity_spec(proof_size, chained, resigned)
        + (if chained { SIZE_OF_MERKLE_ROOT as int } else { 0 })
}

/// Offset of the Merkle proof; an error where the proof does not fit.
pub fn get_proof_offset(proof_size: u8, chained: bool, resigned: bool) -> (r: Result<usize, MerkleRootErrors>)
    ensures
        capacity_spec(proof_size, chained, resigned) >= 0 ==> r == Ok::<usize, MerkleRootErrors>(proof_offset_spec(proof_size, chained, resigned) as usize),
        capacity_spec(proof_size, chained, resigned) < 0 ==> r == Err::<usize, MerkleRootErrors>(MerkleRootErrors::InvalidProofSize),
{
    let c = capacity(proof_size, chained, resigned)?;
    Ok(SIZE_OF_HEADERS + c + if chained { SIZE_OF_MERKLE_ROOT } else { 0 })
}

/// The proof entries stored at `proof_offset`: `proof_size` entries of 20
/// bytes each, if they lie within the fragment.
pub fn get_merkle_proof(shred: &[u8], proof_offset: usize, proof_size: u8) -> (r: Result<Vec<Vec<u8>>, MerkleRootErrors>)
    ensures
        proof_offset + proof_size * SIZE_OF_MERKLE_PROOF_ENTRY <= shred@.len() ==> (r matches Ok(p) && p@.len() == proof_size
            && forall|i: int| 0 <= i < proof_size ==> (#[trigger] p@[i])@ == shred@.subrange(
                proof_offset + i * 20,
                proof_offset + i * 20 + 20,
            )),
        proof_offset + proof_size * SIZE_OF_MERKLE_PROOF_ENTRY > shred@.len() ==> r == Err::<Vec<Vec<u8>>, MerkleRootErrors>(MerkleRootErrors::InvalidPayloadSize),
{
    let size: usize = (proof_size as usize) * SIZE_OF_MERKLE_PROOF_ENTRY;
    if proof_offset > shred.len() || shred.len() - proof_offset < size {
        return Err(MerkleRootErrors::InvalidPayloadSize);
    }
    let mut entries: Vec<Vec<u8>> = Vec::new();
    let mut i: usize = 0;
    let n: usize = shred.len();
    while i < proof_size as usize
        invariant
            n == shred@.len(),
            0 <= i <= proof_size,
            proof_offset + proof_size * 20 <= shred@.len(),
            entries@.len() == i,
            forall|j: int| 0 <= j < i ==> (#[trigger] entries@[j])@ == shred@.subrange(
                proof_offset + j * 20,
                proof_offset + j * 20 + 20,
            ),
        decreases proof_size - i,
    {
        assert(i * 20 + 20 <= proof_size * 20) by (nonlinear_arith)
            requires
                i < proof_size,
        ;
        let start: usize = proof_offset + i * SIZE_OF_MERKLE_PROOF_ENTRY;
        let entry = vstd::slice::slice_to_vec(&shred[start..start + SIZE_OF_MERKLE_PROOF_ENTRY]);
        entries.push(entry);
        i = i + 1;
    }
    Ok(entries)
}

/// Hash of the leaf that covers `shred[start..end]`.
pub fn get_merkle_node(shred: &[u8], start: usize, end: usize) -> (r: Result<Vec<u8>, MerkleRootErrors>)
    ensures
        start <= end <= shred@.len() ==> (r matches Ok(v)
            && v@ == sha256_of(leaf_prefix() + shred@.subrange(start as int, end as int))
            && v@.len() == 32),
        !(start <= end <= shred@.len()) ==> r == Err::<Vec<u8>, MerkleRootErrors>(MerkleRootErrors::InvalidPayloadSize),
{
    if start > end || end > shred.len() {
        return Err(MerkleRootErrors::InvalidPayloadSize);
    }
    let prefix = leaf_prefix_bytes();
    Ok(hashv_pair(prefix.as_slice(), &shred[start..end]))
}

/// The proof entries that a fragment carries at `offset`.
pub open spec fn proof_entries(shred: Seq<u8>, offset: int, proof_size: u8) -> Seq<Seq<u8>> {
    Seq::new(proof_size as nat, |i: int| shred.subrange(offset + i * 20, offset + i * 20 + 20))
}

/// The Merkle root that a fragment of the given variant parameters leads to.
pub open spec fn merkle_root_from_shred_spec(shred: Seq<u8>, proof_size: u8, chained: bool, resigned: bool) -> Option<Seq<u8>> {
    let off = proof_offset_spec(proof_size, chained, resigned);
    if !(OFFSET_OF_SHRED_INDEX + 4 <= shred.len() && OFFSET_OF_FEC_SET_INDEX + 4 <= shred.len()) {
        None
    } else {
        let index = le_u32(shred.subrange(OFFSET_OF_SHRED_INDEX as int, OFFSET_OF_SHRED_INDEX + 4));
        let fec_set_index = le_u32(shred.subrange(OFFSET_OF_FEC_SET_INDEX as int, OFFSET_OF_FEC_SET_INDEX + 4));
        if index < fec_set_index || capacity_spec(proof_size, chained, resigned) < 0
            || off + proof_size * 20 > shred.len() || off < SIZE_OF_SIGNATURE {
            None
        } else {
            merkle_root_spec(
                (index - fec_set_index) as nat,
                sha256_of(leaf_prefix() + shred.subrange(SIZE_OF_SIGNATURE as int, off)),
                proof_entries(shred, off, proof_size),
            )
        }
    }
}

/// Recomputes the Merkle root of a fragment from its index within the
/// erasure set, its leaf and its proof.
pub fn get_merkle_root_from_shred(shred: &[u8], proof_size: u8, chained: bool, resigned: bool) -> (r: Option<Vec<u8>>)
    ensures
        match merkle_root_from_shred_spec(shred@, proof_size, chained, resigned) {
            Some(root) => r matches Some(v) && v@ == root,
            None => r is None,
        },
{
    let fec_set_index = layout::read_u32_le(shred, OFFSET_OF_FEC_SET_INDEX)?;
    let shred_index = layout::get_index(shred)?;
    let index: usize = match shred_index.checked_sub(fec_set_index) {
        Some(i) => i as usize,
        None => return None,
    };
    let proof_offset = match get_proof_offset(proof_size, chained, resigned) {
        Ok(off) => off,
        Err(_) => return None,
    };
    let proof = match get_merkle_proof(shred, proof_offset, proof_size) {
        Ok(p) => p,
        Err(_) => return None,
    };
    let node = match get_merkle_node(shred, SIZE_OF_SIGNATURE, proof_offset) {
        Ok(n) => n,
        Err(_) => return None,
    };
    assert(views(proof@) =~= proof_entries(shred@, proof_offset as int, proof_size));
    match get_merkle_root(index, node, &proof) {
        Ok(root) => Some(root),
        Err(_) => None,
    }
}

} // verus!
