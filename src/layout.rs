//! Field access on the wire layout of a block fragment.
use vstd::prelude::*;
use crate::merkle;
use crate::shred::{ShredVariant, variant_of_byte};

verus! {

pub const SIZE_OF_SIGNATURE: usize = 64;

pub const OFFSET_OF_SHRED_VARIANT: usize = 64;

pub const OFFSET_OF_SHRED_SLOT: usize = 65;

pub const SIZE_OF_SHRED_SLOT: usize = 8;

pub const OFFSET_OF_SHRED_INDEX: usize = 73;

pub const OFFSET_OF_FEC_SET_INDEX: usize = 79;

/// Size of a legacy fragment payload; a legacy signature covers bytes
/// `SIZE_OF_SIGNATURE..SIZE_OF_PAYLOAD`.
pub const SIZE_OF_PAYLOAD: usize = 1228;

/// Little-endian value of four bytes.
pub open spec fn le_u32(b: Seq<u8>) -> int {
    b[0] + 0x100 * b[1] + 0x1_0000 * b[2] + 0x100_0000 * b[3]
}

/// Little-endian value of eight bytes.
pub open spec fn le_u64(b: Seq<u8>) -> int {
    le_u32(b) + 0x1_0000_0000 * le_u32(b.subrange(4, 8))
}

/// Reads a little-endian `u32` at `offset`.
pub fn read_u32_le(shred: &[u8], offset: usize) -> (r: Option<u32>)
    ensures
        r == (if offset + 4 <= shred@.len() {
            Some(le_u32(shred@.subrange(offset as int, offset + 4)) as u32)
        } else {
            None::<u32>
        }),
{
    if offset > shred.len() || shred.len() - offset < 4 {
        return None;
    }
    let b0 = shred[offset] as u32;
    let b1 = shred[offset + 1] as u32;
    let b2 = shred[offset + 2] as u32;
    let b3 = shred[offset + 3] as u32;
    let v: u32 = b0 + b1 * 0x100 + b2 * 0x1_0000 + b3 * 0x100_0000;
    Some(v)
}

/// Reads a little-endian `u64` at `offset`.
pub fn read_u64_le(shred: &[u8], offset: usize) -> (r: Option<u64>)
    ensures
        r == (if offset + 8 <= shred@.len() {
            Some(le_u64(shred@.subrange(offset as int, offset + 8)) as u64)
        } else {
            None::<u64>
        }),
{
    if offset > shred.len() || shred.len() - offset < 8 {
        return None;
    }
    let lo = read_u32_le(shred, offset).unwrap() as u64;
    let hi = read_u32_le(shred, offset + 4).unwrap() as u64;
    let ghost s = shred@.subrange(offset as int, offset + 8);
    assert(s.subrange(4, 8) =~= shred@.subrange(offset + 4, offset + 8));
    assert(s.subrange(0, 4) =~= shred@.subrange(offset as int, offset + 4));
    assert(le_u32(s) == le_u32(s.subrange(0, 4)));
    Some(lo + hi * 0x1_0000_0000)
}

/// The slot number of a fragment (bytes 65..73), if the fragment is long enough.
pub fn get_slot(shred: &[u8]) -> (r: Option<u64>)
    ensures
        r == (if OFFSET_OF_SHRED_SLOT + 8 <= shred@.len() {
            Some(le_u64(shred@.subrange(OFFSET_OF_SHRED_SLOT as int, OFFSET_OF_SHRED_SLOT + 8)) as u64)
        } else {
            None::<u64>
        }),
{
    read_u64_le(shred, OFFSET_OF_SHRED_SLOT)
}

/// The index of a fragment within its slot (bytes 73..77).
pub fn get_index(shred: &[u8]) -> (r: Option<u32>)
    ensures
        r == (if OFFSET_OF_SHRED_INDEX + 4 <= shred@.len() {
            Some(le_u32(shred@.subrange(OFFSET_OF_SHRED_INDEX as int, OFFSET_OF_SHRED_INDEX + 4)) as u32)
        } else {
            None::<u32>
        }),
{
    read_u32_le(shred, OFFSET_OF_SHRED_INDEX)
}

/// The producer's signature: the first 64 bytes.
pub fn get_signature(shred: &[u8]) -> (r: Option<Vec<u8>>)
    ensures
        match r {
            Some(sig) => SIZE_OF_SIGNATURE <= shred@.len() && sig@ == shred@.subrange(0, SIZE_OF_SIGNATURE as int),
            None => shred@.len() < SIZE_OF_SIGNATURE,
        },
{
    if shred.len() < SIZE_OF_SIGNATURE {
        return None;
    }
    Some(vstd::slice::slice_to_vec(&shred[0..SIZE_OF_SIGNATURE]))
}

/// The variant that byte 64 of a fragment encodes.
pub open spec fn shred_variant_spec(shred: Seq<u8>) -> Option<ShredVariant> {
    if OFFSET_OF_SHRED_VARIANT < shred.len() {
        variant_of_byte(shred[OFFSET_OF_SHRED_VARIANT as int])
    } else {
        None
    }
}

/// Decodes the variant byte of a fragment.
pub fn get_shred_variant(shred: &[u8]) -> (r: Option<ShredVariant>)
    ensures
        r == shred_variant_spec(shred@),
{
    if shred.len() <= OFFSET_OF_SHRED_VARIANT {
        return None;
    }
    match ShredVariant::from_u8(shred[OFFSET_OF_SHRED_VARIANT]) {
        Ok(variant) => Some(variant),
        Err(_) => None,
    }
}

/// What a fragment's signature covers: for legacy fragments the payload past
/// the signature, for Merkle fragments the root of the Merkle tree.
pub enum SignedData {
    Chunk(Vec<u8>),
    MerkleRoot(Vec<u8>),
}

impl SignedData {
    /// The signed bytes.
    pub fn as_ref(&self) -> (r: &Vec<u8>)
        ensures
            r == match self {
                SignedData::Chunk(c) => c,
                SignedData::MerkleRoot(m) => m,
            },
    {
        match self {
            SignedData::Chunk(c) => c,
            SignedData::MerkleRoot(m) => m,
        }
    }
}

/// The bytes that a fragment's signature covers, if its variant is known and
/// its layout holds.
pub open spec fn signed_data_spec(shred: Seq<u8>) -> Option<Seq<u8>> {
    match shred_variant_spec(shred) {
        Some(ShredVariant::LegacyCode) | Some(ShredVariant::LegacyData) => {
            if SIZE_OF_PAYLOAD <= shred.len() {
                Some(shred.subrange(SIZE_OF_SIGNATURE as int, SIZE_OF_PAYLOAD as int))
            } else {
                None
            }
        },
        Some(ShredVariant::MerkleCode { proof_size, chained, resigned })
        | Some(ShredVariant::MerkleData { proof_size, chained, resigned }) => {
            merkle::merkle_root_from_shred_spec(shred, proof_size, chained, resigned)
        },
        None => None,
    }
}

/// The data that a fragment's signature covers.
pub fn get_signed_data(shred: &[u8]) -> (r: Option<SignedData>)
    ensures
        match signed_data_spec(shred@) {
            Some(d) => match r {
                Some(SignedData::Chunk(c)) => c@ == d && shred_variant_spec(shred@) matches Some(
                    ShredVariant::LegacyCode
                    | ShredVariant::LegacyData,
                ),
                Some(SignedData::MerkleRoot(m)) => m@ == d && !(shred_variant_spec(shred@) matches Some(
                    ShredVariant::LegacyCode
                    | ShredVariant::LegacyData,
                )),
                None => false,
            },
            None => r is None,
        },
{
    let shred_variant = get_shred_variant(shred)?;
    match shred_variant {
        ShredVariant::LegacyCode | ShredVariant::LegacyData => {
            if shred.len() < SIZE_OF_PAYLOAD {
                return None;
            }
            Some(SignedData::Chunk(vstd::slice::slice_to_vec(&shred[SIZE_OF_SIGNATURE..SIZE_OF_PAYLOAD])))
        },
        ShredVariant::MerkleCode { proof_size, chained, resigned }
        | ShredVariant::MerkleData { proof_size, chained, resigned } => {
            let root = merkle::get_merkle_root_from_shred(shred, proof_size, chained, resigned)?;
            Some(SignedData::MerkleRoot(root))
        },
    }
}

} // verus!
