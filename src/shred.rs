use vstd::prelude::*;
use crate::crypto::{hashv_pair, sha256_of};
use crate::encoding::{le_bytes, push_le};

verus! {

/// Which half of an erasure set a block fragment belongs to.
/// On the wire a data fragment is tagged `0b1010_0101` and a coding fragment
/// `0b0101_1010`.
#[derive(PartialEq, Eq, Structural, Debug, Clone, Copy, Hash)]
pub enum ShredType {
    Data,
    Code,
}

pub const SHRED_TYPE_DATA_TAG: u8 = 0b1010_0101;

pub const SHRED_TYPE_CODE_TAG: u8 = 0b0101_1010;

pub open spec fn shred_type_tag(t: ShredType) -> u8 {
    match t {
        ShredType::Data => SHRED_TYPE_DATA_TAG,
        ShredType::Code => SHRED_TYPE_CODE_TAG,
    }
}

impl ShredType {
    /// The byte that tags this type on the wire.
    pub fn to_u8(self) -> (r: u8)
        ensures
            r == shred_type_tag(self),
    {
        match self {
            ShredType::Data => SHRED_TYPE_DATA_TAG,
            ShredType::Code => SHRED_TYPE_CODE_TAG,
        }
    }

    /// The type that a wire byte tags, if any.
    pub fn try_from_u8(b: u8) -> (r: Option<ShredType>)
        ensures
            r == (if b == SHRED_TYPE_DATA_TAG {
                Some(ShredType::Data)
            } else if b == SHRED_TYPE_CODE_TAG {
                Some(ShredType::Code)
            } else {
                None
            }),
            r matches Some(t) ==> shred_type_tag(t) == b,
    {
        if b == SHRED_TYPE_DATA_TAG {
            Some(ShredType::Data)
        } else if b == SHRED_TYPE_CODE_TAG {
            Some(ShredType::Code)
        } else {
            None
        }
    }
}

/// The fragment variant byte: fragment type and authentication scheme.
/// Merkle variants carry the number of proof entries in their low four bits.
#[derive(PartialEq, Eq, Structural, Debug, Clone, Copy)]
pub enum ShredVariant {
    LegacyCode,
    LegacyData,
    MerkleCode { proof_size: u8, chained: bool, resigned: bool },
    MerkleData { proof_size: u8, chained: bool, resigned: bool },
}

pub const LEGACY_CODE_TAG: u8 = 0b0101_1010;

pub const LEGACY_DATA_TAG: u8 = 0b1010_0101;

/// The variant that a variant byte encodes, by its high and low four bits.
pub open spec fn variant_of_byte(b: u8) -> Option<ShredVariant> {
    let high = b / 16;
    let proof_size = (b % 16) as u8;
    if b == LEGACY_CODE_TAG {
        Some(ShredVariant::LegacyCode)
    } else if b == LEGACY_DATA_TAG {
        Some(ShredVariant::LegacyData)
    } else if high == 0x4 {
        Some(ShredVariant::MerkleCode { proof_size, chained: false, resigned: false })
    } else if high == 0x6 {
        Some(ShredVariant::MerkleCode { proof_size, chained: true, resigned: false })
    } else if high == 0x7 {
        Some(ShredVariant::MerkleCode { proof_size, chained: true, resigned: true })
    } else if high == 0x8 {
        Some(ShredVariant::MerkleData { proof_size, chained: false, resigned: false })
    } else if high == 0x9 {
        Some(ShredVariant::MerkleData { proof_size, chained: true, resigned: false })
    } else if high == 0xb {
        Some(ShredVariant::MerkleData { proof_size, chained: true, resigned: true })
    } else {
        None
    }
}

impl ShredVariant {
    /// Decodes a variant byte; bytes that name no variant are an error.
    pub fn from_u8(bytes: u8) -> (r: Result<ShredVariant, ()>)
        ensures
            r == (match variant_of_byte(bytes) {
                Some(v) => Ok(v),
                None => Err(()),
            }),
    {
        let high: u8 = bytes / 16;
        let proof_size: u8 = bytes % 16;
        if bytes == LEGACY_CODE_TAG {
            Ok(ShredVariant::LegacyCode)
        } else if bytes == LEGACY_DATA_TAG {
            Ok(ShredVariant::LegacyData)
        } else if high == 0x4 {
            Ok(ShredVariant::MerkleCode { proof_size, chained: false, resigned: false })
        } else if high == 0x6 {
            Ok(ShredVariant::MerkleCode { proof_size, chained: true, resigned: false })
        } else if high == 0x7 {
            Ok(ShredVariant::MerkleCode { proof_size, chained: true, resigned: true })
        } else if high == 0x8 {
            Ok(ShredVariant::MerkleData { proof_size, chained: false, resigned: false })
        } else if high == 0x9 {
            Ok(ShredVariant::MerkleData { proof_size, chained: true, resigned: false })
        } else if high == 0xb {
            Ok(ShredVariant::MerkleData { proof_size, chained: true, resigned: true })
        } else {
            Err(())
        }
    }
}

/// Header fields shared by every fragment (83 bytes on the wire).
pub struct ShredCommonHeader {
    pub signature: Vec<u8>,
    pub shred_variant: ShredVariant,
    pub slot: u64,
    pub shred_index: u32,
    pub shred_version: u16,
    pub fec_set_index: u32,
}

/// Header of a data fragment.
pub struct DataShredHeader {
    pub parent_offset: u16,
    pub data_flags: u8,
    pub size: u16,
}

/// Header of a coding fragment.
pub struct CodingShredHeader {
    pub num_data_shreds: u16,
    pub num_coding_shreds: u16,
    pub position: u16,
}

/// Lower six bits of the data flags: reference tick.
pub const SHRED_TICK_REFERENCE_MASK: u8 = 0b0011_1111;

/// Data flag: the fragment completes a data block.
pub const DATA_COMPLETE_SHRED: u8 = 0b0100_0000;

/// Data flag: the fragment is the last of its slot (implies data-complete).
pub const LAST_SHRED_IN_SLOT: u8 = 0b1100_0000;

/// Identifies a fragment: slot, index within the slot, and type.
pub struct ShredId(pub u64, pub u32, pub ShredType);

impl ShredId {
    pub fn new(slot: u64, shred_index: u32, shred_type: ShredType) -> (r: ShredId)
        ensures
            r == ShredId(slot, shred_index, shred_type),
    {
        ShredId(slot, shred_index, shred_type)
    }

    pub fn slot(&self) -> (r: u64)
        ensures
            r == self.0,
    {
        self.0
    }

    pub fn unpack(&self) -> (r: (u64, u32, ShredType))
        ensures
            r == (self.0, self.1, self.2),
    {
        (self.0, self.1, self.2)
    }

    /// The bytes hashed into a fragment's seed: slot, type tag and index
    /// (little-endian) and the leader's identity.
    pub open spec fn seed_input(&self, leader: Seq<u8>) -> Seq<u8> {
        le_bytes(self.0 as nat, 8) + seq![shred_type_tag(self.2)] + le_bytes(self.1 as nat, 4) + leader
    }

    /// A deterministic per-fragment seed: the SHA-256 of slot, type, index
    /// and leader identity.
    pub fn seed(&self, leader: &[u8]) -> (r: Vec<u8>)
        ensures
            r@ == sha256_of(self.seed_input(leader@)),
            r@.len() == 32,
    {
        let mut head: Vec<u8> = Vec::new();
        push_le(&mut head, self.0, 8);
        head.push(self.2.to_u8());
        push_le(&mut head, self.1 as u64, 4);
        assert(head@ =~= le_bytes(self.0 as nat, 8) + seq![shred_type_tag(self.2)] + le_bytes(self.1 as nat, 4));
        hashv_pair(head.as_slice(), leader)
    }
}

/// Identifies the erasure coding set of a fragment: slot and FEC set index.
pub struct ErasureSetId(pub u64, pub u32);

impl ErasureSetId {
    pub fn new(slot: u64, fec_set_index: u32) -> (r: ErasureSetId)
        ensures
            r == ErasureSetId(slot, fec_set_index),
    {
        ErasureSetId(slot, fec_set_index)
    }

    pub fn slot(&self) -> (r: u64)
        ensures
            r == self.0,
    {
        self.0
    }

    /// Storage key of the set's metadata.
    pub fn store_key(&self) -> (r: (u64, u32))
        ensures
            r == (self.0, self.1),
    {
        (self.0, self.1)
    }
}

} // verus!
