//! Fragments authenticated by a signature over the whole payload.
use vstd::prelude::*;
use crate::shred::{CodingShredHeader, DataShredHeader, ShredCommonHeader};

verus! {

pub struct ShredData {
    pub common_header: ShredCommonHeader,
    pub data_header: DataShredHeader,
    pub payload: Vec<u8>,
}

pub struct ShredCode {
    pub common_header: ShredCommonHeader,
    pub coding_header: CodingShredHeader,
    pub payload: Vec<u8>,
}

/// A data fragment of either authentication scheme.
pub enum AnyShredData {
    Legacy(ShredData),
    Merkle(crate::merkle::ShredData),
}

/// A coding fragment of either authentication scheme.
pub enum AnyShredCode {
    Legacy(ShredCode),
    Merkle(crate::merkle::ShredCode),
}

} // verus!
