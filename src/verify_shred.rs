//! First checks on a received fragment packet.
use vstd::prelude::*;
use crate::layout;
use crate::merkle::{PACKET_DATA_SIZE, SIZE_OF_NONCE};

verus! {

/// Packet flag: the packet was discarded.
pub const DISCARD: u8 = 0b0000_0001;

/// Packet flag: the packet was forwarded.
pub const FORWARDED: u8 = 0b0000_0010;

/// Packet flag: the packet answers a repair request and ends with a nonce.
pub const REPAIR: u8 = 0b0000_0100;

/// Packet flag: the packet holds a simple vote transaction.
pub const SIMPLE_VOTE_TX: u8 = 0b0000_1000;

/// Packet flag: the packet is traced.
pub const TRACER_PACKET: u8 = 0b0001_0000;

/// Packet flag: the packet is tracked for performance.
pub const PERF_TRACK_PACKET: u8 = 0b0100_0000;

/// Packet flag: the packet came from a staked node.
pub const FROM_STAKED_NODE: u8 = 0b1000_0000;

/// Receipt metadata of a packet. The address is the sender's IP octets
/// (4 or 16 of them).
pub struct Meta {
    pub size: usize,
    pub addr: Vec<u8>,
    pub port: u16,
    pub flags: u8,
}

/// A received datagram buffer of `PACKET_DATA_SIZE` bytes.
pub struct Packet {
    pub data: Vec<u8>,
    pub meta: Meta,
}

/// Why a fragment packet was refused.
#[derive(PartialEq, Eq, Structural, Debug, Clone, Copy)]
pub enum VerifyShredErrors {
    InvalidShredSize,
    SlotMissing,
    SignatureMissing,
}

/// Whether bit `flag` is set in `flags`.
pub open spec fn has_flag(flags: u8, flag: u8) -> bool {
    flags & flag == flag
}

impl Packet {
    pub open spec fn wf(&self) -> bool {
        self.data@.len() == PACKET_DATA_SIZE
    }

    pub open spec fn packet_size_spec(&self) -> usize {
        if has_flag(self.meta.flags, REPAIR) {
            (PACKET_DATA_SIZE - SIZE_OF_NONCE) as usize
        } else {
            PACKET_DATA_SIZE
        }
    }

    /// Bytes of the buffer that belong to the fragment: a repair response
    /// ends with a nonce that is not part of it.
    pub fn get_packet_size(&self) -> (r: usize)
        ensures
            r == self.packet_size_spec(),
    {
        if self.meta.flags & REPAIR == REPAIR {
            return PACKET_DATA_SIZE.saturating_sub(SIZE_OF_NONCE);
        }
        PACKET_DATA_SIZE
    }

    /// The fragment bytes of the packet.
    pub fn get_shred(&self) -> (r: Option<Vec<u8>>)
        requires
            self.wf(),
        ensures
            r matches Some(s) && s@ == self.data@.subrange(0, self.packet_size_spec() as int),
    {
        let shred_size = self.get_packet_size();
        if shred_size == 0 {
            return None;
        }
        Some(vstd::slice::slice_to_vec(&self.data.as_slice()[0..shred_size]))
    }
}

/// Checks that a packet holds a fragment with a slot and a signature.
pub fn verify_shred(packet: Packet) -> (r: Result<(), VerifyShredErrors>)
    requires
        packet.wf(),
    ensures
        r is Ok,
{
    let shred = match packet.get_shred() {
        Some(shred) => shred,
        None => return Err(VerifyShredErrors::InvalidShredSize),
    };
    let _slot: u64 = match layout::get_slot(shred.as_slice()) {
        Some(slot) => slot,
        None => return Err(VerifyShredErrors::SlotMissing),
    };
    let _signature = match layout::get_signature(shred.as_slice()) {
        Some(signature) => signature,
        None => return Err(VerifyShredErrors::SignatureMissing),
    };
    Ok(())
}

} // verus!
