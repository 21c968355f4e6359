//! Record payloads whose fields the library holds as plain values.
use vstd::prelude::*;
use crate::encoding::{le_bytes, push_bytes, push_framed, push_le};

verus! {

/// A node's running instance: a start timestamp and a random token, so that
/// two instances under one identity can be told apart.
pub struct NodeInstance {
    pub from: Vec<u8>,
    pub wallclock: u64,
    pub timestamp: u64,
    pub token: u64,
}

impl NodeInstance {
    /// Identity, then wallclock, timestamp and token, each little-endian.
    pub open spec fn encoding(&self) -> Seq<u8> {
        self.from@ + le_bytes(self.wallclock as nat, 8) + le_bytes(self.timestamp as nat, 8) + le_bytes(
            self.token as nat,
            8,
        )
    }

    pub fn encode_into(&self, out: &mut Vec<u8>)
        ensures
            final(out)@ == old(out)@ + self.encoding(),
    {
        push_bytes(out, self.from.as_slice());
        push_le(out, self.wallclock, 8);
        push_le(out, self.timestamp, 8);
        push_le(out, self.token, 8);
        assert(out@ =~= old(out)@ + self.encoding());
    }

    /// A copy of the record.
    pub fn duplicate(&self) -> (r: NodeInstance)
        ensures
            r.from@ == self.from@,
            r.wallclock == self.wallclock,
            r.encoding() == self.encoding(),
    {
        NodeInstance {
            from: vstd::slice::slice_to_vec(self.from.as_slice()),
            wallclock: self.wallclock,
            timestamp: self.timestamp,
            token: self.token,
        }
    }
}

/// During a cluster restart, the heaviest fork a node has seen: its last slot
/// and that slot's hash, the stake observed on it, and the node's shred
/// version.
pub struct RestartHeaviestFork {
    pub from: Vec<u8>,
    pub wallclock: u64,
    pub last_slot: u64,
    pub last_slot_hash: Vec<u8>,
    pub observed_stake: u64,
    pub shred_version: u16,
}

impl RestartHeaviestFork {
    /// Identity, wallclock and last slot, the slot hash, observed stake and
    /// shred version; integers little-endian.
    pub open spec fn encoding(&self) -> Seq<u8> {
        self.from@ + le_bytes(self.wallclock as nat, 8) + le_bytes(self.last_slot as nat, 8)
            + self.last_slot_hash@ + le_bytes(self.observed_stake as nat, 8) + le_bytes(
            self.shred_version as nat,
            2,
        )
    }

    pub fn encode_into(&self, out: &mut Vec<u8>)
        ensures
            final(out)@ == old(out)@ + self.encoding(),
    {
        push_bytes(out, self.from.as_slice());
        push_le(out, self.wallclock, 8);
        push_le(out, self.last_slot, 8);
        push_bytes(out, self.last_slot_hash.as_slice());
        push_le(out, self.observed_stake, 8);
        push_le(out, self.shred_version as u64, 2);
        assert(out@ =~= old(out)@ + self.encoding());
    }

    /// A copy of the record.
    pub fn duplicate(&self) -> (r: RestartHeaviestFork)
        ensures
            r.from@ == self.from@,
            r.wallclock == self.wallclock,
            r.encoding() == self.encoding(),
    {
        RestartHeaviestFork {
            from: vstd::slice::slice_to_vec(self.from.as_slice()),
            wallclock: self.wallclock,
            last_slot: self.last_slot,
            last_slot_hash: vstd::slice::slice_to_vec(self.last_slot_hash.as_slice()),
            observed_stake: self.observed_stake,
            shred_version: self.shred_version,
        }
    }
}

/// A vote: the voting transaction in its wire form, and the slot voted on
/// where the sender names it.
pub struct Vote {
    pub from: Vec<u8>,
    pub transaction: Vec<u8>,
    pub wallclock: u64,
    pub slot: Option<u64>,
}

/// Encoding of an optional slot: a 0 byte for none, else a 1 byte and the
/// slot, little-endian.
pub open spec fn option_encoding(x: Option<u64>) -> Seq<u8> {
    match x {
        Some(v) => seq![1u8] + le_bytes(v as nat, 8),
        None => seq![0u8],
    }
}

impl Vote {
    /// Identity, the framed transaction, wallclock, then the optional slot.
    pub open spec fn encoding(&self) -> Seq<u8> {
        self.from@ + le_bytes(self.transaction@.len(), 8) + self.transaction@ + le_bytes(self.wallclock as nat, 8)
            + option_encoding(self.slot)
    }

    pub fn encode_into(&self, out: &mut Vec<u8>)
        ensures
            final(out)@ == old(out)@ + self.encoding(),
    {
        push_bytes(out, self.from.as_slice());
        push_framed(out, self.transaction.as_slice());
        push_le(out, self.wallclock, 8);
        match self.slot {
            Some(v) => {
                out.push(1u8);
                push_le(out, v, 8);
            },
            None => out.push(0u8),
        }
        assert(out@ =~= old(out)@ + self.encoding());
    }

    /// A copy of the vote.
    pub fn duplicate(&self) -> (r: Vote)
        ensures
            r.from@ == self.from@,
            r.wallclock == self.wallclock,
            r.encoding() == self.encoding(),
    {
        Vote {
            from: vstd::slice::slice_to_vec(self.from.as_slice()),
            transaction: vstd::slice::slice_to_vec(self.transaction.as_slice()),
            wallclock: self.wallclock,
            slot: self.slot,
        }
    }
}

/// The software version a node runs: release numbers, source commit,
/// feature set and client kind.
pub struct Version {
    pub from: Vec<u8>,
    pub wallclock: u64,
    pub major: u16,
    pub minor: u16,
    pub patch: u16,
    pub commit: Option<u32>,
    pub feature_set: u32,
    pub client: u16,
}

impl Version {
    /// Identity, wallclock, the release numbers, the optional commit, feature
    /// set and client; integers little-endian.
    pub open spec fn encoding(&self) -> Seq<u8> {
        self.from@ + le_bytes(self.wallclock as nat, 8) + le_bytes(self.major as nat, 2) + le_bytes(
            self.minor as nat,
            2,
        ) + le_bytes(self.patch as nat, 2) + match self.commit {
            Some(c) => seq![1u8] + le_bytes(c as nat, 4),
            None => seq![0u8],
        } + le_bytes(self.feature_set as nat, 4) + le_bytes(self.client as nat, 2)
    }

    pub fn encode_into(&self, out: &mut Vec<u8>)
        ensures
            final(out)@ == old(out)@ + self.encoding(),
    {
        push_bytes(out, self.from.as_slice());
        push_le(out, self.wallclock, 8);
        push_le(out, self.major as u64, 2);
        push_le(out, self.minor as u64, 2);
        push_le(out, self.patch as u64, 2);
        match self.commit {
            Some(c) => {
                out.push(1u8);
                push_le(out, c as u64, 4);
            },
            None => out.push(0u8),
        }
        push_le(out, self.feature_set as u64, 4);
        push_le(out, self.client as u64, 2);
        assert(out@ =~= old(out)@ + self.encoding());
    }

    /// A copy of the version record.
    pub fn duplicate(&self) -> (r: Version)
        ensures
            r.from@ == self.from@,
            r.wallclock == self.wallclock,
            r.encoding() == self.encoding(),
    {
        Version {
            from: vstd::slice::slice_to_vec(self.from.as_slice()),
            wallclock: self.wallclock,
            major: self.major,
            minor: self.minor,
            patch: self.patch,
            commit: self.commit,
            feature_set: self.feature_set,
            client: self.client,
        }
    }
}

} // verus!
