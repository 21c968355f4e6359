//! Gossip records: the closed set of record kinds, their labels, and signed
//! records.
use vstd::prelude::*;
use crate::contact_info::ContactInfo;
use crate::duplicate_shred::DuplicateShred;
use crate::records::{NodeInstance, RestartHeaviestFork, Version, Vote};
use crate::crypto::{bytes_eq, concat, hashv_pair, sha256_of, sign_message, signature_valid, verify_signature, SigningKey, SIGNATURE_BYTES};
use crate::encoding::{le_bytes, push_bytes, push_framed, push_le};

verus! {

/// Owner, timestamp and opaque content of a record kind whose content the
/// replication core does not read.
pub struct RecordBody {
    pub from: Vec<u8>,
    pub wallclock: u64,
    pub body: Vec<u8>,
}

/// A gossip record. Variants that carry a number besides the body may hold
/// several concurrent records of that kind per owner, one per index.
pub enum GossipTableData {
    LegacyContactInfo(RecordBody),
    Vote(u8, Vote),
    LowestSlot(u8, RecordBody),
    LegacySnapshotHashes(RecordBody),
    AccountsHashes(RecordBody),
    EpochSlots(u8, RecordBody),
    LegacyVersion(RecordBody),
    Version(Version),
    NodeInstance(NodeInstance),
    DuplicateShred(u16, DuplicateShred),
    SnapshotHashes(RecordBody),
    ContactInfo(ContactInfo),
    RestartLastVotedForkSlots(RecordBody),
    RestartHeaviestFork(RestartHeaviestFork),
}

/// The record kinds, in wire order.
#[derive(PartialEq, Eq, Structural, Debug, Clone, Copy)]
pub enum RecordKind {
    LegacyContactInfo,
    Vote,
    LowestSlot,
    LegacySnapshotHashes,
    AccountsHashes,
    EpochSlots,
    LegacyVersion,
    Version,
    NodeInstance,
    DuplicateShred,
    SnapshotHashes,
    ContactInfo,
    RestartLastVotedForkSlots,
    RestartHeaviestFork,
}

/// The logical slot of a record: owner, kind and secondary index (0 for kinds
/// without one). The table holds at most one record per label.
pub struct Label {
    pub from: Seq<u8>,
    pub kind: RecordKind,
    pub index: nat,
}

/// Position of a kind in the wire enumeration.
pub open spec fn kind_tag(k: RecordKind) -> nat {
    match k {
        RecordKind::LegacyContactInfo => 0,
        RecordKind::Vote => 1,
        RecordKind::LowestSlot => 2,
        RecordKind::LegacySnapshotHashes => 3,
        RecordKind::AccountsHashes => 4,
        RecordKind::EpochSlots => 5,
        RecordKind::LegacyVersion => 6,
        RecordKind::Version => 7,
        RecordKind::NodeInstance => 8,
        RecordKind::DuplicateShred => 9,
        RecordKind::SnapshotHashes => 10,
        RecordKind::ContactInfo => 11,
        RecordKind::RestartLastVotedForkSlots => 12,
        RecordKind::RestartHeaviestFork => 13,
    }
}

/// Identity, little-endian wallclock, then the framed content.
pub open spec fn body_encoding(b: RecordBody) -> Seq<u8> {
    b.from@ + le_bytes(b.wallclock as nat, 8) + le_bytes(b.body@.len(), 8) + b.body@
}

impl RecordBody {
    /// A copy of the body.
    pub fn duplicate(&self) -> (r: RecordBody)
        ensures
            r.from@ == self.from@,
            r.wallclock == self.wallclock,
            r.body@ == self.body@,
    {
        RecordBody {
            from: vstd::slice::slice_to_vec(self.from.as_slice()),
            wallclock: self.wallclock,
            body: vstd::slice::slice_to_vec(self.body.as_slice()),
        }
    }

    fn encode_into(&self, out: &mut Vec<u8>)
        ensures
            final(out)@ == old(out)@ + body_encoding(*self),
    {
        push_bytes(out, self.from.as_slice());
        push_le(out, self.wallclock, 8);
        push_framed(out, self.body.as_slice());
        assert(out@ =~= old(out)@ + body_encoding(*self));
    }
}

impl GossipTableData {
    pub open spec fn kind(&self) -> RecordKind {
        match self {
            GossipTableData::LegacyContactInfo(_) => RecordKind::LegacyContactInfo,
            GossipTableData::Vote(_, _) => RecordKind::Vote,
            GossipTableData::LowestSlot(_, _) => RecordKind::LowestSlot,
            GossipTableData::LegacySnapshotHashes(_) => RecordKind::LegacySnapshotHashes,
            GossipTableData::AccountsHashes(_) => RecordKind::AccountsHashes,
            GossipTableData::EpochSlots(_, _) => RecordKind::EpochSlots,
            GossipTableData::LegacyVersion(_) => RecordKind::LegacyVersion,
            GossipTableData::Version(_) => RecordKind::Version,
            GossipTableData::NodeInstance(_) => RecordKind::NodeInstance,
            GossipTableData::DuplicateShred(_, _) => RecordKind::DuplicateShred,
            GossipTableData::SnapshotHashes(_) => RecordKind::SnapshotHashes,
            GossipTableData::ContactInfo(_) => RecordKind::ContactInfo,
            GossipTableData::RestartLastVotedForkSlots(_) => RecordKind::RestartLastVotedForkSlots,
            GossipTableData::RestartHeaviestFork(_) => RecordKind::RestartHeaviestFork,
        }
    }

    /// The secondary index, 0 for kinds without one.
    pub open spec fn index(&self) -> nat {
        match self {
            GossipTableData::Vote(i, _) => *i as nat,
            GossipTableData::LowestSlot(i, _) => *i as nat,
            GossipTableData::EpochSlots(i, _) => *i as nat,
            GossipTableData::DuplicateShred(i, _) => *i as nat,
            _ => 0,
        }
    }

    /// The owning identity.
    pub open spec fn owner(&self) -> Seq<u8> {
        match self {
            GossipTableData::ContactInfo(c) => c.pubkey@,
            GossipTableData::LegacyContactInfo(b)
            | GossipTableData::LowestSlot(_, b) | GossipTableData::LegacySnapshotHashes(b)
            | GossipTableData::AccountsHashes(b) | GossipTableData::EpochSlots(_, b)
            | GossipTableData::LegacyVersion(b)
            | GossipTableData::SnapshotHashes(b) | GossipTableData::RestartLastVotedForkSlots(b) => b.from@,
            GossipTableData::Vote(_, v) => v.from@,
            GossipTableData::Version(v) => v.from@,
            GossipTableData::NodeInstance(n) => n.from@,
            GossipTableData::RestartHeaviestFork(f) => f.from@,
            GossipTableData::DuplicateShred(_, d) => d.from@,
        }
    }

    /// The record's logical timestamp.
    pub open spec fn wallclock_spec(&self) -> u64 {
        match self {
            GossipTableData::ContactInfo(c) => c.wallclock,
            GossipTableData::LegacyContactInfo(b)
            | GossipTableData::LowestSlot(_, b) | GossipTableData::LegacySnapshotHashes(b)
            | GossipTableData::AccountsHashes(b) | GossipTableData::EpochSlots(_, b)
            | GossipTableData::LegacyVersion(b)
            | GossipTableData::SnapshotHashes(b) | GossipTableData::RestartLastVotedForkSlots(b) => b.wallclock,
            GossipTableData::Vote(_, v) => v.wallclock,
            GossipTableData::Version(v) => v.wallclock,
            GossipTableData::NodeInstance(n) => n.wallclock,
            GossipTableData::RestartHeaviestFork(f) => f.wallclock,
            GossipTableData::DuplicateShred(_, d) => d.wallclock,
        }
    }

    pub open spec fn label(&self) -> Label {
        Label { from: self.owner(), kind: self.kind(), index: self.index() }
    }

    /// The bytes that a signature covers: the kind's wire tag (4 bytes), the
    /// secondary index where the kind has one, then the content.
    pub open spec fn encoding(&self) -> Seq<u8> {
        le_bytes(kind_tag(self.kind()), 4) + match self {
            GossipTableData::Vote(i, v) => seq![*i] + v.encoding(),
            GossipTableData::LowestSlot(i, b) => seq![*i] + body_encoding(*b),
            GossipTableData::EpochSlots(i, b) => seq![*i] + body_encoding(*b),
            GossipTableData::DuplicateShred(i, d) => le_bytes(*i as nat, 2) + d.encoding(),
            GossipTableData::ContactInfo(c) => c.encoding(),
            GossipTableData::LegacyContactInfo(b) | GossipTableData::LegacySnapshotHashes(b)
            | GossipTableData::AccountsHashes(b) | GossipTableData::LegacyVersion(b)
            | GossipTableData::SnapshotHashes(b)
            | GossipTableData::RestartLastVotedForkSlots(b) => body_encoding(*b),
            GossipTableData::Version(v) => v.encoding(),
            GossipTableData::NodeInstance(n) => n.encoding(),
            GossipTableData::RestartHeaviestFork(f) => f.encoding(),
        }
    }

    /// A copy of the record: same kind, index, owner, timestamp and encoding.
    pub fn duplicate(&self) -> (r: GossipTableData)
        ensures
            r.label() == self.label(),
            r.wallclock_spec() == self.wallclock_spec(),
            r.encoding() == self.encoding(),
    {
        let r = match self {
            GossipTableData::LegacyContactInfo(b) => GossipTableData::LegacyContactInfo(b.duplicate()),
            GossipTableData::Vote(i, v) => GossipTableData::Vote(*i, v.duplicate()),
            GossipTableData::LowestSlot(i, b) => GossipTableData::LowestSlot(*i, b.duplicate()),
            GossipTableData::LegacySnapshotHashes(b) => GossipTableData::LegacySnapshotHashes(b.duplicate()),
            GossipTableData::AccountsHashes(b) => GossipTableData::AccountsHashes(b.duplicate()),
            GossipTableData::EpochSlots(i, b) => GossipTableData::EpochSlots(*i, b.duplicate()),
            GossipTableData::LegacyVersion(b) => GossipTableData::LegacyVersion(b.duplicate()),
            GossipTableData::Version(v) => GossipTableData::Version(v.duplicate()),
            GossipTableData::NodeInstance(n) => GossipTableData::NodeInstance(n.duplicate()),
            GossipTableData::DuplicateShred(i, d) => GossipTableData::DuplicateShred(*i, d.duplicate()),
            GossipTableData::SnapshotHashes(b) => GossipTableData::SnapshotHashes(b.duplicate()),
            GossipTableData::ContactInfo(c) => GossipTableData::ContactInfo(c.duplicate()),
            GossipTableData::RestartLastVotedForkSlots(b) => GossipTableData::RestartLastVotedForkSlots(b.duplicate()),
            GossipTableData::RestartHeaviestFork(f) => GossipTableData::RestartHeaviestFork(f.duplicate()),
        };
        r
    }

    /// The record's kind.
    pub fn record_kind(&self) -> (r: RecordKind)
        ensures
            r == self.kind(),
    {
        match self {
            GossipTableData::LegacyContactInfo(_) => RecordKind::LegacyContactInfo,
            GossipTableData::Vote(_, _) => RecordKind::Vote,
            GossipTableData::LowestSlot(_, _) => RecordKind::LowestSlot,
            GossipTableData::LegacySnapshotHashes(_) => RecordKind::LegacySnapshotHashes,
            GossipTableData::AccountsHashes(_) => RecordKind::AccountsHashes,
            GossipTableData::EpochSlots(_, _) => RecordKind::EpochSlots,
            GossipTableData::LegacyVersion(_) => RecordKind::LegacyVersion,
            GossipTableData::Version(_) => RecordKind::Version,
            GossipTableData::NodeInstance(_) => RecordKind::NodeInstance,
            GossipTableData::DuplicateShred(_, _) => RecordKind::DuplicateShred,
            GossipTableData::SnapshotHashes(_) => RecordKind::SnapshotHashes,
            GossipTableData::ContactInfo(_) => RecordKind::ContactInfo,
            GossipTableData::RestartLastVotedForkSlots(_) => RecordKind::RestartLastVotedForkSlots,
            GossipTableData::RestartHeaviestFork(_) => RecordKind::RestartHeaviestFork,
        }
    }

    /// The record's secondary index, 0 for kinds without one.
    pub fn record_index(&self) -> (r: u16)
        ensures
            r as nat == self.index(),
    {
        match self {
            GossipTableData::Vote(i, _) => *i as u16,
            GossipTableData::LowestSlot(i, _) => *i as u16,
            GossipTableData::EpochSlots(i, _) => *i as u16,
            GossipTableData::DuplicateShred(i, _) => *i,
            _ => 0,
        }
    }

    /// The owning identity of any record kind.
    pub fn pubkey(&self) -> (r: &Vec<u8>)
        ensures
            r@ == self.owner(),
    {
        match self {
            GossipTableData::ContactInfo(c) => c.pubkey(),
            GossipTableData::LegacyContactInfo(b) => &b.from,
            GossipTableData::Vote(_, v) => &v.from,
            GossipTableData::LowestSlot(_, b) => &b.from,
            GossipTableData::LegacySnapshotHashes(b) => &b.from,
            GossipTableData::AccountsHashes(b) => &b.from,
            GossipTableData::EpochSlots(_, b) => &b.from,
            GossipTableData::LegacyVersion(b) => &b.from,
            GossipTableData::Version(v) => &v.from,
            GossipTableData::NodeInstance(n) => &n.from,
            GossipTableData::DuplicateShred(_, d) => &d.from,
            GossipTableData::SnapshotHashes(b) => &b.from,
            GossipTableData::RestartLastVotedForkSlots(b) => &b.from,
            GossipTableData::RestartHeaviestFork(f) => &f.from,
        }
    }

    /// The logical timestamp of any record kind.
    pub fn wallclock(&self) -> (r: u64)
        ensures
            r == self.wallclock_spec(),
    {
        match self {
            GossipTableData::ContactInfo(c) => c.wallclock,
            GossipTableData::LegacyContactInfo(b) => b.wallclock,
            GossipTableData::Vote(_, v) => v.wallclock,
            GossipTableData::LowestSlot(_, b) => b.wallclock,
            GossipTableData::LegacySnapshotHashes(b) => b.wallclock,
            GossipTableData::AccountsHashes(b) => b.wallclock,
            GossipTableData::EpochSlots(_, b) => b.wallclock,
            GossipTableData::LegacyVersion(b) => b.wallclock,
            GossipTableData::Version(v) => v.wallclock,
            GossipTableData::NodeInstance(n) => n.wallclock,
            GossipTableData::DuplicateShred(_, d) => d.wallclock,
            GossipTableData::SnapshotHashes(b) => b.wallclock,
            GossipTableData::RestartLastVotedForkSlots(b) => b.wallclock,
            GossipTableData::RestartHeaviestFork(f) => f.wallclock,
        }
    }

    /// The bytes that a signature over this record covers.
    pub fn signable_data(&self) -> (r: Vec<u8>)
        ensures
            r@ == self.encoding(),
    {
        let mut out: Vec<u8> = Vec::new();
        match self {
            GossipTableData::LegacyContactInfo(b) => { push_le(&mut out, 0, 4); b.encode_into(&mut out); },
            GossipTableData::Vote(i, v) => { push_le(&mut out, 1, 4); out.push(*i); v.encode_into(&mut out); },
            GossipTableData::LowestSlot(i, b) => { push_le(&mut out, 2, 4); out.push(*i); b.encode_into(&mut out); },
            GossipTableData::LegacySnapshotHashes(b) => { push_le(&mut out, 3, 4); b.encode_into(&mut out); },
            GossipTableData::AccountsHashes(b) => { push_le(&mut out, 4, 4); b.encode_into(&mut out); },
            GossipTableData::EpochSlots(i, b) => { push_le(&mut out, 5, 4); out.push(*i); b.encode_into(&mut out); },
            GossipTableData::LegacyVersion(b) => { push_le(&mut out, 6, 4); b.encode_into(&mut out); },
            GossipTableData::Version(v) => { push_le(&mut out, 7, 4); v.encode_into(&mut out); },
            GossipTableData::NodeInstance(n) => { push_le(&mut out, 8, 4); n.encode_into(&mut out); },
            GossipTableData::DuplicateShred(i, d) => { push_le(&mut out, 9, 4); push_le(&mut out, *i as u64, 2); d.encode_into(&mut out); },
            GossipTableData::SnapshotHashes(b) => { push_le(&mut out, 10, 4); b.encode_into(&mut out); },
            GossipTableData::ContactInfo(c) => { push_le(&mut out, 11, 4); c.encode_into(&mut out); },
            GossipTableData::RestartLastVotedForkSlots(b) => { push_le(&mut out, 12, 4); b.encode_into(&mut out); },
            GossipTableData::RestartHeaviestFork(f) => { push_le(&mut out, 13, 4); f.encode_into(&mut out); },
        }
        assert(out@ =~= self.encoding());
        out
    }
}

/// Two values that agree on every byte, label and timestamp.
pub open spec fn same_value(a: GossipTableValue, b: GossipTableValue) -> bool {
    &&& a.signature@ == b.signature@
    &&& a.data.encoding() == b.data.encoding()
    &&& a.data.label() == b.data.label()
    &&& a.data.wallclock_spec() == b.data.wallclock_spec()
}

/// The value's signature is a valid signature of its record's encoding under
/// public key `pk`.
pub open spec fn signed_by(v: GossipTableValue, pk: Seq<u8>) -> bool {
    signature_valid(pk, v.data.encoding(), v.signature@)
}

/// A record with its owner's signature over the record's encoding.
pub struct GossipTableValue {
    pub signature: Vec<u8>,
    pub data: GossipTableData,
}

impl GossipTableValue {
    /// Every byte that identifies this exact value: signature, then record.
    pub open spec fn content(&self) -> Seq<u8> {
        self.signature@ + self.data.encoding()
    }

    pub open spec fn label(&self) -> Label {
        self.data.label()
    }

    /// Whether the signature verifies against the owner and the encoding.
    pub open spec fn verify_spec(&self) -> bool {
        self.signature@.len() == SIGNATURE_BYTES && signature_valid(
            self.data.owner(),
            self.data.encoding(),
            self.signature@,
        )
    }

    /// A record with an all-zero signature.
    pub fn new_unsigned(data: GossipTableData) -> (r: GossipTableValue)
        ensures
            r.data == data,
            r.signature@ == Seq::new(SIGNATURE_BYTES as nat, |i: int| 0u8),
    {
        let signature: Vec<u8> = vec![0u8; SIGNATURE_BYTES];
        GossipTableValue { signature, data }
    }

    /// A record signed by `key` over its encoding. The signature verifies
    /// under the key's public key, so the record verifies when that key is
    /// the record's owner.
    pub fn new_signed(data: GossipTableData, key: &SigningKey) -> (r: GossipTableValue)
        ensures
            r.data == data,
            r.signature@.len() == SIGNATURE_BYTES,
            signed_by(r, key.pubkey_spec()),
            key.pubkey_spec() == data.owner() ==> r.verify_spec(),
    {
        let mut value = Self::new_unsigned(data);
        value.sign(key);
        value
    }

    /// Replaces the signature with `key`'s signature over the encoding.
    pub fn sign(&mut self, key: &SigningKey)
        ensures
            final(self).data == old(self).data,
            final(self).signature@.len() == SIGNATURE_BYTES,
            signed_by(*final(self), key.pubkey_spec()),
            key.pubkey_spec() == final(self).data.owner() ==> final(self).verify_spec(),
    {
        let msg = self.data.signable_data();
        self.signature = sign_message(key, msg.as_slice());
    }

    /// A copy of the value.
    pub fn duplicate(&self) -> (r: GossipTableValue)
        ensures
            same_value(r, *self),
    {
        GossipTableValue {
            signature: vstd::slice::slice_to_vec(self.signature.as_slice()),
            data: self.data.duplicate(),
        }
    }

    /// Signature followed by the record's encoding.
    pub fn content_bytes(&self) -> (r: Vec<u8>)
        ensures
            r@ == self.content(),
    {
        let enc = self.data.signable_data();
        concat(self.signature.as_slice(), enc.as_slice())
    }

    /// The SHA-256 of the value's content: what pull filters are built from.
    pub fn content_hash(&self) -> (r: Vec<u8>)
        ensures
            r@ == sha256_of(self.content()),
            r@.len() == 32,
    {
        let enc = self.data.signable_data();
        hashv_pair(self.signature.as_slice(), enc.as_slice())
    }

    /// Whether two values are byte for byte the same.
    pub fn same_content(&self, other: &GossipTableValue) -> (r: bool)
        ensures
            r == (self.content() == other.content()),
    {
        let a = self.content_bytes();
        let b = other.content_bytes();
        bytes_eq(a.as_slice(), b.as_slice())
    }

    /// Whether two values occupy the same label.
    pub fn same_label(&self, other: &GossipTableValue) -> (r: bool)
        ensures
            r == (self.label() == other.label()),
    {
        self.data.record_kind() == other.data.record_kind()
            && self.data.record_index() == other.data.record_index()
            && bytes_eq(self.data.pubkey().as_slice(), other.data.pubkey().as_slice())
    }

    pub fn get_signature(&self) -> (r: &Vec<u8>)
        ensures
            r == &self.signature,
    {
        &self.signature
    }

    pub fn set_signature(&mut self, signature: Vec<u8>)
        ensures
            final(self).signature == signature,
            final(self).data == old(self).data,
    {
        self.signature = signature;
    }

    /// The owning identity.
    pub fn pubkey(&self) -> (r: &Vec<u8>)
        ensures
            r@ == self.data.owner(),
    {
        self.data.pubkey()
    }

    /// Whether the signature verifies against the owning identity and the
    /// record's encoding.
    pub fn verify(&self) -> (r: bool)
        ensures
            r == self.verify_spec(),
    {
        if self.signature.len() != SIGNATURE_BYTES {
            return false;
        }
        let msg = self.data.signable_data();
        verify_signature(self.signature.as_slice(), self.data.pubkey().as_slice(), msg.as_slice())
    }
}

} // verus!
