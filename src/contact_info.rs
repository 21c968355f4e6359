//! A node's advertised contact record.
use vstd::prelude::*;
use crate::encoding::{le_bytes, push_bytes, push_framed, push_le};

verus! {

/// One advertised socket: which service (`key`), which address (`index` into
/// the node's address list) and the port offset.
#[derive(PartialEq, Eq, Structural, Debug, Clone, Copy)]
pub struct SocketEntry {
    pub key: u8,
    pub index: u8,
    pub offset: u16,
}

/// A node's contact record: identity, logical timestamp, start time, shred
/// version, the node's IP addresses (octets) and its advertised sockets, each
/// naming one of those addresses by index.
pub struct ContactInfo {
    pub pubkey: Vec<u8>,
    pub wallclock: u64,
    pub outset: u64,
    pub shred_version: u16,
    pub addrs: Vec<Vec<u8>>,
    pub sockets: Vec<SocketEntry>,
}

pub open spec fn addr_views(a: Seq<Vec<u8>>) -> Seq<Seq<u8>> {
    a.map_values(|x: Vec<u8>| x@)
}

/// Encoding of an address list: each address framed by its length.
pub open spec fn encode_addrs(a: Seq<Seq<u8>>) -> Seq<u8>
    decreases a.len(),
{
    if a.len() == 0 {
        Seq::empty()
    } else {
        encode_addrs(a.drop_last()) + le_bytes(a.last().len(), 8) + a.last()
    }
}

fn copy_addrs(a: &Vec<Vec<u8>>) -> (r: Vec<Vec<u8>>)
    ensures
        addr_views(r@) == addr_views(a@),
{
    let mut r: Vec<Vec<u8>> = Vec::new();
    let mut i: usize = 0;
    while i < a.len()
        invariant
            0 <= i <= a@.len(),
            r@.len() == i,
            forall|k: int| 0 <= k < i ==> (#[trigger] r@[k])@ == a@[k]@,
        decreases a@.len() - i,
    {
        r.push(vstd::slice::slice_to_vec(a[i].as_slice()));
        i = i + 1;
    }
    assert(addr_views(r@) =~= addr_views(a@));
    r
}

#[verifier::external_type_specification]
#[verifier::external_body]
pub struct ExSystemTime(std::time::SystemTime);

/// Relies on std::time::SystemTime::now: the current wall-clock time.
#[verifier::external_body]
fn system_now() -> (r: std::time::SystemTime) {
    std::time::SystemTime::now()
}

/// Relies on std::time::SystemTime::duration_since(UNIX_EPOCH): the time since
/// the epoch, None for a time before it.
#[verifier::external_body]
fn since_epoch(t: &std::time::SystemTime) -> (r: Option<std::time::Duration>) {
    t.duration_since(std::time::UNIX_EPOCH).ok()
}

/// Relies on std::time::Duration::as_micros: whole microseconds of a duration.
#[verifier::external_body]
fn duration_micros(d: &std::time::Duration) -> (r: u128) {
    d.as_micros()
}

/// A timestamp in microseconds from the time since the epoch: 0 when the
/// clock is before the epoch, `u64::MAX` past the range of `u64`.
pub fn timestamp_from_micros(micros: Option<u128>) -> (r: u64)
    ensures
        r == match micros {
            Some(t) => if t > u64::MAX as u128 { u64::MAX } else { t as u64 },
            None => 0,
        },
{
    match micros {
        Some(t) => if t > u64::MAX as u128 {
            u64::MAX
        } else {
            t as u64
        },
        None => 0,
    }
}

/// The current wall-clock time in microseconds since the Unix epoch; 0 before
/// the epoch, `u64::MAX` past the range of `u64`.
pub fn get_timestamp() -> (r: u64) {
    let now = system_now();
    let micros = match since_epoch(&now) {
        Some(d) => Some(duration_micros(&d)),
        None => None,
    };
    timestamp_from_micros(micros)
}

/// Encoding of a socket list: key, index and little-endian offset of each.
pub open spec fn encode_sockets(s: Seq<SocketEntry>) -> Seq<u8>
    decreases s.len(),
{
    if s.len() == 0 {
        Seq::empty()
    } else {
        encode_sockets(s.drop_last()) + seq![s.last().key, s.last().index] + le_bytes(
            s.last().offset as nat,
            2,
        )
    }
}

impl ContactInfo {
    /// The node's identity.
    pub fn pubkey(&self) -> (r: &Vec<u8>)
        ensures
            r == &self.pubkey,
    {
        &self.pubkey
    }

    /// The node's advertised sockets.
    pub fn sockets(&self) -> (r: &Vec<SocketEntry>)
        ensures
            r == &self.sockets,
    {
        &self.sockets
    }

    /// A contact record advertising one socket, the gossip port, started now.
    pub fn new(pubkey: Vec<u8>, wallclock: u64, shred_version: u16, gossip_port: u16) -> (r: ContactInfo)
        ensures
            r.pubkey == pubkey,
            r.wallclock == wallclock,
            r.shred_version == shred_version,
            r.addrs@.len() == 0,
            r.sockets@ == seq![SocketEntry { key: 0, index: 0, offset: gossip_port }],
    {
        let mut sockets: Vec<SocketEntry> = Vec::new();
        sockets.push(SocketEntry { key: 0, index: 0, offset: gossip_port });
        ContactInfo { pubkey, wallclock, outset: get_timestamp(), shred_version, addrs: Vec::new(), sockets }
    }

    /// A copy of the record.
    pub fn duplicate(&self) -> (r: ContactInfo)
        ensures
            r.pubkey@ == self.pubkey@,
            r.wallclock == self.wallclock,
            r.outset == self.outset,
            r.shred_version == self.shred_version,
            addr_views(r.addrs@) == addr_views(self.addrs@),
            r.sockets@ == self.sockets@,
    {
        ContactInfo {
            pubkey: vstd::slice::slice_to_vec(self.pubkey.as_slice()),
            wallclock: self.wallclock,
            outset: self.outset,
            shred_version: self.shred_version,
            addrs: copy_addrs(&self.addrs),
            sockets: vstd::slice::slice_to_vec(self.sockets.as_slice()),
        }
    }

    /// The record's content bytes: identity, wallclock, outset, shred version,
    /// then the framed socket list.
    pub open spec fn encoding(&self) -> Seq<u8> {
        self.pubkey@ + le_bytes(self.wallclock as nat, 8) + le_bytes(self.outset as nat, 8) + le_bytes(
            self.shred_version as nat,
            2,
        ) + le_bytes(self.addrs@.len(), 8) + encode_addrs(addr_views(self.addrs@)) + le_bytes(
            self.sockets@.len(),
            8,
        ) + encode_sockets(self.sockets@)
    }

    /// Appends the record's content bytes.
    pub fn encode_into(&self, out: &mut Vec<u8>)
        ensures
            final(out)@ == old(out)@ + self.encoding(),
    {
        push_bytes(out, self.pubkey.as_slice());
        push_le(out, self.wallclock, 8);
        push_le(out, self.outset, 8);
        push_le(out, self.shred_version as u64, 2);
        push_le(out, self.addrs.len() as u64, 8);
        let ghost start = out@;
        let mut j: usize = 0;
        while j < self.addrs.len()
            invariant
                0 <= j <= self.addrs@.len(),
                out@ == start + encode_addrs(addr_views(self.addrs@.subrange(0, j as int))),
            decreases self.addrs@.len() - j,
        {
            push_framed(out, self.addrs[j].as_slice());
            j = j + 1;
            proof {
                let sub = addr_views(self.addrs@.subrange(0, j as int));
                assert(sub.drop_last() =~= addr_views(self.addrs@.subrange(0, j - 1)));
                assert(sub.last() == self.addrs@[j - 1]@);
                assert(out@ =~= start + encode_addrs(sub));
            }
        }
        assert(self.addrs@.subrange(0, self.addrs@.len() as int) =~= self.addrs@);
        push_le(out, self.sockets.len() as u64, 8);
        let ghost head = out@;
        let mut i: usize = 0;
        while i < self.sockets.len()
            invariant
                0 <= i <= self.sockets@.len(),
                out@ == head + encode_sockets(self.sockets@.subrange(0, i as int)),
            decreases self.sockets@.len() - i,
        {
            let s = self.sockets[i];
            out.push(s.key);
            out.push(s.index);
            push_le(out, s.offset as u64, 2);
            i = i + 1;
            proof {
                let sub = self.sockets@.subrange(0, i as int);
                assert(sub.drop_last() =~= self.sockets@.subrange(0, i - 1));
                assert(out@ =~= head + encode_sockets(sub));
            }
        }
        assert(self.sockets@.subrange(0, self.sockets@.len() as int) =~= self.sockets@);
        assert(out@ =~= old(out)@ + self.encoding());
    }
}

} // verus!
