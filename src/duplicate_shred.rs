//! A report that a slot leader produced two different fragments for one slot
//! position, carried in chunks.
use vstd::prelude::*;
use crate::encoding::{le_bytes, push_bytes, push_framed, push_le};
use crate::shred::{shred_type_tag, ShredType};

verus! {

pub struct DuplicateShred {
    pub from: Vec<u8>,
    pub wallclock: u64,
    pub slot: u64,
    /// The type of the conflicting fragments; the report carries it opaquely.
    pub shred_type: ShredType,
    pub num_chunks: u8,
    pub chunk_index: u8,
    pub chunk: Vec<u8>,
}

impl DuplicateShred {
    /// Identity, wallclock and slot, a reserved 4-byte word, the type tag, the
    /// chunk count and index, then the framed chunk.
    pub open spec fn encoding(&self) -> Seq<u8> {
        self.from@ + le_bytes(self.wallclock as nat, 8) + le_bytes(self.slot as nat, 8) + le_bytes(0, 4)
            + seq![shred_type_tag(self.shred_type), self.num_chunks, self.chunk_index]
            + le_bytes(self.chunk@.len(), 8) + self.chunk@
    }

    pub fn encode_into(&self, out: &mut Vec<u8>)
        ensures
            final(out)@ == old(out)@ + self.encoding(),
    {
        push_bytes(out, self.from.as_slice());
        push_le(out, self.wallclock, 8);
        push_le(out, self.slot, 8);
        push_le(out, 0, 4);
        out.push(self.shred_type.to_u8());
        out.push(self.num_chunks);
        out.push(self.chunk_index);
        push_framed(out, self.chunk.as_slice());
        assert(out@ =~= old(out)@ + self.encoding());
    }

    /// A copy of the report.
    pub fn duplicate(&self) -> (r: DuplicateShred)
        ensures
            r.from@ == self.from@,
            r.wallclock == self.wallclock,
            r.encoding() == self.encoding(),
    {
        DuplicateShred {
            from: vstd::slice::slice_to_vec(self.from.as_slice()),
            wallclock: self.wallclock,
            slot: self.slot,
            shred_type: self.shred_type,
            num_chunks: self.num_chunks,
            chunk_index: self.chunk_index,
            chunk: vstd::slice::slice_to_vec(self.chunk.as_slice()),
        }
    }
}

} // verus!
