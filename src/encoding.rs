//! Little-endian framing of integers and byte strings, the building blocks of
//! the record encoding that signatures cover.
use vstd::prelude::*;

verus! {

/// The `n` low bytes of `x`, least significant first.
pub open spec fn le_bytes(x: nat, n: nat) -> Seq<u8>
    decreases n,
{
    if n == 0 {
        Seq::empty()
    } else {
        seq![(x % 256) as u8] + le_bytes(x / 256, (n - 1) as nat)
    }
}

/// Appends the `n` low bytes of `x`, least significant first.
pub fn push_le(out: &mut Vec<u8>, x: u64, n: usize)
    ensures
        final(out)@ == old(out)@ + le_bytes(x as nat, n as nat),
{
    let mut rest: u64 = x;
    let mut k: usize = 0;
    while k < n
        invariant
            0 <= k <= n,
            out@ + le_bytes(rest as nat, (n - k) as nat) == old(out)@ + le_bytes(x as nat, n as nat),
        decreases n - k,
    {
        let ghost before = out@;
        out.push((rest % 256) as u8);
        proof {
            let tail = le_bytes(rest as nat / 256, (n - k - 1) as nat);
            assert(le_bytes(rest as nat, (n - k) as nat) == seq![(rest as nat % 256) as u8] + tail);
            assert(out@ + tail =~= before + (seq![(rest as nat % 256) as u8] + tail));
        }
        rest = rest / 256;
        k = k + 1;
    }
    assert(out@ + le_bytes(rest as nat, 0) =~= out@);
}

/// Appends a byte string.
pub fn push_bytes(out: &mut Vec<u8>, b: &[u8])
    ensures
        final(out)@ == old(out)@ + b@,
{
    let mut i: usize = 0;
    while i < b.len()
        invariant
            0 <= i <= b@.len(),
            out@ == old(out)@ + b@.subrange(0, i as int),
        decreases b@.len() - i,
    {
        out.push(b[i]);
        i = i + 1;
        assert(b@.subrange(0, i as int) =~= b@.subrange(0, i - 1).push(b@[i - 1]));
        assert(out@ =~= old(out)@ + b@.subrange(0, i as int));
    }
    assert(b@.subrange(0, b@.len() as int) =~= b@);
}

/// Appends a byte string with its length as an 8-byte prefix.
pub fn push_framed(out: &mut Vec<u8>, b: &[u8])
    ensures
        final(out)@ == old(out)@ + le_bytes(b@.len(), 8) + b@,
{
    push_le(out, b.len() as u64, 8);
    push_bytes(out, b);
}

} // verus!
