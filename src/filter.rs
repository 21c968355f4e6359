//! The pull-reconciliation filter: a bloom filter over content hashes, limited
//! to one shard of the hash space by its top `mask_bits` bits.
use vstd::prelude::*;
use solana_bloom::bloom::Bloom;
use crate::layout::{le_u64, read_u64_le};

verus! {

/// Expected number of distinct records one filter represents efficiently.
pub const MAX_ITEMS: u32 = 1287;

/// Upper bound on the bloom filter's bit count.
pub const MAX_BLOOM_BITS: u32 = 7427;

/// A bloom filter over content hashes, kept in solana_bloom's `Bloom` and
/// described by the hashes it reports present and its bit count.
#[verifier::external_body]
pub struct HashBloom {
    pub bloom: Bloom<solana_sdk::hash::Hash>,
}

/// The content hashes that a bloom filter reports as present: every hash
/// added, and possibly others.
pub uninterp spec fn bloom_members(b: HashBloom) -> Set<Seq<u8>>;

/// The number of bits of a bloom filter.
pub uninterp spec fn bloom_num_bits(b: HashBloom) -> nat;

/// Relies on the length of solana_bloom's public `bits` vector.
#[verifier::external_body]
fn bloom_bits_len(b: &HashBloom) -> (r: u64)
    ensures
        r == bloom_num_bits(*b),
{
    b.bloom.bits.len()
}

/// Relies on solana_bloom::bloom::Bloom::contains: whether every bit that the
/// hash selects is set, a function of the filter and the hash. It divides by
/// the bit count, which must not be zero.
#[verifier::external_body]
fn bloom_contains(b: &HashBloom, h: &[u8]) -> (r: bool)
    requires
        h@.len() == 32,
        bloom_num_bits(*b) > 0,
    ensures
        r == bloom_members(*b).contains(h@),
{
    let arr = <[u8; 32]>::try_from(h).unwrap();
    b.bloom.contains(&solana_sdk::hash::Hash::new_from_array(arr))
}

/// 2 to the power `k`.
pub open spec fn pow2(k: nat) -> nat
    decreases k,
{
    if k == 0 {
        1
    } else {
        2 * pow2((k - 1) as nat)
    }
}

proof fn lemma_pow2_32()
    ensures
        pow2(32) == 0x1_0000_0000,
{
    reveal_with_fuel(pow2, 33);
}

/// Bits of the low end of a hash that lie outside a shard selector of
/// `mask_bits` bits.
pub open spec fn low_ones(mask_bits: u32) -> u64 {
    if mask_bits < 64 {
        u64::MAX >> mask_bits
    } else {
        0
    }
}

/// Selector for shard `seed`: the seed in the top `mask_bits` bits, ones below.
pub open spec fn mask_spec(seed: u64, mask_bits: u32) -> u64 {
    (if mask_bits == 0 {
        0u64
    } else {
        seed << ((64 - mask_bits) as u64)
    }) | low_ones(mask_bits)
}

/// Whether a hash, read as a little-endian u64 from its first 8 bytes, falls in
/// the shard that `mask` selects.
pub open spec fn in_shard(mask: u64, mask_bits: u32, hash: Seq<u8>) -> bool {
    (le_u64(hash.subrange(0, 8)) as u64 | low_ones(mask_bits)) == mask
}

/// `r` is the least `k` with `num_items <= max_items * 2^k`, that is
/// `max(0, ceil(log2(num_items / max_items)))`.
pub open spec fn is_mask_bits(num_items: nat, max_items: nat, r: nat) -> bool {
    &&& num_items <= max_items * pow2(r)
    &&& (r == 0 || max_items * pow2((r - 1) as nat) < num_items)
}

proof fn lemma_pow2_monotonic(a: nat, b: nat)
    requires
        a <= b,
    ensures
        pow2(a) <= pow2(b),
    decreases b,
{
    if a < b {
        lemma_pow2_monotonic(a, (b - 1) as nat);
    }
}

/// Shard sizing: no records need no shard bits, and four times the per-filter
/// capacity needs two.
pub proof fn lemma_mask_bits_sizing(max_items: nat, r0: nat, r4: nat)
    requires
        max_items > 0,
        is_mask_bits(0, max_items, r0),
        is_mask_bits(4 * max_items, max_items, r4),
    ensures
        r0 == 0,
        r4 == 2,
{
    assert(pow2(0) == 1 && pow2(1) == 2 && pow2(2) == 4) by {
        reveal_with_fuel(pow2, 3);
    }
    if r0 > 0 {
        assert(max_items * pow2((r0 - 1) as nat) >= 0) by (nonlinear_arith);
    }
    if r4 < 2 {
        lemma_pow2_monotonic(r4, 1);
        assert(max_items * pow2(r4) <= max_items * 2) by (nonlinear_arith)
            requires
                pow2(r4) <= 2,
        ;
    } else if r4 > 2 {
        lemma_pow2_monotonic(2, (r4 - 1) as nat);
        assert(max_items * pow2((r4 - 1) as nat) >= max_items * 4) by (nonlinear_arith)
            requires
                pow2((r4 - 1) as nat) >= 4,
        ;
    }
}

/// Number of shard bits for `num_items` records: the least `k` with
/// `num_items <= max_items * 2^k`. Without a per-filter capacity no number of
/// bits suffices for a non-empty request, and the count saturates.
pub fn mask_bits(num_items: u32, max_items: u32) -> (r: u32)
    ensures
        max_items > 0 ==> is_mask_bits(num_items as nat, max_items as nat, r as nat) && r <= 32,
        max_items == 0 ==> r == (if num_items == 0 { 0 } else { u32::MAX }),
{
    if max_items == 0 {
        return if num_items == 0 { 0 } else { u32::MAX };
    }
    let mut k: u32 = 0;
    let mut p: u64 = max_items as u64;
    assert(pow2(0) == 1);
    assert(max_items * pow2(0) == max_items);
    while p < num_items as u64
        invariant
            k <= 32,
            p == max_items * pow2(k as nat),
            k == 0 || max_items * pow2((k - 1) as nat) < num_items,
            p <= 2 * (num_items as nat) || k == 0,
            max_items > 0,
            p >= pow2(k as nat),
            p >= 1,
        decreases 32 - k,
    {
        proof {
            assert(pow2(k as nat + 1) == 2 * pow2(k as nat));
            assert(max_items * pow2(k as nat + 1) == 2 * (max_items * pow2(k as nat))) by (nonlinear_arith);
            if k == 32 {
                lemma_pow2_32();
            }
        }
        p = p * 2;
        k = k + 1;
    }
    k
}

/// Builds the selector for shard `seed` out of `2^mask_bits`.
pub fn compute_mask(seed: u64, mask_bits: u32) -> (r: u64)
    requires
        mask_bits <= 64,
        seed <= pow2(mask_bits as nat),
    ensures
        r == mask_spec(seed, mask_bits),
{
    let high: u64 = if mask_bits == 0 { 0 } else { seed << ((64 - mask_bits) as u64) };
    let low: u64 = if mask_bits < 64 { u64::MAX >> mask_bits } else { 0 };
    high | low
}

/// A pull request's filter: the requester's content hashes in a bloom filter,
/// and the shard of the hash space the request covers.
pub struct DataFilter {
    pub filter: HashBloom,
    mask: u64,
    mask_bits: u32,
}

impl DataFilter {
    pub closed spec fn bloom(&self) -> HashBloom {
        self.filter
    }

    pub closed spec fn mask_spec(&self) -> u64 {
        self.mask
    }

    pub closed spec fn mask_bits_spec(&self) -> u32 {
        self.mask_bits
    }

    /// A filter over the shard `seed` of `2^mask_bits`.
    pub fn new(filter: HashBloom, seed: u64, mask_bits: u32) -> (r: DataFilter)
        requires
            mask_bits <= 64,
            seed <= pow2(mask_bits as nat),
        ensures
            r.bloom() == filter,
            r.mask_spec() == mask_spec(seed, mask_bits),
            r.mask_bits_spec() == mask_bits,
    {
        DataFilter { filter, mask: compute_mask(seed, mask_bits), mask_bits }
    }

    /// A filter from its parts as received from a peer.
    pub fn from_parts(filter: HashBloom, mask: u64, mask_bits: u32) -> (r: DataFilter)
        ensures
            r.bloom() == filter,
            r.mask_spec() == mask,
            r.mask_bits_spec() == mask_bits,
    {
        DataFilter { filter, mask, mask_bits }
    }

    /// A filter sized for an empty request: `MAX_ITEMS` expected records, no
    /// records yet, so a single shard (no mask bits) selecting every hash.
    pub fn with_default_sizing(filter: HashBloom) -> (r: DataFilter)
        ensures
            r.bloom() == filter,
            r.mask_bits_spec() == 0,
            r.mask_spec() == u64::MAX,
    {
        let bits = mask_bits(0, MAX_ITEMS);
        assert(bits == 0);
        let r = DataFilter::new(filter, 0, bits);
        assert(mask_spec(0, 0) == u64::MAX) by (bit_vector);
        r
    }

    /// The number of shard bits.
    pub fn mask_bits(&self) -> (r: u32)
        ensures
            r == self.mask_bits_spec(),
    {
        self.mask_bits
    }

    /// The shard selector.
    pub fn mask(&self) -> (r: u64)
        ensures
            r == self.mask_spec(),
    {
        self.mask
    }

    /// The number of bits of the bloom filter.
    pub fn num_bits(&self) -> (r: u64)
        ensures
            r == bloom_num_bits(self.bloom()),
    {
        bloom_bits_len(&self.filter)
    }

    /// Whether a content hash falls in this filter's shard.
    pub fn test_mask(&self, hash: &[u8]) -> (r: bool)
        requires
            hash@.len() == 32,
        ensures
            r == in_shard(self.mask_spec(), self.mask_bits_spec(), hash@),
    {
        let bits = read_u64_le(hash, 0).unwrap();
        let ones: u64 = if self.mask_bits < 64 { u64::MAX >> self.mask_bits } else { 0 };
        (bits | ones) == self.mask
    }

    /// Whether the requester holds the hash by the bloom filter, or `None` when
    /// the filter has no bits and answers nothing.
    pub fn contains(&self, hash: &[u8]) -> (r: Option<bool>)
        requires
            hash@.len() == 32,
        ensures
            bloom_num_bits(self.bloom()) == 0 ==> r is None,
            bloom_num_bits(self.bloom()) > 0 ==> r == Some(bloom_members(self.bloom()).contains(hash@)),
    {
        if self.num_bits() == 0 {
            return None;
        }
        Some(bloom_contains(&self.filter, hash))
    }
}

} // verus!
