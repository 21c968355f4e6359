use gossip_core::filter::{compute_mask, mask_bits, DataFilter, HashBloom, MAX_ITEMS};
use solana_bloom::bloom::Bloom;

fn bloom() -> HashBloom {
    HashBloom { bloom: Bloom::random(10, 0.1, 7427) }
}

#[test]
fn mask_bits_sizing() {
    assert_eq!(mask_bits(0, MAX_ITEMS), 0);
    assert_eq!(mask_bits(MAX_ITEMS * 4, MAX_ITEMS), 2);
    assert_eq!(mask_bits(MAX_ITEMS, MAX_ITEMS), 0);
    assert_eq!(mask_bits(MAX_ITEMS + 1, MAX_ITEMS), 1);
    assert_eq!(mask_bits(MAX_ITEMS * 4 + 1, MAX_ITEMS), 3);
    assert_eq!(mask_bits(u32::MAX, 1), 32);
    assert_eq!(mask_bits(0, 0), 0);
    assert_eq!(mask_bits(5, 0), u32::MAX);
}

#[test]
fn mask_layout() {
    assert_eq!(compute_mask(0, 0), u64::MAX);
    assert_eq!(compute_mask(1, 0), u64::MAX);
    assert_eq!(compute_mask(0, 1), 0x7fff_ffff_ffff_ffff);
    assert_eq!(compute_mask(1, 1), u64::MAX);
    assert_eq!(compute_mask(2, 2), 0xbfff_ffff_ffff_ffff);
    assert_eq!(compute_mask(3, 4), 0x3fff_ffff_ffff_ffff);
    assert_eq!(compute_mask(0x1234, 64), 0x1234);
    assert_eq!(compute_mask(u64::MAX, 64), u64::MAX);
}

#[test]
fn default_sizing_covers_everything() {
    let f = DataFilter::with_default_sizing(bloom());
    assert_eq!(f.mask_bits(), 0);
    assert_eq!(f.mask(), u64::MAX);
    let mut h = [0u8; 32];
    assert!(f.test_mask(&h));
    h[7] = 0x80;
    assert!(f.test_mask(&h));
}

#[test]
fn shard_test_reads_top_bits() {
    let high = DataFilter::new(bloom(), 1, 1);
    let low = DataFilter::new(bloom(), 0, 1);
    let mut h = [0u8; 32];
    assert!(low.test_mask(&h));
    assert!(!high.test_mask(&h));
    h[7] = 0x80;
    assert!(high.test_mask(&h));
    assert!(!low.test_mask(&h));
    let parts = DataFilter::from_parts(bloom(), high.mask(), high.mask_bits());
    assert!(parts.test_mask(&h));
}

#[test]
fn bloom_membership() {
    let mut b = bloom();
    let h = [9u8; 32];
    b.bloom.add(&solana_sdk::hash::Hash::new_from_array(h));
    let f = DataFilter::with_default_sizing(b);
    assert_eq!(f.contains(&h), Some(true));
    let empty = DataFilter::with_default_sizing(HashBloom { bloom: Bloom::new(0, vec![1]) });
    assert_eq!(empty.contains(&h), None);
}
