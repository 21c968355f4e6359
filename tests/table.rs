use gossip_core::contact_info::{get_timestamp, timestamp_from_micros, ContactInfo, SocketEntry};
use gossip_core::cursor::Cursor;
use gossip_core::data::{GossipTableData, GossipTableValue, RecordBody, RecordKind};
use gossip_core::duplicate_shred::DuplicateShred;
use gossip_core::records::{NodeInstance, RestartHeaviestFork, Version, Vote};
use gossip_core::shred::ShredType;
use gossip_core::filter::{DataFilter, HashBloom};
use gossip_core::table::{GossipRoute, GossipTable, GossipTableError, TableLimits};
use solana_bloom::bloom::Bloom;
use solana_sdk::signature::Keypair;
use gossip_core::crypto::SigningKey;

fn id(kp: &SigningKey) -> Vec<u8> {
    kp.pubkey().clone()
}

fn vote(kp: &SigningKey, index: u8, wallclock: u64, body: Vec<u8>) -> GossipTableValue {
    let data = GossipTableData::Vote(index, Vote { from: id(kp), transaction: body, wallclock, slot: None });
    GossipTableValue::new_signed(data, kp)
}

fn contact(kp: &SigningKey, wallclock: u64) -> GossipTableValue {
    let ci = ContactInfo::new(id(kp), wallclock, 0, 8001);
    GossipTableValue::new_signed(GossipTableData::ContactInfo(ci), kp)
}

fn stored_wallclock(t: &GossipTable, probe: &GossipTableValue) -> Option<u64> {
    t.get(probe).map(|e| e.value.data.wallclock())
}

fn empty_bloom() -> HashBloom {
    HashBloom { bloom: Bloom::random(100, 0.1, 7427) }
}

#[test]
fn cursor_consume_takes_max() {
    let mut c = Cursor::default();
    assert_eq!(c.ordinal(), 0);
    c.consume(4);
    assert_eq!(c.ordinal(), 5);
    c.consume(2);
    assert_eq!(c.ordinal(), 5);
    c.consume(5);
    assert_eq!(c.ordinal(), 6);
}

#[test]
fn insert_new_label_succeeds() {
    let kp = SigningKey::new(Keypair::new());
    let mut t = GossipTable::new();
    assert_eq!(t.insert(vote(&kp, 0, 10, vec![1]), 1, &GossipRoute::LocalMessage), Ok(()));
    assert_eq!(t.insert(vote(&kp, 1, 10, vec![1]), 1, &GossipRoute::LocalMessage), Ok(()));
    assert_eq!(t.len(), 2);
}

#[test]
fn repeated_insert_counts_duplicates() {
    let kp = SigningKey::new(Keypair::new());
    let mut t = GossipTable::new();
    let v = vote(&kp, 0, 10, vec![1, 2]);
    assert_eq!(t.insert(v.duplicate(), 1, &GossipRoute::PushMessage(id(&kp))), Ok(()));
    let ordinal = t.get(&v).unwrap().ordinal;
    assert_eq!(t.insert(v.duplicate(), 2, &GossipRoute::PushMessage(id(&kp))), Err(GossipTableError::DuplicatePush(1)));
    assert_eq!(t.insert(v.duplicate(), 3, &GossipRoute::PushMessage(id(&kp))), Err(GossipTableError::DuplicatePush(2)));
    assert_eq!(t.get(&v).unwrap().ordinal, ordinal);
    assert_eq!(t.len(), 1);
    let mut c = Cursor(ordinal + 1);
    assert!(t.get_since(RecordKind::Vote, &mut c).is_empty());
}

#[test]
fn newer_record_wins_in_either_order() {
    let kp = SigningKey::new(Keypair::new());
    let older = vote(&kp, 3, 100, vec![1]);
    let newer = vote(&kp, 3, 200, vec![2]);

    let mut a = GossipTable::new();
    assert_eq!(a.insert(older.duplicate(), 1, &GossipRoute::PullResponse), Ok(()));
    assert_eq!(a.insert(newer.duplicate(), 2, &GossipRoute::PullResponse), Ok(()));
    assert_eq!(stored_wallclock(&a, &newer), Some(200));
    assert_eq!(a.len(), 1);

    let mut b = GossipTable::new();
    assert_eq!(b.insert(newer.duplicate(), 1, &GossipRoute::PullResponse), Ok(()));
    assert_eq!(b.insert(older.duplicate(), 2, &GossipRoute::PullResponse), Err(GossipTableError::InsertFailed));
    assert_eq!(stored_wallclock(&b, &newer), Some(200));
    assert_eq!(b.len(), 1);
}

#[test]
fn stale_contact_info_is_rejected() {
    let kp = SigningKey::new(Keypair::new());
    let mut t = GossipTable::new();
    let first = contact(&kp, 100);
    assert_eq!(t.insert(first.duplicate(), 1, &GossipRoute::LocalMessage), Ok(()));
    assert_eq!(t.insert(contact(&kp, 50), 2, &GossipRoute::LocalMessage), Err(GossipTableError::InsertFailed));
    assert_eq!(stored_wallclock(&t, &first), Some(100));
    assert_eq!(t.len(), 1);
}

#[test]
fn same_wallclock_different_content_is_rejected() {
    let kp = SigningKey::new(Keypair::new());
    let mut t = GossipTable::new();
    assert_eq!(t.insert(vote(&kp, 0, 10, vec![1]), 1, &GossipRoute::LocalMessage), Ok(()));
    assert_eq!(t.insert(vote(&kp, 0, 10, vec![9]), 2, &GossipRoute::LocalMessage), Err(GossipTableError::InsertFailed));
}

#[test]
fn replacement_gets_fresh_ordinal_and_purges_old() {
    let kp = SigningKey::new(Keypair::new());
    let mut t = GossipTable::new();
    let old = vote(&kp, 0, 10, vec![1]);
    t.insert(old.duplicate(), 1, &GossipRoute::LocalMessage).unwrap();
    t.insert(vote(&kp, 1, 10, vec![1]), 1, &GossipRoute::LocalMessage).unwrap();
    t.insert(vote(&kp, 0, 11, vec![2]), 2, &GossipRoute::LocalMessage).unwrap();
    assert_eq!(t.get(&old).unwrap().ordinal, 2);
    assert_eq!(t.purged().len(), 1);
    assert_eq!(t.purged()[0].0, old.content_hash());
    assert_eq!(t.purged()[0].1, 2);
}

#[test]
fn get_since_returns_kind_in_ordinal_order() {
    let kp = SigningKey::new(Keypair::new());
    let mut t = GossipTable::new();
    t.insert(vote(&kp, 0, 10, vec![1]), 1, &GossipRoute::LocalMessage).unwrap();
    t.insert(contact(&kp, 10), 1, &GossipRoute::LocalMessage).unwrap();
    t.insert(vote(&kp, 1, 10, vec![1]), 1, &GossipRoute::LocalMessage).unwrap();
    let mut c = Cursor::default();
    let got = t.get_since(RecordKind::Vote, &mut c);
    assert_eq!(got.len(), 2);
    assert_eq!(c.ordinal(), 3);
    let got_again = t.get_since(RecordKind::Vote, &mut c);
    assert!(got_again.is_empty());
    assert_eq!(c.ordinal(), 3);
    t.insert(vote(&kp, 0, 11, vec![1]), 2, &GossipRoute::LocalMessage).unwrap();
    let newer = t.get_since(RecordKind::Vote, &mut c);
    assert_eq!(newer.len(), 1);
    assert_eq!(newer[0].data.wallclock(), 11);
    assert_eq!(c.ordinal(), 4);
}

#[test]
fn purge_identity_evicts_owner_records() {
    let a = SigningKey::new(Keypair::new());
    let b = SigningKey::new(Keypair::new());
    let mut t = GossipTable::new();
    t.insert(vote(&a, 0, 10, vec![1]), 1, &GossipRoute::LocalMessage).unwrap();
    t.insert(vote(&b, 0, 10, vec![1]), 1, &GossipRoute::LocalMessage).unwrap();
    t.insert(contact(&a, 10), 1, &GossipRoute::LocalMessage).unwrap();
    t.purge_identity(&id(&a), 7);
    assert_eq!(t.len(), 1);
    assert_eq!(t.purged().len(), 2);
    assert!(t.get(&vote(&b, 0, 1, vec![])).is_some());
}

#[test]
fn values_matching_skips_what_the_bloom_holds() {
    let kp = SigningKey::new(Keypair::new());
    let mut t = GossipTable::new();
    let held = vote(&kp, 0, 10, vec![1]);
    let missing = vote(&kp, 1, 10, vec![2]);
    t.insert(held.duplicate(), 1, &GossipRoute::LocalMessage).unwrap();
    t.insert(missing.duplicate(), 1, &GossipRoute::LocalMessage).unwrap();

    let mut bloom = empty_bloom();
    let filter_all = DataFilter::with_default_sizing(empty_bloom());
    assert_eq!(t.values_matching(&filter_all).len(), 2);

    let h: [u8; 32] = held.content_hash().try_into().unwrap();
    bloom.bloom.add(&solana_sdk::hash::Hash::new_from_array(h));
    let filter = DataFilter::with_default_sizing(bloom);
    let got = t.values_matching(&filter);
    assert_eq!(got.len(), 1);
    assert_eq!(got[0].content_hash(), missing.content_hash());
}

#[test]
fn values_matching_with_bitless_bloom_is_empty() {
    let kp = SigningKey::new(Keypair::new());
    let mut t = GossipTable::new();
    t.insert(vote(&kp, 0, 10, vec![1]), 1, &GossipRoute::LocalMessage).unwrap();
    let filter = DataFilter::with_default_sizing(HashBloom { bloom: Bloom::new(0, vec![]) });
    assert!(t.values_matching(&filter).is_empty());
}

#[test]
fn values_matching_respects_shard() {
    let kp = SigningKey::new(Keypair::new());
    let mut t = GossipTable::new();
    for i in 0..8u8 {
        t.insert(vote(&kp, i, 10, vec![i]), 1, &GossipRoute::LocalMessage).unwrap();
    }
    let low = DataFilter::new(empty_bloom(), 0, 1);
    let high = DataFilter::new(empty_bloom(), 1, 1);
    let n_low = t.values_matching(&low).len();
    let n_high = t.values_matching(&high).len();
    assert_eq!(n_low + n_high, 8);
    for v in t.values_matching(&high) {
        let h = v.content_hash();
        let x = u64::from_le_bytes(h[..8].try_into().unwrap());
        assert_eq!(x >> 63, 1);
    }
}

#[test]
fn signed_record_verifies_and_tampering_fails() {
    let kp = SigningKey::new(Keypair::new());
    let mut v = vote(&kp, 0, 10, vec![1, 2, 3]);
    assert!(v.verify());
    assert_eq!(v.pubkey(), &id(&kp));
    if let GossipTableData::Vote(_, body) = &mut v.data {
        body.wallclock = 11;
    }
    assert!(!v.verify());
    let unsigned = GossipTableValue::new_unsigned(GossipTableData::LegacyVersion(RecordBody {
        from: id(&kp),
        wallclock: 1,
        body: vec![],
    }));
    assert!(!unsigned.verify());
}

#[test]
fn content_hash_is_a_digest() {
    let kp = SigningKey::new(Keypair::new());
    let v = vote(&kp, 0, 10, vec![1]);
    let h = v.content_hash();
    assert_eq!(h.len(), 32);
    assert_ne!(h, v.content_bytes());
    let expected = solana_sdk::hash::hashv(&[&v.content_bytes()]).to_bytes().to_vec();
    assert_eq!(h, expected);
}

#[test]
fn contact_info_new_advertises_gossip_port() {
    let kp = SigningKey::new(Keypair::new());
    let ci = ContactInfo::new(id(&kp), 5, 2, 8001);
    assert_eq!(ci.pubkey(), &id(&kp));
    assert_eq!(ci.sockets(), &vec![SocketEntry { key: 0, index: 0, offset: 8001 }]);
    assert!(ci.outset > 0);
}

#[test]
fn encoding_frames_kind_and_fields() {
    let data = GossipTableData::LowestSlot(7, RecordBody { from: vec![9; 32], wallclock: 0x0102, body: vec![0xAA] });
    let enc = data.signable_data();
    let mut expected = vec![2, 0, 0, 0, 7];
    expected.extend_from_slice(&[9; 32]);
    expected.extend_from_slice(&[0x02, 0x01, 0, 0, 0, 0, 0, 0]);
    expected.extend_from_slice(&[1, 0, 0, 0, 0, 0, 0, 0]);
    expected.push(0xAA);
    assert_eq!(enc, expected);
    let vote = GossipTableData::Vote(3, Vote { from: vec![9; 32], transaction: vec![0xAA], wallclock: 0x0102, slot: Some(5) });
    let enc = vote.signable_data();
    let mut expected = vec![1, 0, 0, 0, 3];
    expected.extend_from_slice(&[9; 32]);
    expected.extend_from_slice(&[1, 0, 0, 0, 0, 0, 0, 0, 0xAA]);
    expected.extend_from_slice(&[0x02, 0x01, 0, 0, 0, 0, 0, 0]);
    expected.extend_from_slice(&[1, 5, 0, 0, 0, 0, 0, 0, 0]);
    assert_eq!(enc, expected);
    let version = GossipTableData::Version(Version {
        from: vec![9; 32],
        wallclock: 1,
        major: 2,
        minor: 1,
        patch: 3,
        commit: None,
        feature_set: 7,
        client: 1,
    });
    assert_eq!(version.signable_data().len(), 4 + 32 + 8 + 6 + 1 + 4 + 2);
}

#[test]
fn per_owner_bound_evicts_oldest_of_kind() {
    let a = SigningKey::new(Keypair::new());
    let b = SigningKey::new(Keypair::new());
    let limits = TableLimits { max_votes: 2, max_epoch_slots: 1, max_duplicate_shreds: 1 };
    let mut t = GossipTable::with_limits(limits);
    let first = vote(&a, 0, 10, vec![0]);
    t.insert(first.duplicate(), 1, &GossipRoute::LocalMessage).unwrap();
    t.insert(vote(&b, 0, 10, vec![0]), 1, &GossipRoute::LocalMessage).unwrap();
    t.insert(contact(&a, 10), 1, &GossipRoute::LocalMessage).unwrap();
    t.insert(vote(&a, 1, 10, vec![1]), 2, &GossipRoute::LocalMessage).unwrap();
    assert_eq!(t.len(), 4);
    assert!(t.purged().is_empty());
    let third = vote(&a, 2, 10, vec![2]);
    t.insert(third.duplicate(), 3, &GossipRoute::LocalMessage).unwrap();
    assert_eq!(t.len(), 4);
    assert!(t.get(&first).is_none());
    assert!(t.get(&third).is_some());
    assert!(t.get(&vote(&b, 0, 1, vec![])).is_some());
    assert_eq!(t.purged().len(), 1);
    assert_eq!(t.purged()[0].0, first.content_hash());
    assert_eq!(t.purged()[0].1, 3);
    // a replacement within the bound evicts nothing
    t.insert(vote(&a, 2, 11, vec![3]), 4, &GossipRoute::LocalMessage).unwrap();
    assert_eq!(t.len(), 4);
    assert_eq!(t.purged().len(), 2);
}

#[test]
fn duplicate_shred_reports_are_indexed_records() {
    let kp = SigningKey::new(Keypair::new());
    let report = |index: u16, chunk_index: u8| {
        let d = DuplicateShred {
            from: id(&kp),
            wallclock: 10,
            slot: 77,
            shred_type: ShredType::Code,
            num_chunks: 2,
            chunk_index,
            chunk: vec![chunk_index; 4],
        };
        GossipTableValue::new_signed(GossipTableData::DuplicateShred(index, d), &kp)
    };
    let first = report(0, 0);
    assert!(first.verify());
    assert_eq!(first.pubkey(), &id(&kp));
    let enc = first.data.signable_data();
    assert_eq!(&enc[..6], &[9, 0, 0, 0, 0, 0]);
    assert_eq!(enc[6 + 32 + 8 + 8 + 4], 90);
    let mut t = GossipTable::new();
    t.insert(first, 1, &GossipRoute::LocalMessage).unwrap();
    t.insert(report(1, 1), 1, &GossipRoute::LocalMessage).unwrap();
    assert_eq!(t.len(), 2);
    let mut c = Cursor::default();
    assert_eq!(t.get_since(RecordKind::DuplicateShred, &mut c).len(), 2);
}

#[test]
fn trim_purged_keeps_recent_window() {
    let kp = SigningKey::new(Keypair::new());
    let mut t = GossipTable::new();
    t.insert(vote(&kp, 0, 1, vec![]), 1, &GossipRoute::LocalMessage).unwrap();
    t.insert(vote(&kp, 0, 2, vec![]), 5, &GossipRoute::LocalMessage).unwrap();
    t.insert(vote(&kp, 0, 3, vec![]), 9, &GossipRoute::LocalMessage).unwrap();
    assert_eq!(t.purged().len(), 2);
    t.trim_purged(6);
    assert_eq!(t.purged().len(), 1);
    assert_eq!(t.purged()[0].1, 9);
}

#[test]
fn many_inserts_keep_one_entry_per_label() {
    let a = SigningKey::new(Keypair::new());
    let b = SigningKey::new(Keypair::new());
    let mut t = GossipTable::new();
    for round in 0..5u64 {
        for i in 0..4u8 {
            let _ = t.insert(vote(&a, i, round * 3 % 5, vec![i, round as u8]), round, &GossipRoute::LocalMessage);
            let _ = t.insert(vote(&b, i, 4 - round, vec![i]), round, &GossipRoute::LocalMessage);
        }
    }
    let mut c = Cursor::default();
    let all = t.get_since(RecordKind::Vote, &mut c);
    assert_eq!(all.len(), 8);
    for (x, v) in all.iter().enumerate() {
        for w in all.iter().skip(x + 1) {
            let same = v.pubkey() == w.pubkey()
                && matches!((&v.data, &w.data), (GossipTableData::Vote(i, _), GossipTableData::Vote(j, _)) if i == j);
            assert!(!same);
        }
    }
}

#[test]
fn field_records_encode_their_fields() {
    let kp = SigningKey::new(Keypair::new());
    let n = NodeInstance { from: id(&kp), wallclock: 1, timestamp: 2, token: 3 };
    let v = GossipTableValue::new_signed(GossipTableData::NodeInstance(n), &kp);
    assert!(v.verify());
    let enc = v.data.signable_data();
    assert_eq!(enc.len(), 4 + 32 + 24);
    assert_eq!(&enc[..4], &[8, 0, 0, 0]);
    assert_eq!(enc[4 + 32 + 8], 2);
    assert_eq!(enc[4 + 32 + 16], 3);
    let f = RestartHeaviestFork {
        from: id(&kp),
        wallclock: 9,
        last_slot: 100,
        last_slot_hash: vec![7; 32],
        observed_stake: 55,
        shred_version: 4,
    };
    let w = GossipTableValue::new_signed(GossipTableData::RestartHeaviestFork(f), &kp);
    assert!(w.verify());
    assert_eq!(w.data.wallclock(), 9);
    let enc = w.data.signable_data();
    assert_eq!(enc.len(), 4 + 32 + 8 + 8 + 32 + 8 + 2);
    assert_eq!(&enc[enc.len() - 2..], &[4, 0]);
    let mut t = GossipTable::new();
    t.insert(v, 1, &GossipRoute::LocalMessage).unwrap();
    t.insert(w, 1, &GossipRoute::LocalMessage).unwrap();
    assert_eq!(t.len(), 2);
}

#[test]
fn signed_by_other_key_does_not_verify() {
    let owner = SigningKey::new(Keypair::new());
    let other = SigningKey::new(Keypair::new());
    let data = GossipTableData::Vote(0, Vote { from: id(&owner), transaction: vec![], wallclock: 1, slot: None });
    let mut v = GossipTableValue::new_unsigned(data);
    v.sign(&other);
    assert!(!v.verify());
    v.sign(&owner);
    assert!(v.verify());
}

#[test]
fn contact_info_encodes_addresses() {
    let kp = SigningKey::new(Keypair::new());
    let mut ci = ContactInfo::new(id(&kp), 5, 2, 8001);
    assert!(ci.addrs.is_empty());
    let bare = GossipTableData::ContactInfo(ci.duplicate()).signable_data();
    ci.addrs.push(vec![10, 0, 0, 1]);
    let copy = ci.duplicate();
    assert_eq!(copy.addrs, vec![vec![10, 0, 0, 1]]);
    let with_addr = GossipTableData::ContactInfo(ci).signable_data();
    assert_eq!(with_addr.len(), bare.len() + 8 + 4);
}

#[test]
fn shred_version_comes_from_contact_record() {
    let a = SigningKey::new(Keypair::new());
    let b = SigningKey::new(Keypair::new());
    let mut t = GossipTable::new();
    let ci = ContactInfo::new(id(&a), 5, 42, 8001);
    t.insert(GossipTableValue::new_signed(GossipTableData::ContactInfo(ci), &a), 1, &GossipRoute::LocalMessage).unwrap();
    t.insert(vote(&b, 0, 1, vec![]), 1, &GossipRoute::LocalMessage).unwrap();
    assert_eq!(t.shred_version(&id(&a)), Some(42));
    assert_eq!(t.shred_version(&id(&b)), None);
}

#[test]
fn signing_key_reports_keypair_identity() {
    let kp = Keypair::new();
    let expected = solana_sdk::signer::Signer::pubkey(&kp).to_bytes().to_vec();
    let key = SigningKey::new(kp);
    assert_eq!(key.pubkey(), &expected);
}

#[test]
fn timestamp_conversion_saturates() {
    assert_eq!(timestamp_from_micros(None), 0);
    assert_eq!(timestamp_from_micros(Some(17)), 17);
    assert_eq!(timestamp_from_micros(Some(u128::from(u64::MAX) + 1)), u64::MAX);
    assert!(get_timestamp() > 1_600_000_000_000_000);
}
