use gossip_core::contact_info::ContactInfo;
use gossip_core::data::{GossipTableData, GossipTableValue};
use gossip_core::records::Vote;
use gossip_core::filter::{DataFilter, HashBloom};
use gossip_core::ping_pong::{Ping, PingCache, Pong};
use gossip_core::protocol::{create_pull_request_message, process_message, Protocol, PushMessagesErrors};
use gossip_core::table::GossipTable;
use solana_bloom::bloom::Bloom;
use solana_sdk::signature::Keypair;
use gossip_core::crypto::SigningKey;

fn id(kp: &SigningKey) -> Vec<u8> {
    kp.pubkey().clone()
}

fn addr(last: u8, port: u16) -> (Vec<u8>, u16) {
    (vec![10, 0, 0, last], port)
}

fn empty_filter() -> DataFilter {
    DataFilter::with_default_sizing(HashBloom { bloom: Bloom::random(100, 0.1, 7427) })
}

#[test]
fn ping_pong_round_trip_validates_node() {
    let a = SigningKey::new(Keypair::new());
    let b = SigningKey::new(Keypair::new());
    let b_addr = addr(2, 8001);
    let mut cache = PingCache::new(10_000, 500, 16);
    let node = (id(&b), b_addr.clone());

    let (valid, ping) = cache.check(0, node.clone(), || Ping::rand(&a).ok());
    assert!(!valid);
    let ping = ping.expect("a first check sends a ping");
    assert_eq!(ping.from, id(&a));

    let pong = Pong::new(&ping, &b).unwrap();
    assert_eq!(pong.from(), &id(&b));
    let sig = solana_sdk::signature::Signature::try_from(pong.signature.as_slice()).unwrap();
    assert!(sig.verify(&id(&b), &pong.hash));
    assert!(cache.add(&pong, b_addr.clone(), 100));

    let (valid, ping) = cache.check(101, node, || Ping::rand(&a).ok());
    assert!(valid);
    assert!(ping.is_none());
}

#[test]
fn pong_from_other_address_is_ignored() {
    let a = SigningKey::new(Keypair::new());
    let b = SigningKey::new(Keypair::new());
    let mut cache = PingCache::new(10_000, 500, 16);
    let node = (id(&b), addr(2, 8001));
    let (_, ping) = cache.check(0, node.clone(), || Ping::rand(&a).ok());
    let pong = Pong::new(&ping.unwrap(), &b).unwrap();
    assert!(!cache.add(&pong, addr(3, 8001), 10));
    assert!(!cache.add(&pong, addr(2, 8002), 10));
    let c = SigningKey::new(Keypair::new());
    let wrong_sender = Pong::new(&Ping::new([7u8; 32], &a).unwrap(), &c).unwrap();
    assert!(!cache.add(&wrong_sender, addr(2, 8001), 10));
    assert!(cache.add(&pong, addr(2, 8001), 10));
    assert!(!cache.add(&pong, addr(2, 8001), 11));
}

#[test]
fn ping_is_rate_limited() {
    let a = SigningKey::new(Keypair::new());
    let b = SigningKey::new(Keypair::new());
    let mut cache = PingCache::new(10_000, 500, 16);
    let node = (id(&b), addr(2, 8001));
    assert!(cache.check(0, node.clone(), || Ping::rand(&a).ok()).1.is_some());
    assert!(cache.check(499, node.clone(), || Ping::rand(&a).ok()).1.is_none());
    assert!(cache.check(500, node, || Ping::rand(&a).ok()).1.is_some());
}

#[test]
fn aging_pong_triggers_refresh_and_expires() {
    let a = SigningKey::new(Keypair::new());
    let b = SigningKey::new(Keypair::new());
    let b_addr = addr(2, 8001);
    let mut cache = PingCache::new(800, 50, 16);
    let node = (id(&b), b_addr.clone());
    let (_, ping) = cache.check(0, node.clone(), || Ping::rand(&a).ok());
    let pong = Pong::new(&ping.unwrap(), &b).unwrap();
    assert!(cache.add(&pong, b_addr, 1000));
    // age 100 is an eighth of the ttl: no refresh yet
    assert_eq!(cache.check(1100, node.clone(), || Ping::rand(&a).ok()).0, true);
    assert!(cache.check(1100, node.clone(), || Ping::rand(&a).ok()).1.is_none());
    // age 101: refresh due
    let (valid, ping) = cache.check(1101, node.clone(), || Ping::rand(&a).ok());
    assert!(valid);
    assert!(ping.is_some());
    // age 801: past the ttl, still valid this once, then dropped
    let (valid, _) = cache.check(1801, node.clone(), || Ping::rand(&a).ok());
    assert!(valid);
    let (valid, _) = cache.check(1802, node, || Ping::rand(&a).ok());
    assert!(!valid);
}

#[test]
fn pong_hash_depends_on_token() {
    let a = SigningKey::new(Keypair::new());
    let b = SigningKey::new(Keypair::new());
    let p1 = Ping::new([1u8; 32], &a).unwrap();
    let p2 = Ping::new([2u8; 32], &a).unwrap();
    assert_eq!(p1.token, [1u8; 32]);
    let h1 = Pong::new(&p1, &b).unwrap().hash;
    let h2 = Pong::new(&p2, &b).unwrap().hash;
    assert_eq!(h1.len(), 32);
    assert_ne!(h1, h2);
    let mut msg = b"SOLANA_PING_PONG".to_vec();
    msg.extend_from_slice(&[1u8; 32]);
    assert_eq!(h1, solana_sdk::hash::hash(&msg).to_bytes().to_vec());
}

#[test]
fn pull_request_needs_a_socket() {
    let kp = SigningKey::new(Keypair::new());
    let mut ci = ContactInfo::new(id(&kp), 1, 0, 8001);
    ci.sockets.clear();
    assert!(matches!(
        create_pull_request_message(ci, empty_filter(), &kp),
        Err(PushMessagesErrors::NoSocketEntry)
    ));
    let ci = ContactInfo::new(id(&kp), 1, 0, 8001);
    match create_pull_request_message(ci, empty_filter(), &kp) {
        Ok(Protocol::PullRequest(_, v)) => assert!(v.verify()),
        _ => panic!("expected a pull request"),
    }
}

#[test]
fn dispatch_answers_ping_with_pong() {
    let me = SigningKey::new(Keypair::new());
    let peer = SigningKey::new(Keypair::new());
    let mut table = GossipTable::new();
    let mut cache = PingCache::new(10_000, 500, 16);
    let ping = Ping::new([5u8; 32], &peer).unwrap();
    let expected = Pong::new(&ping, &me).unwrap().hash;
    let out = process_message(&mut table, &mut cache, Protocol::PingMessage(ping), addr(9, 1), 0, &me);
    assert_eq!(out.len(), 1);
    match &out[0] {
        Protocol::PongMessage(p) => {
            assert_eq!(p.hash, expected);
            assert_eq!(p.from, id(&me));
        },
        _ => panic!("expected a pong"),
    }
}

#[test]
fn dispatch_push_drops_only_bad_records() {
    let me = SigningKey::new(Keypair::new());
    let peer = SigningKey::new(Keypair::new());
    let mut table = GossipTable::new();
    let mut cache = PingCache::new(10_000, 500, 16);
    let good = GossipTableValue::new_signed(
        GossipTableData::Vote(0, Vote { from: id(&peer), transaction: vec![1], wallclock: 5, slot: None }),
        &peer,
    );
    let mut bad = GossipTableValue::new_signed(
        GossipTableData::Vote(1, Vote { from: id(&peer), transaction: vec![1], wallclock: 5, slot: None }),
        &peer,
    );
    bad.set_signature(vec![0u8; 64]);
    let out = process_message(
        &mut table,
        &mut cache,
        Protocol::PushMessage(vec![bad, good]),
        addr(9, 1),
        3,
        &me,
    );
    assert!(out.is_empty());
    assert_eq!(table.len(), 1);
}

#[test]
fn dispatch_pull_request_gated_by_validation() {
    let me = SigningKey::new(Keypair::new());
    let peer = SigningKey::new(Keypair::new());
    let peer_addr = addr(7, 8001);
    let mut table = GossipTable::new();
    let mut cache = PingCache::new(10_000, 500, 16);
    let mine = GossipTableValue::new_signed(
        GossipTableData::Vote(0, Vote { from: id(&me), transaction: vec![1], wallclock: 5, slot: None }),
        &me,
    );
    table.insert(mine, 1, &gossip_core::table::GossipRoute::LocalMessage).unwrap();

    let request = |kp: &SigningKey| {
        create_pull_request_message(ContactInfo::new(id(kp), 1, 0, 8001), empty_filter(), kp).unwrap()
    };
    let out = process_message(&mut table, &mut cache, request(&peer), peer_addr.clone(), 10, &me);
    assert_eq!(out.len(), 1);
    let ping = match out.into_iter().next().unwrap() {
        Protocol::PingMessage(p) => p,
        _ => panic!("an unvalidated requester gets a ping only"),
    };
    let pong = Pong::new(&ping, &peer).unwrap();
    let out = process_message(&mut table, &mut cache, Protocol::PongMessage(pong), peer_addr.clone(), 20, &me);
    assert!(out.is_empty());

    let out = process_message(&mut table, &mut cache, request(&peer), peer_addr, 30, &me);
    assert_eq!(out.len(), 1);
    match &out[0] {
        Protocol::PullResponse(from, values) => {
            assert_eq!(from, &id(&me));
            assert_eq!(values.len(), 1);
            assert_eq!(values[0].data.wallclock(), 5);
        },
        _ => panic!("a validated requester gets a pull response"),
    }
}
