use gossip_core::layout::{get_index, get_shred_variant, get_signature, get_signed_data, get_slot, SignedData};
use gossip_core::merkle::{capacity, get_merkle_node, get_merkle_proof, get_merkle_root, get_merkle_root_from_shred, get_proof_offset, join_nodes, MerkleRootErrors};
use gossip_core::shred::{ErasureSetId, ShredId, ShredType, ShredVariant};
use gossip_core::verify_shred::{verify_shred, Meta, Packet, REPAIR};

#[test]
fn variant_byte_decoding() {
    assert_eq!(ShredVariant::from_u8(0b0101_1010), Ok(ShredVariant::LegacyCode));
    assert_eq!(ShredVariant::from_u8(0b1010_0101), Ok(ShredVariant::LegacyData));
    assert_eq!(
        ShredVariant::from_u8(0x63),
        Ok(ShredVariant::MerkleCode { proof_size: 3, chained: true, resigned: false })
    );
    assert_eq!(
        ShredVariant::from_u8(0x7f),
        Ok(ShredVariant::MerkleCode { proof_size: 15, chained: true, resigned: true })
    );
    assert_eq!(
        ShredVariant::from_u8(0x86),
        Ok(ShredVariant::MerkleData { proof_size: 6, chained: false, resigned: false })
    );
    assert_eq!(
        ShredVariant::from_u8(0x91),
        Ok(ShredVariant::MerkleData { proof_size: 1, chained: true, resigned: false })
    );
    assert_eq!(
        ShredVariant::from_u8(0xb2),
        Ok(ShredVariant::MerkleData { proof_size: 2, chained: true, resigned: true })
    );
    assert_eq!(ShredVariant::from_u8(0x00), Err(()));
    assert_eq!(ShredVariant::from_u8(0xff), Err(()));
    assert_eq!(
        ShredVariant::from_u8(0x45),
        Ok(ShredVariant::MerkleCode { proof_size: 5, chained: false, resigned: false })
    );
    assert_eq!(ShredVariant::from_u8(0x55), Err(()));
    assert_eq!(ShredVariant::from_u8(0xa4), Err(()));
}

#[test]
fn shred_type_tags() {
    assert_eq!(ShredType::Data.to_u8(), 165);
    assert_eq!(ShredType::Code.to_u8(), 90);
    assert_eq!(ShredType::try_from_u8(90), Some(ShredType::Code));
    assert_eq!(ShredType::try_from_u8(1), None);
}

fn header() -> Vec<u8> {
    let mut s = vec![0u8; 1228];
    for i in 0..64 {
        s[i] = i as u8;
    }
    s[64] = 0b1010_0101;
    s[65..73].copy_from_slice(&0x0102_0304_0506_0708u64.to_le_bytes());
    s[73..77].copy_from_slice(&9u32.to_le_bytes());
    s[79..83].copy_from_slice(&8u32.to_le_bytes());
    s
}

#[test]
fn header_fields() {
    let s = header();
    assert_eq!(get_slot(&s), Some(0x0102_0304_0506_0708));
    assert_eq!(get_index(&s), Some(9));
    assert_eq!(get_signature(&s), Some((0..64u8).collect::<Vec<u8>>()));
    assert_eq!(get_shred_variant(&s), Some(ShredVariant::LegacyData));
    assert_eq!(get_slot(&s[..72]), None);
    assert_eq!(get_index(&s[..76]), None);
    assert_eq!(get_signature(&s[..63]), None);
    assert_eq!(get_shred_variant(&s[..64]), None);
}

#[test]
fn legacy_signed_data_is_payload_past_signature() {
    let s = header();
    match get_signed_data(&s) {
        Some(SignedData::Chunk(c)) => assert_eq!(c, s[64..1228].to_vec()),
        _ => panic!("expected a chunk"),
    }
    assert!(get_signed_data(&s[..1227]).is_none());
}

#[test]
fn merkle_sizes() {
    assert_eq!(capacity(0, false, false), Ok(1116));
    assert_eq!(capacity(6, true, true), Ok(1204 - (88 + 32 + 120 + 64)));
    assert_eq!(capacity(255, false, false), Err(MerkleRootErrors::InvalidProofSize));
    assert_eq!(get_proof_offset(6, true, false), Ok(88 + (1204 - (88 + 32 + 120)) + 32));
    assert_eq!(get_proof_offset(255, true, false), Err(MerkleRootErrors::InvalidProofSize));
}

#[test]
fn merkle_root_walk() {
    let leaf = vec![3u8; 32];
    assert_eq!(get_merkle_root(0, leaf.clone(), &vec![]), Ok(leaf.clone()));
    assert_eq!(get_merkle_root(1, leaf.clone(), &vec![]), Err(MerkleRootErrors::InvalidMerkleProof));
    let sibling = vec![4u8; 20];
    let left = join_nodes(&leaf, &sibling);
    let right = join_nodes(&sibling, &leaf);
    assert_ne!(left, right);
    assert_eq!(get_merkle_root(0, leaf.clone(), &vec![sibling.clone()]), Ok(left.clone()));
    assert_eq!(get_merkle_root(1, leaf.clone(), &vec![sibling.clone()]), Ok(right));
    let mut msg = b"\x01SOLANA_MERKLE_SHREDS_NODE".to_vec();
    msg.extend_from_slice(&leaf[..20]);
    msg.extend_from_slice(&sibling);
    assert_eq!(left, solana_sdk::hash::hash(&msg).to_bytes().to_vec());
}

#[test]
fn merkle_proof_and_leaf() {
    let shred: Vec<u8> = (0..200u32).map(|i| i as u8).collect();
    let proof = get_merkle_proof(&shred, 100, 2).unwrap();
    assert_eq!(proof, vec![shred[100..120].to_vec(), shred[120..140].to_vec()]);
    assert!(matches!(get_merkle_proof(&shred, 190, 1), Err(MerkleRootErrors::InvalidPayloadSize)));
    let node = get_merkle_node(&shred, 64, 100).unwrap();
    let mut msg = b"\x00SOLANA_MERKLE_SHREDS_LEAF".to_vec();
    msg.extend_from_slice(&shred[64..100]);
    assert_eq!(node, solana_sdk::hash::hash(&msg).to_bytes().to_vec());
    assert!(get_merkle_node(&shred, 100, 64).is_err());
}

#[test]
fn merkle_root_from_shred_and_signed_data() {
    let mut s = vec![0u8; 1204];
    s[64] = 0x81;
    s[73..77].copy_from_slice(&9u32.to_le_bytes());
    s[79..83].copy_from_slice(&8u32.to_le_bytes());
    let off = get_proof_offset(1, false, false).unwrap();
    assert_eq!(off, 1184);
    let leaf = get_merkle_node(&s, 64, off).unwrap();
    let root = get_merkle_root(1, leaf, &vec![s[off..off + 20].to_vec()]).unwrap();
    assert_eq!(get_merkle_root_from_shred(&s, 1, false, false), Some(root.clone()));
    match get_signed_data(&s) {
        Some(SignedData::MerkleRoot(r)) => assert_eq!(r, root),
        _ => panic!("expected a merkle root"),
    }
    let mut later = s.clone();
    later[79..83].copy_from_slice(&10u32.to_le_bytes());
    assert_eq!(get_merkle_root_from_shred(&later, 1, false, false), None);
}

#[test]
fn shred_ids() {
    let id = ShredId::new(5, 7, ShredType::Code);
    assert_eq!(id.slot(), 5);
    assert_eq!(id.unpack(), (5, 7, ShredType::Code));
    let leader = vec![1u8; 32];
    let seed = id.seed(&leader);
    let expected = solana_sdk::hash::hashv(&[&5u64.to_le_bytes(), &[90u8], &7u32.to_le_bytes(), &leader]);
    assert_eq!(seed, expected.to_bytes().to_vec());
    let set = ErasureSetId::new(5, 3);
    assert_eq!(set.slot(), 5);
    assert_eq!(set.store_key(), (5, 3));
}

#[test]
fn packet_checks() {
    let packet = Packet { data: header().into_iter().chain([0u8; 4]).collect(), meta: Meta { size: 1232, addr: vec![127, 0, 0, 1], port: 1, flags: 0 } };
    assert_eq!(packet.get_packet_size(), 1232);
    assert_eq!(packet.get_shred().unwrap().len(), 1232);
    let repair = Packet { data: vec![0u8; 1232], meta: Meta { size: 1232, addr: vec![127, 0, 0, 1], port: 1, flags: REPAIR } };
    assert_eq!(repair.get_packet_size(), 1228);
    assert!(verify_shred(packet).is_ok());
}
