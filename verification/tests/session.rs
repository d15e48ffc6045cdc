//! The multi-share session handle: construction, certificate swap,
//! round routing, artifact collection and whole-session suspension.

use meesign_crypto::api::{must_seal, AuthKey, Buffer, Protocol, ProtocolId, Recipient};
use meesign_crypto::error::ProtocolError;
use meesign_crypto::proto::{
    ClientMessage, ProtocolGroupInit, ProtocolInit, ProtocolType, ServerMessage,
};

fn group_init(index: u32, parties: u32) -> Vec<u8> {
    ProtocolGroupInit {
        protocol_type: ProtocolType::Musig2,
        index,
        parties,
        threshold: parties,
    }
    .encode_to_vec()
}

/// Two single-share sessions run one key generation against each
/// other; returns their finished artifact lists.
fn run_session_keygen() -> (Vec<u8>, Vec<u8>, Vec<Vec<u8>>) {
    let mut a = Protocol::keygen(ProtocolId::Musig2, vec![1], b"id-a".to_vec(), false, 1);
    let mut b = Protocol::keygen(ProtocolId::Musig2, vec![2], b"id-b".to_vec(), false, 1);

    // the first advance swaps certificate bundles
    let (a_id, rec) = a.advance_share(0, &b"peer-bundle-b".to_vec(), true).unwrap();
    assert!(matches!(rec, Recipient::Server));
    assert_eq!(a_id, b"id-a".to_vec());
    let (b_id, _) = b.advance_share(0, &b"peer-bundle-a".to_vec(), true).unwrap();
    assert_eq!(b_id, b"id-b".to_vec());

    // keygen round 0
    let (a_out, _) = a.advance_share(0, &group_init(1, 2), true).unwrap();
    let (b_out, _) = b.advance_share(0, &group_init(2, 2), true).unwrap();
    let a_pk = ClientMessage::decode(&a_out).unwrap().broadcast.unwrap();
    let b_pk = ClientMessage::decode(&b_out).unwrap().broadcast.unwrap();

    // keygen round 1
    let to_a = ServerMessage {
        protocol_type: ProtocolType::Musig2,
        broadcasts: vec![(2, b_pk.clone())],
        unicasts: Vec::new(),
    }
    .encode_to_vec();
    let to_b = ServerMessage {
        protocol_type: ProtocolType::Musig2,
        broadcasts: vec![(1, a_pk.clone())],
        unicasts: Vec::new(),
    }
    .encode_to_vec();
    let (a_agg, _) = a.advance_share(0, &to_a, true).unwrap();
    let (b_agg, _) = b.advance_share(0, &to_b, true).unwrap();
    let a_agg = ClientMessage::decode(&a_agg).unwrap().broadcast.unwrap();
    let b_agg = ClientMessage::decode(&b_agg).unwrap().broadcast.unwrap();
    assert_eq!(a_agg, b_agg);

    let arts_a = a.finish_all().unwrap();
    let arts_b = b.finish_all().unwrap();
    (arts_a.clone(), arts_b.clone(), vec![arts_a, arts_b])
}

#[test]
fn session_keygen_and_sign() {
    let (arts_a, arts_b, _) = run_session_keygen();

    let mut a = Protocol::init(ProtocolId::Musig2, &arts_a, vec![1], b"id-a".to_vec(), 1).unwrap();
    let mut b = Protocol::init(ProtocolId::Musig2, &arts_b, vec![2], b"id-b".to_vec(), 1).unwrap();

    let msg = b"hello".to_vec();
    let sign_init = |index: u32| {
        ProtocolInit {
            protocol_type: ProtocolType::Musig2,
            indices: vec![1, 2],
            index,
            data: msg.clone(),
        }
        .encode_to_vec()
    };
    let (a_out, _) = a.advance_share(0, &sign_init(1), true).unwrap();
    let (b_out, _) = b.advance_share(0, &sign_init(2), true).unwrap();
    let mut a_b = ClientMessage::decode(&a_out).unwrap().broadcast.unwrap();
    let mut b_b = ClientMessage::decode(&b_out).unwrap().broadcast.unwrap();

    for _round in 0..2 {
        let to_a = ServerMessage {
            protocol_type: ProtocolType::Musig2,
            broadcasts: vec![(2, b_b.clone())],
            unicasts: Vec::new(),
        }
        .encode_to_vec();
        let to_b = ServerMessage {
            protocol_type: ProtocolType::Musig2,
            broadcasts: vec![(1, a_b.clone())],
            unicasts: Vec::new(),
        }
        .encode_to_vec();
        let (a_out, _) = a.advance_share(0, &to_a, true).unwrap();
        let (b_out, _) = b.advance_share(0, &to_b, true).unwrap();
        a_b = ClientMessage::decode(&a_out).unwrap().broadcast.unwrap();
        b_b = ClientMessage::decode(&b_out).unwrap().broadcast.unwrap();
    }
    assert_eq!(a_b, b_b);
    assert_eq!(a_b.len(), 64);

    let sig_list_a = a.finish_all().unwrap();
    let sig_list_b = b.finish_all().unwrap();
    assert_eq!(sig_list_a, sig_list_b);
}

#[test]
fn session_serialize_round_trip() {
    let mut a = Protocol::keygen(ProtocolId::Musig2, vec![9], b"me".to_vec(), false, 2);
    let _ = a.advance_share(1, &b"peer".to_vec(), true).unwrap();
    let snap = a.serialize();
    let restored = Protocol::deserialize(&snap).expect("restores");
    assert_eq!(restored.serialize(), snap);
}

#[test]
fn session_rejects_broken_snapshot() {
    let a = Protocol::keygen(ProtocolId::Musig2, vec![], vec![], false, 1);
    let mut snap = a.serialize();
    snap.pop();
    assert!(Protocol::deserialize(&snap).is_none());
}

#[test]
fn rejected_bundle_poisons_the_session() {
    let mut a = Protocol::keygen(ProtocolId::Musig2, vec![1], b"id-a".to_vec(), false, 1);
    // the host's verification of the inbound bundle failed
    match a.advance_share(0, &b"forged-bundle".to_vec(), false) {
        Ok(_) => panic!("rejected bundle accepted"),
        Err(e) => assert_eq!(e, ProtocolError::TransportAuthFailed),
    }
    // the session is poisoned: a later, verified bundle no longer helps
    match a.advance_share(0, &b"honest-bundle".to_vec(), true) {
        Ok(_) => panic!("poisoned session advanced"),
        Err(e) => assert_eq!(e, ProtocolError::TransportAuthFailed),
    }
}

#[test]
fn init_rejects_short_artifact_list() {
    match Protocol::init(ProtocolId::Musig2, &b"not an artifact list".to_vec(), vec![], vec![], 1) {
        Ok(_) => panic!("garbage artifact list accepted"),
        Err(e) => assert_eq!(e, ProtocolError::CodecInternal),
    }
}

#[test]
fn only_server_bound_rounds_are_sealed() {
    assert!(must_seal(Recipient::Server));
    assert!(!must_seal(Recipient::Card));
    assert!(!must_seal(Recipient::Unknown));
}

#[test]
fn buffers_carry_their_recipient() {
    let b = Buffer::from_vec(vec![1, 2], Recipient::Card);
    assert_eq!(b.data, vec![1, 2]);
    assert!(matches!(b.rec, Recipient::Card));

    let b: Buffer = vec![3].into();
    assert!(matches!(b.rec, Recipient::Unknown));

    let k = AuthKey::new(vec![4], vec![5]);
    assert_eq!(k.key.data, vec![4]);
    assert_eq!(k.csr.data, vec![5]);

    let t: ProtocolType = ProtocolId::Frost.into();
    assert!(matches!(t, ProtocolType::Frost));
}
