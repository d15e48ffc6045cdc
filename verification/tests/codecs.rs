//! Structural codecs: wire records, APDU frames and raw-payload
//! helpers round-trip concrete values exactly.

use meesign_crypto::apdu::{parse_response, CommandBuilder};
use meesign_crypto::error::ProtocolError;
use meesign_crypto::musig2::deserialize_musig;
use meesign_crypto::proto::{
    encode_raw_bcast, encode_raw_uni, ClientMessage, ProtocolGroupInit, ProtocolInit,
    ProtocolType, ServerMessage,
};

#[test]
fn client_message_round_trip() {
    let m = ClientMessage {
        protocol_type: ProtocolType::Musig2,
        broadcast: Some(vec![1, 2, 3]),
        unicasts: vec![(1, vec![4]), (3, vec![])],
    };
    let bytes = m.encode_to_vec();
    let back = ClientMessage::decode(&bytes).expect("decodes");
    assert!(matches!(back.protocol_type, ProtocolType::Musig2));
    assert_eq!(back.broadcast, Some(vec![1, 2, 3]));
    assert_eq!(back.unicasts, vec![(1, vec![4]), (3, vec![])]);
}

#[test]
fn server_message_round_trip() {
    let m = ServerMessage {
        protocol_type: ProtocolType::Gg18,
        broadcasts: vec![(2, vec![9, 9]), (5, vec![7])],
        unicasts: vec![(1, vec![0])],
    };
    let bytes = m.encode_to_vec();
    let back = ServerMessage::decode(&bytes).expect("decodes");
    assert!(matches!(back.protocol_type, ProtocolType::Gg18));
    assert_eq!(back.broadcasts, vec![(2, vec![9, 9]), (5, vec![7])]);
    assert_eq!(back.unicasts, vec![(1, vec![0])]);
}

#[test]
fn trailing_bytes_are_rejected() {
    let m = ClientMessage {
        protocol_type: ProtocolType::Frost,
        broadcast: None,
        unicasts: Vec::new(),
    };
    let mut bytes = m.encode_to_vec();
    bytes.push(0);
    assert!(ClientMessage::decode(&bytes).is_none());
}

#[test]
fn group_init_round_trip() {
    let m = ProtocolGroupInit {
        protocol_type: ProtocolType::Elgamal,
        index: 2,
        parties: 3,
        threshold: 2,
    };
    let bytes = m.encode_to_vec();
    assert_eq!(bytes.len(), 13);
    let back = ProtocolGroupInit::decode(&bytes).expect("decodes");
    assert_eq!(back, m);
}

#[test]
fn init_round_trip() {
    let m = ProtocolInit {
        protocol_type: ProtocolType::Musig2,
        indices: vec![1, 2, 3],
        index: 3,
        data: b"payload".to_vec(),
    };
    let bytes = m.encode_to_vec();
    let back = ProtocolInit::decode(&bytes).expect("decodes");
    assert!(matches!(back.protocol_type, ProtocolType::Musig2));
    assert_eq!(back.indices, vec![1, 2, 3]);
    assert_eq!(back.index, 3);
    assert_eq!(back.data, b"payload".to_vec());
}

#[test]
fn raw_encoders_wrap_payloads() {
    let b = encode_raw_bcast(vec![0xaa, 0xbb], ProtocolType::Musig2);
    let m = ClientMessage::decode(&b).expect("decodes");
    assert_eq!(m.broadcast, Some(vec![0xaa, 0xbb]));
    assert!(m.unicasts.is_empty());

    let u = encode_raw_uni(vec![(1, vec![0xcc]), (2, vec![0xdd])], ProtocolType::Musig2);
    let m = ClientMessage::decode(&u).expect("decodes");
    assert!(m.broadcast.is_none());
    assert_eq!(m.unicasts, vec![(1, vec![0xcc]), (2, vec![0xdd])]);
}

#[test]
fn apdu_short_frame() {
    let cmd = CommandBuilder::new(0x00, 0xa4).p1(0x04).extend(&vec![1, 2, 3]).build();
    assert_eq!(cmd, vec![0x00, 0xa4, 0x04, 0x00, 3, 1, 2, 3]);
}

#[test]
fn apdu_empty_frame_has_no_length() {
    let cmd = CommandBuilder::new(0xa6, 0xbb).build();
    assert_eq!(cmd, vec![0xa6, 0xbb, 0x00, 0x00]);
}

#[test]
fn apdu_extended_frame() {
    let data = vec![0x55u8; 300];
    let cmd = CommandBuilder::new(0xa6, 0x49).extend(&data).build();
    assert_eq!(&cmd[..4], &[0xa6, 0x49, 0x00, 0x00]);
    assert_eq!(&cmd[4..7], &[0x00, 0x01, 0x2c]);
    assert_eq!(&cmd[7..], &data[..]);
}

#[test]
fn response_status_split() {
    let ok = vec![1, 2, 3, 0x90, 0x00];
    assert_eq!(parse_response(&ok).unwrap(), vec![1, 2, 3]);

    let bad = vec![1, 2, 0x6a, 0x80];
    assert_eq!(parse_response(&bad).unwrap_err(), ProtocolError::CardError(0x6a80));

    let short = vec![0x90];
    assert_eq!(parse_response(&short).unwrap_err(), ProtocolError::MalformedEnvelope);
}

#[test]
fn out_of_sequence_does_not_poison() {
    assert!(!ProtocolError::OutOfSequence.poisons());
    assert!(ProtocolError::WrongProtocol.poisons());
    assert!(ProtocolError::CardError(0x6a80).poisons());
    assert_eq!(ProtocolError::MalformedEnvelope.describe(), "malformed envelope");
}

#[test]
fn musig_chunks_split_by_signer() {
    // two 3-byte pieces: value then signer byte
    let data = vec![vec![10, 11, 0], vec![20, 21, 1]];
    let m = deserialize_musig(data, 3).expect("splits");
    assert_eq!(m, vec![(0, vec![10, 11]), (1, vec![20, 21])]);
}

#[test]
fn musig_chunks_reject_ragged_input() {
    let data = vec![vec![10, 11, 0], vec![20]];
    assert_eq!(
        deserialize_musig(data, 3).unwrap_err(),
        ProtocolError::MalformedEnvelope
    );
}

#[test]
fn musig_chunks_reject_duplicate_signer() {
    let data = vec![vec![10, 11, 7], vec![20, 21, 7]];
    assert_eq!(
        deserialize_musig(data, 3).unwrap_err(),
        ProtocolError::MalformedEnvelope
    );
}
