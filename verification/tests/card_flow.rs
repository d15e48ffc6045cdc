//! Card command frames and response parsing for a delegated MuSig2
//! share.

use meesign_crypto::card::{command, reencode_point, response, vec_removed};
use meesign_crypto::error::ProtocolError;

fn sample_point() -> Vec<u8> {
    let sk = musig2::secp::Scalar::from_slice(&[7u8; 32]).expect("scalar");
    sk.base_point_mul().serialize().to_vec()
}

#[test]
fn parameterless_commands() {
    assert_eq!(command::keygen(), vec![0xa6, 0xbb, 0x00, 0x00]);
    assert_eq!(command::get_plain_pubkey(), vec![0xa6, 0x5a, 0x00, 0x00]);
    assert_eq!(command::noncegen(), vec![0xa6, 0x5e, 0x00, 0x00]);
    assert_eq!(command::get_pubnonce(), vec![0xa6, 0x35, 0x00, 0x00]);
}

#[test]
fn sign_command_carries_message() {
    let cmd = command::sign(&b"Testing message".to_vec());
    assert_eq!(&cmd[..4], &[0xa6, 0x49, 0x00, 0x00]);
    assert_eq!(cmd[4] as usize, b"Testing message".len());
    assert_eq!(&cmd[5..], b"Testing message");
}

#[test]
fn set_aggpubkey_layout() {
    let pk = sample_point();
    let coef = vec![3u8; 32];
    let cmd = command::set_aggpubkey(&pk, 1, 0, &coef).expect("valid point");
    assert_eq!(&cmd[..4], &[0xa6, 0x76, 0x00, 0x00]);
    let data = &cmd[5..];
    assert_eq!(data.len(), 33 + 32 + 32 + 32);
    // the point travels compressed and unchanged
    assert_eq!(&data[..33], &pk[..]);
    // accumulators sit in the last byte of their 32-byte block
    assert_eq!(data[33 + 31], 1);
    assert_eq!(data[33 + 32 + 31], 0);
    assert_eq!(&data[33 + 64..], &coef[..]);
}

#[test]
fn set_aggpubkey_rejects_garbage() {
    let err = command::set_aggpubkey(&vec![0u8; 33], 0, 0, &vec![0u8; 32]).unwrap_err();
    assert_eq!(err, ProtocolError::CryptographicFailure);
}

#[test]
fn reencode_point_switches_compression() {
    let pk = sample_point();
    let long = reencode_point(&pk, false).expect("valid point");
    assert_eq!(long.len(), 65);
    let short = reencode_point(&long, true).expect("valid point");
    assert_eq!(short, pk);
}

#[test]
fn pubkey_response_is_reencoded() {
    let pk = sample_point();
    let mut frame = reencode_point(&pk, false).unwrap();
    frame.push(0x90);
    frame.push(0x00);
    let back = response::get_plain_pubkey(&frame).expect("success frame");
    assert_eq!(back.len(), 65);
}

#[test]
fn acknowledgement_responses() {
    let ok = vec![0x90, 0x00];
    assert!(response::keygen(&ok).is_ok());
    assert!(response::noncegen(&ok).is_ok());
    assert!(response::set_aggpubkey(&ok).is_ok());
    assert!(response::set_agg_nonces(&ok).is_ok());

    let err = vec![0x69, 0x85];
    assert_eq!(response::keygen(&err).unwrap_err(), ProtocolError::CardError(0x6985));
}

#[test]
fn pubnonce_response_is_validated() {
    // a public nonce is two serialized points
    let mut nonce = sample_point();
    nonce.extend_from_slice(&sample_point());
    let mut frame = nonce.clone();
    frame.push(0x90);
    frame.push(0x00);
    assert_eq!(response::get_pubnonce(&frame).expect("valid nonce"), nonce);

    let mut bad = vec![0u8; 66];
    bad.push(0x90);
    bad.push(0x00);
    assert_eq!(
        response::get_pubnonce(&bad).unwrap_err(),
        ProtocolError::CryptographicFailure
    );
}

#[test]
fn partial_signature_response_is_validated() {
    let mut frame = vec![0u8; 31];
    frame.push(5);
    frame.push(0x90);
    frame.push(0x00);
    let sig = response::sign(&frame).expect("valid scalar");
    assert_eq!(sig.len(), 32);

    let mut huge = vec![0xffu8; 32];
    huge.push(0x90);
    huge.push(0x00);
    assert_eq!(response::sign(&huge).unwrap_err(), ProtocolError::CryptographicFailure);
}

#[test]
fn vec_removed_drops_one_index() {
    let v = vec![10u8, 20, 30, 40];
    assert_eq!(vec_removed(&v, 0), vec![20, 30, 40]);
    assert_eq!(vec_removed(&v, 2), vec![10, 20, 40]);
    assert_eq!(vec_removed(&v, 3), vec![10, 20, 30]);
    // an out-of-range index leaves nothing out
    assert_eq!(vec_removed(&v, 4), v);
    assert_eq!(vec_removed(&v, 100), v);
}
