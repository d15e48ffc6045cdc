//! End-to-end runs of the MuSig2 engines through an in-memory server
//! that aggregates broadcasts exactly like the coordinator would.

use meesign_crypto::musig2::{KeygenContext, SignContext};
use meesign_crypto::proto::{
    ClientMessage, ProtocolGroupInit, ProtocolInit, ProtocolType, ServerMessage,
};
use meesign_crypto::protocol::{Protocol, Recipient};

/// Runs one full key generation with `parties` participants and
/// returns each participant's aggregate-key broadcast and group
/// context artifact, indexed by party number.
fn run_keygen(parties: u32) -> (Vec<Vec<u8>>, Vec<Vec<u8>>) {
    let mut ctxs: Vec<KeygenContext> = (0..parties).map(|_| KeygenContext::new()).collect();

    // round 0: session-init, every engine broadcasts its public key
    let mut bcasts: Vec<Vec<u8>> = Vec::new();
    for (i, ctx) in ctxs.iter_mut().enumerate() {
        let init = ProtocolGroupInit {
            protocol_type: ProtocolType::Musig2,
            index: i as u32 + 1,
            parties,
            threshold: parties,
        };
        let (out, rec) = ctx.advance(&init.encode_to_vec()).expect("keygen init");
        assert!(matches!(rec, Recipient::Server));
        let msg = ClientMessage::decode(&out).expect("envelope");
        bcasts.push(msg.broadcast.expect("broadcast"));
    }

    // round 1: the server hands everyone the others' broadcasts
    let mut aggs: Vec<Vec<u8>> = Vec::new();
    for (i, ctx) in ctxs.iter_mut().enumerate() {
        let broadcasts: Vec<(u32, Vec<u8>)> = bcasts
            .iter()
            .enumerate()
            .filter(|(j, _)| *j != i)
            .map(|(j, b)| (j as u32 + 1, b.clone()))
            .collect();
        let sm = ServerMessage {
            protocol_type: ProtocolType::Musig2,
            broadcasts,
            unicasts: Vec::new(),
        };
        let (out, rec) = ctx.advance(&sm.encode_to_vec()).expect("keygen round");
        assert!(matches!(rec, Recipient::Server));
        let msg = ClientMessage::decode(&out).expect("envelope");
        aggs.push(msg.broadcast.expect("broadcast"));
    }

    let artifacts: Vec<Vec<u8>> = ctxs
        .into_iter()
        .map(|c| c.finish().expect("terminal keygen"))
        .collect();
    (aggs, artifacts)
}

/// Runs one full signing session over the given group contexts and
/// returns each participant's final signature bytes.
fn run_sign(artifacts: &[Vec<u8>], message: &[u8]) -> Vec<Vec<u8>> {
    let parties = artifacts.len() as u32;
    let mut ctxs: Vec<SignContext> = artifacts
        .iter()
        .map(|a| SignContext::new(a).expect("group context"))
        .collect();

    let mut bcasts: Vec<Vec<u8>> = Vec::new();
    for (i, ctx) in ctxs.iter_mut().enumerate() {
        let init = ProtocolInit {
            protocol_type: ProtocolType::Musig2,
            indices: (1..=parties).collect(),
            index: i as u32 + 1,
            data: message.to_vec(),
        };
        let (out, rec) = ctx.advance(&init.encode_to_vec()).expect("sign init");
        assert!(matches!(rec, Recipient::Server));
        let msg = ClientMessage::decode(&out).expect("envelope");
        bcasts.push(msg.broadcast.expect("broadcast"));
    }

    for _round in 0..2 {
        let mut next: Vec<Vec<u8>> = Vec::new();
        for (i, ctx) in ctxs.iter_mut().enumerate() {
            let broadcasts: Vec<(u32, Vec<u8>)> = bcasts
                .iter()
                .enumerate()
                .filter(|(j, _)| *j != i)
                .map(|(j, b)| (j as u32 + 1, b.clone()))
                .collect();
            let sm = ServerMessage {
                protocol_type: ProtocolType::Musig2,
                broadcasts,
                unicasts: Vec::new(),
            };
            let (out, rec) = ctx.advance(&sm.encode_to_vec()).expect("sign round");
            assert!(matches!(rec, Recipient::Server));
            let msg = ClientMessage::decode(&out).expect("envelope");
            next.push(msg.broadcast.expect("broadcast"));
        }
        bcasts = next;
    }

    ctxs.into_iter()
        .map(|c| c.finish().expect("terminal sign"))
        .collect()
}

#[test]
fn keygen() {
    for parties in 2..6u32 {
        let (aggs, _) = run_keygen(parties);
        for i in 1..parties as usize {
            assert_eq!(aggs[0], aggs[i]);
        }
        assert_eq!(aggs[0].len(), 33);
    }
}

#[test]
fn sign() {
    for parties in 2..6u32 {
        let (aggs, artifacts) = run_keygen(parties);
        let msg = b"hello";
        let results = run_sign(&artifacts, msg);

        let signature = results[0].clone();
        for result in &results {
            assert_eq!(&signature, result);
        }
        assert_eq!(signature.len(), 64);

        let pk = musig2::secp::Point::from_slice(&aggs[0]).expect("aggregate key");
        let sig = musig2::CompactSignature::from_bytes(&signature).expect("signature");
        assert!(musig2::verify_single(pk, sig, msg).is_ok());
    }
}

#[test]
fn keygen_survives_reordered_broadcasts() {
    // one participant sees the peer map in descending order, the rest
    // in ascending order; everyone still agrees on the aggregate key
    let parties = 3u32;
    let mut ctxs: Vec<KeygenContext> = (0..parties).map(|_| KeygenContext::new()).collect();
    let mut bcasts: Vec<Vec<u8>> = Vec::new();
    for (i, ctx) in ctxs.iter_mut().enumerate() {
        let init = ProtocolGroupInit {
            protocol_type: ProtocolType::Musig2,
            index: i as u32 + 1,
            parties,
            threshold: parties,
        };
        let (out, _) = ctx.advance(&init.encode_to_vec()).unwrap();
        bcasts.push(ClientMessage::decode(&out).unwrap().broadcast.unwrap());
    }
    let mut aggs: Vec<Vec<u8>> = Vec::new();
    for (i, ctx) in ctxs.iter_mut().enumerate() {
        let mut broadcasts: Vec<(u32, Vec<u8>)> = bcasts
            .iter()
            .enumerate()
            .filter(|(j, _)| *j != i)
            .map(|(j, b)| (j as u32 + 1, b.clone()))
            .collect();
        if i == 0 {
            broadcasts.reverse();
        }
        let sm = ServerMessage {
            protocol_type: ProtocolType::Musig2,
            broadcasts,
            unicasts: Vec::new(),
        };
        let (out, _) = ctx.advance(&sm.encode_to_vec()).unwrap();
        aggs.push(ClientMessage::decode(&out).unwrap().broadcast.unwrap());
    }
    assert_eq!(aggs[0], aggs[1]);
    assert_eq!(aggs[1], aggs[2]);
}

#[test]
fn sign_survives_reordered_broadcasts() {
    // one signer sees the nonce and partial-signature maps in reverse
    // order; the final signatures still agree
    let (_, artifacts) = run_keygen(3);
    let msg = b"order free";
    let mut ctxs: Vec<SignContext> = artifacts
        .iter()
        .map(|a| SignContext::new(a).expect("group context"))
        .collect();
    let mut bcasts: Vec<Vec<u8>> = Vec::new();
    for (i, ctx) in ctxs.iter_mut().enumerate() {
        let init = ProtocolInit {
            protocol_type: ProtocolType::Musig2,
            indices: vec![1, 2, 3],
            index: i as u32 + 1,
            data: msg.to_vec(),
        };
        let (out, _) = ctx.advance(&init.encode_to_vec()).unwrap();
        bcasts.push(ClientMessage::decode(&out).unwrap().broadcast.unwrap());
    }
    for _round in 0..2 {
        let mut next: Vec<Vec<u8>> = Vec::new();
        for (i, ctx) in ctxs.iter_mut().enumerate() {
            let mut broadcasts: Vec<(u32, Vec<u8>)> = bcasts
                .iter()
                .enumerate()
                .filter(|(j, _)| *j != i)
                .map(|(j, b)| (j as u32 + 1, b.clone()))
                .collect();
            if i == 1 {
                broadcasts.reverse();
            }
            let sm = ServerMessage {
                protocol_type: ProtocolType::Musig2,
                broadcasts,
                unicasts: Vec::new(),
            };
            let (out, _) = ctx.advance(&sm.encode_to_vec()).unwrap();
            next.push(ClientMessage::decode(&out).unwrap().broadcast.unwrap());
        }
        bcasts = next;
    }
    let sigs: Vec<Vec<u8>> = ctxs.into_iter().map(|c| c.finish().unwrap()).collect();
    assert_eq!(sigs[0], sigs[1]);
    assert_eq!(sigs[1], sigs[2]);
}

#[test]
fn wrong_kind_is_rejected() {
    let mut ctx = KeygenContext::new();
    let init = ProtocolGroupInit {
        protocol_type: ProtocolType::Gg18,
        index: 1,
        parties: 2,
        threshold: 2,
    };
    let err = ctx.advance(&init.encode_to_vec()).unwrap_err();
    assert_eq!(err, meesign_crypto::error::ProtocolError::WrongProtocol);
    // the engine stays poisoned with the same error
    let again = ctx.advance(&init.encode_to_vec()).unwrap_err();
    assert_eq!(again, meesign_crypto::error::ProtocolError::WrongProtocol);
}

#[test]
fn unequal_threshold_is_rejected() {
    let mut ctx = KeygenContext::new();
    let init = ProtocolGroupInit {
        protocol_type: ProtocolType::Musig2,
        index: 1,
        parties: 3,
        threshold: 2,
    };
    let err = ctx.advance(&init.encode_to_vec()).unwrap_err();
    assert_eq!(err, meesign_crypto::error::ProtocolError::WrongSessionShape);
}

#[test]
fn terminal_engine_reports_out_of_sequence() {
    let (_, artifacts) = run_keygen(2);
    // rebuild a terminal keygen engine via a fresh run and advance it once more
    let mut ctxs: Vec<KeygenContext> = (0..2).map(|_| KeygenContext::new()).collect();
    let mut bcasts: Vec<Vec<u8>> = Vec::new();
    for (i, ctx) in ctxs.iter_mut().enumerate() {
        let init = ProtocolGroupInit {
            protocol_type: ProtocolType::Musig2,
            index: i as u32 + 1,
            parties: 2,
            threshold: 2,
        };
        let (out, _) = ctx.advance(&init.encode_to_vec()).unwrap();
        bcasts.push(ClientMessage::decode(&out).unwrap().broadcast.unwrap());
    }
    for (i, ctx) in ctxs.iter_mut().enumerate() {
        let sm = ServerMessage {
            protocol_type: ProtocolType::Musig2,
            broadcasts: vec![(2 - i as u32, bcasts[1 - i].clone())],
            unicasts: Vec::new(),
        };
        ctx.advance(&sm.encode_to_vec()).unwrap();
    }
    let mut terminal = ctxs.remove(0);
    let err = terminal
        .advance(&ProtocolGroupInit {
            protocol_type: ProtocolType::Musig2,
            index: 1,
            parties: 2,
            threshold: 2,
        }
        .encode_to_vec())
        .unwrap_err();
    assert_eq!(err, meesign_crypto::error::ProtocolError::OutOfSequence);
    // finishing still returns the artifact
    let art = terminal.finish().unwrap();
    assert!(!art.is_empty());
    drop(artifacts);
}

#[test]
fn finish_before_terminal_fails() {
    let ctx = KeygenContext::new();
    let err = ctx.finish().unwrap_err();
    assert_eq!(err, meesign_crypto::error::ProtocolError::OutOfSequence);
}

#[test]
fn snapshot_round_trip_mid_protocol() {
    // suspend both signing engines after the nonce round; the restored
    // engines finish the protocol exactly like the originals would
    let (_, artifacts) = run_keygen(2);
    let msg = b"suspend me";
    let mut ctxs: Vec<SignContext> = artifacts
        .iter()
        .map(|a| SignContext::new(a).unwrap())
        .collect();
    let mut bcasts: Vec<Vec<u8>> = Vec::new();
    for (i, ctx) in ctxs.iter_mut().enumerate() {
        let init = ProtocolInit {
            protocol_type: ProtocolType::Musig2,
            indices: vec![1, 2],
            index: i as u32 + 1,
            data: msg.to_vec(),
        };
        let (out, _) = ctx.advance(&init.encode_to_vec()).unwrap();
        bcasts.push(ClientMessage::decode(&out).unwrap().broadcast.unwrap());
    }
    // suspend and restore every engine
    let mut ctxs: Vec<SignContext> = ctxs
        .iter()
        .map(|c| {
            let snap = c.snapshot();
            let restored = SignContext::restore(&snap).expect("snapshot restores");
            assert_eq!(restored.snapshot(), snap);
            restored
        })
        .collect();
    for _round in 0..2 {
        let mut next: Vec<Vec<u8>> = Vec::new();
        for (i, ctx) in ctxs.iter_mut().enumerate() {
            let sm = ServerMessage {
                protocol_type: ProtocolType::Musig2,
                broadcasts: vec![(2 - i as u32, bcasts[1 - i].clone())],
                unicasts: Vec::new(),
            };
            let (out, _) = ctx.advance(&sm.encode_to_vec()).unwrap();
            next.push(ClientMessage::decode(&out).unwrap().broadcast.unwrap());
        }
        bcasts = next;
    }
    let sigs: Vec<Vec<u8>> = ctxs
        .into_iter()
        .map(|c| c.finish().unwrap())
        .collect();
    assert_eq!(sigs[0], sigs[1]);
}

#[test]
fn keygen_group_context_feeds_signing() {
    let (_, artifacts) = run_keygen(3);
    for a in &artifacts {
        assert!(SignContext::new(a).is_ok());
    }
    // corrupting the artifact is rejected as a codec failure
    let mut broken = artifacts[0].clone();
    broken.pop();
    match SignContext::new(&broken) {
        Ok(_) => panic!("broken artifact accepted"),
        Err(e) => assert_eq!(e, meesign_crypto::error::ProtocolError::CodecInternal),
    }
}
