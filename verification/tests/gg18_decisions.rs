//! The verified decision layer of the GG18 engines: session-init
//! validation, peer gathering and output framing.

use meesign_crypto::dispatcher::Dispatcher;
use meesign_crypto::error::ProtocolError;
use meesign_crypto::protocol::Protocol;
use meesign_crypto::gg18::{
    check_group_init, check_sign_init, emit_broadcast, emit_unicasts, gather, Gg18Context,
    Gg18Round,
};
use meesign_crypto::proto::{
    ClientMessage, ProtocolGroupInit, ProtocolInit, ProtocolType, ServerMessage,
};
use meesign_crypto::protocol::Recipient;

#[test]
fn group_init_accepts_a_sound_set() {
    let m = ProtocolGroupInit {
        protocol_type: ProtocolType::Gg18,
        index: 0,
        parties: 3,
        threshold: 2,
    };
    let back = check_group_init(&m.encode_to_vec()).expect("sound set");
    assert_eq!(back, m);
}

#[test]
fn group_init_rejects_wrong_kind() {
    let m = ProtocolGroupInit {
        protocol_type: ProtocolType::Musig2,
        index: 0,
        parties: 3,
        threshold: 2,
    };
    match check_group_init(&m.encode_to_vec()) {
        Ok(_) => panic!("wrong kind accepted"),
        Err(e) => assert_eq!(e, ProtocolError::WrongProtocol),
    }
}

#[test]
fn group_init_rejects_impossible_threshold() {
    let m = ProtocolGroupInit {
        protocol_type: ProtocolType::Gg18,
        index: 0,
        parties: 2,
        threshold: 3,
    };
    match check_group_init(&m.encode_to_vec()) {
        Ok(_) => panic!("threshold above parties accepted"),
        Err(e) => assert_eq!(e, ProtocolError::WrongSessionShape),
    }
    match check_group_init(&b"not a record".to_vec()) {
        Ok(_) => panic!("garbage accepted"),
        Err(e) => assert_eq!(e, ProtocolError::MalformedEnvelope),
    }
}

#[test]
fn sign_init_demands_membership() {
    let mk = |index: u32| ProtocolInit {
        protocol_type: ProtocolType::Gg18,
        indices: vec![1, 3],
        index,
        data: b"\x00".to_vec(),
    };
    let ok = check_sign_init(&mk(3).encode_to_vec()).expect("member");
    assert_eq!(ok.indices, vec![1, 3]);
    match check_sign_init(&mk(2).encode_to_vec()) {
        Ok(_) => panic!("non-member accepted"),
        Err(e) => assert_eq!(e, ProtocolError::WrongSessionShape),
    }
}

#[test]
fn gather_orders_by_sender_and_merges() {
    let sm = ServerMessage {
        protocol_type: ProtocolType::Gg18,
        broadcasts: vec![(3, vec![30]), (1, vec![10])],
        unicasts: vec![(2, vec![20])],
    };
    let msgs = gather(&sm.encode_to_vec()).expect("sound round");
    assert_eq!(msgs, vec![vec![10], vec![20], vec![30]]);
}

#[test]
fn gather_rejects_duplicate_sender_and_wrong_kind() {
    let dup = ServerMessage {
        protocol_type: ProtocolType::Gg18,
        broadcasts: vec![(1, vec![10])],
        unicasts: vec![(1, vec![11])],
    };
    match gather(&dup.encode_to_vec()) {
        Ok(_) => panic!("duplicate sender accepted"),
        Err(e) => assert_eq!(e, ProtocolError::MalformedEnvelope),
    }
    let wrong = ServerMessage {
        protocol_type: ProtocolType::Frost,
        broadcasts: vec![(1, vec![10])],
        unicasts: Vec::new(),
    };
    match gather(&wrong.encode_to_vec()) {
        Ok(_) => panic!("wrong kind accepted"),
        Err(e) => assert_eq!(e, ProtocolError::WrongProtocol),
    }
}

#[test]
fn emitted_frames_round_trip() {
    let (b, rec) = emit_broadcast(vec![7, 8, 9]).expect("fits");
    assert!(matches!(rec, Recipient::Server));
    let m = ClientMessage::decode(&b).expect("envelope");
    assert!(matches!(m.protocol_type, ProtocolType::Gg18));
    assert_eq!(m.broadcast, Some(vec![7, 8, 9]));

    let (u, rec) = emit_unicasts(vec![vec![1], vec![2, 2]]).expect("fits");
    assert!(matches!(rec, Recipient::Server));
    let m = ClientMessage::decode(&u).expect("envelope");
    assert!(m.broadcast.is_none());
    assert_eq!(m.unicasts, vec![(0, vec![1]), (1, vec![2, 2])]);
}

#[test]
fn gg18_engine_rejects_wrong_kind_and_poisons() {
    let mut ctx = Gg18Context::keygen();
    let init = ProtocolGroupInit {
        protocol_type: ProtocolType::Musig2,
        index: 0,
        parties: 3,
        threshold: 2,
    };
    match ctx.prepare(&init.encode_to_vec()) {
        Ok(_) => panic!("wrong kind accepted"),
        Err(e) => assert_eq!(e, ProtocolError::WrongProtocol),
    }
    // poisoned: the same error comes back for any later input
    match ctx.prepare(&b"anything".to_vec()) {
        Ok(_) => panic!("poisoned engine prepared"),
        Err(e) => assert_eq!(e, ProtocolError::WrongProtocol),
    }
    match ctx.absorb(Ok((vec![vec![1]], vec![2]))) {
        Ok(_) => panic!("poisoned engine absorbed"),
        Err(e) => assert_eq!(e, ProtocolError::WrongProtocol),
    }
}

#[test]
fn gg18_engine_steps_through_a_broadcast_round() {
    let mut ctx = Gg18Context::keygen();
    let init = ProtocolGroupInit {
        protocol_type: ProtocolType::Gg18,
        index: 0,
        parties: 3,
        threshold: 2,
    };
    let (k, msgs, carry) = ctx.prepare(&init.encode_to_vec()).expect("sound init");
    assert_eq!(k, 1);
    assert_eq!(msgs, vec![init.encode_to_vec()]);
    assert!(carry.is_empty());

    let (framed, rec) = ctx
        .absorb(Ok((vec![b"round-one".to_vec()], b"carry-one".to_vec())))
        .expect("framed");
    assert!(matches!(rec, Recipient::Server));
    let m = ClientMessage::decode(&framed).expect("envelope");
    assert!(matches!(m.protocol_type, ProtocolType::Gg18));
    assert_eq!(m.broadcast, Some(b"round-one".to_vec()));
    match &ctx.round {
        Gg18Round::KeygenR { k, carry } => {
            assert_eq!(*k, 2);
            assert_eq!(carry, &b"carry-one".to_vec());
        }
        _ => panic!("engine did not step"),
    }
}

#[test]
fn gg18_engine_frames_the_unicast_round() {
    let mut ctx = Gg18Context {
        round: Gg18Round::KeygenR { k: 3, carry: b"carry-two".to_vec() },
    };
    let (framed, _) = ctx
        .absorb(Ok((vec![vec![10], vec![20]], b"carry-three".to_vec())))
        .expect("framed");
    let m = ClientMessage::decode(&framed).expect("envelope");
    assert!(m.broadcast.is_none());
    assert_eq!(m.unicasts, vec![(0, vec![10]), (1, vec![20])]);
    assert!(matches!(&ctx.round, Gg18Round::KeygenR { k: 4, .. }));
}

#[test]
fn gg18_engine_terminates_and_finishes() {
    let mut ctx = Gg18Context {
        round: Gg18Round::KeygenR { k: 6, carry: b"carry-five".to_vec() },
    };
    let group = b"the finished group context".to_vec();
    let (framed, _) = ctx.absorb(Ok((vec![vec![3u8; 33]], group.clone()))).expect("framed");
    assert!(ClientMessage::decode(&framed).is_some());
    match ctx.absorb(Ok((vec![vec![1]], vec![]))) {
        Ok(_) => panic!("terminal engine absorbed"),
        Err(e) => assert_eq!(e, ProtocolError::OutOfSequence),
    }
    assert_eq!(ctx.finish().expect("terminal"), group);

    // a finished signing run's artifact is the broadcast signature
    let mut ctx = Gg18Context {
        round: Gg18Round::SignR { k: 10, carry: b"carry-nine".to_vec() },
    };
    let sig = vec![7u8; 70];
    let _ = ctx.absorb(Ok((vec![sig.clone()], Vec::new()))).expect("framed");
    assert_eq!(ctx.finish().expect("terminal"), sig);
}

#[test]
fn gg18_engine_poisons_on_a_failed_round() {
    let mut ctx = Gg18Context {
        round: Gg18Round::SignR { k: 4, carry: b"carry".to_vec() },
    };
    match ctx.absorb(Err(ProtocolError::CryptographicFailure)) {
        Ok(_) => panic!("failed round absorbed"),
        Err(e) => assert_eq!(e, ProtocolError::CryptographicFailure),
    }
    match ctx.prepare(&b"later".to_vec()) {
        Ok(_) => panic!("poisoned engine prepared"),
        Err(e) => assert_eq!(e, ProtocolError::CryptographicFailure),
    }
}

#[test]
fn gg18_engine_snapshot_round_trip() {
    let ctx = Gg18Context {
        round: Gg18Round::SignR { k: 5, carry: b"mid-run carry".to_vec() },
    };
    let snap = ctx.snapshot();
    let restored = Gg18Context::restore(&snap).expect("restores");
    assert_eq!(restored.snapshot(), snap);
    match restored.round {
        Gg18Round::SignR { k, carry } => {
            assert_eq!(k, 5);
            assert_eq!(carry, b"mid-run carry".to_vec());
        }
        _ => panic!("wrong state restored"),
    }

    // the uniform share handle suspends it with its kind
    let d = Dispatcher::Gg18(Gg18Context {
        round: Gg18Round::KeygenR { k: 2, carry: b"one".to_vec() },
    });
    let snap = d.snapshot();
    let back = Dispatcher::restore(&snap).expect("restores");
    assert!(matches!(back, Dispatcher::Gg18(_)));
    assert_eq!(back.snapshot(), snap);
}
