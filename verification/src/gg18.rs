//! The decisions of the GG18 threshold-ECDSA engines: session-init
//! validation, peer-round gathering and output framing.
//!
//! The GG18 round functions themselves live in an outside library that
//! cannot be obtained here, so the host drives the rounds; everything
//! the engine decides on plain values — that the declared kind is this
//! engine's kind, that the participant set is sound, that the peers'
//! payloads are ordered by ascending sender index with no sender
//! counted twice, and how a round's output is framed — stands here,
//! verified.

use vstd::prelude::*;

use crate::bytes::{blobs_view, chunk_wf, entries_view};
use crate::error::ProtocolError;
use crate::musig2::clone_bytes;
use crate::proto::{
    encode_raw_bcast, encode_raw_uni, spec_dec_group_init, spec_dec_init, spec_dec_server,
    spec_enc_client, ClientMessageView, ProtocolGroupInit, ProtocolInit, ProtocolInitView,
    ProtocolType, ServerMessage,
};
use crate::protocol::{has_dup_keys, normal_of, normalize_entries, Recipient};

verus! {

/// Validation of a GG18 key-generation session-init record: the
/// declared kind must be this engine's kind, and the participant set
/// must be a sound threshold set that fits the round library's 16-bit
/// party numbers.
pub open spec fn group_init_check(m: ProtocolGroupInit) -> Option<ProtocolError> {
    if m.protocol_type != ProtocolType::Gg18 {
        Some(ProtocolError::WrongProtocol)
    } else if !(1 <= m.threshold <= m.parties <= 0xffff && m.index <= 0xffff) {
        Some(ProtocolError::WrongSessionShape)
    } else {
        None
    }
}

/// Decodes and validates a key-generation session-init record,
/// rejecting a wrong declared kind and an impossible participant set.
pub fn check_group_init(data: &Vec<u8>) -> (r: Result<ProtocolGroupInit, ProtocolError>)
    ensures
        match spec_dec_group_init(data@) {
            None => r == Err::<ProtocolGroupInit, ProtocolError>(ProtocolError::MalformedEnvelope),
            Some(m) => match group_init_check(m) {
                Some(e) => r == Err::<ProtocolGroupInit, ProtocolError>(e),
                None => r == Ok::<ProtocolGroupInit, ProtocolError>(m),
            },
        },
{
    let m = match ProtocolGroupInit::decode(data) {
        None => {
            return Err(ProtocolError::MalformedEnvelope);
        },
        Some(m) => m,
    };
    if m.protocol_type != ProtocolType::Gg18 {
        return Err(ProtocolError::WrongProtocol);
    }
    if !(1 <= m.threshold && m.threshold <= m.parties && m.parties <= 0xffff && m.index <= 0xffff) {
        return Err(ProtocolError::WrongSessionShape);
    }
    Ok(m)
}

/// Validation of a GG18 signing session-init record: the declared
/// kind must be this engine's kind, this participant must be among
/// the named signers, and every number must fit the round library's
/// 16-bit party numbers.
pub open spec fn sign_init_check(m: ProtocolInitView) -> Option<ProtocolError> {
    if m.protocol_type != ProtocolType::Gg18 {
        Some(ProtocolError::WrongProtocol)
    } else if !(m.indices.contains(m.index) && 1 <= m.indices.len() <= 0xffff && m.index <= 0xffff
        && (forall|i: int| 0 <= i < m.indices.len() ==> m.indices[i] <= 0xffff)) {
        Some(ProtocolError::WrongSessionShape)
    } else {
        None
    }
}

/// Decodes and validates a signing session-init record, rejecting a
/// wrong declared kind and a participant list that does not name this
/// share.
pub fn check_sign_init(data: &Vec<u8>) -> (r: Result<ProtocolInit, ProtocolError>)
    ensures
        match spec_dec_init(data@) {
            None => r == Err::<ProtocolInit, ProtocolError>(ProtocolError::MalformedEnvelope),
            Some(m) => match sign_init_check(m) {
                Some(e) => r matches Err(e2) && e2 == e,
                None => r matches Ok(v) && v@ == m,
            },
        },
{
    let m = match ProtocolInit::decode(data) {
        None => {
            return Err(ProtocolError::MalformedEnvelope);
        },
        Some(m) => m,
    };
    if m.protocol_type != ProtocolType::Gg18 {
        return Err(ProtocolError::WrongProtocol);
    }
    let n: usize = m.indices.len();
    let mut member: bool = false;
    let mut bounded: bool = true;
    let mut i: usize = 0;
    while i < n
        invariant
            i <= n,
            n == m.indices@.len(),
            member == (exists|j: int| 0 <= j < i && m.indices@[j] == m.index),
            bounded == (forall|j: int| 0 <= j < i ==> m.indices@[j] <= 0xffff),
        decreases n - i,
    {
        if m.indices[i] == m.index {
            member = true;
        }
        if m.indices[i] > 0xffff {
            bounded = false;
        }
        i = i + 1;
    }
    proof {
        assert(member == m.indices@.contains(m.index));
    }
    if !(member && 1 <= n && n <= 0xffff && m.index <= 0xffff && bounded) {
        return Err(ProtocolError::WrongSessionShape);
    }
    Ok(m)
}

/// Validation of one inbound GG18 peer round, and the values it
/// yields: the peers' payloads — broadcasts and unicasts together —
/// in ascending sender order.
pub open spec fn gathered_values(bcasts: Seq<(u32, Seq<u8>)>, unis: Seq<(u32, Seq<u8>)>) -> Seq<
    Seq<u8>,
> {
    crate::musig2::pk_list(normal_of(bcasts + unis))
}

/// Decodes one inbound GG18 peer round and orders the payloads by
/// ascending sender index, rejecting a wrong declared kind and a
/// sender that appears twice.  The host runs the round function of
/// the outside library on the result.
pub fn gather(data: &Vec<u8>) -> (r: Result<Vec<Vec<u8>>, ProtocolError>)
    ensures
        match spec_dec_server(data@) {
            None => r == Err::<Vec<Vec<u8>>, ProtocolError>(ProtocolError::MalformedEnvelope),
            Some(sm) => if sm.protocol_type != ProtocolType::Gg18 {
                r == Err::<Vec<Vec<u8>>, ProtocolError>(ProtocolError::WrongProtocol)
            } else if has_dup_keys(sm.broadcasts + sm.unicasts) {
                r == Err::<Vec<Vec<u8>>, ProtocolError>(ProtocolError::MalformedEnvelope)
            } else {
                r matches Ok(msgs) && blobs_view(msgs@) == gathered_values(
                    sm.broadcasts,
                    sm.unicasts,
                )
            },
        },
{
    let sm = match ServerMessage::decode(data) {
        None => {
            return Err(ProtocolError::MalformedEnvelope);
        },
        Some(m) => m,
    };
    if sm.protocol_type != ProtocolType::Gg18 {
        return Err(ProtocolError::WrongProtocol);
    }
    let ghost smv = sm@;
    let mut entries = sm.broadcasts;
    let mut unis = sm.unicasts;
    entries.append(&mut unis);
    proof {
        assert(entries_view(entries@) =~= smv.broadcasts + smv.unicasts);
    }
    let sorted = match normalize_entries(entries) {
        Err(e) => {
            return Err(e);
        },
        Ok(v) => v,
    };
    proof {
        crate::protocol::lemma_normal_of_eq(entries_view(sorted@), smv.broadcasts + smv.unicasts);
    }
    Ok(crate::musig2::values_of_entries(&sorted))
}

/// Frames one broadcast round output for the server; a payload beyond
/// the framing's length prefix is the one failure.
pub fn emit_broadcast(out: Vec<u8>) -> (r: Result<(Vec<u8>, Recipient), ProtocolError>)
    ensures
        r is Ok <==> chunk_wf(out@),
        r matches Ok((v, rec)) ==> rec == Recipient::Server && v@ == spec_enc_client(
            ClientMessageView {
                protocol_type: ProtocolType::Gg18,
                broadcast: Some(out@),
                unicasts: Seq::empty(),
            },
        ),
        r matches Err(e) ==> e == ProtocolError::CodecInternal,
{
    if out.len() > 0xffff_ffff {
        return Err(ProtocolError::CodecInternal);
    }
    Ok((encode_raw_bcast(out, ProtocolType::Gg18), Recipient::Server))
}

/// The per-peer entries a unicast round's outputs stand for, keyed in
/// the order the round library hands them out.
pub open spec fn uni_entries(outs: Seq<Seq<u8>>) -> Seq<(u32, Seq<u8>)> {
    Seq::new(outs.len(), |i: int| (i as u32, outs[i]))
}

/// Frames one unicast round output for the server, one payload per
/// recipient in the order the round library hands them out; payloads
/// beyond the framing's prefixes are the one failure.
pub fn emit_unicasts(outs: Vec<Vec<u8>>) -> (r: Result<(Vec<u8>, Recipient), ProtocolError>)
    ensures
        r is Ok <==> outs@.len() <= 0xffff_ffff && (forall|i: int|
            0 <= i < outs@.len() ==> chunk_wf(#[trigger] outs@[i]@)),
        r matches Ok((v, rec)) ==> rec == Recipient::Server && v@ == spec_enc_client(
            ClientMessageView {
                protocol_type: ProtocolType::Gg18,
                broadcast: None,
                unicasts: uni_entries(blobs_view(outs@)),
            },
        ),
        r matches Err(e) ==> e == ProtocolError::CodecInternal,
{
    let n: usize = outs.len();
    if n > 0xffff_ffff {
        return Err(ProtocolError::CodecInternal);
    }
    let mut entries: Vec<(u32, Vec<u8>)> = Vec::new();
    let mut i: usize = 0;
    while i < n
        invariant
            i <= n,
            n == outs@.len(),
            n <= 0xffff_ffff,
            forall|j: int| 0 <= j < i ==> chunk_wf(#[trigger] outs@[j]@),
            entries_view(entries@) =~= uni_entries(blobs_view(outs@)).subrange(0, i as int),
        decreases n - i,
    {
        if outs[i].len() > 0xffff_ffff {
            proof {
                assert(!chunk_wf(outs@[i as int]@));
            }
            return Err(ProtocolError::CodecInternal);
        }
        let ghost oe = entries@;
        entries.push((i as u32, clone_bytes(&outs[i])));
        proof {
            crate::bytes::lemma_entries_view_push(oe, entries@.last());
            assert(entries@ =~= oe.push(entries@.last()));
            assert(uni_entries(blobs_view(outs@))[i as int] == (i as u32, outs@[i as int]@));
            assert(entries_view(entries@) =~= uni_entries(blobs_view(outs@)).subrange(0, i + 1));
        }
        i = i + 1;
    }
    proof {
        assert(uni_entries(blobs_view(outs@)).subrange(0, n as int) =~= uni_entries(
            blobs_view(outs@),
        ));
        assert(crate::bytes::entry_list_wf(entries_view(entries@)));
    }
    Ok((encode_raw_uni(entries, ProtocolType::Gg18), Recipient::Server))
}

/// Round state of a GG18 engine: a round counter and the opaque
/// carry-over of the outside round library between rounds.
pub enum Gg18Round {
    /// Key generation, waiting to run round `k` of 6; `carry` is the
    /// library's context after round `k - 1` (empty before round 1).
    KeygenR { k: u8, carry: Vec<u8> },
    /// Signing, waiting to run round `k` of 10; `carry` starts as the
    /// serialized group context.
    SignR { k: u8, carry: Vec<u8> },
    /// Terminal: the group context or signature is complete.
    Done { art: Vec<u8> },
    /// Poisoned: a fatal error was observed and is repeated forever.
    Failed { err: ProtocolError },
}

/// One participant's GG18 engine.  The round functions themselves are
/// the host's outside work: [`Gg18Context::prepare`] validates one
/// inbound envelope and names the round to run on the ordered peer
/// values and the stored carry-over; [`Gg18Context::absorb`] takes the
/// round's outcome back, frames the outputs and moves one round
/// forward — or poisons the engine.
pub struct Gg18Context {
    pub round: Gg18Round,
}

/// Mathematical shape of a [`Gg18Round`].
pub ghost enum Gg18RoundView {
    KeygenR { k: u8, carry: Seq<u8> },
    SignR { k: u8, carry: Seq<u8> },
    Done { art: Seq<u8> },
    Failed { err: ProtocolError },
}

impl View for Gg18Round {
    type V = Gg18RoundView;

    open spec fn view(&self) -> Gg18RoundView {
        match self {
            Gg18Round::KeygenR { k, carry } => Gg18RoundView::KeygenR { k: *k, carry: carry@ },
            Gg18Round::SignR { k, carry } => Gg18RoundView::SignR { k: *k, carry: carry@ },
            Gg18Round::Done { art } => Gg18RoundView::Done { art: art@ },
            Gg18Round::Failed { err } => Gg18RoundView::Failed { err: *err },
        }
    }
}

/// Mathematical shape of a [`Gg18Context`].
pub ghost struct Gg18CtxView {
    pub round: Gg18RoundView,
}

impl View for Gg18Context {
    type V = Gg18CtxView;

    open spec fn view(&self) -> Gg18CtxView {
        Gg18CtxView { round: self.round@ }
    }
}

/// How many rounds a run of this engine has.
pub open spec fn gg18_rounds(keygen: bool) -> u8 {
    if keygen {
        6
    } else {
        10
    }
}

/// The round that produces per-peer unicasts instead of a broadcast.
pub open spec fn gg18_unicast_round(keygen: bool) -> u8 {
    if keygen {
        3
    } else {
        2
    }
}

/// What one `prepare` call does: validation failures poison the
/// engine; on success the engine is untouched and the host receives
/// the round number, the ordered peer values (the raw session-init
/// record before round 1) and the carry-over.
pub open spec fn gg18_prepare_post(
    pre: Gg18Context,
    post: Gg18Context,
    data: Seq<u8>,
    r: Result<(u8, Vec<Vec<u8>>, Vec<u8>), ProtocolError>,
) -> bool {
    match pre.round {
        Gg18Round::Failed { err } => post == pre && (r matches Err(e) && e == err),
        Gg18Round::Done { .. } => post == pre && r == Err::<
            (u8, Vec<Vec<u8>>, Vec<u8>),
            ProtocolError,
        >(ProtocolError::OutOfSequence),
        Gg18Round::KeygenR { k, carry } => if !(1 <= k <= gg18_rounds(true)) {
            post == pre && r == Err::<(u8, Vec<Vec<u8>>, Vec<u8>), ProtocolError>(
                ProtocolError::OutOfSequence,
            )
        } else if k == 1 {
            match spec_dec_group_init(data) {
                None => gg18_poisoned(post, ProtocolError::MalformedEnvelope) && r == Err::<
                    (u8, Vec<Vec<u8>>, Vec<u8>),
                    ProtocolError,
                >(ProtocolError::MalformedEnvelope),
                Some(m) => match group_init_check(m) {
                    Some(e) => gg18_poisoned(post, e) && (r matches Err(e2) && e2 == e),
                    None => post == pre && (r matches Ok((kk, msgs, c)) && kk == k && blobs_view(
                        msgs@,
                    ) == seq![data] && c@ == carry@),
                },
            }
        } else {
            gg18_prepare_peer_round(pre, post, k, carry@, data, r)
        },
        Gg18Round::SignR { k, carry } => if !(1 <= k <= gg18_rounds(false)) {
            post == pre && r == Err::<(u8, Vec<Vec<u8>>, Vec<u8>), ProtocolError>(
                ProtocolError::OutOfSequence,
            )
        } else if k == 1 {
            match spec_dec_init(data) {
                None => gg18_poisoned(post, ProtocolError::MalformedEnvelope) && r == Err::<
                    (u8, Vec<Vec<u8>>, Vec<u8>),
                    ProtocolError,
                >(ProtocolError::MalformedEnvelope),
                Some(m) => match sign_init_check(m) {
                    Some(e) => gg18_poisoned(post, e) && (r matches Err(e2) && e2 == e),
                    None => post == pre && (r matches Ok((kk, msgs, c)) && kk == k && blobs_view(
                        msgs@,
                    ) == seq![data] && c@ == carry@),
                },
            }
        } else {
            gg18_prepare_peer_round(pre, post, k, carry@, data, r)
        },
    }
}

/// The engine is poisoned with exactly this error.
pub open spec fn gg18_poisoned(post: Gg18Context, e: ProtocolError) -> bool {
    post.round matches Gg18Round::Failed { err } && err == e
}

/// The peer-round part of [`gg18_prepare_post`]: decode, kind check,
/// duplicate-sender check, then the payloads in ascending sender
/// order.
pub open spec fn gg18_prepare_peer_round(
    pre: Gg18Context,
    post: Gg18Context,
    k: u8,
    carry: Seq<u8>,
    data: Seq<u8>,
    r: Result<(u8, Vec<Vec<u8>>, Vec<u8>), ProtocolError>,
) -> bool {
    match spec_dec_server(data) {
        None => gg18_poisoned(post, ProtocolError::MalformedEnvelope) && r == Err::<
            (u8, Vec<Vec<u8>>, Vec<u8>),
            ProtocolError,
        >(ProtocolError::MalformedEnvelope),
        Some(sm) => if sm.protocol_type != ProtocolType::Gg18 {
            gg18_poisoned(post, ProtocolError::WrongProtocol) && r == Err::<
                (u8, Vec<Vec<u8>>, Vec<u8>),
                ProtocolError,
            >(ProtocolError::WrongProtocol)
        } else if has_dup_keys(sm.broadcasts + sm.unicasts) {
            gg18_poisoned(post, ProtocolError::MalformedEnvelope) && r == Err::<
                (u8, Vec<Vec<u8>>, Vec<u8>),
                ProtocolError,
            >(ProtocolError::MalformedEnvelope)
        } else {
            post == pre && (r matches Ok((kk, msgs, c)) && kk == k && blobs_view(msgs@)
                == gathered_values(sm.broadcasts, sm.unicasts) && c@ == carry)
        },
    }
}

/// What one `absorb` call does: a failed round outcome poisons the
/// engine with that error; a successful one is framed — per-peer
/// unicasts in the one unicast round, a single broadcast payload
/// otherwise — and the engine moves one round forward, to the
/// terminal state after the last round.
pub open spec fn gg18_absorb_post(
    pre: Gg18Context,
    post: Gg18Context,
    outcome: Result<(Vec<Vec<u8>>, Vec<u8>), ProtocolError>,
    r: Result<(Vec<u8>, Recipient), ProtocolError>,
) -> bool {
    match pre.round {
        Gg18Round::Failed { err } => post == pre && (r matches Err(e) && e == err),
        Gg18Round::Done { .. } => post == pre && r == Err::<(Vec<u8>, Recipient), ProtocolError>(
            ProtocolError::OutOfSequence,
        ),
        Gg18Round::KeygenR { k, carry } => if !(1 <= k <= gg18_rounds(true)) {
            post == pre && r == Err::<(Vec<u8>, Recipient), ProtocolError>(
                ProtocolError::OutOfSequence,
            )
        } else {
            gg18_absorb_step(post, true, k, outcome, r)
        },
        Gg18Round::SignR { k, carry } => if !(1 <= k <= gg18_rounds(false)) {
            post == pre && r == Err::<(Vec<u8>, Recipient), ProtocolError>(
                ProtocolError::OutOfSequence,
            )
        } else {
            gg18_absorb_step(post, false, k, outcome, r)
        },
    }
}

/// One framed step of [`gg18_absorb_post`].
pub open spec fn gg18_absorb_step(
    post: Gg18Context,
    keygen: bool,
    k: u8,
    outcome: Result<(Vec<Vec<u8>>, Vec<u8>), ProtocolError>,
    r: Result<(Vec<u8>, Recipient), ProtocolError>,
) -> bool {
    match outcome {
        Err(e) => gg18_poisoned(post, e) && (r matches Err(e2) && e2 == e),
        Ok((outs, carry2)) => if k == gg18_unicast_round(keygen) {
            if outs@.len() <= 0xffff_ffff && (forall|i: int|
                0 <= i < outs@.len() ==> chunk_wf(#[trigger] outs@[i]@)) {
                &&& r matches Ok((v, rec))
                &&& r matches Ok((v, rec)) ==> rec == Recipient::Server && v@ == spec_enc_client(
                    ClientMessageView {
                        protocol_type: ProtocolType::Gg18,
                        broadcast: None,
                        unicasts: uni_entries(blobs_view(outs@)),
                    },
                )
                &&& gg18_stepped(post, keygen, k, outs@, carry2@)
            } else {
                gg18_poisoned(post, ProtocolError::CodecInternal) && r == Err::<
                    (Vec<u8>, Recipient),
                    ProtocolError,
                >(ProtocolError::CodecInternal)
            }
        } else {
            if outs@.len() == 1 && chunk_wf(outs@[0]@) {
                &&& r matches Ok((v, rec))
                &&& r matches Ok((v, rec)) ==> rec == Recipient::Server && v@ == spec_enc_client(
                    ClientMessageView {
                        protocol_type: ProtocolType::Gg18,
                        broadcast: Some(outs@[0]@),
                        unicasts: Seq::empty(),
                    },
                )
                &&& gg18_stepped(post, keygen, k, outs@, carry2@)
            } else {
                gg18_poisoned(post, ProtocolError::CodecInternal) && r == Err::<
                    (Vec<u8>, Recipient),
                    ProtocolError,
                >(ProtocolError::CodecInternal)
            }
        },
    }
}

/// The successor state after round `k` succeeded: the next waiting
/// round with the new carry-over, or the terminal state after the
/// last round (a finished keygen run's artifact is the final
/// carry-over; a finished signing run's is the signature itself).
pub open spec fn gg18_stepped(
    post: Gg18Context,
    keygen: bool,
    k: u8,
    outs: Seq<Vec<u8>>,
    carry2: Seq<u8>,
) -> bool {
    if k == gg18_rounds(keygen) {
        post.round matches Gg18Round::Done { art } && art@ == (if keygen {
            carry2
        } else {
            outs[0]@
        })
    } else if keygen {
        post.round matches Gg18Round::KeygenR { k: k2, carry } && k2 == k + 1 && carry@ == carry2
    } else {
        post.round matches Gg18Round::SignR { k: k2, carry } && k2 == k + 1 && carry@ == carry2
    }
}

impl Gg18Context {
    /// A fresh key-generation engine, waiting for the session-init
    /// record.
    pub fn keygen() -> (r: Gg18Context)
        ensures
            r.round matches Gg18Round::KeygenR { k, carry } && k == 1 && carry@ == Seq::<
                u8,
            >::empty(),
    {
        Gg18Context { round: Gg18Round::KeygenR { k: 1, carry: Vec::new() } }
    }

    /// A signing engine over the group context a key-generation run
    /// produced.
    pub fn sign(group: Vec<u8>) -> (r: Gg18Context)
        ensures
            r.round matches Gg18Round::SignR { k, carry } && k == 1 && carry == group,
    {
        Gg18Context { round: Gg18Round::SignR { k: 1, carry: group } }
    }

    /// Validates one inbound envelope and hands the host what the next
    /// round of the outside library needs: the round number, the
    /// ordered peer values (before round 1: the raw session-init
    /// record) and the stored carry-over.  Validation failures poison
    /// the engine.
    pub fn prepare(&mut self, data: &Vec<u8>) -> (r: Result<
        (u8, Vec<Vec<u8>>, Vec<u8>),
        ProtocolError,
    >)
        ensures
            gg18_prepare_post(*old(self), *final(self), data@, r),
    {
        let (k, keygen, carry) = match &self.round {
            Gg18Round::Failed { err } => {
                return Err(*err);
            },
            Gg18Round::Done { .. } => {
                return Err(ProtocolError::OutOfSequence);
            },
            Gg18Round::KeygenR { k, carry } => (*k, true, crate::musig2::clone_bytes(carry)),
            Gg18Round::SignR { k, carry } => (*k, false, crate::musig2::clone_bytes(carry)),
        };
        let last: u8 = if keygen {
            6
        } else {
            10
        };
        if !(1 <= k && k <= last) {
            return Err(ProtocolError::OutOfSequence);
        }
        if k == 1 {
            let checked = if keygen {
                match check_group_init(data) {
                    Ok(_) => Ok(()),
                    Err(e) => Err(e),
                }
            } else {
                match check_sign_init(data) {
                    Ok(_) => Ok(()),
                    Err(e) => Err(e),
                }
            };
            if let Err(e) = checked {
                self.round = Gg18Round::Failed { err: e };
                return Err(e);
            }
            let mut msgs: Vec<Vec<u8>> = Vec::new();
            msgs.push(crate::musig2::clone_bytes(data));
            assert(blobs_view(msgs@) =~= seq![data@]);
            return Ok((k, msgs, carry));
        }
        match gather(data) {
            Err(e) => {
                self.round = Gg18Round::Failed { err: e };
                Err(e)
            },
            Ok(msgs) => Ok((k, msgs, carry)),
        }
    }

    /// Absorbs the host's round outcome: poisons the engine on a
    /// failed round, otherwise frames the outputs and moves one round
    /// forward.
    pub fn absorb(&mut self, outcome: Result<(Vec<Vec<u8>>, Vec<u8>), ProtocolError>) -> (r:
        Result<(Vec<u8>, Recipient), ProtocolError>)
        ensures
            gg18_absorb_post(*old(self), *final(self), outcome, r),
    {
        let (k, keygen) = match &self.round {
            Gg18Round::Failed { err } => {
                return Err(*err);
            },
            Gg18Round::Done { .. } => {
                return Err(ProtocolError::OutOfSequence);
            },
            Gg18Round::KeygenR { k, .. } => (*k, true),
            Gg18Round::SignR { k, .. } => (*k, false),
        };
        let last: u8 = if keygen {
            6
        } else {
            10
        };
        if !(1 <= k && k <= last) {
            return Err(ProtocolError::OutOfSequence);
        }
        let (mut outs, carry2) = match outcome {
            Err(e) => {
                self.round = Gg18Round::Failed { err: e };
                return Err(e);
            },
            Ok(x) => x,
        };
        let unicast: u8 = if keygen {
            3
        } else {
            2
        };
        if k == unicast {
            // the unicast round is never the last one
            match emit_unicasts(outs) {
                Err(e) => {
                    self.round = Gg18Round::Failed { err: e };
                    Err(e)
                },
                Ok(f) => {
                    self.round = if keygen {
                        Gg18Round::KeygenR { k: k + 1, carry: carry2 }
                    } else {
                        Gg18Round::SignR { k: k + 1, carry: carry2 }
                    };
                    Ok(f)
                },
            }
        } else {
            if outs.len() != 1 {
                self.round = Gg18Round::Failed { err: ProtocolError::CodecInternal };
                return Err(ProtocolError::CodecInternal);
            }
            let first = outs.remove(0);
            // a finished signing run's artifact is the broadcast
            // signature itself
            let first_copy = crate::musig2::clone_bytes(&first);
            match emit_broadcast(first) {
                Err(e) => {
                    self.round = Gg18Round::Failed { err: e };
                    Err(e)
                },
                Ok(f) => {
                    self.round = if k == last {
                        Gg18Round::Done {
                            art: if keygen {
                                carry2
                            } else {
                                first_copy
                            },
                        }
                    } else if keygen {
                        Gg18Round::KeygenR { k: k + 1, carry: carry2 }
                    } else {
                        Gg18Round::SignR { k: k + 1, carry: carry2 }
                    };
                    Ok(f)
                },
            }
        }
    }
}

/// What the one-shot `advance` does on this engine: nothing.  A GG18
/// round runs through [`Gg18Context::prepare`] and
/// [`Gg18Context::absorb`], because the round function in between is
/// the host's outside work; a single-step call is out of sequence by
/// construction, and a poisoned or terminal engine answers as every
/// engine does.
pub open spec fn gg18_single_step_post(
    pre: Gg18Context,
    post: Gg18Context,
    r: Result<(Vec<u8>, Recipient), ProtocolError>,
) -> bool {
    &&& post == pre
    &&& match pre.round {
        Gg18Round::Failed { err } => r matches Err(e) && e == err,
        _ => r == Err::<(Vec<u8>, Recipient), ProtocolError>(ProtocolError::OutOfSequence),
    }
}

impl Gg18Context {
    /// The one-shot round interface does not fit this engine (the
    /// round function in between is the host's); it reports the
    /// poison or fails out of sequence, leaving the state alone.
    pub fn advance(&mut self, data: &Vec<u8>) -> (r: Result<(Vec<u8>, Recipient), ProtocolError>)
        ensures
            gg18_single_step_post(*old(self), *final(self), r),
    {
        let _ = data;
        match &self.round {
            Gg18Round::Failed { err } => Err(*err),
            _ => Err(ProtocolError::OutOfSequence),
        }
    }
}

impl crate::protocol::Protocol for Gg18Context {
    /// The group context or signature, once the run is complete.
    open spec fn artifact(&self) -> Option<Seq<u8>> {
        match self.round {
            Gg18Round::Done { art } => Some(art@),
            _ => None,
        }
    }

    open spec fn poisoned(&self) -> Option<ProtocolError> {
        match self.round {
            Gg18Round::Failed { err } => Some(err),
            _ => None,
        }
    }

    fn advance(&mut self, data: &Vec<u8>) -> (r: Result<(Vec<u8>, Recipient), ProtocolError>) {
        self.advance(data)
    }

    fn finish(self) -> (r: Result<Vec<u8>, ProtocolError>) {
        match self.round {
            Gg18Round::Done { art } => Ok(art),
            Gg18Round::Failed { err } => Err(err),
            _ => Err(ProtocolError::OutOfSequence),
        }
    }
}

/// The state's byte strings fit their length prefixes, so that a
/// snapshot can frame them.  Every state an engine reaches through
/// its methods satisfies this.
pub open spec fn gg18_snap_wf(c: Gg18CtxView) -> bool {
    match c.round {
        Gg18RoundView::KeygenR { carry, .. } => chunk_wf(carry),
        Gg18RoundView::SignR { carry, .. } => chunk_wf(carry),
        Gg18RoundView::Done { art } => chunk_wf(art),
        Gg18RoundView::Failed { .. } => true,
    }
}

/// Bytes of a suspended GG18 engine.
pub open spec fn spec_enc_gg18_ctx(c: Gg18CtxView) -> Seq<u8>
    recommends
        gg18_snap_wf(c),
{
    match c.round {
        Gg18RoundView::KeygenR { k, carry } => seq![0u8, k] + crate::bytes::spec_chunk(carry),
        Gg18RoundView::SignR { k, carry } => seq![1u8, k] + crate::bytes::spec_chunk(carry),
        Gg18RoundView::Done { art } => seq![2u8] + crate::bytes::spec_chunk(art),
        Gg18RoundView::Failed { err } => seq![3u8] + crate::error::spec_enc_err(err),
    }
}

/// The suspended GG18 engine a byte string stands for, if it is a
/// whole snapshot and nothing more.
pub open spec fn spec_dec_gg18_ctx(s: Seq<u8>) -> Option<Gg18CtxView> {
    if s.len() < 1 {
        None
    } else if s[0] == 0 || s[0] == 1 {
        if s.len() < 2 {
            None
        } else {
            match crate::bytes::spec_read_chunk(s, 2) {
                None => None,
                Some((carry, p)) => if p == s.len() {
                    Some(
                        Gg18CtxView {
                            round: if s[0] == 0 {
                                Gg18RoundView::KeygenR { k: s[1], carry }
                            } else {
                                Gg18RoundView::SignR { k: s[1], carry }
                            },
                        },
                    )
                } else {
                    None
                },
            }
        }
    } else if s[0] == 2 {
        match crate::bytes::spec_read_chunk(s, 1) {
            None => None,
            Some((art, p)) => if p == s.len() {
                Some(Gg18CtxView { round: Gg18RoundView::Done { art } })
            } else {
                None
            },
        }
    } else if s[0] == 3 {
        match crate::error::spec_read_err(s, 1) {
            None => None,
            Some((err, p)) => if p == s.len() {
                Some(Gg18CtxView { round: Gg18RoundView::Failed { err } })
            } else {
                None
            },
        }
    } else {
        None
    }
}

/// Restoring a suspended GG18 engine gives the state back exactly.
pub proof fn lemma_gg18_snapshot_round_trip(c: Gg18CtxView)
    requires
        gg18_snap_wf(c),
    ensures
        spec_dec_gg18_ctx(spec_enc_gg18_ctx(c)) == Some(c),
{
    let s = spec_enc_gg18_ctx(c);
    match c.round {
        Gg18RoundView::KeygenR { k, carry } => {
            assert(s[0] == 0u8 && s[1] == k);
            assert(s.subrange(2, 2 + 4 + carry.len() as int) =~= crate::bytes::spec_chunk(carry));
            crate::bytes::lemma_read_chunk_of_enc(s, 2, carry);
        },
        Gg18RoundView::SignR { k, carry } => {
            assert(s[0] == 1u8 && s[1] == k);
            assert(s.subrange(2, 2 + 4 + carry.len() as int) =~= crate::bytes::spec_chunk(carry));
            crate::bytes::lemma_read_chunk_of_enc(s, 2, carry);
        },
        Gg18RoundView::Done { art } => {
            assert(s[0] == 2u8);
            assert(s.subrange(1, 1 + 4 + art.len() as int) =~= crate::bytes::spec_chunk(art));
            crate::bytes::lemma_read_chunk_of_enc(s, 1, art);
        },
        Gg18RoundView::Failed { err } => {
            assert(s[0] == 3u8);
            assert(s.subrange(1, 4) =~= crate::error::spec_enc_err(err));
            crate::error::lemma_read_err_of_enc(s, 1, err);
        },
    }
}

impl Gg18Context {
    /// Serializes the engine for suspension between rounds.
    pub fn snapshot(&self) -> (r: Vec<u8>)
        requires
            gg18_snap_wf(self@),
        ensures
            r@ == spec_enc_gg18_ctx(self@),
    {
        let mut out: Vec<u8> = Vec::new();
        match &self.round {
            Gg18Round::KeygenR { k, carry } => {
                out.push(0);
                out.push(*k);
                crate::bytes::push_chunk(&mut out, carry);
            },
            Gg18Round::SignR { k, carry } => {
                out.push(1);
                out.push(*k);
                crate::bytes::push_chunk(&mut out, carry);
            },
            Gg18Round::Done { art } => {
                out.push(2);
                crate::bytes::push_chunk(&mut out, art);
            },
            Gg18Round::Failed { err } => {
                out.push(3);
                err.push_err(&mut out);
            },
        }
        assert(out@ =~= spec_enc_gg18_ctx(self@));
        out
    }

    /// Rebuilds a suspended engine, exactly as [`spec_dec_gg18_ctx`]
    /// describes it.
    pub fn restore(data: &Vec<u8>) -> (r: Option<Gg18Context>)
        ensures
            r is Some <==> spec_dec_gg18_ctx(data@) is Some,
            r matches Some(c) ==> spec_dec_gg18_ctx(data@) == Some(c@),
    {
        let len: usize = data.len();
        if len < 1 {
            return None;
        }
        let tag = data[0];
        if tag == 0 || tag == 1 {
            if len < 2 {
                return None;
            }
            let k = data[1];
            match crate::bytes::read_chunk(data, 2) {
                None => None,
                Some((carry, p)) => {
                    if p == len {
                        let round = if tag == 0 {
                            Gg18Round::KeygenR { k, carry }
                        } else {
                            Gg18Round::SignR { k, carry }
                        };
                        Some(Gg18Context { round })
                    } else {
                        None
                    }
                },
            }
        } else if tag == 2 {
            match crate::bytes::read_chunk(data, 1) {
                None => None,
                Some((art, p)) => {
                    if p == len {
                        Some(Gg18Context { round: Gg18Round::Done { art } })
                    } else {
                        None
                    }
                },
            }
        } else if tag == 3 {
            match ProtocolError::read_err(data, 1) {
                None => None,
                Some((err, p)) => {
                    if p == len {
                        Some(Gg18Context { round: Gg18Round::Failed { err } })
                    } else {
                        None
                    }
                },
            }
        } else {
            None
        }
    }
}

} // verus!
