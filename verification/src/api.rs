//! The host-facing handle: a multi-share session around the round
//! engines.
//!
//! The handle owns one engine per share held on this device and a
//! session-state word for the authenticated channel to the
//! coordinator.  The channel's cryptography — verifying the peer's
//! certificate bundle against the pinned anchors, deriving the session
//! key and sealing each round's bytes — is outside work the host
//! performs around these calls and reports back; the handle decides
//! the state transitions (a rejected bundle poisons the session),
//! routes each round to its engine and reports where the bytes must
//! go.

use vstd::prelude::*;

use crate::bytes::{
    blobs_view, chunk_list_wf, push_chunk_list, read_chunk_list, spec_chunk_list,
    spec_read_chunk_list,
};
use crate::dispatcher::Dispatcher;
use crate::error::ProtocolError;
use crate::musig2::{KeygenContext, SignContext};
use crate::proto::ProtocolType;
use crate::protocol::Protocol as ProtocolEngine;
use crate::protocol;

verus! {

/// Protocols selectable at the host boundary.
#[derive(Clone, Copy, Debug, PartialEq, Eq, Structural)]
pub enum ProtocolId {
    Gg18,
    Elgamal,
    Frost,
    Musig2,
}

impl core::convert::From<ProtocolId> for ProtocolType {
    fn from(pid: ProtocolId) -> (r: ProtocolType) {
        match pid {
            ProtocolId::Gg18 => ProtocolType::Gg18,
            ProtocolId::Elgamal => ProtocolType::Elgamal,
            ProtocolId::Frost => ProtocolType::Frost,
            ProtocolId::Musig2 => ProtocolType::Musig2,
        }
    }
}

impl vstd::std_specs::convert::FromSpecImpl<ProtocolId> for ProtocolType {
    open spec fn obeys_from_spec() -> bool {
        true
    }

    open spec fn from_spec(pid: ProtocolId) -> ProtocolType {
        match pid {
            ProtocolId::Gg18 => ProtocolType::Gg18,
            ProtocolId::Elgamal => ProtocolType::Elgamal,
            ProtocolId::Frost => ProtocolType::Frost,
            ProtocolId::Musig2 => ProtocolType::Musig2,
        }
    }
}

/// Recipient of a returned buffer at the host boundary; `Unknown` is
/// reserved for the error path.
#[derive(Clone, Copy, Debug, PartialEq, Eq, Structural)]
pub enum Recipient {
    Unknown,
    Card,
    Server,
}

impl core::convert::From<protocol::Recipient> for Recipient {
    fn from(value: protocol::Recipient) -> (r: Recipient) {
        match value {
            protocol::Recipient::Card => Recipient::Card,
            protocol::Recipient::Server => Recipient::Server,
        }
    }
}

impl vstd::std_specs::convert::FromSpecImpl<protocol::Recipient> for Recipient {
    open spec fn obeys_from_spec() -> bool {
        true
    }

    open spec fn from_spec(value: protocol::Recipient) -> Recipient {
        match value {
            protocol::Recipient::Card => Recipient::Card,
            protocol::Recipient::Server => Recipient::Server,
        }
    }
}

/// A byte buffer handed back to the host, tagged with where it must
/// be delivered.
pub struct Buffer {
    pub data: Vec<u8>,
    pub rec: Recipient,
}

impl Buffer {
    /// A buffer carrying `vec`, addressed to `rec`.
    pub fn from_vec(vec: Vec<u8>, rec: Recipient) -> (r: Buffer)
        ensures
            r.data == vec,
            r.rec == rec,
    {
        Buffer { data: vec, rec }
    }
}

impl core::convert::From<Vec<u8>> for Buffer {
    fn from(vec: Vec<u8>) -> (r: Buffer) {
        Buffer::from_vec(vec, Recipient::Unknown)
    }
}

impl vstd::std_specs::convert::FromSpecImpl<Vec<u8>> for Buffer {
    open spec fn obeys_from_spec() -> bool {
        true
    }

    open spec fn from_spec(vec: Vec<u8>) -> Buffer {
        Buffer { data: vec, rec: Recipient::Unknown }
    }
}

/// A fresh long-term key and the certificate-signing request that
/// belongs to it.
pub struct AuthKey {
    pub key: Buffer,
    pub csr: Buffer,
}

impl AuthKey {
    /// Packages a key and its signing request.
    pub fn new(key: Vec<u8>, csr: Vec<u8>) -> (r: AuthKey)
        ensures
            r.key.data == key && r.key.rec == Recipient::Unknown,
            r.csr.data == csr && r.csr.rec == Recipient::Unknown,
    {
        AuthKey { key: Buffer::from_vec(key, Recipient::Unknown), csr: Buffer::from_vec(csr, Recipient::Unknown) }
    }
}

/// Session state of the authenticated channel to the coordinator.
#[derive(Clone, Copy, Debug, PartialEq, Eq, Structural)]
pub enum SessionState {
    /// Certificate bundles have not been exchanged yet (key
    /// generation starts here).
    CertSwap,
    /// The counterpart already knows the identities (signing starts
    /// here).
    Init,
    /// The session key is established; rounds flow.
    Running,
    /// The session is over.
    Closed,
    /// The transport rejected the peer during the certificate swap;
    /// the session is poisoned and repeats that failure.
    Failed,
}

/// A multi-share protocol session.
pub struct Protocol {
    pub state: SessionState,
    pub kind: ProtocolType,
    pub shares: Vec<Dispatcher>,
    pub certs: Vec<u8>,
    pub identity: Vec<u8>,
    pub peer_cert: Option<Vec<u8>>,
}

/// The artifacts of all shares, where every engine is terminal.
pub open spec fn artifacts_of(shares: Seq<Dispatcher>) -> Seq<Seq<u8>> {
    Seq::new(shares.len(), |i: int| shares[i].artifact()->Some_0)
}

/// The engine-level recipient a host-level one stands for; engines
/// never produce `Unknown`.
pub open spec fn lower_recipient(rec: Recipient) -> protocol::Recipient {
    match rec {
        Recipient::Card => protocol::Recipient::Card,
        _ => protocol::Recipient::Server,
    }
}

/// The engine-level result a host-level one stands for.
pub open spec fn lower_result(r: Result<(Vec<u8>, Recipient), ProtocolError>) -> Result<
    (Vec<u8>, protocol::Recipient),
    ProtocolError,
> {
    match r {
        Ok((out, rec)) => Ok((out, lower_recipient(rec))),
        Err(e) => Err(e),
    }
}

/// Whether one round's outbound bytes must be sealed with the session
/// key before leaving the device: exactly the server-bound ones —
/// card transport is unauthenticated at this layer, and the error
/// path sends nothing.
pub open spec fn seals(rec: Recipient) -> bool {
    rec is Server
}

/// Executable twin of [`seals`]: the host's sealing decision after
/// every [`Protocol::advance_share`] call.
pub fn must_seal(rec: Recipient) -> (r: bool)
    ensures
        r == seals(rec),
{
    matches!(rec, Recipient::Server)
}

/// The bytes are a whole list of group contexts with at least
/// `shares` entries, each of which decodes to a valid group.
pub open spec fn groups_ok(group: Seq<u8>, shares: int) -> bool {
    &&& spec_read_chunk_list(group, 0) matches Some((l, p)) && p == group.len() && l.len()
        >= shares
    &&& (spec_read_chunk_list(group, 0) matches Some((l, p)) ==> forall|i: int|
        0 <= i < shares ==> (crate::musig2::spec_dec_group(#[trigger] l[i]) matches Some(g)
            && crate::musig2::group_wf(g)))
}

impl Protocol {
    /// Opens a key-generation session: one fresh engine per share and
    /// an authenticated channel that still has to swap certificates.
    pub fn keygen(
        kind: ProtocolId,
        certs: Vec<u8>,
        identity: Vec<u8>,
        with_card: bool,
        shares: usize,
    ) -> (r: Protocol)
        requires
            kind is Musig2,
        ensures
            r.state is CertSwap,
            r.kind == ProtocolType::Musig2,
            r.certs == certs,
            r.identity == identity,
            r.peer_cert is None,
            r.shares@.len() == shares,
            forall|i: int|
                0 <= i < shares ==> ((#[trigger] r.shares@[i]) matches Dispatcher::Musig2Keygen(c)
                    && c.round is R0 && c.with_card == with_card),
    {
        let mut ds: Vec<Dispatcher> = Vec::new();
        let mut i: usize = 0;
        while i < shares
            invariant
                i <= shares,
                ds@.len() == i,
                forall|j: int|
                    0 <= j < i ==> ((#[trigger] ds@[j]) matches Dispatcher::Musig2Keygen(c)
                        && c.round is R0 && c.with_card == with_card),
            decreases shares - i,
        {
            let engine = if with_card {
                KeygenContext::with_card()
            } else {
                KeygenContext::new()
            };
            ds.push(Dispatcher::Musig2Keygen(engine));
            i = i + 1;
        }
        Protocol {
            state: SessionState::CertSwap,
            kind: ProtocolType::Musig2,
            shares: ds,
            certs,
            identity,
            peer_cert: None,
        }
    }

    /// Opens a signing session from the artifact a key-generation
    /// session produced: the artifact is a list of group contexts, one
    /// per share, and the first `shares` of them are used.
    pub fn init(
        kind: ProtocolId,
        group: &Vec<u8>,
        certs: Vec<u8>,
        identity: Vec<u8>,
        shares: usize,
    ) -> (r: Result<Protocol, ProtocolError>)
        requires
            kind is Musig2,
        ensures
            r is Ok <==> groups_ok(group@, shares as int),
            r matches Ok(p) ==> {
                &&& p.state is Init
                &&& p.kind == ProtocolType::Musig2
                &&& p.certs == certs
                &&& p.identity == identity
                &&& p.peer_cert is None
                &&& p.shares@.len() == shares
                &&& spec_read_chunk_list(group@, 0) matches Some((l, q)) && forall|i: int|
                    0 <= i < shares ==> ((#[trigger] p.shares@[i]) matches Dispatcher::Musig2Sign(
                    c) && c.round is R0 && c.message is None && c.indices is None
                        && crate::musig2::spec_dec_group(l[i]) == Some(c.group@))
            },
            r matches Err(e) ==> e == ProtocolError::CodecInternal,
    {
        let list = match read_chunk_list(group, 0) {
            None => {
                return Err(ProtocolError::CodecInternal);
            },
            Some((l, p)) => {
                if p != group.len() {
                    return Err(ProtocolError::CodecInternal);
                }
                l
            },
        };
        if list.len() < shares {
            return Err(ProtocolError::CodecInternal);
        }
        let ghost blobs = blobs_view(list@);
        let mut ds: Vec<Dispatcher> = Vec::new();
        let mut i: usize = 0;
        while i < shares
            invariant
                i <= shares,
                shares <= list@.len(),
                blobs == blobs_view(list@),
                spec_read_chunk_list(group@, 0) == Some((blobs, group@.len() as int)),
                ds@.len() == i,
                forall|j: int|
                    0 <= j < i ==> ((#[trigger] ds@[j]) matches Dispatcher::Musig2Sign(c)
                        && c.round is R0 && c.message is None && c.indices is None
                        && crate::musig2::spec_dec_group(blobs[j]) == Some(c.group@)),
                forall|j: int|
                    0 <= j < i ==> (crate::musig2::spec_dec_group(#[trigger] blobs[j]) matches Some(
                    g) && crate::musig2::group_wf(g)),
            decreases shares - i,
        {
            proof {
                assert(blobs[i as int] == list@[i as int]@);
            }
            let engine = match SignContext::new(&list[i]) {
                Err(e) => {
                    proof {
                        assert(!(crate::musig2::spec_dec_group(blobs[i as int]) matches Some(g)
                            && crate::musig2::group_wf(g)));
                        assert(!groups_ok(group@, shares as int));
                    }
                    return Err(e);
                },
                Ok(c) => c,
            };
            ds.push(Dispatcher::Musig2Sign(engine));
            i = i + 1;
        }
        assert(groups_ok(group@, shares as int));
        Ok(
            Protocol {
                state: SessionState::Init,
                kind: ProtocolType::Musig2,
                shares: ds,
                certs,
                identity,
                peer_cert: None,
            },
        )
    }

    /// Drives one share one round forward.
    ///
    /// The first call after a key-generation construction performs the
    /// certificate swap: the host verifies the inbound certificate
    /// bundle against the pinned anchors (outside work this library
    /// cannot perform itself) and reports the outcome in
    /// `peer_verified`.  A verified bundle is pinned and the local
    /// bundle returned, addressed to the server; a rejected one
    /// poisons the session, which repeats the
    /// transport-authentication failure.  Sealing later rounds with
    /// the derived session key is likewise the host's work, owed for
    /// exactly the server-bound results ([`must_seal`]); the flag is
    /// read only during the swap.
    pub fn advance_share(&mut self, index: usize, data: &Vec<u8>, peer_verified: bool) -> (r:
        Result<(Vec<u8>, Recipient), ProtocolError>)
        requires
            index < old(self).shares@.len(),
        ensures
            final(self).kind == old(self).kind,
            final(self).certs == old(self).certs,
            final(self).identity == old(self).identity,
            final(self).shares@.len() == old(self).shares@.len(),
            old(self).state is CertSwap && peer_verified ==> {
                &&& r matches Ok((out, rec))
                &&& r matches Ok((out, rec)) ==> out@ == old(self).identity@ && rec
                    == Recipient::Server
                &&& final(self).state is Running
                &&& final(self).peer_cert matches Some(c) && c@ == data@
                &&& final(self).shares == old(self).shares
            },
            old(self).state is CertSwap && !peer_verified ==> {
                &&& r == Err::<(Vec<u8>, Recipient), ProtocolError>(
                    ProtocolError::TransportAuthFailed,
                )
                &&& final(self).state is Failed
                &&& final(self).shares == old(self).shares
                &&& final(self).peer_cert == old(self).peer_cert
            },
            old(self).state is Failed ==> r == Err::<(Vec<u8>, Recipient), ProtocolError>(
                ProtocolError::TransportAuthFailed,
            ) && *final(self) == *old(self),
            old(self).state is Closed ==> r == Err::<(Vec<u8>, Recipient), ProtocolError>(
                ProtocolError::OutOfSequence,
            ) && *final(self) == *old(self),
            (old(self).state is Init || old(self).state is Running) ==> {
                &&& final(self).state is Running
                &&& final(self).peer_cert == old(self).peer_cert
                &&& forall|j: int|
                    0 <= j < old(self).shares@.len() && j != index ==> final(self).shares@[j]
                        == old(self).shares@[j]
                &&& crate::dispatcher::dispatcher_advance_post(
                    old(self).shares@[index as int],
                    final(self).shares@[index as int],
                    data@,
                    lower_result(r),
                )
                &&& (r matches Ok((out, rec)) ==> rec != Recipient::Unknown)
            },
    {
        match self.state {
            SessionState::CertSwap => {
                if !peer_verified {
                    self.state = SessionState::Failed;
                    return Err(ProtocolError::TransportAuthFailed);
                }
                self.peer_cert = Some(crate::musig2::clone_bytes(data));
                self.state = SessionState::Running;
                Ok((crate::musig2::clone_bytes(&self.identity), Recipient::Server))
            },
            SessionState::Failed => Err(ProtocolError::TransportAuthFailed),
            SessionState::Closed => Err(ProtocolError::OutOfSequence),
            SessionState::Init | SessionState::Running => {
                self.state = SessionState::Running;
                let ghost oshares = self.shares@;
                let mut engine = self.shares.remove(index);
                let res = engine.advance(data);
                self.shares.insert(index, engine);
                proof {
                    assert(forall|j: int|
                        0 <= j < oshares.len() && j != index ==> #[trigger] self.shares@[j]
                            == oshares[j]);
                    assert(self.shares@[index as int] == engine);
                }
                match res {
                    Err(e) => Err(e),
                    Ok((out, rec)) => {
                        let mapped = match rec {
                            protocol::Recipient::Card => Recipient::Card,
                            protocol::Recipient::Server => Recipient::Server,
                        };
                        proof {
                            assert(lower_recipient(mapped) == rec);
                        }
                        Ok((out, mapped))
                    },
                }
            },
        }
    }

    /// Finishes every share and returns their artifacts as one list,
    /// in share order.
    pub fn finish_all(self) -> (r: Result<Vec<u8>, ProtocolError>)
        ensures
            r is Ok <==> (forall|i: int|
                0 <= i < self.shares@.len() ==> (#[trigger] self.shares@[i]).artifact() is Some
                    && self.shares@[i].artifact()->Some_0.len() <= 0xffff_ffff)
                && self.shares@.len() <= 0xffff_ffff,
            r matches Ok(v) ==> v@ == spec_chunk_list(artifacts_of(self.shares@)),
            r matches Err(e) ==> {
                ||| (exists|i: int|
                    {
                        &&& 0 <= i < self.shares@.len()
                        &&& (#[trigger] self.shares@[i]).artifact() is None
                        &&& (forall|j: int|
                            0 <= j < i ==> (#[trigger] self.shares@[j]).artifact() is Some)
                        &&& match self.shares@[i].poisoned() {
                            Some(p) => e == p,
                            None => e == ProtocolError::OutOfSequence,
                        }
                    })
                ||| ((exists|i: int|
                    0 <= i < self.shares@.len() && ((#[trigger] self.shares@[i]).artifact() matches Some(
                    av) && av.len() > 0xffff_ffff)) && e == ProtocolError::CodecInternal)
                ||| (self.shares@.len() > 0xffff_ffff && e == ProtocolError::CodecInternal)
            },
    {
        let mut arts: Vec<Vec<u8>> = Vec::new();
        let mut rest = self.shares;
        let ghost all = rest@;
        let mut i: usize = 0;
        let n: usize = rest.len();
        while i < n
            invariant
                i <= n,
                n == all.len(),
                all == self.shares@,
                rest@ == all.subrange(i as int, n as int),
                arts@.len() == i,
                forall|j: int|
                    0 <= j < i ==> (#[trigger] all[j]).artifact() is Some && arts@[j]@
                        == all[j].artifact()->Some_0,
                forall|j: int| 0 <= j < i ==> (#[trigger] arts@[j])@.len() <= 0xffff_ffff,
            decreases n - i,
        {
            let d = rest.remove(0);
            assert(d == all[i as int]);
            let a = match d.finish() {
                Err(e) => {
                    proof {
                        assert(all[i as int].artifact() is None);
                    }
                    return Err(e);
                },
                Ok(a) => a,
            };
            if a.len() > 0xffff_ffff {
                proof {
                    assert(all[i as int].artifact()->Some_0.len() > 0xffff_ffff);
                }
                return Err(ProtocolError::CodecInternal);
            }
            arts.push(a);
            proof {
                assert(rest@ =~= all.subrange(i + 1, n as int));
            }
            i = i + 1;
        }
        if arts.len() > 0xffff_ffff {
            return Err(ProtocolError::CodecInternal);
        }
        proof {
            assert(blobs_view(arts@) =~= artifacts_of(all));
            assert(forall|j: int|
                0 <= j < arts@.len() ==> (#[trigger] blobs_view(arts@)[j]).len()
                    <= 0xffff_ffff) by {
                assert(forall|j: int|
                    0 <= j < arts@.len() ==> #[trigger] blobs_view(arts@)[j] == arts@[j]@);
            }
            assert(chunk_list_wf(blobs_view(arts@)));
        }
        let mut out: Vec<u8> = Vec::new();
        push_chunk_list(&mut out, &arts);
        assert(out@ =~= spec_chunk_list(artifacts_of(all)));
        Ok(out)
    }
}

/// The tag byte of a session state.
pub open spec fn spec_state_tag(s: SessionState) -> u8 {
    match s {
        SessionState::CertSwap => 0,
        SessionState::Init => 1,
        SessionState::Running => 2,
        SessionState::Closed => 3,
        SessionState::Failed => 4,
    }
}

/// The session state a tag byte names, if any.
pub open spec fn spec_state_of_tag(b: u8) -> Option<SessionState> {
    if b == 0 {
        Some(SessionState::CertSwap)
    } else if b == 1 {
        Some(SessionState::Init)
    } else if b == 2 {
        Some(SessionState::Running)
    } else if b == 3 {
        Some(SessionState::Closed)
    } else if b == 4 {
        Some(SessionState::Failed)
    } else {
        None
    }
}

/// Mathematical shape of a [`Protocol`] session.
pub ghost struct ProtocolView {
    pub state: SessionState,
    pub kind: ProtocolType,
    pub shares: Seq<crate::dispatcher::DispatcherView>,
    pub certs: Seq<u8>,
    pub identity: Seq<u8>,
    pub peer_cert: Option<Seq<u8>>,
}

impl View for Protocol {
    type V = ProtocolView;

    open spec fn view(&self) -> ProtocolView {
        ProtocolView {
            state: self.state,
            kind: self.kind,
            shares: self.shares@.map_values(|d: Dispatcher| d@),
            certs: self.certs@,
            identity: self.identity@,
            peer_cert: match self.peer_cert {
                None => None,
                Some(c) => Some(c@),
            },
        }
    }
}

/// The session's byte strings fit their length and count prefixes, so
/// that a serialization can frame them.  Every session the library
/// builds satisfies this whenever its inputs do.
pub open spec fn proto_snap_wf(p: ProtocolView) -> bool {
    &&& crate::bytes::chunk_wf(p.certs)
    &&& crate::bytes::chunk_wf(p.identity)
    &&& (p.peer_cert matches Some(c) ==> crate::bytes::chunk_wf(c))
    &&& p.shares.len() <= 0xffff_ffff
    &&& forall|i: int|
        0 <= i < p.shares.len() ==> crate::dispatcher::dispatcher_snap_wf(#[trigger] p.shares[i])
            && crate::bytes::chunk_wf(crate::dispatcher::spec_enc_dispatcher(p.shares[i]))
}

/// The framed snapshots of every share, in order.
pub open spec fn spec_share_blobs(shares: Seq<crate::dispatcher::DispatcherView>) -> Seq<Seq<u8>> {
    shares.map_values(
        |d: crate::dispatcher::DispatcherView| crate::dispatcher::spec_enc_dispatcher(d),
    )
}

/// Bytes of a serialized session.
#[verifier::opaque]
pub open spec fn spec_enc_protocol(p: ProtocolView) -> Seq<u8>
    recommends
        proto_snap_wf(p),
{
    seq![spec_state_tag(p.state), crate::proto::spec_tag(p.kind)] + crate::bytes::spec_chunk(
        p.certs,
    ) + crate::bytes::spec_chunk(p.identity) + crate::proto::spec_opt_chunk(p.peer_cert)
        + spec_chunk_list(spec_share_blobs(p.shares))
}

/// The shares a list of framed snapshots stands for, if every one of
/// them is a whole share snapshot.
pub open spec fn spec_dec_shares(blobs: Seq<Seq<u8>>) -> Option<
    Seq<crate::dispatcher::DispatcherView>,
>
    decreases blobs.len(),
{
    if blobs.len() == 0 {
        Some(Seq::empty())
    } else {
        match crate::dispatcher::spec_dec_dispatcher(blobs[0]) {
            None => None,
            Some(d) => match spec_dec_shares(blobs.drop_first()) {
                None => None,
                Some(l) => Some(seq![d] + l),
            },
        }
    }
}

/// Decoding the framed snapshots of well-formed shares restores them.
pub proof fn lemma_dec_shares_of_enc(shares: Seq<crate::dispatcher::DispatcherView>)
    requires
        forall|i: int|
            0 <= i < shares.len() ==> crate::dispatcher::dispatcher_snap_wf(
                #[trigger] shares[i],
            ),
    ensures
        spec_dec_shares(spec_share_blobs(shares)) == Some(shares),
    decreases shares.len(),
{
    let blobs = spec_share_blobs(shares);
    if shares.len() == 0 {
        assert(shares =~= Seq::<crate::dispatcher::DispatcherView>::empty());
    } else {
        assert(blobs[0] == crate::dispatcher::spec_enc_dispatcher(shares[0]));
        crate::dispatcher::lemma_dispatcher_snapshot_round_trip(shares[0]);
        assert(blobs.drop_first() =~= spec_share_blobs(shares.drop_first()));
        lemma_dec_shares_of_enc(shares.drop_first());
        assert(seq![shares[0]] + shares.drop_first() =~= shares);
    }
}

/// The serialized session a byte string stands for, if it is a whole
/// serialization and nothing more.
#[verifier::opaque]
pub open spec fn spec_dec_protocol(s: Seq<u8>) -> Option<ProtocolView> {
    if s.len() < 2 {
        None
    } else {
        match (spec_state_of_tag(s[0]), crate::proto::spec_type_of_tag(s[1])) {
            (Some(state), Some(kind)) => match crate::bytes::spec_read_chunk(s, 2) {
                None => None,
                Some((certs, p0)) => match crate::bytes::spec_read_chunk(s, p0) {
                    None => None,
                    Some((identity, p1)) => match crate::musig2::spec_read_opt_chunk(s, p1) {
                        None => None,
                        Some((peer_cert, p2)) => match spec_read_chunk_list(s, p2) {
                            None => None,
                            Some((blobs, p3)) => if p3 == s.len() {
                                match spec_dec_shares(blobs) {
                                    None => None,
                                    Some(shares) => Some(
                                        ProtocolView {
                                            state,
                                            kind,
                                            shares,
                                            certs,
                                            identity,
                                            peer_cert,
                                        },
                                    ),
                                }
                            } else {
                                None
                            },
                        },
                    },
                },
            },
            _ => None,
        }
    }
}

/// Restoring a serialized session gives the session back exactly.
#[verifier::rlimit(100)]
#[verifier::spinoff_prover]
pub proof fn lemma_protocol_snapshot_round_trip(p: ProtocolView)
    requires
        proto_snap_wf(p),
    ensures
        spec_dec_protocol(spec_enc_protocol(p)) == Some(p),
{
    reveal(spec_enc_protocol);
    reveal(spec_dec_protocol);
    let s = spec_enc_protocol(p);
    let clen = crate::bytes::spec_chunk(p.certs).len() as int;
    let ilen = crate::bytes::spec_chunk(p.identity).len() as int;
    let plen = crate::proto::spec_opt_chunk(p.peer_cert).len() as int;
    let blobs = spec_share_blobs(p.shares);
    let head = seq![spec_state_tag(p.state), crate::proto::spec_tag(p.kind)]
        + crate::bytes::spec_chunk(p.certs) + crate::bytes::spec_chunk(p.identity)
        + crate::proto::spec_opt_chunk(p.peer_cert);
    let tail = spec_chunk_list(blobs);
    assert(s == head + tail);
    assert(s[0] == spec_state_tag(p.state) && s[1] == crate::proto::spec_tag(p.kind));
    crate::proto::lemma_tag_round_trip(p.kind);
    crate::bytes::lemma_subrange_in_prefix(head, tail, 2, 2 + clen);
    assert(head.subrange(2, 2 + clen) =~= crate::bytes::spec_chunk(p.certs));
    crate::bytes::lemma_read_chunk_of_enc(s, 2, p.certs);
    crate::bytes::lemma_subrange_in_prefix(head, tail, 2 + clen, 2 + clen + ilen);
    assert(head.subrange(2 + clen, 2 + clen + ilen) =~= crate::bytes::spec_chunk(p.identity));
    crate::bytes::lemma_read_chunk_of_enc(s, 2 + clen, p.identity);
    crate::bytes::lemma_subrange_in_prefix(head, tail, 2 + clen + ilen, 2 + clen + ilen + plen);
    assert(head.subrange(2 + clen + ilen, 2 + clen + ilen + plen) =~= crate::proto::spec_opt_chunk(
        p.peer_cert,
    ));
    crate::musig2::lemma_read_opt_chunk_of_enc(s, 2 + clen + ilen, p.peer_cert);
    crate::bytes::lemma_subrange_in_tail(head, tail, head.len() as int, s.len() as int);
    assert(tail.subrange(0, tail.len() as int) =~= tail);
    assert(forall|i: int| 0 <= i < blobs.len() ==> crate::bytes::chunk_wf(#[trigger] blobs[i]));
    crate::bytes::lemma_read_chunk_list_of_enc(s, head.len() as int, blobs);
    lemma_dec_shares_of_enc(p.shares);
}

impl Protocol {
    /// Serializes the whole session — the channel state and every
    /// share — for suspension between calls.
    pub fn serialize(&self) -> (r: Vec<u8>)
        requires
            proto_snap_wf(self@),
        ensures
            r@ == spec_enc_protocol(self@),
    {
        proof {
            reveal(spec_enc_protocol);
        }
        let mut out: Vec<u8> = Vec::new();
        let state_tag: u8 = match self.state {
            SessionState::CertSwap => 0,
            SessionState::Init => 1,
            SessionState::Running => 2,
            SessionState::Closed => 3,
            SessionState::Failed => 4,
        };
        out.push(state_tag);
        out.push(crate::proto::tag_byte(self.kind));
        crate::bytes::push_chunk(&mut out, &self.certs);
        crate::bytes::push_chunk(&mut out, &self.identity);
        match &self.peer_cert {
            None => {
                out.push(0);
            },
            Some(c) => {
                out.push(1);
                crate::bytes::push_chunk(&mut out, c);
            },
        }
        let ghost head = out@;
        let n: usize = self.shares.len();
        let mut blobs: Vec<Vec<u8>> = Vec::new();
        let mut i: usize = 0;
        while i < n
            invariant
                i <= n,
                n == self.shares@.len(),
                proto_snap_wf(self@),
                crate::bytes::blobs_view(blobs@) == spec_share_blobs(self@.shares).subrange(
                    0,
                    i as int,
                ),
            decreases n - i,
        {
            proof {
                assert(self@.shares[i as int] == self.shares@[i as int]@);
            }
            let ghost oblobs = blobs@;
            blobs.push(self.shares[i].snapshot());
            proof {
                crate::bytes::lemma_blobs_view_push(oblobs, blobs@.last());
                assert(blobs@ =~= oblobs.push(blobs@.last()));
                assert(crate::bytes::blobs_view(blobs@) =~= spec_share_blobs(
                    self@.shares,
                ).subrange(0, i + 1));
            }
            i = i + 1;
        }
        proof {
            assert(spec_share_blobs(self@.shares).subrange(0, n as int) =~= spec_share_blobs(
                self@.shares,
            ));
        }
        crate::bytes::push_chunk_list(&mut out, &blobs);
        assert(out@ =~= spec_enc_protocol(self@));
        out
    }

    /// Rebuilds a serialized session, exactly as [`spec_dec_protocol`]
    /// describes it.
    pub fn deserialize(data: &Vec<u8>) -> (r: Option<Protocol>)
        ensures
            r is Some <==> spec_dec_protocol(data@) is Some,
            r matches Some(p) ==> spec_dec_protocol(data@) == Some(p@),
    {
        proof {
            reveal(spec_dec_protocol);
        }
        let len: usize = data.len();
        if len < 2 {
            return None;
        }
        let state = if data[0] == 0 {
            SessionState::CertSwap
        } else if data[0] == 1 {
            SessionState::Init
        } else if data[0] == 2 {
            SessionState::Running
        } else if data[0] == 3 {
            SessionState::Closed
        } else if data[0] == 4 {
            SessionState::Failed
        } else {
            return None;
        };
        let kind = match crate::proto::type_of_tag(data[1]) {
            None => {
                return None;
            },
            Some(k) => k,
        };
        let (certs, p0) = match crate::bytes::read_chunk(data, 2) {
            None => {
                return None;
            },
            Some(x) => x,
        };
        let (identity, p1) = match crate::bytes::read_chunk(data, p0) {
            None => {
                return None;
            },
            Some(x) => x,
        };
        if p1 >= len {
            return None;
        }
        let (peer_cert, p2): (Option<Vec<u8>>, usize) = if data[p1] == 0 {
            (None, p1 + 1)
        } else if data[p1] == 1 {
            match crate::bytes::read_chunk(data, p1 + 1) {
                None => {
                    return None;
                },
                Some((c, p)) => (Some(c), p),
            }
        } else {
            return None;
        };
        let (blobs, p3) = match crate::bytes::read_chunk_list(data, p2) {
            None => {
                return None;
            },
            Some(x) => x,
        };
        if p3 != len {
            return None;
        }
        let ghost bviews = crate::bytes::blobs_view(blobs@);
        let m: usize = blobs.len();
        let mut shares: Vec<Dispatcher> = Vec::new();
        let mut i: usize = 0;
        proof {
            assert(bviews.subrange(0, m as int) =~= bviews);
            assert(shares@.map_values(|d: Dispatcher| d@) =~= Seq::<
                crate::dispatcher::DispatcherView,
            >::empty());
            let e = spec_dec_shares(bviews);
            if e is Some {
                assert(shares@.map_values(|d: Dispatcher| d@) + e->Some_0 =~= e->Some_0);
            }
        }
        while i < m
            invariant
                i <= m,
                m == blobs@.len(),
                bviews == crate::bytes::blobs_view(blobs@),
                spec_dec_shares(bviews) == (match spec_dec_shares(
                    bviews.subrange(i as int, m as int),
                ) {
                    None => None::<Seq<crate::dispatcher::DispatcherView>>,
                    Some(l) => Some(shares@.map_values(|d: Dispatcher| d@) + l),
                }),
                spec_dec_shares(bviews) is None ==> spec_dec_protocol(data@) is None,
            decreases m - i,
        {
            proof {
                assert(bviews.subrange(i as int, m as int)[0] == bviews[i as int]);
                assert(bviews[i as int] == blobs@[i as int]@);
            }
            let d = match Dispatcher::restore(&blobs[i]) {
                None => {
                    proof {
                        assert(spec_dec_shares(bviews.subrange(i as int, m as int)) is None);
                    }
                    return None;
                },
                Some(d) => d,
            };
            let ghost oshares = shares@;
            shares.push(d);
            proof {
                assert(bviews.subrange(i as int, m as int).drop_first() =~= bviews.subrange(
                    i + 1,
                    m as int,
                ));
                assert(shares@.map_values(|x: Dispatcher| x@) =~= oshares.map_values(
                    |x: Dispatcher| x@,
                ).push(d@));
                let rest = spec_dec_shares(bviews.subrange(i + 1, m as int));
                if rest is Some {
                    assert(oshares.map_values(|x: Dispatcher| x@) + (seq![d@] + rest->Some_0)
                        =~= shares@.map_values(|x: Dispatcher| x@) + rest->Some_0);
                }
            }
            i = i + 1;
        }
        proof {
            assert(bviews.subrange(m as int, m as int) =~= Seq::<Seq<u8>>::empty());
            assert(shares@.map_values(|d: Dispatcher| d@) + Seq::<
                crate::dispatcher::DispatcherView,
            >::empty() =~= shares@.map_values(|d: Dispatcher| d@));
        }
        Some(Protocol { state, kind, shares, certs, identity, peer_cert })
    }
}

} // verus!
