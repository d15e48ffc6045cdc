//! Wire records exchanged with the coordinating server.
//!
//! Four record shapes share one framing, built from the primitives of
//! [`crate::bytes`]:
//!
//! * [`ClientMessage`] — one round's outbound payload: either a single
//!   broadcast value for all peers or one value per named peer;
//! * [`ServerMessage`] — the server-aggregated inbound payload: the
//!   peers' broadcasts and the unicasts addressed to this participant,
//!   both keyed by peer index;
//! * [`ProtocolGroupInit`] — the session-init record of a key
//!   generation run;
//! * [`ProtocolInit`] — the session-init record of a signing or
//!   decryption run.
//!
//! Every record starts with a one-byte protocol-kind tag.  Decoding
//! what an encoder produced restores the record exactly; the
//! `lemma_*_round_trip` lemmas state that.  The codec is purely
//! structural and performs no cryptographic check.

use vstd::prelude::*;

use crate::bytes::{
    chunk_wf, entries_view, entry_list_wf, lemma_read_chunk_of_enc, lemma_read_entry_list_of_enc,
    lemma_read_u32_list_of_enc, lemma_read_u32_of_enc, lemma_u32_le_round_trip, push_chunk,
    push_entry_list, push_u32_le, push_u32_list, read_chunk, read_entry_list, read_u32_le,
    read_u32_list, spec_chunk, spec_entry_list, spec_read_chunk, spec_read_entry_list,
    spec_read_u32, spec_read_u32_list, spec_u32_le, spec_u32_list, spec_u32_of_le,
};

verus! {

/// The protocols a wire record can belong to.
#[derive(Clone, Copy, Debug, PartialEq, Eq, Structural)]
pub enum ProtocolType {
    Gg18,
    Elgamal,
    Frost,
    Musig2,
}

/// The tag byte that names a protocol on the wire.
pub open spec fn spec_tag(t: ProtocolType) -> u8 {
    match t {
        ProtocolType::Gg18 => 0,
        ProtocolType::Elgamal => 1,
        ProtocolType::Frost => 2,
        ProtocolType::Musig2 => 3,
    }
}

/// The protocol a tag byte names, if any.
pub open spec fn spec_type_of_tag(b: u8) -> Option<ProtocolType> {
    if b == 0 {
        Some(ProtocolType::Gg18)
    } else if b == 1 {
        Some(ProtocolType::Elgamal)
    } else if b == 2 {
        Some(ProtocolType::Frost)
    } else if b == 3 {
        Some(ProtocolType::Musig2)
    } else {
        None
    }
}

pub proof fn lemma_tag_round_trip(t: ProtocolType)
    ensures
        spec_type_of_tag(spec_tag(t)) == Some(t),
{
}

/// Executable twin of [`spec_tag`].
pub fn tag_byte(t: ProtocolType) -> (r: u8)
    ensures
        r == spec_tag(t),
{
    match t {
        ProtocolType::Gg18 => 0,
        ProtocolType::Elgamal => 1,
        ProtocolType::Frost => 2,
        ProtocolType::Musig2 => 3,
    }
}

/// Executable twin of [`spec_type_of_tag`].
pub fn type_of_tag(b: u8) -> (r: Option<ProtocolType>)
    ensures
        r == spec_type_of_tag(b),
{
    if b == 0 {
        Some(ProtocolType::Gg18)
    } else if b == 1 {
        Some(ProtocolType::Elgamal)
    } else if b == 2 {
        Some(ProtocolType::Frost)
    } else if b == 3 {
        Some(ProtocolType::Musig2)
    } else {
        None
    }
}

/// One round's outbound payload.  Exactly one of `broadcast` and
/// `unicasts` is meant to be populated; the codec itself round-trips
/// any combination.
pub struct ClientMessage {
    pub protocol_type: ProtocolType,
    pub broadcast: Option<Vec<u8>>,
    pub unicasts: Vec<(u32, Vec<u8>)>,
}

/// Mathematical shape of a [`ClientMessage`].
pub ghost struct ClientMessageView {
    pub protocol_type: ProtocolType,
    pub broadcast: Option<Seq<u8>>,
    pub unicasts: Seq<(u32, Seq<u8>)>,
}

impl View for ClientMessage {
    type V = ClientMessageView;

    open spec fn view(&self) -> ClientMessageView {
        ClientMessageView {
            protocol_type: self.protocol_type,
            broadcast: match self.broadcast {
                Some(b) => Some(b@),
                None => None,
            },
            unicasts: entries_view(self.unicasts@),
        }
    }
}

/// The record's fields fit their length and count prefixes.
pub open spec fn client_wf(m: ClientMessageView) -> bool {
    &&& (m.broadcast matches Some(b) ==> chunk_wf(b))
    &&& entry_list_wf(m.unicasts)
}

/// Encoding of an optional byte string: a presence flag, then the
/// bytes as a chunk when present.
pub open spec fn spec_opt_chunk(b: Option<Seq<u8>>) -> Seq<u8> {
    match b {
        None => seq![0u8],
        Some(v) => seq![1u8] + spec_chunk(v),
    }
}

/// Bytes of an encoded [`ClientMessage`].
pub open spec fn spec_enc_client(m: ClientMessageView) -> Seq<u8>
    recommends
        client_wf(m),
{
    seq![spec_tag(m.protocol_type)] + spec_opt_chunk(m.broadcast) + spec_entry_list(m.unicasts)
}

/// The record a byte string stands for, if it is a whole encoded
/// [`ClientMessage`] and nothing more.
pub open spec fn spec_dec_client(s: Seq<u8>) -> Option<ClientMessageView> {
    if s.len() < 2 {
        None
    } else {
        match spec_type_of_tag(s[0]) {
            None => None,
            Some(t) => {
                let flag = s[1];
                let after_opt: Option<(Option<Seq<u8>>, int)> = if flag == 0 {
                    Some((None, 2))
                } else if flag == 1 {
                    match spec_read_chunk(s, 2) {
                        None => None,
                        Some((b, p)) => Some((Some(b), p)),
                    }
                } else {
                    None
                };
                match after_opt {
                    None => None,
                    Some((bcast, p)) => match spec_read_entry_list(s, p) {
                        None => None,
                        Some((es, q)) => if q == s.len() {
                            Some(
                                ClientMessageView {
                                    protocol_type: t,
                                    broadcast: bcast,
                                    unicasts: es,
                                },
                            )
                        } else {
                            None
                        },
                    },
                }
            },
        }
    }
}

/// Decoding an encoded [`ClientMessage`] restores it exactly.
pub proof fn lemma_client_round_trip(m: ClientMessageView)
    requires
        client_wf(m),
    ensures
        spec_dec_client(spec_enc_client(m)) == Some(m),
{
    let s = spec_enc_client(m);
    let optlen = spec_opt_chunk(m.broadcast).len() as int;
    let p = 1 + optlen;
    assert(s[0] == spec_tag(m.protocol_type));
    lemma_tag_round_trip(m.protocol_type);
    match m.broadcast {
        None => {
            assert(s[1] == 0u8);
        },
        Some(b) => {
            assert(s[1] == 1u8);
            assert(s.subrange(2, 2 + 4 + b.len() as int) =~= spec_chunk(b));
            lemma_read_chunk_of_enc(s, 2, b);
        },
    }
    assert(s.subrange(p, p + spec_entry_list(m.unicasts).len()) =~= spec_entry_list(m.unicasts));
    lemma_read_entry_list_of_enc(s, p, m.unicasts);
}

impl ClientMessage {
    /// Serializes the record into its wire bytes.
    pub fn encode_to_vec(&self) -> (r: Vec<u8>)
        requires
            client_wf(self@),
        ensures
            r@ == spec_enc_client(self@),
    {
        let mut out: Vec<u8> = Vec::new();
        out.push(tag_byte(self.protocol_type));
        match &self.broadcast {
            None => {
                out.push(0);
            },
            Some(b) => {
                out.push(1);
                push_chunk(&mut out, b);
            },
        }
        push_entry_list(&mut out, &self.unicasts);
        assert(out@ =~= spec_enc_client(self@));
        out
    }

    /// Parses wire bytes, exactly as [`spec_dec_client`] describes it.
    pub fn decode(data: &Vec<u8>) -> (r: Option<ClientMessage>)
        ensures
            r is Some <==> spec_dec_client(data@) is Some,
            r matches Some(m) ==> spec_dec_client(data@) == Some(m@),
    {
        let len: usize = data.len();
        if len < 2 {
            return None;
        }
        let t = match type_of_tag(data[0]) {
            None => {
                return None;
            },
            Some(t) => t,
        };
        let flag = data[1];
        let (bcast, p): (Option<Vec<u8>>, usize) = if flag == 0 {
            (None, 2)
        } else if flag == 1 {
            match read_chunk(data, 2) {
                None => {
                    return None;
                },
                Some((b, p)) => (Some(b), p),
            }
        } else {
            return None;
        };
        match read_entry_list(data, p) {
            None => None,
            Some((es, q)) => {
                if q == len {
                    Some(ClientMessage { protocol_type: t, broadcast: bcast, unicasts: es })
                } else {
                    None
                }
            },
        }
    }
}

/// The server-aggregated inbound payload of one round.
pub struct ServerMessage {
    pub protocol_type: ProtocolType,
    pub broadcasts: Vec<(u32, Vec<u8>)>,
    pub unicasts: Vec<(u32, Vec<u8>)>,
}

/// Mathematical shape of a [`ServerMessage`].
pub ghost struct ServerMessageView {
    pub protocol_type: ProtocolType,
    pub broadcasts: Seq<(u32, Seq<u8>)>,
    pub unicasts: Seq<(u32, Seq<u8>)>,
}

impl View for ServerMessage {
    type V = ServerMessageView;

    open spec fn view(&self) -> ServerMessageView {
        ServerMessageView {
            protocol_type: self.protocol_type,
            broadcasts: entries_view(self.broadcasts@),
            unicasts: entries_view(self.unicasts@),
        }
    }
}

/// The record's fields fit their length and count prefixes.
pub open spec fn server_wf(m: ServerMessageView) -> bool {
    &&& entry_list_wf(m.broadcasts)
    &&& entry_list_wf(m.unicasts)
}

/// Bytes of an encoded [`ServerMessage`].
pub open spec fn spec_enc_server(m: ServerMessageView) -> Seq<u8>
    recommends
        server_wf(m),
{
    seq![spec_tag(m.protocol_type)] + spec_entry_list(m.broadcasts) + spec_entry_list(m.unicasts)
}

/// The record a byte string stands for, if it is a whole encoded
/// [`ServerMessage`] and nothing more.
pub open spec fn spec_dec_server(s: Seq<u8>) -> Option<ServerMessageView> {
    if s.len() < 1 {
        None
    } else {
        match spec_type_of_tag(s[0]) {
            None => None,
            Some(t) => match spec_read_entry_list(s, 1) {
                None => None,
                Some((bs, p)) => match spec_read_entry_list(s, p) {
                    None => None,
                    Some((us, q)) => if q == s.len() {
                        Some(ServerMessageView { protocol_type: t, broadcasts: bs, unicasts: us })
                    } else {
                        None
                    },
                },
            },
        }
    }
}

/// Decoding an encoded [`ServerMessage`] restores it exactly.
pub proof fn lemma_server_round_trip(m: ServerMessageView)
    requires
        server_wf(m),
    ensures
        spec_dec_server(spec_enc_server(m)) == Some(m),
{
    let s = spec_enc_server(m);
    let blen = spec_entry_list(m.broadcasts).len() as int;
    let ulen = spec_entry_list(m.unicasts).len() as int;
    assert(s[0] == spec_tag(m.protocol_type));
    lemma_tag_round_trip(m.protocol_type);
    assert(s.subrange(1, 1 + blen) =~= spec_entry_list(m.broadcasts));
    lemma_read_entry_list_of_enc(s, 1, m.broadcasts);
    assert(s.subrange(1 + blen, 1 + blen + ulen) =~= spec_entry_list(m.unicasts));
    lemma_read_entry_list_of_enc(s, 1 + blen, m.unicasts);
}

impl ServerMessage {
    /// Serializes the record into its wire bytes.
    pub fn encode_to_vec(&self) -> (r: Vec<u8>)
        requires
            server_wf(self@),
        ensures
            r@ == spec_enc_server(self@),
    {
        let mut out: Vec<u8> = Vec::new();
        out.push(tag_byte(self.protocol_type));
        push_entry_list(&mut out, &self.broadcasts);
        push_entry_list(&mut out, &self.unicasts);
        assert(out@ =~= spec_enc_server(self@));
        out
    }

    /// Parses wire bytes, exactly as [`spec_dec_server`] describes it.
    pub fn decode(data: &Vec<u8>) -> (r: Option<ServerMessage>)
        ensures
            r is Some <==> spec_dec_server(data@) is Some,
            r matches Some(m) ==> spec_dec_server(data@) == Some(m@),
    {
        let len: usize = data.len();
        if len < 1 {
            return None;
        }
        let t = match type_of_tag(data[0]) {
            None => {
                return None;
            },
            Some(t) => t,
        };
        let (bs, p) = match read_entry_list(data, 1) {
            None => {
                return None;
            },
            Some(x) => x,
        };
        match read_entry_list(data, p) {
            None => None,
            Some((us, q)) => {
                if q == len {
                    Some(ServerMessage { protocol_type: t, broadcasts: bs, unicasts: us })
                } else {
                    None
                }
            },
        }
    }
}

/// The session-init record of a key-generation run.
#[derive(Clone, Copy, Debug, PartialEq, Eq, Structural)]
pub struct ProtocolGroupInit {
    pub protocol_type: ProtocolType,
    pub index: u32,
    pub parties: u32,
    pub threshold: u32,
}

/// Bytes of an encoded [`ProtocolGroupInit`].
pub open spec fn spec_enc_group_init(m: ProtocolGroupInit) -> Seq<u8> {
    seq![spec_tag(m.protocol_type)] + spec_u32_le(m.index) + spec_u32_le(m.parties) + spec_u32_le(
        m.threshold,
    )
}

/// The record a byte string stands for, if it is a whole encoded
/// [`ProtocolGroupInit`] and nothing more.
pub open spec fn spec_dec_group_init(s: Seq<u8>) -> Option<ProtocolGroupInit> {
    if s.len() != 13 {
        None
    } else {
        match spec_type_of_tag(s[0]) {
            None => None,
            Some(t) => Some(
                ProtocolGroupInit {
                    protocol_type: t,
                    index: spec_u32_of_le(s.subrange(1, 5)),
                    parties: spec_u32_of_le(s.subrange(5, 9)),
                    threshold: spec_u32_of_le(s.subrange(9, 13)),
                },
            ),
        }
    }
}

/// Decoding an encoded [`ProtocolGroupInit`] restores it exactly.
pub proof fn lemma_group_init_round_trip(m: ProtocolGroupInit)
    ensures
        spec_dec_group_init(spec_enc_group_init(m)) == Some(m),
{
    let s = spec_enc_group_init(m);
    assert(s[0] == spec_tag(m.protocol_type));
    lemma_tag_round_trip(m.protocol_type);
    assert(s.subrange(1, 5) =~= spec_u32_le(m.index));
    assert(s.subrange(5, 9) =~= spec_u32_le(m.parties));
    assert(s.subrange(9, 13) =~= spec_u32_le(m.threshold));
    lemma_u32_le_round_trip(m.index);
    lemma_u32_le_round_trip(m.parties);
    lemma_u32_le_round_trip(m.threshold);
}

impl ProtocolGroupInit {
    /// Serializes the record into its wire bytes.
    pub fn encode_to_vec(&self) -> (r: Vec<u8>)
        ensures
            r@ == spec_enc_group_init(*self),
    {
        let mut out: Vec<u8> = Vec::new();
        out.push(tag_byte(self.protocol_type));
        push_u32_le(&mut out, self.index);
        push_u32_le(&mut out, self.parties);
        push_u32_le(&mut out, self.threshold);
        assert(out@ =~= spec_enc_group_init(*self));
        out
    }

    /// Parses wire bytes, exactly as [`spec_dec_group_init`]
    /// describes it.
    pub fn decode(data: &Vec<u8>) -> (r: Option<ProtocolGroupInit>)
        ensures
            r == spec_dec_group_init(data@),
    {
        let len: usize = data.len();
        if len != 13 {
            return None;
        }
        let t = match type_of_tag(data[0]) {
            None => {
                return None;
            },
            Some(t) => t,
        };
        let index = read_u32_le(data, 1);
        let parties = read_u32_le(data, 5);
        let threshold = read_u32_le(data, 9);
        Some(ProtocolGroupInit { protocol_type: t, index, parties, threshold })
    }
}

/// The session-init record of a signing or decryption run.
pub struct ProtocolInit {
    pub protocol_type: ProtocolType,
    pub indices: Vec<u32>,
    pub index: u32,
    pub data: Vec<u8>,
}

/// Mathematical shape of a [`ProtocolInit`].
pub ghost struct ProtocolInitView {
    pub protocol_type: ProtocolType,
    pub indices: Seq<u32>,
    pub index: u32,
    pub data: Seq<u8>,
}

impl View for ProtocolInit {
    type V = ProtocolInitView;

    open spec fn view(&self) -> ProtocolInitView {
        ProtocolInitView {
            protocol_type: self.protocol_type,
            indices: self.indices@,
            index: self.index,
            data: self.data@,
        }
    }
}

/// The record's fields fit their length and count prefixes.
pub open spec fn init_wf(m: ProtocolInitView) -> bool {
    &&& m.indices.len() <= 0xffff_ffff
    &&& chunk_wf(m.data)
}

/// Bytes of an encoded [`ProtocolInit`].
pub open spec fn spec_enc_init(m: ProtocolInitView) -> Seq<u8>
    recommends
        init_wf(m),
{
    seq![spec_tag(m.protocol_type)] + spec_u32_le(m.index) + spec_u32_list(m.indices) + spec_chunk(
        m.data,
    )
}

/// The record a byte string stands for, if it is a whole encoded
/// [`ProtocolInit`] and nothing more.
pub open spec fn spec_dec_init(s: Seq<u8>) -> Option<ProtocolInitView> {
    if s.len() < 5 {
        None
    } else {
        match spec_type_of_tag(s[0]) {
            None => None,
            Some(t) => {
                let index = spec_u32_of_le(s.subrange(1, 5));
                match spec_read_u32_list(s, 5) {
                    None => None,
                    Some((ixs, p)) => match spec_read_chunk(s, p) {
                        None => None,
                        Some((d, q)) => if q == s.len() {
                            Some(
                                ProtocolInitView {
                                    protocol_type: t,
                                    indices: ixs,
                                    index,
                                    data: d,
                                },
                            )
                        } else {
                            None
                        },
                    },
                }
            },
        }
    }
}

/// Decoding an encoded [`ProtocolInit`] restores it exactly.
pub proof fn lemma_init_round_trip(m: ProtocolInitView)
    requires
        init_wf(m),
    ensures
        spec_dec_init(spec_enc_init(m)) == Some(m),
{
    let s = spec_enc_init(m);
    let llen = spec_u32_list(m.indices).len() as int;
    let dlen = spec_chunk(m.data).len() as int;
    assert(s[0] == spec_tag(m.protocol_type));
    lemma_tag_round_trip(m.protocol_type);
    assert(s.subrange(1, 5) =~= spec_u32_le(m.index));
    lemma_u32_le_round_trip(m.index);
    assert(s.subrange(5, 5 + llen) =~= spec_u32_list(m.indices));
    lemma_read_u32_list_of_enc(s, 5, m.indices);
    assert(s.subrange(5 + llen, 5 + llen + dlen) =~= spec_chunk(m.data));
    lemma_read_chunk_of_enc(s, 5 + llen, m.data);
}

impl ProtocolInit {
    /// Serializes the record into its wire bytes.
    pub fn encode_to_vec(&self) -> (r: Vec<u8>)
        requires
            init_wf(self@),
        ensures
            r@ == spec_enc_init(self@),
    {
        let mut out: Vec<u8> = Vec::new();
        out.push(tag_byte(self.protocol_type));
        push_u32_le(&mut out, self.index);
        push_u32_list(&mut out, &self.indices);
        push_chunk(&mut out, &self.data);
        assert(out@ =~= spec_enc_init(self@));
        out
    }

    /// Parses wire bytes, exactly as [`spec_dec_init`] describes it.
    pub fn decode(data: &Vec<u8>) -> (r: Option<ProtocolInit>)
        ensures
            r is Some <==> spec_dec_init(data@) is Some,
            r matches Some(m) ==> spec_dec_init(data@) == Some(m@),
    {
        let len: usize = data.len();
        if len < 5 {
            return None;
        }
        let t = match type_of_tag(data[0]) {
            None => {
                return None;
            },
            Some(t) => t,
        };
        let index = read_u32_le(data, 1);
        let (ixs, p) = match read_u32_list(data, 5) {
            None => {
                return None;
            },
            Some(x) => x,
        };
        match read_chunk(data, p) {
            None => None,
            Some((d, q)) => {
                if q == len {
                    Some(ProtocolInit { protocol_type: t, indices: ixs, index, data: d })
                } else {
                    None
                }
            },
        }
    }
}

/// Wraps one broadcast value in a wire envelope.
pub fn encode_raw_bcast(message: Vec<u8>, protocol_type: ProtocolType) -> (r: Vec<u8>)
    requires
        chunk_wf(message@),
    ensures
        r@ == spec_enc_client(
            ClientMessageView {
                protocol_type,
                broadcast: Some(message@),
                unicasts: Seq::empty(),
            },
        ),
{
    let m = ClientMessage { protocol_type, broadcast: Some(message), unicasts: Vec::new() };
    assert(entries_view(m.unicasts@) =~= Seq::<(u32, Seq<u8>)>::empty());
    m.encode_to_vec()
}

/// Wraps per-peer unicast values in a wire envelope.  Each value is
/// associated with the peer index its protocol uses.
pub fn encode_raw_uni(messages: Vec<(u32, Vec<u8>)>, protocol_type: ProtocolType) -> (r: Vec<u8>)
    requires
        entry_list_wf(entries_view(messages@)),
    ensures
        r@ == spec_enc_client(
            ClientMessageView {
                protocol_type,
                broadcast: None,
                unicasts: entries_view(messages@),
            },
        ),
{
    let m = ClientMessage { protocol_type, broadcast: None, unicasts: messages };
    m.encode_to_vec()
}

} // verus!
