//! The MuSig2 n-of-n Schnorr engines: key generation and signing.
//!
//! Engine state is plain bytes and small integers, so a suspended
//! engine snapshots and restores exactly.  The cryptographic round
//! functions live in outside crates and are reached only through the
//! trusted wrappers at the top of this module; every result a wrapper
//! hands back is either named (it depends on the arguments alone) or
//! left unconstrained (it depends on fresh randomness).
//!
//! Peer inputs arrive as unordered maps.  Every round first brings
//! them into normal form — ascending key order, duplicates rejected —
//! so the round's output is a function of the map contents alone, not
//! of the order its entries arrived in.

use vstd::prelude::*;

use ::musig2::secp::{MaybeScalar, Point, Scalar};
use ::musig2::{AggNonce, BinaryEncoding, CompactSignature, KeyAggContext, PubNonce, SecNonce};

use crate::bytes::{
    blobs_view, chunk_wf, entries_view, entry_list_wf, lemma_read_chunk_of_enc,
    lemma_read_entry_list_of_enc, push_chunk, push_entry_list, push_u32_le, read_chunk,
    read_entry_list, read_u32_le, spec_chunk, spec_entry_list, spec_read_chunk,
    spec_read_entry_list, spec_u32_le,
};
use crate::error::ProtocolError;
use crate::protocol::{
    entries_sorted, has_dup_keys, is_normal_of, keys_distinct, normal_of, normalize_entries,
    KeygenProtocol, Protocol, Recipient, ThresholdProtocol,
};
use crate::proto::{
    spec_dec_group_init, spec_dec_init, spec_dec_server, spec_enc_client, ClientMessageView,
    ProtocolGroupInit, ProtocolInit, ProtocolType, ServerMessage,
};

verus! {

/// The compressed public key that belongs to a 32-byte secret key.
pub uninterp spec fn pubkey_of(seckey: Seq<u8>) -> Seq<u8>;

/// The aggregate public key of an ordered list of member keys.
pub uninterp spec fn agg_pubkey_of(pubkeys: Seq<Seq<u8>>) -> Seq<u8>;

/// The public nonce that belongs to a 97-byte secret nonce.
pub uninterp spec fn pubnonce_of(secnonce: Seq<u8>) -> Seq<u8>;

/// The aggregate nonce of an ordered list of public nonces.
pub uninterp spec fn aggnonce_of(pubnonces: Seq<Seq<u8>>) -> Seq<u8>;

/// One signer's partial signature; it depends on the arguments alone.
pub uninterp spec fn partial_sig_of(
    pubkeys: Seq<Seq<u8>>,
    seckey: Seq<u8>,
    secnonce: Seq<u8>,
    aggnonce: Seq<u8>,
    message: Seq<u8>,
) -> Seq<u8>;

/// The final compact signature aggregated from the partial
/// signatures; it depends on the arguments alone.
pub uninterp spec fn final_sig_of(
    pubkeys: Seq<Seq<u8>>,
    aggnonce: Seq<u8>,
    partials: Seq<Seq<u8>>,
    message: Seq<u8>,
) -> Seq<u8>;

/// Whether key aggregation succeeds on this ordered list of member
/// keys (every key parses and the weighted sum is a point); it
/// depends on the list alone.
pub uninterp spec fn agg_keys_ok(pubkeys: Seq<Seq<u8>>) -> bool;

/// Whether every byte string of the list parses as a public nonce; it
/// depends on the list alone.
pub uninterp spec fn nonces_ok(pubnonces: Seq<Seq<u8>>) -> bool;

/// Whether a byte string parses back as a secret nonce; it depends on
/// the bytes alone.
pub uninterp spec fn secnonce_ok(secnonce: Seq<u8>) -> bool;

/// Whether partial signing succeeds on exactly these arguments; it
/// depends on them alone.
pub uninterp spec fn partial_sign_ok(
    pubkeys: Seq<Seq<u8>>,
    seckey: Seq<u8>,
    secnonce: Seq<u8>,
    aggnonce: Seq<u8>,
    message: Seq<u8>,
) -> bool;

/// Whether signature aggregation succeeds on exactly these arguments
/// (the aggregated signature self-verifies); it depends on them alone.
pub uninterp spec fn agg_sig_ok(
    pubkeys: Seq<Seq<u8>>,
    aggnonce: Seq<u8>,
    partials: Seq<Seq<u8>>,
    message: Seq<u8>,
) -> bool;

/// Relies on `secp::Scalar::from_slice` and `Scalar::base_point_mul`
/// (via the `musig2` crate): a fresh random 32-byte scalar and its
/// compressed base-point multiple.  Nothing is promised of the key's
/// value; the public half is the secret half's base-point multiple.
#[verifier::external_body]
fn keypair_gen() -> (r: Result<(Vec<u8>, Vec<u8>), ProtocolError>)
    ensures
        r matches Ok((sk, pk)) ==> sk@.len() == 32 && pk@.len() == 33 && pk@ == pubkey_of(sk@),
{
    let seed: [u8; 32] = rand::random();
    let sk = match Scalar::from_slice(&seed) {
        Ok(s) => s,
        Err(_) => return Err(ProtocolError::CryptographicFailure),
    };
    let pk = sk.base_point_mul();
    Ok((sk.serialize().to_vec(), pk.serialize().to_vec()))
}

/// Relies on `musig2::KeyAggContext::new` and
/// `KeyAggContext::aggregated_pubkey`: the aggregate key is computed
/// from the ordered member keys alone; invalid member keys are
/// rejected.  The key list must be non-empty and fit the crate's
/// 32-bit member count.  Whether aggregation succeeds is decided by
/// the ordered list alone, so success is named too.
#[verifier::external_body]
fn agg_pubkey(pubkeys: &Vec<Vec<u8>>) -> (r: Result<Vec<u8>, ProtocolError>)
    requires
        1 <= pubkeys@.len() <= 0xffff_ffff,
    ensures
        r is Ok <==> agg_keys_ok(blobs_view(pubkeys@)),
        r matches Ok(pk) ==> pk@.len() == 33 && pk@ == agg_pubkey_of(blobs_view(pubkeys@)),
{
    (|| -> Option<Vec<u8>> {
        let pts: Vec<Point> = pubkeys.iter().map(|k| Point::from_slice(k).ok()).collect::<
            Option<Vec<Point>>,
        >()?;
        let ctx = KeyAggContext::new(pts).ok()?;
        Some(ctx.aggregated_pubkey::<Point>().serialize().to_vec())
    })().ok_or(ProtocolError::CryptographicFailure)
}

/// Relies on `musig2::SecNonce::generate` and `SecNonce::serialize`:
/// the nonce is derived from a fresh random seed together with the
/// given key, aggregate key and message.  Nothing is promised of its
/// value, except that the 97 serialized bytes parse back (the crate's
/// serialization of a nonce is canonical).
#[verifier::external_body]
fn secnonce_gen(seckey: &Vec<u8>, agg_pk: &Vec<u8>, message: &Vec<u8>) -> (r: Result<
    Vec<u8>,
    ProtocolError,
>)
    ensures
        r matches Ok(sn) ==> sn@.len() == 97 && secnonce_ok(sn@),
{
    let seed: [u8; 32] = rand::random();
    (|| -> Option<Vec<u8>> {
        let sk = Scalar::from_slice(seckey).ok()?;
        let pk = Point::from_slice(agg_pk).ok()?;
        Some(SecNonce::generate(seed, sk, pk, message, &[]).serialize().to_vec())
    })().ok_or(ProtocolError::CryptographicFailure)
}

/// Relies on `musig2::SecNonce::from_bytes` and
/// `SecNonce::public_nonce`: the public nonce is a function of the
/// secret nonce alone, and parsing succeeds exactly on the bytes
/// [`secnonce_ok`] names.
#[verifier::external_body]
fn pubnonce_from(secnonce: &Vec<u8>) -> (r: Result<Vec<u8>, ProtocolError>)
    ensures
        r is Ok <==> secnonce_ok(secnonce@),
        r matches Ok(pn) ==> pn@.len() == 66 && pn@ == pubnonce_of(secnonce@),
{
    match SecNonce::from_bytes(secnonce) {
        Ok(sn) => Ok(sn.public_nonce().serialize().to_vec()),
        Err(_) => Err(ProtocolError::CryptographicFailure),
    }
}

/// Relies on `musig2::PubNonce::from_bytes` and `musig2::AggNonce::sum`:
/// the aggregate nonce is the sum of the given public nonces, a
/// function of them alone; the sum is total, so the call succeeds
/// exactly when every nonce parses.
#[verifier::external_body]
fn agg_nonces(pubnonces: &Vec<Vec<u8>>) -> (r: Result<Vec<u8>, ProtocolError>)
    ensures
        r is Ok <==> nonces_ok(blobs_view(pubnonces@)),
        r matches Ok(an) ==> an@.len() == 66 && an@ == aggnonce_of(blobs_view(pubnonces@)),
{
    (|| -> Option<Vec<u8>> {
        let ns: Vec<PubNonce> = pubnonces.iter().map(|b| PubNonce::from_bytes(b).ok()).collect::<
            Option<Vec<PubNonce>>,
        >()?;
        Some(AggNonce::sum(&ns).serialize().to_vec())
    })().ok_or(ProtocolError::CryptographicFailure)
}

/// Relies on `musig2::sign_partial` (with `KeyAggContext::new`,
/// `SecNonce::from_bytes` and `AggNonce::from_bytes` converting the
/// arguments): the partial signature is deterministic in the ordered
/// member keys, secret key, secret nonce, aggregate nonce and message;
/// inconsistent inputs are rejected.  The key list must be non-empty
/// and fit the crate's 32-bit member count.  Success is decided by
/// the same five arguments, so it is named too.
#[verifier::external_body]
fn partial_sign(
    pubkeys: &Vec<Vec<u8>>,
    seckey: &Vec<u8>,
    secnonce: &Vec<u8>,
    aggnonce: &Vec<u8>,
    message: &Vec<u8>,
) -> (r: Result<Vec<u8>, ProtocolError>)
    requires
        1 <= pubkeys@.len() <= 0xffff_ffff,
    ensures
        r is Ok <==> partial_sign_ok(blobs_view(pubkeys@), seckey@, secnonce@, aggnonce@, message@),
        r matches Ok(s) ==> s@.len() == 32 && s@ == partial_sig_of(
            blobs_view(pubkeys@),
            seckey@,
            secnonce@,
            aggnonce@,
            message@,
        ),
{
    (|| -> Option<Vec<u8>> {
        let pts: Vec<Point> = pubkeys.iter().map(|k| Point::from_slice(k).ok()).collect::<
            Option<Vec<Point>>,
        >()?;
        let ctx = KeyAggContext::new(pts).ok()?;
        let sk = Scalar::from_slice(seckey).ok()?;
        let sn = SecNonce::from_bytes(secnonce).ok()?;
        let an = AggNonce::from_bytes(aggnonce).ok()?;
        let ps: MaybeScalar = ::musig2::sign_partial(&ctx, sk, sn, &an, message).ok()?;
        Some(ps.serialize().to_vec())
    })().ok_or(ProtocolError::CryptographicFailure)
}

/// Relies on `musig2::aggregate_partial_signatures` (with
/// `KeyAggContext::new`, `AggNonce::from_bytes` and
/// `MaybeScalar::from_slice` converting the arguments): the compact
/// signature is deterministic in the ordered member keys, aggregate
/// nonce, ordered partial signatures and message; inconsistent
/// inputs are rejected.  The key list must be non-empty and fit the
/// crate's 32-bit member count.  Success is decided by the same four
/// arguments, so it is named too.
#[verifier::external_body]
fn agg_signature(
    pubkeys: &Vec<Vec<u8>>,
    aggnonce: &Vec<u8>,
    partials: &Vec<Vec<u8>>,
    message: &Vec<u8>,
) -> (r: Result<Vec<u8>, ProtocolError>)
    requires
        1 <= pubkeys@.len() <= 0xffff_ffff,
    ensures
        r is Ok <==> agg_sig_ok(blobs_view(pubkeys@), aggnonce@, blobs_view(partials@), message@),
        r matches Ok(s) ==> s@.len() == 64 && s@ == final_sig_of(
            blobs_view(pubkeys@),
            aggnonce@,
            blobs_view(partials@),
            message@,
        ),
{
    (|| -> Option<Vec<u8>> {
        let pts: Vec<Point> = pubkeys.iter().map(|k| Point::from_slice(k).ok()).collect::<
            Option<Vec<Point>>,
        >()?;
        let ps: Vec<MaybeScalar> = partials.iter().map(|b| MaybeScalar::from_slice(b).ok())
            .collect::<Option<Vec<MaybeScalar>>>()?;
        let ctx = KeyAggContext::new(pts).ok()?;
        let an = AggNonce::from_bytes(aggnonce).ok()?;
        let sig: CompactSignature = ::musig2::aggregate_partial_signatures(&ctx, &an, ps, message)
            .ok()?;
        Some(sig.serialize().to_vec())
    })().ok_or(ProtocolError::CryptographicFailure)
}

/// The participant set of one run: how many parties there are, the
/// threshold (equal to the party count for this n-of-n scheme) and
/// this participant's 1-based index.
#[derive(Clone, Copy, Debug, PartialEq, Eq, Structural)]
pub struct Setup {
    pub threshold: u32,
    pub parties: u32,
    pub index: u32,
}

/// A participant set this engine accepts: an n-of-n scheme of at most
/// 255 parties, with this participant among them.
pub open spec fn setup_wf(s: Setup) -> bool {
    &&& 1 <= s.parties <= 255
    &&& s.threshold == s.parties
    &&& 1 <= s.index <= s.parties
}

/// The terminal artifact of a key-generation run: everything a later
/// signing run needs.
pub struct MusigGroup {
    pub setup: Setup,
    /// This participant's 32-byte secret key.
    pub seckey: Vec<u8>,
    /// Every participant's 33-byte public key, keyed by party index;
    /// entry `i` belongs to party `i + 1`.
    pub pubkeys: Vec<(u32, Vec<u8>)>,
    /// The 33-byte aggregate public key of the group.
    pub agg_pubkey: Vec<u8>,
}

/// Mathematical shape of a [`MusigGroup`].
pub ghost struct MusigGroupView {
    pub setup: Setup,
    pub seckey: Seq<u8>,
    pub pubkeys: Seq<(u32, Seq<u8>)>,
    pub agg_pubkey: Seq<u8>,
}

impl View for MusigGroup {
    type V = MusigGroupView;

    open spec fn view(&self) -> MusigGroupView {
        MusigGroupView {
            setup: self.setup,
            seckey: self.seckey@,
            pubkeys: entries_view(self.pubkeys@),
            agg_pubkey: self.agg_pubkey@,
        }
    }
}

/// The member keys of a group, in party order.
pub open spec fn pk_list(pubkeys: Seq<(u32, Seq<u8>)>) -> Seq<Seq<u8>> {
    pubkeys.map_values(|e: (u32, Seq<u8>)| e.1)
}

/// Structural validity of a group context: a well-formed participant
/// set, one 33-byte key per party in party order, a 32-byte secret
/// key and a 33-byte aggregate key.
pub open spec fn group_wf(g: MusigGroupView) -> bool {
    &&& setup_wf(g.setup)
    &&& g.seckey.len() == 32
    &&& g.pubkeys.len() == g.setup.parties
    &&& forall|i: int|
        0 <= i < g.pubkeys.len() ==> (#[trigger] g.pubkeys[i]).0 == i + 1 && g.pubkeys[i].1.len()
            == 33
    &&& g.agg_pubkey.len() == 33
}

/// Bytes of an encoded group context.
pub open spec fn spec_enc_group(g: MusigGroupView) -> Seq<u8> {
    spec_u32_le(g.setup.threshold) + spec_u32_le(g.setup.parties) + spec_u32_le(g.setup.index)
        + spec_chunk(g.seckey) + spec_entry_list(g.pubkeys) + spec_chunk(g.agg_pubkey)
}

/// The group context a byte string stands for, if it is a whole
/// encoded group context and nothing more.  Validity is checked
/// separately.
pub open spec fn spec_dec_group(s: Seq<u8>) -> Option<MusigGroupView> {
    if s.len() < 12 {
        None
    } else {
        let threshold = spec_u32_of_le_at(s, 0);
        let parties = spec_u32_of_le_at(s, 4);
        let index = spec_u32_of_le_at(s, 8);
        match spec_read_chunk(s, 12) {
            None => None,
            Some((sk, p)) => match spec_read_entry_list(s, p) {
                None => None,
                Some((pks, q)) => match spec_read_chunk(s, q) {
                    None => None,
                    Some((agg, e)) => if e == s.len() {
                        Some(
                            MusigGroupView {
                                setup: Setup { threshold, parties, index },
                                seckey: sk,
                                pubkeys: pks,
                                agg_pubkey: agg,
                            },
                        )
                    } else {
                        None
                    },
                },
            },
        }
    }
}

/// The integer whose four little-endian bytes start at `pos`.
pub open spec fn spec_u32_of_le_at(s: Seq<u8>, pos: int) -> u32 {
    crate::bytes::spec_u32_of_le(s.subrange(pos, pos + 4))
}

/// Decoding an encoded group context restores it exactly.
#[verifier::rlimit(100)]
#[verifier::spinoff_prover]
pub proof fn lemma_group_round_trip(g: MusigGroupView)
    requires
        chunk_wf(g.seckey),
        entry_list_wf(g.pubkeys),
        chunk_wf(g.agg_pubkey),
    ensures
        spec_dec_group(spec_enc_group(g)) == Some(g),
{
    let s = spec_enc_group(g);
    let sklen = spec_chunk(g.seckey).len() as int;
    let pklen = spec_entry_list(g.pubkeys).len() as int;
    let agglen = spec_chunk(g.agg_pubkey).len() as int;
    assert(s.subrange(0, 4) =~= spec_u32_le(g.setup.threshold));
    assert(s.subrange(4, 8) =~= spec_u32_le(g.setup.parties));
    assert(s.subrange(8, 12) =~= spec_u32_le(g.setup.index));
    crate::bytes::lemma_u32_le_round_trip(g.setup.threshold);
    crate::bytes::lemma_u32_le_round_trip(g.setup.parties);
    crate::bytes::lemma_u32_le_round_trip(g.setup.index);
    assert(s.subrange(12, 12 + sklen) =~= spec_chunk(g.seckey));
    lemma_read_chunk_of_enc(s, 12, g.seckey);
    assert(s.subrange(12 + sklen, 12 + sklen + pklen) =~= spec_entry_list(g.pubkeys));
    lemma_read_entry_list_of_enc(s, 12 + sklen, g.pubkeys);
    assert(s.subrange(12 + sklen + pklen, 12 + sklen + pklen + agglen) =~= spec_chunk(
        g.agg_pubkey,
    ));
    lemma_read_chunk_of_enc(s, 12 + sklen + pklen, g.agg_pubkey);
}

impl MusigGroup {
    /// Serializes the group context.
    pub fn encode(&self) -> (r: Vec<u8>)
        requires
            chunk_wf(self@.seckey),
            entry_list_wf(self@.pubkeys),
            chunk_wf(self@.agg_pubkey),
        ensures
            r@ == spec_enc_group(self@),
    {
        let mut out: Vec<u8> = Vec::new();
        push_u32_le(&mut out, self.setup.threshold);
        push_u32_le(&mut out, self.setup.parties);
        push_u32_le(&mut out, self.setup.index);
        push_chunk(&mut out, &self.seckey);
        push_entry_list(&mut out, &self.pubkeys);
        push_chunk(&mut out, &self.agg_pubkey);
        assert(out@ =~= spec_enc_group(self@));
        out
    }

    /// Parses a serialized group context, exactly as
    /// [`spec_dec_group`] describes it.  Validity is checked
    /// separately by [`MusigGroup::check_wf`].
    pub fn decode(data: &Vec<u8>) -> (r: Option<MusigGroup>)
        ensures
            r is Some <==> spec_dec_group(data@) is Some,
            r matches Some(g) ==> spec_dec_group(data@) == Some(g@),
    {
        let len: usize = data.len();
        if len < 12 {
            return None;
        }
        let threshold = read_u32_le(data, 0);
        let parties = read_u32_le(data, 4);
        let index = read_u32_le(data, 8);
        let (sk, p) = match read_chunk(data, 12) {
            None => {
                return None;
            },
            Some(x) => x,
        };
        let (pks, q) = match read_entry_list(data, p) {
            None => {
                return None;
            },
            Some(x) => x,
        };
        match read_chunk(data, q) {
            None => None,
            Some((agg, e)) => {
                if e == len {
                    Some(
                        MusigGroup {
                            setup: Setup { threshold, parties, index },
                            seckey: sk,
                            pubkeys: pks,
                            agg_pubkey: agg,
                        },
                    )
                } else {
                    None
                }
            },
        }
    }

    /// Decides structural validity, exactly as [`group_wf`] describes
    /// it.
    pub fn check_wf(&self) -> (r: bool)
        ensures
            r == group_wf(self@),
    {
        if !(1 <= self.setup.parties && self.setup.parties <= 255 && self.setup.threshold
            == self.setup.parties && 1 <= self.setup.index && self.setup.index
            <= self.setup.parties) {
            return false;
        }
        if self.seckey.len() != 32 {
            return false;
        }
        if self.agg_pubkey.len() != 33 {
            return false;
        }
        let n: usize = self.pubkeys.len();
        if n != self.setup.parties as usize {
            return false;
        }
        let mut i: usize = 0;
        while i < n
            invariant
                i <= n,
                n == self.pubkeys@.len(),
                forall|t: int|
                    0 <= t < i ==> (#[trigger] entries_view(self.pubkeys@)[t]).0 == t + 1
                        && entries_view(self.pubkeys@)[t].1.len() == 33,
            decreases n - i,
        {
            if self.pubkeys[i].0 as usize != i + 1 || self.pubkeys[i].1.len() != 33 {
                assert(entries_view(self.pubkeys@)[i as int].0 == self.pubkeys@[i as int].0
                    && entries_view(self.pubkeys@)[i as int].1 == self.pubkeys@[i as int].1@);
                return false;
            }
            assert(entries_view(self.pubkeys@)[i as int].0 == self.pubkeys@[i as int].0
                && entries_view(self.pubkeys@)[i as int].1 == self.pubkeys@[i as int].1@);
            i = i + 1;
        }
        true
    }
}

/// A byte-for-byte copy of a byte vector.
pub(crate) fn clone_bytes(v: &Vec<u8>) -> (r: Vec<u8>)
    ensures
        r@ == v@,
{
    let n: usize = v.len();
    let mut r: Vec<u8> = Vec::new();
    let mut i: usize = 0;
    while i < n
        invariant
            i <= n,
            n == v@.len(),
            r@ == v@.subrange(0, i as int),
        decreases n - i,
    {
        r.push(v[i]);
        assert(v@.subrange(0, i + 1) =~= v@.subrange(0, i as int).push(v@[i as int]));
        i = i + 1;
    }
    assert(v@.subrange(0, n as int) =~= v@);
    r
}

/// Concatenation of a list of byte strings, in order.
pub open spec fn spec_concat(l: Seq<Seq<u8>>) -> Seq<u8>
    decreases l.len(),
{
    if l.len() == 0 {
        Seq::empty()
    } else {
        l[0] + spec_concat(l.drop_first())
    }
}

pub proof fn lemma_concat_snoc(l: Seq<Seq<u8>>, x: Seq<u8>)
    ensures
        spec_concat(l.push(x)) == spec_concat(l) + x,
    decreases l.len(),
{
    assert(l.push(x)[0] == if l.len() == 0 { x } else { l[0] });
    if l.len() == 0 {
        assert(l.push(x).drop_first() =~= Seq::<Seq<u8>>::empty());
        assert(spec_concat(l.push(x)) == x + spec_concat(Seq::<Seq<u8>>::empty()));
        assert(spec_concat(l.push(x)) =~= spec_concat(l) + x);
    } else {
        lemma_concat_snoc(l.drop_first(), x);
        assert(l.push(x).drop_first() =~= l.drop_first().push(x));
        assert(spec_concat(l.push(x)) == l[0] + (spec_concat(l.drop_first()) + x));
        assert(spec_concat(l.push(x)) =~= spec_concat(l) + x);
    }
}

/// Concatenates the byte strings of `l`, in order.
fn concat_blobs(l: &Vec<Vec<u8>>) -> (r: Vec<u8>)
    ensures
        r@ == spec_concat(blobs_view(l@)),
{
    let n: usize = l.len();
    let mut out: Vec<u8> = Vec::new();
    let mut i: usize = 0;
    while i < n
        invariant
            i <= n,
            n == l@.len(),
            out@ == spec_concat(blobs_view(l@).subrange(0, i as int)),
        decreases n - i,
    {
        let b = &l[i];
        let m: usize = b.len();
        let mut j: usize = 0;
        while j < m
            invariant
                j <= m,
                m == b@.len(),
                out@ == spec_concat(blobs_view(l@).subrange(0, i as int)) + b@.subrange(
                    0,
                    j as int,
                ),
            decreases m - j,
        {
            out.push(b[j]);
            assert(b@.subrange(0, j + 1) =~= b@.subrange(0, j as int).push(b@[j as int]));
            assert(out@ =~= spec_concat(blobs_view(l@).subrange(0, i as int)) + b@.subrange(
                0,
                j + 1,
            ));
            j = j + 1;
        }
        proof {
            lemma_concat_snoc(blobs_view(l@).subrange(0, i as int), b@);
            assert(b@.subrange(0, m as int) =~= b@);
            assert(blobs_view(l@).subrange(0, i + 1) =~= blobs_view(l@).subrange(0, i as int).push(
                l@[i as int]@,
            ));
        }
        i = i + 1;
    }
    assert(blobs_view(l@).subrange(0, n as int) =~= blobs_view(l@));
    assert(out@ =~= spec_concat(blobs_view(l@)) + Seq::<u8>::empty());
    out
}

/// The keyed values carried by a byte string made of fixed-size
/// pieces: each piece's last byte is the signer it belongs to, the
/// rest is the value.
pub open spec fn spec_fixed_chunks(data: Seq<u8>, k: nat) -> Seq<(u32, Seq<u8>)>
    recommends
        k >= 1,
{
    Seq::new(
        data.len() / k,
        |i: int| ((data[i * k + k - 1] as u32), data.subrange(i * k, i * k + k - 1)),
    )
}

/// Splits keyed values out of a byte string of fixed-size pieces,
/// exactly as [`spec_fixed_chunks`] describes it.
fn split_fixed(data: &Vec<u8>, k: usize) -> (r: Vec<(u32, Vec<u8>)>)
    requires
        k >= 1,
        data@.len() as int % k as int == 0,
    ensures
        entries_view(r@) == spec_fixed_chunks(data@, k as nat),
{
    let len: usize = data.len();
    let cnt: usize = len / k;
    proof {
        vstd::arithmetic::div_mod::lemma_fundamental_div_mod(len as int, k as int);
        assert(len as int == k as int * (len as int / k as int));
        assert((len as int / k as int) * (k as int) == k as int * (len as int / k as int))
            by (nonlinear_arith);
    }
    let ghost target = spec_fixed_chunks(data@, k as nat);
    let mut out: Vec<(u32, Vec<u8>)> = Vec::new();
    let mut i: usize = 0;
    while i < cnt
        invariant
            i <= cnt,
            cnt == data@.len() as int / k as int,
            k >= 1,
            cnt * k <= data@.len(),
            len == data@.len(),
            target == spec_fixed_chunks(data@, k as nat),
            entries_view(out@) =~= target.subrange(0, i as int),
        decreases cnt - i,
    {
        proof {
            assert((i + 1) * k == i * k + k) by (nonlinear_arith);
            assert(i * k + k <= cnt * k) by (nonlinear_arith)
                requires
                    i + 1 <= cnt,
                    k >= 1,
            ;
        }
        let base = i * k;
        let key = data[base + k - 1] as u32;
        let mut v: Vec<u8> = Vec::new();
        let mut j: usize = 0;
        while j < k - 1
            invariant
                j <= k - 1,
                k >= 1,
                base + k <= data@.len(),
                base == i * k,
                len == data@.len(),
                v@ == data@.subrange(base as int, base as int + j),
            decreases k - 1 - j,
        {
            v.push(data[base + j]);
            assert(data@.subrange(base as int, base as int + j + 1) =~= data@.subrange(
                base as int,
                base as int + j,
            ).push(data@[base + j]));
            j = j + 1;
        }
        let ghost oout = out@;
        out.push((key, v));
        proof {
            crate::bytes::lemma_entries_view_push(oout, (key, v));
            assert(target[i as int] == ((data@[i * k + k - 1] as u32), data@.subrange(
                i * k,
                i * k + k - 1,
            )));
            assert(v@ =~= data@.subrange(i * k, i * k + k - 1));
            assert(entries_view(out@) =~= target.subrange(0, i + 1));
        }
        i = i + 1;
    }
    proof {
        assert((cnt as int) * (k as int) >= 0);
        assert(target.subrange(0, cnt as int) =~= target);
    }
    out
}

/// Turns a list of byte strings, each carrying fixed-size pieces
/// tagged with their signer in the final byte, into keyed values.
/// Fails when the total length is not a multiple of the piece size or
/// when two pieces name the same signer.
pub fn deserialize_musig(data: Vec<Vec<u8>>, chunk_len: usize) -> (r: Result<
    Vec<(u32, Vec<u8>)>,
    ProtocolError,
>)
    requires
        chunk_len >= 1,
    ensures
        r matches Ok(m) ==> spec_concat(blobs_view(data@)).len() as int % chunk_len as int == 0
            && entries_view(m@) == spec_fixed_chunks(
            spec_concat(blobs_view(data@)),
            chunk_len as nat,
        ) && !has_dup_keys(entries_view(m@)),
        r is Err <==> spec_concat(blobs_view(data@)).len() as int % chunk_len as int != 0 || has_dup_keys(
            spec_fixed_chunks(spec_concat(blobs_view(data@)), chunk_len as nat),
        ),
        r matches Err(e) ==> e == ProtocolError::MalformedEnvelope,
{
    let cat = concat_blobs(&data);
    if cat.len() % chunk_len != 0 {
        return Err(ProtocolError::MalformedEnvelope);
    }
    let m = split_fixed(&cat, chunk_len);
    let ghost mv = entries_view(m@);
    let n: usize = m.len();
    let mut i: usize = 0;
    while i < n
        invariant
            i <= n,
            n == m@.len(),
            mv == entries_view(m@),
            mv == spec_fixed_chunks(spec_concat(blobs_view(data@)), chunk_len as nat),
            forall|a: int, b: int| 0 <= a < b < i ==> (#[trigger] mv[a]).0 != (#[trigger] mv[b]).0,
        decreases n - i,
    {
        let mut j: usize = 0;
        while j < i
            invariant
                j <= i,
                i < n,
                n == m@.len(),
                mv == entries_view(m@),
                mv == spec_fixed_chunks(spec_concat(blobs_view(data@)), chunk_len as nat),
                forall|b: int| 0 <= b < j ==> (#[trigger] mv[b]).0 != mv[i as int].0,
            decreases i - j,
        {
            proof {
                assert(mv[j as int].0 == m@[j as int].0 && mv[i as int].0 == m@[i as int].0);
            }
            if m[j].0 == m[i].0 {
                proof {
                    assert(0 <= j < i < mv.len() && mv[j as int].0 == mv[i as int].0);
                    assert(has_dup_keys(mv));
                }
                return Err(ProtocolError::MalformedEnvelope);
            }
            j = j + 1;
        }
        i = i + 1;
    }
    proof {
        if has_dup_keys(mv) {
            let (a, b) = choose|a: int, b: int| 0 <= a < b < mv.len() && mv[a].0 == mv[b].0;
            assert(false);
        }
    }
    Ok(m)
}

/// The values of a list of keyed entries, in order.
pub(crate) fn values_of_entries(l: &Vec<(u32, Vec<u8>)>) -> (r: Vec<Vec<u8>>)
    ensures
        blobs_view(r@) == pk_list(entries_view(l@)),
{
    let n: usize = l.len();
    let mut out: Vec<Vec<u8>> = Vec::new();
    let mut i: usize = 0;
    while i < n
        invariant
            i <= n,
            n == l@.len(),
            blobs_view(out@) =~= pk_list(entries_view(l@)).subrange(0, i as int),
        decreases n - i,
    {
        let ghost oout = out@;
        out.push(clone_bytes(&l[i].1));
        proof {
            crate::bytes::lemma_blobs_view_push(oout, out@.last());
            assert(out@ =~= oout.push(out@.last()));
            assert(pk_list(entries_view(l@))[i as int] == entries_view(l@)[i as int].1);
            assert(entries_view(l@)[i as int].1 == l@[i as int].1@);
            assert(blobs_view(out@) =~= pk_list(entries_view(l@)).subrange(0, i + 1));
        }
        i = i + 1;
    }
    assert(pk_list(entries_view(l@)).subrange(0, n as int) =~= pk_list(entries_view(l@)));
    out
}

/// At least one signer, one value of the given size per signer, in
/// signer order with 0-based keys.
pub open spec fn internal_entries_ok(fl: Seq<(u32, Seq<u8>)>, parties: u32, vlen: nat) -> bool {
    &&& fl.len() == parties
    &&& fl.len() >= 1
    &&& forall|i: int|
        0 <= i < fl.len() ==> (#[trigger] fl[i]).0 == i && fl[i].1.len() == vlen
}

/// Decides [`internal_entries_ok`].
fn check_internal_entries(l: &Vec<(u32, Vec<u8>)>, parties: u32, vlen: usize) -> (r: bool)
    ensures
        r == internal_entries_ok(entries_view(l@), parties, vlen as nat),
{
    let n: usize = l.len();
    let len_ok: bool = n == parties as usize && n >= 1;
    let mut elems_ok: bool = true;
    let ghost lv = entries_view(l@);
    let mut i: usize = 0;
    while i < n
        invariant
            i <= n,
            n == l@.len(),
            lv == entries_view(l@),
            elems_ok == (forall|t: int|
                0 <= t < i ==> (#[trigger] lv[t]).0 == t && lv[t].1.len() == vlen),
        decreases n - i,
    {
        proof {
            assert(lv[i as int].0 == l@[i as int].0 && lv[i as int].1 == l@[i as int].1@);
        }
        if l[i].0 as usize != i || l[i].1.len() != vlen {
            elems_ok = false;
        }
        i = i + 1;
    }
    len_ok && elems_ok
}

/// Round state of the key-generation engine.
pub enum KeygenRound {
    /// Waiting for the session-init record.
    R0,
    /// Key pair generated and broadcast; waiting for the peers' keys.
    R1 { setup: Setup, seckey: Vec<u8>, pubkey: Vec<u8> },
    /// Terminal: the group context is complete.
    Done { group: MusigGroup },
    /// Poisoned: a fatal error was observed and is repeated forever.
    Failed { err: ProtocolError },
}

/// One participant's key-generation engine.
pub struct KeygenContext {
    pub round: KeygenRound,
    pub with_card: bool,
}

/// Validation of a key-generation session-init record: the declared
/// kind must be this engine's kind, and the participant set must be a
/// well-formed n-of-n set.
pub open spec fn keygen_init_check(init: ProtocolGroupInit) -> Option<ProtocolError> {
    if init.protocol_type != ProtocolType::Musig2 {
        Some(ProtocolError::WrongProtocol)
    } else if !setup_wf(
        Setup { threshold: init.threshold, parties: init.parties, index: init.index },
    ) {
        Some(ProtocolError::WrongSessionShape)
    } else {
        None
    }
}

/// At least one party, and one 33-byte key per party, in party order.
pub open spec fn keygen_entries_ok(fl: Seq<(u32, Seq<u8>)>, parties: u32) -> bool {
    &&& fl.len() == parties
    &&& fl.len() >= 1
    &&& forall|i: int|
        0 <= i < fl.len() ==> (#[trigger] fl[i]).0 == i + 1 && fl[i].1.len() == 33
}

/// A broadcast-only outbound envelope of this protocol.
pub open spec fn musig_bcast(payload: Seq<u8>) -> Seq<u8> {
    spec_enc_client(
        ClientMessageView {
            protocol_type: ProtocolType::Musig2,
            broadcast: Some(payload),
            unicasts: Seq::empty(),
        },
    )
}

/// What one `init` call on a fresh key-generation engine does.
pub open spec fn keygen_r0_post(
    post: KeygenContext,
    data: Seq<u8>,
    r: Result<(Vec<u8>, Recipient), ProtocolError>,
) -> bool {
    match spec_dec_group_init(data) {
        None => r == Err::<(Vec<u8>, Recipient), ProtocolError>(ProtocolError::MalformedEnvelope)
            && post.round matches KeygenRound::Failed { err: ProtocolError::MalformedEnvelope },
        Some(init) => match keygen_init_check(init) {
            Some(e) => r == Err::<(Vec<u8>, Recipient), ProtocolError>(e) && (
            post.round matches KeygenRound::Failed { err } && err == e),
            None => match r {
                Ok((out, rec)) => {
                    &&& rec == Recipient::Server
                    &&& post.round matches KeygenRound::R1 { setup, seckey, pubkey }
                    &&& post.round matches KeygenRound::R1 { setup, seckey, pubkey } ==> {
                        &&& setup == Setup {
                            threshold: init.threshold,
                            parties: init.parties,
                            index: init.index,
                        }
                        &&& seckey@.len() == 32
                        &&& pubkey@ == pubkey_of(seckey@)
                        &&& pubkey@.len() == 33
                        &&& out@ == musig_bcast(pubkey@)
                    }
                },
                Err(e) => e == ProtocolError::CryptographicFailure && (
                post.round matches KeygenRound::Failed { err } && err
                    == ProtocolError::CryptographicFailure),
            },
        },
    }
}

/// What one `update` call does to an engine that waits for the peers'
/// public keys.  The peers' broadcasts, together with this
/// participant's own key, must form exactly one key per party.
pub open spec fn keygen_r1_post(
    setup: Setup,
    seckey: Seq<u8>,
    pubkey: Seq<u8>,
    post: KeygenContext,
    data: Seq<u8>,
    r: Result<(Vec<u8>, Recipient), ProtocolError>,
) -> bool {
    match spec_dec_server(data) {
        None => r == Err::<(Vec<u8>, Recipient), ProtocolError>(ProtocolError::MalformedEnvelope)
            && post.round matches KeygenRound::Failed { err: ProtocolError::MalformedEnvelope },
        Some(sm) => if sm.protocol_type != ProtocolType::Musig2 {
            r == Err::<(Vec<u8>, Recipient), ProtocolError>(ProtocolError::WrongProtocol)
                && post.round matches KeygenRound::Failed { err: ProtocolError::WrongProtocol }
        } else {
            let combined = sm.broadcasts.push((setup.index, pubkey));
            if has_dup_keys(combined) || !keygen_entries_ok(normal_of(combined), setup.parties) {
                r == Err::<(Vec<u8>, Recipient), ProtocolError>(ProtocolError::MalformedEnvelope)
                    && post.round matches KeygenRound::Failed {
                    err: ProtocolError::MalformedEnvelope,
                }
            } else {
                let fl = normal_of(combined);
                if !agg_keys_ok(pk_list(fl)) {
                    r == Err::<(Vec<u8>, Recipient), ProtocolError>(
                        ProtocolError::CryptographicFailure,
                    ) && post.round matches KeygenRound::Failed {
                        err: ProtocolError::CryptographicFailure,
                    }
                } else {
                    &&& r matches Ok((out, rec))
                    &&& r matches Ok((out, rec)) ==> {
                        &&& rec == Recipient::Server
                        &&& post.round matches KeygenRound::Done { group }
                        &&& post.round matches KeygenRound::Done { group } ==> {
                            &&& group@.setup == setup
                            &&& group@.seckey == seckey
                            &&& group@.pubkeys == fl
                            &&& group@.agg_pubkey == agg_pubkey_of(pk_list(fl))
                            &&& (setup_wf(setup) && seckey.len() == 32 ==> group_wf(group@))
                            &&& out@ == musig_bcast(group@.agg_pubkey)
                        }
                    }
                }
            }
        },
    }
}

impl KeygenContext {
    /// A fresh engine whose signing power stays on this device.
    pub fn new() -> (r: Self)
        ensures
            r.round is R0,
            !r.with_card,
    {
        KeygenContext { round: KeygenRound::R0, with_card: false }
    }

    /// A fresh engine whose share is delegated to a smartcard.
    pub fn with_card() -> (r: Self)
        ensures
            r.round is R0,
            r.with_card,
    {
        KeygenContext { round: KeygenRound::R0, with_card: true }
    }

    /// Consumes the session-init record and broadcasts this
    /// participant's fresh public key.
    fn init(&mut self, data: &Vec<u8>) -> (r: Result<(Vec<u8>, Recipient), ProtocolError>)
        requires
            old(self).round is R0,
        ensures
            final(self).with_card == old(self).with_card,
            keygen_r0_post(*final(self), data@, r),
    {
        let init = match ProtocolGroupInit::decode(data) {
            None => {
                self.round = KeygenRound::Failed { err: ProtocolError::MalformedEnvelope };
                return Err(ProtocolError::MalformedEnvelope);
            },
            Some(m) => m,
        };
        if init.protocol_type != ProtocolType::Musig2 {
            self.round = KeygenRound::Failed { err: ProtocolError::WrongProtocol };
            return Err(ProtocolError::WrongProtocol);
        }
        if !(1 <= init.parties && init.parties <= 255 && init.threshold == init.parties && 1
            <= init.index && init.index <= init.parties) {
            self.round = KeygenRound::Failed { err: ProtocolError::WrongSessionShape };
            return Err(ProtocolError::WrongSessionShape);
        }
        let (seckey, pubkey) = match keypair_gen() {
            Err(_) => {
                self.round = KeygenRound::Failed { err: ProtocolError::CryptographicFailure };
                return Err(ProtocolError::CryptographicFailure);
            },
            Ok(kp) => kp,
        };
        let out = crate::proto::encode_raw_bcast(clone_bytes(&pubkey), ProtocolType::Musig2);
        let setup = Setup { threshold: init.threshold, parties: init.parties, index: init.index };
        self.round = KeygenRound::R1 { setup, seckey, pubkey };
        Ok((out, Recipient::Server))
    }

    /// Consumes the peers' broadcast keys and broadcasts the aggregate
    /// public key of the finished group.
    fn update(&mut self, data: &Vec<u8>) -> (r: Result<(Vec<u8>, Recipient), ProtocolError>)
        requires
            !(old(self).round is R0),
        ensures
            final(self).with_card == old(self).with_card,
            old(self).round is Done ==> *final(self) == *old(self) && r == Err::<
                (Vec<u8>, Recipient),
                ProtocolError,
            >(ProtocolError::OutOfSequence),
            old(self).round matches KeygenRound::Failed { err } ==> *final(self) == *old(self)
                && r == Err::<(Vec<u8>, Recipient), ProtocolError>(err),
            old(self).round matches KeygenRound::R1 { setup, seckey, pubkey } ==> keygen_r1_post(
                setup,
                seckey@,
                pubkey@,
                *final(self),
                data@,
                r,
            ),
    {
        let mut cur = KeygenRound::R0;
        core::mem::swap(&mut self.round, &mut cur);
        match cur {
            KeygenRound::R0 => {
                // excluded by the caller
                self.round = KeygenRound::R0;
                assert(false);
                Err(ProtocolError::OutOfSequence)
            },
            KeygenRound::Done { group } => {
                self.round = KeygenRound::Done { group };
                assert(*self == *old(self));
                Err(ProtocolError::OutOfSequence)
            },
            KeygenRound::Failed { err } => {
                self.round = KeygenRound::Failed { err };
                assert(*self == *old(self));
                Err(err)
            },
            KeygenRound::R1 { setup, seckey, pubkey } => {
                let sm = match ServerMessage::decode(data) {
                    None => {
                        self.round = KeygenRound::Failed {
                            err: ProtocolError::MalformedEnvelope,
                        };
                        return Err(ProtocolError::MalformedEnvelope);
                    },
                    Some(m) => m,
                };
                if sm.protocol_type != ProtocolType::Musig2 {
                    self.round = KeygenRound::Failed { err: ProtocolError::WrongProtocol };
                    return Err(ProtocolError::WrongProtocol);
                }
                let ghost smv = sm@;
                let mut entries = sm.broadcasts;
                let ghost bcasts = entries_view(entries@);
                entries.push((setup.index, clone_bytes(&pubkey)));
                let ghost combined = smv.broadcasts.push((setup.index, pubkey@));
                proof {
                    assert(entries_view(entries@) =~= combined);
                }
                let fl_vec = match normalize_entries(entries) {
                    Err(e) => {
                        self.round = KeygenRound::Failed { err: e };
                        return Err(e);
                    },
                    Ok(v) => v,
                };
                let ghost fl = entries_view(fl_vec@);
                proof {
                    crate::protocol::lemma_normal_of_eq(fl, combined);
                }
                // at least one party, one 33-byte key per party
                let n: usize = fl_vec.len();
                let len_ok: bool = n == setup.parties as usize && n >= 1;
                let mut elems_ok: bool = true;
                let mut i: usize = 0;
                while i < n
                    invariant
                        i <= n,
                        n == fl_vec@.len(),
                        fl == entries_view(fl_vec@),
                        elems_ok == (forall|t: int|
                            0 <= t < i ==> (#[trigger] fl[t]).0 == t + 1 && fl[t].1.len() == 33),
                    decreases n - i,
                {
                    proof {
                        assert(fl[i as int].0 == fl_vec@[i as int].0 && fl[i as int].1
                            == fl_vec@[i as int].1@);
                    }
                    if fl_vec[i].0 as usize != i + 1 || fl_vec[i].1.len() != 33 {
                        elems_ok = false;
                    }
                    i = i + 1;
                }
                if !(len_ok && elems_ok) {
                    assert(!keygen_entries_ok(fl, setup.parties));
                    self.round = KeygenRound::Failed { err: ProtocolError::MalformedEnvelope };
                    return Err(ProtocolError::MalformedEnvelope);
                }
                assert(keygen_entries_ok(fl, setup.parties));
                // aggregate the ordered member keys
                let mut pks: Vec<Vec<u8>> = Vec::new();
                let mut j: usize = 0;
                while j < n
                    invariant
                        j <= n,
                        n == fl_vec@.len(),
                        fl == entries_view(fl_vec@),
                        blobs_view(pks@) == pk_list(fl).subrange(0, j as int),
                    decreases n - j,
                {
                    let ghost opks = pks@;
                    pks.push(clone_bytes(&fl_vec[j].1));
                    proof {
                        crate::bytes::lemma_blobs_view_push(opks, pks@.last());
                        assert(pks@ =~= opks.push(pks@.last()));
                        assert(pk_list(fl)[j as int] == fl[j as int].1);
                        assert(fl[j as int].1 == fl_vec@[j as int].1@);
                        assert(blobs_view(pks@) =~= pk_list(fl).subrange(0, j + 1));
                    }
                    j = j + 1;
                }
                proof {
                    assert(pk_list(fl).subrange(0, n as int) =~= pk_list(fl));
                }
                let agg = match agg_pubkey(&pks) {
                    Err(_) => {
                        self.round = KeygenRound::Failed {
                            err: ProtocolError::CryptographicFailure,
                        };
                        return Err(ProtocolError::CryptographicFailure);
                    },
                    Ok(a) => a,
                };
                let out = crate::proto::encode_raw_bcast(clone_bytes(&agg), ProtocolType::Musig2);
                let group = MusigGroup { setup, seckey, pubkeys: fl_vec, agg_pubkey: agg };
                self.round = KeygenRound::Done { group };
                Ok((out, Recipient::Server))
            },
        }
    }
}

/// What one `advance` call does, whichever round the engine is in.
pub open spec fn keygen_advance_post(
    pre: KeygenContext,
    post: KeygenContext,
    data: Seq<u8>,
    r: Result<(Vec<u8>, Recipient), ProtocolError>,
) -> bool {
    &&& post.with_card == pre.with_card
    &&& match pre.round {
        KeygenRound::R0 => keygen_r0_post(post, data, r),
        KeygenRound::R1 { setup, seckey, pubkey } => keygen_r1_post(
            setup,
            seckey@,
            pubkey@,
            post,
            data,
            r,
        ),
        KeygenRound::Done { .. } => post == pre && r == Err::<(Vec<u8>, Recipient), ProtocolError>(
            ProtocolError::OutOfSequence,
        ),
        KeygenRound::Failed { err } => post == pre && r == Err::<
            (Vec<u8>, Recipient),
            ProtocolError,
        >(err),
    }
}

impl KeygenContext {
    /// Consumes one inbound round payload: the session-init record in
    /// the initial round, the peers' keys afterwards.
    pub fn advance(&mut self, data: &Vec<u8>) -> (r: Result<
        (Vec<u8>, Recipient),
        ProtocolError,
    >)
        ensures
            keygen_advance_post(*old(self), *final(self), data@, r),
    {
        if matches!(self.round, KeygenRound::R0) {
            self.init(data)
        } else {
            self.update(data)
        }
    }
}

impl Protocol for KeygenContext {
    /// The serialized group context, once the terminal round is
    /// reached with a valid group.
    open spec fn artifact(&self) -> Option<Seq<u8>> {
        match self.round {
            KeygenRound::Done { group } => if group_wf(group@) {
                Some(spec_enc_group(group@))
            } else {
                None
            },
            _ => None,
        }
    }

    open spec fn poisoned(&self) -> Option<ProtocolError> {
        match self.round {
            KeygenRound::Failed { err } => Some(err),
            _ => None,
        }
    }

    fn advance(&mut self, data: &Vec<u8>) -> (r: Result<(Vec<u8>, Recipient), ProtocolError>) {
        self.advance(data)
    }

    fn finish(self) -> (r: Result<Vec<u8>, ProtocolError>) {
        match self.round {
            KeygenRound::Done { group } => {
                if group.check_wf() {
                    proof {
                        assert(forall|i: int|
                            0 <= i < group@.pubkeys.len() ==> chunk_wf(
                                (#[trigger] group@.pubkeys[i]).1,
                            ));
                    }
                    Ok(group.encode())
                } else {
                    // only a hand-built engine can carry an invalid
                    // terminal group; it cannot be finished
                    Err(ProtocolError::OutOfSequence)
                }
            },
            KeygenRound::Failed { err } => Err(err),
            _ => Err(ProtocolError::OutOfSequence),
        }
    }
}

impl KeygenProtocol for KeygenContext {
    fn new() -> (r: Self) {
        KeygenContext::new()
    }
}

/// Round state of the signing engine.
pub enum SignRound {
    /// Waiting for the session-init record.
    R0,
    /// Nonce generated and broadcast; waiting for the peers' nonces.
    R1 { secnonce: Vec<u8>, pubnonce: Vec<u8> },
    /// Partial signature broadcast; waiting for the peers' partials.
    R2 { aggnonce: Vec<u8>, partial: Vec<u8> },
    /// Terminal: the compact signature is complete.
    Done { sig: Vec<u8> },
    /// Poisoned: a fatal error was observed and is repeated forever.
    Failed { err: ProtocolError },
}

/// One participant's signing engine, created from the group context a
/// key-generation run produced.
pub struct SignContext {
    pub group: MusigGroup,
    pub message: Option<Vec<u8>>,
    pub indices: Option<Vec<u32>>,
    pub round: SignRound,
}

/// A participant list seen as keyed entries with empty values, so the
/// one normalization argument serves it too.
pub open spec fn ix_entries(ixs: Seq<u32>) -> Seq<(u32, Seq<u8>)> {
    ixs.map_values(|x: u32| (x, Seq::<u8>::empty()))
}

/// The participant list names every party exactly once.
pub open spec fn sign_indices_ok(ixs: Seq<u32>, parties: u32) -> bool {
    &&& !has_dup_keys(ix_entries(ixs))
    &&& {
        let fl = normal_of(ix_entries(ixs));
        &&& fl.len() == parties
        &&& fl.len() >= 1
        &&& forall|i: int| 0 <= i < fl.len() ==> (#[trigger] fl[i]).0 == i + 1
    }
}

/// What one `init` call on a fresh signing engine does.
pub open spec fn sign_r0_post(
    group: MusigGroupView,
    post: SignContext,
    data: Seq<u8>,
    r: Result<(Vec<u8>, Recipient), ProtocolError>,
) -> bool {
    if !group_wf(group) {
        r == Err::<(Vec<u8>, Recipient), ProtocolError>(ProtocolError::CodecInternal)
            && post.round matches SignRound::Failed { err: ProtocolError::CodecInternal }
    } else {
        match spec_dec_init(data) {
            None => r == Err::<(Vec<u8>, Recipient), ProtocolError>(
                ProtocolError::MalformedEnvelope,
            ) && post.round matches SignRound::Failed { err: ProtocolError::MalformedEnvelope },
            Some(init) => if init.protocol_type != ProtocolType::Musig2 {
                r == Err::<(Vec<u8>, Recipient), ProtocolError>(ProtocolError::WrongProtocol)
                    && post.round matches SignRound::Failed { err: ProtocolError::WrongProtocol }
            } else if !sign_indices_ok(init.indices, group.setup.parties) || init.index
                != group.setup.index {
                r == Err::<(Vec<u8>, Recipient), ProtocolError>(ProtocolError::WrongSessionShape)
                    && post.round matches SignRound::Failed {
                    err: ProtocolError::WrongSessionShape,
                }
            } else {
                match r {
                    Ok((out, rec)) => {
                        &&& rec == Recipient::Server
                        &&& post.group@ == group
                        &&& post.message matches Some(m) && m@ == init.data
                        &&& post.indices matches Some(v) && v@ == init.indices
                        &&& post.round matches SignRound::R1 { secnonce, pubnonce }
                        &&& post.round matches SignRound::R1 { secnonce, pubnonce } ==> {
                            &&& secnonce@.len() == 97
                            &&& pubnonce@ == pubnonce_of(secnonce@)
                            &&& pubnonce@.len() == 66
                            &&& out@ == musig_bcast(
                                pubnonce@ + seq![((group.setup.index - 1) as u8)],
                            )
                        }
                    },
                    Err(e) => e == ProtocolError::CryptographicFailure && (
                    post.round matches SignRound::Failed { err } && err
                        == ProtocolError::CryptographicFailure),
                }
            },
        }
    }
}

/// The keyed values one signing round gathers from the peers'
/// broadcasts together with this participant's own contribution:
/// the peers' payloads in peer order, split into fixed-size pieces,
/// with `own` added under this participant's 0-based signer key.
pub open spec fn gathered(
    bcasts: Seq<(u32, Seq<u8>)>,
    piece: nat,
    own_key: u32,
    own: Seq<u8>,
) -> Seq<(u32, Seq<u8>)> {
    spec_fixed_chunks(spec_concat(pk_list(normal_of(bcasts))), piece).push((own_key, own))
}

/// Whether one signing round's gathering fails: a duplicated peer
/// key, a payload that does not split evenly, or a duplicated or
/// missing signer among the pieces.
pub open spec fn gather_fails(
    bcasts: Seq<(u32, Seq<u8>)>,
    piece: nat,
    own_key: u32,
    own: Seq<u8>,
    parties: u32,
    vlen: nat,
) -> bool {
    ||| has_dup_keys(bcasts)
    ||| spec_concat(pk_list(normal_of(bcasts))).len() as int % piece as int != 0
    ||| has_dup_keys(spec_fixed_chunks(spec_concat(pk_list(normal_of(bcasts))), piece))
    ||| has_dup_keys(gathered(bcasts, piece, own_key, own))
    ||| !internal_entries_ok(normal_of(gathered(bcasts, piece, own_key, own)), parties, vlen)
}

/// What one `update` call does to a signing engine that waits for the
/// peers' public nonces.
pub open spec fn sign_r1_post(
    group: MusigGroupView,
    message: Option<Vec<u8>>,
    secnonce: Seq<u8>,
    pubnonce: Seq<u8>,
    pre: SignContext,
    post: SignContext,
    data: Seq<u8>,
    r: Result<(Vec<u8>, Recipient), ProtocolError>,
) -> bool {
    if !group_wf(group) {
        r == Err::<(Vec<u8>, Recipient), ProtocolError>(ProtocolError::CodecInternal)
            && post.round matches SignRound::Failed { err: ProtocolError::CodecInternal }
    } else if message is None {
        r == Err::<(Vec<u8>, Recipient), ProtocolError>(ProtocolError::OutOfSequence) && post
            == pre
    } else {
        let msg = message->Some_0@;
        let own_key = (group.setup.index - 1) as u32;
        match spec_dec_server(data) {
            None => r == Err::<(Vec<u8>, Recipient), ProtocolError>(
                ProtocolError::MalformedEnvelope,
            ) && post.round matches SignRound::Failed { err: ProtocolError::MalformedEnvelope },
            Some(sm) => if sm.protocol_type != ProtocolType::Musig2 {
                r == Err::<(Vec<u8>, Recipient), ProtocolError>(ProtocolError::WrongProtocol)
                    && post.round matches SignRound::Failed { err: ProtocolError::WrongProtocol }
            } else if gather_fails(sm.broadcasts, 67, own_key, pubnonce, group.setup.parties, 66) {
                r == Err::<(Vec<u8>, Recipient), ProtocolError>(ProtocolError::MalformedEnvelope)
                    && post.round matches SignRound::Failed {
                    err: ProtocolError::MalformedEnvelope,
                }
            } else {
                let ns = normal_of(gathered(sm.broadcasts, 67, own_key, pubnonce));
                let an = aggnonce_of(pk_list(ns));
                if !nonces_ok(pk_list(ns)) || !partial_sign_ok(
                    pk_list(group.pubkeys),
                    group.seckey,
                    secnonce,
                    an,
                    msg,
                ) {
                    r == Err::<(Vec<u8>, Recipient), ProtocolError>(
                        ProtocolError::CryptographicFailure,
                    ) && post.round matches SignRound::Failed {
                        err: ProtocolError::CryptographicFailure,
                    }
                } else {
                    &&& r matches Ok((out, rec))
                    &&& r matches Ok((out, rec)) ==> {
                        &&& rec == Recipient::Server
                        &&& post.group == pre.group
                        &&& post.message == pre.message
                        &&& post.indices == pre.indices
                        &&& post.round matches SignRound::R2 { aggnonce, partial }
                        &&& post.round matches SignRound::R2 { aggnonce, partial } ==> {
                            &&& aggnonce@ == an
                            &&& aggnonce@.len() == 66
                            &&& partial@.len() == 32
                            &&& partial@ == partial_sig_of(
                                pk_list(group.pubkeys),
                                group.seckey,
                                secnonce,
                                an,
                                msg,
                            )
                            &&& out@ == musig_bcast(partial@ + seq![((group.setup.index - 1) as u8)])
                        }
                    }
                }
            },
        }
    }
}

/// What one `update` call does to a signing engine that waits for the
/// peers' partial signatures.
pub open spec fn sign_r2_post(
    group: MusigGroupView,
    message: Option<Vec<u8>>,
    aggnonce: Seq<u8>,
    partial: Seq<u8>,
    pre: SignContext,
    post: SignContext,
    data: Seq<u8>,
    r: Result<(Vec<u8>, Recipient), ProtocolError>,
) -> bool {
    if !group_wf(group) {
        r == Err::<(Vec<u8>, Recipient), ProtocolError>(ProtocolError::CodecInternal)
            && post.round matches SignRound::Failed { err: ProtocolError::CodecInternal }
    } else if message is None {
        r == Err::<(Vec<u8>, Recipient), ProtocolError>(ProtocolError::OutOfSequence) && post
            == pre
    } else {
        let msg = message->Some_0@;
        let own_key = (group.setup.index - 1) as u32;
        match spec_dec_server(data) {
            None => r == Err::<(Vec<u8>, Recipient), ProtocolError>(
                ProtocolError::MalformedEnvelope,
            ) && post.round matches SignRound::Failed { err: ProtocolError::MalformedEnvelope },
            Some(sm) => if sm.protocol_type != ProtocolType::Musig2 {
                r == Err::<(Vec<u8>, Recipient), ProtocolError>(ProtocolError::WrongProtocol)
                    && post.round matches SignRound::Failed { err: ProtocolError::WrongProtocol }
            } else if gather_fails(sm.broadcasts, 33, own_key, partial, group.setup.parties, 32) {
                r == Err::<(Vec<u8>, Recipient), ProtocolError>(ProtocolError::MalformedEnvelope)
                    && post.round matches SignRound::Failed {
                    err: ProtocolError::MalformedEnvelope,
                }
            } else {
                let ns = normal_of(gathered(sm.broadcasts, 33, own_key, partial));
                if !agg_sig_ok(pk_list(group.pubkeys), aggnonce, pk_list(ns), msg) {
                    r == Err::<(Vec<u8>, Recipient), ProtocolError>(
                        ProtocolError::CryptographicFailure,
                    ) && post.round matches SignRound::Failed {
                        err: ProtocolError::CryptographicFailure,
                    }
                } else {
                    &&& r matches Ok((out, rec))
                    &&& r matches Ok((out, rec)) ==> {
                        &&& rec == Recipient::Server
                        &&& post.group == pre.group
                        &&& post.message == pre.message
                        &&& post.indices == pre.indices
                        &&& post.round matches SignRound::Done { sig }
                        &&& post.round matches SignRound::Done { sig } ==> {
                            &&& sig@ == final_sig_of(
                                pk_list(group.pubkeys),
                                aggnonce,
                                pk_list(ns),
                                msg,
                            )
                            &&& sig@.len() == 64
                            &&& out@ == musig_bcast(sig@)
                        }
                    }
                }
            },
        }
    }
}

impl SignContext {
    /// Builds a signing engine from a serialized group context,
    /// rejecting bytes that do not decode to a valid group.
    pub fn new(group: &Vec<u8>) -> (r: Result<SignContext, ProtocolError>)
        ensures
            r matches Ok(c) ==> spec_dec_group(group@) == Some(c.group@) && group_wf(c.group@)
                && c.round is R0 && c.message is None && c.indices is None,
            r is Err <==> !(spec_dec_group(group@) matches Some(g) && group_wf(g)),
            r matches Err(e) ==> e == ProtocolError::CodecInternal,
    {
        let g = match MusigGroup::decode(group) {
            None => {
                return Err(ProtocolError::CodecInternal);
            },
            Some(g) => g,
        };
        if !g.check_wf() {
            return Err(ProtocolError::CodecInternal);
        }
        Ok(SignContext { group: g, message: None, indices: None, round: SignRound::R0 })
    }

    /// Consumes the session-init record, validates the participant
    /// list and broadcasts this participant's public nonce tagged
    /// with its 0-based signer number.
    fn init(&mut self, data: &Vec<u8>) -> (r: Result<(Vec<u8>, Recipient), ProtocolError>)
        requires
            old(self).round is R0,
        ensures
            sign_r0_post(old(self).group@, *final(self), data@, r),
    {
        if !self.group.check_wf() {
            self.round = SignRound::Failed { err: ProtocolError::CodecInternal };
            return Err(ProtocolError::CodecInternal);
        }
        let init = match ProtocolInit::decode(data) {
            None => {
                self.round = SignRound::Failed { err: ProtocolError::MalformedEnvelope };
                return Err(ProtocolError::MalformedEnvelope);
            },
            Some(m) => m,
        };
        if init.protocol_type != ProtocolType::Musig2 {
            self.round = SignRound::Failed { err: ProtocolError::WrongProtocol };
            return Err(ProtocolError::WrongProtocol);
        }
        // the participant list must name every party exactly once,
        // and the record must address this share
        let nix: usize = init.indices.len();
        let mut ixe: Vec<(u32, Vec<u8>)> = Vec::new();
        let mut t: usize = 0;
        while t < nix
            invariant
                t <= nix,
                nix == init.indices@.len(),
                entries_view(ixe@) =~= ix_entries(init.indices@).subrange(0, t as int),
            decreases nix - t,
        {
            let ghost oixe = ixe@;
            ixe.push((init.indices[t], Vec::new()));
            proof {
                crate::bytes::lemma_entries_view_push(oixe, ixe@.last());
                assert(ixe@ =~= oixe.push(ixe@.last()));
                assert(ixe@.last().1@ =~= Seq::<u8>::empty());
                assert(ix_entries(init.indices@)[t as int] == (
                    init.indices@[t as int],
                    Seq::<u8>::empty(),
                ));
                assert(entries_view(ixe@) =~= ix_entries(init.indices@).subrange(0, t + 1));
            }
            t = t + 1;
        }
        proof {
            assert(ix_entries(init.indices@).subrange(0, nix as int) =~= ix_entries(
                init.indices@,
            ));
        }
        let shape_ok: bool;
        match normalize_entries(ixe) {
            Err(_) => {
                shape_ok = false;
                proof {
                    assert(!sign_indices_ok(init.indices@, self.group.setup.parties));
                }
            },
            Ok(fl) => {
                proof {
                    crate::protocol::lemma_normal_of_eq(
                        entries_view(fl@),
                        ix_entries(init.indices@),
                    );
                }
                let ghost flv = entries_view(fl@);
                let m: usize = fl.len();
                let len_ok: bool = m == self.group.setup.parties as usize && m >= 1;
                let mut elems_ok: bool = true;
                let mut u: usize = 0;
                while u < m
                    invariant
                        u <= m,
                        m == fl@.len(),
                        flv == entries_view(fl@),
                        elems_ok == (forall|w: int| 0 <= w < u ==> (#[trigger] flv[w]).0 == w + 1),
                    decreases m - u,
                {
                    proof {
                        assert(flv[u as int].0 == fl@[u as int].0);
                    }
                    if fl[u].0 as usize != u + 1 {
                        elems_ok = false;
                    }
                    u = u + 1;
                }
                shape_ok = len_ok && elems_ok;
                proof {
                    assert(shape_ok == sign_indices_ok(init.indices@, self.group.setup.parties));
                }
            },
        }
        if !shape_ok || init.index != self.group.setup.index {
            self.round = SignRound::Failed { err: ProtocolError::WrongSessionShape };
            return Err(ProtocolError::WrongSessionShape);
        }
        // fresh nonce, bound to this key, group and message
        let secnonce = match secnonce_gen(&self.group.seckey, &self.group.agg_pubkey, &init.data) {
            Err(_) => {
                self.round = SignRound::Failed { err: ProtocolError::CryptographicFailure };
                return Err(ProtocolError::CryptographicFailure);
            },
            Ok(sn) => sn,
        };
        let pubnonce = match pubnonce_from(&secnonce) {
            Err(_) => {
                self.round = SignRound::Failed { err: ProtocolError::CryptographicFailure };
                return Err(ProtocolError::CryptographicFailure);
            },
            Ok(pn) => pn,
        };
        let p: u8 = (self.group.setup.index - 1) as u8;
        let mut buf = clone_bytes(&pubnonce);
        buf.push(p);
        assert(buf@ =~= pubnonce@ + seq![p]);
        let out = crate::proto::encode_raw_bcast(buf, ProtocolType::Musig2);
        self.message = Some(init.data);
        self.indices = Some(init.indices);
        self.round = SignRound::R1 { secnonce, pubnonce };
        Ok((out, Recipient::Server))
    }

    /// Consumes one aggregated peer round: nonces while in the first
    /// round, partial signatures while in the second.
    fn update(&mut self, data: &Vec<u8>) -> (r: Result<(Vec<u8>, Recipient), ProtocolError>)
        requires
            !(old(self).round is R0),
        ensures
            old(self).round is Done ==> *final(self) == *old(self) && r == Err::<
                (Vec<u8>, Recipient),
                ProtocolError,
            >(ProtocolError::OutOfSequence),
            old(self).round matches SignRound::Failed { err } ==> *final(self) == *old(self) && r
                == Err::<(Vec<u8>, Recipient), ProtocolError>(err),
            old(self).round matches SignRound::R1 { secnonce, pubnonce } ==> sign_r1_post(
                old(self).group@,
                old(self).message,
                secnonce@,
                pubnonce@,
                *old(self),
                *final(self),
                data@,
                r,
            ),
            old(self).round matches SignRound::R2 { aggnonce, partial } ==> sign_r2_post(
                old(self).group@,
                old(self).message,
                aggnonce@,
                partial@,
                *old(self),
                *final(self),
                data@,
                r,
            ),
    {
        let mut cur = SignRound::R0;
        core::mem::swap(&mut self.round, &mut cur);
        match cur {
            SignRound::R0 => {
                self.round = SignRound::R0;
                assert(false);
                Err(ProtocolError::OutOfSequence)
            },
            SignRound::Done { sig } => {
                self.round = SignRound::Done { sig };
                assert(*self == *old(self));
                Err(ProtocolError::OutOfSequence)
            },
            SignRound::Failed { err } => {
                self.round = SignRound::Failed { err };
                assert(*self == *old(self));
                Err(err)
            },
            SignRound::R1 { secnonce, pubnonce } => {
                match self.round_gather(data, &pubnonce, 67, 66) {
                    Err(e) => {
                        if e == ProtocolError::OutOfSequence {
                            self.round = SignRound::R1 { secnonce, pubnonce };
                            assert(*self == *old(self));
                        } else {
                            self.round = SignRound::Failed { err: e };
                        }
                        Err(e)
                    },
                    Ok(ns_vec) => {
                        let msg = match &self.message {
                            None => {
                                // round_gather already rules this out
                                assert(false);
                                return Err(ProtocolError::OutOfSequence);
                            },
                            Some(m) => clone_bytes(m),
                        };
                        let nonces = values_of_entries(&ns_vec);
                        let aggnonce = match agg_nonces(&nonces) {
                            Err(_) => {
                                self.round = SignRound::Failed {
                                    err: ProtocolError::CryptographicFailure,
                                };
                                return Err(ProtocolError::CryptographicFailure);
                            },
                            Ok(an) => an,
                        };
                        let pks = values_of_entries(&self.group.pubkeys);
                        proof {
                            if !group_wf(old(self).group@) {
                                assert(false);
                            }
                            assert(blobs_view(pks@).len() == pks@.len());
                            assert(pk_list(entries_view(self.group.pubkeys@)).len()
                                == entries_view(self.group.pubkeys@).len());
                        }
                        assert(1 <= pks@.len() <= 0xffff_ffff);
                        let partial = match partial_sign(
                            &pks,
                            &self.group.seckey,
                            &secnonce,
                            &aggnonce,
                            &msg,
                        ) {
                            Err(_) => {
                                self.round = SignRound::Failed {
                                    err: ProtocolError::CryptographicFailure,
                                };
                                return Err(ProtocolError::CryptographicFailure);
                            },
                            Ok(ps) => ps,
                        };
                        let p: u8 = (self.group.setup.index - 1) as u8;
                        let mut buf = clone_bytes(&partial);
                        buf.push(p);
                        assert(buf@ =~= partial@ + seq![p]);
                        let out = crate::proto::encode_raw_bcast(buf, ProtocolType::Musig2);
                        self.round = SignRound::R2 { aggnonce, partial };
                        Ok((out, Recipient::Server))
                    },
                }
            },
            SignRound::R2 { aggnonce, partial } => {
                match self.round_gather(data, &partial, 33, 32) {
                    Err(e) => {
                        if e == ProtocolError::OutOfSequence {
                            self.round = SignRound::R2 { aggnonce, partial };
                            assert(*self == *old(self));
                        } else {
                            self.round = SignRound::Failed { err: e };
                        }
                        Err(e)
                    },
                    Ok(ns_vec) => {
                        let msg = match &self.message {
                            None => {
                                assert(false);
                                return Err(ProtocolError::OutOfSequence);
                            },
                            Some(m) => clone_bytes(m),
                        };
                        let partials = values_of_entries(&ns_vec);
                        let pks = values_of_entries(&self.group.pubkeys);
                        proof {
                            if !group_wf(old(self).group@) {
                                assert(false);
                            }
                            assert(blobs_view(pks@).len() == pks@.len());
                            assert(pk_list(entries_view(self.group.pubkeys@)).len()
                                == entries_view(self.group.pubkeys@).len());
                        }
                        assert(1 <= pks@.len() <= 0xffff_ffff);
                        let sig = match agg_signature(&pks, &aggnonce, &partials, &msg) {
                            Err(_) => {
                                self.round = SignRound::Failed {
                                    err: ProtocolError::CryptographicFailure,
                                };
                                return Err(ProtocolError::CryptographicFailure);
                            },
                            Ok(s) => s,
                        };
                        let out = crate::proto::encode_raw_bcast(
                            clone_bytes(&sig),
                            ProtocolType::Musig2,
                        );
                        self.round = SignRound::Done { sig };
                        Ok((out, Recipient::Server))
                    },
                }
            },
        }
    }

    /// Decodes one aggregated peer round and gathers its keyed values
    /// together with this participant's own contribution, in signer
    /// order.  Does not touch the round state.
    fn round_gather(&mut self, data: &Vec<u8>, own: &Vec<u8>, piece: usize, vlen: usize) -> (r:
        Result<Vec<(u32, Vec<u8>)>, ProtocolError>)
        requires
            piece >= 1,
        ensures
            *final(self) == *old(self),
            ({
                let g = old(self).group@;
                let own_key = (g.setup.index - 1) as u32;
                if !group_wf(g) {
                    r == Err::<Vec<(u32, Vec<u8>)>, ProtocolError>(ProtocolError::CodecInternal)
                } else if old(self).message is None {
                    r == Err::<Vec<(u32, Vec<u8>)>, ProtocolError>(ProtocolError::OutOfSequence)
                } else {
                    match spec_dec_server(data@) {
                        None => r == Err::<Vec<(u32, Vec<u8>)>, ProtocolError>(
                            ProtocolError::MalformedEnvelope,
                        ),
                        Some(sm) => if sm.protocol_type != ProtocolType::Musig2 {
                            r == Err::<Vec<(u32, Vec<u8>)>, ProtocolError>(
                                ProtocolError::WrongProtocol,
                            )
                        } else if gather_fails(
                            sm.broadcasts,
                            piece as nat,
                            own_key,
                            own@,
                            g.setup.parties,
                            vlen as nat,
                        ) {
                            r == Err::<Vec<(u32, Vec<u8>)>, ProtocolError>(
                                ProtocolError::MalformedEnvelope,
                            )
                        } else {
                            r matches Ok(ns) && entries_view(ns@) == normal_of(
                                gathered(sm.broadcasts, piece as nat, own_key, own@),
                            )
                        },
                    }
                }
            }),
    {
        if !self.group.check_wf() {
            return Err(ProtocolError::CodecInternal);
        }
        if self.message.is_none() {
            return Err(ProtocolError::OutOfSequence);
        }
        let sm = match ServerMessage::decode(data) {
            None => {
                return Err(ProtocolError::MalformedEnvelope);
            },
            Some(m) => m,
        };
        if sm.protocol_type != ProtocolType::Musig2 {
            return Err(ProtocolError::WrongProtocol);
        }
        let ghost smv = sm@;
        let norm = match normalize_entries(sm.broadcasts) {
            Err(e) => {
                return Err(e);
            },
            Ok(v) => v,
        };
        proof {
            crate::protocol::lemma_normal_of_eq(entries_view(norm@), smv.broadcasts);
        }
        let values = values_of_entries(&norm);
        let parsed = match deserialize_musig(values, piece) {
            Err(e) => {
                return Err(e);
            },
            Ok(v) => v,
        };
        let p: u8 = (self.group.setup.index - 1) as u8;
        let mut entries = parsed;
        let ghost oe = entries@;
        entries.push((p as u32, clone_bytes(own)));
        proof {
            crate::bytes::lemma_entries_view_push(oe, entries@.last());
            assert(entries@ =~= oe.push(entries@.last()));
            assert(entries@.last().0 == p as u32 && entries@.last().1@ == own@);
            assert(entries_view(entries@) =~= gathered(
                smv.broadcasts,
                piece as nat,
                (self.group.setup.index - 1) as u32,
                own@,
            ));
        }
        let ns = match normalize_entries(entries) {
            Err(e) => {
                return Err(e);
            },
            Ok(v) => v,
        };
        proof {
            crate::protocol::lemma_normal_of_eq(
                entries_view(ns@),
                gathered(
                    smv.broadcasts,
                    piece as nat,
                    (self.group.setup.index - 1) as u32,
                    own@,
                ),
            );
        }
        if !check_internal_entries(&ns, self.group.setup.parties, vlen) {
            return Err(ProtocolError::MalformedEnvelope);
        }
        Ok(ns)
    }
}

/// Key-generation agreement: whichever participant runs the final
/// key-generation round, the aggregate public key is determined by
/// the set of per-party keys alone.  Two participants who gather the
/// same keys — each the peers' broadcasts plus its own key, in any
/// order — compute the same aggregate key.  `w` witnesses that the
/// gathered keys admit a normal arrangement.
pub proof fn lemma_keygen_agreement(
    b1: Seq<(u32, Seq<u8>)>,
    own1: (u32, Seq<u8>),
    b2: Seq<(u32, Seq<u8>)>,
    own2: (u32, Seq<u8>),
    w: Seq<(u32, Seq<u8>)>,
)
    requires
        is_normal_of(w, b1.push(own1)),
        b1.push(own1).to_multiset() == b2.push(own2).to_multiset(),
    ensures
        normal_of(b1.push(own1)) == normal_of(b2.push(own2)),
        agg_pubkey_of(pk_list(normal_of(b1.push(own1)))) == agg_pubkey_of(
            pk_list(normal_of(b2.push(own2))),
        ),
{
    crate::protocol::lemma_peer_order_irrelevant(b1.push(own1), b2.push(own2), w);
}

/// Signature determinism across aggregators: the final compact
/// signature is a function of the group's member keys, the aggregate
/// nonce, the multiset of gathered partial signatures and the message
/// alone — not of which participant aggregates or of the order the
/// partials arrived in.  `w1` and `w2` witness that both gatherings
/// admit a normal arrangement.
pub proof fn lemma_signature_agreement(
    pks: Seq<Seq<u8>>,
    aggnonce: Seq<u8>,
    message: Seq<u8>,
    e1: Seq<(u32, Seq<u8>)>,
    e2: Seq<(u32, Seq<u8>)>,
    w1: Seq<(u32, Seq<u8>)>,
)
    requires
        is_normal_of(w1, e1),
        e1.to_multiset() == e2.to_multiset(),
    ensures
        final_sig_of(pks, aggnonce, pk_list(normal_of(e1)), message) == final_sig_of(
            pks,
            aggnonce,
            pk_list(normal_of(e2)),
            message,
        ),
{
    crate::protocol::lemma_peer_order_irrelevant(e1, e2, w1);
}

/// One signing round sees the same gathered values whatever order the
/// peers' broadcasts arrived in: the gathering is a function of the
/// broadcast entries and this participant's own contribution alone.
/// `w` witnesses that the first map admits a normal arrangement.
pub proof fn lemma_sign_gather_order_irrelevant(
    b1: Seq<(u32, Seq<u8>)>,
    b2: Seq<(u32, Seq<u8>)>,
    w: Seq<(u32, Seq<u8>)>,
    piece: nat,
    own_key: u32,
    own: Seq<u8>,
)
    requires
        is_normal_of(w, b1),
        b1.to_multiset() == b2.to_multiset(),
    ensures
        gathered(b1, piece, own_key, own) == gathered(b2, piece, own_key, own),
{
    crate::protocol::lemma_peer_order_irrelevant(b1, b2, w);
}

/// Two advance outcomes agree observably: same payload bytes, same
/// recipient, same error.
pub open spec fn results_agree(
    r1: Result<(Vec<u8>, Recipient), ProtocolError>,
    r2: Result<(Vec<u8>, Recipient), ProtocolError>,
) -> bool {
    match (r1, r2) {
        (Ok((o1, c1)), Ok((o2, c2))) => o1@ == o2@ && c1 == c2,
        (Err(e1), Err(e2)) => e1 == e2,
        _ => false,
    }
}

/// Peer-index ordering for the final key-generation round: from the
/// same engine state, two inbound envelopes of the same kind whose
/// broadcast maps carry the same entries — in any order — lead to the
/// same outcome and the same successor round.  `w` witnesses that the
/// gathered keys admit a normal arrangement (no sender counted
/// twice).
pub proof fn lemma_keygen_round_order_independent(
    pre: KeygenContext,
    post1: KeygenContext,
    post2: KeygenContext,
    data1: Seq<u8>,
    data2: Seq<u8>,
    r1: Result<(Vec<u8>, Recipient), ProtocolError>,
    r2: Result<(Vec<u8>, Recipient), ProtocolError>,
    w: Seq<(u32, Seq<u8>)>,
)
    requires
        pre.round matches KeygenRound::R1 { .. },
        keygen_advance_post(pre, post1, data1, r1),
        keygen_advance_post(pre, post2, data2, r2),
        spec_dec_server(data1) matches Some(sm1) && spec_dec_server(data2) matches Some(sm2) && {
            &&& sm1.protocol_type == sm2.protocol_type
            &&& sm1.broadcasts.to_multiset() == sm2.broadcasts.to_multiset()
            &&& (pre.round matches KeygenRound::R1 { setup, pubkey, .. } && is_normal_of(
                w,
                sm1.broadcasts.push((setup.index, pubkey@)),
            ))
        },
    ensures
        results_agree(r1, r2),
        post1.round@ == post2.round@,
{
    broadcast use vstd::seq_lib::group_to_multiset_ensures;

    let sm1 = spec_dec_server(data1)->Some_0;
    let sm2 = spec_dec_server(data2)->Some_0;
    match pre.round {
        KeygenRound::R1 { setup, seckey, pubkey } => {
            let own = (setup.index, pubkey@);
            let c1 = sm1.broadcasts.push(own);
            let c2 = sm2.broadcasts.push(own);
            assert(c1.to_multiset() =~= c2.to_multiset());
            crate::protocol::lemma_peer_order_irrelevant(c1, c2, w);
            if has_dup_keys(c1) {
                crate::protocol::lemma_dup_keys_multiset(c1, w);
                assert(false);
            }
            if has_dup_keys(c2) {
                crate::protocol::lemma_dup_keys_multiset(c2, w);
                assert(false);
            }
        },
        _ => {
            assert(false);
        },
    }
}

/// Peer-index ordering for the signing rounds: from the same engine
/// state, two inbound envelopes of the same kind whose broadcast maps
/// carry the same entries — in any order — lead to the same outcome
/// and the same successor round.  `w` witnesses that the map admits a
/// normal arrangement (no sender counted twice).
pub proof fn lemma_sign_round_order_independent(
    pre: SignContext,
    post1: SignContext,
    post2: SignContext,
    data1: Seq<u8>,
    data2: Seq<u8>,
    r1: Result<(Vec<u8>, Recipient), ProtocolError>,
    r2: Result<(Vec<u8>, Recipient), ProtocolError>,
    w: Seq<(u32, Seq<u8>)>,
)
    requires
        pre.round matches SignRound::R1 { .. } || pre.round matches SignRound::R2 { .. },
        sign_advance_post(pre, post1, data1, r1),
        sign_advance_post(pre, post2, data2, r2),
        spec_dec_server(data1) matches Some(sm1) && spec_dec_server(data2) matches Some(sm2) && {
            &&& sm1.protocol_type == sm2.protocol_type
            &&& sm1.broadcasts.to_multiset() == sm2.broadcasts.to_multiset()
            &&& is_normal_of(w, sm1.broadcasts)
        },
    ensures
        results_agree(r1, r2),
        post1.round@ == post2.round@,
{
    let sm1 = spec_dec_server(data1)->Some_0;
    let sm2 = spec_dec_server(data2)->Some_0;
    crate::protocol::lemma_peer_order_irrelevant(sm1.broadcasts, sm2.broadcasts, w);
    if has_dup_keys(sm1.broadcasts) {
        crate::protocol::lemma_dup_keys_multiset(sm1.broadcasts, w);
        assert(false);
    }
    if has_dup_keys(sm2.broadcasts) {
        crate::protocol::lemma_dup_keys_multiset(sm2.broadcasts, w);
        assert(false);
    }
}

/// Mathematical shape of a [`KeygenRound`].
pub ghost enum KeygenRoundView {
    R0,
    R1 { setup: Setup, seckey: Seq<u8>, pubkey: Seq<u8> },
    Done { group: MusigGroupView },
    Failed { err: ProtocolError },
}

impl View for KeygenRound {
    type V = KeygenRoundView;

    open spec fn view(&self) -> KeygenRoundView {
        match self {
            KeygenRound::R0 => KeygenRoundView::R0,
            KeygenRound::R1 { setup, seckey, pubkey } => KeygenRoundView::R1 {
                setup: *setup,
                seckey: seckey@,
                pubkey: pubkey@,
            },
            KeygenRound::Done { group } => KeygenRoundView::Done { group: group@ },
            KeygenRound::Failed { err } => KeygenRoundView::Failed { err: *err },
        }
    }
}

/// Mathematical shape of a [`KeygenContext`].
pub ghost struct KeygenCtxView {
    pub with_card: bool,
    pub round: KeygenRoundView,
}

impl View for KeygenContext {
    type V = KeygenCtxView;

    open spec fn view(&self) -> KeygenCtxView {
        KeygenCtxView { with_card: self.with_card, round: self.round@ }
    }
}

/// The state's byte strings fit their length prefixes, so that a
/// snapshot can frame them.  Every state an engine reaches through
/// its methods satisfies this.
pub open spec fn keygen_snap_wf(c: KeygenCtxView) -> bool {
    match c.round {
        KeygenRoundView::R0 => true,
        KeygenRoundView::R1 { setup, seckey, pubkey } => chunk_wf(seckey) && chunk_wf(pubkey),
        KeygenRoundView::Done { group } => chunk_wf(group.seckey) && entry_list_wf(group.pubkeys)
            && chunk_wf(group.agg_pubkey) && chunk_wf(spec_enc_group(group)),
        KeygenRoundView::Failed { .. } => true,
    }
}

/// Bytes of a suspended key-generation engine.
pub open spec fn spec_enc_keygen_ctx(c: KeygenCtxView) -> Seq<u8>
    recommends
        keygen_snap_wf(c),
{
    seq![if c.with_card { 1u8 } else { 0u8 }] + match c.round {
        KeygenRoundView::R0 => seq![0u8],
        KeygenRoundView::R1 { setup, seckey, pubkey } => seq![1u8] + spec_u32_le(setup.threshold)
            + spec_u32_le(setup.parties) + spec_u32_le(setup.index) + spec_chunk(seckey)
            + spec_chunk(pubkey),
        KeygenRoundView::Done { group } => seq![2u8] + spec_chunk(spec_enc_group(group)),
        KeygenRoundView::Failed { err } => seq![3u8] + crate::error::spec_enc_err(err),
    }
}

/// The suspended key-generation engine a byte string stands for, if
/// it is a whole snapshot and nothing more.
pub open spec fn spec_dec_keygen_ctx(s: Seq<u8>) -> Option<KeygenCtxView> {
    if s.len() < 2 || s[0] > 1 {
        None
    } else {
        let with_card = s[0] == 1;
        let tag = s[1];
        if tag == 0 {
            if s.len() == 2 {
                Some(KeygenCtxView { with_card, round: KeygenRoundView::R0 })
            } else {
                None
            }
        } else if tag == 1 {
            if s.len() < 14 {
                None
            } else {
                let threshold = spec_u32_of_le_at(s, 2);
                let parties = spec_u32_of_le_at(s, 6);
                let index = spec_u32_of_le_at(s, 10);
                match spec_read_chunk(s, 14) {
                    None => None,
                    Some((sk, p)) => match spec_read_chunk(s, p) {
                        None => None,
                        Some((pk, q)) => if q == s.len() {
                            Some(
                                KeygenCtxView {
                                    with_card,
                                    round: KeygenRoundView::R1 {
                                        setup: Setup { threshold, parties, index },
                                        seckey: sk,
                                        pubkey: pk,
                                    },
                                },
                            )
                        } else {
                            None
                        },
                    },
                }
            }
        } else if tag == 2 {
            match spec_read_chunk(s, 2) {
                None => None,
                Some((g, p)) => if p == s.len() {
                    match spec_dec_group(g) {
                        None => None,
                        Some(group) => Some(
                            KeygenCtxView { with_card, round: KeygenRoundView::Done { group } },
                        ),
                    }
                } else {
                    None
                },
            }
        } else if tag == 3 {
            match crate::error::spec_read_err(s, 2) {
                None => None,
                Some((err, p)) => if p == s.len() {
                    Some(KeygenCtxView { with_card, round: KeygenRoundView::Failed { err } })
                } else {
                    None
                },
            }
        } else {
            None
        }
    }
}

/// Restoring a suspended key-generation engine gives the state back
/// exactly.
#[verifier::rlimit(100)]
#[verifier::spinoff_prover]
pub proof fn lemma_keygen_snapshot_round_trip(c: KeygenCtxView)
    requires
        keygen_snap_wf(c),
    ensures
        spec_dec_keygen_ctx(spec_enc_keygen_ctx(c)) == Some(c),
{
    let s = spec_enc_keygen_ctx(c);
    assert(s[0] == if c.with_card { 1u8 } else { 0u8 });
    match c.round {
        KeygenRoundView::R0 => {
            assert(s.len() == 2 && s[1] == 0u8);
        },
        KeygenRoundView::R1 { setup, seckey, pubkey } => {
            let sklen = spec_chunk(seckey).len() as int;
            let pklen = spec_chunk(pubkey).len() as int;
            assert(s[1] == 1u8);
            assert(s.subrange(2, 6) =~= spec_u32_le(setup.threshold));
            assert(s.subrange(6, 10) =~= spec_u32_le(setup.parties));
            assert(s.subrange(10, 14) =~= spec_u32_le(setup.index));
            crate::bytes::lemma_u32_le_round_trip(setup.threshold);
            crate::bytes::lemma_u32_le_round_trip(setup.parties);
            crate::bytes::lemma_u32_le_round_trip(setup.index);
            assert(s.subrange(14, 14 + sklen) =~= spec_chunk(seckey));
            lemma_read_chunk_of_enc(s, 14, seckey);
            assert(s.subrange(14 + sklen, 14 + sklen + pklen) =~= spec_chunk(pubkey));
            lemma_read_chunk_of_enc(s, 14 + sklen, pubkey);
        },
        KeygenRoundView::Done { group } => {
            let g = spec_enc_group(group);
            assert(s[1] == 2u8);
            assert(s.subrange(2, 2 + 4 + g.len() as int) =~= spec_chunk(g));
            lemma_read_chunk_of_enc(s, 2, g);
            lemma_group_round_trip(group);
        },
        KeygenRoundView::Failed { err } => {
            assert(s[1] == 3u8);
            assert(s.subrange(2, 5) =~= crate::error::spec_enc_err(err));
            crate::error::lemma_read_err_of_enc(s, 2, err);
        },
    }
}

impl KeygenContext {
    /// Serializes the engine for suspension between rounds.
    pub fn snapshot(&self) -> (r: Vec<u8>)
        requires
            keygen_snap_wf(self@),
        ensures
            r@ == spec_enc_keygen_ctx(self@),
    {
        let mut out: Vec<u8> = Vec::new();
        out.push(if self.with_card { 1 } else { 0 });
        match &self.round {
            KeygenRound::R0 => {
                out.push(0);
            },
            KeygenRound::R1 { setup, seckey, pubkey } => {
                out.push(1);
                push_u32_le(&mut out, setup.threshold);
                push_u32_le(&mut out, setup.parties);
                push_u32_le(&mut out, setup.index);
                push_chunk(&mut out, seckey);
                push_chunk(&mut out, pubkey);
            },
            KeygenRound::Done { group } => {
                out.push(2);
                let g = group.encode();
                push_chunk(&mut out, &g);
            },
            KeygenRound::Failed { err } => {
                out.push(3);
                err.push_err(&mut out);
            },
        }
        assert(out@ =~= spec_enc_keygen_ctx(self@));
        out
    }

    /// Rebuilds a suspended engine, exactly as [`spec_dec_keygen_ctx`]
    /// describes it.
    pub fn restore(data: &Vec<u8>) -> (r: Option<KeygenContext>)
        ensures
            r is Some <==> spec_dec_keygen_ctx(data@) is Some,
            r matches Some(c) ==> spec_dec_keygen_ctx(data@) == Some(c@),
    {
        let len: usize = data.len();
        if len < 2 || data[0] > 1 {
            return None;
        }
        let with_card = data[0] == 1;
        let tag = data[1];
        if tag == 0 {
            if len == 2 {
                Some(KeygenContext { round: KeygenRound::R0, with_card })
            } else {
                None
            }
        } else if tag == 1 {
            if len < 14 {
                return None;
            }
            let threshold = read_u32_le(data, 2);
            let parties = read_u32_le(data, 6);
            let index = read_u32_le(data, 10);
            let (sk, p) = match read_chunk(data, 14) {
                None => {
                    return None;
                },
                Some(x) => x,
            };
            match read_chunk(data, p) {
                None => None,
                Some((pk, q)) => {
                    if q == len {
                        Some(
                            KeygenContext {
                                round: KeygenRound::R1 {
                                    setup: Setup { threshold, parties, index },
                                    seckey: sk,
                                    pubkey: pk,
                                },
                                with_card,
                            },
                        )
                    } else {
                        None
                    }
                },
            }
        } else if tag == 2 {
            match read_chunk(data, 2) {
                None => None,
                Some((g, p)) => {
                    if p != len {
                        return None;
                    }
                    match MusigGroup::decode(&g) {
                        None => None,
                        Some(group) => Some(
                            KeygenContext { round: KeygenRound::Done { group }, with_card },
                        ),
                    }
                },
            }
        } else if tag == 3 {
            match ProtocolError::read_err(data, 2) {
                None => None,
                Some((err, p)) => {
                    if p == len {
                        Some(KeygenContext { round: KeygenRound::Failed { err }, with_card })
                    } else {
                        None
                    }
                },
            }
        } else {
            None
        }
    }
}

/// What one `advance` call does, whichever round the engine is in.
pub open spec fn sign_advance_post(
    pre: SignContext,
    post: SignContext,
    data: Seq<u8>,
    r: Result<(Vec<u8>, Recipient), ProtocolError>,
) -> bool {
    match pre.round {
        SignRound::R0 => sign_r0_post(pre.group@, post, data, r),
        SignRound::R1 { secnonce, pubnonce } => sign_r1_post(
            pre.group@,
            pre.message,
            secnonce@,
            pubnonce@,
            pre,
            post,
            data,
            r,
        ),
        SignRound::R2 { aggnonce, partial } => sign_r2_post(
            pre.group@,
            pre.message,
            aggnonce@,
            partial@,
            pre,
            post,
            data,
            r,
        ),
        SignRound::Done { .. } => post == pre && r == Err::<(Vec<u8>, Recipient), ProtocolError>(
            ProtocolError::OutOfSequence,
        ),
        SignRound::Failed { err } => post == pre && r == Err::<
            (Vec<u8>, Recipient),
            ProtocolError,
        >(err),
    }
}

impl SignContext {
    /// Consumes one inbound round payload: the session-init record in
    /// the initial round, the peers' nonces or partial signatures
    /// afterwards.
    pub fn advance(&mut self, data: &Vec<u8>) -> (r: Result<(Vec<u8>, Recipient), ProtocolError>)
        ensures
            sign_advance_post(*old(self), *final(self), data@, r),
    {
        if matches!(self.round, SignRound::R0) {
            self.init(data)
        } else {
            self.update(data)
        }
    }
}

impl Protocol for SignContext {
    /// The raw 64-byte compact signature, once the terminal round is
    /// reached.
    open spec fn artifact(&self) -> Option<Seq<u8>> {
        match self.round {
            SignRound::Done { sig } => Some(sig@),
            _ => None,
        }
    }

    open spec fn poisoned(&self) -> Option<ProtocolError> {
        match self.round {
            SignRound::Failed { err } => Some(err),
            _ => None,
        }
    }

    fn advance(&mut self, data: &Vec<u8>) -> (r: Result<(Vec<u8>, Recipient), ProtocolError>) {
        self.advance(data)
    }

    fn finish(self) -> (r: Result<Vec<u8>, ProtocolError>) {
        match self.round {
            SignRound::Done { sig } => Ok(sig),
            SignRound::Failed { err } => Err(err),
            _ => Err(ProtocolError::OutOfSequence),
        }
    }
}

/// Mathematical shape of a [`SignRound`].
pub ghost enum SignRoundView {
    R0,
    R1 { secnonce: Seq<u8>, pubnonce: Seq<u8> },
    R2 { aggnonce: Seq<u8>, partial: Seq<u8> },
    Done { sig: Seq<u8> },
    Failed { err: ProtocolError },
}

impl View for SignRound {
    type V = SignRoundView;

    open spec fn view(&self) -> SignRoundView {
        match self {
            SignRound::R0 => SignRoundView::R0,
            SignRound::R1 { secnonce, pubnonce } => SignRoundView::R1 {
                secnonce: secnonce@,
                pubnonce: pubnonce@,
            },
            SignRound::R2 { aggnonce, partial } => SignRoundView::R2 {
                aggnonce: aggnonce@,
                partial: partial@,
            },
            SignRound::Done { sig } => SignRoundView::Done { sig: sig@ },
            SignRound::Failed { err } => SignRoundView::Failed { err: *err },
        }
    }
}

/// Mathematical shape of a [`SignContext`].
pub ghost struct SignCtxView {
    pub group: MusigGroupView,
    pub message: Option<Seq<u8>>,
    pub indices: Option<Seq<u32>>,
    pub round: SignRoundView,
}

impl View for SignContext {
    type V = SignCtxView;

    open spec fn view(&self) -> SignCtxView {
        SignCtxView {
            group: self.group@,
            message: match self.message {
                None => None,
                Some(m) => Some(m@),
            },
            indices: match self.indices {
                None => None,
                Some(v) => Some(v@),
            },
            round: self.round@,
        }
    }
}

/// The state's byte strings fit their length and count prefixes, so
/// that a snapshot can frame them.  Every state an engine reaches
/// through its methods satisfies this.
pub open spec fn sign_snap_wf(c: SignCtxView) -> bool {
    &&& chunk_wf(c.group.seckey)
    &&& entry_list_wf(c.group.pubkeys)
    &&& chunk_wf(c.group.agg_pubkey)
    &&& chunk_wf(spec_enc_group(c.group))
    &&& (c.message matches Some(m) ==> chunk_wf(m))
    &&& (c.indices matches Some(v) ==> v.len() <= 0xffff_ffff)
    &&& sign_round_wf(c.round)
}

/// The round part's byte strings fit their length prefixes.
pub open spec fn sign_round_wf(r: SignRoundView) -> bool {
    match r {
        SignRoundView::R1 { secnonce, pubnonce } => chunk_wf(secnonce) && chunk_wf(pubnonce),
        SignRoundView::R2 { aggnonce, partial } => chunk_wf(aggnonce) && chunk_wf(partial),
        SignRoundView::Done { sig } => chunk_wf(sig),
        _ => true,
    }
}

/// Encoding of an optional participant list: a presence flag, then
/// the counted list when present.
pub open spec fn spec_opt_u32_list(o: Option<Seq<u32>>) -> Seq<u8> {
    match o {
        None => seq![0u8],
        Some(l) => seq![1u8] + crate::bytes::spec_u32_list(l),
    }
}

/// Bytes of the round part of a suspended signing engine.
pub open spec fn spec_enc_sign_round(r: SignRoundView) -> Seq<u8> {
    match r {
        SignRoundView::R0 => seq![0u8],
        SignRoundView::R1 { secnonce, pubnonce } => seq![1u8] + spec_chunk(secnonce) + spec_chunk(
            pubnonce,
        ),
        SignRoundView::R2 { aggnonce, partial } => seq![2u8] + spec_chunk(aggnonce) + spec_chunk(
            partial,
        ),
        SignRoundView::Done { sig } => seq![3u8] + spec_chunk(sig),
        SignRoundView::Failed { err } => seq![4u8] + crate::error::spec_enc_err(err),
    }
}

/// Bytes of a suspended signing engine.
#[verifier::opaque]
pub open spec fn spec_enc_sign_ctx(c: SignCtxView) -> Seq<u8>
    recommends
        sign_snap_wf(c),
{
    spec_chunk(spec_enc_group(c.group)) + crate::proto::spec_opt_chunk(c.message)
        + spec_opt_u32_list(c.indices) + spec_enc_sign_round(c.round)
}

/// Result of reading an optional byte-string chunk at `pos`.
pub open spec fn spec_read_opt_chunk(s: Seq<u8>, pos: int) -> Option<(Option<Seq<u8>>, int)> {
    if 0 <= pos && pos + 1 <= s.len() {
        if s[pos] == 0 {
            Some((None, pos + 1))
        } else if s[pos] == 1 {
            match spec_read_chunk(s, pos + 1) {
                None => None,
                Some((b, p)) => Some((Some(b), p)),
            }
        } else {
            None
        }
    } else {
        None
    }
}

/// Result of reading an optional participant list at `pos`.
pub open spec fn spec_read_opt_u32_list(s: Seq<u8>, pos: int) -> Option<(Option<Seq<u32>>, int)> {
    if 0 <= pos && pos + 1 <= s.len() {
        if s[pos] == 0 {
            Some((None, pos + 1))
        } else if s[pos] == 1 {
            match crate::bytes::spec_read_u32_list(s, pos + 1) {
                None => None,
                Some((l, p)) => Some((Some(l), p)),
            }
        } else {
            None
        }
    } else {
        None
    }
}

/// The round part a byte string's tail stands for, if it runs to the
/// end of the string.
pub open spec fn spec_read_sign_round(s: Seq<u8>, pos: int) -> Option<SignRoundView> {
    if 0 <= pos && pos + 1 <= s.len() {
        let tag = s[pos];
        let body = pos + 1;
        if tag == 0 {
            if body == s.len() {
                Some(SignRoundView::R0)
            } else {
                None
            }
        } else if tag == 1 || tag == 2 {
            match spec_read_chunk(s, body) {
                None => None,
                Some((a, q1)) => match spec_read_chunk(s, q1) {
                    None => None,
                    Some((b, q2)) => if q2 == s.len() {
                        if tag == 1 {
                            Some(SignRoundView::R1 { secnonce: a, pubnonce: b })
                        } else {
                            Some(SignRoundView::R2 { aggnonce: a, partial: b })
                        }
                    } else {
                        None
                    },
                },
            }
        } else if tag == 3 {
            match spec_read_chunk(s, body) {
                None => None,
                Some((sig, q)) => if q == s.len() {
                    Some(SignRoundView::Done { sig })
                } else {
                    None
                },
            }
        } else if tag == 4 {
            match crate::error::spec_read_err(s, body) {
                None => None,
                Some((err, q)) => if q == s.len() {
                    Some(SignRoundView::Failed { err })
                } else {
                    None
                },
            }
        } else {
            None
        }
    } else {
        None
    }
}

/// The suspended signing engine a byte string stands for, if it is a
/// whole snapshot and nothing more.
#[verifier::opaque]
pub open spec fn spec_dec_sign_ctx(s: Seq<u8>) -> Option<SignCtxView> {
    match spec_read_chunk(s, 0) {
        None => None,
        Some((g, p0)) => match spec_dec_group(g) {
            None => None,
            Some(group) => match spec_read_opt_chunk(s, p0) {
                None => None,
                Some((message, p1)) => match spec_read_opt_u32_list(s, p1) {
                    None => None,
                    Some((indices, p2)) => match spec_read_sign_round(s, p2) {
                        None => None,
                        Some(round) => Some(SignCtxView { group, message, indices, round }),
                    },
                },
            },
        },
    }
}

/// Reading a byte string's tail where an encoded round part was laid
/// down restores it.
pub proof fn lemma_read_sign_round_of_enc(s: Seq<u8>, pos: int, r: SignRoundView)
    requires
        sign_round_wf(r),
        0 <= pos,
        s.len() == pos + spec_enc_sign_round(r).len(),
        s.subrange(pos, s.len() as int) == spec_enc_sign_round(r),
    ensures
        spec_read_sign_round(s, pos) == Some(r),
{
    let t = spec_enc_sign_round(r);
    let send = s.len() as int;
    assert(s[pos] == s.subrange(pos, send)[0]);
    match r {
        SignRoundView::R0 => {
            assert(s[pos] == 0u8);
        },
        SignRoundView::R1 { secnonce, pubnonce } => {
            let alen = spec_chunk(secnonce).len() as int;
            assert(s[pos] == 1u8);
            assert(s.subrange(pos + 1, pos + 1 + alen) =~= s.subrange(pos, send).subrange(
                1,
                1 + alen,
            ));
            assert(s.subrange(pos, send).subrange(1, 1 + alen) =~= spec_chunk(secnonce));
            lemma_read_chunk_of_enc(s, pos + 1, secnonce);
            assert(s.subrange(pos + 1 + alen, send) =~= s.subrange(pos, send).subrange(
                1 + alen,
                t.len() as int,
            ));
            assert(s.subrange(pos, send).subrange(1 + alen, t.len() as int) =~= spec_chunk(
                pubnonce,
            ));
            lemma_read_chunk_of_enc(s, pos + 1 + alen, pubnonce);
        },
        SignRoundView::R2 { aggnonce, partial } => {
            let alen = spec_chunk(aggnonce).len() as int;
            assert(s[pos] == 2u8);
            assert(s.subrange(pos + 1, pos + 1 + alen) =~= s.subrange(pos, send).subrange(
                1,
                1 + alen,
            ));
            assert(s.subrange(pos, send).subrange(1, 1 + alen) =~= spec_chunk(aggnonce));
            lemma_read_chunk_of_enc(s, pos + 1, aggnonce);
            assert(s.subrange(pos + 1 + alen, send) =~= s.subrange(pos, send).subrange(
                1 + alen,
                t.len() as int,
            ));
            assert(s.subrange(pos, send).subrange(1 + alen, t.len() as int) =~= spec_chunk(
                partial,
            ));
            lemma_read_chunk_of_enc(s, pos + 1 + alen, partial);
        },
        SignRoundView::Done { sig } => {
            assert(s[pos] == 3u8);
            assert(s.subrange(pos + 1, send) =~= s.subrange(pos, send).subrange(
                1,
                t.len() as int,
            ));
            assert(s.subrange(pos, send).subrange(1, t.len() as int) =~= spec_chunk(sig));
            lemma_read_chunk_of_enc(s, pos + 1, sig);
        },
        SignRoundView::Failed { err } => {
            assert(s[pos] == 4u8);
            assert(s.subrange(pos + 1, pos + 4) =~= s.subrange(pos, send).subrange(1, 4));
            assert(s.subrange(pos, send).subrange(1, 4) =~= crate::error::spec_enc_err(err));
            crate::error::lemma_read_err_of_enc(s, pos + 1, err);
        },
    }
}

/// Reading where an encoded optional chunk was laid down restores it.
pub proof fn lemma_read_opt_chunk_of_enc(s: Seq<u8>, pos: int, o: Option<Seq<u8>>)
    requires
        o matches Some(b) ==> chunk_wf(b),
        0 <= pos,
        pos + crate::proto::spec_opt_chunk(o).len() <= s.len(),
        s.subrange(pos, pos + crate::proto::spec_opt_chunk(o).len()) == crate::proto::spec_opt_chunk(o),
    ensures
        spec_read_opt_chunk(s, pos) == Some((o, pos + crate::proto::spec_opt_chunk(o).len())),
{
    let optlen = crate::proto::spec_opt_chunk(o).len() as int;
    assert(s.subrange(pos, pos + optlen)[0] == s[pos]);
    match o {
        None => {
            assert(s[pos] == 0u8);
        },
        Some(m) => {
            assert(s[pos] == 1u8);
            assert(s.subrange(pos + 1, pos + 1 + 4 + m.len() as int) =~= s.subrange(
                pos,
                pos + optlen,
            ).subrange(1, optlen));
            assert(s.subrange(pos, pos + optlen).subrange(1, optlen) =~= spec_chunk(m));
            lemma_read_chunk_of_enc(s, pos + 1, m);
        },
    }
}

/// Reading where an encoded optional participant list was laid down
/// restores it.
pub proof fn lemma_read_opt_u32_list_of_enc(s: Seq<u8>, pos: int, o: Option<Seq<u32>>)
    requires
        o matches Some(l) ==> l.len() <= 0xffff_ffff,
        0 <= pos,
        pos + spec_opt_u32_list(o).len() <= s.len(),
        s.subrange(pos, pos + spec_opt_u32_list(o).len()) == spec_opt_u32_list(o),
    ensures
        spec_read_opt_u32_list(s, pos) == Some((o, pos + spec_opt_u32_list(o).len())),
{
    let optlen = spec_opt_u32_list(o).len() as int;
    assert(s.subrange(pos, pos + optlen)[0] == s[pos]);
    match o {
        None => {
            assert(s[pos] == 0u8);
        },
        Some(l) => {
            assert(s[pos] == 1u8);
            assert(s.subrange(pos + 1, pos + 1 + crate::bytes::spec_u32_list(l).len() as int)
                =~= s.subrange(pos, pos + optlen).subrange(1, optlen));
            assert(s.subrange(pos, pos + optlen).subrange(1, optlen) =~= crate::bytes::spec_u32_list(
                l,
            ));
            crate::bytes::lemma_read_u32_list_of_enc(s, pos + 1, l);
        },
    }
}

/// The header of a signing snapshot reads back to the group, message
/// and participant list it was written from.
#[verifier::rlimit(100)]
#[verifier::spinoff_prover]
proof fn lemma_sign_snapshot_header(c: SignCtxView)
    requires
        sign_snap_wf(c),
    ensures
        ({
            let s = spec_enc_sign_ctx(c);
            let g = spec_enc_group(c.group);
            let p0 = spec_chunk(g).len() as int;
            let p1 = p0 + crate::proto::spec_opt_chunk(c.message).len() as int;
            let p2 = p1 + spec_opt_u32_list(c.indices).len() as int;
            &&& spec_read_chunk(s, 0) == Some((g, p0))
            &&& spec_dec_group(g) == Some(c.group)
            &&& spec_read_opt_chunk(s, p0) == Some((c.message, p1))
            &&& spec_read_opt_u32_list(s, p1) == Some((c.indices, p2))
        }),
{
    reveal(spec_enc_sign_ctx);
    let s = spec_enc_sign_ctx(c);
    let g = spec_enc_group(c.group);
    let glen = spec_chunk(g).len() as int;
    let mlen = crate::proto::spec_opt_chunk(c.message).len() as int;
    let ilen = spec_opt_u32_list(c.indices).len() as int;
    let p0 = glen;
    let p1 = glen + mlen;
    let p2 = glen + mlen + ilen;
    let head = spec_chunk(g) + crate::proto::spec_opt_chunk(c.message) + spec_opt_u32_list(
        c.indices,
    );
    let tail = spec_enc_sign_round(c.round);
    assert(s == head + tail);
    crate::bytes::lemma_subrange_in_prefix(head, tail, 0, glen);
    assert(head.subrange(0, glen) =~= spec_chunk(g));
    lemma_read_chunk_of_enc(s, 0, g);
    lemma_group_round_trip(c.group);
    crate::bytes::lemma_subrange_in_prefix(head, tail, p0, p1);
    assert(head.subrange(p0, p1) =~= crate::proto::spec_opt_chunk(c.message));
    lemma_read_opt_chunk_of_enc(s, p0, c.message);
    crate::bytes::lemma_subrange_in_prefix(head, tail, p1, p2);
    assert(head.subrange(p1, p2) =~= spec_opt_u32_list(c.indices));
    lemma_read_opt_u32_list_of_enc(s, p1, c.indices);
}

/// Restoring a suspended signing engine gives the state back exactly.
#[verifier::rlimit(100)]
#[verifier::spinoff_prover]
pub proof fn lemma_sign_snapshot_round_trip(c: SignCtxView)
    requires
        sign_snap_wf(c),
    ensures
        spec_dec_sign_ctx(spec_enc_sign_ctx(c)) == Some(c),
{
    reveal(spec_enc_sign_ctx);
    reveal(spec_dec_sign_ctx);
    let s = spec_enc_sign_ctx(c);
    let head = spec_chunk(spec_enc_group(c.group)) + crate::proto::spec_opt_chunk(c.message)
        + spec_opt_u32_list(c.indices);
    let tail = spec_enc_sign_round(c.round);
    let p2 = head.len() as int;
    assert(s == head + tail);
    lemma_sign_snapshot_header(c);
    crate::bytes::lemma_subrange_in_tail(head, tail, p2, s.len() as int);
    assert(tail.subrange(0, tail.len() as int) =~= tail);
    lemma_read_sign_round_of_enc(s, p2, c.round);
}

impl SignContext {
    /// Serializes the engine for suspension between rounds.
    #[verifier::rlimit(100)]
    #[verifier::spinoff_prover]
    pub fn snapshot(&self) -> (r: Vec<u8>)
        requires
            sign_snap_wf(self@),
        ensures
            r@ == spec_enc_sign_ctx(self@),
    {
        proof {
            reveal(spec_enc_sign_ctx);
        }
        let ghost part0 = spec_chunk(spec_enc_group(self@.group));
        let ghost part1 = part0 + crate::proto::spec_opt_chunk(self@.message);
        let ghost part2 = part1 + spec_opt_u32_list(self@.indices);
        let mut out: Vec<u8> = Vec::new();
        let g = self.group.encode();
        push_chunk(&mut out, &g);
        assert(out@ =~= part0);
        match &self.message {
            None => {
                out.push(0);
            },
            Some(m) => {
                out.push(1);
                push_chunk(&mut out, m);
            },
        }
        assert(out@ =~= part1);
        match &self.indices {
            None => {
                out.push(0);
            },
            Some(l) => {
                out.push(1);
                crate::bytes::push_u32_list(&mut out, l);
            },
        }
        assert(out@ =~= part2);
        match &self.round {
            SignRound::R0 => {
                out.push(0);
            },
            SignRound::R1 { secnonce, pubnonce } => {
                out.push(1);
                push_chunk(&mut out, secnonce);
                push_chunk(&mut out, pubnonce);
            },
            SignRound::R2 { aggnonce, partial } => {
                out.push(2);
                push_chunk(&mut out, aggnonce);
                push_chunk(&mut out, partial);
            },
            SignRound::Done { sig } => {
                out.push(3);
                push_chunk(&mut out, sig);
            },
            SignRound::Failed { err } => {
                out.push(4);
                err.push_err(&mut out);
            },
        }
        assert(out@ =~= spec_enc_sign_ctx(self@));
        out
    }

    /// Rebuilds a suspended engine, exactly as [`spec_dec_sign_ctx`]
    /// describes it.
    pub fn restore(data: &Vec<u8>) -> (r: Option<SignContext>)
        ensures
            r is Some <==> spec_dec_sign_ctx(data@) is Some,
            r matches Some(c) ==> spec_dec_sign_ctx(data@) == Some(c@),
    {
        proof {
            reveal(spec_dec_sign_ctx);
        }
        let len: usize = data.len();
        let (gbytes, p0) = match read_chunk(data, 0) {
            None => {
                return None;
            },
            Some(x) => x,
        };
        let group = match MusigGroup::decode(&gbytes) {
            None => {
                return None;
            },
            Some(g) => g,
        };
        if p0 >= len {
            return None;
        }
        let (message, p1): (Option<Vec<u8>>, usize) = if data[p0] == 0 {
            (None, p0 + 1)
        } else if data[p0] == 1 {
            match read_chunk(data, p0 + 1) {
                None => {
                    return None;
                },
                Some((m, p)) => (Some(m), p),
            }
        } else {
            return None;
        };
        if p1 >= len {
            return None;
        }
        let (indices, p2): (Option<Vec<u32>>, usize) = if data[p1] == 0 {
            (None, p1 + 1)
        } else if data[p1] == 1 {
            match crate::bytes::read_u32_list(data, p1 + 1) {
                None => {
                    return None;
                },
                Some((l, p)) => (Some(l), p),
            }
        } else {
            return None;
        };
        if p2 >= len {
            return None;
        }
        let tag = data[p2];
        let body = p2 + 1;
        if tag == 0 {
            if body == len {
                Some(SignContext { group, message, indices, round: SignRound::R0 })
            } else {
                None
            }
        } else if tag == 1 || tag == 2 {
            let (a, q1) = match read_chunk(data, body) {
                None => {
                    return None;
                },
                Some(x) => x,
            };
            match read_chunk(data, q1) {
                None => None,
                Some((b, q2)) => {
                    if q2 == len {
                        let round = if tag == 1 {
                            SignRound::R1 { secnonce: a, pubnonce: b }
                        } else {
                            SignRound::R2 { aggnonce: a, partial: b }
                        };
                        Some(SignContext { group, message, indices, round })
                    } else {
                        None
                    }
                },
            }
        } else if tag == 3 {
            match read_chunk(data, body) {
                None => None,
                Some((sig, q)) => {
                    if q == len {
                        Some(SignContext { group, message, indices, round: SignRound::Done { sig } })
                    } else {
                        None
                    }
                },
            }
        } else if tag == 4 {
            match ProtocolError::read_err(data, body) {
                None => None,
                Some((err, q)) => {
                    if q == len {
                        Some(
                            SignContext {
                                group,
                                message,
                                indices,
                                round: SignRound::Failed { err },
                            },
                        )
                    } else {
                        None
                    }
                },
            }
        } else {
            None
        }
    }
}

impl ThresholdProtocol for SignContext {
    /// Acceptable group contexts: bytes that decode to a valid group.
    open spec fn group_ok(group: Seq<u8>) -> bool {
        spec_dec_group(group) matches Some(g) && group_wf(g)
    }

    fn new(group: &Vec<u8>) -> (r: Self) {
        match SignContext::new(group) {
            Ok(c) => c,
            Err(_) => {
                proof {
                    assert(false);
                }
                SignContext {
                    group: MusigGroup {
                        setup: Setup { threshold: 0, parties: 0, index: 0 },
                        seckey: Vec::new(),
                        pubkeys: Vec::new(),
                        agg_pubkey: Vec::new(),
                    },
                    message: None,
                    indices: None,
                    round: SignRound::R0,
                }
            },
        }
    }
}

} // verus!
