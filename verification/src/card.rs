//! Smartcard delegation of a MuSig2 share: the command frames the
//! card understands and the parsing of its responses.

pub mod command;
pub mod response;

use vstd::prelude::*;

use k256::elliptic_curve::sec1::{FromSec1Point, ToSec1Point};

use crate::error::ProtocolError;

verus! {

/// The SEC1 re-encoding of a point, compressed or uncompressed; it
/// depends on the arguments alone.
pub uninterp spec fn reencoded_point(ser: Seq<u8>, compress: bool) -> Seq<u8>;

/// Whether a byte string is a valid SEC1 point encoding; it depends
/// on the bytes alone.
pub uninterp spec fn is_valid_point(b: Seq<u8>) -> bool;

/// Whether a byte string is a valid serialized public nonce; it
/// depends on the bytes alone.
pub uninterp spec fn is_valid_pubnonce(b: Seq<u8>) -> bool;

/// Whether a byte string is a valid serialized scalar; it depends on
/// the bytes alone.
pub uninterp spec fn is_valid_scalar(b: Seq<u8>) -> bool;

/// Relies on `k256::AffinePoint::from_sec1_bytes` and
/// `AffinePoint::to_sec1_point`: a valid SEC1 point encoding is
/// re-encoded with the chosen compression, deterministically, and
/// anything else is rejected, so success is decided by the bytes
/// alone.  The result is itself a valid, canonical encoding (33 bytes
/// compressed, 65 uncompressed, a single byte for the identity), so
/// re-encoding it with the same flag gives it back.
#[verifier::external_body]
pub fn reencode_point(ser: &Vec<u8>, compress: bool) -> (r: Result<Vec<u8>, ProtocolError>)
    ensures
        r is Ok <==> is_valid_point(ser@),
        r matches Ok(v) ==> {
            &&& v@ == reencoded_point(ser@, compress)
            &&& (v@.len() == 1 || v@.len() == (if compress { 33int } else { 65int }))
            &&& is_valid_point(v@)
            &&& reencoded_point(v@, compress) == v@
        },
        r matches Err(e) ==> e == ProtocolError::CryptographicFailure,
{
    let affine = match k256::AffinePoint::from_sec1_bytes(ser) {
        Ok(a) => a,
        Err(_) => return Err(ProtocolError::CryptographicFailure),
    };
    Ok(affine.to_sec1_point(compress).as_bytes().to_vec())
}

/// Relies on `musig2::PubNonce::from_bytes`: whether the bytes parse
/// as a public nonce depends on the bytes alone.
#[verifier::external_body]
pub fn pubnonce_check(b: &Vec<u8>) -> (r: bool)
    ensures
        r == is_valid_pubnonce(b@),
{
    <::musig2::PubNonce as ::musig2::BinaryEncoding>::from_bytes(b).is_ok()
}

/// Relies on `secp::MaybeScalar::from_slice`: whether the bytes parse
/// as a scalar depends on the bytes alone.
#[verifier::external_body]
pub fn scalar_check(b: &Vec<u8>) -> (r: bool)
    ensures
        r == is_valid_scalar(b@),
{
    ::musig2::secp::MaybeScalar::from_slice(b).is_ok()
}

/// A copy of the vector with the element at `index` left out; an
/// out-of-range index leaves nothing out.
pub fn vec_removed<T: Copy>(vec: &Vec<T>, index: usize) -> (r: Vec<T>)
    ensures
        index < vec@.len() ==> r@ == vec@.subrange(0, index as int) + vec@.subrange(
            index as int + 1,
            vec@.len() as int,
        ),
        index >= vec@.len() ==> r@ == vec@,
{
    let n: usize = vec.len();
    let mut r: Vec<T> = Vec::new();
    let mut i: usize = 0;
    while i < n
        invariant
            i <= n,
            n == vec@.len(),
            i <= index ==> r@ == vec@.subrange(0, i as int),
            i > index ==> r@ == vec@.subrange(0, index as int) + vec@.subrange(
                index as int + 1,
                i as int,
            ),
        decreases n - i,
    {
        if i != index {
            r.push(vec[i]);
        }
        proof {
            if i < index {
                assert(vec@.subrange(0, i + 1) =~= vec@.subrange(0, i as int).push(
                    vec@[i as int],
                ));
            } else if i == index {
                assert(vec@.subrange(0, index as int) + vec@.subrange(
                    index as int + 1,
                    i + 1,
                ) =~= vec@.subrange(0, index as int));
            } else {
                assert(vec@.subrange(0, index as int) + vec@.subrange(index as int + 1, i + 1)
                    =~= (vec@.subrange(0, index as int) + vec@.subrange(
                    index as int + 1,
                    i as int,
                )).push(vec@[i as int]));
            }
        }
        i = i + 1;
    }
    proof {
        if index >= n {
            assert(vec@.subrange(0, n as int) =~= vec@);
        }
    }
    r
}

} // verus!
