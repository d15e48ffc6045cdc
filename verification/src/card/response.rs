//! Parsing of the card's response frames.
//!
//! Every function splits the frame with [`parse_response`], so a
//! frame shorter than a status word is malformed and a status other
//! than success carries the card's two status bytes out in
//! [`ProtocolError::CardError`].

use vstd::prelude::*;

use crate::apdu::{parse_response, spec_response_data, spec_status};
use crate::card::{
    is_valid_point, is_valid_pubnonce, is_valid_scalar, pubnonce_check, reencode_point,
    reencoded_point, scalar_check,
};
use crate::error::ProtocolError;

verus! {

/// The frame's data field is absent: too short, or a failure status.
pub open spec fn frame_error(raw: Seq<u8>) -> ProtocolError {
    if raw.len() < 2 {
        ProtocolError::MalformedEnvelope
    } else {
        ProtocolError::CardError(spec_status(raw))
    }
}

/// Acknowledges key generation; the response carries no data that
/// matters.
pub fn keygen(raw: &Vec<u8>) -> (r: Result<(), ProtocolError>)
    ensures
        r is Ok <==> spec_response_data(raw@) is Some,
        r matches Err(e) ==> e == frame_error(raw@),
{
    match parse_response(raw) {
        Ok(_) => Ok(()),
        Err(e) => Err(e),
    }
}

/// The card's public key, re-encoded uncompressed.  Succeeds exactly
/// on a success status whose data field is a valid point encoding.
pub fn get_plain_pubkey(raw: &Vec<u8>) -> (r: Result<Vec<u8>, ProtocolError>)
    ensures
        r is Ok <==> (spec_response_data(raw@) matches Some(d) && is_valid_point(d)),
        r matches Ok(v) ==> spec_response_data(raw@) matches Some(d) && v@ == reencoded_point(
            d,
            false,
        ),
        spec_response_data(raw@) is None ==> r == Err::<Vec<u8>, ProtocolError>(frame_error(raw@)),
        spec_response_data(raw@) matches Some(d) && !is_valid_point(d) ==> r == Err::<
            Vec<u8>,
            ProtocolError,
        >(ProtocolError::CryptographicFailure),
{
    let data = match parse_response(raw) {
        Err(e) => {
            return Err(e);
        },
        Ok(d) => d,
    };
    reencode_point(&data, false)
}

/// Acknowledges the aggregate public key.
pub fn set_aggpubkey(raw: &Vec<u8>) -> (r: Result<(), ProtocolError>)
    ensures
        r is Ok <==> spec_response_data(raw@) is Some,
        r matches Err(e) ==> e == frame_error(raw@),
{
    match parse_response(raw) {
        Ok(_) => Ok(()),
        Err(e) => Err(e),
    }
}

/// Acknowledges nonce generation.
pub fn noncegen(raw: &Vec<u8>) -> (r: Result<(), ProtocolError>)
    ensures
        r is Ok <==> spec_response_data(raw@) is Some,
        r matches Err(e) ==> e == frame_error(raw@),
{
    match parse_response(raw) {
        Ok(_) => Ok(()),
        Err(e) => Err(e),
    }
}

/// The card's public nonce share.  Succeeds exactly on a success
/// status whose data field parses as a public nonce, and returns that
/// field unchanged.
pub fn get_pubnonce(raw: &Vec<u8>) -> (r: Result<Vec<u8>, ProtocolError>)
    ensures
        r is Ok <==> (spec_response_data(raw@) matches Some(d) && is_valid_pubnonce(d)),
        r matches Ok(v) ==> spec_response_data(raw@) == Some(v@),
        spec_response_data(raw@) is None ==> r == Err::<Vec<u8>, ProtocolError>(frame_error(raw@)),
        spec_response_data(raw@) matches Some(d) && !is_valid_pubnonce(d) ==> r == Err::<
            Vec<u8>,
            ProtocolError,
        >(ProtocolError::CryptographicFailure),
{
    let data = match parse_response(raw) {
        Err(e) => {
            return Err(e);
        },
        Ok(d) => d,
    };
    if !pubnonce_check(&data) {
        return Err(ProtocolError::CryptographicFailure);
    }
    Ok(data)
}

/// Acknowledges the aggregate nonce.
pub fn set_agg_nonces(raw: &Vec<u8>) -> (r: Result<(), ProtocolError>)
    ensures
        r is Ok <==> spec_response_data(raw@) is Some,
        r matches Err(e) ==> e == frame_error(raw@),
{
    match parse_response(raw) {
        Ok(_) => Ok(()),
        Err(e) => Err(e),
    }
}

/// The card's partial signature.  Succeeds exactly on a success
/// status whose data field parses as a scalar, and returns that field
/// unchanged.
pub fn sign(raw: &Vec<u8>) -> (r: Result<Vec<u8>, ProtocolError>)
    ensures
        r is Ok <==> (spec_response_data(raw@) matches Some(d) && is_valid_scalar(d)),
        r matches Ok(v) ==> spec_response_data(raw@) == Some(v@),
        spec_response_data(raw@) is None ==> r == Err::<Vec<u8>, ProtocolError>(frame_error(raw@)),
        spec_response_data(raw@) matches Some(d) && !is_valid_scalar(d) ==> r == Err::<
            Vec<u8>,
            ProtocolError,
        >(ProtocolError::CryptographicFailure),
{
    let data = match parse_response(raw) {
        Err(e) => {
            return Err(e);
        },
        Ok(d) => d,
    };
    if !scalar_check(&data) {
        return Err(ProtocolError::CryptographicFailure);
    }
    Ok(data)
}

} // verus!
