//! Command frames sent to a card that holds a MuSig2 share.

use vstd::prelude::*;

use crate::apdu::{spec_apdu, CommandBuilder};
use crate::card::{is_valid_point, reencode_point, reencoded_point};
use crate::error::ProtocolError;

verus! {

/// Orders the card to generate its key pair.
pub fn keygen() -> (r: Vec<u8>)
    ensures
        r@ == spec_apdu(0xa6, 0xbb, 0, 0, Seq::empty()),
{
    CommandBuilder::new(0xa6, 0xbb).build()
}

/// Asks the card for its plain public key.
pub fn get_plain_pubkey() -> (r: Vec<u8>)
    ensures
        r@ == spec_apdu(0xa6, 0x5a, 0, 0, Seq::empty()),
{
    CommandBuilder::new(0xa6, 0x5a).build()
}

/// The 32-byte block that carries one accumulator byte in its last
/// position.
pub open spec fn acc_block(v: u8) -> Seq<u8> {
    Seq::new(32, |i: int| if i == 31 { v } else { 0u8 })
}

/// Loads the aggregate public key, the two accumulators and this
/// signer's key coefficient onto the card.  The key travels
/// compressed; an invalid key encoding is the one failure.
pub fn set_aggpubkey(aggkey: &Vec<u8>, gacc: u8, tacc: u8, coef_a: &Vec<u8>) -> (r: Result<
    Vec<u8>,
    ProtocolError,
>)
    requires
        coef_a@.len() == 32,
    ensures
        r is Ok <==> is_valid_point(aggkey@),
        r matches Err(e) ==> e == ProtocolError::CryptographicFailure,
        r matches Ok(v) ==> v@ == spec_apdu(
            0xa6,
            0x76,
            0,
            0,
            reencoded_point(aggkey@, true) + acc_block(gacc) + acc_block(tacc) + coef_a@,
        ),
{
    let point = match reencode_point(aggkey, true) {
        Err(e) => {
            return Err(e);
        },
        Ok(p) => p,
    };
    let mut gacc_block: Vec<u8> = Vec::new();
    let mut tacc_block: Vec<u8> = Vec::new();
    let mut i: usize = 0;
    while i < 31
        invariant
            i <= 31,
            gacc_block@ == acc_block(gacc).subrange(0, i as int),
            tacc_block@ == acc_block(tacc).subrange(0, i as int),
        decreases 31 - i,
    {
        gacc_block.push(0);
        tacc_block.push(0);
        proof {
            assert(acc_block(gacc).subrange(0, i + 1) =~= acc_block(gacc).subrange(
                0,
                i as int,
            ).push(0u8));
            assert(acc_block(tacc).subrange(0, i + 1) =~= acc_block(tacc).subrange(
                0,
                i as int,
            ).push(0u8));
        }
        i = i + 1;
    }
    gacc_block.push(gacc);
    tacc_block.push(tacc);
    proof {
        assert(gacc_block@ =~= acc_block(gacc));
        assert(tacc_block@ =~= acc_block(tacc));
    }
    let cmd = CommandBuilder::new(0xa6, 0x76).extend(&point).extend(&gacc_block).extend(
        &tacc_block,
    ).extend(coef_a);
    proof {
        assert(cmd.data@ =~= reencoded_point(aggkey@, true) + acc_block(gacc) + acc_block(tacc)
            + coef_a@);
    }
    Ok(cmd.build())
}

/// Orders the card to generate its nonce pair.
pub fn noncegen() -> (r: Vec<u8>)
    ensures
        r@ == spec_apdu(0xa6, 0x5e, 0, 0, Seq::empty()),
{
    CommandBuilder::new(0xa6, 0x5e).build()
}

/// Asks the card for its public nonce share.
pub fn get_pubnonce() -> (r: Vec<u8>)
    ensures
        r@ == spec_apdu(0xa6, 0x35, 0, 0, Seq::empty()),
{
    CommandBuilder::new(0xa6, 0x35).build()
}

/// Loads the aggregate nonce onto the card, re-encoded compressed; an
/// invalid point encoding is the one failure.
pub fn set_agg_nonces(aggnonce: &Vec<u8>) -> (r: Result<Vec<u8>, ProtocolError>)
    ensures
        r is Ok <==> is_valid_point(aggnonce@),
        r matches Err(e) ==> e == ProtocolError::CryptographicFailure,
        r matches Ok(v) ==> v@ == spec_apdu(
            0xa6,
            0x9a,
            0,
            0,
            reencoded_point(aggnonce@, true),
        ),
{
    let point = match reencode_point(aggnonce, true) {
        Err(e) => {
            return Err(e);
        },
        Ok(p) => p,
    };
    Ok(CommandBuilder::new(0xa6, 0x9a).extend(&point).build())
}

/// Orders the card to sign the message with its nonce and key share.
pub fn sign(message: &Vec<u8>) -> (r: Vec<u8>)
    requires
        message@.len() <= 0xffff,
    ensures
        r@ == spec_apdu(0xa6, 0x49, 0, 0, message@),
{
    CommandBuilder::new(0xa6, 0x49).extend(message).build()
}

} // verus!
