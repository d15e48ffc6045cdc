//! Error kinds surfaced at the library boundary.

use vstd::prelude::*;

verus! {

/// Every failure the protocol core can report, distinguishable at the
/// host boundary.
#[derive(Clone, Copy, Debug, PartialEq, Eq, Structural)]
pub enum ProtocolError {
    /// A declared protocol kind does not match the handle's kind.
    WrongProtocol,
    /// A session-init record carries an impossible participant set.
    WrongSessionShape,
    /// A wire envelope or round payload could not be decoded.
    MalformedEnvelope,
    /// The underlying cryptographic round function rejected its inputs.
    CryptographicFailure,
    /// `advance` after the terminal round, or `finish` before it.
    OutOfSequence,
    /// The authenticated transport rejected its peer.
    TransportAuthFailed,
    /// A smartcard answered with a status other than success; the two
    /// status bytes accompany the kind.
    CardError(u16),
    /// A snapshot or group-context artifact was rejected.
    CodecInternal,
}

impl ProtocolError {
    /// Whether this error leaves the handle usable (`OutOfSequence`
    /// does not poison; every other kind does).
    pub open spec fn spec_poisons(self) -> bool {
        self !is OutOfSequence
    }

    /// Executable twin of [`ProtocolError::spec_poisons`].
    pub fn poisons(&self) -> (r: bool)
        ensures
            r == self.spec_poisons(),
    {
        !matches!(self, ProtocolError::OutOfSequence)
    }

    /// A short human-readable label for the error kind.
    pub fn describe(&self) -> (r: &'static str)
    {
        match self {
            ProtocolError::WrongProtocol => "wrong protocol type",
            ProtocolError::WrongSessionShape => "wrong session shape",
            ProtocolError::MalformedEnvelope => "malformed envelope",
            ProtocolError::CryptographicFailure => "cryptographic failure",
            ProtocolError::OutOfSequence => "out of sequence",
            ProtocolError::TransportAuthFailed => "transport authentication failed",
            ProtocolError::CardError(_) => "card error",
            ProtocolError::CodecInternal => "snapshot rejected",
        }
    }
}

/// Three snapshot bytes for an error: a code, then the card status
/// word (zero for every other kind).
pub open spec fn spec_enc_err(e: ProtocolError) -> Seq<u8> {
    match e {
        ProtocolError::WrongProtocol => seq![0u8, 0u8, 0u8],
        ProtocolError::WrongSessionShape => seq![1u8, 0u8, 0u8],
        ProtocolError::MalformedEnvelope => seq![2u8, 0u8, 0u8],
        ProtocolError::CryptographicFailure => seq![3u8, 0u8, 0u8],
        ProtocolError::OutOfSequence => seq![4u8, 0u8, 0u8],
        ProtocolError::TransportAuthFailed => seq![5u8, 0u8, 0u8],
        ProtocolError::CardError(s) => seq![6u8, (s & 0xff) as u8, (s >> 8) as u8],
        ProtocolError::CodecInternal => seq![7u8, 0u8, 0u8],
    }
}

/// Result of reading an error's three snapshot bytes at `pos`.
pub open spec fn spec_read_err(s: Seq<u8>, pos: int) -> Option<(ProtocolError, int)> {
    if 0 <= pos && pos + 3 <= s.len() {
        let code = s[pos];
        let status = (s[pos + 1] as u16) | ((s[pos + 2] as u16) << 8);
        let e: Option<ProtocolError> = if code == 0 {
            Some(ProtocolError::WrongProtocol)
        } else if code == 1 {
            Some(ProtocolError::WrongSessionShape)
        } else if code == 2 {
            Some(ProtocolError::MalformedEnvelope)
        } else if code == 3 {
            Some(ProtocolError::CryptographicFailure)
        } else if code == 4 {
            Some(ProtocolError::OutOfSequence)
        } else if code == 5 {
            Some(ProtocolError::TransportAuthFailed)
        } else if code == 6 {
            Some(ProtocolError::CardError(status))
        } else if code == 7 {
            Some(ProtocolError::CodecInternal)
        } else {
            None
        };
        match e {
            None => None,
            Some(e) => Some((e, pos + 3)),
        }
    } else {
        None
    }
}

/// Reading where an encoded error was laid down restores it.
pub proof fn lemma_read_err_of_enc(s: Seq<u8>, pos: int, e: ProtocolError)
    requires
        0 <= pos,
        pos + 3 <= s.len(),
        s.subrange(pos, pos + 3) == spec_enc_err(e),
    ensures
        spec_read_err(s, pos) == Some((e, pos + 3)),
{
    assert(s[pos] == spec_enc_err(e)[0]);
    assert(s[pos + 1] == spec_enc_err(e)[1]);
    assert(s[pos + 2] == spec_enc_err(e)[2]);
    if let ProtocolError::CardError(w) = e {
        assert(((w & 0xff) as u8 as u16) | (((w >> 8) as u8 as u16) << 8) == w) by (bit_vector);
    }
}

impl ProtocolError {
    /// Appends the three snapshot bytes of this error.
    pub fn push_err(&self, out: &mut Vec<u8>)
        ensures
            final(out)@ == old(out)@ + spec_enc_err(*self),
    {
        match self {
            ProtocolError::WrongProtocol => {
                out.push(0);
                out.push(0);
                out.push(0);
            },
            ProtocolError::WrongSessionShape => {
                out.push(1);
                out.push(0);
                out.push(0);
            },
            ProtocolError::MalformedEnvelope => {
                out.push(2);
                out.push(0);
                out.push(0);
            },
            ProtocolError::CryptographicFailure => {
                out.push(3);
                out.push(0);
                out.push(0);
            },
            ProtocolError::OutOfSequence => {
                out.push(4);
                out.push(0);
                out.push(0);
            },
            ProtocolError::TransportAuthFailed => {
                out.push(5);
                out.push(0);
                out.push(0);
            },
            ProtocolError::CardError(s) => {
                out.push(6);
                out.push((*s & 0xff) as u8);
                out.push((*s >> 8) as u8);
            },
            ProtocolError::CodecInternal => {
                out.push(7);
                out.push(0);
                out.push(0);
            },
        }
        assert(final(out)@ =~= old(out)@ + spec_enc_err(*self));
    }

    /// Reads an error's three snapshot bytes, exactly as
    /// [`spec_read_err`] describes it.
    pub fn read_err(data: &Vec<u8>, pos: usize) -> (r: Option<(ProtocolError, usize)>)
        ensures
            r is Some <==> spec_read_err(data@, pos as int) is Some,
            r matches Some((e, p)) ==> spec_read_err(data@, pos as int) == Some((e, p as int)),
    {
        let len: usize = data.len();
        if pos > len || len - pos < 3 {
            return None;
        }
        let code = data[pos];
        let status: u16 = (data[pos + 1] as u16) | ((data[pos + 2] as u16) << 8);
        let e = if code == 0 {
            ProtocolError::WrongProtocol
        } else if code == 1 {
            ProtocolError::WrongSessionShape
        } else if code == 2 {
            ProtocolError::MalformedEnvelope
        } else if code == 3 {
            ProtocolError::CryptographicFailure
        } else if code == 4 {
            ProtocolError::OutOfSequence
        } else if code == 5 {
            ProtocolError::TransportAuthFailed
        } else if code == 6 {
            ProtocolError::CardError(status)
        } else if code == 7 {
            ProtocolError::CodecInternal
        } else {
            return None;
        };
        Some((e, pos + 3))
    }
}

} // verus!
