//! ISO 7816 smartcard framing: command build and response parse.

use vstd::prelude::*;

use crate::error::ProtocolError;

verus! {

/// Bytes of a command frame: the four header bytes, then the data
/// field behind a short length when it fits one byte, behind an
/// extended three-byte length otherwise, and no length at all when
/// there is no data.
pub open spec fn spec_apdu(cla: u8, ins: u8, p1: u8, p2: u8, data: Seq<u8>) -> Seq<u8>
    recommends
        data.len() <= 0xffff,
{
    let header = seq![cla, ins, p1, p2];
    if data.len() == 0 {
        header
    } else if data.len() <= 255 {
        header + seq![data.len() as u8] + data
    } else {
        header + seq![0u8, (data.len() as u16 >> 8) as u8, (data.len() as u16 & 0xff) as u8]
            + data
    }
}

/// Builds one command frame field by field.
pub struct CommandBuilder {
    pub cla: u8,
    pub ins: u8,
    pub p1: u8,
    pub p2: u8,
    pub data: Vec<u8>,
}

impl CommandBuilder {
    /// A command with the given class and instruction, both parameter
    /// bytes zero and no data.
    pub fn new(cla: u8, ins: u8) -> (r: CommandBuilder)
        ensures
            r.cla == cla && r.ins == ins && r.p1 == 0 && r.p2 == 0 && r.data@ == Seq::<u8>::empty(),
    {
        CommandBuilder { cla, ins, p1: 0, p2: 0, data: Vec::new() }
    }

    /// Sets the first parameter byte.
    pub fn p1(self, v: u8) -> (r: CommandBuilder)
        ensures
            r == (CommandBuilder { p1: v, ..self }),
    {
        CommandBuilder { p1: v, ..self }
    }

    /// Sets the second parameter byte.
    pub fn p2(self, v: u8) -> (r: CommandBuilder)
        ensures
            r == (CommandBuilder { p2: v, ..self }),
    {
        CommandBuilder { p2: v, ..self }
    }

    /// Appends bytes to the data field.
    pub fn extend(self, more: &Vec<u8>) -> (r: CommandBuilder)
        ensures
            r.cla == self.cla && r.ins == self.ins && r.p1 == self.p1 && r.p2 == self.p2,
            r.data@ == self.data@ + more@,
    {
        let mut s = self;
        let n: usize = more.len();
        let mut i: usize = 0;
        while i < n
            invariant
                i <= n,
                n == more@.len(),
                s.cla == self.cla && s.ins == self.ins && s.p1 == self.p1 && s.p2 == self.p2,
                s.data@ == self.data@ + more@.subrange(0, i as int),
            decreases n - i,
        {
            s.data.push(more[i]);
            assert(more@.subrange(0, i + 1) =~= more@.subrange(0, i as int).push(more@[i as int]));
            i = i + 1;
        }
        assert(more@.subrange(0, n as int) =~= more@);
        s
    }

    /// Serializes the frame, exactly as [`spec_apdu`] describes it.
    pub fn build(self) -> (r: Vec<u8>)
        requires
            self.data@.len() <= 0xffff,
        ensures
            r@ == spec_apdu(self.cla, self.ins, self.p1, self.p2, self.data@),
    {
        let mut out: Vec<u8> = Vec::new();
        out.push(self.cla);
        out.push(self.ins);
        out.push(self.p1);
        out.push(self.p2);
        let n: usize = self.data.len();
        if n == 0 {
            assert(out@ =~= spec_apdu(self.cla, self.ins, self.p1, self.p2, self.data@));
            return out;
        }
        if n <= 255 {
            out.push(n as u8);
        } else {
            out.push(0);
            out.push(((n as u16) >> 8) as u8);
            out.push(((n as u16) & 0xff) as u8);
        }
        let ghost mid = out@;
        let mut i: usize = 0;
        while i < n
            invariant
                i <= n,
                n == self.data@.len(),
                out@ == mid + self.data@.subrange(0, i as int),
            decreases n - i,
        {
            out.push(self.data[i]);
            assert(self.data@.subrange(0, i + 1) =~= self.data@.subrange(0, i as int).push(
                self.data@[i as int],
            ));
            i = i + 1;
        }
        assert(self.data@.subrange(0, n as int) =~= self.data@);
        assert(out@ =~= spec_apdu(self.cla, self.ins, self.p1, self.p2, self.data@));
        out
    }
}

/// The 16-bit status word at the end of a response frame.
pub open spec fn spec_status(s: Seq<u8>) -> u16
    recommends
        s.len() >= 2,
{
    ((s[s.len() - 2] as u16) << 8) | (s[s.len() - 1] as u16)
}

/// The data field of a successful response frame: everything before a
/// status word of `0x9000`.
pub open spec fn spec_response_data(s: Seq<u8>) -> Option<Seq<u8>> {
    if s.len() >= 2 && spec_status(s) == 0x9000 {
        Some(s.subrange(0, s.len() - 2))
    } else {
        None
    }
}

/// Splits a response frame into its data field, failing with the
/// returned status word when the card reported anything but success.
pub fn parse_response(raw: &Vec<u8>) -> (r: Result<Vec<u8>, ProtocolError>)
    ensures
        raw@.len() < 2 ==> r == Err::<Vec<u8>, ProtocolError>(ProtocolError::MalformedEnvelope),
        raw@.len() >= 2 && spec_status(raw@) == 0x9000 ==> (r matches Ok(v) && v@ == raw@.subrange(
            0,
            raw@.len() - 2,
        )),
        raw@.len() >= 2 && spec_status(raw@) != 0x9000 ==> r == Err::<Vec<u8>, ProtocolError>(
            ProtocolError::CardError(spec_status(raw@)),
        ),
        r is Ok <==> spec_response_data(raw@) is Some,
        r matches Ok(v) ==> spec_response_data(raw@) == Some(v@),
{
    let len: usize = raw.len();
    if len < 2 {
        return Err(ProtocolError::MalformedEnvelope);
    }
    let status: u16 = ((raw[len - 2] as u16) << 8) | (raw[len - 1] as u16);
    if status != 0x9000 {
        return Err(ProtocolError::CardError(status));
    }
    let n = len - 2;
    let mut v: Vec<u8> = Vec::new();
    let mut i: usize = 0;
    while i < n
        invariant
            i <= n,
            n <= raw@.len(),
            v@ == raw@.subrange(0, i as int),
        decreases n - i,
    {
        v.push(raw[i]);
        assert(raw@.subrange(0, i + 1) =~= raw@.subrange(0, i as int).push(raw@[i as int]));
        i = i + 1;
    }
    Ok(v)
}

} // verus!
