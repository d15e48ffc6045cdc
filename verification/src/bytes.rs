//! Length-delimited binary primitives shared by every codec of the
//! library: wire envelopes, session-init records, group-context
//! artifacts and engine snapshots are all written with the helpers
//! below, so one set of round-trip lemmas serves them all.
//!
//! The building blocks are a little-endian 32-bit integer, a chunk
//! (an integer length followed by that many raw bytes) and three
//! repeated forms: a list of chunks, a list of integers and a list of
//! integer-keyed chunks.

use vstd::prelude::*;

verus! {

/// Largest byte string a chunk can carry.
pub open spec fn chunk_wf(b: Seq<u8>) -> bool {
    b.len() <= 0xffff_ffff
}

/// Little-endian encoding of a 32-bit integer.
pub open spec fn spec_u32_le(x: u32) -> Seq<u8> {
    seq![
        (x & 0xff) as u8,
        ((x >> 8) & 0xff) as u8,
        ((x >> 16) & 0xff) as u8,
        ((x >> 24) & 0xff) as u8,
    ]
}

/// The integer a little-endian 4-byte string stands for.
pub open spec fn spec_u32_of_le(b: Seq<u8>) -> u32
    recommends
        b.len() == 4,
{
    (b[0] as u32) | ((b[1] as u32) << 8) | ((b[2] as u32) << 16) | ((b[3] as u32) << 24)
}

/// Reading back the four bytes of an encoded integer restores it.
pub proof fn lemma_u32_le_round_trip(x: u32)
    ensures
        spec_u32_of_le(spec_u32_le(x)) == x,
{
    assert(((x & 0xff) as u8 as u32) | (((x >> 8) & 0xff) as u8 as u32) << 8 | (((x >> 16)
        & 0xff) as u8 as u32) << 16 | (((x >> 24) & 0xff) as u8 as u32) << 24 == x)
        by (bit_vector);
}

/// Appends the little-endian encoding of `x`.
pub fn push_u32_le(out: &mut Vec<u8>, x: u32)
    ensures
        final(out)@ == old(out)@ + spec_u32_le(x),
{
    out.push((x & 0xff) as u8);
    out.push(((x >> 8) & 0xff) as u8);
    out.push(((x >> 16) & 0xff) as u8);
    out.push(((x >> 24) & 0xff) as u8);
    assert(final(out)@ =~= old(out)@ + spec_u32_le(x));
}

/// Reads the integer whose four bytes start at `pos`.
pub fn read_u32_le(data: &Vec<u8>, pos: usize) -> (r: u32)
    requires
        pos + 4 <= data@.len(),
    ensures
        r == spec_u32_of_le(data@.subrange(pos as int, pos as int + 4)),
{
    let n: usize = data.len();
    assert(pos + 4 <= n);
    let b0 = data[pos];
    let b1 = data[pos + 1];
    let b2 = data[pos + 2];
    let b3 = data[pos + 3];
    (b0 as u32) | ((b1 as u32) << 8) | ((b2 as u32) << 16) | ((b3 as u32) << 24)
}

/// A chunk: the length of the byte string, then the bytes themselves.
pub open spec fn spec_chunk(b: Seq<u8>) -> Seq<u8>
    recommends
        chunk_wf(b),
{
    spec_u32_le(b.len() as u32) + b
}

/// Result of reading a chunk that starts at `pos`: the carried bytes
/// and the position just past them, or nothing when `s` is too short.
pub open spec fn spec_read_chunk(s: Seq<u8>, pos: int) -> Option<(Seq<u8>, int)> {
    if 0 <= pos && pos + 4 <= s.len() {
        let n = spec_u32_of_le(s.subrange(pos, pos + 4)) as int;
        if pos + 4 + n <= s.len() {
            Some((s.subrange(pos + 4, pos + 4 + n), pos + 4 + n))
        } else {
            None
        }
    } else {
        None
    }
}

/// Reading at the start of an encoded chunk restores the carried bytes.
pub proof fn lemma_read_chunk_of_enc(s: Seq<u8>, pos: int, b: Seq<u8>)
    requires
        chunk_wf(b),
        0 <= pos,
        pos + 4 + b.len() <= s.len(),
        s.subrange(pos, pos + 4 + b.len()) == spec_chunk(b),
    ensures
        spec_read_chunk(s, pos) == Some((b, pos + 4 + b.len())),
{
    let whole = s.subrange(pos, pos + 4 + b.len());
    assert(s.subrange(pos, pos + 4) =~= whole.subrange(0, 4));
    assert(whole.subrange(0, 4) =~= spec_u32_le(b.len() as u32));
    lemma_u32_le_round_trip(b.len() as u32);
    assert(s.subrange(pos + 4, pos + 4 + b.len()) =~= whole.subrange(4, 4 + b.len() as int));
    assert(whole.subrange(4, 4 + b.len() as int) =~= b);
}

/// Appends the bytes of `b` as one chunk.
pub fn push_chunk(out: &mut Vec<u8>, b: &Vec<u8>)
    requires
        chunk_wf(b@),
    ensures
        final(out)@ == old(out)@ + spec_chunk(b@),
{
    push_u32_le(out, b.len() as u32);
    let n: usize = b.len();
    let mut i: usize = 0;
    while i < n
        invariant
            i <= n,
            n == b@.len(),
            out@ == old(out)@ + spec_u32_le(b@.len() as u32) + b@.subrange(0, i as int),
        decreases n - i,
    {
        out.push(b[i]);
        assert(b@.subrange(0, i + 1) =~= b@.subrange(0, i as int).push(b@[i as int]));
        i = i + 1;
    }
    assert(b@.subrange(0, n as int) =~= b@);
    assert(final(out)@ =~= old(out)@ + spec_chunk(b@));
}

/// Reads the chunk that starts at `pos`, exactly as
/// [`spec_read_chunk`] describes it.
pub fn read_chunk(data: &Vec<u8>, pos: usize) -> (r: Option<(Vec<u8>, usize)>)
    ensures
        r is Some <==> spec_read_chunk(data@, pos as int) is Some,
        r matches Some((v, p)) ==> spec_read_chunk(data@, pos as int) == Some((v@, p as int)),
{
    let len: usize = data.len();
    if pos > len || len - pos < 4 {
        return None;
    }
    let n32 = read_u32_le(data, pos);
    let n = n32 as usize;
    let start = pos + 4;
    if len - start < n {
        return None;
    }
    let mut v: Vec<u8> = Vec::new();
    let mut i: usize = 0;
    while i < n
        invariant
            i <= n,
            len == data@.len(),
            start + n <= len,
            v@ == data@.subrange(start as int, start as int + i),
        decreases n - i,
    {
        v.push(data[start + i]);
        assert(data@.subrange(start as int, start as int + i + 1) =~= data@.subrange(
            start as int,
            start as int + i,
        ).push(data@[start + i]));
        i = i + 1;
    }
    Some((v, start + n))
}

/// A subrange that lies wholly within the tail of a concatenation is
/// a subrange of the tail.
pub proof fn lemma_subrange_in_tail(prefix: Seq<u8>, tail: Seq<u8>, a: int, b: int)
    requires
        prefix.len() <= a <= b <= prefix.len() + tail.len(),
    ensures
        (prefix + tail).subrange(a, b) == tail.subrange(a - prefix.len(), b - prefix.len()),
{
    assert((prefix + tail).subrange(a, b) =~= tail.subrange(a - prefix.len(), b - prefix.len()));
}

/// A subrange that lies wholly within the prefix of a concatenation
/// is a subrange of the prefix.
pub proof fn lemma_subrange_in_prefix(prefix: Seq<u8>, tail: Seq<u8>, a: int, b: int)
    requires
        0 <= a <= b <= prefix.len(),
    ensures
        (prefix + tail).subrange(a, b) == prefix.subrange(a, b),
{
    assert((prefix + tail).subrange(a, b) =~= prefix.subrange(a, b));
}

/// An index that lies within the tail of a concatenation reads the
/// tail.
pub proof fn lemma_index_in_tail(prefix: Seq<u8>, tail: Seq<u8>, i: int)
    requires
        prefix.len() <= i < prefix.len() + tail.len(),
    ensures
        (prefix + tail)[i] == tail[i - prefix.len()],
{
}

/// The bytes of `data` from `pos` to the end, as a fresh vector.
pub fn tail_from(data: &Vec<u8>, pos: usize) -> (r: Vec<u8>)
    requires
        pos <= data@.len(),
    ensures
        r@ == data@.subrange(pos as int, data@.len() as int),
{
    let len: usize = data.len();
    let mut r: Vec<u8> = Vec::new();
    let mut i: usize = pos;
    while i < len
        invariant
            pos <= i <= len,
            len == data@.len(),
            r@ == data@.subrange(pos as int, i as int),
        decreases len - i,
    {
        r.push(data[i]);
        assert(data@.subrange(pos as int, i + 1) =~= data@.subrange(pos as int, i as int).push(
            data@[i as int],
        ));
        i = i + 1;
    }
    r
}

/// The byte-string sequence a `Vec` of byte vectors stands for.
pub open spec fn blobs_view(v: Seq<Vec<u8>>) -> Seq<Seq<u8>> {
    v.map_values(|x: Vec<u8>| x@)
}

pub proof fn lemma_blobs_view_push(v: Seq<Vec<u8>>, x: Vec<u8>)
    ensures
        blobs_view(v.push(x)) == blobs_view(v).push(x@),
{
    assert(blobs_view(v.push(x)) =~= blobs_view(v).push(x@));
}

/// Every chunk of the list fits its length prefix, and the list fits
/// its count prefix.
pub open spec fn chunk_list_wf(l: Seq<Seq<u8>>) -> bool {
    &&& l.len() <= 0xffff_ffff
    &&& forall|i: int| 0 <= i < l.len() ==> chunk_wf(#[trigger] l[i])
}

/// Concatenation of the chunks of `l`, in order.
pub open spec fn spec_chunks(l: Seq<Seq<u8>>) -> Seq<u8>
    decreases l.len(),
{
    if l.len() == 0 {
        Seq::empty()
    } else {
        spec_chunk(l[0]) + spec_chunks(l.drop_first())
    }
}

/// A chunk list: the count, then each chunk in order.
pub open spec fn spec_chunk_list(l: Seq<Seq<u8>>) -> Seq<u8>
    recommends
        chunk_list_wf(l),
{
    spec_u32_le(l.len() as u32) + spec_chunks(l)
}

pub proof fn lemma_chunks_snoc(l: Seq<Seq<u8>>, b: Seq<u8>)
    ensures
        spec_chunks(l.push(b)) == spec_chunks(l) + spec_chunk(b),
    decreases l.len(),
{
    assert(l.push(b)[0] == if l.len() == 0 { b } else { l[0] });
    if l.len() == 0 {
        assert(l.push(b).drop_first() =~= Seq::<Seq<u8>>::empty());
        assert(spec_chunks(l.push(b)) == spec_chunk(b) + spec_chunks(Seq::<Seq<u8>>::empty()));
        assert(spec_chunks(l.push(b)) =~= spec_chunks(l) + spec_chunk(b));
    } else {
        lemma_chunks_snoc(l.drop_first(), b);
        assert(l.push(b).drop_first() =~= l.drop_first().push(b));
        assert(spec_chunks(l.push(b)) == spec_chunk(l[0]) + (spec_chunks(l.drop_first())
            + spec_chunk(b)));
        assert(spec_chunks(l.push(b)) =~= spec_chunks(l) + spec_chunk(b));
    }
}

/// Result of reading `n` chunks one after the other from `pos`.
pub open spec fn spec_read_chunks(s: Seq<u8>, pos: int, n: nat) -> Option<(Seq<Seq<u8>>, int)>
    decreases n,
{
    if n == 0 {
        Some((Seq::empty(), pos))
    } else {
        match spec_read_chunk(s, pos) {
            None => None,
            Some((b, p)) => match spec_read_chunks(s, p, (n - 1) as nat) {
                None => None,
                Some((l, q)) => Some((seq![b] + l, q)),
            },
        }
    }
}

/// Result of reading a whole chunk list that starts at `pos`.
pub open spec fn spec_read_chunk_list(s: Seq<u8>, pos: int) -> Option<(Seq<Seq<u8>>, int)> {
    if 0 <= pos && pos + 4 <= s.len() {
        spec_read_chunks(s, pos + 4, spec_u32_of_le(s.subrange(pos, pos + 4)) as nat)
    } else {
        None
    }
}

/// Reading where encoded chunks were laid down restores them all.
pub proof fn lemma_read_chunks_of_enc(s: Seq<u8>, pos: int, l: Seq<Seq<u8>>)
    requires
        chunk_list_wf(l),
        0 <= pos,
        pos + spec_chunks(l).len() <= s.len(),
        s.subrange(pos, pos + spec_chunks(l).len()) == spec_chunks(l),
    ensures
        spec_read_chunks(s, pos, l.len()) == Some((l, pos + spec_chunks(l).len())),
    decreases l.len(),
{
    if l.len() == 0 {
        assert(l =~= Seq::<Seq<u8>>::empty());
    } else {
        let b = l[0];
        let rest = l.drop_first();
        let blen = 4 + b.len() as int;
        assert(spec_chunks(l) == spec_chunk(b) + spec_chunks(rest));
        assert(spec_chunk(b).len() == blen);
        let total = spec_chunks(l).len() as int;
        assert(s.subrange(pos, pos + blen) =~= s.subrange(pos, pos + total).subrange(0, blen));
        assert(s.subrange(pos, pos + total).subrange(0, blen) =~= spec_chunk(b));
        lemma_read_chunk_of_enc(s, pos, b);
        assert(s.subrange(pos + blen, pos + blen + spec_chunks(rest).len()) =~= s.subrange(
            pos,
            pos + total,
        ).subrange(blen, total));
        assert(s.subrange(pos, pos + total).subrange(blen, total) =~= spec_chunks(rest));
        assert(forall|i: int| 0 <= i < rest.len() ==> chunk_wf(#[trigger] rest[i]));
        lemma_read_chunks_of_enc(s, pos + blen, rest);
        assert(seq![b] + rest =~= l);
    }
}

/// The whole encoded chunk list decodes back to the list itself.
pub proof fn lemma_read_chunk_list_of_enc(s: Seq<u8>, pos: int, l: Seq<Seq<u8>>)
    requires
        chunk_list_wf(l),
        0 <= pos,
        pos + spec_chunk_list(l).len() <= s.len(),
        s.subrange(pos, pos + spec_chunk_list(l).len()) == spec_chunk_list(l),
    ensures
        spec_read_chunk_list(s, pos) == Some((l, pos + spec_chunk_list(l).len())),
{
    let total = spec_chunk_list(l).len() as int;
    assert(s.subrange(pos, pos + 4) =~= s.subrange(pos, pos + total).subrange(0, 4));
    assert(s.subrange(pos, pos + total).subrange(0, 4) =~= spec_u32_le(l.len() as u32));
    lemma_u32_le_round_trip(l.len() as u32);
    assert(s.subrange(pos + 4, pos + 4 + spec_chunks(l).len()) =~= s.subrange(
        pos,
        pos + total,
    ).subrange(4, total));
    assert(s.subrange(pos, pos + total).subrange(4, total) =~= spec_chunks(l));
    lemma_read_chunks_of_enc(s, pos + 4, l);
}

/// Appends every byte vector of `l` as a counted chunk list.
pub fn push_chunk_list(out: &mut Vec<u8>, l: &Vec<Vec<u8>>)
    requires
        chunk_list_wf(blobs_view(l@)),
    ensures
        final(out)@ == old(out)@ + spec_chunk_list(blobs_view(l@)),
{
    let n: usize = l.len();
    push_u32_le(out, n as u32);
    let mut i: usize = 0;
    while i < n
        invariant
            i <= n,
            n == l@.len(),
            chunk_list_wf(blobs_view(l@)),
            out@ == old(out)@ + spec_u32_le(n as u32) + spec_chunks(blobs_view(l@).subrange(0, i as int)),
        decreases n - i,
    {
        assert(chunk_wf(blobs_view(l@)[i as int]));
        push_chunk(out, &l[i]);
        proof {
            lemma_chunks_snoc(blobs_view(l@).subrange(0, i as int), l@[i as int]@);
            assert(blobs_view(l@).subrange(0, i + 1) =~= blobs_view(l@).subrange(0, i as int).push(
                l@[i as int]@,
            ));
        }
        i = i + 1;
    }
    assert(blobs_view(l@).subrange(0, n as int) =~= blobs_view(l@));
    assert(final(out)@ =~= old(out)@ + spec_chunk_list(blobs_view(l@)));
}

/// Reads a counted chunk list, exactly as [`spec_read_chunk_list`]
/// describes it.
pub fn read_chunk_list(data: &Vec<u8>, pos: usize) -> (r: Option<(Vec<Vec<u8>>, usize)>)
    ensures
        r is Some <==> spec_read_chunk_list(data@, pos as int) is Some,
        r matches Some((v, p)) ==> spec_read_chunk_list(data@, pos as int) == Some(
            (blobs_view(v@), p as int),
        ),
{
    let len: usize = data.len();
    if pos > len || len - pos < 4 {
        return None;
    }
    let n32 = read_u32_le(data, pos);
    let start = pos + 4;
    let ghost n0: nat = n32 as nat;
    let mut acc: Vec<Vec<u8>> = Vec::new();
    let mut cur: usize = start;
    let mut i: u32 = 0;
    while i < n32
        invariant
            i <= n32,
            cur <= data@.len(),
            spec_read_chunk_list(data@, pos as int) == (match spec_read_chunks(
                data@,
                cur as int,
                (n32 - i) as nat,
            ) {
                None => None::<(Seq<Seq<u8>>, int)>,
                Some((l, p)) => Some((blobs_view(acc@) + l, p)),
            }),
        decreases n32 - i,
    {
        match read_chunk(data, cur) {
            None => {
                return None;
            },
            Some((v, p)) => {
                proof {
                    lemma_blobs_view_push(acc@, v);
                    let rest = spec_read_chunks(data@, p as int, (n32 - i - 1) as nat);
                    if rest is Some {
                        assert(blobs_view(acc@) + (seq![v@] + rest->Some_0.0) =~= blobs_view(
                            acc@,
                        ).push(v@) + rest->Some_0.0);
                    }
                }
                acc.push(v);
                cur = p;
            },
        }
        i = i + 1;
    }
    assert(blobs_view(acc@) + Seq::<Seq<u8>>::empty() =~= blobs_view(acc@));
    Some((acc, cur))
}

/// Result of reading one integer at `pos`.
pub open spec fn spec_read_u32(s: Seq<u8>, pos: int) -> Option<(u32, int)> {
    if 0 <= pos && pos + 4 <= s.len() {
        Some((spec_u32_of_le(s.subrange(pos, pos + 4)), pos + 4))
    } else {
        None
    }
}

pub proof fn lemma_read_u32_of_enc(s: Seq<u8>, pos: int, x: u32)
    requires
        0 <= pos,
        pos + 4 <= s.len(),
        s.subrange(pos, pos + 4) == spec_u32_le(x),
    ensures
        spec_read_u32(s, pos) == Some((x, pos + 4)),
{
    lemma_u32_le_round_trip(x);
}

/// Concatenation of the encodings of the integers of `l`, in order.
pub open spec fn spec_u32s(l: Seq<u32>) -> Seq<u8>
    decreases l.len(),
{
    if l.len() == 0 {
        Seq::empty()
    } else {
        spec_u32_le(l[0]) + spec_u32s(l.drop_first())
    }
}

/// An integer list: the count, then each integer in order.
pub open spec fn spec_u32_list(l: Seq<u32>) -> Seq<u8>
    recommends
        l.len() <= 0xffff_ffff,
{
    spec_u32_le(l.len() as u32) + spec_u32s(l)
}

pub proof fn lemma_u32s_snoc(l: Seq<u32>, x: u32)
    ensures
        spec_u32s(l.push(x)) == spec_u32s(l) + spec_u32_le(x),
    decreases l.len(),
{
    assert(l.push(x)[0] == if l.len() == 0 { x } else { l[0] });
    if l.len() == 0 {
        assert(l.push(x).drop_first() =~= Seq::<u32>::empty());
        assert(spec_u32s(l.push(x)) == spec_u32_le(x) + spec_u32s(Seq::<u32>::empty()));
        assert(spec_u32s(l.push(x)) =~= spec_u32s(l) + spec_u32_le(x));
    } else {
        lemma_u32s_snoc(l.drop_first(), x);
        assert(l.push(x).drop_first() =~= l.drop_first().push(x));
        assert(spec_u32s(l.push(x)) == spec_u32_le(l[0]) + (spec_u32s(l.drop_first())
            + spec_u32_le(x)));
        assert(spec_u32s(l.push(x)) =~= spec_u32s(l) + spec_u32_le(x));
    }
}

/// Result of reading `n` integers one after the other from `pos`.
pub open spec fn spec_read_u32s(s: Seq<u8>, pos: int, n: nat) -> Option<(Seq<u32>, int)>
    decreases n,
{
    if n == 0 {
        Some((Seq::empty(), pos))
    } else {
        match spec_read_u32(s, pos) {
            None => None,
            Some((x, p)) => match spec_read_u32s(s, p, (n - 1) as nat) {
                None => None,
                Some((l, q)) => Some((seq![x] + l, q)),
            },
        }
    }
}

/// Result of reading a whole integer list that starts at `pos`.
pub open spec fn spec_read_u32_list(s: Seq<u8>, pos: int) -> Option<(Seq<u32>, int)> {
    if 0 <= pos && pos + 4 <= s.len() {
        spec_read_u32s(s, pos + 4, spec_u32_of_le(s.subrange(pos, pos + 4)) as nat)
    } else {
        None
    }
}

pub proof fn lemma_read_u32s_of_enc(s: Seq<u8>, pos: int, l: Seq<u32>)
    requires
        0 <= pos,
        pos + spec_u32s(l).len() <= s.len(),
        s.subrange(pos, pos + spec_u32s(l).len()) == spec_u32s(l),
    ensures
        spec_read_u32s(s, pos, l.len()) == Some((l, pos + spec_u32s(l).len())),
    decreases l.len(),
{
    if l.len() == 0 {
        assert(l =~= Seq::<u32>::empty());
    } else {
        let x = l[0];
        let rest = l.drop_first();
        let total = spec_u32s(l).len() as int;
        assert(spec_u32s(l) == spec_u32_le(x) + spec_u32s(rest));
        assert(s.subrange(pos, pos + 4) =~= s.subrange(pos, pos + total).subrange(0, 4));
        assert(s.subrange(pos, pos + total).subrange(0, 4) =~= spec_u32_le(x));
        lemma_read_u32_of_enc(s, pos, x);
        assert(s.subrange(pos + 4, pos + 4 + spec_u32s(rest).len()) =~= s.subrange(
            pos,
            pos + total,
        ).subrange(4, total));
        assert(s.subrange(pos, pos + total).subrange(4, total) =~= spec_u32s(rest));
        lemma_read_u32s_of_enc(s, pos + 4, rest);
        assert(seq![x] + rest =~= l);
    }
}

/// The whole encoded integer list decodes back to the list itself.
pub proof fn lemma_read_u32_list_of_enc(s: Seq<u8>, pos: int, l: Seq<u32>)
    requires
        l.len() <= 0xffff_ffff,
        0 <= pos,
        pos + spec_u32_list(l).len() <= s.len(),
        s.subrange(pos, pos + spec_u32_list(l).len()) == spec_u32_list(l),
    ensures
        spec_read_u32_list(s, pos) == Some((l, pos + spec_u32_list(l).len())),
{
    let total = spec_u32_list(l).len() as int;
    assert(s.subrange(pos, pos + 4) =~= s.subrange(pos, pos + total).subrange(0, 4));
    assert(s.subrange(pos, pos + total).subrange(0, 4) =~= spec_u32_le(l.len() as u32));
    lemma_u32_le_round_trip(l.len() as u32);
    assert(s.subrange(pos + 4, pos + 4 + spec_u32s(l).len()) =~= s.subrange(
        pos,
        pos + total,
    ).subrange(4, total));
    assert(s.subrange(pos, pos + total).subrange(4, total) =~= spec_u32s(l));
    lemma_read_u32s_of_enc(s, pos + 4, l);
}

/// Appends every integer of `l` as a counted list.
pub fn push_u32_list(out: &mut Vec<u8>, l: &Vec<u32>)
    requires
        l@.len() <= 0xffff_ffff,
    ensures
        final(out)@ == old(out)@ + spec_u32_list(l@),
{
    let n: usize = l.len();
    push_u32_le(out, n as u32);
    let mut i: usize = 0;
    while i < n
        invariant
            i <= n,
            n == l@.len(),
            out@ == old(out)@ + spec_u32_le(n as u32) + spec_u32s(l@.subrange(0, i as int)),
        decreases n - i,
    {
        push_u32_le(out, l[i]);
        proof {
            lemma_u32s_snoc(l@.subrange(0, i as int), l@[i as int]);
            assert(l@.subrange(0, i + 1) =~= l@.subrange(0, i as int).push(l@[i as int]));
        }
        i = i + 1;
    }
    assert(l@.subrange(0, n as int) =~= l@);
    assert(final(out)@ =~= old(out)@ + spec_u32_list(l@));
}

/// Reads a counted integer list, exactly as [`spec_read_u32_list`]
/// describes it.
pub fn read_u32_list(data: &Vec<u8>, pos: usize) -> (r: Option<(Vec<u32>, usize)>)
    ensures
        r is Some <==> spec_read_u32_list(data@, pos as int) is Some,
        r matches Some((v, p)) ==> spec_read_u32_list(data@, pos as int) == Some((v@, p as int)),
{
    let len: usize = data.len();
    if pos > len || len - pos < 4 {
        return None;
    }
    let n32 = read_u32_le(data, pos);
    let start = pos + 4;
    let mut acc: Vec<u32> = Vec::new();
    let mut cur: usize = start;
    let mut i: u32 = 0;
    while i < n32
        invariant
            i <= n32,
            cur <= data@.len(),
            spec_read_u32_list(data@, pos as int) == (match spec_read_u32s(
                data@,
                cur as int,
                (n32 - i) as nat,
            ) {
                None => None::<(Seq<u32>, int)>,
                Some((l, p)) => Some((acc@ + l, p)),
            }),
        decreases n32 - i,
    {
        let dlen: usize = data.len();
        if cur > dlen || dlen - cur < 4 {
            return None;
        }
        let x = read_u32_le(data, cur);
        proof {
            let rest = spec_read_u32s(data@, cur as int + 4, (n32 - i - 1) as nat);
            if rest is Some {
                assert(acc@ + (seq![x] + rest->Some_0.0) =~= acc@.push(x) + rest->Some_0.0);
            }
        }
        acc.push(x);
        cur = cur + 4;
        i = i + 1;
    }
    assert(acc@ + Seq::<u32>::empty() =~= acc@);
    Some((acc, cur))
}

/// The keyed-chunk sequence a `Vec` of keyed byte vectors stands for.
pub open spec fn entries_view(v: Seq<(u32, Vec<u8>)>) -> Seq<(u32, Seq<u8>)> {
    v.map_values(|e: (u32, Vec<u8>)| (e.0, e.1@))
}

pub proof fn lemma_entries_view_push(v: Seq<(u32, Vec<u8>)>, e: (u32, Vec<u8>))
    ensures
        entries_view(v.push(e)) == entries_view(v).push((e.0, e.1@)),
{
    assert(entries_view(v.push(e)) =~= entries_view(v).push((e.0, e.1@)));
}

/// Every value fits its length prefix, and the list fits its count
/// prefix.
pub open spec fn entry_list_wf(l: Seq<(u32, Seq<u8>)>) -> bool {
    &&& l.len() <= 0xffff_ffff
    &&& forall|i: int| 0 <= i < l.len() ==> chunk_wf((#[trigger] l[i]).1)
}

/// One keyed chunk: the key, then the value as a chunk.
pub open spec fn spec_entry(e: (u32, Seq<u8>)) -> Seq<u8>
    recommends
        chunk_wf(e.1),
{
    spec_u32_le(e.0) + spec_chunk(e.1)
}

/// Concatenation of the keyed chunks of `l`, in order.
pub open spec fn spec_entries(l: Seq<(u32, Seq<u8>)>) -> Seq<u8>
    decreases l.len(),
{
    if l.len() == 0 {
        Seq::empty()
    } else {
        spec_entry(l[0]) + spec_entries(l.drop_first())
    }
}

/// A keyed-chunk list: the count, then each keyed chunk in order.
pub open spec fn spec_entry_list(l: Seq<(u32, Seq<u8>)>) -> Seq<u8>
    recommends
        entry_list_wf(l),
{
    spec_u32_le(l.len() as u32) + spec_entries(l)
}

pub proof fn lemma_entries_snoc(l: Seq<(u32, Seq<u8>)>, e: (u32, Seq<u8>))
    ensures
        spec_entries(l.push(e)) == spec_entries(l) + spec_entry(e),
    decreases l.len(),
{
    assert(l.push(e)[0] == if l.len() == 0 { e } else { l[0] });
    if l.len() == 0 {
        assert(l.push(e).drop_first() =~= Seq::<(u32, Seq<u8>)>::empty());
        assert(spec_entries(l.push(e)) == spec_entry(e) + spec_entries(
            Seq::<(u32, Seq<u8>)>::empty(),
        ));
        assert(spec_entries(l.push(e)) =~= spec_entries(l) + spec_entry(e));
    } else {
        lemma_entries_snoc(l.drop_first(), e);
        assert(l.push(e).drop_first() =~= l.drop_first().push(e));
        assert(spec_entries(l.push(e)) == spec_entry(l[0]) + (spec_entries(l.drop_first())
            + spec_entry(e)));
        assert(spec_entries(l.push(e)) =~= spec_entries(l) + spec_entry(e));
    }
}

/// Result of reading one keyed chunk at `pos`.
pub open spec fn spec_read_entry(s: Seq<u8>, pos: int) -> Option<((u32, Seq<u8>), int)> {
    if 0 <= pos && pos + 4 <= s.len() {
        match spec_read_chunk(s, pos + 4) {
            None => None,
            Some((b, p)) => Some(((spec_u32_of_le(s.subrange(pos, pos + 4)), b), p)),
        }
    } else {
        None
    }
}

pub proof fn lemma_read_entry_of_enc(s: Seq<u8>, pos: int, e: (u32, Seq<u8>))
    requires
        chunk_wf(e.1),
        0 <= pos,
        pos + spec_entry(e).len() <= s.len(),
        s.subrange(pos, pos + spec_entry(e).len()) == spec_entry(e),
    ensures
        spec_read_entry(s, pos) == Some((e, pos + spec_entry(e).len())),
{
    let total = spec_entry(e).len() as int;
    assert(s.subrange(pos, pos + 4) =~= s.subrange(pos, pos + total).subrange(0, 4));
    assert(s.subrange(pos, pos + total).subrange(0, 4) =~= spec_u32_le(e.0));
    lemma_u32_le_round_trip(e.0);
    assert(s.subrange(pos + 4, pos + 4 + spec_chunk(e.1).len()) =~= s.subrange(
        pos,
        pos + total,
    ).subrange(4, total));
    assert(s.subrange(pos, pos + total).subrange(4, total) =~= spec_chunk(e.1));
    lemma_read_chunk_of_enc(s, pos + 4, e.1);
}

/// Result of reading `n` keyed chunks one after the other from `pos`.
pub open spec fn spec_read_entries(s: Seq<u8>, pos: int, n: nat) -> Option<
    (Seq<(u32, Seq<u8>)>, int),
>
    decreases n,
{
    if n == 0 {
        Some((Seq::empty(), pos))
    } else {
        match spec_read_entry(s, pos) {
            None => None,
            Some((e, p)) => match spec_read_entries(s, p, (n - 1) as nat) {
                None => None,
                Some((l, q)) => Some((seq![e] + l, q)),
            },
        }
    }
}

/// Result of reading a whole keyed-chunk list that starts at `pos`.
pub open spec fn spec_read_entry_list(s: Seq<u8>, pos: int) -> Option<(Seq<(u32, Seq<u8>)>, int)> {
    if 0 <= pos && pos + 4 <= s.len() {
        spec_read_entries(s, pos + 4, spec_u32_of_le(s.subrange(pos, pos + 4)) as nat)
    } else {
        None
    }
}

pub proof fn lemma_read_entries_of_enc(s: Seq<u8>, pos: int, l: Seq<(u32, Seq<u8>)>)
    requires
        entry_list_wf(l),
        0 <= pos,
        pos + spec_entries(l).len() <= s.len(),
        s.subrange(pos, pos + spec_entries(l).len()) == spec_entries(l),
    ensures
        spec_read_entries(s, pos, l.len()) == Some((l, pos + spec_entries(l).len())),
    decreases l.len(),
{
    if l.len() == 0 {
        assert(l =~= Seq::<(u32, Seq<u8>)>::empty());
    } else {
        let e = l[0];
        let rest = l.drop_first();
        let elen = spec_entry(e).len() as int;
        let total = spec_entries(l).len() as int;
        assert(spec_entries(l) == spec_entry(e) + spec_entries(rest));
        assert(s.subrange(pos, pos + elen) =~= s.subrange(pos, pos + total).subrange(0, elen));
        assert(s.subrange(pos, pos + total).subrange(0, elen) =~= spec_entry(e));
        lemma_read_entry_of_enc(s, pos, e);
        assert(s.subrange(pos + elen, pos + elen + spec_entries(rest).len()) =~= s.subrange(
            pos,
            pos + total,
        ).subrange(elen, total));
        assert(s.subrange(pos, pos + total).subrange(elen, total) =~= spec_entries(rest));
        assert(forall|i: int| 0 <= i < rest.len() ==> chunk_wf((#[trigger] rest[i]).1));
        lemma_read_entries_of_enc(s, pos + elen, rest);
        assert(seq![e] + rest =~= l);
    }
}

/// The whole encoded keyed-chunk list decodes back to the list itself.
pub proof fn lemma_read_entry_list_of_enc(s: Seq<u8>, pos: int, l: Seq<(u32, Seq<u8>)>)
    requires
        entry_list_wf(l),
        0 <= pos,
        pos + spec_entry_list(l).len() <= s.len(),
        s.subrange(pos, pos + spec_entry_list(l).len()) == spec_entry_list(l),
    ensures
        spec_read_entry_list(s, pos) == Some((l, pos + spec_entry_list(l).len())),
{
    let total = spec_entry_list(l).len() as int;
    assert(s.subrange(pos, pos + 4) =~= s.subrange(pos, pos + total).subrange(0, 4));
    assert(s.subrange(pos, pos + total).subrange(0, 4) =~= spec_u32_le(l.len() as u32));
    lemma_u32_le_round_trip(l.len() as u32);
    assert(s.subrange(pos + 4, pos + 4 + spec_entries(l).len()) =~= s.subrange(
        pos,
        pos + total,
    ).subrange(4, total));
    assert(s.subrange(pos, pos + total).subrange(4, total) =~= spec_entries(l));
    lemma_read_entries_of_enc(s, pos + 4, l);
}

/// Appends every keyed value of `l` as a counted keyed-chunk list.
pub fn push_entry_list(out: &mut Vec<u8>, l: &Vec<(u32, Vec<u8>)>)
    requires
        entry_list_wf(entries_view(l@)),
    ensures
        final(out)@ == old(out)@ + spec_entry_list(entries_view(l@)),
{
    let n: usize = l.len();
    push_u32_le(out, n as u32);
    let mut i: usize = 0;
    while i < n
        invariant
            i <= n,
            n == l@.len(),
            entry_list_wf(entries_view(l@)),
            out@ == old(out)@ + spec_u32_le(n as u32) + spec_entries(
                entries_view(l@).subrange(0, i as int),
            ),
        decreases n - i,
    {
        assert(chunk_wf(entries_view(l@)[i as int].1));
        push_u32_le(out, l[i].0);
        push_chunk(out, &l[i].1);
        proof {
            lemma_entries_snoc(entries_view(l@).subrange(0, i as int), entries_view(l@)[i as int]);
            assert(entries_view(l@).subrange(0, i + 1) =~= entries_view(l@).subrange(
                0,
                i as int,
            ).push(entries_view(l@)[i as int]));
            assert(out@ =~= old(out)@ + spec_u32_le(n as u32) + spec_entries(
                entries_view(l@).subrange(0, i + 1),
            ));
        }
        i = i + 1;
    }
    assert(entries_view(l@).subrange(0, n as int) =~= entries_view(l@));
    assert(final(out)@ =~= old(out)@ + spec_entry_list(entries_view(l@)));
}

/// Reads a counted keyed-chunk list, exactly as
/// [`spec_read_entry_list`] describes it.
pub fn read_entry_list(data: &Vec<u8>, pos: usize) -> (r: Option<(Vec<(u32, Vec<u8>)>, usize)>)
    ensures
        r is Some <==> spec_read_entry_list(data@, pos as int) is Some,
        r matches Some((v, p)) ==> spec_read_entry_list(data@, pos as int) == Some(
            (entries_view(v@), p as int),
        ),
{
    let len: usize = data.len();
    if pos > len || len - pos < 4 {
        return None;
    }
    let n32 = read_u32_le(data, pos);
    let start = pos + 4;
    let mut acc: Vec<(u32, Vec<u8>)> = Vec::new();
    let mut cur: usize = start;
    let mut i: u32 = 0;
    while i < n32
        invariant
            i <= n32,
            cur <= data@.len(),
            spec_read_entry_list(data@, pos as int) == (match spec_read_entries(
                data@,
                cur as int,
                (n32 - i) as nat,
            ) {
                None => None::<(Seq<(u32, Seq<u8>)>, int)>,
                Some((l, p)) => Some((entries_view(acc@) + l, p)),
            }),
        decreases n32 - i,
    {
        let dlen: usize = data.len();
        if cur > dlen || dlen - cur < 4 {
            return None;
        }
        let k = read_u32_le(data, cur);
        match read_chunk(data, cur + 4) {
            None => {
                return None;
            },
            Some((v, p)) => {
                proof {
                    lemma_entries_view_push(acc@, (k, v));
                    let rest = spec_read_entries(data@, p as int, (n32 - i - 1) as nat);
                    if rest is Some {
                        assert(entries_view(acc@) + (seq![(k, v@)] + rest->Some_0.0)
                            =~= entries_view(acc@).push((k, v@)) + rest->Some_0.0);
                    }
                }
                acc.push((k, v));
                cur = p;
            },
        }
        i = i + 1;
    }
    assert(entries_view(acc@) + Seq::<(u32, Seq<u8>)>::empty() =~= entries_view(acc@));
    Some((acc, cur))
}

} // verus!
