//! The uniform contract of a round engine, and the peer-map
//! normalization every engine applies.
//!
//! Inbound peer maps are unordered; engines order them by ascending
//! peer index before any round runs, so reordering the entries of an
//! inbound map never changes an engine's output.
//! [`lemma_normal_unique`] is the heart of that argument: a sorted,
//! duplicate-free arrangement of a given multiset of entries is
//! unique.

use vstd::prelude::*;

use vstd::multiset::Multiset;

use crate::bytes::{entries_view, lemma_entries_view_push};
use crate::error::ProtocolError;

verus! {

broadcast use vstd::seq_lib::group_to_multiset_ensures;

/// Where one round's outbound bytes must be delivered.
#[derive(Clone, Copy, Debug, PartialEq, Eq, Structural)]
pub enum Recipient {
    Card,
    Server,
}

/// The uniform shape of a round engine: one `advance` per inbound
/// round, one `finish` at the end.
pub trait Protocol: Sized {
    /// The terminal artifact this engine has produced, if it has
    /// reached its terminal round.
    spec fn artifact(&self) -> Option<Seq<u8>>;

    /// The error this engine is poisoned with, if a fatal failure was
    /// observed.
    spec fn poisoned(&self) -> Option<ProtocolError>;

    /// Consumes one inbound round payload and produces the outbound
    /// payload with its recipient.
    fn advance(&mut self, data: &Vec<u8>) -> (r: Result<(Vec<u8>, Recipient), ProtocolError>)
        ensures
            old(self).artifact() is Some ==> *final(self) == *old(self) && r == Err::<
                (Vec<u8>, Recipient),
                ProtocolError,
            >(ProtocolError::OutOfSequence),
            old(self).poisoned() matches Some(e) ==> *final(self) == *old(self) && r == Err::<
                (Vec<u8>, Recipient),
                ProtocolError,
            >(e),
    ;

    /// Consumes the engine and returns the terminal artifact; fails
    /// whenever the engine is not terminal.
    fn finish(self) -> (r: Result<Vec<u8>, ProtocolError>)
        ensures
            self.artifact() matches Some(a) ==> r matches Ok(v) && v@ == a,
            r matches Ok(v) ==> self.artifact() == Some(v@),
            r matches Err(e) ==> self.artifact() is None && (match self.poisoned() {
                Some(p) => e == p,
                None => e == ProtocolError::OutOfSequence,
            }),
    ;
}

/// A key-generation engine is created without any prior material.
pub trait KeygenProtocol: Protocol {
    fn new() -> (r: Self)
        ensures
            r.artifact() is None,
            r.poisoned() is None,
    ;
}

/// A signing or decryption engine is created from the group context a
/// key-generation run of the same protocol produced.
pub trait ThresholdProtocol: Protocol {
    /// Which byte strings are acceptable group contexts.
    spec fn group_ok(group: Seq<u8>) -> bool;

    fn new(group: &Vec<u8>) -> (r: Self)
        requires
            Self::group_ok(group@),
        ensures
            r.artifact() is None,
            r.poisoned() is None,
    ;
}

/// Entries are in ascending key order.
pub open spec fn entries_sorted(l: Seq<(u32, Seq<u8>)>) -> bool {
    forall|i: int, j: int| 0 <= i < j < l.len() ==> l[i].0 <= l[j].0
}

/// No two entries share a key.
pub open spec fn keys_distinct(l: Seq<(u32, Seq<u8>)>) -> bool {
    forall|i: int, j: int| 0 <= i < j < l.len() ==> l[i].0 != l[j].0
}

/// Some two entries share a key.
pub open spec fn has_dup_keys(l: Seq<(u32, Seq<u8>)>) -> bool {
    exists|i: int, j: int| 0 <= i < j < l.len() && l[i].0 == l[j].0
}

/// `s` is the normal arrangement of the entries of `orig`: the same
/// entries, in ascending key order, every key unique.
pub open spec fn is_normal_of(s: Seq<(u32, Seq<u8>)>, orig: Seq<(u32, Seq<u8>)>) -> bool {
    &&& entries_sorted(s)
    &&& keys_distinct(s)
    &&& s.to_multiset() == orig.to_multiset()
}

/// The normal arrangement of the entries of `orig`, where one exists:
/// sorted and duplicate-free arrangements of a given multiset are
/// unique, so this picks out at most one value.
pub open spec fn normal_of(orig: Seq<(u32, Seq<u8>)>) -> Seq<(u32, Seq<u8>)> {
    choose|s: Seq<(u32, Seq<u8>)>| is_normal_of(s, orig)
}

/// Any witness of normality is the normal arrangement itself.
pub proof fn lemma_normal_of_eq(s: Seq<(u32, Seq<u8>)>, orig: Seq<(u32, Seq<u8>)>)
    requires
        is_normal_of(s, orig),
    ensures
        normal_of(orig) == s,
{
    let w = choose|w: Seq<(u32, Seq<u8>)>| is_normal_of(w, orig);
    assert(is_normal_of(w, orig));
    lemma_normal_unique(w, s);
}

/// Reordering the entries of an inbound peer map never changes what a
/// round sees: two maps that carry the same entries — in any order —
/// have the same normal arrangement.  `w` witnesses that the first
/// map has one at all.
pub proof fn lemma_peer_order_irrelevant(
    a: Seq<(u32, Seq<u8>)>,
    b: Seq<(u32, Seq<u8>)>,
    w: Seq<(u32, Seq<u8>)>,
)
    requires
        is_normal_of(w, a),
        a.to_multiset() == b.to_multiset(),
    ensures
        normal_of(a) == normal_of(b),
{
    lemma_normal_of_eq(w, a);
    assert(is_normal_of(w, b));
    lemma_normal_of_eq(w, b);
}

/// The normal arrangement of a given multiset of entries is unique.
pub proof fn lemma_normal_unique(x: Seq<(u32, Seq<u8>)>, y: Seq<(u32, Seq<u8>)>)
    requires
        entries_sorted(x),
        entries_sorted(y),
        keys_distinct(x),
        keys_distinct(y),
        x.to_multiset() == y.to_multiset(),
    ensures
        x =~= y,
    decreases x.len(),
{
    if x.len() == 0 {
        assert(y.to_multiset().len() == 0);
        assert(y =~= Seq::<(u32, Seq<u8>)>::empty());
    } else {
        assert(x.to_multiset().count(x[0]) > 0);
        assert(y.to_multiset().count(x[0]) > 0);
        assert(y.contains(x[0]));
        let j = choose|j: int| 0 <= j < y.len() && y[j] == x[0];
        if j != 0 {
            assert(y[0].0 <= y[j].0 && y[0].0 != y[j].0);
            assert(x.to_multiset().count(y[0]) > 0);
            assert(x.contains(y[0]));
            let i = choose|i: int| 0 <= i < x.len() && x[i] == y[0];
            if i == 0 {
                assert(false);
            } else {
                assert(x[0].0 <= x[i].0 && x[0].0 != x[i].0);
                assert(false);
            }
        }
        assert(y[0] == x[0]);
        let xr = x.drop_first();
        let yr = y.drop_first();
        assert(xr =~= x.remove(0));
        assert(yr =~= y.remove(0));
        assert(xr.to_multiset() =~= x.to_multiset().remove(x[0]));
        assert(yr.to_multiset() =~= y.to_multiset().remove(y[0]));
        assert(forall|i: int, j: int| 0 <= i < j < xr.len() ==> xr[i].0 <= xr[j].0 && xr[i].0
            != xr[j].0);
        assert(forall|i: int, j: int| 0 <= i < j < yr.len() ==> yr[i].0 <= yr[j].0 && yr[i].0
            != yr[j].0);
        lemma_normal_unique(xr, yr);
        assert(x =~= seq![x[0]] + xr);
        assert(y =~= seq![y[0]] + yr);
    }
}

/// Orders entries by ascending key; the entries themselves are kept
/// exactly (selection sort).
pub fn sort_entries(v: Vec<(u32, Vec<u8>)>) -> (r: Vec<(u32, Vec<u8>)>)
    ensures
        entries_sorted(entries_view(r@)),
        entries_view(r@).to_multiset() == entries_view(v@).to_multiset(),
        r@.len() == v@.len(),
{
    let ghost orig = entries_view(v@);
    let mut rest = v;
    let mut out: Vec<(u32, Vec<u8>)> = Vec::new();
    while rest.len() > 0
        invariant
            entries_sorted(entries_view(out@)),
            forall|i: int, j: int|
                0 <= i < out@.len() && 0 <= j < rest@.len() ==> (#[trigger] entries_view(
                    out@,
                )[i]).0 <= (#[trigger] entries_view(rest@)[j]).0,
            entries_view(out@).to_multiset().add(entries_view(rest@).to_multiset()) =~= orig.to_multiset(),
            out@.len() + rest@.len() == orig.len(),
        decreases rest@.len(),
    {
        let n: usize = rest.len();
        let mut mi: usize = 0;
        let mut k: usize = 1;
        while k < n
            invariant
                n == rest@.len(),
                mi < n,
                k <= n,
                forall|t: int| 0 <= t < k ==> (#[trigger] entries_view(rest@)[mi as int]).0
                    <= entries_view(rest@)[t].0,
            decreases n - k,
        {
            if rest[k].0 < rest[mi].0 {
                mi = k;
            }
            k = k + 1;
        }
        let ghost old_out = out@;
        let ghost old_rest = rest@;
        let e = rest.remove(mi);
        out.push(e);
        proof {
            assert(entries_view(old_rest.remove(mi as int)) =~= entries_view(old_rest).remove(
                mi as int,
            ));
            lemma_entries_view_push(old_out, e);
            let ev = (e.0, e.1@);
            assert(entries_view(old_rest)[mi as int] == ev);
            assert(entries_view(rest@).to_multiset() =~= entries_view(old_rest).to_multiset().remove(ev));
            assert(entries_view(out@).to_multiset() =~= entries_view(old_out).to_multiset().insert(ev));
            assert(entries_view(out@).to_multiset().add(entries_view(rest@).to_multiset())
                =~= orig.to_multiset()) by {
                let a = entries_view(old_out).to_multiset();
                let b = entries_view(old_rest).to_multiset();
                assert(b.count(ev) > 0);
                assert(a.insert(ev).add(b.remove(ev)) =~= a.add(b));
            }
            assert(forall|j: int| 0 <= j < rest@.len() ==> (#[trigger] entries_view(rest@)[j]).0
                >= ev.0);
        }
    }
    assert(entries_view(rest@).to_multiset() =~= Multiset::<(u32, Seq<u8>)>::empty());
    assert(entries_view(out@).to_multiset().add(Multiset::<(u32, Seq<u8>)>::empty())
        =~= entries_view(out@).to_multiset());
    out
}

/// Orders peer-map entries by ascending key and rejects duplicate
/// keys; the result is the unique normal arrangement of the map.
pub fn normalize_entries(v: Vec<(u32, Vec<u8>)>) -> (r: Result<Vec<(u32, Vec<u8>)>, ProtocolError>)
    ensures
        r matches Ok(s) ==> is_normal_of(entries_view(s@), entries_view(v@)) && s@.len()
            == v@.len(),
        r is Err <==> has_dup_keys(entries_view(v@)),
        r matches Err(e) ==> e == ProtocolError::MalformedEnvelope,
{
    let ghost orig = entries_view(v@);
    let s = sort_entries(v);
    let ghost sv = entries_view(s@);
    let n: usize = s.len();
    let mut k: usize = 1;
    while k < n
        invariant
            n == s@.len(),
            sv == entries_view(s@),
            orig == entries_view(v@),
            1 <= k || n == 0,
            k <= n || (k == 1 && n == 0),
            forall|i: int, j: int| 0 <= i < j < k ==> (#[trigger] sv[i]).0 != (#[trigger] sv[j]).0,
            entries_sorted(sv),
            sv.to_multiset() == orig.to_multiset(),
        decreases n - k,
    {
        let ghost ki: int = k as int;
        proof {
            assert(sv[ki - 1].0 == s@[ki - 1].0 && sv[ki].0 == s@[ki].0);
        }
        if s[k - 1].0 == s[k].0 {
            proof {
                assert(0 <= ki - 1 < ki < sv.len() && sv[ki - 1].0 == sv[ki].0);
                assert(has_dup_keys(sv));
                lemma_dup_keys_multiset(sv, orig);
            }
            return Err(ProtocolError::MalformedEnvelope);
        }
        proof {
            assert(forall|i: int| 0 <= i < k ==> (#[trigger] sv[i]).0 <= sv[ki - 1].0);
        }
        k = k + 1;
    }
    proof {
        assert(keys_distinct(sv));
        if has_dup_keys(orig) {
            lemma_dup_keys_multiset(orig, sv);
            assert(false);
        }
    }
    Ok(s)
}

/// Duplicate keys survive any rearrangement of the entries.
pub proof fn lemma_dup_keys_multiset(a: Seq<(u32, Seq<u8>)>, b: Seq<(u32, Seq<u8>)>)
    requires
        has_dup_keys(a),
        a.to_multiset() == b.to_multiset(),
    ensures
        has_dup_keys(b),
{
    let (i, j) = choose|i: int, j: int| 0 <= i < j < a.len() && a[i].0 == a[j].0;
    let x = a[i];
    let y = a[j];
    if x == y {
        assert(a.remove(j).to_multiset() =~= a.to_multiset().remove(y));
        assert(a.remove(j).contains(x)) by {
            assert(a.remove(j)[i] == x);
        }
        assert(a.remove(j).to_multiset().count(x) > 0);
        assert(a.to_multiset().count(x) >= 2);
        assert(b.to_multiset().count(x) >= 2);
        lemma_count_two_indices(b, x);
    } else {
        assert(a.contains(x) && a.contains(y));
        assert(b.to_multiset().count(x) > 0 && b.to_multiset().count(y) > 0);
        assert(b.contains(x) && b.contains(y));
        let bi = choose|bi: int| 0 <= bi < b.len() && b[bi] == x;
        let bj = choose|bj: int| 0 <= bj < b.len() && b[bj] == y;
        assert(bi != bj);
        if bi < bj {
            assert(b[bi].0 == b[bj].0);
        } else {
            assert(b[bj].0 == b[bi].0);
        }
    }
}

/// A multiset count of two or more yields two distinct indices.
proof fn lemma_count_two_indices(b: Seq<(u32, Seq<u8>)>, x: (u32, Seq<u8>))
    requires
        b.to_multiset().count(x) >= 2,
    ensures
        has_dup_keys(b),
{
    assert(b.to_multiset().count(x) > 0);
    assert(b.contains(x));
    let i = choose|i: int| 0 <= i < b.len() && b[i] == x;
    let br = b.remove(i);
    assert(br.to_multiset() =~= b.to_multiset().remove(x));
    assert(br.to_multiset().count(x) >= 1);
    assert(br.contains(x));
    let k = choose|k: int| 0 <= k < br.len() && br[k] == x;
    if k < i {
        assert(b[k] == x);
        assert(b[k].0 == b[i].0);
    } else {
        assert(b[k + 1] == x);
        assert(b[i].0 == b[k + 1].0);
    }
}

} // verus!
