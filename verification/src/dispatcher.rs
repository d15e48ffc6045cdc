//! A uniform handle over the concrete round engines.
//!
//! The closed set of engine kinds is an enum, not open dynamic
//! dispatch: a snapshot must name the kind it was taken from so that
//! restoring rebuilds the right engine.

use vstd::prelude::*;

use crate::error::ProtocolError;
use crate::gg18::Gg18Context;
use crate::musig2::{KeygenContext, SignContext};
use crate::proto::ProtocolType;
use crate::protocol::{Protocol, Recipient};

verus! {

/// One share's engine, of whichever kind the session was opened with.
/// The GG18 engine advances through its own two-phase interface
/// ([`Gg18Context::prepare`] and [`Gg18Context::absorb`]); here it is
/// held for finishing and suspension like any other share.
pub enum Dispatcher {
    Musig2Keygen(KeygenContext),
    Musig2Sign(SignContext),
    Gg18(Gg18Context),
}

impl Dispatcher {
    /// The protocol this engine belongs to.
    pub open spec fn kind(&self) -> ProtocolType {
        match self {
            Dispatcher::Musig2Keygen(_) => ProtocolType::Musig2,
            Dispatcher::Musig2Sign(_) => ProtocolType::Musig2,
            Dispatcher::Gg18(_) => ProtocolType::Gg18,
        }
    }
}

/// What one `advance` call does: the engine keeps its kind and obeys
/// its own round contract.
pub open spec fn dispatcher_advance_post(
    pre: Dispatcher,
    post: Dispatcher,
    data: Seq<u8>,
    r: Result<(Vec<u8>, Recipient), ProtocolError>,
) -> bool {
    match pre {
        Dispatcher::Musig2Keygen(c) => post matches Dispatcher::Musig2Keygen(c2)
            && crate::musig2::keygen_advance_post(c, c2, data, r),
        Dispatcher::Musig2Sign(c) => post matches Dispatcher::Musig2Sign(c2)
            && crate::musig2::sign_advance_post(c, c2, data, r),
        Dispatcher::Gg18(c) => post matches Dispatcher::Gg18(c2)
            && crate::gg18::gg18_single_step_post(c, c2, r),
    }
}

impl Dispatcher {
    /// Consumes one inbound round payload with the engine this share
    /// holds.
    pub fn advance(&mut self, data: &Vec<u8>) -> (r: Result<(Vec<u8>, Recipient), ProtocolError>)
        ensures
            dispatcher_advance_post(*old(self), *final(self), data@, r),
    {
        match self {
            Dispatcher::Musig2Keygen(c) => c.advance(data),
            Dispatcher::Musig2Sign(c) => c.advance(data),
            Dispatcher::Gg18(c) => c.advance(data),
        }
    }
}

impl Protocol for Dispatcher {
    open spec fn artifact(&self) -> Option<Seq<u8>> {
        match self {
            Dispatcher::Musig2Keygen(c) => c.artifact(),
            Dispatcher::Musig2Sign(c) => c.artifact(),
            Dispatcher::Gg18(c) => c.artifact(),
        }
    }

    open spec fn poisoned(&self) -> Option<ProtocolError> {
        match self {
            Dispatcher::Musig2Keygen(c) => c.poisoned(),
            Dispatcher::Musig2Sign(c) => c.poisoned(),
            Dispatcher::Gg18(c) => c.poisoned(),
        }
    }

    fn advance(&mut self, data: &Vec<u8>) -> (r: Result<(Vec<u8>, Recipient), ProtocolError>) {
        self.advance(data)
    }

    fn finish(self) -> (r: Result<Vec<u8>, ProtocolError>) {
        match self {
            Dispatcher::Musig2Keygen(c) => c.finish(),
            Dispatcher::Musig2Sign(c) => c.finish(),
            Dispatcher::Gg18(c) => c.finish(),
        }
    }
}

/// Mathematical shape of a [`Dispatcher`].
pub ghost enum DispatcherView {
    Musig2Keygen(crate::musig2::KeygenCtxView),
    Musig2Sign(crate::musig2::SignCtxView),
    Gg18(crate::gg18::Gg18CtxView),
}

impl View for Dispatcher {
    type V = DispatcherView;

    open spec fn view(&self) -> DispatcherView {
        match self {
            Dispatcher::Musig2Keygen(c) => DispatcherView::Musig2Keygen(c@),
            Dispatcher::Musig2Sign(c) => DispatcherView::Musig2Sign(c@),
            Dispatcher::Gg18(c) => DispatcherView::Gg18(c@),
        }
    }
}

/// The engine's byte strings fit their length prefixes, so that a
/// snapshot can frame them.
pub open spec fn dispatcher_snap_wf(d: DispatcherView) -> bool {
    match d {
        DispatcherView::Musig2Keygen(c) => crate::musig2::keygen_snap_wf(c),
        DispatcherView::Musig2Sign(c) => crate::musig2::sign_snap_wf(c),
        DispatcherView::Gg18(c) => crate::gg18::gg18_snap_wf(c),
    }
}

/// Bytes of a suspended share: the engine's kind, then the engine.
pub open spec fn spec_enc_dispatcher(d: DispatcherView) -> Seq<u8>
    recommends
        dispatcher_snap_wf(d),
{
    match d {
        DispatcherView::Musig2Keygen(c) => seq![0u8] + crate::musig2::spec_enc_keygen_ctx(c),
        DispatcherView::Musig2Sign(c) => seq![1u8] + crate::musig2::spec_enc_sign_ctx(c),
        DispatcherView::Gg18(c) => seq![2u8] + crate::gg18::spec_enc_gg18_ctx(c),
    }
}

/// The suspended share a byte string stands for, if it is a whole
/// snapshot and nothing more.
pub open spec fn spec_dec_dispatcher(s: Seq<u8>) -> Option<DispatcherView> {
    if s.len() < 1 {
        None
    } else {
        let body = s.subrange(1, s.len() as int);
        if s[0] == 0 {
            match crate::musig2::spec_dec_keygen_ctx(body) {
                None => None,
                Some(c) => Some(DispatcherView::Musig2Keygen(c)),
            }
        } else if s[0] == 1 {
            match crate::musig2::spec_dec_sign_ctx(body) {
                None => None,
                Some(c) => Some(DispatcherView::Musig2Sign(c)),
            }
        } else if s[0] == 2 {
            match crate::gg18::spec_dec_gg18_ctx(body) {
                None => None,
                Some(c) => Some(DispatcherView::Gg18(c)),
            }
        } else {
            None
        }
    }
}

/// Restoring a suspended share rebuilds the engine of the right kind
/// with its state exactly.
pub proof fn lemma_dispatcher_snapshot_round_trip(d: DispatcherView)
    requires
        dispatcher_snap_wf(d),
    ensures
        spec_dec_dispatcher(spec_enc_dispatcher(d)) == Some(d),
{
    let s = spec_enc_dispatcher(d);
    match d {
        DispatcherView::Musig2Keygen(c) => {
            let inner = crate::musig2::spec_enc_keygen_ctx(c);
            assert(s == seq![0u8] + inner);
            assert(s.subrange(1, s.len() as int) =~= inner);
            crate::musig2::lemma_keygen_snapshot_round_trip(c);
        },
        DispatcherView::Musig2Sign(c) => {
            let inner = crate::musig2::spec_enc_sign_ctx(c);
            assert(s == seq![1u8] + inner);
            assert(s.subrange(1, s.len() as int) =~= inner);
            crate::musig2::lemma_sign_snapshot_round_trip(c);
        },
        DispatcherView::Gg18(c) => {
            let inner = crate::gg18::spec_enc_gg18_ctx(c);
            assert(s == seq![2u8] + inner);
            assert(s.subrange(1, s.len() as int) =~= inner);
            crate::gg18::lemma_gg18_snapshot_round_trip(c);
        },
    }
}

impl Dispatcher {
    /// Serializes the share for suspension between rounds.
    pub fn snapshot(&self) -> (r: Vec<u8>)
        requires
            dispatcher_snap_wf(self@),
        ensures
            r@ == spec_enc_dispatcher(self@),
    {
        let mut out: Vec<u8> = Vec::new();
        match self {
            Dispatcher::Musig2Keygen(c) => {
                out.push(0);
                let inner = c.snapshot();
                let n: usize = inner.len();
                let mut i: usize = 0;
                while i < n
                    invariant
                        i <= n,
                        n == inner@.len(),
                        out@ == seq![0u8] + inner@.subrange(0, i as int),
                    decreases n - i,
                {
                    out.push(inner[i]);
                    assert(inner@.subrange(0, i + 1) =~= inner@.subrange(0, i as int).push(
                        inner@[i as int],
                    ));
                    i = i + 1;
                }
                assert(inner@.subrange(0, n as int) =~= inner@);
            },
            Dispatcher::Musig2Sign(c) => {
                out.push(1);
                let inner = c.snapshot();
                let n: usize = inner.len();
                let mut i: usize = 0;
                while i < n
                    invariant
                        i <= n,
                        n == inner@.len(),
                        out@ == seq![1u8] + inner@.subrange(0, i as int),
                    decreases n - i,
                {
                    out.push(inner[i]);
                    assert(inner@.subrange(0, i + 1) =~= inner@.subrange(0, i as int).push(
                        inner@[i as int],
                    ));
                    i = i + 1;
                }
                assert(inner@.subrange(0, n as int) =~= inner@);
            },
            Dispatcher::Gg18(c) => {
                out.push(2);
                let inner = c.snapshot();
                let n: usize = inner.len();
                let mut i: usize = 0;
                while i < n
                    invariant
                        i <= n,
                        n == inner@.len(),
                        out@ == seq![2u8] + inner@.subrange(0, i as int),
                    decreases n - i,
                {
                    out.push(inner[i]);
                    assert(inner@.subrange(0, i + 1) =~= inner@.subrange(0, i as int).push(
                        inner@[i as int],
                    ));
                    i = i + 1;
                }
                assert(inner@.subrange(0, n as int) =~= inner@);
            },
        }
        out
    }

    /// Rebuilds a suspended share, exactly as [`spec_dec_dispatcher`]
    /// describes it.
    pub fn restore(data: &Vec<u8>) -> (r: Option<Dispatcher>)
        ensures
            r is Some <==> spec_dec_dispatcher(data@) is Some,
            r matches Some(d) ==> spec_dec_dispatcher(data@) == Some(d@),
    {
        let len: usize = data.len();
        if len < 1 {
            return None;
        }
        let body = crate::bytes::tail_from(data, 1);
        if data[0] == 0 {
            match KeygenContext::restore(&body) {
                None => None,
                Some(c) => Some(Dispatcher::Musig2Keygen(c)),
            }
        } else if data[0] == 1 {
            match SignContext::restore(&body) {
                None => None,
                Some(c) => Some(Dispatcher::Musig2Sign(c)),
            }
        } else if data[0] == 2 {
            match Gg18Context::restore(&body) {
                None => None,
                Some(c) => Some(Dispatcher::Gg18(c)),
            }
        } else {
            None
        }
    }
}

} // verus!
