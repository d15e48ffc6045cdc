//! Client-side engine for multi-party threshold signing.
//!
//! The crate drives one participant's share through a round-based
//! signing protocol.  Round payloads travel inside a wire envelope
//! ([`proto`]); each engine ([`musig2`]) advances one round per
//! inbound envelope and reports whether the outbound bytes are meant
//! for the coordinating server or for a smartcard ([`card`], framed by
//! [`apdu`]).  A closed enum of engine kinds ([`dispatcher`]) gives
//! every share one uniform handle, and a session around those handles
//! ([`api`]) multiplexes the shares one device holds.  Engine state is
//! plain data: any handle can be suspended to bytes between rounds and
//! restored later, byte for byte ([`bytes`] holds the shared framing).

pub mod apdu;
pub mod api;
pub mod bytes;
pub mod card;
pub mod dispatcher;
pub mod error;
pub mod gg18;
pub mod musig2;
pub mod proto;
pub mod protocol;
