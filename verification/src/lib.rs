//! A client-side handshake for a binary, length-prefixed enrollment
//! protocol: the wire codec for its four message variants, the proof-of-work
//! search over an encoded registration frame, and the state machine that
//! sequences the two protocol exchanges.

pub mod codec;
pub mod solver;
pub mod machine;
