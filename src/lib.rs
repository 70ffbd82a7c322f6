//! A userspace TCP engine: the per-connection transmission control block
//! (RFC 793), its sequence-number arithmetic and its segment tests.

pub mod codec;
pub mod frame;
pub mod lemmas;
pub mod seq;
pub mod tcp;
