//! Persistence and expiration core of an ephemeral paste store.
//!
//! The library owns the record model (`pasta`), the on-disk document codec
//! with its one-time additive migration (`ser`, `parse`, `codec_laws`), the
//! store facade and the crash-safe save protocol (`store`), and the
//! expiration engine (`expire`). All I/O (files, clock, network) is left to
//! the surrounding program, which hands plain values in and out.

pub mod pasta;

pub mod ser;

pub mod parse;

pub mod codec_laws;

pub mod store;

pub mod expire;
