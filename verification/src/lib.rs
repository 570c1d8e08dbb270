//! A local secret store: credential records persisted to a single file,
//! optionally protected at rest by password-based encryption.
//!
//! The in-memory collection lives in [`vault`]; the on-disk text format is
//! specified in [`format`] and implemented in [`parse`] and [`emit`]; the
//! cryptographic primitives are wrapped in [`primitives`]; [`engine`] ties
//! them together into `load` and `serialize_for_save`.

pub mod emit;
pub mod engine;
pub mod format;
pub mod parse;
pub mod primitives;
pub mod vault;
