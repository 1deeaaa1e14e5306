//! Selective disclosure for notarized HTTPS exchanges: which bytes of a
//! transcript stay private, which are committed and revealed, and in what
//! order the notarization session is driven.

pub mod assembler;
pub mod bytes;
pub mod commitment;
pub mod config;
pub mod headers;
pub mod json;
pub mod payload;
pub mod range_finder;
pub mod range_laws;
pub mod ranges;
pub mod redaction;
pub mod redaction_laws;
pub mod request;
pub mod session;
pub mod session_laws;
