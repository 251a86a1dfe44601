//! Verified core of a live network-capture tool: interface directory types,
//! a single-session capture state machine, and a pure frame decoder that
//! turns raw link-layer frames into structured address records.

pub mod decode;
pub mod directory;
pub mod session;
pub mod text;
pub mod worker;
