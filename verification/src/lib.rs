//! An on-chain membership registry: a directory of members (human or
//! automated) with voting power, maintained under a single authority key.
//!
//! State lives in caller-owned fixed-capacity byte buffers. Each invocation
//! decodes an instruction blob, checks authorization against the registry's
//! stored authority, and rewrites the affected buffers atomically: either the
//! whole operation is applied or no buffer changes at all.

pub mod accessor;
pub mod codec;
pub mod processor;
pub mod types;
