//! Verified core of a block exporter: range planning, a concurrency gate,
//! conversion of a node's blocks into canonical form, stream framing and the
//! orchestration of one export.

pub mod args;
pub mod codec;
pub mod convert;
pub mod export;
pub mod gate;
pub mod range;
