//! Decode-outcome model for a streaming binary-protocol decoder: how a
//! decoder reports "not enough bytes yet", "bytes present but malformed",
//! and "matched, here is the value and the unconsumed remainder", together
//! with tag dispatch over candidate decoders and diagnostic rendering.

pub mod compound;
pub mod decoder;
pub mod dispatch;
pub mod outcome;
pub mod primitives;
pub mod render;
