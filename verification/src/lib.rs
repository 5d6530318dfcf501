//! Decoder for the RakNet transport protocol as used by Minecraft Bedrock
//! Edition: a bounded byte-buffer cursor, primitive field decoders, the
//! message grammar, frame-set decoding, and fragment reassembly.
//!
//! Every decoder reads through the bounded cursor [`types::SizedBuffer`];
//! no read panics on malformed or truncated input. The message grammar
//! lives in [`packets`], and [`frame::Archaeologist`] rebuilds a logical
//! payload out of fragment frames.

pub mod frame;
pub mod network;
pub mod packets;
pub mod types;
pub mod util;
