//! Decoder for the binary-framed display-update protocol of a power/battery
//! controller carried over a continuous serial byte stream.
//!
//! The crate scans an accumulating byte buffer for complete frames
//! ([`parse::parse`]), decodes each frame's payload into typed telemetry
//! ([`decode::decode`]), and keeps the current telemetry snapshot in a
//! [`status::Status`] value that a publisher can read between chunks.

pub mod decode;
pub mod ingest;
pub mod parse;
pub mod payload;
pub mod ppp_packet;
pub mod scan;
pub mod status;
pub mod text;
