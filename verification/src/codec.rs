//! The packet codec: decoding byte streams into Control Packets and
//! encoding Control Packets into bytes.

pub mod decoder;
pub mod encoder;
