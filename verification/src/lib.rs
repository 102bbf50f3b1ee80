//! A verified codec for the MQTT 5.0 wire format.
//!
//! The crate translates byte streams into typed Control Packets and back:
//! the seven primitive wire types, the identifier-keyed Property table,
//! the Fixed Header, the CONNECT variable header and payload with their
//! validation rules, and the CONNACK encoder.  A thin session model keeps
//! track of a client's connection state.
//!
//! Every decoder and encoder is specified against the byte-level model in
//! [`wire`], which also proves the round-trip laws: decoding an encoding
//! yields the original value, for every value in its wire type's range.

pub mod codec;
pub mod errors;
pub mod packets;
pub mod session;
pub mod wire;
