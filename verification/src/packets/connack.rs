//! The CONNACK packet (3.2 of the MQTT 5.0 specification): the first packet
//! a server sends in reply to a CONNECT.

use vstd::prelude::*;

use crate::packets;
use crate::packets::{Bits, FixedHeader, Properties, ReasonCode, VariableByteInteger};

verus! {

/// A CONNACK packet: a Fixed Header, a connect reason code, and properties.
/// It has no payload.
#[derive(Debug, Eq, PartialEq)]
pub struct ConnAck {
    pub fixed_header: FixedHeader,
    pub connect_reason_code: ConnAckReasonCode,
    pub properties: Properties,
}

impl ConnAck {
    /// Assembles a CONNACK packet from its three parts.
    pub fn new(
        fixed_header: FixedHeader,
        connect_reason_code: ConnAckReasonCode,
        properties: Properties,
    ) -> (r: ConnAck)
        ensures
            r.fixed_header == fixed_header,
            r.connect_reason_code == connect_reason_code,
            r.properties == properties,
    {
        ConnAck { fixed_header, connect_reason_code, properties }
    }

    /// The plain success acknowledgement: reason `SUCCESS` and no
    /// properties, two bytes after the Fixed Header.
    pub fn default() -> (r: ConnAck)
        ensures
            r.fixed_header.control_packet_type.0 == packets::CONNACK,
            r.fixed_header.flags.0 == 0,
            r.fixed_header.remaining_length.0 == 2,
            r.connect_reason_code.0 == SUCCESS,
            r.properties@ == Map::<u32, packets::ValueView>::empty(),
            r.properties.entries_view() == Seq::<(u32, packets::ValueView)>::empty(),
    {
        let fixed_header = match FixedHeader::new(
            Bits(packets::CONNACK),
            Bits(0),
            VariableByteInteger(2),
        ) {
            Ok(h) => h,
            Err(_) => FixedHeader {
                control_packet_type: Bits(packets::CONNACK),
                flags: Bits(0),
                remaining_length: VariableByteInteger(2),
            },
        };
        ConnAck {
            fixed_header,
            connect_reason_code: ConnAckReasonCode(SUCCESS),
            properties: Properties::new(),
        }
    }
}

/// A connect reason code (3.2.2.2 of the MQTT 5.0 specification): one byte
/// naming the outcome of a connection attempt.
#[derive(Debug, Eq, PartialEq, Clone, Copy, Structural)]
pub struct ConnAckReasonCode(pub u8);

impl ReasonCode for ConnAckReasonCode {
    open spec fn spec_code(&self) -> u8 {
        self.0
    }

    fn code(&self) -> (c: u8) {
        self.0
    }
}

/// The connection is accepted.
pub const SUCCESS: u8 = 0x00;

/// The server does not wish to reveal the reason for the failure, or none
/// of the other reason codes apply.
pub const UNSPECIFIED_ERROR: u8 = 0x80;

/// Data within the CONNECT packet could not be correctly parsed.
pub const MALFORMED_PACKET: u8 = 0x81;

/// Data in the CONNECT packet does not conform to the specification.
pub const PROTOCOL_ERROR: u8 = 0x82;

/// The CONNECT is valid but is not accepted by this server.
pub const IMPLEMENTATION_SPECIFIC_ERROR: u8 = 0x83;

/// The server does not support the requested protocol version.
pub const UNSUPPORTED_PROTOCOL_VERSION: u8 = 0x84;

/// The client identifier is a valid string but is not allowed.
pub const CLIENT_IDENTIFIER_NOT_VALID: u8 = 0x85;

/// The server does not accept the user name or password.
pub const BAD_USER_NAME_OR_PASSWORD: u8 = 0x86;

/// The client is not authorized to connect.
pub const NOT_AUTHORIZED: u8 = 0x87;

/// The MQTT server is not available.
pub const SERVER_UNAVAILABLE: u8 = 0x88;

/// The server is busy; try again later.
pub const SERVER_BUSY: u8 = 0x89;

/// The client has been banned by administrative action.
pub const BANNED: u8 = 0x8A;

/// The authentication method is not supported or does not match the one in
/// use.
pub const BAD_AUTHENTICATION_METHOD: u8 = 0x8C;

/// The will topic name is well formed but not accepted.
pub const TOPIC_NAME_INVALID: u8 = 0x90;

/// The CONNECT packet exceeded the maximum permissible size.
pub const PACKET_TOO_LARGE: u8 = 0x95;

/// An implementation or administrative limit has been exceeded.
pub const QUOTA_EXCEEDED: u8 = 0x97;

/// The will payload does not match the payload format indicator.
pub const PAYLOAD_FORMAT_INVALID: u8 = 0x99;

/// The server does not support retained messages.
pub const RETAIN_NOT_SUPPORTED: u8 = 0x9A;

/// The server does not support the QoS set in the will QoS.
pub const QOS_NOT_SUPPORTED: u8 = 0x9B;

/// The client should temporarily use another server.
pub const USE_ANOTHER_SERVER: u8 = 0x9C;

/// The client should permanently use another server.
pub const SERVER_MOVED: u8 = 0x9D;

/// The connection rate limit has been exceeded.
pub const CONNECTION_RATE_EXCEEDED: u8 = 0x9F;

} // verus!
