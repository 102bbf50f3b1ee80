//! Error kinds of the MQTT codec.

use vstd::prelude::*;

verus! {

/// The failure categories of the codec.
///
/// `Io` reports a byte source or sink failure at the transport edge.
/// `ParserError` reports malformed low-level encodings: truncated input or a
/// variable byte integer that would exceed its maximum.  `ProtocolError`
/// reports structurally valid bytes that break a protocol rule, such as a
/// property identifier outside the registry.  `MalformedPacket` reports
/// semantic validation failures.  `Common` covers the remaining contract
/// errors, such as a value outside its encodable range.
#[derive(Debug)]
pub enum Error {
    Io(String),
    ParserError(String),
    ProtocolError(String),
    MalformedPacket(String),
    Common(String),
}

impl Error {
    /// The text carried by the error.
    pub open spec fn spec_message(self) -> Seq<char> {
        match self {
            Error::Io(m) => m@,
            Error::ParserError(m) => m@,
            Error::ProtocolError(m) => m@,
            Error::MalformedPacket(m) => m@,
            Error::Common(m) => m@,
        }
    }

    /// A short description of the failure.
    pub fn message(&self) -> (r: String)
        ensures
            r@ == self.spec_message(),
    {
        match self {
            Error::Io(msg) => msg.clone(),
            Error::ParserError(msg) => msg.clone(),
            Error::ProtocolError(msg) => msg.clone(),
            Error::MalformedPacket(msg) => msg.clone(),
            Error::Common(msg) => msg.clone(),
        }
    }
}

} // verus!
