//! The CONNECT packet (3.1 of the MQTT 5.0 specification): its variable
//! header, its flag byte, its payload, and the validation rules a decoded
//! packet is held to.

use vstd::prelude::*;

use crate::errors::Error;
use crate::packets;
use crate::packets::{
    BinaryData, Bits, FixedHeader, Properties, QoS, TwoByteInteger, UTF8EncodedString,
};

verus! {

/// A CONNECT packet: the Fixed Header, the variable header, and the payload.
pub struct Connect {
    pub fixed_header: FixedHeader,
    pub variable_header: VariableHeader,
    pub payload: Payload,
}

impl Connect {
    /// Assembles a CONNECT packet from its three parts.
    pub fn new(fixed_header: FixedHeader, variable_header: VariableHeader, payload: Payload) -> (r:
        Result<Connect, Error>)
        ensures
            r matches Ok(c) && c.fixed_header == fixed_header && c.variable_header
                == variable_header && c.payload == payload,
    {
        Ok(Connect { fixed_header, variable_header, payload })
    }
}

/// The variable header of a CONNECT packet (3.1.2): protocol name and
/// version, the connect flags, the keep-alive interval in seconds, and the
/// properties.
pub struct VariableHeader {
    pub protocol_name: UTF8EncodedString,
    pub protocol_version: Bits,
    pub connect_flags: ConnectFlags,
    pub keep_alive: TwoByteInteger,
    pub properties: Properties,
}

impl VariableHeader {
    /// Assembles a variable header from its five parts.
    pub fn new(
        protocol_name: UTF8EncodedString,
        protocol_version: Bits,
        connect_flags: ConnectFlags,
        keep_alive: TwoByteInteger,
        properties: Properties,
    ) -> (r: Result<VariableHeader, Error>)
        ensures
            r matches Ok(h) && h.protocol_name == protocol_name && h.protocol_version
                == protocol_version && h.connect_flags == connect_flags && h.keep_alive
                == keep_alive && h.properties == properties,
    {
        Ok(VariableHeader { protocol_name, protocol_version, connect_flags, keep_alive, properties })
    }
}

// ---------------------------------------------------------------------------
// Connect flags (3.1.2.3)
// ---------------------------------------------------------------------------

/// True when bit 7 of the connect flags requests a user name in the payload.
pub open spec fn flag_username(b: u8) -> bool {
    b & 0x80 != 0
}

/// True when bit 6 of the connect flags requests a password in the payload.
pub open spec fn flag_password(b: u8) -> bool {
    b & 0x40 != 0
}

/// True when bit 5 of the connect flags asks the will message to be
/// retained.
pub open spec fn flag_will_retain(b: u8) -> bool {
    b & 0x20 != 0
}

/// The two-bit will QoS field, bits 4 and 3 of the connect flags.
pub open spec fn flag_will_qos(b: u8) -> u8 {
    (b & 0x18) >> 3
}

/// True when bit 2 of the connect flags announces a will message in the
/// payload.
pub open spec fn flag_will(b: u8) -> bool {
    b & 0x04 != 0
}

/// True when bit 1 of the connect flags requests a clean start.
pub open spec fn flag_clean_start(b: u8) -> bool {
    b & 0x02 != 0
}

/// The packed connect-flag byte of a CONNECT packet.  Every query is
/// computed from the raw byte through a bit mask, so no copied boolean can
/// drift from it.
#[derive(Debug, Eq, PartialEq, Clone, Copy, Structural)]
pub struct ConnectFlags(pub Bits);

impl ConnectFlags {
    /// Wraps a raw flag byte.
    pub fn new(flags: Bits) -> (r: Result<ConnectFlags, Error>)
        ensures
            r matches Ok(f) && f.0 == flags,
    {
        Ok(ConnectFlags(flags))
    }

    /// True when the payload must carry a user name.
    pub fn username(&self) -> (r: bool)
        ensures
            r == flag_username(self.0.0),
    {
        self.0.0 & 0x80 != 0
    }

    /// True when the payload must carry a password.
    pub fn password(&self) -> (r: bool)
        ensures
            r == flag_password(self.0.0),
    {
        self.0.0 & 0x40 != 0
    }

    /// True when the will message is to be retained.
    pub fn will_retain(&self) -> (r: bool)
        ensures
            r == flag_will_retain(self.0.0),
    {
        self.0.0 & 0x20 != 0
    }

    /// The QoS level requested for the will message; the bit pattern 3 is
    /// malformed.
    pub fn will_qos(&self) -> (r: QoS)
        ensures
            r == packets::spec_qos(flag_will_qos(self.0.0)),
    {
        let v = (self.0.0 & 0x18) >> 3;
        proof {
            let b = self.0.0;
            assert((b & 0x18) >> 3 <= 3) by (bit_vector);
        }
        match packets::qos_from_bits(Bits(v)) {
            Ok(q) => q,
            Err(_) => QoS::Malformed,
        }
    }

    /// True when the payload must carry a will message.
    pub fn will_flag(&self) -> (r: bool)
        ensures
            r == flag_will(self.0.0),
    {
        self.0.0 & 0x04 != 0
    }

    /// True when the client requests a session without prior state.
    pub fn clean_start(&self) -> (r: bool)
        ensures
            r == flag_clean_start(self.0.0),
    {
        self.0.0 & 0x02 != 0
    }
}

// ---------------------------------------------------------------------------
// Payload (3.1.3)
// ---------------------------------------------------------------------------

/// The payload of a CONNECT packet.  The five optional fields are not free
/// choices: each is present exactly when the corresponding connect-flag bit
/// is set, a rule the decoder follows and the validator re-checks.
pub struct Payload {
    pub client_id: UTF8EncodedString,
    pub will_properties: Option<Properties>,
    pub will_topic: Option<UTF8EncodedString>,
    pub will_payload: Option<BinaryData>,
    pub user_name: Option<UTF8EncodedString>,
    pub password: Option<BinaryData>,
}

impl Payload {
    /// Assembles a payload from its six fields.
    pub fn new(
        client_id: UTF8EncodedString,
        will_properties: Option<Properties>,
        will_topic: Option<UTF8EncodedString>,
        will_payload: Option<BinaryData>,
        user_name: Option<UTF8EncodedString>,
        password: Option<BinaryData>,
    ) -> (r: Result<Payload, Error>)
        ensures
            r matches Ok(p) && p.client_id == client_id && p.will_properties == will_properties
                && p.will_topic == will_topic && p.will_payload == will_payload && p.user_name
                == user_name && p.password == password,
    {
        Ok(Payload { client_id, will_properties, will_topic, will_payload, user_name, password })
    }
}

// ---------------------------------------------------------------------------
// Validation (3.1 of the MQTT 5.0 specification)
// ---------------------------------------------------------------------------

/// True for the characters a client identifier may carry: ASCII digits and
/// letters (3.1.3.1).
pub open spec fn client_id_char_ok(c: char) -> bool {
    let u = c as u32;
    (0x30 <= u <= 0x39) || (0x41 <= u <= 0x5A) || (0x61 <= u <= 0x7A)
}

/// True for the client identifiers this server accepts: one to twenty-three
/// characters, all ASCII alphanumeric.  A zero-length identifier, which the
/// specification lets a server accept by assigning one, is deliberately
/// rejected here.
pub open spec fn client_id_ok(s: Seq<char>) -> bool {
    &&& 1 <= s.len() <= 23
    &&& forall|i: int| 0 <= i < s.len() ==> client_id_char_ok(#[trigger] s[i])
}

/// True when the packet's type code is CONNECT.
pub open spec fn packet_type_ok(c: Connect) -> bool {
    c.fixed_header.control_packet_type.0 == packets::CONNECT
}

/// True when the protocol name reads exactly "MQTT".
pub open spec fn protocol_name_ok(c: Connect) -> bool {
    c.variable_header.protocol_name.0@ == seq!['M', 'Q', 'T', 'T']
}

/// True when the protocol version is 5.
pub open spec fn protocol_version_ok(c: Connect) -> bool {
    c.variable_header.protocol_version.0 == 5
}

/// True when the user-name flag and the presence of the user-name field
/// agree, in both directions.
pub open spec fn username_flag_ok(c: Connect) -> bool {
    flag_username(c.variable_header.connect_flags.0.0) <==> c.payload.user_name is Some
}

/// True when the password flag and the presence of the password field
/// agree, in both directions.
pub open spec fn password_flag_ok(c: Connect) -> bool {
    flag_password(c.variable_header.connect_flags.0.0) <==> c.payload.password is Some
}

/// True when the client identifier passes `client_id_ok`.
pub open spec fn connect_client_id_ok(c: Connect) -> bool {
    client_id_ok(c.payload.client_id.0@)
}

/// A CONNECT packet is valid when every rule of the validator holds.
pub open spec fn connect_valid(c: Connect) -> bool {
    &&& packet_type_ok(c)
    &&& protocol_name_ok(c)
    &&& protocol_version_ok(c)
    &&& username_flag_ok(c)
    &&& password_flag_ok(c)
    &&& connect_client_id_ok(c)
}

/// The number of violations the validator reports.  A missing user name
/// and a missing password are each reported twice: once by the
/// bidirectional flag/field check and once by a final, deliberately
/// defensive presence check.
pub open spec fn violation_count(c: Connect) -> int {
    let user_missing = flag_username(c.variable_header.connect_flags.0.0)
        && c.payload.user_name is None;
    let pass_missing = flag_password(c.variable_header.connect_flags.0.0)
        && c.payload.password is None;
    (if packet_type_ok(c) {
        0int
    } else {
        1int
    }) + (if protocol_name_ok(c) {
        0int
    } else {
        1int
    }) + (if protocol_version_ok(c) {
        0int
    } else {
        1int
    }) + (if username_flag_ok(c) {
        0int
    } else {
        1int
    }) + (if password_flag_ok(c) {
        0int
    } else {
        1int
    }) + (if connect_client_id_ok(c) {
        0int
    } else {
        1int
    }) + (if user_missing {
        1int
    } else {
        0int
    }) + (if pass_missing {
        1int
    } else {
        0int
    })
}

/// Validates a decoded CONNECT packet against the MQTT 5.0 rules, after the
/// whole packet is decoded and never interleaved with parsing.  All
/// violations are collected rather than stopping at the first, so a caller
/// can report every one at once: the packet is valid exactly when the
/// returned list would be empty.
pub fn validate(connect: &Connect) -> (r: Result<(), Vec<Error>>)
    ensures
        r is Ok <==> connect_valid(*connect),
        r matches Err(es) ==> es@.len() == violation_count(*connect) && es@.len() >= 1,
        r matches Err(es) ==> forall|i: int| 0 <= i < es@.len() ==> (#[trigger] es@[i]) is MalformedPacket,
{
    let mut errors: Vec<Error> = Vec::new();

    let fixed_header = &connect.fixed_header;
    if fixed_header.control_packet_type.0 != packets::CONNECT {
        errors.push(
            Error::MalformedPacket("the control packet type is not CONNECT".to_owned()),
        );
    }

    let variable_header = &connect.variable_header;
    if !protocol_name_is_mqtt(&variable_header.protocol_name) {
        errors.push(Error::MalformedPacket("the protocol name is not MQTT".to_owned()));
    }

    if variable_header.protocol_version.0 != 5 {
        errors.push(Error::MalformedPacket("the protocol version is not 5".to_owned()));
    }

    if variable_header.connect_flags.username() {
        if connect.payload.user_name.is_none() {
            errors.push(
                Error::MalformedPacket(
                    "no user name is present though the user name flag is 1".to_owned(),
                ),
            );
        }
    } else {
        if connect.payload.user_name.is_some() {
            errors.push(
                Error::MalformedPacket(
                    "a user name is present though the user name flag is 0".to_owned(),
                ),
            );
        }
    }

    if variable_header.connect_flags.password() {
        if connect.payload.password.is_none() {
            errors.push(
                Error::MalformedPacket(
                    "no password is present though the password flag is 1".to_owned(),
                ),
            );
        }
    } else {
        if connect.payload.password.is_some() {
            errors.push(
                Error::MalformedPacket(
                    "a password is present though the password flag is 0".to_owned(),
                ),
            );
        }
    }

    if let Err(err) = validate_client_id(connect.payload.client_id.0.as_str()) {
        errors.push(err);
    }

    if variable_header.connect_flags.username() {
        if connect.payload.user_name.is_none() {
            errors.push(
                Error::MalformedPacket(
                    "no user name is present though the user name flag is 1".to_owned(),
                ),
            );
        }
    }

    if variable_header.connect_flags.password() {
        if connect.payload.password.is_none() {
            errors.push(
                Error::MalformedPacket(
                    "no password is present though the password flag is 1".to_owned(),
                ),
            );
        }
    }

    if errors.is_empty() {
        Ok(())
    } else {
        Err(errors)
    }
}

/// True exactly when the string reads "MQTT" (3.1.2.1).
fn protocol_name_is_mqtt(name: &UTF8EncodedString) -> (r: bool)
    ensures
        r == (name.0@ == seq!['M', 'Q', 'T', 'T']),
{
    let s = name.0.as_str();
    let n = s.unicode_len();
    if n != 4 {
        proof {
            assert(name.0@ != seq!['M', 'Q', 'T', 'T']) by {
                assert(seq!['M', 'Q', 'T', 'T'].len() == 4);
            }
        }
        return false;
    }
    let c0 = s.get_char(0);
    let c1 = s.get_char(1);
    let c2 = s.get_char(2);
    let c3 = s.get_char(3);
    let r = c0 == 'M' && c1 == 'Q' && c2 == 'T' && c3 == 'T';
    proof {
        if r {
            assert(name.0@ =~= seq!['M', 'Q', 'T', 'T']);
        } else {
            assert(name.0@ != seq!['M', 'Q', 'T', 'T']);
        }
    }
    r
}

/// Validates a client identifier (3.1.3.1): one to twenty-three characters,
/// all ASCII alphanumeric.  The session layer builds its `ClientId` through
/// this same rule.
pub fn validate_client_id(client_id: &str) -> (r: Result<(), Error>)
    ensures
        r is Ok <==> client_id_ok(client_id@),
        r matches Err(e) ==> e is MalformedPacket,
{
    let len = client_id.unicode_len();
    if len < 1 || len > 23 {
        return Err(
            Error::MalformedPacket(
                "the client identifier length is not between 1 and 23".to_owned(),
            ),
        );
    }
    let mut i: usize = 0;
    while i < len
        invariant
            len == client_id@.len(),
            0 <= i <= len,
            forall|j: int| 0 <= j < i ==> client_id_char_ok(#[trigger] client_id@[j]),
        decreases len - i,
    {
        let c = client_id.get_char(i);
        let u = c as u32;
        if !((0x30 <= u && u <= 0x39) || (0x41 <= u && u <= 0x5A) || (0x61 <= u && u <= 0x7A)) {
            return Err(
                Error::MalformedPacket(
                    "the client identifier contains a non-alphanumeric character".to_owned(),
                ),
            );
        }
        i += 1;
    }
    Ok(())
}

} // verus!
