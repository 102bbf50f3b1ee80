//! The encoder: from Control Packets to bytes.
//!
//! Every encoder appends to a byte buffer, and its contract states the
//! exact bytes appended, in terms of the spec encodings of
//! [`crate::wire`].  A value outside its encodable range is an error, never
//! a longer encoding.

use vstd::prelude::*;
use vstd::slice::slice_to_vec;

use crate::errors::Error;
use crate::packets;
use crate::packets::connack::ConnAck;
use crate::packets::{
    BinaryData, Bits, FixedHeader, FourByteInteger, Packet, Properties, ReasonCode,
    TwoByteInteger, UTF8EncodedString, UTF8StringPair, ValueTypes, ValueView,
    VariableByteInteger,
};
use crate::wire;

verus! {

/// Encodes a whole packet.  Only CONNACK is implemented; every other
/// packet type fails cleanly and writes nothing.
pub fn encode(out: &mut Vec<u8>, packet: &Packet) -> (r: Result<(), Error>)
    ensures
        packet matches Packet::ConnAck(ca) ==> {
            &&& connack_encodable(*ca) ==> (r is Ok && final(out)@ == old(out)@
                + connack_packet_bytes(*ca))
            &&& !connack_props_ok(*ca) ==> (r is Err && final(out)@ == old(out)@)
            &&& (connack_props_ok(*ca) && connack_remaining_bytes(*ca).len()
                > wire::VARIABLE_BYTE_INTEGER_MAX) ==> (r is Err && final(out)@ == old(out)@
                + seq![wire::fh_first_byte(packets::CONNACK, ca.fixed_header.flags.0)])
            &&& (r is Err ==> !connack_encodable(*ca))
        },
        !(packet is ConnAck) ==> (r matches Err(e) && e is Common && final(out)@ == old(out)@),
{
    match packet {
        Packet::ConnAck(p) => encode_connack(out, p),
        _ => Err(Error::Common("this control packet type is not implemented yet".to_owned())),
    }
}

/// Writes the single byte of a reason code.
pub fn encode_reason_code<R: ReasonCode>(out: &mut Vec<u8>, reason_code: &R) -> (r: Result<
    (),
    Error,
>)
    ensures
        r is Ok,
        final(out)@ == old(out)@ + seq![reason_code.spec_code()],
{
    let code = reason_code.code();
    out.push(code);
    proof {
        assert(out@ =~= old(out)@ + seq![reason_code.spec_code()]);
    }
    Ok(())
}

/// Writes one tagged value in its own wire form.
pub fn encode_value(out: &mut Vec<u8>, value: &ValueTypes) -> (r: Result<(), Error>)
    ensures
        wire::value_encodable(value@) ==> (r is Ok && final(out)@ == old(out)@ + wire::value_bytes(
            value@,
        )),
        !wire::value_encodable(value@) ==> (r matches Err(e) && e is Common),
        !wire::value_encodable(value@) ==> (match value@ {
            ValueView::StringPair(k, _) => {
                if wire::string_encodable(k) {
                    final(out)@ == old(out)@ + wire::string_bytes(k)
                } else {
                    final(out)@ == old(out)@
                }
            },
            _ => final(out)@ == old(out)@,
        }),
{
    match value {
        ValueTypes::Bits(val) => encode_bits(out, val),
        ValueTypes::TwoByteInteger(val) => encode_two_byte_integer(out, val),
        ValueTypes::FourByteInteger(val) => encode_four_byte_integer(out, val),
        ValueTypes::VariableByteInteger(val) => encode_variable_byte_integer(out, val),
        ValueTypes::UTF8EncodedString(val) => encode_utf8_encoded_string(out, val),
        ValueTypes::UTF8StringPair(val) => encode_utf8_string_pair(out, val),
        ValueTypes::BinaryData(val) => encode_binary_data(out, val),
    }
}

/// Writes one raw byte.
pub fn encode_bits(out: &mut Vec<u8>, bits: &Bits) -> (r: Result<(), Error>)
    ensures
        r is Ok,
        final(out)@ == old(out)@ + seq![bits.0],
{
    out.push(bits.0);
    proof {
        assert(out@ =~= old(out)@ + seq![bits.0]);
    }
    Ok(())
}

/// Writes a Two Byte Integer, big-endian.
pub fn encode_two_byte_integer(out: &mut Vec<u8>, integer: &TwoByteInteger) -> (r: Result<
    (),
    Error,
>)
    ensures
        r is Ok,
        final(out)@ == old(out)@ + wire::u16_be_bytes(integer.0),
{
    let v = integer.0;
    out.push((v / 0x100) as u8);
    out.push((v % 0x100) as u8);
    proof {
        assert(out@ =~= old(out)@ + wire::u16_be_bytes(integer.0));
    }
    Ok(())
}

/// Writes a Four Byte Integer, big-endian.
pub fn encode_four_byte_integer(out: &mut Vec<u8>, integer: &FourByteInteger) -> (r: Result<
    (),
    Error,
>)
    ensures
        r is Ok,
        final(out)@ == old(out)@ + wire::u32_be_bytes(integer.0),
{
    let v = integer.0;
    out.push((v / 0x100_0000) as u8);
    out.push(((v / 0x1_0000) % 0x100) as u8);
    out.push(((v / 0x100) % 0x100) as u8);
    out.push((v % 0x100) as u8);
    proof {
        assert(out@ =~= old(out)@ + wire::u32_be_bytes(integer.0));
    }
    Ok(())
}

/// Writes the base-128 digits of a value that fits four of them.
fn encode_vbi_value(value: u32, out: &mut Vec<u8>)
    ensures
        final(out)@ == old(out)@ + wire::vbi_bytes(value as nat),
    decreases value,
{
    if value < 0x80 {
        out.push(value as u8);
        proof {
            assert(out@ =~= old(out)@ + wire::vbi_bytes(value as nat));
        }
    } else {
        let byte = ((value % 0x80) + 0x80) as u8;
        out.push(byte);
        let ghost mid = out@;
        encode_vbi_value(value / 0x80, out);
        proof {
            assert((value / 0x80) as nat == (value as nat) / 0x80);
            assert(mid =~= old(out)@ + seq![byte]);
            assert(out@ =~= old(out)@ + wire::vbi_bytes(value as nat));
        }
    }
}

/// Writes a Variable Byte Integer: one to four base-128 digits, least
/// significant first, a continuation bit on every byte but the last.  A
/// value above `VARIABLE_BYTE_INTEGER_MAX` is an error, not a longer
/// encoding.
pub fn encode_variable_byte_integer(out: &mut Vec<u8>, integer: &VariableByteInteger) -> (r:
    Result<(), Error>)
    ensures
        integer.0 <= wire::VARIABLE_BYTE_INTEGER_MAX ==> (r is Ok && final(out)@ == old(out)@
            + wire::vbi_bytes(integer.0 as nat)),
        integer.0 > wire::VARIABLE_BYTE_INTEGER_MAX ==> (r matches Err(e) && e is Common && final(out)@ == old(out)@),
{
    if integer.0 > wire::VARIABLE_BYTE_INTEGER_MAX {
        return Err(
            Error::Common("the value does not fit a variable byte integer".to_owned()),
        );
    }
    encode_vbi_value(integer.0, out);
    Ok(())
}

/// Writes a length-prefixed string: the byte count of its UTF-8 form, then
/// those bytes.  A string whose UTF-8 form exceeds the two-byte length
/// prefix is an error and writes nothing.
pub fn encode_string(out: &mut Vec<u8>, string: &str) -> (r: Result<(), Error>)
    ensures
        wire::string_encodable(string@) ==> (r is Ok && final(out)@ == old(out)@
            + wire::string_bytes(string@)),
        !wire::string_encodable(string@) ==> (r matches Err(e) && e is Common && final(out)@ == old(out)@),
{
    let mut bytes = string.as_bytes_vec();
    let length = bytes.len();
    if length > 0xFFFF {
        return Err(Error::Common("the string is too long for its length prefix".to_owned()));
    }
    let prefix = TwoByteInteger(length as u16);
    match encode_two_byte_integer(out, &prefix) {
        Ok(()) => {},
        Err(e) => {
            return Err(e);
        },
    }
    out.append(&mut bytes);
    proof {
        assert(out@ =~= old(out)@ + wire::string_bytes(string@));
    }
    Ok(())
}

/// Writes a UTF-8 Encoded String.
pub fn encode_utf8_encoded_string(out: &mut Vec<u8>, string: &UTF8EncodedString) -> (r: Result<
    (),
    Error,
>)
    ensures
        wire::string_encodable(string.0@) ==> (r is Ok && final(out)@ == old(out)@
            + wire::string_bytes(string.0@)),
        !wire::string_encodable(string.0@) ==> (r matches Err(e) && e is Common && final(out)@
            == old(out)@),
{
    encode_string(out, string.0.as_str())
}

/// Writes a UTF-8 String Pair: the key string, then the value string.  When
/// the key fits but the value does not, the key's bytes stay written, as a
/// byte sink would have received them.
pub fn encode_utf8_string_pair(out: &mut Vec<u8>, pair: &UTF8StringPair) -> (r: Result<(), Error>)
    ensures
        (wire::string_encodable(pair.0@) && wire::string_encodable(pair.1@)) ==> (r is Ok && final(out)@ == old(out)@ + (wire::string_bytes(pair.0@) + wire::string_bytes(pair.1@))),
        !wire::string_encodable(pair.0@) ==> (r matches Err(e) && e is Common && final(out)@ == old(out)@),
        (wire::string_encodable(pair.0@) && !wire::string_encodable(pair.1@)) ==> (r matches Err(e)
            && e is Common && final(out)@ == old(out)@ + wire::string_bytes(pair.0@)),
{
    match encode_string(out, pair.0.as_str()) {
        Ok(()) => {},
        Err(e) => {
            return Err(e);
        },
    }
    match encode_string(out, pair.1.as_str()) {
        Ok(()) => {},
        Err(e) => {
            return Err(e);
        },
    }
    proof {
        assert(out@ =~= old(out)@ + (wire::string_bytes(pair.0@) + wire::string_bytes(pair.1@)));
    }
    Ok(())
}

/// Writes Binary Data: a two-byte byte count, then the raw bytes.  A blob
/// longer than its length prefix allows is an error and writes nothing.
pub fn encode_binary_data(out: &mut Vec<u8>, data: &BinaryData) -> (r: Result<(), Error>)
    ensures
        wire::binary_encodable(data.0@) ==> (r is Ok && final(out)@ == old(out)@
            + wire::binary_bytes(data.0@)),
        !wire::binary_encodable(data.0@) ==> (r matches Err(e) && e is Common && final(out)@ == old(out)@),
{
    let length = data.0.len();
    if length > 0xFFFF {
        return Err(Error::Common("the blob is too long for its length prefix".to_owned()));
    }
    let prefix = TwoByteInteger(length as u16);
    match encode_two_byte_integer(out, &prefix) {
        Ok(()) => {},
        Err(e) => {
            return Err(e);
        },
    }
    let mut bytes = slice_to_vec(data.0.as_slice());
    out.append(&mut bytes);
    proof {
        assert(out@ =~= old(out)@ + wire::binary_bytes(data.0@));
    }
    Ok(())
}

/// Writes a property block: each entry in insertion order, identifier then
/// value, the whole prefixed with its byte count as a Variable Byte
/// Integer.  On any failure nothing is written.
pub fn encode_properties(out: &mut Vec<u8>, properties: &Properties) -> (r: Result<(), Error>)
    ensures
        (wire::props_encodable(properties.entries_view()) && wire::props_body_bytes(
            properties.entries_view(),
        ).len() <= wire::VARIABLE_BYTE_INTEGER_MAX) ==> (r is Ok && final(out)@ == old(out)@
            + wire::properties_block_bytes(properties.entries_view())),
        !(wire::props_encodable(properties.entries_view()) && wire::props_body_bytes(
            properties.entries_view(),
        ).len() <= wire::VARIABLE_BYTE_INTEGER_MAX) ==> (r matches Err(e) && e is Common && final(out)@ == old(out)@),
{
    let ghost entries = properties.entries_view();
    let mut body: Vec<u8> = Vec::new();
    let n = properties.entry_count();
    let mut i: usize = 0;
    proof {
        assert(body@ =~= wire::props_body_bytes(entries.subrange(0, 0)));
    }
    while i < n
        invariant
            n == entries.len(),
            entries == properties.entries_view(),
            0 <= i <= n,
            body@ == wire::props_body_bytes(entries.subrange(0, i as int)),
            forall|x: int| 0 <= x < i ==> wire::property_encodable(#[trigger] entries[x]),
        decreases n - i,
    {
        let e = properties.entry_at(i);
        let ghost pre = body@;
        match encode_variable_byte_integer(&mut body, &e.0) {
            Ok(()) => {},
            Err(_) => {
                proof {
                    assert(!wire::property_encodable(entries[i as int]));
                }
                return Err(
                    Error::Common(
                        "a property identifier does not fit a variable byte integer".to_owned(),
                    ),
                );
            },
        }
        match encode_value(&mut body, &e.1) {
            Ok(()) => {},
            Err(_) => {
                proof {
                    assert(!wire::property_encodable(entries[i as int]));
                }
                return Err(Error::Common("a property value is too long".to_owned()));
            },
        }
        proof {
            assert(entries.subrange(0, i as int).push(entries[i as int]) =~= entries.subrange(
                0,
                i as int + 1,
            ));
            wire::lemma_props_body_push(entries.subrange(0, i as int), entries[i as int]);
            assert(body@ =~= pre + (wire::vbi_bytes(entries[i as int].0 as nat)
                + wire::value_bytes(entries[i as int].1)));
            assert(body@ =~= wire::props_body_bytes(entries.subrange(0, i as int + 1)));
        }
        i += 1;
    }
    proof {
        assert(entries.subrange(0, n as int) =~= entries);
    }
    let length = body.len();
    if length > (u32::MAX as usize) {
        return Err(Error::Common("the property block is too long".to_owned()));
    }
    let prefix = VariableByteInteger(length as u32);
    match encode_variable_byte_integer(out, &prefix) {
        Ok(()) => {},
        Err(_) => {
            return Err(Error::Common("the property block is too long".to_owned()));
        },
    }
    out.append(&mut body);
    proof {
        assert(out@ =~= old(out)@ + wire::properties_block_bytes(entries));
    }
    Ok(())
}

/// Writes a Fixed Header: the type/flags byte, then the remaining length as
/// a Variable Byte Integer.  A remaining length beyond the Variable Byte
/// Integer range is an error; the first byte is already written then, as a
/// byte sink would have received it.
pub fn encode_fixed_header(out: &mut Vec<u8>, header: &FixedHeader) -> (r: Result<(), Error>)
    ensures
        header.remaining_length.0 <= wire::VARIABLE_BYTE_INTEGER_MAX ==> (r is Ok && final(out)@
            == old(out)@ + seq![
            wire::fh_first_byte(header.control_packet_type.0, header.flags.0),
        ] + wire::vbi_bytes(header.remaining_length.0 as nat)),
        header.remaining_length.0 > wire::VARIABLE_BYTE_INTEGER_MAX ==> (r matches Err(e)
            && e is Common && final(out)@ == old(out)@ + seq![
            wire::fh_first_byte(header.control_packet_type.0, header.flags.0),
        ]),
{
    let byte1 = (header.control_packet_type.0 << 4) | (header.flags.0 & 0x0F);
    out.push(byte1);
    let ghost mid = out@;
    proof {
        assert(mid =~= old(out)@ + seq![
            wire::fh_first_byte(header.control_packet_type.0, header.flags.0),
        ]);
    }
    match encode_variable_byte_integer(out, &header.remaining_length) {
        Ok(()) => Ok(()),
        Err(e) => Err(e),
    }
}

// ---------------------------------------------------------------------------
// CONNACK
// ---------------------------------------------------------------------------

/// The bytes of a CONNACK packet after its Fixed Header: the reason code,
/// then the property block.
pub open spec fn connack_remaining_bytes(ca: ConnAck) -> Seq<u8> {
    seq![ca.connect_reason_code.0] + wire::properties_block_bytes(ca.properties.entries_view())
}

/// True when the CONNACK's property block fits its wire form.
pub open spec fn connack_props_ok(ca: ConnAck) -> bool {
    &&& wire::props_encodable(ca.properties.entries_view())
    &&& wire::props_body_bytes(ca.properties.entries_view()).len()
        <= wire::VARIABLE_BYTE_INTEGER_MAX
}

/// True when the whole CONNACK fits its wire form.
pub open spec fn connack_encodable(ca: ConnAck) -> bool {
    connack_props_ok(ca) && connack_remaining_bytes(ca).len() <= wire::VARIABLE_BYTE_INTEGER_MAX
}

/// The full wire form of a CONNACK packet: the Fixed Header carrying the
/// exact byte count of what follows it, then the reason code and the
/// property block.
pub open spec fn connack_packet_bytes(ca: ConnAck) -> Seq<u8> {
    seq![wire::fh_first_byte(packets::CONNACK, ca.fixed_header.flags.0)] + wire::vbi_bytes(
        connack_remaining_bytes(ca).len() as nat,
    ) + connack_remaining_bytes(ca)
}

/// Encodes a CONNACK packet.  The body is serialised into a buffer first,
/// so the remaining length in the Fixed Header is the exact byte count of
/// that buffer, never an estimate; on failure before the Fixed Header
/// nothing is written.
pub fn encode_connack(out: &mut Vec<u8>, packet: &ConnAck) -> (r: Result<(), Error>)
    ensures
        connack_encodable(*packet) ==> (r is Ok && final(out)@ == old(out)@ + connack_packet_bytes(
            *packet,
        )),
        !connack_props_ok(*packet) ==> (r is Err && final(out)@ == old(out)@),
        (connack_props_ok(*packet) && connack_remaining_bytes(*packet).len()
            > wire::VARIABLE_BYTE_INTEGER_MAX) ==> (r is Err && final(out)@ == old(out)@ + seq![
            wire::fh_first_byte(packets::CONNACK, packet.fixed_header.flags.0),
        ]),
        r is Err ==> !connack_encodable(*packet),
{
    let mut body: Vec<u8> = Vec::new();
    match encode_reason_code(&mut body, &packet.connect_reason_code) {
        Ok(()) => {},
        Err(e) => {
            return Err(e);
        },
    }
    match encode_properties(&mut body, &packet.properties) {
        Ok(()) => {},
        Err(e) => {
            return Err(e);
        },
    }
    proof {
        assert(body@ =~= connack_remaining_bytes(*packet));
        wire::lemma_pow128_values();
        wire::lemma_vbi_bytes_len(
            wire::props_body_bytes(packet.properties.entries_view()).len() as nat,
            4,
        );
    }
    let length = body.len();
    let fixed_header = match FixedHeader::new(
        Bits(packets::CONNACK),
        packet.fixed_header.flags,
        VariableByteInteger(length as u32),
    ) {
        Ok(h) => h,
        Err(e) => {
            return Err(e);
        },
    };
    match encode_fixed_header(out, &fixed_header) {
        Ok(()) => {},
        Err(e) => {
            return Err(e);
        },
    }
    out.append(&mut body);
    proof {
        assert(out@ =~= old(out)@ + connack_packet_bytes(*packet));
    }
    Ok(())
}

} // verus!
