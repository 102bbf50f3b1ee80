//! The decoder: from raw bytes to typed Control Packets.
//!
//! Every parser takes the input bytes and a start position and returns the
//! position after the decoded unit together with the decoded value, or an
//! error.  Each contract ties the result to the corresponding spec decoder
//! of [`crate::wire`]: a parser succeeds exactly where the spec decoder
//! does, and returns exactly its value.  No parser panics or reads out of
//! bounds, whatever the input.

use vstd::prelude::*;
use vstd::slice::{slice_subrange, slice_to_vec};

use crate::errors::Error;
use crate::packets;
use crate::packets::connect::{Connect, ConnectFlags, Payload, VariableHeader};
use crate::packets::{
    entries_of, props_map, BinaryData, Bits, FixedHeader, FourByteInteger, Packet, Properties,
    TwoByteInteger, UTF8EncodedString, UTF8StringPair, ValueTypes, VariableByteInteger,
};
use crate::wire;
use crate::wire::{FixedHeaderView, PayloadView, PropertyKind, VariableHeaderView};

verus! {

/// Relies on `String::from_utf8_lossy`: on valid UTF-8 it returns exactly
/// the characters the bytes encode, and on anything else its substitution
/// depends on the bytes alone.
#[verifier::external_body]
fn utf8_lossy_decode(bytes: &[u8]) -> (s: String)
    ensures
        s@ == wire::lossy_chars(bytes@),
        !vstd::utf8::valid_utf8(bytes@) ==> s@ == wire::utf8_lossy(bytes@),
{
    String::from_utf8_lossy(bytes).to_string()
}

/// True when the decoded variable header carries the given mathematical
/// content.
pub open spec fn vh_matches(vh: VariableHeader, v: VariableHeaderView) -> bool {
    &&& vh.protocol_name.0@ == v.protocol_name
    &&& vh.protocol_version.0 == v.protocol_version
    &&& vh.connect_flags.0.0 == v.connect_flags
    &&& vh.keep_alive.0 == v.keep_alive
    &&& vh.properties@ == props_map(v.properties)
    &&& vh.properties.entries_view() == entries_of(v.properties)
}

/// True when the decoded payload carries the given mathematical content.
pub open spec fn payload_matches(p: Payload, v: PayloadView) -> bool {
    &&& p.client_id.0@ == v.client_id
    &&& (match (p.will_properties, v.will_properties) {
        (Some(pp), Some(s)) => pp@ == props_map(s) && pp.entries_view() == entries_of(s),
        (None, None) => true,
        _ => false,
    })
    &&& (match (p.will_topic, v.will_topic) {
        (Some(t), Some(s)) => t.0@ == s,
        (None, None) => true,
        _ => false,
    })
    &&& (match (p.will_payload, v.will_payload) {
        (Some(d), Some(s)) => d.0@ == s,
        (None, None) => true,
        _ => false,
    })
    &&& (match (p.user_name, v.user_name) {
        (Some(u), Some(s)) => u.0@ == s,
        (None, None) => true,
        _ => false,
    })
    &&& (match (p.password, v.password) {
        (Some(d), Some(s)) => d.0@ == s,
        (None, None) => true,
        _ => false,
    })
}

/// True when the decoded fixed header carries the given mathematical
/// content.
pub open spec fn fh_matches(h: FixedHeader, v: FixedHeaderView) -> bool {
    &&& h.control_packet_type.0 == v.control_packet_type
    &&& h.flags.0 == v.flags
    &&& h.remaining_length.0 == v.remaining_length
}

/// True when the decoded CONNECT packet carries the given variable header
/// and payload.
pub open spec fn connect_matches(c: Connect, vh: VariableHeaderView, p: PayloadView) -> bool {
    vh_matches(c.variable_header, vh) && payload_matches(c.payload, p)
}

// ---------------------------------------------------------------------------
// Primitive parsers
// ---------------------------------------------------------------------------

/// Reads one byte.
pub fn parse_bits(input: &[u8], pos: usize) -> (r: Result<(usize, Bits), Error>)
    ensures
        match r {
            Ok((j, b)) => wire::byte_decode_at(input@, pos as int) == Some((j as int, b.0)),
            Err(e) => wire::byte_decode_at(input@, pos as int) is None && e is ParserError,
        },
{
    if pos < input.len() {
        let b = input[pos];
        Ok((pos + 1, Bits(b)))
    } else {
        Err(Error::ParserError("the input ends where one more byte is needed".to_owned()))
    }
}

/// Reads a Two Byte Integer, big-endian.
pub fn parse_two_byte_integer(input: &[u8], pos: usize) -> (r: Result<
    (usize, TwoByteInteger),
    Error,
>)
    ensures
        match r {
            Ok((j, v)) => wire::u16_decode_at(input@, pos as int) == Some((j as int, v.0)),
            Err(e) => wire::u16_decode_at(input@, pos as int) is None && e is ParserError,
        },
{
    let n = input.len();
    if n < 2 || pos > n - 2 {
        return Err(Error::ParserError("the input ends inside a two byte integer".to_owned()));
    }
    let msb = input[pos];
    let lsb = input[pos + 1];
    let v: u16 = (msb as u16) * 0x100 + (lsb as u16);
    Ok((pos + 2, TwoByteInteger(v)))
}

/// Reads a Four Byte Integer, big-endian.
pub fn parse_four_byte_integer(input: &[u8], pos: usize) -> (r: Result<
    (usize, FourByteInteger),
    Error,
>)
    ensures
        match r {
            Ok((j, v)) => wire::u32_decode_at(input@, pos as int) == Some((j as int, v.0)),
            Err(e) => wire::u32_decode_at(input@, pos as int) is None && e is ParserError,
        },
{
    let n = input.len();
    if n < 4 || pos > n - 4 {
        return Err(
            Error::ParserError("the input ends inside a four byte integer".to_owned()),
        );
    }
    let b0 = input[pos];
    let b1 = input[pos + 1];
    let b2 = input[pos + 2];
    let b3 = input[pos + 3];
    let v: u32 = (b0 as u32) * 0x100_0000 + (b1 as u32) * 0x1_0000 + (b2 as u32) * 0x100 + (
    b3 as u32);
    Ok((pos + 4, FourByteInteger(v)))
}

/// Reads the base-128 digits of a Variable Byte Integer, at most `fuel` of
/// them (1.5.5 of the MQTT 5.0 specification).
fn parse_vbi_digits(input: &[u8], pos: usize, fuel: u8) -> (r: Option<(usize, u32)>)
    requires
        fuel <= 4,
    ensures
        match r {
            Some((j, v)) => wire::vbi_decode_at(input@, pos as int, fuel as nat) == Some(
                (j as int, v as int),
            ),
            None => wire::vbi_decode_at(input@, pos as int, fuel as nat) is None,
        },
    decreases fuel,
{
    if fuel == 0 || pos >= input.len() {
        None
    } else {
        let b = input[pos];
        if b < 0x80 {
            Some((pos + 1, b as u32))
        } else {
            match parse_vbi_digits(input, pos + 1, fuel - 1) {
                None => None,
                Some((j, rest)) => {
                    proof {
                        wire::lemma_vbi_decode_bounds(input@, pos as int + 1, (fuel - 1) as nat);
                        wire::lemma_pow128_values();
                        assert(rest < 0x20_0000);
                    }
                    Some((j, (b - 0x80) as u32 + 0x80 * rest))
                },
            }
        }
    }
}

/// Reads a Variable Byte Integer: base-128 digits, least significant first,
/// each byte but the last carrying a continuation bit.  It fails on
/// truncated input and where a fifth byte would be needed, so a decoded
/// value never exceeds `VARIABLE_BYTE_INTEGER_MAX`.
pub fn parse_variable_byte_integer(input: &[u8], pos: usize) -> (r: Result<
    (usize, VariableByteInteger),
    Error,
>)
    ensures
        match r {
            Ok((j, v)) => wire::vbi_decode_at(input@, pos as int, 4) == Some(
                (j as int, v.0 as int),
            ) && v.0 <= wire::VARIABLE_BYTE_INTEGER_MAX,
            Err(e) => wire::vbi_decode_at(input@, pos as int, 4) is None && e is ParserError,
        },
{
    match parse_vbi_digits(input, pos, 4) {
        Some((j, v)) => {
            proof {
                wire::lemma_vbi_decode_bounds(input@, pos as int, 4);
                wire::lemma_pow128_values();
            }
            Ok((j, VariableByteInteger(v)))
        },
        None => Err(
            Error::ParserError(
                "the input ends inside a variable byte integer, or a fifth byte would be needed".to_owned(),
            ),
        ),
    }
}

/// Reads a UTF-8 Encoded String: a two-byte length, then that many bytes,
/// decoded with best effort.  Malformed text becomes replacement
/// characters; only truncated input fails.
pub fn parse_utf8_encoded_string(input: &[u8], pos: usize) -> (r: Result<
    (usize, UTF8EncodedString),
    Error,
>)
    ensures
        match r {
            Ok((j, s)) => wire::string_decode_at(input@, pos as int) == Some((j as int, s.0@)),
            Err(e) => wire::string_decode_at(input@, pos as int) is None && e is ParserError,
        },
{
    let (j, length) = match parse_two_byte_integer(input, pos) {
        Ok(x) => x,
        Err(e) => {
            return Err(e);
        },
    };
    let l = length.0 as usize;
    if l > input.len() - j {
        return Err(Error::ParserError("the input ends inside a string".to_owned()));
    }
    let seg = slice_subrange(input, j, j + l);
    let s = utf8_lossy_decode(seg);
    Ok((j + l, UTF8EncodedString(s)))
}

/// Reads a UTF-8 String Pair: two consecutive strings, key then value.
pub fn parse_utf8_string_pair(input: &[u8], pos: usize) -> (r: Result<
    (usize, UTF8StringPair),
    Error,
>)
    ensures
        match r {
            Ok((j, p)) => wire::pair_decode_at(input@, pos as int) == Some(
                (j as int, (p.0@, p.1@)),
            ),
            Err(e) => wire::pair_decode_at(input@, pos as int) is None && e is ParserError,
        },
{
    let (j, key) = match parse_utf8_encoded_string(input, pos) {
        Ok(x) => x,
        Err(e) => {
            return Err(e);
        },
    };
    let (k, value) = match parse_utf8_encoded_string(input, j) {
        Ok(x) => x,
        Err(e) => {
            return Err(e);
        },
    };
    Ok((k, UTF8StringPair(key.0, value.0)))
}

/// Reads Binary Data: a two-byte length, then that many raw bytes.
pub fn parse_binary_data(input: &[u8], pos: usize) -> (r: Result<(usize, BinaryData), Error>)
    ensures
        match r {
            Ok((j, d)) => wire::binary_decode_at(input@, pos as int) == Some((j as int, d.0@)),
            Err(e) => wire::binary_decode_at(input@, pos as int) is None && e is ParserError,
        },
{
    let (j, length) = match parse_two_byte_integer(input, pos) {
        Ok(x) => x,
        Err(e) => {
            return Err(e);
        },
    };
    let l = length.0 as usize;
    if l > input.len() - j {
        return Err(Error::ParserError("the input ends inside a binary blob".to_owned()));
    }
    let seg = slice_subrange(input, j, j + l);
    Ok((j + l, BinaryData(slice_to_vec(seg))))
}

// ---------------------------------------------------------------------------
// Properties
// ---------------------------------------------------------------------------

/// Reads one property: its identifier as a Variable Byte Integer, then a
/// value of exactly the wire type the registry assigns to that identifier.
/// An identifier outside the registry is a Protocol Error, never silently
/// skipped.
pub fn parse_property(input: &[u8], pos: usize) -> (r: Result<
    (usize, (VariableByteInteger, ValueTypes)),
    Error,
>)
    ensures
        match r {
            Ok((j, p)) => wire::property_decode_at(input@, pos as int) == Some(
                (j as int, (p.0.0, p.1@)),
            ),
            Err(e) => wire::property_decode_at(input@, pos as int) is None && (e is ParserError
                || e is ProtocolError),
        },
        (match wire::vbi_decode_at(input@, pos as int, 4) {
            Some((_, id)) => wire::spec_property_kind(id) is None ==> (r matches Err(e)
                && e is ProtocolError),
            None => r matches Err(e) && e is ParserError,
        }),
{
    let (j, identifier) = match parse_variable_byte_integer(input, pos) {
        Ok(x) => x,
        Err(e) => {
            return Err(e);
        },
    };
    let kind = match wire::property_kind(identifier.0) {
        Some(k) => k,
        None => {
            return Err(
                Error::ProtocolError(
                    "the property identifier is not in the registry".to_owned(),
                ),
            );
        },
    };
    match kind {
        PropertyKind::Bits => {
            match parse_bits(input, j) {
                Ok((l, b)) => Ok((l, (identifier, ValueTypes::Bits(b)))),
                Err(e) => Err(e),
            }
        },
        PropertyKind::TwoByteInteger => {
            match parse_two_byte_integer(input, j) {
                Ok((l, v)) => Ok((l, (identifier, ValueTypes::TwoByteInteger(v)))),
                Err(e) => Err(e),
            }
        },
        PropertyKind::FourByteInteger => {
            match parse_four_byte_integer(input, j) {
                Ok((l, v)) => Ok((l, (identifier, ValueTypes::FourByteInteger(v)))),
                Err(e) => Err(e),
            }
        },
        PropertyKind::Utf8String => {
            match parse_utf8_encoded_string(input, j) {
                Ok((l, s)) => Ok((l, (identifier, ValueTypes::UTF8EncodedString(s)))),
                Err(e) => Err(e),
            }
        },
        PropertyKind::VariableByteInteger => {
            match parse_variable_byte_integer(input, j) {
                Ok((l, v)) => Ok((l, (identifier, ValueTypes::VariableByteInteger(v)))),
                Err(e) => Err(e),
            }
        },
        PropertyKind::Binary => {
            match parse_binary_data(input, j) {
                Ok((l, d)) => Ok((l, (identifier, ValueTypes::BinaryData(d)))),
                Err(e) => Err(e),
            }
        },
        PropertyKind::StringPair => {
            match parse_utf8_string_pair(input, j) {
                Ok((l, p)) => Ok((l, (identifier, ValueTypes::UTF8StringPair(p)))),
                Err(e) => Err(e),
            }
        },
    }
}

/// Reads a property block: its byte count as a Variable Byte Integer, then
/// exactly that many bytes of identifier/value pairs.  A duplicate
/// identifier keeps the last value.
pub fn parse_properties(input: &[u8], pos: usize) -> (r: Result<(usize, Properties), Error>)
    ensures
        match r {
            Ok((j, props)) => wire::properties_decode_at(input@, pos as int) matches Some((jj, s))
                && jj == j as int && props@ == props_map(s) && props.entries_view() == entries_of(
                s,
            ),
            Err(e) => wire::properties_decode_at(input@, pos as int) is None && (e is ParserError
                || e is ProtocolError),
        },
{
    let (j, plen_vbi) = match parse_variable_byte_integer(input, pos) {
        Ok(x) => x,
        Err(e) => {
            return Err(e);
        },
    };
    proof {
        wire::lemma_vbi_decode_bounds(input@, pos as int, 4);
    }
    let plen = plen_vbi.0 as usize;
    if plen > input.len() - j {
        return Err(Error::ParserError("the input ends inside a property block".to_owned()));
    }
    let seg = slice_subrange(input, j, j + plen);
    let ghost seg_bytes = seg@;
    let mut properties = Properties::new();
    let ghost mut done = Seq::<(u32, packets::ValueView)>::empty();
    let mut k: usize = 0;
    proof {
        match wire::props_list_at(seg_bytes, 0) {
            Some(s0) => {
                assert(done + s0 =~= s0);
            },
            None => {},
        }
    }
    while k < plen
        invariant
            plen == seg_bytes.len(),
            seg@ == seg_bytes,
            0 <= k <= plen,
            wire::vbi_decode_at(input@, pos as int, 4) == Some((j as int, plen as int)),
            j + plen <= input@.len(),
            seg_bytes == input@.subrange(j as int, j as int + plen as int),
            properties@ == props_map(done),
            properties.entries_view() == entries_of(done),
            wire::props_list_at(seg_bytes, 0) == (match wire::props_list_at(seg_bytes, k as int) {
                Option::<Seq<(u32, packets::ValueView)>>::None => Option::<
                    Seq<(u32, packets::ValueView)>,
                >::None,
                Option::<Seq<(u32, packets::ValueView)>>::Some(rest) => Some(done + rest),
            }),
        decreases plen - k,
    {
        let (k2, (identifier, value)) = match parse_property(seg, k) {
            Ok(x) => x,
            Err(e) => {
                proof {
                    assert(wire::props_list_at(seg_bytes, k as int) is None);
                }
                return Err(e);
            },
        };
        proof {
            wire::lemma_property_decode_bounds(seg_bytes, k as int);
        }
        let ghost p = (identifier.0, value@);
        proof {
            assert(wire::props_list_at(seg_bytes, 0) == (match wire::props_list_at(
                seg_bytes,
                k2 as int,
            ) {
                Option::<Seq<(u32, packets::ValueView)>>::None => Option::<
                    Seq<(u32, packets::ValueView)>,
                >::None,
                Option::<Seq<(u32, packets::ValueView)>>::Some(rest) => Some(done.push(p) + rest),
            })) by {
                match wire::props_list_at(seg_bytes, k2 as int) {
                    Option::<Seq<(u32, packets::ValueView)>>::None => {},
                    Option::<Seq<(u32, packets::ValueView)>>::Some(rest) => {
                        assert(wire::props_list_at(seg_bytes, k as int) == Some(seq![p] + rest));
                        assert(done + (seq![p] + rest) =~= done.push(p) + rest);
                    },
                }
            }
        }
        properties.insert(identifier, value);
        proof {
            assert(done.push(p).drop_last() =~= done);
            assert(props_map(done.push(p)) == props_map(done).insert(p.0, p.1));
            assert(entries_of(done.push(p)) == packets::insert_entry(entries_of(done), p.0, p.1));
        }
        let ghost done2 = done.push(p);
        proof {
            assert(properties@ == props_map(done2));
            assert(properties.entries_view() == entries_of(done2));
        }
        k = k2;
        proof {
            done = done2;
        }
    }
    proof {
        assert(wire::props_list_at(seg_bytes, plen as int) == Some(
            Seq::<(u32, packets::ValueView)>::empty(),
        ));
        assert(done + Seq::<(u32, packets::ValueView)>::empty() =~= done);
        assert(wire::props_list_at(seg_bytes, 0) == Some(done));
        assert(seg_bytes == input@.subrange(j as int, j as int + plen as int));
    }
    Ok((j + plen, properties))
}

// ---------------------------------------------------------------------------
// Fixed Header
// ---------------------------------------------------------------------------

/// Splits the first header byte into the packet type (top nibble) and the
/// flags (bottom nibble).
pub fn parse_fixed_header_first_byte(input: &[u8], pos: usize) -> (r: Result<
    (usize, (Bits, Bits)),
    Error,
>)
    ensures
        match r {
            Ok((j, t)) => wire::byte_decode_at(input@, pos as int) matches Some((jj, b)) && jj
                == j as int && t.0.0 == b >> 4 && t.1.0 == b & 0x0F,
            Err(e) => wire::byte_decode_at(input@, pos as int) is None && e is ParserError,
        },
{
    let (j, first_byte) = match parse_bits(input, pos) {
        Ok(x) => x,
        Err(e) => {
            return Err(e);
        },
    };
    let control_packet_type = Bits(first_byte.0 >> 4);
    let flags = Bits(first_byte.0 & 0x0F);
    Ok((j, (control_packet_type, flags)))
}

/// Reads a Fixed Header: the type/flags byte, then the remaining length as
/// a Variable Byte Integer.
pub fn parse_fixed_header(input: &[u8], pos: usize) -> (r: Result<(usize, FixedHeader), Error>)
    ensures
        match r {
            Ok((j, h)) => wire::fixed_header_decode_at(input@, pos as int) matches Some((jj, v))
                && jj == j as int && fh_matches(h, v),
            Err(e) => wire::fixed_header_decode_at(input@, pos as int) is None && e is ParserError,
        },
{
    let (j, typed_flags) = match parse_fixed_header_first_byte(input, pos) {
        Ok(x) => x,
        Err(e) => {
            return Err(e);
        },
    };
    let (control_packet_type, flags) = typed_flags;
    let (k, remaining_length) = match parse_variable_byte_integer(input, j) {
        Ok(x) => x,
        Err(e) => {
            return Err(e);
        },
    };
    match FixedHeader::new(control_packet_type, flags, remaining_length) {
        Ok(h) => Ok((k, h)),
        Err(e) => Err(e),
    }
}

// ---------------------------------------------------------------------------
// CONNECT
// ---------------------------------------------------------------------------

/// Reads the CONNECT variable header, in the order the specification
/// fixes: protocol name, protocol version, connect flags, keep alive,
/// properties.
pub fn parse_variable_header(input: &[u8], pos: usize) -> (r: Result<
    (usize, VariableHeader),
    Error,
>)
    ensures
        match r {
            Ok((j, vh)) => wire::variable_header_decode_at(input@, pos as int) matches Some(
                (jj, v),
            ) && jj == j as int && vh_matches(vh, v),
            Err(e) => wire::variable_header_decode_at(input@, pos as int) is None && (
            e is ParserError || e is ProtocolError),
        },
{
    let (i1, protocol_name) = match parse_utf8_encoded_string(input, pos) {
        Ok(x) => x,
        Err(e) => {
            return Err(e);
        },
    };
    let (i2, protocol_version) = match parse_bits(input, i1) {
        Ok(x) => x,
        Err(e) => {
            return Err(e);
        },
    };
    let (i3, connect_flags) = match parse_connect_flags(input, i2) {
        Ok(x) => x,
        Err(e) => {
            return Err(e);
        },
    };
    let (i4, keep_alive) = match parse_two_byte_integer(input, i3) {
        Ok(x) => x,
        Err(e) => {
            return Err(e);
        },
    };
    let (i5, properties) = match parse_properties(input, i4) {
        Ok(x) => x,
        Err(e) => {
            return Err(e);
        },
    };
    match VariableHeader::new(
        protocol_name,
        protocol_version,
        connect_flags,
        keep_alive,
        properties,
    ) {
        Ok(vh) => Ok((i5, vh)),
        Err(e) => Err(e),
    }
}

/// Reads the connect-flags byte.
fn parse_connect_flags(input: &[u8], pos: usize) -> (r: Result<(usize, ConnectFlags), Error>)
    ensures
        match r {
            Ok((j, f)) => wire::byte_decode_at(input@, pos as int) == Some((j as int, f.0.0)),
            Err(e) => wire::byte_decode_at(input@, pos as int) is None && e is ParserError,
        },
{
    let (j, flags) = match parse_bits(input, pos) {
        Ok(x) => x,
        Err(e) => {
            return Err(e);
        },
    };
    match ConnectFlags::new(flags) {
        Ok(f) => Ok((j, f)),
        Err(e) => Err(e),
    }
}

/// Reads the CONNECT payload under the given connect flags: the client
/// identifier, then will properties, will topic and will payload when the
/// will flag is set, then the user name and the password when their flags
/// are set.  A field whose flag is clear is not read and stays absent.
pub fn parse_payload(input: &[u8], pos: usize, connect_flags: ConnectFlags) -> (r: Result<
    (usize, Payload),
    Error,
>)
    ensures
        match r {
            Ok((j, p)) => wire::payload_decode_at(input@, pos as int, connect_flags.0.0)
                matches Some((jj, v)) && jj == j as int && payload_matches(p, v),
            Err(e) => wire::payload_decode_at(input@, pos as int, connect_flags.0.0) is None && (
            e is ParserError || e is ProtocolError),
        },
{
    let (i1, client_id) = match parse_utf8_encoded_string(input, pos) {
        Ok(x) => x,
        Err(e) => {
            return Err(e);
        },
    };
    let will = connect_flags.will_flag();
    let (i2, will_properties) = if will {
        match parse_properties(input, i1) {
            Ok((j, p)) => (j, Some(p)),
            Err(e) => {
                return Err(e);
            },
        }
    } else {
        (i1, None)
    };
    let (i3, will_topic) = if will {
        match parse_utf8_encoded_string(input, i2) {
            Ok((j, t)) => (j, Some(t)),
            Err(e) => {
                return Err(e);
            },
        }
    } else {
        (i2, None)
    };
    let (i4, will_payload) = if will {
        match parse_binary_data(input, i3) {
            Ok((j, d)) => (j, Some(d)),
            Err(e) => {
                return Err(e);
            },
        }
    } else {
        (i3, None)
    };
    let user = connect_flags.username();
    let (i5, user_name) = if user {
        match parse_utf8_encoded_string(input, i4) {
            Ok((j, u)) => (j, Some(u)),
            Err(e) => {
                return Err(e);
            },
        }
    } else {
        (i4, None)
    };
    let pass = connect_flags.password();
    let (i6, password) = if pass {
        match parse_binary_data(input, i5) {
            Ok((j, d)) => (j, Some(d)),
            Err(e) => {
                return Err(e);
            },
        }
    } else {
        (i5, None)
    };
    match Payload::new(client_id, will_properties, will_topic, will_payload, user_name, password) {
        Ok(p) => Ok((i6, p)),
        Err(e) => Err(e),
    }
}

/// Reads a whole CONNECT body after the given Fixed Header: the variable
/// header, then the payload under the flags the variable header carries.
pub fn connect_parser(fixed_header: FixedHeader, input: &[u8], pos: usize) -> (r: Result<
    (usize, Connect),
    Error,
>)
    ensures
        match r {
            Ok((j, c)) => wire::connect_decode_at(input@, pos as int) matches Some((jj, vh, p))
                && jj == j as int && c.fixed_header == fixed_header && connect_matches(c, vh, p),
            Err(e) => wire::connect_decode_at(input@, pos as int) is None && (e is ParserError
                || e is ProtocolError),
        },
{
    let (j, variable_header) = match parse_variable_header(input, pos) {
        Ok(x) => x,
        Err(e) => {
            return Err(e);
        },
    };
    let flags = variable_header.connect_flags;
    let (k, payload) = match parse_payload(input, j, flags) {
        Ok(x) => x,
        Err(e) => {
            return Err(e);
        },
    };
    match Connect::new(fixed_header, variable_header, payload) {
        Ok(c) => Ok((k, c)),
        Err(e) => Err(e),
    }
}

// ---------------------------------------------------------------------------
// Whole packets
// ---------------------------------------------------------------------------

/// Decodes one Control Packet out of the given bytes, which must hold
/// exactly one packet: the Fixed Header, then, for a CONNECT, the whole
/// CONNECT body.  A remaining length that is not the exact byte count after
/// the header is rejected before the body is parsed, and a body that ends
/// before that count is rejected too: the header's byte count is an
/// invariant, not a hint.  Every other packet type is recognised as not yet
/// implemented and fails cleanly.
pub fn decode(input: &[u8]) -> (r: Result<Packet, Error>)
    ensures
        match r {
            Ok(p) => wire::packet_decode(input@) matches Some((fh, vh, pl)) && (p matches
                Packet::Connect(c) && fh_matches(c.fixed_header, fh) && connect_matches(
                c,
                vh,
                pl,
            )),
            Err(e) => wire::packet_decode(input@) is None,
        },
        (match wire::fixed_header_decode_at(input@, 0) {
            Some((j, fh)) => {
                if fh.remaining_length != input@.len() - j {
                    r matches Err(e) && e is MalformedPacket
                } else if fh.control_packet_type != packets::CONNECT {
                    r matches Err(e) && e is Common
                } else {
                    match wire::connect_decode_at(input@, j) {
                        None => r matches Err(e) && (e is ParserError || e is ProtocolError),
                        Some((end, _, _)) => {
                            if end == input@.len() {
                                r is Ok
                            } else {
                                r matches Err(e) && e is MalformedPacket
                            }
                        },
                    }
                }
            },
            None => r matches Err(e) && e is Common,
        }),
{
    let (pos, fixed_header) = match parse_fixed_header(input, 0) {
        Ok(x) => x,
        Err(_) => {
            return Err(Error::Common("failed to parse the fixed header".to_owned()));
        },
    };
    proof {
        wire::lemma_vbi_decode_bounds(input@, 1, 4);
    }
    if (fixed_header.remaining_length.0 as usize) != input.len() - pos {
        return Err(
            Error::MalformedPacket(
                "the remaining length is not the byte count after the fixed header".to_owned(),
            ),
        );
    }
    if fixed_header.control_packet_type.0 == packets::CONNECT {
        match connect_parser(fixed_header, input, pos) {
            Ok((end, connect)) => {
                if end == input.len() {
                    Ok(Packet::Connect(connect))
                } else {
                    Err(
                        Error::MalformedPacket(
                            "the CONNECT body ends before the remaining length is used up".to_owned(),
                        ),
                    )
                }
            },
            Err(e) => Err(e),
        }
    } else {
        Err(Error::Common("this control packet type is not implemented yet".to_owned()))
    }
}

} // verus!
