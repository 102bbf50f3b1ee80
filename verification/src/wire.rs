//! The byte-level model of the MQTT 5.0 wire format.
//!
//! Every encoder and decoder of the crate is specified against the spec
//! functions of this module.  Decoding is modelled by total functions from a
//! byte sequence and a start position to an `Option` of the end position and
//! the decoded value; encoding is modelled by functions from values to byte
//! sequences.

use vstd::prelude::*;
use vstd::utf8;

use crate::packets;
use crate::packets::ValueView;

verus! {

/// The largest value a Variable Byte Integer can carry (1.5.5 of the MQTT
/// 5.0 specification): four base-128 digits.
pub const VARIABLE_BYTE_INTEGER_MAX: u32 = 0x0FFF_FFFF;

// ---------------------------------------------------------------------------
// Fixed-width big-endian integers
// ---------------------------------------------------------------------------

/// The value of a big-endian Two Byte Integer.
pub open spec fn be16_value(b0: u8, b1: u8) -> int {
    b0 * 0x100 + b1
}

/// The value of a big-endian Four Byte Integer.
pub open spec fn be32_value(b0: u8, b1: u8, b2: u8, b3: u8) -> int {
    b0 * 0x100_0000 + b1 * 0x1_0000 + b2 * 0x100 + b3
}

/// The two-byte big-endian encoding of a 16-bit value.
pub open spec fn u16_be_bytes(v: u16) -> Seq<u8> {
    seq![(v / 0x100) as u8, (v % 0x100) as u8]
}

/// The four-byte big-endian encoding of a 32-bit value.
pub open spec fn u32_be_bytes(v: u32) -> Seq<u8> {
    seq![
        (v / 0x100_0000) as u8,
        ((v / 0x1_0000) % 0x100) as u8,
        ((v / 0x100) % 0x100) as u8,
        (v % 0x100) as u8,
    ]
}

/// Reading back the two bytes of `u16_be_bytes` yields the value again.
pub proof fn lemma_u16_be_round_trip(v: u16)
    ensures
        be16_value(u16_be_bytes(v)[0], u16_be_bytes(v)[1]) == v,
{
}

/// Reading back the four bytes of `u32_be_bytes` yields the value again.
pub proof fn lemma_u32_be_round_trip(v: u32)
    ensures
        be32_value(
            u32_be_bytes(v)[0],
            u32_be_bytes(v)[1],
            u32_be_bytes(v)[2],
            u32_be_bytes(v)[3],
        ) == v,
{
}

// ---------------------------------------------------------------------------
// Variable Byte Integer
// ---------------------------------------------------------------------------

/// The base-128 little-endian encoding with continuation bits (1.5.5 of the
/// MQTT 5.0 specification): the least significant seven bits come first, and
/// every byte but the last has its top bit set.
pub open spec fn vbi_bytes(v: nat) -> Seq<u8>
    decreases v,
{
    if v < 0x80 {
        seq![v as u8]
    } else {
        seq![((v % 0x80) + 0x80) as u8] + vbi_bytes(v / 0x80)
    }
}

/// Decoding of a Variable Byte Integer starting at position `i`, reading at
/// most `fuel` bytes.  The result is the position after the last byte read
/// and the decoded value.  Decoding fails on truncated input and when no
/// terminating byte (top bit clear) occurs within `fuel` bytes; with the
/// wire format's fuel of 4 that rejects every value above
/// `VARIABLE_BYTE_INTEGER_MAX`.
pub open spec fn vbi_decode_at(bytes: Seq<u8>, i: int, fuel: nat) -> Option<(int, int)>
    decreases fuel,
{
    if fuel == 0 || i < 0 || i >= bytes.len() {
        None
    } else if bytes[i] < 0x80 {
        Some((i + 1, bytes[i] as int))
    } else {
        match vbi_decode_at(bytes, i + 1, (fuel - 1) as nat) {
            None => None,
            Some((j, rest)) => Some((j, (bytes[i] - 0x80) + 0x80 * rest)),
        }
    }
}

/// 128 raised to `n`; the bound on what `n` base-128 digits can carry.
pub open spec fn pow128(n: nat) -> int
    decreases n,
{
    if n == 0 {
        1
    } else {
        0x80 * pow128((n - 1) as nat)
    }
}

/// A decoded Variable Byte Integer lies below `pow128(fuel)`, and its end
/// position lies at most `fuel` bytes past the start and inside the input.
pub proof fn lemma_vbi_decode_bounds(bytes: Seq<u8>, i: int, fuel: nat)
    ensures
        match vbi_decode_at(bytes, i, fuel) {
            Some((j, v)) => i < j <= i + fuel && j <= bytes.len() && 0 <= v < pow128(fuel),
            None => true,
        },
    decreases fuel,
{
    if fuel == 0 || i < 0 || i >= bytes.len() {
    } else if bytes[i] < 0x80 {
        assert(pow128(fuel) == 0x80 * pow128((fuel - 1) as nat));
        assert(pow128((fuel - 1) as nat) >= 1) by {
            lemma_pow128_positive((fuel - 1) as nat);
        }
    } else {
        lemma_vbi_decode_bounds(bytes, i + 1, (fuel - 1) as nat);
        match vbi_decode_at(bytes, i + 1, (fuel - 1) as nat) {
            None => {},
            Some((j, rest)) => {
                assert(pow128(fuel) == 0x80 * pow128((fuel - 1) as nat));
            },
        }
    }
}

/// `pow128` is at least one.
pub proof fn lemma_pow128_positive(n: nat)
    ensures
        pow128(n) >= 1,
    decreases n,
{
    if n > 0 {
        lemma_pow128_positive((n - 1) as nat);
    }
}

/// The first five powers of 128, for the proofs that bound a Variable Byte
/// Integer by its digit count.
pub proof fn lemma_pow128_values()
    ensures
        pow128(0) == 1,
        pow128(1) == 0x80,
        pow128(2) == 0x4000,
        pow128(3) == 0x20_0000,
        pow128(4) == 0x1000_0000,
{
    assert(pow128(1) == 0x80 * pow128(0));
    assert(pow128(2) == 0x80 * pow128(1));
    assert(pow128(3) == 0x80 * pow128(2));
    assert(pow128(4) == 0x80 * pow128(3));
}

/// An encoded Variable Byte Integer takes one byte per base-128 digit:
/// values below `pow128(n)` take at most `n` bytes.
pub proof fn lemma_vbi_bytes_len(v: nat, n: nat)
    requires
        n >= 1,
        v < pow128(n),
    ensures
        1 <= vbi_bytes(v).len() <= n,
    decreases n,
{
    if v < 0x80 {
    } else {
        assert(pow128(n) == 0x80 * pow128((n - 1) as nat));
        lemma_vbi_bytes_len(v / 0x80, (n - 1) as nat);
    }
}

/// Round trip: the decoder applied to an encoded value surrounded by
/// arbitrary context yields exactly that value and stops right after its
/// last byte.
pub proof fn lemma_vbi_round_trip(bytes: Seq<u8>, i: int, v: nat, fuel: nat)
    requires
        fuel >= 1,
        v < pow128(fuel),
        0 <= i,
        i + vbi_bytes(v).len() <= bytes.len(),
        bytes.subrange(i, i + vbi_bytes(v).len() as int) == vbi_bytes(v),
    ensures
        vbi_decode_at(bytes, i, fuel) == Some((i + vbi_bytes(v).len() as int, v as int)),
    decreases fuel,
{
    let enc = vbi_bytes(v);
    assert(bytes[i] == enc[0]);
    if v < 0x80 {
        assert(enc =~= seq![v as u8]);
        assert(bytes[i] == v as u8);
    } else {
        let rest_enc = vbi_bytes(v / 0x80);
        assert(enc == seq![((v % 0x80) + 0x80) as u8] + rest_enc);
        assert(bytes[i] == ((v % 0x80) + 0x80) as u8);
        assert(bytes[i] >= 0x80);
        assert(fuel >= 2) by {
            if fuel == 1 {
                assert(pow128(fuel) == 0x80 * pow128(0));
            }
        }
        assert(pow128(fuel) == 0x80 * pow128((fuel - 1) as nat));
        assert(v / 0x80 < pow128((fuel - 1) as nat));
        assert(bytes.subrange(i + 1, i + 1 + rest_enc.len() as int) =~= rest_enc) by {
            assert(forall|k: int|
                0 <= k < rest_enc.len() ==> bytes[i + 1 + k] == enc[1 + k] && enc[1 + k]
                    == rest_enc[k]);
        }
        lemma_vbi_round_trip(bytes, i + 1, v / 0x80, (fuel - 1) as nat);
        assert(vbi_decode_at(bytes, i + 1, (fuel - 1) as nat) == Some(
            (i + 1 + rest_enc.len() as int, (v / 0x80) as int),
        ));
        assert((bytes[i] - 0x80) + 0x80 * ((v / 0x80) as int) == v as int);
    }
}

// ---------------------------------------------------------------------------
// Strings and binary data
// ---------------------------------------------------------------------------

/// The characters that best-effort UTF-8 decoding yields for bytes that are
/// not valid UTF-8: each invalid sequence becomes replacement characters.
/// The exact substitution is the one `utf8_lossy_decode` relies on.
pub uninterp spec fn utf8_lossy(bytes: Seq<u8>) -> Seq<char>;

/// The characters that best-effort UTF-8 decoding yields: valid UTF-8
/// decodes to exactly the characters it encodes, anything else goes through
/// the substitution of `utf8_lossy`.
pub open spec fn lossy_chars(bytes: Seq<u8>) -> Seq<char> {
    if utf8::valid_utf8(bytes) {
        utf8::decode_utf8(bytes)
    } else {
        utf8_lossy(bytes)
    }
}

/// The wire form of a UTF-8 Encoded String: a two-byte big-endian byte
/// count, then the UTF-8 bytes of the characters.
pub open spec fn string_bytes(s: Seq<char>) -> Seq<u8> {
    u16_be_bytes(utf8::encode_utf8(s).len() as u16) + utf8::encode_utf8(s)
}

/// A string fits on the wire when its UTF-8 form fits the two-byte length
/// prefix.
pub open spec fn string_encodable(s: Seq<char>) -> bool {
    utf8::encode_utf8(s).len() <= 0xFFFF
}

/// The wire form of Binary Data: a two-byte big-endian byte count, then the
/// raw bytes.
pub open spec fn binary_bytes(d: Seq<u8>) -> Seq<u8> {
    u16_be_bytes(d.len() as u16) + d
}

/// A blob fits on the wire when its byte count fits the two-byte length
/// prefix.
pub open spec fn binary_encodable(d: Seq<u8>) -> bool {
    d.len() <= 0xFFFF
}

/// Decoding of a single byte.
pub open spec fn byte_decode_at(bytes: Seq<u8>, i: int) -> Option<(int, u8)> {
    if 0 <= i && i + 1 <= bytes.len() {
        Some((i + 1, bytes[i]))
    } else {
        None
    }
}

/// Decoding of a Two Byte Integer.
pub open spec fn u16_decode_at(bytes: Seq<u8>, i: int) -> Option<(int, u16)> {
    if 0 <= i && i + 2 <= bytes.len() {
        Some((i + 2, be16_value(bytes[i], bytes[i + 1]) as u16))
    } else {
        None
    }
}

/// Decoding of a Four Byte Integer.
pub open spec fn u32_decode_at(bytes: Seq<u8>, i: int) -> Option<(int, u32)> {
    if 0 <= i && i + 4 <= bytes.len() {
        Some((i + 4, be32_value(bytes[i], bytes[i + 1], bytes[i + 2], bytes[i + 3]) as u32))
    } else {
        None
    }
}

/// Decoding of a UTF-8 Encoded String: a length, that many bytes, decoded
/// lossily.  It fails only on truncated input, never on malformed text.
pub open spec fn string_decode_at(bytes: Seq<u8>, i: int) -> Option<(int, Seq<char>)> {
    match u16_decode_at(bytes, i) {
        None => None,
        Some((j, l)) => {
            if j + l <= bytes.len() {
                Some((j + l, lossy_chars(bytes.subrange(j, j + l))))
            } else {
                None
            }
        },
    }
}

/// Decoding of Binary Data: a length, then that many raw bytes.
pub open spec fn binary_decode_at(bytes: Seq<u8>, i: int) -> Option<(int, Seq<u8>)> {
    match u16_decode_at(bytes, i) {
        None => None,
        Some((j, l)) => {
            if j + l <= bytes.len() {
                Some((j + l, bytes.subrange(j, j + l)))
            } else {
                None
            }
        },
    }
}

/// Decoding of a UTF-8 String Pair: two consecutive strings, key then
/// value.
pub open spec fn pair_decode_at(bytes: Seq<u8>, i: int) -> Option<(int, (Seq<char>, Seq<char>))> {
    match string_decode_at(bytes, i) {
        None => None,
        Some((j, k)) => match string_decode_at(bytes, j) {
            None => None,
            Some((l, v)) => Some((l, (k, v))),
        },
    }
}

// ---------------------------------------------------------------------------
// The property registry (2.2.2.2 of the MQTT 5.0 specification)
// ---------------------------------------------------------------------------

/// The wire type a property identifier carries.
#[derive(Debug, Eq, PartialEq, Clone, Copy, Structural)]
pub enum PropertyKind {
    Bits,
    TwoByteInteger,
    FourByteInteger,
    Utf8String,
    VariableByteInteger,
    Binary,
    StringPair,
}

/// The registry: the wire type of each of the twenty-seven property
/// identifiers, and nothing of any other identifier.
pub open spec fn spec_property_kind(id: int) -> Option<PropertyKind> {
    if id == packets::PAYLOAD_FORMAT_INDICATOR {
        Some(PropertyKind::Bits)
    } else if id == packets::MESSAGE_EXPIRY_INTERVAL {
        Some(PropertyKind::FourByteInteger)
    } else if id == packets::CONTENT_TYPE {
        Some(PropertyKind::Utf8String)
    } else if id == packets::RESPONSE_TOPIC {
        Some(PropertyKind::Utf8String)
    } else if id == packets::CORRELATION_DATA {
        Some(PropertyKind::Binary)
    } else if id == packets::SUBSCRIPTION_IDENTIFIER {
        Some(PropertyKind::VariableByteInteger)
    } else if id == packets::SESSION_EXPIRY_INTERVAL {
        Some(PropertyKind::FourByteInteger)
    } else if id == packets::ASSIGNED_CLIENT_IDENTIFIER {
        Some(PropertyKind::Utf8String)
    } else if id == packets::SERVER_KEEP_ALIVE {
        Some(PropertyKind::TwoByteInteger)
    } else if id == packets::AUTHENTICATION_METHOD {
        Some(PropertyKind::Utf8String)
    } else if id == packets::AUTHENTICATION_DATA {
        Some(PropertyKind::Binary)
    } else if id == packets::REQUEST_PROBLEM_INFORMATION {
        Some(PropertyKind::Bits)
    } else if id == packets::WILL_DELAY_INTERVAL {
        Some(PropertyKind::FourByteInteger)
    } else if id == packets::REQUEST_RESPONSE_INFORMATION {
        Some(PropertyKind::Bits)
    } else if id == packets::RESPONSE_INFORMATION {
        Some(PropertyKind::Utf8String)
    } else if id == packets::SERVER_REFERENCE {
        Some(PropertyKind::Utf8String)
    } else if id == packets::REASON_STRING {
        Some(PropertyKind::Utf8String)
    } else if id == packets::RECEIVE_MAXIMUM {
        Some(PropertyKind::TwoByteInteger)
    } else if id == packets::TOPIC_ALIAS_MAXIMUM {
        Some(PropertyKind::TwoByteInteger)
    } else if id == packets::TOPIC_ALIAS {
        Some(PropertyKind::TwoByteInteger)
    } else if id == packets::MAXIMUM_QOS {
        Some(PropertyKind::Bits)
    } else if id == packets::RETAIN_AVAILABLE {
        Some(PropertyKind::Bits)
    } else if id == packets::USER_PROPERTY {
        Some(PropertyKind::StringPair)
    } else if id == packets::MAXIMUM_PACKET_SIZE {
        Some(PropertyKind::FourByteInteger)
    } else if id == packets::WILDCARD_SUBSCRIPTION_AVAILABLE {
        Some(PropertyKind::Bits)
    } else if id == packets::SUBSCRIPTION_IDENTIFIER_AVAILABLE {
        Some(PropertyKind::Bits)
    } else if id == packets::SHARED_SUBSCRIPTION_AVAILABLE {
        Some(PropertyKind::Bits)
    } else {
        None
    }
}

/// Looks an identifier up in the registry.
pub fn property_kind(id: u32) -> (k: Option<PropertyKind>)
    ensures
        k == spec_property_kind(id as int),
{
    match id {
        packets::PAYLOAD_FORMAT_INDICATOR => Some(PropertyKind::Bits),
        packets::MESSAGE_EXPIRY_INTERVAL => Some(PropertyKind::FourByteInteger),
        packets::CONTENT_TYPE => Some(PropertyKind::Utf8String),
        packets::RESPONSE_TOPIC => Some(PropertyKind::Utf8String),
        packets::CORRELATION_DATA => Some(PropertyKind::Binary),
        packets::SUBSCRIPTION_IDENTIFIER => Some(PropertyKind::VariableByteInteger),
        packets::SESSION_EXPIRY_INTERVAL => Some(PropertyKind::FourByteInteger),
        packets::ASSIGNED_CLIENT_IDENTIFIER => Some(PropertyKind::Utf8String),
        packets::SERVER_KEEP_ALIVE => Some(PropertyKind::TwoByteInteger),
        packets::AUTHENTICATION_METHOD => Some(PropertyKind::Utf8String),
        packets::AUTHENTICATION_DATA => Some(PropertyKind::Binary),
        packets::REQUEST_PROBLEM_INFORMATION => Some(PropertyKind::Bits),
        packets::WILL_DELAY_INTERVAL => Some(PropertyKind::FourByteInteger),
        packets::REQUEST_RESPONSE_INFORMATION => Some(PropertyKind::Bits),
        packets::RESPONSE_INFORMATION => Some(PropertyKind::Utf8String),
        packets::SERVER_REFERENCE => Some(PropertyKind::Utf8String),
        packets::REASON_STRING => Some(PropertyKind::Utf8String),
        packets::RECEIVE_MAXIMUM => Some(PropertyKind::TwoByteInteger),
        packets::TOPIC_ALIAS_MAXIMUM => Some(PropertyKind::TwoByteInteger),
        packets::TOPIC_ALIAS => Some(PropertyKind::TwoByteInteger),
        packets::MAXIMUM_QOS => Some(PropertyKind::Bits),
        packets::RETAIN_AVAILABLE => Some(PropertyKind::Bits),
        packets::USER_PROPERTY => Some(PropertyKind::StringPair),
        packets::MAXIMUM_PACKET_SIZE => Some(PropertyKind::FourByteInteger),
        packets::WILDCARD_SUBSCRIPTION_AVAILABLE => Some(PropertyKind::Bits),
        packets::SUBSCRIPTION_IDENTIFIER_AVAILABLE => Some(PropertyKind::Bits),
        packets::SHARED_SUBSCRIPTION_AVAILABLE => Some(PropertyKind::Bits),
        _ => None,
    }
}

// ---------------------------------------------------------------------------
// Property values and property blocks
// ---------------------------------------------------------------------------

/// Decoding of one property value of the given wire type.
pub open spec fn value_decode_at(bytes: Seq<u8>, i: int, k: PropertyKind) -> Option<
    (int, ValueView),
> {
    match k {
        PropertyKind::Bits => match byte_decode_at(bytes, i) {
            None => None,
            Some((j, b)) => Some((j, ValueView::Bits(b))),
        },
        PropertyKind::TwoByteInteger => match u16_decode_at(bytes, i) {
            None => None,
            Some((j, v)) => Some((j, ValueView::TwoByteInteger(v))),
        },
        PropertyKind::FourByteInteger => match u32_decode_at(bytes, i) {
            None => None,
            Some((j, v)) => Some((j, ValueView::FourByteInteger(v))),
        },
        PropertyKind::Utf8String => match string_decode_at(bytes, i) {
            None => None,
            Some((j, s)) => Some((j, ValueView::Utf8String(s))),
        },
        PropertyKind::VariableByteInteger => match vbi_decode_at(bytes, i, 4) {
            None => None,
            Some((j, v)) => Some((j, ValueView::VariableByteInteger(v as u32))),
        },
        PropertyKind::Binary => match binary_decode_at(bytes, i) {
            None => None,
            Some((j, d)) => Some((j, ValueView::Binary(d))),
        },
        PropertyKind::StringPair => match pair_decode_at(bytes, i) {
            None => None,
            Some((j, p)) => Some((j, ValueView::StringPair(p.0, p.1))),
        },
    }
}

/// Decoding of one property: the identifier as a Variable Byte Integer,
/// then the value of the wire type the registry assigns to it.  An
/// identifier outside the registry fails.
pub open spec fn property_decode_at(bytes: Seq<u8>, i: int) -> Option<(int, (u32, ValueView))> {
    match vbi_decode_at(bytes, i, 4) {
        None => None,
        Some((j, id)) => match spec_property_kind(id) {
            None => None,
            Some(k) => match value_decode_at(bytes, j, k) {
                None => None,
                Some((l, v)) => Some((l, (id as u32, v))),
            },
        },
    }
}

/// Decoding of the identifier/value pairs that fill a property block from
/// position `i` to its end.
pub open spec fn props_list_at(seg: Seq<u8>, i: int) -> Option<Seq<(u32, ValueView)>>
    decreases seg.len() - i,
{
    if i < 0 || i > seg.len() {
        None
    } else if i == seg.len() {
        Some(Seq::empty())
    } else {
        match property_decode_at(seg, i) {
            None => None,
            Some((j, p)) => {
                if i < j <= seg.len() {
                    match props_list_at(seg, j) {
                        None => None,
                        Some(rest) => Some(seq![p] + rest),
                    }
                } else {
                    None
                }
            },
        }
    }
}

/// Decoding of a whole property block: its byte count as a Variable Byte
/// Integer, then exactly that many bytes of identifier/value pairs.
pub open spec fn properties_decode_at(bytes: Seq<u8>, i: int) -> Option<
    (int, Seq<(u32, ValueView)>),
> {
    match vbi_decode_at(bytes, i, 4) {
        None => None,
        Some((j, plen)) => {
            if j + plen <= bytes.len() {
                match props_list_at(bytes.subrange(j, j + plen), 0) {
                    None => None,
                    Some(s) => Some((j + plen, s)),
                }
            } else {
                None
            }
        },
    }
}

/// A decoded value always consumes at least one byte and stays inside the
/// input.
pub proof fn lemma_value_decode_bounds(bytes: Seq<u8>, i: int, k: PropertyKind)
    ensures
        match value_decode_at(bytes, i, k) {
            Some((j, _)) => i < j <= bytes.len(),
            None => true,
        },
{
    match k {
        PropertyKind::VariableByteInteger => {
            lemma_vbi_decode_bounds(bytes, i, 4);
        },
        _ => {},
    }
}

/// A decoded property always consumes at least one byte and stays inside
/// the input.
pub proof fn lemma_property_decode_bounds(bytes: Seq<u8>, i: int)
    ensures
        match property_decode_at(bytes, i) {
            Some((j, _)) => i < j <= bytes.len(),
            None => true,
        },
{
    lemma_vbi_decode_bounds(bytes, i, 4);
    match vbi_decode_at(bytes, i, 4) {
        None => {},
        Some((j, id)) => match spec_property_kind(id) {
            None => {},
            Some(k) => {
                lemma_value_decode_bounds(bytes, j, k);
            },
        },
    }
}

// ---------------------------------------------------------------------------
// Encoding of values and property blocks
// ---------------------------------------------------------------------------

/// The wire form of one property value.
pub open spec fn value_bytes(v: ValueView) -> Seq<u8> {
    match v {
        ValueView::Bits(b) => seq![b],
        ValueView::TwoByteInteger(x) => u16_be_bytes(x),
        ValueView::FourByteInteger(x) => u32_be_bytes(x),
        ValueView::Utf8String(s) => string_bytes(s),
        ValueView::VariableByteInteger(x) => vbi_bytes(x as nat),
        ValueView::Binary(d) => binary_bytes(d),
        ValueView::StringPair(k, w) => string_bytes(k) + string_bytes(w),
    }
}

/// True when the value fits its wire form: string and blob lengths fit
/// their prefixes, and a Variable Byte Integer fits four digits.
pub open spec fn value_encodable(v: ValueView) -> bool {
    match v {
        ValueView::Bits(_) => true,
        ValueView::TwoByteInteger(_) => true,
        ValueView::FourByteInteger(_) => true,
        ValueView::Utf8String(s) => string_encodable(s),
        ValueView::VariableByteInteger(x) => x <= VARIABLE_BYTE_INTEGER_MAX,
        ValueView::Binary(d) => binary_encodable(d),
        ValueView::StringPair(k, w) => string_encodable(k) && string_encodable(w),
    }
}

/// The wire form of one property: its identifier, then its value.
pub open spec fn property_bytes(e: (u32, ValueView)) -> Seq<u8> {
    vbi_bytes(e.0 as nat) + value_bytes(e.1)
}

/// True when a property fits its wire form.
pub open spec fn property_encodable(e: (u32, ValueView)) -> bool {
    e.0 <= VARIABLE_BYTE_INTEGER_MAX && value_encodable(e.1)
}

/// The body of a property block: every property in order, without the
/// leading byte count.
pub open spec fn props_body_bytes(s: Seq<(u32, ValueView)>) -> Seq<u8>
    decreases s.len(),
{
    if s.len() == 0 {
        Seq::empty()
    } else {
        property_bytes(s[0]) + props_body_bytes(s.drop_first())
    }
}

/// True when every property of the block fits its wire form.
pub open spec fn props_encodable(s: Seq<(u32, ValueView)>) -> bool {
    forall|i: int| 0 <= i < s.len() ==> property_encodable(#[trigger] s[i])
}

/// The wire form of a whole property block: its byte count, then its body.
pub open spec fn properties_block_bytes(s: Seq<(u32, ValueView)>) -> Seq<u8> {
    vbi_bytes(props_body_bytes(s).len() as nat) + props_body_bytes(s)
}

/// Appending a property to a block appends its bytes to the body.
pub proof fn lemma_props_body_push(s: Seq<(u32, ValueView)>, e: (u32, ValueView))
    ensures
        props_body_bytes(s.push(e)) == props_body_bytes(s) + property_bytes(e),
    decreases s.len(),
{
    if s.len() == 0 {
        assert(s.push(e)[0] == e);
        assert(s.push(e).drop_first() =~= Seq::<(u32, ValueView)>::empty());
        assert(props_body_bytes(s.push(e)) == property_bytes(e) + props_body_bytes(
            Seq::<(u32, ValueView)>::empty(),
        ));
        assert(property_bytes(e) + Seq::<u8>::empty() =~= property_bytes(e));
        assert(props_body_bytes(s) + property_bytes(e) =~= property_bytes(e));
    } else {
        assert(s.push(e).drop_first() =~= s.drop_first().push(e));
        assert(s.push(e)[0] == s[0]);
        lemma_props_body_push(s.drop_first(), e);
        assert(props_body_bytes(s.push(e)) == property_bytes(s[0]) + (props_body_bytes(
            s.drop_first(),
        ) + property_bytes(e)));
        assert(property_bytes(s[0]) + (props_body_bytes(s.drop_first()) + property_bytes(e))
            =~= (property_bytes(s[0]) + props_body_bytes(s.drop_first())) + property_bytes(e));
    }
}

// ---------------------------------------------------------------------------
// Fixed Header
// ---------------------------------------------------------------------------

/// The mathematical content of a Fixed Header: the four-bit packet type,
/// the four-bit flags, and the remaining length.
pub struct FixedHeaderView {
    pub control_packet_type: u8,
    pub flags: u8,
    pub remaining_length: u32,
}

/// The first byte of a Fixed Header: the packet type in the top nibble, the
/// flags in the bottom one.
pub open spec fn fh_first_byte(cpt: u8, flags: u8) -> u8 {
    (cpt << 4) | (flags & 0x0F)
}

/// Decoding of a Fixed Header: one byte split into type and flags, then the
/// remaining length as a Variable Byte Integer.
pub open spec fn fixed_header_decode_at(bytes: Seq<u8>, i: int) -> Option<
    (int, FixedHeaderView),
> {
    if 0 <= i < bytes.len() {
        match vbi_decode_at(bytes, i + 1, 4) {
            None => None,
            Some((j, rl)) => Some(
                (
                    j,
                    FixedHeaderView {
                        control_packet_type: bytes[i] >> 4,
                        flags: bytes[i] & 0x0F,
                        remaining_length: rl as u32,
                    },
                ),
            ),
        }
    } else {
        None
    }
}

// ---------------------------------------------------------------------------
// The CONNECT body (3.1 of the MQTT 5.0 specification)
// ---------------------------------------------------------------------------

/// The mathematical content of a CONNECT variable header.
pub struct VariableHeaderView {
    pub protocol_name: Seq<char>,
    pub protocol_version: u8,
    pub connect_flags: u8,
    pub keep_alive: u16,
    pub properties: Seq<(u32, ValueView)>,
}

/// The mathematical content of a CONNECT payload.
pub struct PayloadView {
    pub client_id: Seq<char>,
    pub will_properties: Option<Seq<(u32, ValueView)>>,
    pub will_topic: Option<Seq<char>>,
    pub will_payload: Option<Seq<u8>>,
    pub user_name: Option<Seq<char>>,
    pub password: Option<Seq<u8>>,
}

/// Decoding of a CONNECT variable header, in the order the specification
/// fixes: protocol name, protocol version, connect flags, keep alive,
/// properties.
pub open spec fn variable_header_decode_at(bytes: Seq<u8>, i: int) -> Option<
    (int, VariableHeaderView),
> {
    match string_decode_at(bytes, i) {
        None => None,
        Some((i1, name)) => match byte_decode_at(bytes, i1) {
            None => None,
            Some((i2, version)) => match byte_decode_at(bytes, i2) {
                None => None,
                Some((i3, flags)) => match u16_decode_at(bytes, i3) {
                    None => None,
                    Some((i4, keep_alive)) => match properties_decode_at(bytes, i4) {
                        None => None,
                        Some((i5, properties)) => Some(
                            (
                                i5,
                                VariableHeaderView {
                                    protocol_name: name,
                                    protocol_version: version,
                                    connect_flags: flags,
                                    keep_alive,
                                    properties,
                                },
                            ),
                        ),
                    },
                },
            },
        },
    }
}

/// Decoding of a CONNECT payload under the given connect flags: the client
/// identifier, then each flag-gated field exactly when its flag is set.
pub open spec fn payload_decode_at(bytes: Seq<u8>, i: int, flags: u8) -> Option<
    (int, PayloadView),
> {
    match string_decode_at(bytes, i) {
        None => None,
        Some((i1, client_id)) => {
            let will = crate::packets::connect::flag_will(flags);
            let wp = if will {
                properties_decode_at(bytes, i1)
            } else {
                Some((i1, Seq::empty()))
            };
            match wp {
                None => None,
                Some((i2, will_props)) => {
                    let wt = if will {
                        string_decode_at(bytes, i2)
                    } else {
                        Some((i2, Seq::empty()))
                    };
                    match wt {
                        None => None,
                        Some((i3, will_topic)) => {
                            let wl = if will {
                                binary_decode_at(bytes, i3)
                            } else {
                                Some((i3, Seq::empty()))
                            };
                            match wl {
                                None => None,
                                Some((i4, will_payload)) => {
                                    let user = crate::packets::connect::flag_username(flags);
                                    let un = if user {
                                        string_decode_at(bytes, i4)
                                    } else {
                                        Some((i4, Seq::empty()))
                                    };
                                    match un {
                                        None => None,
                                        Some((i5, user_name)) => {
                                            let pass = crate::packets::connect::flag_password(
                                                flags,
                                            );
                                            let pw = if pass {
                                                binary_decode_at(bytes, i5)
                                            } else {
                                                Some((i5, Seq::empty()))
                                            };
                                            match pw {
                                                None => None,
                                                Some((i6, password)) => Some(
                                                    (
                                                        i6,
                                                        PayloadView {
                                                            client_id,
                                                            will_properties: if will {
                                                                Some(will_props)
                                                            } else {
                                                                None
                                                            },
                                                            will_topic: if will {
                                                                Some(will_topic)
                                                            } else {
                                                                None
                                                            },
                                                            will_payload: if will {
                                                                Some(will_payload)
                                                            } else {
                                                                None
                                                            },
                                                            user_name: if user {
                                                                Some(user_name)
                                                            } else {
                                                                None
                                                            },
                                                            password: if pass {
                                                                Some(password)
                                                            } else {
                                                                None
                                                            },
                                                        },
                                                    ),
                                                ),
                                            }
                                        },
                                    }
                                },
                            }
                        },
                    }
                },
            }
        },
    }
}

/// Law: the decoder enforces the flag-gated fields.  Whatever the input
/// bytes, a payload that decodes under some connect flags carries each
/// optional field exactly when the corresponding flag bit is set.
pub proof fn lemma_decoded_payload_agrees_with_flags(bytes: Seq<u8>, i: int, flags: u8)
    ensures
        payload_decode_at(bytes, i, flags) matches Some((_, p)) ==> {
            &&& (crate::packets::connect::flag_will(flags) <==> p.will_properties is Some)
            &&& (crate::packets::connect::flag_will(flags) <==> p.will_topic is Some)
            &&& (crate::packets::connect::flag_will(flags) <==> p.will_payload is Some)
            &&& (crate::packets::connect::flag_username(flags) <==> p.user_name is Some)
            &&& (crate::packets::connect::flag_password(flags) <==> p.password is Some)
        },
{
}

/// Decoding of a whole CONNECT body: the variable header, then the payload
/// under the flags the variable header carries.
pub open spec fn connect_decode_at(bytes: Seq<u8>, i: int) -> Option<
    (int, VariableHeaderView, PayloadView),
> {
    match variable_header_decode_at(bytes, i) {
        None => None,
        Some((j, vh)) => match payload_decode_at(bytes, j, vh.connect_flags) {
            None => None,
            Some((k, p)) => Some((k, vh, p)),
        },
    }
}

// ---------------------------------------------------------------------------
// Round trips: decoding an encoding yields the value again
// ---------------------------------------------------------------------------

/// The wire type of a tagged value.
pub open spec fn kind_of(v: ValueView) -> PropertyKind {
    match v {
        ValueView::Bits(_) => PropertyKind::Bits,
        ValueView::TwoByteInteger(_) => PropertyKind::TwoByteInteger,
        ValueView::FourByteInteger(_) => PropertyKind::FourByteInteger,
        ValueView::Utf8String(_) => PropertyKind::Utf8String,
        ValueView::VariableByteInteger(_) => PropertyKind::VariableByteInteger,
        ValueView::Binary(_) => PropertyKind::Binary,
        ValueView::StringPair(_, _) => PropertyKind::StringPair,
    }
}

/// True when a property's value has exactly the wire type the registry
/// assigns to its identifier.
pub open spec fn property_well_typed(e: (u32, ValueView)) -> bool {
    spec_property_kind(e.0 as int) == Some(kind_of(e.1))
}

/// Round trip of a string: wherever its wire form stands in a byte
/// sequence, decoding from its first byte yields the characters again and
/// stops right after its last byte.
pub proof fn lemma_string_round_trip(bytes: Seq<u8>, i: int, s: Seq<char>)
    requires
        string_encodable(s),
        0 <= i,
        i + string_bytes(s).len() <= bytes.len(),
        bytes.subrange(i, i + string_bytes(s).len() as int) == string_bytes(s),
    ensures
        string_decode_at(bytes, i) == Some((i + string_bytes(s).len() as int, s)),
{
    let enc = utf8::encode_utf8(s);
    let l = enc.len() as int;
    let sb = string_bytes(s);
    assert(sb.len() == 2 + l);
    assert(bytes[i] == sb[0] && bytes[i + 1] == sb[1]);
    lemma_u16_be_round_trip(l as u16);
    assert(u16_decode_at(bytes, i) == Some((i + 2, l as u16)));
    assert(bytes.subrange(i + 2, i + 2 + l) =~= enc) by {
        assert(forall|k: int| 0 <= k < l ==> bytes[i + 2 + k] == sb[2 + k] && sb[2 + k] == enc[k]);
    }
    utf8::encode_utf8_valid_utf8(s);
    utf8::encode_utf8_decode_utf8(s);
}

/// Round trip of a binary blob: wherever its wire form stands, decoding
/// from its first byte yields the bytes again.
pub proof fn lemma_binary_round_trip(bytes: Seq<u8>, i: int, d: Seq<u8>)
    requires
        binary_encodable(d),
        0 <= i,
        i + binary_bytes(d).len() <= bytes.len(),
        bytes.subrange(i, i + binary_bytes(d).len() as int) == binary_bytes(d),
    ensures
        binary_decode_at(bytes, i) == Some((i + binary_bytes(d).len() as int, d)),
{
    let l = d.len() as int;
    let db = binary_bytes(d);
    assert(bytes[i] == db[0] && bytes[i + 1] == db[1]);
    lemma_u16_be_round_trip(l as u16);
    assert(u16_decode_at(bytes, i) == Some((i + 2, l as u16)));
    assert(bytes.subrange(i + 2, i + 2 + l) =~= d) by {
        assert(forall|k: int| 0 <= k < l ==> bytes[i + 2 + k] == db[2 + k] && db[2 + k] == d[k]);
    }
}

/// Round trip of a string pair: wherever its wire form stands, decoding
/// from its first byte yields the key and the value again.
pub proof fn lemma_pair_round_trip(bytes: Seq<u8>, i: int, k: Seq<char>, w: Seq<char>)
    requires
        string_encodable(k),
        string_encodable(w),
        0 <= i,
        i + string_bytes(k).len() + string_bytes(w).len() <= bytes.len(),
        bytes.subrange(i, i + string_bytes(k).len() + string_bytes(w).len()) == string_bytes(k)
            + string_bytes(w),
    ensures
        pair_decode_at(bytes, i) == Some(
            (i + string_bytes(k).len() + string_bytes(w).len(), (k, w)),
        ),
{
    let kb = string_bytes(k);
    let wb = string_bytes(w);
    let both = kb + wb;
    assert(bytes.subrange(i, i + kb.len() as int) =~= kb) by {
        assert(forall|x: int|
            0 <= x < kb.len() ==> bytes[i + x] == both[x] && both[x] == kb[x]);
    }
    lemma_string_round_trip(bytes, i, k);
    let j = i + kb.len() as int;
    assert(bytes.subrange(j, j + wb.len() as int) =~= wb) by {
        assert(forall|x: int|
            0 <= x < wb.len() ==> bytes[j + x] == both[kb.len() + x] && both[kb.len() + x]
                == wb[x]);
    }
    lemma_string_round_trip(bytes, j, w);
}

/// Round trip of a tagged value: wherever its wire form stands, decoding it
/// at its own wire type yields the value again.
pub proof fn lemma_value_round_trip(bytes: Seq<u8>, i: int, v: ValueView)
    requires
        value_encodable(v),
        0 <= i,
        i + value_bytes(v).len() <= bytes.len(),
        bytes.subrange(i, i + value_bytes(v).len() as int) == value_bytes(v),
    ensures
        value_decode_at(bytes, i, kind_of(v)) == Some((i + value_bytes(v).len() as int, v)),
{
    let vb = value_bytes(v);
    match v {
        ValueView::Bits(b) => {
            assert(bytes[i] == vb[0]);
        },
        ValueView::TwoByteInteger(x) => {
            assert(bytes[i] == vb[0] && bytes[i + 1] == vb[1]);
            lemma_u16_be_round_trip(x);
        },
        ValueView::FourByteInteger(x) => {
            assert(bytes[i] == vb[0] && bytes[i + 1] == vb[1] && bytes[i + 2] == vb[2] && bytes[i
                + 3] == vb[3]);
            lemma_u32_be_round_trip(x);
        },
        ValueView::Utf8String(s) => {
            lemma_string_round_trip(bytes, i, s);
        },
        ValueView::VariableByteInteger(x) => {
            lemma_pow128_values();
            lemma_vbi_round_trip(bytes, i, x as nat, 4);
        },
        ValueView::Binary(d) => {
            lemma_binary_round_trip(bytes, i, d);
        },
        ValueView::StringPair(k, w) => {
            lemma_pair_round_trip(bytes, i, k, w);
        },
    }
}

/// Round trip of one property: wherever its wire form stands, and its value
/// is of the wire type the registry assigns to its identifier, decoding
/// from its first byte yields the identifier and the value again.
pub proof fn lemma_property_round_trip(bytes: Seq<u8>, i: int, e: (u32, ValueView))
    requires
        property_encodable(e),
        property_well_typed(e),
        0 <= i,
        i + property_bytes(e).len() <= bytes.len(),
        bytes.subrange(i, i + property_bytes(e).len() as int) == property_bytes(e),
    ensures
        property_decode_at(bytes, i) == Some((i + property_bytes(e).len() as int, e)),
{
    let idb = vbi_bytes(e.0 as nat);
    let vb = value_bytes(e.1);
    let pb = property_bytes(e);
    assert(bytes.subrange(i, i + idb.len() as int) =~= idb) by {
        assert(forall|x: int| 0 <= x < idb.len() ==> bytes[i + x] == pb[x] && pb[x] == idb[x]);
    }
    lemma_pow128_values();
    lemma_vbi_round_trip(bytes, i, e.0 as nat, 4);
    let j = i + idb.len() as int;
    assert(bytes.subrange(j, j + vb.len() as int) =~= vb) by {
        assert(forall|x: int|
            0 <= x < vb.len() ==> bytes[j + x] == pb[idb.len() + x] && pb[idb.len() + x]
                == vb[x]);
    }
    lemma_value_round_trip(bytes, j, e.1);
}

/// Round trip of a property-block body that fills the rest of the input:
/// decoding pair by pair yields the original list.
pub proof fn lemma_props_list_round_trip(bytes: Seq<u8>, i: int, s: Seq<(u32, ValueView)>)
    requires
        props_encodable(s),
        forall|x: int| 0 <= x < s.len() ==> property_well_typed(#[trigger] s[x]),
        0 <= i,
        i + props_body_bytes(s).len() == bytes.len(),
        bytes.subrange(i, bytes.len() as int) == props_body_bytes(s),
    ensures
        props_list_at(bytes, i) == Some(s),
    decreases s.len(),
{
    if s.len() == 0 {
        assert(i == bytes.len());
        assert(Seq::<(u32, ValueView)>::empty() =~= s);
    } else {
        let body = props_body_bytes(s);
        let pb = property_bytes(s[0]);
        let rest_body = props_body_bytes(s.drop_first());
        assert(body == pb + rest_body);
        assert(bytes.subrange(i, i + pb.len() as int) =~= pb) by {
            assert(forall|x: int|
                0 <= x < pb.len() ==> bytes[i + x] == body[x] && body[x] == pb[x]);
        }
        lemma_property_round_trip(bytes, i, s[0]);
        let j = i + pb.len() as int;
        lemma_property_decode_bounds(bytes, i);
        assert(bytes.subrange(j, bytes.len() as int) =~= rest_body) by {
            assert(forall|x: int|
                0 <= x < rest_body.len() ==> bytes[j + x] == body[pb.len() + x] && body[pb.len()
                    + x] == rest_body[x]);
        }
        assert(forall|x: int|
            0 <= x < s.drop_first().len() ==> property_encodable(#[trigger] s.drop_first()[x])
                && property_well_typed(s.drop_first()[x])) by {
            assert(forall|x: int|
                0 <= x < s.drop_first().len() ==> s.drop_first()[x] == s[x + 1]);
        }
        lemma_props_list_round_trip(bytes, j, s.drop_first());
        assert(seq![s[0]] + s.drop_first() =~= s);
    }
}

/// Round trip of a whole property block: wherever its wire form stands,
/// decoding from its first byte yields the original identifier/value list
/// and stops right after the block.
pub proof fn lemma_properties_block_round_trip(bytes: Seq<u8>, i: int, s: Seq<(u32, ValueView)>)
    requires
        props_encodable(s),
        forall|x: int| 0 <= x < s.len() ==> property_well_typed(#[trigger] s[x]),
        props_body_bytes(s).len() <= VARIABLE_BYTE_INTEGER_MAX,
        0 <= i,
        i + properties_block_bytes(s).len() <= bytes.len(),
        bytes.subrange(i, i + properties_block_bytes(s).len() as int) == properties_block_bytes(
            s,
        ),
    ensures
        properties_decode_at(bytes, i) == Some(
            (i + properties_block_bytes(s).len() as int, s),
        ),
{
    let body = props_body_bytes(s);
    let l = body.len() as nat;
    let lb = vbi_bytes(l);
    let block = properties_block_bytes(s);
    assert(bytes.subrange(i, i + lb.len() as int) =~= lb) by {
        assert(forall|x: int| 0 <= x < lb.len() ==> bytes[i + x] == block[x] && block[x] == lb[x]);
    }
    lemma_pow128_values();
    lemma_vbi_round_trip(bytes, i, l, 4);
    let j = i + lb.len() as int;
    assert(j + l <= bytes.len());
    let sub = bytes.subrange(j, j + l);
    assert(sub =~= body) by {
        assert(forall|x: int|
            0 <= x < body.len() ==> bytes[j + x] == block[lb.len() + x] && block[lb.len() + x]
                == body[x]);
    }
    assert(sub.subrange(0, sub.len() as int) =~= sub);
    lemma_props_list_round_trip(sub, 0, s);
}

/// Law: a property block encoded from any list of well-typed, encodable
/// properties decodes to exactly that list.  A Properties table therefore
/// survives the encode/decode round trip with its contents intact, modulo
/// insertion order of equal identifiers.
pub proof fn lemma_properties_round_trip(s: Seq<(u32, ValueView)>)
    requires
        props_encodable(s),
        forall|x: int| 0 <= x < s.len() ==> property_well_typed(#[trigger] s[x]),
        props_body_bytes(s).len() <= VARIABLE_BYTE_INTEGER_MAX,
    ensures
        properties_decode_at(properties_block_bytes(s), 0) == Some(
            (properties_block_bytes(s).len() as int, s),
        ),
{
    let block = properties_block_bytes(s);
    assert(block.subrange(0, block.len() as int) =~= block);
    lemma_properties_block_round_trip(block, 0, s);
}

/// Decoding of one whole Control Packet: the Fixed Header, then, for a
/// CONNECT, the CONNECT body.  The header's remaining length must equal the
/// exact byte count after the header, and the body must fill those bytes
/// exactly; a violated remaining length decodes to nothing, since the body
/// boundary would be unknowable.  Every other packet type is out of this
/// codec's scope and decodes to nothing.
pub open spec fn packet_decode(bytes: Seq<u8>) -> Option<
    (FixedHeaderView, VariableHeaderView, PayloadView),
> {
    match fixed_header_decode_at(bytes, 0) {
        None => None,
        Some((j, fh)) => {
            if fh.remaining_length != bytes.len() - j {
                None
            } else if fh.control_packet_type == packets::CONNECT {
                match connect_decode_at(bytes, j) {
                    None => None,
                    Some((end, vh, p)) => {
                        if end == bytes.len() {
                            Some((fh, vh, p))
                        } else {
                            None
                        }
                    },
                }
            } else {
                None
            }
        },
    }
}

} // verus!
