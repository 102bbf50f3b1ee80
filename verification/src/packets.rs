//! The data model of MQTT 5.0 Control Packets: the seven primitive wire
//! types, the tagged union stored in the Property table, the Property table
//! itself, the Fixed Header, and the QoS levels.

use vstd::prelude::*;

use crate::errors::Error;

pub mod connack;
pub mod connect;

verus! {

/// Control Packet type codes of the Fixed Header (2.1.2 of the MQTT 5.0
/// specification).
pub const CONNECT: u8 = 1;

/// Control Packet type code of the CONNACK packet.
pub const CONNACK: u8 = 2;

/// One complete MQTT Control Packet.  Only CONNECT and CONNACK carry a
/// decoded body; the other packet types are recognised as placeholders and
/// fail cleanly in the codec.
pub enum Packet {
    Unknown,
    Reserved,
    Connect(connect::Connect),
    ConnAck(connack::ConnAck),
    Publish,
    PubAck,
    PubRec,
    PubRel,
    PubComp,
    Subscribe,
    SubAck,
    Unsubscribe,
    UnSuback,
    PingReq,
    PingResp,
    Disconnect,
    Auth,
}

// ---------------------------------------------------------------------------
// Primitive wire types (1.5 of the MQTT 5.0 specification)
// ---------------------------------------------------------------------------

/// A single byte, also used as a packed flag byte (1.5.1).
#[derive(Debug, Eq, PartialEq, Hash, Clone, Copy, Structural)]
pub struct Bits(pub u8);

/// A 16-bit big-endian integer (1.5.2).
#[derive(Debug, Eq, PartialEq, Clone, Copy, Structural)]
pub struct TwoByteInteger(pub u16);

/// A 32-bit big-endian integer (1.5.3).
#[derive(Debug, Eq, PartialEq, Clone, Copy, Structural)]
pub struct FourByteInteger(pub u32);

/// A length-prefixed character string, decoded lossily from UTF-8 (1.5.4).
#[derive(Debug, Eq, PartialEq, Clone)]
pub struct UTF8EncodedString(pub String);

/// A base-128 integer of one to four bytes (1.5.5).
#[derive(Debug, Eq, PartialEq, Hash, Clone, Copy, Structural)]
pub struct VariableByteInteger(pub u32);

/// A length-prefixed opaque byte blob (1.5.6).
#[derive(Debug, Eq, PartialEq, Clone)]
pub struct BinaryData(pub Vec<u8>);

/// Two consecutive UTF-8 encoded strings forming a key/value pair (1.5.7).
#[derive(Debug, Eq, PartialEq, Clone)]
pub struct UTF8StringPair(pub String, pub String);

/// Extraction of the plain value carried by a primitive wire type.
pub trait ExtractValue<T> {
    /// The carried value, as seen by contracts.
    spec fn spec_val(&self) -> T;

    /// The carried value.
    fn val(&self) -> (v: T)
        ensures
            v == self.spec_val(),
    ;
}

impl ExtractValue<u8> for Bits {
    open spec fn spec_val(&self) -> u8 {
        self.0
    }

    fn val(&self) -> (v: u8) {
        self.0
    }
}

impl ExtractValue<u16> for TwoByteInteger {
    open spec fn spec_val(&self) -> u16 {
        self.0
    }

    fn val(&self) -> (v: u16) {
        self.0
    }
}

impl ExtractValue<u32> for FourByteInteger {
    open spec fn spec_val(&self) -> u32 {
        self.0
    }

    fn val(&self) -> (v: u32) {
        self.0
    }
}

impl ExtractValue<u32> for VariableByteInteger {
    open spec fn spec_val(&self) -> u32 {
        self.0
    }

    fn val(&self) -> (v: u32) {
        self.0
    }
}

impl UTF8EncodedString {
    /// The characters of the string.
    pub fn val(&self) -> (r: &str)
        ensures
            r@ == self.0@,
    {
        self.0.as_str()
    }
}

impl BinaryData {
    /// The raw bytes of the blob.
    pub fn val(&self) -> (r: &Vec<u8>)
        ensures
            r@ == self.0@,
    {
        &self.0
    }
}

impl UTF8StringPair {
    /// The key and the value of the pair.
    pub fn val(&self) -> (r: (&str, &str))
        ensures
            r.0@ == self.0@,
            r.1@ == self.1@,
    {
        (self.0.as_str(), self.1.as_str())
    }
}

// ---------------------------------------------------------------------------
// The tagged union of primitive values
// ---------------------------------------------------------------------------

/// One primitive value together with its wire type, as stored in a Property
/// table.
#[derive(Debug, Eq, PartialEq, Clone)]
pub enum ValueTypes {
    Bits(Bits),
    TwoByteInteger(TwoByteInteger),
    FourByteInteger(FourByteInteger),
    UTF8EncodedString(UTF8EncodedString),
    VariableByteInteger(VariableByteInteger),
    BinaryData(BinaryData),
    UTF8StringPair(UTF8StringPair),
}

/// The mathematical value of a `ValueTypes`: plain integers, character
/// sequences and byte sequences.
pub enum ValueView {
    Bits(u8),
    TwoByteInteger(u16),
    FourByteInteger(u32),
    Utf8String(Seq<char>),
    VariableByteInteger(u32),
    Binary(Seq<u8>),
    StringPair(Seq<char>, Seq<char>),
}

impl View for ValueTypes {
    type V = ValueView;

    open spec fn view(&self) -> ValueView {
        match self {
            ValueTypes::Bits(b) => ValueView::Bits(b.0),
            ValueTypes::TwoByteInteger(t) => ValueView::TwoByteInteger(t.0),
            ValueTypes::FourByteInteger(f) => ValueView::FourByteInteger(f.0),
            ValueTypes::UTF8EncodedString(u) => ValueView::Utf8String(u.0@),
            ValueTypes::VariableByteInteger(v) => ValueView::VariableByteInteger(v.0),
            ValueTypes::BinaryData(b) => ValueView::Binary(b.0@),
            ValueTypes::UTF8StringPair(p) => ValueView::StringPair(p.0@, p.1@),
        }
    }
}

/// Typed retrieval out of the tagged union: the conversion succeeds exactly
/// on the matching variant, so no consumer can read a value through a
/// mismatched wire type.
pub trait FromValueTypesRef: Sized {
    /// True when the union holds this wire type.
    spec fn kind_matches(v: ValueView) -> bool;

    /// True when `t` carries the value stored in the union.
    spec fn corresponds(t: Self, v: ValueView) -> bool;

    /// A reference to the stored value, when the wire type matches.
    fn from_value_types_ref(value: &ValueTypes) -> (r: Option<&Self>)
        ensures
            r matches Some(t) ==> Self::kind_matches(value@) && Self::corresponds(*t, value@),
            r is None ==> !Self::kind_matches(value@),
    ;

    /// The name of the wire type, for diagnostics.
    fn wire_type_name() -> &'static str;
}

impl FromValueTypesRef for Bits {
    open spec fn kind_matches(v: ValueView) -> bool {
        v is Bits
    }

    open spec fn corresponds(t: Self, v: ValueView) -> bool {
        v == ValueView::Bits(t.0)
    }

    fn from_value_types_ref(value: &ValueTypes) -> (r: Option<&Self>) {
        match value {
            ValueTypes::Bits(b) => Some(b),
            _ => None,
        }
    }

    fn wire_type_name() -> &'static str {
        "Bits"
    }
}

impl FromValueTypesRef for TwoByteInteger {
    open spec fn kind_matches(v: ValueView) -> bool {
        v is TwoByteInteger
    }

    open spec fn corresponds(t: Self, v: ValueView) -> bool {
        v == ValueView::TwoByteInteger(t.0)
    }

    fn from_value_types_ref(value: &ValueTypes) -> (r: Option<&Self>) {
        match value {
            ValueTypes::TwoByteInteger(t) => Some(t),
            _ => None,
        }
    }

    fn wire_type_name() -> &'static str {
        "TwoByteInteger"
    }
}

impl FromValueTypesRef for FourByteInteger {
    open spec fn kind_matches(v: ValueView) -> bool {
        v is FourByteInteger
    }

    open spec fn corresponds(t: Self, v: ValueView) -> bool {
        v == ValueView::FourByteInteger(t.0)
    }

    fn from_value_types_ref(value: &ValueTypes) -> (r: Option<&Self>) {
        match value {
            ValueTypes::FourByteInteger(f) => Some(f),
            _ => None,
        }
    }

    fn wire_type_name() -> &'static str {
        "FourByteInteger"
    }
}

impl FromValueTypesRef for UTF8EncodedString {
    open spec fn kind_matches(v: ValueView) -> bool {
        v is Utf8String
    }

    open spec fn corresponds(t: Self, v: ValueView) -> bool {
        v matches ValueView::Utf8String(s) && t.0@ == s
    }

    fn from_value_types_ref(value: &ValueTypes) -> (r: Option<&Self>) {
        match value {
            ValueTypes::UTF8EncodedString(u) => Some(u),
            _ => None,
        }
    }

    fn wire_type_name() -> &'static str {
        "UTF8EncodedString"
    }
}

impl FromValueTypesRef for VariableByteInteger {
    open spec fn kind_matches(v: ValueView) -> bool {
        v is VariableByteInteger
    }

    open spec fn corresponds(t: Self, v: ValueView) -> bool {
        v == ValueView::VariableByteInteger(t.0)
    }

    fn from_value_types_ref(value: &ValueTypes) -> (r: Option<&Self>) {
        match value {
            ValueTypes::VariableByteInteger(v) => Some(v),
            _ => None,
        }
    }

    fn wire_type_name() -> &'static str {
        "VariableByteInteger"
    }
}

impl FromValueTypesRef for BinaryData {
    open spec fn kind_matches(v: ValueView) -> bool {
        v is Binary
    }

    open spec fn corresponds(t: Self, v: ValueView) -> bool {
        v matches ValueView::Binary(d) && t.0@ == d
    }

    fn from_value_types_ref(value: &ValueTypes) -> (r: Option<&Self>) {
        match value {
            ValueTypes::BinaryData(b) => Some(b),
            _ => None,
        }
    }

    fn wire_type_name() -> &'static str {
        "BinaryData"
    }
}

impl FromValueTypesRef for UTF8StringPair {
    open spec fn kind_matches(v: ValueView) -> bool {
        v is StringPair
    }

    open spec fn corresponds(t: Self, v: ValueView) -> bool {
        v matches ValueView::StringPair(k, w) && t.0@ == k && t.1@ == w
    }

    fn from_value_types_ref(value: &ValueTypes) -> (r: Option<&Self>) {
        match value {
            ValueTypes::UTF8StringPair(p) => Some(p),
            _ => None,
        }
    }

    fn wire_type_name() -> &'static str {
        "UTF8StringPair"
    }
}

// ---------------------------------------------------------------------------
// Fixed Header (2.1 of the MQTT 5.0 specification)
// ---------------------------------------------------------------------------

/// The header common to every Control Packet: the packet type (four
/// significant bits), the packet flags (four bits), and the byte count of
/// everything that follows the header.
#[derive(Debug, Eq, PartialEq, Clone)]
pub struct FixedHeader {
    pub control_packet_type: Bits,
    pub flags: Bits,
    pub remaining_length: VariableByteInteger,
}

impl FixedHeader {
    /// Assembles a Fixed Header from its three parts.
    pub fn new(
        control_packet_type: Bits,
        flags: Bits,
        remaining_length: VariableByteInteger,
    ) -> (r: Result<FixedHeader, Error>)
        ensures
            r matches Ok(h) && h == (FixedHeader {
                control_packet_type,
                flags,
                remaining_length,
            }),
    {
        Ok(FixedHeader { control_packet_type, flags, remaining_length })
    }

    /// The single flag bit at position `bitnum`, shifted down to 0 or 1.
    pub fn take_flag(&self, bitnum: u8) -> (r: u8)
        requires
            bitnum < 8,
        ensures
            r == (self.flags.0 & (1u8 << bitnum)) >> bitnum,
            r <= 1,
    {
        let r = (self.flags.0 & (1u8 << bitnum)) >> bitnum;
        proof {
            let f = self.flags.0;
            let b = bitnum;
            assert((f & (1u8 << b)) >> b <= 1) by (bit_vector)
                requires
                    b < 8,
            ;
        }
        r
    }
}

/// The 16-bit packet identifier carried by several Control Packet types
/// (2.2.1 of the MQTT 5.0 specification).
#[derive(Debug, PartialEq, Eq, Structural)]
pub struct PacketIdentity(TwoByteInteger);

/// A Control Packet that carries a packet identifier.
pub trait PacketIdentifier {
    /// The identifier of this packet.
    fn packet_identity(&self) -> &PacketIdentity;
}

/// An acknowledgement byte: every reason code enumeration exposes its code.
pub trait ReasonCode {
    /// The code, as seen by contracts.
    spec fn spec_code(&self) -> u8;

    /// The single byte placed on the wire.
    fn code(&self) -> (c: u8)
        ensures
            c == self.spec_code(),
    ;
}

// ---------------------------------------------------------------------------
// Properties (2.2.2 of the MQTT 5.0 specification)
// ---------------------------------------------------------------------------

/// The map built by folding a list of identifier/value pairs left to right,
/// a later pair overwriting an earlier one with the same identifier.
pub open spec fn props_map(s: Seq<(u32, ValueView)>) -> Map<u32, ValueView>
    decreases s.len(),
{
    if s.len() == 0 {
        Map::empty()
    } else {
        props_map(s.drop_last()).insert(s.last().0, s.last().1)
    }
}

/// Insertion into an identifier/value list: an existing identifier keeps its
/// position and takes the new value, a new identifier goes to the end.
pub open spec fn insert_entry(
    s: Seq<(u32, ValueView)>,
    k: u32,
    v: ValueView,
) -> Seq<(u32, ValueView)>
    decreases s.len(),
{
    if s.len() == 0 {
        seq![(k, v)]
    } else if s[0].0 == k {
        seq![(k, v)] + s.drop_first()
    } else {
        seq![s[0]] + insert_entry(s.drop_first(), k, v)
    }
}

/// The entry list left by inserting a sequence of identifier/value pairs
/// one after the other into an empty table.
pub open spec fn entries_of(s: Seq<(u32, ValueView)>) -> Seq<(u32, ValueView)>
    decreases s.len(),
{
    if s.len() == 0 {
        Seq::empty()
    } else {
        insert_entry(entries_of(s.drop_last()), s.last().0, s.last().1)
    }
}

/// The Property table of a packet: a mapping from property identifiers to
/// typed values.  Inserting an identifier twice silently keeps the last
/// value; the MQTT specification mandates a Protocol Error (reason 0x97)
/// there, a rule this table deliberately relaxes.
#[derive(Debug, PartialEq, Eq)]
pub struct Properties {
    entries: Vec<(VariableByteInteger, ValueTypes)>,
}

impl View for Properties {
    type V = Map<u32, ValueView>;

    closed spec fn view(&self) -> Map<u32, ValueView> {
        props_map(self.entries_view())
    }
}

impl Properties {
    /// The identifier/value pairs in insertion order, which is also the
    /// order the encoder writes them in.
    pub closed spec fn entries_view(self) -> Seq<(u32, ValueView)> {
        self.entries@.map_values(|e: (VariableByteInteger, ValueTypes)| (e.0.0, e.1@))
    }

    /// No two entries share an identifier.
    #[verifier::type_invariant]
    spec fn wf(self) -> bool {
        forall|i: int, j: int|
            0 <= i < j < self.entries@.len() ==> (#[trigger] self.entries@[i]).0.0 != (
            #[trigger] self.entries@[j]).0.0
    }

    /// An empty Property table.
    pub fn new() -> (r: Properties)
        ensures
            r@ == Map::<u32, ValueView>::empty(),
            r.entries_view() == Seq::<(u32, ValueView)>::empty(),
    {
        let r = Properties { entries: Vec::new() };
        proof {
            assert(r.entries_view() =~= Seq::<(u32, ValueView)>::empty());
        }
        r
    }

    /// Stores `value` under `key`, overwriting a present value silently.
    pub fn insert(&mut self, key: VariableByteInteger, value: ValueTypes)
        ensures
            final(self)@ == old(self)@.insert(key.0, value@),
            final(self).entries_view() == insert_entry(old(self).entries_view(), key.0, value@),
    {
        proof {
            use_type_invariant(&*self);
        }
        let ghost old_view = old(self).entries_view();
        let mut es: Vec<(VariableByteInteger, ValueTypes)> = Vec::new();
        core::mem::swap(&mut es, &mut self.entries);
        let ghost old_es = es@;
        proof {
            assert(old_es == old(self).entries@);
            assert(old_view.len() == old_es.len());
            assert(forall|j: int|
                0 <= j < old_es.len() ==> (#[trigger] old_view[j]).0 == old_es[j].0.0
                    && old_view[j].1 == old_es[j].1@);
        }
        let n = es.len();
        let mut i: usize = 0;
        while i < n
            invariant
                n == es@.len(),
                0 <= i <= n,
                es@ == old_es,
                old_es == old(self).entries@,
                old_view == old(self).entries_view(),
                old_view.len() == old_es.len(),
                forall|j: int|
                    0 <= j < old_es.len() ==> (#[trigger] old_view[j]).0 == old_es[j].0.0
                        && old_view[j].1 == old_es[j].1@,
                forall|j: int| 0 <= j < i ==> (#[trigger] es@[j]).0.0 != key.0,
                forall|a: int, b: int|
                    0 <= a < b < old_es.len() ==> (#[trigger] old_es[a]).0.0 != (
                    #[trigger] old_es[b]).0.0,
            decreases n - i,
        {
            if es[i].0.0 == key.0 {
                proof {
                    lemma_insert_entry_found(old_view, key.0, value@, i as int);
                    lemma_props_map_update(old_view, i as int, key.0, value@);
                }
                es.remove(i);
                es.insert(i, (key, value));
                proof {
                    assert(es@ =~= old_es.update(i as int, (key, value)));
                }
                self.entries = es;
                proof {
                    assert(self.entries_view() =~= old_view.update(i as int, (key.0, value@)));
                    assert(self.entries_view() =~= insert_entry(old_view, key.0, value@));
                }
                return ;
            }
            i += 1;
        }
        proof {
            lemma_insert_entry_absent(old_view, key.0, value@);
        }
        es.push((key, value));
        self.entries = es;
        proof {
            assert(self.entries_view() =~= old_view.push((key.0, value@)));
            assert(self.entries_view() =~= insert_entry(old_view, key.0, value@));
            assert(self.entries_view().drop_last() =~= old_view);
        }
    }

    /// The value stored under `key`, read through the wire type `T`: the
    /// value when it is present with that type, `None` when the key is
    /// absent, and an error when the stored value has another wire type.
    pub fn get_as<'a, T: FromValueTypesRef>(&'a self, key: VariableByteInteger) -> (r: Result<
        Option<&'a T>,
        Error,
    >)
        ensures
            !self@.contains_key(key.0) ==> (r matches Ok(o) && o is None),
            self@.contains_key(key.0) && T::kind_matches(self@[key.0]) ==> (r matches Ok(o)
                && o matches Some(t) && T::corresponds(*t, self@[key.0])),
            self@.contains_key(key.0) && !T::kind_matches(self@[key.0]) ==> (r matches Err(e)
                && e is Common),
    {
        proof {
            use_type_invariant(&*self);
        }
        let n = self.entries.len();
        let mut i: usize = 0;
        while i < n
            invariant
                n == self.entries@.len(),
                0 <= i <= n,
                forall|j: int| 0 <= j < i ==> (#[trigger] self.entries@[j]).0.0 != key.0,
            decreases n - i,
        {
            if self.entries[i].0.0 == key.0 {
                proof {
                    use_type_invariant(&*self);
                    lemma_props_map_contains(self.entries_view(), key.0);
                    lemma_props_map_at(self.entries_view(), i as int, key.0);
                }
                let value = &self.entries[i].1;
                return match T::from_value_types_ref(value) {
                    Some(typed) => Ok(Some(typed)),
                    None => Err(
                        Error::Common(
                            "the stored property value has another wire type".to_owned(),
                        ),
                    ),
                };
            }
            i += 1;
        }
        proof {
            use_type_invariant(&*self);
            lemma_props_map_contains(self.entries_view(), key.0);
        }
        Ok(None)
    }

    /// True when the table holds no entry.
    pub fn is_empty(&self) -> (r: bool)
        ensures
            r == (self@.dom() =~= Set::<u32>::empty()),
            r == (self.entries_view().len() == 0),
    {
        proof {
            use_type_invariant(&*self);
            lemma_props_map_len(self.entries_view());
            if self.entries_view().len() == 0 {
                assert(self@.dom() =~= Set::<u32>::empty());
            } else {
                lemma_props_map_contains(self.entries_view(), self.entries_view().last().0);
            }
        }
        self.entries.is_empty()
    }

    /// The number of entries, for iteration in insertion order.
    pub fn entry_count(&self) -> (n: usize)
        ensures
            n == self.entries_view().len(),
    {
        self.entries.len()
    }

    /// The entry at position `i`, for iteration in insertion order.
    pub fn entry_at(&self, i: usize) -> (e: &(VariableByteInteger, ValueTypes))
        requires
            i < self.entries_view().len(),
        ensures
            e.0.0 == self.entries_view()[i as int].0,
            e.1@ == self.entries_view()[i as int].1,
    {
        &self.entries[i]
    }

    /// The number of distinct identifiers stored.
    pub fn len(&self) -> (r: usize)
        ensures
            r == self@.dom().len(),
            r == self.entries_view().len(),
    {
        proof {
            use_type_invariant(&*self);
            lemma_props_map_len(self.entries_view());
        }
        self.entries.len()
    }
}

// ---------------------------------------------------------------------------
// Lemmas relating the entry list to the property map
// ---------------------------------------------------------------------------

/// Inserting a key found at position `i`, with no earlier occurrence,
/// updates that position in place.
proof fn lemma_insert_entry_found(s: Seq<(u32, ValueView)>, k: u32, v: ValueView, i: int)
    requires
        0 <= i < s.len(),
        s[i].0 == k,
        forall|j: int| 0 <= j < i ==> (#[trigger] s[j]).0 != k,
    ensures
        insert_entry(s, k, v) == s.update(i, (k, v)),
    decreases i,
{
    if i == 0 {
        assert(insert_entry(s, k, v) == seq![(k, v)] + s.drop_first());
        assert(seq![(k, v)] + s.drop_first() =~= s.update(0, (k, v)));
    } else {
        assert(s[0].0 != k);
        lemma_insert_entry_found(s.drop_first(), k, v, i - 1);
        assert(insert_entry(s, k, v) == seq![s[0]] + insert_entry(s.drop_first(), k, v));
        assert(seq![s[0]] + s.drop_first().update(i - 1, (k, v)) =~= s.update(i, (k, v)));
    }
}

/// Inserting a key that occurs nowhere appends the new entry.
proof fn lemma_insert_entry_absent(s: Seq<(u32, ValueView)>, k: u32, v: ValueView)
    requires
        forall|j: int| 0 <= j < s.len() ==> (#[trigger] s[j]).0 != k,
    ensures
        insert_entry(s, k, v) == s.push((k, v)),
    decreases s.len(),
{
    if s.len() == 0 {
        assert(insert_entry(s, k, v) =~= s.push((k, v)));
    } else {
        assert(s[0].0 != k);
        lemma_insert_entry_absent(s.drop_first(), k, v);
        assert(seq![s[0]] + s.drop_first().push((k, v)) =~= s.push((k, v)));
    }
}

/// The property map contains a key exactly when some entry carries it.
pub proof fn lemma_props_map_contains(s: Seq<(u32, ValueView)>, k: u32)
    ensures
        props_map(s).contains_key(k) <==> exists|i: int| 0 <= i < s.len() && (#[trigger] s[i]).0
            == k,
    decreases s.len(),
{
    if s.len() == 0 {
    } else {
        lemma_props_map_contains(s.drop_last(), k);
        if s.last().0 == k {
            assert(s[s.len() - 1].0 == k);
        } else {
            if props_map(s).contains_key(k) {
                let i = choose|i: int|
                    0 <= i < s.drop_last().len() && (#[trigger] s.drop_last()[i]).0 == k;
                assert(s[i].0 == k);
            }
            if exists|i: int| 0 <= i < s.len() && (#[trigger] s[i]).0 == k {
                let i = choose|i: int| 0 <= i < s.len() && (#[trigger] s[i]).0 == k;
                assert(i < s.len() - 1);
                assert(s.drop_last()[i].0 == k);
            }
        }
    }
}

/// With distinct identifiers, the entry at position `i` gives the map's
/// value for its key.
pub proof fn lemma_props_map_at(s: Seq<(u32, ValueView)>, i: int, k: u32)
    requires
        forall|a: int, b: int| 0 <= a < b < s.len() ==> (#[trigger] s[a]).0 != (#[trigger] s[b]).0,
        0 <= i < s.len(),
        s[i].0 == k,
    ensures
        props_map(s).contains_key(k),
        props_map(s)[k] == s[i].1,
    decreases s.len(),
{
    if i == s.len() - 1 {
    } else {
        assert(s[i].0 != s[s.len() - 1].0);
        assert(s.drop_last()[i] == s[i]);
        lemma_props_map_at(s.drop_last(), i, k);
    }
}

/// With distinct identifiers, the map holds exactly one key per entry.
pub proof fn lemma_props_map_len(s: Seq<(u32, ValueView)>)
    requires
        forall|a: int, b: int| 0 <= a < b < s.len() ==> (#[trigger] s[a]).0 != (#[trigger] s[b]).0,
    ensures
        props_map(s).dom().finite(),
        props_map(s).dom().len() == s.len(),
    decreases s.len(),
{
    if s.len() == 0 {
        assert(props_map(s).dom() =~= Set::<u32>::empty());
    } else {
        lemma_props_map_len(s.drop_last());
        lemma_props_map_contains(s.drop_last(), s.last().0);
        assert(forall|i: int|
            0 <= i < s.drop_last().len() ==> (#[trigger] s.drop_last()[i]).0 != s.last().0);
        assert(!props_map(s.drop_last()).contains_key(s.last().0));
        assert(props_map(s).dom() =~= props_map(s.drop_last()).dom().insert(s.last().0));
    }
}

/// With distinct identifiers, overwriting the entry that carries `k`
/// changes the map exactly by an insert of the new value.
proof fn lemma_props_map_update(s: Seq<(u32, ValueView)>, i: int, k: u32, v: ValueView)
    requires
        forall|a: int, b: int| 0 <= a < b < s.len() ==> (#[trigger] s[a]).0 != (#[trigger] s[b]).0,
        0 <= i < s.len(),
        s[i].0 == k,
    ensures
        props_map(s.update(i, (k, v))) == props_map(s).insert(k, v),
    decreases s.len(),
{
    let su = s.update(i, (k, v));
    if i == s.len() - 1 {
        assert(su.drop_last() =~= s.drop_last());
        assert(props_map(su) == props_map(s.drop_last()).insert(k, v));
        assert(props_map(s.drop_last()).insert(s.last().0, s.last().1).insert(k, v) =~= props_map(
            s.drop_last(),
        ).insert(k, v));
    } else {
        assert(su.drop_last() =~= s.drop_last().update(i, (k, v)));
        assert(s.drop_last()[i] == s[i]);
        lemma_props_map_update(s.drop_last(), i, k, v);
        assert(su.last() == s.last());
        assert(props_map(su) == props_map(s.drop_last()).insert(k, v).insert(
            s.last().0,
            s.last().1,
        ));
        assert(s[i].0 != s[s.len() - 1].0);
        assert(props_map(s.drop_last()).insert(k, v).insert(s.last().0, s.last().1) =~= props_map(
            s.drop_last(),
        ).insert(s.last().0, s.last().1).insert(k, v));
    }
}

/// Law: every table's map view is the left fold of its entry list.  This is
/// the bridge from the entry-list level to the map level: the encoder
/// writes the entry list, and a table rebuilt from a decoded list carries
/// the list's fold as its map, so the two views can never disagree.
pub proof fn lemma_view_is_entries_map(p: Properties)
    ensures
        p@ == props_map(p.entries_view()),
{
}

/// Law: inserting under one identifier twice retains only the later value,
/// and a table built from two such inserts holds exactly one entry.
pub proof fn lemma_duplicate_insert_keeps_last(k: u32, v1: ValueView, v2: ValueView)
    ensures
        Map::<u32, ValueView>::empty().insert(k, v1).insert(k, v2) == Map::<
            u32,
            ValueView,
        >::empty().insert(k, v2),
        Map::<u32, ValueView>::empty().insert(k, v1).insert(k, v2).dom().len() == 1,
{
    let twice = Map::<u32, ValueView>::empty().insert(k, v1).insert(k, v2);
    let once = Map::<u32, ValueView>::empty().insert(k, v2);
    assert(twice =~= once);
    assert(once.dom() =~= Set::<u32>::empty().insert(k));
}

/// With distinct identifiers, re-inserting a list of entries one by one
/// reproduces the list itself: what a decoded property block stores is
/// exactly the decoded list.
pub proof fn lemma_entries_of_unique(s: Seq<(u32, ValueView)>)
    requires
        forall|a: int, b: int| 0 <= a < b < s.len() ==> (#[trigger] s[a]).0 != (#[trigger] s[b]).0,
    ensures
        entries_of(s) == s,
    decreases s.len(),
{
    if s.len() == 0 {
        assert(entries_of(s) =~= s);
    } else {
        assert(forall|a: int, b: int|
            0 <= a < b < s.drop_last().len() ==> (#[trigger] s.drop_last()[a]).0 != (
            #[trigger] s.drop_last()[b]).0) by {
            assert(forall|a: int| 0 <= a < s.drop_last().len() ==> s.drop_last()[a] == s[a]);
        }
        lemma_entries_of_unique(s.drop_last());
        assert(forall|a: int|
            0 <= a < s.drop_last().len() ==> (#[trigger] s.drop_last()[a]).0 != s.last().0);
        lemma_insert_entry_absent(s.drop_last(), s.last().0, s.last().1);
        assert((s.last().0, s.last().1) == s.last());
        assert(s.drop_last().push(s.last()) =~= s);
    }
}

// ---------------------------------------------------------------------------
// Quality of service
// ---------------------------------------------------------------------------

/// The delivery guarantee requested for a message; two bits on the wire,
/// where the value 3 is malformed.
#[derive(Debug, Eq, PartialEq, Structural)]
pub enum QoS {
    AtMostOnce,
    AtLeastOnce,
    ExactlyOnce,
    Malformed,
}

/// The QoS level denoted by a two-bit field.
pub open spec fn spec_qos(v: u8) -> QoS {
    if v == 0 {
        QoS::AtMostOnce
    } else if v == 1 {
        QoS::AtLeastOnce
    } else if v == 2 {
        QoS::ExactlyOnce
    } else {
        QoS::Malformed
    }
}

/// Reads a QoS level out of a byte; values above 2 are malformed.
pub fn qos_from_bits(qos: Bits) -> (r: Result<QoS, Error>)
    ensures
        qos.0 <= 2 ==> (r matches Ok(q) && q == spec_qos(qos.0)),
        qos.0 > 2 ==> (r matches Err(e) && e is MalformedPacket),
{
    match qos.0 {
        0 => Ok(QoS::AtMostOnce),
        1 => Ok(QoS::AtLeastOnce),
        2 => Ok(QoS::ExactlyOnce),
        _ => Err(Error::MalformedPacket("a QoS field only carries 0, 1 or 2".to_owned())),
    }
}

// ---------------------------------------------------------------------------
// Property identifiers (2.2.2.2 of the MQTT 5.0 specification)
// ---------------------------------------------------------------------------

pub const PAYLOAD_FORMAT_INDICATOR: u32 = 0x01;

pub const MESSAGE_EXPIRY_INTERVAL: u32 = 0x02;

pub const CONTENT_TYPE: u32 = 0x03;

pub const RESPONSE_TOPIC: u32 = 0x08;

pub const CORRELATION_DATA: u32 = 0x09;

pub const SUBSCRIPTION_IDENTIFIER: u32 = 0x0B;

pub const SESSION_EXPIRY_INTERVAL: u32 = 0x11;

pub const ASSIGNED_CLIENT_IDENTIFIER: u32 = 0x12;

pub const SERVER_KEEP_ALIVE: u32 = 0x13;

pub const AUTHENTICATION_METHOD: u32 = 0x15;

pub const AUTHENTICATION_DATA: u32 = 0x16;

pub const REQUEST_PROBLEM_INFORMATION: u32 = 0x17;

pub const WILL_DELAY_INTERVAL: u32 = 0x18;

pub const REQUEST_RESPONSE_INFORMATION: u32 = 0x19;

pub const RESPONSE_INFORMATION: u32 = 0x1A;

pub const SERVER_REFERENCE: u32 = 0x1C;

pub const REASON_STRING: u32 = 0x1F;

pub const RECEIVE_MAXIMUM: u32 = 0x21;

pub const TOPIC_ALIAS_MAXIMUM: u32 = 0x22;

pub const TOPIC_ALIAS: u32 = 0x23;

pub const MAXIMUM_QOS: u32 = 0x24;

pub const RETAIN_AVAILABLE: u32 = 0x25;

pub const USER_PROPERTY: u32 = 0x26;

pub const MAXIMUM_PACKET_SIZE: u32 = 0x27;

pub const WILDCARD_SUBSCRIPTION_AVAILABLE: u32 = 0x28;

pub const SUBSCRIPTION_IDENTIFIER_AVAILABLE: u32 = 0x29;

pub const SHARED_SUBSCRIPTION_AVAILABLE: u32 = 0x2A;

} // verus!
