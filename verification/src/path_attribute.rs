//! The path attributes of an UPDATE and their wire form.
//!
//! As in the message module, `decode` and `value` write bytes and `encode`
//! reads them.

use crate::error::BgpError;
use crate::routing::Ipv4Addr;
use crate::wire::{be16, be16_at, copy_range, push_all, push_be16, read_be16, view_of};
use vstd::prelude::*;

verus! {

/// The flags of a well-known attribute whose length takes one octet:
/// well-known, transitive, complete.
pub const WELL_KNOWN_FLAGS: u8 = 0x40;

/// The same with the extended-length bit: the length takes two octets.
pub const WELL_KNOWN_EXTENDED_FLAGS: u8 = 0x50;

/// The bit of the flags that says that the length takes two octets.
pub const EXTENDED_LENGTH_BIT: u8 = 0x10;

/// Where a route was learned.
#[derive(Clone, Copy, Debug, PartialEq, Eq, Structural)]
pub enum Origin {
    Igp,
    Egp,
    Incomplete,
}

impl Origin {
    /// The value octet of the ORIGIN attribute.
    pub open spec fn number(self) -> u8 {
        match self {
            Origin::Igp => 0,
            Origin::Egp => 1,
            Origin::Incomplete => 2,
        }
    }

    /// The value octet of the ORIGIN attribute.
    pub fn value(&self) -> (v: u8)
        ensures
            v == self.number(),
    {
        match self {
            Origin::Igp => 0,
            Origin::Egp => 1,
            Origin::Incomplete => 2,
        }
    }
}

/// One segment of AS numbers: a set or a sequence.
#[derive(Debug, PartialEq, Eq)]
pub enum AsPath {
    AsSet(Vec<u16>),
    AsSequence(Vec<u16>),
}

/// What an `AsPath` holds.
pub enum AsPathModel {
    AsSet(Seq<u16>),
    AsSequence(Seq<u16>),
}

/// The octets of a run of AS numbers, two for each, most significant first.
pub open spec fn numbers_wire(numbers: Seq<u16>) -> Seq<u8> {
    Seq::new(
        2 * numbers.len(),
        |j: int|
            if j % 2 == 0 {
                (numbers[j / 2] / 256) as u8
            } else {
                (numbers[j / 2] % 256) as u8
            },
    )
}

/// The `count` AS numbers that stand in `bytes` from offset 2 on.
pub open spec fn numbers_from_wire(bytes: Seq<u8>, count: nat) -> Seq<u16> {
    Seq::new(count, |k: int| be16_at(bytes, 2 + 2 * k))
}

impl AsPathModel {
    /// The AS numbers of the segment.
    pub open spec fn numbers(self) -> Seq<u16> {
        match self {
            AsPathModel::AsSet(numbers) => numbers,
            AsPathModel::AsSequence(numbers) => numbers,
        }
    }

    /// The segment type octet: 1 for a set, 2 for a sequence.
    pub open spec fn segment_type(self) -> u8 {
        match self {
            AsPathModel::AsSet(_) => 1,
            AsPathModel::AsSequence(_) => 2,
        }
    }

    /// The value of the AS_PATH attribute: the segment type, the number of AS
    /// numbers, and the AS numbers.
    pub open spec fn wire(self) -> Seq<u8> {
        seq![self.segment_type(), self.numbers().len() as u8] + numbers_wire(self.numbers())
    }
}

/// The segment that the value of an AS_PATH attribute holds: exactly one
/// segment of type 1 or 2 whose count matches the length of the value;
/// anything else is `MalformedAsPath`.
pub open spec fn as_path_from_wire(value: Seq<u8>) -> Result<AsPathModel, BgpError> {
    if value.len() < 2 || value.len() != 2 + 2 * value[1] {
        Err(BgpError::MalformedAsPath)
    } else if value[0] == 1 {
        Ok(AsPathModel::AsSet(numbers_from_wire(value, value[1] as nat)))
    } else if value[0] == 2 {
        Ok(AsPathModel::AsSequence(numbers_from_wire(value, value[1] as nat)))
    } else {
        Err(BgpError::MalformedAsPath)
    }
}

impl View for AsPath {
    type V = AsPathModel;

    open spec fn view(&self) -> AsPathModel {
        match self {
            AsPath::AsSet(numbers) => AsPathModel::AsSet(numbers@),
            AsPath::AsSequence(numbers) => AsPathModel::AsSequence(numbers@),
        }
    }
}

impl Clone for AsPath {
    fn clone(&self) -> (copy: Self)
        ensures
            copy@ == self@,
    {
        match self {
            AsPath::AsSet(numbers) => {
                let copy: Vec<u16> = clone_numbers(numbers);
                AsPath::AsSet(copy)
            },
            AsPath::AsSequence(numbers) => {
                let copy: Vec<u16> = clone_numbers(numbers);
                AsPath::AsSequence(copy)
            },
        }
    }
}

/// A copy of a run of AS numbers.
pub fn clone_numbers(numbers: &Vec<u16>) -> (copy: Vec<u16>)
    ensures
        copy@ == numbers@,
{
    let mut copy: Vec<u16> = Vec::new();
    let mut i: usize = 0;
    while i < numbers.len()
        invariant
            i <= numbers.len(),
            copy@ == numbers@.take(i as int),
        decreases numbers.len() - i,
    {
        copy.push(numbers[i]);
        i = i + 1;
        assert(copy@ =~= numbers@.take(i as int));
    }
    assert(numbers@.take(numbers.len() as int) =~= numbers@);
    copy
}

impl AsPath {
    /// The AS numbers of the segment.
    pub fn numbers(&self) -> (numbers: &Vec<u16>)
        ensures
            numbers@ == self@.numbers(),
    {
        match self {
            AsPath::AsSet(numbers) => numbers,
            AsPath::AsSequence(numbers) => numbers,
        }
    }

    /// The value of the AS_PATH attribute for this segment. The count of AS
    /// numbers takes one octet, so the segment holds at most 255 of them.
    pub fn value(&self) -> (bytes: Vec<u8>)
        requires
            self@.numbers().len() <= 255,
        ensures
            bytes@ == self@.wire(),
    {
        let segment_type: u8 = match self {
            AsPath::AsSet(_) => 1,
            AsPath::AsSequence(_) => 2,
        };
        let numbers: &Vec<u16> = self.numbers();
        let mut bytes: Vec<u8> = Vec::new();
        bytes.push(segment_type);
        bytes.push(numbers.len() as u8);
        let ghost head: Seq<u8> = bytes@;
        let mut i: usize = 0;
        while i < numbers.len()
            invariant
                i <= numbers.len(),
                bytes@ == head + numbers_wire(numbers@.take(i as int)),
            decreases numbers.len() - i,
        {
            push_be16(&mut bytes, numbers[i]);
            i = i + 1;
            assert(bytes@ =~= head + numbers_wire(numbers@.take(i as int)));
        }
        assert(numbers@.take(numbers.len() as int) =~= numbers@);
        bytes
    }

    /// Reads the segment that the value of an AS_PATH attribute holds.
    pub fn from_value(value: &Vec<u8>) -> (path: Result<Self, BgpError>)
        ensures
            view_of(path) == as_path_from_wire(value@),
    {
        if value.len() < 2 {
            return Err(BgpError::MalformedAsPath);
        }
        let count: usize = value[1] as usize;
        if value.len() != 2 + 2 * count {
            return Err(BgpError::MalformedAsPath);
        }
        let segment_type: u8 = value[0];
        if segment_type != 1 && segment_type != 2 {
            return Err(BgpError::MalformedAsPath);
        }
        let mut numbers: Vec<u16> = Vec::new();
        let mut k: usize = 0;
        while k < count
            invariant
                k <= count,
                value.len() == 2 + 2 * count,
                numbers@ == numbers_from_wire(value@, k as nat),
            decreases count - k,
        {
            numbers.push(read_be16(value, 2 + 2 * k));
            k = k + 1;
            assert(numbers@ =~= numbers_from_wire(value@, k as nat));
        }
        if segment_type == 1 {
            Ok(AsPath::AsSet(numbers))
        } else {
            Ok(AsPath::AsSequence(numbers))
        }
    }
}

/// A path attribute of an UPDATE.
#[derive(Debug, PartialEq, Eq)]
pub enum PathAttribute {
    Origin(Origin),
    AsPath(AsPath),
    NextHop(Ipv4Addr),
    LocalPref,
    AtomicAggregate,
    Aggregator,
    /// An attribute of a type that this speaker does not read, with its value.
    Unknown(Vec<u8>),
}

/// What a `PathAttribute` holds.
pub enum PathAttributeModel {
    Origin(Origin),
    AsPath(AsPathModel),
    NextHop(Ipv4Addr),
    LocalPref,
    AtomicAggregate,
    Aggregator,
    Unknown(Seq<u8>),
}

impl View for PathAttribute {
    type V = PathAttributeModel;

    open spec fn view(&self) -> PathAttributeModel {
        match self {
            PathAttribute::Origin(origin) => PathAttributeModel::Origin(*origin),
            PathAttribute::AsPath(path) => PathAttributeModel::AsPath(path@),
            PathAttribute::NextHop(next_hop) => PathAttributeModel::NextHop(*next_hop),
            PathAttribute::LocalPref => PathAttributeModel::LocalPref,
            PathAttribute::AtomicAggregate => PathAttributeModel::AtomicAggregate,
            PathAttribute::Aggregator => PathAttributeModel::Aggregator,
            PathAttribute::Unknown(value) => PathAttributeModel::Unknown(value@),
        }
    }
}

/// What a list of attributes holds.
pub open spec fn models(attributes: Seq<PathAttribute>) -> Seq<PathAttributeModel> {
    Seq::new(attributes.len(), |i: int| attributes[i]@)
}

impl PathAttributeModel {
    /// Whether the attribute can be written: an AS_PATH holds at most 255 AS
    /// numbers.
    pub open spec fn encodable(self) -> bool {
        self matches PathAttributeModel::AsPath(path) ==> path.numbers().len() <= 255
    }

    /// Whether writing the attribute keeps it: ORIGIN, AS_PATH and NEXT_HOP
    /// are written, every other attribute is left out.
    pub open spec fn is_written(self) -> bool {
        match self {
            PathAttributeModel::Origin(_) => true,
            PathAttributeModel::AsPath(path) => path.numbers().len() <= 255,
            PathAttributeModel::NextHop(_) => true,
            _ => false,
        }
    }

    /// The bytes of the attribute: flags, type code, length, value. The
    /// flags are those of a well-known attribute; the length takes one octet
    /// unless the value is longer than 255 octets. An attribute of any other
    /// kind than ORIGIN, AS_PATH and NEXT_HOP takes no bytes.
    pub open spec fn wire(self) -> Seq<u8> {
        match self {
            PathAttributeModel::Origin(origin) => seq![0x40u8, 1u8, 1u8, origin.number()],
            PathAttributeModel::AsPath(path) => {
                if path.wire().len() <= 255 {
                    seq![0x40u8, 2u8, path.wire().len() as u8] + path.wire()
                } else {
                    seq![0x50u8, 2u8] + be16(path.wire().len() as u16) + path.wire()
                }
            },
            PathAttributeModel::NextHop(next_hop) => seq![0x40u8, 3u8, 4u8]
                + next_hop.octets_seq(),
            _ => Seq::empty(),
        }
    }
}

/// The attribute of type `type_code` whose value is `value`.
/// ORIGIN: one octet (`AttributeLengthError`) that is 0, 1 or 2
/// (`InvalidOriginAttribute`). AS_PATH: one segment (`MalformedAsPath`).
/// NEXT_HOP: four octets (`InvalidNextHopAttribute`). Any other type is kept
/// as `Unknown` with its value.
pub open spec fn attribute_value_from_wire(type_code: u8, value: Seq<u8>) -> Result<
    PathAttributeModel,
    BgpError,
> {
    if type_code == 1 {
        if value.len() != 1 {
            Err(BgpError::AttributeLengthError)
        } else if value[0] == 0 {
            Ok(PathAttributeModel::Origin(Origin::Igp))
        } else if value[0] == 1 {
            Ok(PathAttributeModel::Origin(Origin::Egp))
        } else if value[0] == 2 {
            Ok(PathAttributeModel::Origin(Origin::Incomplete))
        } else {
            Err(BgpError::InvalidOriginAttribute)
        }
    } else if type_code == 2 {
        match as_path_from_wire(value) {
            Ok(path) => Ok(PathAttributeModel::AsPath(path)),
            Err(e) => Err(e),
        }
    } else if type_code == 3 {
        if value.len() != 4 {
            Err(BgpError::InvalidNextHopAttribute)
        } else {
            Ok(PathAttributeModel::NextHop(Ipv4Addr::of(value[0], value[1], value[2], value[3])))
        }
    } else {
        Ok(PathAttributeModel::Unknown(value))
    }
}

/// The attribute of type `type_code` whose value is `value`, where `length`
/// is the length that was read beside it: `AttributeLengthError` where the
/// two lengths differ.
pub open spec fn attribute_of_parts(type_code: u8, length: u16, value: Seq<u8>) -> Result<
    PathAttributeModel,
    BgpError,
> {
    if length != value.len() {
        Err(BgpError::AttributeLengthError)
    } else {
        attribute_value_from_wire(type_code, value)
    }
}

/// Whether the flags say that the length takes two octets.
pub open spec fn has_extended_length(flags: u8) -> bool {
    flags & 0x10 != 0
}

/// The number of octets before the value of an attribute with these flags.
pub open spec fn attribute_header_len(flags: u8) -> nat {
    if has_extended_length(flags) {
        4
    } else {
        3
    }
}

/// The attribute that `bytes` starts with, and the number of octets that it
/// takes. `MalformedAttributeList` where the flags, type and length, or the
/// value, run over the end of `bytes`.
pub open spec fn attribute_from_wire(bytes: Seq<u8>) -> Result<(PathAttributeModel, nat), BgpError> {
    if bytes.len() < 3 || bytes.len() < attribute_header_len(bytes[0]) {
        Err(BgpError::MalformedAttributeList)
    } else {
        let start = attribute_header_len(bytes[0]);
        let length: nat = if has_extended_length(bytes[0]) {
            be16_at(bytes, 2) as nat
        } else {
            bytes[2] as nat
        };
        if bytes.len() < start + length {
            Err(BgpError::MalformedAttributeList)
        } else {
            match attribute_value_from_wire(
                bytes[1],
                bytes.subrange(start as int, (start + length) as int),
            ) {
                Ok(attribute) => Ok((attribute, start + length)),
                Err(e) => Err(e),
            }
        }
    }
}

/// Puts what was read so far in front of what the rest gives.
pub open spec fn after<T>(done: Seq<T>, rest: Result<Seq<T>, BgpError>) -> Result<
    Seq<T>,
    BgpError,
> {
    match rest {
        Ok(more) => Ok(done + more),
        Err(e) => Err(e),
    }
}

/// The attributes that `bytes` holds, one after the other, to the last octet.
pub open spec fn attributes_from_wire(bytes: Seq<u8>) -> Result<Seq<PathAttributeModel>, BgpError>
    decreases bytes.len(),
{
    if bytes.len() == 0 {
        Ok(Seq::empty())
    } else {
        match attribute_from_wire(bytes) {
            Err(e) => Err(e),
            Ok((attribute, used)) => {
                if 0 < used <= bytes.len() {
                    after(seq![attribute], attributes_from_wire(bytes.skip(used as int)))
                } else {
                    Err(BgpError::MalformedAttributeList)
                }
            },
        }
    }
}

/// The bytes of a list of attributes, one after the other.
pub open spec fn attributes_wire(attributes: Seq<PathAttributeModel>) -> Seq<u8>
    decreases attributes.len(),
{
    if attributes.len() == 0 {
        Seq::empty()
    } else {
        attributes.first().wire() + attributes_wire(attributes.drop_first())
    }
}

/// What was read, with the attributes that were read taken by their views.
pub open spec fn models_of(read: Result<Vec<PathAttribute>, BgpError>) -> Result<
    Seq<PathAttributeModel>,
    BgpError,
> {
    match read {
        Ok(attributes) => Ok(models(attributes@)),
        Err(e) => Err(e),
    }
}

/// Whether every attribute of the list can be written.
pub open spec fn all_encodable(attributes: Seq<PathAttributeModel>) -> bool {
    forall|i: int| 0 <= i < attributes.len() ==> (#[trigger] attributes[i]).encodable()
}

/// Whether writing the list keeps every attribute of it.
pub open spec fn all_written(attributes: Seq<PathAttributeModel>) -> bool {
    forall|i: int| 0 <= i < attributes.len() ==> (#[trigger] attributes[i]).is_written()
}

/// The bytes of a list with one more attribute at its end are the bytes of
/// the list followed by those of the attribute.
pub proof fn lemma_attributes_wire_push(
    attributes: Seq<PathAttributeModel>,
    last: PathAttributeModel,
)
    ensures
        attributes_wire(attributes.push(last)) == attributes_wire(attributes) + last.wire(),
    decreases attributes.len(),
{
    let longer = attributes.push(last);
    if attributes.len() == 0 {
        assert(longer.drop_first() =~= Seq::<PathAttributeModel>::empty());
        assert(attributes_wire(longer) =~= last.wire() + attributes_wire(longer.drop_first()));
        assert(attributes_wire(longer) =~= attributes_wire(attributes) + last.wire());
    } else {
        assert(longer.drop_first() =~= attributes.drop_first().push(last));
        lemma_attributes_wire_push(attributes.drop_first(), last);
        assert(attributes_wire(longer) =~= attributes_wire(attributes) + last.wire());
    }
}

/// Reading the bytes of a written attribute gives the attribute back,
/// whatever follows it.
pub proof fn lemma_attribute_round_trip(attribute: PathAttributeModel, tail: Seq<u8>)
    requires
        attribute.is_written(),
    ensures
        attribute_from_wire(attribute.wire() + tail) == Ok::<(PathAttributeModel, nat), BgpError>(
            (attribute, attribute.wire().len()),
        ),
        attribute.wire().len() >= 4,
{
    match attribute {
        PathAttributeModel::Origin(origin) => {
            let value = seq![origin.number()];
            assert(attribute.wire() =~= seq![0x40u8, 1u8, 1u8] + value);
            lemma_short_attribute_framing(1, value, tail);
        },
        PathAttributeModel::NextHop(next_hop) => {
            let value = next_hop.octets_seq();
            crate::routing::lemma_bits_of_octets(next_hop);
            lemma_short_attribute_framing(3, value, tail);
        },
        PathAttributeModel::AsPath(path) => {
            let value = path.wire();
            lemma_as_path_round_trip(path);
            if value.len() <= 255 {
                lemma_short_attribute_framing(2, value, tail);
            } else {
                lemma_extended_attribute_framing(2, value, tail);
            }
        },
        _ => {},
    }
}

/// Reading the value of a written AS_PATH gives the segment back.
pub proof fn lemma_as_path_round_trip(path: AsPathModel)
    requires
        path.numbers().len() <= 255,
    ensures
        as_path_from_wire(path.wire()) == Ok::<AsPathModel, BgpError>(path),
        path.wire().len() == 2 + 2 * path.numbers().len(),
{
    let value = path.wire();
    let numbers = path.numbers();
    let octets = numbers_wire(numbers);
    let count = numbers.len();
    assert(value.len() == 2 + 2 * count);
    assert(value[0] == path.segment_type());
    assert(value[1] == count);
    assert forall|k: int| 0 <= k < count implies be16_at(value, 2 + 2 * k) == numbers[k] by {
        assert(value[2 + 2 * k] == octets[2 * k]);
        assert(value[2 + 2 * k + 1] == octets[2 * k + 1]);
        assert((2 * k) % 2 == 0 && (2 * k) / 2 == k);
        assert((2 * k + 1) % 2 == 1 && (2 * k + 1) / 2 == k);
        crate::wire::lemma_be16_round_trip(numbers[k], 0, 0);
    }
    assert(numbers_from_wire(value, count) =~= numbers);
}

/// An attribute that is written with a length of one octet is read as the
/// attribute of its type and value, whatever follows it.
pub proof fn lemma_short_attribute_framing(type_code: u8, value: Seq<u8>, tail: Seq<u8>)
    requires
        value.len() <= 255,
    ensures
        attribute_from_wire(seq![0x40u8, type_code, value.len() as u8] + value + tail)
            == match attribute_value_from_wire(type_code, value) {
            Ok(attribute) => Ok::<(PathAttributeModel, nat), BgpError>(
                (attribute, 3 + value.len()),
            ),
            Err(e) => Err(e),
        },
{
    let bytes = seq![0x40u8, type_code, value.len() as u8] + value + tail;
    assert(0x40u8 & 0x10 == 0) by (bit_vector);
    assert(bytes[0] == 0x40 && bytes[1] == type_code && bytes[2] == value.len());
    assert(!has_extended_length(bytes[0]));
    assert(bytes.subrange(3, 3 + value.len() as int) =~= value);
}

/// An attribute that is written with a length of two octets is read as the
/// attribute of its type and value, whatever follows it.
pub proof fn lemma_extended_attribute_framing(type_code: u8, value: Seq<u8>, tail: Seq<u8>)
    requires
        value.len() <= 0xffff,
    ensures
        attribute_from_wire(seq![0x50u8, type_code] + be16(value.len() as u16) + value + tail)
            == match attribute_value_from_wire(type_code, value) {
            Ok(attribute) => Ok::<(PathAttributeModel, nat), BgpError>(
                (attribute, 4 + value.len()),
            ),
            Err(e) => Err(e),
        },
{
    let length = be16(value.len() as u16);
    let bytes = seq![0x50u8, type_code] + length + value + tail;
    assert(0x50u8 & 0x10 != 0) by (bit_vector);
    crate::wire::lemma_be16_round_trip(value.len() as u16, 0, 0);
    assert(bytes[0] == 0x50 && bytes[1] == type_code);
    assert(bytes[2] == length[0] && bytes[3] == length[1]);
    assert(has_extended_length(bytes[0]));
    assert(be16_at(bytes, 2) == value.len());
    assert(bytes.subrange(4, 4 + value.len() as int) =~= value);
}

/// Reading the bytes of a written list gives the list back.
pub proof fn lemma_attributes_round_trip(attributes: Seq<PathAttributeModel>)
    requires
        all_written(attributes),
    ensures
        attributes_from_wire(attributes_wire(attributes)) == Ok::<
            Seq<PathAttributeModel>,
            BgpError,
        >(attributes),
    decreases attributes.len(),
{
    if attributes.len() == 0 {
        assert(attributes =~= Seq::empty());
    } else {
        let first = attributes.first();
        let rest = attributes.drop_first();
        let tail = attributes_wire(rest);
        assert(first.is_written());
        assert(all_written(rest)) by {
            assert forall|i: int| 0 <= i < rest.len() implies (#[trigger] rest[i]).is_written() by {
                assert(rest[i] == attributes[i + 1]);
            }
        }
        lemma_attribute_round_trip(first, tail);
        lemma_attributes_round_trip(rest);
        let bytes = attributes_wire(attributes);
        assert(bytes.skip(first.wire().len() as int) =~= tail);
        assert(seq![first] + rest =~= attributes);
    }
}

impl Clone for PathAttribute {
    fn clone(&self) -> (copy: Self)
        ensures
            copy@ == self@,
    {
        match self {
            PathAttribute::Origin(origin) => PathAttribute::Origin(*origin),
            PathAttribute::AsPath(path) => PathAttribute::AsPath(path.clone()),
            PathAttribute::NextHop(next_hop) => PathAttribute::NextHop(*next_hop),
            PathAttribute::LocalPref => PathAttribute::LocalPref,
            PathAttribute::AtomicAggregate => PathAttribute::AtomicAggregate,
            PathAttribute::Aggregator => PathAttribute::Aggregator,
            PathAttribute::Unknown(value) => {
                let len: usize = value.len();
                let copy: Vec<u8> = copy_range(value, 0, len);
                assert(copy@ =~= value@);
                PathAttribute::Unknown(copy)
            },
        }
    }
}

/// A copy of a list of attributes.
pub fn clone_attributes(attributes: &Vec<PathAttribute>) -> (copy: Vec<PathAttribute>)
    ensures
        models(copy@) == models(attributes@),
{
    let mut copy: Vec<PathAttribute> = Vec::new();
    let mut i: usize = 0;
    while i < attributes.len()
        invariant
            i <= attributes.len(),
            copy.len() == i,
            forall|j: int| 0 <= j < i ==> copy@[j]@ == attributes@[j]@,
        decreases attributes.len() - i,
    {
        copy.push(attributes[i].clone());
        i = i + 1;
    }
    assert(models(copy@) =~= models(attributes@));
    copy
}

impl PathAttribute {
    /// The bytes of the attribute.
    pub fn decode(&self) -> (bytes: Vec<u8>)
        requires
            self@.encodable(),
        ensures
            bytes@ == self@.wire(),
    {
        match self {
            PathAttribute::Origin(origin) => {
                let mut bytes: Vec<u8> = Vec::new();
                bytes.push(WELL_KNOWN_FLAGS);
                bytes.push(1);
                bytes.push(1);
                bytes.push(origin.value());
                assert(bytes@ =~= self@.wire());
                bytes
            },
            PathAttribute::AsPath(path) => {
                let value: Vec<u8> = path.value();
                let mut bytes: Vec<u8> = Vec::new();
                if value.len() <= 255 {
                    bytes.push(WELL_KNOWN_FLAGS);
                    bytes.push(2);
                    bytes.push(value.len() as u8);
                } else {
                    bytes.push(WELL_KNOWN_EXTENDED_FLAGS);
                    bytes.push(2);
                    push_be16(&mut bytes, value.len() as u16);
                }
                push_all(&mut bytes, &value);
                assert(bytes@ =~= self@.wire());
                bytes
            },
            PathAttribute::NextHop(next_hop) => {
                let octets: [u8; 4] = next_hop.octets();
                let mut bytes: Vec<u8> = Vec::new();
                bytes.push(WELL_KNOWN_FLAGS);
                bytes.push(3);
                bytes.push(4);
                bytes.push(octets[0]);
                bytes.push(octets[1]);
                bytes.push(octets[2]);
                bytes.push(octets[3]);
                assert(bytes@ =~= self@.wire());
                bytes
            },
            _ => {
                let bytes: Vec<u8> = Vec::new();
                assert(bytes@ =~= self@.wire());
                bytes
            },
        }
    }

    /// The attribute of type `attribute_type` whose value is
    /// `attribute_value`. The flags are not kept: they are derived again when
    /// the attribute is written. A length that is not the length of the value
    /// is an `AttributeLengthError`.
    pub fn encode(
        attribute_flag: u8,
        attribute_type: u8,
        attribute_length: u16,
        attribute_value: Vec<u8>,
    ) -> (attribute: Result<Self, BgpError>)
        ensures
            view_of(attribute) == attribute_of_parts(
                attribute_type,
                attribute_length,
                attribute_value@,
            ),
    {
        if attribute_length as usize != attribute_value.len() {
            return Err(BgpError::AttributeLengthError);
        }
        match attribute_type {
            1 => {
                if attribute_value.len() != 1 {
                    return Err(BgpError::AttributeLengthError);
                }
                match attribute_value[0] {
                    0 => Ok(PathAttribute::Origin(Origin::Igp)),
                    1 => Ok(PathAttribute::Origin(Origin::Egp)),
                    2 => Ok(PathAttribute::Origin(Origin::Incomplete)),
                    _ => Err(BgpError::InvalidOriginAttribute),
                }
            },
            2 => {
                match AsPath::from_value(&attribute_value) {
                    Ok(path) => Ok(PathAttribute::AsPath(path)),
                    Err(e) => Err(e),
                }
            },
            3 => {
                if attribute_value.len() != 4 {
                    return Err(BgpError::InvalidNextHopAttribute);
                }
                Ok(
                    PathAttribute::NextHop(
                        Ipv4Addr::new(
                            attribute_value[0],
                            attribute_value[1],
                            attribute_value[2],
                            attribute_value[3],
                        ),
                    ),
                )
            },
            _ => Ok(PathAttribute::Unknown(attribute_value)),
        }
    }
}

} // verus!
