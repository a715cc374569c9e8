//! The UPDATE message and its wire form.
//!
//! As in the message module, `decode` writes bytes and `encode` reads them.

use crate::bgp::{header_from_wire, BgpMessageHeader, BgpMessageType};
use crate::error::BgpError;
use crate::path_attribute::{
    after, all_encodable, all_written, attributes_from_wire, attributes_wire,
    lemma_attributes_round_trip, lemma_attributes_wire_push, models, models_of, numbers_wire,
    AsPath, AsPathModel, Origin, PathAttribute, PathAttributeModel, EXTENDED_LENGTH_BIT,
};
use crate::rib::{is_new, new_routes, AdjRibOut, EntryModel, RoutingInformationStatus};
use crate::Config;
use crate::routing::{
    lemma_prefix_round_trip, octet_count, octet_count_of, prefix_from_wire, IpPrefix,
};
use crate::wire::{be16, be16_at, copy_range, lemma_be16_round_trip, push_all, push_be16, read_be16, view_of};
use vstd::prelude::*;

verus! {

/// The length of the shortest UPDATE: the header and two lengths of 0.
pub const MIN_UPDATE_LENGTH: u16 = 23;

/// The bytes of a list of prefixes, one after the other.
pub open spec fn prefixes_wire(prefixes: Seq<IpPrefix>) -> Seq<u8>
    decreases prefixes.len(),
{
    if prefixes.len() == 0 {
        Seq::empty()
    } else {
        prefixes.first().wire() + prefixes_wire(prefixes.drop_first())
    }
}

/// The prefixes that `bytes` holds, one after the other, to the last octet.
/// `InvalidNetworkField` where a length octet is over 32 or the address
/// octets of a prefix run over the end.
pub open spec fn prefixes_from_wire(bytes: Seq<u8>) -> Result<Seq<IpPrefix>, BgpError>
    decreases bytes.len(),
{
    if bytes.len() == 0 {
        Ok(Seq::empty())
    } else if bytes.len() < 1 + octet_count(bytes[0]) {
        Err(BgpError::InvalidNetworkField)
    } else {
        match prefix_from_wire(bytes.take(1 + octet_count(bytes[0]) as int)) {
            Err(e) => Err(e),
            Ok(prefix) => after(
                seq![prefix],
                prefixes_from_wire(bytes.skip(1 + octet_count(bytes[0]) as int)),
            ),
        }
    }
}

/// Whether every prefix of the list is well formed.
pub open spec fn all_wf(prefixes: Seq<IpPrefix>) -> bool {
    forall|i: int| 0 <= i < prefixes.len() ==> (#[trigger] prefixes[i]).wf()
}

/// The bytes of a list with one more prefix at its end are the bytes of the
/// list followed by those of the prefix.
pub proof fn lemma_prefixes_wire_push(prefixes: Seq<IpPrefix>, last: IpPrefix)
    ensures
        prefixes_wire(prefixes.push(last)) == prefixes_wire(prefixes) + last.wire(),
    decreases prefixes.len(),
{
    let longer = prefixes.push(last);
    if prefixes.len() == 0 {
        assert(longer.drop_first() =~= Seq::<IpPrefix>::empty());
        assert(prefixes_wire(longer) =~= last.wire() + prefixes_wire(longer.drop_first()));
        assert(prefixes_wire(longer) =~= prefixes_wire(prefixes) + last.wire());
    } else {
        assert(longer.drop_first() =~= prefixes.drop_first().push(last));
        lemma_prefixes_wire_push(prefixes.drop_first(), last);
        assert(prefixes_wire(longer) =~= prefixes_wire(prefixes) + last.wire());
    }
}

/// Reading the bytes of a list of well-formed prefixes gives the list back.
pub proof fn lemma_prefixes_round_trip(prefixes: Seq<IpPrefix>)
    requires
        all_wf(prefixes),
    ensures
        prefixes_from_wire(prefixes_wire(prefixes)) == Ok::<Seq<IpPrefix>, BgpError>(prefixes),
    decreases prefixes.len(),
{
    if prefixes.len() == 0 {
        assert(prefixes =~= Seq::empty());
    } else {
        let first = prefixes.first();
        let rest = prefixes.drop_first();
        let tail = prefixes_wire(rest);
        let bytes = prefixes_wire(prefixes);
        assert(first.wf());
        assert(all_wf(rest)) by {
            assert forall|i: int| 0 <= i < rest.len() implies (#[trigger] rest[i]).wf() by {
                assert(rest[i] == prefixes[i + 1]);
            }
        }
        lemma_prefix_round_trip(first);
        lemma_prefixes_round_trip(rest);
        let used = 1 + octet_count(first.prefix_length) as int;
        assert(first.wire().len() == used);
        assert(bytes[0] == first.prefix_length);
        assert(bytes.take(used) =~= first.wire());
        assert(bytes.skip(used) =~= tail);
        assert(seq![first] + rest =~= prefixes);
    }
}

/// Reading the bytes of an UPDATE gives the message back, for every message
/// that fits the wire, whose prefixes are well formed and whose attributes
/// are among those that are written.
pub proof fn lemma_update_round_trip(message: UpdateModel)
    requires
        message.round_trips(),
    ensures
        update_from_wire(message.wire()) == Ok::<UpdateModel, BgpError>(message),
{
    let header = BgpMessageHeader {
        length: message.wire_len() as u16,
        type_: BgpMessageType::Update,
    };
    let withdrawn = prefixes_wire(message.withdrawn_routes);
    let attributes = attributes_wire(message.path_attributes);
    let announced = prefixes_wire(message.network_layer_reachability_information);
    let body = update_body(withdrawn, attributes, announced);
    let bytes = message.wire();
    let w = withdrawn.len() as int;
    let a = attributes.len() as int;
    let end = message.wire_len() as int;
    assert(header_from_wire(bytes) == Ok::<BgpMessageHeader, BgpError>(header)) by {
        crate::bgp::lemma_header_round_trip(header, body);
        lemma_update_layout(header.wire(), withdrawn, attributes, announced);
    }
    assert(be16_at(bytes, 19) == w && be16_at(bytes, 21 + w) == a) by {
        crate::bgp::lemma_header_round_trip(header, body);
        lemma_update_layout(header.wire(), withdrawn, attributes, announced);
    }
    assert(prefixes_from_wire(bytes.subrange(21, 21 + w)) == Ok::<Seq<IpPrefix>, BgpError>(
        message.withdrawn_routes,
    )) by {
        crate::bgp::lemma_header_round_trip(header, body);
        lemma_update_layout(header.wire(), withdrawn, attributes, announced);
        lemma_prefixes_round_trip(message.withdrawn_routes);
    }
    assert(attributes_from_wire(bytes.subrange(23 + w, 23 + w + a)) == Ok::<
        Seq<PathAttributeModel>,
        BgpError,
    >(message.path_attributes)) by {
        crate::bgp::lemma_header_round_trip(header, body);
        lemma_update_layout(header.wire(), withdrawn, attributes, announced);
        lemma_attributes_round_trip(message.path_attributes);
    }
    assert(prefixes_from_wire(bytes.subrange(23 + w + a, end)) == Ok::<Seq<IpPrefix>, BgpError>(
        message.network_layer_reachability_information,
    )) by {
        crate::bgp::lemma_header_round_trip(header, body);
        lemma_update_layout(header.wire(), withdrawn, attributes, announced);
        lemma_prefixes_round_trip(message.network_layer_reachability_information);
    }
    lemma_update_assembled(bytes, header, message);
}

/// A buffer is read as the UPDATE `message` where its header is read as
/// `header`, its two length fields hold the lengths of the withdrawn routes
/// and of the attributes of `message` on the wire, and its three parts are
/// read as the three parts of `message`.
pub proof fn lemma_update_assembled(bytes: Seq<u8>, header: BgpMessageHeader, message: UpdateModel)
    requires
        header_from_wire(bytes) == Ok::<BgpMessageHeader, BgpError>(header),
        header.type_ == BgpMessageType::Update,
        header.length == message.wire_len(),
        be16_at(bytes, 19) == withdrawn_len(message),
        be16_at(bytes, 21 + withdrawn_len(message)) == attributes_len(message),
        prefixes_from_wire(bytes.subrange(21, 21 + withdrawn_len(message))) == Ok::<
            Seq<IpPrefix>,
            BgpError,
        >(message.withdrawn_routes),
        attributes_from_wire(
            bytes.subrange(
                23 + withdrawn_len(message),
                23 + withdrawn_len(message) + attributes_len(message),
            ),
        ) == Ok::<Seq<PathAttributeModel>, BgpError>(message.path_attributes),
        prefixes_from_wire(
            bytes.subrange(
                23 + withdrawn_len(message) + attributes_len(message),
                message.wire_len() as int,
            ),
        ) == Ok::<Seq<IpPrefix>, BgpError>(message.network_layer_reachability_information),
    ensures
        update_from_wire(bytes) == Ok::<UpdateModel, BgpError>(message),
{
}

/// The number of octets that the withdrawn routes of a message take.
pub open spec fn withdrawn_len(message: UpdateModel) -> int {
    prefixes_wire(message.withdrawn_routes).len() as int
}

/// The number of octets that the attributes of a message take.
pub open spec fn attributes_len(message: UpdateModel) -> int {
    attributes_wire(message.path_attributes).len() as int
}

/// What follows the header of an UPDATE: the two lengths, each before the
/// bytes that it counts, and the announced prefixes.
pub open spec fn update_body(withdrawn: Seq<u8>, attributes: Seq<u8>, announced: Seq<u8>) -> Seq<
    u8,
> {
    be16(withdrawn.len() as u16) + withdrawn + be16(attributes.len() as u16) + attributes
        + announced
}

/// Where the parts of a written UPDATE stand in its bytes.
pub proof fn lemma_update_layout(
    header: Seq<u8>,
    withdrawn: Seq<u8>,
    attributes: Seq<u8>,
    announced: Seq<u8>,
)
    requires
        header.len() == 19,
        withdrawn.len() <= 0xffff,
        attributes.len() <= 0xffff,
    ensures
        ({
            let bytes = header + be16(withdrawn.len() as u16) + withdrawn + be16(
                attributes.len() as u16,
            ) + attributes + announced;
            let w = withdrawn.len() as int;
            let a = attributes.len() as int;
            &&& bytes == header + update_body(withdrawn, attributes, announced)
            &&& bytes.len() == 23 + w + a + announced.len()
            &&& be16_at(bytes, 19) == w
            &&& be16_at(bytes, 21 + w) == a
            &&& bytes.subrange(21, 21 + w) == withdrawn
            &&& bytes.subrange(23 + w, 23 + w + a) == attributes
            &&& bytes.subrange(23 + w + a, 23 + w + a + announced.len()) == announced
        }),
{
    let w = withdrawn.len() as int;
    let a = attributes.len() as int;
    let first = be16(w as u16);
    let second = be16(a as u16);
    let bytes = header + first + withdrawn + second + attributes + announced;
    lemma_be16_round_trip(w as u16, 0, 0);
    lemma_be16_round_trip(a as u16, 0, 0);
    assert(bytes =~= header + update_body(withdrawn, attributes, announced));
    assert(bytes[19] == first[0] && bytes[20] == first[1]);
    assert(bytes[21 + w] == second[0] && bytes[22 + w] == second[1]);
    assert(bytes.subrange(21, 21 + w) =~= withdrawn);
    assert(bytes.subrange(23 + w, 23 + w + a) =~= attributes);
    assert(bytes.subrange(23 + w + a, 23 + w + a + announced.len()) =~= announced);
}

/// An UPDATE message: the prefixes withdrawn, the path attributes, and the
/// prefixes announced. The lengths of the wire form are not kept.
#[derive(Debug, PartialEq, Eq)]
pub struct BgpUpdateMessage {
    pub withdrawn_routes: Vec<IpPrefix>,
    pub path_attributes: Vec<PathAttribute>,
    pub network_layer_reachability_information: Vec<IpPrefix>,
}

/// What an UPDATE holds.
pub struct UpdateModel {
    pub withdrawn_routes: Seq<IpPrefix>,
    pub path_attributes: Seq<PathAttributeModel>,
    pub network_layer_reachability_information: Seq<IpPrefix>,
}

impl View for BgpUpdateMessage {
    type V = UpdateModel;

    open spec fn view(&self) -> UpdateModel {
        UpdateModel {
            withdrawn_routes: self.withdrawn_routes@,
            path_attributes: models(self.path_attributes@),
            network_layer_reachability_information: self.network_layer_reachability_information@,
        }
    }
}

impl UpdateModel {
    /// The length of the whole message: the header (19), the two length
    /// fields (2 and 2), the withdrawn prefixes, the attributes and the
    /// announced prefixes.
    pub open spec fn wire_len(self) -> nat {
        19 + 2 + prefixes_wire(self.withdrawn_routes).len() + 2 + attributes_wire(
            self.path_attributes,
        ).len() + prefixes_wire(self.network_layer_reachability_information).len()
    }

    /// Whether the message can be written: every attribute can, and the whole
    /// fits the 16-bit length of the header.
    pub open spec fn fits(self) -> bool {
        &&& all_encodable(self.path_attributes)
        &&& self.wire_len() <= 0xffff
    }

    /// Whether reading the written message gives it back: it fits, its
    /// prefixes are well formed, and every attribute is one that is written.
    pub open spec fn round_trips(self) -> bool {
        &&& self.wire_len() <= 0xffff
        &&& all_written(self.path_attributes)
        &&& all_wf(self.withdrawn_routes)
        &&& all_wf(self.network_layer_reachability_information)
    }

    /// The bytes of the message.
    pub open spec fn wire(self) -> Seq<u8> {
        (BgpMessageHeader { length: self.wire_len() as u16, type_: BgpMessageType::Update }).wire()
            + be16(prefixes_wire(self.withdrawn_routes).len() as u16) + prefixes_wire(
            self.withdrawn_routes,
        ) + be16(attributes_wire(self.path_attributes).len() as u16) + attributes_wire(
            self.path_attributes,
        ) + prefixes_wire(self.network_layer_reachability_information)
    }
}

/// The UPDATE that a buffer holds. After the header checks, in this order:
/// the type is UPDATE (`BadMessageType`); the declared length is at least 23
/// (`BadMessageLength`); the withdrawn routes and the attribute length
/// field, and then the attributes, end within the declared length
/// (`MalformedAttributeList`); the withdrawn prefixes, the attributes and
/// the announced prefixes are read, each with its own errors.
pub open spec fn update_from_wire(bytes: Seq<u8>) -> Result<UpdateModel, BgpError> {
    match header_from_wire(bytes) {
        Err(e) => Err(e),
        Ok(header) => {
            let end = header.length as int;
            let withdrawn_len = be16_at(bytes, 19) as int;
            let attributes_len = be16_at(bytes, 21 + withdrawn_len) as int;
            if header.type_ != BgpMessageType::Update {
                Err(BgpError::BadMessageType)
            } else if end < 23 {
                Err(BgpError::BadMessageLength)
            } else if 23 + withdrawn_len > end {
                Err(BgpError::MalformedAttributeList)
            } else if 23 + withdrawn_len + attributes_len > end {
                Err(BgpError::MalformedAttributeList)
            } else {
                match prefixes_from_wire(bytes.subrange(21, 21 + withdrawn_len)) {
                    Err(e) => Err(e),
                    Ok(withdrawn_routes) => match attributes_from_wire(
                        bytes.subrange(23 + withdrawn_len, 23 + withdrawn_len + attributes_len),
                    ) {
                        Err(e) => Err(e),
                        Ok(path_attributes) => match prefixes_from_wire(
                            bytes.subrange(23 + withdrawn_len + attributes_len, end),
                        ) {
                            Err(e) => Err(e),
                            Ok(network_layer_reachability_information) => Ok(
                                UpdateModel {
                                    withdrawn_routes,
                                    path_attributes,
                                    network_layer_reachability_information,
                                },
                            ),
                        },
                    },
                }
            }
        },
    }
}

/// The bytes of a list of prefixes.
pub fn write_prefixes(prefixes: &Vec<IpPrefix>) -> (bytes: Vec<u8>)
    ensures
        bytes@ == prefixes_wire(prefixes@),
{
    let mut bytes: Vec<u8> = Vec::new();
    let mut i: usize = 0;
    while i < prefixes.len()
        invariant
            i <= prefixes.len(),
            bytes@ == prefixes_wire(prefixes@.take(i as int)),
        decreases prefixes.len() - i,
    {
        let one: Vec<u8> = prefixes[i].decode();
        proof {
            lemma_prefixes_wire_push(prefixes@.take(i as int), prefixes@[i as int]);
            assert(prefixes@.take(i as int).push(prefixes@[i as int]) =~= prefixes@.take(i + 1));
        }
        push_all(&mut bytes, &one);
        i = i + 1;
    }
    assert(prefixes@.take(prefixes.len() as int) =~= prefixes@);
    bytes
}

/// The bytes of a list of attributes; `None` where one of them cannot be
/// written.
pub fn write_attributes(attributes: &Vec<PathAttribute>) -> (bytes: Option<Vec<u8>>)
    ensures
        bytes is Some == all_encodable(models(attributes@)),
        bytes matches Some(b) ==> b@ == attributes_wire(models(attributes@)),
{
    let mut bytes: Vec<u8> = Vec::new();
    let mut i: usize = 0;
    while i < attributes.len()
        invariant
            i <= attributes.len(),
            all_encodable(models(attributes@.take(i as int))),
            bytes@ == attributes_wire(models(attributes@.take(i as int))),
        decreases attributes.len() - i,
    {
        let ghost seen = models(attributes@.take(i as int));
        let ghost next = attributes@[i as int]@;
        proof {
            assert(models(attributes@.take(i + 1)) =~= seen.push(next));
            assert(models(attributes@)[i as int] == next);
        }
        match &attributes[i] {
            PathAttribute::AsPath(path) => {
                if path.numbers().len() > 255 {
                    assert(!next.encodable());
                    return None;
                }
            },
            _ => {},
        }
        let one: Vec<u8> = attributes[i].decode();
        proof {
            lemma_attributes_wire_push(seen, next);
        }
        push_all(&mut bytes, &one);
        i = i + 1;
    }
    assert(attributes@.take(attributes.len() as int) =~= attributes@);
    Some(bytes)
}

/// The destination of a route.
pub open spec fn destination_of(entry: EntryModel) -> IpPrefix {
    entry.destination_address
}

/// The attributes under which this speaker announces its routes: the origin
/// IGP, the AS path that is the sequence of its own AS number, and its own
/// address as next hop.
pub open spec fn own_attributes(config: Config) -> Seq<PathAttributeModel> {
    seq![
        PathAttributeModel::Origin(Origin::Igp),
        PathAttributeModel::AsPath(AsPathModel::AsSequence(seq![config.as_number.0])),
        PathAttributeModel::NextHop(config.my_ip_addr),
    ]
}

/// The UPDATE that announces the new routes of Adj-RIB-Out: nothing
/// withdrawn, the speaker's own attributes, and the destinations of the new
/// routes in the order of the base.
pub open spec fn advertisement(adj_rib_out: Seq<EntryModel>, config: Config) -> UpdateModel {
    UpdateModel {
        withdrawn_routes: Seq::empty(),
        path_attributes: own_attributes(config),
        network_layer_reachability_information: new_routes(adj_rib_out).map_values(
            |entry: EntryModel| destination_of(entry),
        ),
    }
}

/// The length that the header of an announcement declares: 19 for the
/// header, 2 and 2 for the two length fields, 18 for the three attributes,
/// and the bytes of the announced prefixes.
pub proof fn lemma_advertisement_len(adj_rib_out: Seq<EntryModel>, config: Config)
    ensures
        advertisement(adj_rib_out, config).wire_len() == 19 + 2 + 2 + 18 + prefixes_wire(
            advertisement(adj_rib_out, config).network_layer_reachability_information,
        ).len(),
        all_encodable(own_attributes(config)),
        all_written(own_attributes(config)),
        attributes_wire(own_attributes(config)).len() == 18,
{
    let attributes = own_attributes(config);
    assert(prefixes_wire(Seq::<IpPrefix>::empty()).len() == 0);
    let none = Seq::<PathAttributeModel>::empty();
    let one = none.push(attributes[0]);
    let two = one.push(attributes[1]);
    lemma_attributes_wire_push(none, attributes[0]);
    lemma_attributes_wire_push(one, attributes[1]);
    lemma_attributes_wire_push(two, attributes[2]);
    assert(attributes =~= two.push(attributes[2]));
    assert(attributes_wire(attributes) =~= attributes[0].wire() + attributes[1].wire()
        + attributes[2].wire());
    assert(attributes[1].wire().len() == 7) by {
        assert(numbers_wire(seq![config.as_number.0]).len() == 2);
    }
}

impl BgpUpdateMessage {
    /// The UPDATE that announces the new routes of Adj-RIB-Out under the
    /// speaker's own attributes.
    pub fn is_created_from_adj_rib_out(adj_rib_out: &AdjRibOut, config: &Config) -> (message: Self)
        ensures
            message@ == advertisement(adj_rib_out@, *config),
    {
        let ghost new = |entry: EntryModel| is_new(entry);
        let ghost destination = |entry: EntryModel| destination_of(entry);
        let mut advertise_route_ip_prefixes: Vec<IpPrefix> = Vec::new();
        let mut i: usize = 0;
        assert(adj_rib_out@.take(0).filter(new).map_values(destination) =~= Seq::<
            IpPrefix,
        >::empty());
        while i < adj_rib_out.0.len()
            invariant
                i <= adj_rib_out.0.len(),
                new == |entry: EntryModel| is_new(entry),
                destination == |entry: EntryModel| destination_of(entry),
                advertise_route_ip_prefixes@ == adj_rib_out@.take(i as int).filter(new).map_values(
                    destination,
                ),
            decreases adj_rib_out.0.len() - i,
        {
            let ghost seen = adj_rib_out@.take(i as int);
            let ghost entry = adj_rib_out@[i as int];
            proof {
                assert(adj_rib_out@.take(i + 1) =~= seen.push(entry));
                Seq::lemma_filter_push(seen, entry, new);
                assert(seen.filter(new).push(entry).map_values(destination) =~= seen.filter(
                    new,
                ).map_values(destination).push(destination(entry)));
            }
            match adj_rib_out.0[i].status {
                RoutingInformationStatus::UnChanged => {},
                _ => {
                    advertise_route_ip_prefixes.push(adj_rib_out.0[i].destination_address);
                },
            }
            i = i + 1;
        }
        assert(adj_rib_out@.take(adj_rib_out.0.len() as int) =~= adj_rib_out@);
        let mut as_numbers: Vec<u16> = Vec::new();
        as_numbers.push(config.as_number.0);
        let mut path_attributes: Vec<PathAttribute> = Vec::new();
        path_attributes.push(PathAttribute::Origin(Origin::Igp));
        path_attributes.push(PathAttribute::AsPath(AsPath::AsSequence(as_numbers)));
        path_attributes.push(PathAttribute::NextHop(config.my_ip_addr));
        let message = BgpUpdateMessage {
            withdrawn_routes: Vec::new(),
            path_attributes,
            network_layer_reachability_information: advertise_route_ip_prefixes,
        };
        assert(message@.path_attributes =~= own_attributes(*config));
        assert(message@.withdrawn_routes =~= Seq::<IpPrefix>::empty());
        message
    }

    /// Reads the attributes that `raw_data` holds from its first octet to
    /// its last.
    pub fn encode_path_attributes(raw_data: &Vec<u8>) -> (attributes: Result<
        Vec<PathAttribute>,
        BgpError,
    >)
        ensures
            models_of(attributes) == attributes_from_wire(raw_data@),
    {
        let mut result: Vec<PathAttribute> = Vec::new();
        let mut i: usize = 0;
        proof {
            assert(raw_data@.skip(0) =~= raw_data@);
            if let Ok(m) = attributes_from_wire(raw_data@) {
                assert(models(result@) + m =~= m);
            }
        }
        while i < raw_data.len()
            invariant
                i <= raw_data.len(),
                attributes_from_wire(raw_data@) == after(
                    models(result@),
                    attributes_from_wire(raw_data@.skip(i as int)),
                ),
            decreases raw_data.len() - i,
        {
            let ghost rest: Seq<u8> = raw_data@.skip(i as int);
            if raw_data.len() - i < 3 {
                return Err(BgpError::MalformedAttributeList);
            }
            let flags: u8 = raw_data[i];
            let type_code: u8 = raw_data[i + 1];
            let extended: bool = flags & EXTENDED_LENGTH_BIT != 0;
            let start: usize = if extended {
                4
            } else {
                3
            };
            if raw_data.len() - i < start {
                return Err(BgpError::MalformedAttributeList);
            }
            let length: u16 = if extended {
                read_be16(raw_data, i + 2)
            } else {
                raw_data[i + 2] as u16
            };
            if raw_data.len() - i - start < length as usize {
                return Err(BgpError::MalformedAttributeList);
            }
            let value_start: usize = i + start;
            let value_end: usize = value_start + length as usize;
            let value: Vec<u8> = copy_range(raw_data, value_start, value_end);
            assert(value@ =~= rest.subrange(start as int, start + length));
            let attribute = match PathAttribute::encode(flags, type_code, length, value) {
                Ok(a) => a,
                Err(e) => {
                    return Err(e);
                },
            };
            proof {
                assert(rest.skip(start + length) =~= raw_data@.skip(value_end as int));
                assert(models(result@.push(attribute)) =~= models(result@) + seq![attribute@]);
                let more = attributes_from_wire(raw_data@.skip(value_end as int));
                if let Ok(m) = more {
                    assert(models(result@) + (seq![attribute@] + m) =~= (models(result@) + seq![
                        attribute@,
                    ]) + m);
                }
            }
            result.push(attribute);
            i = value_end;
        }
        proof {
            assert(raw_data@.skip(i as int) =~= Seq::<u8>::empty());
            assert(models(result@) + Seq::<PathAttributeModel>::empty() =~= models(result@));
        }
        Ok(result)
    }

    /// Reads the prefixes that `raw_data` holds from its first octet to its
    /// last: a list of withdrawn routes, or of announced ones.
    pub fn encode_routes(raw_data: &Vec<u8>) -> (prefixes: Result<Vec<IpPrefix>, BgpError>)
        ensures
            view_of(prefixes) == prefixes_from_wire(raw_data@),
    {
        let mut result: Vec<IpPrefix> = Vec::new();
        let mut i: usize = 0;
        proof {
            assert(raw_data@.skip(0) =~= raw_data@);
            if let Ok(m) = prefixes_from_wire(raw_data@) {
                assert(result@ + m =~= m);
            }
        }
        while i < raw_data.len()
            invariant
                i <= raw_data.len(),
                prefixes_from_wire(raw_data@) == after(
                    result@,
                    prefixes_from_wire(raw_data@.skip(i as int)),
                ),
            decreases raw_data.len() - i,
        {
            let ghost rest: Seq<u8> = raw_data@.skip(i as int);
            let prefix_length: u8 = raw_data[i];
            let number_of_octets: usize = octet_count_of(prefix_length);
            if raw_data.len() - i < 1 + number_of_octets {
                return Err(BgpError::InvalidNetworkField);
            }
            let end: usize = i + 1 + number_of_octets;
            let one: Vec<u8> = copy_range(raw_data, i, end);
            assert(one@ =~= rest.take(1 + number_of_octets));
            let prefix = match IpPrefix::encode(&one) {
                Ok(p) => p,
                Err(e) => {
                    return Err(e);
                },
            };
            proof {
                assert(rest.skip(1 + number_of_octets) =~= raw_data@.skip(end as int));
                let more = prefixes_from_wire(raw_data@.skip(end as int));
                if let Ok(m) = more {
                    assert(result@ + (seq![prefix] + m) =~= result@.push(prefix) + m);
                }
            }
            result.push(prefix);
            i = end;
        }
        proof {
            assert(raw_data@.skip(i as int) =~= Seq::<u8>::empty());
            assert(result@ + Seq::<IpPrefix>::empty() =~= result@);
        }
        Ok(result)
    }

    /// The bytes of the message, where it can be written: `None` where an
    /// attribute cannot be written or the whole does not fit the 16-bit
    /// length of the header.
    pub fn checked_decode(&self) -> (bytes: Option<Vec<u8>>)
        ensures
            bytes is Some == self@.fits(),
            bytes matches Some(b) ==> b@ == self@.wire(),
    {
        let withdrawn: Vec<u8> = write_prefixes(&self.withdrawn_routes);
        let attributes: Vec<u8> = match write_attributes(&self.path_attributes) {
            Some(a) => a,
            None => {
                return None;
            },
        };
        let announced: Vec<u8> = write_prefixes(&self.network_layer_reachability_information);
        if withdrawn.len() > 0xffff || attributes.len() > 0xffff || announced.len() > 0xffff {
            return None;
        }
        let total: usize = 23 + withdrawn.len() + attributes.len() + announced.len();
        if total > 0xffff {
            return None;
        }
        let header = BgpMessageHeader::new(total as u16, BgpMessageType::Update);
        let mut bytes: Vec<u8> = header.decode_to_u8();
        push_be16(&mut bytes, withdrawn.len() as u16);
        push_all(&mut bytes, &withdrawn);
        push_be16(&mut bytes, attributes.len() as u16);
        push_all(&mut bytes, &attributes);
        push_all(&mut bytes, &announced);
        Some(bytes)
    }

    /// The bytes of the message.
    pub fn decode(&self) -> (bytes: Vec<u8>)
        requires
            self@.fits(),
        ensures
            bytes@ == self@.wire(),
    {
        match self.checked_decode() {
            Some(bytes) => bytes,
            None => Vec::new(),
        }
    }

    /// Reads an UPDATE from the bytes of one message.
    pub fn encode(raw_data: &Vec<u8>) -> (message: Result<Self, BgpError>)
        ensures
            view_of(message) == update_from_wire(raw_data@),
    {
        let header = match BgpMessageHeader::encode_from_u8(raw_data) {
            Ok(h) => h,
            Err(e) => {
                return Err(e);
            },
        };
        match header.type_ {
            BgpMessageType::Update => {},
            _ => {
                return Err(BgpError::BadMessageType);
            },
        }
        if header.length < MIN_UPDATE_LENGTH {
            return Err(BgpError::BadMessageLength);
        }
        let end: usize = header.length as usize;
        let withdrawn_routes_length: usize = read_be16(raw_data, 19) as usize;
        if 23 + withdrawn_routes_length > end {
            return Err(BgpError::MalformedAttributeList);
        }
        let end_of_withdrawn_routes: usize = 21 + withdrawn_routes_length;
        let total_path_attribute_length: usize = read_be16(
            raw_data,
            end_of_withdrawn_routes,
        ) as usize;
        let start_of_path_attributes: usize = end_of_withdrawn_routes + 2;
        if start_of_path_attributes + total_path_attribute_length > end {
            return Err(BgpError::MalformedAttributeList);
        }
        let end_of_path_attributes: usize = start_of_path_attributes
            + total_path_attribute_length;
        let withdrawn_routes = match Self::encode_routes(
            &copy_range(raw_data, 21, end_of_withdrawn_routes),
        ) {
            Ok(w) => w,
            Err(e) => {
                return Err(e);
            },
        };
        let path_attributes = match Self::encode_path_attributes(
            &copy_range(raw_data, start_of_path_attributes, end_of_path_attributes),
        ) {
            Ok(p) => p,
            Err(e) => {
                return Err(e);
            },
        };
        let network_layer_reachability_information = match Self::encode_routes(
            &copy_range(raw_data, end_of_path_attributes, end),
        ) {
            Ok(n) => n,
            Err(e) => {
                return Err(e);
            },
        };
        Ok(
            BgpUpdateMessage {
                withdrawn_routes,
                path_attributes,
                network_layer_reachability_information,
            },
        )
    }
}

} // verus!
