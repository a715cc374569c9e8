//! The BGP messages and their wire form: the common header, OPEN, KEEPALIVE
//! and NOTIFICATION. UPDATE and the path attributes have modules of their own.
//!
//! Naming follows the session code that uses these types: a method called
//! `decode` or `decode_to_u8` writes a message out as bytes, and one called
//! `encode` or `encode_from_u8` reads a message from bytes.

use crate::error::{BgpError, BgpErrorCode};
use crate::routing::Ipv4Addr;
use crate::wire::{
    be16, be16_at, copy_range, marker, push_all, push_be16, push_marker, read_be16, view_of,
};
use vstd::prelude::*;

verus! {

/// The length of the header, and so of the shortest message.
pub const HEADER_LENGTH: u16 = 19;

/// The length of an OPEN without optional parameters.
pub const OPEN_LENGTH: u16 = 29;

/// The hold time, in seconds, that an OPEN of this speaker offers.
pub const DEFAULT_HOLD_TIME: u16 = 240;

/// The protocol version of an OPEN.
#[derive(Clone, Copy, Debug, PartialEq, Eq, Structural)]
pub enum BGPVersion {
    V1,
    V2,
    V3,
    V4,
}

impl BGPVersion {
    /// The version octet.
    pub open spec fn number(self) -> u8 {
        match self {
            BGPVersion::V1 => 1,
            BGPVersion::V2 => 2,
            BGPVersion::V3 => 3,
            BGPVersion::V4 => 4,
        }
    }

    /// The version that an octet names, if it names one.
    pub open spec fn from_number(v: u8) -> Result<BGPVersion, BgpError> {
        if v == 1 {
            Ok(BGPVersion::V1)
        } else if v == 2 {
            Ok(BGPVersion::V2)
        } else if v == 3 {
            Ok(BGPVersion::V3)
        } else if v == 4 {
            Ok(BGPVersion::V4)
        } else {
            Err(BgpError::UnsupportedVersion)
        }
    }

    /// The version octet.
    pub fn decode_to_u8(&self) -> (v: u8)
        ensures
            v == self.number(),
    {
        match self {
            BGPVersion::V1 => 1,
            BGPVersion::V2 => 2,
            BGPVersion::V3 => 3,
            BGPVersion::V4 => 4,
        }
    }

    /// The version that the octet `v` names; `UnsupportedVersion` for an octet
    /// outside 1 to 4.
    pub fn encode_from_u8(v: u8) -> (version: Result<Self, BgpError>)
        ensures
            version == Self::from_number(v),
    {
        match v {
            1 => Ok(BGPVersion::V1),
            2 => Ok(BGPVersion::V2),
            3 => Ok(BGPVersion::V3),
            4 => Ok(BGPVersion::V4),
            _ => Err(BgpError::UnsupportedVersion),
        }
    }
}

/// The four kinds of message.
#[derive(Clone, Copy, Debug, PartialEq, Eq, Structural)]
pub enum BgpMessageType {
    Open,
    Update,
    Notification,
    Keepalive,
}

impl BgpMessageType {
    /// The type octet.
    pub open spec fn number(self) -> u8 {
        match self {
            BgpMessageType::Open => 1,
            BgpMessageType::Update => 2,
            BgpMessageType::Notification => 3,
            BgpMessageType::Keepalive => 4,
        }
    }
}

/// A two-octet autonomous system number.
#[derive(Clone, Copy, Debug, PartialEq, Eq, Structural)]
pub struct AutonomousSystemNumber(pub u16);

impl AutonomousSystemNumber {
    pub fn new(as_number: u16) -> (number: Self)
        ensures
            number.0 == as_number,
    {
        AutonomousSystemNumber(as_number)
    }
}

/// A hold time in seconds.
#[derive(Clone, Copy, Debug, PartialEq, Eq, Structural)]
pub struct HoldTime(pub u16);

/// The header that starts every message: the total length of the message,
/// header included, and its type. The marker is not kept.
#[derive(Clone, Copy, Debug, PartialEq, Eq, Structural)]
pub struct BgpMessageHeader {
    pub length: u16,
    pub type_: BgpMessageType,
}

/// The kind of message that a buffer starts with, by the type octet at
/// offset 18: `BadMessageLength` where the buffer has no such octet,
/// `BadMessageType` where the octet is none of 1, 2, 3, 4.
pub open spec fn message_type_of(bytes: Seq<u8>) -> Result<BgpMessageType, BgpError> {
    if bytes.len() < 19 {
        Err(BgpError::BadMessageLength)
    } else if bytes[18] == 1 {
        Ok(BgpMessageType::Open)
    } else if bytes[18] == 2 {
        Ok(BgpMessageType::Update)
    } else if bytes[18] == 3 {
        Ok(BgpMessageType::Notification)
    } else if bytes[18] == 4 {
        Ok(BgpMessageType::Keepalive)
    } else {
        Err(BgpError::BadMessageType)
    }
}

/// Whether the first sixteen octets are all ones.
pub open spec fn marker_ok(bytes: Seq<u8>) -> bool {
    forall|i: int| 0 <= i < 16 ==> bytes[i] == 0xff
}

/// The header that a buffer starts with. The checks come in this order: the
/// buffer holds 19 octets, the type is known, the marker is all ones, the
/// declared length is at least 19 and no more than the buffer holds.
pub open spec fn header_from_wire(bytes: Seq<u8>) -> Result<BgpMessageHeader, BgpError> {
    match message_type_of(bytes) {
        Err(e) => Err(e),
        Ok(type_) => {
            if !marker_ok(bytes) {
                Err(BgpError::ConnectionNotSynchronized)
            } else if be16_at(bytes, 16) < 19 || be16_at(bytes, 16) > bytes.len() {
                Err(BgpError::BadMessageLength)
            } else {
                Ok(BgpMessageHeader { length: be16_at(bytes, 16), type_ })
            }
        },
    }
}

impl BgpMessageHeader {
    /// The nineteen octets of the header.
    pub open spec fn wire(self) -> Seq<u8> {
        marker() + be16(self.length) + seq![self.type_.number()]
    }

    /// The nineteen octets of the header.
    pub fn decode_to_u8(&self) -> (bytes: Vec<u8>)
        ensures
            bytes@ == self.wire(),
    {
        let mut bytes: Vec<u8> = Vec::new();
        push_marker(&mut bytes);
        push_be16(&mut bytes, self.length);
        let type_octet: u8 = match self.type_ {
            BgpMessageType::Open => 1,
            BgpMessageType::Update => 2,
            BgpMessageType::Notification => 3,
            BgpMessageType::Keepalive => 4,
        };
        bytes.push(type_octet);
        assert(bytes@ =~= self.wire());
        bytes
    }

    /// Reads the header that `raw_data` starts with.
    pub fn encode_from_u8(raw_data: &Vec<u8>) -> (header: Result<Self, BgpError>)
        ensures
            header == header_from_wire(raw_data@),
    {
        let type_ = match identify_what_kind_of_bgp_packet_is(raw_data) {
            Ok(t) => t,
            Err(e) => {
                return Err(e);
            },
        };
        let mut i: usize = 0;
        while i < 16
            invariant
                i <= 16,
                raw_data.len() >= 19,
                message_type_of(raw_data@) == Ok::<BgpMessageType, BgpError>(type_),
                forall|j: int| 0 <= j < i ==> raw_data@[j] == 0xff,
            decreases 16 - i,
        {
            if raw_data[i] != 0xff {
                assert(!marker_ok(raw_data@));
                return Err(BgpError::ConnectionNotSynchronized);
            }
            i = i + 1;
        }
        let length: u16 = read_be16(raw_data, 16);
        if length < 19 || length as usize > raw_data.len() {
            return Err(BgpError::BadMessageLength);
        }
        Ok(BgpMessageHeader { length, type_ })
    }

    pub fn new(length: u16, type_: BgpMessageType) -> (header: Self)
        ensures
            header == (BgpMessageHeader { length, type_ }),
    {
        BgpMessageHeader { length, type_ }
    }
}

/// Tells the kind of message that `raw_data` starts with.
pub fn identify_what_kind_of_bgp_packet_is(raw_data: &Vec<u8>) -> (kind: Result<
    BgpMessageType,
    BgpError,
>)
    ensures
        kind == message_type_of(raw_data@),
        raw_data.len() >= 19 && !(1 <= raw_data[18] <= 4) ==> kind == Err::<
            BgpMessageType,
            BgpError,
        >(BgpError::BadMessageType),
{
    if raw_data.len() < 19 {
        return Err(BgpError::BadMessageLength);
    }
    match raw_data[18] {
        1 => Ok(BgpMessageType::Open),
        2 => Ok(BgpMessageType::Update),
        3 => Ok(BgpMessageType::Notification),
        4 => Ok(BgpMessageType::Keepalive),
        _ => Err(BgpError::BadMessageType),
    }
}

/// Reading a written header gives the header back, whatever body follows
/// it, as long as the declared length covers the header and no more than the
/// body that is there.
pub proof fn lemma_header_round_trip(header: BgpMessageHeader, body: Seq<u8>)
    requires
        19 <= header.length <= 19 + body.len(),
    ensures
        header_from_wire(header.wire() + body) == Ok::<BgpMessageHeader, BgpError>(header),
        header.wire().len() == 19,
{
    let bytes = header.wire() + body;
    crate::wire::lemma_be16_round_trip(header.length, 0, 0);
    assert(bytes[18] == header.type_.number());
    assert(bytes[16] == be16(header.length)[0]);
    assert(bytes[17] == be16(header.length)[1]);
    assert(marker_ok(bytes)) by {
        assert forall|i: int| 0 <= i < 16 implies bytes[i] == 0xff by {
            assert(bytes[i] == marker()[i]);
        }
    }
}

/// Reading a written OPEN of version 4 gives the message back.
pub proof fn lemma_open_round_trip(message: BgpOpenMessage)
    requires
        message.version == BGPVersion::V4,
    ensures
        open_from_wire(message.wire()) == Ok::<BgpOpenMessage, BgpError>(message),
        message.wire().len() == 29,
{
    let header = BgpMessageHeader { length: 29, type_: BgpMessageType::Open };
    let body = seq![message.version.number()] + be16(message.my_autonomous_system.0) + be16(
        message.hold_time.0,
    ) + message.bgp_identifier.octets_seq() + seq![0u8];
    let bytes = message.wire();
    assert(bytes =~= header.wire() + body);
    lemma_header_round_trip(header, body);
    crate::wire::lemma_be16_round_trip(message.my_autonomous_system.0, 0, 0);
    crate::wire::lemma_be16_round_trip(message.hold_time.0, 0, 0);
    crate::routing::lemma_bits_of_octets(message.bgp_identifier);
    assert(bytes[19] == 4);
    assert(bytes[20] == be16(message.my_autonomous_system.0)[0]);
    assert(bytes[21] == be16(message.my_autonomous_system.0)[1]);
    assert(bytes[22] == be16(message.hold_time.0)[0]);
    assert(bytes[23] == be16(message.hold_time.0)[1]);
    assert(bytes[24] == message.bgp_identifier.octet(0));
    assert(bytes[25] == message.bgp_identifier.octet(1));
    assert(bytes[26] == message.bgp_identifier.octet(2));
    assert(bytes[27] == message.bgp_identifier.octet(3));
    assert(bytes[28] == 0);
}

/// Reading the written KEEPALIVE gives a KEEPALIVE.
pub proof fn lemma_keepalive_round_trip()
    ensures
        keepalive_from_wire(keepalive_wire()) == Ok::<BgpKeepaliveMessage, BgpError>(
            BgpKeepaliveMessage {  },
        ),
        keepalive_wire().len() == 19,
{
    let header = BgpMessageHeader { length: 19, type_: BgpMessageType::Keepalive };
    assert(keepalive_wire() =~= header.wire() + Seq::<u8>::empty());
    lemma_header_round_trip(header, Seq::empty());
}

/// Reading a written NOTIFICATION that fits the wire gives the message back.
pub proof fn lemma_notification_round_trip(message: NotificationModel)
    requires
        message.fits(),
    ensures
        notification_from_wire(message.wire()) == Ok::<NotificationModel, BgpError>(message),
        message.wire().len() == 21 + message.data.len(),
{
    let header = BgpMessageHeader {
        length: (21 + message.data.len()) as u16,
        type_: BgpMessageType::Notification,
    };
    let body = seq![message.error_code, message.error_subcode] + message.data;
    let bytes = message.wire();
    assert(bytes =~= header.wire() + body);
    lemma_header_round_trip(header, body);
    assert(bytes[19] == message.error_code);
    assert(bytes[20] == message.error_subcode);
    assert(bytes.subrange(21, header.length as int) =~= message.data);
}

/// An OPEN message. This speaker sends and accepts version 4 without
/// optional parameters, so the decoded form holds neither a length nor
/// parameters.
#[derive(Clone, Copy, Debug, PartialEq, Eq, Structural)]
pub struct BgpOpenMessage {
    pub version: BGPVersion,
    pub my_autonomous_system: AutonomousSystemNumber,
    pub hold_time: HoldTime,
    pub bgp_identifier: Ipv4Addr,
}

/// The OPEN that a buffer holds. After the header checks, in this order: the
/// type is OPEN (`BadMessageType`), the declared length is at least 29
/// (`BadMessageLength`), the version is 4 (`UnsupportedVersion`), the
/// optional parameter length is 0 (`UnsupportedOptionalParameter`), and the
/// declared length is exactly 29 (`BadMessageLength`).
pub open spec fn open_from_wire(bytes: Seq<u8>) -> Result<BgpOpenMessage, BgpError> {
    match header_from_wire(bytes) {
        Err(e) => Err(e),
        Ok(header) => {
            if header.type_ != BgpMessageType::Open {
                Err(BgpError::BadMessageType)
            } else if header.length < 29 {
                Err(BgpError::BadMessageLength)
            } else if bytes[19] != 4 {
                Err(BgpError::UnsupportedVersion)
            } else if bytes[28] != 0 {
                Err(BgpError::UnsupportedOptionalParameter)
            } else if header.length != 29 {
                Err(BgpError::BadMessageLength)
            } else {
                Ok(
                    BgpOpenMessage {
                        version: BGPVersion::V4,
                        my_autonomous_system: AutonomousSystemNumber(be16_at(bytes, 20)),
                        hold_time: HoldTime(be16_at(bytes, 22)),
                        bgp_identifier: Ipv4Addr::of(bytes[24], bytes[25], bytes[26], bytes[27]),
                    },
                )
            }
        },
    }
}

impl BgpOpenMessage {
    /// The 29 octets of the message: the header, the version, the AS number,
    /// the hold time, the identifier, and an optional parameter length of 0.
    pub open spec fn wire(self) -> Seq<u8> {
        (BgpMessageHeader { length: 29, type_: BgpMessageType::Open }).wire() + seq![
            self.version.number(),
        ] + be16(self.my_autonomous_system.0) + be16(self.hold_time.0)
            + self.bgp_identifier.octets_seq() + seq![0u8]
    }

    /// The OPEN that this speaker sends: version 4, its AS number, a hold
    /// time of 240 seconds, and its address as identifier.
    pub fn new(my_as_number: AutonomousSystemNumber, my_ip_address: Ipv4Addr) -> (message: Self)
        ensures
            message == (BgpOpenMessage {
                version: BGPVersion::V4,
                my_autonomous_system: my_as_number,
                hold_time: HoldTime(240),
                bgp_identifier: my_ip_address,
            }),
    {
        BgpOpenMessage {
            version: BGPVersion::V4,
            my_autonomous_system: my_as_number,
            hold_time: HoldTime(DEFAULT_HOLD_TIME),
            bgp_identifier: my_ip_address,
        }
    }

    /// Reads an OPEN from the bytes of one message.
    pub fn encode(raw_data: &Vec<u8>) -> (message: Result<Self, BgpError>)
        ensures
            message == open_from_wire(raw_data@),
    {
        let header = match BgpMessageHeader::encode_from_u8(raw_data) {
            Ok(h) => h,
            Err(e) => {
                return Err(e);
            },
        };
        match header.type_ {
            BgpMessageType::Open => {},
            _ => {
                return Err(BgpError::BadMessageType);
            },
        }
        if header.length < OPEN_LENGTH {
            return Err(BgpError::BadMessageLength);
        }
        let version = match BGPVersion::encode_from_u8(raw_data[19]) {
            Ok(BGPVersion::V4) => BGPVersion::V4,
            _ => {
                return Err(BgpError::UnsupportedVersion);
            },
        };
        if raw_data[28] != 0 {
            return Err(BgpError::UnsupportedOptionalParameter);
        }
        if header.length != OPEN_LENGTH {
            return Err(BgpError::BadMessageLength);
        }
        Ok(
            BgpOpenMessage {
                version,
                my_autonomous_system: AutonomousSystemNumber(read_be16(raw_data, 20)),
                hold_time: HoldTime(read_be16(raw_data, 22)),
                bgp_identifier: Ipv4Addr::new(
                    raw_data[24],
                    raw_data[25],
                    raw_data[26],
                    raw_data[27],
                ),
            },
        )
    }

    /// The bytes of the message.
    pub fn decode(&self) -> (bytes: Vec<u8>)
        ensures
            bytes@ == self.wire(),
    {
        let header = BgpMessageHeader::new(OPEN_LENGTH, BgpMessageType::Open);
        let mut bytes: Vec<u8> = header.decode_to_u8();
        bytes.push(self.version.decode_to_u8());
        push_be16(&mut bytes, self.my_autonomous_system.0);
        push_be16(&mut bytes, self.hold_time.0);
        let id: [u8; 4] = self.bgp_identifier.octets();
        bytes.push(id[0]);
        bytes.push(id[1]);
        bytes.push(id[2]);
        bytes.push(id[3]);
        bytes.push(0);
        assert(bytes@ =~= self.wire());
        bytes
    }
}

/// A KEEPALIVE message: a header and nothing else.
#[derive(Clone, Copy, Debug, PartialEq, Eq, Structural)]
pub struct BgpKeepaliveMessage {}

/// The nineteen octets of a KEEPALIVE.
pub open spec fn keepalive_wire() -> Seq<u8> {
    (BgpMessageHeader { length: 19, type_: BgpMessageType::Keepalive }).wire()
}

/// The KEEPALIVE that a buffer holds: after the header checks, the type is
/// KEEPALIVE (`BadMessageType`) and the declared length is 19
/// (`BadMessageLength`).
pub open spec fn keepalive_from_wire(bytes: Seq<u8>) -> Result<BgpKeepaliveMessage, BgpError> {
    match header_from_wire(bytes) {
        Err(e) => Err(e),
        Ok(header) => {
            if header.type_ != BgpMessageType::Keepalive {
                Err(BgpError::BadMessageType)
            } else if header.length != 19 {
                Err(BgpError::BadMessageLength)
            } else {
                Ok(BgpKeepaliveMessage {  })
            }
        },
    }
}

impl BgpKeepaliveMessage {
    pub fn new() -> (message: Self)
        ensures
            message == (BgpKeepaliveMessage {  }),
    {
        BgpKeepaliveMessage {  }
    }

    /// The bytes of the message.
    pub fn decode_to_u8(&self) -> (bytes: Vec<u8>)
        ensures
            bytes@ == keepalive_wire(),
    {
        BgpMessageHeader::new(HEADER_LENGTH, BgpMessageType::Keepalive).decode_to_u8()
    }

    /// Reads a KEEPALIVE from the bytes of one message.
    pub fn encode_from_u8(raw_data: &Vec<u8>) -> (message: Result<Self, BgpError>)
        ensures
            message == keepalive_from_wire(raw_data@),
    {
        let header = match BgpMessageHeader::encode_from_u8(raw_data) {
            Ok(h) => h,
            Err(e) => {
                return Err(e);
            },
        };
        match header.type_ {
            BgpMessageType::Keepalive => {},
            _ => {
                return Err(BgpError::BadMessageType);
            },
        }
        if header.length != HEADER_LENGTH {
            return Err(BgpError::BadMessageLength);
        }
        Ok(BgpKeepaliveMessage {  })
    }
}

/// A NOTIFICATION message: the error code and subcode as they stand on the
/// wire, and the data that follows them.
#[derive(Debug, PartialEq, Eq)]
pub struct BgpNotificationMessage {
    pub error_code: u8,
    pub error_subcode: u8,
    pub data: Vec<u8>,
}

/// What a NOTIFICATION holds.
pub struct NotificationModel {
    pub error_code: u8,
    pub error_subcode: u8,
    pub data: Seq<u8>,
}

impl View for BgpNotificationMessage {
    type V = NotificationModel;

    open spec fn view(&self) -> NotificationModel {
        NotificationModel {
            error_code: self.error_code,
            error_subcode: self.error_subcode,
            data: self.data@,
        }
    }
}

impl NotificationModel {
    /// The NOTIFICATION without data that reports `code`.
    pub open spec fn of(code: BgpErrorCode) -> NotificationModel {
        NotificationModel {
            error_code: code.code_number(),
            error_subcode: code.subcode_number(),
            data: Seq::empty(),
        }
    }

    /// Whether the message fits the 16-bit length of the header.
    pub open spec fn fits(self) -> bool {
        21 + self.data.len() <= 0xffff
    }

    /// The bytes of the message: the header, the code, the subcode, the data.
    pub open spec fn wire(self) -> Seq<u8> {
        (BgpMessageHeader {
            length: (21 + self.data.len()) as u16,
            type_: BgpMessageType::Notification,
        }).wire() + seq![self.error_code, self.error_subcode] + self.data
    }
}

/// The NOTIFICATION that a buffer holds: after the header checks, the type
/// is NOTIFICATION (`BadMessageType`) and the declared length is at least
/// 21 (`BadMessageLength`). Code and subcode are taken as they are.
pub open spec fn notification_from_wire(bytes: Seq<u8>) -> Result<NotificationModel, BgpError> {
    match header_from_wire(bytes) {
        Err(e) => Err(e),
        Ok(header) => {
            if header.type_ != BgpMessageType::Notification {
                Err(BgpError::BadMessageType)
            } else if header.length < 21 {
                Err(BgpError::BadMessageLength)
            } else {
                Ok(
                    NotificationModel {
                        error_code: bytes[19],
                        error_subcode: bytes[20],
                        data: bytes.subrange(21, header.length as int),
                    },
                )
            }
        },
    }
}

impl BgpNotificationMessage {
    /// The NOTIFICATION without data that reports `code`.
    pub fn new(code: BgpErrorCode) -> (message: Self)
        ensures
            message@ == NotificationModel::of(code),
    {
        BgpNotificationMessage {
            error_code: code.code(),
            error_subcode: code.subcode(),
            data: Vec::new(),
        }
    }

    /// The bytes of the message.
    pub fn decode(&self) -> (bytes: Vec<u8>)
        requires
            self@.fits(),
        ensures
            bytes@ == self@.wire(),
    {
        let length: u16 = (21 + self.data.len()) as u16;
        let mut bytes: Vec<u8> = BgpMessageHeader::new(
            length,
            BgpMessageType::Notification,
        ).decode_to_u8();
        bytes.push(self.error_code);
        bytes.push(self.error_subcode);
        push_all(&mut bytes, &self.data);
        assert(bytes@ =~= self@.wire());
        bytes
    }

    /// Reads a NOTIFICATION from the bytes of one message.
    pub fn encode(raw_data: &Vec<u8>) -> (message: Result<Self, BgpError>)
        ensures
            view_of(message) == notification_from_wire(raw_data@),
    {
        let header = match BgpMessageHeader::encode_from_u8(raw_data) {
            Ok(h) => h,
            Err(e) => {
                return Err(e);
            },
        };
        match header.type_ {
            BgpMessageType::Notification => {},
            _ => {
                return Err(BgpError::BadMessageType);
            },
        }
        if header.length < 21 {
            return Err(BgpError::BadMessageLength);
        }
        Ok(
            BgpNotificationMessage {
                error_code: raw_data[19],
                error_subcode: raw_data[20],
                data: copy_range(raw_data, 21, header.length as usize),
            },
        )
    }
}

} // verus!
