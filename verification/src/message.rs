//! Whole messages: the receive buffer that frames a byte stream into
//! messages, the decoder that tells the four kinds apart, and the handler
//! that turns a received message into an event of the session.

use crate::bgp::{
    keepalive_from_wire, keepalive_wire, lemma_keepalive_round_trip, lemma_notification_round_trip,
    lemma_open_round_trip, message_type_of, notification_from_wire, open_from_wire, BGPVersion,
    BgpKeepaliveMessage, BgpMessageType, BgpNotificationMessage, BgpOpenMessage, NotificationModel,
    identify_what_kind_of_bgp_packet_is,
};
use crate::error::{BgpError, BgpErrorCode};
use crate::finite_state_machine::{Event, EventQueue, Queue};
use crate::update::{lemma_update_round_trip, update_from_wire, BgpUpdateMessage, UpdateModel};
use crate::wire::{be16_at, push_all, read_be16, view_of};
use vstd::prelude::*;

verus! {

/// A message of any of the four kinds.
#[derive(Debug, PartialEq, Eq)]
pub enum BgpMessage {
    Open(BgpOpenMessage),
    Update(BgpUpdateMessage),
    Notification(BgpNotificationMessage),
    Keepalive(BgpKeepaliveMessage),
}

/// What a message holds.
pub enum MessageModel {
    Open(BgpOpenMessage),
    Update(UpdateModel),
    Notification(NotificationModel),
    Keepalive(BgpKeepaliveMessage),
}

impl View for BgpMessage {
    type V = MessageModel;

    open spec fn view(&self) -> MessageModel {
        match self {
            BgpMessage::Open(message) => MessageModel::Open(*message),
            BgpMessage::Update(message) => MessageModel::Update(message@),
            BgpMessage::Notification(message) => MessageModel::Notification(message@),
            BgpMessage::Keepalive(message) => MessageModel::Keepalive(*message),
        }
    }
}

/// The queue of received messages that wait for the session to take them.
pub type PacketQueue = Queue<BgpMessage>;

/// What a list of messages holds.
pub open spec fn message_models(messages: Seq<BgpMessage>) -> Seq<MessageModel> {
    Seq::new(messages.len(), |i: int| messages[i]@)
}

impl MessageModel {
    /// The bytes of the message.
    pub open spec fn wire(self) -> Seq<u8> {
        match self {
            MessageModel::Open(message) => message.wire(),
            MessageModel::Update(message) => message.wire(),
            MessageModel::Notification(message) => message.wire(),
            MessageModel::Keepalive(_) => keepalive_wire(),
        }
    }

    /// Whether reading the written message gives it back: an OPEN of
    /// version 4, an UPDATE or a NOTIFICATION that fits the wire and keeps
    /// what it holds, any KEEPALIVE.
    pub open spec fn round_trips(self) -> bool {
        match self {
            MessageModel::Open(message) => message.version == BGPVersion::V4,
            MessageModel::Update(message) => message.round_trips(),
            MessageModel::Notification(message) => message.fits(),
            MessageModel::Keepalive(_) => true,
        }
    }
}

/// The message that a buffer holds: the type octet says which kind is read.
pub open spec fn message_from_wire(bytes: Seq<u8>) -> Result<MessageModel, BgpError> {
    match message_type_of(bytes) {
        Err(e) => Err(e),
        Ok(BgpMessageType::Open) => match open_from_wire(bytes) {
            Ok(message) => Ok(MessageModel::Open(message)),
            Err(e) => Err(e),
        },
        Ok(BgpMessageType::Update) => match update_from_wire(bytes) {
            Ok(message) => Ok(MessageModel::Update(message)),
            Err(e) => Err(e),
        },
        Ok(BgpMessageType::Notification) => match notification_from_wire(bytes) {
            Ok(message) => Ok(MessageModel::Notification(message)),
            Err(e) => Err(e),
        },
        Ok(BgpMessageType::Keepalive) => match keepalive_from_wire(bytes) {
            Ok(message) => Ok(MessageModel::Keepalive(message)),
            Err(e) => Err(e),
        },
    }
}

/// Reading the bytes of a message gives the message back: for every OPEN
/// of version 4, every KEEPALIVE, and every UPDATE and NOTIFICATION that
/// fits the wire and holds only what is written.
pub proof fn lemma_message_round_trip(message: MessageModel)
    requires
        message.round_trips(),
    ensures
        message_from_wire(message.wire()) == Ok::<MessageModel, BgpError>(message),
{
    match message {
        MessageModel::Open(open) => {
            lemma_open_round_trip(open);
            assert(open_from_wire(open.wire()) is Ok);
        },
        MessageModel::Update(update) => {
            lemma_update_round_trip(update);
            assert(update_from_wire(update.wire()) is Ok);
        },
        MessageModel::Notification(notification) => {
            lemma_notification_round_trip(notification);
            assert(notification_from_wire(notification.wire()) is Ok);
        },
        MessageModel::Keepalive(keepalive) => {
            lemma_keepalive_round_trip();
            assert(keepalive_from_wire(keepalive_wire()) is Ok);
        },
    }
}

/// A buffer of at least 19 octets whose type octet is none of 1, 2, 3, 4 is
/// refused as `BadMessageType`, whatever else it holds.
pub proof fn lemma_unknown_type_is_refused(bytes: Seq<u8>)
    requires
        bytes.len() >= 19,
        !(1 <= bytes[18] <= 4),
    ensures
        message_from_wire(bytes) == Err::<MessageModel, BgpError>(BgpError::BadMessageType),
{
}

/// An OPEN that is right in all but its optional parameter length is
/// refused as `UnsupportedOptionalParameter` for every length but 0.
pub proof fn lemma_optional_parameters_are_refused(message: BgpOpenMessage, length: u8)
    requires
        message.version == BGPVersion::V4,
    ensures
        length != 0 ==> open_from_wire(message.wire().update(28, length)) == Err::<
            BgpOpenMessage,
            BgpError,
        >(BgpError::UnsupportedOptionalParameter),
        length == 0 ==> open_from_wire(message.wire().update(28, length)) == Ok::<
            BgpOpenMessage,
            BgpError,
        >(message),
{
    lemma_open_round_trip(message);
    let bytes = message.wire();
    let changed = bytes.update(28, length);
    if length == 0 {
        assert(changed =~= bytes);
    } else {
        assert(crate::bgp::marker_ok(bytes));
        assert(crate::bgp::marker_ok(changed)) by {
            assert forall|i: int| 0 <= i < 16 implies changed[i] == 0xff by {
                assert(changed[i] == bytes[i]);
            }
        }
        assert(changed[16] == bytes[16] && changed[17] == bytes[17] && changed[18] == bytes[18]
            && changed[19] == bytes[19]);
    }
}

impl BgpMessage {
    /// Reads a message of any kind from the bytes of one message.
    pub fn encode(raw_data: &Vec<u8>) -> (message: Result<Self, BgpError>)
        ensures
            view_of(message) == message_from_wire(raw_data@),
            raw_data.len() >= 19 && !(1 <= raw_data[18] <= 4) ==> message matches Err(
                BgpError::BadMessageType,
            ),
    {
        match identify_what_kind_of_bgp_packet_is(raw_data) {
            Err(e) => Err(e),
            Ok(BgpMessageType::Open) => match BgpOpenMessage::encode(raw_data) {
                Ok(message) => Ok(BgpMessage::Open(message)),
                Err(e) => Err(e),
            },
            Ok(BgpMessageType::Update) => match BgpUpdateMessage::encode(raw_data) {
                Ok(message) => Ok(BgpMessage::Update(message)),
                Err(e) => Err(e),
            },
            Ok(BgpMessageType::Notification) => match BgpNotificationMessage::encode(raw_data) {
                Ok(message) => Ok(BgpMessage::Notification(message)),
                Err(e) => Err(e),
            },
            Ok(BgpMessageType::Keepalive) => match BgpKeepaliveMessage::encode_from_u8(raw_data) {
                Ok(message) => Ok(BgpMessage::Keepalive(message)),
                Err(e) => Err(e),
            },
        }
    }
}

/// The event that a received message raises. A message that is read raises
/// the event of its kind; a NOTIFICATION of an unsupported version (code 2,
/// subcode 1) has an event of its own. A message that is refused raises the
/// error event of the group of its error: header, OPEN or UPDATE.
pub open spec fn event_of(read: Result<MessageModel, BgpError>) -> Event {
    match read {
        Ok(MessageModel::Open(open)) => Event::BgpOpen(open),
        Ok(MessageModel::Update(_)) => Event::UpdateMsg,
        Ok(MessageModel::Keepalive(_)) => Event::KeepAliveMsg,
        Ok(MessageModel::Notification(notification)) => if notification.error_code == 2
            && notification.error_subcode == 1 {
            Event::NotifMsgVerErr
        } else {
            Event::NotifMsg
        },
        Err(e) => error_event(e),
    }
}

/// The error event that reports `error`.
pub open spec fn error_event(error: BgpError) -> Event {
    match error.notification_code() {
        BgpErrorCode::MessageHeaderError(_) => Event::BgpHeaderErr(error),
        BgpErrorCode::OpenMessageError(_) => Event::BgpOpenMsgErr(error),
        _ => Event::UpdateMsgErr(error),
    }
}

/// The messages that wait after a message was received: an UPDATE that was
/// read joins them, nothing else does.
pub open spec fn packets_after(
    packets: Seq<MessageModel>,
    read: Result<MessageModel, BgpError>,
) -> Seq<MessageModel> {
    match read {
        Ok(MessageModel::Update(update)) => packets.push(MessageModel::Update(update)),
        _ => packets,
    }
}

/// The error event that reports `error`.
pub fn error_event_of(error: BgpError) -> (event: Event)
    ensures
        event == error_event(error),
{
    match error.notification() {
        BgpErrorCode::MessageHeaderError(_) => Event::BgpHeaderErr(error),
        BgpErrorCode::OpenMessageError(_) => Event::BgpOpenMsgErr(error),
        _ => Event::UpdateMsgErr(error),
    }
}

/// Takes the bytes of one received message: reads it, puts the event that
/// it raises at the end of `event_queue`, and puts an UPDATE that was read
/// at the end of `packet_queue`.
pub fn bgp_packet_handler(
    raw_data: &Vec<u8>,
    event_queue: &mut EventQueue,
    packet_queue: &mut PacketQueue,
)
    ensures
        final(event_queue)@ == old(event_queue)@.push(event_of(message_from_wire(raw_data@))),
        message_models(final(packet_queue)@) == packets_after(
            message_models(old(packet_queue)@),
            message_from_wire(raw_data@),
        ),
{
    match BgpMessage::encode(raw_data) {
        Ok(BgpMessage::Open(open)) => {
            event_queue.push(Event::BgpOpen(open));
        },
        Ok(BgpMessage::Update(update)) => {
            let message = BgpMessage::Update(update);
            proof {
                assert(message_models(packet_queue@.push(message)) =~= message_models(
                    packet_queue@,
                ).push(message@));
            }
            packet_queue.push(message);
            event_queue.push(Event::UpdateMsg);
        },
        Ok(BgpMessage::Notification(notification)) => {
            if notification.error_code == 2 && notification.error_subcode == 1 {
                event_queue.push(Event::NotifMsgVerErr);
            } else {
                event_queue.push(Event::NotifMsg);
            }
        },
        Ok(BgpMessage::Keepalive(_)) => {
            event_queue.push(Event::KeepAliveMsg);
        },
        Err(e) => {
            event_queue.push(error_event_of(e));
        },
    }
}

/// Where the first message of a buffer ends. `ShortBuffer` where the buffer
/// holds fewer octets than the header, or than the header declares;
/// `BadMessageLength` where the header declares fewer than 19.
pub open spec fn framed(buffer: Seq<u8>) -> Result<nat, BgpError> {
    if buffer.len() < 19 {
        Err(BgpError::ShortBuffer)
    } else if be16_at(buffer, 16) < 19 {
        Err(BgpError::BadMessageLength)
    } else if buffer.len() < be16_at(buffer, 16) {
        Err(BgpError::ShortBuffer)
    } else {
        Ok(be16_at(buffer, 16) as nat)
    }
}

/// The bytes that have come from a peer and are not yet taken as messages.
/// The buffer does not read what the messages hold.
#[derive(Debug)]
pub struct ReceiveBuffer {
    pub buf: Vec<u8>,
}

impl View for ReceiveBuffer {
    type V = Seq<u8>;

    open spec fn view(&self) -> Seq<u8> {
        self.buf@
    }
}

impl ReceiveBuffer {
    /// An empty buffer.
    pub fn new() -> (buffer: Self)
        ensures
            buffer@ == Seq::<u8>::empty(),
    {
        ReceiveBuffer { buf: Vec::new() }
    }

    /// Puts bytes that have come at the end of the buffer.
    pub fn append(&mut self, bytes: &Vec<u8>)
        ensures
            final(self)@ == old(self)@ + bytes@,
    {
        push_all(&mut self.buf, bytes);
    }

    /// Drops what the buffer holds.
    pub fn clear(&mut self)
        ensures
            final(self)@ == Seq::<u8>::empty(),
    {
        self.buf.clear();
    }

    /// Takes the first whole message from the buffer: exactly as many bytes
    /// as its header declares. Where the buffer does not yet hold them, or
    /// the declared length is under 19, the error says so and the buffer
    /// stays as it is.
    pub fn retrieve_one_bgp_message(&mut self) -> (message: Result<Vec<u8>, BgpError>)
        ensures
            match framed(old(self)@) {
                Ok(length) => {
                    &&& message matches Ok(bytes)
                    &&& bytes@ == old(self)@.take(length as int)
                    &&& final(self)@ == old(self)@.skip(length as int)
                },
                Err(e) => message == Err::<Vec<u8>, BgpError>(e) && final(self)@ == old(self)@,
            },
    {
        if self.buf.len() < 19 {
            return Err(BgpError::ShortBuffer);
        }
        let length: usize = read_be16(&self.buf, 16) as usize;
        if length < 19 {
            return Err(BgpError::BadMessageLength);
        }
        if self.buf.len() < length {
            return Err(BgpError::ShortBuffer);
        }
        let mut rest: Vec<u8> = self.buf.split_off(length);
        std::mem::swap(&mut self.buf, &mut rest);
        Ok(rest)
    }
}

} // verus!
