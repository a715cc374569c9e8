//! The ways in which a received message can be wrong, and the NOTIFICATION
//! codes that report them to the peer.

use vstd::prelude::*;

verus! {

/// Why a received byte string was not accepted.
#[derive(Clone, Copy, Debug, PartialEq, Eq, Structural)]
pub enum BgpError {
    /// Fewer bytes are at hand than the header declares: more must arrive.
    ShortBuffer,
    /// The marker is not sixteen octets of all ones.
    ConnectionNotSynchronized,
    /// The declared length is under 19, over the buffer, or wrong for the type.
    BadMessageLength,
    /// The type octet is none of 1, 2, 3, 4.
    BadMessageType,
    /// An OPEN whose version is not 4.
    UnsupportedVersion,
    /// An OPEN that carries optional parameters.
    UnsupportedOptionalParameter,
    /// A length inside an UPDATE runs over the bytes that hold it.
    MalformedAttributeList,
    /// An attribute whose value has the wrong length for its type.
    AttributeLengthError,
    /// An ORIGIN whose value is none of 0, 1, 2.
    InvalidOriginAttribute,
    /// A NEXT_HOP whose value is not four octets.
    InvalidNextHopAttribute,
    /// A prefix longer than 32 bits, or cut short.
    InvalidNetworkField,
    /// An AS_PATH that is not one whole segment.
    MalformedAsPath,
}

/// The subcodes of a message header error.
#[derive(Clone, Copy, Debug, PartialEq, Eq, Structural)]
pub enum MessageHeaderErrorSubcode {
    ConnectionNotSynchronized,
    BadMessageLength,
    BadMessageType,
}

/// The subcodes of an OPEN message error.
#[derive(Clone, Copy, Debug, PartialEq, Eq, Structural)]
pub enum OpenMessageErrorSubCode {
    UnsupportedVersionNumber,
    BadPeerAs,
    BadBgpIdentifier,
    UnsupportedOptionalParameter,
    UnacceptableHoldTime,
}

/// The subcodes of an UPDATE message error.
#[derive(Clone, Copy, Debug, PartialEq, Eq, Structural)]
pub enum UpdateMessageErrorSubcode {
    MalformedAttributeList,
    UnrecognizedWellKnownAttribute,
    MissingWellKnownAttribute,
    AttributeFlagsError,
    AttributeLengthError,
    InvalidOriginAttribute,
    InvalidNextHopAttribute,
    OptionalAttributeError,
    InvalidNetworkField,
    MalformedAsPath,
}

/// What a NOTIFICATION reports: an error code and, for the first three, a subcode.
#[derive(Clone, Copy, Debug, PartialEq, Eq, Structural)]
pub enum BgpErrorCode {
    MessageHeaderError(MessageHeaderErrorSubcode),
    OpenMessageError(OpenMessageErrorSubCode),
    UpdateMessageError(UpdateMessageErrorSubcode),
    HoldTimerExpired,
    FiniteStateMachineError,
    Cease,
}

impl MessageHeaderErrorSubcode {
    pub open spec fn number(self) -> u8 {
        match self {
            MessageHeaderErrorSubcode::ConnectionNotSynchronized => 1,
            MessageHeaderErrorSubcode::BadMessageLength => 2,
            MessageHeaderErrorSubcode::BadMessageType => 3,
        }
    }
}

impl OpenMessageErrorSubCode {
    pub open spec fn number(self) -> u8 {
        match self {
            OpenMessageErrorSubCode::UnsupportedVersionNumber => 1,
            OpenMessageErrorSubCode::BadPeerAs => 2,
            OpenMessageErrorSubCode::BadBgpIdentifier => 3,
            OpenMessageErrorSubCode::UnsupportedOptionalParameter => 4,
            OpenMessageErrorSubCode::UnacceptableHoldTime => 6,
        }
    }
}

impl UpdateMessageErrorSubcode {
    pub open spec fn number(self) -> u8 {
        match self {
            UpdateMessageErrorSubcode::MalformedAttributeList => 1,
            UpdateMessageErrorSubcode::UnrecognizedWellKnownAttribute => 2,
            UpdateMessageErrorSubcode::MissingWellKnownAttribute => 3,
            UpdateMessageErrorSubcode::AttributeFlagsError => 4,
            UpdateMessageErrorSubcode::AttributeLengthError => 5,
            UpdateMessageErrorSubcode::InvalidOriginAttribute => 6,
            UpdateMessageErrorSubcode::InvalidNextHopAttribute => 8,
            UpdateMessageErrorSubcode::OptionalAttributeError => 9,
            UpdateMessageErrorSubcode::InvalidNetworkField => 10,
            UpdateMessageErrorSubcode::MalformedAsPath => 11,
        }
    }
}

impl BgpErrorCode {
    /// The error code octet of a NOTIFICATION.
    pub open spec fn code_number(self) -> u8 {
        match self {
            BgpErrorCode::MessageHeaderError(_) => 1,
            BgpErrorCode::OpenMessageError(_) => 2,
            BgpErrorCode::UpdateMessageError(_) => 3,
            BgpErrorCode::HoldTimerExpired => 4,
            BgpErrorCode::FiniteStateMachineError => 5,
            BgpErrorCode::Cease => 6,
        }
    }

    /// The subcode octet of a NOTIFICATION; 0 where the code has no subcodes.
    pub open spec fn subcode_number(self) -> u8 {
        match self {
            BgpErrorCode::MessageHeaderError(s) => s.number(),
            BgpErrorCode::OpenMessageError(s) => s.number(),
            BgpErrorCode::UpdateMessageError(s) => s.number(),
            _ => 0,
        }
    }

    /// The error code octet.
    pub fn code(&self) -> (n: u8)
        ensures
            n == self.code_number(),
    {
        match self {
            BgpErrorCode::MessageHeaderError(_) => 1,
            BgpErrorCode::OpenMessageError(_) => 2,
            BgpErrorCode::UpdateMessageError(_) => 3,
            BgpErrorCode::HoldTimerExpired => 4,
            BgpErrorCode::FiniteStateMachineError => 5,
            BgpErrorCode::Cease => 6,
        }
    }

    /// The subcode octet.
    pub fn subcode(&self) -> (n: u8)
        ensures
            n == self.subcode_number(),
    {
        match self {
            BgpErrorCode::MessageHeaderError(s) => match s {
                MessageHeaderErrorSubcode::ConnectionNotSynchronized => 1,
                MessageHeaderErrorSubcode::BadMessageLength => 2,
                MessageHeaderErrorSubcode::BadMessageType => 3,
            },
            BgpErrorCode::OpenMessageError(s) => match s {
                OpenMessageErrorSubCode::UnsupportedVersionNumber => 1,
                OpenMessageErrorSubCode::BadPeerAs => 2,
                OpenMessageErrorSubCode::BadBgpIdentifier => 3,
                OpenMessageErrorSubCode::UnsupportedOptionalParameter => 4,
                OpenMessageErrorSubCode::UnacceptableHoldTime => 6,
            },
            BgpErrorCode::UpdateMessageError(s) => match s {
                UpdateMessageErrorSubcode::MalformedAttributeList => 1,
                UpdateMessageErrorSubcode::UnrecognizedWellKnownAttribute => 2,
                UpdateMessageErrorSubcode::MissingWellKnownAttribute => 3,
                UpdateMessageErrorSubcode::AttributeFlagsError => 4,
                UpdateMessageErrorSubcode::AttributeLengthError => 5,
                UpdateMessageErrorSubcode::InvalidOriginAttribute => 6,
                UpdateMessageErrorSubcode::InvalidNextHopAttribute => 8,
                UpdateMessageErrorSubcode::OptionalAttributeError => 9,
                UpdateMessageErrorSubcode::InvalidNetworkField => 10,
                UpdateMessageErrorSubcode::MalformedAsPath => 11,
            },
            _ => 0,
        }
    }
}

impl BgpError {
    /// The NOTIFICATION that reports this error: a total map from each error
    /// to its code and subcode. A buffer that ends early is a length error.
    pub open spec fn notification_code(self) -> BgpErrorCode {
        match self {
            BgpError::ShortBuffer => BgpErrorCode::MessageHeaderError(
                MessageHeaderErrorSubcode::BadMessageLength,
            ),
            BgpError::ConnectionNotSynchronized => BgpErrorCode::MessageHeaderError(
                MessageHeaderErrorSubcode::ConnectionNotSynchronized,
            ),
            BgpError::BadMessageLength => BgpErrorCode::MessageHeaderError(
                MessageHeaderErrorSubcode::BadMessageLength,
            ),
            BgpError::BadMessageType => BgpErrorCode::MessageHeaderError(
                MessageHeaderErrorSubcode::BadMessageType,
            ),
            BgpError::UnsupportedVersion => BgpErrorCode::OpenMessageError(
                OpenMessageErrorSubCode::UnsupportedVersionNumber,
            ),
            BgpError::UnsupportedOptionalParameter => BgpErrorCode::OpenMessageError(
                OpenMessageErrorSubCode::UnsupportedOptionalParameter,
            ),
            BgpError::MalformedAttributeList => BgpErrorCode::UpdateMessageError(
                UpdateMessageErrorSubcode::MalformedAttributeList,
            ),
            BgpError::AttributeLengthError => BgpErrorCode::UpdateMessageError(
                UpdateMessageErrorSubcode::AttributeLengthError,
            ),
            BgpError::InvalidOriginAttribute => BgpErrorCode::UpdateMessageError(
                UpdateMessageErrorSubcode::InvalidOriginAttribute,
            ),
            BgpError::InvalidNextHopAttribute => BgpErrorCode::UpdateMessageError(
                UpdateMessageErrorSubcode::InvalidNextHopAttribute,
            ),
            BgpError::InvalidNetworkField => BgpErrorCode::UpdateMessageError(
                UpdateMessageErrorSubcode::InvalidNetworkField,
            ),
            BgpError::MalformedAsPath => BgpErrorCode::UpdateMessageError(
                UpdateMessageErrorSubcode::MalformedAsPath,
            ),
        }
    }

    /// The NOTIFICATION code and subcode that report this error.
    pub fn notification(&self) -> (code: BgpErrorCode)
        ensures
            code == self.notification_code(),
    {
        match self {
            BgpError::ShortBuffer => BgpErrorCode::MessageHeaderError(
                MessageHeaderErrorSubcode::BadMessageLength,
            ),
            BgpError::ConnectionNotSynchronized => BgpErrorCode::MessageHeaderError(
                MessageHeaderErrorSubcode::ConnectionNotSynchronized,
            ),
            BgpError::BadMessageLength => BgpErrorCode::MessageHeaderError(
                MessageHeaderErrorSubcode::BadMessageLength,
            ),
            BgpError::BadMessageType => BgpErrorCode::MessageHeaderError(
                MessageHeaderErrorSubcode::BadMessageType,
            ),
            BgpError::UnsupportedVersion => BgpErrorCode::OpenMessageError(
                OpenMessageErrorSubCode::UnsupportedVersionNumber,
            ),
            BgpError::UnsupportedOptionalParameter => BgpErrorCode::OpenMessageError(
                OpenMessageErrorSubCode::UnsupportedOptionalParameter,
            ),
            BgpError::MalformedAttributeList => BgpErrorCode::UpdateMessageError(
                UpdateMessageErrorSubcode::MalformedAttributeList,
            ),
            BgpError::AttributeLengthError => BgpErrorCode::UpdateMessageError(
                UpdateMessageErrorSubcode::AttributeLengthError,
            ),
            BgpError::InvalidOriginAttribute => BgpErrorCode::UpdateMessageError(
                UpdateMessageErrorSubcode::InvalidOriginAttribute,
            ),
            BgpError::InvalidNextHopAttribute => BgpErrorCode::UpdateMessageError(
                UpdateMessageErrorSubcode::InvalidNextHopAttribute,
            ),
            BgpError::InvalidNetworkField => BgpErrorCode::UpdateMessageError(
                UpdateMessageErrorSubcode::InvalidNetworkField,
            ),
            BgpError::MalformedAsPath => BgpErrorCode::UpdateMessageError(
                UpdateMessageErrorSubcode::MalformedAsPath,
            ),
        }
    }
}

} // verus!
