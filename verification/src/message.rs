//! The signaling message, its kinds and the error taxonomy.

use vstd::prelude::*;

verus! {

/// What a signaling message carries.
#[derive(Clone, Copy, Debug, PartialEq, Eq, Structural)]
pub enum MessageType {
    SdpOffer,
    SdpAnswer,
    IceCandidate,
}

impl MessageType {
    /// The number that stands for this kind on the wire.
    pub open spec fn spec_code(self) -> u8 {
        match self {
            MessageType::SdpOffer => 0,
            MessageType::SdpAnswer => 1,
            MessageType::IceCandidate => 2,
        }
    }

    /// The kind that a wire number stands for, if any.
    pub open spec fn spec_from_code(code: u8) -> Option<MessageType> {
        if code == 0 {
            Some(MessageType::SdpOffer)
        } else if code == 1 {
            Some(MessageType::SdpAnswer)
        } else if code == 2 {
            Some(MessageType::IceCandidate)
        } else {
            None
        }
    }

    pub fn code(self) -> (c: u8)
        ensures
            c == self.spec_code(),
            c <= 2,
    {
        match self {
            MessageType::SdpOffer => 0,
            MessageType::SdpAnswer => 1,
            MessageType::IceCandidate => 2,
        }
    }

    pub fn from_code(code: u8) -> (kind: Option<MessageType>)
        ensures
            kind == MessageType::spec_from_code(code),
            kind is Some <==> code <= 2,
            kind is Some ==> kind.unwrap().spec_code() == code,
    {
        if code == 0 {
            Some(MessageType::SdpOffer)
        } else if code == 1 {
            Some(MessageType::SdpAnswer)
        } else if code == 2 {
            Some(MessageType::IceCandidate)
        } else {
            None
        }
    }
}

/// The mathematical content of a [`SignalingMessage`].
pub ghost struct MessageView {
    pub kind: MessageType,
    pub data: Option<Seq<char>>,
}

/// One signaling message: a kind and the opaque string that goes with it.
///
/// A message is valid only with its `data` present; the codec can still write
/// one without, and refuses to read it back.
#[derive(Clone, Debug, PartialEq, Eq)]
pub struct SignalingMessage {
    pub kind: MessageType,
    pub data: Option<String>,
}

impl View for SignalingMessage {
    type V = MessageView;

    open spec fn view(&self) -> MessageView {
        MessageView {
            kind: self.kind,
            data: match self.data {
                Some(text) => Some(text@),
                None => None,
            },
        }
    }
}

impl SignalingMessage {
    /// A message is valid when its data is present.
    pub open spec fn spec_is_valid(&self) -> bool {
        self.data is Some
    }

    pub fn is_valid(&self) -> (valid: bool)
        ensures
            valid == self.spec_is_valid(),
            valid == (self@.data is Some),
    {
        self.data.is_some()
    }

    /// An offer that carries `sdp`.
    pub fn offer(sdp: String) -> (message: SignalingMessage)
        ensures
            message.kind == MessageType::SdpOffer,
            message.data == Some(sdp),
    {
        SignalingMessage { kind: MessageType::SdpOffer, data: Some(sdp) }
    }

    /// An answer that carries `sdp`.
    pub fn answer(sdp: String) -> (message: SignalingMessage)
        ensures
            message.kind == MessageType::SdpAnswer,
            message.data == Some(sdp),
    {
        SignalingMessage { kind: MessageType::SdpAnswer, data: Some(sdp) }
    }

    /// An ICE candidate message that carries `candidate`.
    pub fn ice_candidate(candidate: String) -> (message: SignalingMessage)
        ensures
            message.kind == MessageType::IceCandidate,
            message.data == Some(candidate),
    {
        SignalingMessage { kind: MessageType::IceCandidate, data: Some(candidate) }
    }
}

/// The mathematical content of a [`SignalingError`].
pub ghost enum ErrorView {
    Io(Seq<char>),
    UpgradeError(Seq<char>),
    FormatError(Seq<char>),
    ProtocolError(Seq<char>),
}

/// Why a substream failed. Each variant holds a description.
#[derive(Clone, Debug, PartialEq, Eq)]
pub enum SignalingError {
    /// The transport failed to read or write.
    Io(String),
    /// The substream could not be negotiated.
    UpgradeError(String),
    /// A frame was malformed, truncated, or lacked a required field.
    FormatError(String),
    /// A message arrived in a state that does not expect it.
    ProtocolError(String),
}

impl View for SignalingError {
    type V = ErrorView;

    open spec fn view(&self) -> ErrorView {
        match self {
            SignalingError::Io(text) => ErrorView::Io(text@),
            SignalingError::UpgradeError(text) => ErrorView::UpgradeError(text@),
            SignalingError::FormatError(text) => ErrorView::FormatError(text@),
            SignalingError::ProtocolError(text) => ErrorView::ProtocolError(text@),
        }
    }
}

/// The text that tells of an error: what kind it is, then its description.
pub open spec fn spec_describe(error: ErrorView) -> Seq<char> {
    match error {
        ErrorView::Io(detail) => "IO error: "@ + detail,
        ErrorView::UpgradeError(detail) => "Upgrade error: "@ + detail,
        ErrorView::FormatError(detail) => "Invalid message format: "@ + detail,
        ErrorView::ProtocolError(detail) => "Protocol error: "@ + detail,
    }
}

impl SignalingError {
    /// The error as text for a reader.
    pub fn describe(&self) -> (text: String)
        ensures
            text@ == spec_describe(self@),
    {
        match self {
            SignalingError::Io(detail) => {
                let mut text = String::from_str("IO error: ");
                text.append(detail.as_str());
                text
            },
            SignalingError::UpgradeError(detail) => {
                let mut text = String::from_str("Upgrade error: ");
                text.append(detail.as_str());
                text
            },
            SignalingError::FormatError(detail) => {
                let mut text = String::from_str("Invalid message format: ");
                text.append(detail.as_str());
                text
            },
            SignalingError::ProtocolError(detail) => {
                let mut text = String::from_str("Protocol error: ");
                text.append(detail.as_str());
                text
            },
        }
    }
}

/// The description of a frame that is not a well-formed message.
pub open spec fn spec_malformed_text() -> Seq<char> {
    "Failed to decode message"@
}

/// The description of a message of the given kind that lacks its data.
pub open spec fn spec_missing_data_text(kind: MessageType) -> Seq<char> {
    match kind {
        MessageType::SdpOffer => "SDP offer missing data"@,
        MessageType::SdpAnswer => "SDP answer missing data"@,
        MessageType::IceCandidate => "ICE candidate missing data"@,
    }
}

/// The error for a frame that is not a well-formed message.
pub fn malformed() -> (error: SignalingError)
    ensures
        error@ == ErrorView::FormatError(spec_malformed_text()),
{
    SignalingError::FormatError(String::from_str("Failed to decode message"))
}

/// The error for a message of the given kind that lacks its data.
pub fn missing_data(kind: MessageType) -> (error: SignalingError)
    ensures
        error@ == ErrorView::FormatError(spec_missing_data_text(kind)),
{
    match kind {
        MessageType::SdpOffer => SignalingError::FormatError(
            String::from_str("SDP offer missing data"),
        ),
        MessageType::SdpAnswer => SignalingError::FormatError(
            String::from_str("SDP answer missing data"),
        ),
        MessageType::IceCandidate => SignalingError::FormatError(
            String::from_str("ICE candidate missing data"),
        ),
    }
}

} // verus!
