//! The errors that a subscription stream hands to its consumer.

use vstd::prelude::*;
use vstd::string::StringExecFns;

verus! {

/// A field of an event object.
#[derive(Clone, Copy, Debug, PartialEq, Eq, Structural)]
pub enum Field {
    EventType,
    Market,
    AssetId,
    Bids,
    Asks,
    PriceChanges,
    Side,
    Price,
    Size,
}

/// Why one message could not be decoded.
#[derive(Clone, Copy, Debug, PartialEq, Eq, Structural)]
pub enum DecodeError {
    /// The text is not a JSON object where one is expected.
    Syntax,
    /// The object lacks a field.
    Missing(Field),
    /// A field is present but does not hold what it should.
    Invalid(Field),
    /// The event type is none of those the feed defines.
    UnknownEventType,
}

/// An error item of the stream.
#[derive(Clone, Debug, PartialEq, Eq)]
pub enum WsError {
    /// Connecting, the handshake, sending the subscription or reading a frame failed.
    TransportFailure(String),
    /// The session ended, gracefully or not.
    ConnectionClosed,
    /// One message was malformed.
    DecodeFailure(DecodeError),
    /// One message was an unexpected binary payload.
    UnsupportedFrame,
}

impl WsError {
    /// Errors that end the current session and so call for a reconnection. The other
    /// kinds concern a single message and leave the session running.
    pub open spec fn ends_session(self) -> bool {
        self is TransportFailure || self is ConnectionClosed
    }

    pub fn is_session_ending(&self) -> (ending: bool)
        ensures
            ending == self.ends_session(),
    {
        match self {
            WsError::TransportFailure(_) => true,
            WsError::ConnectionClosed => true,
            WsError::DecodeFailure(_) => false,
            WsError::UnsupportedFrame => false,
        }
    }

    /// The heading under which the error is reported.
    pub open spec fn spec_kind_name(self) -> Seq<char> {
        match self {
            WsError::TransportFailure(_) => "WebSocket error"@,
            WsError::ConnectionClosed => "WebSocket connection closed"@,
            WsError::DecodeFailure(_) => "JSON error"@,
            WsError::UnsupportedFrame => "Unexpected binary message"@,
        }
    }

    /// A line of text for the error: its heading, followed for a transport failure by
    /// a colon, a space and the transport's own words.
    pub open spec fn spec_message(self) -> Seq<char> {
        match self {
            WsError::TransportFailure(detail) => self.spec_kind_name() + ": "@ + detail@,
            _ => self.spec_kind_name(),
        }
    }

    pub fn message(&self) -> (text: String)
        ensures
            text@ == self.spec_message(),
    {
        match self {
            WsError::TransportFailure(detail) => {
                let mut text = String::from_str("WebSocket error");
                text.append(": ");
                text.append(detail.as_str());
                text
            },
            WsError::ConnectionClosed => String::from_str("WebSocket connection closed"),
            WsError::DecodeFailure(_) => String::from_str("JSON error"),
            WsError::UnsupportedFrame => String::from_str("Unexpected binary message"),
        }
    }
}

} // verus!
