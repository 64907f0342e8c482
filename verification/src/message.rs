//! Messages exchanged over an upgraded connection, and the errors the
//! transport can report.

use vstd::prelude::*;
use crate::text::byte_len;

verus! {

/// One discrete unit of application data, tagged by kind.
#[derive(Debug, PartialEq, Eq)]
pub enum Message {
    /// A text payload.
    Text(String),
    /// A binary payload.
    Binary(Vec<u8>),
    /// The close signal.
    Close,
    /// Any other control frame (ping, pong, raw frame).
    Control,
}

/// The mathematical value of a [`Message`].
pub enum MessageView {
    Text(Seq<char>),
    Binary(Seq<u8>),
    Close,
    Control,
}

impl View for Message {
    type V = MessageView;

    open spec fn view(&self) -> MessageView {
        match self {
            Message::Text(text) => MessageView::Text(text@),
            Message::Binary(data) => MessageView::Binary(data@),
            Message::Close => MessageView::Close,
            Message::Control => MessageView::Control,
        }
    }
}

impl MessageView {
    /// Whether the message carries a payload (text or binary).
    pub open spec fn is_data(self) -> bool {
        self is Text || self is Binary
    }

    /// The size of the payload in bytes: the UTF-8 length of a text, the
    /// length of a binary payload, zero for messages without a payload.
    pub open spec fn payload_len(self) -> nat {
        match self {
            MessageView::Text(text) => byte_len(text),
            MessageView::Binary(data) => data.len(),
            MessageView::Close => 0,
            MessageView::Control => 0,
        }
    }
}

impl Clone for Message {
    fn clone(&self) -> (out: Message)
        ensures
            out@ == self@,
    {
        match self {
            Message::Text(text) => Message::Text(text.clone()),
            Message::Binary(data) => Message::Binary(data.clone()),
            Message::Close => Message::Close,
            Message::Control => Message::Control,
        }
    }
}

impl Message {
    /// Whether the message carries a payload (text or binary).
    pub fn is_data(&self) -> (b: bool)
        ensures
            b == self@.is_data(),
    {
        match self {
            Message::Text(_) => true,
            Message::Binary(_) => true,
            Message::Close => false,
            Message::Control => false,
        }
    }

    /// The size of the payload in bytes.
    pub fn payload_len(&self) -> (n: usize)
        ensures
            n == self@.payload_len(),
    {
        match self {
            Message::Text(text) => text.as_str().as_bytes().len(),
            Message::Binary(data) => data.len(),
            Message::Close => 0,
            Message::Control => 0,
        }
    }
}

/// Why the upgrade handshake did not produce a message channel.
#[derive(Debug, Clone, Copy, PartialEq, Eq, Structural)]
pub enum HandshakeError {
    /// The request could not be parsed.
    Malformed,
    /// A required upgrade header was absent or had the wrong value.
    MissingHeader,
    /// The connection failed while the handshake was in progress.
    Io,
}

/// Why a receive or a send on a message channel failed.
#[derive(Debug, Clone, Copy, PartialEq, Eq, Structural)]
pub enum TransportError {
    /// The underlying connection failed.
    Io,
    /// The peer sent a frame that violates the framing protocol.
    MalformedFrame,
    /// The peer sent a message larger than the configured limit.
    MessageTooLarge,
}

impl TransportError {
    /// Whether the error is a violation of the protocol by the peer, as
    /// opposed to a failure of the connection.
    pub open spec fn protocol_violation(self) -> bool {
        self is MalformedFrame || self is MessageTooLarge
    }

    /// Whether the error is a violation of the protocol by the peer.
    pub fn is_protocol_violation(&self) -> (b: bool)
        ensures
            b == self.protocol_violation(),
    {
        match self {
            TransportError::Io => false,
            TransportError::MalformedFrame => true,
            TransportError::MessageTooLarge => true,
        }
    }
}

/// Why the listening socket could not be bound.
#[derive(Debug, Clone, Copy, PartialEq, Eq, Structural)]
pub enum BindError {
    /// The address is not a valid `host:port`.
    InvalidAddress,
    /// Another socket already listens on the address.
    AddressInUse,
    /// The process may not bind the address.
    PermissionDenied,
    /// Any other failure reported by the system.
    Other,
}

} // verus!
