use vstd::prelude::*;

verus! {

/// What can go wrong while decoding or encoding a packet.
#[derive(Debug)]
pub enum Error {
    /// A length-prefixed string held bytes that are not UTF-8.
    NotUtf8,
    /// A field runs past the end of the packet.
    PacketTooShort,
    /// A variable-length integer is not finished within the bytes at hand
    /// (or within its four bytes).
    InputTooShort,
    /// A length does not fit its field on encode.
    PayloadTooLong,
    /// The packet type nibble is not one this server takes as input.
    InvalidPacket(u8),
    /// The CONNECT protocol name is neither "MQTT" nor "MQIsdp".
    InvalidProtocol(String),
    /// The CONNECT protocol level is not 3, 4 or 5.
    InvalidProtocolVersion(u8),
    /// A property identifier is unknown, or not allowed in this packet.
    InvalidProperty(u8),
    /// A reason code octet is out of the table.
    InvalidReasonCode(u8),
    /// A QoS value is 3.
    InvalidQoS(u8),
    /// A subscription's retain-handling option is 3.
    InvalidRetainHandling(u8),
    /// A SUBSCRIBE or UNSUBSCRIBE names no topic filter.
    EmptyPayload,
}

/// The mathematical value of an [`Error`].
pub enum ErrorView {
    NotUtf8,
    PacketTooShort,
    InputTooShort,
    PayloadTooLong,
    InvalidPacket(u8),
    InvalidProtocol(Seq<char>),
    InvalidProtocolVersion(u8),
    InvalidProperty(u8),
    InvalidReasonCode(u8),
    InvalidQoS(u8),
    InvalidRetainHandling(u8),
    EmptyPayload,
}

impl View for Error {
    type V = ErrorView;

    open spec fn view(&self) -> ErrorView {
        match self {
            Error::NotUtf8 => ErrorView::NotUtf8,
            Error::PacketTooShort => ErrorView::PacketTooShort,
            Error::InputTooShort => ErrorView::InputTooShort,
            Error::PayloadTooLong => ErrorView::PayloadTooLong,
            Error::InvalidPacket(b) => ErrorView::InvalidPacket(*b),
            Error::InvalidProtocol(s) => ErrorView::InvalidProtocol(s@),
            Error::InvalidProtocolVersion(b) => ErrorView::InvalidProtocolVersion(*b),
            Error::InvalidProperty(b) => ErrorView::InvalidProperty(*b),
            Error::InvalidReasonCode(b) => ErrorView::InvalidReasonCode(*b),
            Error::InvalidQoS(b) => ErrorView::InvalidQoS(*b),
            Error::InvalidRetainHandling(b) => ErrorView::InvalidRetainHandling(*b),
            Error::EmptyPayload => ErrorView::EmptyPayload,
        }
    }
}

/// The outcome of decoding a field at the front of a byte sequence: the value
/// and the number of bytes it took, or an error.
pub type Parsed<T> = Result<(T, int), ErrorView>;

/// The mathematical value of a decoding result.
pub open spec fn result_view<T: View>(r: Result<T, Error>) -> Result<T::V, ErrorView> {
    match r {
        Ok(v) => Ok(v@),
        Err(e) => Err(e@),
    }
}

} // verus!
