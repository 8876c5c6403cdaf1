use vstd::prelude::*;

verus! {

/// The control packet type: the upper nibble of the fixed header's first byte.
#[derive(Debug, Clone, Copy, PartialEq, Eq, Structural)]
pub enum PacketType {
    Reserved,
    Connect,
    ConnAck,
    Publish,
    PubAck,
    PubRec,
    PubRel,
    PubComp,
    Subscribe,
    SubAck,
    Unsubscribe,
    UnsubAck,
    PingReq,
    PingResp,
    Disconnect,
    Auth,
}

impl PacketType {
    /// The octet that stands for this value on the wire.
    pub open spec fn spec_byte(self) -> u8 {
        match self {
            PacketType::Reserved => 0,
            PacketType::Connect => 1,
            PacketType::ConnAck => 2,
            PacketType::Publish => 3,
            PacketType::PubAck => 4,
            PacketType::PubRec => 5,
            PacketType::PubRel => 6,
            PacketType::PubComp => 7,
            PacketType::Subscribe => 8,
            PacketType::SubAck => 9,
            PacketType::Unsubscribe => 10,
            PacketType::UnsubAck => 11,
            PacketType::PingReq => 12,
            PacketType::PingResp => 13,
            PacketType::Disconnect => 14,
            PacketType::Auth => 15,
        }
    }

    /// The value that an octet stands for, if any.
    pub open spec fn spec_from_byte(b: u8) -> Option<PacketType> {
        if b == 0 {
            Some(PacketType::Reserved)
        } else if b == 1 {
            Some(PacketType::Connect)
        } else if b == 2 {
            Some(PacketType::ConnAck)
        } else if b == 3 {
            Some(PacketType::Publish)
        } else if b == 4 {
            Some(PacketType::PubAck)
        } else if b == 5 {
            Some(PacketType::PubRec)
        } else if b == 6 {
            Some(PacketType::PubRel)
        } else if b == 7 {
            Some(PacketType::PubComp)
        } else if b == 8 {
            Some(PacketType::Subscribe)
        } else if b == 9 {
            Some(PacketType::SubAck)
        } else if b == 10 {
            Some(PacketType::Unsubscribe)
        } else if b == 11 {
            Some(PacketType::UnsubAck)
        } else if b == 12 {
            Some(PacketType::PingReq)
        } else if b == 13 {
            Some(PacketType::PingResp)
        } else if b == 14 {
            Some(PacketType::Disconnect)
        } else if b == 15 {
            Some(PacketType::Auth)
        } else {
            None
        }
    }

    pub fn byte(&self) -> (r: u8)
        ensures
            r == self.spec_byte(),
    {
        match self {
            PacketType::Reserved => 0,
            PacketType::Connect => 1,
            PacketType::ConnAck => 2,
            PacketType::Publish => 3,
            PacketType::PubAck => 4,
            PacketType::PubRec => 5,
            PacketType::PubRel => 6,
            PacketType::PubComp => 7,
            PacketType::Subscribe => 8,
            PacketType::SubAck => 9,
            PacketType::Unsubscribe => 10,
            PacketType::UnsubAck => 11,
            PacketType::PingReq => 12,
            PacketType::PingResp => 13,
            PacketType::Disconnect => 14,
            PacketType::Auth => 15,
        }
    }

    pub fn from_byte(b: u8) -> (r: Option<PacketType>)
        ensures
            r == PacketType::spec_from_byte(b),
    {
        match b {
            0 => Some(PacketType::Reserved),
            1 => Some(PacketType::Connect),
            2 => Some(PacketType::ConnAck),
            3 => Some(PacketType::Publish),
            4 => Some(PacketType::PubAck),
            5 => Some(PacketType::PubRec),
            6 => Some(PacketType::PubRel),
            7 => Some(PacketType::PubComp),
            8 => Some(PacketType::Subscribe),
            9 => Some(PacketType::SubAck),
            10 => Some(PacketType::Unsubscribe),
            11 => Some(PacketType::UnsubAck),
            12 => Some(PacketType::PingReq),
            13 => Some(PacketType::PingResp),
            14 => Some(PacketType::Disconnect),
            15 => Some(PacketType::Auth),
            _ => None,
        }
    }

}

pub proof fn lemma_packettype_byte_round_trip(v: PacketType)
    ensures
        PacketType::spec_from_byte(v.spec_byte()) == Some(v),
{
}
/// Delivery assurance level.
#[derive(Debug, Clone, Copy, PartialEq, Eq, Structural)]
pub enum QoS {
    AtMostOnce,
    AtLeastOnce,
    ExactlyOnce,
}

impl QoS {
    /// The octet that stands for this value on the wire.
    pub open spec fn spec_byte(self) -> u8 {
        match self {
            QoS::AtMostOnce => 0,
            QoS::AtLeastOnce => 1,
            QoS::ExactlyOnce => 2,
        }
    }

    /// The value that an octet stands for, if any.
    pub open spec fn spec_from_byte(b: u8) -> Option<QoS> {
        if b == 0 {
            Some(QoS::AtMostOnce)
        } else if b == 1 {
            Some(QoS::AtLeastOnce)
        } else if b == 2 {
            Some(QoS::ExactlyOnce)
        } else {
            None
        }
    }

    pub fn byte(&self) -> (r: u8)
        ensures
            r == self.spec_byte(),
    {
        match self {
            QoS::AtMostOnce => 0,
            QoS::AtLeastOnce => 1,
            QoS::ExactlyOnce => 2,
        }
    }

    pub fn from_byte(b: u8) -> (r: Option<QoS>)
        ensures
            r == QoS::spec_from_byte(b),
    {
        match b {
            0 => Some(QoS::AtMostOnce),
            1 => Some(QoS::AtLeastOnce),
            2 => Some(QoS::ExactlyOnce),
            _ => None,
        }
    }

}

pub proof fn lemma_qos_byte_round_trip(v: QoS)
    ensures
        QoS::spec_from_byte(v.spec_byte()) == Some(v),
{
}
impl Default for QoS {
    fn default() -> (r: QoS)
        ensures
            r == QoS::AtMostOnce,
    {
        QoS::AtMostOnce
    }
}

/// Protocol version, as carried in the CONNECT packet.
#[derive(Debug, Clone, Copy, PartialEq, Eq, Structural)]
pub enum Version {
    V31,
    V311,
    V5,
}

impl Version {
    /// The octet that stands for this value on the wire.
    pub open spec fn spec_byte(self) -> u8 {
        match self {
            Version::V31 => 3,
            Version::V311 => 4,
            Version::V5 => 5,
        }
    }

    /// The value that an octet stands for, if any.
    pub open spec fn spec_from_byte(b: u8) -> Option<Version> {
        if b == 3 {
            Some(Version::V31)
        } else if b == 4 {
            Some(Version::V311)
        } else if b == 5 {
            Some(Version::V5)
        } else {
            None
        }
    }

    pub fn byte(&self) -> (r: u8)
        ensures
            r == self.spec_byte(),
    {
        match self {
            Version::V31 => 3,
            Version::V311 => 4,
            Version::V5 => 5,
        }
    }

    pub fn from_byte(b: u8) -> (r: Option<Version>)
        ensures
            r == Version::spec_from_byte(b),
    {
        match b {
            3 => Some(Version::V31),
            4 => Some(Version::V311),
            5 => Some(Version::V5),
            _ => None,
        }
    }

}

pub proof fn lemma_version_byte_round_trip(v: Version)
    ensures
        Version::spec_from_byte(v.spec_byte()) == Some(v),
{
}
impl Default for Version {
    fn default() -> (r: Version)
        ensures
            r == Version::V5,
    {
        Version::V5
    }
}

/// When retained messages are sent for a new subscription.
#[derive(Debug, Clone, Copy, PartialEq, Eq, Structural)]
pub enum RetainHandling {
    Sub,
    NewSub,
    Never,
}

impl RetainHandling {
    /// The octet that stands for this value on the wire.
    pub open spec fn spec_byte(self) -> u8 {
        match self {
            RetainHandling::Sub => 0,
            RetainHandling::NewSub => 1,
            RetainHandling::Never => 2,
        }
    }

    /// The value that an octet stands for, if any.
    pub open spec fn spec_from_byte(b: u8) -> Option<RetainHandling> {
        if b == 0 {
            Some(RetainHandling::Sub)
        } else if b == 1 {
            Some(RetainHandling::NewSub)
        } else if b == 2 {
            Some(RetainHandling::Never)
        } else {
            None
        }
    }

    pub fn byte(&self) -> (r: u8)
        ensures
            r == self.spec_byte(),
    {
        match self {
            RetainHandling::Sub => 0,
            RetainHandling::NewSub => 1,
            RetainHandling::Never => 2,
        }
    }

    pub fn from_byte(b: u8) -> (r: Option<RetainHandling>)
        ensures
            r == RetainHandling::spec_from_byte(b),
    {
        match b {
            0 => Some(RetainHandling::Sub),
            1 => Some(RetainHandling::NewSub),
            2 => Some(RetainHandling::Never),
            _ => None,
        }
    }

}

pub proof fn lemma_retainhandling_byte_round_trip(v: RetainHandling)
    ensures
        RetainHandling::spec_from_byte(v.spec_byte()) == Some(v),
{
}
impl Default for RetainHandling {
    fn default() -> (r: RetainHandling)
        ensures
            r == RetainHandling::Sub,
    {
        RetainHandling::Sub
    }
}

/// A v5 reason code: one octet whose meaning depends on the packet that carries it.
#[derive(Debug, Clone, Copy, PartialEq, Eq, Structural)]
pub enum ReasonCode {
    Success,
    GrantedQoS1,
    GrantedQoS2,
    DisconnectWithWillMessage,
    NotMatchingSubscribers,
    NoSubscriptionExisted,
    ContinueAuthentication,
    ReAuthenticate,
    UnspecifiedError,
    MalformedPacket,
    ProtocolError,
    ImplementationSpecificError,
    UnsupportedProtocolVersion,
    ClientIdentifierNotValid,
    BadUserNameOrPassword,
    NotAuthorized,
    ServerUnavailable,
    ServerBusy,
    Banned,
    ServerShuttingDown,
    BadAuthMethod,
    KeepAliveTimeout,
    SessionTakenOver,
    TopicFilterInvalid,
    TopicNameInvalid,
    PacketIDInUse,
    PacketIDNotFound,
    RecvMaxExceeded,
    TopicAliasInvalid,
    PacketTooLarge,
    MessageRateTooHigh,
    QuotaExceeded,
    AdminAction,
    PayloadFormatInvalid,
    RetainNotSupported,
    QoSNotSupported,
    UseAnotherServer,
    ServerMoved,
    SharedSubNotSupported,
    ConnectionRateExceeded,
    MaxConnectTime,
    SubIDNotSupported,
    WildcardSubNotSupported,
}

impl ReasonCode {
    /// The octet that stands for this value on the wire.
    pub open spec fn spec_byte(self) -> u8 {
        match self {
            ReasonCode::Success => 0x00,
            ReasonCode::GrantedQoS1 => 0x01,
            ReasonCode::GrantedQoS2 => 0x02,
            ReasonCode::DisconnectWithWillMessage => 0x04,
            ReasonCode::NotMatchingSubscribers => 0x10,
            ReasonCode::NoSubscriptionExisted => 0x11,
            ReasonCode::ContinueAuthentication => 0x18,
            ReasonCode::ReAuthenticate => 0x19,
            ReasonCode::UnspecifiedError => 0x80,
            ReasonCode::MalformedPacket => 0x81,
            ReasonCode::ProtocolError => 0x82,
            ReasonCode::ImplementationSpecificError => 0x83,
            ReasonCode::UnsupportedProtocolVersion => 0x84,
            ReasonCode::ClientIdentifierNotValid => 0x85,
            ReasonCode::BadUserNameOrPassword => 0x86,
            ReasonCode::NotAuthorized => 0x87,
            ReasonCode::ServerUnavailable => 0x88,
            ReasonCode::ServerBusy => 0x89,
            ReasonCode::Banned => 0x8A,
            ReasonCode::ServerShuttingDown => 0x8B,
            ReasonCode::BadAuthMethod => 0x8C,
            ReasonCode::KeepAliveTimeout => 0x8D,
            ReasonCode::SessionTakenOver => 0x8E,
            ReasonCode::TopicFilterInvalid => 0x8F,
            ReasonCode::TopicNameInvalid => 0x90,
            ReasonCode::PacketIDInUse => 0x91,
            ReasonCode::PacketIDNotFound => 0x92,
            ReasonCode::RecvMaxExceeded => 0x93,
            ReasonCode::TopicAliasInvalid => 0x94,
            ReasonCode::PacketTooLarge => 0x95,
            ReasonCode::MessageRateTooHigh => 0x96,
            ReasonCode::QuotaExceeded => 0x97,
            ReasonCode::AdminAction => 0x98,
            ReasonCode::PayloadFormatInvalid => 0x99,
            ReasonCode::RetainNotSupported => 0x9A,
            ReasonCode::QoSNotSupported => 0x9B,
            ReasonCode::UseAnotherServer => 0x9C,
            ReasonCode::ServerMoved => 0x9D,
            ReasonCode::SharedSubNotSupported => 0x9E,
            ReasonCode::ConnectionRateExceeded => 0x9F,
            ReasonCode::MaxConnectTime => 0xA0,
            ReasonCode::SubIDNotSupported => 0xA1,
            ReasonCode::WildcardSubNotSupported => 0xA2,
        }
    }

    /// The value that an octet stands for, if any.
    pub open spec fn spec_from_byte(b: u8) -> Option<ReasonCode> {
        if b == 0x00 {
            Some(ReasonCode::Success)
        } else if b == 0x01 {
            Some(ReasonCode::GrantedQoS1)
        } else if b == 0x02 {
            Some(ReasonCode::GrantedQoS2)
        } else if b == 0x04 {
            Some(ReasonCode::DisconnectWithWillMessage)
        } else if b == 0x10 {
            Some(ReasonCode::NotMatchingSubscribers)
        } else if b == 0x11 {
            Some(ReasonCode::NoSubscriptionExisted)
        } else if b == 0x18 {
            Some(ReasonCode::ContinueAuthentication)
        } else if b == 0x19 {
            Some(ReasonCode::ReAuthenticate)
        } else if b == 0x80 {
            Some(ReasonCode::UnspecifiedError)
        } else if b == 0x81 {
            Some(ReasonCode::MalformedPacket)
        } else if b == 0x82 {
            Some(ReasonCode::ProtocolError)
        } else if b == 0x83 {
            Some(ReasonCode::ImplementationSpecificError)
        } else if b == 0x84 {
            Some(ReasonCode::UnsupportedProtocolVersion)
        } else if b == 0x85 {
            Some(ReasonCode::ClientIdentifierNotValid)
        } else if b == 0x86 {
            Some(ReasonCode::BadUserNameOrPassword)
        } else if b == 0x87 {
            Some(ReasonCode::NotAuthorized)
        } else if b == 0x88 {
            Some(ReasonCode::ServerUnavailable)
        } else if b == 0x89 {
            Some(ReasonCode::ServerBusy)
        } else if b == 0x8A {
            Some(ReasonCode::Banned)
        } else if b == 0x8B {
            Some(ReasonCode::ServerShuttingDown)
        } else if b == 0x8C {
            Some(ReasonCode::BadAuthMethod)
        } else if b == 0x8D {
            Some(ReasonCode::KeepAliveTimeout)
        } else if b == 0x8E {
            Some(ReasonCode::SessionTakenOver)
        } else if b == 0x8F {
            Some(ReasonCode::TopicFilterInvalid)
        } else if b == 0x90 {
            Some(ReasonCode::TopicNameInvalid)
        } else if b == 0x91 {
            Some(ReasonCode::PacketIDInUse)
        } else if b == 0x92 {
            Some(ReasonCode::PacketIDNotFound)
        } else if b == 0x93 {
            Some(ReasonCode::RecvMaxExceeded)
        } else if b == 0x94 {
            Some(ReasonCode::TopicAliasInvalid)
        } else if b == 0x95 {
            Some(ReasonCode::PacketTooLarge)
        } else if b == 0x96 {
            Some(ReasonCode::MessageRateTooHigh)
        } else if b == 0x97 {
            Some(ReasonCode::QuotaExceeded)
        } else if b == 0x98 {
            Some(ReasonCode::AdminAction)
        } else if b == 0x99 {
            Some(ReasonCode::PayloadFormatInvalid)
        } else if b == 0x9A {
            Some(ReasonCode::RetainNotSupported)
        } else if b == 0x9B {
            Some(ReasonCode::QoSNotSupported)
        } else if b == 0x9C {
            Some(ReasonCode::UseAnotherServer)
        } else if b == 0x9D {
            Some(ReasonCode::ServerMoved)
        } else if b == 0x9E {
            Some(ReasonCode::SharedSubNotSupported)
        } else if b == 0x9F {
            Some(ReasonCode::ConnectionRateExceeded)
        } else if b == 0xA0 {
            Some(ReasonCode::MaxConnectTime)
        } else if b == 0xA1 {
            Some(ReasonCode::SubIDNotSupported)
        } else if b == 0xA2 {
            Some(ReasonCode::WildcardSubNotSupported)
        } else {
            None
        }
    }

    pub fn byte(&self) -> (r: u8)
        ensures
            r == self.spec_byte(),
    {
        match self {
            ReasonCode::Success => 0x00,
            ReasonCode::GrantedQoS1 => 0x01,
            ReasonCode::GrantedQoS2 => 0x02,
            ReasonCode::DisconnectWithWillMessage => 0x04,
            ReasonCode::NotMatchingSubscribers => 0x10,
            ReasonCode::NoSubscriptionExisted => 0x11,
            ReasonCode::ContinueAuthentication => 0x18,
            ReasonCode::ReAuthenticate => 0x19,
            ReasonCode::UnspecifiedError => 0x80,
            ReasonCode::MalformedPacket => 0x81,
            ReasonCode::ProtocolError => 0x82,
            ReasonCode::ImplementationSpecificError => 0x83,
            ReasonCode::UnsupportedProtocolVersion => 0x84,
            ReasonCode::ClientIdentifierNotValid => 0x85,
            ReasonCode::BadUserNameOrPassword => 0x86,
            ReasonCode::NotAuthorized => 0x87,
            ReasonCode::ServerUnavailable => 0x88,
            ReasonCode::ServerBusy => 0x89,
            ReasonCode::Banned => 0x8A,
            ReasonCode::ServerShuttingDown => 0x8B,
            ReasonCode::BadAuthMethod => 0x8C,
            ReasonCode::KeepAliveTimeout => 0x8D,
            ReasonCode::SessionTakenOver => 0x8E,
            ReasonCode::TopicFilterInvalid => 0x8F,
            ReasonCode::TopicNameInvalid => 0x90,
            ReasonCode::PacketIDInUse => 0x91,
            ReasonCode::PacketIDNotFound => 0x92,
            ReasonCode::RecvMaxExceeded => 0x93,
            ReasonCode::TopicAliasInvalid => 0x94,
            ReasonCode::PacketTooLarge => 0x95,
            ReasonCode::MessageRateTooHigh => 0x96,
            ReasonCode::QuotaExceeded => 0x97,
            ReasonCode::AdminAction => 0x98,
            ReasonCode::PayloadFormatInvalid => 0x99,
            ReasonCode::RetainNotSupported => 0x9A,
            ReasonCode::QoSNotSupported => 0x9B,
            ReasonCode::UseAnotherServer => 0x9C,
            ReasonCode::ServerMoved => 0x9D,
            ReasonCode::SharedSubNotSupported => 0x9E,
            ReasonCode::ConnectionRateExceeded => 0x9F,
            ReasonCode::MaxConnectTime => 0xA0,
            ReasonCode::SubIDNotSupported => 0xA1,
            ReasonCode::WildcardSubNotSupported => 0xA2,
        }
    }

    pub fn from_byte(b: u8) -> (r: Option<ReasonCode>)
        ensures
            r == ReasonCode::spec_from_byte(b),
    {
        match b {
            0x00 => Some(ReasonCode::Success),
            0x01 => Some(ReasonCode::GrantedQoS1),
            0x02 => Some(ReasonCode::GrantedQoS2),
            0x04 => Some(ReasonCode::DisconnectWithWillMessage),
            0x10 => Some(ReasonCode::NotMatchingSubscribers),
            0x11 => Some(ReasonCode::NoSubscriptionExisted),
            0x18 => Some(ReasonCode::ContinueAuthentication),
            0x19 => Some(ReasonCode::ReAuthenticate),
            0x80 => Some(ReasonCode::UnspecifiedError),
            0x81 => Some(ReasonCode::MalformedPacket),
            0x82 => Some(ReasonCode::ProtocolError),
            0x83 => Some(ReasonCode::ImplementationSpecificError),
            0x84 => Some(ReasonCode::UnsupportedProtocolVersion),
            0x85 => Some(ReasonCode::ClientIdentifierNotValid),
            0x86 => Some(ReasonCode::BadUserNameOrPassword),
            0x87 => Some(ReasonCode::NotAuthorized),
            0x88 => Some(ReasonCode::ServerUnavailable),
            0x89 => Some(ReasonCode::ServerBusy),
            0x8A => Some(ReasonCode::Banned),
            0x8B => Some(ReasonCode::ServerShuttingDown),
            0x8C => Some(ReasonCode::BadAuthMethod),
            0x8D => Some(ReasonCode::KeepAliveTimeout),
            0x8E => Some(ReasonCode::SessionTakenOver),
            0x8F => Some(ReasonCode::TopicFilterInvalid),
            0x90 => Some(ReasonCode::TopicNameInvalid),
            0x91 => Some(ReasonCode::PacketIDInUse),
            0x92 => Some(ReasonCode::PacketIDNotFound),
            0x93 => Some(ReasonCode::RecvMaxExceeded),
            0x94 => Some(ReasonCode::TopicAliasInvalid),
            0x95 => Some(ReasonCode::PacketTooLarge),
            0x96 => Some(ReasonCode::MessageRateTooHigh),
            0x97 => Some(ReasonCode::QuotaExceeded),
            0x98 => Some(ReasonCode::AdminAction),
            0x99 => Some(ReasonCode::PayloadFormatInvalid),
            0x9A => Some(ReasonCode::RetainNotSupported),
            0x9B => Some(ReasonCode::QoSNotSupported),
            0x9C => Some(ReasonCode::UseAnotherServer),
            0x9D => Some(ReasonCode::ServerMoved),
            0x9E => Some(ReasonCode::SharedSubNotSupported),
            0x9F => Some(ReasonCode::ConnectionRateExceeded),
            0xA0 => Some(ReasonCode::MaxConnectTime),
            0xA1 => Some(ReasonCode::SubIDNotSupported),
            0xA2 => Some(ReasonCode::WildcardSubNotSupported),
            _ => None,
        }
    }

}

pub proof fn lemma_reasoncode_byte_round_trip(v: ReasonCode)
    ensures
        ReasonCode::spec_from_byte(v.spec_byte()) == Some(v),
{
}
impl Default for ReasonCode {
    fn default() -> (r: ReasonCode)
        ensures
            r == ReasonCode::Success,
    {
        ReasonCode::Success
    }
}

/// The wire shape of a property value.
#[derive(Debug, Clone, Copy, PartialEq, Eq, Structural)]
pub enum Shape {
    /// One octet.
    Byte,
    /// Two-octet big-endian integer.
    Two,
    /// Four-octet big-endian integer.
    Four,
    /// Variable-length integer.
    Var,
    /// Length-prefixed UTF-8 string.
    Text,
    /// Length-prefixed byte blob.
    Binary,
    /// Two length-prefixed UTF-8 strings, a key and a value.
    Pair,
}

/// A v5 property identifier.
#[derive(Debug, Clone, Copy, PartialEq, Eq, Structural)]
pub enum Property {
    PayloadFormatIndicator,
    MessageExpiryInterval,
    ContentType,
    ResponseTopic,
    CorrelationData,
    SubIdentifier,
    SessionExpiryInterval,
    AssignedClientIdentifier,
    ServerKeepAlive,
    AuthMethod,
    AuthData,
    RequestProblemInfo,
    WillDelayInterval,
    RequestResponseInfo,
    ResponseInfo,
    ServerReference,
    ReasonString,
    ReceiveMaximum,
    TopicAliasMax,
    TopicAlias,
    MaximumQoS,
    RetainAvailable,
    UserProperty,
    MaxPacketSize,
    WildcardSubAvailable,
    SubIdentifierAvailable,
    SharedSubAvailable,
}

impl Property {
    /// The octet that stands for this value on the wire.
    pub open spec fn spec_byte(self) -> u8 {
        match self {
            Property::PayloadFormatIndicator => 0x01,
            Property::MessageExpiryInterval => 0x02,
            Property::ContentType => 0x03,
            Property::ResponseTopic => 0x08,
            Property::CorrelationData => 0x09,
            Property::SubIdentifier => 0x0B,
            Property::SessionExpiryInterval => 0x11,
            Property::AssignedClientIdentifier => 0x12,
            Property::ServerKeepAlive => 0x13,
            Property::AuthMethod => 0x15,
            Property::AuthData => 0x16,
            Property::RequestProblemInfo => 0x17,
            Property::WillDelayInterval => 0x18,
            Property::RequestResponseInfo => 0x19,
            Property::ResponseInfo => 0x1A,
            Property::ServerReference => 0x1C,
            Property::ReasonString => 0x1F,
            Property::ReceiveMaximum => 0x21,
            Property::TopicAliasMax => 0x22,
            Property::TopicAlias => 0x23,
            Property::MaximumQoS => 0x24,
            Property::RetainAvailable => 0x25,
            Property::UserProperty => 0x26,
            Property::MaxPacketSize => 0x27,
            Property::WildcardSubAvailable => 0x28,
            Property::SubIdentifierAvailable => 0x29,
            Property::SharedSubAvailable => 0x2A,
        }
    }

    /// The value that an octet stands for, if any.
    pub open spec fn spec_from_byte(b: u8) -> Option<Property> {
        if b == 0x01 {
            Some(Property::PayloadFormatIndicator)
        } else if b == 0x02 {
            Some(Property::MessageExpiryInterval)
        } else if b == 0x03 {
            Some(Property::ContentType)
        } else if b == 0x08 {
            Some(Property::ResponseTopic)
        } else if b == 0x09 {
            Some(Property::CorrelationData)
        } else if b == 0x0B {
            Some(Property::SubIdentifier)
        } else if b == 0x11 {
            Some(Property::SessionExpiryInterval)
        } else if b == 0x12 {
            Some(Property::AssignedClientIdentifier)
        } else if b == 0x13 {
            Some(Property::ServerKeepAlive)
        } else if b == 0x15 {
            Some(Property::AuthMethod)
        } else if b == 0x16 {
            Some(Property::AuthData)
        } else if b == 0x17 {
            Some(Property::RequestProblemInfo)
        } else if b == 0x18 {
            Some(Property::WillDelayInterval)
        } else if b == 0x19 {
            Some(Property::RequestResponseInfo)
        } else if b == 0x1A {
            Some(Property::ResponseInfo)
        } else if b == 0x1C {
            Some(Property::ServerReference)
        } else if b == 0x1F {
            Some(Property::ReasonString)
        } else if b == 0x21 {
            Some(Property::ReceiveMaximum)
        } else if b == 0x22 {
            Some(Property::TopicAliasMax)
        } else if b == 0x23 {
            Some(Property::TopicAlias)
        } else if b == 0x24 {
            Some(Property::MaximumQoS)
        } else if b == 0x25 {
            Some(Property::RetainAvailable)
        } else if b == 0x26 {
            Some(Property::UserProperty)
        } else if b == 0x27 {
            Some(Property::MaxPacketSize)
        } else if b == 0x28 {
            Some(Property::WildcardSubAvailable)
        } else if b == 0x29 {
            Some(Property::SubIdentifierAvailable)
        } else if b == 0x2A {
            Some(Property::SharedSubAvailable)
        } else {
            None
        }
    }

    pub fn byte(&self) -> (r: u8)
        ensures
            r == self.spec_byte(),
    {
        match self {
            Property::PayloadFormatIndicator => 0x01,
            Property::MessageExpiryInterval => 0x02,
            Property::ContentType => 0x03,
            Property::ResponseTopic => 0x08,
            Property::CorrelationData => 0x09,
            Property::SubIdentifier => 0x0B,
            Property::SessionExpiryInterval => 0x11,
            Property::AssignedClientIdentifier => 0x12,
            Property::ServerKeepAlive => 0x13,
            Property::AuthMethod => 0x15,
            Property::AuthData => 0x16,
            Property::RequestProblemInfo => 0x17,
            Property::WillDelayInterval => 0x18,
            Property::RequestResponseInfo => 0x19,
            Property::ResponseInfo => 0x1A,
            Property::ServerReference => 0x1C,
            Property::ReasonString => 0x1F,
            Property::ReceiveMaximum => 0x21,
            Property::TopicAliasMax => 0x22,
            Property::TopicAlias => 0x23,
            Property::MaximumQoS => 0x24,
            Property::RetainAvailable => 0x25,
            Property::UserProperty => 0x26,
            Property::MaxPacketSize => 0x27,
            Property::WildcardSubAvailable => 0x28,
            Property::SubIdentifierAvailable => 0x29,
            Property::SharedSubAvailable => 0x2A,
        }
    }

    pub fn from_byte(b: u8) -> (r: Option<Property>)
        ensures
            r == Property::spec_from_byte(b),
    {
        match b {
            0x01 => Some(Property::PayloadFormatIndicator),
            0x02 => Some(Property::MessageExpiryInterval),
            0x03 => Some(Property::ContentType),
            0x08 => Some(Property::ResponseTopic),
            0x09 => Some(Property::CorrelationData),
            0x0B => Some(Property::SubIdentifier),
            0x11 => Some(Property::SessionExpiryInterval),
            0x12 => Some(Property::AssignedClientIdentifier),
            0x13 => Some(Property::ServerKeepAlive),
            0x15 => Some(Property::AuthMethod),
            0x16 => Some(Property::AuthData),
            0x17 => Some(Property::RequestProblemInfo),
            0x18 => Some(Property::WillDelayInterval),
            0x19 => Some(Property::RequestResponseInfo),
            0x1A => Some(Property::ResponseInfo),
            0x1C => Some(Property::ServerReference),
            0x1F => Some(Property::ReasonString),
            0x21 => Some(Property::ReceiveMaximum),
            0x22 => Some(Property::TopicAliasMax),
            0x23 => Some(Property::TopicAlias),
            0x24 => Some(Property::MaximumQoS),
            0x25 => Some(Property::RetainAvailable),
            0x26 => Some(Property::UserProperty),
            0x27 => Some(Property::MaxPacketSize),
            0x28 => Some(Property::WildcardSubAvailable),
            0x29 => Some(Property::SubIdentifierAvailable),
            0x2A => Some(Property::SharedSubAvailable),
            _ => None,
        }
    }

    /// The wire shape of the value that follows this identifier.
    pub open spec fn spec_shape(self) -> Shape {
        match self {
            Property::PayloadFormatIndicator => Shape::Byte,
            Property::MessageExpiryInterval => Shape::Four,
            Property::ContentType => Shape::Text,
            Property::ResponseTopic => Shape::Text,
            Property::CorrelationData => Shape::Binary,
            Property::SubIdentifier => Shape::Var,
            Property::SessionExpiryInterval => Shape::Four,
            Property::AssignedClientIdentifier => Shape::Text,
            Property::ServerKeepAlive => Shape::Two,
            Property::AuthMethod => Shape::Text,
            Property::AuthData => Shape::Binary,
            Property::RequestProblemInfo => Shape::Byte,
            Property::WillDelayInterval => Shape::Four,
            Property::RequestResponseInfo => Shape::Byte,
            Property::ResponseInfo => Shape::Text,
            Property::ServerReference => Shape::Text,
            Property::ReasonString => Shape::Text,
            Property::ReceiveMaximum => Shape::Two,
            Property::TopicAliasMax => Shape::Two,
            Property::TopicAlias => Shape::Two,
            Property::MaximumQoS => Shape::Byte,
            Property::RetainAvailable => Shape::Byte,
            Property::UserProperty => Shape::Pair,
            Property::MaxPacketSize => Shape::Four,
            Property::WildcardSubAvailable => Shape::Byte,
            Property::SubIdentifierAvailable => Shape::Byte,
            Property::SharedSubAvailable => Shape::Byte,
        }
    }

    pub fn shape(&self) -> (r: Shape)
        ensures
            r == self.spec_shape(),
    {
        match self {
            Property::PayloadFormatIndicator => Shape::Byte,
            Property::MessageExpiryInterval => Shape::Four,
            Property::ContentType => Shape::Text,
            Property::ResponseTopic => Shape::Text,
            Property::CorrelationData => Shape::Binary,
            Property::SubIdentifier => Shape::Var,
            Property::SessionExpiryInterval => Shape::Four,
            Property::AssignedClientIdentifier => Shape::Text,
            Property::ServerKeepAlive => Shape::Two,
            Property::AuthMethod => Shape::Text,
            Property::AuthData => Shape::Binary,
            Property::RequestProblemInfo => Shape::Byte,
            Property::WillDelayInterval => Shape::Four,
            Property::RequestResponseInfo => Shape::Byte,
            Property::ResponseInfo => Shape::Text,
            Property::ServerReference => Shape::Text,
            Property::ReasonString => Shape::Text,
            Property::ReceiveMaximum => Shape::Two,
            Property::TopicAliasMax => Shape::Two,
            Property::TopicAlias => Shape::Two,
            Property::MaximumQoS => Shape::Byte,
            Property::RetainAvailable => Shape::Byte,
            Property::UserProperty => Shape::Pair,
            Property::MaxPacketSize => Shape::Four,
            Property::WildcardSubAvailable => Shape::Byte,
            Property::SubIdentifierAvailable => Shape::Byte,
            Property::SharedSubAvailable => Shape::Byte,
        }
    }

}

pub proof fn lemma_property_byte_round_trip(v: Property)
    ensures
        Property::spec_from_byte(v.spec_byte()) == Some(v),
{
}
} // verus!
