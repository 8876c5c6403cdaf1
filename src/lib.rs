use vstd::prelude::*;

pub mod ack;
pub mod codec;
pub mod connack;
pub mod connect;
pub mod disconnect;
pub mod error;
pub mod hook;
pub mod kinds;
pub mod link;
pub mod mqtt;
pub mod packet;
pub mod pingreq;
pub mod pingresp;
pub mod property;
pub mod publish;
pub mod subscribe;

pub use ack::{
    PubAck, PubAckProperties, PubComp, PubCompProperties, PubRec, PubRecProperties, PubRel,
    PubRelProperties,
};
pub use codec::{read_length, write_length};
pub use connack::{ConnAck, ConnAckProperties};
pub use connect::{Connect, ConnectProperties, WillProperties};
pub use disconnect::{Auth, AuthProperties, Disconnect, DisconnectProperties};
pub use hook::passes;
pub use kinds::{PacketType, Property, QoS, ReasonCode, RetainHandling, Version};
pub use mqtt::{Listen, Mqtt};
pub use link::{frame, keepalive_secs, read_packet, reply, Action, Error, Frame, ReadStep, Session};
pub use packet::{decode_packet, write_packet, Packet};
pub use publish::{Publish, PublishProperties};
pub use subscribe::{
    SubAck, SubAckProperties, Subscribe, SubscribeProperties, Subscription, UnsubAck,
    UnsubAckProperties, Unsubscribe, UnsubscribeProperties,
};

verus! {

} // verus!
