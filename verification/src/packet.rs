//! The MQTT control packets this broker speaks, and their mathematical models.
//!
//! Every executable type that owns a `String` or a `Vec` has a model made of
//! `Seq`s; the wire format and the connection rules are stated over the models.

use vstd::prelude::*;

verus! {

/// Delivery guarantee attached to a PUBLISH, or asked for by a SUBSCRIBE.
#[derive(Clone, Copy, Debug, PartialEq, Eq, Structural)]
pub enum QoS {
    AtMostOnce,
    AtLeastOnce,
    ExactlyOnce,
}

impl QoS {
    /// The number that stands for this level on the wire.
    pub open spec fn level(self) -> u8 {
        match self {
            QoS::AtMostOnce => 0,
            QoS::AtLeastOnce => 1,
            QoS::ExactlyOnce => 2,
        }
    }

    /// The level that a wire number stands for; numbers above 2 stand for none.
    pub open spec fn of_level(level: u8) -> Option<QoS> {
        if level == 0 {
            Some(QoS::AtMostOnce)
        } else if level == 1 {
            Some(QoS::AtLeastOnce)
        } else if level == 2 {
            Some(QoS::ExactlyOnce)
        } else {
            None
        }
    }

    pub fn to_u8(self) -> (level: u8)
        ensures
            level == self.level(),
    {
        match self {
            QoS::AtMostOnce => 0,
            QoS::AtLeastOnce => 1,
            QoS::ExactlyOnce => 2,
        }
    }

    pub fn from_u8(level: u8) -> (qos: Option<QoS>)
        ensures
            qos == QoS::of_level(level),
    {
        if level == 0 {
            Some(QoS::AtMostOnce)
        } else if level == 1 {
            Some(QoS::AtLeastOnce)
        } else if level == 2 {
            Some(QoS::ExactlyOnce)
        } else {
            None
        }
    }
}

/// The broker's answer to a CONNECT.
#[derive(Clone, Copy, Debug, PartialEq, Eq, Structural)]
pub enum ConnectReturnCode {
    Accepted,
    UnacceptableProtocolVersion,
    IdentifierRejected,
    ServiceUnavailable,
    BadUserNameOrPassword,
    NotAuthorized,
}

impl ConnectReturnCode {
    /// The byte that stands for this return code on the wire.
    pub open spec fn code(self) -> u8 {
        match self {
            ConnectReturnCode::Accepted => 0,
            ConnectReturnCode::UnacceptableProtocolVersion => 1,
            ConnectReturnCode::IdentifierRejected => 2,
            ConnectReturnCode::ServiceUnavailable => 3,
            ConnectReturnCode::BadUserNameOrPassword => 4,
            ConnectReturnCode::NotAuthorized => 5,
        }
    }

    /// The return code that a wire byte stands for; bytes above 5 are reserved.
    pub open spec fn of_code(code: u8) -> Option<ConnectReturnCode> {
        if code == 0 {
            Some(ConnectReturnCode::Accepted)
        } else if code == 1 {
            Some(ConnectReturnCode::UnacceptableProtocolVersion)
        } else if code == 2 {
            Some(ConnectReturnCode::IdentifierRejected)
        } else if code == 3 {
            Some(ConnectReturnCode::ServiceUnavailable)
        } else if code == 4 {
            Some(ConnectReturnCode::BadUserNameOrPassword)
        } else if code == 5 {
            Some(ConnectReturnCode::NotAuthorized)
        } else {
            None
        }
    }

    pub fn to_u8(self) -> (code: u8)
        ensures
            code == self.code(),
    {
        match self {
            ConnectReturnCode::Accepted => 0,
            ConnectReturnCode::UnacceptableProtocolVersion => 1,
            ConnectReturnCode::IdentifierRejected => 2,
            ConnectReturnCode::ServiceUnavailable => 3,
            ConnectReturnCode::BadUserNameOrPassword => 4,
            ConnectReturnCode::NotAuthorized => 5,
        }
    }

    pub fn from_u8(code: u8) -> (r: Option<ConnectReturnCode>)
        ensures
            r == ConnectReturnCode::of_code(code),
    {
        if code == 0 {
            Some(ConnectReturnCode::Accepted)
        } else if code == 1 {
            Some(ConnectReturnCode::UnacceptableProtocolVersion)
        } else if code == 2 {
            Some(ConnectReturnCode::IdentifierRejected)
        } else if code == 3 {
            Some(ConnectReturnCode::ServiceUnavailable)
        } else if code == 4 {
            Some(ConnectReturnCode::BadUserNameOrPassword)
        } else if code == 5 {
            Some(ConnectReturnCode::NotAuthorized)
        } else {
            None
        }
    }
}

/// What a SUBACK says of one requested topic filter.
#[derive(Clone, Copy, Debug, PartialEq, Eq, Structural)]
pub enum SubscribeReturnCode {
    MaxQoS0,
    MaxQoS1,
    MaxQoS2,
    Failure,
}

impl SubscribeReturnCode {
    /// The byte that stands for this return code on the wire.
    pub open spec fn code(self) -> u8 {
        match self {
            SubscribeReturnCode::MaxQoS0 => 0,
            SubscribeReturnCode::MaxQoS1 => 1,
            SubscribeReturnCode::MaxQoS2 => 2,
            SubscribeReturnCode::Failure => 0x80,
        }
    }

    /// The return code that a wire byte stands for: 0, 1, 2 or 0x80.
    pub open spec fn of_code(code: u8) -> Option<SubscribeReturnCode> {
        if code == 0 {
            Some(SubscribeReturnCode::MaxQoS0)
        } else if code == 1 {
            Some(SubscribeReturnCode::MaxQoS1)
        } else if code == 2 {
            Some(SubscribeReturnCode::MaxQoS2)
        } else if code == 0x80 {
            Some(SubscribeReturnCode::Failure)
        } else {
            None
        }
    }

    pub fn to_u8(self) -> (code: u8)
        ensures
            code == self.code(),
    {
        match self {
            SubscribeReturnCode::MaxQoS0 => 0,
            SubscribeReturnCode::MaxQoS1 => 1,
            SubscribeReturnCode::MaxQoS2 => 2,
            SubscribeReturnCode::Failure => 0x80,
        }
    }

    pub fn from_u8(code: u8) -> (r: Option<SubscribeReturnCode>)
        ensures
            r == SubscribeReturnCode::of_code(code),
    {
        if code == 0 {
            Some(SubscribeReturnCode::MaxQoS0)
        } else if code == 1 {
            Some(SubscribeReturnCode::MaxQoS1)
        } else if code == 2 {
            Some(SubscribeReturnCode::MaxQoS2)
        } else if code == 0x80 {
            Some(SubscribeReturnCode::Failure)
        } else {
            None
        }
    }
}

/// The message a client asks the broker to publish should it vanish.
#[derive(Clone, Debug, PartialEq, Eq)]
pub struct Will {
    pub topic: String,
    pub message: Vec<u8>,
    pub qos: QoS,
    pub retain: bool,
}

/// The model of a `Will`.
pub struct WillModel {
    pub topic: Seq<char>,
    pub message: Seq<u8>,
    pub qos: QoS,
    pub retain: bool,
}

impl View for Will {
    type V = WillModel;

    open spec fn view(&self) -> WillModel {
        WillModel {
            topic: self.topic@,
            message: self.message@,
            qos: self.qos,
            retain: self.retain,
        }
    }
}

/// The model of a will that may be absent.
pub open spec fn optional_will_view(will: Option<Will>) -> Option<WillModel> {
    match will {
        Some(w) => Some(w@),
        None => None,
    }
}

/// The model of a text that may be absent.
pub open spec fn optional_text_view(text: Option<String>) -> Option<Seq<char>> {
    match text {
        Some(t) => Some(t@),
        None => None,
    }
}

/// The model of a block of bytes that may be absent.
pub open spec fn optional_block_view(data: Option<Vec<u8>>) -> Option<Seq<u8>> {
    match data {
        Some(d) => Some(d@),
        None => None,
    }
}

/// The fields of a CONNECT packet. Its flag byte is not stored: it follows
/// from `clean_session` and from which of the optional fields are present.
#[derive(Clone, Debug, PartialEq, Eq)]
pub struct Connect {
    pub protocol_name: String,
    pub protocol_level: u8,
    pub clean_session: bool,
    pub keep_alive: u16,
    pub client_id: String,
    pub will: Option<Will>,
    pub username: Option<String>,
    pub password: Option<Vec<u8>>,
}

/// The model of a `Connect`.
pub struct ConnectModel {
    pub protocol_name: Seq<char>,
    pub protocol_level: u8,
    pub clean_session: bool,
    pub keep_alive: u16,
    pub client_id: Seq<char>,
    pub will: Option<WillModel>,
    pub username: Option<Seq<char>>,
    pub password: Option<Seq<u8>>,
}

impl View for Connect {
    type V = ConnectModel;

    open spec fn view(&self) -> ConnectModel {
        ConnectModel {
            protocol_name: self.protocol_name@,
            protocol_level: self.protocol_level,
            clean_session: self.clean_session,
            keep_alive: self.keep_alive,
            client_id: self.client_id@,
            will: optional_will_view(self.will),
            username: optional_text_view(self.username),
            password: optional_block_view(self.password),
        }
    }
}

/// The fields of a PUBLISH packet.
#[derive(Clone, Debug, PartialEq, Eq)]
pub struct Publish {
    pub dup: bool,
    pub qos: QoS,
    pub retain: bool,
    pub topic: String,
    /// Present exactly when `qos` is above `AtMostOnce`.
    pub packet_id: Option<u16>,
    pub payload: Vec<u8>,
}

/// The model of a `Publish`.
pub struct PublishModel {
    pub dup: bool,
    pub qos: QoS,
    pub retain: bool,
    pub topic: Seq<char>,
    pub packet_id: Option<u16>,
    pub payload: Seq<u8>,
}

impl View for Publish {
    type V = PublishModel;

    open spec fn view(&self) -> PublishModel {
        PublishModel {
            dup: self.dup,
            qos: self.qos,
            retain: self.retain,
            topic: self.topic@,
            packet_id: self.packet_id,
            payload: self.payload@,
        }
    }
}

/// One topic filter of a SUBSCRIBE with the level asked for, as a model.
pub type FilterModel = (Seq<char>, QoS);

/// The models of a list of topic filters, in the list's order.
pub open spec fn filters_view(filters: Seq<(String, QoS)>) -> Seq<FilterModel> {
    Seq::new(filters.len(), |i: int| (filters[i].0@, filters[i].1))
}

/// A control packet.
#[derive(Clone, Debug, PartialEq, Eq)]
pub enum Packet {
    Connect(Connect),
    Connack { session_present: bool, return_code: ConnectReturnCode },
    Publish(Publish),
    Puback { packet_id: u16 },
    Pubrec { packet_id: u16 },
    Pubrel { packet_id: u16 },
    Pubcomp { packet_id: u16 },
    Subscribe { packet_id: u16, filters: Vec<(String, QoS)> },
    Suback { packet_id: u16, return_codes: Vec<SubscribeReturnCode> },
    Pingreq,
    Pingresp,
    Disconnect,
}

/// The model of a `Packet`.
pub enum PacketModel {
    Connect(ConnectModel),
    Connack { session_present: bool, return_code: ConnectReturnCode },
    Publish(PublishModel),
    Puback { packet_id: u16 },
    Pubrec { packet_id: u16 },
    Pubrel { packet_id: u16 },
    Pubcomp { packet_id: u16 },
    Subscribe { packet_id: u16, filters: Seq<FilterModel> },
    Suback { packet_id: u16, return_codes: Seq<SubscribeReturnCode> },
    Pingreq,
    Pingresp,
    Disconnect,
}

impl View for Packet {
    type V = PacketModel;

    open spec fn view(&self) -> PacketModel {
        match self {
            Packet::Connect(c) => PacketModel::Connect(c@),
            Packet::Connack { session_present, return_code } => PacketModel::Connack {
                session_present: *session_present,
                return_code: *return_code,
            },
            Packet::Publish(p) => PacketModel::Publish(p@),
            Packet::Puback { packet_id } => PacketModel::Puback { packet_id: *packet_id },
            Packet::Pubrec { packet_id } => PacketModel::Pubrec { packet_id: *packet_id },
            Packet::Pubrel { packet_id } => PacketModel::Pubrel { packet_id: *packet_id },
            Packet::Pubcomp { packet_id } => PacketModel::Pubcomp { packet_id: *packet_id },
            Packet::Subscribe { packet_id, filters } => PacketModel::Subscribe {
                packet_id: *packet_id,
                filters: filters_view(filters@),
            },
            Packet::Suback { packet_id, return_codes } => PacketModel::Suback {
                packet_id: *packet_id,
                return_codes: return_codes@,
            },
            Packet::Pingreq => PacketModel::Pingreq,
            Packet::Pingresp => PacketModel::Pingresp,
            Packet::Disconnect => PacketModel::Disconnect,
        }
    }
}

} // verus!
