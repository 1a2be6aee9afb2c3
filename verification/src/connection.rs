//! The rules of one client connection, as a state machine.
//!
//! The transport reads bytes, decodes them and hands each result to the
//! connection as an event; the connection answers with the packets to send
//! back, the message to pass on to the extensions, and whether to go on. It
//! does no reading or writing of its own.

use vstd::prelude::*;
use crate::common::{ZinkError, ZinkMessage, ZinkMessageModel};
use crate::error::DecodeError;
use crate::format::{encodable, encode_filters};
use crate::packet::{
    filters_view, ConnectReturnCode, FilterModel, Packet, PacketModel, PublishModel, QoS,
    SubscribeReturnCode,
};

verus! {

/// Where a connection stands.
#[derive(Clone, Copy, Debug, PartialEq, Eq, Structural)]
pub enum ConnectionState {
    /// Nothing was received yet: only a CONNECT is welcome.
    AwaitingConnect,
    /// The handshake is done.
    Connected,
    /// The connection is over; nothing is read or written any more.
    Closed,
}

/// What the transport found when it tried to read the next packet.
#[derive(Clone, Debug, PartialEq, Eq)]
pub enum Event {
    Packet(Packet),
    DecodeError(DecodeError),
    IoError,
}

/// The model of an `Event`.
pub enum EventModel {
    Packet(PacketModel),
    DecodeError(DecodeError),
    IoError,
}

impl View for Event {
    type V = EventModel;

    open spec fn view(&self) -> EventModel {
        match self {
            Event::Packet(p) => EventModel::Packet(p@),
            Event::DecodeError(e) => EventModel::DecodeError(*e),
            Event::IoError => EventModel::IoError,
        }
    }
}

/// Whether the connection goes on after an event.
#[derive(Clone, Copy, Debug, PartialEq, Eq, Structural)]
pub enum Verdict {
    /// Read the next packet.
    Continue,
    /// The connection ended in good order.
    Shutdown,
    /// The connection was closed for this reason.
    Failure(ZinkError),
}

/// What the transport has to do after an event: send `replies` in order,
/// then hand `delivery` to the extensions, then follow `verdict`.
#[derive(Clone, Debug, PartialEq, Eq)]
pub struct Reaction {
    pub replies: Vec<Packet>,
    pub delivery: Option<ZinkMessage>,
    pub verdict: Verdict,
}

/// The model of a `Reaction`.
pub struct ReactionModel {
    pub replies: Seq<PacketModel>,
    pub delivery: Option<ZinkMessageModel>,
    pub verdict: Verdict,
}

/// The models of a list of packets, in the list's order.
pub open spec fn packets_view(packets: Seq<Packet>) -> Seq<PacketModel> {
    Seq::new(packets.len(), |i: int| packets[i]@)
}

/// The model of a message that may be absent.
pub open spec fn optional_message_view(message: Option<ZinkMessage>) -> Option<ZinkMessageModel> {
    match message {
        Some(m) => Some(m@),
        None => None,
    }
}

impl View for Reaction {
    type V = ReactionModel;

    open spec fn view(&self) -> ReactionModel {
        ReactionModel {
            replies: packets_view(self.replies@),
            delivery: optional_message_view(self.delivery),
            verdict: self.verdict,
        }
    }
}

/// The level granted for a requested one: the lower of the request and
/// `AtLeastOnce`, the highest level this broker delivers at.
pub open spec fn granted(requested: QoS) -> SubscribeReturnCode {
    match requested {
        QoS::AtMostOnce => SubscribeReturnCode::MaxQoS0,
        QoS::AtLeastOnce => SubscribeReturnCode::MaxQoS1,
        QoS::ExactlyOnce => SubscribeReturnCode::MaxQoS1,
    }
}

/// The return codes of the SUBACK that answers a SUBSCRIBE with these
/// filters: one per filter, in the order of the request.
pub open spec fn grants(filters: Seq<FilterModel>) -> Seq<SubscribeReturnCode> {
    Seq::new(filters.len(), |i: int| granted(filters[i].1))
}

/// The acknowledgment a PUBLISH asks for: none at `AtMostOnce`, a PUBACK at
/// `AtLeastOnce`, a PUBREC at `ExactlyOnce`, with the packet identifier of
/// the PUBLISH. A PUBLISH without identifier cannot be acknowledged.
pub open spec fn publish_acks(m: PublishModel) -> Seq<PacketModel> {
    match (m.qos, m.packet_id) {
        (QoS::AtLeastOnce, Some(packet_id)) => seq![PacketModel::Puback { packet_id }],
        (QoS::ExactlyOnce, Some(packet_id)) => seq![PacketModel::Pubrec { packet_id }],
        _ => Seq::empty(),
    }
}

/// Nothing to send, nothing to pass on.
pub open spec fn silent(verdict: Verdict) -> ReactionModel {
    ReactionModel { replies: Seq::empty(), delivery: None, verdict }
}

/// One packet to send, and on to the next event.
pub open spec fn reply(packet: PacketModel) -> ReactionModel {
    ReactionModel { replies: seq![packet], delivery: None, verdict: Verdict::Continue }
}

/// The packets a connected client may send: SUBSCRIBE, PINGREQ, PUBLISH,
/// PUBREL and DISCONNECT. A second CONNECT is not among them, nor is any
/// packet that answers one the broker never sends.
pub open spec fn expected_when_connected(p: PacketModel) -> bool {
    p is Subscribe || p is Pingreq || p is Publish || p is Pubrel || p is Disconnect
}

/// What a connected client's packet leads to: the answer to a packet that is
/// expected, and for any other the end of the connection as a protocol
/// error, with nothing sent and nothing passed on.
pub open spec fn react_connected(p: PacketModel) -> (ConnectionState, ReactionModel) {
    match p {
        PacketModel::Disconnect => (ConnectionState::Closed, silent(Verdict::Shutdown)),
        PacketModel::Subscribe { packet_id, filters } => (
            ConnectionState::Connected,
            reply(PacketModel::Suback { packet_id, return_codes: grants(filters) }),
        ),
        PacketModel::Pingreq => (ConnectionState::Connected, reply(PacketModel::Pingresp)),
        PacketModel::Pubrel { packet_id } => (
            ConnectionState::Connected,
            reply(PacketModel::Pubcomp { packet_id }),
        ),
        PacketModel::Publish(m) => (
            ConnectionState::Connected,
            ReactionModel {
                replies: publish_acks(m),
                delivery: Some(ZinkMessageModel { path: m.topic, payload: m.payload }),
                verdict: Verdict::Continue,
            },
        ),
        _ => (ConnectionState::Closed, silent(Verdict::Failure(ZinkError::ProtocolError))),
    }
}

/// The state machine: the state after an event, and what the transport has
/// to do.
///
/// Before the handshake only a CONNECT is accepted, and answered with a
/// CONNACK; anything else closes the connection as `NotMqttConnect`. After
/// it, SUBSCRIBE, PINGREQ, PUBREL and PUBLISH get their answers, DISCONNECT
/// ends the connection in good order, a failure of the decoder or of the
/// transport closes it with that failure, and any other packet closes it as
/// a `ProtocolError`. A closed connection stays closed and asks for nothing.
pub open spec fn react(state: ConnectionState, event: EventModel) -> (
    ConnectionState,
    ReactionModel,
) {
    match state {
        ConnectionState::AwaitingConnect => match event {
            EventModel::Packet(PacketModel::Connect(_)) => (
                ConnectionState::Connected,
                reply(
                    PacketModel::Connack {
                        session_present: false,
                        return_code: ConnectReturnCode::Accepted,
                    },
                ),
            ),
            _ => (
                ConnectionState::Closed,
                silent(Verdict::Failure(ZinkError::NotMqttConnect)),
            ),
        },
        ConnectionState::Connected => match event {
            EventModel::Packet(p) => react_connected(p),
            EventModel::DecodeError(e) => (
                ConnectionState::Closed,
                silent(Verdict::Failure(ZinkError::Mqtt(e))),
            ),
            EventModel::IoError => (
                ConnectionState::Closed,
                silent(Verdict::Failure(ZinkError::Io)),
            ),
        },
        ConnectionState::Closed => (ConnectionState::Closed, silent(Verdict::Shutdown)),
    }
}

/// The return code for one requested filter.
pub fn sub_to_ack(subscription: &(String, QoS)) -> (code: SubscribeReturnCode)
    ensures
        code == granted(subscription.1),
{
    match subscription.1 {
        QoS::AtMostOnce => SubscribeReturnCode::MaxQoS0,
        QoS::AtLeastOnce => SubscribeReturnCode::MaxQoS1,
        QoS::ExactlyOnce => SubscribeReturnCode::MaxQoS1,
    }
}

fn subscription_acks(filters: &Vec<(String, QoS)>) -> (codes: Vec<SubscribeReturnCode>)
    ensures
        codes@ == grants(filters_view(filters@)),
{
    let mut codes: Vec<SubscribeReturnCode> = Vec::new();
    let mut i: usize = 0;
    while i < filters.len()
        invariant
            i <= filters.len(),
            codes@ == grants(filters_view(filters@)).take(i as int),
        decreases filters.len() - i,
    {
        codes.push(sub_to_ack(&filters[i]));
        assert(codes@ =~= grants(filters_view(filters@)).take(i + 1));
        i = i + 1;
    }
    assert(codes@ =~= grants(filters_view(filters@)));
    codes
}

fn quiet(verdict: Verdict) -> (reaction: Reaction)
    ensures
        reaction@ == silent(verdict),
{
    let reaction = Reaction { replies: Vec::new(), delivery: None, verdict };
    assert(packets_view(reaction.replies@) =~= Seq::empty());
    reaction
}

fn answer(packet: Packet) -> (reaction: Reaction)
    ensures
        reaction@ == reply(packet@),
{
    let mut replies: Vec<Packet> = Vec::new();
    replies.push(packet);
    assert(packets_view(replies@) =~= seq![packet@]);
    Reaction { replies, delivery: None, verdict: Verdict::Continue }
}

fn acknowledge(qos: QoS, packet_id: Option<u16>) -> (replies: Vec<Packet>)
    ensures
        packets_view(replies@) == match (qos, packet_id) {
            (QoS::AtLeastOnce, Some(packet_id)) => seq![PacketModel::Puback { packet_id }],
            (QoS::ExactlyOnce, Some(packet_id)) => seq![PacketModel::Pubrec { packet_id }],
            _ => Seq::empty(),
        },
{
    let mut replies: Vec<Packet> = Vec::new();
    match (qos, packet_id) {
        (QoS::AtLeastOnce, Some(packet_id)) => {
            replies.push(Packet::Puback { packet_id });
            assert(packets_view(replies@) =~= seq![PacketModel::Puback { packet_id }]);
        },
        (QoS::ExactlyOnce, Some(packet_id)) => {
            replies.push(Packet::Pubrec { packet_id });
            assert(packets_view(replies@) =~= seq![PacketModel::Pubrec { packet_id }]);
        },
        _ => {
            assert(packets_view(replies@) =~= Seq::empty());
        },
    }
    replies
}

/// One client connection.
pub struct Connection {
    state: ConnectionState,
}

impl View for Connection {
    type V = ConnectionState;

    closed spec fn view(&self) -> ConnectionState {
        self.state
    }
}

impl Connection {
    /// A connection on which nothing was received yet.
    pub fn new() -> (connection: Connection)
        ensures
            connection@ == ConnectionState::AwaitingConnect,
    {
        Connection { state: ConnectionState::AwaitingConnect }
    }

    pub fn state(&self) -> (state: ConnectionState)
        ensures
            state == self@,
    {
        self.state
    }

    /// Takes the next event and says what to do about it.
    pub fn handle(&mut self, event: Event) -> (reaction: Reaction)
        ensures
            (final(self)@, reaction@) == react(old(self)@, event@),
    {
        match self.state {
            ConnectionState::AwaitingConnect => match event {
                Event::Packet(Packet::Connect(_)) => {
                    self.state = ConnectionState::Connected;
                    answer(
                        Packet::Connack {
                            session_present: false,
                            return_code: ConnectReturnCode::Accepted,
                        },
                    )
                },
                _ => {
                    self.state = ConnectionState::Closed;
                    quiet(Verdict::Failure(ZinkError::NotMqttConnect))
                },
            },
            ConnectionState::Connected => match event {
                Event::Packet(packet) => self.handle_connected(packet),
                Event::DecodeError(e) => {
                    self.state = ConnectionState::Closed;
                    quiet(Verdict::Failure(ZinkError::Mqtt(e)))
                },
                Event::IoError => {
                    self.state = ConnectionState::Closed;
                    quiet(Verdict::Failure(ZinkError::Io))
                },
            },
            ConnectionState::Closed => quiet(Verdict::Shutdown),
        }
    }

    fn handle_connected(&mut self, packet: Packet) -> (reaction: Reaction)
        requires
            old(self)@ == ConnectionState::Connected,
        ensures
            (final(self)@, reaction@) == react_connected(packet@),
    {
        match packet {
            Packet::Disconnect => {
                self.state = ConnectionState::Closed;
                quiet(Verdict::Shutdown)
            },
            Packet::Subscribe { packet_id, filters } => {
                let return_codes = subscription_acks(&filters);
                answer(Packet::Suback { packet_id, return_codes })
            },
            Packet::Pingreq => answer(Packet::Pingresp),
            Packet::Pubrel { packet_id } => answer(Packet::Pubcomp { packet_id }),
            Packet::Publish(publish) => {
                let replies = acknowledge(publish.qos, publish.packet_id);
                Reaction {
                    replies,
                    delivery: Some(ZinkMessage { path: publish.topic, payload: publish.payload }),
                    verdict: Verdict::Continue,
                }
            },
            _ => {
                self.state = ConnectionState::Closed;
                quiet(Verdict::Failure(ZinkError::ProtocolError))
            },
        }
    }
}

// ------------------------------------------------------------------ laws
/// Handshake: whatever but a CONNECT comes first, the connection is closed
/// as `NotMqttConnect` and nothing is sent, no SUBACK and no other packet.
pub proof fn law_handshake(event: EventModel)
    requires
        !(event matches EventModel::Packet(PacketModel::Connect(_))),
    ensures
        react(ConnectionState::AwaitingConnect, event) == (
            ConnectionState::Closed,
            silent(Verdict::Failure(ZinkError::NotMqttConnect)),
        ),
        react(ConnectionState::AwaitingConnect, event).1.replies.len() == 0,
{
}

/// A CONNECT that comes first is answered with exactly one CONNACK, which
/// accepts the connection and announces no stored session.
pub proof fn law_connect_accepted(connect: PacketModel)
    requires
        connect is Connect,
    ensures
        react(ConnectionState::AwaitingConnect, EventModel::Packet(connect)) == (
            ConnectionState::Connected,
            reply(
                PacketModel::Connack {
                    session_present: false,
                    return_code: ConnectReturnCode::Accepted,
                },
            ),
        ),
{
}

/// QoS acknowledgment: a PUBLISH at `AtLeastOnce` is answered with exactly
/// one PUBACK, one at `ExactlyOnce` with exactly one PUBREC, and a PUBREL
/// with exactly one PUBCOMP, each with the packet identifier received; a
/// PUBLISH at `AtMostOnce` is answered with nothing. The connection stays
/// open, and every PUBLISH is passed on with its topic and payload.
pub proof fn law_publish_acknowledged(m: PublishModel, packet_id: u16)
    ensures
        m.qos == QoS::AtLeastOnce && m.packet_id == Some(packet_id) ==> react(
            ConnectionState::Connected,
            EventModel::Packet(PacketModel::Publish(m)),
        ).1.replies == seq![PacketModel::Puback { packet_id }],
        m.qos == QoS::ExactlyOnce && m.packet_id == Some(packet_id) ==> react(
            ConnectionState::Connected,
            EventModel::Packet(PacketModel::Publish(m)),
        ).1.replies == seq![PacketModel::Pubrec { packet_id }],
        m.qos == QoS::AtMostOnce ==> react(
            ConnectionState::Connected,
            EventModel::Packet(PacketModel::Publish(m)),
        ).1.replies == Seq::<PacketModel>::empty(),
        react(
            ConnectionState::Connected,
            EventModel::Packet(PacketModel::Pubrel { packet_id }),
        ) == (ConnectionState::Connected, reply(PacketModel::Pubcomp { packet_id })),
        react(ConnectionState::Connected, EventModel::Packet(PacketModel::Publish(m))).0
            == ConnectionState::Connected,
        react(ConnectionState::Connected, EventModel::Packet(PacketModel::Publish(m))).1.delivery
            == Some(ZinkMessageModel { path: m.topic, payload: m.payload }),
{
}

/// SUBACK: a SUBSCRIBE is answered with exactly one SUBACK of the same
/// packet identifier, with one return code per requested filter, in the
/// order of the request; a request for `ExactlyOnce` is granted
/// `AtLeastOnce`, any other is granted as asked.
pub proof fn law_suback_follows_subscribe(packet_id: u16, filters: Seq<FilterModel>)
    ensures
        react(
            ConnectionState::Connected,
            EventModel::Packet(PacketModel::Subscribe { packet_id, filters }),
        ) == (
            ConnectionState::Connected,
            reply(PacketModel::Suback { packet_id, return_codes: grants(filters) }),
        ),
        grants(filters).len() == filters.len(),
        forall|i: int|
            0 <= i < filters.len() ==> #[trigger] grants(filters)[i] == (match filters[i].1 {
                QoS::AtMostOnce => SubscribeReturnCode::MaxQoS0,
                _ => SubscribeReturnCode::MaxQoS1,
            }),
{
}

/// Sequence: a connected client's packet that is not expected on an open
/// connection closes the connection as a `ProtocolError`; it is not answered
/// and nothing is passed on. A second CONNECT is such a packet: a connection
/// takes exactly one.
pub proof fn law_unexpected_packet_closes(p: PacketModel)
    ensures
        !expected_when_connected(p) ==> react(ConnectionState::Connected, EventModel::Packet(p))
            == (
            ConnectionState::Closed,
            silent(Verdict::Failure(ZinkError::ProtocolError)),
        ),
        p is Connect ==> !expected_when_connected(p),
        expected_when_connected(p) ==> !(react(
            ConnectionState::Connected,
            EventModel::Packet(p),
        ).1.verdict is Failure),
{
}

/// Closed is terminal: a closed connection stays closed, sends nothing and
/// passes nothing on, whatever it is handed.
pub proof fn law_closed_is_terminal(event: EventModel)
    ensures
        react(ConnectionState::Closed, event).0 == ConnectionState::Closed,
        react(ConnectionState::Closed, event).1.replies.len() == 0,
        react(ConnectionState::Closed, event).1.delivery is None,
{
}

/// The reactions to a run of events, in their order, on a connection that
/// starts out in `state`.
pub open spec fn run(state: ConnectionState, events: Seq<EventModel>) -> Seq<ReactionModel>
    decreases events.len(),
{
    if events.len() == 0 {
        Seq::empty()
    } else {
        seq![react(state, events[0]).1] + run(react(state, events[0]).0, events.drop_first())
    }
}

/// Closed for good: on a closed connection no run of events leads to a
/// packet sent or a message passed on.
pub proof fn law_closed_for_good(events: Seq<EventModel>)
    ensures
        forall|i: int|
            0 <= i < run(ConnectionState::Closed, events).len() ==> (#[trigger] run(
                ConnectionState::Closed,
                events,
            )[i]) == silent(Verdict::Shutdown),
    decreases events.len(),
{
    if events.len() > 0 {
        law_closed_for_good(events.drop_first());
    }
}

/// Handshake, over the life of a connection: when whatever comes first is no
/// CONNECT, nothing is ever sent and nothing is ever passed on, whatever
/// comes after it: not even a CONNECT that comes late is answered.
pub proof fn law_no_answer_without_connect(events: Seq<EventModel>)
    requires
        events.len() > 0,
        !(events[0] matches EventModel::Packet(PacketModel::Connect(_))),
    ensures
        forall|i: int|
            0 <= i < run(ConnectionState::AwaitingConnect, events).len() ==> (#[trigger] run(
                ConnectionState::AwaitingConnect,
                events,
            )[i]).replies.len() == 0 && run(ConnectionState::AwaitingConnect, events)[i].delivery
                is None,
{
    law_closed_for_good(events.drop_first());
}

/// Exactly one CONNECT: on a connected client a second CONNECT closes the
/// connection as a `ProtocolError`; it is not answered, and nothing that
/// comes behind it is answered or passed on.
pub proof fn law_one_connect(second: PacketModel, rest: Seq<EventModel>)
    requires
        second is Connect,
    ensures
        ({
            let reactions = run(
                ConnectionState::Connected,
                seq![EventModel::Packet(second)] + rest,
            );
            &&& reactions[0] == silent(Verdict::Failure(ZinkError::ProtocolError))
            &&& forall|i: int|
                0 <= i < reactions.len() ==> (#[trigger] reactions[i]).replies.len() == 0
                    && reactions[i].delivery is None
        }),
{
    let events = seq![EventModel::Packet(second)] + rest;
    assert(events.drop_first() =~= rest);
    law_closed_for_good(rest);
}

proof fn lemma_filters_take_room(filters: Seq<FilterModel>)
    ensures
        encode_filters(filters).len() >= filters.len(),
    decreases filters.len(),
{
    if filters.len() > 0 {
        lemma_filters_take_room(filters.drop_first());
    }
}

/// Every answer can be written: what is sent back for a packet that has an
/// encoding, as every packet read off the wire has, has an encoding too.
pub proof fn law_replies_can_be_written(state: ConnectionState, p: PacketModel)
    requires
        encodable(p),
    ensures
        forall|i: int|
            0 <= i < react(state, EventModel::Packet(p)).1.replies.len() ==> encodable(
                #[trigger] react(state, EventModel::Packet(p)).1.replies[i],
            ),
{
    let replies = react(state, EventModel::Packet(p)).1.replies;
    assert forall|i: int| 0 <= i < replies.len() implies encodable(#[trigger] replies[i]) by {
        if let PacketModel::Subscribe { packet_id, filters } = p {
            lemma_filters_take_room(filters);
        }
    }
}

/// Failures close the connection and are never acknowledged: whenever a
/// reaction's verdict is a failure, the connection is closed and nothing is
/// sent or passed on.
pub proof fn law_failure_closes(state: ConnectionState, event: EventModel)
    requires
        react(state, event).1.verdict is Failure,
    ensures
        react(state, event).0 == ConnectionState::Closed,
        react(state, event).1.replies.len() == 0,
        react(state, event).1.delivery is None,
{
}

} // verus!
