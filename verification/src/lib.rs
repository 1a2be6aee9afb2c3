//! A minimal MQTT broker core: the wire codec, the per-connection state
//! machine and the topic-based dispatch to pluggable extensions.
//!
//! The library does no input or output. A transport appends the bytes it
//! reads to a buffer and asks the [`Connection`] to serve it
//! ([`Connection::serve`]): the connection takes the next packet off the
//! buffer ([`decode`]), reacts to it ([`Connection::handle`]) and answers
//! with the bytes to write ([`encode`]) and the message to pass on. The
//! transport writes the bytes and hands the message to the [`Application`],
//! which dispatches it to the [`Extension`]s registered under the topic's
//! routable path.
//!
//! * [`packet`], [`error`]: the control packets and their models.
//! * [`format`]: the wire format, as functions on byte sequences;
//!   [`varint`], [`wire`], [`bits`]: the fields it is made of.
//! * [`encode`](mod@encode), [`decode`](mod@decode), [`mqtt_codec`]: the
//!   codec, proved against the format.
//! * [`laws`], [`canon`]: what holds of the format.
//! * [`connection`], [`common`]: the rules of a connection;
//!   [`session`]: codec and connection put together.
//! * [`topic`], [`application`]: topic paths and the extension registry.
//! * [`json`], [`csv_data_processor`], [`influxdb_data_processor`]: the rules
//!   of the two extensions that come with the broker.
//! * [`mqtt_proto`], [`kp_service`]: pieces of a framed transport.

pub mod application;
pub mod bits;
pub mod canon;
pub mod common;
pub mod connection;
pub mod csv_data_processor;
pub mod decode;
pub mod encode;
pub mod error;
pub mod format;
pub mod influxdb_data_processor;
pub mod json;
pub mod kp_service;
pub mod laws;
pub mod mqtt_codec;
pub mod mqtt_proto;
pub mod packet;
pub mod session;
pub mod topic;
pub mod varint;
pub mod wire;

pub use application::{Application, Extension};
pub use common::{ZinkError, ZinkMessage};
pub use connection::{Connection, ConnectionState, Event, Reaction, Verdict};
pub use csv_data_processor::CsvDataProcessor;
pub use decode::{decode, Decoded};
pub use encode::encode;
pub use error::{DecodeError, EncodeError};
pub use influxdb_data_processor::InfluxDbDataProcessor;
pub use kp_service::Kp;
pub use mqtt_codec::MqttCodec;
pub use mqtt_proto::{MqttProto, MqttTransport};
pub use packet::{Connect, ConnectReturnCode, Packet, Publish, QoS, SubscribeReturnCode, Will};
pub use session::Step;
