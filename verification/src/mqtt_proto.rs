//! The pieces a framed transport is assembled from.

use vstd::prelude::*;

verus! {

/// A transport over an upstream of framed packets.
pub struct MqttTransport<T> {
    upstream: T,
}

impl<T> MqttTransport<T> {
    /// The upstream this transport rests on.
    pub closed spec fn upstream(&self) -> T {
        self.upstream
    }

    pub fn new(upstream: T) -> (transport: MqttTransport<T>)
        ensures
            transport.upstream() == upstream,
    {
        MqttTransport { upstream: upstream }
    }

    pub fn get_ref(&self) -> (upstream: &T)
        ensures
            *upstream == self.upstream(),
    {
        &self.upstream
    }

    pub fn into_inner(self) -> (upstream: T)
        ensures
            upstream == self.upstream(),
    {
        self.upstream
    }
}

/// The protocol: how a transport is bound to an upstream.
pub struct MqttProto;

impl MqttProto {
    /// Binds a transport to an upstream that is framed already.
    pub fn bind_transport<T>(&self, framed: T) -> (transport: MqttTransport<T>)
        ensures
            transport.upstream() == framed,
    {
        MqttTransport::new(framed)
    }
}

} // verus!
