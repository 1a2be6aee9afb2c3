//! The echo service.

use vstd::prelude::*;
use crate::packet::Packet;

verus! {

/// A service that answers every packet with that packet.
pub struct Kp;

impl Kp {
    pub fn call(&self, req: Packet) -> (res: Packet)
        ensures
            res == req,
    {
        req
    }
}

} // verus!
