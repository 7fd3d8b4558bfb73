//! The relay that is to carry the latency-sensitive channel.

use vstd::prelude::*;

verus! {

/// The relay for the low-latency stream; so far it only knows its port.
pub struct WebTransportRelay {
    port: u16,
}

impl WebTransportRelay {
    /// The port the relay listens on.
    pub closed spec fn spec_port(&self) -> u16 {
        self.port
    }

    /// A relay that will listen on `port`.
    pub fn new(port: u16) -> (r: WebTransportRelay)
        ensures
            r.spec_port() == port,
    {
        WebTransportRelay { port }
    }

    /// The port the relay listens on.
    pub fn port(&self) -> (r: u16)
        ensures
            r == self.spec_port(),
    {
        self.port
    }
}

} // verus!
