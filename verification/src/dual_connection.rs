//! The two delivery channels of a client and the choice between them.

use vstd::prelude::*;

verus! {

/// The class of an outbound or inbound message.
#[derive(Debug, Clone, Copy, PartialEq, Eq, Structural)]
pub enum MessageType {
    Input,
    PositionUpdate,
    BallPosition,
    ProjectileUpdate,
    Goal,
    TeamSwitch,
    GameReset,
    PlayerJoin,
    PlayerLeave,
    GameState,
    AutoShoot,
    ProjectileFired,
    BallShot,
    BallKnocked,
    Explosion,
    Countdown,
}

impl MessageType {
    /// Positions and raw input are worth more fresh than complete: they go
    /// over the fast channel when there is one. Everything else must arrive.
    pub open spec fn is_latency_sensitive(self) -> bool {
        self == MessageType::Input || self == MessageType::PositionUpdate || self
            == MessageType::BallPosition || self == MessageType::ProjectileUpdate
    }

    /// Tells whether a message of this class is worth more fresh than complete.
    pub fn latency_sensitive(&self) -> (r: bool)
        ensures
            r == self.is_latency_sensitive(),
    {
        match self {
            MessageType::Input => true,
            MessageType::PositionUpdate => true,
            MessageType::BallPosition => true,
            MessageType::ProjectileUpdate => true,
            _ => false,
        }
    }
}

/// A way to reach a client.
#[derive(Debug, Clone, Copy, PartialEq, Eq, Structural)]
pub enum Channel {
    /// The stream with the lowest latency.
    WebTransport,
    /// The second socket, kept for data worth more fresh than complete.
    Fast,
    /// The ordered socket on which every client is first reached.
    Reliable,
}

/// What is known of the channels of one client.
#[derive(Debug, Clone, Copy, PartialEq, Eq, Structural)]
pub struct DualConnection {
    pub client_id: u32,
    /// A fast socket has been set up.
    pub fast_channel: bool,
    /// A low-latency stream has been set up.
    pub webtransport_channel: bool,
}

impl DualConnection {
    /// A client that is reached on the reliable channel only.
    pub open spec fn fresh(client_id: u32) -> DualConnection {
        DualConnection { client_id, fast_channel: false, webtransport_channel: false }
    }

    /// The channels on which a message of class `message_type` is tried,
    /// in this order, until one has taken it. A latency-sensitive message
    /// goes to the fastest channel that was set up and falls back to the
    /// slower ones; every other message goes on the reliable channel only.
    pub open spec fn route(self, message_type: MessageType) -> Seq<Channel> {
        if message_type.is_latency_sensitive() {
            (if self.webtransport_channel {
                seq![Channel::WebTransport]
            } else {
                Seq::<Channel>::empty()
            }) + (if self.fast_channel {
                seq![Channel::Fast]
            } else {
                Seq::<Channel>::empty()
            }) + seq![Channel::Reliable]
        } else {
            seq![Channel::Reliable]
        }
    }

    /// A client that is reached on the reliable channel only.
    pub fn new(client_id: u32) -> (r: DualConnection)
        ensures
            r == DualConnection::fresh(client_id),
    {
        DualConnection { client_id, fast_channel: false, webtransport_channel: false }
    }

    /// Notes that the fast socket has been set up.
    pub fn add_fast_channel(&mut self)
        ensures
            *final(self) == (DualConnection { fast_channel: true, ..*old(self) }),
    {
        self.fast_channel = true;
    }

    /// Notes that the low-latency stream has been set up.
    pub fn add_webtransport_channel(&mut self)
        ensures
            *final(self) == (DualConnection { webtransport_channel: true, ..*old(self) }),
    {
        self.webtransport_channel = true;
    }

    pub fn has_fast_channel(&self) -> (r: bool)
        ensures
            r == self.fast_channel,
    {
        self.fast_channel
    }

    pub fn has_webtransport_channel(&self) -> (r: bool)
        ensures
            r == self.webtransport_channel,
    {
        self.webtransport_channel
    }

    /// A name for the set of channels of the client.
    pub fn get_connection_type(&self) -> (r: &'static str)
        ensures
            r@ == (if self.webtransport_channel {
                "WebTransport + WebSocket"@
            } else if self.fast_channel {
                "Dual WebSocket"@
            } else {
                "WebSocket Only"@
            }),
    {
        if self.webtransport_channel {
            "WebTransport + WebSocket"
        } else if self.fast_channel {
            "Dual WebSocket"
        } else {
            "WebSocket Only"
        }
    }

    /// Decides how a message of class `message_type` is sent: the channels
    /// to try, in order, until one has taken it.
    pub fn send_message(&self, message_type: &MessageType) -> (r: Vec<Channel>)
        ensures
            r@ == self.route(*message_type),
            r@.len() >= 1,
            r@.last() == Channel::Reliable,
    {
        let mut plan: Vec<Channel> = Vec::new();
        if message_type.latency_sensitive() {
            if self.webtransport_channel {
                plan.push(Channel::WebTransport);
            }
            if self.fast_channel {
                plan.push(Channel::Fast);
            }
        }
        plan.push(Channel::Reliable);
        assert(plan@ =~= self.route(*message_type));
        plan
    }
}

/// The index of the first of the first `k` connections whose client is `client_id`.
pub open spec fn connection_of(connections: Seq<DualConnection>, client_id: u32, k: nat) -> Option<int>
    decreases k,
{
    if k == 0 {
        None
    } else {
        match connection_of(connections, client_id, (k - 1) as nat) {
            Some(i) => Some(i),
            None => if connections[k - 1].client_id == client_id {
                Some(k - 1)
            } else {
                None
            },
        }
    }
}

/// The number of clients with a fast socket among the first `k`.
pub open spec fn fast_clients(connections: Seq<DualConnection>, k: nat) -> nat
    decreases k,
{
    if k == 0 {
        0
    } else {
        fast_clients(connections, (k - 1) as nat) + if connections[k - 1].fast_channel {
            1nat
        } else {
            0nat
        }
    }
}

/// The clients among the first `k`, without `exclude`, in the order in
/// which they connected.
pub open spec fn recipients(connections: Seq<DualConnection>, exclude: Option<u32>, k: nat) -> Seq<u32>
    decreases k,
{
    if k == 0 {
        Seq::empty()
    } else {
        let rest = recipients(connections, exclude, (k - 1) as nat);
        if exclude == Some(connections[k - 1].client_id) {
            rest
        } else {
            rest.push(connections[k - 1].client_id)
        }
    }
}

/// The first connection of a client stays the first when more are looked at.
pub proof fn lemma_connection_stays(connections: Seq<DualConnection>, client_id: u32, i: nat, n: nat)
    requires
        i < n <= connections.len(),
        connection_of(connections, client_id, i).is_none(),
        connections[i as int].client_id == client_id,
    ensures
        connection_of(connections, client_id, n) == Some(i as int),
    decreases n - i,
{
    if n > i + 1 {
        lemma_connection_stays(connections, client_id, i, (n - 1) as nat);
    } else {
        assert(connection_of(connections, client_id, (i + 1) as nat) == Some(i as int));
    }
}

/// The connections of all clients, in the order in which they connected.
pub struct DualConnectionManager {
    connections: Vec<DualConnection>,
}

impl View for DualConnectionManager {
    type V = Seq<DualConnection>;

    closed spec fn view(&self) -> Seq<DualConnection> {
        self.connections@
    }
}

/// The index of the connection of `client_id`.
pub open spec fn find(connections: Seq<DualConnection>, client_id: u32) -> Option<int> {
    connection_of(connections, client_id, connections.len())
}

impl DualConnectionManager {
    /// A manager that knows no client yet.
    pub fn new() -> (r: DualConnectionManager)
        ensures
            r@ == Seq::<DualConnection>::empty(),
    {
        DualConnectionManager { connections: Vec::new() }
    }

    /// The index of the connection of `client_id`.
    fn index_of(&self, client_id: u32) -> (r: Option<usize>)
        ensures
            match r {
                Some(i) => find(self@, client_id) == Some(i as int) && i < self@.len()
                    && self@[i as int].client_id == client_id,
                None => find(self@, client_id).is_none(),
            },
    {
        let n = self.connections.len();
        let mut i: usize = 0;
        while i < n
            invariant
                i <= n,
                n == self.connections@.len(),
                connection_of(self.connections@, client_id, i as nat).is_none(),
            decreases n - i,
        {
            if self.connections[i].client_id == client_id {
                proof {
                    lemma_connection_stays(self.connections@, client_id, i as nat, n as nat);
                }
                return Some(i);
            }
            i += 1;
        }
        None
    }

    /// Registers a client reached on the reliable channel. A client that
    /// connects again starts over without its faster channels.
    pub fn add_reliable_connection(&mut self, client_id: u32)
        ensures
            final(self)@ == (match find(old(self)@, client_id) {
                Some(i) => old(self)@.update(i, DualConnection::fresh(client_id)),
                None => old(self)@.push(DualConnection::fresh(client_id)),
            }),
    {
        match self.index_of(client_id) {
            Some(i) => {
                self.connections[i] = DualConnection::new(client_id);
            },
            None => {
                self.connections.push(DualConnection::new(client_id));
            },
        }
    }

    /// Notes that the client has set up a fast socket, and says whether
    /// the client is known. For an unknown client nothing changes.
    pub fn add_fast_connection(&mut self, client_id: u32) -> (known: bool)
        ensures
            known == find(old(self)@, client_id).is_some(),
            final(self)@ == (match find(old(self)@, client_id) {
                Some(i) => old(self)@.update(
                    i,
                    DualConnection { fast_channel: true, ..old(self)@[i] },
                ),
                None => old(self)@,
            }),
    {
        match self.index_of(client_id) {
            Some(i) => {
                self.connections[i].add_fast_channel();
                assert(self.connections@ =~= old(self)@.update(
                    i as int,
                    DualConnection { fast_channel: true, ..old(self)@[i as int] },
                ));
                true
            },
            None => false,
        }
    }

    /// Notes that the client has set up a low-latency stream, and says
    /// whether the client is known. For an unknown client nothing changes.
    pub fn add_webtransport_connection(&mut self, client_id: u32) -> (known: bool)
        ensures
            known == find(old(self)@, client_id).is_some(),
            final(self)@ == (match find(old(self)@, client_id) {
                Some(i) => old(self)@.update(
                    i,
                    DualConnection { webtransport_channel: true, ..old(self)@[i] },
                ),
                None => old(self)@,
            }),
    {
        match self.index_of(client_id) {
            Some(i) => {
                self.connections[i].add_webtransport_channel();
                assert(self.connections@ =~= old(self)@.update(
                    i as int,
                    DualConnection { webtransport_channel: true, ..old(self)@[i as int] },
                ));
                true
            },
            None => false,
        }
    }

    /// The clients to which a broadcast goes: all but `exclude_client`.
    pub fn broadcast_message(&self, exclude_client: Option<u32>) -> (r: Vec<u32>)
        ensures
            r@ == recipients(self@, exclude_client, self@.len()),
    {
        let n = self.connections.len();
        let mut out: Vec<u32> = Vec::new();
        let mut i: usize = 0;
        while i < n
            invariant
                i <= n,
                n == self.connections@.len(),
                out@ == recipients(self.connections@, exclude_client, i as nat),
            decreases n - i,
        {
            let id = self.connections[i].client_id;
            let skip = match exclude_client {
                Some(e) => e == id,
                None => false,
            };
            if !skip {
                out.push(id);
            }
            i += 1;
        }
        out
    }

    /// The channels on which to try a message of class `message_type` for
    /// the client `client_id`, in order; none for a client that is not known.
    pub fn send_to_client(&self, client_id: u32, message_type: &MessageType) -> (r: Vec<Channel>)
        ensures
            r@ == (match find(self@, client_id) {
                Some(i) => self@[i].route(*message_type),
                None => Seq::<Channel>::empty(),
            }),
    {
        match self.index_of(client_id) {
            Some(i) => self.connections[i].send_message(message_type),
            None => Vec::new(),
        }
    }

    /// Forgets the client `client_id`.
    pub fn remove_client(&mut self, client_id: u32)
        ensures
            final(self)@ == (match find(old(self)@, client_id) {
                Some(i) => old(self)@.remove(i),
                None => old(self)@,
            }),
    {
        match self.index_of(client_id) {
            Some(i) => {
                self.connections.remove(i);
            },
            None => {},
        }
    }

    /// The number of clients, and how many of them have a fast socket.
    pub fn get_stats(&self) -> (r: (usize, usize))
        ensures
            r.0 == self@.len(),
            r.1 == fast_clients(self@, self@.len()),
    {
        let n = self.connections.len();
        let mut fast: usize = 0;
        let mut i: usize = 0;
        while i < n
            invariant
                i <= n,
                n == self.connections@.len(),
                fast == fast_clients(self.connections@, i as nat),
                fast <= i,
            decreases n - i,
        {
            if self.connections[i].has_fast_channel() {
                fast += 1;
            }
            i += 1;
        }
        (n, fast)
    }
}

} // verus!
