//! Signalling between peers that set up a direct connection: the server
//! passes their messages on and keeps track of offers and connections.

use crate::text::{bytes_eq, contains, contains_bytes};
use crate::tick::now_millis;
use vstd::prelude::*;
use vstd::string::StringSliceAdditionalSpecFns;

verus! {

/// Time after which an offer that was not answered is forgotten.
pub const OFFER_TIMEOUT_MS: i64 = 30_000;

/// A connection between two peers, with the time it was set up, in
/// milliseconds since the Unix epoch.
#[derive(Clone, Copy, Debug, PartialEq, Eq, Structural)]
pub struct PeerConnection {
    pub peer1: u32,
    pub peer2: u32,
    pub established: i64,
}

/// An offer that waits for its answer, with the time it was made.
#[derive(Clone, Copy, Debug, PartialEq, Eq, Structural)]
pub struct PendingOffer {
    pub from: u32,
    pub to: u32,
    pub timestamp: i64,
}

/// The kind of a signal passed between two peers.
#[derive(Clone, Copy, Debug, PartialEq, Eq, Structural)]
pub enum SignalType {
    Offer,
    Answer,
    /// Anything else; it is passed on and leaves no trace.
    Other,
}

/// What a signalling message asks for.
#[derive(Clone, Copy, Debug, PartialEq, Eq, Structural)]
pub enum SignalingRequest {
    /// The list of the other clients.
    PeerList,
    /// A signal to be passed on to another peer.
    Signaling,
    Unknown,
}

/// A signalling message as it arrives; the signal's payload stays with the caller.
#[derive(Clone, Copy, Debug, PartialEq, Eq, Structural)]
pub struct WebRTCSignalingMessage {
    pub message_type: SignalingRequest,
    pub from_peer: Option<u32>,
    pub to_peer: Option<u32>,
    pub signal_type: Option<SignalType>,
    /// Whether the message carries a payload.
    pub has_signal_data: bool,
    pub client_id: Option<u32>,
}

/// What the server does on a signalling message.
#[derive(Debug)]
pub enum SignalingAction {
    /// Send `to` the list of the other clients.
    PeerList { to: u32, peers: Vec<u32> },
    /// Pass the message on to `to`.
    Forward { to: u32 },
    Nothing,
}

/// The offers that wait for an answer and the connections that were set
/// up; of either, at most one between the same two peers in the same direction.
pub struct WebRTCSignalingManager {
    pub peer_connections: Vec<PeerConnection>,
    pub pending_offers: Vec<PendingOffer>,
}

/// The text announces, in its `type` field, a request for the peer list or a
/// signalling message; the field may be written with or without a space
/// after the colon.
pub open spec fn announces_signaling(text: Seq<u8>) -> bool {
    ||| contains_bytes(text, "\"type\":\"request_webrtc_peers\"".spec_bytes())
    ||| contains_bytes(text, "\"type\":\"webrtc_signaling\"".spec_bytes())
    ||| contains_bytes(text, "\"type\": \"request_webrtc_peers\"".spec_bytes())
    ||| contains_bytes(text, "\"type\": \"webrtc_signaling\"".spec_bytes())
}

/// The kind of signal that a name stands for.
pub open spec fn signal_named(name: Seq<u8>) -> SignalType {
    if name == "offer".spec_bytes() {
        SignalType::Offer
    } else if name == "answer".spec_bytes() {
        SignalType::Answer
    } else {
        SignalType::Other
    }
}

/// What a message type asks for.
pub open spec fn request_named(name: Seq<u8>) -> SignalingRequest {
    if name == "request_webrtc_peers".spec_bytes() {
        SignalingRequest::PeerList
    } else if name == "webrtc_signaling".spec_bytes() {
        SignalingRequest::Signaling
    } else {
        SignalingRequest::Unknown
    }
}

/// The signal that a message asks to pass on, with its two peers: the
/// message is a signal, names both peers and its kind, carries a payload,
/// and the peer it goes to is a client.
pub open spec fn signal_to_forward(message: WebRTCSignalingMessage, clients: Seq<u32>) -> Option<
    (u32, u32, SignalType),
> {
    match (message.from_peer, message.to_peer, message.signal_type) {
        (Some(from), Some(to), Some(kind)) => if message.message_type == SignalingRequest::Signaling
            && message.has_signal_data && is_client(clients, to) {
            Some((from, to, kind))
        } else {
            None
        },
        _ => None,
    }
}

/// `id` is one of the clients.
pub open spec fn is_client(clients: Seq<u32>, id: u32) -> bool {
    exists|i: int| 0 <= i < clients.len() && clients[i] == id
}

/// The clients among the first `k`, without `me`, in their order.
pub open spec fn peers_of(clients: Seq<u32>, me: u32, k: nat) -> Seq<u32>
    decreases k,
{
    if k == 0 {
        Seq::empty()
    } else {
        let rest = peers_of(clients, me, (k - 1) as nat);
        if clients[k - 1] == me {
            rest
        } else {
            rest.push(clients[k - 1])
        }
    }
}

/// The index of the first of the first `k` offers made by `from` to `to`.
pub open spec fn offer_at(offers: Seq<PendingOffer>, from: u32, to: u32, k: nat) -> Option<int>
    decreases k,
{
    if k == 0 {
        None
    } else {
        match offer_at(offers, from, to, (k - 1) as nat) {
            Some(i) => Some(i),
            None => if offers[k - 1].from == from && offers[k - 1].to == to {
                Some(k - 1)
            } else {
                None
            },
        }
    }
}

/// The index of the first of the first `k` connections set up by `peer1` with `peer2`.
pub open spec fn connection_at(connections: Seq<PeerConnection>, peer1: u32, peer2: u32, k: nat) -> Option<
    int,
>
    decreases k,
{
    if k == 0 {
        None
    } else {
        match connection_at(connections, peer1, peer2, (k - 1) as nat) {
            Some(i) => Some(i),
            None => if connections[k - 1].peer1 == peer1 && connections[k - 1].peer2 == peer2 {
                Some(k - 1)
            } else {
                None
            },
        }
    }
}

/// The offers with `offer` among them: it takes the place of an offer
/// between the same two peers, if there is one.
pub open spec fn with_offer(offers: Seq<PendingOffer>, offer: PendingOffer) -> Seq<PendingOffer> {
    match offer_at(offers, offer.from, offer.to, offers.len()) {
        Some(i) => offers.update(i, offer),
        None => offers.push(offer),
    }
}

/// The connections with `connection` among them: it takes the place of a
/// connection between the same two peers, if there is one.
pub open spec fn with_connection(connections: Seq<PeerConnection>, connection: PeerConnection) -> Seq<
    PeerConnection,
> {
    match connection_at(connections, connection.peer1, connection.peer2, connections.len()) {
        Some(i) => connections.update(i, connection),
        None => connections.push(connection),
    }
}

/// The offers among the first `k` in which `client` takes no part.
pub open spec fn offers_without(offers: Seq<PendingOffer>, client: u32, k: nat) -> Seq<PendingOffer>
    decreases k,
{
    if k == 0 {
        Seq::empty()
    } else {
        let rest = offers_without(offers, client, (k - 1) as nat);
        if offers[k - 1].from != client && offers[k - 1].to != client {
            rest.push(offers[k - 1])
        } else {
            rest
        }
    }
}

/// The connections among the first `k` in which `client` takes no part.
pub open spec fn connections_without(connections: Seq<PeerConnection>, client: u32, k: nat) -> Seq<
    PeerConnection,
>
    decreases k,
{
    if k == 0 {
        Seq::empty()
    } else {
        let rest = connections_without(connections, client, (k - 1) as nat);
        if connections[k - 1].peer1 != client && connections[k - 1].peer2 != client {
            rest.push(connections[k - 1])
        } else {
            rest
        }
    }
}

/// The offers among the first `k` that are no older than the timeout at time `now`.
pub open spec fn offers_in_time(offers: Seq<PendingOffer>, now: i64, k: nat) -> Seq<PendingOffer>
    decreases k,
{
    if k == 0 {
        Seq::empty()
    } else {
        let rest = offers_in_time(offers, now, (k - 1) as nat);
        if now - offers[k - 1].timestamp <= OFFER_TIMEOUT_MS {
            rest.push(offers[k - 1])
        } else {
            rest
        }
    }
}

/// Offers and connections after a signal of the given kind went from
/// `from` to `to` at time `now`: an offer is noted; an answer to a noted
/// offer removes the offer and notes the connection.
pub open spec fn signaled(
    offers: Seq<PendingOffer>,
    connections: Seq<PeerConnection>,
    from: u32,
    to: u32,
    kind: SignalType,
    now: i64,
) -> (Seq<PendingOffer>, Seq<PeerConnection>) {
    match kind {
        SignalType::Offer => (with_offer(offers, PendingOffer { from, to, timestamp: now }), connections),
        SignalType::Answer => match offer_at(offers, to, from, offers.len()) {
            Some(i) => (
                offers.remove(i),
                with_connection(connections, PeerConnection { peer1: from, peer2: to, established: now }),
            ),
            None => (offers, connections),
        },
        SignalType::Other => (offers, connections),
    }
}

/// Tells whether an inbound text is a signalling message rather than a game command.
pub fn is_webrtc_message(text: &str) -> (r: bool)
    ensures
        r == announces_signaling(text.spec_bytes()),
{
    let t = text.as_bytes();
    contains(t, "\"type\":\"request_webrtc_peers\"".as_bytes()) || contains(
        t,
        "\"type\":\"webrtc_signaling\"".as_bytes(),
    ) || contains(t, "\"type\": \"request_webrtc_peers\"".as_bytes()) || contains(
        t,
        "\"type\": \"webrtc_signaling\"".as_bytes(),
    )
}

/// Tells whether `id` is one of the clients.
pub fn knows_client(clients: &Vec<u32>, id: u32) -> (r: bool)
    ensures
        r == is_client(clients@, id),
{
    let n = clients.len();
    let mut i: usize = 0;
    while i < n
        invariant
            i <= n,
            n == clients@.len(),
            forall|j: int| 0 <= j < i ==> clients@[j] != id,
        decreases n - i,
    {
        if clients[i] == id {
            return true;
        }
        i += 1;
    }
    false
}

impl SignalingRequest {
    /// Reads the type of a signalling message.
    pub fn from_name(name: &str) -> (r: SignalingRequest)
        ensures
            r == request_named(name.spec_bytes()),
    {
        let b = name.as_bytes();
        if bytes_eq(b, "request_webrtc_peers".as_bytes()) {
            SignalingRequest::PeerList
        } else if bytes_eq(b, "webrtc_signaling".as_bytes()) {
            SignalingRequest::Signaling
        } else {
            SignalingRequest::Unknown
        }
    }
}

impl SignalType {
    /// Reads the name of a signal: `offer`, `answer`, or anything else.
    pub fn from_name(name: &str) -> (r: SignalType)
        ensures
            r == signal_named(name.spec_bytes()),
    {
        let b = name.as_bytes();
        if bytes_eq(b, "offer".as_bytes()) {
            SignalType::Offer
        } else if bytes_eq(b, "answer".as_bytes()) {
            SignalType::Answer
        } else {
            SignalType::Other
        }
    }
}

impl WebRTCSignalingManager {
    /// A manager that knows of no offer and no connection.
    pub fn new() -> (r: WebRTCSignalingManager)
        ensures
            r.peer_connections@ == Seq::<PeerConnection>::empty(),
            r.pending_offers@ == Seq::<PendingOffer>::empty(),
    {
        WebRTCSignalingManager { peer_connections: Vec::new(), pending_offers: Vec::new() }
    }

    fn find_offer(&self, from: u32, to: u32) -> (r: Option<usize>)
        ensures
            match r {
                Some(i) => offer_at(self.pending_offers@, from, to, self.pending_offers@.len())
                    == Some(i as int) && i < self.pending_offers@.len(),
                None => offer_at(self.pending_offers@, from, to, self.pending_offers@.len()).is_none(),
            },
    {
        let n = self.pending_offers.len();
        let mut i: usize = 0;
        while i < n
            invariant
                i <= n,
                n == self.pending_offers@.len(),
                offer_at(self.pending_offers@, from, to, i as nat).is_none(),
            decreases n - i,
        {
            if self.pending_offers[i].from == from && self.pending_offers[i].to == to {
                proof {
                    lemma_offer_stays(self.pending_offers@, from, to, i as nat, n as nat);
                }
                return Some(i);
            }
            i += 1;
        }
        None
    }

    fn find_connection(&self, peer1: u32, peer2: u32) -> (r: Option<usize>)
        ensures
            match r {
                Some(i) => connection_at(
                    self.peer_connections@,
                    peer1,
                    peer2,
                    self.peer_connections@.len(),
                ) == Some(i as int) && i < self.peer_connections@.len(),
                None => connection_at(
                    self.peer_connections@,
                    peer1,
                    peer2,
                    self.peer_connections@.len(),
                ).is_none(),
            },
    {
        let n = self.peer_connections.len();
        let mut i: usize = 0;
        while i < n
            invariant
                i <= n,
                n == self.peer_connections@.len(),
                connection_at(self.peer_connections@, peer1, peer2, i as nat).is_none(),
            decreases n - i,
        {
            if self.peer_connections[i].peer1 == peer1 && self.peer_connections[i].peer2 == peer2 {
                proof {
                    lemma_connection_stays(self.peer_connections@, peer1, peer2, i as nat, n as nat);
                }
                return Some(i);
            }
            i += 1;
        }
        None
    }

    /// Answers a request for the peer list: the other clients, if the one
    /// who asks is a client; else nothing.
    pub fn handle_peer_list_request(&self, requesting_player: u32, clients: &Vec<u32>) -> (r: Option<
        Vec<u32>,
    >)
        ensures
            match r {
                Some(peers) => is_client(clients@, requesting_player) && peers@ == peers_of(
                    clients@,
                    requesting_player,
                    clients@.len(),
                ),
                None => !is_client(clients@, requesting_player),
            },
    {
        if !knows_client(clients, requesting_player) {
            return None;
        }
        let n = clients.len();
        let mut peers: Vec<u32> = Vec::new();
        let mut i: usize = 0;
        while i < n
            invariant
                i <= n,
                n == clients@.len(),
                peers@ == peers_of(clients@, requesting_player, i as nat),
            decreases n - i,
        {
            if clients[i] != requesting_player {
                peers.push(clients[i]);
            }
            i += 1;
        }
        Some(peers)
    }

    /// Notes the connection that `peer1` set up with `peer2` at time `now`.
    pub fn track_peer_connection(&mut self, peer1: u32, peer2: u32, now: i64)
        ensures
            final(self).peer_connections@ == with_connection(
                old(self).peer_connections@,
                PeerConnection { peer1, peer2, established: now },
            ),
            final(self).pending_offers@ == old(self).pending_offers@,
    {
        let connection = PeerConnection { peer1, peer2, established: now };
        match self.find_connection(peer1, peer2) {
            Some(i) => {
                self.peer_connections[i] = connection;
            },
            None => {
                self.peer_connections.push(connection);
            },
        }
    }

    /// Takes a signal that goes from `from_peer` to `to_peer` at time
    /// `now`, and says whether it is to be passed on: it is, if the peer it
    /// goes to is a client. A signal that is not passed on leaves no trace.
    pub fn handle_signaling(
        &mut self,
        from_peer: u32,
        to_peer: u32,
        signal_type: SignalType,
        clients: &Vec<u32>,
        now: i64,
    ) -> (forward: bool)
        ensures
            forward == is_client(clients@, to_peer),
            (final(self).pending_offers@, final(self).peer_connections@) == (if forward {
                signaled(
                    old(self).pending_offers@,
                    old(self).peer_connections@,
                    from_peer,
                    to_peer,
                    signal_type,
                    now,
                )
            } else {
                (old(self).pending_offers@, old(self).peer_connections@)
            }),
    {
        if !knows_client(clients, to_peer) {
            return false;
        }
        match signal_type {
            SignalType::Offer => {
                let offer = PendingOffer { from: from_peer, to: to_peer, timestamp: now };
                match self.find_offer(from_peer, to_peer) {
                    Some(i) => {
                        self.pending_offers[i] = offer;
                    },
                    None => {
                        self.pending_offers.push(offer);
                    },
                }
            },
            SignalType::Answer => {
                if let Some(i) = self.find_offer(to_peer, from_peer) {
                    self.pending_offers.remove(i);
                    self.track_peer_connection(from_peer, to_peer, now);
                }
            },
            SignalType::Other => {},
        }
        true
    }

    /// Takes a signalling message from `player_id` at time `now` and says
    /// what is to be done. A request for the peer list is answered with the
    /// other clients; a signal that names both peers and its kind and
    /// carries a payload is passed on, if the peer it goes to is a client.
    pub fn handle_webrtc_message(
        &mut self,
        message: &WebRTCSignalingMessage,
        player_id: u32,
        clients: &Vec<u32>,
        now: i64,
    ) -> (r: SignalingAction)
        ensures
            (final(self).pending_offers@, final(self).peer_connections@) == (match signal_to_forward(
                *message,
                clients@,
            ) {
                Some((from, to, kind)) => signaled(
                    old(self).pending_offers@,
                    old(self).peer_connections@,
                    from,
                    to,
                    kind,
                    now,
                ),
                None => (old(self).pending_offers@, old(self).peer_connections@),
            }),
            match r {
                SignalingAction::PeerList { to, peers } => message.message_type
                    == SignalingRequest::PeerList && to == player_id && is_client(
                    clients@,
                    player_id,
                ) && peers@ == peers_of(clients@, player_id, clients@.len()),
                SignalingAction::Forward { to } => signal_to_forward(*message, clients@) matches Some(
                    s,
                ) && s.1 == to,
                SignalingAction::Nothing => signal_to_forward(*message, clients@).is_none() && !(
                message.message_type == SignalingRequest::PeerList && is_client(clients@, player_id)),
            },
    {
        match message.message_type {
            SignalingRequest::PeerList => match self.handle_peer_list_request(player_id, clients) {
                Some(peers) => SignalingAction::PeerList { to: player_id, peers },
                None => SignalingAction::Nothing,
            },
            SignalingRequest::Signaling => match (
                message.from_peer,
                message.to_peer,
                message.signal_type,
            ) {
                (Some(from), Some(to), Some(kind)) => {
                    if message.has_signal_data && self.handle_signaling(from, to, kind, clients, now) {
                        SignalingAction::Forward { to }
                    } else {
                        SignalingAction::Nothing
                    }
                },
                _ => SignalingAction::Nothing,
            },
            SignalingRequest::Unknown => SignalingAction::Nothing,
        }
    }

    /// Forgets every offer and connection in which `client_id` takes part,
    /// and names the clients to be told that the peer is gone: all others.
    pub fn handle_client_disconnect(&mut self, client_id: u32, clients: &Vec<u32>) -> (notify: Vec<u32>)
        ensures
            final(self).pending_offers@ == offers_without(
                old(self).pending_offers@,
                client_id,
                old(self).pending_offers@.len(),
            ),
            final(self).peer_connections@ == connections_without(
                old(self).peer_connections@,
                client_id,
                old(self).peer_connections@.len(),
            ),
            notify@ == peers_of(clients@, client_id, clients@.len()),
    {
        let n = self.pending_offers.len();
        let mut offers: Vec<PendingOffer> = Vec::new();
        let mut i: usize = 0;
        while i < n
            invariant
                i <= n,
                n == self.pending_offers@.len(),
                *self == *old(self),
                offers@ == offers_without(self.pending_offers@, client_id, i as nat),
            decreases n - i,
        {
            let o = self.pending_offers[i];
            if o.from != client_id && o.to != client_id {
                offers.push(o);
            }
            i += 1;
        }
        let m = self.peer_connections.len();
        let mut connections: Vec<PeerConnection> = Vec::new();
        let mut k: usize = 0;
        while k < m
            invariant
                k <= m,
                m == self.peer_connections@.len(),
                *self == *old(self),
                connections@ == connections_without(self.peer_connections@, client_id, k as nat),
            decreases m - k,
        {
            let c = self.peer_connections[k];
            if c.peer1 != client_id && c.peer2 != client_id {
                connections.push(c);
            }
            k += 1;
        }
        self.pending_offers = offers;
        self.peer_connections = connections;
        let c = clients.len();
        let mut notify: Vec<u32> = Vec::new();
        let mut j: usize = 0;
        while j < c
            invariant
                j <= c,
                c == clients@.len(),
                notify@ == peers_of(clients@, client_id, j as nat),
            decreases c - j,
        {
            if clients[j] != client_id {
                notify.push(clients[j]);
            }
            j += 1;
        }
        notify
    }

    /// Forgets the offers that are older than the timeout at time `now`.
    pub fn cleanup_offers_at(&mut self, now: i64)
        ensures
            final(self).pending_offers@ == offers_in_time(
                old(self).pending_offers@,
                now,
                old(self).pending_offers@.len(),
            ),
            final(self).peer_connections@ == old(self).peer_connections@,
    {
        let n = self.pending_offers.len();
        let mut offers: Vec<PendingOffer> = Vec::new();
        let mut i: usize = 0;
        while i < n
            invariant
                i <= n,
                n == self.pending_offers@.len(),
                *self == *old(self),
                offers@ == offers_in_time(self.pending_offers@, now, i as nat),
            decreases n - i,
        {
            let o = self.pending_offers[i];
            if (now as i128) - (o.timestamp as i128) <= OFFER_TIMEOUT_MS as i128 {
                offers.push(o);
            }
            i += 1;
        }
        self.pending_offers = offers;
    }

    /// Forgets the offers that are older than the timeout at the present time.
    pub fn cleanup_old_offers(&mut self)
        ensures
            exists|now: i64|
                final(self).pending_offers@ == #[trigger] offers_in_time(
                    old(self).pending_offers@,
                    now,
                    old(self).pending_offers@.len(),
                ),
            final(self).peer_connections@ == old(self).peer_connections@,
    {
        let now = now_millis();
        self.cleanup_offers_at(now);
    }

    /// The number of connections and the number of offers that wait.
    pub fn get_stats(&self) -> (r: (usize, usize))
        ensures
            r.0 == self.peer_connections@.len(),
            r.1 == self.pending_offers@.len(),
    {
        (self.peer_connections.len(), self.pending_offers.len())
    }
}

/// The first offer between two peers stays the first when more offers are looked at.
pub proof fn lemma_offer_stays(offers: Seq<PendingOffer>, from: u32, to: u32, i: nat, n: nat)
    requires
        i < n <= offers.len(),
        offer_at(offers, from, to, i).is_none(),
        offers[i as int].from == from,
        offers[i as int].to == to,
    ensures
        offer_at(offers, from, to, n) == Some(i as int),
    decreases n - i,
{
    if n > i + 1 {
        lemma_offer_stays(offers, from, to, i, (n - 1) as nat);
    } else {
        assert(offer_at(offers, from, to, (i + 1) as nat) == Some(i as int));
    }
}

/// The first connection between two peers stays the first when more are looked at.
pub proof fn lemma_connection_stays(
    connections: Seq<PeerConnection>,
    peer1: u32,
    peer2: u32,
    i: nat,
    n: nat,
)
    requires
        i < n <= connections.len(),
        connection_at(connections, peer1, peer2, i).is_none(),
        connections[i as int].peer1 == peer1,
        connections[i as int].peer2 == peer2,
    ensures
        connection_at(connections, peer1, peer2, n) == Some(i as int),
    decreases n - i,
{
    if n > i + 1 {
        lemma_connection_stays(connections, peer1, peer2, i, (n - 1) as nat);
    } else {
        assert(connection_at(connections, peer1, peer2, (i + 1) as nat) == Some(i as int));
    }
}

} // verus!
