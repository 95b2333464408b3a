//! Single-peer path discovery.
//!
//! A [`PeerPd`] looks for paths to one peer other than the DERP relay. At the start of a round it
//! asks the peer, over its disco coordinator endpoints, to open a reverse path (`CallMeMaybe`),
//! and pings every other endpoint that it knows. A pong that comes back before the next round
//! measures the round-trip latency of the endpoint that was pinged; at the start of the next
//! round the endpoint with the lowest latency is reported as the best path.
//!
//! This module decides. Building packets, sending them and reading the clock is left to the
//! caller: each handler returns what is to be sent, and takes the current time as a number of
//! nanoseconds on a monotonic clock.

use crate::decimal::append_decimal;
use crate::endpoint::{DiscoPublicKey, DynEndpoint, NodePublicKey, SocketAddress};
use crate::linear_map::{Key, LinearMap, LinearSet};
use crate::path_discoverer::{ActivePeers, PeerBestPath};
use crate::transport::{PeerId, UnderlayTransportId};
use vstd::prelude::*;
use vstd::string::StringExecFns;

verus! {

/// A time on a monotonic clock, or the length of a time span, in nanoseconds.
pub type Nanos = u128;

/// What ties a pong to the ping that it answers.
pub type TxId = [u8; 12];

/// Time from one round of probes to the next.
pub const PROBE_PERIOD: Nanos = 5_000_000_000;

/// Time after which a peer's "seen endpoints" are cleaned up if they haven't sent traffic.
pub const SEEN_ENDPOINTS_TIMEOUT: Nanos = 30_000_000_000;

/// The time from `earlier` to `later`, zero where `later` is not later.
pub open spec fn elapsed(earlier: Nanos, later: Nanos) -> Nanos {
    if later >= earlier {
        (later - earlier) as Nanos
    } else {
        0
    }
}

fn time_since(earlier: Nanos, later: Nanos) -> (span: Nanos)
    ensures
        span == elapsed(earlier, later),
{
    if later >= earlier {
        later - earlier
    } else {
        0
    }
}

/// How far the probe of an endpoint has come.
#[derive(Debug, Copy, Clone, PartialEq, Eq)]
pub enum ProbeState {
    /// This probe is in-flight with the given transaction id. It was sent at `sent`.
    InFlight { transaction: TxId, sent: Nanos },
    /// This probe succeeded, measuring the indicated `latency`.
    Success {
        /// The round-trip latency measured by this probe.
        latency: Nanos,
        /// The transport used to perform this probe.
        transport: UnderlayTransportId,
    },
}

/// What the network map says of a peer.
#[derive(Debug)]
pub struct Node {
    /// The key that the peer signs its disco messages with, if it has one.
    pub disco_key: Option<DiscoPublicKey>,
    /// The key that identifies the peer.
    pub node_key: NodePublicKey,
    /// The UDP addresses at which the peer may be reached.
    pub underlay_addresses: Vec<SocketAddress>,
}

/// The current peers, and those that the last network map update removed.
#[derive(Debug)]
pub struct PeerState {
    /// The peers that were removed.
    pub deletions: LinearSet<PeerId>,
    /// The peers that there are.
    pub peers: LinearMap<PeerId, Node>,
}

impl PeerState {
    /// No peer is listed twice.
    pub open spec fn wf(&self) -> bool {
        self.deletions.wf() && self.peers.wf()
    }
}

/// What a disco message says.
#[derive(Debug)]
pub enum DiscoBody {
    /// The answer to the ping with this transaction id.
    Pong { tx_id: TxId },
    /// A request to send to these addresses of the peer.
    CallMeMaybe { addresses: Vec<SocketAddress> },
    /// Any other message.
    Other,
}

/// A disco message that arrived.
#[derive(Debug)]
pub struct IncomingDiscoMsg {
    /// The disco key of its sender.
    pub sender_pubkey: DiscoPublicKey,
    /// The endpoint that it came from.
    pub sender: DynEndpoint,
    /// The transport that it came in on.
    pub transport: UnderlayTransportId,
    /// What it says.
    pub body: DiscoBody,
}

/// A ping to send: to `ep`, for the peer with key `disco_key`, under transaction `tx_id`.
#[derive(Debug, Copy, Clone, PartialEq, Eq)]
pub struct PingRequest {
    pub ep: DynEndpoint,
    pub disco_key: DiscoPublicKey,
    pub tx_id: TxId,
}

/// One step of a round of probes.
#[derive(Debug, Copy, Clone, PartialEq, Eq)]
pub enum ProbeAction {
    /// Report the best path.
    PublishBestPath(PeerBestPath),
    /// Send a `CallMeMaybe` message to this endpoint.
    SendCallMeMaybe(DynEndpoint),
    /// Ping this endpoint.
    SendPing(DynEndpoint),
}

/// What a round of probes consists of.
#[derive(Debug)]
pub struct ProbeRound {
    /// The peer's disco key, for which messages are sealed.
    pub disco_key: DiscoPublicKey,
    /// The best path that the round before has found, if it has found one.
    pub best_path: Option<PeerBestPath>,
    /// The endpoints that a `CallMeMaybe` message goes to.
    pub call_me_maybes: Vec<DynEndpoint>,
    /// The addresses that each `CallMeMaybe` message lists.
    pub advertised: Vec<SocketAddress>,
    /// The endpoints to ping.
    pub pings: Vec<DynEndpoint>,
}

/// The state of a [`PeerPd`], as mathematical values.
#[verifier::ext_equal]
pub struct PeerPdState {
    pub peer_id: PeerId,
    pub disco_key: Option<DiscoPublicKey>,
    pub started_probing: bool,
    pub current_probes: Map<DynEndpoint, ProbeState>,
    pub tx_lookup: Map<TxId, DynEndpoint>,
    pub previous_probe_latencies: Map<(UnderlayTransportId, DynEndpoint), Nanos>,
    pub this_node_endpoints: Seq<SocketAddress>,
    pub coord_endpoints_ctrl: Set<DynEndpoint>,
    pub endpoints_ctrl: Set<DynEndpoint>,
    pub endpoints_cmm: Set<DynEndpoint>,
    pub seen_peer_endpoints: Map<DynEndpoint, Nanos>,
}

/// Whether the probe of `path.1` succeeded over the transport `path.0`.
pub open spec fn measured(
    probes: Map<DynEndpoint, ProbeState>,
    path: (UnderlayTransportId, DynEndpoint),
) -> bool {
    &&& probes.contains_key(path.1)
    &&& probes[path.1] matches ProbeState::Success { transport, .. }
    &&& transport == path.0
}

/// The latency of each path that the probes have measured.
pub open spec fn latencies(probes: Map<DynEndpoint, ProbeState>) -> Map<
    (UnderlayTransportId, DynEndpoint),
    Nanos,
> {
    Map::new(
        |path: (UnderlayTransportId, DynEndpoint)| measured(probes, path),
        |path: (UnderlayTransportId, DynEndpoint)| probes[path.1]->latency,
    )
}

/// Whether no path of `measurements` is faster than `path`, which is one of them.
pub open spec fn is_fastest(
    measurements: Map<(UnderlayTransportId, DynEndpoint), Nanos>,
    path: (UnderlayTransportId, DynEndpoint),
) -> bool {
    &&& measurements.contains_key(path)
    &&& forall|other: (UnderlayTransportId, DynEndpoint)| #[trigger]
        measurements.contains_key(other) ==> measurements[path] <= measurements[other]
}

/// Whether `list` lists the members of `set`, each once.
pub open spec fn enumerates(list: Seq<DynEndpoint>, set: Set<DynEndpoint>) -> bool {
    &&& list.no_duplicates()
    &&& list.to_set() == set
}

/// The transactions of those probes of `eps` that are in flight.
pub open spec fn transactions(probes: Map<DynEndpoint, ProbeState>, eps: Set<DynEndpoint>) -> Set<
    TxId,
> {
    Set::new(
        |tx_id: TxId|
            exists|ep: DynEndpoint| #[trigger]
                eps.contains(ep) && in_flight(probes, ep, tx_id),
    )
}

/// Whether `ep` has a probe in flight under transaction `tx_id`.
pub open spec fn in_flight(
    probes: Map<DynEndpoint, ProbeState>,
    ep: DynEndpoint,
    tx_id: TxId,
) -> bool {
    &&& probes.contains_key(ep)
    &&& probes[ep] matches ProbeState::InFlight { transaction, .. }
    &&& transaction == tx_id
}

/// The UDP endpoints of the listed addresses.
pub open spec fn udp_endpoints(addresses: Seq<SocketAddress>) -> Seq<DynEndpoint> {
    addresses.map_values(|addr: SocketAddress| DynEndpoint::Udp(addr))
}

impl Node {
    /// The endpoints of the peer: its UDP addresses and its DERP relay.
    pub open spec fn endpoints(self) -> Set<DynEndpoint> {
        udp_endpoints(self.underlay_addresses@).to_set().insert(DynEndpoint::Derp(self.node_key))
    }
}

impl ProbeRound {
    /// The steps of the round, in their order: the report, the `CallMeMaybe` messages, the pings.
    pub open spec fn script(&self) -> Seq<ProbeAction> {
        let report = match self.best_path {
            Some(best_path) => seq![ProbeAction::PublishBestPath(best_path)],
            None => Seq::empty(),
        };
        report + self.call_me_maybes@.map_values(
            |ep: DynEndpoint| ProbeAction::SendCallMeMaybe(ep),
        ) + self.pings@.map_values(|ep: DynEndpoint| ProbeAction::SendPing(ep))
    }

    /// The steps of the round, in the order in which they are to be carried out.
    ///
    /// The peer is asked to open a reverse path before it is pinged.
    pub fn actions(&self) -> (actions: Vec<ProbeAction>)
        ensures
            actions@ == self.script(),
    {
        let mut actions: Vec<ProbeAction> = Vec::new();
        if let Some(best_path) = self.best_path {
            actions.push(ProbeAction::PublishBestPath(best_path));
        }
        let ghost report = actions@;
        let ghost requests = self.call_me_maybes@.map_values(
            |ep: DynEndpoint| ProbeAction::SendCallMeMaybe(ep),
        );
        let ghost pings = self.pings@.map_values(|ep: DynEndpoint| ProbeAction::SendPing(ep));
        assert(requests.take(0) =~= Seq::empty());
        let mut i: usize = 0;
        while i < self.call_me_maybes.len()
            invariant
                i <= self.call_me_maybes@.len(),
                requests == self.call_me_maybes@.map_values(
                    |ep: DynEndpoint| ProbeAction::SendCallMeMaybe(ep),
                ),
                actions@ == report + requests.take(i as int),
            decreases self.call_me_maybes@.len() - i,
        {
            actions.push(ProbeAction::SendCallMeMaybe(self.call_me_maybes[i]));
            assert(requests.take(i + 1) =~= requests.take(i as int).push(requests[i as int]));
            i += 1;
        }
        assert(requests.take(i as int) =~= requests);
        assert(pings.take(0) =~= Seq::empty());
        let mut j: usize = 0;
        while j < self.pings.len()
            invariant
                j <= self.pings@.len(),
                pings == self.pings@.map_values(|ep: DynEndpoint| ProbeAction::SendPing(ep)),
                actions@ == report + requests + pings.take(j as int),
            decreases self.pings@.len() - j,
        {
            actions.push(ProbeAction::SendPing(self.pings[j]));
            assert(pings.take(j + 1) =~= pings.take(j as int).push(pings[j as int]));
            j += 1;
        }
        assert(pings.take(j as int) =~= pings);
        assert(actions@ =~= self.script());
        actions
    }
}

impl PeerPdState {
    /// The state of a new agent, which knows nothing yet.
    pub open spec fn initial(peer_id: PeerId) -> PeerPdState {
        PeerPdState {
            peer_id,
            disco_key: None,
            started_probing: false,
            current_probes: Map::empty(),
            tx_lookup: Map::empty(),
            previous_probe_latencies: Map::empty(),
            this_node_endpoints: Seq::empty(),
            coord_endpoints_ctrl: Set::empty(),
            endpoints_ctrl: Set::empty(),
            endpoints_cmm: Set::empty(),
            seen_peer_endpoints: Map::empty(),
        }
    }

    /// Whether enough is known to send probes.
    pub open spec fn can_probe(self) -> bool {
        &&& self.disco_key is Some
        &&& self.coord_endpoints_ctrl != Set::<DynEndpoint>::empty()
        &&& self.this_node_endpoints.len() > 0
    }

    /// The endpoints that a round pings: all that are known, but for the disco coordinators.
    pub open spec fn ping_targets(self) -> Set<DynEndpoint> {
        self.seen_peer_endpoints.dom().union(self.endpoints_cmm).union(self.endpoints_ctrl).filter(
            |ep: DynEndpoint| !ep.coordinates(),
        )
    }

    /// The state after a new round has wiped the probes of the last and kept what they measured.
    pub open spec fn round_started(self) -> PeerPdState {
        PeerPdState {
            started_probing: true,
            current_probes: Map::empty(),
            tx_lookup: Map::empty(),
            previous_probe_latencies: latencies(self.current_probes),
            ..self
        }
    }

    /// The state after an attempt to start a round.
    pub open spec fn after_start_probes(self) -> PeerPdState {
        if self.can_probe() {
            self.round_started()
        } else {
            self
        }
    }

    /// Whether `round` is what an attempt to start a round is to do from this state.
    pub open spec fn starts(self, round: Option<ProbeRound>) -> bool {
        match round {
            None => !self.can_probe(),
            Some(round) => {
                &&& self.can_probe()
                &&& self.disco_key == Some(round.disco_key)
                &&& self.reports(round.best_path)
                &&& enumerates(round.call_me_maybes@, self.coord_endpoints_ctrl)
                &&& round.advertised@ == self.this_node_endpoints
                &&& enumerates(round.pings@, self.ping_targets())
            },
        }
    }

    /// The state after a ping has gone out.
    pub open spec fn after_ping(self, ping: PingRequest, sent: Nanos) -> PeerPdState {
        PeerPdState {
            current_probes: self.current_probes.insert(
                ping.ep,
                ProbeState::InFlight { transaction: ping.tx_id, sent },
            ),
            tx_lookup: self.tx_lookup.insert(ping.tx_id, ping.ep),
            ..self
        }
    }

    /// The seen endpoints that have sent traffic recently enough to be kept at time `now`.
    pub open spec fn recently_seen(self, now: Nanos) -> Set<DynEndpoint> {
        self.seen_peer_endpoints.dom().filter(
            |ep: DynEndpoint|
                elapsed(self.seen_peer_endpoints[ep], now) <= SEEN_ENDPOINTS_TIMEOUT,
        )
    }

    /// The state after seen endpoints that have been silent for too long are forgotten.
    pub open spec fn after_gc(self, now: Nanos) -> PeerPdState {
        PeerPdState {
            seen_peer_endpoints: self.seen_peer_endpoints.restrict(self.recently_seen(now)),
            ..self
        }
    }

    /// Those of `eps` that are known from control alone.
    pub open spec fn known_from_control_only(self, eps: Set<DynEndpoint>) -> Set<DynEndpoint> {
        eps.filter(
            |ep: DynEndpoint|
                !self.endpoints_cmm.contains(ep) && !self.seen_peer_endpoints.contains_key(ep),
        )
    }

    /// The state after the probes of those of `eps` that are known from control alone, and the
    /// transactions of these probes, are dropped.
    pub open spec fn after_forgetting(self, eps: Set<DynEndpoint>) -> PeerPdState {
        let gone = self.known_from_control_only(eps);
        PeerPdState {
            current_probes: self.current_probes.remove_keys(gone),
            tx_lookup: self.tx_lookup.remove_keys(transactions(self.current_probes, gone)),
            ..self
        }
    }

    /// The state after the peer has left the network map.
    pub open spec fn after_deletion(self) -> PeerPdState {
        PeerPdState {
            coord_endpoints_ctrl: Set::empty(),
            endpoints_ctrl: Set::empty(),
            ..self.after_forgetting(self.endpoints_ctrl.union(self.coord_endpoints_ctrl))
        }
    }

    /// The state after the network map has said that the peer is `node`.
    pub open spec fn after_node(self, node: Node) -> PeerPdState {
        PeerPdState {
            disco_key: node.disco_key,
            coord_endpoints_ctrl: node.endpoints().filter(|ep: DynEndpoint| ep.coordinates()),
            endpoints_ctrl: node.endpoints().filter(|ep: DynEndpoint| !ep.coordinates()),
            ..self
        }
    }

    /// The state after an attempt to start the first round. Once there has been one, only the
    /// schedule starts rounds.
    pub open spec fn after_first_round(self) -> PeerPdState {
        if self.started_probing {
            self
        } else {
            self.after_start_probes()
        }
    }

    /// Whether `round` is what an attempt to start the first round is to do from this state.
    pub open spec fn starts_first(self, round: Option<ProbeRound>) -> bool {
        if self.started_probing {
            round is None
        } else {
            self.starts(round)
        }
    }

    /// The state after traffic of the peer has arrived from `ep`.
    pub open spec fn after_seen(self, ep: DynEndpoint, now: Nanos) -> PeerPdState {
        PeerPdState { seen_peer_endpoints: self.seen_peer_endpoints.insert(ep, now), ..self }
    }

    /// The state after the pong of transaction `tx_id` has arrived over `transport`.
    ///
    /// The transaction ends. If its endpoint has a probe in flight, the probe succeeds.
    pub open spec fn after_pong(
        self,
        tx_id: TxId,
        transport: UnderlayTransportId,
        now: Nanos,
    ) -> PeerPdState {
        if !self.tx_lookup.contains_key(tx_id) {
            self
        } else {
            let ep = self.tx_lookup[tx_id];
            PeerPdState {
                tx_lookup: self.tx_lookup.remove(tx_id),
                current_probes: match self.current_probes.get(ep) {
                    Some(ProbeState::InFlight { sent, .. }) => self.current_probes.insert(
                        ep,
                        ProbeState::Success { latency: elapsed(sent, now), transport },
                    ),
                    _ => self.current_probes,
                },
                ..self
            }
        }
    }

    /// The state after a disco message has arrived. Messages of others than the peer change
    /// nothing.
    pub open spec fn after_incoming(self, msg: IncomingDiscoMsg, now: Nanos) -> PeerPdState {
        if self.disco_key != Some(msg.sender_pubkey) {
            self
        } else {
            let seen = self.after_seen(msg.sender, now);
            match msg.body {
                DiscoBody::Pong { tx_id } => seen.after_pong(tx_id, msg.transport, now),
                DiscoBody::CallMeMaybe { addresses } => PeerPdState {
                    endpoints_cmm: udp_endpoints(addresses@).to_set(),
                    ..seen
                },
                DiscoBody::Other => seen,
            }
        }
    }

    /// The state after the network map has changed, before a first round is tried.
    pub open spec fn after_peer_state(self, state: PeerState) -> PeerPdState {
        if state.deletions@.contains(self.peer_id) {
            self.after_deletion()
        } else if state.peers@.contains_key(self.peer_id) {
            self.after_node(state.peers@[self.peer_id])
        } else {
            self
        }
    }

    /// Whether a change of the network map is one that might make the first round possible: it
    /// lists the peer and does not remove it.
    pub open spec fn is_listed(self, state: PeerState) -> bool {
        !state.deletions@.contains(self.peer_id) && state.peers@.contains_key(self.peer_id)
    }

    /// The state after this node's endpoints have changed, before a first round is tried.
    pub open spec fn after_new_endpoints(self, endpoints: Seq<SocketAddress>) -> PeerPdState {
        PeerPdState { this_node_endpoints: endpoints, ..self }
    }

    /// Whether `report` is the report of the best path that the probes have found: none where no
    /// probe has succeeded, else a path of lowest latency.
    pub open spec fn reports(self, report: Option<PeerBestPath>) -> bool {
        let found = latencies(self.current_probes);
        match report {
            None => found == Map::<(UnderlayTransportId, DynEndpoint), Nanos>::empty(),
            Some(report) => {
                &&& report.peer == self.peer_id
                &&& report.ep matches Some(path)
                &&& is_fastest(found, path)
            },
        }
    }
}

/// The name under which the agent of a peer is registered: `peerpd_` and the peer's number.
pub open spec fn actor_name_text(peer_id: PeerId) -> Seq<char> {
    "peerpd_"@ + crate::decimal::decimal(peer_id.0 as nat)
}

/// Single-peer path discovery agent.
#[derive(Debug)]
pub struct PeerPd {
    /// The peer.
    pub peer_id: PeerId,
    /// The key that the peer signs its disco messages with, once it is known.
    pub disco_key: Option<DiscoPublicKey>,
    /// Whether there has been enough information to send probes yet.
    ///
    /// Until there has, a round is tried whenever information arrives that might make one
    /// possible. From then on only the schedule starts rounds.
    pub started_probing: bool,
    /// Records for current-generation probes (in-flight, or newly succeeded).
    pub current_probes: LinearMap<DynEndpoint, ProbeState>,
    /// Lookup from transaction id to the endpoint to which it corresponds.
    ///
    /// Pongs may come in whose transaction is not in this map, for instance from probes that
    /// have timed out.
    pub tx_lookup: LinearMap<TxId, DynEndpoint>,
    /// The latencies that the last generation of probes measured.
    pub previous_probe_latencies: LinearMap<(UnderlayTransportId, DynEndpoint), Nanos>,
    /// The addresses at which this node may be reached.
    pub this_node_endpoints: Vec<SocketAddress>,
    /// The peer's endpoints learned from control which can be used for disco coordination, i.e.
    /// to send `CallMeMaybe` messages.
    pub coord_endpoints_ctrl: LinearSet<DynEndpoint>,
    /// The peer's other endpoints learned from control.
    pub endpoints_ctrl: LinearSet<DynEndpoint>,
    /// Endpoints for this peer derived from its most recent `CallMeMaybe` message.
    pub endpoints_cmm: LinearSet<DynEndpoint>,
    /// Endpoints from which disco traffic of this peer has arrived, with the time at which it
    /// last did. They are probed even if neither control nor a `CallMeMaybe` lists them.
    pub seen_peer_endpoints: LinearMap<DynEndpoint, Nanos>,
}

impl View for PeerPd {
    type V = PeerPdState;

    open spec fn view(&self) -> PeerPdState {
        PeerPdState {
            peer_id: self.peer_id,
            disco_key: self.disco_key,
            started_probing: self.started_probing,
            current_probes: self.current_probes@,
            tx_lookup: self.tx_lookup@,
            previous_probe_latencies: self.previous_probe_latencies@,
            this_node_endpoints: self.this_node_endpoints@,
            coord_endpoints_ctrl: self.coord_endpoints_ctrl@,
            endpoints_ctrl: self.endpoints_ctrl@,
            endpoints_cmm: self.endpoints_cmm@,
            seen_peer_endpoints: self.seen_peer_endpoints@,
        }
    }
}

fn copy_addresses(list: &Vec<SocketAddress>) -> (r: Vec<SocketAddress>)
    ensures
        r@ == list@,
{
    let mut r: Vec<SocketAddress> = Vec::new();
    let mut i: usize = 0;
    while i < list.len()
        invariant
            i <= list@.len(),
            r@ == list@.take(i as int),
        decreases list@.len() - i,
    {
        r.push(list[i]);
        assert(list@.take(i + 1) =~= list@.take(i as int).push(list@[i as int]));
        i += 1;
    }
    assert(list@.take(i as int) =~= list@);
    r
}

impl PeerPd {
    /// Every map and set holds each of its keys once.
    pub open spec fn wf(&self) -> bool {
        &&& self.current_probes.wf()
        &&& self.tx_lookup.wf()
        &&& self.previous_probe_latencies.wf()
        &&& self.coord_endpoints_ctrl.wf()
        &&& self.endpoints_ctrl.wf()
        &&& self.endpoints_cmm.wf()
        &&& self.seen_peer_endpoints.wf()
    }

    /// A new agent for the peer `peer_id`.
    pub fn new(peer_id: PeerId) -> (pd: Self)
        ensures
            pd.wf(),
            pd@ == PeerPdState::initial(peer_id),
    {
        PeerPd {
            peer_id,
            disco_key: None,
            started_probing: false,
            current_probes: LinearMap::new(),
            tx_lookup: LinearMap::new(),
            previous_probe_latencies: LinearMap::new(),
            this_node_endpoints: Vec::new(),
            coord_endpoints_ctrl: LinearSet::new(),
            endpoints_ctrl: LinearSet::new(),
            endpoints_cmm: LinearSet::new(),
            seen_peer_endpoints: LinearMap::new(),
        }
    }

    /// The name under which the agent of a peer is registered.
    pub fn actor_name(peer_id: PeerId) -> (name: String)
        ensures
            name@ == actor_name_text(peer_id),
    {
        let mut name = String::from_str("peerpd_");
        append_decimal(&mut name, peer_id.0);
        name
    }

    /// The latencies that the current probes have measured.
    fn measured_latencies(&self) -> (found: LinearMap<(UnderlayTransportId, DynEndpoint), Nanos>)
        requires
            self.current_probes.wf(),
        ensures
            found.wf(),
            found@ == latencies(self.current_probes@),
    {
        let ghost probes = self.current_probes@;
        let ghost keys = self.current_probes.keys();
        proof {
            self.current_probes.lemma_keys();
        }
        let mut found: LinearMap<(UnderlayTransportId, DynEndpoint), Nanos> = LinearMap::new();
        let mut i: usize = 0;
        let n: usize = self.current_probes.len();
        while i < n
            invariant
                i <= n,
                n == keys.len(),
                self.current_probes.wf(),
                probes == self.current_probes@,
                keys == self.current_probes.keys(),
                keys.no_duplicates(),
                found.wf(),
                forall|path: (UnderlayTransportId, DynEndpoint)| #[trigger]
                    found@.contains_key(path) <==> measured(probes, path) && keys.take(
                        i as int,
                    ).contains(path.1),
                forall|path: (UnderlayTransportId, DynEndpoint)| #[trigger]
                    found@.contains_key(path) ==> found@[path] == probes[path.1]->latency,
            decreases n - i,
        {
            let ep: DynEndpoint = *self.current_probes.key_at(i);
            let state: ProbeState = *self.current_probes.value_at(i);
            match state {
                ProbeState::Success { latency, transport } => {
                    found.insert((transport, ep), latency);
                },
                ProbeState::InFlight { .. } => {},
            }
            proof {
                let next = keys.take(i + 1);
                assert(next =~= keys.take(i as int).push(ep));
                assert forall|path: (UnderlayTransportId, DynEndpoint)| #[trigger]
                    found@.contains_key(path) <==> measured(probes, path) && next.contains(
                        path.1,
                    ) by {
                    crate::linear_map::lemma_push_contains(keys.take(i as int), ep, path.1);
                }
            }
            i += 1;
        }
        proof {
            assert(keys.take(i as int) =~= keys);
            assert(found@ =~= latencies(probes));
        }
        found
    }

    /// The endpoints to ping in a round.
    fn ping_list(&self) -> (list: Vec<DynEndpoint>)
        requires
            self.wf(),
        ensures
            enumerates(list@, self@.ping_targets()),
    {
        let mut eps: LinearSet<DynEndpoint> = LinearSet::new();
        let ghost seen = self.seen_peer_endpoints.keys();
        proof {
            self.seen_peer_endpoints.lemma_keys();
            assert(eps@ =~= probed(seen.take(0)));
        }
        let mut i: usize = 0;
        while i < self.seen_peer_endpoints.len()
            invariant
                i <= seen.len(),
                seen == self.seen_peer_endpoints.keys(),
                self.seen_peer_endpoints.wf(),
                eps.wf(),
                eps@ == probed(seen.take(i as int)),
            decreases seen.len() - i,
        {
            add_ping_target(&mut eps, *self.seen_peer_endpoints.key_at(i));
            proof {
                lemma_probed_next(seen, i as int);
            }
            i += 1;
        }
        assert(seen.take(i as int) =~= seen);
        add_ping_targets(&mut eps, &self.endpoints_cmm);
        add_ping_targets(&mut eps, &self.endpoints_ctrl);
        proof {
            assert(eps@ =~= self@.ping_targets());
        }
        eps.to_list()
    }

    /// Starts a round of probes, if enough is known to send them.
    ///
    /// The probes of the round before are wiped; what they measured is kept, and the fastest path
    /// that they found is reported. The caller carries the round out: see
    /// [`ProbeRound::actions`].
    pub fn start_probes(&mut self) -> (round: Option<ProbeRound>)
        requires
            old(self).wf(),
        ensures
            final(self).wf(),
            final(self)@ == old(self)@.after_start_probes(),
            old(self)@.starts(round),
    {
        let disco_key = match self.disco_key {
            Some(disco_key) => disco_key,
            None => return None,
        };

        if self.coord_endpoints_ctrl.is_empty() {
            return None;
        }

        if self.this_node_endpoints.is_empty() {
            return None;
        }

        self.started_probing = true;
        self.tx_lookup.clear();

        let found = self.measured_latencies();
        let best_path = match fastest(&found) {
            Some(path) => Some(PeerBestPath { peer: self.peer_id, ep: Some(path) }),
            None => None,
        };
        self.previous_probe_latencies = found;
        self.current_probes.clear();

        let call_me_maybes = self.coord_endpoints_ctrl.to_list();
        let advertised = copy_addresses(&self.this_node_endpoints);
        let pings = self.ping_list();

        Some(ProbeRound { disco_key, best_path, call_me_maybes, advertised, pings })
    }

    /// A ping to `ep` under a transaction id drawn at random.
    ///
    /// Once the ping is sent, [`PeerPd::ping_sent`] records it.
    pub fn send_disco_ping(ep: DynEndpoint, disco_key: DiscoPublicKey) -> (ping: PingRequest)
        ensures
            ping.ep == ep,
            ping.disco_key == disco_key,
    {
        PingRequest { ep, disco_key, tx_id: random_tx_id() }
    }

    /// Records that `ping` went out at time `sent`.
    pub fn ping_sent(&mut self, ping: PingRequest, sent: Nanos)
        requires
            old(self).wf(),
        ensures
            final(self).wf(),
            final(self)@ == old(self)@.after_ping(ping, sent),
    {
        self.current_probes.insert(
            ping.ep,
            ProbeState::InFlight { transaction: ping.tx_id, sent },
        );
        self.tx_lookup.insert(ping.tx_id, ping.ep);
    }

    /// Forgets the seen endpoints that have been silent for longer than
    /// [`SEEN_ENDPOINTS_TIMEOUT`].
    pub fn gc_seen_endpoints(&mut self, now: Nanos)
        requires
            old(self).wf(),
        ensures
            final(self).wf(),
            final(self)@ == old(self)@.after_gc(now),
    {
        let ghost before = self.seen_peer_endpoints@;
        let ghost keys = self.seen_peer_endpoints.keys();
        let ghost kept = self@.recently_seen(now);
        proof {
            self.seen_peer_endpoints.lemma_keys();
        }
        let mut seen: LinearMap<DynEndpoint, Nanos> = LinearMap::new();
        let mut i: usize = 0;
        while i < self.seen_peer_endpoints.len()
            invariant
                i <= keys.len(),
                keys == self.seen_peer_endpoints.keys(),
                before == self.seen_peer_endpoints@,
                kept == self@.recently_seen(now),
                self.seen_peer_endpoints.wf(),
                seen.wf(),
                forall|ep: DynEndpoint| #[trigger]
                    seen@.contains_key(ep) <==> kept.contains(ep) && keys.take(
                        i as int,
                    ).contains(ep),
                forall|ep: DynEndpoint| #[trigger]
                    seen@.contains_key(ep) ==> seen@[ep] == before[ep],
            decreases keys.len() - i,
        {
            let ep: DynEndpoint = *self.seen_peer_endpoints.key_at(i);
            let last: Nanos = *self.seen_peer_endpoints.value_at(i);
            if time_since(last, now) <= SEEN_ENDPOINTS_TIMEOUT {
                seen.insert(ep, last);
            }
            proof {
                let next = keys.take(i + 1);
                assert(next =~= keys.take(i as int).push(ep));
                assert forall|x: DynEndpoint| #[trigger]
                    seen@.contains_key(x) <==> kept.contains(x) && next.contains(x) by {
                    crate::linear_map::lemma_push_contains(keys.take(i as int), ep, x);
                }
            }
            i += 1;
        }
        proof {
            assert(keys.take(i as int) =~= keys);
            assert(seen@ =~= before.restrict(kept));
        }
        self.seen_peer_endpoints = seen;
    }

    /// The scheduled start of a round, at time `now`.
    pub fn handle_schedule_probe(&mut self, now: Nanos) -> (round: Option<ProbeRound>)
        requires
            old(self).wf(),
        ensures
            final(self).wf(),
            final(self)@ == old(self)@.after_gc(now).after_start_probes(),
            old(self)@.after_gc(now).starts(round),
    {
        self.gc_seen_endpoints(now);
        self.start_probes()
    }

    /// Drops the probe of `ep`, and its transaction, unless `ep` is known from elsewhere than
    /// control.
    fn forget(&mut self, ep: DynEndpoint)
        requires
            old(self).wf(),
        ensures
            final(self).wf(),
            final(self)@ == old(self)@.after_forgetting(set![ep]),
            final(self).endpoints_ctrl == old(self).endpoints_ctrl,
            final(self).coord_endpoints_ctrl == old(self).coord_endpoints_ctrl,
    {
        let ghost gone = self@.known_from_control_only(set![ep]);
        if self.endpoints_cmm.contains(&ep) || self.seen_peer_endpoints.contains_key(&ep) {
            proof {
                assert(gone =~= Set::<DynEndpoint>::empty());
                assert(transactions(self@.current_probes, gone) =~= Set::<TxId>::empty());
                assert(self@ =~= self@.after_forgetting(set![ep]));
            }
            return;
        }
        assert(gone =~= set![ep]);
        let ghost probes = self.current_probes@;
        match self.current_probes.remove(&ep) {
            Some(ProbeState::InFlight { transaction, .. }) => {
                self.tx_lookup.remove(&transaction);
                proof {
                    assert(gone.contains(ep) && in_flight(probes, ep, transaction));
                    assert(transactions(probes, gone) =~= set![transaction]);
                }
            },
            _ => {
                assert(transactions(probes, gone) =~= Set::<TxId>::empty());
            },
        }
        assert(self@ =~= old(self)@.after_forgetting(set![ep]));
    }

    /// Drops the probes of those of `eps` that are known from control alone.
    fn forget_all(&mut self, eps: &Vec<DynEndpoint>)
        requires
            old(self).wf(),
        ensures
            final(self).wf(),
            final(self)@ == old(self)@.after_forgetting(eps@.to_set()),
    {
        let ghost before = self@;
        proof {
            assert(eps@.take(0).to_set() =~= Set::<DynEndpoint>::empty());
            lemma_forget_none(before);
        }
        let mut i: usize = 0;
        while i < eps.len()
            invariant
                i <= eps@.len(),
                self.wf(),
                self@ == before.after_forgetting(eps@.take(i as int).to_set()),
            decreases eps@.len() - i,
        {
            self.forget(eps[i]);
            proof {
                let done = eps@.take(i as int);
                lemma_forget_union(before, done.to_set(), set![eps@[i as int]]);
                assert(eps@.take(i + 1) =~= done.push(eps@[i as int]));
                assert forall|ep: DynEndpoint| #[trigger]
                    eps@.take(i + 1).contains(ep) <==> done.contains(ep) || ep
                        == eps@[i as int] by {
                    crate::linear_map::lemma_push_contains(done, eps@[i as int], ep);
                }
                assert(eps@.take(i + 1).to_set() =~= done.to_set().union(set![eps@[i as int]]));
            }
            i += 1;
        }
        assert(eps@.take(i as int) =~= eps@);
    }

    /// Takes in a change of the network map.
    ///
    /// If the peer was deleted, its endpoints are wiped; the agent itself goes on until the peer
    /// is no longer active. If the peer is listed, its key and endpoints are taken over, and a
    /// first round is tried.
    pub fn handle_peer_state(&mut self, state: &PeerState) -> (round: Option<ProbeRound>)
        requires
            old(self).wf(),
            state.wf(),
        ensures
            final(self).wf(),
            old(self)@.is_listed(*state) ==> {
                &&& final(self)@ == old(self)@.after_peer_state(*state).after_first_round()
                &&& old(self)@.after_peer_state(*state).starts_first(round)
            },
            !old(self)@.is_listed(*state) ==> {
                &&& final(self)@ == old(self)@.after_peer_state(*state)
                &&& round is None
            },
    {
        if state.deletions.contains(&self.peer_id) {
            let others = self.endpoints_ctrl.to_list();
            let coordinators = self.coord_endpoints_ctrl.to_list();
            self.forget_all(&others);
            self.forget_all(&coordinators);
            proof {
                lemma_forget_union(
                    old(self)@,
                    old(self)@.endpoints_ctrl,
                    old(self)@.coord_endpoints_ctrl,
                );
            }
            self.endpoints_ctrl.clear();
            self.coord_endpoints_ctrl.clear();
            return None;
        }

        let node = match state.peers.get(&self.peer_id) {
            Some(node) => node,
            None => return None,
        };

        self.disco_key = node.disco_key;

        let mut coordinators: LinearSet<DynEndpoint> = LinearSet::new();
        let mut others: LinearSet<DynEndpoint> = LinearSet::new();
        let ghost udp = udp_endpoints(node.underlay_addresses@);
        proof {
            assert(coordinators@ =~= coordinating(udp.take(0).to_set()));
            assert(others@ =~= probed(udp.take(0)));
        }
        let mut i: usize = 0;
        while i < node.underlay_addresses.len()
            invariant
                i <= node.underlay_addresses@.len(),
                udp == udp_endpoints(node.underlay_addresses@),
                coordinators.wf(),
                others.wf(),
                coordinators@ == coordinating(udp.take(i as int).to_set()),
                others@ == probed(udp.take(i as int)),
            decreases node.underlay_addresses@.len() - i,
        {
            let ep = DynEndpoint::udp(node.underlay_addresses[i]);
            sort_endpoint(&mut coordinators, &mut others, ep);
            proof {
                lemma_probed_next(udp, i as int);
                lemma_coordinating_next(udp, i as int);
            }
            i += 1;
        }
        assert(udp.take(i as int) =~= udp);
        sort_endpoint(&mut coordinators, &mut others, DynEndpoint::derp(node.node_key));
        proof {
            assert(coordinators@ =~= node.endpoints().filter(|ep: DynEndpoint| ep.coordinates()));
            assert(others@ =~= node.endpoints().filter(|ep: DynEndpoint| !ep.coordinates()));
        }
        self.coord_endpoints_ctrl = coordinators;
        self.endpoints_ctrl = others;

        if !self.started_probing {
            self.start_probes()
        } else {
            None
        }
    }

    /// Takes in the addresses at which this node may be reached, and tries a first round.
    pub fn handle_new_endpoints(&mut self, endpoints: Vec<SocketAddress>) -> (round: Option<
        ProbeRound,
    >)
        requires
            old(self).wf(),
        ensures
            final(self).wf(),
            final(self)@ == old(self)@.after_new_endpoints(endpoints@).after_first_round(),
            old(self)@.after_new_endpoints(endpoints@).starts_first(round),
    {
        self.this_node_endpoints = endpoints;

        if !self.started_probing {
            self.start_probes()
        } else {
            None
        }
    }

    /// Whether the agent is to stop, because its peer is no longer active.
    pub fn handle_active_peers(&self, active: &ActivePeers) -> (stop: bool)
        ensures
            stop == !active@.contains(self.peer_id),
    {
        !active.contains(&self.peer_id)
    }

    /// Takes in a disco message that arrived at time `now`.
    pub fn handle_incoming(&mut self, msg: &IncomingDiscoMsg, now: Nanos)
        requires
            old(self).wf(),
        ensures
            final(self).wf(),
            final(self)@ == old(self)@.after_incoming(*msg, now),
    {
        match self.disco_key {
            Some(disco_key) => {
                if !disco_key.same(&msg.sender_pubkey) {
                    return;
                }
            },
            None => return,
        }

        self.seen_peer_endpoints.insert(msg.sender, now);

        match &msg.body {
            DiscoBody::Pong { tx_id } => {
                let ep = match self.tx_lookup.remove(tx_id) {
                    Some(ep) => ep,
                    None => {
                        assert(self.tx_lookup@ =~= old(self).tx_lookup@);
                        return;
                    },
                };
                match self.current_probes.get(&ep) {
                    Some(ProbeState::InFlight { sent, .. }) => {
                        let latency = time_since(*sent, now);
                        self.current_probes.insert(
                            ep,
                            ProbeState::Success { latency, transport: msg.transport },
                        );
                    },
                    _ => {},
                }
            },
            DiscoBody::CallMeMaybe { addresses } => {
                self.endpoints_cmm = udp_endpoint_set(addresses);
            },
            DiscoBody::Other => {},
        }
    }
}

/// Those of `eps` that are disco coordinators.
spec fn coordinating(eps: Set<DynEndpoint>) -> Set<DynEndpoint> {
    eps.filter(|ep: DynEndpoint| ep.coordinates())
}

proof fn lemma_coordinating_next(list: Seq<DynEndpoint>, i: int)
    requires
        0 <= i < list.len(),
    ensures
        coordinating(list.take(i + 1).to_set()) == if list[i].coordinates() {
            coordinating(list.take(i).to_set()).insert(list[i])
        } else {
            coordinating(list.take(i).to_set())
        },
{
    assert(list.take(i + 1) =~= list.take(i).push(list[i]));
    assert forall|ep: DynEndpoint| #[trigger]
        list.take(i + 1).contains(ep) <==> list.take(i).contains(ep) || ep == list[i] by {
        crate::linear_map::lemma_push_contains(list.take(i), list[i], ep);
    }
    assert(coordinating(list.take(i + 1).to_set()) =~= if list[i].coordinates() {
        coordinating(list.take(i).to_set()).insert(list[i])
    } else {
        coordinating(list.take(i).to_set())
    });
}

/// Puts `ep` among the disco coordinators or among the others.
fn sort_endpoint(
    coordinators: &mut LinearSet<DynEndpoint>,
    others: &mut LinearSet<DynEndpoint>,
    ep: DynEndpoint,
)
    requires
        old(coordinators).wf(),
        old(others).wf(),
    ensures
        final(coordinators).wf(),
        final(others).wf(),
        final(coordinators)@ == if ep.coordinates() {
            old(coordinators)@.insert(ep)
        } else {
            old(coordinators)@
        },
        final(others)@ == if ep.coordinates() {
            old(others)@
        } else {
            old(others)@.insert(ep)
        },
{
    if ep.is_disco_coordinator() {
        coordinators.insert(ep);
    } else {
        others.insert(ep);
    }
}

/// The UDP endpoints of the listed addresses.
fn udp_endpoint_set(addresses: &Vec<SocketAddress>) -> (eps: LinearSet<DynEndpoint>)
    ensures
        eps.wf(),
        eps@ == udp_endpoints(addresses@).to_set(),
{
    let mut list: Vec<DynEndpoint> = Vec::new();
    let mut i: usize = 0;
    while i < addresses.len()
        invariant
            i <= addresses@.len(),
            list@ == udp_endpoints(addresses@.take(i as int)),
        decreases addresses@.len() - i,
    {
        list.push(DynEndpoint::udp(addresses[i]));
        assert(list@ =~= udp_endpoints(addresses@.take(i + 1)));
        i += 1;
    }
    assert(addresses@.take(i as int) =~= addresses@);
    LinearSet::from_list(&list)
}

/// Forgetting no endpoint changes nothing.
proof fn lemma_forget_none(s: PeerPdState)
    ensures
        s.after_forgetting(Set::empty()) == s,
{
    let gone = s.known_from_control_only(Set::empty());
    assert(gone =~= Set::<DynEndpoint>::empty());
    assert(transactions(s.current_probes, gone) =~= Set::<TxId>::empty());
    assert(s.after_forgetting(Set::empty()) =~= s);
}

/// Forgetting some endpoints and then others is forgetting all of them.
proof fn lemma_forget_union(s: PeerPdState, a: Set<DynEndpoint>, b: Set<DynEndpoint>)
    ensures
        s.after_forgetting(a).after_forgetting(b) == s.after_forgetting(a.union(b)),
{
    let mid = s.after_forgetting(a);
    let gone_a = s.known_from_control_only(a);
    let gone_b = s.known_from_control_only(b);
    let gone = s.known_from_control_only(a.union(b));
    assert(mid.known_from_control_only(b) =~= gone_b);
    assert(gone =~= gone_a.union(gone_b));
    assert forall|tx_id: TxId| #[trigger]
        transactions(s.current_probes, gone).contains(tx_id) <==> transactions(
            s.current_probes,
            gone_a,
        ).contains(tx_id) || transactions(mid.current_probes, gone_b).contains(tx_id) by {
        if transactions(s.current_probes, gone).contains(tx_id) {
            let ep = choose|ep: DynEndpoint| #[trigger]
                gone.contains(ep) && in_flight(s.current_probes, ep, tx_id);
            if !gone_a.contains(ep) {
                assert(gone_b.contains(ep) && in_flight(mid.current_probes, ep, tx_id));
            }
        }
        if transactions(s.current_probes, gone_a).contains(tx_id) {
            let ep = choose|ep: DynEndpoint| #[trigger]
                gone_a.contains(ep) && in_flight(s.current_probes, ep, tx_id);
            assert(gone.contains(ep));
        }
        if transactions(mid.current_probes, gone_b).contains(tx_id) {
            let ep = choose|ep: DynEndpoint| #[trigger]
                gone_b.contains(ep) && in_flight(mid.current_probes, ep, tx_id);
            assert(gone.contains(ep) && in_flight(s.current_probes, ep, tx_id));
        }
    }
    assert(mid.after_forgetting(b) =~= s.after_forgetting(a.union(b)));
}

/// Draws a transaction id with `rand::random`.
///
/// Nothing is claimed of the id: it is drawn from the thread's random number generator. The call
/// panics only if the operating system provides no randomness.
#[verifier::external_body]
fn random_tx_id() -> TxId {
    rand::random()
}

/// Those of the listed endpoints that are probed.
spec fn probed(list: Seq<DynEndpoint>) -> Set<DynEndpoint> {
    list.to_set().filter(|ep: DynEndpoint| !ep.coordinates())
}

proof fn lemma_probed_next(list: Seq<DynEndpoint>, i: int)
    requires
        0 <= i < list.len(),
    ensures
        probed(list.take(i + 1)) == if list[i].coordinates() {
            probed(list.take(i))
        } else {
            probed(list.take(i)).insert(list[i])
        },
{
    assert(list.take(i + 1) =~= list.take(i).push(list[i]));
    assert forall|ep: DynEndpoint| #[trigger]
        list.take(i + 1).contains(ep) <==> list.take(i).contains(ep) || ep == list[i] by {
        crate::linear_map::lemma_push_contains(list.take(i), list[i], ep);
    }
    assert(probed(list.take(i + 1)) =~= if list[i].coordinates() {
        probed(list.take(i))
    } else {
        probed(list.take(i)).insert(list[i])
    });
}

/// Adds `ep` unless it is a disco coordinator.
fn add_ping_target(eps: &mut LinearSet<DynEndpoint>, ep: DynEndpoint)
    requires
        old(eps).wf(),
    ensures
        final(eps).wf(),
        final(eps)@ == if ep.coordinates() {
            old(eps)@
        } else {
            old(eps)@.insert(ep)
        },
{
    if !ep.is_disco_coordinator() {
        eps.insert(ep);
    }
}

/// Adds the endpoints of `more` that are not disco coordinators.
fn add_ping_targets(eps: &mut LinearSet<DynEndpoint>, more: &LinearSet<DynEndpoint>)
    requires
        old(eps).wf(),
        more.wf(),
    ensures
        final(eps).wf(),
        final(eps)@ == old(eps)@.union(more@.filter(|ep: DynEndpoint| !ep.coordinates())),
{
    let ghost before = eps@;
    let ghost items = more.items();
    proof {
        more.lemma_items();
        assert(eps@ =~= before.union(probed(items.take(0))));
    }
    let mut i: usize = 0;
    while i < more.len()
        invariant
            i <= items.len(),
            items == more.items(),
            more.wf(),
            eps.wf(),
            eps@ == before.union(probed(items.take(i as int))),
        decreases items.len() - i,
    {
        add_ping_target(eps, *more.item_at(i));
        proof {
            lemma_probed_next(items, i as int);
            assert(eps@ =~= before.union(probed(items.take(i + 1))));
        }
        i += 1;
    }
    proof {
        assert(items.take(i as int) =~= items);
        assert(eps@ =~= before.union(more@.filter(|ep: DynEndpoint| !ep.coordinates())));
    }
}

/// A path of lowest latency.
fn fastest(measurements: &LinearMap<(UnderlayTransportId, DynEndpoint), Nanos>) -> (path: Option<
    (UnderlayTransportId, DynEndpoint),
>)
    requires
        measurements.wf(),
    ensures
        match path {
            Some(path) => is_fastest(measurements@, path),
            None => measurements@ == Map::<(UnderlayTransportId, DynEndpoint), Nanos>::empty(),
        },
{
    let n: usize = measurements.len();
    let ghost keys = measurements.keys();
    proof {
        measurements.lemma_keys();
    }
    if n == 0 {
        assert forall|path: (UnderlayTransportId, DynEndpoint)|
            !measurements@.contains_key(path) by {
            assert(!keys.contains(path));
        }
        assert(measurements@ =~= Map::<(UnderlayTransportId, DynEndpoint), Nanos>::empty());
        return None;
    }
    let mut best: usize = 0;
    let mut i: usize = 1;
    while i < n
        invariant
            measurements.wf(),
            keys == measurements.keys(),
            best < i <= n,
            n == keys.len(),
            forall|j: int|
                0 <= j < i ==> measurements@[keys[best as int]] <= measurements@[#[trigger] keys[j]],
        decreases n - i,
    {
        if *measurements.value_at(i) < *measurements.value_at(best) {
            best = i;
        }
        i += 1;
    }
    let path = measurements.key_at(best);
    assert forall|other: (UnderlayTransportId, DynEndpoint)| #[trigger]
        measurements@.contains_key(other) implies measurements@[*path] <= measurements@[other] by {
        assert(keys.contains(other));
    }
    Some((path.0, path.1))
}

} // verus!
