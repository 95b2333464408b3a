//! What holds of path discovery for one peer over many messages.
//!
//! An [`Event`] is one call of a handler, and [`PeerPdState::after_event`] the state that the
//! handler's contract gives. The laws speak of single events in any state, or of any sequence of
//! events.

use crate::endpoint::{DynEndpoint, SocketAddress};
use crate::peer_pd::{
    DiscoBody, IncomingDiscoMsg, Nanos, PeerPdState, PeerState, PingRequest, ProbeAction,
    ProbeRound, ProbeState, TxId,
};
use crate::transport::{PeerId, UnderlayTransportId};
use vstd::prelude::*;

verus! {

/// Something that an agent takes in.
pub enum Event {
    /// A ping went out.
    PingSent { ping: PingRequest, sent: Nanos },
    /// Seen endpoints that have been silent for too long are forgotten.
    CleanUp { now: Nanos },
    /// A round is to start. The schedule cleans up and then starts a round.
    StartProbes,
    /// The network map has changed.
    PeerState { state: PeerState },
    /// This node's endpoints have changed.
    NewEndpoints { endpoints: Seq<SocketAddress> },
    /// A disco message arrived.
    Incoming { msg: IncomingDiscoMsg, now: Nanos },
}

impl PeerPdState {
    /// The state after an event.
    pub open spec fn after_event(self, event: Event) -> PeerPdState {
        match event {
            Event::PingSent { ping, sent } => self.after_ping(ping, sent),
            Event::CleanUp { now } => self.after_gc(now),
            Event::StartProbes => self.after_start_probes(),
            Event::PeerState { state } => if self.is_listed(state) {
                self.after_peer_state(state).after_first_round()
            } else {
                self.after_peer_state(state)
            },
            Event::NewEndpoints { endpoints } => self.after_new_endpoints(
                endpoints,
            ).after_first_round(),
            Event::Incoming { msg, now } => self.after_incoming(msg, now),
        }
    }

    /// The state after a sequence of events.
    pub open spec fn after_events(self, events: Seq<Event>) -> PeerPdState
        decreases events.len(),
    {
        if events.len() == 0 {
            self
        } else {
            self.after_events(events.drop_last()).after_event(events.last())
        }
    }

    /// Whether the event starts a round.
    pub open spec fn is_round_start(self, event: Event) -> bool {
        match event {
            Event::StartProbes => self.can_probe(),
            Event::PeerState { state } => {
                &&& self.is_listed(state)
                &&& !self.started_probing
                &&& self.after_peer_state(state).can_probe()
            },
            Event::NewEndpoints { endpoints } => {
                &&& !self.started_probing
                &&& self.after_new_endpoints(endpoints).can_probe()
            },
            _ => false,
        }
    }

    /// The endpoints whose probes the event drops: where the peer leaves the network map, those
    /// that are known from control alone.
    pub open spec fn dropped_by(self, event: Event) -> Set<DynEndpoint> {
        match event {
            Event::PeerState { state } => if state.deletions@.contains(self.peer_id) {
                self.known_from_control_only(self.endpoints_ctrl.union(self.coord_endpoints_ctrl))
            } else {
                Set::empty()
            },
            _ => Set::empty(),
        }
    }

    /// Whether the event is a pong of the peer under transaction `tx_id`.
    pub open spec fn is_pong(self, event: Event, tx_id: TxId) -> bool {
        &&& event matches Event::Incoming { msg, .. }
        &&& self.disco_key == Some(msg.sender_pubkey)
        &&& msg.body == (DiscoBody::Pong { tx_id })
    }

    /// Every transaction that waits for a pong belongs to an endpoint whose probe is in flight
    /// under it, and the endpoints learned from control are sorted by whether they are disco
    /// coordinators.
    pub open spec fn consistent(self) -> bool {
        &&& forall|tx_id: TxId| #[trigger]
            self.tx_lookup.contains_key(tx_id) ==> crate::peer_pd::in_flight(
                self.current_probes,
                self.tx_lookup[tx_id],
                tx_id,
            )
        &&& forall|ep: DynEndpoint| #[trigger]
            self.coord_endpoints_ctrl.contains(ep) ==> ep.coordinates()
        &&& forall|ep: DynEndpoint| #[trigger]
            self.endpoints_ctrl.contains(ep) ==> !ep.coordinates()
    }

    /// Whether `ping`, which went out at time `sent`, waits for its pong: its endpoint has a probe
    /// in flight under its transaction, which is the one transaction that leads to the endpoint.
    pub open spec fn waits_for(self, ping: PingRequest, sent: Nanos) -> bool {
        &&& self.tx_lookup.contains_key(ping.tx_id)
        &&& self.tx_lookup[ping.tx_id] == ping.ep
        &&& self.current_probes.contains_key(ping.ep)
        &&& self.current_probes[ping.ep] == (ProbeState::InFlight {
            transaction: ping.tx_id,
            sent,
        })
        &&& forall|other: TxId| #[trigger]
            self.tx_lookup.contains_key(other) && self.tx_lookup[other] == ping.ep ==> other
                == ping.tx_id
    }

    /// Whether the event leaves `ping` waiting: it starts no round, sends no other ping to the
    /// same endpoint or under the same transaction, drops neither the endpoint nor the
    /// transaction, and is not the pong.
    pub open spec fn spares(self, event: Event, ping: PingRequest) -> bool {
        &&& !self.is_round_start(event)
        &&& event matches Event::PingSent { ping: other, .. } ==> other.ep != ping.ep
            && other.tx_id != ping.tx_id
        &&& !self.dropped_by(event).contains(ping.ep)
        &&& !crate::peer_pd::transactions(self.current_probes, self.dropped_by(event)).contains(
            ping.tx_id,
        )
        &&& !self.is_pong(event, ping.tx_id)
    }

    /// Whether each of the events leaves `ping` waiting.
    pub open spec fn all_spare(self, events: Seq<Event>, ping: PingRequest) -> bool
        decreases events.len(),
    {
        events.len() > 0 ==> {
            &&& self.all_spare(events.drop_last(), ping)
            &&& self.after_events(events.drop_last()).spares(events.last(), ping)
        }
    }

    /// Whether the probe of `ep` has succeeded with this latency over this transport.
    pub open spec fn has_measured(
        self,
        ep: DynEndpoint,
        latency: Nanos,
        transport: UnderlayTransportId,
    ) -> bool {
        &&& self.current_probes.contains_key(ep)
        &&& self.current_probes[ep] == (ProbeState::Success { latency, transport })
    }

    /// Whether the event leaves what was measured of `ep` as it is: it starts no round, does not
    /// ping the endpoint again and does not drop it.
    pub open spec fn keeps(self, event: Event, ep: DynEndpoint) -> bool {
        &&& !self.is_round_start(event)
        &&& event matches Event::PingSent { ping, .. } ==> ping.ep != ep
        &&& !self.dropped_by(event).contains(ep)
    }

    /// Whether each of the events leaves what was measured of `ep` as it is.
    pub open spec fn all_keep(self, events: Seq<Event>, ep: DynEndpoint) -> bool
        decreases events.len(),
    {
        events.len() > 0 ==> {
            &&& self.all_keep(events.drop_last(), ep)
            &&& self.after_events(events.drop_last()).keeps(events.last(), ep)
        }
    }

    /// The state after the listed pings have gone out, each at its time.
    pub open spec fn after_pings(self, pings: Seq<(PingRequest, Nanos)>) -> PeerPdState
        decreases pings.len(),
    {
        if pings.len() == 0 {
            self
        } else {
            self.after_pings(pings.drop_last()).after_ping(pings.last().0, pings.last().1)
        }
    }
}

/// Whether no endpoint is pinged twice.
pub open spec fn distinct_targets(pings: Seq<(PingRequest, Nanos)>) -> bool {
    forall|i: int, j: int|
        0 <= i < j < pings.len() ==> (#[trigger] pings[i]).0.ep != (#[trigger] pings[j]).0.ep
}

/// Whether no transaction id was drawn twice.
pub open spec fn distinct_ids(pings: Seq<(PingRequest, Nanos)>) -> bool {
    forall|i: int, j: int|
        0 <= i < j < pings.len() ==> (#[trigger] pings[i]).0.tx_id != (#[trigger] pings[j]).0.tx_id
}

/// Whether none of the events is a ping under transaction `tx_id`.
pub open spec fn no_ping_under(events: Seq<Event>, tx_id: TxId) -> bool {
    forall|i: int|
        0 <= i < events.len() ==> ((#[trigger] events[i]) matches Event::PingSent { ping, .. }
            ==> ping.tx_id != tx_id)
}

/// A new agent is consistent, and every event keeps it so.
///
/// A ping keeps it so if its endpoint has not been pinged in the round, which holds of the pings
/// of a round: see [`law_round_is_in_flight`].
pub proof fn law_consistency_is_kept(s: PeerPdState, peer_id: PeerId, event: Event)
    requires
        s.consistent(),
        event matches Event::PingSent { ping, .. } ==> !s.current_probes.contains_key(ping.ep),
    ensures
        PeerPdState::initial(peer_id).consistent(),
        s.after_event(event).consistent(),
{
    let t = s.after_event(event);
    match event {
        Event::PeerState { state } => {
            if state.deletions@.contains(s.peer_id) {
                let gone = s.dropped_by(event);
                assert forall|tx_id: TxId| #[trigger]
                    t.tx_lookup.contains_key(tx_id) implies crate::peer_pd::in_flight(
                    t.current_probes,
                    t.tx_lookup[tx_id],
                    tx_id,
                ) by {
                    let ep = s.tx_lookup[tx_id];
                    assert(s.tx_lookup.contains_key(tx_id));
                    if gone.contains(ep) {
                        assert(crate::peer_pd::in_flight(s.current_probes, ep, tx_id));
                        assert(crate::peer_pd::transactions(s.current_probes, gone).contains(
                            tx_id,
                        ));
                    }
                }
            }
        },
        Event::Incoming { msg, now } => {
            if let DiscoBody::Pong { tx_id } = msg.body {
                if s.tx_lookup.contains_key(tx_id) {
                    assert(crate::peer_pd::in_flight(s.current_probes, s.tx_lookup[tx_id], tx_id));
                    assert forall|other: TxId| #[trigger]
                        t.tx_lookup.contains_key(other) implies crate::peer_pd::in_flight(
                        t.current_probes,
                        t.tx_lookup[other],
                        other,
                    ) by {
                        assert(s.tx_lookup.contains_key(other));
                    }
                }
            }
        },
        _ => {},
    }
}

/// In a consistent state, a ping to an endpoint that has no probe waits for its pong, and so does
/// every transaction that is looked up.
pub proof fn law_ping_waits(s: PeerPdState, ping: PingRequest, sent: Nanos)
    requires
        s.consistent(),
    ensures
        !s.current_probes.contains_key(ping.ep) ==> s.after_ping(ping, sent).waits_for(ping, sent),
        s.tx_lookup.contains_key(ping.tx_id) && s.tx_lookup[ping.tx_id] == ping.ep
            && s.current_probes[ping.ep] == (ProbeState::InFlight {
            transaction: ping.tx_id,
            sent,
        }) ==> s.waits_for(ping, sent),
{
    let t = s.after_ping(ping, sent);
    if !s.current_probes.contains_key(ping.ep) {
        assert forall|other: TxId| #[trigger]
            t.tx_lookup.contains_key(other) && t.tx_lookup[other] == ping.ep implies other
            == ping.tx_id by {
            if other != ping.tx_id {
                assert(s.tx_lookup.contains_key(other));
            }
        }
    }
}

/// A ping goes on waiting under every event but the start of a round, a ping to the same endpoint
/// or under the same transaction, a deletion that drops it, and its pong.
pub proof fn law_waiting_ping_stays(s: PeerPdState, ping: PingRequest, sent: Nanos, event: Event)
    requires
        s.waits_for(ping, sent),
        s.spares(event, ping),
    ensures
        s.after_event(event).waits_for(ping, sent),
{
    let t = s.after_event(event);
    assert forall|other: TxId| #[trigger]
        t.tx_lookup.contains_key(other) && t.tx_lookup[other] == ping.ep implies other
        == ping.tx_id by {
        assert(s.tx_lookup.contains_key(other) || event is PingSent);
    }
}

/// What was measured stays under every event but the start of a round, a ping to the same endpoint
/// and a deletion that drops it.
pub proof fn law_measurement_stays(
    s: PeerPdState,
    ep: DynEndpoint,
    latency: Nanos,
    transport: UnderlayTransportId,
    event: Event,
)
    requires
        s.has_measured(ep, latency, transport),
        s.keeps(event, ep),
    ensures
        s.after_event(event).has_measured(ep, latency, transport),
{
}

proof fn lemma_waiting_ping_stays(
    s: PeerPdState,
    ping: PingRequest,
    sent: Nanos,
    events: Seq<Event>,
)
    requires
        s.waits_for(ping, sent),
        s.all_spare(events, ping),
    ensures
        s.after_events(events).waits_for(ping, sent),
    decreases events.len(),
{
    if events.len() > 0 {
        lemma_waiting_ping_stays(s, ping, sent, events.drop_last());
        law_waiting_ping_stays(
            s.after_events(events.drop_last()),
            ping,
            sent,
            events.last(),
        );
    }
}

proof fn lemma_measurement_stays(
    s: PeerPdState,
    ep: DynEndpoint,
    latency: Nanos,
    transport: UnderlayTransportId,
    events: Seq<Event>,
)
    requires
        s.has_measured(ep, latency, transport),
        s.all_keep(events, ep),
    ensures
        s.after_events(events).has_measured(ep, latency, transport),
    decreases events.len(),
{
    if events.len() > 0 {
        lemma_measurement_stays(s, ep, latency, transport, events.drop_last());
        law_measurement_stays(
            s.after_events(events.drop_last()),
            ep,
            latency,
            transport,
            events.last(),
        );
    }
}

/// The pong of a ping that waits measures the time since the ping went out, over the transport
/// that the pong came in on, and ends the transaction, whatever has happened in between that
/// leaves the ping waiting.
pub proof fn law_pong_measures_latency(
    s: PeerPdState,
    ping: PingRequest,
    sent: Nanos,
    between: Seq<Event>,
    msg: IncomingDiscoMsg,
    now: Nanos,
)
    requires
        s.waits_for(ping, sent),
        s.all_spare(between, ping),
        s.after_events(between).is_pong(Event::Incoming { msg, now }, ping.tx_id),
    ensures
        ({
            let t = s.after_events(between).after_incoming(msg, now);
            &&& t.has_measured(ping.ep, crate::peer_pd::elapsed(sent, now), msg.transport)
            &&& !t.tx_lookup.contains_key(ping.tx_id)
        }),
{
    lemma_waiting_ping_stays(s, ping, sent, between);
}

/// A path that a pong has measured before the next round starts is among the latencies that the
/// round keeps, and the round reports a path that is at least as fast, whatever has happened
/// between ping and pong that leaves the ping waiting, and between pong and round that leaves the
/// measurement as it is.
pub proof fn law_measured_path_is_reported(
    s: PeerPdState,
    ping: PingRequest,
    sent: Nanos,
    before: Seq<Event>,
    msg: IncomingDiscoMsg,
    now: Nanos,
    after: Seq<Event>,
    round: ProbeRound,
)
    requires
        s.waits_for(ping, sent),
        s.all_spare(before, ping),
        s.after_events(before).is_pong(Event::Incoming { msg, now }, ping.tx_id),
        s.after_events(before).after_incoming(msg, now).all_keep(after, ping.ep),
        s.after_events(before).after_incoming(msg, now).after_events(after).starts(Some(round)),
    ensures
        ({
            let kept = s.after_events(before).after_incoming(msg, now).after_events(
                after,
            ).after_start_probes().previous_probe_latencies;
            let latency = crate::peer_pd::elapsed(sent, now);
            &&& kept.contains_key((msg.transport, ping.ep))
            &&& kept[(msg.transport, ping.ep)] == latency
            &&& round.best_path matches Some(report)
            &&& report.ep matches Some(path)
            &&& kept.contains_key(path)
            &&& kept[path] <= latency
        }),
{
    let measured = s.after_events(before).after_incoming(msg, now);
    let latency = crate::peer_pd::elapsed(sent, now);
    law_pong_measures_latency(s, ping, sent, before, msg, now);
    lemma_measurement_stays(measured, ping.ep, latency, msg.transport, after);
    let t = measured.after_events(after);
    let path = (msg.transport, ping.ep);
    assert(crate::peer_pd::measured(t.current_probes, path));
    assert(crate::peer_pd::latencies(t.current_probes).contains_key(path));
}

/// A round reports a best path exactly if a probe of the round before has succeeded, and then no
/// probe of that round has measured a lower latency.
pub proof fn law_best_path_is_fastest(s: PeerPdState, round: ProbeRound, ep: DynEndpoint)
    requires
        s.starts(Some(round)),
    ensures
        round.best_path is None ==> !(s.current_probes.contains_key(ep)
            && s.current_probes[ep] is Success),
        round.best_path matches Some(report) ==> {
            &&& report.peer == s.peer_id
            &&& report.ep matches Some(path)
            &&& crate::peer_pd::measured(s.current_probes, path)
            &&& s.current_probes.contains_key(ep) ==> (s.current_probes[ep] matches
                ProbeState::Success { latency, .. } ==> s.current_probes[path.1]->latency
                <= latency)
        },
{
    let found = crate::peer_pd::latencies(s.current_probes);
    if s.current_probes.contains_key(ep) {
        if let ProbeState::Success { latency, transport } = s.current_probes[ep] {
            assert(crate::peer_pd::measured(s.current_probes, (transport, ep)));
            assert(found.contains_key((transport, ep)));
        }
    }
}

/// Messages that the peer has not signed change nothing; while the peer's key is not known, no
/// message does.
pub proof fn law_strangers_are_ignored(s: PeerPdState, msg: IncomingDiscoMsg, now: Nanos)
    requires
        s.disco_key != Some(msg.sender_pubkey),
    ensures
        s.after_incoming(msg, now) == s,
{
}

/// Only a ping under a transaction makes the transaction wait for a pong. A pong under a
/// transaction that does not wait leaves the probes and the transactions as they are.
pub proof fn law_only_a_ping_makes_a_transaction_wait(s: PeerPdState, tx_id: TxId, event: Event)
    requires
        !s.tx_lookup.contains_key(tx_id),
        event matches Event::PingSent { ping, .. } ==> ping.tx_id != tx_id,
    ensures
        !s.after_event(event).tx_lookup.contains_key(tx_id),
        s.is_pong(event, tx_id) ==> {
            &&& s.after_event(event).current_probes == s.current_probes
            &&& s.after_event(event).tx_lookup == s.tx_lookup
        },
{
}

proof fn lemma_stays_ended(s: PeerPdState, tx_id: TxId, events: Seq<Event>)
    requires
        !s.tx_lookup.contains_key(tx_id),
        no_ping_under(events, tx_id),
    ensures
        !s.after_events(events).tx_lookup.contains_key(tx_id),
    decreases events.len(),
{
    if events.len() > 0 {
        let rest = events.drop_last();
        assert forall|i: int| 0 <= i < rest.len() implies ((#[trigger] rest[i]) matches
            Event::PingSent { ping, .. } ==> ping.tx_id != tx_id) by {
            assert(rest[i] == events[i]);
        }
        lemma_stays_ended(s, tx_id, rest);
        assert(events.last() == events[events.len() - 1]);
        law_only_a_ping_makes_a_transaction_wait(s.after_events(rest), tx_id, events.last());
    }
}

/// A pong counts once: when a pong under the same transaction comes in again, the probes and the
/// transactions stay as they are, whatever has happened in between, unless a ping under the
/// transaction has gone out anew.
pub proof fn law_pong_counts_once(
    s: PeerPdState,
    msg: IncomingDiscoMsg,
    now: Nanos,
    tx_id: TxId,
    between: Seq<Event>,
    again: IncomingDiscoMsg,
    later: Nanos,
)
    requires
        s.is_pong(Event::Incoming { msg, now }, tx_id),
        no_ping_under(between, tx_id),
        again.body == (DiscoBody::Pong { tx_id }),
    ensures
        ({
            let t = s.after_incoming(msg, now).after_events(between);
            let u = t.after_incoming(again, later);
            u.current_probes == t.current_probes && u.tx_lookup == t.tx_lookup
        }),
{
    lemma_stays_ended(s.after_incoming(msg, now), tx_id, between);
}

/// A pong that comes in after the next round has started is not recorded: it leaves the probes and
/// the transactions as they are, whatever else has happened since, unless a ping under its
/// transaction has gone out anew.
pub proof fn law_late_pong_is_not_recorded(
    s: PeerPdState,
    start: Event,
    since: Seq<Event>,
    tx_id: TxId,
    msg: IncomingDiscoMsg,
    now: Nanos,
)
    requires
        s.is_round_start(start),
        no_ping_under(since, tx_id),
        msg.body == (DiscoBody::Pong { tx_id }),
    ensures
        ({
            let t = s.after_event(start).after_events(since);
            let u = t.after_incoming(msg, now);
            u.current_probes == t.current_probes && u.tx_lookup == t.tx_lookup
        }),
{
    lemma_stays_ended(s.after_event(start), tx_id, since);
}

/// The start of a round wipes the probes and the transactions of the round before; from then on
/// probing has started.
pub proof fn law_round_start_wipes_the_round_before(s: PeerPdState, start: Event)
    requires
        s.is_round_start(start),
    ensures
        s.after_event(start).current_probes == Map::<DynEndpoint, ProbeState>::empty(),
        s.after_event(start).tx_lookup == Map::<TxId, DynEndpoint>::empty(),
        s.after_event(start).previous_probe_latencies == crate::peer_pd::latencies(
            s.current_probes,
        ),
        s.after_event(start).started_probing,
{
}

/// Once the pings of a round have gone out, exactly the endpoints that were pinged have a probe,
/// and each is in flight under the transaction of its ping, with the time at which it was sent.
/// Only transactions of these pings are looked up; where no id was drawn twice, every ping waits
/// for its pong. Nothing else has changed since the round started, and the state is consistent
/// again.
pub proof fn law_round_is_in_flight(s: PeerPdState, pings: Seq<(PingRequest, Nanos)>)
    requires
        s.consistent(),
        s.can_probe(),
        distinct_targets(pings),
    ensures
        ({
            let started = s.after_start_probes();
            let t = started.after_pings(pings);
            &&& t.consistent()
            &&& forall|i: int|
                0 <= i < pings.len() ==> {
                    &&& t.current_probes.contains_key((#[trigger] pings[i]).0.ep)
                    &&& t.current_probes[pings[i].0.ep] == (ProbeState::InFlight {
                        transaction: pings[i].0.tx_id,
                        sent: pings[i].1,
                    })
                    &&& t.tx_lookup.contains_key(pings[i].0.tx_id)
                }
            &&& forall|ep: DynEndpoint| #[trigger]
                t.current_probes.contains_key(ep) ==> exists|i: int|
                    0 <= i < pings.len() && (#[trigger] pings[i]).0.ep == ep
            &&& forall|tx_id: TxId| #[trigger]
                t.tx_lookup.contains_key(tx_id) ==> exists|i: int|
                    0 <= i < pings.len() && (#[trigger] pings[i]).0.tx_id == tx_id
            &&& distinct_ids(pings) ==> forall|i: int|
                0 <= i < pings.len() ==> t.waits_for((#[trigger] pings[i]).0, pings[i].1)
            &&& t == (PeerPdState {
                current_probes: t.current_probes,
                tx_lookup: t.tx_lookup,
                ..started
            })
        }),
    decreases pings.len(),
{
    let started = s.after_start_probes();
    if pings.len() > 0 {
        let rest = pings.drop_last();
        let last = pings.last();
        assert(forall|i: int| 0 <= i < rest.len() ==> #[trigger] rest[i] == pings[i]);
        assert forall|i: int, j: int| 0 <= i < j < rest.len() implies (#[trigger] rest[i]).0.ep != (
        #[trigger] rest[j]).0.ep by {
            assert(rest[i] == pings[i] && rest[j] == pings[j]);
        }
        law_round_is_in_flight(s, rest);
        let mid = started.after_pings(rest);
        let t = started.after_pings(pings);
        assert(t == mid.after_ping(last.0, last.1));
        if mid.current_probes.contains_key(last.0.ep) {
            let i = choose|i: int| 0 <= i < rest.len() && (#[trigger] rest[i]).0.ep == last.0.ep;
            assert(pings[i].0.ep == pings[pings.len() - 1].0.ep);
        }
        law_consistency_is_kept(
            mid,
            s.peer_id,
            Event::PingSent { ping: last.0, sent: last.1 },
        );
        law_ping_waits(mid, last.0, last.1);
        assert forall|i: int| 0 <= i < pings.len() implies {
            &&& t.current_probes.contains_key((#[trigger] pings[i]).0.ep)
            &&& t.current_probes[pings[i].0.ep] == (ProbeState::InFlight {
                transaction: pings[i].0.tx_id,
                sent: pings[i].1,
            })
            &&& t.tx_lookup.contains_key(pings[i].0.tx_id)
        } by {
            if i < pings.len() - 1 {
                assert(rest[i] == pings[i]);
                assert(pings[i].0.ep != pings[pings.len() - 1].0.ep);
            }
        }
        assert forall|ep: DynEndpoint| #[trigger] t.current_probes.contains_key(ep) implies exists|
            i: int,
        |
            0 <= i < pings.len() && (#[trigger] pings[i]).0.ep == ep by {
            if ep == last.0.ep {
                assert(pings[pings.len() - 1].0.ep == ep);
            } else {
                let i = choose|i: int| 0 <= i < rest.len() && (#[trigger] rest[i]).0.ep == ep;
                assert(pings[i].0.ep == ep);
            }
        }
        assert forall|tx_id: TxId| #[trigger] t.tx_lookup.contains_key(tx_id) implies exists|
            i: int,
        |
            0 <= i < pings.len() && (#[trigger] pings[i]).0.tx_id == tx_id by {
            if tx_id == last.0.tx_id {
                assert(pings[pings.len() - 1].0.tx_id == tx_id);
            } else {
                let i = choose|i: int|
                    0 <= i < rest.len() && (#[trigger] rest[i]).0.tx_id == tx_id;
                assert(pings[i].0.tx_id == tx_id);
            }
        }
        if distinct_ids(pings) {
            assert forall|i: int, j: int| 0 <= i < j < rest.len() implies (
            #[trigger] rest[i]).0.tx_id != (#[trigger] rest[j]).0.tx_id by {
                assert(rest[i] == pings[i] && rest[j] == pings[j]);
            }
            assert forall|i: int| 0 <= i < pings.len() implies t.waits_for(
                (#[trigger] pings[i]).0,
                pings[i].1,
            ) by {
                if i < pings.len() - 1 {
                    assert(rest[i] == pings[i]);
                    assert(mid.waits_for(rest[i].0, rest[i].1));
                    assert(pings[i].0.ep != pings[pings.len() - 1].0.ep);
                    assert(pings[i].0.tx_id != pings[pings.len() - 1].0.tx_id);
                    law_waiting_ping_stays(
                        mid,
                        pings[i].0,
                        pings[i].1,
                        Event::PingSent { ping: last.0, sent: last.1 },
                    );
                }
            }
        }
    }
}

/// Every round asks each of the peer's disco coordinators for a reverse path, whatever the round
/// before has measured and this one reports; no coordinator is asked twice.
pub proof fn law_every_round_asks_every_coordinator(
    s: PeerPdState,
    round: ProbeRound,
    ep: DynEndpoint,
    i: int,
    j: int,
)
    requires
        s.starts(Some(round)),
        s.coord_endpoints_ctrl.contains(ep),
    ensures
        round.script().contains(ProbeAction::SendCallMeMaybe(ep)),
        0 <= i < round.script().len() && 0 <= j < round.script().len() && round.script()[i]
            == ProbeAction::SendCallMeMaybe(ep) && round.script()[j]
            == ProbeAction::SendCallMeMaybe(ep) ==> i == j,
{
    let requests = round.call_me_maybes@.map_values(
        |ep: DynEndpoint| ProbeAction::SendCallMeMaybe(ep),
    );
    let pings = round.pings@.map_values(|ep: DynEndpoint| ProbeAction::SendPing(ep));
    let report: Seq<ProbeAction> = match round.best_path {
        Some(best_path) => seq![ProbeAction::PublishBestPath(best_path)],
        None => Seq::empty(),
    };
    assert(round.script() == report + requests + pings);
    assert(round.call_me_maybes@.to_set().contains(ep));
    let k = round.call_me_maybes@.index_of(ep);
    assert(round.script()[report.len() + k] == ProbeAction::SendCallMeMaybe(ep));
}

/// The length of a time span is the difference of the two readings of the clock: added to the
/// earlier one it gives the later one. It is zero where the clock has run back, and grows as much
/// as the later reading does.
pub proof fn law_time_spans_add_up(earlier: Nanos, later: Nanos, latest: Nanos)
    ensures
        earlier <= later ==> earlier + crate::peer_pd::elapsed(earlier, later) == later,
        later < earlier ==> crate::peer_pd::elapsed(earlier, later) == 0,
        earlier <= later <= latest ==> crate::peer_pd::elapsed(earlier, latest)
            - crate::peer_pd::elapsed(earlier, later) == latest - later,
{
}

/// Whether none of the events lists addresses of this node.
pub open spec fn no_new_endpoints(events: Seq<Event>) -> bool {
    forall|i: int| 0 <= i < events.len() ==> !((#[trigger] events[i]) is NewEndpoints)
}

/// The addresses that a round advertises are those that were listed last, whatever has happened
/// before and since.
pub proof fn law_latest_endpoints_are_advertised(
    s: PeerPdState,
    endpoints: Seq<SocketAddress>,
    since: Seq<Event>,
    round: ProbeRound,
)
    requires
        no_new_endpoints(since),
    ensures
        ({
            let t = s.after_event(Event::NewEndpoints { endpoints }).after_events(since);
            &&& t.this_node_endpoints == endpoints
            &&& t.starts(Some(round)) ==> round.advertised@ == endpoints
        }),
    decreases since.len(),
{
    if since.len() > 0 {
        let rest = since.drop_last();
        assert forall|i: int| 0 <= i < rest.len() implies !(
        (#[trigger] rest[i]) is NewEndpoints) by {
            assert(rest[i] == since[i]);
        }
        law_latest_endpoints_are_advertised(s, endpoints, rest, round);
        assert(since.last() == since[since.len() - 1]);
    }
}

/// Whether none of the events is a change of the network map that lists or removes the peer.
pub open spec fn none_mentions(events: Seq<Event>, peer_id: PeerId) -> bool {
    forall|i: int|
        0 <= i < events.len() ==> ((#[trigger] events[i]) matches Event::PeerState { state }
            ==> !state.deletions@.contains(peer_id) && !state.peers@.contains_key(peer_id))
}

/// What control knows of the peer is what the network map said last, in whatever state it came in
/// and whatever has happened since: the key is that of the listed node, its relay is the one disco
/// coordinator, and each of its addresses is pinged. An endpoint that is neither listed, nor in the
/// last `CallMeMaybe` message, nor seen, is not.
pub proof fn law_latest_listing_is_probed(
    s: PeerPdState,
    state: PeerState,
    since: Seq<Event>,
    ep: DynEndpoint,
)
    requires
        !state.deletions@.contains(s.peer_id),
        state.peers@.contains_key(s.peer_id),
        none_mentions(since, s.peer_id),
    ensures
        ({
            let node = state.peers@[s.peer_id];
            let t = s.after_event(Event::PeerState { state }).after_events(since);
            let is_listed = ep matches DynEndpoint::Udp(address)
                && node.underlay_addresses@.contains(address);
            &&& t.peer_id == s.peer_id
            &&& t.disco_key == node.disco_key
            &&& t.coord_endpoints_ctrl.contains(ep) <==> ep == DynEndpoint::Derp(node.node_key)
            &&& t.endpoints_ctrl.contains(ep) <==> is_listed
            &&& is_listed ==> t.ping_targets().contains(ep)
            &&& !is_listed && !t.endpoints_cmm.contains(ep) && !t.seen_peer_endpoints.contains_key(
                ep,
            ) ==> !t.ping_targets().contains(ep)
        }),
    decreases since.len(),
{
    if since.len() > 0 {
        let rest = since.drop_last();
        assert forall|i: int| 0 <= i < rest.len() implies ((#[trigger] rest[i]) matches
            Event::PeerState { state } ==> !state.deletions@.contains(s.peer_id)
            && !state.peers@.contains_key(s.peer_id)) by {
            assert(rest[i] == since[i]);
        }
        law_latest_listing_is_probed(s, state, rest, ep);
        assert(since.last() == since[since.len() - 1]);
    } else {
        let addresses = state.peers@[s.peer_id].underlay_addresses@;
        let udp = crate::peer_pd::udp_endpoints(addresses);
        if let DynEndpoint::Udp(address) = ep {
            if addresses.contains(address) {
                assert(udp[addresses.index_of(address)] == ep);
            }
            if udp.contains(ep) {
                assert(addresses[udp.index_of(ep)] == address);
            }
        } else {
            assert(!udp.contains(ep));
        }
    }
}

/// In a round, every `CallMeMaybe` message goes out before any ping, and a best path is reported
/// before either.
pub proof fn law_call_me_maybes_before_pings(round: ProbeRound, i: int, j: int)
    requires
        0 <= i < round.script().len(),
        0 <= j < round.script().len(),
    ensures
        round.script()[i] is SendCallMeMaybe && round.script()[j] is SendPing ==> i < j,
        round.script()[i] is PublishBestPath && !(round.script()[j] is PublishBestPath) ==> i < j,
{
    let requests = round.call_me_maybes@.map_values(
        |ep: DynEndpoint| ProbeAction::SendCallMeMaybe(ep),
    );
    let pings = round.pings@.map_values(|ep: DynEndpoint| ProbeAction::SendPing(ep));
    let report: Seq<ProbeAction> = match round.best_path {
        Some(best_path) => seq![ProbeAction::PublishBestPath(best_path)],
        None => Seq::empty(),
    };
    assert(round.script() == report + requests + pings);
}

/// A round never pings a disco coordinator, and sends `CallMeMaybe` messages to nothing else; no
/// endpoint gets two messages.
pub proof fn law_coordinators_are_not_pinged(s: PeerPdState, round: ProbeRound)
    requires
        s.consistent(),
        s.starts(Some(round)),
    ensures
        forall|i: int| 0 <= i < round.pings@.len() ==> !(#[trigger] round.pings@[i]).coordinates(),
        forall|i: int|
            0 <= i < round.call_me_maybes@.len() ==> (
            #[trigger] round.call_me_maybes@[i]).coordinates(),
        round.pings@.no_duplicates(),
        round.call_me_maybes@.no_duplicates(),
{
    assert forall|i: int| 0 <= i < round.pings@.len() implies !(
    #[trigger] round.pings@[i]).coordinates() by {
        assert(round.pings@.contains(round.pings@[i]));
        assert(round.pings@.to_set().contains(round.pings@[i]));
    }
    assert forall|i: int| 0 <= i < round.call_me_maybes@.len() implies (
    #[trigger] round.call_me_maybes@[i]).coordinates() by {
        assert(round.call_me_maybes@.contains(round.call_me_maybes@[i]));
        assert(round.call_me_maybes@.to_set().contains(round.call_me_maybes@[i]));
    }
}

/// Whether none of the events is a change of the network map that lists the peer and does not
/// remove it.
pub open spec fn none_lists(events: Seq<Event>, peer_id: PeerId) -> bool {
    forall|i: int|
        0 <= i < events.len() ==> ((#[trigger] events[i]) matches Event::PeerState { state }
            ==> state.deletions@.contains(peer_id) || !state.peers@.contains_key(peer_id))
}

/// After the peer has left the network map no round starts, whatever arrives, until the map
/// lists the peer again.
pub proof fn law_deleted_peer_is_left_alone(s: PeerPdState, events: Seq<Event>)
    requires
        none_lists(events, s.peer_id),
    ensures
        ({
            let t = s.after_deletion().after_events(events);
            &&& t.endpoints_ctrl == Set::<DynEndpoint>::empty()
            &&& t.coord_endpoints_ctrl == Set::<DynEndpoint>::empty()
            &&& t.peer_id == s.peer_id
            &&& !t.can_probe()
            &&& forall|round: Option<ProbeRound>| #[trigger] t.starts(round) ==> round is None
        }),
    decreases events.len(),
{
    if events.len() > 0 {
        let rest = events.drop_last();
        assert forall|i: int| 0 <= i < rest.len() implies ((#[trigger] rest[i]) matches
            Event::PeerState { state } ==> state.deletions@.contains(s.peer_id)
            || !state.peers@.contains_key(s.peer_id)) by {
            assert(rest[i] == events[i]);
        }
        law_deleted_peer_is_left_alone(s, rest);
        assert(events.last() == events[events.len() - 1]);
    }
}

/// Whether the events are such as a clock that has reached `now` gives up to the timeout:
/// messages arrive no earlier than `now`, and clean-ups run no later than the timeout after it.
pub open spec fn within_timeout(events: Seq<Event>, now: Nanos) -> bool {
    forall|i: int|
        0 <= i < events.len() ==> match #[trigger] events[i] {
            Event::Incoming { now: at, .. } => at >= now,
            Event::CleanUp { now: at } => crate::peer_pd::elapsed(now, at)
                <= crate::peer_pd::SEEN_ENDPOINTS_TIMEOUT,
            _ => true,
        }
}

proof fn lemma_seen_endpoint_stays(
    s: PeerPdState,
    ep: DynEndpoint,
    now: Nanos,
    events: Seq<Event>,
)
    requires
        s.seen_peer_endpoints.contains_key(ep),
        s.seen_peer_endpoints[ep] >= now,
        within_timeout(events, now),
    ensures
        s.after_events(events).seen_peer_endpoints.contains_key(ep),
        s.after_events(events).seen_peer_endpoints[ep] >= now,
    decreases events.len(),
{
    if events.len() > 0 {
        let rest = events.drop_last();
        assert(forall|i: int| 0 <= i < rest.len() ==> #[trigger] rest[i] == events[i]);
        lemma_seen_endpoint_stays(s, ep, now, rest);
        assert(events.last() == events[events.len() - 1]);
    }
}

/// An endpoint that the peer has sent disco traffic from is probed in every scheduled round up to
/// the timeout, whether or not it is listed anywhere and whatever else has happened, unless it is
/// a disco coordinator.
pub proof fn law_seen_endpoints_are_probed(
    s: PeerPdState,
    msg: IncomingDiscoMsg,
    now: Nanos,
    events: Seq<Event>,
    later: Nanos,
)
    requires
        s.disco_key == Some(msg.sender_pubkey),
        within_timeout(events, now),
        crate::peer_pd::elapsed(now, later) <= crate::peer_pd::SEEN_ENDPOINTS_TIMEOUT,
    ensures
        ({
            let t = s.after_incoming(msg, now).after_events(events).after_gc(later);
            &&& t.seen_peer_endpoints.contains_key(msg.sender)
            &&& !msg.sender.coordinates() ==> t.ping_targets().contains(msg.sender)
        }),
{
    lemma_seen_endpoint_stays(s.after_incoming(msg, now), msg.sender, now, events);
}

/// Whether none of the events is a message from `ep`.
pub open spec fn none_from(events: Seq<Event>, ep: DynEndpoint) -> bool {
    forall|i: int|
        0 <= i < events.len() ==> ((#[trigger] events[i]) matches Event::Incoming { msg, .. }
            ==> msg.sender != ep)
}

proof fn lemma_seen_endpoint_is_not_renewed(
    s: PeerPdState,
    ep: DynEndpoint,
    now: Nanos,
    events: Seq<Event>,
)
    requires
        s.seen_peer_endpoints.contains_key(ep) ==> s.seen_peer_endpoints[ep] == now,
        none_from(events, ep),
    ensures
        s.after_events(events).seen_peer_endpoints.contains_key(ep) ==> s.after_events(
            events,
        ).seen_peer_endpoints[ep] == now,
    decreases events.len(),
{
    if events.len() > 0 {
        let rest = events.drop_last();
        assert(forall|i: int| 0 <= i < rest.len() ==> #[trigger] rest[i] == events[i]);
        lemma_seen_endpoint_is_not_renewed(s, ep, now, rest);
        assert(events.last() == events[events.len() - 1]);
    }
}

/// An endpoint that has been silent for longer than the timeout is forgotten at the next clean-up,
/// whatever else has happened.
pub proof fn law_silent_endpoints_are_forgotten(
    s: PeerPdState,
    msg: IncomingDiscoMsg,
    now: Nanos,
    events: Seq<Event>,
    later: Nanos,
)
    requires
        s.disco_key == Some(msg.sender_pubkey),
        none_from(events, msg.sender),
        crate::peer_pd::elapsed(now, later) > crate::peer_pd::SEEN_ENDPOINTS_TIMEOUT,
    ensures
        !s.after_incoming(msg, now).after_events(events).after_gc(
            later,
        ).seen_peer_endpoints.contains_key(msg.sender),
{
    lemma_seen_endpoint_is_not_renewed(s.after_incoming(msg, now), msg.sender, now, events);
}

/// Cleaning up twice is cleaning up once, at the later time, if the clock does not run back.
pub proof fn law_gc_composes(s: PeerPdState, now: Nanos, later: Nanos)
    requires
        now <= later,
    ensures
        s.after_gc(now).after_gc(later) == s.after_gc(later),
{
    let t = s.after_gc(now);
    assert(t.recently_seen(later) =~= s.recently_seen(later));
    assert(t.after_gc(later) =~= s.after_gc(later));
}

/// Whether none of the events is a `CallMeMaybe` message.
pub open spec fn no_call_me_maybe(events: Seq<Event>) -> bool {
    forall|i: int|
        0 <= i < events.len() ==> ((#[trigger] events[i]) matches Event::Incoming { msg, .. }
            ==> !(msg.body is CallMeMaybe))
}

/// The endpoints of the most recent `CallMeMaybe` message of the peer, and no others, are the
/// ones kept from such messages, whatever else has happened since; each is probed in a round.
pub proof fn law_call_me_maybe_is_taken_up(
    s: PeerPdState,
    msg: IncomingDiscoMsg,
    now: Nanos,
    since: Seq<Event>,
)
    requires
        s.disco_key == Some(msg.sender_pubkey),
        msg.body is CallMeMaybe,
        no_call_me_maybe(since),
    ensures
        ({
            let t = s.after_incoming(msg, now).after_events(since);
            let listed = crate::peer_pd::udp_endpoints(msg.body->addresses@).to_set();
            &&& t.endpoints_cmm == listed
            &&& listed.subset_of(t.ping_targets())
        }),
    decreases since.len(),
{
    if since.len() > 0 {
        let rest = since.drop_last();
        assert forall|i: int| 0 <= i < rest.len() implies ((#[trigger] rest[i]) matches
            Event::Incoming { msg, .. } ==> !(msg.body is CallMeMaybe)) by {
            assert(rest[i] == since[i]);
        }
        law_call_me_maybe_is_taken_up(s, msg, now, rest);
        assert(since.last() == since[since.len() - 1]);
    }
}

/// Once probing has started it stays started, whatever happens, and then only the schedule starts
/// rounds: neither a change of the network map nor new endpoints of this node do.
pub proof fn law_only_the_schedule_starts_further_rounds(
    s: PeerPdState,
    event: Event,
    round: Option<ProbeRound>,
)
    requires
        s.started_probing,
    ensures
        s.after_event(event).started_probing,
        s.is_round_start(event) ==> event is StartProbes,
        event matches Event::PeerState { state } ==> {
            &&& s.after_peer_state(state).starts_first(round) ==> round is None
            &&& s.after_event(event) == s.after_peer_state(state)
        },
        event matches Event::NewEndpoints { endpoints } ==> {
            &&& s.after_new_endpoints(endpoints).starts_first(round) ==> round is None
            &&& s.after_event(event) == s.after_new_endpoints(endpoints)
        },
{
}

/// The agents of different peers have different names.
pub proof fn law_actor_names_differ(a: PeerId, b: PeerId)
    requires
        a != b,
    ensures
        crate::peer_pd::actor_name_text(a) != crate::peer_pd::actor_name_text(b),
{
    let prefix = "peerpd_"@;
    let x = crate::decimal::decimal(a.0 as nat);
    let y = crate::decimal::decimal(b.0 as nat);
    crate::decimal::law_decimal_reads_back(a.0 as nat);
    crate::decimal::law_decimal_reads_back(b.0 as nat);
    if prefix + x == prefix + y {
        assert((prefix + x).skip(prefix.len() as int) =~= x);
        assert((prefix + y).skip(prefix.len() as int) =~= y);
    }
}

} // verus!
