//! What the calls of a [`PeerPd`] do, said of the agent before and after a call, of what the call
//! is given and of what it returns.

use crate::endpoint::{DiscoPublicKey, DynEndpoint, SocketAddress};
use crate::path_discoverer::ActivePeers;
use crate::peer_pd::{
    DiscoBody, IncomingDiscoMsg, Nanos, PeerPd, PeerState, PingRequest, ProbeAction, ProbeRound,
    ProbeState, TxId,
};
use crate::transport::{PeerId, UnderlayTransportId};
use vstd::prelude::*;

verus! {

/// Whether some call takes the agent from `old(pd)` to `final(pd)` and starts `round`.
pub open spec fn starts_round(pd: &mut PeerPd, round: ProbeRound) -> bool {
    ||| call_ensures(PeerPd::start_probes, (pd,), Some(round))
    ||| exists|now: Nanos|
        call_ensures(PeerPd::handle_schedule_probe, (pd, now), Some(round))
    ||| exists|state: &PeerState|
        call_ensures(PeerPd::handle_peer_state, (pd, state), Some(round))
    ||| exists|endpoints: Vec<SocketAddress>|
        call_ensures(PeerPd::handle_new_endpoints, (pd, endpoints), Some(round))
}

/// Every call accepts every well-formed agent, whatever it is given.
pub proof fn law_calls_accept_every_agent(
    pd: &mut PeerPd,
    now: Nanos,
    state: &PeerState,
    endpoints: Vec<SocketAddress>,
    msg: &IncomingDiscoMsg,
    ping: PingRequest,
    round: ProbeRound,
)
    requires
        old(pd).wf(),
    ensures
        call_requires(PeerPd::start_probes, (pd,)),
        call_requires(PeerPd::handle_schedule_probe, (pd, now)),
        state.wf() ==> call_requires(PeerPd::handle_peer_state, (pd, state)),
        call_requires(PeerPd::handle_new_endpoints, (pd, endpoints)),
        call_requires(PeerPd::handle_incoming, (pd, msg, now)),
        call_requires(PeerPd::ping_sent, (pd, ping, now)),
        call_requires(PeerPd::gc_seen_endpoints, (pd, now)),
        call_requires(ProbeRound::actions, (&round,)),
{
}

/// Every call leaves a well-formed agent well-formed.
pub proof fn law_calls_keep_agents_well_formed(
    pd: &mut PeerPd,
    now: Nanos,
    state: &PeerState,
    endpoints: Vec<SocketAddress>,
    msg: &IncomingDiscoMsg,
    ping: PingRequest,
    round: Option<ProbeRound>,
)
    requires
        ({
            ||| call_ensures(PeerPd::start_probes, (pd,), round)
            ||| call_ensures(PeerPd::handle_schedule_probe, (pd, now), round)
            ||| call_ensures(PeerPd::handle_peer_state, (pd, state), round)
            ||| call_ensures(PeerPd::handle_new_endpoints, (pd, endpoints), round)
            ||| call_ensures(PeerPd::handle_incoming, (pd, msg, now), ())
            ||| call_ensures(PeerPd::ping_sent, (pd, ping, now), ())
            ||| call_ensures(PeerPd::gc_seen_endpoints, (pd, now), ())
        }),
    ensures
        final(pd).wf(),
        final(pd).peer_id == old(pd).peer_id,
{
}

/// Where each part of a round stands among its steps.
proof fn lemma_steps(round: ProbeRound, actions: Seq<ProbeAction>, first: int, second: int)
    requires
        actions == round.script(),
        first == if round.best_path is Some {
            1int
        } else {
            0int
        },
        second == first + round.call_me_maybes@.len(),
    ensures
        actions.len() == second + round.pings@.len(),
        round.best_path matches Some(report) ==> actions[0] == ProbeAction::PublishBestPath(report),
        forall|i: int|
            0 <= i < first ==> (#[trigger] actions[i]) is PublishBestPath,
        forall|i: int|
            first <= i < second ==> #[trigger] actions[i] == ProbeAction::SendCallMeMaybe(
                round.call_me_maybes@[i - first],
            ),
        forall|i: int|
            second <= i < actions.len() ==> #[trigger] actions[i] == ProbeAction::SendPing(
                round.pings@[i - second],
            ),
{
    let report = match round.best_path {
        Some(best_path) => seq![ProbeAction::PublishBestPath(best_path)],
        None => Seq::empty(),
    };
    let requests = round.call_me_maybes@.map_values(
        |ep: DynEndpoint| ProbeAction::SendCallMeMaybe(ep),
    );
    let pings = round.pings@.map_values(|ep: DynEndpoint| ProbeAction::SendPing(ep));
    assert(actions == report + requests + pings);
}

/// The steps of any round are its report, if it has one, then a `CallMeMaybe` message to each
/// endpoint that is listed for one, then a ping to each endpoint that is listed for one, in the
/// order in which they are listed.
pub proof fn law_steps_follow_the_round(round: ProbeRound, actions: Vec<ProbeAction>, i: int)
    requires
        call_ensures(ProbeRound::actions, (&round,), actions),
        0 <= i,
    ensures
        ({
            let reports: int = if round.best_path is Some {
                1
            } else {
                0
            };
            let requests = round.call_me_maybes@;
            let pings = round.pings@;
            &&& actions@.len() == reports + requests.len() + pings.len()
            &&& round.best_path matches Some(report) ==> actions@[0]
                == ProbeAction::PublishBestPath(report)
            &&& i < requests.len() ==> actions@[reports + i] == ProbeAction::SendCallMeMaybe(
                requests[i],
            )
            &&& i < pings.len() ==> actions@[reports + requests.len() + i] == ProbeAction::SendPing(
                pings[i],
            )
        }),
{
    let first = if round.best_path is Some {
        1int
    } else {
        0int
    };
    let second = first + round.call_me_maybes@.len();
    lemma_steps(round, actions@, first, second);
    if i < round.call_me_maybes@.len() {
        assert(actions@[first + i] == ProbeAction::SendCallMeMaybe(
            round.call_me_maybes@[first + i - first],
        ));
    }
    if i < round.pings@.len() {
        assert(actions@[second + i] == ProbeAction::SendPing(round.pings@[second + i - second]));
    }
}

/// Every endpoint of the peer that can be used for disco coordination gets exactly one
/// `CallMeMaybe` message in every round, whatever the round before has measured and this one
/// reports; nothing else gets one.
pub proof fn law_round_asks_every_coordinator(
    pd: &mut PeerPd,
    round: ProbeRound,
    actions: Vec<ProbeAction>,
    ep: DynEndpoint,
    i: int,
    j: int,
)
    requires
        starts_round(pd, round),
        call_ensures(ProbeRound::actions, (&round,), actions),
    ensures
        final(pd).coord_endpoints_ctrl@.contains(ep) <==> actions@.contains(
            ProbeAction::SendCallMeMaybe(ep),
        ),
        0 <= i < actions@.len() && 0 <= j < actions@.len() && actions@[i]
            == ProbeAction::SendCallMeMaybe(ep) && actions@[j] == ProbeAction::SendCallMeMaybe(ep)
            ==> i == j,
{
    let first = if round.best_path is Some {
        1int
    } else {
        0int
    };
    let second = first + round.call_me_maybes@.len();
    lemma_steps(round, actions@, first, second);
    if final(pd).coord_endpoints_ctrl@.contains(ep) {
        assert(round.call_me_maybes@.to_set().contains(ep));
        let k = round.call_me_maybes@.index_of(ep);
        assert(actions@[first + k] == ProbeAction::SendCallMeMaybe(ep));
    }
    if actions@.contains(ProbeAction::SendCallMeMaybe(ep)) {
        let k = actions@.index_of(ProbeAction::SendCallMeMaybe(ep));
        assert(round.call_me_maybes@[k - first] == ep);
        assert(round.call_me_maybes@.to_set().contains(ep));
    }
}

/// Every endpoint that is known of the peer, because control lists it, because the peer's last
/// `CallMeMaybe` message does or because traffic has been seen from it, gets exactly one ping in
/// every round, unless it can be used for disco coordination; nothing else gets one.
pub proof fn law_round_pings_every_other_endpoint(
    pd: &mut PeerPd,
    round: ProbeRound,
    actions: Vec<ProbeAction>,
    ep: DynEndpoint,
    i: int,
    j: int,
)
    requires
        starts_round(pd, round),
        call_ensures(ProbeRound::actions, (&round,), actions),
    ensures
        actions@.contains(ProbeAction::SendPing(ep)) <==> {
            &&& {
                ||| final(pd).endpoints_ctrl@.contains(ep)
                ||| final(pd).endpoints_cmm@.contains(ep)
                ||| final(pd).seen_peer_endpoints@.contains_key(ep)
            }
            &&& {
                ||| ep is Udp
                ||| ep is Other && !ep->disco_coordinator
            }
        },
        0 <= i < actions@.len() && 0 <= j < actions@.len() && actions@[i] == ProbeAction::SendPing(
            ep,
        ) && actions@[j] == ProbeAction::SendPing(ep) ==> i == j,
{
    let first = if round.best_path is Some {
        1int
    } else {
        0int
    };
    let second = first + round.call_me_maybes@.len();
    lemma_steps(round, actions@, first, second);
    if round.pings@.to_set().contains(ep) {
        let k = round.pings@.index_of(ep);
        assert(actions@[second + k] == ProbeAction::SendPing(ep));
    }
    if actions@.contains(ProbeAction::SendPing(ep)) {
        let k = actions@.index_of(ProbeAction::SendPing(ep));
        assert(round.pings@[k - second] == ep);
        assert(round.pings@.to_set().contains(ep));
    }
}

/// A round reports a path of the peer exactly if a probe of the round before has succeeded. It
/// does so once, before anything else. The probe of the reported endpoint has succeeded over the
/// reported transport, and no probe has measured a lower latency.
pub proof fn law_round_reports_the_fastest_path(
    pd: &mut PeerPd,
    round: ProbeRound,
    actions: Vec<ProbeAction>,
    ep: DynEndpoint,
    i: int,
)
    requires
        starts_round(pd, round),
        call_ensures(ProbeRound::actions, (&round,), actions),
    ensures
        old(pd).current_probes@.contains_key(ep) && old(pd).current_probes@[ep] is Success ==> {
            &&& actions@.len() > 0
            &&& actions@[0] is PublishBestPath
        },
        0 <= i < actions@.len() ==> (actions@[i] matches ProbeAction::PublishBestPath(report) ==> {
            &&& i == 0
            &&& report.peer == old(pd).peer_id
            &&& report.ep matches Some((over, best))
            &&& old(pd).current_probes@.contains_key(best)
            &&& old(pd).current_probes@[best] matches ProbeState::Success {
                latency: lowest,
                transport,
            }
            &&& transport == over
            &&& old(pd).current_probes@.contains_key(ep) ==> (old(pd).current_probes@[ep] matches
                ProbeState::Success { latency, .. } ==> lowest <= latency)
        }),
{
    let first = if round.best_path is Some {
        1int
    } else {
        0int
    };
    let second = first + round.call_me_maybes@.len();
    lemma_steps(round, actions@, first, second);
    let probes = old(pd).current_probes@;
    let found = crate::peer_pd::latencies(probes);
    if probes.contains_key(ep) {
        if let ProbeState::Success { latency, transport } = probes[ep] {
            assert(found.contains_key((transport, ep)));
            assert(found[(transport, ep)] == latency);
        }
    }
    if let Some(report) = round.best_path {
        if let Some(path) = report.ep {
            assert(found.contains_key(path));
        }
    }
}

/// A round asks the peer for a reverse path before it pings any endpoint.
pub proof fn law_round_asks_before_it_pings(
    round: ProbeRound,
    actions: Vec<ProbeAction>,
    i: int,
    j: int,
)
    requires
        call_ensures(ProbeRound::actions, (&round,), actions),
        0 <= i < actions@.len(),
        0 <= j < actions@.len(),
        actions@[i] is SendCallMeMaybe,
        actions@[j] is SendPing,
    ensures
        i < j,
{
    let first = if round.best_path is Some {
        1int
    } else {
        0int
    };
    lemma_steps(round, actions@, first, first + round.call_me_maybes@.len());
}

/// The messages of a round are sealed for the key that the peer has after the call, and advertise
/// the addresses that this node has after the call.
pub proof fn law_round_is_addressed(pd: &mut PeerPd, round: ProbeRound)
    requires
        starts_round(pd, round),
    ensures
        final(pd).disco_key == Some(round.disco_key),
        round.advertised@ == final(pd).this_node_endpoints@,
        round.advertised@.len() > 0,
{
}

/// The start of a round wipes every probe and every transaction of the round before. Of the
/// probes, it keeps the latency of each that has succeeded, with the transport, and nothing else.
/// From then on probing has started.
pub proof fn law_round_keeps_what_was_measured(
    pd: &mut PeerPd,
    round: ProbeRound,
    ep: DynEndpoint,
    tx_id: TxId,
    transport: UnderlayTransportId,
)
    requires
        starts_round(pd, round),
    ensures
        final(pd).started_probing,
        !final(pd).current_probes@.contains_key(ep),
        !final(pd).tx_lookup@.contains_key(tx_id),
        final(pd).previous_probe_latencies@.get((transport, ep)) == (if
            old(pd).current_probes@.contains_key(ep) {
            match old(pd).current_probes@[ep] {
                ProbeState::Success { latency, transport: over } => if over == transport {
                    Some(latency)
                } else {
                    None
                },
                ProbeState::InFlight { .. } => None,
            }
        } else {
            None
        }),
{
    let found = crate::peer_pd::latencies(old(pd).current_probes@);
    assert(found.contains_key((transport, ep)) <==> crate::peer_pd::measured(
        old(pd).current_probes@,
        (transport, ep),
    ));
}

/// A round starts exactly if the peer's key, an endpoint for disco coordination and an address of
/// this node are known.
pub proof fn law_attempt_starts_a_round_when_enough_is_known(
    pd: &mut PeerPd,
    now: Nanos,
    round: Option<ProbeRound>,
)
    requires
        call_ensures(PeerPd::start_probes, (pd,), round) || call_ensures(
            PeerPd::handle_schedule_probe,
            (pd, now),
            round,
        ),
    ensures
        round is Some <==> {
            &&& old(pd).disco_key is Some
            &&& exists|ep: DynEndpoint| old(pd).coord_endpoints_ctrl@.contains(ep)
            &&& old(pd).this_node_endpoints@.len() > 0
        },
{
    let coordinators = old(pd).coord_endpoints_ctrl@;
    if coordinators != Set::<DynEndpoint>::empty() {
        if forall|ep: DynEndpoint| !coordinators.contains(ep) {
            assert(coordinators =~= Set::<DynEndpoint>::empty());
        }
    }
}

/// An attempt to start a round changes nothing that is known of the peer or of this node; where
/// no round starts, it changes nothing at all.
pub proof fn law_attempt_keeps_what_is_known(pd: &mut PeerPd, round: Option<ProbeRound>)
    requires
        call_ensures(PeerPd::start_probes, (pd,), round),
    ensures
        final(pd).peer_id == old(pd).peer_id,
        final(pd).disco_key == old(pd).disco_key,
        final(pd).this_node_endpoints@ == old(pd).this_node_endpoints@,
        final(pd).coord_endpoints_ctrl@ == old(pd).coord_endpoints_ctrl@,
        final(pd).endpoints_ctrl@ == old(pd).endpoints_ctrl@,
        final(pd).endpoints_cmm@ == old(pd).endpoints_cmm@,
        final(pd).seen_peer_endpoints@ == old(pd).seen_peer_endpoints@,
        round is None ==> {
            &&& final(pd).started_probing == old(pd).started_probing
            &&& final(pd).current_probes@ == old(pd).current_probes@
            &&& final(pd).tx_lookup@ == old(pd).tx_lookup@
            &&& final(pd).previous_probe_latencies@ == old(pd).previous_probe_latencies@
        },
{
}

/// The schedule forgets an endpoint exactly if it was last seen more than thirty seconds ago, and
/// then attempts a round; nothing else that is known changes. Where no round starts, neither do
/// the probes, the transactions and what was measured.
pub proof fn law_schedule_forgets_silent_endpoints(
    pd: &mut PeerPd,
    now: Nanos,
    round: Option<ProbeRound>,
    ep: DynEndpoint,
)
    requires
        call_ensures(PeerPd::handle_schedule_probe, (pd, now), round),
    ensures
        final(pd).seen_peer_endpoints@.contains_key(ep) <==> {
            &&& old(pd).seen_peer_endpoints@.contains_key(ep)
            &&& now - old(pd).seen_peer_endpoints@[ep] <= 30_000_000_000
        },
        final(pd).seen_peer_endpoints@.contains_key(ep) ==> final(pd).seen_peer_endpoints@[ep]
            == old(pd).seen_peer_endpoints@[ep],
        final(pd).peer_id == old(pd).peer_id,
        final(pd).disco_key == old(pd).disco_key,
        final(pd).this_node_endpoints@ == old(pd).this_node_endpoints@,
        final(pd).coord_endpoints_ctrl@ == old(pd).coord_endpoints_ctrl@,
        final(pd).endpoints_ctrl@ == old(pd).endpoints_ctrl@,
        final(pd).endpoints_cmm@ == old(pd).endpoints_cmm@,
        round is None ==> {
            &&& final(pd).started_probing == old(pd).started_probing
            &&& final(pd).current_probes@ == old(pd).current_probes@
            &&& final(pd).tx_lookup@ == old(pd).tx_lookup@
            &&& final(pd).previous_probe_latencies@ == old(pd).previous_probe_latencies@
        },
{
}

/// A clean-up forgets an endpoint exactly if it was last seen more than thirty seconds ago,
/// keeps the time of each other, and changes nothing else.
pub proof fn law_clean_up_forgets_silent_endpoints(pd: &mut PeerPd, now: Nanos, ep: DynEndpoint)
    requires
        call_ensures(PeerPd::gc_seen_endpoints, (pd, now), ()),
    ensures
        final(pd).seen_peer_endpoints@.contains_key(ep) <==> {
            &&& old(pd).seen_peer_endpoints@.contains_key(ep)
            &&& now - old(pd).seen_peer_endpoints@[ep] <= 30_000_000_000
        },
        final(pd).seen_peer_endpoints@.contains_key(ep) ==> final(pd).seen_peer_endpoints@[ep]
            == old(pd).seen_peer_endpoints@[ep],
        final(pd).peer_id == old(pd).peer_id,
        final(pd).disco_key == old(pd).disco_key,
        final(pd).started_probing == old(pd).started_probing,
        final(pd).current_probes@ == old(pd).current_probes@,
        final(pd).tx_lookup@ == old(pd).tx_lookup@,
        final(pd).previous_probe_latencies@ == old(pd).previous_probe_latencies@,
        final(pd).this_node_endpoints@ == old(pd).this_node_endpoints@,
        final(pd).coord_endpoints_ctrl@ == old(pd).coord_endpoints_ctrl@,
        final(pd).endpoints_ctrl@ == old(pd).endpoints_ctrl@,
        final(pd).endpoints_cmm@ == old(pd).endpoints_cmm@,
{
}

/// The addresses of this node are those of the last message that lists them, whether or not
/// probing has started; nothing is known of the peer by it. A round starts exactly if it is the
/// first and enough is known; where none does, nothing else changes.
pub proof fn law_new_endpoints_are_taken_over(
    pd: &mut PeerPd,
    endpoints: Vec<SocketAddress>,
    round: Option<ProbeRound>,
)
    requires
        call_ensures(PeerPd::handle_new_endpoints, (pd, endpoints), round),
    ensures
        final(pd).this_node_endpoints@ == endpoints@,
        round matches Some(round) ==> round.advertised@ == endpoints@,
        round is Some <==> {
            &&& !old(pd).started_probing
            &&& old(pd).disco_key is Some
            &&& exists|ep: DynEndpoint| old(pd).coord_endpoints_ctrl@.contains(ep)
            &&& endpoints@.len() > 0
        },
        final(pd).peer_id == old(pd).peer_id,
        final(pd).disco_key == old(pd).disco_key,
        final(pd).coord_endpoints_ctrl@ == old(pd).coord_endpoints_ctrl@,
        final(pd).endpoints_ctrl@ == old(pd).endpoints_ctrl@,
        final(pd).endpoints_cmm@ == old(pd).endpoints_cmm@,
        final(pd).seen_peer_endpoints@ == old(pd).seen_peer_endpoints@,
        round is None ==> {
            &&& final(pd).started_probing == old(pd).started_probing
            &&& final(pd).current_probes@ == old(pd).current_probes@
            &&& final(pd).tx_lookup@ == old(pd).tx_lookup@
            &&& final(pd).previous_probe_latencies@ == old(pd).previous_probe_latencies@
        },
{
    let coordinators = old(pd).coord_endpoints_ctrl@;
    if coordinators != Set::<DynEndpoint>::empty() {
        if forall|ep: DynEndpoint| !coordinators.contains(ep) {
            assert(coordinators =~= Set::<DynEndpoint>::empty());
        }
    }
}

/// When the network map lists the peer and does not remove it, the peer's key is the listed one,
/// its endpoints from control are the listed addresses and no others, and its one endpoint for
/// disco coordination is the relay of the listed node, whether or not probing has started. A round
/// starts exactly if it is the first and enough is known; where none does, nothing else changes.
pub proof fn law_listed_peer_is_taken_over(
    pd: &mut PeerPd,
    state: &PeerState,
    round: Option<ProbeRound>,
    ep: DynEndpoint,
)
    requires
        call_ensures(PeerPd::handle_peer_state, (pd, state), round),
        !state.deletions@.contains(old(pd).peer_id),
        state.peers@.contains_key(old(pd).peer_id),
    ensures
        ({
            let node = state.peers@[old(pd).peer_id];
            &&& final(pd).disco_key == node.disco_key
            &&& final(pd).endpoints_ctrl@.contains(ep) <==> (ep matches DynEndpoint::Udp(address)
                && node.underlay_addresses@.contains(address))
            &&& final(pd).coord_endpoints_ctrl@.contains(ep) <==> ep == DynEndpoint::Derp(
                node.node_key,
            )
            &&& round is Some <==> {
                &&& !old(pd).started_probing
                &&& node.disco_key is Some
                &&& old(pd).this_node_endpoints@.len() > 0
            }
        }),
        final(pd).peer_id == old(pd).peer_id,
        final(pd).this_node_endpoints@ == old(pd).this_node_endpoints@,
        final(pd).endpoints_cmm@ == old(pd).endpoints_cmm@,
        final(pd).seen_peer_endpoints@ == old(pd).seen_peer_endpoints@,
        round is None ==> {
            &&& final(pd).started_probing == old(pd).started_probing
            &&& final(pd).current_probes@ == old(pd).current_probes@
            &&& final(pd).tx_lookup@ == old(pd).tx_lookup@
            &&& final(pd).previous_probe_latencies@ == old(pd).previous_probe_latencies@
        },
{
    let node = state.peers@[old(pd).peer_id];
    let addresses = node.underlay_addresses@;
    let udp = crate::peer_pd::udp_endpoints(addresses);
    if let DynEndpoint::Udp(address) = ep {
        if addresses.contains(address) {
            assert(udp[addresses.index_of(address)] == ep);
            assert(udp.to_set().contains(ep));
        }
        if udp.contains(ep) {
            assert(addresses[udp.index_of(ep)] == address);
        }
    } else {
        assert(!udp.contains(ep));
    }
    assert(node.endpoints().filter(|x: DynEndpoint| x.coordinates()).contains(
        DynEndpoint::Derp(node.node_key),
    ));
}

/// When the network map removes the peer, no round starts and no endpoint is known from control
/// any more. The probe of an endpoint goes exactly if the endpoint was known from control and is
/// not known from elsewhere, and a transaction goes exactly if such a probe was in flight under
/// it. Nothing else changes.
pub proof fn law_removed_peer_is_forgotten(
    pd: &mut PeerPd,
    state: &PeerState,
    round: Option<ProbeRound>,
    ep: DynEndpoint,
    tx_id: TxId,
)
    requires
        call_ensures(PeerPd::handle_peer_state, (pd, state), round),
        state.deletions@.contains(old(pd).peer_id),
    ensures
        round is None,
        !final(pd).endpoints_ctrl@.contains(ep),
        !final(pd).coord_endpoints_ctrl@.contains(ep),
        final(pd).current_probes@.get(ep) == if {
            &&& old(pd).endpoints_ctrl@.contains(ep) || old(pd).coord_endpoints_ctrl@.contains(ep)
            &&& !old(pd).endpoints_cmm@.contains(ep)
            &&& !old(pd).seen_peer_endpoints@.contains_key(ep)
        } {
            None
        } else {
            old(pd).current_probes@.get(ep)
        },
        final(pd).tx_lookup@.get(tx_id) == if exists|gone: DynEndpoint|
            {
                &&& old(pd).endpoints_ctrl@.contains(gone)
                    || old(pd).coord_endpoints_ctrl@.contains(gone)
                &&& !old(pd).endpoints_cmm@.contains(gone)
                &&& !old(pd).seen_peer_endpoints@.contains_key(gone)
                &&& #[trigger] old(pd).current_probes@.contains_key(gone)
                &&& old(pd).current_probes@[gone] is InFlight
                &&& old(pd).current_probes@[gone]->transaction == tx_id
            } {
            None
        } else {
            old(pd).tx_lookup@.get(tx_id)
        },
        final(pd).peer_id == old(pd).peer_id,
        final(pd).disco_key == old(pd).disco_key,
        final(pd).started_probing == old(pd).started_probing,
        final(pd).previous_probe_latencies@ == old(pd).previous_probe_latencies@,
        final(pd).this_node_endpoints@ == old(pd).this_node_endpoints@,
        final(pd).endpoints_cmm@ == old(pd).endpoints_cmm@,
        final(pd).seen_peer_endpoints@ == old(pd).seen_peer_endpoints@,
{
    let s = old(pd)@;
    let probes = s.current_probes;
    let gone = s.known_from_control_only(s.endpoints_ctrl.union(s.coord_endpoints_ctrl));
    if crate::peer_pd::transactions(probes, gone).contains(tx_id) {
        let x = choose|x: DynEndpoint| #[trigger]
            gone.contains(x) && crate::peer_pd::in_flight(probes, x, tx_id);
        assert(probes.contains_key(x));
    }
    assert forall|x: DynEndpoint| #[trigger]
        probes.contains_key(x) && gone.contains(x) && crate::peer_pd::in_flight(
            probes,
            x,
            tx_id,
        ) implies crate::peer_pd::transactions(probes, gone).contains(tx_id) by {}
}

/// A change of the network map that neither lists nor removes the peer changes nothing, and no
/// round starts.
pub proof fn law_other_peers_are_of_no_concern(
    pd: &mut PeerPd,
    state: &PeerState,
    round: Option<ProbeRound>,
)
    requires
        call_ensures(PeerPd::handle_peer_state, (pd, state), round),
        !state.deletions@.contains(old(pd).peer_id),
        !state.peers@.contains_key(old(pd).peer_id),
    ensures
        round is None,
        final(pd).peer_id == old(pd).peer_id,
        final(pd).disco_key == old(pd).disco_key,
        final(pd).started_probing == old(pd).started_probing,
        final(pd).current_probes@ == old(pd).current_probes@,
        final(pd).tx_lookup@ == old(pd).tx_lookup@,
        final(pd).previous_probe_latencies@ == old(pd).previous_probe_latencies@,
        final(pd).this_node_endpoints@ == old(pd).this_node_endpoints@,
        final(pd).coord_endpoints_ctrl@ == old(pd).coord_endpoints_ctrl@,
        final(pd).endpoints_ctrl@ == old(pd).endpoints_ctrl@,
        final(pd).endpoints_cmm@ == old(pd).endpoints_cmm@,
        final(pd).seen_peer_endpoints@ == old(pd).seen_peer_endpoints@,
{
}

/// No disco message changes what control, this node and earlier rounds have told the agent.
pub proof fn law_messages_keep_what_is_known(pd: &mut PeerPd, msg: &IncomingDiscoMsg, now: Nanos)
    requires
        call_ensures(PeerPd::handle_incoming, (pd, msg, now), ()),
    ensures
        final(pd).peer_id == old(pd).peer_id,
        final(pd).disco_key == old(pd).disco_key,
        final(pd).started_probing == old(pd).started_probing,
        final(pd).previous_probe_latencies@ == old(pd).previous_probe_latencies@,
        final(pd).this_node_endpoints@ == old(pd).this_node_endpoints@,
        final(pd).coord_endpoints_ctrl@ == old(pd).coord_endpoints_ctrl@,
        final(pd).endpoints_ctrl@ == old(pd).endpoints_ctrl@,
{
}

/// A message that is not under the peer's key changes nothing; while the key is not known, no
/// message does.
pub proof fn law_messages_of_others_change_nothing(
    pd: &mut PeerPd,
    msg: &IncomingDiscoMsg,
    now: Nanos,
)
    requires
        call_ensures(PeerPd::handle_incoming, (pd, msg, now), ()),
        old(pd).disco_key matches Some(key) ==> key != msg.sender_pubkey,
    ensures
        final(pd).current_probes@ == old(pd).current_probes@,
        final(pd).tx_lookup@ == old(pd).tx_lookup@,
        final(pd).endpoints_cmm@ == old(pd).endpoints_cmm@,
        final(pd).seen_peer_endpoints@ == old(pd).seen_peer_endpoints@,
{
}

/// Any message of the peer makes the endpoint that it came from one that was last seen at its
/// time, and no other endpoint.
pub proof fn law_senders_are_seen(
    pd: &mut PeerPd,
    msg: &IncomingDiscoMsg,
    now: Nanos,
    ep: DynEndpoint,
)
    requires
        call_ensures(PeerPd::handle_incoming, (pd, msg, now), ()),
        old(pd).disco_key == Some(msg.sender_pubkey),
    ensures
        final(pd).seen_peer_endpoints@.get(ep) == if ep == msg.sender {
            Some(now)
        } else {
            old(pd).seen_peer_endpoints@.get(ep)
        },
{
}

/// A pong under a transaction that waits ends that transaction and no other. If the endpoint that
/// was pinged has a probe in flight, the probe succeeds over the transport that the pong came in
/// on. Its latency is the time since the ping was sent: the two add up to the time of the pong,
/// unless the clock has run back, where the latency is zero. No other probe changes.
pub proof fn law_pong_records_the_round_trip(
    pd: &mut PeerPd,
    msg: &IncomingDiscoMsg,
    now: Nanos,
    tx_id: TxId,
    other_tx: TxId,
    other_ep: DynEndpoint,
)
    requires
        call_ensures(PeerPd::handle_incoming, (pd, msg, now), ()),
        old(pd).disco_key == Some(msg.sender_pubkey),
        msg.body == (DiscoBody::Pong { tx_id }),
        old(pd).tx_lookup@.contains_key(tx_id),
    ensures
        ({
            let ep = old(pd).tx_lookup@[tx_id];
            let before = old(pd).current_probes@;
            let after = final(pd).current_probes@;
            &&& !final(pd).tx_lookup@.contains_key(tx_id)
            &&& other_tx != tx_id ==> final(pd).tx_lookup@.get(other_tx) == old(pd).tx_lookup@.get(
                other_tx,
            )
            &&& other_ep != ep ==> after.get(other_ep) == before.get(other_ep)
            &&& !before.contains_key(ep) || before[ep] is Success ==> after.get(ep) == before.get(
                ep,
            )
            &&& before.contains_key(ep) ==> (before[ep] matches ProbeState::InFlight { sent, .. }
                ==> {
                &&& after.contains_key(ep)
                &&& after[ep] matches ProbeState::Success { latency, transport }
                &&& transport == msg.transport
                &&& now >= sent ==> sent + latency == now
                &&& now < sent ==> latency == 0
            })
        }),
        final(pd).endpoints_cmm@ == old(pd).endpoints_cmm@,
{
}

/// Of two pongs to pings that were sent at the same time, the later measures no less.
pub proof fn law_later_pongs_measure_no_less(
    pd: &mut PeerPd,
    msg: &IncomingDiscoMsg,
    now: Nanos,
    tx_id: TxId,
    other: &mut PeerPd,
    later_msg: &IncomingDiscoMsg,
    later: Nanos,
    later_tx: TxId,
    sent: Nanos,
)
    requires
        now <= later,
        call_ensures(PeerPd::handle_incoming, (pd, msg, now), ()),
        old(pd).disco_key == Some(msg.sender_pubkey),
        msg.body == (DiscoBody::Pong { tx_id }),
        old(pd).tx_lookup@.contains_key(tx_id),
        old(pd).current_probes@.contains_key(old(pd).tx_lookup@[tx_id]),
        old(pd).current_probes@[old(pd).tx_lookup@[tx_id]] matches ProbeState::InFlight {
            sent: at,
            ..
        } && at == sent,
        call_ensures(PeerPd::handle_incoming, (other, later_msg, later), ()),
        old(other).disco_key == Some(later_msg.sender_pubkey),
        later_msg.body == (DiscoBody::Pong { tx_id: later_tx }),
        old(other).tx_lookup@.contains_key(later_tx),
        old(other).current_probes@.contains_key(old(other).tx_lookup@[later_tx]),
        old(other).current_probes@[old(other).tx_lookup@[later_tx]] matches ProbeState::InFlight {
            sent: at,
            ..
        } && at == sent,
    ensures
        final(pd).current_probes@[old(pd).tx_lookup@[tx_id]]->latency
            <= final(other).current_probes@[old(other).tx_lookup@[later_tx]]->latency,
{
    law_pong_records_the_round_trip(
        pd,
        msg,
        now,
        tx_id,
        tx_id,
        old(pd).tx_lookup@[tx_id],
    );
    law_pong_records_the_round_trip(
        other,
        later_msg,
        later,
        later_tx,
        later_tx,
        old(other).tx_lookup@[later_tx],
    );
}

/// A pong under a transaction that does not wait, and any message that is not a pong, change
/// neither probes nor transactions.
pub proof fn law_only_awaited_pongs_count(pd: &mut PeerPd, msg: &IncomingDiscoMsg, now: Nanos)
    requires
        call_ensures(PeerPd::handle_incoming, (pd, msg, now), ()),
        msg.body matches DiscoBody::Pong { tx_id } ==> !old(pd).tx_lookup@.contains_key(tx_id),
    ensures
        final(pd).current_probes@ == old(pd).current_probes@,
        final(pd).tx_lookup@ == old(pd).tx_lookup@,
{
}

/// A `CallMeMaybe` message of the peer makes its addresses the ones known from such messages, and
/// no others; any other message of the peer leaves them as they are.
pub proof fn law_call_me_maybe_addresses_are_taken_over(
    pd: &mut PeerPd,
    msg: &IncomingDiscoMsg,
    now: Nanos,
    ep: DynEndpoint,
)
    requires
        call_ensures(PeerPd::handle_incoming, (pd, msg, now), ()),
        old(pd).disco_key == Some(msg.sender_pubkey),
    ensures
        match msg.body {
            DiscoBody::CallMeMaybe { addresses } => final(pd).endpoints_cmm@.contains(ep) <==> (
            ep matches DynEndpoint::Udp(address) && addresses@.contains(address)),
            _ => final(pd).endpoints_cmm@ == old(pd).endpoints_cmm@,
        },
{
    if let DiscoBody::CallMeMaybe { addresses } = msg.body {
        let udp = crate::peer_pd::udp_endpoints(addresses@);
        if let DynEndpoint::Udp(address) = ep {
            if addresses@.contains(address) {
                assert(udp[addresses@.index_of(address)] == ep);
            }
            if udp.contains(ep) {
                assert(addresses@[udp.index_of(ep)] == address);
            }
        } else {
            assert(!udp.contains(ep));
        }
    }
}

/// A ping that went out puts the probe of its endpoint in flight, under its transaction and with
/// its time, and makes its transaction lead to its endpoint. No other probe or transaction, and
/// nothing else, changes.
pub proof fn law_sent_ping_is_recorded(
    pd: &mut PeerPd,
    ping: PingRequest,
    sent: Nanos,
    ep: DynEndpoint,
    tx_id: TxId,
)
    requires
        call_ensures(PeerPd::ping_sent, (pd, ping, sent), ()),
    ensures
        final(pd).current_probes@.get(ep) == if ep == ping.ep {
            Some(ProbeState::InFlight { transaction: ping.tx_id, sent })
        } else {
            old(pd).current_probes@.get(ep)
        },
        final(pd).tx_lookup@.get(tx_id) == if tx_id == ping.tx_id {
            Some(ping.ep)
        } else {
            old(pd).tx_lookup@.get(tx_id)
        },
        final(pd).peer_id == old(pd).peer_id,
        final(pd).disco_key == old(pd).disco_key,
        final(pd).started_probing == old(pd).started_probing,
        final(pd).previous_probe_latencies@ == old(pd).previous_probe_latencies@,
        final(pd).this_node_endpoints@ == old(pd).this_node_endpoints@,
        final(pd).coord_endpoints_ctrl@ == old(pd).coord_endpoints_ctrl@,
        final(pd).endpoints_ctrl@ == old(pd).endpoints_ctrl@,
        final(pd).endpoints_cmm@ == old(pd).endpoints_cmm@,
        final(pd).seen_peer_endpoints@ == old(pd).seen_peer_endpoints@,
{
}

/// A ping is for the endpoint and the key that it was asked for.
pub proof fn law_ping_is_addressed(ep: DynEndpoint, key: DiscoPublicKey, ping: PingRequest)
    requires
        call_ensures(PeerPd::send_disco_ping, (ep, key), ping),
    ensures
        call_requires(PeerPd::send_disco_ping, (ep, key)),
        ping.ep == ep,
        ping.disco_key == key,
{
}

/// A new agent is that of the given peer, knows nothing, and has not started probing.
pub proof fn law_new_agent_knows_nothing(
    peer_id: PeerId,
    pd: PeerPd,
    ep: DynEndpoint,
    tx_id: TxId,
    transport: UnderlayTransportId,
)
    requires
        call_ensures(PeerPd::new, (peer_id,), pd),
    ensures
        call_requires(PeerPd::new, (peer_id,)),
        pd.wf(),
        pd.peer_id == peer_id,
        pd.disco_key is None,
        !pd.started_probing,
        !pd.current_probes@.contains_key(ep),
        !pd.tx_lookup@.contains_key(tx_id),
        !pd.previous_probe_latencies@.contains_key((transport, ep)),
        pd.this_node_endpoints@.len() == 0,
        !pd.coord_endpoints_ctrl@.contains(ep),
        !pd.endpoints_ctrl@.contains(ep),
        !pd.endpoints_cmm@.contains(ep),
        !pd.seen_peer_endpoints@.contains_key(ep),
{
}

/// An agent goes on exactly as long as its peer is among the active ones.
pub proof fn law_agent_stops_with_its_peer(pd: PeerPd, active: &ActivePeers, stop: bool)
    requires
        call_ensures(PeerPd::handle_active_peers, (&pd, active), stop),
    ensures
        call_requires(PeerPd::handle_active_peers, (&pd, active)),
        stop <==> !active@.contains(pd.peer_id),
{
}

/// The name of an agent is `peerpd_` and a text that writes the number of its peer in decimal
/// digits, without leading zeros.
pub proof fn law_agent_name_writes_the_peer(peer_id: PeerId, name: String, digits: Seq<char>)
    requires
        call_ensures(PeerPd::actor_name, (peer_id,), name),
        digits == name@.skip(7),
    ensures
        call_requires(PeerPd::actor_name, (peer_id,)),
        name@ == seq!['p', 'e', 'e', 'r', 'p', 'd', '_'] + digits,
        digits.len() > 0,
        forall|i: int| 0 <= i < digits.len() ==> '0' <= #[trigger] digits[i] <= '9',
        digits.len() > 1 ==> digits[0] != '0',
        crate::decimal::decimal_value(digits) == peer_id.0,
{
    reveal_strlit("peerpd_");
    let prefix = "peerpd_"@;
    assert(prefix =~= seq!['p', 'e', 'e', 'r', 'p', 'd', '_']);
    assert((prefix + crate::decimal::decimal(peer_id.0 as nat)).skip(7)
        =~= crate::decimal::decimal(peer_id.0 as nat));
    crate::decimal::law_decimal_reads_back(peer_id.0 as nat);
    crate::decimal::law_decimal_digits(peer_id.0 as nat);
}

} // verus!
