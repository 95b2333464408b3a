use ts_runtime::endpoint::{DiscoPublicKey, DynEndpoint, NodePublicKey, SocketAddress};
use ts_runtime::linear_map::{LinearMap, LinearSet};
use ts_runtime::path_discoverer::{ActivePeers, PathDiscoverer, PeerBestPath};
use ts_runtime::peer_pd::{
    DiscoBody, IncomingDiscoMsg, Node, PeerPd, PeerState, ProbeAction, ProbeRound, ProbeState,
    SEEN_ENDPOINTS_TIMEOUT, TxId, PROBE_PERIOD,
};
use ts_runtime::transport::{PeerId, UnderlayTransportId};

const PEER: PeerId = PeerId(5);
const KEY: DiscoPublicKey = DiscoPublicKey([1; 32]);
const OTHER_KEY: DiscoPublicKey = DiscoPublicKey([2; 32]);
const NODE: NodePublicKey = NodePublicKey([3; 32]);
const TRANSPORT: UnderlayTransportId = UnderlayTransportId(6);

fn addr(n: u16) -> SocketAddress {
    SocketAddress::V4 { ipv4: 0x7f00_0001, port: n }
}

fn udp(n: u16) -> DynEndpoint {
    DynEndpoint::udp(addr(n))
}

fn peers(list: &[u32]) -> ActivePeers {
    LinearSet::from_list(&list.iter().map(|id| PeerId(*id)).collect::<Vec<PeerId>>())
}

fn listed(ports: &[u16]) -> PeerState {
    let mut peers = LinearMap::new();
    peers.insert(
        PEER,
        Node {
            disco_key: Some(KEY),
            node_key: NODE,
            underlay_addresses: ports.iter().map(|port| addr(*port)).collect(),
        },
    );
    PeerState { deletions: LinearSet::new(), peers }
}

fn deleted() -> PeerState {
    let mut deletions = LinearSet::new();
    deletions.insert(PEER);
    PeerState { deletions, peers: LinearMap::new() }
}

fn msg(key: DiscoPublicKey, sender: DynEndpoint, body: DiscoBody) -> IncomingDiscoMsg {
    IncomingDiscoMsg { sender_pubkey: key, sender, transport: TRANSPORT, body }
}

fn pong(tx_id: TxId, sender: DynEndpoint) -> IncomingDiscoMsg {
    msg(KEY, sender, DiscoBody::Pong { tx_id })
}

/// Sends the pings of a round, all at time `now`; returns the transaction of each endpoint.
fn carry_out(pd: &mut PeerPd, round: &ProbeRound, now: u128) -> Vec<(DynEndpoint, TxId)> {
    let mut sent = Vec::new();
    for action in round.actions() {
        if let ProbeAction::SendPing(ep) = action {
            let ping = PeerPd::send_disco_ping(ep, round.disco_key);
            assert_eq!(ping.ep, ep);
            assert_eq!(ping.disco_key, round.disco_key);
            pd.ping_sent(ping, now);
            sent.push((ep, ping.tx_id));
        }
    }
    sent
}

fn transaction(sent: &[(DynEndpoint, TxId)], ep: DynEndpoint) -> TxId {
    sent.iter().find(|s| s.0 == ep).unwrap().1
}

/// An agent that has started its first round, for endpoints at these ports.
fn probing(ports: &[u16]) -> (PeerPd, ProbeRound) {
    let mut pd = PeerPd::new(PEER);
    assert!(pd.handle_new_endpoints(vec![addr(99)]).is_none());
    let round = pd.handle_peer_state(&listed(ports)).unwrap();
    (pd, round)
}

#[test]
fn time_constants() {
    assert_eq!(PROBE_PERIOD, 5_000_000_000);
    assert_eq!(SEEN_ENDPOINTS_TIMEOUT, 30_000_000_000);
}

#[test]
fn first_round_waits_for_enough_information() {
    let mut pd = PeerPd::new(PEER);
    assert!(pd.handle_schedule_probe(0).is_none());
    assert!(pd.handle_peer_state(&listed(&[1])).is_none());
    assert!(!pd.started_probing);
    let round = pd.handle_new_endpoints(vec![addr(99), addr(98)]).unwrap();
    assert!(pd.started_probing);
    assert_eq!(round.advertised, vec![addr(99), addr(98)]);
    // from now on only the schedule starts rounds
    assert!(pd.handle_new_endpoints(vec![addr(97)]).is_none());
    assert!(pd.handle_peer_state(&listed(&[1])).is_none());
    assert!(pd.handle_schedule_probe(0).is_some());
}

#[test]
fn no_round_without_a_disco_key() {
    let mut pd = PeerPd::new(PEER);
    pd.handle_new_endpoints(vec![addr(99)]);
    let mut state = listed(&[1]);
    state.peers.get_mut(&PEER).unwrap().disco_key = None;
    assert!(pd.handle_peer_state(&state).is_none());
    assert!(pd.handle_schedule_probe(0).is_none());
}

#[test]
fn other_peers_are_of_no_concern() {
    let mut pd = PeerPd::new(PeerId(6));
    pd.handle_new_endpoints(vec![addr(99)]);
    assert!(pd.handle_peer_state(&listed(&[1])).is_none());
    assert!(pd.handle_peer_state(&deleted()).is_none());
    assert_eq!(pd.disco_key, None);
}

#[test]
fn round_asks_coordinators_and_pings_the_others() {
    let (_, round) = probing(&[1, 2, 1]);
    assert_eq!(round.disco_key, KEY);
    assert_eq!(round.best_path, None);
    assert_eq!(round.call_me_maybes, vec![DynEndpoint::derp(NODE)]);
    assert_eq!(round.advertised, vec![addr(99)]);
    assert_eq!(round.pings.len(), 2);
    assert!(round.pings.contains(&udp(1)) && round.pings.contains(&udp(2)));
    let actions = round.actions();
    assert_eq!(actions.len(), 3);
    assert_eq!(actions[0], ProbeAction::SendCallMeMaybe(DynEndpoint::derp(NODE)));
}

#[test]
fn transaction_ids_are_drawn_at_random() {
    let a = PeerPd::send_disco_ping(udp(1), KEY);
    let b = PeerPd::send_disco_ping(udp(1), KEY);
    assert_ne!(a.tx_id, b.tx_id);
}

#[test]
fn fastest_path_is_reported() {
    let (mut pd, round) = probing(&[1, 2, 3]);
    let sent = carry_out(&mut pd, &round, 1_000);
    assert_eq!(pd.current_probes.len(), 3);
    assert_eq!(pd.tx_lookup.len(), 3);

    pd.handle_incoming(&pong(transaction(&sent, udp(1)), udp(1)), 1_900);
    pd.handle_incoming(&pong(transaction(&sent, udp(2)), udp(2)), 1_400);
    assert_eq!(
        pd.current_probes.get(&udp(2)),
        Some(&ProbeState::Success { latency: 400, transport: TRANSPORT })
    );

    let round = pd.handle_schedule_probe(5_000).unwrap();
    assert_eq!(round.best_path, Some(PeerBestPath { peer: PEER, ep: Some((TRANSPORT, udp(2))) }));
    assert_eq!(round.actions()[0], ProbeAction::PublishBestPath(round.best_path.unwrap()));
    assert_eq!(pd.previous_probe_latencies.len(), 2);
    assert_eq!(pd.previous_probe_latencies.get(&(TRANSPORT, udp(1))), Some(&900));
    assert!(pd.current_probes.is_empty());
    assert!(pd.tx_lookup.is_empty());

    // the round after, without a success, reports nothing
    let round = pd.handle_schedule_probe(10_000).unwrap();
    assert_eq!(round.best_path, None);
    assert!(pd.previous_probe_latencies.is_empty());
}

#[test]
fn pong_counts_once_and_not_late() {
    let (mut pd, round) = probing(&[1]);
    let sent = carry_out(&mut pd, &round, 1_000);
    let tx_id = transaction(&sent, udp(1));
    pd.handle_incoming(&pong(tx_id, udp(1)), 1_100);
    pd.handle_incoming(&pong(tx_id, udp(1)), 1_200);
    let success = ProbeState::Success { latency: 100, transport: TRANSPORT };
    assert_eq!(pd.current_probes.get(&udp(1)), Some(&success));

    let (mut pd, round) = probing(&[1]);
    let sent = carry_out(&mut pd, &round, 1_000);
    let round = pd.handle_schedule_probe(5_000).unwrap();
    carry_out(&mut pd, &round, 5_000);
    pd.handle_incoming(&pong(transaction(&sent, udp(1)), udp(1)), 5_100);
    assert!(matches!(pd.current_probes.get(&udp(1)), Some(ProbeState::InFlight { .. })));
}

#[test]
fn latency_is_not_negative() {
    let (mut pd, round) = probing(&[1]);
    let sent = carry_out(&mut pd, &round, 1_000);
    pd.handle_incoming(&pong(transaction(&sent, udp(1)), udp(1)), 900);
    let success = ProbeState::Success { latency: 0, transport: TRANSPORT };
    assert_eq!(pd.current_probes.get(&udp(1)), Some(&success));
}

#[test]
fn strangers_are_ignored() {
    let (mut pd, round) = probing(&[1]);
    let sent = carry_out(&mut pd, &round, 1_000);
    let tx_id = transaction(&sent, udp(1));
    pd.handle_incoming(&msg(OTHER_KEY, udp(8), DiscoBody::Pong { tx_id }), 1_100);
    assert!(pd.seen_peer_endpoints.is_empty());
    assert!(pd.tx_lookup.contains_key(&tx_id));

    let mut pd = PeerPd::new(PEER);
    pd.handle_incoming(&msg(KEY, udp(8), DiscoBody::Other), 0);
    assert!(pd.seen_peer_endpoints.is_empty());
}

#[test]
fn pong_of_a_dropped_probe_is_dropped() {
    let (mut pd, round) = probing(&[1]);
    let sent = carry_out(&mut pd, &round, 1_000);
    pd.current_probes.remove(&udp(1));
    let tx_id = transaction(&sent, udp(1));
    pd.handle_incoming(&pong(tx_id, udp(1)), 1_100);
    assert!(pd.current_probes.is_empty());
    assert!(!pd.tx_lookup.contains_key(&tx_id));
}

#[test]
fn seen_endpoints_are_probed_until_the_timeout() {
    let (mut pd, _) = probing(&[]);
    pd.handle_incoming(&msg(KEY, udp(7), DiscoBody::Other), 1_000);
    pd.handle_incoming(&msg(KEY, DynEndpoint::derp(NODE), DiscoBody::Other), 1_000);
    let round = pd.handle_schedule_probe(1_000 + SEEN_ENDPOINTS_TIMEOUT).unwrap();
    assert_eq!(round.pings, vec![udp(7)]);
    let round = pd.handle_schedule_probe(1_001 + SEEN_ENDPOINTS_TIMEOUT).unwrap();
    assert!(round.pings.is_empty());
    assert!(pd.seen_peer_endpoints.is_empty());
}

#[test]
fn endpoints_of_the_last_call_me_maybe_are_probed() {
    let (mut pd, _) = probing(&[1]);
    let from = DynEndpoint::derp(NODE);
    let ask = |ports: &[u16]| DiscoBody::CallMeMaybe {
        addresses: ports.iter().map(|port| addr(*port)).collect(),
    };
    pd.handle_incoming(&msg(KEY, from, ask(&[20, 21])), 0);
    pd.handle_incoming(&msg(KEY, from, ask(&[21, 22])), 0);
    let round = pd.handle_schedule_probe(0).unwrap();
    assert_eq!(round.pings.len(), 3);
    for port in [1, 21, 22] {
        assert!(round.pings.contains(&udp(port)));
    }
}

#[test]
fn deletion_wipes_what_control_listed() {
    let (mut pd, _) = probing(&[1, 2, 3]);
    let from = DynEndpoint::derp(NODE);
    pd.handle_incoming(&msg(KEY, udp(2), DiscoBody::Other), 0);
    pd.handle_incoming(&msg(KEY, from, DiscoBody::CallMeMaybe { addresses: vec![addr(3)] }), 0);
    let round = pd.handle_schedule_probe(0).unwrap();
    let sent = carry_out(&mut pd, &round, 0);
    assert_eq!(pd.current_probes.len(), 3);

    assert!(pd.handle_peer_state(&deleted()).is_none());
    assert!(pd.endpoints_ctrl.is_empty());
    assert!(pd.coord_endpoints_ctrl.is_empty());
    assert!(!pd.current_probes.contains_key(&udp(1)));
    assert!(!pd.tx_lookup.contains_key(&transaction(&sent, udp(1))));
    // these are known from elsewhere
    for port in [2, 3] {
        assert!(pd.current_probes.contains_key(&udp(port)));
        assert!(pd.tx_lookup.contains_key(&transaction(&sent, udp(port))));
    }
    // and nothing is sent any more
    assert!(pd.handle_schedule_probe(0).is_none());
    assert!(pd.handle_new_endpoints(vec![addr(90)]).is_none());
    // until the peer is listed again
    pd.handle_peer_state(&listed(&[1]));
    assert!(pd.handle_schedule_probe(0).is_some());
}

#[test]
fn agent_stops_with_its_peer() {
    let pd = PeerPd::new(PEER);
    assert!(!pd.handle_active_peers(&peers(&[4, 5])));
    assert!(pd.handle_active_peers(&peers(&[4])));
    assert!(pd.handle_active_peers(&peers(&[])));
}

fn report(peer: u32, port: Option<u16>) -> PeerBestPath {
    PeerBestPath { peer: PeerId(peer), ep: port.map(|port| (TRANSPORT, udp(port))) }
}

#[test]
fn agents_are_created_for_new_active_peers() {
    let mut discoverer = PathDiscoverer::new();
    let mut update = discoverer.handle_active_peers(peers(&[1, 2]));
    update.to_create.sort();
    assert_eq!(update.to_create, vec![PeerId(1), PeerId(2)]);
    assert!(update.publish.is_none());
    let update = discoverer.handle_active_peers(peers(&[2, 3]));
    assert_eq!(update.to_create, vec![PeerId(3)]);
    assert!(update.publish.is_none());
}

#[test]
fn reports_are_debounced() {
    let mut discoverer = PathDiscoverer::new();
    discoverer.handle_active_peers(peers(&[1, 2]));
    let published = discoverer.handle_peer_best_path(report(1, Some(10))).unwrap();
    assert_eq!(published.0.get(&PeerId(1)), Some(&(TRANSPORT, udp(10))));
    assert_eq!(published.0.len(), 1);
    assert!(discoverer.handle_peer_best_path(report(1, Some(10))).is_none());
    let published = discoverer.handle_peer_best_path(report(1, Some(11))).unwrap();
    assert_eq!(published.0.get(&PeerId(1)), Some(&(TRANSPORT, udp(11))));
    assert!(discoverer.handle_peer_best_path(report(2, None)).is_none());
    let published = discoverer.handle_peer_best_path(report(1, None)).unwrap();
    assert!(published.0.is_empty());
}

#[test]
fn every_peer_that_goes_inactive_loses_its_path() {
    let mut discoverer = PathDiscoverer::new();
    discoverer.handle_active_peers(peers(&[1, 2, 3]));
    for peer in 1..=3 {
        discoverer.handle_peer_best_path(report(peer, Some(peer as u16)));
    }
    let update = discoverer.handle_active_peers(peers(&[3]));
    let published = update.publish.unwrap();
    assert_eq!(published.0.len(), 1);
    assert!(published.0.contains_key(&PeerId(3)));
    assert_eq!(discoverer.best_paths.len(), 1);
}

#[test]
fn inactive_peers_retain_no_path() {
    let mut discoverer = PathDiscoverer::new();
    discoverer.handle_active_peers(peers(&[1]));
    discoverer.handle_active_peers(peers(&[]));
    assert!(discoverer.handle_peer_best_path(report(1, Some(10))).is_none());
    assert!(discoverer.best_paths.is_empty());
}

#[test]
fn stop_publishes_no_paths() {
    let mut discoverer = PathDiscoverer::new();
    discoverer.handle_active_peers(peers(&[1]));
    discoverer.handle_peer_best_path(report(1, Some(10)));
    assert!(discoverer.handle_stop().0.is_empty());
    assert!(discoverer.best_paths.is_empty());
}

/// Every waiting transaction belongs to an endpoint whose probe is in flight under it, and the
/// endpoints learned from control are sorted.
fn assert_consistent(pd: &PeerPd) {
    for i in 0..pd.tx_lookup.len() {
        let state = pd.current_probes.get(pd.tx_lookup.value_at(i));
        match state {
            Some(ProbeState::InFlight { transaction, .. }) => {
                assert_eq!(transaction, pd.tx_lookup.key_at(i))
            }
            _ => panic!("no probe in flight"),
        }
    }
    assert!(pd.coord_endpoints_ctrl.to_list().iter().all(|ep| ep.is_disco_coordinator()));
    assert!(!pd.endpoints_ctrl.to_list().iter().any(|ep| ep.is_disco_coordinator()));
}

#[test]
fn agent_stays_consistent() {
    let (mut pd, round) = probing(&[1, 2, 3]);
    assert_consistent(&pd);
    let sent = carry_out(&mut pd, &round, 10);
    assert_consistent(&pd);
    pd.handle_incoming(&pong(transaction(&sent, udp(2)), udp(2)), 20);
    assert_consistent(&pd);
    pd.handle_peer_state(&deleted());
    assert_consistent(&pd);
    pd.handle_peer_state(&listed(&[4]));
    assert_consistent(&pd);
    let round = pd.handle_schedule_probe(30).unwrap();
    carry_out(&mut pd, &round, 30);
    assert_consistent(&pd);
}

#[test]
fn cleaning_up_twice_is_cleaning_up_once() {
    let seen = |pd: &mut PeerPd| {
        pd.handle_incoming(&msg(KEY, udp(7), DiscoBody::Other), 0);
        pd.handle_incoming(&msg(KEY, udp(8), DiscoBody::Other), 10);
    };
    let (mut twice, _) = probing(&[]);
    seen(&mut twice);
    twice.gc_seen_endpoints(SEEN_ENDPOINTS_TIMEOUT);
    assert_eq!(twice.seen_peer_endpoints.len(), 2);
    twice.gc_seen_endpoints(SEEN_ENDPOINTS_TIMEOUT + 5);
    let (mut once, _) = probing(&[]);
    seen(&mut once);
    once.gc_seen_endpoints(SEEN_ENDPOINTS_TIMEOUT + 5);
    assert_eq!(twice.seen_peer_endpoints.key_list(), vec![udp(8)]);
    assert_eq!(once.seen_peer_endpoints.key_list(), vec![udp(8)]);
}

#[test]
fn ping_waits_through_other_events() {
    let (mut pd, round) = probing(&[1, 2, 3]);
    let mut sent = Vec::new();
    for (i, ep) in round.pings.iter().enumerate() {
        let ping = PeerPd::send_disco_ping(*ep, round.disco_key);
        pd.ping_sent(ping, 1_000 + i as u128);
        sent.push((*ep, ping.tx_id));
    }
    // each probe has the time of its own ping, and each id leads to its endpoint
    for (i, (ep, tx_id)) in sent.iter().enumerate() {
        let state = ProbeState::InFlight { transaction: *tx_id, sent: 1_000 + i as u128 };
        assert_eq!(pd.current_probes.get(ep), Some(&state));
        assert_eq!(pd.tx_lookup.get(tx_id), Some(ep));
    }

    pd.gc_seen_endpoints(1_010);
    pd.handle_incoming(&pong(sent[1].1, sent[1].0), 1_020);
    pd.handle_incoming(&msg(KEY, udp(9), DiscoBody::Other), 1_030);
    let ask = DiscoBody::CallMeMaybe { addresses: vec![addr(30)] };
    pd.handle_incoming(&msg(KEY, DynEndpoint::derp(NODE), ask), 1_040);
    assert!(pd.handle_peer_state(&listed(&[1, 2, 3, 4])).is_none());
    assert!(pd.handle_new_endpoints(vec![addr(90)]).is_none());
    pd.ping_sent(PeerPd::send_disco_ping(udp(30), KEY), 1_050);
    let waiting = ProbeState::InFlight { transaction: sent[0].1, sent: 1_000 };
    assert_eq!(pd.current_probes.get(&sent[0].0), Some(&waiting));

    // the pong measures from its own ping, and what it measured stays until the next round
    pd.handle_incoming(&pong(sent[0].1, sent[0].0), 1_700);
    pd.handle_incoming(&pong(sent[2].1, sent[2].0), 1_802);
    pd.gc_seen_endpoints(2_000);
    assert!(pd.handle_peer_state(&listed(&[5])).is_none());
    let round = pd.handle_schedule_probe(5_000).unwrap();
    for (i, latency) in [700, 19, 800].iter().enumerate() {
        let path = (TRANSPORT, sent[i].0);
        assert_eq!(pd.previous_probe_latencies.get(&path), Some(latency));
    }
    assert_eq!(round.best_path.unwrap().ep, Some((TRANSPORT, sent[1].0)));
}

#[test]
fn only_a_ping_makes_a_transaction_wait() {
    let (mut pd, round) = probing(&[1]);
    let sent = carry_out(&mut pd, &round, 1_000);
    let tx_id = transaction(&sent, udp(1));
    pd.handle_incoming(&pong(tx_id, udp(1)), 1_100);
    let success = ProbeState::Success { latency: 100, transport: TRANSPORT };

    // other messages between a pong and its repetition do not make it count again
    pd.handle_incoming(&msg(KEY, udp(1), DiscoBody::Other), 1_150);
    pd.handle_peer_state(&listed(&[1, 2]));
    pd.handle_new_endpoints(vec![addr(90)]);
    pd.gc_seen_endpoints(1_160);
    pd.ping_sent(PeerPd::send_disco_ping(udp(2), KEY), 1_170);
    assert!(!pd.tx_lookup.contains_key(&tx_id));
    pd.handle_incoming(&pong(tx_id, udp(1)), 1_200);
    assert_eq!(pd.current_probes.get(&udp(1)), Some(&success));
    assert_eq!(pd.tx_lookup.len(), 1);

    // nor do they after the next round has started
    let round = pd.handle_schedule_probe(5_000).unwrap();
    carry_out(&mut pd, &round, 5_000);
    pd.handle_incoming(&msg(KEY, udp(1), DiscoBody::Other), 5_010);
    pd.handle_incoming(&pong(tx_id, udp(1)), 5_020);
    assert!(matches!(
        pd.current_probes.get(&udp(1)),
        Some(ProbeState::InFlight { sent: 5_000, .. })
    ));
}

#[test]
fn call_me_maybe_endpoints_are_replaced_as_a_whole() {
    let (mut pd, _) = probing(&[1]);
    let from = DynEndpoint::derp(NODE);
    let ask = |ports: &[u16]| DiscoBody::CallMeMaybe {
        addresses: ports.iter().map(|port| addr(*port)).collect(),
    };
    pd.handle_incoming(&msg(KEY, from, ask(&[20, 21])), 0);
    pd.handle_incoming(&msg(KEY, from, ask(&[22, 21, 22])), 0);
    pd.handle_incoming(&msg(OTHER_KEY, from, ask(&[23])), 0);
    pd.handle_incoming(&msg(KEY, from, DiscoBody::Other), 0);
    pd.handle_peer_state(&deleted());
    assert_eq!(pd.endpoints_cmm.len(), 2);
    assert!(pd.endpoints_cmm.contains(&udp(21)) && pd.endpoints_cmm.contains(&udp(22)));
    pd.handle_peer_state(&listed(&[1]));
    pd.handle_incoming(&msg(KEY, from, ask(&[])), 0);
    assert!(pd.endpoints_cmm.is_empty());
}

#[test]
fn last_report_is_held() {
    let mut d = PathDiscoverer::new();
    d.handle_active_peers(peers(&[1, 2]));
    d.handle_peer_best_path(report(1, Some(10)));
    d.handle_peer_best_path(report(2, Some(20)));
    d.handle_active_peers(peers(&[1, 3]));
    d.handle_peer_best_path(report(3, None));
    assert_eq!(d.best_paths.get(&PeerId(1)), Some(&report(1, Some(10)).ep.unwrap()));
    d.handle_peer_best_path(report(1, Some(11)));
    assert_eq!(d.best_paths.get(&PeerId(1)), Some(&report(1, Some(11)).ep.unwrap()));
    d.handle_peer_best_path(report(1, None));
    assert_eq!(d.best_paths.get(&PeerId(1)), None);
}
