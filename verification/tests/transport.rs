use ts_runtime::decimal::append_decimal;
use ts_runtime::endpoint::{DynEndpoint, NodePublicKey, SocketAddress};
use ts_runtime::peer_pd::PeerPd;
use ts_runtime::transport::{PeerId, UnderlayTransportId};

#[test]
fn transport_id_converts_both_ways() {
    let id = UnderlayTransportId::from(17);
    assert_eq!(id, UnderlayTransportId(17));
    assert_eq!(u32::from(id), 17);
}

#[test]
fn peer_id_text() {
    assert_eq!(PeerId(0).fmt(), "PeerId(0)");
    assert_eq!(PeerId(4_294_967_295).fmt(), "PeerId(4294967295)");
    assert_eq!(PeerId(305).fmt(), format!("{:?}", PeerId(305)));
}

#[test]
fn decimal_text() {
    for n in [0u32, 9, 10, 99, 100, 1_000_000_007, u32::MAX] {
        let mut text = String::from("n=");
        append_decimal(&mut text, n);
        assert_eq!(text, format!("n={}", n));
        assert_eq!(text[2..].parse::<u32>(), Ok(n));
    }
}

#[test]
fn actor_names() {
    assert_eq!(PeerPd::actor_name(PeerId(0)), "peerpd_0");
    assert_eq!(PeerPd::actor_name(PeerId(1042)), "peerpd_1042");
    assert_ne!(PeerPd::actor_name(PeerId(1)), PeerPd::actor_name(PeerId(11)));
}

#[test]
fn disco_coordinators() {
    assert!(!DynEndpoint::udp(SocketAddress::V4 { ipv4: 1, port: 2 }).is_disco_coordinator());
    assert!(DynEndpoint::derp(NodePublicKey([7; 32])).is_disco_coordinator());
    assert!(DynEndpoint::Other { id: 1, disco_coordinator: true }.is_disco_coordinator());
    assert!(!DynEndpoint::Other { id: 1, disco_coordinator: false }.is_disco_coordinator());
}
