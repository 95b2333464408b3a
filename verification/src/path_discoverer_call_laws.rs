//! What the calls of a [`PathDiscoverer`] do, said of it before and after a call, of what the call
//! is given and of what it returns.

use crate::path_discoverer::{
    ActivePeers, ActivePeersUpdate, BestPaths, PathDiscoverer, PeerBestPath,
};
use crate::transport::PeerId;
use vstd::prelude::*;

verus! {

/// Every call accepts every well-formed coordinator and leaves it well-formed.
pub proof fn law_calls_accept_every_coordinator(
    d: &mut PathDiscoverer,
    active: ActivePeers,
    report: PeerBestPath,
    update: ActivePeersUpdate,
    publish: Option<BestPaths>,
    published: BestPaths,
)
    requires
        old(d).wf(),
    ensures
        active.wf() ==> call_requires(PathDiscoverer::handle_active_peers, (d, active)),
        call_requires(PathDiscoverer::handle_peer_best_path, (d, report)),
        call_requires(PathDiscoverer::handle_stop, (d,)),
        call_ensures(PathDiscoverer::handle_active_peers, (d, active), update) ==> final(d).wf(),
        call_ensures(PathDiscoverer::handle_peer_best_path, (d, report), publish) ==> final(d).wf(),
        call_ensures(PathDiscoverer::handle_stop, (d,), published) ==> final(d).wf(),
{
}

/// A new coordinator knows of no active peer and no path.
pub proof fn law_new_coordinator_knows_nothing(d: PathDiscoverer, peer: PeerId)
    requires
        call_ensures(PathDiscoverer::new, (), d),
    ensures
        d.wf(),
        !d.active_peers@.contains(peer),
        !d.best_paths@.contains_key(peer),
{
}

/// When the active peers change, an agent is created for exactly the peers that were not active
/// before, one for each.
pub proof fn law_agents_are_created_for_new_peers(
    d: &mut PathDiscoverer,
    active: ActivePeers,
    update: ActivePeersUpdate,
    peer: PeerId,
    i: int,
    j: int,
)
    requires
        call_ensures(PathDiscoverer::handle_active_peers, (d, active), update),
    ensures
        update.to_create@.contains(peer) <==> active@.contains(peer)
            && !old(d).active_peers@.contains(peer),
        0 <= i < j < update.to_create@.len() ==> update.to_create@[i] != update.to_create@[j],
        final(d).active_peers@.contains(peer) <==> active@.contains(peer),
{
    assert(update.to_create@.to_set().contains(peer) <==> update.to_create@.contains(peer));
}

/// When the active peers change, every peer that is no longer active loses its path, and every
/// other keeps its own. The paths are published exactly if one was lost, and then as they are
/// after the change.
pub proof fn law_leaving_peers_lose_their_path(
    d: &mut PathDiscoverer,
    active: ActivePeers,
    update: ActivePeersUpdate,
    peer: PeerId,
)
    requires
        call_ensures(PathDiscoverer::handle_active_peers, (d, active), update),
    ensures
        final(d).best_paths@.get(peer) == if old(d).active_peers@.contains(peer)
            && !active@.contains(peer) {
            None
        } else {
            old(d).best_paths@.get(peer)
        },
        update.publish is Some <==> exists|lost: PeerId|
            old(d).active_peers@.contains(lost) && !active@.contains(lost)
                && #[trigger] old(d).best_paths@.contains_key(lost),
        update.publish matches Some(published) ==> published.0.wf() && published.0@.get(peer)
            == final(d).best_paths@.get(peer),
{
    let before = old(d).best_paths@;
    let after = final(d).best_paths@;
    let gone = old(d).active_peers@.difference(active@);
    if forall|lost: PeerId| gone.contains(lost) ==> !before.contains_key(lost) {
        assert(before.remove_keys(gone) =~= before);
    } else {
        let lost = choose|lost: PeerId| gone.contains(lost) && before.contains_key(lost);
        assert(!after.contains_key(lost));
        assert(before.contains_key(lost));
    }
}

/// A report on an active peer makes the reported path, or its absence, that of the peer; a report
/// on any other peer changes nothing. No other peer's path and no active peer changes. The paths
/// are published exactly if the peer's has changed, and then as they are after the change.
pub proof fn law_reports_on_active_peers_are_taken_over(
    d: &mut PathDiscoverer,
    report: PeerBestPath,
    publish: Option<BestPaths>,
    peer: PeerId,
)
    requires
        call_ensures(PathDiscoverer::handle_peer_best_path, (d, report), publish),
    ensures
        final(d).active_peers@.contains(peer) <==> old(d).active_peers@.contains(peer),
        final(d).best_paths@.get(peer) == if peer == report.peer && old(d).active_peers@.contains(
            peer,
        ) {
            report.ep
        } else {
            old(d).best_paths@.get(peer)
        },
        publish is Some <==> old(d).active_peers@.contains(report.peer) && old(d).best_paths@.get(
            report.peer,
        ) != report.ep,
        publish matches Some(published) ==> published.0.wf() && published.0@.get(peer)
            == final(d).best_paths@.get(peer),
{
    let before = old(d).best_paths@;
    let after = final(d).best_paths@;
    if before.get(report.peer) == report.ep {
        assert(after =~= before);
    } else if old(d).active_peers@.contains(report.peer) {
        assert(after.get(report.peer) == report.ep);
    }
}

/// The end leaves no peer a path, which is published; the active peers stay.
pub proof fn law_end_leaves_no_path(d: &mut PathDiscoverer, published: BestPaths, peer: PeerId)
    requires
        call_ensures(PathDiscoverer::handle_stop, (d,), published),
    ensures
        !final(d).best_paths@.contains_key(peer),
        !published.0@.contains_key(peer),
        published.0.wf(),
        final(d).active_peers@.contains(peer) <==> old(d).active_peers@.contains(peer),
{
}

/// What is published of a peer is the path that is held of it.
pub proof fn law_held_paths_are_published(d: PathDiscoverer, published: BestPaths, peer: PeerId)
    requires
        d.wf(),
        call_ensures(PathDiscoverer::publish_best_paths, (&d,), published),
    ensures
        call_requires(PathDiscoverer::publish_best_paths, (&d,)),
        published.0.wf(),
        published.0@.get(peer) == d.best_paths@.get(peer),
{
}

} // verus!
