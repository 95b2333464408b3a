//! Coordination of path discovery over all peers.
//!
//! A [`PathDiscoverer`] keeps one path discovery agent per active peer, gathers what the agents
//! report, and publishes the best path of each peer whenever one changes. The active peers are
//! those that this node has recently tried to send packets to. Peers that are not active have no
//! retained path information.

use crate::endpoint::DynEndpoint;
use crate::linear_map::{Key, LinearMap, LinearSet};
use crate::transport::{PeerId, UnderlayTransportId};
use std::sync::Arc;
use vstd::prelude::*;

verus! {

/// The peers that have recent outgoing traffic.
pub type ActivePeers = LinearSet<PeerId>;

/// The best path of each peer that has one.
pub type BestPathMap = LinearMap<PeerId, (UnderlayTransportId, DynEndpoint)>;

/// The best paths, as they are published.
#[derive(Debug, Clone)]
pub struct BestPaths(pub Arc<BestPathMap>);

/// What path discovery reports of one peer: its best path, or that it has none.
#[derive(Debug, Copy, Clone, PartialEq, Eq)]
pub struct PeerBestPath {
    pub peer: PeerId,
    pub ep: Option<(UnderlayTransportId, DynEndpoint)>,
}

/// What a change of the active peers calls for.
#[derive(Debug)]
pub struct ActivePeersUpdate {
    /// The peers to start an agent for.
    pub to_create: Vec<PeerId>,
    /// The best paths to publish, if they have changed.
    pub publish: Option<BestPaths>,
}

/// The state of a [`PathDiscoverer`], as mathematical values.
#[verifier::ext_equal]
pub struct PathDiscovererState {
    pub active_peers: Set<PeerId>,
    pub best_paths: Map<PeerId, (UnderlayTransportId, DynEndpoint)>,
}

impl PathDiscovererState {
    /// The state at the start: no peer is active.
    pub open spec fn initial() -> PathDiscovererState {
        PathDiscovererState { active_peers: Set::empty(), best_paths: Map::empty() }
    }

    /// The state after the active peers have become `active`: peers that are no longer active
    /// lose their path.
    pub open spec fn after_active_peers(self, active: Set<PeerId>) -> PathDiscovererState {
        PathDiscovererState {
            active_peers: active,
            best_paths: self.best_paths.remove_keys(self.active_peers.difference(active)),
        }
    }

    /// The state after a report. Reports of peers that are not active change nothing.
    pub open spec fn after_report(self, report: PeerBestPath) -> PathDiscovererState {
        if !self.active_peers.contains(report.peer) {
            self
        } else {
            PathDiscovererState {
                best_paths: match report.ep {
                    Some(path) => self.best_paths.insert(report.peer, path),
                    None => self.best_paths.remove(report.peer),
                },
                ..self
            }
        }
    }

    /// The state after the end.
    pub open spec fn after_stop(self) -> PathDiscovererState {
        PathDiscovererState { best_paths: Map::empty(), ..self }
    }

    /// Whether a step from this state to `next` publishes `publish`: the best paths, if they have
    /// changed.
    pub open spec fn publishes(
        self,
        next: PathDiscovererState,
        publish: Option<BestPaths>,
    ) -> bool {
        match publish {
            Some(published) => {
                &&& next.best_paths != self.best_paths
                &&& published.0.wf()
                &&& published.0@ == next.best_paths
            },
            None => next.best_paths == self.best_paths,
        }
    }
}

/// Coordinates path discovery for peers.
///
/// Path discovery of single peers is left to agents; this gathers and debounces their reports.
#[derive(Debug)]
pub struct PathDiscoverer {
    pub active_peers: ActivePeers,
    pub best_paths: BestPathMap,
}

impl View for PathDiscoverer {
    type V = PathDiscovererState;

    open spec fn view(&self) -> PathDiscovererState {
        PathDiscovererState { active_peers: self.active_peers@, best_paths: self.best_paths@ }
    }
}

impl PathDiscoverer {
    /// No peer is listed twice.
    pub open spec fn wf(&self) -> bool {
        self.active_peers.wf() && self.best_paths.wf()
    }

    /// A coordinator that knows of no active peer.
    pub fn new() -> (d: Self)
        ensures
            d.wf(),
            d@ == PathDiscovererState::initial(),
    {
        PathDiscoverer { active_peers: LinearSet::new(), best_paths: LinearMap::new() }
    }

    /// The best paths, as they are to be published.
    pub fn publish_best_paths(&self) -> (published: BestPaths)
        requires
            self.wf(),
        ensures
            published.0.wf(),
            published.0@ == self@.best_paths,
    {
        BestPaths(Arc::new(self.best_paths.copied()))
    }

    /// Takes in the peers that are now active.
    pub fn handle_active_peers(&mut self, active: ActivePeers) -> (update: ActivePeersUpdate)
        requires
            old(self).wf(),
            active.wf(),
        ensures
            final(self).wf(),
            final(self)@ == old(self)@.after_active_peers(active@),
            update.to_create@.no_duplicates(),
            update.to_create@.to_set() == active@.difference(old(self)@.active_peers),
            old(self)@.publishes(final(self)@, update.publish),
    {
        let to_create = active.difference(&self.active_peers);
        let to_delete = self.active_peers.difference(&active);
        let ghost before = self.best_paths@;
        let mut any_deleted = false;
        proof {
            assert(to_delete@.take(0).to_set() =~= Set::<PeerId>::empty());
            assert(before.remove_keys(Set::empty()) =~= before);
        }
        let mut i: usize = 0;
        while i < to_delete.len()
            invariant
                i <= to_delete@.len(),
                self.wf(),
                self.active_peers == old(self).active_peers,
                self.best_paths@ == before.remove_keys(to_delete@.take(i as int).to_set()),
                any_deleted == (self.best_paths@ != before),
            decreases to_delete@.len() - i,
        {
            let ghost done = to_delete@.take(i as int);
            let ghost peer = to_delete@[i as int];
            let ghost current = self.best_paths@;
            if self.best_paths.remove(&to_delete[i]).is_some() {
                any_deleted = true;
            }
            proof {
                assert(to_delete@.take(i + 1) =~= done.push(peer));
                assert forall|x: PeerId| #[trigger]
                    to_delete@.take(i + 1).contains(x) <==> done.contains(x) || x == peer by {
                    crate::linear_map::lemma_push_contains(done, peer, x);
                }
                assert(to_delete@.take(i + 1).to_set() =~= done.to_set().insert(peer));
                assert(self.best_paths@ =~= before.remove_keys(
                    to_delete@.take(i + 1).to_set(),
                ));
                if current.contains_key(peer) {
                    assert(before.contains_key(peer));
                    assert(!self.best_paths@.contains_key(peer));
                } else {
                    assert(self.best_paths@ =~= current);
                }
            }
            i += 1;
        }
        assert(to_delete@.take(i as int) =~= to_delete@);

        let publish = if any_deleted {
            Some(self.publish_best_paths())
        } else {
            None
        };
        self.active_peers = active;
        ActivePeersUpdate { to_create, publish }
    }

    /// Takes in the report of an agent. Returns the best paths to publish, if they have changed.
    ///
    /// A report that comes in after its peer has ceased to be active is dropped, so that no path
    /// of an inactive peer is retained.
    pub fn handle_peer_best_path(&mut self, report: PeerBestPath) -> (publish: Option<BestPaths>)
        requires
            old(self).wf(),
        ensures
            final(self).wf(),
            final(self)@ == old(self)@.after_report(report),
            old(self)@.publishes(final(self)@, publish),
    {
        if !self.active_peers.contains(&report.peer) {
            return None;
        }

        let ghost before = self.best_paths@;
        let changed = match report.ep {
            Some(path) => {
                let changed = match self.best_paths.insert(report.peer, path) {
                    Some(previous) => !previous.same(&path),
                    None => true,
                };
                proof {
                    if !changed {
                        assert(self.best_paths@ =~= before);
                    } else {
                        assert(before.get(report.peer) != self.best_paths@.get(report.peer));
                    }
                }
                changed
            },
            None => {
                let changed = self.best_paths.remove(&report.peer).is_some();
                proof {
                    if !changed {
                        assert(self.best_paths@ =~= before);
                    } else {
                        assert(before.contains_key(report.peer));
                    }
                }
                changed
            },
        };

        if !changed {
            return None;
        }

        Some(self.publish_best_paths())
    }

    /// Ends the coordination: no path is known any more, which is to be published.
    pub fn handle_stop(&mut self) -> (published: BestPaths)
        requires
            old(self).wf(),
        ensures
            final(self).wf(),
            final(self)@ == old(self)@.after_stop(),
            published.0.wf(),
            published.0@ == Map::<PeerId, (UnderlayTransportId, DynEndpoint)>::empty(),
    {
        self.best_paths.clear();
        self.publish_best_paths()
    }
}

impl PathDiscovererState {
    /// Whether only active peers have path information.
    pub open spec fn only_active_peers_have_paths(self) -> bool {
        self.best_paths.dom().subset_of(self.active_peers)
    }
}

/// Peers that are not active have no retained path information: it is so at the start, and every
/// step keeps it so.
pub proof fn law_only_active_peers_have_paths(
    s: PathDiscovererState,
    active: Set<PeerId>,
    report: PeerBestPath,
)
    ensures
        PathDiscovererState::initial().only_active_peers_have_paths(),
        s.only_active_peers_have_paths() ==> {
            &&& s.after_active_peers(active).only_active_peers_have_paths()
            &&& s.after_report(report).only_active_peers_have_paths()
            &&& s.after_stop().only_active_peers_have_paths()
        },
{
}

/// There is one agent per active peer. If the agents that run are those of the active peers, a
/// change of the active peers creates no second agent for a peer, and once the agents of peers
/// that are not active any more have stopped, the agents that run are again those of the active
/// peers.
pub proof fn law_one_agent_per_active_peer(
    s: PathDiscovererState,
    agents: Set<PeerId>,
    active: Set<PeerId>,
    to_create: Seq<PeerId>,
)
    requires
        agents == s.active_peers,
        to_create.to_set() == active.difference(s.active_peers),
    ensures
        to_create.to_set().disjoint(agents),
        agents.union(to_create.to_set()).filter(|peer: PeerId| active.contains(peer))
            == s.after_active_peers(active).active_peers,
{
    assert(agents.union(to_create.to_set()).filter(|peer: PeerId| active.contains(peer))
        =~= active);
}

/// Something that a coordinator takes in.
pub enum DiscovererEvent {
    /// The active peers have changed.
    ActivePeers { active: Set<PeerId> },
    /// An agent reports.
    Report { report: PeerBestPath },
}

impl PathDiscovererState {
    /// The state after an event.
    pub open spec fn after_event(self, event: DiscovererEvent) -> PathDiscovererState {
        match event {
            DiscovererEvent::ActivePeers { active } => self.after_active_peers(active),
            DiscovererEvent::Report { report } => self.after_report(report),
        }
    }

    /// The state after a sequence of events.
    pub open spec fn after_events(self, events: Seq<DiscovererEvent>) -> PathDiscovererState
        decreases events.len(),
    {
        if events.len() == 0 {
            self
        } else {
            self.after_events(events.drop_last()).after_event(events.last())
        }
    }
}

/// Whether `peer` stays active through the events, and none of them is a report on it.
pub open spec fn none_concerns(events: Seq<DiscovererEvent>, peer: PeerId) -> bool {
    forall|i: int|
        0 <= i < events.len() ==> match #[trigger] events[i] {
            DiscovererEvent::ActivePeers { active } => active.contains(peer),
            DiscovererEvent::Report { report } => report.peer != peer,
        }
}

/// What was last reported of an active peer is what is held of it, whatever has happened to other
/// peers since, as long as the peer stays active.
pub proof fn law_last_report_is_held(
    s: PathDiscovererState,
    report: PeerBestPath,
    since: Seq<DiscovererEvent>,
)
    requires
        s.active_peers.contains(report.peer),
        none_concerns(since, report.peer),
    ensures
        s.after_report(report).after_events(since).active_peers.contains(report.peer),
        s.after_report(report).after_events(since).best_paths.get(report.peer) == report.ep,
    decreases since.len(),
{
    if since.len() > 0 {
        let rest = since.drop_last();
        assert(forall|i: int| 0 <= i < rest.len() ==> #[trigger] rest[i] == since[i]);
        law_last_report_is_held(s, report, rest);
        assert(since.last() == since[since.len() - 1]);
    }
}

/// A peer that stays active keeps its path when the active peers change, and a report changes
/// the path of no other peer.
pub proof fn law_other_paths_are_kept(
    s: PathDiscovererState,
    active: Set<PeerId>,
    report: PeerBestPath,
    peer: PeerId,
)
    ensures
        s.active_peers.contains(peer) && active.contains(peer) ==> s.after_active_peers(
            active,
        ).best_paths.get(peer) == s.best_paths.get(peer),
        peer != report.peer ==> s.after_report(report).best_paths.get(peer) == s.best_paths.get(
            peer,
        ),
{
}

/// The paths that were published last are the paths that are held, as long as every step's
/// publication goes out; nothing is published when nothing has changed.
pub proof fn law_published_paths_are_current(
    s: PathDiscovererState,
    next: PathDiscovererState,
    last: Map<PeerId, (UnderlayTransportId, DynEndpoint)>,
    publish: Option<BestPaths>,
)
    requires
        last == s.best_paths,
        s.publishes(next, publish),
    ensures
        next.best_paths == match publish {
            Some(published) => published.0@,
            None => last,
        },
        publish is Some <==> next.best_paths != last,
{
}

/// Reporting the same path again changes nothing, and nothing is published for it.
pub proof fn law_repeated_report_is_debounced(
    s: PathDiscovererState,
    report: PeerBestPath,
    publish: Option<BestPaths>,
)
    requires
        s.after_report(report).publishes(s.after_report(report).after_report(report), publish),
    ensures
        s.after_report(report).after_report(report) == s.after_report(report),
        publish is None,
{
    let t = s.after_report(report);
    assert(t.after_report(report) =~= t);
}

} // verus!
