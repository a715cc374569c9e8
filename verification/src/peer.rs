//! The supervisor of the sessions: one state machine for each configured
//! peer. The caller reads the sockets and performs the actions; the
//! supervisor hands events and bytes to the session that they belong to.

use crate::finite_state_machine::{action_models, fsm, Action, Event, FsmModel};
use crate::rib::{EntryModel, LocRib, Rib};
use crate::Config;
use vstd::prelude::*;

verus! {

/// The sessions of all peers, in the order of their configurations, and
/// the Loc-RIB that the supervisor keeps beside them.
pub struct BgpPeers {
    pub peers: Vec<fsm>,
    pub loc_rib: LocRib,
}

/// What each session of a list holds.
pub open spec fn fsm_models(peers: Seq<fsm>) -> Seq<FsmModel> {
    Seq::new(peers.len(), |i: int| peers[i]@)
}

/// One idle session for each configuration, created at `now`.
pub open spec fn created_peers(configs: Seq<Config>, now: u64) -> Seq<FsmModel> {
    Seq::new(configs.len(), |i: int| FsmModel::created(configs[i], now))
}

/// The sessions with a `ManualStart` at the end of each event queue.
pub open spec fn started_peers(peers: Seq<FsmModel>) -> Seq<FsmModel> {
    Seq::new(peers.len(), |i: int| peers[i].queued(Event::ManualStart))
}

impl BgpPeers {
    /// What the sessions hold.
    pub open spec fn sessions(&self) -> Seq<FsmModel> {
        fsm_models(self.peers@)
    }

    /// No base of any session holds a route twice.
    pub open spec fn wf(&self) -> bool {
        forall|i: int| 0 <= i < self.peers@.len() ==> (#[trigger] self.peers@[i]).wf()
    }

    /// One idle session for each configuration, in order, and an empty
    /// Loc-RIB.
    pub fn new(configs: Vec<Config>, now: u64) -> (supervisor: Self)
        ensures
            supervisor.sessions() == created_peers(configs@, now),
            supervisor.loc_rib@ == Seq::<EntryModel>::empty(),
            supervisor.wf(),
    {
        let mut peers: Vec<fsm> = Vec::new();
        let mut i: usize = 0;
        while i < configs.len()
            invariant
                i <= configs.len(),
                peers.len() == i,
                forall|j: int|
                    0 <= j < i ==> (#[trigger] peers@[j])@ == FsmModel::created(configs@[j], now)
                        && peers@[j].wf(),
            decreases configs.len() - i,
        {
            peers.push(fsm::new(configs[i], now));
            i = i + 1;
        }
        let loc_rib = Rib::new(Vec::new());
        let supervisor = BgpPeers { peers, loc_rib };
        assert(supervisor.sessions() =~= created_peers(configs@, now));
        supervisor
    }

    /// Puts a `ManualStart` at the end of the event queue of every session.
    pub fn start_all(&mut self)
        ensures
            final(self).sessions() == started_peers(old(self).sessions()),
            final(self).loc_rib@ == old(self).loc_rib@,
            old(self).wf() ==> final(self).wf(),
    {
        let mut i: usize = 0;
        while i < self.peers.len()
            invariant
                i <= self.peers.len(),
                self.peers@.len() == old(self).peers@.len(),
                self.loc_rib@ == old(self).loc_rib@,
                forall|j: int|
                    0 <= j < i ==> (#[trigger] self.peers@[j])@ == old(self).peers@[j]@.queued(
                        Event::ManualStart,
                    ),
                forall|j: int|
                    i <= j < self.peers@.len() ==> (#[trigger] self.peers@[j])@ == old(
                        self,
                    ).peers@[j]@,
            decreases self.peers.len() - i,
        {
            self.peers[i].event_queue.push(Event::ManualStart);
            i = i + 1;
        }
        assert(self.sessions() =~= started_peers(old(self).sessions()));
        assert(old(self).wf() ==> self.wf()) by {
            if old(self).wf() {
                assert forall|j: int| 0 <= j < self.peers@.len() implies (
                #[trigger] self.peers@[j]).wf() by {
                    assert(old(self).peers@[j].wf());
                }
            }
        }
    }

    /// Lets session `peer` take the oldest of its waiting events, if there
    /// is one, and handle it at time `now`. The other sessions stay as they
    /// are.
    pub fn drain_one_event(&mut self, peer: usize, now: u64) -> (actions: Vec<Action>)
        requires
            peer < old(self).peers@.len(),
        ensures
            final(self).sessions() == old(self).sessions().update(
                peer as int,
                old(self).sessions()[peer as int].drained(now).0,
            ),
            action_models(actions@) == old(self).sessions()[peer as int].drained(now).1,
            final(self).loc_rib@ == old(self).loc_rib@,
            old(self).wf() ==> final(self).wf(),
    {
        let actions = self.peers[peer].drain_one_event(now);
        assert(self.sessions() =~= old(self).sessions().update(
            peer as int,
            old(self).sessions()[peer as int].drained(now).0,
        ));
        assert(old(self).wf() ==> self.wf()) by {
            if old(self).wf() {
                assert forall|j: int| 0 <= j < self.peers@.len() implies (
                #[trigger] self.peers@[j]).wf() by {
                    assert(old(self).peers@[j].wf());
                }
            }
        }
        actions
    }

    /// Hands bytes that have come from the peer of session `peer` to that
    /// session. The other sessions stay as they are.
    pub fn deliver(&mut self, peer: usize, bytes: &Vec<u8>)
        requires
            peer < old(self).peers@.len(),
        ensures
            final(self).sessions() == old(self).sessions().update(
                peer as int,
                old(self).sessions()[peer as int].received(bytes@),
            ),
            final(self).loc_rib@ == old(self).loc_rib@,
            old(self).wf() ==> final(self).wf(),
    {
        self.peers[peer].receive(bytes);
        assert(self.sessions() =~= old(self).sessions().update(
            peer as int,
            old(self).sessions()[peer as int].received(bytes@),
        ));
        assert(old(self).wf() ==> self.wf()) by {
            if old(self).wf() {
                assert forall|j: int| 0 <= j < self.peers@.len() implies (
                #[trigger] self.peers@[j]).wf() by {
                    assert(old(self).peers@[j].wf());
                }
            }
        }
    }
}

} // verus!
