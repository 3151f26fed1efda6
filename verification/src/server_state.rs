use vstd::prelude::*;
use crate::raftpb::StateRole;
use crate::text::str_eq;

verus! {

/// The role that a member's statistics report, with the leader it follows and since
/// when (in nanoseconds since the Unix epoch).
pub struct ServerRole {
    /// This member's identifier, as the statistics write it.
    pub id: String,
    pub state: StateRole,
    /// The leader's name: this member's identifier once it leads.
    pub leader_name: String,
    /// When the current leader took over.
    pub leader_start: i64,
}

impl ServerRole {
    /// A follower of no known leader, since `now`.
    pub fn new(id: String, now: i64) -> (r: ServerRole)
        ensures
            r.id@ == id@,
            r.state == StateRole::Follower,
            r.leader_name@ == Seq::<char>::empty(),
            r.leader_start == now,
    {
        ServerRole { id, state: StateRole::Follower, leader_name: String::new(), leader_start: now }
    }

    /// This member leads from `now` on, unless it already led.
    pub fn become_leader(&mut self, now: i64)
        ensures
            final(self).state == StateRole::Leader,
            final(self).id == old(self).id,
            old(self).state != StateRole::Leader ==> final(self).leader_name@ == old(self).id@
                && final(self).leader_start == now,
            old(self).state == StateRole::Leader ==> final(self).leader_name == old(
                self,
            ).leader_name && final(self).leader_start == old(self).leader_start,
    {
        if self.state != StateRole::Leader {
            self.state = StateRole::Leader;
            self.leader_name = self.id.clone();
            self.leader_start = now;
        }
    }

    /// An append request arrived from `leader` at `now`: this member follows, and a new
    /// leader is noted with the time it was first heard from.
    pub fn follow(&mut self, leader: &str, now: i64)
        ensures
            final(self).state == StateRole::Follower,
            final(self).id == old(self).id,
            leader@ != old(self).leader_name@ ==> final(self).leader_name@ == leader@
                && final(self).leader_start == now,
            leader@ == old(self).leader_name@ ==> final(self).leader_name == old(
                self,
            ).leader_name && final(self).leader_start == old(self).leader_start,
    {
        self.state = StateRole::Follower;
        if !str_eq(leader, self.leader_name.as_str()) {
            self.leader_name = leader.to_string();
            self.leader_start = now;
        }
    }
}

} // verus!
