use vstd::prelude::*;
use crate::raftpb::{HardState, SoftState, StateRole};

verus! {

/// A raft peer's view of itself: its id, durable and volatile state, how far it has
/// applied the log, and, on the leader only, the progress of its followers (`P`).
pub struct BaseStatus<P> {
    pub id: u64,
    pub hs: HardState,
    pub ss: SoftState,
    pub applied: u64,
    pub progress: Option<P>,
}

impl<P> BaseStatus<P> {
    /// The status of a peer; the followers' progress is kept only when the peer leads.
    pub fn new(id: u64, hs: HardState, ss: SoftState, applied: u64, progress: P) -> (r: Self)
        ensures
            r.id == id,
            r.hs == hs,
            r.ss == ss,
            r.applied == applied,
            ss.raft_state == StateRole::Leader ==> r.progress == Some(progress),
            ss.raft_state != StateRole::Leader ==> r.progress is None,
    {
        let keep = ss.raft_state == StateRole::Leader;
        BaseStatus {
            id,
            hs,
            ss,
            applied,
            progress: if keep {
                Some(progress)
            } else {
                None
            },
        }
    }
}

/// A raft peer's status with its membership configuration (`C`) and, on the leader,
/// the progress of each follower (`M`).
pub struct Status<P, C, M> {
    pub base_status: BaseStatus<P>,
    pub config: C,
    pub progress: Option<M>,
}

impl<P, C, M> Status<P, C, M> {
    /// The full status; the per-follower progress is kept only when the peer leads.
    pub fn new(base_status: BaseStatus<P>, config: C, progress: M) -> (r: Self)
        ensures
            r.base_status == base_status,
            r.config == config,
            base_status.ss.raft_state == StateRole::Leader ==> r.progress == Some(progress),
            base_status.ss.raft_state != StateRole::Leader ==> r.progress is None,
    {
        let keep = base_status.ss.raft_state == StateRole::Leader;
        Status {
            base_status,
            config,
            progress: if keep {
                Some(progress)
            } else {
                None
            },
        }
    }
}

} // verus!
