use vstd::prelude::*;

verus! {

/// The kinds of raft message.
#[derive(Clone, Copy, PartialEq, Eq, Structural, Debug)]
pub enum MessageType {
    MsgHup,
    MsgBeat,
    MsgPropose,
    MsgAppend,
    MsgAppendResponse,
    MsgRequestVote,
    MsgRequestVoteResponse,
    MsgSnapshot,
    MsgHeartbeat,
    MsgHeartbeatResponse,
    MsgUnreachable,
    MsgSnapStatus,
    MsgCheckQuorum,
    MsgTransferLeader,
    MsgTimeoutNow,
    MsgReadIndex,
    MsgReadIndexResp,
    MsgRequestPreVote,
    MsgRequestPreVoteResponse,
}

impl MessageType {
    /// The number of the kind on the wire.
    pub open spec fn spec_value(self) -> i32 {
        match self {
            MessageType::MsgHup => 0,
            MessageType::MsgBeat => 1,
            MessageType::MsgPropose => 2,
            MessageType::MsgAppend => 3,
            MessageType::MsgAppendResponse => 4,
            MessageType::MsgRequestVote => 5,
            MessageType::MsgRequestVoteResponse => 6,
            MessageType::MsgSnapshot => 7,
            MessageType::MsgHeartbeat => 8,
            MessageType::MsgHeartbeatResponse => 9,
            MessageType::MsgUnreachable => 10,
            MessageType::MsgSnapStatus => 11,
            MessageType::MsgCheckQuorum => 12,
            MessageType::MsgTransferLeader => 13,
            MessageType::MsgTimeoutNow => 14,
            MessageType::MsgReadIndex => 15,
            MessageType::MsgReadIndexResp => 16,
            MessageType::MsgRequestPreVote => 17,
            MessageType::MsgRequestPreVoteResponse => 18,
        }
    }

    /// The number of the kind on the wire.
    pub fn value(&self) -> (r: i32)
        ensures
            r == self.spec_value(),
    {
        match self {
            MessageType::MsgHup => 0,
            MessageType::MsgBeat => 1,
            MessageType::MsgPropose => 2,
            MessageType::MsgAppend => 3,
            MessageType::MsgAppendResponse => 4,
            MessageType::MsgRequestVote => 5,
            MessageType::MsgRequestVoteResponse => 6,
            MessageType::MsgSnapshot => 7,
            MessageType::MsgHeartbeat => 8,
            MessageType::MsgHeartbeatResponse => 9,
            MessageType::MsgUnreachable => 10,
            MessageType::MsgSnapStatus => 11,
            MessageType::MsgCheckQuorum => 12,
            MessageType::MsgTransferLeader => 13,
            MessageType::MsgTimeoutNow => 14,
            MessageType::MsgReadIndex => 15,
            MessageType::MsgReadIndexResp => 16,
            MessageType::MsgRequestPreVote => 17,
            MessageType::MsgRequestPreVoteResponse => 18,
        }
    }

    /// The kind with the given number on the wire, if there is one.
    pub fn from_i32(v: i32) -> (r: Option<MessageType>)
        ensures
            0 <= v <= 18 ==> (r matches Some(t) && t.spec_value() == v),
            !(0 <= v <= 18) ==> r is None,
    {
        match v {
            0 => Some(MessageType::MsgHup),
            1 => Some(MessageType::MsgBeat),
            2 => Some(MessageType::MsgPropose),
            3 => Some(MessageType::MsgAppend),
            4 => Some(MessageType::MsgAppendResponse),
            5 => Some(MessageType::MsgRequestVote),
            6 => Some(MessageType::MsgRequestVoteResponse),
            7 => Some(MessageType::MsgSnapshot),
            8 => Some(MessageType::MsgHeartbeat),
            9 => Some(MessageType::MsgHeartbeatResponse),
            10 => Some(MessageType::MsgUnreachable),
            11 => Some(MessageType::MsgSnapStatus),
            12 => Some(MessageType::MsgCheckQuorum),
            13 => Some(MessageType::MsgTransferLeader),
            14 => Some(MessageType::MsgTimeoutNow),
            15 => Some(MessageType::MsgReadIndex),
            16 => Some(MessageType::MsgReadIndexResp),
            17 => Some(MessageType::MsgRequestPreVote),
            18 => Some(MessageType::MsgRequestPreVoteResponse),
            _ => None,
        }
    }
}

/// The membership of a raft group.
#[derive(Clone, PartialEq, Eq, Debug)]
pub struct ConfState {
    pub voters: Vec<u64>,
    pub learners: Vec<u64>,
    pub voters_outgoing: Vec<u64>,
    pub learners_next: Vec<u64>,
    pub auto_leave: bool,
}

impl ConfState {
    /// The membership with the given voters and learners, and no joint configuration.
    pub fn from_voters_learners(voters: Vec<u64>, learners: Vec<u64>) -> (r: ConfState)
        ensures
            r.voters@ == voters@,
            r.learners@ == learners@,
            r.voters_outgoing@.len() == 0,
            r.learners_next@.len() == 0,
            !r.auto_leave,
    {
        ConfState {
            voters,
            learners,
            voters_outgoing: Vec::new(),
            learners_next: Vec::new(),
            auto_leave: false,
        }
    }
}

/// Where a snapshot stands in the log, and the membership at that point.
#[derive(Clone, PartialEq, Eq, Debug)]
pub struct SnapshotMetadata {
    pub conf_state: ConfState,
    pub index: u64,
    pub term: u64,
}

/// A snapshot of the replicated state.
#[derive(Clone, PartialEq, Eq, Debug)]
pub struct Snapshot {
    pub data: Vec<u8>,
    pub metadata: SnapshotMetadata,
}

impl Snapshot {
    /// A snapshot is empty when it stands at index zero.
    pub fn is_empty(&self) -> (r: bool)
        ensures
            r == (self.metadata.index == 0),
    {
        self.metadata.index == 0
    }
}

/// The durable state of a raft peer.
#[derive(Clone, Copy, PartialEq, Eq, Structural, Debug)]
pub struct HardState {
    pub term: u64,
    pub vote: u64,
    pub commit: u64,
}

/// The role a raft peer plays.
#[derive(Clone, Copy, PartialEq, Eq, Structural, Debug)]
pub enum StateRole {
    Follower,
    Candidate,
    Leader,
    PreCandidate,
}

/// The volatile state of a raft peer.
#[derive(Clone, Copy, PartialEq, Eq, Structural, Debug)]
pub struct SoftState {
    pub leader_id: u64,
    pub raft_state: StateRole,
}

/// One entry of the replicated log.
#[derive(Clone, PartialEq, Eq, Debug)]
pub struct Entry {
    pub term: u64,
    pub index: u64,
    pub data: Vec<u8>,
}

/// A raft message.
#[derive(Clone, PartialEq, Eq, Debug)]
pub struct Message {
    pub msg_type: MessageType,
    pub to: u64,
    pub from: u64,
    pub term: u64,
    pub index: u64,
    pub entries: Vec<Entry>,
    pub snapshot: Snapshot,
    pub reject: bool,
}

/// How sending a snapshot ended.
#[derive(Clone, Copy, PartialEq, Eq, Structural, Debug)]
pub enum SnapshotStatus {
    Finish,
    Failure,
}

} // verus!
