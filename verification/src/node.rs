use vstd::prelude::*;
use crate::raftpb::{
    ConfState, Entry, Message, MessageType, Snapshot, SnapshotMetadata, SnapshotStatus,
};

verus! {

/// Messages that a node produces for itself and never takes from outside.
pub open spec fn spec_is_local_msg(t: MessageType) -> bool {
    t == MessageType::MsgHup || t == MessageType::MsgBeat || t == MessageType::MsgUnreachable
        || t == MessageType::MsgSnapStatus || t == MessageType::MsgCheckQuorum
}

/// Messages that answer an earlier request.
pub open spec fn spec_is_response_msg(t: MessageType) -> bool {
    t == MessageType::MsgAppendResponse || t == MessageType::MsgRequestVoteResponse || t
        == MessageType::MsgHeartbeatResponse || t == MessageType::MsgUnreachable || t
        == MessageType::MsgRequestPreVoteResponse
}

/// The local messages are exactly the kinds numbered 0 and 1 (a campaign and a
/// heartbeat tick) and 10 to 12 (an unreachable peer, a snapshot's status and a
/// quorum check) on the wire: every other kind, a proposal among them, comes from
/// outside.
pub proof fn law_local_messages(t: MessageType)
    ensures
        spec_is_local_msg(t) <==> (t.spec_value() <= 1 || 10 <= t.spec_value() <= 12),
        spec_is_local_msg(MessageType::MsgHup),
        spec_is_local_msg(MessageType::MsgBeat),
        spec_is_local_msg(MessageType::MsgUnreachable),
        spec_is_local_msg(MessageType::MsgSnapStatus),
        spec_is_local_msg(MessageType::MsgCheckQuorum),
        !spec_is_local_msg(MessageType::MsgPropose),
{
}

pub fn is_local_msg(t: MessageType) -> (r: bool)
    ensures
        r == spec_is_local_msg(t),
        r <==> (t.spec_value() <= 1 || 10 <= t.spec_value() <= 12),
{
    match t {
        MessageType::MsgHup | MessageType::MsgBeat | MessageType::MsgUnreachable
        | MessageType::MsgSnapStatus | MessageType::MsgCheckQuorum => true,
        _ => false,
    }
}

pub fn is_response_msg(t: MessageType) -> (r: bool)
    ensures
        r == spec_is_response_msg(t),
{
    match t {
        MessageType::MsgAppendResponse | MessageType::MsgRequestVoteResponse
        | MessageType::MsgHeartbeatResponse | MessageType::MsgUnreachable
        | MessageType::MsgRequestPreVoteResponse => true,
        _ => false,
    }
}

/// Where a message handed to a node goes.
#[derive(Clone, Copy, PartialEq, Eq, Structural, Debug)]
pub enum StepRoute {
    /// A local message from outside: dropped.
    Ignore,
    /// A proposal: to the proposal channel.
    Propose,
    /// Anything else: to the receive channel.
    Receive,
}

/// Routes a message handed to `step`: local messages are dropped, proposals go to the
/// proposal channel and the rest to the receive channel.
pub fn step_route(t: MessageType) -> (r: StepRoute)
    ensures
        spec_is_local_msg(t) ==> r == StepRoute::Ignore,
        !spec_is_local_msg(t) && t == MessageType::MsgPropose ==> r == StepRoute::Propose,
        !spec_is_local_msg(t) && t != MessageType::MsgPropose ==> r == StepRoute::Receive,
        r == StepRoute::Ignore <==> ({
            ||| t == MessageType::MsgHup
            ||| t == MessageType::MsgBeat
            ||| t == MessageType::MsgUnreachable
            ||| t == MessageType::MsgSnapStatus
            ||| t == MessageType::MsgCheckQuorum
        }),
        r == StepRoute::Propose <==> t == MessageType::MsgPropose,
{
    if is_local_msg(t) {
        StepRoute::Ignore
    } else if t == MessageType::MsgPropose {
        StepRoute::Propose
    } else {
        StepRoute::Receive
    }
}

/// Why a node refused a request.
#[derive(Clone, Copy, PartialEq, Eq, Structural, Debug)]
pub enum NodeError {
    NotIsVoter,
    NoLeader,
    Stopped,
}

/// Whether `id` votes in the membership `cs`, in its current or its outgoing half.
pub fn is_voter_with_conf_state(cs: &ConfState, id: u64) -> (r: bool)
    ensures
        r == (cs.voters@.contains(id) || cs.voters_outgoing@.contains(id)),
{
    contains_id(&cs.voters, id) || contains_id(&cs.voters_outgoing, id)
}

fn contains_id(v: &Vec<u64>, id: u64) -> (r: bool)
    ensures
        r == v@.contains(id),
{
    let mut i: usize = 0;
    while i < v.len()
        invariant
            i <= v@.len(),
            forall|k: int| 0 <= k < i ==> v@[k] != id,
        decreases v@.len() - i,
    {
        if v[i] == id {
            return true;
        }
        i = i + 1;
    }
    false
}

/// Whether a proposal may be stepped: only a voter with a known leader proposes.
pub fn proposal_verdict(is_voter: bool, has_leader: bool) -> (r: Result<(), NodeError>)
    ensures
        !is_voter ==> r == Err::<(), NodeError>(NodeError::NotIsVoter),
        is_voter && !has_leader ==> r == Err::<(), NodeError>(NodeError::NoLeader),
        is_voter && has_leader ==> r is Ok,
{
    if !is_voter {
        Err(NodeError::NotIsVoter)
    } else if !has_leader {
        Err(NodeError::NoLeader)
    } else {
        Ok(())
    }
}

/// Whether a received message is stepped: answers are taken only from known peers.
pub fn accept_received(sender_known: bool, t: MessageType) -> (r: bool)
    ensures
        r == (sender_known || !spec_is_response_msg(t)),
{
    sender_known || !is_response_msg(t)
}

/// The node loop's bookkeeping of handed-out readies: one is handed out at a time, and
/// the next only after the application advanced past it.
pub struct ReadyGate {
    wait_advance: bool,
    first: bool,
}

impl ReadyGate {
    pub closed spec fn waiting(&self) -> bool {
        self.wait_advance
    }

    pub closed spec fn is_first(&self) -> bool {
        self.first
    }

    /// One pass of the loop: the new state, and whether a ready goes out.
    pub closed spec fn spec_turn(self, has_ready: bool) -> (ReadyGate, bool) {
        let emit = !self.wait_advance && has_ready && !self.first;
        (ReadyGate { wait_advance: self.wait_advance || emit, first: false }, emit)
    }

    /// The state once the application has advanced.
    pub closed spec fn spec_advance(self) -> ReadyGate {
        ReadyGate { wait_advance: false, first: self.first }
    }

    pub fn new() -> (r: ReadyGate)
        ensures
            !r.waiting(),
            r.is_first(),
    {
        ReadyGate { wait_advance: false, first: true }
    }

    /// One turn of the loop: hands out a ready when one is pending, none is waiting to
    /// be advanced, and this is not the first turn.
    pub fn turn(&mut self, has_ready: bool) -> (emit: bool)
        ensures
            (*final(self), emit) == old(self).spec_turn(has_ready),
            emit == (!old(self).waiting() && has_ready && !old(self).is_first()),
            !final(self).is_first(),
    {
        let emit = !self.wait_advance && has_ready && !self.first;
        if emit {
            self.wait_advance = true;
        }
        self.first = false;
        emit
    }

    /// The application advanced past the last ready.
    pub fn advance(&mut self)
        ensures
            *final(self) == old(self).spec_advance(),
            !final(self).waiting(),
    {
        self.wait_advance = false;
    }
}

/// Once a ready is handed out, no other is until the application advances.
pub proof fn law_one_ready_at_a_time(g: ReadyGate, h1: bool, h2: bool)
    requires
        g.spec_turn(h1).1,
    ensures
        !g.spec_turn(h1).0.spec_turn(h2).1,
{
}

/// Where the loop's bookkeeping stands once it has taken the turns `hs`, with no
/// advance in between, and whether any of those turns gave the application a ready.
pub open spec fn run_turns(g: ReadyGate, hs: Seq<bool>) -> (ReadyGate, bool)
    decreases hs.len(),
{
    if hs.len() == 0 {
        (g, false)
    } else {
        let first = g.spec_turn(hs[0]);
        let rest = run_turns(first.0, hs.drop_first());
        (rest.0, first.1 || rest.1)
    }
}

proof fn lemma_waiting_gate_holds(g: ReadyGate, hs: Seq<bool>)
    requires
        g.waiting(),
    ensures
        !run_turns(g, hs).1,
        run_turns(g, hs).0.waiting(),
    decreases hs.len(),
{
    if hs.len() > 0 {
        lemma_waiting_gate_holds(g.spec_turn(hs[0]).0, hs.drop_first());
    }
}

/// Once a ready is handed out, none of the turns that follow hands out another, however
/// many there are and whatever is pending, until the application advances.
pub proof fn law_no_second_ready_before_advance(g: ReadyGate, h: bool, hs: Seq<bool>)
    requires
        g.spec_turn(h).1,
    ensures
        !run_turns(g.spec_turn(h).0, hs).1,
{
    lemma_waiting_gate_holds(g.spec_turn(h).0, hs);
}

/// After an advance, a pending ready is handed out on the next turn (the first turn of
/// the loop aside).
pub proof fn law_advance_releases(g: ReadyGate)
    requires
        !g.is_first(),
    ensures
        g.spec_advance().spec_turn(true).1,
{
}

/// A snapshot with nothing in it: no data, at index and term zero, with an empty
/// membership.
pub open spec fn is_default_snapshot(s: Snapshot) -> bool {
    &&& s.data@.len() == 0
    &&& s.metadata.index == 0
    &&& s.metadata.term == 0
    &&& s.metadata.conf_state.voters@.len() == 0
    &&& s.metadata.conf_state.learners@.len() == 0
    &&& s.metadata.conf_state.voters_outgoing@.len() == 0
    &&& s.metadata.conf_state.learners_next@.len() == 0
    &&& !s.metadata.conf_state.auto_leave
}

/// A message of kind `t` from `from` to `to`, with the given rejection flag, and every
/// other field but its entries at its default.
pub open spec fn plain_message(m: Message, t: MessageType, to: u64, from: u64, reject: bool) -> bool {
    &&& m.msg_type == t
    &&& m.to == to
    &&& m.from == from
    &&& m.term == 0
    &&& m.index == 0
    &&& m.reject == reject
    &&& is_default_snapshot(m.snapshot)
}

/// A message holding the single entry `data`, at term and index zero.
pub open spec fn one_entry(m: Message, data: Seq<u8>) -> bool {
    &&& m.entries@.len() == 1
    &&& m.entries@[0].data@ == data
    &&& m.entries@[0].term == 0
    &&& m.entries@[0].index == 0
}

fn empty_snapshot() -> (s: Snapshot)
    ensures
        is_default_snapshot(s),
{
    Snapshot {
        data: Vec::new(),
        metadata: SnapshotMetadata {
            conf_state: ConfState {
                voters: Vec::new(),
                learners: Vec::new(),
                voters_outgoing: Vec::new(),
                learners_next: Vec::new(),
                auto_leave: false,
            },
            index: 0,
            term: 0,
        },
    }
}

/// A message of kind `t` with every other field at its default.
pub fn new_message(t: MessageType) -> (m: Message)
    ensures
        plain_message(m, t, 0, 0, false),
        m.entries@.len() == 0,
{
    Message {
        msg_type: t,
        to: 0,
        from: 0,
        term: 0,
        index: 0,
        entries: Vec::new(),
        snapshot: empty_snapshot(),
        reject: false,
    }
}

/// The message that starts an election.
pub fn campaign_message() -> (m: Message)
    ensures
        plain_message(m, MessageType::MsgHup, 0, 0, false),
        m.entries@.len() == 0,
{
    new_message(MessageType::MsgHup)
}

/// The message that proposes `data` for the log: one entry holding it.
pub fn propose_message(data: &[u8]) -> (m: Message)
    ensures
        plain_message(m, MessageType::MsgPropose, 0, 0, false),
        one_entry(m, data@),
{
    let mut m = new_message(MessageType::MsgPropose);
    let d = vstd::slice::slice_to_vec(data);
    m.entries.push(Entry { term: 0, index: 0, data: d });
    m
}

/// The message that asks for a read index, carrying the request context.
pub fn read_index_message(rctx: Vec<u8>) -> (m: Message)
    ensures
        plain_message(m, MessageType::MsgReadIndex, 0, 0, false),
        one_entry(m, rctx@),
{
    let mut m = new_message(MessageType::MsgReadIndex);
    m.entries.push(Entry { term: 0, index: 0, data: rctx });
    m
}

/// The message that asks the leader `lead` to hand leadership to `transferee`.
pub fn transfer_leader_message(lead: u64, transferee: u64) -> (m: Message)
    ensures
        plain_message(m, MessageType::MsgTransferLeader, lead, transferee, false),
        m.entries@.len() == 0,
{
    let mut m = new_message(MessageType::MsgTransferLeader);
    m.from = transferee;
    m.to = lead;
    m
}

/// The message that reports the peer `id` unreachable.
pub fn unreachable_message(id: u64) -> (m: Message)
    ensures
        plain_message(m, MessageType::MsgUnreachable, 0, id, false),
        m.entries@.len() == 0,
{
    let mut m = new_message(MessageType::MsgUnreachable);
    m.from = id;
    m
}

/// The message that reports how sending a snapshot to `id` ended: rejected when it
/// failed.
pub fn snapshot_status_message(id: u64, status: SnapshotStatus) -> (m: Message)
    ensures
        plain_message(m, MessageType::MsgSnapStatus, 0, id, status == SnapshotStatus::Failure),
        m.entries@.len() == 0,
{
    let mut m = new_message(MessageType::MsgSnapStatus);
    m.from = id;
    m.reject = status == SnapshotStatus::Failure;
    m
}

} // verus!
