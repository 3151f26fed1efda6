use vstd::prelude::*;
use crate::raftpb::{Message, MessageType, SnapshotStatus};
use crate::text::{contains, occurs_in, str_eq};

verus! {

/// What the sender of messages to a peer does once a post is over.
#[derive(Clone, Copy, PartialEq, Eq, Structural, Debug)]
pub enum PeerAction {
    /// Mark the peer inactive.
    Deactivate,
    /// Mark the peer active.
    Activate,
    /// Count a failed append at the follower's statistics.
    RecordFail,
    /// Count a successful append at the follower's statistics.
    RecordSuccess,
    /// Tell raft the peer could not be reached.
    ReportUnreachable(u64),
    /// Tell raft how sending a snapshot to the peer ended.
    ReportSnapshot(u64, SnapshotStatus),
    /// Move on from the URL that was posted to.
    PickNextUrl,
    /// Pass on the news that this member was removed from the cluster.
    NotifyMemberRemoved,
}

/// What the pipeline does after posting `m`: on failure the peer is marked inactive,
/// a failed append is counted, raft hears that the peer is unreachable and, for a
/// snapshot, that sending it failed; on success the peer is marked active, a
/// successful append is counted and, for a snapshot, raft hears that it was sent.
pub open spec fn spec_pipeline_outcome(t: MessageType, to: u64, ok: bool) -> Seq<PeerAction> {
    if !ok {
        seq![PeerAction::Deactivate] + (if t == MessageType::MsgAppend {
            seq![PeerAction::RecordFail]
        } else {
            Seq::empty()
        }) + seq![PeerAction::ReportUnreachable(to)] + (if t == MessageType::MsgSnapshot {
            seq![PeerAction::ReportSnapshot(to, SnapshotStatus::Failure)]
        } else {
            Seq::empty()
        })
    } else {
        seq![PeerAction::Activate] + (if t == MessageType::MsgAppend {
            seq![PeerAction::RecordSuccess]
        } else {
            Seq::empty()
        }) + (if t == MessageType::MsgSnapshot {
            seq![PeerAction::ReportSnapshot(to, SnapshotStatus::Finish)]
        } else {
            Seq::empty()
        })
    }
}

/// A failed post marks the peer inactive, tells raft that it is unreachable and never
/// reports a snapshot as sent; for a snapshot it reports the failure to the peer it
/// was for. A post that went through never reports a failed snapshot, and for a
/// snapshot reports it as sent.
pub proof fn law_pipeline_reports(t: MessageType, to: u64, ok: bool)
    ensures
        !ok ==> spec_pipeline_outcome(t, to, ok).contains(PeerAction::Deactivate)
            && spec_pipeline_outcome(t, to, ok).contains(PeerAction::ReportUnreachable(to)),
        !ok ==> forall|i: int|
            0 <= i < spec_pipeline_outcome(t, to, ok).len() ==> !(#[trigger] spec_pipeline_outcome(
                t,
                to,
                ok,
            )[i] matches PeerAction::ReportSnapshot(_, SnapshotStatus::Finish)),
        ok ==> forall|i: int|
            0 <= i < spec_pipeline_outcome(t, to, ok).len() ==> !(#[trigger] spec_pipeline_outcome(
                t,
                to,
                ok,
            )[i] matches PeerAction::ReportSnapshot(_, SnapshotStatus::Failure)),
        !ok && t == MessageType::MsgSnapshot ==> spec_pipeline_outcome(t, to, ok).contains(
            PeerAction::ReportSnapshot(to, SnapshotStatus::Failure),
        ),
        ok && t == MessageType::MsgSnapshot ==> spec_pipeline_outcome(t, to, ok).contains(
            PeerAction::ReportSnapshot(to, SnapshotStatus::Finish),
        ),
{
    let s = spec_pipeline_outcome(t, to, ok);
    if !ok {
        assert(s[0] == PeerAction::Deactivate);
        let u = if t == MessageType::MsgAppend { 2int } else { 1int };
        assert(s[u] == PeerAction::ReportUnreachable(to));
        if t == MessageType::MsgSnapshot {
            assert(s[u + 1] == PeerAction::ReportSnapshot(to, SnapshotStatus::Failure));
        }
    } else {
        if t == MessageType::MsgSnapshot {
            assert(s[1] == PeerAction::ReportSnapshot(to, SnapshotStatus::Finish));
        }
    }
}

/// The pipeline's handling of a finished post of `m`, which went through when `ok`.
pub fn pipeline_outcome(m: &Message, ok: bool) -> (r: Vec<PeerAction>)
    ensures
        r@ == spec_pipeline_outcome(m.msg_type, m.to, ok),
        !ok ==> r@.contains(PeerAction::Deactivate) && r@.contains(
            PeerAction::ReportUnreachable(m.to),
        ),
        !ok ==> forall|i: int|
            0 <= i < r@.len() ==> !(#[trigger] r@[i] matches PeerAction::ReportSnapshot(
                _,
                SnapshotStatus::Finish,
            )),
        ok ==> forall|i: int|
            0 <= i < r@.len() ==> !(#[trigger] r@[i] matches PeerAction::ReportSnapshot(
                _,
                SnapshotStatus::Failure,
            )),
        !ok && m.msg_type == MessageType::MsgSnapshot ==> r@.contains(
            PeerAction::ReportSnapshot(m.to, SnapshotStatus::Failure),
        ),
        ok && m.msg_type == MessageType::MsgSnapshot ==> r@.contains(
            PeerAction::ReportSnapshot(m.to, SnapshotStatus::Finish),
        ),
{
    let mut r: Vec<PeerAction> = Vec::new();
    if !ok {
        r.push(PeerAction::Deactivate);
        if m.msg_type == MessageType::MsgAppend {
            r.push(PeerAction::RecordFail);
        }
        r.push(PeerAction::ReportUnreachable(m.to));
        if m.msg_type == MessageType::MsgSnapshot {
            r.push(PeerAction::ReportSnapshot(m.to, SnapshotStatus::Failure));
        }
    } else {
        r.push(PeerAction::Activate);
        if m.msg_type == MessageType::MsgAppend {
            r.push(PeerAction::RecordSuccess);
        }
        if m.msg_type == MessageType::MsgSnapshot {
            r.push(PeerAction::ReportSnapshot(m.to, SnapshotStatus::Finish));
        }
    }
    assert(r@ =~= spec_pipeline_outcome(m.msg_type, m.to, ok));
    proof {
        law_pipeline_reports(m.msg_type, m.to, ok);
    }
    r
}

/// What the snapshot sender does after posting a snapshot to `to`: on failure it
/// passes on a member-removed error, moves on from the URL, marks the peer inactive
/// and tells raft the peer is unreachable and the snapshot failed; on success it marks
/// the peer active and tells raft the snapshot was sent.
pub open spec fn spec_snapshot_send_outcome(to: u64, err: Option<Seq<char>>) -> Seq<PeerAction> {
    match err {
        Some(e) => (if e == "the member has been permanently removed from the cluster"@ {
            seq![PeerAction::NotifyMemberRemoved]
        } else {
            Seq::empty()
        }) + seq![
            PeerAction::PickNextUrl,
            PeerAction::Deactivate,
            PeerAction::ReportUnreachable(to),
            PeerAction::ReportSnapshot(to, SnapshotStatus::Failure),
        ],
        None => seq![PeerAction::Activate, PeerAction::ReportSnapshot(to, SnapshotStatus::Finish)],
    }
}

/// The text of the error that a peer's refusal of a post comes to.
pub open spec fn member_removed_text() -> Seq<char> {
    "the member has been permanently removed from the cluster"@
}

/// A failed snapshot send passes on the news that this member was removed exactly when
/// the error says so, word for word; any other failure only moves on from the URL,
/// marks the peer inactive and tells raft the peer is unreachable and the snapshot
/// failed. A send that went through reports the snapshot as sent and nothing failed.
pub proof fn law_snapshot_send_reports(to: u64, err: Option<Seq<char>>)
    ensures
        spec_snapshot_send_outcome(to, err).contains(PeerAction::NotifyMemberRemoved) <==> err
            == Some(member_removed_text()),
        err matches Some(e) && e != member_removed_text() ==> spec_snapshot_send_outcome(to, err)
            == seq![
            PeerAction::PickNextUrl,
            PeerAction::Deactivate,
            PeerAction::ReportUnreachable(to),
            PeerAction::ReportSnapshot(to, SnapshotStatus::Failure),
        ],
        err is Some ==> spec_snapshot_send_outcome(to, err).contains(
            PeerAction::ReportSnapshot(to, SnapshotStatus::Failure),
        ) && !spec_snapshot_send_outcome(to, err).contains(
            PeerAction::ReportSnapshot(to, SnapshotStatus::Finish),
        ),
        err is None ==> spec_snapshot_send_outcome(to, err) == seq![
            PeerAction::Activate,
            PeerAction::ReportSnapshot(to, SnapshotStatus::Finish),
        ],
{
    reveal_strlit("the member has been permanently removed from the cluster");
    let s = spec_snapshot_send_outcome(to, err);
    match err {
        Some(e) => {
            let tail = seq![
                PeerAction::PickNextUrl,
                PeerAction::Deactivate,
                PeerAction::ReportUnreachable(to),
                PeerAction::ReportSnapshot(to, SnapshotStatus::Failure),
            ];
            if e == member_removed_text() {
                assert(s[0] == PeerAction::NotifyMemberRemoved);
                assert(s[4] == PeerAction::ReportSnapshot(to, SnapshotStatus::Failure));
            } else {
                assert(s =~= tail);
                assert(s[3] == PeerAction::ReportSnapshot(to, SnapshotStatus::Failure));
            }
            assert(!s.contains(PeerAction::ReportSnapshot(to, SnapshotStatus::Finish)));
        },
        None => {
            assert(!s.contains(PeerAction::NotifyMemberRemoved));
        },
    }
}

/// The snapshot sender's handling of a finished post to `to`: `err` holds the text of
/// the error when the post failed.
pub fn snapshot_send_outcome(to: u64, err: Option<&str>) -> (r: Vec<PeerAction>)
    ensures
        r@ == spec_snapshot_send_outcome(
            to,
            match err {
                Some(e) => Some(e@),
                None => None,
            },
        ),
        r@.contains(PeerAction::NotifyMemberRemoved) <==> (err matches Some(e) && e@
            == member_removed_text()),
        err matches Some(e) && e@ != member_removed_text() ==> r@ == seq![
            PeerAction::PickNextUrl,
            PeerAction::Deactivate,
            PeerAction::ReportUnreachable(to),
            PeerAction::ReportSnapshot(to, SnapshotStatus::Failure),
        ],
        err is None ==> r@ == seq![
            PeerAction::Activate,
            PeerAction::ReportSnapshot(to, SnapshotStatus::Finish),
        ],
{
    let mut r: Vec<PeerAction> = Vec::new();
    match err {
        Some(e) => {
            proof {
                reveal_strlit("the member has been permanently removed from the cluster");
            }
            if str_eq(e, "the member has been permanently removed from the cluster") {
                r.push(PeerAction::NotifyMemberRemoved);
            }
            r.push(PeerAction::PickNextUrl);
            r.push(PeerAction::Deactivate);
            r.push(PeerAction::ReportUnreachable(to));
            r.push(PeerAction::ReportSnapshot(to, SnapshotStatus::Failure));
        },
        None => {
            r.push(PeerAction::Activate);
            r.push(PeerAction::ReportSnapshot(to, SnapshotStatus::Finish));
        },
    }
    assert(r@ =~= spec_snapshot_send_outcome(
        to,
        match err {
            Some(e) => Some(e@),
            None => None,
        },
    ));
    proof {
        law_snapshot_send_reports(
            to,
            match err {
                Some(e) => Some(e@),
                None => None,
            },
        );
    }
    r
}

/// What the pipeline does once a post to the peer is answered: nothing when the
/// request went through and the answer raised no complaint; otherwise it moves on from
/// the URL, and, when the complaint says this member was removed, passes that on.
pub open spec fn spec_pipeline_post_outcome(
    request_error: Option<Seq<char>>,
    response_error: Seq<char>,
) -> Seq<PeerAction> {
    match request_error {
        Some(_) => seq![PeerAction::PickNextUrl],
        None => if response_error.len() == 0 {
            Seq::empty()
        } else {
            seq![PeerAction::PickNextUrl] + (if occurs_in(
                "the member has been permanently removed from the cluster"@,
                response_error,
            ) {
                seq![PeerAction::NotifyMemberRemoved]
            } else {
                Seq::empty()
            })
        },
    }
}

/// The pipeline's handling of a post: `request_error` holds the text of the error when
/// the request could not be made, and `response_error` what checking the answer came
/// to (empty when the peer accepted the post).
pub fn pipeline_post_outcome(request_error: Option<&str>, response_error: &str) -> (r: Vec<
    PeerAction,
>)
    ensures
        r@ == spec_pipeline_post_outcome(
            match request_error {
                Some(e) => Some(e@),
                None => None,
            },
            response_error@,
        ),
{
    let mut r: Vec<PeerAction> = Vec::new();
    match request_error {
        Some(_) => {
            r.push(PeerAction::PickNextUrl);
        },
        None => {
            if !response_error.is_empty() {
                r.push(PeerAction::PickNextUrl);
                if contains(
                    response_error,
                    "the member has been permanently removed from the cluster",
                ) {
                    r.push(PeerAction::NotifyMemberRemoved);
                }
            }
        },
    }
    assert(r@ =~= spec_pipeline_post_outcome(
        match request_error {
            Some(e) => Some(e@),
            None => None,
        },
        response_error@,
    ));
    r
}

} // verus!
