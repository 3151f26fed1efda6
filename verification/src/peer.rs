use vstd::prelude::*;
use crate::raftpb::{Message, MessageType};

verus! {

/// The names of the channels that carry messages to a peer.
pub const PIPELINE_MSG: &'static str = "pipeline";

pub const SEND_SNAP: &'static str = "sendMsgSnap";

pub const STREAM_MSG: &'static str = "streamMsg";

pub const STREAM_APP_V2: &'static str = "streamMsgAppV2";

/// Whether the message appends log entries.
pub fn is_msg_app(m: &Message) -> (r: bool)
    ensures
        r == (m.msg_type == MessageType::MsgAppend),
{
    m.msg_type == MessageType::MsgAppend
}

/// Whether the message carries a snapshot.
pub fn is_msg_snap(m: &Message) -> (r: bool)
    ensures
        r == (m.msg_type == MessageType::MsgSnapshot),
{
    m.msg_type == MessageType::MsgSnapshot
}

} // verus!
