pub mod error;
pub mod reader;
pub mod queue;
pub mod snapfile;
pub mod text;
pub mod order;
pub mod id;
pub mod urls;
pub mod url_pick;
pub mod net_util;
pub mod raftpb;
pub mod peer;
pub mod node;
pub mod pipeline;
pub mod peer_status;
pub mod stats;
pub mod sockopt;
pub mod status;
pub mod read_dir;
pub mod cipher_suites;
pub mod listener;
pub mod server_state;
pub mod fileutil;
pub mod certs;
