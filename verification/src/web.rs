//! Decisions of the web front end: where its pages are served from and how
//! its websocket answers frames.
use vstd::prelude::*;
use crate::paths::{join_path, spec_join};

verus! {

/// The directory the pages are served from: `app` in the working directory.
pub fn site_dir(cwd: &str) -> (dir: String)
    ensures
        dir@ == spec_join(cwd@, "app"@),
{
    join_path(cwd, "app")
}

/// A frame received on the websocket.
#[derive(Debug, Clone, PartialEq, Eq)]
pub enum WsFrame {
    Ping(Vec<u8>),
    Text(String),
    Binary(Vec<u8>),
    /// Any other frame, or a protocol error.
    Other,
}

/// A frame sent back on the websocket.
#[derive(Debug, Clone, PartialEq, Eq)]
pub enum WsReply {
    Pong(Vec<u8>),
    Text(String),
    Binary(Vec<u8>),
}

/// The websocket session: it echoes what it receives.
pub struct WebSocket;

impl WebSocket {
    /// The answer to a frame: a pong with the ping's payload, the same text,
    /// the same binary data, or nothing for any other frame.
    pub fn handle(&mut self, msg: WsFrame) -> (r: Option<WsReply>)
        ensures
            match msg {
                WsFrame::Ping(p) => r matches Some(WsReply::Pong(q)) && q@ == p@,
                WsFrame::Text(t) => r matches Some(WsReply::Text(u)) && u@ == t@,
                WsFrame::Binary(b) => r matches Some(WsReply::Binary(c)) && c@ == b@,
                WsFrame::Other => r is None,
            },
    {
        match msg {
            WsFrame::Ping(p) => Some(WsReply::Pong(p)),
            WsFrame::Text(t) => Some(WsReply::Text(t)),
            WsFrame::Binary(b) => Some(WsReply::Binary(b)),
            WsFrame::Other => None,
        }
    }
}

} // verus!
