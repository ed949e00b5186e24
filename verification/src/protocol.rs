//! Messages exchanged between collaborating peers.
//!
//! A `Payload` is a command handed to the session core by the embedding
//! shell; an `AppRequest` / `AppResponse` pair travels on the wire between
//! two peers. Payload bytes are opaque to this layer: they may hold a full
//! project snapshot or an incremental update, and only the excluded
//! conflict-resolution layer interprets them.

use vstd::prelude::*;

verus! {

/// One file of a project snapshot: its path relative to the project root
/// and its full content.
#[derive(Clone, Debug, PartialEq, Eq)]
pub struct FileSyncEntry {
    pub path: String,
    pub content: Vec<u8>,
}

/// Mathematical value of a `FileSyncEntry`.
pub struct FileSyncEntryView {
    pub path: Seq<char>,
    pub content: Seq<u8>,
}

impl View for FileSyncEntry {
    type V = FileSyncEntryView;

    open spec fn view(&self) -> FileSyncEntryView {
        FileSyncEntryView { path: self.path@, content: self.content@ }
    }
}

/// A request sent to another peer.
#[derive(Clone, Debug, PartialEq, Eq)]
pub enum AppRequest {
    /// Ask to join the session the receiver hosts.
    Join { username: String },
    /// Fan out an opaque document update.
    Sync { path: String, data: Vec<u8> },
    /// Fan out the full content of one file.
    FileContent { path: String, data: Vec<u8> },
    /// Ask every member to send its full state for `path`.
    RequestSync { path: String },
    /// Heartbeat to the current authority.
    Ping,
}

/// Mathematical value of an `AppRequest`.
pub enum AppRequestView {
    Join { username: Seq<char> },
    Sync { path: Seq<char>, data: Seq<u8> },
    FileContent { path: Seq<char>, data: Seq<u8> },
    RequestSync { path: Seq<char> },
    Ping,
}

impl AppRequest {
    /// A copy with the same value; fan-out sends one per receiver.
    pub fn duplicate(&self) -> (r: AppRequest)
        ensures
            r@ == self@,
    {
        match self {
            AppRequest::Join { username } => AppRequest::Join { username: username.clone() },
            AppRequest::Sync { path, data } => {
                let d = crate::bytestr::copy_range(data, 0, data.len());
                proof {
                    assert(d@ =~= data@);
                }
                AppRequest::Sync { path: path.clone(), data: d }
            },
            AppRequest::FileContent { path, data } => {
                let d = crate::bytestr::copy_range(data, 0, data.len());
                proof {
                    assert(d@ =~= data@);
                }
                AppRequest::FileContent { path: path.clone(), data: d }
            },
            AppRequest::RequestSync { path } => AppRequest::RequestSync { path: path.clone() },
            AppRequest::Ping => AppRequest::Ping,
        }
    }
}

impl View for AppRequest {
    type V = AppRequestView;

    open spec fn view(&self) -> AppRequestView {
        match self {
            AppRequest::Join { username } => AppRequestView::Join { username: username@ },
            AppRequest::Sync { path, data } => AppRequestView::Sync { path: path@, data: data@ },
            AppRequest::FileContent { path, data } => AppRequestView::FileContent {
                path: path@,
                data: data@,
            },
            AppRequest::RequestSync { path } => AppRequestView::RequestSync { path: path@ },
            AppRequest::Ping => AppRequestView::Ping,
        }
    }
}

/// A reply to an `AppRequest`.
#[derive(Clone, Debug, PartialEq, Eq)]
pub enum AppResponse {
    /// The decision on a join request; `content` is carried only on accept.
    Join { accepted: bool, content: Option<Vec<u8>> },
    /// Acknowledges a fan-out request.
    Ack,
    /// Answers a heartbeat.
    Pong,
}

/// Mathematical value of an `AppResponse`.
pub enum AppResponseView {
    Join { accepted: bool, content: Option<Seq<u8>> },
    Ack,
    Pong,
}

impl View for AppResponse {
    type V = AppResponseView;

    open spec fn view(&self) -> AppResponseView {
        match self {
            AppResponse::Join { accepted, content } => AppResponseView::Join {
                accepted: *accepted,
                content: match content {
                    Some(c) => Some(c@),
                    None => None,
                },
            },
            AppResponse::Ack => AppResponseView::Ack,
            AppResponse::Pong => AppResponseView::Pong,
        }
    }
}

/// A command handed to the session core by the embedding shell.
#[derive(Clone, Debug, PartialEq, Eq)]
pub enum Payload {
    /// Join the session hosted by `peer_id`, trying `remote_addrs` first.
    JoinCall { peer_id: String, remote_addrs: Vec<Vec<u8>> },
    /// Accept the pending join request of `peer_id`, handing it `content`.
    JoinAccept { peer_id: String, content: Vec<u8> },
    /// Broadcast an opaque document update.
    SyncData { path: String, data: Vec<u8> },
    /// Broadcast the full content of one file.
    FileContent { path: String, data: Vec<u8> },
    /// Ask every member for its full state of `path`.
    RequestSync { path: String },
}

/// Mathematical value of a `Payload`.
pub enum PayloadView {
    JoinCall { peer_id: Seq<char>, remote_addrs: Seq<Seq<u8>> },
    JoinAccept { peer_id: Seq<char>, content: Seq<u8> },
    SyncData { path: Seq<char>, data: Seq<u8> },
    FileContent { path: Seq<char>, data: Seq<u8> },
    RequestSync { path: Seq<char> },
}

impl View for Payload {
    type V = PayloadView;

    open spec fn view(&self) -> PayloadView {
        match self {
            Payload::JoinCall { peer_id, remote_addrs } => PayloadView::JoinCall {
                peer_id: peer_id@,
                remote_addrs: remote_addrs@.map_values(|a: Vec<u8>| a@),
            },
            Payload::JoinAccept { peer_id, content } => PayloadView::JoinAccept {
                peer_id: peer_id@,
                content: content@,
            },
            Payload::SyncData { path, data } => PayloadView::SyncData {
                path: path@,
                data: data@,
            },
            Payload::FileContent { path, data } => PayloadView::FileContent {
                path: path@,
                data: data@,
            },
            Payload::RequestSync { path } => PayloadView::RequestSync { path: path@ },
        }
    }
}

} // verus!
