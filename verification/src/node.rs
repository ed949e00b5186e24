//! Decision core of the session event loop.
//!
//! The loop that owns a `Node` waits on three wakeup sources — the
//! heartbeat timer, the command queue and inbound transport events — and
//! hands each item to the matching handler. A handler mutates the
//! membership state and returns the actions the loop must then perform:
//! dials, outbound requests and responses, and events surfaced to the
//! embedding shell. The handlers never block and never perform I/O
//! themselves.

use vstd::prelude::*;
use crate::protocol::{AppRequest, AppRequestView, AppResponse, AppResponseView, Payload,
    PayloadView};
use crate::state::{PeerState, has_id, id_at, unique_ids, insert_id, remove_id, contains_id};
use crate::bytestr::{contains_seq, replace_seq, contains_bytes, replace_bytes, copy_range};
use crate::addr::{wildcard_pat, circuit_pat, circuit_route, wildcard_pattern, circuit_pattern,
    circuit_addr};

verus! {

/// The value an optional byte payload carries.
pub open spec fn opt_bytes_view(o: Option<Vec<u8>>) -> Option<Seq<u8>> {
    match o {
        Some(b) => Some(b@),
        None => None,
    }
}

/// An occurrence surfaced to the embedding shell.
#[derive(Debug, PartialEq, Eq)]
pub enum AppEvent {
    /// The local peer identifier is known.
    LocalPeerId { id: String },
    /// The session listens on a new address.
    NewListenAddr { addr: Vec<u8> },
    /// `peer` asks to join and awaits a decision.
    JoinRequested { peer: String },
    /// The peer the local node asked to join accepted, with this snapshot.
    JoinAccepted { content: Vec<u8> },
    /// The authority stopped answering and was dropped.
    AuthorityLost { peer: String },
    /// A member sent a document update.
    Sync { path: String, data: Vec<u8> },
    /// A member asks for the full state of one path.
    SyncRequested { path: String },
    /// A member sent the full content of one file.
    FileContent { path: String, data: Vec<u8> },
    /// A relayed connection to `peer` was upgraded to a direct one.
    DirectUpgrade { peer: String },
}

/// Mathematical value of an `AppEvent`.
pub enum AppEventView {
    LocalPeerId { id: Seq<char> },
    NewListenAddr { addr: Seq<u8> },
    JoinRequested { peer: Seq<char> },
    JoinAccepted { content: Seq<u8> },
    AuthorityLost { peer: Seq<char> },
    Sync { path: Seq<char>, data: Seq<u8> },
    SyncRequested { path: Seq<char> },
    FileContent { path: Seq<char>, data: Seq<u8> },
    DirectUpgrade { peer: Seq<char> },
}

impl View for AppEvent {
    type V = AppEventView;

    open spec fn view(&self) -> AppEventView {
        match self {
            AppEvent::LocalPeerId { id } => AppEventView::LocalPeerId { id: id@ },
            AppEvent::NewListenAddr { addr } => AppEventView::NewListenAddr { addr: addr@ },
            AppEvent::JoinRequested { peer } => AppEventView::JoinRequested { peer: peer@ },
            AppEvent::JoinAccepted { content } => AppEventView::JoinAccepted {
                content: content@,
            },
            AppEvent::AuthorityLost { peer } => AppEventView::AuthorityLost { peer: peer@ },
            AppEvent::Sync { path, data } => AppEventView::Sync { path: path@, data: data@ },
            AppEvent::SyncRequested { path } => AppEventView::SyncRequested { path: path@ },
            AppEvent::FileContent { path, data } => AppEventView::FileContent {
                path: path@,
                data: data@,
            },
            AppEvent::DirectUpgrade { peer } => AppEventView::DirectUpgrade { peer: peer@ },
        }
    }
}

/// What the event loop must perform after a handler returns.
#[derive(Debug, PartialEq, Eq)]
pub enum Action {
    /// Dial `peer` at each of these addresses before talking to it.
    Dial { peer: String, addrs: Vec<Vec<u8>> },
    /// Send a request to `peer`.
    SendRequest { peer: String, request: AppRequest },
    /// Answer the pending inbound request of `peer`.
    SendResponse { peer: String, response: AppResponse },
    /// Surface an event to the embedding shell.
    Emit { event: AppEvent },
}

/// Mathematical value of an `Action`.
pub enum ActionView {
    Dial { peer: Seq<char>, addrs: Seq<Seq<u8>> },
    SendRequest { peer: Seq<char>, request: AppRequestView },
    SendResponse { peer: Seq<char>, response: AppResponseView },
    Emit { event: AppEventView },
}

impl View for Action {
    type V = ActionView;

    open spec fn view(&self) -> ActionView {
        match self {
            Action::Dial { peer, addrs } => ActionView::Dial {
                peer: peer@,
                addrs: addrs@.map_values(|a: Vec<u8>| a@),
            },
            Action::SendRequest { peer, request } => ActionView::SendRequest {
                peer: peer@,
                request: request@,
            },
            Action::SendResponse { peer, response } => ActionView::SendResponse {
                peer: peer@,
                response: response@,
            },
            Action::Emit { event } => ActionView::Emit { event: event@ },
        }
    }
}

/// The values of a list of actions.
pub open spec fn act_views(s: Seq<Action>) -> Seq<ActionView> {
    s.map_values(|a: Action| a@)
}

/// One send of `m` per active peer, in order, then one more to the
/// authority when one is set.
pub open spec fn fanout_views(
    active: Seq<String>,
    authority: Option<String>,
    m: AppRequestView,
) -> Seq<ActionView> {
    active.map_values(|p: String| ActionView::SendRequest { peer: p@, request: m }) + match
        authority {
        Some(h) => seq![ActionView::SendRequest { peer: h@, request: m }],
        None => Seq::<ActionView>::empty(),
    }
}

/// A broadcast with an authority set that is not itself an active member
/// produces one send per active peer and one to the authority — one more
/// than there are active peers, all to distinct receivers, so each receiver
/// is sent the message exactly once.
pub proof fn lemma_fanout_exactly_once(active: Seq<String>, h: String, m: AppRequestView)
    requires
        unique_ids(active),
        !has_id(active, h@),
    ensures
        ({
            let fv = fanout_views(active, Some(h), m);
            &&& fv.len() == active.len() + 1
            &&& forall|k: int|
                0 <= k < active.len() ==> fv[k] == (ActionView::SendRequest {
                    peer: id_at(active, k),
                    request: m,
                })
            &&& fv[active.len() as int] == (ActionView::SendRequest { peer: h@, request: m })
            &&& forall|i: int, j: int|
                0 <= i < j < fv.len() ==> #[trigger] fv[i] != #[trigger] fv[j]
        }),
{
    let fv = fanout_views(active, Some(h), m);
    assert forall|i: int, j: int| 0 <= i < j < fv.len() implies #[trigger] fv[i]
        != #[trigger] fv[j] by {
        if j < active.len() {
            assert(id_at(active, i) != id_at(active, j));
        } else {
            assert(fv[j] == (ActionView::SendRequest { peer: h@, request: m }));
            if id_at(active, i) == h@ {
                assert(has_id(active, h@));
            }
        }
    }
}

/// The addresses a join dials: the caller's hints, then the synthesized
/// relay route when a relay is configured.
pub open spec fn dial_addrs(hints: Seq<Seq<u8>>, relay: Option<Vec<u8>>, peer: Seq<char>) -> Seq<
    Seq<u8>,
> {
    hints + match relay {
        Some(r) => seq![circuit_route(r@, peer)],
        None => Seq::<Seq<u8>>::empty(),
    }
}

/// The identifier the authority holds, if one is set.
pub open spec fn authority_view(a: Option<String>) -> Option<Seq<char>> {
    match a {
        Some(h) => Some(h@),
        None => None,
    }
}

/// The session core: membership state plus the standing configuration.
pub struct Node {
    /// Membership and address state.
    pub state: PeerState,
    /// The peer this node joined and treats as the source of session
    /// truth; set only while acting as a joining peer.
    pub current_authority: Option<String>,
    /// The textual address of the bootstrap relay, when one is configured.
    pub relay_addr: Option<Vec<u8>>,
    /// The display name sent with outgoing join requests.
    pub username: String,
}

impl Node {
    /// The membership collections hold each peer at most once.
    pub open spec fn wf(self) -> bool {
        self.state.wf()
    }

    /// A fresh node that knows its own identifier and configuration.
    pub fn new(local_peer_id: String, relay_addr: Option<Vec<u8>>, username: String) -> (n: Node)
        ensures
            n.wf(),
            n.state.pending_invites@ == Seq::<String>::empty(),
            n.state.active_peers@ == Seq::<String>::empty(),
            n.state.local_peer_id == Some(local_peer_id),
            n.state.local_addrs@ == Seq::<Vec<u8>>::empty(),
            n.current_authority is None,
            n.relay_addr == relay_addr,
            n.username == username,
    {
        let mut state = PeerState::new();
        state.local_peer_id = Some(local_peer_id);
        Node { state, current_authority: None, relay_addr, username }
    }

    /// The single startup event: the local peer identifier.
    pub fn announce_local_id(&self, id: &String) -> (acts: Vec<Action>)
        ensures
            act_views(acts@) == seq![ActionView::Emit {
                event: AppEventView::LocalPeerId { id: id@ },
            }],
    {
        let mut acts: Vec<Action> = Vec::new();
        acts.push(Action::Emit { event: AppEvent::LocalPeerId { id: id.clone() } });
        proof {
            assert(act_views(acts@) =~= seq![ActionView::Emit {
                event: AppEventView::LocalPeerId { id: id@ },
            }]);
        }
        acts
    }

    /// One heartbeat tick: a ping goes to the authority when one is set,
    /// and to nobody otherwise.
    pub fn handle_tick(&self) -> (acts: Vec<Action>)
        ensures
            act_views(acts@) == match authority_view(self.current_authority) {
                Some(h) => seq![ActionView::SendRequest { peer: h, request: AppRequestView::Ping }],
                None => Seq::<ActionView>::empty(),
            },
    {
        let mut acts: Vec<Action> = Vec::new();
        match &self.current_authority {
            Some(h) => {
                acts.push(
                    Action::SendRequest { peer: h.clone(), request: AppRequest::Ping },
                );
                proof {
                    assert(act_views(acts@) =~= seq![ActionView::SendRequest {
                        peer: h@,
                        request: AppRequestView::Ping,
                    }]);
                }
            },
            None => {
                proof {
                    assert(act_views(acts@) =~= Seq::<ActionView>::empty());
                }
            },
        }
        acts
    }

    /// A relayed connection was upgraded to a direct one; purely
    /// informational.
    pub fn handle_direct_upgrade(&self, peer: String) -> (acts: Vec<Action>)
        ensures
            act_views(acts@) == seq![ActionView::Emit {
                event: AppEventView::DirectUpgrade { peer: peer@ },
            }],
    {
        let mut acts: Vec<Action> = Vec::new();
        acts.push(Action::Emit { event: AppEvent::DirectUpgrade { peer } });
        proof {
            assert(act_views(acts@) =~= seq![acts@[0]@]);
        }
        acts
    }

    /// An outbound request to `peer` failed: the peer leaves the active
    /// set, and when it was the authority, the authority is cleared and
    /// its loss surfaced — exactly once.
    pub fn handle_outbound_failure(&mut self, peer: &String) -> (acts: Vec<Action>)
        requires
            old(self).wf(),
        ensures
            final(self).wf(),
            final(self).state.pending_invites == old(self).state.pending_invites,
            final(self).state.local_peer_id == old(self).state.local_peer_id,
            final(self).state.local_addrs == old(self).state.local_addrs,
            final(self).relay_addr == old(self).relay_addr,
            final(self).username == old(self).username,
            !has_id(final(self).state.active_peers@, peer@),
            forall|x: Seq<char>|
                x != peer@ ==> (has_id(final(self).state.active_peers@, x) <==> has_id(
                    old(self).state.active_peers@,
                    x,
                )),
            authority_view(old(self).current_authority) == Some(peer@) ==> final(self).current_authority is None
                && act_views(acts@) == seq![ActionView::Emit {
                event: AppEventView::AuthorityLost { peer: peer@ },
            }],
            authority_view(old(self).current_authority) != Some(peer@) ==> final(self).current_authority
                == old(self).current_authority && act_views(acts@) == Seq::<ActionView>::empty(),
    {
        let mut acts: Vec<Action> = Vec::new();
        let was_authority = match &self.current_authority {
            Some(h) => h.eq(peer),
            None => false,
        };
        if was_authority {
            self.current_authority = None;
            acts.push(Action::Emit { event: AppEvent::AuthorityLost { peer: peer.clone() } });
            proof {
                assert(act_views(acts@) =~= seq![ActionView::Emit {
                    event: AppEventView::AuthorityLost { peer: peer@ },
                }]);
            }
        } else {
            proof {
                assert(act_views(acts@) =~= Seq::<ActionView>::empty());
            }
        }
        remove_id(&mut self.state.active_peers, peer);
        acts
    }

    /// Settles the pending join request of `peer`, if there is one: the
    /// invite is removed, the decision is sent back, and on acceptance the
    /// peer joins the active set and the carried snapshot travels with the
    /// decision. Without a pending invite nothing changes and the first
    /// result reports the failure to the caller.
    pub fn decide_join(&mut self, peer: &String, accept: bool, content: Option<Vec<u8>>) -> (r: (
        bool,
        Vec<Action>,
    ))
        requires
            old(self).wf(),
        ensures
            final(self).wf(),
            final(self).state.local_peer_id == old(self).state.local_peer_id,
            final(self).state.local_addrs == old(self).state.local_addrs,
            final(self).current_authority == old(self).current_authority,
            final(self).relay_addr == old(self).relay_addr,
            final(self).username == old(self).username,
            r.0 == has_id(old(self).state.pending_invites@, peer@),
            !r.0 ==> final(self).state.pending_invites == old(self).state.pending_invites
                && final(self).state.active_peers == old(self).state.active_peers && act_views(
                r.1@,
            ) == Seq::<ActionView>::empty(),
            r.0 ==> !has_id(final(self).state.pending_invites@, peer@) && (forall|x: Seq<char>|
                x != peer@ ==> (has_id(final(self).state.pending_invites@, x) <==> has_id(
                    old(self).state.pending_invites@,
                    x,
                ))) && act_views(r.1@) == seq![ActionView::SendResponse {
                peer: peer@,
                response: AppResponseView::Join {
                    accepted: accept,
                    content: if accept {
                        opt_bytes_view(content)
                    } else {
                        None
                    },
                },
            }],
            r.0 && accept ==> forall|x: Seq<char>|
                has_id(final(self).state.active_peers@, x) <==> has_id(
                    old(self).state.active_peers@,
                    x,
                ) || x == peer@,
            r.0 && !accept ==> final(self).state.active_peers == old(self).state.active_peers,
    {
        if !contains_id(&self.state.pending_invites, peer) {
            return (false, Vec::new());
        }
        remove_id(&mut self.state.pending_invites, peer);
        let response = if accept {
            insert_id(&mut self.state.active_peers, peer.clone());
            AppResponse::Join { accepted: true, content }
        } else {
            AppResponse::Join { accepted: false, content: None }
        };
        let mut acts: Vec<Action> = Vec::new();
        let ghost rv = response@;
        acts.push(Action::SendResponse { peer: peer.clone(), response });
        proof {
            assert(act_views(acts@) =~= seq![ActionView::SendResponse {
                peer: peer@,
                response: rv,
            }]);
        }
        (true, acts)
    }

    /// One send of `request` to every active peer, in order, and one more
    /// to the authority when one is set. The fan-out does not deduplicate:
    /// an authority that also sits in the active set is sent the message
    /// twice.
    pub fn fanout(&self, request: &AppRequest) -> (acts: Vec<Action>)
        ensures
            act_views(acts@) == fanout_views(
                self.state.active_peers@,
                self.current_authority,
                request@,
            ),
    {
        let mut acts: Vec<Action> = Vec::new();
        let n = self.state.active_peers.len();
        let mut i: usize = 0;
        while i < n
            invariant
                0 <= i <= n,
                n == self.state.active_peers@.len(),
                act_views(acts@) =~= self.state.active_peers@.take(i as int).map_values(
                    |p: String| ActionView::SendRequest { peer: p@, request: request@ },
                ),
            decreases n - i,
        {
            let ghost prev = acts@;
            let peer_c = self.state.active_peers[i].clone();
            let req_c = request.duplicate();
            let ghost pv = peer_c@;
            let ghost rv = req_c@;
            acts.push(Action::SendRequest { peer: peer_c, request: req_c });
            proof {
                let f = |p: String| ActionView::SendRequest { peer: p@, request: request@ };
                let active = self.state.active_peers@;
                assert(pv == active[i as int]@ && rv == request@);
                assert(act_views(prev).len() == prev.len());
                assert(act_views(prev).len() == active.take(i as int).map_values(f).len());
                assert(prev.len() == i as int);
                assert(acts@.len() == i + 1);
                assert forall|j: int| 0 <= j < acts@.len() implies act_views(acts@)[j]
                    == active.take(i as int + 1).map_values(f)[j] by {
                    if j < i as int {
                        assert(acts@[j] == prev[j]);
                        assert(act_views(prev)[j] == active.take(i as int).map_values(f)[j]);
                        assert(active.take(i as int)[j] == active[j]);
                        assert(active.take(i as int + 1)[j] == active[j]);
                    } else {
                        assert(acts@[j]@ == ActionView::SendRequest { peer: pv, request: rv });
                        assert(active.take(i as int + 1)[j] == active[j]);
                    }
                }
                assert(act_views(acts@) =~= active.take(i as int + 1).map_values(f));
            }
            i += 1;
        }
        proof {
            assert(self.state.active_peers@.take(n as int) =~= self.state.active_peers@);
        }
        match &self.current_authority {
            Some(h) => {
                acts.push(
                    Action::SendRequest { peer: h.clone(), request: request.duplicate() },
                );
            },
            None => {},
        }
        proof {
            assert(act_views(acts@) =~= fanout_views(
                self.state.active_peers@,
                self.current_authority,
                request@,
            ));
        }
        acts
    }

    /// Starts a join: dial the peer at the caller's hint addresses plus the
    /// synthesized relay route when a relay is configured, then send it a
    /// join request under this node's display name.
    pub fn initiate_join(&self, peer_id: String, remote_addrs: Vec<Vec<u8>>) -> (acts: Vec<
        Action,
    >)
        ensures
            act_views(acts@) == seq![
                ActionView::Dial {
                    peer: peer_id@,
                    addrs: dial_addrs(
                        remote_addrs@.map_values(|a: Vec<u8>| a@),
                        self.relay_addr,
                        peer_id@,
                    ),
                },
                ActionView::SendRequest {
                    peer: peer_id@,
                    request: AppRequestView::Join { username: self.username@ },
                },
            ],
    {
        let ghost hints = remote_addrs@.map_values(|a: Vec<u8>| a@);
        let mut addrs = remote_addrs;
        match &self.relay_addr {
            Some(r) => {
                addrs.push(circuit_addr(r, peer_id.as_str()));
            },
            None => {},
        }
        proof {
            assert(addrs@.map_values(|a: Vec<u8>| a@) =~= dial_addrs(
                hints,
                self.relay_addr,
                peer_id@,
            ));
        }
        let mut acts: Vec<Action> = Vec::new();
        acts.push(Action::Dial { peer: peer_id.clone(), addrs });
        acts.push(
            Action::SendRequest {
                peer: peer_id,
                request: AppRequest::Join { username: self.username.clone() },
            },
        );
        proof {
            assert(act_views(acts@) =~= seq![acts@[0]@, acts@[1]@]);
        }
        acts
    }

    /// An inbound request from `peer`. A join request stores a single
    /// pending invite and surfaces it for a decision; while one is already
    /// pending for that peer, further join requests from it are ignored and
    /// the first invite stands. Fan-out payloads are surfaced unchanged and
    /// acknowledged; a ping is answered with a pong. The display name a
    /// join carries is not forwarded.
    pub fn handle_request(&mut self, peer: &String, req: AppRequest) -> (acts: Vec<Action>)
        requires
            old(self).wf(),
        ensures
            final(self).wf(),
            final(self).state.active_peers == old(self).state.active_peers,
            final(self).state.local_peer_id == old(self).state.local_peer_id,
            final(self).state.local_addrs == old(self).state.local_addrs,
            final(self).current_authority == old(self).current_authority,
            final(self).relay_addr == old(self).relay_addr,
            final(self).username == old(self).username,
            !(req@ matches AppRequestView::Join { .. }) ==> final(self).state.pending_invites
                == old(self).state.pending_invites,
            req@ matches AppRequestView::Join { .. } ==> if has_id(
                old(self).state.pending_invites@,
                peer@,
            ) {
                final(self).state.pending_invites == old(self).state.pending_invites
                    && act_views(acts@) == Seq::<ActionView>::empty()
            } else {
                final(self).state.pending_invites@.map_values(|s: String| s@) == old(
                    self,
                ).state.pending_invites@.map_values(|s: String| s@) + seq![peer@] && act_views(
                    acts@,
                ) == seq![ActionView::Emit {
                    event: AppEventView::JoinRequested { peer: peer@ },
                }]
            },
            req@ matches AppRequestView::Sync { path, data } ==> act_views(acts@) == seq![
                ActionView::Emit { event: AppEventView::Sync { path, data } },
                ActionView::SendResponse { peer: peer@, response: AppResponseView::Ack },
            ],
            req@ matches AppRequestView::RequestSync { path } ==> act_views(acts@) == seq![
                ActionView::Emit { event: AppEventView::SyncRequested { path } },
                ActionView::SendResponse { peer: peer@, response: AppResponseView::Ack },
            ],
            req@ matches AppRequestView::FileContent { path, data } ==> act_views(acts@) == seq![
                ActionView::Emit { event: AppEventView::FileContent { path, data } },
                ActionView::SendResponse { peer: peer@, response: AppResponseView::Ack },
            ],
            req@ matches AppRequestView::Ping ==> act_views(acts@) == seq![
                ActionView::SendResponse { peer: peer@, response: AppResponseView::Pong },
            ],
    {
        let mut acts: Vec<Action> = Vec::new();
        match req {
            AppRequest::Join { username: _ } => {
                if !contains_id(&self.state.pending_invites, peer) {
                    let ghost pre = self.state.pending_invites@;
                    insert_id(&mut self.state.pending_invites, peer.clone());
                    acts.push(
                        Action::Emit { event: AppEvent::JoinRequested { peer: peer.clone() } },
                    );
                    proof {
                        assert(self.state.pending_invites@.map_values(|s: String| s@)
                            =~= pre.map_values(|s: String| s@) + seq![peer@]);
                        assert(act_views(acts@) =~= seq![ActionView::Emit {
                            event: AppEventView::JoinRequested { peer: peer@ },
                        }]);
                    }
                } else {
                    proof {
                        assert(act_views(acts@) =~= Seq::<ActionView>::empty());
                    }
                }
            },
            AppRequest::Sync { path, data } => {
                acts.push(Action::Emit { event: AppEvent::Sync { path, data } });
                acts.push(
                    Action::SendResponse { peer: peer.clone(), response: AppResponse::Ack },
                );
                proof {
                    assert(act_views(acts@) =~= seq![acts@[0]@, acts@[1]@]);
                }
            },
            AppRequest::RequestSync { path } => {
                acts.push(Action::Emit { event: AppEvent::SyncRequested { path } });
                acts.push(
                    Action::SendResponse { peer: peer.clone(), response: AppResponse::Ack },
                );
                proof {
                    assert(act_views(acts@) =~= seq![acts@[0]@, acts@[1]@]);
                }
            },
            AppRequest::FileContent { path, data } => {
                acts.push(Action::Emit { event: AppEvent::FileContent { path, data } });
                acts.push(
                    Action::SendResponse { peer: peer.clone(), response: AppResponse::Ack },
                );
                proof {
                    assert(act_views(acts@) =~= seq![acts@[0]@, acts@[1]@]);
                }
            },
            AppRequest::Ping => {
                acts.push(
                    Action::SendResponse { peer: peer.clone(), response: AppResponse::Pong },
                );
                proof {
                    assert(act_views(acts@) =~= seq![acts@[0]@]);
                }
            },
        }
        acts
    }

    /// An inbound response from `peer`. An accepted join decision makes
    /// `peer` the authority, adds it to the active set, and surfaces the
    /// carried snapshot when there is one. A rejected decision, an
    /// acknowledgement or a pong changes nothing.
    pub fn handle_response(&mut self, peer: &String, resp: AppResponse) -> (acts: Vec<Action>)
        requires
            old(self).wf(),
        ensures
            final(self).wf(),
            final(self).state.pending_invites == old(self).state.pending_invites,
            final(self).state.local_peer_id == old(self).state.local_peer_id,
            final(self).state.local_addrs == old(self).state.local_addrs,
            final(self).relay_addr == old(self).relay_addr,
            final(self).username == old(self).username,
            resp@ matches AppResponseView::Join { accepted: true, content } ==> authority_view(
                final(self).current_authority,
            ) == Some(peer@) && (forall|x: Seq<char>|
                has_id(final(self).state.active_peers@, x) <==> has_id(
                    old(self).state.active_peers@,
                    x,
                ) || x == peer@) && act_views(acts@) == match content {
                Some(c) => seq![ActionView::Emit { event: AppEventView::JoinAccepted {
                    content: c,
                } }],
                None => Seq::<ActionView>::empty(),
            },
            !(resp@ matches AppResponseView::Join { accepted: true, .. }) ==> final(self).state.active_peers
                == old(self).state.active_peers && final(self).current_authority == old(
                self,
            ).current_authority && act_views(acts@) == Seq::<ActionView>::empty(),
    {
        let mut acts: Vec<Action> = Vec::new();
        match resp {
            AppResponse::Join { accepted, content } => {
                if accepted {
                    self.current_authority = Some(peer.clone());
                    insert_id(&mut self.state.active_peers, peer.clone());
                    match content {
                        Some(c) => {
                            acts.push(
                                Action::Emit { event: AppEvent::JoinAccepted { content: c } },
                            );
                            proof {
                                assert(act_views(acts@) =~= seq![acts@[0]@]);
                            }
                        },
                        None => {
                            proof {
                                assert(act_views(acts@) =~= Seq::<ActionView>::empty());
                            }
                        },
                    }
                } else {
                    proof {
                        assert(act_views(acts@) =~= Seq::<ActionView>::empty());
                    }
                }
            },
            _ => {
                proof {
                    assert(act_views(acts@) =~= Seq::<ActionView>::empty());
                }
            },
        }
        acts
    }

    /// One command from the ingress queue. A join call dials and asks; an
    /// acceptance settles the pending invite; the three broadcast commands
    /// fan their request out to every active peer and the authority.
    pub fn handle_command(&mut self, cmd: Payload) -> (acts: Vec<Action>)
        requires
            old(self).wf(),
        ensures
            final(self).wf(),
            final(self).state.local_peer_id == old(self).state.local_peer_id,
            final(self).state.local_addrs == old(self).state.local_addrs,
            final(self).current_authority == old(self).current_authority,
            final(self).relay_addr == old(self).relay_addr,
            final(self).username == old(self).username,
            cmd@ matches PayloadView::JoinCall { peer_id, remote_addrs } ==> final(self).state
                == old(self).state && act_views(acts@) == seq![
                ActionView::Dial {
                    peer: peer_id,
                    addrs: dial_addrs(remote_addrs, old(self).relay_addr, peer_id),
                },
                ActionView::SendRequest {
                    peer: peer_id,
                    request: AppRequestView::Join { username: old(self).username@ },
                },
            ],
            cmd@ matches PayloadView::JoinAccept { peer_id, content } ==> if has_id(
                old(self).state.pending_invites@,
                peer_id,
            ) {
                !has_id(final(self).state.pending_invites@, peer_id) && (forall|x: Seq<char>|
                    x != peer_id ==> (has_id(final(self).state.pending_invites@, x) <==> has_id(
                        old(self).state.pending_invites@,
                        x,
                    ))) && (forall|x: Seq<char>|
                    has_id(final(self).state.active_peers@, x) <==> has_id(
                        old(self).state.active_peers@,
                        x,
                    ) || x == peer_id) && act_views(acts@) == seq![ActionView::SendResponse {
                    peer: peer_id,
                    response: AppResponseView::Join { accepted: true, content: Some(content) },
                }]
            } else {
                final(self).state == old(self).state && act_views(acts@)
                    == Seq::<ActionView>::empty()
            },
            cmd@ matches PayloadView::SyncData { path, data } ==> final(self).state == old(
                self,
            ).state && act_views(acts@) == fanout_views(
                old(self).state.active_peers@,
                old(self).current_authority,
                AppRequestView::Sync { path, data },
            ),
            cmd@ matches PayloadView::RequestSync { path } ==> final(self).state == old(
                self,
            ).state && act_views(acts@) == fanout_views(
                old(self).state.active_peers@,
                old(self).current_authority,
                AppRequestView::RequestSync { path },
            ),
            cmd@ matches PayloadView::FileContent { path, data } ==> final(self).state == old(
                self,
            ).state && act_views(acts@) == fanout_views(
                old(self).state.active_peers@,
                old(self).current_authority,
                AppRequestView::FileContent { path, data },
            ),
    {
        match cmd {
            Payload::JoinCall { peer_id, remote_addrs } => self.initiate_join(
                peer_id,
                remote_addrs,
            ),
            Payload::JoinAccept { peer_id, content } => {
                let (_found, acts) = self.decide_join(&peer_id, true, Some(content));
                acts
            },
            Payload::SyncData { path, data } => self.fanout(&AppRequest::Sync { path, data }),
            Payload::RequestSync { path } => self.fanout(&AppRequest::RequestSync { path }),
            Payload::FileContent { path, data } => self.fanout(
                &AppRequest::FileContent { path, data },
            ),
        }
    }

    /// A new local listen address appeared: record and surface it; when it
    /// is a wildcard bind outside a relayed circuit and the outward LAN
    /// address is known, also record and surface the rewritten variant.
    /// An unknown LAN address only skips that second announcement.
    pub fn handle_new_listen_addr(&mut self, addr: Vec<u8>, lan_ip: Option<Vec<u8>>) -> (acts:
        Vec<Action>)
        requires
            old(self).wf(),
        ensures
            final(self).wf(),
            final(self).state.pending_invites == old(self).state.pending_invites,
            final(self).state.active_peers == old(self).state.active_peers,
            final(self).state.local_peer_id == old(self).state.local_peer_id,
            final(self).current_authority == old(self).current_authority,
            final(self).relay_addr == old(self).relay_addr,
            final(self).username == old(self).username,
            ({
                let addrs = old(self).state.local_addrs@.map_values(|a: Vec<u8>| a@);
                let addrs2 = final(self).state.local_addrs@.map_values(|a: Vec<u8>| a@);
                if contains_seq(addr@, wildcard_pat()) && !contains_seq(addr@, circuit_pat())
                    && lan_ip is Some {
                    let fixed = replace_seq(addr@, wildcard_pat(), lan_ip->0@);
                    addrs2 == addrs + seq![addr@, fixed] && act_views(acts@) == seq![
                        ActionView::Emit { event: AppEventView::NewListenAddr { addr: addr@ } },
                        ActionView::Emit { event: AppEventView::NewListenAddr { addr: fixed } },
                    ]
                } else {
                    addrs2 == addrs + seq![addr@] && act_views(acts@) == seq![ActionView::Emit {
                        event: AppEventView::NewListenAddr { addr: addr@ },
                    }]
                }
            }),
    {
        let ghost pre_addrs = self.state.local_addrs@.map_values(|a: Vec<u8>| a@);
        let ghost a = addr@;
        let mut acts: Vec<Action> = Vec::new();
        let wildcard = wildcard_pattern();
        let circuit = circuit_pattern();
        let rewrite = contains_bytes(&addr, &wildcard) && !contains_bytes(&addr, &circuit);
        let fixed_opt: Option<Vec<u8>> = if rewrite {
            match &lan_ip {
                Some(ip) => Some(replace_bytes(&addr, &wildcard, ip)),
                None => None,
            }
        } else {
            None
        };
        let announced = copy_range(&addr, 0, addr.len());
        proof {
            assert(announced@ =~= a);
        }
        self.state.local_addrs.push(announced);
        acts.push(Action::Emit { event: AppEvent::NewListenAddr { addr } });
        proof {
            assert(self.state.local_addrs@.map_values(|x: Vec<u8>| x@) =~= pre_addrs + seq![a]);
        }
        match fixed_opt {
            Some(fixed) => {
                let ghost f = fixed@;
                let announced_fixed = copy_range(&fixed, 0, fixed.len());
                proof {
                    assert(announced_fixed@ =~= f);
                }
                self.state.local_addrs.push(announced_fixed);
                acts.push(Action::Emit { event: AppEvent::NewListenAddr { addr: fixed } });
                proof {
                    assert(self.state.local_addrs@.map_values(|x: Vec<u8>| x@) =~= pre_addrs
                        + seq![a, f]);
                    assert(act_views(acts@) =~= seq![
                        ActionView::Emit { event: AppEventView::NewListenAddr { addr: a } },
                        ActionView::Emit { event: AppEventView::NewListenAddr { addr: f } },
                    ]);
                }
            },
            None => {
                proof {
                    assert(act_views(acts@) =~= seq![ActionView::Emit {
                        event: AppEventView::NewListenAddr { addr: a },
                    }]);
                }
            },
        }
        acts
    }
}

} // verus!
