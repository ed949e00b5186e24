use collab_core::node::{Action, AppEvent, Node};
use collab_core::protocol::{AppRequest, AppResponse, Payload};
use collab_core::wire::{decode_response, encode_response};

fn test_node() -> Node {
    Node::new("local-peer".to_string(), None, "Guest".to_string())
}

fn relay_node() -> Node {
    Node::new(
        "local-peer".to_string(),
        Some(b"/ip4/9.9.9.9/udp/4001/quic-v1/p2p/RELAY".to_vec()),
        "Guest".to_string(),
    )
}

#[test]
fn join_request_creates_one_pending_invite() {
    let mut n = test_node();
    let peer = "peer-a".to_string();
    let acts = n.handle_request(&peer, AppRequest::Join { username: "x".to_string() });
    assert_eq!(n.state.pending_invites, vec!["peer-a".to_string()]);
    assert_eq!(acts, vec![Action::Emit {
        event: AppEvent::JoinRequested { peer: "peer-a".to_string() },
    }]);

    // A second join request before the first is resolved is ignored: the
    // first invite stands alone.
    let acts = n.handle_request(&peer, AppRequest::Join { username: "y".to_string() });
    assert_eq!(n.state.pending_invites, vec!["peer-a".to_string()]);
    assert!(acts.is_empty());
}

#[test]
fn accept_settles_invite_and_reaches_initiator() {
    // Host side: accept the pending invite of peer-a with a snapshot.
    let mut host = test_node();
    let guest_id = "peer-a".to_string();
    host.handle_request(&guest_id, AppRequest::Join { username: "x".to_string() });
    let (found, acts) = host.decide_join(&guest_id, true, Some(vec![9, 9]));
    assert!(found);
    assert!(host.state.pending_invites.is_empty());
    assert_eq!(host.state.active_peers, vec!["peer-a".to_string()]);
    assert_eq!(acts.len(), 1);
    let response = match &acts[0] {
        Action::SendResponse { peer, response } => {
            assert_eq!(peer, "peer-a");
            response.clone()
        }
        other => panic!("expected a response action, got {:?}", other),
    };
    assert_eq!(response, AppResponse::Join { accepted: true, content: Some(vec![9, 9]) });

    // The decision crosses the wire unchanged.
    let carried = decode_response(&encode_response(&response)).expect("wire round trip");

    // Guest side: the accepted decision makes the host the authority and
    // surfaces the carried snapshot.
    let mut guest = test_node();
    let host_id = "host-peer".to_string();
    let acts = guest.handle_response(&host_id, carried);
    assert_eq!(guest.current_authority, Some("host-peer".to_string()));
    assert_eq!(guest.state.active_peers, vec!["host-peer".to_string()]);
    assert_eq!(acts, vec![Action::Emit { event: AppEvent::JoinAccepted { content: vec![9, 9] } }]);
}

#[test]
fn reject_settles_invite_without_membership() {
    let mut host = test_node();
    let guest_id = "peer-a".to_string();
    host.handle_request(&guest_id, AppRequest::Join { username: "x".to_string() });
    let (found, acts) = host.decide_join(&guest_id, false, Some(vec![1]));
    assert!(found);
    assert!(host.state.pending_invites.is_empty());
    assert!(host.state.active_peers.is_empty());
    // A rejection never carries content.
    assert_eq!(acts, vec![Action::SendResponse {
        peer: "peer-a".to_string(),
        response: AppResponse::Join { accepted: false, content: None },
    }]);
}

#[test]
fn decide_without_invite_reports_failure() {
    let mut host = test_node();
    let (found, acts) = host.decide_join(&"nobody".to_string(), true, Some(vec![1]));
    assert!(!found);
    assert!(acts.is_empty());
    assert!(host.state.active_peers.is_empty());
}

#[test]
fn rejected_decision_changes_nothing() {
    let mut guest = test_node();
    let acts = guest.handle_response(
        &"host-peer".to_string(),
        AppResponse::Join { accepted: false, content: None },
    );
    assert!(acts.is_empty());
    assert_eq!(guest.current_authority, None);
    assert!(guest.state.active_peers.is_empty());
}

fn sync_targets(acts: &[Action]) -> Vec<String> {
    acts.iter()
        .map(|a| match a {
            Action::SendRequest {
                peer,
                request: AppRequest::Sync { path, data },
            } => {
                assert_eq!(path, "doc.md");
                assert_eq!(data, &vec![1u8, 2]);
                peer.clone()
            }
            other => panic!("expected a sync send, got {:?}", other),
        })
        .collect()
}

#[test]
fn sync_fans_out_to_members_and_authority() {
    let mut n = test_node();
    n.state.active_peers = vec!["A".to_string(), "B".to_string()];
    n.current_authority = Some("H".to_string());
    let acts = n.handle_command(Payload::SyncData { path: "doc.md".to_string(), data: vec![1, 2] });
    assert_eq!(sync_targets(&acts), vec!["A".to_string(), "B".to_string(), "H".to_string()]);
}

#[test]
fn fanout_without_authority_reaches_members_only() {
    let mut n = test_node();
    n.state.active_peers = vec!["A".to_string(), "B".to_string()];
    let acts = n.handle_command(Payload::SyncData { path: "doc.md".to_string(), data: vec![1, 2] });
    assert_eq!(sync_targets(&acts), vec!["A".to_string(), "B".to_string()]);
}

#[test]
fn fanout_does_not_deduplicate_authority() {
    // The documented choice: an authority that is also an active member is
    // sent the message twice.
    let mut n = test_node();
    n.state.active_peers = vec!["A".to_string(), "B".to_string()];
    n.current_authority = Some("A".to_string());
    let acts = n.handle_command(Payload::SyncData { path: "doc.md".to_string(), data: vec![1, 2] });
    assert_eq!(sync_targets(&acts), vec![
        "A".to_string(),
        "B".to_string(),
        "A".to_string()
    ]);
}

#[test]
fn failure_to_authority_clears_it_and_reports_once() {
    let mut n = test_node();
    n.state.active_peers = vec!["H".to_string(), "Q".to_string()];
    n.current_authority = Some("H".to_string());
    let acts = n.handle_outbound_failure(&"H".to_string());
    assert_eq!(n.current_authority, None);
    assert_eq!(n.state.active_peers, vec!["Q".to_string()]);
    assert_eq!(acts, vec![Action::Emit {
        event: AppEvent::AuthorityLost { peer: "H".to_string() },
    }]);
}

#[test]
fn failure_to_plain_member_keeps_authority() {
    let mut n = test_node();
    n.state.active_peers = vec!["H".to_string(), "Q".to_string()];
    n.current_authority = Some("H".to_string());
    let acts = n.handle_outbound_failure(&"Q".to_string());
    assert_eq!(n.current_authority, Some("H".to_string()));
    assert_eq!(n.state.active_peers, vec!["H".to_string()]);
    assert!(acts.is_empty());
}

#[test]
fn wildcard_listen_addr_is_announced_twice() {
    let mut n = test_node();
    let acts = n.handle_new_listen_addr(
        b"/ip4/0.0.0.0/udp/4001/quic-v1".to_vec(),
        Some(b"192.168.1.7".to_vec()),
    );
    assert_eq!(n.state.local_addrs, vec![
        b"/ip4/0.0.0.0/udp/4001/quic-v1".to_vec(),
        b"/ip4/192.168.1.7/udp/4001/quic-v1".to_vec(),
    ]);
    assert_eq!(acts, vec![
        Action::Emit {
            event: AppEvent::NewListenAddr { addr: b"/ip4/0.0.0.0/udp/4001/quic-v1".to_vec() },
        },
        Action::Emit {
            event: AppEvent::NewListenAddr {
                addr: b"/ip4/192.168.1.7/udp/4001/quic-v1".to_vec(),
            },
        },
    ]);
}

#[test]
fn relay_circuit_addr_is_announced_once() {
    let mut n = test_node();
    let addr = b"/ip4/0.0.0.0/udp/1/quic-v1/p2p/R/p2p-circuit".to_vec();
    let acts = n.handle_new_listen_addr(addr.clone(), Some(b"192.168.1.7".to_vec()));
    assert_eq!(n.state.local_addrs, vec![addr.clone()]);
    assert_eq!(acts, vec![Action::Emit { event: AppEvent::NewListenAddr { addr } }]);
}

#[test]
fn unknown_lan_address_skips_second_announcement() {
    let mut n = test_node();
    let addr = b"/ip4/0.0.0.0/udp/1/quic-v1".to_vec();
    let acts = n.handle_new_listen_addr(addr.clone(), None);
    assert_eq!(n.state.local_addrs, vec![addr.clone()]);
    assert_eq!(acts, vec![Action::Emit { event: AppEvent::NewListenAddr { addr } }]);
}

#[test]
fn no_ping_without_authority() {
    let n = test_node();
    for _ in 0..5 {
        assert!(n.handle_tick().is_empty());
    }
}

#[test]
fn one_ping_per_tick_to_authority() {
    let mut n = test_node();
    n.current_authority = Some("H".to_string());
    for _ in 0..3 {
        let acts = n.handle_tick();
        assert_eq!(acts, vec![Action::SendRequest {
            peer: "H".to_string(),
            request: AppRequest::Ping,
        }]);
    }
}

#[test]
fn join_call_dials_hints_then_relay_route() {
    let mut n = relay_node();
    let acts = n.handle_command(Payload::JoinCall {
        peer_id: "peer-b".to_string(),
        remote_addrs: vec![b"/ip4/10.0.0.2/udp/4/quic-v1".to_vec()],
    });
    assert_eq!(acts.len(), 2);
    match &acts[0] {
        Action::Dial { peer, addrs } => {
            assert_eq!(peer, "peer-b");
            assert_eq!(addrs, &vec![
                b"/ip4/10.0.0.2/udp/4/quic-v1".to_vec(),
                b"/ip4/9.9.9.9/udp/4001/quic-v1/p2p/RELAY/p2p-circuit/p2p/peer-b".to_vec(),
            ]);
        }
        other => panic!("expected a dial action, got {:?}", other),
    }
    assert_eq!(acts[1], Action::SendRequest {
        peer: "peer-b".to_string(),
        request: AppRequest::Join { username: "Guest".to_string() },
    });
}

#[test]
fn join_call_without_relay_dials_hints_only() {
    let mut n = test_node();
    let acts = n.handle_command(Payload::JoinCall {
        peer_id: "peer-b".to_string(),
        remote_addrs: Vec::new(),
    });
    match &acts[0] {
        Action::Dial { peer, addrs } => {
            assert_eq!(peer, "peer-b");
            assert!(addrs.is_empty());
        }
        other => panic!("expected a dial action, got {:?}", other),
    }
}

#[test]
fn inbound_sync_is_surfaced_and_acknowledged() {
    let mut n = test_node();
    let peer = "peer-a".to_string();
    let acts = n.handle_request(&peer, AppRequest::Sync {
        path: "doc.md".to_string(),
        data: vec![3, 4],
    });
    assert_eq!(acts, vec![
        Action::Emit { event: AppEvent::Sync { path: "doc.md".to_string(), data: vec![3, 4] } },
        Action::SendResponse { peer: "peer-a".to_string(), response: AppResponse::Ack },
    ]);

    let acts = n.handle_request(&peer, AppRequest::RequestSync { path: "doc.md".to_string() });
    assert_eq!(acts, vec![
        Action::Emit { event: AppEvent::SyncRequested { path: "doc.md".to_string() } },
        Action::SendResponse { peer: "peer-a".to_string(), response: AppResponse::Ack },
    ]);

    let acts = n.handle_request(&peer, AppRequest::FileContent {
        path: "doc.md".to_string(),
        data: vec![5],
    });
    assert_eq!(acts, vec![
        Action::Emit {
            event: AppEvent::FileContent { path: "doc.md".to_string(), data: vec![5] },
        },
        Action::SendResponse { peer: "peer-a".to_string(), response: AppResponse::Ack },
    ]);

    let acts = n.handle_request(&peer, AppRequest::Ping);
    assert_eq!(acts, vec![Action::SendResponse {
        peer: "peer-a".to_string(),
        response: AppResponse::Pong,
    }]);
}

#[test]
fn startup_announces_local_id() {
    let n = test_node();
    let id = "local-peer".to_string();
    assert_eq!(n.announce_local_id(&id), vec![Action::Emit {
        event: AppEvent::LocalPeerId { id: "local-peer".to_string() },
    }]);
}

#[test]
fn direct_upgrade_is_informational() {
    let mut n = test_node();
    n.current_authority = Some("H".to_string());
    n.state.active_peers = vec!["A".to_string()];
    let acts = n.handle_direct_upgrade("A".to_string());
    assert_eq!(acts, vec![Action::Emit { event: AppEvent::DirectUpgrade { peer: "A".to_string() } }]);
    assert_eq!(n.current_authority, Some("H".to_string()));
    assert_eq!(n.state.active_peers, vec!["A".to_string()]);
}

#[test]
fn fresh_node_is_empty() {
    let n = test_node();
    assert!(n.state.pending_invites.is_empty());
    assert!(n.state.active_peers.is_empty());
    assert!(n.state.local_addrs.is_empty());
    assert_eq!(n.state.local_peer_id, Some("local-peer".to_string()));
    assert_eq!(n.current_authority, None);
}

#[test]
fn invites_are_independent_per_peer() {
    let mut host = test_node();
    let a = "peer-a".to_string();
    let b = "peer-b".to_string();
    host.handle_request(&a, AppRequest::Join { username: "x".to_string() });
    host.handle_request(&b, AppRequest::Join { username: "y".to_string() });
    assert_eq!(host.state.pending_invites, vec!["peer-a".to_string(), "peer-b".to_string()]);

    // Settling one invite leaves the other untouched.
    let (found, _) = host.decide_join(&a, true, Some(vec![1]));
    assert!(found);
    assert_eq!(host.state.pending_invites, vec!["peer-b".to_string()]);
    assert_eq!(host.state.active_peers, vec!["peer-a".to_string()]);

    // The settled invite is consumed: deciding it again fails.
    let (found, acts) = host.decide_join(&a, true, Some(vec![1]));
    assert!(!found);
    assert!(acts.is_empty());
}

#[test]
fn member_can_rejoin_after_failure() {
    let mut host = test_node();
    let a = "peer-a".to_string();
    host.handle_request(&a, AppRequest::Join { username: "x".to_string() });
    host.decide_join(&a, true, None);
    assert_eq!(host.state.active_peers, vec!["peer-a".to_string()]);

    host.handle_outbound_failure(&a);
    assert!(host.state.active_peers.is_empty());

    // After the failure the peer may ask again; a fresh invite is opened.
    let acts = host.handle_request(&a, AppRequest::Join { username: "x".to_string() });
    assert_eq!(host.state.pending_invites, vec!["peer-a".to_string()]);
    assert_eq!(acts.len(), 1);
}

#[test]
fn accepting_an_already_active_peer_keeps_one_entry() {
    let mut host = test_node();
    let a = "peer-a".to_string();
    host.handle_request(&a, AppRequest::Join { username: "x".to_string() });
    host.decide_join(&a, true, None);
    host.handle_request(&a, AppRequest::Join { username: "x".to_string() });
    host.decide_join(&a, true, None);
    assert_eq!(host.state.active_peers, vec!["peer-a".to_string()]);
}

#[test]
fn listen_addresses_accumulate_in_order() {
    let mut n = test_node();
    n.handle_new_listen_addr(b"/ip4/127.0.0.1/udp/1/quic-v1".to_vec(), None);
    n.handle_new_listen_addr(b"/ip4/0.0.0.0/udp/2/quic-v1".to_vec(), Some(b"10.1.1.1".to_vec()));
    n.handle_new_listen_addr(b"/ip4/127.0.0.1/udp/3/quic-v1".to_vec(), None);
    assert_eq!(n.state.local_addrs, vec![
        b"/ip4/127.0.0.1/udp/1/quic-v1".to_vec(),
        b"/ip4/0.0.0.0/udp/2/quic-v1".to_vec(),
        b"/ip4/10.1.1.1/udp/2/quic-v1".to_vec(),
        b"/ip4/127.0.0.1/udp/3/quic-v1".to_vec(),
    ]);
}
