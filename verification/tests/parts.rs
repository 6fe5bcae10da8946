use std::collections::HashSet;

use lobby_server::lobby::{
    Attempt, CloseLobby, Handling, Lobby, LobbyErr, LobbyWorkItem, Peer, WorkItemErr, WorkItemOk,
};
use lobby_server::message::{
    Frame, InitialMessage, LobbyMessage, Outgoing, RelayMessage, RelayMessageKind,
};
use lobby_server::server::{
    Admission, CleanupWorkItem, Drawing, HandshakeErr, Lobbies, NewPeer, Progress, State,
};
use lobby_server::wire::encode;

fn text(message: LobbyMessage) -> String {
    encode(&message)
}

#[test]
fn messages_have_their_texts() {
    assert_eq!(
        text(LobbyMessage::Id {
            assigned: 1,
            mesh: false
        }),
        "{\"payload\":{\"Id\":{\"assigned\":1,\"mesh\":false}}}"
    );
    assert_eq!(
        text(LobbyMessage::Id {
            assigned: 4294967295,
            mesh: true
        }),
        "{\"payload\":{\"Id\":{\"assigned\":4294967295,\"mesh\":true}}}"
    );
    assert_eq!(
        text(LobbyMessage::CreatedLobby {
            name: "abc".to_string()
        }),
        "{\"payload\":{\"CreatedLobby\":{\"name\":\"abc\"}}}"
    );
    assert_eq!(
        text(LobbyMessage::JoinedLobby),
        "{\"payload\":\"JoinedLobby\"}"
    );
    assert_eq!(
        text(LobbyMessage::PeerConnect { peer_id: 20 }),
        "{\"payload\":{\"PeerConnect\":{\"peer_id\":20}}}"
    );
    assert_eq!(
        text(LobbyMessage::PeerDisconnect { peer_id: 0 }),
        "{\"payload\":{\"PeerDisconnect\":{\"peer_id\":0}}}"
    );
    assert_eq!(text(LobbyMessage::Seal), "{\"payload\":\"Seal\"}");
    assert_eq!(
        text(LobbyMessage::RelayedMessage {
            kind: RelayMessageKind::Offer,
            data: "x".to_string(),
            peer_id: 2
        }),
        "{\"payload\":{\"RelayedMessage\":{\"kind\":\"Offer\",\"data\":\"x\",\"peer_id\":2}}}"
    );
}

#[test]
fn strings_are_escaped() {
    assert_eq!(
        text(LobbyMessage::CreatedLobby {
            name: "\"\\\u{8}\t\n\u{c}\r\u{0}\u{1f}\u{7f}/\u{e9}\u{1f600}".to_string()
        }),
        "{\"payload\":{\"CreatedLobby\":{\"name\":\"\\\"\\\\\\b\\t\\n\\f\\r\\u0000\\u001f\u{7f}/\u{e9}\u{1f600}\"}}}"
    );
}

#[test]
fn texts_are_read_back() {
    let data = "a \"quoted\" line\r\n\u{1}".to_string();
    for kind in [
        RelayMessageKind::Offer,
        RelayMessageKind::Answer,
        RelayMessageKind::Candidate,
    ] {
        let written = text(LobbyMessage::RelayedMessage {
            kind,
            data: data.clone(),
            peer_id: 7,
        });
        let read = serde_json::from_str::<serde_json::Value>(&written).expect("should be JSON");
        let content = &read["payload"]["RelayedMessage"];
        assert_eq!(content["kind"].as_str(), Some(kind.name()));
        assert_eq!(content["data"].as_str(), Some(data.as_str()));
        assert_eq!(content["peer_id"].as_u64(), Some(7));
    }
}

#[test]
fn different_messages_have_different_texts() {
    let texts: HashSet<String> = vec![
        text(LobbyMessage::PeerConnect { peer_id: 1 }),
        text(LobbyMessage::PeerConnect { peer_id: 11 }),
        text(LobbyMessage::PeerDisconnect { peer_id: 1 }),
        text(LobbyMessage::Id {
            assigned: 1,
            mesh: true,
        }),
        text(LobbyMessage::Id {
            assigned: 1,
            mesh: false,
        }),
        text(LobbyMessage::CreatedLobby {
            name: "\n".to_string(),
        }),
        text(LobbyMessage::CreatedLobby {
            name: "\\n".to_string(),
        }),
        text(LobbyMessage::JoinedLobby),
        text(LobbyMessage::Seal),
    ]
    .into_iter()
    .collect();
    assert_eq!(texts.len(), 9);
}

#[test]
fn lobbies_are_made_of_peers() {
    let mut lobby = Lobby::new("name".to_string(), true);
    assert_eq!(lobby.name(), "name");
    assert!(lobby.mesh());
    assert_eq!(lobby.next_id(), 2);
    assert!(lobby.members().is_empty());
    assert_eq!(Lobby::get_peer_id(&Peer::new(5)), 5);

    let (id, sends) = lobby.join(true);
    assert_eq!(id, 1);
    assert_eq!(
        sends.into_iter().collect::<Vec<_>>(),
        vec![Outgoing {
            to: 1,
            message: LobbyMessage::Id {
                assigned: 1,
                mesh: true
            }
        }]
    );
    assert_eq!(lobby.next_id(), 2);
    assert!(lobby.members().is_empty());
    assert_eq!(lobby.finish_join(1, Ok(())), Ok(1));
    assert_eq!(lobby.members(), vec![1]);

    let (id, sends) = lobby.join(false);
    assert_eq!(id, 2);
    assert_eq!(sends.len(), 3);
    assert_eq!(
        lobby.finish_join(2, Err("closed".to_string())),
        Err(LobbyErr::SendFailed("closed".to_string()))
    );
    assert_eq!(lobby.members(), vec![1]);

    let (id, _) = lobby.join(false);
    assert_eq!(id, 3);
    assert_eq!(lobby.finish_join(3, Ok(())), Ok(3));
    assert_eq!(lobby.members(), vec![1, 3]);

    assert_eq!(lobby.leave(2), Err(LobbyErr::NotAMember(2)));
    let (close, sends) = lobby.leave(3).expect("should be a member");
    assert_eq!(close, None);
    assert_eq!(
        sends.into_iter().collect::<Vec<_>>(),
        vec![Outgoing {
            to: 1,
            message: LobbyMessage::PeerDisconnect { peer_id: 3 }
        }]
    );
    let (close, sends) = lobby.leave(1).expect("should be a member");
    assert_eq!(close, Some(CloseLobby));
    assert!(sends.is_empty());
    assert!(lobby.members().is_empty());
}

#[test]
fn work_items_are_handled() {
    let mut lobby = Lobby::new("name".to_string(), false);
    lobby.join(true);
    lobby.finish_join(1, Ok(())).expect("should join");

    match lobby.handle_work_item(LobbyWorkItem::NewPeer) {
        Handling::Join { id, sends } => {
            assert_eq!(id, 2);
            assert_eq!(sends.len(), 3);
        }
        other => panic!("unexpected {:?}", other),
    }
    assert_eq!(
        lobby.handle_work_item(LobbyWorkItem::PeerMessage(
            1,
            Some(Ok(Frame::Text("t".to_string())))
        )),
        Handling::Parse {
            from: 1,
            text: "t".to_string()
        }
    );
    assert_eq!(
        lobby.handle_work_item(LobbyWorkItem::PeerMessage(1, None)),
        Handling::Done(Err(WorkItemErr::FatalForLobby(LobbyErr::HostHungUp)))
    );
    assert_eq!(
        lobby.handle_work_item(LobbyWorkItem::PeerMessage(2, None)),
        Handling::Done(Err(WorkItemErr::FatalForPeer(2, LobbyErr::PeerHungUp)))
    );
    assert_eq!(
        lobby.handle_work_item(LobbyWorkItem::PeerMessage(1, Some(Ok(Frame::Binary)))),
        Handling::Done(Err(WorkItemErr::FatalForPeer(1, LobbyErr::BinaryFrame)))
    );
    assert_eq!(
        lobby.handle_work_item(LobbyWorkItem::PeerMessage(2, Some(Ok(Frame::Close)))),
        Handling::Done(Ok(WorkItemOk::Noop))
    );
    let message = RelayMessage {
        kind: RelayMessageKind::Answer,
        dest_id: 2,
        data: String::new(),
    };
    assert_eq!(
        lobby.handle_parsed(1, Ok(message)),
        Handling::Done(Err(WorkItemErr::NonFatal(Attempt::Relay, LobbyErr::NoSuchPeer(2))))
    );
    let message = RelayMessage {
        kind: RelayMessageKind::Answer,
        dest_id: 1,
        data: "d".to_string(),
    };
    assert_eq!(
        lobby.handle_parsed(2, Ok(message)),
        Handling::Relay(Outgoing {
            to: 1,
            message: LobbyMessage::RelayedMessage {
                kind: RelayMessageKind::Answer,
                data: "d".to_string(),
                peer_id: 2
            }
        })
    );
}

#[test]
fn names_are_random_letters_and_digits() {
    let mut names = HashSet::new();
    for _ in 0..100 {
        let name = Lobby::new_name();
        assert_eq!(name.len(), 16);
        assert!(name.chars().all(|c| c.is_ascii_alphanumeric()));
        names.insert(name);
    }
    assert_eq!(names.len(), 100);
}

#[test]
fn lobbies_are_found_until_they_are_deleted() {
    let mut lobbies = Lobbies::new();
    assert!(lobbies.is_empty());
    assert!(lobbies.create_lobby("a".to_string(), 1));
    assert!(!lobbies.create_lobby("a".to_string(), 2));
    assert!(lobbies.create_lobby("b".to_string(), 2));
    assert!(!lobbies.is_empty());
    assert_eq!(lobbies.handle_join_lobby("a".to_string()), Ok(1));
    assert_eq!(lobbies.handle_join_lobby("b".to_string()), Ok(2));
    assert_eq!(
        lobbies.handle_join_lobby("c".to_string()),
        Err(HandshakeErr::NoSuchLobby("c".to_string()))
    );
    let delete = CleanupWorkItem::DeleteLobby("a".to_string());
    assert_eq!(lobbies.handle_cleanup(delete), Some(1));
    let delete = CleanupWorkItem::DeleteLobby("a".to_string());
    assert_eq!(lobbies.handle_cleanup(delete), None);
    assert_eq!(
        lobbies.handle_join_lobby("a".to_string()),
        Err(HandshakeErr::NoSuchLobby("a".to_string()))
    );
    assert_eq!(lobbies.handle_join_lobby("b".to_string()), Ok(2));
    match lobbies.handle_create_lobby(3, 4) {
        Drawing::Found(name) => {
            assert_eq!(name.len(), 16);
            assert_eq!(lobbies.handle_join_lobby(name), Ok(3));
        }
        Drawing::DrawOn => panic!("should find a name"),
    }
    assert_eq!(lobbies.handle_create_lobby(4, 0), Drawing::DrawOn);
}

#[test]
fn connections_get_ids_of_their_own() {
    let mut state = State::new();
    assert!(state.claim_peer(7));
    assert!(!state.claim_peer(7));
    let mut ids = HashSet::new();
    for _ in 0..1000 {
        let id = match state.allocate_peer(16) {
            Drawing::Found(id) => id,
            Drawing::DrawOn => panic!("should find an id"),
        };
        assert_ne!(id, 7);
        assert!(!state.claim_peer(id));
        ids.insert(id);
    }
    assert_eq!(ids.len(), 1000);
}

#[test]
fn the_first_free_draw_counts() {
    let mut state = State::new();
    assert!(state.claim_peer(7));
    assert!(state.claim_peer(8));
    assert_eq!(state.claim_first(&vec![]), Drawing::DrawOn);
    assert_eq!(state.claim_first(&vec![7, 8, 7]), Drawing::DrawOn);
    assert_eq!(state.claim_first(&vec![7, 9, 10]), Drawing::Found(9));
    assert_eq!(state.claim_first(&vec![7, 9, 10]), Drawing::Found(10));
    assert_eq!(state.claim_first(&vec![7, 9, 10]), Drawing::DrawOn);

    let names = vec!["a".to_string(), "b".to_string()];
    let mut lobbies = Lobbies::new();
    assert_eq!(
        lobbies.create_first(&names, 1),
        Drawing::Found("a".to_string())
    );
    assert_eq!(
        lobbies.create_first(&names, 2),
        Drawing::Found("b".to_string())
    );
    assert_eq!(lobbies.create_first(&names, 3), Drawing::DrawOn);
    assert_eq!(lobbies.handle_join_lobby("a".to_string()), Ok(1));
    assert_eq!(lobbies.handle_join_lobby("b".to_string()), Ok(2));
}

#[test]
fn drawing_on_changes_nothing() {
    // The same draws in one series and in two.
    let mut whole = State::new();
    let mut parts = State::new();
    whole.claim_peer(1);
    parts.claim_peer(1);
    assert_eq!(whole.claim_first(&vec![1, 1, 2, 3]), Drawing::Found(2));
    assert_eq!(parts.claim_first(&vec![1, 1]), Drawing::DrawOn);
    assert_eq!(parts.claim_first(&vec![2, 3]), Drawing::Found(2));
}

#[test]
fn connections_are_taken_in() {
    let mut state = State::new();
    assert_eq!(
        state.handle_websocket(Err("no JSON".to_string()), 1),
        Err(HandshakeErr::NotAnInitialMessage("no JSON".to_string()))
    );
    assert_eq!(
        state.handle_websocket(
            Ok(InitialMessage::Join {
                name: "nowhere".to_string()
            }),
            1
        ),
        Err(HandshakeErr::NoSuchLobby("nowhere".to_string()))
    );
    assert!(state.lobbies().is_empty());
    // Without draws a connection does not come any further.
    let unidentified = state.handle_websocket(Ok(InitialMessage::Create { mesh: true }), 0);
    assert_eq!(
        unidentified,
        Ok(Progress::Unidentified(InitialMessage::Create { mesh: true }))
    );
    let peer = match state.go_on(unidentified.expect("should go on"), 16) {
        Ok(Progress::Unnamed { peer, mesh }) => {
            assert!(mesh);
            peer
        }
        other => panic!("unexpected {:?}", other),
    };
    assert!(!state.claim_peer(peer.id));
    let unnamed = Progress::Unnamed { peer, mesh: true };
    let unnamed = state.go_on(unnamed, 0).expect("should go on");
    assert_eq!(unnamed, Progress::Unnamed { peer, mesh: true });
    assert!(state.lobbies().is_empty());
    match state.go_on(unnamed, 1) {
        Ok(Progress::Admitted(Admission::Created {
            peer: host,
            name,
            mesh,
        })) => {
            assert!(mesh);
            assert_eq!(host, peer);
            assert_eq!(state.lobbies().handle_join_lobby(name), Ok(peer.id));
        }
        other => panic!("unexpected {:?}", other),
    }
    assert_eq!(
        state.identified(InitialMessage::Create { mesh: false }, NewPeer { id: 3 }),
        Ok(Progress::Unnamed {
            peer: NewPeer { id: 3 },
            mesh: false
        })
    );
}

#[test]
fn errors_have_their_texts() {
    let text = |err: LobbyErr| err.text("L");
    assert_eq!(text(LobbyErr::HostHungUp), "host hung up");
    assert_eq!(text(LobbyErr::PeerHungUp), "peer hung up");
    assert_eq!(
        text(LobbyErr::NotAMember(7)),
        "peer 7 tried to leave lobby L without being in it"
    );
    assert_eq!(
        text(LobbyErr::NoSuchPeer(4294967295)),
        "no such peer 4294967295 to relay to"
    );
    assert_eq!(
        text(LobbyErr::NoSuchPeer(1023456789)),
        "no such peer 1023456789 to relay to"
    );
    assert_eq!(
        text(LobbyErr::SendFailed("closed".to_string())),
        "error sending message"
    );
    assert_eq!(
        text(LobbyErr::ReceiveFailed("reset".to_string())),
        "error receiving message: reset"
    );
    assert_eq!(
        text(LobbyErr::NotARelayMessage("no JSON".to_string())),
        "failed to parse as RelayMessage"
    );
    assert_eq!(
        text(LobbyErr::BinaryFrame),
        "should never get binary websocket message"
    );
    assert_eq!(
        LobbyErr::SendFailed("closed".to_string()).cause(),
        Some("closed".to_string())
    );
    assert_eq!(LobbyErr::HostHungUp.cause(), None);

    assert_eq!(Attempt::Join.text(), "failed to join new peer to lobby");
    assert_eq!(Attempt::Relay.text(), "failed to relay message");
    assert_eq!(
        Attempt::Leave.text(),
        "failed to leave lobby with errored peer"
    );
    assert_eq!(
        WorkItemErr::NonFatal(Attempt::Relay, LobbyErr::NoSuchPeer(9)).text("L"),
        "failed to relay message"
    );
    assert_eq!(
        WorkItemErr::FatalForPeer(2, LobbyErr::PeerHungUp).text("L"),
        "peer hung up"
    );
    assert_eq!(
        WorkItemErr::FatalForLobby(LobbyErr::HostHungUp).text("L"),
        "host hung up"
    );

    assert_eq!(
        HandshakeErr::NoSuchLobby("nope".to_string()).text(),
        "no such lobby nope"
    );
    assert_eq!(HandshakeErr::TextExpected.text(), "expecting text message");
    let err = HandshakeErr::ReceiveFailed("reset".to_string());
    assert_eq!(err.text(), "error receiving initial message");
    assert_eq!(err.cause(), Some("reset".to_string()));
    let err = HandshakeErr::NotAnInitialMessage("no JSON".to_string());
    assert_eq!(err.text(), "failed to parse initial message");
    assert_eq!(err.cause(), Some("no JSON".to_string()));
    assert_eq!(HandshakeErr::TextExpected.cause(), None);
}
