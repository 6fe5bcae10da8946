use lobby_server::lobby::{Attempt, LobbyErr, LobbyWorkItem};
use lobby_server::message::{
    Frame, InitialMessage, LobbyMessage, Outgoing, RelayMessage, RelayMessageKind,
};
use lobby_server::server::{
    opening, Admission, CleanupWorkItem, HandshakeErr, Opening, Progress, State,
};
use lobby_server::task::{Effect, Event, Exit, LobbyTask, Next, Step};
use lobby_server::wire::encode;
use serde_json::Value;

fn object(members: Vec<(&str, Value)>) -> Value {
    let mut map = serde_json::Map::new();
    for (key, value) in members {
        map.insert(key.to_string(), value);
    }
    Value::Object(map)
}

fn payload(name: &str, content: Value) -> Value {
    object(vec![("payload", object(vec![(name, content)]))])
}

/// Reports successful sends until something else is asked for. Returns what was sent, and the
/// effects on the way.
fn deliver(task: &mut LobbyTask, mut step: Step) -> (Vec<Outgoing>, Vec<Effect>, Next) {
    let mut sent = Vec::new();
    let mut effects = Vec::new();
    loop {
        effects.push(step.effect);
        match step.next {
            Next::Send(outgoing) => {
                sent.push(outgoing);
                let event = Event::Sent(Ok(()));
                assert!(task.accepts(&event));
                step = task.step(event);
            }
            next => return (sent, effects, next),
        }
    }
}

fn report(task: &mut LobbyTask, event: Event) -> (Vec<Outgoing>, Vec<Effect>, Next) {
    assert!(task.accepts(&event));
    let step = task.step(event);
    deliver(task, step)
}

/// Takes a connection in, however many draws that takes.
fn take_in(
    state: &mut State,
    parsed: Result<InitialMessage, String>,
) -> Result<Admission, HandshakeErr> {
    let mut progress = state.handle_websocket(parsed, 1)?;
    loop {
        match progress {
            Progress::Admitted(admission) => return Ok(admission),
            unfinished => progress = state.go_on(unfinished, 1)?,
        }
    }
}

fn delete(name: &str) -> CleanupWorkItem {
    CleanupWorkItem::DeleteLobby(name.to_string())
}

fn from_peer(id: u32, received: Option<Result<Frame, String>>) -> Event {
    Event::Work(LobbyWorkItem::PeerMessage(id, received))
}

/// A lobby with its host and as many guests.
fn lobby_with_guests(guests: u32) -> LobbyTask {
    let (mut task, step) = LobbyTask::new("lobby".to_string(), true);
    deliver(&mut task, step);
    for _ in 0..guests {
        report(&mut task, Event::Work(LobbyWorkItem::NewPeer));
    }
    task
}

fn to(to: u32, message: LobbyMessage) -> Outgoing {
    Outgoing { to, message }
}

#[test]
fn handles_open_close() {
    let state = State::new();
    // The host drops its connection before it has said anything.
    assert_eq!(opening(None), Opening::HungUp);
    assert!(state.lobbies().is_empty());
}

#[test]
fn basic_functionality() {
    let mut state = State::new();

    // The host creates a lobby.
    let text = "{\"kind\":\"Create\",\"payload\":{\"mesh\":false}}".to_string();
    assert_eq!(
        opening(Some(Ok(Frame::Text(text.clone())))),
        Opening::Parse(text)
    );
    let admission = take_in(&mut state, Ok(InitialMessage::Create { mesh: false }))
        .expect("should not get error");
    let (host, lobby_name, mesh) = match admission {
        Admission::Created { peer, name, mesh } => (peer, name, mesh),
        other => panic!("unexpected {:?}", other),
    };
    assert!(!state.lobbies().is_empty());
    let (mut task, step) = LobbyTask::new(lobby_name.clone(), mesh);
    let (sent, effects, next) = deliver(&mut task, step);
    assert_eq!(sent.len(), 2);
    assert_eq!(sent[0].to, 1);
    assert_eq!(sent[1].to, 1);
    let received = serde_json::from_str::<Value>(&encode(&sent[0].message))
        .expect("should parse JSON successfully");
    let name = received["payload"]["CreatedLobby"]["name"]
        .as_str()
        .expect("should be string");
    assert_eq!(name, lobby_name);
    assert_eq!(
        received,
        payload(
            "CreatedLobby",
            object(vec![("name", Value::from(lobby_name.as_str()))])
        )
    );
    let received = serde_json::from_str::<Value>(&encode(&sent[1].message))
        .expect("should parse JSON successfully");
    assert_eq!(
        received,
        payload(
            "Id",
            object(vec![
                ("assigned", Value::from(1)),
                ("mesh", Value::from(false))
            ])
        )
    );
    assert_eq!(effects[2], Effect::Listen(1));
    assert_eq!(next, Next::Wait);

    // A peer joins it.
    let admission = take_in(
        &mut state,
        Ok(InitialMessage::Join {
            name: lobby_name.clone(),
        }),
    )
    .expect("should succeed");
    match admission {
        Admission::Joining { peer, owner } => {
            assert_eq!(owner, host.id);
            assert_ne!(peer.id, host.id);
        }
        other => panic!("unexpected {:?}", other),
    }
    let (sent, effects, next) = report(&mut task, Event::Work(LobbyWorkItem::NewPeer));
    let first = sent
        .iter()
        .find(|outgoing| outgoing.to != 1)
        .expect("should receive");
    let received = serde_json::from_str::<Value>(&encode(&first.message))
        .expect("should parse JSON successfully");
    let peer_id = received["payload"]["Id"]["assigned"]
        .as_u64()
        .expect("should be int");
    assert_eq!(
        received,
        payload(
            "Id",
            object(vec![
                ("assigned", Value::from(peer_id)),
                ("mesh", Value::from(false))
            ])
        )
    );
    assert_eq!(peer_id, u64::from(first.to));
    assert_eq!(effects.last(), Some(&Effect::Listen(first.to)));
    assert_eq!(next, Next::Wait);

    // The host drops its connection.
    let (sent, _, next) = report(&mut task, from_peer(1, None));
    assert!(sent.is_empty());
    match next {
        Next::Exit(exit, work) => {
            exit.result().expect("should complete normally");
            assert_eq!(state.handle_cleanup(work), Some(host.id));
        }
        other => panic!("unexpected {:?}", other),
    }
    assert!(state.lobbies().is_empty());
}

#[test]
fn newcomers_and_members_are_introduced() {
    let mut task = lobby_with_guests(1);
    let (sent, effects, next) = report(&mut task, Event::Work(LobbyWorkItem::NewPeer));
    assert_eq!(
        sent,
        vec![
            to(
                3,
                LobbyMessage::Id {
                    assigned: 3,
                    mesh: true
                }
            ),
            to(1, LobbyMessage::PeerConnect { peer_id: 3 }),
            to(3, LobbyMessage::PeerConnect { peer_id: 1 }),
            to(2, LobbyMessage::PeerConnect { peer_id: 3 }),
            to(3, LobbyMessage::PeerConnect { peer_id: 2 }),
        ]
    );
    assert_eq!(effects.last(), Some(&Effect::Listen(3)));
    assert_eq!(next, Next::Wait);
    assert_eq!(task.lobby().members(), vec![1, 2, 3]);
}

#[test]
fn members_are_told_who_left() {
    let mut task = lobby_with_guests(3);
    let (sent, effects, next) = report(&mut task, from_peer(3, None));
    assert_eq!(
        sent,
        vec![
            to(1, LobbyMessage::PeerDisconnect { peer_id: 3 }),
            to(2, LobbyMessage::PeerDisconnect { peer_id: 3 }),
            to(4, LobbyMessage::PeerDisconnect { peer_id: 3 }),
        ]
    );
    assert_eq!(effects[0], Effect::HangUp(3, LobbyErr::PeerHungUp));
    assert_eq!(next, Next::Wait);
    assert_eq!(task.lobby().members(), vec![1, 2, 4]);
}

#[test]
fn ids_are_not_reused() {
    let mut task = lobby_with_guests(2);
    report(&mut task, from_peer(3, None));
    let (sent, _, _) = report(&mut task, Event::Work(LobbyWorkItem::NewPeer));
    assert_eq!(sent[0].to, 4);
    assert_eq!(task.lobby().next_id(), 5);
}

#[test]
fn a_failed_send_stops_a_joining() {
    let mut task = lobby_with_guests(1);
    let step = task.step(Event::Work(LobbyWorkItem::NewPeer));
    assert_eq!(
        step.next,
        Next::Send(to(
            3,
            LobbyMessage::Id {
                assigned: 3,
                mesh: true
            }
        ))
    );
    let step = task.step(Event::Sent(Ok(())));
    assert_eq!(
        step.next,
        Next::Send(to(1, LobbyMessage::PeerConnect { peer_id: 3 }))
    );
    let step = task.step(Event::Sent(Err("closed".to_string())));
    assert_eq!(
        step,
        Step {
            effect: Effect::Note(Attempt::Join, LobbyErr::SendFailed("closed".to_string())),
            next: Next::Wait
        }
    );
    assert_eq!(task.lobby().members(), vec![1, 2]);
    // The id is used up.
    let (sent, _, _) = report(&mut task, Event::Work(LobbyWorkItem::NewPeer));
    assert_eq!(sent[0].to, 4);
}

#[test]
fn a_failed_send_stops_a_leaving() {
    let mut task = lobby_with_guests(2);
    let step = task.step(from_peer(2, None));
    assert_eq!(
        step.next,
        Next::Send(to(1, LobbyMessage::PeerDisconnect { peer_id: 2 }))
    );
    let step = task.step(Event::Sent(Err("closed".to_string())));
    assert_eq!(
        step,
        Step {
            effect: Effect::Note(Attempt::Leave, LobbyErr::SendFailed("closed".to_string())),
            next: Next::Wait
        }
    );
    assert_eq!(task.lobby().members(), vec![1, 3]);
}

#[test]
fn a_lobby_without_a_host_fails() {
    let (mut task, step) = LobbyTask::new("lobby".to_string(), false);
    assert_eq!(
        step.next,
        Next::Send(to(
            1,
            LobbyMessage::CreatedLobby {
                name: "lobby".to_string()
            }
        ))
    );
    let step = task.step(Event::Sent(Err("closed".to_string())));
    let err = LobbyErr::SendFailed("closed".to_string());
    assert_eq!(step.next, Next::Exit(Exit::Failed(err), delete("lobby")));

    let (mut task, _) = LobbyTask::new("lobby".to_string(), false);
    task.step(Event::Sent(Ok(())));
    let step = task.step(Event::Sent(Err("closed".to_string())));
    let err = LobbyErr::SendFailed("closed".to_string());
    match step.next {
        Next::Exit(exit, work) => {
            assert_eq!(exit.result(), Err(err));
            assert_eq!(work, delete("lobby"));
        }
        other => panic!("unexpected {:?}", other),
    }
    assert!(!task.accepts(&Event::Sent(Ok(()))));
    assert!(!task.accepts(&Event::NewPeersClosed));
}

#[test]
fn messages_are_relayed() {
    let mut task = lobby_with_guests(2);
    let (_, _, next) = report(
        &mut task,
        from_peer(2, Some(Ok(Frame::Text("offer".to_string())))),
    );
    assert_eq!(next, Next::Parse("offer".to_string()));
    let message = RelayMessage {
        kind: RelayMessageKind::Offer,
        dest_id: 3,
        data: "sdp".to_string(),
    };
    let (sent, effects, next) = report(&mut task, Event::Parsed(Ok(message)));
    assert_eq!(
        sent,
        vec![to(
            3,
            LobbyMessage::RelayedMessage {
                kind: RelayMessageKind::Offer,
                data: "sdp".to_string(),
                peer_id: 2
            }
        )]
    );
    assert_eq!(effects, vec![Effect::Nothing, Effect::Nothing]);
    assert_eq!(next, Next::Wait);
    assert_eq!(task.lobby().members(), vec![1, 2, 3]);
}

#[test]
fn a_failed_relay_costs_nobody_the_place() {
    let mut task = lobby_with_guests(1);
    task.step(from_peer(1, Some(Ok(Frame::Text(String::new())))));
    let message = RelayMessage {
        kind: RelayMessageKind::Answer,
        dest_id: 2,
        data: String::new(),
    };
    task.step(Event::Parsed(Ok(message)));
    let step = task.step(Event::Sent(Err("closed".to_string())));
    assert_eq!(
        step,
        Step {
            effect: Effect::Note(Attempt::Relay, LobbyErr::SendFailed("closed".to_string())),
            next: Next::Wait
        }
    );
    assert_eq!(task.lobby().members(), vec![1, 2]);
}

#[test]
fn messages_for_strangers_are_dropped() {
    let mut task = lobby_with_guests(1);
    task.step(from_peer(1, Some(Ok(Frame::Text(String::new())))));
    let message = RelayMessage {
        kind: RelayMessageKind::Candidate,
        dest_id: 9,
        data: String::new(),
    };
    let step = task.step(Event::Parsed(Ok(message)));
    assert_eq!(
        step,
        Step {
            effect: Effect::Note(Attempt::Relay, LobbyErr::NoSuchPeer(9)),
            next: Next::Wait
        }
    );
}

#[test]
fn guests_are_hung_up_on_for_nonsense() {
    let mut task = lobby_with_guests(3);
    let (_, effects, next) = report(&mut task, from_peer(2, Some(Ok(Frame::Binary))));
    assert_eq!(effects[0], Effect::HangUp(2, LobbyErr::BinaryFrame));
    assert_eq!(next, Next::Wait);
    let (_, effects, next) = report(&mut task, from_peer(3, Some(Err("reset".to_string()))));
    assert_eq!(
        effects[0],
        Effect::HangUp(3, LobbyErr::ReceiveFailed("reset".to_string()))
    );
    assert_eq!(next, Next::Wait);
    task.step(from_peer(4, Some(Ok(Frame::Text("?".to_string())))));
    let (sent, effects, next) = report(&mut task, Event::Parsed(Err("no JSON".to_string())));
    assert_eq!(
        effects[0],
        Effect::HangUp(4, LobbyErr::NotARelayMessage("no JSON".to_string()))
    );
    assert_eq!(
        sent,
        vec![to(1, LobbyMessage::PeerDisconnect { peer_id: 4 })]
    );
    assert_eq!(next, Next::Wait);
    assert_eq!(task.lobby().members(), vec![1]);
}

#[test]
fn pings_and_closes_are_ignored_in_a_lobby() {
    let mut task = lobby_with_guests(1);
    for frame in [Frame::Ping, Frame::Pong, Frame::Close] {
        let step = task.step(from_peer(2, Some(Ok(frame))));
        assert_eq!(
            step,
            Step {
                effect: Effect::Nothing,
                next: Next::Wait
            }
        );
    }
    assert_eq!(task.lobby().members(), vec![1, 2]);
}

#[test]
fn the_host_takes_the_lobby_along() {
    let mut task = lobby_with_guests(1);
    let step = task.step(from_peer(1, None));
    assert_eq!(step.next, Next::Exit(Exit::HostLost(LobbyErr::HostHungUp), delete("lobby")));

    let mut task = lobby_with_guests(1);
    let step = task.step(from_peer(1, Some(Err("reset".to_string()))));
    assert_eq!(
        step.next,
        Next::Exit(
            Exit::HostLost(LobbyErr::ReceiveFailed("reset".to_string())),
            delete("lobby")
        )
    );

    let mut task = lobby_with_guests(1);
    let step = task.step(from_peer(1, Some(Ok(Frame::Binary))));
    assert_eq!(
        step,
        Step {
            effect: Effect::HangUp(1, LobbyErr::BinaryFrame),
            next: Next::Exit(Exit::HostLeft, delete("lobby"))
        }
    );
    assert_eq!(Exit::HostLeft.result(), Ok(()));

    let mut task = lobby_with_guests(1);
    task.step(from_peer(1, Some(Ok(Frame::Text("?".to_string())))));
    let step = task.step(Event::Parsed(Err("no JSON".to_string())));
    assert_eq!(step.next, Next::Exit(Exit::HostLeft, delete("lobby")));
}

#[test]
fn a_lobby_ends_with_its_newcomers() {
    let mut task = lobby_with_guests(1);
    let step = task.step(Event::NewPeersClosed);
    assert_eq!(
        step,
        Step {
            effect: Effect::Nothing,
            next: Next::Exit(Exit::NewPeersClosed, delete("lobby"))
        }
    );
    assert_eq!(Exit::NewPeersClosed.result(), Ok(()));
}

#[test]
fn a_lobby_takes_only_what_it_asked_for() {
    let (mut task, step) = LobbyTask::new("lobby".to_string(), false);
    assert!(!task.accepts(&Event::Work(LobbyWorkItem::NewPeer)));
    assert!(task.accepts(&Event::Sent(Err(String::new()))));
    deliver(&mut task, step);
    assert!(task.accepts(&Event::Work(LobbyWorkItem::NewPeer)));
    assert!(task.accepts(&from_peer(1, None)));
    assert!(!task.accepts(&Event::Sent(Ok(()))));
    assert!(!task.accepts(&Event::Parsed(Err(String::new()))));
    task.step(from_peer(1, Some(Ok(Frame::Text(String::new())))));
    assert!(task.accepts(&Event::Parsed(Err(String::new()))));
    assert!(!task.accepts(&Event::NewPeersClosed));
}

#[test]
fn a_stranger_cannot_leave() {
    let mut task = lobby_with_guests(1);
    let step = task.step(from_peer(7, None));
    assert_eq!(
        step,
        Step {
            effect: Effect::HangUpStranger(7, LobbyErr::PeerHungUp, LobbyErr::NotAMember(7)),
            next: Next::Wait
        }
    );
    assert_eq!(task.lobby().members(), vec![1, 2]);
}

#[test]
fn connections_begin_with_a_text() {
    assert_eq!(opening(Some(Ok(Frame::Ping))), Opening::ReadOn);
    assert_eq!(opening(Some(Ok(Frame::Pong))), Opening::ReadOn);
    assert_eq!(
        opening(Some(Ok(Frame::Binary))),
        Opening::Refused(HandshakeErr::TextExpected)
    );
    assert_eq!(
        opening(Some(Ok(Frame::Close))),
        Opening::Refused(HandshakeErr::TextExpected)
    );
    assert_eq!(
        opening(Some(Err("reset".to_string()))),
        Opening::Refused(HandshakeErr::ReceiveFailed("reset".to_string()))
    );
}

#[test]
fn members_are_listened_to() {
    let (mut task, step) = LobbyTask::new("lobby".to_string(), true);
    let mut listened = Vec::new();
    let (_, mut effects, _) = deliver(&mut task, step);
    let events = vec![
        Event::Work(LobbyWorkItem::NewPeer),
        Event::Work(LobbyWorkItem::NewPeer),
        from_peer(2, None),
        Event::Work(LobbyWorkItem::NewPeer),
        from_peer(3, Some(Ok(Frame::Ping))),
        from_peer(3, Some(Ok(Frame::Binary))),
    ];
    for event in events {
        for effect in effects {
            match effect {
                Effect::Listen(id) => listened.push(id),
                Effect::HangUp(id, _) => listened.retain(|&other| other != id),
                _ => (),
            }
        }
        assert_eq!(task.lobby().members(), listened);
        effects = report(&mut task, event).1;
    }
    assert_eq!(task.lobby().members(), vec![1, 4]);
    assert_eq!(task.lobby().name(), "lobby");
    assert!(task.lobby().mesh());
}

#[test]
fn pings_make_no_difference() {
    let mut received = vec![
        Some(Ok(Frame::Ping)),
        Some(Ok(Frame::Pong)),
        Some(Ok(Frame::Text("hello".to_string()))),
        None,
    ]
    .into_iter();
    let first = loop {
        match opening(received.next().expect("should not run out")) {
            Opening::ReadOn => continue,
            other => break other,
        }
    };
    assert_eq!(first, Opening::Parse("hello".to_string()));
}

#[test]
fn lobbies_have_their_own_owners() {
    let mut state = State::new();
    let mut lobbies = Vec::new();
    for _ in 0..20 {
        match take_in(&mut state, Ok(InitialMessage::Create { mesh: false })) {
            Ok(Admission::Created { peer, name, .. }) => lobbies.push((peer.id, name)),
            other => panic!("unexpected {:?}", other),
        }
    }
    for (owner, name) in &lobbies {
        assert_eq!(lobbies.iter().filter(|(id, _)| id == owner).count(), 1);
        let join = InitialMessage::Join { name: name.clone() };
        match take_in(&mut state, Ok(join)) {
            Ok(Admission::Joining { peer, owner: found }) => {
                assert_eq!(found, *owner);
                assert!(lobbies.iter().all(|(id, _)| *id != peer.id));
            }
            other => panic!("unexpected {:?}", other),
        }
    }
    // Each lobby that ends takes its own name along, and no other.
    for (i, (owner, name)) in lobbies.iter().enumerate() {
        let (task, _) = LobbyTask::new(name.clone(), false);
        let work = task.abandon().expect("should be left to do");
        assert_eq!(state.handle_cleanup(work), Some(*owner));
        for (j, (_, other)) in lobbies.iter().enumerate() {
            let found = state.lobbies().handle_join_lobby(other.clone());
            assert_eq!(found.is_ok(), j > i);
        }
    }
    assert!(state.lobbies().is_empty());
}

#[test]
fn members_are_acquainted() {
    let (mut task, step) = LobbyTask::new("lobby".to_string(), true);
    let mut history = deliver(&mut task, step).0;
    // One newcomer is turned away after it was told its id.
    for event in [
        Event::Work(LobbyWorkItem::NewPeer),
        Event::Work(LobbyWorkItem::NewPeer),
        from_peer(2, None),
        Event::Work(LobbyWorkItem::NewPeer),
    ] {
        history.extend(report(&mut task, event).0);
    }
    task.step(Event::Work(LobbyWorkItem::NewPeer));
    task.step(Event::Sent(Ok(())));
    task.step(Event::Sent(Err("closed".to_string())));
    history.push(to(
        5,
        LobbyMessage::Id {
            assigned: 5,
            mesh: true,
        },
    ));
    history.extend(report(&mut task, Event::Work(LobbyWorkItem::NewPeer)).0);

    let members = task.lobby().members();
    assert_eq!(members, vec![1, 3, 4, 6]);
    for &p in &members {
        for &q in &members {
            let introduction = to(p, LobbyMessage::PeerConnect { peer_id: q });
            let times = history.iter().filter(|&o| *o == introduction).count();
            assert_eq!(times, usize::from(p != q));
        }
        let told = history
            .iter()
            .filter(|o| o.to == p && !matches!(o.message, LobbyMessage::CreatedLobby { .. }))
            .collect::<Vec<_>>();
        let id = to(
            p,
            LobbyMessage::Id {
                assigned: p,
                mesh: true,
            },
        );
        assert_eq!(told[0], &id);
        assert_eq!(told.iter().filter(|&&o| *o == id).count(), 1);
    }
}

#[test]
fn a_lobby_is_deleted_once() {
    let mut task = lobby_with_guests(1);
    let step = task.step(from_peer(1, None));
    match step.next {
        Next::Exit(_, work) => assert_eq!(work, delete("lobby")),
        other => panic!("unexpected {:?}", other),
    }
    assert_eq!(task.abandon(), None);
    assert_eq!(lobby_with_guests(1).abandon(), Some(delete("lobby")));
    let (task, _) = LobbyTask::new("fresh".to_string(), false);
    assert_eq!(task.abandon(), Some(delete("fresh")));
}
