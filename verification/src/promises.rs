//! What each operation is for: what comes out of it, in terms of what goes in.

use vstd::prelude::*;
use crate::lobby::{
    is_lobby_name, join_sends, leave_sends, parsed_handling, received_handling, relay_result,
    Attempt, Handling, HandlingView, LobbyErr, LobbyView, LobbyWorkItem, WorkItemErr,
    WorkItemOk, FIRST_GUEST_ID, HOST_ID,
};
use crate::laws::{law_first_free_id, law_first_free_name};
use crate::message::{Frame, InitialMessage, LobbyMessage, Outgoing, Received, RelayMessage};
use crate::order::{ascending, lemma_ascending};
use crate::outside::is_alphanumeric;
use crate::server::{
    drawn_names, first_free_id, first_free_name, identified_result, opening_of, Admission,
    CleanupWorkItem, Drawing, HandshakeErr, NewPeer, Opening, Progress, StateView,
    NEW_PEER_BACKLOG,
};
use crate::task::{created, Effect, Event, Exit, Next, StageView, Step, TaskView};

verus! {

// ---- Lobbies ----

/// Whether a lobby that was waiting for work has hung up on the peer `id` for `err`: the peer is
/// no member any more, and nothing else about the lobby has changed. If the peer was no member
/// the lobby waits again; if it was the host the lobby is at its end; else the member with the
/// smallest id is the first to be told.
pub open spec fn hung_up_on_for(
    before: TaskView,
    id: u32,
    err: LobbyErr,
    after: TaskView,
    step: Step,
) -> bool {
    let remaining = before.lobby.members.remove(id);
    &&& after.lobby.name == before.lobby.name
    &&& after.lobby.mesh == before.lobby.mesh
    &&& after.lobby.next_id == before.lobby.next_id
    &&& after.lobby.members == remaining
    &&& if !before.lobby.members.contains(id) {
        &&& after.stage == StageView::Idle
        &&& step.effect == Effect::HangUpStranger(id, err, LobbyErr::NotAMember(id))
        &&& step.next == Next::Wait
    } else if id == 1 {
        &&& after.stage == StageView::Finished
        &&& step.effect == Effect::HangUp(id, err)
        &&& step.next == Next::Exit(
            Exit::HostLeft,
            CleanupWorkItem::DeleteLobby(before.lobby.name),
        )
    } else {
        &&& after.stage is Leaving
        &&& step.effect == Effect::HangUp(id, err)
        &&& step.next matches Next::Send(outgoing) && {
            &&& remaining.contains(outgoing.to)
            &&& forall|other: u32| #[trigger] remaining.contains(other) ==> outgoing.to <= other
            &&& outgoing.message == LobbyMessage::PeerDisconnect { peer_id: id }
        }
    }
}

/// The smallest of the members that remain is the first to be told of a leaving.
proof fn lemma_first_farewell(lobby: LobbyView, id: u32)
    requires
        lobby.wf(),
        lobby.members.contains(1),
        id != 1,
    ensures
        ({
            let remaining = lobby.members.remove(id);
            let sends = leave_sends(id, ascending(remaining));
            &&& sends.len() > 0
            &&& remaining.contains(sends[0].to)
            &&& forall|other: u32| #[trigger] remaining.contains(other) ==> sends[0].to <= other
            &&& sends[0].message == LobbyMessage::PeerDisconnect { peer_id: id }
        }),
{
    let remaining = lobby.members.remove(id);
    let order = ascending(remaining);
    lemma_ascending(remaining);
    assert(order.contains(1));
    assert forall|other: u32| #[trigger] remaining.contains(other) implies order[0] <= other by {
        assert(order.contains(other));
        let k = choose|k: int| 0 <= k < order.len() && order[k] == other;
    }
}

/// A peer that sends a text that is no relay message is hung up on, and nobody else. While the
/// text is being read the lobby stays as it is.
pub proof fn law_unreadable_texts_cost_their_sender_the_place(
    task: TaskView,
    id: u32,
    text: String,
    err: String,
)
    requires
        task.wf(),
        task.stage is Idle,
    ensures
        ({
            let (reading, read) = task.step(
                Event::Work(LobbyWorkItem::PeerMessage(id, Some(Ok(Frame::Text(text))))),
            );
            let (after, step) = reading.step(Event::Parsed(Err(err)));
            &&& read == (Step { effect: Effect::Nothing, next: Next::Parse(text) })
            &&& reading == (TaskView {
                lobby: task.lobby,
                stage: StageView::Parsing { from: id },
            })
            &&& hung_up_on_for(task, id, LobbyErr::NotARelayMessage(err), after, step)
        }),
{
    if id != 1 {
        lemma_first_farewell(task.lobby, id);
    }
    if !task.lobby.members.contains(id) {
        assert(task.lobby.members.remove(id) =~= task.lobby.members);
    }
}

/// A peer that sends binary data is hung up on, and nobody else.
pub proof fn law_binary_data_costs_its_sender_the_place(task: TaskView, id: u32)
    requires
        task.wf(),
        task.stage is Idle,
    ensures
        ({
            let (after, step) = task.step(
                Event::Work(LobbyWorkItem::PeerMessage(id, Some(Ok(Frame::Binary)))),
            );
            hung_up_on_for(task, id, LobbyErr::BinaryFrame, after, step)
        }),
{
    if id != 1 {
        lemma_first_farewell(task.lobby, id);
    }
    if !task.lobby.members.contains(id) {
        assert(task.lobby.members.remove(id) =~= task.lobby.members);
    }
}

/// A guest whose connection is closed or fails is hung up on, and nobody else.
pub proof fn law_lost_guests_are_let_go(task: TaskView, id: u32, failure: Option<String>)
    requires
        task.wf(),
        task.stage is Idle,
        id != 1,
    ensures
        ({
            let received: Received = match failure {
                None => None,
                Some(err) => Some(Err(err)),
            };
            let (after, step) = task.step(Event::Work(LobbyWorkItem::PeerMessage(id, received)));
            hung_up_on_for(
                task,
                id,
                match failure {
                    None => LobbyErr::PeerHungUp,
                    Some(err) => LobbyErr::ReceiveFailed(err),
                },
                after,
                step,
            )
        }),
{
    lemma_first_farewell(task.lobby, id);
    if !task.lobby.members.contains(id) {
        assert(task.lobby.members.remove(id) =~= task.lobby.members);
    }
}

/// When the host's connection is closed or fails, the lobby ends without a word.
pub proof fn law_a_lost_host_ends_the_lobby(task: TaskView, failure: Option<String>)
    requires
        task.wf(),
        task.stage is Idle,
    ensures
        ({
            let received: Received = match failure {
                None => None,
                Some(err) => Some(Err(err)),
            };
            task.step(Event::Work(LobbyWorkItem::PeerMessage(1, received))) == (
                TaskView { lobby: task.lobby, stage: StageView::Finished },
                Step {
                    effect: Effect::Nothing,
                    next: Next::Exit(
                        Exit::HostLost(
                            match failure {
                                None => LobbyErr::HostHungUp,
                                Some(err) => LobbyErr::ReceiveFailed(err),
                            },
                        ),
                        CleanupWorkItem::DeleteLobby(task.lobby.name),
                    ),
                },
            )
        }),
{
}

/// Pings, pongs and closing frames of any peer change nothing, and nothing is done about them.
pub proof fn law_control_frames_are_ignored(task: TaskView, id: u32, frame: Frame)
    requires
        task.wf(),
        task.stage is Idle,
        !(frame is Text),
        !(frame is Binary),
    ensures
        task.step(Event::Work(LobbyWorkItem::PeerMessage(id, Some(Ok(frame))))) == (
            task,
            Step { effect: Effect::Nothing, next: Next::Wait },
        ),
{
}

/// When no more peers can come, the lobby ends without a word.
pub proof fn law_a_lobby_ends_with_its_newcomers(task: TaskView)
    requires
        task.wf(),
        task.stage is Idle,
    ensures
        task.step(Event::NewPeersClosed) == (
            TaskView { lobby: task.lobby, stage: StageView::Finished },
            Step {
                effect: Effect::Nothing,
                next: Next::Exit(
                    Exit::NewPeersClosed,
                    CleanupWorkItem::DeleteLobby(task.lobby.name),
                ),
            },
        ),
{
}

/// A new lobby has the name and the topology that it was given and no members. If its host cannot
/// be told the name, or then its id, the lobby ends with that failure; else the host is in, and
/// the first guest will get the id after the host's.
pub proof fn law_a_new_lobby(name: String, mesh: bool, err: String)
    ensures
        ({
            let fresh = created(name, mesh);
            let failed = Step {
                effect: Effect::Nothing,
                next: Next::Exit(
                    Exit::Failed(LobbyErr::SendFailed(err)),
                    CleanupWorkItem::DeleteLobby(name),
                ),
            };
            let (greeting, greeted) = fresh.step(Event::Sent(Ok(())));
            &&& fresh.lobby == (LobbyView { name, mesh, members: Set::empty(), next_id: 2 })
            &&& forall|event: Event| #[trigger] fresh.accepts(event) <==> event is Sent
            &&& fresh.step(Event::Sent(Err(err))) == (
                TaskView { lobby: fresh.lobby, stage: StageView::Finished },
                failed,
            )
            &&& greeting.lobby == fresh.lobby
            &&& greeted == (Step {
                effect: Effect::Nothing,
                next: Next::Send(
                    Outgoing { to: 1, message: LobbyMessage::Id { assigned: 1, mesh } },
                ),
            })
            &&& forall|event: Event| #[trigger] greeting.accepts(event) <==> event is Sent
            &&& greeting.step(Event::Sent(Err(err))) == (
                TaskView { lobby: fresh.lobby, stage: StageView::Finished },
                failed,
            )
            &&& greeting.step(Event::Sent(Ok(()))) == (
                TaskView {
                    lobby: LobbyView { name, mesh, members: set![1u32], next_id: 2 },
                    stage: StageView::Idle,
                },
                Step { effect: Effect::Listen(1), next: Next::Wait },
            )
        }),
{
    lemma_ascending(Set::empty());
    assert(ascending(Set::empty()) =~= Seq::<u32>::empty());
    let sends = join_sends(1, mesh, ascending(Set::empty()));
    assert(sends.drop_first() =~= Seq::<Outgoing>::empty());
    assert(Set::<u32>::empty().insert(1) =~= set![1u32]);
}

/// What a joining takes: first the newcomer is told its id and the topology of the lobby, and then,
/// those with smaller ids first, each member is told of the newcomer and right after that the
/// newcomer of that member.
pub proof fn law_what_a_joining_takes(lobby: LobbyView, id: u32)
    requires
        lobby.wf(),
    ensures
        ({
            let sends = join_sends(id, lobby.mesh, lobby.ordered());
            &&& sends.len() == 1 + 2 * lobby.members.len()
            &&& sends[0] == (Outgoing {
                to: id,
                message: LobbyMessage::Id { assigned: id, mesh: lobby.mesh },
            })
            &&& forall|k: int|
                #![trigger sends[1 + 2 * k]]
                0 <= k < lobby.members.len() ==> {
                    &&& lobby.members.contains(sends[1 + 2 * k].to)
                    &&& sends[1 + 2 * k].message == LobbyMessage::PeerConnect { peer_id: id }
                    &&& sends[2 + 2 * k] == (Outgoing {
                        to: id,
                        message: LobbyMessage::PeerConnect { peer_id: sends[1 + 2 * k].to },
                    })
                }
            &&& forall|k: int, l: int|
                #![trigger sends[1 + 2 * k], sends[1 + 2 * l]]
                0 <= k < l < lobby.members.len() ==> sends[1 + 2 * k].to < sends[1 + 2 * l].to
        }),
{
    lemma_ascending(lobby.members);
    let order = lobby.ordered();
    let sends = join_sends(id, lobby.mesh, order);
    assert forall|k: int| #![trigger sends[1 + 2 * k]] 0 <= k < lobby.members.len() implies {
        &&& lobby.members.contains(sends[1 + 2 * k].to)
        &&& sends[1 + 2 * k].message == LobbyMessage::PeerConnect { peer_id: id }
        &&& sends[2 + 2 * k] == (Outgoing {
            to: id,
            message: LobbyMessage::PeerConnect { peer_id: sends[1 + 2 * k].to },
        })
    } by {
        assert(sends[1 + 2 * k].to == order[k]);
    }
    assert forall|k: int, l: int|
        #![trigger sends[1 + 2 * k], sends[1 + 2 * l]]
        0 <= k < l < lobby.members.len() implies sends[1 + 2 * k].to < sends[1 + 2 * l].to by {
        assert(sends[1 + 2 * k].to == order[k]);
        assert(sends[1 + 2 * l].to == order[l]);
    }
}

/// A message is addressed to the peer that it names, with its kind and its data as they are and
/// under the id of its sender, exactly if that peer is a member.
pub proof fn law_relayed_messages_are_addressed(
    members: Set<u32>,
    message: RelayMessage,
    from: u32,
)
    ensures
        match relay_result(members, message, from) {
            Ok(outgoing) => {
                &&& members.contains(message.dest_id)
                &&& outgoing.to == message.dest_id
                &&& outgoing.message is RelayedMessage
                &&& outgoing.message->RelayedMessage_kind == message.kind
                &&& outgoing.message->RelayedMessage_data == message.data
                &&& outgoing.message->RelayedMessage_peer_id == from
            },
            Err(err) => {
                &&& !members.contains(message.dest_id)
                &&& err == LobbyErr::NoSuchPeer(message.dest_id)
            },
        },
{
}

/// What is received from a peer concerns that peer: a text is read as its text, binary data and a
/// lost connection are its end, and the lobby's end if the connection was the host's.
pub proof fn law_what_is_received_concerns_its_sender(id: u32, received: Received)
    ensures
        ({
            let handling = received_handling(id, received);
            &&& received is None ==> handling == HandlingView::Done(
                Err(
                    if id == 1 {
                        WorkItemErr::FatalForLobby(LobbyErr::HostHungUp)
                    } else {
                        WorkItemErr::FatalForPeer(id, LobbyErr::PeerHungUp)
                    },
                ),
            )
            &&& received matches Some(Err(err)) ==> handling == HandlingView::Done(
                Err(
                    if id == 1 {
                        WorkItemErr::FatalForLobby(LobbyErr::ReceiveFailed(err))
                    } else {
                        WorkItemErr::FatalForPeer(id, LobbyErr::ReceiveFailed(err))
                    },
                ),
            )
            &&& received matches Some(Ok(frame)) ==> {
                &&& frame matches Frame::Text(text) ==> handling == (HandlingView::Parse {
                    from: id,
                    text,
                })
                &&& frame is Binary ==> handling == HandlingView::Done(
                    Err(WorkItemErr::FatalForPeer(id, LobbyErr::BinaryFrame)),
                )
                &&& frame is Ping || frame is Pong || frame is Close ==> handling
                    == HandlingView::Done(Ok(WorkItemOk::Noop))
            }
        }),
{
}

/// A text that cannot be read is its sender's end. One that can be read is sent on if its receiver
/// is a member, and is else dropped.
pub proof fn law_what_was_read_concerns_its_sender(
    members: Set<u32>,
    from: u32,
    parsed: Result<RelayMessage, String>,
)
    ensures
        ({
            let handling = parsed_handling(members, from, parsed);
            &&& parsed matches Err(err) ==> handling == HandlingView::Done(
                Err(WorkItemErr::FatalForPeer(from, LobbyErr::NotARelayMessage(err))),
            )
            &&& parsed matches Ok(message) ==> if members.contains(message.dest_id) {
                handling == HandlingView::Relay(
                    Outgoing {
                        to: message.dest_id,
                        message: LobbyMessage::RelayedMessage {
                            kind: message.kind,
                            data: message.data,
                            peer_id: from,
                        },
                    },
                )
            } else {
                handling == HandlingView::Done(
                    Err(
                        WorkItemErr::NonFatal(
                            Attempt::Relay,
                            LobbyErr::NoSuchPeer(message.dest_id),
                        ),
                    ),
                )
            }
        }),
{
}

/// Taking an id, letting a peer in and letting one go each change one thing about a lobby. The ids
/// that were assigned are the host's and those below the next.
pub proof fn law_changes_of_a_lobby(lobby: LobbyView, id: u32, other: u32)
    requires
        lobby.next_id < u32::MAX,
    ensures
        lobby.id_taken().next_id == lobby.next_id + 1,
        lobby.id_taken().members == lobby.members,
        lobby.id_taken().name == lobby.name,
        lobby.id_taken().mesh == lobby.mesh,
        lobby.with_member(id).members.contains(other) <==> lobby.members.contains(other) || other
            == id,
        lobby.with_member(id).next_id == lobby.next_id,
        lobby.with_member(id).name == lobby.name,
        lobby.with_member(id).mesh == lobby.mesh,
        lobby.without_member(id).members.contains(other) <==> lobby.members.contains(other)
            && other != id,
        lobby.without_member(id).next_id == lobby.next_id,
        lobby.without_member(id).name == lobby.name,
        lobby.without_member(id).mesh == lobby.mesh,
        lobby.assigned(id) <==> id == 1 || 2 <= id < lobby.next_id,
{
}

/// A lobby fails exactly if its host could not be let in, and then with that error.
pub proof fn law_results_of_lobbies(err: LobbyErr)
    ensures
        Exit::Failed(err).spec_result() == Err::<(), LobbyErr>(err),
        Exit::HostLost(err).spec_result() == Ok::<(), LobbyErr>(()),
        Exit::HostLeft.spec_result() == Ok::<(), LobbyErr>(()),
        Exit::NewPeersClosed.spec_result() == Ok::<(), LobbyErr>(()),
{
}

/// A lobby that is given up is to be deleted under its name, unless it had come to its end, which
/// has had it deleted.
pub proof fn law_lobbies_that_are_given_up(task: TaskView, event: Event)
    requires
        task.wf(),
        task.accepts(event),
    ensures
        task.abandoned() == Some(CleanupWorkItem::DeleteLobby(task.lobby.name)),
        task.step(event).1.next is Exit ==> task.step(event).0.abandoned() is None,
        !(task.step(event).1.next is Exit) ==> task.step(event).0.abandoned() == Some(
            CleanupWorkItem::DeleteLobby(task.lobby.name),
        ),
{
}

/// How far a work item came is seen as it is.
pub proof fn law_handlings_are_seen_as_they_are(handling: Handling)
    ensures
        match (handling, handling@) {
            (Handling::Join { id, sends }, HandlingView::Join { id: seen_id, sends: seen_sends }) =>
            seen_id == id && seen_sends == sends@,
            (Handling::Parse { from, text }, HandlingView::Parse { from: seen_from, text: seen }) =>
            seen_from == from && seen == text,
            (Handling::Relay(outgoing), HandlingView::Relay(seen)) => seen == outgoing,
            (Handling::Done(result), HandlingView::Done(seen)) => seen == result,
            _ => false,
        },
{
}

/// Who is hung up on: the peer that the effect names, member or not.
pub proof fn law_effects_that_hang_up(id: u32, err: LobbyErr, other: LobbyErr, attempt: Attempt)
    ensures
        Effect::HangUp(id, err).hung_up_on() == Some(id),
        Effect::HangUpStranger(id, err, other).hung_up_on() == Some(id),
        Effect::Nothing.hung_up_on() == None::<u32>,
        Effect::Listen(id).hung_up_on() == None::<u32>,
        Effect::Note(attempt, err).hung_up_on() == None::<u32>,
{
}

// ---- Connections ----

/// Every text that a connection begins with is read as it is. A closed connection comes to
/// nothing, pings and pongs are passed over, and only a failed read, binary data and a closing
/// frame are refused.
pub proof fn law_connections_begin_with_any_text(
    received: Received,
    text: String,
    err: HandshakeErr,
)
    ensures
        opening_of(Some(Ok(Frame::Text(text)))) == Opening::Parse(text),
        opening_of(received) == Opening::Parse(text) ==> received == Some(
            Ok::<Frame, String>(Frame::Text(text)),
        ),
        opening_of(received) is HungUp <==> received is None,
        opening_of(received) is ReadOn <==> (received matches Some(Ok(frame)) && (frame is Ping
            || frame is Pong)),
        opening_of(received) == Opening::Refused(err) <==> ({
            ||| received matches Some(Err(failure)) && err == HandshakeErr::ReceiveFailed(failure)
            ||| received matches Some(Ok(frame)) && (frame is Binary || frame is Close) && err
                == HandshakeErr::TextExpected
        }),
{
}

/// A connection that asks to join is led to the owner of the lobby with that name, under the id
/// that it was given, exactly if there is one, and is else refused with that name. It never leads
/// to a new lobby, and whether it is refused or not the lobbies stay as they are.
pub proof fn law_joining_by_name(state: StateView, name: String, ids: Seq<u32>)
    ensures
        ({
            let drawing = first_free_id(ids, state.peer_ids);
            let message = InitialMessage::Join { name };
            let (after, result) = state.identify(message, drawing);
            &&& after.lobbies == state.lobbies
            &&& match drawing {
                Drawing::Found(id) => {
                    &&& after.peer_ids == state.peer_ids.insert(id)
                    &&& result is Err <==> !state.lobbies.contains_key(name@)
                    &&& result matches Err(err) ==> err == HandshakeErr::NoSuchLobby(name)
                    &&& result matches Ok(progress) ==> progress == Progress::Admitted(
                        Admission::Joining {
                            peer: NewPeer { id },
                            owner: state.lobbies[name@],
                        },
                    )
                },
                Drawing::DrawOn => {
                    &&& after.peer_ids == state.peer_ids
                    &&& result == Ok::<Progress, HandshakeErr>(Progress::Unidentified(message))
                },
            }
        }),
        forall|peer: NewPeer|
            ({
                let result = #[trigger] identified_result(
                    state.lobbies,
                    InitialMessage::Join { name },
                    peer,
                );
                if state.lobbies.contains_key(name@) {
                    result == Ok::<Progress, HandshakeErr>(
                        Progress::Admitted(
                            Admission::Joining { peer, owner: state.lobbies[name@] },
                        ),
                    )
                } else {
                    result == Err::<Progress, HandshakeErr>(HandshakeErr::NoSuchLobby(name))
                }
            }),
{
}

/// A connection that asks for a lobby gets one of the topology that it asked for, under the id
/// that it was given and one of the names that were drawn, whichever lobbies there are. It is
/// never refused, and as long as ids or names have to be drawn on it is not forgotten what it
/// asked for. `meanwhile` is the state in which the name is drawn.
pub proof fn law_lobbies_are_created_as_asked(
    state: StateView,
    mesh: bool,
    ids: Seq<u32>,
    meanwhile: StateView,
    names: Seq<String>,
)
    ensures
        ({
            let drawing = first_free_id(ids, state.peer_ids);
            let message = InitialMessage::Create { mesh };
            let (after, result) = state.identify(message, drawing);
            &&& after.lobbies == state.lobbies
            &&& match drawing {
                Drawing::Found(id) => {
                    &&& after.peer_ids == state.peer_ids.insert(id)
                    &&& result == Ok::<Progress, HandshakeErr>(
                        Progress::Unnamed { peer: NewPeer { id }, mesh },
                    )
                },
                Drawing::DrawOn => {
                    &&& after.peer_ids == state.peer_ids
                    &&& result == Ok::<Progress, HandshakeErr>(Progress::Unidentified(message))
                },
            }
        }),
        forall|peer: NewPeer| #[trigger]
            identified_result(state.lobbies, InitialMessage::Create { mesh }, peer) == Ok::<
                Progress,
                HandshakeErr,
            >(Progress::Unnamed { peer, mesh }),
        forall|peer: NewPeer|
            ({
                let (after, result) = #[trigger] meanwhile.name_lobby(
                    peer,
                    mesh,
                    first_free_name(names, meanwhile.lobbies),
                );
                &&& after.peer_ids == meanwhile.peer_ids
                &&& result matches Ok(progress)
                &&& match progress {
                    Progress::Admitted(admission) => {
                        &&& admission is Created
                        &&& admission->Created_peer == peer
                        &&& admission->Created_mesh == mesh
                        &&& names.contains(admission->Created_name)
                        &&& !meanwhile.lobbies.contains_key(admission->Created_name@)
                        &&& after.lobbies == meanwhile.lobbies.insert(
                            admission->Created_name@,
                            peer.id,
                        )
                    },
                    Progress::Unnamed { peer: same_peer, mesh: same_mesh } => {
                        &&& same_peer == peer
                        &&& same_mesh == mesh
                        &&& after.lobbies == meanwhile.lobbies
                        &&& forall|i: int|
                            0 <= i < names.len() ==> meanwhile.lobbies.contains_key(
                                (#[trigger] names[i])@,
                            )
                    },
                    Progress::Unidentified(_) => false,
                }
            }),
{
    law_first_free_id(ids, state.peer_ids);
    law_first_free_name(names, meanwhile.lobbies);
}

/// A lobby that was created is where those are led who ask for its name, until it is deleted; then
/// they are refused. Other lobbies that come and go in between make no difference.
pub proof fn law_lobbies_are_found_under_their_names(
    state: StateView,
    host: NewPeer,
    mesh: bool,
    name: String,
    other: Seq<char>,
    other_owner: u32,
    guest: NewPeer,
)
    requires
        other != name@,
    ensures
        ({
            let (opened, _) = state.name_lobby(host, mesh, Drawing::Found(name));
            let asked = InitialMessage::Join { name };
            let found = Ok::<Progress, HandshakeErr>(
                Progress::Admitted(Admission::Joining { peer: guest, owner: host.id }),
            );
            let refused = Err::<Progress, HandshakeErr>(HandshakeErr::NoSuchLobby(name));
            let deleted = opened.without_lobby(CleanupWorkItem::DeleteLobby(name).lobby_name());
            &&& identified_result(opened.lobbies, asked, guest) == found
            &&& identified_result(opened.with_lobby(other, other_owner).lobbies, asked, guest)
                == found
            &&& identified_result(opened.without_lobby(other).lobbies, asked, guest) == found
            &&& identified_result(opened.with_peer(other_owner).lobbies, asked, guest) == found
            &&& identified_result(deleted.lobbies, asked, guest) == refused
            &&& identified_result(deleted.with_lobby(other, other_owner).lobbies, asked, guest)
                == refused
        }),
{
}

/// Giving an id, adding a lobby and deleting one each change one thing about the server.
pub proof fn law_changes_of_the_server(
    state: StateView,
    id: u32,
    name: Seq<char>,
    other_id: u32,
    other: Seq<char>,
)
    ensures
        state.with_peer(id).lobbies == state.lobbies,
        state.with_peer(id).peer_ids.contains(other_id) <==> state.peer_ids.contains(other_id)
            || other_id == id,
        state.with_lobby(name, id).peer_ids == state.peer_ids,
        state.with_lobby(name, id).lobbies.contains_key(other) <==> state.lobbies.contains_key(
            other,
        ) || other == name,
        state.with_lobby(name, id).lobbies[name] == id,
        state.lobbies.contains_key(other) && other != name ==> state.with_lobby(
            name,
            id,
        ).lobbies[other] == state.lobbies[other],
        state.without_lobby(name).peer_ids == state.peer_ids,
        state.without_lobby(name).lobbies.contains_key(other) <==> state.lobbies.contains_key(other)
            && other != name,
        state.lobbies.contains_key(other) && other != name ==> state.without_lobby(
            name,
        ).lobbies[other] == state.lobbies[other],
{
}

/// Every host has the id 1, guests are counted from 2 on, and 32 newcomers can wait at the door of
/// a lobby.
pub proof fn law_fixed_numbers()
    ensures
        HOST_ID == 1,
        FIRST_GUEST_ID == 2,
        NEW_PEER_BACKLOG == 32,
{
}

/// Deleting a lobby is about the lobby with that name.
pub proof fn law_deletions_name_their_lobby(name: String)
    ensures
        CleanupWorkItem::DeleteLobby(name).lobby_name() == name@,
{
}

/// As many names are drawn as asked for, and each of them can be a lobby's.
pub proof fn law_draws_of_names(names: Seq<String>, draws: nat)
    ensures
        drawn_names(names, draws) <==> names.len() == draws && (forall|i: int|
            0 <= i < names.len() ==> is_lobby_name((#[trigger] names[i])@)),
{
}

/// Lobbies are named by sixteen ASCII letters and digits.
pub proof fn law_names_of_lobbies(name: Seq<char>)
    ensures
        is_lobby_name(name) <==> name.len() == 16 && (forall|i: int|
            0 <= i < name.len() ==> ('A' <= #[trigger] name[i] <= 'Z' || 'a' <= name[i] <= 'z'
                || '0' <= name[i] <= '9')),
{
    if is_lobby_name(name) {
        assert forall|i: int| 0 <= i < name.len() implies ('A' <= #[trigger] name[i] <= 'Z' || 'a'
            <= name[i] <= 'z' || '0' <= name[i] <= '9') by {
            assert(is_alphanumeric(name[i]));
        }
    }
}

} // verus!
