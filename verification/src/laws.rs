//! What holds of every lobby and of the server as a whole, whatever the peers do.

use vstd::prelude::*;
use crate::lobby::{
    introductions, join_sends, leave_sends, Attempt, LobbyErr, LobbyView, LobbyWorkItem,
    FIRST_GUEST_ID, HOST_ID,
};
use crate::message::{Frame, InitialMessage, LobbyMessage, Outgoing, Received, RelayMessage};
use crate::order::{ascending, lemma_ascending};
use crate::server::{
    first_free_id, first_free_name, opening_of, CleanupWorkItem, Drawing, NewPeer, Opening,
    Progress, StateView,
};
use crate::task::{
    created, law_steps_keep_the_invariant, leaving, waiting, Effect, Event, Next, StageView, Step,
    TaskView,
};

verus! {

/// The peers that the application listens to after an effect.
pub open spec fn listened(before: Set<u32>, effect: Effect) -> Set<u32> {
    match (effect, effect.hung_up_on()) {
        (Effect::Listen(id), _) => before.insert(id),
        (_, Some(id)) => before.remove(id),
        _ => before,
    }
}

/// The peers that the application listens to are at any time the members of the lobby.
pub proof fn law_members_are_listened_to(task: TaskView, event: Event)
    requires
        task.wf(),
        task.accepts(event),
    ensures
        task.step(event).0.lobby.members == listened(
            task.lobby.members,
            task.step(event).1.effect,
        ),
{
    assert forall|id: u32| !task.lobby.members.contains(id) implies #[trigger]
        task.lobby.members.remove(id) == task.lobby.members by {
        assert(task.lobby.members.remove(id) =~= task.lobby.members);
    }
}

/// A lobby keeps its name and its topology, and never takes an id back.
pub proof fn law_steps_keep_the_lobby(task: TaskView, event: Event)
    requires
        task.wf(),
        task.accepts(event),
    ensures
        task.step(event).0.lobby.name == task.lobby.name,
        task.step(event).0.lobby.mesh == task.lobby.mesh,
        task.step(event).0.lobby.next_id >= task.lobby.next_id,
{
}

/// A peer is let in only under an id that no member has; the host's id is the host's alone, and
/// a guest's id was assigned to that guest.
pub proof fn law_listen_only_to_newcomers(task: TaskView, event: Event, id: u32)
    requires
        task.wf(),
        task.accepts(event),
        task.step(event).1.effect == Effect::Listen(id),
    ensures
        !task.lobby.members.contains(id),
        id == HOST_ID || FIRST_GUEST_ID <= id < task.lobby.next_id,
        id == HOST_ID ==> task.lobby.members == Set::<u32>::empty(),
        task.stage is Joining,
        task.stage->Joining_id == id,
{
}

/// Nothing is sent but to members of the lobby and to the peer that is about to join it.
pub proof fn law_sends_stay_in_the_lobby(task: TaskView, event: Event)
    requires
        task.wf(),
        task.accepts(event),
    ensures
        ({
            let (after, step) = task.step(event);
            step.next matches Next::Send(outgoing) ==> {
                ||| after.lobby.members.contains(outgoing.to)
                ||| after.stage matches StageView::Joining { id, .. } && outgoing.to == id
            }
        }),
{
    lemma_ascending(task.lobby.members);
    assert forall|id: u32, i: int|
        0 <= i < ascending(task.lobby.members.remove(id)).len() implies task.lobby.members.remove(
        id,
    ).contains(#[trigger] ascending(task.lobby.members.remove(id))[i]) by {
        lemma_ascending(task.lobby.members.remove(id));
    }
}

/// Whatever a step asks for, the lobby takes every answer to it: each outcome of a send or of a
/// parse, and, when it waits, each message of a peer, the end of the newcomers, and a newcomer as
/// long as there is an id left. After the end it takes nothing.
pub proof fn law_answers_are_accepted(task: TaskView, event: Event, answer: Event)
    requires
        task.wf(),
        task.accepts(event),
    ensures
        ({
            let (after, step) = task.step(event);
            after.accepts(answer) <==> match step.next {
                Next::Send(_) => answer is Sent,
                Next::Parse(_) => answer is Parsed,
                Next::Wait => match answer {
                    Event::NewPeersClosed => true,
                    Event::Work(item) => item is NewPeer ==> after.lobby.next_id < u32::MAX,
                    _ => false,
                },
                Next::Exit(..) => false,
            }
        }),
{
}

/// Whether the event takes the host away: its connection is lost, it sends binary data, or it
/// sends a text that is no relay message.
pub open spec fn host_is_gone(task: TaskView, event: Event) -> bool {
    match (task.stage, event) {
        (StageView::Idle, Event::Work(LobbyWorkItem::PeerMessage(id, received))) => id == HOST_ID
            && match received {
            None => true,
            Some(Err(_)) => true,
            Some(Ok(frame)) => frame is Binary,
        },
        (StageView::Parsing { from }, Event::Parsed(parsed)) => from == HOST_ID && parsed is Err,
        _ => false,
    }
}

/// Whether the event keeps the host from getting in.
pub open spec fn host_is_kept_out(task: TaskView, event: Event) -> bool {
    &&& event matches Event::Sent(Err(_))
    &&& match task.stage {
        StageView::Announcing => true,
        StageView::Joining { id, .. } => id == HOST_ID,
        _ => false,
    }
}

/// A lobby ends when its host cannot be let in or is gone, or when no more peers can come. No
/// guest can end it, and nothing else does.
pub proof fn law_what_ends_a_lobby(task: TaskView, event: Event)
    requires
        task.wf(),
        task.accepts(event),
    ensures
        task.step(event).1.next is Exit <==> host_is_kept_out(task, event) || host_is_gone(
            task,
            event,
        ) || event is NewPeersClosed,
        task.step(event).1.next is Exit <==> task.step(event).0.stage is Finished,
        task.step(event).1.next matches Next::Exit(exit, _) ==> (exit.spec_result() is Err
            <==> host_is_kept_out(task, event)),
{
}

/// Whether the event takes the guest `id` away.
pub open spec fn guest_is_gone(task: TaskView, event: Event, id: u32) -> bool {
    &&& id != HOST_ID
    &&& match (task.stage, event) {
        (StageView::Idle, Event::Work(LobbyWorkItem::PeerMessage(from, received))) => from == id
            && match received {
            None => true,
            Some(Err(_)) => true,
            Some(Ok(frame)) => frame is Binary,
        },
        (StageView::Parsing { from }, Event::Parsed(parsed)) => from == id && parsed is Err,
        _ => false,
    }
}

/// A guest is hung up on when it is gone by its own doing, and for no other reason; in
/// particular no failed send and no message of another peer costs it its place.
pub proof fn law_who_is_hung_up_on(task: TaskView, event: Event, id: u32)
    requires
        task.wf(),
        task.accepts(event),
        id != HOST_ID,
    ensures
        task.step(event).1.effect.hung_up_on() == Some(id) <==> guest_is_gone(task, event, id),
        task.lobby.members.contains(id) && !task.step(event).0.lobby.members.contains(id)
            ==> guest_is_gone(task, event, id),
{
}

/// A newcomer learns its id first, and then it and each member learn of each other, each once.
pub proof fn law_introductions(lobby: LobbyView, id: u32, member: u32)
    requires
        lobby.wf(),
        lobby.members.contains(member),
        !lobby.members.contains(id),
    ensures
        ({
            let sends = join_sends(id, lobby.mesh, lobby.ordered());
            let to_member = Outgoing {
                to: member,
                message: LobbyMessage::PeerConnect { peer_id: id },
            };
            let to_newcomer = Outgoing {
                to: id,
                message: LobbyMessage::PeerConnect { peer_id: member },
            };
            &&& sends.len() == 1 + 2 * lobby.members.len()
            &&& sends[0] == (Outgoing {
                to: id,
                message: LobbyMessage::Id { assigned: id, mesh: lobby.mesh },
            })
            &&& exists|i: int|
                {
                    &&& 0 < i < sends.len() - 1
                    &&& #[trigger] sends[i] == to_member
                    &&& sends[i + 1] == to_newcomer
                    &&& forall|j: int|
                        0 <= j < sends.len() && j != i ==> #[trigger] sends[j] != to_member
                    &&& forall|j: int|
                        0 <= j < sends.len() && j != i + 1 ==> #[trigger] sends[j] != to_newcomer
                }
        }),
{
    lemma_ascending(lobby.members);
    let order = lobby.ordered();
    let sends = join_sends(id, lobby.mesh, order);
    assert(order.contains(member));
    let k = choose|k: int| 0 <= k < order.len() && order[k] == member;
    let i = 1 + 2 * k;
    assert(sends[i] == introductions(id, order)[2 * k]);
    assert(sends[i + 1] == introductions(id, order)[2 * k + 1]);
    assert forall|j: int| 0 <= j < sends.len() && j != i implies #[trigger] sends[j].to != member
        by {
        if j > 0 {
            let n = j - 1;
            assert(sends[j] == introductions(id, order)[n]);
            if n % 2 == 0 {
                assert(order[n / 2] != member);
            }
        }
    }
    assert forall|j: int| 0 <= j < sends.len() && j != i + 1 implies #[trigger] sends[j] != (
    Outgoing { to: id, message: LobbyMessage::PeerConnect { peer_id: member } }) by {
        if j > 0 {
            let n = j - 1;
            assert(sends[j] == introductions(id, order)[n]);
            if n % 2 == 0 {
                assert(lobby.members.contains(order[n / 2]));
            } else {
                assert(order[n / 2] != member);
            }
        }
    }
}

/// Every member that remains is told once who has left, those with smaller ids first, and nobody
/// else is told anything.
pub proof fn law_farewells(lobby: LobbyView, id: u32)
    requires
        lobby.wf(),
        lobby.members.contains(id),
    ensures
        ({
            let remaining = lobby.members.remove(id);
            let sends = leave_sends(id, ascending(remaining));
            &&& sends.len() == remaining.len()
            &&& forall|i: int|
                0 <= i < sends.len() ==> {
                    &&& remaining.contains((#[trigger] sends[i]).to)
                    &&& sends[i].message == LobbyMessage::PeerDisconnect { peer_id: id }
                }
            &&& forall|i: int, j: int| 0 <= i < j < sends.len() ==> sends[i].to < sends[j].to
            &&& forall|member: u32| #[trigger]
                remaining.contains(member) ==> exists|i: int|
                    0 <= i < sends.len() && (#[trigger] sends[i]).to == member
        }),
{
    let remaining = lobby.members.remove(id);
    let order = ascending(remaining);
    let sends = leave_sends(id, order);
    lemma_ascending(remaining);
    assert forall|member: u32| #[trigger] remaining.contains(member) implies exists|i: int|
        0 <= i < sends.len() && (#[trigger] sends[i]).to == member by {
        assert(order.contains(member));
        let k = choose|k: int| 0 <= k < order.len() && order[k] == member;
        assert(sends[k].to == member);
    }
}

/// A message that a member wants relayed to a member goes to that member alone, unaltered and
/// under the sender's id, and the lobby stays as it is, whether or not the send succeeds.
pub proof fn law_relay(
    task: TaskView,
    from: u32,
    text: String,
    message: RelayMessage,
    sent: Result<(), String>,
)
    requires
        task.wf(),
        task.stage is Idle,
        task.lobby.members.contains(message.dest_id),
    ensures
        ({
            let (reading, read) = task.step(
                Event::Work(LobbyWorkItem::PeerMessage(from, Some(Ok(Frame::Text(text))))),
            );
            let (relaying, relay) = reading.step(Event::Parsed(Ok(message)));
            let (after, done) = relaying.step(Event::Sent(sent));
            &&& read == (Step { effect: Effect::Nothing, next: Next::Parse(text) })
            &&& relay == (Step {
                effect: Effect::Nothing,
                next: Next::Send(
                    Outgoing {
                        to: message.dest_id,
                        message: LobbyMessage::RelayedMessage {
                            kind: message.kind,
                            data: message.data,
                            peer_id: from,
                        },
                    },
                ),
            })
            &&& done == (Step {
                effect: match sent {
                    Ok(_) => Effect::Nothing,
                    Err(err) => Effect::Note(Attempt::Relay, LobbyErr::SendFailed(err)),
                },
                next: Next::Wait,
            })
            &&& after == task
        }),
{
}

/// A message for somebody who is not in the lobby is dropped, and the lobby stays as it is.
pub proof fn law_relay_to_a_stranger(
    task: TaskView,
    from: u32,
    text: String,
    message: RelayMessage,
)
    requires
        task.wf(),
        task.stage is Idle,
        !task.lobby.members.contains(message.dest_id),
    ensures
        ({
            let (reading, read) = task.step(
                Event::Work(LobbyWorkItem::PeerMessage(from, Some(Ok(Frame::Text(text))))),
            );
            reading.step(Event::Parsed(Ok(message))) == (
                task,
                Step {
                    effect: Effect::Note(Attempt::Relay, LobbyErr::NoSuchPeer(message.dest_id)),
                    next: Next::Wait,
                },
            )
        }),
{
}

/// The state after `n` successful sends.
pub open spec fn after_sends(task: TaskView, n: nat) -> TaskView
    decreases n,
{
    if n == 0 {
        task
    } else {
        after_sends(task, (n - 1) as nat).step(Event::Sent(Ok(()))).0
    }
}

/// A peer that is joining is a member once all that is left was sent, in order, and not before.
proof fn lemma_joining(task: TaskView, id: u32, rest: Seq<Outgoing>, n: nat)
    requires
        task.stage == (StageView::Joining { id, rest }),
        n <= rest.len(),
    ensures
        after_sends(task, n) == (TaskView {
            lobby: task.lobby,
            stage: StageView::Joining { id, rest: rest.skip(n as int) },
        }),
        n < rest.len() ==> after_sends(task, n).step(Event::Sent(Ok(()))).1 == (Step {
            effect: Effect::Nothing,
            next: Next::Send(rest[n as int]),
        }),
        n == rest.len() ==> after_sends(task, n).step(Event::Sent(Ok(()))) == waiting(
            task.lobby.with_member(id),
            Effect::Listen(id),
        ),
    decreases n,
{
    if n == 0 {
        assert(rest.skip(0) =~= rest);
    } else {
        lemma_joining(task, id, rest, (n - 1) as nat);
        assert(rest.skip(n - 1).drop_first() =~= rest.skip(n as int));
    }
}

/// A newcomer joins by exactly the messages that its joining takes, in their order: as long as
/// each is sent it is followed by the next, and after the last one the newcomer is a member.
pub proof fn law_joining_takes_its_sends(task: TaskView, n: nat)
    requires
        task.wf(),
        task.stage is Idle,
        task.lobby.next_id < u32::MAX,
    ensures
        ({
            let id = task.lobby.next_id;
            let sends = join_sends(id, task.lobby.mesh, task.lobby.ordered());
            let (begun, first) = task.step(Event::Work(LobbyWorkItem::NewPeer));
            &&& first == (Step { effect: Effect::Nothing, next: Next::Send(sends[0]) })
            &&& n < sends.len() ==> after_sends(begun, n).lobby == (LobbyView {
                next_id: (id + 1) as u32,
                ..task.lobby
            })
            &&& n < sends.len() - 1 ==> after_sends(begun, n).step(Event::Sent(Ok(()))).1 == (Step {
                effect: Effect::Nothing,
                next: Next::Send(sends[n as int + 1]),
            })
            &&& n == sends.len() - 1 ==> after_sends(begun, n).step(Event::Sent(Ok(()))) == (
                TaskView {
                    lobby: LobbyView {
                        next_id: (id + 1) as u32,
                        members: task.lobby.members.insert(id),
                        ..task.lobby
                    },
                    stage: StageView::Idle,
                },
                Step { effect: Effect::Listen(id), next: Next::Wait },
            )
        }),
{
    let id = task.lobby.next_id;
    let sends = join_sends(id, task.lobby.mesh, task.lobby.ordered());
    let begun = task.step(Event::Work(LobbyWorkItem::NewPeer)).0;
    if n <= sends.len() - 1 {
        lemma_joining(begun, id, sends.drop_first(), n);
    }
}

/// A guest that cannot be sent one of the messages of its joining, or of which a member cannot
/// be told, is turned away. Its id is used up, and nothing else has changed.
pub proof fn law_failed_joining(task: TaskView, n: nat, err: String)
    requires
        task.wf(),
        task.stage is Idle,
        task.lobby.next_id < u32::MAX,
        n < join_sends(task.lobby.next_id, task.lobby.mesh, task.lobby.ordered()).len(),
    ensures
        ({
            let begun = task.step(Event::Work(LobbyWorkItem::NewPeer)).0;
            after_sends(begun, n).step(Event::Sent(Err(err))) == (
                TaskView {
                    lobby: LobbyView { next_id: (task.lobby.next_id + 1) as u32, ..task.lobby },
                    stage: StageView::Idle,
                },
                Step {
                    effect: Effect::Note(Attempt::Join, LobbyErr::SendFailed(err)),
                    next: Next::Wait,
                },
            )
        }),
{
    let id = task.lobby.next_id;
    let sends = join_sends(id, task.lobby.mesh, task.lobby.ordered());
    let begun = task.step(Event::Work(LobbyWorkItem::NewPeer)).0;
    lemma_joining(begun, id, sends.drop_first(), n);
}

/// The host of a new lobby is told the lobby's name and then its own id, which is always the
/// same, and is then the only member.
pub proof fn law_host_comes_first(name: String, mesh: bool)
    ensures
        ({
            let (greeting, greeted) = created(name, mesh).step(Event::Sent(Ok(())));
            let (open, opened) = greeting.step(Event::Sent(Ok(())));
            &&& created(name, mesh).wf()
            &&& greeted.next == Next::Send(
                Outgoing {
                    to: HOST_ID,
                    message: LobbyMessage::Id { assigned: HOST_ID, mesh },
                },
            )
            &&& opened == (Step { effect: Effect::Listen(HOST_ID), next: Next::Wait })
            &&& open.stage == StageView::Idle
            &&& open.lobby.name == name
            &&& open.lobby.mesh == mesh
            &&& open.lobby.members == set![HOST_ID]
            &&& open.lobby.next_id == FIRST_GUEST_ID
        }),
{
    lemma_ascending(Set::empty());
    assert(ascending(Set::empty()) =~= Seq::<u32>::empty());
    let sends = join_sends(HOST_ID, mesh, ascending(Set::empty()));
    assert(sends.drop_first() =~= Seq::<Outgoing>::empty());
}

/// After a guest has gone, the remaining members are told one after the other, as long as each
/// send succeeds, and then the lobby waits for work again.
pub proof fn law_leaving_takes_its_sends(task: TaskView, event: Event, id: u32, n: nat)
    requires
        task.wf(),
        task.accepts(event),
        task.lobby.members.contains(id),
        guest_is_gone(task, event, id),
    ensures
        ({
            let lobby = task.lobby.without_member(id);
            let sends = leave_sends(id, lobby.ordered());
            let (begun, first) = task.step(event);
            &&& sends.len() > 0
            &&& begun.lobby == (LobbyView {
                members: task.lobby.members.remove(id),
                ..task.lobby
            })
            &&& first.next == Next::Send(sends[0])
            &&& n < sends.len() ==> after_sends(begun, n).lobby == begun.lobby
            &&& n < sends.len() - 1 ==> after_sends(begun, n).step(Event::Sent(Ok(()))).1 == (Step {
                effect: Effect::Nothing,
                next: Next::Send(sends[n as int + 1]),
            })
            &&& n == sends.len() - 1 ==> after_sends(begun, n).step(Event::Sent(Ok(()))) == (
                TaskView { lobby: begun.lobby, stage: StageView::Idle },
                Step { effect: Effect::Nothing, next: Next::Wait },
            )
        }),
{
    let lobby = task.lobby.without_member(id);
    let sends = leave_sends(id, lobby.ordered());
    lemma_ascending(lobby.members);
    assert(lobby.ordered().contains(HOST_ID));
    let begun = task.step(event).0;
    if n < sends.len() {
        lemma_leaving(begun, sends.drop_first(), n);
    }
}

/// If a member cannot be told that a guest has gone, those after it are not told either. The
/// guest is gone nevertheless, and everybody else stays.
pub proof fn law_failed_leaving(task: TaskView, event: Event, id: u32, n: nat, err: String)
    requires
        task.wf(),
        task.accepts(event),
        task.lobby.members.contains(id),
        guest_is_gone(task, event, id),
        n < leave_sends(id, task.lobby.without_member(id).ordered()).len(),
    ensures
        after_sends(task.step(event).0, n).step(Event::Sent(Err(err))) == (
            TaskView {
                lobby: LobbyView { members: task.lobby.members.remove(id), ..task.lobby },
                stage: StageView::Idle,
            },
            Step {
                effect: Effect::Note(Attempt::Leave, LobbyErr::SendFailed(err)),
                next: Next::Wait,
            },
        ),
{
    let sends = leave_sends(id, task.lobby.without_member(id).ordered());
    lemma_leaving(task.step(event).0, sends.drop_first(), n);
}

/// Members are told that a peer is gone one after the other, until none is left to be told.
proof fn lemma_leaving(task: TaskView, rest: Seq<Outgoing>, n: nat)
    requires
        task.stage == (StageView::Leaving { rest }),
        n <= rest.len(),
    ensures
        after_sends(task, n) == (TaskView {
            lobby: task.lobby,
            stage: StageView::Leaving { rest: rest.skip(n as int) },
        }),
        after_sends(task, n).step(Event::Sent(Ok(()))) == leaving(
            task.lobby,
            Effect::Nothing,
            rest.skip(n as int),
        ),
    decreases n,
{
    if n == 0 {
        assert(rest.skip(0) =~= rest);
    } else {
        lemma_leaving(task, rest, (n - 1) as nat);
        assert(rest.skip(n - 1).drop_first() =~= rest.skip(n as int));
    }
}

/// The state after a series of events.
pub open spec fn run(task: TaskView, events: Seq<Event>) -> TaskView
    decreases events.len(),
{
    if events.len() == 0 {
        task
    } else {
        run(task, events.drop_last()).step(events.last()).0
    }
}

/// Whether each event of a series may be reported when its turn comes.
pub open spec fn run_accepts(task: TaskView, events: Seq<Event>) -> bool
    decreases events.len(),
{
    events.len() > 0 ==> {
        &&& run_accepts(task, events.drop_last())
        &&& run(task, events.drop_last()).accepts(events.last())
    }
}

/// Whatever happens in a lobby, it keeps its invariant, its name and its topology; in particular
/// its host is a member whenever the lobby waits for work.
pub proof fn law_runs(task: TaskView, events: Seq<Event>)
    requires
        task.wf(),
        run_accepts(task, events),
    ensures
        run(task, events).wf(),
        run(task, events).lobby.name == task.lobby.name,
        run(task, events).lobby.mesh == task.lobby.mesh,
        run(task, events).lobby.next_id >= task.lobby.next_id,
        run(task, events).stage is Idle ==> run(task, events).lobby.members.contains(HOST_ID),
    decreases events.len(),
{
    if events.len() > 0 {
        law_runs(task, events.drop_last());
        law_steps_keep_the_invariant(run(task, events.drop_last()), events.last());
        law_steps_keep_the_lobby(run(task, events.drop_last()), events.last());
    }
}

/// No id is assigned twice: a guest that comes later gets a larger id than every guest before,
/// whether or not those were let in and whether or not they are still there.
pub proof fn law_ids_are_never_reused(task: TaskView, events: Seq<Event>)
    requires
        task.wf(),
        task.stage is Idle,
        task.lobby.next_id < u32::MAX,
        run_accepts(task.step(Event::Work(LobbyWorkItem::NewPeer)).0, events),
    ensures
        ({
            let (begun, _) = task.step(Event::Work(LobbyWorkItem::NewPeer));
            let later = run(begun, events);
            &&& begun.stage is Joining
            &&& begun.stage->Joining_id == task.lobby.next_id
            &&& later.stage is Idle && later.lobby.next_id < u32::MAX ==> {
                let (next, _) = later.step(Event::Work(LobbyWorkItem::NewPeer));
                next.stage is Joining && next.stage->Joining_id > begun.stage->Joining_id
            }
        }),
{
    let event = Event::Work(LobbyWorkItem::NewPeer);
    law_steps_keep_the_invariant(task, event);
    law_runs(task.step(event).0, events);
}

/// A lobby that was created can be joined under its name, and the others as before.
pub proof fn law_created_lobbies_can_be_joined(
    state: StateView,
    name: Seq<char>,
    owner: u32,
    other: Seq<char>,
)
    ensures
        state.with_lobby(name, owner).lobbies.contains_key(name),
        state.with_lobby(name, owner).lobbies[name] == owner,
        other != name ==> {
            &&& state.with_lobby(name, owner).lobbies.contains_key(other)
                <==> state.lobbies.contains_key(other)
            &&& state.lobbies.contains_key(other) ==> state.with_lobby(
                name,
                owner,
            ).lobbies[other] == state.lobbies[other]
        },
{
}

/// Whatever the server does keeps its invariant: each lobby belongs to one connection, and no two
/// lobbies to the same.
pub proof fn law_lobbies_have_their_own_owners(
    state: StateView,
    message: InitialMessage,
    ids: Seq<u32>,
    peer: NewPeer,
    mesh: bool,
    names: Seq<String>,
    gone: Seq<char>,
)
    requires
        state.wf(),
    ensures
        state.without_lobby(gone).wf(),
        ({
            let (after, result) = state.identify(message, first_free_id(ids, state.peer_ids));
            &&& after.wf()
            &&& result matches Ok(progress) ==> after.fits(progress)
        }),
        state.fits(Progress::Unnamed { peer, mesh }) ==> {
            let (after, result) = state.name_lobby(
                peer,
                mesh,
                first_free_name(names, state.lobbies),
            );
            &&& after.wf()
            &&& result matches Ok(progress) && after.fits(progress)
        },
{
    law_first_free_id(ids, state.peer_ids);
    law_first_free_name(names, state.lobbies);
    assert(state.without_lobby(gone).wf()) by {
        let after = state.without_lobby(gone);
        assert forall|name: Seq<char>| #[trigger]
            after.lobbies.contains_key(name) implies after.peer_ids.contains(
            after.lobbies[name],
        ) by {
            assert(state.lobbies.contains_key(name));
        }
        assert forall|a: Seq<char>, b: Seq<char>|
            #![trigger after.lobbies[a], after.lobbies[b]]
            after.lobbies.contains_key(a) && after.lobbies.contains_key(b) && after.lobbies[a]
                == after.lobbies[b] implies a == b by {
            assert(state.lobbies[a] == state.lobbies[b]);
        }
    }
}

/// What other connections do in the meantime does not stand in the way of a connection: how far
/// it has come still fits when another one gets an id or a lobby of its own, or a lobby is gone.
pub proof fn law_connections_do_not_interfere(
    state: StateView,
    progress: Progress,
    other: u32,
    name: Seq<char>,
)
    requires
        state.fits(progress),
    ensures
        state.with_peer(other).fits(progress),
        state.without_lobby(name).fits(progress),
        !(progress matches Progress::Unnamed { peer, .. } && peer.id == other) ==> state.with_lobby(
            name,
            other,
        ).fits(progress),
{
    assert forall|n: Seq<char>| #[trigger]
        state.without_lobby(name).lobbies.contains_key(n) implies state.lobbies.contains_key(n)
        && state.without_lobby(name).lobbies[n] == state.lobbies[n] by {
    }
    assert forall|n: Seq<char>| #[trigger]
        state.with_lobby(name, other).lobbies.contains_key(n) && n != name implies
        state.lobbies.contains_key(n) && state.with_lobby(name, other).lobbies[n]
        == state.lobbies[n] by {
    }
}

/// The drawing of ids has to go on exactly if all that were drawn are in use; else it leads to the
/// first that is not.
pub proof fn law_first_free_id(drawn: Seq<u32>, used: Set<u32>)
    ensures
        match first_free_id(drawn, used) {
            Drawing::Found(id) => {
                &&& !used.contains(id)
                &&& exists|i: int|
                    0 <= i < drawn.len() && #[trigger] drawn[i] == id && (forall|j: int|
                        0 <= j < i ==> used.contains(#[trigger] drawn[j]))
            },
            Drawing::DrawOn => forall|i: int|
                0 <= i < drawn.len() ==> used.contains(#[trigger] drawn[i]),
        },
    decreases drawn.len(),
{
    if drawn.len() > 0 {
        let rest = drawn.drop_first();
        law_first_free_id(rest, used);
        if !used.contains(drawn[0]) {
        } else {
            match first_free_id(rest, used) {
                Drawing::Found(id) => {
                    let i = choose|i: int|
                        0 <= i < rest.len() && #[trigger] rest[i] == id && (forall|j: int|
                            0 <= j < i ==> used.contains(#[trigger] rest[j]));
                    assert(drawn[i + 1] == id);
                    assert forall|j: int| 0 <= j < i + 1 implies used.contains(
                        #[trigger] drawn[j],
                    ) by {
                        if j > 0 {
                            assert(used.contains(rest[j - 1]));
                        }
                    }
                },
                Drawing::DrawOn => {
                    assert forall|i: int| 0 <= i < drawn.len() implies used.contains(
                        #[trigger] drawn[i],
                    ) by {
                        if i > 0 {
                            assert(used.contains(rest[i - 1]));
                        }
                    }
                },
            }
        }
    }
}

/// The drawing of names has to go on exactly if all that were drawn are taken; else it leads to
/// the first that is not.
pub proof fn law_first_free_name(drawn: Seq<String>, lobbies: Map<Seq<char>, u32>)
    ensures
        match first_free_name(drawn, lobbies) {
            Drawing::Found(name) => {
                &&& !lobbies.contains_key(name@)
                &&& exists|i: int|
                    0 <= i < drawn.len() && #[trigger] drawn[i] == name && (forall|j: int|
                        0 <= j < i ==> lobbies.contains_key((#[trigger] drawn[j])@))
            },
            Drawing::DrawOn => forall|i: int|
                0 <= i < drawn.len() ==> lobbies.contains_key((#[trigger] drawn[i])@),
        },
    decreases drawn.len(),
{
    if drawn.len() > 0 {
        let rest = drawn.drop_first();
        law_first_free_name(rest, lobbies);
        if !lobbies.contains_key(drawn[0]@) {
        } else {
            match first_free_name(rest, lobbies) {
                Drawing::Found(name) => {
                    let i = choose|i: int|
                        0 <= i < rest.len() && #[trigger] rest[i] == name && (forall|j: int|
                            0 <= j < i ==> lobbies.contains_key((#[trigger] rest[j])@));
                    assert(drawn[i + 1] == name);
                    assert forall|j: int| 0 <= j < i + 1 implies lobbies.contains_key(
                        (#[trigger] drawn[j])@,
                    ) by {
                        if j > 0 {
                            assert(lobbies.contains_key(rest[j - 1]@));
                        }
                    }
                },
                Drawing::DrawOn => {
                    assert forall|i: int| 0 <= i < drawn.len() implies lobbies.contains_key(
                        (#[trigger] drawn[i])@,
                    ) by {
                        if i > 0 {
                            assert(lobbies.contains_key(rest[i - 1]@));
                        }
                    }
                },
            }
        }
    }
}

/// To draw on is to begin with the draws that are left: two series of draws, one after the other,
/// lead to what the whole series leads to.
pub proof fn law_drawing_on(first: Seq<u32>, then_drawn: Seq<u32>, used: Set<u32>)
    ensures
        first_free_id(first + then_drawn, used) == match first_free_id(first, used) {
            Drawing::Found(id) => Drawing::Found(id),
            Drawing::DrawOn => first_free_id(then_drawn, used),
        },
    decreases first.len(),
{
    if first.len() == 0 {
        assert(first + then_drawn =~= then_drawn);
    } else {
        assert((first + then_drawn).drop_first() =~= first.drop_first() + then_drawn);
        law_drawing_on(first.drop_first(), then_drawn, used);
    }
}

/// The same of names.
pub proof fn law_drawing_names_on(
    first: Seq<String>,
    then_drawn: Seq<String>,
    lobbies: Map<Seq<char>, u32>,
)
    ensures
        first_free_name(first + then_drawn, lobbies) == match first_free_name(first, lobbies) {
            Drawing::Found(name) => Drawing::Found(name),
            Drawing::DrawOn => first_free_name(then_drawn, lobbies),
        },
    decreases first.len(),
{
    if first.len() == 0 {
        assert(first + then_drawn =~= then_drawn);
    } else {
        assert((first + then_drawn).drop_first() =~= first.drop_first() + then_drawn);
        law_drawing_names_on(first.drop_first(), then_drawn, lobbies);
    }
}

/// The work that is handed out in a series of events.
pub open spec fn handed_out(task: TaskView, events: Seq<Event>) -> Seq<CleanupWorkItem>
    decreases events.len(),
{
    if events.len() == 0 {
        seq![]
    } else {
        let before = handed_out(task, events.drop_last());
        match run(task, events.drop_last()).step(events.last()).1.next {
            Next::Exit(_, work) => before.push(work),
            _ => before,
        }
    }
}

/// A lobby is deleted once, under the name that it was given: at its end, however that comes, or
/// when it is given up before. As long as it lives nothing is deleted, and after the end it is
/// not deleted again.
pub proof fn law_a_lobby_is_deleted_once(name: String, mesh: bool, events: Seq<Event>)
    requires
        run_accepts(created(name, mesh), events),
    ensures
        ({
            let task = run(created(name, mesh), events);
            let deleted = seq![CleanupWorkItem::DeleteLobby(name)];
            &&& task.stage is Finished ==> handed_out(created(name, mesh), events) == deleted
                && task.abandoned() is None
            &&& !(task.stage is Finished) ==> handed_out(created(name, mesh), events)
                == Seq::<CleanupWorkItem>::empty() && task.abandoned() == Some(deleted[0])
        }),
    decreases events.len(),
{
    law_host_comes_first(name, mesh);
    law_runs(created(name, mesh), events);
    if events.len() > 0 {
        let before = run(created(name, mesh), events.drop_last());
        law_a_lobby_is_deleted_once(name, mesh, events.drop_last());
        law_runs(created(name, mesh), events.drop_last());
        law_what_ends_a_lobby(before, events.last());
        assert(Seq::<CleanupWorkItem>::empty().push(CleanupWorkItem::DeleteLobby(name)) =~= seq![
            CleanupWorkItem::DeleteLobby(name),
        ]);
    }
}

/// Whatever happens in a lobby between its creation and its end, doing the work that is then left
/// leaves the server with the lobbies that it had before, and no others.
pub proof fn law_lobbies_are_cleared_away(
    state: StateView,
    name: String,
    owner: u32,
    mesh: bool,
    events: Seq<Event>,
)
    requires
        !state.lobbies.contains_key(name@),
        run_accepts(created(name, mesh), events),
        run(created(name, mesh), events).stage is Finished,
    ensures
        state.with_lobby(name@, owner).without_lobby(
            handed_out(created(name, mesh), events)[0].lobby_name(),
        ) == state,
{
    law_a_lobby_is_deleted_once(name, mesh, events);
    assert(state.lobbies.insert(name@, owner).remove(name@) =~= state.lobbies);
}

/// What a connection amounts to that is read until it has said something.
pub open spec fn opening_after(received: Seq<Received>) -> Opening
    decreases received.len(),
{
    if received.len() == 0 {
        Opening::ReadOn
    } else if opening_of(received[0]) is ReadOn {
        opening_after(received.drop_first())
    } else {
        opening_of(received[0])
    }
}

/// Pings and pongs at the beginning of a connection make no difference: what counts is the first
/// that comes after them.
pub proof fn law_pings_make_no_difference(pings: Seq<Received>, first: Received)
    requires
        forall|i: int|
            0 <= i < pings.len() ==> (#[trigger] pings[i] == Some(Ok::<Frame, String>(Frame::Ping))
                || pings[i] == Some(Ok::<Frame, String>(Frame::Pong))),
    ensures
        opening_after(pings.push(first)) == opening_of(first),
    decreases pings.len(),
{
    if pings.len() == 0 {
        assert(pings.push(first).drop_first() =~= Seq::<Received>::empty());
        assert(opening_after(Seq::<Received>::empty()) is ReadOn);
    } else {
        assert(pings.push(first)[0] == pings[0]);
        assert(pings.push(first).drop_first() =~= pings.drop_first().push(first));
        law_pings_make_no_difference(pings.drop_first(), first);
    }
}

} // verus!
