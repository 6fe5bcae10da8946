//! The life of a lobby, from its creation to its closing.
//!
//! A [`LobbyTask`] never does anything itself. Each [`Step`] tells the application what to do
//! next, and what comes of that is the next [`Event`].

use std::collections::VecDeque;
use vstd::prelude::*;
use crate::lobby::{
    join_sends, leave_sends, parsed_handling, received_handling, Attempt, CloseLobby, Handling,
    HandlingView, Lobby, LobbyErr, LobbyView, LobbyWorkItem, WorkItemErr, WorkItemOk,
    FIRST_GUEST_ID, HOST_ID,
};
use crate::message::{LobbyMessage, Outgoing, RelayMessage};
use crate::order::lemma_ascending;
use crate::server::CleanupWorkItem;

verus! {

/// What has happened since the last step.
#[derive(Debug, PartialEq, Eq)]
pub enum Event {
    /// The message went out, or could not be sent.
    Sent(Result<(), String>),
    /// The text was read as a relay message, or is none.
    Parsed(Result<RelayMessage, String>),
    /// There is work.
    Work(LobbyWorkItem),
    /// No more peers can come.
    NewPeersClosed,
}

/// What a step changes in what the application has to listen to.
#[derive(Debug, PartialEq, Eq)]
pub enum Effect {
    Nothing,
    /// The newcomer has joined under this id; its messages are awaited from now on.
    Listen(u32),
    /// The peer with this id is hung up on.
    HangUp(u32, LobbyErr),
    /// The peer with this id is hung up on for the first error. It was no member, so that letting
    /// it go failed with the second error.
    HangUpStranger(u32, LobbyErr, LobbyErr),
    /// The attempt failed, with no further consequence but that a newcomer is turned away.
    Note(Attempt, LobbyErr),
}

impl Effect {
    /// The peer that is hung up on.
    pub open spec fn hung_up_on(self) -> Option<u32> {
        match self {
            Effect::HangUp(id, _) => Some(id),
            Effect::HangUpStranger(id, _, _) => Some(id),
            _ => None,
        }
    }
}

/// Why a lobby came to its end.
#[derive(Debug, PartialEq, Eq)]
pub enum Exit {
    /// The host could not be let in.
    Failed(LobbyErr),
    /// The connection to the host was lost.
    HostLost(LobbyErr),
    /// The host had to go.
    HostLeft,
    /// No more peers can come.
    NewPeersClosed,
}

/// What the application has to do next.
#[derive(Debug, PartialEq, Eq)]
pub enum Next {
    /// Send the message, and report [`Event::Sent`].
    Send(Outgoing),
    /// Read the text as a relay message, and report [`Event::Parsed`].
    Parse(String),
    /// Wait for [`Event::Work`] or [`Event::NewPeersClosed`].
    Wait,
    /// Hang up on everybody, and do the work that is left.
    Exit(Exit, CleanupWorkItem),
}

/// What the application has to do, the effect first.
#[derive(Debug, PartialEq, Eq)]
pub struct Step {
    pub effect: Effect,
    pub next: Next,
}

impl Exit {
    /// Whether the lobby ended as it should.
    pub open spec fn spec_result(self) -> Result<(), LobbyErr> {
        match self {
            Exit::Failed(err) => Err(err),
            _ => Ok(()),
        }
    }

    /// Whether the lobby ended as it should.
    pub fn result(self) -> (result: Result<(), LobbyErr>)
        ensures
            result == self.spec_result(),
    {
        match self {
            Exit::Failed(err) => Err(err),
            Exit::HostLost(_) | Exit::HostLeft | Exit::NewPeersClosed => Ok(()),
        }
    }
}

/// What a lobby is about.
enum Stage {
    /// The host is told the name of its lobby.
    Announcing,
    /// The peer `id` is joining; these messages are still to be sent after the current one.
    Joining { id: u32, rest: VecDeque<Outgoing> },
    /// Nothing is going on.
    Idle,
    /// A text of the peer `from` is being read.
    Parsing { from: u32 },
    /// A message is being relayed.
    Relaying,
    /// A peer has left; these messages are still to be sent after the current one.
    Leaving { rest: VecDeque<Outgoing> },
    /// The lobby is closed.
    Finished,
}

/// The mathematical counterpart of what a lobby is about.
#[verifier::ext_equal]
pub enum StageView {
    Announcing,
    Joining { id: u32, rest: Seq<Outgoing> },
    Idle,
    Parsing { from: u32 },
    Relaying,
    Leaving { rest: Seq<Outgoing> },
    Finished,
}

impl Stage {
    spec fn view(&self) -> StageView {
        match *self {
            Stage::Announcing => StageView::Announcing,
            Stage::Joining { id, rest } => StageView::Joining { id, rest: rest@ },
            Stage::Idle => StageView::Idle,
            Stage::Parsing { from } => StageView::Parsing { from },
            Stage::Relaying => StageView::Relaying,
            Stage::Leaving { rest } => StageView::Leaving { rest: rest@ },
            Stage::Finished => StageView::Finished,
        }
    }
}

/// The state of a lobby and of what it is about.
#[verifier::ext_equal]
pub struct TaskView {
    pub lobby: LobbyView,
    pub stage: StageView,
}

/// The state of a new lobby.
pub open spec fn created(name: String, mesh: bool) -> TaskView {
    TaskView {
        lobby: LobbyView { name, mesh, members: Set::empty(), next_id: FIRST_GUEST_ID },
        stage: StageView::Announcing,
    }
}

/// A lobby waiting for work.
pub open spec fn waiting(lobby: LobbyView, effect: Effect) -> (TaskView, Step) {
    (TaskView { lobby, stage: StageView::Idle }, Step { effect, next: Next::Wait })
}

/// A lobby that has come to its end. It is to be deleted.
pub open spec fn ended(lobby: LobbyView, effect: Effect, exit: Exit) -> (TaskView, Step) {
    (
        TaskView { lobby, stage: StageView::Finished },
        Step { effect, next: Next::Exit(exit, CleanupWorkItem::DeleteLobby(lobby.name)) },
    )
}

/// The peer `id` begins to join with the first of the messages that this takes.
pub open spec fn joining(lobby: LobbyView, id: u32, sends: Seq<Outgoing>) -> (TaskView, Step) {
    (
        TaskView { lobby, stage: StageView::Joining { id, rest: sends.drop_first() } },
        Step { effect: Effect::Nothing, next: Next::Send(sends[0]) },
    )
}

/// The next of the members is told that a peer is gone, until none is left to be told.
pub open spec fn leaving(lobby: LobbyView, effect: Effect, sends: Seq<Outgoing>) -> (
    TaskView,
    Step,
) {
    if sends.len() == 0 {
        waiting(lobby, effect)
    } else {
        (
            TaskView { lobby, stage: StageView::Leaving { rest: sends.drop_first() } },
            Step { effect, next: Next::Send(sends[0]) },
        )
    }
}

/// A peer is hung up on. The lobby closes if it was the host; else the others are told.
pub open spec fn expelled(lobby: LobbyView, id: u32, err: LobbyErr) -> (TaskView, Step) {
    let effect = Effect::HangUp(id, err);
    let after = lobby.without_member(id);
    if !lobby.members.contains(id) {
        waiting(lobby, Effect::HangUpStranger(id, err, LobbyErr::NotAMember(id)))
    } else if id == HOST_ID {
        ended(after, effect, Exit::HostLeft)
    } else {
        leaving(after, effect, leave_sends(id, after.ordered()))
    }
}

/// What follows from a work item that was handled.
pub open spec fn concluded(lobby: LobbyView, result: Result<WorkItemOk, WorkItemErr>) -> (
    TaskView,
    Step,
) {
    match result {
        Ok(WorkItemOk::InsertNewPeer(id)) => waiting(lobby, Effect::Listen(id)),
        Ok(WorkItemOk::Noop) => waiting(lobby, Effect::Nothing),
        Err(WorkItemErr::NonFatal(attempt, err)) => waiting(lobby, Effect::Note(attempt, err)),
        Err(WorkItemErr::FatalForPeer(id, err)) => expelled(lobby, id, err),
        Err(WorkItemErr::FatalForLobby(err)) => ended(
            lobby,
            Effect::Nothing,
            Exit::HostLost(err),
        ),
    }
}

/// What follows from how far the handling of a work item came.
pub open spec fn handled(lobby: LobbyView, handling: HandlingView) -> (TaskView, Step) {
    match handling {
        HandlingView::Join { id, sends } => joining(lobby, id, sends),
        HandlingView::Parse { from, text } => (
            TaskView { lobby, stage: StageView::Parsing { from } },
            Step { effect: Effect::Nothing, next: Next::Parse(text) },
        ),
        HandlingView::Relay(outgoing) => (
            TaskView { lobby, stage: StageView::Relaying },
            Step { effect: Effect::Nothing, next: Next::Send(outgoing) },
        ),
        HandlingView::Done(result) => concluded(lobby, result),
    }
}

/// What follows from the outcome of a send for the peer `id` that is joining.
pub open spec fn join_sent(
    lobby: LobbyView,
    id: u32,
    rest: Seq<Outgoing>,
    sent: Result<(), String>,
) -> (TaskView, Step) {
    match sent {
        Ok(_) => if rest.len() > 0 {
            joining(lobby, id, rest)
        } else {
            waiting(lobby.with_member(id), Effect::Listen(id))
        },
        Err(err) => if id == HOST_ID {
            ended(lobby, Effect::Nothing, Exit::Failed(LobbyErr::SendFailed(err)))
        } else {
            waiting(lobby, Effect::Note(Attempt::Join, LobbyErr::SendFailed(err)))
        },
    }
}

impl TaskView {
    /// Whether the application may report the event now.
    pub open spec fn accepts(self, event: Event) -> bool {
        match self.stage {
            StageView::Announcing => event is Sent,
            StageView::Joining { .. } => event is Sent,
            StageView::Relaying => event is Sent,
            StageView::Leaving { .. } => event is Sent,
            StageView::Parsing { .. } => event is Parsed,
            StageView::Idle => match event {
                Event::NewPeersClosed => true,
                Event::Work(item) => item is NewPeer ==> self.lobby.next_id < u32::MAX,
                _ => false,
            },
            StageView::Finished => false,
        }
    }

    /// The work that is left if the lobby is given up.
    pub open spec fn abandoned(self) -> Option<CleanupWorkItem> {
        if self.stage is Finished {
            None
        } else {
            Some(CleanupWorkItem::DeleteLobby(self.lobby.name))
        }
    }

    /// The next state, and what the application has to do to get on.
    pub open spec fn step(self, event: Event) -> (TaskView, Step) {
        let lobby = self.lobby;
        match (self.stage, event) {
            (StageView::Announcing, Event::Sent(Ok(_))) => joining(
                lobby,
                HOST_ID,
                join_sends(HOST_ID, lobby.mesh, lobby.ordered()),
            ),
            (StageView::Announcing, Event::Sent(Err(err))) => ended(
                lobby,
                Effect::Nothing,
                Exit::Failed(LobbyErr::SendFailed(err)),
            ),
            (StageView::Joining { id, rest }, Event::Sent(sent)) => join_sent(
                lobby,
                id,
                rest,
                sent,
            ),
            (StageView::Idle, Event::NewPeersClosed) => ended(
                lobby,
                Effect::Nothing,
                Exit::NewPeersClosed,
            ),
            (StageView::Idle, Event::Work(LobbyWorkItem::NewPeer)) => joining(
                lobby.id_taken(),
                lobby.next_id,
                join_sends(lobby.next_id, lobby.mesh, lobby.ordered()),
            ),
            (StageView::Idle, Event::Work(LobbyWorkItem::PeerMessage(id, received))) => handled(
                lobby,
                received_handling(id, received),
            ),
            (StageView::Parsing { from }, Event::Parsed(parsed)) => handled(
                lobby,
                parsed_handling(lobby.members, from, parsed),
            ),
            (StageView::Relaying, Event::Sent(Ok(_))) => waiting(lobby, Effect::Nothing),
            (StageView::Relaying, Event::Sent(Err(err))) => waiting(
                lobby,
                Effect::Note(Attempt::Relay, LobbyErr::SendFailed(err)),
            ),
            (StageView::Leaving { rest }, Event::Sent(Ok(_))) => leaving(
                lobby,
                Effect::Nothing,
                rest,
            ),
            (StageView::Leaving { rest }, Event::Sent(Err(err))) => waiting(
                lobby,
                Effect::Note(Attempt::Leave, LobbyErr::SendFailed(err)),
            ),
            _ => (self, Step { effect: Effect::Nothing, next: Next::Wait }),
        }
    }

    /// The host is in the lobby from its joining to the end, a peer that is joining is no member
    /// yet, and messages are only on their way to members and to a peer that is joining.
    pub open spec fn wf(self) -> bool {
        &&& self.lobby.wf()
        &&& match self.stage {
            StageView::Announcing => self.lobby.members == Set::<u32>::empty(),
            StageView::Joining { id, rest } => {
                &&& self.lobby.assigned(id)
                &&& !self.lobby.members.contains(id)
                &&& id == HOST_ID ==> self.lobby.members == Set::<u32>::empty()
                &&& id != HOST_ID ==> self.lobby.members.contains(HOST_ID)
                &&& forall|i: int|
                    0 <= i < rest.len() ==> (#[trigger] rest[i]).to == id
                        || self.lobby.members.contains(rest[i].to)
            },
            StageView::Leaving { rest } => {
                &&& self.lobby.members.contains(HOST_ID)
                &&& forall|i: int|
                    0 <= i < rest.len() ==> self.lobby.members.contains((#[trigger] rest[i]).to)
            },
            StageView::Idle => self.lobby.members.contains(HOST_ID),
            StageView::Parsing { .. } => self.lobby.members.contains(HOST_ID),
            StageView::Relaying => self.lobby.members.contains(HOST_ID),
            StageView::Finished => true,
        }
    }
}

/// The invariant of a lobby's life: every step keeps it.
pub proof fn law_steps_keep_the_invariant(task: TaskView, event: Event)
    requires
        task.wf(),
        task.accepts(event),
    ensures
        task.step(event).0.wf(),
{
    let lobby = task.lobby;
    lemma_ascending(lobby.members);
    assert forall|id: u32| lobby.without_member(id).wf() by {
        lemma_ascending(lobby.members.remove(id));
    }
    assert forall|id: u32| lobby.assigned(id) implies lobby.with_member(id).wf() by {
    }
    assert forall|id: u32, i: int|
        0 <= i < lobby.without_member(id).ordered().len() implies lobby.without_member(
        id,
    ).members.contains(#[trigger] lobby.without_member(id).ordered()[i]) by {
        lemma_ascending(lobby.members.remove(id));
    }
}

/// A lobby from its creation to its closing.
pub struct LobbyTask {
    lobby: Lobby,
    stage: Stage,
}

impl View for LobbyTask {
    type V = TaskView;

    closed spec fn view(&self) -> TaskView {
        TaskView { lobby: self.lobby@, stage: self.stage@ }
    }
}

impl LobbyTask {
    /// The lobby itself is well-formed.
    pub closed spec fn lobby_wf(self) -> bool {
        self.lobby.wf()
    }

    /// The lobby is well-formed, and so is the state that it is in.
    pub open spec fn wf(self) -> bool {
        self@.wf() && self.lobby_wf()
    }

    /// Creates a lobby. Its host is to be told the name.
    pub fn new(name: String, mesh: bool) -> (task: (LobbyTask, Step))
        ensures
            task.0.wf(),
            task.0@ == created(name, mesh),
            task.1 == (Step {
                effect: Effect::Nothing,
                next: Next::Send(
                    Outgoing { to: HOST_ID, message: LobbyMessage::CreatedLobby { name } },
                ),
            }),
    {
        let announced: String = name.clone();
        let task = LobbyTask { lobby: Lobby::new(name, mesh), stage: Stage::Announcing };
        let outgoing = Outgoing {
            to: HOST_ID,
            message: LobbyMessage::CreatedLobby { name: announced },
        };
        (task, Step { effect: Effect::Nothing, next: Next::Send(outgoing) })
    }

    /// The lobby itself.
    pub fn lobby(&self) -> (lobby: &Lobby)
        ensures
            lobby@ == self@.lobby,
            self.wf() ==> lobby.wf(),
    {
        &self.lobby
    }

    /// Gives the lobby up, at whatever point. The work that is left is handed out if it was not
    /// handed out before, when the lobby came to its end.
    pub fn abandon(self) -> (work: Option<CleanupWorkItem>)
        ensures
            work == self@.abandoned(),
    {
        match self.stage {
            Stage::Finished => None,
            _ => Some(CleanupWorkItem::DeleteLobby(self.lobby.name().clone())),
        }
    }

    /// Whether the event may be reported now.
    pub fn accepts(&self, event: &Event) -> (accepted: bool)
        ensures
            accepted == self@.accepts(*event),
    {
        match &self.stage {
            Stage::Announcing | Stage::Joining { .. } | Stage::Relaying | Stage::Leaving { .. } =>
            match event {
                Event::Sent(_) => true,
                _ => false,
            },
            Stage::Parsing { .. } => match event {
                Event::Parsed(_) => true,
                _ => false,
            },
            Stage::Idle => match event {
                Event::NewPeersClosed => true,
                Event::Work(LobbyWorkItem::NewPeer) => self.lobby.next_id() < u32::MAX,
                Event::Work(LobbyWorkItem::PeerMessage(_, _)) => true,
                _ => false,
            },
            Stage::Finished => false,
        }
    }

    /// Waits for work.
    fn wait(&mut self, effect: Effect) -> (step: Step)
        ensures
            final(self).lobby == old(self).lobby,
            (final(self)@, step) == waiting(old(self)@.lobby, effect),
    {
        self.stage = Stage::Idle;
        Step { effect, next: Next::Wait }
    }

    /// Comes to the end.
    fn close(&mut self, effect: Effect, exit: Exit) -> (step: Step)
        ensures
            final(self).lobby == old(self).lobby,
            (final(self)@, step) == ended(old(self)@.lobby, effect, exit),
    {
        self.stage = Stage::Finished;
        let work = CleanupWorkItem::DeleteLobby(self.lobby.name().clone());
        Step { effect, next: Next::Exit(exit, work) }
    }

    /// Sends the first of the messages that it takes to join.
    fn begin_join(&mut self, id: u32, mut sends: VecDeque<Outgoing>) -> (step: Step)
        requires
            sends@.len() > 0,
        ensures
            final(self).lobby == old(self).lobby,
            (final(self)@, step) == joining(old(self)@.lobby, id, sends@),
    {
        let ghost all = sends@;
        match sends.pop_front() {
            Some(outgoing) => {
                assert(sends@ =~= all.drop_first());
                self.stage = Stage::Joining { id, rest: sends };
                Step { effect: Effect::Nothing, next: Next::Send(outgoing) }
            },
            None => self.wait(Effect::Nothing),
        }
    }

    /// Sends the first of the messages that are left of a leaving.
    fn go_on_leaving(&mut self, effect: Effect, mut sends: VecDeque<Outgoing>) -> (step: Step)
        ensures
            final(self).lobby == old(self).lobby,
            (final(self)@, step) == leaving(old(self)@.lobby, effect, sends@),
    {
        let ghost all = sends@;
        match sends.pop_front() {
            Some(outgoing) => {
                assert(sends@ =~= all.drop_first());
                self.stage = Stage::Leaving { rest: sends };
                Step { effect, next: Next::Send(outgoing) }
            },
            None => self.wait(effect),
        }
    }

    /// Draws the consequences of a work item that was handled.
    fn conclude(&mut self, result: Result<WorkItemOk, WorkItemErr>) -> (step: Step)
        requires
            old(self).lobby.wf(),
        ensures
            final(self).lobby.wf(),
            (final(self)@, step) == concluded(old(self)@.lobby, result),
    {
        match result {
            Ok(WorkItemOk::InsertNewPeer(id)) => self.wait(Effect::Listen(id)),
            Ok(WorkItemOk::Noop) => self.wait(Effect::Nothing),
            Err(WorkItemErr::NonFatal(attempt, err)) => self.wait(Effect::Note(attempt, err)),
            Err(WorkItemErr::FatalForPeer(id, err)) => {
                let ghost before = self.lobby@;
                match self.lobby.leave(id) {
                    Err(leave_err) => {
                        assert(before.members.remove(id) =~= before.members);
                        self.wait(Effect::HangUpStranger(id, err, leave_err))
                    },
                    Ok((Some(CloseLobby), _)) => self.close(
                        Effect::HangUp(id, err),
                        Exit::HostLeft,
                    ),
                    Ok((None, sends)) => self.go_on_leaving(Effect::HangUp(id, err), sends),
                }
            },
            Err(WorkItemErr::FatalForLobby(err)) => self.close(
                Effect::Nothing,
                Exit::HostLost(err),
            ),
        }
    }

    /// Goes on with a work item.
    fn go_on(&mut self, handling: Handling) -> (step: Step)
        requires
            old(self).lobby.wf(),
            handling@ matches HandlingView::Join { sends, .. } ==> sends.len() > 0,
        ensures
            final(self).lobby.wf(),
            (final(self)@, step) == handled(old(self)@.lobby, handling@),
    {
        match handling {
            Handling::Join { id, sends } => self.begin_join(id, sends),
            Handling::Parse { from, text } => {
                self.stage = Stage::Parsing { from };
                Step { effect: Effect::Nothing, next: Next::Parse(text) }
            },
            Handling::Relay(outgoing) => {
                self.stage = Stage::Relaying;
                Step { effect: Effect::Nothing, next: Next::Send(outgoing) }
            },
            Handling::Done(result) => self.conclude(result),
        }
    }

    /// Goes on with the joining of the peer `id`.
    fn go_on_joining(
        &mut self,
        id: u32,
        rest: VecDeque<Outgoing>,
        sent: Result<(), String>,
    ) -> (step: Step)
        requires
            old(self).lobby.wf(),
            old(self)@.lobby.assigned(id),
        ensures
            final(self).lobby.wf(),
            (final(self)@, step) == join_sent(old(self)@.lobby, id, rest@, sent),
    {
        if sent.is_ok() && rest.len() > 0 {
            return self.begin_join(id, rest);
        }
        match self.lobby.finish_join(id, sent) {
            Ok(id) => self.conclude(Ok(WorkItemOk::InsertNewPeer(id))),
            Err(err) => {
                if id == HOST_ID {
                    self.close(Effect::Nothing, Exit::Failed(err))
                } else {
                    self.conclude(Err(WorkItemErr::NonFatal(Attempt::Join, err)))
                }
            },
        }
    }

    /// Takes an event, and says what is to be done next.
    pub fn step(&mut self, event: Event) -> (step: Step)
        requires
            old(self).wf(),
            old(self)@.accepts(event),
        ensures
            final(self).wf(),
            (final(self)@, step) == old(self)@.step(event),
    {
        proof {
            law_steps_keep_the_invariant(self@, event);
        }
        let mut stage = Stage::Finished;
        std::mem::swap(&mut stage, &mut self.stage);
        match (stage, event) {
            (Stage::Announcing, Event::Sent(Ok(_))) => {
                let (id, sends) = self.lobby.join(true);
                self.begin_join(id, sends)
            },
            (Stage::Announcing, Event::Sent(Err(err))) => self.close(
                Effect::Nothing,
                Exit::Failed(LobbyErr::SendFailed(err)),
            ),
            (Stage::Joining { id, rest }, Event::Sent(sent)) => self.go_on_joining(id, rest, sent),
            (Stage::Idle, Event::NewPeersClosed) => self.close(
                Effect::Nothing,
                Exit::NewPeersClosed,
            ),
            (Stage::Idle, Event::Work(work_item)) => {
                let handling = self.lobby.handle_work_item(work_item);
                self.go_on(handling)
            },
            (Stage::Parsing { from }, Event::Parsed(parsed)) => {
                let handling = self.lobby.handle_parsed(from, parsed);
                self.go_on(handling)
            },
            (Stage::Relaying, Event::Sent(Ok(_))) => self.conclude(Ok(WorkItemOk::Noop)),
            (Stage::Relaying, Event::Sent(Err(err))) => self.conclude(
                Err(WorkItemErr::NonFatal(Attempt::Relay, LobbyErr::SendFailed(err))),
            ),
            (Stage::Leaving { rest }, Event::Sent(Ok(_))) => self.go_on_leaving(
                Effect::Nothing,
                rest,
            ),
            (Stage::Leaving { .. }, Event::Sent(Err(err))) => self.wait(
                Effect::Note(Attempt::Leave, LobbyErr::SendFailed(err)),
            ),
            _ => Step { effect: Effect::Nothing, next: Next::Wait },
        }
    }
}

} // verus!
