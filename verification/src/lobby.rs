//! One lobby: who is in it, and what its members are told.
//!
//! Joining, leaving and relaying send messages, and a send may fail. So each of them comes in
//! two halves: the first one settles what has to be sent and to whom, the second one takes the
//! outcome of the sends.

use std::collections::{BTreeMap, VecDeque};
use vstd::prelude::*;
use crate::message::{Frame, LobbyMessage, Outgoing, Received, RelayMessage};
use crate::order::{ascending, keys_in_order};
use crate::outside::{is_alphanumeric, random_alphanumeric};

verus! {

/// The id of every lobby's host.
pub const HOST_ID: u32 = 1;

/// The first id that is assigned to a peer other than the host.
pub const FIRST_GUEST_ID: u32 = 2;

/// The length of a lobby's name.
pub const NAME_LEN: usize = 16;

/// Whether a lobby can have this name.
pub open spec fn is_lobby_name(name: Seq<char>) -> bool {
    &&& name.len() == NAME_LEN
    &&& forall|i: int| 0 <= i < name.len() ==> is_alphanumeric(#[trigger] name[i])
}

/// What can go wrong between a lobby and its peers.
#[derive(Debug, PartialEq, Eq)]
pub enum LobbyErr {
    /// A message could not be sent.
    SendFailed(String),
    /// A message was to be relayed to a peer that is not in the lobby.
    NoSuchPeer(u32),
    /// A peer was to leave a lobby that it is not in.
    NotAMember(u32),
    /// The host closed its connection.
    HostHungUp,
    /// A guest closed its connection.
    PeerHungUp,
    /// The connection failed.
    ReceiveFailed(String),
    /// The peer sent a text that is no relay message.
    NotARelayMessage(String),
    /// The peer sent binary data.
    BinaryFrame,
}

/// The effect of a work item that was handled.
#[derive(Debug, PartialEq, Eq)]
pub enum WorkItemOk {
    /// The peer joined the lobby; from now on its messages are awaited.
    InsertNewPeer(u32),
    Noop,
}

/// What a lobby attempts for its peers.
#[derive(Debug, Clone, Copy, PartialEq, Eq, Structural)]
pub enum Attempt {
    /// To let a guest join.
    Join,
    /// To relay a message.
    Relay,
    /// To let a peer go that is hung up on.
    Leave,
}

/// The effect of a work item that could not be handled.
#[derive(Debug, PartialEq, Eq)]
pub enum WorkItemErr {
    /// The attempt failed. Nobody has to go.
    NonFatal(Attempt, LobbyErr),
    /// The peer has to go.
    FatalForPeer(u32, LobbyErr),
    /// The lobby has to close.
    FatalForLobby(LobbyErr),
}

/// What a lobby is woken up for.
#[derive(Debug, PartialEq, Eq)]
pub enum LobbyWorkItem {
    /// A peer wants to join.
    NewPeer,
    /// Something came from the peer with this id.
    PeerMessage(u32, Received),
}

/// The lobby is closed: all its peers are hung up on.
#[derive(Debug, Clone, Copy, PartialEq, Eq, Structural)]
pub struct CloseLobby;

/// A member of a lobby.
#[derive(Debug, Clone, Copy, PartialEq, Eq, Structural)]
pub struct Peer {
    pub id: u32,
}

impl Peer {
    pub fn new(id: u32) -> (peer: Peer)
        ensures
            peer.id == id,
    {
        Peer { id }
    }
}

/// How far the handling of a work item comes without outside help.
#[derive(Debug, PartialEq, Eq)]
pub enum Handling {
    /// These messages are to be sent, in this order, for the peer to join under the id.
    Join { id: u32, sends: VecDeque<Outgoing> },
    /// The text is to be read as a relay message.
    Parse { from: u32, text: String },
    /// This message is to be sent.
    Relay(Outgoing),
    /// The work item is handled.
    Done(Result<WorkItemOk, WorkItemErr>),
}

/// The mathematical counterpart of [`Handling`].
#[verifier::ext_equal]
pub enum HandlingView {
    Join { id: u32, sends: Seq<Outgoing> },
    Parse { from: u32, text: String },
    Relay(Outgoing),
    Done(Result<WorkItemOk, WorkItemErr>),
}

impl View for Handling {
    type V = HandlingView;

    open spec fn view(&self) -> HandlingView {
        match *self {
            Handling::Join { id, sends } => HandlingView::Join { id, sends: sends@ },
            Handling::Parse { from, text } => HandlingView::Parse { from, text },
            Handling::Relay(outgoing) => HandlingView::Relay(outgoing),
            Handling::Done(result) => HandlingView::Done(result),
        }
    }
}

/// The state of a lobby.
#[verifier::ext_equal]
pub struct LobbyView {
    pub name: String,
    pub mesh: bool,
    /// The ids of the peers in the lobby.
    pub members: Set<u32>,
    /// The id of the next guest.
    pub next_id: u32,
}

/// The introductions of the newcomer `id` and the members to each other: each member in turn
/// is told of the newcomer, and the newcomer of that member.
pub open spec fn introductions(id: u32, members: Seq<u32>) -> Seq<Outgoing> {
    Seq::new(
        2 * members.len(),
        |i: int|
            if i % 2 == 0 {
                Outgoing { to: members[i / 2], message: LobbyMessage::PeerConnect { peer_id: id } }
            } else {
                Outgoing { to: id, message: LobbyMessage::PeerConnect { peer_id: members[i / 2] } }
            },
    )
}

/// What is sent when `id` joins a lobby with these members: its id to the newcomer, and then
/// the introductions.
pub open spec fn join_sends(id: u32, mesh: bool, members: Seq<u32>) -> Seq<Outgoing> {
    seq![Outgoing { to: id, message: LobbyMessage::Id { assigned: id, mesh } }] + introductions(
        id,
        members,
    )
}

/// What is sent when `id` has left a lobby and these members remain.
pub open spec fn leave_sends(id: u32, remaining: Seq<u32>) -> Seq<Outgoing> {
    remaining.map_values(
        |to: u32| Outgoing { to, message: LobbyMessage::PeerDisconnect { peer_id: id } },
    )
}

/// What becomes of the request of `from` to relay `message`.
pub open spec fn relay_result(members: Set<u32>, message: RelayMessage, from: u32) -> Result<
    Outgoing,
    LobbyErr,
> {
    if members.contains(message.dest_id) {
        Ok(
            Outgoing {
                to: message.dest_id,
                message: LobbyMessage::RelayedMessage {
                    kind: message.kind,
                    data: message.data,
                    peer_id: from,
                },
            },
        )
    } else {
        Err(LobbyErr::NoSuchPeer(message.dest_id))
    }
}

/// The error of the peer `id` closing its connection.
pub open spec fn hung_up(id: u32) -> LobbyErr {
    if id == HOST_ID {
        LobbyErr::HostHungUp
    } else {
        LobbyErr::PeerHungUp
    }
}

/// The loss of the connection to `id`: without its host the lobby cannot go on.
pub open spec fn lost(id: u32, err: LobbyErr) -> WorkItemErr {
    if id == HOST_ID {
        WorkItemErr::FatalForLobby(err)
    } else {
        WorkItemErr::FatalForPeer(id, err)
    }
}

/// What is done about what came from the peer `id`.
pub open spec fn received_handling(id: u32, received: Received) -> HandlingView {
    match received {
        None => HandlingView::Done(Err(lost(id, hung_up(id)))),
        Some(Err(err)) => HandlingView::Done(Err(lost(id, LobbyErr::ReceiveFailed(err)))),
        Some(Ok(Frame::Text(text))) => HandlingView::Parse { from: id, text },
        Some(Ok(Frame::Binary)) => HandlingView::Done(
            Err(WorkItemErr::FatalForPeer(id, LobbyErr::BinaryFrame)),
        ),
        Some(Ok(_)) => HandlingView::Done(Ok(WorkItemOk::Noop)),
    }
}

/// What is done about a text of the peer `from`, once it was read.
pub open spec fn parsed_handling(
    members: Set<u32>,
    from: u32,
    parsed: Result<RelayMessage, String>,
) -> HandlingView {
    match parsed {
        Err(err) => HandlingView::Done(
            Err(WorkItemErr::FatalForPeer(from, LobbyErr::NotARelayMessage(err))),
        ),
        Ok(message) => match relay_result(members, message, from) {
            Ok(outgoing) => HandlingView::Relay(outgoing),
            Err(err) => HandlingView::Done(Err(WorkItemErr::NonFatal(Attempt::Relay, err))),
        },
    }
}

impl LobbyView {
    /// The host has its own id, and the guests have ids that were assigned before.
    pub open spec fn wf(self) -> bool {
        &&& self.next_id >= FIRST_GUEST_ID
        &&& self.members.finite()
        &&& forall|id: u32| #[trigger]
            self.members.contains(id) ==> id == HOST_ID || FIRST_GUEST_ID <= id < self.next_id
    }

    /// Whether `id` was assigned to a peer of this lobby.
    pub open spec fn assigned(self, id: u32) -> bool {
        id == HOST_ID || FIRST_GUEST_ID <= id < self.next_id
    }

    /// The state after the next guest's id was taken.
    pub open spec fn id_taken(self) -> LobbyView {
        LobbyView { next_id: (self.next_id + 1) as u32, ..self }
    }

    pub open spec fn with_member(self, id: u32) -> LobbyView {
        LobbyView { members: self.members.insert(id), ..self }
    }

    pub open spec fn without_member(self, id: u32) -> LobbyView {
        LobbyView { members: self.members.remove(id), ..self }
    }

    /// The members in the order in which they are told things.
    pub open spec fn ordered(self) -> Seq<u32> {
        ascending(self.members)
    }
}

/// A lobby.
pub struct Lobby {
    name: String,
    mesh: bool,
    peers: BTreeMap<u32, Peer>,
    next_id: u32,
}

impl View for Lobby {
    type V = LobbyView;

    closed spec fn view(&self) -> LobbyView {
        LobbyView {
            name: self.name,
            mesh: self.mesh,
            members: self.peers@.dom(),
            next_id: self.next_id,
        }
    }
}

impl Lobby {
    /// Each peer is found under its own id.
    pub closed spec fn peers_wf(self) -> bool {
        forall|id: u32| #[trigger] self.peers@.contains_key(id) ==> self.peers@[id].id == id
    }

    /// The lobby is in a proper state, and its peers are kept properly.
    pub open spec fn wf(self) -> bool {
        self@.wf() && self.peers_wf()
    }

    /// A name for a lobby, left to chance.
    pub fn new_name() -> (name: String)
        ensures
            is_lobby_name(name@),
    {
        random_alphanumeric(NAME_LEN)
    }

    /// An empty lobby.
    pub fn new(name: String, mesh: bool) -> (lobby: Lobby)
        ensures
            lobby.wf(),
            lobby@ == (LobbyView {
                name,
                mesh,
                members: Set::empty(),
                next_id: FIRST_GUEST_ID,
            }),
    {
        let lobby = Lobby { name, mesh, peers: BTreeMap::new(), next_id: FIRST_GUEST_ID };
        proof {
            assert(lobby.peers@.dom() =~= Set::<u32>::empty());
        }
        lobby
    }

    pub fn name(&self) -> (name: &String)
        ensures
            *name == self@.name,
    {
        &self.name
    }

    pub fn mesh(&self) -> (mesh: bool)
        ensures
            mesh == self@.mesh,
    {
        self.mesh
    }

    pub fn next_id(&self) -> (id: u32)
        ensures
            id == self@.next_id,
    {
        self.next_id
    }

    /// The ids of the members, the smaller ones first.
    pub fn members(&self) -> (ids: Vec<u32>)
        ensures
            ids@ == self@.ordered(),
    {
        keys_in_order(&self.peers)
    }

    pub fn get_peer_id(peer: &Peer) -> (id: u32)
        ensures
            id == peer.id,
    {
        peer.id
    }

    /// Begins the joining of a peer: assigns its id and settles what has to be sent, in which
    /// order, before it is a member.
    pub fn join(&mut self, is_host: bool) -> (joining: (u32, VecDeque<Outgoing>))
        requires
            old(self).wf(),
            is_host || old(self)@.next_id < u32::MAX,
        ensures
            final(self).wf(),
            is_host ==> joining.0 == HOST_ID && final(self)@ == old(self)@,
            !is_host ==> joining.0 == old(self)@.next_id && final(self)@ == old(self)@.id_taken(),
            joining.1@ == join_sends(joining.0, old(self)@.mesh, old(self)@.ordered()),
    {
        let assigned: u32 = if is_host {
            HOST_ID
        } else {
            let id: u32 = self.next_id;
            self.next_id = self.next_id + 1;
            id
        };
        let others: Vec<u32> = keys_in_order(&self.peers);
        let mut sends: VecDeque<Outgoing> = VecDeque::new();
        sends.push_back(
            Outgoing { to: assigned, message: LobbyMessage::Id { assigned, mesh: self.mesh } },
        );
        let ghost all = join_sends(assigned, self.mesh, others@);
        assert(sends@ =~= all.take(1));
        for i in 0..others.len()
            invariant
                all == join_sends(assigned, self.mesh, others@),
                sends@ == all.take(1 + 2 * i),
        {
            let peer_id: u32 = others[i];
            sends.push_back(
                Outgoing { to: peer_id, message: LobbyMessage::PeerConnect { peer_id: assigned } },
            );
            sends.push_back(
                Outgoing { to: assigned, message: LobbyMessage::PeerConnect { peer_id } },
            );
            assert(sends@ =~= all.take(1 + 2 * (i + 1)));
        }
        assert(sends@ =~= all);
        (assigned, sends)
    }

    /// Ends the joining of a peer: it is a member from now on if everything was sent.
    pub fn finish_join(&mut self, id: u32, sent: Result<(), String>) -> (result: Result<
        u32,
        LobbyErr,
    >)
        requires
            old(self).wf(),
            old(self)@.assigned(id),
        ensures
            final(self).wf(),
            sent is Ok ==> result == Ok::<u32, LobbyErr>(id) && final(self)@ == old(
                self,
            )@.with_member(id),
            sent matches Err(err) ==> result == Err::<u32, LobbyErr>(LobbyErr::SendFailed(err))
                && final(self)@ == old(self)@,
    {
        broadcast use vstd::std_specs::btree::group_btree_axioms;
        broadcast use vstd::laws_cmp::group_laws_cmp;

        match sent {
            Ok(_) => {
                self.peers.insert(id, Peer::new(id));
                assert(self@.members =~= old(self)@.members.insert(id));
                Ok(id)
            },
            Err(err) => Err(LobbyErr::SendFailed(err)),
        }
    }

    /// Lets a member go. If it was the host the lobby is closed; otherwise the remaining members
    /// are to be told.
    pub fn leave(&mut self, peer_id: u32) -> (result: Result<
        (Option<CloseLobby>, VecDeque<Outgoing>),
        LobbyErr,
    >)
        requires
            old(self).wf(),
        ensures
            final(self).wf(),
            final(self)@ == old(self)@.without_member(peer_id),
            match result {
                Ok((close, sends)) => {
                    &&& old(self)@.members.contains(peer_id)
                    &&& close == (if peer_id == HOST_ID {
                        Some(CloseLobby)
                    } else {
                        None
                    })
                    &&& sends@ == (if peer_id == HOST_ID {
                        Seq::<Outgoing>::empty()
                    } else {
                        leave_sends(peer_id, final(self)@.ordered())
                    })
                },
                Err(err) => {
                    &&& !old(self)@.members.contains(peer_id)
                    &&& err == LobbyErr::NotAMember(peer_id)
                },
            },
    {
        broadcast use vstd::std_specs::btree::group_btree_axioms;
        broadcast use vstd::laws_cmp::group_laws_cmp;

        let removed = self.peers.remove(&peer_id);
        assert(self@.members =~= old(self)@.members.remove(peer_id));
        let leaving_peer = match removed {
            Some(peer) => peer,
            None => {
                return Err(LobbyErr::NotAMember(peer_id));
            },
        };
        let assigned: u32 = Self::get_peer_id(&leaving_peer);
        let mut sends: VecDeque<Outgoing> = VecDeque::new();
        if assigned == HOST_ID {
            return Ok((Some(CloseLobby), sends));
        }
        let others: Vec<u32> = keys_in_order(&self.peers);
        let ghost all = leave_sends(assigned, others@);
        assert(sends@ =~= all.take(0));
        for i in 0..others.len()
            invariant
                all == leave_sends(assigned, others@),
                sends@ == all.take(0 + i),
        {
            sends.push_back(
                Outgoing {
                    to: others[i],
                    message: LobbyMessage::PeerDisconnect { peer_id: assigned },
                },
            );
            assert(sends@ =~= all.take(i + 1));
        }
        assert(sends@ =~= all);
        Ok((None, sends))
    }

    /// Addresses a relay message: it goes to the peer that it names, as coming from `src_id`.
    pub fn relay(&self, relay_message: RelayMessage, src_id: u32) -> (result: Result<
        Outgoing,
        LobbyErr,
    >)
        requires
            self.wf(),
        ensures
            result == relay_result(self@.members, relay_message, src_id),
    {
        broadcast use vstd::std_specs::btree::group_btree_axioms;
        broadcast use vstd::laws_cmp::group_laws_cmp;

        let RelayMessage { kind, dest_id, data } = relay_message;
        match self.peers.get(&dest_id) {
            Some(peer) => Ok(
                Outgoing {
                    to: Self::get_peer_id(peer),
                    message: LobbyMessage::RelayedMessage { kind, data, peer_id: src_id },
                },
            ),
            None => Err(LobbyErr::NoSuchPeer(dest_id)),
        }
    }

    /// Handles a work item, up to where something has to be sent or a text has to be read.
    pub fn handle_work_item(&mut self, work_item: LobbyWorkItem) -> (handling: Handling)
        requires
            old(self).wf(),
            work_item is NewPeer ==> old(self)@.next_id < u32::MAX,
        ensures
            final(self).wf(),
            match work_item {
                LobbyWorkItem::NewPeer => {
                    &&& final(self)@ == old(self)@.id_taken()
                    &&& handling@ == (HandlingView::Join {
                        id: old(self)@.next_id,
                        sends: join_sends(
                            old(self)@.next_id,
                            old(self)@.mesh,
                            old(self)@.ordered(),
                        ),
                    })
                },
                LobbyWorkItem::PeerMessage(id, received) => {
                    &&& final(self)@ == old(self)@
                    &&& handling@ == received_handling(id, received)
                },
            },
    {
        match work_item {
            LobbyWorkItem::NewPeer => {
                let (id, sends) = self.join(false);
                Handling::Join { id, sends }
            },
            LobbyWorkItem::PeerMessage(id, received) => match received {
                None => {
                    // The peer hung up.
                    if id == HOST_ID {
                        Handling::Done(Err(WorkItemErr::FatalForLobby(LobbyErr::HostHungUp)))
                    } else {
                        Handling::Done(Err(WorkItemErr::FatalForPeer(id, LobbyErr::PeerHungUp)))
                    }
                },
                Some(Err(err)) => {
                    let err = LobbyErr::ReceiveFailed(err);
                    if id == HOST_ID {
                        Handling::Done(Err(WorkItemErr::FatalForLobby(err)))
                    } else {
                        Handling::Done(Err(WorkItemErr::FatalForPeer(id, err)))
                    }
                },
                Some(Ok(frame)) => match frame {
                    // All that a member has to say is relay messages.
                    Frame::Text(text) => Handling::Parse { from: id, text },
                    Frame::Binary => Handling::Done(
                        Err(WorkItemErr::FatalForPeer(id, LobbyErr::BinaryFrame)),
                    ),
                    Frame::Ping | Frame::Pong | Frame::Close => Handling::Done(
                        Ok(WorkItemOk::Noop),
                    ),
                },
            },
        }
    }

    /// Goes on with the text of the peer `id`, now that it was read.
    pub fn handle_parsed(&self, id: u32, parsed: Result<RelayMessage, String>) -> (handling:
        Handling)
        requires
            self.wf(),
        ensures
            handling@ == parsed_handling(self@.members, id, parsed),
    {
        match parsed {
            Err(err) => Handling::Done(
                Err(WorkItemErr::FatalForPeer(id, LobbyErr::NotARelayMessage(err))),
            ),
            Ok(relay_message) => match self.relay(relay_message, id) {
                Ok(outgoing) => Handling::Relay(outgoing),
                Err(err) => Handling::Done(Err(WorkItemErr::NonFatal(Attempt::Relay, err))),
            },
        }
    }
}

} // verus!
