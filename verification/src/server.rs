//! The server as a whole: its connections and the lobbies that can be joined.

use vstd::prelude::*;
use crate::lobby::{is_lobby_name, Lobby};
use crate::message::{Frame, InitialMessage, Received};
use crate::outside::{
    entries_of, get_entry, has_no_entries, insert_entry, insert_number, new_number_set, new_table,
    numbers_in, random_number, remove_entry,
};

verus! {

/// How many newcomers can wait at the door of a lobby. The limit is arbitrary; it is there so
/// that those who are too many have to wait.
pub const NEW_PEER_BACKLOG: usize = 32;

/// Why a connection comes to nothing.
#[derive(Debug, PartialEq, Eq)]
pub enum HandshakeErr {
    /// The connection failed before it had said anything.
    ReceiveFailed(String),
    /// The connection did not begin with a text.
    TextExpected,
    /// The connection began with a text that is no initial message.
    NotAnInitialMessage(String),
    /// There is no lobby with this name.
    NoSuchLobby(String),
}

/// A connection that has introduced itself.
#[derive(Debug, Clone, Copy, PartialEq, Eq, Structural)]
pub struct NewPeer {
    pub id: u32,
}

/// What becomes of a connection.
#[derive(Debug, PartialEq, Eq)]
pub enum Admission {
    /// It is the host of a new lobby.
    Created { peer: NewPeer, name: String, mesh: bool },
    /// It is a newcomer at the lobby that the connection `owner` has created.
    Joining { peer: NewPeer, owner: u32 },
}

/// How far a connection has come.
#[derive(Debug, PartialEq, Eq)]
pub enum Progress {
    /// It has introduced itself but has no id yet: all that were drawn are in use.
    Unidentified(InitialMessage),
    /// It is to be the host of a new lobby, which has no name yet.
    Unnamed { peer: NewPeer, mesh: bool },
    /// It is taken in.
    Admitted(Admission),
}

/// What a series of draws leads to.
#[derive(Debug, PartialEq, Eq)]
pub enum Drawing<T> {
    /// This was the first draw that is not in use yet.
    Found(T),
    /// All the draws are in use. The drawing has to go on.
    DrawOn,
}

/// The first of the drawn ids that is not in use.
pub open spec fn first_free_id(drawn: Seq<u32>, used: Set<u32>) -> Drawing<u32>
    decreases drawn.len(),
{
    if drawn.len() == 0 {
        Drawing::DrawOn
    } else if !used.contains(drawn[0]) {
        Drawing::Found(drawn[0])
    } else {
        first_free_id(drawn.drop_first(), used)
    }
}

/// The first of the drawn names that no lobby has.
pub open spec fn first_free_name(drawn: Seq<String>, lobbies: Map<Seq<char>, u32>) -> Drawing<
    String,
>
    decreases drawn.len(),
{
    if drawn.len() == 0 {
        Drawing::DrawOn
    } else if !lobbies.contains_key(drawn[0]@) {
        Drawing::Found(drawn[0])
    } else {
        first_free_name(drawn.drop_first(), lobbies)
    }
}

/// Whether these can be that many names for lobbies, as chance may give them.
pub open spec fn drawn_names(drawn: Seq<String>, draws: nat) -> bool {
    &&& drawn.len() == draws
    &&& forall|i: int| 0 <= i < drawn.len() ==> is_lobby_name((#[trigger] drawn[i])@)
}

/// That many ids, left to chance.
fn draw_ids(draws: usize) -> (drawn: Vec<u32>)
    ensures
        drawn@.len() == draws,
{
    let mut drawn: Vec<u32> = Vec::new();
    for i in 0..draws
        invariant
            drawn@.len() == i,
    {
        drawn.push(random_number());
    }
    drawn
}

/// That many names for lobbies, left to chance.
fn draw_names(draws: usize) -> (drawn: Vec<String>)
    ensures
        drawn_names(drawn@, draws as nat),
{
    let mut drawn: Vec<String> = Vec::new();
    for i in 0..draws
        invariant
            drawn_names(drawn@, i as nat),
    {
        drawn.push(Lobby::new_name());
    }
    drawn
}

/// What is to be tidied up.
#[derive(Debug, PartialEq, Eq)]
pub enum CleanupWorkItem {
    DeleteLobby(String),
}

impl CleanupWorkItem {
    pub open spec fn lobby_name(self) -> Seq<char> {
        match self {
            CleanupWorkItem::DeleteLobby(name) => name@,
        }
    }
}

/// How a connection begins.
#[derive(Debug, PartialEq, Eq)]
pub enum Opening {
    /// Nothing was said yet.
    ReadOn,
    /// The connection is closed.
    HungUp,
    /// The text is to be read as an initial message.
    Parse(String),
    Refused(HandshakeErr),
}

/// What the first that was received from a connection amounts to.
pub open spec fn opening_of(received: Received) -> Opening {
    match received {
        None => Opening::HungUp,
        Some(Err(err)) => Opening::Refused(HandshakeErr::ReceiveFailed(err)),
        Some(Ok(Frame::Text(text))) => Opening::Parse(text),
        Some(Ok(Frame::Binary)) => Opening::Refused(HandshakeErr::TextExpected),
        Some(Ok(Frame::Close)) => Opening::Refused(HandshakeErr::TextExpected),
        Some(Ok(Frame::Ping)) => Opening::ReadOn,
        Some(Ok(Frame::Pong)) => Opening::ReadOn,
    }
}

/// Decides what the first that was received from a connection amounts to.
pub fn opening(received: Received) -> (opening: Opening)
    ensures
        opening == opening_of(received),
{
    match received {
        None => Opening::HungUp,
        Some(Err(err)) => Opening::Refused(HandshakeErr::ReceiveFailed(err)),
        Some(Ok(frame)) => match frame {
            Frame::Text(text) => Opening::Parse(text),
            Frame::Binary | Frame::Close => Opening::Refused(HandshakeErr::TextExpected),
            Frame::Ping | Frame::Pong => Opening::ReadOn,
        },
    }
}

/// The lobbies that can be joined. Each name leads to the connection that created the lobby.
pub struct Lobbies {
    lobbies: scc::HashMap<String, u32>,
}

impl View for Lobbies {
    type V = Map<Seq<char>, u32>;

    closed spec fn view(&self) -> Map<Seq<char>, u32> {
        entries_of(self.lobbies)
    }
}

impl Lobbies {
    /// No lobbies.
    pub fn new() -> (lobbies: Lobbies)
        ensures
            lobbies@ == Map::<Seq<char>, u32>::empty(),
    {
        let lobbies = Lobbies { lobbies: new_table() };
        assert(lobbies@ =~= Map::<Seq<char>, u32>::empty());
        lobbies
    }

    /// Whether there are no lobbies.
    pub fn is_empty(&self) -> (empty: bool)
        ensures
            empty == (self@ == Map::<Seq<char>, u32>::empty()),
    {
        let empty: bool = has_no_entries(&self.lobbies);
        proof {
            if empty {
                assert(self@ =~= Map::<Seq<char>, u32>::empty());
            }
        }
        empty
    }

    /// Adds a lobby under the name, unless the name is taken.
    pub fn create_lobby(&mut self, name: String, owner: u32) -> (created: bool)
        ensures
            created == !old(self)@.contains_key(name@),
            final(self)@ == (if created {
                old(self)@.insert(name@, owner)
            } else {
                old(self)@
            }),
    {
        insert_entry(&mut self.lobbies, name, owner)
    }

    /// Adds a lobby under the first of the names that is not taken.
    pub fn create_first(&mut self, names: &Vec<String>, owner: u32) -> (drawing: Drawing<String>)
        ensures
            drawing == first_free_name(names@, old(self)@),
            final(self)@ == (match drawing {
                Drawing::Found(name) => old(self)@.insert(name@, owner),
                Drawing::DrawOn => old(self)@,
            }),
    {
        assert(names@.skip(0) =~= names@);
        for i in 0..names.len()
            invariant
                self@ == old(self)@,
                first_free_name(names@, old(self)@) == first_free_name(
                    names@.skip(i as int),
                    old(self)@,
                ),
        {
            let name: String = names[i].clone();
            if self.create_lobby(names[i].clone(), owner) {
                return Drawing::Found(name);
            }
            assert(names@.skip(i as int).drop_first() =~= names@.skip(i + 1));
        }
        Drawing::DrawOn
    }

    /// Adds a lobby under a name that is left to chance: the first of that many draws that is not
    /// taken.
    pub fn handle_create_lobby(&mut self, owner: u32, draws: usize) -> (drawing: Drawing<String>)
        ensures
            exists|names: Seq<String>| #[trigger]
                drawn_names(names, draws as nat) && drawing == first_free_name(
                    names,
                    old(self)@,
                ),
            final(self)@ == (match drawing {
                Drawing::Found(name) => old(self)@.insert(name@, owner),
                Drawing::DrawOn => old(self)@,
            }),
    {
        let names: Vec<String> = draw_names(draws);
        self.create_first(&names, owner)
    }

    /// Finds the lobby with this name.
    pub fn handle_join_lobby(&self, name: String) -> (owner: Result<u32, HandshakeErr>)
        ensures
            owner == (if self@.contains_key(name@) {
                Ok::<u32, HandshakeErr>(self@[name@])
            } else {
                Err::<u32, HandshakeErr>(HandshakeErr::NoSuchLobby(name))
            }),
    {
        match get_entry(&self.lobbies, name.as_str()) {
            Some(owner) => Ok(owner),
            None => Err(HandshakeErr::NoSuchLobby(name)),
        }
    }

    /// Does the tidying up. If there was such a lobby, the result tells who had created it.
    pub fn handle_cleanup(&mut self, work: CleanupWorkItem) -> (owner: Option<u32>)
        ensures
            final(self)@ == old(self)@.remove(work.lobby_name()),
            owner == (if old(self)@.contains_key(work.lobby_name()) {
                Some(old(self)@[work.lobby_name()])
            } else {
                None::<u32>
            }),
    {
        match work {
            CleanupWorkItem::DeleteLobby(lobby_name) => remove_entry(
                &mut self.lobbies,
                lobby_name.as_str(),
            ),
        }
    }
}

/// The state of the server.
#[verifier::ext_equal]
pub struct StateView {
    /// The lobbies, each with the connection that created it.
    pub lobbies: Map<Seq<char>, u32>,
    /// The ids that connections were given.
    pub peer_ids: Set<u32>,
}

impl StateView {
    /// Each lobby was created by a connection, and each connection creates one lobby at most.
    pub open spec fn wf(self) -> bool {
        &&& forall|name: Seq<char>| #[trigger]
            self.lobbies.contains_key(name) ==> self.peer_ids.contains(self.lobbies[name])
        &&& forall|a: Seq<char>, b: Seq<char>|
            #![trigger self.lobbies[a], self.lobbies[b]]
            self.lobbies.contains_key(a) && self.lobbies.contains_key(b) && self.lobbies[a]
                == self.lobbies[b] ==> a == b
    }

    pub open spec fn with_peer(self, id: u32) -> StateView {
        StateView { peer_ids: self.peer_ids.insert(id), ..self }
    }

    pub open spec fn with_lobby(self, name: Seq<char>, owner: u32) -> StateView {
        StateView { lobbies: self.lobbies.insert(name, owner), ..self }
    }

    pub open spec fn without_lobby(self, name: Seq<char>) -> StateView {
        StateView { lobbies: self.lobbies.remove(name), ..self }
    }

    /// Whether a connection can have come this far: it is to get a lobby under an id that it was
    /// given, and has none yet.
    pub open spec fn fits(self, progress: Progress) -> bool {
        progress matches Progress::Unnamed { peer, .. } ==> {
            &&& self.peer_ids.contains(peer.id)
            &&& forall|name: Seq<char>| #[trigger]
                self.lobbies.contains_key(name) ==> self.lobbies[name] != peer.id
        }
    }

    /// What becomes of a connection without an id.
    pub open spec fn identify(self, message: InitialMessage, drawing: Drawing<u32>) -> (
        StateView,
        Result<Progress, HandshakeErr>,
    ) {
        match drawing {
            Drawing::Found(id) => (
                self.with_peer(id),
                identified_result(self.lobbies, message, NewPeer { id }),
            ),
            Drawing::DrawOn => (self, Ok(Progress::Unidentified(message))),
        }
    }

    /// What becomes of a connection that is to be the host of a new lobby.
    pub open spec fn name_lobby(self, peer: NewPeer, mesh: bool, drawing: Drawing<String>) -> (
        StateView,
        Result<Progress, HandshakeErr>,
    ) {
        match drawing {
            Drawing::Found(name) => (
                self.with_lobby(name@, peer.id),
                Ok(Progress::Admitted(Admission::Created { peer, name, mesh })),
            ),
            Drawing::DrawOn => (self, Ok(Progress::Unnamed { peer, mesh })),
        }
    }
}

/// What becomes of a connection that has an id.
pub open spec fn identified_result(
    lobbies: Map<Seq<char>, u32>,
    message: InitialMessage,
    peer: NewPeer,
) -> Result<Progress, HandshakeErr> {
    match message {
        InitialMessage::Create { mesh } => Ok(Progress::Unnamed { peer, mesh }),
        InitialMessage::Join { name } => if lobbies.contains_key(name@) {
            Ok(Progress::Admitted(Admission::Joining { peer, owner: lobbies[name@] }))
        } else {
            Err(HandshakeErr::NoSuchLobby(name))
        },
    }
}

/// What the server knows.
pub struct State {
    lobbies: Lobbies,
    peer_ids: scc::HashSet<u32>,
}

impl View for State {
    type V = StateView;

    closed spec fn view(&self) -> StateView {
        StateView { lobbies: self.lobbies@, peer_ids: numbers_in(self.peer_ids) }
    }
}

impl State {
    /// A server without connections.
    pub fn new() -> (state: State)
        ensures
            state@ == (StateView { lobbies: Map::empty(), peer_ids: Set::empty() }),
            state@.wf(),
    {
        State { lobbies: Lobbies::new(), peer_ids: new_number_set() }
    }

    /// The lobbies that can be joined.
    pub fn lobbies(&self) -> (lobbies: &Lobbies)
        ensures
            lobbies@ == self@.lobbies,
    {
        &self.lobbies
    }

    /// Gives the id to a connection, unless another one was given it before.
    pub fn claim_peer(&mut self, peer_id: u32) -> (claimed: bool)
        ensures
            claimed == !old(self)@.peer_ids.contains(peer_id),
            final(self)@ == old(self)@.with_peer(peer_id),
    {
        insert_number(&mut self.peer_ids, peer_id)
    }

    /// Gives a connection the first of the ids that is not in use.
    pub fn claim_first(&mut self, ids: &Vec<u32>) -> (drawing: Drawing<u32>)
        ensures
            drawing == first_free_id(ids@, old(self)@.peer_ids),
            final(self)@ == (match drawing {
                Drawing::Found(id) => old(self)@.with_peer(id),
                Drawing::DrawOn => old(self)@,
            }),
    {
        assert(ids@.skip(0) =~= ids@);
        for i in 0..ids.len()
            invariant
                self@ == old(self)@,
                first_free_id(ids@, old(self)@.peer_ids) == first_free_id(
                    ids@.skip(i as int),
                    old(self)@.peer_ids,
                ),
        {
            let peer_id: u32 = ids[i];
            if self.claim_peer(peer_id) {
                return Drawing::Found(peer_id);
            }
            assert(self@.peer_ids =~= old(self)@.peer_ids);
            assert(ids@.skip(i as int).drop_first() =~= ids@.skip(i + 1));
        }
        Drawing::DrawOn
    }

    /// Gives a connection an id that is left to chance: the first of that many draws that is not
    /// in use.
    pub fn allocate_peer(&mut self, draws: usize) -> (drawing: Drawing<u32>)
        ensures
            exists|ids: Seq<u32>|
                ids.len() == draws && drawing == #[trigger] first_free_id(
                    ids,
                    old(self)@.peer_ids,
                ),
            final(self)@ == (match drawing {
                Drawing::Found(id) => old(self)@.with_peer(id),
                Drawing::DrawOn => old(self)@,
            }),
    {
        let ids: Vec<u32> = draw_ids(draws);
        self.claim_first(&ids)
    }

    /// Goes on with a connection whose id was drawn: it is to get a lobby of its own, or is led
    /// to the one that it names.
    pub fn identified(&self, message: InitialMessage, peer: NewPeer) -> (result: Result<
        Progress,
        HandshakeErr,
    >)
        ensures
            result == identified_result(self@.lobbies, message, peer),
    {
        match message {
            InitialMessage::Create { mesh } => Ok(Progress::Unnamed { peer, mesh }),
            InitialMessage::Join { name } => match self.lobbies.handle_join_lobby(name) {
                Ok(owner) => Ok(Progress::Admitted(Admission::Joining { peer, owner })),
                Err(err) => Err(err),
            },
        }
    }

    /// Goes on with a connection, by that many draws. It has to be called until the connection is
    /// taken in or refused.
    pub fn go_on(&mut self, progress: Progress, draws: usize) -> (result: Result<
        Progress,
        HandshakeErr,
    >)
        ensures
            match progress {
                Progress::Unidentified(message) => exists|ids: Seq<u32>|
                    ids.len() == draws && (final(self)@, result) == old(self)@.identify(
                        message,
                        #[trigger] first_free_id(ids, old(self)@.peer_ids),
                    ),
                Progress::Unnamed { peer, mesh } => exists|names: Seq<String>| #[trigger]
                    drawn_names(names, draws as nat) && (final(self)@, result) == old(
                        self,
                    )@.name_lobby(peer, mesh, first_free_name(names, old(self)@.lobbies)),
                Progress::Admitted(_) => final(self)@ == old(self)@ && result == Ok::<
                    Progress,
                    HandshakeErr,
                >(progress),
            },
    {
        match progress {
            Progress::Unidentified(message) => match self.allocate_peer(draws) {
                Drawing::Found(id) => self.identified(message, NewPeer { id }),
                Drawing::DrawOn => Ok(Progress::Unidentified(message)),
            },
            Progress::Unnamed { peer, mesh } => match self.lobbies.handle_create_lobby(
                peer.id,
                draws,
            ) {
                Drawing::Found(name) => Ok(
                    Progress::Admitted(Admission::Created { peer, name, mesh }),
                ),
                Drawing::DrawOn => Ok(Progress::Unnamed { peer, mesh }),
            },
            Progress::Admitted(admission) => Ok(Progress::Admitted(admission)),
        }
    }

    /// Begins to take a connection in, now that its first text was read.
    pub fn handle_websocket(
        &mut self,
        parsed: Result<InitialMessage, String>,
        draws: usize,
    ) -> (result: Result<Progress, HandshakeErr>)
        ensures
            match parsed {
                Ok(message) => exists|ids: Seq<u32>|
                    ids.len() == draws && (final(self)@, result) == old(self)@.identify(
                        message,
                        #[trigger] first_free_id(ids, old(self)@.peer_ids),
                    ),
                Err(err) => final(self)@ == old(self)@ && result == Err::<Progress, HandshakeErr>(
                    HandshakeErr::NotAnInitialMessage(err),
                ),
            },
    {
        match parsed {
            Ok(message) => self.go_on(Progress::Unidentified(message), draws),
            Err(err) => Err(HandshakeErr::NotAnInitialMessage(err)),
        }
    }

    /// Does the tidying up. If there was such a lobby, the result tells who had created it.
    pub fn handle_cleanup(&mut self, work: CleanupWorkItem) -> (owner: Option<u32>)
        ensures
            final(self)@ == old(self)@.without_lobby(work.lobby_name()),
            owner == (if old(self)@.lobbies.contains_key(work.lobby_name()) {
                Some(old(self)@.lobbies[work.lobby_name()])
            } else {
                None::<u32>
            }),
    {
        self.lobbies.handle_cleanup(work)
    }
}

} // verus!
