//! What the server and its peers say to each other.

use vstd::prelude::*;

verus! {

/// A message from the server to a peer.
#[derive(Debug, PartialEq, Eq)]
pub enum LobbyMessage {
    /// Tells a peer the id that the lobby assigned to it.
    Id { assigned: u32, mesh: bool },
    /// Tells the host the name under which its lobby can be joined.
    CreatedLobby { name: String },
    JoinedLobby,
    /// Introduces a peer.
    PeerConnect { peer_id: u32 },
    /// Reports that a peer is gone.
    PeerDisconnect { peer_id: u32 },
    Seal,
    /// Passes on what the peer `peer_id` has sent.
    RelayedMessage { kind: RelayMessageKind, data: String, peer_id: u32 },
}

/// The kinds of session description that peers exchange through the server.
#[derive(Debug, Clone, Copy, PartialEq, Eq, Structural)]
pub enum RelayMessageKind {
    Offer,
    Answer,
    Candidate,
}

/// A peer's request to pass `data` on to the peer `dest_id` of its lobby.
#[derive(Debug, PartialEq, Eq)]
pub struct RelayMessage {
    pub kind: RelayMessageKind,
    pub dest_id: u32,
    pub data: String,
}

/// The first message on a connection.
#[derive(Debug, PartialEq, Eq)]
pub enum InitialMessage {
    Create { mesh: bool },
    Join { name: String },
}

/// A websocket message, as far as the server looks into it.
#[derive(Debug, PartialEq, Eq)]
pub enum Frame {
    Text(String),
    Binary,
    Ping,
    Pong,
    Close,
}

/// What reading a websocket gives: nothing once the peer has hung up, a frame, or the
/// description of what went wrong.
pub type Received = Option<Result<Frame, String>>;

/// A message on its way to the peer `to`.
#[derive(Debug, PartialEq, Eq)]
pub struct Outgoing {
    pub to: u32,
    pub message: LobbyMessage,
}

} // verus!
