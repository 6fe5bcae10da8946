//! How errors read.
//!
//! The text of an error says what went wrong. Where something outside failed, its own description
//! is the cause of the error and not part of the text.

use vstd::prelude::*;
use crate::lobby::{Attempt, LobbyErr, WorkItemErr};
use crate::outside::{decimal, digit};
use crate::server::HandshakeErr;

verus! {

/// The text of a decimal digit.
fn digit_text(d: u32) -> (text: &'static str)
    requires
        d < 10,
    ensures
        text@ == seq![digit(d as nat)],
{
    proof {
        reveal_strlit("0");
        reveal_strlit("1");
        reveal_strlit("2");
        reveal_strlit("3");
        reveal_strlit("4");
        reveal_strlit("5");
        reveal_strlit("6");
        reveal_strlit("7");
        reveal_strlit("8");
        reveal_strlit("9");
    }
    match d {
        0 => "0",
        1 => "1",
        2 => "2",
        3 => "3",
        4 => "4",
        5 => "5",
        6 => "6",
        7 => "7",
        8 => "8",
        _ => "9",
    }
}

/// The decimal digits of a number.
fn number_text(n: u32) -> (text: String)
    ensures
        text@ == decimal(n as nat),
    decreases n,
{
    if n < 10 {
        digit_text(n).to_owned()
    } else {
        let text: String = number_text(n / 10).concat(digit_text(n % 10));
        assert(text@ =~= decimal(n as nat));
        text
    }
}

impl LobbyErr {
    /// The text of an error in the lobby with this name.
    pub open spec fn spec_text(self, lobby_name: Seq<char>) -> Seq<char> {
        match self {
            LobbyErr::SendFailed(_) => "error sending message"@,
            LobbyErr::NoSuchPeer(id) => "no such peer "@ + decimal(id as nat) + " to relay to"@,
            LobbyErr::NotAMember(id) => "peer "@ + decimal(id as nat) + " tried to leave lobby "@
                + lobby_name + " without being in it"@,
            LobbyErr::HostHungUp => "host hung up"@,
            LobbyErr::PeerHungUp => "peer hung up"@,
            LobbyErr::ReceiveFailed(err) => "error receiving message: "@ + err@,
            LobbyErr::NotARelayMessage(_) => "failed to parse as RelayMessage"@,
            LobbyErr::BinaryFrame => "should never get binary websocket message"@,
        }
    }

    /// The text of an error in the lobby with this name.
    pub fn text(&self, lobby_name: &str) -> (text: String)
        ensures
            text@ == self.spec_text(lobby_name@),
    {
        match self {
            LobbyErr::SendFailed(_) => "error sending message".to_owned(),
            LobbyErr::NoSuchPeer(id) => "no such peer ".to_owned().concat(
                number_text(*id).as_str(),
            ).concat(" to relay to"),
            LobbyErr::NotAMember(id) => "peer ".to_owned().concat(
                number_text(*id).as_str(),
            ).concat(" tried to leave lobby ").concat(lobby_name).concat(" without being in it"),
            LobbyErr::HostHungUp => "host hung up".to_owned(),
            LobbyErr::PeerHungUp => "peer hung up".to_owned(),
            LobbyErr::ReceiveFailed(err) => "error receiving message: ".to_owned().concat(
                err.as_str(),
            ),
            LobbyErr::NotARelayMessage(_) => "failed to parse as RelayMessage".to_owned(),
            LobbyErr::BinaryFrame => "should never get binary websocket message".to_owned(),
        }
    }

    /// The outside failure behind an error.
    pub open spec fn spec_cause(self) -> Option<String> {
        match self {
            LobbyErr::SendFailed(err) => Some(err),
            LobbyErr::NotARelayMessage(err) => Some(err),
            _ => None,
        }
    }

    /// The outside failure behind an error.
    pub fn cause(&self) -> (cause: Option<String>)
        ensures
            cause == self.spec_cause(),
    {
        match self {
            LobbyErr::SendFailed(err) => Some(err.clone()),
            LobbyErr::NotARelayMessage(err) => Some(err.clone()),
            _ => None,
        }
    }
}

impl Attempt {
    /// The text of the failure of an attempt. The error that it failed with is its cause.
    pub open spec fn spec_text(self) -> Seq<char> {
        match self {
            Attempt::Join => "failed to join new peer to lobby"@,
            Attempt::Relay => "failed to relay message"@,
            Attempt::Leave => "failed to leave lobby with errored peer"@,
        }
    }

    /// The text of the failure of an attempt. The error that it failed with is its cause.
    pub fn text(self) -> (text: String)
        ensures
            text@ == self.spec_text(),
    {
        match self {
            Attempt::Join => "failed to join new peer to lobby".to_owned(),
            Attempt::Relay => "failed to relay message".to_owned(),
            Attempt::Leave => "failed to leave lobby with errored peer".to_owned(),
        }
    }
}

impl WorkItemErr {
    /// The text of a work item's error in the lobby with this name.
    pub open spec fn spec_text(self, lobby_name: Seq<char>) -> Seq<char> {
        match self {
            WorkItemErr::NonFatal(attempt, _) => attempt.spec_text(),
            WorkItemErr::FatalForPeer(_, err) => err.spec_text(lobby_name),
            WorkItemErr::FatalForLobby(err) => err.spec_text(lobby_name),
        }
    }

    /// The text of a work item's error in the lobby with this name.
    pub fn text(&self, lobby_name: &str) -> (text: String)
        ensures
            text@ == self.spec_text(lobby_name@),
    {
        match self {
            WorkItemErr::NonFatal(attempt, _) => attempt.text(),
            WorkItemErr::FatalForPeer(_, err) => err.text(lobby_name),
            WorkItemErr::FatalForLobby(err) => err.text(lobby_name),
        }
    }
}

impl HandshakeErr {
    /// The text of an error.
    pub open spec fn spec_text(self) -> Seq<char> {
        match self {
            HandshakeErr::ReceiveFailed(_) => "error receiving initial message"@,
            HandshakeErr::TextExpected => "expecting text message"@,
            HandshakeErr::NotAnInitialMessage(_) => "failed to parse initial message"@,
            HandshakeErr::NoSuchLobby(name) => "no such lobby "@ + name@,
        }
    }

    /// The text of an error.
    pub fn text(&self) -> (text: String)
        ensures
            text@ == self.spec_text(),
    {
        match self {
            HandshakeErr::ReceiveFailed(_) => "error receiving initial message".to_owned(),
            HandshakeErr::TextExpected => "expecting text message".to_owned(),
            HandshakeErr::NotAnInitialMessage(_) => "failed to parse initial message".to_owned(),
            HandshakeErr::NoSuchLobby(name) => "no such lobby ".to_owned().concat(name.as_str()),
        }
    }

    /// The outside failure behind an error.
    pub open spec fn spec_cause(self) -> Option<String> {
        match self {
            HandshakeErr::ReceiveFailed(err) => Some(err),
            HandshakeErr::NotAnInitialMessage(err) => Some(err),
            _ => None,
        }
    }

    /// The outside failure behind an error.
    pub fn cause(&self) -> (cause: Option<String>)
        ensures
            cause == self.spec_cause(),
    {
        match self {
            HandshakeErr::ReceiveFailed(err) => Some(err.clone()),
            HandshakeErr::NotAnInitialMessage(err) => Some(err.clone()),
            _ => None,
        }
    }
}

} // verus!
