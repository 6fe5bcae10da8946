//! The text in which messages travel: JSON objects with the message under the key `payload`.

use vstd::prelude::*;
use crate::message::{LobbyMessage, RelayMessageKind};
use crate::outside::{decimal, json_string, number_to_json, string_to_json};
use crate::spelling::law_text_of_relayed_messages;

verus! {

/// A member of a JSON object.
pub open spec fn member(key: Seq<char>, value: Seq<char>) -> Seq<char> {
    json_string(key) + seq![':'] + value
}

/// The texts, separated by commas.
pub open spec fn separated(texts: Seq<Seq<char>>) -> Seq<char>
    decreases texts.len(),
{
    if texts.len() == 0 {
        seq![]
    } else if texts.len() == 1 {
        texts[0]
    } else {
        separated(texts.drop_last()) + seq![','] + texts.last()
    }
}

/// The JSON object with these members.
pub open spec fn object(members: Seq<Seq<char>>) -> Seq<char> {
    seq!['{'] + separated(members) + seq!['}']
}

/// The JSON value for `b`.
pub open spec fn boolean(b: bool) -> Seq<char> {
    if b {
        "true"@
    } else {
        "false"@
    }
}

/// The name of a kind of relay message.
pub open spec fn kind_name(kind: RelayMessageKind) -> Seq<char> {
    match kind {
        RelayMessageKind::Offer => "Offer"@,
        RelayMessageKind::Answer => "Answer"@,
        RelayMessageKind::Candidate => "Candidate"@,
    }
}

/// The message: its name alone if it has no content, else an object with its content under its
/// name.
pub open spec fn payload(message: LobbyMessage) -> Seq<char> {
    match message {
        LobbyMessage::Id { assigned, mesh } => object(
            seq![
                member(
                    "Id"@,
                    object(
                        seq![
                            member("assigned"@, decimal(assigned as nat)),
                            member("mesh"@, boolean(mesh)),
                        ],
                    ),
                ),
            ],
        ),
        LobbyMessage::CreatedLobby { name } => object(
            seq![member("CreatedLobby"@, object(seq![member("name"@, json_string(name@))]))],
        ),
        LobbyMessage::JoinedLobby => json_string("JoinedLobby"@),
        LobbyMessage::PeerConnect { peer_id } => object(
            seq![
                member("PeerConnect"@, object(seq![member("peer_id"@, decimal(peer_id as nat))])),
            ],
        ),
        LobbyMessage::PeerDisconnect { peer_id } => object(
            seq![
                member(
                    "PeerDisconnect"@,
                    object(seq![member("peer_id"@, decimal(peer_id as nat))]),
                ),
            ],
        ),
        LobbyMessage::Seal => json_string("Seal"@),
        LobbyMessage::RelayedMessage { kind, data, peer_id } => object(
            seq![
                member(
                    "RelayedMessage"@,
                    object(
                        seq![
                            member("kind"@, json_string(kind_name(kind))),
                            member("data"@, json_string(data@)),
                            member("peer_id"@, decimal(peer_id as nat)),
                        ],
                    ),
                ),
            ],
        ),
    }
}

/// The text of a message.
pub open spec fn wire_text(message: LobbyMessage) -> Seq<char> {
    object(seq![member("payload"@, payload(message))])
}

/// A member of a JSON object.
fn write_member(key: &str, value: String) -> (text: String)
    ensures
        text@ == member(key@, value@),
{
    proof {
        reveal_strlit(":");
        assert(":"@ =~= seq![':']);
    }
    string_to_json(key).concat(":").concat(value.as_str())
}

/// The JSON object with these members.
fn write_object(members: Vec<String>) -> (text: String)
    ensures
        text@ == object(members@.map_values(|member: String| member@)),
{
    let ghost all = members@.map_values(|member: String| member@);
    let mut inner: String = String::new();
    proof {
        reveal_strlit("{");
        reveal_strlit("}");
        reveal_strlit(",");
        assert("{"@ =~= seq!['{']);
        assert("}"@ =~= seq!['}']);
        assert(","@ =~= seq![',']);
        assert(all.take(0) =~= seq![]);
    }
    for i in 0..members.len()
        invariant
            all == members@.map_values(|member: String| member@),
            ","@ == seq![','],
            inner@ == separated(all.take(i as int)),
    {
        proof {
            assert(all.take(i + 1).drop_last() =~= all.take(i as int));
            assert(all.take(i + 1).last() == members@[i as int]@);
        }
        if i > 0 {
            inner = inner.concat(",").concat(members[i].as_str());
        } else {
            inner = inner.concat(members[i].as_str());
            assert(inner@ =~= members@[0]@);
        }
    }
    proof {
        assert(all.take(members@.len() as int) =~= all);
    }
    "{".to_owned().concat(inner.as_str()).concat("}")
}

/// The JSON object with one member.
fn write_single(key: &str, value: String) -> (text: String)
    ensures
        text@ == object(seq![member(key@, value@)]),
{
    let mut members: Vec<String> = Vec::new();
    members.push(write_member(key, value));
    proof {
        assert(members@.map_values(|member: String| member@) =~= seq![member(key@, value@)]);
    }
    write_object(members)
}

/// The JSON value for `b`.
fn write_boolean(b: bool) -> (text: String)
    ensures
        text@ == boolean(b),
{
    if b {
        "true".to_owned()
    } else {
        "false".to_owned()
    }
}

impl RelayMessageKind {
    /// The name of a kind of relay message.
    pub fn name(self) -> (name: &'static str)
        ensures
            name@ == kind_name(self),
    {
        match self {
            RelayMessageKind::Offer => "Offer",
            RelayMessageKind::Answer => "Answer",
            RelayMessageKind::Candidate => "Candidate",
        }
    }
}

/// The message under its name.
fn write_payload(message: &LobbyMessage) -> (text: String)
    ensures
        text@ == payload(*message),
{
    match message {
        LobbyMessage::Id { assigned, mesh } => {
            let mut content: Vec<String> = Vec::new();
            content.push(write_member("assigned", number_to_json(*assigned)));
            content.push(write_member("mesh", write_boolean(*mesh)));
            proof {
                assert(content@.map_values(|member: String| member@) =~= seq![
                    member("assigned"@, decimal(*assigned as nat)),
                    member("mesh"@, boolean(*mesh)),
                ]);
            }
            write_single("Id", write_object(content))
        },
        LobbyMessage::CreatedLobby { name } => write_single(
            "CreatedLobby",
            write_single("name", string_to_json(name.as_str())),
        ),
        LobbyMessage::JoinedLobby => string_to_json("JoinedLobby"),
        LobbyMessage::PeerConnect { peer_id } => write_single(
            "PeerConnect",
            write_single("peer_id", number_to_json(*peer_id)),
        ),
        LobbyMessage::PeerDisconnect { peer_id } => write_single(
            "PeerDisconnect",
            write_single("peer_id", number_to_json(*peer_id)),
        ),
        LobbyMessage::Seal => string_to_json("Seal"),
        LobbyMessage::RelayedMessage { kind, data, peer_id } => {
            let mut content: Vec<String> = Vec::new();
            content.push(write_member("kind", string_to_json(kind.name())));
            content.push(write_member("data", string_to_json(data.as_str())));
            content.push(write_member("peer_id", number_to_json(*peer_id)));
            proof {
                assert(content@.map_values(|member: String| member@) =~= seq![
                    member("kind"@, json_string(kind_name(*kind))),
                    member("data"@, json_string(data@)),
                    member("peer_id"@, decimal(*peer_id as nat)),
                ]);
            }
            write_single("RelayedMessage", write_object(content))
        },
    }
}

/// The text in which a message is sent to a peer.
pub fn encode(message: &LobbyMessage) -> (text: String)
    ensures
        text@ == wire_text(*message),
        *message matches LobbyMessage::RelayedMessage {
            kind: RelayMessageKind::Offer,
            data,
            peer_id,
        } ==> text@ == "{\"payload\":{\"RelayedMessage\":{\"kind\":\"Offer\",\"data\":"@
            + json_string(data@) + ",\"peer_id\":"@ + decimal(peer_id as nat) + "}}}"@,
        *message matches LobbyMessage::RelayedMessage {
            kind: RelayMessageKind::Answer,
            data,
            peer_id,
        } ==> text@ == "{\"payload\":{\"RelayedMessage\":{\"kind\":\"Answer\",\"data\":"@
            + json_string(data@) + ",\"peer_id\":"@ + decimal(peer_id as nat) + "}}}"@,
        *message matches LobbyMessage::RelayedMessage {
            kind: RelayMessageKind::Candidate,
            data,
            peer_id,
        } ==> text@ == "{\"payload\":{\"RelayedMessage\":{\"kind\":\"Candidate\",\"data\":"@
            + json_string(data@) + ",\"peer_id\":"@ + decimal(peer_id as nat) + "}}}"@,
{
    proof {
        if let LobbyMessage::RelayedMessage { kind: _, data, peer_id } = message {
            law_text_of_relayed_messages(*data, *peer_id);
        }
    }
    write_single("payload", write_payload(message))
}

} // verus!
