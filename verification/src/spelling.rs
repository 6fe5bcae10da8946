//! What is written, letter for letter.

use vstd::prelude::*;
use crate::lobby::{Attempt, LobbyErr, WorkItemErr};
use crate::message::{LobbyMessage, RelayMessageKind};
use crate::outside::{decimal, json_escape, json_escaped, json_string};
use crate::server::HandshakeErr;
use crate::unambiguous::{lemma_three_members, lemma_two_members};
use crate::wire::{kind_name, member, object, payload, wire_text};

verus! {

/// Whether a character stands for itself inside a JSON string.
pub open spec fn is_plain(c: char) -> bool {
    c as int >= 32 && c != '"' && c != '\\'
}

/// Plain characters are written as they are.
proof fn lemma_plain(s: Seq<char>)
    requires
        forall|i: int| 0 <= i < s.len() ==> is_plain(#[trigger] s[i]),
    ensures
        json_escaped(s) == s,
        json_string(s) == seq!['"'] + s + seq!['"'],
    decreases s.len(),
{
    if s.len() > 0 {
        assert(is_plain(s[0]));
        assert forall|i: int| 0 <= i < s.drop_first().len() implies is_plain(
            #[trigger] s.drop_first()[i],
        ) by {
            assert(s.drop_first()[i] == s[i + 1]);
        }
        lemma_plain(s.drop_first());
        assert(json_escaped(s) =~= s);
    }
}

/// A member with a plain key.
proof fn lemma_member(key: Seq<char>, value: Seq<char>)
    requires
        forall|i: int| 0 <= i < key.len() ==> is_plain(#[trigger] key[i]),
    ensures
        member(key, value) == seq!['"'] + key + seq!['"', ':'] + value,
{
    lemma_plain(key);
    assert(member(key, value) =~= seq!['"'] + key + seq!['"', ':'] + value);
}

/// An object with one member that has a plain key.
proof fn lemma_single_member(key: Seq<char>, value: Seq<char>)
    requires
        forall|i: int| 0 <= i < key.len() ==> is_plain(#[trigger] key[i]),
    ensures
        object(seq![member(key, value)]) == seq!['{', '"'] + key + seq!['"', ':'] + value
            + seq!['}'],
{
    lemma_member(key, value);
    assert(object(seq![member(key, value)]) =~= seq!['{', '"'] + key + seq!['"', ':'] + value
        + seq!['}']);
}

/// The text of a message is its payload in an envelope.
proof fn lemma_envelope(message: LobbyMessage)
    ensures
        wire_text(message) == "{\"payload\":"@ + payload(message) + "}"@,
{
    reveal_strlit("payload");
    reveal_strlit("{\"payload\":");
    reveal_strlit("}");
    lemma_single_member("payload"@, payload(message));
    assert(wire_text(message) =~= "{\"payload\":"@ + payload(message) + "}"@);
}

/// How the messages without content read.
pub proof fn law_text_of_bare_messages()
    ensures
        wire_text(LobbyMessage::JoinedLobby) == "{\"payload\":\"JoinedLobby\"}"@,
        wire_text(LobbyMessage::Seal) == "{\"payload\":\"Seal\"}"@,
{
    reveal_strlit("{\"payload\":");
    reveal_strlit("}");
    lemma_envelope(LobbyMessage::JoinedLobby);
    lemma_envelope(LobbyMessage::Seal);
    reveal_strlit("JoinedLobby");
    reveal_strlit("{\"payload\":\"JoinedLobby\"}");
    lemma_plain("JoinedLobby"@);
    assert(wire_text(LobbyMessage::JoinedLobby) =~= "{\"payload\":\"JoinedLobby\"}"@);
    reveal_strlit("Seal");
    reveal_strlit("{\"payload\":\"Seal\"}");
    lemma_plain("Seal"@);
    assert(wire_text(LobbyMessage::Seal) =~= "{\"payload\":\"Seal\"}"@);
}

/// How the message that a lobby was created reads.
pub proof fn law_text_of_created_lobbies(name: String)
    ensures
        wire_text(LobbyMessage::CreatedLobby { name })
            == "{\"payload\":{\"CreatedLobby\":{\"name\":"@ + json_string(name@) + "}}}"@,
{
    let message = LobbyMessage::CreatedLobby { name };
    let value = json_string(name@);
    let inner = object(seq![member("name"@, value)]);
    lemma_envelope(message);
    reveal_strlit("{\"payload\":");
    reveal_strlit("}");
    reveal_strlit("}}}");
    reveal_strlit("CreatedLobby");
    reveal_strlit("name");
    reveal_strlit("{\"payload\":{\"CreatedLobby\":{\"name\":");
    lemma_single_member("CreatedLobby"@, inner);
    lemma_single_member("name"@, value);
    assert("{\"payload\":{\"CreatedLobby\":{\"name\":"@ =~= "{\"payload\":"@ + seq![
        '{',
        '"',
    ] + "CreatedLobby"@ + seq!['"', ':', '{', '"'] + "name"@ + seq!['"', ':']);
    assert(wire_text(message) =~= "{\"payload\":{\"CreatedLobby\":{\"name\":"@ + value + "}}}"@);
}

/// How the message that a peer has come reads.
pub proof fn law_text_of_connecting_peers(peer_id: u32)
    ensures
        wire_text(LobbyMessage::PeerConnect { peer_id })
            == "{\"payload\":{\"PeerConnect\":{\"peer_id\":"@ + decimal(peer_id as nat) + "}}}"@,
{
    let message = LobbyMessage::PeerConnect { peer_id };
    let value = decimal(peer_id as nat);
    let inner = object(seq![member("peer_id"@, value)]);
    lemma_envelope(message);
    reveal_strlit("{\"payload\":");
    reveal_strlit("}");
    reveal_strlit("}}}");
    reveal_strlit("PeerConnect");
    reveal_strlit("peer_id");
    reveal_strlit("{\"payload\":{\"PeerConnect\":{\"peer_id\":");
    lemma_single_member("PeerConnect"@, inner);
    lemma_single_member("peer_id"@, value);
    assert("{\"payload\":{\"PeerConnect\":{\"peer_id\":"@ =~= "{\"payload\":"@ + seq![
        '{',
        '"',
    ] + "PeerConnect"@ + seq!['"', ':', '{', '"'] + "peer_id"@ + seq!['"', ':']);
    assert(wire_text(message) =~= "{\"payload\":{\"PeerConnect\":{\"peer_id\":"@ + value + "}}}"@);
}

/// How the message that a peer has gone reads.
pub proof fn law_text_of_disconnecting_peers(peer_id: u32)
    ensures
        wire_text(LobbyMessage::PeerDisconnect { peer_id })
            == "{\"payload\":{\"PeerDisconnect\":{\"peer_id\":"@ + decimal(peer_id as nat) + "}}}"@,
{
    let message = LobbyMessage::PeerDisconnect { peer_id };
    let value = decimal(peer_id as nat);
    let inner = object(seq![member("peer_id"@, value)]);
    lemma_envelope(message);
    reveal_strlit("{\"payload\":");
    reveal_strlit("}");
    reveal_strlit("}}}");
    reveal_strlit("PeerDisconnect");
    reveal_strlit("peer_id");
    reveal_strlit("{\"payload\":{\"PeerDisconnect\":{\"peer_id\":");
    lemma_single_member("PeerDisconnect"@, inner);
    lemma_single_member("peer_id"@, value);
    assert("{\"payload\":{\"PeerDisconnect\":{\"peer_id\":"@ =~= "{\"payload\":"@ + seq![
        '{',
        '"',
    ] + "PeerDisconnect"@ + seq!['"', ':', '{', '"'] + "peer_id"@ + seq!['"', ':']);
    assert(wire_text(message) =~= "{\"payload\":{\"PeerDisconnect\":{\"peer_id\":"@ + value
        + "}}}"@);
}

/// How the message reads that tells a peer its id.
pub proof fn law_text_of_ids(assigned: u32, mesh: bool)
    ensures
        wire_text(LobbyMessage::Id { assigned, mesh }) == "{\"payload\":{\"Id\":{\"assigned\":"@
            + decimal(assigned as nat) + (if mesh {
            ",\"mesh\":true}}}"@
        } else {
            ",\"mesh\":false}}}"@
        }),
{
    let message = LobbyMessage::Id { assigned, mesh };
    let id = decimal(assigned as nat);
    let value = if mesh {
        "true"@
    } else {
        "false"@
    };
    let end = if mesh {
        ",\"mesh\":true}}}"@
    } else {
        ",\"mesh\":false}}}"@
    };
    let inner = object(seq![member("assigned"@, id), member("mesh"@, value)]);
    lemma_envelope(message);
    lemma_two_members(member("assigned"@, id), member("mesh"@, value));
    reveal_strlit("{\"payload\":");
    reveal_strlit("}");
    reveal_strlit("Id");
    reveal_strlit("assigned");
    reveal_strlit("mesh");
    reveal_strlit("true");
    reveal_strlit("false");
    reveal_strlit("{\"payload\":{\"Id\":{\"assigned\":");
    reveal_strlit(",\"mesh\":true}}}");
    reveal_strlit(",\"mesh\":false}}}");
    lemma_single_member("Id"@, inner);
    lemma_member("assigned"@, id);
    lemma_member("mesh"@, value);
    let start = "{\"payload\":{\"Id\":{\"assigned\":"@;
    assert(start =~= "{\"payload\":"@ + seq!['{', '"'] + "Id"@ + seq!['"', ':', '{', '"']
        + "assigned"@ + seq!['"', ':']);
    assert(end =~= seq![',', '"'] + "mesh"@ + seq!['"', ':'] + value + seq!['}', '}', '}']);
    assert(wire_text(message) =~= start + id + end);
}

/// How a relayed message reads: with the name of its kind, the data and the id of its sender.
pub proof fn law_text_of_relayed_messages(data: String, peer_id: u32)
    ensures
        wire_text(LobbyMessage::RelayedMessage { kind: RelayMessageKind::Offer, data, peer_id })
            == "{\"payload\":{\"RelayedMessage\":{\"kind\":\"Offer\",\"data\":"@ + json_string(
            data@,
        ) + ",\"peer_id\":"@ + decimal(peer_id as nat) + "}}}"@,
        wire_text(LobbyMessage::RelayedMessage { kind: RelayMessageKind::Answer, data, peer_id })
            == "{\"payload\":{\"RelayedMessage\":{\"kind\":\"Answer\",\"data\":"@ + json_string(
            data@,
        ) + ",\"peer_id\":"@ + decimal(peer_id as nat) + "}}}"@,
        wire_text(
            LobbyMessage::RelayedMessage { kind: RelayMessageKind::Candidate, data, peer_id },
        ) == "{\"payload\":{\"RelayedMessage\":{\"kind\":\"Candidate\",\"data\":"@ + json_string(
            data@,
        ) + ",\"peer_id\":"@ + decimal(peer_id as nat) + "}}}"@,
{
    reveal_strlit("Offer");
    lemma_relayed(RelayMessageKind::Offer, data, peer_id, "Offer"@);
    lemma_start_of_offers();
    reveal_strlit("Answer");
    lemma_relayed(RelayMessageKind::Answer, data, peer_id, "Answer"@);
    lemma_start_of_answers();
    reveal_strlit("Candidate");
    lemma_relayed(RelayMessageKind::Candidate, data, peer_id, "Candidate"@);
    lemma_start_of_candidates();
}

/// How the text of a relayed message of this kind begins.
proof fn lemma_start_of_offers()
    ensures
        "{\"payload\":{\"RelayedMessage\":{\"kind\":\"Offer\",\"data\":"@
            == "{\"payload\":"@ + "{\"RelayedMessage\":"@ + "{\"kind\":\""@ + "Offer"@
            + "\",\"data\":"@,
{
    reveal_strlit("Offer");
    reveal_strlit("{\"payload\":{\"RelayedMessage\":{\"kind\":\"Offer\",\"data\":");
    reveal_strlit("{\"payload\":");
    reveal_strlit("{\"RelayedMessage\":");
    reveal_strlit("{\"kind\":\"");
    reveal_strlit("\",\"data\":");
}

/// How the text of a relayed message of this kind begins.
proof fn lemma_start_of_answers()
    ensures
        "{\"payload\":{\"RelayedMessage\":{\"kind\":\"Answer\",\"data\":"@
            == "{\"payload\":"@ + "{\"RelayedMessage\":"@ + "{\"kind\":\""@ + "Answer"@
            + "\",\"data\":"@,
{
    reveal_strlit("Answer");
    reveal_strlit("{\"payload\":{\"RelayedMessage\":{\"kind\":\"Answer\",\"data\":");
    reveal_strlit("{\"payload\":");
    reveal_strlit("{\"RelayedMessage\":");
    reveal_strlit("{\"kind\":\"");
    reveal_strlit("\",\"data\":");
}

/// How the text of a relayed message of this kind begins.
proof fn lemma_start_of_candidates()
    ensures
        "{\"payload\":{\"RelayedMessage\":{\"kind\":\"Candidate\",\"data\":"@
            == "{\"payload\":"@ + "{\"RelayedMessage\":"@ + "{\"kind\":\""@ + "Candidate"@
            + "\",\"data\":"@,
{
    reveal_strlit("Candidate");
    reveal_strlit("{\"payload\":{\"RelayedMessage\":{\"kind\":\"Candidate\",\"data\":");
    reveal_strlit("{\"payload\":");
    reveal_strlit("{\"RelayedMessage\":");
    reveal_strlit("{\"kind\":\"");
    reveal_strlit("\",\"data\":");
}

/// The content of a relayed message, given the name of its kind.
proof fn lemma_relayed_content(name: Seq<char>, text: Seq<char>, id: Seq<char>)
    requires
        forall|i: int| 0 <= i < name.len() ==> is_plain(#[trigger] name[i]),
    ensures
        object(
            seq![
                member("kind"@, json_string(name)),
                member("data"@, text),
                member("peer_id"@, id),
            ],
        ) == "{\"kind\":\""@ + name + "\",\"data\":"@ + text + ",\"peer_id\":"@ + id + "}"@,
{
    let first = member("kind"@, json_string(name));
    let second = member("data"@, text);
    let third = member("peer_id"@, id);
    let inner = object(seq![first, second, third]);
    lemma_three_members(first, second, third);
    lemma_plain(name);
    reveal_strlit("kind");
    reveal_strlit("data");
    reveal_strlit("peer_id");
    lemma_member("kind"@, json_string(name));
    lemma_member("data"@, text);
    lemma_member("peer_id"@, id);
    let start = "{\"kind\":\""@;
    let middle = "\",\"data\":"@;
    let end = ",\"peer_id\":"@;
    assert(start == seq!['{', '"'] + "kind"@ + seq!['"', ':', '"']) by {
        reveal_strlit("{\"kind\":\"");
    }
    assert(middle == seq!['"', ',', '"'] + "data"@ + seq!['"', ':']) by {
        reveal_strlit("\",\"data\":");
    }
    assert(end == seq![',', '"'] + "peer_id"@ + seq!['"', ':']) by {
        reveal_strlit(",\"peer_id\":");
    }
    assert("}"@ == seq!['}']) by {
        reveal_strlit("}");
    }
    assert(inner =~= start + name + middle + text + end + id + "}"@);
}

/// A relayed message under its name.
proof fn lemma_relayed_object(value: Seq<char>)
    ensures
        object(seq![member("RelayedMessage"@, value)]) == "{\"RelayedMessage\":"@ + value + "}"@,
{
    reveal_strlit("RelayedMessage");
    reveal_strlit("{\"RelayedMessage\":");
    reveal_strlit("}");
    lemma_single_member("RelayedMessage"@, value);
    assert(object(seq![member("RelayedMessage"@, value)]) =~= "{\"RelayedMessage\":"@ + value
        + "}"@);
}

/// Brackets around brackets stand one before the other, and so do what closes them.
proof fn lemma_nested(a: Seq<char>, b: Seq<char>, inside: Seq<char>, close: Seq<char>)
    ensures
        a + (b + (inside + close) + close) + close == a + b + inside + (close + close + close),
{
    assert(a + (b + (inside + close) + close) + close =~= a + b + inside + (close + close
        + close));
}

/// Texts can be joined one by one.
proof fn lemma_one_by_one(start: Seq<char>, a: Seq<char>, b: Seq<char>, c: Seq<char>)
    ensures
        start + (a + b + c) == start + a + b + c,
{
    assert(start + (a + b + c) =~= start + a + b + c);
}

/// How a relayed message reads, given the name of its kind.
proof fn lemma_relayed(kind: RelayMessageKind, data: String, peer_id: u32, name: Seq<char>)
    requires
        kind_name(kind) == name,
        forall|i: int| 0 <= i < name.len() ==> is_plain(#[trigger] name[i]),
    ensures
        wire_text(LobbyMessage::RelayedMessage { kind, data, peer_id }) == "{\"payload\":"@
            + "{\"RelayedMessage\":"@ + "{\"kind\":\""@ + name + "\",\"data\":"@ + json_string(
            data@,
        ) + ",\"peer_id\":"@ + decimal(peer_id as nat) + "}}}"@,
{
    let message = LobbyMessage::RelayedMessage { kind, data, peer_id };
    let text = json_string(data@);
    let id = decimal(peer_id as nat);
    lemma_envelope(message);
    lemma_relayed_content(name, text, id);
    lemma_relayed_object(
        object(
            seq![
                member("kind"@, json_string(name)),
                member("data"@, text),
                member("peer_id"@, id),
            ],
        ),
    );
    assert("}}}"@ == "}"@ + "}"@ + "}"@) by {
        reveal_strlit("}");
        reveal_strlit("}}}");
    }
    let (a, b) = ("{\"payload\":"@, "{\"RelayedMessage\":"@);
    let front = "{\"kind\":\""@ + name + "\",\"data\":"@;
    let back = front + text + ",\"peer_id\":"@ + id;
    lemma_nested(a, b, back, "}"@);
    lemma_one_by_one(a + b, "{\"kind\":\""@, name, "\",\"data\":"@);
    lemma_one_by_one(a + b, front, text, ",\"peer_id\":"@);
    assert(a + b + back =~= a + b + (front + text + ",\"peer_id\":"@) + id);
}

/// The name of each kind of relay message is that of its variant.
pub proof fn law_names_of_kinds()
    ensures
        kind_name(RelayMessageKind::Offer) == "Offer"@,
        kind_name(RelayMessageKind::Answer) == "Answer"@,
        kind_name(RelayMessageKind::Candidate) == "Candidate"@,
{
}

/// The number that a series of decimal digits stands for.
pub open spec fn number_read(digits: Seq<char>) -> int
    decreases digits.len(),
{
    if digits.len() == 0 {
        0
    } else {
        10 * number_read(digits.drop_last()) + (digits.last() as int - '0' as int)
    }
}

/// A number is written in decimal digits that stand for it, without leading zeros.
pub proof fn law_numbers_read_back(n: nat)
    ensures
        number_read(decimal(n)) == n,
        decimal(n).len() > 0,
        forall|i: int| 0 <= i < decimal(n).len() ==> '0' <= #[trigger] decimal(n)[i] <= '9',
        decimal(n)[0] == '0' ==> n == 0,
    decreases n,
{
    reveal_with_fuel(number_read, 2);
    if n >= 10 {
        law_numbers_read_back(n / 10);
        assert(decimal(n).drop_last() =~= decimal(n / 10));
        assert(decimal(n)[0] == decimal(n / 10)[0]);
    } else {
        assert(decimal(n).drop_last() =~= Seq::<char>::empty());
    }
}

/// The value of a hexadecimal digit.
pub open spec fn hex_read(c: char) -> Option<int> {
    if '0' <= c <= '9' {
        Some(c as int - '0' as int)
    } else if 'a' <= c <= 'f' {
        Some(10 + c as int - 'a' as int)
    } else if 'A' <= c <= 'F' {
        Some(10 + c as int - 'A' as int)
    } else {
        None
    }
}

/// The character that an escape sequence in a JSON string stands for, and the length of the
/// sequence. Of the sequences with four hexadecimal digits only those below U+0100 are read.
pub open spec fn escape_read(text: Seq<char>) -> Option<(char, nat)> {
    if text.len() < 2 || text[0] != '\\' {
        None
    } else if text[1] == '"' || text[1] == '\\' || text[1] == '/' {
        Some((text[1], 2))
    } else if text[1] == 'b' {
        Some((8 as char, 2))
    } else if text[1] == 't' {
        Some((9 as char, 2))
    } else if text[1] == 'n' {
        Some((10 as char, 2))
    } else if text[1] == 'f' {
        Some((12 as char, 2))
    } else if text[1] == 'r' {
        Some((13 as char, 2))
    } else if text[1] == 'u' && text.len() >= 6 && text[2] == '0' && text[3] == '0' {
        match (hex_read(text[4]), hex_read(text[5])) {
            (Some(high), Some(low)) => Some(((16 * high + low) as char, 6)),
            _ => None,
        }
    } else {
        None
    }
}

/// The characters of a JSON string up to the quotation mark that ends it, and what follows that.
pub open spec fn string_read(text: Seq<char>) -> Option<(Seq<char>, Seq<char>)>
    decreases text.len(),
{
    if text.len() == 0 {
        None
    } else if text[0] == '"' {
        Some((Seq::empty(), text.drop_first()))
    } else if text[0] == '\\' {
        match escape_read(text) {
            None => None,
            Some((c, len)) => if 0 < len <= text.len() {
                match string_read(text.skip(len as int)) {
                    None => None,
                    Some((s, rest)) => Some((seq![c] + s, rest)),
                }
            } else {
                None
            },
        }
    } else if 32 > text[0] as int {
        None
    } else {
        match string_read(text.drop_first()) {
            None => None,
            Some((s, rest)) => Some((seq![text[0]] + s, rest)),
        }
    }
}

/// An escaped character is read as that character.
proof fn lemma_escape_read(c: char, text: Seq<char>, s: Seq<char>, rest: Seq<char>)
    requires
        string_read(text) == Some((s, rest)),
    ensures
        string_read(json_escape(c) + text) == Some((seq![c] + s, rest)),
{
    let escaped = json_escape(c);
    let whole = escaped + text;
    assert(whole.skip(escaped.len() as int) =~= text);
    assert(whole.drop_first() =~= whole.skip(1));
    if whole[0] == '\\' {
        assert(escape_read(whole) == Some((c, escaped.len())));
    }
}

/// What is written as a JSON string is read back, whatever it is and whatever follows it.
pub proof fn law_strings_read_back(s: Seq<char>, rest: Seq<char>)
    ensures
        (json_string(s) + rest)[0] == '"',
        string_read((json_string(s) + rest).drop_first()) == Some((s, rest)),
    decreases s.len(),
{
    let text = (json_string(s) + rest).drop_first();
    if s.len() == 0 {
        assert(text =~= seq!['"'] + rest);
        assert(text.drop_first() =~= rest);
        assert(s =~= Seq::<char>::empty());
    } else {
        let inner = (json_string(s.drop_first()) + rest).drop_first();
        law_strings_read_back(s.drop_first(), rest);
        assert(text =~= json_escape(s[0]) + inner);
        lemma_escape_read(s[0], inner, s.drop_first(), rest);
        assert(seq![s[0]] + s.drop_first() =~= s);
    }
}

/// How the errors of a lobby read, and which of them have a cause.
pub proof fn law_texts_of_lobby_errors(failure: String, id: u32, name: Seq<char>)
    ensures
        LobbyErr::SendFailed(failure).spec_text(name) == "error sending message"@,
        LobbyErr::SendFailed(failure).spec_cause() == Some(failure),
        LobbyErr::NoSuchPeer(id).spec_text(name) == "no such peer "@ + decimal(id as nat)
            + " to relay to"@,
        LobbyErr::NoSuchPeer(id).spec_cause() == None::<String>,
        LobbyErr::NotAMember(id).spec_text(name) == "peer "@ + decimal(id as nat)
            + " tried to leave lobby "@ + name + " without being in it"@,
        LobbyErr::NotAMember(id).spec_cause() == None::<String>,
        LobbyErr::HostHungUp.spec_text(name) == "host hung up"@,
        LobbyErr::HostHungUp.spec_cause() == None::<String>,
        LobbyErr::PeerHungUp.spec_text(name) == "peer hung up"@,
        LobbyErr::PeerHungUp.spec_cause() == None::<String>,
        LobbyErr::ReceiveFailed(failure).spec_text(name) == "error receiving message: "@
            + failure@,
        LobbyErr::ReceiveFailed(failure).spec_cause() == None::<String>,
        LobbyErr::NotARelayMessage(failure).spec_text(name) == "failed to parse as RelayMessage"@,
        LobbyErr::NotARelayMessage(failure).spec_cause() == Some(failure),
        LobbyErr::BinaryFrame.spec_text(name) == "should never get binary websocket message"@,
        LobbyErr::BinaryFrame.spec_cause() == None::<String>,
{
}

/// How the errors of a work item read: a failed attempt names itself, and an error that costs a
/// peer its place or ends the lobby reads as that error does.
pub proof fn law_texts_of_work_item_errors(err: LobbyErr, id: u32, name: Seq<char>)
    ensures
        WorkItemErr::NonFatal(Attempt::Join, err).spec_text(name)
            == "failed to join new peer to lobby"@,
        WorkItemErr::NonFatal(Attempt::Relay, err).spec_text(name) == "failed to relay message"@,
        WorkItemErr::NonFatal(Attempt::Leave, err).spec_text(name)
            == "failed to leave lobby with errored peer"@,
        Attempt::Join.spec_text() == "failed to join new peer to lobby"@,
        Attempt::Relay.spec_text() == "failed to relay message"@,
        Attempt::Leave.spec_text() == "failed to leave lobby with errored peer"@,
        WorkItemErr::FatalForPeer(id, err).spec_text(name) == err.spec_text(name),
        WorkItemErr::FatalForLobby(err).spec_text(name) == err.spec_text(name),
{
}

/// How the errors of a connection read, and which of them have a cause.
pub proof fn law_texts_of_handshake_errors(failure: String, name: String)
    ensures
        HandshakeErr::ReceiveFailed(failure).spec_text() == "error receiving initial message"@,
        HandshakeErr::ReceiveFailed(failure).spec_cause() == Some(failure),
        HandshakeErr::TextExpected.spec_text() == "expecting text message"@,
        HandshakeErr::TextExpected.spec_cause() == None::<String>,
        HandshakeErr::NotAnInitialMessage(failure).spec_text()
            == "failed to parse initial message"@,
        HandshakeErr::NotAnInitialMessage(failure).spec_cause() == Some(failure),
        HandshakeErr::NoSuchLobby(name).spec_text() == "no such lobby "@ + name@,
        HandshakeErr::NoSuchLobby(name).spec_cause() == None::<String>,
{
}

} // verus!
