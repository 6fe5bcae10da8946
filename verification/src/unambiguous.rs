//! No two messages share a text: whoever reads one can tell which message was sent.

use vstd::prelude::*;
use crate::message::{LobbyMessage, RelayMessageKind};
use crate::outside::{decimal, digit, json_escape, json_escaped, json_string};
use crate::wire::{boolean, kind_name, member, object, payload, separated, wire_text};

verus! {

/// Whether two messages say the same.
pub open spec fn same_message(a: LobbyMessage, b: LobbyMessage) -> bool {
    match (a, b) {
        (LobbyMessage::CreatedLobby { name: x }, LobbyMessage::CreatedLobby { name: y }) => x@
            == y@,
        (
            LobbyMessage::RelayedMessage { kind: k, data: x, peer_id: p },
            LobbyMessage::RelayedMessage { kind: l, data: y, peer_id: q },
        ) => k == l && x@ == y@ && p == q,
        _ => a == b,
    }
}

/// What follows a common beginning is the same.
proof fn lemma_same_beginning(start: Seq<char>, x: Seq<char>, y: Seq<char>)
    requires
        start + x == start + y,
    ensures
        x == y,
{
    assert(x =~= (start + x).skip(start.len() as int));
    assert(y =~= (start + y).skip(start.len() as int));
}

/// An escaped character is not empty, does not begin like the end of a string, and cannot be
/// mistaken for another one.
proof fn lemma_escape(a: char, b: char, x: Seq<char>, y: Seq<char>)
    ensures
        json_escape(a).len() > 0,
        json_escape(a)[0] != '"',
        json_escape(a) + x == json_escape(b) + y ==> a == b && x == y,
{
    if json_escape(a) + x == json_escape(b) + y {
        let ea = json_escape(a);
        let eb = json_escape(b);
        assert((ea + x)[0] == ea[0]);
        assert((eb + y)[0] == eb[0]);
        if ea.len() > 1 && eb.len() > 1 {
            assert((ea + x)[1] == ea[1]);
            assert((eb + y)[1] == eb[1]);
        }
        if ea.len() == 6 && eb.len() == 6 {
            assert((ea + x)[4] == ea[4]);
            assert((eb + y)[4] == eb[4]);
            assert((ea + x)[5] == ea[5]);
            assert((eb + y)[5] == eb[5]);
        }
        assert(a == b);
        lemma_same_beginning(ea, x, y);
    }
}

/// The end of a JSON string can be told from its inside.
proof fn lemma_escaped(a: Seq<char>, b: Seq<char>, x: Seq<char>, y: Seq<char>)
    requires
        json_escaped(a) + seq!['"'] + x == json_escaped(b) + seq!['"'] + y,
    ensures
        a == b,
        x == y,
    decreases a.len(),
{
    let left = json_escaped(a) + seq!['"'] + x;
    let right = json_escaped(b) + seq!['"'] + y;
    if a.len() == 0 && b.len() == 0 {
        assert(a =~= b);
        assert(left =~= seq!['"'] + x);
        assert(right =~= seq!['"'] + y);
        lemma_same_beginning(seq!['"'], x, y);
    } else if a.len() == 0 {
        lemma_escape(b[0], b[0], x, y);
        assert(left[0] == '"');
        assert(right[0] == json_escape(b[0])[0]);
    } else if b.len() == 0 {
        lemma_escape(a[0], a[0], x, y);
        assert(right[0] == '"');
        assert(left[0] == json_escape(a[0])[0]);
    } else {
        let x2 = json_escaped(a.drop_first()) + seq!['"'] + x;
        let y2 = json_escaped(b.drop_first()) + seq!['"'] + y;
        assert(left =~= json_escape(a[0]) + x2);
        assert(right =~= json_escape(b[0]) + y2);
        lemma_escape(a[0], b[0], x2, y2);
        lemma_escaped(a.drop_first(), b.drop_first(), x, y);
        assert(a =~= seq![a[0]] + a.drop_first());
        assert(b =~= seq![b[0]] + b.drop_first());
    }
}

/// A JSON string at the beginning of a text can be read off.
proof fn lemma_string(a: Seq<char>, b: Seq<char>, x: Seq<char>, y: Seq<char>)
    requires
        json_string(a) + x == json_string(b) + y,
    ensures
        a == b,
        x == y,
{
    let x2 = json_escaped(a) + seq!['"'] + x;
    let y2 = json_escaped(b) + seq!['"'] + y;
    assert(json_string(a) + x =~= seq!['"'] + x2);
    assert(json_string(b) + y =~= seq!['"'] + y2);
    lemma_same_beginning(seq!['"'], x2, y2);
    lemma_escaped(a, b, x, y);
}

/// Whether `c` is a decimal digit.
spec fn is_digit(c: char) -> bool {
    '0' <= c <= '9'
}

/// Numbers are written in digits, at least one.
proof fn lemma_decimal_digits(n: nat)
    ensures
        decimal(n).len() > 0,
        forall|i: int| 0 <= i < decimal(n).len() ==> is_digit(#[trigger] decimal(n)[i]),
    decreases n,
{
    if n >= 10 {
        lemma_decimal_digits(n / 10);
    }
}

/// Different numbers have different digits.
proof fn lemma_decimal(m: nat, n: nat)
    requires
        decimal(m) == decimal(n),
    ensures
        m == n,
    decreases m,
{
    lemma_decimal_digits(m / 10);
    lemma_decimal_digits(n / 10);
    assert(decimal(m).last() == digit(m % 10));
    assert(decimal(n).last() == digit(n % 10));
    if m >= 10 && n >= 10 {
        assert(decimal(m).drop_last() =~= decimal(m / 10));
        assert(decimal(n).drop_last() =~= decimal(n / 10));
        lemma_decimal(m / 10, n / 10);
    }
}

/// A number at the beginning of a text can be read off if no digit follows it.
proof fn lemma_number(m: nat, n: nat, x: Seq<char>, y: Seq<char>)
    requires
        decimal(m) + x == decimal(n) + y,
        x.len() > 0,
        y.len() > 0,
        !is_digit(x[0]),
        !is_digit(y[0]),
    ensures
        m == n,
        x == y,
{
    let left = decimal(m) + x;
    let right = decimal(n) + y;
    lemma_decimal_digits(m);
    lemma_decimal_digits(n);
    if decimal(m).len() < decimal(n).len() {
        assert(left[decimal(m).len() as int] == x[0]);
        assert(right[decimal(m).len() as int] == decimal(n)[decimal(m).len() as int]);
    }
    if decimal(n).len() < decimal(m).len() {
        assert(right[decimal(n).len() as int] == y[0]);
        assert(left[decimal(n).len() as int] == decimal(m)[decimal(n).len() as int]);
    }
    assert(decimal(m) =~= left.take(decimal(m).len() as int));
    assert(decimal(n) =~= right.take(decimal(n).len() as int));
    lemma_decimal(m, n);
    lemma_same_beginning(decimal(m), x, y);
}

/// An object with one member can be read off.
proof fn lemma_single(a: Seq<char>, b: Seq<char>, x: Seq<char>, y: Seq<char>)
    requires
        object(seq![member(a, x)]) == object(seq![member(b, y)]),
    ensures
        a == b,
        x == y,
{
    let open = seq!['{'];
    let x2 = seq![':'] + x + seq!['}'];
    let y2 = seq![':'] + y + seq!['}'];
    assert(object(seq![member(a, x)]) =~= open + (json_string(a) + x2));
    assert(object(seq![member(b, y)]) =~= open + (json_string(b) + y2));
    lemma_same_beginning(open, json_string(a) + x2, json_string(b) + y2);
    lemma_string(a, b, x2, y2);
    assert(x =~= x2.subrange(1, x2.len() - 1));
    assert(y =~= y2.subrange(1, y2.len() - 1));
}

/// The members of an object with two members stand one behind the other.
pub(crate) proof fn lemma_two_members(a: Seq<char>, b: Seq<char>)
    ensures
        object(seq![a, b]) == seq!['{'] + a + seq![','] + b + seq!['}'],
{
    let members = seq![a, b];
    assert(members.drop_last() =~= seq![a]);
    assert(separated(seq![a]) == a);
    assert(object(members) =~= seq!['{'] + a + seq![','] + b + seq!['}']);
}

/// The members of an object with three members stand one behind the other.
pub(crate) proof fn lemma_three_members(a: Seq<char>, b: Seq<char>, c: Seq<char>)
    ensures
        object(seq![a, b, c]) == seq!['{'] + a + seq![','] + b + seq![','] + c + seq!['}'],
{
    let members = seq![a, b, c];
    assert(members.drop_last() =~= seq![a, b]);
    assert(seq![a, b].drop_last() =~= seq![a]);
    assert(separated(seq![a]) == a);
    assert(separated(seq![a, b]) == a + seq![','] + b);
    assert(object(members) =~= seq!['{'] + a + seq![','] + b + seq![','] + c + seq!['}']);
}

/// The content of [`LobbyMessage::Id`].
spec fn identity(assigned: u32, mesh: bool) -> Seq<char> {
    object(seq![member("assigned"@, decimal(assigned as nat)), member("mesh"@, boolean(mesh))])
}

proof fn lemma_identity_split(assigned: u32, mesh: bool)
    ensures
        identity(assigned, mesh) == seq!['{'] + json_string("assigned"@) + seq![':'] + (decimal(
            assigned as nat,
        ) + (seq![','] + json_string("mesh"@) + seq![':'] + (boolean(mesh) + seq!['}']))),
{
    let a = member("assigned"@, decimal(assigned as nat));
    let b = member("mesh"@, boolean(mesh));
    lemma_two_members(a, b);
    assert(seq!['{'] + a + seq![','] + b + seq!['}'] =~= seq!['{'] + json_string("assigned"@)
        + seq![':'] + (decimal(assigned as nat) + (seq![','] + json_string("mesh"@) + seq![':'] + (
    boolean(mesh) + seq!['}']))));
}

/// Truth values have different texts.
proof fn lemma_boolean(x: bool, y: bool)
    requires
        boolean(x) + seq!['}'] == boolean(y) + seq!['}'],
    ensures
        x == y,
{
    reveal_strlit("true");
    reveal_strlit("false");
    assert("true"@.len() == 4);
    assert("false"@.len() == 5);
    assert((boolean(x) + seq!['}']).len() == boolean(x).len() + 1);
    assert((boolean(y) + seq!['}']).len() == boolean(y).len() + 1);
}

/// The content of [`LobbyMessage::Id`] can be read off.
proof fn lemma_identity_content(a: u32, x: bool, b: u32, y: bool)
    requires
        identity(a, x) == identity(b, y),
    ensures
        a == b,
        x == y,
{
    let middle = seq![','] + json_string("mesh"@) + seq![':'];
    let x2 = boolean(x) + seq!['}'];
    let y2 = boolean(y) + seq!['}'];
    lemma_identity_split(a, x);
    lemma_identity_split(b, y);
    lemma_same_beginning(
        seq!['{'] + json_string("assigned"@) + seq![':'],
        decimal(a as nat) + (middle + x2),
        decimal(b as nat) + (middle + y2),
    );
    assert((middle + x2)[0] == ',');
    assert((middle + y2)[0] == ',');
    lemma_number(a as nat, b as nat, middle + x2, middle + y2);
    lemma_same_beginning(middle, x2, y2);
    lemma_boolean(x, y);
}

/// The kinds of relay message have different names.
proof fn lemma_kind_name(a: RelayMessageKind, b: RelayMessageKind)
    requires
        kind_name(a) == kind_name(b),
    ensures
        a == b,
{
    reveal_strlit("Offer");
    reveal_strlit("Answer");
    reveal_strlit("Candidate");
    assert("Offer"@.len() == 5);
    assert("Answer"@.len() == 6);
    assert("Candidate"@.len() == 9);
}

/// The content of [`LobbyMessage::RelayedMessage`].
spec fn relayed(kind: RelayMessageKind, data: Seq<char>, peer_id: u32) -> Seq<char> {
    object(
        seq![
            member("kind"@, json_string(kind_name(kind))),
            member("data"@, json_string(data)),
            member("peer_id"@, decimal(peer_id as nat)),
        ],
    )
}

/// The content of a relayed message from its data on.
spec fn relayed_rest(data: Seq<char>, peer_id: u32) -> Seq<char> {
    seq![','] + json_string("data"@) + seq![':'] + (json_string(data) + (seq![','] + json_string(
        "peer_id"@,
    ) + seq![':'] + (decimal(peer_id as nat) + seq!['}'])))
}

proof fn lemma_relayed_split(kind: RelayMessageKind, data: Seq<char>, peer_id: u32)
    ensures
        relayed(kind, data, peer_id) == seq!['{'] + json_string("kind"@) + seq![':'] + (json_string(
            kind_name(kind),
        ) + relayed_rest(data, peer_id)),
{
    let a = member("kind"@, json_string(kind_name(kind)));
    let b = member("data"@, json_string(data));
    let c = member("peer_id"@, decimal(peer_id as nat));
    lemma_three_members(a, b, c);
    assert(seq!['{'] + a + seq![','] + b + seq![','] + c + seq!['}'] =~= seq!['{'] + json_string(
        "kind"@,
    ) + seq![':'] + (json_string(kind_name(kind)) + relayed_rest(data, peer_id)));
}

/// The content of [`LobbyMessage::RelayedMessage`] can be read off.
proof fn lemma_relayed_content(
    k: RelayMessageKind,
    a: Seq<char>,
    m: u32,
    l: RelayMessageKind,
    b: Seq<char>,
    n: u32,
)
    requires
        relayed(k, a, m) == relayed(l, b, n),
    ensures
        k == l,
        a == b,
        m == n,
{
    lemma_relayed_split(k, a, m);
    lemma_relayed_split(l, b, n);
    lemma_same_beginning(
        seq!['{'] + json_string("kind"@) + seq![':'],
        json_string(kind_name(k)) + relayed_rest(a, m),
        json_string(kind_name(l)) + relayed_rest(b, n),
    );
    lemma_string(kind_name(k), kind_name(l), relayed_rest(a, m), relayed_rest(b, n));
    lemma_kind_name(k, l);
    let middle = seq![','] + json_string("peer_id"@) + seq![':'];
    let x = decimal(m as nat) + seq!['}'];
    let y = decimal(n as nat) + seq!['}'];
    lemma_same_beginning(
        seq![','] + json_string("data"@) + seq![':'],
        json_string(a) + (middle + x),
        json_string(b) + (middle + y),
    );
    lemma_string(a, b, middle + x, middle + y);
    lemma_same_beginning(middle, x, y);
    lemma_number(m as nat, n as nat, seq!['}'], seq!['}']);
}

/// The name of a message.
spec fn tag(message: LobbyMessage) -> Seq<char> {
    match message {
        LobbyMessage::Id { .. } => "Id"@,
        LobbyMessage::CreatedLobby { .. } => "CreatedLobby"@,
        LobbyMessage::JoinedLobby => "JoinedLobby"@,
        LobbyMessage::PeerConnect { .. } => "PeerConnect"@,
        LobbyMessage::PeerDisconnect { .. } => "PeerDisconnect"@,
        LobbyMessage::Seal => "Seal"@,
        LobbyMessage::RelayedMessage { .. } => "RelayedMessage"@,
    }
}

/// Whether a message is but its name.
spec fn bare(message: LobbyMessage) -> bool {
    message is JoinedLobby || message is Seal
}

/// What a message holds besides its name.
spec fn content(message: LobbyMessage) -> Seq<char> {
    match message {
        LobbyMessage::Id { assigned, mesh } => identity(assigned, mesh),
        LobbyMessage::CreatedLobby { name } => object(seq![member("name"@, json_string(name@))]),
        LobbyMessage::PeerConnect { peer_id } => object(
            seq![member("peer_id"@, decimal(peer_id as nat))],
        ),
        LobbyMessage::PeerDisconnect { peer_id } => object(
            seq![member("peer_id"@, decimal(peer_id as nat))],
        ),
        LobbyMessage::RelayedMessage { kind, data, peer_id } => relayed(kind, data@, peer_id),
        _ => seq![],
    }
}

/// The names of messages are different.
proof fn lemma_tag(a: LobbyMessage, b: LobbyMessage)
    requires
        tag(a) == tag(b),
    ensures
        a is Id <==> b is Id,
        a is CreatedLobby <==> b is CreatedLobby,
        a is JoinedLobby <==> b is JoinedLobby,
        a is PeerConnect <==> b is PeerConnect,
        a is PeerDisconnect <==> b is PeerDisconnect,
        a is Seal <==> b is Seal,
        a is RelayedMessage <==> b is RelayedMessage,
{
    reveal_strlit("Id");
    reveal_strlit("CreatedLobby");
    reveal_strlit("JoinedLobby");
    reveal_strlit("PeerConnect");
    reveal_strlit("PeerDisconnect");
    reveal_strlit("Seal");
    reveal_strlit("RelayedMessage");
    assert("Id"@.len() == 2);
    assert("CreatedLobby"@.len() == 12);
    assert("JoinedLobby"@.len() == 11 && "JoinedLobby"@[0] == 'J');
    assert("PeerConnect"@.len() == 11 && "PeerConnect"@[0] == 'P');
    assert("PeerDisconnect"@.len() == 14 && "PeerDisconnect"@[0] == 'P');
    assert("Seal"@.len() == 4);
    assert("RelayedMessage"@.len() == 14 && "RelayedMessage"@[0] == 'R');
}

/// Messages with the same text say the same.
pub proof fn law_texts_are_unambiguous(a: LobbyMessage, b: LobbyMessage)
    requires
        wire_text(a) == wire_text(b),
    ensures
        same_message(a, b),
{
    lemma_single("payload"@, "payload"@, payload(a), payload(b));
    if bare(a) && bare(b) {
        assert(json_string(tag(a)) + seq![] == json_string(tag(b)) + seq![]);
        lemma_string(tag(a), tag(b), seq![], seq![]);
        lemma_tag(a, b);
    } else if bare(a) != bare(b) {
        assert(bare(a) ==> payload(a)[0] == '"');
        assert(bare(b) ==> payload(b)[0] == '"');
        assert(!bare(a) ==> payload(a)[0] == '{');
        assert(!bare(b) ==> payload(b)[0] == '{');
    } else {
        assert(payload(a) == object(seq![member(tag(a), content(a))]));
        assert(payload(b) == object(seq![member(tag(b), content(b))]));
        lemma_single(tag(a), tag(b), content(a), content(b));
        lemma_tag(a, b);
        match (a, b) {
            (
                LobbyMessage::Id { assigned: m, mesh: x },
                LobbyMessage::Id { assigned: n, mesh: y },
            ) => {
                lemma_identity_content(m, x, n, y);
            },
            (LobbyMessage::CreatedLobby { name: x }, LobbyMessage::CreatedLobby { name: y }) => {
                lemma_single("name"@, "name"@, json_string(x@), json_string(y@));
                assert(json_string(x@) + seq![] == json_string(y@) + seq![]);
                lemma_string(x@, y@, seq![], seq![]);
            },
            (LobbyMessage::PeerConnect { peer_id: m }, LobbyMessage::PeerConnect { peer_id: n }) => {
                lemma_single("peer_id"@, "peer_id"@, decimal(m as nat), decimal(n as nat));
                lemma_decimal(m as nat, n as nat);
            },
            (
                LobbyMessage::PeerDisconnect { peer_id: m },
                LobbyMessage::PeerDisconnect { peer_id: n },
            ) => {
                lemma_single("peer_id"@, "peer_id"@, decimal(m as nat), decimal(n as nat));
                lemma_decimal(m as nat, n as nat);
            },
            (
                LobbyMessage::RelayedMessage { kind: k, data: x, peer_id: m },
                LobbyMessage::RelayedMessage { kind: l, data: y, peer_id: n },
            ) => {
                lemma_relayed_content(k, x@, m, l, y@, n);
            },
            _ => {},
        }
    }
}

} // verus!
