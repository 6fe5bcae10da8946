//! What the members of a lobby have been told by the time they are members.

use vstd::prelude::*;
use crate::laws::{law_host_comes_first, law_runs, run, run_accepts};
use crate::lobby::{introductions, join_sends, LobbyView, HOST_ID};
use crate::message::{LobbyMessage, Outgoing};
use crate::order::{ascending, lemma_ascending};
use crate::task::{created, law_steps_keep_the_invariant, Event, Next, StageView, TaskView};

verus! {

/// What the application was last asked to do in a new lobby, after a series of events.
pub open spec fn asked(name: String, mesh: bool, events: Seq<Event>) -> Next {
    if events.len() == 0 {
        Next::Send(Outgoing { to: HOST_ID, message: LobbyMessage::CreatedLobby { name } })
    } else {
        run(created(name, mesh), events.drop_last()).step(events.last()).1.next
    }
}

/// What is sent by an event: the message that was to be sent, if sending it succeeded.
pub open spec fn sent_by(next: Next, event: Event) -> Seq<Outgoing> {
    match (next, event) {
        (Next::Send(outgoing), Event::Sent(Ok(_))) => seq![outgoing],
        _ => seq![],
    }
}

/// All that was sent in a new lobby in a series of events.
pub open spec fn sent(name: String, mesh: bool, events: Seq<Event>) -> Seq<Outgoing>
    decreases events.len(),
{
    if events.len() == 0 {
        seq![]
    } else {
        sent(name, mesh, events.drop_last()) + sent_by(
            asked(name, mesh, events.drop_last()),
            events.last(),
        )
    }
}

/// The introduction of `about` to `to`.
pub open spec fn introduction(to: u32, about: u32) -> Outgoing {
    Outgoing { to, message: LobbyMessage::PeerConnect { peer_id: about } }
}

/// Whether a message was sent exactly once.
pub open spec fn sent_once(history: Seq<Outgoing>, outgoing: Outgoing) -> bool {
    exists|i: int|
        {
            &&& 0 <= i < history.len()
            &&& #[trigger] history[i] == outgoing
            &&& forall|j: int|
                0 <= j < history.len() && j != i ==> #[trigger] history[j] != outgoing
        }
}

/// Whether a peer was told its id exactly once, and before anything else; only the host was told
/// the name of the lobby before.
pub open spec fn told_id_first(history: Seq<Outgoing>, id: u32, mesh: bool) -> bool {
    exists|i: int|
        {
            &&& 0 <= i < history.len()
            &&& #[trigger] history[i] == (Outgoing {
                to: id,
                message: LobbyMessage::Id { assigned: id, mesh },
            })
            &&& forall|j: int|
                0 <= j < history.len() && j != i && (#[trigger] history[j]).to == id ==> {
                    &&& !(history[j].message is Id)
                    &&& j < i ==> id == HOST_ID && history[j].message is CreatedLobby
                }
        }
}

/// Whether the members know of each other, and nobody was introduced to themselves.
pub open spec fn acquainted(lobby: LobbyView, history: Seq<Outgoing>) -> bool {
    &&& forall|p: u32, q: u32|
        lobby.members.contains(p) && lobby.members.contains(q) && p != q ==> sent_once(
            history,
            #[trigger] introduction(p, q),
        )
    &&& forall|p: u32| #[trigger]
        lobby.members.contains(p) ==> told_id_first(history, p, lobby.mesh)
    &&& forall|i: int|
        0 <= i < history.len() ==> !((#[trigger] history[i]).message is PeerConnect
            && history[i].message->PeerConnect_peer_id == history[i].to)
}

/// Whether everybody who was sent something, or of whom somebody was told, has an id.
spec fn known(lobby: LobbyView, history: Seq<Outgoing>) -> bool {
    forall|i: int|
        0 <= i < history.len() ==> {
            &&& lobby.assigned((#[trigger] history[i]).to)
            &&& history[i].message is PeerConnect ==> lobby.assigned(
                history[i].message->PeerConnect_peer_id,
            )
        }
}

/// Whether the history ends with the first `k` messages of the joining of `id`, and holds nothing
/// to or about `id` before.
spec fn joined_up_to(lobby: LobbyView, history: Seq<Outgoing>, id: u32, k: int) -> bool {
    let sends = join_sends(id, lobby.mesh, lobby.ordered());
    &&& 0 <= k <= sends.len()
    &&& k <= history.len()
    &&& forall|i: int|
        0 <= i < k ==> history[history.len() - k + i] == #[trigger] sends[i]
    &&& forall|i: int|
        0 <= i < history.len() - k ==> {
            &&& (#[trigger] history[i]).to == id ==> id == HOST_ID
                && history[i].message is CreatedLobby
            &&& history[i].message != LobbyMessage::PeerConnect { peer_id: id }
        }
}

/// What holds between a lobby, what it has asked for and what it has sent.
spec fn consistent(task: TaskView, next: Next, history: Seq<Outgoing>) -> bool {
    &&& task.wf()
    &&& acquainted(task.lobby, history)
    &&& known(task.lobby, history)
    &&& match task.stage {
        StageView::Announcing => {
            &&& history.len() == 0
            &&& next matches Next::Send(outgoing) && outgoing.to == HOST_ID
                && outgoing.message is CreatedLobby
        },
        StageView::Joining { id, rest } => {
            let sends = join_sends(id, task.lobby.mesh, task.lobby.ordered());
            let k = sends.len() - rest.len() - 1;
            &&& 0 <= k
            &&& rest == sends.skip(k + 1)
            &&& next == Next::Send(sends[k])
            &&& joined_up_to(task.lobby, history, id, k)
        },
        StageView::Relaying => {
            &&& next matches Next::Send(outgoing) && outgoing.message is RelayedMessage
                && task.lobby.assigned(outgoing.to)
        },
        StageView::Leaving { rest } => {
            &&& next matches Next::Send(outgoing) && outgoing.message is PeerDisconnect
                && task.lobby.assigned(outgoing.to)
            &&& forall|i: int|
                0 <= i < rest.len() ==> (#[trigger] rest[i]).message is PeerDisconnect
        },
        _ => !(next is Send),
    }
}

/// A message that is sent once is still sent once after another one.
proof fn lemma_once_kept(history: Seq<Outgoing>, outgoing: Outgoing, last: Outgoing)
    requires
        sent_once(history, outgoing),
        last != outgoing,
    ensures
        sent_once(history.push(last), outgoing),
{
    let i = choose|i: int|
        {
            &&& 0 <= i < history.len()
            &&& #[trigger] history[i] == outgoing
            &&& forall|j: int|
                0 <= j < history.len() && j != i ==> #[trigger] history[j] != outgoing
        };
    assert(history.push(last)[i] == outgoing);
}

/// A peer that was told its id first still was after a message that is no id of its.
proof fn lemma_id_kept(history: Seq<Outgoing>, id: u32, mesh: bool, last: Outgoing)
    requires
        told_id_first(history, id, mesh),
        !(last.to == id && last.message is Id),
    ensures
        told_id_first(history.push(last), id, mesh),
{
    let i = choose|i: int|
        {
            &&& 0 <= i < history.len()
            &&& #[trigger] history[i] == (Outgoing {
                to: id,
                message: LobbyMessage::Id { assigned: id, mesh },
            })
            &&& forall|j: int|
                0 <= j < history.len() && j != i && (#[trigger] history[j]).to == id ==> {
                    &&& !(history[j].message is Id)
                    &&& j < i ==> id == HOST_ID && history[j].message is CreatedLobby
                }
        };
    assert(history.push(last)[i] == history[i]);
}

/// A message that is neither an introduction of members nor an id for one leaves what the members
/// know as it is.
proof fn lemma_acquainted_kept(lobby: LobbyView, history: Seq<Outgoing>, last: Outgoing)
    requires
        acquainted(lobby, history),
        known(lobby, history),
        lobby.assigned(last.to),
        last.message is PeerConnect ==> {
            &&& lobby.assigned(last.message->PeerConnect_peer_id)
            &&& last.message->PeerConnect_peer_id != last.to
            &&& !(lobby.members.contains(last.to) && lobby.members.contains(
                last.message->PeerConnect_peer_id,
            ))
        },
        last.message is Id ==> !lobby.members.contains(last.to),
    ensures
        acquainted(lobby, history.push(last)),
        known(lobby, history.push(last)),
{
    assert forall|p: u32, q: u32|
        lobby.members.contains(p) && lobby.members.contains(q) && p != q implies sent_once(
        history.push(last),
        #[trigger] introduction(p, q),
    ) by {
        lemma_once_kept(history, introduction(p, q), last);
    }
    assert forall|p: u32| #[trigger] lobby.members.contains(p) implies told_id_first(
        history.push(last),
        p,
        lobby.mesh,
    ) by {
        lemma_id_kept(history, p, lobby.mesh, last);
    }
}

/// The messages of a joining: the first tells the newcomer its id, and each of the others
/// introduces the newcomer and a member to each other.
proof fn lemma_join_send(lobby: LobbyView, id: u32, k: int)
    requires
        lobby.wf(),
        0 <= k < join_sends(id, lobby.mesh, lobby.ordered()).len(),
    ensures
        ({
            let sends = join_sends(id, lobby.mesh, lobby.ordered());
            let order = lobby.ordered();
            &&& k == 0 ==> sends[k] == (Outgoing {
                to: id,
                message: LobbyMessage::Id { assigned: id, mesh: lobby.mesh },
            })
            &&& k > 0 ==> {
                let member = order[(k - 1) / 2];
                &&& 0 <= (k - 1) / 2 < order.len()
                &&& lobby.members.contains(member)
                &&& sends[k] == (if (k - 1) % 2 == 0 {
                    introduction(member, id)
                } else {
                    introduction(id, member)
                })
            }
        }),
{
    lemma_ascending(lobby.members);
    if k > 0 {
        assert(join_sends(id, lobby.mesh, lobby.ordered())[k] == introductions(
            id,
            lobby.ordered(),
        )[k - 1]);
    }
}

/// Where in a joining the newcomer and a member are introduced to each other.
proof fn lemma_introduced_at(lobby: LobbyView, id: u32, member: u32) -> (n: int)
    requires
        lobby.wf(),
        lobby.members.contains(member),
    ensures
        0 <= n < lobby.ordered().len(),
        lobby.ordered()[n] == member,
        forall|m: int|
            0 <= m < lobby.ordered().len() && m != n ==> #[trigger] lobby.ordered()[m] != member,
{
    lemma_ascending(lobby.members);
    let order = lobby.ordered();
    assert(order.contains(member));
    choose|n: int| 0 <= n < order.len() && order[n] == member
}

/// After a whole joining the newcomer and a member have been introduced to each other once.
proof fn lemma_newcomer_acquainted(lobby: LobbyView, history: Seq<Outgoing>, id: u32, member: u32)
    requires
        lobby.wf(),
        !lobby.members.contains(id),
        lobby.members.contains(member),
        joined_up_to(
            lobby,
            history,
            id,
            join_sends(id, lobby.mesh, lobby.ordered()).len() as int,
        ),
    ensures
        sent_once(history, introduction(member, id)),
        sent_once(history, introduction(id, member)),
{
    let sends = join_sends(id, lobby.mesh, lobby.ordered());
    let start = history.len() - sends.len();
    let n = lemma_introduced_at(lobby, id, member);
    let i = 1 + 2 * n;
    lemma_join_send(lobby, id, i);
    lemma_join_send(lobby, id, i + 1);
    assert(history[start + i] == sends[i]);
    assert(history[start + (i + 1)] == sends[i + 1]);
    assert forall|j: int| 0 <= j < history.len() && j != start + i implies #[trigger] history[j]
        != introduction(member, id) by {
        if j >= start {
            let k = j - start;
            assert(history[start + k] == sends[k]);
            lemma_join_send(lobby, id, k);
        }
    }
    assert forall|j: int|
        0 <= j < history.len() && j != start + (i + 1) implies #[trigger] history[j]
        != introduction(id, member) by {
        if j >= start {
            let k = j - start;
            assert(history[start + k] == sends[k]);
            lemma_join_send(lobby, id, k);
        }
    }
}

/// After a whole joining the newcomer was told its id once and first.
proof fn lemma_newcomer_identified(lobby: LobbyView, history: Seq<Outgoing>, id: u32)
    requires
        lobby.wf(),
        !lobby.members.contains(id),
        joined_up_to(
            lobby,
            history,
            id,
            join_sends(id, lobby.mesh, lobby.ordered()).len() as int,
        ),
    ensures
        told_id_first(history, id, lobby.mesh),
{
    let sends = join_sends(id, lobby.mesh, lobby.ordered());
    let start = history.len() - sends.len();
    lemma_join_send(lobby, id, 0);
    assert(history[start + 0] == sends[0]);
    assert forall|j: int|
        0 <= j < history.len() && j != start && (#[trigger] history[j]).to == id implies !(
    history[j].message is Id) && (j < start ==> id == HOST_ID
        && history[j].message is CreatedLobby) by {
        if j >= start {
            let k = j - start;
            assert(history[start + k] == sends[k]);
            lemma_join_send(lobby, id, k);
        }
    }
    assert(history[start] == (Outgoing {
        to: id,
        message: LobbyMessage::Id { assigned: id, mesh: lobby.mesh },
    }));
}

/// A further message of a joining is sent.
proof fn lemma_join_goes_on(lobby: LobbyView, history: Seq<Outgoing>, id: u32, k: int)
    requires
        lobby.wf(),
        lobby.assigned(id),
        !lobby.members.contains(id),
        acquainted(lobby, history),
        known(lobby, history),
        k < join_sends(id, lobby.mesh, lobby.ordered()).len(),
        joined_up_to(lobby, history, id, k),
    ensures
        ({
            let after = history.push(join_sends(id, lobby.mesh, lobby.ordered())[k]);
            &&& acquainted(lobby, after)
            &&& known(lobby, after)
            &&& joined_up_to(lobby, after, id, k + 1)
        }),
{
    let sends = join_sends(id, lobby.mesh, lobby.ordered());
    let after = history.push(sends[k]);
    lemma_join_send(lobby, id, k);
    lemma_acquainted_kept(lobby, history, sends[k]);
    assert forall|i: int| 0 <= i < k + 1 implies after[after.len() - (k + 1) + i]
        == #[trigger] sends[i] by {
        if i < k {
            assert(history[history.len() - k + i] == sends[i]);
        }
    }
}

/// With the last message of a joining the newcomer is acquainted with the members.
proof fn lemma_join_completes(lobby: LobbyView, history: Seq<Outgoing>, id: u32)
    requires
        lobby.wf(),
        lobby.assigned(id),
        !lobby.members.contains(id),
        acquainted(lobby, history),
        known(lobby, history),
        joined_up_to(
            lobby,
            history,
            id,
            join_sends(id, lobby.mesh, lobby.ordered()).len() as int,
        ),
    ensures
        acquainted(lobby.with_member(id), history),
        known(lobby.with_member(id), history),
{
    let after = lobby.with_member(id);
    assert forall|p: u32, q: u32|
        after.members.contains(p) && after.members.contains(q) && p != q implies sent_once(
        history,
        #[trigger] introduction(p, q),
    ) by {
        if p == id {
            lemma_newcomer_acquainted(lobby, history, id, q);
        } else if q == id {
            lemma_newcomer_acquainted(lobby, history, id, p);
        }
    }
    assert forall|p: u32| #[trigger] after.members.contains(p) implies told_id_first(
        history,
        p,
        after.mesh,
    ) by {
        if p == id {
            lemma_newcomer_identified(lobby, history, id);
        }
    }
}

/// A newcomer has not been sent anything yet, and nobody was told of it.
proof fn lemma_join_begins(lobby: LobbyView, history: Seq<Outgoing>, id: u32)
    requires
        lobby.wf(),
        forall|i: int|
            0 <= i < history.len() ==> {
                &&& (#[trigger] history[i]).to == id ==> id == HOST_ID
                    && history[i].message is CreatedLobby
                &&& history[i].message != LobbyMessage::PeerConnect { peer_id: id }
            },
    ensures
        joined_up_to(lobby, history, id, 0),
        join_sends(id, lobby.mesh, lobby.ordered()).drop_first() == join_sends(
            id,
            lobby.mesh,
            lobby.ordered(),
        ).skip(1),
{
    let sends = join_sends(id, lobby.mesh, lobby.ordered());
    assert(sends.drop_first() =~= sends.skip(1));
}

/// Every step keeps the history consistent.
proof fn lemma_step_consistent(task: TaskView, next: Next, history: Seq<Outgoing>, event: Event)
    requires
        consistent(task, next, history),
        task.accepts(event),
    ensures
        consistent(task.step(event).0, task.step(event).1.next, history + sent_by(next, event)),
{
    let lobby = task.lobby;
    let (after, step) = task.step(event);
    law_steps_keep_the_invariant(task, event);
    if !(next is Send && event matches Event::Sent(Ok(_))) {
        assert(history + sent_by(next, event) =~= history);
    }
    match (task.stage, event) {
        (StageView::Announcing, Event::Sent(Ok(_))) => {
            let outgoing = next->Send_0;
            assert(history + sent_by(next, event) =~= history.push(outgoing));
            lemma_acquainted_kept(lobby, history, outgoing);
            lemma_join_begins(lobby, history.push(outgoing), HOST_ID);
        },
        (StageView::Joining { id, rest }, Event::Sent(Ok(_))) => {
            let sends = join_sends(id, lobby.mesh, lobby.ordered());
            let k = sends.len() - rest.len() - 1;
            assert(history + sent_by(next, event) =~= history.push(sends[k]));
            lemma_join_goes_on(lobby, history, id, k);
            if rest.len() > 0 {
                assert(rest.drop_first() =~= sends.skip(k + 2));
            } else {
                lemma_join_completes(lobby, history.push(sends[k]), id);
            }
        },
        (StageView::Idle, Event::Work(item)) => {
            if item is NewPeer {
                let id = lobby.next_id;
                assert(acquainted(lobby.id_taken(), history));
                lemma_join_begins(lobby.id_taken(), history, id);
            } else {
                lemma_expelled_consistent(task, event, history);
            }
        },
        (StageView::Parsing { from }, Event::Parsed(_)) => {
            lemma_expelled_consistent(task, event, history);
        },
        (StageView::Relaying, Event::Sent(Ok(_))) => {
            let outgoing = next->Send_0;
            assert(history + sent_by(next, event) =~= history.push(outgoing));
            lemma_acquainted_kept(lobby, history, outgoing);
        },
        (StageView::Leaving { rest }, Event::Sent(Ok(_))) => {
            let outgoing = next->Send_0;
            assert(history + sent_by(next, event) =~= history.push(outgoing));
            lemma_acquainted_kept(lobby, history, outgoing);
            if rest.len() > 0 {
                assert(lobby.members.contains(rest[0].to));
            }
        },
        _ => {},
    }
}

/// What a member says does not change what the members have been told.
proof fn lemma_expelled_consistent(task: TaskView, event: Event, history: Seq<Outgoing>)
    requires
        task.wf(),
        task.accepts(event),
        acquainted(task.lobby, history),
        known(task.lobby, history),
        task.stage is Idle || task.stage is Parsing,
        event matches Event::Work(item) ==> item is PeerMessage,
        !(event is NewPeersClosed),
    ensures
        consistent(task.step(event).0, task.step(event).1.next, history),
{
    let lobby = task.lobby;
    let (after, step) = task.step(event);
    law_steps_keep_the_invariant(task, event);
    assert(after.lobby.members.subset_of(lobby.members));
    assert(acquainted(after.lobby, history));
    assert forall|id: u32, i: int|
        0 <= i < ascending(lobby.members.remove(id)).len() implies lobby.members.contains(
        #[trigger] ascending(lobby.members.remove(id))[i],
    ) by {
        lemma_ascending(lobby.members.remove(id));
    }
}

/// Whatever has happened, a lobby and its history are consistent.
proof fn lemma_run_consistent(name: String, mesh: bool, events: Seq<Event>)
    requires
        run_accepts(created(name, mesh), events),
    ensures
        consistent(
            run(created(name, mesh), events),
            asked(name, mesh, events),
            sent(name, mesh, events),
        ),
    decreases events.len(),
{
    if events.len() == 0 {
        law_host_comes_first(name, mesh);
    } else {
        lemma_run_consistent(name, mesh, events.drop_last());
        lemma_step_consistent(
            run(created(name, mesh), events.drop_last()),
            asked(name, mesh, events.drop_last()),
            sent(name, mesh, events.drop_last()),
            events.last(),
        );
    }
}

/// Over the whole life of a lobby, whoever comes and goes and whichever sends fail: any two members
/// have been told of each other exactly once, nobody was ever told of themselves, and each member
/// was told its id exactly once and before anything else, except that the host is told the name
/// of the lobby before.
pub proof fn law_members_are_acquainted(
    name: String,
    mesh: bool,
    events: Seq<Event>,
    p: u32,
    q: u32,
)
    requires
        run_accepts(created(name, mesh), events),
    ensures
        ({
            let members = run(created(name, mesh), events).lobby.members;
            let history = sent(name, mesh, events);
            &&& members.contains(p) && members.contains(q) && p != q ==> {
                &&& sent_once(history, introduction(p, q))
                &&& sent_once(history, introduction(q, p))
            }
            &&& members.contains(p) ==> told_id_first(history, p, mesh)
            &&& !history.contains(introduction(p, p))
        }),
{
    law_host_comes_first(name, mesh);
    law_runs(created(name, mesh), events);
    lemma_run_consistent(name, mesh, events);
    let history = sent(name, mesh, events);
    if history.contains(introduction(p, p)) {
        let i = choose|i: int| 0 <= i < history.len() && history[i] == introduction(p, p);
        assert(history[i].message->PeerConnect_peer_id == history[i].to);
    }
}

} // verus!
