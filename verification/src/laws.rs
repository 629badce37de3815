//! What holds of the server as a whole, and of server and clients together,
//! whatever is asked.

use vstd::prelude::*;

use crate::board::{
    count, empty_grid, has_five, is_grid, law_win_is_first_five, lemma_count_empty,
    lemma_count_place, on_board, place, wins, Piece,
};
use crate::game::{key_taken, told, GameActionView, GameView, KeyPress};
use crate::protocol::{Reply, Request};
use crate::room::{other_than, RoomView};
use crate::steps::{
    accepts, both_registered, connected, disconnected, farewells, handled, line_handled,
    lists_clients, lists_rooms, marked_ready, may_play, move_sends, names_of, removed_from,
    room_after, room_name, side_of, start_sends, OutcomeView, PlayerView, ServerView,
};
use crate::text::law_decimal_is_injective;

verus! {

/// Black and white have filled equally many cells, or black one more and it is
/// white's turn.
pub open spec fn alternating(room: RoomView) -> bool {
    count(room.board, Piece::Black) == count(room.board, Piece::White) + if room.turn
        == Piece::White {
        1nat
    } else {
        0
    }
}

/// In every room the sides have moved in turn.
pub open spec fn all_alternating(s: ServerView) -> bool {
    forall|rid: Seq<char>| #[trigger] s.rooms.contains_key(rid) ==> alternating(s.rooms[rid])
}

proof fn lemma_empty_alternates(room: RoomView)
    requires
        room.board == empty_grid(),
        room.turn == Piece::Black,
    ensures
        alternating(room),
{
    lemma_count_empty(room.board, Piece::Black);
    lemma_count_empty(room.board, Piece::White);
}

proof fn lemma_move_alternates(room: RoomView, r: usize, c: usize)
    requires
        room.wf(),
        alternating(room),
        on_board(r as int, c as int),
        room.board[r as int][c as int] == Piece::Empty,
    ensures
        alternating(room_after(room, room.turn, r, c)),
{
    assert(room.board[r as int].len() == crate::board::BOARD_SIZE);
    lemma_count_place(room.board, r as int, c as int, room.turn, Piece::Black);
    lemma_count_place(room.board, r as int, c as int, room.turn, Piece::White);
}

/// No request breaks the rule that the sides move in turn.
pub proof fn law_turns_alternate(
    pre: ServerView,
    id: usize,
    request: Request,
    n: u16,
    post: ServerView,
    out: OutcomeView,
)
    requires
        pre.wf(),
        all_alternating(pre),
        accepts(pre, id, request),
        handled(pre, id, request, n, post, out),
    ensures
        all_alternating(post),
{
    assert forall|rid: Seq<char>| #[trigger] post.rooms.contains_key(rid) implies alternating(
        post.rooms[rid],
    ) by {
        let room = post.rooms[rid];
        match request {
            Request::CreateRoom => {
                if rid == room_name(n) {
                    lemma_empty_alternates(room);
                } else {
                    assert(pre.rooms.contains_key(rid));
                }
            },
            Request::JoinRoom(_) => {
                assert(pre.rooms.contains_key(rid));
                if room != pre.rooms[rid] {
                    lemma_empty_alternates(room);
                }
            },
            Request::Ready => {
                assert(pre.rooms.contains_key(rid));
                if room.board != pre.rooms[rid].board || room.turn != pre.rooms[rid].turn {
                    lemma_empty_alternates(room);
                }
            },
            Request::Move(r, c) => {
                assert(pre.rooms.contains_key(rid));
                if may_play(pre, id, r, c) && rid == pre.room_name_of(id) {
                    lemma_move_alternates(pre.rooms[rid], r, c);
                }
            },
            _ => {
                assert(pre.rooms.contains_key(rid));
            },
        }
    }
}

/// Nor does a client that comes or goes.
pub proof fn law_turns_alternate_as_clients_come_and_go(pre: ServerView, id: usize)
    requires
        all_alternating(pre),
    ensures
        all_alternating(connected(pre, id)),
        all_alternating(disconnected(pre, id).0),
{
    let post = disconnected(pre, id).0;
    assert forall|rid: Seq<char>| #[trigger] post.rooms.contains_key(rid) implies alternating(
        post.rooms[rid],
    ) by {
        assert(pre.rooms.contains_key(rid));
    }
}

/// Clients and rooms agree: those who sit in a room are connected and know it,
/// nobody sits twice, and whoever knows a room sits in it.
pub open spec fn orderly(s: ServerView) -> bool {
    &&& forall|rid: Seq<char>, i: int|
        #![trigger s.rooms[rid].players[i]]
        s.rooms.contains_key(rid) && 0 <= i < s.rooms[rid].players.len() ==> {
            let p = s.rooms[rid].players[i];
            s.registered(p) && s.clients[p].room_id == Some(rid)
        }
    &&& forall|rid: Seq<char>| #[trigger]
        s.rooms.contains_key(rid) ==> s.rooms[rid].players.no_duplicates()
    &&& forall|id: usize| #[trigger]
        s.registered(id) && s.clients[id].room_id is Some ==> s.has_room(id) && s.room_of(
            id,
        ).players.contains(id)
}

/// An orderly server has an answer to every request of a connected client, as
/// long as its moves are on the board.
pub proof fn law_orderly_server_answers(s: ServerView, id: usize, request: Request)
    requires
        s.wf(),
        orderly(s),
        s.registered(id),
        request matches Request::Move(r, c) ==> on_board(r as int, c as int),
    ensures
        accepts(s, id, request),
{
    match request {
        Request::JoinRoom(rid) => {
            if s.rooms.contains_key(rid) && s.rooms[rid].players.len() == 1 {
                assert(s.registered(s.rooms[rid].players[0]));
            }
        },
        Request::Ready => {
            if s.has_room(id) && marked_ready(s.room_of(id), id).all_ready() {
                let rid = s.room_name_of(id);
                assert(s.registered(s.rooms[rid].players[0]));
                assert(s.registered(s.rooms[rid].players[1]));
            }
        },
        Request::Move(r, c) => {
            if s.has_room(id) {
                let rid = s.room_name_of(id);
                assert forall|i: int| 0 <= i < s.room_of(id).players.len() implies s.registered(
                    #[trigger] s.room_of(id).players[i],
                ) by {
                    assert(s.registered(s.rooms[rid].players[i]));
                }
            }
        },
        _ => {},
    }
}

/// A server that nobody has connected to is well formed and orderly, and no
/// client or room of it breaks a rule.
pub proof fn law_orderly_at_first()
    ensures
        ServerView::initial().wf(),
        ServerView::initial().numbered(),
        orderly(ServerView::initial()),
        all_alternating(ServerView::initial()),
{
}

/// A new client keeps the server orderly.
pub proof fn law_orderly_on_connect(s: ServerView, id: usize)
    requires
        orderly(s),
        !s.registered(id),
    ensures
        orderly(connected(s, id)),
{
    let post = connected(s, id);
    assert forall|p: usize| #[trigger]
        post.registered(p) && post.clients[p].room_id is Some implies post.has_room(p)
        && post.room_of(p).players.contains(p) by {
        assert(s.registered(p));
    }
}

/// The next number is free: the client that gets it keeps the server orderly.
pub proof fn law_next_number_is_free(s: ServerView)
    requires
        s.numbered(),
        s.next_id < usize::MAX,
    ensures
        !s.registered(s.next_id),
        connected(s.issued(), s.next_id).numbered(),
        orderly(s) ==> orderly(connected(s.issued(), s.next_id)),
{
    let post = connected(s.issued(), s.next_id);
    assert(!s.registered(s.next_id));
    assert forall|p: usize| #[trigger] post.registered(p) implies p < post.next_id by {
        if p != s.next_id {
            assert(s.registered(p));
        }
    }
    if orderly(s) {
        lemma_orderly_stays(s, s.issued());
        law_orderly_on_connect(s.issued(), s.next_id);
    }
}

/// No request gives a client a number that was not handed out, or hands one
/// out.
pub proof fn law_numbers_stay_handed_out(
    pre: ServerView,
    id: usize,
    request: Request,
    n: u16,
    post: ServerView,
    out: OutcomeView,
)
    requires
        pre.numbered(),
        handled(pre, id, request, n, post, out),
    ensures
        post.numbered(),
        post.next_id == pre.next_id,
{
    assert forall|p: usize| #[trigger] post.registered(p) implies p < post.next_id by {
        assert(pre.registered(p));
    }
}

/// Nor does a client that comes with a number that was handed out, or that
/// goes.
pub proof fn law_numbers_stay_as_clients_come_and_go(s: ServerView, id: usize)
    requires
        s.numbered(),
    ensures
        id < s.next_id ==> connected(s, id).numbered(),
        disconnected(s, id).0.numbered(),
        connected(s, id).next_id == s.next_id,
        disconnected(s, id).0.next_id == s.next_id,
{
    let came = connected(s, id);
    let gone = disconnected(s, id).0;
    assert forall|p: usize| #[trigger] came.registered(p) && id < s.next_id implies p
        < came.next_id by {
        if p != id {
            assert(s.registered(p));
        }
    }
    assert forall|p: usize| #[trigger] gone.registered(p) implies p < gone.next_id by {
        assert(s.registered(p));
    }
}

proof fn lemma_without(players: Seq<usize>, id: usize)
    requires
        players.no_duplicates(),
    ensures
        ({
            let rest = players.filter(other_than(id));
            &&& rest.no_duplicates()
            &&& !rest.contains(id)
            &&& forall|p: usize| p != id ==> (#[trigger] rest.contains(p) <==> players.contains(p))
        }),
    decreases players.len(),
{
    reveal(Seq::filter);
    let rest = players.filter(other_than(id));
    if players.len() > 0 {
        let front = players.drop_last();
        let last = players.last();
        lemma_without(front, id);
        let before = front.filter(other_than(id));
        assert(players =~= front.push(last));
        assert(!front.contains(last));
        assert forall|p: usize| p != id implies (#[trigger] rest.contains(p) <==> players.contains(
            p,
        )) by {
            if players.contains(p) && p != last {
                assert(front.contains(p));
                assert(before.contains(p));
                let k = before.index_of(p);
                assert(rest[k] == p);
            }
            if p == last {
                assert(rest[rest.len() - 1] == p);
                assert(players[players.len() - 1] == p);
            }
            if rest.contains(p) && p != last {
                let k = rest.index_of(p);
                assert(before[k] == p);
                assert(before.contains(p));
                assert(front.contains(p));
                let j = front.index_of(p);
                assert(players[j] == p);
            }
        }
        if last != id {
            assert(rest =~= before.push(last));
            assert(!before.contains(last)) by {
                if before.contains(last) {
                    assert(front.contains(last));
                }
            }
        }
    }
}

/// Taking out of its room a client that no longer counts itself in keeps the
/// rest of the server orderly.
proof fn lemma_orderly_removed(s: ServerView, mid: ServerView, id: usize, rid: Seq<char>)
    requires
        orderly(s),
        s.registered(id),
        s.clients[id].room_id == Some(rid),
        mid.rooms == s.rooms,
        forall|p: usize| p != id ==> (#[trigger] mid.clients.contains_key(p) <==> s.registered(p)),
        forall|p: usize|
            p != id && s.registered(p) ==> #[trigger] mid.clients[p] == s.clients[p],
        mid.registered(id) ==> mid.clients[id].room_id is None,
    ensures
        orderly(removed_from(mid, id, rid).0),
{
    let post = removed_from(mid, id, rid).0;
    let players = s.rooms[rid].players;
    assert(s.has_room(id));
    assert(s.rooms.contains_key(rid));
    lemma_without(players, id);
    let rest = players.filter(other_than(id));
    assert forall|k: Seq<char>, i: int|
        #![trigger post.rooms[k].players[i]]
        post.rooms.contains_key(k) && 0 <= i < post.rooms[k].players.len() implies {
        let p = post.rooms[k].players[i];
        post.registered(p) && post.clients[p].room_id == Some(k)
    } by {
        let p = post.rooms[k].players[i];
        if k == rid {
            assert(rest[i] == p);
            assert(rest.contains(p));
            assert(p != id);
            assert(players.contains(p));
            let j = players.index_of(p);
            assert(s.rooms[rid].players[j] == p);
        } else {
            assert(s.rooms[k].players[i] == p);
            assert(p != id);
        }
        assert(s.registered(p));
        assert(mid.clients.contains_key(p));
        assert(mid.clients[p] == s.clients[p]);
    }
    assert forall|k: Seq<char>| #[trigger]
        post.rooms.contains_key(k) implies post.rooms[k].players.no_duplicates() by {
        assert(s.rooms.contains_key(k));
    }
    assert forall|p: usize| #[trigger]
        post.registered(p) && post.clients[p].room_id is Some implies post.has_room(p)
        && post.room_of(p).players.contains(p) by {
        assert(p != id);
        assert(mid.clients.contains_key(p));
        assert(s.registered(p));
        assert(mid.clients[p] == s.clients[p]);
        assert(s.has_room(p));
        let k = s.room_name_of(p);
        if k == rid {
            assert(players.contains(p));
            assert(rest.contains(p));
            assert(rest.len() > 0);
        }
    }
}

/// A client that goes away leaves an orderly server orderly.
pub proof fn law_orderly_on_disconnect(s: ServerView, id: usize)
    requires
        orderly(s),
    ensures
        orderly(disconnected(s, id).0),
{
    if s.registered(id) {
        let mid = ServerView { clients: s.clients.remove(id), ..s };
        match s.clients[id].room_id {
            Some(rid) => {
                lemma_orderly_removed(s, mid, id, rid);
            },
            None => {
                let post = disconnected(s, id).0;
                assert forall|k: Seq<char>, i: int|
                    #![trigger post.rooms[k].players[i]]
                    post.rooms.contains_key(k) && 0 <= i < post.rooms[k].players.len() implies {
                    let p = post.rooms[k].players[i];
                    post.registered(p) && post.clients[p].room_id == Some(k)
                } by {
                    let p = s.rooms[k].players[i];
                    assert(s.registered(p) && s.clients[p].room_id == Some(k));
                }
                assert forall|p: usize| #[trigger]
                    post.registered(p) && post.clients[p].room_id is Some implies post.has_room(p)
                    && post.room_of(p).players.contains(p) by {
                    assert(s.registered(p));
                }
            },
        }
    }
}

/// `id` goes to the room `rid`, whose players become `players`, and nothing
/// else about who is where changes.
spec fn moved_in(
    pre: ServerView,
    id: usize,
    rid: Seq<char>,
    players: Seq<usize>,
    post: ServerView,
) -> bool {
    &&& post.rooms.dom() == pre.rooms.dom().insert(rid)
    &&& post.rooms[rid].players == players
    &&& forall|k: Seq<char>|
        k != rid && pre.rooms.contains_key(k) ==> (#[trigger] post.rooms[k]).players
            == pre.rooms[k].players
    &&& post.clients == pre.clients.insert(
        id,
        PlayerView { room_id: Some(rid), ..pre.clients[id] },
    )
}

proof fn lemma_orderly_moved_in(
    pre: ServerView,
    id: usize,
    rid: Seq<char>,
    players: Seq<usize>,
    post: ServerView,
)
    requires
        orderly(pre),
        pre.registered(id),
        pre.clients[id].room_id is None,
        moved_in(pre, id, rid, players, post),
        pre.rooms.contains_key(rid) ==> players == pre.rooms[rid].players.push(id),
        !pre.rooms.contains_key(rid) ==> players == seq![id],
    ensures
        orderly(post),
{
    assert(players.last() == id);
    assert(players[players.len() - 1] == id);
    assert forall|k: Seq<char>, i: int|
        #![trigger post.rooms[k].players[i]]
        post.rooms.contains_key(k) && 0 <= i < post.rooms[k].players.len() implies {
        let p = post.rooms[k].players[i];
        post.registered(p) && post.clients[p].room_id == Some(k)
    } by {
        let p = post.rooms[k].players[i];
        if k == rid && i == players.len() - 1 {
        } else {
            assert(pre.rooms.contains_key(k));
            assert(pre.rooms[k].players[i] == p);
            assert(pre.registered(p) && pre.clients[p].room_id == Some(k));
            assert(p != id);
        }
    }
    assert forall|k: Seq<char>| #[trigger]
        post.rooms.contains_key(k) implies post.rooms[k].players.no_duplicates() by {
        if k == rid {
            if pre.rooms.contains_key(rid) {
                let before = pre.rooms[rid].players;
                assert(!before.contains(id)) by {
                    if before.contains(id) {
                        let j = before.index_of(id);
                        assert(pre.rooms[rid].players[j] == id);
                    }
                }
            }
        } else {
            assert(pre.rooms.contains_key(k));
        }
    }
    assert forall|p: usize| #[trigger]
        post.registered(p) && post.clients[p].room_id is Some implies post.has_room(p)
        && post.room_of(p).players.contains(p) by {
        if p == id {
        } else {
            assert(pre.registered(p));
            assert(pre.has_room(p));
            let k = pre.room_name_of(p);
            if k == rid {
                let before = pre.rooms[rid].players;
                let j = before.index_of(p);
                assert(players[j] == p);
            }
        }
    }
}

/// Steps that leave everybody where they are keep the server orderly.
proof fn lemma_orderly_stays(pre: ServerView, post: ServerView)
    requires
        orderly(pre),
        post.rooms.dom() == pre.rooms.dom(),
        post.clients.dom() == pre.clients.dom(),
        forall|k: Seq<char>| #[trigger]
            pre.rooms.contains_key(k) ==> post.rooms[k].players == pre.rooms[k].players,
        forall|p: usize| #[trigger]
            pre.clients.contains_key(p) ==> post.clients[p].room_id == pre.clients[p].room_id,
    ensures
        orderly(post),
{
    assert forall|k: Seq<char>, i: int|
        #![trigger post.rooms[k].players[i]]
        post.rooms.contains_key(k) && 0 <= i < post.rooms[k].players.len() implies {
        let p = post.rooms[k].players[i];
        post.registered(p) && post.clients[p].room_id == Some(k)
    } by {
        assert(pre.rooms.contains_key(k));
        let p = pre.rooms[k].players[i];
        assert(pre.registered(p));
        assert(pre.clients.contains_key(p));
    }
    assert forall|k: Seq<char>| #[trigger]
        post.rooms.contains_key(k) implies post.rooms[k].players.no_duplicates() by {
        assert(pre.rooms.contains_key(k));
    }
    assert forall|p: usize| #[trigger]
        post.registered(p) && post.clients[p].room_id is Some implies post.has_room(p)
        && post.room_of(p).players.contains(p) by {
        assert(pre.registered(p));
        assert(pre.clients.contains_key(p));
        assert(pre.has_room(p));
        assert(pre.rooms.contains_key(pre.room_name_of(p)));
    }
}

/// Requests of connected clients keep an orderly server orderly, if only
/// clients outside any room open or join one, and no room is opened under a
/// name that is taken.
pub proof fn law_orderly_is_kept(
    pre: ServerView,
    id: usize,
    request: Request,
    n: u16,
    post: ServerView,
    out: OutcomeView,
)
    requires
        pre.wf(),
        orderly(pre),
        pre.registered(id),
        handled(pre, id, request, n, post, out),
        request is CreateRoom ==> pre.clients[id].room_id is None && !pre.rooms.contains_key(
            room_name(n),
        ),
        request is JoinRoom ==> pre.clients[id].room_id is None,
    ensures
        orderly(post),
{
    match request {
        Request::CreateRoom => {
            let rid = room_name(n);
            assert(post.rooms.dom() =~= pre.rooms.dom().insert(rid));
            assert(moved_in(pre, id, rid, seq![id], post));
            lemma_orderly_moved_in(pre, id, rid, seq![id], post);
        },
        Request::JoinRoom(rid) => {
            if pre.rooms.contains_key(rid) && pre.rooms[rid].players.len() < 2 {
                let players = pre.rooms[rid].players.push(id);
                assert(post.rooms.dom() =~= pre.rooms.dom().insert(rid));
                assert(moved_in(pre, id, rid, players, post));
                lemma_orderly_moved_in(pre, id, rid, players, post);
            }
        },
        Request::LeaveRoom => {
            if pre.clients[id].room_id is Some {
                let rid = pre.room_name_of(id);
                lemma_orderly_removed(pre, pre.moved_to(id, None), id, rid);
            }
        },
        _ => {
            assert(post.rooms.dom() =~= pre.rooms.dom());
            assert(post.clients.dom() =~= pre.clients.dom());
            lemma_orderly_stays(pre, post);
        },
    }
}

proof fn lemma_farewells_reach(players: Seq<usize>, clients: Map<usize, PlayerView>)
    ensures
        forall|i: int|
            0 <= i < farewells(players, clients).len() ==> clients.contains_key(
                (#[trigger] farewells(players, clients)[i]).0,
            ),
        forall|i: int|
            0 <= i < farewells(players, clients).len() ==> players.contains(
                (#[trigger] farewells(players, clients)[i]).0,
            ),
    decreases players.len(),
{
    if players.len() > 0 {
        let front = players.drop_last();
        lemma_farewells_reach(front, clients);
        assert forall|i: int| 0 <= i < farewells(players, clients).len() implies players.contains(
            (#[trigger] farewells(players, clients)[i]).0,
        ) by {
            if i < farewells(front, clients).len() {
                let p = farewells(front, clients)[i].0;
                assert(front.contains(p));
                let j = front.index_of(p);
                assert(players[j] == p);
            } else {
                assert(players[players.len() - 1] == farewells(players, clients)[i].0);
            }
        }
    }
}

proof fn lemma_move_sends_reach(players: Seq<usize>, r: usize, c: usize, p: Piece, win: bool)
    ensures
        forall|i: int|
            0 <= i < move_sends(players, r, c, p, win).len() ==> players.contains(
                (#[trigger] move_sends(players, r, c, p, win)[i]).0,
            ),
        forall|i: int|
            0 <= i < move_sends(players, r, c, p, win).len() && (#[trigger] move_sends(
                players,
                r,
                c,
                p,
                win,
            )[i]).1 is GameOver ==> win,
        forall|q: usize| #[trigger]
            players.contains(q) ==> move_sends(players, r, c, p, win).contains(
                (q, Reply::UpdateBoard { r, c, p }),
            ) && (win ==> move_sends(players, r, c, p, win).contains(
                (q, Reply::GameOver { winner: p }),
            )),
    decreases players.len(),
{
    if players.len() > 0 {
        let front = players.drop_last();
        let sends = move_sends(players, r, c, p, win);
        let before = move_sends(front, r, c, p, win);
        lemma_move_sends_reach(front, r, c, p, win);
        assert forall|i: int| 0 <= i < sends.len() implies players.contains(
            (#[trigger] sends[i]).0,
        ) by {
            if i < before.len() {
                assert(sends[i] == before[i]);
                let q = before[i].0;
                assert(front.contains(q));
                let j = front.index_of(q);
                assert(players[j] == q);
            } else {
                assert(players[players.len() - 1] == sends[i].0);
            }
        }
        assert forall|i: int|
            0 <= i < sends.len() && (#[trigger] sends[i]).1 is GameOver implies win by {
            if i < before.len() {
                assert(sends[i] == before[i]);
            }
        }
        assert forall|q: usize| #[trigger] players.contains(q) implies sends.contains(
            (q, Reply::UpdateBoard { r, c, p }),
        ) && (win ==> sends.contains((q, Reply::GameOver { winner: p }))) by {
            let update = (q, Reply::UpdateBoard { r, c, p });
            let over = (q, Reply::GameOver { winner: p });
            if q == players.last() {
                assert(sends[before.len() as int] == update);
                if win {
                    assert(sends[before.len() as int + 1] == over);
                }
            } else {
                let j = players.index_of(q);
                assert(front[j] == q);
                assert(front.contains(q));
                let k = before.index_of(update);
                assert(sends[k] == update);
                if win {
                    let k = before.index_of(over);
                    assert(sends[k] == over);
                }
            }
        }
    }
}

/// Every message goes to a connected client.
pub proof fn law_messages_reach_clients(
    pre: ServerView,
    id: usize,
    request: Request,
    n: u16,
    post: ServerView,
    out: OutcomeView,
)
    requires
        pre.wf(),
        accepts(pre, id, request),
        handled(pre, id, request, n, post, out),
    ensures
        forall|i: int|
            0 <= i < out.sends.len() ==> post.registered((#[trigger] out.sends[i]).0),
{
    match request {
        Request::Move(r, c) => {
            if may_play(pre, id, r, c) {
                let room = room_after(pre.room_of(id), side_of(pre, id), r, c);
                let win = wins(room.board, r as int, c as int, side_of(pre, id));
                lemma_move_sends_reach(room.players, r, c, side_of(pre, id), win);
                assert forall|i: int| 0 <= i < out.sends.len() implies post.registered(
                    (#[trigger] out.sends[i]).0,
                ) by {
                    let p = out.sends[i].0;
                    assert(room.players.contains(p));
                    let j = pre.room_of(id).players.index_of(p);
                    assert(pre.registered(pre.room_of(id).players[j]));
                }
            }
        },
        Request::LeaveRoom => {
            if pre.registered(id) && pre.clients[id].room_id is Some {
                let mid = pre.moved_to(id, None);
                let rest = pre.rooms[pre.room_name_of(id)].without(id).players;
                lemma_farewells_reach(rest, mid.clients);
            }
        },
        Request::JoinRoom(rid) => {
            if pre.rooms.contains_key(rid) && pre.rooms[rid].players.len() < 2 {
                assert(pre.rooms[rid].wf());
                let players = pre.rooms[rid].players.push(id);
                assert(both_registered(players, pre));
                assert(players[1] == id);
            }
        },
        _ => {},
    }
}

/// A move that is not the client's to make, or to a cell that is taken, changes
/// nothing and is not answered.
pub proof fn law_refused_move_is_ignored(
    pre: ServerView,
    id: usize,
    r: usize,
    c: usize,
    n: u16,
    post: ServerView,
    out: OutcomeView,
)
    requires
        handled(pre, id, Request::Move(r, c), n, post, out),
        !may_play(pre, id, r, c),
    ensures
        post == pre,
        out == OutcomeView::quiet(),
{
}

/// Whoever plays in a room hears of every move that is made there, and nobody
/// else does.
pub proof fn law_players_hear_moves(
    pre: ServerView,
    id: usize,
    r: usize,
    c: usize,
    n: u16,
    post: ServerView,
    out: OutcomeView,
)
    requires
        handled(pre, id, Request::Move(r, c), n, post, out),
        may_play(pre, id, r, c),
    ensures
        forall|q: usize| #[trigger]
            pre.room_of(id).players.contains(q) ==> out.sends.contains(
                (q, Reply::UpdateBoard { r, c, p: side_of(pre, id) }),
            ),
        forall|i: int|
            0 <= i < out.sends.len() ==> pre.room_of(id).players.contains(
                (#[trigger] out.sends[i]).0,
            ),
{
    let p = side_of(pre, id);
    let room = room_after(pre.room_of(id), p, r, c);
    let win = wins(room.board, r as int, c as int, p);
    lemma_move_sends_reach(room.players, r, c, p, win);
}

/// In a room where the side of `id` has no five in a row yet, a move of `id`
/// ends the game, for all who play there, exactly if five in a row of that side
/// stand on the board after it.
pub proof fn law_game_ends_on_five(
    pre: ServerView,
    id: usize,
    r: usize,
    c: usize,
    n: u16,
    post: ServerView,
    out: OutcomeView,
)
    requires
        pre.wf(),
        accepts(pre, id, Request::Move(r, c)),
        handled(pre, id, Request::Move(r, c), n, post, out),
        may_play(pre, id, r, c),
        !has_five(pre.room_of(id).board, side_of(pre, id)),
    ensures
        has_five(post.room_of(id).board, side_of(pre, id)) ==> forall|q: usize| #[trigger]
            pre.room_of(id).players.contains(q) ==> out.sends.contains(
                (q, Reply::GameOver { winner: side_of(pre, id) }),
            ),
        !has_five(post.room_of(id).board, side_of(pre, id)) ==> forall|i: int|
            0 <= i < out.sends.len() ==> !((#[trigger] out.sends[i]).1 is GameOver),
{
    let p = side_of(pre, id);
    let board = pre.room_of(id).board;
    assert(pre.rooms.contains_key(pre.room_name_of(id)));
    law_win_is_first_five(board, r as int, c as int, p);
    let room = room_after(pre.room_of(id), p, r, c);
    assert(post.room_of(id) == room);
    let win = wins(room.board, r as int, c as int, p);
    lemma_move_sends_reach(room.players, r, c, p, win);
}

/// No request touches a room other than the one it names or opens and the one
/// its sender is in.
pub proof fn law_other_rooms_stay(
    pre: ServerView,
    id: usize,
    request: Request,
    n: u16,
    post: ServerView,
    out: OutcomeView,
    rid: Seq<char>,
)
    requires
        handled(pre, id, request, n, post, out),
        request is CreateRoom ==> rid != room_name(n),
        request matches Request::JoinRoom(named) ==> rid != named,
        pre.registered(id) && pre.clients[id].room_id is Some ==> rid != pre.room_name_of(id),
    ensures
        post.rooms.contains_key(rid) == pre.rooms.contains_key(rid),
        post.rooms.contains_key(rid) ==> post.rooms[rid] == pre.rooms[rid],
{
}

/// Nobody but the sender is renamed or moved to another room by a request.
pub proof fn law_other_clients_stay(
    pre: ServerView,
    id: usize,
    request: Request,
    n: u16,
    post: ServerView,
    out: OutcomeView,
    other: usize,
)
    requires
        handled(pre, id, request, n, post, out),
        other != id,
    ensures
        post.registered(other) == pre.registered(other),
        post.registered(other) ==> post.clients[other] == pre.clients[other],
{
}

/// A client that is alone in its room takes the room with it when it leaves.
pub proof fn law_empty_room_goes(
    pre: ServerView,
    id: usize,
    n: u16,
    post: ServerView,
    out: OutcomeView,
)
    requires
        handled(pre, id, Request::LeaveRoom, n, post, out),
        pre.has_room(id),
        pre.room_of(id).players == seq![id],
    ensures
        !post.rooms.contains_key(pre.room_name_of(id)),
        out.dissolved == Some(pre.room_name_of(id)),
        post.clients[id].room_id is None,
{
    reveal(Seq::filter);
    let players = seq![id];
    assert(players.drop_last() =~= Seq::empty());
    assert(players.drop_last().filter(other_than(id)) =~= Seq::empty());
    assert(players.filter(other_than(id)) =~= Seq::empty());
}

/// Rooms with different numbers have different names.
pub proof fn law_room_names_differ(m: u16, n: u16)
    requires
        m != n,
    ensures
        room_name(m) != room_name(n),
{
    if room_name(m) == room_name(n) {
        law_decimal_is_injective(m as nat, n as nat, 4);
    }
}

/// When a client goes away, too, every message goes to a client that is still
/// connected.
pub proof fn law_farewells_reach_clients(pre: ServerView, id: usize)
    ensures
        forall|i: int|
            0 <= i < disconnected(pre, id).1.sends.len() ==> disconnected(pre, id).0.registered(
                (#[trigger] disconnected(pre, id).1.sends[i]).0,
            ),
{
    if pre.registered(id) && pre.clients[id].room_id is Some {
        let rest = pre.rooms[pre.room_name_of(id)].without(id).players;
        lemma_farewells_reach(rest, pre.clients.remove(id));
    }
}

/// The game of client `q` once it has taken in those of `sends` that go to it.
pub open spec fn heard(game: GameView, sends: Seq<(usize, Reply)>, q: usize) -> GameView
    decreases sends.len(),
{
    if sends.len() == 0 {
        game
    } else {
        let before = heard(game, sends.drop_last(), q);
        if sends.last().0 == q {
            told(before, sends.last().1).0
        } else {
            before
        }
    }
}

/// The client shows the board and the turn of the room.
pub open spec fn in_step(game: GameView, room: RoomView) -> bool {
    game.board == room.board && game.turn == room.turn
}

/// Client `q` sits in a room, shows it as it is, and knows its own side.
pub open spec fn synced(s: ServerView, q: usize, game: GameView) -> bool {
    &&& s.has_room(q)
    &&& s.room_of(q).players.contains(q)
    &&& in_step(game, s.room_of(q))
    &&& game.my_piece == side_of(s, q)
}

proof fn lemma_heard_push(
    game: GameView,
    sends: Seq<(usize, Reply)>,
    send: (usize, Reply),
    q: usize,
)
    ensures
        heard(game, sends.push(send), q) == if send.0 == q {
            told(heard(game, sends, q), send.1).0
        } else {
            heard(game, sends, q)
        },
{
    assert(sends.push(send).drop_last() =~= sends);
}

proof fn lemma_heard_move(
    game: GameView,
    room: RoomView,
    players: Seq<usize>,
    r: usize,
    c: usize,
    p: Piece,
    win: bool,
    q: usize,
)
    requires
        in_step(game, room),
        is_grid(room.board),
        on_board(r as int, c as int),
    ensures
        ({
            let after = heard(game, move_sends(players, r, c, p, win), q);
            &&& after.my_piece == game.my_piece
            &&& players.contains(q) ==> in_step(after, room_after(room, p, r, c))
            &&& !players.contains(q) ==> after == game
        }),
    decreases players.len(),
{
    if players.len() > 0 {
        let front = players.drop_last();
        let last = players.last();
        let update = (last, Reply::UpdateBoard { r, c, p });
        let over = (last, Reply::GameOver { winner: p });
        let sends = move_sends(front, r, c, p, win);
        lemma_heard_move(game, room, front, r, c, p, win, q);
        lemma_heard_push(game, sends, update, q);
        lemma_heard_push(game, sends.push(update), over, q);
        assert(room.board[r as int].len() == crate::board::BOARD_SIZE);
        let board = place(room.board, r as int, c as int, p);
        assert(place(board, r as int, c as int, p) =~= board) by {
            assert(board[r as int].update(c as int, p) =~= board[r as int]);
        }
        assert(players =~= front.push(last));
        if front.contains(q) {
            let j = front.index_of(q);
            assert(players[j] == q);
        }
        if players.contains(q) && q != last {
            let j = players.index_of(q);
            assert(front[j] == q);
        }
        if q == last {
            assert(players[players.len() - 1] == q);
        }
    }
}

/// A move keeps every client in the room synced, once it has taken in what the
/// server sends it.
pub proof fn law_moves_keep_clients_synced(
    pre: ServerView,
    id: usize,
    r: usize,
    c: usize,
    n: u16,
    post: ServerView,
    out: OutcomeView,
    q: usize,
    game: GameView,
)
    requires
        pre.wf(),
        accepts(pre, id, Request::Move(r, c)),
        handled(pre, id, Request::Move(r, c), n, post, out),
        pre.has_room(id),
        synced(pre, q, game),
        pre.room_name_of(q) == pre.room_name_of(id),
    ensures
        synced(post, q, heard(game, out.sends, q)),
{
    if may_play(pre, id, r, c) {
        let p = side_of(pre, id);
        let room = pre.room_of(id);
        assert(pre.rooms.contains_key(pre.room_name_of(id)));
        let after = room_after(room, p, r, c);
        let win = wins(after.board, r as int, c as int, p);
        lemma_heard_move(game, room, room.players, r, c, p, win, q);
        assert(post.room_of(q) == after);
    }
}

proof fn lemma_heard_start(
    game: GameView,
    greeting: Seq<(usize, Reply)>,
    players: Seq<usize>,
    clients: Map<usize, PlayerView>,
    q: usize,
)
    requires
        players.len() == 2,
        players[0] != players[1],
        players.contains(q),
    ensures
        ({
            let after = heard(game, greeting + start_sends(players, clients), q);
            let seat = if q == players[0] {
                0int
            } else {
                1int
            };
            &&& after.board == empty_grid()
            &&& after.turn == Piece::Black
            &&& after.my_piece == RoomView::side(seat)
            &&& after.opponent_name == clients[players[1 - seat]].name
            &&& after.winner is None
        }),
{
    let starts = start_sends(players, clients);
    assert(greeting + starts =~= greeting.push(starts[0]).push(starts[1]));
    lemma_heard_push(game, greeting, starts[0], q);
    lemma_heard_push(game, greeting.push(starts[0]), starts[1], q);
}

proof fn lemma_seat(players: Seq<usize>, q: usize)
    requires
        players.len() == 2,
        players[0] != players[1],
        players.contains(q),
    ensures
        players.index_of_first(q) == Some(if q == players[0] { 0int } else { 1int }),
{
    players.index_of_first_ensures(q);
}

/// A client that joins another in a room starts their game: both are synced,
/// and each knows the other's name, once they have taken in what the server
/// sends them.
pub proof fn law_join_syncs_clients(
    pre: ServerView,
    id: usize,
    rid: Seq<char>,
    host: usize,
    n: u16,
    post: ServerView,
    out: OutcomeView,
    q: usize,
    game: GameView,
)
    requires
        handled(pre, id, Request::JoinRoom(rid), n, post, out),
        pre.rooms.contains_key(rid),
        pre.rooms[rid].players == seq![host],
        pre.registered(id),
        pre.registered(host),
        pre.clients[host].room_id == Some(rid),
        host != id,
        q == id || q == host,
    ensures
        synced(post, q, heard(game, out.sends, q)),
        heard(game, out.sends, q).opponent_name == pre.clients[
            if q == id { host } else { id }
        ].name,
{
    let players = seq![host].push(id);
    assert(players[0] == host && players[1] == id);
    assert(players.contains(q));
    let greeting = seq![(id, Reply::RoomJoined(rid))];
    lemma_heard_start(game, greeting, players, pre.clients, q);
    lemma_seat(players, q);
    assert(post.room_of(q).players == players);
}

/// When the other player of a room is ready already, a player who says so too
/// starts the next game: both are synced once they have taken in what the
/// server sends them.
pub proof fn law_rematch_syncs_clients(
    pre: ServerView,
    id: usize,
    n: u16,
    post: ServerView,
    out: OutcomeView,
    q: usize,
    game: GameView,
)
    requires
        pre.wf(),
        handled(pre, id, Request::Ready, n, post, out),
        pre.has_room(id),
        pre.has_room(q),
        pre.room_name_of(q) == pre.room_name_of(id),
        pre.room_of(id).players.contains(id),
        pre.room_of(id).players.contains(q),
        pre.room_of(id).players.len() == 2,
        pre.room_of(id).players.no_duplicates(),
        pre.room_of(id).ready[1 - pre.room_of(id).seat(id)],
    ensures
        post.room_of(id) == pre.room_of(id).restarted(),
        synced(post, q, heard(game, out.sends, q)),
{
    let room = pre.room_of(id);
    assert(pre.rooms.contains_key(pre.room_name_of(id)));
    lemma_seat(room.players, id);
    lemma_seat(room.players, q);
    assert(marked_ready(room, id).all_ready());
    lemma_heard_start(game, Seq::empty(), room.players, pre.clients, q);
    assert(Seq::<(usize, Reply)>::empty() + start_sends(room.players, pre.clients) =~= start_sends(
        room.players,
        pre.clients,
    ));
    assert(post.room_of(q) == room.restarted());
}

/// A client that is synced asks only for moves that the server makes.
pub proof fn law_client_asks_for_legal_moves(
    s: ServerView,
    id: usize,
    game: GameView,
    press: KeyPress,
    r: usize,
    c: usize,
)
    requires
        game.wf(),
        synced(s, id, game),
        key_taken(game, press).1 == GameActionView::Send(Request::Move(r, c)),
    ensures
        on_board(r as int, c as int),
        may_play(s, id, r, c),
{
}

/// A room that has just been opened is on the list of rooms.
pub proof fn law_opened_room_is_listed(
    pre: ServerView,
    host: usize,
    n: u16,
    mid: ServerView,
    opened: OutcomeView,
    id: usize,
    m: u16,
    post: ServerView,
    out: OutcomeView,
)
    requires
        handled(pre, host, Request::CreateRoom, n, mid, opened),
        handled(mid, id, Request::GetRooms, m, post, out),
    ensures
        out.sends.len() == 1,
        out.sends[0].0 == id,
        out.sends[0].1 is RoomList,
        out.sends[0].1->RoomList_0.contains(room_name(n)),
{
    let list = choose|list: Seq<Seq<char>>| #[trigger]
        lists_rooms(list, mid) && out == OutcomeView::sending(seq![(id, Reply::RoomList(list))]);
    assert(list.to_set().contains(room_name(n)));
}

/// A room that has just been opened can be joined, and that starts a game.
pub proof fn law_opened_room_can_be_joined(
    pre: ServerView,
    host: usize,
    n: u16,
    mid: ServerView,
    opened: OutcomeView,
    id: usize,
    m: u16,
    post: ServerView,
    out: OutcomeView,
)
    requires
        handled(pre, host, Request::CreateRoom, n, mid, opened),
        pre.registered(host),
        pre.registered(id),
        handled(mid, id, Request::JoinRoom(room_name(n)), m, post, out),
    ensures
        accepts(mid, id, Request::JoinRoom(room_name(n))),
        post.rooms[room_name(n)] == (RoomView {
            players: seq![host, id],
            ..RoomView::opened(host)
        }),
        out.sends == seq![(id, Reply::RoomJoined(room_name(n)))] + start_sends(
            seq![host, id],
            pre.clients,
        ),
{
    assert(seq![host].push(id) =~= seq![host, id]);
}

/// A name that a client takes is on the list of users.
pub proof fn law_chosen_name_is_listed(
    pre: ServerView,
    id: usize,
    name: Seq<char>,
    n: u16,
    mid: ServerView,
    welcome: OutcomeView,
    other: usize,
    m: u16,
    post: ServerView,
    out: OutcomeView,
)
    requires
        handled(pre, id, Request::SetName(name), n, mid, welcome),
        pre.registered(id),
        handled(mid, other, Request::GetUsers, m, post, out),
    ensures
        out.sends.len() == 1,
        out.sends[0].0 == other,
        out.sends[0].1 is UserList,
        out.sends[0].1->UserList_0.contains(name),
{
    let ids = choose|ids: Seq<usize>| #[trigger]
        lists_clients(ids, mid) && out == OutcomeView::sending(
            seq![(other, Reply::UserList(names_of(ids, mid)))],
        );
    assert(mid.clients.dom().contains(id));
    assert(ids.to_set().contains(id));
    let i = ids.index_of(id);
    assert(names_of(ids, mid)[i] == name);
}

proof fn lemma_filter_twice(players: Seq<usize>, id: usize)
    ensures
        players.filter(other_than(id)).filter(other_than(id)) == players.filter(other_than(id)),
    decreases players.len(),
{
    reveal(Seq::filter);
    if players.len() > 0 {
        let before = players.drop_last().filter(other_than(id));
        lemma_filter_twice(players.drop_last(), id);
        if players.last() != id {
            assert(before.push(players.last()).drop_last() =~= before);
        }
    }
}

/// Taking a client out of a room once more changes no room.
pub proof fn law_removing_twice_changes_no_room(s: ServerView, id: usize, rid: Seq<char>)
    ensures
        removed_from(removed_from(s, id, rid).0, id, rid).0.rooms == removed_from(
            s,
            id,
            rid,
        ).0.rooms,
{
    let once = removed_from(s, id, rid).0;
    lemma_filter_twice(s.rooms[rid].players, id);
    assert(removed_from(once, id, rid).0.rooms =~= once.rooms);
}

/// A server in the course of what one client sends: its state, the messages of
/// the client that it has handled, what it has sent, and the rooms that have
/// gone away.
#[verifier::ext_equal]
pub struct Session {
    pub server: ServerView,
    pub requests: Seq<Request>,
    pub sends: Seq<(usize, Reply)>,
    pub dissolved: Seq<Seq<char>>,
}

/// A line that a client has sent: the message that it holds, if it holds one,
/// and the number for the room that the message opens.
pub struct Line {
    pub request: Option<Request>,
    pub number: u16,
}

/// The server takes in one line from `id`.
pub open spec fn line_taken(s: Session, id: usize, line: Line, t: Session) -> bool {
    exists|out: OutcomeView| #[trigger]
        line_handled(s.server, id, line.request, line.number, t.server, out) && {
            &&& line.request matches Some(request) ==> accepts(s.server, id, request)
            &&& t.requests == match line.request {
                Some(request) => s.requests.push(request),
                None => s.requests,
            }
            &&& t.sends == s.sends + out.sends
            &&& t.dissolved == match out.dissolved {
                Some(rid) => s.dissolved.push(rid),
                None => s.dissolved,
            }
        }
}

/// The server takes in all of `lines` from `id`, one after the other, with no
/// other client acting.
pub open spec fn lines_taken(s: Session, id: usize, lines: Seq<Line>, t: Session) -> bool
    decreases lines.len(),
{
    if lines.len() == 0 {
        t == s
    } else {
        exists|mid: Session|
            lines_taken(s, id, lines.drop_last(), mid) && #[trigger] line_taken(
                mid,
                id,
                lines.last(),
                t,
            )
    }
}

/// The predicate that holds of a line with a message.
pub open spec fn is_message() -> spec_fn(Line) -> bool {
    |line: Line| line.request is Some
}

proof fn lemma_no_message_does_nothing(s: Session, id: usize, line: Line, t: Session)
    requires
        line.request is None,
    ensures
        line_taken(s, id, line, t) <==> t == s,
{
    if line_taken(s, id, line, t) {
        assert(t =~= s);
    }
    if t == s {
        let out = OutcomeView::quiet();
        assert(line_handled(s.server, id, line.request, line.number, t.server, out));
        assert(t.sends =~= s.sends + out.sends);
    }
}

/// Lines that are no message have no effect and get no reply: without them the
/// server handles the same messages in the same order, comes to the same state
/// and sends the same.
pub proof fn law_only_messages_matter(s: Session, id: usize, lines: Seq<Line>, t: Session)
    ensures
        lines_taken(s, id, lines, t) <==> lines_taken(s, id, lines.filter(is_message()), t),
    decreases lines.len(),
{
    reveal(Seq::filter);
    if lines.len() > 0 {
        let front = lines.drop_last();
        let last = lines.last();
        let kept = front.filter(is_message());
        assert forall|mid: Session| lines_taken(s, id, front, mid) == #[trigger] lines_taken(
            s,
            id,
            kept,
            mid,
        ) by {
            law_only_messages_matter(s, id, front, mid);
        }
        if last.request is Some {
            assert(lines.filter(is_message()) == kept.push(last));
            assert(kept.push(last).drop_last() =~= kept);
            assert(kept.push(last).last() == last);
            if lines_taken(s, id, lines, t) {
                let mid = choose|mid: Session|
                    lines_taken(s, id, front, mid) && #[trigger] line_taken(mid, id, last, t);
                assert(lines_taken(s, id, kept, mid));
                assert(lines_taken(s, id, kept.push(last), t));
            }
            if lines_taken(s, id, kept.push(last), t) {
                let mid = choose|mid: Session|
                    lines_taken(s, id, kept, mid) && #[trigger] line_taken(mid, id, last, t);
                assert(lines_taken(s, id, front, mid) == lines_taken(s, id, kept, mid));
                assert(lines_taken(s, id, lines, t));
            }
        } else {
            assert(lines.filter(is_message()) == kept);
            assert forall|mid: Session| #[trigger] line_taken(mid, id, last, t) == (t == mid) by {
                lemma_no_message_does_nothing(mid, id, last, t);
            }
            assert(line_taken(t, id, last, t));
            if lines_taken(s, id, lines, t) {
                let mid = choose|mid: Session|
                    lines_taken(s, id, front, mid) && #[trigger] line_taken(mid, id, last, t);
                assert(mid == t);
            }
            assert(lines_taken(s, id, front, t) == lines_taken(s, id, kept, t));
        }
    }
}

} // verus!
