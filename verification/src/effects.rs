//! What each request changes and what it does not, told client by client, room
//! by room and message by message.

use vstd::prelude::*;

use crate::board::{law_line_of_five_wins, law_win_lies_in_line_of_five, Piece};
use crate::protocol::{Reply, Request};
use crate::room::{other_than, RoomView};
use crate::steps::{
    accepts, connected, disconnected, farewells, handled, line_handled, lists_clients, lists_rooms,
    may_play, move_sends, names_of, removed_from, room_name, side_of, OutcomeView, PlayerView,
    ServerView,
};
use crate::text::{
    decimal, law_decimal_reads_back, law_filling_up_adds_zeros_in_front, number,
};

verus! {

/// A new server knows nobody and has no rooms; the first client gets number 0.
pub proof fn law_new_server_is_empty(id: usize, rid: Seq<char>)
    ensures
        !ServerView::initial().clients.contains_key(id),
        !ServerView::initial().rooms.contains_key(rid),
        ServerView::initial().next_id == 0,
{
}

/// A line that is no message changes nothing and is not answered; one that is a
/// message does what the message does.
pub proof fn law_lines_do_what_they_say(
    pre: ServerView,
    id: usize,
    request: Option<Request>,
    n: u16,
    post: ServerView,
    out: OutcomeView,
)
    requires
        line_handled(pre, id, request, n, post, out),
    ensures
        request is Some ==> handled(pre, id, request->0, n, post, out),
        request is None ==> post == pre && out.sends.len() == 0 && out.dissolved is None,
{
}

/// A client that connects is there under a name made from its number and in no
/// room; nobody else notices.
pub proof fn law_connecting_adds_one_client(s: ServerView, id: usize, other: usize)
    ensures
        connected(s, id).clients.contains_key(id),
        connected(s, id).clients[id].name == "User_"@ + decimal(id as nat),
        connected(s, id).clients[id].room_id is None,
        other != id ==> connected(s, id).clients.contains_key(other) == s.clients.contains_key(
            other,
        ),
        other != id ==> connected(s, id).clients[other] == s.clients[other],
        connected(s, id).rooms == s.rooms,
        connected(s, id).next_id == s.next_id,
{
}

/// Handing out a number uses that number up and does nothing else.
pub proof fn law_handing_out_takes_one_number(s: ServerView)
    requires
        s.next_id < usize::MAX,
    ensures
        s.issued().next_id == s.next_id + 1,
        s.issued().clients == s.clients,
        s.issued().rooms == s.rooms,
{
}

/// A client that takes a name has it, stays where it is, and is welcomed.
pub proof fn law_name_is_taken(
    pre: ServerView,
    id: usize,
    name: Seq<char>,
    n: u16,
    post: ServerView,
    out: OutcomeView,
)
    requires
        handled(pre, id, Request::SetName(name), n, post, out),
        pre.clients.contains_key(id),
    ensures
        post.clients.dom() == pre.clients.dom(),
        post.clients[id].name == name,
        post.clients[id].room_id == pre.clients[id].room_id,
        forall|q: usize| q != id ==> #[trigger] post.clients[q] == pre.clients[q],
        post.rooms == pre.rooms,
        post.next_id == pre.next_id,
        out.sends.len() == 1,
        out.sends[0] == (id, Reply::Welcome("Connected."@)),
        out.dissolved is None,
{
    assert(post.clients.dom() =~= pre.clients.dom());
}

/// A new room has its founder in the first seat, an empty board, black to move
/// and nobody ready. The founder is in it and is told its name; all other rooms
/// and clients stay as they are.
pub proof fn law_room_is_opened(
    pre: ServerView,
    id: usize,
    n: u16,
    post: ServerView,
    out: OutcomeView,
    rid: Seq<char>,
)
    requires
        handled(pre, id, Request::CreateRoom, n, post, out),
        rid == room_name(n),
    ensures
        post.rooms.contains_key(rid),
        post.rooms[rid].players.len() == 1,
        post.rooms[rid].players[0] == id,
        post.rooms[rid].ready.len() == 2,
        !post.rooms[rid].ready[0] && !post.rooms[rid].ready[1],
        post.rooms[rid].turn == Piece::Black,
        forall|r: int, c: int|
            0 <= r < 15 && 0 <= c < 15 ==> #[trigger] post.rooms[rid].board[r][c] == Piece::Empty,
        forall|k: Seq<char>|
            k != rid ==> post.rooms.contains_key(k) == #[trigger] pre.rooms.contains_key(k),
        forall|k: Seq<char>| k != rid ==> #[trigger] post.rooms[k] == pre.rooms[k],
        forall|q: usize|
            post.clients.contains_key(q) == #[trigger] pre.clients.contains_key(q),
        forall|q: usize| q != id ==> #[trigger] post.clients[q] == pre.clients[q],
        pre.clients.contains_key(id) ==> {
            &&& post.clients[id].name == pre.clients[id].name
            &&& post.clients[id].room_id == Some(rid)
            &&& out.sends.len() == 1
            &&& out.sends[0] == (id, Reply::RoomCreated(rid))
        },
        !pre.clients.contains_key(id) ==> out.sends.len() == 0,
        out.dissolved is None,
        post.next_id == pre.next_id,
{
}

/// A room that is not there, or that two clients sit in, cannot be joined: the
/// client is told so, and nothing changes.
pub proof fn law_joining_is_refused(
    pre: ServerView,
    id: usize,
    rid: Seq<char>,
    n: u16,
    post: ServerView,
    out: OutcomeView,
)
    requires
        handled(pre, id, Request::JoinRoom(rid), n, post, out),
        !pre.rooms.contains_key(rid) || pre.rooms[rid].players.len() >= 2,
    ensures
        post == pre,
        out.sends.len() == 1,
        out.sends[0].0 == id,
        !pre.rooms.contains_key(rid) ==> out.sends[0].1 == Reply::Error("Not found"@),
        pre.rooms.contains_key(rid) ==> out.sends[0].1 == Reply::Error("Full"@),
        out.dissolved is None,
{
}

/// A client that joins another takes the second seat and is told the room; then
/// both are told their sides and each other's names, and the game begins on an
/// empty board with black to move.
pub proof fn law_joining_starts_a_game(
    pre: ServerView,
    id: usize,
    rid: Seq<char>,
    n: u16,
    post: ServerView,
    out: OutcomeView,
    host: usize,
)
    requires
        handled(pre, id, Request::JoinRoom(rid), n, post, out),
        pre.clients.contains_key(id),
        pre.rooms.contains_key(rid),
        pre.rooms[rid].players.len() == 1,
        pre.rooms[rid].players[0] == host,
    ensures
        post.rooms.dom() == pre.rooms.dom(),
        post.rooms[rid].players.len() == 2,
        post.rooms[rid].players[0] == host,
        post.rooms[rid].players[1] == id,
        post.rooms[rid].ready.len() == 2,
        !post.rooms[rid].ready[0] && !post.rooms[rid].ready[1],
        post.rooms[rid].turn == Piece::Black,
        forall|r: int, c: int|
            0 <= r < 15 && 0 <= c < 15 ==> #[trigger] post.rooms[rid].board[r][c] == Piece::Empty,
        forall|k: Seq<char>| k != rid ==> #[trigger] post.rooms[k] == pre.rooms[k],
        post.clients.dom() == pre.clients.dom(),
        post.clients[id].name == pre.clients[id].name,
        post.clients[id].room_id == Some(rid),
        forall|q: usize| q != id ==> #[trigger] post.clients[q] == pre.clients[q],
        out.sends.len() == 3,
        out.sends[0] == (id, Reply::RoomJoined(rid)),
        out.sends[1] == (
            host,
            Reply::GameStart { player_id: Piece::Black, opponent_name: pre.clients[id].name },
        ),
        out.sends[2] == (
            id,
            Reply::GameStart { player_id: Piece::White, opponent_name: pre.clients[host].name },
        ),
        out.dissolved is None,
        post.next_id == pre.next_id,
{
    assert(post.rooms.dom() =~= pre.rooms.dom());
    assert(post.clients.dom() =~= pre.clients.dom());
}

/// Whoever says it is ready while the other seat is empty or not ready waits:
/// its own mark is set, and nothing else changes or goes out.
pub proof fn law_ready_waits_for_the_other(
    pre: ServerView,
    id: usize,
    n: u16,
    post: ServerView,
    out: OutcomeView,
    rid: Seq<char>,
    seat: int,
)
    requires
        handled(pre, id, Request::Ready, n, post, out),
        pre.clients.contains_key(id),
        pre.clients[id].room_id == Some(rid),
        pre.rooms.contains_key(rid),
        pre.rooms[rid].ready.len() == 2,
        pre.rooms[rid].players.len() <= 2,
        0 <= seat < pre.rooms[rid].players.len(),
        pre.rooms[rid].players[seat] == id,
        seat == 1 ==> pre.rooms[rid].players[0] != id,
        pre.rooms[rid].players.len() == 1 || !pre.rooms[rid].ready[1 - seat],
    ensures
        out.sends.len() == 0,
        out.dissolved is None,
        post.rooms.dom() == pre.rooms.dom(),
        post.rooms[rid].players == pre.rooms[rid].players,
        post.rooms[rid].board == pre.rooms[rid].board,
        post.rooms[rid].turn == pre.rooms[rid].turn,
        post.rooms[rid].ready.len() == 2,
        post.rooms[rid].ready[seat],
        post.rooms[rid].ready[1 - seat] == pre.rooms[rid].ready[1 - seat],
        forall|k: Seq<char>| k != rid ==> #[trigger] post.rooms[k] == pre.rooms[k],
        post.clients == pre.clients,
        post.next_id == pre.next_id,
{
    pre.rooms[rid].players.index_of_first_ensures(id);
    assert(post.rooms.dom() =~= pre.rooms.dom());
}

/// Whoever says it is ready when the other one is starts the next game: the
/// board is empty, black is to move, nobody is ready, and both are told their
/// sides and each other's names.
pub proof fn law_both_ready_start_a_game(
    pre: ServerView,
    id: usize,
    n: u16,
    post: ServerView,
    out: OutcomeView,
    rid: Seq<char>,
    seat: int,
)
    requires
        handled(pre, id, Request::Ready, n, post, out),
        pre.clients.contains_key(id),
        pre.clients[id].room_id == Some(rid),
        pre.rooms.contains_key(rid),
        pre.rooms[rid].ready.len() == 2,
        pre.rooms[rid].players.len() == 2,
        0 <= seat < 2,
        pre.rooms[rid].players[seat] == id,
        seat == 1 ==> pre.rooms[rid].players[0] != id,
        pre.rooms[rid].ready[1 - seat],
    ensures
        post.rooms.dom() == pre.rooms.dom(),
        post.rooms[rid].players == pre.rooms[rid].players,
        forall|r: int, c: int|
            0 <= r < 15 && 0 <= c < 15 ==> #[trigger] post.rooms[rid].board[r][c] == Piece::Empty,
        post.rooms[rid].turn == Piece::Black,
        post.rooms[rid].ready.len() == 2,
        !post.rooms[rid].ready[0] && !post.rooms[rid].ready[1],
        forall|k: Seq<char>| k != rid ==> #[trigger] post.rooms[k] == pre.rooms[k],
        post.clients == pre.clients,
        out.sends.len() == 2,
        out.sends[0] == (
            pre.rooms[rid].players[0],
            Reply::GameStart {
                player_id: Piece::Black,
                opponent_name: pre.clients[pre.rooms[rid].players[1]].name,
            },
        ),
        out.sends[1] == (
            pre.rooms[rid].players[1],
            Reply::GameStart {
                player_id: Piece::White,
                opponent_name: pre.clients[pre.rooms[rid].players[0]].name,
            },
        ),
        out.dissolved is None,
        post.next_id == pre.next_id,
{
    pre.rooms[rid].players.index_of_first_ensures(id);
    assert(post.rooms.dom() =~= pre.rooms.dom());
}

/// A client that is not connected, or in no room, or in a room that is gone.
pub open spec fn nowhere(s: ServerView, id: usize) -> bool {
    ||| !s.clients.contains_key(id)
    ||| s.clients[id].room_id is None
    ||| !s.rooms.contains_key(s.clients[id].room_id->0)
}

/// A client that is nowhere changes nothing by being ready or by a move, and
/// one that its room does not know changes nothing by being ready.
pub proof fn law_nowhere_nothing_happens(
    pre: ServerView,
    id: usize,
    request: Request,
    n: u16,
    post: ServerView,
    out: OutcomeView,
)
    requires
        handled(pre, id, request, n, post, out),
        request is Ready || request is Move,
        nowhere(pre, id) || (request is Ready && !pre.rooms[
            pre.clients[id].room_id->0
        ].players.contains(id)),
    ensures
        post == pre,
        out.sends.len() == 0,
        out.dissolved is None,
{
}

/// A stranger takes no name and leaves no room.
pub proof fn law_strangers_change_nothing(
    pre: ServerView,
    id: usize,
    request: Request,
    n: u16,
    post: ServerView,
    out: OutcomeView,
)
    requires
        handled(pre, id, request, n, post, out),
        request is SetName || request is LeaveRoom,
        !pre.clients.contains_key(id),
    ensures
        post == pre,
        out.sends.len() == 0,
        out.dissolved is None,
{
}

/// Taking a client out of a room goes seat by seat: a seat of the client is
/// gone, every other one stays, and nothing but the seats changes.
pub proof fn law_taking_out_goes_seat_by_seat(
    room: RoomView,
    front: Seq<usize>,
    p: usize,
    id: usize,
)
    requires
        room.players == front.push(p),
    ensures
        ({
            let rest = (RoomView { players: front, ..room }).without(id).players;
            room.without(id).players == if p == id {
                rest
            } else {
                rest.push(p)
            }
        }),
        (RoomView { players: Seq::empty(), ..room }).without(id).players.len() == 0,
        room.without(id).ready == room.ready,
        room.without(id).board == room.board,
        room.without(id).turn == room.turn,
{
    reveal(Seq::filter);
    assert(front.push(p).drop_last() =~= front);
}

/// A game can start in a room exactly if two sit in it and no mark is missing.
pub proof fn law_room_is_ready_without_a_mark_missing(room: RoomView)
    requires
        room.ready.len() == 2,
    ensures
        room.all_ready() <==> room.players.len() == 2 && !room.ready.contains(false),
{
    if room.all_ready() {
        assert(!room.ready.contains(false));
    }
    if !room.ready.contains(false) {
        assert(room.ready[0] || room.ready.contains(room.ready[0]));
        assert(room.ready[1] || room.ready.contains(room.ready[1]));
    }
}

/// A client that sits in a room has the first seat that is its own, and plays
/// black from the first seat of the room and white from any other.
pub proof fn law_first_own_seat_counts(room: RoomView, id: usize, seat: int)
    requires
        0 <= seat < room.players.len(),
        room.players[seat] == id,
        forall|i: int| 0 <= i < seat ==> #[trigger] room.players[i] != id,
    ensures
        room.seat(id) == seat,
        seat == 0 ==> RoomView::side(seat) == Piece::Black,
        seat > 0 ==> RoomView::side(seat) == Piece::White,
{
    room.players.index_of_first_ensures(id);
}

proof fn lemma_filter_len_two(players: Seq<usize>, id: usize)
    requires
        players.len() <= 2,
    ensures
        ({
            let rest = players.filter(other_than(id));
            &&& players.len() == 0 ==> rest.len() == 0
            &&& players.len() == 1 ==> rest == if players[0] != id {
                seq![players[0]]
            } else {
                Seq::empty()
            }
            &&& players.len() == 2 ==> rest == if players[0] != id && players[1] != id {
                seq![players[0], players[1]]
            } else if players[0] != id {
                seq![players[0]]
            } else if players[1] != id {
                seq![players[1]]
            } else {
                Seq::empty()
            }
        }),
{
    reveal_with_fuel(Seq::filter, 3);
    let rest = players.filter(other_than(id));
    if players.len() == 1 {
        assert(players.drop_last() =~= Seq::empty());
        assert(rest =~= if players[0] != id { seq![players[0]] } else { Seq::empty() });
    } else if players.len() == 2 {
        let front = players.drop_last();
        assert(front.drop_last() =~= Seq::empty());
        assert(front.filter(other_than(id)) =~= if players[0] != id {
            seq![players[0]]
        } else {
            Seq::empty()
        });
        assert(rest =~= if players[0] != id && players[1] != id {
            seq![players[0], players[1]]
        } else if players[0] != id {
            seq![players[0]]
        } else if players[1] != id {
            seq![players[1]]
        } else {
            Seq::empty()
        });
    }
}

proof fn lemma_farewells(players: Seq<usize>, clients: Map<usize, PlayerView>)
    ensures
        forall|q: usize|
            #![trigger players.contains(q)]
            players.contains(q) && clients.contains_key(q) ==> farewells(players, clients).contains(
                (q, Reply::Error("Opponent disconnected/left."@)),
            ),
        forall|i: int|
            #![trigger farewells(players, clients)[i]]
            0 <= i < farewells(players, clients).len() ==> {
                &&& players.contains(farewells(players, clients)[i].0)
                &&& clients.contains_key(farewells(players, clients)[i].0)
                &&& farewells(players, clients)[i].1 == Reply::Error(
                    "Opponent disconnected/left."@,
                )
            },
        farewells(players, clients).len() <= players.len(),
        farewells(players, clients).len() == players.len() ==> forall|i: int|
            0 <= i < players.len() ==> (#[trigger] farewells(players, clients)[i]).0 == players[i],
        (forall|i: int| 0 <= i < players.len() ==> clients.contains_key(#[trigger] players[i]))
            ==> farewells(players, clients).len() == players.len(),
    decreases players.len(),
{
    if players.len() > 0 {
        let front = players.drop_last();
        let last = players.last();
        let before = farewells(front, clients);
        let all = farewells(players, clients);
        let text = Reply::Error("Opponent disconnected/left."@);
        lemma_farewells(front, clients);
        assert forall|q: usize|
            #![trigger players.contains(q)]
            players.contains(q) && clients.contains_key(q) implies all.contains((q, text)) by {
            if q == last {
                assert(all[all.len() - 1] == (q, text));
            } else {
                let j = players.index_of(q);
                assert(front[j] == q);
                assert(front.contains(q));
                let i = before.index_of((q, text));
                assert(all[i] == (q, text));
            }
        }
        assert forall|i: int| #![trigger all[i]] 0 <= i < all.len() implies {
            &&& players.contains(all[i].0)
            &&& clients.contains_key(all[i].0)
            &&& all[i].1 == text
        } by {
            if i < before.len() {
                assert(all[i] == before[i]);
                assert(front.contains(before[i].0));
                let j = front.index_of(before[i].0);
                assert(players[j] == before[i].0);
            } else {
                assert(players[players.len() - 1] == all[i].0);
            }
        }
    }
}

/// What taking `id` out of its room comes to: whoever else sat there sits on in
/// the same order, and those of them who are connected, and nobody else, are
/// told once each that they are alone; the game there stays as it is. Without
/// anybody left the room goes away, and nobody is told.
pub open spec fn taken_out(
    before: ServerView,
    id: usize,
    rid: Seq<char>,
    post: ServerView,
    out: OutcomeView,
) -> bool {
    let players = before.rooms[rid].players;
    &&& post.next_id == before.next_id
    &&& forall|k: Seq<char>|
        k != rid ==> post.rooms.contains_key(k) == #[trigger] before.rooms.contains_key(k)
    &&& forall|k: Seq<char>| k != rid ==> #[trigger] post.rooms[k] == before.rooms[k]
    &&& (forall|i: int| 0 <= i < players.len() ==> #[trigger] players[i] == id) ==> {
        &&& !post.rooms.contains_key(rid)
        &&& out.sends.len() == 0
        &&& out.dissolved == Some(rid)
    }
    &&& (exists|i: int| 0 <= i < players.len() && #[trigger] players[i] != id) ==> {
        &&& post.rooms.contains_key(rid)
        &&& post.rooms[rid].ready == before.rooms[rid].ready
        &&& post.rooms[rid].board == before.rooms[rid].board
        &&& post.rooms[rid].turn == before.rooms[rid].turn
        &&& out.dissolved is None
        &&& forall|q: usize| #[trigger]
            players.contains(q) && q != id && post.clients.contains_key(q) ==> out.sends.contains(
                (q, Reply::Error("Opponent disconnected/left."@)),
            )
        &&& forall|i: int|
            #![trigger out.sends[i]]
            0 <= i < out.sends.len() ==> {
                &&& players.contains(out.sends[i].0)
                &&& out.sends[i].0 != id
                &&& post.clients.contains_key(out.sends[i].0)
                &&& out.sends[i].1 == Reply::Error("Opponent disconnected/left."@)
            }
        &&& out.sends.len() <= post.rooms[rid].players.len()
        &&& (forall|i: int|
            0 <= i < post.rooms[rid].players.len() ==> post.clients.contains_key(
                #[trigger] post.rooms[rid].players[i],
            )) ==> {
            &&& out.sends.len() == post.rooms[rid].players.len()
            &&& forall|i: int|
                0 <= i < out.sends.len() ==> (#[trigger] out.sends[i]).0
                    == post.rooms[rid].players[i]
        }
    }
    &&& players.len() == 1 && players[0] != id ==> post.rooms[rid].players == players
    &&& players.len() == 2 && players[0] != id && players[1] != id ==> post.rooms[rid].players
        == players
    &&& players.len() == 2 && players[0] != id && players[1] == id ==> post.rooms[rid].players
        == seq![players[0]]
    &&& players.len() == 2 && players[0] == id && players[1] != id ==> post.rooms[rid].players
        == seq![players[1]]
}

proof fn lemma_taken_out(
    before: ServerView,
    mid: ServerView,
    id: usize,
    rid: Seq<char>,
    post: ServerView,
    out: OutcomeView,
)
    requires
        before.rooms.contains_key(rid),
        before.rooms[rid].players.len() <= 2,
        mid.rooms == before.rooms,
        mid.next_id == before.next_id,
        (post, out) == removed_from(mid, id, rid),
    ensures
        taken_out(before, id, rid, post, out),
{
    let players = before.rooms[rid].players;
    let rest = players.filter(other_than(id));
    lemma_filter_len_two(players, id);
    lemma_farewells(rest, mid.clients);
    assert(players.len() == 1 ==> players =~= seq![players[0]]);
    assert(players.len() == 2 ==> players =~= seq![players[0], players[1]]);
    assert forall|q: usize| rest.contains(q) == (#[trigger] players.contains(q) && q != id) by {
        if rest.contains(q) {
            let i = rest.index_of(q);
            assert(rest[i] == q);
            if players.len() == 2 && q == players[1] {
                assert(players[1] == q);
            } else {
                assert(players[0] == q);
            }
        }
        if players.contains(q) && q != id {
            let j = players.index_of(q);
            assert(players[j] == q);
            if players.len() == 2 && players[0] != id && players[1] != id {
                assert(rest[j] == q);
            } else {
                assert(rest[0] == q);
            }
        }
    }
    if exists|i: int| 0 <= i < players.len() && #[trigger] players[i] != id {
        let i = choose|i: int| 0 <= i < players.len() && #[trigger] players[i] != id;
        assert(players.contains(players[i]));
        assert(rest.contains(players[i]));
        assert(rest.len() > 0);
    }
    if forall|i: int| 0 <= i < players.len() ==> #[trigger] players[i] == id {
        if players.len() > 0 {
            assert(players[0] == id);
        }
        if players.len() > 1 {
            assert(players[1] == id);
        }
        assert(rest.len() == 0);
    }
}

/// A client that leaves its room is in none, and every other connected client
/// that sat there, whatever its seat, is told that its opponent has left.
pub proof fn law_leaving_is_told(
    pre: ServerView,
    id: usize,
    n: u16,
    post: ServerView,
    out: OutcomeView,
    rid: Seq<char>,
)
    requires
        handled(pre, id, Request::LeaveRoom, n, post, out),
        pre.clients.contains_key(id),
        pre.clients[id].room_id == Some(rid),
        pre.rooms.contains_key(rid),
        pre.rooms[rid].players.len() <= 2,
    ensures
        post.clients.dom() == pre.clients.dom(),
        post.clients[id].room_id is None,
        post.clients[id].name == pre.clients[id].name,
        forall|q: usize| q != id ==> #[trigger] post.clients[q] == pre.clients[q],
        forall|q: usize|
            q != id && #[trigger] pre.rooms[rid].players.contains(q) && pre.clients.contains_key(q)
                ==> out.sends.contains((q, Reply::Error("Opponent disconnected/left."@))),
        taken_out(pre, id, rid, post, out),
{
    let mid = pre.moved_to(id, None);
    lemma_taken_out(pre, mid, id, rid, post, out);
    assert(post.clients.dom() =~= pre.clients.dom());
    assert forall|q: usize|
        q != id && #[trigger] pre.rooms[rid].players.contains(q) && pre.clients.contains_key(
            q,
        ) implies out.sends.contains((q, Reply::Error("Opponent disconnected/left."@))) by {
        assert(mid.clients.contains_key(q));
        let j = pre.rooms[rid].players.index_of(q);
        assert(pre.rooms[rid].players[j] != id);
    }
}

/// A client that goes away is forgotten, and every other connected client that
/// sat in its room, whatever its seat, is told that its opponent has left.
pub proof fn law_going_away_is_told(pre: ServerView, id: usize, rid: Seq<char>)
    requires
        pre.clients.contains_key(id),
        pre.clients[id].room_id == Some(rid),
        pre.rooms.contains_key(rid),
        pre.rooms[rid].players.len() <= 2,
    ensures
        ({
            let (post, out) = disconnected(pre, id);
            &&& !post.clients.contains_key(id)
            &&& forall|q: usize|
                q != id ==> post.clients.contains_key(q) == #[trigger] pre.clients.contains_key(q)
            &&& forall|q: usize| q != id ==> #[trigger] post.clients[q] == pre.clients[q]
            &&& forall|q: usize|
                q != id && #[trigger] pre.rooms[rid].players.contains(q)
                    && pre.clients.contains_key(q) ==> out.sends.contains(
                    (q, Reply::Error("Opponent disconnected/left."@)),
                )
            &&& taken_out(pre, id, rid, post, out)
        }),
{
    let (post, out) = disconnected(pre, id);
    let mid = ServerView { clients: pre.clients.remove(id), ..pre };
    lemma_taken_out(pre, mid, id, rid, post, out);
    assert forall|q: usize|
        q != id && #[trigger] pre.rooms[rid].players.contains(q) && pre.clients.contains_key(
            q,
        ) implies out.sends.contains((q, Reply::Error("Opponent disconnected/left."@))) by {
        assert(mid.clients.contains_key(q));
        let j = pre.rooms[rid].players.index_of(q);
        assert(pre.rooms[rid].players[j] != id);
    }
}

/// A client in no room, or in one that is gone, leaves and goes away without a
/// word, and no room changes.
pub proof fn law_going_from_nowhere_is_silent(
    pre: ServerView,
    id: usize,
    n: u16,
    post: ServerView,
    out: OutcomeView,
)
    requires
        handled(pre, id, Request::LeaveRoom, n, post, out),
        nowhere(pre, id),
    ensures
        post.rooms == pre.rooms,
        out.sends.len() == 0,
        out.dissolved is None,
        forall|q: usize| post.clients.contains_key(q) == #[trigger] pre.clients.contains_key(q),
        forall|q: usize| (#[trigger] post.clients[q]).name == pre.clients[q].name,
        forall|q: usize| q != id ==> #[trigger] post.clients[q] == pre.clients[q],
        pre.clients.contains_key(id) ==> post.clients[id].room_id is None,
        post.next_id == pre.next_id,
        disconnected(pre, id).0.rooms == pre.rooms,
        disconnected(pre, id).0.next_id == pre.next_id,
        disconnected(pre, id).0.clients == pre.clients.remove(id),
        disconnected(pre, id).1.sends.len() == 0,
        disconnected(pre, id).1.dissolved is None,
{
    assert(disconnected(pre, id).0.clients =~= pre.clients.remove(id));
}

/// Each of `players` in turn is told of the move, and nothing else goes out.
pub open spec fn told_of_move(
    players: Seq<usize>,
    r: usize,
    c: usize,
    p: Piece,
    sends: Seq<(usize, Reply)>,
) -> bool {
    &&& sends.len() == players.len()
    &&& forall|i: int|
        0 <= i < players.len() ==> #[trigger] sends[i] == (
            players[i],
            Reply::UpdateBoard { r, c, p },
        )
}

/// Each of `players` in turn is told of the move and right after it who has
/// won, and nothing else goes out.
pub open spec fn told_of_win(
    players: Seq<usize>,
    r: usize,
    c: usize,
    p: Piece,
    sends: Seq<(usize, Reply)>,
) -> bool {
    &&& sends.len() == 2 * players.len()
    &&& forall|i: int|
        #![trigger players[i]]
        0 <= i < players.len() ==> {
            &&& sends[2 * i] == (players[i], Reply::UpdateBoard { r, c, p })
            &&& sends[2 * i + 1] == (players[i], Reply::GameOver { winner: p })
        }
}

proof fn lemma_move_sends(players: Seq<usize>, r: usize, c: usize, p: Piece, win: bool)
    ensures
        !win ==> told_of_move(players, r, c, p, move_sends(players, r, c, p, win)),
        win ==> told_of_win(players, r, c, p, move_sends(players, r, c, p, win)),
    decreases players.len(),
{
    if players.len() > 0 {
        let front = players.drop_last();
        let sends = move_sends(players, r, c, p, win);
        lemma_move_sends(front, r, c, p, win);
        if win {
            assert forall|i: int|
                #![trigger players[i]]
                0 <= i < players.len() implies {
                &&& sends[2 * i] == (players[i], Reply::UpdateBoard { r, c, p })
                &&& sends[2 * i + 1] == (players[i], Reply::GameOver { winner: p })
            } by {
                if i < front.len() {
                    assert(front[i] == players[i]);
                }
            }
        }
    }
}

/// The client in `seat` of the room `rid` is to move, and the cell is empty.
pub open spec fn to_move(
    s: ServerView,
    id: usize,
    rid: Seq<char>,
    seat: int,
    p: Piece,
    r: usize,
    c: usize,
) -> bool {
    &&& s.clients.contains_key(id)
    &&& s.clients[id].room_id == Some(rid)
    &&& s.rooms.contains_key(rid)
    &&& 0 <= seat < s.rooms[rid].players.len()
    &&& s.rooms[rid].players[seat] == id
    &&& forall|i: int| 0 <= i < seat ==> #[trigger] s.rooms[rid].players[i] != id
    &&& seat == 0 ==> p == Piece::Black
    &&& seat > 0 ==> p == Piece::White
    &&& s.rooms[rid].turn == p
    &&& r < 15 && c < 15
    &&& s.rooms[rid].board.len() == 15
    &&& forall|i: int| 0 <= i < 15 ==> (#[trigger] s.rooms[rid].board[i]).len() == 15
    &&& s.rooms[rid].board[r as int][c as int] == Piece::Empty
}

/// A move of the client whose turn it is fills its cell, leaves all others as
/// they are and passes the turn on. Every player of the room is told of it in
/// the order of the seats.
pub proof fn law_move_is_made(
    pre: ServerView,
    id: usize,
    r: usize,
    c: usize,
    n: u16,
    post: ServerView,
    out: OutcomeView,
    rid: Seq<char>,
    seat: int,
    p: Piece,
)
    requires
        handled(pre, id, Request::Move(r, c), n, post, out),
        to_move(pre, id, rid, seat, p, r, c),
    ensures
        post.clients == pre.clients,
        post.next_id == pre.next_id,
        post.rooms.dom() == pre.rooms.dom(),
        forall|k: Seq<char>| k != rid ==> #[trigger] post.rooms[k] == pre.rooms[k],
        post.rooms[rid].players == pre.rooms[rid].players,
        post.rooms[rid].ready == pre.rooms[rid].ready,
        p == Piece::Black ==> post.rooms[rid].turn == Piece::White,
        p == Piece::White ==> post.rooms[rid].turn == Piece::Black,
        post.rooms[rid].board[r as int][c as int] == p,
        forall|i: int, j: int|
            #![trigger post.rooms[rid].board[i][j]]
            0 <= i < 15 && 0 <= j < 15 && (i != r || j != c) ==> post.rooms[rid].board[i][j]
                == pre.rooms[rid].board[i][j],
        out.dissolved is None,
        told_of_move(pre.rooms[rid].players, r, c, p, out.sends) || told_of_win(
            pre.rooms[rid].players,
            r,
            c,
            p,
            out.sends,
        ),
{
    lemma_side(pre, id, rid, seat, p, r, c);
    assert(post.rooms.dom() =~= pre.rooms.dom());
    lemma_move_sends(pre.rooms[rid].players, r, c, p, true);
    lemma_move_sends(pre.rooms[rid].players, r, c, p, false);
}

proof fn lemma_side(
    pre: ServerView,
    id: usize,
    rid: Seq<char>,
    seat: int,
    p: Piece,
    r: usize,
    c: usize,
)
    requires
        to_move(pre, id, rid, seat, p, r, c),
    ensures
        may_play(pre, id, r, c),
        side_of(pre, id) == p,
{
    pre.rooms[rid].players.index_of_first_ensures(id);
}

/// A move that completes a line of five, in whichever place of the line and in
/// whichever direction, ends the game: in the order of the seats, every player
/// is told of the move and then who has won.
pub proof fn law_line_of_five_ends_the_game(
    pre: ServerView,
    id: usize,
    r: usize,
    c: usize,
    n: u16,
    post: ServerView,
    out: OutcomeView,
    rid: Seq<char>,
    seat: int,
    p: Piece,
    dr: int,
    dc: int,
    k: int,
)
    requires
        handled(pre, id, Request::Move(r, c), n, post, out),
        to_move(pre, id, rid, seat, p, r, c),
        0 <= k <= 4,
        (dr, dc) == (0int, 1int) || (dr, dc) == (1int, 0int) || (dr, dc) == (1int, 1int) || (dr, dc)
            == (1int, -1int),
        forall|j: int|
            #![trigger pre.rooms[rid].board[r + dr * (j - k)][c + dc * (j - k)]]
            0 <= j <= 4 && j != k ==> {
                &&& 0 <= r + dr * (j - k) < 15
                &&& 0 <= c + dc * (j - k) < 15
                &&& pre.rooms[rid].board[r + dr * (j - k)][c + dc * (j - k)] == p
            },
    ensures
        told_of_win(pre.rooms[rid].players, r, c, p, out.sends),
{
    lemma_side(pre, id, rid, seat, p, r, c);
    let before = pre.rooms[rid].board;
    let after = post.rooms[rid].board;
    law_move_is_made(pre, id, r, c, n, post, out, rid, seat, p);
    assert forall|j: int|
        #![trigger after[r + dr * (j - k)][c + dc * (j - k)]]
        0 <= j <= 4 && j != k implies {
        &&& 0 <= r + dr * (j - k) < 15
        &&& 0 <= c + dc * (j - k) < 15
        &&& after[r + dr * (j - k)][c + dc * (j - k)] == p
    } by {
        assert(before[r + dr * (j - k)][c + dc * (j - k)] == p);
    }
    law_line_of_five_wins(after, r as int, c as int, p, dr, dc, k);
    lemma_move_sends(pre.rooms[rid].players, r, c, p, true);
}

/// A game ends only by a line of five through the cell that was filled: for a
/// move of which a winner is told, the direction of such a line and the place
/// of the cell in it.
pub proof fn law_game_ends_only_by_a_line_of_five(
    pre: ServerView,
    id: usize,
    r: usize,
    c: usize,
    n: u16,
    post: ServerView,
    out: OutcomeView,
    rid: Seq<char>,
    seat: int,
    p: Piece,
    i: int,
) -> (line: (int, int, int))
    requires
        handled(pre, id, Request::Move(r, c), n, post, out),
        to_move(pre, id, rid, seat, p, r, c),
        0 <= i < out.sends.len(),
        out.sends[i].1 is GameOver,
    ensures
        ({
            let (dr, dc, k) = line;
            &&& 0 <= k <= 4
            &&& (dr, dc) == (0int, 1int) || (dr, dc) == (1int, 0int) || (dr, dc) == (1int, 1int)
                || (dr, dc) == (1int, -1int)
            &&& forall|j: int|
                #![trigger post.rooms[rid].board[r + dr * (j - k)][c + dc * (j - k)]]
                0 <= j <= 4 && j != k ==> {
                    &&& 0 <= r + dr * (j - k) < 15
                    &&& 0 <= c + dc * (j - k) < 15
                    &&& post.rooms[rid].board[r + dr * (j - k)][c + dc * (j - k)] == p
                }
        }),
{
    lemma_side(pre, id, rid, seat, p, r, c);
    lemma_move_sends(pre.rooms[rid].players, r, c, p, false);
    law_win_lies_in_line_of_five(post.rooms[rid].board, r as int, c as int, p)
}

/// A move out of turn, or to a cell that is filled, changes nothing and is not
/// answered.
pub proof fn law_move_is_refused(
    pre: ServerView,
    id: usize,
    r: usize,
    c: usize,
    n: u16,
    post: ServerView,
    out: OutcomeView,
    rid: Seq<char>,
    seat: int,
)
    requires
        handled(pre, id, Request::Move(r, c), n, post, out),
        pre.clients.contains_key(id),
        pre.clients[id].room_id == Some(rid),
        pre.rooms.contains_key(rid),
        0 <= seat < pre.rooms[rid].players.len(),
        pre.rooms[rid].players[seat] == id,
        forall|i: int| 0 <= i < seat ==> #[trigger] pre.rooms[rid].players[i] != id,
        (seat == 0 && pre.rooms[rid].turn == Piece::White) || (seat > 0 && pre.rooms[rid].turn
            == Piece::Black) || pre.rooms[rid].board[r as int][c as int] != Piece::Empty,
    ensures
        post == pre,
        out.sends.len() == 0,
        out.dissolved is None,
{
    pre.rooms[rid].players.index_of_first_ensures(id);
}

/// Whoever asks for the rooms, and nobody else, gets one list, which names
/// every room once and nothing else. Nothing changes.
pub proof fn law_rooms_are_listed(
    pre: ServerView,
    id: usize,
    n: u16,
    post: ServerView,
    out: OutcomeView,
)
    requires
        handled(pre, id, Request::GetRooms, n, post, out),
    ensures
        post == pre,
        out.dissolved is None,
        out.sends.len() == 1,
        out.sends[0].0 == id,
        out.sends[0].1 is RoomList,
        out.sends[0].1->RoomList_0.no_duplicates(),
        forall|rid: Seq<char>|
            out.sends[0].1->RoomList_0.contains(rid) <==> #[trigger] pre.rooms.contains_key(rid),
{
    let list = choose|list: Seq<Seq<char>>| #[trigger]
        lists_rooms(list, pre) && out == OutcomeView::sending(seq![(id, Reply::RoomList(list))]);
    assert forall|rid: Seq<char>|
        list.contains(rid) <==> #[trigger] pre.rooms.contains_key(rid) by {
        assert(list.to_set().contains(rid) == list.contains(rid));
    }
}

/// Whoever asks for the users, and nobody else, gets one list with the name of
/// every connected client, as often as clients have it: in the order of `ids`,
/// which has every connected client once. Nothing changes.
pub proof fn law_users_are_listed(
    pre: ServerView,
    id: usize,
    n: u16,
    post: ServerView,
    out: OutcomeView,
) -> (ids: Seq<usize>)
    requires
        handled(pre, id, Request::GetUsers, n, post, out),
    ensures
        post == pre,
        out.dissolved is None,
        out.sends.len() == 1,
        out.sends[0].0 == id,
        out.sends[0].1 is UserList,
        ids.no_duplicates(),
        forall|q: usize| ids.contains(q) <==> #[trigger] pre.clients.contains_key(q),
        out.sends[0].1->UserList_0.len() == ids.len(),
        forall|i: int|
            0 <= i < ids.len() ==> #[trigger] out.sends[0].1->UserList_0[i]
                == pre.clients[ids[i]].name,
{
    let ids = choose|ids: Seq<usize>| #[trigger]
        lists_clients(ids, pre) && out == OutcomeView::sending(
            seq![(id, Reply::UserList(names_of(ids, pre)))],
        );
    assert forall|q: usize| ids.contains(q) <==> #[trigger] pre.clients.contains_key(q) by {
        assert(ids.to_set().contains(q) == ids.contains(q));
    }
    ids
}

/// What the server has an answer to, whoever asks and whatever has happened:
/// names, new rooms and leaving always; lists, and rooms that cannot be joined,
/// whenever the client is connected; a game, when both who play it are.
pub proof fn law_what_has_an_answer(s: ServerView, id: usize, text: Seq<char>)
    ensures
        accepts(s, id, Request::SetName(text)),
        accepts(s, id, Request::CreateRoom),
        accepts(s, id, Request::LeaveRoom),
        accepts(s, id, Request::GetRooms) == s.clients.contains_key(id),
        accepts(s, id, Request::GetUsers) == s.clients.contains_key(id),
        !s.rooms.contains_key(text) || s.rooms[text].players.len() >= 2 ==> accepts(
            s,
            id,
            Request::JoinRoom(text),
        ) == s.clients.contains_key(id),
        s.rooms.contains_key(text) && s.rooms[text].players.len() == 1 ==> accepts(
            s,
            id,
            Request::JoinRoom(text),
        ) == (s.clients.contains_key(id) && s.clients.contains_key(s.rooms[text].players[0])),
        nowhere(s, id) ==> accepts(s, id, Request::Ready),
{
    if s.rooms.contains_key(text) && s.rooms[text].players.len() == 1 {
        let players = s.rooms[text].players.push(id);
        assert(players[0] == s.rooms[text].players[0] && players[1] == id);
    }
}

/// Being ready has an answer unless it starts a game with a client that is
/// gone.
pub proof fn law_ready_has_an_answer(s: ServerView, id: usize, rid: Seq<char>, seat: int)
    requires
        s.clients.contains_key(id),
        s.clients[id].room_id == Some(rid),
        s.rooms.contains_key(rid),
        s.rooms[rid].ready.len() == 2,
        1 <= s.rooms[rid].players.len() <= 2,
        s.rooms[rid].players.contains(id) ==> {
            &&& 0 <= seat < s.rooms[rid].players.len()
            &&& s.rooms[rid].players[seat] == id
            &&& seat == 1 ==> s.rooms[rid].players[0] != id
        },
    ensures
        !s.rooms[rid].players.contains(id) ==> accepts(s, id, Request::Ready),
        s.rooms[rid].players.len() == 1 ==> accepts(s, id, Request::Ready),
        s.rooms[rid].players.contains(id) && s.rooms[rid].players.len() == 2
            && !s.rooms[rid].ready[1 - seat] ==> accepts(s, id, Request::Ready),
        s.rooms[rid].players.contains(id) && s.rooms[rid].players.len() == 2
            && s.rooms[rid].ready[1 - seat] ==> accepts(s, id, Request::Ready)
            == s.clients.contains_key(s.rooms[rid].players[1 - seat]),
{
    s.rooms[rid].players.index_of_first_ensures(id);
}

/// A move has an answer from a client that is in no room; from one that its
/// room knows, where it is not its turn, or where the cell is on the board and
/// filled, or empty and everybody in the room is connected. It has none
/// otherwise.
pub proof fn law_move_has_an_answer(
    s: ServerView,
    id: usize,
    r: usize,
    c: usize,
    rid: Seq<char>,
    seat: int,
    p: Piece,
)
    requires
        s.clients.contains_key(id) ==> s.clients[id].room_id == Some(rid)
            || s.clients[id].room_id is None,
        s.rooms[rid].players.contains(id) ==> {
            &&& 0 <= seat < s.rooms[rid].players.len()
            &&& s.rooms[rid].players[seat] == id
            &&& forall|i: int| 0 <= i < seat ==> #[trigger] s.rooms[rid].players[i] != id
        },
        seat == 0 ==> p == Piece::Black,
        seat != 0 ==> p == Piece::White,
    ensures
        nowhere(s, id) ==> accepts(s, id, Request::Move(r, c)),
        !nowhere(s, id) && !s.rooms[rid].players.contains(id) ==> !accepts(
            s,
            id,
            Request::Move(r, c),
        ),
        !nowhere(s, id) && s.rooms[rid].players.contains(id) ==> {
            &&& s.rooms[rid].turn != p ==> accepts(s, id, Request::Move(r, c))
            &&& s.rooms[rid].turn == p && (r >= 15 || c >= 15) ==> !accepts(
                s,
                id,
                Request::Move(r, c),
            )
            &&& s.rooms[rid].turn == p && r < 15 && c < 15
                && s.rooms[rid].board[r as int][c as int] != Piece::Empty ==> accepts(
                s,
                id,
                Request::Move(r, c),
            )
            &&& s.rooms[rid].turn == p && r < 15 && c < 15
                && s.rooms[rid].board[r as int][c as int] == Piece::Empty ==> accepts(
                s,
                id,
                Request::Move(r, c),
            ) == (forall|i: int|
                0 <= i < s.rooms[rid].players.len() ==> s.clients.contains_key(
                    #[trigger] s.rooms[rid].players[i],
                ))
        },
{
    s.rooms[rid].players.index_of_first_ensures(id);
    if !nowhere(s, id) && s.rooms[rid].players.contains(id) {
        let players = s.rooms[rid].players;
        assert(s.room_of(id).players == players);
        assert((forall|i: int|
            0 <= i < s.room_of(id).players.len() ==> s.registered(
                #[trigger] s.room_of(id).players[i],
            )) == (forall|i: int|
            0 <= i < players.len() ==> s.clients.contains_key(#[trigger] players[i]))) by {
            if forall|i: int|
                0 <= i < players.len() ==> s.clients.contains_key(#[trigger] players[i]) {
                assert forall|i: int| 0 <= i < s.room_of(id).players.len() implies s.registered(
                    #[trigger] s.room_of(id).players[i],
                ) by {
                    assert(s.clients.contains_key(players[i]));
                }
            } else {
                let i = choose|i: int|
                    0 <= i < players.len() && !s.clients.contains_key(#[trigger] players[i]);
                assert(!s.registered(s.room_of(id).players[i]));
            }
        }
    }
}

/// The name of a room reads back as its number. It has four digits, or five
/// where four are too few.
pub proof fn law_room_name_reads_back(n: u16)
    ensures
        number(room_name(n), 10) == n,
        n < 10000 ==> room_name(n).len() == 4,
        n >= 10000 ==> room_name(n).len() == 5,
        forall|i: int|
            0 <= i < room_name(n).len() ==> '0' as int <= (#[trigger] room_name(n)[i]) as int
                <= '9' as int,
{
    let digits = decimal(n as nat);
    law_decimal_reads_back(n as nat);
    law_filling_up_adds_zeros_in_front(digits, 4);
    assert(n < 10000 ==> digits.len() <= 4) by {
        reveal_with_fuel(decimal, 6);
    }
    assert(n >= 10000 ==> digits.len() == 5) by {
        reveal_with_fuel(decimal, 6);
    }
    let k = room_name(n).len() - digits.len();
    assert forall|i: int| 0 <= i < room_name(n).len() implies '0' as int <= (
    #[trigger] room_name(n)[i]) as int <= '9' as int by {
        if i >= k {
            assert(room_name(n).skip(k)[i - k] == room_name(n)[i]);
            assert(digits[i - k] == room_name(n)[i]);
        }
    }
}

/// A server is well formed exactly if in every room there are one or two
/// players, two marks, a board of fifteen rows and columns, and a side to move.
pub proof fn law_well_formed_server(s: ServerView)
    ensures
        s.wf() <==> forall|rid: Seq<char>| #[trigger]
            s.rooms.contains_key(rid) ==> {
                let room = s.rooms[rid];
                &&& room.players.len() == 1 || room.players.len() == 2
                &&& room.ready.len() == 2
                &&& room.board.len() == 15
                &&& forall|r: int| 0 <= r < 15 ==> (#[trigger] room.board[r]).len() == 15
                &&& room.turn == Piece::Black || room.turn == Piece::White
            },
{
    assert forall|rid: Seq<char>| #[trigger] s.rooms.contains_key(rid) implies s.rooms[rid].wf()
        == ({
        let room = s.rooms[rid];
        &&& room.players.len() == 1 || room.players.len() == 2
        &&& room.ready.len() == 2
        &&& room.board.len() == 15
        &&& forall|r: int| 0 <= r < 15 ==> (#[trigger] room.board[r]).len() == 15
        &&& room.turn == Piece::Black || room.turn == Piece::White
    }) by {}
}

} // verus!
