//! What each request does to the server: the state as a mathematical object,
//! the step from one state to the next, and the messages that go out with it.

use vstd::prelude::*;

use crate::board::{on_board, opponent, place, wins, Piece};
use crate::protocol::{Reply, Request};
use crate::room::RoomView;
use crate::text::{decimal, zero_padded};

verus! {

/// A connected client: its name and the room it thinks it is in.
#[verifier::ext_equal]
pub struct PlayerView {
    pub name: Seq<char>,
    pub room_id: Option<Seq<char>>,
}

/// Everything the server knows: the clients by their numbers, the rooms by
/// their names, and the number for the next client.
#[verifier::ext_equal]
pub struct ServerView {
    pub clients: Map<usize, PlayerView>,
    pub rooms: Map<Seq<char>, RoomView>,
    pub next_id: usize,
}

/// What leaves the server in one step: messages, in order, each with the client
/// that it goes to, and the name of a room that went away.
#[verifier::ext_equal]
pub struct OutcomeView {
    pub sends: Seq<(usize, Reply)>,
    pub dissolved: Option<Seq<char>>,
}

impl ServerView {
    /// Every room is well formed.
    pub open spec fn wf(self) -> bool {
        forall|rid: Seq<char>| #[trigger] self.rooms.contains_key(rid) ==> self.rooms[rid].wf()
    }

    /// `id` is connected.
    pub open spec fn registered(self, id: usize) -> bool {
        self.clients.contains_key(id)
    }

    /// `id` is connected, and the room it thinks it is in exists.
    pub open spec fn has_room(self, id: usize) -> bool {
        &&& self.registered(id)
        &&& self.clients[id].room_id is Some
        &&& self.rooms.contains_key(self.clients[id].room_id->0)
    }

    /// The name of the room that `id` thinks it is in.
    pub open spec fn room_name_of(self, id: usize) -> Seq<char> {
        self.clients[id].room_id->0
    }

    /// The room that `id` thinks it is in.
    pub open spec fn room_of(self, id: usize) -> RoomView {
        self.rooms[self.room_name_of(id)]
    }

    /// The server before anybody has connected.
    pub open spec fn initial() -> ServerView {
        ServerView { clients: Map::empty(), rooms: Map::empty(), next_id: 0 }
    }

    /// Every connected client has a number that was handed out.
    pub open spec fn numbered(self) -> bool {
        forall|id: usize| #[trigger] self.registered(id) ==> id < self.next_id
    }

    /// The server after the next number is handed out.
    pub open spec fn issued(self) -> ServerView {
        ServerView { next_id: (self.next_id + 1) as usize, ..self }
    }

    /// The server with another value for one room.
    pub open spec fn with_room(self, rid: Seq<char>, room: RoomView) -> ServerView {
        ServerView { rooms: self.rooms.insert(rid, room), ..self }
    }

    /// The server with `id`, where it is connected, in another room or in none.
    pub open spec fn moved_to(self, id: usize, room_id: Option<Seq<char>>) -> ServerView {
        if self.registered(id) {
            ServerView {
                clients: self.clients.insert(id, PlayerView { room_id, ..self.clients[id] }),
                ..self
            }
        } else {
            self
        }
    }
}

impl OutcomeView {
    /// `sends` go out, and no room goes away.
    pub open spec fn sending(sends: Seq<(usize, Reply)>) -> OutcomeView {
        OutcomeView { sends, dissolved: None }
    }

    /// Nothing goes out.
    pub open spec fn quiet() -> OutcomeView {
        OutcomeView::sending(Seq::empty())
    }
}

/// The name of the room with number `n`: at least four digits.
pub open spec fn room_name(n: u16) -> Seq<char> {
    zero_padded(decimal(n as nat), 4)
}

/// The name of client `id` until it chooses one.
pub open spec fn default_name(id: usize) -> Seq<char> {
    "User_"@ + decimal(id as nat)
}

/// `id` connects.
pub open spec fn connected(s: ServerView, id: usize) -> ServerView {
    ServerView {
        clients: s.clients.insert(id, PlayerView { name: default_name(id), room_id: None }),
        ..s
    }
}

/// `id` takes a name.
pub open spec fn named(s: ServerView, id: usize, name: Seq<char>) -> (ServerView, OutcomeView) {
    if s.registered(id) {
        (
            ServerView {
                clients: s.clients.insert(id, PlayerView { name, ..s.clients[id] }),
                ..s
            },
            OutcomeView::sending(seq![(id, Reply::Welcome("Connected."@))]),
        )
    } else {
        (s, OutcomeView::quiet())
    }
}

/// `id` opens the room `rid`, in place of any room that had the name.
pub open spec fn created(s: ServerView, id: usize, rid: Seq<char>) -> (ServerView, OutcomeView) {
    (
        s.with_room(rid, RoomView::opened(id)).moved_to(id, Some(rid)),
        if s.registered(id) {
            OutcomeView::sending(seq![(id, Reply::RoomCreated(rid))])
        } else {
            OutcomeView::quiet()
        },
    )
}

/// What the two players of a room hear when their game starts.
pub open spec fn start_sends(players: Seq<usize>, clients: Map<usize, PlayerView>) -> Seq<
    (usize, Reply),
> {
    seq![
        (
            players[0],
            Reply::GameStart {
                player_id: Piece::Black,
                opponent_name: clients[players[1]].name,
            },
        ),
        (
            players[1],
            Reply::GameStart {
                player_id: Piece::White,
                opponent_name: clients[players[0]].name,
            },
        ),
    ]
}

/// Both players of a room are connected.
pub open spec fn both_registered(players: Seq<usize>, s: ServerView) -> bool {
    s.registered(players[0]) && s.registered(players[1])
}

/// `id` joins the room `rid`. The second player starts the game.
pub open spec fn joined_room(s: ServerView, id: usize, rid: Seq<char>) -> (
    ServerView,
    OutcomeView,
) {
    if !s.rooms.contains_key(rid) {
        (s, OutcomeView::sending(seq![(id, Reply::Error("Not found"@))]))
    } else if s.rooms[rid].players.len() >= 2 {
        (s, OutcomeView::sending(seq![(id, Reply::Error("Full"@))]))
    } else {
        let room = s.rooms[rid];
        let seated = RoomView { players: room.players.push(id), ..room };
        let greeting = if s.registered(id) {
            seq![(id, Reply::RoomJoined(rid))]
        } else {
            Seq::empty()
        };
        if seated.players.len() == 2 {
            (
                s.with_room(rid, seated.restarted()).moved_to(id, Some(rid)),
                OutcomeView::sending(greeting + start_sends(seated.players, s.clients)),
            )
        } else {
            (
                s.with_room(rid, seated).moved_to(id, Some(rid)),
                OutcomeView::sending(greeting),
            )
        }
    }
}

/// The room of `id` once `id` is marked as ready.
pub open spec fn marked_ready(room: RoomView, id: usize) -> RoomView {
    RoomView { ready: room.ready.update(room.seat(id), true), ..room }
}

/// `id` says it is ready. Once both players have, a new game starts.
pub open spec fn readied(s: ServerView, id: usize) -> (ServerView, OutcomeView) {
    if s.has_room(id) && s.room_of(id).players.contains(id) {
        let rid = s.room_name_of(id);
        let room = marked_ready(s.rooms[rid], id);
        if room.all_ready() {
            (
                s.with_room(rid, room.restarted()),
                OutcomeView::sending(start_sends(room.players, s.clients)),
            )
        } else {
            (s.with_room(rid, room), OutcomeView::quiet())
        }
    } else {
        (s, OutcomeView::quiet())
    }
}

/// What those of `players` who are still connected hear when another leaves.
pub open spec fn farewells(players: Seq<usize>, clients: Map<usize, PlayerView>) -> Seq<
    (usize, Reply),
>
    decreases players.len(),
{
    if players.len() == 0 {
        Seq::empty()
    } else {
        let before = farewells(players.drop_last(), clients);
        if clients.contains_key(players.last()) {
            before.push((players.last(), Reply::Error("Opponent disconnected/left."@)))
        } else {
            before
        }
    }
}

/// `id` goes out of the room `rid`. A room that nobody is left in goes away.
pub open spec fn removed_from(s: ServerView, id: usize, rid: Seq<char>) -> (
    ServerView,
    OutcomeView,
) {
    if s.rooms.contains_key(rid) {
        let room = s.rooms[rid].without(id);
        if room.players.len() == 0 {
            (
                ServerView { rooms: s.rooms.remove(rid), ..s },
                OutcomeView { sends: Seq::empty(), dissolved: Some(rid) },
            )
        } else {
            (s.with_room(rid, room), OutcomeView::sending(farewells(room.players, s.clients)))
        }
    } else {
        (s, OutcomeView::quiet())
    }
}

/// `id` leaves the room it thinks it is in.
pub open spec fn left(s: ServerView, id: usize) -> (ServerView, OutcomeView) {
    if s.registered(id) && s.clients[id].room_id is Some {
        removed_from(s.moved_to(id, None), id, s.room_name_of(id))
    } else {
        (s, OutcomeView::quiet())
    }
}

/// `id` disconnects.
pub open spec fn disconnected(s: ServerView, id: usize) -> (ServerView, OutcomeView) {
    if s.registered(id) {
        let rest = ServerView { clients: s.clients.remove(id), ..s };
        match s.clients[id].room_id {
            Some(rid) => removed_from(rest, id, rid),
            None => (rest, OutcomeView::quiet()),
        }
    } else {
        (s, OutcomeView::quiet())
    }
}

/// What the players of a room hear of a move: each the move and then, if it
/// decides the game, the winner.
pub open spec fn move_sends(players: Seq<usize>, r: usize, c: usize, p: Piece, win: bool) -> Seq<
    (usize, Reply),
>
    decreases players.len(),
{
    if players.len() == 0 {
        Seq::empty()
    } else {
        let before = move_sends(players.drop_last(), r, c, p, win);
        let told = before.push((players.last(), Reply::UpdateBoard { r, c, p }));
        if win {
            told.push((players.last(), Reply::GameOver { winner: p }))
        } else {
            told
        }
    }
}

/// The side that `id` plays in the room it thinks it is in.
pub open spec fn side_of(s: ServerView, id: usize) -> Piece {
    RoomView::side(s.room_of(id).seat(id))
}

/// `id` may fill `(r, c)`: it is its turn and the cell is empty.
pub open spec fn may_play(s: ServerView, id: usize, r: usize, c: usize) -> bool {
    &&& s.has_room(id)
    &&& s.room_of(id).turn == side_of(s, id)
    &&& s.room_of(id).board[r as int][c as int] == Piece::Empty
}

/// The room of `id` after `id` has filled `(r, c)`.
pub open spec fn room_after(room: RoomView, p: Piece, r: usize, c: usize) -> RoomView {
    RoomView { board: place(room.board, r as int, c as int, p), turn: opponent(p), ..room }
}

/// `id` asks to fill `(r, c)`. What it may not fill stays as it is.
pub open spec fn played(s: ServerView, id: usize, r: usize, c: usize) -> (
    ServerView,
    OutcomeView,
) {
    if may_play(s, id, r, c) {
        let p = side_of(s, id);
        let room = room_after(s.room_of(id), p, r, c);
        (
            s.with_room(s.room_name_of(id), room),
            OutcomeView::sending(
                move_sends(room.players, r, c, p, wins(room.board, r as int, c as int, p)),
            ),
        )
    } else {
        (s, OutcomeView::quiet())
    }
}

/// `list` names every room once, in some order.
pub open spec fn lists_rooms(list: Seq<Seq<char>>, s: ServerView) -> bool {
    list.no_duplicates() && list.to_set() == s.rooms.dom()
}

/// The names of the clients `ids`, in that order.
pub open spec fn names_of(ids: Seq<usize>, s: ServerView) -> Seq<Seq<char>> {
    Seq::new(ids.len(), |i: int| s.clients[ids[i]].name)
}

/// `ids` has every connected client once, in some order.
pub open spec fn lists_clients(ids: Seq<usize>, s: ServerView) -> bool {
    ids.no_duplicates() && ids.to_set() == s.clients.dom()
}

/// The server has an answer to `request` from `id`. It has none to a client
/// that is not connected and would have to be told something, to a game that
/// would start with a client that is gone, or to a move in a room that does not
/// know the client, off the board, or before a client that is gone.
pub open spec fn accepts(s: ServerView, id: usize, request: Request) -> bool {
    match request {
        Request::SetName(_) | Request::CreateRoom | Request::LeaveRoom => true,
        Request::JoinRoom(rid) => {
            if s.rooms.contains_key(rid) && s.rooms[rid].players.len() < 2 {
                s.rooms[rid].players.len() == 1 ==> both_registered(
                    s.rooms[rid].players.push(id),
                    s,
                )
            } else {
                s.registered(id)
            }
        },
        Request::Ready => {
            s.has_room(id) && s.room_of(id).players.contains(id) && marked_ready(
                s.room_of(id),
                id,
            ).all_ready() ==> both_registered(s.room_of(id).players, s)
        },
        Request::Move(r, c) => {
            s.has_room(id) ==> {
                &&& s.room_of(id).players.contains(id)
                &&& s.room_of(id).turn == side_of(s, id) ==> on_board(r as int, c as int)
                &&& may_play(s, id, r, c) ==> forall|i: int|
                    0 <= i < s.room_of(id).players.len() ==> s.registered(
                        #[trigger] s.room_of(id).players[i],
                    )
            }
        },
        Request::GetRooms | Request::GetUsers => s.registered(id),
    }
}

/// `request` from `id` takes the server from `pre` to `post`, and `out` leaves
/// it. A room that it opens gets the number `n`.
pub open spec fn handled(
    pre: ServerView,
    id: usize,
    request: Request,
    n: u16,
    post: ServerView,
    out: OutcomeView,
) -> bool {
    match request {
        Request::SetName(name) => (post, out) == named(pre, id, name),
        Request::CreateRoom => (post, out) == created(pre, id, room_name(n)),
        Request::JoinRoom(rid) => (post, out) == joined_room(pre, id, rid),
        Request::Ready => (post, out) == readied(pre, id),
        Request::LeaveRoom => (post, out) == left(pre, id),
        Request::Move(r, c) => (post, out) == played(pre, id, r, c),
        Request::GetRooms => {
            &&& post == pre
            &&& exists|list: Seq<Seq<char>>| #[trigger]
                lists_rooms(list, pre) && out == OutcomeView::sending(
                    seq![(id, Reply::RoomList(list))],
                )
        },
        Request::GetUsers => {
            &&& post == pre
            &&& exists|ids: Seq<usize>| #[trigger]
                lists_clients(ids, pre) && out == OutcomeView::sending(
                    seq![(id, Reply::UserList(names_of(ids, pre)))],
                )
        },
    }
}

/// A line from `id` takes the server from `pre` to `post`, and `out` leaves it.
/// One that is no message does nothing.
pub open spec fn line_handled(
    pre: ServerView,
    id: usize,
    line: Option<Request>,
    n: u16,
    post: ServerView,
    out: OutcomeView,
) -> bool {
    match line {
        Some(request) => handled(pre, id, request, n, post, out),
        None => post == pre && out == OutcomeView::quiet(),
    }
}

} // verus!
