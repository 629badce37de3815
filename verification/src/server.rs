//! The server: who is connected, which rooms there are, and what every request
//! does.

use std::collections::HashMap;
use vstd::prelude::*;
use vstd::std_specs::iter::IteratorSpec;
use vstd::string::StringExecFns;

use crate::board::{check_win, put, signed, Piece, BOARD_SIZE};
use crate::outside::random_u16;
use crate::protocol::{ClientMsg, Reply, Request, ServerMsg};
use crate::room::{other_than, Room, RoomView};
use crate::rooms::RoomTable;
use crate::steps::{
    accepts, both_registered, connected, created, disconnected, farewells, handled, joined_room,
    left, line_handled, lists_clients, lists_rooms, marked_ready, may_play, move_sends, named,
    names_of, played, readied, removed_from, room_after, room_name, side_of, start_sends,
    OutcomeView, PlayerView, ServerView,
};
use crate::text::{decimal, decimal_text, opt_text, texts, zero_pad};

verus! {

/// A connected client.
pub struct Player {
    pub name: String,
    pub room_id: Option<String>,
}

impl View for Player {
    type V = PlayerView;

    open spec fn view(&self) -> PlayerView {
        PlayerView { name: self.name@, room_id: opt_text(self.room_id) }
    }
}

/// A message and the client that it goes to.
#[derive(Debug, Clone, PartialEq)]
pub struct Outgoing {
    pub to: usize,
    pub msg: ServerMsg,
}

/// What one step asks of the network: messages to send, in order; and for the
/// log, the name of a room that went away.
#[derive(Debug, Clone, PartialEq)]
pub struct Outcome {
    pub sends: Vec<Outgoing>,
    pub dissolved: Option<String>,
}

/// Messages with the clients that they go to.
pub open spec fn sends_view(sends: Seq<Outgoing>) -> Seq<(usize, Reply)> {
    Seq::new(sends.len(), |i: int| (sends[i].to, sends[i].msg@))
}

impl View for Outcome {
    type V = OutcomeView;

    open spec fn view(&self) -> OutcomeView {
        OutcomeView { sends: sends_view(self.sends@), dissolved: opt_text(self.dissolved) }
    }
}

/// What came of one read from a client.
#[derive(Debug, Clone, PartialEq)]
pub enum LineOutcome {
    /// The client has closed the connection.
    Closed,
    /// The line is not a message.
    Skipped,
    /// The line was a message.
    Handled(Outcome),
}

impl LineOutcome {
    /// What leaves the server.
    pub open spec fn said(self) -> OutcomeView {
        match self {
            LineOutcome::Handled(out) => out@,
            _ => OutcomeView::quiet(),
        }
    }
}

/// The message that a line holds, if it holds one.
pub open spec fn opt_request(msg: Option<ClientMsg>) -> Option<Request> {
    match msg {
        Some(msg) => Some(msg@),
        None => None,
    }
}

/// The clients and the rooms.
pub struct Server {
    clients: HashMap<usize, Player>,
    rooms: RoomTable,
    next_id: usize,
}

spec fn clients_view(clients: Map<usize, Player>) -> Map<usize, PlayerView> {
    Map::new(|id: usize| clients.contains_key(id), |id: usize| clients[id]@)
}

impl View for Server {
    type V = ServerView;

    closed spec fn view(&self) -> ServerView {
        ServerView {
            clients: clients_view(self.clients@),
            rooms: self.rooms@,
            next_id: self.next_id,
        }
    }
}

impl Server {
    /// No two rooms share a name.
    pub closed spec fn rooms_distinct(self) -> bool {
        self.rooms.wf()
    }

    /// What holds of the server between requests.
    pub open spec fn wf(self) -> bool {
        self.rooms_distinct() && self@.wf()
    }
}

proof fn lemma_clients_insert(clients: Map<usize, Player>, id: usize, player: Player)
    ensures
        clients_view(clients.insert(id, player)) == clients_view(clients).insert(id, player@),
{
    assert(clients_view(clients.insert(id, player)) =~= clients_view(clients).insert(id, player@));
}

proof fn lemma_clients_remove(clients: Map<usize, Player>, id: usize)
    ensures
        clients_view(clients.remove(id)) == clients_view(clients).remove(id),
{
    assert(clients_view(clients.remove(id)) =~= clients_view(clients).remove(id));
}

fn quiet() -> (out: Outcome)
    ensures
        out@ == OutcomeView::quiet(),
{
    let out = Outcome { sends: Vec::new(), dissolved: None };
    assert(out@.sends =~= Seq::empty());
    out
}

fn sending(to: usize, msg: ServerMsg) -> (out: Outcome)
    ensures
        out@ == OutcomeView::sending(seq![(to, msg@)]),
{
    let mut sends: Vec<Outgoing> = Vec::new();
    sends.push(Outgoing { to, msg });
    let out = Outcome { sends, dissolved: None };
    assert(out@.sends =~= seq![(to, msg@)]);
    out
}

fn push_send(sends: &mut Vec<Outgoing>, to: usize, msg: ServerMsg)
    ensures
        sends_view(final(sends)@) == sends_view(old(sends)@).push((to, msg@)),
{
    sends.push(Outgoing { to, msg });
    assert(sends_view(sends@) =~= sends_view(old(sends)@).push((to, msg@)));
}

/// Names the room with number `n`.
pub fn room_id(n: u16) -> (rid: String)
    ensures
        rid@ == room_name(n),
{
    zero_pad(&decimal_text(n as u64), 4)
}

impl Server {
    /// A server that nobody has connected to.
    pub fn new() -> (server: Server)
        ensures
            server.wf(),
            server@ == ServerView::initial(),
    {
        let server = Server { clients: HashMap::new(), rooms: RoomTable::new(), next_id: 0 };
        assert(server@.clients =~= Map::empty());
        server
    }

    fn is_registered(&self, id: usize) -> (yes: bool)
        ensures
            yes == self@.registered(id),
    {
        self.clients.contains_key(&id)
    }

    /// Moves `id`, if it is connected, to another room or to none.
    fn move_to(&mut self, id: usize, room_id: Option<String>) -> (yes: bool)
        requires
            old(self).rooms_distinct(),
        ensures
            final(self).rooms_distinct(),
            yes == old(self)@.registered(id),
            final(self)@ == old(self)@.moved_to(id, opt_text(room_id)),
    {
        match self.clients.remove(&id) {
            Some(player) => {
                let player = Player { name: player.name, room_id };
                self.clients.insert(id, player);
                proof {
                    lemma_clients_remove(old(self).clients@, id);
                    lemma_clients_insert(old(self).clients@.remove(id), id, player);
                    assert(self@.clients =~= old(self)@.moved_to(id, opt_text(room_id)).clients);
                }
                true
            },
            None => {
                proof {
                    lemma_clients_remove(old(self).clients@, id);
                    assert(self@.clients =~= old(self)@.clients);
                }
                false
            },
        }
    }

    /// Hands out the number for a new client, or `None` once all numbers are
    /// used up. Where every client has a number that was handed out, nobody has
    /// this one yet.
    pub fn new_id(&mut self) -> (id: Option<usize>)
        requires
            old(self).wf(),
        ensures
            final(self).wf(),
            match id {
                Some(id) => {
                    &&& id == old(self)@.next_id
                    &&& id < usize::MAX
                    &&& final(self)@ == old(self)@.issued()
                    &&& old(self)@.numbered() ==> !old(self)@.registered(id)
                    &&& old(self)@.numbered() ==> final(self)@.numbered()
                    &&& (forall|p: usize| #[trigger]
                        old(self)@.clients.contains_key(p) ==> p < old(self)@.next_id)
                        ==> !old(self)@.clients.contains_key(id)
                    &&& final(self)@.next_id == id + 1
                },
                None => old(self)@.next_id == usize::MAX && final(self)@ == old(self)@,
            },
    {
        if self.next_id == usize::MAX {
            return None;
        }
        let id: usize = self.next_id;
        self.next_id = id + 1;
        assert(self@ =~= old(self)@.issued());
        assert(old(self)@.numbered() ==> self@.numbered()) by {
            if old(self)@.numbered() {
                assert forall|p: usize| #[trigger] self@.registered(p) implies p
                    < self@.next_id by {
                    assert(old(self)@.registered(p));
                }
            }
        }
        Some(id)
    }

    /// Registers client `id` under a name made from its number.
    pub fn connect(&mut self, id: usize)
        requires
            old(self).wf(),
        ensures
            final(self).wf(),
            final(self)@ == connected(old(self)@, id),
    {
        let mut name = "User_".to_owned();
        name.append(decimal_text(id as u64).as_str());
        let player = Player { name, room_id: None };
        self.clients.insert(id, player);
        proof {
            lemma_clients_insert(old(self).clients@, id, player);
            assert(self@ =~= connected(old(self)@, id));
        }
    }

    fn set_name(&mut self, id: usize, name: String) -> (out: Outcome)
        requires
            old(self).wf(),
        ensures
            final(self).wf(),
            (final(self)@, out@) == named(old(self)@, id, name@),
    {
        match self.clients.remove(&id) {
            Some(player) => {
                let player = Player { name, room_id: player.room_id };
                self.clients.insert(id, player);
                proof {
                    lemma_clients_remove(old(self).clients@, id);
                    lemma_clients_insert(old(self).clients@.remove(id), id, player);
                    assert(self@.clients =~= named(old(self)@, id, name@).0.clients);
                }
                sending(id, ServerMsg::Welcome("Connected.".to_owned()))
            },
            None => {
                proof {
                    lemma_clients_remove(old(self).clients@, id);
                    assert(self@.clients =~= old(self)@.clients);
                }
                quiet()
            },
        }
    }

    fn create_room(&mut self, id: usize, rid: String) -> (out: Outcome)
        requires
            old(self).wf(),
        ensures
            final(self).wf(),
            (final(self)@, out@) == created(old(self)@, id, rid@),
    {
        self.rooms.insert(rid.clone(), Room::new(id));
        assert(self@ == old(self)@.with_room(rid@, RoomView::opened(id)));
        if self.move_to(id, Some(rid.clone())) {
            sending(id, ServerMsg::RoomCreated(rid))
        } else {
            quiet()
        }
    }

    fn name_of(&self, id: usize) -> (name: String)
        requires
            self@.registered(id),
        ensures
            name@ == self@.clients[id].name,
    {
        match self.clients.get(&id) {
            Some(player) => player.name.clone(),
            None => String::new(),
        }
    }

    /// Starts a new game in `room` and tells both players.
    fn start_game(&self, room: &mut Room, sends: &mut Vec<Outgoing>)
        requires
            old(room)@.players.len() >= 2,
            both_registered(old(room)@.players, self@),
        ensures
            final(room)@ == old(room)@.restarted(),
            sends_view(final(sends)@) == sends_view(old(sends)@) + start_sends(
                old(room)@.players,
                self@.clients,
            ),
    {
        room.restart();
        let black: usize = room.players[0];
        let white: usize = room.players[1];
        let black_name = self.name_of(black);
        let white_name = self.name_of(white);
        push_send(
            sends,
            black,
            ServerMsg::GameStart { player_id: Piece::Black, opponent_name: white_name },
        );
        push_send(
            sends,
            white,
            ServerMsg::GameStart { player_id: Piece::White, opponent_name: black_name },
        );
        assert(sends_view(sends@) =~= sends_view(old(sends)@) + start_sends(
            room@.players,
            self@.clients,
        ));
    }

    fn join_room(&mut self, id: usize, rid: String) -> (out: Outcome)
        requires
            old(self).wf(),
            accepts(old(self)@, id, Request::JoinRoom(rid@)),
        ensures
            final(self).wf(),
            (final(self)@, out@) == joined_room(old(self)@, id, rid@),
    {
        match self.rooms.remove(&rid) {
            Some(mut room) => {
                let ghost pre = old(self)@;
                assert(pre.rooms.contains_key(rid@));
                if room.players.len() < 2 {
                    room.players.push(id);
                    let mut sends: Vec<Outgoing> = Vec::new();
                    let known: bool = self.move_to(id, Some(rid.clone()));
                    if known {
                        push_send(&mut sends, id, ServerMsg::RoomJoined(rid.clone()));
                    }
                    let ghost greeting = sends_view(sends@);
                    if room.players.len() == 2 {
                        self.start_game(&mut room, &mut sends);
                    }
                    self.rooms.insert(rid, room);
                    let out = Outcome { sends, dissolved: None };
                    proof {
                        let (post, told) = joined_room(pre, id, rid@);
                        assert(greeting =~= if pre.registered(id) {
                            seq![(id, Reply::RoomJoined(rid@))]
                        } else {
                            Seq::empty()
                        });
                        assert(self@.rooms =~= post.rooms);
                        assert(self@.clients =~= post.clients);
                        assert(out@.sends =~= told.sends);
                        assert(self@ =~= post);
                    }
                    out
                } else {
                    self.rooms.insert(rid, room);
                    assert(self@ =~= pre);
                    sending(id, ServerMsg::Error("Full".to_owned()))
                }
            },
            None => {
                assert(self@ =~= old(self)@);
                sending(id, ServerMsg::Error("Not found".to_owned()))
            },
        }
    }

    /// The name of the room that `id` thinks it is in.
    fn current_room(&self, id: usize) -> (rid: Option<String>)
        ensures
            match rid {
                Some(rid) => self@.registered(id) && self@.clients[id].room_id == Some(rid@),
                None => !self@.registered(id) || self@.clients[id].room_id is None,
            },
    {
        match self.clients.get(&id) {
            Some(player) => match &player.room_id {
                Some(rid) => Some(rid.clone()),
                None => None,
            },
            None => None,
        }
    }

    fn ready(&mut self, id: usize) -> (out: Outcome)
        requires
            old(self).wf(),
            accepts(old(self)@, id, Request::Ready),
        ensures
            final(self).wf(),
            (final(self)@, out@) == readied(old(self)@, id),
    {
        let rid = match self.current_room(id) {
            Some(rid) => rid,
            None => {
                return quiet();
            },
        };
        match self.rooms.remove(&rid) {
            Some(mut room) => {
                let ghost pre = old(self)@;
                let ghost before = room@;
                assert(pre.rooms.contains_key(rid@));
                let mut sends: Vec<Outgoing> = Vec::new();
                match room.position(id) {
                    Some(pos) => {
                        room.ready.set(pos, true);
                        assert(room@ =~= marked_ready(before, id));
                        if room.both_ready() {
                            self.start_game(&mut room, &mut sends);
                        }
                    },
                    None => {},
                }
                self.rooms.insert(rid, room);
                let out = Outcome { sends, dissolved: None };
                proof {
                    let (post, told) = readied(pre, id);
                    assert(self@.rooms =~= post.rooms);
                    assert(out@.sends =~= told.sends);
                    assert(self@ =~= post);
                }
                out
            },
            None => {
                assert(self@ =~= old(self)@);
                quiet()
            },
        }
    }

    /// Takes `id` out of the room `rid`, tells those who are left, and drops
    /// the room when nobody is.
    fn remove_player_from_room(&mut self, id: usize, rid: String) -> (out: Outcome)
        requires
            old(self).wf(),
        ensures
            final(self).wf(),
            (final(self)@, out@) == removed_from(old(self)@, id, rid@),
    {
        match self.rooms.remove(&rid) {
            Some(mut room) => {
                let ghost pre = old(self)@;
                assert(pre.rooms.contains_key(rid@));
                let ghost before = room@;
                room.remove_player(id);
                proof {
                    before.players.lemma_filter_len(other_than(id));
                }
                if room.players.len() == 0 {
                    let out = Outcome { sends: Vec::new(), dissolved: Some(rid) };
                    assert(out@.sends =~= Seq::empty());
                    out
                } else {
                    let mut sends: Vec<Outgoing> = Vec::new();
                    let mut i: usize = 0;
                    assert(sends_view(sends@) =~= Seq::empty());
                    assert(room@.players.take(0) =~= Seq::empty());
                    while i < room.players.len()
                        invariant
                            i <= room.players.len(),
                            sends_view(sends@) == farewells(
                                room@.players.take(i as int),
                                self@.clients,
                            ),
                        decreases room.players.len() - i,
                    {
                        let other: usize = room.players[i];
                        assert(room@.players.take(i + 1).drop_last() =~= room@.players.take(
                            i as int,
                        ));
                        if self.is_registered(other) {
                            push_send(
                                &mut sends,
                                other,
                                ServerMsg::Error("Opponent disconnected/left.".to_owned()),
                            );
                        }
                        i = i + 1;
                    }
                    assert(room@.players.take(room@.players.len() as int) =~= room@.players);
                    self.rooms.insert(rid, room);
                    let out = Outcome { sends, dissolved: None };
                    proof {
                        let (post, told) = removed_from(pre, id, rid@);
                        assert(self@.rooms =~= post.rooms);
                        assert(self@ =~= post);
                    }
                    out
                }
            },
            None => {
                assert(self@ =~= old(self)@);
                quiet()
            },
        }
    }

    fn leave_room(&mut self, id: usize) -> (out: Outcome)
        requires
            old(self).wf(),
        ensures
            final(self).wf(),
            (final(self)@, out@) == left(old(self)@, id),
    {
        match self.current_room(id) {
            Some(rid) => {
                self.move_to(id, None);
                self.remove_player_from_room(id, rid)
            },
            None => quiet(),
        }
    }

    /// Forgets client `id` and takes it out of its room.
    pub fn disconnect(&mut self, id: usize) -> (out: Outcome)
        requires
            old(self).wf(),
        ensures
            final(self).wf(),
            (final(self)@, out@) == disconnected(old(self)@, id),
    {
        let gone = self.clients.remove(&id);
        proof {
            lemma_clients_remove(old(self).clients@, id);
            assert(self@.rooms == old(self)@.rooms);
        }
        match gone {
            Some(player) => match player.room_id {
                Some(rid) => self.remove_player_from_room(id, rid),
                None => quiet(),
            },
            None => {
                assert(self@.clients =~= old(self)@.clients);
                quiet()
            },
        }
    }

    fn play(&mut self, id: usize, r: usize, c: usize) -> (out: Outcome)
        requires
            old(self).wf(),
            accepts(old(self)@, id, Request::Move(r, c)),
        ensures
            final(self).wf(),
            (final(self)@, out@) == played(old(self)@, id, r, c),
    {
        let rid = match self.current_room(id) {
            Some(rid) => rid,
            None => {
                return quiet();
            },
        };
        match self.rooms.remove(&rid) {
            Some(mut room) => {
                let ghost pre = old(self)@;
                let ghost before = room@;
                assert(pre.rooms.contains_key(rid@));
                let pos: usize = room.position(id).unwrap();
                let piece = if pos == 0 {
                    Piece::Black
                } else {
                    Piece::White
                };
                assert(piece == side_of(pre, id));
                let mut sends: Vec<Outgoing> = Vec::new();
                assert(sends_view(sends@) =~= Seq::empty());
                if room.turn == piece && room.board[r][c] == Piece::Empty {
                    assert(may_play(pre, id, r, c));
                    put(&mut room.board, r, c, piece);
                    room.turn = if piece == Piece::Black {
                        Piece::White
                    } else {
                        Piece::Black
                    };
                    assert(room@ =~= room_after(before, piece, r, c));
                    let win: bool = check_win(&room.board, r, c, piece);
                    assert(signed(r) == r && signed(c) == c);
                    let mut i: usize = 0;
                    assert(room@.players.take(0) =~= Seq::empty());
                    while i < room.players.len()
                        invariant
                            i <= room.players.len(),
                            sends_view(sends@) == move_sends(
                                room@.players.take(i as int),
                                r,
                                c,
                                piece,
                                win,
                            ),
                        decreases room.players.len() - i,
                    {
                        let other: usize = room.players[i];
                        assert(room@.players.take(i + 1).drop_last() =~= room@.players.take(
                            i as int,
                        ));
                        push_send(&mut sends, other, ServerMsg::UpdateBoard { r, c, p: piece });
                        if win {
                            push_send(&mut sends, other, ServerMsg::GameOver { winner: piece });
                        }
                        i = i + 1;
                    }
                    assert(room@.players.take(room@.players.len() as int) =~= room@.players);
                }
                self.rooms.insert(rid, room);
                let out = Outcome { sends, dissolved: None };
                proof {
                    let (post, told) = played(pre, id, r, c);
                    assert(self@.rooms =~= post.rooms);
                    assert(out@.sends =~= told.sends);
                    assert(self@ =~= post);
                }
                out
            },
            None => {
                assert(self@ =~= old(self)@);
                quiet()
            },
        }
    }

    fn client_ids(&self) -> (ids: Vec<usize>)
        ensures
            lists_clients(ids@, self@),
    {
        let mut ids: Vec<usize> = Vec::new();
        for id in it: self.clients.keys()
            invariant
                ids@.len() == it.index(),
                forall|i: int| 0 <= i < ids@.len() ==> ids@[i] == *it.seq()[i],
        {
            ids.push(*id);
        }
        assert(ids@ =~= vstd::std_specs::hash::spec_keys_iter(&self.clients).remaining().unref());
        assert(ids@.to_set() =~= self@.clients.dom());
        ids
    }

    fn get_users(&self, id: usize) -> (out: Outcome)
        requires
            self@.registered(id),
        ensures
            handled(self@, id, Request::GetUsers, 0, self@, out@),
    {
        let ids = self.client_ids();
        let mut names: Vec<String> = Vec::new();
        let mut i: usize = 0;
        while i < ids.len()
            invariant
                lists_clients(ids@, self@),
                i <= ids.len(),
                texts(names@) == names_of(ids@, self@).take(i as int),
            decreases ids.len() - i,
        {
            let ghost before = texts(names@);
            assert(ids@.to_set().contains(ids@[i as int]));
            names.push(self.name_of(ids[i]));
            i = i + 1;
            assert(texts(names@) =~= before.push(names_of(ids@, self@)[i - 1]));
            assert(texts(names@) =~= names_of(ids@, self@).take(i as int));
        }
        assert(texts(names@) =~= names_of(ids@, self@));
        sending(id, ServerMsg::UserList(names))
    }

    fn get_rooms(&self, id: usize) -> (out: Outcome)
        requires
            self.wf(),
        ensures
            handled(self@, id, Request::GetRooms, 0, self@, out@),
    {
        let list = self.rooms.ids();
        assert(lists_rooms(texts(list@), self@));
        sending(id, ServerMsg::RoomList(list))
    }

    fn all_registered(&self, players: &Vec<usize>) -> (yes: bool)
        ensures
            yes == forall|i: int|
                0 <= i < players@.len() ==> self@.registered(#[trigger] players@[i]),
    {
        let mut i: usize = 0;
        while i < players.len()
            invariant
                i <= players.len(),
                forall|j: int| 0 <= j < i ==> self@.registered(#[trigger] players@[j]),
            decreases players.len() - i,
        {
            if !self.is_registered(players[i]) {
                return false;
            }
            i = i + 1;
        }
        true
    }

    fn can_join(&self, id: usize, rid: &String) -> (yes: bool)
        requires
            self.wf(),
        ensures
            yes == accepts(self@, id, Request::JoinRoom(rid@)),
    {
        match self.rooms.get(rid) {
            Some(room) => {
                assert(self@.rooms.contains_key(rid@));
                self.is_registered(id) && (room.players.len() >= 2 || self.is_registered(
                    room.players[0],
                ))
            },
            None => self.is_registered(id),
        }
    }

    fn can_be_ready(&self, id: usize) -> (yes: bool)
        requires
            self.wf(),
        ensures
            yes == accepts(self@, id, Request::Ready),
    {
        let rid = match self.current_room(id) {
            Some(rid) => rid,
            None => {
                return true;
            },
        };
        match self.rooms.get(&rid) {
            Some(room) => {
                assert(self@.rooms.contains_key(rid@));
                match room.position(id) {
                    Some(pos) => {
                        let first: bool = pos == 0 || room.ready[0];
                        let second: bool = pos == 1 || room.ready[1];
                        let starts: bool = room.players.len() == 2 && first && second;
                        assert(starts == marked_ready(room@, id).all_ready());
                        !starts || (self.is_registered(room.players[0]) && self.is_registered(
                            room.players[1],
                        ))
                    },
                    None => true,
                }
            },
            None => true,
        }
    }

    fn can_play(&self, id: usize, r: usize, c: usize) -> (yes: bool)
        requires
            self.wf(),
        ensures
            yes == accepts(self@, id, Request::Move(r, c)),
    {
        let rid = match self.current_room(id) {
            Some(rid) => rid,
            None => {
                return true;
            },
        };
        match self.rooms.get(&rid) {
            Some(room) => {
                assert(self@.rooms.contains_key(rid@));
                assert(room@ == self@.room_of(id));
                match room.position(id) {
                    Some(pos) => {
                        let piece = if pos == 0 {
                            Piece::Black
                        } else {
                            Piece::White
                        };
                        if room.turn != piece {
                            return true;
                        }
                        if r >= BOARD_SIZE || c >= BOARD_SIZE {
                            return false;
                        }
                        assert(room.board[r as int][c as int] == room@.board[r as int][c as int]);
                        room.board[r][c] != Piece::Empty || self.all_registered(&room.players)
                    },
                    None => false,
                }
            },
            None => true,
        }
    }

    /// Whether the server has an answer to `msg` from `id`. Every request may
    /// be tried before it is handled.
    pub fn can_handle(&self, id: usize, msg: &ClientMsg) -> (yes: bool)
        requires
            self.wf(),
        ensures
            yes == accepts(self@, id, msg@),
    {
        match msg {
            ClientMsg::SetName(_) => true,
            ClientMsg::CreateRoom => true,
            ClientMsg::LeaveRoom => true,
            ClientMsg::JoinRoom(rid) => self.can_join(id, rid),
            ClientMsg::Ready => self.can_be_ready(id),
            ClientMsg::Move(r, c) => self.can_play(id, *r, *c),
            ClientMsg::GetRooms => self.is_registered(id),
            ClientMsg::GetUsers => self.is_registered(id),
        }
    }

    /// Handles `msg` from `id`. A room that it opens gets the number `n`.
    pub fn handle_msg_with(&mut self, id: usize, msg: ClientMsg, n: u16) -> (out: Outcome)
        requires
            old(self).wf(),
            accepts(old(self)@, id, msg@),
        ensures
            final(self).wf(),
            handled(old(self)@, id, msg@, n, final(self)@, out@),
    {
        match msg {
            ClientMsg::SetName(name) => self.set_name(id, name),
            ClientMsg::CreateRoom => self.create_room(id, room_id(n)),
            ClientMsg::JoinRoom(rid) => self.join_room(id, rid),
            ClientMsg::Ready => self.ready(id),
            ClientMsg::LeaveRoom => self.leave_room(id),
            ClientMsg::Move(r, c) => self.play(id, r, c),
            ClientMsg::GetRooms => self.get_rooms(id),
            ClientMsg::GetUsers => self.get_users(id),
        }
    }

    /// Handles `msg` from `id`. A room that it opens gets a random number.
    pub fn handle_msg(&mut self, id: usize, msg: ClientMsg) -> (out: Outcome)
        requires
            old(self).wf(),
            accepts(old(self)@, id, msg@),
        ensures
            final(self).wf(),
            exists|n: u16| #[trigger] handled(old(self)@, id, msg@, n, final(self)@, out@),
    {
        let n: u16 = match msg {
            ClientMsg::CreateRoom => random_u16(),
            _ => 0,
        };
        self.handle_msg_with(id, msg, n)
    }

    /// Handles one read of `read` bytes from `id`, which gave `msg` if it was a
    /// message.
    pub fn handle_line(&mut self, id: usize, read: usize, msg: Option<ClientMsg>) -> (out:
        LineOutcome)
        requires
            old(self).wf(),
            read != 0 && msg is Some ==> accepts(old(self)@, id, msg->0@),
        ensures
            final(self).wf(),
            read != 0 ==> exists|n: u16| #[trigger]
                line_handled(old(self)@, id, opt_request(msg), n, final(self)@, out.said()),
            match out {
                LineOutcome::Closed => read == 0 && final(self)@ == old(self)@,
                LineOutcome::Skipped => read != 0 && msg is None && final(self)@ == old(self)@,
                LineOutcome::Handled(out) => read != 0 && msg is Some && exists|n: u16| #[trigger]
                    handled(old(self)@, id, msg->0@, n, final(self)@, out@),
            },
    {
        if read == 0 {
            return LineOutcome::Closed;
        }
        match msg {
            Some(msg) => {
                let out = self.handle_msg(id, msg);
                proof {
                    let n = choose|n: u16| #[trigger]
                        handled(old(self)@, id, msg@, n, self@, out@);
                    assert(line_handled(old(self)@, id, Some(msg@), n, self@, out@));
                }
                LineOutcome::Handled(out)
            },
            None => {
                assert(line_handled(old(self)@, id, None, 0, self@, OutcomeView::quiet()));
                LineOutcome::Skipped
            },
        }
    }
}

/// The port that the server tries first.
pub const FIRST_PORT: u32 = 10031;

/// Ports from here on are not followed by another try.
pub const LAST_PORT: u32 = 8100;

/// The address to listen on at `port`.
pub fn listen_addr(port: u32) -> (addr: String)
    ensures
        addr@ == "127.0.0.1:"@ + decimal(port as nat),
{
    let mut addr = "127.0.0.1:".to_owned();
    addr.append(decimal_text(port as u64).as_str());
    addr
}

/// The port to try once `port` was refused, or `None` to give up.
pub fn next_port(port: u32) -> (next: Option<u32>)
    ensures
        next == if port < LAST_PORT {
            Some((port + 1) as u32)
        } else {
            None
        },
{
    if port < LAST_PORT {
        Some(port + 1)
    } else {
        None
    }
}

/// A client is seen as its fields say.
pub proof fn law_player_is_seen_as_it_is(player: Player, text: String)
    ensures
        player@.name == player.name@,
        player.room_id is None <==> player@.room_id is None,
        player.room_id == Some(text) ==> player@.room_id == Some(text@),
{
}

/// What leaves the server is seen message by message, in order; and so is what
/// came of a line.
pub proof fn law_outcome_is_seen_as_it_is(out: Outcome, text: String, msg: ClientMsg)
    ensures
        out@.sends.len() == out.sends@.len(),
        forall|i: int|
            #![trigger out@.sends[i]]
            0 <= i < out.sends@.len() ==> out@.sends[i].0 == out.sends@[i].to && out@.sends[i].1
                == out.sends@[i].msg@,
        out.dissolved is None <==> out@.dissolved is None,
        out.dissolved == Some(text) ==> out@.dissolved == Some(text@),
        LineOutcome::Handled(out).said() == out@,
        LineOutcome::Skipped.said().sends.len() == 0,
        LineOutcome::Skipped.said().dissolved is None,
        LineOutcome::Closed.said().sends.len() == 0,
        LineOutcome::Closed.said().dissolved is None,
        opt_request(Some(msg)) == Some(msg@),
        opt_request(None) is None,
{
}

/// The server listens on its first port or not at all: that port is not one of
/// those after which another try follows.
pub proof fn law_first_port_is_tried_alone()
    ensures
        FIRST_PORT == 10031,
        LAST_PORT == 8100,
        FIRST_PORT >= LAST_PORT,
{
}

} // verus!
