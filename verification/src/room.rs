//! A room in which two clients play.

use vstd::prelude::*;

use crate::board::{empty_board, empty_grid, grid, is_grid, Board, Grid, Piece};

verus! {

/// Where two clients play. The first of `players` has the black pieces.
pub struct Room {
    pub players: Vec<usize>,
    pub ready: Vec<bool>,
    pub board: Board,
    pub turn: Piece,
}

/// A room as a mathematical object.
#[verifier::ext_equal]
pub struct RoomView {
    pub players: Seq<usize>,
    pub ready: Seq<bool>,
    pub board: Grid,
    pub turn: Piece,
}

impl View for Room {
    type V = RoomView;

    open spec fn view(&self) -> RoomView {
        RoomView {
            players: self.players@,
            ready: self.ready@,
            board: grid(self.board),
            turn: self.turn,
        }
    }
}

/// The predicate that holds of every client but `id`.
pub open spec fn other_than(id: usize) -> spec_fn(usize) -> bool {
    |p: usize| p != id
}

impl RoomView {
    /// What holds of every room: one or two players, a mark for each seat, a
    /// whole board and a side to move.
    pub open spec fn wf(self) -> bool {
        &&& 1 <= self.players.len() <= 2
        &&& self.ready.len() == 2
        &&& is_grid(self.board)
        &&& self.turn != Piece::Empty
    }

    /// The room that `id` has just opened.
    pub open spec fn opened(id: usize) -> RoomView {
        RoomView {
            players: seq![id],
            ready: seq![false, false],
            board: empty_grid(),
            turn: Piece::Black,
        }
    }

    /// The room with the board cleared, black to move and nobody ready.
    pub open spec fn restarted(self) -> RoomView {
        RoomView {
            players: self.players,
            ready: seq![false, false],
            board: empty_grid(),
            turn: Piece::Black,
        }
    }

    /// The room without `id`.
    pub open spec fn without(self, id: usize) -> RoomView {
        RoomView { players: self.players.filter(other_than(id)), ..self }
    }

    /// The seat of `id`: the first, if `id` holds several.
    pub open spec fn seat(self, id: usize) -> int
        recommends
            self.players.contains(id),
    {
        self.players.index_of_first(id)->0
    }

    /// The side of whoever sits in `seat`.
    pub open spec fn side(seat: int) -> Piece {
        if seat == 0 {
            Piece::Black
        } else {
            Piece::White
        }
    }

    /// Two players, both of them ready.
    pub open spec fn all_ready(self) -> bool {
        self.players.len() == 2 && self.ready[0] && self.ready[1]
    }
}

impl Room {
    /// Opens a room with `id` in the first seat.
    pub fn new(id: usize) -> (room: Room)
        ensures
            room@ == RoomView::opened(id),
    {
        let players: Vec<usize> = vec![id];
        let ready: Vec<bool> = vec![false, false];
        let room = Room { players, ready, board: empty_board(), turn: Piece::Black };
        assert(room@.players =~= seq![id]);
        assert(room@.ready =~= seq![false, false]);
        room
    }

    /// Clears the board for a new game.
    pub fn restart(&mut self)
        ensures
            final(self)@ == old(self)@.restarted(),
    {
        self.board = empty_board();
        self.turn = Piece::Black;
        self.ready = vec![false, false];
        assert(self@.ready =~= seq![false, false]);
    }

    /// The seat of `id`, or `None` if `id` does not sit here.
    pub fn position(&self, id: usize) -> (pos: Option<usize>)
        ensures
            match pos {
                Some(pos) => self@.players.contains(id) && pos == self@.seat(id) && pos
                    < self@.players.len(),
                None => !self@.players.contains(id),
            },
    {
        let mut i: usize = 0;
        while i < self.players.len()
            invariant
                i <= self.players.len(),
                forall|j: int| 0 <= j < i ==> self.players@[j] != id,
            decreases self.players.len() - i,
        {
            if self.players[i] == id {
                proof {
                    self.players@.index_of_first_ensures(id);
                }
                return Some(i);
            }
            i = i + 1;
        }
        None
    }

    /// Takes `id` out of every seat; the others move up.
    pub fn remove_player(&mut self, id: usize)
        ensures
            final(self)@ == old(self)@.without(id),
    {
        let mut rest: Vec<usize> = Vec::new();
        let mut i: usize = 0;
        while i < self.players.len()
            invariant
                i <= self.players.len(),
                *self == *old(self),
                rest@ == self.players@.take(i as int).filter(other_than(id)),
            decreases self.players.len() - i,
        {
            let p: usize = self.players[i];
            proof {
                reveal(Seq::filter);
                let now = self.players@.take(i + 1);
                assert(now.drop_last() =~= self.players@.take(i as int));
            }
            if p != id {
                rest.push(p);
            }
            i = i + 1;
        }
        assert(self.players@.take(self.players@.len() as int) =~= self.players@);
        self.players = rest;
    }

    /// Whether two players sit here and both are ready.
    pub fn both_ready(&self) -> (all: bool)
        requires
            self@.ready.len() == 2,
        ensures
            all == self@.all_ready(),
    {
        self.players.len() == 2 && self.ready[0] && self.ready[1]
    }
}

/// A room is seen as its fields say.
pub proof fn law_room_is_seen_as_it_is(room: Room)
    ensures
        room@.players == room.players@,
        room@.ready == room.ready@,
        room@.turn == room.turn,
        room@.board.len() == 15,
        forall|r: int, c: int|
            0 <= r < 15 && 0 <= c < 15 ==> #[trigger] room@.board[r][c] == room.board@[r]@[c],
{
}

} // verus!
