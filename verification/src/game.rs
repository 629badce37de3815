//! A game as the client sees it.

use vstd::prelude::*;
use vstd::string::StringExecFns;

use crate::board::{
    empty_board, empty_grid, grid, is_grid, on_board, opponent, place, put, Board, Grid, Piece,
    BOARD_SIZE,
};
use crate::protocol::{ClientMsg, Reply, Request, ServerMsg};
use crate::setup::Answer;
use crate::text::{opt_text, texts};

verus! {

/// The keys that mean something, and all others.
#[derive(Debug, Clone, Copy, PartialEq, Eq, Structural)]
pub enum Key {
    Up,
    Down,
    Left,
    Right,
    Enter,
    Esc,
    Char(char),
    Other,
}

/// A key that went down, or did something else, with or without control.
#[derive(Debug, Clone, Copy, PartialEq, Eq, Structural)]
pub struct KeyPress {
    pub key: Key,
    pub pressed: bool,
    pub control: bool,
}

/// The client's side of a game.
pub struct GameState {
    pub cursor: (usize, usize),
    pub board: Board,
    pub my_piece: Piece,
    pub turn: Piece,
    pub room_id: String,
    pub opp_ready: bool,
    pub ready: bool,
    pub winner: Option<String>,
    pub winner_name: String,
    pub opponent_name: String,
    pub my_name: String,
}

/// A game as a mathematical object.
#[verifier::ext_equal]
pub struct GameView {
    pub cursor: (usize, usize),
    pub board: Grid,
    pub my_piece: Piece,
    pub turn: Piece,
    pub room_id: Seq<char>,
    pub opp_ready: bool,
    pub ready: bool,
    pub winner: Option<Seq<char>>,
    pub winner_name: Seq<char>,
    pub opponent_name: Seq<char>,
    pub my_name: Seq<char>,
}

impl View for GameState {
    type V = GameView;

    open spec fn view(&self) -> GameView {
        GameView {
            cursor: self.cursor,
            board: grid(self.board),
            my_piece: self.my_piece,
            turn: self.turn,
            room_id: self.room_id@,
            opp_ready: self.opp_ready,
            ready: self.ready,
            winner: opt_text(self.winner),
            winner_name: self.winner_name@,
            opponent_name: self.opponent_name@,
            my_name: self.my_name@,
        }
    }
}

impl GameView {
    /// The board is whole, and the cursor is on it.
    pub open spec fn wf(self) -> bool {
        is_grid(self.board) && on_board(self.cursor.0 as int, self.cursor.1 as int)
    }

    /// A client that has just come to the board.
    pub open spec fn initial(my_name: Seq<char>) -> GameView {
        GameView {
            cursor: (7, 7),
            board: empty_grid(),
            my_piece: Piece::Empty,
            turn: Piece::Black,
            room_id: Seq::empty(),
            opp_ready: false,
            ready: false,
            winner: None,
            winner_name: Seq::empty(),
            opponent_name: "Waiting..."@,
            my_name,
        }
    }
}

/// What an event at the board leads to.
#[derive(Debug, Clone, PartialEq)]
pub enum GameAction {
    /// Go on.
    Stay,
    /// Quit.
    Exit,
    /// Hide, then go on.
    Hide,
    /// Ask under this title what to do after the game.
    AskRematch(String),
    /// Send the request and go on.
    Send(ClientMsg),
    /// Send the request and go back to the lobby.
    Leave(ClientMsg),
    /// Show the error and go back to the lobby.
    Fail(String),
}

/// An action as a mathematical object.
pub enum GameActionView {
    Stay,
    Exit,
    Hide,
    AskRematch(Seq<char>),
    Send(Request),
    Leave(Request),
    Fail(Seq<char>),
}

impl View for GameAction {
    type V = GameActionView;

    open spec fn view(&self) -> GameActionView {
        match *self {
            GameAction::Stay => GameActionView::Stay,
            GameAction::Exit => GameActionView::Exit,
            GameAction::Hide => GameActionView::Hide,
            GameAction::AskRematch(title) => GameActionView::AskRematch(title@),
            GameAction::Send(msg) => GameActionView::Send(msg@),
            GameAction::Leave(msg) => GameActionView::Leave(msg@),
            GameAction::Fail(text) => GameActionView::Fail(text@),
        }
    }
}

/// The user quits with control and C.
pub open spec fn quits(press: KeyPress) -> bool {
    press.key == Key::Char('c') && press.control
}

/// The title of the menu after a game.
pub open spec fn rematch_title(winner_name: Seq<char>) -> Seq<char> {
    "WINNER: "@ + winner_name + " | Action:"@
}

/// The client may fill the cell under the cursor.
pub open spec fn may_fill(g: GameView) -> bool {
    &&& g.my_piece != Piece::Empty
    &&& g.board[g.cursor.0 as int][g.cursor.1 as int] == Piece::Empty
    &&& g.turn == g.my_piece
}

/// The cursor after a key: one step further, unless it is at the edge.
pub open spec fn cursor_after(cursor: (usize, usize), key: Key) -> (usize, usize) {
    let (r, c) = cursor;
    match key {
        Key::Up if r > 0 => ((r - 1) as usize, c),
        Key::Down if r < BOARD_SIZE - 1 => ((r + 1) as usize, c),
        Key::Left if c > 0 => (r, (c - 1) as usize),
        Key::Right if c < BOARD_SIZE - 1 => (r, (c + 1) as usize),
        _ => cursor,
    }
}

/// What a key does.
pub open spec fn key_taken(g: GameView, press: KeyPress) -> (GameView, GameActionView) {
    if !press.pressed {
        (g, GameActionView::Stay)
    } else if quits(press) {
        (g, GameActionView::Exit)
    } else if press.key == Key::Esc {
        (g, GameActionView::Hide)
    } else if g.winner is Some {
        (g, GameActionView::AskRematch(rematch_title(g.winner_name)))
    } else if press.key == Key::Enter {
        (
            g,
            if may_fill(g) {
                GameActionView::Send(Request::Move(g.cursor.0, g.cursor.1))
            } else {
                GameActionView::Stay
            },
        )
    } else {
        (GameView { cursor: cursor_after(g.cursor, press.key), ..g }, GameActionView::Stay)
    }
}

/// What the choice after a game does.
pub open spec fn rematch_chosen(g: GameView, answer: Answer) -> (GameView, GameActionView) {
    if answer matches Answer::Text(text) && text@ == "Rematch"@ {
        (
            GameView { winner: None, ready: true, opp_ready: false, board: empty_grid(), ..g },
            GameActionView::Send(Request::Ready),
        )
    } else {
        (g, GameActionView::Leave(Request::LeaveRoom))
    }
}

/// What a message of the server does.
pub open spec fn told(g: GameView, reply: Reply) -> (GameView, GameActionView) {
    match reply {
        Reply::RoomCreated(id) => (GameView { room_id: id, ..g }, GameActionView::Stay),
        Reply::RoomJoined(id) => (GameView { room_id: id, ..g }, GameActionView::Stay),
        Reply::GameStart { player_id, opponent_name } => (
            GameView {
                my_piece: player_id,
                opponent_name,
                board: empty_grid(),
                turn: Piece::Black,
                winner: None,
                ..g
            },
            GameActionView::Stay,
        ),
        Reply::UpdateBoard { r, c, p } => (
            GameView { board: place(g.board, r as int, c as int, p), turn: opponent(p), ..g },
            GameActionView::Stay,
        ),
        Reply::GameOver { winner } => (
            GameView {
                winner: Some("DONE"@),
                winner_name: if winner == g.my_piece {
                    "YOU"@
                } else {
                    g.opponent_name
                },
                ..g
            },
            GameActionView::Stay,
        ),
        Reply::OpponentReady => (GameView { opp_ready: true, ..g }, GameActionView::Stay),
        Reply::Error(text) => (g, GameActionView::Fail(text)),
        _ => (g, GameActionView::Stay),
    }
}

/// The client can take the message: a move it tells of is on the board.
pub open spec fn takes(reply: Reply) -> bool {
    reply matches Reply::UpdateBoard { r, c, p } ==> on_board(r as int, c as int)
}

/// The menu after a game.
pub fn rematch_options() -> (options: Vec<String>)
    ensures
        texts(options@) == seq!["Rematch"@, "Leave Room"@],
{
    let mut options: Vec<String> = Vec::new();
    options.push("Rematch".to_owned());
    options.push("Leave Room".to_owned());
    assert(texts(options@) =~= seq!["Rematch"@, "Leave Room"@]);
    options
}

/// Whether the client can take `msg`.
pub fn can_take(msg: &ServerMsg) -> (yes: bool)
    ensures
        yes == takes(msg@),
{
    match msg {
        ServerMsg::UpdateBoard { r, c, .. } => *r < BOARD_SIZE && *c < BOARD_SIZE,
        _ => true,
    }
}

impl GameState {
    /// A client that has just come to the board.
    pub fn new(my_name: String) -> (game: GameState)
        ensures
            game@ == GameView::initial(my_name@),
            game@.wf(),
    {
        GameState {
            cursor: (7, 7),
            board: empty_board(),
            my_piece: Piece::Empty,
            turn: Piece::Black,
            room_id: String::new(),
            opp_ready: false,
            ready: false,
            winner: None,
            winner_name: String::new(),
            opponent_name: "Waiting...".to_owned(),
            my_name,
        }
    }

    /// The user has pressed a key.
    pub fn on_key(&mut self, press: KeyPress) -> (action: GameAction)
        requires
            old(self)@.wf(),
        ensures
            final(self)@.wf(),
            (final(self)@, action@) == key_taken(old(self)@, press),
    {
        if !press.pressed {
            return GameAction::Stay;
        }
        if press.key == Key::Char('c') && press.control {
            return GameAction::Exit;
        }
        if press.key == Key::Esc {
            return GameAction::Hide;
        }
        if self.winner.is_some() {
            let mut title = "WINNER: ".to_owned();
            title.append(self.winner_name.as_str());
            title.append(" | Action:");
            return GameAction::AskRematch(title);
        }
        let (r, c): (usize, usize) = self.cursor;
        match press.key {
            Key::Up => {
                if r > 0 {
                    self.cursor = (r - 1, c);
                }
            },
            Key::Down => {
                if r < BOARD_SIZE - 1 {
                    self.cursor = (r + 1, c);
                }
            },
            Key::Left => {
                if c > 0 {
                    self.cursor = (r, c - 1);
                }
            },
            Key::Right => {
                if c < BOARD_SIZE - 1 {
                    self.cursor = (r, c + 1);
                }
            },
            Key::Enter => {
                if self.my_piece != Piece::Empty && self.board[r][c] == Piece::Empty && self.turn
                    == self.my_piece {
                    return GameAction::Send(ClientMsg::Move(r, c));
                }
            },
            _ => {},
        }
        GameAction::Stay
    }

    /// The user has chosen what to do after a game.
    pub fn on_rematch(&mut self, answer: Answer) -> (action: GameAction)
        requires
            old(self)@.wf(),
        ensures
            final(self)@.wf(),
            (final(self)@, action@) == rematch_chosen(old(self)@, answer),
    {
        match answer {
            Answer::Text(text) => {
                if text == "Rematch".to_owned() {
                    self.winner = None;
                    self.ready = true;
                    self.opp_ready = false;
                    self.board = empty_board();
                    return GameAction::Send(ClientMsg::Ready);
                }
            },
            _ => {},
        }
        GameAction::Leave(ClientMsg::LeaveRoom)
    }

    /// The server has sent a message.
    pub fn on_server_msg(&mut self, msg: ServerMsg) -> (action: GameAction)
        requires
            old(self)@.wf(),
            takes(msg@),
        ensures
            final(self)@.wf(),
            (final(self)@, action@) == told(old(self)@, msg@),
    {
        match msg {
            ServerMsg::RoomCreated(id) => {
                self.room_id = id;
            },
            ServerMsg::RoomJoined(id) => {
                self.room_id = id;
            },
            ServerMsg::GameStart { player_id, opponent_name } => {
                self.my_piece = player_id;
                self.opponent_name = opponent_name;
                self.board = empty_board();
                self.turn = Piece::Black;
                self.winner = None;
            },
            ServerMsg::UpdateBoard { r, c, p } => {
                put(&mut self.board, r, c, p);
                self.turn = if p == Piece::Black {
                    Piece::White
                } else {
                    Piece::Black
                };
            },
            ServerMsg::GameOver { winner } => {
                self.winner = Some("DONE".to_owned());
                self.winner_name = if winner == self.my_piece {
                    "YOU".to_owned()
                } else {
                    self.opponent_name.clone()
                };
            },
            ServerMsg::OpponentReady => {
                self.opp_ready = true;
            },
            ServerMsg::Error(text) => {
                return GameAction::Fail(text);
            },
            _ => {},
        }
        GameAction::Stay
    }
}

/// A game is seen as its fields say.
pub proof fn law_game_is_seen_as_it_is(game: GameState, text: String)
    ensures
        game@.cursor == game.cursor,
        game@.board.len() == 15,
        forall|r: int, c: int|
            0 <= r < 15 && 0 <= c < 15 ==> #[trigger] game@.board[r][c] == game.board@[r]@[c],
        game@.my_piece == game.my_piece,
        game@.turn == game.turn,
        game@.room_id == game.room_id@,
        game@.opp_ready == game.opp_ready,
        game@.ready == game.ready,
        game.winner is None <==> game@.winner is None,
        game.winner == Some(text) ==> game@.winner == Some(text@),
        game@.winner_name == game.winner_name@,
        game@.opponent_name == game.opponent_name@,
        game@.my_name == game.my_name@,
{
}

/// An action is seen as what it is, with what it carries.
pub proof fn law_game_action_is_seen_as_it_is(action: GameAction)
    ensures
        action is Stay <==> action@ is Stay,
        action is Exit <==> action@ is Exit,
        action is Hide <==> action@ is Hide,
        action is AskRematch <==> action@ is AskRematch,
        action is AskRematch ==> action@->AskRematch_0 == action->AskRematch_0@,
        action is Send <==> action@ is Send,
        action is Send ==> action@->Send_0 == action->Send_0@,
        action is Leave <==> action@ is Leave,
        action is Leave ==> action@->Leave_0 == action->Leave_0@,
        action is Fail <==> action@ is Fail,
        action is Fail ==> action@->Fail_0 == action->Fail_0@,
{
}

} // verus!
