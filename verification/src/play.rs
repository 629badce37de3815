//! What keys, choices and messages do at the board, told field by field; and
//! what the two players of a room see of a game that ends.

use vstd::prelude::*;

use crate::board::Piece;
use crate::effects::{law_line_of_five_ends_the_game, to_move};
use crate::game::{
    key_taken, quits, rematch_chosen, takes, told, GameActionView, GameView, Key, KeyPress,
};
use crate::laws::heard;
use crate::protocol::{Reply, Request};
use crate::setup::Answer;
use crate::steps::{handled, OutcomeView, ServerView};

verus! {

/// The key moves the cursor.
pub open spec fn is_arrow(key: Key) -> bool {
    key is Up || key is Down || key is Left || key is Right
}

/// The press of a key, without control.
pub open spec fn press_of(key: Key) -> KeyPress {
    KeyPress { key, pressed: true, control: false }
}

/// An arrow key moves the cursor by one cell in its direction, and not at all
/// at the edge there. Nothing else changes, and nothing is sent.
pub proof fn law_arrows_move_one_cell(g: GameView, press: KeyPress)
    requires
        press.pressed,
        is_arrow(press.key),
        g.winner is None,
        g.cursor.0 < 15,
        g.cursor.1 < 15,
    ensures
        ({
            let (after, action) = key_taken(g, press);
            let (r, c) = (g.cursor.0 as int, g.cursor.1 as int);
            &&& action is Stay
            &&& after == GameView { cursor: after.cursor, ..g }
            &&& press.key is Left ==> after.cursor.0 == r && after.cursor.1 == if c > 0 {
                c - 1
            } else {
                0
            }
            &&& press.key is Right ==> after.cursor.0 == r && after.cursor.1 == if c < 14 {
                c + 1
            } else {
                14
            }
            &&& press.key is Up ==> after.cursor.1 == c && after.cursor.0 == if r > 0 {
                r - 1
            } else {
                0
            }
            &&& press.key is Down ==> after.cursor.1 == c && after.cursor.0 == if r < 14 {
                r + 1
            } else {
                14
            }
        }),
{
}

/// Away from the edges, left and right undo each other, and so do up and down.
pub proof fn law_arrows_undo_each_other(g: GameView)
    requires
        g.winner is None,
        g.cursor.0 < 15,
        g.cursor.1 < 15,
    ensures
        ({
            let left = key_taken(g, press_of(Key::Left)).0;
            let right = key_taken(g, press_of(Key::Right)).0;
            let up = key_taken(g, press_of(Key::Up)).0;
            let down = key_taken(g, press_of(Key::Down)).0;
            &&& g.cursor.1 > 0 ==> left.cursor != g.cursor && key_taken(
                left,
                press_of(Key::Right),
            ).0 == g
            &&& g.cursor.1 < 14 ==> right.cursor != g.cursor && key_taken(
                right,
                press_of(Key::Left),
            ).0 == g
            &&& g.cursor.0 > 0 ==> up.cursor != g.cursor && key_taken(
                up,
                press_of(Key::Down),
            ).0 == g
            &&& g.cursor.0 < 14 ==> down.cursor != g.cursor && key_taken(
                down,
                press_of(Key::Up),
            ).0 == g
        }),
{
}

/// No key but an arrow changes anything; nor does one that is let go, or one
/// that is pressed after the game.
pub proof fn law_other_keys_change_nothing(g: GameView, press: KeyPress)
    requires
        !press.pressed || !is_arrow(press.key) || g.winner is Some,
    ensures
        key_taken(g, press).0 == g,
{
}

/// Control and C quits, escape hides, and any other key after a game leads to
/// the question what to do next, which names the winner. A key that is let go
/// does nothing.
pub proof fn law_keys_lead_where_they_should(g: GameView, press: KeyPress)
    ensures
        ({
            let action = key_taken(g, press).1;
            &&& action is Exit <==> press.pressed && press.key == Key::Char('c') && press.control
            &&& action is Hide <==> press.pressed && press.key is Esc
            &&& action is AskRematch <==> {
                &&& press.pressed
                &&& !(press.key == Key::Char('c') && press.control)
                &&& !(press.key is Esc)
                &&& g.winner is Some
            }
            &&& action is AskRematch ==> action->AskRematch_0 == "WINNER: "@ + g.winner_name
                + " | Action:"@
            &&& !(action is Leave) && !(action is Fail)
            &&& !press.pressed ==> action is Stay
        }),
{
}

/// Enter asks for the cell under the cursor exactly if a game is on, it is the
/// client's turn and the cell is empty. No other key asks for a cell.
pub proof fn law_enter_asks_for_the_cell(g: GameView, press: KeyPress)
    requires
        press.pressed,
        g.winner is None,
    ensures
        ({
            let action = key_taken(g, press).1;
            let mine = g.my_piece == Piece::Black || g.my_piece == Piece::White;
            let cell = g.board[g.cursor.0 as int][g.cursor.1 as int];
            &&& press.key is Enter && mine && g.turn == g.my_piece && cell == Piece::Empty
                ==> action == GameActionView::Send(Request::Move(g.cursor.0, g.cursor.1))
            &&& press.key is Enter && !(mine && g.turn == g.my_piece && cell == Piece::Empty)
                ==> action is Stay
            &&& !(press.key is Enter) ==> !(action is Send)
        }),
{
}

/// What quits is control and C together, pressed or not.
pub proof fn law_control_c_quits(press: KeyPress)
    ensures
        quits(press) <==> press.control && press.key is Char && press.key->Char_0 == 'c',
{
}

/// A client that comes to the board sees an empty one with the cursor in the
/// middle and waits for a game.
pub proof fn law_client_starts_waiting(my_name: Seq<char>)
    ensures
        ({
            let g = GameView::initial(my_name);
            &&& g.cursor.0 == 7 && g.cursor.1 == 7
            &&& g.board.len() == 15
            &&& forall|r: int| 0 <= r < 15 ==> (#[trigger] g.board[r]).len() == 15
            &&& forall|r: int, c: int|
                0 <= r < 15 && 0 <= c < 15 ==> #[trigger] g.board[r][c] == Piece::Empty
            &&& g.my_piece == Piece::Empty
            &&& g.turn == Piece::Black
            &&& g.room_id.len() == 0
            &&& !g.opp_ready && !g.ready
            &&& g.winner is None
            &&& g.winner_name.len() == 0
            &&& g.opponent_name == "Waiting..."@
            &&& g.my_name == my_name
        }),
{
}

/// A client takes every message but a move that is off the board.
pub proof fn law_client_takes_what_is_on_the_board(reply: Reply)
    ensures
        !(reply is UpdateBoard) ==> takes(reply),
        reply is UpdateBoard ==> takes(reply) == (reply->r < 15 && reply->c < 15),
{
}

/// A client that is told which room it is in keeps that name, and all else
/// stays.
pub proof fn law_client_learns_its_room(g: GameView, rid: Seq<char>)
    ensures
        ({
            let (made, a) = told(g, Reply::RoomCreated(rid));
            let (joined, b) = told(g, Reply::RoomJoined(rid));
            &&& made.room_id == rid && joined.room_id == rid
            &&& made == GameView { room_id: made.room_id, ..g }
            &&& joined == GameView { room_id: joined.room_id, ..g }
            &&& a is Stay && b is Stay
        }),
{
}

/// A client that is told of a new game has the side and the opponent that it is
/// told, an empty board, black to move and no winner; all else stays.
pub proof fn law_client_starts_a_game(g: GameView, player_id: Piece, opponent_name: Seq<char>)
    ensures
        ({
            let (after, action) = told(g, Reply::GameStart { player_id, opponent_name });
            &&& after.my_piece == player_id
            &&& after.opponent_name == opponent_name
            &&& after.board.len() == 15
            &&& forall|r: int| 0 <= r < 15 ==> (#[trigger] after.board[r]).len() == 15
            &&& forall|r: int, c: int|
                0 <= r < 15 && 0 <= c < 15 ==> #[trigger] after.board[r][c] == Piece::Empty
            &&& after.turn == Piece::Black
            &&& after.winner is None
            &&& after == GameView {
                my_piece: after.my_piece,
                opponent_name: after.opponent_name,
                board: after.board,
                turn: after.turn,
                winner: after.winner,
                ..g
            }
            &&& action is Stay
        }),
{
}

/// A client that is told of a move fills that cell and no other, and the other
/// side is to move; all else stays.
pub proof fn law_client_fills_one_cell(g: GameView, r: usize, c: usize, p: Piece)
    requires
        r < 15,
        c < 15,
        g.board.len() == 15,
        forall|i: int| 0 <= i < 15 ==> (#[trigger] g.board[i]).len() == 15,
    ensures
        ({
            let (after, action) = told(g, Reply::UpdateBoard { r, c, p });
            &&& after.board.len() == 15
            &&& forall|i: int| 0 <= i < 15 ==> (#[trigger] after.board[i]).len() == 15
            &&& after.board[r as int][c as int] == p
            &&& forall|i: int, j: int|
                #![trigger after.board[i][j]]
                0 <= i < 15 && 0 <= j < 15 && (i != r || j != c) ==> after.board[i][j]
                    == g.board[i][j]
            &&& p == Piece::Black ==> after.turn == Piece::White
            &&& p != Piece::Black ==> after.turn == Piece::Black
            &&& after == GameView { board: after.board, turn: after.turn, ..g }
            &&& action is Stay
        }),
{
}

/// A client that is told who has won names itself exactly if the winner's side
/// is its own, black or white, and its opponent otherwise; all else stays.
pub proof fn law_client_names_the_winner(g: GameView, winner: Piece)
    ensures
        ({
            let (after, action) = told(g, Reply::GameOver { winner });
            &&& after.winner == Some("DONE"@)
            &&& winner == g.my_piece ==> after.winner_name == "YOU"@
            &&& winner != g.my_piece ==> after.winner_name == g.opponent_name
            &&& g.opponent_name != "YOU"@ ==> (after.winner_name == "YOU"@ <==> winner
                == g.my_piece)
            &&& after == GameView { winner: after.winner, winner_name: after.winner_name, ..g }
            &&& action is Stay
        }),
{
}

/// An error takes the client off the board with the text that it came with.
/// That the opponent is ready is noted. A greeting and the lists change
/// nothing.
pub proof fn law_client_takes_the_rest(g: GameView, reply: Reply)
    ensures
        ({
            let (after, action) = told(g, reply);
            &&& reply is Error ==> after == g && action == GameActionView::Fail(reply->Error_0)
            &&& reply is OpponentReady ==> after.opp_ready && after == (GameView {
                opp_ready: after.opp_ready,
                ..g
            })
            &&& reply is Welcome || reply is RoomList || reply is UserList ==> after == g
            &&& !(reply is Error) ==> action is Stay
        }),
{
}

/// The word for a rematch clears the board and the result and tells the server;
/// who plays which side, and all else, stays.
pub proof fn law_rematch_clears_the_board(g: GameView, text: String)
    requires
        text@ == "Rematch"@,
    ensures
        ({
            let (after, action) = rematch_chosen(g, Answer::Text(text));
            &&& action == GameActionView::Send(Request::Ready)
            &&& after.winner is None
            &&& after.ready
            &&& !after.opp_ready
            &&& after.board.len() == 15
            &&& forall|r: int| 0 <= r < 15 ==> (#[trigger] after.board[r]).len() == 15
            &&& forall|r: int, c: int|
                0 <= r < 15 && 0 <= c < 15 ==> #[trigger] after.board[r][c] == Piece::Empty
            &&& after == GameView {
                winner: after.winner,
                ready: after.ready,
                opp_ready: after.opp_ready,
                board: after.board,
                ..g
            }
        }),
{
}

/// Any other answer after a game leaves the room and changes nothing here.
pub proof fn law_no_rematch_leaves_the_room(g: GameView, answer: Answer)
    requires
        answer is Text ==> answer->Text_0@ != "Rematch"@,
    ensures
        rematch_chosen(g, answer).0 == g,
        rematch_chosen(g, answer).1 == GameActionView::Leave(Request::LeaveRoom),
{
}

proof fn lemma_heard_four(
    game: GameView,
    a: (usize, Reply),
    b: (usize, Reply),
    c: (usize, Reply),
    d: (usize, Reply),
    q: usize,
)
    ensures
        a.0 == q && b.0 == q && c.0 != q && d.0 != q ==> heard(game, seq![a, b, c, d], q) == told(
            told(game, a.1).0,
            b.1,
        ).0,
        a.0 != q && b.0 != q && c.0 == q && d.0 == q ==> heard(game, seq![a, b, c, d], q) == told(
            told(game, c.1).0,
            d.1,
        ).0,
{
    assert(seq![a, b, c, d].drop_last() =~= seq![a, b, c]);
    assert(seq![a, b, c].drop_last() =~= seq![a, b]);
    assert(seq![a, b].drop_last() =~= seq![a]);
    assert(seq![a].drop_last() =~= Seq::empty());
    reveal_with_fuel(heard, 5);
}

/// When a move completes a line of five, the client that made it sees that it
/// has won itself, and the other one sees the name of the client that made it.
pub proof fn law_both_see_who_has_won(
    pre: ServerView,
    id: usize,
    r: usize,
    c: usize,
    n: u16,
    post: ServerView,
    out: OutcomeView,
    rid: Seq<char>,
    seat: int,
    p: Piece,
    dr: int,
    dc: int,
    k: int,
    other: usize,
    own_game: GameView,
    other_game: GameView,
)
    requires
        handled(pre, id, Request::Move(r, c), n, post, out),
        to_move(pre, id, rid, seat, p, r, c),
        0 <= k <= 4,
        (dr, dc) == (0int, 1int) || (dr, dc) == (1int, 0int) || (dr, dc) == (1int, 1int) || (dr, dc)
            == (1int, -1int),
        forall|j: int|
            #![trigger pre.rooms[rid].board[r + dr * (j - k)][c + dc * (j - k)]]
            0 <= j <= 4 && j != k ==> {
                &&& 0 <= r + dr * (j - k) < 15
                &&& 0 <= c + dc * (j - k) < 15
                &&& pre.rooms[rid].board[r + dr * (j - k)][c + dc * (j - k)] == p
            },
        pre.rooms[rid].players.len() == 2,
        pre.rooms[rid].players[1 - seat] == other,
        other != id,
        own_game.my_piece == p,
        other_game.my_piece != p,
        other_game.opponent_name == pre.clients[id].name,
    ensures
        heard(own_game, out.sends, id).winner is Some,
        heard(own_game, out.sends, id).winner_name == "YOU"@,
        heard(other_game, out.sends, other).winner is Some,
        heard(other_game, out.sends, other).winner_name == pre.clients[id].name,
{
    law_line_of_five_ends_the_game(pre, id, r, c, n, post, out, rid, seat, p, dr, dc, k);
    let players = pre.rooms[rid].players;
    let move_reply = Reply::UpdateBoard { r, c, p };
    let over = Reply::GameOver { winner: p };
    let a = (players[0], move_reply);
    let b = (players[0], over);
    let d = (players[1], move_reply);
    let e = (players[1], over);
    assert(out.sends[0] == a && out.sends[1] == b);
    assert(out.sends[2] == d && out.sends[3] == e);
    assert(out.sends =~= seq![a, b, d, e]);
    lemma_heard_four(own_game, a, b, d, e, id);
    lemma_heard_four(other_game, a, b, d, e, other);
    law_client_names_the_winner(told(own_game, move_reply).0, p);
    law_client_names_the_winner(told(other_game, move_reply).0, p);
}

/// A game is well formed exactly if its board has fifteen rows and columns and
/// the cursor is on it.
pub proof fn law_well_formed_game(g: GameView)
    ensures
        g.wf() <==> {
            &&& g.board.len() == 15
            &&& forall|r: int| 0 <= r < 15 ==> (#[trigger] g.board[r]).len() == 15
            &&& g.cursor.0 < 15
            &&& g.cursor.1 < 15
        },
{
}

} // verus!
