//! The client's screens, which look like the log of some other program.

use vstd::prelude::*;
use vstd::string::StringExecFns;

use crate::board::{Piece, BOARD_SIZE};
use crate::game::{quits, GameState, GameView, Key, KeyPress};
use crate::outside::{is_clock, is_stamp, local_time, random_u16, random_u32};
use crate::text::{decimal, decimal_text, hex, hex_text, zero_pad, zero_padded};

verus! {

/// A line of the log: when, and what.
pub open spec fn log_line(now: Seq<char>, text: Seq<char>) -> Seq<char> {
    "["@ + now + "] "@ + text + "\n"@
}

/// How a cell shows.
pub open spec fn symbol(p: Piece) -> Seq<char> {
    match p {
        Piece::Empty => "."@,
        Piece::Black => "1"@,
        Piece::White => "0"@,
    }
}

/// The cell in row `r` and column `c`, inverted under the cursor.
pub open spec fn cell_text(g: GameView, r: int, c: int) -> Seq<char> {
    let shown = symbol(g.board[r][c]);
    (if r == g.cursor.0 && c == g.cursor.1 {
        "\x1b[7m"@ + shown + "\x1b[0m"@
    } else {
        shown
    }) + "  "@
}

/// The first `n` cells of row `r`.
pub open spec fn cells_text(g: GameView, r: int, n: nat) -> Seq<char>
    decreases n,
{
    if n == 0 {
        Seq::empty()
    } else {
        cells_text(g, r, (n - 1) as nat) + cell_text(g, r, n - 1)
    }
}

/// Row `r` of the board.
pub open spec fn row_text(g: GameView, r: int) -> Seq<char> {
    "[DEBUG] HEX_DATA_SEGMENT_0x"@ + hex((0xE000 + r * 16) as nat) + " | op_"@ + zero_padded(
        decimal(r as nat),
        2,
    ) + " | "@ + cells_text(g, r, BOARD_SIZE as nat) + "| ck_"@ + zero_padded(
        hex((r * 7 + 0xA1) as nat),
        2,
    )
}

/// The first `n` rows of the board.
pub open spec fn rows_text(now: Seq<char>, g: GameView, n: nat) -> Seq<char>
    decreases n,
{
    if n == 0 {
        Seq::empty()
    } else {
        rows_text(now, g, (n - 1) as nat) + log_line(now, row_text(g, n - 1))
    }
}

/// How the game stands.
pub open spec fn status_text(g: GameView) -> Seq<char> {
    if g.winner is Some {
        "[WARN] SESSION_DONE: WINNER_NAME: "@ + g.winner_name + " (Input Required)   "@
    } else if g.my_piece == Piece::Empty {
        "[IDLE] NetStack: Awaiting peer connection...   "@
    } else {
        "[TRACE] EventDispatcher: State="@ + (if g.turn == g.my_piece {
            "LOCAL_IO_FOCUS"@
        } else {
            "REMOTE_POLL_WAIT"@
        }) + " | Piece: "@ + (if g.my_piece == Piece::Black {
            "1"@
        } else {
            "0"@
        }) + "   "@
    }
}

/// The whole screen of a game at the time `now`.
pub open spec fn frame(now: Seq<char>, g: GameView) -> Seq<char> {
    log_line(now, "[SYS] Kernel_Init: 0xBC00 | Node: ONLINE | RID: "@ + g.room_id) + log_line(
        now,
        "[INFO] Thread_Pool: READY | Master_Signal: STABLE"@,
    ) + rows_text(now, g, BOARD_SIZE as nat) + "\r\n"@ + log_line(now, status_text(g)) + log_line(
        now,
        "[INFO] Identity_Auth: LOCAL_NODE<"@ + g.my_name + "> <-> PEER_NODE<"@ + g.opponent_name
            + ">   "@,
    ) + log_line(now, "[INFO] Background worker active. Press ESC for diag logs."@)
}

/// The screen that hides a game from the time `now` on.
pub open spec fn stealth_screen(
    now: Seq<char>,
    server: Seq<char>,
    token: u32,
    node: u16,
) -> Seq<char> {
    log_line(now, "[SYS] Initializing kernel subsystems..."@) + log_line(
        now,
        "[INFO] Established connection to gateway: "@ + server,
    ) + log_line(
        now,
        "[DEBUG] Handshake protocol v2.4 verified. (0x"@ + hex(token as nat) + ")"@,
    ) + log_line(now, "[INFO] Node status: ONLINE | NodeID: 0x"@ + hex(node as nat)) + log_line(
        now,
        "[TRACE] Raw packet capture sequence synchronized."@,
    )
        + "\n(Active session monitoring... Press ESC to resume debugging context.)\n"@
}

/// The address that shows while none is known.
pub open spec fn shown_addr(addr: Option<&str>) -> Seq<char> {
    match addr {
        Some(addr) => addr@,
        None => "127.0.0.1:8080"@,
    }
}

fn push_line(buf: &mut String, now: &str, text: &str)
    ensures
        final(buf)@ == old(buf)@ + log_line(now@, text@),
{
    buf.append("[");
    buf.append(now);
    buf.append("] ");
    buf.append(text);
    buf.append("\n");
    assert(buf@ =~= old(buf)@ + log_line(now@, text@));
}

fn push_cell(buf: &mut String, state: &GameState, r: usize, c: usize)
    requires
        r < BOARD_SIZE,
        c < BOARD_SIZE,
    ensures
        final(buf)@ == old(buf)@ + cell_text(state@, r as int, c as int),
{
    let shown = match state.board[r][c] {
        Piece::Empty => ".",
        Piece::Black => "1",
        Piece::White => "0",
    };
    assert(shown@ == symbol(state@.board[r as int][c as int]));
    if r == state.cursor.0 && c == state.cursor.1 {
        buf.append("\x1b[7m");
        buf.append(shown);
        buf.append("\x1b[0m");
    } else {
        buf.append(shown);
    }
    buf.append("  ");
    assert(buf@ =~= old(buf)@ + cell_text(state@, r as int, c as int));
}

fn row(state: &GameState, r: usize) -> (text: String)
    requires
        r < BOARD_SIZE,
    ensures
        text@ == row_text(state@, r as int),
{
    let mut cells = String::new();
    let mut c: usize = 0;
    while c < BOARD_SIZE
        invariant
            r < BOARD_SIZE,
            c <= BOARD_SIZE,
            cells@ == cells_text(state@, r as int, c as nat),
        decreases BOARD_SIZE - c,
    {
        push_cell(&mut cells, state, r, c);
        c = c + 1;
    }
    let mut text = "[DEBUG] HEX_DATA_SEGMENT_0x".to_owned();
    text.append(hex_text(0xE000 + r as u64 * 16).as_str());
    text.append(" | op_");
    text.append(zero_pad(&decimal_text(r as u64), 2).as_str());
    text.append(" | ");
    text.append(cells.as_str());
    text.append("| ck_");
    text.append(zero_pad(&hex_text(r as u64 * 7 + 0xA1), 2).as_str());
    text
}

fn status(state: &GameState) -> (text: String)
    ensures
        text@ == status_text(state@),
{
    if state.winner.is_some() {
        let mut text = "[WARN] SESSION_DONE: WINNER_NAME: ".to_owned();
        text.append(state.winner_name.as_str());
        text.append(" (Input Required)   ");
        text
    } else if state.my_piece == Piece::Empty {
        "[IDLE] NetStack: Awaiting peer connection...   ".to_owned()
    } else {
        let mut text = "[TRACE] EventDispatcher: State=".to_owned();
        text.append(
            if state.turn == state.my_piece {
                "LOCAL_IO_FOCUS"
            } else {
                "REMOTE_POLL_WAIT"
            },
        );
        text.append(" | Piece: ");
        text.append(
            if state.my_piece == Piece::Black {
                "1"
            } else {
                "0"
            },
        );
        text.append("   ");
        text
    }
}

/// Draws a game as of the time `now`.
pub fn game_screen(now: &str, state: &GameState) -> (screen: String)
    ensures
        screen@ == frame(now@, state@),
{
    let mut buf = String::new();
    let mut head = "[SYS] Kernel_Init: 0xBC00 | Node: ONLINE | RID: ".to_owned();
    head.append(state.room_id.as_str());
    push_line(&mut buf, now, head.as_str());
    push_line(&mut buf, now, "[INFO] Thread_Pool: READY | Master_Signal: STABLE");
    let ghost top = buf@;
    assert(top =~= log_line(
        now@,
        "[SYS] Kernel_Init: 0xBC00 | Node: ONLINE | RID: "@ + state.room_id@,
    ) + log_line(now@, "[INFO] Thread_Pool: READY | Master_Signal: STABLE"@));
    assert(buf@ =~= top + rows_text(now@, state@, 0));
    let mut r: usize = 0;
    while r < BOARD_SIZE
        invariant
            r <= BOARD_SIZE,
            buf@ == top + rows_text(now@, state@, r as nat),
        decreases BOARD_SIZE - r,
    {
        push_line(&mut buf, now, row(state, r).as_str());
        r = r + 1;
        assert(buf@ =~= top + rows_text(now@, state@, r as nat));
    }
    buf.append("\r\n");
    push_line(&mut buf, now, status(state).as_str());
    let mut names = "[INFO] Identity_Auth: LOCAL_NODE<".to_owned();
    names.append(state.my_name.as_str());
    names.append("> <-> PEER_NODE<");
    names.append(state.opponent_name.as_str());
    names.append(">   ");
    push_line(&mut buf, now, names.as_str());
    push_line(&mut buf, now, "[INFO] Background worker active. Press ESC for diag logs.");
    assert(buf@ =~= frame(now@, state@));
    buf
}

/// Draws a game as of the local time.
pub fn draw_game_fast(state: &GameState) -> (screen: String)
    ensures
        exists|now: Seq<char>| is_clock(now) && screen@ == #[trigger] frame(now, state@),
{
    let now = local_time("%H:%M:%S");
    game_screen(now.as_str(), state)
}

/// Draws the screen that hides a game.
pub fn stealth_text(now: &str, server: &str, token: u32, node: u16) -> (screen: String)
    ensures
        screen@ == stealth_screen(now@, server@, token, node),
{
    let mut buf = String::new();
    push_line(&mut buf, now, "[SYS] Initializing kernel subsystems...");
    let mut gateway = "[INFO] Established connection to gateway: ".to_owned();
    gateway.append(server);
    push_line(&mut buf, now, gateway.as_str());
    let mut handshake = "[DEBUG] Handshake protocol v2.4 verified. (0x".to_owned();
    handshake.append(hex_text(token as u64).as_str());
    handshake.append(")");
    push_line(&mut buf, now, handshake.as_str());
    let mut status = "[INFO] Node status: ONLINE | NodeID: 0x".to_owned();
    status.append(hex_text(node as u64).as_str());
    push_line(&mut buf, now, status.as_str());
    push_line(&mut buf, now, "[TRACE] Raw packet capture sequence synchronized.");
    buf.append("\n(Active session monitoring... Press ESC to resume debugging context.)\n");
    assert(buf@ =~= stealth_screen(now@, server@, token, node));
    buf
}

/// The address to show and to suggest while none is known.
pub fn default_addr() -> (addr: &'static str)
    ensures
        addr@ == shown_addr(None),
{
    "127.0.0.1:8080"
}

/// Draws the screen that hides a game, as of the local time and with random
/// numbers.
pub fn show_stealth_mode(addr: Option<&str>) -> (screen: String)
    ensures
        exists|now: Seq<char>, token: u32, node: u16|
            is_stamp(now) && screen@ == #[trigger] stealth_screen(
                now,
                shown_addr(addr),
                token,
                node,
            ),
{
    let server = match addr {
        Some(addr) => addr,
        None => default_addr(),
    };
    let now = local_time("%Y-%m-%d %H:%M:%S");
    let token: u32 = random_u32();
    let node: u16 = random_u16();
    let screen = stealth_text(now.as_str(), server, token, node);
    assert(screen@ == stealth_screen(now@, shown_addr(addr), token, node));
    screen
}

/// What a key does while the game is hidden.
#[derive(Debug, Clone, Copy, PartialEq, Eq, Structural)]
pub enum StealthAction {
    /// Stay hidden.
    Wait,
    /// Go back to where the user was.
    Resume,
    /// Quit.
    Exit,
}

/// The user has pressed a key while the game is hidden.
pub fn on_stealth_key(press: KeyPress) -> (action: StealthAction)
    ensures
        action == if !press.pressed {
            StealthAction::Wait
        } else if press.key == Key::Esc {
            StealthAction::Resume
        } else if quits(press) {
            StealthAction::Exit
        } else {
            StealthAction::Wait
        },
{
    if !press.pressed {
        StealthAction::Wait
    } else if press.key == Key::Esc {
        StealthAction::Resume
    } else if press.key == Key::Char('c') && press.control {
        StealthAction::Exit
    } else {
        StealthAction::Wait
    }
}

} // verus!
