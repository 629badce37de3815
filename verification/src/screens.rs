//! What can be read off the client's screens.

use vstd::prelude::*;

use crate::board::Piece;
use crate::game::GameView;
use crate::outside::{is_clock, is_digit, is_stamp, two_digits};
use crate::render::{
    cell_text, cells_text, frame, log_line, row_text, rows_text, shown_addr, status_text,
    stealth_screen,
};
use crate::text::{
    decimal, hex, law_decimal_reads_back, law_filling_up_adds_zeros_in_front, law_hex_reads_back,
    number, value, zero_padded,
};

verus! {

/// The character for a cell.
pub open spec fn mark(p: Piece) -> char {
    match p {
        Piece::Empty => '.',
        Piece::Black => '1',
        Piece::White => '0',
    }
}

/// Of a cell the screen shows a dot, a one or a zero as it is empty, black or
/// white, and two blanks. Under the cursor it shows the same between the two
/// sequences that invert a character.
pub proof fn law_cell_shows_its_piece(g: GameView, r: int, c: int)
    ensures
        ({
            let p = g.board[r][c];
            let ch = if p == Piece::Empty {
                '.'
            } else if p == Piece::Black {
                '1'
            } else {
                '0'
            };
            &&& r == g.cursor.0 && c == g.cursor.1 ==> cell_text(g, r, c)
                == seq!['\x1b', '[', '7', 'm', ch, '\x1b', '[', '0', 'm', ' ', ' ']
            &&& r != g.cursor.0 || c != g.cursor.1 ==> cell_text(g, r, c) == seq![ch, ' ', ' ']
        }),
{
    reveal_strlit(".");
    reveal_strlit("1");
    reveal_strlit("0");
    reveal_strlit("  ");
    reveal_strlit("\x1b[7m");
    reveal_strlit("\x1b[0m");
    let p = g.board[r][c];
    let ch = mark(p);
    if r == g.cursor.0 && c == g.cursor.1 {
        assert(cell_text(g, r, c)
            =~= seq!['\x1b', '[', '7', 'm', ch, '\x1b', '[', '0', 'm', ' ', ' ']);
    } else {
        assert(cell_text(g, r, c) =~= seq![ch, ' ', ' ']);
    }
}

/// Where the piece in column `c` of row `r` stands in the text of the row's
/// cells: three characters for each cell before it, and the two sequences that
/// mark the cursor.
pub open spec fn place_in_row(g: GameView, r: int, c: int) -> int {
    if r == g.cursor.0 && c > g.cursor.1 {
        3 * c + 8
    } else if r == g.cursor.0 && c == g.cursor.1 {
        3 * c + 4
    } else {
        3 * c
    }
}

proof fn lemma_cells(g: GameView, r: int, n: nat)
    ensures
        cells_text(g, r, n).len() == 3 * n + if r == g.cursor.0 && n > g.cursor.1 {
            8int
        } else {
            0
        },
        forall|c: int|
            #![trigger g.board[r][c]]
            0 <= c < n ==> place_in_row(g, r, c) < cells_text(g, r, n).len() && cells_text(
                g,
                r,
                n,
            )[place_in_row(g, r, c)] == mark(g.board[r][c]),
    decreases n,
{
    if n > 0 {
        lemma_cells(g, r, (n - 1) as nat);
        law_cell_shows_its_piece(g, r, n - 1);
        let front = cells_text(g, r, (n - 1) as nat);
        let all = cells_text(g, r, n);
        assert forall|c: int|
            #![trigger g.board[r][c]]
            0 <= c < n implies place_in_row(g, r, c) < all.len() && all[place_in_row(g, r, c)]
            == mark(g.board[r][c]) by {
            if c < n - 1 {
                assert(all[place_in_row(g, r, c)] == front[place_in_row(g, r, c)]);
            } else {
                let k = place_in_row(g, r, c) - front.len();
                assert(all[place_in_row(g, r, c)] == cell_text(g, r, n - 1)[k]);
            }
        }
    }
}

/// Every cell of a row shows in its place, the cursor in the row or not.
pub proof fn law_row_shows_every_cell(g: GameView, r: int, c: int)
    requires
        0 <= c < 15,
        g.cursor.1 < 15,
    ensures
        ({
            let text = cells_text(g, r, 15);
            let p = g.board[r][c];
            let at = place_in_row(g, r, c);
            &&& r == g.cursor.0 ==> text.len() == 53
            &&& r != g.cursor.0 ==> text.len() == 45
            &&& 0 <= at < text.len()
            &&& p == Piece::Empty <==> text[at] == '.'
            &&& p == Piece::Black <==> text[at] == '1'
            &&& p == Piece::White <==> text[at] == '0'
        }),
{
    lemma_cells(g, r, 15);
}

/// The parts of the text of a row that number it: a number in base sixteen that
/// goes up by sixteen from row to row, the row in two decimal digits, and a
/// number in base sixteen that goes up by seven.
pub proof fn law_row_is_numbered(g: GameView, r: int) -> (parts: (
    Seq<char>,
    Seq<char>,
    Seq<char>,
))
    requires
        0 <= r < 15,
    ensures
        row_text(g, r) == "[DEBUG] HEX_DATA_SEGMENT_0x"@ + parts.0 + " | op_"@ + parts.1 + " | "@
            + cells_text(g, r, 15) + "| ck_"@ + parts.2,
        number(parts.0, 16) == 0xE000 + 16 * r,
        parts.0[0] != '0',
        number(parts.1, 10) == r,
        parts.1.len() == 2,
        number(parts.2, 16) == 0xA1 + 7 * r,
        parts.2[0] != '0',
{
    let a = hex((0xE000 + r * 16) as nat);
    let b = zero_padded(decimal(r as nat), 2);
    let c = zero_padded(hex((r * 7 + 0xA1) as nat), 2);
    law_hex_reads_back((0xE000 + r * 16) as nat);
    law_decimal_reads_back(r as nat);
    law_hex_reads_back((r * 7 + 0xA1) as nat);
    law_filling_up_adds_zeros_in_front(decimal(r as nat), 2);
    reveal_with_fuel(decimal, 3);
    reveal_with_fuel(hex, 3);
    assert(hex((r * 7 + 0xA1) as nat).len() >= 2);
    (a, b, c)
}

/// The rows show one below the other, each in a line with the time in front.
pub proof fn law_rows_show_in_order(now: Seq<char>, g: GameView, n: nat)
    ensures
        rows_text(now, g, 0).len() == 0,
        rows_text(now, g, n + 1) == rows_text(now, g, n) + "["@ + now + "] "@ + row_text(
            g,
            n as int,
        ) + "\n"@,
{
    assert(rows_text(now, g, n + 1) =~= rows_text(now, g, n) + "["@ + now + "] "@ + row_text(
        g,
        n as int,
    ) + "\n"@);
}

/// A game shows as a line with its room, a line that never changes, the fifteen
/// rows, a line on how it stands, a line with both names and a line with a
/// hint, each with the time in front.
pub proof fn law_screen_shows_the_game(now: Seq<char>, g: GameView)
    ensures
        frame(now, g) == ("["@ + now + "] "@ + (
        "[SYS] Kernel_Init: 0xBC00 | Node: ONLINE | RID: "@ + g.room_id) + "\n"@) + ("["@ + now
            + "] "@ + "[INFO] Thread_Pool: READY | Master_Signal: STABLE"@ + "\n"@) + rows_text(
            now,
            g,
            15,
        ) + "\r\n"@ + ("["@ + now + "] "@ + status_text(g) + "\n"@) + ("["@ + now + "] "@ + (
        "[INFO] Identity_Auth: LOCAL_NODE<"@ + g.my_name + "> <-> PEER_NODE<"@ + g.opponent_name
            + ">   "@) + "\n"@) + ("["@ + now + "] "@
            + "[INFO] Background worker active. Press ESC for diag logs."@ + "\n"@),
{
}

/// How a game stands: after it the winner's name; before it that nobody is
/// there; and during it whose turn it is and which side the client plays.
pub proof fn law_status_tells_how_it_stands(g: GameView)
    ensures
        g.winner is Some ==> status_text(g) == "[WARN] SESSION_DONE: WINNER_NAME: "@
            + g.winner_name + " (Input Required)   "@,
        g.winner is None && g.my_piece == Piece::Empty ==> status_text(g)
            == "[IDLE] NetStack: Awaiting peer connection...   "@,
        g.winner is None && g.my_piece == Piece::Black && g.turn == Piece::Black ==> status_text(g)
            == "[TRACE] EventDispatcher: State="@ + "LOCAL_IO_FOCUS"@ + " | Piece: "@ + "1"@
            + "   "@,
        g.winner is None && g.my_piece == Piece::Black && g.turn != Piece::Black ==> status_text(g)
            == "[TRACE] EventDispatcher: State="@ + "REMOTE_POLL_WAIT"@ + " | Piece: "@ + "1"@
            + "   "@,
        g.winner is None && g.my_piece == Piece::White && g.turn == Piece::White ==> status_text(g)
            == "[TRACE] EventDispatcher: State="@ + "LOCAL_IO_FOCUS"@ + " | Piece: "@ + "0"@
            + "   "@,
        g.winner is None && g.my_piece == Piece::White && g.turn != Piece::White ==> status_text(g)
            == "[TRACE] EventDispatcher: State="@ + "REMOTE_POLL_WAIT"@ + " | Piece: "@ + "0"@
            + "   "@,
{
}

/// The two numbers on the screen that hides a game read back as those that it
/// was drawn with: the texts of both.
pub proof fn law_hiding_screen_shows_its_numbers(
    now: Seq<char>,
    server: Seq<char>,
    token: u32,
    node: u16,
) -> (parts: (Seq<char>, Seq<char>))
    ensures
        number(parts.0, 16) == token,
        parts.0.len() > 1 ==> parts.0[0] != '0',
        number(parts.1, 16) == node,
        parts.1.len() > 1 ==> parts.1[0] != '0',
        stealth_screen(now, server, token, node) == ("["@ + now + "] "@
            + "[SYS] Initializing kernel subsystems..."@ + "\n"@) + ("["@ + now + "] "@ + (
        "[INFO] Established connection to gateway: "@ + server) + "\n"@) + ("["@ + now + "] "@ + (
        "[DEBUG] Handshake protocol v2.4 verified. (0x"@ + parts.0 + ")"@) + "\n"@) + ("["@ + now
            + "] "@ + ("[INFO] Node status: ONLINE | NodeID: 0x"@ + parts.1) + "\n"@) + ("["@ + now
            + "] "@ + "[TRACE] Raw packet capture sequence synchronized."@ + "\n"@)
            + "\n(Active session monitoring... Press ESC to resume debugging context.)\n"@,
{
    law_hex_reads_back(token as nat);
    law_hex_reads_back(node as nat);
    (hex(token as nat), hex(node as nat))
}

/// An address that is known shows as it is.
pub proof fn law_known_address_shows(addr: &str)
    ensures
        shown_addr(Some(addr)) == addr@,
        shown_addr(None) == "127.0.0.1:8080"@,
{
}

/// Of two texts that are the same and begin with parts of the same length, the
/// parts are the same, and so is what follows.
proof fn lemma_same_length_parts(a: Seq<char>, b: Seq<char>, x: Seq<char>, y: Seq<char>)
    requires
        a + x == b + y,
        a.len() == b.len(),
    ensures
        a == b,
        x == y,
{
    assert((a + x).take(a.len() as int) =~= a);
    assert((b + y).take(b.len() as int) =~= b);
    assert((a + x).skip(a.len() as int) =~= x);
    assert((b + y).skip(b.len() as int) =~= y);
}

proof fn lemma_row_parts(g: GameView, h: GameView, r: int)
    requires
        g.cursor == h.cursor,
    ensures
        row_text(g, r).len() == row_text(h, r).len(),
        row_text(g, r) == row_text(h, r) ==> cells_text(g, r, 15) == cells_text(h, r, 15),
{
    lemma_cells(g, r, 15);
    lemma_cells(h, r, 15);
    let head = "[DEBUG] HEX_DATA_SEGMENT_0x"@ + hex((0xE000 + r * 16) as nat) + " | op_"@
        + zero_padded(decimal(r as nat), 2) + " | "@;
    let tail = "| ck_"@ + zero_padded(hex((r * 7 + 0xA1) as nat), 2);
    assert(row_text(g, r) =~= head + (cells_text(g, r, 15) + tail));
    assert(row_text(h, r) =~= head + (cells_text(h, r, 15) + tail));
    if row_text(g, r) == row_text(h, r) {
        lemma_same_length_parts(
            head,
            head,
            cells_text(g, r, 15) + tail,
            cells_text(h, r, 15) + tail,
        );
        lemma_same_length_parts(cells_text(g, r, 15), cells_text(h, r, 15), tail, tail);
    }
}

proof fn lemma_rows_differ(now: Seq<char>, g: GameView, h: GameView, n: nat, r: int)
    requires
        g.cursor == h.cursor,
    ensures
        rows_text(now, g, n).len() == rows_text(now, h, n).len(),
        rows_text(now, g, n) == rows_text(now, h, n) && 0 <= r < n ==> row_text(g, r) == row_text(
            h,
            r,
        ),
    decreases n,
{
    if n > 0 {
        let m = (n - 1) as nat;
        lemma_rows_differ(now, g, h, m, r);
        lemma_row_parts(g, h, n - 1);
        if rows_text(now, g, n) == rows_text(now, h, n) {
            let a = log_line(now, row_text(g, n - 1));
            let b = log_line(now, row_text(h, n - 1));
            lemma_same_length_parts(rows_text(now, g, m), rows_text(now, h, m), a, b);
            let head = "["@ + now + "] "@;
            assert(a =~= head + (row_text(g, n - 1) + "\n"@));
            assert(b =~= head + (row_text(h, n - 1) + "\n"@));
            lemma_same_length_parts(
                head,
                head,
                row_text(g, n - 1) + "\n"@,
                row_text(h, n - 1) + "\n"@,
            );
            lemma_same_length_parts(row_text(g, n - 1), row_text(h, n - 1), "\n"@, "\n"@);
        }
    }
}

/// The screen shows the board: two games that differ in a cell, and in nothing
/// but the board, do not look the same at any time.
#[verifier::rlimit(50)]
pub proof fn law_different_boards_look_different(
    now: Seq<char>,
    g: GameView,
    h: GameView,
    r: int,
    c: int,
)
    requires
        0 <= r < 15,
        0 <= c < 15,
        g.cursor.1 < 15,
        g == (GameView { board: g.board, ..h }),
        g.board[r][c] != h.board[r][c],
    ensures
        frame(now, g) != frame(now, h),
{
    if frame(now, g) == frame(now, h) {
        let head = log_line(now, "[SYS] Kernel_Init: 0xBC00 | Node: ONLINE | RID: "@ + g.room_id)
            + log_line(now, "[INFO] Thread_Pool: READY | Master_Signal: STABLE"@);
        let tail = "\r\n"@ + log_line(now, status_text(g)) + log_line(
            now,
            "[INFO] Identity_Auth: LOCAL_NODE<"@ + g.my_name + "> <-> PEER_NODE<"@
                + g.opponent_name + ">   "@,
        ) + log_line(now, "[INFO] Background worker active. Press ESC for diag logs."@);
        let a = rows_text(now, g, 15);
        let b = rows_text(now, h, 15);
        assert(frame(now, g) =~= head + (a + tail));
        assert(frame(now, h) =~= head + (b + tail));
        lemma_same_length_parts(head, head, a + tail, b + tail);
        lemma_rows_differ(now, g, h, 15, r);
        lemma_same_length_parts(a, b, tail, tail);
        lemma_row_parts(g, h, r);
        law_row_shows_every_cell(g, r, c);
        law_row_shows_every_cell(h, r, c);
        assert(place_in_row(g, r, c) == place_in_row(h, r, c));
        assert(mark(g.board[r][c]) == mark(h.board[r][c]));
    }
}

proof fn lemma_two_digits(s: Seq<char>, i: int, low: int, high: int)
    requires
        0 <= i,
        i + 2 <= s.len(),
        two_digits(s, i, low, high),
    ensures
        low <= number(s.subrange(i, i + 2), 10) <= high,
{
    let part = s.subrange(i, i + 2);
    assert(part.drop_last().drop_last() =~= Seq::empty());
    reveal_with_fuel(number, 3);
    assert(number(part.drop_last(), 10) == value(s[i]));
    assert(number(part, 10) == 10 * value(s[i]) + value(s[i + 1]));
}

/// A clock reads as hour, minute and second, two digits each, with colons in
/// between.
pub proof fn law_clock_reads_as_a_time(s: Seq<char>)
    requires
        is_clock(s),
    ensures
        s.len() == 8,
        0 <= number(s.subrange(0, 2), 10) < 24,
        s[2] == ':',
        0 <= number(s.subrange(3, 5), 10) < 60,
        s[5] == ':',
        0 <= number(s.subrange(6, 8), 10) <= 60,
{
    lemma_two_digits(s, 0, 0, 23);
    lemma_two_digits(s, 3, 0, 59);
    lemma_two_digits(s, 6, 0, 60);
}

/// A stamp reads as a year, a month, a day and a clock.
pub proof fn law_stamp_reads_as_a_date(s: Seq<char>)
    requires
        is_stamp(s),
    ensures
        s.len() >= 19,
        s[s.len() - 15] == '-',
        1 <= number(s.subrange(s.len() - 14, s.len() - 12), 10) <= 12,
        s[s.len() - 12] == '-',
        1 <= number(s.subrange(s.len() - 11, s.len() - 9), 10) <= 31,
        s[s.len() - 9] == ' ',
        is_clock(s.skip(s.len() - 8)),
        s.len() == 19 ==> 0 <= number(s.take(4), 10) <= 9999,
{
    let n = s.len() as int;
    lemma_two_digits(s, n - 14, 1, 12);
    lemma_two_digits(s, n - 11, 1, 31);
    if n == 19 {
        let year = s.take(4);
        assert(year =~= s.take(n - 15));
        assert(is_digit(year[0]) && is_digit(year[1]) && is_digit(year[2]) && is_digit(year[3]));
        let a = year.drop_last();
        let b = a.drop_last();
        let c = b.drop_last();
        assert(c.drop_last() =~= Seq::empty());
        assert(number(c.drop_last(), 10) == 0);
        assert(number(c, 10) == value(year[0]));
        assert(number(b, 10) == 10 * number(c, 10) + value(year[1]));
        assert(number(a, 10) == 10 * number(b, 10) + value(year[2]));
        assert(number(year, 10) == 10 * number(a, 10) + value(year[3]));
    }
}

} // verus!
