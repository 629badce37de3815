use gcli::board::Piece;
use gcli::game::{GameState, Key, KeyPress};
use gcli::protocol::ServerMsg;
use gcli::render::{
    default_addr, draw_game_fast, game_screen, on_stealth_key, show_stealth_mode, stealth_text,
    StealthAction,
};
use gcli::text::{decimal_text, hex_text, zero_pad};

fn number(s: &str) -> u32 {
    s.parse().unwrap()
}

fn is_clock(s: &str) -> bool {
    s.len() == 8
        && number(&s[0..2]) <= 23
        && number(&s[3..5]) <= 59
        && number(&s[6..8]) <= 60
        && s.char_indices().all(|(i, c)| if i % 3 == 2 { c == ':' } else { c.is_ascii_digit() })
}

#[test]
fn numbers_are_written_without_leading_zeros() {
    assert_eq!(decimal_text(0), "0");
    assert_eq!(decimal_text(10), "10");
    assert_eq!(decimal_text(u64::MAX), "18446744073709551615");
    assert_eq!(hex_text(0), "0");
    assert_eq!(hex_text(0xDEADBEEF), "DEADBEEF");
    assert_eq!(hex_text(0x103), "103");
}

#[test]
fn padding_fills_but_does_not_cut() {
    assert_eq!(zero_pad(&"7".to_string(), 2), "07");
    assert_eq!(zero_pad(&"103".to_string(), 2), "103");
    assert_eq!(zero_pad(&"".to_string(), 3), "000");
    assert_eq!(zero_pad(&"x".to_string(), 0), "x");
}

#[test]
fn the_screen_of_a_game_that_waits() {
    let game = GameState::new("ann".to_string());
    let screen = game_screen("12:34:56", &game);
    let lines: Vec<&str> = screen.split('\n').collect();
    assert_eq!(lines.len(), 22);
    assert_eq!(lines[0], "[12:34:56] [SYS] Kernel_Init: 0xBC00 | Node: ONLINE | RID: ");
    assert_eq!(lines[1], "[12:34:56] [INFO] Thread_Pool: READY | Master_Signal: STABLE");
    assert_eq!(
        lines[2],
        "[12:34:56] [DEBUG] HEX_DATA_SEGMENT_0xE000 | op_00 | \
         .  .  .  .  .  .  .  .  .  .  .  .  .  .  .  | ck_A1"
    );
    assert_eq!(
        lines[9],
        "[12:34:56] [DEBUG] HEX_DATA_SEGMENT_0xE070 | op_07 | \
         .  .  .  .  .  .  .  \x1b[7m.\x1b[0m  .  .  .  .  .  .  .  | ck_D2"
    );
    assert_eq!(
        lines[16],
        "[12:34:56] [DEBUG] HEX_DATA_SEGMENT_0xE0E0 | op_14 | \
         .  .  .  .  .  .  .  .  .  .  .  .  .  .  .  | ck_103"
    );
    assert_eq!(lines[17], "\r");
    assert_eq!(lines[18], "[12:34:56] [IDLE] NetStack: Awaiting peer connection...   ");
    assert_eq!(
        lines[19],
        "[12:34:56] [INFO] Identity_Auth: LOCAL_NODE<ann> <-> PEER_NODE<Waiting...>   "
    );
    assert_eq!(
        lines[20],
        "[12:34:56] [INFO] Background worker active. Press ESC for diag logs."
    );
    assert_eq!(lines[21], "");
}

#[test]
fn the_screen_of_a_game_under_way() {
    let mut game = GameState::new("ann".to_string());
    game.on_server_msg(ServerMsg::RoomJoined("0042".to_string()));
    game.on_server_msg(ServerMsg::GameStart {
        player_id: Piece::White,
        opponent_name: "bob".to_string(),
    });
    let status = |game: &GameState| game_screen("t", game).split('\n').nth(18).unwrap().to_string();
    assert_eq!(status(&game), "[t] [TRACE] EventDispatcher: State=REMOTE_POLL_WAIT | Piece: 0   ");
    game.on_server_msg(ServerMsg::UpdateBoard { r: 0, c: 0, p: Piece::Black });
    assert_eq!(status(&game), "[t] [TRACE] EventDispatcher: State=LOCAL_IO_FOCUS | Piece: 0   ");
    game.on_server_msg(ServerMsg::UpdateBoard { r: 0, c: 14, p: Piece::White });
    let screen = game_screen("t", &game);
    let lines: Vec<&str> = screen.split('\n').collect();
    assert_eq!(lines[0], "[t] [SYS] Kernel_Init: 0xBC00 | Node: ONLINE | RID: 0042");
    assert_eq!(
        lines[2],
        "[t] [DEBUG] HEX_DATA_SEGMENT_0xE000 | op_00 | \
         1  .  .  .  .  .  .  .  .  .  .  .  .  .  0  | ck_A1"
    );
    game.on_server_msg(ServerMsg::GameOver { winner: Piece::Black });
    assert_eq!(
        status(&game),
        "[t] [WARN] SESSION_DONE: WINNER_NAME: bob (Input Required)   "
    );
    game.on_server_msg(ServerMsg::GameStart {
        player_id: Piece::Black,
        opponent_name: "bob".to_string(),
    });
    assert_eq!(status(&game), "[t] [TRACE] EventDispatcher: State=LOCAL_IO_FOCUS | Piece: 1   ");
}

#[test]
fn a_game_is_drawn_at_the_local_time() {
    let game = GameState::new("ann".to_string());
    let screen = draw_game_fast(&game);
    let now = screen[1..9].to_string();
    assert!(is_clock(&now), "{}", now);
    assert_eq!(screen, game_screen(&now, &game));
}

#[test]
fn the_screen_that_hides_a_game() {
    assert_eq!(
        stealth_text("NOW", "host:1", 0xBEEF, 0xA),
        "[NOW] [SYS] Initializing kernel subsystems...\n\
         [NOW] [INFO] Established connection to gateway: host:1\n\
         [NOW] [DEBUG] Handshake protocol v2.4 verified. (0xBEEF)\n\
         [NOW] [INFO] Node status: ONLINE | NodeID: 0xA\n\
         [NOW] [TRACE] Raw packet capture sequence synchronized.\n\
         \n(Active session monitoring... Press ESC to resume debugging context.)\n"
    );
}

#[test]
fn hiding_shows_the_local_time_and_random_numbers() {
    let mut tokens = vec![];
    let mut nodes = vec![];
    for _ in 0..20 {
        let screen = show_stealth_mode(None);
        let lines: Vec<&str> = screen.split('\n').collect();
        let now = lines[0].strip_suffix("] [SYS] Initializing kernel subsystems...").unwrap();
        let now = now.strip_prefix('[').unwrap();
        assert!(now.len() >= 19, "{}", now);
        assert!(is_clock(&now[now.len() - 8..]), "{}", now);
        let month = &now[now.len() - 14..now.len() - 12];
        let day = &now[now.len() - 11..now.len() - 9];
        assert!((1..=12).contains(&number(month)) && (1..=31).contains(&number(day)), "{}", now);
        assert!(lines[1].ends_with("gateway: 127.0.0.1:8080"));
        let token = lines[2].split("(0x").nth(1).unwrap().trim_end_matches(')').to_string();
        let node = lines[3].split("NodeID: 0x").nth(1).unwrap().to_string();
        let text = stealth_text(
            now,
            default_addr(),
            u32::from_str_radix(&token, 16).unwrap(),
            u16::from_str_radix(&node, 16).unwrap(),
        );
        assert_eq!(screen, text);
        tokens.push(token);
        nodes.push(node);
    }
    assert!(tokens.iter().any(|t| *t != tokens[0]));
    assert!(nodes.iter().any(|n| *n != nodes[0]));
    assert!(show_stealth_mode(Some("host:9")).contains("gateway: host:9\n"));
}

#[test]
fn keys_while_hidden() {
    let esc = KeyPress { key: Key::Esc, pressed: true, control: false };
    let quit = KeyPress { key: Key::Char('c'), pressed: true, control: true };
    assert_eq!(on_stealth_key(esc), StealthAction::Resume);
    assert_eq!(on_stealth_key(quit), StealthAction::Exit);
    assert_eq!(on_stealth_key(KeyPress { control: false, ..quit }), StealthAction::Wait);
    assert_eq!(on_stealth_key(KeyPress { pressed: false, ..esc }), StealthAction::Wait);
    assert_eq!(on_stealth_key(KeyPress { key: Key::Enter, ..esc }), StealthAction::Wait);
}
