use gcli::board::Piece;
use gcli::game::{can_take, rematch_options, GameAction, GameState, Key, KeyPress};
use gcli::lobby::{
    greeting, menu_options, on_menu, on_room, refresh_requests, Lobby, LobbyAction,
};
use gcli::protocol::{ClientMsg, ServerMsg};
use gcli::server::{Outcome, Server};
use gcli::setup::{loaded, Answer, Config, Setup, SetupAction, SetupStep};

fn text(s: &str) -> Answer {
    Answer::Text(s.to_string())
}

fn press(key: Key) -> KeyPress {
    KeyPress { key, pressed: true, control: false }
}

fn start(player_id: Piece) -> ServerMsg {
    ServerMsg::GameStart { player_id, opponent_name: "bob".to_string() }
}

#[test]
fn a_configuration_that_is_missing_is_empty() {
    assert_eq!(loaded(None), Config { addr: None, name: None });
    let config = Config { addr: Some("host:3".to_string()), name: None };
    assert_eq!(loaded(Some(config.clone())), config);
}

#[test]
fn setup_asks_for_address_and_name() {
    let mut setup = Setup::new(Config::default());
    assert_eq!(setup.step(), SetupStep::AskAddr);
    assert_eq!(setup.on_addr(text("host:1")), SetupAction::Dial("host:1".to_string()));
    setup.on_dialed("host:1".to_string(), false);
    assert_eq!(setup.step(), SetupStep::AskAddr);
    setup.on_dialed("host:2".to_string(), true);
    assert_eq!(setup.step(), SetupStep::AskName);
    assert_eq!(setup.on_name(text("ann")), SetupAction::Proceed);
    assert_eq!(
        setup.step(),
        SetupStep::Enter { addr: "host:2".to_string(), name: "ann".to_string() }
    );
}

#[test]
fn setup_goes_back_from_the_name() {
    let mut setup = Setup::new(Config::default());
    setup.on_dialed("host:2".to_string(), true);
    assert_eq!(setup.on_name(text("back")), SetupAction::Proceed);
    assert_eq!(setup.step(), SetupStep::AskAddr);
    assert!(!setup.connected);
    assert_eq!(setup.config, Config::default());
}

#[test]
fn setup_hides_or_exits_on_request() {
    let mut setup = Setup::new(Config::default());
    assert_eq!(setup.on_addr(Answer::Canceled), SetupAction::Hide(None));
    assert_eq!(setup.on_addr(Answer::Aborted), SetupAction::Exit);
    setup.on_dialed("host:2".to_string(), true);
    assert_eq!(setup.on_name(Answer::Canceled), SetupAction::Hide(Some("host:2".to_string())));
    assert_eq!(setup.on_name(Answer::Aborted), SetupAction::Exit);
    assert_eq!(setup.step(), SetupStep::AskName);
}

#[test]
fn setup_reconnects_to_the_address_it_knows() {
    let config = Config { addr: Some("host:3".to_string()), name: Some("ann".to_string()) };
    let mut setup = Setup::new(config.clone());
    assert_eq!(setup.step(), SetupStep::Reconnect("host:3".to_string()));
    setup.on_reconnected(false);
    assert_eq!(setup.step(), SetupStep::AskAddr);

    let mut setup = Setup::new(config);
    setup.on_reconnected(true);
    assert_eq!(
        setup.step(),
        SetupStep::Enter { addr: "host:3".to_string(), name: "ann".to_string() }
    );
    setup.on_entered();
    setup.forget_name();
    assert_eq!(setup.step(), SetupStep::AskName);
    setup.on_name(text("amy"));
    assert_eq!(setup.step(), SetupStep::Reconnect("host:3".to_string()));
}

#[test]
fn the_lobby_is_entered_with_a_name_and_refreshed_with_two_lists() {
    assert_eq!(greeting("ann".to_string()), ClientMsg::SetName("ann".to_string()));
    assert_eq!(refresh_requests(), vec![ClientMsg::GetRooms, ClientMsg::GetUsers]);
}

#[test]
fn the_menu_of_the_lobby_leads_where_it_says() {
    assert_eq!(menu_options(), vec!["New Room", "Join Room", "Refresh", "Back to Name Entry"]);
    assert_eq!(on_menu(text("New Room")), LobbyAction::Play(ClientMsg::CreateRoom));
    assert_eq!(on_menu(text("Join Room")), LobbyAction::PickRoom);
    assert_eq!(on_menu(text("Refresh")), LobbyAction::Refresh);
    assert_eq!(on_menu(text("Back to Name Entry")), LobbyAction::Rename);
    assert_eq!(on_menu(Answer::Canceled), LobbyAction::Hide);
    assert_eq!(on_menu(Answer::Aborted), LobbyAction::Exit);
}

#[test]
fn a_room_is_picked_from_the_list() {
    let mut lobby = Lobby::new();
    assert_eq!(lobby.room_options(), vec!["<-- Back"]);
    lobby.on_server_msg(ServerMsg::RoomList(vec!["0001".to_string(), "0002".to_string()]));
    assert_eq!(lobby.room_options(), vec!["0001", "0002", "<-- Back"]);
    assert_eq!(
        on_room(text("0002")),
        LobbyAction::Play(ClientMsg::JoinRoom("0002".to_string()))
    );
    assert_eq!(on_room(text("<-- Back")), LobbyAction::Refresh);
    assert_eq!(on_room(Answer::Canceled), LobbyAction::Hide);
    assert_eq!(on_room(Answer::Aborted), LobbyAction::Exit);
}

#[test]
fn the_banner_names_who_is_there() {
    let mut lobby = Lobby::new();
    assert_eq!(lobby.banner(), "\n[ Lobby ] Online: ");
    lobby.on_server_msg(ServerMsg::UserList(vec!["ann".to_string()]));
    assert_eq!(lobby.banner(), "\n[ Lobby ] Online: ann");
    let list = vec!["ann".to_string(), "".to_string(), "bob".to_string()];
    lobby.on_server_msg(ServerMsg::UserList(list));
    lobby.on_server_msg(ServerMsg::Welcome("Connected.".to_string()));
    lobby.on_server_msg(ServerMsg::RoomCreated("0001".to_string()));
    assert_eq!(lobby.banner(), "\n[ Lobby ] Online: ann, , bob");
    assert!(lobby.rooms.is_empty());
}

#[test]
fn a_new_game_waits_for_an_opponent() {
    let game = GameState::new("ann".to_string());
    assert_eq!(game.cursor, (7, 7));
    assert_eq!(game.my_piece, Piece::Empty);
    assert_eq!(game.turn, Piece::Black);
    assert_eq!(game.opponent_name, "Waiting...");
    assert_eq!(game.my_name, "ann");
    assert_eq!(game.winner, None);
    assert!(game.room_id.is_empty() && !game.ready && !game.opp_ready);
}

#[test]
fn the_cursor_stays_on_the_board() {
    let mut game = GameState::new("ann".to_string());
    for _ in 0..20 {
        assert_eq!(game.on_key(press(Key::Up)), GameAction::Stay);
        game.on_key(press(Key::Left));
    }
    assert_eq!(game.cursor, (0, 0));
    for _ in 0..20 {
        game.on_key(press(Key::Down));
    }
    assert_eq!(game.cursor, (14, 0));
    game.on_key(press(Key::Right));
    assert_eq!(game.cursor, (14, 1));
    for _ in 0..20 {
        game.on_key(press(Key::Right));
    }
    assert_eq!(game.cursor, (14, 14));
    game.on_key(KeyPress { key: Key::Up, pressed: false, control: false });
    game.on_key(press(Key::Char('c')));
    game.on_key(press(Key::Other));
    assert_eq!(game.cursor, (14, 14));
}

#[test]
fn keys_that_leave_the_board() {
    let mut game = GameState::new("ann".to_string());
    let quit = KeyPress { key: Key::Char('c'), pressed: true, control: true };
    assert_eq!(game.on_key(quit), GameAction::Exit);
    assert_eq!(game.on_key(KeyPress { pressed: false, ..quit }), GameAction::Stay);
    assert_eq!(game.on_key(press(Key::Esc)), GameAction::Hide);
}

#[test]
fn enter_asks_for_a_move_only_in_turn_and_on_an_empty_cell() {
    let mut game = GameState::new("ann".to_string());
    assert_eq!(game.on_key(press(Key::Enter)), GameAction::Stay);
    game.on_server_msg(start(Piece::White));
    assert_eq!(game.on_key(press(Key::Enter)), GameAction::Stay);
    game.on_server_msg(ServerMsg::UpdateBoard { r: 7, c: 7, p: Piece::Black });
    assert_eq!(game.turn, Piece::White);
    assert_eq!(game.on_key(press(Key::Enter)), GameAction::Stay);
    game.on_key(press(Key::Up));
    assert_eq!(game.on_key(press(Key::Enter)), GameAction::Send(ClientMsg::Move(6, 7)));
}

#[test]
fn messages_change_the_game() {
    let mut game = GameState::new("ann".to_string());
    game.on_server_msg(ServerMsg::RoomCreated("0001".to_string()));
    assert_eq!(game.room_id, "0001");
    game.on_server_msg(ServerMsg::RoomJoined("0002".to_string()));
    assert_eq!(game.room_id, "0002");
    game.on_server_msg(ServerMsg::OpponentReady);
    assert!(game.opp_ready);
    game.on_server_msg(start(Piece::Black));
    assert_eq!((game.my_piece, game.opponent_name.as_str()), (Piece::Black, "bob"));
    game.on_server_msg(ServerMsg::UpdateBoard { r: 1, c: 2, p: Piece::White });
    assert_eq!((game.board[1][2], game.turn), (Piece::White, Piece::Black));
    assert_eq!(game.on_server_msg(ServerMsg::RoomList(vec![])), GameAction::Stay);
    assert_eq!(
        game.on_server_msg(ServerMsg::Error("Full".to_string())),
        GameAction::Fail("Full".to_string())
    );
}

#[test]
fn a_move_off_the_board_cannot_be_taken() {
    assert!(!can_take(&ServerMsg::UpdateBoard { r: 15, c: 0, p: Piece::Black }));
    assert!(!can_take(&ServerMsg::UpdateBoard { r: 0, c: 15, p: Piece::Black }));
    assert!(can_take(&ServerMsg::UpdateBoard { r: 14, c: 14, p: Piece::Black }));
    assert!(can_take(&ServerMsg::OpponentReady));
}

#[test]
fn after_a_game_there_is_a_rematch_or_the_lobby() {
    let mut game = GameState::new("ann".to_string());
    game.on_server_msg(start(Piece::Black));
    game.on_server_msg(ServerMsg::UpdateBoard { r: 1, c: 2, p: Piece::Black });
    game.on_server_msg(ServerMsg::GameOver { winner: Piece::White });
    assert_eq!(
        game.on_key(press(Key::Up)),
        GameAction::AskRematch("WINNER: bob | Action:".to_string())
    );
    game.on_server_msg(ServerMsg::GameOver { winner: Piece::Black });
    assert_eq!(
        game.on_key(press(Key::Other)),
        GameAction::AskRematch("WINNER: YOU | Action:".to_string())
    );
    assert_eq!(rematch_options(), vec!["Rematch", "Leave Room"]);
    assert_eq!(game.on_rematch(text("Leave Room")), GameAction::Leave(ClientMsg::LeaveRoom));
    assert_eq!(game.on_rematch(Answer::Canceled), GameAction::Leave(ClientMsg::LeaveRoom));
    assert_eq!(game.winner, Some("DONE".to_string()));
    assert_eq!(game.on_rematch(text("Rematch")), GameAction::Send(ClientMsg::Ready));
    assert_eq!((game.winner.clone(), game.ready, game.opp_ready), (None, true, false));
    assert_eq!(game.board[1][2], Piece::Empty);
}

fn hear(game: &mut GameState, id: usize, out: &Outcome) {
    for send in &out.sends {
        if send.to == id {
            assert!(can_take(&send.msg));
            game.on_server_msg(send.msg.clone());
        }
    }
}

#[test]
fn two_clients_and_a_server_play_a_game() {
    let mut server = Server::new();
    server.connect(1);
    server.connect(2);
    let mut ann = GameState::new("ann".to_string());
    let mut bob = GameState::new("bob".to_string());
    hear(&mut ann, 1, &server.handle_msg_with(1, ClientMsg::CreateRoom, 5));
    let out = server.handle_msg_with(2, ClientMsg::JoinRoom("0005".to_string()), 0);
    hear(&mut ann, 1, &out);
    hear(&mut bob, 2, &out);
    assert_eq!((ann.my_piece, bob.my_piece), (Piece::Black, Piece::White));
    assert_eq!((ann.room_id.as_str(), bob.room_id.as_str()), ("0005", "0005"));

    bob.on_key(press(Key::Up));
    for turn in 0..9 {
        let (mover, id) = if turn % 2 == 0 { (&mut ann, 1) } else { (&mut bob, 2) };
        let msg = match mover.on_key(press(Key::Enter)) {
            GameAction::Send(msg) => msg,
            other => panic!("{:?}", other),
        };
        mover.on_key(press(Key::Right));
        assert!(server.can_handle(id, &msg));
        let out = server.handle_msg_with(id, msg, 0);
        hear(&mut ann, 1, &out);
        hear(&mut bob, 2, &out);
        assert_eq!(ann.board, bob.board);
        assert_eq!(ann.turn, bob.turn);
    }
    assert_eq!(ann.winner_name, "YOU");
    assert_eq!(bob.winner_name, "User_1");
    let black = ann.board.iter().flatten().filter(|&&p| p == Piece::Black).count();
    let white = ann.board.iter().flatten().filter(|&&p| p == Piece::White).count();
    assert_eq!((black, white), (5, 4));
}
