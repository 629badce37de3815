use gcli::board::Piece;
use gcli::protocol::{ClientMsg, ServerMsg};
use gcli::server::{
    listen_addr, next_port, room_id, LineOutcome, Outcome, Outgoing, Server, FIRST_PORT,
};

fn to(id: usize, msg: ServerMsg) -> Outgoing {
    Outgoing { to: id, msg }
}

fn error(id: usize, text: &str) -> Outgoing {
    to(id, ServerMsg::Error(text.to_string()))
}

fn sends(list: Vec<Outgoing>) -> Outcome {
    Outcome { sends: list, dissolved: None }
}

fn quiet() -> Outcome {
    sends(vec![])
}

fn ask(server: &mut Server, id: usize, msg: ClientMsg) -> Outcome {
    assert!(server.can_handle(id, &msg), "{:?} from {}", msg, id);
    server.handle_msg_with(id, msg, 7)
}

fn start(id: usize, player_id: Piece, opponent: &str) -> Outgoing {
    to(id, ServerMsg::GameStart { player_id, opponent_name: opponent.to_string() })
}

fn update(id: usize, r: usize, c: usize, p: Piece) -> Outgoing {
    to(id, ServerMsg::UpdateBoard { r, c, p })
}

/// Clients 1 and 2 in the room "0007", client 1 with the black pieces.
fn game() -> Server {
    let mut server = Server::new();
    server.connect(1);
    server.connect(2);
    ask(&mut server, 1, ClientMsg::SetName("ann".to_string()));
    ask(&mut server, 2, ClientMsg::SetName("bob".to_string()));
    ask(&mut server, 1, ClientMsg::CreateRoom);
    ask(&mut server, 2, ClientMsg::JoinRoom("0007".to_string()));
    server
}

#[test]
fn room_ids_have_at_least_four_digits() {
    assert_eq!(room_id(0), "0000");
    assert_eq!(room_id(7), "0007");
    assert_eq!(room_id(1234), "1234");
    assert_eq!(room_id(65535), "65535");
}

#[test]
fn every_client_gets_a_number_of_its_own() {
    let mut server = Server::new();
    assert_eq!(server.new_id(), Some(0));
    server.connect(0);
    assert_eq!(server.new_id(), Some(1));
    server.connect(1);
    server.disconnect(0);
    assert_eq!(server.new_id(), Some(2));
}

#[test]
fn a_new_client_is_named_after_its_number() {
    let mut server = Server::new();
    server.connect(42);
    let out = ask(&mut server, 42, ClientMsg::GetUsers);
    assert_eq!(out, sends(vec![to(42, ServerMsg::UserList(vec!["User_42".to_string()]))]));
}

#[test]
fn a_name_is_welcomed() {
    let mut server = Server::new();
    server.connect(1);
    let out = ask(&mut server, 1, ClientMsg::SetName("ann".to_string()));
    assert_eq!(out, sends(vec![to(1, ServerMsg::Welcome("Connected.".to_string()))]));
    let out = ask(&mut server, 1, ClientMsg::GetUsers);
    assert_eq!(out, sends(vec![to(1, ServerMsg::UserList(vec!["ann".to_string()]))]));
}

#[test]
fn a_stranger_gets_no_welcome() {
    let mut server = Server::new();
    assert_eq!(ask(&mut server, 9, ClientMsg::SetName("eve".to_string())), quiet());
    assert_eq!(ask(&mut server, 9, ClientMsg::LeaveRoom), quiet());
    assert_eq!(ask(&mut server, 9, ClientMsg::Ready), quiet());
    assert_eq!(ask(&mut server, 9, ClientMsg::Move(0, 0)), quiet());
}

#[test]
fn a_stranger_cannot_be_told_anything() {
    let server = Server::new();
    assert!(!server.can_handle(9, &ClientMsg::GetRooms));
    assert!(!server.can_handle(9, &ClientMsg::GetUsers));
    assert!(!server.can_handle(9, &ClientMsg::JoinRoom("0007".to_string())));
    assert!(server.can_handle(9, &ClientMsg::CreateRoom));
}

#[test]
fn users_are_all_listed() {
    let mut server = game();
    server.connect(3);
    let out = ask(&mut server, 3, ClientMsg::GetUsers);
    match &out.sends[..] {
        [Outgoing { to: 3, msg: ServerMsg::UserList(list) }] => {
            let mut list = list.clone();
            list.sort();
            assert_eq!(list, vec!["User_3", "ann", "bob"]);
        }
        other => panic!("{:?}", other),
    }
}

#[test]
fn rooms_are_all_listed_once() {
    let mut server = Server::new();
    for id in 1..4 {
        server.connect(id);
    }
    server.handle_msg_with(1, ClientMsg::CreateRoom, 11);
    server.handle_msg_with(2, ClientMsg::CreateRoom, 12);
    server.handle_msg_with(3, ClientMsg::CreateRoom, 12);
    let out = ask(&mut server, 1, ClientMsg::GetRooms);
    match &out.sends[..] {
        [Outgoing { to: 1, msg: ServerMsg::RoomList(list) }] => {
            let mut list = list.clone();
            list.sort();
            assert_eq!(list, vec!["0011", "0012"]);
        }
        other => panic!("{:?}", other),
    }
}

#[test]
fn a_room_is_created_under_its_number() {
    let mut server = Server::new();
    server.connect(1);
    let out = server.handle_msg_with(1, ClientMsg::CreateRoom, 65535);
    assert_eq!(out, sends(vec![to(1, ServerMsg::RoomCreated("65535".to_string()))]));
}

#[test]
fn room_numbers_are_drawn_at_random() {
    let mut server = Server::new();
    server.connect(1);
    let mut ids = vec![];
    for _ in 0..40 {
        assert!(server.can_handle(1, &ClientMsg::CreateRoom));
        match server.handle_msg(1, ClientMsg::CreateRoom).sends.pop() {
            Some(Outgoing { to: 1, msg: ServerMsg::RoomCreated(id) }) => ids.push(id),
            other => panic!("{:?}", other),
        }
    }
    assert!(ids.iter().all(|id| id.len() >= 4 && id.chars().all(|c| c.is_ascii_digit())));
    assert!(ids.iter().any(|id| *id != ids[0]));
}

#[test]
fn the_second_player_starts_the_game() {
    let mut server = Server::new();
    server.connect(1);
    server.connect(2);
    ask(&mut server, 1, ClientMsg::SetName("ann".to_string()));
    ask(&mut server, 1, ClientMsg::CreateRoom);
    let out = ask(&mut server, 2, ClientMsg::JoinRoom("0007".to_string()));
    assert_eq!(
        out,
        sends(vec![
            to(2, ServerMsg::RoomJoined("0007".to_string())),
            start(1, Piece::Black, "User_2"),
            start(2, Piece::White, "ann"),
        ])
    );
}

#[test]
fn a_third_player_is_refused() {
    let mut server = game();
    server.connect(3);
    let out = ask(&mut server, 3, ClientMsg::JoinRoom("0007".to_string()));
    assert_eq!(out, sends(vec![error(3, "Full")]));
    // Nor is it in the room: it has no room to leave.
    assert_eq!(ask(&mut server, 3, ClientMsg::LeaveRoom), quiet());
}

#[test]
fn a_room_that_does_not_exist_is_not_found() {
    let mut server = game();
    server.connect(3);
    for rid in ["7", "00007", "", "0008"] {
        let out = ask(&mut server, 3, ClientMsg::JoinRoom(rid.to_string()));
        assert_eq!(out, sends(vec![error(3, "Not found")]));
    }
}

#[test]
fn moves_go_to_both_players_and_alternate() {
    let mut server = game();
    let out = ask(&mut server, 1, ClientMsg::Move(7, 7));
    assert_eq!(out, sends(vec![update(1, 7, 7, Piece::Black), update(2, 7, 7, Piece::Black)]));
    assert_eq!(ask(&mut server, 1, ClientMsg::Move(7, 8)), quiet());
    assert_eq!(ask(&mut server, 2, ClientMsg::Move(7, 7)), quiet());
    let out = ask(&mut server, 2, ClientMsg::Move(7, 8));
    assert_eq!(out, sends(vec![update(1, 7, 8, Piece::White), update(2, 7, 8, Piece::White)]));
}

#[test]
fn white_does_not_begin() {
    let mut server = game();
    assert_eq!(ask(&mut server, 2, ClientMsg::Move(0, 0)), quiet());
}

#[test]
fn a_move_off_the_board_has_no_answer_in_turn() {
    let mut server = game();
    assert!(!server.can_handle(1, &ClientMsg::Move(15, 0)));
    assert!(!server.can_handle(1, &ClientMsg::Move(0, usize::MAX)));
    // Out of turn it is ignored like any other.
    assert_eq!(ask(&mut server, 2, ClientMsg::Move(15, 0)), quiet());
}

#[test]
fn five_in_a_row_end_the_game() {
    let mut server = game();
    for i in 0..4 {
        ask(&mut server, 1, ClientMsg::Move(0, i));
        ask(&mut server, 2, ClientMsg::Move(1, i));
    }
    let out = ask(&mut server, 1, ClientMsg::Move(0, 4));
    assert_eq!(
        out,
        sends(vec![
            update(1, 0, 4, Piece::Black),
            to(1, ServerMsg::GameOver { winner: Piece::Black }),
            update(2, 0, 4, Piece::Black),
            to(2, ServerMsg::GameOver { winner: Piece::Black }),
        ])
    );
}

#[test]
fn a_rematch_takes_two() {
    let mut server = game();
    ask(&mut server, 1, ClientMsg::Move(7, 7));
    assert_eq!(ask(&mut server, 2, ClientMsg::Ready), quiet());
    assert_eq!(ask(&mut server, 2, ClientMsg::Ready), quiet());
    let out = ask(&mut server, 1, ClientMsg::Ready);
    assert_eq!(out, sends(vec![start(1, Piece::Black, "bob"), start(2, Piece::White, "ann")]));
    // The board is empty again, and black begins.
    let out = ask(&mut server, 1, ClientMsg::Move(7, 7));
    assert_eq!(out, sends(vec![update(1, 7, 7, Piece::Black), update(2, 7, 7, Piece::Black)]));
}

#[test]
fn one_player_alone_starts_no_game() {
    let mut server = Server::new();
    server.connect(1);
    ask(&mut server, 1, ClientMsg::CreateRoom);
    assert_eq!(ask(&mut server, 1, ClientMsg::Ready), quiet());
    let out = ask(&mut server, 1, ClientMsg::Move(3, 3));
    assert_eq!(out, sends(vec![update(1, 3, 3, Piece::Black)]));
}

#[test]
fn whoever_stays_is_told_and_the_last_one_takes_the_room_along() {
    let mut server = game();
    let out = ask(&mut server, 1, ClientMsg::LeaveRoom);
    assert_eq!(out, sends(vec![error(2, "Opponent disconnected/left.")]));
    assert_eq!(ask(&mut server, 1, ClientMsg::LeaveRoom), quiet());
    let out = ask(&mut server, 2, ClientMsg::LeaveRoom);
    assert_eq!(out, Outcome { sends: vec![], dissolved: Some("0007".to_string()) });
    let out = ask(&mut server, 1, ClientMsg::GetRooms);
    assert_eq!(out, sends(vec![to(1, ServerMsg::RoomList(vec![]))]));
}

#[test]
fn a_client_that_disconnects_leaves_its_room() {
    let mut server = game();
    assert_eq!(server.disconnect(2), sends(vec![error(1, "Opponent disconnected/left.")]));
    assert_eq!(server.disconnect(2), quiet());
    let out = server.disconnect(1);
    assert_eq!(out, Outcome { sends: vec![], dissolved: Some("0007".to_string()) });
}

#[test]
fn the_one_who_stays_moves_up_to_black() {
    let mut server = game();
    ask(&mut server, 1, ClientMsg::LeaveRoom);
    server.connect(3);
    let out = ask(&mut server, 3, ClientMsg::JoinRoom("0007".to_string()));
    assert_eq!(
        out,
        sends(vec![
            to(3, ServerMsg::RoomJoined("0007".to_string())),
            start(2, Piece::Black, "User_3"),
            start(3, Piece::White, "bob"),
        ])
    );
}

#[test]
fn joining_ones_own_room_fills_both_seats() {
    let mut server = Server::new();
    server.connect(1);
    ask(&mut server, 1, ClientMsg::CreateRoom);
    let out = ask(&mut server, 1, ClientMsg::JoinRoom("0007".to_string()));
    assert_eq!(
        out,
        sends(vec![
            to(1, ServerMsg::RoomJoined("0007".to_string())),
            start(1, Piece::Black, "User_1"),
            start(1, Piece::White, "User_1"),
        ])
    );
    let out = ask(&mut server, 1, ClientMsg::LeaveRoom);
    assert_eq!(out.dissolved, Some("0007".to_string()));
}

#[test]
fn a_room_left_behind_keeps_a_client_that_is_gone() {
    let mut server = Server::new();
    server.connect(1);
    server.connect(2);
    server.handle_msg_with(1, ClientMsg::CreateRoom, 1);
    server.handle_msg_with(1, ClientMsg::CreateRoom, 2);
    server.disconnect(1);
    // No game can start there any more.
    assert!(!server.can_handle(2, &ClientMsg::JoinRoom("0001".to_string())));
    assert!(server.can_handle(2, &ClientMsg::JoinRoom("0002".to_string())));
    assert_eq!(
        ask(&mut server, 2, ClientMsg::JoinRoom("0002".to_string())),
        sends(vec![error(2, "Not found")])
    );
}

#[test]
fn a_room_opened_under_a_taken_name_forgets_its_players() {
    let mut server = game();
    server.connect(3);
    ask(&mut server, 3, ClientMsg::CreateRoom);
    assert!(!server.can_handle(1, &ClientMsg::Move(0, 0)));
    assert_eq!(ask(&mut server, 1, ClientMsg::Ready), quiet());
}

#[test]
fn leaving_a_room_that_has_forgotten_one_changes_nothing_there() {
    let mut server = game();
    server.connect(3);
    ask(&mut server, 3, ClientMsg::CreateRoom);
    let out = ask(&mut server, 1, ClientMsg::LeaveRoom);
    assert_eq!(out, sends(vec![error(3, "Opponent disconnected/left.")]));
    let out = ask(&mut server, 1, ClientMsg::GetRooms);
    assert_eq!(out, sends(vec![to(1, ServerMsg::RoomList(vec!["0007".to_string()]))]));
    let out = ask(&mut server, 3, ClientMsg::Move(0, 0));
    assert_eq!(out, sends(vec![update(3, 0, 0, Piece::Black)]));
}

#[test]
fn lines_that_are_no_message_leave_no_trace() {
    let run = |lines: Vec<Option<ClientMsg>>| {
        let mut server = game();
        let mut said = vec![];
        for msg in lines {
            match server.handle_line(1, 10, msg) {
                LineOutcome::Handled(out) => said.extend(out.sends),
                LineOutcome::Skipped => {}
                LineOutcome::Closed => panic!("not closed"),
            }
        }
        said.extend(ask(&mut server, 2, ClientMsg::Move(4, 4)).sends);
        said
    };
    let name = || Some(ClientMsg::SetName("amy".to_string()));
    let play = || Some(ClientMsg::Move(3, 3));
    let with = run(vec![None, name(), None, None, play(), None]);
    assert_eq!(with, run(vec![name(), play()]));
    assert_eq!(with.len(), 5);
}

#[test]
fn rooms_do_not_disturb_each_other() {
    let mut server = game();
    server.connect(3);
    server.connect(4);
    server.handle_msg_with(3, ClientMsg::CreateRoom, 8);
    ask(&mut server, 4, ClientMsg::JoinRoom("0008".to_string()));
    let out = ask(&mut server, 3, ClientMsg::Move(2, 2));
    assert_eq!(out, sends(vec![update(3, 2, 2, Piece::Black), update(4, 2, 2, Piece::Black)]));
    let out = ask(&mut server, 1, ClientMsg::Move(2, 2));
    assert_eq!(out, sends(vec![update(1, 2, 2, Piece::Black), update(2, 2, 2, Piece::Black)]));
}

#[test]
fn lines_are_closed_skipped_or_handled() {
    let mut server = Server::new();
    server.connect(1);
    assert_eq!(server.handle_line(1, 0, None), LineOutcome::Closed);
    assert_eq!(server.handle_line(1, 0, Some(ClientMsg::GetRooms)), LineOutcome::Closed);
    assert_eq!(server.handle_line(1, 5, None), LineOutcome::Skipped);
    assert_eq!(
        server.handle_line(1, 5, Some(ClientMsg::GetRooms)),
        LineOutcome::Handled(sends(vec![to(1, ServerMsg::RoomList(vec![]))]))
    );
}

#[test]
fn the_first_port_is_the_only_one() {
    assert_eq!(listen_addr(FIRST_PORT), "127.0.0.1:10031");
    assert_eq!(next_port(FIRST_PORT), None);
    assert_eq!(next_port(8099), Some(8100));
    assert_eq!(next_port(8100), None);
    assert_eq!(listen_addr(0), "127.0.0.1:0");
}
