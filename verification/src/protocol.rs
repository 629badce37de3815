//! The messages that client and server exchange.

use vstd::prelude::*;

use crate::board::Piece;
use crate::text::texts;

verus! {

/// What a client asks of the server.
#[derive(Debug, Clone, PartialEq)]
pub enum ClientMsg {
    SetName(String),
    CreateRoom,
    JoinRoom(String),
    Ready,
    Move(usize, usize),
    GetRooms,
    GetUsers,
    LeaveRoom,
}

/// What the server tells a client.
#[derive(Debug, Clone, PartialEq)]
pub enum ServerMsg {
    Welcome(String),
    RoomCreated(String),
    RoomJoined(String),
    RoomList(Vec<String>),
    UserList(Vec<String>),
    GameStart { player_id: Piece, opponent_name: String },
    UpdateBoard { r: usize, c: usize, p: Piece },
    GameOver { winner: Piece },
    Error(String),
    OpponentReady,
}

/// A client's message as a mathematical object.
pub enum Request {
    SetName(Seq<char>),
    CreateRoom,
    JoinRoom(Seq<char>),
    Ready,
    Move(usize, usize),
    GetRooms,
    GetUsers,
    LeaveRoom,
}

/// A server's message as a mathematical object.
pub enum Reply {
    Welcome(Seq<char>),
    RoomCreated(Seq<char>),
    RoomJoined(Seq<char>),
    RoomList(Seq<Seq<char>>),
    UserList(Seq<Seq<char>>),
    GameStart { player_id: Piece, opponent_name: Seq<char> },
    UpdateBoard { r: usize, c: usize, p: Piece },
    GameOver { winner: Piece },
    Error(Seq<char>),
    OpponentReady,
}

impl View for ClientMsg {
    type V = Request;

    open spec fn view(&self) -> Request {
        match *self {
            ClientMsg::SetName(name) => Request::SetName(name@),
            ClientMsg::CreateRoom => Request::CreateRoom,
            ClientMsg::JoinRoom(id) => Request::JoinRoom(id@),
            ClientMsg::Ready => Request::Ready,
            ClientMsg::Move(r, c) => Request::Move(r, c),
            ClientMsg::GetRooms => Request::GetRooms,
            ClientMsg::GetUsers => Request::GetUsers,
            ClientMsg::LeaveRoom => Request::LeaveRoom,
        }
    }
}

impl View for ServerMsg {
    type V = Reply;

    open spec fn view(&self) -> Reply {
        match *self {
            ServerMsg::Welcome(text) => Reply::Welcome(text@),
            ServerMsg::RoomCreated(id) => Reply::RoomCreated(id@),
            ServerMsg::RoomJoined(id) => Reply::RoomJoined(id@),
            ServerMsg::RoomList(list) => Reply::RoomList(texts(list@)),
            ServerMsg::UserList(list) => Reply::UserList(texts(list@)),
            ServerMsg::GameStart { player_id, opponent_name } => Reply::GameStart {
                player_id,
                opponent_name: opponent_name@,
            },
            ServerMsg::UpdateBoard { r, c, p } => Reply::UpdateBoard { r, c, p },
            ServerMsg::GameOver { winner } => Reply::GameOver { winner },
            ServerMsg::Error(text) => Reply::Error(text@),
            ServerMsg::OpponentReady => Reply::OpponentReady,
        }
    }
}

/// A client's message is seen as what it is, with what it carries.
pub proof fn law_client_msg_is_seen_as_it_is(msg: ClientMsg)
    ensures
        msg is SetName <==> msg@ is SetName,
        msg is SetName ==> msg@->SetName_0 == msg->SetName_0@,
        msg is CreateRoom <==> msg@ is CreateRoom,
        msg is JoinRoom <==> msg@ is JoinRoom,
        msg is JoinRoom ==> msg@->JoinRoom_0 == msg->JoinRoom_0@,
        msg is Ready <==> msg@ is Ready,
        msg is Move <==> msg@ is Move,
        msg is Move ==> msg@->Move_0 == msg->Move_0 && msg@->Move_1 == msg->Move_1,
        msg is GetRooms <==> msg@ is GetRooms,
        msg is GetUsers <==> msg@ is GetUsers,
        msg is LeaveRoom <==> msg@ is LeaveRoom,
{
}

/// A server's message is seen as what it is, with what it carries.
pub proof fn law_server_msg_is_seen_as_it_is(msg: ServerMsg, i: int)
    ensures
        msg is Welcome <==> msg@ is Welcome,
        msg is Welcome ==> msg@->Welcome_0 == msg->Welcome_0@,
        msg is RoomCreated <==> msg@ is RoomCreated,
        msg is RoomCreated ==> msg@->RoomCreated_0 == msg->RoomCreated_0@,
        msg is RoomJoined <==> msg@ is RoomJoined,
        msg is RoomJoined ==> msg@->RoomJoined_0 == msg->RoomJoined_0@,
        msg is RoomList <==> msg@ is RoomList,
        msg is RoomList ==> msg@->RoomList_0.len() == msg->RoomList_0@.len(),
        msg is RoomList && 0 <= i < msg->RoomList_0@.len() ==> msg@->RoomList_0[i]
            == msg->RoomList_0@[i]@,
        msg is UserList <==> msg@ is UserList,
        msg is UserList ==> msg@->UserList_0.len() == msg->UserList_0@.len(),
        msg is UserList && 0 <= i < msg->UserList_0@.len() ==> msg@->UserList_0[i]
            == msg->UserList_0@[i]@,
        msg is GameStart <==> msg@ is GameStart,
        msg is GameStart ==> msg@->player_id == msg->player_id && msg@->opponent_name
            == msg->opponent_name@,
        msg is UpdateBoard <==> msg@ is UpdateBoard,
        msg is UpdateBoard ==> msg@->r == msg->r && msg@->c == msg->c && msg@->p == msg->p,
        msg is GameOver <==> msg@ is GameOver,
        msg is GameOver ==> msg@->winner == msg->winner,
        msg is Error <==> msg@ is Error,
        msg is Error ==> msg@->Error_0 == msg->Error_0@,
        msg is OpponentReady <==> msg@ is OpponentReady,
{
}

} // verus!
