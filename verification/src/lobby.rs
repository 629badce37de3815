//! Between two games: who is there, and which room to play in.

use vstd::prelude::*;
use vstd::string::StringExecFns;

use crate::protocol::{ClientMsg, Reply, Request, ServerMsg};
use crate::setup::Answer;
use crate::text::{join, joined, texts};

verus! {

/// What the server has told of its rooms and clients since the last refresh.
pub struct Lobby {
    pub rooms: Vec<String>,
    pub users: Vec<String>,
}

/// A lobby as a mathematical object.
#[verifier::ext_equal]
pub struct LobbyView {
    pub rooms: Seq<Seq<char>>,
    pub users: Seq<Seq<char>>,
}

impl View for Lobby {
    type V = LobbyView;

    open spec fn view(&self) -> LobbyView {
        LobbyView { rooms: texts(self.rooms@), users: texts(self.users@) }
    }
}

/// Where the user goes from the lobby.
#[derive(Debug, Clone, PartialEq)]
pub enum LobbyAction {
    /// Look again who is there.
    Refresh,
    /// Go back to the question for a name.
    Rename,
    /// Ask which room to join.
    PickRoom,
    /// Send the request and go to the board.
    Play(ClientMsg),
    /// Hide, then look again.
    Hide,
    /// Quit.
    Exit,
}

/// An action as a mathematical object.
pub enum LobbyActionView {
    Refresh,
    Rename,
    PickRoom,
    Play(Request),
    Hide,
    Exit,
}

impl View for LobbyAction {
    type V = LobbyActionView;

    open spec fn view(&self) -> LobbyActionView {
        match *self {
            LobbyAction::Refresh => LobbyActionView::Refresh,
            LobbyAction::Rename => LobbyActionView::Rename,
            LobbyAction::PickRoom => LobbyActionView::PickRoom,
            LobbyAction::Play(msg) => LobbyActionView::Play(msg@),
            LobbyAction::Hide => LobbyActionView::Hide,
            LobbyAction::Exit => LobbyActionView::Exit,
        }
    }
}

/// What the main menu offers, in order.
pub open spec fn menu_texts() -> Seq<Seq<char>> {
    seq!["New Room"@, "Join Room"@, "Refresh"@, "Back to Name Entry"@]
}

/// Where an entry of the main menu leads.
pub open spec fn menu_chosen(text: Seq<char>) -> LobbyActionView {
    if text == "Back to Name Entry"@ {
        LobbyActionView::Rename
    } else if text == "New Room"@ {
        LobbyActionView::Play(Request::CreateRoom)
    } else if text == "Join Room"@ {
        LobbyActionView::PickRoom
    } else {
        LobbyActionView::Refresh
    }
}

/// Where an entry of the list of rooms leads.
pub open spec fn room_chosen(text: Seq<char>) -> LobbyActionView {
    if text == "<-- Back"@ {
        LobbyActionView::Refresh
    } else {
        LobbyActionView::Play(Request::JoinRoom(text))
    }
}

/// What the client sends when it comes to the lobby.
pub fn greeting(name: String) -> (msg: ClientMsg)
    ensures
        msg@ == Request::SetName(name@),
{
    ClientMsg::SetName(name)
}

/// What the client sends, in order, to learn who is there.
pub fn refresh_requests() -> (msgs: Vec<ClientMsg>)
    ensures
        msgs@.len() == 2,
        msgs@[0]@ == Request::GetRooms,
        msgs@[1]@ == Request::GetUsers,
{
    let mut msgs: Vec<ClientMsg> = Vec::new();
    msgs.push(ClientMsg::GetRooms);
    msgs.push(ClientMsg::GetUsers);
    msgs
}

/// The main menu of the lobby.
pub fn menu_options() -> (options: Vec<String>)
    ensures
        texts(options@) == menu_texts(),
{
    let mut options: Vec<String> = Vec::new();
    options.push("New Room".to_owned());
    options.push("Join Room".to_owned());
    options.push("Refresh".to_owned());
    options.push("Back to Name Entry".to_owned());
    assert(texts(options@) =~= menu_texts());
    options
}

/// The user has chosen from the main menu.
pub fn on_menu(answer: Answer) -> (action: LobbyAction)
    ensures
        action@ == match answer {
            Answer::Text(text) => menu_chosen(text@),
            Answer::Canceled => LobbyActionView::Hide,
            Answer::Aborted => LobbyActionView::Exit,
        },
{
    match answer {
        Answer::Text(text) => {
            if text == "Back to Name Entry".to_owned() {
                LobbyAction::Rename
            } else if text == "New Room".to_owned() {
                LobbyAction::Play(ClientMsg::CreateRoom)
            } else if text == "Join Room".to_owned() {
                LobbyAction::PickRoom
            } else {
                LobbyAction::Refresh
            }
        },
        Answer::Canceled => LobbyAction::Hide,
        Answer::Aborted => LobbyAction::Exit,
    }
}

/// The user has chosen from the list of rooms.
pub fn on_room(answer: Answer) -> (action: LobbyAction)
    ensures
        action@ == match answer {
            Answer::Text(text) => room_chosen(text@),
            Answer::Canceled => LobbyActionView::Hide,
            Answer::Aborted => LobbyActionView::Exit,
        },
{
    match answer {
        Answer::Text(text) => {
            if text == "<-- Back".to_owned() {
                LobbyAction::Refresh
            } else {
                LobbyAction::Play(ClientMsg::JoinRoom(text))
            }
        },
        Answer::Canceled => LobbyAction::Hide,
        Answer::Aborted => LobbyAction::Exit,
    }
}

impl Lobby {
    /// A lobby of which nothing is known yet.
    pub fn new() -> (lobby: Lobby)
        ensures
            lobby@ == (LobbyView { rooms: Seq::empty(), users: Seq::empty() }),
    {
        let lobby = Lobby { rooms: Vec::new(), users: Vec::new() };
        assert(lobby@ =~= (LobbyView { rooms: Seq::empty(), users: Seq::empty() }));
        lobby
    }

    /// Takes in a message. Of those that are not lists the lobby takes no
    /// notice.
    pub fn on_server_msg(&mut self, msg: ServerMsg)
        ensures
            final(self)@ == match msg@ {
                Reply::RoomList(list) => LobbyView { rooms: list, ..old(self)@ },
                Reply::UserList(list) => LobbyView { users: list, ..old(self)@ },
                _ => old(self)@,
            },
    {
        match msg {
            ServerMsg::RoomList(list) => {
                self.rooms = list;
            },
            ServerMsg::UserList(list) => {
                self.users = list;
            },
            _ => {},
        }
    }

    /// The line that says who is there.
    pub fn banner(&self) -> (line: String)
        ensures
            line@ == "\n[ Lobby ] Online: "@ + joined(self@.users, ", "@),
    {
        let mut line = "\n[ Lobby ] Online: ".to_owned();
        line.append(join(&self.users, ", ").as_str());
        line
    }

    /// The rooms to choose from, and a way back.
    pub fn room_options(&self) -> (options: Vec<String>)
        ensures
            texts(options@) == self@.rooms.push("<-- Back"@),
    {
        let mut options: Vec<String> = Vec::new();
        let mut i: usize = 0;
        while i < self.rooms.len()
            invariant
                i <= self.rooms.len(),
                options@ == self.rooms@.take(i as int),
            decreases self.rooms.len() - i,
        {
            options.push(self.rooms[i].clone());
            i = i + 1;
            assert(options@ =~= self.rooms@.take(i as int));
        }
        options.push("<-- Back".to_owned());
        assert(texts(options@) =~= self@.rooms.push("<-- Back"@));
        options
    }
}

/// A lobby is seen as its lists say.
pub proof fn law_lobby_is_seen_as_it_is(lobby: Lobby)
    ensures
        lobby@.rooms.len() == lobby.rooms@.len(),
        forall|i: int|
            0 <= i < lobby.rooms@.len() ==> #[trigger] lobby@.rooms[i] == lobby.rooms@[i]@,
        lobby@.users.len() == lobby.users@.len(),
        forall|i: int|
            0 <= i < lobby.users@.len() ==> #[trigger] lobby@.users[i] == lobby.users@[i]@,
{
}

/// An action is seen as what it is, with the request that it carries.
pub proof fn law_lobby_action_is_seen_as_it_is(action: LobbyAction)
    ensures
        action is Refresh <==> action@ is Refresh,
        action is Rename <==> action@ is Rename,
        action is PickRoom <==> action@ is PickRoom,
        action is Play <==> action@ is Play,
        action is Play ==> action@->Play_0 == action->Play_0@,
        action is Hide <==> action@ is Hide,
        action is Exit <==> action@ is Exit,
{
}

/// The main menu has four entries, and each leads where it says. A text that is
/// none of them leads to a fresh look.
pub proof fn law_menu_leads_where_it_says(other: Seq<char>)
    ensures
        menu_texts().len() == 4,
        menu_texts()[0] == "New Room"@,
        menu_texts()[1] == "Join Room"@,
        menu_texts()[2] == "Refresh"@,
        menu_texts()[3] == "Back to Name Entry"@,
        menu_chosen("New Room"@) == LobbyActionView::Play(Request::CreateRoom),
        menu_chosen("Join Room"@) is PickRoom,
        menu_chosen("Refresh"@) is Refresh,
        menu_chosen("Back to Name Entry"@) is Rename,
        other != "New Room"@ && other != "Join Room"@ && other != "Back to Name Entry"@
            ==> menu_chosen(other) is Refresh,
{
    reveal_strlit("New Room");
    reveal_strlit("Join Room");
    reveal_strlit("Refresh");
    reveal_strlit("Back to Name Entry");
    assert("New Room"@.len() == 8);
    assert("Join Room"@.len() == 9);
    assert("Refresh"@.len() == 7);
    assert("Back to Name Entry"@.len() == 18);
}

/// A room that is chosen is the room that is asked for, and the way back asks
/// for none.
pub proof fn law_chosen_room_is_asked_for(text: Seq<char>)
    ensures
        text != "<-- Back"@ ==> room_chosen(text) == LobbyActionView::Play(Request::JoinRoom(text)),
        room_chosen("<-- Back"@) is Refresh,
{
}

} // verus!
