//! How a client finds its server and its name.

use vstd::prelude::*;

use crate::text::opt_text;

verus! {

/// What a client keeps from one run to the next.
#[derive(Debug, Clone, PartialEq)]
pub struct Config {
    pub addr: Option<String>,
    pub name: Option<String>,
}

/// A configuration as a mathematical object.
pub struct ConfigView {
    pub addr: Option<Seq<char>>,
    pub name: Option<Seq<char>>,
}

impl View for Config {
    type V = ConfigView;

    open spec fn view(&self) -> ConfigView {
        ConfigView { addr: opt_text(self.addr), name: opt_text(self.name) }
    }
}

impl Default for Config {
    fn default() -> (config: Config)
        ensures
            config@ == (ConfigView { addr: None, name: None }),
    {
        Config { addr: None, name: None }
    }
}

/// What is known from an earlier run: what was found, or nothing.
pub fn loaded(found: Option<Config>) -> (config: Config)
    ensures
        config@ == match found {
            Some(config) => config@,
            None => ConfigView { addr: None, name: None },
        },
{
    match found {
        Some(config) => config,
        None => Config::default(),
    }
}

/// How a question to the user ended.
#[derive(Debug, Clone, PartialEq)]
pub enum Answer {
    /// With a text, typed or chosen.
    Text(String),
    /// The user backed out of it.
    Canceled,
    /// It could not be asked, or the user wants to quit.
    Aborted,
}

/// The connection on the way to the lobby: what is known of server and user,
/// and whether a connection is open.
pub struct Setup {
    pub config: Config,
    pub connected: bool,
}

/// A setup as a mathematical object.
pub struct SetupView {
    pub config: ConfigView,
    pub connected: bool,
}

impl View for Setup {
    type V = SetupView;

    open spec fn view(&self) -> SetupView {
        SetupView { config: self.config@, connected: self.connected }
    }
}

/// What is to be done next.
#[derive(Debug, Clone, PartialEq)]
pub enum SetupStep {
    /// Ask for the server's address.
    AskAddr,
    /// Ask for the user's name.
    AskName,
    /// Open a connection to the address that is known.
    Reconnect(String),
    /// Go to the lobby.
    Enter { addr: String, name: String },
}

/// What an answer leads to.
#[derive(Debug, Clone, PartialEq)]
pub enum SetupAction {
    /// Look again what is to be done.
    Proceed,
    /// Open a connection to a new address.
    Dial(String),
    /// Hide, with the address that is known.
    Hide(Option<String>),
    /// Quit.
    Exit,
}

/// A step as a mathematical object.
pub enum SetupStepView {
    AskAddr,
    AskName,
    Reconnect(Seq<char>),
    Enter { addr: Seq<char>, name: Seq<char> },
}

/// An action as a mathematical object.
pub enum SetupActionView {
    Proceed,
    Dial(Seq<char>),
    Hide(Option<Seq<char>>),
    Exit,
}

impl View for SetupStep {
    type V = SetupStepView;

    open spec fn view(&self) -> SetupStepView {
        match *self {
            SetupStep::AskAddr => SetupStepView::AskAddr,
            SetupStep::AskName => SetupStepView::AskName,
            SetupStep::Reconnect(addr) => SetupStepView::Reconnect(addr@),
            SetupStep::Enter { addr, name } => SetupStepView::Enter { addr: addr@, name: name@ },
        }
    }
}

impl View for SetupAction {
    type V = SetupActionView;

    open spec fn view(&self) -> SetupActionView {
        match *self {
            SetupAction::Proceed => SetupActionView::Proceed,
            SetupAction::Dial(addr) => SetupActionView::Dial(addr@),
            SetupAction::Hide(addr) => SetupActionView::Hide(opt_text(addr)),
            SetupAction::Exit => SetupActionView::Exit,
        }
    }
}

/// First the address, then the name, then a connection.
pub open spec fn next_step(s: SetupView) -> SetupStepView {
    match s.config.addr {
        None => SetupStepView::AskAddr,
        Some(addr) => match s.config.name {
            None => SetupStepView::AskName,
            Some(name) => if s.connected {
                SetupStepView::Enter { addr, name }
            } else {
                SetupStepView::Reconnect(addr)
            },
        },
    }
}

/// Where an attempt to connect to a new address leads. Only one that answers is
/// kept.
pub open spec fn dialed(s: SetupView, addr: Seq<char>, connected: bool) -> SetupView {
    if connected {
        SetupView { config: ConfigView { addr: Some(addr), ..s.config }, connected: true }
    } else {
        s
    }
}

/// Where an attempt to connect to the known address leads. One that does not
/// answer is forgotten.
pub open spec fn reconnected(s: SetupView, connected: bool) -> SetupView {
    if connected {
        SetupView { connected: true, ..s }
    } else {
        SetupView { config: ConfigView { addr: None, ..s.config }, ..s }
    }
}

/// Where the name that was typed leads. The word "back" asks for another
/// address.
pub open spec fn name_typed(s: SetupView, text: Seq<char>) -> SetupView {
    if text == "back"@ {
        SetupView { config: ConfigView { addr: None, name: None }, connected: false }
    } else {
        SetupView { config: ConfigView { name: Some(text), ..s.config }, ..s }
    }
}

fn clone_text(text: &Option<String>) -> (copy: Option<String>)
    ensures
        opt_text(copy) == opt_text(*text),
{
    match text {
        Some(text) => Some(text.clone()),
        None => None,
    }
}

impl Setup {
    /// Begins with what is known from an earlier run.
    pub fn new(config: Config) -> (setup: Setup)
        ensures
            setup@ == (SetupView { config: config@, connected: false }),
    {
        Setup { config, connected: false }
    }

    /// What is to be done next.
    pub fn step(&self) -> (step: SetupStep)
        ensures
            step@ == next_step(self@),
    {
        match &self.config.addr {
            None => SetupStep::AskAddr,
            Some(addr) => match &self.config.name {
                None => SetupStep::AskName,
                Some(name) => {
                    if self.connected {
                        SetupStep::Enter { addr: addr.clone(), name: name.clone() }
                    } else {
                        SetupStep::Reconnect(addr.clone())
                    }
                },
            },
        }
    }

    /// The user has answered the question for the address.
    pub fn on_addr(&self, answer: Answer) -> (action: SetupAction)
        ensures
            action@ == match answer {
                Answer::Text(text) => SetupActionView::Dial(text@),
                Answer::Canceled => SetupActionView::Hide(self@.config.addr),
                Answer::Aborted => SetupActionView::Exit,
            },
    {
        match answer {
            Answer::Text(text) => SetupAction::Dial(text),
            Answer::Canceled => SetupAction::Hide(clone_text(&self.config.addr)),
            Answer::Aborted => SetupAction::Exit,
        }
    }

    /// The connection to a new address has come about, or not.
    pub fn on_dialed(&mut self, addr: String, connected: bool)
        ensures
            final(self)@ == dialed(old(self)@, addr@, connected),
    {
        if connected {
            self.config.addr = Some(addr);
            self.connected = true;
        }
    }

    /// The user has answered the question for the name.
    pub fn on_name(&mut self, answer: Answer) -> (action: SetupAction)
        ensures
            final(self)@ == match answer {
                Answer::Text(text) => name_typed(old(self)@, text@),
                _ => old(self)@,
            },
            action@ == match answer {
                Answer::Text(_) => SetupActionView::Proceed,
                Answer::Canceled => SetupActionView::Hide(old(self)@.config.addr),
                Answer::Aborted => SetupActionView::Exit,
            },
    {
        match answer {
            Answer::Text(text) => {
                if text == "back".to_owned() {
                    self.config.addr = None;
                    self.config.name = None;
                    self.connected = false;
                } else {
                    self.config.name = Some(text);
                }
                SetupAction::Proceed
            },
            Answer::Canceled => SetupAction::Hide(clone_text(&self.config.addr)),
            Answer::Aborted => SetupAction::Exit,
        }
    }

    /// The connection to the known address has come about, or not.
    pub fn on_reconnected(&mut self, connected: bool)
        ensures
            final(self)@ == reconnected(old(self)@, connected),
    {
        if connected {
            self.connected = true;
        } else {
            self.config.addr = None;
        }
    }

    /// The lobby takes the connection over.
    pub fn on_entered(&mut self)
        ensures
            final(self)@ == (SetupView { connected: false, ..old(self)@ }),
    {
        self.connected = false;
    }

    /// The user wants another name.
    pub fn forget_name(&mut self)
        ensures
            final(self)@ == (SetupView {
                config: ConfigView { name: None, ..old(self)@.config },
                ..old(self)@
            }),
    {
        self.config.name = None;
    }
}

/// A client that has nothing yet gets to the lobby with the address that
/// answered and the name that was typed.
pub proof fn law_setup_gets_to_lobby(s: SetupView, addr: Seq<char>, name: Seq<char>)
    requires
        next_step(s) == SetupStepView::AskAddr,
        s.config.name is None,
        name != "back"@,
    ensures
        next_step(dialed(s, addr, true)) == SetupStepView::AskName,
        next_step(name_typed(dialed(s, addr, true), name)) == (SetupStepView::Enter { addr, name }),
{
}

/// Nobody gets to the lobby without a connection, and one that fails leads back
/// to the question for the address.
pub proof fn law_failed_connection_asks_again(s: SetupView, addr: Seq<char>)
    requires
        next_step(s) == SetupStepView::Reconnect(addr),
    ensures
        !s.connected,
        next_step(reconnected(s, false)) == SetupStepView::AskAddr,
        next_step(reconnected(s, true)) == (SetupStepView::Enter { addr, name: s.config.name->0 }),
{
}

/// The word "back" in place of a name leads back to the question for the
/// address.
pub proof fn law_back_asks_for_address(s: SetupView)
    ensures
        next_step(name_typed(s, "back"@)) == SetupStepView::AskAddr,
{
}

/// A setup is seen as its fields say.
pub proof fn law_setup_is_seen_as_it_is(s: Setup, text: String)
    ensures
        s@.connected == s.connected,
        s.config.addr is None <==> s@.config.addr is None,
        s.config.addr == Some(text) ==> s@.config.addr == Some(text@),
        s.config.name is None <==> s@.config.name is None,
        s.config.name == Some(text) ==> s@.config.name == Some(text@),
        s@.config == s.config@,
{
}

/// A step is seen as what it is, with the texts that it carries.
pub proof fn law_setup_step_is_seen_as_it_is(step: SetupStep)
    ensures
        step is AskAddr <==> step@ is AskAddr,
        step is AskName <==> step@ is AskName,
        step is Reconnect <==> step@ is Reconnect,
        step is Reconnect ==> step@->Reconnect_0 == step->Reconnect_0@,
        step is Enter <==> step@ is Enter,
        step is Enter ==> step@->Enter_addr == step->Enter_addr@ && step@->Enter_name
            == step->Enter_name@,
{
}

/// An action is seen as what it is, with the text that it carries.
pub proof fn law_setup_action_is_seen_as_it_is(action: SetupAction, text: String)
    ensures
        action is Proceed <==> action@ is Proceed,
        action is Dial <==> action@ is Dial,
        action is Dial ==> action@->Dial_0 == action->Dial_0@,
        action is Hide <==> action@ is Hide,
        action == SetupAction::Hide(Some(text)) ==> action@->Hide_0 == Some(text@),
        action == SetupAction::Hide(None) ==> action@->Hide_0 is None,
        action is Exit <==> action@ is Exit,
{
}

/// The address is asked for exactly while none is known, the name exactly once
/// an address is and while no name is. With both, the client goes to the lobby
/// with them if it is connected and connects to that address if not.
pub proof fn law_next_step_is_what_is_missing(s: SetupView, addr: Seq<char>, name: Seq<char>)
    ensures
        next_step(s) is AskAddr <==> s.config.addr is None,
        next_step(s) is AskName <==> s.config.addr is Some && s.config.name is None,
        s.config.addr == Some(addr) && s.config.name == Some(name) && s.connected ==> next_step(s)
            == (SetupStepView::Enter { addr, name }),
        s.config.addr == Some(addr) && s.config.name == Some(name) && !s.connected ==> next_step(s)
            == SetupStepView::Reconnect(addr),
{
}

/// A new address is kept, and the client connected to it, exactly if it has
/// answered. One that has not changes nothing, and the name stays either way.
pub proof fn law_only_an_address_that_answers_is_kept(s: SetupView, addr: Seq<char>)
    ensures
        dialed(s, addr, true).config.addr == Some(addr),
        dialed(s, addr, true).connected,
        dialed(s, addr, true).config.name == s.config.name,
        dialed(s, addr, false) == s,
{
}

/// A known address is forgotten exactly if it does not answer. The name stays
/// either way.
pub proof fn law_silent_address_is_forgotten(s: SetupView)
    ensures
        reconnected(s, true).connected,
        reconnected(s, true).config == s.config,
        reconnected(s, false).config.addr is None,
        reconnected(s, false).config.name == s.config.name,
        reconnected(s, false).connected == s.connected,
{
}

/// A name that is typed is kept as it is, and address and connection with it.
/// The word "back" is no name: with it name, address and connection are gone.
pub proof fn law_typed_name_is_kept(s: SetupView, text: Seq<char>)
    ensures
        text != "back"@ ==> {
            &&& name_typed(s, text).config.name == Some(text)
            &&& name_typed(s, text).config.addr == s.config.addr
            &&& name_typed(s, text).connected == s.connected
        },
        text == "back"@ ==> {
            &&& name_typed(s, text).config.name is None
            &&& name_typed(s, text).config.addr is None
            &&& !name_typed(s, text).connected
        },
{
}

} // verus!
