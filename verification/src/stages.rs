//! The stages of the interactive menu: which menu is shown, and what a key
//! means while it is shown.
use crate::text::text_eq;
use vstd::prelude::*;

verus! {

/// The kinds of device that the menu can create.
#[derive(Debug, Clone, Copy, PartialEq, Eq, Structural)]
pub enum Devices {
    Socket,
    Thermometer,
}

/// The menu that is on screen.
#[derive(Debug, Clone, Copy, PartialEq, Eq, Structural)]
pub enum State {
    MainMenu,
    ChangeHomeTitle,
    CreateRoom,
    CreateDevice,
    Empty,
}

/// What a key asks for.
#[derive(Debug, Clone, Copy, PartialEq, Eq, Structural)]
pub enum Action {
    MainMenuQuit,
    MainMenuAddDevice,
    MainMenuRemoveDevice,
    MainMenuAddRoom,
    MainMenuRemoveRoom,
    MainMenuShowSchema,
    MainMenuShowReport,
    ChangeHomeTitleQuit,
    ChangeHomeTitleChangeTitle,
    ChangeHomeTitleSave,
    CreateRoomQuit,
    CreateRoomEnterName,
    CreateRoomSave,
    CreateDeviceQuit,
    CreateDeviceSmartSocket,
    CreateDeviceSmartThermometer,
    Unsupported,
}

/// What the program does besides changing the menu.
#[derive(Debug, Clone, Copy, PartialEq, Eq, Structural)]
pub enum Effect {
    /// Nothing.
    Stay,
    /// The program ends.
    Quit,
    /// A room name is asked for and the room is added.
    AddRoom,
    /// A socket's name, description and power are asked for and the socket is added.
    AddSocket,
}

pub const MAIN_MENU: &'static str = r#"
==========================================================================================
Controls:
  'q' - exit from program
  'a' - add new device            'd' - remove device             's' - output home schema
  'r' - add new room              'c' - remove room               'w' - output home report
==========================================================================================
"#;

pub const CHANGE_HOME_TITLE_MENU: &'static str = r#"
==========================================================================================
Controls:
  'q' - return to main menu
  'c' - change title of home      's' - save title
==========================================================================================
"#;

pub const CREATE_ROOM_MENU: &'static str = r#"
==========================================================================================
Controls:
  'q' - return to main menu
  'c' - enter room name
==========================================================================================
"#;

pub const CREATE_DEVICE_MENU: &'static str = r#"
==========================================================================================
Controls:
  'q' - return to main menu
  'ss'- add smart socket          'st'- add smart thermometer
==========================================================================================
"#;

/// The text of the menu of a state.
pub open spec fn menu_of(state: State) -> Seq<char> {
    match state {
        State::MainMenu => MAIN_MENU@,
        State::ChangeHomeTitle => CHANGE_HOME_TITLE_MENU@,
        State::CreateRoom => CREATE_ROOM_MENU@,
        State::CreateDevice => CREATE_DEVICE_MENU@,
        State::Empty => ""@,
    }
}

/// What `key` asks for while the menu of `state` is shown.
pub open spec fn action_for(state: State, key: Seq<char>) -> Action {
    match state {
        State::MainMenu => if key == "q"@ {
            Action::MainMenuQuit
        } else if key == "a"@ {
            Action::MainMenuAddDevice
        } else if key == "d"@ {
            Action::MainMenuRemoveDevice
        } else if key == "r"@ {
            Action::MainMenuAddRoom
        } else if key == "c"@ {
            Action::MainMenuRemoveRoom
        } else if key == "s"@ {
            Action::MainMenuShowSchema
        } else if key == "w"@ {
            Action::MainMenuShowReport
        } else {
            Action::Unsupported
        },
        State::ChangeHomeTitle => if key == "q"@ {
            Action::ChangeHomeTitleQuit
        } else if key == "c"@ {
            Action::ChangeHomeTitleChangeTitle
        } else if key == "s"@ {
            Action::ChangeHomeTitleSave
        } else {
            Action::Unsupported
        },
        State::CreateRoom => if key == "q"@ {
            Action::CreateRoomQuit
        } else if key == "c"@ {
            Action::CreateRoomEnterName
        } else if key == "s"@ {
            Action::CreateRoomSave
        } else {
            Action::Unsupported
        },
        State::CreateDevice => if key == "q"@ {
            Action::CreateDeviceQuit
        } else if key == "ss"@ {
            Action::CreateDeviceSmartSocket
        } else if key == "st"@ {
            Action::CreateDeviceSmartThermometer
        } else {
            Action::Unsupported
        },
        State::Empty => Action::Unsupported,
    }
}

/// The menu that follows an action; none where the action leaves the menu as it is.
pub open spec fn state_after(action: Action) -> Option<State> {
    match action {
        Action::MainMenuAddDevice => Some(State::CreateDevice),
        Action::MainMenuAddRoom => Some(State::CreateRoom),
        Action::CreateRoomQuit => Some(State::MainMenu),
        Action::CreateDeviceQuit => Some(State::MainMenu),
        _ => None,
    }
}

/// What an action does besides changing the menu.
pub open spec fn effect_of(action: Action) -> Effect {
    match action {
        Action::MainMenuQuit => Effect::Quit,
        Action::CreateRoomEnterName => Effect::AddRoom,
        Action::CreateDeviceSmartSocket => Effect::AddSocket,
        _ => Effect::Stay,
    }
}

/// The menu on screen and the one before it.
#[derive(Debug)]
pub struct Stages {
    current_state: State,
    previous_state: State,
}

impl Stages {
    /// The state whose menu is on screen.
    pub closed spec fn current_state(&self) -> State {
        self.current_state
    }

    /// The state that was left for the current one.
    pub closed spec fn previous_state(&self) -> State {
        self.previous_state
    }

    pub fn new() -> (r: Self)
        ensures
            r.current_state() == State::MainMenu,
            r.previous_state() == State::Empty,
    {
        Self { current_state: State::MainMenu, previous_state: State::Empty }
    }

    pub fn with_state(self, new_state: State) -> (r: Self)
        ensures
            r.current_state() == new_state,
            r.previous_state() == self.current_state(),
    {
        Self { current_state: new_state, previous_state: self.current_state }
    }

    pub fn current(&self) -> (r: &State)
        ensures
            *r == self.current_state(),
    {
        &self.current_state
    }

    pub fn menu(&self) -> (r: &str)
        ensures
            r@ == menu_of(self.current_state()),
    {
        match self.current_state {
            State::MainMenu => MAIN_MENU,
            State::ChangeHomeTitle => CHANGE_HOME_TITLE_MENU,
            State::CreateRoom => CREATE_ROOM_MENU,
            State::CreateDevice => CREATE_DEVICE_MENU,
            State::Empty => "",
        }
    }

    pub fn action_of(&self, key: &str) -> (r: Action)
        ensures
            r == action_for(self.current_state(), key@),
    {
        match self.current_state {
            State::MainMenu => {
                if text_eq(key, "q") {
                    Action::MainMenuQuit
                } else if text_eq(key, "a") {
                    Action::MainMenuAddDevice
                } else if text_eq(key, "d") {
                    Action::MainMenuRemoveDevice
                } else if text_eq(key, "r") {
                    Action::MainMenuAddRoom
                } else if text_eq(key, "c") {
                    Action::MainMenuRemoveRoom
                } else if text_eq(key, "s") {
                    Action::MainMenuShowSchema
                } else if text_eq(key, "w") {
                    Action::MainMenuShowReport
                } else {
                    Action::Unsupported
                }
            },
            State::ChangeHomeTitle => {
                if text_eq(key, "q") {
                    Action::ChangeHomeTitleQuit
                } else if text_eq(key, "c") {
                    Action::ChangeHomeTitleChangeTitle
                } else if text_eq(key, "s") {
                    Action::ChangeHomeTitleSave
                } else {
                    Action::Unsupported
                }
            },
            State::CreateRoom => {
                if text_eq(key, "q") {
                    Action::CreateRoomQuit
                } else if text_eq(key, "c") {
                    Action::CreateRoomEnterName
                } else if text_eq(key, "s") {
                    Action::CreateRoomSave
                } else {
                    Action::Unsupported
                }
            },
            State::CreateDevice => {
                if text_eq(key, "q") {
                    Action::CreateDeviceQuit
                } else if text_eq(key, "ss") {
                    Action::CreateDeviceSmartSocket
                } else if text_eq(key, "st") {
                    Action::CreateDeviceSmartThermometer
                } else {
                    Action::Unsupported
                }
            },
            State::Empty => Action::Unsupported,
        }
    }

    /// Carries out the part of an action that concerns the menu: the stages
    /// after it, and what else the program has to do.
    pub fn apply(self, action: Action) -> (r: (Self, Effect))
        ensures
            r.1 == effect_of(action),
            match state_after(action) {
                Some(state) => r.0.current_state() == state && r.0.previous_state()
                    == self.current_state(),
                None => r.0 == self,
            },
    {
        match action {
            Action::MainMenuQuit => (self, Effect::Quit),
            Action::MainMenuAddDevice => (self.with_state(State::CreateDevice), Effect::Stay),
            Action::MainMenuAddRoom => (self.with_state(State::CreateRoom), Effect::Stay),
            Action::CreateRoomQuit => (self.with_state(State::MainMenu), Effect::Stay),
            Action::CreateRoomEnterName => (self, Effect::AddRoom),
            Action::CreateDeviceQuit => (self.with_state(State::MainMenu), Effect::Stay),
            Action::CreateDeviceSmartSocket => (self, Effect::AddSocket),
            _ => (self, Effect::Stay),
        }
    }
}

} // verus!
