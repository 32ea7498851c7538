use smart_home::stages::{
    Action, Effect, Stages, State, CHANGE_HOME_TITLE_MENU, CREATE_DEVICE_MENU, CREATE_ROOM_MENU,
    MAIN_MENU,
};

fn at(state: State) -> Stages {
    Stages::new().with_state(state)
}

#[test]
fn the_stages_start_at_the_main_menu() {
    let stages = Stages::new();
    assert_eq!(*stages.current(), State::MainMenu);
    assert_eq!(stages.menu(), MAIN_MENU);
}

#[test]
fn with_state_moves_to_the_new_state() {
    let stages = Stages::new().with_state(State::CreateRoom);
    assert_eq!(*stages.current(), State::CreateRoom);
    let stages = stages.with_state(State::Empty);
    assert_eq!(*stages.current(), State::Empty);
}

#[test]
fn each_state_has_its_menu() {
    assert_eq!(at(State::MainMenu).menu(), MAIN_MENU);
    assert_eq!(at(State::ChangeHomeTitle).menu(), CHANGE_HOME_TITLE_MENU);
    assert_eq!(at(State::CreateRoom).menu(), CREATE_ROOM_MENU);
    assert_eq!(at(State::CreateDevice).menu(), CREATE_DEVICE_MENU);
    assert_eq!(at(State::Empty).menu(), "");
    assert!(MAIN_MENU.contains("'q' - exit from program"));
    assert!(MAIN_MENU.starts_with("\n====="));
    assert!(CREATE_DEVICE_MENU.contains("'ss'- add smart socket          'st'- add smart thermometer"));
    assert!(CREATE_ROOM_MENU.contains("'c' - enter room name"));
    assert!(CHANGE_HOME_TITLE_MENU.ends_with("=====\n"));
}

#[test]
fn the_keys_of_the_main_menu() {
    let stages = at(State::MainMenu);
    assert_eq!(stages.action_of("q"), Action::MainMenuQuit);
    assert_eq!(stages.action_of("a"), Action::MainMenuAddDevice);
    assert_eq!(stages.action_of("d"), Action::MainMenuRemoveDevice);
    assert_eq!(stages.action_of("r"), Action::MainMenuAddRoom);
    assert_eq!(stages.action_of("c"), Action::MainMenuRemoveRoom);
    assert_eq!(stages.action_of("s"), Action::MainMenuShowSchema);
    assert_eq!(stages.action_of("w"), Action::MainMenuShowReport);
    for key in ["", "Q", "qq", " q", "ss", "x"] {
        assert_eq!(stages.action_of(key), Action::Unsupported);
    }
}

#[test]
fn the_keys_of_the_other_menus() {
    let stages = at(State::ChangeHomeTitle);
    assert_eq!(stages.action_of("q"), Action::ChangeHomeTitleQuit);
    assert_eq!(stages.action_of("c"), Action::ChangeHomeTitleChangeTitle);
    assert_eq!(stages.action_of("s"), Action::ChangeHomeTitleSave);
    assert_eq!(stages.action_of("a"), Action::Unsupported);

    let stages = at(State::CreateRoom);
    assert_eq!(stages.action_of("q"), Action::CreateRoomQuit);
    assert_eq!(stages.action_of("c"), Action::CreateRoomEnterName);
    assert_eq!(stages.action_of("s"), Action::CreateRoomSave);
    assert_eq!(stages.action_of("r"), Action::Unsupported);

    let stages = at(State::CreateDevice);
    assert_eq!(stages.action_of("q"), Action::CreateDeviceQuit);
    assert_eq!(stages.action_of("ss"), Action::CreateDeviceSmartSocket);
    assert_eq!(stages.action_of("st"), Action::CreateDeviceSmartThermometer);
    assert_eq!(stages.action_of("s"), Action::Unsupported);

    let stages = at(State::Empty);
    for key in ["q", "a", "ss", ""] {
        assert_eq!(stages.action_of(key), Action::Unsupported);
    }
}

#[test]
fn what_an_action_does() {
    let (stages, effect) = Stages::new().apply(Action::MainMenuAddRoom);
    assert_eq!((*stages.current(), effect), (State::CreateRoom, Effect::Stay));
    let (stages, effect) = stages.apply(Action::CreateRoomEnterName);
    assert_eq!((*stages.current(), effect), (State::CreateRoom, Effect::AddRoom));
    let (stages, effect) = stages.apply(Action::CreateRoomQuit);
    assert_eq!((*stages.current(), effect), (State::MainMenu, Effect::Stay));
    let (stages, effect) = stages.apply(Action::MainMenuAddDevice);
    assert_eq!((*stages.current(), effect), (State::CreateDevice, Effect::Stay));
    let (stages, effect) = stages.apply(Action::CreateDeviceSmartSocket);
    assert_eq!((*stages.current(), effect), (State::CreateDevice, Effect::AddSocket));
    let (stages, effect) = stages.apply(Action::CreateDeviceQuit);
    assert_eq!((*stages.current(), effect), (State::MainMenu, Effect::Stay));
    let (stages, effect) = stages.apply(Action::MainMenuQuit);
    assert_eq!((*stages.current(), effect), (State::MainMenu, Effect::Quit));
    for action in [
        Action::MainMenuRemoveDevice,
        Action::MainMenuRemoveRoom,
        Action::MainMenuShowSchema,
        Action::MainMenuShowReport,
        Action::ChangeHomeTitleQuit,
        Action::ChangeHomeTitleChangeTitle,
        Action::ChangeHomeTitleSave,
        Action::CreateRoomSave,
        Action::CreateDeviceSmartThermometer,
        Action::Unsupported,
    ] {
        let (stages, effect) = at(State::CreateRoom).apply(action);
        assert_eq!((*stages.current(), effect), (State::CreateRoom, Effect::Stay));
    }
}
