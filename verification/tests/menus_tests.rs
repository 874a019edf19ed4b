use iexplorer::deflections::Password;
use iexplorer::email::handle_email_password;
use iexplorer::rover::ChatKeys;
use iexplorer::states::{
    button_press_system, clicked_next, menu_action, process_triggers, user_login, GameState,
    Interaction, MenuButton, MenuButtonAction, MenuOutcome, MenuState,
};

#[test]
fn triggers_from_the_desktop() {
    assert_eq!(process_triggers(true, false), Some(GameState::Paused));
    assert_eq!(process_triggers(false, true), Some(GameState::Rover));
    assert_eq!(process_triggers(true, true), Some(GameState::Rover));
    assert_eq!(process_triggers(false, false), None);
}

#[test]
fn clicks_lead_to_their_scene() {
    assert_eq!(clicked_next(Interaction::Clicked, GameState::Email), Some(GameState::Email));
    assert_eq!(clicked_next(Interaction::Hovered, GameState::Email), None);
    assert_eq!(clicked_next(Interaction::Idle, GameState::InGame), None);
}

#[test]
fn menu_buttons() {
    assert_eq!(
        menu_action(Interaction::Clicked, MenuButtonAction::NewGame, MenuState::Main),
        MenuOutcome::Show(MenuState::UserLogin)
    );
    assert_eq!(
        menu_action(Interaction::Clicked, MenuButtonAction::NewGame, MenuState::UserLogin),
        MenuOutcome::Stay
    );
    assert_eq!(
        menu_action(Interaction::Clicked, MenuButtonAction::Quit, MenuState::Main),
        MenuOutcome::Exit
    );
    assert_eq!(
        menu_action(Interaction::Hovered, MenuButtonAction::Quit, MenuState::Main),
        MenuOutcome::Stay
    );
}

#[test]
fn login_needs_the_right_name_and_password() {
    assert_eq!(user_login("11", "22", true), Some((MenuState::Disabled, GameState::InGame)));
    assert_eq!(user_login("11", "22", false), None);
    assert_eq!(user_login("11", "23", true), None);
    assert_eq!(user_login("1", "22", true), None);
}

#[test]
fn start_menu_buttons() {
    assert_eq!(
        button_press_system(Interaction::Clicked, MenuButton::Play),
        MenuOutcome::Enter(GameState::InGame)
    );
    assert_eq!(button_press_system(Interaction::Clicked, MenuButton::Quit), MenuOutcome::Exit);
    assert_eq!(button_press_system(Interaction::Idle, MenuButton::Quit), MenuOutcome::Stay);
}

fn keys(enter: bool, back: bool, escape: bool) -> ChatKeys {
    ChatKeys { enter, back, escape }
}

#[test]
fn email_opens_with_the_password() {
    let p = Password { val: "swiftfido3301".to_string() };
    let mut entry = String::from("swiftfido330");
    let next = handle_email_password(&mut entry, &vec!['1', '\r'], keys(true, false, false), &p);
    assert_eq!(next, Some(GameState::Ending));
    assert_eq!(entry, "swiftfido3301");
}

#[test]
fn email_stays_closed_with_a_wrong_password() {
    let p = Password { val: "swiftfido3301".to_string() };
    let mut entry = String::from("swiftfido");
    let next = handle_email_password(&mut entry, &vec!['\r'], keys(true, false, false), &p);
    assert_eq!(next, None);
    assert_eq!(entry, "swiftfido");
}

#[test]
fn email_typing_back_and_escape() {
    let p = Password { val: "x".to_string() };
    let mut entry = String::new();
    assert_eq!(handle_email_password(&mut entry, &vec!['a', '\u{8}', 'b'], keys(false, true, false), &p), None);
    assert_eq!(entry, "a");
    assert_eq!(
        handle_email_password(&mut entry, &vec![], keys(false, false, true), &p),
        Some(GameState::InGame)
    );
}
