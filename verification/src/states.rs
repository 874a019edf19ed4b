//! The scenes of the game and the switches between them.
use vstd::prelude::*;
use crate::strings::same_text;

verus! {

/// The scene the game is in.
#[derive(Debug, Clone, Copy, PartialEq, Eq, Hash, Structural)]
pub enum GameState {
    MainMenu,
    InGame,
    Paused,
    Rover,
    Email,
    Folder,
    Ending,
    Pinball,
    Jumpscare,
    Bugshoot,
}

/// Switches from the desktop: Escape pauses, T opens the chat (T wins when
/// both are pressed).
pub fn process_triggers(escape_pressed: bool, t_pressed: bool) -> (next: Option<GameState>)
    ensures
        next == (if t_pressed {
            Some(GameState::Rover)
        } else if escape_pressed {
            Some(GameState::Paused)
        } else {
            None
        }),
{
    let mut next = None;
    if escape_pressed {
        next = Some(GameState::Paused);
    }
    if t_pressed {
        next = Some(GameState::Rover);
    }
    next
}

/// How the pointer is over a button.
#[derive(Debug, Clone, Copy, PartialEq, Eq, Structural)]
pub enum Interaction {
    Clicked,
    Hovered,
    Idle,
}

/// The scene a click on a button leads to: `target` when it is clicked.
pub fn clicked_next(interaction: Interaction, target: GameState) -> (next: Option<GameState>)
    ensures
        next == (if interaction == Interaction::Clicked {
            Some(target)
        } else {
            None
        }),
{
    match interaction {
        Interaction::Clicked => Some(target),
        _ => None,
    }
}

/// The pages of the main menu.
#[derive(Debug, Clone, Copy, PartialEq, Eq, Hash, Structural)]
pub enum MenuState {
    Main,
    UserLogin,
    Disabled,
}

/// The main menu's buttons.
#[derive(Debug, Clone, Copy, PartialEq, Eq, Structural)]
pub enum MenuButtonAction {
    NewGame,
    Quit,
}

/// What a menu button asks for.
#[derive(Debug, Clone, Copy, PartialEq, Eq, Structural)]
pub enum MenuOutcome {
    Stay,
    Exit,
    Show(MenuState),
    Enter(GameState),
}

/// A click on a main-menu button: Quit leaves the game, New Game shows the
/// login page unless it is already shown.
pub fn menu_action(interaction: Interaction, button: MenuButtonAction, current: MenuState) -> (r: MenuOutcome)
    ensures
        r == (if interaction != Interaction::Clicked {
            MenuOutcome::Stay
        } else {
            match button {
                MenuButtonAction::Quit => MenuOutcome::Exit,
                MenuButtonAction::NewGame => if current != MenuState::UserLogin {
                    MenuOutcome::Show(MenuState::UserLogin)
                } else {
                    MenuOutcome::Stay
                },
            }
        }),
{
    if interaction != Interaction::Clicked {
        return MenuOutcome::Stay;
    }
    match button {
        MenuButtonAction::Quit => MenuOutcome::Exit,
        MenuButtonAction::NewGame => {
            if current != MenuState::UserLogin {
                MenuOutcome::Show(MenuState::UserLogin)
            } else {
                MenuOutcome::Stay
            }
        },
    }
}

/// The name and password the login page accepts.
pub open spec fn is_accepted_login(username: Seq<char>, password: Seq<char>) -> bool {
    username == "11"@ && password == "22"@
}

/// Exactly one login is accepted: the name "11" with the password "22".
pub proof fn lemma_only_one_login(username: Seq<char>, password: Seq<char>)
    ensures
        is_accepted_login(username, password) <==> (username == "11"@ && password == "22"@),
{
}

/// The login page's Login button: the right name and password close the
/// menu and start the game.
pub fn user_login(username: &str, password: &str, login_clicked: bool) -> (r: Option<(MenuState, GameState)>)
    ensures
        r == (if login_clicked && is_accepted_login(username@, password@) {
            Some((MenuState::Disabled, GameState::InGame))
        } else {
            None
        }),
{
    if login_clicked && same_text(username, "11") && same_text(password, "22") {
        Some((MenuState::Disabled, GameState::InGame))
    } else {
        None
    }
}

/// The start menu's buttons.
#[derive(Debug, Clone, Copy, PartialEq, Eq, Structural)]
pub enum MenuButton {
    Play,
    Quit,
}

/// A click on a start-menu button: Play starts the game, Quit leaves it.
pub fn button_press_system(interaction: Interaction, button: MenuButton) -> (r: MenuOutcome)
    ensures
        r == (if interaction != Interaction::Clicked {
            MenuOutcome::Stay
        } else {
            match button {
                MenuButton::Play => MenuOutcome::Enter(GameState::InGame),
                MenuButton::Quit => MenuOutcome::Exit,
            }
        }),
{
    if interaction != Interaction::Clicked {
        return MenuOutcome::Stay;
    }
    match button {
        MenuButton::Play => MenuOutcome::Enter(GameState::InGame),
        MenuButton::Quit => MenuOutcome::Exit,
    }
}

} // verus!
