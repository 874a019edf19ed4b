use iexplorer::rover::{
    chat_update, check_if_loaded, get_rover_response, opening_chat, text_input, ChatKeys,
    LastChat, LoadProgress, RoverState,
};
use iexplorer::states::GameState;

fn chat(name: &str, val: &str) -> LastChat {
    LastChat { name: name.to_string(), val: val.to_string() }
}

const NO_KEYS: ChatKeys = ChatKeys { enter: false, back: false, escape: false };

#[test]
fn typing_adds_to_message_and_box() {
    let mut msg = chat("Rover: ", "");
    let mut input = String::new();
    let next = text_input(&mut msg, &mut input, &vec!['h', 'i'], NO_KEYS);
    assert_eq!(msg.val, "hi");
    assert_eq!(input, "hi");
    assert_eq!(msg.name, "Rover: ");
    assert_eq!(next.rover, None);
    assert_eq!(next.game, None);
}

#[test]
fn backspace_characters_are_not_typed() {
    let mut msg = chat("Rover: ", "a");
    let mut input = String::from("a");
    text_input(&mut msg, &mut input, &vec!['\u{8}', 'b', '\u{8}'], NO_KEYS);
    assert_eq!(msg.val, "ab");
    assert_eq!(input, "ab");
}

#[test]
fn enter_sends_the_message() {
    let mut msg = chat("Rover: ", "hi");
    let mut input = String::from("hi");
    let keys = ChatKeys { enter: true, back: false, escape: false };
    let next = text_input(&mut msg, &mut input, &vec!['\r'], keys);
    assert_eq!(msg.val, "hi");
    assert_eq!(msg.name, "User: ");
    assert_eq!(input, "");
    assert_eq!(next.rover, Some(RoverState::Thinking));
    assert_eq!(next.game, None);
}

#[test]
fn back_erases_the_last_character() {
    let mut msg = chat("User: ", "abc");
    let mut input = String::from("abc");
    let keys = ChatKeys { enter: false, back: true, escape: false };
    text_input(&mut msg, &mut input, &vec![], keys);
    assert_eq!(msg.val, "ab");
    assert_eq!(input, "ab");
}

#[test]
fn back_undoes_a_typed_character() {
    let mut msg = chat("User: ", "ab");
    let mut input = String::from("ab");
    let keys = ChatKeys { enter: false, back: true, escape: false };
    text_input(&mut msg, &mut input, &vec!['z'], keys);
    assert_eq!(msg.val, "ab");
    assert_eq!(input, "ab");
}

#[test]
fn back_on_empty_message_does_nothing() {
    let mut msg = chat("User: ", "");
    let mut input = String::new();
    let keys = ChatKeys { enter: false, back: true, escape: false };
    text_input(&mut msg, &mut input, &vec![], keys);
    assert_eq!(msg.val, "");
    assert_eq!(input, "");
}

#[test]
fn escape_closes_the_chat_even_with_enter() {
    let mut msg = chat("Rover: ", "x");
    let mut input = String::new();
    let keys = ChatKeys { enter: true, back: false, escape: true };
    let next = text_input(&mut msg, &mut input, &vec![], keys);
    assert_eq!(next.rover, Some(RoverState::Inactive));
    assert_eq!(next.game, Some(GameState::InGame));
}

#[test]
fn chat_update_outside_the_chat_does_nothing() {
    let mut msg = chat("Rover: ", "How are you?");
    let r = chat_update(GameState::InGame, RoverState::Talking, &mut msg);
    assert!(r.posted.is_none());
    assert_eq!(r.next, None);
    assert_eq!(msg.val, "How are you?");
}

#[test]
fn chat_update_posts_opening_line_once() {
    let mut msg = opening_chat();
    let r = chat_update(GameState::Rover, RoverState::Listening, &mut msg);
    let posted = r.posted.unwrap();
    assert_eq!(posted.name, "Rover: ");
    assert_eq!(posted.val, "How are you?");
    assert_eq!(msg.val, "");
    assert_eq!(r.next, None);
}

#[test]
fn chat_update_after_talking_gives_the_turn_back() {
    let mut msg = chat("Rover: ", "I am fine");
    let r = chat_update(GameState::Rover, RoverState::Talking, &mut msg);
    assert_eq!(r.posted.unwrap().val, "I am fine");
    assert_eq!(r.next, Some(RoverState::Listening));
    assert_eq!(msg.val, "");
}

#[test]
fn chat_update_while_thinking_keeps_the_question() {
    let mut msg = chat("User: ", "where is fido");
    let r = chat_update(GameState::Rover, RoverState::Thinking, &mut msg);
    assert_eq!(r.posted.unwrap().name, "User: ");
    assert_eq!(r.next, None);
    assert_eq!(msg.val, "where is fido");
}

#[test]
fn loaded_files_start_listening() {
    assert_eq!(check_if_loaded(LoadProgress::Loaded), Some(RoverState::Listening));
    assert_eq!(check_if_loaded(LoadProgress::Loading), None);
    assert_eq!(check_if_loaded(LoadProgress::Failed), None);
}

#[test]
fn response_is_posted_by_the_companion() {
    let mut msg = chat("User: ", "hello");
    let next = get_rover_response(&mut msg, "Hi there".to_string());
    assert_eq!(msg.name, "Rover: ");
    assert_eq!(msg.val, "Hi there");
    assert_eq!(next, RoverState::Talking);
}

#[test]
fn default_chat_is_empty() {
    let c = LastChat::default();
    assert_eq!(c.name, "");
    assert_eq!(c.val, "");
}
