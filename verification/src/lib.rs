//! Game logic of a desktop-themed adventure: the chat companion's text
//! handling and dialogue states, the password riddle, the arcade
//! mini-games' counters and the state switches between scenes.

pub mod chance;
pub mod strings;
pub mod encoding;
pub mod text;
pub mod tokens;
pub mod states;
pub mod rover;
pub mod deflections;
pub mod arcade;
pub mod email;
pub mod dictionary;
