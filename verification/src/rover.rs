//! The chat companion's dialogue: what the player types, whose turn it is,
//! and which line is shown next.
use vstd::prelude::*;
use crate::states::GameState;
use crate::strings::{
    append_typed, drop_last_char, is_backspace, lemma_typed_text_drops_only_backspace, pop_char,
    same_text, typed_text,
};

verus! {

/// The companion's dialogue states.
#[derive(Debug, Clone, Copy, PartialEq, Eq, Hash, Structural)]
pub enum RoverState {
    Inactive,
    Loading,
    Listening,
    Thinking,
    Talking,
}

/// The last line of the chat: who said it and what.
pub struct LastChat {
    pub name: String,
    pub val: String,
}

impl Default for LastChat {
    fn default() -> (r: Self)
        ensures
            r.name@ == Seq::<char>::empty(),
            r.val@ == Seq::<char>::empty(),
    {
        LastChat { name: String::new(), val: String::new() }
    }
}

/// The companion's opening line.
pub fn opening_chat() -> (r: LastChat)
    ensures
        r.name@ == "Rover: "@,
        r.val@ == "How are you?"@,
{
    LastChat { name: "Rover: ".to_owned(), val: "How are you?".to_owned() }
}

/// The keys of interest that went down this frame.
#[derive(Debug, Clone, Copy)]
pub struct ChatKeys {
    pub enter: bool,
    pub back: bool,
    pub escape: bool,
}

/// The scene changes that a step asks for.
#[derive(Debug, Clone, Copy)]
pub struct NextStates {
    pub rover: Option<RoverState>,
    pub game: Option<GameState>,
}

/// The message after a frame of typing.
pub open spec fn message_after_typing(val: Seq<char>, typed: Seq<char>, keys: ChatKeys) -> Seq<
    char,
> {
    let v1 = val + typed_text(typed);
    let v2 = if keys.enter {
        drop_last_char(v1)
    } else {
        v1
    };
    if keys.back {
        drop_last_char(v2)
    } else {
        v2
    }
}

/// The input box's text after a frame of typing.
pub open spec fn box_after_typing(text: Seq<char>, typed: Seq<char>, keys: ChatKeys) -> Seq<char> {
    let t1 = text + typed_text(typed);
    let t2 = if keys.enter {
        Seq::<char>::empty()
    } else {
        t1
    };
    if keys.back {
        drop_last_char(t2)
    } else {
        t2
    }
}

/// A frame of typing in the chat: without Enter or Back the typed characters
/// (backspace characters aside) are added to the message and the box; Enter
/// clears the box and drops the last character of the message (the line
/// break it adds), Back drops the last character of each; Escape does not
/// touch the text.
pub proof fn lemma_chat_typing_rules(val: Seq<char>, text: Seq<char>, typed: Seq<char>, escape: bool)
    ensures
        ({
            let v1 = val + typed_text(typed);
            let t1 = text + typed_text(typed);
            let none = ChatKeys { enter: false, back: false, escape };
            let enter = ChatKeys { enter: true, back: false, escape };
            let back = ChatKeys { enter: false, back: true, escape };
            &&& message_after_typing(val, typed, none) == v1
            &&& box_after_typing(text, typed, none) == t1
            &&& box_after_typing(text, typed, enter) == Seq::<char>::empty()
            &&& v1.len() > 0 ==> message_after_typing(val, typed, enter) == v1.subrange(
                0,
                v1.len() - 1,
            )
            &&& v1.len() == 0 ==> message_after_typing(val, typed, enter) == v1
            &&& v1.len() > 0 ==> message_after_typing(val, typed, back) == v1.subrange(
                0,
                v1.len() - 1,
            )
            &&& t1.len() > 0 ==> box_after_typing(text, typed, back) == t1.subrange(0, t1.len() - 1)
            &&& (forall|i: int| 0 <= i < typed.len() ==> typed[i] != '\u{8}') ==> v1 == val + typed
                && t1 == text + typed
        }),
{
    lemma_typed_text_drops_only_backspace(typed);
}

/// Back erases exactly the character typed in the same frame.
pub proof fn lemma_back_undoes_typing(val: Seq<char>, c: char)
    requires
        !is_backspace(c),
    ensures
        message_after_typing(val, seq![c], ChatKeys { enter: false, back: true, escape: false })
            == val,
        box_after_typing(val, seq![c], ChatKeys { enter: false, back: true, escape: false })
            == val,
{
    reveal_with_fuel(Seq::filter, 2);
    assert(seq![c].drop_last() =~= Seq::<char>::empty());
    assert(typed_text(seq![c]) =~= seq![c]);
    assert((val + seq![c]).drop_last() =~= val);
}

/// One frame of typing in the chat box: the typed characters (backspace
/// characters aside) go to the message and the box; Enter sends the message
/// (its last character, the line break, is dropped), names the player as the
/// speaker, clears the box and hands the turn to the companion; Back erases a
/// character from both; Escape closes the chat and returns to the game.
pub fn text_input(msg: &mut LastChat, input_box: &mut String, typed: &Vec<char>, keys: ChatKeys) -> (next: NextStates)
    ensures
        final(msg).val@ == message_after_typing(old(msg).val@, typed@, keys),
        final(input_box)@ == box_after_typing(old(input_box)@, typed@, keys),
        final(msg).name@ == (if keys.enter {
            "User: "@
        } else {
            old(msg).name@
        }),
        next.rover == (if keys.escape {
            Some(RoverState::Inactive)
        } else if keys.enter {
            Some(RoverState::Thinking)
        } else {
            None
        }),
        next.game == (if keys.escape {
            Some(GameState::InGame)
        } else {
            None
        }),
        !keys.enter && !keys.back && (forall|i: int| 0 <= i < typed@.len() ==> typed@[i] != '\u{8}')
            ==> final(msg).val@ == old(msg).val@ + typed@ && final(input_box)@ == old(input_box)@
            + typed@,
        keys.enter ==> final(input_box)@.len() == 0,
{
    append_typed(&mut msg.val, typed);
    append_typed(input_box, typed);
    let mut next = NextStates { rover: None, game: None };
    if keys.enter {
        *input_box = String::new();
        pop_char(&mut msg.val);
        msg.name = "User: ".to_owned();
        next.rover = Some(RoverState::Thinking);
    }
    if keys.back {
        pop_char(input_box);
        pop_char(&mut msg.val);
    }
    if keys.escape {
        next.rover = Some(RoverState::Inactive);
        next.game = Some(GameState::InGame);
    }
    next
}

/// What a chat refresh does: the line to post, if any, and the next state.
pub struct ChatUpdate {
    pub posted: Option<LastChat>,
    pub next: Option<RoverState>,
}

/// Refreshes the chat: outside the chat scene nothing happens; else the last
/// line is posted, the companion's opening question is not posted again, and
/// once the companion has talked the message is cleared and the player's turn
/// comes.
pub fn chat_update(game: GameState, rover: RoverState, msg: &mut LastChat) -> (r: ChatUpdate)
    ensures
        game != GameState::Rover ==> r.posted is None && r.next is None && final(msg).name@
            == old(msg).name@ && final(msg).val@ == old(msg).val@,
        game == GameState::Rover ==> {
            &&& r.posted matches Some(p) && p.name@ == old(msg).name@ && p.val@ == old(msg).val@
            &&& final(msg).name@ == old(msg).name@
            &&& r.next == (if rover == RoverState::Talking {
                Some(RoverState::Listening)
            } else {
                None
            })
            &&& final(msg).val@ == (if rover == RoverState::Talking || (old(msg).name@
                == "Rover: "@ && old(msg).val@ == "How are you?"@) {
                Seq::<char>::empty()
            } else {
                old(msg).val@
            })
        },
{
    if game != GameState::Rover {
        return ChatUpdate { posted: None, next: None };
    }
    let posted = LastChat { name: msg.name.clone(), val: msg.val.clone() };
    if same_text(msg.name.as_str(), "Rover: ") && same_text(msg.val.as_str(), "How are you?") {
        msg.val = String::new();
    }
    let mut next = None;
    if rover == RoverState::Thinking {
    } else if rover == RoverState::Talking {
        next = Some(RoverState::Listening);
        msg.val = String::new();
    }
    ChatUpdate { posted: Some(posted), next }
}

/// How far the loading of the companion's data files has come.
#[derive(Debug, Clone, Copy, PartialEq, Eq, Structural)]
pub enum LoadProgress {
    NotLoaded,
    Loading,
    Loaded,
    Failed,
    Unloaded,
}

/// The companion starts listening once all its files are loaded.
pub fn check_if_loaded(progress: LoadProgress) -> (next: Option<RoverState>)
    ensures
        next == (if progress == LoadProgress::Loaded {
            Some(RoverState::Listening)
        } else {
            None
        }),
{
    match progress {
        LoadProgress::Loaded => Some(RoverState::Listening),
        _ => None,
    }
}

/// Posts the companion's answer as the last line and gives it the turn.
pub fn get_rover_response(msg: &mut LastChat, answer: String) -> (next: RoverState)
    ensures
        final(msg).val@ == answer@,
        final(msg).name@ == "Rover: "@,
        next == RoverState::Talking,
{
    msg.val = answer;
    msg.name = "Rover: ".to_owned();
    RoverState::Talking
}

} // verus!
