//! The e-mail window's password prompt.
use vstd::prelude::*;
use crate::deflections::Password;
use crate::rover::ChatKeys;
use crate::states::GameState;
use crate::strings::{
    append_typed, drop_last_char, lemma_typed_text_drops_only_backspace, pop_char, typed_text,
};

verus! {

/// The prompt's text when Enter is handled: what was typed, with the line
/// break that Enter adds removed.
pub open spec fn entry_on_enter(entry: Seq<char>, typed: Seq<char>) -> Seq<char> {
    drop_last_char(entry + typed_text(typed))
}

/// The prompt's text after a frame.
pub open spec fn entry_after(entry: Seq<char>, typed: Seq<char>, keys: ChatKeys) -> Seq<char> {
    let e1 = entry + typed_text(typed);
    let e2 = if keys.enter {
        drop_last_char(e1)
    } else {
        e1
    };
    if keys.back {
        drop_last_char(e2)
    } else {
        e2
    }
}

/// The prompt's text: typed characters other than backspace are added; Enter
/// takes the last character (its line break) off what was typed and that is
/// the text compared with the password; Back takes off one more character.
pub proof fn lemma_entry_rules(entry: Seq<char>, typed: Seq<char>, escape: bool)
    ensures
        ({
            let e1 = entry + typed_text(typed);
            &&& entry_after(entry, typed, ChatKeys { enter: false, back: false, escape }) == e1
            &&& e1.len() > 0 ==> entry_on_enter(entry, typed) == e1.subrange(0, e1.len() - 1)
            &&& e1.len() == 0 ==> entry_on_enter(entry, typed) == e1
            &&& entry_after(entry, typed, ChatKeys { enter: true, back: false, escape })
                == entry_on_enter(entry, typed)
            &&& e1.len() > 0 ==> entry_after(entry, typed, ChatKeys { enter: false, back: true, escape })
                == e1.subrange(0, e1.len() - 1)
            &&& (forall|i: int| 0 <= i < typed.len() ==> typed[i] != '\u{8}') ==> e1 == entry + typed
        }),
{
    lemma_typed_text_drops_only_backspace(typed);
}

/// One frame of the password prompt: typed characters (backspace
/// characters aside) are added; Enter drops the line break it added and
/// opens the e-mail, which ends the game, when the text is the password; Back
/// erases a character; Escape returns to the desktop.
pub fn handle_email_password(entry: &mut String, typed: &Vec<char>, keys: ChatKeys, current_password: &Password) -> (next: Option<GameState>)
    ensures
        final(entry)@ == entry_after(old(entry)@, typed@, keys),
        next == (if keys.escape {
            Some(GameState::InGame)
        } else if keys.enter && entry_on_enter(old(entry)@, typed@) == current_password.val@ {
            Some(GameState::Ending)
        } else {
            None
        }),
{
    append_typed(entry, typed);
    let mut next = None;
    if keys.enter {
        pop_char(entry);
        if *entry == current_password.val {
            next = Some(GameState::Ending);
        }
    }
    if keys.back {
        pop_char(entry);
    }
    if keys.escape {
        next = Some(GameState::InGame);
    }
    next
}

} // verus!
