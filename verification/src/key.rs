//! Keys, key states and keyboard events.
use crate::failure::{Failure, FailureView};
use crate::text::{char_is_composable, is_composable, same_text};
use std::str::FromStr;
use vstd::prelude::*;
use vstd::string::StrSliceExecFns;

verus! {

/// A key of the keyboard: one that types text, or one known by its name
/// (`"Alt"`, `"Backspace"`, `"Enter"`, ...).
#[derive(Debug, PartialEq, Eq)]
pub enum Key {
    /// A key that types the text it holds.
    Character(String),
    /// A key that types nothing, by its name.
    Named(String),
}

/// The mathematical value of a `Key`.
pub enum KeyView {
    Character(Seq<char>),
    Named(Seq<char>),
}

impl View for Key {
    type V = KeyView;

    open spec fn view(&self) -> KeyView {
        match self {
            Key::Character(text) => KeyView::Character(text@),
            Key::Named(name) => KeyView::Named(name@),
        }
    }
}

/// Whether `key` is the backspace key.
pub open spec fn is_backspace(key: KeyView) -> bool {
    key == KeyView::Named("Backspace"@)
}

/// The symbol that pressing `key` adds to a composition, if any: the first
/// character of a key that types text, where that character is a letter, a
/// digit or an ASCII punctuation mark.
pub open spec fn symbol_of(key: KeyView) -> Option<char> {
    match key {
        KeyView::Character(text) => if text.len() > 0 && is_composable(text[0]) {
            Some(text[0])
        } else {
            None
        },
        KeyView::Named(_) => None,
    }
}

impl Key {
    /// The backspace key.
    pub fn backspace() -> (key: Key)
        ensures
            is_backspace(key@),
    {
        Key::Named("Backspace".to_owned())
    }

    /// The key that types the one character `c`.
    pub fn of_char(c: char) -> (key: Key)
        ensures
            key@ == KeyView::Character(seq![c]),
    {
        let mut text = String::new();
        crate::text::push_char(&mut text, c);
        Key::Character(text)
    }

    /// A copy of this key.
    pub fn duplicate(&self) -> (copy: Key)
        ensures
            copy@ == self@,
    {
        match self {
            Key::Character(text) => Key::Character(text.clone()),
            Key::Named(name) => Key::Named(name.clone()),
        }
    }

    /// Decides `is_backspace`.
    pub fn is_backspace(&self) -> (answer: bool)
        ensures
            answer == is_backspace(self@),
    {
        match self {
            Key::Character(_) => false,
            Key::Named(name) => same_text(name.as_str(), "Backspace"),
        }
    }

    /// Computes `symbol_of`.
    pub fn symbol(&self) -> (symbol: Option<char>)
        ensures
            symbol == symbol_of(self@),
    {
        match self {
            Key::Character(text) => {
                if text.as_str().unicode_len() == 0 {
                    return None;
                }
                let first = text.as_str().get_char(0);
                if char_is_composable(first) {
                    Some(first)
                } else {
                    None
                }
            },
            Key::Named(_) => None,
        }
    }
}

/// Whether a key goes down or comes up.
#[derive(Clone, Copy, Debug, PartialEq, Eq, Structural)]
pub enum KeyState {
    Down,
    Up,
}

/// One action on one key. `repeat` and `is_composing` are carried for the
/// host and never read by the engine.
#[derive(Debug, PartialEq, Eq)]
pub struct KeyboardEvent {
    pub key: Key,
    pub state: KeyState,
    pub repeat: bool,
    pub is_composing: bool,
}

/// The mathematical value of a `KeyboardEvent`.
pub struct EventView {
    pub key: KeyView,
    pub state: KeyState,
    pub repeat: bool,
    pub is_composing: bool,
}

impl View for KeyboardEvent {
    type V = EventView;

    open spec fn view(&self) -> EventView {
        EventView {
            key: self.key@,
            state: self.state,
            repeat: self.repeat,
            is_composing: self.is_composing,
        }
    }
}

/// The event that `key` in `state` makes, with nothing else set.
pub open spec fn plain_event(key: KeyView, state: KeyState) -> EventView {
    EventView { key, state, repeat: false, is_composing: false }
}

impl Default for KeyboardEvent {
    /// The unidentified key going down.
    fn default() -> (event: KeyboardEvent)
        ensures
            event@ == plain_event(KeyView::Named("Unidentified"@), KeyState::Down),
    {
        KeyboardEvent {
            key: Key::Named("Unidentified".to_owned()),
            state: KeyState::Down,
            repeat: false,
            is_composing: false,
        }
    }
}

impl KeyboardEvent {
    /// `key` going down.
    pub fn key_down(key: Key) -> (event: KeyboardEvent)
        ensures
            event@ == plain_event(key@, KeyState::Down),
    {
        KeyboardEvent { key, state: KeyState::Down, repeat: false, is_composing: false }
    }

    /// `key` coming up.
    pub fn key_up(key: Key) -> (event: KeyboardEvent)
        ensures
            event@ == plain_event(key@, KeyState::Up),
    {
        KeyboardEvent { key, state: KeyState::Up, repeat: false, is_composing: false }
    }
}

/// What the key parser of `afrim_preprocessor` makes of a key's text:
/// `Some(true)` for the text of a key that types it, `Some(false)` for the
/// name of a named key, `None` for any other text.
pub uninterp spec fn key_text_kind(text: Seq<char>) -> Option<bool>;

/// The key that `text` stands for, if it stands for one.
pub open spec fn key_of_text(text: Seq<char>) -> Option<KeyView> {
    match key_text_kind(text) {
        Some(true) => Some(KeyView::Character(text)),
        Some(false) => Some(KeyView::Named(text)),
        None => None,
    }
}

/// Parses the text of a key with `Key::from_str` of `afrim_preprocessor`
/// (the key type of `keyboard_types`). That parser takes a text without
/// control characters, whose characters after the first are not ASCII, as
/// the key that types this text; any other text must be the name of a named
/// key, and the key it gives prints as that name. No other text is a key.
#[verifier::external_body]
pub(crate) fn parse_key(text: &str) -> (key: Option<Key>)
    ensures
        key is Some <==> key_text_kind(text@) is Some,
        key matches Some(k) ==> k@ == (if key_text_kind(text@) == Some(true) {
            KeyView::Character(text@)
        } else {
            KeyView::Named(text@)
        }),
{
    match afrim_preprocessor::Key::from_str(text) {
        Ok(afrim_preprocessor::Key::Character(typed)) => Some(Key::Character(typed)),
        Ok(afrim_preprocessor::Key::Named(named)) => Some(Key::Named(named.to_string())),
        Err(_) => None,
    }
}

/// The state that `text` stands for: `"keydown"` and `"keyup"` are the two
/// states, and no other text is one.
pub open spec fn state_of_text(text: Seq<char>) -> Option<KeyState> {
    if text == "keydown"@ {
        Some(KeyState::Down)
    } else if text == "keyup"@ {
        Some(KeyState::Up)
    } else {
        None
    }
}

/// The event that the texts of a key and of a state stand for. An
/// unrecognized key is reported before an unrecognized state.
pub open spec fn event_of_text(key: Seq<char>, state: Seq<char>) -> Result<EventView, FailureView> {
    match key_of_text(key) {
        None => Err(FailureView::InvalidKeyEncoding),
        Some(k) => match state_of_text(state) {
            None => Err(FailureView::InvalidStateEncoding(state)),
            Some(s) => Ok(plain_event(k, s)),
        },
    }
}

/// Reads a keyboard event from the texts of its key and of its state. A
/// text that is no key, or no state, is refused: it is never taken for
/// another key or for a default state.
pub fn deserialize_event(key: &str, state: &str) -> (event: Result<KeyboardEvent, Failure>)
    ensures
        match event {
            Ok(e) => event_of_text(key@, state@) == Ok::<EventView, FailureView>(e@),
            Err(e) => event_of_text(key@, state@) == Err::<EventView, FailureView>(e@),
        },
{
    let parsed = match parse_key(key) {
        Some(parsed) => parsed,
        None => { return Err(Failure::InvalidKeyEncoding); },
    };
    if same_text(state, "keydown") {
        Ok(KeyboardEvent::key_down(parsed))
    } else if same_text(state, "keyup") {
        Ok(KeyboardEvent::key_up(parsed))
    } else {
        Err(Failure::InvalidStateEncoding(state.to_owned()))
    }
}

} // verus!
