//! The commands that the preprocessor hands to its host.
use crate::key::{Key, KeyView};
use vstd::prelude::*;
use vstd::string::StringExecFns;

verus! {

/// What the host must do to its own text, or to its key listener, so that
/// the text on screen follows the composition.
#[derive(Debug, PartialEq, Eq)]
pub enum Command {
    /// Stop listening to key events.
    Pause,
    /// Listen to key events again.
    Resume,
    /// Insert the text.
    CommitText(String),
    /// Erase the last character.
    Delete,
    /// Take note that the last character was already erased.
    CleanDelete,
    /// Press the key.
    KeyPress(Key),
    /// Release the key.
    KeyRelease(Key),
    /// Press and release the key.
    KeyClick(Key),
    /// Nothing is pending. The queue never holds this command: it is what
    /// an empty queue answers.
    NOP,
}

/// The mathematical value of a `Command`.
pub enum CommandView {
    Pause,
    Resume,
    CommitText(Seq<char>),
    Delete,
    CleanDelete,
    KeyPress(KeyView),
    KeyRelease(KeyView),
    KeyClick(KeyView),
    NOP,
}

impl View for Command {
    type V = CommandView;

    open spec fn view(&self) -> CommandView {
        match self {
            Command::Pause => CommandView::Pause,
            Command::Resume => CommandView::Resume,
            Command::CommitText(text) => CommandView::CommitText(text@),
            Command::Delete => CommandView::Delete,
            Command::CleanDelete => CommandView::CleanDelete,
            Command::KeyPress(key) => CommandView::KeyPress(key@),
            Command::KeyRelease(key) => CommandView::KeyRelease(key@),
            Command::KeyClick(key) => CommandView::KeyClick(key@),
            Command::NOP => CommandView::NOP,
        }
    }
}

impl Command {
    /// A copy of this command.
    pub fn duplicate(&self) -> (copy: Command)
        ensures
            copy@ == self@,
    {
        match self {
            Command::Pause => Command::Pause,
            Command::Resume => Command::Resume,
            Command::CommitText(text) => Command::CommitText(text.clone()),
            Command::Delete => Command::Delete,
            Command::CleanDelete => Command::CleanDelete,
            Command::KeyPress(key) => Command::KeyPress(key.duplicate()),
            Command::KeyRelease(key) => Command::KeyRelease(key.duplicate()),
            Command::KeyClick(key) => Command::KeyClick(key.duplicate()),
            Command::NOP => Command::NOP,
        }
    }
}

/// Why `serde_json` could not write a value.
#[verifier::external_type_specification]
#[verifier::external_body]
pub struct ExJsonError(serde_json::Error);

/// The digits of base sixteen, with small letters.
pub open spec fn hex_digits() -> Seq<char> {
    seq!['0', '1', '2', '3', '4', '5', '6', '7', '8', '9', 'a', 'b', 'c', 'd', 'e', 'f']
}

/// The digit of `n` in base sixteen.
pub open spec fn hex_digit(n: int) -> char {
    hex_digits()[n]
}

/// How a string of JSON holds the character `c`: a double quote and a
/// backslash after a backslash; backspace, tab, line feed, form feed and
/// carriage return as a backslash and their letter; any other character
/// below the space as `\u00` and its two digits of base sixteen; every
/// other character as it is.
pub open spec fn escaped(c: char) -> Seq<char> {
    if c == '"' {
        seq!['\\', '"']
    } else if c == '\\' {
        seq!['\\', '\\']
    } else if c == '\u{8}' {
        seq!['\\', 'b']
    } else if c == '\t' {
        seq!['\\', 't']
    } else if c == '\n' {
        seq!['\\', 'n']
    } else if c == '\u{c}' {
        seq!['\\', 'f']
    } else if c == '\r' {
        seq!['\\', 'r']
    } else if ' ' > c {
        seq!['\\', 'u', '0', '0'].push(hex_digit((c as int) / 16)).push(
            hex_digit((c as int) % 16),
        )
    } else {
        seq![c]
    }
}

/// The characters of `text`, each as `escaped` holds it, in order.
pub open spec fn escaped_text(text: Seq<char>) -> Seq<char>
    decreases text.len(),
{
    if text.len() == 0 {
        Seq::empty()
    } else {
        escaped(text[0]) + escaped_text(text.drop_first())
    }
}

/// `text` as a string of JSON: its characters as `escaped` holds them,
/// between double quotes.
pub open spec fn json_string(text: Seq<char>) -> Seq<char> {
    seq!['"'] + escaped_text(text) + seq!['"']
}

/// Writes `text` as a string of JSON with `serde_json::to_string`. That
/// function fails only where a value refuses to be written or a map has a
/// key that is no string; a string is neither, so the result is `Ok`. It
/// writes a double quote, each character as its table of escapes has it,
/// which is what `escaped` says, and a double quote.
#[verifier::external_body]
pub(crate) fn write_json_string(text: &str) -> (written: Result<String, serde_json::Error>)
    ensures
        written is Ok,
        written matches Ok(json) ==> json@ == json_string(text@),
{
    serde_json::to_string(text)
}

/// `text` as a string of JSON.
fn quoted(text: &str) -> (json: String)
    ensures
        json@ == json_string(text@),
{
    match write_json_string(text) {
        Ok(json) => json,
        Err(_) => String::new(),
    }
}

/// A key in JSON: an object with the one member `"Character"` or `"Named"`,
/// whose value is the key's text as a string.
pub open spec fn key_json(key: KeyView) -> Seq<char> {
    match key {
        KeyView::Character(text) => "{\"Character\":"@ + json_string(text) + "}"@,
        KeyView::Named(name) => "{\"Named\":"@ + json_string(name) + "}"@,
    }
}

/// A command in JSON: a command without a field is its name as a string; a
/// command with a field is an object with the one member that has the
/// command's name, whose value is the field.
pub open spec fn command_json(command: CommandView) -> Seq<char> {
    match command {
        CommandView::Pause => "\"Pause\""@,
        CommandView::Resume => "\"Resume\""@,
        CommandView::CommitText(text) => "{\"CommitText\":"@ + json_string(text) + "}"@,
        CommandView::Delete => "\"Delete\""@,
        CommandView::CleanDelete => "\"CleanDelete\""@,
        CommandView::KeyPress(key) => "{\"KeyPress\":"@ + key_json(key) + "}"@,
        CommandView::KeyRelease(key) => "{\"KeyRelease\":"@ + key_json(key) + "}"@,
        CommandView::KeyClick(key) => "{\"KeyClick\":"@ + key_json(key) + "}"@,
        CommandView::NOP => "\"NOP\""@,
    }
}

/// Writes `key` as `key_json` says.
fn serialize_key(key: &Key) -> (json: String)
    ensures
        json@ == key_json(key@),
{
    match key {
        Key::Character(text) => {
            let mut json = String::from_str("{\"Character\":");
            json.append(quoted(text.as_str()).as_str());
            json.append("}");
            json
        },
        Key::Named(name) => {
            let mut json = String::from_str("{\"Named\":");
            json.append(quoted(name.as_str()).as_str());
            json.append("}");
            json
        },
    }
}

/// `opening`, then `field`, then a closing brace.
fn object_of(opening: &str, field: &str) -> (json: String)
    ensures
        json@ == opening@ + field@ + "}"@,
{
    let mut json = String::from_str(opening);
    json.append(field);
    json.append("}");
    json
}

/// Writes `command` as `command_json` says.
pub fn serialize_command(command: &Command) -> (json: String)
    ensures
        json@ == command_json(command@),
{
    match command {
        Command::Pause => String::from_str("\"Pause\""),
        Command::Resume => String::from_str("\"Resume\""),
        Command::CommitText(text) => object_of(
            "{\"CommitText\":",
            quoted(text.as_str()).as_str(),
        ),
        Command::Delete => String::from_str("\"Delete\""),
        Command::CleanDelete => String::from_str("\"CleanDelete\""),
        Command::KeyPress(key) => object_of("{\"KeyPress\":", serialize_key(key).as_str()),
        Command::KeyRelease(key) => object_of("{\"KeyRelease\":", serialize_key(key).as_str()),
        Command::KeyClick(key) => object_of("{\"KeyClick\":", serialize_key(key).as_str()),
        Command::NOP => String::from_str("\"NOP\""),
    }
}

} // verus!
