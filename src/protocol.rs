//! The lines of the wire protocol: prompts and notices, relayed chat lines,
//! the roster control message, and what a client's input asks for.

use vstd::prelude::*;
use crate::registry::{names_of, username_verdict, Registry, UsernameError};
use crate::text::trim;
use crate::text::trimmed;

verus! {

#[verifier::external_type_specification]
#[verifier::external_body]
pub struct ExJsonError(serde_json::Error);

/// The JSON text of an array of strings, as `serde_json` writes it.
pub uninterp spec fn json_of_names(names: Seq<Seq<char>>) -> Seq<char>;

/// The text that `String::from_utf8_lossy` makes of some bytes.
pub uninterp spec fn lossy_text_of(b: Seq<u8>) -> Seq<char>;

/// Relies on `serde_json::to_string`: the JSON array of the names. It fails
/// only where a `Serialize` impl fails or a map has non-string keys, and a
/// `Vec<String>` has neither.
#[verifier::external_body]
fn names_json(names: &Vec<String>) -> (r: Result<String, serde_json::Error>)
    ensures
        r is Ok,
        r matches Ok(s) ==> s@ == json_of_names(names@.map_values(|n: String| n@)),
{
    serde_json::to_string(names)
}

/// Relies on `String::from_utf8_lossy`: the bytes read as UTF-8, each
/// invalid sequence replaced.
#[verifier::external_body]
fn decode_lossy(b: &[u8]) -> (r: String)
    ensures
        r@ == lossy_text_of(b@),
{
    String::from_utf8_lossy(b).into_owned()
}

/// The prompt sent before each username attempt; it ends no line.
pub fn username_prompt() -> (r: &'static str)
    ensures
        r@ == "Enter your username: "@,
{
    "Enter your username: "
}

/// The line sent when a username attempt is refused.
pub fn rejection_notice(e: UsernameError) -> (r: &'static str)
    ensures
        e == UsernameError::Empty ==> r@ == "Username cannot be empty. Please try again.\n"@,
        e == UsernameError::TooLong ==> r@ == "Username is too long (at most 31 bytes). Please choose another.\n"@,
        e == UsernameError::Reserved ==> r@ == "Username 'System' is reserved. Please choose another.\n"@,
        e == UsernameError::Taken ==> r@ == "Username is already taken. Please choose another.\n"@,
{
    match e {
        UsernameError::Empty => "Username cannot be empty. Please try again.\n",
        UsernameError::TooLong => "Username is too long (at most 31 bytes). Please choose another.\n",
        UsernameError::Reserved => "Username 'System' is reserved. Please choose another.\n",
        UsernameError::Taken => "Username is already taken. Please choose another.\n",
    }
}

/// `<user> has joined the chat`, as a line.
pub fn join_notice(username: &str) -> (r: String)
    ensures
        r@ == username@ + " has joined the chat\n"@,
{
    let mut s = String::from_str(username);
    s.append(" has joined the chat\n");
    s
}

/// `<user> has left the chat`, as a line.
pub fn leave_notice(username: &str) -> (r: String)
    ensures
        r@ == username@ + " has left the chat\n"@,
{
    let mut s = String::from_str(username);
    s.append(" has left the chat\n");
    s
}

/// A relayed chat text: `<user>: <text>`, with no newline added.
pub fn chat_line(username: &str, text: &str) -> (r: String)
    ensures
        r@ == username@ + ": "@ + text@,
{
    let mut s = String::from_str(username);
    s.append(": ");
    s.append(text);
    s
}

/// The roster control line around the JSON array `json`.
pub fn roster_line(json: &str) -> (r: String)
    ensures
        r@ == "USER_LIST:"@ + json@ + "\n"@,
{
    let mut s = String::from_str("USER_LIST:");
    s.append(json);
    s.append("\n");
    s
}

/// What one read from an admitted client asks for.
#[derive(Debug, PartialEq, Eq)]
pub enum ClientInput {
    /// The roster, sent to the asking client alone.
    RosterRequest,
    /// The chat line to relay to the other clients.
    Chat(String),
}

/// Classifies the text a client sent: exactly `GET_USERS` once trimmed asks
/// for the roster; anything else is chat, relayed under the sender's name.
pub fn classify_text(username: &str, text: &str) -> (r: ClientInput)
    ensures
        trim(text@) == "GET_USERS"@ ==> r == ClientInput::RosterRequest,
        trim(text@) != "GET_USERS"@ ==> (r matches ClientInput::Chat(line) && line@ == username@
            + ": "@ + text@),
{
    let t = trimmed(text);
    let command = String::from_str("GET_USERS");
    if t == command {
        ClientInput::RosterRequest
    } else {
        ClientInput::Chat(chat_line(username, text))
    }
}

/// Classifies the bytes of one read from a client, decoded as UTF-8 with
/// invalid sequences replaced.
pub fn classify_input(username: &str, raw: &[u8]) -> (r: ClientInput)
    ensures
        trim(lossy_text_of(raw@)) == "GET_USERS"@ ==> r == ClientInput::RosterRequest,
        trim(lossy_text_of(raw@)) != "GET_USERS"@ ==> (r matches ClientInput::Chat(line) && line@
            == username@ + ": "@ + lossy_text_of(raw@)),
{
    let text = decode_lossy(raw);
    classify_text(username, text.as_str())
}

impl Registry {
    /// The roster control line of the registered usernames, in order of
    /// admission.
    pub fn roster_message(&self) -> (r: String)
        ensures
            r@ == "USER_LIST:"@ + json_of_names(names_of(self.entries())) + "\n"@,
    {
        let names = self.usernames();
        proof {
            assert(names@.map_values(|n: String| n@) =~= names_of(self.entries()));
        }
        match names_json(&names) {
            Ok(json) => roster_line(json.as_str()),
            Err(_) => vstd::pervasive::unreached(),
        }
    }

    /// Negotiates a username from the bytes a client sent: decoded as UTF-8
    /// with invalid sequences replaced, then checked as `check_username` does.
    pub fn negotiate(&self, raw: &[u8]) -> (r: Result<String, UsernameError>)
        ensures
            match r {
                Ok(n) => username_verdict(self.entries(), lossy_text_of(raw@)) == Ok::<
                    Seq<char>,
                    UsernameError,
                >(n@),
                Err(e) => username_verdict(self.entries(), lossy_text_of(raw@)) == Err::<
                    Seq<char>,
                    UsernameError,
                >(e),
            },
    {
        let text = decode_lossy(raw);
        self.check_username(text.as_str())
    }
}

} // verus!
