//! How a client reads the server's stream: complete lines, the roster
//! control line, and `author: content` chat lines.

use vstd::prelude::*;
use crate::client::Message;
use crate::registry::reserved_name;
use crate::text::{trim, trimmed};

verus! {

/// The names that `serde_json` reads from a JSON array of strings, or `None`
/// where the text is no such array.
pub uninterp spec fn names_from_json(s: Seq<char>) -> Option<Seq<Seq<char>>>;

/// Relies on `serde_json::from_str::<Vec<String>>`: the strings of a JSON
/// array, or `None` where the text is no such array.
#[verifier::external_body]
fn parse_names(s: &str) -> (r: Option<Vec<String>>)
    ensures
        r is Some <==> names_from_json(s@) is Some,
        r matches Some(v) ==> v@.map_values(|n: String| n@) == names_from_json(s@)->Some_0,
{
    serde_json::from_str::<Vec<String>>(s).ok()
}

/// The position of the first `c` in `s`, if any.
pub open spec fn first_index(s: Seq<char>, c: char, i: int) -> bool {
    0 <= i < s.len() && s[i] == c && forall|j: int| 0 <= j < i ==> s[j] != c
}

/// Finds the first `c` in `s`.
pub fn find_char(s: &str, c: char) -> (r: Option<usize>)
    ensures
        r matches Some(i) ==> first_index(s@, c, i as int),
        r is None ==> forall|j: int| 0 <= j < s@.len() ==> s@[j] != c,
{
    let n = s.unicode_len();
    let mut i: usize = 0;
    while i < n
        invariant
            n == s@.len(),
            i <= n,
            forall|j: int| 0 <= j < i ==> s@[j] != c,
        decreases n - i,
    {
        if s.get_char(i) == c {
            return Some(i);
        }
        i = i + 1;
    }
    None
}

/// Splits the first complete line off `buffer`: the text before the first
/// newline, and the text after it. `None` while no newline has arrived.
pub fn take_line(buffer: &str) -> (r: Option<(String, String)>)
    ensures
        r is None ==> forall|j: int| 0 <= j < buffer@.len() ==> buffer@[j] != '\n',
        r matches Some(p) ==> exists|i: int|
            first_index(buffer@, '\n', i) && p.0@ == buffer@.subrange(0, i) && p.1@ == buffer@.subrange(
                i + 1,
                buffer@.len() as int,
            ),
{
    match find_char(buffer, '\n') {
        None => None,
        Some(i) => {
            let n = buffer.unicode_len();
            let line = String::from_str(buffer.substring_char(0, i));
            let rest = String::from_str(buffer.substring_char(i + 1, n));
            Some((line, rest))
        },
    }
}

/// What a client makes of one line from the server.
#[derive(Debug, PartialEq, Eq)]
pub enum ServerLine {
    /// A blank line, or a roster line whose array cannot be read.
    Ignored,
    /// A roster update: the connected usernames.
    Roster(Vec<String>),
    /// Any other line, to be shown, with its newline put back.
    Text(String),
}

/// The marker that starts a roster line.
pub open spec fn roster_prefix() -> Seq<char> {
    seq!['U', 'S', 'E', 'R', '_', 'L', 'I', 'S', 'T', ':']
}

pub open spec fn is_roster(t: Seq<char>) -> bool {
    t.len() >= roster_prefix().len() && t.subrange(0, roster_prefix().len() as int) == roster_prefix()
}

/// Classifies a line of the server's stream (without its newline).
pub fn classify_server_line(line: &str) -> (r: ServerLine)
    ensures
        trim(line@).len() == 0 ==> r == ServerLine::Ignored,
        trim(line@).len() > 0 && is_roster(trim(line@)) ==> match names_from_json(
            trim(line@).subrange(10, trim(line@).len() as int),
        ) {
            None => r == ServerLine::Ignored,
            Some(names) => r matches ServerLine::Roster(v) && v@.map_values(|n: String| n@) == names,
        },
        trim(line@).len() > 0 && !is_roster(trim(line@)) ==> (r matches ServerLine::Text(s) && s@
            == line@ + "\n"@),
{
    let t = trimmed(line);
    let n = t.as_str().unicode_len();
    if n == 0 {
        return ServerLine::Ignored;
    }
    let mut prefixed = n >= 10;
    if prefixed {
        let head = t.as_str().substring_char(0, 10);
        let marker = String::from_str("USER_LIST:");
        proof {
            reveal_strlit("USER_LIST:");
            assert("USER_LIST:"@ =~= roster_prefix());
        }
        prefixed = String::from_str(head) == marker;
    }
    if prefixed {
        let json = t.as_str().substring_char(10, n);
        match parse_names(json) {
            Some(names) => ServerLine::Roster(names),
            None => ServerLine::Ignored,
        }
    } else {
        let mut s = String::from_str(line);
        s.append("\n");
        ServerLine::Text(s)
    }
}

/// Turns a shown line into a message: text before the first colon is the
/// author and text after it the content, both trimmed; a line without a
/// colon is a notice of `System`. `None` for a blank line.
pub fn parse_message(text: &str) -> (r: Option<Message>)
    ensures
        trim(text@).len() == 0 ==> r is None,
        trim(text@).len() > 0 ==> r is Some,
        r matches Some(m) ==> ({
            let t = trim(text@);
            ||| exists|i: int|
                first_index(t, ':', i) && m.author@ == trim(t.subrange(0, i)) && m.content@ == trim(
                    t.subrange(i + 1, t.len() as int),
                )
            ||| (forall|j: int| 0 <= j < t.len() ==> t[j] != ':') && m.author@ == reserved_name()
                && m.content@ == t
        }),
{
    let t = trimmed(text);
    let n = t.as_str().unicode_len();
    if n == 0 {
        return None;
    }
    match find_char(t.as_str(), ':') {
        Some(i) => {
            let author = trimmed(t.as_str().substring_char(0, i));
            let content = trimmed(t.as_str().substring_char(i + 1, n));
            Some(Message { author, content })
        },
        None => {
            proof {
                reveal_strlit("System");
                assert("System"@ =~= reserved_name());
            }
            Some(Message { author: String::from_str("System"), content: t })
        },
    }
}

} // verus!
