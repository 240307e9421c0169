//! The request and response of the wire protocol.

use vstd::prelude::*;
use vstd::string::*;
use crate::bytes::{same_text, text_view};

verus! {

/// The four operations a client may ask for.
#[derive(Clone, Copy, Debug, PartialEq, Eq, Structural)]
pub enum Action {
    Put,
    Delete,
    SetAdd,
    SetRemove,
}

/// Whether a request was carried out.
#[derive(Clone, Copy, Debug, PartialEq, Eq, Structural)]
pub enum Status {
    Success,
    Failure,
}

/// A decoded request. `value` holds the JSON text of the payload, `None`
/// where the request carried none (or the JSON value `null`).
pub struct Request {
    pub action: String,
    pub key: String,
    pub value: Option<String>,
}

/// The reply to one request.
pub struct Response {
    pub status: Status,
    pub message: String,
}

/// A request as a mathematical value.
pub struct RequestView {
    pub action: Seq<char>,
    pub key: Seq<char>,
    pub value: Option<Seq<char>>,
}

/// A response as a mathematical value.
pub struct ResponseView {
    pub status: Status,
    pub message: Seq<char>,
}

impl View for Request {
    type V = RequestView;

    open spec fn view(&self) -> RequestView {
        RequestView { action: self.action@, key: self.key@, value: text_view(self.value) }
    }
}

impl View for Response {
    type V = ResponseView;

    open spec fn view(&self) -> ResponseView {
        ResponseView { status: self.status, message: self.message@ }
    }
}

/// What was decoded, as a mathematical value: `None` where nothing was.
pub open spec fn request_view(decoded: Option<Request>) -> Option<RequestView> {
    match decoded {
        Some(request) => Some(request@),
        None => None,
    }
}

/// The action that a verb of the protocol names.
pub open spec fn action_of(verb: Seq<char>) -> Option<Action> {
    if verb == "set"@ {
        Some(Action::Put)
    } else if verb == "del"@ {
        Some(Action::Delete)
    } else if verb == "sadd"@ {
        Some(Action::SetAdd)
    } else if verb == "srem"@ {
        Some(Action::SetRemove)
    } else {
        None
    }
}

/// Reads the verb of a request: `set`, `del`, `sadd` or `srem`, and nothing else.
pub fn parse_action(verb: &str) -> (action: Option<Action>)
    ensures
        action == action_of(verb@),
{
    if same_text(verb, "set") {
        Some(Action::Put)
    } else if same_text(verb, "del") {
        Some(Action::Delete)
    } else if same_text(verb, "sadd") {
        Some(Action::SetAdd)
    } else if same_text(verb, "srem") {
        Some(Action::SetRemove)
    } else {
        None
    }
}

/// The wire name of a status.
pub open spec fn status_name(status: Status) -> Seq<char> {
    match status {
        Status::Success => "ok"@,
        Status::Failure => "error"@,
    }
}

impl Status {
    /// The wire name of the status: `ok` or `error`.
    pub fn name(&self) -> (text: &'static str)
        ensures
            text@ == status_name(*self),
    {
        match self {
            Status::Success => "ok",
            Status::Failure => "error",
        }
    }
}

/// The reply to a request that was carried out.
pub open spec fn completed() -> ResponseView {
    ResponseView { status: Status::Success, message: "Action completed successfully"@ }
}

/// The reply that reports an error.
pub open spec fn refused(message: Seq<char>) -> ResponseView {
    ResponseView { status: Status::Failure, message }
}

impl Response {
    /// The reply to a request that was carried out.
    pub fn ok() -> (response: Response)
        ensures
            response@ == completed(),
    {
        Response { status: Status::Success, message: "Action completed successfully".to_owned() }
    }

    /// The reply that reports an error, with its diagnostic text.
    pub fn error(message: String) -> (response: Response)
        ensures
            response@ == refused(message@),
    {
        Response { status: Status::Failure, message }
    }
}

/// The lower-case hexadecimal digit of a number below sixteen.
pub open spec fn hex_digit(n: u32) -> char {
    if n == 0 {
        '0'
    } else if n == 1 {
        '1'
    } else if n == 2 {
        '2'
    } else if n == 3 {
        '3'
    } else if n == 4 {
        '4'
    } else if n == 5 {
        '5'
    } else if n == 6 {
        '6'
    } else if n == 7 {
        '7'
    } else if n == 8 {
        '8'
    } else if n == 9 {
        '9'
    } else if n == 10 {
        'a'
    } else if n == 11 {
        'b'
    } else if n == 12 {
        'c'
    } else if n == 13 {
        'd'
    } else if n == 14 {
        'e'
    } else {
        'f'
    }
}

/// How one character stands in a JSON string literal: the quotation mark,
/// the backslash and five control characters as two-character escapes, the
/// other control characters as `\u00` and two hexadecimal digits, every
/// other character as itself.
pub open spec fn escaped(c: char) -> Seq<char> {
    let n = c as u32;
    if n == 34 {
        seq!['\\', '"']
    } else if n == 92 {
        seq!['\\', '\\']
    } else if n == 8 {
        seq!['\\', 'b']
    } else if n == 9 {
        seq!['\\', 't']
    } else if n == 10 {
        seq!['\\', 'n']
    } else if n == 12 {
        seq!['\\', 'f']
    } else if n == 13 {
        seq!['\\', 'r']
    } else if n < 32 {
        seq!['\\', 'u', '0', '0', hex_digit(n / 16), hex_digit(n % 16)]
    } else {
        seq![c]
    }
}

/// The characters of a text, each as it stands in a JSON string literal.
pub open spec fn escaped_text(text: Seq<char>) -> Seq<char>
    decreases text.len(),
{
    if text.len() == 0 {
        Seq::empty()
    } else {
        escaped(text[0]) + escaped_text(text.skip(1))
    }
}

/// The JSON string literal that stands for a text: escaped, between quotation marks.
pub open spec fn json_string(text: Seq<char>) -> Seq<char> {
    seq!['"'] + escaped_text(text) + seq!['"']
}

/// Calls `serde_json::to_string` on a string slice. Trusted: the result is
/// the JSON string literal of the text, as `json_string` states it.
#[verifier::external_body]
fn quote(text: &str) -> (literal: String)
    ensures
        literal@ == json_string(text@),
{
    serde_json::to_string(text).unwrap_or_default()
}

/// The number that a lower-case hexadecimal digit stands for.
pub open spec fn hex_value(c: char) -> u32 {
    if c == 'a' {
        10
    } else if c == 'b' {
        11
    } else if c == 'c' {
        12
    } else if c == 'd' {
        13
    } else if c == 'e' {
        14
    } else if c == 'f' {
        15
    } else {
        ((c as u32) - 48) as u32
    }
}

/// How many characters of a literal's inside stand for its first character.
pub open spec fn unit_len(s: Seq<char>) -> int {
    if s[0] != '\\' {
        1
    } else if s[1] == 'u' {
        6
    } else {
        2
    }
}

/// The character that the front of a literal's inside stands for.
pub open spec fn unit_char(s: Seq<char>) -> char {
    if s[0] != '\\' {
        s[0]
    } else if s[1] == 'u' {
        ((hex_value(s[4]) * 16 + hex_value(s[5])) as u8) as char
    } else if s[1] == 'b' {
        8u8 as char
    } else if s[1] == 't' {
        9u8 as char
    } else if s[1] == 'n' {
        10u8 as char
    } else if s[1] == 'f' {
        12u8 as char
    } else if s[1] == 'r' {
        13u8 as char
    } else {
        s[1]
    }
}

/// Reads the inside of a string literal from the front of `s`, up to the
/// closing quotation mark: the text that it stands for and what follows the
/// mark. `None` where the literal does not end.
pub open spec fn read_inside(s: Seq<char>) -> Option<(Seq<char>, Seq<char>)>
    decreases s.len(),
{
    if s.len() == 0 {
        None
    } else if s[0] == '"' {
        Some((Seq::empty(), s.skip(1)))
    } else if unit_len(s) > s.len() {
        None
    } else {
        match read_inside(s.skip(unit_len(s))) {
            None => None,
            Some((text, rest)) => Some((seq![unit_char(s)] + text, rest)),
        }
    }
}

/// Reads `opening`, then a string literal, from the front of `s`: the text
/// of the literal and what follows it.
pub open spec fn read_member(s: Seq<char>, opening: Seq<char>) -> Option<(Seq<char>, Seq<char>)> {
    let n = opening.len() + 1;
    if s.len() >= n && s.take(n as int) == opening + seq!['"'] {
        read_inside(s.skip(n as int))
    } else {
        None
    }
}

/// Decodes the wire form of a response: the name of the status and the
/// message, `None` for a text of another form.
pub open spec fn decoded(text: Seq<char>) -> Option<(Seq<char>, Seq<char>)> {
    match read_member(text, "{\"status\":"@) {
        None => None,
        Some((status, rest)) => match read_member(rest, ",\"message\":"@) {
            None => None,
            Some((message, tail)) => if tail == "}"@ {
                Some((status, message))
            } else {
                None
            },
        },
    }
}

/// The wire form of a response: a JSON object with the members `status` and
/// `message`, in this order.
pub open spec fn encoded(response: ResponseView) -> Seq<char> {
    "{\"status\":"@ + json_string(status_name(response.status)) + ",\"message\":"@ + json_string(
        response.message,
    ) + "}"@
}

/// Encodes a response for the wire.
pub fn encode_response(response: &Response) -> (text: String)
    ensures
        text@ == encoded(response@),
{
    let mut text = "{\"status\":".to_owned();
    let status = quote(response.status.name());
    text.append(status.as_str());
    text.append(",\"message\":");
    let message = quote(response.message.as_str());
    text.append(message.as_str());
    text.append("}");
    text
}

} // verus!
