//! What the command-line client prints, and how it ends.
use vstd::prelude::*;

verus! {

/// A lower-case hexadecimal digit.
pub open spec fn hex_digit(n: int) -> char {
    if n < 10 {
        (('0' as int) + n) as char
    } else {
        (('a' as int) + n - 10) as char
    }
}

/// How one character is written inside a JSON string: quote and backslash
/// after a backslash, the five usual control characters by their short
/// escapes, the other control characters as `\u00` and two hex digits, and
/// every other character as it is.
pub open spec fn json_escape(c: char) -> Seq<char> {
    if c == '"' {
        seq!['\\', '"']
    } else if c == '\\' {
        seq!['\\', '\\']
    } else if c == '\x08' {
        seq!['\\', 'b']
    } else if c == '\t' {
        seq!['\\', 't']
    } else if c == '\n' {
        seq!['\\', 'n']
    } else if c == '\x0C' {
        seq!['\\', 'f']
    } else if c == '\r' {
        seq!['\\', 'r']
    } else if (c as int) < 0x20 {
        seq!['\\', 'u', '0', '0', hex_digit((c as int) / 16), hex_digit((c as int) % 16)]
    } else {
        seq![c]
    }
}

/// The characters of `s`, each written as in a JSON string.
pub open spec fn json_escaped(s: Seq<char>) -> Seq<char>
    decreases s.len(),
{
    if s.len() == 0 {
        seq![]
    } else {
        json_escaped(s.drop_last()) + json_escape(s.last())
    }
}

/// The JSON text of a string: in double quotes, escaped.
pub open spec fn json_string_text(s: Seq<char>) -> Seq<char> {
    seq!['"'] + json_escaped(s) + seq!['"']
}

/// `serde_json::to_string` on a string. Claimed: the result is the JSON text
/// of `s`, as `format_escaped_str` and its escape table write it (compact
/// formatter). Serialising a `str` cannot fail (it only writes to the
/// in-memory buffer); the empty default of the error arm is never taken.
#[verifier::external_body]
fn json_string(s: &str) -> (res: String)
    ensures
        res@ == json_string_text(s@),
{
    serde_json::to_string(s).unwrap_or_default()
}

/// How the client ends: the line it prints and its exit status.
pub struct CliExit {
    pub code: i32,
    pub line: String,
}

/// A message that ends the client with failure, in red after a cross.
pub open spec fn failure_text(msg: Seq<char>) -> Seq<char> {
    "\x1b[91m✘ ⎹ "@ + msg + "\x1b[0m"@
}

/// A message that ends the client with success, in green after a tick.
pub open spec fn success_text(msg: Seq<char>) -> Seq<char> {
    "\x1b[92m✔ ⎹ "@ + msg + "\x1b[0m"@
}

/// An informational line, in blue after an information sign.
pub open spec fn notice_text(msg: Seq<char>) -> Seq<char> {
    "\x1b[94m🛈 ⎹ "@ + msg + "\x1b[0m"@
}

/// A plain informational line after an information sign.
pub open spec fn info_text(msg: Seq<char>) -> Seq<char> {
    "🛈 ⎹ "@ + msg
}

/// Ends the client with failure (status 1) after printing `msg`.
pub fn no(msg: &str) -> (res: CliExit)
    ensures
        res.code == 1,
        res.line@ == failure_text(msg@),
{
    let mut line = String::from_str("\x1b[91m✘ ⎹ ");
    line.append(msg);
    line.append("\x1b[0m");
    CliExit { code: 1, line }
}

/// Ends the client with success (status 0) after printing `msg`.
pub fn yes(msg: &str) -> (res: CliExit)
    ensures
        res.code == 0,
        res.line@ == success_text(msg@),
{
    let mut line = String::from_str("\x1b[92m✔ ⎹ ");
    line.append(msg);
    line.append("\x1b[0m");
    CliExit { code: 0, line }
}

/// The plain informational line of `msg`.
pub fn maybe(msg: &str) -> (res: String)
    ensures
        res@ == info_text(msg@),
{
    let mut line = String::from_str("🛈 ⎹ ");
    line.append(msg);
    line
}

/// The coloured informational line of `msg`.
pub fn almost(msg: &str) -> (res: String)
    ensures
        res@ == notice_text(msg@),
{
    let mut line = String::from_str("\x1b[94m🛈 ⎹ ");
    line.append(msg);
    line.append("\x1b[0m");
    line
}

/// The address that checks a secondary token on the authentication server.
pub fn login_endpoint(auth_server: &str) -> (res: String)
    ensures
        res@ == auth_server@ + "/api/v1/auth/login-st"@,
{
    let mut url = String::from_str(auth_server);
    url.append("/api/v1/auth/login-st");
    url
}

/// The JSON body of a login request: an object whose `uid` is the token.
pub fn login_body(token: &str) -> (res: String)
    ensures
        res@ == "{\"uid\":"@ + json_string_text(token@) + "}"@,
{
    let mut body = String::from_str("{\"uid\":");
    let uid = json_string(token);
    body.append(uid.as_str());
    body.append("}");
    body
}

/// The failure message of a login that the server did not accept.
pub const LOGIN_REJECTED: &'static str = "Failed to send request! Token may be invalid or the server may be unreachable.";

/// The failure message of a token that could not be saved.
pub const TOKEN_NOT_WRITTEN: &'static str = "Failed to write token!";

/// The success message of a saved token.
pub const TOKEN_WRITTEN: &'static str = "Token written to configuration!";

/// What the client does with the server's answer to a login: it goes on to
/// save the token only on status 200, and else ends with failure.
pub fn login_response(status: u16) -> (res: Option<CliExit>)
    ensures
        res is None <==> status == 200,
        res matches Some(e) ==> e.code == 1 && e.line@ == failure_text(LOGIN_REJECTED@),
{
    if status != 200 {
        Some(no(LOGIN_REJECTED))
    } else {
        None
    }
}

/// How the client ends after saving the token: with success if it was
/// written, else with failure.
pub fn token_saved(written: bool) -> (res: CliExit)
    ensures
        written ==> res.code == 0 && res.line@ == success_text(TOKEN_WRITTEN@),
        !written ==> res.code == 1 && res.line@ == failure_text(TOKEN_NOT_WRITTEN@),
{
    if written {
        yes(TOKEN_WRITTEN)
    } else {
        no(TOKEN_NOT_WRITTEN)
    }
}

/// The address of paste `paste` on `server`.
pub fn paste_address(server: &str, paste: &str) -> (res: String)
    ensures
        res@ == server@ + "/"@ + paste@,
{
    let mut url = String::from_str(server);
    url.append("/");
    url.append(paste);
    url
}

/// How the client ends on `view`, given the server's answer to the request
/// for the paste (`None` when no answer came): with status 200 it shows the
/// paste and succeeds; otherwise it fails and prints the paste's name.
pub fn view_paste(paste: &str, status: Option<u16>, content: &str) -> (res: CliExit)
    ensures
        status == Some(200u16) ==> res.code == 0 && res.line@ == content@,
        status != Some(200u16) ==> res.code == 1 && res.line@ == failure_text(paste@),
{
    match status {
        Some(200) => CliExit { code: 0, line: String::from_str(content) },
        _ => no(paste),
    }
}

} // verus!
