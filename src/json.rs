//! JSON text for the envelopes that the lobby and the endpoints send.

use vstd::prelude::*;

verus! {

/// The compact JSON text of a string value holding `s`: the quoted, escaped string.
pub uninterp spec fn json_text(s: Seq<char>) -> Seq<char>;

/// Text that JSON carries unescaped: no quote, no backslash, no control character.
pub open spec fn plain_text(s: Seq<char>) -> bool {
    forall|i: int|
        0 <= i < s.len() ==> s[i] != '"' && s[i] != '\\' && (s[i] as u32) >= 0x20
}

/// Relies on serde_json's `Display` for `Value::String`: it prints the compact JSON
/// text of the string, which depends on its characters alone. Its escape table
/// leaves every character but `"`, `\` and those below U+0020 as it is, between quotes.
#[verifier::external_body]
pub(crate) fn json_string(s: &str) -> (r: String)
    ensures
        r@ == json_text(s@),
        plain_text(s@) ==> r@ == seq!['"'] + s@ + seq!['"'],
{
    serde_json::Value::String(s.to_string()).to_string()
}

/// Whether two texts are equal.
pub(crate) fn text_eq(a: &str, b: &str) -> (r: bool)
    ensures
        r == (a@ == b@),
{
    a.to_owned() == b.to_owned()
}

/// The envelope sent to a client: an event, the client it concerns, a message and an error.
pub open spec fn envelope_text(
    event: Seq<char>,
    message: Seq<char>,
    error: Seq<char>,
    conn_id: Seq<char>,
    uid: Seq<char>,
) -> Seq<char> {
    "{\"event\":"@ + json_text(event) + ",\"client\":{\"uid\":"@ + json_text(uid)
        + ",\"conn_id\":"@ + json_text(conn_id) + "},\"message\":"@ + json_text(message)
        + ",\"error\":"@ + json_text(error) + "}"@
}

/// Renders the envelope `{"event", "client": {"uid", "conn_id"}, "message", "error"}`.
pub fn draft_message(event: &str, message: &str, error: &str, conn_id: &str, uid: &str) -> (r:
    String)
    ensures
        r@ == envelope_text(event@, message@, error@, conn_id@, uid@),
{
    let mut out = String::from_str("{\"event\":");
    out.append(json_string(event).as_str());
    out.append(",\"client\":{\"uid\":");
    out.append(json_string(uid).as_str());
    out.append(",\"conn_id\":");
    out.append(json_string(conn_id).as_str());
    out.append("},\"message\":");
    out.append(json_string(message).as_str());
    out.append(",\"error\":");
    out.append(json_string(error).as_str());
    out.append("}");
    out
}

} // verus!
