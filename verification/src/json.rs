//! JSON text, as far as the error bodies need it.
use vstd::prelude::*;
use vstd::string::StringExecFns;

verus! {

/// The JSON string literal for `s`: what `serde_json::to_string` returns for a
/// string, quotes and escapes included.
pub uninterp spec fn json_string(s: Seq<char>) -> Seq<char>;

/// `serde_json::to_string` on a string slice. Its documentation names two ways
/// to fail, a `Serialize` impl that gives up and a map with keys that are no
/// strings; a string slice is neither, and the text goes to a `Vec`, which
/// takes every write. So the result is there, and it is the literal.
#[verifier::external_body]
fn to_json_string(s: &str) -> (quoted: Option<String>)
    ensures
        quoted is Some,
        quoted->Some_0@ == json_string(s@),
{
    serde_json::to_string(s).ok()
}

/// The JSON object whose one member `msg` has `literal` as its value, in
/// compact form.
pub open spec fn msg_member(literal: Seq<char>) -> Seq<char> {
    "{\"msg\":"@ + literal + "}"@
}

/// The JSON object with the one member `msg` and the string `msg` as its value.
pub open spec fn msg_object(msg: Seq<char>) -> Seq<char> {
    msg_member(json_string(msg))
}

/// Puts a JSON value, given as text, into an object as its one member `msg`.
pub fn msg_member_text(literal: &str) -> (text: String)
    ensures
        text@ == msg_member(literal@),
{
    String::from_str("{\"msg\":").concat(literal).concat("}")
}

/// Writes `msg` as the object `{"msg":...}`.
pub fn msg_object_text(msg: &str) -> (text: String)
    ensures
        text@ == msg_object(msg@),
{
    let quoted = to_json_string(msg);
    match quoted {
        Some(literal) => msg_member_text(literal.as_str()),
        None => String::new(),
    }
}

} // verus!
