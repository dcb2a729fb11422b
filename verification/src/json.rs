//! JSON values as the web API's replies hold them, with the lookups that
//! the client makes and the compact text that `serde_json` writes for them.
use vstd::prelude::*;
use vstd::string::*;

use crate::signature::hex_char;
use crate::text::str_eq;

verus! {

/// A JSON value.
pub enum Json {
    Null,
    Bool(bool),
    /// A number, held as the text that `serde_json` writes for it.
    Number(String),
    Str(String),
    Array(Vec<Json>),
    /// The members of an object, in the order in which `serde_json` holds
    /// them (ascending order of name).
    Object(Vec<(String, Json)>),
}

// ---------------------------------------------------------------------------
// Lookups
// ---------------------------------------------------------------------------

/// The first member named `name` of a list of members.
pub open spec fn member_in(members: Seq<(String, Json)>, name: Seq<char>) -> Option<Json>
    decreases members.len(),
{
    if members.len() == 0 {
        None
    } else if members[0].0@ == name {
        Some(members[0].1)
    } else {
        member_in(members.drop_first(), name)
    }
}

/// The member named `name` of an object (`Value::get` with a name): `None`
/// for a value that is not an object, or has no such member.
pub open spec fn member(j: Json, name: Seq<char>) -> Option<Json> {
    match j {
        Json::Object(members) => member_in(members@, name),
        _ => None,
    }
}

/// The text of a string value (`Value::as_str`).
pub open spec fn as_text(j: Json) -> Option<Seq<char>> {
    match j {
        Json::Str(s) => Some(s@),
        _ => None,
    }
}

/// The text of the string member `name`, if the value has one.
pub open spec fn text_member(j: Json, name: Seq<char>) -> Option<Seq<char>> {
    match member(j, name) {
        Some(m) => as_text(m),
        None => None,
    }
}

impl Json {
    /// The member named `name`, if this is an object that has one.
    pub fn get(&self, name: &str) -> (r: Option<&Json>)
        ensures
            match r {
                Some(m) => member(*self, name@) == Some(*m),
                None => member(*self, name@) is None,
            },
    {
        match self {
            Json::Object(members) => {
                let n = members.len();
                let mut i: usize = 0;
                assert(members@.skip(0) =~= members@);
                while i < n
                    invariant
                        n == members@.len(),
                        i <= n,
                        member(*self, name@) == member_in(members@, name@),
                        member_in(members@, name@) == member_in(members@.skip(i as int), name@),
                    decreases n - i,
                {
                    assert(members@.skip(i as int)[0] == members@[i as int]);
                    if str_eq(members[i].0.as_str(), name) {
                        return Some(&members[i].1);
                    }
                    assert(members@.skip(i as int).drop_first() =~= members@.skip(i + 1));
                    i = i + 1;
                }
                None
            },
            _ => None,
        }
    }

    /// The text of this value, if it is a string.
    pub fn as_str(&self) -> (r: Option<&str>)
        ensures
            match r {
                Some(s) => as_text(*self) == Some(s@),
                None => as_text(*self) is None,
            },
    {
        match self {
            Json::Str(s) => Some(s.as_str()),
            _ => None,
        }
    }
}

// ---------------------------------------------------------------------------
// Compact text
// ---------------------------------------------------------------------------

/// How `serde_json` writes one character inside a string: `"` and `\` and
/// the control characters below U+0020 are escaped (with the short forms
/// `\b \t \n \f \r` where they exist, else `\u00` and two lowercase hex
/// digits); every other character is written as it is.
pub open spec fn escaped_char(c: char) -> Seq<char> {
    let n = c as u32;
    if c == '"' {
        seq!['\\', '"']
    } else if c == '\\' {
        seq!['\\', '\\']
    } else if n == 8 {
        seq!['\\', 'b']
    } else if n == 9 {
        seq!['\\', 't']
    } else if n == 10 {
        seq!['\\', 'n']
    } else if n == 12 {
        seq!['\\', 'f']
    } else if n == 13 {
        seq!['\\', 'r']
    } else if n < 32 {
        seq!['\\', 'u', '0', '0', hex_char(n as nat / 16), hex_char(n as nat % 16)]
    } else {
        seq![c]
    }
}

/// The escaped characters of a text, one after the other.
pub open spec fn escaped(s: Seq<char>) -> Seq<char>
    decreases s.len(),
{
    if s.len() == 0 {
        seq![]
    } else {
        escaped(s.drop_last()) + escaped_char(s.last())
    }
}

/// A text as a JSON string literal: quoted, with its characters escaped.
pub open spec fn string_literal(s: Seq<char>) -> Seq<char> {
    seq!['"'] + escaped(s) + seq!['"']
}

/// Calls `serde_json::to_string` on a text. Claimed: the result is the JSON
/// string literal of the text, escaped as the crate's `ESCAPE` table and
/// `write_char_escape` do (serialising a `str` into memory cannot fail).
#[verifier::external_body]
fn quote(s: &str) -> (r: String)
    ensures
        r@ == string_literal(s@),
{
    serde_json::to_string(s).unwrap_or_default()
}

/// The compact text of a value, as `serde_json` writes it (`Display` of a
/// `Value`): no spaces, members as `"name":value`, separated by commas.
pub open spec fn render(j: Json) -> Seq<char>
    decreases j,
{
    match j {
        Json::Null => "null"@,
        Json::Bool(b) => if b {
            "true"@
        } else {
            "false"@
        },
        Json::Number(t) => t@,
        Json::Str(s) => string_literal(s@),
        Json::Array(items) => "["@ + render_items(items@, items@.len() as int) + "]"@,
        Json::Object(members) => "{"@ + render_members(members@, members@.len() as int) + "}"@,
    }
}

/// The first `n` items of an array, rendered and separated by commas.
pub open spec fn render_items(items: Seq<Json>, n: int) -> Seq<char>
    decreases items, n,
{
    if n <= 0 || n > items.len() {
        seq![]
    } else if n == 1 {
        render(items[0])
    } else {
        render_items(items, n - 1) + ","@ + render(items[n - 1])
    }
}

/// The first `n` members of an object, each as its quoted name, a colon and
/// its rendered value, separated by commas.
pub open spec fn render_members(members: Seq<(String, Json)>, n: int) -> Seq<char>
    decreases members, n,
{
    if n <= 0 || n > members.len() {
        seq![]
    } else if n == 1 {
        render_member(members[0])
    } else {
        render_members(members, n - 1) + ","@ + render_member(members[n - 1])
    }
}

/// One member of an object.
pub open spec fn render_member(m: (String, Json)) -> Seq<char>
    decreases m,
{
    string_literal(m.0@) + ":"@ + render(m.1)
}

/// Writes a value as compact JSON text.
pub fn render_json(j: &Json) -> (r: String)
    ensures
        r@ == render(*j),
    decreases j,
{
    match j {
        Json::Null => String::from_str("null"),
        Json::Bool(b) => if *b {
            String::from_str("true")
        } else {
            String::from_str("false")
        },
        Json::Number(t) => String::from_str(t.as_str()),
        Json::Str(s) => quote(s.as_str()),
        Json::Array(items) => {
            let mut out = String::from_str("[");
            let n = items.len();
            let mut i: usize = 0;
            while i < n
                invariant
                    n == items@.len(),
                    i <= n,
                    out@ == "["@ + render_items(items@, i as int),
                    *j == Json::Array(*items),
                decreases n - i,
            {
                if i > 0 {
                    out.append(",");
                }
                proof {
                    assert(decreases_to!(*j => (*j)->Array_0));
                    assert(decreases_to!(*items => items@));
                    assert(decreases_to!(items@ => items@[i as int]));
                    assert(decreases_to!(*j => items@[i as int]));
                }
                let item = render_json(&items[i]);
                out.append(item.as_str());
                i = i + 1;
            }
            out.append("]");
            out
        },
        Json::Object(members) => {
            let mut out = String::from_str("{");
            let n = members.len();
            let mut i: usize = 0;
            while i < n
                invariant
                    n == members@.len(),
                    i <= n,
                    out@ == "{"@ + render_members(members@, i as int),
                    *j == Json::Object(*members),
                decreases n - i,
            {
                if i > 0 {
                    out.append(",");
                }
                let name = quote(members[i].0.as_str());
                out.append(name.as_str());
                out.append(":");
                proof {
                    assert(decreases_to!(*j => (*j)->Object_0));
                    assert(decreases_to!(*members => members@));
                    assert(decreases_to!(members@ => members@[i as int]));
                    assert(decreases_to!(members@[i as int] => members@[i as int].1));
                    assert(decreases_to!(*j => members@[i as int].1));
                }
                let ghost before = out@;
                let value = render_json(&members[i].1);
                out.append(value.as_str());
                proof {
                    assert(render_member(members@[i as int]) == string_literal(members@[i as int].0@) + ":"@
                        + render(members@[i as int].1));
                    assert(out@ =~= "{"@ + render_members(members@, i + 1));
                }
                i = i + 1;
            }
            out.append("}");
            out
        },
    }
}

} // verus!
