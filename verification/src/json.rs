//! A JSON document model (what a parsed YAML / JSON artifact holds) and
//! the JSON-Pointer helpers the validators use to name locations.

use vstd::prelude::*;

use crate::text::{
    cat, chars_of, decimal, owned, replace_all, replace_seq, str_eq, string_of, usize_to_text,
};

verus! {

/// A parsed JSON / YAML value. Object members keep their document order
/// (for documents parsed through `serde_json`, that is key order); keys
/// are unique.
#[derive(Debug)]
pub enum Json {
    Null,
    Bool(bool),
    /// A number, kept as its textual rendering.
    Number(String),
    Str(String),
    Array(Vec<Json>),
    Object(Vec<(String, Json)>),
}

/// The first member of `entries` named `key`.
pub open spec fn member(entries: Seq<(String, Json)>, key: Seq<char>) -> Option<Json>
    decreases entries.len(),
{
    if entries.len() == 0 {
        None
    } else if entries[0].0@ == key {
        Some(entries[0].1)
    } else {
        member(entries.subrange(1, entries.len() as int), key)
    }
}

/// The value an optional reference points at.
pub open spec fn opt_ref(o: Option<&Json>) -> Option<Json> {
    match o {
        Some(v) => Some(*v),
        None => None,
    }
}

/// `Value::get(key)`: the member `key` of an object; `None` for anything
/// else.
pub open spec fn get(j: Json, key: Seq<char>) -> Option<Json> {
    match j {
        Json::Object(entries) => member(entries@, key),
        _ => None,
    }
}

/// `Value::as_str`.
pub open spec fn as_str(j: Json) -> Option<Seq<char>> {
    match j {
        Json::Str(s) => Some(s@),
        _ => None,
    }
}

/// The string held at `key` of `j`, if `j` is an object with a string
/// member `key`.
pub open spec fn get_str(j: Json, key: Seq<char>) -> Option<Seq<char>> {
    match get(j, key) {
        Some(v) => as_str(v),
        None => None,
    }
}

/// The member `key` of an optional value.
pub open spec fn get_opt(j: Option<Json>, key: Seq<char>) -> Option<Json> {
    match j {
        Some(v) => get(v, key),
        None => None,
    }
}

/// The object members of an optional value, if it is an object.
pub open spec fn obj_entries(j: Option<Json>) -> Option<Seq<(String, Json)>> {
    match j {
        Some(Json::Object(es)) => Some(es@),
        _ => None,
    }
}

/// An object's members contain `key`.
pub open spec fn has_key(entries: Seq<(String, Json)>, key: Seq<char>) -> bool {
    member(entries, key) is Some
}

impl Json {
    /// `Value::get(key)`.
    pub fn get(&self, key: &str) -> (r: Option<&Json>)
        ensures
            opt_ref(r) == get(*self, key@),
    {
        match self {
            Json::Object(entries) => member_of(entries, key),
            _ => None,
        }
    }

    /// `Value::as_str`.
    pub fn as_str(&self) -> (r: Option<&String>)
        ensures
            match r {
                Some(s) => as_str(*self) == Some(s@),
                None => as_str(*self) is None,
            },
    {
        match self {
            Json::Str(s) => Some(s),
            _ => None,
        }
    }

    /// The string member `key`, if present.
    pub fn get_str(&self, key: &str) -> (r: Option<&String>)
        ensures
            match r {
                Some(s) => get_str(*self, key@) == Some(s@),
                None => get_str(*self, key@) is None,
            },
    {
        match self.get(key) {
            Some(v) => v.as_str(),
            None => None,
        }
    }

    /// `Value::as_object`.
    pub fn as_object(&self) -> (r: Option<&Vec<(String, Json)>>)
        ensures
            match r {
                Some(es) => *self == Json::Object(*es),
                None => !(*self is Object),
            },
    {
        match self {
            Json::Object(es) => Some(es),
            _ => None,
        }
    }

    /// A string value.
    pub fn text(s: &str) -> (r: Json)
        ensures
            r == Json::Str(r->Str_0) && r->Str_0@ == s@,
    {
        Json::Str(owned(s))
    }
}

/// Executable `member`.
pub fn member_of<'a>(entries: &'a Vec<(String, Json)>, key: &str) -> (r: Option<&'a Json>)
    ensures
        opt_ref(r) == member(entries@, key@),
{
    let mut i: usize = 0;
    assert(entries@.subrange(0, entries@.len() as int) =~= entries@);
    while i < entries.len()
        invariant
            i <= entries@.len(),
            member(entries@.subrange(i as int, entries@.len() as int), key@) == member(
                entries@,
                key@,
            ),
        decreases entries@.len() - i,
    {
        let ghost rest = entries@.subrange(i as int, entries@.len() as int);
        assert(rest.subrange(1, rest.len() as int) =~= entries@.subrange(
            i + 1,
            entries@.len() as int,
        ));
        assert(rest[0] == entries@[i as int]);
        if str_eq(entries[i].0.as_str(), key) {
            return Some(&entries[i].1);
        }
        i = i + 1;
    }
    None
}

/// Does an object's member list contain `key`?
pub fn has_key_of(entries: &Vec<(String, Json)>, key: &str) -> (r: bool)
    ensures
        r == has_key(entries@, key@),
{
    member_of(entries, key).is_some()
}

// ---------------------------------------------------------------------
// Findings.
// ---------------------------------------------------------------------

/// One error or warning entry: a JSON-Pointer-shaped location and a
/// message.
#[derive(Debug, Clone)]
pub struct Finding {
    pub path: String,
    pub message: String,
}

/// The (path, message) pair a finding stands for.
pub open spec fn finding_view(f: Finding) -> (Seq<char>, Seq<char>) {
    (f.path@, f.message@)
}

/// The (path, message) pairs of a list of findings.
pub open spec fn findings_view(fs: Seq<Finding>) -> Seq<(Seq<char>, Seq<char>)> {
    fs.map_values(|f: Finding| finding_view(f))
}

/// Build a finding.
pub fn finding(path: String, message: String) -> (r: Finding)
    ensures
        finding_view(r) == (path@, message@),
{
    Finding { path, message }
}

/// Append one finding.
pub fn push_finding(out: &mut Vec<Finding>, path: String, message: String)
    ensures
        findings_view(final(out)@) == findings_view(old(out)@).push((path@, message@)),
{
    let ghost before = out@;
    out.push(Finding { path, message });
    assert(findings_view(out@) =~= findings_view(before).push((path@, message@)));
}

// ---------------------------------------------------------------------
// JSON Pointer.
// ---------------------------------------------------------------------

/// JSON Pointer reference-token escaping: `~` becomes `~0`, then `/` becomes
/// `~1`.
pub open spec fn escaped_token(t: Seq<char>) -> Seq<char> {
    replace_all(replace_all(t, "~"@, "~0"@), "/"@, "~1"@)
}

/// Escape a JSON Pointer reference token.
pub fn escape_pointer_token(token: &str) -> (r: String)
    ensures
        r@ == escaped_token(token@),
{
    proof {
        reveal_strlit("~");
        reveal_strlit("/");
    }
    let t = chars_of(token);
    let tilde = chars_of("~");
    let tilde0 = chars_of("~0");
    let slash = chars_of("/");
    let tilde1 = chars_of("~1");
    let a = replace_seq(&t, &tilde, &tilde0);
    let b = replace_seq(&a, &slash, &tilde1);
    string_of(&b)
}

/// The pointer to member `key` under `base`.
pub open spec fn child_key(base: Seq<char>, key: Seq<char>) -> Seq<char> {
    base + "/"@ + escaped_token(key)
}

/// The pointer to element `i` under `base`.
pub open spec fn child_index(base: Seq<char>, i: nat) -> Seq<char> {
    base + "/"@ + decimal(i)
}

/// Executable `child_key`.
pub fn child_key_of(base: &str, key: &str) -> (r: String)
    ensures
        r@ == child_key(base@, key@),
{
    let mut out = cat(base, "/");
    let e = escape_pointer_token(key);
    out.append(e.as_str());
    out
}

/// Executable `child_index`.
pub fn child_index_of(base: &str, i: usize) -> (r: String)
    ensures
        r@ == child_index(base@, i as nat),
{
    let mut out = cat(base, "/");
    let d = usize_to_text(i);
    out.append(d.as_str());
    out
}

} // verus!
