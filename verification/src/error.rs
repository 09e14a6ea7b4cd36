//! The terminal failure modes of the command-line tool and their
//! structured JSON shape.

use vstd::prelude::*;

use crate::json::Json;
use crate::text::owned;

verus! {

/// One workstation tool the prerequisite checker found missing.
#[derive(Debug, Clone)]
pub struct MissingTool {
    /// Stable identifier (`"xcodegen"`, ...).
    pub tool: String,
    /// The assembly the tool belongs to (`"core"`, `"ios"`, `"android"`).
    pub assembly: String,
    /// The command that verifies the tool.
    pub check: String,
    /// The install hint.
    pub install: String,
}

/// Every terminal failure of a command.
#[derive(Debug)]
pub enum VectisError {
    /// One or more workstation tools are missing.
    MissingPrerequisites { missing: Vec<MissingTool>, message: String },
    /// A filesystem failure, by its message.
    Io(String),
    /// The project structure or configuration is invalid.
    InvalidProject { message: String },
    /// A build or verify step failed.
    Verify { message: String },
    /// An internal invariant was violated.
    Internal { message: String },
}

/// The kebab-case name of a variant.
pub open spec fn variant_name(e: VectisError) -> Seq<char> {
    match e {
        VectisError::MissingPrerequisites { .. } => "missing-prerequisites"@,
        VectisError::Io(_) => "io"@,
        VectisError::InvalidProject { .. } => "invalid-project"@,
        VectisError::Verify { .. } => "verify"@,
        VectisError::Internal { .. } => "internal"@,
    }
}

/// The message an error carries.
pub open spec fn error_message(e: VectisError) -> Seq<char> {
    match e {
        VectisError::MissingPrerequisites { message, .. } => message@,
        VectisError::Io(message) => message@,
        VectisError::InvalidProject { message } => message@,
        VectisError::Verify { message } => message@,
        VectisError::Internal { message } => message@,
    }
}

/// An object member `key` holding the string `v`.
pub open spec fn str_member(m: (String, Json), key: Seq<char>, v: Seq<char>) -> bool {
    m.0@ == key && m.1 is Str && m.1->Str_0@ == v
}

/// The JSON shape of a missing tool: `tool`, `assembly`, `check`,
/// `install`, in that order.
pub open spec fn is_tool_json(j: Json, t: MissingTool) -> bool {
    &&& j is Object
    &&& j->Object_0@.len() == 4
    &&& str_member(j->Object_0@[0], "tool"@, t.tool@)
    &&& str_member(j->Object_0@[1], "assembly"@, t.assembly@)
    &&& str_member(j->Object_0@[2], "check"@, t.check@)
    &&& str_member(j->Object_0@[3], "install"@, t.install@)
}

/// The structured JSON shape of an error: `error` (the variant name),
/// then `missing` (the tools, for missing prerequisites), then
/// `message`.
pub open spec fn is_error_json(j: Json, e: VectisError) -> bool {
    &&& j is Object
    &&& str_member(j->Object_0@[0], "error"@, variant_name(e))
    &&& match e {
        VectisError::MissingPrerequisites { missing, message } => {
            &&& j->Object_0@.len() == 3
            &&& j->Object_0@[1].0@ == "missing"@
            &&& j->Object_0@[1].1 is Array
            &&& j->Object_0@[1].1->Array_0@.len() == missing@.len()
            &&& forall|k: int|
                0 <= k < missing@.len() ==> is_tool_json(
                    #[trigger] j->Object_0@[1].1->Array_0@[k],
                    missing@[k],
                )
            &&& str_member(j->Object_0@[2], "message"@, message@)
        },
        _ => {
            &&& j->Object_0@.len() == 2
            &&& str_member(j->Object_0@[1], "message"@, error_message(e))
        },
    }
}

/// The JSON shape of one missing tool.
pub fn tool_json(t: &MissingTool) -> (r: Json)
    ensures
        is_tool_json(r, *t),
{
    let mut es: Vec<(String, Json)> = Vec::new();
    es.push((owned("tool"), Json::Str(t.tool.clone())));
    es.push((owned("assembly"), Json::Str(t.assembly.clone())));
    es.push((owned("check"), Json::Str(t.check.clone())));
    es.push((owned("install"), Json::Str(t.install.clone())));
    Json::Object(es)
}

impl VectisError {
    /// The process exit code: 2 for missing prerequisites (so a caller
    /// can tell an incomplete workstation from a failure), 1 otherwise.
    pub fn exit_code(&self) -> (r: i32)
        ensures
            r == (if *self is MissingPrerequisites {
                2i32
            } else {
                1i32
            }),
    {
        match self {
            VectisError::MissingPrerequisites { .. } => 2,
            _ => 1,
        }
    }

    /// The kebab-case identifier of the variant.
    pub fn variant_str(&self) -> (r: &'static str)
        ensures
            r@ == variant_name(*self),
    {
        match self {
            VectisError::MissingPrerequisites { .. } => "missing-prerequisites",
            VectisError::Io(_) => "io",
            VectisError::InvalidProject { .. } => "invalid-project",
            VectisError::Verify { .. } => "verify",
            VectisError::Internal { .. } => "internal",
        }
    }

    /// The structured JSON shape of the error.
    pub fn to_json(&self) -> (r: Json)
        ensures
            is_error_json(r, *self),
    {
        let mut es: Vec<(String, Json)> = Vec::new();
        es.push((owned("error"), Json::Str(owned(self.variant_str()))));
        match self {
            VectisError::MissingPrerequisites { missing, message } => {
                let mut tools: Vec<Json> = Vec::new();
                let mut i: usize = 0;
                while i < missing.len()
                    invariant
                        i <= missing@.len(),
                        tools@.len() == i,
                        forall|k: int| 0 <= k < i ==> is_tool_json(#[trigger] tools@[k], missing@[k]),
                    decreases missing@.len() - i,
                {
                    tools.push(tool_json(&missing[i]));
                    i = i + 1;
                }
                es.push((owned("missing"), Json::Array(tools)));
                es.push((owned("message"), Json::Str(message.clone())));
            },
            VectisError::Io(message) => {
                es.push((owned("message"), Json::Str(message.clone())));
            },
            VectisError::InvalidProject { message } => {
                es.push((owned("message"), Json::Str(message.clone())));
            },
            VectisError::Verify { message } => {
                es.push((owned("message"), Json::Str(message.clone())));
            },
            VectisError::Internal { message } => {
                es.push((owned("message"), Json::Str(message.clone())));
            },
        }
        Json::Object(es)
    }
}


/// The one-line rendering of an error: a prefix naming the variant, then
/// its message.
pub open spec fn error_display(e: VectisError) -> Seq<char> {
    match e {
        VectisError::MissingPrerequisites { message, .. } => "missing prerequisites: "@ + message@,
        VectisError::Io(message) => "io error: "@ + message@,
        VectisError::InvalidProject { message } => "invalid project: "@ + message@,
        VectisError::Verify { message } => "verify failed: "@ + message@,
        VectisError::Internal { message } => "internal error: "@ + message@,
    }
}

impl VectisError {
    /// The one-line rendering of the error (see `error_display`).
    pub fn display_text(&self) -> (r: String)
        ensures
            r@ == error_display(*self),
    {
        match self {
            VectisError::MissingPrerequisites { message, .. } => crate::text::cat(
                "missing prerequisites: ",
                message.as_str(),
            ),
            VectisError::Io(message) => crate::text::cat("io error: ", message.as_str()),
            VectisError::InvalidProject { message } => crate::text::cat(
                "invalid project: ",
                message.as_str(),
            ),
            VectisError::Verify { message } => crate::text::cat("verify failed: ", message.as_str()),
            VectisError::Internal { message } => crate::text::cat(
                "internal error: ",
                message.as_str(),
            ),
        }
    }
}

} // verus!
