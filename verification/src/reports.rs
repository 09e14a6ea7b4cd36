//! The success reports of `init`, `add-shell` and `update-versions`,
//! and the one decision `update-versions` takes about writing.

use vstd::prelude::*;

use crate::engine::identity::names_view;
use crate::error::str_member;
use crate::json::Json;
use crate::matrix::{ComboResult, MatrixResult};
use crate::prerequisites::{assembly_tag, AssemblyKind};
use crate::templates::{cap_tag, Capability};
use crate::text::owned;
use crate::update_versions::{Change, Unchanged};
use crate::verify::{all_passed, is_steps_json, steps_array, BuildStep};

verus! {

// ---------------------------------------------------------------------
// Building blocks.
// ---------------------------------------------------------------------

/// `j` is an array of the strings `s`, in order.
pub open spec fn is_str_array(j: Json, s: Seq<Seq<char>>) -> bool {
    &&& j is Array
    &&& j->Array_0@.len() == s.len()
    &&& forall|k: int|
        0 <= k < s.len() ==> (#[trigger] j->Array_0@[k]) is Str && j->Array_0@[k]->Str_0@ == s[k]
}

/// The strings as a JSON array.
pub fn str_array(items: &Vec<String>) -> (j: Json)
    ensures
        is_str_array(j, names_view(items@)),
{
    let mut out: Vec<Json> = Vec::new();
    let mut i: usize = 0;
    while i < items.len()
        invariant
            i <= items@.len(),
            out@.len() == i,
            forall|k: int|
                0 <= k < i ==> (#[trigger] out@[k]) is Str && out@[k]->Str_0@ == items@[k]@,
        decreases items@.len() - i,
    {
        out.push(Json::Str(items[i].clone()));
        i = i + 1;
    }
    Json::Array(out)
}

/// The tags of a list of capabilities.
pub open spec fn cap_tags(caps: Seq<Capability>) -> Seq<Seq<char>> {
    caps.map_values(|c: Capability| cap_tag(c))
}

/// The capabilities' tags as a JSON array.
pub fn tags_array(caps: &[Capability]) -> (j: Json)
    ensures
        is_str_array(j, cap_tags(caps@)),
{
    let mut out: Vec<Json> = Vec::new();
    let mut i: usize = 0;
    while i < caps.len()
        invariant
            i <= caps@.len(),
            out@.len() == i,
            forall|k: int|
                0 <= k < i ==> (#[trigger] out@[k]) is Str && out@[k]->Str_0@ == cap_tag(caps@[k]),
        decreases caps@.len() - i,
    {
        out.push(Json::Str(owned(caps[i].marker_tag())));
        i = i + 1;
    }
    Json::Array(out)
}

/// A freshly written assembly: `status` `"created"`, its `files`, and,
/// for a shell, its build steps under `steps_key`.
pub open spec fn is_created_json(
    j: Json,
    files: Seq<Seq<char>>,
    steps_key: Seq<char>,
    steps: Option<Seq<BuildStep>>,
) -> bool {
    &&& j is Object
    &&& j->Object_0@.len() == (if steps is Some {
        3nat
    } else {
        2nat
    })
    &&& str_member(j->Object_0@[0], "status"@, "created"@)
    &&& j->Object_0@[1].0@ == "files"@ && is_str_array(j->Object_0@[1].1, files)
    &&& steps matches Some(s) ==> j->Object_0@[2].0@ == steps_key && is_steps_json(
        j->Object_0@[2].1,
        s,
    )
}

fn created_json(files: &Vec<String>, steps_key: &str, steps: Option<&Vec<BuildStep>>) -> (j: Json)
    ensures
        is_created_json(
            j,
            names_view(files@),
            steps_key@,
            match steps {
                Some(s) => Some(s@),
                None => None,
            },
        ),
{
    let mut es: Vec<(String, Json)> = Vec::new();
    es.push((owned("status"), Json::Str(owned("created"))));
    es.push((owned("files"), str_array(files)));
    match steps {
        Some(s) => es.push((owned(steps_key), steps_array(s))),
        None => {},
    }
    Json::Object(es)
}

// ---------------------------------------------------------------------
// `init`.
// ---------------------------------------------------------------------

/// A shell that `init` wrote and built: which one, the files written and
/// the build steps that ran.
#[derive(Debug)]
pub struct ShellBuild {
    pub shell: AssemblyKind,
    pub files: Vec<String>,
    pub steps: Vec<BuildStep>,
}

/// The shells are shells (not the core) and each occurs once.
pub open spec fn shells_distinct(shells: Seq<ShellBuild>) -> bool {
    &&& forall|k: int| 0 <= k < shells.len() ==> (#[trigger] shells[k]).shell != AssemblyKind::Core
    &&& forall|a: int, b: int|
        0 <= a < b < shells.len() ==> (#[trigger] shells[a]).shell != (#[trigger] shells[b]).shell
}

/// The `init` report: `app_name` and `app_struct` (both the app name),
/// `project_dir`, `assemblies` (the core's files, then each shell's
/// files and `build_steps`, keyed by the assembly's tag),
/// `capabilities` (their tags) and `shells` (the shells' tags, in the
/// order they were written).
pub fn init_report(
    app_name: &str,
    project_dir: &str,
    core_files: &Vec<String>,
    shells: &Vec<ShellBuild>,
    caps: &[Capability],
) -> (j: Json)
    requires
        shells_distinct(shells@),
    ensures
        j is Object,
        j->Object_0@.len() == 6,
        str_member(j->Object_0@[0], "app_name"@, app_name@),
        str_member(j->Object_0@[1], "app_struct"@, app_name@),
        str_member(j->Object_0@[2], "project_dir"@, project_dir@),
        j->Object_0@[3].0@ == "assemblies"@,
        j->Object_0@[3].1 is Object,
        j->Object_0@[3].1->Object_0@.len() == shells@.len() + 1,
        j->Object_0@[3].1->Object_0@[0].0@ == "core"@,
        is_created_json(
            j->Object_0@[3].1->Object_0@[0].1,
            names_view(core_files@),
            "build_steps"@,
            None,
        ),
        forall|k: int|
            0 <= k < shells@.len() ==> {
                let m = #[trigger] j->Object_0@[3].1->Object_0@[k + 1];
                m.0@ == assembly_tag(shells@[k].shell) && is_created_json(
                    m.1,
                    names_view(shells@[k].files@),
                    "build_steps"@,
                    Some(shells@[k].steps@),
                )
            },
        j->Object_0@[4].0@ == "capabilities"@,
        is_str_array(j->Object_0@[4].1, cap_tags(caps@)),
        j->Object_0@[5].0@ == "shells"@,
        is_str_array(
            j->Object_0@[5].1,
            shells@.map_values(|s: ShellBuild| assembly_tag(s.shell)),
        ),
{
    let mut members: Vec<(String, Json)> = Vec::new();
    members.push((owned("core"), created_json(core_files, "build_steps", None)));
    let mut tags: Vec<Json> = Vec::new();
    let mut i: usize = 0;
    while i < shells.len()
        invariant
            i <= shells@.len(),
            members@.len() == i + 1,
            tags@.len() == i,
            members@[0].0@ == "core"@,
            is_created_json(members@[0].1, names_view(core_files@), "build_steps"@, None),
            forall|k: int|
                0 <= k < i ==> {
                    let m = #[trigger] members@[k + 1];
                    m.0@ == assembly_tag(shells@[k].shell) && is_created_json(
                        m.1,
                        names_view(shells@[k].files@),
                        "build_steps"@,
                        Some(shells@[k].steps@),
                    )
                },
            forall|k: int|
                0 <= k < i ==> (#[trigger] tags@[k]) is Str && tags@[k]->Str_0@ == assembly_tag(
                    shells@[k].shell,
                ),
        decreases shells@.len() - i,
    {
        let s = &shells[i];
        let tag = s.shell.tag();
        members.push((owned(tag), created_json(&s.files, "build_steps", Some(&s.steps))));
        tags.push(Json::Str(owned(tag)));
        proof {
            assert(members@[i + 1].0@ == assembly_tag(shells@[i as int].shell));
        }
        i = i + 1;
    }
    let mut es: Vec<(String, Json)> = Vec::new();
    es.push((owned("app_name"), Json::Str(owned(app_name))));
    es.push((owned("app_struct"), Json::Str(owned(app_name))));
    es.push((owned("project_dir"), Json::Str(owned(project_dir))));
    es.push((owned("assemblies"), Json::Object(members)));
    es.push((owned("capabilities"), tags_array(caps)));
    es.push((owned("shells"), Json::Array(tags)));
    Json::Object(es)
}

// ---------------------------------------------------------------------
// `add-shell`.
// ---------------------------------------------------------------------

/// The `add-shell` report: `app-name`, `project-dir`, `platform` (the
/// shell's tag), `source` (`"app.rs"`), `detected-capabilities` (their
/// tags), `unrecognized-capabilities`, `assembly` (files and
/// `build-steps`) and `passed` (every build step passed).
pub fn add_shell_report(
    app_name: &str,
    project_dir: &str,
    shell: AssemblyKind,
    caps: &[Capability],
    unrecognized: &Vec<String>,
    files: &Vec<String>,
    steps: &Vec<BuildStep>,
) -> (j: Json)
    requires
        shell != AssemblyKind::Core,
    ensures
        j is Object,
        j->Object_0@.len() == 8,
        str_member(j->Object_0@[0], "app-name"@, app_name@),
        str_member(j->Object_0@[1], "project-dir"@, project_dir@),
        str_member(j->Object_0@[2], "platform"@, assembly_tag(shell)),
        str_member(j->Object_0@[3], "source"@, "app.rs"@),
        j->Object_0@[4].0@ == "detected-capabilities"@,
        is_str_array(j->Object_0@[4].1, cap_tags(caps@)),
        j->Object_0@[5].0@ == "unrecognized-capabilities"@,
        is_str_array(j->Object_0@[5].1, names_view(unrecognized@)),
        j->Object_0@[6].0@ == "assembly"@,
        is_created_json(j->Object_0@[6].1, names_view(files@), "build-steps"@, Some(steps@)),
        j->Object_0@[7].0@ == "passed"@,
        j->Object_0@[7].1 == Json::Bool(all_passed(steps@)),
{
    let passed = crate::verify::steps_passed(steps);
    let mut es: Vec<(String, Json)> = Vec::new();
    es.push((owned("app-name"), Json::Str(owned(app_name))));
    es.push((owned("project-dir"), Json::Str(owned(project_dir))));
    es.push((owned("platform"), Json::Str(owned(shell.tag()))));
    es.push((owned("source"), Json::Str(owned("app.rs"))));
    es.push((owned("detected-capabilities"), tags_array(caps)));
    es.push((owned("unrecognized-capabilities"), str_array(unrecognized)));
    es.push((owned("assembly"), created_json(files, "build-steps", Some(steps))));
    es.push((owned("passed"), Json::Bool(passed)));
    Json::Object(es)
}

// ---------------------------------------------------------------------
// `update-versions`.
// ---------------------------------------------------------------------

/// The proposed pins pass when the verify matrix passed or was not run.
pub open spec fn proposal_passed(verification: Option<MatrixResult>) -> bool {
    match verification {
        Some(m) => m.passed,
        None => true,
    }
}

/// The pins file is written exactly when this is not a dry run and the
/// proposal passed: a dry run never writes, and a failing matrix never
/// replaces the pins the user has.
pub fn plan_write(dry_run: bool, verification: &Option<MatrixResult>) -> (w: bool)
    ensures
        w == (!dry_run && proposal_passed(*verification)),
{
    let passed = match verification {
        Some(m) => m.passed,
        None => true,
    };
    !dry_run && passed
}

/// A changed pin as JSON: `key`, `current`, `proposed`.
pub open spec fn is_change_json(j: Json, c: Change) -> bool {
    &&& j is Object
    &&& j->Object_0@.len() == 3
    &&& str_member(j->Object_0@[0], "key"@, c.key@)
    &&& str_member(j->Object_0@[1], "current"@, c.current@)
    &&& str_member(j->Object_0@[2], "proposed"@, c.proposed@)
}

/// An unchanged pin as JSON: `key`, `value`.
pub open spec fn is_unchanged_json(j: Json, u: Unchanged) -> bool {
    &&& j is Object
    &&& j->Object_0@.len() == 2
    &&& str_member(j->Object_0@[0], "key"@, u.key@)
    &&& str_member(j->Object_0@[1], "value"@, u.value@)
}

/// A combination's result as JSON: `caps`, `passed`, then `verify` and
/// `error` when present.
pub open spec fn is_combo_json(j: Json, c: ComboResult) -> bool {
    &&& j is Object
    &&& j->Object_0@.len() == 2 + (if c.verify is Some {
        1int
    } else {
        0int
    }) + (if c.error is Some {
        1int
    } else {
        0int
    })
    &&& str_member(j->Object_0@[0], "caps"@, c.caps@)
    &&& j->Object_0@[1].0@ == "passed"@ && j->Object_0@[1].1 == Json::Bool(c.passed)
    &&& c.verify matches Some(v) ==> j->Object_0@[2].0@ == "verify"@ && j->Object_0@[2].1 == v
    &&& c.error matches Some(e) ==> str_member(j->Object_0@.last(), "error"@, e@)
}

fn combo_json(c: ComboResult) -> (j: Json)
    ensures
        is_combo_json(j, c),
{
    let ghost c0 = c;
    let ComboResult { caps, passed, verify, error } = c;
    let mut es: Vec<(String, Json)> = Vec::new();
    es.push((owned("caps"), Json::Str(caps)));
    es.push((owned("passed"), Json::Bool(passed)));
    match verify {
        Some(v) => es.push((owned("verify"), v)),
        None => {},
    }
    match error {
        Some(e) => es.push((owned("error"), Json::Str(e))),
        None => {},
    }
    Json::Object(es)
}

/// The matrix as JSON: `passed` and each combination.
pub open spec fn is_matrix_json(j: Json, m: MatrixResult) -> bool {
    &&& j is Object
    &&& j->Object_0@.len() == 2
    &&& j->Object_0@[0].0@ == "passed"@ && j->Object_0@[0].1 == Json::Bool(m.passed)
    &&& j->Object_0@[1].0@ == "combos"@
    &&& j->Object_0@[1].1 is Array
    &&& j->Object_0@[1].1->Array_0@.len() == m.combos@.len()
    &&& forall|k: int|
        0 <= k < m.combos@.len() ==> is_combo_json(
            #[trigger] j->Object_0@[1].1->Array_0@[k],
            m.combos@[k],
        )
}

fn matrix_json(m: MatrixResult) -> (j: Json)
    ensures
        is_matrix_json(j, m),
{
    let ghost m0 = m;
    let MatrixResult { passed, combos } = m;
    let mut items: Vec<Json> = Vec::new();
    let mut rest = combos;
    let ghost all = rest@;
    let n = rest.len();
    let mut i: usize = 0;
    while rest.len() > 0
        invariant
            n == all.len(),
            i + rest@.len() == all.len(),
            rest@ == all.subrange(i as int, all.len() as int),
            items@.len() == i,
            forall|k: int| 0 <= k < i ==> is_combo_json(#[trigger] items@[k], all[k]),
        decreases rest@.len(),
    {
        let c = rest.remove(0);
        assert(c == all[i as int]);
        items.push(combo_json(c));
        i = i + 1;
        assert(rest@ =~= all.subrange(i as int, all.len() as int));
    }
    let mut es: Vec<(String, Json)> = Vec::new();
    es.push((owned("passed"), Json::Bool(passed)));
    es.push((owned("combos"), Json::Array(items)));
    Json::Object(es)
}

/// The `update-versions` report: `version_file`, `dry_run`, `verify`,
/// `passed` (the proposal passed), `written`, `changes`, `unchanged`,
/// then `errors` when a probe failed and `verification` when the matrix
/// ran.
pub fn update_report(
    version_file: &str,
    dry_run: bool,
    verify: bool,
    written: bool,
    changes: &Vec<Change>,
    unchanged: &Vec<Unchanged>,
    errors: &Vec<String>,
    verification: Option<MatrixResult>,
) -> (j: Json)
    ensures
        j is Object,
        j->Object_0@.len() == 7 + (if errors@.len() > 0 {
            1int
        } else {
            0int
        }) + (if verification is Some {
            1int
        } else {
            0int
        }),
        str_member(j->Object_0@[0], "version_file"@, version_file@),
        j->Object_0@[1].0@ == "dry_run"@ && j->Object_0@[1].1 == Json::Bool(dry_run),
        j->Object_0@[2].0@ == "verify"@ && j->Object_0@[2].1 == Json::Bool(verify),
        j->Object_0@[3].0@ == "passed"@ && j->Object_0@[3].1 == Json::Bool(
            proposal_passed(verification),
        ),
        j->Object_0@[4].0@ == "written"@ && j->Object_0@[4].1 == Json::Bool(written),
        j->Object_0@[5].0@ == "changes"@,
        j->Object_0@[5].1 is Array,
        j->Object_0@[5].1->Array_0@.len() == changes@.len(),
        forall|k: int|
            0 <= k < changes@.len() ==> is_change_json(
                #[trigger] j->Object_0@[5].1->Array_0@[k],
                changes@[k],
            ),
        j->Object_0@[6].0@ == "unchanged"@,
        j->Object_0@[6].1 is Array,
        j->Object_0@[6].1->Array_0@.len() == unchanged@.len(),
        forall|k: int|
            0 <= k < unchanged@.len() ==> is_unchanged_json(
                #[trigger] j->Object_0@[6].1->Array_0@[k],
                unchanged@[k],
            ),
        errors@.len() > 0 ==> j->Object_0@[7].0@ == "errors"@ && is_str_array(
            j->Object_0@[7].1,
            names_view(errors@),
        ),
        verification matches Some(m) ==> j->Object_0@.last().0@ == "verification"@
            && is_matrix_json(j->Object_0@.last().1, m),
{
    let passed = match &verification {
        Some(m) => m.passed,
        None => true,
    };
    let mut cs: Vec<Json> = Vec::new();
    let mut i: usize = 0;
    while i < changes.len()
        invariant
            i <= changes@.len(),
            cs@.len() == i,
            forall|k: int| 0 <= k < i ==> is_change_json(#[trigger] cs@[k], changes@[k]),
        decreases changes@.len() - i,
    {
        let c = &changes[i];
        let mut m: Vec<(String, Json)> = Vec::new();
        m.push((owned("key"), Json::Str(c.key.clone())));
        m.push((owned("current"), Json::Str(c.current.clone())));
        m.push((owned("proposed"), Json::Str(c.proposed.clone())));
        cs.push(Json::Object(m));
        i = i + 1;
    }
    let mut us: Vec<Json> = Vec::new();
    let mut i: usize = 0;
    while i < unchanged.len()
        invariant
            i <= unchanged@.len(),
            us@.len() == i,
            forall|k: int| 0 <= k < i ==> is_unchanged_json(#[trigger] us@[k], unchanged@[k]),
        decreases unchanged@.len() - i,
    {
        let u = &unchanged[i];
        let mut m: Vec<(String, Json)> = Vec::new();
        m.push((owned("key"), Json::Str(u.key.clone())));
        m.push((owned("value"), Json::Str(u.value.clone())));
        us.push(Json::Object(m));
        i = i + 1;
    }
    let mut es: Vec<(String, Json)> = Vec::new();
    es.push((owned("version_file"), Json::Str(owned(version_file))));
    es.push((owned("dry_run"), Json::Bool(dry_run)));
    es.push((owned("verify"), Json::Bool(verify)));
    es.push((owned("passed"), Json::Bool(passed)));
    es.push((owned("written"), Json::Bool(written)));
    es.push((owned("changes"), Json::Array(cs)));
    es.push((owned("unchanged"), Json::Array(us)));
    if errors.len() > 0 {
        es.push((owned("errors"), str_array(errors)));
    }
    match verification {
        Some(m) => es.push((owned("verification"), matrix_json(m))),
        None => {},
    }
    Json::Object(es)
}

} // verus!
