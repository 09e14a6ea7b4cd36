//! Scaffold plans: which files `init` writes for each assembly, where,
//! and with what contents. A plan is all or nothing: when any target
//! already exists, nothing is planned and the run is refused.
//!
//! The caller supplies the template texts (in registry order) and answers
//! whether each target path exists; it writes the planned files.

use vstd::prelude::*;

use crate::error::{error_message, VectisError};
use crate::init::{app_name_problem, validate_app_name};
use crate::paths::{join_path, path_join};
use crate::registry::{
    android_targets, android_templates, core_targets, core_templates, included, ios_targets,
    ios_templates,
};
use crate::templates::{rendered, render, substitute_path, substitute_path_with, substituted_path, Capability, Params};
use crate::text::{chars_of, owned, replace_all, replace_seq, string_of};
use crate::verify::BuildStep;

verus! {

/// A file to write: its path under the project, its target relative to
/// the project (as reported), and its rendered contents.
#[derive(Debug, Clone)]
pub struct PlannedFile {
    pub path: String,
    pub target: String,
    pub contents: String,
}

/// The result of the core scaffold: the targets written, in order.
#[derive(Debug, Clone)]
pub struct CoreScaffold {
    pub files: Vec<String>,
}

/// The result of the iOS scaffold: the targets written, in order, and
/// the build steps that ran (none when the build was skipped).
#[derive(Debug)]
pub struct IosScaffold {
    pub files: Vec<String>,
    pub build_steps: Vec<BuildStep>,
}

/// The result of the Android scaffold: the targets written, in order
/// (files left out for the selected capabilities are not listed), and
/// the build steps that ran.
#[derive(Debug)]
pub struct AndroidScaffold {
    pub files: Vec<String>,
    pub build_steps: Vec<BuildStep>,
}

/// The targets of a plan, in order.
pub open spec fn plan_targets(plan: Seq<PlannedFile>) -> Seq<Seq<char>> {
    plan.map_values(|f: PlannedFile| f.target@)
}

impl CoreScaffold {
    /// The result of writing `plan`.
    pub fn from_plan(plan: &Vec<PlannedFile>) -> (r: CoreScaffold)
        ensures
            crate::query::texts(r.files@) == plan_targets(plan@),
    {
        CoreScaffold { files: written_targets(plan) }
    }
}

impl IosScaffold {
    /// The result of writing `plan` and running `build_steps`.
    pub fn from_plan(plan: &Vec<PlannedFile>, build_steps: Vec<BuildStep>) -> (r: IosScaffold)
        ensures
            crate::query::texts(r.files@) == plan_targets(plan@),
            r.build_steps@ == build_steps@,
    {
        IosScaffold { files: written_targets(plan), build_steps }
    }
}

impl AndroidScaffold {
    /// The result of writing `plan` and running `build_steps`.
    pub fn from_plan(plan: &Vec<PlannedFile>, build_steps: Vec<BuildStep>) -> (r: AndroidScaffold)
        ensures
            crate::query::texts(r.files@) == plan_targets(plan@),
            r.build_steps@ == build_steps@,
    {
        AndroidScaffold { files: written_targets(plan), build_steps }
    }
}

/// The message refusing to overwrite `path`.
pub open spec fn refusal(path: Seq<char>) -> Seq<char> {
    "refusing to overwrite existing file at "@ + path
        + " (run `vectis init` against an empty directory)"@
}

/// The plan for `targets` (relative, already substituted) under
/// `project_dir`: refused at the first target that exists; otherwise one
/// file per target, rendered from the matching template text.
pub open spec fn plan_ok(
    project_dir: Seq<char>,
    targets: Seq<Seq<char>>,
    sources: Seq<Seq<char>>,
    exists: Seq<bool>,
    params: Params,
    caps: Seq<Capability>,
    r: Result<Vec<PlannedFile>, VectisError>,
) -> bool {
    if exists.contains(true) {
        let k = choose|k: int| 0 <= k < exists.len() && exists[k] && forall|j: int| 0 <= j < k ==> !exists[j];
        r is Err && r->Err_0 is InvalidProject && error_message(r->Err_0) == refusal(
            path_join(project_dir, targets[k]),
        )
    } else {
        &&& r is Ok
        &&& r->Ok_0@.len() == targets.len()
        &&& forall|k: int|
            0 <= k < targets.len() ==> {
                &&& (#[trigger] r->Ok_0@[k]).target@ == targets[k]
                &&& r->Ok_0@[k].path@ == path_join(project_dir, targets[k])
                &&& r->Ok_0@[k].contents@ == rendered(sources[k], params, caps)
            }
    }
}

/// Plan the files for `targets` (see `plan_ok`).
pub fn plan_files(
    project_dir: &str,
    targets: &Vec<String>,
    sources: &Vec<String>,
    exists: &[bool],
    params: &Params,
    caps: &[Capability],
) -> (r: Result<Vec<PlannedFile>, VectisError>)
    requires
        sources@.len() == targets@.len(),
        exists@.len() == targets@.len(),
    ensures
        plan_ok(
            project_dir@,
            crate::query::texts(targets@),
            crate::query::texts(sources@),
            exists@,
            *params,
            caps@,
            r,
        ),
{
    let ghost tv = crate::query::texts(targets@);
    let mut i: usize = 0;
    while i < exists.len()
        invariant
            i <= exists@.len(),
            exists@.len() == targets@.len(),
            tv == crate::query::texts(targets@),
            forall|j: int| 0 <= j < i ==> !exists@[j],
        decreases exists@.len() - i,
    {
        if exists[i] {
            assert(tv[i as int] == targets@[i as int]@);
            let path = join_path(project_dir, targets[i].as_str());
            let mut msg = crate::text::cat("refusing to overwrite existing file at ", path.as_str());
            msg.append(" (run `vectis init` against an empty directory)");
            assert(exists@.contains(true)) by {
                assert(exists@[i as int]);
            }
            proof {
                let k = choose|k: int|
                    0 <= k < exists@.len() && exists@[k] && forall|j: int| 0 <= j < k ==> !exists@[j];
                assert(exists@[i as int] && forall|j: int| 0 <= j < i ==> !exists@[j]);
                if k < i {
                    assert(!exists@[k]);
                } else if k > i {
                    assert(!exists@[i as int]);
                }
                assert(k == i);
            }
            return Err(VectisError::InvalidProject { message: msg });
        }
        i = i + 1;
    }
    assert(!exists@.contains(true));
    let mut out: Vec<PlannedFile> = Vec::new();
    let mut k: usize = 0;
    while k < targets.len()
        invariant
            k <= targets@.len(),
            sources@.len() == targets@.len(),
            out@.len() == k,
            forall|j: int|
                0 <= j < k ==> {
                    &&& (#[trigger] out@[j]).target@ == targets@[j]@
                    &&& out@[j].path@ == path_join(project_dir@, targets@[j]@)
                    &&& out@[j].contents@ == rendered(sources@[j]@, *params, caps@)
                },
        decreases targets@.len() - k,
    {
        let path = join_path(project_dir, targets[k].as_str());
        let contents = render(sources[k].as_str(), params, caps);
        out.push(PlannedFile { path, target: targets[k].clone(), contents });
        k = k + 1;
    }
    Ok(out)
}

/// The targets written, from a plan.
pub fn written_targets(plan: &Vec<PlannedFile>) -> (r: Vec<String>)
    ensures
        r@.len() == plan@.len(),
        forall|k: int| 0 <= k < r@.len() ==> #[trigger] r@[k]@ == plan@[k].target@,
        crate::query::texts(r@) == plan_targets(plan@),
{
    let mut out: Vec<String> = Vec::new();
    let mut i: usize = 0;
    while i < plan.len()
        invariant
            i <= plan@.len(),
            out@.len() == i,
            forall|k: int| 0 <= k < i ==> #[trigger] out@[k]@ == plan@[k].target@,
        decreases plan@.len() - i,
    {
        out.push(plan[i].target.clone());
        i = i + 1;
    }
    assert(crate::query::texts(out@) =~= plan_targets(plan@));
    out
}

// ---------------------------------------------------------------------
// Core.
// ---------------------------------------------------------------------

/// The core targets (they hold no placeholders).
pub fn core_target_list() -> (r: Vec<String>)
    ensures
        crate::query::texts(r@) == core_targets(),
{
    let reg = core_templates();
    let mut out: Vec<String> = Vec::new();
    let mut i: usize = 0;
    while i < reg.len()
        invariant
            i <= reg@.len(),
            reg@.map_values(|t: crate::registry::CoreTemplate| t.target@) == core_targets(),
            crate::query::texts(out@) == core_targets().subrange(0, i as int),
        decreases reg@.len() - i,
    {
        assert(reg@.map_values(|t: crate::registry::CoreTemplate| t.target@)[i as int] == reg@[i as int].target@);
        let ghost before = crate::query::texts(out@);
        out.push(owned(reg[i].target));
        assert(crate::query::texts(out@) =~= before.push(reg@[i as int].target@));
        assert(core_targets().subrange(0, i + 1) =~= core_targets().subrange(0, i as int).push(
            core_targets()[i as int],
        ));
        i = i + 1;
    }
    assert(core_targets().subrange(0, i as int) =~= core_targets());
    out
}

/// Plan the core scaffold: the app name must be PascalCase; then
/// `plan_ok` over the core targets.
pub fn plan_core(
    project_dir: &str,
    app_name: &str,
    params: &Params,
    caps: &[Capability],
    sources: &Vec<String>,
    exists: &[bool],
) -> (r: Result<Vec<PlannedFile>, VectisError>)
    requires
        sources@.len() == core_targets().len(),
        exists@.len() == core_targets().len(),
    ensures
        match app_name_problem(app_name@) {
            Some(m) => r is Err && r->Err_0 is InvalidProject && error_message(r->Err_0) == m,
            None => plan_ok(
                project_dir@,
                core_targets(),
                crate::query::texts(sources@),
                exists@,
                *params,
                caps@,
                r,
            ),
        },
{
    match validate_app_name(app_name) {
        Err(e) => {
            return Err(e);
        },
        Ok(()) => {},
    }
    let targets = core_target_list();
    assert(crate::query::texts(targets@).len() == targets@.len());
    plan_files(project_dir, &targets, sources, exists, params, caps)
}

// ---------------------------------------------------------------------
// iOS.
// ---------------------------------------------------------------------

/// The refusal when the project already has an `iOS/` directory.
pub open spec fn ios_refusal(root: Seq<char>) -> Seq<char> {
    "refusing to overwrite existing iOS shell at "@ + root
        + " (delete it first or use `vectis add-shell ios`)"@
}

/// The iOS targets with the app name substituted.
pub fn ios_target_list(params: &Params) -> (r: Vec<String>)
    ensures
        crate::query::texts(r@) == ios_targets().map_values(
            |t: Seq<char>| substituted_path(t, *params, None),
        ),
{
    let reg = ios_templates();
    let mut out: Vec<String> = Vec::new();
    let mut i: usize = 0;
    while i < reg.len()
        invariant
            i <= reg@.len(),
            reg@.map_values(|t: crate::registry::IosTemplate| t.target@) == ios_targets(),
            crate::query::texts(out@) == ios_targets().map_values(
                |t: Seq<char>| substituted_path(t, *params, None),
            ).subrange(0, i as int),
        decreases reg@.len() - i,
    {
        assert(reg@.map_values(|t: crate::registry::IosTemplate| t.target@)[i as int] == reg@[i as int].target@);
        let ghost before = crate::query::texts(out@);
        let ghost m = ios_targets().map_values(|t: Seq<char>| substituted_path(t, *params, None));
        let t = substitute_path(reg[i].target, params);
        out.push(t);
        assert(crate::query::texts(out@) =~= before.push(t@));
        assert(m[i as int] == substituted_path(ios_targets()[i as int], *params, None));
        assert(m.subrange(0, i + 1) =~= m.subrange(0, i as int).push(m[i as int]));
        i = i + 1;
    }
    assert(ios_targets().map_values(|t: Seq<char>| substituted_path(t, *params, None)).subrange(
        0,
        i as int,
    ) =~= ios_targets().map_values(|t: Seq<char>| substituted_path(t, *params, None)));
    out
}

/// Plan the iOS shell: refused when `iOS/` exists; otherwise `plan_ok`
/// over the substituted iOS targets.
pub fn plan_ios(
    project_dir: &str,
    root_exists: bool,
    params: &Params,
    caps: &[Capability],
    sources: &Vec<String>,
    exists: &[bool],
) -> (r: Result<Vec<PlannedFile>, VectisError>)
    requires
        sources@.len() == ios_targets().len(),
        exists@.len() == ios_targets().len(),
    ensures
        root_exists ==> r is Err && r->Err_0 is InvalidProject && error_message(r->Err_0)
            == ios_refusal(path_join(project_dir@, "iOS"@)),
        !root_exists ==> plan_ok(
            project_dir@,
            ios_targets().map_values(|t: Seq<char>| substituted_path(t, *params, None)),
            crate::query::texts(sources@),
            exists@,
            *params,
            caps@,
            r,
        ),
{
    if root_exists {
        let root = join_path(project_dir, "iOS");
        let mut msg = crate::text::cat("refusing to overwrite existing iOS shell at ", root.as_str());
        msg.append(" (delete it first or use `vectis add-shell ios`)");
        return Err(VectisError::InvalidProject { message: msg });
    }
    let targets = ios_target_list(params);
    assert(crate::query::texts(targets@).len() == targets@.len());
    plan_files(project_dir, &targets, sources, exists, params, caps)
}

// ---------------------------------------------------------------------
// Android.
// ---------------------------------------------------------------------

/// The directory path of a Java package: its dots become slashes.
pub open spec fn package_path(pkg: Seq<char>) -> Seq<char> {
    replace_all(pkg, "."@, "/"@)
}

/// Translate a Java package into its directory path.
pub fn android_package_to_path(pkg: &str) -> (r: String)
    ensures
        r@ == package_path(pkg@),
{
    proof {
        reveal_strlit(".");
    }
    let p = chars_of(pkg);
    let dot = chars_of(".");
    let slash = chars_of("/");
    string_of(&replace_seq(p.as_slice(), dot.as_slice(), slash.as_slice()))
}

/// The refusal when the project already has an `Android/` directory.
pub open spec fn android_refusal(root: Seq<char>) -> Seq<char> {
    "refusing to overwrite existing Android shell at "@ + root
        + " (delete it first or use `vectis add-shell android`)"@
}

/// The network security configuration (entry 10 of the registry) is
/// included with `http` or `sse`.
pub open spec fn network_included(caps: Seq<Capability>) -> bool {
    caps.contains(Capability::Http) || caps.contains(Capability::Sse)
}

/// The indices of the first `n` Android registry entries included for
/// `caps`, in order.
pub open spec fn included_indices(n: int, caps: Seq<Capability>) -> Seq<int>
    decreases n,
{
    if n <= 0 {
        Seq::empty()
    } else {
        included_indices(n - 1, caps) + if n - 1 != 10 || network_included(caps) {
            seq![n - 1]
        } else {
            Seq::empty()
        }
    }
}

/// The Android targets included for `caps` (with the app name and the
/// package path substituted), and the registry indices they come from.
pub fn android_target_list(params: &Params, pkg: &str, caps: &[Capability]) -> (r: (
    Vec<String>,
    Vec<usize>,
))
    ensures
        r.0@.len() == r.1@.len(),
        r.1@.len() == included_indices(android_targets().len() as int, caps@).len(),
        forall|k: int|
            0 <= k < r.1@.len() ==> #[trigger] r.1@[k] as int == included_indices(
                android_targets().len() as int,
                caps@,
            )[k],
        forall|k: int|
            0 <= k < r.0@.len() ==> (#[trigger] r.1@[k]) < android_targets().len() && r.0@[k]@
                == substituted_path(android_targets()[r.1@[k] as int], *params, Some(package_path(pkg@))),
{
    let reg = android_templates();
    let pp = android_package_to_path(pkg);
    let mut out: Vec<String> = Vec::new();
    let mut idx: Vec<usize> = Vec::new();
    let mut i: usize = 0;
    while i < reg.len()
        invariant
            i <= reg@.len(),
            reg@.len() == android_targets().len(),
            reg@.map_values(|t: crate::registry::AndroidTemplate| t.target@) == android_targets(),
            forall|k: int| 0 <= k < reg@.len() && k != 10 ==> (#[trigger] reg@[k]).include_when is Always,
            reg@[10].include_when is AnyOf,
            reg@[10].include_when->AnyOf_0@ == seq![Capability::Http, Capability::Sse],
            pp@ == package_path(pkg@),
            out@.len() == idx@.len(),
            forall|k: int|
                0 <= k < out@.len() ==> (#[trigger] idx@[k]) < android_targets().len() && out@[k]@
                    == substituted_path(android_targets()[idx@[k] as int], *params, Some(package_path(pkg@))),
            idx@.len() == included_indices(i as int, caps@).len(),
            forall|k: int| 0 <= k < idx@.len() ==> #[trigger] idx@[k] as int == included_indices(i as int, caps@)[k],
        decreases reg@.len() - i,
    {
        assert(reg@.map_values(|t: crate::registry::AndroidTemplate| t.target@)[i as int] == reg@[i as int].target@);
        let inc = reg[i].include_when.should_include(caps);
        proof {
            if i == 10 {
                let needed = reg@[10].include_when->AnyOf_0@;
                if network_included(caps@) {
                    if caps@.contains(Capability::Http) {
                        assert(caps@.contains(needed[0]));
                    } else {
                        assert(caps@.contains(needed[1]));
                    }
                }
                assert(inc == network_included(caps@));
            } else {
                assert(inc);
            }
        }
        let ghost before = idx@;
        if inc {
            out.push(substitute_path_with(reg[i].target, params, Some(pp.as_str())));
            idx.push(i);
        }
        i = i + 1;
    }
    (out, idx)
}

/// Plan the Android shell: refused when `Android/` exists; otherwise
/// `plan_ok` over the included, substituted Android targets;
/// `sources[k]` is the text of the k-th included template.
pub fn plan_android(
    project_dir: &str,
    root_exists: bool,
    android_package: &str,
    params: &Params,
    caps: &[Capability],
    sources: &Vec<String>,
    exists: &[bool],
) -> (r: Result<Vec<PlannedFile>, VectisError>)
    requires
        sources@.len() == included_indices(android_targets().len() as int, caps@).len(),
        exists@.len() == included_indices(android_targets().len() as int, caps@).len(),
    ensures
        root_exists ==> r is Err && r->Err_0 is InvalidProject && error_message(r->Err_0)
            == android_refusal(path_join(project_dir@, "Android"@)),
        !root_exists ==> plan_ok(
            project_dir@,
            included_indices(android_targets().len() as int, caps@).map_values(
                |k: int|
                    substituted_path(
                        android_targets()[k],
                        *params,
                        Some(package_path(android_package@)),
                    ),
            ),
            crate::query::texts(sources@),
            exists@,
            *params,
            caps@,
            r,
        ),
{
    if root_exists {
        let root = join_path(project_dir, "Android");
        let mut msg = crate::text::cat(
            "refusing to overwrite existing Android shell at ",
            root.as_str(),
        );
        msg.append(" (delete it first or use `vectis add-shell android`)");
        return Err(VectisError::InvalidProject { message: msg });
    }
    let (targets, idx) = android_target_list(params, android_package, caps);
    let ghost inc = included_indices(android_targets().len() as int, caps@);
    assert forall|k: int| 0 <= k < targets@.len() implies #[trigger] crate::query::texts(targets@)[k]
        == substituted_path(android_targets()[inc[k]], *params, Some(package_path(android_package@))) by {
        assert(idx@[k] as int == inc[k]);
    }
    assert(crate::query::texts(targets@) =~= included_indices(
        android_targets().len() as int,
        caps@,
    ).map_values(
        |k: int|
            substituted_path(android_targets()[k], *params, Some(package_path(android_package@))),
    ));
    plan_files(project_dir, &targets, sources, exists, params, caps)
}

} // verus!
