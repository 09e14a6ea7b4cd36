//! `verify`: the per-assembly build pipelines, as plans of commands and
//! the verdict on each step, and the report they add up to.
//!
//! A pipeline runs its steps in order and stops at the first failing
//! one. The commands are run by the caller; the functions here say
//! which command comes next and what its outcome means.

use vstd::prelude::*;

use crate::error::{error_message, VectisError};
use crate::json::Json;
use crate::paths::{join_path, path_join};
use crate::prerequisites::AssemblyKind;
use crate::text::{
    chars_of, contains, lines, owned, starts_with, str_contains, trim, trim_seq, usize_to_text,
    decimal,
};

verus! {

// ---------------------------------------------------------------------
// Steps.
// ---------------------------------------------------------------------

/// One step of a build pipeline: its label, whether it passed, and,
/// when it failed, what it printed.
#[derive(Debug, Clone)]
pub struct BuildStep {
    pub name: &'static str,
    pub passed: bool,
    pub error: Option<String>,
}

/// What running a step's command gave: whether it exited successfully
/// and its standard output and error as text; or why it could not be
/// started.
pub type Spawn = Result<(bool, String, String), String>;

/// The text a failed step reports: standard output, a line feed when
/// it is non-empty and does not end with one, standard error; trimmed.
pub open spec fn failure_text(out: Seq<char>, err: Seq<char>) -> Seq<char> {
    trim(
        if out.len() > 0 && out.last() != '\n' {
            out + "\n"@ + err
        } else {
            out + err
        },
    )
}

/// Judge a step from what running its command gave: a command that could
/// not be started is a `Verify` failure of the whole pipeline; otherwise
/// the step passed exactly when the command succeeded, and a failed step
/// carries its output.
pub fn run_step(name: &'static str, spawn: Spawn) -> (r: Result<BuildStep, VectisError>)
    ensures
        match spawn {
            Err(e) => r is Err && r->Err_0 is Verify && error_message(r->Err_0) == "failed to invoke `"@
                + name@ + "`: "@ + e@,
            Ok((ok, out, err)) => r is Ok && r->Ok_0.name == name && r->Ok_0.passed == ok && if ok {
                r->Ok_0.error is None
            } else {
                r->Ok_0.error is Some && r->Ok_0.error->Some_0@ == failure_text(out@, err@)
            },
        },
{
    match spawn {
        Err(e) => {
            let mut msg = owned("failed to invoke `");
            msg.append(name);
            msg.append("`: ");
            msg.append(e.as_str());
            Err(VectisError::Verify { message: msg })
        },
        Ok((ok, out, err)) => {
            if ok {
                Ok(BuildStep { name, passed: true, error: None })
            } else {
                let o = chars_of(out.as_str());
                let mut combined = out.clone();
                if o.len() > 0 && o[o.len() - 1] != '\n' {
                    combined.append("\n");
                }
                combined.append(err.as_str());
                let t = trim_seq(chars_of(combined.as_str()).as_slice());
                Ok(BuildStep { name, passed: false, error: Some(crate::text::string_of(&t)) })
            }
        },
    }
}

/// The index of the first step that failed, if any.
pub open spec fn first_failed(steps: Seq<BuildStep>) -> Option<int>
    decreases steps.len(),
{
    if steps.len() == 0 {
        None
    } else if !steps[0].passed {
        Some(0)
    } else {
        match first_failed(steps.subrange(1, steps.len() as int)) {
            Some(k) => Some(k + 1),
            None => None,
        }
    }
}

proof fn lemma_first_failed(steps: Seq<BuildStep>, i: int)
    requires
        0 <= i <= steps.len(),
        forall|k: int| 0 <= k < i ==> (#[trigger] steps[k]).passed,
    ensures
        first_failed(steps) == (match first_failed(steps.subrange(i, steps.len() as int)) {
            Some(k) => Some(k + i),
            None => None::<int>,
        }),
    decreases i,
{
    if i == 0 {
        assert(steps.subrange(0, steps.len() as int) =~= steps);
    } else {
        let rest = steps.subrange(1, steps.len() as int);
        assert(steps[0].passed);
        assert(rest.subrange(i - 1, rest.len() as int) =~= steps.subrange(i, steps.len() as int));
        assert forall|k: int| 0 <= k < i - 1 implies (#[trigger] rest[k]).passed by {
            assert(rest[k] == steps[k + 1]);
        }
        lemma_first_failed(rest, i - 1);
    }
}

/// The error a shell's build reports when one of its steps failed:
/// `"<shell> build step `<name>` failed"`, named after the first failing
/// step; `Ok` when every step passed.
pub fn check_build(shell: &str, steps: &Vec<BuildStep>) -> (r: Result<(), VectisError>)
    ensures
        match first_failed(steps@) {
            None => r is Ok,
            Some(k) => r is Err && r->Err_0 is Verify && error_message(r->Err_0) == shell@
                + " build step `"@ + steps@[k].name@ + "` failed"@,
        },
{
    let mut i: usize = 0;
    while i < steps.len()
        invariant
            i <= steps@.len(),
            forall|k: int| 0 <= k < i ==> (#[trigger] steps@[k]).passed,
        decreases steps@.len() - i,
    {
        if !steps[i].passed {
            proof {
                lemma_first_failed(steps@, i as int);
                let tail = steps@.subrange(i as int, steps@.len() as int);
                assert(tail[0] == steps@[i as int]);
            }
            let mut msg = owned(shell);
            msg.append(" build step `");
            msg.append(steps[i].name);
            msg.append("` failed");
            return Err(VectisError::Verify { message: msg });
        }
        i = i + 1;
    }
    proof {
        lemma_first_failed(steps@, i as int);
        assert(steps@.subrange(i as int, steps@.len() as int).len() == 0);
    }
    Ok(())
}

/// A command of a pipeline: its step label, program, arguments and
/// working directory, and whether a passing run is reported (a
/// preparatory step is reported only when it fails).
#[derive(Debug, Clone)]
pub struct PlannedStep {
    pub name: &'static str,
    pub program: &'static str,
    pub args: Vec<String>,
    pub dir: String,
    pub reported_on_pass: bool,
}

/// The arguments of a planned command, as texts.
pub open spec fn args_of(p: PlannedStep) -> Seq<Seq<char>> {
    p.args@.map_values(|a: String| a@)
}

/// What a planned step runs: its label, program and arguments.
pub open spec fn cmd_of(p: PlannedStep) -> (Seq<char>, Seq<char>, Seq<Seq<char>>) {
    (p.name@, p.program@, args_of(p))
}

/// The commands of a plan, in order.
pub open spec fn cmds(ps: Seq<PlannedStep>) -> Seq<(Seq<char>, Seq<char>, Seq<Seq<char>>)> {
    ps.map_values(|p: PlannedStep| cmd_of(p))
}

/// Record the outcome of a planned step; the pipeline goes on exactly
/// when the step passed.
pub fn record_step(steps: &mut Vec<BuildStep>, planned: &PlannedStep, outcome: BuildStep) -> (go_on:
    bool)
    ensures
        go_on == outcome.passed,
        final(steps)@ == if !outcome.passed || planned.reported_on_pass {
            old(steps)@.push(outcome)
        } else {
            old(steps)@
        },
{
    let passed = outcome.passed;
    if !passed || planned.reported_on_pass {
        steps.push(outcome);
    }
    passed
}

/// Every step passed.
pub open spec fn all_passed(steps: Seq<BuildStep>) -> bool {
    forall|k: int| 0 <= k < steps.len() ==> (#[trigger] steps[k]).passed
}

/// What recording the outcome of one planned step adds to the report.
pub open spec fn recorded(planned: PlannedStep, outcome: BuildStep) -> Seq<BuildStep> {
    if !outcome.passed || planned.reported_on_pass {
        seq![outcome]
    } else {
        Seq::empty()
    }
}

/// The steps a pipeline reports when the k-th planned step has outcome
/// `outcomes[k]`: the steps run in order, each recorded by
/// `record_step`, and the run stops after the first failure.
pub open spec fn pipeline_record(plan: Seq<PlannedStep>, outcomes: Seq<BuildStep>) -> Seq<BuildStep>
    decreases plan.len(),
{
    if plan.len() == 0 || outcomes.len() == 0 {
        Seq::empty()
    } else if outcomes[0].passed {
        recorded(plan[0], outcomes[0]) + pipeline_record(
            plan.subrange(1, plan.len() as int),
            outcomes.subrange(1, outcomes.len() as int),
        )
    } else {
        recorded(plan[0], outcomes[0])
    }
}

/// A run of a pipeline reports a failure exactly when some step failed,
/// and then the failure is the last step reported and every step before
/// it passed: the run stops at the first failing step.
pub proof fn law_pipeline_stops_at_first_failure(plan: Seq<PlannedStep>, outcomes: Seq<BuildStep>)
    requires
        plan.len() == outcomes.len(),
    ensures
        all_passed(pipeline_record(plan, outcomes)) == all_passed(outcomes),
        !all_passed(outcomes) ==> pipeline_record(plan, outcomes).len() > 0 && !pipeline_record(
            plan,
            outcomes,
        ).last().passed && all_passed(pipeline_record(plan, outcomes).drop_last()),
    decreases plan.len(),
{
    if plan.len() > 0 {
        let p1 = plan.subrange(1, plan.len() as int);
        let o1 = outcomes.subrange(1, outcomes.len() as int);
        let r = recorded(plan[0], outcomes[0]);
        let whole = pipeline_record(plan, outcomes);
        if outcomes[0].passed {
            law_pipeline_stops_at_first_failure(p1, o1);
            let rest = pipeline_record(p1, o1);
            assert(whole == r + rest);
            assert(all_passed(r));
            assert(all_passed(outcomes) == all_passed(o1)) by {
                if all_passed(o1) {
                    assert forall|k: int| 0 <= k < outcomes.len() implies (#[trigger] outcomes[k]).passed by {
                        if k > 0 {
                            assert(outcomes[k] == o1[k - 1]);
                        }
                    }
                } else {
                    let k = choose|k: int| 0 <= k < o1.len() && !(#[trigger] o1[k]).passed;
                    assert(outcomes[k + 1] == o1[k]);
                }
            }
            assert(all_passed(whole) == all_passed(rest)) by {
                if all_passed(rest) {
                    assert forall|k: int| 0 <= k < whole.len() implies (#[trigger] whole[k]).passed by {
                        if k >= r.len() {
                            assert(whole[k] == rest[k - r.len()]);
                        }
                    }
                } else {
                    let k = choose|k: int| 0 <= k < rest.len() && !(#[trigger] rest[k]).passed;
                    assert(whole[k + r.len()] == rest[k]);
                }
            }
            if !all_passed(outcomes) {
                assert(whole.last() == rest.last());
                assert(whole.drop_last() =~= r + rest.drop_last());
                assert forall|k: int| 0 <= k < whole.drop_last().len() implies (#[trigger] whole.drop_last()[k]).passed by {
                    if k >= r.len() {
                        assert(whole.drop_last()[k] == rest.drop_last()[k - r.len()]);
                    }
                }
            }
        } else {
            assert(whole == seq![outcomes[0]]);
            assert(!whole[0].passed);
            assert(whole.drop_last() =~= Seq::<BuildStep>::empty());
        }
    }
}

/// Running one more step after passing ones adds what `record_step`
/// adds: the report of the first `k + 1` steps is that of the first `k`
/// followed by `recorded` for step `k`.
pub proof fn law_record_step_extends_pipeline(plan: Seq<PlannedStep>, outcomes: Seq<BuildStep>, k: int)
    requires
        plan.len() == outcomes.len(),
        0 <= k < plan.len(),
        forall|j: int| 0 <= j < k ==> (#[trigger] outcomes[j]).passed,
    ensures
        pipeline_record(plan.subrange(0, k + 1), outcomes.subrange(0, k + 1)) == pipeline_record(
            plan.subrange(0, k),
            outcomes.subrange(0, k),
        ) + recorded(plan[k], outcomes[k]),
    decreases k,
{
    let pk = plan.subrange(0, k + 1);
    let ok = outcomes.subrange(0, k + 1);
    if k == 0 {
        assert(pipeline_record(plan.subrange(0, 0), outcomes.subrange(0, 0)) == Seq::<BuildStep>::empty());
        assert(pk[0] == plan[0] && ok[0] == outcomes[0]);
        assert(pk.subrange(1, 1).len() == 0);
        assert(pipeline_record(pk.subrange(1, 1), ok.subrange(1, 1)) == Seq::<BuildStep>::empty());
        assert(recorded(plan[0], outcomes[0]) + Seq::<BuildStep>::empty() =~= recorded(plan[0], outcomes[0]));
        assert(Seq::<BuildStep>::empty() + recorded(plan[0], outcomes[0]) =~= recorded(plan[0], outcomes[0]));
    } else {
        let p1 = plan.subrange(1, plan.len() as int);
        let o1 = outcomes.subrange(1, outcomes.len() as int);
        assert forall|j: int| 0 <= j < k - 1 implies (#[trigger] o1[j]).passed by {
            assert(o1[j] == outcomes[j + 1]);
        }
        law_record_step_extends_pipeline(p1, o1, k - 1);
        assert(pk.subrange(1, k + 1) =~= p1.subrange(0, k));
        assert(ok.subrange(1, k + 1) =~= o1.subrange(0, k));
        let pk0 = plan.subrange(0, k);
        let ok0 = outcomes.subrange(0, k);
        assert(pk0.subrange(1, k) =~= p1.subrange(0, k - 1));
        assert(ok0.subrange(1, k) =~= o1.subrange(0, k - 1));
        assert(ok[0] == outcomes[0] && ok0[0] == outcomes[0] && pk[0] == plan[0] && pk0[0] == plan[0]);
        assert(outcomes[0].passed);
        assert(p1[k - 1] == plan[k] && o1[k - 1] == outcomes[k]);
        let r0 = recorded(plan[0], outcomes[0]);
        let mid = pipeline_record(p1.subrange(0, k - 1), o1.subrange(0, k - 1));
        let last = recorded(plan[k], outcomes[k]);
        assert(r0 + (mid + last) =~= (r0 + mid) + last);
    }
}

/// Did every step pass?
pub fn steps_passed(steps: &Vec<BuildStep>) -> (r: bool)
    ensures
        r == all_passed(steps@),
{
    let mut i: usize = 0;
    while i < steps.len()
        invariant
            i <= steps@.len(),
            forall|k: int| 0 <= k < i ==> (#[trigger] steps@[k]).passed,
        decreases steps@.len() - i,
    {
        if !steps[i].passed {
            return false;
        }
        i = i + 1;
    }
    true
}

// ---------------------------------------------------------------------
// Plans.
// ---------------------------------------------------------------------

fn texts_of(items: &[&str]) -> (r: Vec<String>)
    ensures
        r@.len() == items@.len(),
        forall|k: int| 0 <= k < items@.len() ==> #[trigger] r@[k]@ == items@[k]@,
{
    let mut out: Vec<String> = Vec::new();
    let mut i: usize = 0;
    while i < items.len()
        invariant
            i <= items@.len(),
            out@.len() == i,
            forall|k: int| 0 <= k < i ==> #[trigger] out@[k]@ == items@[k]@,
        decreases items@.len() - i,
    {
        out.push(owned(items[i]));
        i = i + 1;
    }
    out
}

fn planned(name: &'static str, program: &'static str, args: Vec<String>, dir: &str) -> (r:
    PlannedStep)
    ensures
        r.name == name,
        r.program == program,
        r.args == args,
        r.dir@ == dir@,
        r.reported_on_pass,
{
    PlannedStep { name, program, args, dir: owned(dir), reported_on_pass: true }
}

/// The step labels of the core pipeline: `cargo check`, `cargo clippy`,
/// `cargo deny`, (when the supply chain needs bootstrapping, an
/// unreported `cargo vet` that regenerates the exemptions,) `cargo vet`,
/// `codegen swift`, `cargo build shared cdylib`, `codegen kotlin`.
pub open spec fn core_step_names(bootstrap: bool) -> Seq<Seq<char>> {
    seq!["cargo check"@, "cargo clippy"@, "cargo deny"@] + (if bootstrap {
        seq!["cargo vet"@]
    } else {
        Seq::empty()
    }) + seq!["cargo vet"@, "codegen swift"@, "cargo build shared cdylib"@, "codegen kotlin"@]
}

/// The arguments of a codegen run for `lang`, writing into `dir`.
pub open spec fn codegen_args(lang: Seq<char>, dir: Seq<char>) -> Seq<Seq<char>> {
    seq![
        "run"@,
        "-p"@,
        "shared"@,
        "--bin"@,
        "codegen"@,
        "--features"@,
        "codegen,facet_typegen"@,
        "--"@,
        "--language"@,
        lang,
        "--output-dir"@,
        dir,
    ]
}

/// The commands of the core pipeline (see `core_step_names`).
pub open spec fn core_cmds(bootstrap: bool, swift_dir: Seq<char>, kotlin_dir: Seq<char>) -> Seq<
    (Seq<char>, Seq<char>, Seq<Seq<char>>),
> {
    seq![
        ("cargo check"@, "cargo"@, seq!["check"@]),
        ("cargo clippy"@, "cargo"@, seq!["clippy"@, "--all-targets"@, "--"@, "-D"@, "warnings"@]),
        ("cargo deny"@, "cargo"@, seq!["deny"@, "check"@]),
    ] + (if bootstrap {
        seq![("cargo vet"@, "cargo"@, seq!["vet"@, "regenerate"@, "exemptions"@])]
    } else {
        Seq::empty()
    }) + seq![
        ("cargo vet"@, "cargo"@, seq!["vet"@]),
        ("codegen swift"@, "cargo"@, codegen_args("swift"@, swift_dir)),
        ("cargo build shared cdylib"@, "cargo"@, seq!["build"@, "-p"@, "shared"@, "--features"@, "uniffi"@]),
        ("codegen kotlin"@, "cargo"@, codegen_args("kotlin"@, kotlin_dir)),
    ]
}

fn codegen_arg_list(lang: &str, dir: &str) -> (r: Vec<String>)
    ensures
        r@.map_values(|x: String| x@) == codegen_args(lang@, dir@),
{
    let mut v = texts_of(
        &["run", "-p", "shared", "--bin", "codegen", "--features", "codegen,facet_typegen", "--", "--language"],
    );
    v.push(owned(lang));
    v.push(owned("--output-dir"));
    v.push(owned(dir));
    assert(v@.map_values(|x: String| x@) =~= codegen_args(lang@, dir@));
    v
}

/// The core pipeline run from `project_dir`, writing the generated
/// Swift and Kotlin into the given directories (see `core_cmds`); the
/// exemption-regenerating `cargo vet` is reported only when it fails.
pub fn core_plan(project_dir: &str, swift_dir: &str, kotlin_dir: &str, bootstrap: bool) -> (r: Vec<
    PlannedStep,
>)
    ensures
        cmds(r@) == core_cmds(bootstrap, swift_dir@, kotlin_dir@),
        r@.map_values(|p: PlannedStep| p.name@) == core_step_names(bootstrap),
        forall|k: int| 0 <= k < r@.len() ==> (#[trigger] r@[k]).dir@ == project_dir@,
        forall|k: int|
            0 <= k < r@.len() ==> (#[trigger] r@[k]).reported_on_pass == !(bootstrap && k == 3),
{
    let mut out: Vec<PlannedStep> = Vec::new();
    let a = texts_of(&["check"]);
    assert(a@.map_values(|x: String| x@) =~= seq!["check"@]);
    out.push(planned("cargo check", "cargo", a, project_dir));
    let a = texts_of(&["clippy", "--all-targets", "--", "-D", "warnings"]);
    assert(a@.map_values(|x: String| x@) =~= seq!["clippy"@, "--all-targets"@, "--"@, "-D"@, "warnings"@]);
    out.push(planned("cargo clippy", "cargo", a, project_dir));
    let a = texts_of(&["deny", "check"]);
    assert(a@.map_values(|x: String| x@) =~= seq!["deny"@, "check"@]);
    out.push(planned("cargo deny", "cargo", a, project_dir));
    let ghost head = out@;
    if bootstrap {
        let a = texts_of(&["vet", "regenerate", "exemptions"]);
        assert(a@.map_values(|x: String| x@) =~= seq!["vet"@, "regenerate"@, "exemptions"@]);
        let mut prep = planned("cargo vet", "cargo", a, project_dir);
        prep.reported_on_pass = false;
        out.push(prep);
    }
    let ghost mid = out@;
    let a = texts_of(&["vet"]);
    assert(a@.map_values(|x: String| x@) =~= seq!["vet"@]);
    out.push(planned("cargo vet", "cargo", a, project_dir));
    out.push(planned("codegen swift", "cargo", codegen_arg_list("swift", swift_dir), project_dir));
    let a = texts_of(&["build", "-p", "shared", "--features", "uniffi"]);
    assert(a@.map_values(|x: String| x@) =~= seq!["build"@, "-p"@, "shared"@, "--features"@, "uniffi"@]);
    out.push(planned("cargo build shared cdylib", "cargo", a, project_dir));
    out.push(planned("codegen kotlin", "cargo", codegen_arg_list("kotlin", kotlin_dir), project_dir));
    assert(out@.map_values(|p: PlannedStep| p.name@) =~= core_step_names(bootstrap));
    assert(cmds(out@) =~= core_cmds(bootstrap, swift_dir@, kotlin_dir@));
    out
}

/// The make steps of the iOS pipeline, run from the `iOS/` directory:
/// `make typegen`, `make package`, `make xcode`.
pub fn ios_make_plan(ios_root: &str) -> (r: Vec<PlannedStep>)
    ensures
        cmds(r@) == seq![
            ("make typegen"@, "make"@, seq!["typegen"@]),
            ("make package"@, "make"@, seq!["package"@]),
            ("make xcode"@, "make"@, seq!["xcode"@]),
        ],
        forall|k: int| 0 <= k < r@.len() ==> (#[trigger] r@[k]).dir@ == ios_root@,
        forall|k: int| 0 <= k < r@.len() ==> (#[trigger] r@[k]).reported_on_pass,
{
    let mut out: Vec<PlannedStep> = Vec::new();
    let a = texts_of(&["typegen"]);
    assert(a@.map_values(|x: String| x@) =~= seq!["typegen"@]);
    out.push(planned("make typegen", "make", a, ios_root));
    let a = texts_of(&["package"]);
    assert(a@.map_values(|x: String| x@) =~= seq!["package"@]);
    out.push(planned("make package", "make", a, ios_root));
    let a = texts_of(&["xcode"]);
    assert(a@.map_values(|x: String| x@) =~= seq!["xcode"@]);
    out.push(planned("make xcode", "make", a, ios_root));
    assert(cmds(out@) =~= seq![
        ("make typegen"@, "make"@, seq!["typegen"@]),
        ("make package"@, "make"@, seq!["package"@]),
        ("make xcode"@, "make"@, seq!["xcode"@]),
    ]);
    out
}

/// The simulator build of the generated Xcode project.
pub fn xcodebuild_step(ios_root: &str, scheme: &str, project_path: &str) -> (r: PlannedStep)
    ensures
        cmd_of(r) == (
            "xcodebuild"@,
            "xcodebuild"@,
            seq![
                "build"@,
                "-project"@,
                project_path@,
                "-scheme"@,
                scheme@,
                "-destination"@,
                "generic/platform=iOS Simulator"@,
                "-configuration"@,
                "Debug"@,
                "CODE_SIGNING_ALLOWED=NO"@,
            ],
        ),
        r.dir@ == ios_root@,
        r.reported_on_pass,
{
    let mut args: Vec<String> = Vec::new();
    args.push(owned("build"));
    args.push(owned("-project"));
    args.push(owned(project_path));
    args.push(owned("-scheme"));
    args.push(owned(scheme));
    args.push(owned("-destination"));
    args.push(owned("generic/platform=iOS Simulator"));
    args.push(owned("-configuration"));
    args.push(owned("Debug"));
    args.push(owned("CODE_SIGNING_ALLOWED=NO"));
    let r = PlannedStep {
        name: "xcodebuild",
        program: "xcodebuild",
        args,
        dir: owned(ios_root),
        reported_on_pass: true,
    };
    assert(args_of(r) =~= seq![
        "build"@,
        "-project"@,
        project_path@,
        "-scheme"@,
        scheme@,
        "-destination"@,
        "generic/platform=iOS Simulator"@,
        "-configuration"@,
        "Debug"@,
        "CODE_SIGNING_ALLOWED=NO"@,
    ]);
    r
}

/// The Android pipeline, run from the `Android/` directory: `make
/// build`, then `./gradlew :app:assembleDebug`.
pub fn android_plan(android_root: &str) -> (r: Vec<PlannedStep>)
    ensures
        cmds(r@) == seq![
            ("make build"@, "make"@, seq!["build"@]),
            ("gradlew assembleDebug"@, "./gradlew"@, seq![":app:assembleDebug"@]),
        ],
        forall|k: int| 0 <= k < r@.len() ==> (#[trigger] r@[k]).dir@ == android_root@,
        forall|k: int| 0 <= k < r@.len() ==> (#[trigger] r@[k]).reported_on_pass,
{
    let mut out: Vec<PlannedStep> = Vec::new();
    let a = texts_of(&["build"]);
    assert(a@.map_values(|x: String| x@) =~= seq!["build"@]);
    out.push(planned("make build", "make", a, android_root));
    let b = texts_of(&[":app:assembleDebug"]);
    assert(b@.map_values(|x: String| x@) =~= seq![":app:assembleDebug"@]);
    out.push(planned("gradlew assembleDebug", "./gradlew", b, android_root));
    assert(cmds(out@) =~= seq![
        ("make build"@, "make"@, seq!["build"@]),
        ("gradlew assembleDebug"@, "./gradlew"@, seq![":app:assembleDebug"@]),
    ]);
    out
}

// ---------------------------------------------------------------------
// The supply-chain bootstrap.
// ---------------------------------------------------------------------

/// A lock file is fresh when every line is blank or a `#` comment.
pub open spec fn imports_fresh(imports: Seq<char>) -> bool {
    forall|k: int|
        0 <= k < lines(imports).len() ==> trim(#[trigger] lines(imports)[k]).len() == 0
            || starts_with(trim(lines(imports)[k]), "#"@)
}

/// A freshly scaffolded supply chain (both files present, no import
/// beyond comments, no exemption block) must have its exemptions
/// regenerated before `cargo vet` can pass. `imports` and `config` are
/// the files' texts when they exist (unreadable files count as empty).
pub open spec fn bootstrap_needed(imports: Option<Seq<char>>, config: Option<Seq<char>>) -> bool {
    match (imports, config) {
        (Some(i), Some(c)) => imports_fresh(i) && !contains(c, "[[exemptions."@),
        _ => false,
    }
}

/// A freshly scaffolded supply chain is detected whatever its comments
/// say: when every line of the imports lock is blank or (after
/// trimming) starts with `#`, and the vet config holds no
/// `[[exemptions.` block, the exemptions must be regenerated; a lock
/// with any other line, or a config with an exemption block, or a
/// missing file, needs no bootstrap.
pub proof fn law_comment_only_lock_needs_bootstrap(imports: Seq<char>, config: Seq<char>)
    ensures
        (forall|k: int|
            0 <= k < lines(imports).len() ==> trim(#[trigger] lines(imports)[k]).len() == 0 || trim(
                lines(imports)[k],
            )[0] == '#') && !contains(config, "[[exemptions."@) ==> bootstrap_needed(
            Some(imports),
            Some(config),
        ),
        (exists|k: int|
            0 <= k < lines(imports).len() && trim(#[trigger] lines(imports)[k]).len() > 0 && trim(
                lines(imports)[k],
            )[0] != '#') ==> !bootstrap_needed(Some(imports), Some(config)),
        contains(config, "[[exemptions."@) ==> !bootstrap_needed(Some(imports), Some(config)),
        !bootstrap_needed(None, Some(config)) && !bootstrap_needed(Some(imports), None),
{
    reveal_strlit("#");
    assert("#"@.len() == 1 && "#"@[0] == '#');
    if forall|k: int|
        0 <= k < lines(imports).len() ==> trim(#[trigger] lines(imports)[k]).len() == 0 || trim(
            lines(imports)[k],
        )[0] == '#' {
        assert forall|k: int| 0 <= k < lines(imports).len() implies trim(#[trigger] lines(imports)[k]).len()
            == 0 || starts_with(trim(lines(imports)[k]), "#"@) by {
            let t = trim(lines(imports)[k]);
            if t.len() > 0 {
                assert(t.subrange(0, 1) =~= "#"@);
            }
        }
    }
    if exists|k: int|
        0 <= k < lines(imports).len() && trim(#[trigger] lines(imports)[k]).len() > 0 && trim(
            lines(imports)[k],
        )[0] != '#' {
        let k = choose|k: int|
            0 <= k < lines(imports).len() && trim(#[trigger] lines(imports)[k]).len() > 0 && trim(
                lines(imports)[k],
            )[0] != '#';
        let t = trim(lines(imports)[k]);
        if starts_with(t, "#"@) {
            assert(t.subrange(0, 1)[0] == t[0]);
        }
    }
}

/// Does the supply chain need bootstrapping (see `bootstrap_needed`)?
pub fn needs_supply_chain_bootstrap(imports: Option<&str>, config: Option<&str>) -> (r: bool)
    ensures
        r == bootstrap_needed(
            match imports {
                Some(i) => Some(i@),
                None => None,
            },
            match config {
                Some(c) => Some(c@),
                None => None,
            },
        ),
{
    let (i, c) = match (imports, config) {
        (Some(i), Some(c)) => (i, c),
        _ => {
            return false;
        },
    };
    let ls = crate::text::lines_seq(chars_of(i).as_slice());
    proof {
        reveal_strlit("#");
    }
    let mut k: usize = 0;
    while k < ls.len()
        invariant
            k <= ls@.len(),
            imports == Some(i),
            config == Some(c),
            "#"@.len() == 1,
            "#"@[0] == '#',
            ls@.len() == lines(i@).len(),
            forall|j: int| 0 <= j < ls@.len() ==> #[trigger] ls@[j]@ == lines(i@)[j],
            forall|j: int|
                0 <= j < k ==> trim(#[trigger] lines(i@)[j]).len() == 0 || starts_with(
                    trim(lines(i@)[j]),
                    "#"@,
                ),
        decreases ls@.len() - k,
    {
        let t = trim_seq(ls[k].as_slice());
        assert(t@ == trim(lines(i@)[k as int]));
        if t.len() > 0 && t[0] != '#' {
            assert(!starts_with(trim(lines(i@)[k as int]), "#"@));
            return false;
        }
        if t.len() > 0 {
            assert(t@.subrange(0, 1) =~= "#"@);
        }
        k = k + 1;
    }
    !str_contains(c, "[[exemptions.")
}

// ---------------------------------------------------------------------
// The Xcode project.
// ---------------------------------------------------------------------

/// The index of the last `.` in `s`, if any.
pub open spec fn last_dot(s: Seq<char>) -> Option<int>
    decreases s.len(),
{
    if s.len() == 0 {
        None
    } else if s.last() == '.' {
        Some(s.len() - 1)
    } else {
        last_dot(s.drop_last())
    }
}

/// `Path::extension` of a file name: what follows its last `.`, when that
/// dot is not its first character (and the name is not `..`).
pub open spec fn extension(name: Seq<char>) -> Option<Seq<char>> {
    match last_dot(name) {
        Some(k) => if k == 0 || name == ".."@ {
            None
        } else {
            Some(name.subrange(k + 1, name.len() as int))
        },
        None => None,
    }
}

/// `Path::file_stem` of a file name that has an extension.
pub open spec fn stem(name: Seq<char>) -> Seq<char> {
    match last_dot(name) {
        Some(k) => name.subrange(0, k),
        None => name,
    }
}

proof fn lemma_last_dot(s: Seq<char>)
    ensures
        match last_dot(s) {
            Some(k) => 0 <= k < s.len() && s[k] == '.',
            None => true,
        },
    decreases s.len(),
{
    if s.len() > 0 && s.last() != '.' {
        lemma_last_dot(s.drop_last());
    }
}

fn last_dot_of(s: &[char]) -> (r: Option<usize>)
    ensures
        match r {
            Some(k) => last_dot(s@) == Some(k as int),
            None => last_dot(s@) is None,
        },
{
    let mut n: usize = s.len();
    assert(s@.subrange(0, s@.len() as int) =~= s@);
    while n > 0 && s[n - 1] != '.'
        invariant
            n <= s@.len(),
            last_dot(s@) == last_dot(s@.subrange(0, n as int)),
        decreases n,
    {
        assert(s@.subrange(0, n as int).drop_last() =~= s@.subrange(0, n - 1));
        n = n - 1;
    }
    if n == 0 {
        assert(s@.subrange(0, 0) =~= Seq::<char>::empty());
        None
    } else {
        assert(s@.subrange(0, n as int).last() == s@[n - 1]);
        Some(n - 1)
    }
}

/// The names among `names` whose extension is `xcodeproj`, in order.
pub open spec fn xcodeprojs(names: Seq<Seq<char>>) -> Seq<Seq<char>>
    decreases names.len(),
{
    if names.len() == 0 {
        Seq::empty()
    } else {
        xcodeprojs(names.drop_last()) + if extension(names.last()) == Some("xcodeproj"@) {
            seq![names.last()]
        } else {
            Seq::empty()
        }
    }
}

/// The Xcode project under `ios_root`, from the names of its entries (or
/// why they could not be listed): exactly one `.xcodeproj` bundle must
/// be there; its stem is the scheme.
pub fn find_xcodeproj(ios_root: &str, entries: Result<Vec<String>, String>) -> (r: Result<
    (String, String),
    VectisError,
>)
    ensures
        match entries {
            Err(e) => r is Err && r->Err_0 is Io && error_message(r->Err_0) == e@,
            Ok(names) => {
                let found = xcodeprojs(crate::query::texts(names@));
                if found.len() == 0 {
                    r is Err && r->Err_0 is Verify && error_message(r->Err_0) == "no .xcodeproj found under "@
                        + ios_root@ + " -- run `make xcode` first"@
                } else if found.len() > 1 {
                    r is Err && r->Err_0 is Verify && error_message(r->Err_0)
                        == "multiple .xcodeproj bundles found under "@ + ios_root@
                        + "; expected exactly one"@
                } else {
                    r is Ok && r->Ok_0.0@ == stem(found[0]) && r->Ok_0.1@ == path_join(
                        ios_root@,
                        found[0],
                    )
                }
            },
        },
{
    let names = match entries {
        Err(e) => {
            return Err(VectisError::Io(e));
        },
        Ok(n) => n,
    };
    let ghost nv = crate::query::texts(names@);
    let mut found: Vec<String> = Vec::new();
    let mut i: usize = 0;
    assert(nv.subrange(0, 0) =~= Seq::<Seq<char>>::empty());
    proof {
        reveal_strlit("xcodeproj");
        reveal_strlit("..");
    }
    while i < names.len()
        invariant
            i <= names@.len(),
            nv == crate::query::texts(names@),
            crate::query::texts(found@) == xcodeprojs(nv.subrange(0, i as int)),
            "xcodeproj"@.len() == 9,
        decreases names@.len() - i,
    {
        let ghost post = nv.subrange(0, i + 1);
        assert(post.drop_last() =~= nv.subrange(0, i as int));
        assert(post.last() == names@[i as int]@);
        let s = chars_of(names[i].as_str());
        proof {
            lemma_last_dot(s@);
        }
        let ghost before = crate::query::texts(found@);
        match last_dot_of(s.as_slice()) {
            Some(k) => {
                assert(last_dot(s@) == Some(k as int));
                let n = s.len();
                assert(k < n);
                if k > 0 && !crate::text::str_eq(names[i].as_str(), "..") {
                    let ext = crate::text::slice_chars(s.as_slice(), k + 1, n);
                    let x = chars_of("xcodeproj");
                    if crate::text::seq_eq(ext.as_slice(), x.as_slice()) {
                        found.push(names[i].clone());
                        assert(crate::query::texts(found@) =~= before.push(names@[i as int]@));
                    }
                }
            },
            None => {},
        }
        i = i + 1;
    }
    assert(nv.subrange(0, nv.len() as int) =~= nv);
    if found.len() == 0 {
        let mut msg = crate::text::cat("no .xcodeproj found under ", ios_root);
        msg.append(" -- run `make xcode` first");
        return Err(VectisError::Verify { message: msg });
    }
    if found.len() > 1 {
        let mut msg = crate::text::cat("multiple .xcodeproj bundles found under ", ios_root);
        msg.append("; expected exactly one");
        return Err(VectisError::Verify { message: msg });
    }
    let name = &found[0];
    assert(crate::query::texts(found@)[0] == name@);
    let s = chars_of(name.as_str());
    proof {
        lemma_last_dot(s@);
    }
    let scheme = match last_dot_of(s.as_slice()) {
        Some(k) => crate::text::string_of(&crate::text::slice_chars(s.as_slice(), 0, k)),
        None => name.clone(),
    };
    proof {
        lemma_last_dot(s@);
    }
    Ok((scheme, join_path(ios_root, name.as_str())))
}

// ---------------------------------------------------------------------
// Assemblies and the report.
// ---------------------------------------------------------------------

/// The assemblies a project has: core always, iOS when it has an `iOS/`
/// directory, Android when it has an `Android/` directory.
pub fn detect_assemblies(has_ios_dir: bool, has_android_dir: bool) -> (r: Vec<AssemblyKind>)
    ensures
        r@ == seq![AssemblyKind::Core] + (if has_ios_dir {
            seq![AssemblyKind::Ios]
        } else {
            Seq::empty()
        }) + (if has_android_dir {
            seq![AssemblyKind::Android]
        } else {
            Seq::empty()
        }),
{
    let mut out: Vec<AssemblyKind> = Vec::new();
    out.push(AssemblyKind::Core);
    if has_ios_dir {
        out.push(AssemblyKind::Ios);
    }
    if has_android_dir {
        out.push(AssemblyKind::Android);
    }
    assert(out@ =~= seq![AssemblyKind::Core] + (if has_ios_dir {
        seq![AssemblyKind::Ios]
    } else {
        Seq::empty()
    }) + (if has_android_dir {
        seq![AssemblyKind::Android]
    } else {
        Seq::empty()
    }));
    out
}

/// The scratch directory of a run: under `<home>/.cache/vectis/` when
/// there is a home directory, else under the temporary directory.
pub open spec fn scratch_root(home: Option<Seq<char>>, tmp: Seq<char>, label: Seq<char>, pid: nat) -> Seq<
    char,
> {
    match home {
        Some(h) => path_join(path_join(path_join(h, ".cache"@), "vectis"@), label + "-"@ + decimal(pid)),
        None => path_join(tmp, "vectis-"@ + label + "-"@ + decimal(pid)),
    }
}

/// The scratch directory of a run labelled `label` (`verify`,
/// `update-versions`) in process `pid`.
pub fn scratch_dir(home: Option<&str>, tmp: &str, label: &str, pid: u32) -> (r: String)
    ensures
        r@ == scratch_root(
            match home {
                Some(h) => Some(h@),
                None => None,
            },
            tmp@,
            label@,
            pid as nat,
        ),
{
    let n = usize_to_text(pid as usize);
    match home {
        Some(h) => {
            let a = join_path(h, ".cache");
            let b = join_path(a.as_str(), "vectis");
            let mut leaf = crate::text::cat(label, "-");
            leaf.append(n.as_str());
            join_path(b.as_str(), leaf.as_str())
        },
        None => {
            let mut leaf = crate::text::cat("vectis-", label);
            leaf.append("-");
            leaf.append(n.as_str());
            join_path(tmp, leaf.as_str())
        },
    }
}

/// The scratch directories `verify` hands the core pipeline: a root
/// (see `scratch_root`, labelled `verify`) with `swift` and `kotlin`
/// under it. The caller creates them before the pipeline runs and
/// removes the root afterwards.
#[derive(Debug)]
pub struct VerifyCache {
    root: String,
    swift: String,
    kotlin: String,
}

impl VerifyCache {
    /// The scratch root's path.
    pub closed spec fn root_view(&self) -> Seq<char> {
        self.root@
    }

    /// The `swift` directory's path.
    pub closed spec fn swift_view(&self) -> Seq<char> {
        self.swift@
    }

    /// The `kotlin` directory's path.
    pub closed spec fn kotlin_view(&self) -> Seq<char> {
        self.kotlin@
    }

    /// The cache of process `pid`, under `$HOME/.cache/vectis` when
    /// there is a home directory, else under the temporary directory.
    pub fn new(home: Option<&str>, tmp: &str, pid: u32) -> (c: VerifyCache)
        ensures
            c.root_view() == scratch_root(
                match home {
                    Some(h) => Some(h@),
                    None => None,
                },
                tmp@,
                "verify"@,
                pid as nat,
            ),
            c.swift_view() == path_join(c.root_view(), "swift"@),
            c.kotlin_view() == path_join(c.root_view(), "kotlin"@),
    {
        let root = scratch_dir(home, tmp, "verify", pid);
        let swift = join_path(root.as_str(), "swift");
        let kotlin = join_path(root.as_str(), "kotlin");
        VerifyCache { root, swift, kotlin }
    }

    /// The scratch root, removed when `verify` is done.
    pub fn root(&self) -> (r: &str)
        ensures
            r@ == self.root_view(),
    {
        self.root.as_str()
    }

    /// The directory the Swift package build writes to.
    pub fn swift_dir(&self) -> (r: &str)
        ensures
            r@ == self.swift_view(),
    {
        self.swift.as_str()
    }

    /// The directory the Kotlin bindings build writes to.
    pub fn kotlin_dir(&self) -> (r: &str)
        ensures
            r@ == self.kotlin_view(),
    {
        self.kotlin.as_str()
    }
}

/// The JSON shape of a step: `name`, `passed`, and `error` when there
/// is one.
pub open spec fn is_step_json(j: Json, s: BuildStep) -> bool {
    &&& j is Object
    &&& j->Object_0@.len() == (if s.error is Some {
        3nat
    } else {
        2nat
    })
    &&& crate::error::str_member(j->Object_0@[0], "name"@, s.name@)
    &&& j->Object_0@[1].0@ == "passed"@ && j->Object_0@[1].1 == Json::Bool(s.passed)
    &&& s.error is Some ==> crate::error::str_member(j->Object_0@[2], "error"@, s.error->Some_0@)
}

/// A step as JSON (see `is_step_json`).
pub fn step_json(s: &BuildStep) -> (j: Json)
    ensures
        is_step_json(j, *s),
{
    let mut es: Vec<(String, Json)> = Vec::new();
    es.push((owned("name"), Json::Str(owned(s.name))));
    es.push((owned("passed"), Json::Bool(s.passed)));
    match &s.error {
        Some(e) => es.push((owned("error"), Json::Str(e.clone()))),
        None => {},
    }
    Json::Object(es)
}

/// A list of steps as JSON: an array holding each step's shape.
pub open spec fn is_steps_json(j: Json, steps: Seq<BuildStep>) -> bool {
    &&& j is Array
    &&& j->Array_0@.len() == steps.len()
    &&& forall|k: int| 0 <= k < steps.len() ==> is_step_json(#[trigger] j->Array_0@[k], steps[k])
}

/// The steps as a JSON array (see `is_steps_json`).
pub fn steps_array(steps: &Vec<BuildStep>) -> (j: Json)
    ensures
        is_steps_json(j, steps@),
{
    let mut items: Vec<Json> = Vec::new();
    let mut i: usize = 0;
    while i < steps.len()
        invariant
            i <= steps@.len(),
            items@.len() == i,
            forall|k: int| 0 <= k < i ==> is_step_json(#[trigger] items@[k], steps@[k]),
        decreases steps@.len() - i,
    {
        items.push(step_json(&steps[i]));
        i = i + 1;
    }
    Json::Array(items)
}

/// The JSON shape of an assembly's result: `passed` (every step
/// passed) and its `steps`.
pub open spec fn is_assembly_json(j: Json, steps: Seq<BuildStep>) -> bool {
    &&& j is Object
    &&& j->Object_0@.len() == 2
    &&& j->Object_0@[0].0@ == "passed"@
    &&& j->Object_0@[0].1 == Json::Bool(all_passed(steps))
    &&& j->Object_0@[1].0@ == "steps"@
    &&& is_steps_json(j->Object_0@[1].1, steps)
}

/// An assembly's result as JSON (see `is_assembly_json`).
pub fn assembly_json(steps: &Vec<BuildStep>) -> (j: Json)
    ensures
        is_assembly_json(j, steps@),
{
    let passed = steps_passed(steps);
    let items = steps_array(steps);
    let mut es: Vec<(String, Json)> = Vec::new();
    es.push((owned("passed"), Json::Bool(passed)));
    es.push((owned("steps"), items));
    Json::Object(es)
}

/// The verify report: `project_dir`, `passed` (every assembly's steps
/// passed), and `assemblies` with `core`, then `ios` and `android` when
/// they were built.
pub fn verify_report(
    project_dir: &str,
    core: &Vec<BuildStep>,
    ios: Option<&Vec<BuildStep>>,
    android: Option<&Vec<BuildStep>>,
) -> (j: Json)
    ensures
        j is Object,
        j->Object_0@.len() == 3,
        crate::error::str_member(j->Object_0@[0], "project_dir"@, project_dir@),
        j->Object_0@[1].0@ == "passed"@,
        j->Object_0@[1].1 == Json::Bool(
            all_passed(core@) && match ios {
                Some(s) => all_passed(s@),
                None => true,
            } && match android {
                Some(s) => all_passed(s@),
                None => true,
            },
        ),
        j->Object_0@[2].0@ == "assemblies"@,
        j->Object_0@[2].1 is Object,
        j->Object_0@[2].1->Object_0@.len() == 1 + (if ios is Some {
            1int
        } else {
            0int
        }) + (if android is Some {
            1int
        } else {
            0int
        }),
        j->Object_0@[2].1->Object_0@[0].0@ == "core"@,
        is_assembly_json(j->Object_0@[2].1->Object_0@[0].1, core@),
        ios matches Some(s) ==> j->Object_0@[2].1->Object_0@[1].0@ == "ios"@ && is_assembly_json(
            j->Object_0@[2].1->Object_0@[1].1,
            s@,
        ),
        android matches Some(s) ==> {
            let a = j->Object_0@[2].1->Object_0@;
            a.last().0@ == "android"@ && is_assembly_json(a.last().1, s@)
        },
{
    let mut passed = steps_passed(core);
    let mut members: Vec<(String, Json)> = Vec::new();
    members.push((owned("core"), assembly_json(core)));
    match ios {
        Some(s) => {
            passed = passed && steps_passed(s);
            members.push((owned("ios"), assembly_json(s)));
        },
        None => {},
    }
    match android {
        Some(s) => {
            passed = passed && steps_passed(s);
            members.push((owned("android"), assembly_json(s)));
        },
        None => {},
    }
    let mut es: Vec<(String, Json)> = Vec::new();
    es.push((owned("project_dir"), Json::Str(owned(project_dir))));
    es.push((owned("passed"), Json::Bool(passed)));
    es.push((owned("assemblies"), Json::Object(members)));
    Json::Object(es)
}

} // verus!
