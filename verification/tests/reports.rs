use vectis::error::VectisError;
use vectis::json::Json;
use vectis::matrix::{combo_result, matrix_result, ComboRun, VerifyOutcome};
use vectis::prerequisites::AssemblyKind;
use vectis::reports::{add_shell_report, init_report, plan_write, update_report, ShellBuild};
use vectis::templates::Capability;
use vectis::update_versions::{Change, Unchanged};
use vectis::verify::{
    android_plan, check_build, core_plan, ios_make_plan, xcodebuild_step, BuildStep, VerifyCache,
};

fn text<'a>(j: &'a Json, key: &str) -> &'a str {
    match j.get(key) {
        Some(Json::Str(s)) => s,
        other => panic!("{key}: {other:?}"),
    }
}

fn items<'a>(j: &'a Json, key: &str) -> &'a Vec<Json> {
    match j.get(key) {
        Some(Json::Array(v)) => v,
        other => panic!("{key}: {other:?}"),
    }
}

fn flag(j: &Json, key: &str) -> bool {
    match j.get(key) {
        Some(Json::Bool(b)) => *b,
        other => panic!("{key}: {other:?}"),
    }
}

fn step(name: &'static str, passed: bool) -> BuildStep {
    BuildStep { name, passed, error: if passed { None } else { Some("boom".into()) } }
}

#[test]
fn a_failing_step_fails_the_shell_build_by_name() {
    assert!(check_build("iOS", &vec![step("make typegen", true), step("make xcode", true)]).is_ok());
    match check_build("Android", &vec![step("gradle wrapper", true), step("make build", false), step("x", false)]) {
        Err(VectisError::Verify { message }) => assert_eq!(message, "Android build step `make build` failed"),
        other => panic!("unexpected {other:?}"),
    }
}

#[test]
fn init_report_keys_each_assembly_by_its_tag() {
    let shells = vec![ShellBuild {
        shell: AssemblyKind::Android,
        files: vec!["Android/app/build.gradle.kts".into()],
        steps: vec![step("gradle wrapper", true)],
    }];
    let j = init_report("Counter", "/p", &vec!["Cargo.toml".into()], &shells, &[Capability::Http]);
    assert_eq!(text(&j, "app_name"), "Counter");
    assert_eq!(text(&j, "app_struct"), "Counter");
    assert_eq!(text(&j, "project_dir"), "/p");
    let assemblies = j.get("assemblies").unwrap();
    let core = assemblies.get("core").unwrap();
    assert_eq!(text(core, "status"), "created");
    assert_eq!(items(core, "files").len(), 1);
    assert!(core.get("build_steps").is_none());
    let android = assemblies.get("android").unwrap();
    assert_eq!(items(android, "build_steps").len(), 1);
    assert_eq!(items(&j, "capabilities").len(), 1);
    assert!(matches!(&items(&j, "shells")[0], Json::Str(s) if s == "android"));
}

#[test]
fn add_shell_report_passes_when_every_step_passed() {
    let j = add_shell_report(
        "Counter",
        "/p",
        AssemblyKind::Ios,
        &[Capability::Kv],
        &vec!["crux_experimental".into()],
        &vec!["iOS/project.yml".into()],
        &vec![step("make typegen", true)],
    );
    assert_eq!(text(&j, "platform"), "ios");
    assert_eq!(text(&j, "source"), "app.rs");
    assert!(flag(&j, "passed"));
    assert!(matches!(&items(&j, "unrecognized-capabilities")[0], Json::Str(s) if s == "crux_experimental"));
    let assembly = j.get("assembly").unwrap();
    assert_eq!(items(assembly, "build-steps").len(), 1);
}

#[test]
fn pins_are_written_only_outside_dry_runs_and_after_a_passing_matrix() {
    let passing = Some(matrix_result(vec![combo_result("", ComboRun::Verified(VerifyOutcome::Report(Json::Object(vec![("passed".into(), Json::Bool(true))]))))]));
    let failing = Some(matrix_result(vec![combo_result("http", ComboRun::InitFailed("no".into()))]));
    assert!(plan_write(false, &None));
    assert!(plan_write(false, &passing));
    assert!(!plan_write(false, &failing));
    assert!(!plan_write(true, &None));
    assert!(!plan_write(true, &passing));
}

#[test]
fn update_report_lists_changes_and_leaves_out_empty_errors() {
    let changes = vec![Change { key: "crux.crux_core".into(), current: "0.17.0".into(), proposed: "0.18.0".into() }];
    let unchanged = vec![Unchanged { key: "crux.serde".into(), value: "1.0".into() }];
    let j = update_report("/v.toml", true, false, false, &changes, &unchanged, &Vec::new(), None);
    assert_eq!(text(&j, "version_file"), "/v.toml");
    assert!(flag(&j, "dry_run"));
    assert!(flag(&j, "passed"));
    assert!(!flag(&j, "written"));
    assert_eq!(text(&items(&j, "changes")[0], "proposed"), "0.18.0");
    assert_eq!(text(&items(&j, "unchanged")[0], "value"), "1.0");
    assert!(j.get("errors").is_none());
    assert!(j.get("verification").is_none());

    let failing = Some(matrix_result(vec![combo_result("http", ComboRun::InitFailed("no".into()))]));
    let j = update_report("/v.toml", false, true, false, &changes, &unchanged, &vec!["e".into()], failing);
    assert!(!flag(&j, "passed"));
    assert_eq!(items(&j, "errors").len(), 1);
    let verification = j.get("verification").unwrap();
    assert!(!flag(verification, "passed"));
    assert_eq!(text(&items(verification, "combos")[0], "error"), "init failed: no");
}

#[test]
fn verify_cache_lives_under_the_user_cache_or_the_temp_dir() {
    let c = VerifyCache::new(Some("/home/u"), "/tmp", 7);
    assert_eq!(c.root(), "/home/u/.cache/vectis/verify-7");
    assert_eq!(c.swift_dir(), "/home/u/.cache/vectis/verify-7/swift");
    assert_eq!(c.kotlin_dir(), "/home/u/.cache/vectis/verify-7/kotlin");
    let c = VerifyCache::new(None, "/tmp", 7);
    assert_eq!(c.kotlin_dir(), "/tmp/vectis-verify-7/kotlin");
}

#[test]
fn pipelines_run_the_documented_commands() {
    let core = core_plan("/p", "/s", "/k", true);
    let names: Vec<&str> = core.iter().map(|p| p.name).collect();
    assert_eq!(
        names,
        vec!["cargo check", "cargo clippy", "cargo deny", "cargo vet", "cargo vet", "codegen swift", "cargo build shared cdylib", "codegen kotlin"]
    );
    assert!(!core[3].reported_on_pass && core[4].reported_on_pass);
    assert_eq!(core[3].args, vec!["vet", "regenerate", "exemptions"]);
    assert_eq!(core[5].args.last().map(String::as_str), Some("/s"));
    assert_eq!(core[7].args[9], "kotlin");
    assert!(core.iter().all(|p| p.dir == "/p" && p.program == "cargo"));
    let ios = ios_make_plan("/p/iOS");
    assert_eq!(ios.iter().map(|p| p.args[0].as_str()).collect::<Vec<_>>(), vec!["typegen", "package", "xcode"]);
    let x = xcodebuild_step("/p/iOS", "Counter", "/p/iOS/Counter.xcodeproj");
    assert_eq!(x.args[2], "/p/iOS/Counter.xcodeproj");
    assert_eq!(x.args[4], "Counter");
    let android = android_plan("/p/Android");
    assert_eq!(android[1].program, "./gradlew");
    assert_eq!(android[1].args, vec![":app:assembleDebug"]);
}

#[test]
fn run_step_captures_stdout_and_stderr_on_failure() {
    let step = vectis::verify::run_step("sh fail", Ok((false, "out\n".to_string(), "err\n".to_string()))).unwrap();
    assert!(!step.passed);
    let err = step.error.expect("error must be present");
    assert!(err.contains("out"), "stdout missing from combined: {err}");
    assert!(err.contains("err"), "stderr missing from combined: {err}");
    assert_eq!(err, "out\nerr");
}

#[test]
fn run_step_joins_output_without_trailing_newline() {
    let step = vectis::verify::run_step("x", Ok((false, "out".to_string(), "  err  ".to_string()))).unwrap();
    assert_eq!(step.error.as_deref(), Some("out\n  err"));
}

#[test]
fn run_step_marks_success_with_no_error() {
    let step = vectis::verify::run_step("sh ok", Ok((true, "noise".to_string(), String::new()))).unwrap();
    assert!(step.passed);
    assert!(step.error.is_none());
    assert_eq!(step.name, "sh ok");
}

#[test]
fn run_step_surfaces_spawn_failures_as_verify_error() {
    let err = vectis::verify::run_step("missing", Err("No such file or directory (os error 2)".to_string()))
        .expect_err("spawn must fail");
    match err {
        VectisError::Verify { message } => {
            assert!(message.contains("failed to invoke `missing`"), "{message}");
            assert_eq!(message, "failed to invoke `missing`: No such file or directory (os error 2)");
        }
        other => panic!("unexpected: {other:?}"),
    }
}

#[test]
fn a_pipeline_stops_at_its_first_failing_step() {
    let plan = core_plan("/p", "/c/swift", "/c/kotlin", false);
    let outcomes = [true, true, false, true];
    let mut steps: Vec<BuildStep> = Vec::new();
    let mut ran = 0;
    for (p, ok) in plan.iter().zip(outcomes.iter()) {
        ran += 1;
        let outcome = vectis::verify::run_step(p.name, Ok((*ok, String::new(), "boom".to_string()))).unwrap();
        if !vectis::verify::record_step(&mut steps, p, outcome) {
            break;
        }
    }
    assert_eq!(ran, 3);
    assert!(!steps.last().unwrap().passed);
    assert!(steps[..steps.len() - 1].iter().all(|s| s.passed));
}
