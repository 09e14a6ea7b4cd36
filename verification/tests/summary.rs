use vectis::error::{MissingTool, VectisError};
use vectis::json::Json;
use vectis::summary::{
    render_add_shell_text, render_build_steps_summary, render_error_text, render_init_text,
    render_update_versions_text, render_verify_text, render_versions_text,
};

fn s(v: &str) -> Json {
    Json::Str(v.to_string())
}

fn b(v: bool) -> Json {
    Json::Bool(v)
}

fn arr(items: Vec<Json>) -> Json {
    Json::Array(items)
}

fn obj(members: Vec<(&str, Json)>) -> Json {
    Json::Object(members.into_iter().map(|(k, v)| (k.to_string(), v)).collect())
}

fn step(name: &str, passed: bool, error: Option<&str>) -> Json {
    let mut m = vec![("name", s(name)), ("passed", b(passed))];
    if let Some(e) = error {
        m.push(("error", s(e)));
    }
    obj(m)
}

#[test]
fn build_summary_names_the_first_failing_step() {
    assert_eq!(render_build_steps_summary(None), None);
    assert_eq!(render_build_steps_summary(Some(&s("x"))), None);
    assert_eq!(render_build_steps_summary(Some(&arr(vec![]))).as_deref(), Some("build PASS"));
    let steps = arr(vec![step("make typegen", true, None), step("make package", false, None), step("make xcode", false, None)]);
    assert_eq!(render_build_steps_summary(Some(&steps)).as_deref(), Some("build FAIL (make package)"));
    let nameless = arr(vec![obj(vec![("passed", s("yes"))])]);
    assert_eq!(render_build_steps_summary(Some(&nameless)).as_deref(), Some("build FAIL (?)"));
}

#[test]
fn init_summary_lists_assemblies_core_first() {
    let value = obj(vec![
        ("app-name", s("Counter")),
        ("project-dir", s("/p")),
        ("capabilities", arr(vec![s("http"), s("kv")])),
        (
            "assemblies",
            obj(vec![
                ("zeta", obj(vec![("status", s("created")), ("files", arr(vec![]))])),
                ("android", obj(vec![("status", s("created")), ("files", arr(vec![s("a"), s("b")])), ("build-steps", arr(vec![step("gradle wrapper", false, None)]))])),
                ("core", obj(vec![("status", s("created")), ("files", arr(vec![s("Cargo.toml")]))])),
                ("ios", obj(vec![("files", arr(vec![])), ("build-steps", arr(vec![]))])),
            ]),
        ),
    ]);
    assert_eq!(
        render_init_text(&value),
        "Created app \"Counter\" at /p\n\
         Capabilities: http, kv\n\
         Assemblies:\n  \
         - core: created (1 files)\n  \
         - ios: ? (0 files), build PASS\n  \
         - android: created (2 files), build FAIL (gradle wrapper)\n  \
         - zeta: created (0 files)\n"
    );
    assert_eq!(
        render_init_text(&obj(vec![])),
        "Created app \"<app>\" at <dir>\nCapabilities: (none)\nAssemblies:\n"
    );
}

#[test]
fn verify_summary_details_only_failed_assemblies() {
    let value = obj(vec![
        ("project-dir", s("/p")),
        ("passed", b(false)),
        (
            "assemblies",
            obj(vec![
                ("ios", obj(vec![("passed", b(false)), ("steps", arr(vec![step("make typegen", true, None), step("make package", false, Some("\n  \nerror: boom\nmore"))]))])),
                ("core", obj(vec![("passed", b(true)), ("steps", arr(vec![step("cargo check", true, None)]))])),
            ]),
        ),
    ]);
    assert_eq!(
        render_verify_text(&value),
        "Verified /p: FAIL\n  \
         - core: PASS\n  \
         - ios: FAIL\n      \
         - make typegen: PASS\n      \
         - make package: FAIL\n        \
         error: error: boom\n"
    );
}

#[test]
fn add_shell_summary_reports_capabilities_and_files() {
    let value = obj(vec![
        ("app-name", s("Counter")),
        ("project-dir", s("/p")),
        ("platform", s("ios")),
        ("detected-capabilities", arr(vec![])),
        ("unrecognized-capabilities", arr(vec![s("crux_experimental"), Json::Null])),
        ("assembly", obj(vec![("files", arr(vec![s("a"), s("b"), s("c")])), ("build-steps", arr(vec![step("make typegen", true, None)]))])),
    ]);
    assert_eq!(
        render_add_shell_text(&value),
        "Added ios shell to \"Counter\" at /p\n\
         Detected capabilities: (none)\n\
         Unrecognized capabilities: crux_experimental\n\
         Files: 3, build PASS\n"
    );
}

#[test]
fn update_versions_summary_shows_changes_errors_and_matrix() {
    let value = obj(vec![
        ("version-file", s("/home/u/.config/vectis/versions.toml")),
        ("dry-run", b(false)),
        ("written", b(true)),
        ("changes", arr(vec![obj(vec![("key", s("crux.crux_core")), ("current", s("0.17.0")), ("proposed", s("0.18.0"))])])),
        ("errors", arr(vec![s("crates.io: serde: timed out")])),
        ("verification", obj(vec![("passed", b(true)), ("combos", arr(vec![obj(vec![("caps", s("")), ("passed", b(true))])]))])),
    ]);
    assert_eq!(
        render_update_versions_text(&value),
        "Versions file: /home/u/.config/vectis/versions.toml (written)\n\
         Changes:\n  \
         - crux.crux_core: 0.17.0 → 0.18.0\n\
         Errors:\n  \
         - crates.io: serde: timed out\n\
         Verify matrix: PASS\n  \
         - : PASS\n"
    );
    let dry = obj(vec![("dry-run", b(true)), ("changes", arr(vec![])), ("errors", arr(vec![]))]);
    assert_eq!(render_update_versions_text(&dry), "Versions file: <file> (dry-run)\nNo changes.\n");
    assert_eq!(render_update_versions_text(&obj(vec![])), "Versions file: <file> (no write)\nNo changes.\n");
}

#[test]
fn versions_summary_sorts_keys_and_skips_empty_sections() {
    let value = obj(vec![
        ("crux", obj(vec![("serde", s("1.0")), ("crux_core", s("0.17.0"))])),
        ("android", obj(vec![("ndk", Json::Null), ("agp", s("8.13.2"))])),
        ("ios", obj(vec![])),
    ]);
    assert_eq!(
        render_versions_text(&value),
        "Resolved version pins:\n  [crux]\n    crux_core = 0.17.0\n    serde = 1.0\n  [android]\n    agp = 8.13.2\n    ndk = ?\n"
    );
}

#[test]
fn error_summary_lists_missing_tools_and_exits_with_the_error_code() {
    let err = VectisError::MissingPrerequisites {
        missing: vec![MissingTool {
            tool: "xcodegen".into(),
            assembly: "ios".into(),
            check: "xcodegen --version".into(),
            install: "brew install xcodegen".into(),
        }],
        message: "Install the missing tools above and re-run the command.".into(),
    };
    let (text, code) = render_error_text(&err);
    assert_eq!(
        text,
        "error: missing prerequisites\n  - xcodegen (ios): xcodegen --version | install: brew install xcodegen\nInstall the missing tools above and re-run the command.\n"
    );
    assert_eq!(code, 2);
    let (text, code) = render_error_text(&VectisError::Verify { message: "boom".into() });
    assert_eq!(text, "error: verify failed: boom\n");
    assert_eq!(code, 1);
}
