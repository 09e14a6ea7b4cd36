use vectis::engine::discovery::{
    expand_path_template,
    artifacts_block, paths_for_key_in, schema_paths,
    find_project_root, paths_for_key, project_root_candidates, resolve_default_path_with_root,
    schema_name_from_value, default_path_candidates, discover_artifact, sibling_path_candidates,
};
use vectis::engine::report::{run, Loaded, ModeInput, ValidateMode};
use vectis::error::VectisError;

const NOT_FOUND: &str = "No such file or directory (os error 2)";

fn unreadable() -> Loaded {
    Loaded::Unreadable(NOT_FOUND.to_string())
}

#[test]
fn engine_missing_file_returns_invalid_project_error() {
    let input = ModeInput::Tokens { loaded: unreadable(), schema: vec![] };
    match run("/definitely/not/here/tokens.yaml", input) {
        Err(VectisError::InvalidProject { message }) => {
            assert!(message.contains("tokens.yaml not readable"), "unexpected message: {message}");
        }
        other => panic!("expected InvalidProject for missing file, got {other:?}"),
    }
}

#[test]
fn engine_validate_mode_as_str_matches_value_enum_spelling() {
    for (mode, expected) in [
        (ValidateMode::Layout, "layout"),
        (ValidateMode::Composition, "composition"),
        (ValidateMode::Tokens, "tokens"),
        (ValidateMode::Assets, "assets"),
        (ValidateMode::All, "all"),
    ] {
        assert_eq!(mode.as_str(), expected);
    }
}

#[test]
fn engine_assets_missing_file_returns_invalid_project_error() {
    let input = ModeInput::Assets { loaded: unreadable(), schema: vec![], present: vec![], composition: None };
    match run("/definitely/not/here/assets.yaml", input) {
        Err(VectisError::InvalidProject { message }) => {
            assert!(message.contains("assets.yaml not readable"), "unexpected message: {message}");
        }
        other => panic!("expected InvalidProject for missing file, got {other:?}"),
    }
}

#[test]
fn engine_layout_missing_file_returns_invalid_project_error() {
    let input = ModeInput::Layout { loaded: unreadable(), schema: vec![] };
    match run("/definitely/not/here/layout.yaml", input) {
        Err(VectisError::InvalidProject { message }) => {
            assert!(message.contains("layout.yaml not readable"), "unexpected message: {message}");
        }
        other => panic!("expected InvalidProject for missing file, got {other:?}"),
    }
}

#[test]
fn composition_missing_file_returns_invalid_project_error() {
    let input = ModeInput::Composition { loaded: unreadable(), schema: vec![], tokens: None, assets: None };
    match run("/definitely/not/here/composition.yaml", input) {
        Err(VectisError::InvalidProject { message }) => {
            assert!(message.contains("composition.yaml not readable"), "unexpected message: {message}");
        }
        other => panic!("expected InvalidProject for missing file, got {other:?}"),
    }
}

#[test]
fn schema_name_from_value_handles_urls_and_refs() {
    assert_eq!(schema_name_from_value("vectis"), "vectis");
    assert_eq!(schema_name_from_value("https://example.com/schemas/vectis"), "vectis");
    assert_eq!(schema_name_from_value("https://example.com/schemas/vectis@1.2.3"), "vectis");
    assert_eq!(schema_name_from_value("https://example.com/schemas/vectis@1.2.3/"), "vectis");
}

#[test]
fn engine_assets_assets_missing_file_returns_invalid_project_error() {
    let input = ModeInput::Assets { loaded: unreadable(), schema: vec![], present: vec![], composition: None };
    match run("/definitely/not/here/assets.yaml", input) {
        Err(VectisError::InvalidProject { message }) => {
            assert!(message.contains("assets.yaml not readable"), "unexpected message: {message}");
        }
        other => panic!("expected InvalidProject for missing file, got {other:?}"),
    }
}

#[test]
fn engine_layout_layout_missing_file_returns_invalid_project_error() {
    let input = ModeInput::Layout { loaded: unreadable(), schema: vec![] };
    match run("/definitely/not/here/layout.yaml", input) {
        Err(VectisError::InvalidProject { message }) => {
            assert!(message.contains("layout.yaml not readable"), "unexpected message: {message}");
        }
        other => panic!("expected InvalidProject for missing file, got {other:?}"),
    }
}

#[test]
fn invalid_yaml_is_a_single_error_entry() {
    let input = ModeInput::Tokens { loaded: Loaded::InvalidYaml("mapping values are not allowed".into()), schema: vec![] };
    let report = run("tokens.yaml", input).expect("run succeeds");
    assert_eq!(report.errors.len(), 1);
    assert_eq!(report.errors[0].path, "");
    assert_eq!(report.errors[0].message, "invalid YAML: mapping values are not allowed");
    assert!(report.warnings.is_empty());
}

#[test]
fn paths_for_key_lists_change_local_before_project() {
    assert_eq!(
        paths_for_key("layout"),
        vec![".specify/slices/<name>/layout.yaml".to_string(), "design-system/layout.yaml".to_string()]
    );
    assert_eq!(
        paths_for_key("composition"),
        vec![".specify/slices/<name>/composition.yaml".to_string(), ".specify/specs/composition.yaml".to_string()]
    );
    assert!(paths_for_key("unknown").is_empty());
}

#[test]
fn default_path_prefers_change_local_and_falls_back_to_last_candidate() {
    let names = vec!["b-slice".to_string(), "a-slice".to_string()];
    let cands = default_path_candidates(ValidateMode::Tokens, "/p", &names);
    assert_eq!(
        cands,
        vec![
            "/p/.specify/slices/a-slice/tokens.yaml".to_string(),
            "/p/.specify/slices/b-slice/tokens.yaml".to_string(),
            "/p/design-system/tokens.yaml".to_string(),
        ]
    );
    assert_eq!(
        resolve_default_path_with_root(ValidateMode::Tokens, "/p", &names, &[false, true, true]),
        "/p/.specify/slices/b-slice/tokens.yaml"
    );
    assert_eq!(
        resolve_default_path_with_root(ValidateMode::Tokens, "/p", &names, &[false, false, false]),
        "/p/design-system/tokens.yaml"
    );
}

#[test]
fn find_project_root_walks_up_to_the_specify_dir() {
    let cands = project_root_candidates("/a/b/c/tokens.yaml", false).expect("has a parent");
    assert_eq!(cands, vec!["/a/b/c".to_string(), "/a/b".to_string(), "/a".to_string(), "/".to_string()]);
    assert_eq!(find_project_root("/a/b/c/tokens.yaml", false, &[false, true, false, false]), Some("/a/b".to_string()));
    assert_eq!(find_project_root("/a/b/c/tokens.yaml", false, &[false, false, false, false]), None);
}

#[test]
fn discover_artifact_prefers_the_same_directory() {
    let names: Vec<String> = vec![];
    assert_eq!(
        discover_artifact("/p/design-system/assets.yaml", ValidateMode::Composition, true, None, &names, &[]),
        Some("/p/design-system/composition.yaml".to_string())
    );
    let cands = sibling_path_candidates(ValidateMode::Composition, "/p", &names);
    assert_eq!(cands, vec!["/p/.specify/specs/composition.yaml".to_string()]);
    assert_eq!(
        discover_artifact("/p/design-system/assets.yaml", ValidateMode::Composition, false, Some("/p"), &names, &[true]),
        Some("/p/.specify/specs/composition.yaml".to_string())
    );
    assert_eq!(
        discover_artifact("/p/design-system/assets.yaml", ValidateMode::All, true, Some("/p"), &names, &[]),
        None
    );
}

fn obj(members: Vec<(&str, vectis::json::Json)>) -> vectis::json::Json {
    vectis::json::Json::Object(members.into_iter().map(|(k, v)| (k.to_string(), v)).collect())
}

fn text(s: &str) -> vectis::json::Json {
    vectis::json::Json::Str(s.to_string())
}

#[test]
fn paths_for_key_prefers_on_disk_block_over_embedded_default() {
    let embedded = paths_for_key_in(None, "tokens");
    assert_eq!(
        embedded,
        vec![".specify/slices/<name>/tokens.yaml".to_string(), "design-system/tokens.yaml".to_string()]
    );
    let custom = obj(vec![(
        "tokens",
        obj(vec![(
            "paths",
            obj(vec![
                ("change_local", text(".specify/slices/<name>/tokens.yaml")),
                ("project", text("custom/path/tokens.yaml")),
            ]),
        )]),
    )]);
    let resolved = paths_for_key_in(Some(&custom), "tokens");
    assert_eq!(
        resolved,
        vec![".specify/slices/<name>/tokens.yaml".to_string(), "custom/path/tokens.yaml".to_string()]
    );
    assert!(paths_for_key_in(None, "components").is_empty());
}

#[test]
fn artifacts_block_comes_from_the_first_schema_that_has_one() {
    let project = obj(vec![("name", text("demo")), ("schema", text("https://example.com/schemas/vectis@1"))]);
    let candidates = schema_paths("/r", Some(&project)).expect("a schema is named");
    assert_eq!(
        candidates,
        vec!["/r/.specify/.cache/vectis/schema.yaml".to_string(), "/r/schemas/vectis/schema.yaml".to_string()]
    );
    assert!(schema_paths("/r", Some(&obj(vec![("name", text("demo"))]))).is_none());
    let cached = obj(vec![("artifacts", obj(vec![("layout", obj(vec![]))]))]);
    let local = obj(vec![("artifacts", obj(vec![("tokens", obj(vec![]))]))]);
    let block = artifacts_block(vec![None, Some(obj(vec![("name", text("x"))])), Some(cached), Some(local)])
        .expect("an artifacts block");
    assert!(block.get("layout").is_some());
    assert!(block.get("tokens").is_none());
    assert!(artifacts_block(vec![None, None]).is_none());
}

#[test]
fn expand_path_template_handles_name_substitution() {
    let names = vec!["zeta".to_string(), "alpha".to_string()];
    let with_name = expand_path_template(".specify/slices/<name>/layout.yaml", "/p", &names);
    assert_eq!(with_name.len(), 2);
    assert!(with_name[0].ends_with(".specify/slices/alpha/layout.yaml"));
    assert!(with_name[1].ends_with(".specify/slices/zeta/layout.yaml"));

    let without_name = expand_path_template("design-system/layout.yaml", "/p", &names);
    assert_eq!(without_name.len(), 1);
    assert!(without_name[0].ends_with("design-system/layout.yaml"));

    let no_changes = expand_path_template(".specify/slices/<name>/x.yaml", "/q", &vec![]);
    assert!(no_changes.is_empty());
}

#[test]
fn resolve_default_path_prefers_change_local_over_project() {
    let names = vec!["active".to_string()];
    let cands = default_path_candidates(ValidateMode::Layout, "/p", &names);
    let is_file: Vec<bool> = cands
        .iter()
        .map(|c| c == "/p/.specify/slices/active/layout.yaml" || c == "/p/design-system/layout.yaml")
        .collect();
    let resolved = resolve_default_path_with_root(ValidateMode::Layout, "/p", &names, &is_file);
    assert!(resolved.ends_with(".specify/slices/active/layout.yaml"), "got: {resolved}");
}

#[test]
fn resolve_default_path_falls_back_to_project_when_change_local_missing() {
    let names: Vec<String> = vec![];
    let cands = default_path_candidates(ValidateMode::Tokens, "/p", &names);
    let is_file: Vec<bool> = cands.iter().map(|c| c == "/p/design-system/tokens.yaml").collect();
    let resolved = resolve_default_path_with_root(ValidateMode::Tokens, "/p", &names, &is_file);
    assert!(resolved.ends_with("design-system/tokens.yaml"), "got: {resolved}");
}

#[test]
fn resolve_default_path_returns_last_candidate_when_nothing_exists() {
    let names: Vec<String> = vec![];
    let n = default_path_candidates(ValidateMode::Layout, "/p", &names).len();
    let layout = resolve_default_path_with_root(ValidateMode::Layout, "/p", &names, &vec![false; n]);
    assert!(layout.ends_with("design-system/layout.yaml"), "got: {layout}");
    let n = default_path_candidates(ValidateMode::Composition, "/p", &names).len();
    let composition =
        resolve_default_path_with_root(ValidateMode::Composition, "/p", &names, &vec![false; n]);
    assert!(composition.ends_with(".specify/specs/composition.yaml"), "got: {composition}");
}

#[test]
fn find_project_root_walks_up_to_specify_dir() {
    let cands = project_root_candidates("/t", true).expect("candidates");
    let has: Vec<bool> = cands.iter().map(|c| c == "/t").collect();
    assert_eq!(find_project_root("/t", true, &has), Some("/t".to_string()));
    let cands = project_root_candidates("/t/a/b/c", true).expect("candidates");
    let has: Vec<bool> = cands.iter().map(|c| c == "/t").collect();
    assert_eq!(find_project_root("/t/a/b/c", true, &has), Some("/t".to_string()));
    let cands = project_root_candidates("/t/a/b/c/file.yaml", false).expect("candidates");
    let has: Vec<bool> = cands.iter().map(|c| c == "/t").collect();
    assert_eq!(find_project_root("/t/a/b/c/file.yaml", false, &has), Some("/t".to_string()));
    let cands = project_root_candidates("/bare", true).expect("candidates");
    assert_eq!(find_project_root("/bare", true, &vec![false; cands.len()]), None);
}

#[test]
fn discover_artifact_returns_some_only_for_existing_files() {
    let names: Vec<String> = vec![];
    let start = "/t/design-system/assets.yaml";
    let comp = sibling_path_candidates(ValidateMode::Composition, "/t", &names);
    let comp_files: Vec<bool> = comp.iter().map(|c| c == "/t/.specify/specs/composition.yaml").collect();
    let found = discover_artifact(start, ValidateMode::Composition, false, Some("/t"), &names, &comp_files);
    assert!(found.as_deref().is_some_and(|p| p.ends_with(".specify/specs/composition.yaml")), "{found:?}");

    let tok = sibling_path_candidates(ValidateMode::Tokens, "/t", &names);
    let missing = discover_artifact(start, ValidateMode::Tokens, false, Some("/t"), &names, &vec![false; tok.len()]);
    assert!(missing.is_none(), "{missing:?}");

    assert!(discover_artifact("/bare", ValidateMode::Composition, false, None, &names, &[]).is_none());
}
