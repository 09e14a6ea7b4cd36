use vectis::error::{MissingTool, VectisError};
use vectis::json::Json;

fn text_at<'a>(v: &'a Json, key: &str) -> &'a str {
    match v.get(key) {
        Some(Json::Str(s)) => s.as_str(),
        other => panic!("{key} is not a string: {other:?}"),
    }
}

#[test]
fn missing_prerequisites_json_shape() {
    let err = VectisError::MissingPrerequisites {
        missing: vec![MissingTool {
            tool: "xcodegen".into(),
            assembly: "ios".into(),
            check: "xcodegen --version".into(),
            install: "brew install xcodegen".into(),
        }],
        message: "Install the missing tools above and re-run the command.".into(),
    };
    let v = err.to_json();
    assert_eq!(text_at(&v, "error"), "missing-prerequisites");
    let first = match v.get("missing") {
        Some(Json::Array(items)) => &items[0],
        other => panic!("missing is not an array: {other:?}"),
    };
    assert_eq!(text_at(first, "tool"), "xcodegen");
    assert_eq!(err.exit_code(), 2);
}

#[test]
fn invalid_project_json_shape() {
    let err = VectisError::InvalidProject {
        message: "version file not found: /nonexistent.toml".into(),
    };
    let v = err.to_json();
    assert_eq!(text_at(&v, "error"), "invalid-project");
    assert_eq!(text_at(&v, "message"), "version file not found: /nonexistent.toml");
    assert_eq!(err.exit_code(), 1);
}
