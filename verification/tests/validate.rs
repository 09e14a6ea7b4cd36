use vectis::engine::report::{Loaded, ModeInput, ValidateMode};
use vectis::error::VectisError;
use vectis::validate::{run, CommandOutcome};

fn unreadable() -> Loaded {
    Loaded::Unreadable("No such file or directory (os error 2)".to_string())
}

#[test]
fn validate_missing_file_returns_invalid_project_error() {
    let input = ModeInput::Tokens { loaded: unreadable(), schema: vec![] };
    match run(ValidateMode::Tokens, Some(("/definitely/not/here/tokens.yaml".to_string(), input))) {
        Err(VectisError::InvalidProject { message }) => {
            assert!(message.contains("tokens.yaml not readable"), "unexpected message: {message}");
        }
        other => panic!("expected InvalidProject for missing file, got {other:?}"),
    }
}

#[test]
fn stub_modes_still_return_stub() {
    for (mode, expected) in [
        (ValidateMode::Composition, "validate composition"),
        (ValidateMode::All, "validate all"),
    ] {
        let outcome = run(mode, None).expect("stub never errors");
        match outcome {
            CommandOutcome::Stub { command } => assert_eq!(command, expected),
            CommandOutcome::Success(report) => panic!("expected Stub for {mode:?}, got Success({report:?})"),
        }
    }
}

#[test]
fn validate_validate_mode_as_str_matches_value_enum_spelling() {
    for (mode, expected) in [
        (ValidateMode::Layout, "layout"),
        (ValidateMode::Composition, "composition"),
        (ValidateMode::Tokens, "tokens"),
        (ValidateMode::Assets, "assets"),
        (ValidateMode::All, "all"),
    ] {
        assert_eq!(mode.as_str(), expected);
    }
}

#[test]
fn validate_assets_missing_file_returns_invalid_project_error() {
    let input = ModeInput::Assets { loaded: unreadable(), schema: vec![], present: vec![], composition: None };
    match run(ValidateMode::Assets, Some(("/definitely/not/here/assets.yaml".to_string(), input))) {
        Err(VectisError::InvalidProject { message }) => {
            assert!(message.contains("assets.yaml not readable"), "unexpected message: {message}");
        }
        other => panic!("expected InvalidProject for missing file, got {other:?}"),
    }
}

#[test]
fn validate_layout_missing_file_returns_invalid_project_error() {
    let input = ModeInput::Layout { loaded: unreadable(), schema: vec![] };
    match run(ValidateMode::Layout, Some(("/definitely/not/here/layout.yaml".to_string(), input))) {
        Err(VectisError::InvalidProject { message }) => {
            assert!(message.contains("layout.yaml not readable"), "unexpected message: {message}");
        }
        other => panic!("expected InvalidProject for missing file, got {other:?}"),
    }
}
