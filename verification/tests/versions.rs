use vectis::error::VectisError;
use vectis::versions::{load_required, resolve_source, PinFile, VersionSource, Versions};

/// What a path holds in the scenarios: pins with the given `crux_core`,
/// text that does not parse, or a directory.
enum Entry<'a> {
    Pins(&'a str),
    Malformed,
    Directory,
}

fn pins(crux_core: &str) -> Versions {
    let mut v = Versions::embedded().expect("embedded defaults must parse");
    v.crux.crux_core = crux_core.to_string();
    v
}

/// Resolve the pins the way the command does, against the given files.
fn resolve_with(
    project: &str,
    override_path: Option<&str>,
    home: Option<&str>,
    files: &[(&str, Entry)],
) -> Result<Versions, VectisError> {
    let is_file = |p: &str| files.iter().any(|(q, e)| *q == p && !matches!(e, Entry::Directory));
    let project_file = vectis::versions::project_version_file(project);
    let user_file = home.map(vectis::versions::user_version_file);
    let source = resolve_source(
        override_path,
        project,
        is_file(&project_file),
        home,
        user_file.as_deref().is_some_and(|u| is_file(u)),
    );
    match source {
        VersionSource::Embedded => Versions::embedded(),
        VersionSource::File(path) => {
            let f = match files.iter().find(|(q, _)| *q == path) {
                None => PinFile::Missing,
                Some((_, Entry::Pins(core))) => PinFile::Parsed(Ok(pins(core))),
                Some((_, Entry::Malformed)) => PinFile::Parsed(Err("expected newline, found an equals".to_string())),
                Some((_, Entry::Directory)) => PinFile::Unreadable("Is a directory (os error 21)".to_string()),
            };
            load_required(&path, f)
        }
    }
}

#[test]
fn embedded_layer_used_when_no_files_or_overrides() {
    let v = resolve_with("/project", None, Some("/home/u"), &[]).expect("embedded must resolve");
    assert_eq!(v, Versions::embedded().unwrap());
}

#[test]
fn override_layer_takes_precedence_over_everything() {
    let files = [("/project/versions.toml", Entry::Pins("9.9.9")), ("/elsewhere/pins.toml", Entry::Pins("1.2.3"))];
    let v = resolve_with("/project", Some("/elsewhere/pins.toml"), Some("/home/u"), &files).unwrap();
    assert_eq!(v.crux.crux_core, "1.2.3");
}

#[test]
fn project_layer_takes_precedence_over_user_and_embedded() {
    let files = [
        ("/project/versions.toml", Entry::Pins("4.5.6")),
        ("/home/u/.config/vectis/versions.toml", Entry::Pins("8.8.8")),
    ];
    let v = resolve_with("/project", None, Some("/home/u"), &files).unwrap();
    assert_eq!(v.crux.crux_core, "4.5.6");
}

#[test]
fn user_layer_takes_precedence_over_embedded() {
    let files = [("/home/u/.config/vectis/versions.toml", Entry::Pins("7.7.7"))];
    let v = resolve_with("/project", None, Some("/home/u"), &files).unwrap();
    assert_eq!(v.crux.crux_core, "7.7.7");
}

#[test]
fn missing_override_returns_invalid_project_error() {
    let bogus = "/this/path/should/never/exist/versions.toml";
    let err = resolve_with("/project", Some(bogus), Some("/home/u"), &[])
        .expect_err("nonexistent override must error");
    match err {
        VectisError::InvalidProject { message } => {
            assert!(message.contains("version file not found"), "unexpected message: {message}");
            assert!(message.contains(bogus), "message must include the missing path: {message}");
        }
        other => panic!("expected InvalidProject, got: {other:?}"),
    }
}

#[test]
fn malformed_override_returns_invalid_project_error_with_path() {
    let bad = "/tmp/override/bad.toml";
    let err = resolve_with("/project", Some(bad), Some("/home/u"), &[(bad, Entry::Malformed)])
        .expect_err("malformed override must error");
    match err {
        VectisError::InvalidProject { message } => {
            assert!(message.contains("failed to parse"), "unexpected message: {message}");
            assert!(message.contains(bad), "message must include the path: {message}");
        }
        other => panic!("expected InvalidProject, got: {other:?}"),
    }
}

#[test]
fn directory_passed_as_override_returns_invalid_project_error() {
    let dir = "/tmp/override-dir";
    let err = resolve_with("/project", Some(dir), Some("/home/u"), &[(dir, Entry::Directory)])
        .expect_err("directory override must error");
    match err {
        VectisError::Io(_) | VectisError::InvalidProject { .. } => {}
        other => panic!("expected Io or InvalidProject, got: {other:?}"),
    }
}

#[test]
fn no_home_falls_through_to_embedded() {
    let files = [("/home/u/.config/vectis/versions.toml", Entry::Pins("7.7.7"))];
    let v = resolve_with("/project", None, None, &files).unwrap();
    assert_eq!(v, Versions::embedded().unwrap());
}

#[test]
fn pin_file_paths_join_under_project_and_home() {
    assert_eq!(vectis::versions::project_version_file("/p"), "/p/versions.toml");
    assert_eq!(vectis::versions::user_version_file("/h"), "/h/.config/vectis/versions.toml");
}
