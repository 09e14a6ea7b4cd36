//! Validation scenarios run through the engine on in-memory artifacts.
//!
//! Each artifact is parsed from its YAML text; the files an asset
//! manifest names are present exactly when they are listed for the
//! project; a sibling composition, tokens or assets document is the one
//! the case places beside the artifact. The schema stage contributes no
//! findings here: these cases exercise the engine's own rules on
//! documents that the schemas accept.

use std::cell::RefCell;
use std::rc::Rc;

use serde_json::Value;
use vectis::engine::assets::manifest_file_refs;
use vectis::engine::report::{all_sub_report, load_artifact, report_json, Loaded, ModeInput, Report, ValidateMode};
use vectis::error::VectisError;
use vectis::json::Json;

fn to_value(j: &Json) -> Value {
    match j {
        Json::Null => Value::Null,
        Json::Bool(b) => Value::Bool(*b),
        Json::Number(n) => serde_json::from_str::<Value>(n).unwrap_or_else(|_| Value::String(n.clone())),
        Json::Str(s) => Value::String(s.clone()),
        Json::Array(items) => Value::Array(items.iter().map(to_value).collect()),
        Json::Object(members) => {
            let mut map = serde_json::Map::new();
            for (k, v) in members {
                map.insert(k.clone(), to_value(v));
            }
            Value::Object(map)
        }
    }
}

fn load(text: &str) -> Loaded {
    load_artifact(Ok(text.to_string()))
}

fn parsed(text: &str) -> Option<Json> {
    match load(text) {
        Loaded::Parsed(doc) => Some(doc),
        _ => None,
    }
}

const PROJECT: &str = "/project";

/// An artifact handed to a run.
#[derive(Clone)]
enum Input {
    Doc(String),
    Assets { yaml: String, files: Vec<String>, composition: Rc<RefCell<Option<String>>> },
    Composition { yaml: String, tokens: Option<String>, assets: Option<String> },
}

struct TempFile(Input);

impl TempFile {
    fn path(&self) -> &Self {
        self
    }

    fn to_path_buf(&self) -> Input {
        self.0.clone()
    }
}

fn write_tokens(content: &str) -> TempFile {
    TempFile(Input::Doc(content.to_string()))
}

/// A project holding an asset manifest under `design-system/`.
struct Project {
    composition: Rc<RefCell<Option<String>>>,
}

impl Project {
    fn path(&self) -> &Self {
        self
    }
}

fn write_assets_project(yaml: &str, files: &[&str]) -> (Project, Input) {
    let composition = Rc::new(RefCell::new(None));
    let input = Input::Assets {
        yaml: yaml.to_string(),
        files: files.iter().map(|f| (*f).to_string()).collect(),
        composition: Rc::clone(&composition),
    };
    (Project { composition }, input)
}

/// Place the baseline composition of the project.
fn write_specs_composition(project: &Project, yaml: &str) {
    *project.composition.borrow_mut() = Some(yaml.to_string());
}

fn write_composition_project(composition: &str, tokens: Option<&str>, assets: Option<&str>) -> ((), Input) {
    (
        (),
        Input::Composition {
            yaml: composition.to_string(),
            tokens: tokens.map(str::to_string),
            assets: assets.map(str::to_string),
        },
    )
}

/// The inputs of an asset-manifest run: every named file present when
/// listed, and the composition beside it.
fn assets_input(yaml: &str, files: &[String], composition: Option<(String, Json)>) -> ModeInput {
    let loaded = load(yaml);
    let present = match &loaded {
        Loaded::Parsed(doc) => manifest_file_refs(doc).iter().map(|r| files.contains(&r.file)).collect(),
        _ => Vec::new(),
    };
    ModeInput::Assets { loaded, schema: Vec::new(), present, composition }
}

fn mode_input(mode: ValidateMode, input: &Input) -> (String, ModeInput) {
    match input {
        Input::Doc(text) => {
            let loaded = load(text);
            let target = format!("{PROJECT}/{}", mode.file_name());
            match mode {
                ValidateMode::Tokens => (target, ModeInput::Tokens { loaded, schema: Vec::new() }),
                _ => (target, ModeInput::Layout { loaded, schema: Vec::new() }),
            }
        }
        Input::Assets { yaml, files, composition } => {
            let comp_path = format!("{PROJECT}/.specify/specs/composition.yaml");
            let comp = composition.borrow().as_deref().and_then(parsed).map(|doc| (comp_path, doc));
            (format!("{PROJECT}/design-system/assets.yaml"), assets_input(yaml, files, comp))
        }
        Input::Composition { yaml, tokens, assets } => {
            let comp_path = format!("{PROJECT}/composition.yaml");
            let loaded = load(yaml);
            let is_parsed = matches!(loaded, Loaded::Parsed(_));
            let tokens_sibling = tokens.as_deref().filter(|_| is_parsed).map(|t| {
                let report = run_engine(
                    &format!("{PROJECT}/tokens.yaml"),
                    ModeInput::Tokens { loaded: load(t), schema: Vec::new() },
                );
                (report, parsed(t))
            });
            let assets_sibling = assets.as_deref().filter(|_| is_parsed).map(|a| {
                let comp = parsed(yaml).map(|doc| (comp_path.clone(), doc));
                let report = run_engine(&format!("{PROJECT}/assets.yaml"), assets_input(a, &[], comp));
                (report, parsed(a))
            });
            (
                comp_path.clone(),
                ModeInput::Composition { loaded, schema: Vec::new(), tokens: tokens_sibling, assets: assets_sibling },
            )
        }
    }
}

fn run_engine(target: &str, input: ModeInput) -> Result<Report, VectisError> {
    vectis::engine::report::run(target, input)
}

struct Args {
    mode: ValidateMode,
    path: Option<Input>,
}

type ValidateArgs = Args;

enum Outcome {
    Success(Value),
}

/// Run the engine on an artifact.
fn run(args: &Args) -> Result<Outcome, VectisError> {
    let input = args.path.as_ref().expect("an artifact");
    let (target, mode_input) = mode_input(args.mode, input);
    run_engine(&target, mode_input).map(|r| Outcome::Success(to_value(&report_json(&r))))
}


fn extract_envelope(outcome: Outcome) -> Value {
    match outcome {
        Outcome::Success(value) => value,
    }
}

fn errors_array(envelope: &Value) -> &[Value] {
    envelope.get("errors").and_then(Value::as_array).expect("errors array").as_slice()
}

fn warnings_array(envelope: &Value) -> &[Value] {
    envelope.get("warnings").and_then(Value::as_array).expect("warnings array").as_slice()
}

fn run_layout(content: &str) -> Value {
    let args = Args { mode: ValidateMode::Layout, path: Some(Input::Doc(content.to_string())) };
    extract_envelope(run(&args).expect("run succeeds"))
}

fn run_composition(input: &Input) -> Value {
    let args = Args { mode: ValidateMode::Composition, path: Some(input.clone()) };
    extract_envelope(run(&args).expect("run succeeds"))
}

const SAMPLE_TOKENS_YAML: &str = r##"version: 1

provenance:
  sources:
    - kind: figma-variables
      uri: "https://www.figma.com/file/ABC123/Design-System"
      captured_at: "2026-04-10T09:15:00Z"
    - kind: manual

colors:
  primary:
    light: "#0066CC"
    dark: "#3399FF"
  on-primary:
    light: "#FFFFFF"
    dark: "#001F3F"
  surface:
    light: "#FFFFFF"
    dark: "#121212"
  on-surface:
    light: "#1C1B1F"
    dark: "#E6E1E5"
  on-surface-variant:
    light: "#49454F"
    dark: "#CAC4D0"
  outline:
    light: "#79747E"
    dark: "#938F99"
  error:
    light: "#B3261E"
    dark: "#F2B8B5"

typography:
  caption:
    size: 12
    weight: regular
    lineHeight: 16
  body:
    size: 16
    weight: regular
    lineHeight: 24
  title:
    size: 22
    weight: semibold
    lineHeight: 28
  display:
    size: 32
    weight: bold
    lineHeight: 40
    letterSpacing: -0.5

spacing:
  xs: 4
  sm: 8
  md: 16
  lg: 24
  xl: 32

cornerRadius:
  sm: 4
  md: 8
  lg: 16

elevation:
  card: 2
  modal: 8

border:
  subtle:
    width: 1
    color: outline
  emphasis:
    width: 2
    color: primary
    radius: 8

opacity:
  disabled: 0.38
  scrim: 0.4
"##;
const SAMPLE_ASSETS_YAML: &str = r#"version: 1

provenance:
  sources:
    - kind: manual

assets:
  empty-tasks-hero:
    kind: raster
    role: illustration
    alt: "Empty clipboard with a relaxed character beside it"
    sources:
      ios:
        1x: assets/empty-tasks-hero.png
        2x: assets/empty-tasks-hero@2x.png
        3x: assets/empty-tasks-hero@3x.png
      android:
        mdpi: assets/android/empty-tasks-hero-mdpi.png
        hdpi: assets/android/empty-tasks-hero-hdpi.png
        xhdpi: assets/android/empty-tasks-hero-xhdpi.png
        xxhdpi: assets/android/empty-tasks-hero-xxhdpi.png

  brand-logo:
    kind: vector
    role: illustration
    alt: "Acme logo"
    source: assets/brand-logo.svg
    sources:
      ios: assets/ios/brand-logo.pdf
      android: assets/android/brand-logo.xml

  settings:
    kind: symbol
    role: icon
    symbols:
      ios: gearshape
      android: settings
    tint: on-surface

  chevron-left:
    kind: symbol
    role: icon
    symbols:
      ios: chevron.left
      android: arrow_back
    tint: on-surface

  chevron-right:
    kind: symbol
    role: icon
    symbols:
      ios: chevron.right
      android: chevron_right
    tint: on-surface-variant

  plus:
    kind: symbol
    role: icon
    symbols:
      ios: plus
      android: add
    tint: on-primary
"#;
/// The files the sample assets name, all present.
const SAMPLE_ASSET_FILES: &[&str] = &[
    "assets/empty-tasks-hero.png",
    "assets/empty-tasks-hero@2x.png",
    "assets/empty-tasks-hero@3x.png",
    "assets/android/empty-tasks-hero-mdpi.png",
    "assets/android/empty-tasks-hero-hdpi.png",
    "assets/android/empty-tasks-hero-xhdpi.png",
    "assets/android/empty-tasks-hero-xxhdpi.png",
    "assets/brand-logo.svg",
    "assets/ios/brand-logo.pdf",
    "assets/android/brand-logo.xml",
];
const SAMPLE_LAYOUT_YAML: &str = r#"version: 1

provenance:
  sources:
    - kind: screenshots
      captured_at: "2026-04-12T10:30:00Z"
    - kind: manual

screens:
  task-list:
    name: Task list
    description: Primary screen showing all open tasks for the signed-in user.
    header:
      title: My tasks
      trailing:
        - icon-button:
            icon: settings
            label: Open settings
    body:
      list:
        each: tasks
        style: plain
        item:
          - group:
              component: task-row
              direction: row
              gap: md
              padding: md
              align: center
              items:
                - checkbox:
                    label: Mark task complete
                - group:
                    direction: column
                    gap: xs
                    size:
                      width: fill
                    items:
                      - text:
                          role: heading
                          style: body
                      - text:
                          style: caption
                          color: on-surface-variant
                - icon:
                    name: chevron-right
                    color: on-surface-variant
    fab:
      icon: plus
      label: Add task
    states:
      empty:
        when: tasks.is_empty
        replaces: body
        body:
          - group:
              direction: column
              gap: md
              padding: lg
              align: center
              justify: center
              items:
                - image:
                    name: empty-tasks-hero
                - text:
                    content: No tasks yet
                    style: title
                - text:
                    content: Tap the + button to add your first task.
                    style: body
                    color: on-surface-variant
      loading:
        when: tasks.is_loading
        replaces: body
        body:
          - progress-indicator:
              style: circular
    overlays:
      delete-confirm:
        kind: dialog
        title: Delete task?
        content:
          - text:
              content: This cannot be undone.
          - group:
              direction: row
              gap: sm
              justify: end
              items:
                - button:
                    label: Cancel
                    style: text
                - button:
                    label: Delete
                    style: text
                    color: error

  settings:
    name: Settings
    header:
      title: Settings
      leading:
        - icon-button:
            icon: chevron-left
            label: Back
    body:
      form:
        - group:
            direction: column
            gap: lg
            padding: md
            items:
              - text:
                  content: Appearance
                  role: heading
                  style: title
              - segmented-control:
                  options:
                    - System
                    - Light
                    - Dark
              - text:
                  content: Account
                  role: heading
                  style: title
              - button:
                  label: Sign out
                  style: outlined
                  color: error
    platforms:
      ios:
        header:
          title: Settings
      android:
        header:
          title: Settings
"#;
#[test]
fn engine_appendix_d_validates_cleanly() {
        let file = write_tokens(SAMPLE_TOKENS_YAML);
        let args = ValidateArgs {
            mode: ValidateMode::Tokens,
            path: Some(file.path().to_path_buf()),
        };
        let envelope = extract_envelope(run(&args).expect("run succeeds"));
        assert_eq!(envelope["mode"], "tokens");
        assert!(errors_array(&envelope).is_empty(), "the sample tokens unexpectedly errored: {envelope}");
        assert!(warnings_array(&envelope).is_empty(), "no warnings expected: {envelope}");
    }

#[test]
fn engine_minimal_version_only_document_is_valid() {
        let file = write_tokens("version: 1\n");
        let args = ValidateArgs {
            mode: ValidateMode::Tokens,
            path: Some(file.path().to_path_buf()),
        };
        let envelope = extract_envelope(run(&args).expect("run succeeds"));
        assert!(errors_array(&envelope).is_empty(), "{envelope}");
    }

#[test]
fn engine_invalid_yaml_surfaces_as_a_single_error_entry() {
        let file = write_tokens(": : not valid yaml :::\n");
        let args = ValidateArgs {
            mode: ValidateMode::Tokens,
            path: Some(file.path().to_path_buf()),
        };
        let envelope = extract_envelope(run(&args).expect("run succeeds"));
        let errors = errors_array(&envelope);
        assert_eq!(errors.len(), 1, "expected one YAML-parse error: {envelope}");
        assert!(
            errors[0]["message"].as_str().unwrap_or("").contains("invalid YAML"),
            "expected `invalid YAML` prefix, got {:?}",
            errors[0]
        );
    }

#[test]
fn engine_assets_appendix_e_paired_with_composition_validates_cleanly() {
        let (tmp, assets_path) = write_assets_project(SAMPLE_ASSETS_YAML, SAMPLE_ASSET_FILES);
        write_specs_composition(
            tmp.path(),
            // A trimmed composition that references the same asset
            // ids as the sample layout (icon-button, fab, image, icon
            // items). We do not depend on the sample layout verbatim
            // because its "layout" shape has no `delta` / `screens`
            // root in the wired-form sense; this fixture is wiring-
            // free but already valid as a composition document for
            // reference-resolution purposes.
            r"version: 1
screens:
  task-list:
    name: Task list
    header:
      title: My tasks
      trailing:
        - icon-button:
            icon: settings
            label: Open settings
    body:
      list:
        each: tasks
        item:
          - group:
              direction: row
              items:
                - icon:
                    name: chevron-right
    fab:
      icon: plus
      label: Add task
    states:
      empty:
        when: tasks.is_empty
        replaces: body
        body:
          - group:
              direction: column
              items:
                - image:
                    name: empty-tasks-hero
  settings:
    name: Settings
    header:
      title: Settings
      leading:
        - icon-button:
            icon: chevron-left
            label: Back
    body:
      form: []
",
        );

        let args = ValidateArgs {
            mode: ValidateMode::Assets,
            path: Some(assets_path),
        };
        let envelope = extract_envelope(run(&args).expect("run succeeds"));
        assert_eq!(envelope["mode"], "assets");
        let errors = errors_array(&envelope);
        assert!(
            errors.is_empty(),
            "the sample assets + composition pairing unexpectedly errored: {errors:?}"
        );
        // `xxxhdpi` is omitted on the android side of empty-tasks-hero,
        // so a warning is the expected shape -- not a failure.
        let warnings = warnings_array(&envelope);
        assert!(
            warnings.iter().any(|w| w["message"]
                .as_str()
                .unwrap_or("")
                .contains("missing optional `xxxhdpi`")),
            "expected at least one missing-density warning for xxxhdpi: {warnings:?}"
        );
    }

#[test]
fn engine_assets_missing_raster_file_is_a_pathful_error() {
        // The same sample assets manifest, but skip the 1x file when
        // materialising the fixture tree.
        let mut files = SAMPLE_ASSET_FILES.to_vec();
        files.retain(|p| *p != "assets/empty-tasks-hero.png");
        let (_tmp, assets_path) = write_assets_project(SAMPLE_ASSETS_YAML, &files);

        let args = ValidateArgs {
            mode: ValidateMode::Assets,
            path: Some(assets_path),
        };
        let envelope = extract_envelope(run(&args).expect("run succeeds"));
        let errors = errors_array(&envelope);
        let any_hits = errors.iter().any(|e| {
            e["path"].as_str().unwrap_or("") == "/assets/empty-tasks-hero/sources/ios/1x"
                && e["message"].as_str().unwrap_or("").contains("file not found")
        });
        assert!(any_hits, "expected a file-not-found error for 1x: {errors:?}");
    }

#[test]
fn engine_assets_missing_optional_density_is_a_warning() {
        let yaml = r"version: 1
assets:
  empty-tasks-hero:
    kind: raster
    role: illustration
    sources:
      ios:
        2x: assets/empty-tasks-hero@2x.png
        3x: assets/empty-tasks-hero@3x.png
      android:
        mdpi: assets/android/empty-tasks-hero-mdpi.png
        hdpi: assets/android/empty-tasks-hero-hdpi.png
        xhdpi: assets/android/empty-tasks-hero-xhdpi.png
        xxhdpi: assets/android/empty-tasks-hero-xxhdpi.png
        xxxhdpi: assets/android/empty-tasks-hero-xxxhdpi.png
";
        let files = [
            "assets/empty-tasks-hero@2x.png",
            "assets/empty-tasks-hero@3x.png",
            "assets/android/empty-tasks-hero-mdpi.png",
            "assets/android/empty-tasks-hero-hdpi.png",
            "assets/android/empty-tasks-hero-xhdpi.png",
            "assets/android/empty-tasks-hero-xxhdpi.png",
            "assets/android/empty-tasks-hero-xxxhdpi.png",
        ];
        let (tmp, assets_path) = write_assets_project(yaml, &files);
        write_specs_composition(
            tmp.path(),
            r"version: 1
screens:
  s:
    name: S
    body:
      list:
        item:
          - image:
              name: empty-tasks-hero
",
        );

        let args = ValidateArgs {
            mode: ValidateMode::Assets,
            path: Some(assets_path),
        };
        let envelope = extract_envelope(run(&args).expect("run succeeds"));
        assert!(errors_array(&envelope).is_empty(), "errors unexpected: {envelope}");
        let warnings = warnings_array(&envelope);
        assert!(
            warnings
                .iter()
                .any(|w| w["message"].as_str().unwrap_or("").contains("missing optional `1x`")),
            "expected a missing-1x warning, got: {warnings:?}"
        );
    }

#[test]
fn engine_assets_unresolved_composition_reference_is_an_error() {
        let (tmp, assets_path) = write_assets_project(SAMPLE_ASSETS_YAML, SAMPLE_ASSET_FILES);
        write_specs_composition(
            tmp.path(),
            // `mystery-glyph` is not in the sample assets.
            r"version: 1
screens:
  s:
    name: S
    header:
      title: T
      trailing:
        - icon-button:
            icon: mystery-glyph
            label: Mystery
    body:
      list:
        item: []
",
        );

        let args = ValidateArgs {
            mode: ValidateMode::Assets,
            path: Some(assets_path),
        };
        let envelope = extract_envelope(run(&args).expect("run succeeds"));
        let errors = errors_array(&envelope);
        assert!(
            errors.iter().any(|e| e["message"]
                .as_str()
                .unwrap_or("")
                .contains("references unknown asset id `mystery-glyph`")),
            "expected unresolved-reference error, got: {errors:?}"
        );
    }

#[test]
fn engine_assets_vector_missing_platform_export_is_an_error() {
        let yaml = r"version: 1
assets:
  brand-logo:
    kind: vector
    role: illustration
    source: assets/brand-logo.svg
    sources:
      ios: assets/ios/brand-logo.pdf
";
        let files = ["assets/brand-logo.svg", "assets/ios/brand-logo.pdf"];
        let (tmp, assets_path) = write_assets_project(yaml, &files);
        write_specs_composition(
            tmp.path(),
            r"version: 1
screens:
  s:
    name: S
    body:
      list:
        item:
          - image:
              name: brand-logo
",
        );

        let args = ValidateArgs {
            mode: ValidateMode::Assets,
            path: Some(assets_path),
        };
        let envelope = extract_envelope(run(&args).expect("run succeeds"));
        let errors = errors_array(&envelope);
        assert!(
            errors.iter().any(|e| {
                e["path"].as_str().unwrap_or("") == "/assets/brand-logo/sources/android"
                    && e["message"].as_str().unwrap_or("").contains("vector asset `brand-logo`")
            }),
            "expected android-coverage error, got: {errors:?}"
        );
    }

#[test]
fn engine_assets_without_sibling_composition_only_runs_schema_and_files() {
        let yaml = r"version: 1
assets:
  empty-tasks-hero:
    kind: raster
    role: illustration
    sources:
      ios:
        2x: assets/empty-tasks-hero@2x.png
";
        let (_tmp, assets_path) = write_assets_project(yaml, &["assets/empty-tasks-hero@2x.png"]);

        let args = ValidateArgs {
            mode: ValidateMode::Assets,
            path: Some(assets_path),
        };
        let envelope = extract_envelope(run(&args).expect("run succeeds"));
        assert!(errors_array(&envelope).is_empty(), "no errors expected: {envelope}");
        assert!(
            warnings_array(&envelope).is_empty(),
            "no warnings expected without composition: {envelope}"
        );
    }

#[test]
fn engine_layout_appendix_c_validates_cleanly() {
        let envelope = run_layout(SAMPLE_LAYOUT_YAML);
        assert_eq!(envelope["mode"], "layout");
        assert!(errors_array(&envelope).is_empty(), "the sample layout unexpectedly errored: {envelope}");
        assert!(
            warnings_array(&envelope).is_empty(),
            "no warnings expected for the sample layout: {envelope}"
        );
    }

#[test]
fn engine_layout_bind_key_is_rejected_with_pathful_error() {
        let yaml = r"version: 1
screens:
  s:
    name: S
    body:
      list:
        each: tasks
        item:
          - checkbox:
              bind: tasks.completed
";
        let envelope = run_layout(yaml);
        let errors = errors_array(&envelope);
        let any_hit = errors.iter().any(|e| {
            e["path"].as_str().unwrap_or("").ends_with("/checkbox/bind")
                && e["message"].as_str().unwrap_or("").contains("`bind` is define-owned")
        });
        assert!(any_hit, "expected a `bind` rejection with the offending JSON Pointer: {errors:?}");
    }

#[test]
fn engine_layout_every_forbidden_wiring_key_is_rejected_but_bare_when_passes() {
        let yaml = r"version: 1
screens:
  s:
    name: S
    maps_to: SomeRoute
    body:
      list:
        each: tasks
        item:
          - text:
              content: hello
              event: Tapped
              error: required
              strikethrough-when: tasks.completed
    overlays:
      sheet:
        kind: sheet
        trigger: OpenSheet
        content:
          - text:
              content: hi
    states:
      empty:
        when: tasks.is_empty
        replaces: body
        body:
          - text:
              content: nothing here
";
        let envelope = run_layout(yaml);
        let errors = errors_array(&envelope);
        let messages: Vec<String> =
            errors.iter().map(|e| e["message"].as_str().unwrap_or("").to_string()).collect();

        for key in [
            "`maps_to` is define-owned",
            "`event` is define-owned",
            "`error` is define-owned",
            "overlay `trigger` is define-owned",
            "`*-when` keys are define-owned",
        ] {
            assert!(
                messages.iter().any(|m| m.contains(key)),
                "expected a finding mentioning {key:?}, got: {messages:?}"
            );
        }

        // The bare `when:` on stateEntry is *not* a forbidden key.
        // No error message should reference `/states/empty/when`.
        assert!(
            !errors
                .iter()
                .any(|e| e["path"].as_str().unwrap_or("").ends_with("/states/empty/when")),
            "stateEntry.when (bare `when:`) MUST stay allowed: {errors:?}"
        );
    }

#[test]
fn engine_layout_delta_document_is_rejected() {
        let yaml = r"version: 1
delta:
  added:
    new-screen:
      name: New
      body:
        list:
          each: things
          item:
            - text:
                content: hello
";
        let envelope = run_layout(yaml);
        let errors = errors_array(&envelope);
        assert!(
            errors.iter().any(|e| e["path"].as_str().unwrap_or("") == "/delta"
                && e["message"].as_str().unwrap_or("").contains("MUST NOT use the `delta` shape")),
            "expected `/delta` rejection: {errors:?}"
        );
    }

#[test]
fn engine_layout_same_skeleton_different_wiring_validates_cleanly() {
        let yaml = r"version: 1
screens:
  one:
    name: One
    body:
      - group:
          component: card
          direction: column
          items:
            - text:
                content: First card heading
                style: title
                color: on-surface
            - text:
                content: First card body
                style: body
  two:
    name: Two
    body:
      - group:
          component: card
          direction: column
          items:
            - text:
                content: Second card heading
                style: title
                color: primary
            - text:
                content: Second card body
                style: caption
";
        let envelope = run_layout(yaml);
        assert!(
            errors_array(&envelope).is_empty(),
            "same skeleton + differing leaf values must validate: {envelope}"
        );
    }

#[test]
fn engine_layout_different_skeletons_same_slug_is_an_error() {
        let yaml = r"version: 1
screens:
  one:
    name: One
    body:
      - group:
          component: card
          direction: column
          items:
            - text:
                content: heading
            - text:
                content: body
  two:
    name: Two
    body:
      - group:
          component: card
          direction: column
          items:
            - text:
                content: heading
            - icon:
                name: chevron-right
            - text:
                content: body
";
        let envelope = run_layout(yaml);
        let errors = errors_array(&envelope);
        assert!(
            errors.iter().any(|e| e["message"]
                .as_str()
                .unwrap_or("")
                .contains("component slug `card` has a different skeleton")),
            "expected a structural-identity error for `card`: {errors:?}"
        );
    }

#[test]
fn engine_layout_different_nested_group_depth_is_an_error() {
        let yaml = r"version: 1
screens:
  one:
    name: One
    body:
      - group:
          component: row
          direction: row
          items:
            - text:
                content: a
            - text:
                content: b
  two:
    name: Two
    body:
      - group:
          component: row
          direction: row
          items:
            - text:
                content: a
            - group:
                direction: column
                items:
                  - text:
                      content: b
";
        let envelope = run_layout(yaml);
        let errors = errors_array(&envelope);
        assert!(
            errors.iter().any(|e| e["message"]
                .as_str()
                .unwrap_or("")
                .contains("component slug `row` has a different skeleton")),
            "expected a structural-identity error for `row`: {errors:?}"
        );
    }

#[test]
fn engine_layout_platforms_override_instance_is_exempt_from_base_match() {
        let yaml = r"version: 1
screens:
  one:
    name: One
    body:
      - group:
          component: card
          direction: column
          items:
            - text:
                content: heading
    platforms:
      ios:
        body:
          - group:
              component: card
              direction: column
              items:
                - text:
                    content: heading
                - icon:
                    name: chevron-right
                - text:
                    content: body
  two:
    name: Two
    body:
      - group:
          component: card
          direction: column
          items:
            - text:
                content: heading
";
        let envelope = run_layout(yaml);
        assert!(
            errors_array(&envelope).is_empty(),
            "platforms.* override instance MUST be exempt from base-skeleton match: {envelope}"
        );
    }

#[test]
fn engine_layout_single_component_instance_passes_silently() {
        let yaml = r"version: 1
screens:
  one:
    name: One
    body:
      - group:
          component: card
          direction: column
          items:
            - text:
                content: heading
";
        let envelope = run_layout(yaml);
        assert!(
            errors_array(&envelope).is_empty(),
            "single component instance should pass silently: {envelope}"
        );
    }

#[test]
fn engine_layout_invalid_yaml_surfaces_as_a_single_error_entry() {
        let envelope = run_layout(": : not valid yaml :::\n");
        let errors = errors_array(&envelope);
        assert_eq!(errors.len(), 1, "expected one YAML-parse error: {envelope}");
        assert!(
            errors[0]["message"].as_str().unwrap_or("").contains("invalid YAML"),
            "expected `invalid YAML` prefix, got {:?}",
            errors[0]
        );
    }

#[test]
fn composition_clean_run_validates_silently_without_siblings() {
        let yaml = r"version: 1
screens:
  s:
    name: S
    body:
      list:
        each: tasks
        item:
          - text:
              content: hello
";
        let (_tmp, comp_path) = write_composition_project(yaml, None, None);
        let envelope = run_composition(&comp_path);
        assert_eq!(envelope["mode"], "composition");
        assert!(errors_array(&envelope).is_empty(), "errors unexpected: {envelope}");
        assert!(warnings_array(&envelope).is_empty(), "warnings unexpected: {envelope}");
        assert!(
            envelope.get("results").is_none(),
            "results array should be absent without auto-invoke: {envelope}"
        );
    }

#[test]
fn composition_permits_wired_keys_layout_rejects() {
        let yaml = r"version: 1
screens:
  s:
    name: S
    maps_to: SomeRoute
    body:
      list:
        each: tasks
        item:
          - checkbox:
              bind: tasks.completed
              event: ToggleTask
              strikethrough-when: tasks.completed
    overlays:
      sheet:
        kind: sheet
        trigger: OpenSheet
        content:
          - text:
              content: hi
";
        let (_tmp, comp_path) = write_composition_project(yaml, None, None);
        let envelope = run_composition(&comp_path);
        assert!(
            errors_array(&envelope).is_empty(),
            "wired keys MUST validate cleanly in composition mode: {envelope}"
        );
    }

#[test]
fn composition_accepts_delta_documents() {
        let yaml = r"version: 1
delta:
  added:
    new-screen:
      name: New
      body:
        list:
          each: things
          item:
            - text:
                content: hello
  modified:
    other:
      name: Other
      body:
        - text:
            content: hi
";
        let (_tmp, comp_path) = write_composition_project(yaml, None, None);
        let envelope = run_composition(&comp_path);
        assert!(errors_array(&envelope).is_empty(), "delta MUST validate cleanly: {envelope}");
    }

#[test]
fn composition_unresolved_color_token_is_an_error() {
        let composition = r"version: 1
screens:
  s:
    name: S
    body:
      - text:
          content: hi
          color: nonexistent
";
        let tokens = r##"version: 1
colors:
  primary:
    light: "#0066CC"
    dark: "#3399FF"
"##;
        let (_tmp, comp_path) = write_composition_project(composition, Some(tokens), None);
        let envelope = run_composition(&comp_path);
        let errors = errors_array(&envelope);
        assert!(
            errors.iter().any(|e| e["message"]
                .as_str()
                .unwrap_or("")
                .contains("unknown colors token `nonexistent`")
                && e["path"].as_str().unwrap_or("").ends_with("/text/color")),
            "expected an unresolved-color error: {errors:?}"
        );
    }

#[test]
fn composition_unresolved_spacing_token_is_an_error() {
        let composition = r"version: 1
screens:
  s:
    name: S
    body:
      - group:
          direction: column
          gap: mid
          items:
            - text:
                content: hi
";
        let tokens = r"version: 1
spacing:
  xs: 4
  sm: 8
  md: 16
  lg: 24
";
        let (_tmp, comp_path) = write_composition_project(composition, Some(tokens), None);
        let envelope = run_composition(&comp_path);
        let errors = errors_array(&envelope);
        assert!(
            errors.iter().any(|e| e["message"]
                .as_str()
                .unwrap_or("")
                .contains("unknown spacing token `mid`")),
            "expected an unresolved-spacing error: {errors:?}"
        );
    }

#[test]
fn composition_numeric_spacing_is_not_a_token_ref() {
        let composition = r"version: 1
screens:
  s:
    name: S
    body:
      - group:
          direction: column
          gap: 16
          padding: 8
          items:
            - text:
                content: hi
";
        let tokens = r"version: 1
spacing:
  xs: 4
";
        let (_tmp, comp_path) = write_composition_project(composition, Some(tokens), None);
        let envelope = run_composition(&comp_path);
        assert!(
            errors_array(&envelope).is_empty(),
            "numeric spacing values MUST NOT trip the resolver: {envelope}"
        );
    }

#[test]
fn composition_padding_object_resolves_per_side() {
        let composition = r"version: 1
screens:
  s:
    name: S
    body:
      - group:
          direction: column
          padding:
            top: md
            bottom: lg
            left: nope
          items:
            - text:
                content: hi
";
        let tokens = r"version: 1
spacing:
  md: 16
  lg: 24
";
        let (_tmp, comp_path) = write_composition_project(composition, Some(tokens), None);
        let envelope = run_composition(&comp_path);
        let errors = errors_array(&envelope);
        assert!(
            errors.iter().any(|e| e["path"].as_str().unwrap_or("").ends_with("/padding/left")
                && e["message"].as_str().unwrap_or("").contains("unknown spacing token `nope`")),
            "expected an unresolved-padding-side error: {errors:?}"
        );
        // The other two sides should NOT produce findings.
        assert!(
            !errors.iter().any(|e| e["path"].as_str().unwrap_or("").ends_with("/padding/top")
                || e["path"].as_str().unwrap_or("").ends_with("/padding/bottom")),
            "valid padding sides must not surface: {errors:?}"
        );
    }

#[test]
fn composition_unresolved_elevation_and_corner_radius_are_errors() {
        let composition = r"version: 1
screens:
  s:
    name: S
    body:
      - group:
          direction: column
          elevation: floating
          corner_radius: huge
          items:
            - text:
                content: hi
";
        let tokens = r"version: 1
elevation:
  card: 2
cornerRadius:
  md: 8
";
        let (_tmp, comp_path) = write_composition_project(composition, Some(tokens), None);
        let envelope = run_composition(&comp_path);
        let errors = errors_array(&envelope);
        assert!(
            errors.iter().any(|e| e["message"]
                .as_str()
                .unwrap_or("")
                .contains("unknown elevation token `floating`")),
            "expected an unresolved-elevation error: {errors:?}"
        );
        assert!(
            errors.iter().any(|e| e["message"]
                .as_str()
                .unwrap_or("")
                .contains("unknown cornerRadius token `huge`")),
            "expected an unresolved-cornerRadius error: {errors:?}"
        );
    }

#[test]
fn composition_unresolved_asset_id_is_an_error() {
        let composition = r"version: 1
screens:
  s:
    name: S
    header:
      title: T
      trailing:
        - icon-button:
            icon: mystery
            label: Mystery
    body:
      - image:
          name: empty-tasks-hero
";
        let assets = r"version: 1
assets:
  empty-tasks-hero:
    kind: symbol
    role: icon
    symbols:
      ios: foo
      android: bar
";
        let (_tmp, comp_path) = write_composition_project(composition, None, Some(assets));
        let envelope = run_composition(&comp_path);
        let errors = errors_array(&envelope);
        assert!(
            errors.iter().any(|e| e["message"]
                .as_str()
                .unwrap_or("")
                .contains("unknown asset id `mystery`")
                && e["path"].as_str().unwrap_or("").ends_with("/icon-button/icon")),
            "expected an unresolved-asset error: {errors:?}"
        );
        // The valid `empty-tasks-hero` ref must NOT surface.
        assert!(
            !errors
                .iter()
                .any(|e| e["message"].as_str().unwrap_or("").contains("`empty-tasks-hero`")),
            "valid asset id MUST resolve cleanly: {errors:?}"
        );
    }

#[test]
fn composition_auto_invokes_tokens_and_assets_in_order() {
        let composition = r"version: 1
screens:
  s:
    name: S
    body:
      - text:
          content: hi
";
        let tokens = r"version: 1
spacing:
  md: 16
";
        let assets = r"version: 1
assets: {}
";
        let (_tmp, comp_path) = write_composition_project(composition, Some(tokens), Some(assets));
        let envelope = run_composition(&comp_path);
        let results = envelope["results"].as_array().expect("results array");
        assert_eq!(results.len(), 2, "expected two folded sub-reports: {envelope}");
        assert_eq!(results[0]["mode"], "tokens");
        assert_eq!(results[1]["mode"], "assets");
    }

#[test]
fn composition_structural_identity_violation_in_screens() {
        let composition = r"version: 1
screens:
  one:
    name: One
    body:
      - group:
          component: card
          direction: column
          items:
            - text:
                content: heading
            - text:
                content: body
  two:
    name: Two
    body:
      - group:
          component: card
          direction: column
          items:
            - text:
                content: heading
            - icon:
                name: chevron-right
            - text:
                content: body
";
        let (_tmp, comp_path) = write_composition_project(composition, None, None);
        let envelope = run_composition(&comp_path);
        let errors = errors_array(&envelope);
        assert!(
            errors.iter().any(|e| e["message"]
                .as_str()
                .unwrap_or("")
                .contains("component slug `card` has a different skeleton")),
            "expected structural-identity error in screens shape: {errors:?}"
        );
    }

#[test]
fn composition_structural_identity_violation_in_delta() {
        let composition = r"version: 1
delta:
  added:
    one:
      name: One
      body:
        - group:
            component: card
            direction: column
            items:
              - text:
                  content: heading
              - text:
                  content: body
  modified:
    two:
      name: Two
      body:
        - group:
            component: card
            direction: column
            items:
              - text:
                  content: heading
              - icon:
                  name: chevron-right
              - text:
                  content: body
";
        let (_tmp, comp_path) = write_composition_project(composition, None, None);
        let envelope = run_composition(&comp_path);
        let errors = errors_array(&envelope);
        assert!(
            errors.iter().any(|e| e["message"]
                .as_str()
                .unwrap_or("")
                .contains("component slug `card` has a different skeleton")),
            "expected structural-identity error in delta shape: {errors:?}"
        );
    }

#[test]
fn composition_invalid_yaml_surfaces_as_a_single_error_entry() {
        let (_tmp, comp_path) = write_composition_project(": : not valid yaml :::\n", None, None);
        let envelope = run_composition(&comp_path);
        let errors = errors_array(&envelope);
        assert_eq!(errors.len(), 1, "expected one YAML-parse error: {envelope}");
        assert!(
            errors[0]["message"].as_str().unwrap_or("").contains("invalid YAML"),
            "expected `invalid YAML` prefix, got {:?}",
            errors[0]
        );
    }

#[test]
fn engine_assets_assets_appendix_e_paired_with_composition_validates_cleanly() {
    let (tmp, assets_path) = write_assets_project(SAMPLE_ASSETS_YAML, SAMPLE_ASSET_FILES);
    write_specs_composition(
        tmp.path(),
        // A trimmed composition that references the same asset ids as
        // the sample layout (icon-button, fab, image, icon items). Wiring-free
        // but already valid as a composition document for
        // reference-resolution purposes.
        r"version: 1
screens:
  task-list:
    name: Task list
    header:
      title: My tasks
      trailing:
        - icon-button:
            icon: settings
            label: Open settings
    body:
      list:
        each: tasks
        item:
          - group:
              direction: row
              items:
                - icon:
                    name: chevron-right
    fab:
      icon: plus
      label: Add task
    states:
      empty:
        when: tasks.is_empty
        replaces: body
        body:
          - group:
              direction: column
              items:
                - image:
                    name: empty-tasks-hero
  settings:
    name: Settings
    header:
      title: Settings
      leading:
        - icon-button:
            icon: chevron-left
            label: Back
    body:
      form: []
",
    );

    let args = Args {
        mode: ValidateMode::Assets,
        path: Some(assets_path),
    };
    let envelope = extract_envelope(run(&args).expect("run succeeds"));
    assert_eq!(envelope["mode"], "assets");
    let errors = errors_array(&envelope);
    assert!(errors.is_empty(), "the sample assets + composition pairing unexpectedly errored: {errors:?}");
    // `xxxhdpi` is omitted on the android side of empty-tasks-hero,
    // so a warning is the expected shape -- not a failure.
    let warnings = warnings_array(&envelope);
    assert!(
        warnings
            .iter()
            .any(|w| w["message"].as_str().unwrap_or("").contains("missing optional `xxxhdpi`")),
        "expected at least one missing-density warning for xxxhdpi: {warnings:?}"
    );
}

#[test]
fn engine_assets_assets_missing_raster_file_is_a_pathful_error() {
    let mut files = SAMPLE_ASSET_FILES.to_vec();
    files.retain(|p| *p != "assets/empty-tasks-hero.png");
    let (_tmp, assets_path) = write_assets_project(SAMPLE_ASSETS_YAML, &files);

    let args = Args {
        mode: ValidateMode::Assets,
        path: Some(assets_path),
    };
    let envelope = extract_envelope(run(&args).expect("run succeeds"));
    let errors = errors_array(&envelope);
    let any_hits = errors.iter().any(|e| {
        e["path"].as_str().unwrap_or("") == "/assets/empty-tasks-hero/sources/ios/1x"
            && e["message"].as_str().unwrap_or("").contains("file not found")
    });
    assert!(any_hits, "expected a file-not-found error for 1x: {errors:?}");
}

#[test]
fn engine_assets_assets_missing_optional_density_is_a_warning() {
    let yaml = r"version: 1
assets:
  empty-tasks-hero:
    kind: raster
    role: illustration
    sources:
      ios:
        2x: assets/empty-tasks-hero@2x.png
        3x: assets/empty-tasks-hero@3x.png
      android:
        mdpi: assets/android/empty-tasks-hero-mdpi.png
        hdpi: assets/android/empty-tasks-hero-hdpi.png
        xhdpi: assets/android/empty-tasks-hero-xhdpi.png
        xxhdpi: assets/android/empty-tasks-hero-xxhdpi.png
        xxxhdpi: assets/android/empty-tasks-hero-xxxhdpi.png
";
    let files = [
        "assets/empty-tasks-hero@2x.png",
        "assets/empty-tasks-hero@3x.png",
        "assets/android/empty-tasks-hero-mdpi.png",
        "assets/android/empty-tasks-hero-hdpi.png",
        "assets/android/empty-tasks-hero-xhdpi.png",
        "assets/android/empty-tasks-hero-xxhdpi.png",
        "assets/android/empty-tasks-hero-xxxhdpi.png",
    ];
    let (tmp, assets_path) = write_assets_project(yaml, &files);
    write_specs_composition(
        tmp.path(),
        r"version: 1
screens:
  s:
    name: S
    body:
      list:
        item:
          - image:
              name: empty-tasks-hero
",
    );

    let args = Args {
        mode: ValidateMode::Assets,
        path: Some(assets_path),
    };
    let envelope = extract_envelope(run(&args).expect("run succeeds"));
    assert!(errors_array(&envelope).is_empty(), "errors unexpected: {envelope}");
    let warnings = warnings_array(&envelope);
    assert!(
        warnings
            .iter()
            .any(|w| w["message"].as_str().unwrap_or("").contains("missing optional `1x`")),
        "expected a missing-1x warning, got: {warnings:?}"
    );
}

#[test]
fn engine_assets_assets_unresolved_composition_reference_is_an_error() {
    let (tmp, assets_path) = write_assets_project(SAMPLE_ASSETS_YAML, SAMPLE_ASSET_FILES);
    write_specs_composition(
        tmp.path(),
        // `mystery-glyph` is not in the sample assets.
        r"version: 1
screens:
  s:
    name: S
    header:
      title: T
      trailing:
        - icon-button:
            icon: mystery-glyph
            label: Mystery
    body:
      list:
        item: []
",
    );

    let args = Args {
        mode: ValidateMode::Assets,
        path: Some(assets_path),
    };
    let envelope = extract_envelope(run(&args).expect("run succeeds"));
    let errors = errors_array(&envelope);
    assert!(
        errors.iter().any(|e| e["message"]
            .as_str()
            .unwrap_or("")
            .contains("references unknown asset id `mystery-glyph`")),
        "expected unresolved-reference error, got: {errors:?}"
    );
}

#[test]
fn engine_assets_assets_vector_missing_platform_export_is_an_error() {
    let yaml = r"version: 1
assets:
  brand-logo:
    kind: vector
    role: illustration
    source: assets/brand-logo.svg
    sources:
      ios: assets/ios/brand-logo.pdf
";
    let files = ["assets/brand-logo.svg", "assets/ios/brand-logo.pdf"];
    let (tmp, assets_path) = write_assets_project(yaml, &files);
    write_specs_composition(
        tmp.path(),
        r"version: 1
screens:
  s:
    name: S
    body:
      list:
        item:
          - image:
              name: brand-logo
",
    );

    let args = Args {
        mode: ValidateMode::Assets,
        path: Some(assets_path),
    };
    let envelope = extract_envelope(run(&args).expect("run succeeds"));
    let errors = errors_array(&envelope);
    assert!(
        errors.iter().any(|e| {
            e["path"].as_str().unwrap_or("") == "/assets/brand-logo/sources/android"
                && e["message"].as_str().unwrap_or("").contains("vector asset `brand-logo`")
        }),
        "expected android-coverage error, got: {errors:?}"
    );
}

#[test]
fn engine_assets_assets_without_sibling_composition_only_runs_schema_and_files() {
    let yaml = r"version: 1
assets:
  empty-tasks-hero:
    kind: raster
    role: illustration
    sources:
      ios:
        2x: assets/empty-tasks-hero@2x.png
";
    let (_tmp, assets_path) = write_assets_project(yaml, &["assets/empty-tasks-hero@2x.png"]);

    let args = Args {
        mode: ValidateMode::Assets,
        path: Some(assets_path),
    };
    let envelope = extract_envelope(run(&args).expect("run succeeds"));
    assert!(errors_array(&envelope).is_empty(), "no errors expected: {envelope}");
    assert!(
        warnings_array(&envelope).is_empty(),
        "no warnings expected without composition: {envelope}"
    );
}

#[test]
fn engine_layout_layout_appendix_c_validates_cleanly() {
    let envelope = run_layout(SAMPLE_LAYOUT_YAML);
    assert_eq!(envelope["mode"], "layout");
    assert!(errors_array(&envelope).is_empty(), "the sample layout unexpectedly errored: {envelope}");
    assert!(
        warnings_array(&envelope).is_empty(),
        "no warnings expected for the sample layout: {envelope}"
    );
}

#[test]
fn engine_layout_layout_bind_key_is_rejected_with_pathful_error() {
    let yaml = r"version: 1
screens:
  s:
    name: S
    body:
      list:
        each: tasks
        item:
          - checkbox:
              bind: tasks.completed
";
    let envelope = run_layout(yaml);
    let errors = errors_array(&envelope);
    let any_hit = errors.iter().any(|e| {
        e["path"].as_str().unwrap_or("").ends_with("/checkbox/bind")
            && e["message"].as_str().unwrap_or("").contains("`bind` is define-owned")
    });
    assert!(any_hit, "expected a `bind` rejection with the offending JSON Pointer: {errors:?}");
}

#[test]
fn engine_layout_layout_every_forbidden_wiring_key_is_rejected_but_bare_when_passes() {
    let yaml = r"version: 1
screens:
  s:
    name: S
    maps_to: SomeRoute
    body:
      list:
        each: tasks
        item:
          - text:
              content: hello
              event: Tapped
              error: required
              strikethrough-when: tasks.completed
    overlays:
      sheet:
        kind: sheet
        trigger: OpenSheet
        content:
          - text:
              content: hi
    states:
      empty:
        when: tasks.is_empty
        replaces: body
        body:
          - text:
              content: nothing here
";
    let envelope = run_layout(yaml);
    let errors = errors_array(&envelope);
    let messages: Vec<String> =
        errors.iter().map(|e| e["message"].as_str().unwrap_or("").to_string()).collect();

    for key in [
        "`maps_to` is define-owned",
        "`event` is define-owned",
        "`error` is define-owned",
        "overlay `trigger` is define-owned",
        "`*-when` keys are define-owned",
    ] {
        assert!(
            messages.iter().any(|m| m.contains(key)),
            "expected a finding mentioning {key:?}, got: {messages:?}"
        );
    }

    // The bare `when:` on stateEntry is *not* a forbidden key. No
    // error message should reference `/states/empty/when`.
    assert!(
        !errors.iter().any(|e| e["path"].as_str().unwrap_or("").ends_with("/states/empty/when")),
        "stateEntry.when (bare `when:`) MUST stay allowed: {errors:?}"
    );
}

#[test]
fn engine_layout_layout_delta_document_is_rejected() {
    let yaml = r"version: 1
delta:
  added:
    new-screen:
      name: New
      body:
        list:
          each: things
          item:
            - text:
                content: hello
";
    let envelope = run_layout(yaml);
    let errors = errors_array(&envelope);
    assert!(
        errors.iter().any(|e| e["path"].as_str().unwrap_or("") == "/delta"
            && e["message"].as_str().unwrap_or("").contains("MUST NOT use the `delta` shape")),
        "expected `/delta` rejection: {errors:?}"
    );
}

#[test]
fn engine_layout_layout_same_skeleton_different_wiring_validates_cleanly() {
    let yaml = r"version: 1
screens:
  one:
    name: One
    body:
      - group:
          component: card
          direction: column
          items:
            - text:
                content: First card heading
                style: title
                color: on-surface
            - text:
                content: First card body
                style: body
  two:
    name: Two
    body:
      - group:
          component: card
          direction: column
          items:
            - text:
                content: Second card heading
                style: title
                color: primary
            - text:
                content: Second card body
                style: caption
";
    let envelope = run_layout(yaml);
    assert!(
        errors_array(&envelope).is_empty(),
        "same skeleton + differing leaf values must validate: {envelope}"
    );
}

#[test]
fn engine_layout_layout_different_skeletons_same_slug_is_an_error() {
    let yaml = r"version: 1
screens:
  one:
    name: One
    body:
      - group:
          component: card
          direction: column
          items:
            - text:
                content: heading
            - text:
                content: body
  two:
    name: Two
    body:
      - group:
          component: card
          direction: column
          items:
            - text:
                content: heading
            - icon:
                name: chevron-right
            - text:
                content: body
";
    let envelope = run_layout(yaml);
    let errors = errors_array(&envelope);
    assert!(
        errors.iter().any(|e| e["message"]
            .as_str()
            .unwrap_or("")
            .contains("component slug `card` has a different skeleton")),
        "expected a structural-identity error for `card`: {errors:?}"
    );
}

#[test]
fn engine_layout_layout_different_nested_group_depth_is_an_error() {
    let yaml = r"version: 1
screens:
  one:
    name: One
    body:
      - group:
          component: row
          direction: row
          items:
            - text:
                content: a
            - text:
                content: b
  two:
    name: Two
    body:
      - group:
          component: row
          direction: row
          items:
            - text:
                content: a
            - group:
                direction: column
                items:
                  - text:
                      content: b
";
    let envelope = run_layout(yaml);
    let errors = errors_array(&envelope);
    assert!(
        errors.iter().any(|e| e["message"]
            .as_str()
            .unwrap_or("")
            .contains("component slug `row` has a different skeleton")),
        "expected a structural-identity error for `row`: {errors:?}"
    );
}

#[test]
fn engine_layout_layout_platforms_override_instance_is_exempt_from_base_match() {
    let yaml = r"version: 1
screens:
  one:
    name: One
    body:
      - group:
          component: card
          direction: column
          items:
            - text:
                content: heading
    platforms:
      ios:
        body:
          - group:
              component: card
              direction: column
              items:
                - text:
                    content: heading
                - icon:
                    name: chevron-right
                - text:
                    content: body
  two:
    name: Two
    body:
      - group:
          component: card
          direction: column
          items:
            - text:
                content: heading
";
    let envelope = run_layout(yaml);
    assert!(
        errors_array(&envelope).is_empty(),
        "platforms.* override instance MUST be exempt from base-skeleton match: {envelope}"
    );
}

#[test]
fn engine_layout_layout_single_component_instance_passes_silently() {
    let yaml = r"version: 1
screens:
  one:
    name: One
    body:
      - group:
          component: card
          direction: column
          items:
            - text:
                content: heading
";
    let envelope = run_layout(yaml);
    assert!(
        errors_array(&envelope).is_empty(),
        "single component instance should pass silently: {envelope}"
    );
}

#[test]
fn engine_layout_layout_invalid_yaml_surfaces_as_a_single_error_entry() {
    let envelope = run_layout(": : not valid yaml :::\n");
    let errors = errors_array(&envelope);
    assert_eq!(errors.len(), 1, "expected one YAML-parse error: {envelope}");
    assert!(
        errors[0]["message"].as_str().unwrap_or("").contains("invalid YAML"),
        "expected `invalid YAML` prefix, got {:?}",
        errors[0]
    );
}

/// The sub-reports of a combined run over the project: a mode whose
/// default input is a file (its document given here) is run on it; for
/// one whose input is not a file, the library decides the sub-report.
fn all_input(
    layout: Option<&str>,
    composition: Option<&str>,
    tokens: Option<&str>,
    assets: Option<&str>,
    tokens_schema: Vec<vectis::json::Finding>,
) -> ModeInput {
    let layout_path = format!("{PROJECT}/design-system/layout.yaml");
    let comp_path = format!("{PROJECT}/.specify/specs/composition.yaml");
    let tokens_path = format!("{PROJECT}/design-system/tokens.yaml");
    let assets_path = format!("{PROJECT}/design-system/assets.yaml");
    let layout = all_sub_report(
        ValidateMode::Layout,
        &layout_path,
        layout.map(|text| ModeInput::Layout { loaded: load(text), schema: Vec::new() }),
    );
    let composition = all_sub_report(
        ValidateMode::Composition,
        &comp_path,
        composition.map(|text| ModeInput::Composition { loaded: load(text), schema: Vec::new(), tokens: None, assets: None }),
    );
    let tokens = all_sub_report(
        ValidateMode::Tokens,
        &tokens_path,
        tokens.map(|text| ModeInput::Tokens { loaded: load(text), schema: tokens_schema }),
    );
    let assets = all_sub_report(ValidateMode::Assets, &assets_path, assets.map(|text| assets_input(text, &[], None)));
    ModeInput::All { layout, composition, tokens, assets }
}

fn run_all(input: ModeInput) -> Value {
    to_value(&report_json(&run_engine(PROJECT, input).expect("run all succeeds")))
}

#[test]
fn all_envelope_runs_every_mode_in_canonical_order() {
    let envelope = run_all(all_input(
        Some("version: 1\nscreens: {}\n"),
        Some("version: 1\nscreens: {}\n"),
        Some("version: 1\n"),
        Some("version: 1\nassets: {}\n"),
        Vec::new(),
    ));
    assert_eq!(envelope["mode"], "all");
    assert_eq!(envelope["path"].as_str().expect("path string"), PROJECT);
    let results = envelope["results"].as_array().expect("results array");
    assert_eq!(results.len(), 4, "expected four sub-reports: {envelope}");
    assert_eq!(results[0]["mode"], "layout");
    assert_eq!(results[1]["mode"], "composition");
    assert_eq!(results[2]["mode"], "tokens");
    assert_eq!(results[3]["mode"], "assets");
    for entry in results {
        let report = &entry["report"];
        assert!(report.get("skipped").is_none(), "unexpected skipped: {entry}");
        assert_eq!(report["errors"].as_array().map(Vec::len), Some(0), "unexpected errors: {entry}");
    }
}

#[test]
fn all_envelope_skips_missing_inputs_without_failing() {
    let envelope = run_all(all_input(None, None, Some("version: 1\n"), None, Vec::new()));
    let results = envelope["results"].as_array().expect("results array");
    for entry in results {
        let mode = entry["mode"].as_str().expect("mode str");
        let report = &entry["report"];
        if mode == "tokens" {
            assert!(report.get("skipped").is_none(), "tokens is present: {report}");
        } else {
            assert_eq!(report["skipped"], Value::Bool(true), "[{mode}] expected skipped: {report}");
            assert_eq!(report["errors"].as_array().map(Vec::len), Some(0), "[{mode}] {report}");
        }
    }
}

#[test]
fn all_envelope_propagates_sub_mode_errors_into_nested_report() {
    let finding = vectis::json::Finding {
        path: "/colors/primary/light".to_string(),
        message: "\"#xyz\" does not match \"^#[0-9a-fA-F]{6}$\"".to_string(),
    };
    let envelope = run_all(all_input(
        None,
        None,
        Some("version: 1\ncolors:\n  primary:\n    light: \"#xyz\"\n    dark: \"#000000\"\n"),
        None,
        vec![finding],
    ));
    let results = envelope["results"].as_array().expect("results array");
    let tokens_entry = results.iter().find(|e| e["mode"] == "tokens").expect("tokens sub-report present");
    let tokens_errors = tokens_entry["report"]["errors"].as_array().expect("tokens errors array");
    assert!(!tokens_errors.is_empty(), "broken hex MUST surface in nested tokens report: {envelope}");
}

#[test]
fn composition_sample_trio_validates_cleanly() {
    let comp_path = format!("{PROJECT}/composition.yaml");
    let files: Vec<String> = SAMPLE_ASSET_FILES.iter().map(|f| (*f).to_string()).collect();
    let tokens_report = run_engine(
        &format!("{PROJECT}/tokens.yaml"),
        ModeInput::Tokens { loaded: load(SAMPLE_TOKENS_YAML), schema: Vec::new() },
    );
    let comp_doc = parsed(SAMPLE_LAYOUT_YAML).map(|doc| (comp_path.clone(), doc));
    let assets_report = run_engine(&format!("{PROJECT}/assets.yaml"), assets_input(SAMPLE_ASSETS_YAML, &files, comp_doc));
    let input = ModeInput::Composition {
        loaded: load(SAMPLE_LAYOUT_YAML),
        schema: Vec::new(),
        tokens: Some((tokens_report, parsed(SAMPLE_TOKENS_YAML))),
        assets: Some((assets_report, parsed(SAMPLE_ASSETS_YAML))),
    };
    let envelope = to_value(&report_json(&run_engine(&comp_path, input).expect("run succeeds")));
    let errors = errors_array(&envelope);
    assert!(errors.is_empty(), "sample trio unexpectedly produced composition-mode errors: {errors:?}");
    let results = envelope["results"].as_array().expect("results array");
    assert_eq!(results.len(), 2, "expected tokens + assets sub-reports: {envelope}");
    for entry in results {
        let mode = entry["mode"].as_str().unwrap_or("?");
        let report_errors = entry["report"]["errors"].as_array().expect("errors array");
        assert!(report_errors.is_empty(), "[{mode}] sub-report unexpectedly errored: {report_errors:?}");
    }
}

#[test]
fn composition_design_system_fallback_picks_up_siblings() {
    let composition = "version: 1\nscreens:\n  s:\n    name: S\n    body:\n      - text:\n          content: hi\n          color: surface\n";
    let tokens = "version: 1\ncolors:\n  surface:\n    light: \"#FFFFFF\"\n    dark: \"#000000\"\n";
    let assets = "version: 1\nassets: {}\n";
    let (_tmp, comp_path) = write_composition_project(composition, Some(tokens), Some(assets));
    let envelope = run_composition(&comp_path);
    assert!(errors_array(&envelope).is_empty(), "design-system fallback path MUST resolve cleanly: {envelope}");
    let results = envelope["results"].as_array().expect("results array");
    assert_eq!(results.len(), 2, "expected tokens + assets fallback fold: {envelope}");
}
