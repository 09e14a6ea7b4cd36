use vectis::error::VectisError;
use vectis::init::build_params;
use vectis::registry::android_templates;
use vectis::scaffolding::{android_target_list, ios_target_list, plan_android, plan_ios};
use vectis::templates::{Capability, Params};
use vectis::versions::Versions;

fn sample_params(app: &str, package: &str) -> Params {
    let versions = Versions::embedded().expect("embedded defaults must parse");
    build_params(app, package, &versions)
}

fn sources(n: usize, body: &str) -> Vec<String> {
    (0..n).map(|_| body.to_string()).collect()
}

#[test]
fn scaffold_writes_every_ios_file_with_substituted_paths() {
    let params = sample_params("Counter", "com.vectis.counter");
    let n = ios_target_list(&params).len();
    let plan = plan_ios("/p", false, &params, &[], &sources(n, "x"), &vec![false; n])
        .expect("scaffold must succeed");
    assert_eq!(plan.len(), n);
    let targets: Vec<&str> = plan.iter().map(|f| f.target.as_str()).collect();
    for want in [
        "iOS/project.yml",
        "iOS/Makefile",
        "iOS/Counter/CounterApp.swift",
        "iOS/Counter/Core.swift",
        "iOS/Counter/ContentView.swift",
        "iOS/Counter/Views/LoadingScreen.swift",
        "iOS/Counter/Views/HomeScreen.swift",
    ] {
        assert!(targets.contains(&want), "missing {want}: {targets:?}");
    }
    assert!(plan.iter().all(|f| f.path == format!("/p/{}", f.target)));
}

#[test]
fn scaffold_substitutes_app_name_in_file_contents() {
    let params = sample_params("Counter", "com.vectis.counter");
    let n = ios_target_list(&params).len();
    let plan = plan_ios(
        "/p",
        false,
        &params,
        &[],
        &sources(n, "struct __APP_NAME__App: App\nname: __APP_NAME__\nbundle: com.vectis.__APP_NAME_LOWER__\n"),
        &vec![false; n],
    )
    .unwrap();
    for f in &plan {
        assert!(!f.contents.contains("__APP_NAME__"));
        assert!(!f.contents.contains("__APP_NAME_LOWER__"));
        assert!(f.contents.contains("struct CounterApp: App"));
        assert!(f.contents.contains("name: Counter"));
        assert!(f.contents.contains("com.vectis.counter"));
    }
}

#[test]
fn scaffold_refuses_to_overwrite_existing_ios_dir() {
    let params = sample_params("Counter", "com.vectis.counter");
    let n = ios_target_list(&params).len();
    let err = plan_ios("/p", true, &params, &[], &sources(n, "x"), &vec![false; n])
        .expect_err("must refuse to overwrite iOS/");
    match err {
        VectisError::InvalidProject { message } => {
            assert!(message.contains("refusing to overwrite existing iOS shell"));
        }
        other => panic!("unexpected: {other:?}"),
    }
}

#[test]
fn scaffold_writes_every_android_file_for_render_only_minus_network_config() {
    let params = sample_params("Counter", "com.vectis.counter");
    let (targets, _) = android_target_list(&params, "com.vectis.counter", &[]);
    assert_eq!(targets.len(), android_templates().len() - 1);
    let n = targets.len();
    let plan = plan_android("/p", false, "com.vectis.counter", &params, &[], &sources(n, "x"), &vec![false; n])
        .expect("scaffold must succeed");
    let got: Vec<&str> = plan.iter().map(|f| f.target.as_str()).collect();
    assert!(!got.contains(&"Android/app/src/main/res/xml/network_security_config.xml"));
    for want in [
        "Android/Makefile",
        "Android/build.gradle.kts",
        "Android/settings.gradle.kts",
        "Android/gradle.properties",
        "Android/gradle/libs.versions.toml",
        "Android/app/build.gradle.kts",
        "Android/shared/build.gradle.kts",
        "Android/app/src/main/AndroidManifest.xml",
        "Android/app/src/main/java/com/vectis/counter/CounterApplication.kt",
    ] {
        assert!(got.contains(&want), "missing {want}: {got:?}");
    }
}

#[test]
fn scaffold_writes_network_security_config_when_http_enabled() {
    let params = sample_params("Counter", "com.vectis.counter");
    let caps = [Capability::Http];
    let (targets, _) = android_target_list(&params, "com.vectis.counter", &caps);
    assert_eq!(targets.len(), android_templates().len());
    assert!(targets.iter().any(|t| t == "Android/app/src/main/res/xml/network_security_config.xml"));
}

#[test]
fn scaffold_substitutes_app_name_and_package_in_paths_and_contents() {
    let params = sample_params("NoteEditor", "com.example.noteeditor");
    let (targets, _) = android_target_list(&params, "com.example.noteeditor", &[]);
    assert!(targets
        .iter()
        .any(|t| t == "Android/app/src/main/java/com/example/noteeditor/NoteEditorApplication.kt"));
    assert!(targets.iter().any(|t| t == "Android/app/src/main/java/com/example/noteeditor/MainActivity.kt"));
    let n = targets.len();
    let plan = plan_android(
        "/p",
        false,
        "com.example.noteeditor",
        &params,
        &[],
        &sources(n, "package __ANDROID_PACKAGE__\nclass __APP_NAME__Application\n"),
        &vec![false; n],
    )
    .unwrap();
    for f in &plan {
        assert!(f.contents.contains("package com.example.noteeditor"));
        assert!(f.contents.contains("class NoteEditorApplication"));
    }
}

#[test]
fn scaffold_refuses_to_overwrite_existing_android_dir() {
    let params = sample_params("Counter", "com.vectis.counter");
    let (targets, _) = android_target_list(&params, "com.vectis.counter", &[]);
    let n = targets.len();
    let err = plan_android("/p", true, "com.vectis.counter", &params, &[], &sources(n, "x"), &vec![false; n])
        .expect_err("must refuse to overwrite Android/");
    match err {
        VectisError::InvalidProject { message } => {
            assert!(message.contains("refusing to overwrite existing Android shell"));
        }
        other => panic!("unexpected: {other:?}"),
    }
}

const CAP_SOURCE: &str = "top\n<<<CAP:http\nFetchData\nCAP:http>>>\n<<<CAP:kv\nLoadData\nCAP:kv>>>\n<<<CAP:platform\nPlatformRequest\nCAP:platform>>>\nend\n";

#[test]
fn core_scaffold_strips_cap_blocks_for_render_only() {
    let params = sample_params("Counter", "com.vectis.counter");
    let n = vectis::scaffolding::core_target_list().len();
    let plan = vectis::scaffolding::plan_core("/p", "Counter", &params, &[], &sources(n, CAP_SOURCE), &vec![false; n])
        .unwrap();
    for f in &plan {
        assert!(!f.contents.contains("<<<CAP:"), "leftover open marker in {}", f.target);
        assert!(!f.contents.contains("CAP:") || !f.contents.contains(">>>"));
        assert!(!f.contents.contains("FetchData"));
    }
}

#[test]
fn scaffold_includes_selected_capability_blocks() {
    let params = sample_params("Counter", "com.vectis.counter");
    let n = vectis::scaffolding::core_target_list().len();
    let caps = [Capability::Http, Capability::Kv, Capability::Sse];
    let plan = vectis::scaffolding::plan_core("/p", "Counter", &params, &caps, &sources(n, CAP_SOURCE), &vec![false; n])
        .unwrap();
    for f in &plan {
        assert!(f.contents.contains("FetchData"));
        assert!(f.contents.contains("LoadData"));
        assert!(!f.contents.contains("PlatformRequest"));
        assert!(!f.contents.contains("<<<CAP:"));
    }
}

#[test]
fn ios_scaffold_strips_cap_blocks_for_render_only() {
    let params = sample_params("Counter", "com.vectis.counter");
    let n = ios_target_list(&params).len();
    let plan = plan_ios("/p", false, &params, &[], &sources(n, CAP_SOURCE), &vec![false; n]).unwrap();
    for f in &plan {
        assert!(!f.contents.contains("<<<CAP:"));
        assert!(f.contents.contains("top\nend\n"));
    }
}

#[test]
fn android_scaffold_strips_cap_blocks_for_render_only() {
    let params = sample_params("Counter", "com.vectis.counter");
    let (targets, _) = android_target_list(&params, "com.vectis.counter", &[]);
    let n = targets.len();
    let plan = plan_android("/p", false, "com.vectis.counter", &params, &[], &sources(n, CAP_SOURCE), &vec![false; n])
        .unwrap();
    for f in &plan {
        assert!(!f.contents.contains("<<<CAP:"));
        assert_eq!(f.contents, "top\nend\n");
    }
}

#[test]
fn scaffold_results_list_the_planned_targets_in_order() {
    let params = sample_params("Counter", "com.vectis.counter");
    let n = ios_target_list(&params).len();
    let plan = plan_ios("/p", false, &params, &[], &sources(n, "x"), &vec![false; n]).unwrap();
    let ios = vectis::scaffolding::IosScaffold::from_plan(&plan, Vec::new());
    assert_eq!(ios.files, ios_target_list(&params));
    assert!(ios.build_steps.is_empty());
    let core_targets = vectis::scaffolding::core_target_list();
    let m = core_targets.len();
    let plan = vectis::scaffolding::plan_core("/p", "Counter", &params, &[], &sources(m, "x"), &vec![false; m]).unwrap();
    assert_eq!(vectis::scaffolding::CoreScaffold::from_plan(&plan).files, core_targets);
    let (targets, _) = android_target_list(&params, "com.vectis.counter", &[]);
    let k = targets.len();
    let plan = plan_android("/p", false, "com.vectis.counter", &params, &[], &sources(k, "x"), &vec![false; k]).unwrap();
    let steps = vec![vectis::verify::run_step("gradle wrapper", Ok((true, String::new(), String::new()))).unwrap()];
    let android = vectis::scaffolding::AndroidScaffold::from_plan(&plan, steps);
    assert_eq!(android.files, targets);
    assert_eq!(android.build_steps.len(), 1);
}
