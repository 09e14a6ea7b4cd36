use vectis::registry::{android_templates, core_templates, ios_templates, scaffold_android_templates, IncludeWhen};
use vectis::templates::Capability;

#[test]
fn registry_matches_rfc_android_file_count() {
    assert_eq!(android_templates().len(), 19);
}

#[test]
fn android_registry_targets_are_unique() {
    let mut targets: Vec<&str> = android_templates().iter().map(|t| t.target).collect();
    targets.sort_unstable();
    let len_before = targets.len();
    targets.dedup();
    assert_eq!(targets.len(), len_before, "duplicate target paths in Android registry");
}

#[test]
fn every_target_is_under_android_dir() {
    for entry in android_templates() {
        assert!(entry.target.starts_with("Android/"), "target {:?} is not under Android/", entry.target);
    }
}

#[test]
fn network_security_config_is_http_or_sse_conditional() {
    let all = android_templates();
    let entry = all
        .iter()
        .find(|t| t.target.ends_with("network_security_config.xml"))
        .expect("network_security_config.xml must be in registry");
    match &entry.include_when {
        IncludeWhen::AnyOf(caps) => {
            assert!(caps.contains(&Capability::Http));
            assert!(caps.contains(&Capability::Sse));
        }
        IncludeWhen::Always => panic!("network_security_config.xml must be cap-conditional, not Always"),
    }
}

#[test]
fn include_when_any_of_skips_when_no_overlap() {
    let pred = IncludeWhen::AnyOf(vec![Capability::Http, Capability::Sse]);
    assert!(!pred.should_include(&[]));
    assert!(!pred.should_include(&[Capability::Kv]));
    assert!(pred.should_include(&[Capability::Http]));
    assert!(pred.should_include(&[Capability::Sse]));
    assert!(pred.should_include(&[Capability::Kv, Capability::Http]));
}

#[test]
fn include_when_always_is_unconditional() {
    let pred = IncludeWhen::Always;
    assert!(pred.should_include(&[]));
    assert!(pred.should_include(&[Capability::Http]));
}

#[test]
fn registry_matches_rfc_core_file_count() {
    assert_eq!(core_templates().len(), 13);
}

#[test]
fn core_registry_targets_are_unique() {
    let mut targets: Vec<&str> = core_templates().iter().map(|t| t.target).collect();
    targets.sort_unstable();
    let len_before = targets.len();
    targets.dedup();
    assert_eq!(targets.len(), len_before, "duplicate target paths in core registry");
}

#[test]
fn registry_matches_rfc_ios_file_count() {
    assert_eq!(ios_templates().len(), 7);
}

#[test]
fn ios_registry_targets_are_unique() {
    let mut targets: Vec<&str> = ios_templates().iter().map(|t| t.target).collect();
    targets.sort_unstable();
    let len_before = targets.len();
    targets.dedup();
    assert_eq!(targets.len(), len_before, "duplicate target paths in iOS registry");
}

#[test]
fn every_target_is_under_ios_dir() {
    for entry in ios_templates() {
        assert!(entry.target.starts_with("iOS/"), "target {:?} is not under iOS/", entry.target);
    }
}

#[test]
fn scaffold_android_registry_has_no_conditional_entries() {
    let all = scaffold_android_templates();
    assert_eq!(all.len(), 18);
    assert!(all.iter().all(|t| matches!(t.include_when, IncludeWhen::Always)));
}
