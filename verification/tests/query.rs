use std::cmp::Ordering;
use vectis::error::VectisError;
use vectis::query::{
    crates_io_crate_url, crates_io_deps_url, crates_io_latest_stable, crates_io_normal_dep_req,
    github_latest_release, google_maven_latest_stable, google_maven_url, maven_central_latest_stable,
    maven_central_url, CratesIoDep,
};

fn internal_message(e: VectisError) -> String {
    match e {
        VectisError::Internal { message } => message,
        other => panic!("expected an internal error, got {other:?}"),
    }
}

#[test]
fn registry_urls_follow_each_registry_layout() {
    assert_eq!(crates_io_crate_url("serde"), "https://crates.io/api/v1/crates/serde");
    assert_eq!(
        crates_io_deps_url("crux_core", "0.17.0"),
        "https://crates.io/api/v1/crates/crux_core/0.17.0/dependencies"
    );
    assert_eq!(
        google_maven_url("androidx.compose", "compose-bom"),
        "https://maven.google.com/androidx/compose/compose-bom/maven-metadata.xml"
    );
    assert_eq!(
        maven_central_url("io.ktor", "ktor-bom"),
        "https://search.maven.org/solrsearch/select?q=g%3Aio.ktor+AND+a%3Aktor-bom&core=gav&rows=40&wt=json"
    );
}

#[test]
fn crates_io_prefers_the_max_stable_version() {
    let hit = crates_io_latest_stable("serde", Ok((Some("1.0.200".into()), "1.0.201-rc.1".into()))).unwrap();
    assert_eq!(hit.version, "1.0.200");
    let hit = crates_io_latest_stable("fresh", Ok((None, "0.1.0-alpha".into()))).unwrap();
    assert_eq!(hit.version, "0.1.0-alpha");
    let msg = internal_message(crates_io_latest_stable("serde", Err("timed out".into())).unwrap_err());
    assert_eq!(msg, "registry query failed (https://crates.io/api/v1/crates/serde): timed out");
}

#[test]
fn normal_dependency_requirement_is_found_by_crate_and_kind() {
    let deps = vec![
        CratesIoDep { crate_id: "facet".into(), req: "^0.1".into(), kind: "dev".into() },
        CratesIoDep { crate_id: "facet".into(), req: "=0.31.0".into(), kind: "normal".into() },
    ];
    assert_eq!(crates_io_normal_dep_req("crux_core", "0.17.0", "facet", Ok(deps.clone())).unwrap(), "=0.31.0");
    let msg = internal_message(crates_io_normal_dep_req("crux_core", "0.17.0", "serde", Ok(deps)).unwrap_err());
    assert!(msg.contains("crux_core@0.17.0 has no normal dep on \"serde\""), "{msg}");
}

#[test]
fn google_maven_picks_the_highest_stable_version() {
    let body = r#"<?xml version="1.0" encoding="UTF-8"?>
<metadata>
  <groupId>androidx.compose</groupId>
  <artifactId>compose-bom</artifactId>
  <versioning>
    <versions>
      <version>2025.12.01</version>
      <version>2026.01.01</version>
      <version>2026.02.00-alpha01</version>
      <version>2025.9.10</version>
    </versions>
  </versioning>
</metadata>"#;
    let hit = google_maven_latest_stable("androidx.compose", "compose-bom", Ok(body.into())).unwrap();
    assert_eq!(hit.version, "2026.01.01");
    assert_eq!(hit.source, "https://maven.google.com/androidx/compose/compose-bom/maven-metadata.xml");
}

#[test]
fn google_maven_without_stable_versions_is_an_error() {
    let body = "<metadata><versioning><versions><version>1.0.0-beta1</version></versions></versioning></metadata>";
    let msg = internal_message(google_maven_latest_stable("g", "a", Ok(body.into())).unwrap_err());
    assert_eq!(msg, "google maven: no stable versions at https://maven.google.com/g/a/maven-metadata.xml");
    let msg = internal_message(google_maven_latest_stable("g", "a", Ok("<not-closed".into())).unwrap_err());
    assert!(msg.contains("roxmltree parse:"), "{msg}");
}

#[test]
fn maven_central_picks_the_highest_stable_version() {
    let versions = vec!["4.0.4".to_string(), "4.1.1".to_string(), "4.2.0-RC1".to_string(), "4.0.10".to_string()];
    let hit = maven_central_latest_stable("io.insert-koin", "koin-bom", Ok(versions)).unwrap();
    assert_eq!(hit.version, "4.1.1");
    let msg = internal_message(maven_central_latest_stable("io.ktor", "ktor-bom", Ok(vec![])).unwrap_err());
    assert_eq!(msg, "maven central: no stable versions for io.ktor:ktor-bom");
}

#[test]
fn github_release_tag_loses_its_leading_v() {
    let hit = github_latest_release("yonaskolb", "XcodeGen", Ok("v2.43.0".into())).unwrap();
    assert_eq!(hit.version, "2.43.0");
    assert_eq!(hit.source, "https://api.github.com/repos/yonaskolb/XcodeGen/releases/latest");
}

#[test]
fn version_cmp_is_antisymmetric_and_ignores_trailing_zeros() {
    let cmp = vectis::query::version_cmp;
    assert_eq!(cmp("1.x", "1.0"), Ordering::Equal);
    assert_eq!(cmp("1.2", "1.2.0"), Ordering::Equal);
    assert_eq!(cmp("1.2.0.0", "1.2"), Ordering::Equal);
    for (a, b) in [("1.2.3", "1.10.0"), ("0.9", "0.10"), ("2", "1.99.99"), ("3.0", "3")] {
        assert_eq!(cmp(a, b), cmp(b, a).reverse());
        assert_eq!(cmp(&format!("{a}.0"), b), cmp(a, b));
        assert_eq!(cmp(a, &format!("{b}.0")), cmp(a, b));
        assert_eq!(cmp(a, a), Ordering::Equal);
    }
}

#[test]
fn metadata_versions_keeps_version_elements_in_document_order() {
    let node = |el: bool, tag: &str, text: Option<&str>| (el, tag.to_string(), text.map(str::to_string));
    let nodes = vec![
        node(true, "metadata", None),
        node(true, "version", Some("1.0.0")),
        node(false, "", Some("1.0.0")),
        node(true, "versioning", None),
        node(true, "version", Some("2.0.0-alpha01")),
        node(true, "version", None),
        node(true, "latest", Some("9.9.9")),
        node(true, "version", Some("1.1.0")),
    ];
    let versions = vectis::query::metadata_versions(&nodes);
    assert_eq!(versions, vec!["1.0.0", "2.0.0-alpha01", "1.1.0"]);
    assert_eq!(vectis::query::latest_stable(&versions), Some("1.1.0".to_string()));
}
