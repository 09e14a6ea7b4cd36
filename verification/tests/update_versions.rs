use vectis::matrix::{cap_matrix_rows, render_pins_toml};
use vectis::query::{is_stable_version, url_encode, version_cmp};
use vectis::update_versions::{
    diff_fields, pairs, read_current_pins, resolve_write_target, unchanged_fields,
};
use vectis::versions::{Android, Crux, Ios, Tooling, Versions};

fn baseline() -> Versions {
    Versions::embedded().unwrap()
}

#[test]
fn cap_matrix_is_non_empty_and_contains_the_empty_and_full_rows() {
    let rows = cap_matrix_rows();
    assert!(rows.contains(&""), "render-only row missing");
    assert!(rows.iter().any(|c| c.contains("sse") && c.contains("platform")), "full-cap row missing");
}

#[test]
fn diff_is_empty_when_current_equals_proposed() {
    let v = baseline();
    let changes = diff_fields(&v, &v);
    assert!(changes.is_empty(), "no changes expected; got {changes:?}");
}

#[test]
fn diff_reports_only_changed_fields_and_keeps_key_order() {
    let current = baseline();
    let mut proposed = baseline();
    proposed.crux.crux_core = "0.99.0".to_string();
    proposed.android.kotlin = "9.9.9".to_string();
    let changes = diff_fields(&current, &proposed);
    assert_eq!(changes.len(), 2);
    assert_eq!(changes[0].key, "crux.crux_core");
    assert_eq!(changes[0].current, current.crux.crux_core);
    assert_eq!(changes[0].proposed, "0.99.0");
    assert_eq!(changes[1].key, "android.kotlin");
    assert_eq!(changes[1].proposed, "9.9.9");
}

#[test]
fn unchanged_complements_changes_to_full_key_set() {
    let current = baseline();
    let mut proposed = baseline();
    proposed.crux.crux_http = "0.99.0".to_string();
    let changes = diff_fields(&current, &proposed);
    let unchanged = unchanged_fields(&current, &proposed);
    assert_eq!(changes.len() + unchanged.len(), pairs(&current).len());
}

#[test]
fn is_stable_rejects_common_prerelease_tails() {
    for pre in ["1.0.0-alpha", "1.0.0-beta1", "1.0.0-rc.1", "1.0.0-dev", "2.3.0-M1", "3.1.0-SNAPSHOT", "3.1.0-snapshot", ""] {
        assert!(!is_stable_version(pre), "should reject {pre:?}");
    }
}

#[test]
fn is_stable_accepts_release_shapes() {
    for ok in ["0.31.0", "2026.01.01", "3.4.0", "8.13", "8.13.2", "4.1.1"] {
        assert!(is_stable_version(ok), "should accept {ok:?}");
    }
}

#[test]
fn version_cmp_numeric_components_win() {
    assert_eq!(version_cmp("1.10.0", "1.9.0"), std::cmp::Ordering::Greater);
    assert_eq!(version_cmp("1.9.0", "1.10.0"), std::cmp::Ordering::Less);
    assert_eq!(version_cmp("1.9", "1.9.0"), std::cmp::Ordering::Equal);
    assert_eq!(version_cmp("2.0.0", "2.0.0"), std::cmp::Ordering::Equal);
    assert_eq!(version_cmp("2026.01.01", "2025.12.31"), std::cmp::Ordering::Greater);
}

#[test]
fn url_encode_handles_space_and_colon() {
    assert_eq!(url_encode("g:foo AND a:bar"), "g%3Afoo+AND+a%3Abar");
}

#[test]
fn url_encode_passes_through_unreserved() {
    assert_eq!(url_encode("abcXYZ123._-~"), "abcXYZ123._-~");
}

#[test]
fn url_encode_encodes_each_utf8_byte() {
    assert_eq!(url_encode("é/"), "%C3%A9%2F");
}

#[test]
fn embedded_defaults_parse_and_match_initial_pins() {
    let v = Versions::embedded().expect("embedded defaults must parse");
    assert_eq!(v.crux.crux_core, "0.17.0");
    assert_eq!(v.crux.crux_http, "0.16.0");
    assert_eq!(v.crux.crux_kv, "0.11.0");
    assert_eq!(v.crux.crux_time, "0.15.0");
    assert_eq!(v.crux.crux_platform, "0.8.0");
    assert_eq!(v.crux.facet, "=0.31");
    assert_eq!(v.crux.facet_generate, "=0.15");
    assert_eq!(v.crux.uniffi, "=0.29.4");
    assert_eq!(v.crux.cargo_swift, "0.9");
    assert_eq!(v.android.agp, "8.13.2");
    assert_eq!(v.android.kotlin, "2.3.0");
    assert_eq!(v.android.compose_bom, "2026.01.01");
    assert_eq!(v.android.ktor, "3.4.0");
    assert_eq!(v.android.koin, "4.1.1");
    assert_eq!(v.android.gradle, "8.13");
    assert!(v.android.ndk.is_none());
    assert_eq!(v.tooling.cargo_deny, "0.19.4");
    assert_eq!(v.tooling.cargo_vet, "0.10.2");
    assert_eq!(v.tooling.xcodegen, "2.42.0");
}

/// Read a pins document back into `Versions`, field by field.
fn reparse(text: &str) -> Versions {
    let doc: toml::Table = text.parse().expect("rendered TOML must parse");
    let section = |name: &str| doc.get(name).and_then(toml::Value::as_table).cloned().unwrap_or_default();
    let field = |t: &toml::Table, key: &str| {
        t.get(key).and_then(toml::Value::as_str).unwrap_or_else(|| panic!("missing {key}")).to_string()
    };
    let crux = section("crux");
    let android = section("android");
    let tooling = section("tooling");
    assert!(doc.get("ios").and_then(toml::Value::as_table).is_some(), "[ios] missing");
    Versions {
        crux: Crux {
            crux_core: field(&crux, "crux_core"),
            crux_http: field(&crux, "crux_http"),
            crux_kv: field(&crux, "crux_kv"),
            crux_time: field(&crux, "crux_time"),
            crux_platform: field(&crux, "crux_platform"),
            facet: field(&crux, "facet"),
            facet_generate: field(&crux, "facet_generate"),
            serde: field(&crux, "serde"),
            serde_json: field(&crux, "serde_json"),
            uniffi: field(&crux, "uniffi"),
            cargo_swift: field(&crux, "cargo_swift"),
        },
        android: Android {
            compose_bom: field(&android, "compose_bom"),
            koin: field(&android, "koin"),
            ktor: field(&android, "ktor"),
            kotlin: field(&android, "kotlin"),
            agp: field(&android, "agp"),
            gradle: field(&android, "gradle"),
            ndk: android.get("ndk").and_then(toml::Value::as_str).map(str::to_string),
        },
        ios: Ios {},
        tooling: Tooling {
            cargo_deny: field(&tooling, "cargo_deny"),
            cargo_vet: field(&tooling, "cargo_vet"),
            xcodegen: field(&tooling, "xcodegen"),
        },
    }
}

#[test]
fn render_pins_toml_round_trips_through_versions_parser() {
    let baseline = Versions::embedded().expect("embedded must parse");
    let rendered = render_pins_toml(&baseline);
    let reparsed = reparse(&rendered);
    assert_eq!(baseline, reparsed);
}

#[test]
fn render_pins_toml_round_trips_with_ndk_set() {
    let mut v = Versions::embedded().unwrap();
    v.android.ndk = Some("27.1.12297006".to_string());
    let rendered = render_pins_toml(&v);
    assert!(rendered.contains("ndk         = \"27.1.12297006\""), "ndk line missing: {rendered}");
    let reparsed = reparse(&rendered);
    assert_eq!(reparsed.android.ndk.as_deref(), Some("27.1.12297006"));
}

#[test]
fn resolve_write_target_honours_explicit_override() {
    let explicit = "/tmp/explicit.toml";
    let resolved = resolve_write_target(Some(explicit), Some("/home/someone")).unwrap();
    assert_eq!(resolved, explicit);
}

#[test]
fn read_current_pins_falls_back_to_embedded_when_missing() {
    let missing = "/nonexistent/definitely/not/a/real/path.toml";
    let v = read_current_pins(missing, None).unwrap();
    assert_eq!(v, Versions::embedded().unwrap());
}

fn hit(v: &str) -> Result<vectis::query::VersionHit, vectis::error::VectisError> {
    Ok(vectis::query::VersionHit { version: v.to_string(), source: "https://example.invalid".to_string() })
}

fn failed() -> Result<vectis::query::VersionHit, vectis::error::VectisError> {
    Err(vectis::error::VectisError::Internal { message: "offline".to_string() })
}

#[test]
fn probe_plan_asks_each_registry_in_order() {
    let plan = vectis::update_versions::latest_queries();
    assert_eq!(plan.len(), 16);
    let names: Vec<String> = plan
        .iter()
        .map(|q| match q {
            vectis::update_versions::LatestQuery::Crate(c) => format!("crate {c}"),
            vectis::update_versions::LatestQuery::GoogleMaven(g, a) => format!("google {g}:{a}"),
            vectis::update_versions::LatestQuery::MavenCentral(g, a) => format!("central {g}:{a}"),
            vectis::update_versions::LatestQuery::GithubRelease(o, r) => format!("github {o}/{r}"),
        })
        .collect();
    assert_eq!(names[0], "crate crux_core");
    assert_eq!(names[7], "crate cargo-swift");
    assert_eq!(names[8], "google androidx.compose:compose-bom");
    assert_eq!(names[9], "central org.jetbrains.kotlin:kotlin-stdlib");
    assert_eq!(names[15], "github yonaskolb/XcodeGen");
}

#[test]
fn derived_questions_follow_their_base_answers() {
    let mut answers: Vec<_> = (0..16).map(|k| hit(&format!("{k}.0.0"))).collect();
    let qs = vectis::update_versions::dep_queries(&answers);
    assert_eq!(qs.len(), 3);
    let q0 = qs[0].as_ref().expect("facet is asked");
    assert_eq!((q0.krate, q0.version.as_str(), q0.dep), ("crux_core", "0.0.0", "facet"));
    assert_eq!(qs[1].as_ref().unwrap().dep, "facet_generate");
    let q2 = qs[2].as_ref().expect("uniffi is asked");
    assert_eq!((q2.krate, q2.version.as_str(), q2.dep), ("cargo-swift", "7.0.0", "uniffi_bindgen"));

    answers[0] = failed();
    let qs = vectis::update_versions::dep_queries(&answers);
    assert!(qs[0].is_none() && qs[1].is_none() && qs[2].is_some());
    let derived = vec![None, None, Some(Ok("=0.29.4".to_string()))];
    let p = vectis::update_versions::assemble_probes(answers, derived);
    assert!(p.crux_core.is_err() && p.facet.is_none() && p.facet_generate.is_none());
    assert_eq!(p.uniffi.unwrap().unwrap(), "=0.29.4");
    assert_eq!(p.xcodegen.unwrap().version, "15.0.0");
    assert_eq!(p.kotlin.unwrap().version, "9.0.0");
}
