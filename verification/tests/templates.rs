use vectis::templates::{render, substitute_path, substitute_path_with, substitute_placeholders, Capability, Params};

fn sample_params() -> Params {
    Params {
        app_name: "Counter".into(),
        app_struct: "Counter".into(),
        app_name_lower: "counter".into(),
        android_package: "com.vectis.counter".into(),
        crux_core_version: "0.17.0".into(),
        crux_http_version: "0.16.0".into(),
        crux_kv_version: "0.11.0".into(),
        crux_time_version: "0.15.0".into(),
        crux_platform_version: "0.8.0".into(),
        facet_version: "=0.31".into(),
        serde_version: "1.0".into(),
        uniffi_version: "=0.29.4".into(),
        agp_version: "8.13.2".into(),
        kotlin_version: "2.3.0".into(),
        compose_bom_version: "2026.01.01".into(),
        ktor_version: "3.4.0".into(),
        koin_version: "4.1.1".into(),
        android_ndk_version: "27.0.12077973".into(),
    }
}

#[test]
fn substitutes_known_placeholders_only() {
    let input = "name=__APP_NAME__ struct=__APP_STRUCT__ unknown=__NOT_A_PLACEHOLDER__";
    let out = substitute_placeholders(input, &sample_params());
    assert_eq!(out, "name=Counter struct=Counter unknown=__NOT_A_PLACEHOLDER__");
}

#[test]
fn substitutes_app_name_lower_before_app_name() {
    let input = "id=__APP_NAME_LOWER__ name=__APP_NAME__";
    let out = substitute_placeholders(input, &sample_params());
    assert_eq!(out, "id=counter name=Counter");
}

#[test]
fn render_only_strips_every_cap_block() {
    let input =
        "before\n<<<CAP:http\nhttp_only\nCAP:http>>>\n<<<CAP:kv\nkv_only\nCAP:kv>>>\nafter\n";
    let out = render(input, &sample_params(), &[]);
    assert_eq!(out, "before\nafter\n");
}

#[test]
fn cap_selected_keeps_inner_content_only() {
    let input = "before\n<<<CAP:http\nhttp_only\nCAP:http>>>\nafter\n";
    let out = render(input, &sample_params(), &[Capability::Http]);
    assert_eq!(out, "before\nhttp_only\nafter\n");
}

#[test]
fn cap_marker_lines_are_dropped_when_selected() {
    let input = "<<<CAP:http\nx\nCAP:http>>>\n";
    let out = render(input, &sample_params(), &[Capability::Http]);
    assert_eq!(out, "x\n");
}

#[test]
fn preserves_indentation_inside_markers() {
    let input = "[features]\ncodegen = [\n    <<<CAP:http\n    \"crux_http/facet_typegen\",\n    CAP:http>>>\n]\n";
    let out = render(input, &sample_params(), &[Capability::Http]);
    assert_eq!(out, "[features]\ncodegen = [\n    \"crux_http/facet_typegen\",\n]\n");
}

#[test]
fn render_substitutes_capability_versions_only_when_kept() {
    let input = "always=__CRUX_CORE_VERSION__\n<<<CAP:http\ncrux_http=\"__CRUX_HTTP_VERSION__\"\nCAP:http>>>\n";
    let render_only = render(input, &sample_params(), &[]);
    assert_eq!(render_only, "always=0.17.0\n");

    let with_http = render(input, &sample_params(), &[Capability::Http]);
    assert_eq!(with_http, "always=0.17.0\ncrux_http=\"0.16.0\"\n");
}

#[test]
fn preserves_files_with_no_trailing_newline() {
    let input = "no-trailer";
    let out = render(input, &sample_params(), &[]);
    assert_eq!(out, "no-trailer");
}

#[test]
fn render_is_idempotent_for_files_without_markers_or_placeholders() {
    let input = "static content\nline 2\n";
    assert_eq!(render(input, &sample_params(), &[]), input);
}

#[test]
fn substitute_path_handles_app_name_in_dir_and_filename_positions() {
    let target = "iOS/__APP_NAME__/__APP_NAME__App.swift";
    let out = substitute_path(target, &sample_params());
    assert_eq!(out, "iOS/Counter/CounterApp.swift");
}

#[test]
fn substitute_path_handles_app_name_lower_before_app_name() {
    let target = "iOS/__APP_NAME__/__APP_NAME_LOWER__/x.swift";
    let out = substitute_path(target, &sample_params());
    assert_eq!(out, "iOS/Counter/counter/x.swift");
}

#[test]
fn substitute_path_leaves_static_paths_alone() {
    let target = "iOS/project.yml";
    let out = substitute_path(target, &sample_params());
    assert_eq!(out, "iOS/project.yml");
}

#[test]
fn substitute_path_with_android_package_path_substitutes_pkg_path() {
    let target = "Android/app/src/main/java/__ANDROID_PACKAGE_PATH__/__APP_NAME__Application.kt";
    let out = substitute_path_with(target, &sample_params(), Some("com/vectis/counter"));
    assert_eq!(out, "Android/app/src/main/java/com/vectis/counter/CounterApplication.kt");
}

#[test]
fn substitute_path_with_no_android_package_path_leaves_placeholder_alone() {
    let target = "Android/app/src/main/java/__ANDROID_PACKAGE_PATH__/__APP_NAME__Application.kt";
    let out = substitute_path(target, &sample_params());
    assert!(out.contains("__ANDROID_PACKAGE_PATH__"));
}

#[test]
fn substitute_placeholders_substitutes_android_version_placeholders() {
    let input = "agp=__AGP_VERSION__ kotlin=__KOTLIN_VERSION__ \
                 compose=__COMPOSE_BOM_VERSION__ ktor=__KTOR_VERSION__ \
                 koin=__KOIN_VERSION__ ndk=__ANDROID_NDK_VERSION__";
    let out = substitute_placeholders(input, &sample_params());
    assert_eq!(
        out,
        "agp=8.13.2 kotlin=2.3.0 compose=2026.01.01 ktor=3.4.0 \
         koin=4.1.1 ndk=27.0.12077973"
    );
}

#[test]
fn capability_tags_round_trip() {
    for c in [Capability::Http, Capability::Kv, Capability::Time, Capability::Platform, Capability::Sse] {
        assert_eq!(Capability::from_tag(c.marker_tag()), Some(c));
    }
    assert_eq!(Capability::from_tag("bogus"), None);
}

#[test]
fn unknown_region_tag_is_kept_as_text_with_the_rest() {
    let input = "a\n<<<CAP:nope\nhidden\nCAP:nope>>>\nb\n";
    let out = render(input, &sample_params(), &[Capability::Http, Capability::Kv]);
    assert_eq!(out, input);
}

#[test]
fn unclosed_opener_surfaces_as_text_with_the_rest() {
    let out = vectis::templates::process_caps("a\n<<<CAP:http\nb\n", &[]);
    assert!(out.lines().any(|l| l == "<<<CAP:http"), "{out}");
    assert_eq!(out, "a\n<<<CAP:http\nb\n");
    let out = vectis::templates::process_caps("a\n<<<CAP:kv\nk\nCAP:kv>>>\n<<<CAP:http\nb", &[]);
    assert_eq!(out, "a\n<<<CAP:http\nb");
}

#[test]
fn render_without_markers_only_substitutes() {
    let input = "crate __APP_NAME__\n";
    assert_eq!(render(input, &sample_params(), &[]), "crate Counter\n");
}

#[test]
fn well_formed_regions_leave_no_markers_whatever_is_selected() {
    let input = "a\n  <<<CAP:http\n  h\n  CAP:http>>>\n<<<CAP:sse\ns\nCAP:sse>>>\nz\n";
    let selections: [&[Capability]; 4] = [
        &[],
        &[Capability::Http],
        &[Capability::Sse],
        &[Capability::Http, Capability::Kv, Capability::Time, Capability::Platform, Capability::Sse],
    ];
    for caps in selections {
        let out = vectis::templates::process_caps(input, caps);
        assert!(!out.contains("<<<CAP:"), "{out}");
        assert!(!out.contains(">>>"), "{out}");
    }
    assert_eq!(vectis::templates::process_caps(input, &[]), "a\nz\n");
    assert_eq!(vectis::templates::process_caps(input, &[Capability::Http]), "a\n  h\nz\n");
}

#[test]
fn more_capabilities_only_add_lines() {
    let input = "a\n<<<CAP:http\nh\nCAP:http>>>\n<<<CAP:kv\nk\nCAP:kv>>>\nz\n";
    let none = vectis::templates::process_caps(input, &[]);
    let http = vectis::templates::process_caps(input, &[Capability::Http]);
    let both = vectis::templates::process_caps(input, &[Capability::Kv, Capability::Http]);
    assert_eq!(none, "a\nz\n");
    assert_eq!(http, "a\nh\nz\n");
    assert_eq!(both, "a\nh\nk\nz\n");
    let is_sub = |a: &str, b: &str| {
        let mut it = b.lines();
        a.lines().all(|l| it.any(|m| m == l))
    };
    assert!(is_sub(&none, &http) && is_sub(&http, &both));
}

#[test]
fn dropping_every_line_of_a_template_leaves_one_empty_line() {
    let input = "<<<CAP:http\nx\nCAP:http>>>\n";
    assert_eq!(vectis::templates::process_caps(input, &[]), "\n");
    assert_eq!(vectis::templates::process_caps(input, &[Capability::Http]), "x\n");
    let input = "a\n<<<CAP:http\nx\nCAP:http>>>\n\nb";
    let none = vectis::templates::process_caps(input, &[]);
    let http = vectis::templates::process_caps(input, &[Capability::Http]);
    let mut it = http.lines();
    assert!(none.lines().all(|l| it.any(|m| m == l)), "{none:?} / {http:?}");
}
