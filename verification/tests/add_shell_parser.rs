use vectis::add_shell::parse_app_rs;
use vectis::error::VectisError;
use vectis::templates::Capability;

fn sample_source(body: &str) -> String {
    format!(
        r#"use crux_core::App;

{body}

#[derive(Default)]
pub struct Counter;

impl App for Counter {{
    type Event = ();
    type Model = ();
    type ViewModel = ();
    type Effect = ();
    fn update(&self, _event: (), _model: &mut ()) -> () {{}}
    fn view(&self, _model: &()) -> () {{}}
}}
"#
    )
}

#[test]
fn extracts_app_name_from_impl() {
    let parsed = parse_app_rs(&sample_source("")).unwrap();
    assert_eq!(parsed.app_name, "Counter");
    assert!(parsed.capabilities.is_empty());
    assert!(parsed.unrecognized_capabilities.is_empty());
}

#[test]
fn extracts_http_capability() {
    let src = sample_source("type Http = crux_http::Http<Effect, Event>;");
    let parsed = parse_app_rs(&src).unwrap();
    assert_eq!(parsed.capabilities, vec![Capability::Http]);
}

#[test]
fn extracts_kv_capability_from_keyvalue_alias() {
    let src = sample_source("type KeyValue = crux_kv::KeyValue<Effect, Event>;");
    let parsed = parse_app_rs(&src).unwrap();
    assert_eq!(parsed.capabilities, vec![Capability::Kv]);
}

#[test]
fn extracts_time_capability() {
    let src = sample_source("type Time = crux_time::Time<Effect, Event>;");
    let parsed = parse_app_rs(&src).unwrap();
    assert_eq!(parsed.capabilities, vec![Capability::Time]);
}

#[test]
fn extracts_platform_capability() {
    let src = sample_source("type Platform = crux_platform::Platform<Effect, Event>;");
    let parsed = parse_app_rs(&src).unwrap();
    assert_eq!(parsed.capabilities, vec![Capability::Platform]);
}

#[test]
fn extracts_sse_capability_from_nested_path() {
    let src = sample_source("type Sse = crux_http::sse::Sse<Effect, Event>;");
    let parsed = parse_app_rs(&src).unwrap();
    assert_eq!(parsed.capabilities, vec![Capability::Sse]);
}

#[test]
fn extracts_full_capability_matrix_in_source_order() {
    let src = sample_source(
        "type Http = crux_http::Http<Effect, Event>;\n\
         type KeyValue = crux_kv::KeyValue<Effect, Event>;\n\
         type Time = crux_time::Time<Effect, Event>;\n\
         type Platform = crux_platform::Platform<Effect, Event>;",
    );
    let parsed = parse_app_rs(&src).unwrap();
    assert_eq!(
        parsed.capabilities,
        vec![Capability::Http, Capability::Kv, Capability::Time, Capability::Platform]
    );
}

#[test]
fn dedupes_duplicate_capabilities_without_erroring() {
    let src = sample_source(
        "type Http = crux_http::Http<Effect, Event>;\n\
         type AnotherHttp = crux_http::Http<Effect, Event>;",
    );
    let parsed = parse_app_rs(&src).unwrap();
    assert_eq!(parsed.capabilities, vec![Capability::Http]);
}

#[test]
fn classifies_unknown_crux_crates_as_unrecognized() {
    let src = sample_source("type Exp = crux_experimental::Thing<Effect, Event>;");
    let parsed = parse_app_rs(&src).unwrap();
    assert!(parsed.capabilities.is_empty());
    assert_eq!(parsed.unrecognized_capabilities, vec!["crux_experimental"]);
}

#[test]
fn ignores_non_crux_type_aliases() {
    let src = sample_source("type Foo = Vec<u8>;");
    let parsed = parse_app_rs(&src).unwrap();
    assert!(parsed.capabilities.is_empty());
    assert!(parsed.unrecognized_capabilities.is_empty());
}

#[test]
fn rejects_source_with_no_app_impl() {
    let src = "pub struct NotAnApp;\n";
    let err = parse_app_rs(src).expect_err("missing App impl must fail");
    match err {
        VectisError::InvalidProject { message } => {
            assert!(message.contains("no `impl App for <Name>` found"));
        }
        other => panic!("unexpected: {other:?}"),
    }
}

#[test]
fn rejects_source_that_is_not_valid_rust() {
    let err = parse_app_rs("this is not rust {{{").expect_err("invalid syntax must fail");
    match err {
        VectisError::InvalidProject { message } => {
            assert!(message.contains("could not parse"), "{message}");
        }
        other => panic!("unexpected: {other:?}"),
    }
}

#[test]
fn parses_a_fully_scaffolded_app_rs_template() {
    let src = r#"use crux_core::App;
use crux_http::HttpRequest;
use crux_kv::KeyValueOperation;
use crux_time::TimeRequest;
use crux_platform::PlatformRequest;

type Http = crux_http::Http<Effect, Event>;
type KeyValue = crux_kv::KeyValue<Effect, Event>;
type Time = crux_time::Time<Effect, Event>;
type Platform = crux_platform::Platform<Effect, Event>;

pub struct Counter;

impl App for Counter {
    type Event = ();
    type Model = ();
    type ViewModel = ();
    type Effect = ();
    fn update(&self, _event: (), _model: &mut ()) -> () {}
    fn view(&self, _model: &()) -> () {}
}
"#;
    let parsed = parse_app_rs(src).unwrap();
    assert_eq!(parsed.app_name, "Counter");
    assert_eq!(
        parsed.capabilities,
        vec![Capability::Http, Capability::Kv, Capability::Time, Capability::Platform]
    );
}
