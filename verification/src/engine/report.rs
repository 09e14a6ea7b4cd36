//! The per-mode reports of `validate`: what each mode concludes from the
//! artifact it read (and from the sibling artifacts it found), and the
//! JSON envelope a report prints as.
//!
//! Reading files, parsing YAML and running the JSON Schema validators
//! happen before these functions are called; they receive the outcome
//! of each step as plain values.

use vstd::prelude::*;

use crate::engine::assets::{
    collect_asset_references, manifest_file_refs, manifest_files, missing_file_findings,
    push_missing_files, push_reference_findings, reference_findings, refs_in,
};
use crate::engine::identity::{check_structural_identity, structural_identity_findings};
use crate::engine::layout::{unwired_findings, walk_unwired};
use crate::engine::tokens::{
    manifest_ids, resolve_asset_references, resolve_token_references, token_findings,
    unknown_asset_findings,
};
use crate::engine::schema::{parse_yaml, yaml_doc};
use crate::error::{error_message, str_member, VectisError};
use crate::json::{findings_view, get, push_finding, Finding, Json};
use crate::paths::{dir_of, dir_of_path};
use crate::text::owned;

verus! {

/// The artifact a `validate` run checks.
#[derive(Debug, Clone, Copy, PartialEq, Eq, Structural)]
pub enum ValidateMode {
    Layout,
    Composition,
    Tokens,
    Assets,
    All,
}

/// The spelling of a mode on the command line and in reports.
pub open spec fn mode_name(m: ValidateMode) -> Seq<char> {
    match m {
        ValidateMode::Layout => "layout"@,
        ValidateMode::Composition => "composition"@,
        ValidateMode::Tokens => "tokens"@,
        ValidateMode::Assets => "assets"@,
        ValidateMode::All => "all"@,
    }
}

/// The file name of a mode's artifact.
pub open spec fn artifact_file(m: ValidateMode) -> Seq<char> {
    match m {
        ValidateMode::Layout => "layout.yaml"@,
        ValidateMode::Composition => "composition.yaml"@,
        ValidateMode::Tokens => "tokens.yaml"@,
        ValidateMode::Assets => "assets.yaml"@,
        ValidateMode::All => "project"@,
    }
}

impl ValidateMode {
    /// The mode's spelling.
    pub fn as_str(&self) -> (r: &'static str)
        ensures
            r@ == mode_name(*self),
    {
        match self {
            ValidateMode::Layout => "layout",
            ValidateMode::Composition => "composition",
            ValidateMode::Tokens => "tokens",
            ValidateMode::Assets => "assets",
            ValidateMode::All => "all",
        }
    }

    /// The file name of the mode's artifact.
    pub fn file_name(&self) -> (r: &'static str)
        ensures
            r@ == artifact_file(*self),
    {
        match self {
            ValidateMode::Layout => "layout.yaml",
            ValidateMode::Composition => "composition.yaml",
            ValidateMode::Tokens => "tokens.yaml",
            ValidateMode::Assets => "assets.yaml",
            ValidateMode::All => "project",
        }
    }
}

/// What reading and parsing an artifact gave.
#[derive(Debug)]
pub enum Loaded {
    /// The file could not be read; the I/O error's message.
    Unreadable(String),
    /// The file is not YAML; the parser's message.
    InvalidYaml(String),
    /// The parsed document.
    Parsed(Json),
}

/// What reading an artifact gave (its text, or the I/O error's
/// message), parsed as YAML (see `yaml_doc`).
pub open spec fn loaded_from(read: Result<Seq<char>, Seq<char>>, r: Loaded) -> bool {
    match read {
        Err(e) => r is Unreadable && r->Unreadable_0@ == e,
        Ok(t) => match yaml_doc(t) {
            Ok(j) => r == Loaded::Parsed(j),
            Err(m) => r is InvalidYaml && r->InvalidYaml_0@ == m,
        },
    }
}

/// Load an artifact from what reading its file gave (see `loaded_from`).
pub fn load_artifact(read: Result<String, String>) -> (r: Loaded)
    ensures
        loaded_from(
            match read {
                Ok(t) => Ok(t@),
                Err(e) => Err(e@),
            },
            r,
        ),
{
    match read {
        Err(e) => Loaded::Unreadable(e),
        Ok(t) => match parse_yaml(t.as_str()) {
            Ok(j) => Loaded::Parsed(j),
            Err(m) => Loaded::InvalidYaml(m),
        },
    }
}

/// One mode's report: the artifact it checked, its errors and warnings,
/// the reports it folded in, and, for a mode that found no input, why it
/// was skipped.
#[derive(Debug)]
pub struct Report {
    pub mode: ValidateMode,
    pub path: String,
    pub errors: Vec<Finding>,
    pub warnings: Vec<Finding>,
    pub results: Vec<Report>,
    pub skipped: Option<String>,
}

/// A sibling artifact a composition run auto-invokes: the outcome of
/// validating it, and its parsed document when it parses.
pub type Sibling = Option<(Result<Report, VectisError>, Option<Json>)>;

/// The inputs of one `validate` run, per mode.
pub enum ModeInput {
    Tokens { loaded: Loaded, schema: Vec<Finding> },
    /// `present[k]` tells whether the k-th file the manifest references
    /// (in `manifest_files` order) exists; `composition` is the
    /// discovered sibling composition (its path and document).
    Assets {
        loaded: Loaded,
        schema: Vec<Finding>,
        present: Vec<bool>,
        composition: Option<(String, Json)>,
    },
    Layout { loaded: Loaded, schema: Vec<Finding> },
    Composition { loaded: Loaded, schema: Vec<Finding>, tokens: Sibling, assets: Sibling },
    /// The four sub-reports, in the order layout, composition, tokens,
    /// assets (a skipped report where the input is missing).
    All {
        layout: Result<Report, VectisError>,
        composition: Result<Report, VectisError>,
        tokens: Result<Report, VectisError>,
        assets: Result<Report, VectisError>,
    },
}

// ---------------------------------------------------------------------
// Shared shapes.
// ---------------------------------------------------------------------

/// The message of the error for an unreadable artifact.
pub open spec fn not_readable_message(m: ValidateMode, target: Seq<char>, err: Seq<char>) -> Seq<
    char,
> {
    artifact_file(m) + " not readable at "@ + target + ": "@ + err
}

/// The finding for a document that is not YAML.
pub open spec fn yaml_error(err: Seq<char>) -> (Seq<char>, Seq<char>) {
    (Seq::empty(), "invalid YAML: "@ + err)
}

/// A report of mode `m` on `target` with nothing folded in.
pub open spec fn plain_report(r: Report, m: ValidateMode, target: Seq<char>) -> bool {
    &&& r.mode == m
    &&& r.path@ == target
    &&& r.results@.len() == 0
    &&& r.skipped is None
}

/// The outcome of a mode that reads one artifact: an unreadable file is
/// an `InvalidProject` error; a YAML error is the report's only error;
/// a parsed document gets `errs` and `warns`.
pub open spec fn single_outcome(
    r: Result<Report, VectisError>,
    m: ValidateMode,
    target: Seq<char>,
    loaded: Loaded,
    errs: Seq<(Seq<char>, Seq<char>)>,
    warns: Seq<(Seq<char>, Seq<char>)>,
) -> bool {
    match loaded {
        Loaded::Unreadable(e) => r is Err && r->Err_0 is InvalidProject && error_message(r->Err_0)
            == not_readable_message(m, target, e@),
        Loaded::InvalidYaml(e) => r is Ok && plain_report(r->Ok_0, m, target) && findings_view(
            r->Ok_0.errors@,
        ) == seq![yaml_error(e@)] && r->Ok_0.warnings@.len() == 0,
        Loaded::Parsed(_) => r is Ok && plain_report(r->Ok_0, m, target) && findings_view(
            r->Ok_0.errors@,
        ) == errs && findings_view(r->Ok_0.warnings@) == warns,
    }
}

/// The `InvalidProject` error for an unreadable artifact.
pub fn not_readable(m: ValidateMode, target: &str, err: &str) -> (e: VectisError)
    ensures
        e is InvalidProject,
        error_message(e) == not_readable_message(m, target@, err@),
{
    let mut msg = owned(m.file_name());
    msg.append(" not readable at ");
    msg.append(target);
    msg.append(": ");
    msg.append(err);
    VectisError::InvalidProject { message: msg }
}

/// The finding for a document that is not YAML.
pub fn yaml_error_finding(err: &str) -> (f: Vec<Finding>)
    ensures
        findings_view(f@) == seq![yaml_error(err@)],
{
    let mut out: Vec<Finding> = Vec::new();
    let mut msg = owned("invalid YAML: ");
    msg.append(err);
    let p = owned("");
    proof {
        reveal_strlit("");
    }
    assert(p@ =~= Seq::<char>::empty());
    push_finding(&mut out, p, msg);
    assert(findings_view(out@) =~= seq![yaml_error(err@)]);
    out
}

/// A report with nothing folded in.
pub fn plain(m: ValidateMode, target: &str, errors: Vec<Finding>, warnings: Vec<Finding>) -> (r:
    Report)
    ensures
        plain_report(r, m, target@),
        r.errors@ == errors@,
        r.warnings@ == warnings@,
{
    Report {
        mode: m,
        path: owned(target),
        errors,
        warnings,
        results: Vec::new(),
        skipped: None,
    }
}

/// The report of a mode whose artifact is not YAML.
fn invalid_yaml_report(m: ValidateMode, target: &str, err: &str) -> (r: Report)
    ensures
        plain_report(r, m, target@),
        findings_view(r.errors@) == seq![yaml_error(err@)],
        r.warnings@.len() == 0,
{
    plain(m, target, yaml_error_finding(err), Vec::new())
}

// ---------------------------------------------------------------------
// tokens
// ---------------------------------------------------------------------

/// `validate tokens`: the schema findings are the whole report.
pub fn tokens_report(target: &str, loaded: Loaded, schema: Vec<Finding>) -> (r: Result<
    Report,
    VectisError,
>)
    ensures
        single_outcome(r, ValidateMode::Tokens, target@, loaded, findings_view(schema@), Seq::empty()),
{
    match loaded {
        Loaded::Unreadable(e) => Err(not_readable(ValidateMode::Tokens, target, e.as_str())),
        Loaded::InvalidYaml(e) => Ok(invalid_yaml_report(ValidateMode::Tokens, target, e.as_str())),
        Loaded::Parsed(_) => {
            let r = plain(ValidateMode::Tokens, target, schema, Vec::new());
            assert(findings_view(r.warnings@) =~= Seq::<(Seq<char>, Seq<char>)>::empty());
            Ok(r)
        },
    }
}

// ---------------------------------------------------------------------
// layout
// ---------------------------------------------------------------------

/// The error for a layout document in the `delta` shape.
pub open spec fn delta_message() -> Seq<char> {
    "layout.yaml MUST NOT use the `delta` shape (unwired-subset rule); only `screens` documents are permitted. Use composition.yaml for change-local delta artifacts."@
}

/// The layout rules over a parsed document: no `delta` shape; under
/// `screens`, no wiring keys and one skeleton per component slug.
pub open spec fn layout_findings(doc: Json) -> Seq<(Seq<char>, Seq<char>)> {
    (if get(doc, "delta"@) is Some {
        seq![("/delta"@, delta_message())]
    } else {
        Seq::empty()
    }) + match get(doc, "screens"@) {
        Some(s) => unwired_findings(s, "/screens"@) + structural_identity_findings(s, "/screens"@),
        None => Seq::empty(),
    }
}

/// `validate layout`: schema findings, then the layout rules.
pub fn layout_report(target: &str, loaded: Loaded, schema: Vec<Finding>) -> (r: Result<
    Report,
    VectisError,
>)
    ensures
        single_outcome(
            r,
            ValidateMode::Layout,
            target@,
            loaded,
            findings_view(schema@) + match loaded {
                Loaded::Parsed(doc) => layout_findings(doc),
                _ => Seq::empty(),
            },
            Seq::empty(),
        ),
{
    match loaded {
        Loaded::Unreadable(e) => Err(not_readable(ValidateMode::Layout, target, e.as_str())),
        Loaded::InvalidYaml(e) => Ok(invalid_yaml_report(ValidateMode::Layout, target, e.as_str())),
        Loaded::Parsed(doc) => {
            let mut errors = schema;
            let ghost e0 = findings_view(errors@);
            if doc.get("delta").is_some() {
                push_finding(
                    &mut errors,
                    owned("/delta"),
                    owned(
                        "layout.yaml MUST NOT use the `delta` shape (unwired-subset rule); only `screens` documents are permitted. Use composition.yaml for change-local delta artifacts.",
                    ),
                );
            }
            let ghost e1 = findings_view(errors@);
            match doc.get("screens") {
                Some(s) => {
                    walk_unwired(s, "/screens", &mut errors);
                    check_structural_identity(s, "/screens", &mut errors);
                },
                None => {},
            }
            assert(findings_view(errors@) =~= e0 + layout_findings(doc));
            let r = plain(ValidateMode::Layout, target, errors, Vec::new());
            assert(findings_view(r.warnings@) =~= Seq::<(Seq<char>, Seq<char>)>::empty());
            Ok(r)
        },
    }
}

// ---------------------------------------------------------------------
// assets
// ---------------------------------------------------------------------

/// The sibling composition's view.
pub open spec fn comp_view(c: Option<(String, Json)>) -> Option<(Seq<char>, Json)> {
    match c {
        Some((p, d)) => Some((p@, d)),
        None => None,
    }
}

/// The asset manifest's `assets` members, when they are an object.
pub open spec fn asset_members(doc: Json) -> Option<Seq<(String, Json)>> {
    match get(doc, "assets"@) {
        Some(Json::Object(es)) => Some(es@),
        _ => None,
    }
}

/// The errors the asset rules give for a parsed manifest read from
/// `target`: missing files (resolved against the manifest's directory),
/// then the sibling composition's references.
pub open spec fn assets_errors(
    doc: Json,
    target: Seq<char>,
    present: Seq<bool>,
    comp: Option<(Seq<char>, Json)>,
) -> Seq<(Seq<char>, Seq<char>)> {
    missing_file_findings(dir_of(target), manifest_files(doc), present) + match comp {
        Some((p, c)) => reference_findings(asset_members(doc), refs_in(c, Seq::empty()), p).0,
        None => Seq::empty(),
    }
}

/// The warnings the asset rules give (missing optional densities of
/// referenced raster assets).
pub open spec fn assets_warnings(doc: Json, comp: Option<(Seq<char>, Json)>) -> Seq<
    (Seq<char>, Seq<char>),
> {
    match comp {
        Some((p, c)) => reference_findings(asset_members(doc), refs_in(c, Seq::empty()), p).1,
        None => Seq::empty(),
    }
}

/// `validate assets`: schema findings, missing files, then the sibling
/// composition's references (unknown ids, platform coverage).
pub fn assets_report(
    target: &str,
    loaded: Loaded,
    schema: Vec<Finding>,
    present: Vec<bool>,
    composition: Option<(String, Json)>,
) -> (r: Result<Report, VectisError>)
    requires
        loaded is Parsed ==> present@.len() == manifest_files(loaded->Parsed_0).len(),
    ensures
        single_outcome(
            r,
            ValidateMode::Assets,
            target@,
            loaded,
            findings_view(schema@) + match loaded {
                Loaded::Parsed(doc) => assets_errors(doc, target@, present@, comp_view(composition)),
                _ => Seq::empty(),
            },
            match loaded {
                Loaded::Parsed(doc) => assets_warnings(doc, comp_view(composition)),
                _ => Seq::empty(),
            },
        ),
{
    match loaded {
        Loaded::Unreadable(e) => Err(not_readable(ValidateMode::Assets, target, e.as_str())),
        Loaded::InvalidYaml(e) => Ok(invalid_yaml_report(ValidateMode::Assets, target, e.as_str())),
        Loaded::Parsed(doc) => {
            let mut errors = schema;
            let mut warnings: Vec<Finding> = Vec::new();
            let ghost e0 = findings_view(errors@);
            let dir = dir_of_path(target);
            let files = manifest_file_refs(&doc);
            push_missing_files(dir.as_str(), &files, present.as_slice(), &mut errors);
            let ghost e1 = findings_view(errors@);
            let members = match doc.get("assets") {
                Some(Json::Object(es)) => Some(es),
                _ => None,
            };
            match &composition {
                Some((p, c)) => {
                    let refs = collect_asset_references(c);
                    push_reference_findings(members, &refs, p.as_str(), &mut errors, &mut warnings);
                },
                None => {},
            }
            assert(findings_view(errors@) =~= e0 + assets_errors(
                doc,
                target@,
                present@,
                comp_view(composition),
            ));
            assert(findings_view(warnings@) =~= assets_warnings(doc, comp_view(composition)));
            Ok(plain(ValidateMode::Assets, target, errors, warnings))
        },
    }
}


// ---------------------------------------------------------------------
// composition
// ---------------------------------------------------------------------

/// The failure of a sibling run, if it failed.
pub open spec fn sibling_failure(s: Sibling) -> Option<VectisError> {
    match s {
        Some((Err(e), _)) => Some(e),
        _ => None,
    }
}

/// The report of a sibling run that succeeded.
pub open spec fn sibling_report(s: Sibling) -> Seq<Report> {
    match s {
        Some((Ok(r), _)) => seq![r],
        _ => Seq::empty(),
    }
}

/// The parsed document of a sibling.
pub open spec fn sibling_doc(s: Sibling) -> Option<Json> {
    match s {
        Some((_, d)) => d,
        None => None,
    }
}

/// The composition rules over a parsed document: one skeleton per slug
/// under `screens` and under `delta`, then the token references against
/// the sibling tokens manifest, then the static asset references against
/// the sibling assets manifest.
pub open spec fn composition_findings(doc: Json, tokens: Option<Json>, assets: Option<Json>) -> Seq<
    (Seq<char>, Seq<char>),
> {
    (match get(doc, "screens"@) {
        Some(s) => structural_identity_findings(s, "/screens"@),
        None => Seq::empty(),
    }) + (match get(doc, "delta"@) {
        Some(d) => structural_identity_findings(d, "/delta"@),
        None => Seq::empty(),
    }) + (match tokens {
        Some(t) => token_findings(doc, Seq::empty(), t),
        None => Seq::empty(),
    }) + match assets {
        Some(a) => unknown_asset_findings(manifest_ids(a), refs_in(doc, Seq::empty())),
        None => Seq::empty(),
    }
}

/// The outcome of `validate composition`.
pub open spec fn composition_outcome(
    r: Result<Report, VectisError>,
    target: Seq<char>,
    loaded: Loaded,
    schema: Seq<(Seq<char>, Seq<char>)>,
    tokens: Sibling,
    assets: Sibling,
) -> bool {
    match loaded {
        Loaded::Parsed(doc) => if sibling_failure(tokens) is Some {
            r == Err::<Report, VectisError>(sibling_failure(tokens)->Some_0)
        } else if sibling_failure(assets) is Some {
            r == Err::<Report, VectisError>(sibling_failure(assets)->Some_0)
        } else {
            &&& r is Ok
            &&& r->Ok_0.mode == ValidateMode::Composition
            &&& r->Ok_0.path@ == target
            &&& r->Ok_0.skipped is None
            &&& r->Ok_0.results@ == sibling_report(tokens) + sibling_report(assets)
            &&& findings_view(r->Ok_0.errors@) == schema + composition_findings(
                doc,
                sibling_doc(tokens),
                sibling_doc(assets),
            )
            &&& r->Ok_0.warnings@.len() == 0
        },
        _ => single_outcome(r, ValidateMode::Composition, target, loaded, schema, Seq::empty()),
    }
}

/// `validate composition`: schema findings, structural identity, the
/// auto-invoked sibling reports (tokens before assets; a failed sibling
/// run fails the whole run), and the cross-artifact references.
pub fn composition_report(
    target: &str,
    loaded: Loaded,
    schema: Vec<Finding>,
    tokens: Sibling,
    assets: Sibling,
) -> (r: Result<Report, VectisError>)
    ensures
        composition_outcome(r, target@, loaded, findings_view(schema@), tokens, assets),
{
    match loaded {
        Loaded::Unreadable(e) => Err(not_readable(ValidateMode::Composition, target, e.as_str())),
        Loaded::InvalidYaml(e) => Ok(
            invalid_yaml_report(ValidateMode::Composition, target, e.as_str()),
        ),
        Loaded::Parsed(doc) => {
            let ghost tokens0 = tokens;
            let ghost assets0 = assets;
            let mut errors = schema;
            let ghost e0 = findings_view(errors@);
            match doc.get("screens") {
                Some(s) => check_structural_identity(s, "/screens", &mut errors),
                None => {},
            }
            match doc.get("delta") {
                Some(d) => check_structural_identity(d, "/delta", &mut errors),
                None => {},
            }
            let mut results: Vec<Report> = Vec::new();
            let mut tokens_doc: Option<Json> = None;
            let mut assets_doc: Option<Json> = None;
            match tokens {
                Some((outcome, d)) => {
                    match outcome {
                        Ok(rep) => results.push(rep),
                        Err(e) => {
                            return Err(e);
                        },
                    }
                    tokens_doc = d;
                },
                None => {},
            }
            match assets {
                Some((outcome, d)) => {
                    match outcome {
                        Ok(rep) => results.push(rep),
                        Err(e) => {
                            return Err(e);
                        },
                    }
                    assets_doc = d;
                },
                None => {},
            }
            assert(results@ =~= sibling_report(tokens0) + sibling_report(assets0));
            assert(tokens_doc == sibling_doc(tokens0));
            assert(assets_doc == sibling_doc(assets0));
            match &tokens_doc {
                Some(t) => resolve_token_references(&doc, t, &mut errors),
                None => {},
            }
            match &assets_doc {
                Some(a) => resolve_asset_references(&doc, a, &mut errors),
                None => {},
            }
            assert(findings_view(errors@) =~= e0 + composition_findings(doc, tokens_doc, assets_doc));
            Ok(
                Report {
                    mode: ValidateMode::Composition,
                    path: owned(target),
                    errors,
                    warnings: Vec::new(),
                    results,
                    skipped: None,
                },
            )
        },
    }
}

// ---------------------------------------------------------------------
// all
// ---------------------------------------------------------------------

/// The message of a sub-report whose input does not exist.
pub open spec fn skipped_message(target: Seq<char>) -> Seq<char> {
    "no input found at "@ + target
        + "; default-resolved via the artifacts: block (or its embedded fallback)"@
}

/// The synthetic sub-report of `validate all` for a mode whose input
/// does not exist at `target`.
pub fn skipped_report(m: ValidateMode, target: &str) -> (r: Report)
    ensures
        r.mode == m,
        r.path@ == target@,
        r.errors@.len() == 0,
        r.warnings@.len() == 0,
        r.results@.len() == 0,
        r.skipped == Some(r.skipped->Some_0) && r.skipped->Some_0@ == skipped_message(target@),
{
    let mut msg = owned("no input found at ");
    msg.append(target);
    msg.append("; default-resolved via the artifacts: block (or its embedded fallback)");
    Report {
        mode: m,
        path: owned(target),
        errors: Vec::new(),
        warnings: Vec::new(),
        results: Vec::new(),
        skipped: Some(msg),
    }
}

/// The outcome of `validate all` over the four sub-outcomes: the first
/// failure in order, else a report of mode `all` on `root` folding the
/// four reports in order.
pub open spec fn all_outcome(
    r: Result<Report, VectisError>,
    root: Seq<char>,
    subs: Seq<Result<Report, VectisError>>,
) -> bool {
    if exists|k: int| 0 <= k < subs.len() && subs[k] is Err {
        let k = choose|k: int|
            0 <= k < subs.len() && subs[k] is Err && forall|j: int| 0 <= j < k ==> subs[j] is Ok;
        r == subs[k]
    } else {
        &&& r is Ok
        &&& r->Ok_0.mode == ValidateMode::All
        &&& r->Ok_0.path@ == root
        &&& r->Ok_0.errors@.len() == 0
        &&& r->Ok_0.warnings@.len() == 0
        &&& r->Ok_0.skipped is None
        &&& r->Ok_0.results@ == subs.map_values(|s: Result<Report, VectisError>| s->Ok_0)
    }
}

/// `validate all`: fold the layout, composition, tokens and assets
/// reports, in that order, into one report on the project root.
pub fn all_report(
    root: &str,
    layout: Result<Report, VectisError>,
    composition: Result<Report, VectisError>,
    tokens: Result<Report, VectisError>,
    assets: Result<Report, VectisError>,
) -> (r: Result<Report, VectisError>)
    ensures
        all_outcome(r, root@, seq![layout, composition, tokens, assets]),
{
    let ghost subs = seq![layout, composition, tokens, assets];
    let l = match layout {
        Ok(x) => x,
        Err(e) => {
            assert(subs[0] is Err);
            return Err(e);
        },
    };
    let c = match composition {
        Ok(x) => x,
        Err(e) => {
            assert(subs[1] is Err && subs[0] is Ok);
            return Err(e);
        },
    };
    let t = match tokens {
        Ok(x) => x,
        Err(e) => {
            assert(subs[2] is Err && subs[0] is Ok && subs[1] is Ok);
            return Err(e);
        },
    };
    let a = match assets {
        Ok(x) => x,
        Err(e) => {
            assert(subs[3] is Err && subs[0] is Ok && subs[1] is Ok && subs[2] is Ok);
            return Err(e);
        },
    };
    let mut results: Vec<Report> = Vec::new();
    results.push(l);
    results.push(c);
    results.push(t);
    results.push(a);
    assert(results@ =~= subs.map_values(|s: Result<Report, VectisError>| s->Ok_0));
    Ok(
        Report {
            mode: ValidateMode::All,
            path: owned(root),
            errors: Vec::new(),
            warnings: Vec::new(),
            results,
            skipped: None,
        },
    )
}

// ---------------------------------------------------------------------
// Dispatch.
// ---------------------------------------------------------------------

/// The mode an input is for.
pub open spec fn input_mode(i: ModeInput) -> ValidateMode {
    match i {
        ModeInput::Tokens { .. } => ValidateMode::Tokens,
        ModeInput::Assets { .. } => ValidateMode::Assets,
        ModeInput::Layout { .. } => ValidateMode::Layout,
        ModeInput::Composition { .. } => ValidateMode::Composition,
        ModeInput::All { .. } => ValidateMode::All,
    }
}

/// The outcome of a `validate` run on `target` with `input`.
pub open spec fn run_outcome(r: Result<Report, VectisError>, target: Seq<char>, input: ModeInput) -> bool {
    match input {
        ModeInput::Tokens { loaded, schema } => single_outcome(
            r,
            ValidateMode::Tokens,
            target,
            loaded,
            findings_view(schema@),
            Seq::empty(),
        ),
        ModeInput::Assets { loaded, schema, present, composition } => single_outcome(
            r,
            ValidateMode::Assets,
            target,
            loaded,
            findings_view(schema@) + match loaded {
                Loaded::Parsed(doc) => assets_errors(doc, target, present@, comp_view(composition)),
                _ => Seq::empty(),
            },
            match loaded {
                Loaded::Parsed(doc) => assets_warnings(doc, comp_view(composition)),
                _ => Seq::empty(),
            },
        ),
        ModeInput::Layout { loaded, schema } => single_outcome(
            r,
            ValidateMode::Layout,
            target,
            loaded,
            findings_view(schema@) + match loaded {
                Loaded::Parsed(doc) => layout_findings(doc),
                _ => Seq::empty(),
            },
            Seq::empty(),
        ),
        ModeInput::Composition { loaded, schema, tokens, assets } => composition_outcome(
            r,
            target,
            loaded,
            findings_view(schema@),
            tokens,
            assets,
        ),
        ModeInput::All { layout, composition, tokens, assets } => all_outcome(
            r,
            target,
            seq![layout, composition, tokens, assets],
        ),
    }
}

/// The inputs an assets run needs to be well formed: one presence
/// answer per referenced file.
pub open spec fn input_well_formed(input: ModeInput) -> bool {
    match input {
        ModeInput::Assets { loaded, present, .. } => loaded is Parsed ==> present@.len()
            == manifest_files(loaded->Parsed_0).len(),
        _ => true,
    }
}

/// A report skipped for mode `m` at `target` (see `skipped_report`).
pub open spec fn is_skipped(r: Report, m: ValidateMode, target: Seq<char>) -> bool {
    &&& r.mode == m
    &&& r.path@ == target
    &&& r.errors@.len() == 0
    &&& r.warnings@.len() == 0
    &&& r.results@.len() == 0
    &&& r.skipped is Some
    &&& r.skipped->Some_0@ == skipped_message(target)
}

/// One sub-report of `validate all`: mode `m`'s default input `target`
/// is skipped when it is not a file (`input` is `None`), and otherwise
/// validated with the inputs gathered for it.
pub fn all_sub_report(m: ValidateMode, target: &str, input: Option<ModeInput>) -> (r: Result<
    Report,
    VectisError,
>)
    requires
        input matches Some(i) ==> input_well_formed(i),
    ensures
        match input {
            None => r is Ok && is_skipped(r->Ok_0, m, target@),
            Some(i) => run_outcome(r, target@, i),
        },
{
    match input {
        None => Ok(skipped_report(m, target)),
        Some(i) => run(target, i),
    }
}

/// Run `validate` on the artifact at `target` (the project root for
/// `all`) with the inputs gathered for its mode.
pub fn run(target: &str, input: ModeInput) -> (r: Result<Report, VectisError>)
    requires
        input_well_formed(input),
    ensures
        run_outcome(r, target@, input),
{
    match input {
        ModeInput::Tokens { loaded, schema } => tokens_report(target, loaded, schema),
        ModeInput::Assets { loaded, schema, present, composition } => assets_report(
            target,
            loaded,
            schema,
            present,
            composition,
        ),
        ModeInput::Layout { loaded, schema } => layout_report(target, loaded, schema),
        ModeInput::Composition { loaded, schema, tokens, assets } => composition_report(
            target,
            loaded,
            schema,
            tokens,
            assets,
        ),
        ModeInput::All { layout, composition, tokens, assets } => all_report(
            target,
            layout,
            composition,
            tokens,
            assets,
        ),
    }
}


// ---------------------------------------------------------------------
// The JSON envelope.
// ---------------------------------------------------------------------

/// A finding as `{path, message}`.
pub open spec fn is_finding_json(j: Json, f: (Seq<char>, Seq<char>)) -> bool {
    &&& j is Object
    &&& j->Object_0@.len() == 2
    &&& str_member(j->Object_0@[0], "path"@, f.0)
    &&& str_member(j->Object_0@[1], "message"@, f.1)
}

/// A list of findings as an array of `{path, message}`.
pub open spec fn is_findings_json(j: Json, fs: Seq<(Seq<char>, Seq<char>)>) -> bool {
    &&& j is Array
    &&& j->Array_0@.len() == fs.len()
    &&& forall|k: int| 0 <= k < fs.len() ==> is_finding_json(#[trigger] j->Array_0@[k], fs[k])
}

/// A report as its envelope: `mode`, `path`, then for `all` only
/// `results`; for the other modes `errors`, `warnings`, `results` when
/// reports were folded in, and `skipped: true` with `message` for a
/// skipped report.
pub open spec fn is_report_json(j: Json, r: Report) -> bool
    decreases r, 1nat,
{
    &&& j is Object
    &&& j->Object_0@.len() >= 3
    &&& str_member(j->Object_0@[0], "mode"@, mode_name(r.mode))
    &&& str_member(j->Object_0@[1], "path"@, r.path@)
    &&& if r.mode == ValidateMode::All {
        &&& j->Object_0@.len() == 3
        &&& j->Object_0@[2].0@ == "results"@
        &&& results_json(j->Object_0@[2].1, r.results@)
    } else {
        let n: int = 4 + (if r.results@.len() > 0 {
            1int
        } else {
            0int
        }) + (if r.skipped is Some {
            2int
        } else {
            0int
        });
        &&& j->Object_0@.len() == n
        &&& j->Object_0@[2].0@ == "errors"@
        &&& is_findings_json(j->Object_0@[2].1, findings_view(r.errors@))
        &&& j->Object_0@[3].0@ == "warnings"@
        &&& is_findings_json(j->Object_0@[3].1, findings_view(r.warnings@))
        &&& (r.results@.len() > 0 ==> j->Object_0@[4].0@ == "results"@ && results_json(
            j->Object_0@[4].1,
            r.results@,
        ))
        &&& (r.skipped is Some ==> j->Object_0@[n - 2].0@ == "skipped"@ && j->Object_0@[n - 2].1
            == Json::Bool(true) && str_member(j->Object_0@[n - 1], "message"@, r.skipped->Some_0@))
    }
}

/// Folded reports as an array of `{mode, report}`.
pub open spec fn results_json(j: Json, rs: Seq<Report>) -> bool
    decreases rs, 1nat,
{
    &&& j is Array
    &&& j->Array_0@.len() == rs.len()
    &&& result_entries(j->Array_0@, rs)
}

/// Each entry is `{mode, report}` for the matching report.
pub open spec fn result_entries(js: Seq<Json>, rs: Seq<Report>) -> bool
    decreases rs, 0nat,
{
    if rs.len() == 0 || js.len() != rs.len() {
        js.len() == rs.len()
    } else {
        &&& js[0] is Object
        &&& js[0]->Object_0@.len() == 2
        &&& str_member(js[0]->Object_0@[0], "mode"@, mode_name(rs[0].mode))
        &&& js[0]->Object_0@[1].0@ == "report"@
        &&& is_report_json(js[0]->Object_0@[1].1, rs[0])
        &&& result_entries(js.subrange(1, js.len() as int), rs.subrange(1, rs.len() as int))
    }
}

/// Findings as a JSON array of `{path, message}`.
pub fn findings_json(fs: &Vec<Finding>) -> (r: Json)
    ensures
        is_findings_json(r, findings_view(fs@)),
{
    let mut out: Vec<Json> = Vec::new();
    let mut i: usize = 0;
    while i < fs.len()
        invariant
            i <= fs@.len(),
            out@.len() == i,
            forall|k: int| 0 <= k < i ==> is_finding_json(#[trigger] out@[k], findings_view(fs@)[k]),
        decreases fs@.len() - i,
    {
        let mut es: Vec<(String, Json)> = Vec::new();
        es.push((owned("path"), Json::Str(fs[i].path.clone())));
        es.push((owned("message"), Json::Str(fs[i].message.clone())));
        out.push(Json::Object(es));
        i = i + 1;
    }
    Json::Array(out)
}

proof fn lemma_result_entries_push(js: Seq<Json>, rs: Seq<Report>, j: Json, r: Report)
    requires
        js.len() == rs.len(),
        result_entries(js, rs),
        j is Object,
        j->Object_0@.len() == 2,
        str_member(j->Object_0@[0], "mode"@, mode_name(r.mode)),
        j->Object_0@[1].0@ == "report"@,
        is_report_json(j->Object_0@[1].1, r),
    ensures
        result_entries(js.push(j), rs.push(r)),
    decreases rs.len(),
{
    if rs.len() > 0 {
        lemma_result_entries_push(
            js.subrange(1, js.len() as int),
            rs.subrange(1, rs.len() as int),
            j,
            r,
        );
        assert(js.push(j).subrange(1, js.len() as int + 1) =~= js.subrange(1, js.len() as int).push(j));
        assert(rs.push(r).subrange(1, rs.len() as int + 1) =~= rs.subrange(1, rs.len() as int).push(r));
        assert(js.push(j)[0] == js[0]);
        assert(rs.push(r)[0] == rs[0]);
    } else {
        assert(js.push(j).subrange(1, 1) =~= Seq::<Json>::empty());
        assert(rs.push(r).subrange(1, 1) =~= Seq::<Report>::empty());
        assert(result_entries(Seq::<Json>::empty(), Seq::<Report>::empty()));
        assert(js.push(j)[0] == j);
        assert(rs.push(r)[0] == r);
    }
}

/// The envelope of a report (see `is_report_json`).
pub fn report_json(r: &Report) -> (j: Json)
    ensures
        is_report_json(j, *r),
    decreases *r,
{
    let mut es: Vec<(String, Json)> = Vec::new();
    es.push((owned("mode"), Json::Str(owned(r.mode.as_str()))));
    es.push((owned("path"), Json::Str(r.path.clone())));
    let mut entries: Vec<Json> = Vec::new();
    let mut i: usize = 0;
    while i < r.results.len()
        invariant
            i <= r.results@.len(),
            entries@.len() == i,
            result_entries(entries@, r.results@.subrange(0, i as int)),
        decreases r.results@.len() - i,
    {
        proof {
            assert(decreases_to!(*r => r.results));
            assert(decreases_to!(r.results => r.results@));
            assert(decreases_to!(r.results@ => r.results@[i as int]));
        }
        let sub = report_json(&r.results[i]);
        let mut pair: Vec<(String, Json)> = Vec::new();
        pair.push((owned("mode"), Json::Str(owned(r.results[i].mode.as_str()))));
        pair.push((owned("report"), sub));
        let entry = Json::Object(pair);
        proof {
            lemma_result_entries_push(
                entries@,
                r.results@.subrange(0, i as int),
                entry,
                r.results@[i as int],
            );
            assert(r.results@.subrange(0, i as int).push(r.results@[i as int]) =~= r.results@.subrange(
                0,
                i + 1,
            ));
        }
        entries.push(entry);
        i = i + 1;
    }
    assert(r.results@.subrange(0, r.results@.len() as int) =~= r.results@);
    let has_results = r.results.len() > 0;
    let results = Json::Array(entries);
    if r.mode == ValidateMode::All {
        es.push((owned("results"), results));
    } else {
        es.push((owned("errors"), findings_json(&r.errors)));
        es.push((owned("warnings"), findings_json(&r.warnings)));
        if has_results {
            es.push((owned("results"), results));
        }
        match &r.skipped {
            Some(msg) => {
                es.push((owned("skipped"), Json::Bool(true)));
                es.push((owned("message"), Json::Str(msg.clone())));
            },
            None => {},
        }
    }
    Json::Object(es)
}


// ---------------------------------------------------------------------
// Exit status and the printed payload.
// ---------------------------------------------------------------------

/// A report, or one folded into it, has an error.
pub open spec fn has_errors(r: Report) -> bool
    decreases r, 1nat,
{
    r.errors@.len() > 0 || any_errors(r.results@)
}

/// One of the reports has an error.
pub open spec fn any_errors(rs: Seq<Report>) -> bool
    decreases rs, 0nat,
{
    rs.len() > 0 && (has_errors(rs[0]) || any_errors(rs.subrange(1, rs.len() as int)))
}

/// Executable `has_errors`.
pub fn report_has_errors(r: &Report) -> (b: bool)
    ensures
        b == has_errors(*r),
    decreases *r,
{
    if r.errors.len() > 0 {
        return true;
    }
    let mut i: usize = 0;
    assert(r.results@.subrange(0, r.results@.len() as int) =~= r.results@);
    while i < r.results.len()
        invariant
            i <= r.results@.len(),
            any_errors(r.results@) == any_errors(
                r.results@.subrange(i as int, r.results@.len() as int),
            ),
        decreases r.results@.len() - i,
    {
        let ghost rest = r.results@.subrange(i as int, r.results@.len() as int);
        assert(rest.subrange(1, rest.len() as int) =~= r.results@.subrange(
            i + 1,
            r.results@.len() as int,
        ));
        assert(rest[0] == r.results@[i as int]);
        proof {
            assert(decreases_to!(*r => r.results));
            assert(decreases_to!(r.results => r.results@));
            assert(decreases_to!(r.results@ => r.results@[i as int]));
        }
        if report_has_errors(&r.results[i]) {
            return true;
        }
        i = i + 1;
    }
    false
}

/// The exit status of a `validate` run: a failure's own code; for a
/// report, 1 when it (or a report folded into it) has an error, else 0.
pub fn exit_status(outcome: &Result<Report, VectisError>) -> (c: u8)
    ensures
        match outcome {
            Ok(r) => c == (if has_errors(*r) {
                1u8
            } else {
                0u8
            }),
            Err(e) => c == (if *e is MissingPrerequisites {
                2u8
            } else {
                1u8
            }),
        },
{
    match outcome {
        Ok(r) => if report_has_errors(r) {
            1
        } else {
            0
        },
        Err(e) => if e.exit_code() == 2 {
            2
        } else {
            1
        },
    }
}

/// The payload a `validate` run prints: the report's envelope, or the
/// failure's structured shape.
pub fn outcome_json(outcome: &Result<Report, VectisError>) -> (j: Json)
    ensures
        match outcome {
            Ok(r) => is_report_json(j, *r),
            Err(e) => crate::error::is_error_json(j, *e),
        },
{
    match outcome {
        Ok(r) => report_json(r),
        Err(e) => e.to_json(),
    }
}

/// Put the JSON contract version first in an object payload:
/// `schema-version: 2`, then the payload's own members.
pub fn envelope(payload: Json) -> (j: Json)
    requires
        payload is Object,
    ensures
        j is Object,
        j->Object_0@.len() == payload->Object_0@.len() + 1,
        j->Object_0@[0].0@ == "schema-version"@,
        j->Object_0@[0].1 is Number,
        j->Object_0@[0].1->Number_0@ == "2"@,
        j->Object_0@.subrange(1, j->Object_0@.len() as int) == payload->Object_0@,
{
    match payload {
        Json::Object(es) => {
            let mut out: Vec<(String, Json)> = Vec::new();
            out.push((owned("schema-version"), Json::Number(owned("2"))));
            let mut rest = es;
            let ghost es0 = rest@;
            out.append(&mut rest);
            assert(out@.subrange(1, out@.len() as int) =~= es0);
            Json::Object(out)
        },
        _ => Json::Object(Vec::new()),
    }
}


// ---------------------------------------------------------------------
// Laws.
// ---------------------------------------------------------------------

proof fn lemma_any_errors(rs: Seq<Report>)
    ensures
        any_errors(rs) <==> exists|k: int| 0 <= k < rs.len() && has_errors(#[trigger] rs[k]),
    decreases rs.len(),
{
    if rs.len() > 0 {
        let t = rs.subrange(1, rs.len() as int);
        lemma_any_errors(t);
        if any_errors(rs) {
            if !has_errors(rs[0]) {
                let k = choose|k: int| 0 <= k < t.len() && has_errors(#[trigger] t[k]);
                assert(rs[k + 1] == t[k]);
            }
        }
        if exists|k: int| 0 <= k < rs.len() && has_errors(#[trigger] rs[k]) {
            let k = choose|k: int| 0 <= k < rs.len() && has_errors(#[trigger] rs[k]);
            if k > 0 {
                assert(t[k - 1] == rs[k]);
            }
        }
    }
}

/// A report with no errors of its own and nothing folded in (such as
/// the sub-report of a mode whose input is missing) never fails a run.
pub proof fn law_skipped_report_passes(r: Report)
    requires
        r.errors@.len() == 0,
        r.results@.len() == 0,
    ensures
        !has_errors(r),
{
}

/// `validate all` fails exactly when one of its sub-reports has an
/// error.
pub proof fn law_all_fails_only_on_sub_report_errors(
    r: Report,
    root: Seq<char>,
    subs: Seq<Result<Report, VectisError>>,
)
    requires
        forall|k: int| 0 <= k < subs.len() ==> (#[trigger] subs[k]) is Ok,
        all_outcome(Ok(r), root, subs),
    ensures
        has_errors(r) <==> exists|k: int| 0 <= k < subs.len() && has_errors(#[trigger] subs[k]->Ok_0),
{
    let rs = subs.map_values(|s: Result<Report, VectisError>| s->Ok_0);
    lemma_any_errors(rs);
    assert(r.results@ == rs);
    if has_errors(r) {
        let k = choose|k: int| 0 <= k < rs.len() && has_errors(#[trigger] rs[k]);
        assert(rs[k] == subs[k]->Ok_0);
    }
    if exists|k: int| 0 <= k < subs.len() && has_errors(#[trigger] subs[k]->Ok_0) {
        let k = choose|k: int| 0 <= k < subs.len() && has_errors(#[trigger] subs[k]->Ok_0);
        assert(rs[k] == subs[k]->Ok_0);
    }
}

} // verus!
