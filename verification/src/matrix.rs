//! The `--verify` matrix of `update-versions`: the capability
//! combinations every bump is built with, the verdict on one
//! combination, and the pins file the combinations are scaffolded from.

use vstd::prelude::*;

use crate::json::{get, Json};
use crate::text::owned;
use crate::versions::Versions;

verus! {

/// The `--caps` strings the verify gate exercises: render-only, `http`
/// alone, two capabilities, every capability.
pub open spec fn cap_matrix() -> Seq<Seq<char>> {
    seq![""@, "http"@, "http,kv"@, "http,kv,time,platform,sse"@]
}

/// The verify gate's capability combinations.
pub fn cap_matrix_rows() -> (r: Vec<&'static str>)
    ensures
        r@.map_values(|s: &str| s@) == cap_matrix(),
{
    let mut out: Vec<&'static str> = Vec::new();
    out.push("");
    out.push("http");
    out.push("http,kv");
    out.push("http,kv,time,platform,sse");
    assert(out@.map_values(|s: &str| s@) =~= cap_matrix());
    out
}

/// The outcome of one combination: its capabilities, whether it passed,
/// the verify report when verify ran, and why it failed otherwise.
#[derive(Debug)]
pub struct ComboResult {
    pub caps: String,
    pub passed: bool,
    pub verify: Option<Json>,
    pub error: Option<String>,
}

/// The outcome of the whole matrix.
#[derive(Debug)]
pub struct MatrixResult {
    pub passed: bool,
    pub combos: Vec<ComboResult>,
}

/// What running verify on a scaffolded combination gave: its report, a
/// stub, or a failure (by its display text).
pub enum VerifyOutcome {
    Report(Json),
    Stub,
    Failed(String),
}

/// What running one combination gave: `init` failed (its display text),
/// or it succeeded and verify ran.
pub enum ComboRun {
    InitFailed(String),
    Verified(VerifyOutcome),
}

/// The verdict on one combination: a failed `init` fails it with
/// `init failed: <error>`; otherwise it passes exactly when verify's
/// report says `passed: true`; a stub or a verify failure fails it.
pub open spec fn combo_ok(caps: Seq<char>, run: ComboRun, r: ComboResult) -> bool {
    &&& r.caps@ == caps
    &&& match run {
        ComboRun::InitFailed(e) => !r.passed && r.verify is None && r.error is Some
            && r.error->Some_0@ == "init failed: "@ + e@,
        ComboRun::Verified(VerifyOutcome::Report(j)) => r.passed == (get(j, "passed"@) == Some(
            Json::Bool(true),
        )) && r.verify == Some(j) && r.error is None,
        ComboRun::Verified(VerifyOutcome::Stub) => !r.passed && r.verify is None && r.error is Some
            && r.error->Some_0@ == "verify returned an unexpected Stub outcome"@,
        ComboRun::Verified(VerifyOutcome::Failed(e)) => !r.passed && r.verify is None
            && r.error is Some && r.error->Some_0@ == "verify failed: "@ + e@,
    }
}

/// Judge one combination (see `combo_ok`).
pub fn combo_result(caps: &str, run: ComboRun) -> (r: ComboResult)
    ensures
        combo_ok(caps@, run, r),
{
    match run {
        ComboRun::InitFailed(e) => ComboResult {
            caps: owned(caps),
            passed: false,
            verify: None,
            error: Some(crate::text::cat("init failed: ", e.as_str())),
        },
        ComboRun::Verified(VerifyOutcome::Report(j)) => {
            let passed = match j.get("passed") {
                Some(Json::Bool(b)) => *b,
                _ => false,
            };
            ComboResult { caps: owned(caps), passed, verify: Some(j), error: None }
        },
        ComboRun::Verified(VerifyOutcome::Stub) => ComboResult {
            caps: owned(caps),
            passed: false,
            verify: None,
            error: Some(owned("verify returned an unexpected Stub outcome")),
        },
        ComboRun::Verified(VerifyOutcome::Failed(e)) => ComboResult {
            caps: owned(caps),
            passed: false,
            verify: None,
            error: Some(crate::text::cat("verify failed: ", e.as_str())),
        },
    }
}

/// The matrix passes exactly when every combination passed.
pub fn matrix_result(combos: Vec<ComboResult>) -> (r: MatrixResult)
    ensures
        r.combos@ == combos@,
        r.passed == forall|k: int| 0 <= k < combos@.len() ==> (#[trigger] combos@[k]).passed,
{
    let mut passed = true;
    let mut i: usize = 0;
    while i < combos.len()
        invariant
            i <= combos@.len(),
            passed == forall|k: int| 0 <= k < i ==> (#[trigger] combos@[k]).passed,
        decreases combos@.len() - i,
    {
        passed = passed && combos[i].passed;
        i = i + 1;
    }
    MatrixResult { passed, combos }
}

/// The pins as the TOML document the pins file holds: `[crux]`,
/// `[android]` (with `ndk` only when pinned), an empty `[ios]`, and
/// `[tooling]`, values quoted as they are.
pub open spec fn pins_toml(v: Versions) -> Seq<char> {
    "[crux]\n"@
        + "crux_core     = \""@ + v.crux.crux_core@ + "\"\n"@
        + "crux_http     = \""@ + v.crux.crux_http@ + "\"\n"@
        + "crux_kv       = \""@ + v.crux.crux_kv@ + "\"\n"@
        + "crux_time     = \""@ + v.crux.crux_time@ + "\"\n"@
        + "crux_platform = \""@ + v.crux.crux_platform@ + "\"\n"@
        + "facet           = \""@ + v.crux.facet@ + "\"\n"@
        + "facet_generate  = \""@ + v.crux.facet_generate@ + "\"\n"@
        + "serde           = \""@ + v.crux.serde@ + "\"\n"@
        + "serde_json      = \""@ + v.crux.serde_json@ + "\"\n"@
        + "uniffi      = \""@ + v.crux.uniffi@ + "\"\n"@
        + "cargo_swift = \""@ + v.crux.cargo_swift@ + "\"\n"@
        + "\n[android]\n"@
        + "compose_bom = \""@ + v.android.compose_bom@ + "\"\n"@
        + "koin        = \""@ + v.android.koin@ + "\"\n"@
        + "ktor        = \""@ + v.android.ktor@ + "\"\n"@
        + "kotlin      = \""@ + v.android.kotlin@ + "\"\n"@
        + "agp         = \""@ + v.android.agp@ + "\"\n"@
        + "gradle      = \""@ + v.android.gradle@ + "\"\n"@
        + match v.android.ndk {
            Some(n) => "ndk         = \""@ + n@ + "\"\n"@,
            None => Seq::empty(),
        } + "\n[ios]\n\n[tooling]\n"@
        + "cargo_deny = \""@ + v.tooling.cargo_deny@ + "\"\n"@
        + "cargo_vet  = \""@ + v.tooling.cargo_vet@ + "\"\n"@
        + "xcodegen   = \""@ + v.tooling.xcodegen@ + "\"\n"@
}

/// Render the pins as the TOML document the pins file holds.
pub fn render_pins_toml(v: &Versions) -> (r: String)
    ensures
        r@ == pins_toml(*v),
{
    let mut out = owned("[crux]\n");
    out.append("crux_core     = \"");
    out.append(v.crux.crux_core.as_str());
    out.append("\"\n");
    out.append("crux_http     = \"");
    out.append(v.crux.crux_http.as_str());
    out.append("\"\n");
    out.append("crux_kv       = \"");
    out.append(v.crux.crux_kv.as_str());
    out.append("\"\n");
    out.append("crux_time     = \"");
    out.append(v.crux.crux_time.as_str());
    out.append("\"\n");
    out.append("crux_platform = \"");
    out.append(v.crux.crux_platform.as_str());
    out.append("\"\n");
    out.append("facet           = \"");
    out.append(v.crux.facet.as_str());
    out.append("\"\n");
    out.append("facet_generate  = \"");
    out.append(v.crux.facet_generate.as_str());
    out.append("\"\n");
    out.append("serde           = \"");
    out.append(v.crux.serde.as_str());
    out.append("\"\n");
    out.append("serde_json      = \"");
    out.append(v.crux.serde_json.as_str());
    out.append("\"\n");
    out.append("uniffi      = \"");
    out.append(v.crux.uniffi.as_str());
    out.append("\"\n");
    out.append("cargo_swift = \"");
    out.append(v.crux.cargo_swift.as_str());
    out.append("\"\n");
    out.append("\n[android]\n");
    out.append("compose_bom = \"");
    out.append(v.android.compose_bom.as_str());
    out.append("\"\n");
    out.append("koin        = \"");
    out.append(v.android.koin.as_str());
    out.append("\"\n");
    out.append("ktor        = \"");
    out.append(v.android.ktor.as_str());
    out.append("\"\n");
    out.append("kotlin      = \"");
    out.append(v.android.kotlin.as_str());
    out.append("\"\n");
    out.append("agp         = \"");
    out.append(v.android.agp.as_str());
    out.append("\"\n");
    out.append("gradle      = \"");
    out.append(v.android.gradle.as_str());
    out.append("\"\n");
    match &v.android.ndk {
        Some(n) => {
            out.append("ndk         = \"");
            out.append(n.as_str());
            out.append("\"\n");
        },
        None => {
            proof {
                reveal_strlit("");
            }
        },
    }
    out.append("\n[ios]\n\n[tooling]\n");
    out.append("cargo_deny = \"");
    out.append(v.tooling.cargo_deny.as_str());
    out.append("\"\n");
    out.append("cargo_vet  = \"");
    out.append(v.tooling.cargo_vet.as_str());
    out.append("\"\n");
    out.append("xcodegen   = \"");
    out.append(v.tooling.xcodegen.as_str());
    out.append("\"\n");
    out
}

} // verus!
