//! `update-versions`: propose a bump from the registries' answers, and
//! report which pins change.

use vstd::prelude::*;

use crate::error::{error_display, VectisError};
use crate::query::{texts, VersionHit};
use crate::text::owned;
use crate::versions::{Android, Crux, Ios, Tooling, Versions};

verus! {

// ---------------------------------------------------------------------
// Pins as key/value pairs.
// ---------------------------------------------------------------------

/// The pins as (key, value) pairs, in the order of the pins file
/// (`ndk` is not listed).
pub open spec fn pin_pairs(v: Versions) -> Seq<(Seq<char>, Seq<char>)> {
    seq![
        ("crux.crux_core"@, v.crux.crux_core@),
        ("crux.crux_http"@, v.crux.crux_http@),
        ("crux.crux_kv"@, v.crux.crux_kv@),
        ("crux.crux_time"@, v.crux.crux_time@),
        ("crux.crux_platform"@, v.crux.crux_platform@),
        ("crux.facet"@, v.crux.facet@),
        ("crux.facet_generate"@, v.crux.facet_generate@),
        ("crux.serde"@, v.crux.serde@),
        ("crux.serde_json"@, v.crux.serde_json@),
        ("crux.uniffi"@, v.crux.uniffi@),
        ("crux.cargo_swift"@, v.crux.cargo_swift@),
        ("android.compose_bom"@, v.android.compose_bom@),
        ("android.koin"@, v.android.koin@),
        ("android.ktor"@, v.android.ktor@),
        ("android.kotlin"@, v.android.kotlin@),
        ("android.agp"@, v.android.agp@),
        ("android.gradle"@, v.android.gradle@),
        ("tooling.cargo_deny"@, v.tooling.cargo_deny@),
        ("tooling.cargo_vet"@, v.tooling.cargo_vet@),
        ("tooling.xcodegen"@, v.tooling.xcodegen@),
    ]
}

/// The views of key/value pairs.
pub open spec fn pairs_view(v: Seq<(&str, String)>) -> Seq<(Seq<char>, Seq<char>)> {
    v.map_values(|p: (&str, String)| (p.0@, p.1@))
}

/// The pins as key/value pairs (see `pin_pairs`).
pub fn pairs(v: &Versions) -> (r: Vec<(&'static str, String)>)
    ensures
        pairs_view(r@) == pin_pairs(*v),
{
    let mut out: Vec<(&'static str, String)> = Vec::new();
    out.push(("crux.crux_core", v.crux.crux_core.clone()));
    out.push(("crux.crux_http", v.crux.crux_http.clone()));
    out.push(("crux.crux_kv", v.crux.crux_kv.clone()));
    out.push(("crux.crux_time", v.crux.crux_time.clone()));
    out.push(("crux.crux_platform", v.crux.crux_platform.clone()));
    out.push(("crux.facet", v.crux.facet.clone()));
    out.push(("crux.facet_generate", v.crux.facet_generate.clone()));
    out.push(("crux.serde", v.crux.serde.clone()));
    out.push(("crux.serde_json", v.crux.serde_json.clone()));
    out.push(("crux.uniffi", v.crux.uniffi.clone()));
    out.push(("crux.cargo_swift", v.crux.cargo_swift.clone()));
    out.push(("android.compose_bom", v.android.compose_bom.clone()));
    out.push(("android.koin", v.android.koin.clone()));
    out.push(("android.ktor", v.android.ktor.clone()));
    out.push(("android.kotlin", v.android.kotlin.clone()));
    out.push(("android.agp", v.android.agp.clone()));
    out.push(("android.gradle", v.android.gradle.clone()));
    out.push(("tooling.cargo_deny", v.tooling.cargo_deny.clone()));
    out.push(("tooling.cargo_vet", v.tooling.cargo_vet.clone()));
    out.push(("tooling.xcodegen", v.tooling.xcodegen.clone()));
    assert(pairs_view(out@) =~= pin_pairs(*v));
    out
}

/// A pin whose value changes.
#[derive(Debug, Clone)]
pub struct Change {
    pub key: String,
    pub current: String,
    pub proposed: String,
}

/// A pin whose value stays.
#[derive(Debug, Clone)]
pub struct Unchanged {
    pub key: String,
    pub value: String,
}

/// The (key, current, proposed) triples of the first `n` pairs whose
/// values differ, in order.
pub open spec fn changed(
    cur: Seq<(Seq<char>, Seq<char>)>,
    pro: Seq<(Seq<char>, Seq<char>)>,
    n: int,
) -> Seq<(Seq<char>, Seq<char>, Seq<char>)>
    decreases n,
{
    if n <= 0 {
        Seq::empty()
    } else {
        changed(cur, pro, n - 1) + if cur[n - 1].1 != pro[n - 1].1 {
            seq![(cur[n - 1].0, cur[n - 1].1, pro[n - 1].1)]
        } else {
            Seq::empty()
        }
    }
}

/// The (key, value) pairs of the first `n` pairs whose values agree, in
/// order.
pub open spec fn kept(
    cur: Seq<(Seq<char>, Seq<char>)>,
    pro: Seq<(Seq<char>, Seq<char>)>,
    n: int,
) -> Seq<(Seq<char>, Seq<char>)>
    decreases n,
{
    if n <= 0 {
        Seq::empty()
    } else {
        kept(cur, pro, n - 1) + if cur[n - 1].1 == pro[n - 1].1 {
            seq![(cur[n - 1].0, cur[n - 1].1)]
        } else {
            Seq::empty()
        }
    }
}

/// The views of changes.
pub open spec fn changes_view(v: Seq<Change>) -> Seq<(Seq<char>, Seq<char>, Seq<char>)> {
    v.map_values(|c: Change| (c.key@, c.current@, c.proposed@))
}

/// The views of unchanged pins.
pub open spec fn unchanged_view(v: Seq<Unchanged>) -> Seq<(Seq<char>, Seq<char>)> {
    v.map_values(|u: Unchanged| (u.key@, u.value@))
}

/// The pins whose value the proposal changes, in pin order.
pub fn diff_fields(current: &Versions, proposed: &Versions) -> (r: Vec<Change>)
    ensures
        changes_view(r@) == changed(pin_pairs(*current), pin_pairs(*proposed), 20),
{
    let cur = pairs(current);
    let pro = pairs(proposed);
    assert(pairs_view(cur@).len() == cur@.len());
    assert(pairs_view(pro@).len() == pro@.len());
    assert(pin_pairs(*current).len() == 20);
    assert(pin_pairs(*proposed).len() == 20);
    let mut out: Vec<Change> = Vec::new();
    let mut i: usize = 0;
    while i < cur.len()
        invariant
            i <= cur@.len(),
            cur@.len() == 20,
            pro@.len() == 20,
            pairs_view(cur@) == pin_pairs(*current),
            pairs_view(pro@) == pin_pairs(*proposed),
            changes_view(out@) == changed(pin_pairs(*current), pin_pairs(*proposed), i as int),
        decreases cur@.len() - i,
    {
        let ghost before = changes_view(out@);
        assert(pairs_view(cur@)[i as int] == (cur@[i as int].0@, cur@[i as int].1@));
        assert(pairs_view(pro@)[i as int] == (pro@[i as int].0@, pro@[i as int].1@));
        if !crate::text::str_eq(cur[i].1.as_str(), pro[i].1.as_str()) {
            out.push(
                Change {
                    key: owned(cur[i].0),
                    current: cur[i].1.clone(),
                    proposed: pro[i].1.clone(),
                },
            );
            assert(changes_view(out@) =~= before.push((cur@[i as int].0@, cur@[i as int].1@, pro@[i as int].1@)));
        }
        i = i + 1;
    }
    out
}

/// The pins whose value the proposal keeps, in pin order.
pub fn unchanged_fields(current: &Versions, proposed: &Versions) -> (r: Vec<Unchanged>)
    ensures
        unchanged_view(r@) == kept(pin_pairs(*current), pin_pairs(*proposed), 20),
{
    let cur = pairs(current);
    let pro = pairs(proposed);
    assert(pairs_view(cur@).len() == cur@.len());
    assert(pairs_view(pro@).len() == pro@.len());
    assert(pin_pairs(*current).len() == 20);
    assert(pin_pairs(*proposed).len() == 20);
    let mut out: Vec<Unchanged> = Vec::new();
    let mut i: usize = 0;
    while i < cur.len()
        invariant
            i <= cur@.len(),
            cur@.len() == 20,
            pro@.len() == 20,
            pairs_view(cur@) == pin_pairs(*current),
            pairs_view(pro@) == pin_pairs(*proposed),
            unchanged_view(out@) == kept(pin_pairs(*current), pin_pairs(*proposed), i as int),
        decreases cur@.len() - i,
    {
        let ghost before = unchanged_view(out@);
        assert(pairs_view(cur@)[i as int] == (cur@[i as int].0@, cur@[i as int].1@));
        assert(pairs_view(pro@)[i as int] == (pro@[i as int].0@, pro@[i as int].1@));
        if crate::text::str_eq(cur[i].1.as_str(), pro[i].1.as_str()) {
            out.push(Unchanged { key: owned(cur[i].0), value: cur[i].1.clone() });
            assert(unchanged_view(out@) =~= before.push((cur@[i as int].0@, cur@[i as int].1@)));
        }
        i = i + 1;
    }
    out
}

proof fn lemma_partition(cur: Seq<(Seq<char>, Seq<char>)>, pro: Seq<(Seq<char>, Seq<char>)>, n: int)
    requires
        0 <= n,
    ensures
        changed(cur, pro, n).len() + kept(cur, pro, n).len() == n,
    decreases n,
{
    if n > 0 {
        lemma_partition(cur, pro, n - 1);
    }
}

proof fn lemma_no_change(cur: Seq<(Seq<char>, Seq<char>)>, n: int)
    requires
        0 <= n,
    ensures
        changed(cur, cur, n).len() == 0,
        kept(cur, cur, n).len() == n,
    decreases n,
{
    if n > 0 {
        lemma_no_change(cur, n - 1);
    }
}

/// Every pin is reported exactly once: as a change or as unchanged, so
/// the two lists together cover all pins.
pub proof fn law_changes_complement_unchanged(current: Versions, proposed: Versions)
    ensures
        changed(pin_pairs(current), pin_pairs(proposed), 20).len() + kept(
            pin_pairs(current),
            pin_pairs(proposed),
            20,
        ).len() == pin_pairs(current).len(),
{
    lemma_partition(pin_pairs(current), pin_pairs(proposed), 20);
}

/// Proposing the current pins changes nothing, and reports every pin as
/// unchanged.
pub proof fn law_no_diff_without_change(v: Versions)
    ensures
        changed(pin_pairs(v), pin_pairs(v), 20).len() == 0,
        kept(pin_pairs(v), pin_pairs(v), 20).len() == 20,
{
    lemma_no_change(pin_pairs(v), 20);
}

// ---------------------------------------------------------------------
// Proposing pins.
// ---------------------------------------------------------------------

/// A proposed value, and the probe failure when the current value was
/// kept because of one.
#[derive(Debug)]
pub struct ProposedField {
    pub value: String,
    pub probe_error: Option<String>,
}

impl ProposedField {
    /// Keep the current value, with no failure.
    pub fn current(value: String) -> (r: ProposedField)
        ensures
            r.value@ == value@,
            r.probe_error is None,
    {
        ProposedField { value, probe_error: None }
    }
}

/// The value a registry answer proposes: the answer's version, or the
/// current value when the query failed.
pub open spec fn queried(current: Seq<char>, outcome: Result<VersionHit, VectisError>) -> Seq<char> {
    match outcome {
        Ok(h) => h.version@,
        Err(_) => current,
    }
}

/// The error line a failed registry answer records.
pub open spec fn query_errs(context: Seq<char>, outcome: Result<VersionHit, VectisError>) -> Seq<
    Seq<char>,
> {
    match outcome {
        Ok(_) => Seq::empty(),
        Err(e) => seq![context + ": "@ + error_display(e)],
    }
}

/// The value a derivation proposes: the derived value, or the current
/// value when the derivation failed or was not attempted.
pub open spec fn derived(current: Seq<char>, outcome: Option<Result<String, VectisError>>) -> Seq<
    char,
> {
    match outcome {
        Some(Ok(v)) => v@,
        _ => current,
    }
}

/// The error line a failed derivation records.
pub open spec fn derive_errs(context: Seq<char>, outcome: Option<Result<String, VectisError>>) -> Seq<
    Seq<char>,
> {
    match outcome {
        Some(Err(e)) => seq![context + ": "@ + error_display(e)],
        _ => Seq::empty(),
    }
}

/// Take a registry answer: its version, or keep `current` and record
/// the failure under `context`.
pub fn try_query(current: &str, outcome: Result<VersionHit, VectisError>, context: &str) -> (r:
    ProposedField)
    ensures
        r.value@ == queried(current@, outcome),
        match r.probe_error {
            Some(e) => seq![e@] == query_errs(context@, outcome),
            None => query_errs(context@, outcome).len() == 0,
        },
{
    match outcome {
        Ok(hit) => ProposedField { value: hit.version, probe_error: None },
        Err(err) => {
            let mut msg = crate::text::cat(context, ": ");
            let d = err.display_text();
            msg.append(d.as_str());
            ProposedField { value: owned(current), probe_error: Some(msg) }
        },
    }
}

/// Take a derived value: it, or keep `current` and record the failure
/// under `context`.
pub fn try_derive(current: &str, outcome: Result<String, VectisError>, context: &str) -> (r:
    ProposedField)
    ensures
        r.value@ == derived(current@, Some(outcome)),
        match r.probe_error {
            Some(e) => seq![e@] == derive_errs(context@, Some(outcome)),
            None => derive_errs(context@, Some(outcome)).len() == 0,
        },
{
    match outcome {
        Ok(value) => ProposedField { value, probe_error: None },
        Err(err) => {
            let mut msg = crate::text::cat(context, ": ");
            let d = err.display_text();
            msg.append(d.as_str());
            ProposedField { value: owned(current), probe_error: Some(msg) }
        },
    }
}

/// Record a probe failure, if there is one.
pub fn record_err(errors: &mut Vec<String>, probe_error: &Option<String>)
    ensures
        texts(final(errors)@) == texts(old(errors)@) + match probe_error {
            Some(e) => seq![e@],
            None => Seq::empty(),
        },
{
    let ghost before = texts(errors@);
    match probe_error {
        Some(e) => {
            errors.push(e.clone());
            assert(texts(errors@) =~= before.push(e@));
        },
        None => {
            assert(texts(errors@) =~= before);
        },
    }
}

/// The registry answers a proposal is built from. A derived pin
/// (`facet`, `facet_generate` from `crux_core`'s dependencies; `uniffi`
/// from `cargo-swift`'s) is only asked for when the pin it derives from
/// resolved.
pub struct Probes {
    pub crux_core: Result<VersionHit, VectisError>,
    pub crux_http: Result<VersionHit, VectisError>,
    pub crux_kv: Result<VersionHit, VectisError>,
    pub crux_time: Result<VersionHit, VectisError>,
    pub crux_platform: Result<VersionHit, VectisError>,
    pub facet: Option<Result<String, VectisError>>,
    pub facet_generate: Option<Result<String, VectisError>>,
    pub serde: Result<VersionHit, VectisError>,
    pub serde_json: Result<VersionHit, VectisError>,
    pub cargo_swift: Result<VersionHit, VectisError>,
    pub uniffi: Option<Result<String, VectisError>>,
    pub compose_bom: Result<VersionHit, VectisError>,
    pub kotlin: Result<VersionHit, VectisError>,
    pub agp: Result<VersionHit, VectisError>,
    pub koin: Result<VersionHit, VectisError>,
    pub ktor: Result<VersionHit, VectisError>,
    pub cargo_deny: Result<VersionHit, VectisError>,
    pub cargo_vet: Result<VersionHit, VectisError>,
    pub xcodegen: Result<VersionHit, VectisError>,
}

/// The derived answers are present exactly when their base resolved.
pub open spec fn probes_consistent(p: Probes) -> bool {
    &&& (p.facet is Some <==> p.crux_core is Ok)
    &&& (p.facet_generate is Some <==> p.crux_core is Ok)
    &&& (p.uniffi is Some <==> p.cargo_swift is Ok)
}

/// The failures a proposal records, in probe order.
pub open spec fn proposal_errors(p: Probes) -> Seq<Seq<char>> {
        query_errs("crates.io: crux_core"@, p.crux_core) +
        query_errs("crates.io: crux_http"@, p.crux_http) +
        query_errs("crates.io: crux_kv"@, p.crux_kv) +
        query_errs("crates.io: crux_time"@, p.crux_time) +
        query_errs("crates.io: crux_platform"@, p.crux_platform) +
        derive_errs("crates.io: crux_core deps (facet)"@, p.facet) +
        derive_errs("crates.io: crux_core deps (facet_generate)"@, p.facet_generate) +
        query_errs("crates.io: serde"@, p.serde) +
        query_errs("crates.io: serde_json"@, p.serde_json) +
        query_errs("crates.io: cargo-swift"@, p.cargo_swift) +
        derive_errs("crates.io: cargo-swift deps (uniffi_bindgen)"@, p.uniffi) +
        query_errs("google maven: compose-bom"@, p.compose_bom) +
        query_errs("maven central: kotlin-stdlib"@, p.kotlin) +
        query_errs("google maven: com.android.application"@, p.agp) +
        query_errs("maven central: koin-bom"@, p.koin) +
        query_errs("maven central: ktor-bom"@, p.ktor) +
        query_errs("crates.io: cargo-deny"@, p.cargo_deny) +
        query_errs("crates.io: cargo-vet"@, p.cargo_vet) +
        query_errs("github: yonaskolb/XcodeGen"@, p.xcodegen)
}

// ---------------------------------------------------------------------
// The registry questions behind a proposal.
// ---------------------------------------------------------------------

/// A question for the newest stable version of something.
#[derive(Debug, Clone, Copy)]
pub enum LatestQuery {
    /// A crate on crates.io.
    Crate(&'static str),
    /// A group and artifact on Google Maven.
    GoogleMaven(&'static str, &'static str),
    /// A group and artifact on Maven Central.
    MavenCentral(&'static str, &'static str),
    /// An owner and repository's latest GitHub release.
    GithubRelease(&'static str, &'static str),
}

/// A question for the requirement a crate version places on one of its
/// dependencies.
#[derive(Debug, Clone)]
pub struct DepQuery {
    pub krate: &'static str,
    pub version: String,
    pub dep: &'static str,
}

/// A question as plain values: its registry (0 crates.io, 1 Google
/// Maven, 2 Maven Central, 3 GitHub) and its two names (the second empty
/// for a crate).
pub open spec fn latest_view(q: LatestQuery) -> (int, Seq<char>, Seq<char>) {
    match q {
        LatestQuery::Crate(c) => (0, c@, Seq::empty()),
        LatestQuery::GoogleMaven(g, a) => (1, g@, a@),
        LatestQuery::MavenCentral(g, a) => (2, g@, a@),
        LatestQuery::GithubRelease(o, r) => (3, o@, r@),
    }
}

/// The questions asked first, one per pin that has its own answer:
/// crux_core, crux_http, crux_kv, crux_time, crux_platform, serde,
/// serde_json, cargo-swift, compose-bom, kotlin, agp, koin, ktor,
/// cargo-deny, cargo-vet, xcodegen.
pub open spec fn latest_plan() -> Seq<(int, Seq<char>, Seq<char>)> {
    seq![
        (0, "crux_core"@, Seq::empty()),
        (0, "crux_http"@, Seq::empty()),
        (0, "crux_kv"@, Seq::empty()),
        (0, "crux_time"@, Seq::empty()),
        (0, "crux_platform"@, Seq::empty()),
        (0, "serde"@, Seq::empty()),
        (0, "serde_json"@, Seq::empty()),
        (0, "cargo-swift"@, Seq::empty()),
        (1, "androidx.compose"@, "compose-bom"@),
        (2, "org.jetbrains.kotlin"@, "kotlin-stdlib"@),
        (1, "com.android.application"@, "com.android.application.gradle.plugin"@),
        (2, "io.insert-koin"@, "koin-bom"@),
        (2, "io.ktor"@, "ktor-bom"@),
        (0, "cargo-deny"@, Seq::empty()),
        (0, "cargo-vet"@, Seq::empty()),
        (3, "yonaskolb"@, "XcodeGen"@),
    ]
}

/// The questions asked first (see `latest_plan`).
pub fn latest_queries() -> (r: Vec<LatestQuery>)
    ensures
        r@.map_values(|q: LatestQuery| latest_view(q)) == latest_plan(),
{
    let mut v: Vec<LatestQuery> = Vec::new();
    v.push(LatestQuery::Crate("crux_core"));
    v.push(LatestQuery::Crate("crux_http"));
    v.push(LatestQuery::Crate("crux_kv"));
    v.push(LatestQuery::Crate("crux_time"));
    v.push(LatestQuery::Crate("crux_platform"));
    v.push(LatestQuery::Crate("serde"));
    v.push(LatestQuery::Crate("serde_json"));
    v.push(LatestQuery::Crate("cargo-swift"));
    v.push(LatestQuery::GoogleMaven("androidx.compose", "compose-bom"));
    v.push(LatestQuery::MavenCentral("org.jetbrains.kotlin", "kotlin-stdlib"));
    v.push(LatestQuery::GoogleMaven("com.android.application", "com.android.application.gradle.plugin"));
    v.push(LatestQuery::MavenCentral("io.insert-koin", "koin-bom"));
    v.push(LatestQuery::MavenCentral("io.ktor", "ktor-bom"));
    v.push(LatestQuery::Crate("cargo-deny"));
    v.push(LatestQuery::Crate("cargo-vet"));
    v.push(LatestQuery::GithubRelease("yonaskolb", "XcodeGen"));
    assert(v@.map_values(|q: LatestQuery| latest_view(q)) =~= latest_plan());
    v
}

/// The dependency question derived from a base answer: asked only when
/// the base resolved, about the version it resolved to.
pub open spec fn dep_question(
    base: Result<VersionHit, VectisError>,
    krate: Seq<char>,
    dep: Seq<char>,
    q: Option<DepQuery>,
) -> bool {
    match base {
        Ok(hit) => q is Some && q->Some_0.krate@ == krate && q->Some_0.version@ == hit.version@
            && q->Some_0.dep@ == dep,
        Err(_) => q is None,
    }
}

/// The question about `dep` of `krate` at the version `base` resolved to.
fn dep_query_of(base: &Result<VersionHit, VectisError>, krate: &'static str, dep: &'static str) -> (r:
    Option<DepQuery>)
    ensures
        dep_question(*base, krate@, dep@, r),
{
    match base {
        Ok(hit) => Some(DepQuery { krate, version: hit.version.clone(), dep }),
        Err(_) => None,
    }
}

/// The questions asked second, from the answers to `latest_queries`:
/// `facet` and `facet_generate` of the crux_core version found, and
/// `uniffi_bindgen` of the cargo-swift version found; each is asked only
/// when its base resolved.
pub fn dep_queries(answers: &Vec<Result<VersionHit, VectisError>>) -> (r: Vec<Option<DepQuery>>)
    requires
        answers@.len() == latest_plan().len(),
    ensures
        r@.len() == 3,
        dep_question(answers@[0], "crux_core"@, "facet"@, r@[0]),
        dep_question(answers@[0], "crux_core"@, "facet_generate"@, r@[1]),
        dep_question(answers@[7], "cargo-swift"@, "uniffi_bindgen"@, r@[2]),
{
    let mut v: Vec<Option<DepQuery>> = Vec::new();
    v.push(dep_query_of(&answers[0], "crux_core", "facet"));
    v.push(dep_query_of(&answers[0], "crux_core", "facet_generate"));
    v.push(dep_query_of(&answers[7], "cargo-swift", "uniffi_bindgen"));
    v
}

/// Gather the answers into `Probes`: `answers` to `latest_queries` in
/// order, and `derived[k]` the answer to the k-th of `dep_queries` (none
/// where that question was not asked).
pub fn assemble_probes(
    answers: Vec<Result<VersionHit, VectisError>>,
    derived: Vec<Option<Result<String, VectisError>>>,
) -> (p: Probes)
    requires
        answers@.len() == latest_plan().len(),
        derived@.len() == 3,
        derived@[0] is Some <==> answers@[0] is Ok,
        derived@[1] is Some <==> answers@[0] is Ok,
        derived@[2] is Some <==> answers@[7] is Ok,
    ensures
        probes_consistent(p),
        p.crux_core == answers@[0],
        p.crux_http == answers@[1],
        p.crux_kv == answers@[2],
        p.crux_time == answers@[3],
        p.crux_platform == answers@[4],
        p.serde == answers@[5],
        p.serde_json == answers@[6],
        p.cargo_swift == answers@[7],
        p.compose_bom == answers@[8],
        p.kotlin == answers@[9],
        p.agp == answers@[10],
        p.koin == answers@[11],
        p.ktor == answers@[12],
        p.cargo_deny == answers@[13],
        p.cargo_vet == answers@[14],
        p.xcodegen == answers@[15],
        p.facet == derived@[0],
        p.facet_generate == derived@[1],
        p.uniffi == derived@[2],
{
    let ghost a = answers@;
    let ghost d = derived@;
    let mut answers = answers;
    let mut derived = derived;
    let uniffi = derived.pop().unwrap();
    let facet_generate = derived.pop().unwrap();
    let facet = derived.pop().unwrap();
    assert(uniffi == d[2] && facet_generate == d[1] && facet == d[0]);
    let xcodegen = answers.pop().unwrap();
    let cargo_vet = answers.pop().unwrap();
    let cargo_deny = answers.pop().unwrap();
    let ktor = answers.pop().unwrap();
    let koin = answers.pop().unwrap();
    let agp = answers.pop().unwrap();
    let kotlin = answers.pop().unwrap();
    let compose_bom = answers.pop().unwrap();
    assert(answers@ =~= a.subrange(0, 8));
    let cargo_swift = answers.pop().unwrap();
    let serde_json = answers.pop().unwrap();
    let serde = answers.pop().unwrap();
    let crux_platform = answers.pop().unwrap();
    let crux_time = answers.pop().unwrap();
    let crux_kv = answers.pop().unwrap();
    let crux_http = answers.pop().unwrap();
    let crux_core = answers.pop().unwrap();
    Probes {
        crux_core,
        crux_http,
        crux_kv,
        crux_time,
        crux_platform,
        facet,
        facet_generate,
        serde,
        serde_json,
        cargo_swift,
        uniffi,
        compose_bom,
        kotlin,
        agp,
        koin,
        ktor,
        cargo_deny,
        cargo_vet,
        xcodegen,
    }
}

/// Build the proposed pins from the registry answers: each pin takes its
/// answer, or keeps its current value when the answer is a failure (the
/// failure is recorded). `gradle` and `ndk` are never bumped.
pub fn compute_proposed(current: &Versions, p: Probes) -> (r: (Versions, Vec<String>))
    requires
        probes_consistent(p),
    ensures
        r.0.crux.crux_core@ == queried(current.crux.crux_core@, p.crux_core),
        r.0.crux.crux_http@ == queried(current.crux.crux_http@, p.crux_http),
        r.0.crux.crux_kv@ == queried(current.crux.crux_kv@, p.crux_kv),
        r.0.crux.crux_time@ == queried(current.crux.crux_time@, p.crux_time),
        r.0.crux.crux_platform@ == queried(current.crux.crux_platform@, p.crux_platform),
        r.0.crux.facet@ == derived(current.crux.facet@, p.facet),
        r.0.crux.facet_generate@ == derived(current.crux.facet_generate@, p.facet_generate),
        r.0.crux.serde@ == queried(current.crux.serde@, p.serde),
        r.0.crux.serde_json@ == queried(current.crux.serde_json@, p.serde_json),
        r.0.crux.cargo_swift@ == queried(current.crux.cargo_swift@, p.cargo_swift),
        r.0.crux.uniffi@ == derived(current.crux.uniffi@, p.uniffi),
        r.0.android.compose_bom@ == queried(current.android.compose_bom@, p.compose_bom),
        r.0.android.kotlin@ == queried(current.android.kotlin@, p.kotlin),
        r.0.android.agp@ == queried(current.android.agp@, p.agp),
        r.0.android.koin@ == queried(current.android.koin@, p.koin),
        r.0.android.ktor@ == queried(current.android.ktor@, p.ktor),
        r.0.tooling.cargo_deny@ == queried(current.tooling.cargo_deny@, p.cargo_deny),
        r.0.tooling.cargo_vet@ == queried(current.tooling.cargo_vet@, p.cargo_vet),
        r.0.tooling.xcodegen@ == queried(current.tooling.xcodegen@, p.xcodegen),
        r.0.android.gradle@ == current.android.gradle@,
        r.0.android.ndk == current.android.ndk,
        texts(r.1@) == proposal_errors(p),
{
    let ghost p0 = p;
    let mut errors: Vec<String> = Vec::new();
    assert(texts(errors@) =~= Seq::<Seq<char>>::empty());
    let crux_core = try_query(current.crux.crux_core.as_str(), p.crux_core, "crates.io: crux_core");
    let ghost e_crux_core = texts(errors@);
    record_err(&mut errors, &crux_core.probe_error);
    let crux_http = try_query(current.crux.crux_http.as_str(), p.crux_http, "crates.io: crux_http");
    let ghost e_crux_http = texts(errors@);
    record_err(&mut errors, &crux_http.probe_error);
    let crux_kv = try_query(current.crux.crux_kv.as_str(), p.crux_kv, "crates.io: crux_kv");
    let ghost e_crux_kv = texts(errors@);
    record_err(&mut errors, &crux_kv.probe_error);
    let crux_time = try_query(current.crux.crux_time.as_str(), p.crux_time, "crates.io: crux_time");
    let ghost e_crux_time = texts(errors@);
    record_err(&mut errors, &crux_time.probe_error);
    let crux_platform = try_query(current.crux.crux_platform.as_str(), p.crux_platform, "crates.io: crux_platform");
    let ghost e_crux_platform = texts(errors@);
    record_err(&mut errors, &crux_platform.probe_error);
    let facet = match p.facet {
        Some(outcome) => try_derive(current.crux.facet.as_str(), outcome, "crates.io: crux_core deps (facet)"),
        None => ProposedField::current(current.crux.facet.clone()),
    };
    let ghost e_facet = texts(errors@);
    record_err(&mut errors, &facet.probe_error);
    let facet_generate = match p.facet_generate {
        Some(outcome) => try_derive(current.crux.facet_generate.as_str(), outcome, "crates.io: crux_core deps (facet_generate)"),
        None => ProposedField::current(current.crux.facet_generate.clone()),
    };
    let ghost e_facet_generate = texts(errors@);
    record_err(&mut errors, &facet_generate.probe_error);
    let serde = try_query(current.crux.serde.as_str(), p.serde, "crates.io: serde");
    let ghost e_serde = texts(errors@);
    record_err(&mut errors, &serde.probe_error);
    let serde_json = try_query(current.crux.serde_json.as_str(), p.serde_json, "crates.io: serde_json");
    let ghost e_serde_json = texts(errors@);
    record_err(&mut errors, &serde_json.probe_error);
    let cargo_swift = try_query(current.crux.cargo_swift.as_str(), p.cargo_swift, "crates.io: cargo-swift");
    let ghost e_cargo_swift = texts(errors@);
    record_err(&mut errors, &cargo_swift.probe_error);
    let uniffi = match p.uniffi {
        Some(outcome) => try_derive(current.crux.uniffi.as_str(), outcome, "crates.io: cargo-swift deps (uniffi_bindgen)"),
        None => ProposedField::current(current.crux.uniffi.clone()),
    };
    let ghost e_uniffi = texts(errors@);
    record_err(&mut errors, &uniffi.probe_error);
    let compose_bom = try_query(current.android.compose_bom.as_str(), p.compose_bom, "google maven: compose-bom");
    let ghost e_compose_bom = texts(errors@);
    record_err(&mut errors, &compose_bom.probe_error);
    let kotlin = try_query(current.android.kotlin.as_str(), p.kotlin, "maven central: kotlin-stdlib");
    let ghost e_kotlin = texts(errors@);
    record_err(&mut errors, &kotlin.probe_error);
    let agp = try_query(current.android.agp.as_str(), p.agp, "google maven: com.android.application");
    let ghost e_agp = texts(errors@);
    record_err(&mut errors, &agp.probe_error);
    let koin = try_query(current.android.koin.as_str(), p.koin, "maven central: koin-bom");
    let ghost e_koin = texts(errors@);
    record_err(&mut errors, &koin.probe_error);
    let ktor = try_query(current.android.ktor.as_str(), p.ktor, "maven central: ktor-bom");
    let ghost e_ktor = texts(errors@);
    record_err(&mut errors, &ktor.probe_error);
    let cargo_deny = try_query(current.tooling.cargo_deny.as_str(), p.cargo_deny, "crates.io: cargo-deny");
    let ghost e_cargo_deny = texts(errors@);
    record_err(&mut errors, &cargo_deny.probe_error);
    let cargo_vet = try_query(current.tooling.cargo_vet.as_str(), p.cargo_vet, "crates.io: cargo-vet");
    let ghost e_cargo_vet = texts(errors@);
    record_err(&mut errors, &cargo_vet.probe_error);
    let xcodegen = try_query(current.tooling.xcodegen.as_str(), p.xcodegen, "github: yonaskolb/XcodeGen");
    let ghost e_xcodegen = texts(errors@);
    record_err(&mut errors, &xcodegen.probe_error);
    let gradle = current.android.gradle.clone();
    let ndk = current.android.ndk.clone();
    assert(texts(errors@) =~= proposal_errors(p0));
    (
        Versions {
            crux: Crux {
                crux_core: crux_core.value,
                crux_http: crux_http.value,
                crux_kv: crux_kv.value,
                crux_time: crux_time.value,
                crux_platform: crux_platform.value,
                facet: facet.value,
                facet_generate: facet_generate.value,
                serde: serde.value,
                serde_json: serde_json.value,
                uniffi: uniffi.value,
                cargo_swift: cargo_swift.value,
            },
            android: Android {
                compose_bom: compose_bom.value,
                koin: koin.value,
                ktor: ktor.value,
                kotlin: kotlin.value,
                agp: agp.value,
                gradle,
                ndk,
            },
            ios: Ios {  },
            tooling: Tooling {
                cargo_deny: cargo_deny.value,
                cargo_vet: cargo_vet.value,
                xcodegen: xcodegen.value,
            },
        },
        errors,
    )
}

// ---------------------------------------------------------------------
// The pins file.
// ---------------------------------------------------------------------

/// The pins file written: the explicit one, else
/// `<home>/.config/vectis/versions.toml`; with neither, an `Internal`
/// error.
pub fn resolve_write_target(override_path: Option<&str>, home: Option<&str>) -> (r: Result<
    String,
    VectisError,
>)
    ensures
        match override_path {
            Some(p) => r is Ok && r->Ok_0@ == p@,
            None => match home {
                Some(h) => r is Ok && r->Ok_0@ == crate::versions::user_file(h@),
                None => r is Err && r->Err_0 is Internal && crate::error::error_message(r->Err_0)
                    == "$HOME is unset; pass --version-file <path> explicitly"@,
            },
        },
{
    match override_path {
        Some(p) => Ok(owned(p)),
        None => match home {
            Some(h) => Ok(crate::versions::user_version_file(h)),
            None => Err(
                VectisError::Internal {
                    message: owned("$HOME is unset; pass --version-file <path> explicitly"),
                },
            ),
        },
    }
}

/// The pins currently recorded at the target: the embedded defaults when
/// it is not a file (`None`); otherwise what reading it gave (an I/O
/// failure) or what parsing it gave.
pub fn read_current_pins(target: &str, file: Option<Result<Result<Versions, String>, String>>) -> (r:
    Result<Versions, VectisError>)
    ensures
        match file {
            None => r is Ok && crate::versions::is_embedded(r->Ok_0),
            Some(Err(e)) => r is Err && r->Err_0 is Io && crate::error::error_message(r->Err_0) == e@,
            Some(Ok(Ok(v))) => r == Ok::<Versions, VectisError>(v),
            Some(Ok(Err(e))) => r is Err && r->Err_0 is InvalidProject && crate::error::error_message(
                r->Err_0,
            ) == "failed to parse "@ + target@ + ": "@ + e@,
        },
{
    match file {
        None => Versions::embedded(),
        Some(Err(e)) => Err(VectisError::Io(e)),
        Some(Ok(Ok(v))) => Ok(v),
        Some(Ok(Err(e))) => {
            let mut msg = crate::text::cat("failed to parse ", target);
            msg.append(": ");
            msg.append(e.as_str());
            Err(VectisError::InvalidProject { message: msg })
        },
    }
}

} // verus!
