//! The human-readable summaries the command-line tool prints instead of
//! JSON (`--format text`), read off a command's JSON report.
//!
//! Every reading is defensive: a field that is missing or of another
//! type reads as a placeholder (`"?"`, `"<app>"`, ...), `false`, or an
//! empty list, so no report shape makes a summary fail.

use vstd::prelude::*;

use crate::engine::identity::{insert_sorted, insert_sorted_name, names_view};
use crate::error::{error_display, VectisError};
use crate::json::{get, get_opt, has_key, has_key_of, member, member_of, obj_entries, opt_ref, Json};
use crate::prerequisites::{join_names, names_of};
use crate::text::{chars_of, decimal, join, lines, lines_seq, owned, trim, trim_seq, usize_to_text};

verus! {

// ---------------------------------------------------------------------
// Defensive readings.
// ---------------------------------------------------------------------

/// A string value, or the placeholder `d`.
pub open spec fn str_or(o: Option<Json>, d: Seq<char>) -> Seq<char> {
    match o {
        Some(Json::Str(s)) => s@,
        _ => d,
    }
}

fn str_or_exec(o: Option<&Json>, d: &str) -> (r: String)
    ensures
        r@ == str_or(opt_ref(o), d@),
{
    match o {
        Some(Json::Str(s)) => s.clone(),
        _ => owned(d),
    }
}

/// A flag that is set: the boolean `true` (anything else reads as
/// unset).
pub open spec fn is_true(o: Option<Json>) -> bool {
    o == Some(Json::Bool(true))
}

fn is_true_exec(o: Option<&Json>) -> (r: bool)
    ensures
        r == is_true(opt_ref(o)),
{
    match o {
        Some(Json::Bool(b)) => *b,
        _ => false,
    }
}

/// The items of an array value.
pub open spec fn items_of(o: Option<Json>) -> Option<Seq<Json>> {
    match o {
        Some(Json::Array(v)) => Some(v@),
        _ => None,
    }
}

fn items_exec(o: Option<&Json>) -> (r: Option<&Vec<Json>>)
    ensures
        match r {
            Some(v) => items_of(opt_ref(o)) == Some(v@),
            None => items_of(opt_ref(o)) is None,
        },
{
    match o {
        Some(Json::Array(v)) => Some(v),
        _ => None,
    }
}

/// The number of items of an array value (0 for anything else).
pub open spec fn count_of(o: Option<Json>) -> nat {
    match items_of(o) {
        Some(xs) => xs.len(),
        None => 0,
    }
}

/// The string items among `xs`, in order.
pub open spec fn str_items(xs: Seq<Json>) -> Seq<Seq<char>>
    decreases xs.len(),
{
    if xs.len() == 0 {
        Seq::empty()
    } else {
        let p = str_items(xs.drop_last());
        match xs.last() {
            Json::Str(s) => p.push(s@),
            _ => p,
        }
    }
}

fn str_items_exec(xs: &Vec<Json>) -> (r: Vec<String>)
    ensures
        names_of(r@) == str_items(xs@),
{
    let mut out: Vec<String> = Vec::new();
    let mut i: usize = 0;
    while i < xs.len()
        invariant
            i <= xs@.len(),
            names_of(out@) == str_items(xs@.subrange(0, i as int)),
        decreases xs@.len() - i,
    {
        let ghost pre = xs@.subrange(0, i as int);
        let ghost post = xs@.subrange(0, i + 1);
        assert(post.drop_last() =~= pre);
        assert(post.last() == xs@[i as int]);
        match &xs[i] {
            Json::Str(s) => {
                out.push(s.clone());
                assert(names_of(out@) =~= names_of(out@.drop_last()).push(s@));
            },
            _ => {},
        }
        i = i + 1;
    }
    assert(xs@.subrange(0, xs@.len() as int) =~= xs@);
    out
}

/// The strings of an array value (none for anything else).
pub open spec fn strs_of(o: Option<Json>) -> Seq<Seq<char>> {
    match items_of(o) {
        Some(xs) => str_items(xs),
        None => Seq::empty(),
    }
}

fn strs_exec(o: Option<&Json>) -> (r: Vec<String>)
    ensures
        names_of(r@) == strs_of(opt_ref(o)),
{
    match items_exec(o) {
        Some(xs) => str_items_exec(xs),
        None => {
            let v: Vec<String> = Vec::new();
            assert(names_of(v@) =~= Seq::<Seq<char>>::empty());
            v
        },
    }
}

/// `PASS` or `FAIL`.
pub open spec fn pass_fail(b: bool) -> Seq<char> {
    if b {
        "PASS"@
    } else {
        "FAIL"@
    }
}

fn pass_fail_exec(b: bool) -> (r: &'static str)
    ensures
        r@ == pass_fail(b),
{
    if b {
        "PASS"
    } else {
        "FAIL"
    }
}

/// A labelled list: the items joined by `", "`, or `(none)`.
pub open spec fn listing(label: Seq<char>, items: Seq<Seq<char>>) -> Seq<char> {
    label + if items.len() == 0 {
        "(none)"@
    } else {
        join(items, ", "@)
    }
}

fn listing_exec(label: &str, items: &Vec<String>) -> (r: String)
    ensures
        r@ == listing(label@, names_of(items@)),
{
    let mut s = owned(label);
    if items.len() == 0 {
        s.append("(none)");
    } else {
        let j = join_names(items, ", ");
        s.append(j.as_str());
    }
    s
}

/// The lines, one after the other.
pub open spec fn concat(ls: Seq<Seq<char>>) -> Seq<char>
    decreases ls.len(),
{
    if ls.len() == 0 {
        Seq::empty()
    } else {
        concat(ls.drop_last()) + ls.last()
    }
}

// ---------------------------------------------------------------------
// Build steps.
// ---------------------------------------------------------------------

/// The index of the first step that does not say it passed.
pub open spec fn first_unpassed(xs: Seq<Json>) -> Option<int>
    decreases xs.len(),
{
    if xs.len() == 0 {
        None
    } else if !is_true(get(xs[0], "passed"@)) {
        Some(0)
    } else {
        match first_unpassed(xs.subrange(1, xs.len() as int)) {
            Some(k) => Some(k + 1),
            None => None,
        }
    }
}

proof fn lemma_first_unpassed(xs: Seq<Json>, i: int)
    requires
        0 <= i <= xs.len(),
        forall|k: int| 0 <= k < i ==> is_true(get(#[trigger] xs[k], "passed"@)),
    ensures
        first_unpassed(xs) == (match first_unpassed(xs.subrange(i, xs.len() as int)) {
            Some(k) => Some(k + i),
            None => None::<int>,
        }),
    decreases i,
{
    if i == 0 {
        assert(xs.subrange(0, xs.len() as int) =~= xs);
    } else {
        let rest = xs.subrange(1, xs.len() as int);
        assert(is_true(get(xs[0], "passed"@)));
        assert(rest.subrange(i - 1, rest.len() as int) =~= xs.subrange(i, xs.len() as int));
        assert forall|k: int| 0 <= k < i - 1 implies is_true(get(#[trigger] rest[k], "passed"@)) by {
            assert(rest[k] == xs[k + 1]);
        }
        lemma_first_unpassed(rest, i - 1);
    }
}

/// The summary of a `build-steps` array: `build PASS`, or
/// `build FAIL (<first failing step>)`; none when there is no array.
pub open spec fn steps_summary(o: Option<Json>) -> Option<Seq<char>> {
    match items_of(o) {
        None => None,
        Some(xs) => match first_unpassed(xs) {
            None => Some("build PASS"@),
            Some(k) => Some("build FAIL ("@ + str_or(get(xs[k], "name"@), "?"@) + ")"@),
        },
    }
}

/// Summarise a `build-steps` array (see `steps_summary`).
pub fn render_build_steps_summary(steps: Option<&Json>) -> (r: Option<String>)
    ensures
        match r {
            Some(s) => steps_summary(opt_ref(steps)) == Some(s@),
            None => steps_summary(opt_ref(steps)) is None,
        },
{
    let xs = match items_exec(steps) {
        Some(xs) => xs,
        None => return None,
    };
    let mut i: usize = 0;
    while i < xs.len()
        invariant
            i <= xs@.len(),
            items_of(opt_ref(steps)) == Some(xs@),
            forall|k: int| 0 <= k < i ==> is_true(get(#[trigger] xs@[k], "passed"@)),
        decreases xs@.len() - i,
    {
        if !is_true_exec(xs[i].get("passed")) {
            proof {
                lemma_first_unpassed(xs@, i as int);
                assert(xs@.subrange(i as int, xs@.len() as int)[0] == xs@[i as int]);
            }
            let mut s = owned("build FAIL (");
            let name = str_or_exec(xs[i].get("name"), "?");
            s.append(name.as_str());
            s.append(")");
            assert(s@ == "build FAIL ("@ + name@ + ")"@);
            return Some(s);
        }
        i = i + 1;
    }
    proof {
        lemma_first_unpassed(xs@, i as int);
        assert(xs@.subrange(i as int, xs@.len() as int).len() == 0);
    }
    Some(owned("build PASS"))
}

// ---------------------------------------------------------------------
// Key orders.
// ---------------------------------------------------------------------

/// The assembly keys that come first, in this order.
pub open spec fn is_fixed_key(k: Seq<char>) -> bool {
    k == "core"@ || k == "ios"@ || k == "android"@
}

/// The distinct keys of an object in ascending order, leaving out the
/// assembly keys when `skip_fixed`.
pub open spec fn sorted_keys(es: Seq<(String, Json)>, skip_fixed: bool) -> Seq<Seq<char>>
    decreases es.len(),
{
    if es.len() == 0 {
        Seq::empty()
    } else {
        let s = sorted_keys(es.drop_last(), skip_fixed);
        let k = es.last().0@;
        if skip_fixed && is_fixed_key(k) {
            s
        } else {
            insert_sorted(s, k)
        }
    }
}

fn sorted_keys_exec(es: &Vec<(String, Json)>, skip_fixed: bool) -> (r: Vec<String>)
    ensures
        names_view(r@) == sorted_keys(es@, skip_fixed),
{
    let mut out: Vec<String> = Vec::new();
    let mut i: usize = 0;
    assert(names_view(out@) =~= Seq::<Seq<char>>::empty());
    while i < es.len()
        invariant
            i <= es@.len(),
            names_view(out@) == sorted_keys(es@.subrange(0, i as int), skip_fixed),
        decreases es@.len() - i,
    {
        let ghost pre = es@.subrange(0, i as int);
        let ghost post = es@.subrange(0, i + 1);
        assert(post.drop_last() =~= pre);
        assert(post.last() == es@[i as int]);
        let k = es[i].0.as_str();
        let fixed = crate::text::str_eq(k, "core") || crate::text::str_eq(k, "ios")
            || crate::text::str_eq(k, "android");
        if !(skip_fixed && fixed) {
            insert_sorted_name(&mut out, k);
        }
        i = i + 1;
    }
    assert(es@.subrange(0, es@.len() as int) =~= es@);
    out
}

/// The order assemblies are listed in: `core`, `ios`, `android` (those
/// present), then the other keys in ascending order.
pub open spec fn assembly_order(es: Seq<(String, Json)>) -> Seq<Seq<char>> {
    (if has_key(es, "core"@) {
        seq!["core"@]
    } else {
        Seq::empty()
    }) + (if has_key(es, "ios"@) {
        seq!["ios"@]
    } else {
        Seq::empty()
    }) + (if has_key(es, "android"@) {
        seq!["android"@]
    } else {
        Seq::empty()
    }) + sorted_keys(es, true)
}

fn assembly_order_exec(es: &Vec<(String, Json)>) -> (r: Vec<String>)
    ensures
        names_view(r@) == assembly_order(es@),
{
    let mut out: Vec<String> = Vec::new();
    if has_key_of(es, "core") {
        out.push(owned("core"));
    }
    if has_key_of(es, "ios") {
        out.push(owned("ios"));
    }
    if has_key_of(es, "android") {
        out.push(owned("android"));
    }
    let rest = sorted_keys_exec(es, true);
    let ghost head = names_view(out@);
    let mut i: usize = 0;
    while i < rest.len()
        invariant
            i <= rest@.len(),
            names_view(out@) == head + names_view(rest@).subrange(0, i as int),
        decreases rest@.len() - i,
    {
        let c = rest[i].clone();
        assert(c@ == names_view(rest@)[i as int]);
        let ghost prev = out@;
        out.push(c);
        assert(names_view(out@) =~= names_view(prev).push(c@));
        assert(names_view(rest@).subrange(0, i + 1) =~= names_view(rest@).subrange(0, i as int).push(
            c@,
        ));
        i = i + 1;
        assert(names_view(out@) =~= head + names_view(rest@).subrange(0, i as int));
    }
    assert(names_view(rest@).subrange(0, rest@.len() as int) =~= names_view(rest@));
    assert(names_view(out@) =~= assembly_order(es@));
    out
}

// ---------------------------------------------------------------------
// Reading nested members.
// ---------------------------------------------------------------------

fn get_in<'a>(m: Option<&'a Json>, key: &str) -> (r: Option<&'a Json>)
    ensures
        opt_ref(r) == get_opt(opt_ref(m), key@),
{
    match m {
        Some(a) => a.get(key),
        None => None,
    }
}

fn entries_of<'a>(o: Option<&'a Json>) -> (r: Option<&'a Vec<(String, Json)>>)
    ensures
        match r {
            Some(es) => obj_entries(opt_ref(o)) == Some(es@),
            None => obj_entries(opt_ref(o)) is None,
        },
{
    match o {
        Some(Json::Object(es)) => Some(es),
        _ => None,
    }
}

// ---------------------------------------------------------------------
// `init`.
// ---------------------------------------------------------------------

/// One assembly of the `init` summary: its status, how many files were
/// written, and the build summary when it has build steps.
pub open spec fn init_assembly_line(k: Seq<char>, m: Option<Json>) -> Seq<char> {
    "  - "@ + k + ": "@ + str_or(get_opt(m, "status"@), "?"@) + " ("@ + decimal(
        count_of(get_opt(m, "files"@)),
    ) + " files)"@ + match steps_summary(get_opt(m, "build-steps"@)) {
        Some(s) => ", "@ + s,
        None => Seq::empty(),
    } + "\n"@
}

/// The assembly lines of the `init` summary, in the order of `keys`.
pub open spec fn init_lines(keys: Seq<Seq<char>>, es: Seq<(String, Json)>) -> Seq<char>
    decreases keys.len(),
{
    if keys.len() == 0 {
        Seq::empty()
    } else {
        init_lines(keys.drop_last(), es) + init_assembly_line(keys.last(), member(es, keys.last()))
    }
}

/// The `init` summary.
pub open spec fn init_text(v: Json) -> Seq<char> {
    "Created app \""@ + str_or(get(v, "app-name"@), "<app>"@) + "\" at "@ + str_or(
        get(v, "project-dir"@),
        "<dir>"@,
    ) + "\n"@ + listing("Capabilities: "@, strs_of(get(v, "capabilities"@))) + "\n"@
        + "Assemblies:\n"@ + match obj_entries(get(v, "assemblies"@)) {
        Some(es) => init_lines(assembly_order(es), es),
        None => Seq::empty(),
    }
}

fn init_assembly_line_exec(k: &str, m: Option<&Json>) -> (r: String)
    ensures
        r@ == init_assembly_line(k@, opt_ref(m)),
{
    let mut s = owned("  - ");
    s.append(k);
    s.append(": ");
    let status = str_or_exec(get_in(m, "status"), "?");
    s.append(status.as_str());
    s.append(" (");
    let n = match items_exec(get_in(m, "files")) {
        Some(xs) => xs.len(),
        None => 0,
    };
    let nt = usize_to_text(n);
    s.append(nt.as_str());
    s.append(" files)");
    match render_build_steps_summary(get_in(m, "build-steps")) {
        Some(b) => {
            s.append(", ");
            s.append(b.as_str());
        },
        None => {},
    }
    s.append("\n");
    s
}

/// The `init` summary (see `init_text`).
pub fn render_init_text(value: &Json) -> (r: String)
    ensures
        r@ == init_text(*value),
{
    let mut s = owned("Created app \"");
    let app = str_or_exec(value.get("app-name"), "<app>");
    s.append(app.as_str());
    s.append("\" at ");
    let dir = str_or_exec(value.get("project-dir"), "<dir>");
    s.append(dir.as_str());
    s.append("\n");
    let caps = strs_exec(value.get("capabilities"));
    let l = listing_exec("Capabilities: ", &caps);
    s.append(l.as_str());
    s.append("\n");
    s.append("Assemblies:\n");
    let ghost prefix = s@;
    match entries_of(value.get("assemblies")) {
        Some(es) => {
            let keys = assembly_order_exec(es);
            let ghost kv = names_view(keys@);
            let mut i: usize = 0;
            while i < keys.len()
                invariant
                    i <= keys@.len(),
                    kv == names_view(keys@),
                    s@ == prefix + init_lines(kv.subrange(0, i as int), es@),
                decreases keys@.len() - i,
            {
                assert(kv.subrange(0, i + 1).drop_last() =~= kv.subrange(0, i as int));
                let line = init_assembly_line_exec(keys[i].as_str(), member_of(es, keys[i].as_str()));
                s.append(line.as_str());
                i = i + 1;
            }
            assert(kv.subrange(0, keys@.len() as int) =~= kv);
        },
        None => {},
    }
    s
}

// ---------------------------------------------------------------------
// `verify`.
// ---------------------------------------------------------------------

/// The first line that is not blank.
pub open spec fn first_nonblank(ls: Seq<Seq<char>>) -> Option<Seq<char>>
    decreases ls.len(),
{
    if ls.len() == 0 {
        None
    } else if trim(ls[0]).len() > 0 {
        Some(ls[0])
    } else {
        first_nonblank(ls.subrange(1, ls.len() as int))
    }
}

proof fn lemma_first_nonblank(ls: Seq<Seq<char>>, i: int)
    requires
        0 <= i <= ls.len(),
        forall|k: int| 0 <= k < i ==> trim(#[trigger] ls[k]).len() == 0,
    ensures
        first_nonblank(ls) == first_nonblank(ls.subrange(i, ls.len() as int)),
    decreases i,
{
    if i == 0 {
        assert(ls.subrange(0, ls.len() as int) =~= ls);
    } else {
        let rest = ls.subrange(1, ls.len() as int);
        assert(trim(ls[0]).len() == 0);
        assert(rest.subrange(i - 1, rest.len() as int) =~= ls.subrange(i, ls.len() as int));
        assert forall|k: int| 0 <= k < i - 1 implies trim(#[trigger] rest[k]).len() == 0 by {
            assert(rest[k] == ls[k + 1]);
        }
        lemma_first_nonblank(rest, i - 1);
    }
}

fn first_nonblank_exec(text: &str) -> (r: Option<Vec<char>>)
    ensures
        match r {
            Some(l) => first_nonblank(lines(text@)) == Some(l@),
            None => first_nonblank(lines(text@)) is None,
        },
{
    let cs = chars_of(text);
    let ls = lines_seq(cs.as_slice());
    let ghost lv = lines(text@);
    let mut i: usize = 0;
    while i < ls.len()
        invariant
            i <= ls@.len(),
            lv == lines(text@),
            ls@.len() == lv.len(),
            forall|k: int| 0 <= k < ls@.len() ==> #[trigger] ls@[k]@ == lv[k],
            forall|k: int| 0 <= k < i ==> trim(#[trigger] lv[k]).len() == 0,
        decreases ls@.len() - i,
    {
        let t = trim_seq(ls[i].as_slice());
        if t.len() > 0 {
            proof {
                lemma_first_nonblank(lv, i as int);
                assert(lv.subrange(i as int, lv.len() as int)[0] == lv[i as int]);
            }
            return Some(ls[i].clone());
        }
        i = i + 1;
    }
    proof {
        lemma_first_nonblank(lv, i as int);
        assert(lv.subrange(i as int, lv.len() as int).len() == 0);
    }
    None
}

/// The error line of a failed step: the first non-blank line of its
/// `error`, when it has one.
pub open spec fn step_error_line(st: Json) -> Seq<char> {
    match get(st, "error"@) {
        Some(Json::Str(e)) => match first_nonblank(lines(e@)) {
            Some(l) => "        error: "@ + l + "\n"@,
            None => Seq::empty(),
        },
        _ => Seq::empty(),
    }
}

/// One step of a failed assembly.
pub open spec fn step_line(st: Json) -> Seq<char> {
    let p = is_true(get(st, "passed"@));
    "      - "@ + str_or(get(st, "name"@), "?"@) + ": "@ + pass_fail(p) + "\n"@ + if !p {
        step_error_line(st)
    } else {
        Seq::empty()
    }
}

/// The lines of a list of steps.
pub open spec fn step_lines(xs: Seq<Json>) -> Seq<char>
    decreases xs.len(),
{
    if xs.len() == 0 {
        Seq::empty()
    } else {
        step_lines(xs.drop_last()) + step_line(xs.last())
    }
}

/// One assembly of the `verify` summary; a failed one lists its steps.
pub open spec fn verify_assembly_line(k: Seq<char>, m: Option<Json>) -> Seq<char> {
    let p = is_true(get_opt(m, "passed"@));
    "  - "@ + k + ": "@ + pass_fail(p) + "\n"@ + if !p {
        match items_of(get_opt(m, "steps"@)) {
            Some(xs) => step_lines(xs),
            None => Seq::empty(),
        }
    } else {
        Seq::empty()
    }
}

/// The assembly lines of the `verify` summary, in the order of `keys`.
pub open spec fn verify_lines(keys: Seq<Seq<char>>, es: Seq<(String, Json)>) -> Seq<char>
    decreases keys.len(),
{
    if keys.len() == 0 {
        Seq::empty()
    } else {
        verify_lines(keys.drop_last(), es) + verify_assembly_line(
            keys.last(),
            member(es, keys.last()),
        )
    }
}

/// The `verify` summary.
pub open spec fn verify_text(v: Json) -> Seq<char> {
    "Verified "@ + str_or(get(v, "project-dir"@), "<dir>"@) + ": "@ + pass_fail(
        is_true(get(v, "passed"@)),
    ) + "\n"@ + match obj_entries(get(v, "assemblies"@)) {
        Some(es) => verify_lines(assembly_order(es), es),
        None => Seq::empty(),
    }
}

fn step_line_exec(st: &Json) -> (r: String)
    ensures
        r@ == step_line(*st),
{
    let p = is_true_exec(st.get("passed"));
    let mut s = owned("      - ");
    let name = str_or_exec(st.get("name"), "?");
    s.append(name.as_str());
    s.append(": ");
    s.append(pass_fail_exec(p));
    s.append("\n");
    if !p {
        match st.get("error") {
            Some(Json::Str(e)) => match first_nonblank_exec(e.as_str()) {
                Some(l) => {
                    s.append("        error: ");
                    let lt = crate::text::string_of(&l);
                    s.append(lt.as_str());
                    s.append("\n");
                },
                None => {},
            },
            _ => {},
        }
    }
    s
}

fn verify_assembly_line_exec(k: &str, m: Option<&Json>) -> (r: String)
    ensures
        r@ == verify_assembly_line(k@, opt_ref(m)),
{
    let p = is_true_exec(get_in(m, "passed"));
    let mut s = owned("  - ");
    s.append(k);
    s.append(": ");
    s.append(pass_fail_exec(p));
    s.append("\n");
    if !p {
        match items_exec(get_in(m, "steps")) {
            Some(xs) => {
                let ghost prefix = s@;
                let mut i: usize = 0;
                while i < xs.len()
                    invariant
                        i <= xs@.len(),
                        s@ == prefix + step_lines(xs@.subrange(0, i as int)),
                    decreases xs@.len() - i,
                {
                    assert(xs@.subrange(0, i + 1).drop_last() =~= xs@.subrange(0, i as int));
                    let line = step_line_exec(&xs[i]);
                    s.append(line.as_str());
                    i = i + 1;
                }
                assert(xs@.subrange(0, xs@.len() as int) =~= xs@);
            },
            None => {},
        }
    }
    s
}

/// The `verify` summary (see `verify_text`).
pub fn render_verify_text(value: &Json) -> (r: String)
    ensures
        r@ == verify_text(*value),
{
    let mut s = owned("Verified ");
    let dir = str_or_exec(value.get("project-dir"), "<dir>");
    s.append(dir.as_str());
    s.append(": ");
    s.append(pass_fail_exec(is_true_exec(value.get("passed"))));
    s.append("\n");
    let ghost prefix = s@;
    match entries_of(value.get("assemblies")) {
        Some(es) => {
            let keys = assembly_order_exec(es);
            let ghost kv = names_view(keys@);
            let mut i: usize = 0;
            while i < keys.len()
                invariant
                    i <= keys@.len(),
                    kv == names_view(keys@),
                    s@ == prefix + verify_lines(kv.subrange(0, i as int), es@),
                decreases keys@.len() - i,
            {
                assert(kv.subrange(0, i + 1).drop_last() =~= kv.subrange(0, i as int));
                let line = verify_assembly_line_exec(
                    keys[i].as_str(),
                    member_of(es, keys[i].as_str()),
                );
                s.append(line.as_str());
                i = i + 1;
            }
            assert(kv.subrange(0, keys@.len() as int) =~= kv);
        },
        None => {},
    }
    s
}

// ---------------------------------------------------------------------
// `add-shell`.
// ---------------------------------------------------------------------

/// The `add-shell` summary.
pub open spec fn add_shell_text(v: Json) -> Seq<char> {
    let a = get(v, "assembly"@);
    let u = strs_of(get(v, "unrecognized-capabilities"@));
    "Added "@ + str_or(get(v, "platform"@), "<platform>"@) + " shell to \""@ + str_or(
        get(v, "app-name"@),
        "<app>"@,
    ) + "\" at "@ + str_or(get(v, "project-dir"@), "<dir>"@) + "\n"@ + listing(
        "Detected capabilities: "@,
        strs_of(get(v, "detected-capabilities"@)),
    ) + "\n"@ + (if u.len() > 0 {
        "Unrecognized capabilities: "@ + join(u, ", "@) + "\n"@
    } else {
        Seq::empty()
    }) + "Files: "@ + decimal(count_of(get_opt(a, "files"@))) + match steps_summary(
        get_opt(a, "build-steps"@),
    ) {
        Some(b) => ", "@ + b,
        None => Seq::empty(),
    } + "\n"@
}

/// The `add-shell` summary (see `add_shell_text`).
pub fn render_add_shell_text(value: &Json) -> (r: String)
    ensures
        r@ == add_shell_text(*value),
{
    let app = str_or_exec(value.get("app-name"), "<app>");
    let dir = str_or_exec(value.get("project-dir"), "<dir>");
    let platform = str_or_exec(value.get("platform"), "<platform>");
    let mut s = owned("Added ");
    s.append(platform.as_str());
    s.append(" shell to \"");
    s.append(app.as_str());
    s.append("\" at ");
    s.append(dir.as_str());
    s.append("\n");
    let detected = strs_exec(value.get("detected-capabilities"));
    let l = listing_exec("Detected capabilities: ", &detected);
    s.append(l.as_str());
    s.append("\n");
    let unrecognized = strs_exec(value.get("unrecognized-capabilities"));
    if unrecognized.len() > 0 {
        s.append("Unrecognized capabilities: ");
        let j = join_names(&unrecognized, ", ");
        s.append(j.as_str());
        s.append("\n");
    }
    let assembly = value.get("assembly");
    let n = match items_exec(get_in(assembly, "files")) {
        Some(xs) => xs.len(),
        None => 0,
    };
    s.append("Files: ");
    let nt = usize_to_text(n);
    s.append(nt.as_str());
    match render_build_steps_summary(get_in(assembly, "build-steps")) {
        Some(b) => {
            s.append(", ");
            s.append(b.as_str());
        },
        None => {},
    }
    s.append("\n");
    s
}

// ---------------------------------------------------------------------
// `update-versions`.
// ---------------------------------------------------------------------

/// One changed pin: `key: current → proposed`.
pub open spec fn change_line(c: Json) -> Seq<char> {
    "  - "@ + str_or(get(c, "key"@), "?"@) + ": "@ + str_or(get(c, "current"@), "?"@) + " → "@
        + str_or(get(c, "proposed"@), "?"@) + "\n"@
}

/// The lines of the changed pins.
pub open spec fn change_lines(xs: Seq<Json>) -> Seq<char>
    decreases xs.len(),
{
    if xs.len() == 0 {
        Seq::empty()
    } else {
        change_lines(xs.drop_last()) + change_line(xs.last())
    }
}

/// A bulleted list of texts, one per line.
pub open spec fn bullet_lines(ss: Seq<Seq<char>>) -> Seq<char>
    decreases ss.len(),
{
    if ss.len() == 0 {
        Seq::empty()
    } else {
        bullet_lines(ss.drop_last()) + "  - "@ + ss.last() + "\n"@
    }
}

/// One combination of the verify matrix.
pub open spec fn combo_line(c: Json) -> Seq<char> {
    "  - "@ + str_or(get(c, "caps"@), "?"@) + ": "@ + pass_fail(is_true(get(c, "passed"@))) + "\n"@
}

/// The lines of the matrix's combinations.
pub open spec fn combo_lines(xs: Seq<Json>) -> Seq<char>
    decreases xs.len(),
{
    if xs.len() == 0 {
        Seq::empty()
    } else {
        combo_lines(xs.drop_last()) + combo_line(xs.last())
    }
}

/// What happened to the pins file: a dry run, a write, or no write.
pub open spec fn update_mode(v: Json) -> Seq<char> {
    if is_true(get(v, "dry-run"@)) {
        " (dry-run)"@
    } else if is_true(get(v, "written"@)) {
        " (written)"@
    } else {
        " (no write)"@
    }
}

/// The changes part of the `update-versions` summary.
pub open spec fn changes_text(v: Json) -> Seq<char> {
    let cs = match items_of(get(v, "changes"@)) {
        Some(x) => x,
        None => Seq::empty(),
    };
    if cs.len() == 0 {
        "No changes.\n"@
    } else {
        "Changes:\n"@ + change_lines(cs)
    }
}

/// The probe errors part of the `update-versions` summary.
pub open spec fn errors_text(v: Json) -> Seq<char> {
    match items_of(get(v, "errors"@)) {
        Some(es) => if es.len() > 0 {
            "Errors:\n"@ + bullet_lines(str_items(es))
        } else {
            Seq::empty()
        },
        None => Seq::empty(),
    }
}

/// The verify matrix part of the `update-versions` summary.
pub open spec fn matrix_text(v: Json) -> Seq<char> {
    match get(v, "verification"@) {
        Some(m) => "Verify matrix: "@ + pass_fail(is_true(get(m, "passed"@))) + "\n"@ + match items_of(
            get(m, "combos"@),
        ) {
            Some(xs) => combo_lines(xs),
            None => Seq::empty(),
        },
        None => Seq::empty(),
    }
}

/// The `update-versions` summary: the pins file, the changes, the probe
/// errors (when any), and the verify matrix (when it ran).
pub open spec fn update_versions_text(v: Json) -> Seq<char> {
    "Versions file: "@ + str_or(get(v, "version-file"@), "<file>"@) + update_mode(v) + "\n"@
        + changes_text(v) + errors_text(v) + matrix_text(v)
}

fn change_line_exec(c: &Json) -> (r: String)
    ensures
        r@ == change_line(*c),
{
    let mut s = owned("  - ");
    let k = str_or_exec(c.get("key"), "?");
    s.append(k.as_str());
    s.append(": ");
    let cur = str_or_exec(c.get("current"), "?");
    s.append(cur.as_str());
    s.append(" → ");
    let pro = str_or_exec(c.get("proposed"), "?");
    s.append(pro.as_str());
    s.append("\n");
    s
}

fn combo_line_exec(c: &Json) -> (r: String)
    ensures
        r@ == combo_line(*c),
{
    let mut s = owned("  - ");
    let k = str_or_exec(c.get("caps"), "?");
    s.append(k.as_str());
    s.append(": ");
    s.append(pass_fail_exec(is_true_exec(c.get("passed"))));
    s.append("\n");
    s
}

fn changes_exec(value: &Json) -> (r: String)
    ensures
        r@ == changes_text(*value),
{
    match items_exec(value.get("changes")) {
        Some(xs) => {
            if xs.len() == 0 {
                return owned("No changes.\n");
            }
            let mut s = owned("Changes:\n");
            let ghost prefix = s@;
            let mut i: usize = 0;
            while i < xs.len()
                invariant
                    i <= xs@.len(),
                    s@ == prefix + change_lines(xs@.subrange(0, i as int)),
                decreases xs@.len() - i,
            {
                assert(xs@.subrange(0, i + 1).drop_last() =~= xs@.subrange(0, i as int));
                let line = change_line_exec(&xs[i]);
                s.append(line.as_str());
                i = i + 1;
            }
            assert(xs@.subrange(0, xs@.len() as int) =~= xs@);
            s
        },
        None => owned("No changes.\n"),
    }
}

fn errors_exec(value: &Json) -> (r: String)
    ensures
        r@ == errors_text(*value),
{
    let mut s = owned("");
    proof {
        reveal_strlit("");
    }
    match items_exec(value.get("errors")) {
        Some(es) => {
            if es.len() > 0 {
                s.append("Errors:\n");
                let ss = str_items_exec(es);
                let ghost prefix = s@;
                let ghost sv = names_of(ss@);
                let mut i: usize = 0;
                while i < ss.len()
                    invariant
                        i <= ss@.len(),
                        sv == names_of(ss@),
                        s@ == prefix + bullet_lines(sv.subrange(0, i as int)),
                    decreases ss@.len() - i,
                {
                    assert(sv.subrange(0, i + 1).drop_last() =~= sv.subrange(0, i as int));
                    s.append("  - ");
                    s.append(ss[i].as_str());
                    s.append("\n");
                    i = i + 1;
                }
                assert(sv.subrange(0, ss@.len() as int) =~= sv);
            }
        },
        None => {},
    }
    s
}

fn matrix_exec(value: &Json) -> (r: String)
    ensures
        r@ == matrix_text(*value),
{
    let mut s = owned("");
    proof {
        reveal_strlit("");
    }
    match value.get("verification") {
        Some(m) => {
            s.append("Verify matrix: ");
            s.append(pass_fail_exec(is_true_exec(m.get("passed"))));
            s.append("\n");
            match items_exec(m.get("combos")) {
                Some(xs) => {
                    let ghost prefix = s@;
                    let mut i: usize = 0;
                    while i < xs.len()
                        invariant
                            i <= xs@.len(),
                            s@ == prefix + combo_lines(xs@.subrange(0, i as int)),
                        decreases xs@.len() - i,
                    {
                        assert(xs@.subrange(0, i + 1).drop_last() =~= xs@.subrange(0, i as int));
                        let line = combo_line_exec(&xs[i]);
                        s.append(line.as_str());
                        i = i + 1;
                    }
                    assert(xs@.subrange(0, xs@.len() as int) =~= xs@);
                },
                None => {},
            }
        },
        None => {},
    }
    s
}

/// The `update-versions` summary (see `update_versions_text`).
pub fn render_update_versions_text(value: &Json) -> (r: String)
    ensures
        r@ == update_versions_text(*value),
{
    let mut s = owned("Versions file: ");
    let target = str_or_exec(value.get("version-file"), "<file>");
    s.append(target.as_str());
    if is_true_exec(value.get("dry-run")) {
        s.append(" (dry-run)");
    } else if is_true_exec(value.get("written")) {
        s.append(" (written)");
    } else {
        s.append(" (no write)");
    }
    s.append("\n");
    let c = changes_exec(value);
    s.append(c.as_str());
    let e = errors_exec(value);
    s.append(e.as_str());
    let m = matrix_exec(value);
    s.append(m.as_str());
    s
}

// ---------------------------------------------------------------------
// `versions`.
// ---------------------------------------------------------------------

/// The pins of a section, by ascending key: `key = value`.
pub open spec fn pin_lines(keys: Seq<Seq<char>>, es: Seq<(String, Json)>) -> Seq<char>
    decreases keys.len(),
{
    if keys.len() == 0 {
        Seq::empty()
    } else {
        pin_lines(keys.drop_last(), es) + "    "@ + keys.last() + " = "@ + str_or(
            member(es, keys.last()),
            "?"@,
        ) + "\n"@
    }
}

/// A section of pins; an empty or missing section is left out.
pub open spec fn section_text(sec: Seq<char>, o: Option<Seq<(String, Json)>>) -> Seq<char> {
    match o {
        Some(es) => if es.len() == 0 {
            Seq::empty()
        } else {
            "  ["@ + sec + "]\n"@ + pin_lines(sorted_keys(es, false), es)
        },
        None => Seq::empty(),
    }
}

/// The `versions` summary: the `crux`, `android`, `ios` and `tooling`
/// sections.
pub open spec fn versions_text(v: Json) -> Seq<char> {
    "Resolved version pins:\n"@ + section_text("crux"@, obj_entries(get(v, "crux"@))) + section_text(
        "android"@,
        obj_entries(get(v, "android"@)),
    ) + section_text("ios"@, obj_entries(get(v, "ios"@))) + section_text(
        "tooling"@,
        obj_entries(get(v, "tooling"@)),
    )
}

fn section_exec(sec: &str, o: Option<&Json>) -> (r: String)
    ensures
        r@ == section_text(sec@, obj_entries(opt_ref(o))),
{
    let mut s = owned("");
    proof {
        reveal_strlit("");
    }
    match entries_of(o) {
        Some(es) => {
            if es.len() > 0 {
                s.append("  [");
                s.append(sec);
                s.append("]\n");
                let keys = sorted_keys_exec(es, false);
                let ghost kv = names_view(keys@);
                let ghost prefix = s@;
                let mut i: usize = 0;
                while i < keys.len()
                    invariant
                        i <= keys@.len(),
                        kv == names_view(keys@),
                        s@ == prefix + pin_lines(kv.subrange(0, i as int), es@),
                    decreases keys@.len() - i,
                {
                    assert(kv.subrange(0, i + 1).drop_last() =~= kv.subrange(0, i as int));
                    s.append("    ");
                    s.append(keys[i].as_str());
                    s.append(" = ");
                    let val = str_or_exec(member_of(es, keys[i].as_str()), "?");
                    s.append(val.as_str());
                    s.append("\n");
                    i = i + 1;
                }
                assert(kv.subrange(0, keys@.len() as int) =~= kv);
            }
        },
        None => {},
    }
    s
}

/// The `versions` summary (see `versions_text`).
pub fn render_versions_text(value: &Json) -> (r: String)
    ensures
        r@ == versions_text(*value),
{
    let mut s = owned("Resolved version pins:\n");
    let a = section_exec("crux", value.get("crux"));
    s.append(a.as_str());
    let b = section_exec("android", value.get("android"));
    s.append(b.as_str());
    let c = section_exec("ios", value.get("ios"));
    s.append(c.as_str());
    let d = section_exec("tooling", value.get("tooling"));
    s.append(d.as_str());
    s
}

// ---------------------------------------------------------------------
// Errors.
// ---------------------------------------------------------------------

/// One missing tool: `tool (assembly): check | install: hint`.
pub open spec fn tool_line(t: crate::error::MissingTool) -> Seq<char> {
    "  - "@ + t.tool@ + " ("@ + t.assembly@ + "): "@ + t.check@ + " | install: "@ + t.install@ + "\n"@
}

/// The lines of the missing tools.
pub open spec fn tool_lines(ts: Seq<crate::error::MissingTool>) -> Seq<char>
    decreases ts.len(),
{
    if ts.len() == 0 {
        Seq::empty()
    } else {
        tool_lines(ts.drop_last()) + tool_line(ts.last())
    }
}

/// What an error prints: missing prerequisites list each tool and then
/// the message; any other error prints its display text.
pub open spec fn error_text(e: VectisError) -> Seq<char> {
    match e {
        VectisError::MissingPrerequisites { missing, message } => "error: missing prerequisites\n"@
            + tool_lines(missing@) + message@ + "\n"@,
        _ => "error: "@ + error_display(e) + "\n"@,
    }
}

/// The text an error prints (see `error_text`) and the exit status it
/// ends with: 2 for missing prerequisites, 1 otherwise.
pub fn render_error_text(err: &VectisError) -> (r: (String, u8))
    ensures
        r.0@ == error_text(*err),
        r.1 == (if err is MissingPrerequisites {
            2u8
        } else {
            1u8
        }),
{
    match err {
        VectisError::MissingPrerequisites { missing, message } => {
            let mut s = owned("error: missing prerequisites\n");
            let ghost prefix = s@;
            let mut i: usize = 0;
            while i < missing.len()
                invariant
                    i <= missing@.len(),
                    s@ == prefix + tool_lines(missing@.subrange(0, i as int)),
                decreases missing@.len() - i,
            {
                assert(missing@.subrange(0, i + 1).drop_last() =~= missing@.subrange(0, i as int));
                let t = &missing[i];
                s.append("  - ");
                s.append(t.tool.as_str());
                s.append(" (");
                s.append(t.assembly.as_str());
                s.append("): ");
                s.append(t.check.as_str());
                s.append(" | install: ");
                s.append(t.install.as_str());
                s.append("\n");
                i = i + 1;
            }
            assert(missing@.subrange(0, missing@.len() as int) =~= missing@);
            s.append(message.as_str());
            s.append("\n");
            (s, 2)
        },
        _ => {
            let mut s = owned("error: ");
            let d = err.display_text();
            s.append(d.as_str());
            s.append("\n");
            (s, 1)
        },
    }
}

} // verus!
