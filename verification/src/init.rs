//! `init` inputs: the app name rule, the default Android package, the
//! placeholder values, and the `--caps` / `--shells` lists.

use vstd::prelude::*;

use crate::error::{error_message, VectisError};
use crate::prerequisites::AssemblyKind;
use crate::templates::{cap_of_tag, Capability, Params};
use crate::text::{
    all_ascii, ascii_lower,
    chars_of, debug_form, debug_quoted, is_alnum, is_upper, lowercase_form, owned, split_char,
    split_seq, string_of, to_lowercase, trim, trim_seq, lemma_split_nonempty,
};
use crate::versions::Versions;

verus! {

// ---------------------------------------------------------------------
// The app name.
// ---------------------------------------------------------------------

/// The verdict on an app name: empty; not starting with an ASCII
/// uppercase letter; holding a character that is not ASCII
/// alphanumeric; or PascalCase (`None`).
pub open spec fn app_name_problem(s: Seq<char>) -> Option<Seq<char>> {
    if s.len() == 0 {
        Some("app name must not be empty"@)
    } else if !is_upper(s[0]) {
        Some(
            "app name "@ + debug_form(s)
                + " must start with an ASCII uppercase letter (PascalCase, e.g. \"Counter\")"@,
        )
    } else if exists|k: int| 1 <= k < s.len() && !is_alnum(#[trigger] s[k]) {
        Some(
            "app name "@ + debug_form(s)
                + " must contain only ASCII alphanumeric characters (PascalCase)"@,
        )
    } else {
        None
    }
}

/// Check that an app name is PascalCase: an ASCII uppercase letter, then
/// ASCII letters and digits only.
pub fn validate_app_name(app_name: &str) -> (r: Result<(), VectisError>)
    ensures
        match app_name_problem(app_name@) {
            None => r is Ok,
            Some(m) => r is Err && r->Err_0 is InvalidProject && error_message(r->Err_0) == m,
        },
{
    let s = chars_of(app_name);
    if s.len() == 0 {
        return Err(VectisError::InvalidProject { message: owned("app name must not be empty") });
    }
    if !('A' <= s[0] && s[0] <= 'Z') {
        let mut msg = owned("app name ");
        let q = debug_quoted(app_name);
        msg.append(q.as_str());
        msg.append(" must start with an ASCII uppercase letter (PascalCase, e.g. \"Counter\")");
        return Err(VectisError::InvalidProject { message: msg });
    }
    let mut i: usize = 1;
    while i < s.len()
        invariant
            1 <= i <= s@.len(),
            s@ == app_name@,
            is_upper(s@[0]),
            forall|k: int| 1 <= k < i ==> is_alnum(#[trigger] s@[k]),
        decreases s@.len() - i,
    {
        let c = s[i];
        if !(('0' <= c && c <= '9') || ('A' <= c && c <= 'Z') || ('a' <= c && c <= 'z')) {
            assert(!is_alnum(s@[i as int]));
            let mut msg = owned("app name ");
            let q = debug_quoted(app_name);
            msg.append(q.as_str());
            msg.append(" must contain only ASCII alphanumeric characters (PascalCase)");
            return Err(VectisError::InvalidProject { message: msg });
        }
        i = i + 1;
    }
    Ok(())
}

/// The default Android package of an app: `com.vectis.` and the app name
/// in lower case.
pub open spec fn default_package(app_name: Seq<char>) -> Seq<char> {
    "com.vectis."@ + lowercase_form(app_name)
}

/// Compute the default Android package.
pub fn default_android_package(app_name: &str) -> (r: String)
    ensures
        r@ == default_package(app_name@),
        all_ascii(app_name@) ==> r@ == "com.vectis."@ + app_name@.map_values(|c: char| ascii_lower(c)),
{
    let low = to_lowercase(app_name);
    crate::text::cat("com.vectis.", low.as_str())
}

/// Build the placeholder values from the app name, the Android package
/// and the pins. The NDK placeholder keeps its own name: it is filled in
/// when the Android shell is built.
pub fn build_params(app_name: &str, android_package: &str, versions: &Versions) -> (r: Params)
    ensures
        r.app_name@ == app_name@,
        r.app_struct@ == app_name@,
        r.app_name_lower@ == lowercase_form(app_name@),
        all_ascii(app_name@) ==> r.app_name_lower@ == app_name@.map_values(|c: char| ascii_lower(c)),
        r.android_package@ == android_package@,
        r.crux_core_version@ == versions.crux.crux_core@,
        r.crux_http_version@ == versions.crux.crux_http@,
        r.crux_kv_version@ == versions.crux.crux_kv@,
        r.crux_time_version@ == versions.crux.crux_time@,
        r.crux_platform_version@ == versions.crux.crux_platform@,
        r.facet_version@ == versions.crux.facet@,
        r.serde_version@ == versions.crux.serde@,
        r.uniffi_version@ == versions.crux.uniffi@,
        r.agp_version@ == versions.android.agp@,
        r.kotlin_version@ == versions.android.kotlin@,
        r.compose_bom_version@ == versions.android.compose_bom@,
        r.ktor_version@ == versions.android.ktor@,
        r.koin_version@ == versions.android.koin@,
        r.android_ndk_version@ == "__ANDROID_NDK_VERSION__"@,
{
    Params {
        app_name: owned(app_name),
        app_struct: owned(app_name),
        app_name_lower: to_lowercase(app_name),
        android_package: owned(android_package),
        crux_core_version: versions.crux.crux_core.clone(),
        crux_http_version: versions.crux.crux_http.clone(),
        crux_kv_version: versions.crux.crux_kv.clone(),
        crux_time_version: versions.crux.crux_time.clone(),
        crux_platform_version: versions.crux.crux_platform.clone(),
        facet_version: versions.crux.facet.clone(),
        serde_version: versions.crux.serde.clone(),
        uniffi_version: versions.crux.uniffi.clone(),
        agp_version: versions.android.agp.clone(),
        kotlin_version: versions.android.kotlin.clone(),
        compose_bom_version: versions.android.compose_bom.clone(),
        ktor_version: versions.android.ktor.clone(),
        koin_version: versions.android.koin.clone(),
        android_ndk_version: owned("__ANDROID_NDK_VERSION__"),
    }
}

// ---------------------------------------------------------------------
// Comma-separated lists.
// ---------------------------------------------------------------------

/// The trimmed pieces of a comma-separated list (empty ones included).
pub open spec fn list_items(raw: Seq<char>) -> Seq<Seq<char>> {
    split_char(raw, ',').map_values(|p: Seq<char>| trim(p))
}

/// `--caps` over the items `items`: empty items are skipped, an unknown
/// tag stops the parse (`Err` holds it), duplicates keep their first
/// position.
pub open spec fn caps_of(items: Seq<Seq<char>>) -> Result<Seq<Capability>, Seq<char>>
    decreases items.len(),
{
    if items.len() == 0 {
        Ok(Seq::empty())
    } else {
        match caps_of(items.drop_last()) {
            Err(t) => Err(t),
            Ok(cs) => {
                let t = items.last();
                if t.len() == 0 {
                    Ok(cs)
                } else {
                    match cap_of_tag(t) {
                        None => Err(t),
                        Some(c) => if cs.contains(c) {
                            Ok(cs)
                        } else {
                            Ok(cs.push(c))
                        },
                    }
                }
            },
        }
    }
}

/// The error for an unknown capability tag.
pub open spec fn unknown_cap_message(t: Seq<char>) -> Seq<char> {
    "unknown capability: "@ + debug_form(t) + " (expected one of: http, kv, time, platform, sse)"@
}

/// Parse `--caps`: absent means none; otherwise see `caps_of`. The result
/// never lists a capability twice.
pub fn parse_caps(raw: Option<&str>) -> (r: Result<Vec<Capability>, VectisError>)
    ensures
        match raw {
            None => r is Ok && r->Ok_0@.len() == 0,
            Some(s) => match caps_of(list_items(s@)) {
                Ok(cs) => r is Ok && r->Ok_0@ == cs,
                Err(t) => r is Err && r->Err_0 is InvalidProject && error_message(r->Err_0)
                    == unknown_cap_message(t),
            },
        },
        r is Ok ==> forall|i: int, j: int|
            0 <= i < j < r->Ok_0@.len() ==> r->Ok_0@[i] != r->Ok_0@[j],
{
    let mut out: Vec<Capability> = Vec::new();
    let s = match raw {
        None => {
            return Ok(out);
        },
        Some(s) => s,
    };
    let v = chars_of(s);
    let pieces = split_seq(&v, ',');
    let ghost items = list_items(s@);
    proof {
        lemma_split_nonempty(s@, ',');
    }
    let mut i: usize = 0;
    assert(items.subrange(0, 0) =~= Seq::<Seq<char>>::empty());
    while i < pieces.len()
        invariant
            i <= pieces@.len(),
            pieces@.len() == items.len(),
            items == list_items(s@),
            raw == Some(s),
            v@ == s@,
            pieces@.len() == split_char(s@, ',').len(),
            forall|k: int| 0 <= k < pieces@.len() ==> #[trigger] pieces@[k]@ == split_char(s@, ',')[k],
            caps_of(items.subrange(0, i as int)) == Ok::<Seq<Capability>, Seq<char>>(out@),
            forall|a: int, b: int| 0 <= a < b < out@.len() ==> out@[a] != out@[b],
        decreases pieces@.len() - i,
    {
        let ghost pre = items.subrange(0, i as int);
        let ghost post = items.subrange(0, i + 1);
        assert(post.drop_last() =~= pre);
        let t = trim_seq(pieces[i].as_slice());
        assert(t@ == items[i as int]);
        assert(post.last() == items[i as int]);
        if t.len() > 0 {
            let tag = string_of(&t);
            match Capability::from_tag(tag.as_str()) {
                None => {
                    let mut msg = owned("unknown capability: ");
                    let q = debug_quoted(tag.as_str());
                    msg.append(q.as_str());
                    msg.append(" (expected one of: http, kv, time, platform, sse)");
                    assert(caps_of(post) == Err::<Seq<Capability>, Seq<char>>(t@));
                    proof {
                        lemma_caps_err_sticks(items, i as int + 1);
                    }
                    return Err(VectisError::InvalidProject { message: msg });
                },
                Some(c) => {
                    let mut seen = false;
                    let mut k: usize = 0;
                    while k < out.len()
                        invariant
                            k <= out@.len(),
                            seen == exists|j: int| 0 <= j < k && out@[j] == c,
                        decreases out@.len() - k,
                    {
                        if out[k] == c {
                            seen = true;
                        }
                        k = k + 1;
                    }
                    if !seen {
                        out.push(c);
                    } else {
                        proof {
                            let j = choose|j: int| 0 <= j < out@.len() && out@[j] == c;
                            assert(out@.contains(c));
                        }
                    }
                },
            }
        }
        i = i + 1;
    }
    assert(items.subrange(0, items.len() as int) =~= items);
    Ok(out)
}

/// Once a prefix of the items fails, the whole list fails the same way.
proof fn lemma_caps_err_sticks(items: Seq<Seq<char>>, n: int)
    requires
        0 <= n <= items.len(),
        caps_of(items.subrange(0, n)) is Err,
    ensures
        caps_of(items) == caps_of(items.subrange(0, n)),
    decreases items.len() - n,
{
    if n < items.len() {
        assert(items.subrange(0, n + 1).drop_last() =~= items.subrange(0, n));
        lemma_caps_err_sticks(items, n + 1);
    } else {
        assert(items.subrange(0, n) =~= items);
    }
}

/// The shell a `--shells` item names.
pub open spec fn shell_of(t: Seq<char>) -> Option<AssemblyKind> {
    if t == "ios"@ {
        Some(AssemblyKind::Ios)
    } else if t == "android"@ {
        Some(AssemblyKind::Android)
    } else {
        None
    }
}

/// `--shells` over the items: empty items are skipped, an unknown
/// platform stops the parse (`Err` holds it); repeats are kept.
pub open spec fn shells_of(items: Seq<Seq<char>>) -> Result<Seq<AssemblyKind>, Seq<char>>
    decreases items.len(),
{
    if items.len() == 0 {
        Ok(Seq::empty())
    } else {
        match shells_of(items.drop_last()) {
            Err(t) => Err(t),
            Ok(ss) => {
                let t = items.last();
                if t.len() == 0 {
                    Ok(ss)
                } else {
                    match shell_of(t) {
                        None => Err(t),
                        Some(a) => Ok(ss.push(a)),
                    }
                }
            },
        }
    }
}

/// The error for an unknown shell platform.
pub open spec fn unknown_shell_message(t: Seq<char>) -> Seq<char> {
    "unknown shell platform: "@ + debug_form(t) + " (expected one of: ios, android)"@
}

proof fn lemma_shells_err_sticks(items: Seq<Seq<char>>, n: int)
    requires
        0 <= n <= items.len(),
        shells_of(items.subrange(0, n)) is Err,
    ensures
        shells_of(items) == shells_of(items.subrange(0, n)),
    decreases items.len() - n,
{
    if n < items.len() {
        assert(items.subrange(0, n + 1).drop_last() =~= items.subrange(0, n));
        lemma_shells_err_sticks(items, n + 1);
    } else {
        assert(items.subrange(0, n) =~= items);
    }
}

/// Parse `--shells`: absent means none; otherwise see `shells_of`.
pub fn parse_shells(raw: Option<&str>) -> (r: Result<Vec<AssemblyKind>, VectisError>)
    ensures
        match raw {
            None => r is Ok && r->Ok_0@.len() == 0,
            Some(s) => match shells_of(list_items(s@)) {
                Ok(ss) => r is Ok && r->Ok_0@ == ss,
                Err(t) => r is Err && r->Err_0 is InvalidProject && error_message(r->Err_0)
                    == unknown_shell_message(t),
            },
        },
{
    let mut out: Vec<AssemblyKind> = Vec::new();
    let s = match raw {
        None => {
            return Ok(out);
        },
        Some(s) => s,
    };
    let v = chars_of(s);
    let pieces = split_seq(&v, ',');
    let ghost items = list_items(s@);
    let mut i: usize = 0;
    assert(items.subrange(0, 0) =~= Seq::<Seq<char>>::empty());
    while i < pieces.len()
        invariant
            i <= pieces@.len(),
            pieces@.len() == items.len(),
            items == list_items(s@),
            raw == Some(s),
            pieces@.len() == split_char(s@, ',').len(),
            forall|k: int| 0 <= k < pieces@.len() ==> #[trigger] pieces@[k]@ == split_char(s@, ',')[k],
            shells_of(items.subrange(0, i as int)) == Ok::<Seq<AssemblyKind>, Seq<char>>(out@),
        decreases pieces@.len() - i,
    {
        let ghost pre = items.subrange(0, i as int);
        let ghost post = items.subrange(0, i + 1);
        assert(post.drop_last() =~= pre);
        let t = trim_seq(pieces[i].as_slice());
        assert(t@ == items[i as int]);
        assert(post.last() == items[i as int]);
        if t.len() > 0 {
            let name = string_of(&t);
            if crate::text::str_eq(name.as_str(), "ios") {
                out.push(AssemblyKind::Ios);
            } else if crate::text::str_eq(name.as_str(), "android") {
                out.push(AssemblyKind::Android);
            } else {
                let mut msg = owned("unknown shell platform: ");
                let q = debug_quoted(name.as_str());
                msg.append(q.as_str());
                msg.append(" (expected one of: ios, android)");
                proof {
                    lemma_shells_err_sticks(items, i as int + 1);
                }
                return Err(VectisError::InvalidProject { message: msg });
            }
        }
        i = i + 1;
    }
    assert(items.subrange(0, items.len() as int) =~= items);
    Ok(out)
}

} // verus!
