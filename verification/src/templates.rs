//! Template engine: placeholder substitution and capability-conditional
//! regions (`<<<CAP:tag` ... `CAP:tag>>>`), plus the capability set.

use vstd::prelude::*;

use crate::text::{
    after_prefix, before_suffix, char_is_ws, has_char, lemma_replace_absent, lemma_split_nonempty,
    split_char, strip_cr, chars_of, contains, ends_with, extend_chars, is_ws, join,
    lines, lines_seq, matches_at, occurs_at, replace_all, replace_seq, seq_contains, seq_eq,
    slice_chars, starts_with, str_eq, string_of, trim, trim_seq,
};

verus! {

/// A capability the user can enable via `--caps`.
#[derive(Debug, Clone, Copy, PartialEq, Eq, Structural)]
pub enum Capability {
    Http,
    Kv,
    Time,
    Platform,
    Sse,
}

/// Marker tag of a capability as it appears in templates.
pub open spec fn cap_tag(c: Capability) -> Seq<char> {
    match c {
        Capability::Http => "http"@,
        Capability::Kv => "kv"@,
        Capability::Time => "time"@,
        Capability::Platform => "platform"@,
        Capability::Sse => "sse"@,
    }
}

/// The capability whose tag is `t`, if any.
pub open spec fn cap_of_tag(t: Seq<char>) -> Option<Capability> {
    if t == "http"@ {
        Some(Capability::Http)
    } else if t == "kv"@ {
        Some(Capability::Kv)
    } else if t == "time"@ {
        Some(Capability::Time)
    } else if t == "platform"@ {
        Some(Capability::Platform)
    } else if t == "sse"@ {
        Some(Capability::Sse)
    } else {
        None
    }
}

impl Capability {
    /// Marker tag as it appears in the templates (e.g. `<<<CAP:http`).
    pub fn marker_tag(self) -> (r: &'static str)
        ensures
            r@ == cap_tag(self),
    {
        match self {
            Capability::Http => "http",
            Capability::Kv => "kv",
            Capability::Time => "time",
            Capability::Platform => "platform",
            Capability::Sse => "sse",
        }
    }

    /// Parse the user-facing tag (as accepted on `--caps`). Unknown
    /// tags yield `None`.
    pub fn from_tag(tag: &str) -> (r: Option<Capability>)
        ensures
            r == cap_of_tag(tag@),
    {
        if str_eq(tag, "http") {
            Some(Capability::Http)
        } else if str_eq(tag, "kv") {
            Some(Capability::Kv)
        } else if str_eq(tag, "time") {
            Some(Capability::Time)
        } else if str_eq(tag, "platform") {
            Some(Capability::Platform)
        } else if str_eq(tag, "sse") {
            Some(Capability::Sse)
        } else {
            None
        }
    }
}

/// Parsing a capability's own tag gives the capability back.
pub proof fn law_tag_round_trip(c: Capability)
    ensures
        cap_of_tag(cap_tag(c)) == Some(c),
{
    reveal_strlit("http");
    reveal_strlit("kv");
    reveal_strlit("time");
    reveal_strlit("platform");
    reveal_strlit("sse");
    assert("time"@[0] != "http"@[0]);
    assert("sse"@[0] != "kv"@[0]);
    assert("platform"@.len() != "http"@.len());
    assert("sse"@.len() != "http"@.len() && "sse"@.len() != "time"@.len());
    assert("kv"@.len() != "http"@.len() && "kv"@.len() != "time"@.len());
}

/// Placeholder values supplied per scaffold invocation. Each `__FOO__`
/// placeholder is a literal string substitution.
#[derive(Debug, Clone)]
pub struct Params {
    pub app_name: String,
    pub app_struct: String,
    pub app_name_lower: String,
    pub android_package: String,
    pub crux_core_version: String,
    pub crux_http_version: String,
    pub crux_kv_version: String,
    pub crux_time_version: String,
    pub crux_platform_version: String,
    pub facet_version: String,
    pub serde_version: String,
    pub uniffi_version: String,
    pub agp_version: String,
    pub kotlin_version: String,
    pub compose_bom_version: String,
    pub ktor_version: String,
    pub koin_version: String,
    pub android_ndk_version: String,
}

/// Every placeholder the engine substitutes, in substitution order,
/// paired with its value. Longer names that contain shorter ones come
/// first (`__APP_NAME_LOWER__` before `__APP_NAME__`).
pub open spec fn placeholder_table(p: Params) -> Seq<(Seq<char>, Seq<char>)> {
    seq![
        ("__APP_NAME_LOWER__"@, p.app_name_lower@),
        ("__APP_NAME__"@, p.app_name@),
        ("__APP_STRUCT__"@, p.app_struct@),
        ("__ANDROID_PACKAGE__"@, p.android_package@),
        ("__CRUX_CORE_VERSION__"@, p.crux_core_version@),
        ("__CRUX_HTTP_VERSION__"@, p.crux_http_version@),
        ("__CRUX_KV_VERSION__"@, p.crux_kv_version@),
        ("__CRUX_TIME_VERSION__"@, p.crux_time_version@),
        ("__CRUX_PLATFORM_VERSION__"@, p.crux_platform_version@),
        ("__FACET_VERSION__"@, p.facet_version@),
        ("__SERDE_VERSION__"@, p.serde_version@),
        ("__UNIFFI_VERSION__"@, p.uniffi_version@),
        ("__AGP_VERSION__"@, p.agp_version@),
        ("__KOTLIN_VERSION__"@, p.kotlin_version@),
        ("__COMPOSE_BOM_VERSION__"@, p.compose_bom_version@),
        ("__KTOR_VERSION__"@, p.ktor_version@),
        ("__KOIN_VERSION__"@, p.koin_version@),
        ("__ANDROID_NDK_VERSION__"@, p.android_ndk_version@),
    ]
}

/// Apply the replacements of `table` to `s`, first entry first.
pub open spec fn replace_chain(s: Seq<char>, table: Seq<(Seq<char>, Seq<char>)>) -> Seq<char>
    decreases table.len(),
{
    if table.len() == 0 {
        s
    } else {
        replace_chain(replace_all(s, table[0].0, table[0].1), table.subrange(1, table.len() as int))
    }
}

/// The result of substituting every placeholder of `p` into `s`.
pub open spec fn substituted(s: Seq<char>, p: Params) -> Seq<char> {
    replace_chain(s, placeholder_table(p))
}

/// Replace every occurrence of the literal `pat` in `s` by `rep`.
fn replace_lit(s: Vec<char>, pat: &str, rep: &String) -> (r: Vec<char>)
    requires
        pat@.len() > 0,
    ensures
        r@ == replace_all(s@, pat@, rep@),
{
    let p = chars_of(pat);
    let rr = chars_of(rep.as_str());
    replace_seq(&s, &p, &rr)
}

/// One step of `replace_chain`.
proof fn lemma_chain_step(s: Seq<char>, table: Seq<(Seq<char>, Seq<char>)>, k: int)
    requires
        0 <= k < table.len(),
    ensures
        replace_chain(s, table.subrange(k, table.len() as int)) == replace_chain(
            replace_all(s, table[k].0, table[k].1),
            table.subrange(k + 1, table.len() as int),
        ),
{
    let t = table.subrange(k, table.len() as int);
    assert(t.subrange(1, t.len() as int) =~= table.subrange(k + 1, table.len() as int));
}

/// A placeholder-shaped name: `__`, then text in which `__` never
/// occurs and which neither starts nor ends with `_`, then `__`.
pub open spec fn delimited(s: Seq<char>) -> bool {
    &&& s.len() >= 4
    &&& s[0] == '_' && s[1] == '_' && s[s.len() - 2] == '_' && s[s.len() - 1] == '_'
    &&& forall|i: int| 0 < i < s.len() - 2 ==> !(#[trigger] s[i] == '_' && s[i + 1] == '_')
}

/// A placeholder-shaped name occurs in another only when they are equal.
proof fn lemma_delimited_contains(a: Seq<char>, b: Seq<char>)
    requires
        delimited(a),
        delimited(b),
        contains(a, b),
    ensures
        a == b,
{
    let i = choose|i: int| occurs_at(a, b, i);
    let w = a.subrange(i, i + b.len());
    assert(w == b);
    assert(a[i] == w[0] && a[i + 1] == w[1]);
    if 0 < i {
        assert(!(a[i] == '_' && a[i + 1] == '_'));
    }
    assert(i == 0);
    let j = b.len() - 2;
    assert(a[j] == w[j] && a[j + 1] == w[j + 1]);
    if j < a.len() - 2 {
        assert(!(a[j] == '_' && a[j + 1] == '_'));
    }
    assert(b.len() == a.len());
    assert(a =~= w);
}

/// A text without `"__"` holds no placeholder-shaped name.
proof fn lemma_no_dunder(v: Seq<char>, name: Seq<char>)
    requires
        !contains(v, "__"@),
        delimited(name),
    ensures
        !contains(v, name),
{
    reveal_strlit("__");
    if contains(v, name) {
        let i = choose|i: int| occurs_at(v, name, i);
        let w = v.subrange(i, i + name.len());
        assert(w == name);
        assert(v.subrange(i, i + 2) =~= "__"@) by {
            assert(v[i] == w[0] && v[i + 1] == w[1]);
        }
        assert(occurs_at(v, "__"@, i));
    }
}

/// Replacing a pattern in the pattern itself gives the replacement.
proof fn lemma_replace_self(p: Seq<char>, r: Seq<char>)
    requires
        p.len() > 0,
    ensures
        replace_all(p, p, r) == r,
{
    assert(p.subrange(0, p.len() as int) =~= p);
    assert(p.subrange(p.len() as int, p.len() as int).len() == 0);
    assert(replace_all(p.subrange(p.len() as int, p.len() as int), p, r) =~= Seq::<char>::empty());
    assert(r + Seq::<char>::empty() =~= r);
}

/// Substituting the `k`-th name of a table, which holds none of the
/// earlier names, with a value holding none of the later names, gives
/// that value.
proof fn lemma_chain_pick(table: Seq<(Seq<char>, Seq<char>)>, k: int)
    requires
        0 <= k < table.len(),
        table[k].0.len() > 0,
        forall|j: int| 0 <= j < k ==> !contains(table[k].0, #[trigger] table[j].0),
        forall|j: int| k < j < table.len() ==> !contains(table[k].1, #[trigger] table[j].0),
    ensures
        replace_chain(table[k].0, table) == table[k].1,
    decreases k,
{
    let rest = table.subrange(1, table.len() as int);
    if k == 0 {
        lemma_replace_self(table[0].0, table[0].1);
        assert forall|j: int| 0 <= j < rest.len() implies !contains(table[0].1, #[trigger] rest[j].0) by {
            assert(rest[j] == table[j + 1]);
        }
        lemma_chain_absent(table[0].1, rest);
    } else {
        assert(!contains(table[k].0, table[0].0));
        lemma_replace_absent(table[k].0, table[0].0, table[0].1);
        assert(rest[k - 1] == table[k]);
        assert forall|j: int| 0 <= j < k - 1 implies !contains(rest[k - 1].0, #[trigger] rest[j].0) by {
            assert(rest[j] == table[j + 1]);
        }
        assert forall|j: int| k - 1 < j < rest.len() implies !contains(rest[k - 1].1, #[trigger] rest[j].0) by {
            assert(rest[j] == table[j + 1]);
        }
        lemma_chain_pick(rest, k - 1);
    }
}

/// Each placeholder is replaced by its own parameter: substituting a
/// text that is exactly a placeholder's name gives that parameter's
/// value, for parameters whose values hold no `"__"` (so that no later
/// substitution reaches into them).
pub proof fn law_each_placeholder_takes_its_own_value(p: Params)
    requires
        !contains(p.app_name_lower@, "__"@),
        !contains(p.app_name@, "__"@),
        !contains(p.app_struct@, "__"@),
        !contains(p.android_package@, "__"@),
        !contains(p.crux_core_version@, "__"@),
        !contains(p.crux_http_version@, "__"@),
        !contains(p.crux_kv_version@, "__"@),
        !contains(p.crux_time_version@, "__"@),
        !contains(p.crux_platform_version@, "__"@),
        !contains(p.facet_version@, "__"@),
        !contains(p.serde_version@, "__"@),
        !contains(p.uniffi_version@, "__"@),
        !contains(p.agp_version@, "__"@),
        !contains(p.kotlin_version@, "__"@),
        !contains(p.compose_bom_version@, "__"@),
        !contains(p.ktor_version@, "__"@),
        !contains(p.koin_version@, "__"@),
        !contains(p.android_ndk_version@, "__"@),
    ensures
        substituted("__APP_NAME_LOWER__"@, p) == p.app_name_lower@,
        substituted("__APP_NAME__"@, p) == p.app_name@,
        substituted("__APP_STRUCT__"@, p) == p.app_struct@,
        substituted("__ANDROID_PACKAGE__"@, p) == p.android_package@,
        substituted("__CRUX_CORE_VERSION__"@, p) == p.crux_core_version@,
        substituted("__CRUX_HTTP_VERSION__"@, p) == p.crux_http_version@,
        substituted("__CRUX_KV_VERSION__"@, p) == p.crux_kv_version@,
        substituted("__CRUX_TIME_VERSION__"@, p) == p.crux_time_version@,
        substituted("__CRUX_PLATFORM_VERSION__"@, p) == p.crux_platform_version@,
        substituted("__FACET_VERSION__"@, p) == p.facet_version@,
        substituted("__SERDE_VERSION__"@, p) == p.serde_version@,
        substituted("__UNIFFI_VERSION__"@, p) == p.uniffi_version@,
        substituted("__AGP_VERSION__"@, p) == p.agp_version@,
        substituted("__KOTLIN_VERSION__"@, p) == p.kotlin_version@,
        substituted("__COMPOSE_BOM_VERSION__"@, p) == p.compose_bom_version@,
        substituted("__KTOR_VERSION__"@, p) == p.ktor_version@,
        substituted("__KOIN_VERSION__"@, p) == p.koin_version@,
        substituted("__ANDROID_NDK_VERSION__"@, p) == p.android_ndk_version@,
{
    reveal_strlit("__APP_NAME_LOWER__");
    reveal_strlit("__APP_NAME__");
    reveal_strlit("__APP_STRUCT__");
    reveal_strlit("__ANDROID_PACKAGE__");
    reveal_strlit("__CRUX_CORE_VERSION__");
    reveal_strlit("__CRUX_HTTP_VERSION__");
    reveal_strlit("__CRUX_KV_VERSION__");
    reveal_strlit("__CRUX_TIME_VERSION__");
    reveal_strlit("__CRUX_PLATFORM_VERSION__");
    reveal_strlit("__FACET_VERSION__");
    reveal_strlit("__SERDE_VERSION__");
    reveal_strlit("__UNIFFI_VERSION__");
    reveal_strlit("__AGP_VERSION__");
    reveal_strlit("__KOTLIN_VERSION__");
    reveal_strlit("__COMPOSE_BOM_VERSION__");
    reveal_strlit("__KTOR_VERSION__");
    reveal_strlit("__KOIN_VERSION__");
    reveal_strlit("__ANDROID_NDK_VERSION__");
    reveal_strlit("__");
    assert(delimited("__APP_NAME_LOWER__"@));
    assert(delimited("__APP_NAME__"@));
    assert(delimited("__APP_STRUCT__"@));
    assert(delimited("__ANDROID_PACKAGE__"@));
    assert(delimited("__CRUX_CORE_VERSION__"@));
    assert(delimited("__CRUX_HTTP_VERSION__"@));
    assert(delimited("__CRUX_KV_VERSION__"@));
    assert(delimited("__CRUX_TIME_VERSION__"@));
    assert(delimited("__CRUX_PLATFORM_VERSION__"@));
    assert(delimited("__FACET_VERSION__"@));
    assert(delimited("__SERDE_VERSION__"@));
    assert(delimited("__UNIFFI_VERSION__"@));
    assert(delimited("__AGP_VERSION__"@));
    assert(delimited("__KOTLIN_VERSION__"@));
    assert(delimited("__COMPOSE_BOM_VERSION__"@));
    assert(delimited("__KTOR_VERSION__"@));
    assert(delimited("__KOIN_VERSION__"@));
    assert(delimited("__ANDROID_NDK_VERSION__"@));
    let t = placeholder_table(p);
    assert(t[0].0 == "__APP_NAME_LOWER__"@);
    assert(t[1].0 == "__APP_NAME__"@);
    assert(t[2].0 == "__APP_STRUCT__"@);
    assert(t[3].0 == "__ANDROID_PACKAGE__"@);
    assert(t[4].0 == "__CRUX_CORE_VERSION__"@);
    assert(t[5].0 == "__CRUX_HTTP_VERSION__"@);
    assert(t[6].0 == "__CRUX_KV_VERSION__"@);
    assert(t[7].0 == "__CRUX_TIME_VERSION__"@);
    assert(t[8].0 == "__CRUX_PLATFORM_VERSION__"@);
    assert(t[9].0 == "__FACET_VERSION__"@);
    assert(t[10].0 == "__SERDE_VERSION__"@);
    assert(t[11].0 == "__UNIFFI_VERSION__"@);
    assert(t[12].0 == "__AGP_VERSION__"@);
    assert(t[13].0 == "__KOTLIN_VERSION__"@);
    assert(t[14].0 == "__COMPOSE_BOM_VERSION__"@);
    assert(t[15].0 == "__KTOR_VERSION__"@);
    assert(t[16].0 == "__KOIN_VERSION__"@);
    assert(t[17].0 == "__ANDROID_NDK_VERSION__"@);
    assert forall|k: int| 0 <= k < t.len() implies delimited(#[trigger] t[k].0) && !contains(t[k].1, "__"@) by {}
    assert(replace_chain(t[0].0, t) == t[0].1) by {
        assert forall|j: int| 0 < j < t.len() implies !contains(t[0].1, #[trigger] t[j].0) by {
            lemma_no_dunder(t[0].1, t[j].0);
        }
        lemma_chain_pick(t, 0);
    }
    assert(replace_chain(t[1].0, t) == t[1].1) by {
        assert forall|j: int| 0 <= j < 1 implies (#[trigger] t[j]).0 != t[1].0 by {
            if j == 0 {
                assert(t[0].0.len() != t[1].0.len());
            }
        }
        assert forall|j: int| 0 <= j < 1 implies !contains(t[1].0, #[trigger] t[j].0) by {
            if contains(t[1].0, t[j].0) {
                lemma_delimited_contains(t[1].0, t[j].0);
            }
        }
        assert forall|j: int| 1 < j < t.len() implies !contains(t[1].1, #[trigger] t[j].0) by {
            lemma_no_dunder(t[1].1, t[j].0);
        }
        lemma_chain_pick(t, 1);
    }
    assert(replace_chain(t[2].0, t) == t[2].1) by {
        assert forall|j: int| 0 <= j < 2 implies (#[trigger] t[j]).0 != t[2].0 by {
            if j == 0 {
                assert(t[0].0.len() != t[2].0.len());
            } else if j == 1 {
                assert(t[1].0.len() != t[2].0.len());
            }
        }
        assert forall|j: int| 0 <= j < 2 implies !contains(t[2].0, #[trigger] t[j].0) by {
            if contains(t[2].0, t[j].0) {
                lemma_delimited_contains(t[2].0, t[j].0);
            }
        }
        assert forall|j: int| 2 < j < t.len() implies !contains(t[2].1, #[trigger] t[j].0) by {
            lemma_no_dunder(t[2].1, t[j].0);
        }
        lemma_chain_pick(t, 2);
    }
    assert(replace_chain(t[3].0, t) == t[3].1) by {
        assert forall|j: int| 0 <= j < 3 implies (#[trigger] t[j]).0 != t[3].0 by {
            if j == 0 {
                assert(t[0].0.len() != t[3].0.len());
            } else if j == 1 {
                assert(t[1].0.len() != t[3].0.len());
            } else if j == 2 {
                assert(t[2].0.len() != t[3].0.len());
            }
        }
        assert forall|j: int| 0 <= j < 3 implies !contains(t[3].0, #[trigger] t[j].0) by {
            if contains(t[3].0, t[j].0) {
                lemma_delimited_contains(t[3].0, t[j].0);
            }
        }
        assert forall|j: int| 3 < j < t.len() implies !contains(t[3].1, #[trigger] t[j].0) by {
            lemma_no_dunder(t[3].1, t[j].0);
        }
        lemma_chain_pick(t, 3);
    }
    assert(replace_chain(t[4].0, t) == t[4].1) by {
        assert forall|j: int| 0 <= j < 4 implies (#[trigger] t[j]).0 != t[4].0 by {
            if j == 0 {
                assert(t[0].0.len() != t[4].0.len());
            } else if j == 1 {
                assert(t[1].0.len() != t[4].0.len());
            } else if j == 2 {
                assert(t[2].0.len() != t[4].0.len());
            } else if j == 3 {
                assert(t[3].0.len() != t[4].0.len());
            }
        }
        assert forall|j: int| 0 <= j < 4 implies !contains(t[4].0, #[trigger] t[j].0) by {
            if contains(t[4].0, t[j].0) {
                lemma_delimited_contains(t[4].0, t[j].0);
            }
        }
        assert forall|j: int| 4 < j < t.len() implies !contains(t[4].1, #[trigger] t[j].0) by {
            lemma_no_dunder(t[4].1, t[j].0);
        }
        lemma_chain_pick(t, 4);
    }
    assert(replace_chain(t[5].0, t) == t[5].1) by {
        assert forall|j: int| 0 <= j < 5 implies (#[trigger] t[j]).0 != t[5].0 by {
            if j == 0 {
                assert(t[0].0.len() != t[5].0.len());
            } else if j == 1 {
                assert(t[1].0.len() != t[5].0.len());
            } else if j == 2 {
                assert(t[2].0.len() != t[5].0.len());
            } else if j == 3 {
                assert(t[3].0.len() != t[5].0.len());
            } else if j == 4 {
                assert(t[4].0[7] != t[5].0[7]);
            }
        }
        assert forall|j: int| 0 <= j < 5 implies !contains(t[5].0, #[trigger] t[j].0) by {
            if contains(t[5].0, t[j].0) {
                lemma_delimited_contains(t[5].0, t[j].0);
            }
        }
        assert forall|j: int| 5 < j < t.len() implies !contains(t[5].1, #[trigger] t[j].0) by {
            lemma_no_dunder(t[5].1, t[j].0);
        }
        lemma_chain_pick(t, 5);
    }
    assert(replace_chain(t[6].0, t) == t[6].1) by {
        assert forall|j: int| 0 <= j < 6 implies (#[trigger] t[j]).0 != t[6].0 by {
            if j == 0 {
                assert(t[0].0.len() != t[6].0.len());
            } else if j == 1 {
                assert(t[1].0.len() != t[6].0.len());
            } else if j == 2 {
                assert(t[2].0.len() != t[6].0.len());
            } else if j == 3 {
                assert(t[3].0[2] != t[6].0[2]);
            } else if j == 4 {
                assert(t[4].0.len() != t[6].0.len());
            } else if j == 5 {
                assert(t[5].0.len() != t[6].0.len());
            }
        }
        assert forall|j: int| 0 <= j < 6 implies !contains(t[6].0, #[trigger] t[j].0) by {
            if contains(t[6].0, t[j].0) {
                lemma_delimited_contains(t[6].0, t[j].0);
            }
        }
        assert forall|j: int| 6 < j < t.len() implies !contains(t[6].1, #[trigger] t[j].0) by {
            lemma_no_dunder(t[6].1, t[j].0);
        }
        lemma_chain_pick(t, 6);
    }
    assert(replace_chain(t[7].0, t) == t[7].1) by {
        assert forall|j: int| 0 <= j < 7 implies (#[trigger] t[j]).0 != t[7].0 by {
            if j == 0 {
                assert(t[0].0.len() != t[7].0.len());
            } else if j == 1 {
                assert(t[1].0.len() != t[7].0.len());
            } else if j == 2 {
                assert(t[2].0.len() != t[7].0.len());
            } else if j == 3 {
                assert(t[3].0.len() != t[7].0.len());
            } else if j == 4 {
                assert(t[4].0[7] != t[7].0[7]);
            } else if j == 5 {
                assert(t[5].0[7] != t[7].0[7]);
            } else if j == 6 {
                assert(t[6].0.len() != t[7].0.len());
            }
        }
        assert forall|j: int| 0 <= j < 7 implies !contains(t[7].0, #[trigger] t[j].0) by {
            if contains(t[7].0, t[j].0) {
                lemma_delimited_contains(t[7].0, t[j].0);
            }
        }
        assert forall|j: int| 7 < j < t.len() implies !contains(t[7].1, #[trigger] t[j].0) by {
            lemma_no_dunder(t[7].1, t[j].0);
        }
        lemma_chain_pick(t, 7);
    }
    assert(replace_chain(t[8].0, t) == t[8].1) by {
        assert forall|j: int| 0 <= j < 8 implies (#[trigger] t[j]).0 != t[8].0 by {
            if j == 0 {
                assert(t[0].0.len() != t[8].0.len());
            } else if j == 1 {
                assert(t[1].0.len() != t[8].0.len());
            } else if j == 2 {
                assert(t[2].0.len() != t[8].0.len());
            } else if j == 3 {
                assert(t[3].0.len() != t[8].0.len());
            } else if j == 4 {
                assert(t[4].0.len() != t[8].0.len());
            } else if j == 5 {
                assert(t[5].0.len() != t[8].0.len());
            } else if j == 6 {
                assert(t[6].0.len() != t[8].0.len());
            } else if j == 7 {
                assert(t[7].0.len() != t[8].0.len());
            }
        }
        assert forall|j: int| 0 <= j < 8 implies !contains(t[8].0, #[trigger] t[j].0) by {
            if contains(t[8].0, t[j].0) {
                lemma_delimited_contains(t[8].0, t[j].0);
            }
        }
        assert forall|j: int| 8 < j < t.len() implies !contains(t[8].1, #[trigger] t[j].0) by {
            lemma_no_dunder(t[8].1, t[j].0);
        }
        lemma_chain_pick(t, 8);
    }
    assert(replace_chain(t[9].0, t) == t[9].1) by {
        assert forall|j: int| 0 <= j < 9 implies (#[trigger] t[j]).0 != t[9].0 by {
            if j == 0 {
                assert(t[0].0.len() != t[9].0.len());
            } else if j == 1 {
                assert(t[1].0.len() != t[9].0.len());
            } else if j == 2 {
                assert(t[2].0.len() != t[9].0.len());
            } else if j == 3 {
                assert(t[3].0.len() != t[9].0.len());
            } else if j == 4 {
                assert(t[4].0.len() != t[9].0.len());
            } else if j == 5 {
                assert(t[5].0.len() != t[9].0.len());
            } else if j == 6 {
                assert(t[6].0.len() != t[9].0.len());
            } else if j == 7 {
                assert(t[7].0.len() != t[9].0.len());
            } else if j == 8 {
                assert(t[8].0.len() != t[9].0.len());
            }
        }
        assert forall|j: int| 0 <= j < 9 implies !contains(t[9].0, #[trigger] t[j].0) by {
            if contains(t[9].0, t[j].0) {
                lemma_delimited_contains(t[9].0, t[j].0);
            }
        }
        assert forall|j: int| 9 < j < t.len() implies !contains(t[9].1, #[trigger] t[j].0) by {
            lemma_no_dunder(t[9].1, t[j].0);
        }
        lemma_chain_pick(t, 9);
    }
    assert(replace_chain(t[10].0, t) == t[10].1) by {
        assert forall|j: int| 0 <= j < 10 implies (#[trigger] t[j]).0 != t[10].0 by {
            if j == 0 {
                assert(t[0].0.len() != t[10].0.len());
            } else if j == 1 {
                assert(t[1].0.len() != t[10].0.len());
            } else if j == 2 {
                assert(t[2].0.len() != t[10].0.len());
            } else if j == 3 {
                assert(t[3].0.len() != t[10].0.len());
            } else if j == 4 {
                assert(t[4].0.len() != t[10].0.len());
            } else if j == 5 {
                assert(t[5].0.len() != t[10].0.len());
            } else if j == 6 {
                assert(t[6].0.len() != t[10].0.len());
            } else if j == 7 {
                assert(t[7].0.len() != t[10].0.len());
            } else if j == 8 {
                assert(t[8].0.len() != t[10].0.len());
            } else if j == 9 {
                assert(t[9].0[2] != t[10].0[2]);
            }
        }
        assert forall|j: int| 0 <= j < 10 implies !contains(t[10].0, #[trigger] t[j].0) by {
            if contains(t[10].0, t[j].0) {
                lemma_delimited_contains(t[10].0, t[j].0);
            }
        }
        assert forall|j: int| 10 < j < t.len() implies !contains(t[10].1, #[trigger] t[j].0) by {
            lemma_no_dunder(t[10].1, t[j].0);
        }
        lemma_chain_pick(t, 10);
    }
    assert(replace_chain(t[11].0, t) == t[11].1) by {
        assert forall|j: int| 0 <= j < 11 implies (#[trigger] t[j]).0 != t[11].0 by {
            if j == 0 {
                assert(t[0].0[2] != t[11].0[2]);
            } else if j == 1 {
                assert(t[1].0.len() != t[11].0.len());
            } else if j == 2 {
                assert(t[2].0.len() != t[11].0.len());
            } else if j == 3 {
                assert(t[3].0.len() != t[11].0.len());
            } else if j == 4 {
                assert(t[4].0.len() != t[11].0.len());
            } else if j == 5 {
                assert(t[5].0.len() != t[11].0.len());
            } else if j == 6 {
                assert(t[6].0.len() != t[11].0.len());
            } else if j == 7 {
                assert(t[7].0.len() != t[11].0.len());
            } else if j == 8 {
                assert(t[8].0.len() != t[11].0.len());
            } else if j == 9 {
                assert(t[9].0.len() != t[11].0.len());
            } else if j == 10 {
                assert(t[10].0.len() != t[11].0.len());
            }
        }
        assert forall|j: int| 0 <= j < 11 implies !contains(t[11].0, #[trigger] t[j].0) by {
            if contains(t[11].0, t[j].0) {
                lemma_delimited_contains(t[11].0, t[j].0);
            }
        }
        assert forall|j: int| 11 < j < t.len() implies !contains(t[11].1, #[trigger] t[j].0) by {
            lemma_no_dunder(t[11].1, t[j].0);
        }
        lemma_chain_pick(t, 11);
    }
    assert(replace_chain(t[12].0, t) == t[12].1) by {
        assert forall|j: int| 0 <= j < 12 implies (#[trigger] t[j]).0 != t[12].0 by {
            if j == 0 {
                assert(t[0].0.len() != t[12].0.len());
            } else if j == 1 {
                assert(t[1].0.len() != t[12].0.len());
            } else if j == 2 {
                assert(t[2].0.len() != t[12].0.len());
            } else if j == 3 {
                assert(t[3].0.len() != t[12].0.len());
            } else if j == 4 {
                assert(t[4].0.len() != t[12].0.len());
            } else if j == 5 {
                assert(t[5].0.len() != t[12].0.len());
            } else if j == 6 {
                assert(t[6].0.len() != t[12].0.len());
            } else if j == 7 {
                assert(t[7].0.len() != t[12].0.len());
            } else if j == 8 {
                assert(t[8].0.len() != t[12].0.len());
            } else if j == 9 {
                assert(t[9].0.len() != t[12].0.len());
            } else if j == 10 {
                assert(t[10].0.len() != t[12].0.len());
            } else if j == 11 {
                assert(t[11].0.len() != t[12].0.len());
            }
        }
        assert forall|j: int| 0 <= j < 12 implies !contains(t[12].0, #[trigger] t[j].0) by {
            if contains(t[12].0, t[j].0) {
                lemma_delimited_contains(t[12].0, t[j].0);
            }
        }
        assert forall|j: int| 12 < j < t.len() implies !contains(t[12].1, #[trigger] t[j].0) by {
            lemma_no_dunder(t[12].1, t[j].0);
        }
        lemma_chain_pick(t, 12);
    }
    assert(replace_chain(t[13].0, t) == t[13].1) by {
        assert forall|j: int| 0 <= j < 13 implies (#[trigger] t[j]).0 != t[13].0 by {
            if j == 0 {
                assert(t[0].0[2] != t[13].0[2]);
            } else if j == 1 {
                assert(t[1].0.len() != t[13].0.len());
            } else if j == 2 {
                assert(t[2].0.len() != t[13].0.len());
            } else if j == 3 {
                assert(t[3].0.len() != t[13].0.len());
            } else if j == 4 {
                assert(t[4].0.len() != t[13].0.len());
            } else if j == 5 {
                assert(t[5].0.len() != t[13].0.len());
            } else if j == 6 {
                assert(t[6].0.len() != t[13].0.len());
            } else if j == 7 {
                assert(t[7].0.len() != t[13].0.len());
            } else if j == 8 {
                assert(t[8].0.len() != t[13].0.len());
            } else if j == 9 {
                assert(t[9].0.len() != t[13].0.len());
            } else if j == 10 {
                assert(t[10].0.len() != t[13].0.len());
            } else if j == 11 {
                assert(t[11].0[2] != t[13].0[2]);
            } else if j == 12 {
                assert(t[12].0.len() != t[13].0.len());
            }
        }
        assert forall|j: int| 0 <= j < 13 implies !contains(t[13].0, #[trigger] t[j].0) by {
            if contains(t[13].0, t[j].0) {
                lemma_delimited_contains(t[13].0, t[j].0);
            }
        }
        assert forall|j: int| 13 < j < t.len() implies !contains(t[13].1, #[trigger] t[j].0) by {
            lemma_no_dunder(t[13].1, t[j].0);
        }
        lemma_chain_pick(t, 13);
    }
    assert(replace_chain(t[14].0, t) == t[14].1) by {
        assert forall|j: int| 0 <= j < 14 implies (#[trigger] t[j]).0 != t[14].0 by {
            if j == 0 {
                assert(t[0].0.len() != t[14].0.len());
            } else if j == 1 {
                assert(t[1].0.len() != t[14].0.len());
            } else if j == 2 {
                assert(t[2].0.len() != t[14].0.len());
            } else if j == 3 {
                assert(t[3].0.len() != t[14].0.len());
            } else if j == 4 {
                assert(t[4].0.len() != t[14].0.len());
            } else if j == 5 {
                assert(t[5].0.len() != t[14].0.len());
            } else if j == 6 {
                assert(t[6].0.len() != t[14].0.len());
            } else if j == 7 {
                assert(t[7].0.len() != t[14].0.len());
            } else if j == 8 {
                assert(t[8].0.len() != t[14].0.len());
            } else if j == 9 {
                assert(t[9].0.len() != t[14].0.len());
            } else if j == 10 {
                assert(t[10].0.len() != t[14].0.len());
            } else if j == 11 {
                assert(t[11].0.len() != t[14].0.len());
            } else if j == 12 {
                assert(t[12].0.len() != t[14].0.len());
            } else if j == 13 {
                assert(t[13].0.len() != t[14].0.len());
            }
        }
        assert forall|j: int| 0 <= j < 14 implies !contains(t[14].0, #[trigger] t[j].0) by {
            if contains(t[14].0, t[j].0) {
                lemma_delimited_contains(t[14].0, t[j].0);
            }
        }
        assert forall|j: int| 14 < j < t.len() implies !contains(t[14].1, #[trigger] t[j].0) by {
            lemma_no_dunder(t[14].1, t[j].0);
        }
        lemma_chain_pick(t, 14);
    }
    assert(replace_chain(t[15].0, t) == t[15].1) by {
        assert forall|j: int| 0 <= j < 15 implies (#[trigger] t[j]).0 != t[15].0 by {
            if j == 0 {
                assert(t[0].0.len() != t[15].0.len());
            } else if j == 1 {
                assert(t[1].0.len() != t[15].0.len());
            } else if j == 2 {
                assert(t[2].0.len() != t[15].0.len());
            } else if j == 3 {
                assert(t[3].0.len() != t[15].0.len());
            } else if j == 4 {
                assert(t[4].0.len() != t[15].0.len());
            } else if j == 5 {
                assert(t[5].0.len() != t[15].0.len());
            } else if j == 6 {
                assert(t[6].0.len() != t[15].0.len());
            } else if j == 7 {
                assert(t[7].0.len() != t[15].0.len());
            } else if j == 8 {
                assert(t[8].0.len() != t[15].0.len());
            } else if j == 9 {
                assert(t[9].0.len() != t[15].0.len());
            } else if j == 10 {
                assert(t[10].0.len() != t[15].0.len());
            } else if j == 11 {
                assert(t[11].0.len() != t[15].0.len());
            } else if j == 12 {
                assert(t[12].0.len() != t[15].0.len());
            } else if j == 13 {
                assert(t[13].0.len() != t[15].0.len());
            } else if j == 14 {
                assert(t[14].0.len() != t[15].0.len());
            }
        }
        assert forall|j: int| 0 <= j < 15 implies !contains(t[15].0, #[trigger] t[j].0) by {
            if contains(t[15].0, t[j].0) {
                lemma_delimited_contains(t[15].0, t[j].0);
            }
        }
        assert forall|j: int| 15 < j < t.len() implies !contains(t[15].1, #[trigger] t[j].0) by {
            lemma_no_dunder(t[15].1, t[j].0);
        }
        lemma_chain_pick(t, 15);
    }
    assert(replace_chain(t[16].0, t) == t[16].1) by {
        assert forall|j: int| 0 <= j < 16 implies (#[trigger] t[j]).0 != t[16].0 by {
            if j == 0 {
                assert(t[0].0.len() != t[16].0.len());
            } else if j == 1 {
                assert(t[1].0.len() != t[16].0.len());
            } else if j == 2 {
                assert(t[2].0.len() != t[16].0.len());
            } else if j == 3 {
                assert(t[3].0.len() != t[16].0.len());
            } else if j == 4 {
                assert(t[4].0.len() != t[16].0.len());
            } else if j == 5 {
                assert(t[5].0.len() != t[16].0.len());
            } else if j == 6 {
                assert(t[6].0.len() != t[16].0.len());
            } else if j == 7 {
                assert(t[7].0.len() != t[16].0.len());
            } else if j == 8 {
                assert(t[8].0.len() != t[16].0.len());
            } else if j == 9 {
                assert(t[9].0.len() != t[16].0.len());
            } else if j == 10 {
                assert(t[10].0.len() != t[16].0.len());
            } else if j == 11 {
                assert(t[11].0.len() != t[16].0.len());
            } else if j == 12 {
                assert(t[12].0.len() != t[16].0.len());
            } else if j == 13 {
                assert(t[13].0.len() != t[16].0.len());
            } else if j == 14 {
                assert(t[14].0.len() != t[16].0.len());
            } else if j == 15 {
                assert(t[15].0[3] != t[16].0[3]);
            }
        }
        assert forall|j: int| 0 <= j < 16 implies !contains(t[16].0, #[trigger] t[j].0) by {
            if contains(t[16].0, t[j].0) {
                lemma_delimited_contains(t[16].0, t[j].0);
            }
        }
        assert forall|j: int| 16 < j < t.len() implies !contains(t[16].1, #[trigger] t[j].0) by {
            lemma_no_dunder(t[16].1, t[j].0);
        }
        lemma_chain_pick(t, 16);
    }
    assert(replace_chain(t[17].0, t) == t[17].1) by {
        assert forall|j: int| 0 <= j < 17 implies (#[trigger] t[j]).0 != t[17].0 by {
            if j == 0 {
                assert(t[0].0.len() != t[17].0.len());
            } else if j == 1 {
                assert(t[1].0.len() != t[17].0.len());
            } else if j == 2 {
                assert(t[2].0.len() != t[17].0.len());
            } else if j == 3 {
                assert(t[3].0.len() != t[17].0.len());
            } else if j == 4 {
                assert(t[4].0.len() != t[17].0.len());
            } else if j == 5 {
                assert(t[5].0.len() != t[17].0.len());
            } else if j == 6 {
                assert(t[6].0.len() != t[17].0.len());
            } else if j == 7 {
                assert(t[7].0.len() != t[17].0.len());
            } else if j == 8 {
                assert(t[8].0.len() != t[17].0.len());
            } else if j == 9 {
                assert(t[9].0.len() != t[17].0.len());
            } else if j == 10 {
                assert(t[10].0.len() != t[17].0.len());
            } else if j == 11 {
                assert(t[11].0.len() != t[17].0.len());
            } else if j == 12 {
                assert(t[12].0.len() != t[17].0.len());
            } else if j == 13 {
                assert(t[13].0.len() != t[17].0.len());
            } else if j == 14 {
                assert(t[14].0[2] != t[17].0[2]);
            } else if j == 15 {
                assert(t[15].0.len() != t[17].0.len());
            } else if j == 16 {
                assert(t[16].0.len() != t[17].0.len());
            }
        }
        assert forall|j: int| 0 <= j < 17 implies !contains(t[17].0, #[trigger] t[j].0) by {
            if contains(t[17].0, t[j].0) {
                lemma_delimited_contains(t[17].0, t[j].0);
            }
        }
        assert forall|j: int| 17 < j < t.len() implies !contains(t[17].1, #[trigger] t[j].0) by {
            lemma_no_dunder(t[17].1, t[j].0);
        }
        lemma_chain_pick(t, 17);
    }
}

/// Substitute every known placeholder (literal replacement, in the order
/// of `placeholder_table`). Unknown `__FOO__` tokens are left alone.
pub fn substitute_placeholders(input: &str, params: &Params) -> (r: String)
    ensures
        r@ == substituted(input@, *params),
{
    let ghost t = placeholder_table(*params);
    proof {
        reveal_strlit("__APP_NAME_LOWER__");
        reveal_strlit("__APP_NAME__");
        reveal_strlit("__APP_STRUCT__");
        reveal_strlit("__ANDROID_PACKAGE__");
        reveal_strlit("__CRUX_CORE_VERSION__");
        reveal_strlit("__CRUX_HTTP_VERSION__");
        reveal_strlit("__CRUX_KV_VERSION__");
        reveal_strlit("__CRUX_TIME_VERSION__");
        reveal_strlit("__CRUX_PLATFORM_VERSION__");
        reveal_strlit("__FACET_VERSION__");
        reveal_strlit("__SERDE_VERSION__");
        reveal_strlit("__UNIFFI_VERSION__");
        reveal_strlit("__AGP_VERSION__");
        reveal_strlit("__KOTLIN_VERSION__");
        reveal_strlit("__COMPOSE_BOM_VERSION__");
        reveal_strlit("__KTOR_VERSION__");
        reveal_strlit("__KOIN_VERSION__");
        reveal_strlit("__ANDROID_NDK_VERSION__");
        assert(t.subrange(0, 18) =~= t);
        assert(t.subrange(18, 18) =~= Seq::<(Seq<char>, Seq<char>)>::empty());
        lemma_chain_step(input@, t, 0);
    }
    let v0 = chars_of(input);
    let v1 = replace_lit(v0, "__APP_NAME_LOWER__", &params.app_name_lower);
    proof { lemma_chain_step(v1@, t, 1); }
    let v2 = replace_lit(v1, "__APP_NAME__", &params.app_name);
    proof { lemma_chain_step(v2@, t, 2); }
    let v3 = replace_lit(v2, "__APP_STRUCT__", &params.app_struct);
    proof { lemma_chain_step(v3@, t, 3); }
    let v4 = replace_lit(v3, "__ANDROID_PACKAGE__", &params.android_package);
    proof { lemma_chain_step(v4@, t, 4); }
    let v5 = replace_lit(v4, "__CRUX_CORE_VERSION__", &params.crux_core_version);
    proof { lemma_chain_step(v5@, t, 5); }
    let v6 = replace_lit(v5, "__CRUX_HTTP_VERSION__", &params.crux_http_version);
    proof { lemma_chain_step(v6@, t, 6); }
    let v7 = replace_lit(v6, "__CRUX_KV_VERSION__", &params.crux_kv_version);
    proof { lemma_chain_step(v7@, t, 7); }
    let v8 = replace_lit(v7, "__CRUX_TIME_VERSION__", &params.crux_time_version);
    proof { lemma_chain_step(v8@, t, 8); }
    let v9 = replace_lit(v8, "__CRUX_PLATFORM_VERSION__", &params.crux_platform_version);
    proof { lemma_chain_step(v9@, t, 9); }
    let v10 = replace_lit(v9, "__FACET_VERSION__", &params.facet_version);
    proof { lemma_chain_step(v10@, t, 10); }
    let v11 = replace_lit(v10, "__SERDE_VERSION__", &params.serde_version);
    proof { lemma_chain_step(v11@, t, 11); }
    let v12 = replace_lit(v11, "__UNIFFI_VERSION__", &params.uniffi_version);
    proof { lemma_chain_step(v12@, t, 12); }
    let v13 = replace_lit(v12, "__AGP_VERSION__", &params.agp_version);
    proof { lemma_chain_step(v13@, t, 13); }
    let v14 = replace_lit(v13, "__KOTLIN_VERSION__", &params.kotlin_version);
    proof { lemma_chain_step(v14@, t, 14); }
    let v15 = replace_lit(v14, "__COMPOSE_BOM_VERSION__", &params.compose_bom_version);
    proof { lemma_chain_step(v15@, t, 15); }
    let v16 = replace_lit(v15, "__KTOR_VERSION__", &params.ktor_version);
    proof { lemma_chain_step(v16@, t, 16); }
    let v17 = replace_lit(v16, "__KOIN_VERSION__", &params.koin_version);
    proof { lemma_chain_step(v17@, t, 17); }
    let v18 = replace_lit(v17, "__ANDROID_NDK_VERSION__", &params.android_ndk_version);
    string_of(&v18)
}

/// Path-segment substitution: `__ANDROID_PACKAGE_PATH__` (when a package
/// path is supplied), then `__APP_NAME_LOWER__`, then `__APP_NAME__`.
pub open spec fn substituted_path(t: Seq<char>, p: Params, pkg: Option<Seq<char>>) -> Seq<char> {
    let t1 = match pkg {
        Some(pp) => replace_all(t, "__ANDROID_PACKAGE_PATH__"@, pp),
        None => t,
    };
    replace_all(replace_all(t1, "__APP_NAME_LOWER__"@, p.app_name_lower@), "__APP_NAME__"@, p.app_name@)
}

/// Substitute the placeholders that may appear in a target path.
pub fn substitute_path(target: &str, params: &Params) -> (r: String)
    ensures
        r@ == substituted_path(target@, *params, None),
{
    substitute_path_with(target, params, None)
}

/// Path-segment substitution including `__ANDROID_PACKAGE_PATH__` when
/// the caller supplies it.
pub fn substitute_path_with(target: &str, params: &Params, android_package_path: Option<&str>) -> (r:
    String)
    ensures
        r@ == substituted_path(
            target@,
            *params,
            match android_package_path {
                Some(pp) => Some(pp@),
                None => None,
            },
        ),
{
    proof {
        reveal_strlit("__ANDROID_PACKAGE_PATH__");
        reveal_strlit("__APP_NAME_LOWER__");
        reveal_strlit("__APP_NAME__");
    }
    let mut out = chars_of(target);
    match android_package_path {
        Some(pp) => {
            let pat = chars_of("__ANDROID_PACKAGE_PATH__");
            let rep = chars_of(pp);
            out = replace_seq(&out, &pat, &rep);
        },
        None => {},
    }
    let out = replace_lit(out, "__APP_NAME_LOWER__", &params.app_name_lower);
    let out = replace_lit(out, "__APP_NAME__", &params.app_name);
    string_of(&out)
}

// ---------------------------------------------------------------------
// Capability regions.
// ---------------------------------------------------------------------

/// The tag of an opening marker line (`<<<CAP:<tag>` after trimming).
pub open spec fn open_marker(line: Seq<char>) -> Option<Seq<char>> {
    let t = trim(line);
    if starts_with(t, "<<<CAP:"@) {
        Some(after_prefix(t, "<<<CAP:"@))
    } else {
        None
    }
}

/// The tag of a closing marker line (`CAP:<tag>>>>` after trimming).
pub open spec fn close_marker(line: Seq<char>) -> Option<Seq<char>> {
    let t = trim(line);
    if starts_with(t, "CAP:"@) && ends_with(after_prefix(t, "CAP:"@), ">>>"@) {
        Some(before_suffix(after_prefix(t, "CAP:"@), ">>>"@))
    } else {
        None
    }
}

/// The tag recorded for an open region: a known capability tag, or
/// `__unknown__` so a stray closer can never close it by accident.
pub open spec fn region_tag(tag: Seq<char>) -> Seq<char> {
    if tag == "http"@ || tag == "kv"@ || tag == "time"@ || tag == "platform"@ || tag == "sse"@ {
        tag
    } else {
        "__unknown__"@
    }
}

/// Some capability in `caps` has marker tag `tag`.
pub open spec fn cap_selected_spec(tag: Seq<char>, caps: Seq<Capability>) -> bool {
    exists|i: int| 0 <= i < caps.len() && cap_tag(caps[i]) == tag
}

/// An opening marker whose tag is unusable (empty, or with inner
/// whitespace) is kept as text.
pub open spec fn bad_open_tag(tag: Seq<char>) -> bool {
    tag.len() == 0 || exists|i: int| 0 <= i < tag.len() && is_ws(tag[i])
}

/// One line of the region scan: the region open after the line, and
/// the line emitted for it (if any).
pub open spec fn region_step(line: Seq<char>, active: Option<Seq<char>>, caps: Seq<Capability>) -> (
    Option<Seq<char>>,
    Option<Seq<char>>,
) {
    match open_marker(line) {
        Some(tag) => if bad_open_tag(tag) || active is Some {
            (active, Some(line))
        } else {
            (Some(region_tag(tag)), None)
        },
        None => if close_marker(line) is Some && active is Some && close_marker(line)->0
            == active->0 {
            (None, None)
        } else {
            match active {
                Some(a) => if cap_selected_spec(a, caps) {
                    (active, Some(line))
                } else {
                    (active, None)
                },
                None => (None, Some(line)),
            }
        },
    }
}

/// Some line of `ls` closes region `tag`.
pub open spec fn closed_later(ls: Seq<Seq<char>>, tag: Seq<char>) -> bool {
    exists|j: int|
        0 <= j < ls.len() && open_marker(ls[j]) is None && #[trigger] close_marker(ls[j]) == Some(tag)
}

/// `line` would open a region (none is open and its tag is usable) that
/// no line of `rest` closes.
pub open spec fn opens_unclosed(line: Seq<char>, active: Option<Seq<char>>, rest: Seq<Seq<char>>) -> bool {
    active is None && match open_marker(line) {
        Some(tag) => !bad_open_tag(tag) && !closed_later(rest, region_tag(tag)),
        None => false,
    }
}

/// The lines emitted by the region scan over `ls`, starting with the
/// region `active` open. An opener whose region is never closed is not
/// a region: it and every line after it are kept as text.
pub open spec fn emitted(ls: Seq<Seq<char>>, active: Option<Seq<char>>, caps: Seq<Capability>) -> Seq<
    Seq<char>,
>
    decreases ls.len(),
{
    if ls.len() == 0 {
        Seq::<Seq<char>>::empty()
    } else if opens_unclosed(ls[0], active, ls.subrange(1, ls.len() as int)) {
        ls
    } else {
        let (next, out) = region_step(ls[0], active, caps);
        let rest = emitted(ls.subrange(1, ls.len() as int), next, caps);
        match out {
            Some(l) => seq![l] + rest,
            None => rest,
        }
    }
}

/// The line ending a template uses: CRLF when it contains one, LF
/// otherwise.
pub open spec fn newline_of(s: Seq<char>) -> Seq<char> {
    if contains(s, "\r\n"@) {
        "\r\n"@
    } else {
        "\n"@
    }
}

/// Resolve the capability regions of `input`: regions whose capability
/// is selected keep their content (marker lines dropped); other regions
/// disappear entirely; malformed or nested openers and unmatched closers
/// stay as text, and an opener that is never closed stays as text with
/// everything after it. Lines are re-joined with the template's line ending and
/// a final line ending is kept when the input had one.
pub open spec fn caps_processed(input: Seq<char>, caps: Seq<Capability>) -> Seq<char> {
    let nl = newline_of(input);
    let body = join(emitted(lines(input), None, caps), nl);
    if ends_with(input, "\n"@) {
        body + nl
    } else {
        body
    }
}

/// Executable `cap_selected_spec`.
pub fn cap_selected(tag: &[char], caps: &[Capability]) -> (r: bool)
    ensures
        r == cap_selected_spec(tag@, caps@),
{
    let mut i: usize = 0;
    while i < caps.len()
        invariant
            i <= caps@.len(),
            forall|k: int| 0 <= k < i ==> cap_tag(caps@[k]) != tag@,
        decreases caps@.len() - i,
    {
        let t = chars_of(caps[i].marker_tag());
        if seq_eq(&t, tag) {
            return true;
        }
        i = i + 1;
    }
    false
}

/// Executable `region_tag`.
fn static_tag(tag: &[char]) -> (r: Vec<char>)
    ensures
        r@ == region_tag(tag@),
{
    let s = string_of(tag);
    match Capability::from_tag(s.as_str()) {
        Some(c) => {
            proof {
                reveal_strlit("http");
                reveal_strlit("kv");
                reveal_strlit("time");
                reveal_strlit("platform");
                reveal_strlit("sse");
            }
            chars_of(c.marker_tag())
        },
        None => chars_of("__unknown__"),
    }
}

/// Executable `bad_open_tag`.
fn tag_is_bad(tag: &[char]) -> (r: bool)
    ensures
        r == bad_open_tag(tag@),
{
    if tag.len() == 0 {
        return true;
    }
    let mut i: usize = 0;
    while i < tag.len()
        invariant
            i <= tag@.len(),
            forall|k: int| 0 <= k < i ==> !is_ws(tag@[k]),
        decreases tag@.len() - i,
    {
        if char_is_ws(tag[i]) {
            return true;
        }
        i = i + 1;
    }
    false
}

/// Executable `open_marker`.
fn open_marker_of(line: &[char]) -> (r: Option<Vec<char>>)
    ensures
        match r {
            Some(v) => open_marker(line@) == Some(v@),
            None => open_marker(line@) is None,
        },
{
    let t = trim_seq(line);
    let p = chars_of("<<<CAP:");
    if matches_at(&t, &p, 0) {
        Some(slice_chars(&t, p.len(), t.len()))
    } else {
        None
    }
}

/// Executable `close_marker`.
fn close_marker_of(line: &[char]) -> (r: Option<Vec<char>>)
    ensures
        match r {
            Some(v) => close_marker(line@) == Some(v@),
            None => close_marker(line@) is None,
        },
{
    let t = trim_seq(line);
    let p = chars_of("CAP:");
    if !matches_at(&t, &p, 0) {
        return None;
    }
    let rest = slice_chars(&t, p.len(), t.len());
    let q = chars_of(">>>");
    if q.len() > rest.len() {
        return None;
    }
    if matches_at(&rest, &q, rest.len() - q.len()) {
        Some(slice_chars(&rest, 0, rest.len() - q.len()))
    } else {
        None
    }
}

/// Executable `region_step`.
fn step_line(line: &[char], active: &Option<Vec<char>>, caps: &[Capability]) -> (r: (
    Option<Vec<char>>,
    bool,
))
    ensures
        ({
            let (next, emit) = region_step(line@, opt_chars(*active), caps@);
            &&& emit is Some == r.1
            &&& emit is Some ==> emit->0 == line@
            &&& match r.0 {
                Some(v) => next == Some(v@),
                None => next is None,
            }
        }),
{
    match open_marker_of(line) {
        Some(tag) => {
            if tag_is_bad(&tag) || active.is_some() {
                (active.clone(), true)
            } else {
                (Some(static_tag(&tag)), false)
            }
        },
        None => {
            let closes = match (close_marker_of(line), active) {
                (Some(c), Some(a)) => seq_eq(&c, a),
                _ => false,
            };
            if closes {
                (None, false)
            } else {
                match active {
                    Some(a) => {
                        if cap_selected(a, caps) {
                            (active.clone(), true)
                        } else {
                            (active.clone(), false)
                        }
                    },
                    None => (None, true),
                }
            }
        },
    }
}

/// The character sequence held by an optional character vector.
pub open spec fn opt_chars(o: Option<Vec<char>>) -> Option<Seq<char>> {
    match o {
        Some(v) => Some(v@),
        None => None,
    }
}

/// One step of `emitted`.
proof fn lemma_emitted_step(
    ls: Seq<Seq<char>>,
    i: int,
    active: Option<Seq<char>>,
    caps: Seq<Capability>,
)
    requires
        0 <= i < ls.len(),
    ensures
        opens_unclosed(ls[i], active, ls.subrange(i + 1, ls.len() as int)) ==> emitted(
            ls.subrange(i, ls.len() as int),
            active,
            caps,
        ) == ls.subrange(i, ls.len() as int),
        !opens_unclosed(ls[i], active, ls.subrange(i + 1, ls.len() as int)) ==> ({
            let (next, out) = region_step(ls[i], active, caps);
            let rest = emitted(ls.subrange(i + 1, ls.len() as int), next, caps);
            emitted(ls.subrange(i, ls.len() as int), active, caps) == match out {
                Some(l) => seq![l] + rest,
                None => rest,
            }
        }),
{
    let t = ls.subrange(i, ls.len() as int);
    assert(t.subrange(1, t.len() as int) =~= ls.subrange(i + 1, ls.len() as int));
    assert(t[0] == ls[i]);
}

/// Executable `join` of character lines.
pub fn join_lines(parts: &Vec<Vec<char>>, sep: &[char]) -> (r: Vec<char>)
    ensures
        r@ == join(parts@.map_values(|p: Vec<char>| p@), sep@),
{
    let ghost ps = parts@.map_values(|p: Vec<char>| p@);
    if parts.len() == 0 {
        return Vec::new();
    }
    let mut out = parts[0].clone();
    let mut k: usize = 1;
    assert(ps.subrange(0, 1).len() == 1);
    while k < parts.len()
        invariant
            1 <= k <= parts@.len(),
            ps == parts@.map_values(|p: Vec<char>| p@),
            out@ == join(ps.subrange(0, k as int), sep@),
        decreases parts@.len() - k,
    {
        extend_chars(&mut out, sep);
        extend_chars(&mut out, &parts[k]);
        proof {
            let t = ps.subrange(0, k + 1);
            assert(t.drop_last() =~= ps.subrange(0, k as int));
            assert(t.last() == parts@[k as int]@);
        }
        k = k + 1;
    }
    assert(ps.subrange(0, parts@.len() as int) =~= ps);
    out
}

/// Executable `opens_unclosed` for the `i`-th line of `ls`.
fn unclosed_opener(ls: &Vec<Vec<char>>, i: usize, active: &Option<Vec<char>>) -> (r: bool)
    requires
        i < ls@.len(),
    ensures
        r == opens_unclosed(
            ls@[i as int]@,
            opt_chars(*active),
            ls@.map_values(|p: Vec<char>| p@).subrange(i + 1, ls@.len() as int),
        ),
{
    let ghost rest = ls@.map_values(|p: Vec<char>| p@).subrange(i + 1, ls@.len() as int);
    if active.is_some() {
        return false;
    }
    match open_marker_of(&ls[i]) {
        None => false,
        Some(tag) => {
            if tag_is_bad(&tag) {
                return false;
            }
            let t = static_tag(&tag);
            let n = ls.len();
            let mut j: usize = i + 1;
            while j < ls.len()
                invariant
                    i + 1 <= j <= ls@.len(),
                    n == ls@.len(),
                    t@ == region_tag(tag@),
                    active is None,
                    open_marker(ls@[i as int]@) == Some(tag@),
                    !bad_open_tag(tag@),
                    rest == ls@.map_values(|p: Vec<char>| p@).subrange(i + 1, ls@.len() as int),
                    forall|k: int|
                        i + 1 <= k < j ==> !(open_marker(ls@[k]@) is None && close_marker(
                            #[trigger] ls@[k]@,
                        ) == Some(t@)),
                decreases ls@.len() - j,
            {
                if open_marker_of(&ls[j]).is_none() {
                    match close_marker_of(&ls[j]) {
                        Some(c) => {
                            if seq_eq(&c, &t) {
                                let ghost w = j - (i + 1);
                                assert(rest[w] == ls@[j as int]@);
                                assert(open_marker(rest[w]) is None && close_marker(rest[w]) == Some(t@));
                                assert(closed_later(rest, region_tag(tag@)));
                                return false;
                            }
                        },
                        None => {},
                    }
                }
                j = j + 1;
            }
            assert forall|k: int|
                0 <= k < rest.len() implies !(open_marker(rest[k]) is None && #[trigger] close_marker(
                rest[k],
            ) == Some(t@)) by {
                assert(rest[k] == ls@[k + i + 1]@);
            }
            true
        },
    }
}

/// Resolve capability regions (see `caps_processed`).
pub fn process_caps(input: &str, caps: &[Capability]) -> (r: String)
    ensures
        r@ == caps_processed(input@, caps@),
{
    let iv = chars_of(input);
    let crlf = chars_of("\r\n");
    let newline = if seq_contains(&iv, &crlf) {
        crlf
    } else {
        chars_of("\n")
    };
    let lf = chars_of("\n");
    let trailing = iv.len() > 0 && matches_at(&iv, &lf, iv.len() - 1);
    proof {
        reveal_strlit("\n");
        reveal_strlit("\r\n");
    }
    let ls = lines_seq(&iv);
    let ghost lsv = lines(iv@);
    assert(ls@.map_values(|p: Vec<char>| p@) =~= lsv);
    let mut out_lines: Vec<Vec<char>> = Vec::new();
    let mut active: Option<Vec<char>> = None;
    let mut i: usize = 0;
    assert(lsv.subrange(0, lsv.len() as int) =~= lsv);
    while i < ls.len()
        invariant
            i <= ls@.len(),
            lsv == lines(iv@),
            ls@.len() == lsv.len(),
            forall|k: int| 0 <= k < ls@.len() ==> #[trigger] ls@[k]@ == lsv[k],
            out_lines@.map_values(|p: Vec<char>| p@) + emitted(
                lsv.subrange(i as int, lsv.len() as int),
                opt_chars(active),
                caps@,
            ) == emitted(lsv, None, caps@),
        decreases ls@.len() - i,
    {
        let ghost act = opt_chars(active);
        proof {
            lemma_emitted_step(lsv, i as int, act, caps@);
        }
        let ghost before = out_lines@.map_values(|p: Vec<char>| p@);
        assert(ls@.map_values(|p: Vec<char>| p@) =~= lsv);
        if unclosed_opener(&ls, i, &active) {
            let mut j: usize = i;
            while j < ls.len()
                invariant
                    i <= j <= ls@.len(),
                    ls@.len() == lsv.len(),
                    forall|k: int| 0 <= k < ls@.len() ==> #[trigger] ls@[k]@ == lsv[k],
                    out_lines@.map_values(|p: Vec<char>| p@) == before + lsv.subrange(i as int, j as int),
                decreases ls@.len() - j,
            {
                let ghost b2 = out_lines@.map_values(|p: Vec<char>| p@);
                out_lines.push(ls[j].clone());
                assert(out_lines@.map_values(|p: Vec<char>| p@) =~= b2.push(lsv[j as int]));
                assert(lsv.subrange(i as int, j + 1) =~= lsv.subrange(i as int, j as int).push(lsv[j as int]));
                j = j + 1;
            }
            assert(lsv.subrange(ls@.len() as int, lsv.len() as int) =~= Seq::<Seq<char>>::empty());
            i = ls.len();
        } else {
            let (next, emit) = step_line(&ls[i], &active, caps);
            if emit {
                out_lines.push(ls[i].clone());
                assert(out_lines@.map_values(|p: Vec<char>| p@) =~= before.push(lsv[i as int]));
            }
            active = next;
            i = i + 1;
        }
    }
    assert(lsv.subrange(ls@.len() as int, lsv.len() as int) =~= Seq::<Seq<char>>::empty());
    let body = join_lines(&out_lines, &newline);
    let mut out = body;
    if trailing {
        extend_chars(&mut out, &newline);
    }
    proof {
        if iv@.len() > 0 {
            assert(ends_with(iv@, "\n"@) == occurs_at(iv@, lf@, iv@.len() - 1));
        } else {
            assert(!ends_with(iv@, "\n"@));
        }
    }
    string_of(&out)
}

/// The full rendering of a template: capability regions first, then
/// placeholder substitution (so placeholders inside dropped regions are
/// never emitted).
pub open spec fn rendered(template: Seq<char>, params: Params, caps: Seq<Capability>) -> Seq<char> {
    substituted(caps_processed(template, caps), params)
}

/// Render a template string with capability-marker handling and
/// placeholder substitution.
pub fn render(template: &str, params: &Params, caps: &[Capability]) -> (r: String)
    ensures
        r@ == rendered(template@, *params, caps@),
{
    let stripped = process_caps(template, caps);
    substitute_placeholders(stripped.as_str(), params)
}


// ---------------------------------------------------------------------
// Laws.
// ---------------------------------------------------------------------

/// Re-joining the pieces of a split with the separator gives the text
/// back.
proof fn lemma_join_split(s: Seq<char>, c: char)
    ensures
        join(split_char(s, c), seq![c]) == s,
    decreases s.len(),
{
    if s.len() > 0 {
        let t = s.drop_last();
        lemma_join_split(t, c);
        lemma_split_nonempty(t, c);
        let p = split_char(t, c);
        assert(s =~= t.push(s.last()));
        if s.last() == c {
            let q = p.push(Seq::<char>::empty());
            assert(q.drop_last() =~= p);
            assert(join(q, seq![c]) =~= join(p, seq![c]) + seq![c] + Seq::<char>::empty());
        } else {
            let q = p.update(p.len() - 1, p.last().push(s.last()));
            if p.len() == 1 {
                assert(join(q, seq![c]) == q[0]);
            } else {
                assert(q.drop_last() =~= p.drop_last());
                assert(join(q, seq![c]) == join(p.drop_last(), seq![c]) + seq![c] + q.last());
                assert(join(p, seq![c]) == join(p.drop_last(), seq![c]) + seq![c] + p.last());
            }
        }
    }
}

/// A character absent from the text is absent from every piece.
proof fn lemma_split_pieces_lack(s: Seq<char>, c: char, x: char)
    requires
        !has_char(s, x),
    ensures
        forall|k: int| 0 <= k < split_char(s, c).len() ==> !has_char(#[trigger] split_char(s, c)[k], x),
    decreases s.len(),
{
    if s.len() > 0 {
        let t = s.drop_last();
        assert forall|i: int| 0 <= i < t.len() implies t[i] != x by {
            assert(s[i] == t[i]);
        }
        lemma_split_pieces_lack(t, c, x);
        lemma_split_nonempty(t, c);
        let p = split_char(t, c);
        if s.last() != c {
            let l = p.last().push(s.last());
            assert(!has_char(p[p.len() - 1], x));
            assert forall|i: int| 0 <= i < l.len() implies l[i] != x by {
                if i < l.len() - 1 {
                    assert(l[i] == p[p.len() - 1][i]);
                } else {
                    assert(s[s.len() - 1] == s.last());
                }
            }
        }
    }
}

/// The last piece of a split is empty exactly when the text is empty or
/// ends with the separator; a text ending with the separator has at
/// least two pieces.
proof fn lemma_split_last(s: Seq<char>, c: char)
    ensures
        (split_char(s, c).last().len() == 0) == (s.len() == 0 || s.last() == c),
        s.len() > 0 && s.last() == c ==> split_char(s, c).len() >= 2,
{
    if s.len() > 0 {
        lemma_split_nonempty(s.drop_last(), c);
    }
}

/// Without carriage returns, the lines of a text re-joined with `'\n'`
/// (plus the final line feed, if any) give the text back.
proof fn lemma_lines_round_trip(s: Seq<char>)
    requires
        !has_char(s, '\r'),
    ensures
        (if ends_with(s, "\n"@) {
            join(lines(s), "\n"@) + "\n"@
        } else {
            join(lines(s), "\n"@)
        }) == s,
{
    reveal_strlit("\n");
    let parts = split_char(s, '\n');
    lemma_join_split(s, '\n');
    lemma_split_nonempty(s, '\n');
    lemma_split_pieces_lack(s, '\n', '\r');
    lemma_split_last(s, '\n');
    let n = parts.len();
    let head = Seq::new((n - 1) as nat, |k: int| strip_cr(parts[k]));
    assert(head =~= parts.drop_last()) by {
        assert forall|k: int| 0 <= k < n - 1 implies head[k] == parts[k] by {
            assert(!has_char(parts[k], '\r'));
            if parts[k].len() > 0 {
                assert(parts[k][parts[k].len() - 1] == parts[k].last());
            }
        }
    }
    assert("\n"@ =~= seq!['\n']);
    if s.len() > 0 {
        assert(ends_with(s, "\n"@) == (s.last() == '\n')) by {
            let tail = s.subrange(s.len() - 1, s.len() as int);
            assert(tail =~= seq![s.last()]);
            if s.last() == '\n' {
                assert(tail =~= "\n"@);
            } else {
                assert(tail[0] != "\n"@[0]);
            }
        }
    }
    if parts.last().len() > 0 {
        assert(lines(s) =~= parts);
    } else {
        assert(lines(s) =~= parts.drop_last());
        if s.len() > 0 {
            assert(join(parts, seq!['\n']) == join(parts.drop_last(), seq!['\n']) + seq!['\n']
                + parts.last());
            assert(parts.last() =~= Seq::<char>::empty());
        }
    }
}

/// No piece of a split holds the separator.
proof fn lemma_split_pieces_lack_sep(s: Seq<char>, c: char)
    ensures
        forall|k: int| 0 <= k < split_char(s, c).len() ==> !has_char(#[trigger] split_char(s, c)[k], c),
    decreases s.len(),
{
    if s.len() > 0 {
        let t = s.drop_last();
        lemma_split_pieces_lack_sep(t, c);
        lemma_split_nonempty(t, c);
        let p = split_char(t, c);
        if s.last() != c {
            let l = p.last().push(s.last());
            assert(!has_char(p[p.len() - 1], c));
            assert forall|i: int| 0 <= i < l.len() implies l[i] != c by {
                if i < l.len() - 1 {
                    assert(l[i] == p[p.len() - 1][i]);
                }
            }
            let q = p.update(p.len() - 1, l);
            assert forall|k: int| 0 <= k < q.len() implies !has_char(#[trigger] q[k], c) by {
                if k < q.len() - 1 {
                    assert(q[k] == p[k]);
                }
            }
        } else {
            let q = p.push(Seq::<char>::empty());
            assert forall|k: int| 0 <= k < q.len() implies !has_char(#[trigger] q[k], c) by {
                if k < p.len() {
                    assert(q[k] == p[k]);
                }
            }
        }
    }
}

/// Appending a text without the separator extends the last piece.
proof fn lemma_split_append(a: Seq<char>, b: Seq<char>, c: char)
    requires
        !has_char(b, c),
    ensures
        split_char(a + b, c) == split_char(a, c).update(
            split_char(a, c).len() - 1,
            split_char(a, c).last() + b,
        ),
    decreases b.len(),
{
    lemma_split_nonempty(a, c);
    let sa = split_char(a, c);
    if b.len() == 0 {
        assert(a + b =~= a);
        assert(sa.last() + b =~= sa.last());
        assert(sa.update(sa.len() - 1, sa.last() + b) =~= sa);
    } else {
        let b0 = b.drop_last();
        assert forall|i: int| 0 <= i < b0.len() implies b0[i] != c by {
            assert(b0[i] == b[i]);
        }
        lemma_split_append(a, b0, c);
        assert((a + b).drop_last() =~= a + b0);
        assert((a + b).last() == b.last());
        assert(b[b.len() - 1] == b.last());
        let p = split_char(a + b0, c);
        assert(p.last() == sa.last() + b0);
        assert((sa.last() + b0).push(b.last()) =~= sa.last() + b);
        assert(split_char(a + b, c) == p.update(p.len() - 1, p.last().push(b.last())));
        assert(split_char(a + b, c) =~= sa.update(sa.len() - 1, sa.last() + b));
    }
}

/// Splitting pieces joined with the separator gives the pieces back,
/// when no piece holds the separator.
proof fn lemma_split_join(e: Seq<Seq<char>>, c: char)
    requires
        e.len() >= 1,
        forall|k: int| 0 <= k < e.len() ==> !has_char(#[trigger] e[k], c),
    ensures
        split_char(join(e, seq![c]), c) == e,
    decreases e.len(),
{
    let empty = Seq::<char>::empty();
    if e.len() == 1 {
        assert(!has_char(e[0], c));
        lemma_split_append(empty, e[0], c);
        assert(empty + e[0] =~= e[0]);
        assert(split_char(empty, c) =~= seq![empty]);
        assert(seq![empty].update(0, empty + e[0]) =~= e);
    } else {
        let dl = e.drop_last();
        assert forall|k: int| 0 <= k < dl.len() implies !has_char(#[trigger] dl[k], c) by {
            assert(dl[k] == e[k]);
        }
        lemma_split_join(dl, c);
        let a = join(dl, seq![c]) + seq![c];
        assert(a.drop_last() =~= join(dl, seq![c]));
        assert(a.last() == c);
        assert(split_char(a, c) == dl.push(empty));
        assert(!has_char(e[e.len() - 1], c));
        lemma_split_append(a, e.last(), c);
        assert(join(e, seq![c]) == a + e.last());
        assert(dl.push(empty).update(dl.len() as int, empty + e.last()) =~= e);
    }
}

/// A line without a carriage return is its own `strip_cr`.
proof fn lemma_strip_cr_plain(l: Seq<char>)
    requires
        !has_char(l, '\r'),
    ensures
        strip_cr(l) == l,
{
    if l.len() > 0 {
        assert(l[l.len() - 1] == l.last());
    }
}

/// The lines of lines joined with `'\n'`: with a final line feed, the
/// lines themselves (one empty line for none); without, the lines but a
/// final empty one.
proof fn lemma_lines_of_joined(e: Seq<Seq<char>>)
    requires
        forall|k: int| 0 <= k < e.len() ==> !has_char(#[trigger] e[k], '\n') && !has_char(e[k], '\r'),
    ensures
        lines(join(e, "\n"@) + "\n"@) == (if e.len() == 0 {
            seq![Seq::<char>::empty()]
        } else {
            e
        }),
        lines(join(e, "\n"@)) == (if e.len() > 0 && e.last().len() == 0 {
            e.drop_last()
        } else {
            e
        }),
{
    reveal_strlit("\n");
    assert("\n"@ =~= seq!['\n']);
    let empty = Seq::<char>::empty();
    if e.len() == 0 {
        assert(join(e, "\n"@) + "\n"@ =~= seq!['\n']);
        assert(seq!['\n'].drop_last() =~= empty);
        assert(split_char(empty, '\n') =~= seq![empty]);
        assert(split_char(seq!['\n'], '\n') =~= seq![empty, empty]);
        assert(strip_cr(empty) =~= empty);
        assert(lines(join(e, "\n"@) + "\n"@) =~= seq![empty]);
        assert(lines(join(e, "\n"@)) =~= e);
    } else {
        assert forall|k: int| 0 <= k < e.len() implies !has_char(#[trigger] e[k], '\n') by {}
        lemma_split_join(e, '\n');
        let j = join(e, "\n"@);
        let t = j + "\n"@;
        assert(t.drop_last() =~= j);
        assert(t.last() == '\n');
        assert(split_char(t, '\n') == e.push(empty));
        assert forall|k: int| 0 <= k < e.len() implies strip_cr(#[trigger] e[k]) == e[k] by {
            lemma_strip_cr_plain(e[k]);
        }
        assert(lines(t) =~= e);
        if e.last().len() == 0 {
            assert(lines(j) =~= e.drop_last());
        } else {
            assert(lines(j) =~= e);
        }
    }
}

/// With no opening marker lines, the region scan emits every line.
proof fn lemma_emitted_plain(ls: Seq<Seq<char>>, caps: Seq<Capability>)
    requires
        forall|k: int| 0 <= k < ls.len() ==> open_marker(#[trigger] ls[k]) is None,
    ensures
        emitted(ls, None, caps) == ls,
    decreases ls.len(),
{
    if ls.len() > 0 {
        let rest = ls.subrange(1, ls.len() as int);
        assert forall|k: int| 0 <= k < rest.len() implies open_marker(#[trigger] rest[k]) is None by {
            assert(rest[k] == ls[k + 1]);
        }
        lemma_emitted_plain(rest, caps);
        assert(open_marker(ls[0]) is None);
        assert(seq![ls[0]] + rest =~= ls);
    }
}

/// Substitution leaves a text holding none of the table's names unchanged.
proof fn lemma_chain_absent(s: Seq<char>, table: Seq<(Seq<char>, Seq<char>)>)
    requires
        forall|k: int| 0 <= k < table.len() ==> !contains(s, #[trigger] table[k].0),
    ensures
        replace_chain(s, table) == s,
    decreases table.len(),
{
    if table.len() > 0 {
        assert(!contains(s, table[0].0));
        lemma_replace_absent(s, table[0].0, table[0].1);
        let rest = table.subrange(1, table.len() as int);
        assert forall|k: int| 0 <= k < rest.len() implies !contains(s, #[trigger] rest[k].0) by {
            assert(rest[k] == table[k + 1]);
        }
        lemma_chain_absent(s, rest);
    }
}

/// The capability regions of `ls` are well formed, with region `active`
/// open before the first line: every opener names a known capability
/// and opens no region inside another, every closer closes the region
/// that is open, and every region is closed by the end.
pub open spec fn regions_well_formed(ls: Seq<Seq<char>>, active: Option<Seq<char>>) -> bool
    decreases ls.len(),
{
    if ls.len() == 0 {
        active is None
    } else {
        let rest = ls.subrange(1, ls.len() as int);
        match open_marker(ls[0]) {
            Some(tag) => active is None && !bad_open_tag(tag) && region_tag(tag) == tag
                && regions_well_formed(rest, Some(tag)),
            None => match close_marker(ls[0]) {
                Some(tag) => active == Some(tag) && regions_well_formed(rest, None),
                None => regions_well_formed(rest, active),
            },
        }
    }
}

/// A region left open before well-formed lines is closed by one of them.
proof fn lemma_well_formed_closes(ls: Seq<Seq<char>>, tag: Seq<char>)
    requires
        regions_well_formed(ls, Some(tag)),
    ensures
        closed_later(ls, tag),
    decreases ls.len(),
{
    let rest = ls.subrange(1, ls.len() as int);
    if open_marker(ls[0]) is None && close_marker(ls[0]) is Some {
        assert(close_marker(ls[0]) == Some(tag));
    } else {
        lemma_well_formed_closes(rest, tag);
        let j = choose|j: int|
            0 <= j < rest.len() && open_marker(rest[j]) is None && #[trigger] close_marker(rest[j])
                == Some(tag);
        assert(rest[j] == ls[j + 1]);
        assert(close_marker(ls[j + 1]) == Some(tag));
    }
}

/// Marker lines never reach the output of a template whose regions are
/// well formed, whichever capabilities are selected: every emitted line
/// is neither an opener nor a closer.
pub proof fn law_well_formed_regions_leave_no_markers(
    ls: Seq<Seq<char>>,
    active: Option<Seq<char>>,
    caps: Seq<Capability>,
)
    requires
        regions_well_formed(ls, active),
    ensures
        forall|k: int|
            0 <= k < emitted(ls, active, caps).len() ==> open_marker(
                #[trigger] emitted(ls, active, caps)[k],
            ) is None && close_marker(emitted(ls, active, caps)[k]) is None,
    decreases ls.len(),
{
    if ls.len() > 0 {
        let rest = ls.subrange(1, ls.len() as int);
        if let Some(tag) = open_marker(ls[0]) {
            lemma_well_formed_closes(rest, tag);
        }
        assert(!opens_unclosed(ls[0], active, rest));
        let (next, out) = region_step(ls[0], active, caps);
        law_well_formed_regions_leave_no_markers(rest, next, caps);
        let tail = emitted(rest, next, caps);
        match out {
            Some(l) => {
                assert(emitted(ls, active, caps) == seq![l] + tail);
                assert(l == ls[0]);
                assert(open_marker(l) is None && close_marker(l) is None);
                assert forall|k: int| 0 <= k < emitted(ls, active, caps).len() implies open_marker(
                    #[trigger] emitted(ls, active, caps)[k],
                ) is None && close_marker(emitted(ls, active, caps)[k]) is None by {
                    if k > 0 {
                        assert(emitted(ls, active, caps)[k] == tail[k - 1]);
                    }
                }
            },
            None => {
                assert(emitted(ls, active, caps) == tail);
            },
        }
    }
}

/// `a` is a subsequence of `b`: `b` with some lines removed, order kept.
pub open spec fn is_subsequence(a: Seq<Seq<char>>, b: Seq<Seq<char>>) -> bool
    decreases b.len(),
{
    if a.len() == 0 {
        true
    } else if b.len() == 0 {
        false
    } else {
        (a[0] == b[0] && is_subsequence(a.subrange(1, a.len() as int), b.subrange(1, b.len() as int)))
            || is_subsequence(a, b.subrange(1, b.len() as int))
    }
}

/// Every sequence is a subsequence of itself.
proof fn lemma_subsequence_self(a: Seq<Seq<char>>)
    ensures
        is_subsequence(a, a),
    decreases a.len(),
{
    if a.len() > 0 {
        lemma_subsequence_self(a.subrange(1, a.len() as int));
    }
}

/// Dropping the last element of a subsequence keeps it a subsequence.
proof fn lemma_subsequence_drop_last_left(a: Seq<Seq<char>>, b: Seq<Seq<char>>)
    requires
        is_subsequence(a, b),
        a.len() > 0,
    ensures
        is_subsequence(a.drop_last(), b),
    decreases b.len(),
{
    let a1 = a.subrange(1, a.len() as int);
    let b1 = b.subrange(1, b.len() as int);
    if a.len() == 1 {
        assert(a.drop_last().len() == 0);
    } else if a[0] == b[0] && is_subsequence(a1, b1) {
        lemma_subsequence_drop_last_left(a1, b1);
        assert(a.drop_last().subrange(1, a.len() - 1) =~= a1.drop_last());
        assert(a.drop_last()[0] == a[0]);
    } else {
        lemma_subsequence_drop_last_left(a, b1);
    }
}

/// When the last elements differ, the last element of `b` is not used.
proof fn lemma_subsequence_drop_last_right(a: Seq<Seq<char>>, b: Seq<Seq<char>>)
    requires
        is_subsequence(a, b),
        a.len() > 0,
        b.len() > 0,
        a.last() != b.last(),
    ensures
        is_subsequence(a, b.drop_last()),
    decreases b.len(),
{
    let a1 = a.subrange(1, a.len() as int);
    let b1 = b.subrange(1, b.len() as int);
    let bd = b.drop_last();
    if a[0] == b[0] && is_subsequence(a1, b1) {
        if a1.len() == 0 {
            assert(b.len() >= 2) by {
                if b.len() == 1 {
                    assert(a.last() == a[0]);
                    assert(b.last() == b[0]);
                }
            }
            assert(bd[0] == b[0]);
            assert(is_subsequence(a1, bd.subrange(1, bd.len() as int)));
        } else {
            if b1.len() == 0 {
                assert(!is_subsequence(a1, b1));
            }
            assert(a1.last() == a.last());
            assert(b1.last() == b.last());
            lemma_subsequence_drop_last_right(a1, b1);
            assert(bd[0] == b[0]);
            assert(bd.subrange(1, bd.len() as int) =~= b1.drop_last());
            assert(a.subrange(1, a.len() as int) == a1);
        }
    } else {
        assert(is_subsequence(a, b1));
        if b1.len() == 0 {
            assert(!is_subsequence(a, b1));
        }
        assert(b1.last() == b.last());
        lemma_subsequence_drop_last_right(a, b1);
        assert(bd.subrange(1, bd.len() as int) =~= b1.drop_last());
        assert(bd.len() > 0);
    }
}

/// When the last elements agree, both can be dropped.
proof fn lemma_subsequence_drop_last_both(a: Seq<Seq<char>>, b: Seq<Seq<char>>)
    requires
        is_subsequence(a, b),
        a.len() > 0,
        b.len() > 0,
        a.last() == b.last(),
    ensures
        is_subsequence(a.drop_last(), b.drop_last()),
    decreases b.len(),
{
    let a1 = a.subrange(1, a.len() as int);
    let b1 = b.subrange(1, b.len() as int);
    let ad = a.drop_last();
    let bd = b.drop_last();
    if a.len() == 1 {
        assert(ad.len() == 0);
    } else if a[0] == b[0] && is_subsequence(a1, b1) {
        assert(b1.len() > 0);
        assert(a1.last() == a.last());
        assert(b1.last() == b.last());
        lemma_subsequence_drop_last_both(a1, b1);
        assert(ad[0] == a[0]);
        assert(bd[0] == b[0]);
        assert(ad.subrange(1, ad.len() as int) =~= a1.drop_last());
        assert(bd.subrange(1, bd.len() as int) =~= b1.drop_last());
    } else {
        assert(is_subsequence(a, b1));
        if b1.len() == 0 {
            assert(!is_subsequence(a, b1));
        }
        assert(b1.last() == b.last());
        lemma_subsequence_drop_last_both(a, b1);
        assert(bd.subrange(1, bd.len() as int) =~= b1.drop_last());
    }
}

/// Every line the region scan emits is a line of its input.
proof fn lemma_emitted_from(ls: Seq<Seq<char>>, active: Option<Seq<char>>, caps: Seq<Capability>)
    ensures
        forall|k: int|
            0 <= k < emitted(ls, active, caps).len() ==> exists|j: int|
                0 <= j < ls.len() && ls[j] == #[trigger] emitted(ls, active, caps)[k],
    decreases ls.len(),
{
    if ls.len() > 0 {
        let rest = ls.subrange(1, ls.len() as int);
        if opens_unclosed(ls[0], active, rest) {
            assert forall|k: int| 0 <= k < emitted(ls, active, caps).len() implies exists|j: int|
                0 <= j < ls.len() && ls[j] == #[trigger] emitted(ls, active, caps)[k] by {
                assert(ls[k] == emitted(ls, active, caps)[k]);
            }
        } else {
            let (next, out) = region_step(ls[0], active, caps);
            lemma_emitted_from(rest, next, caps);
            let tail = emitted(rest, next, caps);
            assert forall|k: int| 0 <= k < emitted(ls, active, caps).len() implies exists|j: int|
                0 <= j < ls.len() && ls[j] == #[trigger] emitted(ls, active, caps)[k] by {
                match out {
                    Some(l) => {
                        assert(emitted(ls, active, caps) == seq![l] + tail);
                        if k == 0 {
                            assert(ls[0] == emitted(ls, active, caps)[k]);
                        } else {
                            assert(emitted(ls, active, caps)[k] == tail[k - 1]);
                            let j = choose|j: int| 0 <= j < rest.len() && rest[j] == tail[k - 1];
                            assert(ls[j + 1] == rest[j]);
                        }
                    },
                    None => {
                        assert(emitted(ls, active, caps) == tail);
                        let j = choose|j: int| 0 <= j < rest.len() && rest[j] == tail[k];
                        assert(ls[j + 1] == rest[j]);
                    },
                }
            }
        }
    }
}

/// The lines of a text without carriage returns hold neither a line
/// feed nor a carriage return.
proof fn lemma_lines_plain(s: Seq<char>)
    requires
        !has_char(s, '\r'),
    ensures
        forall|k: int|
            0 <= k < lines(s).len() ==> !has_char(#[trigger] lines(s)[k], '\n') && !has_char(
                lines(s)[k],
                '\r',
            ),
{
    lemma_split_pieces_lack_sep(s, '\n');
    lemma_split_pieces_lack(s, '\n', '\r');
    lemma_split_nonempty(s, '\n');
    let parts = split_char(s, '\n');
    assert forall|k: int| 0 <= k < lines(s).len() implies !has_char(#[trigger] lines(s)[k], '\n')
        && !has_char(lines(s)[k], '\r') by {
        if k < parts.len() - 1 {
            lemma_strip_cr_plain(parts[k]);
            assert(lines(s)[k] == strip_cr(parts[k]));
        } else {
            assert(lines(s)[k] == parts.last());
            assert(parts.last() == parts[parts.len() - 1]);
        }
    }
}

/// Selecting more capabilities only adds kept lines: the lines the
/// region scan emits for `caps1` are a subsequence of those it emits for
/// any `caps2` holding every capability of `caps1`.
pub proof fn law_more_capabilities_only_add_lines(
    ls: Seq<Seq<char>>,
    active: Option<Seq<char>>,
    caps1: Seq<Capability>,
    caps2: Seq<Capability>,
)
    requires
        forall|i: int| 0 <= i < caps1.len() ==> caps2.contains(#[trigger] caps1[i]),
    ensures
        is_subsequence(emitted(ls, active, caps1), emitted(ls, active, caps2)),
    decreases ls.len(),
{
    if ls.len() == 0 {
        return;
    }
    let rest = ls.subrange(1, ls.len() as int);
    if opens_unclosed(ls[0], active, rest) {
        lemma_subsequence_self(ls);
        return;
    }
    let (n1, o1) = region_step(ls[0], active, caps1);
    let (n2, o2) = region_step(ls[0], active, caps2);
    if let Some(a) = active {
        if cap_selected_spec(a, caps1) {
            let i = choose|i: int| 0 <= i < caps1.len() && cap_tag(caps1[i]) == a;
            assert(caps2.contains(caps1[i]));
            let j = choose|j: int| 0 <= j < caps2.len() && caps2[j] == caps1[i];
            assert(cap_tag(caps2[j]) == a);
        }
    }
    assert(n1 == n2);
    assert(o1 is Some ==> o2 == o1);
    law_more_capabilities_only_add_lines(rest, n1, caps1, caps2);
    let r1 = emitted(rest, n1, caps1);
    let r2 = emitted(rest, n2, caps2);
    match o2 {
        Some(l) => {
            let b = seq![l] + r2;
            assert(b.subrange(1, b.len() as int) =~= r2);
            assert(emitted(ls, active, caps2) == b);
            match o1 {
                Some(_) => {
                    let a = seq![l] + r1;
                    assert(a.subrange(1, a.len() as int) =~= r1);
                    assert(emitted(ls, active, caps1) == a);
                },
                None => {
                    assert(emitted(ls, active, caps1) == r1);
                },
            }
        },
        None => {
            assert(emitted(ls, active, caps2) == r2);
            assert(emitted(ls, active, caps1) == r1);
        },
    }
}

/// Selecting more capabilities only adds lines to the output text: for
/// a template without carriage returns, the lines of the output for
/// `caps1` are a subsequence of those for any `caps2` holding every
/// capability of `caps1`. The one exception is left out: a template
/// ending with a line feed of which `caps1` keeps no line gives the
/// single empty line "\n", which is no subsequence of the lines `caps2`
/// keeps when it keeps some.
pub proof fn law_more_capabilities_only_add_output_lines(
    input: Seq<char>,
    caps1: Seq<Capability>,
    caps2: Seq<Capability>,
)
    requires
        forall|i: int| 0 <= i < caps1.len() ==> caps2.contains(#[trigger] caps1[i]),
        !has_char(input, '\r'),
        ends_with(input, "\n"@) && emitted(lines(input), None, caps1).len() == 0 ==> emitted(
            lines(input),
            None,
            caps2,
        ).len() == 0,
    ensures
        is_subsequence(lines(caps_processed(input, caps1)), lines(caps_processed(input, caps2))),
{
    reveal_strlit("\r\n");
    if contains(input, "\r\n"@) {
        let i = choose|i: int| occurs_at(input, "\r\n"@, i);
        assert(input.subrange(i, i + 2)[0] == input[i]);
    }
    assert(newline_of(input) == "\n"@);
    let ls = lines(input);
    let e1 = emitted(ls, None, caps1);
    let e2 = emitted(ls, None, caps2);
    law_more_capabilities_only_add_lines(ls, None, caps1, caps2);
    lemma_lines_plain(input);
    lemma_emitted_from(ls, None, caps1);
    lemma_emitted_from(ls, None, caps2);
    assert forall|k: int| 0 <= k < e1.len() implies !has_char(#[trigger] e1[k], '\n') && !has_char(
        e1[k],
        '\r',
    ) by {
        let j = choose|j: int| 0 <= j < ls.len() && ls[j] == e1[k];
    }
    assert forall|k: int| 0 <= k < e2.len() implies !has_char(#[trigger] e2[k], '\n') && !has_char(
        e2[k],
        '\r',
    ) by {
        let j = choose|j: int| 0 <= j < ls.len() && ls[j] == e2[k];
    }
    lemma_lines_of_joined(e1);
    lemma_lines_of_joined(e2);
    let l1 = lines(caps_processed(input, caps1));
    let l2 = lines(caps_processed(input, caps2));
    if ends_with(input, "\n"@) {
        if e1.len() == 0 {
            assert(l1 == l2);
            lemma_subsequence_self(l1);
        } else {
            if e2.len() == 0 {
                assert(!is_subsequence(e1, e2));
            }
            assert(l1 == e1 && l2 == e2);
        }
    } else {
        let t1 = e1.len() > 0 && e1.last().len() == 0;
        let t2 = e2.len() > 0 && e2.last().len() == 0;
        if t1 && t2 {
            assert(e1.last() =~= e2.last());
            lemma_subsequence_drop_last_both(e1, e2);
        } else if t1 {
            lemma_subsequence_drop_last_left(e1, e2);
        } else if t2 {
            if e1.len() > 0 {
                assert(e1.last().len() != e2.last().len());
                lemma_subsequence_drop_last_right(e1, e2);
            }
        }
    }
}

/// Rendering is the identity on a template without capability markers
/// or placeholders: a text with no carriage return, none of the
/// placeholder names, and no line that opens a capability region renders
/// to itself, whatever the parameters and capability selection.
pub proof fn law_render_identity_without_markers(
    input: Seq<char>,
    params: Params,
    caps: Seq<Capability>,
)
    requires
        !has_char(input, '\r'),
        forall|k: int|
            0 <= k < placeholder_table(params).len() ==> !contains(
                input,
                #[trigger] placeholder_table(params)[k].0,
            ),
        forall|k: int| 0 <= k < lines(input).len() ==> open_marker(#[trigger] lines(input)[k]) is None,
    ensures
        rendered(input, params, caps) == input,
{
    reveal_strlit("\r\n");
    lemma_emitted_plain(lines(input), caps);
    if contains(input, "\r\n"@) {
        let i = choose|i: int| occurs_at(input, "\r\n"@, i);
        assert(input.subrange(i, i + 2)[0] == input[i]);
    }
    assert(newline_of(input) == "\n"@);
    lemma_lines_round_trip(input);
    assert(caps_processed(input, caps) == input);
    lemma_chain_absent(input, placeholder_table(params));
}

} // verus!
