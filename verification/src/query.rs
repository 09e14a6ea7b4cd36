//! Registry answers for `update-versions`: which URL each registry is
//! asked, how its answer becomes a version, what counts as a stable
//! version, and how versions are ordered.
//!
//! The HTTP requests (and the JSON decoding of their bodies) are made
//! by the caller; the functions here take what came back.

use vstd::prelude::*;

use crate::error::VectisError;
use crate::text::{
    chars_of, contains, has_char, owned, seq_contains, seq_has_char, split_char, split_seq,
    string_of, upper_seq, upper_text, is_digit,
};

verus! {

// ---------------------------------------------------------------------
// Results.
// ---------------------------------------------------------------------

/// A resolved version and the URL it was resolved against.
#[derive(Debug, Clone)]
pub struct VersionHit {
    pub version: String,
    pub source: String,
}

/// One entry of a crate version's dependency list.
#[derive(Debug, Clone)]
pub struct CratesIoDep {
    pub crate_id: String,
    pub req: String,
    pub kind: String,
}

/// The failure for a registry request at `url`.
pub open spec fn query_failure(url: Seq<char>, message: Seq<char>) -> Seq<char> {
    "registry query failed ("@ + url + "): "@ + message
}

/// The `Internal` error for a failed registry request.
pub fn query_error(url: &str, message: &str) -> (e: VectisError)
    ensures
        e is Internal,
        crate::error::error_message(e) == query_failure(url@, message@),
{
    let mut m = owned("registry query failed (");
    m.append(url);
    m.append("): ");
    m.append(message);
    VectisError::Internal { message: m }
}

// ---------------------------------------------------------------------
// Stable versions and their order.
// ---------------------------------------------------------------------

/// A stable version: non-empty, no `-` (no pre-release tail), and no
/// `SNAPSHOT` in any letter case.
pub open spec fn is_stable(v: Seq<char>) -> bool {
    !has_char(v, '-') && !contains(upper_text(v), "SNAPSHOT"@) && v.len() > 0
}

/// Is this version string a stable release?
pub fn is_stable_version(v: &str) -> (r: bool)
    ensures
        r == is_stable(v@),
{
    let s = chars_of(v);
    let up = upper_seq(s.as_slice());
    let snap = chars_of("SNAPSHOT");
    !seq_has_char(s.as_slice(), '-') && !seq_contains(up.as_slice(), snap.as_slice()) && s.len() > 0
}

/// The value of a string of ASCII digits.
pub open spec fn digits_value(s: Seq<char>) -> nat
    decreases s.len(),
{
    if s.len() == 0 {
        0
    } else {
        digits_value(s.drop_last()) * 10 + ((s.last() as u32) - 48) as nat
    }
}

/// Every character is an ASCII digit.
pub open spec fn digits_only(s: Seq<char>) -> bool {
    forall|k: int| 0 <= k < s.len() ==> is_digit(#[trigger] s[k])
}

/// `u64::from_str`: an optional `+`, then one or more ASCII digits whose
/// value fits in a `u64`.
pub open spec fn u64_of(s: Seq<char>) -> Option<u64> {
    let d = if s.len() > 0 && s[0] == '+' {
        s.subrange(1, s.len() as int)
    } else {
        s
    };
    if d.len() > 0 && digits_only(d) && digits_value(d) <= u64::MAX {
        Some(digits_value(d) as u64)
    } else {
        None
    }
}

proof fn lemma_value_grows(d: Seq<char>, n: int)
    requires
        0 <= n <= d.len(),
    ensures
        digits_only(d) ==> digits_value(
            d.subrange(0, n),
        ) <= digits_value(d),
    decreases d.len(),
{
    if n < d.len() {
        assert(d.drop_last().subrange(0, n) =~= d.subrange(0, n));
        lemma_value_grows(d.drop_last(), n);
    } else {
        assert(d.subrange(0, n) =~= d);
    }
}

/// Parse an unsigned 64-bit decimal (see `u64_of`).
pub fn parse_u64(s: &[char]) -> (r: Option<u64>)
    ensures
        r == u64_of(s@),
{
    let mut start: usize = 0;
    if s.len() > 0 && s[0] == '+' {
        start = 1;
    }
    let ghost d = if s@.len() > 0 && s@[0] == '+' {
        s@.subrange(1, s@.len() as int)
    } else {
        s@
    };
    assert(d =~= s@.subrange(start as int, s@.len() as int));
    if start == s.len() {
        return None;
    }
    let mut acc: u128 = 0;
    let mut i: usize = start;
    while i < s.len()
        invariant
            start <= i <= s@.len(),
            d == s@.subrange(start as int, s@.len() as int),
            d.len() > 0,
            u64_of(s@) == (if digits_only(d) && digits_value(d) <= u64::MAX {
                Some(digits_value(d) as u64)
            } else {
                None
            }),
            forall|k: int| start <= k < i ==> is_digit(#[trigger] s@[k]),
            acc as nat == digits_value(s@.subrange(start as int, i as int)),
            acc <= u64::MAX,
        decreases s@.len() - i,
    {
        let c = s[i];
        if !('0' <= c && c <= '9') {
            assert(!is_digit(d[i - start]));
            return None;
        }
        let ghost pre = s@.subrange(start as int, i as int);
        let ghost post = s@.subrange(start as int, i + 1);
        assert(post.drop_last() =~= pre);
        let v: u128 = acc * 10 + ((c as u32) - 48) as u128;
        i = i + 1;
        assert(v as nat == digits_value(post));
        if v > 18446744073709551615u128 {
            assert(d.subrange(0, i - start) =~= post);
            proof {
                lemma_value_grows(d, i - start);
            }
            return None;
        }
        acc = v;
    }
    assert(s@.subrange(start as int, i as int) =~= d);
    Some(acc as u64)
}

/// The numeric components of a version: each `.`-separated piece parsed
/// as a `u64`, 0 where it does not parse.
pub open spec fn numeric_parts(v: Seq<char>) -> Seq<u64> {
    split_char(v, '.').map_values(
        |p: Seq<char>|
            match u64_of(p) {
                Some(n) => n,
                None => 0u64,
            },
    )
}

/// Executable `numeric_parts`.
pub fn numeric_parts_of(v: &str) -> (r: Vec<u64>)
    ensures
        r@ == numeric_parts(v@),
{
    let s = chars_of(v);
    let pieces = split_seq(s.as_slice(), '.');
    let mut out: Vec<u64> = Vec::new();
    let mut i: usize = 0;
    while i < pieces.len()
        invariant
            i <= pieces@.len(),
            pieces@.len() == split_char(v@, '.').len(),
            s@ == v@,
            forall|k: int| 0 <= k < pieces@.len() ==> #[trigger] pieces@[k]@ == split_char(v@, '.')[k],
            out@ == numeric_parts(v@).subrange(0, i as int),
        decreases pieces@.len() - i,
    {
        let n = match parse_u64(pieces[i].as_slice()) {
            Some(n) => n,
            None => 0,
        };
        out.push(n);
        i = i + 1;
        assert(out@ =~= numeric_parts(v@).subrange(0, i as int));
    }
    assert(numeric_parts(v@).subrange(0, i as int) =~= numeric_parts(v@));
    out
}

/// A component, 0 past the end.
pub open spec fn part_at(xs: Seq<u64>, i: int) -> u64 {
    if 0 <= i < xs.len() {
        xs[i]
    } else {
        0
    }
}

/// The sign of the comparison of two component lists from position `i`
/// on: the first position where they differ decides; missing components
/// count as 0.
pub open spec fn order_from(xs: Seq<u64>, ys: Seq<u64>, i: int) -> int
    decreases xs.len() + ys.len() - i,
{
    if i < 0 || (i >= xs.len() && i >= ys.len()) {
        0
    } else if part_at(xs, i) < part_at(ys, i) {
        -1
    } else if part_at(xs, i) > part_at(ys, i) {
        1
    } else {
        order_from(xs, ys, i + 1)
    }
}

/// The order of two versions by their numeric components: -1, 0 or 1.
pub open spec fn version_order(a: Seq<char>, b: Seq<char>) -> int {
    order_from(numeric_parts(a), numeric_parts(b), 0)
}

/// `order_from` changes sign when its lists swap.
proof fn lemma_order_swap(xs: Seq<u64>, ys: Seq<u64>, i: int)
    ensures
        order_from(xs, ys, i) == -order_from(ys, xs, i),
    decreases xs.len() + ys.len() - i,
{
    if !(i < 0 || (i >= xs.len() && i >= ys.len())) && part_at(xs, i) == part_at(ys, i) {
        lemma_order_swap(xs, ys, i + 1);
    }
}

/// A list is level with itself.
proof fn lemma_order_self(xs: Seq<u64>, i: int)
    ensures
        order_from(xs, xs, i) == 0,
    decreases xs.len() + xs.len() - i,
{
    if !(i < 0 || i >= xs.len()) {
        lemma_order_self(xs, i + 1);
    }
}

/// A trailing 0 component changes no comparison.
proof fn lemma_order_pad(xs: Seq<u64>, ys: Seq<u64>, i: int)
    requires
        i >= 0,
    ensures
        order_from(xs.push(0), ys, i) == order_from(xs, ys, i),
    decreases xs.len() + 1 + ys.len() - i,
{
    let zs = xs.push(0);
    assert(part_at(zs, i) == part_at(xs, i));
    if i < xs.len() || i < ys.len() {
        if part_at(xs, i) == part_at(ys, i) {
            lemma_order_pad(xs, ys, i + 1);
        }
    } else if i == xs.len() {
        assert(order_from(zs, ys, i + 1) == 0);
    }
}

/// The components of `a` followed by `".0"` are those of `a` and a 0.
proof fn lemma_parts_pad(a: Seq<char>)
    ensures
        numeric_parts(a + ".0"@) == numeric_parts(a).push(0),
{
    reveal_strlit(".0");
    let b = a + ".0"@;
    let c = a + seq!['.'];
    assert(b.drop_last() =~= c);
    assert(c.drop_last() =~= a);
    assert(split_char(c, '.') == split_char(a, '.').push(Seq::<char>::empty()));
    let z = seq!['0'];
    assert(Seq::<char>::empty().push('0') =~= z);
    assert(split_char(b, '.') =~= split_char(a, '.').push(z));
    assert(z.drop_last() =~= Seq::<char>::empty());
    assert(digits_value(Seq::<char>::empty()) == 0);
    assert(z.last() == '0');
    assert(('0' as u32) == 48);
    assert(digits_value(z) == digits_value(z.drop_last()) * 10 + ((z.last() as u32) - 48) as nat);
    assert(digits_value(z) == 0);
    assert(digits_only(z));
    assert(u64_of(z) == Some(0u64));
    let f = |p: Seq<char>|
        match u64_of(p) {
            Some(n) => n,
            None => 0u64,
        };
    assert(split_char(a, '.').push(z).map_values(f) =~= split_char(a, '.').map_values(f).push(
        f(z),
    ));
}

/// Version comparison is antisymmetric, and every version is level with
/// itself.
pub proof fn law_version_order_antisymmetric(a: Seq<char>, b: Seq<char>)
    ensures
        version_order(a, b) == -version_order(b, a),
        version_order(a, a) == 0,
{
    lemma_order_swap(numeric_parts(a), numeric_parts(b), 0);
    lemma_order_self(numeric_parts(a), 0);
}

/// Appending `".0"` to either version never changes their comparison.
pub proof fn law_version_trailing_zero(a: Seq<char>, b: Seq<char>)
    ensures
        version_order(a + ".0"@, b) == version_order(a, b),
        version_order(a, b + ".0"@) == version_order(a, b),
{
    lemma_parts_pad(a);
    lemma_parts_pad(b);
    lemma_order_pad(numeric_parts(a), numeric_parts(b), 0);
    lemma_order_pad(numeric_parts(b), numeric_parts(a), 0);
    lemma_order_swap(numeric_parts(a), numeric_parts(b).push(0), 0);
    lemma_order_swap(numeric_parts(a), numeric_parts(b), 0);
}

/// The sign an `Ordering` stands for.
pub open spec fn ordering_sign(o: std::cmp::Ordering) -> int {
    match o {
        std::cmp::Ordering::Less => -1,
        std::cmp::Ordering::Equal => 0,
        std::cmp::Ordering::Greater => 1,
    }
}

/// Compare two versions by their numeric components (see
/// `version_order`).
pub fn version_cmp(a: &str, b: &str) -> (r: std::cmp::Ordering)
    ensures
        ordering_sign(r) == version_order(a@, b@),
{
    let xs = numeric_parts_of(a);
    let ys = numeric_parts_of(b);
    let len = if xs.len() > ys.len() {
        xs.len()
    } else {
        ys.len()
    };
    let mut i: usize = 0;
    let ghost mut at: int = 0;
    while i < len
        invariant
            i <= len,
            at == i,
            xs@ == numeric_parts(a@),
            ys@ == numeric_parts(b@),
            len == (if xs@.len() > ys@.len() {
                xs@.len()
            } else {
                ys@.len()
            }),
            order_from(xs@, ys@, 0) == order_from(xs@, ys@, at),
        decreases len - i,
    {
        let av: u64 = if i < xs.len() {
            xs[i]
        } else {
            0
        };
        let bv: u64 = if i < ys.len() {
            ys[i]
        } else {
            0
        };
        assert(av == part_at(xs@, at));
        assert(bv == part_at(ys@, at));
        if av < bv {
            return std::cmp::Ordering::Less;
        }
        if av > bv {
            return std::cmp::Ordering::Greater;
        }
        i = i + 1;
        proof {
            at = at + 1;
        }
    }
    std::cmp::Ordering::Equal
}

/// Is `a` at least as new as `b`?
pub fn not_older(a: &str, b: &str) -> (r: bool)
    ensures
        r == (version_order(a@, b@) >= 0),
{
    match version_cmp(a, b) {
        std::cmp::Ordering::Less => false,
        _ => true,
    }
}

/// The stable versions of a list, in order.
pub open spec fn stable_only(vs: Seq<Seq<char>>) -> Seq<Seq<char>>
    decreases vs.len(),
{
    if vs.len() == 0 {
        Seq::empty()
    } else {
        stable_only(vs.drop_last()) + if is_stable(vs.last()) {
            seq![vs.last()]
        } else {
            Seq::empty()
        }
    }
}

/// The latest version of a list by `version_order`; among versions that
/// order equal, the one that comes last.
pub open spec fn latest_of(vs: Seq<Seq<char>>) -> Option<Seq<char>>
    decreases vs.len(),
{
    if vs.len() == 0 {
        None
    } else {
        match latest_of(vs.drop_last()) {
            None => Some(vs.last()),
            Some(best) => if version_order(vs.last(), best) >= 0 {
                Some(vs.last())
            } else {
                Some(best)
            },
        }
    }
}

/// The string views of a list.
pub open spec fn texts(v: Seq<String>) -> Seq<Seq<char>> {
    v.map_values(|s: String| s@)
}

/// The latest stable version of a list (see `stable_only`, `latest_of`).
pub fn latest_stable(versions: &Vec<String>) -> (r: Option<String>)
    ensures
        match r {
            Some(v) => latest_of(stable_only(texts(versions@))) == Some(v@),
            None => latest_of(stable_only(texts(versions@))) is None,
        },
{
    let ghost all = texts(versions@);
    let mut best: Option<String> = None;
    let ghost mut kept: Seq<Seq<char>> = Seq::empty();
    let mut i: usize = 0;
    assert(all.subrange(0, 0) =~= Seq::<Seq<char>>::empty());
    while i < versions.len()
        invariant
            i <= versions@.len(),
            all == texts(versions@),
            kept == stable_only(all.subrange(0, i as int)),
            match best {
                Some(b) => latest_of(kept) == Some(b@),
                None => latest_of(kept) is None,
            },
        decreases versions@.len() - i,
    {
        let ghost post = all.subrange(0, i + 1);
        assert(post.drop_last() =~= all.subrange(0, i as int));
        assert(post.last() == versions@[i as int]@);
        if is_stable_version(versions[i].as_str()) {
            proof {
                kept = kept.push(versions@[i as int]@);
            }
            assert(kept.drop_last() =~= stable_only(all.subrange(0, i as int)));
            match &best {
                None => {
                    best = Some(versions[i].clone());
                },
                Some(b) => {
                    if not_older(versions[i].as_str(), b.as_str()) {
                        best = Some(versions[i].clone());
                    }
                },
            }
        }
        i = i + 1;
    }
    assert(all.subrange(0, all.len() as int) =~= all);
    best
}

// ---------------------------------------------------------------------
// Query strings.
// ---------------------------------------------------------------------

/// An uppercase hexadecimal digit.
pub open spec fn hex_digit(n: u8) -> char {
    if n < 10 {
        ((n + 48) as u32) as char
    } else {
        ((n + 55) as u32) as char
    }
}

/// A byte left as it is by the query encoder.
pub open spec fn unreserved(b: u8) -> bool {
    (48 <= b <= 57) || (65 <= b <= 90) || (97 <= b <= 122) || b == 45 || b == 95 || b == 46
        || b == 126
}

/// The encoding of one byte: itself when unreserved, `+` for a space,
/// `%XX` otherwise.
pub open spec fn encode_byte(b: u8) -> Seq<char> {
    if unreserved(b) {
        seq![(b as u32) as char]
    } else if b == 32 {
        seq!['+']
    } else {
        seq!['%', hex_digit(b / 16), hex_digit(b % 16)]
    }
}

/// The query encoding of a byte string.
pub open spec fn url_encoded(bytes: Seq<u8>) -> Seq<char>
    decreases bytes.len(),
{
    if bytes.len() == 0 {
        Seq::empty()
    } else {
        url_encoded(bytes.drop_last()) + encode_byte(bytes.last())
    }
}

fn hex_char(n: u8) -> (c: char)
    requires
        n < 16,
    ensures
        c == hex_digit(n),
{
    if n < 10 {
        let b: u8 = n + 48;
        b as char
    } else {
        let b: u8 = n + 55;
        b as char
    }
}

/// Encode one query parameter: the UTF-8 bytes of `s`, each encoded by
/// `encode_byte`.
pub fn url_encode(s: &str) -> (r: String)
    ensures
        r@ == url_encoded(vstd::utf8::encode_utf8(s@)),
{
    let bytes = s.as_bytes();
    let mut out: Vec<char> = Vec::new();
    let mut i: usize = 0;
    assert(bytes@.subrange(0, 0) =~= Seq::<u8>::empty());
    while i < bytes.len()
        invariant
            i <= bytes@.len(),
            out@ == url_encoded(bytes@.subrange(0, i as int)),
        decreases bytes@.len() - i,
    {
        let b = bytes[i];
        let ghost post = bytes@.subrange(0, i + 1);
        assert(post.drop_last() =~= bytes@.subrange(0, i as int));
        if (48 <= b && b <= 57) || (65 <= b && b <= 90) || (97 <= b && b <= 122) || b == 45 || b
            == 95 || b == 46 || b == 126 {
            out.push(b as char);
        } else if b == 32 {
            out.push('+');
        } else {
            out.push('%');
            out.push(hex_char(b / 16));
            out.push(hex_char(b % 16));
        }
        i = i + 1;
        assert(out@ =~= url_encoded(bytes@.subrange(0, i as int)));
    }
    assert(bytes@.subrange(0, bytes@.len() as int) =~= bytes@);
    string_of(&out)
}


// ---------------------------------------------------------------------
// Registries.
// ---------------------------------------------------------------------

/// The crates.io URL of a crate.
pub open spec fn crate_url(name: Seq<char>) -> Seq<char> {
    "https://crates.io/api/v1/crates/"@ + name
}

/// Executable `crate_url`.
pub fn crates_io_crate_url(crate_name: &str) -> (r: String)
    ensures
        r@ == crate_url(crate_name@),
{
    crate::text::cat("https://crates.io/api/v1/crates/", crate_name)
}

/// The latest stable version of a crate, from crates.io's answer for it
/// (its `max_stable_version` and `max_version`, or why the request or
/// its decoding failed): the stable maximum when there is one, else the
/// maximum.
pub fn crates_io_latest_stable(
    crate_name: &str,
    answer: Result<(Option<String>, String), String>,
) -> (r: Result<VersionHit, VectisError>)
    ensures
        match answer {
            Err(m) => r is Err && r->Err_0 is Internal && crate::error::error_message(r->Err_0)
                == query_failure(crate_url(crate_name@), m@),
            Ok((stable, max)) => r is Ok && r->Ok_0.source@ == crate_url(crate_name@)
                && r->Ok_0.version@ == match stable {
                Some(s) => s@,
                None => max@,
            },
        },
{
    let url = crates_io_crate_url(crate_name);
    match answer {
        Err(m) => Err(query_error(url.as_str(), m.as_str())),
        Ok((stable, max)) => {
            let version = match stable {
                Some(s) => s,
                None => max,
            };
            Ok(VersionHit { version, source: url })
        },
    }
}

/// The crates.io URL of a crate version's dependency list.
pub open spec fn deps_url(name: Seq<char>, version: Seq<char>) -> Seq<char> {
    "https://crates.io/api/v1/crates/"@ + name + "/"@ + version + "/dependencies"@
}

/// Executable `deps_url`.
pub fn crates_io_deps_url(crate_name: &str, version: &str) -> (r: String)
    ensures
        r@ == deps_url(crate_name@, version@),
{
    let mut url = crate::text::cat("https://crates.io/api/v1/crates/", crate_name);
    url.append("/");
    url.append(version);
    url.append("/dependencies");
    url
}

/// A crate version's dependencies, from crates.io's answer.
pub fn crates_io_dependencies(
    crate_name: &str,
    version: &str,
    answer: Result<Vec<CratesIoDep>, String>,
) -> (r: Result<Vec<CratesIoDep>, VectisError>)
    ensures
        match answer {
            Err(m) => r is Err && r->Err_0 is Internal && crate::error::error_message(r->Err_0)
                == query_failure(deps_url(crate_name@, version@), m@),
            Ok(deps) => r == Ok::<Vec<CratesIoDep>, VectisError>(deps),
        },
{
    match answer {
        Err(m) => {
            let url = crates_io_deps_url(crate_name, version);
            Err(query_error(url.as_str(), m.as_str()))
        },
        Ok(deps) => Ok(deps),
    }
}

/// The requirement of the first normal dependency named `dep`.
pub open spec fn normal_req(deps: Seq<CratesIoDep>, dep: Seq<char>) -> Option<Seq<char>>
    decreases deps.len(),
{
    if deps.len() == 0 {
        None
    } else if deps[0].kind@ == "normal"@ && deps[0].crate_id@ == dep {
        Some(deps[0].req@)
    } else {
        normal_req(deps.subrange(1, deps.len() as int), dep)
    }
}

/// The error when a crate version has no normal dependency on `dep`.
pub open spec fn no_dep_message(name: Seq<char>, version: Seq<char>, dep: Seq<char>) -> Seq<char> {
    "crates.io: "@ + name + "@"@ + version + " has no normal dep on "@ + crate::text::debug_form(dep)
}

/// The requirement string of a crate version's normal dependency on
/// `dep_name`, from its dependency list (or the failure to get it).
pub fn crates_io_normal_dep_req(
    crate_name: &str,
    version: &str,
    dep_name: &str,
    deps: Result<Vec<CratesIoDep>, VectisError>,
) -> (r: Result<String, VectisError>)
    ensures
        match deps {
            Err(e) => r == Err::<String, VectisError>(e),
            Ok(ds) => match normal_req(ds@, dep_name@) {
                Some(q) => r is Ok && r->Ok_0@ == q,
                None => r is Err && r->Err_0 is Internal && crate::error::error_message(r->Err_0)
                    == no_dep_message(crate_name@, version@, dep_name@),
            },
        },
{
    let ds = match deps {
        Err(e) => {
            return Err(e);
        },
        Ok(ds) => ds,
    };
    let mut i: usize = 0;
    assert(ds@.subrange(0, ds@.len() as int) =~= ds@);
    while i < ds.len()
        invariant
            i <= ds@.len(),
            deps == Ok::<Vec<CratesIoDep>, VectisError>(ds),
            normal_req(ds@, dep_name@) == normal_req(ds@.subrange(i as int, ds@.len() as int), dep_name@),
        decreases ds@.len() - i,
    {
        let ghost rest = ds@.subrange(i as int, ds@.len() as int);
        assert(rest.subrange(1, rest.len() as int) =~= ds@.subrange(i + 1, ds@.len() as int));
        assert(rest[0] == ds@[i as int]);
        if crate::text::str_eq(ds[i].kind.as_str(), "normal") && crate::text::str_eq(
            ds[i].crate_id.as_str(),
            dep_name,
        ) {
            return Ok(ds[i].req.clone());
        }
        i = i + 1;
    }
    let mut msg = crate::text::cat("crates.io: ", crate_name);
    msg.append("@");
    msg.append(version);
    msg.append(" has no normal dep on ");
    let q = crate::text::debug_quoted(dep_name);
    msg.append(q.as_str());
    Err(VectisError::Internal { message: msg })
}

/// What `roxmltree` makes of an XML document: every node, in document
/// order, as whether it is an element, its local tag name, and its text
/// (the text of its first child when that is a text node); or the
/// parser's message.
pub uninterp spec fn xml_nodes(body: Seq<char>) -> Result<
    Seq<(bool, Seq<char>, Option<Seq<char>>)>,
    Seq<char>,
>;

/// The view of an optional string.
pub open spec fn opt_text(o: Option<String>) -> Option<Seq<char>> {
    match o {
        Some(s) => Some(s@),
        None => None,
    }
}

/// The views of parsed nodes.
pub open spec fn nodes_view(v: Seq<(bool, String, Option<String>)>) -> Seq<
    (bool, Seq<char>, Option<Seq<char>>),
> {
    v.map_values(|n: (bool, String, Option<String>)| (n.0, n.1@, opt_text(n.2)))
}

/// Parse an XML document with `roxmltree::Document::parse` and list its
/// descendants (see `xml_nodes`); a parse failure gives the error's
/// text. The contract only names the result: what the parser makes of a
/// document is not restated here.
#[verifier::external_body]
fn parse_xml_nodes(body: &str) -> (r: Result<Vec<(bool, String, Option<String>)>, String>)
    ensures
        xml_nodes(body@) == match r {
            Ok(v) => Ok(nodes_view(v@)),
            Err(e) => Err(e@),
        },
{
    match roxmltree::Document::parse(body) {
        Ok(doc) => Ok(
            doc.descendants().map(
                |n| (n.is_element(), n.tag_name().name().to_string(), n.text().map(|t| t.to_string())),
            ).collect(),
        ),
        Err(e) => Err(e.to_string()),
    }
}

/// The texts of the `version` elements among parsed nodes.
pub open spec fn version_texts(nodes: Seq<(bool, Seq<char>, Option<Seq<char>>)>) -> Seq<Seq<char>>
    decreases nodes.len(),
{
    if nodes.len() == 0 {
        Seq::empty()
    } else {
        let n = nodes.last();
        version_texts(nodes.drop_last()) + if n.0 && n.1 == "version"@ && n.2 is Some {
            seq![n.2->Some_0]
        } else {
            Seq::empty()
        }
    }
}

/// The texts of the `version` elements among parsed metadata nodes (see
/// `version_texts`), in document order.
pub fn metadata_versions(nodes: &Vec<(bool, String, Option<String>)>) -> (r: Vec<String>)
    ensures
        texts(r@) == version_texts(nodes_view(nodes@)),
{
    let mut versions: Vec<String> = Vec::new();
    let ghost nv = nodes_view(nodes@);
    let mut i: usize = 0;
    assert(nv.subrange(0, 0) =~= Seq::<(bool, Seq<char>, Option<Seq<char>>)>::empty());
    while i < nodes.len()
        invariant
            i <= nodes@.len(),
            nv == nodes_view(nodes@),
            texts(versions@) == version_texts(nv.subrange(0, i as int)),
        decreases nodes@.len() - i,
    {
        let ghost post = nv.subrange(0, i + 1);
        assert(post.drop_last() =~= nv.subrange(0, i as int));
        let ghost before = texts(versions@);
        if nodes[i].0 && crate::text::str_eq(nodes[i].1.as_str(), "version") {
            match &nodes[i].2 {
                Some(t) => {
                    versions.push(t.clone());
                    assert(texts(versions@) =~= before.push(t@));
                },
                None => {},
            }
        }
        i = i + 1;
    }
    assert(nv.subrange(0, nv.len() as int) =~= nv);
    versions
}

/// The Google Maven metadata URL of an artifact.
pub open spec fn google_url(group: Seq<char>, artifact: Seq<char>) -> Seq<char> {
    "https://maven.google.com/"@ + crate::text::replace_all(group, "."@, "/"@) + "/"@ + artifact
        + "/maven-metadata.xml"@
}

/// Executable `google_url`.
pub fn google_maven_url(group_id: &str, artifact_id: &str) -> (r: String)
    ensures
        r@ == google_url(group_id@, artifact_id@),
{
    proof {
        reveal_strlit(".");
    }
    let g = chars_of(group_id);
    let dot = chars_of(".");
    let slash = chars_of("/");
    let path = crate::text::replace_seq(g.as_slice(), dot.as_slice(), slash.as_slice());
    let mut url = owned("https://maven.google.com/");
    let p = string_of(&path);
    url.append(p.as_str());
    url.append("/");
    url.append(artifact_id);
    url.append("/maven-metadata.xml");
    url
}

/// The verdict on a Google Maven answer (the metadata document's text, or
/// why the request failed).
pub open spec fn google_verdict(url: Seq<char>, body: Result<Seq<char>, Seq<char>>) -> Result<
    Seq<char>,
    Seq<char>,
> {
    match body {
        Err(m) => Err(query_failure(url, m)),
        Ok(text) => match xml_nodes(text) {
            Err(e) => Err(query_failure(url, "roxmltree parse: "@ + e)),
            Ok(nodes) => match latest_of(stable_only(version_texts(nodes))) {
                Some(v) => Ok(v),
                None => Err("google maven: no stable versions at "@ + url),
            },
        },
    }
}

/// The latest stable version listed by an artifact's Google Maven
/// metadata.
pub fn google_maven_latest_stable(
    group_id: &str,
    artifact_id: &str,
    body: Result<String, String>,
) -> (r: Result<VersionHit, VectisError>)
    ensures
        ({
            let url = google_url(group_id@, artifact_id@);
            let v = google_verdict(
                url,
                match body {
                    Ok(t) => Ok(t@),
                    Err(m) => Err(m@),
                },
            );
            match v {
                Ok(ver) => r is Ok && r->Ok_0.version@ == ver && r->Ok_0.source@ == url,
                Err(m) => r is Err && r->Err_0 is Internal && crate::error::error_message(r->Err_0)
                    == m,
            }
        }),
{
    let url = google_maven_url(group_id, artifact_id);
    let text = match body {
        Err(m) => {
            return Err(query_error(url.as_str(), m.as_str()));
        },
        Ok(t) => t,
    };
    let nodes = match parse_xml_nodes(text.as_str()) {
        Err(e) => {
            let m = crate::text::cat("roxmltree parse: ", e.as_str());
            return Err(query_error(url.as_str(), m.as_str()));
        },
        Ok(n) => n,
    };
    let versions = metadata_versions(&nodes);
    match latest_stable(&versions) {
        Some(v) => Ok(VersionHit { version: v, source: url }),
        None => Err(
            VectisError::Internal {
                message: crate::text::cat("google maven: no stable versions at ", url.as_str()),
            },
        ),
    }
}

/// The Maven Central search URL for an artifact.
pub open spec fn central_url(group: Seq<char>, artifact: Seq<char>) -> Seq<char> {
    "https://search.maven.org/solrsearch/select?q="@ + url_encoded(
        vstd::utf8::encode_utf8("g:"@ + group + " AND a:"@ + artifact),
    ) + "&core=gav&rows=40&wt=json"@
}

/// Executable `central_url`.
pub fn maven_central_url(group_id: &str, artifact_id: &str) -> (r: String)
    ensures
        r@ == central_url(group_id@, artifact_id@),
{
    let mut q = crate::text::cat("g:", group_id);
    q.append(" AND a:");
    q.append(artifact_id);
    let enc = url_encode(q.as_str());
    let mut url = crate::text::cat("https://search.maven.org/solrsearch/select?q=", enc.as_str());
    url.append("&core=gav&rows=40&wt=json");
    url
}

/// The latest stable version among the versions Maven Central's search
/// answered with (or why the request failed).
pub fn maven_central_latest_stable(
    group_id: &str,
    artifact_id: &str,
    answer: Result<Vec<String>, String>,
) -> (r: Result<VersionHit, VectisError>)
    ensures
        match answer {
            Err(m) => r is Err && r->Err_0 is Internal && crate::error::error_message(r->Err_0)
                == query_failure(central_url(group_id@, artifact_id@), m@),
            Ok(vs) => match latest_of(stable_only(texts(vs@))) {
                Some(v) => r is Ok && r->Ok_0.version@ == v && r->Ok_0.source@ == central_url(
                    group_id@,
                    artifact_id@,
                ),
                None => r is Err && r->Err_0 is Internal && crate::error::error_message(r->Err_0)
                    == "maven central: no stable versions for "@ + group_id@ + ":"@ + artifact_id@,
            },
        },
{
    let url = maven_central_url(group_id, artifact_id);
    let vs = match answer {
        Err(m) => {
            return Err(query_error(url.as_str(), m.as_str()));
        },
        Ok(vs) => vs,
    };
    match latest_stable(&vs) {
        Some(v) => Ok(VersionHit { version: v, source: url }),
        None => {
            let mut msg = crate::text::cat("maven central: no stable versions for ", group_id);
            msg.append(":");
            msg.append(artifact_id);
            Err(VectisError::Internal { message: msg })
        },
    }
}

/// The GitHub latest-release URL of a repository.
pub open spec fn release_url(owner: Seq<char>, repo: Seq<char>) -> Seq<char> {
    "https://api.github.com/repos/"@ + owner + "/"@ + repo + "/releases/latest"@
}

/// Drop every leading `v`.
pub open spec fn strip_vs(s: Seq<char>) -> Seq<char>
    decreases s.len(),
{
    if s.len() > 0 && s[0] == 'v' {
        strip_vs(s.subrange(1, s.len() as int))
    } else {
        s
    }
}

/// The latest release of a repository, from GitHub's answer (the release
/// tag, or why the request failed): the tag without its leading `v`s.
pub fn github_latest_release(owner: &str, repo: &str, answer: Result<String, String>) -> (r:
    Result<VersionHit, VectisError>)
    ensures
        match answer {
            Err(m) => r is Err && r->Err_0 is Internal && crate::error::error_message(r->Err_0)
                == query_failure(release_url(owner@, repo@), m@),
            Ok(tag) => r is Ok && r->Ok_0.version@ == strip_vs(tag@) && r->Ok_0.source@
                == release_url(owner@, repo@),
        },
{
    let mut url = crate::text::cat("https://api.github.com/repos/", owner);
    url.append("/");
    url.append(repo);
    url.append("/releases/latest");
    let tag = match answer {
        Err(m) => {
            return Err(query_error(url.as_str(), m.as_str()));
        },
        Ok(t) => t,
    };
    let t = chars_of(tag.as_str());
    let mut i: usize = 0;
    assert(t@.subrange(0, t@.len() as int) =~= t@);
    while i < t.len() && t[i] == 'v'
        invariant
            i <= t@.len(),
            t@ == tag@,
            strip_vs(tag@) == strip_vs(t@.subrange(i as int, t@.len() as int)),
        decreases t@.len() - i,
    {
        let ghost rest = t@.subrange(i as int, t@.len() as int);
        assert(rest.subrange(1, rest.len() as int) =~= t@.subrange(i + 1, t@.len() as int));
        i = i + 1;
    }
    let v = crate::text::slice_chars(t.as_slice(), i, t.len());
    Ok(VersionHit { version: string_of(&v), source: url })
}

} // verus!
