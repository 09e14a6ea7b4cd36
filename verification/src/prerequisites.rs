//! Workstation toolchain detection: which tools each assembly needs, how
//! a probe's outcome is judged, and the report of what is missing.
//!
//! Probes (running a command, reading an environment variable, looking
//! at a directory) are performed by the caller; the functions here judge
//! what the probes returned.

use vstd::prelude::*;

use crate::error::{MissingTool, VectisError};
use crate::text::{
    chars_of, decimal, is_digit, owned, string_of, trim, trim_end, trim_seq, trim_start, usize_to_text,
};

verus! {

// ---------------------------------------------------------------------
// Assemblies.
// ---------------------------------------------------------------------

/// The assembly a tool belongs to.
#[derive(Debug, Clone, Copy, PartialEq, Eq, Structural, Hash)]
pub enum AssemblyKind {
    Core,
    Ios,
    Android,
}

/// The tag of an assembly in reports.
pub open spec fn assembly_tag(a: AssemblyKind) -> Seq<char> {
    match a {
        AssemblyKind::Core => "core"@,
        AssemblyKind::Ios => "ios"@,
        AssemblyKind::Android => "android"@,
    }
}

impl AssemblyKind {
    /// The tag used in the JSON error payload.
    pub fn tag(self) -> (r: &'static str)
        ensures
            r@ == assembly_tag(self),
    {
        match self {
            AssemblyKind::Core => "core",
            AssemblyKind::Ios => "ios",
            AssemblyKind::Android => "android",
        }
    }
}

// ---------------------------------------------------------------------
// Versions.
// ---------------------------------------------------------------------

/// A `major.minor.patch` triple.
#[derive(Debug, Clone, Copy, PartialEq, Eq, Structural, PartialOrd, Ord)]
pub struct Version {
    pub major: u32,
    pub minor: u32,
    pub patch: u32,
}

/// Lexicographic order on (major, minor, patch).
pub open spec fn version_lt(a: Version, b: Version) -> bool {
    a.major < b.major || (a.major == b.major && (a.minor < b.minor || (a.minor == b.minor
        && a.patch < b.patch)))
}

/// The value of a string of ASCII digits.
pub open spec fn digits_value(s: Seq<char>) -> nat
    decreases s.len(),
{
    if s.len() == 0 {
        0
    } else {
        digits_value(s.drop_last()) * 10 + ((s.last() as u32) - 48) as nat
    }
}

/// Every character is an ASCII digit.
pub open spec fn all_digits(s: Seq<char>) -> bool {
    forall|k: int| 0 <= k < s.len() ==> is_digit(#[trigger] s[k])
}

/// `u32::from_str`: an optional `+`, then one or more ASCII digits whose
/// value fits in a `u32`.
pub open spec fn u32_of(s: Seq<char>) -> Option<u32> {
    let d = if s.len() > 0 && s[0] == '+' {
        s.subrange(1, s.len() as int)
    } else {
        s
    };
    if d.len() > 0 && all_digits(d) && digits_value(d) <= u32::MAX {
        Some(digits_value(d) as u32)
    } else {
        None
    }
}

/// Parse an unsigned 32-bit decimal (see `u32_of`).
pub fn parse_u32(s: &[char]) -> (r: Option<u32>)
    ensures
        r == u32_of(s@),
{
    let mut start: usize = 0;
    if s.len() > 0 && s[0] == '+' {
        start = 1;
    }
    let ghost d = if s@.len() > 0 && s@[0] == '+' {
        s@.subrange(1, s@.len() as int)
    } else {
        s@
    };
    assert(d =~= s@.subrange(start as int, s@.len() as int));
    if start == s.len() {
        return None;
    }
    let mut acc: u64 = 0;
    let mut i: usize = start;
    while i < s.len()
        invariant
            start <= i <= s@.len(),
            d == s@.subrange(start as int, s@.len() as int),
            d.len() > 0,
            u32_of(s@) == (if all_digits(d) && digits_value(d) <= u32::MAX {
                Some(digits_value(d) as u32)
            } else {
                None
            }),
            all_digits(s@.subrange(start as int, i as int)),
            acc as nat == digits_value(s@.subrange(start as int, i as int)),
            acc <= u32::MAX,
        decreases s@.len() - i,
    {
        let c = s[i];
        if !('0' <= c && c <= '9') {
            assert(!is_digit(d[i - start]));
            return None;
        }
        let ghost pre = s@.subrange(start as int, i as int);
        let ghost post = s@.subrange(start as int, i + 1);
        assert(post.drop_last() =~= pre);
        let v: u64 = acc * 10 + ((c as u32) - 48) as u64;
        i = i + 1;
        assert(v as nat == digits_value(post));
        if v > 4294967295u64 {
            assert(d.subrange(0, i - start) =~= post);
            proof {
                lemma_digits_value_grows(d, i - start);
            }
            return None;
        }
        acc = v;
    }
    assert(s@.subrange(start as int, i as int) =~= d);
    Some(acc as u32)
}

/// The value of a digit string is at least that of any of its prefixes.
proof fn lemma_digits_value_grows(d: Seq<char>, n: int)
    requires
        0 <= n <= d.len(),
        all_digits(d.subrange(0, n)),
    ensures
        all_digits(d) ==> digits_value(d.subrange(0, n)) <= digits_value(d),
    decreases d.len(),
{
    if n < d.len() && all_digits(d) {
        assert(d.drop_last().subrange(0, n) =~= d.subrange(0, n));
        lemma_digits_value_grows(d.drop_last(), n);
    } else if n == d.len() {
        assert(d.subrange(0, n) =~= d);
    }
}

/// The leading ASCII digits of `s`, when there is at least one.
pub open spec fn leading_digits(s: Seq<char>) -> Option<Seq<char>> {
    let k = digit_run(s, 0);
    if k == 0 {
        None
    } else {
        Some(s.subrange(0, k))
    }
}

/// The end of the run of ASCII digits starting at `i`.
pub open spec fn digit_run(s: Seq<char>, i: int) -> int
    decreases s.len() - i,
{
    if i < 0 || i >= s.len() || !is_digit(s[i]) {
        if i < 0 {
            0
        } else {
            i
        }
    } else {
        digit_run(s, i + 1)
    }
}

proof fn lemma_digit_run(s: Seq<char>, i: int)
    requires
        0 <= i <= s.len(),
    ensures
        i <= digit_run(s, i) <= s.len(),
        forall|k: int| i <= k < digit_run(s, i) ==> is_digit(#[trigger] s[k]),
    decreases s.len() - i,
{
    if i < s.len() && is_digit(s[i]) {
        lemma_digit_run(s, i + 1);
    }
}

/// Executable `leading_digits`.
pub fn leading_digits_of(s: &[char]) -> (r: Option<Vec<char>>)
    ensures
        match r {
            Some(v) => leading_digits(s@) == Some(v@),
            None => leading_digits(s@) is None,
        },
{
    let mut i: usize = 0;
    while i < s.len() && '0' <= s[i] && s[i] <= '9'
        invariant
            i <= s@.len(),
            digit_run(s@, 0) == digit_run(s@, i as int),
        decreases s@.len() - i,
    {
        i = i + 1;
    }
    if i == 0 {
        None
    } else {
        Some(crate::text::slice_chars(s, 0, i))
    }
}

/// The index of the first `.` at or after `i`, if any.
pub open spec fn dot_at(s: Seq<char>, i: int) -> Option<int>
    decreases s.len() - i,
{
    if i < 0 || i >= s.len() {
        None
    } else if s[i] == '.' {
        Some(i)
    } else {
        dot_at(s, i + 1)
    }
}

proof fn lemma_dot_at(s: Seq<char>, i: int)
    requires
        0 <= i <= s.len(),
    ensures
        match dot_at(s, i) {
            Some(k) => i <= k < s.len() && s[k] == '.' && forall|j: int| i <= j < k ==> s[j] != '.',
            None => forall|j: int| i <= j < s.len() ==> s[j] != '.',
        },
    decreases s.len() - i,
{
    if i < s.len() && s[i] != '.' {
        lemma_dot_at(s, i + 1);
    }
}

/// The first `.` of `s` at or after `i`.
fn find_dot(s: &[char], i: usize) -> (r: Option<usize>)
    requires
        i <= s@.len(),
    ensures
        match r {
            Some(k) => dot_at(s@, i as int) == Some(k as int),
            None => dot_at(s@, i as int) is None,
        },
{
    let mut k = i;
    while k < s.len() && s[k] != '.'
        invariant
            i <= k <= s@.len(),
            dot_at(s@, i as int) == dot_at(s@, k as int),
        decreases s@.len() - k,
    {
        k = k + 1;
    }
    if k < s.len() {
        Some(k)
    } else {
        None
    }
}

/// The patch number of the third `.`-separated part: its leading digits'
/// value, or 0 when there are none or they overflow.
pub open spec fn patch_of(p: Option<Seq<char>>) -> u32 {
    match p {
        Some(x) => match leading_digits(x) {
            Some(d) => match u32_of(d) {
                Some(v) => v,
                None => 0,
            },
            None => 0,
        },
        None => 0,
    }
}

/// `Version::parse`: trim, split at the first two dots; the first part
/// must be a `u32`, the second must start with digits that fit a `u32`
/// (anything after them is ignored); the third, when present, gives the
/// patch by its leading digits (0 otherwise).
pub open spec fn parse_version(s: Seq<char>) -> Option<Version> {
    let t = trim(s);
    match dot_at(t, 0) {
        None => None,
        Some(i) => {
            let major = t.subrange(0, i);
            let rest = t.subrange(i + 1, t.len() as int);
            let (minor_raw, third) = match dot_at(rest, 0) {
                Some(j) => (rest.subrange(0, j), Some(rest.subrange(j + 1, rest.len() as int))),
                None => (rest, None),
            };
            match (u32_of(major), leading_digits(minor_raw)) {
                (Some(ma), Some(md)) => match u32_of(md) {
                    Some(mi) => Some(Version { major: ma, minor: mi, patch: patch_of(third) }),
                    None => None,
                },
                _ => None,
            }
        },
    }
}

/// The text of a version: `major.minor.patch`.
pub open spec fn version_text(v: Version) -> Seq<char> {
    decimal(v.major as nat) + "."@ + decimal(v.minor as nat) + "."@ + decimal(v.patch as nat)
}

proof fn lemma_decimal_digits(n: nat)
    ensures
        decimal(n).len() >= 1,
        all_digits(decimal(n)),
        digits_value(decimal(n)) == n,
    decreases n,
{
    let c = crate::text::digit_char(n % 10);
    assert((c as u32) == n % 10 + 48) by {
        assert(n % 10 < 10);
    }
    if n < 10 {
        let d = decimal(n);
        assert(d.drop_last() =~= Seq::<char>::empty());
        assert(digits_value(d.drop_last()) == 0);
    } else {
        lemma_decimal_digits(n / 10);
        let d = decimal(n);
        assert(d.drop_last() =~= decimal(n / 10));
        assert(d.last() == c);
        assert forall|k: int| 0 <= k < d.len() implies is_digit(#[trigger] d[k]) by {
            if k < d.len() - 1 {
                assert(d[k] == decimal(n / 10)[k]);
            }
        }
        assert(n == (n / 10) * 10 + n % 10) by (nonlinear_arith);
    }
}

proof fn lemma_u32_of_decimal(n: u32)
    ensures
        u32_of(decimal(n as nat)) == Some(n),
{
    lemma_decimal_digits(n as nat);
    let d = decimal(n as nat);
    assert(is_digit(d[0]));
}

proof fn lemma_digit_run_all(s: Seq<char>, i: int)
    requires
        0 <= i <= s.len(),
        all_digits(s),
    ensures
        digit_run(s, i) == s.len(),
    decreases s.len() - i,
{
    if i < s.len() {
        lemma_digit_run_all(s, i + 1);
    }
}

proof fn lemma_dot_after_digits(a: Seq<char>, b: Seq<char>)
    requires
        all_digits(a),
    ensures
        dot_at(a + "."@ + b, 0) == Some(a.len() as int),
{
    reveal_strlit(".");
    let t = a + "."@ + b;
    assert(t[a.len() as int] == '.');
    lemma_dot_at(t, 0);
    match dot_at(t, 0) {
        Some(k) => {
            if k < a.len() {
                assert(t[k] == a[k]);
                assert(is_digit(a[k]));
            }
        },
        None => {},
    }
}

proof fn lemma_trim_digits(t: Seq<char>)
    requires
        t.len() > 0,
        is_digit(t[0]),
        is_digit(t.last()),
    ensures
        trim(t) == t,
{
    assert(trim_start(t) == t);
    assert(trim_end(t) == t);
}

proof fn lemma_leading_all(b: Seq<char>)
    requires
        b.len() > 0,
        all_digits(b),
    ensures
        leading_digits(b) == Some(b),
{
    lemma_digit_run_all(b, 0);
    assert(b.subrange(0, b.len() as int) =~= b);
}

/// A version's text parses back to the same version.
pub proof fn law_version_text_round_trip(v: Version)
    ensures
        parse_version(version_text(v)) == Some(v),
{
    reveal_strlit(".");
    let a = decimal(v.major as nat);
    let b = decimal(v.minor as nat);
    let c = decimal(v.patch as nat);
    lemma_decimal_digits(v.major as nat);
    lemma_decimal_digits(v.minor as nat);
    lemma_decimal_digits(v.patch as nat);
    lemma_u32_of_decimal(v.major);
    lemma_u32_of_decimal(v.minor);
    lemma_u32_of_decimal(v.patch);
    lemma_leading_all(b);
    lemma_leading_all(c);
    let t = version_text(v);
    let rest = b + "."@ + c;
    assert(t =~= a + "."@ + rest);
    assert(t[0] == a[0]);
    assert(t.last() == c.last());
    lemma_trim_digits(t);
    lemma_dot_after_digits(a, rest);
    lemma_dot_after_digits(b, c);
    let i = a.len() as int;
    assert(t.subrange(0, i) =~= a);
    assert(t.subrange(i + 1, t.len() as int) =~= rest);
    let j = b.len() as int;
    assert(rest.subrange(0, j) =~= b);
    assert(rest.subrange(j + 1, rest.len() as int) =~= c);
    assert(patch_of(Some(c)) == v.patch);
}

impl Version {
    /// A version from its three numbers.
    pub fn new(major: u32, minor: u32, patch: u32) -> (r: Version)
        ensures
            r == (Version { major, minor, patch }),
    {
        Version { major, minor, patch }
    }

    /// Parse a `M.m[.p]` token (see `parse_version`).
    pub fn parse(s: &str) -> (r: Option<Version>)
        ensures
            r == parse_version(s@),
    {
        let t = trim_seq(chars_of(s).as_slice());
        proof {
            lemma_dot_at(t@, 0);
        }
        let i = match find_dot(&t, 0) {
            Some(i) => i,
            None => {
                return None;
            },
        };
        assert(dot_at(t@, 0) == Some(i as int));
        assert(i < t@.len());
        let major = crate::text::slice_chars(&t, 0, i);
        let rest = crate::text::slice_chars(&t, i + 1, t.len());
        proof {
            lemma_dot_at(rest@, 0);
        }
        let (minor_raw, third) = match find_dot(&rest, 0) {
            Some(j) => (
                crate::text::slice_chars(&rest, 0, j),
                Some(crate::text::slice_chars(&rest, j + 1, rest.len())),
            ),
            None => (rest.clone(), None),
        };
        let ma = match parse_u32(&major) {
            Some(v) => v,
            None => {
                return None;
            },
        };
        let md = match leading_digits_of(&minor_raw) {
            Some(v) => v,
            None => {
                return None;
            },
        };
        let mi = match parse_u32(&md) {
            Some(v) => v,
            None => {
                return None;
            },
        };
        let patch: u32 = match &third {
            Some(x) => match leading_digits_of(x) {
                Some(d) => match parse_u32(&d) {
                    Some(v) => v,
                    None => 0,
                },
                None => 0,
            },
            None => 0,
        };
        Some(Version { major: ma, minor: mi, patch })
    }

    /// `self < other` in version order.
    pub fn less_than(&self, other: &Version) -> (r: bool)
        ensures
            r == version_lt(*self, *other),
    {
        self.major < other.major || (self.major == other.major && (self.minor < other.minor || (
        self.minor == other.minor && self.patch < other.patch)))
    }

    /// The text of the version (`major.minor.patch`).
    pub fn to_text(&self) -> (r: String)
        ensures
            r@ == version_text(*self),
    {
        let mut out = usize_to_text(self.major as usize);
        out.append(".");
        let mi = usize_to_text(self.minor as usize);
        out.append(mi.as_str());
        out.append(".");
        let pa = usize_to_text(self.patch as usize);
        out.append(pa.as_str());
        out
    }
}


// ---------------------------------------------------------------------
// Versions in tool output.
// ---------------------------------------------------------------------

/// A character of a version token: an ASCII digit or `.`.
pub open spec fn is_vchar(c: char) -> bool {
    is_digit(c) || c == '.'
}

/// The pieces of `s` between characters that cannot be part of a
/// version token.
pub open spec fn vsplit(s: Seq<char>) -> Seq<Seq<char>>
    decreases s.len(),
{
    if s.len() == 0 {
        seq![Seq::<char>::empty()]
    } else {
        let p = vsplit(s.drop_last());
        if !is_vchar(s.last()) {
            p.push(Seq::<char>::empty())
        } else {
            p.update(p.len() - 1, p.last().push(s.last()))
        }
    }
}

proof fn lemma_vsplit_nonempty(s: Seq<char>)
    ensures
        vsplit(s).len() >= 1,
    decreases s.len(),
{
    if s.len() > 0 {
        lemma_vsplit_nonempty(s.drop_last());
    }
}

/// Drop leading `.`s.
pub open spec fn trim_dots_start(s: Seq<char>) -> Seq<char>
    decreases s.len(),
{
    if s.len() > 0 && s[0] == '.' {
        trim_dots_start(s.subrange(1, s.len() as int))
    } else {
        s
    }
}

/// Drop trailing `.`s.
pub open spec fn trim_dots_end(s: Seq<char>) -> Seq<char>
    decreases s.len(),
{
    if s.len() > 0 && s.last() == '.' {
        trim_dots_end(s.drop_last())
    } else {
        s
    }
}

/// `trim_matches('.')`.
pub open spec fn trim_dots(s: Seq<char>) -> Seq<char> {
    trim_dots_end(trim_dots_start(s))
}

/// The version a token gives: a non-empty token holding a `.`, parsed
/// once its surrounding dots are dropped.
pub open spec fn token_version(t: Seq<char>) -> Option<Version> {
    if t.len() > 0 && crate::text::has_char(t, '.') {
        parse_version(trim_dots(t))
    } else {
        None
    }
}

/// The version the first token of `toks` that gives one gives.
pub open spec fn first_version(toks: Seq<Seq<char>>) -> Option<Version>
    decreases toks.len(),
{
    if toks.len() == 0 {
        None
    } else {
        match first_version(toks.drop_last()) {
            Some(v) => Some(v),
            None => token_version(toks.last()),
        }
    }
}

/// The first `M.m[.p]` token anywhere in a tool's output (tokens
/// without a dot, such as years, are skipped).
pub open spec fn extracted_version(text: Seq<char>) -> Option<Version> {
    first_version(vsplit(text))
}

/// `trim_matches('.')` over characters.
fn trim_dots_seq(s: &[char]) -> (r: Vec<char>)
    ensures
        r@ == trim_dots(s@),
{
    let mut i: usize = 0;
    assert(s@.subrange(0, s@.len() as int) =~= s@);
    while i < s.len() && s[i] == '.'
        invariant
            i <= s@.len(),
            trim_dots_start(s@) == trim_dots_start(s@.subrange(i as int, s@.len() as int)),
        decreases s@.len() - i,
    {
        let ghost rest = s@.subrange(i as int, s@.len() as int);
        assert(rest.subrange(1, rest.len() as int) =~= s@.subrange(i + 1, s@.len() as int));
        i = i + 1;
    }
    let mut j: usize = s.len();
    let ghost a = s@.subrange(i as int, s@.len() as int);
    assert(a.subrange(0, a.len() as int) =~= a);
    while j > i && s[j - 1] == '.'
        invariant
            i <= j <= s@.len(),
            a == s@.subrange(i as int, s@.len() as int),
            trim_dots_end(a) == trim_dots_end(s@.subrange(i as int, j as int)),
        decreases j,
    {
        let ghost cur = s@.subrange(i as int, j as int);
        assert(cur.drop_last() =~= s@.subrange(i as int, j - 1));
        j = j - 1;
    }
    crate::text::slice_chars(s, i, j)
}

/// The version a token gives (see `token_version`).
fn version_of_token(t: &Vec<char>) -> (r: Option<Version>)
    ensures
        r == token_version(t@),
{
    if t.len() == 0 || !crate::text::seq_has_char(t.as_slice(), '.') {
        return None;
    }
    let trimmed = trim_dots_seq(t.as_slice());
    let text = string_of(&trimmed);
    Version::parse(text.as_str())
}

/// Find the first version token in arbitrary tool output.
pub fn extract_version(text: &str) -> (r: Option<Version>)
    ensures
        r == extracted_version(text@),
{
    let s = chars_of(text);
    let mut cur: Vec<char> = Vec::new();
    let mut i: usize = 0;
    let ghost mut done: Seq<Seq<char>> = Seq::empty();
    assert(s@.subrange(0, 0) =~= Seq::<char>::empty());
    assert(vsplit(Seq::<char>::empty()) =~= done.push(cur@));
    while i < s.len()
        invariant
            i <= s@.len(),
            s@ == text@,
            vsplit(s@.subrange(0, i as int)) == done.push(cur@),
            first_version(done) is None,
        decreases s@.len() - i,
    {
        let c = s[i];
        let ghost pre = s@.subrange(0, i as int);
        let ghost post = s@.subrange(0, i + 1);
        assert(post.drop_last() =~= pre);
        assert(post.last() == c);
        if !(('0' <= c && c <= '9') || c == '.') {
            let found = version_of_token(&cur);
            proof {
                assert(done.push(cur@).drop_last() =~= done);
            }
            if found.is_some() {
                proof {
                    lemma_vsplit_nonempty(text@);
                }
                assert(first_version(done.push(cur@)) == found);
                proof {
                    lemma_first_version_prefix(text@, i + 1, done.push(cur@));
                }
                return found;
            }
            proof {
                done = done.push(cur@);
            }
            cur = Vec::new();
            assert(vsplit(post) =~= done.push(cur@));
        } else {
            let ghost before = cur@;
            cur.push(c);
            assert(vsplit(post) =~= done.push(cur@));
        }
        i = i + 1;
    }
    assert(s@.subrange(0, s@.len() as int) =~= s@);
    let found = version_of_token(&cur);
    assert(done.push(cur@).drop_last() =~= done);
    found
}

/// Once a prefix's completed tokens give a version, the whole text gives
/// that version.
proof fn lemma_first_version_prefix(s: Seq<char>, n: int, toks: Seq<Seq<char>>)
    requires
        0 < n <= s.len(),
        !is_vchar(s[n - 1]),
        vsplit(s.subrange(0, n)) == toks.push(Seq::<char>::empty()),
        first_version(toks) is Some,
    ensures
        first_version(vsplit(s)) == first_version(toks),
    decreases s.len() - n,
{
    lemma_vsplit_prefix(s, n);
    let k = toks.len() as int;
    assert(vsplit(s).subrange(0, k) =~= toks);
    lemma_first_version_extends(vsplit(s), k);
}

/// The pieces of a prefix ending at a separator are a prefix of the
/// pieces of the whole.
proof fn lemma_vsplit_prefix(s: Seq<char>, n: int)
    requires
        0 <= n <= s.len(),
    ensures
        vsplit(s).len() >= vsplit(s.subrange(0, n)).len(),
        forall|k: int|
            0 <= k < vsplit(s.subrange(0, n)).len() - 1 ==> #[trigger] vsplit(s)[k] == vsplit(
                s.subrange(0, n),
            )[k],
    decreases s.len() - n,
{
    lemma_vsplit_nonempty(s.subrange(0, n));
    if n < s.len() {
        lemma_vsplit_prefix(s, n + 1);
        let a = s.subrange(0, n);
        let b = s.subrange(0, n + 1);
        assert(b.drop_last() =~= a);
        lemma_vsplit_nonempty(a);
    } else {
        assert(s.subrange(0, n) =~= s);
    }
}

/// `first_version` of a sequence agrees with that of any prefix that
/// already gives a version.
proof fn lemma_first_version_extends(toks: Seq<Seq<char>>, k: int)
    requires
        0 <= k <= toks.len(),
        first_version(toks.subrange(0, k)) is Some,
    ensures
        first_version(toks) == first_version(toks.subrange(0, k)),
    decreases toks.len() - k,
{
    if k < toks.len() {
        assert(toks.subrange(0, k + 1).drop_last() =~= toks.subrange(0, k));
        lemma_first_version_extends(toks, k + 1);
    } else {
        assert(toks.subrange(0, k) =~= toks);
    }
}


// ---------------------------------------------------------------------
// The tool registry.
// ---------------------------------------------------------------------

/// How a tool's presence is probed.
#[derive(Debug)]
pub enum ToolCheck {
    /// Run `program args`; it must exit successfully and, with a minimum
    /// version, print a version at least that high.
    Cmd { program: &'static str, args: Vec<&'static str>, min_version: Option<Version> },
    /// The variable must be set and non-empty; with `must_exist`, name an
    /// existing directory.
    Env { var: &'static str, must_exist: bool },
    /// `rustup target list --installed` must list every target.
    RustupTargets(Vec<&'static str>),
    /// `$ANDROID_HOME/ndk` must be a non-empty directory.
    AndroidNdk,
}

/// A workstation tool.
#[derive(Debug)]
pub struct Tool {
    /// Stable identifier reported in the JSON payload.
    pub name: &'static str,
    pub assembly: AssemblyKind,
    /// The command a user runs to check for the tool.
    pub check_display: &'static str,
    /// The install hint.
    pub install: &'static str,
    pub check: ToolCheck,
}

/// The registry, in report order: name, assembly, check command, install
/// hint.
pub open spec fn tool_table() -> Seq<(Seq<char>, AssemblyKind, Seq<char>, Seq<char>)> {
    seq![
        ("rustup"@, AssemblyKind::Core, "rustup show active-toolchain"@, "https://rustup.rs"@),
        ("cargo-deny"@, AssemblyKind::Core, "cargo deny --version"@, "cargo install cargo-deny"@),
        ("cargo-vet"@, AssemblyKind::Core, "cargo vet --version"@, "cargo install cargo-vet"@),
        ("xcode"@, AssemblyKind::Ios, "xcode-select -p"@, "Install Xcode + Command Line Tools from the Mac App Store"@),
        ("xcodegen"@, AssemblyKind::Ios, "xcodegen --version"@, "brew install xcodegen"@),
        ("cargo-swift"@, AssemblyKind::Ios, "cargo swift --version"@, "cargo install cargo-swift"@),
        ("xcbeautify"@, AssemblyKind::Ios, "xcbeautify --version"@, "brew install xcbeautify"@),
        ("android-sdk"@, AssemblyKind::Android, "echo $ANDROID_HOME"@, "Install Android Studio from https://developer.android.com/studio"@),
        ("java"@, AssemblyKind::Android, "java --version"@, "Install JDK 21+ from https://adoptium.net or `brew install openjdk@21`"@),
        ("rustup-android-targets"@, AssemblyKind::Android, "rustup target list --installed"@, "rustup target add aarch64-linux-android armv7-linux-androideabi x86_64-linux-android i686-linux-android"@),
        ("android-ndk"@, AssemblyKind::Android, "ls $ANDROID_HOME/ndk/"@, "Install the NDK via Android Studio's SDK Manager"@),
        ("gradle"@, AssemblyKind::Android, "gradle --version"@, "brew install gradle"@),
    ]
}

/// The report fields of a tool.
pub open spec fn tool_row(t: Tool) -> (Seq<char>, AssemblyKind, Seq<char>, Seq<char>) {
    (t.name@, t.assembly, t.check_display@, t.install@)
}

/// What a probe asks, as plain values.
pub enum CheckModel {
    Cmd { program: Seq<char>, args: Seq<Seq<char>>, min_version: Option<Version> },
    Env { var: Seq<char>, must_exist: bool },
    RustupTargets(Seq<Seq<char>>),
    AndroidNdk,
}

/// The texts of a list of static strings.
pub open spec fn texts(v: Seq<&'static str>) -> Seq<Seq<char>> {
    v.map_values(|s: &'static str| s@)
}

/// The model of a probe.
pub open spec fn check_model(c: ToolCheck) -> CheckModel {
    match c {
        ToolCheck::Cmd { program, args, min_version } => CheckModel::Cmd {
            program: program@,
            args: texts(args@),
            min_version,
        },
        ToolCheck::Env { var, must_exist } => CheckModel::Env { var: var@, must_exist },
        ToolCheck::RustupTargets(targets) => CheckModel::RustupTargets(texts(targets@)),
        ToolCheck::AndroidNdk => CheckModel::AndroidNdk,
    }
}

/// A command probe without a minimum version.
pub open spec fn cmd(program: Seq<char>, args: Seq<Seq<char>>) -> CheckModel {
    CheckModel::Cmd { program, args, min_version: None }
}

/// The probe of each registry tool, in report order.
pub open spec fn check_table() -> Seq<CheckModel> {
    seq![
        cmd("rustup"@, seq!["show"@, "active-toolchain"@]),
        cmd("cargo"@, seq!["deny"@, "--version"@]),
        cmd("cargo"@, seq!["vet"@, "--version"@]),
        cmd("xcode-select"@, seq!["-p"@]),
        cmd("xcodegen"@, seq!["--version"@]),
        cmd("cargo"@, seq!["swift"@, "--version"@]),
        cmd("xcbeautify"@, seq!["--version"@]),
        CheckModel::Env { var: "ANDROID_HOME"@, must_exist: true },
        CheckModel::Cmd {
            program: "java"@,
            args: seq!["--version"@],
            min_version: Some(Version { major: 21, minor: 0, patch: 0 }),
        },
        CheckModel::RustupTargets(
            seq![
                "aarch64-linux-android"@,
                "armv7-linux-androideabi"@,
                "x86_64-linux-android"@,
                "i686-linux-android"@,
            ],
        ),
        CheckModel::AndroidNdk,
        cmd("gradle"@, seq!["--version"@]),
    ]
}

/// Every tool the prerequisite check knows, in report order.
pub fn all_tools() -> (r: Vec<Tool>)
    ensures
        r@.map_values(|t: Tool| tool_row(t)) == tool_table(),
        r@.map_values(|t: Tool| check_model(t.check)) == check_table(),
{
    let mut out: Vec<Tool> = Vec::new();
    let check = {
        let mut args: Vec<&'static str> = Vec::new();
        args.push("show");
        args.push("active-toolchain");
        assert(texts(args@) =~= seq!["show"@, "active-toolchain"@]);
        ToolCheck::Cmd { program: "rustup", args, min_version: None }
    };
    out.push(Tool {
        name: "rustup",
        assembly: AssemblyKind::Core,
        check_display: "rustup show active-toolchain",
        install: "https://rustup.rs",
        check,
    });
    let check = {
        let mut args: Vec<&'static str> = Vec::new();
        args.push("deny");
        args.push("--version");
        assert(texts(args@) =~= seq!["deny"@, "--version"@]);
        ToolCheck::Cmd { program: "cargo", args, min_version: None }
    };
    out.push(Tool {
        name: "cargo-deny",
        assembly: AssemblyKind::Core,
        check_display: "cargo deny --version",
        install: "cargo install cargo-deny",
        check,
    });
    let check = {
        let mut args: Vec<&'static str> = Vec::new();
        args.push("vet");
        args.push("--version");
        assert(texts(args@) =~= seq!["vet"@, "--version"@]);
        ToolCheck::Cmd { program: "cargo", args, min_version: None }
    };
    out.push(Tool {
        name: "cargo-vet",
        assembly: AssemblyKind::Core,
        check_display: "cargo vet --version",
        install: "cargo install cargo-vet",
        check,
    });
    let check = {
        let mut args: Vec<&'static str> = Vec::new();
        args.push("-p");
        assert(texts(args@) =~= seq!["-p"@]);
        ToolCheck::Cmd { program: "xcode-select", args, min_version: None }
    };
    out.push(Tool {
        name: "xcode",
        assembly: AssemblyKind::Ios,
        check_display: "xcode-select -p",
        install: "Install Xcode + Command Line Tools from the Mac App Store",
        check,
    });
    let check = {
        let mut args: Vec<&'static str> = Vec::new();
        args.push("--version");
        assert(texts(args@) =~= seq!["--version"@]);
        ToolCheck::Cmd { program: "xcodegen", args, min_version: None }
    };
    out.push(Tool {
        name: "xcodegen",
        assembly: AssemblyKind::Ios,
        check_display: "xcodegen --version",
        install: "brew install xcodegen",
        check,
    });
    let check = {
        let mut args: Vec<&'static str> = Vec::new();
        args.push("swift");
        args.push("--version");
        assert(texts(args@) =~= seq!["swift"@, "--version"@]);
        ToolCheck::Cmd { program: "cargo", args, min_version: None }
    };
    out.push(Tool {
        name: "cargo-swift",
        assembly: AssemblyKind::Ios,
        check_display: "cargo swift --version",
        install: "cargo install cargo-swift",
        check,
    });
    let check = {
        let mut args: Vec<&'static str> = Vec::new();
        args.push("--version");
        assert(texts(args@) =~= seq!["--version"@]);
        ToolCheck::Cmd { program: "xcbeautify", args, min_version: None }
    };
    out.push(Tool {
        name: "xcbeautify",
        assembly: AssemblyKind::Ios,
        check_display: "xcbeautify --version",
        install: "brew install xcbeautify",
        check,
    });
    let check = ToolCheck::Env { var: "ANDROID_HOME", must_exist: true };
    out.push(Tool {
        name: "android-sdk",
        assembly: AssemblyKind::Android,
        check_display: "echo $ANDROID_HOME",
        install: "Install Android Studio from https://developer.android.com/studio",
        check,
    });
    let check = {
        let mut args: Vec<&'static str> = Vec::new();
        args.push("--version");
        assert(texts(args@) =~= seq!["--version"@]);
        ToolCheck::Cmd { program: "java", args, min_version: Some(Version { major: 21, minor: 0, patch: 0 }) }
    };
    out.push(Tool {
        name: "java",
        assembly: AssemblyKind::Android,
        check_display: "java --version",
        install: "Install JDK 21+ from https://adoptium.net or `brew install openjdk@21`",
        check,
    });
    let check = {
        let mut targets: Vec<&'static str> = Vec::new();
        targets.push("aarch64-linux-android");
        targets.push("armv7-linux-androideabi");
        targets.push("x86_64-linux-android");
        targets.push("i686-linux-android");
        assert(texts(targets@) =~= seq!["aarch64-linux-android"@, "armv7-linux-androideabi"@, "x86_64-linux-android"@, "i686-linux-android"@]);
        ToolCheck::RustupTargets(targets)
    };
    out.push(Tool {
        name: "rustup-android-targets",
        assembly: AssemblyKind::Android,
        check_display: "rustup target list --installed",
        install: "rustup target add aarch64-linux-android armv7-linux-androideabi x86_64-linux-android i686-linux-android",
        check,
    });
    let check = ToolCheck::AndroidNdk;
    out.push(Tool {
        name: "android-ndk",
        assembly: AssemblyKind::Android,
        check_display: "ls $ANDROID_HOME/ndk/",
        install: "Install the NDK via Android Studio's SDK Manager",
        check,
    });
    let check = {
        let mut args: Vec<&'static str> = Vec::new();
        args.push("--version");
        assert(texts(args@) =~= seq!["--version"@]);
        ToolCheck::Cmd { program: "gradle", args, min_version: None }
    };
    out.push(Tool {
        name: "gradle",
        assembly: AssemblyKind::Android,
        check_display: "gradle --version",
        install: "brew install gradle",
        check,
    });
    assert(out@.map_values(|t: Tool| tool_row(t)) =~= tool_table());
    assert(out@.map_values(|t: Tool| check_model(t.check)) =~= check_table());
    out
}

/// The message of a missing-prerequisites failure.
pub open spec fn missing_message() -> Seq<char> {
    "Install the missing tools above and re-run the command."@
}

/// The report fields of a missing tool.
pub open spec fn missing_view(m: MissingTool) -> (Seq<char>, Seq<char>, Seq<char>, Seq<char>) {
    (m.tool@, m.assembly@, m.check@, m.install@)
}

/// The tools among the first `n` rows that a needed assembly owns and
/// whose probe failed, in registry order.
pub open spec fn missing_rows(needed: Seq<AssemblyKind>, passed: Seq<bool>, n: int) -> Seq<
    (Seq<char>, Seq<char>, Seq<char>, Seq<char>),
>
    decreases n,
{
    if n <= 0 {
        Seq::empty()
    } else {
        let row = tool_table()[n - 1];
        missing_rows(needed, passed, n - 1) + if needed.contains(row.1) && !passed[n - 1] {
            seq![(row.0, assembly_tag(row.1), row.2, row.3)]
        } else {
            Seq::empty()
        }
    }
}

/// Does `needed` list `a`?
fn needs(needed: &[AssemblyKind], a: AssemblyKind) -> (r: bool)
    ensures
        r == needed@.contains(a),
{
    let mut i: usize = 0;
    while i < needed.len()
        invariant
            i <= needed@.len(),
            forall|k: int| 0 <= k < i ==> needed@[k] != a,
        decreases needed@.len() - i,
    {
        if needed[i] == a {
            assert(needed@[i as int] == a);
            return true;
        }
        i = i + 1;
    }
    false
}

/// Judge the prerequisite probes for the given assemblies: `passed[k]`
/// tells whether the k-th registry tool's probe succeeded (tools of
/// assemblies not asked for are not judged). Every failing tool is
/// reported at once.
pub fn check(assemblies: &[AssemblyKind], passed: &[bool]) -> (r: Result<(), VectisError>)
    requires
        passed@.len() == tool_table().len(),
    ensures
        match r {
            Ok(()) => missing_rows(assemblies@, passed@, tool_table().len() as int).len() == 0,
            Err(e) => match e {
                VectisError::MissingPrerequisites { missing, message } => missing@.map_values(
                    |m: MissingTool| missing_view(m),
                ) == missing_rows(assemblies@, passed@, tool_table().len() as int)
                    && missing@.len() > 0 && message@ == missing_message(),
                _ => false,
            },
        },
{
    let tools = all_tools();
    let ghost table = tool_table();
    let mut missing: Vec<MissingTool> = Vec::new();
    let mut i: usize = 0;
    while i < tools.len()
        invariant
            i <= tools@.len(),
            tools@.len() == table.len(),
            table == tool_table(),
            passed@.len() == table.len(),
            tools@.map_values(|t: Tool| tool_row(t)) == table,
            missing@.map_values(|m: MissingTool| missing_view(m)) == missing_rows(
                assemblies@,
                passed@,
                i as int,
            ),
        decreases tools@.len() - i,
    {
        assert(tool_row(tools@[i as int]) == table[i as int]);
        let ghost before = missing@.map_values(|m: MissingTool| missing_view(m));
        if needs(assemblies, tools[i].assembly) && !passed[i] {
            let t = &tools[i];
            missing.push(
                MissingTool {
                    tool: owned(t.name),
                    assembly: owned(t.assembly.tag()),
                    check: owned(t.check_display),
                    install: owned(t.install),
                },
            );
        }
        assert(missing@.map_values(|m: MissingTool| missing_view(m)) =~= missing_rows(
            assemblies@,
            passed@,
            i + 1,
        ));
        i = i + 1;
    }
    if missing.len() == 0 {
        Ok(())
    } else {
        Err(
            VectisError::MissingPrerequisites {
                missing,
                message: owned("Install the missing tools above and re-run the command."),
            },
        )
    }
}


// ---------------------------------------------------------------------
// Judging probes.
// ---------------------------------------------------------------------

/// The `{:?}` rendering of an optional exit code.
pub open spec fn code_text(code: Option<i32>) -> Seq<char> {
    match code {
        Some(c) => "Some("@ + (if c < 0 {
            "-"@ + decimal((-c) as nat)
        } else {
            decimal(c as nat)
        }) + ")"@,
        None => "None"@,
    }
}

/// Executable `code_text`.
fn code_text_of(code: Option<i32>) -> (r: String)
    ensures
        r@ == code_text(code),
{
    match code {
        Some(c) => {
            let mut out = owned("Some(");
            if c < 0 {
                out.append("-");
                let mag: i64 = -(c as i64);
                let d = usize_to_text(mag as usize);
                out.append(d.as_str());
            } else {
                let d = usize_to_text(c as usize);
                out.append(d.as_str());
            }
            out.append(")");
            out
        },
        None => owned("None"),
    }
}

/// What running a command gave: whether it exited successfully, its
/// exit code, and its standard output and error as text; or why it could
/// not be started.
pub type Launch = Result<(bool, Option<i32>, String, String), String>;

/// The verdict on a command probe.
pub open spec fn cmd_verdict(program: Seq<char>, launch: Launch, min: Option<Version>) -> Result<
    (),
    Seq<char>,
> {
    match launch {
        Err(e) => Err("failed to invoke "@ + program + ": "@ + e@),
        Ok((ok, code, out, err)) => if !ok {
            Err(program + " exited with status "@ + code_text(code))
        } else {
            match min {
                None => Ok(()),
                Some(m) => match extracted_version(out@ + "\n"@ + err@) {
                    None => Err("could not parse version from "@ + program + " output"@),
                    Some(f) => if version_lt(f, m) {
                        Err("found "@ + version_text(f) + " but need >= "@ + version_text(m))
                    } else {
                        Ok(())
                    },
                },
            }
        },
    }
}

/// The view of a verdict.
pub open spec fn verdict_view(r: Result<(), String>) -> Result<(), Seq<char>> {
    match r {
        Ok(()) => Ok(()),
        Err(e) => Err(e@),
    }
}

/// Judge a command probe: it must have started and exited successfully,
/// and, with a minimum version, its output (standard output, a line
/// feed, standard error) must hold a version at least that high.
pub fn cmd_outcome(program: &str, launch: &Launch, min_version: Option<Version>) -> (r: Result<
    (),
    String,
>)
    ensures
        verdict_view(r) == cmd_verdict(program@, *launch, min_version),
{
    match launch {
        Err(e) => {
            let mut msg = owned("failed to invoke ");
            msg.append(program);
            msg.append(": ");
            msg.append(e.as_str());
            Err(msg)
        },
        Ok((ok, code, out, err)) => {
            if !*ok {
                let mut msg = owned(program);
                msg.append(" exited with status ");
                let c = code_text_of(*code);
                msg.append(c.as_str());
                return Err(msg);
            }
            match min_version {
                None => Ok(()),
                Some(m) => {
                    let mut combined = out.clone();
                    combined.append("\n");
                    combined.append(err.as_str());
                    match extract_version(combined.as_str()) {
                        None => {
                            let mut msg = owned("could not parse version from ");
                            msg.append(program);
                            msg.append(" output");
                            Err(msg)
                        },
                        Some(f) => {
                            if f.less_than(&m) {
                                let mut msg = owned("found ");
                                let ft = f.to_text();
                                msg.append(ft.as_str());
                                msg.append(" but need >= ");
                                let mt = m.to_text();
                                msg.append(mt.as_str());
                                Err(msg)
                            } else {
                                Ok(())
                            }
                        },
                    }
                },
            }
        },
    }
}

/// The verdict on an environment-variable probe.
pub open spec fn env_verdict(var: Seq<char>, value: Option<Seq<char>>, is_dir: bool, must_exist: bool) -> Result<
    (),
    Seq<char>,
> {
    match value {
        None => Err(var + " not set"@),
        Some(v) => if v.len() == 0 {
            Err(var + " is empty"@)
        } else if must_exist && !is_dir {
            Err(var + "="@ + v + " does not point to an existing directory"@)
        } else {
            Ok(())
        },
    }
}

/// Judge an environment-variable probe: the variable's value (`None`
/// when unset) and whether it names a directory.
pub fn env_outcome(var: &str, value: Option<&str>, is_dir: bool, must_exist: bool) -> (r: Result<
    (),
    String,
>)
    ensures
        verdict_view(r) == env_verdict(
            var@,
            match value {
                Some(v) => Some(v@),
                None => None,
            },
            is_dir,
            must_exist,
        ),
{
    match value {
        None => Err(crate::text::cat(var, " not set")),
        Some(v) => {
            if chars_of(v).len() == 0 {
                Err(crate::text::cat(var, " is empty"))
            } else if must_exist && !is_dir {
                let mut msg = crate::text::cat3(var, "=", v);
                msg.append(" does not point to an existing directory");
                Err(msg)
            } else {
                Ok(())
            }
        },
    }
}

/// `target` is one of the non-empty trimmed lines of `listing`.
pub open spec fn listed(listing: Seq<char>, target: Seq<char>) -> bool {
    exists|k: int|
        0 <= k < crate::text::lines(listing).len() && trim(#[trigger] crate::text::lines(listing)[k])
            == target && target.len() > 0
}

/// The targets `listing` does not list, in order.
pub open spec fn unlisted(listing: Seq<char>, targets: Seq<Seq<char>>) -> Seq<Seq<char>>
    decreases targets.len(),
{
    if targets.len() == 0 {
        Seq::empty()
    } else {
        unlisted(listing, targets.drop_last()) + if listed(listing, targets.last()) {
            Seq::empty()
        } else {
            seq![targets.last()]
        }
    }
}

/// The verdict on the installed-targets probe.
pub open spec fn targets_verdict(targets: Seq<Seq<char>>, launch: Result<(bool, Seq<char>), Seq<char>>) -> Result<
    (),
    Seq<char>,
> {
    match launch {
        Err(e) => Err("failed to invoke rustup: "@ + e),
        Ok((ok, out)) => if !ok {
            Err("rustup target list --installed failed"@)
        } else if unlisted(out, targets).len() == 0 {
            Ok(())
        } else {
            Err("missing rustup targets: "@ + crate::text::join(unlisted(out, targets), ", "@))
        },
    }
}

/// Is `target` listed in the lines `ls`?
fn is_listed(ls: &Vec<Vec<char>>, target: &str, listing: Ghost<Seq<char>>) -> (r: bool)
    requires
        ls@.len() == crate::text::lines(listing@).len(),
        forall|k: int| 0 <= k < ls@.len() ==> #[trigger] ls@[k]@ == crate::text::lines(listing@)[k],
    ensures
        r == listed(listing@, target@),
{
    let t = chars_of(target);
    if t.len() == 0 {
        return false;
    }
    let mut k: usize = 0;
    while k < ls.len()
        invariant
            k <= ls@.len(),
            t@ == target@,
            t@.len() > 0,
            ls@.len() == crate::text::lines(listing@).len(),
            forall|j: int| 0 <= j < ls@.len() ==> #[trigger] ls@[j]@ == crate::text::lines(listing@)[j],
            forall|j: int| 0 <= j < k ==> trim(#[trigger] crate::text::lines(listing@)[j]) != target@,
        decreases ls@.len() - k,
    {
        let line = trim_seq(ls[k].as_slice());
        if crate::text::seq_eq(line.as_slice(), t.as_slice()) {
            assert(trim(crate::text::lines(listing@)[k as int]) == target@);
            return true;
        }
        k = k + 1;
    }
    false
}

/// Judge the installed-targets probe: `rustup target list --installed`
/// must have run and list every target.
pub fn targets_outcome(targets: &Vec<&str>, launch: &Result<(bool, String), String>) -> (r: Result<
    (),
    String,
>)
    ensures
        verdict_view(r) == targets_verdict(
            targets@.map_values(|t: &str| t@),
            match launch {
                Ok((ok, out)) => Ok((*ok, out@)),
                Err(e) => Err(e@),
            },
        ),
{
    match launch {
        Err(e) => Err(crate::text::cat("failed to invoke rustup: ", e.as_str())),
        Ok((ok, out)) => {
            if !*ok {
                return Err(owned("rustup target list --installed failed"));
            }
            let ls = crate::text::lines_seq(chars_of(out.as_str()).as_slice());
            let ghost tv = targets@.map_values(|t: &str| t@);
            let mut missing: Vec<String> = Vec::new();
            let mut i: usize = 0;
            while i < targets.len()
                invariant
                    i <= targets@.len(),
                    tv == targets@.map_values(|t: &str| t@),
                    ls@.len() == crate::text::lines(out@).len(),
                    forall|k: int| 0 <= k < ls@.len() ==> #[trigger] ls@[k]@ == crate::text::lines(out@)[k],
                    names_of(missing@) == unlisted(out@, tv.subrange(0, i as int)),
                decreases targets@.len() - i,
            {
                let ghost pre = tv.subrange(0, i as int);
                let ghost post = tv.subrange(0, i + 1);
                assert(post.drop_last() =~= pre);
                let ghost before = names_of(missing@);
                if !is_listed(&ls, targets[i], Ghost(out@)) {
                    missing.push(owned(targets[i]));
                    assert(names_of(missing@) =~= before.push(targets@[i as int]@));
                }
                i = i + 1;
            }
            assert(tv.subrange(0, tv.len() as int) =~= tv);
            if missing.len() == 0 {
                Ok(())
            } else {
                let joined = join_names(&missing, ", ");
                Err(crate::text::cat("missing rustup targets: ", joined.as_str()))
            }
        },
    }
}

/// The views of a list of strings.
pub open spec fn names_of(v: Seq<String>) -> Seq<Seq<char>> {
    v.map_values(|s: String| s@)
}

/// `sep`-separated concatenation of strings.
pub fn join_names(parts: &Vec<String>, sep: &str) -> (r: String)
    ensures
        r@ == crate::text::join(names_of(parts@), sep@),
{
    let mut out = owned("");
    proof {
        reveal_strlit("");
    }
    let mut i: usize = 0;
    assert(names_of(parts@).subrange(0, 0) =~= Seq::<Seq<char>>::empty());
    while i < parts.len()
        invariant
            i <= parts@.len(),
            out@ == crate::text::join(names_of(parts@).subrange(0, i as int), sep@),
        decreases parts@.len() - i,
    {
        let ghost post = names_of(parts@).subrange(0, i + 1);
        assert(post.drop_last() =~= names_of(parts@).subrange(0, i as int));
        assert(post.last() == parts@[i as int]@);
        if i > 0 {
            out.append(sep);
        } else {
            assert(out@ =~= Seq::<char>::empty());
        }
        out.append(parts[i].as_str());
        i = i + 1;
    }
    assert(names_of(parts@).subrange(0, parts@.len() as int) =~= names_of(parts@));
    out
}

/// The verdict on the NDK probe.
pub open spec fn ndk_verdict(home: Option<Seq<char>>, ndk_is_dir: bool, listing: Result<bool, Seq<char>>) -> Result<
    (),
    Seq<char>,
> {
    match home {
        None => Err("ANDROID_HOME not set"@),
        Some(h) => {
            let ndk = crate::paths::path_join(h, "ndk"@);
            if !ndk_is_dir {
                Err(ndk + " not found"@)
            } else {
                match listing {
                    Err(e) => Err("could not read "@ + ndk + ": "@ + e),
                    Ok(any) => if any {
                        Ok(())
                    } else {
                        Err(ndk + " is empty"@)
                    },
                }
            }
        },
    }
}

/// Judge the NDK probe: `ANDROID_HOME` (when set), whether
/// `$ANDROID_HOME/ndk` is a directory, and whether listing it gave an
/// entry (or why it could not be listed).
pub fn ndk_outcome(home: Option<&str>, ndk_is_dir: bool, listing: &Result<bool, String>) -> (r: Result<
    (),
    String,
>)
    ensures
        verdict_view(r) == ndk_verdict(
            match home {
                Some(h) => Some(h@),
                None => None,
            },
            ndk_is_dir,
            match listing {
                Ok(b) => Ok(*b),
                Err(e) => Err(e@),
            },
        ),
{
    match home {
        None => Err(owned("ANDROID_HOME not set")),
        Some(h) => {
            let ndk = crate::paths::join_path(h, "ndk");
            if !ndk_is_dir {
                return Err(crate::text::cat(ndk.as_str(), " not found"));
            }
            match listing {
                Err(e) => {
                    let mut msg = crate::text::cat("could not read ", ndk.as_str());
                    msg.append(": ");
                    msg.append(e.as_str());
                    Err(msg)
                },
                Ok(any) => if *any {
                    Ok(())
                } else {
                    Err(crate::text::cat(ndk.as_str(), " is empty"))
                },
            }
        },
    }
}


/// What probing a tool gave, per kind of check.
pub enum Probe {
    Cmd(Launch),
    Env { value: Option<String>, is_dir: bool },
    Targets(Result<(bool, String), String>),
    Ndk { home: Option<String>, ndk_is_dir: bool, listing: Result<bool, String> },
}

/// A probe answers a check of its kind.
pub open spec fn probe_fits(c: ToolCheck, p: Probe) -> bool {
    match (c, p) {
        (ToolCheck::Cmd { .. }, Probe::Cmd(_)) => true,
        (ToolCheck::Env { .. }, Probe::Env { .. }) => true,
        (ToolCheck::RustupTargets(_), Probe::Targets(_)) => true,
        (ToolCheck::AndroidNdk, Probe::Ndk { .. }) => true,
        _ => false,
    }
}

/// The verdict on a tool's probe.
pub open spec fn check_verdict(c: ToolCheck, p: Probe) -> Result<(), Seq<char>> {
    match (c, p) {
        (ToolCheck::Cmd { program, min_version, .. }, Probe::Cmd(launch)) => cmd_verdict(
            program@,
            launch,
            min_version,
        ),
        (ToolCheck::Env { var, must_exist }, Probe::Env { value, is_dir }) => env_verdict(
            var@,
            match value {
                Some(v) => Some(v@),
                None => None,
            },
            is_dir,
            must_exist,
        ),
        (ToolCheck::RustupTargets(targets), Probe::Targets(launch)) => targets_verdict(
            targets@.map_values(|t: &str| t@),
            match launch {
                Ok((ok, out)) => Ok((ok, out@)),
                Err(e) => Err(e@),
            },
        ),
        (ToolCheck::AndroidNdk, Probe::Ndk { home, ndk_is_dir, listing }) => ndk_verdict(
            match home {
                Some(h) => Some(h@),
                None => None,
            },
            ndk_is_dir,
            match listing {
                Ok(b) => Ok(b),
                Err(e) => Err(e@),
            },
        ),
        _ => Err(Seq::empty()),
    }
}

/// Judge one tool's probe.
pub fn run_check(check: &ToolCheck, probe: &Probe) -> (r: Result<(), String>)
    requires
        probe_fits(*check, *probe),
    ensures
        verdict_view(r) == check_verdict(*check, *probe),
{
    match (check, probe) {
        (ToolCheck::Cmd { program, min_version, .. }, Probe::Cmd(launch)) => cmd_outcome(
            program,
            launch,
            *min_version,
        ),
        (ToolCheck::Env { var, must_exist }, Probe::Env { value, is_dir }) => {
            let v: Option<&str> = match value {
                Some(x) => Some(x.as_str()),
                None => None,
            };
            env_outcome(var, v, *is_dir, *must_exist)
        },
        (ToolCheck::RustupTargets(targets), Probe::Targets(launch)) => targets_outcome(
            targets,
            launch,
        ),
        (ToolCheck::AndroidNdk, Probe::Ndk { home, ndk_is_dir, listing }) => {
            let h: Option<&str> = match home {
                Some(x) => Some(x.as_str()),
                None => None,
            };
            ndk_outcome(h, *ndk_is_dir, listing)
        },
        _ => Err(owned("")),
    }
}

} // verus!
