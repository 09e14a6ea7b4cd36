//! The machine-specific parts of an Android shell: which NDK it builds
//! with, where the SDK is, and which JDK Gradle runs on.
//!
//! The caller reads the environment and the disk; the functions here
//! decide what those readings mean.

use vstd::prelude::*;

use crate::error::{error_message, VectisError};
use crate::engine::identity::names_view;
use crate::paths::{join_path, path_join};
use crate::query::{parse_u64, u64_of};
use crate::verify::{args_of, cmd_of, PlannedStep};
use crate::text::{
    chars_of, decimal, owned, usize_to_text, replace_all, replace_seq, split_char, split_seq, string_of, trim, trim_seq,
};

verus! {

// ---------------------------------------------------------------------
// Ordering NDK versions.
// ---------------------------------------------------------------------

/// The value of one `.`-separated component: its `u64`, or 0 when it is
/// not one.
pub open spec fn component_value(p: Seq<char>) -> u64 {
    match u64_of(p) {
        Some(v) => v,
        None => 0,
    }
}

/// The ordering key of an NDK directory name: the values of its
/// `.`-separated components.
pub open spec fn ndk_key(name: Seq<char>) -> Seq<u64> {
    split_char(name, '.').map_values(|p: Seq<char>| component_value(p))
}

/// Executable `ndk_key`.
pub fn ndk_key_of(name: &str) -> (r: Vec<u64>)
    ensures
        r@ == ndk_key(name@),
{
    let cs = chars_of(name);
    let parts = split_seq(cs.as_slice(), '.');
    let mut key: Vec<u64> = Vec::new();
    let mut i: usize = 0;
    while i < parts.len()
        invariant
            i <= parts@.len(),
            parts@.len() == split_char(name@, '.').len(),
            forall|k: int| 0 <= k < parts@.len() ==> #[trigger] parts@[k]@ == split_char(name@, '.')[k],
            key@.len() == i,
            forall|k: int| 0 <= k < i ==> #[trigger] key@[k] == component_value(split_char(name@, '.')[k]),
        decreases parts@.len() - i,
    {
        let v = match parse_u64(parts[i].as_slice()) {
            Some(v) => v,
            None => 0,
        };
        key.push(v);
        i = i + 1;
    }
    assert(key@ =~= ndk_key(name@));
    key
}

/// Lexicographic order on keys, as `Vec<u64>` compares: the first
/// differing component decides, and a proper prefix comes first.
pub open spec fn key_lt(a: Seq<u64>, b: Seq<u64>) -> bool
    decreases a.len(),
{
    if a.len() == 0 {
        b.len() > 0
    } else if b.len() == 0 {
        false
    } else if a[0] != b[0] {
        a[0] < b[0]
    } else {
        key_lt(a.subrange(1, a.len() as int), b.subrange(1, b.len() as int))
    }
}

/// No key comes before itself.
pub proof fn lemma_key_lt_irreflexive(a: Seq<u64>)
    ensures
        !key_lt(a, a),
    decreases a.len(),
{
    if a.len() > 0 {
        lemma_key_lt_irreflexive(a.subrange(1, a.len() as int));
    }
}

/// The order is transitive.
pub proof fn lemma_key_lt_transitive(a: Seq<u64>, b: Seq<u64>, c: Seq<u64>)
    requires
        key_lt(a, b),
        key_lt(b, c),
    ensures
        key_lt(a, c),
    decreases a.len(),
{
    if a.len() > 0 && b.len() > 0 && c.len() > 0 && a[0] == b[0] && b[0] == c[0] {
        lemma_key_lt_transitive(
            a.subrange(1, a.len() as int),
            b.subrange(1, b.len() as int),
            c.subrange(1, c.len() as int),
        );
    }
}

/// Any two distinct keys are ordered one way or the other.
pub proof fn lemma_key_lt_total(a: Seq<u64>, b: Seq<u64>)
    ensures
        a == b || key_lt(a, b) || key_lt(b, a),
    decreases a.len(),
{
    if a.len() > 0 && b.len() > 0 && a[0] == b[0] {
        let a1 = a.subrange(1, a.len() as int);
        let b1 = b.subrange(1, b.len() as int);
        lemma_key_lt_total(a1, b1);
        if a1 == b1 {
            assert(a =~= seq![a[0]] + a1);
            assert(b =~= seq![b[0]] + b1);
        }
    } else if a.len() == 0 && b.len() == 0 {
        assert(a =~= b);
    }
}

/// Executable `key_lt`.
pub fn key_less(a: &Vec<u64>, b: &Vec<u64>) -> (r: bool)
    ensures
        r == key_lt(a@, b@),
{
    let mut i: usize = 0;
    assert(a@.subrange(0, a@.len() as int) =~= a@);
    assert(b@.subrange(0, b@.len() as int) =~= b@);
    while i < a.len() && i < b.len() && a[i] == b[i]
        invariant
            i <= a@.len(),
            i <= b@.len(),
            key_lt(a@, b@) == key_lt(
                a@.subrange(i as int, a@.len() as int),
                b@.subrange(i as int, b@.len() as int),
            ),
        decreases a@.len() - i,
    {
        let ghost xa = a@.subrange(i as int, a@.len() as int);
        let ghost yb = b@.subrange(i as int, b@.len() as int);
        assert(xa.subrange(1, xa.len() as int) =~= a@.subrange(i + 1, a@.len() as int));
        assert(yb.subrange(1, yb.len() as int) =~= b@.subrange(i + 1, b@.len() as int));
        i = i + 1;
    }
    if i == a.len() {
        i < b.len()
    } else if i == b.len() {
        false
    } else {
        a[i] < b[i]
    }
}

/// `i` names the newest install among `names`: no name has a greater
/// key, and every later name has a smaller one (of names with equal
/// keys, the last is taken).
pub open spec fn is_newest(names: Seq<Seq<char>>, i: int) -> bool {
    &&& 0 <= i < names.len()
    &&& forall|j: int| 0 <= j < names.len() ==> !key_lt(ndk_key(names[i]), #[trigger] ndk_key(names[j]))
    &&& forall|j: int| i < j < names.len() ==> key_lt(#[trigger] ndk_key(names[j]), ndk_key(names[i]))
}

/// The index of the newest install among a non-empty list of names.
pub fn newest_ndk(names: &Vec<String>) -> (r: usize)
    requires
        names@.len() > 0,
    ensures
        is_newest(names_view(names@), r as int),
{
    let ghost v = names_view(names@);
    let mut best: usize = 0;
    let mut best_key = ndk_key_of(names[0].as_str());
    proof {
        lemma_key_lt_irreflexive(best_key@);
    }
    let mut i: usize = 1;
    while i < names.len()
        invariant
            v == names_view(names@),
            v.len() == names@.len(),
            1 <= i <= names@.len(),
            best < i,
            best_key@ == ndk_key(v[best as int]),
            forall|j: int| 0 <= j < i ==> !key_lt(best_key@, #[trigger] ndk_key(v[j])),
            forall|j: int| best < j < i ==> key_lt(#[trigger] ndk_key(v[j]), best_key@),
        decreases names@.len() - i,
    {
        let k = ndk_key_of(names[i].as_str());
        assert(v[i as int] == names@[i as int]@);
        if !key_less(&k, &best_key) {
            proof {
                lemma_key_lt_irreflexive(k@);
                assert forall|j: int| 0 <= j < i + 1 implies !key_lt(k@, #[trigger] ndk_key(v[j])) by {
                    if j < i && key_lt(k@, ndk_key(v[j])) {
                        lemma_key_lt_total(k@, best_key@);
                        if k@ != best_key@ {
                            lemma_key_lt_transitive(best_key@, k@, ndk_key(v[j]));
                        }
                    }
                }
            }
            best = i;
            best_key = k;
        } else {
            proof {
                if key_lt(best_key@, k@) {
                    lemma_key_lt_transitive(best_key@, k@, best_key@);
                    lemma_key_lt_irreflexive(best_key@);
                }
            }
        }
        i = i + 1;
    }
    best
}

// ---------------------------------------------------------------------
// Choosing the NDK.
// ---------------------------------------------------------------------

/// What a missing `ANDROID_HOME` is reported as.
pub open spec fn home_unset_message() -> Seq<char> {
    "ANDROID_HOME is unset after prereq check passed; this should be unreachable"@
}

/// Where the NDK version comes from: a pin, or the newest install under
/// a directory that has to be listed.
#[derive(Debug)]
pub enum NdkLookup {
    Pinned(String),
    Scan(String),
}

/// A pinned version wins; otherwise the installs under
/// `$ANDROID_HOME/ndk` are to be listed, and a missing `ANDROID_HOME`
/// is an `Internal` error.
pub fn ndk_lookup(pinned: Option<&str>, android_home: Option<&str>) -> (r: Result<
    NdkLookup,
    VectisError,
>)
    ensures
        match (pinned, android_home) {
            (Some(p), _) => r is Ok && r->Ok_0 is Pinned && r->Ok_0->Pinned_0@ == p@,
            (None, None) => r is Err && r->Err_0 is Internal && error_message(r->Err_0)
                == home_unset_message(),
            (None, Some(h)) => r is Ok && r->Ok_0 is Scan && r->Ok_0->Scan_0@ == path_join(
                h@,
                "ndk"@,
            ),
        },
{
    match pinned {
        Some(p) => Ok(NdkLookup::Pinned(owned(p))),
        None => match android_home {
            None => Err(
                VectisError::Internal {
                    message: owned(
                        "ANDROID_HOME is unset after prereq check passed; this should be unreachable",
                    ),
                },
            ),
            Some(h) => Ok(NdkLookup::Scan(join_path(h, "ndk"))),
        },
    }
}

/// Pick the NDK version from the listing of the directories under
/// `ndk_root`: a listing that failed is an `Io` error with its message,
/// an empty one is an `Internal` error, otherwise the newest install.
pub fn pick_ndk(ndk_root: &str, listing: Result<Vec<String>, String>) -> (r: Result<
    String,
    VectisError,
>)
    ensures
        match listing {
            Err(e) => r is Err && r->Err_0 == VectisError::Io(e),
            Ok(names) => if names@.len() == 0 {
                r is Err && r->Err_0 is Internal && error_message(r->Err_0) == "no NDK installs found under "@
                    + ndk_root@ + " (prereq check should have caught this)"@
            } else {
                r is Ok && exists|i: int|
                    is_newest(names_view(names@), i) && r->Ok_0@ == #[trigger] names@[i]@
            },
        },
{
    match listing {
        Err(e) => Err(VectisError::Io(e)),
        Ok(names) => {
            if names.len() == 0 {
                let mut msg = owned("no NDK installs found under ");
                msg.append(ndk_root);
                msg.append(" (prereq check should have caught this)");
                Err(VectisError::Internal { message: msg })
            } else {
                let i = newest_ndk(&names);
                let r = names[i].clone();
                assert(r@ == names@[i as int]@);
                Ok(r)
            }
        },
    }
}

/// The shared Gradle build with the NDK version put in place of its
/// placeholder.
pub fn inject_ndk_version(body: &str, ndk: &str) -> (r: String)
    ensures
        r@ == replace_all(body@, "__ANDROID_NDK_VERSION__"@, ndk@),
{
    let b = chars_of(body);
    let p = chars_of("__ANDROID_NDK_VERSION__");
    let n = chars_of(ndk);
    proof {
        reveal_strlit("__ANDROID_NDK_VERSION__");
    }
    let out = replace_seq(b.as_slice(), p.as_slice(), n.as_slice());
    string_of(&out)
}

// ---------------------------------------------------------------------
// SDK and JDK locations.
// ---------------------------------------------------------------------

/// `local.properties`: `sdk.dir=` and the SDK location, or an
/// `Internal` error when `ANDROID_HOME` is unset.
pub fn local_properties(android_home: Option<&str>) -> (r: Result<String, VectisError>)
    ensures
        match android_home {
            Some(h) => r is Ok && r->Ok_0@ == "sdk.dir="@ + h@ + "\n"@,
            None => r is Err && r->Err_0 is Internal && error_message(r->Err_0)
                == home_unset_message(),
        },
{
    match android_home {
        Some(h) => {
            let mut s = owned("sdk.dir=");
            s.append(h);
            s.append("\n");
            Ok(s)
        },
        None => Err(
            VectisError::Internal {
                message: owned(
                    "ANDROID_HOME is unset after prereq check passed; this should be unreachable",
                ),
            },
        ),
    }
}

/// The JDK 21 location from what the JDK locator printed: none when it
/// could not run, failed, or printed only whitespace; otherwise its
/// output, trimmed.
pub fn java_home_of(output: Option<(bool, String)>) -> (r: Option<String>)
    ensures
        match output {
            Some((true, out)) => if trim(out@).len() == 0 {
                r is None
            } else {
                r is Some && r->Some_0@ == trim(out@)
            },
            _ => r is None,
        },
{
    match output {
        Some((ok, out)) => {
            if !ok {
                return None;
            }
            let t = trim_seq(chars_of(out.as_str()).as_slice());
            if t.len() == 0 {
                None
            } else {
                Some(string_of(&t))
            }
        },
        None => None,
    }
}

/// `gradle.properties` with the JDK location appended on a line of its
/// own (after a line feed, when the contents do not end with one).
pub fn with_java_home(contents: &str, java_home: &str) -> (r: String)
    ensures
        r@ == (if contents@.len() > 0 && contents@.last() == '\n' {
            contents@
        } else {
            contents@ + "\n"@
        }) + "org.gradle.java.home="@ + java_home@ + "\n"@,
{
    let cs = chars_of(contents);
    let mut s = owned(contents);
    if !(cs.len() > 0 && cs[cs.len() - 1] == '\n') {
        s.append("\n");
    }
    s.append("org.gradle.java.home=");
    s.append(java_home);
    s.append("\n");
    s
}

// ---------------------------------------------------------------------
// Bootstrapping the Gradle wrapper.
// ---------------------------------------------------------------------

/// The scratch directory the wrapper is generated in: outside the
/// project, so that Gradle does not load the project's plugins.
pub open spec fn wrapper_scratch_dir(tmp: Seq<char>, pid: nat) -> Seq<char> {
    path_join(tmp, "vectis-gradle-wrapper-bootstrap-"@ + decimal(pid))
}

/// Executable `wrapper_scratch_dir`.
pub fn wrapper_scratch(tmp: &str, pid: u32) -> (r: String)
    ensures
        r@ == wrapper_scratch_dir(tmp@, pid as nat),
{
    let n = usize_to_text(pid as usize);
    let leaf = crate::text::cat("vectis-gradle-wrapper-bootstrap-", n.as_str());
    join_path(tmp, leaf.as_str())
}

/// `gradle wrapper --gradle-version <pin>`, run in the scratch
/// directory.
pub fn wrapper_step(scratch: &str, gradle_pin: &str) -> (r: PlannedStep)
    ensures
        cmd_of(r) == ("gradle wrapper"@, "gradle"@, seq!["wrapper"@, "--gradle-version"@, gradle_pin@]),
        r.dir@ == scratch@,
        r.reported_on_pass,
{
    let mut args: Vec<String> = Vec::new();
    args.push(owned("wrapper"));
    args.push(owned("--gradle-version"));
    args.push(owned(gradle_pin));
    let r = PlannedStep {
        name: "gradle wrapper",
        program: "gradle",
        args,
        dir: owned(scratch),
        reported_on_pass: true,
    };
    assert(args_of(r) =~= seq!["wrapper"@, "--gradle-version"@, gradle_pin@]);
    r
}

/// The wrapper's files, relative to the directory it was generated in.
pub open spec fn wrapper_files() -> Seq<Seq<char>> {
    seq![
        "gradlew"@,
        "gradlew.bat"@,
        "gradle/wrapper/gradle-wrapper.jar"@,
        "gradle/wrapper/gradle-wrapper.properties"@,
    ]
}

/// The copies that move the generated wrapper into the Android shell:
/// each wrapper file, from the scratch directory to the same place
/// under `android_root`.
pub fn wrapper_copies(scratch: &str, android_root: &str) -> (r: Vec<(String, String)>)
    ensures
        r@.len() == wrapper_files().len(),
        forall|k: int|
            0 <= k < r@.len() ==> (#[trigger] r@[k]).0@ == path_join(scratch@, wrapper_files()[k])
                && r@[k].1@ == path_join(android_root@, wrapper_files()[k]),
{
    let files: [&str; 4] = [
        "gradlew",
        "gradlew.bat",
        "gradle/wrapper/gradle-wrapper.jar",
        "gradle/wrapper/gradle-wrapper.properties",
    ];
    assert(files@.map_values(|f: &str| f@) =~= wrapper_files());
    let mut out: Vec<(String, String)> = Vec::new();
    let mut i: usize = 0;
    while i < 4
        invariant
            i <= 4,
            files@.map_values(|f: &str| f@) == wrapper_files(),
            out@.len() == i,
            forall|k: int|
                0 <= k < i ==> (#[trigger] out@[k]).0@ == path_join(scratch@, wrapper_files()[k])
                    && out@[k].1@ == path_join(android_root@, wrapper_files()[k]),
        decreases 4 - i,
    {
        let f = files[i];
        assert(f@ == wrapper_files()[i as int]);
        out.push((join_path(scratch, f), join_path(android_root, f)));
        i = i + 1;
    }
    out
}

} // verus!
