//! Where a mode's artifact is looked for: the default-path cascade, the
//! project root, and sibling discovery.
//!
//! Each lookup is split in two. A candidates function lists, in order,
//! the paths the lookup would probe; the caller answers for each one
//! whether it exists; the lookup function then picks.

use vstd::prelude::*;

use crate::engine::identity::{insert_sorted_name, names_view, sort_dedup};
use crate::engine::report::ValidateMode;
use crate::json::{get, get_opt, member, opt_ref, Json};
use crate::paths::{join_path, parent_of, path_join, path_parent, trimmed_len, after_last_sep};
use crate::text::{
    chars_of, contains, owned, replace_all, replace_seq, split_char, split_seq, str_contains,
    string_of,
};

verus! {

// ---------------------------------------------------------------------
// Keys and templates.
// ---------------------------------------------------------------------

/// The `artifacts:` key a mode resolves against (`all` has none).
pub open spec fn artifact_key(m: ValidateMode) -> Option<Seq<char>> {
    match m {
        ValidateMode::Layout => Some("layout"@),
        ValidateMode::Composition => Some("composition"@),
        ValidateMode::Tokens => Some("tokens"@),
        ValidateMode::Assets => Some("assets"@),
        ValidateMode::All => None,
    }
}

/// Executable `artifact_key`.
pub fn artifact_key_for_mode(m: ValidateMode) -> (r: Option<&'static str>)
    ensures
        match r {
            Some(k) => artifact_key(m) == Some(k@),
            None => artifact_key(m) is None,
        },
{
    match m {
        ValidateMode::Layout => Some("layout"),
        ValidateMode::Composition => Some("composition"),
        ValidateMode::Tokens => Some("tokens"),
        ValidateMode::Assets => Some("assets"),
        ValidateMode::All => None,
    }
}

/// The path templates of an artifact key, in resolution order: the
/// slice-local file first, then the project input (or, for
/// `composition`, the merged baseline). An unknown key has none.
pub open spec fn templates_for(key: Seq<char>) -> Seq<Seq<char>> {
    if key == "layout"@ {
        seq![".specify/slices/<name>/layout.yaml"@, "design-system/layout.yaml"@]
    } else if key == "tokens"@ {
        seq![".specify/slices/<name>/tokens.yaml"@, "design-system/tokens.yaml"@]
    } else if key == "assets"@ {
        seq![".specify/slices/<name>/assets.yaml"@, "design-system/assets.yaml"@]
    } else if key == "composition"@ {
        seq![".specify/slices/<name>/composition.yaml"@, ".specify/specs/composition.yaml"@]
    } else {
        Seq::empty()
    }
}

/// The ordered path templates of an artifact key.
pub fn paths_for_key(key: &str) -> (r: Vec<String>)
    ensures
        names_view(r@) == templates_for(key@),
{
    let mut out: Vec<String> = Vec::new();
    let (a, b) = if crate::text::str_eq(key, "layout") {
        (".specify/slices/<name>/layout.yaml", "design-system/layout.yaml")
    } else if crate::text::str_eq(key, "tokens") {
        (".specify/slices/<name>/tokens.yaml", "design-system/tokens.yaml")
    } else if crate::text::str_eq(key, "assets") {
        (".specify/slices/<name>/assets.yaml", "design-system/assets.yaml")
    } else if crate::text::str_eq(key, "composition") {
        (".specify/slices/<name>/composition.yaml", ".specify/specs/composition.yaml")
    } else {
        assert(names_view(out@) =~= templates_for(key@));
        return out;
    };
    out.push(owned(a));
    out.push(owned(b));
    assert(names_view(out@) =~= templates_for(key@));
    out
}

/// The last-resort template of a key: the project (or baseline)
/// location; unknown keys get the baseline composition.
pub open spec fn canonical_template(key: Seq<char>) -> Seq<char> {
    if key == "layout"@ {
        "design-system/layout.yaml"@
    } else if key == "tokens"@ {
        "design-system/tokens.yaml"@
    } else if key == "assets"@ {
        "design-system/assets.yaml"@
    } else {
        ".specify/specs/composition.yaml"@
    }
}

/// Executable `canonical_template`.
pub fn canonical_default_template(key: &str) -> (r: &'static str)
    ensures
        r@ == canonical_template(key@),
{
    if crate::text::str_eq(key, "layout") {
        "design-system/layout.yaml"
    } else if crate::text::str_eq(key, "tokens") {
        "design-system/tokens.yaml"
    } else if crate::text::str_eq(key, "assets") {
        "design-system/assets.yaml"
    } else {
        ".specify/specs/composition.yaml"
    }
}

/// The file name of a key's artifact; unknown keys get the composition.
pub open spec fn canonical_filename(key: Seq<char>) -> Seq<char> {
    if key == "layout"@ {
        "layout.yaml"@
    } else if key == "tokens"@ {
        "tokens.yaml"@
    } else if key == "assets"@ {
        "assets.yaml"@
    } else {
        "composition.yaml"@
    }
}

/// Executable `canonical_filename`.
pub fn canonical_filename_for_key(key: &str) -> (r: &'static str)
    ensures
        r@ == canonical_filename(key@),
{
    if crate::text::str_eq(key, "layout") {
        "layout.yaml"
    } else if crate::text::str_eq(key, "tokens") {
        "tokens.yaml"
    } else if crate::text::str_eq(key, "assets") {
        "assets.yaml"
    } else {
        "composition.yaml"
    }
}

/// The paths a template stands for under `root`: a template without
/// `<name>` is one path; one with `<name>` gives a path per slice
/// directory name, in ascending name order (directory names are
/// distinct).
pub open spec fn expand_template(t: Seq<char>, root: Seq<char>, names: Seq<Seq<char>>) -> Seq<
    Seq<char>,
> {
    if !contains(t, "<name>"@) {
        seq![path_join(root, t)]
    } else {
        sort_dedup(names).map_values(|n: Seq<char>| path_join(root, replace_all(t, "<name>"@, n)))
    }
}

/// Expand a template against `root`, given the names of the directories
/// under `.specify/slices/` (none when that directory cannot be read).
pub fn expand_path_template(template: &str, project_root: &str, slice_names: &Vec<String>) -> (r:
    Vec<String>)
    ensures
        names_view(r@) == expand_template(template@, project_root@, names_view(slice_names@)),
{
    let mut out: Vec<String> = Vec::new();
    if !str_contains(template, "<name>") {
        out.push(join_path(project_root, template));
        assert(names_view(out@) =~= expand_template(
            template@,
            project_root@,
            names_view(slice_names@),
        ));
        return out;
    }
    let mut sorted: Vec<String> = Vec::new();
    let mut j: usize = 0;
    assert(names_view(slice_names@).subrange(0, 0) =~= Seq::<Seq<char>>::empty());
    assert(names_view(sorted@) =~= Seq::<Seq<char>>::empty());
    while j < slice_names.len()
        invariant
            j <= slice_names@.len(),
            names_view(sorted@) == sort_dedup(names_view(slice_names@).subrange(0, j as int)),
        decreases slice_names@.len() - j,
    {
        let ghost post = names_view(slice_names@).subrange(0, j + 1);
        assert(post.drop_last() =~= names_view(slice_names@).subrange(0, j as int));
        insert_sorted_name(&mut sorted, slice_names[j].as_str());
        j = j + 1;
    }
    assert(names_view(slice_names@).subrange(0, slice_names@.len() as int) =~= names_view(
        slice_names@,
    ));
    proof {
        reveal_strlit("<name>");
    }
    let t = chars_of(template);
    let pat = chars_of("<name>");
    let ghost sv = names_view(sorted@);
    let mut i: usize = 0;
    while i < sorted.len()
        invariant
            i <= sorted@.len(),
            sv == names_view(sorted@),
            t@ == template@,
            pat@ == "<name>"@,
            pat@.len() == 6,
            names_view(out@) == sv.subrange(0, i as int).map_values(
                |n: Seq<char>| path_join(project_root@, replace_all(template@, "<name>"@, n)),
            ),
        decreases sorted@.len() - i,
    {
        let n = chars_of(sorted[i].as_str());
        let rel = string_of(&replace_seq(&t, &pat, &n));
        let ghost before = out@;
        assert(n@ == sv[i as int]);
        let ghost f = |n: Seq<char>| path_join(project_root@, replace_all(template@, "<name>"@, n));
        let full = join_path(project_root, rel.as_str());
        assert(full@ == f(sv[i as int]));
        out.push(full);
        assert(names_view(out@) =~= names_view(before).push(full@));
        assert(sv.subrange(0, i + 1).map_values(f) =~= sv.subrange(0, i as int).map_values(f).push(
            f(sv[i as int]),
        ));
        i = i + 1;
    }
    assert(sv.subrange(0, sv.len() as int) =~= sv);
    out
}

// ---------------------------------------------------------------------
// Picking the first existing candidate.
// ---------------------------------------------------------------------

/// The index of the first `true` in `exists`.
pub open spec fn first_true(exists: Seq<bool>) -> Option<int>
    decreases exists.len(),
{
    if exists.len() == 0 {
        None
    } else if exists[0] {
        Some(0)
    } else {
        match first_true(exists.subrange(1, exists.len() as int)) {
            Some(k) => Some(k + 1),
            None => None,
        }
    }
}

proof fn lemma_first_true(exists: Seq<bool>)
    ensures
        match first_true(exists) {
            Some(k) => 0 <= k < exists.len() && exists[k] && forall|j: int|
                0 <= j < k ==> !exists[j],
            None => forall|j: int| 0 <= j < exists.len() ==> !exists[j],
        },
    decreases exists.len(),
{
    if exists.len() > 0 {
        let t = exists.subrange(1, exists.len() as int);
        lemma_first_true(t);
        assert forall|j: int| 0 < j < exists.len() implies exists[j] == t[j - 1] by {}
    }
}

/// The first `k` with `exists[k]`.
pub fn first_existing(exists: &[bool]) -> (r: Option<usize>)
    ensures
        match r {
            Some(k) => first_true(exists@) == Some(k as int),
            None => first_true(exists@) is None,
        },
{
    proof {
        lemma_first_true(exists@);
    }
    let mut i: usize = 0;
    while i < exists.len()
        invariant
            i <= exists@.len(),
            forall|j: int| 0 <= j < i ==> !exists@[j],
            match first_true(exists@) {
                Some(k) => 0 <= k < exists@.len() && exists@[k] && forall|j: int|
                    0 <= j < k ==> !exists@[j],
                None => forall|j: int| 0 <= j < exists@.len() ==> !exists@[j],
            },
        decreases exists@.len() - i,
    {
        if exists[i] {
            return Some(i);
        }
        i = i + 1;
    }
    None
}


// ---------------------------------------------------------------------
// The default path of a mode.
// ---------------------------------------------------------------------

/// Every path the templates `ts` stand for, template by template.
pub open spec fn flat_expand(ts: Seq<Seq<char>>, root: Seq<char>, names: Seq<Seq<char>>) -> Seq<
    Seq<char>,
>
    decreases ts.len(),
{
    if ts.len() == 0 {
        Seq::empty()
    } else {
        flat_expand(ts.drop_last(), root, names) + expand_template(ts.last(), root, names)
    }
}

/// The key a mode's default path resolves against (`all` falls back to
/// `composition`).
pub open spec fn default_key(m: ValidateMode) -> Seq<char> {
    match artifact_key(m) {
        Some(k) => k,
        None => "composition"@,
    }
}

/// The candidates of a mode's default path under `root`, in order.
pub open spec fn default_candidates(m: ValidateMode, root: Seq<char>, names: Seq<Seq<char>>) -> Seq<
    Seq<char>,
> {
    flat_expand(templates_for(default_key(m)), root, names)
}

/// The candidates the templates of `key` give under `root`.
fn expand_all(key: &str, root: &str, slice_names: &Vec<String>) -> (r: Vec<String>)
    ensures
        names_view(r@) == flat_expand(templates_for(key@), root@, names_view(slice_names@)),
{
    let templates = paths_for_key(key);
    let ghost tv = names_view(templates@);
    let mut out: Vec<String> = Vec::new();
    let mut i: usize = 0;
    assert(tv.subrange(0, 0) =~= Seq::<Seq<char>>::empty());
    assert(names_view(out@) =~= Seq::<Seq<char>>::empty());
    while i < templates.len()
        invariant
            i <= templates@.len(),
            tv == names_view(templates@),
            names_view(out@) == flat_expand(tv.subrange(0, i as int), root@, names_view(slice_names@)),
        decreases templates@.len() - i,
    {
        let ghost post = tv.subrange(0, i + 1);
        assert(post.drop_last() =~= tv.subrange(0, i as int));
        assert(post.last() == templates@[i as int]@);
        let mut more = expand_path_template(templates[i].as_str(), root, slice_names);
        let ghost before = names_view(out@);
        let ghost m = names_view(more@);
        out.append(&mut more);
        assert(names_view(out@) =~= before + m);
        i = i + 1;
    }
    assert(tv.subrange(0, tv.len() as int) =~= tv);
    out
}

/// The candidates of a mode's default path under `project_root`, given
/// the slice directory names.
pub fn default_path_candidates(mode: ValidateMode, project_root: &str, slice_names: &Vec<String>) -> (r:
    Vec<String>)
    ensures
        names_view(r@) == default_candidates(mode, project_root@, names_view(slice_names@)),
{
    let key = match artifact_key_for_mode(mode) {
        Some(k) => k,
        None => "composition",
    };
    expand_all(key, project_root, slice_names)
}

/// A mode's default path: the first candidate that is a file, else the
/// last candidate, else the key's canonical template under `root`.
pub open spec fn resolved_default(
    m: ValidateMode,
    root: Seq<char>,
    names: Seq<Seq<char>>,
    is_file: Seq<bool>,
) -> Seq<char> {
    let c = default_candidates(m, root, names);
    match first_true(is_file) {
        Some(k) => c[k],
        None => if c.len() > 0 {
            c.last()
        } else {
            path_join(root, canonical_template(default_key(m)))
        },
    }
}

/// Resolve a mode's default path under `project_root`; `is_file[k]`
/// answers whether the k-th candidate is a file.
pub fn resolve_default_path_with_root(
    mode: ValidateMode,
    project_root: &str,
    slice_names: &Vec<String>,
    is_file: &[bool],
) -> (r: String)
    requires
        is_file@.len() == default_candidates(mode, project_root@, names_view(slice_names@)).len(),
    ensures
        r@ == resolved_default(mode, project_root@, names_view(slice_names@), is_file@),
{
    let cands = default_path_candidates(mode, project_root, slice_names);
    proof {
        lemma_first_true(is_file@);
    }
    match first_existing(is_file) {
        Some(k) => cands[k].clone(),
        None => {
            if cands.len() > 0 {
                cands[cands.len() - 1].clone()
            } else {
                let key = match artifact_key_for_mode(mode) {
                    Some(k) => k,
                    None => "composition",
                };
                join_path(project_root, canonical_default_template(key))
            }
        },
    }
}

// ---------------------------------------------------------------------
// The project root.
// ---------------------------------------------------------------------

proof fn lemma_trimmed(s: Seq<char>, n: int)
    requires
        0 <= n <= s.len(),
    ensures
        0 <= trimmed_len(s, n) <= n,
        trimmed_len(s, n) > 0 ==> s[trimmed_len(s, n) - 1] != '/',
    decreases n,
{
    if n > 0 && s[n - 1] == '/' {
        lemma_trimmed(s, n - 1);
    }
}

proof fn lemma_after_sep(s: Seq<char>, n: int)
    requires
        0 <= n <= s.len(),
    ensures
        0 <= after_last_sep(s, n) <= n,
        after_last_sep(s, n) > 0 ==> s[after_last_sep(s, n) - 1] == '/',
    decreases n,
{
    if n > 0 && s[n - 1] != '/' {
        lemma_after_sep(s, n - 1);
    }
}

/// A parent is shorter than its path.
pub proof fn lemma_parent_shorter(p: Seq<char>)
    ensures
        path_parent(p) is Some ==> path_parent(p)->Some_0.len() < p.len(),
{
    let n = trimmed_len(p, p.len() as int);
    lemma_trimmed(p, p.len() as int);
    if n > 0 {
        let k = after_last_sep(p, n);
        lemma_after_sep(p, n);
        if k > 0 {
            lemma_trimmed(p, k);
            reveal_strlit("/");
        }
    }
}

/// A path followed by its ancestors, nearest first.
pub open spec fn ancestors(p: Seq<char>) -> Seq<Seq<char>>
    decreases p.len(),
{
    match path_parent(p) {
        Some(q) => if q.len() < p.len() {
            seq![p] + ancestors(q)
        } else {
            seq![p]
        },
        None => seq![p],
    }
}

/// The directories probed for `.specify/` when looking for the project
/// root from `start`: `start` itself when it is a directory, else its
/// parent, then each ancestor in turn. `None` when `start` is neither a
/// directory nor has a parent.
pub open spec fn root_candidates(start: Seq<char>, start_is_dir: bool) -> Option<Seq<Seq<char>>> {
    if start_is_dir {
        Some(ancestors(start))
    } else {
        match path_parent(start) {
            Some(q) => Some(ancestors(q)),
            None => None,
        }
    }
}

/// Executable `ancestors`.
fn ancestors_of(p: &str) -> (r: Vec<String>)
    ensures
        names_view(r@) == ancestors(p@),
{
    let mut out: Vec<String> = Vec::new();
    let mut cur = owned(p);
    loop
        invariant
            names_view(out@) + ancestors(cur@) == ancestors(p@),
        decreases cur@.len(),
    {
        proof {
            lemma_parent_shorter(cur@);
        }
        let ghost before = names_view(out@);
        let ghost c = cur@;
        match parent_of(cur.as_str()) {
            Some(q) => {
                out.push(cur);
                assert(names_view(out@) =~= before.push(c));
                assert(names_view(out@) + ancestors(q@) =~= before + ancestors(c));
                cur = q;
            },
            None => {
                out.push(cur);
                assert(names_view(out@) =~= before + ancestors(c));
                return out;
            },
        }
    }
}

/// The directories probed for the project root (see `root_candidates`).
pub fn project_root_candidates(start: &str, start_is_dir: bool) -> (r: Option<Vec<String>>)
    ensures
        match r {
            Some(v) => root_candidates(start@, start_is_dir) == Some(names_view(v@)),
            None => root_candidates(start@, start_is_dir) is None,
        },
{
    if start_is_dir {
        Some(ancestors_of(start))
    } else {
        match parent_of(start) {
            Some(q) => Some(ancestors_of(q.as_str())),
            None => None,
        }
    }
}

/// The project root found from `start`: the first candidate that holds
/// a `.specify/` directory.
pub open spec fn project_root_of(start: Seq<char>, start_is_dir: bool, has_specify: Seq<bool>) -> Option<
    Seq<char>,
> {
    match root_candidates(start, start_is_dir) {
        Some(c) => match first_true(has_specify) {
            Some(k) => Some(c[k]),
            None => None,
        },
        None => None,
    }
}

/// Walk up from `start` to the directory that contains `.specify/`;
/// `has_specify[k]` answers for the k-th candidate.
pub fn find_project_root(start: &str, start_is_dir: bool, has_specify: &[bool]) -> (r: Option<String>)
    requires
        root_candidates(start@, start_is_dir) is Some ==> has_specify@.len() == root_candidates(
            start@,
            start_is_dir,
        )->Some_0.len(),
    ensures
        match r {
            Some(s) => project_root_of(start@, start_is_dir, has_specify@) == Some(s@),
            None => project_root_of(start@, start_is_dir, has_specify@) is None,
        },
{
    proof {
        lemma_first_true(has_specify@);
    }
    match project_root_candidates(start, start_is_dir) {
        Some(c) => match first_existing(has_specify) {
            Some(k) => Some(c[k].clone()),
            None => None,
        },
        None => None,
    }
}

// ---------------------------------------------------------------------
// Sibling discovery.
// ---------------------------------------------------------------------

/// The same-directory candidate for a sibling of `start`.
pub open spec fn local_sibling(start: Seq<char>, m: ValidateMode) -> Option<Seq<char>> {
    match (artifact_key(m), path_parent(start)) {
        (Some(key), Some(dir)) => Some(path_join(dir, canonical_filename(key))),
        _ => None,
    }
}

/// Executable `local_sibling`.
pub fn local_sibling_candidate(start: &str, mode: ValidateMode) -> (r: Option<String>)
    ensures
        match r {
            Some(s) => local_sibling(start@, mode) == Some(s@),
            None => local_sibling(start@, mode) is None,
        },
{
    match artifact_key_for_mode(mode) {
        Some(key) => match parent_of(start) {
            Some(dir) => Some(join_path(dir.as_str(), canonical_filename_for_key(key))),
            None => None,
        },
        None => None,
    }
}

/// The candidates of a sibling under the project root.
pub open spec fn sibling_candidates(m: ValidateMode, root: Seq<char>, names: Seq<Seq<char>>) -> Seq<
    Seq<char>,
> {
    match artifact_key(m) {
        Some(key) => flat_expand(templates_for(key), root, names),
        None => Seq::empty(),
    }
}

/// Executable `sibling_candidates`.
pub fn sibling_path_candidates(mode: ValidateMode, project_root: &str, slice_names: &Vec<String>) -> (r:
    Vec<String>)
    ensures
        names_view(r@) == sibling_candidates(mode, project_root@, names_view(slice_names@)),
{
    match artifact_key_for_mode(mode) {
        Some(key) => expand_all(key, project_root, slice_names),
        None => {
            let out: Vec<String> = Vec::new();
            assert(names_view(out@) =~= Seq::<Seq<char>>::empty());
            out
        },
    }
}

/// The sibling artifact of mode `m` for a caller at `start`: the file of
/// that name next to `start` when it exists; otherwise, under the
/// project root (when there is one), the first candidate that is a file.
pub open spec fn discovered(
    start: Seq<char>,
    m: ValidateMode,
    local_is_file: bool,
    root: Option<Seq<char>>,
    names: Seq<Seq<char>>,
    is_file: Seq<bool>,
) -> Option<Seq<char>> {
    if artifact_key(m) is None {
        None
    } else if local_sibling(start, m) is Some && local_is_file {
        local_sibling(start, m)
    } else {
        match root {
            Some(r) => match first_true(is_file) {
                Some(k) => Some(sibling_candidates(m, r, names)[k]),
                None => None,
            },
            None => None,
        }
    }
}

/// Locate a sibling artifact (see `discovered`): `local_is_file` answers
/// for the same-directory candidate, `project_root` is the root found
/// from `start`, and `is_file[k]` answers for the k-th candidate under
/// it.
pub fn discover_artifact(
    start: &str,
    mode: ValidateMode,
    local_is_file: bool,
    project_root: Option<&str>,
    slice_names: &Vec<String>,
    is_file: &[bool],
) -> (r: Option<String>)
    requires
        project_root is Some ==> is_file@.len() == sibling_candidates(
            mode,
            project_root->Some_0@,
            names_view(slice_names@),
        ).len(),
    ensures
        match r {
            Some(s) => discovered(
                start@,
                mode,
                local_is_file,
                match project_root {
                    Some(p) => Some(p@),
                    None => None,
                },
                names_view(slice_names@),
                is_file@,
            ) == Some(s@),
            None => discovered(
                start@,
                mode,
                local_is_file,
                match project_root {
                    Some(p) => Some(p@),
                    None => None,
                },
                names_view(slice_names@),
                is_file@,
            ) is None,
        },
{
    if artifact_key_for_mode(mode).is_none() {
        return None;
    }
    match local_sibling_candidate(start, mode) {
        Some(local) => {
            if local_is_file {
                return Some(local);
            }
        },
        None => {},
    }
    proof {
        lemma_first_true(is_file@);
    }
    match project_root {
        Some(root) => {
            let cands = sibling_path_candidates(mode, root, slice_names);
            match first_existing(is_file) {
                Some(k) => Some(cands[k].clone()),
                None => None,
            }
        },
        None => None,
    }
}

// ---------------------------------------------------------------------
// Schema names.
// ---------------------------------------------------------------------

/// The last non-empty piece of `pieces`.
pub open spec fn last_nonempty(pieces: Seq<Seq<char>>) -> Option<Seq<char>>
    decreases pieces.len(),
{
    if pieces.len() == 0 {
        None
    } else if pieces.last().len() > 0 {
        Some(pieces.last())
    } else {
        last_nonempty(pieces.drop_last())
    }
}

/// The schema directory name a `schema:` value names: for a URL (a
/// value holding `://`), its last non-empty path segment up to any
/// `@<ref>`; any other value as it is.
pub open spec fn schema_name(value: Seq<char>) -> Seq<char> {
    if contains(value, "://"@) {
        match last_nonempty(split_char(value, '/')) {
            Some(seg) => split_char(seg, '@')[0],
            None => value,
        }
    } else {
        value
    }
}

/// Derive the schema directory name from a `schema:` value.
pub fn schema_name_from_value(value: &str) -> (r: String)
    ensures
        r@ == schema_name(value@),
{
    if !str_contains(value, "://") {
        return owned(value);
    }
    let v = chars_of(value);
    let pieces = split_seq(&v, '/');
    let ghost pv = split_char(value@, '/');
    let mut i: usize = pieces.len();
    assert(pv.subrange(0, pv.len() as int) =~= pv);
    while i > 0 && pieces[i - 1].len() == 0
        invariant
            i <= pieces@.len(),
            pieces@.len() == pv.len(),
            forall|k: int| 0 <= k < pieces@.len() ==> #[trigger] pieces@[k]@ == pv[k],
            last_nonempty(pv) == last_nonempty(pv.subrange(0, i as int)),
        decreases i,
    {
        let ghost pre = pv.subrange(0, i as int);
        assert(pre.drop_last() =~= pv.subrange(0, i - 1));
        assert(pre.last() == pv[i - 1]);
        i = i - 1;
    }
    if i == 0 {
        assert(pv.subrange(0, 0) =~= Seq::<Seq<char>>::empty());
        return owned(value);
    }
    let ghost pre = pv.subrange(0, i as int);
    assert(pre.last() == pv[i - 1]);
    let seg = &pieces[i - 1];
    let parts = split_seq(seg.as_slice(), '@');
    proof {
        crate::text::lemma_split_nonempty(seg@, '@');
    }
    string_of(parts[0].as_slice())
}

// ---------------------------------------------------------------------
// A project's own `artifacts:` block.
// ---------------------------------------------------------------------

/// The path templates an `artifacts:` entry's `paths` map names, in
/// the resolution order `change_local`, `project`, `baseline` (roles
/// that are absent or not strings are skipped).
pub open spec fn role_templates(paths: Json) -> Seq<Seq<char>> {
    let one = |role: Seq<char>|
        match get(paths, role) {
            Some(Json::Str(t)) => seq![t@],
            _ => Seq::<Seq<char>>::empty(),
        };
    one("change_local"@) + one("project"@) + one("baseline"@)
}

/// The path templates for `key`: those the `artifacts:` block names for
/// it, when it names any; otherwise the built-in ones.
pub open spec fn templates_in(artifacts: Option<Json>, key: Seq<char>) -> Seq<Seq<char>> {
    match get_opt(get_opt(artifacts, key), "paths"@) {
        Some(paths) => if role_templates(paths).len() > 0 {
            role_templates(paths)
        } else {
            templates_for(key)
        },
        None => templates_for(key),
    }
}

fn push_role(paths: &Json, role: &str, out: &mut Vec<String>)
    ensures
        names_view(final(out)@) == names_view(old(out)@) + match get(*paths, role@) {
            Some(Json::Str(t)) => seq![t@],
            _ => Seq::<Seq<char>>::empty(),
        },
{
    match paths.get(role) {
        Some(Json::Str(t)) => {
            let ghost before = names_view(out@);
            out.push(t.clone());
            assert(names_view(out@) =~= before + seq![t@]);
        },
        _ => {
            assert(names_view(out@) =~= names_view(out@) + Seq::<Seq<char>>::empty());
        },
    }
}

/// The path templates for `key` given the project's `artifacts:` block
/// (see `templates_in`).
pub fn paths_for_key_in(artifacts: Option<&Json>, key: &str) -> (r: Vec<String>)
    ensures
        names_view(r@) == templates_in(opt_ref(artifacts), key@),
{
    let entry = match artifacts {
        Some(a) => a.get(key),
        None => None,
    };
    let paths = match entry {
        Some(e) => e.get("paths"),
        None => None,
    };
    match paths {
        Some(p) => {
            let mut out: Vec<String> = Vec::new();
            assert(names_view(out@) =~= Seq::<Seq<char>>::empty());
            push_role(p, "change_local", &mut out);
            push_role(p, "project", &mut out);
            push_role(p, "baseline", &mut out);
            assert(names_view(out@) =~= role_templates(*p));
            if out.len() > 0 {
                out
            } else {
                paths_for_key(key)
            }
        },
        None => paths_for_key(key),
    }
}

/// Where a project's schema is looked for, from its `project.yaml`:
/// the agent cache `.specify/.cache/<name>/schema.yaml`, then
/// `schemas/<name>/schema.yaml`, `<name>` being the schema named by the
/// document's `schema` string; none when it names no schema.
pub open spec fn schema_candidates(project_root: Seq<char>, project: Option<Json>) -> Option<
    Seq<Seq<char>>,
> {
    match get_opt(project, "schema"@) {
        Some(Json::Str(v)) => {
            let name = schema_name(v@);
            Some(
                seq![
                    path_join(path_join(path_join(project_root, ".specify/.cache"@), name), "schema.yaml"@),
                    path_join(path_join(path_join(project_root, "schemas"@), name), "schema.yaml"@),
                ],
            )
        },
        _ => None,
    }
}

/// Executable `schema_candidates`.
pub fn schema_paths(project_root: &str, project: Option<&Json>) -> (r: Option<Vec<String>>)
    ensures
        match r {
            Some(v) => schema_candidates(project_root@, opt_ref(project)) == Some(names_view(v@)),
            None => schema_candidates(project_root@, opt_ref(project)) is None,
        },
{
    let schema = match project {
        Some(p) => p.get("schema"),
        None => None,
    };
    match schema {
        Some(Json::Str(v)) => {
            let name = schema_name_from_value(v.as_str());
            let a = join_path(project_root, ".specify/.cache");
            let a = join_path(a.as_str(), name.as_str());
            let a = join_path(a.as_str(), "schema.yaml");
            let b = join_path(project_root, "schemas");
            let b = join_path(b.as_str(), name.as_str());
            let b = join_path(b.as_str(), "schema.yaml");
            let mut out: Vec<String> = Vec::new();
            out.push(a);
            out.push(b);
            assert(names_view(out@) =~= schema_candidates(project_root@, opt_ref(project))->Some_0);
            Some(out)
        },
        _ => None,
    }
}

/// The `artifacts:` block of the first schema (in candidate order) that
/// parsed and has one.
pub open spec fn first_artifacts(schemas: Seq<Option<Json>>) -> Option<Json>
    decreases schemas.len(),
{
    if schemas.len() == 0 {
        None
    } else {
        match get_opt(schemas[0], "artifacts"@) {
            Some(a) => Some(a),
            None => first_artifacts(schemas.subrange(1, schemas.len() as int)),
        }
    }
}

/// Pick the `artifacts:` block from the parsed schema candidates (`None`
/// for one that is missing or does not parse).
pub fn artifacts_block(schemas: Vec<Option<Json>>) -> (r: Option<Json>)
    ensures
        r == first_artifacts(schemas@),
    decreases schemas@.len(),
{
    let mut rest = schemas;
    if rest.len() == 0 {
        return None;
    }
    let ghost all = rest@;
    let first = rest.remove(0);
    assert(rest@ =~= all.subrange(1, all.len() as int));
    let ghost g0 = first;
    assert(g0 == all[0]);
    match first {
        Some(Json::Object(es_in)) => {
            let ghost es0 = es_in@;
            assert(get_opt(g0, "artifacts"@) == member(es0, "artifacts"@));
            let mut es = es_in;
            let mut i: usize = 0;
            while i < es.len()
                invariant
                    i <= es@.len(),
                    es@ == es0,
                    all == schemas@,
                    all.len() > 0,
                    get_opt(all[0], "artifacts"@) == member(es0, "artifacts"@),
                    forall|k: int| 0 <= k < i ==> (#[trigger] es0[k]).0@ != "artifacts"@,
                decreases es@.len() - i,
            {
                if crate::text::str_eq(es[i].0.as_str(), "artifacts") {
                    proof {
                        lemma_member_at(es0, "artifacts"@, i as int);
                    }
                    let (_, v) = es.remove(i);
                    return Some(v);
                }
                i = i + 1;
            }
            proof {
                lemma_member_at(es0, "artifacts"@, es0.len() as int);
            }
            artifacts_block(rest)
        },
        _ => artifacts_block(rest),
    }
}

proof fn lemma_member_at(es: Seq<(String, Json)>, key: Seq<char>, i: int)
    requires
        0 <= i <= es.len(),
        forall|k: int| 0 <= k < i ==> (#[trigger] es[k]).0@ != key,
    ensures
        member(es, key) == (if i < es.len() && es[i].0@ == key {
            Some(es[i].1)
        } else if i == es.len() {
            None
        } else {
            member(es, key)
        }),
    decreases i,
{
    if i > 0 {
        let rest = es.subrange(1, es.len() as int);
        assert forall|k: int| 0 <= k < i - 1 implies (#[trigger] rest[k]).0@ != key by {
            assert(rest[k] == es[k + 1]);
        }
        lemma_member_at(rest, key, i - 1);
        if i < es.len() {
            assert(rest[i - 1] == es[i]);
        }
    }
}

} // verus!
