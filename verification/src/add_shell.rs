//! `add-shell`: the checks before a shell is added to an existing
//! project, and what the project's `shared/src/app.rs` says about it
//! (the app's name and the capabilities it uses).

use vstd::prelude::*;

use crate::error::{error_message, VectisError};
use crate::paths::{join_path, path_join};
use crate::prerequisites::AssemblyKind;
use crate::templates::Capability;
use crate::text::{chars_of, debug_form, debug_quoted, owned, starts_with, str_eq};
use syn::{parse_file, Item, Path, Type};

verus! {

// ---------------------------------------------------------------------
// The request.
// ---------------------------------------------------------------------

/// The shell a platform name names.
pub open spec fn platform_shell(p: Seq<char>) -> Option<AssemblyKind> {
    if p == "ios"@ {
        Some(AssemblyKind::Ios)
    } else if p == "android"@ {
        Some(AssemblyKind::Android)
    } else {
        None
    }
}

/// The directory a shell lives in.
pub open spec fn shell_dir(s: AssemblyKind) -> Seq<char> {
    match s {
        AssemblyKind::Ios => "iOS"@,
        _ => "Android"@,
    }
}

/// The directory of a shell (`iOS` or `Android`).
pub fn shell_dir_name(shell: AssemblyKind) -> (r: &'static str)
    requires
        shell != AssemblyKind::Core,
    ensures
        r@ == shell_dir(shell),
{
    match shell {
        AssemblyKind::Ios => "iOS",
        _ => "Android",
    }
}

/// The path of the app source of a project.
pub open spec fn app_rs(project_dir: Seq<char>) -> Seq<char> {
    path_join(path_join(path_join(project_dir, "shared"@), "src"@), "app.rs"@)
}

/// Executable `app_rs`.
pub fn app_rs_path(project_dir: &str) -> (r: String)
    ensures
        r@ == app_rs(project_dir@),
{
    let a = join_path(project_dir, "shared");
    let b = join_path(a.as_str(), "src");
    join_path(b.as_str(), "app.rs")
}

/// The outcome of the checks before adding a shell: the platform must be
/// `ios` or `android`; the project must have its core (`app_rs_is_file`
/// answers for `app_rs`); the shell's directory must not exist yet
/// (`shell_exists` answers for it).
pub open spec fn request_ok(
    platform: Seq<char>,
    project_dir: Seq<char>,
    app_rs_is_file: bool,
    shell_exists: bool,
    r: Result<AssemblyKind, VectisError>,
) -> bool {
    match platform_shell(platform) {
        None => r is Err && r->Err_0 is InvalidProject && error_message(r->Err_0)
            == "unknown shell platform: "@ + debug_form(platform) + " (expected one of: ios, android)"@,
        Some(s) => if !app_rs_is_file {
            r is Err && r->Err_0 is InvalidProject && error_message(r->Err_0) == "no core assembly found at "@
                + app_rs(project_dir) + " (run `vectis init` to scaffold a new project)"@
        } else if shell_exists {
            r is Err && r->Err_0 is InvalidProject && error_message(r->Err_0)
                == "shell already present at "@ + path_join(project_dir, shell_dir(s))
                + " (delete it first or run `vectis verify`)"@
        } else {
            r == Ok::<AssemblyKind, VectisError>(s)
        },
    }
}

/// Check a request to add the `platform` shell to the project at
/// `project_dir` (see `request_ok`).
pub fn check_request(platform: &str, project_dir: &str, app_rs_is_file: bool, shell_exists: bool) -> (r:
    Result<AssemblyKind, VectisError>)
    ensures
        request_ok(platform@, project_dir@, app_rs_is_file, shell_exists, r),
{
    let shell = if str_eq(platform, "ios") {
        AssemblyKind::Ios
    } else if str_eq(platform, "android") {
        AssemblyKind::Android
    } else {
        let mut msg = owned("unknown shell platform: ");
        let q = debug_quoted(platform);
        msg.append(q.as_str());
        msg.append(" (expected one of: ios, android)");
        return Err(VectisError::InvalidProject { message: msg });
    };
    if !app_rs_is_file {
        let p = app_rs_path(project_dir);
        let mut msg = crate::text::cat("no core assembly found at ", p.as_str());
        msg.append(" (run `vectis init` to scaffold a new project)");
        return Err(VectisError::InvalidProject { message: msg });
    }
    if shell_exists {
        let root = join_path(project_dir, shell_dir_name(shell));
        let mut msg = crate::text::cat("shell already present at ", root.as_str());
        msg.append(" (delete it first or run `vectis verify`)");
        return Err(VectisError::InvalidProject { message: msg });
    }
    Ok(shell)
}

// ---------------------------------------------------------------------
// The app source.
// ---------------------------------------------------------------------

/// What `app.rs` declares: the app's name, the capabilities its type
/// aliases name (first-seen order, no repeats), and the other `crux_*`
/// crates they name.
#[derive(Debug, Clone)]
pub struct ParsedApp {
    pub app_name: String,
    pub capabilities: Vec<Capability>,
    pub unrecognized_capabilities: Vec<String>,
}

/// A path as its segments: each identifier and whether it has no
/// generic arguments.
pub type Segments = Vec<(String, bool)>;

/// The shape of a top-level item of a Rust file, as far as it matters
/// here.
#[derive(Debug, Clone)]
pub enum RawItem {
    /// `impl [Trait for] Type`: the trait's path when there is one, and
    /// the implementing type's path when it is a plain path.
    Impl(Option<Segments>, Option<Segments>),
    /// `type Alias = Type;`: the aliased type's path when it is a plain
    /// path.
    Alias(Option<Segments>),
    Other,
}

/// The view of a path.
pub open spec fn segs_view(s: Segments) -> Seq<(Seq<char>, bool)> {
    s@.map_values(|p: (String, bool)| (p.0@, p.1))
}

/// The view of an optional path.
pub open spec fn opt_segs(o: Option<Segments>) -> Option<Seq<(Seq<char>, bool)>> {
    match o {
        Some(s) => Some(segs_view(s)),
        None => None,
    }
}

/// The view of an item: its kind (0 impl, 1 alias, 2 other) and its
/// paths.
pub open spec fn raw_view(i: RawItem) -> (u8, Option<Seq<(Seq<char>, bool)>>, Option<Seq<(Seq<char>, bool)>>) {
    match i {
        RawItem::Impl(t, s) => (0u8, opt_segs(t), opt_segs(s)),
        RawItem::Alias(a) => (1u8, opt_segs(a), None),
        RawItem::Other => (2u8, None, None),
    }
}

/// What `syn::parse_file` makes of a source text: its top-level items
/// (see `raw_view`), or the parser's message.
pub uninterp spec fn rust_items(src: Seq<char>) -> Result<
    Seq<(u8, Option<Seq<(Seq<char>, bool)>>, Option<Seq<(Seq<char>, bool)>>)>,
    Seq<char>,
>;

/// Parse a Rust source file with `syn::parse_file` and list the shapes
/// of its top-level items; a parse failure gives the error's text. The
/// contract only names the result: the Rust grammar is not restated
/// here.
#[verifier::external_body]
fn parse_items(src: &str) -> (r: Result<Vec<RawItem>, String>)
    ensures
        rust_items(src@) == match r {
            Ok(v) => Ok(v@.map_values(|i: RawItem| raw_view(i))),
            Err(e) => Err(e@),
        },
{
    let segs = |p: &Path| p.segments.iter().map(|s| (s.ident.to_string(), s.arguments.is_none())).collect::<Segments>();
    let ty = |t: &Type| if let Type::Path(tp) = t { Some(segs(&tp.path)) } else { None };
    Ok(parse_file(src).map_err(|e| e.to_string())?.items.iter().map(|item| match item {
        Item::Impl(i) => RawItem::Impl(i.trait_.as_ref().map(|t| segs(&t.1)), ty(&i.self_ty)),
        Item::Type(t) => RawItem::Alias(ty(&t.ty)),
        _ => RawItem::Other,
    }).collect())
}

/// The app name an item declares: an `impl` of a trait whose last path
/// segment is `App`, for a type whose last path segment has no generic
/// arguments, names that segment.
pub open spec fn app_of(i: (u8, Option<Seq<(Seq<char>, bool)>>, Option<Seq<(Seq<char>, bool)>>)) -> Option<
    Seq<char>,
> {
    if i.0 == 0 && i.1 is Some && i.1->Some_0.len() > 0 && i.1->Some_0.last().0 == "App"@ && i.2 is Some
        && i.2->Some_0.len() > 0 && i.2->Some_0.last().1 {
        Some(i.2->Some_0.last().0)
    } else {
        None
    }
}

/// The app name of the first item that declares one.
pub open spec fn first_app(items: Seq<(u8, Option<Seq<(Seq<char>, bool)>>, Option<Seq<(Seq<char>, bool)>>)>) -> Option<
    Seq<char>,
>
    decreases items.len(),
{
    if items.len() == 0 {
        None
    } else {
        match app_of(items[0]) {
            Some(n) => Some(n),
            None => first_app(items.subrange(1, items.len() as int)),
        }
    }
}

/// An `impl` item whose trait path ends in `App`, whatever segments come
/// before it (`App`, `crux_core::App`, ...), for a type path whose last
/// segment `name` has no generic arguments, names the app `name` when it
/// comes first; an `impl` of a trait whose last segment is not `App`,
/// an `impl` for a type whose last segment has generic arguments, and an
/// item that is not an `impl` name nothing, and the search goes on past
/// them.
pub proof fn law_app_impl_names_the_app(
    trait_prefix: Seq<(Seq<char>, bool)>,
    app_args: bool,
    type_prefix: Seq<(Seq<char>, bool)>,
    name: Seq<char>,
    rest: Seq<(u8, Option<Seq<(Seq<char>, bool)>>, Option<Seq<(Seq<char>, bool)>>)>,
    other_trait: Seq<(Seq<char>, bool)>,
)
    ensures
        first_app(
            seq![(0u8, Some(trait_prefix.push(("App"@, app_args))), Some(type_prefix.push((name, true))))]
                + rest,
        ) == Some(name),
        other_trait.len() > 0 && other_trait.last().0 != "App"@ ==> first_app(
            seq![(0u8, Some(other_trait), Some(type_prefix.push((name, true))))] + rest,
        ) == first_app(rest),
        first_app(
            seq![(0u8, Some(trait_prefix.push(("App"@, app_args))), Some(type_prefix.push((name, false))))]
                + rest,
        ) == first_app(rest),
        first_app(seq![(1u8, Some(trait_prefix.push(("App"@, app_args))), None)] + rest) == first_app(rest),
        first_app(seq![(2u8, None, None)] + rest) == first_app(rest),
{
    let items = seq![(0u8, Some(trait_prefix.push(("App"@, app_args))), Some(type_prefix.push((name, true))))]
        + rest;
    assert(items[0].1->Some_0.last() == ("App"@, app_args));
    assert(items[0].2->Some_0.last() == (name, true));
    let others = seq![(0u8, Some(other_trait), Some(type_prefix.push((name, true))))] + rest;
    assert(others.subrange(1, others.len() as int) =~= rest);
    let generic = seq![(0u8, Some(trait_prefix.push(("App"@, app_args))), Some(type_prefix.push((name, false))))]
        + rest;
    assert(generic.subrange(1, generic.len() as int) =~= rest);
    assert(generic[0].2->Some_0.last() == (name, false));
    let alias = seq![(1u8, Some(trait_prefix.push(("App"@, app_args))), None)] + rest;
    assert(alias.subrange(1, alias.len() as int) =~= rest);
    let other = seq![(2u8, None::<Seq<(Seq<char>, bool)>>, None::<Seq<(Seq<char>, bool)>>)] + rest;
    assert(other.subrange(1, other.len() as int) =~= rest);
}

/// Find the app's name among the items.
pub fn find_app_impl(items: &Vec<RawItem>) -> (r: Option<String>)
    ensures
        match r {
            Some(n) => first_app(items@.map_values(|i: RawItem| raw_view(i))) == Some(n@),
            None => first_app(items@.map_values(|i: RawItem| raw_view(i))) is None,
        },
{
    let ghost v = items@.map_values(|i: RawItem| raw_view(i));
    let mut k: usize = 0;
    assert(v.subrange(0, v.len() as int) =~= v);
    while k < items.len()
        invariant
            k <= items@.len(),
            v == items@.map_values(|i: RawItem| raw_view(i)),
            first_app(v) == first_app(v.subrange(k as int, v.len() as int)),
        decreases items@.len() - k,
    {
        let ghost rest = v.subrange(k as int, v.len() as int);
        assert(rest.subrange(1, rest.len() as int) =~= v.subrange(k + 1, v.len() as int));
        assert(rest[0] == raw_view(items@[k as int]));
        match &items[k] {
            RawItem::Impl(Some(t), Some(s)) => {
                if t.len() > 0 && s.len() > 0 {
                    assert(segs_view(*t).last() == (t@[t@.len() - 1].0@, t@[t@.len() - 1].1));
                    assert(segs_view(*s).last() == (s@[s@.len() - 1].0@, s@[s@.len() - 1].1));
                    if str_eq(t[t.len() - 1].0.as_str(), "App") && s[s.len() - 1].1 {
                        return Some(s[s.len() - 1].0.clone());
                    }
                }
            },
            _ => {},
        }
        k = k + 1;
    }
    assert(v.subrange(v.len() as int, v.len() as int).len() == 0);
    None
}

/// How the path an alias names is classified: `crux_http::sse::...` is
/// `sse`; other `crux_http` paths are `http`; `crux_kv`, `crux_time`,
/// `crux_platform` are their capabilities; any other `crux_*` crate is
/// unrecognized (reported by name); anything else is no capability.
pub open spec fn classify(segs: Seq<Seq<char>>) -> Option<(Option<Capability>, Seq<char>)> {
    if segs.len() == 0 {
        None
    } else {
        let first = segs[0];
        if first == "crux_http"@ {
            if segs.len() >= 2 && segs[1] == "sse"@ {
                Some((Some(Capability::Sse), "crux_http::sse"@))
            } else {
                Some((Some(Capability::Http), "crux_http"@))
            }
        } else if first == "crux_kv"@ {
            Some((Some(Capability::Kv), first))
        } else if first == "crux_time"@ {
            Some((Some(Capability::Time), first))
        } else if first == "crux_platform"@ {
            Some((Some(Capability::Platform), first))
        } else if starts_with(first, "crux_"@) {
            Some((None, first))
        } else {
            None
        }
    }
}

/// Classify the path an alias names (see `classify`).
pub fn classify_cap_path(segs: &Vec<String>) -> (r: Option<(Option<Capability>, String)>)
    ensures
        match r {
            Some((c, l)) => classify(crate::query::texts(segs@)) == Some((c, l@)),
            None => classify(crate::query::texts(segs@)) is None,
        },
{
    if segs.len() == 0 {
        return None;
    }
    let first = &segs[0];
    assert(crate::query::texts(segs@)[0] == first@);
    if str_eq(first.as_str(), "crux_http") {
        if segs.len() >= 2 && str_eq(segs[1].as_str(), "sse") {
            assert(crate::query::texts(segs@)[1] == segs@[1]@);
            return Some((Some(Capability::Sse), owned("crux_http::sse")));
        }
        if segs.len() >= 2 {
            assert(crate::query::texts(segs@)[1] == segs@[1]@);
        }
        return Some((Some(Capability::Http), owned("crux_http")));
    }
    if str_eq(first.as_str(), "crux_kv") {
        Some((Some(Capability::Kv), first.clone()))
    } else if str_eq(first.as_str(), "crux_time") {
        Some((Some(Capability::Time), first.clone()))
    } else if str_eq(first.as_str(), "crux_platform") {
        Some((Some(Capability::Platform), first.clone()))
    } else if crate::text::str_starts_with(first.as_str(), "crux_") {
        Some((None, first.clone()))
    } else {
        None
    }
}

/// The names of an alias path's segments.
pub open spec fn seg_names(s: Seq<(Seq<char>, bool)>) -> Seq<Seq<char>> {
    s.map_values(|p: (Seq<char>, bool)| p.0)
}

/// The capabilities (first-seen order, no repeats) and the unrecognized
/// `crux_*` crates (first-seen order, no repeats) the first `n` items'
/// aliases name.
pub open spec fn caps_found(
    items: Seq<(u8, Option<Seq<(Seq<char>, bool)>>, Option<Seq<(Seq<char>, bool)>>)>,
    n: int,
) -> (Seq<Capability>, Seq<Seq<char>>)
    decreases n,
{
    if n <= 0 {
        (Seq::empty(), Seq::empty())
    } else {
        let (cs, us) = caps_found(items, n - 1);
        let i = items[n - 1];
        if i.0 == 1 && i.1 is Some {
            match classify(seg_names(i.1->Some_0)) {
                Some((Some(c), _)) => (if cs.contains(c) {
                    cs
                } else {
                    cs.push(c)
                }, us),
                Some((None, l)) => (cs, if us.contains(l) {
                    us
                } else {
                    us.push(l)
                }),
                None => (cs, us),
            }
        } else {
            (cs, us)
        }
    }
}

/// Collect the capabilities and unrecognized crates the aliases name.
pub fn collect_capabilities(items: &Vec<RawItem>) -> (r: (Vec<Capability>, Vec<String>))
    ensures
        r.0@ == caps_found(items@.map_values(|i: RawItem| raw_view(i)), items@.len() as int).0,
        crate::query::texts(r.1@) == caps_found(
            items@.map_values(|i: RawItem| raw_view(i)),
            items@.len() as int,
        ).1,
{
    let ghost v = items@.map_values(|i: RawItem| raw_view(i));
    let mut caps: Vec<Capability> = Vec::new();
    let mut unknown: Vec<String> = Vec::new();
    let mut k: usize = 0;
    while k < items.len()
        invariant
            k <= items@.len(),
            v == items@.map_values(|i: RawItem| raw_view(i)),
            caps@ == caps_found(v, k as int).0,
            crate::query::texts(unknown@) == caps_found(v, k as int).1,
        decreases items@.len() - k,
    {
        assert(v[k as int] == raw_view(items@[k as int]));
        match &items[k] {
            RawItem::Alias(Some(segs)) => {
                let mut names: Vec<String> = Vec::new();
                let mut j: usize = 0;
                while j < segs.len()
                    invariant
                        j <= segs@.len(),
                        crate::query::texts(names@) == seg_names(segs_view(*segs)).subrange(0, j as int),
                    decreases segs@.len() - j,
                {
                    let ghost before = crate::query::texts(names@);
                    names.push(segs[j].0.clone());
                    assert(crate::query::texts(names@) =~= before.push(segs@[j as int].0@));
                    j = j + 1;
                    assert(seg_names(segs_view(*segs)).subrange(0, j as int) =~= before.push(
                        segs@[j - 1].0@,
                    ));
                }
                assert(seg_names(segs_view(*segs)).subrange(0, j as int) =~= seg_names(
                    segs_view(*segs),
                ));
                match classify_cap_path(&names) {
                    Some((Some(c), _)) => {
                        let mut seen = false;
                        let mut q: usize = 0;
                        while q < caps.len()
                            invariant
                                q <= caps@.len(),
                                seen == exists|x: int| 0 <= x < q && caps@[x] == c,
                            decreases caps@.len() - q,
                        {
                            if caps[q] == c {
                                seen = true;
                            }
                            q = q + 1;
                        }
                        if !seen {
                            caps.push(c);
                        } else {
                            proof {
                                let x = choose|x: int| 0 <= x < caps@.len() && caps@[x] == c;
                                assert(caps@.contains(c));
                            }
                        }
                    },
                    Some((None, l)) => {
                        let mut seen = false;
                        let mut q: usize = 0;
                        let ghost uv = crate::query::texts(unknown@);
                        while q < unknown.len()
                            invariant
                                q <= unknown@.len(),
                                uv == crate::query::texts(unknown@),
                                seen == exists|x: int| 0 <= x < q && uv[x] == l@,
                            decreases unknown@.len() - q,
                        {
                            assert(uv[q as int] == unknown@[q as int]@);
                            if str_eq(unknown[q].as_str(), l.as_str()) {
                                seen = true;
                            }
                            q = q + 1;
                        }
                        if !seen {
                            let ghost before = crate::query::texts(unknown@);
                            unknown.push(l);
                            assert(crate::query::texts(unknown@) =~= before.push(l@));
                        } else {
                            proof {
                                let x = choose|x: int| 0 <= x < uv.len() && uv[x] == l@;
                                assert(uv.contains(l@));
                            }
                        }
                    },
                    None => {},
                }
            },
            _ => {},
        }
        k = k + 1;
    }
    (caps, unknown)
}

/// The error for an unparsable app source.
pub open spec fn unparsable_message(e: Seq<char>) -> Seq<char> {
    "could not parse shared/src/app.rs as Rust: "@ + e
        + " (is this a vectis-scaffolded Crux project?)"@
}

/// The error when the app source has no `impl App for <Name>`.
pub open spec fn no_app_message() -> Seq<char> {
    "no `impl App for <Name>` found in shared/src/app.rs (is this a vectis-scaffolded Crux project? -- try `vectis init` instead)"@
}

/// Read the app's name and capabilities from the text of
/// `shared/src/app.rs`.
pub fn parse_app_rs(source: &str) -> (r: Result<ParsedApp, VectisError>)
    ensures
        match rust_items(source@) {
            Err(e) => r is Err && r->Err_0 is InvalidProject && error_message(r->Err_0)
                == unparsable_message(e),
            Ok(items) => match first_app(items) {
                None => r is Err && r->Err_0 is InvalidProject && error_message(r->Err_0)
                    == no_app_message(),
                Some(n) => r is Ok && r->Ok_0.app_name@ == n && r->Ok_0.capabilities@ == caps_found(
                    items,
                    items.len() as int,
                ).0 && crate::query::texts(r->Ok_0.unrecognized_capabilities@) == caps_found(
                    items,
                    items.len() as int,
                ).1,
            },
        },
{
    let items = match parse_items(source) {
        Err(e) => {
            let mut msg = crate::text::cat("could not parse shared/src/app.rs as Rust: ", e.as_str());
            msg.append(" (is this a vectis-scaffolded Crux project?)");
            return Err(VectisError::InvalidProject { message: msg });
        },
        Ok(items) => items,
    };
    let app_name = match find_app_impl(&items) {
        None => {
            return Err(
                VectisError::InvalidProject {
                    message: owned(
                        "no `impl App for <Name>` found in shared/src/app.rs (is this a vectis-scaffolded Crux project? -- try `vectis init` instead)",
                    ),
                },
            );
        },
        Some(n) => n,
    };
    let (capabilities, unrecognized_capabilities) = collect_capabilities(&items);
    Ok(ParsedApp { app_name, capabilities, unrecognized_capabilities })
}

} // verus!
