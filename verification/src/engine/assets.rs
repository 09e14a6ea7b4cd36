//! `validate assets`: static asset references in a composition, the
//! per-platform source coverage of referenced assets, and the file
//! references of an asset manifest.

use vstd::prelude::*;

use crate::json::{
    child_index, child_index_of, child_key, child_key_of, findings_view, get, get_opt, get_str,
    has_key, has_key_of, member, member_of, opt_ref, push_finding, Finding, Json,
};
use crate::paths::{join_path, path_join};
use crate::text::{cat, owned, str_eq};

verus! {

/// A static asset reference found in a composition document: the asset
/// id and the JSON-Pointer-shaped location of the reference.
#[derive(Debug)]
pub struct AssetRef {
    pub id: String,
    pub path: String,
}

/// The (id, path) pair an `AssetRef` stands for.
pub open spec fn asset_ref_view(r: AssetRef) -> (Seq<char>, Seq<char>) {
    (r.id@, r.path@)
}

/// The (id, path) pairs of a list of references.
pub open spec fn refs_view(rs: Seq<AssetRef>) -> Seq<(Seq<char>, Seq<char>)> {
    rs.map_values(|r: AssetRef| asset_ref_view(r))
}

/// The reference a single member `key: val` (at pointer `child`) carries
/// itself: `image` / `icon` name their asset under `name`, `icon-button`
/// / `fab` under `icon`.
pub open spec fn own_ref(key: Seq<char>, val: Json, child: Seq<char>) -> Seq<(Seq<char>, Seq<char>)> {
    if key == "image"@ || key == "icon"@ {
        match get_str(val, "name"@) {
            Some(n) => seq![(n, child + "/name"@)],
            None => Seq::empty(),
        }
    } else if key == "icon-button"@ || key == "fab"@ {
        match get_str(val, "icon"@) {
            Some(n) => seq![(n, child + "/icon"@)],
            None => Seq::empty(),
        }
    } else {
        Seq::empty()
    }
}

/// Every static asset reference under `node` (located at `path`), in
/// document order: for each object member, its own reference first,
/// then the references nested in its value.
pub open spec fn refs_in(node: Json, path: Seq<char>) -> Seq<(Seq<char>, Seq<char>)>
    decreases node,
{
    match node {
        Json::Object(es) => refs_in_members(es@, path),
        Json::Array(items) => refs_in_items(items@, path, 0),
        _ => Seq::empty(),
    }
}

/// `refs_in` over a list of object members.
pub open spec fn refs_in_members(es: Seq<(String, Json)>, path: Seq<char>) -> Seq<
    (Seq<char>, Seq<char>),
>
    decreases es,
{
    if es.len() == 0 {
        Seq::empty()
    } else {
        let child = child_key(path, es[0].0@);
        own_ref(es[0].0@, es[0].1, child) + refs_in(es[0].1, child) + refs_in_members(
            es.subrange(1, es.len() as int),
            path,
        )
    }
}

/// `refs_in` over array elements, the first one at index `start`.
pub open spec fn refs_in_items(items: Seq<Json>, path: Seq<char>, start: nat) -> Seq<
    (Seq<char>, Seq<char>),
>
    decreases items,
{
    if items.len() == 0 {
        Seq::empty()
    } else {
        refs_in(items[0], child_index(path, start)) + refs_in_items(
            items.subrange(1, items.len() as int),
            path,
            start + 1,
        )
    }
}


/// Append the reference the member `key: val` itself carries.
fn push_own_ref(key: &String, val: &Json, child: &String, refs: &mut Vec<AssetRef>)
    ensures
        refs_view(final(refs)@) == refs_view(old(refs)@) + own_ref(key@, *val, child@),
{
    let ghost before = refs_view(refs@);
    if str_eq(key.as_str(), "image") || str_eq(key.as_str(), "icon") {
        if let Some(n) = val.get_str("name") {
            refs.push(AssetRef { id: n.clone(), path: cat(child.as_str(), "/name") });
            assert(refs_view(refs@) =~= before + own_ref(key@, *val, child@));
        } else {
            assert(refs_view(refs@) =~= before + own_ref(key@, *val, child@));
        }
    } else if str_eq(key.as_str(), "icon-button") || str_eq(key.as_str(), "fab") {
        if let Some(n) = val.get_str("icon") {
            refs.push(AssetRef { id: n.clone(), path: cat(child.as_str(), "/icon") });
            assert(refs_view(refs@) =~= before + own_ref(key@, *val, child@));
        } else {
            assert(refs_view(refs@) =~= before + own_ref(key@, *val, child@));
        }
    } else {
        assert(refs_view(refs@) =~= before + own_ref(key@, *val, child@));
    }
}

/// Recursive walker collecting static asset references (see `refs_in`).
pub fn walk_node(node: &Json, path: &str, refs: &mut Vec<AssetRef>)
    ensures
        refs_view(final(refs)@) == refs_view(old(refs)@) + refs_in(*node, path@),
    decreases node,
{
    let ghost init = refs_view(refs@);
    match node {
        Json::Object(es) => {
            let mut i: usize = 0;
            assert(es@.subrange(0, es@.len() as int) =~= es@);
            while i < es.len()
                invariant
                    i <= es@.len(),
                    *node == Json::Object(*es),
                    refs_view(refs@) + refs_in_members(es@.subrange(i as int, es@.len() as int), path@)
                        == init + refs_in_members(es@, path@),
                decreases es@.len() - i,
            {
                let ghost rest = es@.subrange(i as int, es@.len() as int);
                assert(rest.subrange(1, rest.len() as int) =~= es@.subrange(i + 1, es@.len() as int));
                assert(rest[0] == es@[i as int]);
                let ghost mid = refs_view(refs@);
                let child = child_key_of(path, es[i].0.as_str());
                push_own_ref(&es[i].0, &es[i].1, &child, refs);
                proof {
                    assert(decreases_to!(*node => (*node)->Object_0));
                    assert(decreases_to!(*es => es@));
                    assert(decreases_to!(es@ => es@[i as int]));
                    assert(decreases_to!(es@[i as int] => es@[i as int].1));
                    assert(decreases_to!(*node => es@[i as int].1));
                }
                walk_node(&es[i].1, child.as_str(), refs);
                i = i + 1;
                assert(refs_view(refs@) + refs_in_members(es@.subrange(i as int, es@.len() as int), path@)
                    =~= mid + refs_in_members(rest, path@));
            }
            assert(es@.subrange(es@.len() as int, es@.len() as int) =~= Seq::<(String, Json)>::empty());
            assert(refs_view(refs@) =~= init + refs_in(*node, path@));
        },
        Json::Array(items) => {
            let mut i: usize = 0;
            assert(items@.subrange(0, items@.len() as int) =~= items@);
            while i < items.len()
                invariant
                    i <= items@.len(),
                    *node == Json::Array(*items),
                    refs_view(refs@) + refs_in_items(
                        items@.subrange(i as int, items@.len() as int),
                        path@,
                        i as nat,
                    ) == init + refs_in_items(items@, path@, 0),
                decreases items@.len() - i,
            {
                let ghost rest = items@.subrange(i as int, items@.len() as int);
                assert(rest.subrange(1, rest.len() as int) =~= items@.subrange(
                    i + 1,
                    items@.len() as int,
                ));
                assert(rest[0] == items@[i as int]);
                let ghost mid = refs_view(refs@);
                let child = child_index_of(path, i);
                proof {
                    assert(decreases_to!(*node => (*node)->Array_0));
                    assert(decreases_to!(*items => items@));
                    assert(decreases_to!(items@ => items@[i as int]));
                    assert(decreases_to!(*node => items@[i as int]));
                }
                walk_node(&items[i], child.as_str(), refs);
                i = i + 1;
                assert(refs_view(refs@) + refs_in_items(
                    items@.subrange(i as int, items@.len() as int),
                    path@,
                    i as nat,
                ) =~= mid + refs_in_items(rest, path@, (i - 1) as nat));
            }
            assert(items@.subrange(items@.len() as int, items@.len() as int) =~= Seq::<Json>::empty());
            assert(refs_view(refs@) =~= init + refs_in(*node, path@));
        },
        _ => {
            assert(refs_view(refs@) =~= init + refs_in(*node, path@));
        },
    }
}

/// Every static asset reference (`image`, `icon`, `icon-button`, `fab`)
/// in a composition document, in document order.
pub fn collect_asset_references(value: &Json) -> (r: Vec<AssetRef>)
    ensures
        refs_view(r@) == refs_in(*value, Seq::empty()),
{
    let mut refs: Vec<AssetRef> = Vec::new();
    let root = crate::text::owned("");
    proof {
        reveal_strlit("");
    }
    assert(root@ =~= Seq::<char>::empty());
    walk_node(value, root.as_str(), &mut refs);
    assert(refs_view(refs@) =~= Seq::<(Seq<char>, Seq<char>)>::empty() + refs_in(*value, Seq::empty()));
    refs
}


// ---------------------------------------------------------------------
// Per-platform source coverage.
// ---------------------------------------------------------------------

/// The platforms every referenced asset must cover, in check order.
pub open spec fn platforms() -> Seq<Seq<char>> {
    seq!["ios"@, "android"@]
}

/// Raster density slots per platform, in warning order.
pub open spec fn raster_densities(plat: Seq<char>) -> Seq<Seq<char>> {
    if plat == "ios"@ {
        seq!["1x"@, "2x"@, "3x"@]
    } else if plat == "android"@ {
        seq!["mdpi"@, "hdpi"@, "xhdpi"@, "xxhdpi"@, "xxxhdpi"@]
    } else {
        Seq::empty()
    }
}

/// Executable `raster_densities`.
pub fn raster_densities_of(plat: &str) -> (r: Vec<&'static str>)
    ensures
        r@.map_values(|d: &str| d@) == raster_densities(plat@),
{
    let mut out: Vec<&'static str> = Vec::new();
    if str_eq(plat, "ios") {
        out.push("1x");
        out.push("2x");
        out.push("3x");
        assert(out@.map_values(|d: &str| d@) =~= raster_densities(plat@));
    } else if str_eq(plat, "android") {
        out.push("mdpi");
        out.push("hdpi");
        out.push("xhdpi");
        out.push("xxhdpi");
        out.push("xxxhdpi");
        assert(out@.map_values(|d: &str| d@) =~= raster_densities(plat@));
    } else {
        assert(out@.map_values(|d: &str| d@) =~= raster_densities(plat@));
    }
    out
}

/// `/assets/<id>/sources/<plat>`.
pub open spec fn plat_pointer(id: Seq<char>, plat: Seq<char>) -> Seq<char> {
    "/assets/"@ + id + "/sources/"@ + plat
}

/// Error for a referenced raster asset without a source for `plat`.
pub open spec fn raster_missing_message(id: Seq<char>, plat: Seq<char>) -> Seq<char> {
    "raster asset `"@ + id + "` is referenced by composition.yaml but has no `sources."@ + plat
        + "` source for the targeted shell platform"@
}

/// Error for a referenced vector asset without an export for `plat`.
pub open spec fn vector_missing_message(id: Seq<char>, plat: Seq<char>) -> Seq<char> {
    "vector asset `"@ + id + "` is referenced by composition.yaml but has no `sources."@ + plat
        + "` export for the targeted shell platform"@
}

/// Warning for a missing optional raster density.
pub open spec fn density_message(id: Seq<char>, density: Seq<char>, plat: Seq<char>) -> Seq<char> {
    "raster asset `"@ + id + "` is missing optional `"@ + density + "` density for "@ + plat
}

/// Warnings for the densities of `ds` missing from the members `es`.
pub open spec fn density_warnings(
    id: Seq<char>,
    plat: Seq<char>,
    es: Seq<(String, Json)>,
    ds: Seq<Seq<char>>,
) -> Seq<(Seq<char>, Seq<char>)>
    decreases ds.len(),
{
    if ds.len() == 0 {
        Seq::empty()
    } else {
        (if has_key(es, ds[0]) {
            Seq::empty()
        } else {
            seq![(plat_pointer(id, plat), density_message(id, ds[0], plat))]
        }) + density_warnings(id, plat, es, ds.subrange(1, ds.len() as int))
    }
}

/// The (errors, warnings) of one platform of a referenced raster asset.
pub open spec fn raster_platform_findings(id: Seq<char>, entry: Json, plat: Seq<char>) -> (
    Seq<(Seq<char>, Seq<char>)>,
    Seq<(Seq<char>, Seq<char>)>,
) {
    match get_opt(get(entry, "sources"@), plat) {
        None => (seq![(plat_pointer(id, plat), raster_missing_message(id, plat))], Seq::empty()),
        Some(Json::Object(es)) => (Seq::empty(), density_warnings(id, plat, es@, raster_densities(plat))),
        Some(_) => (Seq::empty(), Seq::empty()),
    }
}

/// The errors of one platform of a referenced vector asset.
pub open spec fn vector_platform_findings(id: Seq<char>, entry: Json, plat: Seq<char>) -> Seq<
    (Seq<char>, Seq<char>),
> {
    match get_opt(get(entry, "sources"@), plat) {
        None => seq![(plat_pointer(id, plat), vector_missing_message(id, plat))],
        Some(_) => Seq::empty(),
    }
}

/// Per-platform source coverage of a composition-referenced asset, as
/// (errors, warnings): rasters need `sources.ios` and `sources.android`
/// (missing densities are warnings), vectors need both exports, other
/// kinds pass.
pub open spec fn coverage(id: Seq<char>, entry: Json) -> (
    Seq<(Seq<char>, Seq<char>)>,
    Seq<(Seq<char>, Seq<char>)>,
) {
    match get_str(entry, "kind"@) {
        Some(k) => if k == "raster"@ {
            let a = raster_platform_findings(id, entry, "ios"@);
            let b = raster_platform_findings(id, entry, "android"@);
            (a.0 + b.0, a.1 + b.1)
        } else if k == "vector"@ {
            (
                vector_platform_findings(id, entry, "ios"@) + vector_platform_findings(
                    id,
                    entry,
                    "android"@,
                ),
                Seq::empty(),
            )
        } else {
            (Seq::empty(), Seq::empty())
        },
        None => (Seq::empty(), Seq::empty()),
    }
}

/// Executable `plat_pointer`.
fn plat_pointer_of(id: &str, plat: &str) -> (r: String)
    ensures
        r@ == plat_pointer(id@, plat@),
{
    let mut s = owned("/assets/");
    s.append(id);
    s.append("/sources/");
    s.append(plat);
    s
}

/// Append the warnings of `density_warnings`.
fn push_density_warnings(
    id: &str,
    plat: &str,
    es: &Vec<(String, Json)>,
    warnings: &mut Vec<Finding>,
)
    ensures
        findings_view(final(warnings)@) == findings_view(old(warnings)@) + density_warnings(
            id@,
            plat@,
            es@,
            raster_densities(plat@),
        ),
{
    let ds = raster_densities_of(plat);
    let ghost dsv = raster_densities(plat@);
    let ghost init = findings_view(warnings@);
    let mut i: usize = 0;
    assert(dsv.subrange(0, dsv.len() as int) =~= dsv);
    while i < ds.len()
        invariant
            i <= ds@.len(),
            ds@.map_values(|d: &str| d@) == dsv,
            findings_view(warnings@) + density_warnings(id@, plat@, es@, dsv.subrange(i as int, dsv.len() as int))
                == init + density_warnings(id@, plat@, es@, dsv),
        decreases ds@.len() - i,
    {
        let ghost rest = dsv.subrange(i as int, dsv.len() as int);
        assert(rest.subrange(1, rest.len() as int) =~= dsv.subrange(i + 1, dsv.len() as int));
        assert(rest[0] == ds@[i as int]@);
        let ghost mid = findings_view(warnings@);
        if !has_key_of(es, ds[i]) {
            let mut msg = owned("raster asset `");
            msg.append(id);
            msg.append("` is missing optional `");
            msg.append(ds[i]);
            msg.append("` density for ");
            msg.append(plat);
            push_finding(warnings, plat_pointer_of(id, plat), msg);
        }
        i = i + 1;
        assert(findings_view(warnings@) + density_warnings(id@, plat@, es@, dsv.subrange(i as int, dsv.len() as int))
            =~= mid + density_warnings(id@, plat@, es@, rest));
    }
    assert(dsv.subrange(ds@.len() as int, dsv.len() as int) =~= Seq::<Seq<char>>::empty());
    assert(findings_view(warnings@) =~= init + density_warnings(id@, plat@, es@, dsv));
}

/// The member `plat` of the `sources` member of `entry`.
fn platform_node<'a>(entry: &'a Json, plat: &str) -> (r: Option<&'a Json>)
    ensures
        opt_ref(r) == get_opt(get(*entry, "sources"@), plat@),
{
    match entry.get("sources") {
        Some(s) => s.get(plat),
        None => None,
    }
}

/// Append the findings of one raster platform.
fn push_raster_platform(
    id: &str,
    entry: &Json,
    plat: &str,
    errors: &mut Vec<Finding>,
    warnings: &mut Vec<Finding>,
)
    ensures
        findings_view(final(errors)@) == findings_view(old(errors)@) + raster_platform_findings(
            id@,
            *entry,
            plat@,
        ).0,
        findings_view(final(warnings)@) == findings_view(old(warnings)@) + raster_platform_findings(
            id@,
            *entry,
            plat@,
        ).1,
{
    let ghost e0 = findings_view(errors@);
    let ghost w0 = findings_view(warnings@);
    match platform_node(entry, plat) {
        None => {
            let mut msg = owned("raster asset `");
            msg.append(id);
            msg.append("` is referenced by composition.yaml but has no `sources.");
            msg.append(plat);
            msg.append("` source for the targeted shell platform");
            push_finding(errors, plat_pointer_of(id, plat), msg);
            assert(findings_view(warnings@) =~= w0 + Seq::<(Seq<char>, Seq<char>)>::empty());
        },
        Some(node) => {
            match node.as_object() {
                Some(es) => {
                    push_density_warnings(id, plat, es, warnings);
                },
                None => {
                    assert(findings_view(warnings@) =~= w0 + Seq::<(Seq<char>, Seq<char>)>::empty());
                },
            }
            assert(findings_view(errors@) =~= e0 + Seq::<(Seq<char>, Seq<char>)>::empty());
        },
    }
}

/// Append the findings of one vector platform.
fn push_vector_platform(id: &str, entry: &Json, plat: &str, errors: &mut Vec<Finding>)
    ensures
        findings_view(final(errors)@) == findings_view(old(errors)@) + vector_platform_findings(
            id@,
            *entry,
            plat@,
        ),
{
    let ghost e0 = findings_view(errors@);
    if platform_node(entry, plat).is_none() {
        let mut msg = owned("vector asset `");
        msg.append(id);
        msg.append("` is referenced by composition.yaml but has no `sources.");
        msg.append(plat);
        msg.append("` export for the targeted shell platform");
        push_finding(errors, plat_pointer_of(id, plat), msg);
    } else {
        assert(findings_view(errors@) =~= e0 + Seq::<(Seq<char>, Seq<char>)>::empty());
    }
}

/// A referenced raster asset is checked on both shell platforms alike:
/// for iOS and for Android, the coverage errors hold the finding at
/// `/assets/<id>/sources/<platform>` exactly when the entry's `sources`
/// has no member for that platform, one error per missing platform.
pub proof fn law_raster_coverage_checks_each_platform(id: Seq<char>, entry: Json, plat: Seq<char>)
    requires
        get_str(entry, "kind"@) == Some("raster"@),
        plat == "ios"@ || plat == "android"@,
    ensures
        ({
            let lacks = |q: Seq<char>|
                match get(entry, "sources"@) {
                    Some(src) => get(src, q) is None,
                    None => true,
                };
            let finding = (
                "/assets/"@ + id + "/sources/"@ + plat,
                "raster asset `"@ + id + "` is referenced by composition.yaml but has no `sources."@
                    + plat + "` source for the targeted shell platform"@,
            );
            &&& coverage(id, entry).0.contains(finding) == lacks(plat)
            &&& coverage(id, entry).0.len() == (if lacks("ios"@) { 1int } else { 0 }) + (if lacks(
                "android"@,
            ) {
                1int
            } else {
                0
            })
        }),
{
    reveal_strlit("raster");
    reveal_strlit("ios");
    reveal_strlit("android");
    assert("ios"@ != "android"@) by {
        assert("ios"@.len() != "android"@.len());
    }
    let a = raster_platform_findings(id, entry, "ios"@).0;
    let b = raster_platform_findings(id, entry, "android"@).0;
    let pi = plat_pointer(id, "ios"@);
    let pa = plat_pointer(id, "android"@);
    assert(pi != pa) by {
        assert(pi.len() != pa.len());
    }
    assert(coverage(id, entry).0 == a + b);
    let e = a + b;
    let finding = (plat_pointer(id, plat), raster_missing_message(id, plat));
    if e.contains(finding) {
        let k = choose|k: int| 0 <= k < e.len() && e[k] == finding;
        if k < a.len() {
            assert(e[k] == a[k]);
        } else {
            assert(e[k] == b[k - a.len()]);
        }
    }
    match get_opt(get(entry, "sources"@), plat) {
        None => {
            if plat == "ios"@ {
                assert(e[0] == a[0]);
            } else {
                assert(e[a.len() as int] == b[0]);
            }
        },
        Some(_) => {},
    }
}

/// A referenced vector asset is checked on both shell platforms alike:
/// for iOS and for Android, the coverage errors hold the finding at
/// `/assets/<id>/sources/<platform>` exactly when the entry's `sources`
/// has no member for that platform, there is one error per missing
/// platform, and no warning.
pub proof fn law_vector_coverage_checks_each_platform(id: Seq<char>, entry: Json, plat: Seq<char>)
    requires
        get_str(entry, "kind"@) == Some("vector"@),
        plat == "ios"@ || plat == "android"@,
    ensures
        ({
            let lacks = |q: Seq<char>|
                match get(entry, "sources"@) {
                    Some(src) => get(src, q) is None,
                    None => true,
                };
            let finding = (
                "/assets/"@ + id + "/sources/"@ + plat,
                "vector asset `"@ + id + "` is referenced by composition.yaml but has no `sources."@
                    + plat + "` export for the targeted shell platform"@,
            );
            &&& coverage(id, entry).0.contains(finding) == lacks(plat)
            &&& coverage(id, entry).0.len() == (if lacks("ios"@) { 1int } else { 0 }) + (if lacks(
                "android"@,
            ) {
                1int
            } else {
                0
            })
            &&& coverage(id, entry).1.len() == 0
        }),
{
    reveal_strlit("raster");
    reveal_strlit("vector");
    reveal_strlit("ios");
    reveal_strlit("android");
    assert("raster"@ != "vector"@) by {
        assert("raster"@[0] != "vector"@[0]);
    }
    assert("ios"@ != "android"@) by {
        assert("ios"@.len() != "android"@.len());
    }
    let a = vector_platform_findings(id, entry, "ios"@);
    let b = vector_platform_findings(id, entry, "android"@);
    let pi = plat_pointer(id, "ios"@);
    let pa = plat_pointer(id, "android"@);
    assert(pi != pa) by {
        assert(pi.len() != pa.len());
    }
    assert(coverage(id, entry).0 == a + b);
    let e = a + b;
    let finding = (plat_pointer(id, plat), vector_missing_message(id, plat));
    if e.contains(finding) {
        let k = choose|k: int| 0 <= k < e.len() && e[k] == finding;
        if k < a.len() {
            assert(e[k] == a[k]);
        } else {
            assert(e[k] == b[k - a.len()]);
        }
    }
    match get_opt(get(entry, "sources"@), plat) {
        None => {
            if plat == "ios"@ {
                assert(e[0] == a[0]);
            } else {
                assert(e[a.len() as int] == b[0]);
            }
        },
        Some(_) => {},
    }
}

/// Per-platform source coverage for a composition-referenced asset
/// (see `coverage`).
pub fn check_platform_coverage(
    id: &str,
    entry: &Json,
    errors: &mut Vec<Finding>,
    warnings: &mut Vec<Finding>,
)
    ensures
        findings_view(final(errors)@) == findings_view(old(errors)@) + coverage(id@, *entry).0,
        findings_view(final(warnings)@) == findings_view(old(warnings)@) + coverage(id@, *entry).1,
{
    let ghost e0 = findings_view(errors@);
    let ghost w0 = findings_view(warnings@);
    match entry.get_str("kind") {
        Some(kind) => {
            if str_eq(kind.as_str(), "raster") {
                push_raster_platform(id, entry, "ios", errors, warnings);
                push_raster_platform(id, entry, "android", errors, warnings);
                assert(findings_view(errors@) =~= e0 + coverage(id@, *entry).0);
                assert(findings_view(warnings@) =~= w0 + coverage(id@, *entry).1);
            } else if str_eq(kind.as_str(), "vector") {
                push_vector_platform(id, entry, "ios", errors);
                push_vector_platform(id, entry, "android", errors);
                assert(findings_view(errors@) =~= e0 + coverage(id@, *entry).0);
                assert(findings_view(warnings@) =~= w0 + coverage(id@, *entry).1);
            } else {
                assert(findings_view(errors@) =~= e0 + coverage(id@, *entry).0);
                assert(findings_view(warnings@) =~= w0 + coverage(id@, *entry).1);
            }
        },
        None => {
            assert(findings_view(errors@) =~= e0 + coverage(id@, *entry).0);
            assert(findings_view(warnings@) =~= w0 + coverage(id@, *entry).1);
        },
    }
}


// ---------------------------------------------------------------------
// File references of an asset manifest.
// ---------------------------------------------------------------------

/// A file an asset entry names: the pointer of the naming member and
/// the file path (relative to the directory holding `assets.yaml`).
#[derive(Debug)]
pub struct FileRef {
    pub pointer: String,
    pub file: String,
}

/// The (pointer, file) pairs of a list of file references.
pub open spec fn file_refs_view(rs: Seq<FileRef>) -> Seq<(Seq<char>, Seq<char>)> {
    rs.map_values(|r: FileRef| (r.pointer@, r.file@))
}

/// Raster density members naming a file (string values), in member
/// order.
pub open spec fn density_files(id: Seq<char>, plat: Seq<char>, es: Seq<(String, Json)>) -> Seq<
    (Seq<char>, Seq<char>),
>
    decreases es.len(),
{
    if es.len() == 0 {
        Seq::empty()
    } else {
        (match es[0].1 {
            Json::Str(f) => seq![(plat_pointer(id, plat) + "/"@ + es[0].0@, f@)],
            _ => Seq::empty(),
        }) + density_files(id, plat, es.subrange(1, es.len() as int))
    }
}

/// The raster files of one platform.
pub open spec fn raster_platform_files(id: Seq<char>, entry: Json, plat: Seq<char>) -> Seq<
    (Seq<char>, Seq<char>),
> {
    match get_opt(get(entry, "sources"@), plat) {
        Some(Json::Object(es)) => density_files(id, plat, es@),
        _ => Seq::empty(),
    }
}

/// The vector export of one platform.
pub open spec fn vector_platform_file(id: Seq<char>, entry: Json, plat: Seq<char>) -> Seq<
    (Seq<char>, Seq<char>),
> {
    match get_opt(get(entry, "sources"@), plat) {
        Some(Json::Str(f)) => seq![(plat_pointer(id, plat), f@)],
        _ => Seq::empty(),
    }
}

/// Every file an asset entry names: raster density files per platform;
/// a vector's canonical `source` then its per-platform exports; nothing
/// for other kinds (or a missing / non-string `kind`).
pub open spec fn entry_files(id: Seq<char>, entry: Json) -> Seq<(Seq<char>, Seq<char>)> {
    match get_str(entry, "kind"@) {
        Some(k) => if k == "raster"@ {
            raster_platform_files(id, entry, "ios"@) + raster_platform_files(id, entry, "android"@)
        } else if k == "vector"@ {
            (match get_str(entry, "source"@) {
                Some(f) => seq![("/assets/"@ + id + "/source"@, f)],
                None => Seq::empty(),
            }) + vector_platform_file(id, entry, "ios"@) + vector_platform_file(
                id,
                entry,
                "android"@,
            )
        } else {
            Seq::empty()
        },
        None => Seq::empty(),
    }
}

/// `entry_files` over the members of the `assets` object.
pub open spec fn members_files(es: Seq<(String, Json)>) -> Seq<(Seq<char>, Seq<char>)>
    decreases es.len(),
{
    if es.len() == 0 {
        Seq::empty()
    } else {
        entry_files(es[0].0@, es[0].1) + members_files(es.subrange(1, es.len() as int))
    }
}

/// Every file an asset manifest names, in manifest order (nothing when
/// `assets` is absent or not an object).
pub open spec fn manifest_files(instance: Json) -> Seq<(Seq<char>, Seq<char>)> {
    match get(instance, "assets"@) {
        Some(Json::Object(es)) => members_files(es@),
        _ => Seq::empty(),
    }
}

/// Append a file reference.
fn push_file(out: &mut Vec<FileRef>, pointer: String, file: String)
    ensures
        file_refs_view(final(out)@) == file_refs_view(old(out)@).push((pointer@, file@)),
{
    let ghost before = out@;
    out.push(FileRef { pointer, file });
    assert(file_refs_view(out@) =~= file_refs_view(before).push((pointer@, file@)));
}

/// Append the raster files of one platform.
fn push_raster_files(id: &str, entry: &Json, plat: &str, out: &mut Vec<FileRef>)
    ensures
        file_refs_view(final(out)@) == file_refs_view(old(out)@) + raster_platform_files(
            id@,
            *entry,
            plat@,
        ),
{
    let ghost init = file_refs_view(out@);
    match platform_node(entry, plat) {
        Some(Json::Object(es)) => {
            let mut i: usize = 0;
            assert(es@.subrange(0, es@.len() as int) =~= es@);
            while i < es.len()
                invariant
                    i <= es@.len(),
                    file_refs_view(out@) + density_files(id@, plat@, es@.subrange(i as int, es@.len() as int))
                        == init + density_files(id@, plat@, es@),
                decreases es@.len() - i,
            {
                let ghost rest = es@.subrange(i as int, es@.len() as int);
                assert(rest.subrange(1, rest.len() as int) =~= es@.subrange(i + 1, es@.len() as int));
                assert(rest[0] == es@[i as int]);
                let ghost mid = file_refs_view(out@);
                match &es[i].1 {
                    Json::Str(f) => {
                        let mut ptr = plat_pointer_of(id, plat);
                        ptr.append("/");
                        ptr.append(es[i].0.as_str());
                        push_file(out, ptr, f.clone());
                    },
                    _ => {},
                }
                i = i + 1;
                assert(file_refs_view(out@) + density_files(id@, plat@, es@.subrange(i as int, es@.len() as int))
                    =~= mid + density_files(id@, plat@, rest));
            }
            assert(es@.subrange(es@.len() as int, es@.len() as int) =~= Seq::<(String, Json)>::empty());
            assert(file_refs_view(out@) =~= init + raster_platform_files(id@, *entry, plat@));
        },
        _ => {
            assert(file_refs_view(out@) =~= init + raster_platform_files(id@, *entry, plat@));
        },
    }
}

/// Append the vector export of one platform.
fn push_vector_file(id: &str, entry: &Json, plat: &str, out: &mut Vec<FileRef>)
    ensures
        file_refs_view(final(out)@) == file_refs_view(old(out)@) + vector_platform_file(
            id@,
            *entry,
            plat@,
        ),
{
    let ghost init = file_refs_view(out@);
    match platform_node(entry, plat) {
        Some(Json::Str(f)) => {
            push_file(out, plat_pointer_of(id, plat), f.clone());
        },
        _ => {
            assert(file_refs_view(out@) =~= init + vector_platform_file(id@, *entry, plat@));
        },
    }
}

/// Append every file one asset entry names (see `entry_files`).
pub fn push_entry_files(id: &str, entry: &Json, out: &mut Vec<FileRef>)
    ensures
        file_refs_view(final(out)@) == file_refs_view(old(out)@) + entry_files(id@, *entry),
{
    let ghost init = file_refs_view(out@);
    match entry.get_str("kind") {
        Some(kind) => {
            if str_eq(kind.as_str(), "raster") {
                push_raster_files(id, entry, "ios", out);
                push_raster_files(id, entry, "android", out);
                assert(file_refs_view(out@) =~= init + entry_files(id@, *entry));
            } else if str_eq(kind.as_str(), "vector") {
                let ghost s0 = file_refs_view(out@);
                match entry.get_str("source") {
                    Some(f) => {
                        let mut ptr = owned("/assets/");
                        ptr.append(id);
                        ptr.append("/source");
                        push_file(out, ptr, f.clone());
                    },
                    None => {},
                }
                push_vector_file(id, entry, "ios", out);
                push_vector_file(id, entry, "android", out);
                assert(file_refs_view(out@) =~= init + entry_files(id@, *entry));
            } else {
                assert(file_refs_view(out@) =~= init + entry_files(id@, *entry));
            }
        },
        None => {
            assert(file_refs_view(out@) =~= init + entry_files(id@, *entry));
        },
    }
}

/// Every file an asset manifest names (see `manifest_files`). The caller
/// checks each one on disk and hands the answers to `file_findings`.
pub fn manifest_file_refs(instance: &Json) -> (r: Vec<FileRef>)
    ensures
        file_refs_view(r@) == manifest_files(*instance),
{
    let mut out: Vec<FileRef> = Vec::new();
    match instance.get("assets") {
        Some(Json::Object(es)) => {
            let mut i: usize = 0;
            assert(es@.subrange(0, es@.len() as int) =~= es@);
            while i < es.len()
                invariant
                    i <= es@.len(),
                    file_refs_view(out@) + members_files(es@.subrange(i as int, es@.len() as int))
                        == members_files(es@),
                decreases es@.len() - i,
            {
                let ghost rest = es@.subrange(i as int, es@.len() as int);
                assert(rest.subrange(1, rest.len() as int) =~= es@.subrange(i + 1, es@.len() as int));
                assert(rest[0] == es@[i as int]);
                let ghost mid = file_refs_view(out@);
                push_entry_files(es[i].0.as_str(), &es[i].1, &mut out);
                i = i + 1;
                assert(file_refs_view(out@) + members_files(es@.subrange(i as int, es@.len() as int))
                    =~= mid + members_files(rest));
            }
            assert(es@.subrange(es@.len() as int, es@.len() as int) =~= Seq::<(String, Json)>::empty());
            assert(file_refs_view(out@) =~= manifest_files(*instance));
        },
        _ => {
            assert(file_refs_view(out@) =~= manifest_files(*instance));
        },
    }
    out
}

/// "file not found" errors for the referenced files that are not
/// regular files: `present[k]` answers whether `dir.join(refs[k].file)`
/// is a file.
pub open spec fn missing_file_findings(
    dir: Seq<char>,
    refs: Seq<(Seq<char>, Seq<char>)>,
    present: Seq<bool>,
) -> Seq<(Seq<char>, Seq<char>)>
    decreases refs.len(),
{
    if refs.len() == 0 {
        Seq::empty()
    } else {
        (if present[0] {
            Seq::empty()
        } else {
            seq![(refs[0].0, "file not found: "@ + path_join(dir, refs[0].1))]
        }) + missing_file_findings(
            dir,
            refs.subrange(1, refs.len() as int),
            present.subrange(1, present.len() as int),
        )
    }
}

/// Append the "file not found" errors (see `missing_file_findings`).
pub fn push_missing_files(dir: &str, refs: &Vec<FileRef>, present: &[bool], errors: &mut Vec<Finding>)
    requires
        present@.len() == refs@.len(),
    ensures
        findings_view(final(errors)@) == findings_view(old(errors)@) + missing_file_findings(
            dir@,
            file_refs_view(refs@),
            present@,
        ),
{
    let ghost rv = file_refs_view(refs@);
    let ghost init = findings_view(errors@);
    let mut i: usize = 0;
    assert(rv.subrange(0, rv.len() as int) =~= rv);
    assert(present@.subrange(0, present@.len() as int) =~= present@);
    while i < refs.len()
        invariant
            i <= refs@.len(),
            present@.len() == refs@.len(),
            rv == file_refs_view(refs@),
            findings_view(errors@) + missing_file_findings(
                dir@,
                rv.subrange(i as int, rv.len() as int),
                present@.subrange(i as int, present@.len() as int),
            ) == init + missing_file_findings(dir@, rv, present@),
        decreases refs@.len() - i,
    {
        let ghost rest = rv.subrange(i as int, rv.len() as int);
        let ghost prest = present@.subrange(i as int, present@.len() as int);
        assert(rest.subrange(1, rest.len() as int) =~= rv.subrange(i + 1, rv.len() as int));
        assert(prest.subrange(1, prest.len() as int) =~= present@.subrange(i + 1, present@.len() as int));
        assert(rest[0] == rv[i as int]);
        assert(prest[0] == present@[i as int]);
        let ghost mid = findings_view(errors@);
        if !present[i] {
            let resolved = join_path(dir, refs[i].file.as_str());
            let msg = cat("file not found: ", resolved.as_str());
            push_finding(errors, refs[i].pointer.clone(), msg);
        }
        i = i + 1;
        assert(findings_view(errors@) + missing_file_findings(
            dir@,
            rv.subrange(i as int, rv.len() as int),
            present@.subrange(i as int, present@.len() as int),
        ) =~= mid + missing_file_findings(dir@, rest, prest));
    }
    assert(rv.subrange(rv.len() as int, rv.len() as int) =~= Seq::<(Seq<char>, Seq<char>)>::empty());
    assert(findings_view(errors@) =~= init + missing_file_findings(dir@, rv, present@));
}

// ---------------------------------------------------------------------
// Composition references against an asset manifest.
// ---------------------------------------------------------------------

/// The (errors, warnings) for the references `refs` of the composition
/// at `comp_path` against the manifest members `assets` (absent when the
/// manifest has no `assets` object): an unknown id is an error, a known
/// one gets its `coverage`.
pub open spec fn reference_findings(
    assets: Option<Seq<(String, Json)>>,
    refs: Seq<(Seq<char>, Seq<char>)>,
    comp_path: Seq<char>,
) -> (Seq<(Seq<char>, Seq<char>)>, Seq<(Seq<char>, Seq<char>)>)
    decreases refs.len(),
{
    if refs.len() == 0 {
        (Seq::empty(), Seq::empty())
    } else {
        let rest = reference_findings(assets, refs.subrange(1, refs.len() as int), comp_path);
        let (id, ptr) = refs[0];
        let entry = match assets {
            Some(es) => member(es, id),
            None => None,
        };
        match entry {
            None => (
                seq![
                    (
                        ptr,
                        "composition.yaml at "@ + comp_path + " references unknown asset id `"@
                            + id + "`"@,
                    ),
                ] + rest.0,
                rest.1,
            ),
            Some(e) => (coverage(id, e).0 + rest.0, coverage(id, e).1 + rest.1),
        }
    }
}

/// Append the findings of `reference_findings`.
pub fn push_reference_findings(
    assets: Option<&Vec<(String, Json)>>,
    refs: &Vec<AssetRef>,
    comp_path: &str,
    errors: &mut Vec<Finding>,
    warnings: &mut Vec<Finding>,
)
    ensures
        ({
            let a = match assets {
                Some(es) => Some(es@),
                None => None,
            };
            &&& findings_view(final(errors)@) == findings_view(old(errors)@) + reference_findings(
                a,
                refs_view(refs@),
                comp_path@,
            ).0
            &&& findings_view(final(warnings)@) == findings_view(old(warnings)@)
                + reference_findings(a, refs_view(refs@), comp_path@).1
        }),
{
    let ghost a = match assets {
        Some(es) => Some(es@),
        None => None,
    };
    let ghost rv = refs_view(refs@);
    let ghost e0 = findings_view(errors@);
    let ghost w0 = findings_view(warnings@);
    let mut i: usize = 0;
    assert(rv.subrange(0, rv.len() as int) =~= rv);
    while i < refs.len()
        invariant
            i <= refs@.len(),
            rv == refs_view(refs@),
            a == match assets {
                Some(es) => Some(es@),
                None => None::<Seq<(String, Json)>>,
            },
            findings_view(errors@) + reference_findings(a, rv.subrange(i as int, rv.len() as int), comp_path@).0
                == e0 + reference_findings(a, rv, comp_path@).0,
            findings_view(warnings@) + reference_findings(a, rv.subrange(i as int, rv.len() as int), comp_path@).1
                == w0 + reference_findings(a, rv, comp_path@).1,
        decreases refs@.len() - i,
    {
        let ghost rest = rv.subrange(i as int, rv.len() as int);
        assert(rest.subrange(1, rest.len() as int) =~= rv.subrange(i + 1, rv.len() as int));
        assert(rest[0] == rv[i as int]);
        let ghost me = findings_view(errors@);
        let ghost mw = findings_view(warnings@);
        let entry = match assets {
            Some(es) => member_of(es, refs[i].id.as_str()),
            None => None,
        };
        match entry {
            None => {
                let mut msg = owned("composition.yaml at ");
                msg.append(comp_path);
                msg.append(" references unknown asset id `");
                msg.append(refs[i].id.as_str());
                msg.append("`");
                push_finding(errors, refs[i].path.clone(), msg);
            },
            Some(e) => {
                check_platform_coverage(refs[i].id.as_str(), e, errors, warnings);
            },
        }
        i = i + 1;
        assert(findings_view(errors@) + reference_findings(a, rv.subrange(i as int, rv.len() as int), comp_path@).0
            =~= me + reference_findings(a, rest, comp_path@).0);
        assert(findings_view(warnings@) + reference_findings(a, rv.subrange(i as int, rv.len() as int), comp_path@).1
            =~= mw + reference_findings(a, rest, comp_path@).1);
    }
    assert(rv.subrange(rv.len() as int, rv.len() as int) =~= Seq::<(Seq<char>, Seq<char>)>::empty());
    assert(findings_view(errors@) =~= e0 + reference_findings(a, rv, comp_path@).0);
    assert(findings_view(warnings@) =~= w0 + reference_findings(a, rv, comp_path@).1);
}

} // verus!
