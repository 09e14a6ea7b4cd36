//! Composition-mode reference resolution: typed token references against
//! a tokens manifest, static asset references against an assets manifest.

use vstd::prelude::*;

use crate::engine::assets::{collect_asset_references, refs_in, refs_view};
use crate::json::{
    as_str, child_index, child_index_of, child_key, child_key_of, findings_view, get, has_key,
    has_key_of, push_finding, Finding, Json,
};
use crate::text::{owned, str_eq};

verus! {

/// The tokens category a composition key's string value resolves
/// against: `color` / `background` → `colors`, `elevation` →
/// `elevation`, `gap` / `padding` → `spacing`, `corner_radius` →
/// `cornerRadius`.
pub open spec fn token_category(key: Seq<char>) -> Option<Seq<char>> {
    if key == "color"@ || key == "background"@ {
        Some("colors"@)
    } else if key == "elevation"@ {
        Some("elevation"@)
    } else if key == "gap"@ || key == "padding"@ {
        Some("spacing"@)
    } else if key == "corner_radius"@ {
        Some("cornerRadius"@)
    } else {
        None
    }
}

/// What a composition member that names a token is checked against:
/// `color` and `background` name `colors` tokens, `elevation` names
/// `elevation` tokens, `gap` and a text `padding` name `spacing` tokens
/// and `corner_radius` names `cornerRadius` tokens. For every such key, text value, pointer
/// and tokens document, the member's findings are exactly one error at
/// the member's pointer when `tokens.<category>` has no member of that
/// name, and none when it has.
pub proof fn law_token_keys_resolve_in_their_category(
    key: Seq<char>,
    name: String,
    child: Seq<char>,
    tokens: Json,
)
    requires
        key == "color"@ || key == "background"@ || key == "elevation"@ || key == "gap"@ || key
            == "padding"@ || key == "corner_radius"@,
    ensures
        ({
            let cat = if key == "color"@ || key == "background"@ {
                "colors"@
            } else if key == "elevation"@ {
                "elevation"@
            } else if key == "gap"@ || key == "padding"@ {
                "spacing"@
            } else {
                "cornerRadius"@
            };
            let defined = match get(tokens, cat) {
                Some(Json::Object(es)) => has_key(es@, name@),
                _ => false,
            };
            member_token_findings(key, Json::Str(name), child, tokens) == if defined {
                Seq::<(Seq<char>, Seq<char>)>::empty()
            } else {
                seq![
                    (
                        child,
                        "composition references unknown "@ + cat + " token `"@ + name@
                            + "` -- not present in tokens.yaml under `"@ + cat + "."@ + name@ + "`"@,
                    ),
                ]
            }
        }),
{
    reveal_strlit("color");
    reveal_strlit("background");
    reveal_strlit("elevation");
    reveal_strlit("gap");
    reveal_strlit("padding");
    reveal_strlit("corner_radius");
    let cat = token_category(key)->Some_0;
    assert(token_category(key) is Some);
    let c2 = if key == "color"@ || key == "background"@ {
        "colors"@
    } else if key == "elevation"@ {
        "elevation"@
    } else if key == "gap"@ || key == "padding"@ {
        "spacing"@
    } else {
        "cornerRadius"@
    };
    assert(cat == c2);
    assert(token_defined(tokens, cat, name@) == match get(tokens, c2) {
        Some(Json::Object(es)) => has_key(es@, name@),
        _ => false,
    });
    assert(member_token_findings(key, Json::Str(name), child, tokens) =~= token_check(cat, name@, child, tokens) + Seq::<(Seq<char>, Seq<char>)>::empty());
}

/// Executable `token_category`.
pub fn token_category_for_key(key: &str) -> (r: Option<&'static str>)
    ensures
        match r {
            Some(c) => token_category(key@) == Some(c@),
            None => token_category(key@) is None,
        },
{
    if str_eq(key, "color") || str_eq(key, "background") {
        Some("colors")
    } else if str_eq(key, "elevation") {
        Some("elevation")
    } else if str_eq(key, "gap") || str_eq(key, "padding") {
        Some("spacing")
    } else if str_eq(key, "corner_radius") {
        Some("cornerRadius")
    } else {
        None
    }
}

/// `tokens.<category>` is an object with a member `name`.
pub open spec fn token_defined(tokens: Json, category: Seq<char>, name: Seq<char>) -> bool {
    match get(tokens, category) {
        Some(Json::Object(es)) => has_key(es@, name),
        _ => false,
    }
}

/// The error for an unresolved token reference.
pub open spec fn token_message(category: Seq<char>, name: Seq<char>) -> Seq<char> {
    "composition references unknown "@ + category + " token `"@ + name
        + "` -- not present in tokens.yaml under `"@ + category + "."@ + name + "`"@
}

/// The finding (if any) for a reference to `name` in `category` at `ptr`.
pub open spec fn token_check(category: Seq<char>, name: Seq<char>, ptr: Seq<char>, tokens: Json) -> Seq<
    (Seq<char>, Seq<char>),
> {
    if token_defined(tokens, category, name) {
        Seq::empty()
    } else {
        seq![(ptr, token_message(category, name))]
    }
}

/// Spacing references of the sides of a `padding` object.
pub open spec fn side_refs(sides: Seq<(String, Json)>, base: Seq<char>, tokens: Json) -> Seq<
    (Seq<char>, Seq<char>),
>
    decreases sides.len(),
{
    if sides.len() == 0 {
        Seq::empty()
    } else {
        (match as_str(sides[0].1) {
            Some(name) => token_check("spacing"@, name, child_key(base, sides[0].0@), tokens),
            None => Seq::empty(),
        }) + side_refs(sides.subrange(1, sides.len() as int), base, tokens)
    }
}

/// The findings a member `key: val` at `child` carries itself.
pub open spec fn member_token_findings(key: Seq<char>, val: Json, child: Seq<char>, tokens: Json) -> Seq<
    (Seq<char>, Seq<char>),
> {
    (match (token_category(key), as_str(val)) {
        (Some(cat), Some(name)) => token_check(cat, name, child, tokens),
        _ => Seq::empty(),
    }) + (match val {
        Json::Object(sides) => if key == "padding"@ {
            side_refs(sides@, child, tokens)
        } else {
            Seq::empty()
        },
        _ => Seq::empty(),
    })
}

/// Every unresolved token reference under `node`, in document order.
pub open spec fn token_findings(node: Json, path: Seq<char>, tokens: Json) -> Seq<
    (Seq<char>, Seq<char>),
>
    decreases node,
{
    match node {
        Json::Object(es) => token_findings_members(es@, path, tokens),
        Json::Array(items) => token_findings_items(items@, path, 0, tokens),
        _ => Seq::empty(),
    }
}

/// `token_findings` over object members.
pub open spec fn token_findings_members(es: Seq<(String, Json)>, path: Seq<char>, tokens: Json) -> Seq<
    (Seq<char>, Seq<char>),
>
    decreases es,
{
    if es.len() == 0 {
        Seq::empty()
    } else {
        let child = child_key(path, es[0].0@);
        member_token_findings(es[0].0@, es[0].1, child, tokens) + token_findings(
            es[0].1,
            child,
            tokens,
        ) + token_findings_members(es.subrange(1, es.len() as int), path, tokens)
    }
}

/// `token_findings` over array elements, the first at index `start`.
pub open spec fn token_findings_items(items: Seq<Json>, path: Seq<char>, start: nat, tokens: Json) -> Seq<
    (Seq<char>, Seq<char>),
>
    decreases items,
{
    if items.len() == 0 {
        Seq::empty()
    } else {
        token_findings(items[0], child_index(path, start), tokens) + token_findings_items(
            items.subrange(1, items.len() as int),
            path,
            start + 1,
            tokens,
        )
    }
}

/// Append the finding for one reference.
fn check_token_ref(category: &str, name: &str, ptr: &str, tokens: &Json, errors: &mut Vec<Finding>)
    ensures
        findings_view(final(errors)@) == findings_view(old(errors)@) + token_check(
            category@,
            name@,
            ptr@,
            *tokens,
        ),
{
    let ghost e0 = findings_view(errors@);
    let exists = match tokens.get(category) {
        Some(Json::Object(es)) => has_key_of(es, name),
        _ => false,
    };
    if !exists {
        let mut msg = owned("composition references unknown ");
        msg.append(category);
        msg.append(" token `");
        msg.append(name);
        msg.append("` -- not present in tokens.yaml under `");
        msg.append(category);
        msg.append(".");
        msg.append(name);
        msg.append("`");
        push_finding(errors, owned(ptr), msg);
    } else {
        assert(findings_view(errors@) =~= e0 + token_check(category@, name@, ptr@, *tokens));
    }
}

/// Append the findings of `member_token_findings`.
fn push_member_token_findings(
    key: &String,
    val: &Json,
    child: &String,
    tokens: &Json,
    errors: &mut Vec<Finding>,
)
    ensures
        findings_view(final(errors)@) == findings_view(old(errors)@) + member_token_findings(
            key@,
            *val,
            child@,
            *tokens,
        ),
{
    let ghost e0 = findings_view(errors@);
    match (token_category_for_key(key.as_str()), val.as_str()) {
        (Some(cat), Some(name)) => {
            check_token_ref(cat, name.as_str(), child.as_str(), tokens, errors);
        },
        _ => {},
    }
    let ghost e1 = findings_view(errors@);
    match val {
        Json::Object(sides) => {
            if str_eq(key.as_str(), "padding") {
                let mut i: usize = 0;
                assert(sides@.subrange(0, sides@.len() as int) =~= sides@);
                while i < sides.len()
                    invariant
                        i <= sides@.len(),
                        findings_view(errors@) + side_refs(
                            sides@.subrange(i as int, sides@.len() as int),
                            child@,
                            *tokens,
                        ) == e1 + side_refs(sides@, child@, *tokens),
                    decreases sides@.len() - i,
                {
                    let ghost rest = sides@.subrange(i as int, sides@.len() as int);
                    assert(rest.subrange(1, rest.len() as int) =~= sides@.subrange(
                        i + 1,
                        sides@.len() as int,
                    ));
                    assert(rest[0] == sides@[i as int]);
                    let ghost mid = findings_view(errors@);
                    match sides[i].1.as_str() {
                        Some(name) => {
                            let side_path = child_key_of(child.as_str(), sides[i].0.as_str());
                            check_token_ref("spacing", name.as_str(), side_path.as_str(), tokens, errors);
                        },
                        None => {},
                    }
                    i = i + 1;
                    assert(findings_view(errors@) + side_refs(
                        sides@.subrange(i as int, sides@.len() as int),
                        child@,
                        *tokens,
                    ) =~= mid + side_refs(rest, child@, *tokens));
                }
                assert(sides@.subrange(sides@.len() as int, sides@.len() as int) =~= Seq::<
                    (String, Json),
                >::empty());
            }
        },
        _ => {},
    }
    assert(findings_view(errors@) =~= e0 + member_token_findings(key@, *val, child@, *tokens));
}

/// Recursive walker for unresolved token references (see
/// `token_findings`).
pub fn walk_token_refs(node: &Json, path: &str, tokens: &Json, errors: &mut Vec<Finding>)
    ensures
        findings_view(final(errors)@) == findings_view(old(errors)@) + token_findings(
            *node,
            path@,
            *tokens,
        ),
    decreases node,
{
    let ghost init = findings_view(errors@);
    match node {
        Json::Object(es) => {
            let mut i: usize = 0;
            assert(es@.subrange(0, es@.len() as int) =~= es@);
            while i < es.len()
                invariant
                    i <= es@.len(),
                    *node == Json::Object(*es),
                    findings_view(errors@) + token_findings_members(
                        es@.subrange(i as int, es@.len() as int),
                        path@,
                        *tokens,
                    ) == init + token_findings_members(es@, path@, *tokens),
                decreases es@.len() - i,
            {
                let ghost rest = es@.subrange(i as int, es@.len() as int);
                assert(rest.subrange(1, rest.len() as int) =~= es@.subrange(i + 1, es@.len() as int));
                assert(rest[0] == es@[i as int]);
                let ghost mid = findings_view(errors@);
                let child = child_key_of(path, es[i].0.as_str());
                push_member_token_findings(&es[i].0, &es[i].1, &child, tokens, errors);
                proof {
                    assert(decreases_to!(*node => (*node)->Object_0));
                    assert(decreases_to!(*es => es@));
                    assert(decreases_to!(es@ => es@[i as int]));
                    assert(decreases_to!(es@[i as int] => es@[i as int].1));
                }
                walk_token_refs(&es[i].1, child.as_str(), tokens, errors);
                i = i + 1;
                assert(findings_view(errors@) + token_findings_members(
                    es@.subrange(i as int, es@.len() as int),
                    path@,
                    *tokens,
                ) =~= mid + token_findings_members(rest, path@, *tokens));
            }
            assert(es@.subrange(es@.len() as int, es@.len() as int) =~= Seq::<(String, Json)>::empty());
            assert(findings_view(errors@) =~= init + token_findings(*node, path@, *tokens));
        },
        Json::Array(items) => {
            let mut i: usize = 0;
            assert(items@.subrange(0, items@.len() as int) =~= items@);
            while i < items.len()
                invariant
                    i <= items@.len(),
                    *node == Json::Array(*items),
                    findings_view(errors@) + token_findings_items(
                        items@.subrange(i as int, items@.len() as int),
                        path@,
                        i as nat,
                        *tokens,
                    ) == init + token_findings_items(items@, path@, 0, *tokens),
                decreases items@.len() - i,
            {
                let ghost rest = items@.subrange(i as int, items@.len() as int);
                assert(rest.subrange(1, rest.len() as int) =~= items@.subrange(
                    i + 1,
                    items@.len() as int,
                ));
                assert(rest[0] == items@[i as int]);
                let ghost mid = findings_view(errors@);
                let child = child_index_of(path, i);
                proof {
                    assert(decreases_to!(*node => (*node)->Array_0));
                    assert(decreases_to!(*items => items@));
                    assert(decreases_to!(items@ => items@[i as int]));
                }
                walk_token_refs(&items[i], child.as_str(), tokens, errors);
                i = i + 1;
                assert(findings_view(errors@) + token_findings_items(
                    items@.subrange(i as int, items@.len() as int),
                    path@,
                    i as nat,
                    *tokens,
                ) =~= mid + token_findings_items(rest, path@, (i - 1) as nat, *tokens));
            }
            assert(items@.subrange(items@.len() as int, items@.len() as int) =~= Seq::<Json>::empty());
            assert(findings_view(errors@) =~= init + token_findings(*node, path@, *tokens));
        },
        _ => {
            assert(findings_view(errors@) =~= init + token_findings(*node, path@, *tokens));
        },
    }
}

/// Every unresolved token reference of a composition document, located
/// from the document root.
pub fn resolve_token_references(composition: &Json, tokens: &Json, errors: &mut Vec<Finding>)
    ensures
        findings_view(final(errors)@) == findings_view(old(errors)@) + token_findings(
            *composition,
            Seq::empty(),
            *tokens,
        ),
{
    let root = owned("");
    proof {
        reveal_strlit("");
    }
    assert(root@ =~= Seq::<char>::empty());
    walk_token_refs(composition, root.as_str(), tokens, errors);
}

/// The asset ids an assets manifest declares (`assets` members), if its
/// `assets` member is an object.
pub open spec fn manifest_ids(assets: Json) -> Option<Seq<(String, Json)>> {
    match get(assets, "assets"@) {
        Some(Json::Object(es)) => Some(es@),
        _ => None,
    }
}

/// Errors for the static asset references whose id the manifest does
/// not declare.
pub open spec fn unknown_asset_findings(
    ids: Option<Seq<(String, Json)>>,
    refs: Seq<(Seq<char>, Seq<char>)>,
) -> Seq<(Seq<char>, Seq<char>)>
    decreases refs.len(),
{
    if refs.len() == 0 {
        Seq::empty()
    } else {
        (match ids {
            Some(es) => if has_key(es, refs[0].0) {
                Seq::empty()
            } else {
                seq![(refs[0].1, unknown_asset_message(refs[0].0))]
            },
            None => seq![(refs[0].1, unknown_asset_message(refs[0].0))],
        }) + unknown_asset_findings(ids, refs.subrange(1, refs.len() as int))
    }
}

/// The error for a static asset reference the manifest does not declare.
pub open spec fn unknown_asset_message(id: Seq<char>) -> Seq<char> {
    "composition references unknown asset id `"@ + id + "` -- not present in assets.yaml"@
}

/// Append an error for every static asset reference of `composition`
/// that the assets manifest does not declare.
pub fn resolve_asset_references(composition: &Json, assets: &Json, errors: &mut Vec<Finding>)
    ensures
        findings_view(final(errors)@) == findings_view(old(errors)@) + unknown_asset_findings(
            manifest_ids(*assets),
            refs_in(*composition, Seq::empty()),
        ),
{
    let ids = match assets.get("assets") {
        Some(Json::Object(es)) => Some(es),
        _ => None,
    };
    let refs = collect_asset_references(composition);
    let ghost rv = refs_view(refs@);
    let ghost iv = manifest_ids(*assets);
    let ghost init = findings_view(errors@);
    let mut i: usize = 0;
    assert(rv.subrange(0, rv.len() as int) =~= rv);
    while i < refs.len()
        invariant
            i <= refs@.len(),
            rv == refs_view(refs@),
            iv == match ids {
                Some(es) => Some(es@),
                None => None::<Seq<(String, Json)>>,
            },
            findings_view(errors@) + unknown_asset_findings(iv, rv.subrange(i as int, rv.len() as int))
                == init + unknown_asset_findings(iv, rv),
        decreases refs@.len() - i,
    {
        let ghost rest = rv.subrange(i as int, rv.len() as int);
        assert(rest.subrange(1, rest.len() as int) =~= rv.subrange(i + 1, rv.len() as int));
        assert(rest[0] == rv[i as int]);
        let ghost mid = findings_view(errors@);
        let known = match ids {
            Some(es) => has_key_of(es, refs[i].id.as_str()),
            None => false,
        };
        if !known {
            let mut msg = owned("composition references unknown asset id `");
            msg.append(refs[i].id.as_str());
            msg.append("` -- not present in assets.yaml");
            push_finding(errors, refs[i].path.clone(), msg);
        }
        i = i + 1;
        assert(findings_view(errors@) + unknown_asset_findings(iv, rv.subrange(i as int, rv.len() as int))
            =~= mid + unknown_asset_findings(iv, rest));
    }
    assert(rv.subrange(rv.len() as int, rv.len() as int) =~= Seq::<(Seq<char>, Seq<char>)>::empty());
    assert(findings_view(errors@) =~= init + unknown_asset_findings(iv, rv));
}

} // verus!
