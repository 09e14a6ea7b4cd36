//! `validate layout`: the unwired subset. Layout documents must not carry
//! define-owned wiring keys.

use vstd::prelude::*;

use crate::json::{
    child_index, child_index_of, child_key, child_key_of, findings_view, push_finding, Finding, Json,
};
use crate::text::{chars_of, ends_with, matches_at, owned, str_eq};

verus! {

/// A key that ends with `-when` and has at least one character before
/// the suffix (a conditional visual key). The bare `when` is not one.
pub open spec fn is_when_key(key: Seq<char>) -> bool {
    ends_with(key, "-when"@) && key.len() > 5
}

/// Executable `is_when_key`.
pub fn when_key(key: &str) -> (r: bool)
    ensures
        r == is_when_key(key@),
{
    proof {
        reveal_strlit("-when");
    }
    let k = chars_of(key);
    let suffix = chars_of("-when");
    k.len() > 5 && matches_at(&k, &suffix, k.len() - 5)
}

/// The reason a key is define-owned wiring that a layout document must
/// not carry, or `None` when the key is allowed.
pub open spec fn forbidden_reason(key: Seq<char>) -> Option<Seq<char>> {
    if key == "maps_to"@ {
        Some("`maps_to` is define-owned screen-to-route wiring"@)
    } else if key == "bind"@ {
        Some("`bind` is define-owned field binding"@)
    } else if key == "event"@ {
        Some("`event` is define-owned event wiring"@)
    } else if key == "error"@ {
        Some("`error` is define-owned validation-error wiring"@)
    } else if key == "trigger"@ {
        Some("overlay `trigger` is define-owned"@)
    } else if is_when_key(key) {
        Some("conditional visual `*-when` keys are define-owned wiring"@)
    } else {
        None
    }
}

/// Executable `forbidden_reason`.
pub fn forbidden_wiring_key(key: &str) -> (r: Option<&'static str>)
    ensures
        match r {
            Some(m) => forbidden_reason(key@) == Some(m@),
            None => forbidden_reason(key@) is None,
        },
{
    if str_eq(key, "maps_to") {
        Some("`maps_to` is define-owned screen-to-route wiring")
    } else if str_eq(key, "bind") {
        Some("`bind` is define-owned field binding")
    } else if str_eq(key, "event") {
        Some("`event` is define-owned event wiring")
    } else if str_eq(key, "error") {
        Some("`error` is define-owned validation-error wiring")
    } else if str_eq(key, "trigger") {
        Some("overlay `trigger` is define-owned")
    } else if when_key(key) {
        Some("conditional visual `*-when` keys are define-owned wiring")
    } else {
        None
    }
}

/// The error text for a forbidden wiring key.
pub open spec fn unwired_message(reason: Seq<char>) -> Seq<char> {
    reason
        + " -- remove this key from layout.yaml (unwired-subset rule); wiring is added by /spec:define when it produces composition.yaml"@
}

/// Every forbidden wiring key under `node`, in document order, located
/// by JSON Pointer. Keys are matched, never values.
pub open spec fn unwired_findings(node: Json, path: Seq<char>) -> Seq<(Seq<char>, Seq<char>)>
    decreases node,
{
    match node {
        Json::Object(es) => unwired_members(es@, path),
        Json::Array(items) => unwired_items(items@, path, 0),
        _ => Seq::empty(),
    }
}

/// `unwired_findings` over object members.
pub open spec fn unwired_members(es: Seq<(String, Json)>, path: Seq<char>) -> Seq<
    (Seq<char>, Seq<char>),
>
    decreases es,
{
    if es.len() == 0 {
        Seq::empty()
    } else {
        let child = child_key(path, es[0].0@);
        (match forbidden_reason(es[0].0@) {
            Some(r) => seq![(child, unwired_message(r))],
            None => Seq::empty(),
        }) + unwired_findings(es[0].1, child) + unwired_members(es.subrange(1, es.len() as int), path)
    }
}

/// `unwired_findings` over array elements, the first at index `start`.
pub open spec fn unwired_items(items: Seq<Json>, path: Seq<char>, start: nat) -> Seq<
    (Seq<char>, Seq<char>),
>
    decreases items,
{
    if items.len() == 0 {
        Seq::empty()
    } else {
        unwired_findings(items[0], child_index(path, start)) + unwired_items(
            items.subrange(1, items.len() as int),
            path,
            start + 1,
        )
    }
}

/// Recursive walker for forbidden wiring keys (see `unwired_findings`).
pub fn walk_unwired(node: &Json, path: &str, errors: &mut Vec<Finding>)
    ensures
        findings_view(final(errors)@) == findings_view(old(errors)@) + unwired_findings(*node, path@),
    decreases node,
{
    let ghost init = findings_view(errors@);
    match node {
        Json::Object(es) => {
            let mut i: usize = 0;
            assert(es@.subrange(0, es@.len() as int) =~= es@);
            while i < es.len()
                invariant
                    i <= es@.len(),
                    *node == Json::Object(*es),
                    findings_view(errors@) + unwired_members(es@.subrange(i as int, es@.len() as int), path@)
                        == init + unwired_members(es@, path@),
                decreases es@.len() - i,
            {
                let ghost rest = es@.subrange(i as int, es@.len() as int);
                assert(rest.subrange(1, rest.len() as int) =~= es@.subrange(i + 1, es@.len() as int));
                assert(rest[0] == es@[i as int]);
                let ghost mid = findings_view(errors@);
                let child = child_key_of(path, es[i].0.as_str());
                match forbidden_wiring_key(es[i].0.as_str()) {
                    Some(reason) => {
                        let mut msg = owned(reason);
                        msg.append(
                            " -- remove this key from layout.yaml (unwired-subset rule); wiring is added by /spec:define when it produces composition.yaml",
                        );
                        push_finding(errors, child.clone(), msg);
                    },
                    None => {},
                }
                proof {
                    assert(decreases_to!(*node => (*node)->Object_0));
                    assert(decreases_to!(*es => es@));
                    assert(decreases_to!(es@ => es@[i as int]));
                    assert(decreases_to!(es@[i as int] => es@[i as int].1));
                }
                walk_unwired(&es[i].1, child.as_str(), errors);
                i = i + 1;
                assert(findings_view(errors@) + unwired_members(es@.subrange(i as int, es@.len() as int), path@)
                    =~= mid + unwired_members(rest, path@));
            }
            assert(es@.subrange(es@.len() as int, es@.len() as int) =~= Seq::<(String, Json)>::empty());
            assert(findings_view(errors@) =~= init + unwired_findings(*node, path@));
        },
        Json::Array(items) => {
            let mut i: usize = 0;
            assert(items@.subrange(0, items@.len() as int) =~= items@);
            while i < items.len()
                invariant
                    i <= items@.len(),
                    *node == Json::Array(*items),
                    findings_view(errors@) + unwired_items(
                        items@.subrange(i as int, items@.len() as int),
                        path@,
                        i as nat,
                    ) == init + unwired_items(items@, path@, 0),
                decreases items@.len() - i,
            {
                let ghost rest = items@.subrange(i as int, items@.len() as int);
                assert(rest.subrange(1, rest.len() as int) =~= items@.subrange(
                    i + 1,
                    items@.len() as int,
                ));
                assert(rest[0] == items@[i as int]);
                let ghost mid = findings_view(errors@);
                let child = child_index_of(path, i);
                proof {
                    assert(decreases_to!(*node => (*node)->Array_0));
                    assert(decreases_to!(*items => items@));
                    assert(decreases_to!(items@ => items@[i as int]));
                }
                walk_unwired(&items[i], child.as_str(), errors);
                i = i + 1;
                assert(findings_view(errors@) + unwired_items(
                    items@.subrange(i as int, items@.len() as int),
                    path@,
                    i as nat,
                ) =~= mid + unwired_items(rest, path@, (i - 1) as nat));
            }
            assert(items@.subrange(items@.len() as int, items@.len() as int) =~= Seq::<Json>::empty());
            assert(findings_view(errors@) =~= init + unwired_findings(*node, path@));
        },
        _ => {
            assert(findings_view(errors@) =~= init + unwired_findings(*node, path@));
        },
    }
}

} // verus!
