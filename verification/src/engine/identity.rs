//! The structural-identity rule: every base instance of one
//! `component: <slug>` group carries the same skeleton.
//!
//! A skeleton keeps what shapes a group (the kinds of its children, how
//! groups nest, which `*-when` keys are present) and drops wiring (bound
//! fields, events, condition values, text).

use vstd::prelude::*;

use crate::engine::layout::{is_when_key, when_key};
use crate::json::{
    child_index, child_index_of, child_key, child_key_of, findings_view, get_str, push_finding,
    Finding, Json,
};
use crate::text::{chars_of, owned, str_eq};

verus! {

// ---------------------------------------------------------------------
// Ordering of names.
// ---------------------------------------------------------------------

/// Strict lexicographic order on character sequences, by code point.
/// For Rust strings this is the order of `String`'s `Ord` (UTF-8 byte
/// order and code point order agree).
pub open spec fn lex_lt(a: Seq<char>, b: Seq<char>) -> bool
    decreases a.len(),
{
    if a.len() == 0 {
        b.len() > 0
    } else if b.len() == 0 {
        false
    } else if a[0] != b[0] {
        (a[0] as u32) < (b[0] as u32)
    } else {
        lex_lt(a.subrange(1, a.len() as int), b.subrange(1, b.len() as int))
    }
}

/// Executable `lex_lt`.
pub fn str_lt(a: &str, b: &str) -> (r: bool)
    ensures
        r == lex_lt(a@, b@),
{
    let x = chars_of(a);
    let y = chars_of(b);
    let mut i: usize = 0;
    assert(a@.subrange(0, a@.len() as int) =~= a@);
    assert(b@.subrange(0, b@.len() as int) =~= b@);
    while i < x.len() && i < y.len() && x[i] == y[i]
        invariant
            i <= x@.len(),
            i <= y@.len(),
            x@ == a@,
            y@ == b@,
            lex_lt(a@, b@) == lex_lt(
                a@.subrange(i as int, a@.len() as int),
                b@.subrange(i as int, b@.len() as int),
            ),
        decreases x@.len() - i,
    {
        let ghost xa = a@.subrange(i as int, a@.len() as int);
        let ghost yb = b@.subrange(i as int, b@.len() as int);
        assert(xa.subrange(1, xa.len() as int) =~= a@.subrange(i + 1, a@.len() as int));
        assert(yb.subrange(1, yb.len() as int) =~= b@.subrange(i + 1, b@.len() as int));
        i = i + 1;
    }
    if i == x.len() {
        i < y.len()
    } else if i == y.len() {
        false
    } else {
        (x[i] as u32) < (y[i] as u32)
    }
}

/// Insert `x` into the ascending, duplicate-free `s`, keeping it so.
pub open spec fn insert_sorted(s: Seq<Seq<char>>, x: Seq<char>) -> Seq<Seq<char>>
    decreases s.len(),
{
    if s.len() == 0 {
        seq![x]
    } else if s[0] == x {
        s
    } else if lex_lt(s[0], x) {
        seq![s[0]] + insert_sorted(s.subrange(1, s.len() as int), x)
    } else {
        seq![x] + s
    }
}

/// The distinct names of `s`, in ascending order.
pub open spec fn sort_dedup(s: Seq<Seq<char>>) -> Seq<Seq<char>>
    decreases s.len(),
{
    if s.len() == 0 {
        Seq::empty()
    } else {
        insert_sorted(sort_dedup(s.drop_last()), s.last())
    }
}

/// The character views of a list of strings.
pub open spec fn names_view(v: Seq<String>) -> Seq<Seq<char>> {
    v.map_values(|s: String| s@)
}

proof fn lemma_insert_skip(s: Seq<Seq<char>>, x: Seq<char>, i: int)
    requires
        0 <= i <= s.len(),
        forall|k: int| 0 <= k < i ==> s[k] != x && lex_lt(#[trigger] s[k], x),
    ensures
        insert_sorted(s, x) == s.subrange(0, i) + insert_sorted(s.subrange(i, s.len() as int), x),
    decreases i,
{
    if i == 0 {
        assert(s.subrange(0, 0) + insert_sorted(s.subrange(0, s.len() as int), x) =~= insert_sorted(
            s,
            x,
        )) by {
            assert(s.subrange(0, s.len() as int) =~= s);
        }
    } else {
        let t = s.subrange(1, s.len() as int);
        assert(s[0] != x && lex_lt(s[0], x));
        lemma_insert_skip(t, x, i - 1);
        assert(t.subrange(i - 1, t.len() as int) =~= s.subrange(i, s.len() as int));
        assert(s.subrange(0, i) =~= seq![s[0]] + t.subrange(0, i - 1));
        assert(insert_sorted(s, x) =~= s.subrange(0, i) + insert_sorted(
            s.subrange(i, s.len() as int),
            x,
        ));
    }
}

/// Insert `x` into the ascending, duplicate-free list `v`.
pub fn insert_sorted_name(v: &mut Vec<String>, x: &str)
    ensures
        names_view(final(v)@) == insert_sorted(names_view(old(v)@), x@),
{
    let ghost s = names_view(v@);
    let mut i: usize = 0;
    while i < v.len() && !str_eq(v[i].as_str(), x) && str_lt(v[i].as_str(), x)
        invariant
            i <= v@.len(),
            s == names_view(v@),
            forall|k: int| 0 <= k < i ==> s[k] != x@ && lex_lt(#[trigger] s[k], x@),
        decreases v@.len() - i,
    {
        i = i + 1;
    }
    proof {
        lemma_insert_skip(s, x@, i as int);
    }
    if i == v.len() {
        v.push(owned(x));
        assert(names_view(v@) =~= s.subrange(0, i as int) + seq![x@]);
    } else if str_eq(v[i].as_str(), x) {
        let ghost rest = s.subrange(i as int, s.len() as int);
        assert(rest[0] == x@);
        assert(s.subrange(0, i as int) + rest =~= s);
    } else {
        let ghost rest = s.subrange(i as int, s.len() as int);
        assert(rest[0] == s[i as int]);
        v.insert(i, owned(x));
        assert(names_view(v@) =~= s.subrange(0, i as int) + (seq![x@] + rest));
    }
}


/// Are two name lists the same?
pub fn names_eq(a: &Vec<String>, b: &Vec<String>) -> (r: bool)
    ensures
        r == (names_view(a@) == names_view(b@)),
{
    if a.len() != b.len() {
        assert(names_view(a@).len() != names_view(b@).len());
        return false;
    }
    let mut i: usize = 0;
    while i < a.len()
        invariant
            i <= a@.len(),
            a@.len() == b@.len(),
            forall|k: int| 0 <= k < i ==> a@[k]@ == b@[k]@,
        decreases a@.len() - i,
    {
        if !str_eq(a[i].as_str(), b[i].as_str()) {
            assert(names_view(a@)[i as int] != names_view(b@)[i as int]);
            return false;
        }
        i = i + 1;
    }
    assert(names_view(a@) =~= names_view(b@));
    true
}

// ---------------------------------------------------------------------
// Skeletons.
// ---------------------------------------------------------------------

/// The skeleton of a content node or of a group.
pub enum Skel {
    /// A leaf item, known by its single key (`text`, `checkbox`, ...).
    Item(Seq<char>),
    /// A group: the ascending, distinct `*-when` keys present on it, and
    /// the skeletons of its children in order.
    Group(Seq<Seq<char>>, Seq<Skel>),
}

/// The `*-when` keys among an object's members, in member order.
pub open spec fn when_names(es: Seq<(String, Json)>) -> Seq<Seq<char>>
    decreases es.len(),
{
    if es.len() == 0 {
        Seq::empty()
    } else {
        when_names(es.drop_last()) + if is_when_key(es.last().0@) {
            seq![es.last().0@]
        } else {
            Seq::empty()
        }
    }
}

/// The sorted, distinct `*-when` keys of a group's properties (none when
/// they are not an object).
pub open spec fn when_keys_of(g: Json) -> Seq<Seq<char>> {
    match g {
        Json::Object(es) => sort_dedup(when_names(es@)),
        _ => Seq::empty(),
    }
}

/// The skeleton of a group's properties: its `*-when` keys and the
/// skeletons of the members of its `items` array (none when `items` is
/// missing or not an array).
pub open spec fn group_skel(g: Json) -> Skel
    decreases g,
{
    Skel::Group(
        when_keys_of(g),
        match g {
            Json::Object(es) => items_member_skel(es@),
            _ => Seq::empty(),
        },
    )
}

/// The children's skeletons of the first member named `items`.
pub open spec fn items_member_skel(es: Seq<(String, Json)>) -> Seq<Skel>
    decreases es,
{
    if es.len() == 0 {
        Seq::empty()
    } else if es[0].0@ == "items"@ {
        match es[0].1 {
            Json::Array(xs) => items_skel(xs@),
            _ => Seq::empty(),
        }
    } else {
        items_member_skel(es.subrange(1, es.len() as int))
    }
}

/// The skeletons of a list of content nodes.
pub open spec fn items_skel(xs: Seq<Json>) -> Seq<Skel>
    decreases xs,
{
    if xs.len() == 0 {
        Seq::empty()
    } else {
        seq![node_skel(xs[0])] + items_skel(xs.subrange(1, xs.len() as int))
    }
}

/// The skeleton of a content node: a one-member object `{group: ...}` is
/// a nested group; any other one-member object is an item of its key;
/// every other shape is the item `<unknown>`.
pub open spec fn node_skel(n: Json) -> Skel
    decreases n,
{
    match n {
        Json::Object(es) => if es@.len() != 1 {
            Skel::Item("<unknown>"@)
        } else if es@[0].0@ == "group"@ {
            group_skel(es@[0].1)
        } else {
            Skel::Item(es@[0].0@)
        },
        _ => Skel::Item("<unknown>"@),
    }
}

/// The children part of a group's skeleton.
pub open spec fn group_items(g: Json) -> Seq<Skel> {
    match g {
        Json::Object(es) => items_member_skel(es@),
        _ => Seq::empty(),
    }
}

/// The item name of a content node that is not a nested group.
pub open spec fn node_item(n: Json) -> Seq<char> {
    match n {
        Json::Object(es) => if es@.len() == 1 && es@[0].0@ != "group"@ {
            es@[0].0@
        } else {
            "<unknown>"@
        },
        _ => "<unknown>"@,
    }
}

proof fn lemma_items_skel(xs: Seq<Json>)
    ensures
        items_skel(xs).len() == xs.len(),
        forall|k: int| 0 <= k < xs.len() ==> #[trigger] items_skel(xs)[k] == node_skel(xs[k]),
    decreases xs.len(),
{
    if xs.len() > 0 {
        let t = xs.subrange(1, xs.len() as int);
        lemma_items_skel(t);
        assert forall|k: int| 0 <= k < xs.len() implies #[trigger] items_skel(xs)[k] == node_skel(
            xs[k],
        ) by {
            if k > 0 {
                assert(t[k - 1] == xs[k]);
            }
        }
    }
}

/// The sorted, distinct `*-when` keys of a group's properties.
pub fn when_keys_vec(g: &Json) -> (r: Vec<String>)
    ensures
        names_view(r@) == when_keys_of(*g),
{
    let mut out: Vec<String> = Vec::new();
    match g {
        Json::Object(es) => {
            let mut i: usize = 0;
            assert(es@.subrange(0, 0) =~= Seq::<(String, Json)>::empty());
            assert(names_view(out@) =~= Seq::<Seq<char>>::empty());
            while i < es.len()
                invariant
                    i <= es@.len(),
                    names_view(out@) == sort_dedup(when_names(es@.subrange(0, i as int))),
                decreases es@.len() - i,
            {
                let ghost pre = es@.subrange(0, i as int);
                let ghost post = es@.subrange(0, i + 1);
                assert(post.drop_last() =~= pre);
                if when_key(es[i].0.as_str()) {
                    insert_sorted_name(&mut out, es[i].0.as_str());
                    assert(when_names(post) =~= when_names(pre).push(es@[i as int].0@));
                    assert(when_names(post).drop_last() =~= when_names(pre));
                } else {
                    assert(when_names(post) =~= when_names(pre));
                }
                i = i + 1;
            }
            assert(es@.subrange(0, es@.len() as int) =~= es@);
        },
        _ => {
            assert(names_view(out@) =~= Seq::<Seq<char>>::empty());
        },
    }
    out
}

/// The position of the first `items` member, when it holds an array.
pub fn items_position(es: &Vec<(String, Json)>) -> (r: Option<usize>)
    ensures
        match r {
            Some(k) => k < es@.len() && es@[k as int].1 is Array && items_member_skel(es@)
                == items_skel(es@[k as int].1->Array_0@),
            None => items_member_skel(es@) == Seq::<Skel>::empty(),
        },
{
    let mut i: usize = 0;
    assert(es@.subrange(0, es@.len() as int) =~= es@);
    while i < es.len()
        invariant
            i <= es@.len(),
            items_member_skel(es@) == items_member_skel(es@.subrange(i as int, es@.len() as int)),
        decreases es@.len() - i,
    {
        let ghost rest = es@.subrange(i as int, es@.len() as int);
        assert(rest.subrange(1, rest.len() as int) =~= es@.subrange(i + 1, es@.len() as int));
        assert(rest[0] == es@[i as int]);
        if str_eq(es[i].0.as_str(), "items") {
            match &es[i].1 {
                Json::Array(_) => {
                    return Some(i);
                },
                _ => {
                    return None;
                },
            }
        }
        i = i + 1;
    }
    None
}

/// The nested group properties of a `{group: ...}` content node.
pub fn group_child(n: &Json) -> (r: Option<&Json>)
    ensures
        match r {
            Some(g) => *n is Object && n->Object_0@.len() == 1 && n->Object_0@[0].1 == *g
                && node_skel(*n) == group_skel(*g),
            None => node_skel(*n) == Skel::Item(node_item(*n)),
        },
{
    match n {
        Json::Object(es) => {
            if es.len() == 1 && str_eq(es[0].0.as_str(), "group") {
                Some(&es[0].1)
            } else {
                None
            }
        },
        _ => None,
    }
}

/// The item name of a content node that is not a nested group.
pub fn node_item_name(n: &Json) -> (r: String)
    ensures
        r@ == node_item(*n),
{
    match n {
        Json::Object(es) => {
            if es.len() == 1 && !str_eq(es[0].0.as_str(), "group") {
                es[0].0.clone()
            } else {
                owned("<unknown>")
            }
        },
        _ => owned("<unknown>"),
    }
}

/// Do two content nodes have the same skeleton?
pub fn same_node_skel(x: &Json, y: &Json) -> (r: bool)
    ensures
        r == (node_skel(*x) == node_skel(*y)),
    decreases *x, 1nat,
{
    match (group_child(x), group_child(y)) {
        (Some(g), Some(h)) => {
            proof {
                assert(decreases_to!(*x => (*x)->Object_0));
                assert(decreases_to!((*x)->Object_0 => (*x)->Object_0@));
                assert(decreases_to!((*x)->Object_0@ => (*x)->Object_0@[0]));
                assert(decreases_to!((*x)->Object_0@[0] => (*x)->Object_0@[0].1));
            }
            same_group_skel(g, h)
        },
        (None, None) => {
            let a = node_item_name(x);
            let b = node_item_name(y);
            str_eq(a.as_str(), b.as_str())
        },
        _ => false,
    }
}

/// Do two groups' properties have the same skeleton?
pub fn same_group_skel(a: &Json, b: &Json) -> (r: bool)
    ensures
        r == (group_skel(*a) == group_skel(*b)),
    decreases *a, 0nat,
{
    let wa = when_keys_vec(a);
    let wb = when_keys_vec(b);
    if !names_eq(&wa, &wb) {
        return false;
    }
    let empty: Vec<Json> = Vec::new();
    let mut xa: &Vec<Json> = &empty;
    let mut xb: &Vec<Json> = &empty;
    let ghost mut ka: int = -1;
    match a {
        Json::Object(es) => match items_position(es) {
            Some(k) => {
                match &es[k].1 {
                    Json::Array(xs) => {
                        xa = xs;
                    },
                    _ => {},
                }
                proof {
                    ka = k as int;
                }
            },
            None => {},
        },
        _ => {},
    }
    match b {
        Json::Object(es) => match items_position(es) {
            Some(k) => match &es[k].1 {
                Json::Array(xs) => {
                    xb = xs;
                },
                _ => {},
            },
            None => {},
        },
        _ => {},
    }
    assert(group_items(*a) == items_skel(xa@));
    assert(group_items(*b) == items_skel(xb@));
    proof {
        lemma_items_skel(xa@);
        lemma_items_skel(xb@);
    }
    if xa.len() != xb.len() {
        assert(group_items(*a).len() != group_items(*b).len());
        return false;
    }
    let mut i: usize = 0;
    while i < xa.len()
        invariant
            i <= xa@.len(),
            xa@.len() == xb@.len(),
            ka == -1 ==> xa@.len() == 0,
            ka != -1 ==> (*a is Object && 0 <= ka < a->Object_0@.len() && a->Object_0@[ka].1
                == Json::Array(*xa)),
            forall|k: int| 0 <= k < i ==> node_skel(xa@[k]) == node_skel(xb@[k]),
            items_skel(xa@).len() == xa@.len(),
            items_skel(xb@).len() == xb@.len(),
            forall|k: int| 0 <= k < xa@.len() ==> #[trigger] items_skel(xa@)[k] == node_skel(xa@[k]),
            forall|k: int| 0 <= k < xb@.len() ==> #[trigger] items_skel(xb@)[k] == node_skel(xb@[k]),
            group_items(*a) == items_skel(xa@),
            group_items(*b) == items_skel(xb@),
            when_keys_of(*a) == when_keys_of(*b),
        decreases xa@.len() - i,
    {
        proof {
            assert(ka != -1);
            let es = a->Object_0;
            assert(decreases_to!(*a => es));
            assert(decreases_to!(es => es@));
            assert(decreases_to!(es@ => es@[ka]));
            assert(decreases_to!(es@[ka] => es@[ka].1));
            assert(decreases_to!(es@[ka].1 => (es@[ka].1)->Array_0));
            assert(decreases_to!(*xa => xa@));
            assert(decreases_to!(xa@ => xa@[i as int]));
        }
        if !same_node_skel(&xa[i], &xb[i]) {
            assert(items_skel(xa@)[i as int] != items_skel(xb@)[i as int]);
            return false;
        }
        i = i + 1;
    }
    assert(items_skel(xa@) =~= items_skel(xb@));
    true
}


// ---------------------------------------------------------------------
// Component instances.
// ---------------------------------------------------------------------

/// A recorded `component: <slug>` group: its slug, its group properties,
/// the JSON Pointer of the group, and whether it lies under a
/// `platforms` override.
pub open spec fn inst_view(i: (String, &Json, String, bool)) -> (Seq<char>, Json, Seq<char>, bool) {
    (i.0@, *i.1, i.2@, i.3)
}

/// The views of a list of recorded instances.
pub open spec fn insts_view(v: Seq<(String, &Json, String, bool)>) -> Seq<
    (Seq<char>, Json, Seq<char>, bool),
> {
    v.map_values(|i: (String, &Json, String, bool)| inst_view(i))
}

/// Every `{group: {component: <slug>, ...}}` under `node`, in document
/// order (an enclosing group before the groups nested in it). `plat`
/// tells whether `node` lies under a `platforms` member.
pub open spec fn comps(node: Json, path: Seq<char>, plat: bool) -> Seq<
    (Seq<char>, Json, Seq<char>, bool),
>
    decreases node,
{
    match node {
        Json::Object(es) => comps_members(es@, path, plat),
        Json::Array(xs) => comps_items(xs@, path, plat, 0),
        _ => Seq::empty(),
    }
}

/// `comps` over object members.
pub open spec fn comps_members(es: Seq<(String, Json)>, path: Seq<char>, plat: bool) -> Seq<
    (Seq<char>, Json, Seq<char>, bool),
>
    decreases es,
{
    if es.len() == 0 {
        Seq::empty()
    } else {
        let key = es[0].0@;
        let val = es[0].1;
        let child = child_key(path, key);
        (if key == "group"@ && get_str(val, "component"@) is Some {
            seq![(get_str(val, "component"@)->Some_0, val, child, plat)]
        } else {
            Seq::empty()
        }) + comps(val, child, plat || key == "platforms"@) + comps_members(
            es.subrange(1, es.len() as int),
            path,
            plat,
        )
    }
}

/// `comps` over array elements, the first at index `start`.
pub open spec fn comps_items(xs: Seq<Json>, path: Seq<char>, plat: bool, start: nat) -> Seq<
    (Seq<char>, Json, Seq<char>, bool),
>
    decreases xs,
{
    if xs.len() == 0 {
        Seq::empty()
    } else {
        comps(xs[0], child_index(path, start), plat) + comps_items(
            xs.subrange(1, xs.len() as int),
            path,
            plat,
            start + 1,
        )
    }
}

/// Record every component group under `node` (see `comps`).
pub fn walk_for_components<'a>(
    node: &'a Json,
    path: &str,
    plat: bool,
    out: &mut Vec<(String, &'a Json, String, bool)>,
)
    ensures
        insts_view(final(out)@) == insts_view(old(out)@) + comps(*node, path@, plat),
    decreases node,
{
    let ghost init = insts_view(out@);
    match node {
        Json::Object(es) => {
            let mut i: usize = 0;
            assert(es@.subrange(0, es@.len() as int) =~= es@);
            while i < es.len()
                invariant
                    i <= es@.len(),
                    *node == Json::Object(*es),
                    insts_view(out@) + comps_members(es@.subrange(i as int, es@.len() as int), path@, plat)
                        == init + comps_members(es@, path@, plat),
                decreases es@.len() - i,
            {
                let ghost rest = es@.subrange(i as int, es@.len() as int);
                assert(rest.subrange(1, rest.len() as int) =~= es@.subrange(i + 1, es@.len() as int));
                assert(rest[0] == es@[i as int]);
                let ghost mid = insts_view(out@);
                let key = es[i].0.as_str();
                let val = &es[i].1;
                let child = child_key_of(path, key);
                if str_eq(key, "group") {
                    match val.get_str("component") {
                        Some(slug) => {
                            let ghost before = out@;
                            out.push((slug.clone(), val, child.clone(), plat));
                            assert(insts_view(out@) =~= insts_view(before).push(
                                (slug@, *val, child@, plat),
                            ));
                        },
                        None => {},
                    }
                }
                let ghost mid2 = insts_view(out@);
                let descend = plat || str_eq(key, "platforms");
                proof {
                    assert(decreases_to!(*node => (*node)->Object_0));
                    assert(decreases_to!(*es => es@));
                    assert(decreases_to!(es@ => es@[i as int]));
                    assert(decreases_to!(es@[i as int] => es@[i as int].1));
                }
                walk_for_components(val, child.as_str(), descend, out);
                i = i + 1;
                assert(insts_view(out@) + comps_members(es@.subrange(i as int, es@.len() as int), path@, plat)
                    =~= mid + comps_members(rest, path@, plat));
            }
            assert(es@.subrange(es@.len() as int, es@.len() as int) =~= Seq::<(String, Json)>::empty());
            assert(insts_view(out@) =~= init + comps(*node, path@, plat));
        },
        Json::Array(xs) => {
            let mut i: usize = 0;
            assert(xs@.subrange(0, xs@.len() as int) =~= xs@);
            while i < xs.len()
                invariant
                    i <= xs@.len(),
                    *node == Json::Array(*xs),
                    insts_view(out@) + comps_items(xs@.subrange(i as int, xs@.len() as int), path@, plat, i as nat)
                        == init + comps_items(xs@, path@, plat, 0),
                decreases xs@.len() - i,
            {
                let ghost rest = xs@.subrange(i as int, xs@.len() as int);
                assert(rest.subrange(1, rest.len() as int) =~= xs@.subrange(i + 1, xs@.len() as int));
                assert(rest[0] == xs@[i as int]);
                let ghost mid = insts_view(out@);
                let child = child_index_of(path, i);
                proof {
                    assert(decreases_to!(*node => (*node)->Array_0));
                    assert(decreases_to!(*xs => xs@));
                    assert(decreases_to!(xs@ => xs@[i as int]));
                }
                walk_for_components(&xs[i], child.as_str(), plat, out);
                i = i + 1;
                assert(insts_view(out@) + comps_items(xs@.subrange(i as int, xs@.len() as int), path@, plat, i as nat)
                    =~= mid + comps_items(rest, path@, plat, (i - 1) as nat));
            }
            assert(xs@.subrange(xs@.len() as int, xs@.len() as int) =~= Seq::<Json>::empty());
            assert(insts_view(out@) =~= init + comps(*node, path@, plat));
        },
        _ => {
            assert(insts_view(out@) =~= init + comps(*node, path@, plat));
        },
    }
}


// ---------------------------------------------------------------------
// The rule.
// ---------------------------------------------------------------------

/// The base (non-`platforms`) instances of `slug`, in document order.
pub open spec fn base_of(insts: Seq<(Seq<char>, Json, Seq<char>, bool)>, slug: Seq<char>) -> Seq<
    (Seq<char>, Json, Seq<char>, bool),
>
    decreases insts.len(),
{
    if insts.len() == 0 {
        Seq::empty()
    } else {
        base_of(insts.drop_last(), slug) + if insts.last().0 == slug && !insts.last().3 {
            seq![insts.last()]
        } else {
            Seq::empty()
        }
    }
}

/// The error text for an instance whose skeleton differs from the
/// canonical (first) one.
pub open spec fn identity_message(slug: Seq<char>, other: Seq<char>, canonical: Seq<char>) -> Seq<
    char,
> {
    "component slug `"@ + slug + "` has a different skeleton at "@ + other
        + " than the canonical instance at "@ + canonical
        + " (structural-identity rule); slug instances may differ in `bind`, `event`, `error`, asset / token references, `*-when` condition values, and free text content but their group skeleton MUST match across all base instances"@
}

/// One finding for every base instance, after the first, whose skeleton
/// differs from the first's.
pub open spec fn mismatches(base: Seq<(Seq<char>, Json, Seq<char>, bool)>, slug: Seq<char>) -> Seq<
    (Seq<char>, Seq<char>),
>
    decreases base.len(),
{
    if base.len() <= 1 {
        Seq::empty()
    } else {
        mismatches(base.drop_last(), slug) + if group_skel(base.last().1) != group_skel(base[0].1) {
            seq![(base.last().2, identity_message(slug, base.last().2, base[0].2))]
        } else {
            Seq::empty()
        }
    }
}

/// The slugs of a list of instances.
pub open spec fn slug_names(insts: Seq<(Seq<char>, Json, Seq<char>, bool)>) -> Seq<Seq<char>> {
    insts.map_values(|i: (Seq<char>, Json, Seq<char>, bool)| i.0)
}

/// The findings for each slug of `slugs`, in that order.
pub open spec fn slugs_findings(
    slugs: Seq<Seq<char>>,
    insts: Seq<(Seq<char>, Json, Seq<char>, bool)>,
) -> Seq<(Seq<char>, Seq<char>)>
    decreases slugs.len(),
{
    if slugs.len() == 0 {
        Seq::empty()
    } else {
        slugs_findings(slugs.drop_last(), insts) + mismatches(base_of(insts, slugs.last()), slugs.last())
    }
}

/// The structural-identity findings for a list of instances: slug by
/// slug in ascending order, each mismatching base instance in document
/// order.
pub open spec fn identity_findings(insts: Seq<(Seq<char>, Json, Seq<char>, bool)>) -> Seq<
    (Seq<char>, Seq<char>),
> {
    slugs_findings(sort_dedup(slug_names(insts)), insts)
}

/// The structural-identity findings for the component groups under
/// `node` (located at `path`).
pub open spec fn structural_identity_findings(node: Json, path: Seq<char>) -> Seq<
    (Seq<char>, Seq<char>),
> {
    identity_findings(comps(node, path, false))
}

/// Report every base instance of `slug` whose skeleton differs from the
/// first base instance's.
fn push_slug_mismatches(
    insts: &Vec<(String, &Json, String, bool)>,
    slug: &str,
    errors: &mut Vec<Finding>,
)
    ensures
        findings_view(final(errors)@) == findings_view(old(errors)@) + mismatches(
            base_of(insts_view(insts@), slug@),
            slug@,
        ),
{
    let ghost iv = insts_view(insts@);
    let ghost init = findings_view(errors@);
    let mut canonical: Option<usize> = None;
    let mut j: usize = 0;
    assert(iv.subrange(0, 0) =~= Seq::<(Seq<char>, Json, Seq<char>, bool)>::empty());
    assert(findings_view(errors@) =~= init + mismatches(base_of(iv.subrange(0, 0), slug@), slug@));
    while j < insts.len()
        invariant
            j <= insts@.len(),
            iv == insts_view(insts@),
            iv.len() == insts@.len(),
            findings_view(errors@) == init + mismatches(base_of(iv.subrange(0, j as int), slug@), slug@),
            match canonical {
                None => base_of(iv.subrange(0, j as int), slug@).len() == 0,
                Some(c) => c < j && base_of(iv.subrange(0, j as int), slug@).len() > 0 && base_of(
                    iv.subrange(0, j as int),
                    slug@,
                )[0] == iv[c as int],
            },
        decreases insts@.len() - j,
    {
        let ghost pre = iv.subrange(0, j as int);
        let ghost post = iv.subrange(0, j + 1);
        assert(post.drop_last() =~= pre);
        assert(post.last() == iv[j as int]);
        let ghost bpre = base_of(pre, slug@);
        let ghost mid = findings_view(errors@);
        if str_eq(insts[j].0.as_str(), slug) && !insts[j].3 {
            let ghost bpost = base_of(post, slug@);
            assert(bpost =~= bpre.push(iv[j as int]));
            assert(bpost.drop_last() =~= bpre);
            match canonical {
                None => {
                    assert(mismatches(bpost, slug@) =~= Seq::<(Seq<char>, Seq<char>)>::empty());
                    assert(mismatches(bpre, slug@) =~= Seq::<(Seq<char>, Seq<char>)>::empty());
                    canonical = Some(j);
                },
                Some(c) => {
                    assert(bpost[0] == bpre[0]);
                    if !same_group_skel(insts[j].1, insts[c].1) {
                        let mut msg = owned("component slug `");
                        msg.append(slug);
                        msg.append("` has a different skeleton at ");
                        msg.append(insts[j].2.as_str());
                        msg.append(" than the canonical instance at ");
                        msg.append(insts[c].2.as_str());
                        msg.append(
                            " (structural-identity rule); slug instances may differ in `bind`, `event`, `error`, asset / token references, `*-when` condition values, and free text content but their group skeleton MUST match across all base instances",
                        );
                        push_finding(errors, insts[j].2.clone(), msg);
                    }
                },
            }
        } else {
            assert(base_of(post, slug@) =~= bpre);
        }
        j = j + 1;
    }
    assert(iv.subrange(0, iv.len() as int) =~= iv);
}

/// Check the structural-identity rule over the component groups under
/// `node`: base instances of one slug share one skeleton; instances
/// under a `platforms` override are exempt.
pub fn check_structural_identity(node: &Json, path: &str, errors: &mut Vec<Finding>)
    ensures
        findings_view(final(errors)@) == findings_view(old(errors)@) + structural_identity_findings(
            *node,
            path@,
        ),
{
    let mut insts: Vec<(String, &Json, String, bool)> = Vec::new();
    walk_for_components(node, path, false, &mut insts);
    assert(insts_view(insts@) =~= comps(*node, path@, false));
    let ghost iv = insts_view(insts@);
    let mut slugs: Vec<String> = Vec::new();
    let mut j: usize = 0;
    assert(slug_names(iv).subrange(0, 0) =~= Seq::<Seq<char>>::empty());
    assert(names_view(slugs@) =~= Seq::<Seq<char>>::empty());
    while j < insts.len()
        invariant
            j <= insts@.len(),
            iv == insts_view(insts@),
            names_view(slugs@) == sort_dedup(slug_names(iv).subrange(0, j as int)),
        decreases insts@.len() - j,
    {
        let ghost post = slug_names(iv).subrange(0, j + 1);
        assert(post.drop_last() =~= slug_names(iv).subrange(0, j as int));
        assert(post.last() == insts@[j as int].0@);
        insert_sorted_name(&mut slugs, insts[j].0.as_str());
        j = j + 1;
    }
    assert(slug_names(iv).subrange(0, iv.len() as int) =~= slug_names(iv));
    let ghost sv = names_view(slugs@);
    let ghost init = findings_view(errors@);
    let mut i: usize = 0;
    assert(sv.subrange(0, 0) =~= Seq::<Seq<char>>::empty());
    while i < slugs.len()
        invariant
            i <= slugs@.len(),
            sv == names_view(slugs@),
            iv == insts_view(insts@),
            findings_view(errors@) == init + slugs_findings(sv.subrange(0, i as int), iv),
        decreases slugs@.len() - i,
    {
        let ghost post = sv.subrange(0, i + 1);
        assert(post.drop_last() =~= sv.subrange(0, i as int));
        assert(post.last() == slugs@[i as int]@);
        push_slug_mismatches(&insts, slugs[i].as_str(), errors);
        i = i + 1;
    }
    assert(sv.subrange(0, sv.len() as int) =~= sv);
}


// ---------------------------------------------------------------------
// Laws.
// ---------------------------------------------------------------------

/// Every base instance of one slug has the same skeleton.
pub open spec fn uniform(insts: Seq<(Seq<char>, Json, Seq<char>, bool)>) -> bool {
    forall|i: int, j: int|
        0 <= i < insts.len() && 0 <= j < insts.len() && insts[i].0 == insts[j].0 && !insts[i].3
            && !insts[j].3 ==> group_skel(#[trigger] insts[i].1) == group_skel(#[trigger] insts[j].1)
}

proof fn lemma_base_members(insts: Seq<(Seq<char>, Json, Seq<char>, bool)>, slug: Seq<char>)
    ensures
        forall|k: int|
            0 <= k < base_of(insts, slug).len() ==> (#[trigger] base_of(insts, slug)[k]).0 == slug
                && !base_of(insts, slug)[k].3 && insts.contains(base_of(insts, slug)[k]),
    decreases insts.len(),
{
    if insts.len() > 0 {
        lemma_base_members(insts.drop_last(), slug);
        let b = base_of(insts, slug);
        let p = base_of(insts.drop_last(), slug);
        assert forall|k: int| 0 <= k < b.len() implies (#[trigger] b[k]).0 == slug && !b[k].3
            && insts.contains(b[k]) by {
            if k < p.len() {
                assert(b[k] == p[k]);
                let i = choose|i: int| 0 <= i < insts.drop_last().len() && insts.drop_last()[i] == p[k];
                assert(insts[i] == p[k]);
            } else {
                assert(b[k] == insts.last());
                assert(insts[insts.len() - 1] == insts.last());
            }
        }
    }
}

proof fn lemma_mismatches_empty(base: Seq<(Seq<char>, Json, Seq<char>, bool)>, slug: Seq<char>)
    requires
        forall|k: int| 0 <= k < base.len() ==> group_skel(#[trigger] base[k].1) == group_skel(base[0].1),
    ensures
        mismatches(base, slug).len() == 0,
    decreases base.len(),
{
    if base.len() > 1 {
        let d = base.drop_last();
        assert forall|k: int| 0 <= k < d.len() implies group_skel(#[trigger] d[k].1) == group_skel(d[0].1) by {
            assert(d[k] == base[k]);
            assert(d[0] == base[0]);
        }
        lemma_mismatches_empty(d, slug);
        assert(group_skel(base.last().1) == group_skel(base[0].1)) by {
            assert(base.last() == base[base.len() - 1]);
        }
    }
}

proof fn lemma_slugs_silent(slugs: Seq<Seq<char>>, insts: Seq<(Seq<char>, Json, Seq<char>, bool)>)
    requires
        uniform(insts),
    ensures
        slugs_findings(slugs, insts).len() == 0,
    decreases slugs.len(),
{
    if slugs.len() > 0 {
        lemma_slugs_silent(slugs.drop_last(), insts);
        let s = slugs.last();
        let b = base_of(insts, s);
        lemma_base_members(insts, s);
        if b.len() > 0 {
            assert forall|k: int| 0 <= k < b.len() implies group_skel(#[trigger] b[k].1) == group_skel(
                b[0].1,
            ) by {
                let i = choose|i: int| 0 <= i < insts.len() && insts[i] == b[k];
                let j = choose|j: int| 0 <= j < insts.len() && insts[j] == b[0];
                assert(insts[i].0 == insts[j].0 && !insts[i].3 && !insts[j].3);
                assert(group_skel(insts[i].1) == group_skel(insts[j].1));
            }
        }
        lemma_mismatches_empty(b, s);
    }
}

/// When every base instance of each component slug carries the same
/// skeleton (whatever their wiring, text or `platforms` overrides), the
/// structural-identity rule reports nothing.
pub proof fn law_uniform_components_pass(node: Json, path: Seq<char>)
    requires
        uniform(comps(node, path, false)),
    ensures
        structural_identity_findings(node, path).len() == 0,
{
    let insts = comps(node, path, false);
    lemma_slugs_silent(sort_dedup(slug_names(insts)), insts);
}

/// A slug with at most one base instance is never reported.
pub proof fn law_single_instance_is_silent(insts: Seq<(Seq<char>, Json, Seq<char>, bool)>, slug: Seq<char>)
    requires
        base_of(insts, slug).len() <= 1,
    ensures
        mismatches(base_of(insts, slug), slug).len() == 0,
{
}

} // verus!
