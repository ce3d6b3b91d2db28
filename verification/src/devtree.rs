//! The kernel's device tree: entries with an id, a parent, named
//! properties and children, the tree the kernel starts with, and which
//! extension personalities an entry loads, at the first match over the
//! tree and when the entry changes.
//!
//! Property values are kept as text here; the values an extension match or
//! a process id would store need the extension kit's value type.

use vstd::prelude::*;
use crate::ids::IdGen;

verus! {

/// An entry of the device tree.
#[derive(Debug, Clone)]
pub struct DtEntry {
    pub id: u64,
    pub parent: Option<u64>,
    /// Property name to value, each name once.
    pub properties: Vec<(String, String)>,
    pub children: Vec<u64>,
}

/// The properties as pairs of texts.
pub open spec fn props_view(p: Seq<(String, String)>) -> Seq<(Seq<char>, Seq<char>)> {
    p.map_values(|e: (String, String)| (e.0@, e.1@))
}

/// The device tree: its entries and the generator of entry ids.
pub struct DeviceTree {
    pub entries: Vec<DtEntry>,
    pub ids: IdGen,
}

/// The tree the kernel starts with, properties named with the key
/// `name_key`: the root, entry 0, named "Root" at version "0.0.1", and its
/// one child, the product entry, which takes the first id the generator
/// hands out, 1, and has no properties.
pub open spec fn is_initial_tree(t: DeviceTree, name_key: Seq<char>) -> bool {
    &&& t.entries@.len() == 2
    &&& t.entries@[0].id == 0
    &&& t.entries@[0].parent is None
    &&& props_view(t.entries@[0].properties@) == seq![(name_key, "Root"@), ("Version"@, "0.0.1"@)]
    &&& t.entries@[0].children@ == seq![1u64]
    &&& t.entries@[1].id == 1
    &&& t.entries@[1].parent == Some(0u64)
    &&& t.entries@[1].properties@.len() == 0
    &&& t.entries@[1].children@.len() == 0
    &&& t.ids.wf()
    &&& t.ids.live() == set![1u64]
}

/// Builds the tree the kernel starts with (see `is_initial_tree`);
/// `name_key` is the key under which entries carry their names.
pub fn initial_device_tree(name_key: &str) -> (t: DeviceTree)
    ensures
        is_initial_tree(t, name_key@),
{
    let mut ids = IdGen::new();
    let product_id = ids.next();
    let mut root_props: Vec<(String, String)> = Vec::new();
    root_props.push((name_key.to_owned(), "Root".to_owned()));
    root_props.push(("Version".to_owned(), "0.0.1".to_owned()));
    let mut root_children: Vec<u64> = Vec::new();
    root_children.push(product_id);
    let root = DtEntry { id: 0, parent: None, properties: root_props, children: root_children };
    let product = DtEntry { id: product_id, parent: Some(0), properties: Vec::new(), children: Vec::new() };
    let mut entries: Vec<DtEntry> = Vec::new();
    entries.push(root);
    entries.push(product);
    proof {
        assert(props_view(entries@[0].properties@) =~= seq![(name_key@, "Root"@), ("Version"@, "0.0.1"@)]);
        assert(entries@[0].children@ =~= seq![1u64]);
        assert(ids.live() =~= set![1u64]);
    }
    DeviceTree { entries, ids }
}

/// Whether the property `(k, v)` is among `props`.
pub open spec fn has_prop(props: Seq<(Seq<char>, Seq<char>)>, k: Seq<char>, v: Seq<char>) -> bool {
    exists|j: int| 0 <= j < props.len() && #[trigger] props[j] == (k, v)
}

/// Whether every property of `a` is one of `b`, with the same value, and
/// `a` has no more properties than `b`: how an extension's personality
/// matches an entry.
pub open spec fn spec_is_subset(a: Seq<(Seq<char>, Seq<char>)>, b: Seq<(Seq<char>, Seq<char>)>) -> bool {
    &&& a.len() <= b.len()
    &&& forall|i: int| 0 <= i < a.len() ==> has_prop(b, #[trigger] a[i].0, a[i].1)
}

/// Whether the personality `a` matches the properties `b` (see `spec_is_subset`).
pub fn is_subset(a: &Vec<(String, String)>, b: &Vec<(String, String)>) -> (r: bool)
    ensures
        r == spec_is_subset(props_view(a@), props_view(b@)),
{
    if a.len() > b.len() {
        return false;
    }
    let ghost av = props_view(a@);
    let ghost bv = props_view(b@);
    let mut i: usize = 0;
    while i < a.len()
        invariant
            i <= a@.len(),
            a@.len() <= b@.len(),
            av == props_view(a@),
            bv == props_view(b@),
            forall|q: int| 0 <= q < i ==> has_prop(bv, #[trigger] av[q].0, av[q].1),
        decreases a@.len() - i,
    {
        let mut found = false;
        let mut j: usize = 0;
        while j < b.len()
            invariant
                i < a@.len(),
                j <= b@.len(),
                av == props_view(a@),
                bv == props_view(b@),
                !found ==> forall|q: int| 0 <= q < j ==> bv[q] != av[i as int],
                found ==> has_prop(bv, av[i as int].0, av[i as int].1),
            decreases b@.len() - j,
        {
            if b[j].0 == a[i].0 && b[j].1 == a[i].1 {
                proof {
                    assert(bv[j as int] == av[i as int]);
                }
                found = true;
            }
            j = j + 1;
        }
        if !found {
            proof {
                assert(!has_prop(bv, av[i as int].0, av[i as int].1)) by {
                    if has_prop(bv, av[i as int].0, av[i as int].1) {
                        let q = choose|q: int| 0 <= q < bv.len() && #[trigger] bv[q] == (av[i as int].0, av[i as int].1);
                        assert(bv[q] != av[i as int]);
                    }
                }
            }
            return false;
        }
        i = i + 1;
    }
    true
}

/// A personality of an extension: its name and the properties an entry
/// must have for the extension to drive it.
#[derive(Debug, Clone)]
pub struct Personality {
    pub name: String,
    pub matching: Vec<(String, String)>,
}

/// An extension in the kernel's cache: its identifier and personalities.
#[derive(Debug, Clone)]
pub struct Extension {
    pub identifier: String,
    pub personalities: Vec<Personality>,
}

/// Whether one of the entry's children was loaded for personality `name`
/// of extension `ident`: `attached` holds the (extension, personality)
/// pairs the children record.
pub open spec fn is_attached(attached: Seq<(String, String)>, ident: Seq<char>, name: Seq<char>) -> bool {
    exists|k: int| 0 <= k < attached.len() && #[trigger] attached[k].0@ == ident && attached[k].1@ == name
}

/// Whether personality `p` of extension `ident` is to be loaded for an
/// entry with properties `props` whose children record `attached`.
pub open spec fn loads(ident: Seq<char>, p: Personality, props: Seq<(String, String)>, attached: Seq<(String, String)>) -> bool {
    !is_attached(attached, ident, p.name@) && spec_is_subset(props_view(p.matching@), props_view(props))
}

/// The first personality of `e`, from the `j`-th on, that is to be loaded.
pub open spec fn first_to_load(e: Extension, props: Seq<(String, String)>, attached: Seq<(String, String)>, j: int) -> Option<int>
    decreases e.personalities@.len() - j,
{
    if j < 0 || j >= e.personalities@.len() {
        None
    } else if loads(e.identifier@, e.personalities@[j], props, attached) {
        Some(j)
    } else {
        first_to_load(e, props, attached, j + 1)
    }
}

/// What a change of an entry loads, extension by extension in the cache's
/// order: for the first `n` extensions, the extension and the first of its
/// personalities that is to be loaded, where there is one.
pub open spec fn change_loads(exts: Seq<Extension>, props: Seq<(String, String)>, attached: Seq<(String, String)>, n: int) -> Seq<(usize, usize)>
    decreases n,
{
    if n <= 0 {
        Seq::empty()
    } else {
        change_loads(exts, props, attached, n - 1) + match first_to_load(exts[n - 1], props, attached, 0) {
            Some(j) => seq![((n - 1) as usize, j as usize)],
            None => Seq::empty(),
        }
    }
}

/// Whether the pair `(ident, name)` is among `attached`.
fn is_attached_exec(attached: &Vec<(String, String)>, ident: &String, name: &String) -> (r: bool)
    ensures
        r == is_attached(attached@, ident@, name@),
{
    let mut k: usize = 0;
    while k < attached.len()
        invariant
            k <= attached@.len(),
            forall|q: int| 0 <= q < k ==> !(#[trigger] attached@[q].0@ == ident@ && attached@[q].1@ == name@),
        decreases attached@.len() - k,
    {
        if attached[k].0 == *ident && attached[k].1 == *name {
            return true;
        }
        k = k + 1;
    }
    false
}

/// The personalities a change of an entry with properties `props` loads
/// (see `change_loads`): `attached` holds the (extension, personality)
/// pairs its children record. The kernel spawns each extension's process
/// and files a child entry for it.
pub fn loads_on_change(exts: &Vec<Extension>, props: &Vec<(String, String)>, attached: &Vec<(String, String)>) -> (r: Vec<(usize, usize)>)
    ensures
        r@ == change_loads(exts@, props@, attached@, exts@.len() as int),
{
    let mut r: Vec<(usize, usize)> = Vec::new();
    let mut i: usize = 0;
    while i < exts.len()
        invariant
            i <= exts@.len(),
            r@ == change_loads(exts@, props@, attached@, i as int),
        decreases exts@.len() - i,
    {
        let e = &exts[i];
        let mut j: usize = 0;
        let mut found: Option<usize> = None;
        while j < e.personalities.len()
            invariant
                e == exts@[i as int],
                j <= e.personalities@.len(),
                found is None ==> first_to_load(*e, props@, attached@, 0) == first_to_load(*e, props@, attached@, j as int),
                found matches Some(f) ==> first_to_load(*e, props@, attached@, 0) == Some(f as int),
            decreases e.personalities@.len() - j,
        {
            if found.is_none() {
                let p = &e.personalities[j];
                if !is_attached_exec(attached, &e.identifier, &p.name) && is_subset(&p.matching, props) {
                    found = Some(j);
                }
            }
            j = j + 1;
        }
        match found {
            Some(f) => r.push((i, f)),
            None => {},
        }
        proof {
            assert(r@ =~= change_loads(exts@, props@, attached@, i + 1));
        }
        i = i + 1;
    }
    r
}

/// What the first match over the whole tree loads for one entry with
/// properties `props`: of the first `n` extensions, in order, every
/// personality whose properties the entry has.
pub open spec fn initial_loads(exts: Seq<Extension>, props: Seq<(String, String)>, n: int) -> Seq<(usize, usize)>
    decreases n,
{
    if n <= 0 {
        Seq::empty()
    } else {
        initial_loads(exts, props, n - 1) + personality_loads(exts[n - 1], (n - 1) as usize, props, exts[n - 1].personalities@.len() as int)
    }
}

/// The personalities among the first `m` of `e` (extension `i`) whose
/// properties the entry has.
pub open spec fn personality_loads(e: Extension, i: usize, props: Seq<(String, String)>, m: int) -> Seq<(usize, usize)>
    decreases m,
{
    if m <= 0 {
        Seq::empty()
    } else {
        personality_loads(e, i, props, m - 1) + if spec_is_subset(
            props_view(e.personalities@[m - 1].matching@),
            props_view(props),
        ) {
            seq![(i, (m - 1) as usize)]
        } else {
            Seq::empty()
        }
    }
}

/// The personalities the first match loads for an entry with properties
/// `props` (see `initial_loads`).
pub fn initial_matches(exts: &Vec<Extension>, props: &Vec<(String, String)>) -> (r: Vec<(usize, usize)>)
    ensures
        r@ == initial_loads(exts@, props@, exts@.len() as int),
{
    let mut r: Vec<(usize, usize)> = Vec::new();
    let mut i: usize = 0;
    while i < exts.len()
        invariant
            i <= exts@.len(),
            r@ == initial_loads(exts@, props@, i as int),
        decreases exts@.len() - i,
    {
        let e = &exts[i];
        let ghost before = r@;
        let mut j: usize = 0;
        while j < e.personalities.len()
            invariant
                e == exts@[i as int],
                i < exts@.len(),
                j <= e.personalities@.len(),
                r@ == before + personality_loads(*e, i, props@, j as int),
            decreases e.personalities@.len() - j,
        {
            if is_subset(&e.personalities[j].matching, props) {
                r.push((i, j));
            }
            proof {
                assert(r@ =~= before + personality_loads(*e, i, props@, j + 1));
            }
            j = j + 1;
        }
        proof {
            assert(r@ =~= initial_loads(exts@, props@, i + 1));
        }
        i = i + 1;
    }
    r
}

/// A personality counts as attached to an entry exactly when one of the
/// entry's children records both the extension's identifier and the
/// personality's name: a child of another extension with a personality of
/// the same name does not count, nor one of the same extension under
/// another personality.
pub proof fn law_attached_needs_extension_and_personality(
    attached: Seq<(String, String)>,
    ident: Seq<char>,
    name: Seq<char>,
)
    ensures
        (forall|k: int| 0 <= k < attached.len() ==> #[trigger] attached[k].0@ != ident) ==> !is_attached(
            attached,
            ident,
            name,
        ),
        (forall|k: int| 0 <= k < attached.len() ==> #[trigger] attached[k].1@ != name) ==> !is_attached(
            attached,
            ident,
            name,
        ),
        forall|k: int|
            0 <= k < attached.len() && #[trigger] attached[k].0@ == ident && attached[k].1@ == name ==> is_attached(
                attached,
                ident,
                name,
            ),
{
}

/// Whether one of `props` is named `k` with value `v`.
pub open spec fn has_text_prop(props: Seq<(String, String)>, k: Seq<char>, v: Seq<char>) -> bool {
    exists|j: int| 0 <= j < props.len() && #[trigger] props[j].0@ == k && props[j].1@ == v
}

/// When no child of the entry comes from extension `ident`, whether one
/// of its personalities loads depends on the properties alone: it loads
/// exactly when the entry has every property the personality asks for,
/// with the same value, and no fewer properties than it asks for.
pub proof fn law_unattached_extension_loads_on_match(
    ident: Seq<char>,
    p: Personality,
    props: Seq<(String, String)>,
    attached: Seq<(String, String)>,
)
    requires
        forall|k: int| 0 <= k < attached.len() ==> #[trigger] attached[k].0@ != ident,
    ensures
        loads(ident, p, props, attached) == (p.matching@.len() <= props.len() && forall|i: int|
            0 <= i < p.matching@.len() ==> has_text_prop(props, (#[trigger] p.matching@[i]).0@, p.matching@[i].1@)),
{
    let a = props_view(p.matching@);
    let b = props_view(props);
    assert forall|i: int| 0 <= i < p.matching@.len() implies (has_prop(b, #[trigger] a[i].0, a[i].1)
        <==> has_text_prop(props, p.matching@[i].0@, p.matching@[i].1@)) by {
        if has_prop(b, a[i].0, a[i].1) {
            let j = choose|j: int| 0 <= j < b.len() && #[trigger] b[j] == (a[i].0, a[i].1);
            assert(props[j].0@ == p.matching@[i].0@);
        }
        if has_text_prop(props, p.matching@[i].0@, p.matching@[i].1@) {
            let j = choose|j: int|
                0 <= j < props.len() && #[trigger] props[j].0@ == p.matching@[i].0@ && props[j].1@ == p.matching@[i].1@;
            assert(b[j] == (a[i].0, a[i].1));
        }
    }
    assert(!is_attached(attached, ident, p.name@));
    if spec_is_subset(a, b) {
        assert forall|i: int| 0 <= i < p.matching@.len() implies has_text_prop(
            props,
            (#[trigger] p.matching@[i]).0@,
            p.matching@[i].1@,
        ) by {
            assert(has_prop(b, a[i].0, a[i].1));
        }
    }
    if p.matching@.len() <= props.len() && forall|i: int|
        0 <= i < p.matching@.len() ==> has_text_prop(props, (#[trigger] p.matching@[i]).0@, p.matching@[i].1@) {
        assert forall|i: int| 0 <= i < a.len() implies has_prop(b, #[trigger] a[i].0, a[i].1) by {
            assert(has_text_prop(props, p.matching@[i].0@, p.matching@[i].1@));
        }
    }
}

} // verus!
