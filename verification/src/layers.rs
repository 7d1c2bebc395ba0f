//! Layered configuration: built-in defaults, then the machine-wide defaults
//! file, then the user's config, merged key by key, each later layer
//! overriding the keys it sets.
//!
//! A layer is a JSON object; its members are kept as the key and the JSON text
//! of the value. Merging works on those members; the settings are read from
//! the merged members.

use vstd::prelude::*;

verus! {

/// One member of a JSON object: its key and the JSON text of its value.
pub struct Entry {
    pub key: String,
    pub value: String,
}

/// What a layer's JSON object maps each key to (the value's JSON text);
/// a later member wins over an earlier one with the same key.
pub open spec fn entries_map(s: Seq<Entry>) -> Map<Seq<char>, Seq<char>>
    decreases s.len(),
{
    if s.len() == 0 {
        Map::empty()
    } else {
        entries_map(s.drop_last()).insert(s.last().key@, s.last().value@)
    }
}

/// No two members share a key.
pub open spec fn distinct_keys(s: Seq<Entry>) -> bool {
    forall|i: int, j: int| 0 <= i < j < s.len() ==> s[i].key@ != s[j].key@
}

/// What reading a file as a layer can give.
pub enum JsonDoc {
    /// The text is not JSON.
    Invalid,
    /// The text is JSON but not an object.
    NotObject,
    /// A JSON object and its members.
    Object(Vec<Entry>),
}

/// The mathematical value of a [`JsonDoc`].
pub enum JsonDocView {
    Invalid,
    NotObject,
    Object(Seq<(Seq<char>, Seq<char>)>),
}

/// The members of an object as key / value-text pairs.
pub open spec fn entry_pairs(s: Seq<Entry>) -> Seq<(Seq<char>, Seq<char>)> {
    s.map_values(|e: Entry| (e.key@, e.value@))
}

impl View for JsonDoc {
    type V = JsonDocView;

    open spec fn view(&self) -> JsonDocView {
        match self {
            JsonDoc::Invalid => JsonDocView::Invalid,
            JsonDoc::NotObject => JsonDocView::NotObject,
            JsonDoc::Object(v) => JsonDocView::Object(entry_pairs(v@)),
        }
    }
}

/// What `serde_json` makes of a text: not JSON, JSON that is not an object,
/// or an object with its members (each value written back as compact JSON
/// text by `Value::to_string`), in the order the object's map holds them.
pub uninterp spec fn json_layer(text: Seq<char>) -> JsonDocView;

/// Parses `text` with `serde_json::from_str::<serde_json::Value>`, and for an
/// object lists its members with each value as `Value::to_string` writes it.
/// The keys of a parsed object are distinct, as `serde_json::Map` is a map.
#[verifier::external_body]
pub fn read_layer(text: &str) -> (res: JsonDoc)
    ensures
        res@ == json_layer(text@),
        res matches JsonDoc::Object(v) ==> distinct_keys(v@),
{
    match serde_json::from_str::<serde_json::Value>(text) {
        Err(_) => JsonDoc::Invalid,
        Ok(serde_json::Value::Object(m)) => JsonDoc::Object(
            m.into_iter().map(|(key, v)| Entry { key, value: v.to_string() }).collect(),
        ),
        Ok(_) => JsonDoc::NotObject,
    }
}

// ---------------------------------------------------------------------------
// Merging
// ---------------------------------------------------------------------------

/// Replacing the value of a key that occurs once replaces it in the map.
proof fn lemma_update_entry(s: Seq<Entry>, j: int, e: Entry)
    requires
        distinct_keys(s),
        0 <= j < s.len(),
        s[j].key@ == e.key@,
    ensures
        entries_map(s.update(j, e)) == entries_map(s).insert(e.key@, e.value@),
        distinct_keys(s.update(j, e)),
    decreases s.len(),
{
    let t = s.update(j, e);
    if j == s.len() - 1 {
        assert(t.drop_last() =~= s.drop_last());
        assert(entries_map(t) =~= entries_map(s).insert(e.key@, e.value@));
    } else {
        let p = s.drop_last();
        assert(distinct_keys(p));
        lemma_update_entry(p, j, e);
        assert(t.drop_last() =~= p.update(j, e));
        assert(t.last() == s.last());
        assert(s.last().key@ != e.key@);
        assert(entries_map(t) =~= entries_map(s).insert(e.key@, e.value@));
    }
    assert forall|a: int, b: int| 0 <= a < b < t.len() implies t[a].key@ != t[b].key@ by {
        if a != j && b != j {
            assert(t[a] == s[a] && t[b] == s[b]);
        } else if a == j {
            assert(t[b] == s[b]);
        } else {
            assert(t[a] == s[a]);
        }
    }
}

/// Sets `key` to `value` in `base`: replaces the member with that key, or
/// adds one.
fn set_entry(base: &mut Vec<Entry>, e: Entry)
    requires
        distinct_keys(old(base)@),
    ensures
        distinct_keys(final(base)@),
        entries_map(final(base)@) == entries_map(old(base)@).insert(e.key@, e.value@),
{
    let mut j: usize = 0;
    while j < base.len()
        invariant
            j <= base.len(),
            base@ == old(base)@,
            distinct_keys(base@),
            forall|i: int| 0 <= i < j ==> base@[i].key@ != e.key@,
        decreases base.len() - j,
    {
        if base[j].key == e.key {
            proof {
                lemma_update_entry(base@, j as int, e);
            }
            base.set(j, e);
            return;
        }
        j = j + 1;
    }
    let ghost before = base@;
    base.push(e);
    assert(base@.drop_last() =~= before);
    assert(base@.last() == e);
    assert(entries_map(base@) == entries_map(before).insert(e.key@, e.value@));
    assert(distinct_keys(base@)) by {
        assert forall|a: int, b: int| 0 <= a < b < base@.len() implies base@[a].key@
            != base@[b].key@ by {
            if b == base@.len() - 1 {
                assert(base@[a] == before[a]);
            } else {
                assert(base@[a] == before[a] && base@[b] == before[b]);
            }
        }
    }
}

/// Merges `over` into `base` member by member: every key of `over` takes its
/// value from `over`; other keys of `base` keep theirs.
pub fn merge_into(base: &mut Vec<Entry>, over: Vec<Entry>)
    requires
        distinct_keys(old(base)@),
    ensures
        distinct_keys(final(base)@),
        entries_map(final(base)@) == entries_map(old(base)@).union_prefer_right(
            entries_map(over@),
        ),
{
    let ghost m0 = entries_map(base@);
    let ghost all = over@;
    assert(all.len() == over.len());
    let mut rest = over;
    let mut i: usize = 0;
    assert(all.take(0) =~= Seq::<Entry>::empty());
    assert(m0.union_prefer_right(Map::empty()) =~= m0);
    assert(all.skip(0) =~= all);
    while rest.len() > 0
        invariant
            i + rest@.len() == all.len(),
            all.len() <= usize::MAX,
            rest@ == all.skip(i as int),
            distinct_keys(base@),
            entries_map(base@) == m0.union_prefer_right(entries_map(all.take(i as int))),
        decreases rest.len(),
    {
        let e = rest.remove(0);
        assert(e == all[i as int]);
        assert(all.take(i + 1).drop_last() =~= all.take(i as int));
        set_entry(base, e);
        assert(m0.union_prefer_right(entries_map(all.take(i as int))).insert(e.key@, e.value@)
            =~= m0.union_prefer_right(entries_map(all.take(i + 1))));
        assert(all.skip(i + 1) =~= rest@);
        i = i + 1;
    }
    assert(all.take(i as int) =~= all);
}

// ---------------------------------------------------------------------------
// The layers together
// ---------------------------------------------------------------------------

/// What a pair list maps each key to; a later pair wins.
pub open spec fn pairs_map(p: Seq<(Seq<char>, Seq<char>)>) -> Map<Seq<char>, Seq<char>>
    decreases p.len(),
{
    if p.len() == 0 {
        Map::empty()
    } else {
        pairs_map(p.drop_last()).insert(p.last().0, p.last().1)
    }
}

/// The members a read file contributes: an object's members, or none.
pub open spec fn layer_members(doc: JsonDocView) -> Map<Seq<char>, Seq<char>> {
    match doc {
        JsonDocView::Object(p) => pairs_map(p),
        _ => Map::empty(),
    }
}

/// The members a file contributes: none when it could not be read.
pub open spec fn file_members(text: Option<Seq<char>>) -> Map<Seq<char>, Seq<char>> {
    match text {
        Some(t) => layer_members(json_layer(t)),
        None => Map::empty(),
    }
}

proof fn lemma_pairs_map(v: Seq<Entry>)
    ensures
        entries_map(v) == pairs_map(entry_pairs(v)),
    decreases v.len(),
{
    if v.len() > 0 {
        lemma_pairs_map(v.drop_last());
        assert(entry_pairs(v).drop_last() =~= entry_pairs(v.drop_last()));
    }
}

/// Three layers merged key by key, later layers winning.
pub open spec fn union_chain(
    defaults: Map<Seq<char>, Seq<char>>,
    system: Map<Seq<char>, Seq<char>>,
    user: Map<Seq<char>, Seq<char>>,
) -> Map<Seq<char>, Seq<char>> {
    defaults.union_prefer_right(system).union_prefer_right(user)
}

/// The view of an optional text.
pub open spec fn opt_view(t: Option<String>) -> Option<Seq<char>> {
    match t {
        Some(s) => Some(s@),
        None => None,
    }
}

/// The view of an optional read file.
pub open spec fn opt_doc(d: Option<JsonDoc>) -> Option<JsonDocView> {
    match d {
        Some(x) => Some(x@),
        None => None,
    }
}

/// The outcome of layering the config files.
pub struct Layered {
    /// The merged members, to read the settings from.
    pub merged: Vec<Entry>,
    /// Whether the user's config file held an object.
    pub have_user: bool,
    /// What the machine-wide defaults file held, if it could be read.
    pub system: Option<JsonDoc>,
    /// What the user's config file held, if it could be read.
    pub user: Option<JsonDoc>,
}

fn read_optional(text: &Option<String>) -> (res: Option<JsonDoc>)
    ensures
        opt_doc(res) == match opt_view(*text) {
            Some(t) => Some(json_layer(t)),
            None => None,
        },
        res matches Some(JsonDoc::Object(v)) ==> distinct_keys(v@),
{
    match text {
        Some(t) => Some(read_layer(t.as_str())),
        None => None,
    }
}

fn merge_doc(merged: &mut Vec<Entry>, doc: &Option<JsonDoc>)
    requires
        distinct_keys(old(merged)@),
    ensures
        distinct_keys(final(merged)@),
        entries_map(final(merged)@) == entries_map(old(merged)@).union_prefer_right(
            match opt_doc(*doc) {
                Some(d) => layer_members(d),
                None => Map::empty(),
            },
        ),
{
    match doc {
        Some(JsonDoc::Object(v)) => {
            let copy = copy_entries(v);
            proof {
                lemma_pairs_map(copy@);
                lemma_pairs_map(v@);
            }
            merge_into(merged, copy);
        },
        _ => {
            assert(entries_map(merged@).union_prefer_right(Map::empty()) =~= entries_map(
                merged@,
            ));
        },
    }
}

/// A copy of a member list.
pub fn copy_entries(v: &Vec<Entry>) -> (res: Vec<Entry>)
    ensures
        entry_pairs(res@) == entry_pairs(v@),
{
    let mut res: Vec<Entry> = Vec::new();
    let mut i: usize = 0;
    while i < v.len()
        invariant
            i <= v.len(),
            entry_pairs(res@) == entry_pairs(v@).take(i as int),
        decreases v.len() - i,
    {
        let k = v[i].key.clone();
        let val = v[i].value.clone();
        assert(k@ == v@[i as int].key@ && val@ == v@[i as int].value@);
        let e = Entry { key: k, value: val };
        let ghost before = res@;
        res.push(e);
        assert(res@ == before.push(e));
        assert(entry_pairs(res@) =~= entry_pairs(before).push((e.key@, e.value@)));
        assert(entry_pairs(v@).take(i + 1) =~= entry_pairs(v@).take(i as int).push(
            (v@[i as int].key@, v@[i as int].value@),
        ));
        i = i + 1;
    }
    assert(entry_pairs(v@).take(v.len() as int) =~= entry_pairs(v@));
    res
}

/// Built-in defaults (`defaults`, the built-in config as a JSON object),
/// overridden key by key by the machine-wide defaults file, overridden in
/// turn by the user's config file; each file is given as its text where it
/// could be read. A file that is not a JSON object adds nothing.
pub fn layered(defaults: &str, system: Option<String>, user: Option<String>) -> (res: Layered)
    ensures
        opt_doc(res.system) == match opt_view(system) {
            Some(t) => Some(json_layer(t)),
            None => None,
        },
        opt_doc(res.user) == match opt_view(user) {
            Some(t) => Some(json_layer(t)),
            None => None,
        },
        res.have_user == (user matches Some(t) && json_layer(t@) is Object),
        entries_map(res.merged@) == union_chain(
            layer_members(json_layer(defaults@)),
            file_members(opt_view(system)),
            file_members(opt_view(user)),
        ),
        distinct_keys(res.merged@),
{
    let mut merged: Vec<Entry> = match read_layer(defaults) {
        JsonDoc::Object(v) => {
            proof {
                lemma_pairs_map(v@);
            }
            v
        },
        _ => Vec::new(),
    };
    assert(entries_map(merged@) == layer_members(json_layer(defaults@)));
    let sys = read_optional(&system);
    merge_doc(&mut merged, &sys);
    let usr = read_optional(&user);
    merge_doc(&mut merged, &usr);
    let have_user = match &usr {
        Some(JsonDoc::Object(_)) => true,
        _ => false,
    };
    Layered { merged, have_user, system: sys, user: usr }
}

} // verus!
