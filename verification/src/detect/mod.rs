//! What the platform detectors decide once the operating system has been
//! asked: who is using the microphone or camera, named and filtered.

pub mod linux;
pub mod macos;
pub mod windows;

use vstd::prelude::*;
use crate::config::{ignores, ignores_name, lemma_string_views_push, string_views};

verus! {

/// `s` with every item that occurred earlier removed, keeping the order of
/// first occurrences.
pub open spec fn dedup_view(s: Seq<Seq<char>>) -> Seq<Seq<char>>
    decreases s.len(),
{
    if s.len() == 0 {
        Seq::empty()
    } else {
        let d = dedup_view(s.drop_last());
        if d.contains(s.last()) {
            d
        } else {
            d.push(s.last())
        }
    }
}

/// Removes repeated names, keeping the first occurrence of each, in order.
pub fn dedup(v: Vec<String>) -> (res: Vec<String>)
    ensures
        string_views(res@) == dedup_view(string_views(v@)),
{
    let ghost views = string_views(v@);
    let mut out: Vec<String> = Vec::new();
    let mut i: usize = 0;
    while i < v.len()
        invariant
            i <= v.len(),
            views == string_views(v@),
            string_views(out@) == dedup_view(views.take(i as int)),
        decreases v.len() - i,
    {
        let ghost t = views.take(i + 1);
        assert(t.drop_last() =~= views.take(i as int));
        assert(t.last() == v@[i as int]@);
        let mut seen = false;
        let mut j: usize = 0;
        while j < out.len()
            invariant
                i < v.len(),
                j <= out.len(),
                seen == exists|k: int| 0 <= k < j && out@[k]@ == v@[i as int]@,
            decreases out.len() - j,
        {
            if out[j] == v[i] {
                seen = true;
            }
            j = j + 1;
        }
        proof {
            let d = string_views(out@);
            if seen {
                let k = choose|k: int| 0 <= k < out.len() && out@[k]@ == v@[i as int]@;
                assert(d[k] == t.last());
            } else {
                assert(!d.contains(t.last())) by {
                    if d.contains(t.last()) {
                        let k = choose|k: int| 0 <= k < d.len() && d[k] == t.last();
                        assert(out@[k]@ == v@[i as int]@);
                    }
                }
            }
        }
        if !seen {
            let ghost before = out@;
            let s = v[i].clone();
            out.push(s);
            proof {
                lemma_string_views_push(before, s);
            }
        }
        i = i + 1;
    }
    assert(views.take(v.len() as int) =~= views);
    out
}

/// A deduplicated list holds each item at most once.
pub proof fn law_dedup_distinct(s: Seq<Seq<char>>)
    ensures
        forall|i: int, j: int|
            0 <= i < j < dedup_view(s).len() ==> dedup_view(s)[i] != dedup_view(s)[j],
    decreases s.len(),
{
    if s.len() > 0 {
        let p = s.drop_last();
        law_dedup_distinct(p);
        let d = dedup_view(p);
        if !d.contains(s.last()) {
            let e = d.push(s.last());
            assert(dedup_view(s) == e);
            assert forall|i: int, j: int| 0 <= i < j < e.len() implies e[i] != e[j] by {
                if j == d.len() {
                    if e[i] == e[j] {
                        assert(d[i] == s.last());
                        assert(d.contains(s.last()));
                    }
                } else {
                    assert(e[i] == d[i] && e[j] == d[j]);
                }
            }
        }
    }
}

/// A deduplicated list holds exactly the items of the list it came from.
pub proof fn law_dedup_same_items(s: Seq<Seq<char>>, x: Seq<char>)
    ensures
        dedup_view(s).contains(x) <==> s.contains(x),
    decreases s.len(),
{
    if s.len() > 0 {
        let p = s.drop_last();
        law_dedup_same_items(p, x);
        let d = dedup_view(p);
        assert(s.contains(x) <==> (p.contains(x) || x == s.last())) by {
            if s.contains(x) && x != s.last() {
                let k = choose|k: int| 0 <= k < s.len() && s[k] == x;
                assert(k < s.len() - 1);
                assert(p[k] == x);
            }
            if p.contains(x) {
                let k = choose|k: int| 0 <= k < p.len() && p[k] == x;
                assert(s[k] == x);
            }
            if x == s.last() {
                assert(s[s.len() - 1] == x);
            }
        }
        if d.contains(s.last()) {
            assert(dedup_view(s) == d);
        } else {
            let e = d.push(s.last());
            assert(dedup_view(s) == e);
            assert(e.contains(x) <==> (d.contains(x) || x == s.last())) by {
                if e.contains(x) && x != s.last() {
                    let k = choose|k: int| 0 <= k < e.len() && e[k] == x;
                    assert(k < d.len());
                    assert(d[k] == x);
                }
                if d.contains(x) {
                    let k = choose|k: int| 0 <= k < d.len() && d[k] == x;
                    assert(e[k] == x);
                }
                if x == s.last() {
                    assert(e[d.len() as int] == x);
                }
            }
        }
    }
}

/// Removing repeats from a list that has none changes nothing.
pub proof fn law_dedup_idempotent(s: Seq<Seq<char>>)
    ensures
        dedup_view(dedup_view(s)) == dedup_view(s),
{
    law_dedup_distinct(s);
    law_dedup_of_distinct(dedup_view(s));
}

/// A list with no repeats is its own deduplication.
pub proof fn law_dedup_of_distinct(s: Seq<Seq<char>>)
    requires
        forall|i: int, j: int| 0 <= i < j < s.len() ==> s[i] != s[j],
    ensures
        dedup_view(s) == s,
    decreases s.len(),
{
    if s.len() > 0 {
        let p = s.drop_last();
        assert forall|i: int, j: int| 0 <= i < j < p.len() implies p[i] != p[j] by {
            assert(p[i] == s[i] && p[j] == s[j]);
        }
        law_dedup_of_distinct(p);
        assert(!p.contains(s.last())) by {
            if p.contains(s.last()) {
                let k = choose|k: int| 0 <= k < p.len() && p[k] == s.last();
                assert(s[k] == s[s.len() - 1]);
            }
        }
        assert(p.push(s.last()) =~= s);
    }
}

/// The items of `names` that `list` does not ignore, in order.
pub open spec fn not_ignored(list: Seq<Seq<char>>, names: Seq<Seq<char>>) -> Seq<Seq<char>>
    decreases names.len(),
{
    if names.len() == 0 {
        Seq::empty()
    } else {
        let rest = not_ignored(list, names.drop_last());
        if ignores(list, names.last()) {
            rest
        } else {
            rest.push(names.last())
        }
    }
}

/// Keeps the names that `list` does not ignore.
pub fn keep_not_ignored(list: &Vec<String>, names: Vec<String>) -> (res: Vec<String>)
    ensures
        string_views(res@) == not_ignored(string_views(list@), string_views(names@)),
{
    let ghost views = string_views(names@);
    let mut out: Vec<String> = Vec::new();
    let mut i: usize = 0;
    while i < names.len()
        invariant
            i <= names.len(),
            views == string_views(names@),
            string_views(out@) == not_ignored(string_views(list@), views.take(i as int)),
        decreases names.len() - i,
    {
        assert(views.take(i + 1).drop_last() =~= views.take(i as int));
        let probe = ignores_name(list, names[i].as_str());
        if !probe {
            let ghost before = out@;
            let s = names[i].clone();
            out.push(s);
            proof {
                lemma_string_views_push(before, s);
            }
        }
        i = i + 1;
    }
    assert(views.take(names.len() as int) =~= views);
    out
}

} // verus!
