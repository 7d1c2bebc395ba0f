//! Windows 10 (1903+) / 11: the CapabilityAccessManager consent store records,
//! per app, when it last stopped using the microphone or webcam. A
//! `LastUsedTimeStop` of 0 means "in use right now". Packaged (Store) apps are
//! direct subkeys; classic Win32 apps live under `NonPackaged` with the exe
//! path encoded using `#` instead of `\`.
//!
//! This module decides, from the key names and values read from the store,
//! which apps are capturing and what they are called.

use vstd::prelude::*;
use crate::config::{Config, ignores, lemma_string_views_push, string_views};
use crate::detect::{dedup, dedup_view};
use crate::text::{chars_of, string_of};

verus! {

broadcast use vstd::string::group_string_axioms;

/// The characters of `s` after its last `c`, or all of `s` if there is none.
pub open spec fn after_last(s: Seq<char>, c: char) -> Seq<char>
    decreases s.len(),
{
    if s.len() == 0 {
        s
    } else if s.last() == c {
        Seq::empty()
    } else {
        after_last(s.drop_last(), c).push(s.last())
    }
}

/// The characters of `s` before its first `c`, or all of `s` if there is none.
pub open spec fn before_first(s: Seq<char>, c: char) -> Seq<char>
    decreases s.len(),
{
    if s.len() == 0 {
        s
    } else if s[0] == c {
        Seq::empty()
    } else {
        seq![s[0]] + before_first(s.drop_first(), c)
    }
}

/// The display name of a consent-store key: for an encoded path
/// (`C:#Program Files#Zoom#bin#Zoom.exe`) the part after the last `#`, for a
/// package name (`Microsoft.Teams_8wekyb3d8bbwe`) the part before the first `_`.
pub open spec fn friendly_view(key: Seq<char>) -> Seq<char> {
    if key.contains('#') {
        after_last(key, '#')
    } else {
        before_first(key, '_')
    }
}

fn after_last_chars(v: &Vec<char>, c: char) -> (res: Vec<char>)
    ensures
        res@ == after_last(v@, c),
{
    let mut i: usize = v.len();
    assert(v@.take(v.len() as int) =~= v@);
    assert(v@.skip(v.len() as int) =~= Seq::<char>::empty());
    assert(v@ + Seq::<char>::empty() =~= v@);
    assert(after_last(v@, c) + Seq::<char>::empty() =~= after_last(v@, c));
    while i > 0 && v[i - 1] != c
        invariant
            i <= v.len(),
            after_last(v@, c) == after_last(v@.take(i as int), c) + v@.skip(i as int),
        decreases i,
    {
        let ghost t = v@.take(i as int);
        assert(t.drop_last() =~= v@.take(i - 1));
        assert(v@.skip(i - 1) =~= seq![v@[i - 1]] + v@.skip(i as int));
        assert(after_last(t, c) == after_last(t.drop_last(), c).push(t.last()));
        assert(after_last(v@.take(i - 1), c).push(v@[i - 1]) + v@.skip(i as int)
            =~= after_last(v@.take(i - 1), c) + v@.skip(i - 1));
        i = i - 1;
    }
    if i == 0 {
        assert(v@.take(0) =~= Seq::<char>::empty());
    }
    assert(v@.skip(i as int) =~= v@.subrange(i as int, v.len() as int));
    crate::text::slice_chars(v, i, v.len())
}

fn before_first_chars(v: &Vec<char>, c: char) -> (res: Vec<char>)
    ensures
        res@ == before_first(v@, c),
{
    let mut i: usize = 0;
    assert(v@.take(0) =~= Seq::<char>::empty());
    assert(v@.skip(0) =~= v@);
    assert(Seq::<char>::empty() + before_first(v@, c) =~= before_first(v@, c));
    while i < v.len() && v[i] != c
        invariant
            i <= v.len(),
            before_first(v@, c) == v@.take(i as int) + before_first(v@.skip(i as int), c),
        decreases v.len() - i,
    {
        let ghost t = v@.skip(i as int);
        assert(t.drop_first() =~= v@.skip(i + 1));
        assert(v@.take(i + 1) =~= v@.take(i as int) + seq![v@[i as int]]);
        assert(v@.take(i as int) + (seq![t[0]] + before_first(t.drop_first(), c))
            =~= v@.take(i + 1) + before_first(v@.skip(i + 1), c));
        i = i + 1;
    }
    assert(before_first(v@.skip(i as int), c) =~= Seq::<char>::empty());
    assert(v@.take(i as int) =~= v@.subrange(0, i as int));
    crate::text::slice_chars(v, 0, i)
}

/// The display name of a consent-store key (see [`friendly_view`]).
pub fn friendly(key: &str) -> (res: String)
    ensures
        res@ == friendly_view(key@),
{
    let v = chars_of(key);
    let mut has_hash = false;
    let mut i: usize = 0;
    while i < v.len()
        invariant
            i <= v.len(),
            has_hash == exists|j: int| 0 <= j < i && v@[j] == '#',
        decreases v.len() - i,
    {
        if v[i] == '#' {
            has_hash = true;
        }
        i = i + 1;
    }
    assert(has_hash == v@.contains('#'));
    let part = if has_hash {
        after_last_chars(&v, '#')
    } else {
        before_first_chars(&v, '_')
    };
    string_of(&part)
}

/// The file path an executable entry's key encodes: `#` stands for `\`.
pub open spec fn decoded_path(key: Seq<char>) -> Seq<char> {
    key.map_values(|c: char| if c == '#' { '\\' } else { c })
}

/// The path of the executable an entry names, for an entry whose key is an
/// encoded path (it contains `#`); `None` for a packaged app.
pub fn executable_path(key: &str) -> (res: Option<String>)
    ensures
        match res {
            Some(p) => key@.contains('#') && p@ == decoded_path(key@),
            None => !key@.contains('#'),
        },
{
    let v = chars_of(key);
    let mut out: Vec<char> = Vec::new();
    let mut has_hash = false;
    let mut i: usize = 0;
    while i < v.len()
        invariant
            i <= v.len(),
            v@ == key@,
            out@ == decoded_path(v@.take(i as int)),
            has_hash == exists|j: int| 0 <= j < i && v@[j] == '#',
        decreases v.len() - i,
    {
        let c = v[i];
        if c == '#' {
            has_hash = true;
            out.push('\\');
        } else {
            out.push(c);
        }
        assert(decoded_path(v@.take(i + 1)) =~= decoded_path(v@.take(i as int)).push(
            if c == '#' { '\\' } else { c },
        ));
        i = i + 1;
    }
    assert(v@.take(v.len() as int) =~= v@);
    if has_hash {
        Some(string_of(&out))
    } else {
        None
    }
}

/// One app's entry in the consent store.
pub struct ConsentEntry {
    /// The subkey name: a package name or an encoded executable path.
    pub key: String,
    /// The `LastUsedTimeStop` value, where the subkey has one of type u64.
    pub last_used_stop: Option<u64>,
    /// The product name in the version information of the executable the
    /// entry names, where it has one.
    pub product: Option<String>,
}

/// The name an entry is shown under: the executable's product name where it
/// has a non-empty one, else its [`friendly_view`] name.
pub open spec fn display_name(key: Seq<char>, product: Option<Seq<char>>) -> Seq<char> {
    match product {
        Some(p) => if p.len() > 0 {
            p
        } else {
            friendly_view(key)
        },
        None => friendly_view(key),
    }
}

/// The view of an optional string.
pub open spec fn opt_view(s: Option<String>) -> Option<Seq<char>> {
    match s {
        Some(x) => Some(x@),
        None => None,
    }
}

/// The name an entry contributes: its display name, if it is capturing right
/// now and neither its display name nor its key is ignored.
pub open spec fn entry_name(cfg_apps: Seq<Seq<char>>, e: ConsentEntry) -> Option<Seq<char>> {
    let n = display_name(e.key@, opt_view(e.product));
    if e.last_used_stop == Some(0u64) && !ignores(cfg_apps, n) && !ignores(cfg_apps, e.key@) {
        Some(n)
    } else {
        None
    }
}

/// The names the entries contribute, in order.
pub open spec fn entry_names(cfg_apps: Seq<Seq<char>>, entries: Seq<ConsentEntry>) -> Seq<
    Seq<char>,
>
    decreases entries.len(),
{
    if entries.len() == 0 {
        Seq::empty()
    } else {
        let rest = entry_names(cfg_apps, entries.drop_last());
        match entry_name(cfg_apps, entries.last()) {
            Some(n) => rest.push(n),
            None => rest,
        }
    }
}

/// The name an entry is shown under (see [`display_name`]).
pub fn entry_display_name(e: &ConsentEntry) -> (res: String)
    ensures
        res@ == display_name(e.key@, opt_view(e.product)),
{
    match &e.product {
        Some(p) => {
            if p.as_str().unicode_len() > 0 {
                p.clone()
            } else {
                friendly(e.key.as_str())
            }
        },
        None => friendly(e.key.as_str()),
    }
}

/// The consent-store detector.
pub struct WinDetector;

impl WinDetector {
    /// A detector; it keeps no state between polls.
    pub fn new() -> (d: Self) {
        WinDetector
    }

    /// Who is capturing, from the entries of one capability's store (direct
    /// subkeys first, then those under `NonPackaged`): the display names
    /// (product names where known) of entries in use now and not ignored,
    /// without repeats.
    pub fn active_in(&self, cfg: &Config, entries: &Vec<ConsentEntry>) -> (res: Vec<String>)
        ensures
            string_views(res@) == dedup_view(entry_names(cfg@.ignore_apps, entries@)),
    {
        let mut out: Vec<String> = Vec::new();
        let mut i: usize = 0;
        while i < entries.len()
            invariant
                i <= entries.len(),
                string_views(out@) == entry_names(cfg@.ignore_apps, entries@.take(i as int)),
            decreases entries.len() - i,
        {
            let e = &entries[i];
            assert(entries@.take(i + 1).drop_last() =~= entries@.take(i as int));
            if e.last_used_stop == Some(0u64) {
                let n = entry_display_name(e);
                if !cfg.ignores_app(n.as_str()) && !cfg.ignores_app(e.key.as_str()) {
                    let ghost before = out@;
                    out.push(n);
                    proof {
                        lemma_string_views_push(before, n);
                    }
                }
            }
            i = i + 1;
        }
        assert(entries@.take(entries.len() as int) =~= entries@);
        dedup(out)
    }
}

} // verus!
