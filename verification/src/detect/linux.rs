//! Linux: PipeWire/PulseAudio capture streams as `pactl` lists them, falling
//! back to raw ALSA capture PCM status under /proc/asound. Cameras: any
//! process holding /dev/video* open. Screen lock: logind's `LockedHint` or the
//! ScreenSaver D-Bus interface.
//!
//! This module reads the text that those tools and files produce and decides
//! who is capturing; running them is the caller's part.

use vstd::prelude::*;
use std::collections::HashSet;
use crate::config::{Config, ignores, lemma_string_views_push, string_views};
use crate::detect::{dedup, dedup_view, keep_not_ignored, not_ignored};
use crate::text::{
    chars_of, has_prefix, has_suffix, is_digit, lines, parse_u64, parse_u64_spec,
    push_str, same_chars, slice_chars, split_lines, starts_with, strip_prefix, string_of, trim,
    trim_chars, trim_str, views, ends_with,
};

verus! {

broadcast use {vstd::string::group_string_axioms, vstd::std_specs::hash::group_hash_axioms};

/// How long the list of monitor sources is reused before it is asked for again.
pub const MONITOR_CACHE_MS: u64 = 30_000;

// ---------------------------------------------------------------------------
// Quotes
// ---------------------------------------------------------------------------

/// `s` without leading `c`s.
pub open spec fn strip_start(s: Seq<char>, c: char) -> Seq<char>
    decreases s.len(),
{
    if s.len() > 0 && s[0] == c {
        strip_start(s.drop_first(), c)
    } else {
        s
    }
}

/// `s` without trailing `c`s.
pub open spec fn strip_end(s: Seq<char>, c: char) -> Seq<char>
    decreases s.len(),
{
    if s.len() > 0 && s.last() == c {
        strip_end(s.drop_last(), c)
    } else {
        s
    }
}

/// `s` without `c`s at either end (`str::trim_matches(c)`).
pub open spec fn trim_matches(s: Seq<char>, c: char) -> Seq<char> {
    strip_end(strip_start(s, c), c)
}

/// `v` without `c`s at either end.
pub fn trim_matches_chars(v: &Vec<char>, c: char) -> (res: Vec<char>)
    ensures
        res@ == trim_matches(v@, c),
{
    let mut lo: usize = 0;
    assert(v@.skip(0) =~= v@);
    while lo < v.len() && v[lo] == c
        invariant
            lo <= v.len(),
            strip_start(v@, c) == strip_start(v@.skip(lo as int), c),
        decreases v.len() - lo,
    {
        assert(v@.skip(lo as int).drop_first() =~= v@.skip(lo + 1));
        lo = lo + 1;
    }
    let ghost t = v@.skip(lo as int);
    let mut hi: usize = v.len();
    assert(t =~= v@.subrange(lo as int, hi as int));
    while hi > lo && v[hi - 1] == c
        invariant
            lo <= hi <= v.len(),
            t == v@.skip(lo as int),
            strip_end(t, c) == strip_end(v@.subrange(lo as int, hi as int), c),
        decreases hi,
    {
        assert(v@.subrange(lo as int, hi as int).drop_last() =~= v@.subrange(lo as int, hi - 1));
        hi = hi - 1;
    }
    slice_chars(v, lo, hi)
}

// ---------------------------------------------------------------------------
// `pactl list sources`: which sources are monitors
// ---------------------------------------------------------------------------

/// Where a scan of `pactl list sources` stands: the index of the source block
/// being read, and the monitor indexes found so far.
pub struct MonitorScan {
    pub idx: Option<u64>,
    pub found: Seq<u64>,
}

/// One line of `pactl list sources`: `Source #N` starts a block, `Name: X`
/// marks the block's source as a monitor when `X` ends in `.monitor`.
pub open spec fn monitor_step(acc: MonitorScan, line: Seq<char>) -> MonitorScan {
    let t = trim(line);
    if has_prefix(t, "Source #"@) {
        MonitorScan { idx: parse_u64_spec(t.skip("Source #"@.len() as int)), ..acc }
    } else if has_prefix(t, "Name: "@) {
        let n = t.skip("Name: "@.len() as int);
        if has_suffix(n, ".monitor"@) && acc.idx is Some {
            MonitorScan { found: acc.found.push(acc.idx->0), ..acc }
        } else {
            acc
        }
    } else {
        acc
    }
}

/// The scan after the lines `ls`, in order.
pub open spec fn monitor_scan(ls: Seq<Seq<char>>) -> MonitorScan
    decreases ls.len(),
{
    if ls.len() == 0 {
        MonitorScan { idx: None, found: Seq::empty() }
    } else {
        monitor_step(monitor_scan(ls.drop_last()), ls.last())
    }
}

/// The indexes of the monitor sources (loopbacks of outputs, not
/// microphones) in the text output of `pactl list sources`.
pub open spec fn monitor_indexes_view(txt: Seq<char>) -> Seq<u64> {
    monitor_scan(lines(txt)).found
}

/// The indexes of the monitor sources in the text output of
/// `pactl list sources` (see [`monitor_indexes_view`]).
pub fn monitor_indexes_text(txt: &str) -> (res: Vec<u64>)
    ensures
        res@ == monitor_indexes_view(txt@),
{
    let v = chars_of(txt);
    let ls = split_lines(&v);
    let source_tag = chars_of("Source #");
    let name_tag = chars_of("Name: ");
    let monitor_tag = chars_of(".monitor");
    let mut idx: Option<u64> = None;
    let mut found: Vec<u64> = Vec::new();
    let mut i: usize = 0;
    while i < ls.len()
        invariant
            i <= ls.len(),
            views(ls@) == lines(txt@),
            source_tag@ == "Source #"@,
            name_tag@ == "Name: "@,
            monitor_tag@ == ".monitor"@,
            monitor_scan(views(ls@).take(i as int)) == (MonitorScan { idx, found: found@ }),
        decreases ls.len() - i,
    {
        let t = trim_chars(&ls[i]);
        assert(views(ls@).take(i + 1).drop_last() =~= views(ls@).take(i as int));
        assert(views(ls@).take(i + 1).last() == ls@[i as int]@);
        match strip_prefix(&t, &source_tag) {
            Some(n) => {
                idx = parse_u64(&n);
            },
            None => {
                match strip_prefix(&t, &name_tag) {
                    Some(n) => {
                        if ends_with(&n, &monitor_tag) {
                            if let Some(k) = idx {
                                found.push(k);
                            }
                        }
                    },
                    None => {},
                }
            },
        }
        i = i + 1;
    }
    assert(views(ls@).take(ls.len() as int) =~= views(ls@));
    found
}

// ---------------------------------------------------------------------------
// `pactl list source-outputs`: who is capturing
// ---------------------------------------------------------------------------

/// Where a scan of `pactl list source-outputs` stands: the fields of the
/// stream block being read and the app names found so far. A source of
/// `u64::MAX` means none was read.
pub struct PulseScan {
    pub src: u64,
    pub corked: bool,
    pub app: Seq<char>,
    pub out: Seq<Seq<char>>,
}

/// The names found once the current block is complete: its app is added when
/// the block names a source that is not a monitor, is not corked, and the
/// app is not ignored; an unnamed app is "unknown app".
pub open spec fn pulse_flush(acc: PulseScan, monitors: Set<u64>, ignore: Seq<Seq<char>>) -> Seq<
    Seq<char>,
> {
    if acc.src != u64::MAX && !acc.corked && !monitors.contains(acc.src) && !ignores(
        ignore,
        acc.app,
    ) {
        acc.out.push(
            if acc.app.len() == 0 {
                "unknown app"@
            } else {
                acc.app
            },
        )
    } else {
        acc.out
    }
}

/// One line of `pactl list source-outputs`.
pub open spec fn pulse_step(
    acc: PulseScan,
    monitors: Set<u64>,
    ignore: Seq<Seq<char>>,
    line: Seq<char>,
) -> PulseScan {
    let t = trim(line);
    if has_prefix(t, "Source Output #"@) {
        PulseScan {
            src: u64::MAX,
            corked: false,
            app: Seq::empty(),
            out: pulse_flush(acc, monitors, ignore),
        }
    } else if has_prefix(t, "Source: "@) {
        PulseScan {
            src: match parse_u64_spec(t.skip("Source: "@.len() as int)) {
                Some(n) => n,
                None => u64::MAX,
            },
            ..acc
        }
    } else if has_prefix(t, "Corked: "@) {
        PulseScan { corked: t.skip("Corked: "@.len() as int) == "yes"@, ..acc }
    } else if has_prefix(t, "application.name = "@) {
        PulseScan { app: trim_matches(t.skip("application.name = "@.len() as int), '"'), ..acc }
    } else {
        acc
    }
}

/// The scan after the lines `ls`, in order.
pub open spec fn pulse_scan(ls: Seq<Seq<char>>, monitors: Set<u64>, ignore: Seq<Seq<char>>) -> PulseScan
    decreases ls.len(),
{
    if ls.len() == 0 {
        PulseScan { src: u64::MAX, corked: false, app: Seq::empty(), out: Seq::empty() }
    } else {
        pulse_step(pulse_scan(ls.drop_last(), monitors, ignore), monitors, ignore, ls.last())
    }
}

/// The apps capturing from a real microphone, from the text output of
/// `pactl list source-outputs`.
pub open spec fn capture_apps_view(txt: Seq<char>, monitors: Set<u64>, ignore: Seq<Seq<char>>) -> Seq<
    Seq<char>,
> {
    pulse_flush(pulse_scan(lines(txt), monitors, ignore), monitors, ignore)
}

fn flush_block(
    cfg: &Config,
    monitors: &HashSet<u64>,
    src: u64,
    corked: bool,
    app: &Vec<char>,
    out: &mut Vec<String>,
)
    ensures
        string_views(final(out)@) == pulse_flush(
            PulseScan { src, corked, app: app@, out: string_views(old(out)@) },
            monitors@,
            cfg@.ignore_apps,
        ),
{
    if src == u64::MAX || corked {
        return;
    }
    if monitors.contains(&src) {
        return;
    }
    let name = string_of(app);
    if cfg.ignores_app(name.as_str()) {
        return;
    }
    let label = if app.len() == 0 {
        let mut s = String::new();
        push_str(&mut s, "unknown app");
        s
    } else {
        name
    };
    let ghost before = out@;
    out.push(label);
    proof {
        lemma_string_views_push(before, label);
    }
}

/// The apps capturing from a real microphone (see [`capture_apps_view`]),
/// given the monitor source indexes.
pub fn capture_apps_text(cfg: &Config, monitors: &HashSet<u64>, txt: &str) -> (res: Vec<String>)
    ensures
        string_views(res@) == capture_apps_view(txt@, monitors@, cfg@.ignore_apps),
{
    let v = chars_of(txt);
    let ls = split_lines(&v);
    let output_tag = chars_of("Source Output #");
    let source_tag = chars_of("Source: ");
    let corked_tag = chars_of("Corked: ");
    let app_tag = chars_of("application.name = ");
    let yes = chars_of("yes");
    let ghost ignore = cfg@.ignore_apps;
    let mut src: u64 = u64::MAX;
    let mut corked = false;
    let mut app: Vec<char> = Vec::new();
    let mut out: Vec<String> = Vec::new();
    let mut i: usize = 0;
    assert(string_views(out@) =~= Seq::<Seq<char>>::empty());
    assert(app@ =~= Seq::<char>::empty());
    while i < ls.len()
        invariant
            i <= ls.len(),
            views(ls@) == lines(txt@),
            ignore == cfg@.ignore_apps,
            output_tag@ == "Source Output #"@,
            source_tag@ == "Source: "@,
            corked_tag@ == "Corked: "@,
            app_tag@ == "application.name = "@,
            yes@ == "yes"@,
            pulse_scan(views(ls@).take(i as int), monitors@, ignore) == (PulseScan {
                src,
                corked,
                app: app@,
                out: string_views(out@),
            }),
        decreases ls.len() - i,
    {
        let t = trim_chars(&ls[i]);
        assert(views(ls@).take(i + 1).drop_last() =~= views(ls@).take(i as int));
        assert(views(ls@).take(i + 1).last() == ls@[i as int]@);
        if starts_with(&t, &output_tag) {
            flush_block(cfg, monitors, src, corked, &app, &mut out);
            src = u64::MAX;
            corked = false;
            app = Vec::new();
            assert(app@ =~= Seq::<char>::empty());
        } else {
            match strip_prefix(&t, &source_tag) {
                Some(n) => {
                    src = match parse_u64(&n) {
                        Some(x) => x,
                        None => u64::MAX,
                    };
                },
                None => match strip_prefix(&t, &corked_tag) {
                    Some(n) => {
                        corked = same_chars(&n, &yes);
                    },
                    None => match strip_prefix(&t, &app_tag) {
                        Some(n) => {
                            app = trim_matches_chars(&n, '"');
                        },
                        None => {},
                    },
                },
            }
        }
        i = i + 1;
    }
    assert(views(ls@).take(ls.len() as int) =~= views(ls@));
    flush_block(cfg, monitors, src, corked, &app, &mut out);
    out
}

// ---------------------------------------------------------------------------
// ALSA, cameras and the lock screen
// ---------------------------------------------------------------------------

/// Some line of a `/proc/asound/card*/pcm*c/sub*/status` file reads
/// `state: RUNNING`, give or take surrounding whitespace.
pub open spec fn alsa_running_view(status: Seq<char>) -> bool {
    exists|i: int| 0 <= i < lines(status).len() && trim(#[trigger] lines(status)[i]) == "state: RUNNING"@
}

/// Whether an ALSA substream status file says it is capturing.
pub fn alsa_running(status: &str) -> (res: bool)
    ensures
        res == alsa_running_view(status@),
{
    let v = chars_of(status);
    let ls = split_lines(&v);
    let want = chars_of("state: RUNNING");
    let mut i: usize = 0;
    while i < ls.len()
        invariant
            i <= ls.len(),
            views(ls@) == lines(status@),
            want@ == "state: RUNNING"@,
            forall|j: int| 0 <= j < i ==> trim(#[trigger] lines(status@)[j]) != "state: RUNNING"@,
        decreases ls.len() - i,
    {
        let t = trim_chars(&ls[i]);
        assert(lines(status@)[i as int] == ls@[i as int]@);
        if same_chars(&t, &want) {
            return true;
        }
        i = i + 1;
    }
    false
}

/// Whether a `/proc/asound` entry is a sound card (`card*`).
pub fn is_card_entry(name: &str) -> (res: bool)
    ensures
        res == has_prefix(name@, "card"@),
{
    starts_with(&chars_of(name), &chars_of("card"))
}

/// Whether a card's entry is a capture PCM (`pcm*c`).
pub fn is_capture_pcm(name: &str) -> (res: bool)
    ensures
        res == (has_prefix(name@, "pcm"@) && has_suffix(name@, "c"@)),
{
    let v = chars_of(name);
    starts_with(&v, &chars_of("pcm")) && ends_with(&v, &chars_of("c"))
}

/// The name reported for a running capture PCM: "ALSA card/pcm".
pub fn alsa_label(card: &str, pcm: &str) -> (res: String)
    ensures
        res@ == "ALSA "@ + card@ + "/"@ + pcm@,
{
    let mut s = String::new();
    push_str(&mut s, "ALSA ");
    push_str(&mut s, card);
    push_str(&mut s, "/");
    push_str(&mut s, pcm);
    s
}

/// The running capture PCMs that count: those whose label the device ignore
/// list does not name, in the order they were found.
pub fn alsa_devices(cfg: &Config, labels: Vec<String>) -> (res: Vec<String>)
    ensures
        string_views(res@) == not_ignored(cfg@.ignore_devices, string_views(labels@)),
{
    keep_not_ignored(&cfg.ignore_devices, labels)
}

/// Whether a `/proc` entry names a process: every character is an ASCII
/// digit (`chars().all(is_ascii_digit)`, true of the empty name).
pub fn is_pid_entry(name: &str) -> (res: bool)
    ensures
        res == (forall|i: int| 0 <= i < name@.len() ==> is_digit(#[trigger] name@[i])),
{
    let v = chars_of(name);
    let mut i: usize = 0;
    while i < v.len()
        invariant
            i <= v.len(),
            v@ == name@,
            forall|j: int| 0 <= j < i ==> is_digit(#[trigger] v@[j]),
        decreases v.len() - i,
    {
        if !('0' <= v[i] && v[i] <= '9') {
            assert(!is_digit(v@[i as int]));
            return false;
        }
        i = i + 1;
    }
    true
}

/// Whether an open file descriptor points at a video device.
pub fn opens_video(target: &str) -> (res: bool)
    ensures
        res == has_prefix(target@, "/dev/video"@),
{
    starts_with(&chars_of(target), &chars_of("/dev/video"))
}

/// The name a process holding a video device is reported under: its command
/// name trimmed, or "pid N" when that is empty.
pub open spec fn video_label(pid: Seq<char>, comm: Seq<char>) -> Seq<char> {
    if trim(comm).len() == 0 {
        "pid "@ + pid
    } else {
        trim(comm)
    }
}

/// The name a process holding a video device contributes, unless it is ignored.
pub fn video_user(cfg: &Config, pid: &str, comm: &str) -> (res: Option<String>)
    ensures
        match res {
            Some(n) => n@ == video_label(pid@, comm@) && !ignores(
                cfg@.ignore_apps,
                video_label(pid@, comm@),
            ),
            None => ignores(cfg@.ignore_apps, video_label(pid@, comm@)),
        },
{
    let t = trim_str(comm);
    let label = if t.len() == 0 {
        let mut s = String::new();
        push_str(&mut s, "pid ");
        push_str(&mut s, pid);
        s
    } else {
        string_of(&t)
    };
    if cfg.ignores_app(label.as_str()) {
        None
    } else {
        Some(label)
    }
}

/// The processes holding a video device, without repeats.
pub fn video_users(names: Vec<String>) -> (res: Vec<String>)
    ensures
        string_views(res@) == dedup_view(string_views(names@)),
{
    dedup(names)
}

/// Whether a command's output, trimmed, is exactly `expected` (as the lock
/// queries answer "yes" or "b true").
pub fn answer_is(output: &str, expected: &str) -> (res: bool)
    ensures
        res == (trim(output@) == expected@),
{
    let t = trim_str(output);
    same_chars(&t, &chars_of(expected))
}

// ---------------------------------------------------------------------------
// `pactl -f json` (pactl >= 16)
// ---------------------------------------------------------------------------

/// What the logic reads of one source in `pactl -f json list sources`: its
/// `name` where that is a string, its `index` where that is an unsigned integer.
pub struct SourceRecord {
    pub name: Option<String>,
    pub index: Option<u64>,
}

/// What the logic reads of one stream in `pactl -f json list source-outputs`:
/// its `source` where that is an unsigned integer, `corked` where that is a
/// boolean, and `properties."application.name"` where that is a string.
pub struct OutputRecord {
    pub source: Option<u64>,
    pub corked: Option<bool>,
    pub app: Option<String>,
}

/// The view of an optional string.
pub open spec fn opt_chars(s: Option<String>) -> Option<Seq<char>> {
    match s {
        Some(x) => Some(x@),
        None => None,
    }
}

/// What `serde_json` reads from `pactl -f json list sources` output: `None`
/// when it is not JSON; `Some(None)` when it is JSON but not an array;
/// otherwise the fields of each element of the top-level array, in order.
pub uninterp spec fn source_records(text: Seq<char>) -> Option<
    Option<Seq<(Option<Seq<char>>, Option<u64>)>>,
>;

/// What `serde_json` reads from `pactl -f json list source-outputs` output:
/// `None` when it is not JSON; `Some(None)` when it is JSON but not an array;
/// otherwise the fields of each element of the top-level array, in order.
pub uninterp spec fn output_records(text: Seq<char>) -> Option<
    Option<Seq<(Option<u64>, Option<bool>, Option<Seq<char>>)>>,
>;

/// The elements read, where the JSON is an array; none otherwise.
pub open spec fn elements<T>(r: Option<Seq<T>>) -> Seq<T> {
    match r {
        Some(v) => v,
        None => Seq::empty(),
    }
}

/// The records' views.
pub open spec fn source_views(v: Seq<SourceRecord>) -> Seq<(Option<Seq<char>>, Option<u64>)> {
    v.map_values(|r: SourceRecord| (opt_chars(r.name), r.index))
}

/// The records' views.
pub open spec fn output_views(v: Seq<OutputRecord>) -> Seq<(Option<u64>, Option<bool>, Option<Seq<char>>)> {
    v.map_values(|r: OutputRecord| (r.source, r.corked, opt_chars(r.app)))
}

/// Parses `pactl -f json list sources` output with
/// `serde_json::from_str::<serde_json::Value>`; where it is an array
/// (`as_array`), reads each element's `name` (`as_str`) and `index`
/// (`as_u64`).
#[verifier::external_body]
pub fn read_source_records(text: &str) -> (res: Option<Option<Vec<SourceRecord>>>)
    ensures
        match res {
            Some(Some(v)) => source_records(text@) == Some(Some(source_views(v@))),
            Some(None) => source_records(text@) == Some(None::<Seq<(Option<Seq<char>>, Option<u64>)>>),
            None => source_records(text@) is None,
        },
{
    let v = serde_json::from_str::<serde_json::Value>(text).ok()?;
    Some(v.as_array().map(|a| a.iter().map(|s| SourceRecord {
        name: s["name"].as_str().map(|n| n.to_string()),
        index: s["index"].as_u64(),
    }).collect()))
}

/// Parses `pactl -f json list source-outputs` output with
/// `serde_json::from_str::<serde_json::Value>` and reads each array element's
/// `source` (`as_u64`), `corked` (`as_bool`) and
/// `properties."application.name"` (`as_str`).
#[verifier::external_body]
pub fn read_output_records(text: &str) -> (res: Option<Option<Vec<OutputRecord>>>)
    ensures
        match res {
            Some(Some(v)) => output_records(text@) == Some(Some(output_views(v@))),
            Some(None) => output_records(text@) == Some(
                None::<Seq<(Option<u64>, Option<bool>, Option<Seq<char>>)>>,
            ),
            None => output_records(text@) is None,
        },
{
    let v = serde_json::from_str::<serde_json::Value>(text).ok()?;
    Some(v.as_array().map(|a| a.iter().map(|so| OutputRecord {
        source: so["source"].as_u64(),
        corked: so["corked"].as_bool(),
        app: so["properties"]["application.name"].as_str().map(|n| n.to_string()),
    }).collect()))
}

/// The monitor indexes among the records: sources whose name ends in
/// `.monitor` and that have an index.
pub open spec fn monitors_of(rs: Seq<(Option<Seq<char>>, Option<u64>)>) -> Seq<u64>
    decreases rs.len(),
{
    if rs.len() == 0 {
        Seq::empty()
    } else {
        let rest = monitors_of(rs.drop_last());
        let r = rs.last();
        let name = match r.0 {
            Some(n) => n,
            None => Seq::empty(),
        };
        if has_suffix(name, ".monitor"@) && r.1 is Some {
            rest.push(r.1->0)
        } else {
            rest
        }
    }
}

/// The monitor source indexes from `pactl -f json list sources` output
/// (none when the JSON is not an array), or `None` when it is not JSON.
pub fn monitor_indexes_json(text: &str) -> (res: Option<Vec<u64>>)
    ensures
        match source_records(text@) {
            Some(r) => res matches Some(v) && v@ == monitors_of(elements(r)),
            None => res is None,
        },
{
    let recs = match read_source_records(text) {
        Some(Some(r)) => r,
        Some(None) => return Some(Vec::new()),
        None => return None,
    };
    let ghost rs = source_views(recs@);
    let tag = chars_of(".monitor");
    let mut out: Vec<u64> = Vec::new();
    let mut i: usize = 0;
    while i < recs.len()
        invariant
            i <= recs.len(),
            rs == source_views(recs@),
            tag@ == ".monitor"@,
            out@ == monitors_of(rs.take(i as int)),
        decreases recs.len() - i,
    {
        assert(rs.take(i + 1).drop_last() =~= rs.take(i as int));
        let name = match &recs[i].name {
            Some(n) => chars_of(n.as_str()),
            None => Vec::new(),
        };
        assert(name@ == match rs[i as int].0 {
            Some(n) => n,
            None => Seq::<char>::empty(),
        });
        if ends_with(&name, &tag) {
            if let Some(k) = recs[i].index {
                out.push(k);
            }
        }
        i = i + 1;
    }
    assert(rs.take(recs.len() as int) =~= rs);
    Some(out)
}

/// The apps capturing from a real microphone among the records: streams that
/// are not corked (missing = not corked) on a source that is not a monitor
/// (missing = `u64::MAX`), named by their app ("unknown app" when missing),
/// and not ignored.
pub open spec fn capture_apps_of(
    rs: Seq<(Option<u64>, Option<bool>, Option<Seq<char>>)>,
    monitors: Set<u64>,
    ignore: Seq<Seq<char>>,
) -> Seq<Seq<char>>
    decreases rs.len(),
{
    if rs.len() == 0 {
        Seq::empty()
    } else {
        let rest = capture_apps_of(rs.drop_last(), monitors, ignore);
        let r = rs.last();
        let src = match r.0 {
            Some(s) => s,
            None => u64::MAX,
        };
        let corked = match r.1 {
            Some(c) => c,
            None => false,
        };
        let app = match r.2 {
            Some(a) => a,
            None => "unknown app"@,
        };
        if corked || monitors.contains(src) || ignores(ignore, app) {
            rest
        } else {
            rest.push(app)
        }
    }
}

/// The apps capturing from a real microphone, from `pactl -f json list
/// source-outputs` output (none when the JSON is not an array), or `None`
/// when it is not JSON.
pub fn capture_apps_json(cfg: &Config, monitors: &HashSet<u64>, text: &str) -> (res: Option<Vec<String>>)
    ensures
        match output_records(text@) {
            Some(r) => res matches Some(v) && string_views(v@) == capture_apps_of(
                elements(r),
                monitors@,
                cfg@.ignore_apps,
            ),
            None => res is None,
        },
{
    let recs = match read_output_records(text) {
        Some(Some(r)) => r,
        Some(None) => {
            let out: Vec<String> = Vec::new();
            assert(string_views(out@) =~= Seq::<Seq<char>>::empty());
            return Some(out);
        },
        None => return None,
    };
    let ghost rs = output_views(recs@);
    let mut out: Vec<String> = Vec::new();
    let mut i: usize = 0;
    assert(string_views(out@) =~= Seq::<Seq<char>>::empty());
    while i < recs.len()
        invariant
            i <= recs.len(),
            rs == output_views(recs@),
            string_views(out@) == capture_apps_of(rs.take(i as int), monitors@, cfg@.ignore_apps),
        decreases recs.len() - i,
    {
        assert(rs.take(i + 1).drop_last() =~= rs.take(i as int));
        let src = match recs[i].source {
            Some(s) => s,
            None => u64::MAX,
        };
        let corked = match recs[i].corked {
            Some(c) => c,
            None => false,
        };
        let on_monitor = monitors.contains(&src);
        if !corked && !on_monitor {
            let app = match &recs[i].app {
                Some(a) => a.clone(),
                None => {
                    let mut s = String::new();
                    push_str(&mut s, "unknown app");
                    s
                },
            };
            if !cfg.ignores_app(app.as_str()) {
                let ghost before = out@;
                out.push(app);
                proof {
                    lemma_string_views_push(before, app);
                }
            }
        }
        i = i + 1;
    }
    assert(rs.take(recs.len() as int) =~= rs);
    Some(out)
}

// ---------------------------------------------------------------------------
// The detector's memory
// ---------------------------------------------------------------------------

/// Where the microphone is asked about.
#[derive(Clone, Copy, Debug, PartialEq, Eq, Structural)]
pub enum MicSource {
    /// PulseAudio / PipeWire through `pactl`.
    Pulse,
    /// The ALSA status files under /proc/asound.
    Alsa,
}

/// The source asked while `pulse_ok` is as given.
pub open spec fn source_for(pulse_ok: bool) -> MicSource {
    if pulse_ok {
        MicSource::Pulse
    } else {
        MicSource::Alsa
    }
}

/// Whether `pactl` still counts as working after a poll that asked it and
/// got an answer (`answered`) or not.
pub open spec fn pulse_after(pulse_ok: bool, answered: bool) -> bool {
    pulse_ok && answered
}

/// Whether `pactl` counts as working after a series of polls, each of which
/// got an answer from it or not.
pub open spec fn pulse_after_polls(pulse_ok: bool, answers: Seq<bool>) -> bool
    decreases answers.len(),
{
    if answers.len() == 0 {
        pulse_ok
    } else {
        pulse_after(pulse_after_polls(pulse_ok, answers.drop_last()), answers.last())
    }
}

proof fn lemma_take_push_to_set(s: Seq<u64>, i: int)
    requires
        0 <= i < s.len(),
    ensures
        s.take(i + 1).to_set() == s.take(i).to_set().insert(s[i]),
{
    assert(s.take(i + 1) =~= s.take(i).push(s[i]));
    s.take(i).lemma_push_to_set_commute(s[i]);
}

/// The PulseAudio / ALSA detector's memory between polls.
pub struct LinuxDetector {
    /// Whether `pactl` answers; once it fails the ALSA fallback is used.
    pub pulse_ok: bool,
    /// The monitor source indexes last read.
    pub monitors: HashSet<u64>,
    /// When they were read.
    pub monitors_at: Option<u64>,
}

impl LinuxDetector {
    /// A detector; `pulse_ok` is whether `pactl info` succeeded.
    pub fn new(pulse_ok: bool) -> (d: Self)
        ensures
            d.pulse_ok == pulse_ok,
            d.monitors@ == Set::<u64>::empty(),
            d.monitors_at is None,
    {
        LinuxDetector { pulse_ok, monitors: HashSet::new(), monitors_at: None }
    }

    /// Whether the monitor list has to be read again at `now`: it never was,
    /// or it is more than [`MONITOR_CACHE_MS`] old.
    pub fn monitors_due(&self, now: u64) -> (res: bool)
        ensures
            res == match self.monitors_at {
                Some(t) => now >= t && now - t > MONITOR_CACHE_MS,
                None => true,
            },
    {
        match self.monitors_at {
            Some(t) => now >= t && now - t > MONITOR_CACHE_MS,
            None => true,
        }
    }

    /// Stores the monitor indexes freshly read, as a set.
    pub fn set_monitors(&mut self, monitors: Vec<u64>, now: u64)
        ensures
            final(self).monitors@ == monitors@.to_set(),
            final(self).monitors_at == Some(now),
            final(self).pulse_ok == old(self).pulse_ok,
    {
        let mut set: HashSet<u64> = HashSet::new();
        let mut i: usize = 0;
        while i < monitors.len()
            invariant
                i <= monitors.len(),
                set@ == monitors@.take(i as int).to_set(),
            decreases monitors.len() - i,
        {
            proof {
                lemma_take_push_to_set(monitors@, i as int);
            }
            set.insert(monitors[i]);
            i = i + 1;
        }
        assert(monitors@.take(monitors.len() as int) =~= monitors@);
        self.monitors = set;
        self.monitors_at = Some(now);
    }

    /// Where to ask about the microphone this poll: `pactl` while it works,
    /// else the ALSA fallback.
    pub fn mic_source(&self) -> (res: MicSource)
        ensures
            res == source_for(self.pulse_ok),
    {
        if self.pulse_ok {
            MicSource::Pulse
        } else {
            MicSource::Alsa
        }
    }

    /// Handles the PulseAudio answer for this poll: the capturing apps without
    /// repeats; or, when `pactl` failed, switches to the ALSA fallback for
    /// good and returns `None`.
    pub fn pulse_answer(&mut self, apps: Option<Vec<String>>) -> (res: Option<Vec<String>>)
        ensures
            final(self).pulse_ok == pulse_after(old(self).pulse_ok, apps is Some),
            match apps {
                Some(a) => res is Some && string_views(res->0@) == dedup_view(string_views(a@))
                    && final(self).pulse_ok == old(self).pulse_ok,
                None => res is None && !final(self).pulse_ok,
            },
            final(self).monitors@ == old(self).monitors@,
            final(self).monitors_at == old(self).monitors_at,
    {
        match apps {
            Some(a) => Some(dedup(a)),
            None => {
                self.pulse_ok = false;
                None
            },
        }
    }
}

} // verus!
