//! macOS: CoreAudio (`kAudioDevicePropertyDeviceIsRunningSomewhere`) for the
//! microphone and CoreMediaIO (`kCMIODevicePropertyDeviceIsRunningSomewhere`)
//! for cameras. The property queries hand back raw bytes; this module decodes
//! them (in the machine's byte order, given as `little`) and decides who is
//! capturing.

use vstd::prelude::*;
use crate::config::{Config, lemma_string_views_push, string_views};
use crate::detect::{dedup, dedup_view, keep_not_ignored, not_ignored};
use crate::text::{decimal, decimal_chars, push_chars, push_str};

verus! {

broadcast use vstd::string::group_string_axioms;

/// The 32-bit number stored in four bytes, least significant first when
/// `little`, most significant first otherwise (`u32::from_le_bytes` /
/// `u32::from_be_bytes`).
pub open spec fn word(b0: u8, b1: u8, b2: u8, b3: u8, little: bool) -> u32 {
    if little {
        (b0 as int + 256 * b1 as int + 65536 * b2 as int + 16777216 * b3 as int) as u32
    } else {
        (b3 as int + 256 * b2 as int + 65536 * b1 as int + 16777216 * b0 as int) as u32
    }
}

/// The 32-bit number at byte offset `at` of `raw`.
pub open spec fn word_at(raw: Seq<u8>, at: int, little: bool) -> u32 {
    word(raw[at], raw[at + 1], raw[at + 2], raw[at + 3], little)
}

/// Decodes four bytes.
pub fn decode_u32(b0: u8, b1: u8, b2: u8, b3: u8, little: bool) -> (r: u32)
    ensures
        r == word(b0, b1, b2, b3, little),
{
    let (lo, m1, m2, hi) = if little {
        (b0 as u32, b1 as u32, b2 as u32, b3 as u32)
    } else {
        (b3 as u32, b2 as u32, b1 as u32, b0 as u32)
    };
    lo + 256 * m1 + 65536 * m2 + 16777216 * hi
}

/// A four-character code, as CoreAudio property selectors are written
/// (`u32::from_be_bytes`).
pub fn fourcc(s: [u8; 4]) -> (r: u32)
    ensures
        r == word(s[0], s[1], s[2], s[3], false),
{
    decode_u32(s[0], s[1], s[2], s[3], false)
}

/// The 32-bit numbers in `raw`, four bytes each; trailing bytes that do not
/// make up a whole number are ignored (`chunks_exact(4)`).
pub open spec fn words(raw: Seq<u8>, little: bool) -> Seq<u32> {
    Seq::new(raw.len() / 4, |i: int| word_at(raw, 4 * i, little))
}

/// Decodes `raw` as a list of 32-bit numbers.
pub fn u32s(raw: &[u8], little: bool) -> (res: Vec<u32>)
    ensures
        res@ == words(raw@, little),
{
    let mut res: Vec<u32> = Vec::new();
    let n = raw.len() / 4;
    let mut i: usize = 0;
    while i < n
        invariant
            n == raw@.len() / 4,
            i <= n,
            res@ == words(raw@, little).take(i as int),
        decreases n - i,
    {
        assert(4 * i + 4 <= raw@.len()) by (nonlinear_arith)
            requires
                i < n,
                n == raw@.len() / 4,
        ;
        assert(raw@.len() == raw.len());
        let at = 4 * i;
        let w = decode_u32(raw[at], raw[at + 1], raw[at + 2], raw[at + 3], little);
        res.push(w);
        assert(res@ =~= words(raw@, little).take(i + 1));
        i = i + 1;
    }
    assert(words(raw@, little).take(n as int) =~= words(raw@, little));
    res
}

/// The first 32-bit number of a property value; 0 when the query failed or
/// returned fewer than four bytes.
pub open spec fn first_word(raw: Option<Seq<u8>>, little: bool) -> u32 {
    match raw {
        Some(r) => if r.len() >= 4 {
            word_at(r, 0, little)
        } else {
            0
        },
        None => 0,
    }
}

/// The first 32-bit number of a property value, or 0.
pub fn first_u32(raw: &Option<Vec<u8>>, little: bool) -> (r: u32)
    ensures
        r == first_word(
            match raw {
                Some(v) => Some(v@),
                None => None,
            },
            little,
        ),
{
    match raw {
        Some(r) => if r.len() >= 4 {
            decode_u32(r[0], r[1], r[2], r[3], little)
        } else {
            0
        },
        None => 0,
    }
}

/// Whether a "running somewhere" property reads as true (non-zero).
pub fn running_somewhere(raw: &Option<Vec<u8>>, little: bool) -> (r: bool)
    ensures
        r == (first_word(
            match raw {
                Some(v) => Some(v@),
                None => None,
            },
            little,
        ) != 0),
{
    first_u32(raw, little) != 0
}

/// How many of the first buffers of an `AudioBufferList` lie wholly in
/// `len` bytes: buffer `i` holds its channel count at bytes `8 + 16 i ..
/// 12 + 16 i`.
pub open spec fn whole_buffers(len: nat) -> nat {
    if len >= 12 {
        ((len - 12) as nat / 16 + 1) as nat
    } else {
        0
    }
}

/// The channel counts of the first `k` buffers added up.
pub open spec fn channel_sum(raw: Seq<u8>, little: bool, k: nat) -> nat
    decreases k,
{
    if k == 0 {
        0
    } else {
        channel_sum(raw, little, (k - 1) as nat) + word_at(raw, 8 + 16 * (k - 1), little) as nat
    }
}

/// The total number of input channels in a stream-configuration property
/// (an `AudioBufferList`: a buffer count, then buffers of 16 bytes each
/// from offset 8, the channel count first in each). Buffers that the bytes do
/// not wholly hold are skipped. 0 when the query failed or returned fewer than
/// four bytes; `None` when the total does not fit in 32 bits.
pub open spec fn input_channels_view(raw: Option<Seq<u8>>, little: bool) -> Option<u32> {
    match raw {
        Some(r) => if r.len() < 4 {
            Some(0u32)
        } else {
            let k = if (word_at(r, 0, little) as nat) < whole_buffers(r.len()) {
                word_at(r, 0, little) as nat
            } else {
                whole_buffers(r.len())
            };
            if channel_sum(r, little, k) <= u32::MAX {
                Some(channel_sum(r, little, k) as u32)
            } else {
                None
            }
        },
        None => Some(0u32),
    }
}

/// The total number of input channels of a device (see
/// [`input_channels_view`]).
pub fn input_channels(raw: &Option<Vec<u8>>, little: bool) -> (res: Option<u32>)
    ensures
        res == input_channels_view(
            match raw {
                Some(v) => Some(v@),
                None => None,
            },
            little,
        ),
{
    let r = match raw {
        Some(r) => r,
        None => {
            return Some(0);
        },
    };
    if r.len() < 4 {
        return Some(0);
    }
    let n = decode_u32(r[0], r[1], r[2], r[3], little) as usize;
    let whole: usize = if r.len() >= 12 {
        (r.len() - 12) / 16 + 1
    } else {
        0
    };
    let k = if n < whole {
        n
    } else {
        whole
    };
    let mut total: u64 = 0;
    let mut i: usize = 0;
    while i < k
        invariant
            k <= whole,
            whole == whole_buffers(r@.len()),
            i <= k,
            total == channel_sum(r@, little, i as nat),
            total <= u32::MAX,
            r@.len() >= 4,
            n == word_at(r@, 0, little) as usize,
            k == (if (word_at(r@, 0, little) as nat) < whole_buffers(r@.len()) {
                word_at(r@, 0, little) as nat
            } else {
                whole_buffers(r@.len())
            }),
            match raw {
                Some(v) => Some(v@),
                None => None,
            } == Some(r@),
        decreases k - i,
    {
        assert(12 + 16 * i <= r@.len()) by (nonlinear_arith)
            requires
                i < k,
                k <= whole,
                r@.len() >= 12 ==> whole == (r@.len() - 12) / 16 + 1,
                r@.len() < 12 ==> whole == 0,
        ;
        assert(r@.len() == r.len());
        let at = 8 + 16 * i;
        let c = decode_u32(r[at], r[at + 1], r[at + 2], r[at + 3], little);
        total = total + c as u64;
        if total > 0xFFFF_FFFF {
            proof {
                lemma_channel_sum_grows(r@, little, (i + 1) as nat, k as nat);
            }
            return None;
        }
        i = i + 1;
    }
    Some(total as u32)
}

proof fn lemma_channel_sum_grows(raw: Seq<u8>, little: bool, a: nat, b: nat)
    requires
        a <= b,
    ensures
        channel_sum(raw, little, a) <= channel_sum(raw, little, b),
    decreases b,
{
    if a < b {
        lemma_channel_sum_grows(raw, little, a, (b - 1) as nat);
    }
}

/// A name with a numbered fallback: `name`, or `prefix` and the decimal `id`
/// when the name could not be read.
pub open spec fn name_or(name: Option<Seq<char>>, prefix: Seq<char>, id: u32) -> Seq<char> {
    match name {
        Some(n) => n,
        None => prefix + decimal(id as nat),
    }
}

fn name_or_number(name: Option<String>, prefix: &str, id: u32) -> (res: String)
    ensures
        res@ == name_or(
            match name {
                Some(n) => Some(n@),
                None => None,
            },
            prefix@,
            id,
        ),
{
    match name {
        Some(n) => n,
        None => {
            let mut s = String::new();
            push_str(&mut s, prefix);
            let d = decimal_chars(id as u64);
            push_chars(&mut s, &d);
            s
        },
    }
}

/// An audio device's name, or "audio device N" when it could not be read.
pub fn audio_device_name(name: Option<String>, dev: u32) -> (res: String)
    ensures
        res@ == name_or(
            match name {
                Some(n) => Some(n@),
                None => None,
            },
            "audio device "@,
            dev,
        ),
{
    name_or_number(name, "audio device ", dev)
}

/// A camera's name, or "camera N" when it could not be read.
pub fn camera_name(name: Option<String>, dev: u32) -> (res: String)
    ensures
        res@ == name_or(
            match name {
                Some(n) => Some(n@),
                None => None,
            },
            "camera "@,
            dev,
        ),
{
    name_or_number(name, "camera ", dev)
}

/// How a process running input is named: its bundle id, or "pid N" when it
/// has none.
pub open spec fn process_label_view(bundle: Seq<char>, pid: u32) -> Seq<char> {
    if bundle.len() == 0 {
        "pid "@ + decimal(pid as nat)
    } else {
        bundle
    }
}

/// The name of a process running input (see [`process_label_view`]).
pub fn process_label(bundle: String, pid: u32) -> (res: String)
    ensures
        res@ == process_label_view(bundle@, pid),
{
    if bundle.as_str().unicode_len() == 0 {
        let mut s = String::new();
        push_str(&mut s, "pid ");
        let d = decimal_chars(pid as u64);
        push_chars(&mut s, &d);
        s
    } else {
        bundle
    }
}

/// The names reported for the microphone: the running input devices that are
/// not ignored, followed, when there is one or when process-level detection
/// is on, by the apps running input that are not ignored; without repeats.
pub open spec fn mic_users_view(cfg: crate::config::ConfigView, devices: Seq<Seq<char>>, apps: Seq<
    Seq<char>,
>) -> Seq<Seq<char>> {
    let out = not_ignored(cfg.ignore_devices, devices);
    let apps = not_ignored(cfg.ignore_apps, apps);
    if out.len() > 0 || cfg.process_level_detection {
        dedup_view(out + apps)
    } else {
        dedup_view(out)
    }
}

/// Appends copies of `more` to `out`.
pub fn append_strings(out: &mut Vec<String>, more: &Vec<String>)
    ensures
        string_views(final(out)@) == string_views(old(out)@) + string_views(more@),
{
    let ghost a = string_views(out@);
    let mut j: usize = 0;
    while j < more.len()
        invariant
            j <= more.len(),
            a == string_views(old(out)@),
            string_views(out@) == a + string_views(more@).take(j as int),
        decreases more.len() - j,
    {
        let ghost before = out@;
        let s = more[j].clone();
        out.push(s);
        proof {
            lemma_string_views_push(before, s);
            assert(string_views(more@).take(j + 1) =~= string_views(more@).take(j as int).push(
                more@[j as int]@,
            ));
        }
        j = j + 1;
    }
    assert(string_views(more@).take(more.len() as int) =~= string_views(more@));
}

/// The CoreAudio / CoreMediaIO detector.
pub struct MacDetector;

impl MacDetector {
    /// A detector; it keeps no state between polls.
    pub fn new() -> (d: Self) {
        MacDetector
    }

    /// Who is using the microphone, from the names of the input devices that
    /// have channels and are running somewhere, and the names of the processes
    /// running input (see [`mic_users_view`]).
    pub fn mic_active(&self, cfg: &Config, devices: Vec<String>, apps: Vec<String>) -> (res: Vec<
        String,
    >)
        ensures
            string_views(res@) == mic_users_view(cfg@, string_views(devices@), string_views(
                apps@,
            )),
    {
        let mut out = keep_not_ignored(&cfg.ignore_devices, devices);
        let apps = keep_not_ignored(&cfg.ignore_apps, apps);
        if out.len() > 0 || cfg.process_level_detection {
            append_strings(&mut out, &apps);
        }
        dedup(out)
    }

    /// Which cameras are in use, from the names of the cameras running
    /// somewhere: those that are not ignored.
    pub fn camera_active(&self, cfg: &Config, cameras: Vec<String>) -> (res: Vec<String>)
        ensures
            string_views(res@) == not_ignored(cfg@.ignore_devices, string_views(cameras@)),
    {
        keep_not_ignored(&cfg.ignore_devices, cameras)
    }
}

} // verus!
