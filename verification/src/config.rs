//! User configuration: the settings model, its defaults, the bounds it is
//! held to, colour scaling by brightness and the ignore lists.

use vstd::prelude::*;
use crate::text::{chars_of, contains, has_substring, lowercase, to_lowercase};

verus! {

broadcast use vstd::string::group_string_axioms;

/// A colour as red, green and blue intensities.
pub type Rgb = [u8; 3];

/// The settings of the app, as stored in its JSON config file.
#[derive(Clone, Debug, PartialEq)]
pub struct Config {
    /// Colour while the microphone (or camera) is in use.
    pub busy_colour: Rgb,
    /// Colour while nothing is capturing.
    pub free_colour: Rgb,
    /// Colour while paused from the tray menu (black = off).
    pub paused_colour: Rgb,
    /// Colour while the screen is locked and nothing is busy (black = off).
    pub locked_colour: Rgb,
    /// Show `locked_colour` when the screen is locked.
    pub lock_detection: bool,
    /// Minutes a plain "Force busy" click lasts (0 = until turned off).
    pub force_busy_default_minutes: u64,
    /// How long a "test light" colour stays before normal control resumes.
    pub test_duration_s: u64,
    /// Treat camera use as busy too.
    pub use_camera: bool,
    /// Overall brightness 1..=100, applied to every colour.
    pub brightness: u8,
    /// How often to poll the OS, in milliseconds.
    pub poll_interval_ms: u64,
    /// Keep showing busy this long after the last activity.
    pub busy_hold_ms: u64,
    /// Fade speed for transitions (1 = instant-ish, larger = slower).
    pub fade_speed: u8,
    /// Input devices to ignore (case-insensitive substring of the device name).
    pub ignore_devices: Vec<String>,
    /// Apps to ignore (case-insensitive substring of the app name).
    pub ignore_apps: Vec<String>,
    /// Also treat a process reporting "input running" as busy.
    pub process_level_detection: bool,
}

/// The character sequences of a list of strings.
pub open spec fn string_views(v: Seq<String>) -> Seq<Seq<char>> {
    v.map_values(|s: String| s@)
}

/// Pushing a string pushes its characters onto the views.
pub proof fn lemma_string_views_push(a: Seq<String>, x: String)
    ensures
        string_views(a.push(x)) == string_views(a).push(x@),
{
    assert(string_views(a.push(x)) =~= string_views(a).push(x@));
}

/// The mathematical value of a [`Config`]: its fields, with strings as
/// character sequences.
pub struct ConfigView {
    pub busy_colour: Seq<u8>,
    pub free_colour: Seq<u8>,
    pub paused_colour: Seq<u8>,
    pub locked_colour: Seq<u8>,
    pub lock_detection: bool,
    pub force_busy_default_minutes: u64,
    pub test_duration_s: u64,
    pub use_camera: bool,
    pub brightness: u8,
    pub poll_interval_ms: u64,
    pub busy_hold_ms: u64,
    pub fade_speed: u8,
    pub ignore_devices: Seq<Seq<char>>,
    pub ignore_apps: Seq<Seq<char>>,
    pub process_level_detection: bool,
}

impl View for Config {
    type V = ConfigView;

    open spec fn view(&self) -> ConfigView {
        ConfigView {
            busy_colour: self.busy_colour@,
            free_colour: self.free_colour@,
            paused_colour: self.paused_colour@,
            locked_colour: self.locked_colour@,
            lock_detection: self.lock_detection,
            force_busy_default_minutes: self.force_busy_default_minutes,
            test_duration_s: self.test_duration_s,
            use_camera: self.use_camera,
            brightness: self.brightness,
            poll_interval_ms: self.poll_interval_ms,
            busy_hold_ms: self.busy_hold_ms,
            fade_speed: self.fade_speed,
            ignore_devices: string_views(self.ignore_devices@),
            ignore_apps: string_views(self.ignore_apps@),
            process_level_detection: self.process_level_detection,
        }
    }
}

/// `x` held to `lo..=hi` (`Ord::clamp`).
pub open spec fn clamp(x: int, lo: int, hi: int) -> int {
    if x < lo {
        lo
    } else if x > hi {
        hi
    } else {
        x
    }
}

/// The config with every bounded setting held to its range, as
/// [`Config::sanitised`] returns it.
pub open spec fn sanitised_view(c: ConfigView) -> ConfigView {
    ConfigView {
        brightness: clamp(c.brightness as int, 1, 100) as u8,
        poll_interval_ms: clamp(c.poll_interval_ms as int, 100, 10_000) as u64,
        busy_hold_ms: if c.busy_hold_ms > 60_000 {
            60_000u64
        } else {
            c.busy_hold_ms
        },
        fade_speed: if c.fade_speed < 1 {
            1u8
        } else {
            c.fade_speed
        },
        force_busy_default_minutes: if c.force_busy_default_minutes > 1440 {
            1440u64
        } else {
            c.force_busy_default_minutes
        },
        test_duration_s: clamp(c.test_duration_s as int, 1, 600) as u64,
        ..c
    }
}

/// Every bounded setting lies in its range.
pub open spec fn within_bounds(c: ConfigView) -> bool {
    &&& 1 <= c.brightness <= 100
    &&& 100 <= c.poll_interval_ms <= 10_000
    &&& c.busy_hold_ms <= 60_000
    &&& c.fade_speed >= 1
    &&& c.force_busy_default_minutes <= 24 * 60
    &&& 1 <= c.test_duration_s <= 600
}

/// One colour component scaled by a brightness percentage; the result is
/// truncated to eight bits as the `as u8` cast does.
pub open spec fn scale_component(c: u8, brightness: u8) -> u8 {
    ((c as u32 * brightness as u32) / 100) as u8
}

/// A colour scaled by a brightness percentage.
pub open spec fn scaled_view(rgb: Seq<u8>, brightness: u8) -> Seq<u8> {
    seq![
        scale_component(rgb[0], brightness),
        scale_component(rgb[1], brightness),
        scale_component(rgb[2], brightness),
    ]
}

/// Some non-empty entry of `list`, lower-cased, occurs in the lower-cased `name`.
pub open spec fn ignores(list: Seq<Seq<char>>, name: Seq<char>) -> bool {
    exists|i: int|
        0 <= i < list.len() && list[i].len() > 0 && #[trigger] has_substring(
            lowercase(name),
            lowercase(list[i]),
        )
}

/// Whether a non-empty entry of `list` occurs in `name`, ignoring case.
pub fn ignores_name(list: &Vec<String>, name: &str) -> (res: bool)
    ensures
        res == ignores(string_views(list@), name@),
{
    let n = chars_of(to_lowercase(name).as_str());
    let ghost views = string_views(list@);
    let mut i: usize = 0;
    while i < list.len()
        invariant
            i <= list.len(),
            views == string_views(list@),
            n@ == lowercase(name@),
            forall|j: int|
                0 <= j < i ==> !(views[j].len() > 0 && #[trigger] has_substring(
                    lowercase(name@),
                    lowercase(views[j]),
                )),
        decreases list.len() - i,
    {
        let a = list[i].as_str();
        let a_chars = chars_of(a);
        if a_chars.len() > 0 {
            let al = chars_of(to_lowercase(a).as_str());
            if contains(&n, &al) {
                assert(views[i as int] == a@);
                return true;
            }
        }
        i = i + 1;
    }
    false
}

/// The default config: red busy, green free, black (off) while paused, amber
/// while locked, the common macOS system listeners ignored.
pub open spec fn is_default(c: ConfigView) -> bool {
    &&& c.busy_colour == seq![255u8, 0u8, 0u8]
    &&& c.free_colour == seq![0u8, 255u8, 0u8]
    &&& c.paused_colour == seq![0u8, 0u8, 0u8]
    &&& c.locked_colour == seq![255u8, 170u8, 0u8]
    &&& c.lock_detection
    &&& c.force_busy_default_minutes == 30
    &&& c.test_duration_s == 3
    &&& !c.use_camera
    &&& c.brightness == 100
    &&& c.poll_interval_ms == 500
    &&& c.busy_hold_ms == 2000
    &&& c.fade_speed == 10
    &&& c.ignore_devices == Seq::<Seq<char>>::empty()
    &&& c.ignore_apps == seq![
        "com.apple.CoreSpeech"@,
        "com.apple.assistantd"@,
        "com.apple.Siri"@,
        "com.apple.SiriNCService"@,
    ]
    &&& !c.process_level_detection
}

impl Default for Config {
    fn default() -> (c: Self)
        ensures
            is_default(c@),
    {
        let mut ignore_apps: Vec<String> = Vec::new();
        ignore_apps.push(String::from_str("com.apple.CoreSpeech"));
        ignore_apps.push(String::from_str("com.apple.assistantd"));
        ignore_apps.push(String::from_str("com.apple.Siri"));
        ignore_apps.push(String::from_str("com.apple.SiriNCService"));
        let c = Config {
            busy_colour: [255, 0, 0],
            free_colour: [0, 255, 0],
            paused_colour: [0, 0, 0],
            locked_colour: [255, 170, 0],
            lock_detection: true,
            force_busy_default_minutes: 30,
            test_duration_s: 3,
            use_camera: false,
            brightness: 100,
            poll_interval_ms: 500,
            busy_hold_ms: 2000,
            fade_speed: 10,
            ignore_devices: Vec::new(),
            ignore_apps,
            process_level_detection: false,
        };
        assert(c@.busy_colour =~= seq![255u8, 0u8, 0u8]);
        assert(c@.free_colour =~= seq![0u8, 255u8, 0u8]);
        assert(c@.paused_colour =~= seq![0u8, 0u8, 0u8]);
        assert(c@.locked_colour =~= seq![255u8, 170u8, 0u8]);
        assert(c@.ignore_devices =~= Seq::<Seq<char>>::empty());
        assert(c@.ignore_apps =~= seq![
            "com.apple.CoreSpeech"@,
            "com.apple.assistantd"@,
            "com.apple.Siri"@,
            "com.apple.SiriNCService"@,
        ]);
        c
    }
}

/// `x` held to `lo..=hi`.
fn clamp_u64(x: u64, lo: u64, hi: u64) -> (r: u64)
    requires
        lo <= hi,
    ensures
        r == clamp(x as int, lo as int, hi as int),
{
    if x < lo {
        lo
    } else if x > hi {
        hi
    } else {
        x
    }
}

/// One colour component scaled by a brightness percentage.
fn scale_one(c: u8, brightness: u8) -> (r: u8)
    ensures
        r == scale_component(c, brightness),
{
    let x = c as u32;
    let b = brightness as u32;
    assert(x * b <= 255 * 255) by (nonlinear_arith)
        requires
            x <= 255,
            b <= 255,
    ;
    #[verifier::truncate]
    ((x * b / 100) as u8)
}

/// A copy of a list of strings.
pub fn copy_strings(v: &Vec<String>) -> (res: Vec<String>)
    ensures
        string_views(res@) == string_views(v@),
{
    let mut res: Vec<String> = Vec::new();
    let mut i: usize = 0;
    while i < v.len()
        invariant
            i <= v.len(),
            string_views(res@) == string_views(v@).take(i as int),
        decreases v.len() - i,
    {
        let s = v[i].clone();
        assert(s@ == v@[i as int]@);
        let ghost before = res@;
        res.push(s);
        proof {
            lemma_string_views_push(before, s);
            assert(string_views(v@).take(i + 1) =~= string_views(v@).take(i as int).push(
                v@[i as int]@,
            ));
        }
        i = i + 1;
    }
    assert(string_views(v@).take(v.len() as int) =~= string_views(v@));
    res
}

impl Config {
    /// A copy of this config.
    pub fn copy(&self) -> (res: Self)
        ensures
            res@ == self@,
    {
        Config {
            busy_colour: self.busy_colour,
            free_colour: self.free_colour,
            paused_colour: self.paused_colour,
            locked_colour: self.locked_colour,
            lock_detection: self.lock_detection,
            force_busy_default_minutes: self.force_busy_default_minutes,
            test_duration_s: self.test_duration_s,
            use_camera: self.use_camera,
            brightness: self.brightness,
            poll_interval_ms: self.poll_interval_ms,
            busy_hold_ms: self.busy_hold_ms,
            fade_speed: self.fade_speed,
            ignore_devices: copy_strings(&self.ignore_devices),
            ignore_apps: copy_strings(&self.ignore_apps),
            process_level_detection: self.process_level_detection,
        }
    }

    /// The config with every bounded setting held to its range: brightness
    /// 1..=100, poll interval 100..=10 000 ms, hold time at most a minute, fade
    /// speed at least 1, force-busy default at most a day, test duration
    /// 1..=600 s. Other settings are unchanged.
    pub fn sanitised(self) -> (res: Self)
        ensures
            res@ == sanitised_view(self@),
            within_bounds(res@),
    {
        let mut c = self;
        c.brightness = clamp_u64(c.brightness as u64, 1, 100) as u8;
        c.poll_interval_ms = clamp_u64(c.poll_interval_ms, 100, 10_000);
        if c.busy_hold_ms > 60_000 {
            c.busy_hold_ms = 60_000;
        }
        if c.fade_speed < 1 {
            c.fade_speed = 1;
        }
        if c.force_busy_default_minutes > 24 * 60 {
            c.force_busy_default_minutes = 24 * 60;
        }
        c.test_duration_s = clamp_u64(c.test_duration_s, 1, 600);
        c
    }

    /// `rgb` with each component multiplied by `brightness / 100`, rounded
    /// down and truncated to eight bits.
    pub fn scaled(&self, rgb: Rgb) -> (res: Rgb)
        ensures
            res@ == scaled_view(rgb@, self.brightness),
    {
        let b = self.brightness;
        let r = [scale_one(rgb[0], b), scale_one(rgb[1], b), scale_one(rgb[2], b)];
        assert(r@ =~= scaled_view(rgb@, self.brightness));
        r
    }

    /// Whether `name` contains, ignoring case, a non-empty entry of `ignore_apps`.
    pub fn ignores_app(&self, name: &str) -> (res: bool)
        ensures
            res == ignores(self@.ignore_apps, name@),
    {
        ignores_name(&self.ignore_apps, name)
    }

    /// Whether `name` contains, ignoring case, a non-empty entry of `ignore_devices`.
    pub fn ignores_device(&self, name: &str) -> (res: bool)
        ensures
            res == ignores(self@.ignore_devices, name@),
    {
        ignores_name(&self.ignore_devices, name)
    }
}

} // verus!
