//! The Luxafor Flag protocol and the rules for reconnecting to the flag.
//!
//! The flag takes 9-byte HID output reports, byte 0 being the report id 0:
//!   01 LED R G B                static colour
//!   02 LED R G B 00 SPEED       fade to colour
//!   03 LED R G B SPEED 00 N     strobe N times (0 = forever)
//! LED: 0xFF all, 0x41 front (tab side), 0x42 back, 1..=6 single LED.

use vstd::prelude::*;
use crate::config::Rgb;

verus! {

/// USB vendor id of the Luxafor Flag.
pub const VID: u16 = 0x04D8;

/// USB product id of the Luxafor Flag.
pub const PID: u16 = 0xF372;

/// The LED address meaning "all LEDs".
pub const LED_ALL: u8 = 0xFF;

/// Minimum time between two attempts to open the flag, unless forced.
pub const RECONNECT_EVERY_MS: u64 = 2_000;

/// Minimum time between two checks that a connected flag is still plugged in.
pub const VERIFY_EVERY_MS: u64 = 2_000;

/// The 9-byte report carrying `payload`: byte 0 is the report id 0, the
/// payload follows, the rest is zero.
pub open spec fn report_of(payload: Seq<u8>) -> Seq<u8> {
    Seq::new(9, |i: int| if 1 <= i <= payload.len() { payload[i - 1] } else { 0u8 })
}

/// The report for `payload`.
pub fn frame(payload: &[u8]) -> (buf: [u8; 9])
    requires
        payload@.len() <= 8,
    ensures
        buf@ == report_of(payload@),
{
    let mut buf = [0u8; 9];
    let mut i: usize = 0;
    while i < payload.len()
        invariant
            payload@.len() <= 8,
            i <= payload@.len(),
            forall|j: int| 1 <= j <= i ==> buf@[j] == payload@[j - 1],
            forall|j: int| (j == 0 || i < j < 9) ==> buf@[j] == 0,
            buf@.len() == 9,
        decreases payload.len() - i,
    {
        buf[i + 1] = payload[i];
        i = i + 1;
    }
    assert(buf@ =~= report_of(payload@));
    buf
}

/// Static colour on all LEDs.
pub fn colour_report(rgb: Rgb) -> (buf: [u8; 9])
    ensures
        buf@ == report_of(seq![0x01u8, LED_ALL, rgb[0], rgb[1], rgb[2]]),
{
    let p = [0x01u8, LED_ALL, rgb[0], rgb[1], rgb[2]];
    let b = frame(&p);
    assert(p@ =~= seq![0x01u8, LED_ALL, rgb[0], rgb[1], rgb[2]]);
    b
}

/// Fade all LEDs to a colour at `speed`.
pub fn fade_report(rgb: Rgb, speed: u8) -> (buf: [u8; 9])
    ensures
        buf@ == report_of(seq![0x02u8, LED_ALL, rgb[0], rgb[1], rgb[2], 0x00u8, speed]),
{
    let p = [0x02u8, LED_ALL, rgb[0], rgb[1], rgb[2], 0x00u8, speed];
    let b = frame(&p);
    assert(p@ =~= seq![0x02u8, LED_ALL, rgb[0], rgb[1], rgb[2], 0x00u8, speed]);
    b
}

/// Strobe all LEDs in a colour `repeat` times (0 = forever) at `speed`.
pub fn strobe_report(rgb: Rgb, speed: u8, repeat: u8) -> (buf: [u8; 9])
    ensures
        buf@ == report_of(seq![0x03u8, LED_ALL, rgb[0], rgb[1], rgb[2], speed, 0x00u8, repeat]),
{
    let p = [0x03u8, LED_ALL, rgb[0], rgb[1], rgb[2], speed, 0x00u8, repeat];
    let b = frame(&p);
    assert(p@ =~= seq![0x03u8, LED_ALL, rgb[0], rgb[1], rgb[2], speed, 0x00u8, repeat]);
    b
}

/// All LEDs off: static black.
pub fn off_report() -> (buf: [u8; 9])
    ensures
        buf@ == report_of(seq![0x01u8, LED_ALL, 0u8, 0u8, 0u8]),
{
    colour_report([0, 0, 0])
}

/// Milliseconds from `earlier` to `later`, or 0 if `later` is not after it.
pub open spec fn since(later: u64, earlier: u64) -> nat {
    if later >= earlier {
        (later - earlier) as nat
    } else {
        0
    }
}

/// When the flag was last looked for and last checked.
pub struct Link {
    /// The last attempt to open the flag (or the moment it was found unplugged).
    pub last_attempt: Option<u64>,
    /// The last check that the open flag is still enumerated.
    pub last_verify: Option<u64>,
}

/// An attempt to open the flag is due at `now`: it is not open, and either
/// the attempt is forced or the last one is at least
/// [`RECONNECT_EVERY_MS`] old.
pub open spec fn connect_due(l: Link, connected: bool, force: bool, now: u64) -> bool {
    !connected && (force || match l.last_attempt {
        Some(t) => since(now, t) >= RECONNECT_EVERY_MS,
        None => true,
    })
}

/// A presence check is due at `now`: the flag is open and the last check is
/// at least [`VERIFY_EVERY_MS`] old.
pub open spec fn verify_due(l: Link, connected: bool, now: u64) -> bool {
    connected && match l.last_verify {
        Some(t) => since(now, t) >= VERIFY_EVERY_MS,
        None => true,
    }
}

impl Link {
    /// Never attempted, never checked.
    pub fn new() -> (l: Self)
        ensures
            l.last_attempt is None,
            l.last_verify is None,
    {
        Link { last_attempt: None, last_verify: None }
    }

    /// Whether to try to open the flag now; if so, the attempt is recorded.
    pub fn begin_connect(&mut self, connected: bool, force: bool, now: u64) -> (due: bool)
        ensures
            due == connect_due(*old(self), connected, force, now),
            final(self).last_attempt == (if due {
                Some(now)
            } else {
                old(self).last_attempt
            }),
            final(self).last_verify == old(self).last_verify,
    {
        if connected {
            return false;
        }
        if !force {
            if let Some(t) = self.last_attempt {
                let gap = if now >= t {
                    now - t
                } else {
                    0
                };
                if gap < RECONNECT_EVERY_MS {
                    return false;
                }
            }
        }
        self.last_attempt = Some(now);
        true
    }

    /// Whether to check now that the open flag is still present; if so, the
    /// check is recorded.
    pub fn begin_verify(&mut self, connected: bool, now: u64) -> (due: bool)
        ensures
            due == verify_due(*old(self), connected, now),
            final(self).last_verify == (if due {
                Some(now)
            } else {
                old(self).last_verify
            }),
            final(self).last_attempt == old(self).last_attempt,
    {
        if !connected {
            return false;
        }
        if let Some(t) = self.last_verify {
            let gap = if now >= t {
                now - t
            } else {
                0
            };
            if gap < VERIFY_EVERY_MS {
                return false;
            }
        }
        self.last_verify = Some(now);
        true
    }

    /// Records that the flag was found unplugged at `now`; the next
    /// reconnection attempt waits its turn from here.
    pub fn unplugged(&mut self, now: u64)
        ensures
            final(self).last_attempt == Some(now),
            final(self).last_verify == old(self).last_verify,
    {
        self.last_attempt = Some(now);
    }
}

} // verus!
