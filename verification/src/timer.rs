//! The time service: conversions around the architectural generic
//! timer, the timer-interrupt policy, and the wall clock seeded once
//! from the real-time clock.
//!
//! The hardware gives two values the kernel cannot compute: the timer
//! frequency and the free-running 64-bit counter. Both arrive here as
//! arguments; everything derived from them is verified, including that
//! uptime never decreases when the counter does not.

use vstd::prelude::*;

use crate::calendar;
use crate::calendar::DateTime;
use crate::gic;

verus! {

/// Microseconds per second.
pub const USEC_PER_SEC: u64 = 1_000_000;

/// The timer's private peripheral interrupt identifier.
pub const TIMER_IRQ: u32 = 30;

/// The scheduling tick period programmed at boot.
pub const TIMER_PERIOD_US: u64 = 10_000;

/// MMIO base of the PL031 real-time clock; the data register sits at
/// offset zero and holds seconds since the UNIX epoch.
pub const RTC_MMIO_BASE: u64 = 0x0901_0000;

/// Counter ticks converted to microseconds: `ticks * 1_000_000 / freq`,
/// rounded down.
pub open spec fn spec_ticks_to_us(ticks: u64, freq: u64) -> int {
    ticks * USEC_PER_SEC / (freq as int)
}

/// Microseconds converted to counter ticks: `us * freq / 1_000_000`,
/// rounded down.
pub open spec fn spec_us_to_ticks(us: u64, freq: u64) -> int {
    us * freq / (USEC_PER_SEC as int)
}

/// Convert a counter value to microseconds of uptime.
pub fn ticks_to_us(ticks: u64, freq: u64) -> (us: u64)
    requires
        1 <= freq,
        spec_ticks_to_us(ticks, freq) <= u64::MAX,
    ensures
        us == spec_ticks_to_us(ticks, freq),
{
    let wide: u128 = (ticks as u128) * (USEC_PER_SEC as u128) / (freq as u128);
    wide as u64
}

/// Convert a period in microseconds to counter ticks.
pub fn us_to_ticks(us: u64, freq: u64) -> (ticks: u64)
    requires
        1 <= freq,
        spec_us_to_ticks(us, freq) <= u64::MAX,
    ensures
        ticks == spec_us_to_ticks(us, freq),
{
    let wide: u128 = (us as u128) * (freq as u128) / (USEC_PER_SEC as u128);
    wide as u64
}

/// Uptime is monotone: a counter that has not gone backwards never
/// converts to fewer microseconds.
pub proof fn lemma_uptime_monotonic(t1: u64, t2: u64, freq: u64)
    requires
        1 <= freq,
        t1 <= t2,
    ensures
        spec_ticks_to_us(t1, freq) <= spec_ticks_to_us(t2, freq),
{
    vstd::arithmetic::mul::lemma_mul_inequality(t1 as int, t2 as int, USEC_PER_SEC as int);
    vstd::arithmetic::div_mod::lemma_div_is_ordered(
        t1 * USEC_PER_SEC,
        t2 * USEC_PER_SEC,
        freq as int,
    );
}

/// What the timer interrupt handler does: reprogram the compare
/// register one period ahead and raise the scheduler interrupt on the
/// current CPU. No scheduling work happens inside the timer interrupt
/// itself.
pub fn timer_irq_actions(now_ticks: u64, period_ticks: u64) -> (r: (u64, u32))
    requires
        now_ticks + period_ticks <= u64::MAX,
    ensures
        r.0 == now_ticks + period_ticks,
        r.1 == gic::SGI_SCHEDULER,
{
    (now_ticks + period_ticks, gic::SGI_SCHEDULER)
}

/// Time bookkeeping: the frequency read from the hardware at
/// initialization, and the wall-clock offset captured once from the
/// real-time clock.
pub struct TimeState {
    /// Ticks per second of the architectural timer; positive.
    pub freq: u64,
    /// Seconds since the UNIX epoch at counter zero; zero when no
    /// real-time clock was found.
    pub wall_offset_secs: u64,
    /// Whether the real-time clock was present and sampled.
    pub rtc_available: bool,
}

impl TimeState {
    /// Initialize from the frequency register; the wall clock starts
    /// unset.
    pub fn new(freq: u64) -> (t: TimeState)
        requires
            1 <= freq,
        ensures
            t.freq == freq,
            t.wall_offset_secs == 0,
            !t.rtc_available,
    {
        TimeState { freq, wall_offset_secs: 0, rtc_available: false }
    }

    /// Record the one boot-time sample of the real-time clock, if the
    /// device answered; without it the wall clock stays at zero.
    pub fn init_utc_from_rtc(&mut self, rtc_secs: Option<u64>) -> (ok: bool)
        ensures
            final(self).freq == old(self).freq,
            rtc_secs is Some ==> ok && final(self).wall_offset_secs == rtc_secs->0
                && final(self).rtc_available,
            rtc_secs is None ==> !ok && final(self).wall_offset_secs == old(
                self,
            ).wall_offset_secs && final(self).rtc_available == old(self).rtc_available,
    {
        match rtc_secs {
            Option::Some(secs) => {
                self.wall_offset_secs = secs;
                self.rtc_available = true;
                true
            },
            Option::None => false,
        }
    }

    /// Microseconds of uptime for a counter value.
    pub fn uptime_us(&self, now_ticks: u64) -> (us: u64)
        requires
            1 <= self.freq,
            spec_ticks_to_us(now_ticks, self.freq) <= u64::MAX,
        ensures
            us == spec_ticks_to_us(now_ticks, self.freq),
    {
        ticks_to_us(now_ticks, self.freq)
    }

    /// Wall-clock seconds for a counter value: the boot offset plus
    /// whole seconds of uptime.
    pub fn wall_secs(&self, now_ticks: u64) -> (secs: u64)
        requires
            1 <= self.freq,
            spec_ticks_to_us(now_ticks, self.freq) <= u64::MAX,
            self.wall_offset_secs + spec_ticks_to_us(now_ticks, self.freq) / (USEC_PER_SEC as int)
                <= u64::MAX,
        ensures
            secs == self.wall_offset_secs + spec_ticks_to_us(now_ticks, self.freq)
                / (USEC_PER_SEC as int),
    {
        let up = self.uptime_us(now_ticks);
        self.wall_offset_secs + up / USEC_PER_SEC
    }

    /// The wall clock for a counter value, written `YYYY-MM-DDTHH:MM:SSZ`.
    ///
    /// `None` only for instants at or beyond year 10000, which the
    /// four-digit format cannot carry.
    pub fn utc_iso8601(&self, now_ticks: u64) -> (r: Option<String>)
        requires
            1 <= self.freq,
            spec_ticks_to_us(now_ticks, self.freq) <= u64::MAX,
            self.wall_offset_secs + spec_ticks_to_us(now_ticks, self.freq) / (USEC_PER_SEC as int)
                <= u64::MAX,
        ensures
            ({
                let secs = self.wall_offset_secs + spec_ticks_to_us(now_ticks, self.freq) / (
                USEC_PER_SEC as int);
                &&& (r is Some <==> secs / (calendar::SECS_PER_DAY as int)
                    < calendar::spec_days_before_year(10000))
                &&& r is Some ==> exists|dt: DateTime|
                    #![auto]
                    dt.wf() && dt.spec_total_secs() == secs && r->0@ == calendar::spec_iso8601(dt)
            }),
    {
        let secs = self.wall_secs(now_ticks);
        match calendar::datetime_from_secs(secs) {
            Option::Some(dt) => {
                let s = calendar::format_iso8601(&dt);
                proof {
                    assert(dt.wf() && dt.spec_total_secs() == secs && s@ == calendar::spec_iso8601(
                        dt,
                    ));
                }
                Option::Some(s)
            },
            Option::None => Option::None,
        }
    }
}

} // verus!
