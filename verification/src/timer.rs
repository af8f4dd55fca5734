//! Drift-corrected interval timing and frame-rate measurement.
//!
//! Wall-clock readings enter as plain millisecond values; the caller
//! reads its monotonic clock, hands the reading in, and blocks for the
//! wait this module computes.

use vstd::prelude::*;

verus! {

/// Milliseconds elapsed from `last` to `now`; a clock reading before
/// `last` counts as no elapsed time.
pub open spec fn spec_elapsed(last: int, now: int) -> int {
    if now >= last {
        now - last
    } else {
        0
    }
}

/// The wait that realigns the schedule: the interval minus the residual
/// of the elapsed time, so that whole overshot intervals are skipped
/// rather than made up.  A zero interval waits not at all.
pub open spec fn spec_wait(last: int, interval: int, now: int) -> int {
    if interval <= 0 {
        0
    } else {
        interval - spec_elapsed(last, now) % interval
    }
}

/// The reference point after one tick: the predicted wake time
/// `now + wait`, not the observed one — the drift-correction invariant.
pub open spec fn spec_next_tick(last: int, interval: int, now: int) -> int {
    now + spec_wait(last, interval, now)
}

/// Rolling measurement of the achieved frame rate.
#[derive(Debug, Clone, Copy, PartialEq, Eq, Structural)]
pub struct FpsPrinter {
    /// When the current measurement window opened, in milliseconds.
    pub last_updated: u64,
    /// Ticks counted since the window opened.
    pub count: u64,
    /// Window length in ticks: the configured target rate.
    pub fps: u32,
}

impl FpsPrinter {
    /// The tick count never outruns the window length.
    pub open spec fn wf(&self) -> bool {
        self.count <= self.fps
    }

    /// A fresh measurement window opening at `now`.
    pub fn new(fps: u32, now: u64) -> (p: FpsPrinter)
        ensures
            p.wf(),
            p.last_updated == now,
            p.count == 0,
            p.fps == fps,
    {
        FpsPrinter { last_updated: now, count: 0, fps }
    }

    /// Counts one tick; on the tick that closes the window, returns the
    /// measured rate in thousandths of a frame per second —
    /// `fps * 1000 / milliseconds elapsed` — and opens a new window.
    /// Within a window, and when the window closed after no measurable
    /// time, there is no sample.
    pub fn print(&mut self, last_updated: u64) -> (r: Option<u64>)
        requires
            old(self).wf(),
        ensures
            final(self).wf(),
            final(self).fps == old(self).fps,
            old(self).count + 1 < old(self).fps ==> {
                &&& final(self).count == old(self).count + 1
                &&& final(self).last_updated == old(self).last_updated
                &&& r == Option::<u64>::None
            },
            old(self).count + 1 >= old(self).fps ==> {
                &&& final(self).count == 0
                &&& final(self).last_updated == last_updated
                &&& {
                    let elapsed = spec_elapsed(old(self).last_updated as int, last_updated as int);
                    if elapsed > 0 {
                        r == Option::<u64>::Some(
                            ((old(self).fps as int) * 1_000_000 / elapsed) as u64,
                        )
                    } else {
                        r == Option::<u64>::None
                    }
                }
            },
    {
        self.count = self.count + 1;
        if self.count >= self.fps as u64 {
            let elapsed = if last_updated >= self.last_updated {
                last_updated - self.last_updated
            } else {
                0
            };
            self.last_updated = last_updated;
            self.count = 0;
            if elapsed > 0 {
                let rate_milli = (self.fps as u64) * 1_000_000 / elapsed;
                proof {
                    lemma_rate_fits(self.fps as int, elapsed as int);
                }
                Some(rate_milli)
            } else {
                None
            }
        } else {
            None
        }
    }
}

/// The scaled rate stays within the 64-bit range.
proof fn lemma_rate_fits(fps: int, elapsed: int)
    requires
        0 <= fps <= u32::MAX,
        elapsed > 0,
    ensures
        0 <= fps * 1_000_000 / elapsed <= u32::MAX as int * 1_000_000,
{
    assert(fps * 1_000_000 <= u32::MAX as int * 1_000_000) by (nonlinear_arith)
        requires
            0 <= fps <= u32::MAX,
    ;
    assert(0 <= fps * 1_000_000 / elapsed <= fps * 1_000_000) by (nonlinear_arith)
        requires
            elapsed > 0,
            fps * 1_000_000 >= 0,
    ;
}

/// The interval timer that paces playback.
///
/// All times are milliseconds of the caller's monotonic clock.
#[derive(Debug, Clone, Copy, PartialEq, Eq, Structural)]
pub struct Timer {
    /// Target wait between ticks, in milliseconds; replaced before each
    /// sleep with the delay of the frame about to be displayed.
    pub interval: u64,
    /// Clock reading at construction.
    pub initialize_time: u64,
    /// The reference point of the schedule: the predicted time of the
    /// last tick.
    pub last_updated: u64,
    /// Rolling measurement of the achieved rate.
    pub printer: FpsPrinter,
}

impl Timer {
    /// The rate measurement is well formed.
    pub open spec fn wf(&self) -> bool {
        self.printer.wf()
    }

    /// A timer aiming at `fps` ticks per second, created at clock
    /// reading `now_ms`.
    pub fn new(fps: u32, now_ms: u64) -> (t: Timer)
        requires
            fps > 0,
        ensures
            t.wf(),
            t.interval == 1000u64 / fps as u64,
            t.initialize_time == now_ms,
            t.last_updated == now_ms,
            t.printer == FpsPrinter::new_spec(fps, now_ms),
    {
        Timer {
            interval: 1000 / fps as u64,
            initialize_time: now_ms,
            last_updated: now_ms,
            printer: FpsPrinter { last_updated: now_ms, count: 0, fps },
        }
    }

    /// Computes the wait that keeps the schedule aligned and advances the
    /// reference point to the predicted wake time `now_ms + wait`; the
    /// caller then blocks for the returned number of milliseconds.
    ///
    /// Whole intervals already overshot are skipped, and because the new
    /// reference point comes from the intended schedule rather than the
    /// observed wake time, scheduling error never accumulates across
    /// ticks: the reference point always lands within one interval after
    /// `now_ms`.
    pub fn sleep(&mut self, now_ms: u64) -> (wait: u64)
        requires
            old(self).interval > 0 ==> now_ms + old(self).interval <= u64::MAX,
        ensures
            final(self).interval == old(self).interval,
            final(self).initialize_time == old(self).initialize_time,
            final(self).printer == old(self).printer,
            wait == spec_wait(old(self).last_updated as int, old(self).interval as int, now_ms as int),
            final(self).last_updated == spec_next_tick(
                old(self).last_updated as int,
                old(self).interval as int,
                now_ms as int,
            ),
            wait <= old(self).interval,
            old(self).interval > 0 ==> now_ms < final(self).last_updated <= now_ms + old(self).interval,
            old(self).interval > 0 && now_ms >= old(self).last_updated ==> (final(self).last_updated
                - old(self).last_updated) % (old(self).interval as int) == 0,
    {
        if self.interval == 0 {
            self.last_updated = now_ms;
            return 0;
        }
        let elapsed = if now_ms >= self.last_updated {
            now_ms - self.last_updated
        } else {
            0
        };
        let residual = elapsed % self.interval;
        let wait = self.interval - residual;
        proof {
            lemma_tick_on_grid(
                self.last_updated as int,
                self.interval as int,
                now_ms as int,
            );
        }
        self.last_updated = now_ms + wait;
        wait
    }

    /// Counts this tick toward the rolling rate measurement; see
    /// [`FpsPrinter::print`].
    pub fn print(&mut self) -> (r: Option<u64>)
        requires
            old(self).wf(),
        ensures
            final(self).wf(),
            final(self).interval == old(self).interval,
            final(self).initialize_time == old(self).initialize_time,
            final(self).last_updated == old(self).last_updated,
            final(self).printer.fps == old(self).printer.fps,
            old(self).printer.count + 1 < old(self).printer.fps ==> {
                &&& final(self).printer.count == old(self).printer.count + 1
                &&& final(self).printer.last_updated == old(self).printer.last_updated
                &&& r == Option::<u64>::None
            },
            old(self).printer.count + 1 >= old(self).printer.fps ==> {
                &&& final(self).printer.count == 0
                &&& final(self).printer.last_updated == old(self).last_updated
                &&& {
                    let elapsed = spec_elapsed(
                        old(self).printer.last_updated as int,
                        old(self).last_updated as int,
                    );
                    if elapsed > 0 {
                        r == Option::<u64>::Some(
                            ((old(self).printer.fps as int) * 1_000_000 / elapsed) as u64,
                        )
                    } else {
                        r == Option::<u64>::None
                    }
                }
            },
    {
        let at = self.last_updated;
        self.printer.print(at)
    }

    /// Whole seconds since the timer was constructed, given the current
    /// clock reading.
    pub fn get_operating_time(&self, now_ms: u64) -> (secs: u64)
        ensures
            secs == spec_elapsed(self.initialize_time as int, now_ms as int) / 1000,
    {
        let elapsed = if now_ms >= self.initialize_time {
            now_ms - self.initialize_time
        } else {
            0
        };
        elapsed / 1000
    }
}

impl FpsPrinter {
    /// The state `FpsPrinter::new` constructs, for use in contracts.
    pub open spec fn new_spec(fps: u32, now: u64) -> FpsPrinter {
        FpsPrinter { last_updated: now, count: 0, fps }
    }
}

/// One tick advances the reference point by an exact positive multiple of
/// the interval whenever the wake came at or after the old reference.
proof fn lemma_tick_on_grid(last: int, interval: int, now: int)
    requires
        interval > 0,
    ensures
        0 < spec_next_tick(last, interval, now) - now <= interval,
        now >= last ==> (spec_next_tick(last, interval, now) - last) % interval == 0,
{
    let e = spec_elapsed(last, now);
    vstd::arithmetic::div_mod::lemma_mod_bound(e, interval);
    if now >= last {
        vstd::arithmetic::div_mod::lemma_fundamental_div_mod(e, interval);
        let q = e / interval;
        assert(spec_next_tick(last, interval, now) - last == (q + 1) * interval) by (nonlinear_arith)
            requires
                e == interval * q + e % interval,
                spec_next_tick(last, interval, now) - last == e + interval - e % interval,
        ;
        vstd::arithmetic::div_mod::lemma_mod_multiples_basic(q + 1, interval);
    }
}

/// The reference point after a run of ticks, each at the clock reading
/// the sequence gives.
pub open spec fn spec_schedule_after(last: int, interval: int, nows: Seq<int>) -> int
    decreases nows.len(),
{
    if nows.len() == 0 {
        last
    } else {
        spec_schedule_after(
            spec_next_tick(last, interval, nows[0]),
            interval,
            nows.drop_first(),
        )
    }
}

/// Whether every wake in the run came at or after the then-current
/// reference point — back-to-back calls with arbitrary overshoot.
pub open spec fn spec_ticks_in_order(last: int, interval: int, nows: Seq<int>) -> bool
    decreases nows.len(),
{
    if nows.len() == 0 {
        true
    } else {
        nows[0] >= last && spec_ticks_in_order(
            spec_next_tick(last, interval, nows[0]),
            interval,
            nows.drop_first(),
        )
    }
}

/// Law: drift does not accumulate.  Over any run of back-to-back ticks,
/// however each individual wake overshot, the reference point stays on
/// the exact grid `last + k * interval` of the original schedule, and
/// after every tick it lies at most one interval past that tick's clock
/// reading.
pub proof fn lemma_drift_does_not_accumulate(last: int, interval: int, nows: Seq<int>)
    requires
        interval > 0,
        spec_ticks_in_order(last, interval, nows),
    ensures
        (spec_schedule_after(last, interval, nows) - last) % interval == 0,
        nows.len() > 0 ==> 0 < spec_schedule_after(last, interval, nows) - nows.last()
            <= interval,
    decreases nows.len(),
{
    if nows.len() == 0 {
        vstd::arithmetic::div_mod::lemma_mod_self_0(interval);
        assert((0int) % interval == 0);
    } else {
        let stepped = spec_next_tick(last, interval, nows[0]);
        lemma_tick_on_grid(last, interval, nows[0]);
        lemma_drift_does_not_accumulate(stepped, interval, nows.drop_first());
        if nows.len() == 1 {
            assert(spec_schedule_after(last, interval, nows) == stepped);
            assert(nows.last() == nows[0]);
        } else {
            assert(nows.drop_first().last() == nows.last());
        }
        let total = spec_schedule_after(last, interval, nows);
        vstd::arithmetic::div_mod::lemma_add_mod_noop(
            stepped - last,
            total - stepped,
            interval,
        );
        assert((stepped - last) % interval == 0);
        assert((total - stepped) % interval == 0);
        assert(((stepped - last) + (total - stepped)) % interval == (((stepped - last) % interval)
            + ((total - stepped) % interval)) % interval);
        vstd::arithmetic::div_mod::lemma_mod_self_0(interval);
        vstd::arithmetic::div_mod::lemma_small_mod(0, interval as nat);
    }
}

/// A fixed offset from universal time.
#[derive(Debug, Clone, Copy, PartialEq, Eq, Structural)]
pub struct TimeZone {
    /// Offset hours.
    pub hour: u16,
    /// Offset minutes.
    pub minute: u16,
}

/// A calendar date and time of day.
#[derive(Debug, Clone, Copy, PartialEq, Eq, Structural)]
pub struct DateTime {
    pub year: u16,
    pub month: u16,
    pub day: u16,
    pub hour: u16,
    pub minute: u16,
    pub second: u16,
    pub milli_seconds: u16,
}

impl DateTime {
    /// A date and time from its parts.
    pub fn new(
        year: u16,
        month: u16,
        day: u16,
        hour: u16,
        minute: u16,
        second: u16,
        milli_seconds: u16,
    ) -> (d: DateTime)
        ensures
            d == (DateTime { year, month, day, hour, minute, second, milli_seconds }),
    {
        DateTime { year, month, day, hour, minute, second, milli_seconds }
    }
}

/// A date and time together with its zone offset.
#[derive(Debug, Clone, Copy, PartialEq, Eq, Structural)]
pub struct Time {
    pub datetime: DateTime,
    pub timezone: TimeZone,
}

/// The ISO 8601 rendering
/// `yyyy-mm-ddThh:mm:ss.mmm+hh:mm` of a time: each calendar field
/// zero-padded to its place, the milliseconds unpadded.
pub open spec fn spec_iso_8601(t: Time) -> Seq<char> {
    crate::decimal::spec_zero_padded(t.datetime.year as nat, 4) + seq!['-']
        + crate::decimal::spec_zero_padded(t.datetime.month as nat, 2) + seq!['-']
        + crate::decimal::spec_zero_padded(t.datetime.day as nat, 2) + seq!['T']
        + crate::decimal::spec_zero_padded(t.datetime.hour as nat, 2) + seq![':']
        + crate::decimal::spec_zero_padded(t.datetime.minute as nat, 2) + seq![':']
        + crate::decimal::spec_zero_padded(t.datetime.second as nat, 2) + seq!['.']
        + crate::decimal::spec_decimal(t.datetime.milli_seconds as nat) + seq!['+']
        + crate::decimal::spec_zero_padded(t.timezone.hour as nat, 2) + seq![':']
        + crate::decimal::spec_zero_padded(t.timezone.minute as nat, 2)
}

impl Time {
    /// Renders this time in ISO 8601 form.
    pub fn format_iso_8601(&self) -> (s: String)
        ensures
            s@ == spec_iso_8601(*self),
    {
        let mut s = String::from_str("");
        proof {
            reveal_strlit("");
            assert(s@ =~= Seq::<char>::empty());
        }
        crate::decimal::append_padded(&mut s, self.datetime.year, 4);
        s.append("-");
        crate::decimal::append_padded(&mut s, self.datetime.month, 2);
        s.append("-");
        crate::decimal::append_padded(&mut s, self.datetime.day, 2);
        s.append("T");
        crate::decimal::append_padded(&mut s, self.datetime.hour, 2);
        s.append(":");
        crate::decimal::append_padded(&mut s, self.datetime.minute, 2);
        s.append(":");
        crate::decimal::append_padded(&mut s, self.datetime.second, 2);
        s.append(".");
        crate::decimal::append_padded(&mut s, self.datetime.milli_seconds, 0);
        s.append("+");
        crate::decimal::append_padded(&mut s, self.timezone.hour, 2);
        s.append(":");
        crate::decimal::append_padded(&mut s, self.timezone.minute, 2);
        proof {
            reveal_strlit("-");
            reveal_strlit("T");
            reveal_strlit(":");
            reveal_strlit(".");
            reveal_strlit("+");
            assert(("-")@ =~= seq!['-']);
            assert(("T")@ =~= seq!['T']);
            assert((":")@ =~= seq![':']);
            assert((".")@ =~= seq!['.']);
            assert(("+")@ =~= seq!['+']);
            assert(crate::decimal::spec_zero_padded(self.datetime.milli_seconds as nat, 0)
                =~= crate::decimal::spec_decimal(self.datetime.milli_seconds as nat));
            assert(s@ =~= spec_iso_8601(*self));
        }
        s
    }
}

} // verus!
