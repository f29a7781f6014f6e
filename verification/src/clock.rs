//! The fixed-timestep clock: it turns elapsed time into a whole number of
//! ticks and keeps what is left over for the next call.
//!
//! Time is counted in whatever unit the caller measures in; the tick period
//! is given in the same unit. Time that accumulates beyond `max_ticks`
//! periods is dropped, so a stalled host never has to catch up forever.

use vstd::prelude::*;
use vstd::arithmetic::div_mod::{
    lemma_fundamental_div_mod,
    lemma_hoist_over_denominator,
    lemma_mod_multiples_vanish,
};

verus! {

/// The number of nanoseconds in a second.
pub const NANOS_PER_SECOND: u64 = 1_000_000_000;

/// Why a clock could not be made.
#[derive(Clone, Copy, Debug, PartialEq, Eq, Structural)]
pub enum ClockError {
    /// A tick must last for some time.
    ZeroPeriod,
    /// At least one tick must be allowed per call.
    ZeroCatchUp,
    /// The longest time the clock may hold does not fit its counter.
    CapTooLarge,
}

impl ClockError {
    /// The sentence that describes this fault.
    pub open spec fn message(self) -> Seq<char> {
        match self {
            ClockError::ZeroPeriod => "a tick must last for some time"@,
            ClockError::ZeroCatchUp => "at least one tick per call must be allowed"@,
            ClockError::CapTooLarge => "the catch-up limit holds more time than can be counted"@,
        }
    }

    /// A description of the fault.
    pub fn describe(&self) -> (s: &'static str)
        ensures
            s@ == self.message(),
    {
        match self {
            ClockError::ZeroPeriod => "a tick must last for some time",
            ClockError::ZeroCatchUp => "at least one tick per call must be allowed",
            ClockError::CapTooLarge => "the catch-up limit holds more time than can be counted",
        }
    }
}

/// A clock as a mathematical value.
pub struct ClockView {
    /// The length of one tick.
    pub period: nat,
    /// The most ticks one call may run.
    pub max_ticks: nat,
    /// Time already elapsed but not yet spent on a tick.
    pub debt: nat,
}

/// The smaller of two numbers.
pub open spec fn least(a: nat, b: nat) -> nat {
    if a <= b {
        a
    } else {
        b
    }
}

/// The sum of the numbers in `steps`.
pub open spec fn total(steps: Seq<nat>) -> nat
    decreases steps.len(),
{
    if steps.len() == 0 {
        0
    } else {
        total(steps.drop_last()) + steps.last()
    }
}

impl ClockView {
    /// The most time the clock ever holds: `max_ticks` periods.
    pub open spec fn cap(self) -> nat {
        self.period * self.max_ticks
    }

    /// The invariant of every clock.
    pub open spec fn wf(self) -> bool {
        &&& self.period >= 1
        &&& self.max_ticks >= 1
        &&& self.max_ticks <= u32::MAX
        &&& self.cap() <= u64::MAX
        &&& self.debt < self.period
    }

    /// The time on hand once `elapsed` has been added: the sum, cut off at
    /// the cap.
    pub open spec fn on_hand(self, elapsed: nat) -> nat {
        least(self.debt + elapsed, self.cap())
    }

    /// The number of ticks that fall due when `elapsed` more time has passed.
    pub open spec fn due(self, elapsed: nat) -> nat {
        self.on_hand(elapsed) / self.period
    }

    /// The clock after those ticks were taken.
    pub open spec fn advanced(self, elapsed: nat) -> ClockView {
        ClockView { debt: self.on_hand(elapsed) % self.period, ..self }
    }

    /// The clock after one call for each entry of `steps`, in order.
    pub open spec fn after(self, steps: Seq<nat>) -> ClockView
        decreases steps.len(),
    {
        if steps.len() == 0 {
            self
        } else {
            self.after(steps.drop_last()).advanced(steps.last())
        }
    }

    /// The ticks run in all by one call for each entry of `steps`, in order.
    pub open spec fn ticks_over(self, steps: Seq<nat>) -> nat
        decreases steps.len(),
    {
        if steps.len() == 0 {
            0
        } else {
            self.ticks_over(steps.drop_last()) + self.after(steps.drop_last()).due(steps.last())
        }
    }

    /// Whether no call of the sequence runs into the cap.
    pub open spec fn never_capped(self, steps: Seq<nat>) -> bool
        decreases steps.len(),
    {
        if steps.len() == 0 {
            true
        } else {
            &&& self.never_capped(steps.drop_last())
            &&& self.after(steps.drop_last()).debt + steps.last() <= self.cap()
        }
    }
}

proof fn lemma_carry(a: int, e: int, p: int)
    requires
        0 <= a,
        0 <= e,
        0 < p,
    ensures
        (a + e) / p == a / p + (a % p + e) / p,
        (a + e) % p == (a % p + e) % p,
{
    lemma_fundamental_div_mod(a, p);
    lemma_hoist_over_denominator(a % p + e, a / p, p as nat);
    lemma_mod_multiples_vanish(a / p, a % p + e, p);
    assert((a / p) * p == p * (a / p)) by (nonlinear_arith);
}

proof fn lemma_quotient_capped(t: int, p: int, m: int)
    by (nonlinear_arith)
    requires
        0 <= t <= p * m,
        0 < p,
        0 <= m,
    ensures
        0 <= t / p <= m,
        0 <= t % p < p,
{
}

/// A clock stays well formed whatever time passes, and never runs more ticks
/// in one call than it allows.
pub proof fn lemma_advanced_wf(c: ClockView, elapsed: nat)
    requires
        c.wf(),
    ensures
        c.advanced(elapsed).wf(),
        c.due(elapsed) <= c.max_ticks,
{
    lemma_quotient_capped(c.on_hand(elapsed) as int, c.period as int, c.max_ticks as int);
}

/// No drift: as long as no call runs into the cap, the ticks run over any
/// sequence of calls are the whole periods contained in the time that had
/// accumulated before plus all the time that elapsed, and what is left over
/// is the remainder. How the time was split into calls makes no difference.
pub proof fn lemma_no_drift(c: ClockView, steps: Seq<nat>)
    requires
        c.wf(),
        c.never_capped(steps),
    ensures
        c.ticks_over(steps) == (c.debt + total(steps)) / c.period,
        c.after(steps).debt == (c.debt + total(steps)) % c.period,
        c.after(steps).period == c.period,
        c.after(steps).max_ticks == c.max_ticks,
    decreases steps.len(),
{
    if steps.len() > 0 {
        let head = steps.drop_last();
        lemma_no_drift(c, head);
        lemma_carry((c.debt + total(head)) as int, steps.last() as int, c.period as int);
        let before = c.after(head);
        assert(before.cap() == c.cap());
        assert(before.on_hand(steps.last()) == before.debt + steps.last());
    } else {
        lemma_quotient_capped(c.debt as int, c.period as int, 1);
        assert(c.debt / c.period == 0 && c.debt % c.period == c.debt) by (nonlinear_arith)
            requires
                0 <= c.debt < c.period,
        ;
    }
}

/// Many small calls and one large call run the same number of ticks and
/// leave the same time over, when they cover the same time and none runs
/// into the cap.
pub proof fn lemma_split_makes_no_difference(c: ClockView, steps: Seq<nat>)
    requires
        c.wf(),
        c.never_capped(steps),
        c.debt + total(steps) <= c.cap(),
    ensures
        c.ticks_over(steps) == c.due(total(steps)),
        c.after(steps) == c.advanced(total(steps)),
{
    lemma_no_drift(c, steps);
}

/// The fixed-timestep clock of one simulation run.
pub struct SimulationClock {
    period: u64,
    max_ticks: u32,
    debt: u64,
}

impl View for SimulationClock {
    type V = ClockView;

    closed spec fn view(&self) -> ClockView {
        ClockView {
            period: self.period as nat,
            max_ticks: self.max_ticks as nat,
            debt: self.debt as nat,
        }
    }
}

impl SimulationClock {
    #[verifier::type_invariant]
    spec fn inv(self) -> bool {
        self@.wf()
    }

    /// What is wrong with a clock of this period and catch-up limit, if
    /// anything.
    pub open spec fn check(period: u64, max_ticks: u32) -> Result<(), ClockError> {
        if period == 0 {
            Err(ClockError::ZeroPeriod)
        } else if max_ticks == 0 {
            Err(ClockError::ZeroCatchUp)
        } else if period * max_ticks > u64::MAX {
            Err(ClockError::CapTooLarge)
        } else {
            Ok(())
        }
    }

    /// A clock with no time on it that ticks once per `period` and runs at
    /// most `max_ticks` ticks per call.
    pub fn new(period: u64, max_ticks: u32) -> (r: Result<SimulationClock, ClockError>)
        ensures
            match r {
                Ok(clock) => {
                    &&& SimulationClock::check(period, max_ticks) is Ok
                    &&& clock@ == (ClockView {
                        period: period as nat,
                        max_ticks: max_ticks as nat,
                        debt: 0,
                    })
                    &&& clock@.wf()
                },
                Err(e) => SimulationClock::check(period, max_ticks) == Err::<(), ClockError>(e),
            },
    {
        if period == 0 {
            Err(ClockError::ZeroPeriod)
        } else if max_ticks == 0 {
            Err(ClockError::ZeroCatchUp)
        } else {
            match period.checked_mul(max_ticks as u64) {
                Some(_) => Ok(SimulationClock { period, max_ticks, debt: 0 }),
                None => Err(ClockError::CapTooLarge),
            }
        }
    }

    /// A clock in nanoseconds that ticks `ticks_per_second` times a second.
    /// A rate of zero, or one beyond a tick per nanosecond, leaves no period
    /// and is refused as such.
    pub fn for_rate(ticks_per_second: u32, max_ticks: u32) -> (r: Result<
        SimulationClock,
        ClockError,
    >)
        ensures
            match r {
                Ok(clock) => {
                    &&& 1 <= ticks_per_second <= NANOS_PER_SECOND
                    &&& max_ticks >= 1
                    &&& clock@ == (ClockView {
                        period: (NANOS_PER_SECOND / ticks_per_second as u64) as nat,
                        max_ticks: max_ticks as nat,
                        debt: 0,
                    })
                    &&& clock@.wf()
                },
                Err(e) => if ticks_per_second == 0 || ticks_per_second > NANOS_PER_SECOND {
                    e == ClockError::ZeroPeriod
                } else {
                    max_ticks == 0 && e == ClockError::ZeroCatchUp
                },
            },
    {
        if ticks_per_second == 0 || ticks_per_second as u64 > NANOS_PER_SECOND {
            return Err(ClockError::ZeroPeriod);
        }
        let period: u64 = NANOS_PER_SECOND / (ticks_per_second as u64);
        proof {
            assert(1 <= 1_000_000_000int / (ticks_per_second as int) <= 1_000_000_000)
                by (nonlinear_arith)
                requires
                    1 <= ticks_per_second <= 1_000_000_000,
            ;
            assert(period * max_ticks <= u64::MAX) by (nonlinear_arith)
                requires
                    0 <= period <= 1_000_000_000,
                    0 <= max_ticks <= 0xffff_ffff,
            ;
        }
        SimulationClock::new(period, max_ticks)
    }

    /// Adds `elapsed` to the time on the clock and takes off it every whole
    /// period, up to the catch-up limit. Returns how many periods that were:
    /// the number of ticks the caller is to run now.
    pub fn take_due(&mut self, elapsed: u64) -> (ticks: u32)
        ensures
            ticks == old(self)@.due(elapsed as nat),
            final(self)@ == old(self)@.advanced(elapsed as nat),
            final(self)@.wf(),
    {
        proof {
            use_type_invariant(&*self);
            lemma_advanced_wf(self@, elapsed as nat);
        }
        proof {
            assert(self.period <= self.period * self.max_ticks) by (nonlinear_arith)
                requires
                    self.max_ticks >= 1,
                    self.period >= 0,
            ;
        }
        let cap: u64 = self.period * (self.max_ticks as u64);
        let on_hand: u64 = if elapsed >= cap - self.debt {
            cap
        } else {
            self.debt + elapsed
        };
        let ticks: u32 = (on_hand / self.period) as u32;
        self.debt = on_hand % self.period;
        ticks
    }

    /// The length of one tick.
    pub fn period(&self) -> (p: u64)
        ensures
            p == self@.period,
    {
        self.period
    }

    /// The time elapsed but not yet spent on a tick.
    pub fn debt(&self) -> (d: u64)
        ensures
            d == self@.debt,
            self@.wf(),
    {
        proof {
            use_type_invariant(self);
        }
        self.debt
    }
}

} // verus!
