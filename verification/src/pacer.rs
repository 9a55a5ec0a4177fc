//! Turns elapsed wall-clock time into instruction steps and timer ticks.
use vstd::arithmetic::div_mod::lemma_fundamental_div_mod;
use vstd::prelude::*;

verus! {

/// What a `Pacer` remembers, in nanoseconds.
pub struct PacerView {
    pub cpu_period: int,
    pub timer_period: int,
    /// Time owed to the CPU that is shorter than one instruction period.
    pub cpu_acc: int,
    /// Time owed to the timers that is shorter than one tick period.
    pub timer_acc: int,
}

/// Runs the CPU and the timers at fixed rates from the time that really elapsed:
/// the time of each frame is added to two accumulators, and every whole period in
/// an accumulator is one instruction, or one timer tick, to run.
pub struct Pacer {
    cpu_period_nanos: u64,
    timer_period_nanos: u64,
    cpu_acc_nanos: u128,
    timer_acc_nanos: u128,
}

impl View for Pacer {
    type V = PacerView;

    closed spec fn view(&self) -> PacerView {
        PacerView {
            cpu_period: self.cpu_period_nanos as int,
            timer_period: self.timer_period_nanos as int,
            cpu_acc: self.cpu_acc_nanos as int,
            timer_acc: self.timer_acc_nanos as int,
        }
    }
}

impl PacerView {
    /// Periods are positive and each accumulator holds less than one period.
    pub open spec fn wf(self) -> bool {
        &&& 0 < self.cpu_period <= u64::MAX
        &&& 0 < self.timer_period <= u64::MAX
        &&& 0 <= self.cpu_acc < self.cpu_period
        &&& 0 <= self.timer_acc < self.timer_period
    }
}

impl Pacer {
    #[verifier::type_invariant]
    spec fn inv(self) -> bool {
        self@.wf()
    }

    /// A pacer with nothing owed, for the given periods in nanoseconds.
    pub fn new(cpu_period_nanos: u64, timer_period_nanos: u64) -> (r: Self)
        requires
            cpu_period_nanos > 0,
            timer_period_nanos > 0,
        ensures
            r@ == (PacerView {
                cpu_period: cpu_period_nanos as int,
                timer_period: timer_period_nanos as int,
                cpu_acc: 0,
                timer_acc: 0,
            }),
    {
        Pacer { cpu_period_nanos, timer_period_nanos, cpu_acc_nanos: 0, timer_acc_nanos: 0 }
    }

    /// Accounts for `elapsed_nanos` more nanoseconds and returns how many
    /// instructions and how many timer ticks are now due, in that order.
    pub fn advance(&mut self, elapsed_nanos: u128) -> (r: (u128, u128))
        requires
            elapsed_nanos <= u128::MAX - u64::MAX,
        ensures
            final(self)@.wf(),
            final(self)@.cpu_period == old(self)@.cpu_period,
            final(self)@.timer_period == old(self)@.timer_period,
            r.0 == (old(self)@.cpu_acc + elapsed_nanos) / old(self)@.cpu_period,
            final(self)@.cpu_acc == (old(self)@.cpu_acc + elapsed_nanos) % old(self)@.cpu_period,
            r.1 == (old(self)@.timer_acc + elapsed_nanos) / old(self)@.timer_period,
            final(self)@.timer_acc == (old(self)@.timer_acc + elapsed_nanos)
                % old(self)@.timer_period,
            r.0 * old(self)@.cpu_period + final(self)@.cpu_acc == old(self)@.cpu_acc + elapsed_nanos,
            r.1 * old(self)@.timer_period + final(self)@.timer_acc == old(self)@.timer_acc
                + elapsed_nanos,
    {
        proof {
            use_type_invariant(&*self);
        }
        let cpu_total = self.cpu_acc_nanos + elapsed_nanos;
        let timer_total = self.timer_acc_nanos + elapsed_nanos;
        let cpu_steps = cpu_total / self.cpu_period_nanos as u128;
        let timer_ticks = timer_total / self.timer_period_nanos as u128;
        self.cpu_acc_nanos = cpu_total % self.cpu_period_nanos as u128;
        self.timer_acc_nanos = timer_total % self.timer_period_nanos as u128;
        proof {
            lemma_fundamental_div_mod(cpu_total as int, self.cpu_period_nanos as int);
            lemma_fundamental_div_mod(timer_total as int, self.timer_period_nanos as int);
        }
        (cpu_steps, timer_ticks)
    }
}

} // verus!
