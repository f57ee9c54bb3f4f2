//! Frame timing: a wall-clock frame timer with a fixed-step accumulator.
//!
//! All durations are whole nanoseconds. A fixed step is `1 / steps_per_second`
//! seconds rounded down to the nanosecond.
use std::time::{Duration, Instant};
use vstd::prelude::*;

verus! {

pub const NANOS_PER_SECOND: u64 = 1_000_000_000;

#[verifier::external_type_specification]
#[verifier::external_body]
pub struct ExInstant(std::time::Instant);

/// Relies on `std::time::Instant::now`: a reading of the monotonic clock.
/// Nothing is known of the value.
#[verifier::external_body]
fn instant_now() -> (r: Instant) {
    Instant::now()
}

/// Relies on `std::time::Instant::elapsed`: the time since `start`, zero
/// where the clock reads earlier. Nothing is known of the value.
#[verifier::external_body]
fn elapsed_since(start: &Instant) -> (r: Duration) {
    start.elapsed()
}

/// Relies on `std::time::Duration::as_nanos`: the whole nanoseconds of `d`.
#[verifier::external_body]
fn duration_nanos(d: &Duration) -> (r: u128) {
    d.as_nanos()
}

/// The time from `earlier` to `now`, zero where `now` is the earlier one.
pub open spec fn elapsed_between(earlier: nat, now: nat) -> nat {
    if now >= earlier {
        (now - earlier) as nat
    } else {
        0
    }
}

/// The accumulator after `d` more nanoseconds were added, held at the
/// largest `u64`.
pub open spec fn accumulated(acc: nat, d: nat) -> nat {
    if acc + d <= u64::MAX {
        acc + d
    } else {
        u64::MAX as nat
    }
}

/// The sum of a sequence of natural numbers.
pub open spec fn sum_of(ds: Seq<nat>) -> nat
    decreases ds.len(),
{
    if ds.len() == 0 {
        0
    } else {
        ds[0] + sum_of(ds.drop_first())
    }
}

/// How many fixed steps of length `step` each frame of a run takes, for
/// frames that last `ds`, starting from accumulator `acc`: what
/// `GameClock::frame_at` returns frame after frame.
pub open spec fn steps_per_frame(step: nat, acc: nat, ds: Seq<nat>) -> Seq<nat>
    decreases ds.len(),
{
    if ds.len() == 0 || step == 0 {
        Seq::empty()
    } else {
        let total = accumulated(acc, ds[0]);
        seq![total / step] + steps_per_frame(step, total % step, ds.drop_first())
    }
}

/// The accumulator after the run of frames `ds` that `steps_per_frame`
/// describes.
pub open spec fn residual_after(step: nat, acc: nat, ds: Seq<nat>) -> nat
    decreases ds.len(),
{
    if ds.len() == 0 || step == 0 {
        acc
    } else {
        residual_after(step, accumulated(acc, ds[0]) % step, ds.drop_first())
    }
}

/// Fixed stepping does not depend on how time was split into frames: over a
/// run of frames that starts from a drained accumulator, the fixed steps
/// taken in all are the whole steps in that accumulator plus the run's total
/// time, and what is left in the
/// accumulator is the remainder, shorter than one step.
pub proof fn lemma_fixed_steps_follow_total_time(step: nat, acc: nat, ds: Seq<nat>)
    requires
        acc < step,
        acc + sum_of(ds) <= u64::MAX,
    ensures
        sum_of(steps_per_frame(step, acc, ds)) == (acc + sum_of(ds)) / step,
        residual_after(step, acc, ds) == (acc + sum_of(ds)) % step,
        residual_after(step, acc, ds) < step,
    decreases ds.len(),
{
    if ds.len() == 0 {
        vstd::arithmetic::div_mod::lemma_fundamental_div_mod_converse(acc as int, step as int, 0, acc as int);
    } else {
        let x = acc + ds[0];
        let rest = ds.drop_first();
        let q = x / step;
        let r = x % step;
        assert(accumulated(acc, ds[0]) == x);
        vstd::arithmetic::div_mod::lemma_fundamental_div_mod(x as int, step as int);
        assert(r < step);
        assert(r <= x) by (nonlinear_arith)
            requires
                x == step * q + r,
                step > 0,
                q >= 0,
        ;
        lemma_fixed_steps_follow_total_time(step, r, rest);
        let k = (r + sum_of(rest)) / step;
        let m = (r + sum_of(rest)) % step;
        vstd::arithmetic::div_mod::lemma_fundamental_div_mod((r + sum_of(rest)) as int, step as int);
        assert(x + sum_of(rest) == (q + k) * step + m) by (nonlinear_arith)
            requires
                x == step * q + r,
                r + sum_of(rest) == step * k + m,
        ;
        vstd::arithmetic::div_mod::lemma_fundamental_div_mod_converse(
            (x + sum_of(rest)) as int,
            step as int,
            (q + k) as int,
            m as int,
        );
        let s = steps_per_frame(step, acc, ds);
        assert(s.drop_first() =~= steps_per_frame(step, r, rest));
    }
}

/// What a clock holds, as numbers of nanoseconds.
pub struct ClockState {
    /// When the current frame began, counted from the clock's start.
    pub current_frame: nat,
    /// How long the last frame took.
    pub last_frame_duration: nat,
    /// The length of one fixed step.
    pub fixed_step: nat,
    /// Time that the fixed steps have not consumed yet.
    pub accumulator: nat,
}

/// A frame timer with a fixed-step accumulator.
pub struct GameClock {
    game_start_instant: Instant,
    current_frame_nanos: u64,
    last_frame_duration_nanos: u64,
    fixed_update_step_nanos: u64,
    fixed_update_time_accumulator: u64,
}

impl View for GameClock {
    type V = ClockState;

    closed spec fn view(&self) -> ClockState {
        ClockState {
            current_frame: self.current_frame_nanos as nat,
            last_frame_duration: self.last_frame_duration_nanos as nat,
            fixed_step: self.fixed_update_step_nanos as nat,
            accumulator: self.fixed_update_time_accumulator as nat,
        }
    }
}

impl GameClock {
    #[verifier::type_invariant]
    spec fn step_is_positive(&self) -> bool {
        self.fixed_update_step_nanos > 0
    }

    /// A clock that starts now, with `fixed_update_steps_per_second` fixed
    /// steps to the second, an empty accumulator and no frame measured yet.
    pub fn new(fixed_update_steps_per_second: usize) -> (r: Self)
        requires
            1 <= fixed_update_steps_per_second <= NANOS_PER_SECOND,
        ensures
            r@ == (ClockState {
                current_frame: 0,
                last_frame_duration: 0,
                fixed_step: NANOS_PER_SECOND as nat / (fixed_update_steps_per_second as nat),
                accumulator: 0,
            }),
    {
        let steps = fixed_update_steps_per_second as u64;
        proof {
            vstd::arithmetic::div_mod::lemma_div_non_zero(NANOS_PER_SECOND as int, steps as int);
        }
        GameClock {
            game_start_instant: instant_now(),
            current_frame_nanos: 0,
            last_frame_duration_nanos: 0,
            fixed_update_step_nanos: NANOS_PER_SECOND / steps,
            fixed_update_time_accumulator: 0,
        }
    }

    /// How long the last frame took, in nanoseconds.
    pub fn last_frame_duration(&self) -> (r: u64)
        ensures
            r as nat == self@.last_frame_duration,
    {
        self.last_frame_duration_nanos
    }

    /// The length of one fixed step, in nanoseconds.
    pub fn fixed_update_step_duration(&self) -> (r: u64)
        ensures
            r as nat == self@.fixed_step,
            r > 0,
    {
        proof {
            use_type_invariant(self);
        }
        self.fixed_update_step_nanos
    }

    /// Time not yet consumed by fixed steps, in nanoseconds.
    pub fn accumulator(&self) -> (r: u64)
        ensures
            r as nat == self@.accumulator,
    {
        self.fixed_update_time_accumulator
    }

    /// Starts a new frame at `now` (nanoseconds since the clock's start) and
    /// returns how long the frame before it took.
    pub fn tick_at(&mut self, now: u64) -> (d: u64)
        ensures
            d as nat == elapsed_between(old(self)@.current_frame, now as nat),
            final(self)@ == (ClockState {
                current_frame: now as nat,
                last_frame_duration: d as nat,
                ..old(self)@
            }),
    {
        proof {
            use_type_invariant(&*self);
        }
        let d: u64 = if now >= self.current_frame_nanos {
            now - self.current_frame_nanos
        } else {
            0
        };
        self.last_frame_duration_nanos = d;
        self.current_frame_nanos = now;
        d
    }

    /// Starts a new frame now and returns how long the frame before it took.
    /// A clock that has run past the largest `u64` of nanoseconds stays there.
    pub fn tick(&mut self) -> (d: u64)
        ensures
            d as nat == elapsed_between(old(self)@.current_frame, final(self)@.current_frame),
            final(self)@ == (ClockState {
                current_frame: final(self)@.current_frame,
                last_frame_duration: d as nat,
                ..old(self)@
            }),
    {
        let elapsed = elapsed_since(&self.game_start_instant);
        let nanos = duration_nanos(&elapsed);
        let now: u64 = if nanos <= u64::MAX as u128 {
            nanos as u64
        } else {
            u64::MAX
        };
        self.tick_at(now)
    }

    /// Adds `duration` nanoseconds to the accumulator.
    pub fn accumulate(&mut self, duration: u64)
        ensures
            final(self)@ == (ClockState {
                accumulator: accumulated(old(self)@.accumulator, duration as nat),
                ..old(self)@
            }),
    {
        proof {
            use_type_invariant(&*self);
        }
        self.fixed_update_time_accumulator = self.fixed_update_time_accumulator.saturating_add(
            duration,
        );
    }

    /// Takes one fixed step out of the accumulator where it holds a whole one.
    pub fn next_fixed_step(&mut self) -> (taken: bool)
        ensures
            taken == (old(self)@.accumulator >= old(self)@.fixed_step),
            final(self)@ == (ClockState {
                accumulator: if taken {
                    (old(self)@.accumulator - old(self)@.fixed_step) as nat
                } else {
                    old(self)@.accumulator
                },
                ..old(self)@
            }),
    {
        proof {
            use_type_invariant(&*self);
        }
        if self.fixed_update_time_accumulator >= self.fixed_update_step_nanos {
            self.fixed_update_time_accumulator = self.fixed_update_time_accumulator
                - self.fixed_update_step_nanos;
            true
        } else {
            false
        }
    }

    /// Takes every whole fixed step out of the accumulator and returns how
    /// many there were. What is left is shorter than one step.
    pub fn drain_fixed_steps(&mut self) -> (n: u64)
        ensures
            n as nat == old(self)@.accumulator / old(self)@.fixed_step,
            final(self)@ == (ClockState {
                accumulator: old(self)@.accumulator % old(self)@.fixed_step,
                ..old(self)@
            }),
            final(self)@.accumulator < final(self)@.fixed_step,
    {
        proof {
            use_type_invariant(&*self);
        }
        let ghost start = self@;
        let ghost step = start.fixed_step;
        let mut n: u64 = 0;
        loop
            invariant
                step == start.fixed_step,
                step > 0,
                self@ == (ClockState { accumulator: self@.accumulator, ..start }),
                n as nat * step + self@.accumulator == start.accumulator,
                n as nat <= start.accumulator,
                start.accumulator <= u64::MAX,
            ensures
                self@ == (ClockState { accumulator: self@.accumulator, ..start }),
                n as nat * step + self@.accumulator == start.accumulator,
                self@.accumulator < step,
            decreases self@.accumulator,
        {
            if !self.next_fixed_step() {
                break;
            }
            proof {
                assert((n as nat + 1) * step == n as nat * step + step) by (nonlinear_arith);
                assert(n as nat + 1 <= start.accumulator) by (nonlinear_arith)
                    requires
                        (n as nat + 1) * step + self@.accumulator == start.accumulator,
                        step > 0,
                ;
            }
            n = n + 1;
        }
        proof {
            vstd::arithmetic::div_mod::lemma_fundamental_div_mod_converse(
                start.accumulator as int,
                step as int,
                n as int,
                self@.accumulator as int,
            );
        }
        n
    }

    /// Measures the frame that ended at `now`, adds it to the accumulator and
    /// takes out every whole fixed step. Returns how many fixed steps to run.
    pub fn frame_at(&mut self, now: u64) -> (n: u64)
        ensures
            ({
                let d = elapsed_between(old(self)@.current_frame, now as nat);
                let total = accumulated(old(self)@.accumulator, d);
                &&& n as nat == total / old(self)@.fixed_step
                &&& final(self)@ == (ClockState {
                    current_frame: now as nat,
                    last_frame_duration: d,
                    fixed_step: old(self)@.fixed_step,
                    accumulator: total % old(self)@.fixed_step,
                })
            }),
    {
        let d = self.tick_at(now);
        self.accumulate(d);
        self.drain_fixed_steps()
    }

    /// Measures the frame that ends now, adds it to the accumulator and takes
    /// out every whole fixed step. Returns how many fixed steps to run.
    pub fn frame(&mut self) -> (n: u64)
        ensures
            ({
                let d = final(self)@.last_frame_duration;
                let total = accumulated(old(self)@.accumulator, d);
                &&& d == elapsed_between(old(self)@.current_frame, final(self)@.current_frame)
                &&& n as nat == total / old(self)@.fixed_step
                &&& final(self)@ == (ClockState {
                    current_frame: final(self)@.current_frame,
                    last_frame_duration: d,
                    fixed_step: old(self)@.fixed_step,
                    accumulator: total % old(self)@.fixed_step,
                })
            }),
    {
        let d = self.tick();
        self.accumulate(d);
        self.drain_fixed_steps()
    }
}

} // verus!
