//! Time: when the two timers count down, and how long the host waits between
//! two instructions. The host reads the clock; these functions decide.

use crate::state::State;
use vstd::prelude::*;

verus! {

/// The period of the timers: a sixtieth of a second, in whole microseconds.
pub const TIMER_PERIOD_MICROS: u128 = 16_667;

/// The time that one instruction is given unless the host chooses another:
/// a thousand instructions a second.
pub const MIN_DURATION: u64 = 1000;

/// Whether the timers count down, `elapsed_micros` after they last did.
pub open spec fn timers_due(elapsed_micros: int) -> bool {
    elapsed_micros >= TIMER_PERIOD_MICROS
}

/// A timer after it counted down once: one less, and never below zero.
pub open spec fn counted_down(timer: u8) -> u8 {
    if timer > 0 {
        (timer - 1) as u8
    } else {
        0
    }
}

/// The machine after one sample of the clock, taken `elapsed_micros` after
/// the timers last counted down: both timers count down once if a period
/// has passed, and nothing else changes.
pub open spec fn sample_spec(s: State, elapsed_micros: int) -> State {
    if timers_due(elapsed_micros) {
        State {
            delay_timer: counted_down(s.delay_timer),
            sound_timer: counted_down(s.sound_timer),
            ..s
        }
    } else {
        s
    }
}

/// The machine after the host sampled the clock at each of the times
/// `samples`, where the timers last counted down at `reference`. A sample
/// at which they count down is the reference for the samples after it.
pub open spec fn sampled(s: State, reference: int, samples: Seq<int>) -> State
    decreases samples.len(),
{
    if samples.len() == 0 {
        s
    } else if timers_due(samples[0] - reference) {
        sampled(sample_spec(s, samples[0] - reference), samples[0], samples.drop_first())
    } else {
        sampled(s, reference, samples.drop_first())
    }
}

/// At how many of the samples the timers count down.
pub open spec fn countdowns(reference: int, samples: Seq<int>) -> nat
    decreases samples.len(),
{
    if samples.len() == 0 {
        0
    } else if timers_due(samples[0] - reference) {
        1 + countdowns(samples[0], samples.drop_first())
    } else {
        countdowns(reference, samples.drop_first())
    }
}

/// A timer that held `timer` and counted down `ticks` times.
pub open spec fn clamped(timer: u8, ticks: nat) -> u8 {
    if timer >= ticks {
        (timer - ticks) as u8
    } else {
        0
    }
}

/// Whether the times are in order and none lies before `reference`.
pub open spec fn monotonic(reference: int, samples: Seq<int>) -> bool {
    &&& forall|i: int| 0 <= i < samples.len() ==> reference <= #[trigger] samples[i]
    &&& forall|i: int, j: int| 0 <= i <= j < samples.len() ==> samples[i] <= samples[j]
}

/// One sample taken less than two periods after the timers last counted
/// down makes them count down by the number of whole periods that passed.
pub proof fn lemma_one_sample_rate(s: State, elapsed_micros: int)
    requires
        0 <= elapsed_micros < 2 * TIMER_PERIOD_MICROS,
    ensures
        sample_spec(s, elapsed_micros).delay_timer == clamped(
            s.delay_timer,
            (elapsed_micros / TIMER_PERIOD_MICROS as int) as nat,
        ),
        sample_spec(s, elapsed_micros).sound_timer == clamped(
            s.sound_timer,
            (elapsed_micros / TIMER_PERIOD_MICROS as int) as nat,
        ),
{
}

/// Over any run of samples of a clock that does not go back, each timer
/// goes down by the number of samples at which a period had passed, and
/// stops at zero. That number is never more than the whole periods between
/// the reference and the last sample. Nothing but the timers changes.
pub proof fn lemma_timer_rate(s: State, reference: int, samples: Seq<int>)
    requires
        monotonic(reference, samples),
    ensures
        sampled(s, reference, samples) == (State {
            delay_timer: clamped(s.delay_timer, countdowns(reference, samples)),
            sound_timer: clamped(s.sound_timer, countdowns(reference, samples)),
            ..s
        }),
        samples.len() > 0 ==> countdowns(reference, samples) <= (samples.last() - reference)
            / TIMER_PERIOD_MICROS as int,
        samples.len() == 0 ==> countdowns(reference, samples) == 0,
    decreases samples.len(),
{
    if samples.len() > 0 {
        let rest = samples.drop_first();
        let period = TIMER_PERIOD_MICROS as int;
        assert forall|i: int| 0 <= i < rest.len() implies samples[0] <= #[trigger] rest[i] by {
            assert(rest[i] == samples[i + 1]);
        }
        assert forall|i: int, j: int| 0 <= i <= j < rest.len() implies rest[i] <= rest[j] by {
            assert(rest[i] == samples[i + 1]);
            assert(rest[j] == samples[j + 1]);
        }
        if rest.len() > 0 {
            assert(rest.last() == samples.last());
        }
        if timers_due(samples[0] - reference) {
            let after = sample_spec(s, samples[0] - reference);
            lemma_timer_rate(after, samples[0], rest);
            let k = countdowns(samples[0], rest);
            assert(clamped(counted_down(s.delay_timer), k) == clamped(s.delay_timer, 1 + k));
            assert(clamped(counted_down(s.sound_timer), k) == clamped(s.sound_timer, 1 + k));
            if rest.len() > 0 {
                let span = samples.last() - samples[0];
                assert(k * period <= span) by (nonlinear_arith)
                    requires
                        k <= span / period,
                        period > 0,
                        span >= 0,
                ;
                assert(1 + k <= (samples.last() - reference) / period) by (nonlinear_arith)
                    requires
                        k * period <= span,
                        span == samples.last() - samples[0],
                        samples[0] - reference >= period,
                        period > 0,
                ;
            } else {
                assert(1 <= (samples[0] - reference) / period) by (nonlinear_arith)
                    requires
                        samples[0] - reference >= period,
                        period > 0,
                ;
            }
        } else {
            lemma_timer_rate(s, reference, rest);
            if rest.len() == 0 {
                assert(0 <= (samples[0] - reference) / period) by (nonlinear_arith)
                    requires
                        samples[0] - reference >= 0,
                        period > 0,
                ;
            }
        }
    }
}

/// How long the host waits after an instruction that took
/// `step_cost_micros`, so that instructions are issued one every
/// `period_micros`: the rest of the period, or nothing if the instruction
/// took that long.
pub fn pacing_delay(step_cost_micros: u128, period_micros: u64) -> (delay_micros: u64)
    ensures
        step_cost_micros < period_micros ==> delay_micros == period_micros - step_cost_micros,
        step_cost_micros >= period_micros ==> delay_micros == 0,
{
    if step_cost_micros < period_micros as u128 {
        period_micros - step_cost_micros as u64
    } else {
        0
    }
}

} // verus!
