//! Walking a workout's steps against elapsed time.
//!
//! The caller ticks the timeline with the milliseconds elapsed since the
//! workout started. Each tick moves on by at most one step, reports the live
//! status, and hands out the set point of a step that has just begun.
use crate::workout::{Workout, WorkoutStep};
use vstd::prelude::*;

verus! {

/// The live position in a running workout.
#[derive(Clone, Copy, Debug, PartialEq, Eq)]
pub struct WorkoutStatus {
    pub step_index: usize,
    /// Whole seconds since the current step began.
    pub step_elapsed: u32,
}

/// What a tick of the timeline found.
#[derive(Clone, Copy, Debug, PartialEq, Eq)]
pub enum TickOutcome {
    /// The workout goes on; `new_power` is the set point of a step that has
    /// just begun.
    Running { status: WorkoutStatus, new_power: Option<u32> },
    /// The last step is over.
    Complete,
}

/// The millisecond at which step `i` of `steps` begins.
pub open spec fn start_ms(steps: Seq<WorkoutStep>, i: int) -> int
    decreases i,
{
    if i <= 0 {
        0
    } else {
        start_ms(steps, i - 1) + steps[i - 1].duration * 1000
    }
}

/// Whole seconds from `from_ms` to `elapsed_ms`, none before `from_ms`.
pub open spec fn seconds_since(elapsed_ms: u128, from_ms: int) -> u32 {
    if elapsed_ms >= from_ms {
        ((elapsed_ms - from_ms) / 1000) as u32
    } else {
        0
    }
}

/// The step index and outcome of a tick at `elapsed_ms` from step `index`.
pub open spec fn tick_spec(steps: Seq<WorkoutStep>, index: usize, elapsed_ms: u128) -> (
    usize,
    TickOutcome,
) {
    if index >= steps.len() {
        (index, TickOutcome::Complete)
    } else if elapsed_ms > start_ms(steps, index + 1) {
        let next = (index + 1) as usize;
        if next >= steps.len() {
            (next, TickOutcome::Complete)
        } else {
            (
                next,
                TickOutcome::Running {
                    status: WorkoutStatus {
                        step_index: next,
                        step_elapsed: seconds_since(elapsed_ms, start_ms(steps, index + 1)),
                    },
                    new_power: Some(steps[next as int].set_point),
                },
            )
        }
    } else {
        (
            index,
            TickOutcome::Running {
                status: WorkoutStatus {
                    step_index: index,
                    step_elapsed: seconds_since(elapsed_ms, start_ms(steps, index as int)),
                },
                new_power: None,
            },
        )
    }
}

proof fn lemma_start_ms_bounds(steps: Seq<WorkoutStep>, i: int)
    requires
        0 <= i <= steps.len(),
    ensures
        0 <= start_ms(steps, i) <= i * 4294967295000,
    decreases i,
{
    if i > 0 {
        lemma_start_ms_bounds(steps, i - 1);
        assert(steps[i - 1].duration * 1000 <= 4294967295000);
    }
}

/// The millisecond at which step `i` begins.
fn step_start_ms(steps: &Vec<WorkoutStep>, i: usize) -> (r: u128)
    requires
        i <= steps.len(),
    ensures
        r == start_ms(steps@, i as int),
{
    let mut acc: u128 = 0;
    let mut j: usize = 0;
    while j < i
        invariant
            j <= i <= steps.len(),
            acc == start_ms(steps@, j as int),
        decreases i - j,
    {
        proof {
            lemma_start_ms_bounds(steps@, j as int + 1);
            assert(j + 1 <= 0xffff_ffff_ffff_ffff);
            assert((j + 1) * 4294967295000 <= 0xffff_ffff_ffff_ffff * 4294967295000) by (
            nonlinear_arith)
                requires
                    j + 1 <= 0xffff_ffff_ffff_ffff,
            ;
        }
        acc = acc + steps[j].duration as u128 * 1000;
        j = j + 1;
    }
    acc
}

/// Whole seconds from `from_ms` to `elapsed_ms`, none before `from_ms`.
fn whole_seconds_since(elapsed_ms: u128, from_ms: u128) -> (r: u32)
    ensures
        r == seconds_since(elapsed_ms, from_ms as int),
{
    if elapsed_ms >= from_ms {
        ((elapsed_ms - from_ms) / 1000) as u32
    } else {
        0
    }
}

/// Where a running workout stands in its step list.
#[derive(Clone, Copy, Debug, PartialEq, Eq)]
pub struct StepTimeline {
    pub step_index: usize,
}

impl StepTimeline {
    /// A timeline at the first step.
    pub fn new() -> (r: StepTimeline)
        ensures
            r.step_index == 0,
    {
        StepTimeline { step_index: 0 }
    }

    /// The power to request when the workout starts: the first step's set
    /// point.
    pub fn initial_power(workout: &Workout) -> (r: Option<u32>)
        ensures
            r == (if workout.steps@.len() > 0 {
                Some(workout.steps@[0].set_point)
            } else {
                None::<u32>
            }),
    {
        if workout.steps.len() > 0 {
            Some(workout.steps[0].set_point)
        } else {
            None
        }
    }

    /// One tick at `elapsed_ms` since the workout started: moves on to the
    /// next step once the current one is over.
    pub fn tick(&mut self, workout: &Workout, elapsed_ms: u128) -> (r: TickOutcome)
        ensures
            (final(self).step_index, r) == tick_spec(
                workout.steps@,
                old(self).step_index,
                elapsed_ms,
            ),
    {
        let steps = &workout.steps;
        let index = self.step_index;
        if index >= steps.len() {
            return TickOutcome::Complete;
        }
        let threshold = step_start_ms(steps, index + 1);
        if elapsed_ms > threshold {
            let next = index + 1;
            self.step_index = next;
            if next >= steps.len() {
                TickOutcome::Complete
            } else {
                TickOutcome::Running {
                    status: WorkoutStatus {
                        step_index: next,
                        step_elapsed: whole_seconds_since(elapsed_ms, threshold),
                    },
                    new_power: Some(steps[next].set_point),
                }
            }
        } else {
            let start = step_start_ms(steps, index);
            TickOutcome::Running {
                status: WorkoutStatus {
                    step_index: index,
                    step_elapsed: whole_seconds_since(elapsed_ms, start),
                },
                new_power: None,
            }
        }
    }
}

} // verus!
