//! Rebuilding a workout from the decoded records of a workout file.
//!
//! A workout file is a stream of records: one summary record carrying the
//! title and one record per workout step. Steps are either timed (with a
//! power target and optionally a cadence target), open ended (dropped), or a
//! repeat marker that unrolls the steps since a referenced earlier step.
use std::collections::HashMap;
use vstd::prelude::*;

verus! {

broadcast use vstd::std_specs::hash::group_hash_axioms;

/// Duration kind of a step that lasts a fixed time (in milliseconds).
pub const DURATION_TIME: u8 = 0;

/// Duration kind of a step that lasts until the user ends it.
pub const DURATION_OPEN: u8 = 5;

/// Duration kind of a repeat marker: repeat from an earlier step.
pub const DURATION_REPEAT_UNTIL_STEPS_COMPLETE: u8 = 6;

/// Target kind of a cadence target.
pub const TARGET_CADENCE: u8 = 3;

/// Target kind of a power target.
pub const TARGET_POWER: u8 = 4;

/// Absolute power targets are stored as watts plus this offset; smaller raw
/// values are a percentage of the rider's FTP.
pub const POWER_OFFSET: u32 = 1000;

/// One step of a workout: hold the power range for `duration` seconds.
#[derive(Clone, Copy, Debug, PartialEq, Eq)]
pub struct WorkoutStep {
    pub set_point: u32,
    pub target_power: (u32, u32),
    pub target_cadence: Option<(u32, u32)>,
    pub duration: u32,
}

/// A titled, flat sequence of steps.
#[derive(Clone, Debug, PartialEq, Eq)]
pub struct Workout {
    pub title: String,
    pub steps: Vec<WorkoutStep>,
}

/// The mathematical value of a [`Workout`].
pub struct WorkoutModel {
    pub title: Seq<char>,
    pub steps: Seq<WorkoutStep>,
}

impl View for Workout {
    type V = WorkoutModel;

    open spec fn view(&self) -> WorkoutModel {
        WorkoutModel { title: self.title@, steps: self.steps@ }
    }
}

/// Why a workout could not be built.
#[derive(Clone, Copy, Debug, PartialEq, Eq)]
pub enum WorkoutError {
    /// The summary record carries no title.
    InvalidWorkout,
    /// A field that the step needs is absent, or a target uses zones.
    MissingField,
    /// A power target is relative to FTP.
    UnsupportedTarget,
    /// A timed step has no power target.
    NoPowerTarget,
    /// The step's duration kind is not supported.
    UnsupportedDuration,
    /// A repeat marker refers to no step built before it.
    RepeatTargetNotFound,
    /// No summary record and no error was seen.
    Unknown,
}

/// The raw fields of one target slot of a step record.
#[derive(Clone, Copy, Debug, PartialEq, Eq)]
pub struct TargetFields {
    pub kind: Option<u8>,
    pub value: Option<u32>,
    pub custom_low: Option<u32>,
    pub custom_high: Option<u32>,
}

/// A decoded workout step record.
#[derive(Clone, Copy, Debug, PartialEq, Eq)]
pub struct StepRecord {
    pub message_index: u16,
    pub duration_type: Option<u8>,
    pub duration_value: Option<u32>,
    pub primary: TargetFields,
    pub secondary: TargetFields,
}

/// A decoded record of a workout file, in file order.
#[derive(Clone, Debug, PartialEq, Eq)]
pub enum WorkoutRecord {
    Summary { title: Option<String> },
    Step(StepRecord),
}

/// The range a target slot states: only custom ranges (value 0) are used.
pub open spec fn target_spec(value: Option<u32>, low: Option<u32>, high: Option<u32>) -> Result<
    (u32, u32),
    WorkoutError,
> {
    if value == Some(0u32) {
        match (low, high) {
            (Some(l), Some(h)) => Ok((l, h)),
            _ => Err(WorkoutError::MissingField),
        }
    } else {
        Err(WorkoutError::MissingField)
    }
}

impl TargetFields {
    pub open spec fn range_spec(self) -> Result<(u32, u32), WorkoutError> {
        target_spec(self.value, self.custom_low, self.custom_high)
    }
}

/// Watts from a raw power range: both bounds must carry the absolute offset,
/// and the low bound may not exceed the high one.
pub open spec fn power_from_raw(r: Result<(u32, u32), WorkoutError>) -> Result<
    (u32, u32),
    WorkoutError,
> {
    match r {
        Ok((l, h)) => if l >= POWER_OFFSET && h >= POWER_OFFSET && l <= h {
            Ok(((l - POWER_OFFSET) as u32, (h - POWER_OFFSET) as u32))
        } else {
            Err(WorkoutError::UnsupportedTarget)
        },
        Err(e) => Err(e),
    }
}

/// The power range of a step: the first slot whose kind is power decides.
pub open spec fn power_target_spec(s: StepRecord) -> Result<(u32, u32), WorkoutError> {
    if s.primary.kind == Some(TARGET_POWER) {
        power_from_raw(s.primary.range_spec())
    } else if s.secondary.kind == Some(TARGET_POWER) {
        power_from_raw(s.secondary.range_spec())
    } else {
        Err(WorkoutError::NoPowerTarget)
    }
}

pub open spec fn ok_of(r: Result<(u32, u32), WorkoutError>) -> Option<(u32, u32)> {
    match r {
        Ok(v) => Some(v),
        Err(_) => None,
    }
}

/// The cadence range of a step, if the first slot whose kind is cadence
/// states one.
pub open spec fn cadence_target_spec(s: StepRecord) -> Option<(u32, u32)> {
    if s.primary.kind == Some(TARGET_CADENCE) {
        ok_of(s.primary.range_spec())
    } else if s.secondary.kind == Some(TARGET_CADENCE) {
        ok_of(s.secondary.range_spec())
    } else {
        None
    }
}

/// The midpoint of a power range, rounded down.
pub open spec fn midpoint(p: (u32, u32)) -> int {
    (p.0 + p.1) / 2
}

/// The step a timed record describes; it must last at least a second.
pub open spec fn timed_step_spec(s: StepRecord) -> Result<WorkoutStep, WorkoutError> {
    match power_target_spec(s) {
        Err(e) => Err(e),
        Ok(p) => match s.duration_value {
            None => Err(WorkoutError::MissingField),
            Some(d) => if d < 1000 {
                Err(WorkoutError::UnsupportedDuration)
            } else {
                Ok(
                    WorkoutStep {
                        set_point: midpoint(p) as u32,
                        target_power: p,
                        target_cadence: cadence_target_spec(s),
                        duration: (d / 1000) as u32,
                    },
                )
            },
        },
    }
}

/// `n` copies of `body`, one after the other.
pub open spec fn repeat_seq(body: Seq<WorkoutStep>, n: nat) -> Seq<WorkoutStep>
    decreases n,
{
    if n == 0 {
        Seq::empty()
    } else {
        repeat_seq(body, (n - 1) as nat) + body
    }
}

/// The steps from position `pos` to the end of `live`.
pub open spec fn repeat_body(live: Seq<WorkoutStep>, pos: usize) -> Seq<WorkoutStep> {
    if pos < live.len() {
        live.subrange(pos as int, live.len() as int)
    } else {
        Seq::empty()
    }
}

/// `live` with the steps since `pos` occurring `reps` times in all (a count
/// of zero leaves them once).
pub open spec fn unrolled(live: Seq<WorkoutStep>, pos: usize, reps: u32) -> Seq<WorkoutStep> {
    live + repeat_seq(repeat_body(live, pos), if reps > 0 { (reps - 1) as nat } else { 0 })
}

/// The state of a workout build, as values.
pub struct BuildState {
    /// The workout, once the summary record was seen.
    pub workout: Option<WorkoutModel>,
    /// The first error met; no later record changes anything.
    pub error: Option<WorkoutError>,
    /// The steps built before the summary record.
    pub buffer: Seq<WorkoutStep>,
    /// For each step record's index, its position in the live step list.
    pub indices: Map<u16, usize>,
}

impl BuildState {
    /// The build state before any record.
    pub open spec fn initial() -> BuildState {
        BuildState { workout: None, error: None, buffer: Seq::empty(), indices: Map::empty() }
    }

    /// The list new steps go to: the workout's once it exists.
    pub open spec fn live(self) -> Seq<WorkoutStep> {
        match self.workout {
            Some(w) => w.steps,
            None => self.buffer,
        }
    }

    pub open spec fn with_live(self, steps: Seq<WorkoutStep>) -> BuildState {
        match self.workout {
            Some(w) => BuildState {
                workout: Some(WorkoutModel { title: w.title, steps }),
                ..self
            },
            None => BuildState { buffer: steps, ..self },
        }
    }

    pub open spec fn fail(self, e: WorkoutError) -> BuildState {
        BuildState { error: Some(e), ..self }
    }

    /// What the build yields.
    pub open spec fn outcome(self) -> Result<WorkoutModel, WorkoutError> {
        match self.workout {
            Some(w) => Ok(w),
            None => match self.error {
                Some(e) => Err(e),
                None => Err(WorkoutError::Unknown),
            },
        }
    }
}

/// The effect of a step record on a build that has met no error.
pub open spec fn apply_step(st: BuildState, s: StepRecord) -> BuildState {
    match s.duration_type {
        None => st.fail(WorkoutError::MissingField),
        Some(k) => if k == DURATION_TIME {
            match timed_step_spec(s) {
                Err(e) => st.fail(e),
                Ok(step) => {
                    let live = st.live().push(step);
                    BuildState {
                        indices: st.indices.insert(s.message_index, (live.len() - 1) as usize),
                        ..st.with_live(live)
                    }
                },
            }
        } else if k == DURATION_REPEAT_UNTIL_STEPS_COMPLETE {
            match s.duration_value {
                None => st.fail(WorkoutError::MissingField),
                Some(t) => match s.primary.value {
                    None => st.fail(WorkoutError::MissingField),
                    Some(n) => if t <= 0xffff && st.indices.contains_key(t as u16) {
                        st.with_live(unrolled(st.live(), st.indices[t as u16], n))
                    } else {
                        st.fail(WorkoutError::RepeatTargetNotFound)
                    },
                },
            }
        } else if k == DURATION_OPEN {
            st
        } else {
            st.fail(WorkoutError::UnsupportedDuration)
        },
    }
}

/// The effect of one record on a build.
pub open spec fn apply_record(st: BuildState, r: WorkoutRecord) -> BuildState {
    if st.error is Some {
        st
    } else {
        match r {
            WorkoutRecord::Summary { title } => match title {
                Some(t) => if t@.len() > 0 {
                    BuildState {
                        workout: Some(WorkoutModel { title: t@, steps: st.buffer }),
                        ..st
                    }
                } else {
                    st.fail(WorkoutError::InvalidWorkout)
                },
                None => st.fail(WorkoutError::InvalidWorkout),
            },
            WorkoutRecord::Step(s) => apply_step(st, s),
        }
    }
}

/// The build state after the records `rs`, in order, starting from `st`.
pub open spec fn run_from(st: BuildState, rs: Seq<WorkoutRecord>) -> BuildState
    decreases rs.len(),
{
    if rs.len() == 0 {
        st
    } else {
        apply_record(run_from(st, rs.drop_last()), rs.last())
    }
}

/// What building a workout from the records `rs` yields.
pub open spec fn build_spec(rs: Seq<WorkoutRecord>) -> Result<WorkoutModel, WorkoutError> {
    run_from(BuildState::initial(), rs).outcome()
}

pub open spec fn result_view(r: Result<Workout, WorkoutError>) -> Result<WorkoutModel, WorkoutError> {
    match r {
        Ok(w) => Ok(w@),
        Err(e) => Err(e),
    }
}

/// The custom range a target slot states; zones are not supported.
pub fn target_from_fields(
    target_value: Option<u32>,
    custom_target_low: Option<u32>,
    custom_target_high: Option<u32>,
) -> (r: Result<(u32, u32), WorkoutError>)
    ensures
        r == target_spec(target_value, custom_target_low, custom_target_high),
{
    if target_value == Some(0u32) {
        if let Some(target_low) = custom_target_low {
            if let Some(target_high) = custom_target_high {
                Ok((target_low, target_high))
            } else {
                Err(WorkoutError::MissingField)
            }
        } else {
            Err(WorkoutError::MissingField)
        }
    } else {
        Err(WorkoutError::MissingField)
    }
}

/// The power range in watts that a power target slot states.
pub fn power_target(fields: &TargetFields) -> (r: Result<(u32, u32), WorkoutError>)
    ensures
        r == power_from_raw(fields.range_spec()),
{
    match target_from_fields(fields.value, fields.custom_low, fields.custom_high) {
        Ok((low, high)) => if low >= POWER_OFFSET && high >= POWER_OFFSET && low <= high {
            Ok((low - POWER_OFFSET, high - POWER_OFFSET))
        } else {
            Err(WorkoutError::UnsupportedTarget)
        },
        Err(e) => Err(e),
    }
}

/// The step that a timed step record describes.
pub fn timed_step(s: &StepRecord) -> (r: Result<WorkoutStep, WorkoutError>)
    ensures
        r == timed_step_spec(*s),
{
    let target_power = if s.primary.kind == Some(TARGET_POWER) {
        power_target(&s.primary)
    } else if s.secondary.kind == Some(TARGET_POWER) {
        power_target(&s.secondary)
    } else {
        Err(WorkoutError::NoPowerTarget)
    };
    let target_power = match target_power {
        Ok(p) => p,
        Err(e) => return Err(e),
    };
    let target_cadence = if s.primary.kind == Some(TARGET_CADENCE) {
        target_from_fields(s.primary.value, s.primary.custom_low, s.primary.custom_high).ok()
    } else if s.secondary.kind == Some(TARGET_CADENCE) {
        target_from_fields(s.secondary.value, s.secondary.custom_low, s.secondary.custom_high).ok()
    } else {
        None
    };
    match s.duration_value {
        Some(duration) => {
            if duration < 1000 {
                return Err(WorkoutError::UnsupportedDuration);
            }
            let set_point = ((target_power.0 as u64 + target_power.1 as u64) / 2) as u32;
            Ok(WorkoutStep { set_point, target_power, target_cadence, duration: duration / 1000 })
        },
        None => Err(WorkoutError::MissingField),
    }
}

/// Appends `body` to `steps` `n` times.
fn append_copies(steps: &mut Vec<WorkoutStep>, body: &Vec<WorkoutStep>, n: u32)
    ensures
        final(steps)@ == old(steps)@ + repeat_seq(body@, n as nat),
{
    let mut k: u32 = 0;
    while k < n
        invariant
            k <= n,
            steps@ == old(steps)@ + repeat_seq(body@, k as nat),
        decreases n - k,
    {
        let ghost before = steps@;
        let mut j: usize = 0;
        while j < body.len()
            invariant
                j <= body.len(),
                steps@ == before + body@.subrange(0, j as int),
            decreases body.len() - j,
        {
            steps.push(body[j]);
            j = j + 1;
            assert(steps@ =~= before + body@.subrange(0, j as int));
        }
        k = k + 1;
        assert(body@.subrange(0, body.len() as int) =~= body@);
        assert(steps@ =~= old(steps)@ + repeat_seq(body@, k as nat));
    }
}

/// Repeats the steps of `steps` from position `pos` on, so that they occur
/// `reps` times in all.
fn unroll(steps: &mut Vec<WorkoutStep>, pos: usize, reps: u32)
    ensures
        final(steps)@ == unrolled(old(steps)@, pos, reps),
{
    let len = steps.len();
    let mut body: Vec<WorkoutStep> = Vec::new();
    if pos < len {
        let mut i: usize = pos;
        while i < len
            invariant
                pos <= i <= len,
                len == steps.len(),
                body@ == steps@.subrange(pos as int, i as int),
            decreases len - i,
        {
            body.push(steps[i]);
            i = i + 1;
            assert(body@ =~= steps@.subrange(pos as int, i as int));
        }
    }
    assert(body@ =~= repeat_body(steps@, pos));
    let copies = if reps > 0 {
        reps - 1
    } else {
        0
    };
    append_copies(steps, &body, copies);
}

/// Appends `step` to `steps` and records its position under `index`.
fn append_step(
    steps: &mut Vec<WorkoutStep>,
    indices: &mut HashMap<u16, usize>,
    index: u16,
    step: WorkoutStep,
)
    ensures
        final(steps)@ == old(steps)@.push(step),
        final(indices)@ == old(indices)@.insert(index, (final(steps)@.len() - 1) as usize),
{
    steps.push(step);
    let position = steps.len() - 1;
    indices.insert(index, position);
}

/// Builds a workout from decoded records fed one at a time, in file order.
///
/// After the first error no record changes the build. A workout finished by
/// the summary record is kept even if a later record fails.
pub struct WorkoutConstructor {
    workout: Option<Workout>,
    error: Option<WorkoutError>,
    steps: Vec<WorkoutStep>,
    step_indices: HashMap<u16, usize>,
}

impl View for WorkoutConstructor {
    type V = BuildState;

    closed spec fn view(&self) -> BuildState {
        BuildState {
            workout: match self.workout {
                Some(w) => Some(w@),
                None => None,
            },
            error: self.error,
            buffer: self.steps@,
            indices: self.step_indices@,
        }
    }
}

impl WorkoutConstructor {
    /// A build that has seen no record.
    pub fn new() -> (r: WorkoutConstructor)
        ensures
            r@ == BuildState::initial(),
    {
        WorkoutConstructor {
            workout: None,
            error: None,
            steps: Vec::new(),
            step_indices: HashMap::new(),
        }
    }

    /// The error met so far, if any.
    pub fn error(&self) -> (r: Option<WorkoutError>)
        ensures
            r == self@.error,
    {
        self.error
    }

    fn fail(&mut self, e: WorkoutError)
        ensures
            final(self)@ == old(self)@.fail(e),
    {
        self.error = Some(e);
    }

    fn push_step(&mut self, s: StepRecord)
        requires
            old(self)@.error is None,
        ensures
            final(self)@ == apply_step(old(self)@, s),
    {
        let duration_type = match s.duration_type {
            Some(k) => k,
            None => {
                self.fail(WorkoutError::MissingField);
                return;
            },
        };
        if duration_type == DURATION_TIME {
            match timed_step(&s) {
                Ok(step) => match self.workout.take() {
                    Some(mut w) => {
                        append_step(&mut w.steps, &mut self.step_indices, s.message_index, step);
                        self.workout = Some(w);
                    },
                    None => {
                        append_step(&mut self.steps, &mut self.step_indices, s.message_index, step);
                    },
                },
                Err(e) => self.fail(e),
            }
        } else if duration_type == DURATION_REPEAT_UNTIL_STEPS_COMPLETE {
            let target = match s.duration_value {
                Some(t) => t,
                None => {
                    self.fail(WorkoutError::MissingField);
                    return;
                },
            };
            let repetitions = match s.primary.value {
                Some(n) => n,
                None => {
                    self.fail(WorkoutError::MissingField);
                    return;
                },
            };
            if target > 0xffff {
                self.fail(WorkoutError::RepeatTargetNotFound);
                return;
            }
            let key = target as u16;
            let pos = match self.step_indices.get(&key) {
                Some(p) => *p,
                None => {
                    self.fail(WorkoutError::RepeatTargetNotFound);
                    return;
                },
            };
            match self.workout.take() {
                Some(mut w) => {
                    unroll(&mut w.steps, pos, repetitions);
                    self.workout = Some(w);
                },
                None => {
                    unroll(&mut self.steps, pos, repetitions);
                },
            }
        } else if duration_type == DURATION_OPEN {
        } else {
            self.fail(WorkoutError::UnsupportedDuration);
        }
    }

    /// Feeds the next record of the file.
    pub fn push(&mut self, record: WorkoutRecord)
        ensures
            final(self)@ == apply_record(old(self)@, record),
    {
        if self.error.is_some() {
            return;
        }
        match record {
            WorkoutRecord::Summary { title } => match title {
                Some(t) => if !t.as_str().is_empty() {
                    let steps = copy_steps(&self.steps);
                    self.workout = Some(Workout { title: t, steps });
                } else {
                    self.fail(WorkoutError::InvalidWorkout);
                },
                None => self.fail(WorkoutError::InvalidWorkout),
            },
            WorkoutRecord::Step(s) => self.push_step(s),
        }
    }

    /// The workout, if the summary record was seen; else the first error.
    pub fn finish(self) -> (r: Result<Workout, WorkoutError>)
        ensures
            result_view(r) == self@.outcome(),
    {
        match self.workout {
            Some(w) => Ok(w),
            None => match self.error {
                Some(e) => Err(e),
                None => Err(WorkoutError::Unknown),
            },
        }
    }
}

/// A copy of a step list.
fn copy_steps(steps: &Vec<WorkoutStep>) -> (r: Vec<WorkoutStep>)
    ensures
        r@ == steps@,
{
    let mut r: Vec<WorkoutStep> = Vec::new();
    let mut i: usize = 0;
    while i < steps.len()
        invariant
            i <= steps.len(),
            r@ == steps@.subrange(0, i as int),
        decreases steps.len() - i,
    {
        r.push(steps[i]);
        i = i + 1;
        assert(r@ =~= steps@.subrange(0, i as int));
    }
    assert(r@ =~= steps@);
    r
}

/// A copy of a record.
fn copy_record(r: &WorkoutRecord) -> (c: WorkoutRecord)
    ensures
        c == *r,
{
    match r {
        WorkoutRecord::Summary { title } => match title {
            Some(t) => WorkoutRecord::Summary { title: Some(t.clone()) },
            None => WorkoutRecord::Summary { title: None },
        },
        WorkoutRecord::Step(s) => WorkoutRecord::Step(*s),
    }
}

/// Builds a workout from all the records of a file, in order.
pub fn build_workout(records: Vec<WorkoutRecord>) -> (r: Result<Workout, WorkoutError>)
    ensures
        result_view(r) == build_spec(records@),
{
    let mut c = WorkoutConstructor::new();
    let mut i: usize = 0;
    while i < records.len()
        invariant
            i <= records.len(),
            c@ == run_from(BuildState::initial(), records@.subrange(0, i as int)),
        decreases records.len() - i,
    {
        let ghost prefix = records@.subrange(0, i as int);
        c.push(copy_record(&records[i]));
        i = i + 1;
        assert(records@.subrange(0, i as int).drop_last() =~= prefix);
    }
    assert(records@.subrange(0, records.len() as int) =~= records@);
    c.finish()
}

/// A step as every built workout holds it: the set point is the midpoint
/// of a range whose low bound is at most its high bound, and the step lasts
/// at least a second.
pub open spec fn step_is_valid(s: WorkoutStep) -> bool {
    &&& s.set_point == midpoint(s.target_power)
    &&& s.target_power.0 <= s.target_power.1
    &&& s.duration > 0
}

pub open spec fn steps_valid(steps: Seq<WorkoutStep>) -> bool {
    forall|i: int| 0 <= i < steps.len() ==> #[trigger] step_is_valid(steps[i])
}

/// Every step of `steps` commands the midpoint of its power range.
pub open spec fn set_points_are_midpoints(steps: Seq<WorkoutStep>) -> bool {
    forall|i: int| 0 <= i < steps.len() ==> #[trigger] steps[i].set_point == midpoint(steps[i].target_power)
}

proof fn lemma_repeat_keeps_validity(body: Seq<WorkoutStep>, n: nat)
    requires
        steps_valid(body),
    ensures
        steps_valid(repeat_seq(body, n)),
    decreases n,
{
    if n > 0 {
        lemma_repeat_keeps_validity(body, (n - 1) as nat);
        let r = repeat_seq(body, n);
        assert forall|i: int| 0 <= i < r.len() implies #[trigger] step_is_valid(r[i]) by {
            if i < repeat_seq(body, (n - 1) as nat).len() {
                assert(r[i] == repeat_seq(body, (n - 1) as nat)[i]);
            } else {
                assert(r[i] == body[i - repeat_seq(body, (n - 1) as nat).len()]);
            }
        }
    }
}

pub open spec fn validity_holds(st: BuildState) -> bool {
    &&& steps_valid(st.buffer)
    &&& (st.workout matches Some(w) ==> steps_valid(w.steps))
}

proof fn lemma_timed_step_valid(s: StepRecord)
    ensures
        timed_step_spec(s) matches Ok(step) ==> step_is_valid(step),
{
}

proof fn lemma_record_keeps_validity(st: BuildState, r: WorkoutRecord)
    requires
        validity_holds(st),
    ensures
        validity_holds(apply_record(st, r)),
{
    let live = st.live();
    assert(steps_valid(live));
    if let WorkoutRecord::Step(s) = r {
        if st.error is None && s.duration_type == Some(DURATION_TIME) {
            lemma_timed_step_valid(s);
            if let Ok(step) = timed_step_spec(s) {
                assert(steps_valid(live.push(step)));
            }
        }
        if st.error is None && s.duration_type == Some(DURATION_REPEAT_UNTIL_STEPS_COMPLETE) {
            if let (Some(t), Some(n)) = (s.duration_value, s.primary.value) {
                if t <= 0xffff && st.indices.contains_key(t as u16) {
                    let pos = st.indices[t as u16];
                    let body = repeat_body(live, pos);
                    assert(steps_valid(body));
                    let k: nat = if n > 0 { (n - 1) as nat } else { 0 };
                    lemma_repeat_keeps_validity(body, k);
                    let u = unrolled(live, pos, n);
                    assert forall|i: int| 0 <= i < u.len() implies #[trigger] step_is_valid(u[i]) by {
                        if i >= live.len() {
                            assert(u[i] == repeat_seq(body, k)[i - live.len()]);
                        }
                    }
                }
            }
        }
    }
}

proof fn lemma_run_keeps_validity(st: BuildState, rs: Seq<WorkoutRecord>)
    requires
        validity_holds(st),
    ensures
        validity_holds(run_from(st, rs)),
    decreases rs.len(),
{
    if rs.len() > 0 {
        lemma_run_keeps_validity(st, rs.drop_last());
        lemma_record_keeps_validity(run_from(st, rs.drop_last()), rs.last());
    }
}

/// In every workout built from records, each step's set point is the
/// midpoint of its power range, rounded down.
pub proof fn lemma_set_point_is_midpoint(rs: Seq<WorkoutRecord>)
    ensures
        build_spec(rs) matches Ok(w) ==> set_points_are_midpoints(w.steps),
{
    lemma_run_keeps_validity(BuildState::initial(), rs);
    if let Ok(w) = build_spec(rs) {
        assert forall|i: int| 0 <= i < w.steps.len() implies #[trigger] w.steps[i].set_point
            == midpoint(w.steps[i].target_power) by {
            assert(step_is_valid(w.steps[i]));
        }
    }
}

/// In every workout built from records, each step's power range has its
/// low bound at most its high bound, and each step lasts at least a second.
pub proof fn lemma_steps_well_formed(rs: Seq<WorkoutRecord>)
    ensures
        build_spec(rs) matches Ok(w) ==> forall|i: int|
            0 <= i < w.steps.len() ==> #[trigger] w.steps[i].target_power.0
                <= w.steps[i].target_power.1 && w.steps[i].duration > 0,
{
    lemma_run_keeps_validity(BuildState::initial(), rs);
    if let Ok(w) = build_spec(rs) {
        assert forall|i: int| 0 <= i < w.steps.len() implies #[trigger] w.steps[i].target_power.0
            <= w.steps[i].target_power.1 && w.steps[i].duration > 0 by {
            assert(step_is_valid(w.steps[i]));
        }
    }
}

proof fn lemma_body_then_repeats(body: Seq<WorkoutStep>, m: nat)
    ensures
        body + repeat_seq(body, m) == repeat_seq(body, m + 1),
    decreases m,
{
    if m == 0 {
        assert(body + repeat_seq(body, 0) =~= repeat_seq(body, 1));
    } else {
        lemma_body_then_repeats(body, (m - 1) as nat);
        assert(body + repeat_seq(body, m) =~= repeat_seq(body, m + 1));
    }
}

/// A repeat marker that refers to the step at position `pos` of the live
/// list, with a count of `n`, leaves the steps from `pos` on occurring `n`
/// times in all, one block after the other, and raises no error.
pub proof fn lemma_repeat_expansion(st: BuildState, s: StepRecord, t: u32, n: u32)
    requires
        st.error is None,
        s.duration_type == Some(DURATION_REPEAT_UNTIL_STEPS_COMPLETE),
        s.duration_value == Some(t),
        s.primary.value == Some(n),
        n >= 1,
        t <= 0xffff,
        st.indices.contains_key(t as u16),
        st.indices[t as u16] < st.live().len(),
    ensures
        ({
            let pos = st.indices[t as u16] as int;
            let live = st.live();
            let after = apply_record(st, WorkoutRecord::Step(s));
            &&& after.error is None
            &&& after.live() == live.subrange(0, pos) + repeat_seq(
                live.subrange(pos, live.len() as int),
                n as nat,
            )
        }),
{
    let pos = st.indices[t as u16];
    let live = st.live();
    let body = live.subrange(pos as int, live.len() as int);
    lemma_body_then_repeats(body, (n - 1) as nat);
    assert(live =~= live.subrange(0, pos as int) + body);
    assert(unrolled(live, pos, n) =~= live.subrange(0, pos as int) + repeat_seq(body, n as nat));
}

/// Once a build has met an error, no further record changes it; a workout
/// already finished by the summary record is what the build yields.
pub proof fn lemma_sticky_error(st: BuildState, rs: Seq<WorkoutRecord>)
    requires
        st.error is Some,
    ensures
        run_from(st, rs) == st,
        st.workout matches Some(w) ==> run_from(st, rs).outcome() == Ok::<WorkoutModel, WorkoutError>(w),
    decreases rs.len(),
{
    if rs.len() > 0 {
        lemma_sticky_error(st, rs.drop_last());
    }
}

proof fn lemma_run_concat(st: BuildState, a: Seq<WorkoutRecord>, b: Seq<WorkoutRecord>)
    ensures
        run_from(st, a + b) == run_from(run_from(st, a), b),
    decreases b.len(),
{
    if b.len() == 0 {
        assert(a + b =~= a);
    } else {
        assert((a + b).drop_last() =~= a + b.drop_last());
        assert((a + b).last() == b.last());
        lemma_run_concat(st, a, b.drop_last());
    }
}

/// If the records `before` finish a workout `w` without error, and the next
/// record fails, the build yields `w` as it stood then, whatever records
/// follow.
pub proof fn lemma_finished_workout_survives_failure(
    before: Seq<WorkoutRecord>,
    failing: WorkoutRecord,
    after: Seq<WorkoutRecord>,
)
    requires
        run_from(BuildState::initial(), before).error is None,
        run_from(BuildState::initial(), before).workout is Some,
        apply_record(run_from(BuildState::initial(), before), failing).error is Some,
    ensures
        build_spec(before + seq![failing] + after) == Ok::<WorkoutModel, WorkoutError>(
            run_from(BuildState::initial(), before).workout.unwrap(),
        ),
{
    let st = run_from(BuildState::initial(), before);
    let rs = before + seq![failing];
    lemma_run_concat(BuildState::initial(), before, seq![failing]);
    let one: Seq<WorkoutRecord> = seq![failing];
    assert(one.drop_last() =~= Seq::<WorkoutRecord>::empty());
    assert(run_from(st, one.drop_last()) == st);
    assert(one.last() == failing);
    assert(run_from(st, one) == apply_record(run_from(st, one.drop_last()), one.last()));
    let failed = run_from(BuildState::initial(), rs);
    assert(failed == apply_record(st, failing));
    assert(failed.workout == st.workout);
    lemma_run_concat(BuildState::initial(), rs, after);
    lemma_sticky_error(failed, after);
}

/// A power target whose raw bounds are not both absolute (at least the
/// offset) is rejected, never turned into watts.
pub proof fn lemma_ftp_relative_rejected(f: TargetFields, low: u32, high: u32)
    requires
        f.range_spec() == Ok::<(u32, u32), WorkoutError>((low, high)),
        low < POWER_OFFSET || high < POWER_OFFSET,
    ensures
        power_from_raw(f.range_spec()) == Err::<(u32, u32), WorkoutError>(WorkoutError::UnsupportedTarget),
{
}

/// An open-ended step record adds no step and raises no error.
pub proof fn lemma_open_step_skipped(st: BuildState, s: StepRecord)
    requires
        s.duration_type == Some(DURATION_OPEN),
    ensures
        apply_record(st, WorkoutRecord::Step(s)) == st,
{
}

} // verus!
