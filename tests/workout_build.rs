use workout_executor::workout::{
    build_workout, power_target, target_from_fields, timed_step, StepRecord, TargetFields,
    Workout, WorkoutConstructor, WorkoutError, WorkoutRecord, WorkoutStep,
    DURATION_OPEN, DURATION_REPEAT_UNTIL_STEPS_COMPLETE, DURATION_TIME, TARGET_CADENCE,
    TARGET_POWER,
};

fn no_target() -> TargetFields {
    TargetFields { kind: None, value: None, custom_low: None, custom_high: None }
}

fn custom(kind: u8, low: u32, high: u32) -> TargetFields {
    TargetFields { kind: Some(kind), value: Some(0), custom_low: Some(low), custom_high: Some(high) }
}

fn timed(index: u16, ms: u32, low: u32, high: u32) -> WorkoutRecord {
    WorkoutRecord::Step(StepRecord {
        message_index: index,
        duration_type: Some(DURATION_TIME),
        duration_value: Some(ms),
        primary: custom(TARGET_POWER, 1000 + low, 1000 + high),
        secondary: no_target(),
    })
}

fn repeat(index: u16, from: u32, count: u32) -> WorkoutRecord {
    WorkoutRecord::Step(StepRecord {
        message_index: index,
        duration_type: Some(DURATION_REPEAT_UNTIL_STEPS_COMPLETE),
        duration_value: Some(from),
        primary: TargetFields { kind: None, value: Some(count), custom_low: None, custom_high: None },
        secondary: no_target(),
    })
}

fn summary(title: &str) -> WorkoutRecord {
    WorkoutRecord::Summary { title: Some(title.to_string()) }
}

fn step(low: u32, high: u32, seconds: u32) -> WorkoutStep {
    WorkoutStep {
        set_point: (low + high) / 2,
        target_power: (low, high),
        target_cadence: None,
        duration: seconds,
    }
}

#[test]
fn custom_target_is_returned_verbatim() {
    assert_eq!(target_from_fields(Some(0), Some(85), Some(95)), Ok((85, 95)));
}

#[test]
fn zone_target_is_refused() {
    assert_eq!(target_from_fields(Some(3), Some(85), Some(95)), Err(WorkoutError::MissingField));
    assert_eq!(target_from_fields(None, Some(85), Some(95)), Err(WorkoutError::MissingField));
}

#[test]
fn custom_target_needs_both_bounds() {
    assert_eq!(target_from_fields(Some(0), None, Some(95)), Err(WorkoutError::MissingField));
    assert_eq!(target_from_fields(Some(0), Some(85), None), Err(WorkoutError::MissingField));
}

#[test]
fn absolute_power_drops_the_offset() {
    assert_eq!(power_target(&custom(TARGET_POWER, 1100, 1125)), Ok((100, 125)));
    assert_eq!(power_target(&custom(TARGET_POWER, 1000, 1000)), Ok((0, 0)));
}

#[test]
fn ftp_relative_power_is_refused() {
    assert_eq!(power_target(&custom(TARGET_POWER, 90, 105)), Err(WorkoutError::UnsupportedTarget));
    assert_eq!(power_target(&custom(TARGET_POWER, 999, 1200)), Err(WorkoutError::UnsupportedTarget));
    assert_eq!(power_target(&custom(TARGET_POWER, 1200, 999)), Err(WorkoutError::UnsupportedTarget));
}

#[test]
fn inverted_power_range_is_refused() {
    assert_eq!(power_target(&custom(TARGET_POWER, 1200, 1100)), Err(WorkoutError::UnsupportedTarget));
    assert_eq!(
        build_workout(vec![timed(0, 60_000, 200, 100), summary("T")]),
        Err(WorkoutError::UnsupportedTarget)
    );
}

#[test]
fn sub_second_step_is_refused() {
    assert_eq!(
        build_workout(vec![timed(0, 500, 100, 200), summary("T")]),
        Err(WorkoutError::UnsupportedDuration)
    );
    assert_eq!(build_workout(vec![timed(0, 1000, 100, 200), summary("T")]).unwrap().steps[0].duration, 1);
}

#[test]
fn failure_after_second_summary_keeps_the_live_workout() {
    let w = build_workout(vec![
        timed(0, 60_000, 100, 100),
        summary("First"),
        timed(1, 30_000, 150, 150),
        summary("Second"),
        timed(2, 20_000, 200, 200),
        WorkoutRecord::Summary { title: None },
        timed(3, 10_000, 250, 250),
    ]);
    assert_eq!(
        w,
        Ok(Workout { title: "Second".to_string(), steps: vec![step(100, 100, 60), step(200, 200, 20)] })
    );
}

#[test]
fn timed_step_midpoint_and_seconds() {
    let s = StepRecord {
        message_index: 0,
        duration_type: Some(DURATION_TIME),
        duration_value: Some(60_999),
        primary: custom(TARGET_POWER, 1125, 1150),
        secondary: custom(TARGET_CADENCE, 85, 95),
    };
    assert_eq!(
        timed_step(&s),
        Ok(WorkoutStep {
            set_point: 137,
            target_power: (125, 150),
            target_cadence: Some((85, 95)),
            duration: 60,
        })
    );
}

#[test]
fn power_may_come_from_the_secondary_slot() {
    let s = StepRecord {
        message_index: 0,
        duration_type: Some(DURATION_TIME),
        duration_value: Some(30_000),
        primary: custom(TARGET_CADENCE, 90, 100),
        secondary: custom(TARGET_POWER, 1200, 1250),
    };
    assert_eq!(
        timed_step(&s),
        Ok(WorkoutStep {
            set_point: 225,
            target_power: (200, 250),
            target_cadence: Some((90, 100)),
            duration: 30,
        })
    );
}

#[test]
fn unusable_cadence_is_dropped() {
    let s = StepRecord {
        message_index: 0,
        duration_type: Some(DURATION_TIME),
        duration_value: Some(30_000),
        primary: custom(TARGET_POWER, 1200, 1250),
        secondary: TargetFields { kind: Some(TARGET_CADENCE), value: Some(2), custom_low: None, custom_high: None },
    };
    assert_eq!(timed_step(&s).map(|st| st.target_cadence), Ok(None));
}

#[test]
fn step_without_power_target_fails() {
    let s = StepRecord {
        message_index: 0,
        duration_type: Some(DURATION_TIME),
        duration_value: Some(30_000),
        primary: custom(TARGET_CADENCE, 90, 100),
        secondary: no_target(),
    };
    assert_eq!(timed_step(&s), Err(WorkoutError::NoPowerTarget));
}

#[test]
fn timed_step_needs_a_duration() {
    let s = StepRecord {
        message_index: 0,
        duration_type: Some(DURATION_TIME),
        duration_value: None,
        primary: custom(TARGET_POWER, 1200, 1250),
        secondary: no_target(),
    };
    assert_eq!(timed_step(&s), Err(WorkoutError::MissingField));
}

#[test]
fn set_point_is_midpoint_rounded_down() {
    let w = build_workout(vec![timed(0, 60_000, 100, 125), timed(1, 60_000, 238, 250), summary("T")]).unwrap();
    for s in &w.steps {
        assert_eq!(s.set_point, (s.target_power.0 + s.target_power.1) / 2);
    }
    assert_eq!(w.steps[0].set_point, 112);
    assert_eq!(w.steps[1].set_point, 244);
}

#[test]
fn repeat_unrolls_body_three_times() {
    let w = build_workout(vec![
        timed(0, 10_000, 100, 100),
        timed(1, 20_000, 200, 200),
        timed(2, 30_000, 300, 300),
        repeat(3, 0, 3),
        summary("Repeats"),
    ])
    .unwrap();
    let a = step(100, 100, 10);
    let b = step(200, 200, 20);
    let c = step(300, 300, 30);
    assert_eq!(w.steps, vec![a, b, c, a, b, c, a, b, c]);
}

#[test]
fn repeat_of_a_later_part_keeps_the_prefix() {
    let w = build_workout(vec![
        summary("Warmup then intervals"),
        timed(0, 600_000, 100, 125),
        timed(1, 480_000, 238, 250),
        timed(2, 120_000, 112, 138),
        repeat(3, 1, 2),
        timed(4, 600_000, 100, 125),
    ])
    .unwrap();
    assert_eq!(w.title, "Warmup then intervals");
    assert_eq!(
        w.steps,
        vec![
            step(100, 125, 600),
            step(238, 250, 480),
            step(112, 138, 120),
            step(238, 250, 480),
            step(112, 138, 120),
            step(100, 125, 600),
        ]
    );
}

#[test]
fn repeat_to_unknown_step_fails() {
    assert_eq!(
        build_workout(vec![timed(0, 1000, 100, 100), repeat(1, 7, 2), summary("T")]),
        Err(WorkoutError::RepeatTargetNotFound)
    );
    assert_eq!(
        build_workout(vec![timed(0, 1000, 100, 100), repeat(1, 70_000, 2), summary("T")]),
        Err(WorkoutError::RepeatTargetNotFound)
    );
}

#[test]
fn repeat_needs_count_and_target() {
    let mut r = StepRecord {
        message_index: 1,
        duration_type: Some(DURATION_REPEAT_UNTIL_STEPS_COMPLETE),
        duration_value: None,
        primary: TargetFields { kind: None, value: Some(2), custom_low: None, custom_high: None },
        secondary: no_target(),
    };
    assert_eq!(
        build_workout(vec![timed(0, 1000, 100, 100), WorkoutRecord::Step(r), summary("T")]),
        Err(WorkoutError::MissingField)
    );
    r.duration_value = Some(0);
    r.primary.value = None;
    assert_eq!(
        build_workout(vec![timed(0, 1000, 100, 100), WorkoutRecord::Step(r), summary("T")]),
        Err(WorkoutError::MissingField)
    );
}

#[test]
fn error_before_summary_is_returned() {
    let bad = StepRecord {
        message_index: 1,
        duration_type: Some(DURATION_TIME),
        duration_value: Some(1000),
        primary: custom(TARGET_POWER, 50, 60),
        secondary: no_target(),
    };
    assert_eq!(
        build_workout(vec![timed(0, 1000, 100, 100), WorkoutRecord::Step(bad), timed(2, 1000, 150, 150), summary("T")]),
        Err(WorkoutError::UnsupportedTarget)
    );
}

#[test]
fn error_after_summary_keeps_the_workout() {
    let w = build_workout(vec![
        timed(0, 60_000, 100, 100),
        summary("Kept"),
        timed(1, 30_000, 150, 150),
        WorkoutRecord::Step(StepRecord {
            message_index: 2,
            duration_type: Some(9),
            duration_value: Some(1000),
            primary: no_target(),
            secondary: no_target(),
        }),
        timed(3, 30_000, 200, 200),
        summary("Replaced"),
    ]);
    assert_eq!(
        w,
        Ok(Workout { title: "Kept".to_string(), steps: vec![step(100, 100, 60), step(150, 150, 30)] })
    );
}

#[test]
fn constructor_ignores_records_after_error() {
    let mut c = WorkoutConstructor::new();
    c.push(WorkoutRecord::Summary { title: None });
    assert_eq!(c.error(), Some(WorkoutError::InvalidWorkout));
    c.push(timed(0, 1000, 100, 100));
    c.push(summary("Late"));
    assert_eq!(c.error(), Some(WorkoutError::InvalidWorkout));
    assert_eq!(c.finish(), Err(WorkoutError::InvalidWorkout));
}

#[test]
fn empty_title_is_invalid() {
    assert_eq!(build_workout(vec![summary("")]), Err(WorkoutError::InvalidWorkout));
}

#[test]
fn open_step_adds_nothing() {
    let open = WorkoutRecord::Step(StepRecord {
        message_index: 1,
        duration_type: Some(DURATION_OPEN),
        duration_value: None,
        primary: no_target(),
        secondary: no_target(),
    });
    let w = build_workout(vec![timed(0, 5000, 100, 100), open, summary("Open")]).unwrap();
    assert_eq!(w.steps, vec![step(100, 100, 5)]);
}

#[test]
fn unsupported_and_missing_duration_kinds_fail() {
    let mut r = StepRecord {
        message_index: 0,
        duration_type: Some(1),
        duration_value: Some(1000),
        primary: custom(TARGET_POWER, 1100, 1100),
        secondary: no_target(),
    };
    assert_eq!(build_workout(vec![WorkoutRecord::Step(r)]), Err(WorkoutError::UnsupportedDuration));
    r.duration_type = None;
    assert_eq!(build_workout(vec![WorkoutRecord::Step(r)]), Err(WorkoutError::MissingField));
}

#[test]
fn no_records_is_an_unknown_failure() {
    assert_eq!(build_workout(vec![]), Err(WorkoutError::Unknown));
    assert_eq!(build_workout(vec![timed(0, 1000, 100, 100)]), Err(WorkoutError::Unknown));
}
