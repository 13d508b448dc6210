use workout_executor::command::{
    command_required, quarter_watts, CommandState, CommandStatus, PowerController,
    STALE_AFTER_MS, TARGET_POWER_COMMAND_ID,
};

fn ack(watts: u16) -> CommandStatus {
    CommandStatus { command_id: TARGET_POWER_COMMAND_ID, passed: true, target_power: Some(watts * 4) }
}

#[test]
fn nothing_is_sent_before_a_request() {
    let mut c = PowerController::new();
    assert_eq!(c.tick(None, &vec![], 0), None);
    assert_eq!(c.state, CommandState::Idle);
}

#[test]
fn converges_with_an_acknowledging_device() {
    let mut c = PowerController::new();
    assert_eq!(c.tick(Some(200), &vec![], 0), Some(200));
    c.command_sent(200, 0);
    assert_eq!(c.tick(None, &vec![], 10), None);
    assert_eq!(c.tick(None, &vec![ack(200)], 20), None);
    assert_eq!(c.state, CommandState::Acknowledged { power: 200 });
    for t in 1..100u64 {
        assert_eq!(c.tick(None, &vec![], 20 + t * 100), None);
    }
    assert_eq!(c.tick(None, &vec![ack(200)], 20_000), None);
}

#[test]
fn stale_pending_command_is_resent() {
    let mut c = PowerController { state: CommandState::Pending { power: 150, sent_at_ms: 1000 }, desired: Some(150) };
    assert_eq!(c.tick(None, &vec![], 1000 + STALE_AFTER_MS), None);
    assert_eq!(c.tick(None, &vec![], 1001 + STALE_AFTER_MS), Some(150));
}

#[test]
fn new_request_supersedes_pending_and_acknowledged() {
    let mut c = PowerController { state: CommandState::Pending { power: 150, sent_at_ms: 0 }, desired: Some(150) };
    assert_eq!(c.tick(Some(180), &vec![], 10), Some(180));
    let mut c = PowerController { state: CommandState::Acknowledged { power: 150 }, desired: Some(150) };
    assert_eq!(c.tick(Some(150), &vec![], 10), None);
    assert_eq!(c.tick(Some(180), &vec![], 10), Some(180));
    assert_eq!(c.desired, Some(180));
}

#[test]
fn failed_or_foreign_reports_change_nothing() {
    let mut c = PowerController { state: CommandState::Pending { power: 150, sent_at_ms: 0 }, desired: Some(150) };
    let failed = CommandStatus { command_id: TARGET_POWER_COMMAND_ID, passed: false, target_power: Some(600) };
    let foreign = CommandStatus { command_id: 48, passed: true, target_power: Some(600) };
    let empty = CommandStatus { command_id: TARGET_POWER_COMMAND_ID, passed: true, target_power: None };
    assert_eq!(c.tick(None, &vec![failed, foreign, empty], 100), None);
    assert_eq!(c.state, CommandState::Pending { power: 150, sent_at_ms: 0 });
}

#[test]
fn acknowledgement_converts_quarter_watts() {
    let mut c = PowerController::new();
    let r = CommandStatus { command_id: TARGET_POWER_COMMAND_ID, passed: true, target_power: Some(803) };
    c.on_status(&r);
    assert_eq!(c.state, CommandState::Acknowledged { power: 200 });
}

#[test]
fn acknowledged_other_power_triggers_a_command() {
    let mut c = PowerController { state: CommandState::Idle, desired: Some(250) };
    assert_eq!(c.tick(None, &vec![ack(200)], 0), Some(250));
}

#[test]
fn command_required_rules() {
    assert!(command_required(CommandState::Idle, 100, 0));
    assert!(!command_required(CommandState::Pending { power: 100, sent_at_ms: 50 }, 100, 10));
    assert!(command_required(CommandState::Pending { power: 100, sent_at_ms: 50 }, 101, 60));
    assert!(!command_required(CommandState::Acknowledged { power: 100 }, 100, 1_000_000));
}

#[test]
fn wire_power_is_quarter_watts() {
    assert_eq!(quarter_watts(250), 1000);
    assert_eq!(quarter_watts(u16::MAX), 262_140);
}
