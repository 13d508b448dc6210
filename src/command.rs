//! Deciding when a target power command must be sent to the trainer.
//!
//! The trainer confirms commands through command status reports. A command
//! is sent when none was ever sent, when the desired power changed, or when
//! a sent command was not confirmed in time. Sending itself is done by the
//! caller, which reports back with [`PowerController::command_sent`] once the
//! command and the status request both went out.
use vstd::prelude::*;

verus! {

/// A sent command that is not confirmed within this many milliseconds is
/// taken as lost.
pub const STALE_AFTER_MS: u64 = 500;

/// The identifier of the target power command in status reports.
pub const TARGET_POWER_COMMAND_ID: u8 = 49;

/// The data page that carries the command status report.
pub const COMMAND_STATUS_PAGE: u8 = 71;

/// Where the last power command stands.
#[derive(Clone, Copy, Debug, PartialEq, Eq)]
pub enum CommandState {
    /// No command was ever sent.
    Idle,
    /// A command for `power` watts went out at `sent_at_ms`.
    Pending { power: u16, sent_at_ms: u64 },
    /// The device confirmed that it applies `power` watts.
    Acknowledged { power: u16 },
}

/// A command status report of the device.
#[derive(Clone, Copy, Debug, PartialEq, Eq)]
pub struct CommandStatus {
    /// The command the report is about.
    pub command_id: u8,
    /// Whether the device accepted that command.
    pub passed: bool,
    /// The confirmed target power, in quarter watts.
    pub target_power: Option<u16>,
}

/// The state of the power command loop.
#[derive(Clone, Copy, Debug, PartialEq, Eq)]
pub struct PowerController {
    pub state: CommandState,
    /// The latest requested power in watts; none before the first request.
    pub desired: Option<u16>,
}

/// The command state after one status report.
pub open spec fn after_status(state: CommandState, s: CommandStatus) -> CommandState {
    if s.command_id == TARGET_POWER_COMMAND_ID && s.passed {
        match s.target_power {
            Some(q) => CommandState::Acknowledged { power: (q / 4) as u16 },
            None => state,
        }
    } else {
        state
    }
}

/// The command state after the status reports `ss`, in order.
pub open spec fn after_statuses(state: CommandState, ss: Seq<CommandStatus>) -> CommandState
    decreases ss.len(),
{
    if ss.len() == 0 {
        state
    } else {
        after_status(after_statuses(state, ss.drop_last()), ss.last())
    }
}

/// Whether a command for `desired` watts must be sent at `now_ms`.
pub open spec fn command_required_spec(state: CommandState, desired: u16, now_ms: u64) -> bool {
    match state {
        CommandState::Idle => true,
        CommandState::Pending { power, sent_at_ms } => power != desired || now_ms - sent_at_ms
            > STALE_AFTER_MS,
        CommandState::Acknowledged { power } => power != desired,
    }
}

/// The controller after a tick, and the power to send, if any.
pub open spec fn tick_spec(
    c: PowerController,
    request: Option<u16>,
    ss: Seq<CommandStatus>,
    now_ms: u64,
) -> (PowerController, Option<u16>) {
    let desired = if request is Some {
        request
    } else {
        c.desired
    };
    let state = after_statuses(c.state, ss);
    let send = match desired {
        Some(d) => if command_required_spec(state, d, now_ms) {
            Some(d)
        } else {
            None
        },
        None => None,
    };
    (PowerController { state, desired }, send)
}

/// The controller once a command for `power` went out at `now_ms`.
pub open spec fn sent_spec(c: PowerController, power: u16, now_ms: u64) -> PowerController {
    PowerController { state: CommandState::Pending { power, sent_at_ms: now_ms }, ..c }
}

/// Whether a command for `desired` watts must be sent at `now_ms`.
pub fn command_required(state: CommandState, desired: u16, now_ms: u64) -> (r: bool)
    ensures
        r == command_required_spec(state, desired, now_ms),
{
    match state {
        CommandState::Idle => true,
        CommandState::Pending { power, sent_at_ms } => power != desired || (now_ms > sent_at_ms
            && now_ms - sent_at_ms > STALE_AFTER_MS),
        CommandState::Acknowledged { power } => power != desired,
    }
}

/// The power command value on the wire, in quarter watts.
pub fn quarter_watts(power: u16) -> (r: u32)
    ensures
        r == power * 4,
{
    power as u32 * 4
}

impl PowerController {
    /// A controller with no request and no command sent.
    pub fn new() -> (r: PowerController)
        ensures
            r.state == CommandState::Idle,
            r.desired is None,
    {
        PowerController { state: CommandState::Idle, desired: None }
    }

    /// Takes in one status report.
    pub fn on_status(&mut self, s: &CommandStatus)
        ensures
            final(self).state == after_status(old(self).state, *s),
            final(self).desired == old(self).desired,
    {
        if s.command_id == TARGET_POWER_COMMAND_ID && s.passed {
            if let Some(q) = s.target_power {
                self.state = CommandState::Acknowledged { power: q / 4 };
            }
        }
    }

    /// One control tick: takes the latest power request, if any, and the
    /// status reports that came in since the last tick, and tells whether a
    /// command must be sent now, and for which power.
    pub fn tick(&mut self, request: Option<u16>, statuses: &Vec<CommandStatus>, now_ms: u64) -> (r:
        Option<u16>)
        ensures
            (*final(self), r) == tick_spec(*old(self), request, statuses@, now_ms),
    {
        if request.is_some() {
            self.desired = request;
        }
        let mut i: usize = 0;
        while i < statuses.len()
            invariant
                i <= statuses.len(),
                self.state == after_statuses(old(self).state, statuses@.subrange(0, i as int)),
                self.desired == (if request is Some { request } else { old(self).desired }),
            decreases statuses.len() - i,
        {
            let ghost prefix = statuses@.subrange(0, i as int);
            self.on_status(&statuses[i]);
            i = i + 1;
            assert(statuses@.subrange(0, i as int).drop_last() =~= prefix);
        }
        assert(statuses@.subrange(0, statuses.len() as int) =~= statuses@);
        match self.desired {
            Some(d) => if command_required(self.state, d, now_ms) {
                Some(d)
            } else {
                None
            },
            None => None,
        }
    }

    /// Records that the command for `power` and the status request both
    /// went out at `now_ms`.
    pub fn command_sent(&mut self, power: u16, now_ms: u64)
        ensures
            *final(self) == sent_spec(*old(self), power, now_ms),
    {
        self.state = CommandState::Pending { power, sent_at_ms: now_ms };
    }
}

/// The report of a device that confirms a target of `power` watts.
pub open spec fn ack_of(power: u16) -> CommandStatus {
    CommandStatus {
        command_id: TARGET_POWER_COMMAND_ID,
        passed: true,
        target_power: Some((power * 4) as u16),
    }
}

/// Whether every report in `ss` confirms `power` watts.
pub open spec fn all_ack(ss: Seq<CommandStatus>, power: u16) -> bool {
    forall|i: int| 0 <= i < ss.len() ==> #[trigger] ss[i] == ack_of(power)
}

proof fn lemma_acks_settle(state: CommandState, ss: Seq<CommandStatus>, power: u16)
    requires
        power <= 16383,
        all_ack(ss, power),
        ss.len() > 0 || state == (CommandState::Acknowledged { power }),
    ensures
        after_statuses(state, ss) == (CommandState::Acknowledged { power }),
    decreases ss.len(),
{
    if ss.len() > 0 {
        let rest = ss.drop_last();
        assert(all_ack(rest, power)) by {
            assert forall|i: int| 0 <= i < rest.len() implies #[trigger] rest[i] == ack_of(power) by {
                assert(rest[i] == ss[i]);
            }
        }
        if rest.len() > 0 {
            lemma_acks_settle(state, rest, power);
        }
        assert(ss.last() == ack_of(power));
    }
}

/// A pending command older than the staleness bound and never confirmed is
/// sent again on the next tick, even for the same power.
pub proof fn lemma_stale_command_resent(c: PowerController, power: u16, sent_at_ms: u64, now_ms: u64)
    requires
        c.state == (CommandState::Pending { power, sent_at_ms }),
        c.desired == Some(power),
        now_ms - sent_at_ms > STALE_AFTER_MS,
    ensures
        tick_spec(c, None, Seq::empty(), now_ms).1 == Some(power),
{
}

/// One control tick as the loop sees it: the status reports that came in,
/// and the time in milliseconds.
pub type Tick = (Seq<CommandStatus>, u64);

/// The controller after the ticks `ticks`, with no new power request, where
/// every command the controller asks for is sent at once, and the number of
/// commands sent.
pub open spec fn run_ticks(c: PowerController, ticks: Seq<Tick>) -> (PowerController, nat)
    decreases ticks.len(),
{
    if ticks.len() == 0 {
        (c, 0)
    } else {
        let (c0, n0) = run_ticks(c, ticks.drop_last());
        let (c1, send) = tick_spec(c0, None, ticks.last().0, ticks.last().1);
        match send {
            Some(p) => (sent_spec(c1, p, ticks.last().1), n0 + 1),
            None => (c1, n0),
        }
    }
}

/// What holds after the first `k` ticks of a schedule whose first
/// confirmation arrives at tick `a`.
pub open spec fn converging(c: PowerController, d: u16, ticks: Seq<Tick>, a: int, k: int) -> bool {
    let (ck, n) = run_ticks(c, ticks.take(k));
    &&& ck.desired == Some(d)
    &&& n <= 1
    &&& k > a ==> ck.state == (CommandState::Acknowledged { power: d }) && n == run_ticks(
        c,
        ticks.take(a + 1),
    ).1
    &&& 1 <= k <= a ==> (ck.state == (CommandState::Acknowledged { power: d }) || (ck.state
        matches CommandState::Pending { power, sent_at_ms } && power == d && (sent_at_ms
        >= ticks[0].1 || (n == 0 && ticks[0].1 - sent_at_ms <= STALE_AFTER_MS))))
}

proof fn lemma_converging_step(c: PowerController, d: u16, ticks: Seq<Tick>, a: int, k: int)
    requires
        d <= 16383,
        c.desired == Some(d),
        0 <= a < ticks.len(),
        ticks[a].0.len() > 0,
        forall|i: int| 0 <= i < ticks.len() ==> all_ack(#[trigger] ticks[i].0, d),
        forall|i: int| 0 <= i < ticks.len() ==> #[trigger] ticks[i].1 >= ticks[0].1,
        forall|i: int| 0 <= i < a ==> #[trigger] ticks[i].1 <= ticks[0].1 + STALE_AFTER_MS,
        0 <= k < ticks.len(),
        converging(c, d, ticks, a, k),
    ensures
        converging(c, d, ticks, a, k + 1),
{
    let pre = ticks.take(k);
    let cur = ticks.take(k + 1);
    assert(cur.drop_last() =~= pre);
    assert(cur.last() == ticks[k]);
    let (ck, n) = run_ticks(c, pre);
    let ss = ticks[k].0;
    let now = ticks[k].1;
    assert(all_ack(ss, d));
    if ss.len() > 0 || ck.state == (CommandState::Acknowledged { power: d }) {
        lemma_acks_settle(ck.state, ss, d);
    }
    if k == 0 {
        assert(pre =~= Seq::<Tick>::empty());
    }
}

proof fn lemma_converging(c: PowerController, d: u16, ticks: Seq<Tick>, a: int, k: int)
    requires
        d <= 16383,
        c.desired == Some(d),
        0 <= a < ticks.len(),
        ticks[a].0.len() > 0,
        forall|i: int| 0 <= i < ticks.len() ==> all_ack(#[trigger] ticks[i].0, d),
        forall|i: int| 0 <= i < ticks.len() ==> #[trigger] ticks[i].1 >= ticks[0].1,
        forall|i: int| 0 <= i < a ==> #[trigger] ticks[i].1 <= ticks[0].1 + STALE_AFTER_MS,
        0 <= k <= ticks.len(),
    ensures
        converging(c, d, ticks, a, k),
    decreases k,
{
    if k == 0 {
        assert(ticks.take(0) =~= Seq::<Tick>::empty());
    } else {
        lemma_converging(c, d, ticks, a, k - 1);
        lemma_converging_step(c, d, ticks, a, k - 1);
    }
}

/// With the desired power held at `d`, and a device that confirms `d`
/// within the staleness bound of the first tick (the first confirmation
/// comes at tick `a`, and every tick before it is at most that long after
/// the first), over any schedule of ticks whose reports only confirm `d`
/// and whose times do not go back before the first: at most one command is
/// sent in all, which is within two; from tick `a` on the controller holds
/// `Acknowledged(d)` and sends nothing more.
pub proof fn lemma_command_converges(c: PowerController, d: u16, ticks: Seq<Tick>, a: int)
    requires
        d <= 16383,
        c.desired == Some(d),
        0 <= a < ticks.len(),
        ticks[a].0.len() > 0,
        forall|i: int| 0 <= i < ticks.len() ==> all_ack(#[trigger] ticks[i].0, d),
        forall|i: int| 0 <= i < ticks.len() ==> #[trigger] ticks[i].1 >= ticks[0].1,
        forall|i: int| 0 <= i < a ==> #[trigger] ticks[i].1 <= ticks[0].1 + STALE_AFTER_MS,
    ensures
        run_ticks(c, ticks).1 <= 2,
        forall|k: int|
            a < k <= ticks.len() ==> {
                &&& (#[trigger] run_ticks(c, ticks.take(k))).0.state == (CommandState::Acknowledged {
                    power: d,
                })
                &&& run_ticks(c, ticks.take(k)).1 == run_ticks(c, ticks.take(a + 1)).1
            },
{
    assert forall|k: int| a < k <= ticks.len() implies {
        &&& (#[trigger] run_ticks(c, ticks.take(k))).0.state == (CommandState::Acknowledged {
            power: d,
        })
        &&& run_ticks(c, ticks.take(k)).1 == run_ticks(c, ticks.take(a + 1)).1
    } by {
        lemma_converging(c, d, ticks, a, k);
    }
    lemma_converging(c, d, ticks, a, ticks.len() as int);
    assert(ticks.take(ticks.len() as int) =~= ticks);
}

} // verus!
