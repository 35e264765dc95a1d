//! Report scheduler: decides, cycle by cycle, which reports go out and how
//! long to wait before looking again.
//!
//! The scheduler performs no input or output. It is driven by events: the
//! tick that opens a cycle, the outcome of each report, the list the
//! classifier produced. To every event it answers with the next thing to
//! do, and a cycle ends with the answer to sleep.

use vstd::prelude::*;
use crate::activity::{is_active, spec_is_active, ActivityTick};

verus! {

/// Seconds to wait after a cycle in which the user was active.
pub const LONG_INTERVAL_SECS: u64 = 60;

/// Seconds to wait after a cycle in which the user was idle.
pub const SHORT_INTERVAL_SECS: u64 = 10;

/// Seconds to wait after a cycle in which a report could not be delivered.
pub const RECOVERY_INTERVAL_SECS: u64 = 30;

/// The three waits between cycles.
#[derive(Clone, Copy, Debug, PartialEq, Eq, Structural)]
pub enum Interval {
    /// Default cadence, after an active cycle whose reports went through.
    Long,
    /// After an idle cycle, so that the next input is noticed promptly.
    Short,
    /// After a cycle in which a report failed.
    Recovery,
}

impl Interval {
    /// Length of the wait in seconds.
    pub open spec fn spec_secs(self) -> u64 {
        match self {
            Interval::Long => LONG_INTERVAL_SECS,
            Interval::Short => SHORT_INTERVAL_SECS,
            Interval::Recovery => RECOVERY_INTERVAL_SECS,
        }
    }

    /// Length of the wait in seconds.
    #[verifier::when_used_as_spec(spec_secs)]
    pub fn secs(self) -> (s: u64)
        ensures
            s == self.spec_secs(),
    {
        match self {
            Interval::Long => LONG_INTERVAL_SECS,
            Interval::Short => SHORT_INTERVAL_SECS,
            Interval::Recovery => RECOVERY_INTERVAL_SECS,
        }
    }
}

/// How a cycle ended.
#[derive(Clone, Copy, Debug, PartialEq, Eq, Structural)]
pub enum Outcome {
    /// The tick had not changed; nothing was reported.
    Idle,
    /// The tick had changed and every report that was due went through.
    Reported,
    /// The ping could not be delivered; nothing was tried after it.
    PingFailed,
    /// The list update could not be delivered.
    ListUpdateFailed,
}

impl Outcome {
    /// The wait that follows a cycle with this outcome.
    pub open spec fn spec_interval(self) -> Interval {
        match self {
            Outcome::Idle => Interval::Short,
            Outcome::Reported => Interval::Long,
            Outcome::PingFailed => Interval::Recovery,
            Outcome::ListUpdateFailed => Interval::Recovery,
        }
    }

    /// The wait that follows a cycle with this outcome: short after an
    /// idle cycle, long after reports that went through, the recovery wait
    /// after a failure.
    #[verifier::when_used_as_spec(spec_interval)]
    pub fn interval(self) -> (interval: Interval)
        ensures
            interval == self.spec_interval(),
    {
        match self {
            Outcome::Idle => Interval::Short,
            Outcome::Reported => Interval::Long,
            Outcome::PingFailed => Interval::Recovery,
            Outcome::ListUpdateFailed => Interval::Recovery,
        }
    }

    /// Whether a report failed in the cycle.
    pub open spec fn spec_is_failure(self) -> bool {
        self is PingFailed || self is ListUpdateFailed
    }

    /// Whether a report failed in the cycle.
    #[verifier::when_used_as_spec(spec_is_failure)]
    pub fn is_failure(self) -> (failed: bool)
        ensures
            failed == self.spec_is_failure(),
    {
        match self {
            Outcome::PingFailed => true,
            Outcome::ListUpdateFailed => true,
            _ => false,
        }
    }
}

/// What is carried from one cycle to the next.
#[derive(Clone, Copy, Debug, PartialEq, Eq, Structural)]
pub struct ReportState {
    /// The tick read in the most recent cycle.
    pub last_tick: ActivityTick,
    /// Whether the application list that was last sent, or last found not
    /// worth sending, was empty.
    pub last_apps_empty: bool,
}

/// Where in a cycle the scheduler stands.
#[derive(Clone, Copy, Debug, PartialEq, Eq, Structural)]
pub enum Phase {
    /// Between cycles: the next event is a tick.
    Waiting,
    /// A ping is on its way: the next event is its outcome.
    AwaitingPing,
    /// The classifier was asked for the running applications.
    AwaitingApps,
    /// A list update is on its way; `apps_empty` tells whether it is empty.
    AwaitingList { apps_empty: bool },
}

/// What the driver hands to the scheduler.
#[derive(Clone, Debug, PartialEq, Eq)]
pub enum Event {
    /// A new cycle begins with this reading of the input counter.
    Tick(ActivityTick),
    /// The ping was sent; `true` if the backend took it.
    PingDone(bool),
    /// The classifier's list of running applications.
    Apps(Vec<&'static str>),
    /// The list update was sent; `true` if the backend took it.
    ListDone(bool),
}

/// What the scheduler asks the driver to do next.
#[derive(Clone, Debug, PartialEq, Eq)]
pub enum Action {
    /// Send the liveness ping and hand back `Event::PingDone`.
    Ping,
    /// Run the classifier and hand back `Event::Apps`.
    Classify,
    /// Send this application list and hand back `Event::ListDone`.
    ListUpdate(Vec<&'static str>),
    /// The cycle is over with this outcome: sleep for the outcome's
    /// interval, then hand back the next `Event::Tick`.
    Sleep(Outcome),
}

/// The event does not answer what the scheduler last asked for.
#[derive(Clone, Copy, Debug, PartialEq, Eq, Structural)]
pub struct OutOfTurn;

/// An empty list is not worth sending when the last one was empty too.
pub open spec fn spec_should_send_list(apps_empty: bool, last_apps_empty: bool) -> bool {
    !(apps_empty && last_apps_empty)
}

/// Whether a freshly classified list is to be sent: always, except that an
/// empty list is not repeated.
#[verifier::when_used_as_spec(spec_should_send_list)]
pub fn should_send_list(apps_empty: bool, last_apps_empty: bool) -> (send: bool)
    ensures
        send == spec_should_send_list(apps_empty, last_apps_empty),
        apps_empty && last_apps_empty ==> !send,
        !apps_empty ==> send,
        !last_apps_empty ==> send,
{
    !(apps_empty && last_apps_empty)
}

/// The scheduling state machine.
#[derive(Clone, Copy, Debug, PartialEq, Eq, Structural)]
pub struct Scheduler {
    pub state: ReportState,
    pub phase: Phase,
}

impl Scheduler {
    /// The scheduler as it is at startup.
    pub open spec fn initial() -> Scheduler {
        Scheduler {
            state: ReportState { last_tick: 0, last_apps_empty: false },
            phase: Phase::Waiting,
        }
    }

    /// The scheduler after `event`, and its answer.
    ///
    /// A tick opens a cycle. An unchanged tick ends it at once as idle. A
    /// changed tick is recorded and a ping is asked for. A failed report
    /// ends the cycle as failed and leaves the rest of the state as it was.
    /// After the ping the classifier is asked; its list is sent unless it
    /// repeats an empty one; once the list is through, or was not worth
    /// sending, its emptiness is recorded and the cycle ends as reported.
    /// An event that does not answer the last request changes nothing.
    pub open spec fn next(self, event: Event) -> (Scheduler, Result<Action, OutOfTurn>) {
        match (self.phase, event) {
            (Phase::Waiting, Event::Tick(tick)) => {
                if spec_is_active(self.state.last_tick, tick) {
                    (
                        Scheduler {
                            state: ReportState { last_tick: tick, ..self.state },
                            phase: Phase::AwaitingPing,
                        },
                        Ok(Action::Ping),
                    )
                } else {
                    (self, Ok(Action::Sleep(Outcome::Idle)))
                }
            },
            (Phase::AwaitingPing, Event::PingDone(delivered)) => {
                if delivered {
                    (Scheduler { phase: Phase::AwaitingApps, ..self }, Ok(Action::Classify))
                } else {
                    (
                        Scheduler { phase: Phase::Waiting, ..self },
                        Ok(Action::Sleep(Outcome::PingFailed)),
                    )
                }
            },
            (Phase::AwaitingApps, Event::Apps(apps)) => {
                let apps_empty = apps@.len() == 0;
                if spec_should_send_list(apps_empty, self.state.last_apps_empty) {
                    (
                        Scheduler { phase: Phase::AwaitingList { apps_empty }, ..self },
                        Ok(Action::ListUpdate(apps)),
                    )
                } else {
                    (
                        Scheduler {
                            state: ReportState { last_apps_empty: apps_empty, ..self.state },
                            phase: Phase::Waiting,
                        },
                        Ok(Action::Sleep(Outcome::Reported)),
                    )
                }
            },
            (Phase::AwaitingList { apps_empty }, Event::ListDone(delivered)) => {
                if delivered {
                    (
                        Scheduler {
                            state: ReportState { last_apps_empty: apps_empty, ..self.state },
                            phase: Phase::Waiting,
                        },
                        Ok(Action::Sleep(Outcome::Reported)),
                    )
                } else {
                    (
                        Scheduler { phase: Phase::Waiting, ..self },
                        Ok(Action::Sleep(Outcome::ListUpdateFailed)),
                    )
                }
            },
            _ => (self, Err(OutOfTurn)),
        }
    }

    /// Whether `event` answers what the scheduler last asked for.
    pub open spec fn expects(self, event: Event) -> bool {
        match (self.phase, event) {
            (Phase::Waiting, Event::Tick(_)) => true,
            (Phase::AwaitingPing, Event::PingDone(_)) => true,
            (Phase::AwaitingApps, Event::Apps(_)) => true,
            (Phase::AwaitingList { .. }, Event::ListDone(_)) => true,
            _ => false,
        }
    }

    /// The scheduler at startup: no tick seen, no list sent, between cycles.
    pub fn new() -> (scheduler: Scheduler)
        ensures
            scheduler == Scheduler::initial(),
    {
        Scheduler {
            state: ReportState { last_tick: 0, last_apps_empty: false },
            phase: Phase::Waiting,
        }
    }

    /// Takes one event and answers with the next thing to do.
    ///
    /// The answer is `Err(OutOfTurn)` exactly when the event is not the one
    /// the current phase waits for; the scheduler is then unchanged.
    pub fn step(&mut self, event: Event) -> (answer: Result<Action, OutOfTurn>)
        ensures
            (*final(self), answer) == old(self).next(event),
            answer is Ok <==> old(self).expects(event),
    {
        match (self.phase, event) {
            (Phase::Waiting, Event::Tick(tick)) => {
                if is_active(self.state.last_tick, tick) {
                    self.state.last_tick = tick;
                    self.phase = Phase::AwaitingPing;
                    Ok(Action::Ping)
                } else {
                    Ok(Action::Sleep(Outcome::Idle))
                }
            },
            (Phase::AwaitingPing, Event::PingDone(delivered)) => {
                if delivered {
                    self.phase = Phase::AwaitingApps;
                    Ok(Action::Classify)
                } else {
                    self.phase = Phase::Waiting;
                    Ok(Action::Sleep(Outcome::PingFailed))
                }
            },
            (Phase::AwaitingApps, Event::Apps(apps)) => {
                let apps_empty = apps.len() == 0;
                if should_send_list(apps_empty, self.state.last_apps_empty) {
                    self.phase = Phase::AwaitingList { apps_empty };
                    Ok(Action::ListUpdate(apps))
                } else {
                    self.state.last_apps_empty = apps_empty;
                    self.phase = Phase::Waiting;
                    Ok(Action::Sleep(Outcome::Reported))
                }
            },
            (Phase::AwaitingList { apps_empty }, Event::ListDone(delivered)) => {
                if delivered {
                    self.state.last_apps_empty = apps_empty;
                    self.phase = Phase::Waiting;
                    Ok(Action::Sleep(Outcome::Reported))
                } else {
                    self.phase = Phase::Waiting;
                    Ok(Action::Sleep(Outcome::ListUpdateFailed))
                }
            },
            _ => Err(OutOfTurn),
        }
    }
}

/// What the outside world contributes to one cycle: the tick read, and the
/// outcome of each step for the case that the cycle gets that far.
pub struct CycleInput {
    pub tick: ActivityTick,
    pub ping_delivered: bool,
    pub apps: Vec<&'static str>,
    pub list_delivered: bool,
}

impl CycleInput {
    /// The classifier's list is empty.
    pub open spec fn apps_empty(self) -> bool {
        self.apps@.len() == 0
    }
}

impl Scheduler {
    /// One whole cycle as a driver runs it: every answer of the scheduler is
    /// carried out and its outcome, taken from `input`, handed back, until
    /// the scheduler answers with a sleep. Gives the scheduler after the
    /// cycle and the actions it asked for, in order.
    pub open spec fn cycle(self, input: CycleInput) -> (Scheduler, Seq<Action>) {
        let (after_tick, first) = self.next(Event::Tick(input.tick));
        if first != Ok::<Action, OutOfTurn>(Action::Ping) {
            (after_tick, seq![first->Ok_0])
        } else {
            let (after_ping, second) = after_tick.next(Event::PingDone(input.ping_delivered));
            if second != Ok::<Action, OutOfTurn>(Action::Classify) {
                (after_ping, seq![Action::Ping, second->Ok_0])
            } else {
                let (after_apps, third) = after_ping.next(Event::Apps(input.apps));
                if third != Ok::<Action, OutOfTurn>(Action::ListUpdate(input.apps)) {
                    (after_apps, seq![Action::Ping, Action::Classify, third->Ok_0])
                } else {
                    let (after_list, fourth) = after_apps.next(
                        Event::ListDone(input.list_delivered),
                    );
                    (
                        after_list,
                        seq![
                            Action::Ping,
                            Action::Classify,
                            Action::ListUpdate(input.apps),
                            fourth->Ok_0,
                        ],
                    )
                }
            }
        }
    }

    /// The cycle sends a list update: the tick changed, the ping went
    /// through, and the list does not repeat an empty one.
    pub open spec fn sends_list(self, input: CycleInput) -> bool {
        &&& spec_is_active(self.state.last_tick, input.tick)
        &&& input.ping_delivered
        &&& spec_should_send_list(input.apps_empty(), self.state.last_apps_empty)
    }

    /// Some report of the cycle fails: the ping, or the list update if one
    /// is sent.
    pub open spec fn report_fails(self, input: CycleInput) -> bool {
        &&& spec_is_active(self.state.last_tick, input.tick)
        &&& (!input.ping_delivered || (self.sends_list(input) && !input.list_delivered))
    }

    /// The cycle ends by a sleep and with the scheduler again between
    /// cycles; no action before the last is a sleep. The tick read is
    /// recorded whatever happened to the reports.
    pub proof fn law_cycle_shape(self, input: CycleInput)
        requires
            self.phase is Waiting,
        ensures
            ({
                let (after, actions) = self.cycle(input);
                &&& 1 <= actions.len() <= 4
                &&& actions.last() is Sleep
                &&& forall|i: int| 0 <= i < actions.len() - 1 ==> !(actions[i] is Sleep)
                &&& after.phase is Waiting
                &&& after.state.last_tick == input.tick
            }),
    {
    }

    /// Cadence: an idle cycle is followed by the short wait, an active
    /// cycle whose reports all went through by the long wait, and a cycle
    /// with a failed report by the recovery wait, whatever the tick. The
    /// outcome names the report that failed: the ping, or else the list
    /// update.
    pub proof fn law_cadence(self, input: CycleInput)
        requires
            self.phase is Waiting,
        ensures
            ({
                let (after, actions) = self.cycle(input);
                let active = spec_is_active(self.state.last_tick, input.tick);
                &&& actions.last() matches Action::Sleep(outcome)
                &&& !active ==> outcome == Outcome::Idle && outcome.spec_interval()
                    == Interval::Short
                &&& active && !self.report_fails(input) ==> outcome == Outcome::Reported
                    && outcome.spec_interval() == Interval::Long
                &&& self.report_fails(input) ==> outcome.spec_is_failure()
                    && outcome.spec_interval() == Interval::Recovery
                &&& outcome is PingFailed <==> active && !input.ping_delivered
                &&& outcome is ListUpdateFailed <==> self.sends_list(input)
                    && !input.list_delivered
            }),
    {
    }

    /// An idle cycle makes no report and changes nothing.
    pub proof fn law_idle_cycle(self, input: CycleInput)
        requires
            self.phase is Waiting,
            !spec_is_active(self.state.last_tick, input.tick),
        ensures
            self.cycle(input) == (self, seq![Action::Sleep(Outcome::Idle)]),
    {
    }

    /// Ordering: the ping is the first action of every active cycle. A list
    /// update comes only later in the cycle, and only after the ping went
    /// through; if the ping fails, nothing but the sleep follows it.
    pub proof fn law_ping_before_list(self, input: CycleInput)
        requires
            self.phase is Waiting,
        ensures
            ({
                let (after, actions) = self.cycle(input);
                let active = spec_is_active(self.state.last_tick, input.tick);
                &&& active <==> actions[0] == Action::Ping
                &&& forall|i: int|
                    0 <= i < actions.len() && #[trigger] actions[i] is ListUpdate ==> {
                        &&& i > 0
                        &&& actions[0] == Action::Ping
                        &&& input.ping_delivered
                    }
                &&& active && !input.ping_delivered ==> actions == seq![
                    Action::Ping,
                    Action::Sleep(Outcome::PingFailed),
                ]
            }),
    {
    }

    /// Suppression of repeated empty lists: in an active cycle whose ping
    /// went through, the list is sent exactly when it is not empty or the
    /// last one was not; and a list that is sent is the classifier's,
    /// unchanged.
    pub proof fn law_dedup(self, input: CycleInput)
        requires
            self.phase is Waiting,
            spec_is_active(self.state.last_tick, input.tick),
            input.ping_delivered,
        ensures
            ({
                let (after, actions) = self.cycle(input);
                let sent = exists|i: int| 0 <= i < actions.len() && #[trigger] actions[i] is ListUpdate;
                &&& self.state.last_apps_empty && input.apps_empty() ==> !sent
                &&& self.state.last_apps_empty && !input.apps_empty() ==> sent
                &&& !self.state.last_apps_empty && input.apps_empty() ==> sent
                &&& sent <==> self.sends_list(input)
                &&& sent ==> actions[2] == Action::ListUpdate(input.apps)
                &&& forall|i: int|
                    0 <= i < actions.len() && #[trigger] actions[i] is ListUpdate ==> actions[i]
                        == Action::ListUpdate(input.apps)
            }),
    {
        let (after, actions) = self.cycle(input);
        if self.sends_list(input) {
            assert(actions[2] is ListUpdate);
        }
    }

    /// The remembered emptiness follows what was transmitted: it takes the
    /// new list's emptiness when that list was delivered, or was an empty
    /// list following an empty one, and otherwise stays as it was.
    pub proof fn law_last_apps_empty(self, input: CycleInput)
        requires
            self.phase is Waiting,
        ensures
            ({
                let (after, actions) = self.cycle(input);
                let active = spec_is_active(self.state.last_tick, input.tick);
                let settled = active && input.ping_delivered && (!self.sends_list(input)
                    || input.list_delivered);
                &&& settled ==> after.state.last_apps_empty == input.apps_empty()
                &&& !settled ==> after.state.last_apps_empty == self.state.last_apps_empty
            }),
    {
    }
}

impl Scheduler {
    /// The scheduler after a run of whole cycles, one per input.
    pub open spec fn run(self, inputs: Seq<CycleInput>) -> Scheduler
        decreases inputs.len(),
    {
        if inputs.len() == 0 {
            self
        } else {
            self.run(inputs.drop_last()).cycle(inputs.last()).0
        }
    }

    /// Whether the list most recently delivered during a run of cycles was
    /// empty; `None` if the run delivered no list.
    pub open spec fn last_delivered_empty(self, inputs: Seq<CycleInput>) -> Option<bool>
        decreases inputs.len(),
    {
        if inputs.len() == 0 {
            None
        } else {
            let before = self.run(inputs.drop_last());
            let input = inputs.last();
            if before.sends_list(input) && input.list_delivered {
                Some(input.apps_empty())
            } else {
                self.last_delivered_empty(inputs.drop_last())
            }
        }
    }

    /// The remembered emptiness never drifts from what was sent: after any
    /// run of cycles it is the emptiness of the list most recently
    /// delivered, and what it was before the run if none was delivered.
    pub proof fn law_last_apps_empty_tracks_delivery(self, inputs: Seq<CycleInput>)
        requires
            self.phase is Waiting,
        ensures
            self.run(inputs).phase is Waiting,
            self.run(inputs).state.last_apps_empty == match self.last_delivered_empty(inputs) {
                Some(empty) => empty,
                None => self.state.last_apps_empty,
            },
        decreases inputs.len(),
    {
        if inputs.len() > 0 {
            let before = self.run(inputs.drop_last());
            self.law_last_apps_empty_tracks_delivery(inputs.drop_last());
            before.law_cycle_shape(inputs.last());
            before.law_last_apps_empty(inputs.last());
        }
    }

    /// Over any run of cycles the activity signal compares each tick with
    /// the one read just before it, whatever became of the reports in
    /// between: the last cycle of the run is active exactly when its tick
    /// differs from that of the cycle before.
    pub proof fn law_activity_compares_consecutive_ticks(self, inputs: Seq<CycleInput>)
        requires
            self.phase is Waiting,
            inputs.len() >= 2,
        ensures
            ({
                let before = self.run(inputs.drop_last());
                let tick = inputs[inputs.len() - 1].tick;
                let previous = inputs[inputs.len() - 2].tick;
                &&& before.state.last_tick == previous
                &&& spec_is_active(before.state.last_tick, tick) <==> tick != previous
                &&& before.cycle(inputs.last()).1[0] == Action::Ping <==> tick != previous
            }),
    {
        let earlier = inputs.drop_last();
        self.law_last_apps_empty_tracks_delivery(earlier.drop_last());
        self.run(earlier.drop_last()).law_cycle_shape(earlier.last());
        self.law_last_apps_empty_tracks_delivery(earlier);
        self.run(earlier).law_ping_before_list(inputs.last());
    }
}

} // verus!
