//! The launch protocol of one stage: which process to spawn or wait on next,
//! and what the stage amounts to once every process has been reaped.
//!
//! The caller performs each [`RunnerAction`] and reports what happened as a
//! [`RunnerEvent`]. For a piped stage the producer is spawned first, then the
//! consumer bound to the producer's output; the consumer is waited on first,
//! and the producer only after the consumer has been spawned or has failed
//! to, so that the producer never blocks on a pipe that nobody drains.
//!
//! Where the caller limits the time of a stage, a wait that runs past the
//! limit is reported as such; the process is then killed and reaped, and a
//! stage whose deciding process had to be killed has timed out.

use vstd::prelude::*;
use crate::command::StagePlan;
use crate::command::Invocation;

verus! {

/// The outcome of one stage.
#[derive(Clone, Copy, Debug, PartialEq, Eq, Structural)]
pub enum StageResult {
    /// The deciding process exited with status zero.
    Success,
    /// The deciding process exited with a non-zero status.
    Failed,
    /// A process could not be launched or observed.
    LaunchFailure,
    /// The deciding process ran past its time and was killed.
    TimedOut,
}

/// The part a process plays in a stage.
#[derive(Clone, Copy, Debug, PartialEq, Eq, Structural)]
pub enum Role {
    /// The only process of a single-process stage.
    Sole,
    /// The process whose standard output is captured.
    Producer,
    /// The process that reads the producer's output; its exit status decides.
    Consumer,
}

/// What the caller is to do next.
#[derive(Clone, Copy, Debug, PartialEq, Eq, Structural)]
pub enum RunnerAction {
    /// Launch the process that plays this role.
    Spawn(Role),
    /// Wait for the process that plays this role to exit, and release it.
    /// Where the run has a time limit, the wait is given up when the limit
    /// has passed, and the process is kept.
    Wait(Role),
    /// Terminate the process that plays this role by force.
    Kill(Role),
    /// Wait, for as long as it takes, for the killed process that plays
    /// this role to exit, and release it.
    Reap(Role),
    /// Nothing more: the stage has ended with this result.
    Finish(StageResult),
}

/// What came of the action last asked for.
#[derive(Clone, Copy, Debug, PartialEq, Eq, Structural)]
pub enum RunnerEvent {
    /// The process was launched.
    Spawned,
    /// The process could not be launched.
    SpawnFailed,
    /// The process exited, with status zero or not.
    Exited { success: bool },
    /// The exit of the process could not be observed.
    WaitFailed,
    /// The process did not exit within the time allowed; it still runs.
    TimedOut,
    /// The process was told to terminate.
    Killed,
}

/// Where the launch protocol stands.
#[derive(Clone, Copy, Debug, PartialEq, Eq, Structural)]
pub enum RunnerPhase {
    /// The sole process is being launched.
    SpawningSole,
    /// The sole process runs.
    WaitingSole,
    /// The producer is being launched.
    SpawningProducer,
    /// The producer runs; the consumer is being launched.
    SpawningConsumer,
    /// Both run; the consumer is waited on.
    WaitingConsumer,
    /// The stage is decided; the producer is still to be reaped.
    ReapingProducer(StageResult),
    /// A process has run past its time and is being terminated; the stage
    /// is decided.
    Killing(Role, StageResult),
    /// A terminated process is still to be reaped; the stage is decided.
    Burying(Role, StageResult),
    /// Every process has been reaped.
    Done(StageResult),
}

/// The action that a phase asks of the caller.
pub open spec fn pending(phase: RunnerPhase) -> RunnerAction {
    match phase {
        RunnerPhase::SpawningSole => RunnerAction::Spawn(Role::Sole),
        RunnerPhase::WaitingSole => RunnerAction::Wait(Role::Sole),
        RunnerPhase::SpawningProducer => RunnerAction::Spawn(Role::Producer),
        RunnerPhase::SpawningConsumer => RunnerAction::Spawn(Role::Consumer),
        RunnerPhase::WaitingConsumer => RunnerAction::Wait(Role::Consumer),
        RunnerPhase::ReapingProducer(_) => RunnerAction::Wait(Role::Producer),
        RunnerPhase::Killing(role, _) => RunnerAction::Kill(role),
        RunnerPhase::Burying(role, _) => RunnerAction::Reap(role),
        RunnerPhase::Done(result) => RunnerAction::Finish(result),
    }
}

/// What an exit report amounts to: anything but an observed exit counts as a
/// failure to run the tool.
pub open spec fn verdict(event: RunnerEvent) -> StageResult {
    match event {
        RunnerEvent::Exited { success } => if success {
            StageResult::Success
        } else {
            StageResult::Failed
        },
        _ => StageResult::LaunchFailure,
    }
}

/// The phase that follows `phase` once `event` is reported. A launch counts
/// as done only when `Spawned` is reported. A process that runs past its
/// time is terminated and reaped; where it is the one that decides, the
/// stage has timed out.
pub open spec fn next_phase(phase: RunnerPhase, event: RunnerEvent) -> RunnerPhase {
    match phase {
        RunnerPhase::SpawningSole => if event is Spawned {
            RunnerPhase::WaitingSole
        } else {
            RunnerPhase::Done(StageResult::LaunchFailure)
        },
        RunnerPhase::WaitingSole => if event is TimedOut {
            RunnerPhase::Killing(Role::Sole, StageResult::TimedOut)
        } else {
            RunnerPhase::Done(verdict(event))
        },
        RunnerPhase::SpawningProducer => if event is Spawned {
            RunnerPhase::SpawningConsumer
        } else {
            RunnerPhase::Done(StageResult::LaunchFailure)
        },
        RunnerPhase::SpawningConsumer => if event is Spawned {
            RunnerPhase::WaitingConsumer
        } else {
            RunnerPhase::ReapingProducer(StageResult::LaunchFailure)
        },
        RunnerPhase::WaitingConsumer => if event is TimedOut {
            RunnerPhase::Killing(Role::Consumer, StageResult::TimedOut)
        } else {
            RunnerPhase::ReapingProducer(verdict(event))
        },
        RunnerPhase::ReapingProducer(result) => if event is TimedOut {
            RunnerPhase::Killing(Role::Producer, result)
        } else {
            RunnerPhase::Done(result)
        },
        RunnerPhase::Killing(role, result) => RunnerPhase::Burying(role, result),
        RunnerPhase::Burying(role, result) => if role == Role::Consumer {
            RunnerPhase::ReapingProducer(result)
        } else {
            RunnerPhase::Done(result)
        },
        RunnerPhase::Done(result) => RunnerPhase::Done(result),
    }
}

/// The phase a plan starts in.
pub open spec fn first_phase(piped: bool) -> RunnerPhase {
    if piped {
        RunnerPhase::SpawningProducer
    } else {
        RunnerPhase::SpawningSole
    }
}

/// The phase reached from `phase` after `events`, in order.
pub open spec fn phase_after(phase: RunnerPhase, events: Seq<RunnerEvent>) -> RunnerPhase
    decreases events.len(),
{
    if events.len() == 0 {
        phase
    } else {
        next_phase(phase_after(phase, events.drop_last()), events.last())
    }
}

/// The processes that the caller holds after performing `action` with the
/// outcome `event`, having held `held` before: a launch that succeeded adds
/// its process; a wait that is not given up releases its process, whatever
/// it reports; a kill changes nothing; and the wait that follows a kill
/// releases its process.
pub open spec fn held_after(held: Set<Role>, action: RunnerAction, event: RunnerEvent) -> Set<
    Role,
> {
    match action {
        RunnerAction::Spawn(role) => if event is Spawned {
            held.insert(role)
        } else {
            held
        },
        RunnerAction::Wait(role) => if event is TimedOut {
            held
        } else {
            held.remove(role)
        },
        RunnerAction::Kill(_) => held,
        RunnerAction::Reap(role) => held.remove(role),
        RunnerAction::Finish(_) => held,
    }
}

/// The processes held after `events`, starting with none.
pub open spec fn held_through(first: RunnerPhase, events: Seq<RunnerEvent>) -> Set<Role>
    decreases events.len(),
{
    if events.len() == 0 {
        Set::empty()
    } else {
        held_after(
            held_through(first, events.drop_last()),
            pending(phase_after(first, events.drop_last())),
            events.last(),
        )
    }
}

/// The processes that are running while `role` is dealt with.
pub open spec fn running_with(role: Role) -> Set<Role> {
    match role {
        Role::Sole => set![Role::Sole],
        Role::Producer => set![Role::Producer],
        Role::Consumer => set![Role::Producer, Role::Consumer],
    }
}

/// The processes that are running in a phase.
pub open spec fn running(phase: RunnerPhase) -> Set<Role> {
    match phase {
        RunnerPhase::WaitingSole => set![Role::Sole],
        RunnerPhase::SpawningConsumer => set![Role::Producer],
        RunnerPhase::WaitingConsumer => set![Role::Producer, Role::Consumer],
        RunnerPhase::ReapingProducer(_) => set![Role::Producer],
        RunnerPhase::Killing(role, _) => running_with(role),
        RunnerPhase::Burying(role, _) => running_with(role),
        _ => Set::empty(),
    }
}

/// How many reports a phase is away from the end, at most.
pub open spec fn steps_left(phase: RunnerPhase) -> nat {
    match phase {
        RunnerPhase::SpawningSole => 4,
        RunnerPhase::WaitingSole => 3,
        RunnerPhase::SpawningProducer => 8,
        RunnerPhase::SpawningConsumer => 7,
        RunnerPhase::WaitingConsumer => 6,
        RunnerPhase::ReapingProducer(_) => 3,
        RunnerPhase::Killing(role, _) => if role == Role::Consumer {
            5
        } else {
            2
        },
        RunnerPhase::Burying(role, _) => if role == Role::Consumer {
            4
        } else {
            1
        },
        RunnerPhase::Done(_) => 0,
    }
}

/// Whatever is reported, and in whatever order: the processes the caller
/// holds are exactly those the phase counts as running; a process is waited
/// on or killed only while held and launched only while not held; and once
/// the stage has ended, nothing is held.
pub proof fn law_every_process_is_reaped(piped: bool, events: Seq<RunnerEvent>)
    ensures
        ({
            let phase = phase_after(first_phase(piped), events);
            let held = held_through(first_phase(piped), events);
            &&& held == running(phase)
            &&& pending(phase) matches RunnerAction::Wait(role) ==> held.contains(role)
            &&& pending(phase) matches RunnerAction::Kill(role) ==> held.contains(role)
            &&& pending(phase) matches RunnerAction::Reap(role) ==> held.contains(role)
            &&& pending(phase) matches RunnerAction::Spawn(role) ==> !held.contains(role)
            &&& phase is Done ==> held == Set::<Role>::empty()
            &&& piped ==> !held.contains(Role::Sole)
            &&& !piped ==> !held.contains(Role::Producer) && !held.contains(Role::Consumer)
        }),
    decreases events.len(),
{
    let first = first_phase(piped);
    if events.len() > 0 {
        law_every_process_is_reaped(piped, events.drop_last());
        let after = phase_after(first, events);
        assert(held_through(first, events) =~= running(after));
    }
}

/// The producer is waited on only once the consumer is out of the way: the
/// report just before was that the consumer could not be launched, that
/// the wait for it has ended, or that it was reaped after a kill.
pub proof fn law_producer_is_reaped_last(phase: RunnerPhase, event: RunnerEvent)
    ensures
        next_phase(phase, event) is ReapingProducer ==> (phase is SpawningConsumer && !(event
            is Spawned)) || (phase is WaitingConsumer && !(event is TimedOut)) || phase
            == RunnerPhase::Burying(Role::Consumer, next_phase(phase, event)->ReapingProducer_0),
        pending(next_phase(phase, event)) == RunnerAction::Spawn(Role::Consumer) ==> phase
            is SpawningProducer && event is Spawned,
{
}

/// Every report brings the stage closer to its end, which comes after eight
/// reports at most.
pub proof fn law_stage_ends(phase: RunnerPhase, event: RunnerEvent)
    ensures
        steps_left(phase) <= 8,
        !(phase is Done) ==> steps_left(next_phase(phase, event)) < steps_left(phase),
        phase is Done <==> steps_left(phase) == 0,
{
}

/// Unfolds `phase_after` for one more report.
proof fn lemma_one_more(phase: RunnerPhase, events: Seq<RunnerEvent>, event: RunnerEvent)
    ensures
        phase_after(phase, events.push(event)) == next_phase(phase_after(phase, events), event),
{
    assert(events.push(event).drop_last() =~= events);
}

/// Without a process that runs past its time: the result of a piped stage
/// is the verdict on its consumer, unless a process could not be launched;
/// the result of a single-process stage is the verdict on its process,
/// unless that could not be launched.
pub proof fn law_result_is_the_deciding_exit(
    piped: bool,
    launch: RunnerEvent,
    second: RunnerEvent,
    third: RunnerEvent,
    fourth: RunnerEvent,
)
    ensures
        !piped && !(second is TimedOut) ==> phase_after(
            first_phase(piped),
            seq![launch, second],
        ) == RunnerPhase::Done(
            if launch is Spawned {
                verdict(second)
            } else {
                StageResult::LaunchFailure
            },
        ),
        piped && !(third is TimedOut) && !(fourth is TimedOut) ==> phase_after(
            first_phase(piped),
            seq![launch, second, third, fourth],
        ) == RunnerPhase::Done(
            if !(launch is Spawned) || !(second is Spawned) {
                StageResult::LaunchFailure
            } else {
                verdict(third)
            },
        ),
{
    let first = first_phase(piped);
    let none = Seq::<RunnerEvent>::empty();
    lemma_one_more(first, none, launch);
    lemma_one_more(first, none.push(launch), second);
    lemma_one_more(first, none.push(launch).push(second), third);
    lemma_one_more(first, none.push(launch).push(second).push(third), fourth);
    assert(seq![launch, second] =~= none.push(launch).push(second));
    assert(seq![launch, second, third, fourth] =~= none.push(launch).push(second).push(
        third,
    ).push(fourth));
}

/// A deciding process that runs past its time is killed, then reaped, and
/// the stage ends as timed out, in a pipe once the producer has been reaped
/// as well.
pub proof fn law_timeout_ends_the_stage(
    killed: RunnerEvent,
    buried: RunnerEvent,
    reaped: RunnerEvent,
)
    ensures
        pending(next_phase(RunnerPhase::WaitingSole, RunnerEvent::TimedOut)) == RunnerAction::Kill(
            Role::Sole,
        ),
        phase_after(RunnerPhase::WaitingSole, seq![RunnerEvent::TimedOut, killed, buried])
            == RunnerPhase::Done(StageResult::TimedOut),
        pending(next_phase(RunnerPhase::WaitingConsumer, RunnerEvent::TimedOut))
            == RunnerAction::Kill(Role::Consumer),
        phase_after(RunnerPhase::WaitingConsumer, seq![RunnerEvent::TimedOut, killed, buried])
            == RunnerPhase::ReapingProducer(StageResult::TimedOut),
        !(reaped is TimedOut) ==> phase_after(
            RunnerPhase::WaitingConsumer,
            seq![RunnerEvent::TimedOut, killed, buried, reaped],
        ) == RunnerPhase::Done(StageResult::TimedOut),
{
    let none = Seq::<RunnerEvent>::empty();
    let late = RunnerEvent::TimedOut;
    let sole = RunnerPhase::WaitingSole;
    let pipe = RunnerPhase::WaitingConsumer;
    lemma_one_more(sole, none, late);
    lemma_one_more(sole, none.push(late), killed);
    lemma_one_more(sole, none.push(late).push(killed), buried);
    lemma_one_more(pipe, none, late);
    lemma_one_more(pipe, none.push(late), killed);
    lemma_one_more(pipe, none.push(late).push(killed), buried);
    lemma_one_more(pipe, none.push(late).push(killed).push(buried), reaped);
    assert(seq![late, killed, buried] =~= none.push(late).push(killed).push(buried));
    assert(seq![late, killed, buried, reaped] =~= none.push(late).push(killed).push(buried).push(
        reaped,
    ));
}

/// The launch protocol of one stage.
#[derive(Clone, Copy, Debug, PartialEq, Eq)]
pub struct StageRunner {
    /// Where the protocol stands.
    pub phase: RunnerPhase,
}

impl StageRunner {
    /// Starts the protocol for `plan`.
    pub fn start(plan: &StagePlan) -> (runner: StageRunner)
        ensures
            runner.phase == first_phase(plan is Piped),
    {
        match plan {
            StagePlan::Single(_) => StageRunner { phase: RunnerPhase::SpawningSole },
            StagePlan::Piped { .. } => StageRunner { phase: RunnerPhase::SpawningProducer },
        }
    }

    /// What the caller is to do now.
    pub fn action(&self) -> (action: RunnerAction)
        ensures
            action == pending(self.phase),
    {
        match self.phase {
            RunnerPhase::SpawningSole => RunnerAction::Spawn(Role::Sole),
            RunnerPhase::WaitingSole => RunnerAction::Wait(Role::Sole),
            RunnerPhase::SpawningProducer => RunnerAction::Spawn(Role::Producer),
            RunnerPhase::SpawningConsumer => RunnerAction::Spawn(Role::Consumer),
            RunnerPhase::WaitingConsumer => RunnerAction::Wait(Role::Consumer),
            RunnerPhase::ReapingProducer(_) => RunnerAction::Wait(Role::Producer),
            RunnerPhase::Killing(role, _) => RunnerAction::Kill(role),
            RunnerPhase::Burying(role, _) => RunnerAction::Reap(role),
            RunnerPhase::Done(result) => RunnerAction::Finish(result),
        }
    }

    /// Takes the report on the action last asked for, and says what to do next.
    pub fn step(&mut self, event: RunnerEvent) -> (action: RunnerAction)
        ensures
            final(self).phase == next_phase(old(self).phase, event),
            action == pending(final(self).phase),
    {
        let spawned = match event {
            RunnerEvent::Spawned => true,
            _ => false,
        };
        let late = match event {
            RunnerEvent::TimedOut => true,
            _ => false,
        };
        let outcome = match event {
            RunnerEvent::Exited { success } => if success {
                StageResult::Success
            } else {
                StageResult::Failed
            },
            _ => StageResult::LaunchFailure,
        };
        let next = match self.phase {
            RunnerPhase::SpawningSole => if spawned {
                RunnerPhase::WaitingSole
            } else {
                RunnerPhase::Done(StageResult::LaunchFailure)
            },
            RunnerPhase::WaitingSole => if late {
                RunnerPhase::Killing(Role::Sole, StageResult::TimedOut)
            } else {
                RunnerPhase::Done(outcome)
            },
            RunnerPhase::SpawningProducer => if spawned {
                RunnerPhase::SpawningConsumer
            } else {
                RunnerPhase::Done(StageResult::LaunchFailure)
            },
            RunnerPhase::SpawningConsumer => if spawned {
                RunnerPhase::WaitingConsumer
            } else {
                RunnerPhase::ReapingProducer(StageResult::LaunchFailure)
            },
            RunnerPhase::WaitingConsumer => if late {
                RunnerPhase::Killing(Role::Consumer, StageResult::TimedOut)
            } else {
                RunnerPhase::ReapingProducer(outcome)
            },
            RunnerPhase::ReapingProducer(result) => if late {
                RunnerPhase::Killing(Role::Producer, result)
            } else {
                RunnerPhase::Done(result)
            },
            RunnerPhase::Killing(role, result) => RunnerPhase::Burying(role, result),
            RunnerPhase::Burying(role, result) => match role {
                Role::Consumer => RunnerPhase::ReapingProducer(result),
                _ => RunnerPhase::Done(result),
            },
            RunnerPhase::Done(result) => RunnerPhase::Done(result),
        };
        self.phase = next;
        self.action()
    }
}

impl StagePlan {
    /// The invocation that plays `role` in this plan, if the plan has that role.
    pub fn invocation(&self, role: Role) -> (r: Option<&Invocation>)
        ensures
            match (*self, role) {
                (StagePlan::Single(only), Role::Sole) => r == Some(&only),
                (StagePlan::Piped { producer, consumer }, Role::Producer) => r == Some(&producer),
                (StagePlan::Piped { producer, consumer }, Role::Consumer) => r == Some(&consumer),
                _ => r is None,
            },
    {
        match self {
            StagePlan::Single(only) => match role {
                Role::Sole => Some(only),
                _ => None,
            },
            StagePlan::Piped { producer, consumer } => match role {
                Role::Producer => Some(producer),
                Role::Consumer => Some(consumer),
                Role::Sole => None,
            },
        }
    }
}

} // verus!
