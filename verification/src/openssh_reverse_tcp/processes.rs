//! Waiting for `ssh` processes: time limits, cleaning up, and the start of a control
//! master.

use crate::failure::Failure;
use crate::openssh_reverse_tcp::commands::{
    live_master_pid, live_pid, master_arguments, master_check, master_check_model, spawn_master,
    Argument, ArgumentModel, SshCommand, SshCommandModel,
};
use crate::openssh_reverse_tcp::configuration::{ProviderModel, ProviderPublication};
use crate::openssh_reverse_tcp::control_path::SshReply;
use crate::openssh_reverse_tcp::runtime::{
    is_private_socket, validate_control_socket, Entry, EntryReply,
};
use crate::paths::copy_bytes;
use crate::step::Next;
use vstd::prelude::*;

verus! {

/// How long a control master may take to start, in nanoseconds.
pub const MASTER_START_TIMEOUT: u64 = 30_000_000_000;

/// How long to wait between two looks at a starting control master, in nanoseconds.
pub const MASTER_START_POLL_INTERVAL: u64 = 10_000_000;

/// How long to wait between two looks at a running command, in nanoseconds.
pub const SSH_COMMAND_POLL_INTERVAL: u64 = 10_000_000;

/// What became of starting a process.
#[derive(Clone, Copy, PartialEq, Eq, Structural, Debug)]
pub enum SpawnReply {
    ExecutableMissing,
    Failed,
    Started(u32),
}

/// What looking whether a process has exited found.
#[derive(Clone, Copy, PartialEq, Eq, Structural, Debug)]
pub enum WaitReply {
    Exited,
    Running,
    Unknown,
}

/// What is known while a process is being ended.
#[derive(Clone, Copy, PartialEq, Eq, Structural, Debug)]
pub struct CleanupFacts {
    /// Whether the process had exited already.
    pub waited: Option<WaitReply>,
    /// Whether it could be killed.
    pub killed: Option<bool>,
    /// Whether its exit could be awaited.
    pub reaped: Option<bool>,
    /// Whether it had exited when it could not be killed.
    pub waited_again: Option<WaitReply>,
}

impl CleanupFacts {
    /// Nothing is known.
    pub open spec fn unknown() -> CleanupFacts {
        CleanupFacts { waited: None, killed: None, reaped: None, waited_again: None }
    }

    /// Nothing is known yet.
    pub fn new() -> (facts: CleanupFacts)
        ensures
            facts == Self::unknown(),
    {
        CleanupFacts { waited: None, killed: None, reaped: None, waited_again: None }
    }
}

/// What to do to end a process.
#[derive(Clone, Copy, PartialEq, Eq, Structural, Debug)]
pub enum CleanupAction {
    TryWait,
    Kill,
    Wait,
    TryWaitAgain,
}

/// What to do next to end a process, or whether it is known to be gone.
pub type CleanupStep = Next<CleanupAction, bool>;

/// What to do next to end a process.
pub open spec fn cleanup_step(facts: CleanupFacts) -> CleanupStep {
    match (facts.waited, facts.killed) {
        (None, _) => Next::Act(CleanupAction::TryWait),
        (Some(WaitReply::Exited), _) => Next::Done(true),
        (Some(_), None) => Next::Act(CleanupAction::Kill),
        (Some(_), Some(true)) => match facts.reaped {
            None => Next::Act(CleanupAction::Wait),
            Some(reaped) => Next::Done(reaped),
        },
        (Some(_), Some(false)) => match facts.waited_again {
            None => Next::Act(CleanupAction::TryWaitAgain),
            Some(reply) => Next::Done(reply == WaitReply::Exited),
        },
    }
}

/// Decides what to do next to end a process and to know that it is gone.
pub fn cleanup_process(facts: &CleanupFacts) -> (next: CleanupStep)
    ensures
        next == cleanup_step(*facts),
{
    match (facts.waited, facts.killed) {
        (None, _) => Next::Act(CleanupAction::TryWait),
        (Some(WaitReply::Exited), _) => Next::Done(true),
        (Some(_), None) => Next::Act(CleanupAction::Kill),
        (Some(_), Some(true)) => match facts.reaped {
            None => Next::Act(CleanupAction::Wait),
            Some(reaped) => Next::Done(reaped),
        },
        (Some(_), Some(false)) => match facts.waited_again {
            None => Next::Act(CleanupAction::TryWaitAgain),
            Some(reply) => Next::Done(reply == WaitReply::Exited),
        },
    }
}

/// A process is held to be gone only when its exit was seen or awaited.
pub proof fn cleaned_up_means_gone(facts: CleanupFacts)
    requires
        cleanup_step(facts) == CleanupStep::Done(true),
    ensures
        facts.waited == Some(WaitReply::Exited) || facts.waited_again == Some(WaitReply::Exited)
            || (facts.killed == Some(true) && facts.reaped == Some(true)),
{
}

/// What is known in one round of waiting for a command.
#[derive(Clone, Copy, PartialEq, Eq, Structural, Debug)]
pub struct RunFacts {
    /// What became of starting the command.
    pub spawned: Option<SpawnReply>,
    /// Whether it has exited, in this round.
    pub waited: Option<WaitReply>,
    /// The time since it was started, in this round, in nanoseconds.
    pub elapsed: Option<u64>,
    /// What is known of ending it.
    pub cleanup: CleanupFacts,
}

impl RunFacts {
    /// Nothing is known.
    pub open spec fn unknown() -> RunFacts {
        RunFacts { spawned: None, waited: None, elapsed: None, cleanup: CleanupFacts::unknown() }
    }

    /// Nothing is known yet.
    pub fn new() -> (facts: RunFacts)
        ensures
            facts == Self::unknown(),
    {
        RunFacts { spawned: None, waited: None, elapsed: None, cleanup: CleanupFacts::new() }
    }

    /// Begins a new round of waiting: what the last one found is out of date.
    pub fn begin_round(&mut self)
        ensures
            final(self).spawned == old(self).spawned,
            final(self).waited is None,
            final(self).elapsed is None,
            final(self).cleanup == old(self).cleanup,
    {
        self.waited = None;
        self.elapsed = None;
    }
}

/// How waiting for a command ended.
#[derive(Clone, Copy, PartialEq, Eq, Structural, Debug)]
pub enum RunResult {
    /// The command could not be found.
    ExecutableMissing,
    /// It did not run to its end.
    Failed,
    /// It has exited, and its status and output are there to be collected.
    Exited,
}

/// What to do while a command runs.
#[derive(Clone, Copy, PartialEq, Eq, Structural, Debug)]
pub enum RunAction {
    /// Start the command.
    Spawn,
    /// Look whether it has exited.
    TryWait,
    /// Read the time since it was started.
    ReadClock,
    /// Sleep this long, then begin a new round.
    Sleep(u64),
    /// Do this to end it.
    Cleanup(CleanupAction),
}

/// What to do next while a command runs.
pub type RunStep = Next<RunAction, RunResult>;

/// The lesser of two durations.
pub open spec fn lesser(left: u64, right: u64) -> u64 {
    if left <= right {
        left
    } else {
        right
    }
}

/// What to do next to give a command up.
pub open spec fn give_up_step(facts: CleanupFacts) -> RunStep {
    match cleanup_step(facts) {
        Next::Act(action) => Next::Act(RunAction::Cleanup(action)),
        Next::Done(_) => Next::Done(RunResult::Failed),
    }
}

/// What to do next while a command runs with a time limit.
pub open spec fn run_step(facts: RunFacts, timeout: u64) -> RunStep {
    match facts.spawned {
        None => Next::Act(RunAction::Spawn),
        Some(SpawnReply::ExecutableMissing) => Next::Done(RunResult::ExecutableMissing),
        Some(SpawnReply::Failed) => Next::Done(RunResult::Failed),
        Some(SpawnReply::Started(_)) => match facts.waited {
            None => Next::Act(RunAction::TryWait),
            Some(WaitReply::Exited) => Next::Done(RunResult::Exited),
            Some(WaitReply::Unknown) => give_up_step(facts.cleanup),
            Some(WaitReply::Running) => match facts.elapsed {
                None => Next::Act(RunAction::ReadClock),
                Some(elapsed) => if elapsed >= timeout {
                    give_up_step(facts.cleanup)
                } else {
                    Next::Act(
                        RunAction::Sleep(
                            lesser(SSH_COMMAND_POLL_INTERVAL, (timeout - elapsed) as u64),
                        ),
                    )
                },
            },
        },
    }
}

/// Decides what to do next to give a command up.
pub fn cleanup_timed_out_ssh_command(facts: &CleanupFacts) -> (next: RunStep)
    ensures
        next == give_up_step(*facts),
{
    match cleanup_process(facts) {
        Next::Act(action) => Next::Act(RunAction::Cleanup(action)),
        Next::Done(_) => Next::Done(RunResult::Failed),
    }
}

/// Decides what to do next while a command runs with a time limit.
pub fn run_ssh(facts: &RunFacts, timeout: u64) -> (next: RunStep)
    ensures
        next == run_step(*facts, timeout),
{
    match facts.spawned {
        None => Next::Act(RunAction::Spawn),
        Some(SpawnReply::ExecutableMissing) => Next::Done(RunResult::ExecutableMissing),
        Some(SpawnReply::Failed) => Next::Done(RunResult::Failed),
        Some(SpawnReply::Started(_)) => match facts.waited {
            None => Next::Act(RunAction::TryWait),
            Some(WaitReply::Exited) => Next::Done(RunResult::Exited),
            Some(WaitReply::Unknown) => cleanup_timed_out_ssh_command(&facts.cleanup),
            Some(WaitReply::Running) => match facts.elapsed {
                None => Next::Act(RunAction::ReadClock),
                Some(elapsed) => {
                    let remaining: u64 = timeout.saturating_sub(elapsed);
                    if remaining == 0 {
                        cleanup_timed_out_ssh_command(&facts.cleanup)
                    } else if SSH_COMMAND_POLL_INTERVAL <= remaining {
                        Next::Act(RunAction::Sleep(SSH_COMMAND_POLL_INTERVAL))
                    } else {
                        Next::Act(RunAction::Sleep(remaining))
                    }
                },
            },
        },
    }
}

/// A command is never slept on beyond its time limit, and once the limit has passed it
/// is ended.
pub proof fn time_limit_is_kept(facts: RunFacts, timeout: u64, elapsed: u64)
    requires
        facts.spawned matches Some(SpawnReply::Started(_)),
        facts.waited == Some(WaitReply::Running),
        facts.elapsed == Some(elapsed),
    ensures
        match run_step(facts, timeout) {
            Next::Act(RunAction::Sleep(duration)) => elapsed < timeout && 0 < duration && elapsed
                + duration <= timeout && duration <= SSH_COMMAND_POLL_INTERVAL,
            Next::Act(RunAction::Cleanup(_)) => elapsed >= timeout,
            Next::Done(result) => elapsed >= timeout && result == RunResult::Failed
                && cleanup_step(facts.cleanup) is Done,
            _ => false,
        },
{
}

/// What is known while a control master starts. The fields from `elapsed` to `waited`
/// are those of the current round.
pub struct MasterFacts {
    /// What became of starting the process.
    pub spawned: Option<SpawnReply>,
    /// The time since it was started, in nanoseconds.
    pub elapsed: Option<u64>,
    /// What was found at the control path.
    pub entry: Option<EntryReply>,
    /// What became of checking the control master.
    pub check: Option<SshReply>,
    /// Whether the process has exited.
    pub waited: Option<WaitReply>,
    /// What is known of ending it.
    pub cleanup: CleanupFacts,
}

impl MasterFacts {
    /// Nothing is known.
    pub open spec fn unknown() -> MasterFacts {
        MasterFacts {
            spawned: None,
            elapsed: None,
            entry: None,
            check: None,
            waited: None,
            cleanup: CleanupFacts::unknown(),
        }
    }

    /// Nothing is known yet.
    pub fn new() -> (facts: MasterFacts)
        ensures
            facts == Self::unknown(),
    {
        MasterFacts {
            spawned: None,
            elapsed: None,
            entry: None,
            check: None,
            waited: None,
            cleanup: CleanupFacts::new(),
        }
    }

    /// Begins a new round of waiting: what the last one found is out of date.
    pub fn begin_round(&mut self)
        ensures
            final(self).spawned == old(self).spawned,
            final(self).elapsed is None,
            final(self).entry is None,
            final(self).check is None,
            final(self).waited is None,
            final(self).cleanup == old(self).cleanup,
    {
        self.elapsed = None;
        self.entry = None;
        self.check = None;
        self.waited = None;
    }
}

/// What to do while a control master starts.
pub enum MasterAction {
    /// Start the process with these arguments.
    Spawn(Vec<Argument>),
    /// Read the time since it was started.
    ReadClock,
    /// Look at this control path.
    InspectSocket(Vec<u8>),
    /// Run this command to check the control master.
    CheckMaster(SshCommand),
    /// Look whether the process has exited.
    TryWait,
    /// Sleep this long, then begin a new round.
    Sleep(u64),
    /// Do this to end the process.
    Cleanup(CleanupAction),
}

/// The mathematical model of an action.
pub enum MasterActionModel {
    Spawn(Seq<ArgumentModel>),
    ReadClock,
    InspectSocket(Seq<u8>),
    CheckMaster(SshCommandModel),
    TryWait,
    Sleep(u64),
    Cleanup(CleanupAction),
}

impl View for MasterAction {
    type V = MasterActionModel;

    open spec fn view(&self) -> MasterActionModel {
        match self {
            MasterAction::Spawn(arguments) => MasterActionModel::Spawn(arguments.deep_view()),
            MasterAction::ReadClock => MasterActionModel::ReadClock,
            MasterAction::InspectSocket(path) => MasterActionModel::InspectSocket(path@),
            MasterAction::CheckMaster(command) => MasterActionModel::CheckMaster(command@),
            MasterAction::TryWait => MasterActionModel::TryWait,
            MasterAction::Sleep(duration) => MasterActionModel::Sleep(*duration),
            MasterAction::Cleanup(action) => MasterActionModel::Cleanup(*action),
        }
    }
}

/// The mathematical model of what to do next.
pub type MasterStep = Next<MasterActionModel, Result<(), Failure>>;

/// The mathematical model of what is decided next.
pub open spec fn master_model(next: Next<MasterAction, Result<(), Failure>>) -> MasterStep {
    match next {
        Next::Act(action) => Next::Act(action@),
        Next::Done(result) => Next::Done(result),
    }
}

/// What to do next to end the process, and then to stop with `result`. When it cannot be
/// ended, that is the failure.
pub open spec fn end_step(facts: CleanupFacts, result: Result<(), Failure>) -> MasterStep {
    match cleanup_step(facts) {
        Next::Act(action) => Next::Act(MasterActionModel::Cleanup(action)),
        Next::Done(true) => Next::Done(result),
        Next::Done(false) => Next::Done(Err(Failure::MasterNotCleanedUp)),
    }
}

/// What to do next once something was found at the control path.
pub open spec fn found_step(
    facts: MasterFacts,
    pid: u32,
    entry: Entry,
    control_path: Seq<u8>,
    publication: ProviderModel,
    uid: u32,
) -> MasterStep {
    if !is_private_socket(entry, uid) {
        end_step(facts.cleanup, Err(Failure::ControlSocketUnsafe))
    } else {
        match facts.check {
            None => Next::Act(
                MasterActionModel::CheckMaster(master_check_model(control_path, publication)),
            ),
            Some(reply) => match live_pid(reply, Failure::MasterNotEstablished) {
                Err(failure) => end_step(facts.cleanup, Err(failure)),
                Ok(live) => if live == pid {
                    Next::Done(Ok(()))
                } else {
                    end_step(facts.cleanup, Ok(()))
                },
            },
        }
    }
}

/// What to do next once the time since the start was read.
pub open spec fn waiting_step(
    facts: MasterFacts,
    pid: u32,
    elapsed: u64,
    control_path: Seq<u8>,
    publication: ProviderModel,
    uid: u32,
) -> MasterStep {
    if elapsed >= MASTER_START_TIMEOUT {
        end_step(facts.cleanup, Err(Failure::MasterNotEstablished))
    } else {
        match facts.entry {
            None => Next::Act(MasterActionModel::InspectSocket(control_path)),
            Some(EntryReply::Present(entry)) => found_step(
                facts,
                pid,
                entry,
                control_path,
                publication,
                uid,
            ),
            Some(EntryReply::Unreadable) => end_step(
                facts.cleanup,
                Err(Failure::ControlSocketUnsafe),
            ),
            Some(EntryReply::Missing) => match facts.waited {
                None => Next::Act(MasterActionModel::TryWait),
                Some(WaitReply::Exited) => Next::Done(Err(Failure::MasterNotEstablished)),
                Some(WaitReply::Running) => Next::Act(
                    MasterActionModel::Sleep(
                        lesser(
                            MASTER_START_POLL_INTERVAL,
                            (MASTER_START_TIMEOUT - elapsed) as u64,
                        ),
                    ),
                ),
                Some(WaitReply::Unknown) => end_step(
                    facts.cleanup,
                    Err(Failure::MasterNotEstablished),
                ),
            },
        }
    }
}

/// What to do next while a control master starts at a control path.
pub open spec fn master_step(
    facts: MasterFacts,
    control_path: Seq<u8>,
    publication: ProviderModel,
    uid: u32,
) -> MasterStep {
    match facts.spawned {
        None => Next::Act(MasterActionModel::Spawn(master_arguments(control_path, publication))),
        Some(SpawnReply::ExecutableMissing) => Next::Done(Err(Failure::SshMissing)),
        Some(SpawnReply::Failed) => Next::Done(Err(Failure::MasterNotEstablished)),
        Some(SpawnReply::Started(pid)) => match facts.elapsed {
            None => Next::Act(MasterActionModel::ReadClock),
            Some(elapsed) => waiting_step(facts, pid, elapsed, control_path, publication, uid),
        },
    }
}

/// Decides what to do next to end a control master that was started, and then to stop
/// with `result`.
pub fn cleanup_spawned_master(facts: &CleanupFacts, result: Result<(), Failure>) -> (next: Next<
    MasterAction,
    Result<(), Failure>,
>)
    ensures
        master_model(next) == end_step(*facts, result),
{
    match cleanup_process(facts) {
        Next::Act(action) => Next::Act(MasterAction::Cleanup(action)),
        Next::Done(true) => Next::Done(result),
        Next::Done(false) => Next::Done(Err(Failure::MasterNotCleanedUp)),
    }
}

/// Decides what to do next to end a control master that was started, and then to fail.
pub fn fail_after_master_cleanup(facts: &CleanupFacts, failure: Failure) -> (next: Next<
    MasterAction,
    Result<(), Failure>,
>)
    ensures
        master_model(next) == end_step(*facts, Err(failure)),
{
    cleanup_spawned_master(facts, Err(failure))
}

/// Decides what to do next to start a control master at a control path, or to make do
/// with one that came up there in the meantime.
pub fn create_or_reuse_master(
    facts: &MasterFacts,
    control_path: &Vec<u8>,
    publication: &ProviderPublication,
    current_uid: u32,
) -> (next: Next<MasterAction, Result<(), Failure>>)
    ensures
        master_model(next) == master_step(
            *facts,
            control_path@,
            publication.deep_view(),
            current_uid,
        ),
{
    let spawned_pid: u32 = match facts.spawned {
        None => {
            return Next::Act(MasterAction::Spawn(spawn_master(control_path, publication)));
        },
        Some(SpawnReply::ExecutableMissing) => {
            return Next::Done(Err(Failure::SshMissing));
        },
        Some(SpawnReply::Failed) => {
            return Next::Done(Err(Failure::MasterNotEstablished));
        },
        Some(SpawnReply::Started(pid)) => pid,
    };
    let remaining: u64 = match facts.elapsed {
        None => {
            return Next::Act(MasterAction::ReadClock);
        },
        Some(elapsed) => MASTER_START_TIMEOUT.saturating_sub(elapsed),
    };
    if remaining == 0 {
        return fail_after_master_cleanup(&facts.cleanup, Failure::MasterNotEstablished);
    }
    match &facts.entry {
        None => {
            return Next::Act(MasterAction::InspectSocket(copy_bytes(control_path)));
        },
        Some(EntryReply::Present(entry)) => {
            if let Err(failure) = validate_control_socket(entry, current_uid) {
                return fail_after_master_cleanup(&facts.cleanup, failure);
            }
            return match &facts.check {
                None => Next::Act(
                    MasterAction::CheckMaster(master_check(control_path, publication)),
                ),
                Some(reply) => match live_master_pid(reply, Failure::MasterNotEstablished) {
                    Err(failure) => fail_after_master_cleanup(&facts.cleanup, failure),
                    Ok(live_pid) => if live_pid == spawned_pid {
                        Next::Done(Ok(()))
                    } else {
                        cleanup_spawned_master(&facts.cleanup, Ok(()))
                    },
                },
            };
        },
        Some(EntryReply::Missing) => {},
        Some(EntryReply::Unreadable) => {
            return fail_after_master_cleanup(&facts.cleanup, Failure::ControlSocketUnsafe);
        },
    }
    match facts.waited {
        None => Next::Act(MasterAction::TryWait),
        Some(WaitReply::Exited) => Next::Done(Err(Failure::MasterNotEstablished)),
        Some(WaitReply::Running) => if MASTER_START_POLL_INTERVAL <= remaining {
            Next::Act(MasterAction::Sleep(MASTER_START_POLL_INTERVAL))
        } else {
            Next::Act(MasterAction::Sleep(remaining))
        },
        Some(WaitReply::Unknown) => fail_after_master_cleanup(
            &facts.cleanup,
            Failure::MasterNotEstablished,
        ),
    }
}

/// A control master is held to be established only when a private socket is there and
/// a live master answers through it. If that is not the process that was started, the
/// process is gone.
pub proof fn established_means_live(
    facts: MasterFacts,
    control_path: Seq<u8>,
    publication: ProviderModel,
    uid: u32,
)
    requires
        master_step(facts, control_path, publication, uid) matches Next::Done(Ok(_)),
    ensures
        facts.entry matches Some(EntryReply::Present(entry)) && is_private_socket(entry, uid),
        ({
            &&& facts.check matches Some(reply)
            &&& live_pid(reply, Failure::MasterNotEstablished) matches Ok(live)
            &&& facts.spawned == Some(SpawnReply::Started(live)) || cleanup_step(facts.cleanup)
                == CleanupStep::Done(true)
        }),
{
}

/// When a control master was started and then given up, it had exited or was ended, unless
/// the failure is that it could not be. That is reported only after ending it was tried to
/// the end.
pub proof fn given_up_masters_are_ended(
    facts: MasterFacts,
    control_path: Seq<u8>,
    publication: ProviderModel,
    uid: u32,
    pid: u32,
    failure: Failure,
)
    requires
        facts.spawned == Some(SpawnReply::Started(pid)),
        master_step(facts, control_path, publication, uid) == MasterStep::Done(Err(failure)),
    ensures
        failure != Failure::MasterNotCleanedUp ==> facts.waited == Some(WaitReply::Exited)
            || cleanup_step(facts.cleanup) == CleanupStep::Done(true),
        failure == Failure::MasterNotCleanedUp ==> cleanup_step(facts.cleanup)
            == CleanupStep::Done(false),
{
}

/// A starting control master is never slept on beyond its time limit.
pub proof fn start_limit_is_kept(
    facts: MasterFacts,
    control_path: Seq<u8>,
    publication: ProviderModel,
    uid: u32,
    duration: u64,
)
    requires
        master_step(facts, control_path, publication, uid) == MasterStep::Act(
            MasterActionModel::Sleep(duration),
        ),
    ensures
        facts.elapsed matches Some(elapsed) && elapsed + duration <= MASTER_START_TIMEOUT,
        0 < duration <= MASTER_START_POLL_INTERVAL,
        facts.entry == Some(EntryReply::Missing),
        facts.waited == Some(WaitReply::Running),
{
}

/// A control master may take thirty seconds to come up, and what is waited for is looked at
/// every ten milliseconds.
pub proof fn waiting_is_bounded()
    ensures
        MASTER_START_TIMEOUT == 30_000_000_000,
        MASTER_START_POLL_INTERVAL == 10_000_000,
        SSH_COMMAND_POLL_INTERVAL == 10_000_000,
{
}

/// A process that has not exited is killed and then awaited, and one that cannot be killed is
/// looked at once more. It is known to be gone exactly when it was found exited or was
/// awaited.
pub proof fn processes_are_ended_step_by_step(facts: CleanupFacts)
    ensures
        facts.waited is None ==> cleanup_step(facts) == CleanupStep::Act(CleanupAction::TryWait),
        facts.waited == Some(WaitReply::Exited) ==> cleanup_step(facts) == CleanupStep::Done(true),
        facts.waited is Some && facts.waited != Some(WaitReply::Exited) ==> {
            &&& facts.killed is None ==> cleanup_step(facts) == CleanupStep::Act(
                CleanupAction::Kill,
            )
            &&& facts.killed == Some(true) ==> cleanup_step(facts) == match facts.reaped {
                None => CleanupStep::Act(CleanupAction::Wait),
                Some(reaped) => CleanupStep::Done(reaped),
            }
            &&& facts.killed == Some(false) ==> cleanup_step(facts) == match facts.waited_again {
                None => CleanupStep::Act(CleanupAction::TryWaitAgain),
                Some(WaitReply::Exited) => CleanupStep::Done(true),
                Some(_) => CleanupStep::Done(false),
            }
        },
{
}

/// A command is started once, and its output is collected exactly when it has exited. While
/// it runs within its time it is slept on, at most until the time is up; beyond that, or when
/// it cannot be watched, it is ended and has failed.
pub proof fn commands_are_run_to_their_end(facts: RunFacts, timeout: u64, elapsed: u64, pid: u32)
    ensures
        facts.spawned is None ==> run_step(facts, timeout) == RunStep::Act(RunAction::Spawn),
        facts.spawned == Some(SpawnReply::ExecutableMissing) ==> run_step(facts, timeout)
            == RunStep::Done(RunResult::ExecutableMissing),
        facts.spawned == Some(SpawnReply::Failed) ==> run_step(facts, timeout) == RunStep::Done(
            RunResult::Failed,
        ),
        facts.spawned == Some(SpawnReply::Started(pid)) ==> {
            &&& facts.waited is None ==> run_step(facts, timeout) == RunStep::Act(
                RunAction::TryWait,
            )
            &&& facts.waited == Some(WaitReply::Running) && facts.elapsed is None ==> run_step(
                facts,
                timeout,
            ) == RunStep::Act(RunAction::ReadClock)
            &&& facts.waited == Some(WaitReply::Running) && facts.elapsed == Some(elapsed) && elapsed
                < timeout ==> run_step(facts, timeout) == RunStep::Act(
                RunAction::Sleep(
                    if timeout - elapsed < 10_000_000 {
                        (timeout - elapsed) as u64
                    } else {
                        10_000_000
                    },
                ),
            )
            &&& facts.waited == Some(WaitReply::Unknown) || (facts.waited == Some(
                WaitReply::Running,
            ) && facts.elapsed == Some(elapsed) && elapsed >= timeout) ==> match run_step(
                facts,
                timeout,
            ) {
                Next::Act(action) => action matches RunAction::Cleanup(cleanup) && cleanup_step(
                    facts.cleanup,
                ) == CleanupStep::Act(cleanup),
                Next::Done(result) => result == RunResult::Failed && cleanup_step(
                    facts.cleanup,
                ) is Done,
            }
        },
        run_step(facts, timeout) == RunStep::Done(RunResult::Exited) <==> (
        facts.spawned matches Some(SpawnReply::Started(_))) && facts.waited == Some(
            WaitReply::Exited,
        ),
{
}

/// A process that could not be started is a failure of its own. While a control master comes
/// up, the clock is read first, then its socket is looked at, then the process itself, and
/// only a live process is slept on.
pub proof fn masters_are_awaited_in_order(
    facts: MasterFacts,
    path: Seq<u8>,
    publication: ProviderModel,
    uid: u32,
    pid: u32,
    elapsed: u64,
)
    ensures
        facts.spawned is None ==> master_step(facts, path, publication, uid) matches Next::Act(
            MasterActionModel::Spawn(_),
        ),
        facts.spawned == Some(SpawnReply::ExecutableMissing) ==> master_step(
            facts,
            path,
            publication,
            uid,
        ) == MasterStep::Done(Err(Failure::SshMissing)),
        facts.spawned == Some(SpawnReply::Failed) ==> master_step(facts, path, publication, uid)
            == MasterStep::Done(Err(Failure::MasterNotEstablished)),
        facts.spawned == Some(SpawnReply::Started(pid)) && facts.elapsed is None ==> master_step(
            facts,
            path,
            publication,
            uid,
        ) == MasterStep::Act(MasterActionModel::ReadClock),
        facts.spawned == Some(SpawnReply::Started(pid)) && facts.elapsed == Some(elapsed) && elapsed
            < 30_000_000_000 ==> {
            &&& facts.entry is None ==> master_step(facts, path, publication, uid)
                == MasterStep::Act(MasterActionModel::InspectSocket(path))
            &&& facts.entry == Some(EntryReply::Missing) && facts.waited is None ==> master_step(
                facts,
                path,
                publication,
                uid,
            ) == MasterStep::Act(MasterActionModel::TryWait)
            &&& facts.entry == Some(EntryReply::Missing) && facts.waited == Some(WaitReply::Exited)
                ==> master_step(facts, path, publication, uid) == MasterStep::Done(
                Err(Failure::MasterNotEstablished),
            )
            &&& facts.entry == Some(EntryReply::Missing) && facts.waited == Some(WaitReply::Running)
                ==> master_step(facts, path, publication, uid) == MasterStep::Act(
                MasterActionModel::Sleep(
                    if 30_000_000_000 - elapsed < 10_000_000 {
                        (30_000_000_000 - elapsed) as u64
                    } else {
                        10_000_000
                    },
                ),
            )
        },
{
}

/// A control master that answers is taken, and when it is not the process that was started
/// that one is ended. One that is not private, or does not answer, or has used up its time is
/// given up: the process is ended and then the failure is reported, unless ending it fails.
pub proof fn masters_are_judged_by_their_socket(
    facts: MasterFacts,
    path: Seq<u8>,
    publication: ProviderModel,
    uid: u32,
    pid: u32,
    elapsed: u64,
    entry: Entry,
    reply: SshReply,
)
    requires
        facts.spawned == Some(SpawnReply::Started(pid)),
        facts.elapsed == Some(elapsed),
    ensures
        elapsed >= 30_000_000_000 ==> gives_up(
            master_step(facts, path, publication, uid),
            facts.cleanup,
            Err(Failure::MasterNotEstablished),
        ),
        elapsed < 30_000_000_000 && facts.entry == Some(EntryReply::Unreadable) ==> gives_up(
            master_step(facts, path, publication, uid),
            facts.cleanup,
            Err(Failure::ControlSocketUnsafe),
        ),
        elapsed < 30_000_000_000 && facts.entry == Some(EntryReply::Missing) && facts.waited
            == Some(WaitReply::Unknown) ==> gives_up(
            master_step(facts, path, publication, uid),
            facts.cleanup,
            Err(Failure::MasterNotEstablished),
        ),
        elapsed < 30_000_000_000 && facts.entry == Some(EntryReply::Present(entry)) ==> {
            &&& !is_private_socket(entry, uid) ==> gives_up(
                master_step(facts, path, publication, uid),
                facts.cleanup,
                Err(Failure::ControlSocketUnsafe),
            )
            &&& is_private_socket(entry, uid) && facts.check is None ==> master_step(
                facts,
                path,
                publication,
                uid,
            ) == MasterStep::Act(
                MasterActionModel::CheckMaster(master_check_model(path, publication)),
            )
            &&& is_private_socket(entry, uid) && facts.check == Some(reply) ==> match live_pid(
                reply,
                Failure::MasterNotEstablished,
            ) {
                Err(failure) => gives_up(
                    master_step(facts, path, publication, uid),
                    facts.cleanup,
                    Err(failure),
                ),
                Ok(live) => if live == pid {
                    master_step(facts, path, publication, uid) matches Next::Done(Ok(_))
                } else {
                    gives_up(
                        master_step(facts, path, publication, uid),
                        facts.cleanup,
                        Ok(()),
                    )
                },
            }
        },
{
}

/// Whether a step ends the process, and then comes to a result, or to a failure when the
/// process could not be ended.
pub open spec fn gives_up(
    step: MasterStep,
    facts: CleanupFacts,
    result: Result<(), Failure>,
) -> bool {
    match cleanup_step(facts) {
        Next::Act(cleanup) => step == MasterStep::Act(MasterActionModel::Cleanup(cleanup)),
        Next::Done(gone) => if gone {
            step == MasterStep::Done(result)
        } else {
            step == MasterStep::Done(Err(Failure::MasterNotCleanedUp))
        },
    }
}

/// The model of what is decided is what is asked for, with its arguments, or the result.
pub proof fn masters_are_shown_as_they_are(
    arguments: Vec<Argument>,
    path: Vec<u8>,
    command: SshCommand,
    duration: u64,
    cleanup: CleanupAction,
    action: MasterAction,
    result: Result<(), Failure>,
)
    ensures
        MasterAction::Spawn(arguments)@ == MasterActionModel::Spawn(arguments.deep_view()),
        MasterAction::ReadClock@ == MasterActionModel::ReadClock,
        MasterAction::InspectSocket(path)@ == MasterActionModel::InspectSocket(path@),
        MasterAction::CheckMaster(command)@ == MasterActionModel::CheckMaster(command@),
        MasterAction::TryWait@ == MasterActionModel::TryWait,
        MasterAction::Sleep(duration)@ == MasterActionModel::Sleep(duration),
        MasterAction::Cleanup(cleanup)@ == MasterActionModel::Cleanup(cleanup),
        master_model(Next::Act(action)) == MasterStep::Act(action@),
        master_model(Next::Done(result)) == MasterStep::Done(result),
{
}

/// A control master is started with the arguments for its own path and publication.
pub proof fn masters_are_started_for_their_publication(
    facts: MasterFacts,
    path: Seq<u8>,
    publication: ProviderModel,
    uid: u32,
)
    ensures
        match master_step(facts, path, publication, uid) {
            Next::Act(MasterActionModel::Spawn(arguments)) => arguments == master_arguments(
                path,
                publication,
            ),
            Next::Act(MasterActionModel::InspectSocket(socket)) => socket == path,
            Next::Act(MasterActionModel::CheckMaster(command)) => command == master_check_model(
                path,
                publication,
            ),
            _ => true,
        },
{
}

} // verus!
