//! The state machines of a worker: the loop that takes tasks until the
//! frontier stays empty, and the stages that one task passes through.

use vstd::prelude::*;

verus! {

/// The number of workers of a run.
pub const WORKER_COUNT: usize = 4;

/// The wait of an idle worker before it looks at the frontier again, in
/// milliseconds.
pub const PROBE_INTERVAL_MS: u64 = 100;

/// Where a worker stands in its loop.
#[derive(Clone, Copy, Debug, PartialEq, Eq, Structural)]
pub enum WorkerState {
    /// About to take a task from the frontier.
    FetchingTask,
    /// Holding a task.
    Processing,
    /// Found the frontier empty; about to wait and look again.
    IdleProbe,
    /// Left the loop for good.
    Exited,
}

/// What a worker has just seen.
#[derive(Clone, Copy, Debug, PartialEq, Eq, Structural)]
pub enum WorkerEvent {
    /// The frontier was asked for a task, and gave one or not.
    Popped { found: bool },
    /// The task in hand was processed to its end, or discarded.
    Finished,
    /// After the wait the frontier was looked at, and was empty or not.
    Probed { empty: bool },
}

/// What a worker does next.
#[derive(Clone, Copy, Debug, PartialEq, Eq, Structural)]
pub enum WorkerAction {
    /// Ask the frontier for a task.
    Pop,
    /// Process the task in hand.
    Process,
    /// Wait for the probe interval, then look at the frontier.
    Probe,
    /// Leave the loop.
    Stop,
}

/// The stage that a task in hand has reached.
#[derive(Clone, Copy, Debug, PartialEq, Eq, Structural)]
pub enum TaskStage {
    /// Its URL is to be claimed.
    Claim,
    /// Its page is to be fetched.
    Fetch,
    /// The fetched page is to be stored.
    Store,
    /// The links of the stored page are to be enqueued.
    Expand,
    /// Nothing is left to do for it.
    Done,
}

/// The state that follows `state` on `event`. An event that does not belong
/// to the state leaves it as it is.
pub open spec fn next_state(state: WorkerState, event: WorkerEvent) -> WorkerState {
    match (state, event) {
        (WorkerState::FetchingTask, WorkerEvent::Popped { found }) => if found {
            WorkerState::Processing
        } else {
            WorkerState::IdleProbe
        },
        (WorkerState::Processing, WorkerEvent::Finished) => WorkerState::FetchingTask,
        (WorkerState::IdleProbe, WorkerEvent::Probed { empty }) => if empty {
            WorkerState::Exited
        } else {
            WorkerState::FetchingTask
        },
        _ => state,
    }
}

/// What a worker does in `state`.
pub open spec fn action_in(state: WorkerState) -> WorkerAction {
    match state {
        WorkerState::FetchingTask => WorkerAction::Pop,
        WorkerState::Processing => WorkerAction::Process,
        WorkerState::IdleProbe => WorkerAction::Probe,
        WorkerState::Exited => WorkerAction::Stop,
    }
}

/// The stage that follows `stage` for a task at `depth`, given whether the
/// work of `stage` succeeded. A failure ends the task; a stored page is
/// expanded only above the depth limit.
pub open spec fn stage_after(stage: TaskStage, succeeded: bool, depth: nat, max_depth: nat) -> TaskStage {
    match stage {
        TaskStage::Claim => if succeeded {
            TaskStage::Fetch
        } else {
            TaskStage::Done
        },
        TaskStage::Fetch => if succeeded {
            TaskStage::Store
        } else {
            TaskStage::Done
        },
        TaskStage::Store => if succeeded && depth < max_depth {
            TaskStage::Expand
        } else {
            TaskStage::Done
        },
        TaskStage::Expand => TaskStage::Done,
        TaskStage::Done => TaskStage::Done,
    }
}

/// What a worker sees in `state` once the frontier is empty and stays so.
pub open spec fn quiescent_event(state: WorkerState) -> WorkerEvent {
    match state {
        WorkerState::FetchingTask => WorkerEvent::Popped { found: false },
        WorkerState::Processing => WorkerEvent::Finished,
        WorkerState::IdleProbe => WorkerEvent::Probed { empty: true },
        WorkerState::Exited => WorkerEvent::Finished,
    }
}

/// The state of a worker after one event in a quiescent run.
pub open spec fn quiescent_step(state: WorkerState) -> WorkerState {
    next_state(state, quiescent_event(state))
}

/// The state that follows `state` on `event`, and what the worker does there.
pub fn step(state: WorkerState, event: WorkerEvent) -> (next: (WorkerState, WorkerAction))
    ensures
        next.0 == next_state(state, event),
        next.1 == action_in(next.0),
{
    let to = match state {
        WorkerState::FetchingTask => match event {
            WorkerEvent::Popped { found } => if found {
                WorkerState::Processing
            } else {
                WorkerState::IdleProbe
            },
            _ => state,
        },
        WorkerState::Processing => match event {
            WorkerEvent::Finished => WorkerState::FetchingTask,
            _ => state,
        },
        WorkerState::IdleProbe => match event {
            WorkerEvent::Probed { empty } => if empty {
                WorkerState::Exited
            } else {
                WorkerState::FetchingTask
            },
            _ => state,
        },
        WorkerState::Exited => state,
    };
    let action = match to {
        WorkerState::FetchingTask => WorkerAction::Pop,
        WorkerState::Processing => WorkerAction::Process,
        WorkerState::IdleProbe => WorkerAction::Probe,
        WorkerState::Exited => WorkerAction::Stop,
    };
    (to, action)
}

/// The stage that follows `stage` for a task at `depth`.
pub fn advance(stage: TaskStage, succeeded: bool, depth: usize, max_depth: usize) -> (next: TaskStage)
    ensures
        next == stage_after(stage, succeeded, depth as nat, max_depth as nat),
{
    match stage {
        TaskStage::Claim => if succeeded {
            TaskStage::Fetch
        } else {
            TaskStage::Done
        },
        TaskStage::Fetch => if succeeded {
            TaskStage::Store
        } else {
            TaskStage::Done
        },
        TaskStage::Store => if succeeded && depth < max_depth {
            TaskStage::Expand
        } else {
            TaskStage::Done
        },
        TaskStage::Expand => TaskStage::Done,
        TaskStage::Done => TaskStage::Done,
    }
}

/// A worker that has left the loop stays out of it, whatever it sees.
pub proof fn lemma_exited_is_final(event: WorkerEvent)
    ensures
        next_state(WorkerState::Exited, event) == WorkerState::Exited,
{
}

/// Once the frontier is empty and stays so, a worker leaves the loop within
/// three events, whatever state it is in: it ends the task in hand, finds the
/// frontier empty, and finds it empty again after one wait.
pub proof fn lemma_quiescent_worker_exits(state: WorkerState)
    ensures
        quiescent_step(quiescent_step(quiescent_step(state))) == WorkerState::Exited,
{
}

/// A task passes through at most four stages before nothing is left to do
/// for it, whatever succeeds or fails on the way.
pub proof fn lemma_task_ends(
    stage: TaskStage,
    outcomes: (bool, bool, bool, bool),
    depth: nat,
    max_depth: nat,
)
    ensures
        stage_after(
            stage_after(
                stage_after(
                    stage_after(stage, outcomes.0, depth, max_depth),
                    outcomes.1,
                    depth,
                    max_depth,
                ),
                outcomes.2,
                depth,
                max_depth,
            ),
            outcomes.3,
            depth,
            max_depth,
        ) == TaskStage::Done,
{
}

} // verus!
