//! Assembling a flow from its configured tasks, and following its stages to
//! completion or failure.

use vstd::prelude::*;

verus! {

#[derive(Clone, Copy, Debug, PartialEq, Eq, Structural)]
pub enum SourceKind {
    File,
    SalesforcePubsub,
    GcpStorage,
    NatsJetstream,
    Generate,
}

#[derive(Clone, Copy, Debug, PartialEq, Eq, Structural)]
pub enum ProcessorKind {
    Http,
}

#[derive(Clone, Copy, Debug, PartialEq, Eq, Structural)]
pub enum TargetKind {
    NatsJetstream,
    Deltalake,
    SalesforcePubsub,
    ObjectStore,
}

/// A configured stage: its role in the flow and the backend it runs against.
#[derive(Clone, Copy, Debug, PartialEq, Eq, Structural)]
pub enum TaskKind {
    Source(SourceKind),
    Processor(ProcessorKind),
    Target(TargetKind),
}

/// A stage ready to be started: its id is its position in the configured list.
#[derive(Clone, Copy, Debug, PartialEq, Eq, Structural)]
pub struct StagePlan {
    pub task_id: usize,
    pub kind: TaskKind,
}

impl StagePlan {
    /// Whether the stage reads the bus; only sources do not.
    pub fn consumes(&self) -> (r: bool)
        ensures
            r == !(self.kind is Source),
    {
        match self.kind {
            TaskKind::Source(_) => false,
            _ => true,
        }
    }
}

/// Gives each configured task, in order, the id that is its position.
pub fn assemble(tasks: &Vec<TaskKind>) -> (r: Vec<StagePlan>)
    ensures
        r@.len() == tasks@.len(),
        forall|i: int|
            0 <= i < tasks@.len() ==> #[trigger] r@[i] == (StagePlan {
                task_id: i as usize,
                kind: tasks@[i],
            }),
{
    let mut r: Vec<StagePlan> = Vec::new();
    let mut i: usize = 0;
    while i < tasks.len()
        invariant
            i <= tasks@.len(),
            r@.len() == i,
            forall|k: int|
                0 <= k < i ==> #[trigger] r@[k] == (StagePlan {
                    task_id: k as usize,
                    kind: tasks@[k],
                }),
        decreases tasks@.len() - i,
    {
        r.push(StagePlan { task_id: i, kind: tasks[i] });
        i = i + 1;
    }
    r
}

/// The first stage that failed: its id, its kind, and its error.
#[derive(Clone, Debug, PartialEq, Eq)]
pub struct StageFailure {
    pub task_id: usize,
    pub kind: TaskKind,
    pub error: String,
}

/// Where a running flow stands.
#[derive(Clone, Debug, PartialEq, Eq)]
pub enum FlowStatus {
    Running,
    Completed,
    Failed(StageFailure),
}

/// Options a task may register for coordination between workers.
#[derive(Clone, Copy, Debug, PartialEq, Eq, Structural)]
pub struct LeaderElectionOptions {}

/// The completions seen so far of a flow's stages, which all run at once.
#[derive(Clone, Debug)]
pub struct FlowRun {
    pub kinds: Vec<TaskKind>,
    pub finished: Vec<bool>,
    pub first_failure: Option<StageFailure>,
}

pub open spec fn status_of(finished: Seq<bool>, first_failure: Option<StageFailure>) -> FlowStatus {
    match first_failure {
        Some(f) => FlowStatus::Failed(f),
        None => if forall|i: int| 0 <= i < finished.len() ==> #[trigger] finished[i] {
            FlowStatus::Completed
        } else {
            FlowStatus::Running
        },
    }
}

impl FlowRun {
    /// Every stage has started and none has finished.
    pub fn start(stages: &Vec<StagePlan>) -> (r: FlowRun)
        ensures
            r.finished@.len() == stages@.len(),
            r.kinds@.len() == stages@.len(),
            forall|i: int|
                0 <= i < stages@.len() ==> !#[trigger] r.finished@[i] && r.kinds@[i]
                    == stages@[i].kind,
            r.first_failure is None,
    {
        let mut finished: Vec<bool> = Vec::new();
        let mut kinds: Vec<TaskKind> = Vec::new();
        let mut i: usize = 0;
        while i < stages.len()
            invariant
                i <= stages@.len(),
                finished@.len() == i,
                kinds@.len() == i,
                forall|k: int|
                    0 <= k < i ==> !#[trigger] finished@[k] && kinds@[k] == stages@[k].kind,
            decreases stages@.len() - i,
        {
            finished.push(false);
            kinds.push(stages[i].kind);
            i = i + 1;
        }
        FlowRun { kinds, finished, first_failure: None }
    }

    /// Records that a stage returned, with its error if it failed. The first
    /// failure, with the stage's kind, is the flow's failure; the other stages
    /// are left running.
    pub fn on_stage_exit(&mut self, task_id: usize, outcome: Result<(), String>)
        requires
            task_id < old(self).finished@.len(),
            old(self).kinds@.len() == old(self).finished@.len(),
            !old(self).finished@[task_id as int],
        ensures
            final(self).finished@ == old(self).finished@.update(task_id as int, true),
            final(self).kinds@ == old(self).kinds@,
            final(self).first_failure == match (old(self).first_failure, outcome) {
                (None, Err(error)) => Some(
                    StageFailure { task_id, kind: old(self).kinds@[task_id as int], error },
                ),
                _ => old(self).first_failure,
            },
    {
        self.finished.set(task_id, true);
        if self.first_failure.is_none() {
            if let Err(error) = outcome {
                self.first_failure = Some(
                    StageFailure { task_id, kind: self.kinds[task_id], error },
                );
            }
        }
    }

    /// Failed once a stage failed; completed once every stage returned without
    /// failure; running until then.
    pub fn status(&self) -> (r: FlowStatus)
        ensures
            r == status_of(self.finished@, self.first_failure),
    {
        if let Some(f) = &self.first_failure {
            return FlowStatus::Failed(
                StageFailure { task_id: f.task_id, kind: f.kind, error: f.error.clone() },
            );
        }
        let mut i: usize = 0;
        while i < self.finished.len()
            invariant
                i <= self.finished@.len(),
                self.first_failure is None,
                forall|k: int| 0 <= k < i ==> #[trigger] self.finished@[k],
            decreases self.finished@.len() - i,
        {
            if !self.finished[i] {
                assert(!self.finished@[i as int]);
                return FlowStatus::Running;
            }
            i = i + 1;
        }
        FlowStatus::Completed
    }
}

} // verus!
