use vstd::prelude::*;

verus! {

/// One schedulable unit of simulated user behaviour.
///
/// The runnable body itself is supplied by the embedding program; the engine
/// only needs to know whether a task has one attached, and under which handle
/// the embedding program can find it. A task with no attached action is a
/// configuration error the moment it is scheduled.
pub struct GooseTask {
    /// Display name, also the label under which results are recorded.
    pub name: String,
    /// Tasks sharing a sequence group run in group order relative to each
    /// other; a task without one is free to run in any order.
    pub sequence_group: Option<usize>,
    /// Key under which the embedding program finds the runnable body, if
    /// the task has one.
    pub action: Option<usize>,
}

/// The immutable definition of a scenario: all tasks plus the precomputed
/// start/stop sequence groups. Shared read-only by every worker of a run.
pub struct GooseTaskSet {
    pub name: String,
    pub tasks: Vec<GooseTask>,
    pub on_start_sequences: Vec<Vec<usize>>,
    pub on_stop_sequences: Vec<Vec<usize>>,
}

/// Errors the engine itself can diagnose.
#[derive(Debug)]
pub enum GooseError {
    /// A scheduled task has no attached action: a configuration defect that
    /// must terminate the worker, never be skipped.
    MissingAction { task_set_name: String, task_name: String },
}

impl GooseTaskSet {
    /// The display name of the task at `task_index`, as a fresh copy that
    /// the caller may keep.
    pub fn task_name(&self, task_index: usize) -> (r: String)
        requires
            task_index < self.tasks@.len(),
        ensures
            r@ == self.tasks@[task_index as int].name@,
    {
        self.tasks[task_index].name.clone()
    }

    /// Look up the action handle of the task at `task_index`, failing with
    /// the fatal configuration error when the task has none.
    pub fn resolve_action(&self, task_index: usize) -> (r: Result<usize, GooseError>)
        requires
            task_index < self.tasks@.len(),
        ensures
            match r {
                Ok(handle) => self.tasks@[task_index as int].action == Some(handle),
                Err(e) => {
                    &&& self.tasks@[task_index as int].action is None
                    &&& match e {
                        GooseError::MissingAction { task_set_name, task_name } => {
                            &&& task_set_name@ == self.name@
                            &&& task_name@ == self.tasks@[task_index as int].name@
                        },
                    }
                },
            },
    {
        match self.tasks[task_index].action {
            Some(handle) => Ok(handle),
            None => Err(GooseError::MissingAction {
                task_set_name: self.name.clone(),
                task_name: self.tasks[task_index].name.clone(),
            }),
        }
    }
}

} // verus!
