//! Work items: deferred background work with a status lifecycle.

use vstd::prelude::*;

verus! {

/// Where a work item stands.
#[derive(Debug, Clone)]
pub enum TaskStatus {
    Pending,
    InProgress,
    Completed,
    Failed { failure_reason: String },
}

/// Who created a work item.
#[derive(Debug, Clone, Copy, PartialEq, Eq, Structural)]
pub enum TaskType {
    Manual { manual_task_owner: u32 },
    Automated,
}

/// What a work item asks for.
#[derive(Debug, Clone)]
pub enum TaskName {
    Indexing { model_name: String, model_id: u32 },
    RefreshingBKTree,
}

/// A stored work item.
#[derive(Debug, Clone)]
pub struct Task {
    pub id: u32,
    pub name: TaskName,
    pub task_type: TaskType,
    pub status: TaskStatus,
    pub created_at: String,
    pub updated_at: String,
}

/// A work item before it is stored.
#[derive(Debug, Clone)]
pub struct DBTask {
    pub name: TaskName,
    pub task_type: TaskType,
    pub status: TaskStatus,
}

/// The columns of a work item that depend on its variants.
pub trait DBTaskTrait {
    /// The name, type and status of the item.
    spec fn parts(&self) -> (TaskName, TaskType, TaskStatus);

    /// The model name and identifier of an indexing item.
    fn get_indexing_task_info(&self) -> (r: (Option<String>, Option<u32>))
        ensures
            match self.parts().0 {
                TaskName::Indexing { model_name, model_id } => r.0 is Some && r.0->0@ == model_name@
                    && r.1 == Some(model_id),
                TaskName::RefreshingBKTree => r.0 is None && r.1 is None,
            },
    ;

    /// The owner of a manual item.
    fn get_manual_task_info(&self) -> (r: Option<u32>)
        ensures
            r == match self.parts().1 {
                TaskType::Manual { manual_task_owner } => Some(manual_task_owner),
                TaskType::Automated => None,
            },
    ;

    /// The reason of a failed item.
    fn get_failed_task_info(&self) -> (r: Option<String>)
        ensures
            match self.parts().2 {
                TaskStatus::Failed { failure_reason } => r is Some && r->0@ == failure_reason@,
                _ => r is None,
            },
    ;
}

impl DBTaskTrait for DBTask {
    open spec fn parts(&self) -> (TaskName, TaskType, TaskStatus) {
        (self.name, self.task_type, self.status)
    }

    fn get_indexing_task_info(&self) -> (r: (Option<String>, Option<u32>)) {
        match &self.name {
            TaskName::Indexing { model_name, model_id } => (Some(model_name.clone()), Some(*model_id)),
            _ => (None, None),
        }
    }

    fn get_manual_task_info(&self) -> (r: Option<u32>) {
        match &self.task_type {
            TaskType::Manual { manual_task_owner } => Some(*manual_task_owner),
            _ => None,
        }
    }

    fn get_failed_task_info(&self) -> (r: Option<String>) {
        match &self.status {
            TaskStatus::Failed { failure_reason } => Some(failure_reason.clone()),
            _ => None,
        }
    }
}

} // verus!
