//! The work-item queue: items are appended Pending, move forward only, and are
//! never removed.

use vstd::prelude::*;
use crate::database::DBOrderDirection;
use crate::error::DataAccessError;
use crate::task::{DBTask, TaskName, TaskStatus, TaskType};

verus! {

/// The stage of a work item, without the failure reason.
#[derive(Debug, Clone, Copy, PartialEq, Eq, Structural)]
pub enum TaskState {
    Pending,
    InProgress,
    Completed,
    Failed,
}

/// A work item as a mathematical value.
pub struct WorkItemView {
    /// A corrector refresh item, else an indexing item.
    pub refresh: bool,
    /// An indexing item whose model is a post.
    pub post: bool,
    /// The model identifier of an indexing item.
    pub model_id: u32,
    pub state: TaskState,
}

/// The stage of a status.
pub open spec fn state_of(s: TaskStatus) -> TaskState {
    match s {
        TaskStatus::Pending => TaskState::Pending,
        TaskStatus::InProgress => TaskState::InProgress,
        TaskStatus::Completed => TaskState::Completed,
        TaskStatus::Failed { .. } => TaskState::Failed,
    }
}

/// The value of an item with this name and status.
pub open spec fn item_view(name: TaskName, status: TaskStatus) -> WorkItemView {
    match name {
        TaskName::Indexing { model_name, model_id } => WorkItemView {
            refresh: false,
            post: model_name@ == seq!['p', 'o', 's', 't'],
            model_id,
            state: state_of(status),
        },
        TaskName::RefreshingBKTree => WorkItemView {
            refresh: true,
            post: false,
            model_id: 0,
            state: state_of(status),
        },
    }
}

/// Completed and Failed are final.
pub open spec fn is_terminal(s: TaskState) -> bool {
    s == TaskState::Completed || s == TaskState::Failed
}

/// A pending item of the given kind.
pub open spec fn pending_of_kind(w: WorkItemView, refresh: bool) -> bool {
    w.state == TaskState::Pending && w.refresh == refresh
}

/// The identifiers of the pending items of a kind, in creation order; item
/// `k` has identifier `k + 1`.
pub open spec fn pending_all(items: Seq<WorkItemView>, refresh: bool) -> Seq<u32>
    decreases items.len(),
{
    if items.len() == 0 {
        Seq::empty()
    } else if pending_of_kind(items.last(), refresh) {
        pending_all(items.drop_last(), refresh).push(items.len() as u32)
    } else {
        pending_all(items.drop_last(), refresh)
    }
}

/// `s` in creation order when `ascending`, else newest first.
pub open spec fn in_direction(s: Seq<u32>, ascending: bool) -> Seq<u32> {
    if ascending {
        s
    } else {
        s.reverse()
    }
}

/// The identifiers of the pending items of a kind, ordered by creation in the
/// given direction, from position `start`, at most `limit` of them.
pub open spec fn pending_window(
    items: Seq<WorkItemView>,
    refresh: bool,
    ascending: bool,
    start: nat,
    limit: nat,
) -> Seq<u32> {
    let o = in_direction(pending_all(items, refresh), ascending);
    if start >= o.len() {
        Seq::empty()
    } else if start + limit >= o.len() {
        o.subrange(start as int, o.len() as int)
    } else {
        o.subrange(start as int, (start + limit) as int)
    }
}

/// The items after completing those listed in `ids` that are not final yet.
pub open spec fn completed(items: Seq<WorkItemView>, ids: Seq<u32>) -> Seq<WorkItemView> {
    Seq::new(
        items.len(),
        |k: int|
            if ids.contains((k + 1) as u32) && !is_terminal(items[k].state) {
                WorkItemView { state: TaskState::Completed, ..items[k] }
            } else {
                items[k]
            },
    )
}

/// The number of pending items of a kind.
pub open spec fn pending_count(items: Seq<WorkItemView>, refresh: bool) -> nat
    decreases items.len(),
{
    if items.len() == 0 {
        0
    } else {
        pending_count(items.drop_last(), refresh) + if pending_of_kind(items.last(), refresh) {
            1nat
        } else {
            0nat
        }
    }
}

/// The queue of work items; item `k` has identifier `k + 1`.
pub struct TaskQueue {
    names: Vec<TaskName>,
    types: Vec<TaskType>,
    statuses: Vec<TaskStatus>,
}

impl View for TaskQueue {
    type V = Seq<WorkItemView>;

    closed spec fn view(&self) -> Seq<WorkItemView> {
        Seq::new(self.names@.len(), |k: int| item_view(self.names@[k], self.statuses@[k]))
    }
}

impl TaskQueue {
    /// The columns have one entry per item, and every identifier fits `u32`.
    pub closed spec fn wf(&self) -> bool {
        &&& self.names@.len() == self.types@.len() == self.statuses@.len()
        &&& self.names@.len() < u32::MAX
    }

    /// An empty queue.
    pub fn new() -> (r: TaskQueue)
        ensures
            r.wf(),
            r@ == Seq::<WorkItemView>::empty(),
    {
        let r = TaskQueue { names: Vec::new(), types: Vec::new(), statuses: Vec::new() };
        proof {
            assert(r@ =~= Seq::<WorkItemView>::empty());
        }
        r
    }

    /// The number of items.
    pub fn len(&self) -> (r: usize)
        requires
            self.wf(),
        ensures
            r == self@.len(),
    {
        self.names.len()
    }

    /// Appends an item and returns its identifier; fails, leaving the queue
    /// as it was, exactly when the identifiers are used up.
    pub fn create_one_task(&mut self, task: DBTask) -> (r: Result<u32, DataAccessError>)
        requires
            old(self).wf(),
        ensures
            final(self).wf(),
            r is Ok <==> old(self)@.len() + 1 < u32::MAX,
            r is Ok ==> r->Ok_0 == old(self)@.len() + 1 && final(self)@ == old(self)@.push(
                item_view(task.name, task.status),
            ),
            r is Err ==> final(self)@ == old(self)@,
    {
        if self.names.len() + 1 >= u32::MAX as usize {
            return Err(DataAccessError::InternalError);
        }
        let ghost before = self@;
        let ghost item = item_view(task.name, task.status);
        self.names.push(task.name);
        self.types.push(task.task_type);
        self.statuses.push(task.status);
        proof {
            assert(self@ =~= before.push(item));
        }
        Ok(self.names.len() as u32)
    }

    fn is_pending_of_kind(&self, k: usize, refresh: bool) -> (r: bool)
        requires
            self.wf(),
            k < self@.len(),
        ensures
            r == pending_of_kind(self@[k as int], refresh),
    {
        let pending = match &self.statuses[k] {
            TaskStatus::Pending => true,
            _ => false,
        };
        let is_refresh = match &self.names[k] {
            TaskName::RefreshingBKTree => true,
            _ => false,
        };
        pending && is_refresh == refresh
    }

    /// The identifiers of the pending items of a kind (refresh items, or
    /// indexing items), ordered by creation in `order_direction`, skipping
    /// the first `start` of them, at most `limit` of them.
    pub fn get_many_pending_indexing_tasks(
        &self,
        refresh: bool,
        order_direction: DBOrderDirection,
        limit: usize,
        start: usize,
    ) -> (r: Vec<u32>)
        requires
            self.wf(),
        ensures
            r@ == pending_window(
                self@,
                refresh,
                order_direction == DBOrderDirection::ASC,
                start as nat,
                limit as nat,
            ),
    {
        let ghost items = self@;
        let mut all: Vec<u32> = Vec::new();
        let mut k: usize = 0;
        while k < self.names.len()
            invariant
                self.wf(),
                items == self@,
                k <= items.len(),
                all@ == pending_all(items.take(k as int), refresh),
            decreases items.len() - k,
        {
            proof {
                assert(items.take(k as int + 1).drop_last() =~= items.take(k as int));
            }
            if self.is_pending_of_kind(k, refresh) {
                all.push((k + 1) as u32);
            }
            k = k + 1;
        }
        proof {
            assert(items.take(k as int) =~= items);
        }
        let ascending = match order_direction {
            DBOrderDirection::ASC => true,
            DBOrderDirection::DESC => false,
        };
        let ghost o = in_direction(all@, ascending);
        let n = all.len();
        let mut out: Vec<u32> = Vec::new();
        if start < n {
            let count = if limit < n - start {
                limit
            } else {
                n - start
            };
            let mut j: usize = 0;
            while j < count
                invariant
                    start < n == all@.len() == o.len(),
                    o == in_direction(all@, ascending),
                    count <= n - start,
                    j <= count,
                    out@ == o.subrange(start as int, (start + j) as int),
                decreases count - j,
            {
                let idx = if ascending {
                    start + j
                } else {
                    n - 1 - (start + j)
                };
                proof {
                    if !ascending {
                        assert(o[(start + j) as int] == all@[idx as int]);
                    }
                }
                out.push(all[idx]);
                j = j + 1;
                proof {
                    assert(out@ =~= o.subrange(start as int, (start + j) as int));
                }
            }
        }
        proof {
            assert(out@ =~= pending_window(
                items,
                refresh,
                order_direction == DBOrderDirection::ASC,
                start as nat,
                limit as nat,
            ));
        }
        out
    }

    /// The number of pending items of a kind.
    pub fn count_pending(&self, refresh: bool) -> (r: usize)
        requires
            self.wf(),
        ensures
            r == pending_count(self@, refresh),
    {
        let ghost items = self@;
        let mut n: usize = 0;
        let mut k: usize = 0;
        while k < self.names.len()
            invariant
                self.wf(),
                items == self@,
                k <= items.len(),
                n == pending_count(items.take(k as int), refresh),
                n <= k,
            decreases items.len() - k,
        {
            proof {
                assert(items.take(k as int + 1).drop_last() =~= items.take(k as int));
            }
            if self.is_pending_of_kind(k, refresh) {
                n = n + 1;
            }
            k = k + 1;
        }
        proof {
            assert(items.take(k as int) =~= items);
        }
        n
    }

    /// Marks the listed items Completed, those not final yet; the others
    /// stay as they are.
    pub fn complete_many_tasks_by_ids(&mut self, ids: &Vec<u32>)
        requires
            old(self).wf(),
        ensures
            final(self).wf(),
            final(self)@ == completed(old(self)@, ids@),
    {
        let ghost items = self@;
        let mut k: usize = 0;
        while k < self.statuses.len()
            invariant
                self.wf(),
                self.names@ == old(self).names@,
                k <= items.len() == self.statuses@.len(),
                items == old(self)@,
                forall|j: int| 0 <= j < k ==> #[trigger] self@[j] == completed(items, ids@)[j],
                forall|j: int| k <= j < items.len() ==> #[trigger] self@[j] == items[j],
            decreases items.len() - k,
        {
            let id = (k + 1) as u32;
            let mut listed = false;
            let mut j: usize = 0;
            while j < ids.len()
                invariant
                    j <= ids@.len(),
                    listed == exists|m: int| 0 <= m < j && ids@[m] == id,
                decreases ids@.len() - j,
            {
                if ids[j] == id {
                    listed = true;
                }
                j = j + 1;
            }
            let open = match &self.statuses[k] {
                TaskStatus::Pending | TaskStatus::InProgress => true,
                _ => false,
            };
            proof {
                assert(ids@.contains(id) == listed);
                assert(self@[k as int] == items[k as int]);
                assert(self@[k as int].state == state_of(self.statuses@[k as int]));
                assert(open == !is_terminal(items[k as int].state));
            }
            if listed && open {
                let ghost before = self@;
                self.statuses.set(k, TaskStatus::Completed);
                proof {
                    assert forall|j: int| 0 <= j < items.len() && j != k implies #[trigger] self@[j]
                        == before[j] by {}
                    assert(self@[k as int] == completed(items, ids@)[k as int]);
                }
            } else {
                proof {
                    assert(self@[k as int] == completed(items, ids@)[k as int]);
                }
            }
            k = k + 1;
        }
        proof {
            assert(self@ =~= completed(items, ids@));
        }
    }

    /// The model identifiers of the listed items that index posts, in the
    /// order listed.
    pub fn post_ids_of(&self, ids: &Vec<u32>) -> (r: Vec<u32>)
        requires
            self.wf(),
        ensures
            r@ == listed_post_ids(self@, ids@),
    {
        let ghost items = self@;
        let mut out: Vec<u32> = Vec::new();
        let mut j: usize = 0;
        while j < ids.len()
            invariant
                self.wf(),
                items == self@,
                j <= ids@.len(),
                out@ == listed_post_ids(items, ids@.take(j as int)),
            decreases ids@.len() - j,
        {
            let id = ids[j];
            proof {
                assert(ids@.take(j as int + 1).drop_last() =~= ids@.take(j as int));
            }
            if id >= 1 && (id as usize) <= self.names.len() {
                match &self.names[(id - 1) as usize] {
                    TaskName::Indexing { model_name, model_id } => {
                        if crate::scheduler::is_post_name(model_name) {
                            out.push(*model_id);
                        }
                    },
                    TaskName::RefreshingBKTree => {},
                }
            }
            j = j + 1;
        }
        proof {
            assert(ids@.take(j as int) =~= ids@);
        }
        out
    }
}

/// The model identifiers of the items listed in `ids` that index posts.
pub open spec fn listed_post_ids(items: Seq<WorkItemView>, ids: Seq<u32>) -> Seq<u32>
    decreases ids.len(),
{
    if ids.len() == 0 {
        Seq::empty()
    } else {
        let id = ids.last();
        let rest = listed_post_ids(items, ids.drop_last());
        if 1 <= id <= items.len() && items[id - 1].post && !items[id - 1].refresh {
            rest.push(items[id - 1].model_id)
        } else {
            rest
        }
    }
}

} // verus!
