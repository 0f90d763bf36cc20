//! The bodies of the background ticks, between the reads and writes that the
//! host performs: an indexing tick consumes a batch of pending indexing items,
//! and a refresh tick rebuilds the corrector when one is due.

use vstd::prelude::*;
use crate::account::CompactAccount;
use crate::corrector::MAX_WORD_LEN;
use crate::database::DBOrderDirection;
use crate::error::SearchError;
use crate::post::Post;
use crate::scheduler::{refresh_due, IndexingPlan, RefreshGate, INDEXING_BATCH_SIZE};
use crate::search::{batch_occurrences, batch_resolves, high_signal_fields, SearchService};
use crate::tag::CompactTag;
use crate::task::{DBTask, TaskName, TaskStatus, TaskType};
use crate::task_queue::{
    completed, listed_post_ids, pending_count, pending_window, TaskQueue, TaskState, WorkItemView,
};
use crate::word_store::{vocabulary, MAX_ROWS};

verus! {

/// The most pending refresh items one refresh tick consumes.
pub const REFRESH_BATCH_SIZE: usize = 1000;

/// The value of a newly enqueued refresh item.
pub open spec fn refresh_item() -> WorkItemView {
    WorkItemView { refresh: true, post: false, model_id: 0, state: TaskState::Pending }
}

/// The queue after an indexing tick completed `task_ids`: a refresh item is
/// appended when no indexing and no refresh item is pending any more and an
/// identifier is left for it.
pub open spec fn after_indexing(items: Seq<WorkItemView>, task_ids: Seq<u32>) -> Seq<WorkItemView> {
    let done = completed(items, task_ids);
    if pending_count(done, false) == 0 && pending_count(done, true) == 0 && done.len() + 1 < u32::MAX {
        done.push(refresh_item())
    } else {
        done
    }
}

/// The batch an indexing tick consumes: the newest pending indexing items, and
/// the posts they name.
pub fn begin_indexing_tick(queue: &TaskQueue) -> (r: IndexingPlan)
    requires
        queue.wf(),
    ensures
        r.task_ids@ == pending_window(queue@, false, false, 0, INDEXING_BATCH_SIZE as nat),
        r.post_ids@ == listed_post_ids(queue@, r.task_ids@),
{
    let task_ids = queue.get_many_pending_indexing_tasks(false, DBOrderDirection::DESC, INDEXING_BATCH_SIZE as usize, 0);
    let post_ids = queue.post_ids_of(&task_ids);
    IndexingPlan { task_ids, post_ids }
}

/// Ends an indexing tick on the posts the host loaded for the batch: indexes
/// them; when that fails, the items stay pending and nothing changes; else the
/// items are completed and, when the queue has drained, one refresh item is
/// enqueued. The answer says whether it was. An empty batch changes nothing.
pub fn finish_indexing_tick(
    service: &mut SearchService,
    queue: &mut TaskQueue,
    task_ids: &Vec<u32>,
    posts: &Vec<Post>,
    tags: &Vec<CompactTag>,
    posters: &Vec<CompactAccount>,
) -> (r: Result<bool, SearchError>)
    requires
        old(service).wf(),
        old(queue).wf(),
    ensures
        final(service).wf(),
        final(queue).wf(),
        final(service).corrector_words() == old(service).corrector_words(),
        task_ids@.len() == 0 ==> r == Ok::<bool, SearchError>(false) && final(service).rows()
            == old(service).rows() && final(queue)@ == old(queue)@,
        task_ids@.len() > 0 ==> {
            &&& r is Ok <==> batch_resolves(posts@, tags@, posters@) && old(service).rows().len()
                + batch_occurrences(posts@, tags@, posters@).len() <= MAX_ROWS
            &&& r is Err ==> final(service).rows() == old(service).rows() && final(queue)@ == old(
                queue,
            )@
            &&& r is Ok ==> final(service).rows() == old(service).rows() + batch_occurrences(
                posts@,
                tags@,
                posters@,
            ) && final(queue)@ == after_indexing(old(queue)@, task_ids@) && r->Ok_0 == (
            final(queue)@.len() > old(queue)@.len())
        },
{
    if task_ids.len() == 0 {
        return Ok(false);
    }
    match service.index_posts(posts, tags, posters) {
        Err(e) => {
            return Err(e);
        },
        Ok(()) => {},
    }
    queue.complete_many_tasks_by_ids(task_ids);
    let pending_indexing = queue.count_pending(false);
    let pending_refresh = queue.count_pending(true);
    if crate::scheduler::should_enqueue_refresh(pending_indexing, pending_refresh) {
        let task = DBTask {
            name: TaskName::RefreshingBKTree,
            task_type: TaskType::Automated,
            status: TaskStatus::Pending,
        };
        match queue.create_one_task(task) {
            Ok(_) => Ok(true),
            Err(_) => Ok(false),
        }
    } else {
        Ok(false)
    }
}

/// Decides a refresh tick: the pending refresh items it consumes when a
/// rebuild is due, none otherwise.
pub fn begin_refresh_tick(queue: &TaskQueue, gate: &RefreshGate) -> (r: Option<Vec<u32>>)
    requires
        queue.wf(),
    ensures
        r is Some <==> refresh_due(
            gate.has_run(),
            pending_window(queue@, true, false, 0, REFRESH_BATCH_SIZE as nat).len(),
        ),
        r is Some ==> r->0@ == pending_window(queue@, true, false, 0, REFRESH_BATCH_SIZE as nat),
{
    let ids = queue.get_many_pending_indexing_tasks(true, DBOrderDirection::DESC, REFRESH_BATCH_SIZE, 0);
    if gate.should_refresh(ids.len()) {
        Some(ids)
    } else {
        None
    }
}

/// Ends a refresh tick after the rebuild: completes the consumed items and
/// records that a tick ran.
pub fn finish_refresh_tick(queue: &mut TaskQueue, gate: &mut RefreshGate, consumed: &Vec<u32>)
    requires
        old(queue).wf(),
    ensures
        final(queue).wf(),
        final(queue)@ == completed(old(queue)@, consumed@),
        final(gate).has_run(),
{
    queue.complete_many_tasks_by_ids(consumed);
    gate.record_run();
}

/// A whole refresh tick: when due, rebuilds the corrector from the store's
/// high-signal words and completes the pending refresh items; in any case
/// records that a tick ran. The answer says whether it rebuilt.
pub fn refresh_tick(service: &mut SearchService, queue: &mut TaskQueue, gate: &mut RefreshGate) -> (rebuilt: bool)
    requires
        old(service).wf(),
        old(queue).wf(),
    ensures
        final(service).wf(),
        final(queue).wf(),
        final(gate).has_run(),
        final(service).rows() == old(service).rows(),
        rebuilt == refresh_due(
            old(gate).has_run(),
            pending_window(old(queue)@, true, false, 0, REFRESH_BATCH_SIZE as nat).len(),
        ),
        rebuilt ==> final(service).corrector_words() == vocabulary(
            old(service).rows(),
            high_signal_fields(),
        ).filter(|w: Seq<char>| w.len() <= MAX_WORD_LEN) && final(queue)@ == completed(
            old(queue)@,
            pending_window(old(queue)@, true, false, 0, REFRESH_BATCH_SIZE as nat),
        ),
        !rebuilt ==> final(service).corrector_words() == old(service).corrector_words()
            && final(queue)@ == old(queue)@,
{
    match begin_refresh_tick(queue, gate) {
        Some(ids) => {
            let _ = service.refresh_bk_tree();
            finish_refresh_tick(queue, gate, &ids);
            true
        },
        None => {
            gate.record_run();
            false
        },
    }
}

} // verus!
