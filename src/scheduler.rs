//! Decisions of the background ticks: at most one run per job kind at a time,
//! what an indexing tick consumes, when to ask for a corrector refresh, and
//! when a refresh tick rebuilds.

use vstd::prelude::*;
use crate::task::{DBTask, Task, TaskName, TaskStatus, TaskType};

verus! {

/// Whether a start attempt on a guard in state `running` runs the job body.
pub open spec fn starts(running: bool) -> bool {
    !running
}

/// The guard of one job kind: set while a run is in flight.
pub struct JobGuard {
    running: bool,
}

impl JobGuard {
    /// Whether a run is in flight.
    pub closed spec fn is_running(&self) -> bool {
        self.running
    }

    /// A guard with no run in flight.
    pub fn new() -> (r: JobGuard)
        ensures
            !r.is_running(),
    {
        JobGuard { running: false }
    }

    /// Compare-and-set: starts a run, and says so, exactly when none is in
    /// flight; a tick that finds one in flight is skipped.
    pub fn try_start(&mut self) -> (started: bool)
        ensures
            started == starts(old(self).is_running()),
            final(self).is_running(),
    {
        if self.running {
            false
        } else {
            self.running = true;
            true
        }
    }

    /// Ends the run in flight.
    pub fn finish(&mut self)
        ensures
            !final(self).is_running(),
    {
        self.running = false;
    }
}

/// How many of `n` start attempts, made one after another with no run
/// finishing between them, run the job body.
pub open spec fn runs_among(running: bool, n: nat) -> nat
    decreases n,
{
    if n == 0 {
        0
    } else {
        (if starts(running) { 1nat } else { 0nat }) + runs_among(true, (n - 1) as nat)
    }
}

/// Mutual exclusion: of any number of attempts to start the same job kind
/// while no run finishes, exactly one runs the body when none was in flight,
/// and none when one was.
pub proof fn lemma_at_most_one_run(running: bool, n: nat)
    requires
        n >= 1,
    ensures
        runs_among(running, n) == if running { 0nat } else { 1nat },
    decreases n,
{
    if n > 1 {
        lemma_at_most_one_run(true, (n - 1) as nat);
    } else {
        assert(runs_among(true, 0) == 0);
    }
}

/// Whether a refresh tick rebuilds: always the first time, afterwards only
/// when a refresh item is pending.
pub open spec fn refresh_due(has_run_once: bool, pending_refresh: nat) -> bool {
    !has_run_once || pending_refresh > 0
}

/// The state a refresh tick keeps between runs.
pub struct RefreshGate {
    has_run_once: bool,
}

impl RefreshGate {
    /// Whether a refresh tick has run.
    pub closed spec fn has_run(&self) -> bool {
        self.has_run_once
    }

    /// A gate whose tick has not run yet.
    pub fn new() -> (r: RefreshGate)
        ensures
            !r.has_run(),
    {
        RefreshGate { has_run_once: false }
    }

    /// Whether this tick rebuilds, given how many refresh items are pending.
    pub fn should_refresh(&self, pending_refresh: usize) -> (r: bool)
        ensures
            r == refresh_due(self.has_run(), pending_refresh as nat),
    {
        !self.has_run_once || pending_refresh > 0
    }

    /// Records that a tick ran, whatever it did.
    pub fn record_run(&mut self)
        ensures
            final(self).has_run(),
    {
        self.has_run_once = true;
    }
}

/// Bootstrap: the first refresh tick rebuilds even with no refresh item
/// pending; once a tick has run, a tick with none pending does nothing.
pub proof fn lemma_refresh_bootstrap(pending_refresh: nat)
    ensures
        refresh_due(false, pending_refresh),
        !refresh_due(true, 0),
        refresh_due(true, pending_refresh) == (pending_refresh > 0),
{
}

/// The most pending indexing items one tick consumes.
pub const INDEXING_BATCH_SIZE: u32 = 10;

/// Whether an indexing item names a post.
pub open spec fn is_post_indexing(t: Task) -> bool {
    match t.name {
        TaskName::Indexing { model_name, .. } => model_name@ == seq!['p', 'o', 's', 't'],
        TaskName::RefreshingBKTree => false,
    }
}

/// The identifier of an item's model, where it is an indexing item.
pub open spec fn model_id_of(t: Task) -> u32 {
    match t.name {
        TaskName::Indexing { model_id, .. } => model_id,
        TaskName::RefreshingBKTree => 0,
    }
}

/// The posts that a batch of items asks to index, in order.
pub open spec fn post_ids_of(tasks: Seq<Task>) -> Seq<u32>
    decreases tasks.len(),
{
    if tasks.len() == 0 {
        Seq::empty()
    } else if is_post_indexing(tasks.last()) {
        post_ids_of(tasks.drop_last()).push(model_id_of(tasks.last()))
    } else {
        post_ids_of(tasks.drop_last())
    }
}

/// What an indexing tick does with a batch of pending items.
pub struct IndexingPlan {
    /// Every item of the batch, to mark completed once the posts are indexed.
    pub task_ids: Vec<u32>,
    /// The posts to load and index.
    pub post_ids: Vec<u32>,
}

/// Whether a model name is that of posts.
pub(crate) fn is_post_name(name: &String) -> (r: bool)
    ensures
        r == (name@ == seq!['p', 'o', 's', 't']),
{
    let cs = crate::text::chars_of(name.as_str());
    let r = cs.len() == 4 && cs[0] == 'p' && cs[1] == 'o' && cs[2] == 's' && cs[3] == 't';
    proof {
        if cs@.len() == 4 && cs@[0] == 'p' && cs@[1] == 'o' && cs@[2] == 's' && cs@[3] == 't' {
            assert(cs@ =~= seq!['p', 'o', 's', 't']);
        }
    }
    r
}

/// Plans an indexing tick: every item of the batch is consumed, and the posts
/// of its post indexing items are indexed.
pub fn plan_indexing(tasks: &Vec<Task>) -> (r: IndexingPlan)
    ensures
        r.task_ids@ == tasks@.map_values(|t: Task| t.id),
        r.post_ids@ == post_ids_of(tasks@),
{
    let mut task_ids: Vec<u32> = Vec::new();
    let mut post_ids: Vec<u32> = Vec::new();
    let mut i: usize = 0;
    while i < tasks.len()
        invariant
            i <= tasks@.len(),
            task_ids@ == tasks@.take(i as int).map_values(|t: Task| t.id),
            post_ids@ == post_ids_of(tasks@.take(i as int)),
        decreases tasks@.len() - i,
    {
        let t = &tasks[i];
        task_ids.push(t.id);
        match &t.name {
            TaskName::Indexing { model_name, model_id } => {
                if is_post_name(model_name) {
                    post_ids.push(*model_id);
                }
            },
            TaskName::RefreshingBKTree => {},
        }
        proof {
            assert(tasks@.take(i as int + 1).drop_last() =~= tasks@.take(i as int));
            assert(task_ids@ =~= tasks@.take(i as int + 1).map_values(|t: Task| t.id));
        }
        i = i + 1;
    }
    proof {
        assert(tasks@.take(i as int) =~= tasks@);
    }
    IndexingPlan { task_ids, post_ids }
}

/// Whether an indexing tick that drained its batch asks for a corrector
/// refresh: only when no indexing item and no refresh item is pending.
pub fn should_enqueue_refresh(pending_indexing: usize, pending_refresh: usize) -> (r: bool)
    ensures
        r == (pending_indexing == 0 && pending_refresh == 0),
{
    pending_indexing == 0 && pending_refresh == 0
}

/// The refresh item an indexing tick enqueues.
pub fn refresh_task() -> (r: DBTask)
    ensures
        r.name is RefreshingBKTree,
        r.status is Pending,
        r.task_type == TaskType::Automated,
{
    DBTask { name: TaskName::RefreshingBKTree, task_type: TaskType::Automated, status: TaskStatus::Pending }
}

} // verus!
