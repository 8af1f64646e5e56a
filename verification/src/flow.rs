//! The order of work: which task comes next, on which change a stage
//! builds, and what a failure does to a task.

use vstd::prelude::*;
use crate::models::opt_chars;
use crate::task::{
    records, runnable, stage_name, stages_of, Stage, StageStateView, Status, Task, TaskRecord,
};
use crate::text::{chars_of, push_str, string_of};

verus! {

/// How often a stage is tried again before its task counts as failed.
pub const MAX_RETRIES: u32 = 2;

/// The change that every first stage builds on.
pub open spec fn trunk() -> Seq<char> {
    "main"@
}

/// The position of `stage` in `order`, or the length of `order` where it
/// does not occur.
pub open spec fn position_of(order: Seq<Stage>, stage: Stage) -> int
    decreases order.len(),
{
    if order.len() == 0 {
        0
    } else if order[0] == stage {
        0
    } else {
        1 + position_of(order.drop_first(), stage)
    }
}

/// The stage that runs before `stage` in a task, if `stage` is not the
/// first; an error where the task has no such stage.
pub fn previous_stage(task: &Task, stage: Stage) -> (r: Result<Option<Stage>, ()>)
    ensures
        match r {
            Ok(None) => position_of(stages_of(task.task_type), stage) == 0 && stages_of(
                task.task_type,
            )[0] == stage,
            Ok(Some(previous)) => 0 < position_of(stages_of(task.task_type), stage) < 4
                && previous == stages_of(task.task_type)[position_of(
                stages_of(task.task_type),
                stage,
            ) - 1],
            Err(_) => !stages_of(task.task_type).contains(stage),
        },
{
    let order = task.task_type.stages();
    let mut i: usize = 0;
    assert(order@.skip(0) =~= order@);
    while i < order.len()
        invariant
            i <= order.len() == 4,
            order@ == stages_of(task.task_type),
            forall|j: int| 0 <= j < i ==> order@[j] != stage,
            position_of(order@, stage) == i + position_of(order@.skip(i as int), stage),
        decreases order.len() - i,
    {
        assert(order@.skip(i as int).drop_first() =~= order@.skip(i + 1));
        if order[i] == stage {
            if i == 0 {
                return Ok(None);
            }
            return Ok(Some(order[i - 1]));
        }
        i += 1;
    }
    Err(())
}

/// The change that a stage recorded, if it has a state and recorded one.
pub open spec fn recorded_change(task: TaskRecord, stage: Stage) -> Option<Seq<char>> {
    if task.stages.contains_key(stage) {
        task.stages[stage].change_id
    } else {
        None
    }
}

/// Looks up the change that a stage recorded.
pub fn change_of(task: &Task, stage: Stage) -> (r: Option<String>)
    ensures
        opt_chars(r) == recorded_change(task@, stage),
{
    match task.stages.get(stage) {
        Some(state) => crate::models::clone_opt(&state.change_id),
        None => None,
    }
}

/// Chooses the change that a stage builds on, given the change that the
/// stage before it recorded and whether that change still exists. A change
/// that is gone is forgotten, and the stage builds on the trunk.
pub fn choose_parent(task: &mut Task, previous: Stage, change_id: String, exists: bool) -> (r:
    String)
    ensures
        exists ==> r@ == change_id@ && final(task)@ == old(task)@,
        !exists ==> r@ == trunk() && final(task)@ == (TaskRecord {
            stages: if old(task)@.stages.contains_key(previous) {
                old(task)@.stages.insert(
                    previous,
                    StageStateView { change_id: None, ..old(task)@.stages[previous] },
                )
            } else {
                old(task)@.stages
            },
            ..old(task)@
        }),
{
    if exists {
        change_id
    } else {
        task.clear_stage_change_id(previous);
        "main".to_owned()
    }
}

/// Describes the change of one stage of a task.
pub fn change_description(task_id: &str, stage: Stage) -> (r: String)
    ensures
        r@ == "task "@ + task_id@ + ": "@ + stage_name(stage),
{
    let mut out = chars_of("task ");
    push_str(&mut out, task_id);
    push_str(&mut out, ": ");
    push_str(&mut out, stage.name());
    string_of(&out)
}

/// The changes that the first `n` stages of `order` recorded, leaving out
/// the stages that recorded none or an empty one.
pub open spec fn changes_of(task: TaskRecord, order: Seq<Stage>, n: int) -> Seq<Seq<char>>
    decreases n,
{
    if n <= 0 {
        Seq::empty()
    } else {
        match recorded_change(task, order[n - 1]) {
            Some(id) => if id.len() > 0 {
                changes_of(task, order, n - 1).push(id)
            } else {
                changes_of(task, order, n - 1)
            },
            None => changes_of(task, order, n - 1),
        }
    }
}

/// The changes of a task to fold into one, with the description of the
/// result.
#[derive(Debug)]
pub struct SquashPlan {
    pub first: String,
    pub last: String,
    pub message: String,
}

/// Plans the folding of the changes of a task into one: from the first
/// recorded change into the last, under the task's id and title. A task
/// with fewer than two recorded changes has nothing to fold.
pub fn squash_plan(task: &Task) -> (r: Option<SquashPlan>)
    ensures
        match r {
            Some(plan) => changes_of(task@, stages_of(task.task_type), 4).len() >= 2 && plan.first@
                == changes_of(task@, stages_of(task.task_type), 4).first() && plan.last@
                == changes_of(task@, stages_of(task.task_type), 4).last() && plan.message@
                == "task "@ + task.id@ + ": "@ + task.title@,
            None => changes_of(task@, stages_of(task.task_type), 4).len() < 2,
        },
{
    let order = task.task_type.stages();
    let mut ids: Vec<String> = Vec::new();
    let mut i: usize = 0;
    assert(ids@.map_values(|s: String| s@) =~= Seq::empty());
    while i < order.len()
        invariant
            i <= order.len() == 4,
            order@ == stages_of(task.task_type),
            ids@.map_values(|s: String| s@) == changes_of(task@, order@, i as int),
        decreases order.len() - i,
    {
        match change_of(task, order[i]) {
            Some(id) => {
                if !id.as_str().is_empty() {
                    let ghost before = ids@.map_values(|s: String| s@);
                    ids.push(id);
                    assert(ids@.map_values(|s: String| s@) =~= before.push(id@));
                }
            },
            None => {},
        }
        i += 1;
    }
    if ids.len() < 2 {
        return None;
    }
    let ghost all = ids@.map_values(|s: String| s@);
    assert(all[0] == ids@[0]@);
    assert(all[all.len() - 1] == ids@[ids@.len() - 1]@);
    let mut message = chars_of("task ");
    push_str(&mut message, task.id.as_str());
    push_str(&mut message, ": ");
    push_str(&mut message, task.title.as_str());
    let last = ids[ids.len() - 1].clone();
    let first = ids[0].clone();
    Some(SquashPlan { first, last, message: string_of(&message) })
}

/// What to do next with the tasks at hand.
#[derive(Debug, Clone, Copy, PartialEq, Eq, Structural)]
pub enum NextStep {
    /// There is no task.
    Nothing,
    /// Every task is done.
    Finished,
    /// Work on the task at this position.
    Run { index: usize },
    /// Nothing can be worked on, but some task is in progress.
    Wait,
    /// Nothing can be worked on and nothing is in progress.
    Deadlock,
}

/// Whether the task at `i` is the one to work on: it can be worked on, no
/// task that can be worked on has a lower priority number, and none before
/// it has the same.
pub open spec fn is_next(tasks: Seq<TaskRecord>, i: int) -> bool {
    0 <= i < tasks.len() && runnable(tasks[i], tasks) && (forall|j: int|
        0 <= j < tasks.len() && runnable(#[trigger] tasks[j], tasks) ==> tasks[i].priority
            <= tasks[j].priority) && (forall|j: int|
        0 <= j < i && runnable(#[trigger] tasks[j], tasks) ==> tasks[i].priority
            < tasks[j].priority)
}

/// Decides what to do next: the task to work on is, among those that can
/// be worked on, the first with the lowest priority number.
pub fn pick_next(tasks: &Vec<Task>) -> (r: NextStep)
    ensures
        match r {
            NextStep::Nothing => tasks@.len() == 0,
            NextStep::Finished => tasks@.len() > 0 && forall|j: int|
                0 <= j < tasks@.len() ==> (#[trigger] records(tasks@)[j]).status == Status::Done,
            NextStep::Run { index } => is_next(records(tasks@), index as int),
            NextStep::Wait => (forall|j: int|
                0 <= j < tasks@.len() ==> !runnable(#[trigger] records(tasks@)[j], records(tasks@)))
                && exists|j: int|
                0 <= j < tasks@.len() && (#[trigger] records(tasks@)[j]).status
                    == Status::InProgress,
            NextStep::Deadlock => tasks@.len() > 0 && (forall|j: int|
                0 <= j < tasks@.len() ==> !runnable(#[trigger] records(tasks@)[j], records(tasks@)))
                && (forall|j: int|
                0 <= j < tasks@.len() ==> (#[trigger] records(tasks@)[j]).status
                    != Status::InProgress) && exists|j: int|
                0 <= j < tasks@.len() && (#[trigger] records(tasks@)[j]).status != Status::Done,
        },
{
    let ghost all = records(tasks@);
    if tasks.len() == 0 {
        return NextStep::Nothing;
    }
    let mut best: Option<usize> = None;
    let mut all_done = true;
    let mut in_progress = false;
    let mut i: usize = 0;
    while i < tasks.len()
        invariant
            i <= tasks.len(),
            all == records(tasks@),
            all_done == (forall|j: int| 0 <= j < i ==> (#[trigger] all[j]).status == Status::Done),
            in_progress == (exists|j: int|
                0 <= j < i && (#[trigger] all[j]).status == Status::InProgress),
            match best {
                Some(b) => b < i && runnable(all[b as int], all) && (forall|j: int|
                    0 <= j < i && runnable(#[trigger] all[j], all) ==> all[b as int].priority
                        <= all[j].priority) && (forall|j: int|
                    0 <= j < b && runnable(#[trigger] all[j], all) ==> all[b as int].priority
                        < all[j].priority),
                None => forall|j: int| 0 <= j < i ==> !runnable(#[trigger] all[j], all),
            },
        decreases tasks.len() - i,
    {
        assert(all[i as int] == tasks@[i as int]@);
        if !matches!(tasks[i].status, Status::Done) {
            all_done = false;
        }
        if matches!(tasks[i].status, Status::InProgress) {
            in_progress = true;
        }
        if tasks[i].is_runnable(tasks.as_slice()) {
            let better = match best {
                Some(b) => tasks[i].priority < tasks[b].priority,
                None => true,
            };
            if better {
                best = Some(i);
            }
        }
        i += 1;
    }
    if all_done {
        return NextStep::Finished;
    }
    match best {
        Some(index) => NextStep::Run { index },
        None => if in_progress {
            NextStep::Wait
        } else {
            NextStep::Deadlock
        },
    }
}

/// Records that a stage of a task has failed: the stage has been tried
/// once more; a stage tried more often than allowed fails the task for the
/// given reason, any other goes back to pending with its task.
pub fn record_failure(task: &mut Task, stage: Stage, reason: &str)
    requires
        old(task)@.stages.contains_key(stage) ==> old(task)@.stages[stage].retries < u32::MAX,
    ensures
        old(task)@.stages.contains_key(stage) && old(task)@.stages[stage].retries >= MAX_RETRIES
            ==> final(task)@ == (TaskRecord {
            status: Status::Failed,
            error: Some(reason@),
            stages: old(task)@.stages.insert(
                stage,
                StageStateView {
                    status: Status::Failed,
                    retries: (old(task)@.stages[stage].retries + 1) as u32,
                    ..old(task)@.stages[stage]
                },
            ),
            ..old(task)@
        }),
        old(task)@.stages.contains_key(stage) && old(task)@.stages[stage].retries < MAX_RETRIES
            ==> final(task)@ == (TaskRecord {
            status: Status::Pending,
            stages: old(task)@.stages.insert(
                stage,
                StageStateView {
                    status: Status::Pending,
                    retries: (old(task)@.stages[stage].retries + 1) as u32,
                    ..old(task)@.stages[stage]
                },
            ),
            ..old(task)@
        }),
        !old(task)@.stages.contains_key(stage) ==> final(task)@ == (TaskRecord {
            status: Status::Pending,
            ..old(task)@
        }),
{
    task.increment_stage_retries(stage);
    if task.stage_retries(stage) > MAX_RETRIES {
        task.status = Status::Failed;
        task.error = Some(reason.to_owned());
        task.set_stage_status(stage, Status::Failed);
    } else {
        task.set_stage_status(stage, Status::Pending);
        task.status = Status::Pending;
    }
    proof {
        if old(task)@.stages.contains_key(stage) {
            let before = old(task)@.stages[stage];
            if before.retries >= MAX_RETRIES {
                assert(task@.stages =~= old(task)@.stages.insert(
                    stage,
                    StageStateView {
                        status: Status::Failed,
                        retries: (before.retries + 1) as u32,
                        ..before
                    },
                ));
            } else {
                assert(task@.stages =~= old(task)@.stages.insert(
                    stage,
                    StageStateView {
                        status: Status::Pending,
                        retries: (before.retries + 1) as u32,
                        ..before
                    },
                ));
            }
        }
    }
}

/// Where a task with the priority number `priority` goes into tasks that
/// are in order: behind the last one whose number is not greater.
pub open spec fn queue_position(queue: Seq<TaskRecord>, priority: u32) -> int
    decreases queue.len(),
{
    if queue.len() == 0 {
        0
    } else if queue.last().priority <= priority {
        queue.len() as int
    } else {
        queue_position(queue.drop_last(), priority)
    }
}

/// The tasks in the order of their priority numbers; tasks with the same
/// number keep the order in which they came.
pub open spec fn by_priority(tasks: Seq<TaskRecord>) -> Seq<TaskRecord>
    decreases tasks.len(),
{
    if tasks.len() == 0 {
        Seq::empty()
    } else {
        let queue = by_priority(tasks.drop_last());
        queue.insert(queue_position(queue, tasks.last().priority), tasks.last())
    }
}

/// Puts tasks in the order of their priority numbers. Tasks with the same
/// number keep the order in which they came.
pub fn sort_by_priority(tasks: Vec<Task>) -> (queue: Vec<Task>)
    ensures
        records(queue@) == by_priority(records(tasks@)),
{
    let ghost input = tasks@;
    let ghost all = records(tasks@);
    let mut queue: Vec<Task> = Vec::new();
    let mut n: usize = 0;
    let count = tasks.len();
    assert(records(queue@) =~= Seq::empty());
    for task in it: tasks
        invariant
            it.seq() == input,
            all == records(input),
            input.len() == count,
            n == it.index(),
            records(queue@) == by_priority(all.take(n as int)),
    {
        let ghost done = records(queue@);
        let ghost view = task@;
        assert(all[n as int] == view);
        let mut i: usize = queue.len();
        assert(done.take(i as int) =~= done);
        while i > 0 && queue[i - 1].priority > task.priority
            invariant
                i <= queue.len(),
                done == records(queue@),
                queue_position(done, view.priority) == queue_position(
                    done.take(i as int),
                    view.priority,
                ),
                view.priority == task.priority,
            decreases i,
        {
            assert(done.take(i as int).drop_last() =~= done.take(i - 1));
            assert(done.take(i as int).last() == queue@[i - 1]@);
            i -= 1;
        }
        proof {
            if i > 0 {
                assert(done.take(i as int).last() == queue@[i - 1]@);
            }
            assert(i == queue_position(done, view.priority));
            assert(all.take(n + 1).drop_last() =~= all.take(n as int));
        }
        queue.insert(i, task);
        assert(records(queue@) =~= done.insert(i as int, view));
        n += 1;
    }
    assert(all.take(count as int) =~= all);
    queue
}

/// Whether tasks are in the order of their priority numbers.
pub open spec fn in_priority_order(tasks: Seq<TaskRecord>) -> bool {
    forall|i: int, j: int| 0 <= i < j < tasks.len() ==> tasks[i].priority <= tasks[j].priority
}

proof fn queue_position_divides(queue: Seq<TaskRecord>, priority: u32)
    requires
        in_priority_order(queue),
    ensures
        0 <= queue_position(queue, priority) <= queue.len(),
        forall|i: int|
            0 <= i < queue_position(queue, priority) ==> (#[trigger] queue[i]).priority
                <= priority,
        forall|i: int|
            queue_position(queue, priority) <= i < queue.len() ==> (#[trigger] queue[i]).priority
                > priority,
    decreases queue.len(),
{
    if queue.len() > 0 {
        if queue.last().priority <= priority {
            assert forall|i: int| 0 <= i < queue.len() implies (#[trigger] queue[i]).priority
                <= priority by {
                if i < queue.len() - 1 {
                    assert(queue[i].priority <= queue[queue.len() - 1].priority);
                }
            }
        } else {
            let init = queue.drop_last();
            assert(in_priority_order(init)) by {
                assert forall|i: int, j: int| 0 <= i < j < init.len() implies init[i].priority
                    <= init[j].priority by {
                    assert(init[i] == queue[i] && init[j] == queue[j]);
                }
            }
            queue_position_divides(init, priority);
            assert forall|i: int| queue_position(queue, priority) <= i < queue.len() implies (
            #[trigger] queue[i]).priority > priority by {
                if i < queue.len() - 1 {
                    assert(init[i] == queue[i]);
                }
            }
            assert forall|i: int| 0 <= i < queue_position(queue, priority) implies (
            #[trigger] queue[i]).priority <= priority by {
                assert(init[i] == queue[i]);
            }
        }
    }
}

/// Sorting keeps every task and puts the tasks in the order of their
/// priority numbers.
pub proof fn queue_is_ordered(tasks: Seq<TaskRecord>)
    ensures
        by_priority(tasks).len() == tasks.len(),
        in_priority_order(by_priority(tasks)),
    decreases tasks.len(),
{
    if tasks.len() > 0 {
        let queue = by_priority(tasks.drop_last());
        let t = tasks.last();
        queue_is_ordered(tasks.drop_last());
        queue_position_divides(queue, t.priority);
        let p = queue_position(queue, t.priority);
        let out = queue.insert(p, t);
        assert forall|i: int, j: int| 0 <= i < j < out.len() implies out[i].priority
            <= out[j].priority by {
            if j < p {
                assert(out[i] == queue[i] && out[j] == queue[j]);
            } else if j == p {
                assert(out[i] == queue[i]);
            } else if i < p {
                assert(out[i] == queue[i] && out[j] == queue[j - 1]);
            } else if i == p {
                assert(out[j] == queue[j - 1]);
            } else {
                assert(out[i] == queue[i - 1] && out[j] == queue[j - 1]);
            }
        }
    }
}

} // verus!
