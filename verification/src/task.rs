//! Work items that pass through a fixed sequence of stages, one stage at a
//! time.

use vstd::prelude::*;
use crate::models::{clone_opt, opt_chars};
use crate::path::{join, joined};
use crate::text::{chars_of, push_str, string_of};

verus! {

#[derive(Debug, Clone, Copy, PartialEq, Eq, Structural)]
pub enum Status {
    Pending,
    InProgress,
    Done,
    Failed,
}

#[derive(Debug, Clone, Copy, PartialEq, Eq, Structural)]
pub enum TaskType {
    Bug,
    Feature,
}

/// The stages that a task can pass through. Their order here is the order
/// in which a task's stage table lists them.
#[derive(Debug, Clone, Copy, PartialEq, Eq, Hash, PartialOrd, Ord, Structural)]
pub enum Stage {
    Design,
    Reproduce,
    Test,
    Fix,
    Impl,
    Verify,
}

/// The stages of a kind of task, in the order in which they are run.
pub open spec fn stages_of(task_type: TaskType) -> Seq<Stage> {
    match task_type {
        TaskType::Bug => seq![Stage::Reproduce, Stage::Test, Stage::Fix, Stage::Verify],
        TaskType::Feature => seq![Stage::Design, Stage::Test, Stage::Impl, Stage::Verify],
    }
}

impl TaskType {
    /// The stages of this kind of task, in the order in which they are run.
    pub fn stages(self) -> (r: Vec<Stage>)
        ensures
            r@ == stages_of(self),
    {
        let mut r: Vec<Stage> = Vec::new();
        match self {
            TaskType::Bug => {
                r.push(Stage::Reproduce);
                r.push(Stage::Test);
                r.push(Stage::Fix);
                r.push(Stage::Verify);
            },
            TaskType::Feature => {
                r.push(Stage::Design);
                r.push(Stage::Test);
                r.push(Stage::Impl);
                r.push(Stage::Verify);
            },
        }
        assert(r@ =~= stages_of(self));
        r
    }

    /// The name of this kind of task.
    pub fn name(self) -> (r: &'static str)
        ensures
            r@ == (match self {
                TaskType::Bug => "bug"@,
                TaskType::Feature => "feature"@,
            }),
    {
        match self {
            TaskType::Bug => "bug",
            TaskType::Feature => "feature",
        }
    }
}

/// The name of a stage.
pub open spec fn stage_name(stage: Stage) -> Seq<char> {
    match stage {
        Stage::Design => "design"@,
        Stage::Reproduce => "reproduce"@,
        Stage::Test => "test"@,
        Stage::Fix => "fix"@,
        Stage::Impl => "impl"@,
        Stage::Verify => "verify"@,
    }
}

impl Stage {
    /// The name of the stage.
    pub fn name(self) -> (r: &'static str)
        ensures
            r@ == stage_name(self),
    {
        match self {
            Stage::Design => "design",
            Stage::Reproduce => "reproduce",
            Stage::Test => "test",
            Stage::Fix => "fix",
            Stage::Impl => "impl",
            Stage::Verify => "verify",
        }
    }
}

/// How far one stage of a task has come.
#[derive(Debug)]
pub struct StageState {
    pub status: Status,
    pub change_id: Option<String>,
    pub retries: u32,
}

pub struct StageStateView {
    pub status: Status,
    pub change_id: Option<Seq<char>>,
    pub retries: u32,
}

impl View for StageState {
    type V = StageStateView;

    open spec fn view(&self) -> StageStateView {
        StageStateView {
            status: self.status,
            change_id: opt_chars(self.change_id),
            retries: self.retries,
        }
    }
}

impl Clone for StageState {
    fn clone(&self) -> (r: Self)
        ensures
            r@ == self@,
    {
        StageState {
            status: self.status,
            change_id: clone_opt(&self.change_id),
            retries: self.retries,
        }
    }
}

/// The states of the stages of one task, at most one for each stage.
#[derive(Debug)]
pub struct StageTable {
    design: Option<StageState>,
    reproduce: Option<StageState>,
    test: Option<StageState>,
    fix: Option<StageState>,
    implement: Option<StageState>,
    verify: Option<StageState>,
}

/// The view of an optional stage state.
pub open spec fn opt_state(s: Option<StageState>) -> Option<StageStateView> {
    match s {
        Some(state) => Some(state@),
        None => None,
    }
}

impl StageTable {
    /// The state of `stage`, if the table has one.
    pub closed spec fn state_of(&self, stage: Stage) -> Option<StageStateView> {
        match stage {
            Stage::Design => opt_state(self.design),
            Stage::Reproduce => opt_state(self.reproduce),
            Stage::Test => opt_state(self.test),
            Stage::Fix => opt_state(self.fix),
            Stage::Impl => opt_state(self.implement),
            Stage::Verify => opt_state(self.verify),
        }
    }

    /// A table without any state.
    pub fn new() -> (r: Self)
        ensures
            forall|stage: Stage| r.state_of(stage) is None,
    {
        StageTable {
            design: None,
            reproduce: None,
            test: None,
            fix: None,
            implement: None,
            verify: None,
        }
    }

    /// The state of `stage`, if the table has one.
    pub fn get(&self, stage: Stage) -> (r: Option<&StageState>)
        ensures
            match r {
                Some(state) => self.state_of(stage) == Some(state@),
                None => self.state_of(stage) is None,
            },
    {
        match stage {
            Stage::Design => self.design.as_ref(),
            Stage::Reproduce => self.reproduce.as_ref(),
            Stage::Test => self.test.as_ref(),
            Stage::Fix => self.fix.as_ref(),
            Stage::Impl => self.implement.as_ref(),
            Stage::Verify => self.verify.as_ref(),
        }
    }

    /// Sets the state of `stage`, and returns the state it had.
    pub fn insert(&mut self, stage: Stage, state: StageState) -> (previous: Option<StageState>)
        ensures
            final(self).state_of(stage) == Some(state@),
            forall|other: Stage| other != stage ==> final(self).state_of(other) == old(self).state_of(other),
            opt_state(previous) == old(self).state_of(stage),
    {
        match stage {
            Stage::Design => { let previous = self.design.take(); self.design = Some(state); previous },
            Stage::Reproduce => { let previous = self.reproduce.take(); self.reproduce = Some(state); previous },
            Stage::Test => { let previous = self.test.take(); self.test = Some(state); previous },
            Stage::Fix => { let previous = self.fix.take(); self.fix = Some(state); previous },
            Stage::Impl => { let previous = self.implement.take(); self.implement = Some(state); previous },
            Stage::Verify => { let previous = self.verify.take(); self.verify = Some(state); previous },
        }
    }

    /// Takes the state of `stage` out of the table.
    pub fn remove(&mut self, stage: Stage) -> (previous: Option<StageState>)
        ensures
            final(self).state_of(stage) is None,
            forall|other: Stage| other != stage ==> final(self).state_of(other) == old(self).state_of(other),
            opt_state(previous) == old(self).state_of(stage),
    {
        match stage {
            Stage::Design => self.design.take(),
            Stage::Reproduce => self.reproduce.take(),
            Stage::Test => self.test.take(),
            Stage::Fix => self.fix.take(),
            Stage::Impl => self.implement.take(),
            Stage::Verify => self.verify.take(),
        }
    }
}

fn clone_state(state: &Option<StageState>) -> (r: Option<StageState>)
    ensures
        opt_state(r) == opt_state(*state),
{
    match state {
        Some(s) => Some(s.clone()),
        None => None,
    }
}

impl Clone for StageTable {
    fn clone(&self) -> (r: Self)
        ensures
            forall|stage: Stage| r.state_of(stage) == self.state_of(stage),
    {
        StageTable {
            design: clone_state(&self.design),
            reproduce: clone_state(&self.reproduce),
            test: clone_state(&self.test),
            fix: clone_state(&self.fix),
            implement: clone_state(&self.implement),
            verify: clone_state(&self.verify),
        }
    }
}

impl View for StageTable {
    type V = Map<Stage, StageStateView>;

    open spec fn view(&self) -> Map<Stage, StageStateView> {
        Map::new(|stage: Stage| self.state_of(stage) is Some, |stage: Stage| self.state_of(stage)->0)
    }
}

/// The views of a list of strings, in order.
pub open spec fn string_views(strings: Seq<String>) -> Seq<Seq<char>> {
    strings.map_values(|s: String| s@)
}

/// A unit of work with its place in the queue and the state of each of its
/// stages.
#[derive(Debug)]
pub struct Task {
    pub id: String,
    pub priority: u32,
    pub task_type: TaskType,
    pub status: Status,
    pub title: String,
    pub description: String,
    /// The ids of the tasks that have to be done before this one.
    pub blockers: Vec<String>,
    pub stages: StageTable,
    pub context_files: Vec<String>,
    pub error: Option<String>,
    /// Whether the stages that reproduce and test may reach the network.
    pub allow_network: bool,
}

pub struct TaskRecord {
    pub id: Seq<char>,
    pub priority: u32,
    pub task_type: TaskType,
    pub status: Status,
    pub title: Seq<char>,
    pub description: Seq<char>,
    pub blockers: Seq<Seq<char>>,
    pub stages: Map<Stage, StageStateView>,
    pub context_files: Seq<Seq<char>>,
    pub error: Option<Seq<char>>,
    pub allow_network: bool,
}

impl View for Task {
    type V = TaskRecord;

    open spec fn view(&self) -> TaskRecord {
        TaskRecord {
            id: self.id@,
            priority: self.priority,
            task_type: self.task_type,
            status: self.status,
            title: self.title@,
            description: self.description@,
            blockers: string_views(self.blockers@),
            stages: self.stages@,
            context_files: string_views(self.context_files@),
            error: opt_chars(self.error),
            allow_network: self.allow_network,
        }
    }
}

/// Copies a list of strings.
pub fn clone_strings(strings: &Vec<String>) -> (r: Vec<String>)
    ensures
        string_views(r@) == string_views(strings@),
{
    let mut r: Vec<String> = Vec::new();
    let mut i: usize = 0;
    while i < strings.len()
        invariant
            i <= strings.len(),
            r@.len() == i,
            forall|j: int| 0 <= j < i ==> (#[trigger] r@[j])@ == strings@[j]@,
        decreases strings.len() - i,
    {
        r.push(strings[i].clone());
        i += 1;
    }
    assert(string_views(r@) =~= string_views(strings@));
    r
}

impl Clone for Task {
    fn clone(&self) -> (r: Self)
        ensures
            r@ == self@,
    {
        let r = Task {
            id: self.id.clone(),
            priority: self.priority,
            task_type: self.task_type,
            status: self.status,
            title: self.title.clone(),
            description: self.description.clone(),
            blockers: clone_strings(&self.blockers),
            stages: self.stages.clone(),
            context_files: clone_strings(&self.context_files),
            error: clone_opt(&self.error),
            allow_network: self.allow_network,
        };
        assert(r.stages@ =~= self.stages@);
        r
    }
}

/// The views of a list of tasks, in order.
pub open spec fn records(tasks: Seq<Task>) -> Seq<TaskRecord> {
    tasks.map_values(|t: Task| t@)
}

/// The directory that holds the tasks.
pub open spec fn task_dir() -> Seq<char> {
    "var/tasks"@
}

/// The first task among `tasks` with the id `id`, if there is one.
pub open spec fn first_with_id(tasks: Seq<TaskRecord>, id: Seq<char>) -> Option<TaskRecord>
    decreases tasks.len(),
{
    if tasks.len() == 0 {
        None
    } else if tasks[0].id == id {
        Some(tasks[0])
    } else {
        first_with_id(tasks.drop_first(), id)
    }
}

/// Whether the task with the id `id` is known and done.
pub open spec fn is_done(tasks: Seq<TaskRecord>, id: Seq<char>) -> bool {
    first_with_id(tasks, id) is Some && first_with_id(tasks, id)->0.status == Status::Done
}

/// Whether a task can be worked on: it is neither done nor failed, and each
/// of its blockers is known and done.
pub open spec fn runnable(task: TaskRecord, tasks: Seq<TaskRecord>) -> bool {
    task.status != Status::Done && task.status != Status::Failed && forall|i: int|
        0 <= i < task.blockers.len() ==> is_done(tasks, #[trigger] task.blockers[i])
}

/// Whether a stage is still to be run: it has a state, and the state is
/// pending or in progress.
pub open spec fn is_open(stages: Map<Stage, StageStateView>, stage: Stage) -> bool {
    stages.contains_key(stage) && (stages[stage].status == Status::Pending || stages[stage].status
        == Status::InProgress)
}

/// The first of `order` that is still to be run.
pub open spec fn first_open(stages: Map<Stage, StageStateView>, order: Seq<Stage>) -> Option<Stage>
    decreases order.len(),
{
    if order.len() == 0 {
        None
    } else if is_open(stages, order[0]) {
        Some(order[0])
    } else {
        first_open(stages, order.drop_first())
    }
}

/// Whether every stage of `order` has a state and is done.
pub open spec fn all_done(stages: Map<Stage, StageStateView>, order: Seq<Stage>) -> bool {
    forall|i: int|
        0 <= i < order.len() ==> stages.contains_key(#[trigger] order[i]) && stages[order[i]].status
            == Status::Done
}

/// The table after the state of `stage`, where it has one, was replaced by
/// `state`.
pub open spec fn with_state(
    stages: Map<Stage, StageStateView>,
    stage: Stage,
    state: StageStateView,
) -> Map<Stage, StageStateView> {
    if stages.contains_key(stage) {
        stages.insert(stage, state)
    } else {
        stages
    }
}

fn is_done_in(tasks: &[Task], id: &String) -> (r: bool)
    ensures
        r == is_done(records(tasks@), id@),
{
    let ghost all = records(tasks@);
    let mut i: usize = 0;
    assert(all.skip(0) =~= all);
    while i < tasks.len()
        invariant
            i <= tasks.len(),
            all == records(tasks@),
            first_with_id(all, id@) == first_with_id(all.skip(i as int), id@),
        decreases tasks.len() - i,
    {
        assert(all.skip(i as int).drop_first() =~= all.skip(i + 1));
        assert(all.skip(i as int)[0] == tasks@[i as int]@);
        if tasks[i].id == *id {
            return matches!(tasks[i].status, Status::Done);
        }
        i += 1;
    }
    false
}

impl Task {
    /// The path of the file that holds the task with the id `id`.
    pub fn path_for_id(id: &str) -> (r: String)
        ensures
            r@ == joined(task_dir(), id@ + ".json"@),
    {
        let mut name = chars_of(id);
        push_str(&mut name, ".json");
        string_of(&join(&chars_of("var/tasks"), &name))
    }

    /// Whether the task can be worked on, given all tasks.
    pub fn is_runnable(&self, all_tasks: &[Task]) -> (r: bool)
        ensures
            r == runnable(self@, records(all_tasks@)),
    {
        if matches!(self.status, Status::Done | Status::Failed) {
            return false;
        }
        let mut i: usize = 0;
        while i < self.blockers.len()
            invariant
                i <= self.blockers.len(),
                forall|j: int|
                    0 <= j < i ==> is_done(records(all_tasks@), #[trigger] self@.blockers[j]),
            decreases self.blockers.len() - i,
        {
            assert(self@.blockers[i as int] == self.blockers@[i as int]@);
            if !is_done_in(all_tasks, &self.blockers[i]) {
                return false;
            }
            i += 1;
        }
        true
    }

    /// The stage to run next: the first of the task's kind that is pending
    /// or in progress.
    pub fn next_stage(&self) -> (r: Option<Stage>)
        ensures
            r == first_open(self@.stages, stages_of(self.task_type)),
    {
        let order = self.task_type.stages();
        let mut i: usize = 0;
        assert(order@.skip(0) =~= order@);
        while i < order.len()
            invariant
                i <= order.len(),
                order@ == stages_of(self.task_type),
                first_open(self@.stages, order@) == first_open(
                    self@.stages,
                    order@.skip(i as int),
                ),
            decreases order.len() - i,
        {
            assert(order@.skip(i as int).drop_first() =~= order@.skip(i + 1));
            let open = match self.stages.get(order[i]) {
                Some(state) => matches!(state.status, Status::Pending | Status::InProgress),
                None => false,
            };
            if open {
                return Some(order[i]);
            }
            i += 1;
        }
        None
    }

    /// Whether every stage of the task's kind is done.
    pub fn all_stages_done(&self) -> (r: bool)
        ensures
            r == all_done(self@.stages, stages_of(self.task_type)),
    {
        let order = self.task_type.stages();
        let mut i: usize = 0;
        while i < order.len()
            invariant
                i <= order.len(),
                order@ == stages_of(self.task_type),
                all_done(self@.stages, order@.take(i as int)),
            decreases order.len() - i,
        {
            let done = match self.stages.get(order[i]) {
                Some(state) => matches!(state.status, Status::Done),
                None => false,
            };
            if !done {
                return false;
            }
            assert forall|j: int| 0 <= j < i + 1 implies self@.stages.contains_key(
                #[trigger] order@.take(i + 1)[j],
            ) && self@.stages[order@.take(i + 1)[j]].status == Status::Done by {
                if j < i {
                    assert(order@.take(i as int)[j] == order@.take(i + 1)[j]);
                }
            }
            i += 1;
        }
        assert(order@.take(order@.len() as int) =~= order@);
        true
    }

    /// Sets the status of a stage. A stage without a state stays without.
    pub fn set_stage_status(&mut self, stage: Stage, status: Status)
        ensures
            final(self)@ == (TaskRecord {
                stages: if old(self)@.stages.contains_key(stage) {
                    old(self)@.stages.insert(
                        stage,
                        StageStateView { status, ..old(self)@.stages[stage] },
                    )
                } else {
                    old(self)@.stages
                },
                ..old(self)@
            }),
    {
        match self.stages.remove(stage) {
            Some(state) => {
                let next = StageState { status, change_id: state.change_id, retries: state.retries };
                self.stages.insert(stage, next);
                assert(self.stages@ =~= old(self)@.stages.insert(
                    stage,
                    StageStateView { status, ..old(self)@.stages[stage] },
                ));
            },
            None => {
                assert(self.stages@ =~= old(self)@.stages);
            },
        }
    }

    /// Records the change that a stage produced. A stage without a state
    /// stays without.
    pub fn set_stage_change_id(&mut self, stage: Stage, change_id: String)
        ensures
            final(self)@ == (TaskRecord {
                stages: if old(self)@.stages.contains_key(stage) {
                    old(self)@.stages.insert(
                        stage,
                        StageStateView {
                            change_id: Some(change_id@),
                            ..old(self)@.stages[stage]
                        },
                    )
                } else {
                    old(self)@.stages
                },
                ..old(self)@
            }),
    {
        match self.stages.remove(stage) {
            Some(state) => {
                let next = StageState {
                    status: state.status,
                    change_id: Some(change_id),
                    retries: state.retries,
                };
                self.stages.insert(stage, next);
                assert(self.stages@ =~= old(self)@.stages.insert(
                    stage,
                    StageStateView { change_id: Some(change_id@), ..old(self)@.stages[stage] },
                ));
            },
            None => {
                assert(self.stages@ =~= old(self)@.stages);
            },
        }
    }

    /// Forgets the change that a stage produced.
    pub fn clear_stage_change_id(&mut self, stage: Stage)
        ensures
            final(self)@ == (TaskRecord {
                stages: if old(self)@.stages.contains_key(stage) {
                    old(self)@.stages.insert(
                        stage,
                        StageStateView { change_id: None, ..old(self)@.stages[stage] },
                    )
                } else {
                    old(self)@.stages
                },
                ..old(self)@
            }),
    {
        match self.stages.remove(stage) {
            Some(state) => {
                let next = StageState {
                    status: state.status,
                    change_id: None,
                    retries: state.retries,
                };
                self.stages.insert(stage, next);
                assert(self.stages@ =~= old(self)@.stages.insert(
                    stage,
                    StageStateView { change_id: None, ..old(self)@.stages[stage] },
                ));
            },
            None => {
                assert(self.stages@ =~= old(self)@.stages);
            },
        }
    }

    /// How often a stage has been tried again; 0 for a stage without a
    /// state.
    pub fn stage_retries(&self, stage: Stage) -> (r: u32)
        ensures
            r == (if self@.stages.contains_key(stage) {
                self@.stages[stage].retries
            } else {
                0
            }),
    {
        match self.stages.get(stage) {
            Some(state) => state.retries,
            None => 0,
        }
    }

    /// Counts one more try of a stage. A stage without a state stays
    /// without.
    pub fn increment_stage_retries(&mut self, stage: Stage)
        requires
            old(self)@.stages.contains_key(stage) ==> old(self)@.stages[stage].retries < u32::MAX,
        ensures
            final(self)@ == (TaskRecord {
                stages: if old(self)@.stages.contains_key(stage) {
                    old(self)@.stages.insert(
                        stage,
                        StageStateView {
                            retries: (old(self)@.stages[stage].retries + 1) as u32,
                            ..old(self)@.stages[stage]
                        },
                    )
                } else {
                    old(self)@.stages
                },
                ..old(self)@
            }),
    {
        match self.stages.remove(stage) {
            Some(state) => {
                let next = StageState {
                    status: state.status,
                    change_id: state.change_id,
                    retries: state.retries + 1,
                };
                self.stages.insert(stage, next);
                assert(self.stages@ =~= old(self)@.stages.insert(
                    stage,
                    StageStateView {
                        retries: (old(self)@.stages[stage].retries + 1) as u32,
                        ..old(self)@.stages[stage]
                    },
                ));
            },
            None => {
                assert(self.stages@ =~= old(self)@.stages);
            },
        }
    }
}

} // verus!
