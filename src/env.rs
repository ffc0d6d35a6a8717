use vstd::prelude::*;
use crate::args::RtArgs;
use crate::runtime::{tick_view, ErrorModel, Outcome, Tick};
use crate::table::Table;

verus! {

/// Where an asynchronous action's task stands in the task table.
pub enum TaskEntry {
    Started,
    Finished(Tick),
}

/// What polling the task table for an action name found.
pub enum TaskState {
    Absent,
    Started,
    Finished(Tick),
}

/// A task to hand to a worker: run the named action with these arguments,
/// as of this tick.
pub struct Job {
    pub name: String,
    pub args: RtArgs,
    pub tick: usize,
}

/// The runtime environment: the table of asynchronous tasks in flight, keyed
/// by action name, and the jobs submitted to the workers and not yet taken
/// up by them.
pub struct RtEnv {
    tasks: Table<TaskEntry>,
    jobs: Vec<Job>,
}

/// One poll of an asynchronous action in a task table: the table after it,
/// what the tick yields, and whether a new task was submitted.
pub open spec fn async_poll(tasks: Map<Seq<char>, TaskEntry>, name: Seq<char>) -> (
    Map<Seq<char>, TaskEntry>,
    Result<Outcome, ErrorModel>,
    bool,
) {
    if !tasks.contains_key(name) {
        (tasks.insert(name, TaskEntry::Started), Ok(Outcome::Running), true)
    } else {
        match tasks[name] {
            TaskEntry::Started => (tasks, Ok(Outcome::Running), false),
            TaskEntry::Finished(r) => (tasks.remove(name), tick_view(r), false),
        }
    }
}

/// A worker reporting its result: only a started task takes it.
pub open spec fn finish_spec(tasks: Map<Seq<char>, TaskEntry>, name: Seq<char>, r: Tick) -> Map<
    Seq<char>,
    TaskEntry,
> {
    if tasks.contains_key(name) && tasks[name] is Started {
        tasks.insert(name, TaskEntry::Finished(r))
    } else {
        tasks
    }
}

impl RtEnv {
    pub closed spec fn wf(&self) -> bool {
        self.tasks.wf()
    }

    /// The task table.
    pub closed spec fn tasks(&self) -> Map<Seq<char>, TaskEntry> {
        self.tasks@
    }

    /// The jobs submitted and not yet taken.
    pub closed spec fn jobs(&self) -> Seq<Job> {
        self.jobs@
    }

    pub fn new() -> (r: RtEnv)
        ensures
            r.wf(),
            r.tasks() == Map::<Seq<char>, TaskEntry>::empty(),
            r.jobs() == Seq::<Job>::empty(),
    {
        RtEnv { tasks: Table::new(), jobs: Vec::new() }
    }

    /// Takes the entry for an action name out of the task table and says
    /// what it was.
    pub fn task_state(&mut self, name: &String) -> (r: TaskState)
        requires
            old(self).wf(),
        ensures
            final(self).wf(),
            final(self).tasks() == old(self).tasks().remove(name@),
            final(self).jobs() == old(self).jobs(),
            !old(self).tasks().contains_key(name@) ==> r is Absent,
            old(self).tasks().contains_key(name@) ==> match old(self).tasks()[name@] {
                TaskEntry::Started => r is Started,
                TaskEntry::Finished(t) => r == TaskState::Finished(t),
            },
    {
        match self.tasks.remove(name) {
            None => TaskState::Absent,
            Some(TaskEntry::Started) => TaskState::Started,
            Some(TaskEntry::Finished(t)) => TaskState::Finished(t),
        }
    }

    /// Records that a task for `name` is in flight.
    pub(crate) fn start(&mut self, name: String, args: RtArgs, tick: usize)
        requires
            old(self).wf(),
        ensures
            final(self).wf(),
            final(self).tasks() == old(self).tasks().insert(name@, TaskEntry::Started),
            final(self).jobs() == old(self).jobs().push(Job { name, args, tick }),
    {
        let n = name.clone();
        self.tasks.insert(n, TaskEntry::Started);
        self.jobs.push(Job { name, args, tick });
    }

    /// Puts back the entry of a task still in flight.
    pub(crate) fn restore(&mut self, name: String)
        requires
            old(self).wf(),
        ensures
            final(self).wf(),
            final(self).tasks() == old(self).tasks().insert(name@, TaskEntry::Started),
            final(self).jobs() == old(self).jobs(),
    {
        self.tasks.insert(name, TaskEntry::Started);
    }

    /// A worker's result for the task of `name`. Only a started task takes
    /// it; the answer says whether one did.
    pub fn finish(&mut self, name: String, result: Tick) -> (r: bool)
        requires
            old(self).wf(),
        ensures
            final(self).wf(),
            final(self).tasks() == finish_spec(old(self).tasks(), name@, result),
            final(self).jobs() == old(self).jobs(),
            r == (old(self).tasks().contains_key(name@) && old(self).tasks()[name@] is Started),
    {
        let started = match self.tasks.get(&name) {
            Some(TaskEntry::Started) => true,
            _ => false,
        };
        if started {
            self.tasks.insert(name, TaskEntry::Finished(result));
        }
        started
    }

    /// Hands the submitted jobs over to whoever runs them.
    pub fn take_jobs(&mut self) -> (r: Vec<Job>)
        requires
            old(self).wf(),
        ensures
            final(self).wf(),
            final(self).tasks() == old(self).tasks(),
            final(self).jobs() == Seq::<Job>::empty(),
            r@ == old(self).jobs(),
    {
        let mut out: Vec<Job> = Vec::new();
        std::mem::swap(&mut out, &mut self.jobs);
        out
    }

    /// Whether a task for `name` is in the table, running or finished.
    pub fn has_task(&self, name: &String) -> (r: bool)
        requires
            self.wf(),
        ensures
            r == self.tasks().contains_key(name@),
    {
        self.tasks.get(name).is_some()
    }

    /// How many jobs wait to be taken up.
    pub fn pending_jobs(&self) -> (r: usize)
        ensures
            r == self.jobs().len(),
    {
        self.jobs.len()
    }
}

} // verus!

verus! {

/// The life of an asynchronous action's task: the first poll submits one
/// task and yields `Running`; polls while it is in flight yield `Running`
/// and submit nothing; the poll after the worker reported yields the
/// worker's result and clears the entry, so the next poll submits afresh.
pub proof fn law_async_lifecycle(tasks: Map<Seq<char>, TaskEntry>, name: Seq<char>, result: Tick)
    requires
        !tasks.contains_key(name),
    ensures
        async_poll(tasks, name).1 == Ok::<Outcome, ErrorModel>(Outcome::Running),
        async_poll(tasks, name).2,
        async_poll(tasks, name).0 == tasks.insert(name, TaskEntry::Started),
        async_poll(async_poll(tasks, name).0, name) == (
            async_poll(tasks, name).0,
            Ok::<Outcome, ErrorModel>(Outcome::Running),
            false,
        ),
        async_poll(finish_spec(async_poll(tasks, name).0, name, result), name) == (
            tasks,
            tick_view(result),
            false,
        ),
{
    let t1 = tasks.insert(name, TaskEntry::Started);
    let t2 = t1.insert(name, TaskEntry::Finished(result));
    assert(t2.remove(name) =~= tasks);
}

} // verus!
