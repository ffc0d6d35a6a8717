use vstd::prelude::*;
use vstd::string::*;
use crate::action::{Action, Impl};
use crate::args::{args_model, RtArgs};
use crate::context::TreeContext;
use crate::env::{async_poll, RtEnv, TaskState};
use crate::runtime::{tick_view, ErrorModel, Outcome, RuntimeError, Tick, TickResult};
use crate::table::{map_of, Table};

verus! {

pub open spec fn unimplemented_message(name: Seq<char>) -> Seq<char> {
    "the action "@ + name + " is not registered"@
}

/// What one tick of the named action does, given the registry, the task
/// table and the context before and after.
pub open spec fn on_tick_post<A: Impl>(
    actions: Map<Seq<char>, Action<A>>,
    name: String,
    args: RtArgs,
    env_before: RtEnv,
    env_after: RtEnv,
    ctx_before: TreeContext,
    ctx_after: TreeContext,
    r: Result<Outcome, ErrorModel>,
) -> bool {
    if !actions.contains_key(name@) {
        &&& r == Err::<Outcome, ErrorModel>(
            ErrorModel::UnImplementedAction(unimplemented_message(name@)),
        )
        &&& env_after == env_before
        &&& ctx_after == ctx_before
    } else {
        match actions[name@] {
            Action::Sync(a) => {
                &&& a.tick_post(
                    args_model(&args),
                    ctx_before.tick,
                    ctx_before.bb@,
                    ctx_after.bb@,
                    r,
                )
                &&& ctx_after.tick == ctx_before.tick
                &&& env_after == env_before
            },
            Action::Async(_) => {
                let (tasks, outcome, submitted) = async_poll(env_before.tasks(), name@);
                &&& env_after.tasks() == tasks
                &&& r == outcome
                &&& env_after.jobs() == if submitted {
                    env_before.jobs().push(
                        crate::env::Job { name, args, tick: ctx_before.tick },
                    )
                } else {
                    env_before.jobs()
                }
                &&& ctx_after == ctx_before
            },
        }
    }
}

/// The registry of actions by name; it runs a synchronous action in place
/// and an asynchronous one through the task table.
pub struct ActionKeeper<A> {
    actions: Table<Action<A>>,
}

impl<A: Impl> View for ActionKeeper<A> {
    type V = Map<Seq<char>, Action<A>>;

    closed spec fn view(&self) -> Map<Seq<char>, Action<A>> {
        self.actions@
    }
}

/// An action is ready to run, whichever way it is registered.
pub open spec fn action_ready<A: Impl>(a: Action<A>) -> bool {
    match a {
        Action::Sync(x) => x.ready(),
        Action::Async(x) => x.ready(),
    }
}

impl<A: Impl> ActionKeeper<A> {
    pub closed spec fn wf(&self) -> bool {
        self.actions.wf()
    }

    /// Every registered action can run.
    pub open spec fn all_ready(&self) -> bool {
        forall|k: Seq<char>| #[trigger] self@.contains_key(k) ==> action_ready(self@[k])
    }

    /// A registry of the given actions; a later one under a name wins.
    pub fn new(actions: Vec<(String, Action<A>)>) -> (r: Result<Self, RuntimeError>)
        ensures
            r matches Ok(k) && k.wf() && k@ == map_of(
                actions@.map_values(|e: (String, Action<A>)| (e.0@, e.1)),
            ),
    {
        Ok(Self { actions: Table::from_entries(actions) })
    }

    fn get_action(&self, name: &String) -> (r: Result<&Action<A>, RuntimeError>)
        requires
            self.wf(),
        ensures
            match r {
                Ok(a) => self@.contains_key(name@) && *a == self@[name@],
                Err(e) => !self@.contains_key(name@) && e@ == ErrorModel::UnImplementedAction(
                    unimplemented_message(name@),
                ),
            },
    {
        match self.actions.get(name) {
            Some(a) => Ok(a),
            None => {
                proof {
                    reveal_strlit("the action ");
                    reveal_strlit(" is not registered");
                }
                Err(
                    RuntimeError::UnImplementedAction(
                        String::from_str("the action ").concat(name.as_str()).concat(
                            " is not registered",
                        ),
                    ),
                )
            },
        }
    }

    /// The action registered under a name.
    pub fn action(&self, name: &String) -> (r: Option<&Action<A>>)
        requires
            self.wf(),
        ensures
            match r {
                Some(a) => self@.contains_key(name@) && *a == self@[name@],
                None => !self@.contains_key(name@),
            },
    {
        self.actions.get(name)
    }

    /// Registers an action under a name; one already there is replaced.
    pub fn register(&mut self, name: String, action: Action<A>) -> (r: Result<(), RuntimeError>)
        requires
            old(self).wf(),
        ensures
            final(self).wf(),
            final(self)@ == old(self)@.insert(name@, action),
            r is Ok,
    {
        self.actions.insert(name, action);
        Ok(())
    }

    /// Ticks the named action once. A synchronous action runs now. An
    /// asynchronous one is submitted as a task on its first tick, polled
    /// while the task is in flight, and yields the task's result on the tick
    /// after it finished.
    pub fn on_tick(&self, env: &mut RtEnv, name: &String, args: RtArgs, ctx: &mut TreeContext) -> (r:
        Tick)
        requires
            self.wf(),
            self.all_ready(),
            old(env).wf(),
            old(ctx).wf(),
        ensures
            final(env).wf(),
            final(ctx).wf(),
            on_tick_post(self@, *name, args, *old(env), *final(env), *old(ctx), *final(ctx), tick_view(r)),
    {
        match self.get_action(name) {
            Err(e) => Err(e),
            Ok(Action::Sync(action)) => action.tick(args, ctx),
            Ok(Action::Async(_)) => match env.task_state(name) {
                TaskState::Absent => {
                    env.start(name.clone(), args, ctx.current_tick());
                    proof {
                        assert(env.tasks() =~= old(env).tasks().insert(
                            name@,
                            crate::env::TaskEntry::Started,
                        ));
                    }
                    Ok(TickResult::running())
                },
                TaskState::Started => {
                    env.restore(name.clone());
                    proof {
                        assert(env.tasks() =~= old(env).tasks());
                    }
                    Ok(TickResult::running())
                },
                TaskState::Finished(r) => r,
            },
        }
    }
}

} // verus!
