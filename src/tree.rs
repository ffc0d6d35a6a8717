use vstd::prelude::*;
use vstd::string::*;
use crate::action::Impl;
use crate::args::{args_model, RtArgs};
use crate::context::{Tracer, TreeContext};
use crate::env::RtEnv;
use crate::keeper::{on_tick_post, ActionKeeper};
use crate::runtime::{tick_view, ErrorModel, Outcome, RuntimeError, Tick, TickResult};

verus! {

/// When a parallel node is done.
pub enum ParallelPolicy {
    /// Succeeds when every child succeeded; fails as soon as one fails.
    AllSucceed,
    /// Succeeds as soon as one child succeeds; fails when every child failed.
    AnySucceed,
}

/// A node of the tree. Children are addressed by their index in the arena,
/// and each child stands after its parent.
pub enum Node {
    /// A leaf that runs the registered action of this name.
    Action(String, RtArgs),
    Sequence(Vec<usize>),
    Fallback(Vec<usize>),
    Parallel(Vec<usize>, ParallelPolicy),
    /// A decorator that swaps success and failure.
    Inverter(usize),
}

pub open spec fn children_of(n: Node) -> Seq<usize> {
    match n {
        Node::Action(_, _) => Seq::empty(),
        Node::Sequence(c) => c@,
        Node::Fallback(c) => c@,
        Node::Parallel(c, _) => c@,
        Node::Inverter(c) => seq![c],
    }
}

/// Every child index points into the arena, after its parent.
pub open spec fn nodes_wf(nodes: Seq<Node>) -> bool {
    forall|i: int, j: int|
        0 <= i < nodes.len() && 0 <= j < children_of(nodes[i]).len() ==> i
            < #[trigger] children_of(nodes[i])[j] < nodes.len()
}

/// A cursor is at rest, or on one of the node's children.
pub open spec fn cursors_wf(nodes: Seq<Node>, cursors: Seq<usize>) -> bool {
    &&& cursors.len() == nodes.len()
    &&& forall|i: int|
        0 <= i < nodes.len() ==> #[trigger] cursors[i] == 0 || cursors[i] < children_of(
            nodes[i],
        ).len()
}

/// The reason an inverted success fails.
pub open spec fn inverted_message() -> Seq<char> {
    "the child succeeded"@
}

pub open spec fn invert_spec(r: Result<Outcome, ErrorModel>) -> Result<Outcome, ErrorModel> {
    match r {
        Ok(Outcome::Success) => Ok(Outcome::Failure(inverted_message())),
        Ok(Outcome::Failure(_)) => Ok(Outcome::Success),
        other => other,
    }
}

/// The inverter's mapping: success and failure swap, running and errors
/// pass through.
pub fn invert(r: Tick) -> (out: Tick)
    ensures
        tick_view(out) == invert_spec(tick_view(r)),
{
    proof {
        reveal_strlit("the child succeeded");
    }
    match r {
        Ok(TickResult::Success) => Ok(TickResult::Failure(String::from_str("the child succeeded"))),
        Ok(TickResult::Failure(_)) => Ok(TickResult::Success),
        other => other,
    }
}

pub open spec fn no_success_message() -> Seq<char> {
    "no child succeeded"@
}

/// What a parallel node yields once every child was ticked without error:
/// whether one succeeded, the reason of the first failure if one failed,
/// and whether one is still running.
pub open spec fn parallel_spec(
    policy: ParallelPolicy,
    any_success: bool,
    first_failure: Option<Seq<char>>,
    any_running: bool,
) -> Outcome {
    match policy {
        ParallelPolicy::AllSucceed => match first_failure {
            Some(m) => Outcome::Failure(m),
            None => if any_running {
                Outcome::Running
            } else {
                Outcome::Success
            },
        },
        ParallelPolicy::AnySucceed => if any_success {
            Outcome::Success
        } else if any_running {
            Outcome::Running
        } else {
            Outcome::Failure(no_success_message())
        },
    }
}

pub fn parallel_verdict(
    policy: &ParallelPolicy,
    any_success: bool,
    first_failure: Option<String>,
    any_running: bool,
) -> (r: TickResult)
    ensures
        r@ == parallel_spec(*policy, any_success, opt_text(first_failure), any_running),
{
    proof {
        reveal_strlit("no child succeeded");
    }
    match policy {
        ParallelPolicy::AllSucceed => match first_failure {
            Some(m) => TickResult::Failure(m),
            None => if any_running {
                TickResult::Running
            } else {
                TickResult::Success
            },
        },
        ParallelPolicy::AnySucceed => if any_success {
            TickResult::Success
        } else if any_running {
            TickResult::Running
        } else {
            TickResult::Failure(String::from_str("no child succeeded"))
        },
    }
}

/// The result of a tick, in the model.
pub type Recorded = Result<Outcome, ErrorModel>;

/// What a tick of a node acts on and leaves behind: the resumption cursors,
/// the task table and the context.
pub struct TickState {
    pub cursors: Seq<usize>,
    pub env: RtEnv,
    pub ctx: TreeContext,
}

/// A state with the cursor of node `id` set to `c`.
pub open spec fn with_cursor(s: TickState, id: int, c: usize) -> TickState {
    TickState { cursors: s.cursors.update(id, c), env: s.env, ctx: s.ctx }
}

/// A child's tick, as a term to find the state and outcome it ended with.
pub open spec fn step_of(m: TickState, rc: Recorded) -> bool {
    true
}

/// The arguments a leaf hands over, as a term to find them by.
pub open spec fn handed(a: RtArgs) -> bool {
    true
}

/// A child's outcome, as a term to find it by.
pub open spec fn outcome_of(rc: Recorded) -> bool {
    true
}

/// Whether a composite moves on past a child outcome: a sequence past a
/// success, a fallback past a failure.
pub open spec fn moves_on(is_sequence: bool, r: Recorded) -> bool {
    if is_sequence {
        r == Ok::<Outcome, ErrorModel>(Outcome::Success)
    } else {
        r is Ok && r->Ok_0 is Failure
    }
}

/// What a composite without children left to tick yields.
pub open spec fn exhausted(is_sequence: bool) -> Recorded {
    if is_sequence {
        Ok(Outcome::Success)
    } else {
        Ok(Outcome::Failure(no_success_message()))
    }
}

/// One tick of node `id`, from state `s`, can end in state `t` with result
/// `r`:
/// - a leaf hands its name and arguments to the registry, and yields what
///   the registry yields;
/// - a sequence or a fallback ticks its children in order from its cursor,
///   each from the state the previous one left;
/// - a parallel node ticks every child in order;
/// - an inverter ticks its child and inverts the outcome.
pub open spec fn node_tick<A: Impl>(
    nodes: Seq<Node>,
    keeper: Map<Seq<char>, crate::action::Action<A>>,
    id: usize,
    s: TickState,
    t: TickState,
    r: Recorded,
) -> bool
    decreases nodes.len() - id, 1int, 0int,
{
    if !(id < nodes.len()) {
        false
    } else {
        match nodes[id as int] {
            Node::Action(name, args) => t.cursors == s.cursors && exists|a: RtArgs|
                #[trigger] handed(a) && args_model(&a) == args_model(&args) && on_tick_post(
                    keeper,
                    name,
                    a,
                    s.env,
                    t.env,
                    s.ctx,
                    t.ctx,
                    r,
                ),
            Node::Sequence(ch) => composite_run(
                nodes,
                keeper,
                id as int,
                ch@,
                true,
                s.cursors[id as int] as int,
                exhausted(true),
                s,
                t,
                r,
            ),
            Node::Fallback(ch) => composite_run(
                nodes,
                keeper,
                id as int,
                ch@,
                false,
                s.cursors[id as int] as int,
                exhausted(false),
                s,
                t,
                r,
            ),
            Node::Parallel(ch, policy) => parallel_run(
                nodes,
                keeper,
                id as int,
                ch@,
                policy,
                0,
                false,
                None,
                false,
                s,
                t,
                r,
            ),
            Node::Inverter(c) => if id < c < nodes.len() {
                exists|rc: Recorded|
                    #[trigger] outcome_of(rc) && node_tick(nodes, keeper, c, s, t, rc) && r == invert_spec(
                        rc,
                    )
            } else {
                false
            },
        }
    }
}

/// A sequence or a fallback, at child `k` of `ch`, from state `s`; `done`
/// is what it yields if no child is left:
/// - a child outcome that it moves on from leads to the next child;
/// - running keeps the cursor on that child and is yielded;
/// - any other outcome (or error) resets the cursor and is yielded;
/// - with no child left the cursor is reset and `done` is yielded.
pub open spec fn composite_run<A: Impl>(
    nodes: Seq<Node>,
    keeper: Map<Seq<char>, crate::action::Action<A>>,
    id: int,
    ch: Seq<usize>,
    is_sequence: bool,
    k: int,
    done: Recorded,
    s: TickState,
    t: TickState,
    r: Recorded,
) -> bool
    decreases nodes.len() - id, 0int, ch.len() - k,
{
    if k < 0 || !(0 <= id < nodes.len()) {
        false
    } else if k >= ch.len() {
        t == with_cursor(s, id, 0) && r == done
    } else if !(id < ch[k] < nodes.len()) {
        false
    } else {
        exists|m: TickState, rc: Recorded|
            #[trigger] step_of(m, rc) && node_tick(nodes, keeper, ch[k], s, m, rc) && if moves_on(
                is_sequence,
                rc,
            ) {
                composite_run(nodes, keeper, id, ch, is_sequence, k + 1, rc, m, t, r)
            } else if rc == Ok::<Outcome, ErrorModel>(Outcome::Running) {
                t == with_cursor(m, id, k as usize) && r == rc
            } else {
                t == with_cursor(m, id, 0) && r == rc
            }
    }
}

/// A parallel node at child `k` of `ch`, having seen a success, the first
/// failure's reason and a running child so far: an error is yielded at once;
/// once every child was ticked the verdict follows the policy.
pub open spec fn parallel_run<A: Impl>(
    nodes: Seq<Node>,
    keeper: Map<Seq<char>, crate::action::Action<A>>,
    id: int,
    ch: Seq<usize>,
    policy: ParallelPolicy,
    k: int,
    any_success: bool,
    first_failure: Option<Seq<char>>,
    any_running: bool,
    s: TickState,
    t: TickState,
    r: Recorded,
) -> bool
    decreases nodes.len() - id, 0int, ch.len() - k,
{
    if k < 0 || !(0 <= id < nodes.len()) {
        false
    } else if k >= ch.len() {
        t == s && r == Ok::<Outcome, ErrorModel>(
            parallel_spec(policy, any_success, first_failure, any_running),
        )
    } else if !(id < ch[k] < nodes.len()) {
        false
    } else {
        exists|m: TickState, rc: Recorded|
            #[trigger] step_of(m, rc) && node_tick(nodes, keeper, ch[k], s, m, rc) && match rc {
                Err(_) => t == m && r == rc,
                Ok(Outcome::Success) => parallel_run(
                    nodes,
                    keeper,
                    id,
                    ch,
                    policy,
                    k + 1,
                    true,
                    first_failure,
                    any_running,
                    m,
                    t,
                    r,
                ),
                Ok(Outcome::Running) => parallel_run(
                    nodes,
                    keeper,
                    id,
                    ch,
                    policy,
                    k + 1,
                    any_success,
                    first_failure,
                    true,
                    m,
                    t,
                    r,
                ),
                Ok(Outcome::Failure(msg)) => parallel_run(
                    nodes,
                    keeper,
                    id,
                    ch,
                    policy,
                    k + 1,
                    any_success,
                    if first_failure is None {
                        Some(msg)
                    } else {
                        first_failure
                    },
                    any_running,
                    m,
                    t,
                    r,
                ),
            }
    }
}

/// A compiled tree: the arena of nodes, the root at index 0, and the
/// resumption cursor of each node.
pub struct RTree {
    nodes: Vec<Node>,
    cursors: Vec<usize>,
}

fn children_after(parent: usize, children: &Vec<usize>, n: usize) -> (r: bool)
    ensures
        r == forall|j: int| 0 <= j < children@.len() ==> parent < #[trigger] children@[j] < n,
{
    let mut j: usize = 0;
    while j < children.len()
        invariant
            j <= children@.len(),
            forall|k: int| 0 <= k < j ==> parent < #[trigger] children@[k] < n,
        decreases children@.len() - j,
    {
        if !(parent < children[j] && children[j] < n) {
            return false;
        }
        j = j + 1;
    }
    true
}

impl RTree {
    pub closed spec fn wf(&self) -> bool {
        &&& nodes_wf(self.nodes@)
        &&& cursors_wf(self.nodes@, self.cursors@)
        &&& self.nodes@.len() > 0
    }

    /// The arena.
    pub closed spec fn nodes(&self) -> Seq<Node> {
        self.nodes@
    }

    /// The resumption cursors.
    pub closed spec fn cursors(&self) -> Seq<usize> {
        self.cursors@
    }

    /// A tree over an arena whose root is the first node; fails unless
    /// there is a node and every child stands after its parent, inside the
    /// arena.
    pub fn new(nodes: Vec<Node>) -> (r: Result<RTree, RuntimeError>)
        ensures
            match r {
                Ok(t) => t.wf() && t.nodes() == nodes@ && forall|i: int|
                    0 <= i < nodes@.len() ==> #[trigger] t.cursors()[i] == 0,
                Err(e) => !(nodes@.len() > 0 && nodes_wf(nodes@)) && e@ is Unexpected,
            },
    {
        let n = nodes.len();
        let mut i: usize = 0;
        let mut cursors: Vec<usize> = Vec::new();
        while i < n
            invariant
                n == nodes@.len(),
                i <= n,
                cursors@.len() == i,
                forall|k: int| 0 <= k < i ==> #[trigger] cursors@[k] == 0,
                forall|a: int, b: int|
                    0 <= a < i && 0 <= b < children_of(nodes@[a]).len() ==> a
                        < #[trigger] children_of(nodes@[a])[b] < n,
            decreases n - i,
        {
            let ok = match &nodes[i] {
                Node::Action(_, _) => true,
                Node::Sequence(c) => {
                    assert(children_of(nodes@[i as int]) == c@);
                    children_after(i, c, n)
                },
                Node::Fallback(c) => {
                    assert(children_of(nodes@[i as int]) == c@);
                    children_after(i, c, n)
                },
                Node::Parallel(c, _) => {
                    assert(children_of(nodes@[i as int]) == c@);
                    children_after(i, c, n)
                },
                Node::Inverter(c) => {
                    assert(children_of(nodes@[i as int]) =~= seq![*c]);
                    assert(children_of(nodes@[i as int])[0] == *c);
                    i < *c && *c < n
                },
            };
            assert(ok == forall|b: int|
                0 <= b < children_of(nodes@[i as int]).len() ==> i < #[trigger] children_of(
                    nodes@[i as int],
                )[b] < n);
            if !ok {
                return Err(RuntimeError::Unexpected(String::from_str("the tree is malformed")));
            }
            cursors.push(0);
            i = i + 1;
        }
        if n == 0 {
            return Err(RuntimeError::Unexpected(String::from_str("the tree is empty")));
        }
        Ok(RTree { nodes, cursors })
    }

    /// Ticks the whole tree once, as tick number `ctx.tick + 1`, and records
    /// the root's outcome with the tracer.
    pub fn tick<A: Impl>(&mut self, keeper: &ActionKeeper<A>, env: &mut RtEnv, ctx: &mut TreeContext) -> (r:
        Tick)
        requires
            old(self).wf(),
            keeper.wf(),
            keeper.all_ready(),
            old(env).wf(),
            old(ctx).wf(),
            old(ctx).tick < usize::MAX,
        ensures
            final(self).wf(),
            final(self).nodes() == old(self).nodes(),
            final(env).wf(),
            final(ctx).wf(),
            final(ctx).tick == old(ctx).tick + 1,
            exists|m: TickState|
                #[trigger] node_tick(
                    old(self).nodes(),
                    keeper@,
                    0,
                    TickState {
                        cursors: old(self).cursors(),
                        env: *old(env),
                        ctx: next_tick(*old(ctx)),
                    },
                    m,
                    tick_view(r),
                ) && final(self).cursors() == m.cursors && *final(env) == m.env
                    && final(ctx).bb == m.ctx.bb && final(ctx).tick == m.ctx.tick && traced(
                    m.ctx.tracer,
                    final(ctx).tracer,
                    event_spec(tick_view(r)),
                ),
    {
        ctx.tick = ctx.tick + 1;
        assert(*ctx == next_tick(*old(ctx)));
        let r = tick_node(&self.nodes, &mut self.cursors, 0, keeper, env, ctx);
        let ghost m = TickState { cursors: self.cursors@, env: *env, ctx: *ctx };
        let event = outcome_event(&r);
        let ghost before = ctx.tracer;
        ctx.tracer.trace(event);
        proof {
            if let Tracer::InMemory(ev) = before {
                assert(ctx.tracer->InMemory_0@.take(ev@.len() as int) =~= ev@);
            }
            assert(traced(m.ctx.tracer, ctx.tracer, event_spec(tick_view(r))));
            assert(node_tick(
                self.nodes@,
                keeper@,
                0,
                TickState { cursors: old(self).cursors@, env: *old(env), ctx: next_tick(*old(ctx)) },
                m,
                tick_view(r),
            ));
        }
        r
    }
}

/// The context as the next root tick starts.
pub open spec fn next_tick(c: TreeContext) -> TreeContext {
    TreeContext { bb: c.bb, tracer: c.tracer, tick: (c.tick + 1) as usize }
}

/// The event that the tracer records for a root tick.
pub open spec fn event_spec(r: Recorded) -> Seq<char> {
    match r {
        Ok(Outcome::Success) => "success"@,
        Ok(Outcome::Failure(m)) => "failure: "@ + m,
        Ok(Outcome::Running) => "running"@,
        Err(_) => "error"@,
    }
}

/// The tracer after recording one event: the no-op tracer stays as it is,
/// the in-memory one keeps what it had and appends the event.
pub open spec fn traced(before: Tracer, after: Tracer, e: Seq<char>) -> bool {
    match before {
        Tracer::Noop => after is Noop,
        Tracer::InMemory(ev) => {
            &&& after is InMemory
            &&& after->InMemory_0@.len() == ev@.len() + 1
            &&& after->InMemory_0@.take(ev@.len() as int) == ev@
            &&& after->InMemory_0@.last()@ == e
        },
    }
}

fn outcome_event(r: &Tick) -> (e: String)
    ensures
        e@ == event_spec(tick_view(*r)),
{
    proof {
        reveal_strlit("success");
        reveal_strlit("failure: ");
        reveal_strlit("running");
        reveal_strlit("error");
    }
    match r {
        Ok(TickResult::Success) => String::from_str("success"),
        Ok(TickResult::Failure(m)) => String::from_str("failure: ").concat(m.as_str()),
        Ok(TickResult::Running) => String::from_str("running"),
        Err(_) => String::from_str("error"),
    }
}

/// The model of an optional reason.
pub open spec fn opt_text(o: Option<String>) -> Option<Seq<char>> {
    match o {
        Some(m) => Some(m@),
        None => None,
    }
}

fn tick_node<A: Impl>(
    nodes: &Vec<Node>,
    cursors: &mut Vec<usize>,
    id: usize,
    keeper: &ActionKeeper<A>,
    env: &mut RtEnv,
    ctx: &mut TreeContext,
) -> (r: Tick)
    requires
        nodes_wf(nodes@),
        id < nodes@.len(),
        cursors_wf(nodes@, old(cursors)@),
        keeper.wf(),
        keeper.all_ready(),
        old(env).wf(),
        old(ctx).wf(),
    ensures
        cursors_wf(nodes@, final(cursors)@),
        forall|j: int| 0 <= j < id ==> #[trigger] final(cursors)@[j] == old(cursors)@[j],
        final(env).wf(),
        final(ctx).wf(),
        final(ctx).tick == old(ctx).tick,
        node_tick(
            nodes@,
            keeper@,
            id,
            TickState { cursors: old(cursors)@, env: *old(env), ctx: *old(ctx) },
            TickState { cursors: final(cursors)@, env: *final(env), ctx: *final(ctx) },
            tick_view(r),
        ),
    decreases nodes@.len() - id,
{
    let ghost s0 = TickState { cursors: cursors@, env: *env, ctx: *ctx };
    match &nodes[id] {
        Node::Action(name, args) => {
            let a = args.clone();
            let ghost ga = a;
            let r = keeper.on_tick(env, name, a, ctx);
            proof {
                assert(handed(ga) && on_tick_post(keeper@, *name, ga, s0.env, *env, s0.ctx, *ctx, tick_view(r)));
            }
            r
        },
        Node::Sequence(ch) => {
            let len = ch.len();
            let mut c = cursors[id];
            let ghost c0 = c as int;
            while c < len
                invariant
                    nodes_wf(nodes@),
                    id < nodes@.len(),
                    nodes@[id as int] == Node::Sequence(*ch),
                    len == ch@.len(),
                    cursors_wf(nodes@, cursors@),
                    forall|j: int| 0 <= j <= id ==> #[trigger] cursors@[j] == old(cursors)@[j],
                    old(cursors)@[id as int] <= c <= len,
                    c0 == old(cursors)@[id as int],
                    s0 == (TickState { cursors: old(cursors)@, env: *old(env), ctx: *old(ctx) }),
                    keeper.wf(),
                    keeper.all_ready(),
                    env.wf(),
                    ctx.wf(),
                    ctx.tick == old(ctx).tick,
                    forall|t: TickState, rr: Recorded|
                        #[trigger] composite_run(
                            nodes@,
                            keeper@,
                            id as int,
                            ch@,
                            true,
                            c as int,
                            exhausted(true),
                            TickState { cursors: cursors@, env: *env, ctx: *ctx },
                            t,
                            rr,
                        ) ==> composite_run(
                            nodes@,
                            keeper@,
                            id as int,
                            ch@,
                            true,
                            c0,
                            exhausted(true),
                            s0,
                            t,
                            rr,
                        ),
                decreases len - c,
            {
                let child = ch[c];
                assert(children_of(nodes@[id as int])[c as int] == child);
                assert(id < child < nodes@.len());
                let ghost sc = TickState { cursors: cursors@, env: *env, ctx: *ctx };
                let r = tick_node(nodes, cursors, child, keeper, env, ctx);
                let ghost m = TickState { cursors: cursors@, env: *env, ctx: *ctx };
                let ghost rc = tick_view(r);
                assert(step_of(m, rc) && node_tick(nodes@, keeper@, child, sc, m, rc));
                match r {
                    Ok(TickResult::Success) => {
                        proof {
                            assert forall|t: TickState, rr: Recorded|
                                #[trigger] composite_run(
                                    nodes@,
                                    keeper@,
                                    id as int,
                                    ch@,
                                    true,
                                    c + 1,
                                    exhausted(true),
                                    m,
                                    t,
                                    rr,
                                ) implies composite_run(
                                nodes@,
                                keeper@,
                                id as int,
                                ch@,
                                true,
                                c as int,
                                exhausted(true),
                                sc,
                                t,
                                rr,
                            ) by {
                                assert(id < ch@[c as int] < nodes@.len());
                                assert(step_of(m, rc) && node_tick(nodes@, keeper@, ch@[c as int], sc, m, rc));
                            }
                        }
                        c = c + 1;
                    },
                    Ok(TickResult::Running) => {
                        cursors.set(id, c);
                        proof {
                            assert(with_cursor(m, id as int, c) == (TickState { cursors: cursors@, env: *env, ctx: *ctx }));
                            assert(composite_run(
                                nodes@,
                                keeper@,
                                id as int,
                                ch@,
                                true,
                                c as int,
                                exhausted(true),
                                sc,
                                TickState { cursors: cursors@, env: *env, ctx: *ctx },
                                rc,
                            ));
                        }
                        return Ok(TickResult::Running);
                    },
                    other => {
                        cursors.set(id, 0);
                        proof {
                            assert(with_cursor(m, id as int, 0) == (TickState { cursors: cursors@, env: *env, ctx: *ctx }));
                            assert(rc != Ok::<Outcome, ErrorModel>(Outcome::Running));
                            assert(id < ch@[c as int] < nodes@.len());
                            assert(composite_run(
                                nodes@,
                                keeper@,
                                id as int,
                                ch@,
                                true,
                                c as int,
                                exhausted(true),
                                sc,
                                TickState { cursors: cursors@, env: *env, ctx: *ctx },
                                rc,
                            ));
                        }
                        return other;
                    },
                }
            }
            let ghost se = TickState { cursors: cursors@, env: *env, ctx: *ctx };
            cursors.set(id, 0);
            proof {
                assert(with_cursor(se, id as int, 0) == (TickState { cursors: cursors@, env: *env, ctx: *ctx }));
                assert(composite_run(
                    nodes@,
                    keeper@,
                    id as int,
                    ch@,
                    true,
                    c as int,
                    exhausted(true),
                    se,
                    TickState { cursors: cursors@, env: *env, ctx: *ctx },
                    Ok(Outcome::Success),
                ));
            }
            Ok(TickResult::Success)
        },
        Node::Fallback(ch) => {
            let len = ch.len();
            let mut c = cursors[id];
            let ghost c0 = c as int;
            let mut last: Option<String> = None;
            let ghost mut done: Recorded = exhausted(false);
            while c < len
                invariant
                    nodes_wf(nodes@),
                    id < nodes@.len(),
                    nodes@[id as int] == Node::Fallback(*ch),
                    len == ch@.len(),
                    cursors_wf(nodes@, cursors@),
                    forall|j: int| 0 <= j <= id ==> #[trigger] cursors@[j] == old(cursors)@[j],
                    old(cursors)@[id as int] <= c <= len,
                    c0 == old(cursors)@[id as int],
                    s0 == (TickState { cursors: old(cursors)@, env: *old(env), ctx: *old(ctx) }),
                    done == match last {
                        Some(m) => Ok::<Outcome, ErrorModel>(Outcome::Failure(m@)),
                        None => exhausted(false),
                    },
                    keeper.wf(),
                    keeper.all_ready(),
                    env.wf(),
                    ctx.wf(),
                    ctx.tick == old(ctx).tick,
                    forall|t: TickState, rr: Recorded|
                        #[trigger] composite_run(
                            nodes@,
                            keeper@,
                            id as int,
                            ch@,
                            false,
                            c as int,
                            done,
                            TickState { cursors: cursors@, env: *env, ctx: *ctx },
                            t,
                            rr,
                        ) ==> composite_run(
                            nodes@,
                            keeper@,
                            id as int,
                            ch@,
                            false,
                            c0,
                            exhausted(false),
                            s0,
                            t,
                            rr,
                        ),
                decreases len - c,
            {
                let child = ch[c];
                assert(children_of(nodes@[id as int])[c as int] == child);
                assert(id < child < nodes@.len());
                let ghost sc = TickState { cursors: cursors@, env: *env, ctx: *ctx };
                let r = tick_node(nodes, cursors, child, keeper, env, ctx);
                let ghost m = TickState { cursors: cursors@, env: *env, ctx: *ctx };
                let ghost rc = tick_view(r);
                assert(step_of(m, rc) && node_tick(nodes@, keeper@, child, sc, m, rc));
                match r {
                    Ok(TickResult::Failure(msg)) => {
                        proof {
                            assert forall|t: TickState, rr: Recorded|
                                #[trigger] composite_run(
                                    nodes@,
                                    keeper@,
                                    id as int,
                                    ch@,
                                    false,
                                    c + 1,
                                    rc,
                                    m,
                                    t,
                                    rr,
                                ) implies composite_run(
                                nodes@,
                                keeper@,
                                id as int,
                                ch@,
                                false,
                                c as int,
                                done,
                                sc,
                                t,
                                rr,
                            ) by {
                                assert(id < ch@[c as int] < nodes@.len());
                                assert(step_of(m, rc) && node_tick(nodes@, keeper@, ch@[c as int], sc, m, rc));
                            }
                            done = rc;
                        }
                        last = Some(msg);
                        c = c + 1;
                    },
                    Ok(TickResult::Running) => {
                        cursors.set(id, c);
                        proof {
                            assert(with_cursor(m, id as int, c) == (TickState { cursors: cursors@, env: *env, ctx: *ctx }));
                            assert(composite_run(
                                nodes@,
                                keeper@,
                                id as int,
                                ch@,
                                false,
                                c as int,
                                done,
                                sc,
                                TickState { cursors: cursors@, env: *env, ctx: *ctx },
                                rc,
                            ));
                        }
                        return Ok(TickResult::Running);
                    },
                    other => {
                        cursors.set(id, 0);
                        proof {
                            assert(with_cursor(m, id as int, 0) == (TickState { cursors: cursors@, env: *env, ctx: *ctx }));
                            assert(rc != Ok::<Outcome, ErrorModel>(Outcome::Running));
                            assert(id < ch@[c as int] < nodes@.len());
                            assert(composite_run(
                                nodes@,
                                keeper@,
                                id as int,
                                ch@,
                                false,
                                c as int,
                                done,
                                sc,
                                TickState { cursors: cursors@, env: *env, ctx: *ctx },
                                rc,
                            ));
                        }
                        return other;
                    },
                }
            }
            let ghost se = TickState { cursors: cursors@, env: *env, ctx: *ctx };
            cursors.set(id, 0);
            let out = match last {
                Some(m) => TickResult::Failure(m),
                None => {
                    proof {
                        reveal_strlit("no child succeeded");
                    }
                    TickResult::Failure(String::from_str("no child succeeded"))
                },
            };
            proof {
                assert(with_cursor(se, id as int, 0) == (TickState { cursors: cursors@, env: *env, ctx: *ctx }));
                assert(composite_run(
                    nodes@,
                    keeper@,
                    id as int,
                    ch@,
                    false,
                    c as int,
                    done,
                    se,
                    TickState { cursors: cursors@, env: *env, ctx: *ctx },
                    Ok(out@),
                ));
            }
            Ok(out)
        },
        Node::Parallel(ch, policy) => {
            let len = ch.len();
            let mut c: usize = 0;
            let mut any_success = false;
            let mut any_running = false;
            let mut first_failure: Option<String> = None;
            while c < len
                invariant
                    nodes_wf(nodes@),
                    id < nodes@.len(),
                    nodes@[id as int] == Node::Parallel(*ch, *policy),
                    len == ch@.len(),
                    c <= len,
                    cursors_wf(nodes@, cursors@),
                    forall|j: int| 0 <= j <= id ==> #[trigger] cursors@[j] == old(cursors)@[j],
                    s0 == (TickState { cursors: old(cursors)@, env: *old(env), ctx: *old(ctx) }),
                    keeper.wf(),
                    keeper.all_ready(),
                    env.wf(),
                    ctx.wf(),
                    ctx.tick == old(ctx).tick,
                    forall|t: TickState, rr: Recorded|
                        #[trigger] parallel_run(
                            nodes@,
                            keeper@,
                            id as int,
                            ch@,
                            *policy,
                            c as int,
                            any_success,
                            opt_text(first_failure),
                            any_running,
                            TickState { cursors: cursors@, env: *env, ctx: *ctx },
                            t,
                            rr,
                        ) ==> parallel_run(
                            nodes@,
                            keeper@,
                            id as int,
                            ch@,
                            *policy,
                            0,
                            false,
                            None,
                            false,
                            s0,
                            t,
                            rr,
                        ),
                decreases len - c,
            {
                let child = ch[c];
                assert(children_of(nodes@[id as int])[c as int] == child);
                assert(id < child < nodes@.len());
                let ghost sc = TickState { cursors: cursors@, env: *env, ctx: *ctx };
                let ghost (s_before, f_before, r_before) = (
                    any_success,
                    opt_text(first_failure),
                    any_running,
                );
                let r = tick_node(nodes, cursors, child, keeper, env, ctx);
                let ghost m = TickState { cursors: cursors@, env: *env, ctx: *ctx };
                let ghost rc = tick_view(r);
                assert(step_of(m, rc) && node_tick(nodes@, keeper@, child, sc, m, rc));
                match r {
                    Ok(TickResult::Success) => {
                        any_success = true;
                    },
                    Ok(TickResult::Running) => {
                        any_running = true;
                    },
                    Ok(TickResult::Failure(msg)) => {
                        if first_failure.is_none() {
                            first_failure = Some(msg);
                        }
                    },
                    Err(e) => {
                        proof {
                            assert(id < ch@[c as int] < nodes@.len());
                            assert(parallel_run(
                                nodes@,
                                keeper@,
                                id as int,
                                ch@,
                                *policy,
                                c as int,
                                s_before,
                                f_before,
                                r_before,
                                sc,
                                m,
                                rc,
                            ));
                        }
                        return Err(e);
                    },
                }
                proof {
                    assert forall|t: TickState, rr: Recorded|
                        #[trigger] parallel_run(
                            nodes@,
                            keeper@,
                            id as int,
                            ch@,
                            *policy,
                            c + 1,
                            any_success,
                            opt_text(first_failure),
                            any_running,
                            m,
                            t,
                            rr,
                        ) implies parallel_run(
                        nodes@,
                        keeper@,
                        id as int,
                        ch@,
                        *policy,
                        c as int,
                        s_before,
                        f_before,
                        r_before,
                        sc,
                        t,
                        rr,
                    ) by {
                        assert(id < ch@[c as int] < nodes@.len());
                        assert(step_of(m, rc) && node_tick(nodes@, keeper@, ch@[c as int], sc, m, rc));
                    }
                }
                c = c + 1;
            }
            let out = parallel_verdict(policy, any_success, first_failure, any_running);
            proof {
                assert(parallel_run(
                    nodes@,
                    keeper@,
                    id as int,
                    ch@,
                    *policy,
                    c as int,
                    any_success,
                    opt_text(first_failure),
                    any_running,
                    TickState { cursors: cursors@, env: *env, ctx: *ctx },
                    TickState { cursors: cursors@, env: *env, ctx: *ctx },
                    Ok(out@),
                ));
            }
            Ok(out)
        },
        Node::Inverter(child) => {
            assert(children_of(nodes@[id as int])[0] == *child);
            assert(id < *child < nodes@.len());
            let r = tick_node(nodes, cursors, *child, keeper, env, ctx);
            let ghost rc = tick_view(r);
            assert(outcome_of(rc) && node_tick(
                nodes@,
                keeper@,
                *child,
                s0,
                TickState { cursors: cursors@, env: *env, ctx: *ctx },
                rc,
            ));
            invert(r)
        },
    }
}

} // verus!
