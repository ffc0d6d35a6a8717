use vstd::prelude::*;
use crate::args::{args_model, RtArgs, Value};
use crate::blackboard::Board;
use crate::context::TreeContext;
use crate::runtime::{tick_view, ErrorModel, Outcome, Tick};

verus! {

/// A unit of work that a leaf of the tree runs.
pub trait Impl {
    /// What the action needs of itself before it can run.
    spec fn ready(&self) -> bool;

    /// How one run relates the arguments, the tick number and the board
    /// before and after to what it returns.
    spec fn tick_post(
        &self,
        args: Seq<(Seq<char>, Value)>,
        tick: usize,
        before: Board,
        after: Board,
        r: Result<Outcome, ErrorModel>,
    ) -> bool;

    fn tick(&self, args: RtArgs, ctx: &mut TreeContext) -> (r: Tick)
        requires
            self.ready(),
            old(ctx).wf(),
        ensures
            final(ctx).wf(),
            final(ctx).tick == old(ctx).tick,
            self.tick_post(args_model(&args), old(ctx).tick, old(ctx).bb@, final(ctx).bb@, tick_view(r)),
    ;
}

/// A registered action: run within the tick, or handed to a worker and
/// polled on later ticks.
pub enum Action<A> {
    Sync(A),
    Async(A),
}

} // verus!
