use forester::action::Action;
use forester::args::{RtArgs, RtArgument, RtValue};
use forester::blackboard::BlackBoard;
use forester::context::{Tracer, TreeContext};
use forester::data::{Builtin, CheckEq, LockUnlockBBKey, StoreData, StoreTick};
use forester::env::RtEnv;
use forester::keeper::ActionKeeper;
use forester::runtime::{RuntimeError, TickResult};
use forester::tree::{invert, parallel_verdict, Node, ParallelPolicy, RTree};

fn arg(name: &str, value: RtValue) -> RtArgument {
    RtArgument::new(name.to_string(), value)
}

fn keeper() -> ActionKeeper<Builtin> {
    ActionKeeper::new(vec![
        ("store".to_string(), Action::Sync(Builtin::StoreData(StoreData))),
        ("check".to_string(), Action::Sync(Builtin::CheckEq(CheckEq))),
        ("tick".to_string(), Action::Sync(Builtin::StoreTick(StoreTick))),
        ("slow".to_string(), Action::Async(Builtin::StoreData(StoreData))),
        ("lock".to_string(), Action::Sync(Builtin::LockUnlock(LockUnlockBBKey::Lock))),
    ])
    .unwrap()
}

fn ctx() -> TreeContext {
    TreeContext::new(BlackBoard::default(), Tracer::Noop, 0)
}

fn store_x(v: i64) -> Node {
    Node::Action(
        "store".to_string(),
        RtArgs(vec![arg("key", RtValue::str("x".to_string())), arg("value", RtValue::integer(v))]),
    )
}

fn check_x(v: i64) -> Node {
    Node::Action(
        "check".to_string(),
        RtArgs(vec![arg("key", RtValue::ptr("x".to_string())), arg("expected", RtValue::integer(v))]),
    )
}

#[test]
fn sequence_store_then_check_succeeds_in_one_tick() {
    let k = keeper();
    let mut env = RtEnv::new();
    let mut ctx = ctx();
    let mut tree = RTree::new(vec![Node::Sequence(vec![1, 2]), store_x(1), check_x(1)]).unwrap();
    assert_eq!(tree.tick(&k, &mut env, &mut ctx), Ok(TickResult::Success));
    assert_eq!(ctx.bb.get("x".to_string()), Some(RtValue::integer(1)));
}

#[test]
fn sequence_with_async_leaf_runs_three_ticks() {
    let k = keeper();
    let mut env = RtEnv::new();
    let mut ctx = ctx();
    let slow = Node::Action(
        "slow".to_string(),
        RtArgs(vec![arg("key", RtValue::str("y".to_string())), arg("value", RtValue::integer(3))]),
    );
    let mut tree = RTree::new(vec![Node::Sequence(vec![1]), slow]).unwrap();
    assert_eq!(tree.tick(&k, &mut env, &mut ctx), Ok(TickResult::Running));
    assert_eq!(env.pending_jobs(), 1);
    assert_eq!(tree.tick(&k, &mut env, &mut ctx), Ok(TickResult::Running));
    assert_eq!(env.pending_jobs(), 1);
    let jobs = env.take_jobs();
    assert_eq!(jobs.len(), 1);
    assert_eq!(jobs[0].name, "slow".to_string());
    assert_eq!(jobs[0].tick, 1);
    assert!(env.finish("slow".to_string(), Ok(TickResult::failure("gave up".to_string()))));
    assert_eq!(
        tree.tick(&k, &mut env, &mut ctx),
        Ok(TickResult::failure("gave up".to_string()))
    );
    assert_eq!(ctx.current_tick(), 3);
    assert!(!env.has_task(&"slow".to_string()));
}

#[test]
fn sequence_resumes_at_running_child() {
    let k = keeper();
    let mut env = RtEnv::new();
    let mut ctx = ctx();
    let slow = Node::Action(
        "slow".to_string(),
        RtArgs(vec![arg("key", RtValue::str("y".to_string())), arg("value", RtValue::integer(3))]),
    );
    let stamp = Node::Action(
        "tick".to_string(),
        RtArgs(vec![arg("key", RtValue::str("t".to_string()))]),
    );
    let mut tree = RTree::new(vec![Node::Sequence(vec![1, 2, 3]), stamp, slow, check_x(9)]).unwrap();
    ctx.bb.put("x".to_string(), RtValue::integer(9)).unwrap();
    assert_eq!(tree.tick(&k, &mut env, &mut ctx), Ok(TickResult::Running));
    assert_eq!(ctx.bb.get("t".to_string()), Some(RtValue::integer(1)));
    env.finish("slow".to_string(), Ok(TickResult::Success));
    assert_eq!(tree.tick(&k, &mut env, &mut ctx), Ok(TickResult::Success));
    // the first child was not ticked again on the second tick
    assert_eq!(ctx.bb.get("t".to_string()), Some(RtValue::integer(1)));
}

#[test]
fn fallback_stops_at_first_success() {
    let k = keeper();
    let mut env = RtEnv::new();
    let mut ctx = ctx();
    ctx.bb.put("x".to_string(), RtValue::integer(2)).unwrap();
    let mut tree = RTree::new(vec![Node::Fallback(vec![1, 2]), check_x(1), check_x(2)]).unwrap();
    assert_eq!(tree.tick(&k, &mut env, &mut ctx), Ok(TickResult::Success));
    let mut tree = RTree::new(vec![Node::Fallback(vec![1, 2]), check_x(1), check_x(3)]).unwrap();
    assert_eq!(
        tree.tick(&k, &mut env, &mut ctx),
        Ok(TickResult::failure("2 != 3".to_string()))
    );
}

#[test]
fn parallel_all_and_any_policies() {
    let k = keeper();
    let mut env = RtEnv::new();
    let mut ctx = ctx();
    ctx.bb.put("x".to_string(), RtValue::integer(1)).unwrap();
    let mut all = RTree::new(vec![
        Node::Parallel(vec![1, 2], ParallelPolicy::AllSucceed),
        check_x(1),
        check_x(2),
    ])
    .unwrap();
    assert_eq!(
        all.tick(&k, &mut env, &mut ctx),
        Ok(TickResult::failure("1 != 2".to_string()))
    );
    let mut any = RTree::new(vec![
        Node::Parallel(vec![1, 2], ParallelPolicy::AnySucceed),
        check_x(2),
        check_x(1),
    ])
    .unwrap();
    assert_eq!(any.tick(&k, &mut env, &mut ctx), Ok(TickResult::Success));
}

#[test]
fn parallel_verdicts() {
    assert_eq!(
        parallel_verdict(&ParallelPolicy::AllSucceed, true, None, true),
        TickResult::Running
    );
    assert_eq!(
        parallel_verdict(&ParallelPolicy::AllSucceed, true, None, false),
        TickResult::Success
    );
    assert_eq!(
        parallel_verdict(&ParallelPolicy::AnySucceed, false, Some("f".to_string()), false),
        TickResult::failure("no child succeeded".to_string())
    );
    assert_eq!(
        parallel_verdict(&ParallelPolicy::AnySucceed, false, Some("f".to_string()), true),
        TickResult::Running
    );
}

#[test]
fn inverter_swaps_success_and_failure() {
    assert_eq!(
        invert(Ok(TickResult::Success)),
        Ok(TickResult::failure("the child succeeded".to_string()))
    );
    assert_eq!(invert(Ok(TickResult::failure("no".to_string()))), Ok(TickResult::Success));
    assert_eq!(invert(Ok(TickResult::Running)), Ok(TickResult::Running));
    let k = keeper();
    let mut env = RtEnv::new();
    let mut ctx = ctx();
    ctx.bb.put("x".to_string(), RtValue::integer(1)).unwrap();
    let mut tree = RTree::new(vec![Node::Inverter(1), check_x(2)]).unwrap();
    assert_eq!(tree.tick(&k, &mut env, &mut ctx), Ok(TickResult::Success));
}

#[test]
fn unregistered_action_is_an_error() {
    let k = keeper();
    let mut env = RtEnv::new();
    let mut ctx = ctx();
    let r = k.on_tick(&mut env, &"missing".to_string(), RtArgs(vec![]), &mut ctx);
    assert_eq!(
        r,
        Err(RuntimeError::UnImplementedAction(
            "the action missing is not registered".to_string()
        ))
    );
}

#[test]
fn error_aborts_the_whole_tick() {
    let k = keeper();
    let mut env = RtEnv::new();
    let mut ctx = ctx();
    let lock = Node::Action(
        "lock".to_string(),
        RtArgs(vec![arg("key", RtValue::str("absent".to_string()))]),
    );
    let mut tree = RTree::new(vec![Node::Fallback(vec![1, 2]), lock, store_x(1)]).unwrap();
    assert_eq!(
        tree.tick(&k, &mut env, &mut ctx),
        Err(RuntimeError::BlackBoardError(
            "the key absent is taken or absent".to_string()
        ))
    );
    assert_eq!(ctx.bb.get("x".to_string()), None);
}

#[test]
fn async_action_lifecycle() {
    let k = keeper();
    let mut env = RtEnv::new();
    let mut ctx = ctx();
    let name = "slow".to_string();
    let args = || RtArgs(vec![arg("key", RtValue::str("y".to_string())), arg("value", RtValue::integer(3))]);
    assert_eq!(k.on_tick(&mut env, &name, args(), &mut ctx), Ok(TickResult::Running));
    assert!(env.has_task(&name));
    assert_eq!(env.pending_jobs(), 1);
    assert_eq!(k.on_tick(&mut env, &name, args(), &mut ctx), Ok(TickResult::Running));
    assert_eq!(env.pending_jobs(), 1);
    assert!(env.finish(name.clone(), Ok(TickResult::Success)));
    assert_eq!(k.on_tick(&mut env, &name, args(), &mut ctx), Ok(TickResult::Success));
    assert!(!env.has_task(&name));
    assert_eq!(k.on_tick(&mut env, &name, args(), &mut ctx), Ok(TickResult::Running));
    assert_eq!(env.pending_jobs(), 2);
    assert!(!env.finish("other".to_string(), Ok(TickResult::Success)));
}

#[test]
fn register_replaces_and_store_tick_through_tree() {
    let mut k = keeper();
    k.register("store".to_string(), Action::Sync(Builtin::StoreTick(StoreTick))).unwrap();
    let mut env = RtEnv::new();
    let mut ctx = ctx();
    let stamp = Node::Action(
        "store".to_string(),
        RtArgs(vec![arg("key", RtValue::str("s".to_string()))]),
    );
    let mut tree = RTree::new(vec![stamp]).unwrap();
    assert_eq!(tree.tick(&k, &mut env, &mut ctx), Ok(TickResult::Success));
    assert_eq!(tree.tick(&k, &mut env, &mut ctx), Ok(TickResult::Success));
    assert_eq!(ctx.bb.get("s".to_string()), Some(RtValue::integer(2)));
}

#[test]
fn malformed_trees_are_refused() {
    assert!(matches!(RTree::new(vec![]), Err(RuntimeError::Unexpected(_))));
    assert!(matches!(
        RTree::new(vec![Node::Sequence(vec![0])]),
        Err(RuntimeError::Unexpected(_))
    ));
    assert!(matches!(
        RTree::new(vec![Node::Inverter(5), store_x(1)]),
        Err(RuntimeError::Unexpected(_))
    ));
}

#[test]
fn root_ticks_are_traced() {
    let k = keeper();
    let mut env = RtEnv::new();
    let mut ctx = TreeContext::new(BlackBoard::default(), Tracer::InMemory(vec![]), 0);
    ctx.bb.put("x".to_string(), RtValue::integer(1)).unwrap();
    let mut tree = RTree::new(vec![Node::Sequence(vec![1]), check_x(2)]).unwrap();
    assert_eq!(
        tree.tick(&k, &mut env, &mut ctx),
        Ok(TickResult::failure("1 != 2".to_string()))
    );
    let mut empty_all = RTree::new(vec![Node::Parallel(vec![], ParallelPolicy::AllSucceed)]).unwrap();
    assert_eq!(empty_all.tick(&k, &mut env, &mut ctx), Ok(TickResult::Success));
    match &ctx.tracer {
        Tracer::InMemory(events) => assert_eq!(
            events,
            &vec!["failure: 1 != 2".to_string(), "success".to_string()]
        ),
        Tracer::Noop => panic!("the tracer changed kind"),
    }
}
