use forester::action::Impl;
use forester::args::{RtArgs, RtArgument, RtValue};
use forester::blackboard::{BBValue, BlackBoard};
use forester::context::{Tracer, TreeContext};
use forester::data::{CheckEq, GenerateData, LockUnlockBBKey, StoreData, StoreTick};
use forester::runtime::{RuntimeError, RuntimeErrorCause, TickResult};

fn arg(name: &str, value: RtValue) -> RtArgument {
    RtArgument::new(name.to_string(), value)
}

fn ctx_with(bb: BlackBoard, tick: usize) -> TreeContext {
    TreeContext::new(bb, Tracer::Noop, tick)
}

#[test]
fn lock_unlock() {
    let lock_action = LockUnlockBBKey::Lock;

    let mut ctx = ctx_with(BlackBoard::default(), 1);
    let r = lock_action.tick(RtArgs(vec![arg("key", RtValue::str("k".to_string()))]), &mut ctx);
    assert_eq!(
        r,
        Err(RuntimeError::BlackBoardError(
            "the key k is taken or absent".to_string()
        ))
    );

    let bb = BlackBoard::new(vec![(
        "k".to_string(),
        BBValue::Unlocked(RtValue::integer(1)),
    )]);
    let mut ctx = ctx_with(bb, 1);
    let r = lock_action.tick(RtArgs(vec![arg("key", RtValue::str("k".to_string()))]), &mut ctx);
    assert_eq!(r, Ok(TickResult::success()));
    assert_eq!(ctx.bb.is_locked("k".to_string()), Ok(true));
}

#[test]
fn lock_keeps_value_and_unlock_restores() {
    let mut bb = BlackBoard::new(vec![("k".to_string(), BBValue::Unlocked(RtValue::integer(7)))]);
    assert_eq!(bb.lock("k".to_string()), Ok(()));
    assert_eq!(bb.get("k".to_string()), Some(RtValue::integer(7)));
    assert_eq!(bb.unlock("k".to_string()), Ok(()));
    assert_eq!(bb.is_locked("k".to_string()), Ok(false));
    assert_eq!(bb.put("k".to_string(), RtValue::integer(8)), Ok(()));
    assert_eq!(bb.get("k".to_string()), Some(RtValue::integer(8)));
}

#[test]
fn lock_twice_and_unlock_unlocked_fail() {
    let mut bb = BlackBoard::new(vec![("k".to_string(), BBValue::Unlocked(RtValue::integer(1)))]);
    assert_eq!(bb.lock("k".to_string()), Ok(()));
    assert_eq!(
        bb.lock("k".to_string()),
        Err(RuntimeError::BlackBoardError("the key k is taken or absent".to_string()))
    );
    assert_eq!(bb.unlock("k".to_string()), Ok(()));
    assert_eq!(
        bb.unlock("k".to_string()),
        Err(RuntimeError::BlackBoardError("the key k is not locked or absent".to_string()))
    );
    assert_eq!(
        bb.unlock("absent".to_string()),
        Err(RuntimeError::BlackBoardError(
            "the key absent is not locked or absent".to_string()
        ))
    );
}

#[test]
fn put_then_get_reads_back() {
    let mut bb = BlackBoard::default();
    assert_eq!(bb.get("a".to_string()), None);
    assert_eq!(bb.put("a".to_string(), RtValue::str("v".to_string())), Ok(()));
    assert_eq!(bb.get("a".to_string()), Some(RtValue::str("v".to_string())));
    assert_eq!(bb.put("a".to_string(), RtValue::Bool(true)), Ok(()));
    assert_eq!(bb.get("a".to_string()), Some(RtValue::Bool(true)));
}

#[test]
fn put_on_locked_key_fails() {
    let mut bb = BlackBoard::new(vec![("k".to_string(), BBValue::Locked(RtValue::integer(1)))]);
    assert_eq!(
        bb.put("k".to_string(), RtValue::integer(2)),
        Err(RuntimeError::BlackBoardError("the key k is locked".to_string()))
    );
    assert_eq!(bb.get("k".to_string()), Some(RtValue::integer(1)));
}

#[test]
fn later_initial_entry_wins() {
    let bb = BlackBoard::new(vec![
        ("k".to_string(), BBValue::Unlocked(RtValue::integer(1))),
        ("k".to_string(), BBValue::Locked(RtValue::integer(2))),
    ]);
    assert_eq!(bb.get("k".to_string()), Some(RtValue::integer(2)));
    assert_eq!(bb.is_locked("k".to_string()), Ok(true));
}

#[test]
fn store_tick_writes_tick_number() {
    let mut ctx = ctx_with(BlackBoard::default(), 42);
    let r = StoreTick.tick(RtArgs(vec![arg("key", RtValue::str("t".to_string()))]), &mut ctx);
    assert_eq!(r, Ok(TickResult::Success));
    assert_eq!(ctx.bb.get("t".to_string()), Some(RtValue::integer(42)));
}

#[test]
fn store_tick_without_argument_is_an_error() {
    let mut ctx = ctx_with(BlackBoard::default(), 1);
    let r = StoreTick.tick(RtArgs(vec![]), &mut ctx);
    assert_eq!(
        r,
        Err(RuntimeError::Unexpected(
            "the store_tick has at least one parameter".to_string()
        ))
    );
    let r = StoreTick.tick(RtArgs(vec![arg("key", RtValue::integer(3))]), &mut ctx);
    assert_eq!(
        r,
        Err(RuntimeError::Unexpected(
            "the store_tick has at least one parameter".to_string()
        ))
    );
}

#[test]
fn check_eq_equal_and_unequal() {
    let bb = BlackBoard::new(vec![("x".to_string(), BBValue::Unlocked(RtValue::integer(1)))]);
    let mut ctx = ctx_with(bb, 1);
    let r = CheckEq.tick(
        RtArgs(vec![
            arg("key", RtValue::ptr("x".to_string())),
            arg("expected", RtValue::integer(1)),
        ]),
        &mut ctx,
    );
    assert_eq!(r, Ok(TickResult::Success));
    let r = CheckEq.tick(
        RtArgs(vec![
            arg("key", RtValue::ptr("x".to_string())),
            arg("expected", RtValue::integer(2)),
        ]),
        &mut ctx,
    );
    assert_eq!(r, Ok(TickResult::failure("1 != 2".to_string())));
}

#[test]
fn check_eq_by_position_and_missing_arguments() {
    let mut ctx = ctx_with(BlackBoard::default(), 1);
    let r = CheckEq.tick(
        RtArgs(vec![
            arg("a", RtValue::str("s".to_string())),
            arg("b", RtValue::str("s".to_string())),
        ]),
        &mut ctx,
    );
    assert_eq!(r, Ok(TickResult::Success));
    let r = CheckEq.tick(RtArgs(vec![]), &mut ctx);
    assert_eq!(
        r,
        Err(RuntimeError::Unexpected("the key is expected ".to_string()))
    );
    let r = CheckEq.tick(RtArgs(vec![arg("key", RtValue::Bool(true))]), &mut ctx);
    assert_eq!(
        r,
        Err(RuntimeError::Unexpected("the key is expected".to_string()))
    );
    let r = CheckEq.tick(
        RtArgs(vec![
            arg("key", RtValue::ptr("nope".to_string())),
            arg("expected", RtValue::Nothing),
        ]),
        &mut ctx,
    );
    assert_eq!(
        r,
        Err(RuntimeError::BlackBoardError(
            "the pointer nope is absent".to_string()
        ))
    );
}

#[test]
fn check_eq_failure_names_both_values() {
    let mut ctx = ctx_with(BlackBoard::default(), 1);
    let r = CheckEq.tick(
        RtArgs(vec![
            arg("key", RtValue::Bool(false)),
            arg("expected", RtValue::integer(-15)),
        ]),
        &mut ctx,
    );
    assert_eq!(r, Ok(TickResult::failure("false != -15".to_string())));
}

fn increment(v: RtValue) -> RtValue {
    match v {
        RtValue::Int(i) => RtValue::Int(i + 1),
        other => other,
    }
}

#[test]
fn generate_data_uses_default_then_stored_value() {
    let action = GenerateData::new(increment);
    let mut ctx = ctx_with(BlackBoard::default(), 1);
    let args = || {
        RtArgs(vec![
            arg("key", RtValue::str("c".to_string())),
            arg("default", RtValue::integer(10)),
        ])
    };
    assert_eq!(action.tick(args(), &mut ctx), Ok(TickResult::Success));
    assert_eq!(ctx.bb.get("c".to_string()), Some(RtValue::integer(11)));
    assert_eq!(action.tick(args(), &mut ctx), Ok(TickResult::Success));
    assert_eq!(ctx.bb.get("c".to_string()), Some(RtValue::integer(12)));
}

#[test]
fn generate_data_errors() {
    let action = GenerateData::new(increment);
    let mut ctx = ctx_with(BlackBoard::default(), 1);
    assert_eq!(
        action.tick(RtArgs(vec![arg("key", RtValue::integer(1))]), &mut ctx),
        Err(RuntimeError::Unexpected(
            "the key is expected and should be a string".to_string()
        ))
    );
    assert_eq!(
        action.tick(RtArgs(vec![arg("key", RtValue::str("c".to_string()))]), &mut ctx),
        Err(RuntimeError::Unexpected("the default is expected".to_string()))
    );
}

#[test]
fn store_data_writes_and_respects_lock() {
    let mut ctx = ctx_with(BlackBoard::default(), 1);
    let args = RtArgs(vec![
        arg("key", RtValue::str("x".to_string())),
        arg("value", RtValue::integer(5)),
    ]);
    assert_eq!(StoreData.tick(args, &mut ctx), Ok(TickResult::Success));
    assert_eq!(ctx.bb.get("x".to_string()), Some(RtValue::integer(5)));
    assert_eq!(ctx.bb.lock("x".to_string()), Ok(()));
    let args = RtArgs(vec![
        arg("key", RtValue::str("x".to_string())),
        arg("value", RtValue::integer(6)),
    ]);
    assert_eq!(
        StoreData.tick(args, &mut ctx),
        Err(RuntimeError::BlackBoardError("the key x is locked".to_string()))
    );
    assert_eq!(
        StoreData.tick(RtArgs(vec![arg("key", RtValue::str("y".to_string()))]), &mut ctx),
        Err(RuntimeError::Unexpected("the value is expected".to_string()))
    );
}

#[test]
fn error_constructors() {
    assert_eq!(
        RuntimeErrorCause::io("disk".to_string()),
        RuntimeErrorCause::IOError("disk".to_string())
    );
    assert_eq!(
        RuntimeErrorCause::un("bug".to_string()),
        RuntimeErrorCause::Unexpected("bug".to_string())
    );
}

#[test]
fn argument_lookup() {
    let args = RtArgs(vec![
        arg("a", RtValue::integer(1)),
        arg("b", RtValue::integer(2)),
    ]);
    assert_eq!(args.find_or_ith("b".to_string(), 0), Some(RtValue::integer(2)));
    assert_eq!(args.find_or_ith("z".to_string(), 0), Some(RtValue::integer(1)));
    assert_eq!(args.find_or_ith("z".to_string(), 5), None);
    assert_eq!(args.first(), Some(RtValue::integer(1)));
    assert_eq!(args.ith(1), Some(RtValue::integer(2)));
    assert_eq!(RtArgs(vec![]).first(), None);
}

#[test]
fn tracer_records_events() {
    let mut t = Tracer::InMemory(vec![]);
    t.trace("a".to_string());
    t.trace("b".to_string());
    match t {
        Tracer::InMemory(events) => assert_eq!(events, vec!["a".to_string(), "b".to_string()]),
        Tracer::Noop => panic!("the tracer changed kind"),
    }
}

#[test]
fn composite_values_compare_structurally() {
    let a = RtValue::Array(vec![RtValue::integer(1), RtValue::str("s".to_string())]);
    let b = RtValue::Array(vec![RtValue::integer(1), RtValue::str("s".to_string())]);
    let c = RtValue::Array(vec![RtValue::integer(1)]);
    assert_eq!(a, b);
    assert_ne!(a, c);
    assert_eq!(a.clone(), a);
    let o = RtValue::Object(vec![("k".to_string(), a.clone())]);
    let p = RtValue::Object(vec![("k".to_string(), b)]);
    let q = RtValue::Object(vec![("j".to_string(), a)]);
    assert_eq!(o, p);
    assert_ne!(o, q);
    assert_eq!(o.clone(), o);
}

#[test]
fn composite_values_in_messages() {
    let arr = RtValue::Array(vec![RtValue::integer(1), RtValue::Bool(true), RtValue::Nothing]);
    assert_eq!(arr.describe(), "[1, true, nothing]".to_string());
    let obj = RtValue::Object(vec![
        ("a".to_string(), RtValue::integer(2)),
        ("b".to_string(), RtValue::Array(vec![])),
    ]);
    assert_eq!(obj.describe(), "{a: 2, b: []}".to_string());
    assert_eq!(RtValue::ptr("k".to_string()).describe(), "ptr(k)".to_string());
    let bb = BlackBoard::new(vec![("x".to_string(), BBValue::Unlocked(arr.clone()))]);
    let mut ctx = ctx_with(bb, 1);
    let r = CheckEq.tick(
        RtArgs(vec![arg("key", RtValue::ptr("x".to_string())), arg("expected", obj)]),
        &mut ctx,
    );
    assert_eq!(
        r,
        Ok(TickResult::failure("[1, true, nothing] != {a: 2, b: []}".to_string()))
    );
    let r = CheckEq.tick(
        RtArgs(vec![arg("key", RtValue::ptr("x".to_string())), arg("expected", arr)]),
        &mut ctx,
    );
    assert_eq!(r, Ok(TickResult::Success));
}
