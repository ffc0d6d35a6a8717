use vstd::prelude::*;
use vstd::string::*;
use crate::action::Impl;
use crate::args::{args_model, describe_spec, find_or_ith_spec, RtArgs, RtValue, Value};
use crate::blackboard::{get_spec, lock_spec, put_spec, unlock_spec, Board};
use crate::context::{resolve_spec, string_key, TreeContext};
use crate::runtime::{tick_view, ErrorModel, Outcome, RuntimeError, Tick, TickResult};

verus! {

/// A change of the board that ends the tick in success, or its error with
/// the board untouched.
pub open spec fn write_outcome(
    before: Board,
    after: Board,
    r: Result<Outcome, ErrorModel>,
    change: Result<Board, ErrorModel>,
) -> bool {
    match change {
        Ok(m) => r == Ok::<Outcome, ErrorModel>(Outcome::Success) && after == m,
        Err(e) => r == Err::<Outcome, ErrorModel>(e) && after == before,
    }
}

/// The first argument, if any.
pub open spec fn first_spec(args: Seq<(Seq<char>, Value)>) -> Option<Value> {
    if args.len() == 0 {
        None
    } else {
        Some(args[0].1)
    }
}

pub open spec fn key_not_found() -> Seq<char> {
    "the key argument is not found"@
}

pub open spec fn store_tick_missing() -> Seq<char> {
    "the store_tick has at least one parameter"@
}

pub open spec fn key_expected() -> Seq<char> {
    "the key is expected and should be a string"@
}

fn tick_of(r: Result<(), RuntimeError>) -> (t: Tick)
    ensures
        match r {
            Ok(_) => tick_view(t) == Ok::<Outcome, ErrorModel>(Outcome::Success),
            Err(e) => tick_view(t) == Err::<Outcome, ErrorModel>(e@),
        },
{
    match r {
        Ok(_) => Ok(TickResult::Success),
        Err(e) => Err(e),
    }
}

/// Locks or unlocks the blackboard key named by the first argument.
pub enum LockUnlockBBKey {
    Lock,
    Unlock,
}

impl Impl for LockUnlockBBKey {
    open spec fn ready(&self) -> bool {
        true
    }

    open spec fn tick_post(
        &self,
        args: Seq<(Seq<char>, Value)>,
        tick: usize,
        before: Board,
        after: Board,
        r: Result<Outcome, ErrorModel>,
    ) -> bool {
        match string_key(before, first_spec(args), key_not_found()) {
            Err(e) => r == Err::<Outcome, ErrorModel>(e) && after == before,
            Ok(k) => write_outcome(
                before,
                after,
                r,
                match self {
                    LockUnlockBBKey::Lock => lock_spec(before, k),
                    LockUnlockBBKey::Unlock => unlock_spec(before, k),
                },
            ),
        }
    }

    fn tick(&self, args: RtArgs, ctx: &mut TreeContext) -> (r: Tick) {
        proof {
            reveal_strlit("the key argument is not found");
        }
        let key = match ctx.string_key(args.first(), "the key argument is not found") {
            Ok(k) => k,
            Err(e) => {
                return Err(e);
            },
        };
        match self {
            LockUnlockBBKey::Lock => tick_of(ctx.bb.lock(key)),
            LockUnlockBBKey::Unlock => tick_of(ctx.bb.unlock(key)),
        }
    }
}

/// Stores the current tick number, as an integer, under the key that the
/// first argument names.
pub struct StoreTick;

impl Impl for StoreTick {
    open spec fn ready(&self) -> bool {
        true
    }

    open spec fn tick_post(
        &self,
        args: Seq<(Seq<char>, Value)>,
        tick: usize,
        before: Board,
        after: Board,
        r: Result<Outcome, ErrorModel>,
    ) -> bool {
        match string_key(before, first_spec(args), store_tick_missing()) {
            Err(e) => r == Err::<Outcome, ErrorModel>(e) && after == before,
            Ok(k) => write_outcome(before, after, r, put_spec(before, k, Value::Int(tick as i64))),
        }
    }

    fn tick(&self, args: RtArgs, ctx: &mut TreeContext) -> (r: Tick) {
        proof {
            reveal_strlit("the store_tick has at least one parameter");
        }
        let curr_tick = ctx.current_tick();
        let key = match ctx.string_key(args.first(), "the store_tick has at least one parameter") {
            Ok(k) => k,
            Err(e) => {
                return Err(e);
            },
        };
        tick_of(ctx.bb.put(key, RtValue::integer(curr_tick as i64)))
    }
}

/// The reason a `CheckEq` fails: both values, as they read.
pub open spec fn mismatch_message(actual: Value, expected: Value) -> Seq<char> {
    describe_spec(actual) + " != "@ + describe_spec(expected)
}

/// Compares the value that the `key` argument stands for with the
/// `expected` argument.
pub struct CheckEq;

impl Impl for CheckEq {
    open spec fn ready(&self) -> bool {
        true
    }

    open spec fn tick_post(
        &self,
        args: Seq<(Seq<char>, Value)>,
        tick: usize,
        before: Board,
        after: Board,
        r: Result<Outcome, ErrorModel>,
    ) -> bool {
        &&& after == before
        &&& match find_or_ith_spec(args, "key"@, 0) {
            None => r == Err::<Outcome, ErrorModel>(ErrorModel::Unexpected("the key is expected "@)),
            Some(key) => match find_or_ith_spec(args, "expected"@, 1) {
                None => r == Err::<Outcome, ErrorModel>(
                    ErrorModel::Unexpected("the key is expected"@),
                ),
                Some(expected) => match resolve_spec(before, key) {
                    Err(e) => r == Err::<Outcome, ErrorModel>(e),
                    Ok(actual) => if actual == expected {
                        r == Ok::<Outcome, ErrorModel>(Outcome::Success)
                    } else {
                        r == Ok::<Outcome, ErrorModel>(
                            Outcome::Failure(mismatch_message(actual, expected)),
                        )
                    },
                },
            },
        }
    }

    fn tick(&self, args: RtArgs, ctx: &mut TreeContext) -> (r: Tick) {
        proof {
            reveal_strlit("key");
            reveal_strlit("expected");
            reveal_strlit("the key is expected ");
            reveal_strlit("the key is expected");
            reveal_strlit(" != ");
        }
        let key = match args.find_or_ith(String::from_str("key"), 0) {
            Some(k) => k,
            None => {
                return Err(RuntimeError::Unexpected(String::from_str("the key is expected ")));
            },
        };
        let expected = match args.find_or_ith(String::from_str("expected"), 1) {
            Some(e) => e,
            None => {
                return Err(RuntimeError::Unexpected(String::from_str("the key is expected")));
            },
        };
        let actual = match ctx.resolve(key) {
            Ok(a) => a,
            Err(e) => {
                return Err(e);
            },
        };
        if actual == expected {
            Ok(TickResult::success())
        } else {
            let m = actual.describe().concat(" != ").concat(expected.describe().as_str());
            Ok(TickResult::failure(m))
        }
    }
}

/// Replaces the value under the `key` argument by what the generator makes
/// of it; an absent key starts from the `default` argument. The read and the
/// write happen within one exclusive use of the board.
pub struct GenerateData<T> where T: Fn(RtValue) -> RtValue {
    pub generator: T,
}

impl<T> GenerateData<T> where T: Fn(RtValue) -> RtValue {
    pub fn new(generator: T) -> (r: Self)
        ensures
            r.generator == generator,
    {
        Self { generator }
    }
}

/// The value that `GenerateData` starts from: the stored one, or else the
/// default.
pub open spec fn current_or(m: Board, k: Seq<char>, default: Value) -> Value {
    match get_spec(m, k) {
        Some(v) => v,
        None => default,
    }
}

impl<T> Impl for GenerateData<T> where T: Fn(RtValue) -> RtValue {
    open spec fn ready(&self) -> bool {
        forall|x: RtValue| #[trigger] self.generator.requires((x,))
    }

    open spec fn tick_post(
        &self,
        args: Seq<(Seq<char>, Value)>,
        tick: usize,
        before: Board,
        after: Board,
        r: Result<Outcome, ErrorModel>,
    ) -> bool {
        match string_key(before, find_or_ith_spec(args, "key"@, 0), key_expected()) {
            Err(e) => r == Err::<Outcome, ErrorModel>(e) && after == before,
            Ok(k) => match find_or_ith_spec(args, "default"@, 1) {
                None => r == Err::<Outcome, ErrorModel>(
                    ErrorModel::Unexpected("the default is expected"@),
                ) && after == before,
                Some(d) => exists|x: RtValue, y: RtValue|
                    x@ == current_or(before, k, d) && #[trigger] self.generator.ensures((x,), y)
                        && write_outcome(before, after, r, put_spec(before, k, y@)),
            },
        }
    }

    fn tick(&self, args: RtArgs, ctx: &mut TreeContext) -> (r: Tick) {
        proof {
            reveal_strlit("key");
            reveal_strlit("default");
            reveal_strlit("the key is expected and should be a string");
            reveal_strlit("the default is expected");
        }
        let key = match ctx.string_key(
            args.find_or_ith(String::from_str("key"), 0),
            "the key is expected and should be a string",
        ) {
            Ok(k) => k,
            Err(e) => {
                return Err(e);
            },
        };
        let default = match args.find_or_ith(String::from_str("default"), 1) {
            Some(v) => v,
            None => {
                return Err(RuntimeError::Unexpected(String::from_str("the default is expected")));
            },
        };
        let curr = match ctx.bb.get(key.clone()) {
            Some(v) => v,
            None => default,
        };
        let next = (self.generator)(curr);
        tick_of(ctx.bb.put(key, next))
    }
}

/// Stores the `value` argument under the key that the `key` argument names.
pub struct StoreData;

impl Impl for StoreData {
    open spec fn ready(&self) -> bool {
        true
    }

    open spec fn tick_post(
        &self,
        args: Seq<(Seq<char>, Value)>,
        tick: usize,
        before: Board,
        after: Board,
        r: Result<Outcome, ErrorModel>,
    ) -> bool {
        match string_key(before, find_or_ith_spec(args, "key"@, 0), key_expected()) {
            Err(e) => r == Err::<Outcome, ErrorModel>(e) && after == before,
            Ok(k) => match find_or_ith_spec(args, "value"@, 1) {
                None => r == Err::<Outcome, ErrorModel>(
                    ErrorModel::Unexpected("the value is expected"@),
                ) && after == before,
                Some(v) => write_outcome(before, after, r, put_spec(before, k, v)),
            },
        }
    }

    fn tick(&self, args: RtArgs, ctx: &mut TreeContext) -> (r: Tick) {
        proof {
            reveal_strlit("key");
            reveal_strlit("value");
            reveal_strlit("the key is expected and should be a string");
            reveal_strlit("the value is expected");
        }
        let key = match ctx.string_key(
            args.find_or_ith(String::from_str("key"), 0),
            "the key is expected and should be a string",
        ) {
            Ok(k) => k,
            Err(e) => {
                return Err(e);
            },
        };
        let value = match args.find_or_ith(String::from_str("value"), 1) {
            Some(v) => v,
            None => {
                return Err(RuntimeError::Unexpected(String::from_str("the value is expected")));
            },
        };
        tick_of(ctx.bb.put(key, value))
    }
}

} // verus!

verus! {

/// The builtin data actions under one type, so that one registry can hold
/// them all.
pub enum Builtin {
    LockUnlock(LockUnlockBBKey),
    StoreTick(StoreTick),
    CheckEq(CheckEq),
    StoreData(StoreData),
}

impl Impl for Builtin {
    open spec fn ready(&self) -> bool {
        true
    }

    open spec fn tick_post(
        &self,
        args: Seq<(Seq<char>, Value)>,
        tick: usize,
        before: Board,
        after: Board,
        r: Result<Outcome, ErrorModel>,
    ) -> bool {
        match self {
            Builtin::LockUnlock(a) => a.tick_post(args, tick, before, after, r),
            Builtin::StoreTick(a) => a.tick_post(args, tick, before, after, r),
            Builtin::CheckEq(a) => a.tick_post(args, tick, before, after, r),
            Builtin::StoreData(a) => a.tick_post(args, tick, before, after, r),
        }
    }

    fn tick(&self, args: RtArgs, ctx: &mut TreeContext) -> (r: Tick) {
        match self {
            Builtin::LockUnlock(a) => a.tick(args, ctx),
            Builtin::StoreTick(a) => a.tick(args, ctx),
            Builtin::CheckEq(a) => a.tick(args, ctx),
            Builtin::StoreData(a) => a.tick(args, ctx),
        }
    }
}

} // verus!

verus! {

/// After `StoreTick` succeeds on tick `n`, reading the key it was given
/// returns `n` as an integer.
pub proof fn law_store_tick_then_get(
    args: Seq<(Seq<char>, Value)>,
    n: usize,
    before: Board,
    after: Board,
    r: Result<Outcome, ErrorModel>,
)
    requires
        StoreTick.tick_post(args, n, before, after, r),
        r is Ok,
        n <= i64::MAX,
    ensures
        string_key(before, first_spec(args), store_tick_missing()) is Ok,
        get_spec(
            after,
            string_key(before, first_spec(args), store_tick_missing())->Ok_0,
        ) == Some(Value::Int(n as i64)),
        n as i64 as int == n as int,
{
}

} // verus!
