use vstd::prelude::*;
use vstd::string::*;
use crate::args::{RtValue, Value};
use crate::blackboard::{get_spec, BlackBoard, Board};
use crate::runtime::{ErrorModel, RuntimeError};

verus! {

/// Records tick events, or drops them.
#[derive(Debug)]
pub enum Tracer {
    Noop,
    InMemory(Vec<String>),
}

impl Tracer {
    /// Appends an event; the no-op tracer keeps nothing.
    pub fn trace(&mut self, event: String)
        ensures
            match *old(self) {
                Tracer::Noop => *final(self) is Noop,
                Tracer::InMemory(events) => *final(self) is InMemory && final(self)->InMemory_0@
                    == events@.push(event),
            },
    {
        match self {
            Tracer::Noop => {},
            Tracer::InMemory(events) => events.push(event),
        }
    }
}

/// What a node or an action sees while it is ticked: the current tick, the
/// shared blackboard and the tracer.
pub struct TreeContext {
    pub bb: BlackBoard,
    pub tracer: Tracer,
    pub tick: usize,
}

pub open spec fn absent_pointer_message(k: Seq<char>) -> Seq<char> {
    "the pointer "@ + k + " is absent"@
}

/// The value an argument stands for: a pointer reads the blackboard.
pub open spec fn resolve_spec(m: Board, v: Value) -> Result<Value, ErrorModel> {
    match v {
        Value::Pointer(k) => match get_spec(m, k) {
            Some(x) => Ok(x),
            None => Err(ErrorModel::BlackBoardError(absent_pointer_message(k))),
        },
        _ => Ok(v),
    }
}

/// A key argument: present, and resolving to a string.
pub open spec fn string_key(m: Board, a: Option<Value>, missing: Seq<char>) -> Result<
    Seq<char>,
    ErrorModel,
> {
    match a {
        None => Err(ErrorModel::Unexpected(missing)),
        Some(v) => match resolve_spec(m, v) {
            Err(e) => Err(e),
            Ok(Value::Str(s)) => Ok(s),
            Ok(_) => Err(ErrorModel::Unexpected(missing)),
        },
    }
}

impl TreeContext {
    pub open spec fn wf(&self) -> bool {
        self.bb.wf()
    }

    pub fn new(bb: BlackBoard, tracer: Tracer, tick: usize) -> (r: TreeContext)
        ensures
            r.bb == bb,
            r.tracer == tracer,
            r.tick == tick,
    {
        TreeContext { bb, tracer, tick }
    }

    pub fn current_tick(&self) -> (r: usize)
        ensures
            r == self.tick,
    {
        self.tick
    }

    /// The value an argument stands for.
    pub fn resolve(&self, v: RtValue) -> (r: Result<RtValue, RuntimeError>)
        requires
            self.wf(),
        ensures
            match r {
                Ok(x) => resolve_spec(self.bb@, v@) == Ok::<Value, ErrorModel>(x@),
                Err(e) => resolve_spec(self.bb@, v@) == Err::<Value, ErrorModel>(e@),
            },
    {
        match v {
            RtValue::Pointer(k) => match self.bb.get(k.clone()) {
                Some(x) => Ok(x),
                None => {
                    proof {
                        reveal_strlit("the pointer ");
                        reveal_strlit(" is absent");
                    }
                    Err(
                        RuntimeError::BlackBoardError(
                            String::from_str("the pointer ").concat(k.as_str()).concat(
                                " is absent",
                            ),
                        ),
                    )
                },
            },
            other => Ok(other),
        }
    }

    /// Reads a key argument: it must be present and resolve to a string.
    pub fn string_key(&self, a: Option<RtValue>, missing: &str) -> (r: Result<String, RuntimeError>)
        requires
            self.wf(),
        ensures
            match r {
                Ok(s) => string_key(self.bb@, crate::args::opt_view(a), missing@) == Ok::<
                    Seq<char>,
                    ErrorModel,
                >(s@),
                Err(e) => string_key(self.bb@, crate::args::opt_view(a), missing@) == Err::<
                    Seq<char>,
                    ErrorModel,
                >(e@),
            },
    {
        match a {
            None => Err(RuntimeError::Unexpected(String::from_str(missing))),
            Some(v) => match self.resolve(v) {
                Err(e) => Err(e),
                Ok(RtValue::Str(s)) => Ok(s),
                Ok(_) => Err(RuntimeError::Unexpected(String::from_str(missing))),
            },
        }
    }
}

} // verus!
