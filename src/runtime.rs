use vstd::prelude::*;

verus! {

/// What one tick of a node or an action yields. `Failure` is an ordinary
/// outcome and carries a reason; it is never an error.
#[derive(Debug)]
pub enum TickResult {
    Success,
    Failure(String),
    Running,
}

/// The model of a tick outcome.
pub enum Outcome {
    Success,
    Failure(Seq<char>),
    Running,
}

impl View for TickResult {
    type V = Outcome;

    open spec fn view(&self) -> Outcome {
        match self {
            TickResult::Success => Outcome::Success,
            TickResult::Failure(m) => Outcome::Failure(m@),
            TickResult::Running => Outcome::Running,
        }
    }
}

impl TickResult {
    pub fn success() -> (r: TickResult)
        ensures
            r@ == Outcome::Success,
    {
        TickResult::Success
    }

    pub fn failure(reason: String) -> (r: TickResult)
        ensures
            r@ == Outcome::Failure(reason@),
    {
        TickResult::Failure(reason)
    }

    pub fn running() -> (r: TickResult)
        ensures
            r@ == Outcome::Running,
    {
        TickResult::Running
    }
}

impl Clone for TickResult {
    fn clone(&self) -> (r: Self)
        ensures
            r@ == self@,
    {
        match self {
            TickResult::Success => TickResult::Success,
            TickResult::Failure(m) => TickResult::Failure(m.clone()),
            TickResult::Running => TickResult::Running,
        }
    }
}

impl PartialEq for TickResult {
    fn eq(&self, other: &TickResult) -> (r: bool) {
        match self {
            TickResult::Success => match other {
                TickResult::Success => true,
                _ => false,
            },
            TickResult::Failure(x) => match other {
                TickResult::Failure(y) => *x == *y,
                _ => false,
            },
            TickResult::Running => match other {
                TickResult::Running => true,
                _ => false,
            },
        }
    }
}

impl vstd::std_specs::cmp::PartialEqSpecImpl for TickResult {
    open spec fn obeys_eq_spec() -> bool {
        true
    }

    open spec fn eq_spec(&self, other: &TickResult) -> bool {
        self@ == other@
    }
}

/// Why a tick was aborted.
#[derive(Debug)]
pub enum RuntimeErrorCause {
    UnImplementedAction(String),
    BlackBoardError(String),
    IOError(String),
    Unexpected(String),
}

/// The error channel of the runtime.
pub type RuntimeError = RuntimeErrorCause;

/// The model of an error: its kind and its message.
pub enum ErrorModel {
    UnImplementedAction(Seq<char>),
    BlackBoardError(Seq<char>),
    IOError(Seq<char>),
    Unexpected(Seq<char>),
}

impl View for RuntimeErrorCause {
    type V = ErrorModel;

    open spec fn view(&self) -> ErrorModel {
        match self {
            RuntimeErrorCause::UnImplementedAction(m) => ErrorModel::UnImplementedAction(m@),
            RuntimeErrorCause::BlackBoardError(m) => ErrorModel::BlackBoardError(m@),
            RuntimeErrorCause::IOError(m) => ErrorModel::IOError(m@),
            RuntimeErrorCause::Unexpected(m) => ErrorModel::Unexpected(m@),
        }
    }
}

impl RuntimeErrorCause {
    pub fn io(v: String) -> (r: RuntimeErrorCause)
        ensures
            r@ == ErrorModel::IOError(v@),
    {
        RuntimeErrorCause::IOError(v)
    }

    pub fn un(v: String) -> (r: RuntimeErrorCause)
        ensures
            r@ == ErrorModel::Unexpected(v@),
    {
        RuntimeErrorCause::Unexpected(v)
    }
}

impl Clone for RuntimeErrorCause {
    fn clone(&self) -> (r: Self)
        ensures
            r@ == self@,
    {
        match self {
            RuntimeErrorCause::UnImplementedAction(m) => RuntimeErrorCause::UnImplementedAction(
                m.clone(),
            ),
            RuntimeErrorCause::BlackBoardError(m) => RuntimeErrorCause::BlackBoardError(m.clone()),
            RuntimeErrorCause::IOError(m) => RuntimeErrorCause::IOError(m.clone()),
            RuntimeErrorCause::Unexpected(m) => RuntimeErrorCause::Unexpected(m.clone()),
        }
    }
}

impl PartialEq for RuntimeErrorCause {
    fn eq(&self, other: &RuntimeErrorCause) -> (r: bool) {
        match self {
            RuntimeErrorCause::UnImplementedAction(x) => match other {
                RuntimeErrorCause::UnImplementedAction(y) => *x == *y,
                _ => false,
            },
            RuntimeErrorCause::BlackBoardError(x) => match other {
                RuntimeErrorCause::BlackBoardError(y) => *x == *y,
                _ => false,
            },
            RuntimeErrorCause::IOError(x) => match other {
                RuntimeErrorCause::IOError(y) => *x == *y,
                _ => false,
            },
            RuntimeErrorCause::Unexpected(x) => match other {
                RuntimeErrorCause::Unexpected(y) => *x == *y,
                _ => false,
            },
        }
    }
}

impl vstd::std_specs::cmp::PartialEqSpecImpl for RuntimeErrorCause {
    open spec fn obeys_eq_spec() -> bool {
        true
    }

    open spec fn eq_spec(&self, other: &RuntimeErrorCause) -> bool {
        self@ == other@
    }
}

/// The result of ticking an action or a node.
pub type Tick = Result<TickResult, RuntimeError>;

/// The model of a tick's result.
pub open spec fn tick_view(t: Tick) -> Result<Outcome, ErrorModel> {
    match t {
        Ok(r) => Ok(r@),
        Err(e) => Err(e@),
    }
}

} // verus!
