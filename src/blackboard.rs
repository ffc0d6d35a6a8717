use vstd::prelude::*;
use vstd::string::*;
use crate::args::{RtValue, Value};
use crate::runtime::{ErrorModel, RuntimeError};

verus! {

/// A blackboard cell: the value is kept while the key is reserved.
#[derive(Debug)]
pub enum BBValue {
    Locked(RtValue),
    Unlocked(RtValue),
}

impl Clone for BBValue {
    fn clone(&self) -> (r: Self)
        ensures
            r@ == self@,
    {
        match self {
            BBValue::Locked(v) => BBValue::Locked(v.clone()),
            BBValue::Unlocked(v) => BBValue::Unlocked(v.clone()),
        }
    }
}

/// The model of a blackboard cell.
pub enum Cell {
    Locked(Value),
    Unlocked(Value),
}

impl View for BBValue {
    type V = Cell;

    open spec fn view(&self) -> Cell {
        match self {
            BBValue::Locked(v) => Cell::Locked(v@),
            BBValue::Unlocked(v) => Cell::Unlocked(v@),
        }
    }
}

/// The value a cell holds, whatever its lock state.
pub open spec fn cell_value(c: Cell) -> Value {
    match c {
        Cell::Locked(v) => v,
        Cell::Unlocked(v) => v,
    }
}

/// The model of a whole blackboard.
pub type Board = Map<Seq<char>, Cell>;

pub open spec fn is_locked_spec(m: Board, k: Seq<char>) -> bool {
    m.contains_key(k) && m[k] is Locked
}

pub open spec fn get_spec(m: Board, k: Seq<char>) -> Option<Value> {
    if m.contains_key(k) {
        Some(cell_value(m[k]))
    } else {
        None
    }
}

pub open spec fn taken_message(k: Seq<char>) -> Seq<char> {
    "the key "@ + k + " is taken or absent"@
}

pub open spec fn not_locked_message(k: Seq<char>) -> Seq<char> {
    "the key "@ + k + " is not locked or absent"@
}

pub open spec fn locked_message(k: Seq<char>) -> Seq<char> {
    "the key "@ + k + " is locked"@
}

/// `put`: stores an unlocked value, unless the key is reserved.
pub open spec fn put_spec(m: Board, k: Seq<char>, v: Value) -> Result<Board, ErrorModel> {
    if is_locked_spec(m, k) {
        Err(ErrorModel::BlackBoardError(locked_message(k)))
    } else {
        Ok(m.insert(k, Cell::Unlocked(v)))
    }
}

/// `lock`: reserves a present, unreserved key.
pub open spec fn lock_spec(m: Board, k: Seq<char>) -> Result<Board, ErrorModel> {
    if m.contains_key(k) && m[k] is Unlocked {
        Ok(m.insert(k, Cell::Locked(cell_value(m[k]))))
    } else {
        Err(ErrorModel::BlackBoardError(taken_message(k)))
    }
}

/// `unlock`: releases a reserved key.
pub open spec fn unlock_spec(m: Board, k: Seq<char>) -> Result<Board, ErrorModel> {
    if is_locked_spec(m, k) {
        Ok(m.insert(k, Cell::Unlocked(cell_value(m[k]))))
    } else {
        Err(ErrorModel::BlackBoardError(not_locked_message(k)))
    }
}

/// The board that a list of initial entries describes; a later entry for a
/// key replaces an earlier one.
pub open spec fn board_of(entries: Seq<(Seq<char>, Cell)>) -> Board
    decreases entries.len(),
{
    if entries.len() == 0 {
        Map::empty()
    } else {
        board_of(entries.drop_last()).insert(entries.last().0, entries.last().1)
    }
}

/// The state of an operation that changes the board: the new board, or the
/// error with the board left as it was.
pub open spec fn outcome_matches(
    before: Board,
    after: Board,
    r: Result<(), RuntimeError>,
    expected: Result<Board, ErrorModel>,
) -> bool {
    match expected {
        Ok(m) => r is Ok && after == m,
        Err(e) => r matches Err(x) && x@ == e && after == before,
    }
}

/// Locking a key that holds an unlocked value keeps that value readable,
/// and unlocking it afterwards succeeds and gives back the board as it was,
/// so reads and writes then behave as on a key that was never locked.
pub proof fn law_lock_then_unlock(m: Board, k: Seq<char>)
    requires
        m.contains_key(k),
        m[k] is Unlocked,
    ensures
        lock_spec(m, k) is Ok,
        get_spec(lock_spec(m, k)->Ok_0, k) == get_spec(m, k),
        unlock_spec(lock_spec(m, k)->Ok_0, k) == Ok::<Board, ErrorModel>(m),
{
    let locked = lock_spec(m, k)->Ok_0;
    assert(locked.insert(k, Cell::Unlocked(cell_value(locked[k]))) =~= m);
}

/// Locking a reserved key, or unlocking a key that is absent or not
/// reserved, is a blackboard error.
pub proof fn law_lock_violations(m: Board, k: Seq<char>)
    ensures
        is_locked_spec(m, k) ==> lock_spec(m, k) matches Err(ErrorModel::BlackBoardError(_)),
        !is_locked_spec(m, k) ==> unlock_spec(m, k) matches Err(ErrorModel::BlackBoardError(_)),
{
}

/// A value just stored under an unreserved key is what a read returns.
pub proof fn law_read_after_write(m: Board, k: Seq<char>, v: Value)
    requires
        !is_locked_spec(m, k),
    ensures
        put_spec(m, k, v) is Ok,
        get_spec(put_spec(m, k, v)->Ok_0, k) == Some(v),
{
}

/// Shared key/value store with an advisory lock on each key.
pub struct BlackBoard {
    storage: Vec<(String, BBValue)>,
    model: Ghost<Board>,
}

impl View for BlackBoard {
    type V = Board;

    closed spec fn view(&self) -> Board {
        self.model@
    }
}

impl BlackBoard {
    /// The board is well formed: each key is stored once and the model holds
    /// exactly the stored cells.
    pub closed spec fn wf(&self) -> bool {
        &&& forall|i: int|
            0 <= i < self.storage@.len() ==> #[trigger] self.model@.contains_key(
                self.storage@[i].0@,
            ) && self.model@[self.storage@[i].0@] == self.storage@[i].1@
        &&& forall|k: Seq<char>|
            #[trigger] self.model@.contains_key(k) ==> exists|i: int|
                0 <= i < self.storage@.len() && #[trigger] self.storage@[i].0@ == k
        &&& forall|i: int, j: int|
            0 <= i < j < self.storage@.len() ==> #[trigger] self.storage@[i].0@
                != #[trigger] self.storage@[j].0@
    }

    pub fn empty() -> (r: BlackBoard)
        ensures
            r.wf(),
            r@ == Board::empty(),
    {
        BlackBoard { storage: Vec::new(), model: Ghost(Map::empty()) }
    }

    /// A board holding the given entries; a later entry for a key wins.
    pub fn new(entries: Vec<(String, BBValue)>) -> (r: BlackBoard)
        ensures
            r.wf(),
            r@ == board_of(entries@.map_values(|e: (String, BBValue)| (e.0@, e.1@))),
    {
        let ghost model_of = entries@.map_values(|e: (String, BBValue)| (e.0@, e.1@));
        let mut bb = BlackBoard::empty();
        let mut n: usize = 0;
        while n < entries.len()
            invariant
                model_of == entries@.map_values(|e: (String, BBValue)| (e.0@, e.1@)),
                n <= entries@.len(),
                bb.wf(),
                bb@ == board_of(model_of.take(n as int)),
            decreases entries@.len() - n,
        {
            let k = entries[n].0.clone();
            let v = entries[n].1.clone();
            proof {
                assert(model_of.take(n + 1).drop_last() =~= model_of.take(n as int));
            }
            bb.set(k, v);
            n = n + 1;
        }
        proof {
            assert(model_of.take(entries@.len() as int) =~= model_of);
        }
        bb
    }

    fn index_of(&self, key: &String) -> (r: Option<usize>)
        requires
            self.wf(),
        ensures
            match r {
                Some(i) => i < self.storage@.len() && self.storage@[i as int].0@ == key@
                    && self@.contains_key(key@),
                None => !self@.contains_key(key@),
            },
    {
        let mut i: usize = 0;
        while i < self.storage.len()
            invariant
                self.wf(),
                i <= self.storage@.len(),
                forall|j: int| 0 <= j < i ==> self.storage@[j].0@ != key@,
            decreases self.storage@.len() - i,
        {
            if self.storage[i].0 == *key {
                proof {
                    assert(self.model@.contains_key(self.storage@[i as int].0@));
                }
                return Some(i);
            }
            i = i + 1;
        }
        None
    }

    /// Stores a cell under a key, whatever was there.
    fn set(&mut self, key: String, cell: BBValue)
        requires
            old(self).wf(),
        ensures
            final(self).wf(),
            final(self)@ == old(self)@.insert(key@, cell@),
    {
        let ghost k = key@;
        let ghost c = cell@;
        match self.index_of(&key) {
            Some(i) => {
                self.storage.set(i, (key, cell));
                self.model = Ghost(self.model@.insert(k, c));
                assert forall|j: int| 0 <= j < self.storage@.len() implies #[trigger] self.model@.contains_key(
                    self.storage@[j].0@,
                ) && self.model@[self.storage@[j].0@] == self.storage@[j].1@ by {
                    if j != i {
                        assert(old(self).storage@[j].0@ != old(self).storage@[i as int].0@);
                        assert(old(self).model@.contains_key(old(self).storage@[j].0@));
                    }
                }
                assert forall|a: int, b: int| 0 <= a < b < self.storage@.len() implies #[trigger] self.storage@[a].0@
                    != #[trigger] self.storage@[b].0@ by {
                    assert(old(self).storage@[a].0@ != old(self).storage@[b].0@);
                }
                assert forall|k2: Seq<char>| #[trigger] self.model@.contains_key(k2) implies exists|j: int|
                    0 <= j < self.storage@.len() && #[trigger] self.storage@[j].0@ == k2 by {
                    if k2 != k {
                        let j = choose|j: int| 0 <= j < old(self).storage@.len() && #[trigger] old(self).storage@[j].0@ == k2;
                        assert(self.storage@[j].0@ == k2);
                    } else {
                        assert(self.storage@[i as int].0@ == k2);
                    }
                }
            },
            None => {
                self.storage.push((key, cell));
                self.model = Ghost(self.model@.insert(k, c));
                assert forall|j: int| 0 <= j < old(self).storage@.len() implies old(self).storage@[j].0@ != k by {
                    assert(old(self).model@.contains_key(old(self).storage@[j].0@));
                }
                assert forall|j: int| 0 <= j < self.storage@.len() implies #[trigger] self.model@.contains_key(
                    self.storage@[j].0@,
                ) && self.model@[self.storage@[j].0@] == self.storage@[j].1@ by {
                    if j < old(self).storage@.len() {
                        assert(old(self).model@.contains_key(old(self).storage@[j].0@));
                    }
                }
                assert forall|a: int, b: int| 0 <= a < b < self.storage@.len() implies #[trigger] self.storage@[a].0@
                    != #[trigger] self.storage@[b].0@ by {
                    if b < old(self).storage@.len() {
                        assert(old(self).storage@[a].0@ != old(self).storage@[b].0@);
                    }
                }
                assert forall|k2: Seq<char>| #[trigger] self.model@.contains_key(k2) implies exists|j: int|
                    0 <= j < self.storage@.len() && #[trigger] self.storage@[j].0@ == k2 by {
                    if k2 != k {
                        let j = choose|j: int| 0 <= j < old(self).storage@.len() && #[trigger] old(self).storage@[j].0@ == k2;
                        assert(self.storage@[j].0@ == k2);
                    } else {
                        assert(self.storage@[self.storage@.len() - 1].0@ == k2);
                    }
                }
            },
        }
    }

    /// The value under a key, locked or not.
    pub fn get(&self, key: String) -> (r: Option<RtValue>)
        requires
            self.wf(),
        ensures
            match r {
                Some(v) => get_spec(self@, key@) == Some(v@),
                None => get_spec(self@, key@) is None,
            },
    {
        match self.index_of(&key) {
            Some(i) => match &self.storage[i].1 {
                BBValue::Locked(v) => Some(v.clone()),
                BBValue::Unlocked(v) => Some(v.clone()),
            },
            None => None,
        }
    }

    /// Whether a key is reserved; an absent key is not.
    pub fn is_locked(&self, key: String) -> (r: Result<bool, RuntimeError>)
        requires
            self.wf(),
        ensures
            r == Ok::<bool, RuntimeError>(is_locked_spec(self@, key@)),
    {
        match self.index_of(&key) {
            Some(i) => match &self.storage[i].1 {
                BBValue::Locked(_) => Ok(true),
                BBValue::Unlocked(_) => Ok(false),
            },
            None => Ok(false),
        }
    }

    /// Stores an unlocked value; fails while the key is reserved.
    pub fn put(&mut self, key: String, value: RtValue) -> (r: Result<(), RuntimeError>)
        requires
            old(self).wf(),
        ensures
            final(self).wf(),
            outcome_matches(old(self)@, final(self)@, r, put_spec(old(self)@, key@, value@)),
    {
        let locked = match self.index_of(&key) {
            Some(i) => match &self.storage[i].1 {
                BBValue::Locked(_) => true,
                BBValue::Unlocked(_) => false,
            },
            None => false,
        };
        if locked {
            let m = String::from_str("the key ").concat(key.as_str()).concat(" is locked");
            proof {
                reveal_strlit("the key ");
                reveal_strlit(" is locked");
            }
            Err(RuntimeError::BlackBoardError(m))
        } else {
            self.set(key, BBValue::Unlocked(value));
            Ok(())
        }
    }

    /// Reserves a present key; fails if it is absent or already reserved.
    pub fn lock(&mut self, key: String) -> (r: Result<(), RuntimeError>)
        requires
            old(self).wf(),
        ensures
            final(self).wf(),
            outcome_matches(old(self)@, final(self)@, r, lock_spec(old(self)@, key@)),
    {
        let found = match self.index_of(&key) {
            Some(i) => match &self.storage[i].1 {
                BBValue::Unlocked(v) => Some(v.clone()),
                BBValue::Locked(_) => None,
            },
            None => None,
        };
        match found {
            Some(v) => {
                self.set(key, BBValue::Locked(v));
                Ok(())
            },
            None => {
                let m = String::from_str("the key ").concat(key.as_str()).concat(
                    " is taken or absent",
                );
                proof {
                    reveal_strlit("the key ");
                    reveal_strlit(" is taken or absent");
                }
                Err(RuntimeError::BlackBoardError(m))
            },
        }
    }

    /// Releases a reserved key; fails if it is absent or not reserved.
    pub fn unlock(&mut self, key: String) -> (r: Result<(), RuntimeError>)
        requires
            old(self).wf(),
        ensures
            final(self).wf(),
            outcome_matches(old(self)@, final(self)@, r, unlock_spec(old(self)@, key@)),
    {
        let found = match self.index_of(&key) {
            Some(i) => match &self.storage[i].1 {
                BBValue::Locked(v) => Some(v.clone()),
                BBValue::Unlocked(_) => None,
            },
            None => None,
        };
        match found {
            Some(v) => {
                self.set(key, BBValue::Unlocked(v));
                Ok(())
            },
            None => {
                let m = String::from_str("the key ").concat(key.as_str()).concat(
                    " is not locked or absent",
                );
                proof {
                    reveal_strlit("the key ");
                    reveal_strlit(" is not locked or absent");
                }
                Err(RuntimeError::BlackBoardError(m))
            },
        }
    }
}

impl Default for BlackBoard {
    fn default() -> (r: BlackBoard)
        ensures
            r.wf(),
            r@ == Board::empty(),
    {
        BlackBoard::empty()
    }
}

} // verus!
