use vstd::prelude::*;
use vstd::string::*;

verus! {

broadcast use vstd::std_specs::vec::group_vec_axioms;

/// The mathematical model of a runtime value.
pub enum Value {
    Nothing,
    Bool(bool),
    Int(i64),
    Str(Seq<char>),
    Pointer(Seq<char>),
    Array(Seq<Value>),
    Object(Seq<(Seq<char>, Value)>),
}

/// A value handed to actions as an argument or kept in a blackboard cell.
/// `Pointer` names a blackboard key whose value stands in for it.
#[derive(Debug)]
pub enum RtValue {
    Nothing,
    Bool(bool),
    Int(i64),
    Str(String),
    Pointer(String),
    Array(Vec<RtValue>),
    Object(Vec<(String, RtValue)>),
}

/// The model of a runtime value.
pub open spec fn value_of(v: RtValue) -> Value
    decreases v,
{
    match v {
        RtValue::Nothing => Value::Nothing,
        RtValue::Bool(b) => Value::Bool(b),
        RtValue::Int(i) => Value::Int(i),
        RtValue::Str(s) => Value::Str(s@),
        RtValue::Pointer(s) => Value::Pointer(s@),
        RtValue::Array(items) => Value::Array(
            Seq::new(
                items@.len(),
                |i: int|
                    if 0 <= i < items@.len() {
                        value_of(items@[i])
                    } else {
                        Value::Nothing
                    },
            ),
        ),
        RtValue::Object(fields) => Value::Object(
            Seq::new(
                fields@.len(),
                |i: int|
                    if 0 <= i < fields@.len() {
                        (fields@[i].0@, value_of(fields@[i].1))
                    } else {
                        (Seq::empty(), Value::Nothing)
                    },
            ),
        ),
    }
}

impl View for RtValue {
    type V = Value;

    open spec fn view(&self) -> Value {
        value_of(*self)
    }
}

impl Clone for RtValue {
    #[verifier::loop_isolation(false)]
    fn clone(&self) -> (r: Self)
        ensures
            r@ == self@,
        decreases self,
    {
        match self {
            RtValue::Array(items) => {
                let mut out: Vec<RtValue> = Vec::new();
                let mut i: usize = 0;
                while i < items.len()
                    invariant
                        i <= items@.len(),
                        out@.len() == i,
                        forall|j: int| 0 <= j < i ==> #[trigger] value_of(out@[j]) == value_of(items@[j]),
                    decreases items@.len() - i,
                {
                    out.push(items[i].clone());
                    i = i + 1;
                }
                let r = RtValue::Array(out);
                proof {
                    assert(self@->Array_0.len() == items@.len());
                    assert(r@->Array_0.len() == out@.len());
                    assert forall|j: int| 0 <= j < out@.len() implies r@->Array_0[j]
                        == self@->Array_0[j] by {
                        assert(value_of(out@[j]) == value_of(items@[j]));
                    }
                    assert(r@->Array_0 =~= self@->Array_0);
                }
                r
            },
            RtValue::Object(fields) => {
                let mut out: Vec<(String, RtValue)> = Vec::new();
                let mut i: usize = 0;
                while i < fields.len()
                    invariant
                        i <= fields@.len(),
                        out@.len() == i,
                        forall|j: int|
                            0 <= j < i ==> #[trigger] value_of(out@[j].1) == value_of(fields@[j].1)
                                && out@[j].0@ == fields@[j].0@,
                    decreases fields@.len() - i,
                {
                    out.push((fields[i].0.clone(), fields[i].1.clone()));
                    i = i + 1;
                }
                let r = RtValue::Object(out);
                proof {
                    assert(self@->Object_0.len() == fields@.len());
                    assert(r@->Object_0.len() == out@.len());
                    assert forall|j: int| 0 <= j < out@.len() implies r@->Object_0[j]
                        == self@->Object_0[j] by {
                        assert(value_of(out@[j].1) == value_of(fields@[j].1));
                    }
                    assert(r@->Object_0 =~= self@->Object_0);
                }
                r
            },
            RtValue::Nothing => RtValue::Nothing,
            RtValue::Bool(b) => RtValue::Bool(*b),
            RtValue::Int(i) => RtValue::Int(*i),
            RtValue::Str(s) => RtValue::Str(s.clone()),
            RtValue::Pointer(s) => RtValue::Pointer(s.clone()),
        }
    }
}

/// Structural equality of two values.
#[verifier::loop_isolation(false)]
pub fn values_equal(a: &RtValue, b: &RtValue) -> (r: bool)
    ensures
        r == (a@ == b@),
    decreases a,
{
    match a {
        RtValue::Nothing => match b {
            RtValue::Nothing => true,
            _ => false,
        },
        RtValue::Bool(x) => match b {
            RtValue::Bool(y) => *x == *y,
            _ => false,
        },
        RtValue::Int(x) => match b {
            RtValue::Int(y) => *x == *y,
            _ => false,
        },
        RtValue::Str(x) => match b {
            RtValue::Str(y) => *x == *y,
            _ => false,
        },
        RtValue::Pointer(x) => match b {
            RtValue::Pointer(y) => *x == *y,
            _ => false,
        },
        RtValue::Array(xs) => match b {
            RtValue::Array(ys) => {
                if xs.len() != ys.len() {
                    proof {
                        assert(a@->Array_0.len() != b@->Array_0.len());
                    }
                    return false;
                }
                let mut i: usize = 0;
                while i < xs.len()
                    invariant
                        i <= xs@.len(),
                        xs@.len() == ys@.len(),
                        forall|j: int| 0 <= j < i ==> #[trigger] value_of(xs@[j]) == value_of(ys@[j]),
                    decreases xs@.len() - i,
                {
                    if !values_equal(&xs[i], &ys[i]) {
                        proof {
                            assert(a@->Array_0[i as int] != b@->Array_0[i as int]);
                        }
                        return false;
                    }
                    i = i + 1;
                }
                proof {
                    assert(a@->Array_0.len() == xs@.len());
                    assert(b@->Array_0.len() == ys@.len());
                    assert forall|j: int| 0 <= j < xs@.len() implies a@->Array_0[j]
                        == b@->Array_0[j] by {
                        assert(value_of(xs@[j]) == value_of(ys@[j]));
                    }
                    assert(a@->Array_0 =~= b@->Array_0);
                }
                true
            },
            _ => false,
        },
        RtValue::Object(xs) => match b {
            RtValue::Object(ys) => {
                if xs.len() != ys.len() {
                    proof {
                        assert(a@->Object_0.len() != b@->Object_0.len());
                    }
                    return false;
                }
                let mut i: usize = 0;
                while i < xs.len()
                    invariant
                        i <= xs@.len(),
                        xs@.len() == ys@.len(),
                        forall|j: int|
                            0 <= j < i ==> #[trigger] value_of(xs@[j].1) == value_of(ys@[j].1)
                                && xs@[j].0@ == ys@[j].0@,
                    decreases xs@.len() - i,
                {
                    if xs[i].0 != ys[i].0 || !values_equal(&xs[i].1, &ys[i].1) {
                        proof {
                            assert(a@->Object_0[i as int] != b@->Object_0[i as int]);
                        }
                        return false;
                    }
                    i = i + 1;
                }
                proof {
                    assert(a@->Object_0.len() == xs@.len());
                    assert(b@->Object_0.len() == ys@.len());
                    assert forall|j: int| 0 <= j < xs@.len() implies a@->Object_0[j]
                        == b@->Object_0[j] by {
                        assert(value_of(xs@[j].1) == value_of(ys@[j].1));
                    }
                    assert(a@->Object_0 =~= b@->Object_0);
                }
                true
            },
            _ => false,
        },
    }
}

impl PartialEq for RtValue {
    fn eq(&self, other: &RtValue) -> (r: bool) {
        values_equal(self, other)
    }
}

impl vstd::std_specs::cmp::PartialEqSpecImpl for RtValue {
    open spec fn obeys_eq_spec() -> bool {
        true
    }

    open spec fn eq_spec(&self, other: &RtValue) -> bool {
        self@ == other@
    }
}

impl RtValue {
    pub fn integer(v: i64) -> (r: RtValue)
        ensures
            r@ == Value::Int(v),
    {
        RtValue::Int(v)
    }

    pub fn str(v: String) -> (r: RtValue)
        ensures
            r@ == Value::Str(v@),
    {
        RtValue::Str(v)
    }

    pub fn ptr(key: String) -> (r: RtValue)
        ensures
            r@ == Value::Pointer(key@),
    {
        RtValue::Pointer(key)
    }

    /// How the value reads in a message.
    #[verifier::loop_isolation(false)]
    pub fn describe(&self) -> (r: String)
        ensures
            r@ == describe_spec(self@),
        decreases self,
    {
        match self {
            RtValue::Array(items) => {
                let ghost vs = self@->Array_0;
                let ghost parts = describe_parts(vs);
                proof {
                    reveal_strlit("[");
                    reveal_strlit("]");
                    reveal_strlit(", ");
                    assert(self@->Array_0.len() == items@.len());
                }
                let mut out = String::from_str("[");
                let mut i: usize = 0;
                while i < items.len()
                    invariant
                        i <= items@.len(),
                        out@ == "["@ + join_spec(parts.take(i as int)),
                    decreases items@.len() - i,
                {
                    let part = items[i].describe();
                    proof {
                        assert(parts.take(i + 1).drop_last() =~= parts.take(i as int));
                        assert(vs[i as int] == value_of(items@[i as int]));
                        assert(parts.take(i + 1).last() == part@);
                        if i == 0 {
                            assert(parts.take(0) =~= Seq::<Seq<char>>::empty());
                        }
                    }
                    if i > 0 {
                        out.append(", ");
                    }
                    out.append(part.as_str());
                    proof {
                        if i == 0 {
                            assert(out@ =~= "["@ + join_spec(parts.take(1)));
                        } else {
                            assert(out@ =~= "["@ + join_spec(parts.take(i + 1)));
                        }
                    }
                    i = i + 1;
                }
                out.append("]");
                proof {
                    assert(parts.take(items@.len() as int) =~= parts);
                }
                out
            },
            RtValue::Object(fields) => {
                let ghost vs = self@->Object_0;
                let ghost parts = describe_fields(vs);
                proof {
                    reveal_strlit("{");
                    reveal_strlit("}");
                    reveal_strlit(", ");
                    reveal_strlit(": ");
                    assert(self@->Object_0.len() == fields@.len());
                }
                let mut out = String::from_str("{");
                let mut i: usize = 0;
                while i < fields.len()
                    invariant
                        i <= fields@.len(),
                        out@ == "{"@ + join_spec(parts.take(i as int)),
                    decreases fields@.len() - i,
                {
                    let part = fields[i].0.clone().concat(": ").concat(fields[i].1.describe().as_str());
                    proof {
                        assert(parts.take(i + 1).drop_last() =~= parts.take(i as int));
                        assert(vs[i as int] == (fields@[i as int].0@, value_of(fields@[i as int].1)));
                        assert(parts.take(i + 1).last() == part@);
                        if i == 0 {
                            assert(parts.take(0) =~= Seq::<Seq<char>>::empty());
                        }
                    }
                    if i > 0 {
                        out.append(", ");
                    }
                    out.append(part.as_str());
                    proof {
                        if i == 0 {
                            assert(out@ =~= "{"@ + join_spec(parts.take(1)));
                        } else {
                            assert(out@ =~= "{"@ + join_spec(parts.take(i + 1)));
                        }
                    }
                    i = i + 1;
                }
                out.append("}");
                proof {
                    assert(parts.take(fields@.len() as int) =~= parts);
                }
                out
            },
            RtValue::Nothing => {
                proof {
                    reveal_strlit("nothing");
                }
                String::from_str("nothing")
            },
            RtValue::Bool(b) => {
                proof {
                    reveal_strlit("true");
                    reveal_strlit("false");
                }
                if *b {
                    String::from_str("true")
                } else {
                    String::from_str("false")
                }
            },
            RtValue::Int(i) => int_to_text(*i),
            RtValue::Str(s) => s.clone(),
            RtValue::Pointer(k) => {
                proof {
                    reveal_strlit("ptr(");
                    reveal_strlit(")");
                }
                String::from_str("ptr(").concat(k.as_str()).concat(")")
            },
        }
    }

    /// The text of a string value; `None` for any other kind.
    pub fn as_string(&self) -> (r: Option<String>)
        ensures
            r matches Some(s) <==> self@ is Str,
            r matches Some(s) ==> self@ == Value::Str(s@),
    {
        match self {
            RtValue::Str(s) => Some(s.clone()),
            _ => None,
        }
    }
}

/// The decimal text of an integer, as std's `Display` writes it.
pub uninterp spec fn int_text(i: i64) -> Seq<char>;

/// Relies on `i64::to_string` (std's `Display` for integers): the text
/// depends on the number alone.
#[verifier::external_body]
fn int_to_text(i: i64) -> (r: String)
    ensures
        r@ == int_text(i),
{
    i.to_string()
}

/// Parts joined with a comma and a space between each two.
pub open spec fn join_spec(parts: Seq<Seq<char>>) -> Seq<char>
    decreases parts.len(),
{
    if parts.len() == 0 {
        Seq::empty()
    } else if parts.len() == 1 {
        parts[0]
    } else {
        join_spec(parts.drop_last()) + ", "@ + parts.last()
    }
}

/// How each item of an array reads.
pub open spec fn describe_parts(items: Seq<Value>) -> Seq<Seq<char>>
    decreases items,
{
    Seq::new(
        items.len(),
        |i: int|
            if 0 <= i < items.len() {
                describe_spec(items[i])
            } else {
                Seq::empty()
            },
    )
}

/// How each field of an object reads: its name, a colon, its value.
pub open spec fn describe_fields(fields: Seq<(Seq<char>, Value)>) -> Seq<Seq<char>>
    decreases fields,
{
    Seq::new(
        fields.len(),
        |i: int|
            if 0 <= i < fields.len() {
                fields[i].0 + ": "@ + describe_spec(fields[i].1)
            } else {
                Seq::empty()
            },
    )
}

/// How a value reads in a message.
pub open spec fn describe_spec(v: Value) -> Seq<char>
    decreases v,
{
    match v {
        Value::Array(items) => "["@ + join_spec(describe_parts(items)) + "]"@,
        Value::Object(fields) => "{"@ + join_spec(describe_fields(fields)) + "}"@,
        Value::Nothing => "nothing"@,
        Value::Bool(b) => if b {
            "true"@
        } else {
            "false"@
        },
        Value::Int(i) => int_text(i),
        Value::Str(s) => s,
        Value::Pointer(k) => "ptr("@ + k + ")"@,
    }
}

/// The model of an optional value.
pub open spec fn opt_view(r: Option<RtValue>) -> Option<Value> {
    match r {
        Some(v) => Some(v@),
        None => None,
    }
}

/// One named argument of an action call.
#[derive(Debug)]
pub struct RtArgument {
    pub name: String,
    pub value: RtValue,
}

impl RtArgument {
    pub fn new(name: String, value: RtValue) -> (r: RtArgument)
        ensures
            r.name@ == name@,
            r.value@ == value@,
    {
        RtArgument { name, value }
    }
}

/// The arguments of an action call, in the order the tree gives them.
#[derive(Debug)]
pub struct RtArgs(pub Vec<RtArgument>);

impl Clone for RtArgs {
    fn clone(&self) -> (r: Self)
        ensures
            args_model(&r) == args_model(self),
    {
        let mut out: Vec<RtArgument> = Vec::new();
        let mut i: usize = 0;
        while i < self.0.len()
            invariant
                i <= self.0@.len(),
                out@.len() == i,
                forall|j: int|
                    0 <= j < i ==> (#[trigger] out@[j]).name@ == self.0@[j].name@ && out@[j].value@
                        == self.0@[j].value@,
            decreases self.0@.len() - i,
        {
            out.push(RtArgument { name: self.0[i].name.clone(), value: self.0[i].value.clone() });
            i = i + 1;
        }
        let r = RtArgs(out);
        proof {
            assert(args_model(&r) =~= args_model(self));
        }
        r
    }
}

/// The model of an argument list: names and values in their fixed order.
pub open spec fn args_model(a: &RtArgs) -> Seq<(Seq<char>, Value)> {
    a.0@.map_values(|x: RtArgument| (x.name@, x.value@))
}

/// The value of the first argument called `name`, if there is one.
pub open spec fn find_spec(args: Seq<(Seq<char>, Value)>, name: Seq<char>) -> Option<Value>
    decreases args.len(),
{
    if args.len() == 0 {
        None
    } else if args[0].0 == name {
        Some(args[0].1)
    } else {
        find_spec(args.drop_first(), name)
    }
}

/// The argument named `name`, or else the one at position `i`.
pub open spec fn find_or_ith_spec(args: Seq<(Seq<char>, Value)>, name: Seq<char>, i: int) -> Option<
    Value,
> {
    match find_spec(args, name) {
        Some(v) => Some(v),
        None => if 0 <= i < args.len() {
            Some(args[i].1)
        } else {
            None
        },
    }
}

impl RtArgs {
    /// The first argument's value.
    pub fn first(&self) -> (r: Option<RtValue>)
        ensures
            opt_view(r) == if args_model(self).len() == 0 {
                None
            } else {
                Some(args_model(self)[0].1)
            },
    {
        if self.0.len() == 0 {
            None
        } else {
            Some(self.0[0].value.clone())
        }
    }

    /// The value at position `i`.
    pub fn ith(&self, i: usize) -> (r: Option<RtValue>)
        ensures
            opt_view(r) == if i < args_model(self).len() {
                Some(args_model(self)[i as int].1)
            } else {
                None
            },
    {
        if i < self.0.len() {
            Some(self.0[i].value.clone())
        } else {
            None
        }
    }

    /// The value of the first argument called `name`.
    pub fn find(&self, name: &String) -> (r: Option<RtValue>)
        ensures
            opt_view(r) == find_spec(args_model(self), name@),
    {
        let ghost model = args_model(self);
        assert(model.subrange(0, model.len() as int) =~= model);
        let mut k: usize = 0;
        while k < self.0.len()
            invariant
                k <= self.0@.len(),
                model == args_model(self),
                find_spec(model.subrange(k as int, model.len() as int), name@) == find_spec(
                    model,
                    name@,
                ),
            decreases self.0@.len() - k,
        {
            let ghost rest = model.subrange(k as int, model.len() as int);
            assert(rest.drop_first() =~= model.subrange(k + 1, model.len() as int));
            if self.0[k].name == *name {
                return Some(self.0[k].value.clone());
            }
            k = k + 1;
        }
        None
    }

    /// The named argument, or else the one at position `i`: the way every
    /// action resolves its parameters.
    pub fn find_or_ith(&self, name: String, i: usize) -> (r: Option<RtValue>)
        ensures
            opt_view(r) == find_or_ith_spec(args_model(self), name@, i as int),
    {
        match self.find(&name) {
            Some(v) => Some(v),
            None => self.ith(i),
        }
    }
}

} // verus!

