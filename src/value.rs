//! Runtime values, their mathematical view (`Val`), and the exceptions and
//! control-flow signals of evaluation.
use vstd::prelude::*;
use crate::ast::{block_view, copy_block, copy_names, names_view, DefinedFunction, ExprV};

verus! {

/// The native functions of the global scope.
#[derive(Debug, Clone, Copy, PartialEq, Eq, Structural)]
pub enum Builtin {
    PrintLn,
    ToString,
    ReadLn,
    Len,
}

#[derive(Debug)]
pub enum Function {
    Defined(DefinedFunction),
    Builtin(Builtin),
}

#[derive(Debug)]
pub enum Value {
    Function(Function),
    String(String),
    Int(i64),
    Bool(bool),
    List(Vec<Value>),
    Null,
}

/// A value as a mathematical object.
pub enum Val {
    Defined(Seq<Seq<char>>, Seq<ExprV>),
    Builtin(Builtin),
    Str(Seq<char>),
    Int(i64),
    Bool(bool),
    List(Seq<Val>),
    Null,
}

#[derive(Debug, PartialEq, Eq)]
pub enum Exception {
    WrongNumberOfArguments,
    NestedReturns,
    UndeclaredIdentifier,
    CalledValueIsNotFunction,
    ValueIsWrongType,
    ExponentiationOverflowed,
    IndexOutOfRange,
    /// An integer operation whose result does not fit in 64 bits.
    IntegerOverflow,
    DivisionByZero,
    /// Evaluation nested deeper, or looped longer, than its budget.
    DepthLimitExceeded,
    Custom(String),
}

#[derive(Debug)]
pub enum ControlFlowValue {
    Exception(Exception),
    Continue,
    Break,
}

pub open spec fn list_view(l: Seq<Value>) -> Seq<Val>
    decreases l,
{
    Seq::new(l.len(), |i: int| if 0 <= i < l.len() { value_view(l[i]) } else { Val::Null })
}

pub open spec fn value_view(v: Value) -> Val
    decreases v,
{
    match v {
        Value::Function(Function::Defined(f)) => Val::Defined(
            names_view(f.parameters@),
            block_view(f.body@),
        ),
        Value::Function(Function::Builtin(b)) => Val::Builtin(b),
        Value::String(s) => Val::Str(s@),
        Value::Int(n) => Val::Int(n),
        Value::Bool(b) => Val::Bool(b),
        Value::List(l) => Val::List(list_view(l@)),
        Value::Null => Val::Null,
    }
}

impl View for Value {
    type V = Val;

    open spec fn view(&self) -> Val {
        value_view(*self)
    }
}

/// Structural equality of values; functions are never equal, not even to
/// themselves.
pub open spec fn val_eq(a: Val, b: Val) -> bool
    decreases a,
{
    match a {
        Val::Str(x) => b is Str && b->Str_0 == x,
        Val::Int(x) => b is Int && b->Int_0 == x,
        Val::Bool(x) => b is Bool && b->Bool_0 == x,
        Val::Null => b is Null,
        Val::List(x) => b is List && vals_eq(x, b->List_0),
        _ => false,
    }
}

/// Element-wise `val_eq` of two sequences of equal length.
pub open spec fn vals_eq(x: Seq<Val>, y: Seq<Val>) -> bool
    decreases x,
{
    x.len() == y.len() && (x.len() == 0 || (vals_eq(
        x.subrange(0, x.len() - 1),
        y.subrange(0, y.len() - 1),
    ) && val_eq(x[x.len() - 1], y[y.len() - 1])))
}

pub open spec fn wrong_type() -> ControlFlowValue {
    ControlFlowValue::Exception(Exception::ValueIsWrongType)
}

pub open spec fn signal(e: Exception) -> ControlFlowValue {
    ControlFlowValue::Exception(e)
}

fn copy_list(l: &Vec<Value>) -> (r: Vec<Value>)
    ensures
        list_view(r@) == list_view(l@),
    decreases l,
{
    let mut r: Vec<Value> = Vec::new();
    let mut i: usize = 0;
    while i < l.len()
        invariant
            i <= l@.len(),
            r@.len() == i,
            forall|j: int| 0 <= j < i ==> value_view(r@[j]) == value_view(l@[j]),
        decreases l@.len() - i,
    {
        proof {
            assert(decreases_to!(l => l@[i as int]));
        }
        let v = l[i].copy();
        r.push(v);
        i = i + 1;
    }
    assert(list_view(r@) =~= list_view(l@));
    r
}

fn lists_equal(a: &Vec<Value>, b: &Vec<Value>) -> (r: bool)
    ensures
        r == vals_eq(list_view(a@), list_view(b@)),
    decreases a,
{
    if a.len() != b.len() {
        return false;
    }
    let ghost x = list_view(a@);
    let ghost y = list_view(b@);
    let mut i: usize = 0;
    while i < a.len()
        invariant
            i <= a@.len() == b@.len(),
            x == list_view(a@),
            y == list_view(b@),
            vals_eq(x.subrange(0, i as int), y.subrange(0, i as int)),
        decreases a@.len() - i,
    {
        proof {
            assert(decreases_to!(a => a@[i as int]));
        }
        let same = a[i].equals(&b[i]);
        proof {
            let xs = x.subrange(0, i + 1);
            let ys = y.subrange(0, i + 1);
            assert(xs.subrange(0, i as int) =~= x.subrange(0, i as int));
            assert(ys.subrange(0, i as int) =~= y.subrange(0, i as int));
        }
        if !same {
            proof {
                if vals_eq(x, y) {
                    lemma_vals_eq_prefix(x, y, i + 1);
                }
            }
            return false;
        }
        i = i + 1;
    }
    assert(x.subrange(0, a@.len() as int) =~= x);
    assert(y.subrange(0, b@.len() as int) =~= y);
    true
}

/// Equal sequences agree on every prefix.
proof fn lemma_vals_eq_prefix(x: Seq<Val>, y: Seq<Val>, n: int)
    requires
        0 <= n <= x.len(),
        vals_eq(x, y),
    ensures
        vals_eq(x.subrange(0, n), y.subrange(0, n)),
    decreases x.len(),
{
    if n < x.len() {
        lemma_vals_eq_prefix(x.subrange(0, x.len() - 1), y.subrange(0, y.len() - 1), n);
        assert(x.subrange(0, x.len() - 1).subrange(0, n) =~= x.subrange(0, n));
        assert(y.subrange(0, y.len() - 1).subrange(0, n) =~= y.subrange(0, n));
    } else {
        assert(x.subrange(0, n) =~= x);
        assert(y.subrange(0, n) =~= y);
    }
}

impl Value {
    /// An independent copy of the value.
    pub fn copy(&self) -> (r: Value)
        ensures
            r@ == self@,
        decreases self,
    {
        match self {
            Value::Function(Function::Defined(f)) => Value::Function(
                Function::Defined(
                    DefinedFunction {
                        parameters: copy_names(&f.parameters),
                        body: copy_block(&f.body),
                    },
                ),
            ),
            Value::Function(Function::Builtin(b)) => Value::Function(Function::Builtin(*b)),
            Value::String(s) => Value::String(s.clone()),
            Value::Int(n) => Value::Int(*n),
            Value::Bool(b) => Value::Bool(*b),
            Value::List(l) => Value::List(copy_list(l)),
            Value::Null => Value::Null,
        }
    }

    /// Structural equality; functions are never equal.
    pub fn equals(&self, other: &Value) -> (r: bool)
        ensures
            r == val_eq(self@, other@),
        decreases self,
    {
        match (self, other) {
            (Value::String(x), Value::String(y)) => {
                *x == *y
            },
            (Value::Int(x), Value::Int(y)) => *x == *y,
            (Value::Bool(x), Value::Bool(y)) => *x == *y,
            (Value::Null, Value::Null) => true,
            (Value::List(x), Value::List(y)) => {
                lists_equal(x, y)
            },
            _ => false,
        }
    }

    pub fn into_int(&self) -> (r: Result<&i64, ControlFlowValue>)
        ensures
            match self@ {
                Val::Int(n) => r is Ok && *r->Ok_0 == n,
                _ => r == Err::<&i64, ControlFlowValue>(wrong_type()),
            },
    {
        match self {
            Value::Int(v) => Ok(v),
            _ => Err(ControlFlowValue::Exception(Exception::ValueIsWrongType)),
        }
    }

    pub fn into_bool(&self) -> (r: Result<&bool, ControlFlowValue>)
        ensures
            match self@ {
                Val::Bool(b) => r is Ok && *r->Ok_0 == b,
                _ => r == Err::<&bool, ControlFlowValue>(wrong_type()),
            },
    {
        match self {
            Value::Bool(v) => Ok(v),
            _ => Err(ControlFlowValue::Exception(Exception::ValueIsWrongType)),
        }
    }

    pub fn into_str(&self) -> (r: Result<&str, ControlFlowValue>)
        ensures
            match self@ {
                Val::Str(s) => r is Ok && r->Ok_0@ == s,
                _ => r == Err::<&str, ControlFlowValue>(wrong_type()),
            },
    {
        match self {
            Value::String(v) => Ok(v.as_str()),
            _ => Err(ControlFlowValue::Exception(Exception::ValueIsWrongType)),
        }
    }

    pub fn into_list(&self) -> (r: Result<&Vec<Value>, ControlFlowValue>)
        ensures
            match self@ {
                Val::List(l) => r is Ok && list_view(r->Ok_0@) == l,
                _ => r == Err::<&Vec<Value>, ControlFlowValue>(wrong_type()),
            },
    {
        match self {
            Value::List(v) => Ok(v),
            _ => Err(ControlFlowValue::Exception(Exception::ValueIsWrongType)),
        }
    }
}

impl PartialEq for Value {
    fn eq(&self, other: &Value) -> (r: bool) {
        self.equals(other)
    }
}

impl vstd::std_specs::cmp::PartialEqSpecImpl for Value {
    open spec fn obeys_eq_spec() -> bool {
        false
    }

    open spec fn eq_spec(&self, other: &Value) -> bool {
        val_eq(self@, other@)
    }
}

} // verus!
