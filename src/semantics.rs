//! The meaning of programs: how expressions evaluate, stated over the
//! views of the syntax tree, values and scopes.
//!
//! Evaluation carries a budget: each level of nesting and each turn of a
//! loop spends one unit of it, and a step without budget fails with
//! `DepthLimitExceeded`.
use vstd::prelude::*;
use vstd::arithmetic::power::pow;
use crate::ast::{AssignmentOperator, ExprV, Operator, UpdateOperator};
use crate::builtin::{arity_error, display_concat, len_spec, to_string_spec};
use crate::environment::{env_assign, env_declare, env_get};
use crate::value::{signal, val_eq, wrong_type, Builtin, ControlFlowValue, Exception, Val};

verus! {

/// The state that evaluation acts on: the scopes, the input lines not yet
/// read, and the lines written so far.
pub struct Machine {
    pub scopes: Seq<Map<Seq<char>, Val>>,
    pub input: Seq<Seq<char>>,
    pub output: Seq<Seq<char>>,
}

pub type Outcome = Result<Val, ControlFlowValue>;

pub open spec fn with_scopes(m: Machine, s: Seq<Map<Seq<char>, Val>>) -> Machine {
    Machine { scopes: s, input: m.input, output: m.output }
}

pub open spec fn push_scope(m: Machine) -> Machine {
    with_scopes(m, m.scopes.push(Map::empty()))
}

pub open spec fn pop_scope(m: Machine) -> Machine {
    with_scopes(m, m.scopes.drop_last())
}

pub open spec fn undeclared() -> ControlFlowValue {
    signal(Exception::UndeclaredIdentifier)
}

pub open spec fn overflow() -> ControlFlowValue {
    signal(Exception::IntegerOverflow)
}

pub open spec fn in_i64(x: int) -> bool {
    i64::MIN <= x <= i64::MAX
}

// ---------------------------------------------------------------------------
// Operators on values.

/// `+`: integer addition, string concatenation, or a list with one more item.
pub open spec fn plus_spec(l: Val, r: Val) -> Outcome {
    match l {
        Val::Int(a) => match r {
            Val::Int(b) => if in_i64(a + b) {
                Ok(Val::Int((a + b) as i64))
            } else {
                Err(overflow())
            },
            _ => Err(wrong_type()),
        },
        Val::Str(a) => match r {
            Val::Str(b) => Ok(Val::Str(a + b)),
            _ => Err(wrong_type()),
        },
        Val::List(items) => Ok(Val::List(items.push(r))),
        _ => Err(wrong_type()),
    }
}

pub open spec fn minus_spec(l: Val, r: Val) -> Outcome {
    match (l, r) {
        (Val::Int(a), Val::Int(b)) => if in_i64(a - b) {
            Ok(Val::Int((a - b) as i64))
        } else {
            Err(overflow())
        },
        _ => Err(wrong_type()),
    }
}

pub open spec fn multiply_spec(l: Val, r: Val) -> Outcome {
    match (l, r) {
        (Val::Int(a), Val::Int(b)) => if in_i64(a * b) {
            Ok(Val::Int((a * b) as i64))
        } else {
            Err(overflow())
        },
        _ => Err(wrong_type()),
    }
}

/// `/`: integer division, rounding toward zero.
pub open spec fn divide_spec(l: Val, r: Val) -> Outcome {
    match (l, r) {
        (Val::Int(a), Val::Int(b)) => if b == 0 {
            Err(signal(Exception::DivisionByZero))
        } else {
            match a.checked_div(b) {
                Some(q) => Ok(Val::Int(q)),
                None => Err(overflow()),
            }
        },
        _ => Err(wrong_type()),
    }
}

/// `%`: the remainder of division rounding toward zero.
pub open spec fn modulo_spec(l: Val, r: Val) -> Outcome {
    match (l, r) {
        (Val::Int(a), Val::Int(b)) => if b == 0 {
            Err(signal(Exception::DivisionByZero))
        } else {
            match a.checked_rem(b) {
                Some(q) => Ok(Val::Int(q)),
                None => Err(overflow()),
            }
        },
        _ => Err(wrong_type()),
    }
}

/// `**`: defined for a base and an exponent that are both at least zero,
/// and a result that fits in 64 bits; every other pair of integers fails
/// with `ExponentiationOverflowed`.
pub open spec fn exponent_spec(l: Val, r: Val) -> Outcome {
    match (l, r) {
        (Val::Int(b), Val::Int(e)) => if b < 0 || e < 0 || pow(b as int, e as nat) > i64::MAX {
            Err(signal(Exception::ExponentiationOverflowed))
        } else {
            Ok(Val::Int(pow(b as int, e as nat) as i64))
        },
        _ => Err(wrong_type()),
    }
}

pub open spec fn compare_spec(op: Operator, l: Val, r: Val) -> Outcome {
    match (l, r) {
        (Val::Int(a), Val::Int(b)) => Ok(
            Val::Bool(
                match op {
                    Operator::IsLessThan => a < b,
                    Operator::IsLessThanOrEqual => a <= b,
                    Operator::IsGreaterThan => a > b,
                    _ => a >= b,
                },
            ),
        ),
        _ => Err(wrong_type()),
    }
}

/// `&&` and `||`, on two booleans; both sides are always evaluated.
pub open spec fn logical_spec(op: Operator, l: Val, r: Val) -> Outcome {
    match (l, r) {
        (Val::Bool(a), Val::Bool(b)) => Ok(
            Val::Bool(
                if op == Operator::And {
                    a && b
                } else {
                    a || b
                },
            ),
        ),
        _ => Err(wrong_type()),
    }
}

pub open spec fn binary_spec(op: Operator, l: Val, r: Val) -> Outcome {
    match op {
        Operator::Plus => plus_spec(l, r),
        Operator::Minus => minus_spec(l, r),
        Operator::Multiply => multiply_spec(l, r),
        Operator::Divide => divide_spec(l, r),
        Operator::Modulus => modulo_spec(l, r),
        Operator::Exponentiation => exponent_spec(l, r),
        Operator::IsEqual => Ok(Val::Bool(val_eq(l, r))),
        Operator::IsNotEqual => Ok(Val::Bool(!val_eq(l, r))),
        Operator::And => logical_spec(op, l, r),
        Operator::Or => logical_spec(op, l, r),
        _ => compare_spec(op, l, r),
    }
}

/// The operator that a compound assignment applies.
pub open spec fn assignment_operator(op: AssignmentOperator) -> Operator {
    match op {
        AssignmentOperator::Plus => Operator::Plus,
        AssignmentOperator::Minus => Operator::Minus,
        AssignmentOperator::Multiply => Operator::Multiply,
        AssignmentOperator::Divide => Operator::Divide,
        _ => Operator::Modulus,
    }
}

// ---------------------------------------------------------------------------
// Builtin functions and scopes.

pub open spec fn call_builtin(b: Builtin, args: Seq<Val>, m: Machine) -> (Machine, Outcome) {
    match b {
        Builtin::PrintLn => (
            Machine { scopes: m.scopes, input: m.input, output: m.output.push(display_concat(args)) },
            Ok(Val::Null),
        ),
        Builtin::ToString => (m, to_string_spec(args)),
        Builtin::ReadLn => if args.len() != 0 {
            (m, Err(arity_error()))
        } else if m.input.len() == 0 {
            (m, Ok(Val::Str(Seq::empty())))
        } else {
            (
                Machine { scopes: m.scopes, input: m.input.drop_first(), output: m.output },
                Ok(Val::Str(m.input[0])),
            )
        },
        Builtin::Len => (m, len_spec(args)),
    }
}

/// Sets `id` to `v` in the innermost scope that declares it.
pub open spec fn assign_in(m: Machine, id: Seq<char>, v: Val) -> (Machine, Outcome) {
    match env_assign(m.scopes, id, v) {
        Some(s) => (with_scopes(m, s), Ok(Val::Null)),
        None => (m, Err(undeclared())),
    }
}

/// The scopes after the first `n` parameters are bound to the arguments.
pub open spec fn bind_parameters(
    params: Seq<Seq<char>>,
    args: Seq<Val>,
    scopes: Seq<Map<Seq<char>, Val>>,
    n: int,
) -> Seq<Map<Seq<char>, Val>>
    decreases n,
{
    if n <= 0 {
        scopes
    } else {
        env_declare(bind_parameters(params, args, scopes, n - 1), params[n - 1], args[n - 1])
    }
}

// ---------------------------------------------------------------------------
// Evaluation.

pub open spec fn eval(e: ExprV, m: Machine, fuel: nat) -> (Machine, Outcome)
    decreases fuel, 0nat, 0nat,
{
    if fuel == 0 {
        (m, Err(signal(Exception::DepthLimitExceeded)))
    } else {
        let f = (fuel - 1) as nat;
        match e {
            ExprV::Int(n) => (m, Ok(Val::Int(n))),
            ExprV::Str(s) => (m, Ok(Val::Str(s))),
            ExprV::Bool(b) => (m, Ok(Val::Bool(b))),
            ExprV::Null => (m, Ok(Val::Null)),
            ExprV::Block(b) => eval_scoped(b, m, f),
            ExprV::Identifier(id) => (
                m,
                match env_get(m.scopes, id) {
                    Some(v) => Ok(v),
                    None => Err(undeclared()),
                },
            ),
            ExprV::Binary(l, op, r) => eval_binary(*l, op, *r, m, f),
            ExprV::Update(id, op) => eval_update(id, op, m),
            ExprV::Declare(id, x) => eval_declare(id, *x, m, f),
            ExprV::Assign(id, op, x) => eval_assign(id, op, *x, m, f),
            ExprV::Function(params, body) => (m, Ok(Val::Defined(params, body))),
            ExprV::Call(id, args) => eval_call(id, args, m, f),
            ExprV::List(items) => {
                let (m1, r) = eval_args(items, 0, Seq::empty(), m, f);
                (
                    m1,
                    match r {
                        Ok(vals) => Ok(Val::List(vals)),
                        Err(x) => Err(x),
                    },
                )
            },
            ExprV::Index(t, i) => eval_index(*t, *i, m, f),
            ExprV::If(clauses, els) => eval_clauses(clauses, els, 0, m, f),
            ExprV::Loop(init, test, update, body) => eval_loop(init, test, update, body, m, f),
            ExprV::Continue => (m, Err(ControlFlowValue::Continue)),
            ExprV::Break => (m, Err(ControlFlowValue::Break)),
        }
    }
}

/// The expressions of a block from index `i` on, in order; the value is
/// that of the last one, `acc` if none is left.
pub open spec fn eval_seq(b: Seq<ExprV>, i: int, acc: Val, m: Machine, fuel: nat) -> (
    Machine,
    Outcome,
)
    decreases fuel, 1nat, b.len() - i,
{
    if i < 0 || i >= b.len() {
        (m, Ok(acc))
    } else {
        let (m1, r) = eval(b[i], m, fuel);
        match r {
            Ok(v) => eval_seq(b, i + 1, v, m1, fuel),
            Err(x) => (m1, Err(x)),
        }
    }
}

/// The expressions from index `i` on, left to right, each value appended
/// to `acc`.
pub open spec fn eval_args(args: Seq<ExprV>, i: int, acc: Seq<Val>, m: Machine, fuel: nat) -> (
    Machine,
    Result<Seq<Val>, ControlFlowValue>,
)
    decreases fuel, 1nat, args.len() - i,
{
    if i < 0 || i >= args.len() {
        (m, Ok(acc))
    } else {
        let (m1, r) = eval(args[i], m, fuel);
        match r {
            Ok(v) => eval_args(args, i + 1, acc.push(v), m1, fuel),
            Err(x) => (m1, Err(x)),
        }
    }
}

/// A block in a scope of its own, left again however the block ends.
pub open spec fn eval_scoped(b: Seq<ExprV>, m: Machine, fuel: nat) -> (Machine, Outcome)
    decreases fuel, 2nat, 0nat,
{
    let (m1, r) = eval_seq(b, 0, Val::Null, push_scope(m), fuel);
    (pop_scope(m1), r)
}

pub open spec fn eval_defined(
    params: Seq<Seq<char>>,
    body: Seq<ExprV>,
    args: Seq<Val>,
    m: Machine,
    fuel: nat,
) -> (Machine, Outcome)
    decreases fuel, 2nat, 0nat,
{
    if params.len() != args.len() {
        (m, Err(arity_error()))
    } else {
        let m1 = push_scope(m);
        let m2 = with_scopes(m1, bind_parameters(params, args, m1.scopes, params.len() as int));
        let (m3, r) = eval_seq(body, 0, Val::Null, m2, fuel);
        (pop_scope(m3), r)
    }
}

/// The `if` clauses from index `i` on: the first whose test is true runs
/// its block; if none is, the `else` block runs, if there is one.
pub open spec fn eval_clauses(
    clauses: Seq<(ExprV, Seq<ExprV>)>,
    els: Option<Seq<ExprV>>,
    i: int,
    m: Machine,
    fuel: nat,
) -> (Machine, Outcome)
    decreases fuel, 3nat, clauses.len() - i,
{
    if i < 0 || i >= clauses.len() {
        match els {
            Some(b) => eval_scoped(b, m, fuel),
            None => (m, Ok(Val::Null)),
        }
    } else {
        let (m1, r) = eval(clauses[i].0, m, fuel);
        match r {
            Ok(Val::Bool(true)) => eval_scoped(clauses[i].1, m1, fuel),
            Ok(Val::Bool(false)) => eval_clauses(clauses, els, i + 1, m1, fuel),
            Ok(_) => (m1, Err(wrong_type())),
            Err(x) => (m1, Err(x)),
        }
    }
}

/// The turns of a loop from the current state on; `acc` is the value of the
/// last body that ran to its end.
pub open spec fn loop_turns(
    test: Option<Box<ExprV>>,
    update: Option<Box<ExprV>>,
    body: Seq<ExprV>,
    acc: Val,
    m: Machine,
    fuel: nat,
) -> (Machine, Outcome)
    decreases fuel, 3nat, 0nat,
{
    if fuel == 0 {
        (m, Err(signal(Exception::DepthLimitExceeded)))
    } else {
        let (m1, rt) = match test {
            Some(t) => eval(*t, m, fuel),
            None => (m, Ok(Val::Bool(true))),
        };
        match rt {
            Ok(Val::Bool(false)) => (m1, Ok(acc)),
            Ok(Val::Bool(true)) => {
                let (m2, rb) = eval_seq(body, 0, Val::Null, m1, fuel);
                match rb {
                    Err(ControlFlowValue::Break) => (m2, Ok(acc)),
                    Err(ControlFlowValue::Exception(x)) => (m2, Err(signal(x))),
                    _ => {
                        let acc2 = match rb {
                            Ok(v) => v,
                            _ => acc,
                        };
                        let (m3, ru) = match update {
                            Some(u) => eval(*u, m2, fuel),
                            None => (m2, Ok(Val::Null)),
                        };
                        match ru {
                            Ok(_) => loop_turns(test, update, body, acc2, m3, (fuel - 1) as nat),
                            Err(x) => (m3, Err(x)),
                        }
                    },
                }
            },
            Ok(_) => (m1, Err(wrong_type())),
            Err(x) => (m1, Err(x)),
        }
    }
}

/// A loop's optional first expression, then its turns.
pub open spec fn loop_from_init(
    init: Option<Box<ExprV>>,
    test: Option<Box<ExprV>>,
    update: Option<Box<ExprV>>,
    body: Seq<ExprV>,
    m: Machine,
    fuel: nat,
) -> (Machine, Outcome)
    decreases fuel, 4nat, 0nat,
{
    match init {
        Some(i) => {
            let (ma, ri) = eval(*i, m, fuel);
            match ri {
                Ok(_) => loop_turns(test, update, body, Val::Null, ma, fuel),
                Err(x) => (ma, Err(x)),
            }
        },
        None => loop_turns(test, update, body, Val::Null, m, fuel),
    }
}

/// A loop, in a scope of its own that lasts for all its turns.
pub open spec fn eval_loop(
    init: Option<Box<ExprV>>,
    test: Option<Box<ExprV>>,
    update: Option<Box<ExprV>>,
    body: Seq<ExprV>,
    m: Machine,
    fuel: nat,
) -> (Machine, Outcome)
    decreases fuel, 5nat, 0nat,
{
    let (m1, r) = loop_from_init(init, test, update, body, push_scope(m), fuel);
    (pop_scope(m1), r)
}

pub open spec fn eval_binary(l: ExprV, op: Operator, r: ExprV, m: Machine, fuel: nat) -> (
    Machine,
    Outcome,
)
    decreases fuel, 4nat, 0nat,
{
    let (m1, rl) = eval(l, m, fuel);
    match rl {
        Err(x) => (m1, Err(x)),
        Ok(vl) => {
            let (m2, rr) = eval(r, m1, fuel);
            match rr {
                Err(x) => (m2, Err(x)),
                Ok(vr) => (m2, binary_spec(op, vl, vr)),
            }
        },
    }
}

pub open spec fn eval_update(id: Seq<char>, op: UpdateOperator, m: Machine) -> (Machine, Outcome) {
    match env_get(m.scopes, id) {
        None => (m, Err(undeclared())),
        Some(v) => {
            let r = if op == UpdateOperator::Increment {
                plus_spec(v, Val::Int(1))
            } else {
                minus_spec(v, Val::Int(1))
            };
            match r {
                Ok(nv) => assign_in(m, id, nv),
                Err(x) => (m, Err(x)),
            }
        },
    }
}

pub open spec fn eval_declare(id: Seq<char>, x: ExprV, m: Machine, fuel: nat) -> (Machine, Outcome)
    decreases fuel, 4nat, 0nat,
{
    let (m1, r) = eval(x, m, fuel);
    match r {
        Ok(v) => (with_scopes(m1, env_declare(m1.scopes, id, v)), Ok(Val::Null)),
        Err(e) => (m1, Err(e)),
    }
}

pub open spec fn eval_assign(
    id: Seq<char>,
    op: AssignmentOperator,
    x: ExprV,
    m: Machine,
    fuel: nat,
) -> (Machine, Outcome)
    decreases fuel, 4nat, 0nat,
{
    let (m1, r) = eval(x, m, fuel);
    match r {
        Err(e) => (m1, Err(e)),
        Ok(v) => if op == AssignmentOperator::Replace {
            assign_in(m1, id, v)
        } else {
            match env_get(m1.scopes, id) {
                None => (m1, Err(undeclared())),
                Some(cur) => match binary_spec(assignment_operator(op), cur, v) {
                    Ok(nv) => assign_in(m1, id, nv),
                    Err(e) => (m1, Err(e)),
                },
            }
        },
    }
}

/// A call: the callee is looked up first, then the arguments are evaluated
/// left to right in the caller's scopes.
pub open spec fn eval_call(id: Seq<char>, args: Seq<ExprV>, m: Machine, fuel: nat) -> (
    Machine,
    Outcome,
)
    decreases fuel, 4nat, 0nat,
{
    match env_get(m.scopes, id) {
        None => (m, Err(undeclared())),
        Some(Val::Builtin(b)) => {
            let (m1, ra) = eval_args(args, 0, Seq::empty(), m, fuel);
            match ra {
                Ok(vals) => call_builtin(b, vals, m1),
                Err(x) => (m1, Err(x)),
            }
        },
        Some(Val::Defined(params, body)) => {
            let (m1, ra) = eval_args(args, 0, Seq::empty(), m, fuel);
            match ra {
                Ok(vals) => eval_defined(params, body, vals, m1, fuel),
                Err(x) => (m1, Err(x)),
            }
        },
        Some(_) => (m, Err(signal(Exception::CalledValueIsNotFunction))),
    }
}

pub open spec fn eval_index(t: ExprV, i: ExprV, m: Machine, fuel: nat) -> (Machine, Outcome)
    decreases fuel, 4nat, 0nat,
{
    let (m1, rt) = eval(t, m, fuel);
    match rt {
        Err(x) => (m1, Err(x)),
        Ok(Val::List(items)) => {
            let (m2, ri) = eval(i, m1, fuel);
            match ri {
                Err(x) => (m2, Err(x)),
                Ok(Val::Int(n)) => if 0 <= n < items.len() {
                    (m2, Ok(items[n as int]))
                } else {
                    (m2, Err(signal(Exception::IndexOutOfRange)))
                },
                Ok(_) => (m2, Err(wrong_type())),
            }
        },
        Ok(_) => (m1, Err(wrong_type())),
    }
}

} // verus!
