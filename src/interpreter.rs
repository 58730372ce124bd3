//! The tree-walking interpreter.
use vstd::prelude::*;
use vstd::arithmetic::power::{lemma0_pow, lemma1_pow, lemma_pow0, lemma_pow_increases, pow};
use crate::ast::{
    block_view, clauses_view, names_view, opt_view, AssignmentOperator, Block, DefinedFunction,
    Expression, ExpressionValue, IfClause, Operator, UpdateOperator,
};
use crate::builtin::{len, print_ln, result_view, to_string};
use crate::environment::{builtin_scope, env_get, Environment};
use crate::lexer::{lex, LexerError};
use crate::parser::{parse_tokens, ParseErrV, Parser, ParserError};
use crate::ast::{ExprV, Program};
use crate::semantics::{
    push_scope, loop_from_init,
    binary_spec, assignment_operator, call_builtin, compare_spec, divide_spec, eval, eval_args,
    eval_assign, eval_binary, eval_call, eval_clauses, eval_declare, eval_defined, eval_index,
    eval_loop, eval_scoped, eval_seq, eval_update, exponent_spec, logical_spec, loop_turns,
    minus_spec, modulo_spec, multiply_spec, plus_spec, undeclared, bind_parameters, Machine,
};
use crate::text::push_string;
use crate::value::{list_view, Builtin, ControlFlowValue, Exception, Function, Val, Value};

verus! {

pub open spec fn strings_view(v: Seq<String>) -> Seq<Seq<char>> {
    v.map_values(|s: String| s@)
}

pub struct Interpreter {
    environment: Environment,
    input: Vec<String>,
    consumed: usize,
    output: Vec<String>,
}

impl View for Interpreter {
    type V = Machine;

    closed spec fn view(&self) -> Machine {
        Machine {
            scopes: self.environment@,
            input: strings_view(self.input@).subrange(self.consumed as int, self.input@.len() as int),
            output: strings_view(self.output@),
        }
    }
}

// ---------------------------------------------------------------------------
// Operators.

pub fn plus(left: Value, right: Value) -> (r: Result<Value, ControlFlowValue>)
    ensures
        result_view(r) == plus_spec(left@, right@),
{
    match left {
        Value::Int(a) => {
            let b = match right.into_int() {
                Ok(b) => *b,
                Err(e) => return Err(e),
            };
            match a.checked_add(b) {
                Some(c) => Ok(Value::Int(c)),
                None => Err(ControlFlowValue::Exception(Exception::IntegerOverflow)),
            }
        },
        Value::String(a) => {
            match &right {
                Value::String(b) => {
                    let mut s = a;
                    push_string(&mut s, b);
                    Ok(Value::String(s))
                },
                _ => Err(ControlFlowValue::Exception(Exception::ValueIsWrongType)),
            }
        },
        Value::List(items) => {
            let mut items = items;
            let ghost before = items@;
            let ghost v = right@;
            items.push(right);
            assert(list_view(items@) =~= list_view(before).push(v));
            Ok(Value::List(items))
        },
        _ => Err(ControlFlowValue::Exception(Exception::ValueIsWrongType)),
    }
}

fn int_pair(left: &Value, right: &Value) -> (r: Result<(i64, i64), ControlFlowValue>)
    ensures
        match (left@, right@) {
            (Val::Int(a), Val::Int(b)) => r == Ok::<(i64, i64), ControlFlowValue>((a, b)),
            _ => r == Err::<(i64, i64), ControlFlowValue>(crate::value::wrong_type()),
        },
{
    let a = match left.into_int() {
        Ok(a) => *a,
        Err(e) => return Err(e),
    };
    let b = match right.into_int() {
        Ok(b) => *b,
        Err(e) => return Err(e),
    };
    Ok((a, b))
}

pub fn minus(left: Value, right: Value) -> (r: Result<Value, ControlFlowValue>)
    ensures
        result_view(r) == minus_spec(left@, right@),
{
    let (a, b) = int_pair(&left, &right)?;
    match a.checked_sub(b) {
        Some(c) => Ok(Value::Int(c)),
        None => Err(ControlFlowValue::Exception(Exception::IntegerOverflow)),
    }
}

pub fn multiply(left: Value, right: Value) -> (r: Result<Value, ControlFlowValue>)
    ensures
        result_view(r) == multiply_spec(left@, right@),
{
    let (a, b) = int_pair(&left, &right)?;
    match a.checked_mul(b) {
        Some(c) => Ok(Value::Int(c)),
        None => Err(ControlFlowValue::Exception(Exception::IntegerOverflow)),
    }
}

pub fn divide(left: Value, right: Value) -> (r: Result<Value, ControlFlowValue>)
    ensures
        result_view(r) == divide_spec(left@, right@),
{
    let (a, b) = int_pair(&left, &right)?;
    if b == 0 {
        return Err(ControlFlowValue::Exception(Exception::DivisionByZero));
    }
    match a.checked_div(b) {
        Some(c) => Ok(Value::Int(c)),
        None => Err(ControlFlowValue::Exception(Exception::IntegerOverflow)),
    }
}

pub fn modulo(left: Value, right: Value) -> (r: Result<Value, ControlFlowValue>)
    ensures
        result_view(r) == modulo_spec(left@, right@),
{
    let (a, b) = int_pair(&left, &right)?;
    if b == 0 {
        return Err(ControlFlowValue::Exception(Exception::DivisionByZero));
    }
    match a.checked_rem(b) {
        Some(c) => Ok(Value::Int(c)),
        None => Err(ControlFlowValue::Exception(Exception::IntegerOverflow)),
    }
}

pub fn exponent(base: Value, power: Value) -> (r: Result<Value, ControlFlowValue>)
    ensures
        result_view(r) == exponent_spec(base@, power@),
{
    let (b, e) = int_pair(&base, &power)?;
    if b < 0 || e < 0 {
        return Err(ControlFlowValue::Exception(Exception::ExponentiationOverflowed));
    }
    if b == 0 {
        proof {
            lemma_pow0(0);
            if e > 0 {
                lemma0_pow(e as nat);
            }
        }
        return Ok(Value::Int(if e == 0 { 1 } else { 0 }));
    }
    if b == 1 {
        proof {
            lemma1_pow(e as nat);
        }
        return Ok(Value::Int(1));
    }
    let mut acc: i64 = 1;
    let mut i: i64 = 0;
    proof {
        lemma_pow0(b as int);
    }
    while i < e
        invariant
            2 <= b,
            0 <= i <= e,
            acc >= 0,
            base@ == Val::Int(b),
            power@ == Val::Int(e),
            acc as int == pow(b as int, i as nat),
        decreases e - i,
    {
        proof {
            reveal(pow);
            assert(pow(b as int, (i + 1) as nat) == b * pow(b as int, i as nat));
        }
        let ghost next = pow(b as int, (i + 1) as nat);
        assert(next == acc * b) by (nonlinear_arith)
            requires
                next == b * pow(b as int, i as nat),
                acc as int == pow(b as int, i as nat),
        ;
        assert(acc * b >= 0) by (nonlinear_arith)
            requires
                acc >= 0,
                b >= 2,
        ;
        match acc.checked_mul(b) {
            Some(x) => {
                acc = x;
            },
            None => {
                proof {
                    assert(next > i64::MAX);
                    lemma_pow_increases(b as nat, (i + 1) as nat, e as nat);
                    assert(pow(b as int, e as nat) > i64::MAX);
                }
                return Err(ControlFlowValue::Exception(Exception::ExponentiationOverflowed));
            },
        }
        i = i + 1;
    }
    Ok(Value::Int(acc))
}

pub fn is_equal(left: Value, right: Value) -> (r: bool)
    ensures
        r == crate::value::val_eq(left@, right@),
{
    left.equals(&right)
}

pub fn is_not_equal(left: Value, right: Value) -> (r: bool)
    ensures
        r == !crate::value::val_eq(left@, right@),
{
    !left.equals(&right)
}

pub fn is_less_than(left: Value, right: Value) -> (r: Result<bool, ControlFlowValue>)
    ensures
        result_view(bool_result(r)) == compare_spec(Operator::IsLessThan, left@, right@),
{
    let (a, b) = int_pair(&left, &right)?;
    Ok(a < b)
}

pub fn is_less_than_or_equal(left: Value, right: Value) -> (r: Result<bool, ControlFlowValue>)
    ensures
        result_view(bool_result(r)) == compare_spec(Operator::IsLessThanOrEqual, left@, right@),
{
    let (a, b) = int_pair(&left, &right)?;
    Ok(a <= b)
}

pub fn is_greater_than(left: Value, right: Value) -> (r: Result<bool, ControlFlowValue>)
    ensures
        result_view(bool_result(r)) == compare_spec(Operator::IsGreaterThan, left@, right@),
{
    let (a, b) = int_pair(&left, &right)?;
    Ok(a > b)
}

pub fn is_greater_than_or_equal(left: Value, right: Value) -> (r: Result<bool, ControlFlowValue>)
    ensures
        result_view(bool_result(r)) == compare_spec(
            Operator::IsGreaterThanOrEqual,
            left@,
            right@,
        ),
{
    let (a, b) = int_pair(&left, &right)?;
    Ok(a >= b)
}

fn bool_pair(left: &Value, right: &Value) -> (r: Result<(bool, bool), ControlFlowValue>)
    ensures
        match (left@, right@) {
            (Val::Bool(a), Val::Bool(b)) => r == Ok::<(bool, bool), ControlFlowValue>((a, b)),
            _ => r == Err::<(bool, bool), ControlFlowValue>(crate::value::wrong_type()),
        },
{
    let a = match left.into_bool() {
        Ok(a) => *a,
        Err(e) => return Err(e),
    };
    let b = match right.into_bool() {
        Ok(b) => *b,
        Err(e) => return Err(e),
    };
    Ok((a, b))
}

pub fn logical_and(left: Value, right: Value) -> (r: Result<bool, ControlFlowValue>)
    ensures
        result_view(bool_result(r)) == logical_spec(Operator::And, left@, right@),
{
    let (a, b) = bool_pair(&left, &right)?;
    Ok(a && b)
}

pub fn logical_or(left: Value, right: Value) -> (r: Result<bool, ControlFlowValue>)
    ensures
        result_view(bool_result(r)) == logical_spec(Operator::Or, left@, right@),
{
    let (a, b) = bool_pair(&left, &right)?;
    Ok(a || b)
}

pub open spec fn bool_result(r: Result<bool, ControlFlowValue>) -> Result<Value, ControlFlowValue> {
    match r {
        Ok(b) => Ok(Value::Bool(b)),
        Err(e) => Err(e),
    }
}

fn wrap_bool(r: Result<bool, ControlFlowValue>) -> (v: Result<Value, ControlFlowValue>)
    ensures
        result_view(v) == result_view(bool_result(r)),
{
    match r {
        Ok(b) => Ok(Value::Bool(b)),
        Err(e) => Err(e),
    }
}

/// Applies a binary operator to two values.
fn apply_operator(operator: Operator, left: Value, right: Value) -> (r: Result<
    Value,
    ControlFlowValue,
>)
    ensures
        result_view(r) == binary_spec(operator, left@, right@),
{
    match operator {
        Operator::Plus => plus(left, right),
        Operator::Minus => minus(left, right),
        Operator::Multiply => multiply(left, right),
        Operator::Divide => divide(left, right),
        Operator::Modulus => modulo(left, right),
        Operator::Exponentiation => exponent(left, right),
        Operator::IsEqual => Ok(Value::Bool(is_equal(left, right))),
        Operator::IsNotEqual => Ok(Value::Bool(is_not_equal(left, right))),
        Operator::IsLessThan => wrap_bool(is_less_than(left, right)),
        Operator::IsLessThanOrEqual => wrap_bool(is_less_than_or_equal(left, right)),
        Operator::IsGreaterThan => wrap_bool(is_greater_than(left, right)),
        Operator::IsGreaterThanOrEqual => wrap_bool(is_greater_than_or_equal(left, right)),
        Operator::And => wrap_bool(logical_and(left, right)),
        Operator::Or => wrap_bool(logical_or(left, right)),
    }
}

fn assignment_operator_of(op: AssignmentOperator) -> (r: Operator)
    requires
        op != AssignmentOperator::Replace,
    ensures
        r == assignment_operator(op),
{
    match op {
        AssignmentOperator::Plus => Operator::Plus,
        AssignmentOperator::Minus => Operator::Minus,
        AssignmentOperator::Multiply => Operator::Multiply,
        AssignmentOperator::Divide => Operator::Divide,
        _ => Operator::Modulus,
    }
}

impl Interpreter {
    pub closed spec fn wf(&self) -> bool {
        self.environment@.len() >= 1 && self.consumed <= self.input@.len()
    }

    fn eval_binary(
        &mut self,
        left_expression: &Expression,
        operator: Operator,
        right_expression: &Expression,
        fuel: u64,
    ) -> (r: Result<Value, ControlFlowValue>)
        requires
            old(self).wf(),
        ensures
            final(self).wf(),
            final(self)@.scopes.len() == old(self)@.scopes.len(),
            (final(self)@, result_view(r)) == eval_binary(
                left_expression@,
                operator,
                right_expression@,
                old(self)@,
                fuel as nat,
            ),
        decreases fuel, 4int, 0int,
    {
        let left = match self.eval_expression(left_expression, fuel) {
            Ok(v) => v,
            Err(e) => return Err(e),
        };
        let right = match self.eval_expression(right_expression, fuel) {
            Ok(v) => v,
            Err(e) => return Err(e),
        };
        apply_operator(operator, left, right)
    }

    /// The expressions of a block in order, in a scope of their own when
    /// `private_environment` holds.
    fn eval_block(&mut self, private_environment: bool, block: &Block, fuel: u64) -> (r: Result<
        Value,
        ControlFlowValue,
    >)
        requires
            old(self).wf(),
        ensures
            final(self).wf(),
            final(self)@.scopes.len() == old(self)@.scopes.len(),
            (final(self)@, result_view(r)) == if private_environment {
                eval_scoped(block_view(block@), old(self)@, fuel as nat)
            } else {
                eval_seq(block_view(block@), 0, Val::Null, old(self)@, fuel as nat)
            },
        decreases fuel, 1int, 0int,
    {
        let ghost b = block_view(block@);
        if private_environment {
            self.environment.push();
        }
        let ghost m0 = self@;
        let ghost depth = self@.scopes.len();
        let mut result = Value::Null;
        let mut i: usize = 0;
        while i < block.len()
            invariant
                self.wf(),
                self@.scopes.len() == depth,
                depth >= 1,
                private_environment ==> depth >= 2,
                depth == old(self)@.scopes.len() + if private_environment { 1int } else { 0int },
                m0 == if private_environment { push_scope(old(self)@) } else { old(self)@ },
                b == block_view(block@),
                i <= block@.len(),
                eval_seq(b, 0, Val::Null, m0, fuel as nat) == eval_seq(
                    b,
                    i as int,
                    result@,
                    self@,
                    fuel as nat,
                ),
            decreases block@.len() - i,
        {
            match self.eval_expression(&block[i], fuel) {
                Ok(v) => {
                    result = v;
                },
                Err(e) => {
                    if private_environment {
                        self.environment.pop();
                    }
                    return Err(e);
                },
            }
            i = i + 1;
        }
        if private_environment {
            self.environment.pop();
        }
        Ok(result)
    }

    fn eval_identifier(&mut self, id: &String) -> (r: Result<Value, ControlFlowValue>)
        requires
            old(self).wf(),
        ensures
            *final(self) == *old(self),
            result_view(r) == match env_get(old(self)@.scopes, id@) {
                Some(v) => Ok::<Val, ControlFlowValue>(v),
                None => Err(undeclared()),
            },
    {
        self.environment.get_or_undeclared(id)
    }

    /// The argument expressions, left to right.
    fn eval_arguments(&mut self, arguments: &Vec<Expression>, fuel: u64) -> (r: Result<
        Vec<Value>,
        ControlFlowValue,
    >)
        requires
            old(self).wf(),
        ensures
            final(self).wf(),
            final(self)@.scopes.len() == old(self)@.scopes.len(),
            (final(self)@, match r {
                Ok(v) => Ok(list_view(v@)),
                Err(e) => Err(e),
            }) == eval_args(block_view(arguments@), 0, Seq::empty(), old(self)@, fuel as nat),
        decreases fuel, 1int, 0int,
    {
        let ghost b = block_view(arguments@);
        let ghost m0 = self@;
        let ghost depth = self@.scopes.len();
        let mut values: Vec<Value> = Vec::new();
        let mut i: usize = 0;
        assert(list_view(values@) =~= Seq::<Val>::empty());
        while i < arguments.len()
            invariant
                self.wf(),
                self@.scopes.len() == depth,
                depth == old(self)@.scopes.len(),
                m0 == old(self)@,
                b == block_view(arguments@),
                i <= arguments@.len(),
                eval_args(b, 0, Seq::empty(), m0, fuel as nat) == eval_args(
                    b,
                    i as int,
                    list_view(values@),
                    self@,
                    fuel as nat,
                ),
            decreases arguments@.len() - i,
        {
            match self.eval_expression(&arguments[i], fuel) {
                Ok(v) => {
                    let ghost before = values@;
                    let ghost vv = v@;
                    values.push(v);
                    assert(list_view(values@) =~= list_view(before).push(vv));
                },
                Err(e) => {
                    return Err(e);
                },
            }
            i = i + 1;
        }
        Ok(values)
    }

    fn call_builtin(&mut self, function: Builtin, arguments: Vec<Value>) -> (r: Result<
        Value,
        ControlFlowValue,
    >)
        requires
            old(self).wf(),
        ensures
            final(self).wf(),
            final(self)@.scopes == old(self)@.scopes,
            (final(self)@, result_view(r)) == call_builtin(
                function,
                list_view(arguments@),
                old(self)@,
            ),
    {
        match function {
            Builtin::PrintLn => {
                let line = print_ln(&arguments);
                let ghost before = self.output@;
                self.output.push(line);
                assert(strings_view(self.output@) =~= strings_view(before).push(line@));
                Ok(Value::Null)
            },
            Builtin::ToString => to_string(arguments),
            Builtin::Len => len(arguments),
            Builtin::ReadLn => {
                if arguments.len() != 0 {
                    return Err(ControlFlowValue::Exception(Exception::WrongNumberOfArguments));
                }
                if self.consumed < self.input.len() {
                    let line = self.input[self.consumed].clone();
                    let ghost before = self@.input;
                    self.consumed = self.consumed + 1;
                    assert(self@.input =~= before.drop_first());
                    Ok(Value::String(line))
                } else {
                    Ok(Value::String(String::new()))
                }
            },
        }
    }

    fn call_defined(&mut self, defined: &DefinedFunction, arguments: Vec<Value>, fuel: u64) -> (r:
        Result<Value, ControlFlowValue>)
        requires
            old(self).wf(),
        ensures
            final(self).wf(),
            final(self)@.scopes.len() == old(self)@.scopes.len(),
            (final(self)@, result_view(r)) == eval_defined(
                names_view(defined.parameters@),
                block_view(defined.body@),
                list_view(arguments@),
                old(self)@,
                fuel as nat,
            ),
        decreases fuel, 2int, 0int,
    {
        let ghost params = names_view(defined.parameters@);
        let ghost args = list_view(arguments@);
        if defined.parameters.len() != arguments.len() {
            return Err(ControlFlowValue::Exception(Exception::WrongNumberOfArguments));
        }
        self.environment.push();
        let ghost m1 = self@;
        let mut i: usize = 0;
        while i < arguments.len()
            invariant
                self.wf(),
                self@.scopes.len() == m1.scopes.len(),
                m1.scopes.len() >= 2,
                m1 == push_scope(old(self)@),
                self@.input == m1.input,
                self@.output == m1.output,
                i <= arguments@.len() == defined.parameters@.len(),
                params == names_view(defined.parameters@),
                args == list_view(arguments@),
                self@.scopes == bind_parameters(params, args, m1.scopes, i as int),
            decreases arguments@.len() - i,
        {
            self.environment.declare(defined.parameters[i].clone(), arguments[i].copy());
            i = i + 1;
        }
        let result = self.eval_block(false, &defined.body, fuel);
        self.environment.pop();
        result
    }

    fn eval_call(&mut self, id: &String, arguments: &Vec<Expression>, fuel: u64) -> (r: Result<
        Value,
        ControlFlowValue,
    >)
        requires
            old(self).wf(),
        ensures
            final(self).wf(),
            final(self)@.scopes.len() == old(self)@.scopes.len(),
            (final(self)@, result_view(r)) == eval_call(
                id@,
                block_view(arguments@),
                old(self)@,
                fuel as nat,
            ),
        decreases fuel, 4int, 0int,
    {
        let function_value = match self.environment.get(id) {
            Some(v) => v,
            None => return Err(ControlFlowValue::Exception(Exception::UndeclaredIdentifier)),
        };
        match function_value {
            Value::Function(function) => {
                let evaluated_arguments = match self.eval_arguments(arguments, fuel) {
                    Ok(v) => v,
                    Err(e) => return Err(e),
                };
                match function {
                    Function::Builtin(function) => self.call_builtin(function, evaluated_arguments),
                    Function::Defined(defined) => self.call_defined(
                        &defined,
                        evaluated_arguments,
                        fuel,
                    ),
                }
            },
            _ => Err(ControlFlowValue::Exception(Exception::CalledValueIsNotFunction)),
        }
    }

    fn eval_list(&mut self, expressions: &Vec<Expression>, fuel: u64) -> (r: Result<
        Value,
        ControlFlowValue,
    >)
        requires
            old(self).wf(),
        ensures
            final(self).wf(),
            final(self)@.scopes.len() == old(self)@.scopes.len(),
            (final(self)@, result_view(r)) == ({
                let (m1, ra) = eval_args(
                    block_view(expressions@),
                    0,
                    Seq::empty(),
                    old(self)@,
                    fuel as nat,
                );
                (
                    m1,
                    match ra {
                        Ok(vals) => Ok(Val::List(vals)),
                        Err(x) => Err(x),
                    },
                )
            }),
        decreases fuel, 4int, 0int,
    {
        match self.eval_arguments(expressions, fuel) {
            Ok(values) => Ok(Value::List(values)),
            Err(e) => Err(e),
        }
    }

    fn eval_index(&mut self, expression: &Expression, index: &Expression, fuel: u64) -> (r: Result<
        Value,
        ControlFlowValue,
    >)
        requires
            old(self).wf(),
        ensures
            final(self).wf(),
            final(self)@.scopes.len() == old(self)@.scopes.len(),
            (final(self)@, result_view(r)) == eval_index(
                expression@,
                index@,
                old(self)@,
                fuel as nat,
            ),
        decreases fuel, 4int, 0int,
    {
        let value = match self.eval_expression(expression, fuel) {
            Ok(v) => v,
            Err(e) => return Err(e),
        };
        let items = match value.into_list() {
            Ok(items) => items,
            Err(e) => return Err(e),
        };
        let index_value = match self.eval_expression(index, fuel) {
            Ok(v) => v,
            Err(e) => return Err(e),
        };
        let n = match index_value.into_int() {
            Ok(n) => *n,
            Err(e) => return Err(e),
        };
        if n < 0 || n as u64 >= items.len() as u64 {
            return Err(ControlFlowValue::Exception(Exception::IndexOutOfRange));
        }
        Ok(items[n as usize].copy())
    }

    fn eval_declare_variable(&mut self, id: &String, expression: &Expression, fuel: u64) -> (r:
        Result<Value, ControlFlowValue>)
        requires
            old(self).wf(),
        ensures
            final(self).wf(),
            final(self)@.scopes.len() == old(self)@.scopes.len(),
            (final(self)@, result_view(r)) == eval_declare(
                id@,
                expression@,
                old(self)@,
                fuel as nat,
            ),
        decreases fuel, 4int, 0int,
    {
        let value = match self.eval_expression(expression, fuel) {
            Ok(v) => v,
            Err(e) => return Err(e),
        };
        self.environment.declare(id.clone(), value);
        Ok(Value::Null)
    }

    fn eval_if(&mut self, clauses: &Vec<IfClause>, else_block: &Option<Block>, fuel: u64) -> (r:
        Result<Value, ControlFlowValue>)
        requires
            old(self).wf(),
        ensures
            final(self).wf(),
            final(self)@.scopes.len() == old(self)@.scopes.len(),
            (final(self)@, result_view(r)) == eval_clauses(
                clauses_view(clauses@),
                match else_block {
                    Some(b) => Some(block_view(b@)),
                    None => None,
                },
                0,
                old(self)@,
                fuel as nat,
            ),
        decreases fuel, 3int, 0int,
    {
        let ghost cv = clauses_view(clauses@);
        let ghost ev = match else_block {
            Some(b) => Some(block_view(b@)),
            None => None,
        };
        let ghost m0 = self@;
        let ghost depth = self@.scopes.len();
        let mut i: usize = 0;
        while i < clauses.len()
            invariant
                self.wf(),
                self@.scopes.len() == depth,
                depth == old(self)@.scopes.len(),
                m0 == old(self)@,
                ev == match else_block {
                    Some(b) => Some(block_view(b@)),
                    None => None,
                },
                cv == clauses_view(clauses@),
                i <= clauses@.len(),
                eval_clauses(cv, ev, 0, m0, fuel as nat) == eval_clauses(
                    cv,
                    ev,
                    i as int,
                    self@,
                    fuel as nat,
                ),
            decreases clauses@.len() - i,
        {
            let test_value = match self.eval_expression(&clauses[i].test, fuel) {
                Ok(v) => v,
                Err(e) => return Err(e),
            };
            let test = match test_value.into_bool() {
                Ok(b) => *b,
                Err(e) => return Err(e),
            };
            if test {
                return self.eval_block(true, &clauses[i].body, fuel);
            }
            i = i + 1;
        }
        match else_block {
            Some(block) => self.eval_block(true, block, fuel),
            None => Ok(Value::Null),
        }
    }

    fn eval_assign(
        &mut self,
        id: &String,
        operator: AssignmentOperator,
        expression: &Expression,
        fuel: u64,
    ) -> (r: Result<Value, ControlFlowValue>)
        requires
            old(self).wf(),
        ensures
            final(self).wf(),
            final(self)@.scopes.len() == old(self)@.scopes.len(),
            (final(self)@, result_view(r)) == eval_assign(
                id@,
                operator,
                expression@,
                old(self)@,
                fuel as nat,
            ),
        decreases fuel, 4int, 0int,
    {
        let value = match self.eval_expression(expression, fuel) {
            Ok(v) => v,
            Err(e) => return Err(e),
        };
        let new_value = if operator == AssignmentOperator::Replace {
            value
        } else {
            let current = match self.environment.get_or_undeclared(id) {
                Ok(v) => v,
                Err(e) => return Err(e),
            };
            match apply_operator(assignment_operator_of(operator), current, value) {
                Ok(v) => v,
                Err(e) => return Err(e),
            }
        };
        match self.environment.assign(id, new_value) {
            Ok(()) => Ok(Value::Null),
            Err(e) => Err(e),
        }
    }

    fn eval_update(&mut self, identifier: &String, operator: UpdateOperator) -> (r: Result<
        Value,
        ControlFlowValue,
    >)
        requires
            old(self).wf(),
        ensures
            final(self).wf(),
            final(self)@.scopes.len() == old(self)@.scopes.len(),
            (final(self)@, result_view(r)) == eval_update(identifier@, operator, old(self)@),
    {
        let current = match self.environment.get_or_undeclared(identifier) {
            Ok(v) => v,
            Err(e) => return Err(e),
        };
        let updated = if operator == UpdateOperator::Increment {
            plus(current, Value::Int(1))
        } else {
            minus(current, Value::Int(1))
        };
        let new_value = match updated {
            Ok(v) => v,
            Err(e) => return Err(e),
        };
        match self.environment.assign(identifier, new_value) {
            Ok(()) => Ok(Value::Null),
            Err(e) => Err(e),
        }
    }

    /// The turns of a loop, in the loop's own scope.
    fn run_loop(
        &mut self,
        init: &Option<Box<Expression>>,
        test: &Option<Box<Expression>>,
        update: &Option<Box<Expression>>,
        body: &Block,
        fuel: u64,
    ) -> (r: Result<Value, ControlFlowValue>)
        requires
            old(self).wf(),
        ensures
            final(self).wf(),
            final(self)@.scopes.len() == old(self)@.scopes.len(),
            (final(self)@, result_view(r)) == loop_from_init(
                opt_view(*init),
                opt_view(*test),
                opt_view(*update),
                block_view(body@),
                old(self)@,
                fuel as nat,
            ),
        decreases fuel, 4int, 0int,
    {
        let ghost tv = opt_view(*test);
        let ghost uv = opt_view(*update);
        let ghost bv = block_view(body@);
        match init {
            Some(init) => {
                match self.eval_expression(init, fuel) {
                    Ok(_) => {},
                    Err(e) => return Err(e),
                }
            },
            None => {},
        }
        let ghost m0 = self@;
        let ghost depth = self@.scopes.len();
        let mut result = Value::Null;
        let mut budget = fuel;
        loop
            invariant
                self.wf(),
                self@.scopes.len() == depth,
                depth == old(self)@.scopes.len(),
                budget <= fuel,
                tv == opt_view(*test),
                uv == opt_view(*update),
                bv == block_view(body@),
                loop_from_init(opt_view(*init), tv, uv, bv, old(self)@, fuel as nat) == loop_turns(
                    tv,
                    uv,
                    bv,
                    result@,
                    self@,
                    budget as nat,
                ),
            decreases budget,
        {
            if budget == 0 {
                return Err(ControlFlowValue::Exception(Exception::DepthLimitExceeded));
            }
            match test {
                Some(test) => {
                    let test_value = match self.eval_expression(test, budget) {
                        Ok(v) => v,
                        Err(e) => return Err(e),
                    };
                    let go_on = match test_value.into_bool() {
                        Ok(b) => *b,
                        Err(e) => return Err(e),
                    };
                    if !go_on {
                        return Ok(result);
                    }
                },
                None => {},
            }
            match self.eval_block(false, body, budget) {
                Ok(v) => {
                    result = v;
                },
                Err(ControlFlowValue::Continue) => {},
                Err(ControlFlowValue::Break) => {
                    return Ok(result);
                },
                Err(e) => {
                    return Err(e);
                },
            }
            match update {
                Some(update) => {
                    match self.eval_expression(update, budget) {
                        Ok(_) => {},
                        Err(e) => return Err(e),
                    }
                },
                None => {},
            }
            budget = budget - 1;
        }
    }

    fn eval_loop(
        &mut self,
        init: &Option<Box<Expression>>,
        test: &Option<Box<Expression>>,
        update: &Option<Box<Expression>>,
        body: &Block,
        fuel: u64,
    ) -> (r: Result<Value, ControlFlowValue>)
        requires
            old(self).wf(),
        ensures
            final(self).wf(),
            final(self)@.scopes.len() == old(self)@.scopes.len(),
            (final(self)@, result_view(r)) == eval_loop(
                opt_view(*init),
                opt_view(*test),
                opt_view(*update),
                block_view(body@),
                old(self)@,
                fuel as nat,
            ),
        decreases fuel, 5int, 0int,
    {
        self.environment.push();
        let result = self.run_loop(init, test, update, body, fuel);
        self.environment.pop();
        result
    }

    fn eval_expression(&mut self, expression: &Expression, fuel: u64) -> (r: Result<
        Value,
        ControlFlowValue,
    >)
        requires
            old(self).wf(),
        ensures
            final(self).wf(),
            final(self)@.scopes.len() == old(self)@.scopes.len(),
            (final(self)@, result_view(r)) == eval(expression@, old(self)@, fuel as nat),
        decreases fuel, 0int, 0int,
    {
        if fuel == 0 {
            return Err(ControlFlowValue::Exception(Exception::DepthLimitExceeded));
        }
        let f = fuel - 1;
        match &expression.value {
            ExpressionValue::Int(v) => Ok(Value::Int(*v)),
            ExpressionValue::String(v) => Ok(Value::String(v.clone())),
            ExpressionValue::Bool(v) => Ok(Value::Bool(*v)),
            ExpressionValue::Null => Ok(Value::Null),
            ExpressionValue::If { clauses, else_block } => self.eval_if(clauses, else_block, f),
            ExpressionValue::Loop { init, test, update, body } => self.eval_loop(
                init,
                test,
                update,
                body,
                f,
            ),
            ExpressionValue::Continue => Err(ControlFlowValue::Continue),
            ExpressionValue::Break => Err(ControlFlowValue::Break),
            ExpressionValue::Function(v) => Ok(Value::Function(Function::Defined(v.copy()))),
            ExpressionValue::Block(v) => self.eval_block(true, v, f),
            ExpressionValue::Identifier(id) => self.eval_identifier(id),
            ExpressionValue::Call { identifier, arguments } => self.eval_call(
                identifier,
                arguments,
                f,
            ),
            ExpressionValue::List(expressions) => self.eval_list(expressions, f),
            ExpressionValue::Index { expression, index } => self.eval_index(expression, index, f),
            ExpressionValue::VariableDeclaration { identifier, expression } =>
                self.eval_declare_variable(identifier, expression, f),
            ExpressionValue::Assign { identifier, operator, expression } => self.eval_assign(
                identifier,
                *operator,
                expression,
                f,
            ),
            ExpressionValue::Update { identifier, operator } => self.eval_update(
                identifier,
                *operator,
            ),
            ExpressionValue::Binary { left, operator, right } => self.eval_binary(
                left,
                *operator,
                right,
                f,
            ),
        }
    }
}

#[derive(Debug)]
pub enum EvalError {
    UnhandledException(Exception),
    ContinueOutsideLoop,
    BreakOutsideLoop,
    Parser(ParserError),
    Lexer(LexerError),
}

/// How a program run ends, as a mathematical object.
pub enum EvalErrV {
    UnhandledException(Exception),
    ContinueOutsideLoop,
    BreakOutsideLoop,
    Parser(ParseErrV),
    Lexer(LexerError),
}

pub open spec fn eval_error_view(e: EvalError) -> EvalErrV {
    match e {
        EvalError::UnhandledException(x) => EvalErrV::UnhandledException(x),
        EvalError::ContinueOutsideLoop => EvalErrV::ContinueOutsideLoop,
        EvalError::BreakOutsideLoop => EvalErrV::BreakOutsideLoop,
        EvalError::Parser(p) => EvalErrV::Parser(p@),
        EvalError::Lexer(l) => EvalErrV::Lexer(l),
    }
}

pub open spec fn eval_result_view(r: Result<Value, EvalError>) -> Result<Val, EvalErrV> {
    match r {
        Ok(v) => Ok(v@),
        Err(e) => Err(eval_error_view(e)),
    }
}

/// The budget that each top-level expression is evaluated with.
pub open spec fn top_budget() -> nat {
    u64::MAX as nat
}

/// What a signal that reaches the top level is reported as.
pub open spec fn top_level_error(x: ControlFlowValue) -> EvalErrV {
    match x {
        ControlFlowValue::Exception(e) => EvalErrV::UnhandledException(e),
        ControlFlowValue::Continue => EvalErrV::ContinueOutsideLoop,
        ControlFlowValue::Break => EvalErrV::BreakOutsideLoop,
    }
}

/// Running a source text: tokenize, parse, then evaluate the top-level
/// expressions in order in the machine's scopes; the value is that of the
/// last expression, `null` for an empty program.
pub open spec fn run_source(src: Seq<char>, m: Machine) -> (Machine, Result<Val, EvalErrV>) {
    match lex(src) {
        Err(e) => (m, Err(EvalErrV::Lexer(e))),
        Ok(toks) => match parse_tokens(toks) {
            Err(e) => (m, Err(EvalErrV::Parser(e))),
            Ok(prog) => run_program(prog, m),
        },
    }
}

/// Evaluating the top-level expressions of a program in order.
pub open spec fn run_program(prog: Seq<ExprV>, m: Machine) -> (Machine, Result<Val, EvalErrV>) {
    let (m1, r) = eval_seq(prog, 0, Val::Null, m, top_budget());
    (
        m1,
        match r {
            Ok(v) => Ok(v),
            Err(x) => Err(top_level_error(x)),
        },
    )
}

/// The state of a fresh interpreter given the input lines.
pub open spec fn initial_machine(input: Seq<Seq<char>>) -> Machine {
    Machine { scopes: seq![builtin_scope()], input, output: Seq::empty() }
}

impl EvalError {
    /// The exception of an `UnhandledException`.
    pub fn unwrap_exception(&self) -> (r: &Exception)
        requires
            self is UnhandledException,
        ensures
            *r == self->UnhandledException_0,
    {
        match self {
            Self::UnhandledException(v) => v,
            _ => {
                proof {
                    assert(false);
                }
                &Exception::NestedReturns
            },
        }
    }
}

impl Interpreter {
    /// A fresh interpreter with the builtins in its global scope and no input.
    pub fn new() -> (r: Interpreter)
        ensures
            r.wf(),
            r@ == initial_machine(Seq::empty()),
    {
        let lines: Vec<String> = Vec::new();
        assert(strings_view(lines@) =~= Seq::<Seq<char>>::empty());
        Interpreter::with_input(lines)
    }

    /// A fresh interpreter whose `readLn` hands out the given lines in order.
    pub fn with_input(lines: Vec<String>) -> (r: Interpreter)
        ensures
            r.wf(),
            r@ == initial_machine(strings_view(lines@)),
    {
        let r = Interpreter {
            environment: Environment::with_builtins(),
            input: lines,
            consumed: 0,
            output: Vec::new(),
        };
        assert(r@.input =~= strings_view(lines@));
        assert(r@.output =~= Seq::<Seq<char>>::empty());
        r
    }

    /// The lines that `printLn` has written so far.
    pub fn output(&self) -> (r: &Vec<String>)
        ensures
            strings_view(r@) == self@.output,
    {
        &self.output
    }

    /// Runs a source text in this interpreter's scopes.
    pub fn eval(&mut self, source: &str) -> (r: Result<Value, EvalError>)
        requires
            old(self).wf(),
            source@.len() <= isize::MAX,
        ensures
            final(self).wf(),
            (final(self)@, eval_result_view(r)) == run_source(source@, old(self)@),
    {
        let mut parser = match Parser::new(source) {
            Ok(p) => p,
            Err(e) => return Err(EvalError::Lexer(e)),
        };
        let program = match parser.parse() {
            Ok(p) => p,
            Err(e) => return Err(EvalError::Parser(e)),
        };
        let ghost prog = block_view(program.ast@);
        let ghost toks = parser.toks();
        assert(lex(source@) == Ok::<Seq<crate::lexer::TokV>, LexerError>(toks));
        assert(parse_tokens(toks) == Ok::<Seq<crate::ast::ExprV>, ParseErrV>(prog));
        self.run(&program)
    }

    /// Evaluates the expressions of a program in order in this interpreter's
    /// scopes; the value is that of the last one, `null` if there is none.
    pub fn run(&mut self, program: &Program) -> (r: Result<Value, EvalError>)
        requires
            old(self).wf(),
        ensures
            final(self).wf(),
            (final(self)@, eval_result_view(r)) == run_program(block_view(program.ast@), old(self)@),
    {
        let ghost prog = block_view(program.ast@);
        let ghost m0 = self@;
        let mut result = Value::Null;
        let mut i: usize = 0;
        while i < program.ast.len()
            invariant
                self.wf(),
                prog == block_view(program.ast@),
                m0 == old(self)@,
                i <= program.ast@.len(),
                eval_seq(prog, 0, Val::Null, m0, top_budget()) == eval_seq(
                    prog,
                    i as int,
                    result@,
                    self@,
                    top_budget(),
                ),
            decreases program.ast@.len() - i,
        {
            match self.eval_expression(&program.ast[i], u64::MAX) {
                Ok(v) => {
                    result = v;
                },
                Err(err) => {
                    return Err(
                        match err {
                            ControlFlowValue::Exception(e) => EvalError::UnhandledException(e),
                            ControlFlowValue::Continue => EvalError::ContinueOutsideLoop,
                            ControlFlowValue::Break => EvalError::BreakOutsideLoop,
                        },
                    );
                },
            }
            i = i + 1;
        }
        Ok(result)
    }
}

} // verus!
