//! The builtin functions and the display form of values.
use vstd::prelude::*;
use crate::text::{decimal, push_char, push_decimal, push_string};
use crate::value::{list_view, signal, wrong_type, ControlFlowValue, Exception, Val, Value};

verus! {

/// The display form of a value, as `toString` and `printLn` give it.
pub open spec fn display(v: Val) -> Seq<char>
    decreases v,
{
    match v {
        Val::Bool(b) => if b {
            seq!['t', 'r', 'u', 'e']
        } else {
            seq!['f', 'a', 'l', 's', 'e']
        },
        Val::Int(n) => decimal(n as int),
        Val::Str(s) => s,
        Val::Null => seq!['n', 'u', 'l', 'l'],
        Val::List(items) => seq!['['] + display_items(items) + seq![']'],
        Val::Defined(_, _) => seq!['<', 'f', 'u', 'n', 'c', 't', 'i', 'o', 'n', '>'],
        Val::Builtin(_) => seq!['<', 'b', 'u', 'i', 'l', 't', 'i', 'n', '>'],
    }
}

/// The display forms of the items, separated by single spaces.
pub open spec fn display_items(items: Seq<Val>) -> Seq<char>
    decreases items,
{
    if items.len() == 0 {
        Seq::empty()
    } else if items.len() == 1 {
        display(items[0])
    } else {
        display_items(items.subrange(0, items.len() - 1)) + seq![' '] + display(
            items[items.len() - 1],
        )
    }
}

/// The display forms of the values, one after another.
pub open spec fn display_concat(items: Seq<Val>) -> Seq<char>
    decreases items.len(),
{
    if items.len() == 0 {
        Seq::empty()
    } else {
        display_concat(items.subrange(0, items.len() - 1)) + display(items[items.len() - 1])
    }
}

pub open spec fn values_view(args: Seq<Value>) -> Seq<Val> {
    list_view(args)
}

pub open spec fn arity_error() -> ControlFlowValue {
    signal(Exception::WrongNumberOfArguments)
}

pub open spec fn result_view(r: Result<Value, ControlFlowValue>) -> Result<Val, ControlFlowValue> {
    match r {
        Ok(v) => Ok(v@),
        Err(e) => Err(e),
    }
}

/// What `toString` returns for the given arguments.
pub open spec fn to_string_spec(args: Seq<Val>) -> Result<Val, ControlFlowValue> {
    if args.len() != 1 {
        Err(arity_error())
    } else {
        Ok(Val::Str(display(args[0])))
    }
}

/// What `len` returns for the given arguments.
pub open spec fn len_spec(args: Seq<Val>) -> Result<Val, ControlFlowValue> {
    if args.len() != 1 {
        Err(arity_error())
    } else {
        match args[0] {
            Val::List(items) => Ok(Val::Int(items.len() as i64)),
            _ => Err(wrong_type()),
        }
    }
}

/// Appends the display form of `v`.
pub fn push_display(s: &mut String, v: &Value)
    ensures
        final(s)@ == old(s)@ + display(v@),
    decreases v,
{
    match v {
        Value::Bool(b) => {
            if *b {
                push_char(s, 't');
                push_char(s, 'r');
                push_char(s, 'u');
                push_char(s, 'e');
            } else {
                push_char(s, 'f');
                push_char(s, 'a');
                push_char(s, 'l');
                push_char(s, 's');
                push_char(s, 'e');
            }
            assert(final(s)@ =~= old(s)@ + display(v@));
        },
        Value::Int(n) => push_decimal(s, *n),
        Value::String(t) => push_string(s, t),
        Value::Null => {
            push_char(s, 'n');
            push_char(s, 'u');
            push_char(s, 'l');
            push_char(s, 'l');
            assert(final(s)@ =~= old(s)@ + display(v@));
        },
        Value::List(items) => {
            push_char(s, '[');
            push_display_items(s, items);
            push_char(s, ']');
            assert(final(s)@ =~= old(s)@ + display(v@));
        },
        Value::Function(crate::value::Function::Defined(_)) => {
            push_char(s, '<');
            push_char(s, 'f');
            push_char(s, 'u');
            push_char(s, 'n');
            push_char(s, 'c');
            push_char(s, 't');
            push_char(s, 'i');
            push_char(s, 'o');
            push_char(s, 'n');
            push_char(s, '>');
            assert(final(s)@ =~= old(s)@ + display(v@));
        },
        Value::Function(crate::value::Function::Builtin(_)) => {
            push_char(s, '<');
            push_char(s, 'b');
            push_char(s, 'u');
            push_char(s, 'i');
            push_char(s, 'l');
            push_char(s, 't');
            push_char(s, 'i');
            push_char(s, 'n');
            push_char(s, '>');
            assert(final(s)@ =~= old(s)@ + display(v@));
        },
    }
}

/// Appends the display forms of the items, separated by single spaces.
fn push_display_items(s: &mut String, items: &Vec<Value>)
    ensures
        final(s)@ == old(s)@ + display_items(list_view(items@)),
    decreases items,
{
    let ghost x = list_view(items@);
    let ghost start = s@;
    let mut i: usize = 0;
    assert(x.subrange(0, 0) =~= Seq::<Val>::empty());
    assert(s@ =~= start + display_items(x.subrange(0, 0)));
    while i < items.len()
        invariant
            i <= items@.len(),
            x == list_view(items@),
            start == old(s)@,
            s@ == start + display_items(x.subrange(0, i as int)),
        decreases items@.len() - i,
    {
        proof {
            assert(decreases_to!(items => items@[i as int]));
            assert(x.subrange(0, i + 1).subrange(0, i as int) =~= x.subrange(0, i as int));
        }
        if i > 0 {
            push_char(s, ' ');
        }
        push_display(s, &items[i]);
        i = i + 1;
        assert(s@ =~= start + display_items(x.subrange(0, i as int)));
    }
    assert(x.subrange(0, items@.len() as int) =~= x);
}

/// The display form of a value as a `String`.
pub fn display_string(v: &Value) -> (r: String)
    ensures
        r@ == display(v@),
{
    let mut s = String::new();
    push_display(&mut s, v);
    assert(s@ =~= display(v@));
    s
}

fn expect_num_of_argumets(arguments: &Vec<Value>, num: usize) -> (r: Result<(), ControlFlowValue>)
    ensures
        arguments@.len() == num ==> r is Ok,
        arguments@.len() != num ==> r == Err::<(), ControlFlowValue>(arity_error()),
{
    if arguments.len() != num {
        Err(ControlFlowValue::Exception(Exception::WrongNumberOfArguments))
    } else {
        Ok(())
    }
}

/// The line that `printLn` writes: the display forms of its arguments,
/// without separators.
pub fn print_ln(arguments: &Vec<Value>) -> (r: String)
    ensures
        r@ == display_concat(values_view(arguments@)),
{
    let ghost x = values_view(arguments@);
    let mut s = String::new();
    let mut i: usize = 0;
    assert(x.subrange(0, 0) =~= Seq::<Val>::empty());
    assert(s@ =~= display_concat(x.subrange(0, 0)));
    while i < arguments.len()
        invariant
            i <= arguments@.len(),
            x == values_view(arguments@),
            s@ == display_concat(x.subrange(0, i as int)),
        decreases arguments@.len() - i,
    {
        proof {
            assert(x.subrange(0, i + 1).subrange(0, i as int) =~= x.subrange(0, i as int));
        }
        push_display(&mut s, &arguments[i]);
        i = i + 1;
    }
    assert(x.subrange(0, arguments@.len() as int) =~= x);
    s
}

/// `toString`: the display form of its one argument.
pub fn to_string(arguments: Vec<Value>) -> (r: Result<Value, ControlFlowValue>)
    ensures
        result_view(r) == to_string_spec(values_view(arguments@)),
{
    expect_num_of_argumets(&arguments, 1)?;
    Ok(Value::String(display_string(&arguments[0])))
}

/// `len`: the number of items of its one argument, a list.
pub fn len(arguments: Vec<Value>) -> (r: Result<Value, ControlFlowValue>)
    ensures
        result_view(r) == len_spec(values_view(arguments@)),
{
    expect_num_of_argumets(&arguments, 1)?;
    let items = arguments[0].into_list()?;
    proof {
        assert(items@.len() == list_view(items@).len());
    }
    Ok(Value::Int(items.len() as i64))
}

} // verus!
