//! General properties of the language, proved from the rules that the
//! lexer, parser and interpreter are verified against.
use vstd::prelude::*;
use crate::ast::ExprV;
use crate::builtin::{arity_error, len_spec};
use crate::environment::env_get;
use crate::interpreter::{initial_machine, run_source, top_level_error, EvalErrV};
use crate::semantics::{
    eval, eval_binary, eval_defined, loop_turns, plus_spec, Machine, Outcome,
};
use crate::value::{val_eq, vals_eq, ControlFlowValue, Val};
use crate::builtin::display;
use crate::lexer::{lex, lex_from, scan_digits, scan_to, scan_word, TokenKind};
use crate::text::{decimal_digits, digit_char, digit_value, digits_value, is_digit};

verus! {

/// `+` on a list and a value gives the list with the value appended, so
/// its length grows by one; the list it started from, held in a variable,
/// is left as it was.
pub proof fn law_list_append(name: Seq<char>, items: Seq<Val>, n: i64, m: Machine, fuel: nat)
    requires
        env_get(m.scopes, name) == Some(Val::List(items)),
        fuel >= 1,
        items.len() + 1 <= i64::MAX,
    ensures
        plus_spec(Val::List(items), Val::Int(n)) == Ok::<Val, ControlFlowValue>(
            Val::List(items.push(Val::Int(n))),
        ),
        eval_binary(ExprV::Identifier(name), crate::ast::Operator::Plus, ExprV::Int(n), m, fuel)
            == (m, Ok::<Val, ControlFlowValue>(Val::List(items.push(Val::Int(n))))),
        len_spec(seq![Val::List(items.push(Val::Int(n)))]) == Ok::<Val, ControlFlowValue>(
            Val::Int((items.len() + 1) as i64),
        ),
{
    reveal_with_fuel(eval, 2);
}

/// Calling a defined function with a number of arguments other than its
/// number of parameters fails with `WrongNumberOfArguments`, whatever the
/// arguments are, and changes nothing.
pub proof fn law_wrong_arity(
    params: Seq<Seq<char>>,
    body: Seq<ExprV>,
    args: Seq<Val>,
    m: Machine,
    fuel: nat,
)
    requires
        params.len() != args.len(),
    ensures
        eval_defined(params, body, args, m, fuel) == (m, Err::<Val, ControlFlowValue>(
            arity_error(),
        )),
{
}

/// `break` ends a loop at once, before its update, with the value of the
/// last body that ran to its end; `continue` ends only the current turn:
/// the update still runs and the loop goes on.
pub proof fn law_loop_control(
    update: Option<Box<ExprV>>,
    body: Seq<ExprV>,
    acc: Val,
    m: Machine,
    after_body: Machine,
    fuel: nat,
)
    requires
        fuel >= 1,
    ensures
        crate::semantics::eval_seq(body, 0, Val::Null, m, fuel) == (
            after_body,
            Err::<Val, ControlFlowValue>(ControlFlowValue::Break),
        ) ==> loop_turns(None, update, body, acc, m, fuel) == (after_body, Ok::<
            Val,
            ControlFlowValue,
        >(acc)),
        crate::semantics::eval_seq(body, 0, Val::Null, m, fuel) == (
            after_body,
            Err::<Val, ControlFlowValue>(ControlFlowValue::Continue),
        ) ==> loop_turns(None, update, body, acc, m, fuel) == ({
            let (m3, ru) = match update {
                Some(u) => eval(*u, after_body, fuel),
                None => (after_body, Ok(Val::Null)),
            };
            match ru {
                Ok(_) => loop_turns(None, update, body, acc, m3, (fuel - 1) as nat),
                Err(x) => (m3, Err(x)),
            }
        }),
{
}

/// `continue` and `break` that reach the top level are reported as errors of
/// their own, not as runtime exceptions.
pub proof fn law_jumps_outside_loops()
    ensures
        top_level_error(ControlFlowValue::Continue) == EvalErrV::ContinueOutsideLoop,
        top_level_error(ControlFlowValue::Break) == EvalErrV::BreakOutsideLoop,
        !(top_level_error(ControlFlowValue::Continue) is UnhandledException),
        !(top_level_error(ControlFlowValue::Break) is UnhandledException),
{
}

/// A value that holds no function anywhere inside it.
pub open spec fn function_free(v: Val) -> bool
    decreases v,
{
    match v {
        Val::Defined(_, _) => false,
        Val::Builtin(_) => false,
        Val::List(items) => all_function_free(items),
        _ => true,
    }
}

pub open spec fn all_function_free(items: Seq<Val>) -> bool
    decreases items,
{
    items.len() == 0 || (all_function_free(items.subrange(0, items.len() - 1)) && function_free(
        items[items.len() - 1],
    ))
}

/// A value without functions is equal to itself.
pub proof fn lemma_val_eq_reflexive(v: Val)
    requires
        function_free(v),
    ensures
        val_eq(v, v),
    decreases v,
{
    if let Val::List(items) = v {
        lemma_vals_eq_reflexive(items);
    }
}

proof fn lemma_vals_eq_reflexive(items: Seq<Val>)
    requires
        all_function_free(items),
    ensures
        vals_eq(items, items),
    decreases items,
{
    if items.len() > 0 {
        lemma_vals_eq_reflexive(items.subrange(0, items.len() - 1));
        lemma_val_eq_reflexive(items[items.len() - 1]);
    }
}

/// Two fresh interpreters given the same input run the same source to the
/// same end; a result without functions is equal, by the language's `==`,
/// to the one the other run gives.
pub proof fn law_fresh_runs_agree(src: Seq<char>, input: Seq<Seq<char>>, a: Machine, b: Machine)
    requires
        a == initial_machine(input),
        b == initial_machine(input),
    ensures
        run_source(src, a) == run_source(src, b),
        run_source(src, a).1 matches Ok(v) ==> (function_free(v) ==> val_eq(
            v,
            run_source(src, b).1->Ok_0,
        )),
{
    if let Ok(v) = run_source(src, a).1 {
        if function_free(v) {
            lemma_val_eq_reflexive(v);
        }
    }
}


proof fn lemma_digit_char(d: int)
    requires
        0 <= d < 10,
    ensures
        is_digit(digit_char(d)),
        digit_value(digit_char(d)) == d,
{
}

/// The decimal rendering of a number is a non-empty run of digits that
/// denotes the number.
proof fn lemma_decimal_digits(n: nat)
    ensures
        decimal_digits(n).len() >= 1,
        forall|i: int| 0 <= i < decimal_digits(n).len() ==> #[trigger] is_digit(decimal_digits(n)[i]),
        digits_value(decimal_digits(n)) == n,
    decreases n,
{
    let s = decimal_digits(n);
    if n < 10 {
        lemma_digit_char(n as int);
        assert(s.drop_last() =~= Seq::<char>::empty());
        assert(digits_value(Seq::<char>::empty()) == 0);
        assert(digits_value(s) == digits_value(s.drop_last()) * 10 + digit_value(s.last()));
    } else {
        lemma_decimal_digits(n / 10);
        lemma_digit_char((n % 10) as int);
        assert(s.drop_last() =~= decimal_digits(n / 10));
        assert(n == (n / 10) * 10 + n % 10);
        assert(s.last() == digit_char((n % 10) as int));
        assert(digits_value(s) == digits_value(s.drop_last()) * 10 + digit_value(s.last()));
    }
}

proof fn lemma_scan_digits_to_end(src: Seq<char>, j: int)
    requires
        0 <= j <= src.len(),
        forall|i: int| j <= i < src.len() ==> #[trigger] is_digit(src[i]),
    ensures
        scan_digits(src, j) == src.len(),
    decreases src.len() - j,
{
    if j < src.len() {
        lemma_scan_digits_to_end(src, j + 1);
    }
}

proof fn lemma_scan_to_stop(src: Seq<char>, j: int, stop: char, end: int)
    requires
        0 <= j <= end < src.len(),
        src[end] == stop,
        forall|i: int| j <= i < end ==> #[trigger] src[i] != stop,
    ensures
        scan_to(src, j, stop) == end,
    decreases end - j,
{
    if j < end {
        lemma_scan_to_stop(src, j + 1, stop, end);
    }
}

/// The display form of an integer that is at least zero lexes back to one
/// integer literal of the same value.
pub proof fn law_int_round_trip(n: i64)
    requires
        n >= 0,
    ensures
        lex(display(Val::Int(n))) matches Ok(ts) && ts.len() == 2 && ts[0].kind == TokenKind::Int
            && ts[0].int == n && ts[1].kind == TokenKind::EndOfFile,
{
    let src = display(Val::Int(n));
    lemma_decimal_digits(n as nat);
    assert(src == decimal_digits(n as nat));
    lemma_scan_digits_to_end(src, 0);
    assert(src.subrange(0, src.len() as int) =~= src);
    assert(is_digit(src[0]));
    reveal_with_fuel(lex_from, 2);
}

proof fn lemma_word_round_trip(src: Seq<char>, k: TokenKind)
    requires
        src.len() >= 1,
        forall|i: int| 0 <= i < src.len() ==> 97 <= #[trigger] (src[i] as u32) <= 122,
        crate::lexer::keyword(src) == Some(k),
    ensures
        lex(src) matches Ok(ts) && ts.len() == 2 && ts[0].kind == k && ts[1].kind
            == TokenKind::EndOfFile,
{
    lemma_scan_word_to_end(src, 0);
    assert(src.subrange(0, src.len() as int) =~= src);
    reveal_with_fuel(lex_from, 2);
}

proof fn lemma_scan_word_to_end(src: Seq<char>, j: int)
    requires
        0 <= j <= src.len(),
        forall|i: int| 0 <= i < src.len() ==> 97 <= #[trigger] (src[i] as u32) <= 122,
    ensures
        scan_word(src, j) == src.len(),
    decreases src.len() - j,
{
    if j < src.len() {
        assert(97 <= (src[j] as u32) <= 122);
        lemma_scan_word_to_end(src, j + 1);
    }
}

/// The display forms of `true`, `false` and `null` lex back to the keyword
/// literals.
pub proof fn law_keyword_round_trip(b: bool)
    ensures
        lex(display(Val::Bool(b))) matches Ok(ts) && ts.len() == 2 && ts[0].kind == (if b {
            TokenKind::KeywordTrue
        } else {
            TokenKind::KeywordFalse
        }) && ts[1].kind == TokenKind::EndOfFile,
        lex(display(Val::Null)) matches Ok(ts) && ts.len() == 2 && ts[0].kind
            == TokenKind::KeywordNull && ts[1].kind == TokenKind::EndOfFile,
{
    let t = display(Val::Bool(b));
    if b {
        lemma_word_round_trip(t, TokenKind::KeywordTrue);
    } else {
        lemma_word_round_trip(t, TokenKind::KeywordFalse);
    }
    lemma_word_round_trip(display(Val::Null), TokenKind::KeywordNull);
}

/// The display form of a string without a double quote, put between
/// double quotes, lexes back to one string literal of the same text.
pub proof fn law_string_round_trip(s: Seq<char>)
    requires
        forall|i: int| 0 <= i < s.len() ==> #[trigger] s[i] != '"',
    ensures
        lex(seq!['"'] + display(Val::Str(s)) + seq!['"']) matches Ok(ts) && ts.len() == 2
            && ts[0].kind == TokenKind::String && ts[0].text == s && ts[1].kind
            == TokenKind::EndOfFile,
{
    let src = seq!['"'] + display(Val::Str(s)) + seq!['"'];
    assert(src.len() == s.len() + 2);
    assert forall|i: int| 1 <= i < s.len() + 1 implies #[trigger] src[i] != '"' by {
        assert(src[i] == s[i - 1]);
    }
    lemma_scan_to_stop(src, 1, '"', s.len() + 1int);
    assert(src.subrange(1, s.len() + 1int) =~= s);
    reveal_with_fuel(lex_from, 2);
}

} // verus!
