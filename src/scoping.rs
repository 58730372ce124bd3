//! Scoping: evaluation never adds or removes a name in any scope but the
//! innermost, so a name declared inside a block, an `if` body or a loop is
//! gone once it ends.
use vstd::prelude::*;
use crate::ast::ExprV;
use crate::environment::{env_assign, env_declare, env_get, innermost, innermost_from};
use crate::semantics::{
    assign_in, bind_parameters, call_builtin, eval, eval_args, eval_assign, eval_binary,
    eval_call, eval_clauses, eval_declare, eval_defined, eval_index, eval_loop, eval_scoped,
    eval_seq, eval_update, loop_from_init, loop_turns, push_scope, undeclared, Machine,
};
use crate::value::{ControlFlowValue, Val};

verus! {

pub type Scopes = Seq<Map<Seq<char>, Val>>;

/// `b` has as many scopes as `a`, and each of the first `n` declares the
/// same names in both.
pub open spec fn same_names_below(a: Scopes, b: Scopes, n: int) -> bool {
    a.len() == b.len() && forall|i: int| 0 <= i < n ==> #[trigger] b[i].dom() == a[i].dom()
}

/// Only the innermost scope may have gained or lost names.
pub open spec fn keeps_outer(m: Machine, m2: Machine) -> bool {
    same_names_below(m.scopes, m2.scopes, m.scopes.len() - 1)
}

/// Every scope declares the same names as before.
pub open spec fn keeps_all(m: Machine, m2: Machine) -> bool {
    same_names_below(m.scopes, m2.scopes, m.scopes.len() as int)
}

proof fn lemma_trans(a: Machine, b: Machine, c: Machine)
    requires
        keeps_outer(a, b),
        keeps_outer(b, c),
    ensures
        keeps_outer(a, c),
{
    assert forall|i: int| 0 <= i < a.scopes.len() - 1 implies #[trigger] c.scopes[i].dom()
        == a.scopes[i].dom() by {
        assert(c.scopes[i].dom() == b.scopes[i].dom());
        assert(b.scopes[i].dom() == a.scopes[i].dom());
    }
}

proof fn lemma_pop_after_push(m: Machine, inner: Machine)
    requires
        keeps_outer(push_scope(m), inner),
    ensures
        keeps_all(m, crate::semantics::pop_scope(inner)),
{
    let p = push_scope(m);
    let q = crate::semantics::pop_scope(inner);
    assert forall|i: int| 0 <= i < m.scopes.len() implies #[trigger] q.scopes[i].dom()
        == m.scopes[i].dom() by {
        assert(inner.scopes[i].dom() == p.scopes[i].dom());
        assert(p.scopes[i] == m.scopes[i]);
    }
}

proof fn lemma_innermost_found(s: Scopes, k: Seq<char>, n: int)
    requires
        n <= s.len(),
    ensures
        innermost_from(s, k, n) matches Some(i) ==> 0 <= i < n && s[i].contains_key(k),
    decreases n,
{
    if n > 0 {
        lemma_innermost_found(s, k, n - 1);
    }
}

/// Where two scope stacks declare the same names, the same scope declares a
/// name in both.
pub proof fn lemma_innermost_same_names(a: Scopes, b: Scopes, k: Seq<char>, n: int)
    requires
        same_names_below(a, b, a.len() as int),
        n <= a.len(),
    ensures
        innermost_from(a, k, n) == innermost_from(b, k, n),
    decreases n,
{
    if n > 0 {
        assert(b[n - 1].dom() == a[n - 1].dom());
        assert(a[n - 1].contains_key(k) == b[n - 1].contains_key(k));
        lemma_innermost_same_names(a, b, k, n - 1);
    }
}

proof fn lemma_assign_in(m: Machine, k: Seq<char>, v: Val)
    ensures
        keeps_all(m, assign_in(m, k, v).0),
{
    lemma_innermost_found(m.scopes, k, m.scopes.len() as int);
    if let Some(i) = innermost(m.scopes, k) {
        let s = m.scopes.update(i, m.scopes[i].insert(k, v));
        assert(m.scopes[i].insert(k, v).dom() =~= m.scopes[i].dom());
        assert forall|j: int| 0 <= j < m.scopes.len() implies #[trigger] s[j].dom()
            == m.scopes[j].dom() by {
            if j == i {
                assert(s[j] == m.scopes[i].insert(k, v));
            }
        }
    }
}

proof fn lemma_declare(s: Scopes, k: Seq<char>, v: Val)
    requires
        s.len() >= 1,
    ensures
        same_names_below(s, env_declare(s, k, v), s.len() - 1),
{
}

proof fn lemma_bind(params: Seq<Seq<char>>, args: Seq<Val>, s: Scopes, n: int)
    requires
        s.len() >= 1,
    ensures
        same_names_below(s, bind_parameters(params, args, s, n), s.len() - 1),
    decreases n,
{
    if n > 0 {
        lemma_bind(params, args, s, n - 1);
        let prev = bind_parameters(params, args, s, n - 1);
        lemma_declare(prev, params[n - 1], args[n - 1]);
        let next = bind_parameters(params, args, s, n);
        assert forall|i: int| 0 <= i < s.len() - 1 implies #[trigger] next[i].dom()
            == s[i].dom() by {
            assert(next[i].dom() == prev[i].dom());
            assert(prev[i].dom() == s[i].dom());
        }
    }
}

proof fn lemma_eval(e: ExprV, m: Machine, fuel: nat)
    requires
        m.scopes.len() >= 1,
    ensures
        keeps_outer(m, eval(e, m, fuel).0),
    decreases fuel, 0nat, 0nat,
{
    if fuel > 0 {
        let f = (fuel - 1) as nat;
        match e {
            ExprV::Block(b) => lemma_scoped(b, m, f),
            ExprV::Binary(l, op, r) => lemma_binary(*l, op, *r, m, f),
            ExprV::Update(id, op) => {
                if let Some(v) = env_get(m.scopes, id) {
                    let r = if op == crate::ast::UpdateOperator::Increment {
                        crate::semantics::plus_spec(v, Val::Int(1))
                    } else {
                        crate::semantics::minus_spec(v, Val::Int(1))
                    };
                    if let Ok(nv) = r {
                        lemma_assign_in(m, id, nv);
                    }
                }
                assert(eval(e, m, fuel) == eval_update(id, op, m));
            },
            ExprV::Declare(id, x) => lemma_declaration(id, *x, m, f),
            ExprV::Assign(id, op, x) => lemma_assignment(id, op, *x, m, f),
            ExprV::Call(id, args) => lemma_call(id, args, m, f),
            ExprV::List(items) => lemma_args(items, 0, Seq::empty(), m, f),
            ExprV::Index(t, i) => lemma_index(*t, *i, m, f),
            ExprV::If(clauses, els) => lemma_clauses(clauses, els, 0, m, f),
            ExprV::Loop(init, test, update, body) => lemma_loop(init, test, update, body, m, f),
            _ => {},
        }
    }
}

proof fn lemma_seq(b: Seq<ExprV>, i: int, acc: Val, m: Machine, fuel: nat)
    requires
        m.scopes.len() >= 1,
    ensures
        keeps_outer(m, eval_seq(b, i, acc, m, fuel).0),
    decreases fuel, 1nat, b.len() - i,
{
    if 0 <= i < b.len() {
        let (m1, r) = eval(b[i], m, fuel);
        lemma_eval(b[i], m, fuel);
        if let Ok(v) = r {
            lemma_seq(b, i + 1, v, m1, fuel);
            lemma_trans(m, m1, eval_seq(b, i + 1, v, m1, fuel).0);
        }
    }
}

proof fn lemma_args(args: Seq<ExprV>, i: int, acc: Seq<Val>, m: Machine, fuel: nat)
    requires
        m.scopes.len() >= 1,
    ensures
        keeps_outer(m, eval_args(args, i, acc, m, fuel).0),
    decreases fuel, 1nat, args.len() - i,
{
    if 0 <= i < args.len() {
        let (m1, r) = eval(args[i], m, fuel);
        lemma_eval(args[i], m, fuel);
        if let Ok(v) = r {
            lemma_args(args, i + 1, acc.push(v), m1, fuel);
            lemma_trans(m, m1, eval_args(args, i + 1, acc.push(v), m1, fuel).0);
        }
    }
}

proof fn lemma_scoped(b: Seq<ExprV>, m: Machine, fuel: nat)
    requires
        m.scopes.len() >= 1,
    ensures
        keeps_all(m, eval_scoped(b, m, fuel).0),
        keeps_outer(m, eval_scoped(b, m, fuel).0),
    decreases fuel, 2nat, 0nat,
{
    lemma_seq(b, 0, Val::Null, push_scope(m), fuel);
    lemma_pop_after_push(m, eval_seq(b, 0, Val::Null, push_scope(m), fuel).0);
}

proof fn lemma_defined(
    params: Seq<Seq<char>>,
    body: Seq<ExprV>,
    args: Seq<Val>,
    m: Machine,
    fuel: nat,
)
    requires
        m.scopes.len() >= 1,
    ensures
        keeps_all(m, eval_defined(params, body, args, m, fuel).0),
        keeps_outer(m, eval_defined(params, body, args, m, fuel).0),
    decreases fuel, 2nat, 0nat,
{
    if params.len() == args.len() {
        let m1 = push_scope(m);
        let m2 = crate::semantics::with_scopes(
            m1,
            bind_parameters(params, args, m1.scopes, params.len() as int),
        );
        lemma_bind(params, args, m1.scopes, params.len() as int);
        lemma_seq(body, 0, Val::Null, m2, fuel);
        lemma_trans(m1, m2, eval_seq(body, 0, Val::Null, m2, fuel).0);
        lemma_pop_after_push(m, eval_seq(body, 0, Val::Null, m2, fuel).0);
    }
}

proof fn lemma_clauses(
    clauses: Seq<(ExprV, Seq<ExprV>)>,
    els: Option<Seq<ExprV>>,
    i: int,
    m: Machine,
    fuel: nat,
)
    requires
        m.scopes.len() >= 1,
    ensures
        keeps_outer(m, eval_clauses(clauses, els, i, m, fuel).0),
    decreases fuel, 3nat, clauses.len() - i,
{
    if i < 0 || i >= clauses.len() {
        if let Some(b) = els {
            lemma_scoped(b, m, fuel);
        }
    } else {
        let (m1, r) = eval(clauses[i].0, m, fuel);
        lemma_eval(clauses[i].0, m, fuel);
        match r {
            Ok(Val::Bool(true)) => {
                lemma_scoped(clauses[i].1, m1, fuel);
                lemma_trans(m, m1, eval_scoped(clauses[i].1, m1, fuel).0);
            },
            Ok(Val::Bool(false)) => {
                lemma_clauses(clauses, els, i + 1, m1, fuel);
                lemma_trans(m, m1, eval_clauses(clauses, els, i + 1, m1, fuel).0);
            },
            _ => {},
        }
    }
}

proof fn lemma_turns(
    test: Option<Box<ExprV>>,
    update: Option<Box<ExprV>>,
    body: Seq<ExprV>,
    acc: Val,
    m: Machine,
    fuel: nat,
)
    requires
        m.scopes.len() >= 1,
    ensures
        keeps_outer(m, loop_turns(test, update, body, acc, m, fuel).0),
    decreases fuel, 3nat, 0nat,
{
    if fuel > 0 {
        let (m1, rt) = match test {
            Some(t) => eval(*t, m, fuel),
            None => (m, Ok(Val::Bool(true))),
        };
        if let Some(t) = test {
            lemma_eval(*t, m, fuel);
        }
        if rt == Ok::<Val, ControlFlowValue>(Val::Bool(true)) {
            let (m2, rb) = eval_seq(body, 0, Val::Null, m1, fuel);
            lemma_seq(body, 0, Val::Null, m1, fuel);
            lemma_trans(m, m1, m2);
            let acc2 = match rb {
                Ok(v) => v,
                _ => acc,
            };
            let (m3, ru) = match update {
                Some(u) => eval(*u, m2, fuel),
                None => (m2, Ok(Val::Null)),
            };
            if let Some(u) = update {
                lemma_eval(*u, m2, fuel);
            }
            lemma_trans(m, m2, m3);
            if ru is Ok {
                lemma_turns(test, update, body, acc2, m3, (fuel - 1) as nat);
                lemma_trans(
                    m,
                    m3,
                    loop_turns(test, update, body, acc2, m3, (fuel - 1) as nat).0,
                );
            }
        }
    }
}

proof fn lemma_from_init(
    init: Option<Box<ExprV>>,
    test: Option<Box<ExprV>>,
    update: Option<Box<ExprV>>,
    body: Seq<ExprV>,
    m: Machine,
    fuel: nat,
)
    requires
        m.scopes.len() >= 1,
    ensures
        keeps_outer(m, loop_from_init(init, test, update, body, m, fuel).0),
    decreases fuel, 4nat, 0nat,
{
    match init {
        Some(i) => {
            let (ma, ri) = eval(*i, m, fuel);
            lemma_eval(*i, m, fuel);
            if ri is Ok {
                lemma_turns(test, update, body, Val::Null, ma, fuel);
                lemma_trans(m, ma, loop_turns(test, update, body, Val::Null, ma, fuel).0);
            }
        },
        None => lemma_turns(test, update, body, Val::Null, m, fuel),
    }
}

proof fn lemma_loop(
    init: Option<Box<ExprV>>,
    test: Option<Box<ExprV>>,
    update: Option<Box<ExprV>>,
    body: Seq<ExprV>,
    m: Machine,
    fuel: nat,
)
    requires
        m.scopes.len() >= 1,
    ensures
        keeps_all(m, eval_loop(init, test, update, body, m, fuel).0),
        keeps_outer(m, eval_loop(init, test, update, body, m, fuel).0),
    decreases fuel, 5nat, 0nat,
{
    lemma_from_init(init, test, update, body, push_scope(m), fuel);
    lemma_pop_after_push(m, loop_from_init(init, test, update, body, push_scope(m), fuel).0);
}

proof fn lemma_binary(l: ExprV, op: crate::ast::Operator, r: ExprV, m: Machine, fuel: nat)
    requires
        m.scopes.len() >= 1,
    ensures
        keeps_outer(m, eval_binary(l, op, r, m, fuel).0),
    decreases fuel, 4nat, 0nat,
{
    let (m1, rl) = eval(l, m, fuel);
    lemma_eval(l, m, fuel);
    if rl is Ok {
        lemma_eval(r, m1, fuel);
        lemma_trans(m, m1, eval(r, m1, fuel).0);
    }
}

proof fn lemma_declaration(id: Seq<char>, x: ExprV, m: Machine, fuel: nat)
    requires
        m.scopes.len() >= 1,
    ensures
        keeps_outer(m, eval_declare(id, x, m, fuel).0),
    decreases fuel, 4nat, 0nat,
{
    let (m1, r) = eval(x, m, fuel);
    lemma_eval(x, m, fuel);
    if let Ok(v) = r {
        lemma_declare(m1.scopes, id, v);
        lemma_trans(m, m1, eval_declare(id, x, m, fuel).0);
    }
}

proof fn lemma_assignment(
    id: Seq<char>,
    op: crate::ast::AssignmentOperator,
    x: ExprV,
    m: Machine,
    fuel: nat,
)
    requires
        m.scopes.len() >= 1,
    ensures
        keeps_outer(m, eval_assign(id, op, x, m, fuel).0),
    decreases fuel, 4nat, 0nat,
{
    let (m1, r) = eval(x, m, fuel);
    lemma_eval(x, m, fuel);
    if let Ok(v) = r {
        if op == crate::ast::AssignmentOperator::Replace {
            lemma_assign_in(m1, id, v);
        } else if let Some(cur) = env_get(m1.scopes, id) {
            if let Ok(nv) = crate::semantics::binary_spec(
                crate::semantics::assignment_operator(op),
                cur,
                v,
            ) {
                lemma_assign_in(m1, id, nv);
            }
        }
        lemma_trans(m, m1, eval_assign(id, op, x, m, fuel).0);
    }
}

proof fn lemma_call(id: Seq<char>, args: Seq<ExprV>, m: Machine, fuel: nat)
    requires
        m.scopes.len() >= 1,
    ensures
        keeps_outer(m, eval_call(id, args, m, fuel).0),
    decreases fuel, 4nat, 0nat,
{
    match env_get(m.scopes, id) {
        Some(Val::Builtin(b)) => {
            let (m1, ra) = eval_args(args, 0, Seq::empty(), m, fuel);
            lemma_args(args, 0, Seq::empty(), m, fuel);
            if let Ok(vals) = ra {
                lemma_trans(m, m1, call_builtin(b, vals, m1).0);
            }
        },
        Some(Val::Defined(params, body)) => {
            let (m1, ra) = eval_args(args, 0, Seq::empty(), m, fuel);
            lemma_args(args, 0, Seq::empty(), m, fuel);
            if let Ok(vals) = ra {
                lemma_defined(params, body, vals, m1, fuel);
                lemma_trans(m, m1, eval_defined(params, body, vals, m1, fuel).0);
            }
        },
        _ => {},
    }
}

proof fn lemma_index(t: ExprV, i: ExprV, m: Machine, fuel: nat)
    requires
        m.scopes.len() >= 1,
    ensures
        keeps_outer(m, eval_index(t, i, m, fuel).0),
    decreases fuel, 4nat, 0nat,
{
    let (m1, rt) = eval(t, m, fuel);
    lemma_eval(t, m, fuel);
    if let Ok(Val::List(items)) = rt {
        lemma_eval(i, m1, fuel);
        lemma_trans(m, m1, eval(i, m1, fuel).0);
    }
}

/// A block, such as the body of an `if`, runs in a scope of its own: when it
/// ends, every scope that was there before declares the same names as
/// before, so a name that no scope declared is still undeclared, whatever
/// the block declared.
pub proof fn law_block_scoping(b: Seq<ExprV>, m: Machine, fuel: nat, k: Seq<char>)
    requires
        m.scopes.len() >= 1,
    ensures
        keeps_all(m, eval_scoped(b, m, fuel).0),
        env_get(m.scopes, k) is None ==> env_get(eval_scoped(b, m, fuel).0.scopes, k) is None,
{
    lemma_scoped(b, m, fuel);
    lemma_innermost_same_names(
        m.scopes,
        eval_scoped(b, m, fuel).0.scopes,
        k,
        m.scopes.len() as int,
    );
}

/// A loop runs in a scope of its own: when it ends, however it ends, a name
/// that no scope declared before it is still undeclared.
pub proof fn law_loop_scoping(
    init: Option<Box<ExprV>>,
    test: Option<Box<ExprV>>,
    update: Option<Box<ExprV>>,
    body: Seq<ExprV>,
    m: Machine,
    fuel: nat,
    k: Seq<char>,
)
    requires
        m.scopes.len() >= 1,
    ensures
        keeps_all(m, eval_loop(init, test, update, body, m, fuel).0),
        env_get(m.scopes, k) is None ==> env_get(
            eval_loop(init, test, update, body, m, fuel).0.scopes,
            k,
        ) is None,
{
    lemma_loop(init, test, update, body, m, fuel);
    lemma_innermost_same_names(
        m.scopes,
        eval_loop(init, test, update, body, m, fuel).0.scopes,
        k,
        m.scopes.len() as int,
    );
}

/// Assigning to a name that no scope declares fails with
/// `UndeclaredIdentifier` and changes nothing.
pub proof fn law_assign_undeclared(m: Machine, k: Seq<char>, v: Val)
    requires
        env_get(m.scopes, k) is None,
    ensures
        assign_in(m, k, v) == (m, Err::<Val, ControlFlowValue>(undeclared())),
{
}

} // verus!
