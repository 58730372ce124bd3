//! The environment: a stack of scopes, each mapping identifiers to values.
use vstd::prelude::*;
use crate::value::{signal, Builtin, ControlFlowValue, Exception, Function, Val, Value};

verus! {

/// A scope as a map: a later binding of a name hides an earlier one.
pub open spec fn scope_view(s: Seq<(String, Value)>) -> Map<Seq<char>, Val>
    decreases s.len(),
{
    if s.len() == 0 {
        Map::empty()
    } else {
        scope_view(s.drop_last()).insert(s.last().0@, s.last().1@)
    }
}

/// The innermost of the first `n` scopes that declares `k`.
pub open spec fn innermost_from(scopes: Seq<Map<Seq<char>, Val>>, k: Seq<char>, n: int) -> Option<
    int,
>
    decreases n,
{
    if n <= 0 {
        None
    } else if scopes[n - 1].contains_key(k) {
        Some(n - 1)
    } else {
        innermost_from(scopes, k, n - 1)
    }
}

pub open spec fn innermost(scopes: Seq<Map<Seq<char>, Val>>, k: Seq<char>) -> Option<int> {
    innermost_from(scopes, k, scopes.len() as int)
}

/// The value of `k` in the innermost scope that declares it.
pub open spec fn env_get(scopes: Seq<Map<Seq<char>, Val>>, k: Seq<char>) -> Option<Val> {
    match innermost(scopes, k) {
        Some(i) => Some(scopes[i][k]),
        None => None,
    }
}

/// The scopes after `k` is set to `v` in the innermost scope that declares
/// it; `None` if no scope does.
pub open spec fn env_assign(scopes: Seq<Map<Seq<char>, Val>>, k: Seq<char>, v: Val) -> Option<
    Seq<Map<Seq<char>, Val>>,
> {
    match innermost(scopes, k) {
        Some(i) => Some(scopes.update(i, scopes[i].insert(k, v))),
        None => None,
    }
}

/// The scopes after `k` is bound to `v` in the innermost scope.
pub open spec fn env_declare(scopes: Seq<Map<Seq<char>, Val>>, k: Seq<char>, v: Val) -> Seq<
    Map<Seq<char>, Val>,
> {
    scopes.update(scopes.len() - 1, scopes.last().insert(k, v))
}

/// The global scope: the builtin functions under their names.
pub open spec fn builtin_scope() -> Map<Seq<char>, Val> {
    Map::empty().insert(seq!['p', 'r', 'i', 'n', 't', 'L', 'n'], Val::Builtin(Builtin::PrintLn)).insert(
        seq!['t', 'o', 'S', 't', 'r', 'i', 'n', 'g'],
        Val::Builtin(Builtin::ToString),
    ).insert(seq!['r', 'e', 'a', 'd', 'L', 'n'], Val::Builtin(Builtin::ReadLn)).insert(
        seq!['l', 'e', 'n'],
        Val::Builtin(Builtin::Len),
    )
}

pub struct Environment {
    scopes: Vec<Vec<(String, Value)>>,
}

impl View for Environment {
    type V = Seq<Map<Seq<char>, Val>>;

    closed spec fn view(&self) -> Seq<Map<Seq<char>, Val>> {
        Seq::new(self.scopes@.len(), |i: int| scope_view(self.scopes@[i]@))
    }
}

proof fn lemma_scope_find(s: Seq<(String, Value)>, k: Seq<char>, i: int)
    requires
        0 <= i < s.len(),
        s[i].0@ == k,
        forall|j: int| i < j < s.len() ==> #[trigger] s[j].0@ != k,
    ensures
        scope_view(s).contains_key(k),
        scope_view(s)[k] == s[i].1@,
    decreases s.len(),
{
    if i < s.len() - 1 {
        lemma_scope_find(s.drop_last(), k, i);
    }
}

proof fn lemma_scope_absent(s: Seq<(String, Value)>, k: Seq<char>)
    requires
        forall|j: int| 0 <= j < s.len() ==> #[trigger] s[j].0@ != k,
    ensures
        !scope_view(s).contains_key(k),
    decreases s.len(),
{
    if s.len() > 0 {
        lemma_scope_absent(s.drop_last(), k);
    }
}

proof fn lemma_scope_update(s: Seq<(String, Value)>, k: Seq<char>, i: int, b: (String, Value))
    requires
        0 <= i < s.len(),
        s[i].0@ == k,
        b.0@ == k,
        forall|j: int| i < j < s.len() ==> #[trigger] s[j].0@ != k,
    ensures
        scope_view(s.update(i, b)) == scope_view(s).insert(k, b.1@),
    decreases s.len(),
{
    let t = s.update(i, b);
    if i == s.len() - 1 {
        assert(t.drop_last() =~= s.drop_last());
        assert(scope_view(t) =~= scope_view(s).insert(k, b.1@));
    } else {
        lemma_scope_update(s.drop_last(), k, i, b);
        assert(t.drop_last() =~= s.drop_last().update(i, b));
        assert(scope_view(t) =~= scope_view(s).insert(k, b.1@));
    }
}

/// The index of the last binding of `id` in the scope, if any.
fn find_in_scope(scope: &Vec<(String, Value)>, id: &String) -> (r: Option<usize>)
    ensures
        match r {
            Some(j) => j < scope@.len() && scope@[j as int].0@ == id@ && scope_view(
                scope@,
            ).contains_key(id@) && scope_view(scope@)[id@] == scope@[j as int].1@ && forall|
                m: int,
            |
                j < m < scope@.len() ==> #[trigger] scope@[m].0@ != id@,
            None => !scope_view(scope@).contains_key(id@),
        },
{
    let mut j = scope.len();
    while j > 0
        invariant
            j <= scope@.len(),
            forall|m: int| j <= m < scope@.len() ==> #[trigger] scope@[m].0@ != id@,
        decreases j,
    {
        if scope[j - 1].0 == *id {
            proof {
                lemma_scope_find(scope@, id@, j - 1);
            }
            return Some(j - 1);
        }
        j = j - 1;
    }
    proof {
        lemma_scope_absent(scope@, id@);
    }
    None
}

pub open spec fn opt_view(v: Option<Value>) -> Option<Val> {
    match v {
        Some(x) => Some(x@),
        None => None,
    }
}

impl Environment {
    pub open spec fn wf(&self) -> bool {
        self@.len() >= 1
    }

    /// An environment with one empty scope.
    pub fn new() -> (r: Environment)
        ensures
            r@ == seq![Map::<Seq<char>, Val>::empty()],
    {
        let mut scopes: Vec<Vec<(String, Value)>> = Vec::new();
        scopes.push(Vec::new());
        let r = Environment { scopes };
        assert(r@ =~= seq![Map::<Seq<char>, Val>::empty()]);
        r
    }

    /// Leaves the innermost scope.
    pub fn pop(&mut self)
        requires
            old(self)@.len() > 1,
        ensures
            final(self)@ == old(self)@.drop_last(),
    {
        self.scopes.pop();
        assert(self@ =~= old(self)@.drop_last());
    }

    /// Enters a new, empty scope.
    pub fn push(&mut self)
        ensures
            final(self)@ == old(self)@.push(Map::empty()),
    {
        self.scopes.push(Vec::new());
        assert(self@ =~= old(self)@.push(Map::empty()));
    }

    /// Index of the innermost scope that declares `id`.
    fn find(&self, id: &String) -> (r: Option<(usize, usize)>)
        ensures
            match r {
                Some((i, j)) => innermost(self@, id@) == Some(i as int) && i < self.scopes@.len()
                    && j < self.scopes@[i as int]@.len() && self.scopes@[i as int]@[j as int].0@
                    == id@ && self@[i as int][id@] == self.scopes@[i as int]@[j as int].1@
                    && forall|m: int|
                    j < m < self.scopes@[i as int]@.len() ==> #[trigger] self.scopes@[i as int]@[m].0@
                        != id@,
                None => innermost(self@, id@) is None,
            },
    {
        let mut i = self.scopes.len();
        while i > 0
            invariant
                i <= self.scopes@.len(),
                innermost(self@, id@) == innermost_from(self@, id@, i as int),
            decreases i,
        {
            match find_in_scope(&self.scopes[i - 1], id) {
                Some(j) => {
                    return Some((i - 1, j));
                },
                None => {},
            }
            i = i - 1;
        }
        None
    }

    /// The value of `id` in the innermost scope that declares it.
    pub fn get(&self, id: &String) -> (r: Option<Value>)
        ensures
            opt_view(r) == env_get(self@, id@),
    {
        match self.find(id) {
            Some((i, j)) => Some(self.scopes[i][j].1.copy()),
            None => None,
        }
    }

    /// Like `get`, failing with `UndeclaredIdentifier` where no scope
    /// declares `id`.
    pub fn get_or_undeclared(&self, id: &String) -> (r: Result<Value, ControlFlowValue>)
        ensures
            match env_get(self@, id@) {
                Some(v) => r is Ok && r->Ok_0@ == v,
                None => r == Err::<Value, ControlFlowValue>(
                    signal(Exception::UndeclaredIdentifier),
                ),
            },
    {
        match self.get(id) {
            Some(v) => Ok(v),
            None => Err(ControlFlowValue::Exception(Exception::UndeclaredIdentifier)),
        }
    }

    /// Sets `id` in the innermost scope that declares it.
    pub fn assign(&mut self, id: &String, value: Value) -> (r: Result<(), ControlFlowValue>)
        ensures
            final(self)@.len() == old(self)@.len(),
            match env_assign(old(self)@, id@, value@) {
                Some(s) => r is Ok && final(self)@ == s,
                None => r == Err::<(), ControlFlowValue>(signal(Exception::UndeclaredIdentifier))
                    && final(self)@ == old(self)@,
            },
    {
        match self.find(id) {
            Some((i, j)) => {
                let ghost v = value@;
                let mut scope: Vec<(String, Value)> = Vec::new();
                self.scopes.set_and_swap(i, &mut scope);
                let ghost s = scope@;
                scope.set(j, (id.clone(), value));
                proof {
                    lemma_scope_update(s, id@, j as int, scope@[j as int]);
                }
                self.scopes.set_and_swap(i, &mut scope);
                assert(self@ =~= old(self)@.update(i as int, old(self)@[i as int].insert(id@, v)));
                Ok(())
            },
            None => Err(ControlFlowValue::Exception(Exception::UndeclaredIdentifier)),
        }
    }

    /// Binds `id` in the innermost scope, replacing a binding of it there.
    pub fn declare(&mut self, id: String, value: Value)
        requires
            old(self)@.len() >= 1,
        ensures
            final(self)@ == env_declare(old(self)@, id@, value@),
            final(self)@.len() == old(self)@.len(),
    {
        let last = self.scopes.len() - 1;
        let ghost v = value@;
        let ghost k = id@;
        let mut scope: Vec<(String, Value)> = Vec::new();
        self.scopes.set_and_swap(last, &mut scope);
        let ghost s = scope@;
        match find_in_scope(&scope, &id) {
            Some(j) => {
                scope.set(j, (id, value));
                proof {
                    lemma_scope_update(s, k, j as int, scope@[j as int]);
                }
            },
            None => {
                scope.push((id, value));
                assert(scope@.drop_last() =~= s);
            },
        }
        self.scopes.set_and_swap(last, &mut scope);
        assert(self@ =~= env_declare(old(self)@, k, v));
    }

    fn declare_builtin(&mut self, id: String, function: Builtin)
        requires
            old(self)@.len() >= 1,
        ensures
            final(self)@ == env_declare(old(self)@, id@, Val::Builtin(function)),
    {
        self.declare(id, Value::Function(Function::Builtin(function)));
    }

    /// An environment whose one scope holds the builtin functions.
    pub fn with_builtins() -> (r: Environment)
        ensures
            r@ == seq![builtin_scope()],
    {
        let mut env = Environment::new();
        env.declare_builtin(name_of(&['p', 'r', 'i', 'n', 't', 'L', 'n']), Builtin::PrintLn);
        env.declare_builtin(name_of(&['t', 'o', 'S', 't', 'r', 'i', 'n', 'g']), Builtin::ToString);
        env.declare_builtin(name_of(&['r', 'e', 'a', 'd', 'L', 'n']), Builtin::ReadLn);
        env.declare_builtin(name_of(&['l', 'e', 'n']), Builtin::Len);
        assert(env@ =~= seq![builtin_scope()]);
        env
    }
}

/// A `String` of the given characters.
fn name_of(cs: &[char]) -> (r: String)
    ensures
        r@ == cs@,
{
    let mut s = String::new();
    let mut i: usize = 0;
    while i < cs.len()
        invariant
            i <= cs@.len(),
            s@ == cs@.subrange(0, i as int),
        decreases cs@.len() - i,
    {
        crate::text::push_char(&mut s, cs[i]);
        i = i + 1;
        assert(s@ =~= cs@.subrange(0, i as int));
    }
    s
}

impl Default for Environment {
    fn default() -> (r: Environment)
        ensures
            r@ == seq![builtin_scope()],
    {
        Environment::with_builtins()
    }
}

} // verus!
