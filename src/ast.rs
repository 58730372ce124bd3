//! The syntax tree, and its mathematical view (`ExprV`) that the
//! evaluation rules are stated over.
use vstd::prelude::*;
use crate::lexer::Region;

verus! {

#[derive(Debug, Clone, Copy, PartialEq, Eq, Structural)]
pub enum Operator {
    Plus,
    Minus,
    Multiply,
    Divide,
    Modulus,
    Exponentiation,
    IsLessThan,
    IsLessThanOrEqual,
    IsGreaterThan,
    IsGreaterThanOrEqual,
    IsEqual,
    IsNotEqual,
    And,
    Or,
}

#[derive(Debug, Clone, Copy, PartialEq, Eq, Structural)]
pub enum AssignmentOperator {
    Replace,
    Plus,
    Minus,
    Multiply,
    Divide,
    Modulo,
}

#[derive(Debug, Clone, Copy, PartialEq, Eq, Structural)]
pub enum UpdateOperator {
    Increment,
    Decrement,
}

pub type Block = Vec<Expression>;

#[derive(Debug)]
pub struct DefinedFunction {
    pub parameters: Vec<String>,
    pub body: Block,
}

#[derive(Debug)]
pub struct IfClause {
    pub test: Box<Expression>,
    pub body: Block,
}

#[derive(Debug)]
pub enum ExpressionValue {
    Int(i64),
    String(String),
    Bool(bool),
    Null,
    Block(Block),
    Identifier(String),
    Binary { left: Box<Expression>, operator: Operator, right: Box<Expression> },
    Update { identifier: String, operator: UpdateOperator },
    VariableDeclaration { identifier: String, expression: Box<Expression> },
    Assign { identifier: String, operator: AssignmentOperator, expression: Box<Expression> },
    Function(DefinedFunction),
    Call { identifier: String, arguments: Vec<Expression> },
    List(Vec<Expression>),
    Index { expression: Box<Expression>, index: Box<Expression> },
    If { clauses: Vec<IfClause>, else_block: Option<Block> },
    Loop {
        init: Option<Box<Expression>>,
        test: Option<Box<Expression>>,
        update: Option<Box<Expression>>,
        body: Block,
    },
    Continue,
    Break,
}

/// The kind of an expression, named in parser errors.
#[derive(Debug, Clone, Copy, PartialEq, Eq, Structural)]
pub enum ExpressionKind {
    Int,
    String,
    Bool,
    Null,
    Block,
    Identifier,
    Binary,
    Update,
    VariableDeclaration,
    Assign,
    Function,
    Call,
    List,
    Index,
    If,
    Loop,
    Continue,
    Break,
}

#[derive(Debug)]
pub struct Expression {
    pub region: Region,
    pub value: ExpressionValue,
}

#[derive(Debug)]
pub struct Program {
    pub ast: Vec<Expression>,
}

/// An expression as a mathematical tree, without source regions.
pub enum ExprV {
    Int(i64),
    Str(Seq<char>),
    Bool(bool),
    Null,
    Block(Seq<ExprV>),
    Identifier(Seq<char>),
    Binary(Box<ExprV>, Operator, Box<ExprV>),
    Update(Seq<char>, UpdateOperator),
    Declare(Seq<char>, Box<ExprV>),
    Assign(Seq<char>, AssignmentOperator, Box<ExprV>),
    Function(Seq<Seq<char>>, Seq<ExprV>),
    Call(Seq<char>, Seq<ExprV>),
    List(Seq<ExprV>),
    Index(Box<ExprV>, Box<ExprV>),
    If(Seq<(ExprV, Seq<ExprV>)>, Option<Seq<ExprV>>),
    Loop(Option<Box<ExprV>>, Option<Box<ExprV>>, Option<Box<ExprV>>, Seq<ExprV>),
    Continue,
    Break,
}

pub open spec fn names_view(names: Seq<String>) -> Seq<Seq<char>> {
    names.map_values(|s: String| s@)
}

pub open spec fn opt_view(e: Option<Box<Expression>>) -> Option<Box<ExprV>>
    decreases e,
{
    match e {
        Some(b) => Some(Box::new(expr_view(*b))),
        None => None,
    }
}

pub open spec fn block_view(b: Seq<Expression>) -> Seq<ExprV>
    decreases b,
{
    Seq::new(b.len(), |i: int| if 0 <= i < b.len() { expr_view(b[i]) } else { ExprV::Null })
}

pub open spec fn clauses_view(c: Seq<IfClause>) -> Seq<(ExprV, Seq<ExprV>)>
    decreases c,
{
    Seq::new(
        c.len(),
        |i: int|
            if 0 <= i < c.len() {
                (expr_view(*c[i].test), block_view(c[i].body@))
            } else {
                (ExprV::Null, Seq::empty())
            },
    )
}

pub open spec fn expr_view(e: Expression) -> ExprV
    decreases e,
{
    match e.value {
        ExpressionValue::Int(n) => ExprV::Int(n),
        ExpressionValue::String(s) => ExprV::Str(s@),
        ExpressionValue::Bool(b) => ExprV::Bool(b),
        ExpressionValue::Null => ExprV::Null,
        ExpressionValue::Block(b) => ExprV::Block(block_view(b@)),
        ExpressionValue::Identifier(s) => ExprV::Identifier(s@),
        ExpressionValue::Binary { left, operator, right } => ExprV::Binary(
            Box::new(expr_view(*left)),
            operator,
            Box::new(expr_view(*right)),
        ),
        ExpressionValue::Update { identifier, operator } => ExprV::Update(identifier@, operator),
        ExpressionValue::VariableDeclaration { identifier, expression } => ExprV::Declare(
            identifier@,
            Box::new(expr_view(*expression)),
        ),
        ExpressionValue::Assign { identifier, operator, expression } => ExprV::Assign(
            identifier@,
            operator,
            Box::new(expr_view(*expression)),
        ),
        ExpressionValue::Function(f) => ExprV::Function(
            names_view(f.parameters@),
            block_view(f.body@),
        ),
        ExpressionValue::Call { identifier, arguments } => ExprV::Call(
            identifier@,
            block_view(arguments@),
        ),
        ExpressionValue::List(items) => ExprV::List(block_view(items@)),
        ExpressionValue::Index { expression, index } => ExprV::Index(
            Box::new(expr_view(*expression)),
            Box::new(expr_view(*index)),
        ),
        ExpressionValue::If { clauses, else_block } => ExprV::If(
            clauses_view(clauses@),
            match else_block {
                Some(b) => Some(block_view(b@)),
                None => None,
            },
        ),
        ExpressionValue::Loop { init, test, update, body } => ExprV::Loop(
            opt_view(init),
            opt_view(test),
            opt_view(update),
            block_view(body@),
        ),
        ExpressionValue::Continue => ExprV::Continue,
        ExpressionValue::Break => ExprV::Break,
    }
}

impl View for Expression {
    type V = ExprV;

    open spec fn view(&self) -> ExprV {
        expr_view(*self)
    }
}


pub fn copy_names(names: &Vec<String>) -> (r: Vec<String>)
    ensures
        names_view(r@) == names_view(names@),
{
    let mut r: Vec<String> = Vec::new();
    let mut i: usize = 0;
    while i < names.len()
        invariant
            i <= names@.len(),
            r@.len() == i,
            forall|j: int| 0 <= j < i ==> r@[j]@ == names@[j]@,
        decreases names@.len() - i,
    {
        r.push(names[i].clone());
        i = i + 1;
    }
    assert(names_view(r@) =~= names_view(names@));
    r
}

pub fn copy_block(b: &Vec<Expression>) -> (r: Vec<Expression>)
    ensures
        block_view(r@) == block_view(b@),
    decreases b,
{
    let mut r: Vec<Expression> = Vec::new();
    let mut i: usize = 0;
    while i < b.len()
        invariant
            i <= b@.len(),
            r@.len() == i,
            forall|j: int| 0 <= j < i ==> expr_view(r@[j]) == expr_view(b@[j]),
        decreases b@.len() - i,
    {
        proof {
            assert(decreases_to!(b => b@[i as int]));
        }
        let e = b[i].copy();
        r.push(e);
        i = i + 1;
    }
    assert(block_view(r@) =~= block_view(b@));
    r
}

fn copy_clauses(c: &Vec<IfClause>) -> (r: Vec<IfClause>)
    ensures
        clauses_view(r@) == clauses_view(c@),
    decreases c,
{
    let mut r: Vec<IfClause> = Vec::new();
    let mut i: usize = 0;
    while i < c.len()
        invariant
            i <= c@.len(),
            r@.len() == i,
            forall|j: int|
                0 <= j < i ==> expr_view(*r@[j].test) == expr_view(*c@[j].test) && block_view(
                    r@[j].body@,
                ) == block_view(c@[j].body@),
        decreases c@.len() - i,
    {
        proof {
            assert(decreases_to!(c => c@[i as int]));
        }
        let test = c[i].test.copy();
        let body = copy_block(&c[i].body);
        r.push(IfClause { test: Box::new(test), body });
        i = i + 1;
    }
    assert(clauses_view(r@) =~= clauses_view(c@));
    r
}

fn copy_opt(e: &Option<Box<Expression>>) -> (r: Option<Box<Expression>>)
    ensures
        opt_view(r) == opt_view(*e),
    decreases e,
{
    match e {
        Some(b) => Some(Box::new(b.copy())),
        None => None,
    }
}

impl DefinedFunction {
    pub fn copy(&self) -> (r: DefinedFunction)
        ensures
            names_view(r.parameters@) == names_view(self.parameters@),
            block_view(r.body@) == block_view(self.body@),
    {
        DefinedFunction { parameters: copy_names(&self.parameters), body: copy_block(&self.body) }
    }
}

impl Expression {
    /// An independent copy of the expression, with the same tree.
    pub fn copy(&self) -> (r: Expression)
        ensures
            r@ == self@,
        decreases self,
    {
        let value = match &self.value {
            ExpressionValue::Int(n) => ExpressionValue::Int(*n),
            ExpressionValue::String(s) => ExpressionValue::String(s.clone()),
            ExpressionValue::Bool(b) => ExpressionValue::Bool(*b),
            ExpressionValue::Null => ExpressionValue::Null,
            ExpressionValue::Block(b) => ExpressionValue::Block(copy_block(b)),
            ExpressionValue::Identifier(s) => ExpressionValue::Identifier(s.clone()),
            ExpressionValue::Binary { left, operator, right } => ExpressionValue::Binary {
                left: Box::new(left.copy()),
                operator: *operator,
                right: Box::new(right.copy()),
            },
            ExpressionValue::Update { identifier, operator } => ExpressionValue::Update {
                identifier: identifier.clone(),
                operator: *operator,
            },
            ExpressionValue::VariableDeclaration { identifier, expression } =>
                ExpressionValue::VariableDeclaration {
                identifier: identifier.clone(),
                expression: Box::new(expression.copy()),
            },
            ExpressionValue::Assign { identifier, operator, expression } =>
                ExpressionValue::Assign {
                identifier: identifier.clone(),
                operator: *operator,
                expression: Box::new(expression.copy()),
            },
            ExpressionValue::Function(f) => ExpressionValue::Function(
                DefinedFunction { parameters: copy_names(&f.parameters), body: copy_block(&f.body) },
            ),
            ExpressionValue::Call { identifier, arguments } => ExpressionValue::Call {
                identifier: identifier.clone(),
                arguments: copy_block(arguments),
            },
            ExpressionValue::List(items) => ExpressionValue::List(copy_block(items)),
            ExpressionValue::Index { expression, index } => ExpressionValue::Index {
                expression: Box::new(expression.copy()),
                index: Box::new(index.copy()),
            },
            ExpressionValue::If { clauses, else_block } => ExpressionValue::If {
                clauses: copy_clauses(clauses),
                else_block: match else_block {
                    Some(b) => Some(copy_block(b)),
                    None => None,
                },
            },
            ExpressionValue::Loop { init, test, update, body } => ExpressionValue::Loop {
                init: copy_opt(init),
                test: copy_opt(test),
                update: copy_opt(update),
                body: copy_block(body),
            },
            ExpressionValue::Continue => ExpressionValue::Continue,
            ExpressionValue::Break => ExpressionValue::Break,
        };
        Expression { region: self.region, value }
    }
}

} // verus!
