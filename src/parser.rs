//! The parser: tokens to a syntax tree, by recursive descent with one
//! level of functions per operator precedence.
use vstd::prelude::*;
pub use crate::ast::{
    AssignmentOperator, Block, DefinedFunction, ExprV, Expression, ExpressionKind,
    ExpressionValue, IfClause, Operator, Program, UpdateOperator,
};
use crate::lexer::{lex, tokens_view, Lexer, LexerError, Region, TokV, Token, TokenKind, TokenValue};

verus! {

#[derive(Debug)]
pub enum ParserError {
    ExpectedToken { while_parsing: ExpressionKind, expected: TokenKind, found: Token },
    UnexpectedToken { while_parsing: Option<ExpressionKind>, found: Token },
}

/// A parser error as a mathematical object.
pub enum ParseErrV {
    Expected(ExpressionKind, TokenKind, TokV),
    Unexpected(Option<ExpressionKind>, TokV),
}

pub open spec fn parse_error_view(e: ParserError) -> ParseErrV {
    match e {
        ParserError::ExpectedToken { while_parsing, expected, found } => ParseErrV::Expected(
            while_parsing,
            expected,
            found@,
        ),
        ParserError::UnexpectedToken { while_parsing, found } => ParseErrV::Unexpected(
            while_parsing,
            found@,
        ),
    }
}

impl View for ParserError {
    type V = ParseErrV;

    open spec fn view(&self) -> ParseErrV {
        parse_error_view(*self)
    }
}

pub type Parsed<T> = Result<(T, int), ParseErrV>;

// ---------------------------------------------------------------------------
// The grammar, over token views. Each rule takes the index of its first
// token and gives what it parsed with the index after it.
//
// A rule that goes on after a part it parsed first checks that the part
// consumed tokens; every part does, so these checks never fail.

pub open spec fn stuck(toks: Seq<TokV>, t: int) -> ParseErrV {
    ParseErrV::Unexpected(None, toks[t])
}

/// The binary operator of a precedence level that a token kind stands for.
/// Level 5 binds loosest, level 1 tightest.
pub open spec fn operator_at(level: nat, k: TokenKind) -> Option<Operator> {
    if level == 5 {
        if k == TokenKind::And {
            Some(Operator::And)
        } else if k == TokenKind::Or {
            Some(Operator::Or)
        } else {
            None
        }
    } else if level == 4 {
        if k == TokenKind::IsEqual {
            Some(Operator::IsEqual)
        } else if k == TokenKind::IsNotEqual {
            Some(Operator::IsNotEqual)
        } else if k == TokenKind::IsGreaterThan {
            Some(Operator::IsGreaterThan)
        } else if k == TokenKind::IsGreaterThanOrEqual {
            Some(Operator::IsGreaterThanOrEqual)
        } else if k == TokenKind::IsLessThan {
            Some(Operator::IsLessThan)
        } else if k == TokenKind::IsLessThanOrEqual {
            Some(Operator::IsLessThanOrEqual)
        } else {
            None
        }
    } else if level == 3 {
        if k == TokenKind::PlusSign {
            Some(Operator::Plus)
        } else if k == TokenKind::MinusSign {
            Some(Operator::Minus)
        } else {
            None
        }
    } else if level == 2 {
        if k == TokenKind::MultiplicationSign {
            Some(Operator::Multiply)
        } else if k == TokenKind::DivisionSign {
            Some(Operator::Divide)
        } else if k == TokenKind::ModuloSign {
            Some(Operator::Modulus)
        } else {
            None
        }
    } else if level == 1 {
        if k == TokenKind::ExponentSign {
            Some(Operator::Exponentiation)
        } else {
            None
        }
    } else {
        None
    }
}

/// An expression: the loosest precedence level.
pub open spec fn p_expr(toks: Seq<TokV>, t: int) -> Parsed<ExprV>
    decreases toks.len() - t, 7nat, 0nat,
{
    p_level(toks, t, 5)
}

/// Operands of the given level joined by its operators, left-associative.
pub open spec fn p_level(toks: Seq<TokV>, t: int, level: nat) -> Parsed<ExprV>
    decreases toks.len() - t, level + 1, 0nat,
{
    if level == 0 {
        p_primary(toks, t)
    } else {
        match p_level(toks, t, (level - 1) as nat) {
            Err(e) => Err(e),
            Ok((left, t1)) => if t < t1 <= toks.len() {
                p_rest(toks, t1, level, left)
            } else {
                Err(stuck(toks, t))
            },
        }
    }
}

/// Continues a level after its left operand `left`, at index `t`.
pub open spec fn p_rest(toks: Seq<TokV>, t: int, level: nat, left: ExprV) -> Parsed<ExprV>
    decreases toks.len() - t, level + 1, 1nat,
{
    if t < 0 || t >= toks.len() || level == 0 {
        Ok((left, t))
    } else {
        match operator_at(level, toks[t].kind) {
            None => Ok((left, t)),
            Some(op) => match p_level(toks, t + 1, (level - 1) as nat) {
                Err(e) => Err(e),
                Ok((right, t2)) => if t < t2 <= toks.len() {
                    p_rest(toks, t2, level, ExprV::Binary(Box::new(left), op, Box::new(right)))
                } else {
                    Err(stuck(toks, t))
                },
            },
        }
    }
}

/// Expressions up to a closing token of the given kind, which is consumed.
pub open spec fn p_items(toks: Seq<TokV>, t: int, close: TokenKind, acc: Seq<ExprV>) -> Parsed<
    Seq<ExprV>,
>
    decreases toks.len() - t, 8nat, 0nat,
{
    if t < 0 || t >= toks.len() {
        Err(stuck(toks, t))
    } else if toks[t].kind == close {
        Ok((acc, t + 1))
    } else {
        match p_expr(toks, t) {
            Err(e) => Err(e),
            Ok((e, t1)) => if t < t1 <= toks.len() {
                p_items(toks, t1, close, acc.push(e))
            } else {
                Err(stuck(toks, t))
            },
        }
    }
}

/// A block: expressions between braces.
pub open spec fn p_block(toks: Seq<TokV>, t: int) -> Parsed<Seq<ExprV>>
    decreases toks.len() - t, 9nat, 0nat,
{
    if 0 <= t < toks.len() && toks[t].kind == TokenKind::OpenBrace {
        p_items(toks, t + 1, TokenKind::CloseBrace, Seq::empty())
    } else {
        Err(ParseErrV::Expected(ExpressionKind::Block, TokenKind::OpenBrace, toks[t]))
    }
}

/// Parameter names up to the closing parenthesis, which is consumed.
pub open spec fn p_params(toks: Seq<TokV>, t: int, acc: Seq<Seq<char>>) -> Parsed<
    Seq<Seq<char>>,
>
    decreases toks.len() - t,
{
    if t < 0 || t >= toks.len() {
        Err(stuck(toks, t))
    } else if toks[t].kind == TokenKind::CloseParenthesis {
        Ok((acc, t + 1))
    } else if toks[t].kind == TokenKind::Identifier {
        p_params(toks, t + 1, acc.push(toks[t].text))
    } else {
        Err(ParseErrV::Unexpected(Some(ExpressionKind::Function), toks[t]))
    }
}

/// `fun ( parameters ) block`, from the token after `fun`.
pub open spec fn p_function(toks: Seq<TokV>, t: int) -> Parsed<ExprV>
    decreases toks.len() - t, 10nat, 0nat,
{
    if 0 <= t < toks.len() && toks[t].kind == TokenKind::OpenParenthesis {
        match p_params(toks, t + 1, Seq::empty()) {
            Err(e) => Err(e),
            Ok((params, t1)) => if t < t1 <= toks.len() {
                match p_block(toks, t1) {
                    Err(e) => Err(e),
                    Ok((body, t2)) => Ok((ExprV::Function(params, body), t2)),
                }
            } else {
                Err(stuck(toks, t))
            },
        }
    } else {
        Err(ParseErrV::Expected(ExpressionKind::Function, TokenKind::OpenParenthesis, toks[t]))
    }
}

/// A test and a block: one clause of an `if`.
pub open spec fn p_clause(toks: Seq<TokV>, t: int) -> Parsed<(ExprV, Seq<ExprV>)>
    decreases toks.len() - t, 10nat, 0nat,
{
    match p_expr(toks, t) {
        Err(e) => Err(e),
        Ok((test, t1)) => if t < t1 <= toks.len() {
            match p_block(toks, t1) {
                Err(e) => Err(e),
                Ok((body, t2)) => Ok(((test, body), t2)),
            }
        } else {
            Err(stuck(toks, t))
        },
    }
}

/// The `elif` clauses and the optional `else` block after the clauses `acc`.
pub open spec fn p_if_rest(toks: Seq<TokV>, t: int, acc: Seq<(ExprV, Seq<ExprV>)>) -> Parsed<
    ExprV,
>
    decreases toks.len() - t, 11nat, 0nat,
{
    if 0 <= t < toks.len() && toks[t].kind == TokenKind::KeywordElif {
        match p_clause(toks, t + 1) {
            Err(e) => Err(e),
            Ok((c, t1)) => if t < t1 <= toks.len() {
                p_if_rest(toks, t1, acc.push(c))
            } else {
                Err(stuck(toks, t))
            },
        }
    } else if 0 <= t < toks.len() && toks[t].kind == TokenKind::KeywordElse {
        match p_block(toks, t + 1) {
            Err(e) => Err(e),
            Ok((b, t1)) => Ok((ExprV::If(acc, Some(b)), t1)),
        }
    } else {
        Ok((ExprV::If(acc, None), t))
    }
}

/// `var name = expression`, from the token after `var`.
pub open spec fn p_declaration(toks: Seq<TokV>, t: int) -> Parsed<ExprV>
    decreases toks.len() - t, 10nat, 0nat,
{
    if !(0 <= t < toks.len() && toks[t].kind == TokenKind::Identifier) {
        Err(
            ParseErrV::Expected(
                ExpressionKind::VariableDeclaration,
                TokenKind::Identifier,
                toks[t],
            ),
        )
    } else if !(t + 1 < toks.len() && toks[t + 1].kind == TokenKind::EqualSign) {
        Err(
            ParseErrV::Expected(
                ExpressionKind::VariableDeclaration,
                TokenKind::EqualSign,
                toks[t + 1],
            ),
        )
    } else {
        match p_expr(toks, t + 2) {
            Err(e) => Err(e),
            Ok((x, t1)) => Ok((ExprV::Declare(toks[t].text, Box::new(x)), t1)),
        }
    }
}

/// `for init test update block`, from the token after `for`.
pub open spec fn p_for(toks: Seq<TokV>, t: int) -> Parsed<ExprV>
    decreases toks.len() - t, 10nat, 0nat,
{
    match p_expr(toks, t) {
        Err(e) => Err(e),
        Ok((init, t1)) => if t < t1 <= toks.len() {
            match p_expr(toks, t1) {
                Err(e) => Err(e),
                Ok((test, t2)) => if t1 < t2 <= toks.len() {
                    match p_expr(toks, t2) {
                        Err(e) => Err(e),
                        Ok((update, t3)) => if t2 < t3 <= toks.len() {
                            match p_block(toks, t3) {
                                Err(e) => Err(e),
                                Ok((body, t4)) => Ok(
                                    (
                                        ExprV::Loop(
                                            Some(Box::new(init)),
                                            Some(Box::new(test)),
                                            Some(Box::new(update)),
                                            body,
                                        ),
                                        t4,
                                    ),
                                ),
                            }
                        } else {
                            Err(stuck(toks, t))
                        },
                    }
                } else {
                    Err(stuck(toks, t))
                },
            }
        } else {
            Err(stuck(toks, t))
        },
    }
}

/// A primary expression: a literal, a name, a call, an assignment, a
/// group in parentheses or braces, or a form that starts with a keyword.
pub open spec fn p_primary(toks: Seq<TokV>, t: int) -> Parsed<ExprV>
    decreases toks.len() - t, 0nat, 0nat,
{
    if t < 0 || t >= toks.len() {
        Err(stuck(toks, t))
    } else {
        let tok = toks[t];
        let k = tok.kind;
        if k == TokenKind::Int {
            Ok((ExprV::Int(tok.int), t + 1))
        } else if k == TokenKind::String {
            Ok((ExprV::Str(tok.text), t + 1))
        } else if k == TokenKind::Identifier {
            if t + 1 < toks.len() && toks[t + 1].kind == TokenKind::OpenParenthesis {
                match p_items(toks, t + 2, TokenKind::CloseParenthesis, Seq::empty()) {
                    Err(e) => Err(e),
                    Ok((args, t1)) => Ok((ExprV::Call(tok.text, args), t1)),
                }
            } else if t + 1 < toks.len() && toks[t + 1].kind == TokenKind::EqualSign {
                match p_expr(toks, t + 2) {
                    Err(e) => Err(e),
                    Ok((x, t1)) => Ok(
                        (ExprV::Assign(tok.text, AssignmentOperator::Replace, Box::new(x)), t1),
                    ),
                }
            } else {
                Ok((ExprV::Identifier(tok.text), t + 1))
            }
        } else if k == TokenKind::OpenParenthesis {
            match p_expr(toks, t + 1) {
                Err(e) => Err(e),
                Ok((x, t1)) => if 0 <= t1 < toks.len() && toks[t1].kind
                    == TokenKind::CloseParenthesis {
                    Ok((x, t1 + 1))
                } else {
                    Err(
                        ParseErrV::Expected(
                            ExpressionKind::Binary,
                            TokenKind::CloseParenthesis,
                            toks[t1],
                        ),
                    )
                },
            }
        } else if k == TokenKind::KeywordNull {
            Ok((ExprV::Null, t + 1))
        } else if k == TokenKind::KeywordTrue {
            Ok((ExprV::Bool(true), t + 1))
        } else if k == TokenKind::KeywordFalse {
            Ok((ExprV::Bool(false), t + 1))
        } else if k == TokenKind::OpenBrace {
            match p_items(toks, t + 1, TokenKind::CloseBrace, Seq::empty()) {
                Err(e) => Err(e),
                Ok((b, t1)) => Ok((ExprV::Block(b), t1)),
            }
        } else if k == TokenKind::KeywordVar {
            p_declaration(toks, t + 1)
        } else if k == TokenKind::KeywordFun {
            p_function(toks, t + 1)
        } else if k == TokenKind::KeywordIf {
            match p_clause(toks, t + 1) {
                Err(e) => Err(e),
                Ok((c, t1)) => if t < t1 <= toks.len() {
                    p_if_rest(toks, t1, seq![c])
                } else {
                    Err(stuck(toks, t))
                },
            }
        } else if k == TokenKind::KeywordWhile {
            match p_clause(toks, t + 1) {
                Err(e) => Err(e),
                Ok(((test, body), t1)) => Ok((ExprV::Loop(None, Some(Box::new(test)), None, body), t1)),
            }
        } else if k == TokenKind::KeywordFor {
            p_for(toks, t + 1)
        } else if k == TokenKind::KeywordLoop {
            match p_block(toks, t + 1) {
                Err(e) => Err(e),
                Ok((body, t1)) => Ok((ExprV::Loop(None, None, None, body), t1)),
            }
        } else if k == TokenKind::KeywordContinue {
            Ok((ExprV::Continue, t + 1))
        } else if k == TokenKind::KeywordBreak {
            Ok((ExprV::Break, t + 1))
        } else {
            Err(ParseErrV::Unexpected(None, tok))
        }
    }
}

/// The expressions of a program, up to the end-of-file token.
pub open spec fn p_program(toks: Seq<TokV>, t: int, acc: Seq<ExprV>) -> Result<
    Seq<ExprV>,
    ParseErrV,
>
    decreases toks.len() - t,
{
    if t < 0 || t >= toks.len() || toks[t].kind == TokenKind::EndOfFile {
        Ok(acc)
    } else {
        match p_expr(toks, t) {
            Err(e) => Err(e),
            Ok((e, t1)) => if t < t1 <= toks.len() {
                p_program(toks, t1, acc.push(e))
            } else {
                Err(stuck(toks, t))
            },
        }
    }
}

/// The syntax tree of a token sequence.
pub open spec fn parse_tokens(toks: Seq<TokV>) -> Result<Seq<ExprV>, ParseErrV> {
    p_program(toks, 0, Seq::empty())
}

pub struct Parser {
    tokens: Vec<Token>,
    t: usize,
}

impl Token {
    /// An independent copy of the token.
    pub fn copy(&self) -> (r: Token)
        ensures
            r@ == self@,
    {
        let value = match &self.value {
            TokenValue::Identifier(s) => TokenValue::Identifier(s.clone()),
            TokenValue::String(s) => TokenValue::String(s.clone()),
            TokenValue::Int(n) => TokenValue::Int(*n),
            v => TokenValue::from_kind(v.kind()),
        };
        Token { value, region: self.region }
    }
}

pub open spec fn expr_result(r: Result<Expression, ParserError>, t: usize) -> Parsed<ExprV> {
    match r {
        Ok(e) => Ok((e@, t as int)),
        Err(x) => Err(x@),
    }
}

pub open spec fn block_result(r: Result<Block, ParserError>, t: usize) -> Parsed<Seq<ExprV>> {
    match r {
        Ok(b) => Ok((crate::ast::block_view(b@), t as int)),
        Err(x) => Err(x@),
    }
}

/// A token sequence that ends with its only end-of-file token.
pub open spec fn well_ended(toks: Seq<TokV>) -> bool {
    toks.len() >= 1 && toks[toks.len() - 1].kind == TokenKind::EndOfFile
}

impl Parser {
    pub closed spec fn toks(&self) -> Seq<TokV> {
        tokens_view(self.tokens@)
    }

    pub closed spec fn pos(&self) -> int {
        self.t as int
    }

    pub closed spec fn wf(&self) -> bool {
        well_ended(tokens_view(self.tokens@)) && self.t < self.tokens@.len()
    }

    fn current(&self) -> (r: &Token)
        requires
            self.wf(),
        ensures
            r@ == self.toks()[self.t as int],
    {
        &self.tokens[self.t]
    }

    fn current_val(&self) -> (r: &TokenValue)
        requires
            self.wf(),
        ensures
            crate::lexer::token_value_view(*r) == crate::lexer::token_value_view(
                self.tokens@[self.t as int].value,
            ),
    {
        &self.tokens[self.t].value
    }

    fn current_kind(&self) -> (r: TokenKind)
        requires
            self.wf(),
        ensures
            r == self.toks()[self.t as int].kind,
    {
        self.tokens[self.t].value.kind()
    }

    fn previous(&self) -> (r: &Token)
        requires
            self.wf(),
            self.t >= 1,
    {
        &self.tokens[self.t - 1]
    }

    /// Moves past the current token, which is not the end of the file.
    fn advance(&mut self)
        requires
            old(self).wf(),
            old(self).toks()[old(self).t as int].kind != TokenKind::EndOfFile,
        ensures
            final(self).wf(),
            final(self).tokens == old(self).tokens,
            final(self).t == old(self).t + 1,
    {
        let n = self.tokens.len();
        assert(self.t + 1 < n);
        self.t = self.t + 1;
    }

    fn expect_token_err(&self, while_parsing: ExpressionKind, value: TokenKind) -> (r: ParserError)
        requires
            self.wf(),
        ensures
            r@ == ParseErrV::Expected(while_parsing, value, self.toks()[self.t as int]),
    {
        ParserError::ExpectedToken { while_parsing, expected: value, found: self.current().copy() }
    }

    fn unexpected(&self, while_parsing: Option<ExpressionKind>) -> (r: ParserError)
        requires
            self.wf(),
        ensures
            r@ == ParseErrV::Unexpected(while_parsing, self.toks()[self.t as int]),
    {
        ParserError::UnexpectedToken { while_parsing, found: self.current().copy() }
    }

    fn operator_at(&self, level: u8) -> (r: Option<Operator>)
        requires
            self.wf(),
        ensures
            r == operator_at(level as nat, self.toks()[self.t as int].kind),
    {
        let k = self.current_kind();
        if level == 5 {
            if k == TokenKind::And {
                Some(Operator::And)
            } else if k == TokenKind::Or {
                Some(Operator::Or)
            } else {
                None
            }
        } else if level == 4 {
            if k == TokenKind::IsEqual {
                Some(Operator::IsEqual)
            } else if k == TokenKind::IsNotEqual {
                Some(Operator::IsNotEqual)
            } else if k == TokenKind::IsGreaterThan {
                Some(Operator::IsGreaterThan)
            } else if k == TokenKind::IsGreaterThanOrEqual {
                Some(Operator::IsGreaterThanOrEqual)
            } else if k == TokenKind::IsLessThan {
                Some(Operator::IsLessThan)
            } else if k == TokenKind::IsLessThanOrEqual {
                Some(Operator::IsLessThanOrEqual)
            } else {
                None
            }
        } else if level == 3 {
            if k == TokenKind::PlusSign {
                Some(Operator::Plus)
            } else if k == TokenKind::MinusSign {
                Some(Operator::Minus)
            } else {
                None
            }
        } else if level == 2 {
            if k == TokenKind::MultiplicationSign {
                Some(Operator::Multiply)
            } else if k == TokenKind::DivisionSign {
                Some(Operator::Divide)
            } else if k == TokenKind::ModuloSign {
                Some(Operator::Modulus)
            } else {
                None
            }
        } else if level == 1 {
            if k == TokenKind::ExponentSign {
                Some(Operator::Exponentiation)
            } else {
                None
            }
        } else {
            None
        }
    }

    fn parse_expression(&mut self) -> (r: Result<Expression, ParserError>)
        requires
            old(self).wf(),
        ensures
            final(self).wf(),
            final(self).tokens == old(self).tokens,
            expr_result(r, final(self).t) == p_expr(old(self).toks(), old(self).t as int),
            r is Ok ==> final(self).t > old(self).t,
        decreases old(self).tokens@.len() - old(self).t, 9int, 0int,
    {
        self.parse_binary(5)
    }

    /// Operands of a precedence level joined by its operators; level 0 is a
    /// primary expression.
    fn parse_binary(&mut self, level: u8) -> (r: Result<Expression, ParserError>)
        requires
            old(self).wf(),
            level <= 5,
        ensures
            final(self).wf(),
            final(self).tokens == old(self).tokens,
            expr_result(r, final(self).t) == p_level(
                old(self).toks(),
                old(self).t as int,
                level as nat,
            ),
            r is Ok ==> final(self).t > old(self).t,
        decreases old(self).tokens@.len() - old(self).t, level + 3, 0int,
    {
        if level == 0 {
            return self.parse_primary();
        }
        let ghost toks = self.toks();
        let ghost t0 = self.t as int;
        let mut left = match self.parse_binary(level - 1) {
            Ok(e) => e,
            Err(e) => return Err(e),
        };
        loop
            invariant
                self.wf(),
                self.tokens == old(self).tokens,
                toks == self.toks(),
                t0 == old(self).t,
                1 <= level <= 5,
                self.t > t0,
                p_level(toks, t0, level as nat) == p_rest(toks, self.t as int, level as nat, left@),
            decreases self.tokens@.len() - self.t,
        {
            let operator = match self.operator_at(level) {
                Some(op) => op,
                None => {
                    return Ok(left);
                },
            };
            proof {
                crate::lexer::lemma_operator_not_end(level as nat, toks[self.t as int].kind);
            }
            self.advance();
            let right = match self.parse_binary(level - 1) {
                Ok(e) => e,
                Err(e) => return Err(e),
            };
            let region = Region { start: left.region.start, end: right.region.end };
            left = Expression {
                region,
                value: ExpressionValue::Binary {
                    left: Box::new(left),
                    operator,
                    right: Box::new(right),
                },
            };
        }
    }

    /// Expressions up to a closing token of the given kind, which is consumed.
    fn parse_items(&mut self, close: TokenKind) -> (r: Result<Vec<Expression>, ParserError>)
        requires
            old(self).wf(),
            close != TokenKind::EndOfFile,
        ensures
            final(self).wf(),
            final(self).tokens == old(self).tokens,
            block_result(r, final(self).t) == p_items(
                old(self).toks(),
                old(self).t as int,
                close,
                Seq::empty(),
            ),
            r is Ok ==> final(self).t > old(self).t,
        decreases old(self).tokens@.len() - old(self).t, 10int, 0int,
    {
        let ghost toks = self.toks();
        let ghost t0 = self.t as int;
        let mut items: Vec<Expression> = Vec::new();
        assert(crate::ast::block_view(items@) =~= Seq::<ExprV>::empty());
        while self.current_kind() != close
            invariant
                self.wf(),
                self.tokens == old(self).tokens,
                toks == self.toks(),
                t0 == old(self).t,
                self.t >= t0,
                p_items(toks, t0, close, Seq::empty()) == p_items(
                    toks,
                    self.t as int,
                    close,
                    crate::ast::block_view(items@),
                ),
            decreases self.tokens@.len() - self.t,
        {
            let e = match self.parse_expression() {
                Ok(e) => e,
                Err(e) => return Err(e),
            };
            let ghost before = items@;
            let ghost ev = e@;
            items.push(e);
            assert(crate::ast::block_view(items@) =~= crate::ast::block_view(before).push(ev));
        }
        self.advance();
        Ok(items)
    }

    fn parse_block(&mut self) -> (r: Result<Block, ParserError>)
        requires
            old(self).wf(),
        ensures
            final(self).wf(),
            final(self).tokens == old(self).tokens,
            block_result(r, final(self).t) == p_block(old(self).toks(), old(self).t as int),
            r is Ok ==> final(self).t > old(self).t,
        decreases old(self).tokens@.len() - old(self).t, 11int, 0int,
    {
        if self.current_kind() != TokenKind::OpenBrace {
            return Err(self.expect_token_err(ExpressionKind::Block, TokenKind::OpenBrace));
        }
        self.advance();
        self.parse_items(TokenKind::CloseBrace)
    }
}

impl Parser {
    /// Parameter names up to the closing parenthesis, which is consumed.
    fn parse_parameters(&mut self) -> (r: Result<Vec<String>, ParserError>)
        requires
            old(self).wf(),
        ensures
            final(self).wf(),
            final(self).tokens == old(self).tokens,
            match r {
                Ok(ps) => Ok((crate::ast::names_view(ps@), final(self).t as int)),
                Err(x) => Err(x@),
            } == p_params(old(self).toks(), old(self).t as int, Seq::empty()),
            r is Ok ==> final(self).t > old(self).t,
    {
        let ghost toks = self.toks();
        let ghost t0 = self.t as int;
        let mut parameters: Vec<String> = Vec::new();
        assert(crate::ast::names_view(parameters@) =~= Seq::<Seq<char>>::empty());
        loop
            invariant
                self.wf(),
                self.tokens == old(self).tokens,
                toks == self.toks(),
                t0 == old(self).t,
                self.t >= t0,
                p_params(toks, t0, Seq::empty()) == p_params(
                    toks,
                    self.t as int,
                    crate::ast::names_view(parameters@),
                ),
            decreases self.tokens@.len() - self.t,
        {
            let k = self.current_kind();
            if k == TokenKind::CloseParenthesis {
                self.advance();
                return Ok(parameters);
            } else if k == TokenKind::Identifier {
                let name = match self.current_val() {
                    TokenValue::Identifier(v) => v.clone(),
                    _ => String::new(),
                };
                let ghost before = parameters@;
                parameters.push(name);
                assert(crate::ast::names_view(parameters@) =~= crate::ast::names_view(before).push(
                    toks[self.t as int].text,
                ));
                self.advance();
            } else {
                return Err(self.unexpected(Some(ExpressionKind::Function)));
            }
        }
    }

    /// `fun ( parameters ) block`; the cursor is on `fun`.
    fn parse_function(&mut self) -> (r: Result<ExpressionValue, ParserError>)
        requires
            old(self).wf(),
            old(self).toks()[old(self).t as int].kind == TokenKind::KeywordFun,
        ensures
            final(self).wf(),
            final(self).tokens == old(self).tokens,
            value_result(r, final(self).t) == p_function(old(self).toks(), old(self).t + 1),
            r is Ok ==> final(self).t > old(self).t,
        decreases old(self).tokens@.len() - old(self).t, 0int, 0int,
    {
        self.advance();
        if self.current_kind() != TokenKind::OpenParenthesis {
            return Err(self.expect_token_err(ExpressionKind::Function, TokenKind::OpenParenthesis));
        }
        self.advance();
        let parameters = match self.parse_parameters() {
            Ok(ps) => ps,
            Err(e) => return Err(e),
        };
        let body = match self.parse_block() {
            Ok(b) => b,
            Err(e) => return Err(e),
        };
        Ok(ExpressionValue::Function(DefinedFunction { parameters, body }))
    }

    /// A test and a block.
    fn parse_clause(&mut self) -> (r: Result<IfClause, ParserError>)
        requires
            old(self).wf(),
        ensures
            final(self).wf(),
            final(self).tokens == old(self).tokens,
            match r {
                Ok(c) => Ok(
                    (((*c.test)@, crate::ast::block_view(c.body@)), final(self).t as int),
                ),
                Err(x) => Err(x@),
            } == p_clause(old(self).toks(), old(self).t as int),
            r is Ok ==> final(self).t > old(self).t,
        decreases old(self).tokens@.len() - old(self).t, 12int, 0int,
    {
        let test = match self.parse_expression() {
            Ok(e) => e,
            Err(e) => return Err(e),
        };
        let body = match self.parse_block() {
            Ok(b) => b,
            Err(e) => return Err(e),
        };
        Ok(IfClause { test: Box::new(test), body })
    }

    /// `if test block`, then `elif test block` clauses and an optional
    /// `else block`; the cursor is on `if`.
    fn parse_if(&mut self) -> (r: Result<ExpressionValue, ParserError>)
        requires
            old(self).wf(),
            old(self).toks()[old(self).t as int].kind == TokenKind::KeywordIf,
        ensures
            final(self).wf(),
            final(self).tokens == old(self).tokens,
            value_result(r, final(self).t) == match p_clause(old(self).toks(), old(self).t + 1) {
                Err(e) => Err(e),
                Ok((c, t1)) => if old(self).t < t1 <= old(self).toks().len() {
                    p_if_rest(old(self).toks(), t1, seq![c])
                } else {
                    Err(stuck(old(self).toks(), old(self).t as int))
                },
            },
            r is Ok ==> final(self).t > old(self).t,
        decreases old(self).tokens@.len() - old(self).t, 0int, 0int,
    {
        let ghost toks = self.toks();
        let ghost t0 = self.t as int;
        self.advance();
        let first = match self.parse_clause() {
            Ok(c) => c,
            Err(e) => return Err(e),
        };
        let mut clauses = vec![first];
        assert(crate::ast::clauses_view(clauses@) =~= seq![
            ((*first.test)@, crate::ast::block_view(first.body@)),
        ]);
        while self.current_kind() == TokenKind::KeywordElif
            invariant
                self.wf(),
                self.tokens == old(self).tokens,
                toks == self.toks(),
                t0 == old(self).t,
                self.t > t0,
                match p_clause(toks, t0 + 1) {
                    Err(e) => Err(e),
                    Ok((c, t1)) => if t0 < t1 <= toks.len() {
                        p_if_rest(toks, t1, seq![c])
                    } else {
                        Err(stuck(toks, t0))
                    },
                } == p_if_rest(toks, self.t as int, crate::ast::clauses_view(clauses@)),
            decreases self.tokens@.len() - self.t,
        {
            self.advance();
            let clause = match self.parse_clause() {
                Ok(c) => c,
                Err(e) => return Err(e),
            };
            let ghost before = clauses@;
            let ghost cv = ((*clause.test)@, crate::ast::block_view(clause.body@));
            clauses.push(clause);
            assert(crate::ast::clauses_view(clauses@) =~= crate::ast::clauses_view(before).push(
                cv,
            ));
        }
        let mut else_block = None;
        if self.current_kind() == TokenKind::KeywordElse {
            self.advance();
            else_block = match self.parse_block() {
                Ok(b) => Some(b),
                Err(e) => return Err(e),
            };
        }
        Ok(ExpressionValue::If { clauses, else_block })
    }

    /// `var name = expression`; the cursor is on `var`.
    fn parse_variable_declaration(&mut self) -> (r: Result<ExpressionValue, ParserError>)
        requires
            old(self).wf(),
            old(self).toks()[old(self).t as int].kind == TokenKind::KeywordVar,
        ensures
            final(self).wf(),
            final(self).tokens == old(self).tokens,
            value_result(r, final(self).t) == p_declaration(old(self).toks(), old(self).t + 1),
            r is Ok ==> final(self).t > old(self).t,
        decreases old(self).tokens@.len() - old(self).t, 0int, 0int,
    {
        self.advance();
        let identifier = match self.current_val() {
            TokenValue::Identifier(v) => v.clone(),
            _ => {
                return Err(
                    self.expect_token_err(
                        ExpressionKind::VariableDeclaration,
                        TokenKind::Identifier,
                    ),
                );
            },
        };
        self.advance();
        if self.current_kind() != TokenKind::EqualSign {
            return Err(
                self.expect_token_err(ExpressionKind::VariableDeclaration, TokenKind::EqualSign),
            );
        }
        self.advance();
        let expression = match self.parse_expression() {
            Ok(e) => e,
            Err(e) => return Err(e),
        };
        Ok(ExpressionValue::VariableDeclaration { identifier, expression: Box::new(expression) })
    }

    /// `for init test update block`; the cursor is on `for`.
    fn parse_for(&mut self) -> (r: Result<ExpressionValue, ParserError>)
        requires
            old(self).wf(),
            old(self).toks()[old(self).t as int].kind == TokenKind::KeywordFor,
        ensures
            final(self).wf(),
            final(self).tokens == old(self).tokens,
            value_result(r, final(self).t) == p_for(old(self).toks(), old(self).t + 1),
            r is Ok ==> final(self).t > old(self).t,
        decreases old(self).tokens@.len() - old(self).t, 0int, 0int,
    {
        self.advance();
        let init = match self.parse_expression() {
            Ok(e) => e,
            Err(e) => return Err(e),
        };
        let test = match self.parse_expression() {
            Ok(e) => e,
            Err(e) => return Err(e),
        };
        let update = match self.parse_expression() {
            Ok(e) => e,
            Err(e) => return Err(e),
        };
        let body = match self.parse_block() {
            Ok(b) => b,
            Err(e) => return Err(e),
        };
        assert(crate::ast::opt_view(Some(Box::new(init))) == Some(Box::new(init@)));
        assert(crate::ast::opt_view(Some(Box::new(test))) == Some(Box::new(test@)));
        assert(crate::ast::opt_view(Some(Box::new(update))) == Some(Box::new(update@)));
        Ok(
            ExpressionValue::Loop {
                init: Some(Box::new(init)),
                test: Some(Box::new(test)),
                update: Some(Box::new(update)),
                body,
            },
        )
    }

    /// `while test block`; the cursor is on `while`.
    fn parse_while(&mut self) -> (r: Result<ExpressionValue, ParserError>)
        requires
            old(self).wf(),
            old(self).toks()[old(self).t as int].kind == TokenKind::KeywordWhile,
        ensures
            final(self).wf(),
            final(self).tokens == old(self).tokens,
            value_result(r, final(self).t) == match p_clause(old(self).toks(), old(self).t + 1) {
                Err(e) => Err(e),
                Ok(((test, body), t1)) => Ok(
                    (ExprV::Loop(None, Some(Box::new(test)), None, body), t1),
                ),
            },
            r is Ok ==> final(self).t > old(self).t,
        decreases old(self).tokens@.len() - old(self).t, 0int, 0int,
    {
        self.advance();
        let clause = match self.parse_clause() {
            Ok(c) => c,
            Err(e) => return Err(e),
        };
        assert(crate::ast::opt_view(None) == None::<Box<ExprV>>);
        assert(crate::ast::opt_view(Some(clause.test)) == Some(Box::new((*clause.test)@)));
        Ok(
            ExpressionValue::Loop {
                init: None,
                test: Some(clause.test),
                update: None,
                body: clause.body,
            },
        )
    }

    /// `loop block`; the cursor is on `loop`.
    fn parse_loop(&mut self) -> (r: Result<ExpressionValue, ParserError>)
        requires
            old(self).wf(),
            old(self).toks()[old(self).t as int].kind == TokenKind::KeywordLoop,
        ensures
            final(self).wf(),
            final(self).tokens == old(self).tokens,
            value_result(r, final(self).t) == match p_block(old(self).toks(), old(self).t + 1) {
                Err(e) => Err(e),
                Ok((body, t1)) => Ok((ExprV::Loop(None, None, None, body), t1)),
            },
            r is Ok ==> final(self).t > old(self).t,
        decreases old(self).tokens@.len() - old(self).t, 0int, 0int,
    {
        self.advance();
        let body = match self.parse_block() {
            Ok(b) => b,
            Err(e) => return Err(e),
        };
        assert(crate::ast::opt_view(None) == None::<Box<ExprV>>);
        Ok(ExpressionValue::Loop { init: None, test: None, update: None, body })
    }

    /// `name ( arguments )`; the cursor is on the name.
    fn parse_call(&mut self) -> (r: Result<ExpressionValue, ParserError>)
        requires
            old(self).wf(),
            old(self).toks()[old(self).t as int].kind == TokenKind::Identifier,
            old(self).t + 1 < old(self).toks().len(),
            old(self).toks()[old(self).t + 1].kind == TokenKind::OpenParenthesis,
        ensures
            final(self).wf(),
            final(self).tokens == old(self).tokens,
            value_result(r, final(self).t) == match p_items(
                old(self).toks(),
                old(self).t + 2,
                TokenKind::CloseParenthesis,
                Seq::empty(),
            ) {
                Err(e) => Err(e),
                Ok((args, t1)) => Ok(
                    (ExprV::Call(old(self).toks()[old(self).t as int].text, args), t1),
                ),
            },
            r is Ok ==> final(self).t > old(self).t,
        decreases old(self).tokens@.len() - old(self).t, 0int, 0int,
    {
        let identifier = match self.current_val() {
            TokenValue::Identifier(v) => v.clone(),
            _ => String::new(),
        };
        self.advance();
        self.advance();
        let arguments = match self.parse_items(TokenKind::CloseParenthesis) {
            Ok(a) => a,
            Err(e) => return Err(e),
        };
        Ok(ExpressionValue::Call { identifier, arguments })
    }

    /// `name = expression`; the cursor is on the name.
    fn parse_assign(&mut self) -> (r: Result<ExpressionValue, ParserError>)
        requires
            old(self).wf(),
            old(self).toks()[old(self).t as int].kind == TokenKind::Identifier,
            old(self).t + 1 < old(self).toks().len(),
            old(self).toks()[old(self).t + 1].kind == TokenKind::EqualSign,
        ensures
            final(self).wf(),
            final(self).tokens == old(self).tokens,
            value_result(r, final(self).t) == match p_expr(old(self).toks(), old(self).t + 2) {
                Err(e) => Err(e),
                Ok((x, t1)) => Ok(
                    (
                        ExprV::Assign(
                            old(self).toks()[old(self).t as int].text,
                            AssignmentOperator::Replace,
                            Box::new(x),
                        ),
                        t1,
                    ),
                ),
            },
            r is Ok ==> final(self).t > old(self).t,
        decreases old(self).tokens@.len() - old(self).t, 0int, 0int,
    {
        let identifier = match self.current_val() {
            TokenValue::Identifier(v) => v.clone(),
            _ => String::new(),
        };
        self.advance();
        self.advance();
        let expression = match self.parse_expression() {
            Ok(e) => e,
            Err(e) => return Err(e),
        };
        Ok(
            ExpressionValue::Assign {
                identifier,
                operator: AssignmentOperator::Replace,
                expression: Box::new(expression),
            },
        )
    }

    /// The form at the cursor, by its first token.
    fn parse_primary_value(&mut self) -> (r: Result<ExpressionValue, ParserError>)
        requires
            old(self).wf(),
        ensures
            final(self).wf(),
            final(self).tokens == old(self).tokens,
            value_result(r, final(self).t) == p_primary(old(self).toks(), old(self).t as int),
            r is Ok ==> final(self).t > old(self).t,
        decreases old(self).tokens@.len() - old(self).t, 1int, 0int,
    {
        let ghost toks = self.toks();
        let k = self.current_kind();
        if k == TokenKind::Int {
            let v = match self.current_val() {
                TokenValue::Int(n) => *n,
                _ => 0,
            };
            self.advance();
            Ok(ExpressionValue::Int(v))
        } else if k == TokenKind::String {
            let v = match self.current_val() {
                TokenValue::String(s) => s.clone(),
                _ => String::new(),
            };
            self.advance();
            Ok(ExpressionValue::String(v))
        } else if k == TokenKind::Identifier {
            let n = self.tokens.len();
            assert(self.t + 1 < n);
            let next = self.tokens[self.t + 1].value.kind();
            if next == TokenKind::OpenParenthesis {
                self.parse_call()
            } else if next == TokenKind::EqualSign {
                self.parse_assign()
            } else {
                let v = match self.current_val() {
                    TokenValue::Identifier(s) => s.clone(),
                    _ => String::new(),
                };
                self.advance();
                Ok(ExpressionValue::Identifier(v))
            }
        } else if k == TokenKind::OpenParenthesis {
            self.advance();
            let expression = match self.parse_expression() {
                Ok(e) => e,
                Err(e) => return Err(e),
            };
            if self.current_kind() != TokenKind::CloseParenthesis {
                return Err(self.expect_token_err(ExpressionKind::Binary, TokenKind::CloseParenthesis));
            }
            self.advance();
            Ok(expression.value)
        } else if k == TokenKind::KeywordNull {
            self.advance();
            Ok(ExpressionValue::Null)
        } else if k == TokenKind::KeywordTrue {
            self.advance();
            Ok(ExpressionValue::Bool(true))
        } else if k == TokenKind::KeywordFalse {
            self.advance();
            Ok(ExpressionValue::Bool(false))
        } else if k == TokenKind::OpenBrace {
            self.advance();
            match self.parse_items(TokenKind::CloseBrace) {
                Ok(b) => Ok(ExpressionValue::Block(b)),
                Err(e) => Err(e),
            }
        } else if k == TokenKind::KeywordVar {
            self.parse_variable_declaration()
        } else if k == TokenKind::KeywordFun {
            self.parse_function()
        } else if k == TokenKind::KeywordIf {
            self.parse_if()
        } else if k == TokenKind::KeywordWhile {
            self.parse_while()
        } else if k == TokenKind::KeywordFor {
            self.parse_for()
        } else if k == TokenKind::KeywordLoop {
            self.parse_loop()
        } else if k == TokenKind::KeywordContinue {
            self.advance();
            Ok(ExpressionValue::Continue)
        } else if k == TokenKind::KeywordBreak {
            self.advance();
            Ok(ExpressionValue::Break)
        } else {
            Err(self.unexpected(None))
        }
    }

    fn parse_primary(&mut self) -> (r: Result<Expression, ParserError>)
        requires
            old(self).wf(),
        ensures
            final(self).wf(),
            final(self).tokens == old(self).tokens,
            expr_result(r, final(self).t) == p_primary(old(self).toks(), old(self).t as int),
            r is Ok ==> final(self).t > old(self).t,
        decreases old(self).tokens@.len() - old(self).t, 2int, 0int,
    {
        let start = self.current().region.start;
        let value = match self.parse_primary_value() {
            Ok(v) => v,
            Err(e) => return Err(e),
        };
        let end = self.previous().region.end;
        Ok(Expression { region: Region { start, end }, value })
    }
}

pub open spec fn value_result(r: Result<ExpressionValue, ParserError>, t: usize) -> Parsed<ExprV> {
    match r {
        Ok(v) => Ok((crate::ast::expr_view(Expression { region: arbitrary(), value: v }), t as int)),
        Err(x) => Err(x@),
    }
}

impl Parser {
    /// A parser over the tokens of `source`.
    pub fn new(source: &str) -> (r: Result<Parser, LexerError>)
        requires
            source@.len() <= isize::MAX,
        ensures
            match r {
                Ok(p) => p.wf() && p.pos() == 0 && lex(source@) == Ok::<Seq<TokV>, LexerError>(
                    p.toks(),
                ),
                Err(e) => lex(source@) == Err::<Seq<TokV>, LexerError>(e),
            },
    {
        let mut lexer = Lexer::new(source);
        let tokens = match lexer.tokenize() {
            Ok(ts) => ts,
            Err(e) => return Err(e),
        };
        proof {
            crate::lexer::lemma_lex_well_ended(source@, 0);
        }
        Ok(Parser { tokens, t: 0 })
    }

    /// The program: expressions up to the end of the file.
    pub fn parse(&mut self) -> (r: Result<Program, ParserError>)
        requires
            old(self).wf(),
        ensures
            final(self).wf(),
            final(self).toks() == old(self).toks(),
            match r {
                Ok(p) => parse_tokens(old(self).toks()) == Ok::<Seq<ExprV>, ParseErrV>(
                    crate::ast::block_view(p.ast@),
                ),
                Err(e) => parse_tokens(old(self).toks()) == Err::<Seq<ExprV>, ParseErrV>(e@),
            },
    {
        self.t = 0;
        let ghost toks = self.toks();
        let mut program = Program { ast: Vec::new() };
        assert(crate::ast::block_view(program.ast@) =~= Seq::<ExprV>::empty());
        while self.current_kind() != TokenKind::EndOfFile
            invariant
                self.wf(),
                self.tokens == old(self).tokens,
                toks == self.toks(),
                parse_tokens(toks) == p_program(
                    toks,
                    self.t as int,
                    crate::ast::block_view(program.ast@),
                ),
            decreases self.tokens@.len() - self.t,
        {
            let e = match self.parse_expression() {
                Ok(e) => e,
                Err(e) => return Err(e),
            };
            let ghost before = program.ast@;
            let ghost ev = e@;
            program.ast.push(e);
            assert(crate::ast::block_view(program.ast@) =~= crate::ast::block_view(before).push(ev));
        }
        Ok(program)
    }
}

} // verus!
