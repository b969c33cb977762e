//! The recursive-descent parser: from a token sequence to a syntax
//! tree, with the grammar itself stated as specification functions.
//!
//! Grammar:
//! ```text
//! program      := declaration*
//! declaration  := function | let_stmt
//! function     := 'fn' ident '(' params? ')' ':' type '{' stmt* '}'
//! params       := param (',' param)*
//! param        := ident ':' type_name
//! let_stmt     := 'let' ident (':' type_name)? '=' expr ';'
//! stmt         := 'return' expr ';'
//! expr         := primary ( ('+'|'-'|'*'|'/') primary )*
//! primary      := number | string_literal | 'true' | 'false' | ident
//! ```
//!
//! All binary operators sit in a single precedence tier and associate
//! to the left. A function body permits only `return` statements; the
//! first unmet expectation aborts the whole parse.

use vstd::prelude::*;

use crate::ast::deep_view_seq;
use crate::ast::lemma_deep_view_seq_push;
use crate::ast::Ast;
use crate::ast::AstNode;
use crate::ast::BinaryOperator;
use crate::lexer::Lexeme;
use crate::lexer::Token;
use crate::types::Ty;
use crate::types::Type;

verus! {

/// The grammatical construct the parser was looking for when it failed.
#[derive(Debug, Clone, Copy, PartialEq, Eq, Structural)]
pub enum Expected {
    Declaration,
    FunctionName,
    LeftParen,
    ParameterName,
    ColonAfterParameterName,
    TypeName,
    ColonAfterParameters,
    ReturnType,
    LeftBrace,
    ReturnStatement,
    Semicolon,
    Expression,
    VariableName,
    Equals,
}

/// A parse failure: the construct that was expected and the token that
/// was found instead (`None` when the input ended early).
#[derive(Debug, PartialEq)]
pub struct SyntaxError {
    pub expected: Expected,
    pub found: Option<Token>,
}

/// The mathematical model of a parse failure.
pub struct SyntaxErrorModel {
    pub expected: Expected,
    pub found: Option<Lexeme>,
}

impl View for SyntaxError {
    type V = SyntaxErrorModel;

    open spec fn view(&self) -> SyntaxErrorModel {
        SyntaxErrorModel { expected: self.expected, found: self.found.deep_view() }
    }
}

/// The token at `pos`, or `None` past the end of the input.
pub open spec fn peek(toks: Seq<Lexeme>, pos: int) -> Option<Lexeme> {
    if 0 <= pos < toks.len() {
        Some(toks[pos])
    } else {
        None
    }
}

pub open spec fn syn_err(expected: Expected, found: Option<Lexeme>) -> SyntaxErrorModel {
    SyntaxErrorModel { expected, found }
}

/// The operator denoted by a token, if any.
pub open spec fn spec_binop_of(l: Lexeme) -> Option<BinaryOperator> {
    match l {
        Lexeme::Plus => Some(BinaryOperator::Add),
        Lexeme::Minus => Some(BinaryOperator::Subtract),
        Lexeme::Multiply => Some(BinaryOperator::Multiply),
        Lexeme::Divide => Some(BinaryOperator::Divide),
        _ => None,
    }
}

/// The type name denoted by a token in annotation position: a plain
/// identifier or one of the type keywords.
pub open spec fn spec_type_name(l: Lexeme) -> Option<Seq<char>> {
    match l {
        Lexeme::Identifier(t) => Some(t),
        Lexeme::TypeInt => Some("i32"@),
        Lexeme::TypeFloat => Some("f64"@),
        Lexeme::TypeBool => Some("bool"@),
        Lexeme::TypeString => Some("string"@),
        _ => None,
    }
}

/// primary := number | string_literal | 'true' | 'false' | ident
pub open spec fn spec_parse_primary(toks: Seq<Lexeme>, pos: int) -> Result<
    (Ast, int),
    SyntaxErrorModel,
> {
    match peek(toks, pos) {
        Some(Lexeme::Number(n)) => Ok((Ast::Number(n), pos + 1)),
        Some(Lexeme::StringLiteral) => Ok((Ast::StringLiteral("string literal"@), pos + 1)),
        Some(Lexeme::True) => Ok((Ast::Boolean(true), pos + 1)),
        Some(Lexeme::False) => Ok((Ast::Boolean(false), pos + 1)),
        Some(Lexeme::Identifier(name)) => Ok((Ast::Identifier(name), pos + 1)),
        other => Err(syn_err(Expected::Expression, other)),
    }
}

/// The left-associative chain of further `op primary` steps after an
/// already-parsed left operand.
pub open spec fn spec_parse_binary_rest(toks: Seq<Lexeme>, pos: int, left: Ast) -> Result<
    (Ast, int),
    SyntaxErrorModel,
>
    decreases toks.len() - pos,
{
    match peek(toks, pos) {
        Some(l) => match spec_binop_of(l) {
            Some(op) => match spec_parse_primary(toks, pos + 1) {
                Ok((right, p2)) => spec_parse_binary_rest(
                    toks,
                    p2,
                    Ast::BinaryOp { op, left: Box::new(left), right: Box::new(right) },
                ),
                Err(e) => Err(e),
            },
            None => Ok((left, pos)),
        },
        None => Ok((left, pos)),
    }
}

pub proof fn lemma_parse_binary_rest_bounds(toks: Seq<Lexeme>, pos: int, left: Ast)
    requires
        0 <= pos <= toks.len(),
    ensures
        spec_parse_binary_rest(toks, pos, left) matches Ok(r) ==> pos <= r.1 <= toks.len(),
    decreases toks.len() - pos,
{
    match peek(toks, pos) {
        Some(l) => match spec_binop_of(l) {
            Some(op) => match spec_parse_primary(toks, pos + 1) {
                Ok((right, p2)) => {
                    lemma_parse_binary_rest_bounds(
                        toks,
                        p2,
                        Ast::BinaryOp { op, left: Box::new(left), right: Box::new(right) },
                    );
                },
                Err(e) => {},
            },
            None => {},
        },
        None => {},
    }
}

/// expr := primary ( op primary )*
pub open spec fn spec_parse_expression(toks: Seq<Lexeme>, pos: int) -> Result<
    (Ast, int),
    SyntaxErrorModel,
> {
    match spec_parse_primary(toks, pos) {
        Ok((left, p)) => spec_parse_binary_rest(toks, p, left),
        Err(e) => Err(e),
    }
}

pub proof fn lemma_parse_expression_bounds(toks: Seq<Lexeme>, pos: int)
    requires
        0 <= pos,
    ensures
        spec_parse_expression(toks, pos) matches Ok(r) ==> pos < r.1 <= toks.len(),
{
    match spec_parse_primary(toks, pos) {
        Ok((left, p)) => {
            lemma_parse_binary_rest_bounds(toks, p, left);
        },
        Err(e) => {},
    }
}

/// The tail of `let_stmt` after name and optional annotation:
/// `'=' expr ';'`.
pub open spec fn spec_parse_let_tail(
    toks: Seq<Lexeme>,
    pos: int,
    name: Seq<char>,
    ann: Option<Seq<char>>,
) -> Result<(Ast, int), SyntaxErrorModel> {
    match peek(toks, pos) {
        Some(Lexeme::Equals) => match spec_parse_expression(toks, pos + 1) {
            Ok((value, p2)) => match peek(toks, p2) {
                Some(Lexeme::Semicolon) => Ok(
                    (
                        Ast::Let { name, type_annotation: ann, value: Box::new(value) },
                        p2 + 1,
                    ),
                ),
                other => Err(syn_err(Expected::Semicolon, other)),
            },
            Err(e) => Err(e),
        },
        other => Err(syn_err(Expected::Equals, other)),
    }
}

/// let_stmt := 'let' ident (':' type_name)? '=' expr ';'
/// (`pos` points at the `let` keyword itself.)
pub open spec fn spec_parse_let(toks: Seq<Lexeme>, pos: int) -> Result<
    (Ast, int),
    SyntaxErrorModel,
> {
    match peek(toks, pos + 1) {
        Some(Lexeme::Identifier(name)) => match peek(toks, pos + 2) {
            Some(Lexeme::Colon) => match peek(toks, pos + 3) {
                Some(l) => match spec_type_name(l) {
                    Some(t) => spec_parse_let_tail(toks, pos + 4, name, Some(t)),
                    None => Err(syn_err(Expected::TypeName, Some(l))),
                },
                None => Err(syn_err(Expected::TypeName, None)),
            },
            _ => spec_parse_let_tail(toks, pos + 2, name, None),
        },
        other => Err(syn_err(Expected::VariableName, other)),
    }
}

pub proof fn lemma_parse_let_bounds(toks: Seq<Lexeme>, pos: int)
    requires
        0 <= pos,
    ensures
        spec_parse_let(toks, pos) matches Ok(r) ==> pos < r.1 <= toks.len(),
{
    lemma_parse_expression_bounds(toks, pos + 3);
    lemma_parse_expression_bounds(toks, pos + 5);
}

/// type := 'i32' | 'f64'
pub open spec fn spec_parse_type(toks: Seq<Lexeme>, pos: int) -> Result<
    (Ty, int),
    SyntaxErrorModel,
> {
    match peek(toks, pos) {
        Some(Lexeme::TypeInt) => Ok((Ty::Int, pos + 1)),
        Some(Lexeme::TypeFloat) => Ok((Ty::Float, pos + 1)),
        other => Err(syn_err(Expected::ReturnType, other)),
    }
}

/// params := param (',' param)*, terminated by ')'; `params` carries
/// the (name, type name) pairs parsed so far.
pub open spec fn spec_parse_params_rest(
    toks: Seq<Lexeme>,
    pos: int,
    params: Seq<(Seq<char>, Seq<char>)>,
) -> Result<(Seq<(Seq<char>, Seq<char>)>, int), SyntaxErrorModel>
    decreases toks.len() - pos,
{
    match peek(toks, pos) {
        Some(Lexeme::RightParen) => Ok((params, pos + 1)),
        Some(Lexeme::Identifier(pname)) => match peek(toks, pos + 1) {
            Some(Lexeme::Colon) => match peek(toks, pos + 2) {
                Some(l) => match spec_type_name(l) {
                    Some(t) => {
                        if peek(toks, pos + 3) == Some(Lexeme::Comma) {
                            spec_parse_params_rest(toks, pos + 4, params.push((pname, t)))
                        } else {
                            spec_parse_params_rest(toks, pos + 3, params.push((pname, t)))
                        }
                    },
                    None => Err(syn_err(Expected::TypeName, Some(l))),
                },
                None => Err(syn_err(Expected::TypeName, None)),
            },
            other => Err(syn_err(Expected::ColonAfterParameterName, other)),
        },
        other => Err(syn_err(Expected::ParameterName, other)),
    }
}

pub proof fn lemma_parse_params_rest_bounds(
    toks: Seq<Lexeme>,
    pos: int,
    params: Seq<(Seq<char>, Seq<char>)>,
)
    requires
        0 <= pos,
    ensures
        spec_parse_params_rest(toks, pos, params) matches Ok(r) ==> pos < r.1 <= toks.len(),
    decreases toks.len() - pos,
{
    match peek(toks, pos) {
        Some(Lexeme::Identifier(pname)) => match peek(toks, pos + 1) {
            Some(Lexeme::Colon) => match peek(toks, pos + 2) {
                Some(l) => match spec_type_name(l) {
                    Some(t) => {
                        if peek(toks, pos + 3) == Some(Lexeme::Comma) {
                            lemma_parse_params_rest_bounds(toks, pos + 4, params.push((pname, t)));
                        } else {
                            lemma_parse_params_rest_bounds(toks, pos + 3, params.push((pname, t)));
                        }
                    },
                    None => {},
                },
                None => {},
            },
            _ => {},
        },
        _ => {},
    }
}

/// stmt* terminated by '}'; every statement is `'return' expr ';'`, and
/// `stmts` carries the statements parsed so far.
pub open spec fn spec_parse_block_rest(toks: Seq<Lexeme>, pos: int, stmts: Seq<Ast>) -> Result<
    (Ast, int),
    SyntaxErrorModel,
>
    decreases toks.len() - pos,
{
    match peek(toks, pos) {
        Some(Lexeme::RightBrace) => Ok((Ast::Program(stmts), pos + 1)),
        Some(Lexeme::Return) => match spec_parse_expression(toks, pos + 1) {
            Ok((expr, p2)) => match peek(toks, p2) {
                Some(Lexeme::Semicolon) => {
                    proof {
                        lemma_parse_expression_bounds(toks, pos + 1);
                    }
                    spec_parse_block_rest(toks, p2 + 1, stmts.push(Ast::Return(Box::new(expr))))
                },
                other => Err(syn_err(Expected::Semicolon, other)),
            },
            Err(e) => Err(e),
        },
        other => Err(syn_err(Expected::ReturnStatement, other)),
    }
}

pub proof fn lemma_parse_block_rest_bounds(toks: Seq<Lexeme>, pos: int, stmts: Seq<Ast>)
    requires
        0 <= pos,
    ensures
        spec_parse_block_rest(toks, pos, stmts) matches Ok(r) ==> pos < r.1 <= toks.len(),
    decreases toks.len() - pos,
{
    match peek(toks, pos) {
        Some(Lexeme::Return) => match spec_parse_expression(toks, pos + 1) {
            Ok((expr, p2)) => {
                lemma_parse_expression_bounds(toks, pos + 1);
                match peek(toks, p2) {
                    Some(Lexeme::Semicolon) => {
                        lemma_parse_block_rest_bounds(
                            toks,
                            p2 + 1,
                            stmts.push(Ast::Return(Box::new(expr))),
                        );
                    },
                    _ => {},
                }
            },
            Err(e) => {},
        },
        _ => {},
    }
}

/// function := 'fn' ident '(' params? ')' ':' type '{' stmt* '}'
/// (`pos` points at the `fn` keyword itself.)
pub open spec fn spec_parse_function(toks: Seq<Lexeme>, pos: int) -> Result<
    (Ast, int),
    SyntaxErrorModel,
> {
    match peek(toks, pos + 1) {
        Some(Lexeme::Identifier(name)) => match peek(toks, pos + 2) {
            Some(Lexeme::LeftParen) => match spec_parse_params_rest(toks, pos + 3, Seq::empty()) {
                Ok((params, p2)) => match peek(toks, p2) {
                    Some(Lexeme::Colon) => match spec_parse_type(toks, p2 + 1) {
                        Ok((_ret, p3)) => match peek(toks, p3) {
                            Some(Lexeme::LeftBrace) => match spec_parse_block_rest(
                                toks,
                                p3 + 1,
                                Seq::empty(),
                            ) {
                                Ok((body, p4)) => Ok(
                                    (Ast::Function { name, params, body: Box::new(body) }, p4),
                                ),
                                Err(e) => Err(e),
                            },
                            other => Err(syn_err(Expected::LeftBrace, other)),
                        },
                        Err(e) => Err(e),
                    },
                    other => Err(syn_err(Expected::ColonAfterParameters, other)),
                },
                Err(e) => Err(e),
            },
            other => Err(syn_err(Expected::LeftParen, other)),
        },
        other => Err(syn_err(Expected::FunctionName, other)),
    }
}

pub proof fn lemma_parse_function_bounds(toks: Seq<Lexeme>, pos: int)
    requires
        0 <= pos,
    ensures
        spec_parse_function(toks, pos) matches Ok(r) ==> pos < r.1 <= toks.len(),
{
    lemma_parse_params_rest_bounds(toks, pos + 3, Seq::empty());
    match peek(toks, pos + 1) {
        Some(Lexeme::Identifier(name)) => match peek(toks, pos + 2) {
            Some(Lexeme::LeftParen) => match spec_parse_params_rest(toks, pos + 3, Seq::empty()) {
                Ok((params, p2)) => match peek(toks, p2) {
                    Some(Lexeme::Colon) => match spec_parse_type(toks, p2 + 1) {
                        Ok((_ret, p3)) => {
                            lemma_parse_block_rest_bounds(toks, p3 + 1, Seq::empty());
                        },
                        Err(e) => {},
                    },
                    _ => {},
                },
                Err(e) => {},
            },
            _ => {},
        },
        _ => {},
    }
}

/// declaration := function | let_stmt
pub open spec fn spec_parse_declaration(toks: Seq<Lexeme>, pos: int) -> Result<
    (Ast, int),
    SyntaxErrorModel,
> {
    match peek(toks, pos) {
        Some(Lexeme::Function) => spec_parse_function(toks, pos),
        Some(Lexeme::Let) => spec_parse_let(toks, pos),
        other => Err(syn_err(Expected::Declaration, other)),
    }
}

pub proof fn lemma_parse_declaration_bounds(toks: Seq<Lexeme>, pos: int)
    requires
        0 <= pos,
    ensures
        spec_parse_declaration(toks, pos) matches Ok(r) ==> pos < r.1 <= toks.len(),
{
    lemma_parse_function_bounds(toks, pos);
    lemma_parse_let_bounds(toks, pos);
}

/// program := declaration*, to the end of the input; `decls` carries
/// the declarations parsed so far.
pub open spec fn spec_parse_program_rest(toks: Seq<Lexeme>, pos: int, decls: Seq<Ast>) -> Result<
    (Ast, int),
    SyntaxErrorModel,
>
    decreases toks.len() - pos,
{
    if pos >= toks.len() {
        Ok((Ast::Program(decls), pos))
    } else {
        match spec_parse_declaration(toks, pos) {
            Ok((decl, p2)) => {
                proof {
                    if 0 <= pos {
                        lemma_parse_declaration_bounds(toks, pos);
                    }
                }
                spec_parse_program_rest(toks, p2, decls.push(decl))
            },
            Err(e) => Err(e),
        }
    }
}

/// The whole parse: a program is the sequence of its declarations.
pub open spec fn spec_parse(toks: Seq<Lexeme>) -> Result<Ast, SyntaxErrorModel> {
    match spec_parse_program_rest(toks, 0, Seq::empty()) {
        Ok((program, _)) => Ok(program),
        Err(e) => Err(e),
    }
}

/// An owned copy of a possibly-borrowed found token, for error reports.
fn duplicate_found(t: Option<&Token>) -> (r: Option<Token>)
    ensures
        r.deep_view() == t.deep_view(),
{
    match t {
        Some(tok) => Some(tok.duplicate()),
        None => None,
    }
}

/// The recursive-descent parser: a token sequence and a cursor into it.
pub struct Parser {
    tokens: Vec<Token>,
    current: usize,
}

impl Parser {
    /// The model of the token sequence being parsed.
    pub closed spec fn toks(&self) -> Seq<Lexeme> {
        self.tokens.deep_view()
    }

    /// The current cursor position.
    pub closed spec fn pos(&self) -> int {
        self.current as int
    }

    /// The cursor never runs past the end of the input.
    pub open spec fn wf(&self) -> bool {
        self.pos() <= self.toks().len()
    }

    /// Creates a parser positioned at the start of `tokens`.
    pub fn new(tokens: Vec<Token>) -> (r: Parser)
        ensures
            r.toks() == tokens.deep_view(),
            r.pos() == 0,
            r.wf(),
    {
        Parser { tokens, current: 0 }
    }

    /// The token under the cursor, or `None` at the end of the input.
    fn current_token(&self) -> (r: Option<&Token>)
        ensures
            match r {
                Some(t) => peek(self.toks(), self.pos()) == Some(t@),
                None => peek(self.toks(), self.pos()) is None,
            },
    {
        if self.current < self.tokens.len() {
            Some(&self.tokens[self.current])
        } else {
            None
        }
    }

    /// Moves the cursor past the current token.
    fn advance(&mut self)
        requires
            old(self).pos() < old(self).toks().len(),
        ensures
            final(self).toks() == old(self).toks(),
            final(self).pos() == old(self).pos() + 1,
    {
        let _n = self.tokens.len();
        proof {
            assert(self.toks().len() == self.tokens@.len());
        }
        self.current = self.current + 1;
    }

    /// The operator denoted by the token under the cursor, if any.
    fn current_binop(&self) -> (r: Option<BinaryOperator>)
        ensures
            r == (match peek(self.toks(), self.pos()) {
                Some(l) => spec_binop_of(l),
                None => None::<BinaryOperator>,
            }),
    {
        match self.current_token() {
            Some(Token::Plus) => Some(BinaryOperator::Add),
            Some(Token::Minus) => Some(BinaryOperator::Subtract),
            Some(Token::Multiply) => Some(BinaryOperator::Multiply),
            Some(Token::Divide) => Some(BinaryOperator::Divide),
            _ => None,
        }
    }

    /// Parses the whole input as a program of declarations.
    pub fn parse(&mut self) -> (r: Result<AstNode, SyntaxError>)
        requires
            old(self).wf(),
        ensures
            final(self).wf(),
            final(self).toks() == old(self).toks(),
            ({
                let res = spec_parse_program_rest(old(self).toks(), old(self).pos(), Seq::empty());
                match r {
                    Ok(node) => res matches Ok(p) && node.deep_view() == p.0 && final(self).pos() == p.1,
                    Err(e) => res matches Err(em) && e@ == em,
                }
            }),
    {
        let ghost toks = self.toks();
        let ghost target = spec_parse_program_rest(toks, self.pos(), Seq::empty());
        let mut program: Vec<AstNode> = Vec::new();
        while self.current < self.tokens.len()
            invariant
                self.wf(),
                self.toks() == toks,
                toks == old(self).toks(),
                target == spec_parse_program_rest(old(self).toks(), old(self).pos(), Seq::empty()),
                spec_parse_program_rest(toks, self.pos(), deep_view_seq(program@)) == target,
            decreases toks.len() - self.pos(),
        {
            proof {
                lemma_parse_declaration_bounds(toks, self.pos());
            }
            let decl = match self.parse_declaration() {
                Ok(d) => d,
                Err(e) => {
                    return Err(e);
                },
            };
            proof {
                lemma_deep_view_seq_push(program@, decl);
            }
            program.push(decl);
        }
        Ok(AstNode::Program(program))
    }

    /// Parses one declaration: a function or a let statement.
    fn parse_declaration(&mut self) -> (r: Result<AstNode, SyntaxError>)
        requires
            old(self).wf(),
        ensures
            final(self).wf(),
            final(self).toks() == old(self).toks(),
            ({
                let res = spec_parse_declaration(old(self).toks(), old(self).pos());
                match r {
                    Ok(node) => res matches Ok(p) && node.deep_view() == p.0 && final(self).pos() == p.1,
                    Err(e) => res matches Err(em) && e@ == em,
                }
            }),
    {
        match self.current_token() {
            Some(Token::Function) => self.parse_function(),
            Some(Token::Let) => self.parse_let_statement(),
            other => {
                let found = duplicate_found(other);
                Err(SyntaxError { expected: Expected::Declaration, found })
            },
        }
    }

    /// Parses a function declaration; the cursor is on the `fn` keyword.
    fn parse_function(&mut self) -> (r: Result<AstNode, SyntaxError>)
        requires
            old(self).wf(),
            old(self).pos() < old(self).toks().len(),
        ensures
            final(self).wf(),
            final(self).toks() == old(self).toks(),
            ({
                let res = spec_parse_function(old(self).toks(), old(self).pos());
                match r {
                    Ok(node) => res matches Ok(p) && node.deep_view() == p.0 && final(self).pos() == p.1,
                    Err(e) => res matches Err(em) && e@ == em,
                }
            }),
    {
        self.advance();  // consume 'fn'
        let name = match self.current_token() {
            Some(Token::Identifier(id)) => {
                let name = id.clone();
                self.advance();
                name
            },
            other => {
                let found = duplicate_found(other);
                return Err(SyntaxError { expected: Expected::FunctionName, found });
            },
        };
        match self.current_token() {
            Some(Token::LeftParen) => {
                self.advance();
            },
            other => {
                let found = duplicate_found(other);
                return Err(SyntaxError { expected: Expected::LeftParen, found });
            },
        }
        let params = match self.parse_params() {
            Ok(ps) => ps,
            Err(e) => {
                return Err(e);
            },
        };
        match self.current_token() {
            Some(Token::Colon) => {
                self.advance();
            },
            other => {
                let found = duplicate_found(other);
                return Err(SyntaxError { expected: Expected::ColonAfterParameters, found });
            },
        }
        let _return_type = match self.parse_type() {
            Ok(t) => t,
            Err(e) => {
                return Err(e);
            },
        };
        match self.current_token() {
            Some(Token::LeftBrace) => {
                self.advance();
            },
            other => {
                let found = duplicate_found(other);
                return Err(SyntaxError { expected: Expected::LeftBrace, found });
            },
        }
        let body = match self.parse_block() {
            Ok(b) => b,
            Err(e) => {
                return Err(e);
            },
        };
        Ok(AstNode::Function { name, params, body: Box::new(body) })
    }

    /// Parses the parameter list after `(`, consuming the closing `)`.
    fn parse_params(&mut self) -> (r: Result<Vec<(String, String)>, SyntaxError>)
        requires
            old(self).wf(),
        ensures
            final(self).wf(),
            final(self).toks() == old(self).toks(),
            ({
                let res = spec_parse_params_rest(old(self).toks(), old(self).pos(), Seq::empty());
                match r {
                    Ok(ps) => res matches Ok(p) && ps.deep_view() == p.0 && final(self).pos() == p.1,
                    Err(e) => res matches Err(em) && e@ == em,
                }
            }),
    {
        let ghost toks = self.toks();
        let ghost target = spec_parse_params_rest(toks, self.pos(), Seq::empty());
        let mut params: Vec<(String, String)> = Vec::new();
        proof {
            assert(params.deep_view() =~= Seq::<(Seq<char>, Seq<char>)>::empty());
        }
        loop
            invariant
                self.wf(),
                self.toks() == toks,
                toks == old(self).toks(),
                target == spec_parse_params_rest(old(self).toks(), old(self).pos(), Seq::empty()),
                spec_parse_params_rest(toks, self.pos(), params.deep_view()) == target,
            decreases toks.len() - self.pos(),
        {
            match self.current_token() {
                Some(Token::RightParen) => {
                    self.advance();
                    return Ok(params);
                },
                Some(Token::Identifier(p)) => {
                    let pname = p.clone();
                    self.advance();
                    match self.current_token() {
                        Some(Token::Colon) => {
                            self.advance();
                        },
                        other => {
                            let found = duplicate_found(other);
                            return Err(
                                SyntaxError { expected: Expected::ColonAfterParameterName, found },
                            );
                        },
                    }
                    let ptype: String = match self.current_token() {
                        Some(Token::Identifier(t)) => {
                            let tn = t.clone();
                            self.advance();
                            tn
                        },
                        Some(Token::TypeInt) => {
                            self.advance();
                            "i32".to_owned()
                        },
                        Some(Token::TypeFloat) => {
                            self.advance();
                            "f64".to_owned()
                        },
                        Some(Token::TypeBool) => {
                            self.advance();
                            "bool".to_owned()
                        },
                        Some(Token::TypeString) => {
                            self.advance();
                            "string".to_owned()
                        },
                        other => {
                            let found = duplicate_found(other);
                            return Err(SyntaxError { expected: Expected::TypeName, found });
                        },
                    };
                    let ghost params_before = params.deep_view();
                    let ghost pair = (pname@, ptype@);
                    params.push((pname, ptype));
                    proof {
                        assert(params.deep_view() =~= params_before.push(pair));
                    }
                    match self.current_token() {
                        Some(Token::Comma) => {
                            self.advance();
                        },
                        _ => {},
                    }
                },
                other => {
                    let found = duplicate_found(other);
                    return Err(SyntaxError { expected: Expected::ParameterName, found });
                },
            }
        }
    }

    /// Parses the return type of a function: a type keyword.
    fn parse_type(&mut self) -> (r: Result<Type, SyntaxError>)
        requires
            old(self).wf(),
        ensures
            final(self).wf(),
            final(self).toks() == old(self).toks(),
            ({
                let res = spec_parse_type(old(self).toks(), old(self).pos());
                match r {
                    Ok(t) => res matches Ok(p) && t.deep_view() == p.0 && final(self).pos() == p.1,
                    Err(e) => res matches Err(em) && e@ == em,
                }
            }),
    {
        match self.current_token() {
            Some(Token::TypeInt) => {
                self.advance();
                Ok(Type::Int)
            },
            Some(Token::TypeFloat) => {
                self.advance();
                Ok(Type::Float)
            },
            other => {
                let found = duplicate_found(other);
                Err(SyntaxError { expected: Expected::ReturnType, found })
            },
        }
    }

    /// Parses the statements of a function body, consuming the closing
    /// `}`; only `return` statements are permitted.
    fn parse_block(&mut self) -> (r: Result<AstNode, SyntaxError>)
        requires
            old(self).wf(),
        ensures
            final(self).wf(),
            final(self).toks() == old(self).toks(),
            ({
                let res = spec_parse_block_rest(old(self).toks(), old(self).pos(), Seq::empty());
                match r {
                    Ok(node) => res matches Ok(p) && node.deep_view() == p.0 && final(self).pos() == p.1,
                    Err(e) => res matches Err(em) && e@ == em,
                }
            }),
    {
        let ghost toks = self.toks();
        let ghost target = spec_parse_block_rest(toks, self.pos(), Seq::empty());
        let mut statements: Vec<AstNode> = Vec::new();
        loop
            invariant
                self.wf(),
                self.toks() == toks,
                toks == old(self).toks(),
                target == spec_parse_block_rest(old(self).toks(), old(self).pos(), Seq::empty()),
                spec_parse_block_rest(toks, self.pos(), deep_view_seq(statements@)) == target,
            decreases toks.len() - self.pos(),
        {
            match self.current_token() {
                Some(Token::RightBrace) => {
                    self.advance();
                    return Ok(AstNode::Program(statements));
                },
                Some(Token::Return) => {
                    proof {
                        lemma_parse_expression_bounds(toks, self.pos() + 1);
                    }
                    self.advance();
                    let expr = match self.parse_expression() {
                        Ok(v) => v,
                        Err(e) => {
                            return Err(e);
                        },
                    };
                    match self.current_token() {
                        Some(Token::Semicolon) => {
                            self.advance();
                        },
                        other => {
                            let found = duplicate_found(other);
                            return Err(SyntaxError { expected: Expected::Semicolon, found });
                        },
                    }
                    let stmt = AstNode::Return(Box::new(expr));
                    proof {
                        lemma_deep_view_seq_push(statements@, stmt);
                    }
                    statements.push(stmt);
                },
                other => {
                    let found = duplicate_found(other);
                    return Err(SyntaxError { expected: Expected::ReturnStatement, found });
                },
            }
        }
    }

    /// Parses one expression.
    fn parse_expression(&mut self) -> (r: Result<AstNode, SyntaxError>)
        requires
            old(self).wf(),
        ensures
            final(self).wf(),
            final(self).toks() == old(self).toks(),
            ({
                let res = spec_parse_expression(old(self).toks(), old(self).pos());
                match r {
                    Ok(node) => res matches Ok(p) && node.deep_view() == p.0 && final(self).pos() == p.1,
                    Err(e) => res matches Err(em) && e@ == em,
                }
            }),
    {
        self.parse_binary_expression()
    }

    /// Parses a left-associative chain of primaries joined by binary
    /// operators, all in a single precedence tier.
    fn parse_binary_expression(&mut self) -> (r: Result<AstNode, SyntaxError>)
        requires
            old(self).wf(),
        ensures
            final(self).wf(),
            final(self).toks() == old(self).toks(),
            ({
                let res = spec_parse_expression(old(self).toks(), old(self).pos());
                match r {
                    Ok(node) => res matches Ok(p) && node.deep_view() == p.0 && final(self).pos() == p.1,
                    Err(e) => res matches Err(em) && e@ == em,
                }
            }),
    {
        let ghost toks = self.toks();
        let mut left = match self.parse_primary() {
            Ok(n) => n,
            Err(e) => {
                return Err(e);
            },
        };
        let ghost target = spec_parse_binary_rest(toks, self.pos(), left.deep_view());
        let mut op_opt = self.current_binop();
        while op_opt.is_some()
            invariant
                self.wf(),
                self.toks() == toks,
                toks == old(self).toks(),
                op_opt == (match peek(toks, self.pos()) {
                    Some(l) => spec_binop_of(l),
                    None => None::<BinaryOperator>,
                }),
                spec_parse_binary_rest(toks, self.pos(), left.deep_view()) == target,
                spec_parse_expression(old(self).toks(), old(self).pos()) == target,
            decreases toks.len() - self.pos(),
        {
            let op = op_opt.unwrap();
            self.advance();
            let right = match self.parse_primary() {
                Ok(n) => n,
                Err(e) => {
                    return Err(e);
                },
            };
            left = AstNode::BinaryOp { op, left: Box::new(left), right: Box::new(right) };
            op_opt = self.current_binop();
        }
        Ok(left)
    }

    /// Parses a primary expression: a literal or an identifier.
    fn parse_primary(&mut self) -> (r: Result<AstNode, SyntaxError>)
        requires
            old(self).wf(),
        ensures
            final(self).wf(),
            final(self).toks() == old(self).toks(),
            ({
                let res = spec_parse_primary(old(self).toks(), old(self).pos());
                match r {
                    Ok(node) => res matches Ok(p) && node.deep_view() == p.0 && final(self).pos() == p.1,
                    Err(e) => res matches Err(em) && e@ == em,
                }
            }),
    {
        match self.current_token() {
            Some(Token::Number(n)) => {
                let num: i64 = *n;
                self.advance();
                Ok(AstNode::Number(num))
            },
            Some(Token::StringLiteral) => {
                self.advance();
                Ok(AstNode::StringLiteral("string literal".to_owned()))
            },
            Some(Token::True) => {
                self.advance();
                Ok(AstNode::Boolean(true))
            },
            Some(Token::False) => {
                self.advance();
                Ok(AstNode::Boolean(false))
            },
            Some(Token::Identifier(name)) => {
                let id = name.clone();
                self.advance();
                Ok(AstNode::Identifier(id))
            },
            other => {
                let found = duplicate_found(other);
                Err(SyntaxError { expected: Expected::Expression, found })
            },
        }
    }

    /// Parses a let statement; the cursor is on the `let` keyword.
    fn parse_let_statement(&mut self) -> (r: Result<AstNode, SyntaxError>)
        requires
            old(self).wf(),
            old(self).pos() < old(self).toks().len(),
        ensures
            final(self).wf(),
            final(self).toks() == old(self).toks(),
            ({
                let res = spec_parse_let(old(self).toks(), old(self).pos());
                match r {
                    Ok(node) => res matches Ok(p) && node.deep_view() == p.0 && final(self).pos() == p.1,
                    Err(e) => res matches Err(em) && e@ == em,
                }
            }),
    {
        self.advance();  // consume 'let'
        let name = match self.current_token() {
            Some(Token::Identifier(id)) => {
                let name = id.clone();
                self.advance();
                name
            },
            other => {
                let found = duplicate_found(other);
                return Err(SyntaxError { expected: Expected::VariableName, found });
            },
        };
        let type_annotation: Option<String> = match self.current_token() {
            Some(Token::Colon) => {
                self.advance();
                match self.current_token() {
                    Some(Token::Identifier(t)) => {
                        let tn = t.clone();
                        self.advance();
                        Some(tn)
                    },
                    Some(Token::TypeInt) => {
                        self.advance();
                        Some("i32".to_owned())
                    },
                    Some(Token::TypeFloat) => {
                        self.advance();
                        Some("f64".to_owned())
                    },
                    Some(Token::TypeBool) => {
                        self.advance();
                        Some("bool".to_owned())
                    },
                    Some(Token::TypeString) => {
                        self.advance();
                        Some("string".to_owned())
                    },
                    other => {
                        let found = duplicate_found(other);
                        return Err(SyntaxError { expected: Expected::TypeName, found });
                    },
                }
            },
            _ => None,
        };
        match self.current_token() {
            Some(Token::Equals) => {
                self.advance();
            },
            other => {
                let found = duplicate_found(other);
                return Err(SyntaxError { expected: Expected::Equals, found });
            },
        }
        let value = match self.parse_expression() {
            Ok(v) => v,
            Err(e) => {
                return Err(e);
            },
        };
        match self.current_token() {
            Some(Token::Semicolon) => {
                self.advance();
            },
            other => {
                let found = duplicate_found(other);
                return Err(SyntaxError { expected: Expected::Semicolon, found });
            },
        }
        Ok(AstNode::Let { name, type_annotation, value: Box::new(value) })
    }
}

} // verus!
