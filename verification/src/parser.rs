//! The parser: recursive descent over the precedence ladder
//! equality, comparison, additive, multiplicative, unary prefix, primary.
//! All binary operators are left-associative; parsing stops at the first
//! error. The specification parser `sp_*` family defines exactly which
//! tree every token stream denotes; the executable `Parser` is proved to
//! compute it.

use vstd::prelude::*;
use crate::ast::{BinaryOp, Expr, ExprV, Stmt, StmtV, UnaryOp};
use crate::token::{Token, TokenType, TokenTypeV, TokenV};

verus! {

#[derive(Clone, Copy, PartialEq, Eq, Structural, Debug)]
pub enum ParseErrorKind {
    ExpectedSemicolonAfterExpression,
    ExpectedSemicolonAfterAssignment,
    ExpectedLet,
    ExpectedIdentifierAfterLet,
    ExpectedAssignAfterName,
    ExpectedSemicolonAfterLet,
    ExpectedIf,
    ExpectedLeftParenAfterIf,
    ExpectedRightParenAfterIf,
    ExpectedWhile,
    ExpectedLeftParenAfterWhile,
    ExpectedRightParenAfterWhile,
    ExpectedPrint,
    ExpectedLeftParenAfterPrint,
    ExpectedRightParenAfterPrint,
    ExpectedSemicolonAfterPrint,
    ExpectedLeftBrace,
    ExpectedRightBrace,
    ExpectedRightParenAfterExpression,
    UnexpectedToken,
}

#[derive(Clone, Copy, PartialEq, Eq, Structural, Debug)]
pub struct ParseError {
    pub kind: ParseErrorKind,
    pub line: usize,
}

/// The token the parser sees at `pos`: past the end it sees `Eof` on line 0.
pub open spec fn tok_at(toks: Seq<TokenV>, pos: int) -> TokenV {
    if 0 <= pos < toks.len() {
        toks[pos]
    } else {
        TokenV { kind: TokenTypeV::Eof, line: 0 }
    }
}

/// How many tokens remain at `pos`; the measure the descent shrinks.
pub open spec fn rem(toks: Seq<TokenV>, pos: int) -> int {
    if pos <= toks.len() {
        toks.len() - pos
    } else {
        0
    }
}

/// A parse that did not advance; the descent never produces it, and the
/// specification returns it only on branches the executable parser proves
/// unreachable.
pub open spec fn stuck() -> ParseError {
    ParseError { kind: ParseErrorKind::UnexpectedToken, line: 0 }
}

pub open spec fn sp_primary(toks: Seq<TokenV>, pos: int) -> Result<(ExprV, int), ParseError>
    decreases rem(toks, pos), 6int,
{
    let t = tok_at(toks, pos);
    match t.kind {
        TokenTypeV::Number(m) => Ok((ExprV::Number(m), pos + 1)),
        TokenTypeV::Str(s) => Ok((ExprV::Str(s), pos + 1)),
        TokenTypeV::Identifier(n) => Ok((ExprV::Identifier(n), pos + 1)),
        TokenTypeV::LeftParen => match sp_expression(toks, pos + 1) {
            Ok((e, p2)) => {
                if tok_at(toks, p2).kind is RightParen {
                    Ok((e, p2 + 1))
                } else {
                    Err(
                        ParseError {
                            kind: ParseErrorKind::ExpectedRightParenAfterExpression,
                            line: tok_at(toks, p2).line,
                        },
                    )
                }
            },
            Err(e) => Err(e),
        },
        _ => Err(ParseError { kind: ParseErrorKind::UnexpectedToken, line: t.line }),
    }
}

pub open spec fn sp_unary(toks: Seq<TokenV>, pos: int) -> Result<(ExprV, int), ParseError>
    decreases rem(toks, pos), 7int,
{
    if tok_at(toks, pos).kind is Minus {
        match sp_unary(toks, pos + 1) {
            Ok((e, p2)) => Ok(
                (ExprV::Unary { operator: UnaryOp::Minus, operand: Box::new(e) }, p2),
            ),
            Err(e) => Err(e),
        }
    } else {
        sp_primary(toks, pos)
    }
}

/// The multiplicative operator at `pos`, if any.
pub open spec fn factor_op(k: TokenTypeV) -> Option<BinaryOp> {
    match k {
        TokenTypeV::Multiply => Some(BinaryOp::Multiply),
        TokenTypeV::Divide => Some(BinaryOp::Divide),
        _ => None,
    }
}

pub open spec fn term_op(k: TokenTypeV) -> Option<BinaryOp> {
    match k {
        TokenTypeV::Plus => Some(BinaryOp::Add),
        TokenTypeV::Minus => Some(BinaryOp::Subtract),
        _ => None,
    }
}

pub open spec fn comparison_op(k: TokenTypeV) -> Option<BinaryOp> {
    match k {
        TokenTypeV::Greater => Some(BinaryOp::Greater),
        TokenTypeV::GreaterEqual => Some(BinaryOp::GreaterEqual),
        TokenTypeV::Less => Some(BinaryOp::Less),
        TokenTypeV::LessEqual => Some(BinaryOp::LessEqual),
        _ => None,
    }
}

pub open spec fn equality_op(k: TokenTypeV) -> Option<BinaryOp> {
    match k {
        TokenTypeV::Equal => Some(BinaryOp::Equal),
        TokenTypeV::NotEqual => Some(BinaryOp::NotEqual),
        _ => None,
    }
}

pub open spec fn sp_factor(toks: Seq<TokenV>, pos: int) -> Result<(ExprV, int), ParseError>
    decreases rem(toks, pos), 8int,
{
    match sp_unary(toks, pos) {
        Ok((first, p)) => {
            if pos < p <= toks.len() {
                sp_factor_rest(toks, p, first)
            } else {
                Err(stuck())
            }
        },
        Err(e) => Err(e),
    }
}

/// Greedy left fold: as long as a multiplicative operator follows, parse
/// one more operand and attach it to the left.
pub open spec fn sp_factor_rest(toks: Seq<TokenV>, pos: int, left: ExprV) -> Result<
    (ExprV, int),
    ParseError,
>
    decreases rem(toks, pos), 9int,
{
    match factor_op(tok_at(toks, pos).kind) {
        Some(op) => match sp_unary(toks, pos + 1) {
            Ok((right, p2)) => {
                let folded = ExprV::Binary {
                    left: Box::new(left),
                    operator: op,
                    right: Box::new(right),
                };
                if pos < p2 <= toks.len() {
                    sp_factor_rest(toks, p2, folded)
                } else {
                    Err(stuck())
                }
            },
            Err(e) => Err(e),
        },
        None => Ok((left, pos)),
    }
}

pub open spec fn sp_term(toks: Seq<TokenV>, pos: int) -> Result<(ExprV, int), ParseError>
    decreases rem(toks, pos), 10int,
{
    match sp_factor(toks, pos) {
        Ok((first, p)) => {
            if pos < p <= toks.len() {
                sp_term_rest(toks, p, first)
            } else {
                Err(stuck())
            }
        },
        Err(e) => Err(e),
    }
}

pub open spec fn sp_term_rest(toks: Seq<TokenV>, pos: int, left: ExprV) -> Result<
    (ExprV, int),
    ParseError,
>
    decreases rem(toks, pos), 11int,
{
    match term_op(tok_at(toks, pos).kind) {
        Some(op) => match sp_factor(toks, pos + 1) {
            Ok((right, p2)) => {
                let folded = ExprV::Binary {
                    left: Box::new(left),
                    operator: op,
                    right: Box::new(right),
                };
                if pos < p2 <= toks.len() {
                    sp_term_rest(toks, p2, folded)
                } else {
                    Err(stuck())
                }
            },
            Err(e) => Err(e),
        },
        None => Ok((left, pos)),
    }
}

pub open spec fn sp_comparison(toks: Seq<TokenV>, pos: int) -> Result<(ExprV, int), ParseError>
    decreases rem(toks, pos), 12int,
{
    match sp_term(toks, pos) {
        Ok((first, p)) => {
            if pos < p <= toks.len() {
                sp_comparison_rest(toks, p, first)
            } else {
                Err(stuck())
            }
        },
        Err(e) => Err(e),
    }
}

pub open spec fn sp_comparison_rest(toks: Seq<TokenV>, pos: int, left: ExprV) -> Result<
    (ExprV, int),
    ParseError,
>
    decreases rem(toks, pos), 13int,
{
    match comparison_op(tok_at(toks, pos).kind) {
        Some(op) => match sp_term(toks, pos + 1) {
            Ok((right, p2)) => {
                let folded = ExprV::Binary {
                    left: Box::new(left),
                    operator: op,
                    right: Box::new(right),
                };
                if pos < p2 <= toks.len() {
                    sp_comparison_rest(toks, p2, folded)
                } else {
                    Err(stuck())
                }
            },
            Err(e) => Err(e),
        },
        None => Ok((left, pos)),
    }
}

pub open spec fn sp_equality(toks: Seq<TokenV>, pos: int) -> Result<(ExprV, int), ParseError>
    decreases rem(toks, pos), 14int,
{
    match sp_comparison(toks, pos) {
        Ok((first, p)) => {
            if pos < p <= toks.len() {
                sp_equality_rest(toks, p, first)
            } else {
                Err(stuck())
            }
        },
        Err(e) => Err(e),
    }
}

pub open spec fn sp_equality_rest(toks: Seq<TokenV>, pos: int, left: ExprV) -> Result<
    (ExprV, int),
    ParseError,
>
    decreases rem(toks, pos), 15int,
{
    match equality_op(tok_at(toks, pos).kind) {
        Some(op) => match sp_comparison(toks, pos + 1) {
            Ok((right, p2)) => {
                let folded = ExprV::Binary {
                    left: Box::new(left),
                    operator: op,
                    right: Box::new(right),
                };
                if pos < p2 <= toks.len() {
                    sp_equality_rest(toks, p2, folded)
                } else {
                    Err(stuck())
                }
            },
            Err(e) => Err(e),
        },
        None => Ok((left, pos)),
    }
}

pub open spec fn sp_expression(toks: Seq<TokenV>, pos: int) -> Result<(ExprV, int), ParseError>
    decreases rem(toks, pos), 16int,
{
    sp_equality(toks, pos)
}

pub open spec fn sp_expr_statement(toks: Seq<TokenV>, pos: int) -> Result<
    (StmtV, int),
    ParseError,
>
    decreases rem(toks, pos), 17int,
{
    match sp_expression(toks, pos) {
        Ok((e, p2)) => {
            if tok_at(toks, p2).kind is Semicolon {
                Ok((StmtV::Expression(e), p2 + 1))
            } else {
                Err(
                    ParseError {
                        kind: ParseErrorKind::ExpectedSemicolonAfterExpression,
                        line: tok_at(toks, p2).line,
                    },
                )
            }
        },
        Err(e) => Err(e),
    }
}

pub open spec fn sp_let_statement(toks: Seq<TokenV>, pos: int) -> Result<(StmtV, int), ParseError>
    decreases rem(toks, pos), 17int,
{
    if !(tok_at(toks, pos).kind is Let) {
        Err(ParseError { kind: ParseErrorKind::ExpectedLet, line: tok_at(toks, pos).line })
    } else {
        match tok_at(toks, pos + 1).kind {
            TokenTypeV::Identifier(name) => {
                if !(tok_at(toks, pos + 2).kind is Assign) {
                    Err(
                        ParseError {
                            kind: ParseErrorKind::ExpectedAssignAfterName,
                            line: tok_at(toks, pos + 2).line,
                        },
                    )
                } else {
                    match sp_expression(toks, pos + 3) {
                        Ok((value, p2)) => {
                            if tok_at(toks, p2).kind is Semicolon {
                                Ok((StmtV::Let { name, value }, p2 + 1))
                            } else {
                                Err(
                                    ParseError {
                                        kind: ParseErrorKind::ExpectedSemicolonAfterLet,
                                        line: tok_at(toks, p2).line,
                                    },
                                )
                            }
                        },
                        Err(e) => Err(e),
                    }
                }
            },
            _ => Err(
                ParseError {
                    kind: ParseErrorKind::ExpectedIdentifierAfterLet,
                    line: tok_at(toks, pos + 1).line,
                },
            ),
        }
    }
}

/// The head of an `if` or the condition it guards: the keyword, the
/// parenthesized condition, through the closing parenthesis.
pub open spec fn sp_if_header(toks: Seq<TokenV>, pos: int) -> Result<(ExprV, int), ParseError>
    decreases rem(toks, pos), 16int,
{
    if !(tok_at(toks, pos).kind is If) {
        Err(ParseError { kind: ParseErrorKind::ExpectedIf, line: tok_at(toks, pos).line })
    } else if !(tok_at(toks, pos + 1).kind is LeftParen) {
        Err(
            ParseError {
                kind: ParseErrorKind::ExpectedLeftParenAfterIf,
                line: tok_at(toks, pos + 1).line,
            },
        )
    } else {
        match sp_expression(toks, pos + 2) {
            Ok((condition, p2)) => {
                if tok_at(toks, p2).kind is RightParen {
                    Ok((condition, p2 + 1))
                } else {
                    Err(
                        ParseError {
                            kind: ParseErrorKind::ExpectedRightParenAfterIf,
                            line: tok_at(toks, p2).line,
                        },
                    )
                }
            },
            Err(e) => Err(e),
        }
    }
}

pub open spec fn sp_if_statement(toks: Seq<TokenV>, pos: int) -> Result<(StmtV, int), ParseError>
    decreases rem(toks, pos), 17int,
{
    match sp_if_header(toks, pos) {
        Ok((condition, p3)) => {
            if pos < p3 <= toks.len() {
                match sp_statement(toks, p3) {
                    Ok((then_s, p4)) => {
                        if tok_at(toks, p4).kind is Else {
                            if pos < p4 + 1 <= toks.len() {
                                match sp_statement(toks, p4 + 1) {
                                    Ok((else_s, p5)) => Ok(
                                        (
                                            StmtV::If {
                                                condition,
                                                then_stmt: Box::new(then_s),
                                                else_stmt: Some(Box::new(else_s)),
                                            },
                                            p5,
                                        ),
                                    ),
                                    Err(e) => Err(e),
                                }
                            } else {
                                Err(stuck())
                            }
                        } else {
                            Ok(
                                (
                                    StmtV::If {
                                        condition,
                                        then_stmt: Box::new(then_s),
                                        else_stmt: None,
                                    },
                                    p4,
                                ),
                            )
                        }
                    },
                    Err(e) => Err(e),
                }
            } else {
                Err(stuck())
            }
        },
        Err(e) => Err(e),
    }
}

pub open spec fn sp_while_statement(toks: Seq<TokenV>, pos: int) -> Result<(StmtV, int), ParseError>
    decreases rem(toks, pos), 17int,
{
    if !(tok_at(toks, pos).kind is While) {
        Err(ParseError { kind: ParseErrorKind::ExpectedWhile, line: tok_at(toks, pos).line })
    } else if !(tok_at(toks, pos + 1).kind is LeftParen) {
        Err(
            ParseError {
                kind: ParseErrorKind::ExpectedLeftParenAfterWhile,
                line: tok_at(toks, pos + 1).line,
            },
        )
    } else {
        match sp_expression(toks, pos + 2) {
            Ok((condition, p2)) => {
                if !(tok_at(toks, p2).kind is RightParen) {
                    Err(
                        ParseError {
                            kind: ParseErrorKind::ExpectedRightParenAfterWhile,
                            line: tok_at(toks, p2).line,
                        },
                    )
                } else if pos < p2 + 1 <= toks.len() {
                    match sp_statement(toks, p2 + 1) {
                        Ok((body, p3)) => Ok(
                            (StmtV::While { condition, body: Box::new(body) }, p3),
                        ),
                        Err(e) => Err(e),
                    }
                } else {
                    Err(stuck())
                }
            },
            Err(e) => Err(e),
        }
    }
}

pub open spec fn sp_print_statement(toks: Seq<TokenV>, pos: int) -> Result<(StmtV, int), ParseError>
    decreases rem(toks, pos), 17int,
{
    if !(tok_at(toks, pos).kind is Print) {
        Err(ParseError { kind: ParseErrorKind::ExpectedPrint, line: tok_at(toks, pos).line })
    } else if !(tok_at(toks, pos + 1).kind is LeftParen) {
        Err(
            ParseError {
                kind: ParseErrorKind::ExpectedLeftParenAfterPrint,
                line: tok_at(toks, pos + 1).line,
            },
        )
    } else {
        match sp_expression(toks, pos + 2) {
            Ok((e, p2)) => {
                if !(tok_at(toks, p2).kind is RightParen) {
                    Err(
                        ParseError {
                            kind: ParseErrorKind::ExpectedRightParenAfterPrint,
                            line: tok_at(toks, p2).line,
                        },
                    )
                } else if !(tok_at(toks, p2 + 1).kind is Semicolon) {
                    Err(
                        ParseError {
                            kind: ParseErrorKind::ExpectedSemicolonAfterPrint,
                            line: tok_at(toks, p2 + 1).line,
                        },
                    )
                } else {
                    Ok((StmtV::Print(e), p2 + 2))
                }
            },
            Err(e) => Err(e),
        }
    }
}

pub open spec fn sp_block_statement(toks: Seq<TokenV>, pos: int) -> Result<(StmtV, int), ParseError>
    decreases rem(toks, pos), 17int,
{
    if !(tok_at(toks, pos).kind is LeftBrace) {
        Err(ParseError { kind: ParseErrorKind::ExpectedLeftBrace, line: tok_at(toks, pos).line })
    } else {
        match sp_block_rest(toks, pos + 1) {
            Ok((stmts, p2)) => {
                if tok_at(toks, p2).kind is RightBrace {
                    Ok((StmtV::Block(stmts), p2 + 1))
                } else {
                    Err(
                        ParseError {
                            kind: ParseErrorKind::ExpectedRightBrace,
                            line: tok_at(toks, p2).line,
                        },
                    )
                }
            },
            Err(e) => Err(e),
        }
    }
}

/// The statements of a block body, up to the closing brace or the end of
/// input (the brace itself is consumed by `sp_block_statement`).
pub open spec fn sp_block_rest(toks: Seq<TokenV>, pos: int) -> Result<(Seq<StmtV>, int), ParseError>
    decreases rem(toks, pos), 19int,
{
    let k = tok_at(toks, pos).kind;
    if k is RightBrace || k is Eof {
        Ok((Seq::empty(), pos))
    } else {
        match sp_statement(toks, pos) {
            Ok((s, p2)) => {
                if pos < p2 <= toks.len() {
                    match sp_block_rest(toks, p2) {
                        Ok((rest, p3)) => Ok((seq![s] + rest, p3)),
                        Err(e) => Err(e),
                    }
                } else {
                    Err(stuck())
                }
            },
            Err(e) => Err(e),
        }
    }
}

/// An assignment statement: the identifier at `pos`, the `=` after it, the
/// value, the semicolon.
pub open spec fn sp_assignment_statement(toks: Seq<TokenV>, pos: int) -> Result<
    (StmtV, int),
    ParseError,
>
    decreases rem(toks, pos), 17int,
{
    match tok_at(toks, pos).kind {
        TokenTypeV::Identifier(name) => match sp_expression(toks, pos + 2) {
            Ok((value, p2)) => {
                if tok_at(toks, p2).kind is Semicolon {
                    Ok((StmtV::Assignment { name, value }, p2 + 1))
                } else {
                    Err(
                        ParseError {
                            kind: ParseErrorKind::ExpectedSemicolonAfterAssignment,
                            line: tok_at(toks, p2).line,
                        },
                    )
                }
            },
            Err(e) => Err(e),
        },
        _ => Err(stuck()),
    }
}

/// Statement dispatch on the current token; an identifier followed by `=`
/// is an assignment, any other expression start is an expression statement.
pub open spec fn sp_statement(toks: Seq<TokenV>, pos: int) -> Result<(StmtV, int), ParseError>
    decreases rem(toks, pos), 18int,
{
    match tok_at(toks, pos).kind {
        TokenTypeV::Let => sp_let_statement(toks, pos),
        TokenTypeV::If => sp_if_statement(toks, pos),
        TokenTypeV::While => sp_while_statement(toks, pos),
        TokenTypeV::Print => sp_print_statement(toks, pos),
        TokenTypeV::LeftBrace => sp_block_statement(toks, pos),
        TokenTypeV::Identifier(name) => {
            if tok_at(toks, pos + 1).kind is Assign {
                sp_assignment_statement(toks, pos)
            } else {
                sp_expr_statement(toks, pos)
            }
        },
        _ => sp_expr_statement(toks, pos),
    }
}

/// The whole program: statements until the `Eof` token.
pub open spec fn sp_parse(toks: Seq<TokenV>, pos: int) -> Result<Seq<StmtV>, ParseError>
    decreases rem(toks, pos), 20int,
{
    if tok_at(toks, pos).kind is Eof {
        Ok(Seq::empty())
    } else {
        match sp_statement(toks, pos) {
            Ok((s, p2)) => {
                if pos < p2 <= toks.len() {
                    match sp_parse(toks, p2) {
                        Ok(rest) => Ok(seq![s] + rest),
                        Err(e) => Err(e),
                    }
                } else {
                    Err(stuck())
                }
            },
            Err(e) => Err(e),
        }
    }
}


/// The parse a statement-level function reports, paired with the cursor it
/// leaves: the form every statement contract equates with its
/// specification function.
pub open spec fn stmt_res(r: Result<Stmt, ParseError>, p: int) -> Result<(StmtV, int), ParseError> {
    match r {
        Ok(s) => Ok((s@, p)),
        Err(pe) => Err(pe),
    }
}

fn stuck_exec() -> (r: ParseError)
    ensures
        r == stuck(),
{
    ParseError { kind: ParseErrorKind::UnexpectedToken, line: 0 }
}

pub struct Parser {
    pub tokens: Vec<Token>,
    pub current: usize,
}

impl Parser {
    /// The token stream's mathematical image, which all contracts speak of.
    pub open spec fn toks(&self) -> Seq<TokenV> {
        self.tokens.deep_view()
    }

    pub open spec fn wf(&self) -> bool {
        self.current <= self.tokens@.len()
    }

    pub fn new(tokens: Vec<Token>) -> (r: Parser)
        ensures
            r.tokens == tokens,
            r.current == 0,
            r.wf(),
    {
        Parser { tokens, current: 0 }
    }

    /// The line of the current token; past the end, line 0.
    pub fn peek_line(&self) -> (r: usize)
        requires
            self.wf(),
        ensures
            r == tok_at(self.toks(), self.current as int).line,
    {
        if self.current < self.tokens.len() {
            self.tokens[self.current].line
        } else {
            0
        }
    }

    pub fn advance(&mut self)
        requires
            old(self).wf(),
        ensures
            final(self).tokens == old(self).tokens,
            final(self).wf(),
            final(self).current == (if old(self).current < old(self).tokens@.len() {
                old(self).current + 1
            } else {
                old(self).current as int
            }),
    {
        if self.current < self.tokens.len() {
            self.current = self.current + 1;
        }
    }

    fn primary(&mut self) -> (r: Result<Expr, ParseError>)
        requires
            old(self).wf(),
        ensures
            final(self).tokens == old(self).tokens,
            final(self).wf(),
            old(self).current <= final(self).current,
            r is Ok ==> old(self).current < final(self).current,
            match r {
                Ok(e) => sp_primary(old(self).toks(), old(self).current as int) == Ok::<
                    (ExprV, int),
                    ParseError,
                >((e@, final(self).current as int)),
                Err(pe) => sp_primary(old(self).toks(), old(self).current as int) == Err::<
                    (ExprV, int),
                    ParseError,
                >(pe),
            },
        decreases rem(self.toks(), self.current as int), 6int,
    {
        if self.current >= self.tokens.len() {
            return Err(ParseError { kind: ParseErrorKind::UnexpectedToken, line: 0 });
        }
        match &self.tokens[self.current].token_type {
            TokenType::Number(n) => {
                let n = *n;
                self.advance();
                Ok(Expr::Number(n))
            },
            TokenType::Str(s) => {
                let s = s.clone();
                self.advance();
                Ok(Expr::Str(s))
            },
            TokenType::Identifier(name) => {
                let name = name.clone();
                self.advance();
                Ok(Expr::Identifier(name))
            },
            TokenType::LeftParen => {
                self.advance();
                let e = self.expression()?;
                if self.current < self.tokens.len() && matches!(
                    self.tokens[self.current].token_type,
                    TokenType::RightParen
                ) {
                    self.advance();
                    Ok(e)
                } else {
                    Err(
                        ParseError {
                            kind: ParseErrorKind::ExpectedRightParenAfterExpression,
                            line: self.peek_line(),
                        },
                    )
                }
            },
            _ => Err(
                ParseError {
                    kind: ParseErrorKind::UnexpectedToken,
                    line: self.tokens[self.current].line,
                },
            ),
        }
    }

    fn unary(&mut self) -> (r: Result<Expr, ParseError>)
        requires
            old(self).wf(),
        ensures
            final(self).tokens == old(self).tokens,
            final(self).wf(),
            old(self).current <= final(self).current,
            r is Ok ==> old(self).current < final(self).current,
            match r {
                Ok(e) => sp_unary(old(self).toks(), old(self).current as int) == Ok::<
                    (ExprV, int),
                    ParseError,
                >((e@, final(self).current as int)),
                Err(pe) => sp_unary(old(self).toks(), old(self).current as int) == Err::<
                    (ExprV, int),
                    ParseError,
                >(pe),
            },
        decreases rem(self.toks(), self.current as int), 7int,
    {
        if self.current < self.tokens.len() && matches!(
            self.tokens[self.current].token_type,
            TokenType::Minus
        ) {
            self.advance();
            let operand = self.unary()?;
            Ok(Expr::Unary { operator: UnaryOp::Minus, operand: Box::new(operand) })
        } else {
            self.primary()
        }
    }

    fn factor(&mut self) -> (r: Result<Expr, ParseError>)
        requires
            old(self).wf(),
        ensures
            final(self).tokens == old(self).tokens,
            final(self).wf(),
            old(self).current <= final(self).current,
            r is Ok ==> old(self).current < final(self).current,
            match r {
                Ok(e) => sp_factor(old(self).toks(), old(self).current as int) == Ok::<
                    (ExprV, int),
                    ParseError,
                >((e@, final(self).current as int)),
                Err(pe) => sp_factor(old(self).toks(), old(self).current as int) == Err::<
                    (ExprV, int),
                    ParseError,
                >(pe),
            },
        decreases rem(self.toks(), self.current as int), 8int,
    {
        let mut expr = self.unary()?;
        loop
            invariant
                self.wf(),
                self.tokens == old(self).tokens,
                old(self).current < self.current,
                ({
                    match sp_factor_rest(self.toks(), self.current as int, expr@) {
                        Ok((e2, p2)) => sp_factor(old(self).toks(), old(self).current as int)
                            == Ok::<(ExprV, int), ParseError>((e2, p2)),
                        Err(pe) => sp_factor(old(self).toks(), old(self).current as int) == Err::<
                            (ExprV, int),
                            ParseError,
                        >(pe),
                    }
                }),
            ensures
                self.wf(),
                self.tokens == old(self).tokens,
                old(self).current < self.current,
                sp_factor(old(self).toks(), old(self).current as int) == Ok::<
                    (ExprV, int),
                    ParseError,
                >((expr@, self.current as int)),
            decreases rem(self.toks(), self.current as int),
        {
            let op: BinaryOp;
            if self.current < self.tokens.len() && matches!(
                self.tokens[self.current].token_type,
                TokenType::Multiply
            ) {
                op = BinaryOp::Multiply;
            } else if self.current < self.tokens.len() && matches!(
                self.tokens[self.current].token_type,
                TokenType::Divide
            ) {
                op = BinaryOp::Divide;
            } else {
                break ;
            }
            self.advance();
            let right = self.unary()?;
            expr = Expr::Binary { left: Box::new(expr), operator: op, right: Box::new(right) };
        }
        Ok(expr)
    }

    fn term(&mut self) -> (r: Result<Expr, ParseError>)
        requires
            old(self).wf(),
        ensures
            final(self).tokens == old(self).tokens,
            final(self).wf(),
            old(self).current <= final(self).current,
            r is Ok ==> old(self).current < final(self).current,
            match r {
                Ok(e) => sp_term(old(self).toks(), old(self).current as int) == Ok::<
                    (ExprV, int),
                    ParseError,
                >((e@, final(self).current as int)),
                Err(pe) => sp_term(old(self).toks(), old(self).current as int) == Err::<
                    (ExprV, int),
                    ParseError,
                >(pe),
            },
        decreases rem(self.toks(), self.current as int), 10int,
    {
        let mut expr = self.factor()?;
        loop
            invariant
                self.wf(),
                self.tokens == old(self).tokens,
                old(self).current < self.current,
                ({
                    match sp_term_rest(self.toks(), self.current as int, expr@) {
                        Ok((e2, p2)) => sp_term(old(self).toks(), old(self).current as int) == Ok::<
                            (ExprV, int),
                            ParseError,
                        >((e2, p2)),
                        Err(pe) => sp_term(old(self).toks(), old(self).current as int) == Err::<
                            (ExprV, int),
                            ParseError,
                        >(pe),
                    }
                }),
            ensures
                self.wf(),
                self.tokens == old(self).tokens,
                old(self).current < self.current,
                sp_term(old(self).toks(), old(self).current as int) == Ok::<
                    (ExprV, int),
                    ParseError,
                >((expr@, self.current as int)),
            decreases rem(self.toks(), self.current as int),
        {
            let op: BinaryOp;
            if self.current < self.tokens.len() && matches!(
                self.tokens[self.current].token_type,
                TokenType::Minus
            ) {
                op = BinaryOp::Subtract;
            } else if self.current < self.tokens.len() && matches!(
                self.tokens[self.current].token_type,
                TokenType::Plus
            ) {
                op = BinaryOp::Add;
            } else {
                break ;
            }
            self.advance();
            let right = self.factor()?;
            expr = Expr::Binary { left: Box::new(expr), operator: op, right: Box::new(right) };
        }
        Ok(expr)
    }

    #[verifier::rlimit(60)]
    fn comparison(&mut self) -> (r: Result<Expr, ParseError>)
        requires
            old(self).wf(),
        ensures
            final(self).tokens == old(self).tokens,
            final(self).wf(),
            old(self).current <= final(self).current,
            r is Ok ==> old(self).current < final(self).current,
            match r {
                Ok(e) => sp_comparison(old(self).toks(), old(self).current as int) == Ok::<
                    (ExprV, int),
                    ParseError,
                >((e@, final(self).current as int)),
                Err(pe) => sp_comparison(old(self).toks(), old(self).current as int) == Err::<
                    (ExprV, int),
                    ParseError,
                >(pe),
            },
        decreases rem(self.toks(), self.current as int), 12int,
    {
        let mut expr = self.term()?;
        loop
            invariant
                self.wf(),
                self.tokens == old(self).tokens,
                old(self).current < self.current,
                ({
                    match sp_comparison_rest(self.toks(), self.current as int, expr@) {
                        Ok((e2, p2)) => sp_comparison(old(self).toks(), old(self).current as int)
                            == Ok::<(ExprV, int), ParseError>((e2, p2)),
                        Err(pe) => sp_comparison(old(self).toks(), old(self).current as int)
                            == Err::<(ExprV, int), ParseError>(pe),
                    }
                }),
            ensures
                self.wf(),
                self.tokens == old(self).tokens,
                old(self).current < self.current,
                sp_comparison(old(self).toks(), old(self).current as int) == Ok::<
                    (ExprV, int),
                    ParseError,
                >((expr@, self.current as int)),
            decreases rem(self.toks(), self.current as int),
        {
            let op: BinaryOp;
            if self.current < self.tokens.len() && matches!(
                self.tokens[self.current].token_type,
                TokenType::Greater
            ) {
                op = BinaryOp::Greater;
            } else if self.current < self.tokens.len() && matches!(
                self.tokens[self.current].token_type,
                TokenType::GreaterEqual
            ) {
                op = BinaryOp::GreaterEqual;
            } else if self.current < self.tokens.len() && matches!(
                self.tokens[self.current].token_type,
                TokenType::Less
            ) {
                op = BinaryOp::Less;
            } else if self.current < self.tokens.len() && matches!(
                self.tokens[self.current].token_type,
                TokenType::LessEqual
            ) {
                op = BinaryOp::LessEqual;
            } else {
                break ;
            }
            self.advance();
            let right = self.term()?;
            expr = Expr::Binary { left: Box::new(expr), operator: op, right: Box::new(right) };
        }
        Ok(expr)
    }

    #[verifier::rlimit(60)]
    fn equality(&mut self) -> (r: Result<Expr, ParseError>)
        requires
            old(self).wf(),
        ensures
            final(self).tokens == old(self).tokens,
            final(self).wf(),
            old(self).current <= final(self).current,
            r is Ok ==> old(self).current < final(self).current,
            match r {
                Ok(e) => sp_equality(old(self).toks(), old(self).current as int) == Ok::<
                    (ExprV, int),
                    ParseError,
                >((e@, final(self).current as int)),
                Err(pe) => sp_equality(old(self).toks(), old(self).current as int) == Err::<
                    (ExprV, int),
                    ParseError,
                >(pe),
            },
        decreases rem(self.toks(), self.current as int), 14int,
    {
        let mut expr = self.comparison()?;
        loop
            invariant
                self.wf(),
                self.tokens == old(self).tokens,
                old(self).current < self.current,
                ({
                    match sp_equality_rest(self.toks(), self.current as int, expr@) {
                        Ok((e2, p2)) => sp_equality(old(self).toks(), old(self).current as int)
                            == Ok::<(ExprV, int), ParseError>((e2, p2)),
                        Err(pe) => sp_equality(old(self).toks(), old(self).current as int) == Err::<
                            (ExprV, int),
                            ParseError,
                        >(pe),
                    }
                }),
            ensures
                self.wf(),
                self.tokens == old(self).tokens,
                old(self).current < self.current,
                sp_equality(old(self).toks(), old(self).current as int) == Ok::<
                    (ExprV, int),
                    ParseError,
                >((expr@, self.current as int)),
            decreases rem(self.toks(), self.current as int),
        {
            let op: BinaryOp;
            if self.current < self.tokens.len() && matches!(
                self.tokens[self.current].token_type,
                TokenType::Equal
            ) {
                op = BinaryOp::Equal;
            } else if self.current < self.tokens.len() && matches!(
                self.tokens[self.current].token_type,
                TokenType::NotEqual
            ) {
                op = BinaryOp::NotEqual;
            } else {
                break ;
            }
            self.advance();
            let right = self.comparison()?;
            expr = Expr::Binary { left: Box::new(expr), operator: op, right: Box::new(right) };
        }
        Ok(expr)
    }

    fn expression(&mut self) -> (r: Result<Expr, ParseError>)
        requires
            old(self).wf(),
        ensures
            final(self).tokens == old(self).tokens,
            final(self).wf(),
            old(self).current <= final(self).current,
            r is Ok ==> old(self).current < final(self).current,
            match r {
                Ok(e) => sp_expression(old(self).toks(), old(self).current as int) == Ok::<
                    (ExprV, int),
                    ParseError,
                >((e@, final(self).current as int)),
                Err(pe) => sp_expression(old(self).toks(), old(self).current as int) == Err::<
                    (ExprV, int),
                    ParseError,
                >(pe),
            },
        decreases rem(self.toks(), self.current as int), 16int,
    {
        self.equality()
    }
}


impl Parser {
    fn expr_statement(&mut self) -> (r: Result<Stmt, ParseError>)
        requires
            old(self).wf(),
        ensures
            final(self).tokens == old(self).tokens,
            final(self).wf(),
            old(self).current <= final(self).current,
            r is Ok ==> old(self).current < final(self).current,
            sp_expr_statement(old(self).toks(), old(self).current as int) == stmt_res(
                r,
                final(self).current as int,
            ),
        decreases rem(self.toks(), self.current as int), 17int,
    {
        let expr = self.expression()?;
        if self.current < self.tokens.len() && matches!(
            self.tokens[self.current].token_type,
            TokenType::Semicolon
        ) {
            self.advance();
            Ok(Stmt::Expression(expr))
        } else {
            Err(
                ParseError {
                    kind: ParseErrorKind::ExpectedSemicolonAfterExpression,
                    line: self.peek_line(),
                },
            )
        }
    }

    #[verifier::rlimit(100)]
    fn let_statement(&mut self) -> (r: Result<Stmt, ParseError>)
        requires
            old(self).wf(),
        ensures
            final(self).tokens == old(self).tokens,
            final(self).wf(),
            old(self).current <= final(self).current,
            r is Ok ==> old(self).current < final(self).current,
            sp_let_statement(old(self).toks(), old(self).current as int) == stmt_res(
                r,
                final(self).current as int,
            ),
        decreases rem(self.toks(), self.current as int), 17int,
    {
        if !(self.current < self.tokens.len() && matches!(
            self.tokens[self.current].token_type,
            TokenType::Let
        )) {
            return Err(ParseError { kind: ParseErrorKind::ExpectedLet, line: self.peek_line() });
        }
        self.advance();
        let name: String;
        if self.current < self.tokens.len() {
            match &self.tokens[self.current].token_type {
                TokenType::Identifier(n) => {
                    name = n.clone();
                },
                _ => {
                    return Err(
                        ParseError {
                            kind: ParseErrorKind::ExpectedIdentifierAfterLet,
                            line: self.peek_line(),
                        },
                    );
                },
            }
        } else {
            return Err(
                ParseError {
                    kind: ParseErrorKind::ExpectedIdentifierAfterLet,
                    line: self.peek_line(),
                },
            );
        }
        self.advance();
        if !(self.current < self.tokens.len() && matches!(
            self.tokens[self.current].token_type,
            TokenType::Assign
        )) {
            return Err(
                ParseError { kind: ParseErrorKind::ExpectedAssignAfterName, line: self.peek_line() },
            );
        }
        self.advance();
        let value = self.expression()?;
        if self.current < self.tokens.len() && matches!(
            self.tokens[self.current].token_type,
            TokenType::Semicolon
        ) {
            self.advance();
            Ok(Stmt::Let { name, value })
        } else {
            Err(
                ParseError {
                    kind: ParseErrorKind::ExpectedSemicolonAfterLet,
                    line: self.peek_line(),
                },
            )
        }
    }

    fn if_header(&mut self) -> (r: Result<Expr, ParseError>)
        requires
            old(self).wf(),
        ensures
            final(self).tokens == old(self).tokens,
            final(self).wf(),
            old(self).current <= final(self).current,
            r is Ok ==> old(self).current < final(self).current,
            match r {
                Ok(e) => sp_if_header(old(self).toks(), old(self).current as int) == Ok::<
                    (ExprV, int),
                    ParseError,
                >((e@, final(self).current as int)),
                Err(pe) => sp_if_header(old(self).toks(), old(self).current as int) == Err::<
                    (ExprV, int),
                    ParseError,
                >(pe),
            },
        decreases rem(self.toks(), self.current as int), 16int,
    {
        if !(self.current < self.tokens.len() && matches!(
            self.tokens[self.current].token_type,
            TokenType::If
        )) {
            return Err(ParseError { kind: ParseErrorKind::ExpectedIf, line: self.peek_line() });
        }
        self.advance();
        if !(self.current < self.tokens.len() && matches!(
            self.tokens[self.current].token_type,
            TokenType::LeftParen
        )) {
            return Err(
                ParseError {
                    kind: ParseErrorKind::ExpectedLeftParenAfterIf,
                    line: self.peek_line(),
                },
            );
        }
        self.advance();
        let condition = self.expression()?;
        if self.current < self.tokens.len() && matches!(
            self.tokens[self.current].token_type,
            TokenType::RightParen
        ) {
            self.advance();
            Ok(condition)
        } else {
            Err(
                ParseError {
                    kind: ParseErrorKind::ExpectedRightParenAfterIf,
                    line: self.peek_line(),
                },
            )
        }
    }

    #[verifier::rlimit(100)]
    fn if_statement(&mut self) -> (r: Result<Stmt, ParseError>)
        requires
            old(self).wf(),
        ensures
            final(self).tokens == old(self).tokens,
            final(self).wf(),
            old(self).current <= final(self).current,
            r is Ok ==> old(self).current < final(self).current,
            sp_if_statement(old(self).toks(), old(self).current as int) == stmt_res(
                r,
                final(self).current as int,
            ),
        decreases rem(self.toks(), self.current as int), 17int,
    {
        let condition = self.if_header()?;
        let then_stmt = self.statement()?;
        if self.current < self.tokens.len() && matches!(
            self.tokens[self.current].token_type,
            TokenType::Else
        ) {
            self.advance();
            let else_stmt = self.statement()?;
            Ok(
                Stmt::If {
                    condition,
                    then_stmt: Box::new(then_stmt),
                    else_stmt: Some(Box::new(else_stmt)),
                },
            )
        } else {
            Ok(Stmt::If { condition, then_stmt: Box::new(then_stmt), else_stmt: None })
        }
    }

    #[verifier::rlimit(100)]
    fn while_statement(&mut self) -> (r: Result<Stmt, ParseError>)
        requires
            old(self).wf(),
        ensures
            final(self).tokens == old(self).tokens,
            final(self).wf(),
            old(self).current <= final(self).current,
            r is Ok ==> old(self).current < final(self).current,
            sp_while_statement(old(self).toks(), old(self).current as int) == stmt_res(
                r,
                final(self).current as int,
            ),
        decreases rem(self.toks(), self.current as int), 17int,
    {
        if !(self.current < self.tokens.len() && matches!(
            self.tokens[self.current].token_type,
            TokenType::While
        )) {
            return Err(ParseError { kind: ParseErrorKind::ExpectedWhile, line: self.peek_line() });
        }
        self.advance();
        if !(self.current < self.tokens.len() && matches!(
            self.tokens[self.current].token_type,
            TokenType::LeftParen
        )) {
            return Err(
                ParseError {
                    kind: ParseErrorKind::ExpectedLeftParenAfterWhile,
                    line: self.peek_line(),
                },
            );
        }
        self.advance();
        let condition = self.expression()?;
        if !(self.current < self.tokens.len() && matches!(
            self.tokens[self.current].token_type,
            TokenType::RightParen
        )) {
            return Err(
                ParseError {
                    kind: ParseErrorKind::ExpectedRightParenAfterWhile,
                    line: self.peek_line(),
                },
            );
        }
        self.advance();
        let body = self.statement()?;
        Ok(Stmt::While { condition, body: Box::new(body) })
    }

    #[verifier::rlimit(100)]
    fn print_statement(&mut self) -> (r: Result<Stmt, ParseError>)
        requires
            old(self).wf(),
        ensures
            final(self).tokens == old(self).tokens,
            final(self).wf(),
            old(self).current <= final(self).current,
            r is Ok ==> old(self).current < final(self).current,
            sp_print_statement(old(self).toks(), old(self).current as int) == stmt_res(
                r,
                final(self).current as int,
            ),
        decreases rem(self.toks(), self.current as int), 17int,
    {
        if !(self.current < self.tokens.len() && matches!(
            self.tokens[self.current].token_type,
            TokenType::Print
        )) {
            return Err(ParseError { kind: ParseErrorKind::ExpectedPrint, line: self.peek_line() });
        }
        self.advance();
        if !(self.current < self.tokens.len() && matches!(
            self.tokens[self.current].token_type,
            TokenType::LeftParen
        )) {
            return Err(
                ParseError {
                    kind: ParseErrorKind::ExpectedLeftParenAfterPrint,
                    line: self.peek_line(),
                },
            );
        }
        self.advance();
        let expr = self.expression()?;
        if !(self.current < self.tokens.len() && matches!(
            self.tokens[self.current].token_type,
            TokenType::RightParen
        )) {
            return Err(
                ParseError {
                    kind: ParseErrorKind::ExpectedRightParenAfterPrint,
                    line: self.peek_line(),
                },
            );
        }
        self.advance();
        if self.current < self.tokens.len() && matches!(
            self.tokens[self.current].token_type,
            TokenType::Semicolon
        ) {
            self.advance();
            Ok(Stmt::Print(expr))
        } else {
            Err(
                ParseError {
                    kind: ParseErrorKind::ExpectedSemicolonAfterPrint,
                    line: self.peek_line(),
                },
            )
        }
    }

    fn block_statement(&mut self) -> (r: Result<Stmt, ParseError>)
        requires
            old(self).wf(),
        ensures
            final(self).tokens == old(self).tokens,
            final(self).wf(),
            old(self).current <= final(self).current,
            r is Ok ==> old(self).current < final(self).current,
            sp_block_statement(old(self).toks(), old(self).current as int) == stmt_res(
                r,
                final(self).current as int,
            ),
        decreases rem(self.toks(), self.current as int), 17int,
    {
        if !(self.current < self.tokens.len() && matches!(
            self.tokens[self.current].token_type,
            TokenType::LeftBrace
        )) {
            return Err(
                ParseError { kind: ParseErrorKind::ExpectedLeftBrace, line: self.peek_line() },
            );
        }
        self.advance();
        let ghost start: int = self.current as int;
        let mut statements: Vec<Stmt> = Vec::new();
        loop
            invariant
                self.wf(),
                self.tokens == old(self).tokens,
                start <= self.current as int,
                old(self).current < self.current,
                old(self).wf(),
                old(self).current as int + 1 == start,
                tok_at(old(self).toks(), old(self).current as int).kind is LeftBrace,
                ({
                    match sp_block_rest(self.toks(), self.current as int) {
                        Ok((rest, p3)) => sp_block_rest(old(self).toks(), start) == Ok::<
                            (Seq<StmtV>, int),
                            ParseError,
                        >((statements.deep_view() + rest, p3)),
                        Err(pe) => sp_block_rest(old(self).toks(), start) == Err::<
                            (Seq<StmtV>, int),
                            ParseError,
                        >(pe),
                    }
                }),
            ensures
                self.wf(),
                self.tokens == old(self).tokens,
                old(self).current < self.current,
                sp_block_rest(old(self).toks(), start) == Ok::<(Seq<StmtV>, int), ParseError>(
                    (statements.deep_view(), self.current as int),
                ),
            decreases rem(self.toks(), self.current as int),
        {
            if self.current >= self.tokens.len() {
                assert(statements.deep_view() + Seq::<StmtV>::empty() =~= statements.deep_view());
                break ;
            }
            if matches!(
                self.tokens[self.current].token_type,
                TokenType::RightBrace | TokenType::Eof
            ) {
                assert(statements.deep_view() + Seq::<StmtV>::empty() =~= statements.deep_view());
                break ;
            }
            let ghost pre = statements.deep_view();
            let ghost pos_i = self.current as int;
            let stmt = self.statement()?;
            statements.push(stmt);
            proof {
                assert(statements.deep_view() =~= pre + seq![stmt@]);
                match sp_block_rest(self.toks(), self.current as int) {
                    Ok((rest2, p3)) => {
                        assert(sp_block_rest(old(self).toks(), pos_i) == Ok::<
                            (Seq<StmtV>, int),
                            ParseError,
                        >((seq![stmt@] + rest2, p3)));
                        assert(pre + (seq![stmt@] + rest2) =~= statements.deep_view() + rest2);
                    },
                    Err(pe) => {},
                }
            }
        }
        if self.current < self.tokens.len() && matches!(
            self.tokens[self.current].token_type,
            TokenType::RightBrace
        ) {
            self.advance();
            proof {
                crate::ast::lemma_stmts_view(statements@);
                assert(crate::ast::stmts_view(statements@) =~= statements.deep_view());
                assert(crate::ast::stmt_view(Stmt::Block(statements)) == StmtV::Block(
                    statements.deep_view(),
                ));
            }
            Ok(Stmt::Block(statements))
        } else {
            Err(ParseError { kind: ParseErrorKind::ExpectedRightBrace, line: self.peek_line() })
        }
    }

    #[verifier::rlimit(100)]
    fn assignment_statement(&mut self) -> (r: Result<Stmt, ParseError>)
        requires
            old(self).wf(),
            old(self).current < old(self).tokens@.len(),
            tok_at(old(self).toks(), old(self).current as int).kind is Identifier,
        ensures
            final(self).tokens == old(self).tokens,
            final(self).wf(),
            old(self).current <= final(self).current,
            r is Ok ==> old(self).current < final(self).current,
            sp_assignment_statement(old(self).toks(), old(self).current as int) == stmt_res(
                r,
                final(self).current as int,
            ),
        decreases rem(self.toks(), self.current as int), 17int,
    {
        let name: String;
        match &self.tokens[self.current].token_type {
            TokenType::Identifier(n) => {
                name = n.clone();
            },
            _ => {
                return Err(stuck_exec());
            },
        }
        self.advance();
        self.advance();
        let value = self.expression()?;
        if self.current < self.tokens.len() && matches!(
            self.tokens[self.current].token_type,
            TokenType::Semicolon
        ) {
            self.advance();
            Ok(Stmt::Assignment { name, value })
        } else {
            Err(
                ParseError {
                    kind: ParseErrorKind::ExpectedSemicolonAfterAssignment,
                    line: self.peek_line(),
                },
            )
        }
    }

    #[verifier::rlimit(100)]
    fn statement(&mut self) -> (r: Result<Stmt, ParseError>)
        requires
            old(self).wf(),
        ensures
            final(self).tokens == old(self).tokens,
            final(self).wf(),
            old(self).current <= final(self).current,
            r is Ok ==> old(self).current < final(self).current,
            sp_statement(old(self).toks(), old(self).current as int) == stmt_res(
                r,
                final(self).current as int,
            ),
        decreases rem(self.toks(), self.current as int), 18int,
    {
        if self.current >= self.tokens.len() {
            return self.expr_statement();
        }
        match &self.tokens[self.current].token_type {
            TokenType::Let => self.let_statement(),
            TokenType::If => self.if_statement(),
            TokenType::While => self.while_statement(),
            TokenType::Print => self.print_statement(),
            TokenType::LeftBrace => self.block_statement(),
            TokenType::Identifier(_) => {
                if self.current + 1 < self.tokens.len() && matches!(
                    self.tokens[self.current + 1].token_type,
                    TokenType::Assign
                ) {
                    self.assignment_statement()
                } else {
                    self.expr_statement()
                }
            },
            _ => self.expr_statement(),
        }
    }

    /// The whole program: statements until the `Eof` token, by the
    /// specification parser `sp_parse`.
    pub fn parse(&mut self) -> (r: Result<Vec<Stmt>, ParseError>)
        requires
            old(self).wf(),
        ensures
            final(self).tokens == old(self).tokens,
            final(self).wf(),
            match r {
                Ok(ss) => sp_parse(old(self).toks(), old(self).current as int) == Ok::<
                    Seq<StmtV>,
                    ParseError,
                >(ss.deep_view()),
                Err(pe) => sp_parse(old(self).toks(), old(self).current as int) == Err::<
                    Seq<StmtV>,
                    ParseError,
                >(pe),
            },
    {
        let ghost start: int = self.current as int;
        let mut statements: Vec<Stmt> = Vec::new();
        loop
            invariant
                self.wf(),
                self.tokens == old(self).tokens,
                start == old(self).current as int,
                start <= self.current as int,
                ({
                    match sp_parse(self.toks(), self.current as int) {
                        Ok(rest) => sp_parse(old(self).toks(), start) == Ok::<
                            Seq<StmtV>,
                            ParseError,
                        >(statements.deep_view() + rest),
                        Err(pe) => sp_parse(old(self).toks(), start) == Err::<
                            Seq<StmtV>,
                            ParseError,
                        >(pe),
                    }
                }),
            ensures
                self.wf(),
                self.tokens == old(self).tokens,
                sp_parse(old(self).toks(), start) == Ok::<Seq<StmtV>, ParseError>(
                    statements.deep_view(),
                ),
            decreases rem(self.toks(), self.current as int),
        {
            if self.current >= self.tokens.len() {
                assert(statements.deep_view() + Seq::<StmtV>::empty() =~= statements.deep_view());
                break ;
            }
            if matches!(self.tokens[self.current].token_type, TokenType::Eof) {
                assert(statements.deep_view() + Seq::<StmtV>::empty() =~= statements.deep_view());
                break ;
            }
            let ghost pre = statements.deep_view();
            let ghost pos_i = self.current as int;
            let stmt = self.statement()?;
            statements.push(stmt);
            proof {
                assert(statements.deep_view() =~= pre + seq![stmt@]);
                match sp_parse(self.toks(), self.current as int) {
                    Ok(rest2) => {
                        assert(sp_parse(old(self).toks(), pos_i) == Ok::<Seq<StmtV>, ParseError>(
                            seq![stmt@] + rest2,
                        ));
                        assert(pre + (seq![stmt@] + rest2) =~= statements.deep_view() + rest2);
                    },
                    Err(pe) => {},
                }
            }
        }
        Ok(statements)
    }
}

} // verus!
