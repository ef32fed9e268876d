//! The Pratt (operator-precedence) parser: two tokens of lookahead,
//! recursive-descent statements, precedence-climbing expressions. Every
//! parse function is proved equal to a specification-level parse function
//! over the scanner's token stream.
//!
//! Expression nesting runs on an explicit depth budget (`MAX_PARSE_DEPTH`):
//! exceeding it aborts the parse with [`MonkeyError::RecursionLimit`], the
//! defined stand-in for the call-stack exhaustion that unbounded nesting
//! would otherwise cause.

use vstd::prelude::*;

verus! {

use vstd::string::StrSliceExecFns;
use crate::ast::{BlockStatement, ExprV, Expression, Precedence, Program, Statement};
use crate::errors::{ErrV, MonkeyError};
use crate::ast::{
    StmtV, lemma_view_of_exprs_index, precedence_rank, view_of_expr, view_of_exprs, view_of_stmts,
};
use crate::lexer::Lexer;
use crate::lexer::spec_next_token;
use crate::token::{Token, TokenKind, TokenV, precedence_of};

/// The parser's recursion budget for nested expressions.
pub const MAX_PARSE_DEPTH: u64 = 4096;

/// Parses one token stream into one `Program`, maintaining exactly two
/// tokens of lookahead.
pub struct Parser {
    lexer: Lexer,
    cur_token: Token,
    peek_token: Token,
}

/// The value of the decimal digits of `s` from position `i` on, accumulated
/// onto `acc`; `None` on a non-digit or when the value leaves `i64`.
pub open spec fn dec_value_from(s: Seq<char>, i: int, acc: i64) -> Option<i64>
    decreases s.len() - i,
{
    if !(0 <= i < s.len()) {
        Some(acc)
    } else {
        let c = s[i];
        if !('0' <= c && c <= '9') {
            None
        } else {
            let next = acc * 10 + (c as int - '0' as int);
            if !(i64::MIN <= next <= i64::MAX) {
                None
            } else {
                dec_value_from(s, i + 1, next as i64)
            }
        }
    }
}

/// The `i64` a literal denotes: its decimal digits' value; `None` when the
/// literal is empty, holds a non-digit, or exceeds `i64`.
pub open spec fn int_literal_value(s: Seq<char>) -> Option<i64> {
    if s.len() == 0 {
        None
    } else {
        dec_value_from(s, 0, 0)
    }
}

/// Reads a decimal integer literal; `None` when empty, on a non-digit, or
/// when the value exceeds `i64`.
#[verifier::spinoff_prover]
fn parse_i64(s: &str) -> (r: Option<i64>)
    ensures
        r == int_literal_value(s@),
{
    let n = s.unicode_len();
    if n == 0 {
        return None;
    }
    let mut acc: i64 = 0;
    let mut i: usize = 0;
    while i < n
        invariant
            n == s@.len(),
            0 < n,
            i <= n,
            acc >= 0,
            int_literal_value(s@) == dec_value_from(s@, i as int, acc),
        decreases n - i,
    {
        let c = s.get_char(i);
        if c < '0' || c > '9' {
            return None;
        }
        let digit = (c as u32) - ('0' as u32);
        acc = match acc.checked_mul(10) {
            Some(shifted) => match shifted.checked_add(digit as i64) {
                Some(next) => next,
                None => {
                    return None;
                },
            },
            None => {
                return None;
            },
        };
        i += 1;
    }
    Some(acc)
}

/// The parser's specification-level state: the scanner's text and cursor,
/// and the two lookahead tokens.
pub struct PState {
    pub text: Seq<char>,
    pub pos: int,
    pub cur: TokenV,
    pub peek: TokenV,
}

/// One lookahead shift: the upcoming token becomes current and the scanner
/// yields the next one.
pub open spec fn advance(st: PState) -> PState {
    let out = spec_next_token(st.text, st.pos);
    PState { text: st.text, pos: out.pos, cur: st.peek, peek: out.token }
}

/// One statement, dispatched on the current token.
#[verifier::opaque]
pub open spec fn sp_parse_statement(st: PState, depth: u64) -> (Result<StmtV, ErrV>, PState)
    decreases depth, 2nat, 0nat,
{
    if depth == 0 {
        (Err(ErrV::RecursionLimit), st)
    } else {
        match st.cur.kind {
            TokenKind::Let => sp_parse_let_statement(st, (depth - 1) as u64),
            TokenKind::Return => sp_parse_return_statement(st, (depth - 1) as u64),
            _ => sp_parse_expression_statement(st, (depth - 1) as u64),
        }
    }
}

/// `let <ident> = <expression>[;]`
#[verifier::opaque]
pub open spec fn sp_parse_let_statement(st: PState, depth: u64) -> (Result<StmtV, ErrV>, PState)
    decreases depth, 2nat, 0nat,
{
    if depth == 0 {
        (Err(ErrV::RecursionLimit), st)
    } else if st.peek.kind != TokenKind::Ident {
        (Err(ErrV::UnexpectedToken(TokenKind::Ident, st.peek)), st)
    } else {
        let st1 = advance(st);
        let ident = ExprV::Ident(st1.cur.literal);
        if st1.peek.kind != TokenKind::Assign {
            (Err(ErrV::UnexpectedToken(TokenKind::Assign, st1.peek)), st1)
        } else {
            let st3 = advance(advance(st1));
            let stepped = sp_parse_expression(st3, Precedence::Lowest, (depth - 1) as u64);
            match stepped.0 {
                Err(e) => (Err(e), stepped.1),
                Ok(value) => {
                    let st4 = if stepped.1.peek.kind == TokenKind::Semicolon {
                        advance(stepped.1)
                    } else {
                        stepped.1
                    };
                    (Ok(StmtV::Let { ident, value }), st4)
                },
            }
        }
    }
}

/// `return <expression>[;]`
#[verifier::opaque]
pub open spec fn sp_parse_return_statement(st: PState, depth: u64) -> (Result<StmtV, ErrV>, PState)
    decreases depth, 2nat, 0nat,
{
    if depth == 0 {
        (Err(ErrV::RecursionLimit), st)
    } else {
        let st1 = advance(st);
        let stepped = sp_parse_expression(st1, Precedence::Lowest, (depth - 1) as u64);
        match stepped.0 {
            Err(e) => (Err(e), stepped.1),
            Ok(value) => {
                let st2 = if stepped.1.peek.kind == TokenKind::Semicolon {
                    advance(stepped.1)
                } else {
                    stepped.1
                };
                (Ok(StmtV::Return(value)), st2)
            },
        }
    }
}

/// A bare expression as a statement, with an optional trailing `;`.
#[verifier::opaque]
pub open spec fn sp_parse_expression_statement(st: PState, depth: u64) -> (
    Result<StmtV, ErrV>,
    PState,
)
    decreases depth, 2nat, 0nat,
{
    if depth == 0 {
        (Err(ErrV::RecursionLimit), st)
    } else {
        let stepped = sp_parse_expression(st, Precedence::Lowest, (depth - 1) as u64);
        match stepped.0 {
            Err(e) => (Err(e), stepped.1),
            Ok(expr) => {
                let st1 = if stepped.1.peek.kind == TokenKind::Semicolon {
                    advance(stepped.1)
                } else {
                    stepped.1
                };
                (Ok(StmtV::Expression(expr)), st1)
            },
        }
    }
}

/// `!`/`-` applied to an operand parsed at `Prefix` precedence.
#[verifier::opaque]
pub open spec fn sp_parse_prefix_expression(st: PState, depth: u64) -> (
    Result<ExprV, ErrV>,
    PState,
)
    decreases depth, 2nat, 0nat,
{
    if depth == 0 {
        (Err(ErrV::RecursionLimit), st)
    } else {
        let op = st.cur.literal;
        let st1 = advance(st);
        let stepped = sp_parse_expression(st1, Precedence::Prefix, (depth - 1) as u64);
        match stepped.0 {
            Err(e) => (Err(e), stepped.1),
            Ok(right) => (Ok(ExprV::Prefix { op, right: Box::new(right) }), stepped.1),
        }
    }
}

/// Precedence climbing: the prefix rule for the current token, then infix
/// operators and calls while the upcoming token binds tighter than the
/// threshold.
#[verifier::opaque]
pub open spec fn sp_parse_expression(st: PState, precedence: Precedence, depth: u64) -> (
    Result<ExprV, ErrV>,
    PState,
)
    decreases depth, 1nat, 0nat,
{
    if depth == 0 {
        (Err(ErrV::RecursionLimit), st)
    } else {
        let prefixed: (Result<ExprV, ErrV>, PState) = match st.cur.kind {
            TokenKind::Ident => (Ok(ExprV::Ident(st.cur.literal)), st),
            TokenKind::Int => (
                match int_literal_value(st.cur.literal) {
                    Some(value) => Ok(ExprV::Int(value)),
                    None => Err(ErrV::InvalidInteger(st.cur)),
                },
                st,
            ),
            TokenKind::True => (Ok(ExprV::Boolean(true)), st),
            TokenKind::False => (Ok(ExprV::Boolean(false)), st),
            TokenKind::Bang => sp_parse_prefix_expression(st, (depth - 1) as u64),
            TokenKind::Minus => sp_parse_prefix_expression(st, (depth - 1) as u64),
            TokenKind::Lparen => sp_parse_group_expression(st, (depth - 1) as u64),
            TokenKind::If => sp_parse_if_expression(st, (depth - 1) as u64),
            TokenKind::Function => sp_parse_function_literal(st, (depth - 1) as u64),
            _ => (Err(ErrV::InvalidToken(st.cur)), st),
        };
        match prefixed.0 {
            Err(e) => (Err(e), prefixed.1),
            Ok(left) => sp_climb(prefixed.1, precedence, left, u64::MAX, depth),
        }
    }
}

/// The climbing loop: while the upcoming token binds tighter than the
/// threshold, consume it as an infix operator or a call.
#[verifier::opaque]
pub open spec fn sp_climb(
    st: PState,
    precedence: Precedence,
    left: ExprV,
    budget: u64,
    depth: u64,
) -> (Result<ExprV, ErrV>, PState)
    decreases depth, 0nat, budget,
{
    if st.peek.kind == TokenKind::Semicolon || precedence_rank(precedence) >= precedence_rank(
        precedence_of(st.peek.kind),
    ) {
        (Ok(left), st)
    } else if budget == 0 || depth == 0 {
        (Err(ErrV::RecursionLimit), st)
    } else {
        match st.peek.kind {
            TokenKind::Plus
            | TokenKind::Minus
            | TokenKind::Slash
            | TokenKind::Aster
            | TokenKind::Equal
            | TokenKind::NotEqual
            | TokenKind::LessThan
            | TokenKind::GreaterThan => {
                let st1 = advance(st);
                let stepped = sp_parse_infix_expression(st1, left, (depth - 1) as u64);
                match stepped.0 {
                    Err(e) => (Err(e), stepped.1),
                    Ok(grown) => sp_climb(
                        stepped.1,
                        precedence,
                        grown,
                        (budget - 1) as u64,
                        depth,
                    ),
                }
            },
            TokenKind::Lparen => {
                let st1 = advance(st);
                let stepped = sp_parse_call_expression(st1, left, (depth - 1) as u64);
                match stepped.0 {
                    Err(e) => (Err(e), stepped.1),
                    Ok(grown) => sp_climb(
                        stepped.1,
                        precedence,
                        grown,
                        (budget - 1) as u64,
                        depth,
                    ),
                }
            },
            _ => (Ok(left), st),
        }
    }
}

/// A binary operator: the right operand parsed at the operator's own
/// precedence (equal-precedence chains group left).
#[verifier::opaque]
pub open spec fn sp_parse_infix_expression(st: PState, left: ExprV, depth: u64) -> (
    Result<ExprV, ErrV>,
    PState,
)
    decreases depth, 2nat, 0nat,
{
    if depth == 0 {
        (Err(ErrV::RecursionLimit), st)
    } else {
        let op = st.cur.literal;
        let precedence = precedence_of(st.cur.kind);
        let st1 = advance(st);
        let stepped = sp_parse_expression(st1, precedence, (depth - 1) as u64);
        match stepped.0 {
            Err(e) => (Err(e), stepped.1),
            Ok(right) => (
                Ok(ExprV::Infix { left: Box::new(left), op, right: Box::new(right) }),
                stepped.1,
            ),
        }
    }
}

/// A call: the expression parsed so far becomes the callee.
#[verifier::opaque]
pub open spec fn sp_parse_call_expression(st: PState, function: ExprV, depth: u64) -> (
    Result<ExprV, ErrV>,
    PState,
)
    decreases depth, 2nat, 0nat,
{
    if depth == 0 {
        (Err(ErrV::RecursionLimit), st)
    } else {
        let stepped = sp_parse_call_arguments(st, (depth - 1) as u64);
        match stepped.0 {
            Err(e) => (Err(e), stepped.1),
            Ok(arguments) => (
                Ok(ExprV::Call { function: Box::new(function), arguments }),
                stepped.1,
            ),
        }
    }
}

/// The argument list of a call, up to the closing `)`.
#[verifier::opaque]
pub open spec fn sp_parse_call_arguments(st: PState, depth: u64) -> (
    Result<Seq<ExprV>, ErrV>,
    PState,
)
    decreases depth, 2nat, 0nat,
{
    if depth == 0 {
        (Err(ErrV::RecursionLimit), st)
    } else if st.peek.kind == TokenKind::Rparen {
        (Ok(Seq::empty()), advance(st))
    } else {
        let st1 = advance(st);
        let stepped = sp_parse_expression(st1, Precedence::Lowest, (depth - 1) as u64);
        match stepped.0 {
            Err(e) => (Err(e), stepped.1),
            Ok(first) => sp_args_loop(stepped.1, seq![first], u64::MAX, depth),
        }
    }
}

/// The comma loop of an argument list, then the required closing `)`.
#[verifier::opaque]
pub open spec fn sp_args_loop(st: PState, acc: Seq<ExprV>, budget: u64, depth: u64) -> (
    Result<Seq<ExprV>, ErrV>,
    PState,
)
    decreases depth, 1nat, budget,
{
    if st.peek.kind != TokenKind::Comma {
        if st.peek.kind == TokenKind::Rparen {
            (Ok(acc), advance(st))
        } else {
            (Err(ErrV::UnexpectedToken(TokenKind::Rparen, st.peek)), st)
        }
    } else if budget == 0 || depth == 0 {
        (Err(ErrV::RecursionLimit), st)
    } else {
        let st1 = advance(advance(st));
        let stepped = sp_parse_expression(st1, Precedence::Lowest, (depth - 1) as u64);
        match stepped.0 {
            Err(e) => (Err(e), stepped.1),
            Ok(arg) => sp_args_loop(stepped.1, acc.push(arg), (budget - 1) as u64, depth),
        }
    }
}

/// `fn (<parameters>) { <body> }`
#[verifier::opaque]
pub open spec fn sp_parse_function_literal(st: PState, depth: u64) -> (Result<ExprV, ErrV>, PState)
    decreases depth, 2nat, 0nat,
{
    if depth == 0 {
        (Err(ErrV::RecursionLimit), st)
    } else if st.peek.kind != TokenKind::Lparen {
        (Err(ErrV::UnexpectedToken(TokenKind::Lparen, st.peek)), st)
    } else {
        let st1 = advance(st);
        let params = sp_parse_function_parameters(st1, u64::MAX);
        match params.0 {
            Err(e) => (Err(e), params.1),
            Ok(parameters) => {
                if params.1.peek.kind != TokenKind::Lbrace {
                    (Err(ErrV::UnexpectedToken(TokenKind::Lbrace, params.1.peek)), params.1)
                } else {
                    let st2 = advance(params.1);
                    let body = sp_parse_block_statement(st2, (depth - 1) as u64);
                    match body.0 {
                        Err(e) => (Err(e), body.1),
                        Ok(stmts) => (
                            Ok(ExprV::Function { parameters, body: stmts }),
                            body.1,
                        ),
                    }
                }
            },
        }
    }
}

/// The parameter list of a function literal, up to the closing `)`.
#[verifier::opaque]
pub open spec fn sp_parse_function_parameters(st: PState, budget: u64) -> (
    Result<Seq<Seq<char>>, ErrV>,
    PState,
)
    decreases budget, 1nat,
{
    if st.peek.kind == TokenKind::Rparen {
        (Ok(Seq::empty()), advance(st))
    } else {
        let st1 = advance(st);
        sp_params_loop(st1, seq![st1.cur.literal], budget)
    }
}

/// The comma loop of a parameter list, then the required closing `)`.
#[verifier::opaque]
pub open spec fn sp_params_loop(st: PState, acc: Seq<Seq<char>>, budget: u64) -> (
    Result<Seq<Seq<char>>, ErrV>,
    PState,
)
    decreases budget, 0nat,
{
    if st.peek.kind != TokenKind::Comma {
        if st.peek.kind == TokenKind::Rparen {
            (Ok(acc), advance(st))
        } else {
            (Err(ErrV::UnexpectedToken(TokenKind::Rparen, st.peek)), st)
        }
    } else if budget == 0 {
        (Err(ErrV::RecursionLimit), st)
    } else {
        let st1 = advance(advance(st));
        sp_params_loop(st1, acc.push(st1.cur.literal), (budget - 1) as u64)
    }
}

/// `if (<condition>) { <consequence> } [else { <alternative> }]`
#[verifier::opaque]
pub open spec fn sp_parse_if_expression(st: PState, depth: u64) -> (Result<ExprV, ErrV>, PState)
    decreases depth, 2nat, 0nat,
{
    if depth == 0 {
        (Err(ErrV::RecursionLimit), st)
    } else if st.peek.kind != TokenKind::Lparen {
        (Err(ErrV::UnexpectedToken(TokenKind::Lparen, st.peek)), st)
    } else {
        let st2 = advance(advance(st));
        let cond = sp_parse_expression(st2, Precedence::Lowest, (depth - 1) as u64);
        match cond.0 {
            Err(e) => (Err(e), cond.1),
            Ok(condition) => {
                if cond.1.peek.kind != TokenKind::Rparen {
                    (Err(ErrV::UnexpectedToken(TokenKind::Rparen, cond.1.peek)), cond.1)
                } else {
                    let st3 = advance(cond.1);
                    if st3.peek.kind != TokenKind::Lbrace {
                        (Err(ErrV::UnexpectedToken(TokenKind::Lbrace, st3.peek)), st3)
                    } else {
                        let st4 = advance(st3);
                        let cons = sp_parse_block_statement(st4, (depth - 1) as u64);
                        match cons.0 {
                            Err(e) => (Err(e), cons.1),
                            Ok(consequence) => sp_if_alternative(
                                cons.1,
                                condition,
                                consequence,
                                (depth - 1) as u64,
                            ),
                        }
                    }
                }
            },
        }
    }
}

/// The optional `else { ... }` arm of an `if`.
#[verifier::opaque]
pub open spec fn sp_if_alternative(
    st: PState,
    condition: ExprV,
    consequence: Seq<StmtV>,
    depth: u64,
) -> (Result<ExprV, ErrV>, PState)
    decreases depth, 2nat, 1nat,
{
    if st.peek.kind != TokenKind::Else {
        (
            Ok(ExprV::If {
                condition: Box::new(condition),
                consequence,
                alternative: None,
            }),
            st,
        )
    } else {
        let st1 = advance(st);
        if st1.peek.kind != TokenKind::Lbrace {
            (Err(ErrV::UnexpectedToken(TokenKind::Lbrace, st1.peek)), st1)
        } else {
            let st2 = advance(st1);
            let alt = sp_parse_block_statement(st2, depth);
            match alt.0 {
                Err(e) => (Err(e), alt.1),
                Ok(alternative) => (
                    Ok(ExprV::If {
                        condition: Box::new(condition),
                        consequence,
                        alternative: Some(alternative),
                    }),
                    alt.1,
                ),
            }
        }
    }
}

/// A block: statements up to the matching `}` (or `Eof`).
#[verifier::opaque]
pub open spec fn sp_parse_block_statement(st: PState, depth: u64) -> (
    Result<Seq<StmtV>, ErrV>,
    PState,
)
    decreases depth, 2nat, 0nat,
{
    if depth == 0 {
        (Err(ErrV::RecursionLimit), st)
    } else {
        sp_block_loop(advance(st), Seq::empty(), u64::MAX, depth)
    }
}

/// The statement loop of a block.
#[verifier::opaque]
pub open spec fn sp_block_loop(st: PState, acc: Seq<StmtV>, budget: u64, depth: u64) -> (
    Result<Seq<StmtV>, ErrV>,
    PState,
)
    decreases depth, 1nat, budget,
{
    if st.cur.kind == TokenKind::Rbrace || st.cur.kind == TokenKind::Eof {
        (Ok(acc), st)
    } else if budget == 0 || depth == 0 {
        (Err(ErrV::RecursionLimit), st)
    } else {
        let stepped = sp_parse_statement(st, (depth - 1) as u64);
        match stepped.0 {
            Err(e) => (Err(e), stepped.1),
            Ok(stmt) => sp_block_loop(advance(stepped.1), acc.push(stmt), (budget - 1) as u64, depth),
        }
    }
}

/// `( <expression> )`
#[verifier::opaque]
pub open spec fn sp_parse_group_expression(st: PState, depth: u64) -> (Result<ExprV, ErrV>, PState)
    decreases depth, 2nat, 0nat,
{
    if depth == 0 {
        (Err(ErrV::RecursionLimit), st)
    } else {
        let st1 = advance(st);
        let stepped = sp_parse_expression(st1, Precedence::Lowest, (depth - 1) as u64);
        if stepped.1.peek.kind != TokenKind::Rparen {
            (Err(ErrV::UnexpectedToken(TokenKind::Rparen, stepped.1.peek)), stepped.1)
        } else {
            (stepped.0, advance(stepped.1))
        }
    }
}

/// A whole program: statements until `Eof`; the first failure aborts the
/// parse.
#[verifier::opaque]
pub open spec fn sp_parse_program(st: PState, acc: Seq<StmtV>, budget: u64) -> (
    Result<Seq<StmtV>, ErrV>,
    PState,
)
    decreases budget,
{
    if st.cur.kind == TokenKind::Eof {
        (Ok(acc), st)
    } else if budget == 0 {
        (Err(ErrV::RecursionLimit), st)
    } else {
        let stepped = sp_parse_statement(st, MAX_PARSE_DEPTH);
        match stepped.0 {
            Err(e) => (Err(e), stepped.1),
            Ok(stmt) => sp_parse_program(advance(stepped.1), acc.push(stmt), (budget - 1) as u64),
        }
    }
}

impl Parser {
    /// The parser's structural invariant: its scanner is well formed.
    pub closed spec fn wf(&self) -> bool {
        self.lexer.wf()
    }

    /// Whether the parser's current token is the `Eof` terminal.
    pub closed spec fn at_eof(&self) -> bool {
        self.cur_token.kind == TokenKind::Eof
    }

    /// The parser's specification-level state.
    pub closed spec fn st(&self) -> PState {
        PState {
            text: self.lexer.text(),
            pos: self.lexer.cursor(),
            cur: self.cur_token.deep_view(),
            peek: self.peek_token.deep_view(),
        }
    }

    /// A parser over the given scanner, with both lookahead slots primed
    /// from the scanner's first two tokens.
    #[verifier::spinoff_prover]
    pub fn new(lexer: Lexer) -> (parser: Parser)
        requires
            lexer.wf(),
        ensures
            parser.wf(),
            parser.st() == advance(advance(PState {
                text: lexer.text(),
                pos: lexer.cursor(),
                cur: TokenV { kind: TokenKind::Eof, literal: Seq::empty() },
                peek: TokenV { kind: TokenKind::Eof, literal: Seq::empty() },
            })),
    {
        let mut parser = Parser {
            lexer,
            cur_token: Token { kind: TokenKind::Eof, literal: String::new() },
            peek_token: Token { kind: TokenKind::Eof, literal: String::new() },
        };
        parser.next_token();
        parser.next_token();
        parser
    }

    /// Shifts the lookahead window one token forward: the upcoming token
    /// becomes the current one, and the scanner supplies a new upcoming one.
    #[verifier::spinoff_prover]
    fn next_token(&mut self)
        requires
            old(self).wf(),
        ensures
            final(self).wf(),
            final(self).st() == advance(old(self).st()),
    {
        self.cur_token = self.peek_token.clone();
        self.peek_token = self.lexer.next_token();
    }

    /// Parses statements until `Eof`; the first failure aborts the whole
    /// parse.
    #[verifier::spinoff_prover]
    pub fn parse_program(&mut self) -> (r: Result<Program, MonkeyError>)
        requires
            old(self).wf(),
        ensures
            final(self).wf(),
            r is Ok ==> final(self).at_eof(),
            ({
                let stepped = sp_parse_program(old(self).st(), Seq::empty(), u64::MAX);
                final(self).st() == stepped.1 && (match (r, stepped.0) {
                    (Ok(program), Ok(sv)) => program.deep_view() == sv,
                    (Err(e), Err(ev)) => e.deep_view() == ev,
                    _ => false,
                })
            }),
    {
        let ghost st0 = self.st();
        let mut statements: Vec<Statement> = Vec::new();
        proof {
            assert(view_of_stmts(statements@) =~= Seq::<StmtV>::empty());
        }

        let mut budget: u64 = u64::MAX;
        while !self.cur_token_is(TokenKind::Eof)
            invariant
                self.wf(),
                st0 == old(self).st(),
                sp_parse_program(st0, Seq::empty(), u64::MAX) == sp_parse_program(
                    self.st(),
                    view_of_stmts(statements@),
                    budget,
                ),
            decreases budget,
        {
            let ghost st_head = self.st();
            let ghost acc_head = view_of_stmts(statements@);
            let ghost budget_head = budget;
            if budget == 0 {
                proof {
                    reveal_with_fuel(sp_parse_program, 1);
                    assert(sp_parse_program(st_head, acc_head, budget_head) == (
                        Result::<Seq<StmtV>, ErrV>::Err(ErrV::RecursionLimit),
                        st_head,
                    ));
                }
                return Err(MonkeyError::RecursionLimit);
            }
            budget = budget - 1;
            let stmt = match self.parse_statement(MAX_PARSE_DEPTH) {
                Ok(stmt) => stmt,
                Err(e) => {
                    proof {
                        reveal_with_fuel(sp_parse_program, 1);
                        assert(sp_parse_program(st_head, acc_head, budget_head) == (
                            Result::<Seq<StmtV>, ErrV>::Err(e.deep_view()),
                            self.st(),
                        ));
                    }
                    return Err(e);
                },
            };
            let ghost stmt_v = stmt.deep_view();
            let ghost before = statements@;
            statements.push(stmt);
            self.next_token();
            proof {
                reveal_with_fuel(sp_parse_program, 1);
                assert(statements@.drop_last() =~= before);
                assert(view_of_stmts(statements@) == acc_head.push(stmt_v));
                assert(sp_parse_program(st_head, acc_head, budget_head) == sp_parse_program(
                    self.st(),
                    view_of_stmts(statements@),
                    budget,
                ));
            }
        }
        proof {
            reveal_with_fuel(sp_parse_program, 1);
            assert(sp_parse_program(self.st(), view_of_stmts(statements@), budget) == (
                Result::<Seq<StmtV>, ErrV>::Ok(view_of_stmts(statements@)),
                self.st(),
            ));
        }
        Ok(Program { statements })
    }

    /// Dispatches on the current token: `let`, `return`, or an
    /// expression-statement.
    #[verifier::spinoff_prover]
    fn parse_statement(&mut self, depth: u64) -> (r: Result<Statement, MonkeyError>)
        requires
            old(self).wf(),
        ensures
            final(self).wf(),
            ({
                let stepped = sp_parse_statement(old(self).st(), depth);
                final(self).st() == stepped.1 && (match (r, stepped.0) {
                    (Ok(stmt), Ok(sv)) => stmt.deep_view() == sv,
                    (Err(e), Err(ev)) => e.deep_view() == ev,
                    _ => false,
                })
            }),
        decreases depth,
    {
        let ghost st0 = self.st();
        if depth == 0 {
            proof {
                reveal_with_fuel(sp_parse_statement, 1);
                assert(sp_parse_statement(st0, depth) == (
                    Result::<StmtV, ErrV>::Err(ErrV::RecursionLimit),
                    st0,
                ));
            }
            return Err(MonkeyError::RecursionLimit);
        }
        match self.cur_token.kind {
            TokenKind::Let => {
                let r = self.parse_let_statement(depth - 1);
                proof {
                    reveal_with_fuel(sp_parse_statement, 1);
                    assert(sp_parse_statement(st0, depth) == sp_parse_let_statement(
                        st0,
                        (depth - 1) as u64,
                    ));
                }
                r
            },
            TokenKind::Return => {
                let r = self.parse_return_statement(depth - 1);
                proof {
                    reveal_with_fuel(sp_parse_statement, 1);
                    assert(sp_parse_statement(st0, depth) == sp_parse_return_statement(
                        st0,
                        (depth - 1) as u64,
                    ));
                }
                r
            },
            _ => {
                let r = self.parse_expression_statement(depth - 1);
                proof {
                    reveal_with_fuel(sp_parse_statement, 1);
                    assert(sp_parse_statement(st0, depth) == sp_parse_expression_statement(
                        st0,
                        (depth - 1) as u64,
                    ));
                }
                r
            },
        }
    }

    /// `let <ident> = <expression>[;]`
    #[verifier::spinoff_prover]
    fn parse_let_statement(&mut self, depth: u64) -> (r: Result<Statement, MonkeyError>)
        requires
            old(self).wf(),
        ensures
            final(self).wf(),
            ({
                let stepped = sp_parse_let_statement(old(self).st(), depth);
                final(self).st() == stepped.1 && (match (r, stepped.0) {
                    (Ok(stmt), Ok(sv)) => stmt.deep_view() == sv,
                    (Err(e), Err(ev)) => e.deep_view() == ev,
                    _ => false,
                })
            }),
        decreases depth,
    {
        let ghost st0 = self.st();
        if depth == 0 {
            proof {
                reveal_with_fuel(sp_parse_let_statement, 1);
                assert(sp_parse_let_statement(st0, depth) == (
                    Result::<StmtV, ErrV>::Err(ErrV::RecursionLimit),
                    st0,
                ));
            }
            return Err(MonkeyError::RecursionLimit);
        }
        if !self.expect_peek(TokenKind::Ident) {
            proof {
                reveal_with_fuel(sp_parse_let_statement, 1);
            }
            return Err(MonkeyError::UnexpectedToken(TokenKind::Ident, self.peek_token.clone()));
        }

        let ident = Expression::Ident(self.cur_token.literal.clone());
        if !self.expect_peek(TokenKind::Assign) {
            proof {
                reveal_with_fuel(sp_parse_let_statement, 1);
            }
            return Err(MonkeyError::UnexpectedToken(TokenKind::Assign, self.peek_token.clone()));
        }

        self.next_token();

        let value = match self.parse_expression(Precedence::Lowest, depth - 1) {
            Ok(value) => value,
            Err(e) => {
                proof {
                    reveal_with_fuel(sp_parse_let_statement, 1);
                }
                return Err(e);
            },
        };

        if self.peek_token_is(TokenKind::Semicolon) {
            self.next_token();
        }
        proof {
            reveal_with_fuel(sp_parse_let_statement, 1);
        }
        Ok(Statement::Let { ident, value })
    }

    /// `return <expression>[;]`
    #[verifier::spinoff_prover]
    fn parse_return_statement(&mut self, depth: u64) -> (r: Result<Statement, MonkeyError>)
        requires
            old(self).wf(),
        ensures
            final(self).wf(),
            ({
                let stepped = sp_parse_return_statement(old(self).st(), depth);
                final(self).st() == stepped.1 && (match (r, stepped.0) {
                    (Ok(stmt), Ok(sv)) => stmt.deep_view() == sv,
                    (Err(e), Err(ev)) => e.deep_view() == ev,
                    _ => false,
                })
            }),
        decreases depth,
    {
        let ghost st0 = self.st();
        if depth == 0 {
            proof {
                reveal_with_fuel(sp_parse_return_statement, 1);
                assert(sp_parse_return_statement(st0, depth) == (
                    Result::<StmtV, ErrV>::Err(ErrV::RecursionLimit),
                    st0,
                ));
            }
            return Err(MonkeyError::RecursionLimit);
        }
        self.next_token();
        let value = match self.parse_expression(Precedence::Lowest, depth - 1) {
            Ok(value) => value,
            Err(e) => {
                proof {
                    reveal_with_fuel(sp_parse_return_statement, 1);
                }
                return Err(e);
            },
        };
        if self.peek_token_is(TokenKind::Semicolon) {
            self.next_token();
        }
        proof {
            reveal_with_fuel(sp_parse_return_statement, 1);
        }
        Ok(Statement::Return(value))
    }

    /// A bare expression as a statement, with an optional trailing `;`.
    #[verifier::spinoff_prover]
    fn parse_expression_statement(&mut self, depth: u64) -> (r: Result<Statement, MonkeyError>)
        requires
            old(self).wf(),
        ensures
            final(self).wf(),
            ({
                let stepped = sp_parse_expression_statement(old(self).st(), depth);
                final(self).st() == stepped.1 && (match (r, stepped.0) {
                    (Ok(stmt), Ok(sv)) => stmt.deep_view() == sv,
                    (Err(e), Err(ev)) => e.deep_view() == ev,
                    _ => false,
                })
            }),
        decreases depth,
    {
        let ghost st0 = self.st();
        if depth == 0 {
            proof {
                reveal_with_fuel(sp_parse_expression_statement, 1);
                assert(sp_parse_expression_statement(st0, depth) == (
                    Result::<StmtV, ErrV>::Err(ErrV::RecursionLimit),
                    st0,
                ));
            }
            return Err(MonkeyError::RecursionLimit);
        }
        let expr = match self.parse_expression(Precedence::Lowest, depth - 1) {
            Ok(expr) => expr,
            Err(e) => {
                proof {
                    reveal_with_fuel(sp_parse_expression_statement, 1);
                }
                return Err(e);
            },
        };
        if self.peek_token_is(TokenKind::Semicolon) {
            self.next_token();
        }
        proof {
            reveal_with_fuel(sp_parse_expression_statement, 1);
        }
        Ok(Statement::Expression(expr))
    }

    /// `!`/`-` applied to an operand parsed at `Prefix` precedence.
    #[verifier::spinoff_prover]
    fn parse_prefix_expression(&mut self, depth: u64) -> (r: Result<Expression, MonkeyError>)
        requires
            old(self).wf(),
        ensures
            final(self).wf(),
            ({
                let stepped = sp_parse_prefix_expression(old(self).st(), depth);
                final(self).st() == stepped.1 && (match (r, stepped.0) {
                    (Ok(expr), Ok(ev)) => expr.deep_view() == ev,
                    (Err(e), Err(ev)) => e.deep_view() == ev,
                    _ => false,
                })
            }),
        decreases depth,
    {
        let ghost st0 = self.st();
        if depth == 0 {
            proof {
                reveal_with_fuel(sp_parse_prefix_expression, 1);
                assert(sp_parse_prefix_expression(st0, depth) == (
                    Result::<ExprV, ErrV>::Err(ErrV::RecursionLimit),
                    st0,
                ));
            }
            return Err(MonkeyError::RecursionLimit);
        }
        let op = self.cur_token.literal.clone();
        self.next_token();
        let right = match self.parse_expression(Precedence::Prefix, depth - 1) {
            Ok(right) => right,
            Err(e) => {
                proof {
                    reveal_with_fuel(sp_parse_prefix_expression, 1);
                }
                return Err(e);
            },
        };
        proof {
            reveal_with_fuel(sp_parse_prefix_expression, 1);
        }
        Ok(Expression::Prefix { op, right: Box::new(right) })
    }

    /// Precedence climbing: a prefix rule builds the initial expression, and
    /// while the upcoming token binds tighter than the threshold it is
    /// consumed as an infix operator or a call.
    #[verifier::spinoff_prover]
    fn parse_expression(&mut self, precedence: Precedence, depth: u64) -> (r: Result<
        Expression,
        MonkeyError,
    >)
        requires
            old(self).wf(),
        ensures
            final(self).wf(),
            ({
                let stepped = sp_parse_expression(old(self).st(), precedence, depth);
                final(self).st() == stepped.1 && (match (r, stepped.0) {
                    (Ok(expr), Ok(ev)) => expr.deep_view() == ev,
                    (Err(e), Err(ev)) => e.deep_view() == ev,
                    _ => false,
                })
            }),
        decreases depth,
    {
        let ghost st0 = self.st();
        if depth == 0 {
            proof {
                reveal_with_fuel(sp_parse_expression, 1);
                assert(sp_parse_expression(st0, precedence, depth) == (
                    Result::<ExprV, ErrV>::Err(ErrV::RecursionLimit),
                    st0,
                ));
            }
            return Err(MonkeyError::RecursionLimit);
        }
        let prefix = match self.cur_token.kind {
            TokenKind::Ident => self.parse_prefix(),
            TokenKind::Int => self.parse_int(),
            TokenKind::True => self.parse_boolean(),
            TokenKind::False => self.parse_boolean(),
            TokenKind::Bang => self.parse_prefix_expression(depth - 1),
            TokenKind::Minus => self.parse_prefix_expression(depth - 1),
            TokenKind::Lparen => self.parse_group_expression(depth - 1),
            TokenKind::If => self.parse_if_expression(depth - 1),
            TokenKind::Function => self.parse_function_literal(depth - 1),
            _ => {
                proof {
                    reveal_with_fuel(sp_parse_expression, 1);
                    assert(sp_parse_expression(st0, precedence, depth) == (
                        Result::<ExprV, ErrV>::Err(ErrV::InvalidToken(st0.cur)),
                        st0,
                    ));
                }
                return Err(MonkeyError::InvalidToken(self.cur_token.clone()));
            },
        };
        let mut left = match prefix {
            Ok(left) => left,
            Err(e) => {
                proof {
                    reveal_with_fuel(sp_parse_expression, 1);
                    assert(sp_parse_expression(st0, precedence, depth) == (
                        Result::<ExprV, ErrV>::Err(e.deep_view()),
                        self.st(),
                    ));
                }
                return Err(e);
            },
        };
        proof {
            reveal_with_fuel(sp_parse_expression, 1);
            reveal_with_fuel(sp_climb, 1);
            assert(sp_parse_expression(st0, precedence, depth) == sp_climb(
                self.st(),
                precedence,
                left.deep_view(),
                u64::MAX,
                depth,
            ));
        }

        let mut budget: u64 = u64::MAX;
        while !self.peek_token_is(TokenKind::Semicolon) && precedence.rank()
            < self.peek_precedence().rank()
            invariant
                self.wf(),
                depth > 0,
                st0 == old(self).st(),
                sp_parse_expression(st0, precedence, depth) == sp_climb(
                    self.st(),
                    precedence,
                    left.deep_view(),
                    budget,
                    depth,
                ),
            decreases budget,
        {
            let ghost st_head = self.st();
            let ghost left_head = left.deep_view();
            let ghost budget_head = budget;
            if budget == 0 {
                proof {
                    reveal_with_fuel(sp_climb, 1);
                    assert(sp_climb(st_head, precedence, left_head, budget_head, depth) == (
                        Result::<ExprV, ErrV>::Err(ErrV::RecursionLimit),
                        st_head,
                    ));
                }
                return Err(MonkeyError::RecursionLimit);
            }
            budget = budget - 1;
            left = match self.peek_token.kind {
                TokenKind::Plus
                | TokenKind::Minus
                | TokenKind::Slash
                | TokenKind::Aster
                | TokenKind::Equal
                | TokenKind::NotEqual
                | TokenKind::LessThan
                | TokenKind::GreaterThan => {
                    self.next_token();
                    match self.parse_infix_expression(left, depth - 1) {
                        Ok(expr) => {
                            proof {
                                reveal_with_fuel(sp_climb, 1);
                                assert(sp_climb(st_head, precedence, left_head, budget_head, depth)
                                    == sp_climb(
                                    self.st(),
                                    precedence,
                                    expr.deep_view(),
                                    budget,
                                    depth,
                                ));
                            }
                            expr
                        },
                        Err(e) => {
                            proof {
                                reveal_with_fuel(sp_climb, 1);
                                assert(sp_climb(st_head, precedence, left_head, budget_head, depth)
                                    == (Result::<ExprV, ErrV>::Err(e.deep_view()), self.st()));
                            }
                            return Err(e);
                        },
                    }
                },
                TokenKind::Lparen => {
                    self.next_token();
                    match self.parse_call_expression(left, depth - 1) {
                        Ok(expr) => {
                            proof {
                                reveal_with_fuel(sp_climb, 1);
                                assert(sp_climb(st_head, precedence, left_head, budget_head, depth)
                                    == sp_climb(
                                    self.st(),
                                    precedence,
                                    expr.deep_view(),
                                    budget,
                                    depth,
                                ));
                            }
                            expr
                        },
                        Err(e) => {
                            proof {
                                reveal_with_fuel(sp_climb, 1);
                                assert(sp_climb(st_head, precedence, left_head, budget_head, depth)
                                    == (Result::<ExprV, ErrV>::Err(e.deep_view()), self.st()));
                            }
                            return Err(e);
                        },
                    }
                },
                _ => {
                    proof {
                        reveal_with_fuel(sp_climb, 1);
                        assert(sp_climb(st_head, precedence, left_head, budget_head, depth) == (
                            Result::<ExprV, ErrV>::Ok(left_head),
                            st_head,
                        ));
                    }
                    return Ok(left);
                },
            };
        }
        proof {
            reveal_with_fuel(sp_climb, 1);
            assert(sp_climb(self.st(), precedence, left.deep_view(), budget, depth) == (
                Result::<ExprV, ErrV>::Ok(left.deep_view()),
                self.st(),
            ));
        }
        Ok(left)
    }

    /// A call: the expression parsed so far becomes the callee.
    #[verifier::spinoff_prover]
    fn parse_call_expression(&mut self, function: Expression, depth: u64) -> (r: Result<
        Expression,
        MonkeyError,
    >)
        requires
            old(self).wf(),
        ensures
            final(self).wf(),
            ({
                let stepped = sp_parse_call_expression(old(self).st(), function.deep_view(), depth);
                final(self).st() == stepped.1 && (match (r, stepped.0) {
                    (Ok(expr), Ok(ev)) => expr.deep_view() == ev,
                    (Err(e), Err(ev)) => e.deep_view() == ev,
                    _ => false,
                })
            }),
        decreases depth,
    {
        let ghost st0 = self.st();
        let ghost function_v = function.deep_view();
        if depth == 0 {
            proof {
                reveal_with_fuel(sp_parse_call_expression, 1);
                assert(sp_parse_call_expression(st0, function_v, depth) == (
                    Result::<ExprV, ErrV>::Err(ErrV::RecursionLimit),
                    st0,
                ));
            }
            return Err(MonkeyError::RecursionLimit);
        }
        let arguments = match self.parse_call_arguments(depth - 1) {
            Ok(arguments) => arguments,
            Err(e) => {
                proof {
                    reveal_with_fuel(sp_parse_call_expression, 1);
                }
                return Err(e);
            },
        };
        proof {
            reveal_with_fuel(sp_parse_call_expression, 1);
        }
        Ok(Expression::Call { function: Box::new(function), arguments })
    }

    /// A comma-separated argument list up to the closing `)`; the empty list
    /// is allowed.
    #[verifier::spinoff_prover]
    fn parse_call_arguments(&mut self, depth: u64) -> (r: Result<Vec<Expression>, MonkeyError>)
        requires
            old(self).wf(),
        ensures
            final(self).wf(),
            ({
                let stepped = sp_parse_call_arguments(old(self).st(), depth);
                final(self).st() == stepped.1 && (match (r, stepped.0) {
                    (Ok(args), Ok(sv)) => view_of_exprs(args@) == sv,
                    (Err(e), Err(ev)) => e.deep_view() == ev,
                    _ => false,
                })
            }),
        decreases depth,
    {
        let ghost st0 = self.st();
        if depth == 0 {
            proof {
                reveal_with_fuel(sp_parse_call_arguments, 1);
                assert(sp_parse_call_arguments(st0, depth) == (
                    Result::<Seq<ExprV>, ErrV>::Err(ErrV::RecursionLimit),
                    st0,
                ));
            }
            return Err(MonkeyError::RecursionLimit);
        }
        let mut args: Vec<Expression> = Vec::new();

        if self.peek_token_is(TokenKind::Rparen) {
            self.next_token();
            proof {
                reveal_with_fuel(sp_parse_call_arguments, 1);
                assert(view_of_exprs(args@) =~= Seq::<ExprV>::empty());
                assert(sp_parse_call_arguments(st0, depth) == (
                    Result::<Seq<ExprV>, ErrV>::Ok(Seq::empty()),
                    self.st(),
                ));
            }
            return Ok(args);
        }

        self.next_token();
        match self.parse_expression(Precedence::Lowest, depth - 1) {
            Ok(arg) => args.push(arg),
            Err(e) => {
                proof {
                    reveal_with_fuel(sp_parse_call_arguments, 1);
                }
                return Err(e);
            },
        }
        proof {
            reveal_with_fuel(sp_parse_call_arguments, 1);
            reveal_with_fuel(sp_args_loop, 1);
            lemma_view_of_exprs_index(args@);
            assert(view_of_exprs(args@) =~= seq![view_of_expr(args@[0])]);
            assert(sp_parse_call_arguments(st0, depth) == sp_args_loop(
                self.st(),
                view_of_exprs(args@),
                u64::MAX,
                depth,
            ));
        }

        let mut budget: u64 = u64::MAX;
        while self.peek_token_is(TokenKind::Comma)
            invariant
                self.wf(),
                depth > 0,
                st0 == old(self).st(),
                sp_parse_call_arguments(st0, depth) == sp_args_loop(
                    self.st(),
                    view_of_exprs(args@),
                    budget,
                    depth,
                ),
            decreases budget,
        {
            let ghost st_head = self.st();
            let ghost acc_head = view_of_exprs(args@);
            let ghost budget_head = budget;
            if budget == 0 {
                proof {
                    reveal_with_fuel(sp_args_loop, 1);
                    assert(sp_args_loop(st_head, acc_head, budget_head, depth) == (
                        Result::<Seq<ExprV>, ErrV>::Err(ErrV::RecursionLimit),
                        st_head,
                    ));
                }
                return Err(MonkeyError::RecursionLimit);
            }
            budget = budget - 1;
            self.next_token();
            self.next_token();
            match self.parse_expression(Precedence::Lowest, depth - 1) {
                Ok(arg) => {
                    let ghost arg_v = arg.deep_view();
                    let ghost before = args@;
                    args.push(arg);
                    proof {
                        reveal_with_fuel(sp_args_loop, 1);
                        assert(args@.drop_last() =~= before);
                        lemma_view_of_exprs_index(args@);
                        lemma_view_of_exprs_index(before);
                        assert(view_of_exprs(args@) =~= acc_head.push(arg_v));
                        assert(sp_args_loop(st_head, acc_head, budget_head, depth)
                            == sp_args_loop(self.st(), view_of_exprs(args@), budget, depth));
                    }
                },
                Err(e) => {
                    proof {
                        reveal_with_fuel(sp_args_loop, 1);
                        assert(sp_args_loop(st_head, acc_head, budget_head, depth) == (
                            Result::<Seq<ExprV>, ErrV>::Err(e.deep_view()),
                            self.st(),
                        ));
                    }
                    return Err(e);
                },
            }
        }

        if !self.expect_peek(TokenKind::Rparen) {
            proof {
                reveal_with_fuel(sp_args_loop, 1);
                assert(sp_args_loop(self.st(), view_of_exprs(args@), budget, depth) == (
                    Result::<Seq<ExprV>, ErrV>::Err(ErrV::UnexpectedToken(
                        TokenKind::Rparen,
                        self.st().peek,
                    )),
                    self.st(),
                ));
            }
            return Err(MonkeyError::UnexpectedToken(TokenKind::Rparen, self.peek_token.clone()));
        }
        proof {
            reveal_with_fuel(sp_args_loop, 1);
        }
        Ok(args)
    }

    /// `fn (<parameters>) { <body> }`
    #[verifier::spinoff_prover]
    fn parse_function_literal(&mut self, depth: u64) -> (r: Result<Expression, MonkeyError>)
        requires
            old(self).wf(),
        ensures
            final(self).wf(),
            ({
                let stepped = sp_parse_function_literal(old(self).st(), depth);
                final(self).st() == stepped.1 && (match (r, stepped.0) {
                    (Ok(expr), Ok(ev)) => expr.deep_view() == ev,
                    (Err(e), Err(ev)) => e.deep_view() == ev,
                    _ => false,
                })
            }),
        decreases depth,
    {
        let ghost st0 = self.st();
        if depth == 0 {
            proof {
                reveal_with_fuel(sp_parse_function_literal, 1);
                assert(sp_parse_function_literal(st0, depth) == (
                    Result::<ExprV, ErrV>::Err(ErrV::RecursionLimit),
                    st0,
                ));
            }
            return Err(MonkeyError::RecursionLimit);
        }
        if !self.expect_peek(TokenKind::Lparen) {
            proof {
                reveal_with_fuel(sp_parse_function_literal, 1);
            }
            return Err(MonkeyError::UnexpectedToken(TokenKind::Lparen, self.peek_token.clone()));
        }

        let parameters = match self.parse_function_parameters() {
            Ok(parameters) => parameters,
            Err(e) => {
                proof {
                    reveal_with_fuel(sp_parse_function_literal, 1);
                }
                return Err(e);
            },
        };

        if !self.expect_peek(TokenKind::Lbrace) {
            proof {
                reveal_with_fuel(sp_parse_function_literal, 1);
            }
            return Err(MonkeyError::UnexpectedToken(TokenKind::Lbrace, self.peek_token.clone()));
        }

        let body = match self.parse_block_statement(depth - 1) {
            Ok(body) => body,
            Err(e) => {
                proof {
                    reveal_with_fuel(sp_parse_function_literal, 1);
                }
                return Err(e);
            },
        };
        proof {
            reveal_with_fuel(sp_parse_function_literal, 1);
        }
        Ok(Expression::Function { parameters, body })
    }

    /// A comma-separated list of parameter names up to the closing `)`.
    #[verifier::spinoff_prover]
    fn parse_function_parameters(&mut self) -> (r: Result<Vec<String>, MonkeyError>)
        requires
            old(self).wf(),
        ensures
            final(self).wf(),
            ({
                let stepped = sp_parse_function_parameters(old(self).st(), u64::MAX);
                final(self).st() == stepped.1 && (match (r, stepped.0) {
                    (Ok(names), Ok(sv)) => names.deep_view() == sv,
                    (Err(e), Err(ev)) => e.deep_view() == ev,
                    _ => false,
                })
            }),
    {
        let ghost st0 = self.st();
        let mut idents: Vec<String> = Vec::new();

        if self.peek_token_is(TokenKind::Rparen) {
            self.next_token();
            proof {
                reveal_with_fuel(sp_parse_function_parameters, 1);
                assert(idents.deep_view() =~= Seq::<Seq<char>>::empty());
                assert(sp_parse_function_parameters(st0, u64::MAX) == (
                    Result::<Seq<Seq<char>>, ErrV>::Ok(Seq::empty()),
                    self.st(),
                ));
            }
            return Ok(idents);
        }

        self.next_token();

        idents.push(self.cur_token.literal.clone());
        proof {
            reveal_with_fuel(sp_parse_function_parameters, 1);
            reveal_with_fuel(sp_params_loop, 1);
            assert(idents.deep_view() =~= seq![self.cur_token.literal@]);
            assert(sp_parse_function_parameters(st0, u64::MAX) == sp_params_loop(
                self.st(),
                idents.deep_view(),
                u64::MAX,
            ));
        }

        let mut budget: u64 = u64::MAX;
        while self.peek_token_is(TokenKind::Comma)
            invariant
                self.wf(),
                st0 == old(self).st(),
                sp_parse_function_parameters(st0, u64::MAX) == sp_params_loop(
                    self.st(),
                    idents.deep_view(),
                    budget,
                ),
            decreases budget,
        {
            let ghost st_head = self.st();
            let ghost acc_head = idents.deep_view();
            let ghost budget_head = budget;
            if budget == 0 {
                proof {
                    reveal_with_fuel(sp_params_loop, 1);
                    assert(sp_params_loop(st_head, acc_head, budget_head) == (
                        Result::<Seq<Seq<char>>, ErrV>::Err(ErrV::RecursionLimit),
                        st_head,
                    ));
                }
                return Err(MonkeyError::RecursionLimit);
            }
            budget = budget - 1;
            self.next_token();
            self.next_token();
            let ghost before = idents.deep_view();
            idents.push(self.cur_token.literal.clone());
            proof {
                reveal_with_fuel(sp_params_loop, 1);
                assert(idents.deep_view() =~= before.push(self.cur_token.literal@));
                assert(sp_params_loop(st_head, acc_head, budget_head) == sp_params_loop(
                    self.st(),
                    idents.deep_view(),
                    budget,
                ));
            }
        }

        if !self.expect_peek(TokenKind::Rparen) {
            proof {
                reveal_with_fuel(sp_params_loop, 1);
                assert(sp_params_loop(self.st(), idents.deep_view(), budget) == (
                    Result::<Seq<Seq<char>>, ErrV>::Err(ErrV::UnexpectedToken(
                        TokenKind::Rparen,
                        self.st().peek,
                    )),
                    self.st(),
                ));
            }
            return Err(MonkeyError::UnexpectedToken(TokenKind::Rparen, self.peek_token.clone()));
        }
        proof {
            reveal_with_fuel(sp_params_loop, 1);
        }
        Ok(idents)
    }

    /// `if (<condition>) { <consequence> } [else { <alternative> }]`
    #[verifier::spinoff_prover]
    fn parse_if_expression(&mut self, depth: u64) -> (r: Result<Expression, MonkeyError>)
        requires
            old(self).wf(),
        ensures
            final(self).wf(),
            ({
                let stepped = sp_parse_if_expression(old(self).st(), depth);
                final(self).st() == stepped.1 && (match (r, stepped.0) {
                    (Ok(expr), Ok(ev)) => expr.deep_view() == ev,
                    (Err(e), Err(ev)) => e.deep_view() == ev,
                    _ => false,
                })
            }),
        decreases depth,
    {
        let ghost st0 = self.st();
        if depth == 0 {
            proof {
                reveal_with_fuel(sp_parse_if_expression, 1);
                assert(sp_parse_if_expression(st0, depth) == (
                    Result::<ExprV, ErrV>::Err(ErrV::RecursionLimit),
                    st0,
                ));
            }
            return Err(MonkeyError::RecursionLimit);
        }
        if !self.expect_peek(TokenKind::Lparen) {
            proof {
                reveal_with_fuel(sp_parse_if_expression, 1);
            }
            return Err(MonkeyError::UnexpectedToken(TokenKind::Lparen, self.peek_token.clone()));
        }

        self.next_token();
        let condition = match self.parse_expression(Precedence::Lowest, depth - 1) {
            Ok(condition) => condition,
            Err(e) => {
                proof {
                    reveal_with_fuel(sp_parse_if_expression, 1);
                }
                return Err(e);
            },
        };

        if !self.expect_peek(TokenKind::Rparen) {
            proof {
                reveal_with_fuel(sp_parse_if_expression, 1);
            }
            return Err(MonkeyError::UnexpectedToken(TokenKind::Rparen, self.peek_token.clone()));
        }
        if !self.expect_peek(TokenKind::Lbrace) {
            proof {
                reveal_with_fuel(sp_parse_if_expression, 1);
            }
            return Err(MonkeyError::UnexpectedToken(TokenKind::Lbrace, self.peek_token.clone()));
        }

        let consequence = match self.parse_block_statement(depth - 1) {
            Ok(consequence) => consequence,
            Err(e) => {
                proof {
                    reveal_with_fuel(sp_parse_if_expression, 1);
                }
                return Err(e);
            },
        };
        let ghost cond_v = condition.deep_view();
        let ghost cons_v = consequence.deep_view();
        let ghost st_alt = self.st();
        proof {
            reveal_with_fuel(sp_parse_if_expression, 1);
            reveal_with_fuel(sp_if_alternative, 1);
            assert(sp_parse_if_expression(st0, depth) == sp_if_alternative(
                st_alt,
                cond_v,
                cons_v,
                (depth - 1) as u64,
            ));
        }
        let mut alternative: Option<BlockStatement> = None;

        if self.peek_token_is(TokenKind::Else) {
            self.next_token();

            if !self.expect_peek(TokenKind::Lbrace) {
                proof {
                    reveal_with_fuel(sp_if_alternative, 1);
                }
                return Err(MonkeyError::UnexpectedToken(
                    TokenKind::Lbrace,
                    self.peek_token.clone(),
                ));
            }

            alternative = match self.parse_block_statement(depth - 1) {
                Ok(block) => Some(block),
                Err(e) => {
                    proof {
                        reveal_with_fuel(sp_if_alternative, 1);
                    }
                    return Err(e);
                },
            };
        }
        proof {
            reveal_with_fuel(sp_if_alternative, 1);
        }
        Ok(Expression::If { condition: Box::new(condition), consequence, alternative })
    }

    /// Statements up to the matching `}` (or `Eof`).
    #[verifier::spinoff_prover]
    fn parse_block_statement(&mut self, depth: u64) -> (r: Result<BlockStatement, MonkeyError>)
        requires
            old(self).wf(),
        ensures
            final(self).wf(),
            ({
                let stepped = sp_parse_block_statement(old(self).st(), depth);
                final(self).st() == stepped.1 && (match (r, stepped.0) {
                    (Ok(block), Ok(sv)) => block.deep_view() == sv,
                    (Err(e), Err(ev)) => e.deep_view() == ev,
                    _ => false,
                })
            }),
        decreases depth,
    {
        let ghost st0 = self.st();
        if depth == 0 {
            proof {
                reveal_with_fuel(sp_parse_block_statement, 1);
                assert(sp_parse_block_statement(st0, depth) == (
                    Result::<Seq<StmtV>, ErrV>::Err(ErrV::RecursionLimit),
                    st0,
                ));
            }
            return Err(MonkeyError::RecursionLimit);
        }
        self.next_token();
        let mut statements: Vec<Statement> = Vec::new();
        proof {
            reveal_with_fuel(sp_parse_block_statement, 1);
            reveal_with_fuel(sp_block_loop, 1);
            assert(view_of_stmts(statements@) =~= Seq::<StmtV>::empty());
            assert(sp_parse_block_statement(st0, depth) == sp_block_loop(
                self.st(),
                view_of_stmts(statements@),
                u64::MAX,
                depth,
            ));
        }
        let mut budget: u64 = u64::MAX;
        while !self.cur_token_is(TokenKind::Rbrace) && !self.cur_token_is(TokenKind::Eof)
            invariant
                self.wf(),
                depth > 0,
                st0 == old(self).st(),
                sp_parse_block_statement(st0, depth) == sp_block_loop(
                    self.st(),
                    view_of_stmts(statements@),
                    budget,
                    depth,
                ),
            decreases budget,
        {
            let ghost st_head = self.st();
            let ghost acc_head = view_of_stmts(statements@);
            let ghost budget_head = budget;
            if budget == 0 {
                proof {
                    reveal_with_fuel(sp_block_loop, 1);
                    assert(sp_block_loop(st_head, acc_head, budget_head, depth) == (
                        Result::<Seq<StmtV>, ErrV>::Err(ErrV::RecursionLimit),
                        st_head,
                    ));
                }
                return Err(MonkeyError::RecursionLimit);
            }
            budget = budget - 1;
            let stmt = match self.parse_statement(depth - 1) {
                Ok(stmt) => stmt,
                Err(e) => {
                    proof {
                        reveal_with_fuel(sp_block_loop, 1);
                        assert(sp_block_loop(st_head, acc_head, budget_head, depth) == (
                            Result::<Seq<StmtV>, ErrV>::Err(e.deep_view()),
                            self.st(),
                        ));
                    }
                    return Err(e);
                },
            };
            let ghost stmt_v = stmt.deep_view();
            let ghost before = statements@;
            statements.push(stmt);
            self.next_token();
            proof {
                reveal_with_fuel(sp_block_loop, 1);
                assert(statements@.drop_last() =~= before);
                assert(view_of_stmts(statements@) == acc_head.push(stmt_v));
                assert(sp_block_loop(st_head, acc_head, budget_head, depth) == sp_block_loop(
                    self.st(),
                    view_of_stmts(statements@),
                    budget,
                    depth,
                ));
            }
        }
        proof {
            reveal_with_fuel(sp_block_loop, 1);
            assert(sp_block_loop(self.st(), view_of_stmts(statements@), budget, depth) == (
                Result::<Seq<StmtV>, ErrV>::Ok(view_of_stmts(statements@)),
                self.st(),
            ));
        }
        Ok(BlockStatement { statements })
    }

    /// A binary operator: the right operand is parsed at the operator's own
    /// precedence, which makes equal-precedence chains left-associative.
    #[verifier::spinoff_prover]
    fn parse_infix_expression(&mut self, left: Expression, depth: u64) -> (r: Result<
        Expression,
        MonkeyError,
    >)
        requires
            old(self).wf(),
        ensures
            final(self).wf(),
            ({
                let stepped = sp_parse_infix_expression(old(self).st(), left.deep_view(), depth);
                final(self).st() == stepped.1 && (match (r, stepped.0) {
                    (Ok(expr), Ok(ev)) => expr.deep_view() == ev,
                    (Err(e), Err(ev)) => e.deep_view() == ev,
                    _ => false,
                })
            }),
        decreases depth,
    {
        let ghost st0 = self.st();
        let ghost left_v = left.deep_view();
        if depth == 0 {
            proof {
                reveal_with_fuel(sp_parse_infix_expression, 1);
                assert(sp_parse_infix_expression(st0, left_v, depth) == (
                    Result::<ExprV, ErrV>::Err(ErrV::RecursionLimit),
                    st0,
                ));
            }
            return Err(MonkeyError::RecursionLimit);
        }
        let op = self.cur_token.literal.clone();
        let precedence = self.cur_precedence();
        self.next_token();
        let right = match self.parse_expression(precedence, depth - 1) {
            Ok(right) => right,
            Err(e) => {
                proof {
                    reveal_with_fuel(sp_parse_infix_expression, 1);
                }
                return Err(e);
            },
        };
        proof {
            reveal_with_fuel(sp_parse_infix_expression, 1);
        }
        Ok(Expression::Infix { left: Box::new(left), op, right: Box::new(right) })
    }

    /// The prefix rule for a token that stands for itself: an identifier or
    /// an integer literal.
    #[verifier::spinoff_prover]
    fn parse_prefix(&self) -> (r: Result<Expression, MonkeyError>)
        ensures
            ({
                match self.cur_token.kind {
                    TokenKind::Ident => r matches Ok(e) && e.deep_view() == ExprV::Ident(
                        self.cur_token.literal@,
                    ),
                    TokenKind::Int => (match (r, int_literal_value(self.cur_token.literal@)) {
                        (Ok(e), Some(value)) => e.deep_view() == ExprV::Int(value),
                        (Err(e), None) => e.deep_view() == ErrV::InvalidInteger(
                            self.cur_token.deep_view(),
                        ),
                        _ => false,
                    }),
                    _ => r matches Err(e) && e.deep_view() == ErrV::InvalidToken(
                        self.cur_token.deep_view(),
                    ),
                }
            }),
    {
        match self.cur_token.kind {
            TokenKind::Ident => self.parse_identifier(),
            TokenKind::Int => self.parse_int(),
            _ => Err(MonkeyError::InvalidToken(self.cur_token.clone())),
        }
    }

    /// `( <expression> )`
    #[verifier::spinoff_prover]
    fn parse_group_expression(&mut self, depth: u64) -> (r: Result<Expression, MonkeyError>)
        requires
            old(self).wf(),
        ensures
            final(self).wf(),
            ({
                let stepped = sp_parse_group_expression(old(self).st(), depth);
                final(self).st() == stepped.1 && (match (r, stepped.0) {
                    (Ok(expr), Ok(ev)) => expr.deep_view() == ev,
                    (Err(e), Err(ev)) => e.deep_view() == ev,
                    _ => false,
                })
            }),
        decreases depth,
    {
        let ghost st0 = self.st();
        if depth == 0 {
            proof {
                reveal_with_fuel(sp_parse_group_expression, 1);
                assert(sp_parse_group_expression(st0, depth) == (
                    Result::<ExprV, ErrV>::Err(ErrV::RecursionLimit),
                    st0,
                ));
            }
            return Err(MonkeyError::RecursionLimit);
        }
        self.next_token();
        let expr = self.parse_expression(Precedence::Lowest, depth - 1);
        if !self.expect_peek(TokenKind::Rparen) {
            proof {
                reveal_with_fuel(sp_parse_group_expression, 1);
            }
            return Err(MonkeyError::UnexpectedToken(TokenKind::Rparen, self.peek_token.clone()));
        }
        proof {
            reveal_with_fuel(sp_parse_group_expression, 1);
        }
        expr
    }

    /// The current identifier token as an expression.
    #[verifier::spinoff_prover]
    fn parse_identifier(&self) -> (r: Result<Expression, MonkeyError>)
        ensures
            r matches Ok(e) && e.deep_view() == ExprV::Ident(self.cur_token.literal@),
    {
        Ok(Expression::Ident(self.cur_token.literal.clone()))
    }

    /// The current integer-literal token as an expression; a literal that
    /// does not fit in an `i64` is a parse error.
    #[verifier::spinoff_prover]
    fn parse_int(&self) -> (r: Result<Expression, MonkeyError>)
        ensures
            ({
                match (r, int_literal_value(self.cur_token.literal@)) {
                    (Ok(e), Some(value)) => e.deep_view() == ExprV::Int(value),
                    (Err(e), None) => e.deep_view() == ErrV::InvalidInteger(
                        self.cur_token.deep_view(),
                    ),
                    _ => false,
                }
            }),
    {
        match parse_i64(self.cur_token.literal.as_str()) {
            Some(num) => Ok(Expression::Int(num)),
            None => Err(MonkeyError::InvalidInteger(self.cur_token.clone())),
        }
    }

    /// The current boolean-keyword token as an expression.
    #[verifier::spinoff_prover]
    fn parse_boolean(&self) -> (r: Result<Expression, MonkeyError>)
        ensures
            r matches Ok(e) && e.deep_view() == ExprV::Boolean(
                self.cur_token.kind == TokenKind::True,
            ),
    {
        Ok(Expression::Boolean(self.cur_token_is(TokenKind::True)))
    }

    /// Whether the current token has the given kind.
    fn cur_token_is(&self, tok: TokenKind) -> (r: bool)
        ensures
            r == (self.cur_token.kind == tok),
    {
        self.cur_token.kind == tok
    }

    /// Whether the upcoming token has the given kind.
    fn peek_token_is(&self, tok: TokenKind) -> (r: bool)
        ensures
            r == (self.peek_token.kind == tok),
    {
        self.peek_token.kind == tok
    }

    /// Advances past the upcoming token exactly when it has the expected
    /// kind; otherwise the parser is left untouched.
    #[verifier::spinoff_prover]
    fn expect_peek(&mut self, tok: TokenKind) -> (r: bool)
        requires
            old(self).wf(),
        ensures
            final(self).wf(),
            r == (old(self).peek_token.kind == tok),
            r ==> final(self).st() == advance(old(self).st()),
            !r ==> *final(self) == *old(self),
    {
        if self.peek_token_is(tok) {
            self.next_token();
            true
        } else {
            false
        }
    }

    /// The current token's infix binding power.
    fn cur_precedence(&self) -> (p: Precedence)
        ensures
            p == precedence_of(self.cur_token.kind),
    {
        self.cur_token.get_precedence()
    }

    /// The upcoming token's infix binding power.
    fn peek_precedence(&self) -> (p: Precedence)
        ensures
            p == precedence_of(self.peek_token.kind),
    {
        self.peek_token.get_precedence()
    }
}

} // verus!
