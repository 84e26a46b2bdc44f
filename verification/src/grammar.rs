//! The grammar, as functions from a token stream to what the parser makes
//! of it.
//!
//! Each function takes the tokens that are still to be read and yields a
//! `Parsed`: the value recognised at the front of the stream, or the reason
//! why none was, and the tokens left behind it. After a failure the tokens
//! left begin with the one that was refused.
//!
//! Where a function goes on with the tokens that another one left, it first
//! compares the lengths of the two streams. That makes the recursion well
//! founded; `grammar_laws` shows that the comparison never fails, because
//! what is left is always a suffix of what was given.

use vstd::prelude::*;
use crate::ast::{ExprView, FunctionView, ItemView, PrototypeView};
use crate::error::{missing, unexpected, Construct, ParseErrorView};
use crate::token::{Lexeme, TokenView};

verus! {

/// What a parse yields: the value or the error, and the tokens left.
pub struct Parsed<T> {
    pub result: Result<T, ParseErrorView>,
    pub rest: Seq<Lexeme>,
}

/// A parse that recognised `value` and left `rest`.
pub open spec fn accept<T>(value: T, rest: Seq<Lexeme>) -> Parsed<T> {
    Parsed { result: Ok(value), rest }
}

/// A parse that failed with `error` in front of `rest`.
pub open spec fn reject<T>(error: ParseErrorView, rest: Seq<Lexeme>) -> Parsed<T> {
    Parsed { result: Err(error), rest }
}

/// The first token of the stream, if there is one.
pub open spec fn peek(s: Seq<Lexeme>) -> Option<Lexeme> {
    if s.len() > 0 {
        Some(s[0])
    } else {
        None
    }
}

/// Whether the stream begins with the character `c` as a token of its own.
pub open spec fn at_char(s: Seq<Lexeme>, c: char) -> bool {
    s.len() > 0 && s[0] == Ok::<TokenView, Seq<char>>(TokenView::UnknownChar(c))
}

/// The identifier that the stream begins with, if it begins with one.
pub open spec fn identifier_at(s: Seq<Lexeme>) -> Option<Seq<char>> {
    match peek(s) {
        Some(Ok(TokenView::Identifier(name))) => Some(name),
        _ => None,
    }
}

/// How tightly a binary operator binds; `None` for a character that is no
/// operator.
pub open spec fn precedence(c: char) -> Option<u32> {
    if c == '*' {
        Some(40u32)
    } else if c == '+' || c == '-' {
        Some(20u32)
    } else if c == '<' {
        Some(10u32)
    } else {
        None
    }
}

/// The precedence of the operator that the stream begins with, if it
/// begins with one.
pub open spec fn operator_at(s: Seq<Lexeme>) -> Option<u32> {
    match peek(s) {
        Some(Ok(TokenView::UnknownChar(c))) => precedence(c),
        _ => None,
    }
}

/// The character of the token that the stream begins with; meaningful
/// where `operator_at` finds an operator.
pub open spec fn symbol_at(s: Seq<Lexeme>) -> char {
    s[0]->Ok_0->UnknownChar_0
}

/// A primary expression: a variable, a call, a number, or an expression in
/// parentheses.
pub open spec fn primary(s: Seq<Lexeme>) -> Parsed<ExprView>
    decreases s.len(), 0nat,
{
    match peek(s) {
        Some(Ok(TokenView::Identifier(name))) => {
            if at_char(s.skip(1), '(') {
                let list = call_arguments(s.skip(1).skip(1));
                match list.result {
                    Ok(args) => accept(ExprView::Call { name, args }, list.rest),
                    Err(error) => reject(error, list.rest),
                }
            } else {
                accept(ExprView::Variable(name), s.skip(1))
            }
        },
        Some(Ok(TokenView::Number(text))) => accept(ExprView::Number(text), s.skip(1)),
        Some(Ok(TokenView::UnknownChar('('))) => parenthesized(s.skip(1)),
        found => reject(unexpected(Construct::Expression, found), s),
    }
}

/// What follows the `(` of an expression in parentheses: the expression
/// and the `)`. The parentheses leave no trace in the tree.
pub open spec fn parenthesized(s: Seq<Lexeme>) -> Parsed<ExprView>
    decreases s.len(), 2nat,
{
    let inner = expression(s);
    match inner.result {
        Ok(expr) => {
            if at_char(inner.rest, ')') {
                accept(expr, inner.rest.skip(1))
            } else {
                reject(missing(')', Construct::Expression, peek(inner.rest)), inner.rest)
            }
        },
        Err(error) => reject(error, inner.rest),
    }
}

/// What follows the `(` of a call: `)` at once for a call without
/// arguments, else the arguments.
pub open spec fn call_arguments(s: Seq<Lexeme>) -> Parsed<Seq<ExprView>>
    decreases s.len(), 3nat,
{
    if at_char(s, ')') {
        accept(Seq::empty(), s.skip(1))
    } else {
        arguments(s, Seq::empty())
    }
}

/// The arguments of a call after those in `done`: an expression, then
/// either `)`, which ends the list, or `,` and more arguments.
pub open spec fn arguments(s: Seq<Lexeme>, done: Seq<ExprView>) -> Parsed<Seq<ExprView>>
    decreases s.len(), 2nat,
{
    let first = expression(s);
    match first.result {
        Ok(arg) => {
            if at_char(first.rest, ')') {
                accept(done.push(arg), first.rest.skip(1))
            } else if at_char(first.rest, ',') && first.rest.len() <= s.len() {
                arguments(first.rest.skip(1), done.push(arg))
            } else {
                reject(missing(',', Construct::Call, peek(first.rest)), first.rest)
            }
        },
        Err(error) => reject(error, first.rest),
    }
}

/// An expression: a primary expression and the operators and operands that
/// follow it.
pub open spec fn expression(s: Seq<Lexeme>) -> Parsed<ExprView>
    decreases s.len(), 1nat,
{
    let first = primary(s);
    match first.result {
        Ok(lhs) if first.rest.len() <= s.len() => binary_rhs(first.rest, 0, lhs),
        _ => first,
    }
}

/// The operators and operands that follow the operand `lhs`, as far as the
/// operators bind at least as tightly as `min_prec`.
///
/// An operator that binds less tightly, or a token that is no operator,
/// ends the expression and is left in the stream. Otherwise the operator
/// takes the primary expression behind it as its right operand, after that
/// operand has taken up what follows it under operators that bind more
/// tightly than this one; the two operands form the left operand of what
/// comes next.
pub open spec fn binary_rhs(s: Seq<Lexeme>, min_prec: nat, lhs: ExprView) -> Parsed<ExprView>
    decreases s.len(), 0nat,
{
    match operator_at(s) {
        Some(prec) if prec >= min_prec => {
            let first = primary(s.skip(1));
            match first.result {
                Ok(operand) if first.rest.len() < s.len() => {
                    let right = match operator_at(first.rest) {
                        Some(next) if next > prec => binary_rhs(
                            first.rest,
                            (prec + 1) as nat,
                            operand,
                        ),
                        _ => first,
                    };
                    match right.result {
                        Ok(rhs) if right.rest.len() < s.len() => binary_rhs(
                            right.rest,
                            min_prec,
                            ExprView::Binary {
                                op: symbol_at(s),
                                lhs: Box::new(lhs),
                                rhs: Box::new(rhs),
                            },
                        ),
                        _ => right,
                    }
                },
                _ => first,
            }
        },
        _ => accept(lhs, s),
    }
}

/// The identifiers that the stream begins with, as far as they go.
pub open spec fn parameters(s: Seq<Lexeme>) -> Seq<Seq<char>>
    decreases s.len(),
{
    match identifier_at(s) {
        Some(name) => seq![name] + parameters(s.skip(1)),
        None => Seq::empty(),
    }
}

/// A prototype: the name of the function, `(`, the names of the parameters
/// with nothing between them, and `)`.
pub open spec fn prototype(s: Seq<Lexeme>) -> Parsed<PrototypeView> {
    match identifier_at(s) {
        Some(name) => {
            let opened = s.skip(1);
            if at_char(opened, '(') {
                let params = parameters(opened.skip(1));
                let closed = opened.skip(1).skip(params.len() as int);
                if at_char(closed, ')') {
                    accept(PrototypeView { name, params }, closed.skip(1))
                } else {
                    reject(missing(')', Construct::Prototype, peek(closed)), closed)
                }
            } else {
                reject(missing('(', Construct::Prototype, peek(opened)), opened)
            }
        },
        None => reject(unexpected(Construct::Prototype, peek(s)), s),
    }
}

/// The prototype of an expression that stands by itself: no name and no
/// parameters.
pub open spec fn anonymous_prototype() -> PrototypeView {
    PrototypeView { name: Seq::empty(), params: Seq::empty() }
}

/// The stream without its first token; at the end of the input, the
/// stream as it is.
pub open spec fn advance(s: Seq<Lexeme>) -> Seq<Lexeme> {
    if s.len() > 0 {
        s.skip(1)
    } else {
        s
    }
}

/// A definition: the keyword `def`, a prototype, and one expression as the
/// body. The keyword is the first token, whatever that token is: who asks
/// for a definition has seen it.
pub open spec fn definition(s: Seq<Lexeme>) -> Parsed<FunctionView> {
    let head = prototype(advance(s));
    match head.result {
        Ok(proto) => {
            let body = expression(head.rest);
            match body.result {
                Ok(expr) => accept(FunctionView { prototype: proto, body: expr }, body.rest),
                Err(error) => reject(error, body.rest),
            }
        },
        Err(error) => reject(error, head.rest),
    }
}

/// A declaration: its keyword and a prototype. The keyword is the first
/// token, whatever that token is: who asks for a declaration has seen it.
pub open spec fn declaration(s: Seq<Lexeme>) -> Parsed<PrototypeView> {
    prototype(advance(s))
}

/// An expression that stands by itself, as the body of a function without
/// a name and without parameters.
pub open spec fn top_level_expr(s: Seq<Lexeme>) -> Parsed<FunctionView> {
    let body = expression(s);
    match body.result {
        Ok(expr) => accept(FunctionView { prototype: anonymous_prototype(), body: expr }, body.rest),
        Err(error) => reject(error, body.rest),
    }
}

/// One unit of source. The first token decides what it is: `def` opens a
/// definition, the keyword of declarations a declaration, and anything
/// else has to be an expression.
pub open spec fn item(s: Seq<Lexeme>) -> Parsed<ItemView> {
    match peek(s) {
        Some(Ok(TokenView::Define)) => {
            let parsed = definition(s);
            match parsed.result {
                Ok(function) => accept(ItemView::Definition(function), parsed.rest),
                Err(error) => reject(error, parsed.rest),
            }
        },
        Some(Ok(TokenView::Extern)) => {
            let parsed = declaration(s);
            match parsed.result {
                Ok(proto) => accept(ItemView::Declaration(proto), parsed.rest),
                Err(error) => reject(error, parsed.rest),
            }
        },
        _ => {
            let parsed = top_level_expr(s);
            match parsed.result {
                Ok(function) => accept(ItemView::Expression(function), parsed.rest),
                Err(error) => reject(error, parsed.rest),
            }
        },
    }
}

/// Whether every binary operation in `expr` has an operator that the
/// precedence table knows.
pub open spec fn operators_known(expr: ExprView) -> bool
    decreases expr,
{
    match expr {
        ExprView::Binary { op, lhs, rhs } => {
            &&& precedence(op) is Some
            &&& operators_known(*lhs)
            &&& operators_known(*rhs)
        },
        ExprView::Call { name, args } => forall|i: int|
            0 <= i < args.len() ==> operators_known(#[trigger] args[i]),
        _ => true,
    }
}

} // verus!
