//! What holds of the grammar, whatever the tokens.

use vstd::prelude::*;
use crate::ast::{ExprView, FunctionView, PrototypeView};
use crate::error::{missing, unexpected, Construct, ParseErrorView};
use crate::grammar::{
    advance, arguments, at_char, binary_rhs, call_arguments, declaration, definition, expression,
    identifier_at, item, operator_at, operators_known, parameters, parenthesized, peek, primary,
    prototype, reject, symbol_at, top_level_expr, Parsed,
};
use crate::lexer::lex;
use crate::token::{Lexeme, TokenView};

verus! {

/// Whether `rest` is what is left of `s` after some of its first tokens
/// were taken away.
pub open spec fn is_suffix(rest: Seq<Lexeme>, s: Seq<Lexeme>) -> bool {
    rest.len() <= s.len() && rest == s.skip(s.len() - rest.len())
}

/// What is left of what is left is left.
pub proof fn lemma_suffix_of_suffix(a: Seq<Lexeme>, b: Seq<Lexeme>, c: Seq<Lexeme>)
    requires
        is_suffix(a, b),
        is_suffix(b, c),
    ensures
        is_suffix(a, c),
{
    assert(c.skip(c.len() - b.len()).skip(b.len() - a.len()) =~= c.skip(c.len() - a.len()));
}

/// A stream without its first token is a suffix of the stream, and so is
/// the stream itself.
pub proof fn lemma_suffix_steps(s: Seq<Lexeme>)
    ensures
        is_suffix(s, s),
        s.len() > 0 ==> is_suffix(s.skip(1), s),
{
    assert(s.skip(0) =~= s);
}

/// A primary expression reads from the front: what it leaves is a suffix
/// of what it was given, and a shorter one where it succeeds.
pub proof fn lemma_primary_rest(s: Seq<Lexeme>)
    ensures
        is_suffix(primary(s).rest, s),
        primary(s).result is Ok ==> primary(s).rest.len() < s.len(),
    decreases s.len(), 0nat,
{
    lemma_suffix_steps(s);
    match peek(s) {
        Some(Ok(TokenView::Identifier(name))) => {
            if at_char(s.skip(1), '(') {
                lemma_call_arguments_rest(s.skip(1).skip(1));
                lemma_suffix_of_suffix(s.skip(1).skip(1), s.skip(1), s);
                lemma_suffix_of_suffix(primary(s).rest, s.skip(1).skip(1), s);
            }
        },
        Some(Ok(TokenView::UnknownChar('('))) => {
            lemma_parenthesized_rest(s.skip(1));
            lemma_suffix_of_suffix(primary(s).rest, s.skip(1), s);
        },
        _ => {},
    }
}

/// What follows a `(` is read from the front: what is left is a suffix of
/// what was given, and a shorter one after a success.
pub proof fn lemma_parenthesized_rest(s: Seq<Lexeme>)
    ensures
        is_suffix(parenthesized(s).rest, s),
        parenthesized(s).result is Ok ==> parenthesized(s).rest.len() < s.len(),
    decreases s.len(), 2nat,
{
    lemma_expression_rest(s);
    let inner = expression(s);
    if inner.result is Ok && at_char(inner.rest, ')') {
        lemma_suffix_of_suffix(inner.rest.skip(1), inner.rest, s);
    }
}

/// The argument list of a call is read from the front: what is left is a
/// suffix of what was given, and a shorter one after a success.
pub proof fn lemma_call_arguments_rest(s: Seq<Lexeme>)
    ensures
        is_suffix(call_arguments(s).rest, s),
        call_arguments(s).result is Ok ==> call_arguments(s).rest.len() < s.len(),
    decreases s.len(), 3nat,
{
    if !at_char(s, ')') {
        lemma_arguments_rest(s, Seq::empty());
    }
}

/// Arguments are read from the front: what is left is a suffix of what was
/// given, and a shorter one after a success.
pub proof fn lemma_arguments_rest(s: Seq<Lexeme>, done: Seq<ExprView>)
    ensures
        is_suffix(arguments(s, done).rest, s),
        arguments(s, done).result is Ok ==> arguments(s, done).rest.len() < s.len(),
    decreases s.len(), 2nat,
{
    lemma_expression_rest(s);
    let first = expression(s);
    if first.result is Ok {
        if at_char(first.rest, ')') {
            lemma_suffix_of_suffix(first.rest.skip(1), first.rest, s);
        } else if at_char(first.rest, ',') {
            let more = first.rest.skip(1);
            lemma_arguments_rest(more, done.push(first.result->Ok_0));
            lemma_suffix_of_suffix(more, first.rest, s);
            lemma_suffix_of_suffix(arguments(more, done.push(first.result->Ok_0)).rest, more, s);
        }
    }
}

/// An expression is read from the front: what is left is a suffix of what
/// was given, and a shorter one after a success.
pub proof fn lemma_expression_rest(s: Seq<Lexeme>)
    ensures
        is_suffix(expression(s).rest, s),
        expression(s).result is Ok ==> expression(s).rest.len() < s.len(),
    decreases s.len(), 1nat,
{
    lemma_primary_rest(s);
    let first = primary(s);
    if first.result is Ok {
        lemma_binary_rhs_rest(first.rest, 0, first.result->Ok_0);
        lemma_suffix_of_suffix(expression(s).rest, first.rest, s);
    }
}

/// The operators and operands behind an operand are read from the front:
/// what is left is a suffix of what was given.
pub proof fn lemma_binary_rhs_rest(s: Seq<Lexeme>, min_prec: nat, lhs: ExprView)
    ensures
        is_suffix(binary_rhs(s, min_prec, lhs).rest, s),
    decreases s.len(), 0nat,
{
    lemma_suffix_steps(s);
    match operator_at(s) {
        Some(prec) if prec >= min_prec => {
            lemma_primary_rest(s.skip(1));
            let first = primary(s.skip(1));
            lemma_suffix_of_suffix(first.rest, s.skip(1), s);
            if first.result is Ok {
                let operand = first.result->Ok_0;
                let right = match operator_at(first.rest) {
                    Some(next) if next > prec => {
                        lemma_binary_rhs_rest(first.rest, (prec + 1) as nat, operand);
                        binary_rhs(first.rest, (prec + 1) as nat, operand)
                    },
                    _ => first,
                };
                lemma_suffix_steps(first.rest);
                lemma_suffix_of_suffix(right.rest, first.rest, s);
                if right.result is Ok {
                    let combined = ExprView::Binary {
                        op: symbol_at(s),
                        lhs: Box::new(lhs),
                        rhs: Box::new(right.result->Ok_0),
                    };
                    lemma_binary_rhs_rest(right.rest, min_prec, combined);
                    lemma_suffix_of_suffix(
                        binary_rhs(right.rest, min_prec, combined).rest,
                        right.rest,
                        s,
                    );
                }
            }
        },
        _ => {},
    }
}

/// The parameters are the identifiers that the stream begins with, and the
/// token behind them is no identifier.
pub proof fn lemma_parameters_len(s: Seq<Lexeme>)
    ensures
        parameters(s).len() <= s.len(),
        forall|i: int|
            0 <= i < parameters(s).len() ==> #[trigger] s[i] == Ok::<TokenView, Seq<char>>(
                TokenView::Identifier(parameters(s)[i]),
            ),
        identifier_at(s.skip(parameters(s).len() as int)) is None,
    decreases s.len(),
{
    match identifier_at(s) {
        Some(name) => {
            lemma_parameters_len(s.skip(1));
            assert forall|i: int| 0 <= i < parameters(s).len() implies #[trigger] s[i] == Ok::<
                TokenView,
                Seq<char>,
            >(TokenView::Identifier(parameters(s)[i])) by {
                if i > 0 {
                    assert(s[i] == s.skip(1)[i - 1]);
                }
            }
        },
        None => {},
    }
}

/// A prototype is read from the front: what is left is a suffix of what
/// was given, and a shorter one after a success.
pub proof fn lemma_prototype_rest(s: Seq<Lexeme>)
    ensures
        is_suffix(prototype(s).rest, s),
        prototype(s).result is Ok ==> prototype(s).rest.len() < s.len(),
{
    lemma_suffix_steps(s);
    if identifier_at(s) is Some {
        let opened = s.skip(1);
        if at_char(opened, '(') {
            let list = opened.skip(1);
            lemma_parameters_len(list);
            let closed = list.skip(parameters(list).len() as int);
            assert(is_suffix(closed, s)) by {
                assert(closed =~= s.skip(s.len() - closed.len()));
            }
            if at_char(closed, ')') {
                lemma_suffix_of_suffix(closed.skip(1), closed, s);
            }
        }
    }
}

/// Every entry point reads from the front: what it leaves is a suffix of
/// what it was given, and a shorter one where it succeeds.
pub proof fn lemma_entry_points_rest(s: Seq<Lexeme>)
    ensures
        is_suffix(definition(s).rest, s),
        is_suffix(declaration(s).rest, s),
        is_suffix(top_level_expr(s).rest, s),
        is_suffix(item(s).rest, s),
        definition(s).result is Ok ==> definition(s).rest.len() < s.len(),
        declaration(s).result is Ok ==> declaration(s).rest.len() < s.len(),
        top_level_expr(s).result is Ok ==> top_level_expr(s).rest.len() < s.len(),
        item(s).result is Ok ==> item(s).rest.len() < s.len(),
{
    lemma_expression_rest(s);
    let head = prototype(advance(s));
    lemma_prototype_rest(advance(s));
    lemma_suffix_of_suffix(head.rest, advance(s), s);
    if head.result is Ok {
        lemma_expression_rest(head.rest);
        lemma_suffix_of_suffix(expression(head.rest).rest, head.rest, s);
    }
}

/// A primary expression has only operators that the table knows.
pub proof fn lemma_primary_operators(s: Seq<Lexeme>)
    ensures
        primary(s).result is Ok ==> operators_known(primary(s).result->Ok_0),
    decreases s.len(), 0nat,
{
    match peek(s) {
        Some(Ok(TokenView::Identifier(name))) => {
            if at_char(s.skip(1), '(') {
                let list = s.skip(1).skip(1);
                if !at_char(list, ')') {
                    lemma_arguments_operators(list, Seq::empty());
                }
            }
        },
        Some(Ok(TokenView::UnknownChar('('))) => {
            lemma_expression_operators(s.skip(1));
        },
        _ => {},
    }
}

/// Arguments have only operators that the table knows, where those
/// before them do.
pub proof fn lemma_arguments_operators(s: Seq<Lexeme>, done: Seq<ExprView>)
    requires
        forall|i: int| 0 <= i < done.len() ==> operators_known(#[trigger] done[i]),
    ensures
        arguments(s, done).result is Ok ==> forall|i: int|
            0 <= i < arguments(s, done).result->Ok_0.len() ==> operators_known(
                #[trigger] arguments(s, done).result->Ok_0[i],
            ),
    decreases s.len(), 2nat,
{
    lemma_expression_operators(s);
    lemma_expression_rest(s);
    let first = expression(s);
    if first.result is Ok && !at_char(first.rest, ')') && at_char(first.rest, ',') {
        lemma_arguments_operators(first.rest.skip(1), done.push(first.result->Ok_0));
    }
}

/// An expression has only operators that the table knows.
pub proof fn lemma_expression_operators(s: Seq<Lexeme>)
    ensures
        expression(s).result is Ok ==> operators_known(expression(s).result->Ok_0),
    decreases s.len(), 1nat,
{
    lemma_primary_operators(s);
    lemma_primary_rest(s);
    let first = primary(s);
    if first.result is Ok {
        lemma_binary_rhs_operators(first.rest, 0, first.result->Ok_0);
    }
}

/// What grows out of an operand has only operators that the table knows,
/// where the operand does.
pub proof fn lemma_binary_rhs_operators(s: Seq<Lexeme>, min_prec: nat, lhs: ExprView)
    requires
        operators_known(lhs),
    ensures
        binary_rhs(s, min_prec, lhs).result is Ok ==> operators_known(
            binary_rhs(s, min_prec, lhs).result->Ok_0,
        ),
    decreases s.len(), 0nat,
{
    match operator_at(s) {
        Some(prec) if prec >= min_prec => {
            lemma_primary_operators(s.skip(1));
            lemma_primary_rest(s.skip(1));
            let first = primary(s.skip(1));
            if first.result is Ok {
                let operand = first.result->Ok_0;
                let right = match operator_at(first.rest) {
                    Some(next) if next > prec => {
                        lemma_binary_rhs_operators(first.rest, (prec + 1) as nat, operand);
                        lemma_binary_rhs_rest(first.rest, (prec + 1) as nat, operand);
                        binary_rhs(first.rest, (prec + 1) as nat, operand)
                    },
                    _ => first,
                };
                if right.result is Ok {
                    lemma_binary_rhs_operators(
                        right.rest,
                        min_prec,
                        ExprView::Binary {
                            op: symbol_at(s),
                            lhs: Box::new(lhs),
                            rhs: Box::new(right.result->Ok_0),
                        },
                    );
                }
            }
        },
        _ => {},
    }
}

/// Climbing stops only in front of a token that is no operator, or of an
/// operator that binds less tightly than the threshold.
pub proof fn lemma_binary_rhs_stops(s: Seq<Lexeme>, min_prec: nat, lhs: ExprView)
    ensures
        binary_rhs(s, min_prec, lhs).result is Ok ==> {
            let rest = binary_rhs(s, min_prec, lhs).rest;
            operator_at(rest) is None || operator_at(rest)->0 < min_prec
        },
    decreases s.len(),
{
    match operator_at(s) {
        Some(prec) if prec >= min_prec => {
            lemma_primary_rest(s.skip(1));
            let first = primary(s.skip(1));
            if first.result is Ok {
                let operand = first.result->Ok_0;
                let right = match operator_at(first.rest) {
                    Some(next) if next > prec => {
                        lemma_binary_rhs_rest(first.rest, (prec + 1) as nat, operand);
                        binary_rhs(first.rest, (prec + 1) as nat, operand)
                    },
                    _ => first,
                };
                if right.result is Ok {
                    lemma_binary_rhs_stops(
                        right.rest,
                        min_prec,
                        ExprView::Binary {
                            op: symbol_at(s),
                            lhs: Box::new(lhs),
                            rhs: Box::new(right.result->Ok_0),
                        },
                    );
                }
            }
        },
        _ => {},
    }
}

/// An expression takes every operator that it can: it ends in front of a
/// token that is no operator, or with the input.
pub proof fn lemma_expression_stops(s: Seq<Lexeme>)
    ensures
        expression(s).result is Ok ==> operator_at(expression(s).rest) is None,
{
    lemma_primary_rest(s);
    let first = primary(s);
    if first.result is Ok {
        lemma_binary_rhs_stops(first.rest, 0, first.result->Ok_0);
    }
}

/// Whether `error` tells what stands in front of `rest`: the token that is
/// the first of `rest`, the end of the input where `rest` is empty, or the
/// malformed literal that stands there.
pub open spec fn reports(error: ParseErrorView, rest: Seq<Lexeme>) -> bool {
    match error {
        ParseErrorView::Lexical(text) => peek(rest) == Some(Err::<TokenView, Seq<char>>(text)),
        ParseErrorView::UnexpectedToken { expected, found } => error == unexpected(
            expected,
            peek(rest),
        ),
        ParseErrorView::MissingDelimiter { delimiter, within, found } => error == missing(
            delimiter,
            within,
            peek(rest),
        ),
    }
}

/// Whether a parse, if it failed, tells what stands in front of the tokens
/// that it left.
pub open spec fn failure_reported<T>(parsed: Parsed<T>) -> bool {
    parsed.result is Err ==> reports(parsed.result->Err_0, parsed.rest)
}

/// A primary expression that fails names the token that it was refused at.
pub proof fn lemma_primary_reports(s: Seq<Lexeme>)
    ensures
        failure_reported(primary(s)),
    decreases s.len(), 0nat,
{
    match peek(s) {
        Some(Ok(TokenView::Identifier(name))) => {
            if at_char(s.skip(1), '(') {
                let list = s.skip(1).skip(1);
                if !at_char(list, ')') {
                    lemma_arguments_reports(list, Seq::empty());
                }
            }
        },
        Some(Ok(TokenView::UnknownChar('('))) => {
            lemma_expression_reports(s.skip(1));
        },
        _ => {},
    }
}

/// Arguments that fail name the token that they were refused at.
pub proof fn lemma_arguments_reports(s: Seq<Lexeme>, done: Seq<ExprView>)
    ensures
        failure_reported(arguments(s, done)),
    decreases s.len(), 2nat,
{
    lemma_expression_reports(s);
    lemma_expression_rest(s);
    let first = expression(s);
    if first.result is Ok && !at_char(first.rest, ')') && at_char(first.rest, ',') {
        lemma_arguments_reports(first.rest.skip(1), done.push(first.result->Ok_0));
    }
}

/// An expression that fails names the token that it was refused at.
pub proof fn lemma_expression_reports(s: Seq<Lexeme>)
    ensures
        failure_reported(expression(s)),
    decreases s.len(), 1nat,
{
    lemma_primary_reports(s);
    lemma_primary_rest(s);
    let first = primary(s);
    if first.result is Ok {
        lemma_binary_rhs_reports(first.rest, 0, first.result->Ok_0);
    }
}

/// Climbing that fails names the token that it was refused at.
pub proof fn lemma_binary_rhs_reports(s: Seq<Lexeme>, min_prec: nat, lhs: ExprView)
    ensures
        failure_reported(binary_rhs(s, min_prec, lhs)),
    decreases s.len(), 0nat,
{
    match operator_at(s) {
        Some(prec) if prec >= min_prec => {
            lemma_primary_reports(s.skip(1));
            lemma_primary_rest(s.skip(1));
            let first = primary(s.skip(1));
            if first.result is Ok {
                let operand = first.result->Ok_0;
                let right = match operator_at(first.rest) {
                    Some(next) if next > prec => {
                        lemma_binary_rhs_reports(first.rest, (prec + 1) as nat, operand);
                        lemma_binary_rhs_rest(first.rest, (prec + 1) as nat, operand);
                        binary_rhs(first.rest, (prec + 1) as nat, operand)
                    },
                    _ => first,
                };
                if right.result is Ok {
                    lemma_binary_rhs_reports(
                        right.rest,
                        min_prec,
                        ExprView::Binary {
                            op: symbol_at(s),
                            lhs: Box::new(lhs),
                            rhs: Box::new(right.result->Ok_0),
                        },
                    );
                }
            }
        },
        _ => {},
    }
}

/// Every failure carries what was found: whatever an entry point fails
/// at, its error names the token in front of which it stopped, or the end
/// of the input, or the malformed literal that stands there.
pub proof fn lemma_failures_are_reported(s: Seq<Lexeme>)
    ensures
        failure_reported(expression(s)),
        failure_reported(prototype(s)),
        failure_reported(definition(s)),
        failure_reported(declaration(s)),
        failure_reported(top_level_expr(s)),
        failure_reported(item(s)),
{
    lemma_expression_reports(s);
    let head = prototype(advance(s));
    if head.result is Ok {
        lemma_expression_reports(head.rest);
    }
}

/// Parsing is a function of the text: equal texts give equal token
/// streams, and from equal streams every entry point gives the same tree
/// or the same error, and leaves the same tokens.
pub proof fn lemma_parsing_is_deterministic(first: Seq<char>, second: Seq<char>)
    requires
        first == second,
    ensures
        lex(first) == lex(second),
        definition(lex(first)) == definition(lex(second)),
        declaration(lex(first)) == declaration(lex(second)),
        top_level_expr(lex(first)) == top_level_expr(lex(second)),
        expression(lex(first)) == expression(lex(second)),
        prototype(lex(first)) == prototype(lex(second)),
{
}

/// A `(` whose expression is not followed by `)` makes no expression: the
/// parse fails in front of the token that stands where the `)` should.
pub proof fn lemma_unterminated_parenthesis(s: Seq<Lexeme>)
    requires
        at_char(s, '('),
        expression(s.skip(1)).result is Ok,
        !at_char(expression(s.skip(1)).rest, ')'),
    ensures
        primary(s) == reject::<ExprView>(
            missing(')', Construct::Expression, peek(expression(s.skip(1)).rest)),
            expression(s.skip(1)).rest,
        ),
        expression(s) == primary(s),
        top_level_expr(s).result == Err::<FunctionView, ParseErrorView>(
            missing(')', Construct::Expression, peek(expression(s.skip(1)).rest)),
        ),
{
}

/// An argument of a call that is followed neither by `)` nor by `,` makes
/// no call: the parse fails in front of the token that follows the
/// argument.
pub proof fn lemma_missing_comma(s: Seq<Lexeme>, done: Seq<ExprView>)
    requires
        expression(s).result is Ok,
        !at_char(expression(s).rest, ')'),
        !at_char(expression(s).rest, ','),
    ensures
        arguments(s, done) == reject::<Seq<ExprView>>(
            missing(',', Construct::Call, peek(expression(s).rest)),
            expression(s).rest,
        ),
{
}

/// A call whose argument list fails is no expression: the failure of the
/// list is the failure of the whole.
pub proof fn lemma_call_fails_with_its_arguments(s: Seq<Lexeme>)
    requires
        identifier_at(s) is Some,
        at_char(s.skip(1), '('),
        call_arguments(s.skip(1).skip(1)).result is Err,
    ensures
        primary(s) == reject::<ExprView>(
            call_arguments(s.skip(1).skip(1)).result->Err_0,
            call_arguments(s.skip(1).skip(1)).rest,
        ),
        expression(s) == primary(s),
{
}

/// A parameter list that is not followed by `)` makes no prototype: the
/// parse fails in front of the first token behind `(` that is no
/// identifier.
pub proof fn lemma_unterminated_prototype(s: Seq<Lexeme>)
    requires
        identifier_at(s) is Some,
        at_char(s.skip(1), '('),
        !at_char(s.skip(1).skip(1).skip(parameters(s.skip(1).skip(1)).len() as int), ')'),
    ensures
        prototype(s) == reject::<PrototypeView>(
            missing(
                ')',
                Construct::Prototype,
                peek(s.skip(1).skip(1).skip(parameters(s.skip(1).skip(1)).len() as int)),
            ),
            s.skip(1).skip(1).skip(parameters(s.skip(1).skip(1)).len() as int),
        ),
{
}

/// A definition fails as its prototype fails, and as its body fails: no
/// function comes of a part.
pub proof fn lemma_no_partial_function(s: Seq<Lexeme>)
    ensures
        prototype(advance(s)).result is Err ==> definition(s) == reject::<FunctionView>(
            prototype(advance(s)).result->Err_0,
            prototype(advance(s)).rest,
        ),
        prototype(advance(s)).result is Ok && expression(prototype(advance(s)).rest).result
            is Err ==> definition(s) == reject::<FunctionView>(
            expression(prototype(advance(s)).rest).result->Err_0,
            expression(prototype(advance(s)).rest).rest,
        ),
{
}

} // verus!
