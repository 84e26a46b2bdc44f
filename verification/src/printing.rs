//! Trees written out as tokens, and the proof that the parser reads them
//! back.
//!
//! `render` writes an expression with the fewest parentheses that keep its
//! shape: around a left operand whose operator binds less tightly than the
//! operator above it, and around a right operand whose operator does not
//! bind more tightly. `lemma_expression_round_trip` shows that the grammar
//! makes of those tokens the very tree that they were written from. So
//! every tree can be written, and precedence and associativity are what
//! `render` says they are.

use vstd::prelude::*;
use crate::ast::{ExprView, FunctionView, ItemView, PrototypeView};
use crate::grammar::{
    accept, anonymous_prototype, arguments, at_char, binary_rhs, declaration, definition,
    expression, identifier_at, item, operator_at, operators_known, parameters, precedence,
    primary, prototype, symbol_at, top_level_expr, Parsed,
};
use crate::grammar_laws::{lemma_binary_rhs_rest, lemma_primary_rest};
use crate::token::{Lexeme, TokenView};

verus! {

/// The character `c` as a token of its own.
pub open spec fn symbol(c: char) -> Lexeme {
    Ok(TokenView::UnknownChar(c))
}

/// The name `name` as a token.
pub open spec fn identifier(name: Seq<char>) -> Lexeme {
    Ok(TokenView::Identifier(name))
}

/// Whether `expr` has to stand in parentheses where an operand is wanted
/// whose operator binds at least as tightly as `min_prec`.
pub open spec fn needs_parentheses(expr: ExprView, min_prec: nat) -> bool {
    match expr {
        ExprView::Binary { op, lhs, rhs } => match precedence(op) {
            Some(prec) => prec < min_prec,
            None => false,
        },
        _ => false,
    }
}

/// The tokens of `expr`.
pub open spec fn render(expr: ExprView) -> Seq<Lexeme>
    decreases expr, 0nat,
{
    match expr {
        ExprView::Number(text) => seq![Ok::<TokenView, Seq<char>>(TokenView::Number(text))],
        ExprView::Variable(name) => seq![identifier(name)],
        ExprView::Binary { op, lhs, rhs } => match precedence(op) {
            Some(prec) => render_operand(*lhs, prec as nat) + seq![symbol(op)] + render_operand(
                *rhs,
                (prec + 1) as nat,
            ),
            None => Seq::empty(),
        },
        ExprView::Call { name, args } => seq![identifier(name), symbol('(')] + render_arguments(
            args,
            0,
        ) + seq![symbol(')')],
    }
}

/// The tokens of `expr` as an operand under an operator that asks for
/// `min_prec`: in parentheses where it needs them.
pub open spec fn render_operand(expr: ExprView, min_prec: nat) -> Seq<Lexeme>
    decreases expr, 1nat,
{
    if needs_parentheses(expr, min_prec) {
        seq![symbol('(')] + render(expr) + seq![symbol(')')]
    } else {
        render(expr)
    }
}

/// The tokens of the arguments from index `from` on, with a `,` between
/// each two.
pub open spec fn render_arguments(args: Seq<ExprView>, from: int) -> Seq<Lexeme>
    decreases args, args.len() - from,
{
    if from < 0 || from >= args.len() {
        Seq::empty()
    } else if from + 1 == args.len() {
        render(args[from])
    } else {
        render(args[from]) + seq![symbol(',')] + render_arguments(args, from + 1)
    }
}

/// The tokens of the names in `params`.
pub open spec fn render_parameters(params: Seq<Seq<char>>) -> Seq<Lexeme> {
    params.map_values(|name: Seq<char>| identifier(name))
}

/// The tokens of `proto`.
pub open spec fn render_prototype(proto: PrototypeView) -> Seq<Lexeme> {
    seq![identifier(proto.name), symbol('(')] + render_parameters(proto.params) + seq![
        symbol(')'),
    ]
}

/// An expression whose operators all bind at least as tightly as
/// `min_prec`: a primary expression and what `binary_rhs` makes of it
/// under that threshold. An expression as such is the case of threshold 0.
pub open spec fn climb(s: Seq<Lexeme>, min_prec: nat) -> Parsed<ExprView> {
    let first = primary(s);
    match first.result {
        Ok(lhs) => binary_rhs(first.rest, min_prec, lhs),
        Err(_) => first,
    }
}

/// Goes on under the threshold `min_prec` from where `parsed` stopped.
pub open spec fn resume(parsed: Parsed<ExprView>, min_prec: nat) -> Parsed<ExprView> {
    match parsed.result {
        Ok(lhs) => binary_rhs(parsed.rest, min_prec, lhs),
        Err(_) => parsed,
    }
}

/// An expression is what climbs from threshold 0.
pub proof fn lemma_expression_climbs(s: Seq<Lexeme>)
    ensures
        expression(s) == climb(s, 0),
{
    lemma_primary_rest(s);
}

/// The right operand of an operator of precedence `prec` is what climbs
/// from the threshold above it. This is the step of `binary_rhs`, said in
/// one piece.
pub proof fn lemma_binary_rhs_step(s: Seq<Lexeme>, min_prec: nat, lhs: ExprView)
    requires
        operator_at(s) is Some,
        operator_at(s)->0 >= min_prec,
    ensures
        binary_rhs(s, min_prec, lhs) == match climb(
            s.skip(1),
            (operator_at(s)->0 + 1) as nat,
        ).result {
            Ok(rhs) => binary_rhs(
                climb(s.skip(1), (operator_at(s)->0 + 1) as nat).rest,
                min_prec,
                ExprView::Binary { op: symbol_at(s), lhs: Box::new(lhs), rhs: Box::new(rhs) },
            ),
            Err(_) => climb(s.skip(1), (operator_at(s)->0 + 1) as nat),
        },
{
    let prec = operator_at(s)->0;
    let first = primary(s.skip(1));
    lemma_primary_rest(s.skip(1));
    if first.result is Ok {
        lemma_binary_rhs_rest(first.rest, (prec + 1) as nat, first.result->Ok_0);
    }
}

/// Climbing under a threshold is climbing under a higher one and going on
/// from where that stopped.
pub proof fn lemma_threshold_split(s: Seq<Lexeme>, low: nat, high: nat, lhs: ExprView)
    requires
        low <= high,
    ensures
        binary_rhs(s, low, lhs) == resume(binary_rhs(s, high, lhs), low),
    decreases s.len(),
{
    match operator_at(s) {
        Some(prec) if prec >= high => {
            lemma_binary_rhs_step(s, high, lhs);
            let right = climb(s.skip(1), (prec + 1) as nat);
            if right.result is Ok {
                lemma_primary_rest(s.skip(1));
                let first = primary(s.skip(1));
                lemma_binary_rhs_rest(first.rest, (prec + 1) as nat, first.result->Ok_0);
                lemma_threshold_split(
                    right.rest,
                    low,
                    high,
                    ExprView::Binary {
                        op: symbol_at(s),
                        lhs: Box::new(lhs),
                        rhs: Box::new(right.result->Ok_0),
                    },
                );
            }
        },
        _ => {},
    }
}

/// Whether the stream begins with a token that can begin an operand: a
/// number, an identifier or `(`.
pub open spec fn begins_operand(s: Seq<Lexeme>) -> bool {
    s.len() > 0 && match s[0] {
        Ok(TokenView::Number(_)) => true,
        Ok(TokenView::Identifier(_)) => true,
        Ok(TokenView::UnknownChar(c)) => c == '(',
        _ => false,
    }
}

/// Whether the tokens `t` may stand behind `expr`, written as an operand
/// under `min_prec`, without changing how it reads: `t` does not begin
/// with `(`, which would turn a variable into a call, nor with an operator
/// that binds more tightly than the operator at the top of `expr`, which
/// would take its right operand away.
pub open spec fn may_follow(expr: ExprView, min_prec: nat, t: Seq<Lexeme>) -> bool {
    &&& !at_char(t, '(')
    &&& match expr {
        ExprView::Binary { op, lhs, rhs } => needs_parentheses(expr, min_prec) || operator_at(t)
            is None || operator_at(t)->0 <= precedence(op)->0,
        _ => true,
    }
}

/// What is written of an expression begins with a token that can begin an
/// operand.
pub proof fn lemma_render_begins(expr: ExprView)
    requires
        operators_known(expr),
    ensures
        begins_operand(render(expr)),
    decreases expr,
{
    match expr {
        ExprView::Binary { op, lhs, rhs } => {
            let prec = precedence(op)->0 as nat;
            if !needs_parentheses(*lhs, prec) {
                lemma_render_begins(*lhs);
            }
        },
        _ => {},
    }
}

/// The grammar reads the arguments that `render_arguments` wrote, from
/// index `from` on, and the `)` behind them, and adds them to those
/// before.
pub proof fn lemma_arguments_round_trip(
    args: Seq<ExprView>,
    from: int,
    done: Seq<ExprView>,
    t: Seq<Lexeme>,
)
    requires
        0 <= from < args.len(),
        forall|i: int| 0 <= i < args.len() ==> operators_known(#[trigger] args[i]),
    ensures
        arguments(render_arguments(args, from) + (seq![symbol(')')] + t), done) == accept(
            done + args.skip(from),
            t,
        ),
    decreases args, args.len() - from, 0nat,
{
    let arg = args[from];
    let closing = seq![symbol(')')] + t;
    let s = render_arguments(args, from) + closing;
    if from + 1 == args.len() {
        lemma_climb_render(arg, 0, closing);
        lemma_expression_climbs(s);
        assert(closing.skip(1) =~= t);
        assert(done.push(arg) =~= done + args.skip(from));
    } else {
        let more = seq![symbol(',')] + (render_arguments(args, from + 1) + closing);
        assert(s =~= render_operand(arg, 0) + more);
        lemma_climb_render(arg, 0, more);
        lemma_expression_climbs(s);
        assert(more.skip(1) =~= render_arguments(args, from + 1) + closing);
        lemma_arguments_round_trip(args, from + 1, done.push(arg), t);
        assert(done.push(arg) + args.skip(from + 1) =~= done + args.skip(from));
    }
}

/// The grammar reads an operand that `render_operand` wrote, and goes on
/// with it as the left operand of what follows.
pub proof fn lemma_climb_render(expr: ExprView, min_prec: nat, t: Seq<Lexeme>)
    requires
        operators_known(expr),
        may_follow(expr, min_prec, t),
    ensures
        climb(render_operand(expr, min_prec) + t, min_prec) == binary_rhs(t, min_prec, expr),
    decreases expr,
        (if needs_parentheses(expr, min_prec) {
            1nat
        } else {
            0nat
        }),
        1nat,
{
    let s = render_operand(expr, min_prec) + t;
    if needs_parentheses(expr, min_prec) {
        lemma_climb_parenthesized(expr, min_prec, t);
    } else {
        match expr {
            ExprView::Number(text) => {
                assert(s.skip(1) =~= t);
            },
            ExprView::Variable(name) => {
                assert(s.skip(1) =~= t);
            },
            ExprView::Call { name, args } => {
                lemma_climb_call(expr, min_prec, t);
            },
            ExprView::Binary { op, lhs, rhs } => {
                lemma_climb_binary(expr, min_prec, t);
            },
        }
    }
}

/// `lemma_climb_render` for an operand in parentheses.
proof fn lemma_climb_parenthesized(expr: ExprView, min_prec: nat, t: Seq<Lexeme>)
    requires
        operators_known(expr),
        may_follow(expr, min_prec, t),
        needs_parentheses(expr, min_prec),
    ensures
        climb(render_operand(expr, min_prec) + t, min_prec) == binary_rhs(t, min_prec, expr),
    decreases expr, 1nat, 0nat,
{
    let s = render_operand(expr, min_prec) + t;
    let closing = seq![symbol(')')] + t;
    let inner = render(expr) + closing;
    assert(s[0] == symbol('('));
    assert(s.skip(1) =~= inner);
    lemma_climb_render(expr, 0, closing);
    lemma_expression_climbs(inner);
    assert(closing.skip(1) =~= t);
}

/// `lemma_climb_render` for a call.
proof fn lemma_climb_call(expr: ExprView, min_prec: nat, t: Seq<Lexeme>)
    requires
        operators_known(expr),
        may_follow(expr, min_prec, t),
        expr is Call,
    ensures
        climb(render_operand(expr, min_prec) + t, min_prec) == binary_rhs(t, min_prec, expr),
    decreases expr, 0nat, 0nat,
{
    let s = render_operand(expr, min_prec) + t;
    let args = expr->Call_args;
    let closing = seq![symbol(')')] + t;
    let list = render_arguments(args, 0) + closing;
    assert(s.skip(1)[0] == symbol('('));
    assert(s.skip(1).skip(1) =~= list);
    assert(at_char(s.skip(1), '('));
    if args.len() == 0 {
        assert(closing.skip(1) =~= t);
        assert(args =~= Seq::<ExprView>::empty());
    } else {
        lemma_render_begins(args[0]);
        assert(!at_char(list, ')'));
        lemma_arguments_round_trip(args, 0, Seq::empty(), t);
        assert(Seq::<ExprView>::empty() + args.skip(0) =~= args);
    }
}

/// `lemma_climb_render` for a binary operation that needs no parentheses.
proof fn lemma_climb_binary(expr: ExprView, min_prec: nat, t: Seq<Lexeme>)
    requires
        operators_known(expr),
        may_follow(expr, min_prec, t),
        expr is Binary,
        !needs_parentheses(expr, min_prec),
    ensures
        climb(render_operand(expr, min_prec) + t, min_prec) == binary_rhs(t, min_prec, expr),
    decreases expr, 0nat, 0nat,
{
    reveal_with_fuel(operators_known, 2);
    let s = render_operand(expr, min_prec) + t;
    let op = expr->Binary_op;
    let lhs = *expr->Binary_lhs;
    let rhs = *expr->Binary_rhs;
    let prec = precedence(op)->0 as nat;
    let right = render_operand(rhs, prec + 1) + t;
    let behind = seq![symbol(op)] + right;
    assert(s =~= render_operand(lhs, prec) + behind);
    assert(!at_char(behind, '('));
    lemma_climb_render(lhs, prec, behind);
    lemma_climb_split(s, min_prec, prec);
    lemma_threshold_split(behind, min_prec, prec, lhs);
    lemma_binary_rhs_step(behind, min_prec, lhs);
    assert(behind.skip(1) =~= right);
    lemma_climb_render(rhs, prec + 1, t);
}

/// Climbing under a threshold is climbing under a higher one and going on
/// from where that stopped.
pub proof fn lemma_climb_split(s: Seq<Lexeme>, low: nat, high: nat)
    requires
        low <= high,
    ensures
        climb(s, low) == resume(climb(s, high), low),
{
    let first = primary(s);
    if first.result is Ok {
        lemma_threshold_split(first.rest, low, high, first.result->Ok_0);
    }
}

/// The grammar reads back every expression that `render` wrote: in front
/// of any tokens that begin neither with an operator nor with `(`, the
/// tokens of an expression parse to that expression and nothing else is
/// consumed.
pub proof fn lemma_expression_round_trip(expr: ExprView, t: Seq<Lexeme>)
    requires
        operators_known(expr),
        operator_at(t) is None,
        !at_char(t, '('),
    ensures
        expression(render(expr) + t) == accept(expr, t),
{
    lemma_climb_render(expr, 0, t);
    lemma_expression_climbs(render(expr) + t);
}

/// The grammar reads the names that `render_parameters` wrote, up to the
/// first token that is no identifier.
pub proof fn lemma_parameters_round_trip(params: Seq<Seq<char>>, t: Seq<Lexeme>)
    requires
        identifier_at(t) is None,
    ensures
        parameters(render_parameters(params) + t) == params,
    decreases params.len(),
{
    let s = render_parameters(params) + t;
    if params.len() == 0 {
    } else {
        assert(s.skip(1) =~= render_parameters(params.skip(1)) + t);
        lemma_parameters_round_trip(params.skip(1), t);
    }
}

/// The grammar reads back every prototype that `render_prototype` wrote.
pub proof fn lemma_prototype_round_trip(proto: PrototypeView, t: Seq<Lexeme>)
    ensures
        prototype(render_prototype(proto) + t) == accept(proto, t),
{
    let s = render_prototype(proto) + t;
    let closing = seq![symbol(')')] + t;
    assert(s.skip(1)[0] == symbol('('));
    assert(s.skip(1).skip(1) =~= render_parameters(proto.params) + closing);
    lemma_parameters_round_trip(proto.params, closing);
    assert(s.skip(1).skip(1).skip(proto.params.len() as int) =~= closing);
    assert(closing.skip(1) =~= t);
}

/// The grammar reads back every definition: `def`, the tokens of the
/// prototype and the tokens of the body parse to the function of that
/// prototype and that body.
pub proof fn lemma_definition_round_trip(function: FunctionView, t: Seq<Lexeme>)
    requires
        operators_known(function.body),
        operator_at(t) is None,
        !at_char(t, '('),
    ensures
        definition(
            seq![Ok::<TokenView, Seq<char>>(TokenView::Define)] + render_prototype(
                function.prototype,
            ) + render(function.body) + t,
        ) == accept(function, t),
        item(
            seq![Ok::<TokenView, Seq<char>>(TokenView::Define)] + render_prototype(
                function.prototype,
            ) + render(function.body) + t,
        ) == accept(ItemView::Definition(function), t),
{
    let s = seq![Ok::<TokenView, Seq<char>>(TokenView::Define)] + render_prototype(
        function.prototype,
    ) + render(function.body) + t;
    let body = render(function.body) + t;
    assert(s.skip(1) =~= render_prototype(function.prototype) + body);
    lemma_prototype_round_trip(function.prototype, body);
    lemma_expression_round_trip(function.body, t);
}

/// The grammar reads back every declaration: its keyword and the tokens of
/// the prototype parse to that prototype.
pub proof fn lemma_declaration_round_trip(proto: PrototypeView, t: Seq<Lexeme>)
    ensures
        declaration(
            seq![Ok::<TokenView, Seq<char>>(TokenView::Extern)] + render_prototype(proto) + t,
        ) == accept(proto, t),
        item(seq![Ok::<TokenView, Seq<char>>(TokenView::Extern)] + render_prototype(proto) + t)
            == accept(ItemView::Declaration(proto), t),
{
    let s = seq![Ok::<TokenView, Seq<char>>(TokenView::Extern)] + render_prototype(proto) + t;
    assert(s.skip(1) =~= render_prototype(proto) + t);
    lemma_prototype_round_trip(proto, t);
}

/// The grammar reads back every expression that stands by itself, as the
/// body of a function without a name and without parameters.
pub proof fn lemma_top_level_round_trip(expr: ExprView, t: Seq<Lexeme>)
    requires
        operators_known(expr),
        operator_at(t) is None,
        !at_char(t, '('),
    ensures
        top_level_expr(render(expr) + t) == accept(
            FunctionView { prototype: anonymous_prototype(), body: expr },
            t,
        ),
        item(render(expr) + t) == accept(
            ItemView::Expression(FunctionView { prototype: anonymous_prototype(), body: expr }),
            t,
        ),
{
    lemma_expression_round_trip(expr, t);
}

/// Whether `expr` is a single token: a number or a variable.
pub open spec fn is_atom(expr: ExprView) -> bool {
    expr is Number || expr is Variable
}

/// Precedence and associativity. Of two operators between three operands,
/// the second takes the middle operand if it binds more tightly than the
/// first; otherwise the first takes it, so that operators of equal
/// precedence group to the left.
pub proof fn lemma_precedence_and_associativity(
    a: ExprView,
    first: char,
    b: ExprView,
    second: char,
    c: ExprView,
    t: Seq<Lexeme>,
)
    requires
        is_atom(a) && is_atom(b) && is_atom(c),
        precedence(first) is Some,
        precedence(second) is Some,
        operator_at(t) is None,
        !at_char(t, '('),
    ensures
        expression(
            render(a) + seq![symbol(first)] + render(b) + seq![symbol(second)] + render(c) + t,
        ) == accept(
            if precedence(second)->0 > precedence(first)->0 {
                ExprView::Binary {
                    op: first,
                    lhs: Box::new(a),
                    rhs: Box::new(
                        ExprView::Binary { op: second, lhs: Box::new(b), rhs: Box::new(c) },
                    ),
                }
            } else {
                ExprView::Binary {
                    op: second,
                    lhs: Box::new(
                        ExprView::Binary { op: first, lhs: Box::new(a), rhs: Box::new(b) },
                    ),
                    rhs: Box::new(c),
                }
            },
            t,
        ),
{
    reveal_with_fuel(operators_known, 3);
    reveal_with_fuel(render, 3);
    reveal_with_fuel(render_operand, 3);
    let tokens = render(a) + seq![symbol(first)] + render(b) + seq![symbol(second)] + render(c);
    if precedence(second)->0 > precedence(first)->0 {
        let inner = ExprView::Binary { op: second, lhs: Box::new(b), rhs: Box::new(c) };
        let tree = ExprView::Binary { op: first, lhs: Box::new(a), rhs: Box::new(inner) };
        assert(render(tree) =~= tokens);
        lemma_expression_round_trip(tree, t);
    } else {
        let inner = ExprView::Binary { op: first, lhs: Box::new(a), rhs: Box::new(b) };
        let tree = ExprView::Binary { op: second, lhs: Box::new(inner), rhs: Box::new(c) };
        lemma_expression_round_trip(tree, t);
    }
}

} // verus!
