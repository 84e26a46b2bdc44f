//! The syntax tree: expressions, prototypes and functions.

use vstd::prelude::*;
use crate::token::NumberLiteral;

verus! {

/// An expression.
#[derive(Debug, PartialEq)]
pub enum Expr {
    /// A numeric literal.
    Number(NumberLiteral),
    /// A reference to a variable.
    Variable(String),
    /// A binary operation.
    Binary { op: char, lhs: Box<Expr>, rhs: Box<Expr> },
    /// A call of a function, with the arguments in the order of the call.
    Call { name: String, args: Vec<Box<Expr>> },
}

/// An expression as a mathematical value.
pub enum ExprView {
    Number(Seq<char>),
    Variable(Seq<char>),
    Binary { op: char, lhs: Box<ExprView>, rhs: Box<ExprView> },
    Call { name: Seq<char>, args: Seq<ExprView> },
}

/// The mathematical value of an expression.
pub open spec fn expr_view(expr: Expr) -> ExprView
    decreases expr,
{
    match expr {
        Expr::Number(literal) => ExprView::Number(literal@),
        Expr::Variable(name) => ExprView::Variable(name@),
        Expr::Binary { op, lhs, rhs } => ExprView::Binary {
            op,
            lhs: Box::new(expr_view(*lhs)),
            rhs: Box::new(expr_view(*rhs)),
        },
        Expr::Call { name, args } => ExprView::Call {
            name: name@,
            args: exprs_view(args@),
        },
    }
}

/// The mathematical values of the expressions in `exprs`, in order.
pub open spec fn exprs_view(exprs: Seq<Box<Expr>>) -> Seq<ExprView>
    decreases exprs,
{
    Seq::new(
        exprs.len(),
        |i: int|
            if 0 <= i < exprs.len() {
                expr_view(*exprs[i])
            } else {
                arbitrary()
            },
    )
}

impl View for Expr {
    type V = ExprView;

    open spec fn view(&self) -> ExprView {
        expr_view(*self)
    }
}

impl Clone for Expr {
    fn clone(&self) -> (copy: Expr)
        ensures
            copy@ == self@,
        decreases self,
    {
        match self {
            Expr::Number(literal) => Expr::Number(literal.clone()),
            Expr::Variable(name) => Expr::Variable(name.clone()),
            Expr::Binary { op, lhs, rhs } => Expr::Binary {
                op: *op,
                lhs: Box::new((**lhs).clone()),
                rhs: Box::new((**rhs).clone()),
            },
            Expr::Call { name, args } => {
                let mut copies: Vec<Box<Expr>> = Vec::new();
                let mut i: usize = 0;
                while i < args.len()
                    invariant
                        i <= args.len(),
                        copies@.len() == i,
                        forall|k: int| 0 <= k < i ==> expr_view(*copies@[k]) == expr_view(*args@[k]),
                        decreases_to!(self => args),
                    decreases args.len() - i,
                {
                    let arg = (*args[i]).clone();
                    copies.push(Box::new(arg));
                    i += 1;
                }
                assert(exprs_view(copies@) =~= exprs_view(args@));
                Expr::Call { name: name.clone(), args: copies }
            },
        }
    }
}

/// The name of a function and the names of its parameters.
#[derive(Debug, PartialEq)]
pub struct Prototype {
    pub name: String,
    pub args: Vec<String>,
}

/// A prototype as a mathematical value.
pub struct PrototypeView {
    pub name: Seq<char>,
    pub params: Seq<Seq<char>>,
}

/// The names in `names`, each as a sequence of characters.
pub open spec fn names_of(names: Seq<String>) -> Seq<Seq<char>> {
    names.map_values(|name: String| name@)
}

impl View for Prototype {
    type V = PrototypeView;

    open spec fn view(&self) -> PrototypeView {
        PrototypeView { name: self.name@, params: names_of(self.args@) }
    }
}

impl Clone for Prototype {
    fn clone(&self) -> (copy: Prototype)
        ensures
            copy@ == self@,
    {
        let mut args: Vec<String> = Vec::new();
        let mut i: usize = 0;
        while i < self.args.len()
            invariant
                i <= self.args.len(),
                args@.len() == i,
                forall|k: int| 0 <= k < i ==> args@[k]@ == self.args@[k]@,
            decreases self.args.len() - i,
        {
            args.push(self.args[i].clone());
            i += 1;
        }
        assert(names_of(args@) =~= names_of(self.args@));
        Prototype { name: self.name.clone(), args }
    }
}

impl Prototype {
    /// The prototype of the function `name` with the parameters `args`.
    pub fn new(name: String, args: Vec<String>) -> (prototype: Prototype)
        ensures
            prototype.name == name,
            prototype.args == args,
    {
        Prototype { name, args }
    }
}

/// A function: its prototype and the expression that is its body. An
/// expression that stands by itself is held as a function with an empty
/// name and no parameters.
#[derive(Debug, PartialEq)]
pub struct Function {
    pub prototype: Prototype,
    pub body: Box<Expr>,
}

/// A function as a mathematical value.
pub struct FunctionView {
    pub prototype: PrototypeView,
    pub body: ExprView,
}

impl View for Function {
    type V = FunctionView;

    open spec fn view(&self) -> FunctionView {
        FunctionView { prototype: self.prototype@, body: self.body@ }
    }
}

impl Clone for Function {
    fn clone(&self) -> (copy: Function)
        ensures
            copy@ == self@,
    {
        Function { prototype: self.prototype.clone(), body: Box::new((*self.body).clone()) }
    }
}

impl Function {
    /// The function with the given prototype and body.
    pub fn new(prototype: Prototype, body: Box<Expr>) -> (function: Function)
        ensures
            function.prototype == prototype,
            function.body == body,
    {
        Function { prototype, body }
    }
}

/// One unit of source: what a text holds at its top level.
#[derive(Debug, PartialEq)]
pub enum Item {
    /// The definition of a function.
    Definition(Function),
    /// The declaration of a function defined elsewhere.
    Declaration(Prototype),
    /// An expression that stands by itself, as a function without a name.
    Expression(Function),
}

/// A unit of source as a mathematical value.
pub enum ItemView {
    Definition(FunctionView),
    Declaration(PrototypeView),
    Expression(FunctionView),
}

impl View for Item {
    type V = ItemView;

    open spec fn view(&self) -> ItemView {
        match self {
            Item::Definition(function) => ItemView::Definition(function@),
            Item::Declaration(prototype) => ItemView::Declaration(prototype@),
            Item::Expression(function) => ItemView::Expression(function@),
        }
    }
}

impl Clone for Item {
    fn clone(&self) -> (copy: Item)
        ensures
            copy@ == self@,
    {
        match self {
            Item::Definition(function) => Item::Definition(function.clone()),
            Item::Declaration(prototype) => Item::Declaration(prototype.clone()),
            Item::Expression(function) => Item::Expression(function.clone()),
        }
    }
}

} // verus!
