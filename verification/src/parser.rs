//! The parser: recursive descent over a token stream with one token of
//! lookahead, and precedence climbing for binary operators.
//!
//! A `Parser`'s view is the stream of tokens that it has yet to read,
//! starting with its lookahead. Each parsing method reads from the front of
//! that stream and does what the function of the same construct in
//! `grammar` says.

use vstd::prelude::*;
use crate::ast::{exprs_view, names_of, ExprView};
pub use crate::ast::{Expr, Function, Item, Prototype};
use crate::error::{missing, unexpected, ParseErrorView};
pub use crate::error::{Construct, ParseError};
use crate::grammar::{
    advance, arguments, at_char, binary_rhs, declaration, definition, expression, identifier_at,
    item, operator_at, operators_known, parameters, peek, precedence, primary, prototype,
    symbol_at, top_level_expr, Parsed,
};
use crate::grammar_laws::{
    lemma_binary_rhs_rest, lemma_expression_operators, lemma_expression_rest, lemma_primary_rest,
};
use crate::lexer::{lex, Lexer};
use crate::token::{lexeme_of, lookahead_of, LexError, Lexeme, Token};

verus! {

/// The mathematical value of what a parsing method returned.
pub open spec fn result_view<T: View>(result: Result<T, ParseError>) -> Result<
    T::V,
    ParseErrorView,
> {
    match result {
        Ok(value) => Ok(value@),
        Err(error) => Err(error@),
    }
}

/// Whether a parsing method that returned `result` and left the stream
/// `rest` did what `parsed` says.
pub open spec fn agrees<T: View>(
    result: Result<T, ParseError>,
    rest: Seq<Lexeme>,
    parsed: Parsed<T::V>,
) -> bool {
    result_view(result) == parsed.result && rest == parsed.rest
}

/// How tightly the binary operator `tok` binds; `None` if `tok` is no
/// operator.
pub fn token_precedence(tok: char) -> (prec: Option<u32>)
    ensures
        prec == precedence(tok),
{
    match tok {
        '+' | '-' => Some(20),
        '<' => Some(10),
        '*' => Some(40),
        _ => None,
    }
}

/// A parser over one text.
#[derive(Debug)]
pub struct Parser {
    lexer: Lexer,
    current: Option<Result<Token, LexError>>,
}

impl View for Parser {
    type V = Seq<Lexeme>;

    /// The tokens that are still to be read, the lookahead first.
    closed spec fn view(&self) -> Seq<Lexeme> {
        match self.current {
            Some(item) => seq![lexeme_of(item)] + self.lexer@,
            None => Seq::empty(),
        }
    }
}

impl Parser {
    /// A parser at the start of `source`.
    pub fn from_source(source: &str) -> (parser: Parser)
        ensures
            parser@ == lex(source@),
    {
        Parser::from_lexer(Lexer::new(source))
    }

    /// A parser that reads what `lex` has yet to hand out.
    pub fn from_lexer(lex: Lexer) -> (parser: Parser)
        ensures
            parser@ == lex@,
    {
        let mut lex = lex;
        let current = lex.next();
        let parser = Parser { lexer: lex, current };
        parser
    }

    /// The lookahead: the token that will be read next, or the malformed
    /// numeric literal that stands in its place, or `None` at the end of
    /// the input.
    pub fn current(&self) -> (lookahead: &Option<Result<Token, LexError>>)
        ensures
            lookahead_of(*lookahead) == peek(self@),
    {
        &self.current
    }

    /// Moves past the lookahead. At the end of the input there is nothing
    /// to move past.
    pub fn get_next_token(&mut self)
        ensures
            final(self)@ == advance(old(self)@),
    {
        if self.current.is_some() {
            let tok = self.lexer.next();
            self.current = tok;
        }
    }

    /// Whether the lookahead is the character `c` as a token of its own.
    fn at(&self, c: char) -> (b: bool)
        ensures
            b == at_char(self@, c),
    {
        match &self.current {
            Some(Ok(Token::UnknownChar(found))) => *found == c,
            _ => false,
        }
    }

    /// The operator that the lookahead is, with its precedence.
    fn operator(&self) -> (found: Option<(char, u32)>)
        ensures
            match found {
                Some((symbol, prec)) => symbol == symbol_at(self@) && operator_at(self@) == Some(
                    prec,
                ),
                None => operator_at(self@) is None,
            },
    {
        match &self.current {
            Some(Ok(Token::UnknownChar(c))) => match token_precedence(*c) {
                Some(prec) => Some((*c, prec)),
                None => None,
            },
            _ => None,
        }
    }

    /// The error for a lookahead that cannot begin `expected`.
    fn unexpected(&self, expected: Construct) -> (error: ParseError)
        ensures
            error@ == unexpected(expected, peek(self@)),
    {
        match &self.current {
            Some(Err(error)) => ParseError::Lexical(error.clone()),
            Some(Ok(token)) => ParseError::UnexpectedToken { expected, found: Some(token.clone()) },
            None => ParseError::UnexpectedToken { expected, found: None },
        }
    }

    /// The error for a lookahead that stands where `within` needs
    /// `delimiter`.
    fn missing(&self, delimiter: char, within: Construct) -> (error: ParseError)
        ensures
            error@ == missing(delimiter, within, peek(self@)),
    {
        match &self.current {
            Some(Err(error)) => ParseError::Lexical(error.clone()),
            Some(Ok(token)) => ParseError::MissingDelimiter {
                delimiter,
                within,
                found: Some(token.clone()),
            },
            None => ParseError::MissingDelimiter { delimiter, within, found: None },
        }
    }

    /// Reads the numeric literal that the lookahead is.
    fn parse_number(&mut self) -> (result: Result<Box<Expr>, ParseError>)
        requires
            old(self)@.len() > 0,
            old(self)@[0] is Ok,
            old(self)@[0]->Ok_0 is Number,
        ensures
            agrees(result, final(self)@, primary(old(self)@)),
    {
        let literal = match &self.current {
            Some(Ok(Token::Number(literal))) => literal.clone(),
            _ => {
                return Err(self.unexpected(Construct::Expression));
            },
        };
        self.get_next_token();
        Ok(Box::new(Expr::Number(literal)))
    }

    /// Reads an expression in parentheses, of which the lookahead is the
    /// `(`.
    fn parse_paren_expr(&mut self) -> (result: Result<Box<Expr>, ParseError>)
        requires
            at_char(old(self)@, '('),
        ensures
            agrees(result, final(self)@, primary(old(self)@)),
        decreases old(self)@.len(), 0nat,
    {
        self.get_next_token();
        let inner = match self.parse_expression() {
            Ok(inner) => inner,
            Err(error) => {
                return Err(error);
            },
        };
        if !self.at(')') {
            return Err(self.missing(')', Construct::Expression));
        }
        self.get_next_token();
        Ok(inner)
    }

    /// Reads a variable or a call, of which the lookahead is the name.
    fn parse_identifier_expr(&mut self) -> (result: Result<Box<Expr>, ParseError>)
        requires
            identifier_at(old(self)@) is Some,
        ensures
            agrees(result, final(self)@, primary(old(self)@)),
        decreases old(self)@.len(), 0nat,
    {
        let id = match &self.current {
            Some(Ok(Token::Identifier(name))) => name.clone(),
            _ => {
                return Err(self.unexpected(Construct::Expression));
            },
        };
        self.get_next_token();
        if !self.at('(') {
            return Ok(Box::new(Expr::Variable(id)));
        }
        self.get_next_token();
        let mut args: Vec<Box<Expr>> = Vec::new();
        if self.at(')') {
            self.get_next_token();
            assert(exprs_view(args@) =~= Seq::<ExprView>::empty());
            return Ok(Box::new(Expr::Call { name: id, args }));
        }
        let ghost list = self@;
        loop
            invariant
                self@.len() <= list.len(),
                list.len() < old(self)@.len(),
                arguments(self@, exprs_view(args@)) == arguments(list, Seq::empty()),
                primary(old(self)@).result == match arguments(list, Seq::empty()).result {
                    Ok(args) => Ok::<ExprView, ParseErrorView>(ExprView::Call { name: id@, args }),
                    Err(error) => Err(error),
                },
                primary(old(self)@).rest == arguments(list, Seq::empty()).rest,
            decreases self@.len(),
        {
            let ghost here = self@;
            let ghost done = exprs_view(args@);
            proof {
                lemma_expression_rest(here);
            }
            let arg = match self.parse_expression() {
                Ok(arg) => arg,
                Err(error) => {
                    return Err(error);
                },
            };
            args.push(arg);
            assert(exprs_view(args@) =~= done.push(arg@));
            if self.at(')') {
                self.get_next_token();
                return Ok(Box::new(Expr::Call { name: id, args }));
            }
            if !self.at(',') {
                return Err(self.missing(',', Construct::Call));
            }
            self.get_next_token();
        }
    }

    /// Reads a primary expression: a variable, a call, a number, or an
    /// expression in parentheses.
    fn parse_primary(&mut self) -> (result: Result<Box<Expr>, ParseError>)
        ensures
            agrees(result, final(self)@, primary(old(self)@)),
        decreases old(self)@.len(), 1nat,
    {
        match &self.current {
            Some(Ok(Token::Identifier(_))) => self.parse_identifier_expr(),
            Some(Ok(Token::Number(_))) => self.parse_number(),
            Some(Ok(Token::UnknownChar('('))) => self.parse_paren_expr(),
            _ => Err(self.unexpected(Construct::Expression)),
        }
    }

    /// Reads an expression.
    ///
    /// The expression ends in front of the first token that cannot continue
    /// it; that token is left as the lookahead, for the caller to judge.
    pub fn parse_expression(&mut self) -> (result: Result<Box<Expr>, ParseError>)
        ensures
            agrees(result, final(self)@, expression(old(self)@)),
            result is Ok ==> operators_known(result->Ok_0@),
        decreases old(self)@.len(), 2nat,
    {
        proof {
            lemma_primary_rest(old(self)@);
            lemma_expression_operators(old(self)@);
        }
        match self.parse_primary() {
            Ok(lhs) => self.parse_bin_op_rhs(0, lhs),
            Err(error) => Err(error),
        }
    }

    /// Reads the operators and operands that follow the operand `lhs`, as
    /// far as the operators bind at least as tightly as `prec`.
    fn parse_bin_op_rhs(&mut self, prec: u32, lhs: Box<Expr>) -> (result: Result<
        Box<Expr>,
        ParseError,
    >)
        ensures
            agrees(result, final(self)@, binary_rhs(old(self)@, prec as nat, lhs@)),
        decreases old(self)@.len(), 0nat,
    {
        let mut left = lhs;
        loop
            invariant
                self@.len() <= old(self)@.len(),
                binary_rhs(self@, prec as nat, left@) == binary_rhs(
                    old(self)@,
                    prec as nat,
                    lhs@,
                ),
            decreases self@.len(),
        {
            let ghost here = self@;
            let (op, tok_prec) = match self.operator() {
                Some((op, tok_prec)) => {
                    if tok_prec < prec {
                        return Ok(left);
                    }
                    (op, tok_prec)
                },
                None => {
                    return Ok(left);
                },
            };
            self.get_next_token();
            proof {
                lemma_primary_rest(here.skip(1));
            }
            let mut rhs = match self.parse_primary() {
                Ok(rhs) => rhs,
                Err(error) => {
                    return Err(error);
                },
            };
            let ghost after_operand = self@;
            let tighter = match self.operator() {
                Some((_, next_prec)) => tok_prec < next_prec,
                None => false,
            };
            if tighter {
                proof {
                    lemma_binary_rhs_rest(after_operand, (tok_prec + 1) as nat, rhs@);
                }
                rhs = match self.parse_bin_op_rhs(tok_prec + 1, rhs) {
                    Ok(rhs) => rhs,
                    Err(error) => {
                        return Err(error);
                    },
                };
            }
            left = Box::new(Expr::Binary { op, lhs: left, rhs });
        }
    }

    /// Reads a prototype: the name of a function, `(`, the names of its
    /// parameters with nothing but blanks between them, and `)`.
    ///
    /// After a failure the lookahead is the token that was refused.
    pub fn parse_prototype(&mut self) -> (result: Result<Prototype, ParseError>)
        ensures
            agrees(result, final(self)@, prototype(old(self)@)),
    {
        let name = match &self.current {
            Some(Ok(Token::Identifier(name))) => name.clone(),
            _ => {
                return Err(self.unexpected(Construct::Prototype));
            },
        };
        self.get_next_token();
        if !self.at('(') {
            return Err(self.missing('(', Construct::Prototype));
        }
        self.get_next_token();
        let ghost list = self@;
        let mut arg_names: Vec<String> = Vec::new();
        loop
            invariant
                arg_names@.len() <= list.len(),
                self@ == list.skip(arg_names@.len() as int),
                parameters(list) == names_of(arg_names@) + parameters(self@),
            ensures
                self@ == list.skip(parameters(list).len() as int),
                parameters(list) == names_of(arg_names@),
            decreases self@.len(),
        {
            let arg_name = match &self.current {
                Some(Ok(Token::Identifier(arg_name))) => arg_name.clone(),
                _ => {
                    break;
                },
            };
            arg_names.push(arg_name);
            self.get_next_token();
        }
        if !self.at(')') {
            return Err(self.missing(')', Construct::Prototype));
        }
        self.get_next_token();
        Ok(Prototype::new(name, arg_names))
    }

    /// Reads a definition, of which the lookahead is the keyword `def`: a
    /// prototype, and one expression as the body.
    ///
    /// The lookahead is passed over unseen: the caller has looked at it,
    /// as `parse_item` does.
    pub fn parse_definition(&mut self) -> (result: Result<Function, ParseError>)
        ensures
            agrees(result, final(self)@, definition(old(self)@)),
            result is Ok ==> operators_known(result->Ok_0@.body),
    {
        self.get_next_token();
        let proto = match self.parse_prototype() {
            Ok(proto) => proto,
            Err(error) => {
                return Err(error);
            },
        };
        match self.parse_expression() {
            Ok(body) => Ok(Function::new(proto, body)),
            Err(error) => Err(error),
        }
    }

    /// Reads the declaration of a function defined elsewhere, of which the
    /// lookahead is the keyword: a prototype.
    ///
    /// The lookahead is passed over unseen: the caller has looked at it,
    /// as `parse_item` does.
    pub fn parse_extern(&mut self) -> (result: Result<Prototype, ParseError>)
        ensures
            agrees(result, final(self)@, declaration(old(self)@)),
    {
        self.get_next_token();
        self.parse_prototype()
    }

    /// Reads an expression that stands by itself, and makes it the body of
    /// a function without a name and without parameters.
    pub fn parse_top_level_expr(&mut self) -> (result: Result<Function, ParseError>)
        ensures
            agrees(result, final(self)@, top_level_expr(old(self)@)),
            result is Ok ==> operators_known(result->Ok_0@.body),
    {
        match self.parse_expression() {
            Ok(expr) => {
                let args: Vec<String> = Vec::new();
                assert(names_of(args@) =~= Seq::<Seq<char>>::empty());
                let proto = Prototype::new(String::new(), args);
                Ok(Function::new(proto, expr))
            },
            Err(error) => Err(error),
        }
    }

    /// Reads one unit of source, whatever the lookahead shows it to be: a
    /// definition behind `def`, a declaration behind its keyword, and an
    /// expression otherwise.
    pub fn parse_item(&mut self) -> (result: Result<Item, ParseError>)
        ensures
            agrees(result, final(self)@, item(old(self)@)),
    {
        match &self.current {
            Some(Ok(Token::Define)) => match self.parse_definition() {
                Ok(function) => Ok(Item::Definition(function)),
                Err(error) => Err(error),
            },
            Some(Ok(Token::Extern)) => match self.parse_extern() {
                Ok(proto) => Ok(Item::Declaration(proto)),
                Err(error) => Err(error),
            },
            _ => match self.parse_top_level_expr() {
                Ok(function) => Ok(Item::Expression(function)),
                Err(error) => Err(error),
            },
        }
    }
}

/// Reads the unit of source at the start of `source`. What follows the
/// unit in `source` is not looked at.
pub fn parse(source: &str) -> (result: Result<Item, ParseError>)
    ensures
        result_view(result) == item(lex(source@)).result,
{
    let mut parser = Parser::from_source(source);
    parser.parse_item()
}

} // verus!
