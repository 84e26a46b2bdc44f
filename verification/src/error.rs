//! Why a parse failed.

use vstd::prelude::*;
use vstd::string::StringExecFns;
use crate::token::{LexError, Lexeme, Token, TokenView};

verus! {

/// The constructs that the parser reads.
#[derive(Clone, Copy, Debug, PartialEq, Eq, Structural)]
pub enum Construct {
    /// The name of a function and its parameter list.
    Prototype,
    /// An expression.
    Expression,
    /// The argument list of a call.
    Call,
}

/// Why a parse failed: what was expected, and what stood there instead.
/// `found` is `None` where the input ended.
#[derive(Debug, PartialEq, Eq)]
pub enum ParseError {
    /// A numeric literal that is not well formed stood where a token was
    /// needed.
    Lexical(LexError),
    /// A token that cannot begin the expected construct.
    UnexpectedToken { expected: Construct, found: Option<Token> },
    /// A delimiter of the construct `within` is missing.
    MissingDelimiter { delimiter: char, within: Construct, found: Option<Token> },
}

/// A parse error as a mathematical value.
pub enum ParseErrorView {
    Lexical(Seq<char>),
    UnexpectedToken { expected: Construct, found: Option<TokenView> },
    MissingDelimiter { delimiter: char, within: Construct, found: Option<TokenView> },
}

/// The mathematical value of a token that may be absent.
pub open spec fn found_view(found: Option<Token>) -> Option<TokenView> {
    match found {
        Some(token) => Some(token@),
        None => None,
    }
}

impl View for ParseError {
    type V = ParseErrorView;

    open spec fn view(&self) -> ParseErrorView {
        match self {
            ParseError::Lexical(error) => ParseErrorView::Lexical(error@),
            ParseError::UnexpectedToken { expected, found } => ParseErrorView::UnexpectedToken {
                expected: *expected,
                found: found_view(*found),
            },
            ParseError::MissingDelimiter { delimiter, within, found } => {
                ParseErrorView::MissingDelimiter {
                    delimiter: *delimiter,
                    within: *within,
                    found: found_view(*found),
                }
            },
        }
    }
}

/// A copy of a token that may be absent.
fn copy_found(found: &Option<Token>) -> (copy: Option<Token>)
    ensures
        found_view(copy) == found_view(*found),
{
    match found {
        Some(token) => Some(token.clone()),
        None => None,
    }
}

impl Clone for ParseError {
    fn clone(&self) -> (copy: ParseError)
        ensures
            copy@ == self@,
    {
        match self {
            ParseError::Lexical(error) => ParseError::Lexical(error.clone()),
            ParseError::UnexpectedToken { expected, found } => ParseError::UnexpectedToken {
                expected: *expected,
                found: copy_found(found),
            },
            ParseError::MissingDelimiter { delimiter, within, found } => {
                ParseError::MissingDelimiter {
                    delimiter: *delimiter,
                    within: *within,
                    found: copy_found(found),
                }
            },
        }
    }
}

/// The error for a lookahead that cannot begin the construct `expected`.
pub open spec fn unexpected(expected: Construct, lookahead: Option<Lexeme>) -> ParseErrorView {
    match lookahead {
        Some(Err(text)) => ParseErrorView::Lexical(text),
        Some(Ok(token)) => ParseErrorView::UnexpectedToken { expected, found: Some(token) },
        None => ParseErrorView::UnexpectedToken { expected, found: None },
    }
}

/// The error for a lookahead that stands where the construct `within`
/// needs `delimiter`.
pub open spec fn missing(delimiter: char, within: Construct, lookahead: Option<Lexeme>)
    -> ParseErrorView {
    match lookahead {
        Some(Err(text)) => ParseErrorView::Lexical(text),
        Some(Ok(token)) => ParseErrorView::MissingDelimiter {
            delimiter,
            within,
            found: Some(token),
        },
        None => ParseErrorView::MissingDelimiter { delimiter, within, found: None },
    }
}

/// The name of a construct in a message.
pub open spec fn construct_name(construct: Construct) -> Seq<char> {
    match construct {
        Construct::Prototype => "prototype"@,
        Construct::Expression => "expression"@,
        Construct::Call => "argument list"@,
    }
}

/// What a message says of the token that was found.
pub open spec fn found_text(found: Option<TokenView>) -> Seq<char> {
    match found {
        None => "end of input"@,
        Some(TokenView::Define) => "keyword def"@,
        Some(TokenView::Extern) => "keyword extern"@,
        Some(TokenView::Identifier(name)) => "identifier "@ + name,
        Some(TokenView::Number(text)) => "number "@ + text,
        Some(TokenView::UnknownChar(c)) => "character "@.push(c),
    }
}

/// The message of an error.
pub open spec fn message_text(error: ParseErrorView) -> Seq<char> {
    match error {
        ParseErrorView::Lexical(text) => "malformed number "@ + text,
        ParseErrorView::UnexpectedToken { expected, found } => "expected "@ + construct_name(
            expected,
        ) + ", found "@ + found_text(found),
        ParseErrorView::MissingDelimiter { delimiter, within, found } => "expected "@.push(
            delimiter,
        ) + " in "@ + construct_name(within) + ", found "@ + found_text(found),
    }
}

/// The name of `construct`, as messages give it.
fn name_of(construct: Construct) -> (name: &'static str)
    ensures
        name@ == construct_name(construct),
{
    match construct {
        Construct::Prototype => "prototype",
        Construct::Expression => "expression",
        Construct::Call => "argument list",
    }
}

/// Appends to `text` what a message says of the token that was found.
fn append_found(text: &mut String, found: &Option<Token>)
    ensures
        final(text)@ == old(text)@ + found_text(found_view(*found)),
{
    match found {
        None => {
            text.append("end of input");
        },
        Some(Token::Define) => {
            text.append("keyword def");
        },
        Some(Token::Extern) => {
            text.append("keyword extern");
        },
        Some(Token::Identifier(name)) => {
            text.append("identifier ");
            text.append(name.as_str());
        },
        Some(Token::Number(literal)) => {
            text.append("number ");
            text.append(literal.as_str());
        },
        Some(Token::UnknownChar(c)) => {
            text.append("character ");
            text.push(*c);
        },
    }
}

impl ParseError {
    /// A description of the error for a reader: what was expected, and
    /// what was found.
    pub fn message(&self) -> (text: String)
        ensures
            text@ == message_text(self@),
    {
        match self {
            ParseError::Lexical(error) => {
                let mut text = String::from_str("malformed number ");
                text.append(error.text.as_str());
                text
            },
            ParseError::UnexpectedToken { expected, found } => {
                let mut text = String::from_str("expected ");
                text.append(name_of(*expected));
                text.append(", found ");
                append_found(&mut text, found);
                text
            },
            ParseError::MissingDelimiter { delimiter, within, found } => {
                let mut text = String::from_str("expected ");
                text.push(*delimiter);
                text.append(" in ");
                text.append(name_of(*within));
                text.append(", found ");
                append_found(&mut text, found);
                text
            },
        }
    }
}

} // verus!
