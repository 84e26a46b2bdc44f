//! Tokens: the smallest units the tokenizer hands out.

use vstd::prelude::*;
use crate::chars::{in_number, is_decimal_digit, is_digit};
use crate::text::chars_of;

verus! {

/// The text of a well-formed numeric literal: digits with at most one
/// decimal point among them, and at least one digit.
pub open spec fn is_number_literal(text: Seq<char>) -> bool {
    &&& forall|i: int| 0 <= i < text.len() ==> in_number(#[trigger] text[i])
    &&& exists|i: int| 0 <= i < text.len() && is_digit(#[trigger] text[i])
    &&& forall|i: int, j: int|
        0 <= i < j < text.len() ==> !(#[trigger] text[i] == '.' && #[trigger] text[j] == '.')
}

/// A numeric literal that is not well formed, as it was written.
#[derive(Debug, PartialEq, Eq)]
pub struct LexError {
    pub text: String,
}

impl View for LexError {
    type V = Seq<char>;

    open spec fn view(&self) -> Seq<char> {
        self.text@
    }
}

impl Clone for LexError {
    fn clone(&self) -> (copy: LexError)
        ensures
            copy@ == self@,
    {
        LexError { text: self.text.clone() }
    }
}

/// A numeric literal as it was written. Every value is well formed, so its
/// text always denotes a number.
#[derive(Debug, PartialEq, Eq)]
pub struct NumberLiteral {
    text: String,
}

impl View for NumberLiteral {
    type V = Seq<char>;

    closed spec fn view(&self) -> Seq<char> {
        self.text@
    }
}

impl Clone for NumberLiteral {
    fn clone(&self) -> (copy: NumberLiteral)
        ensures
            copy@ == self@,
    {
        proof {
            use_type_invariant(self);
        }
        NumberLiteral { text: self.text.clone() }
    }
}

impl NumberLiteral {
    #[verifier::type_invariant]
    spec fn well_formed(self) -> bool {
        is_number_literal(self.text@)
    }

    /// Accepts `text` as a literal if it is well formed, and hands it back
    /// as an error if it is not.
    pub fn new(text: String) -> (made: Result<NumberLiteral, LexError>)
        ensures
            made is Ok <==> is_number_literal(text@),
            made is Ok ==> made->Ok_0@ == text@,
            made is Err ==> made->Err_0@ == text@,
    {
        let chars = chars_of(text.as_str());
        let mut only_number_chars = true;
        let mut digit_seen = false;
        let mut point_seen = false;
        let mut point_repeated = false;
        let mut i: usize = 0;
        while i < chars.len()
            invariant
                i <= chars.len(),
                only_number_chars <==> forall|k: int| 0 <= k < i ==> in_number(#[trigger] chars@[k]),
                digit_seen <==> exists|k: int| 0 <= k < i && is_digit(#[trigger] chars@[k]),
                point_seen <==> exists|k: int| 0 <= k < i && #[trigger] chars@[k] == '.',
                point_repeated <==> exists|k: int, l: int|
                    0 <= k < l < i && #[trigger] chars@[k] == '.' && #[trigger] chars@[l] == '.',
            decreases chars.len() - i,
        {
            let c = chars[i];
            if is_decimal_digit(c) {
                digit_seen = true;
            } else if c == '.' {
                if point_seen {
                    point_repeated = true;
                }
                point_seen = true;
            } else {
                only_number_chars = false;
            }
            i += 1;
        }
        if only_number_chars && digit_seen && !point_repeated {
            Ok(NumberLiteral { text })
        } else {
            Err(LexError { text })
        }
    }

    /// The literal's text.
    pub fn as_str(&self) -> (text: &str)
        ensures
            text@ == self@,
            is_number_literal(text@),
    {
        proof {
            use_type_invariant(self);
        }
        self.text.as_str()
    }
}

/// A token of the source language.
#[derive(Debug, PartialEq, Eq)]
pub enum Token {
    /// The keyword `def`.
    Define,
    /// The keyword that declares a function defined elsewhere.
    Extern,
    /// A word that is no keyword.
    Identifier(String),
    /// A numeric literal.
    Number(NumberLiteral),
    /// Any other character, by itself.
    UnknownChar(char),
}

/// A token as a mathematical value.
pub enum TokenView {
    Define,
    Extern,
    Identifier(Seq<char>),
    Number(Seq<char>),
    UnknownChar(char),
}

impl View for Token {
    type V = TokenView;

    open spec fn view(&self) -> TokenView {
        match self {
            Token::Define => TokenView::Define,
            Token::Extern => TokenView::Extern,
            Token::Identifier(name) => TokenView::Identifier(name@),
            Token::Number(literal) => TokenView::Number(literal@),
            Token::UnknownChar(c) => TokenView::UnknownChar(*c),
        }
    }
}

impl Clone for Token {
    fn clone(&self) -> (copy: Token)
        ensures
            copy@ == self@,
    {
        match self {
            Token::Define => Token::Define,
            Token::Extern => Token::Extern,
            Token::Identifier(name) => Token::Identifier(name.clone()),
            Token::Number(literal) => Token::Number(literal.clone()),
            Token::UnknownChar(c) => Token::UnknownChar(*c),
        }
    }
}

/// One item of a token stream as a mathematical value: a token, or the text
/// of a numeric literal that is not well formed.
pub type Lexeme = Result<TokenView, Seq<char>>;

/// The mathematical value of an item that the tokenizer handed out.
pub open spec fn lexeme_of(item: Result<Token, LexError>) -> Lexeme {
    match item {
        Ok(token) => Ok(token@),
        Err(error) => Err(error@),
    }
}

/// The mathematical values of the items in `items`, in order.
pub open spec fn lexemes_of(items: Seq<Result<Token, LexError>>) -> Seq<Lexeme> {
    items.map_values(|item: Result<Token, LexError>| lexeme_of(item))
}

/// The mathematical value of a lookahead: the item, or nothing at the end
/// of the input.
pub open spec fn lookahead_of(item: Option<Result<Token, LexError>>) -> Option<Lexeme> {
    match item {
        Some(item) => Some(lexeme_of(item)),
        None => None,
    }
}

} // verus!
