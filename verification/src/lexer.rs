//! The tokenizer: from source text to a stream of tokens.
//!
//! `lex` says which tokens a text holds, and `lex_glyphs` which tokens a
//! sequence of glyphs holds. A `Lexer` hands them out one at a time, from
//! the front, and its view is the stream that it has yet to hand out.

use vstd::prelude::*;
use crate::chars::{
    chars_in, class_of, classify, glyphs, glyphs_of, in_comment, in_number, is_decimal_digit,
    CharClass, Glyph,
};
use crate::token::{is_number_literal, lexeme_of, lexemes_of, Lexeme, TokenView};
pub use crate::token::{LexError, NumberLiteral, Token};

verus! {

/// The kinds of runs that the tokenizer scans over.
#[derive(Clone, Copy, Debug, PartialEq, Eq, Structural)]
pub enum Run {
    /// The letters and digits of a word, after its first letter.
    Word,
    /// The digits and decimal points of a numeric literal.
    Number,
    /// A comment, up to the end of its line.
    Comment,
}

/// Whether `glyph` continues a run of the given kind.
pub open spec fn continues(run: Run, glyph: Glyph) -> bool {
    match run {
        Run::Word => glyph.alphanumeric,
        Run::Number => in_number(glyph.ch),
        Run::Comment => in_comment(glyph.ch),
    }
}

/// The end of the longest run of the given kind that starts at `from`: the
/// index of the first glyph at or after `from` that does not continue
/// it, or the length of `s` if there is none.
pub open spec fn run_end(s: Seq<Glyph>, from: int, run: Run) -> int
    decreases s.len() - from,
{
    if 0 <= from < s.len() && continues(run, s[from]) {
        run_end(s, from + 1, run)
    } else {
        from
    }
}

/// The index of the first glyph at or after `from` that is neither blank
/// nor part of a comment, or the length of `s` if there is none.
pub open spec fn trivia_end(s: Seq<Glyph>, from: int) -> int
    decreases s.len() - from,
{
    if from < 0 || from >= s.len() {
        from
    } else if class_of(s[from]) == CharClass::Blank {
        trivia_end(s, from + 1)
    } else if class_of(s[from]) == CharClass::Hash {
        proof {
            lemma_run_end(s, from + 1, Run::Comment);
        }
        trivia_end(s, run_end(s, from + 1, Run::Comment))
    } else {
        from
    }
}

/// The keyword that opens a definition.
pub open spec fn define_keyword() -> Seq<char> {
    seq!['d', 'e', 'f']
}

/// The keyword that opens the declaration of a function defined elsewhere.
pub open spec fn declare_keyword() -> Seq<char> {
    seq!['e', 'x', 't', 'e', 'r', 'n']
}

/// The token that a word stands for: a keyword, or else an identifier.
pub open spec fn word_token(word: Seq<char>) -> TokenView {
    if word == define_keyword() {
        TokenView::Define
    } else if word == declare_keyword() {
        TokenView::Extern
    } else {
        TokenView::Identifier(word)
    }
}

/// What a numeric literal's text stands for: a number if it is well formed,
/// an error if it is not.
pub open spec fn number_lexeme(text: Seq<char>) -> Lexeme {
    if is_number_literal(text) {
        Ok(TokenView::Number(text))
    } else {
        Err(text)
    }
}

/// Where the token that starts at `at` ends.
pub open spec fn token_end(s: Seq<Glyph>, at: int) -> int {
    match class_of(s[at]) {
        CharClass::Letter => run_end(s, at + 1, Run::Word),
        CharClass::Digit | CharClass::Point => run_end(s, at + 1, Run::Number),
        _ => at + 1,
    }
}

/// The token that starts at `at`, where a token does start.
pub open spec fn token_at(s: Seq<Glyph>, at: int) -> Lexeme {
    match class_of(s[at]) {
        CharClass::Letter => Ok(word_token(chars_in(s.subrange(at, token_end(s, at))))),
        CharClass::Digit | CharClass::Point => number_lexeme(
            chars_in(s.subrange(at, token_end(s, at))),
        ),
        _ => Ok(TokenView::UnknownChar(s[at].ch)),
    }
}

/// The tokens of `s` from index `from` on.
pub open spec fn lexemes_from(s: Seq<Glyph>, from: int) -> Seq<Lexeme>
    decreases s.len() - from,
{
    let at = trivia_end(s, from);
    if 0 <= from && at < s.len() {
        proof {
            lemma_trivia_end(s, from);
            lemma_token_end(s, at);
        }
        seq![token_at(s, at)] + lexemes_from(s, token_end(s, at))
    } else {
        Seq::empty()
    }
}

/// The tokens of a sequence of glyphs.
pub open spec fn lex_glyphs(glyphs: Seq<Glyph>) -> Seq<Lexeme> {
    lexemes_from(glyphs, 0)
}

/// The tokens of a text.
pub open spec fn lex(text: Seq<char>) -> Seq<Lexeme> {
    lex_glyphs(glyphs_of(text))
}

/// A run ends at or after its start and within the text; every glyph
/// before its end continues it, and the glyph at its end does not.
pub proof fn lemma_run_end(s: Seq<Glyph>, from: int, run: Run)
    requires
        0 <= from <= s.len(),
    ensures
        from <= run_end(s, from, run) <= s.len(),
        forall|k: int| from <= k < run_end(s, from, run) ==> continues(run, #[trigger] s[k]),
        run_end(s, from, run) < s.len() ==> !continues(run, s[run_end(s, from, run)]),
    decreases s.len() - from,
{
    if from < s.len() && continues(run, s[from]) {
        lemma_run_end(s, from + 1, run);
    }
}

/// Trivia end at or after their start and within the text, on a glyph that
/// is neither blank nor the mark of a comment.
pub proof fn lemma_trivia_end(s: Seq<Glyph>, from: int)
    requires
        0 <= from <= s.len(),
    ensures
        from <= trivia_end(s, from) <= s.len(),
        trivia_end(s, from) < s.len() ==> {
            &&& class_of(s[trivia_end(s, from)]) != CharClass::Blank
            &&& class_of(s[trivia_end(s, from)]) != CharClass::Hash
        },
    decreases s.len() - from,
{
    if from < s.len() {
        if class_of(s[from]) == CharClass::Blank {
            lemma_trivia_end(s, from + 1);
        } else if class_of(s[from]) == CharClass::Hash {
            lemma_run_end(s, from + 1, Run::Comment);
            lemma_trivia_end(s, run_end(s, from + 1, Run::Comment));
        }
    }
}

/// A token holds at least one glyph and ends within the text.
pub proof fn lemma_token_end(s: Seq<Glyph>, at: int)
    requires
        0 <= at < s.len(),
    ensures
        at < token_end(s, at) <= s.len(),
{
    lemma_run_end(s, at + 1, Run::Word);
    lemma_run_end(s, at + 1, Run::Number);
}

/// Decides `continues`.
fn continues_run(run: Run, glyph: Glyph) -> (b: bool)
    ensures
        b == continues(run, glyph),
{
    match run {
        Run::Word => glyph.alphanumeric,
        Run::Number => is_decimal_digit(glyph.ch) || glyph.ch == '.',
        Run::Comment => glyph.ch != '\r' && glyph.ch != '\n',
    }
}

/// A tokenizer over one text. It moves forward only.
#[derive(Debug)]
pub struct Lexer {
    glyphs: Vec<Glyph>,
    pos: usize,
}

impl View for Lexer {
    type V = Seq<Lexeme>;

    /// The tokens that are still to come.
    closed spec fn view(&self) -> Seq<Lexeme> {
        lexemes_from(self.glyphs@, self.pos as int)
    }
}

impl Lexer {
    #[verifier::type_invariant]
    spec fn within_text(self) -> bool {
        self.pos <= self.glyphs.len()
    }

    /// A tokenizer at the start of `source`.
    pub fn new(source: &str) -> (lexer: Lexer)
        ensures
            lexer@ == lex(source@),
    {
        Lexer { glyphs: glyphs(source), pos: 0 }
    }

    /// A tokenizer at the start of a text whose characters come with what
    /// is to be held of them.
    pub fn from_glyphs(glyphs: Vec<Glyph>) -> (lexer: Lexer)
        ensures
            lexer@ == lex_glyphs(glyphs@),
    {
        Lexer { glyphs, pos: 0 }
    }

    /// Where the run of the given kind that starts at `from` ends.
    fn scan(&self, from: usize, run: Run) -> (end: usize)
        requires
            from <= self.glyphs.len(),
        ensures
            end == run_end(self.glyphs@, from as int, run),
            from <= end <= self.glyphs.len(),
    {
        let mut end = from;
        while end < self.glyphs.len() && continues_run(run, self.glyphs[end])
            invariant
                from <= end <= self.glyphs.len(),
                run_end(self.glyphs@, from as int, run) == run_end(self.glyphs@, end as int, run),
            decreases self.glyphs.len() - end,
        {
            end += 1;
        }
        end
    }

    /// Where the blanks and comments that start at `from` end.
    fn skip_trivia(&self, from: usize) -> (at: usize)
        requires
            from <= self.glyphs.len(),
        ensures
            at == trivia_end(self.glyphs@, from as int),
            from <= at <= self.glyphs.len(),
    {
        let mut at = from;
        while at < self.glyphs.len()
            invariant
                from <= at <= self.glyphs.len(),
                trivia_end(self.glyphs@, from as int) == trivia_end(self.glyphs@, at as int),
            ensures
                at == trivia_end(self.glyphs@, from as int),
                from <= at <= self.glyphs.len(),
            decreases self.glyphs.len() - at,
        {
            match classify(self.glyphs[at]) {
                CharClass::Blank => {
                    at += 1;
                },
                CharClass::Hash => {
                    at = self.scan(at + 1, Run::Comment);
                },
                _ => {
                    break;
                },
            }
        }
        at
    }

    /// The characters from `from` up to `to`, as a string.
    fn text_between(&self, from: usize, to: usize) -> (text: String)
        requires
            from <= to <= self.glyphs.len(),
        ensures
            text@ == chars_in(self.glyphs@.subrange(from as int, to as int)),
    {
        let mut text = String::new();
        let mut i = from;
        while i < to
            invariant
                from <= i <= to <= self.glyphs.len(),
                text@ == chars_in(self.glyphs@.subrange(from as int, i as int)),
            decreases to - i,
        {
            text.push(self.glyphs[i].ch);
            i += 1;
        }
        text
    }

    /// The token that the word from `from` up to `to` stands for.
    fn word(&self, from: usize, to: usize) -> (token: Token)
        requires
            from <= to <= self.glyphs.len(),
        ensures
            token@ == word_token(chars_in(self.glyphs@.subrange(from as int, to as int))),
    {
        let ghost word = chars_in(self.glyphs@.subrange(from as int, to as int));
        if to - from == 3 && self.glyphs[from].ch == 'd' && self.glyphs[from + 1].ch == 'e'
            && self.glyphs[from + 2].ch == 'f' {
            assert(word =~= define_keyword());
            Token::Define
        } else if to - from == 6 && self.glyphs[from].ch == 'e' && self.glyphs[from + 1].ch == 'x'
            && self.glyphs[from + 2].ch == 't' && self.glyphs[from + 3].ch == 'e'
            && self.glyphs[from + 4].ch == 'r' && self.glyphs[from + 5].ch == 'n' {
            assert(word =~= declare_keyword());
            Token::Extern
        } else {
            assert(define_keyword().len() == 3 && declare_keyword().len() == 6);
            Token::Identifier(self.text_between(from, to))
        }
    }

    /// Hands out the next token, or the malformed numeric literal that
    /// stands in its place, and moves past it. At the end of the input
    /// there is nothing to hand out, and the tokenizer stays where it is.
    pub fn next(&mut self) -> (item: Option<Result<Token, LexError>>)
        ensures
            old(self)@.len() == 0 ==> item is None && final(self)@ == old(self)@,
            old(self)@.len() > 0 ==> item is Some && lexeme_of(item->0) == old(self)@[0]
                && final(self)@ == old(self)@.drop_first(),
    {
        proof {
            use_type_invariant(&*self);
        }
        let at = self.skip_trivia(self.pos);
        if at >= self.glyphs.len() {
            return None;
        }
        let glyph = self.glyphs[at];
        let item = match classify(glyph) {
            CharClass::Letter => {
                let end = self.scan(at + 1, Run::Word);
                let token = self.word(at, end);
                self.pos = end;
                Ok(token)
            },
            CharClass::Digit | CharClass::Point => {
                let end = self.scan(at + 1, Run::Number);
                let text = self.text_between(at, end);
                self.pos = end;
                match NumberLiteral::new(text) {
                    Ok(literal) => Ok(Token::Number(literal)),
                    Err(error) => Err(error),
                }
            },
            _ => {
                self.pos = at + 1;
                Ok(Token::UnknownChar(glyph.ch))
            },
        };
        Some(item)
    }

    /// Hands out all the tokens that are still to come, in order.
    pub fn tokens(self) -> (items: Vec<Result<Token, LexError>>)
        ensures
            lexemes_of(items@) == self@,
    {
        let mut lexer = self;
        let mut items: Vec<Result<Token, LexError>> = Vec::new();
        loop
            invariant
                lexemes_of(items@) + lexer@ == self@,
            ensures
                lexemes_of(items@) == self@,
            decreases lexer@.len(),
        {
            match lexer.next() {
                Some(item) => {
                    items.push(item);
                },
                None => {
                    break;
                },
            }
        }
        items
    }
}

} // verus!
