//! What holds of the tokens of every text.
//!
//! Most laws speak of sequences of glyphs, whatever the glyphs say of their
//! characters; the last ones carry them over to texts.

use vstd::prelude::*;
use crate::chars::{
    chars_in, class_of, glyph_of, glyphs_of, in_comment, in_number, CharClass, Glyph,
};
use crate::lexer::{
    continues, declare_keyword, define_keyword, lemma_run_end, lemma_token_end, lemma_trivia_end,
    lex, lex_glyphs, lexemes_from, number_lexeme, run_end, token_at, token_end, trivia_end,
    word_token, Run,
};
use crate::token::{is_number_literal, Lexeme, TokenView};

verus! {

/// A word: a letter, and letters and numeric characters behind it.
pub open spec fn is_word(glyphs: Seq<Glyph>) -> bool {
    &&& glyphs.len() > 0
    &&& class_of(glyphs[0]) == CharClass::Letter
    &&& forall|i: int| 1 <= i < glyphs.len() ==> (#[trigger] glyphs[i]).alphanumeric
}

/// A number: digits and decimal points, and at least one of them.
pub open spec fn is_number_text(glyphs: Seq<Glyph>) -> bool {
    &&& glyphs.len() > 0
    &&& forall|i: int| 0 <= i < glyphs.len() ==> in_number((#[trigger] glyphs[i]).ch)
}

/// What the tokenizer promises of each item that it hands out: a number is
/// a well-formed literal, and an error is a literal that is not; an
/// identifier is no keyword and does not begin like a number or a comment,
/// nor does a character that stands by itself.
pub open spec fn lexeme_well_formed(item: Lexeme) -> bool {
    match item {
        Ok(TokenView::Number(text)) => is_number_literal(text),
        Ok(TokenView::Identifier(name)) => {
            &&& name.len() > 0
            &&& !in_number(name[0])
            &&& name[0] != '#'
            &&& name != define_keyword()
            &&& name != declare_keyword()
        },
        Ok(TokenView::UnknownChar(c)) => !in_number(c) && c != '#',
        Ok(_) => true,
        Err(text) => {
            &&& text.len() > 0
            &&& forall|i: int| 0 <= i < text.len() ==> in_number(#[trigger] text[i])
            &&& !is_number_literal(text)
        },
    }
}

/// The token that starts where a token may start is well formed.
pub proof fn lemma_token_well_formed(s: Seq<Glyph>, at: int)
    requires
        0 <= at < s.len(),
        class_of(s[at]) != CharClass::Blank,
        class_of(s[at]) != CharClass::Hash,
    ensures
        lexeme_well_formed(token_at(s, at)),
{
    let end = token_end(s, at);
    let text = chars_in(s.subrange(at, end));
    lemma_token_end(s, at);
    lemma_run_end(s, at + 1, Run::Number);
    assert forall|i: int| 0 <= i < text.len() implies text[i] == s[at + i].ch by {}
}

/// Every item of the token stream of a text is well formed.
pub proof fn lemma_lexemes_well_formed(s: Seq<Glyph>, from: int)
    requires
        0 <= from <= s.len(),
    ensures
        forall|i: int|
            0 <= i < lexemes_from(s, from).len() ==> lexeme_well_formed(
                #[trigger] lexemes_from(s, from)[i],
            ),
    decreases s.len() - from,
{
    lemma_trivia_end(s, from);
    let at = trivia_end(s, from);
    if at < s.len() {
        lemma_token_end(s, at);
        lemma_token_well_formed(s, at);
        lemma_lexemes_well_formed(s, token_end(s, at));
        let tail = lexemes_from(s, token_end(s, at));
        assert forall|i: int| 0 < i < lexemes_from(s, from).len() implies lexemes_from(s, from)[i]
            == tail[i - 1] by {}
    }
}

/// A run ends where the glyphs that continue it end.
pub proof fn lemma_run_end_is(s: Seq<Glyph>, from: int, end: int, run: Run)
    requires
        0 <= from <= end <= s.len(),
        forall|i: int| from <= i < end ==> continues(run, #[trigger] s[i]),
        end < s.len() ==> !continues(run, s[end]),
    ensures
        run_end(s, from, run) == end,
    decreases end - from,
{
    if from < end {
        lemma_run_end_is(s, from + 1, end, run);
    }
}

/// A run in a text without its first `k` glyphs ends where the run in the
/// whole text ends, counted from the new start.
pub proof fn lemma_run_end_shift(s: Seq<Glyph>, k: int, from: int, run: Run)
    requires
        0 <= k <= s.len(),
        0 <= from <= s.len() - k,
    ensures
        run_end(s, k + from, run) == k + run_end(s.skip(k), from, run),
    decreases s.len() - k - from,
{
    if from < s.len() - k {
        if continues(run, s[k + from]) {
            lemma_run_end_shift(s, k, from + 1, run);
        }
    }
}

/// Blanks and comments in a text without its first `k` glyphs end where
/// they end in the whole text, counted from the new start.
pub proof fn lemma_trivia_end_shift(s: Seq<Glyph>, k: int, from: int)
    requires
        0 <= k <= s.len(),
        0 <= from <= s.len() - k,
    ensures
        trivia_end(s, k + from) == k + trivia_end(s.skip(k), from),
    decreases s.len() - k - from,
{
    if from < s.len() - k {
        if class_of(s[k + from]) == CharClass::Blank {
            lemma_trivia_end_shift(s, k, from + 1);
        } else if class_of(s[k + from]) == CharClass::Hash {
            lemma_run_end_shift(s, k, from + 1, Run::Comment);
            lemma_run_end(s.skip(k), from + 1, Run::Comment);
            lemma_trivia_end_shift(s, k, run_end(s.skip(k), from + 1, Run::Comment));
        }
    }
}

/// The token at an index of a text without its first `k` glyphs is the
/// token at that place in the whole text.
pub proof fn lemma_token_shift(s: Seq<Glyph>, k: int, at: int)
    requires
        0 <= k <= s.len(),
        0 <= at < s.len() - k,
    ensures
        token_end(s, k + at) == k + token_end(s.skip(k), at),
        token_at(s, k + at) == token_at(s.skip(k), at),
{
    lemma_run_end_shift(s, k, at + 1, Run::Word);
    lemma_run_end_shift(s, k, at + 1, Run::Number);
    lemma_token_end(s.skip(k), at);
    let end = token_end(s.skip(k), at);
    assert(s.subrange(k + at, k + end) =~= s.skip(k).subrange(at, end));
}

/// The tokens of a text from an index on are the tokens of what the text
/// holds from that index on.
pub proof fn lemma_lexemes_shift(s: Seq<Glyph>, k: int, from: int)
    requires
        0 <= k <= s.len(),
        0 <= from <= s.len() - k,
    ensures
        lexemes_from(s, k + from) == lexemes_from(s.skip(k), from),
    decreases s.len() - k - from,
{
    lemma_trivia_end_shift(s, k, from);
    lemma_trivia_end(s.skip(k), from);
    let at = trivia_end(s.skip(k), from);
    if at < s.len() - k {
        lemma_token_shift(s, k, at);
        lemma_token_end(s.skip(k), at);
        lemma_lexemes_shift(s, k, token_end(s.skip(k), at));
    }
}

/// The tokens depend on the text ahead alone: from an index on, a text
/// holds the tokens of its suffix at that index.
pub proof fn lemma_lex_suffix(s: Seq<Glyph>, from: int)
    requires
        0 <= from <= s.len(),
    ensures
        lexemes_from(s, from) == lex_glyphs(s.skip(from)),
{
    lemma_lexemes_shift(s, from, 0);
}

/// The tokens of a text are its first token and the tokens of the text
/// behind that token; a text of blanks and comments alone holds none.
pub proof fn lemma_lex_unfold(s: Seq<Glyph>)
    ensures
        trivia_end(s, 0) >= s.len() ==> lex_glyphs(s) == Seq::<Lexeme>::empty(),
        trivia_end(s, 0) < s.len() ==> lex_glyphs(s) == seq![token_at(s, trivia_end(s, 0))]
            + lex_glyphs(s.skip(token_end(s, trivia_end(s, 0)))),
{
    lemma_trivia_end(s, 0);
    let at = trivia_end(s, 0);
    if at < s.len() {
        lemma_token_end(s, at);
        lemma_lex_suffix(s, token_end(s, at));
    }
}

/// A blank in front of a text changes nothing.
pub proof fn lemma_leading_blank(blank: Glyph, s: Seq<Glyph>)
    requires
        class_of(blank) == CharClass::Blank,
    ensures
        lex_glyphs(seq![blank] + s) == lex_glyphs(s),
{
    let text = seq![blank] + s;
    assert(text.skip(1) =~= s);
    lemma_lex_suffix(text, 1);
}

/// A comment in front of a text changes nothing: the mark `#` and what
/// follows it up to the end of the line, where the line ends with the text
/// or with a line break.
pub proof fn lemma_leading_comment(mark: Glyph, comment: Seq<Glyph>, s: Seq<Glyph>)
    requires
        mark.ch == '#',
        forall|i: int| 0 <= i < comment.len() ==> in_comment((#[trigger] comment[i]).ch),
        s.len() > 0 ==> !in_comment(s[0].ch),
    ensures
        lex_glyphs(seq![mark] + comment + s) == lex_glyphs(s),
{
    let text = seq![mark] + comment + s;
    let end = comment.len() as int + 1;
    assert(text.skip(end) =~= s);
    lemma_run_end_is(text, 1, end, Run::Comment);
    lemma_lex_suffix(text, end);
}

/// A numeric literal in front of a text that does not continue it is one
/// token, a number or an error as the literal is well formed or not, and
/// the tokens of the rest follow.
pub proof fn lemma_number_then(number: Seq<Glyph>, s: Seq<Glyph>)
    requires
        is_number_text(number),
        s.len() > 0 ==> !in_number(s[0].ch),
    ensures
        lex_glyphs(number + s) == seq![number_lexeme(chars_in(number))] + lex_glyphs(s),
{
    let whole = number + s;
    let end = number.len() as int;
    lemma_run_end_is(whole, 1, end, Run::Number);
    assert(whole.subrange(0, end) =~= number);
    assert(whole.skip(end) =~= s);
    lemma_lex_unfold(whole);
}

/// A word in front of a text that does not continue it is one token, a
/// keyword or an identifier, and the tokens of the rest follow.
pub proof fn lemma_word_then(word: Seq<Glyph>, s: Seq<Glyph>)
    requires
        is_word(word),
        s.len() > 0 ==> !s[0].alphanumeric,
    ensures
        lex_glyphs(word + s) == seq![Ok::<TokenView, Seq<char>>(word_token(chars_in(word)))]
            + lex_glyphs(s),
{
    let whole = word + s;
    let end = word.len() as int;
    lemma_run_end_is(whole, 1, end, Run::Word);
    assert(whole.subrange(0, end) =~= word);
    assert(whole.skip(end) =~= s);
    lemma_lex_unfold(whole);
}

/// A glyph that belongs to no other class is a token of its own, whatever
/// follows it, and the tokens of the rest follow.
pub proof fn lemma_symbol_then(other: Glyph, s: Seq<Glyph>)
    requires
        class_of(other) == CharClass::Other,
    ensures
        lex_glyphs(seq![other] + s) == seq![
            Ok::<TokenView, Seq<char>>(TokenView::UnknownChar(other.ch)),
        ] + lex_glyphs(s),
{
    let whole = seq![other] + s;
    assert(whole.skip(1) =~= s);
    lemma_lex_unfold(whole);
}

/// The glyphs of a text hold the characters of the text, and the glyphs of
/// two texts in a row are the glyphs of the one and of the other.
pub proof fn lemma_glyphs_of(a: Seq<char>, b: Seq<char>)
    ensures
        chars_in(glyphs_of(a)) == a,
        glyphs_of(a + b) == glyphs_of(a) + glyphs_of(b),
{
}

/// A blank character in front of a text changes nothing.
pub proof fn lemma_leading_blank_in_text(blank: char, text: Seq<char>)
    requires
        class_of(glyph_of(blank)) == CharClass::Blank,
    ensures
        lex(seq![blank] + text) == lex(text),
{
    lemma_glyphs_of(seq![blank], text);
    assert(glyphs_of(seq![blank]) =~= seq![glyph_of(blank)]);
    lemma_leading_blank(glyph_of(blank), glyphs_of(text));
}

/// A comment in front of a text changes nothing: the mark `#` and what
/// follows it up to the end of the line, where the line ends with the text
/// or with a line break.
pub proof fn lemma_leading_comment_in_text(comment: Seq<char>, text: Seq<char>)
    requires
        forall|i: int| 0 <= i < comment.len() ==> in_comment(#[trigger] comment[i]),
        text.len() > 0 ==> !in_comment(text[0]),
    ensures
        lex(seq!['#'] + comment + text) == lex(text),
{
    lemma_glyphs_of(seq!['#'] + comment, text);
    lemma_glyphs_of(seq!['#'], comment);
    assert(glyphs_of(seq!['#']) =~= seq![glyph_of('#')]);
    lemma_leading_comment(glyph_of('#'), glyphs_of(comment), glyphs_of(text));
}

/// Every item of `lex(text)` is well formed.
pub proof fn lemma_lex_well_formed(text: Seq<char>)
    ensures
        forall|i: int| 0 <= i < lex(text).len() ==> lexeme_well_formed(#[trigger] lex(text)[i]),
{
    lemma_lexemes_well_formed(glyphs_of(text), 0);
}

/// A text made of digits and decimal points and nothing else is one token:
/// a number with that very text if the text is a well-formed literal, and
/// an error with that text if it is not.
pub proof fn lemma_number_text_is_one_lexeme(text: Seq<char>)
    requires
        text.len() > 0,
        forall|i: int| 0 <= i < text.len() ==> in_number(#[trigger] text[i]),
    ensures
        lex(text) == seq![number_lexeme(text)],
{
    let number = glyphs_of(text);
    lemma_glyphs_of(text, Seq::empty());
    lemma_number_then(number, Seq::empty());
}

/// A numeric literal comes out of the tokenizer as one number that holds
/// the literal as it was written.
pub proof fn lemma_number_literal_round_trip(text: Seq<char>)
    requires
        is_number_literal(text),
    ensures
        lex(text) == seq![Ok::<TokenView, Seq<char>>(TokenView::Number(text))],
{
    lemma_number_text_is_one_lexeme(text);
}

/// An identifier: a text that begins with a letter, goes on with letters
/// and numeric characters, and is no keyword.
pub open spec fn is_identifier(name: Seq<char>) -> bool {
    is_word(glyphs_of(name)) && name != define_keyword() && name != declare_keyword()
}

/// A word is one token: the keyword that it spells, or else an identifier
/// that holds the word as it was written.
pub proof fn lemma_word_is_one_token(text: Seq<char>)
    requires
        is_word(glyphs_of(text)),
    ensures
        lex(text) == seq![Ok::<TokenView, Seq<char>>(word_token(text))],
{
    let word = glyphs_of(text);
    lemma_glyphs_of(text, Seq::empty());
    lemma_word_then(word, Seq::empty());
}

/// An identifier comes out of the tokenizer as one identifier token that
/// holds the name as it was written.
pub proof fn lemma_identifier_fidelity(name: Seq<char>)
    requires
        is_identifier(name),
    ensures
        lex(name) == seq![Ok::<TokenView, Seq<char>>(TokenView::Identifier(name))],
{
    lemma_word_is_one_token(name);
}

} // verus!
