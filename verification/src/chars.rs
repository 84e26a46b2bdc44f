//! Characters as the tokenizer sees them.
//!
//! Digits, the decimal point and the comment mark are fixed ASCII
//! characters. What is white space, a letter or a numeric character is for
//! Unicode to say, and the standard library says it. A `Glyph` is a
//! character together with those three answers; everything else in the
//! library works on glyphs and asks nothing more of Unicode.

use vstd::prelude::*;
use vstd::std_specs::iter::IteratorSpec;

verus! {

/// Whether `c` is white space in the sense of Unicode (`White_Space`).
pub uninterp spec fn unicode_whitespace(c: char) -> bool;

/// Whether `c` is a letter in the sense of Unicode (`Alphabetic`).
pub uninterp spec fn unicode_alphabetic(c: char) -> bool;

/// Whether `c` is a digit or another numeric character in the sense of
/// Unicode (the general categories `Nd`, `Nl` and `No`).
pub uninterp spec fn unicode_numeric(c: char) -> bool;

/// `char::is_whitespace` of the standard library. Its result depends on the
/// character alone and is named `unicode_whitespace`; nothing more is
/// claimed of it.
pub assume_specification[ char::is_whitespace ](c: char) -> (b: bool)
    ensures
        b == unicode_whitespace(c),
;

/// `char::is_alphabetic` of the standard library. Its result depends on the
/// character alone and is named `unicode_alphabetic`; nothing more is
/// claimed of it.
pub assume_specification[ char::is_alphabetic ](c: char) -> (b: bool)
    ensures
        b == unicode_alphabetic(c),
;

/// `char::is_alphanumeric` of the standard library holds of the characters
/// of which `char::is_alphabetic` or `char::is_numeric` holds. What the
/// latter returns depends on the character alone and is named
/// `unicode_numeric`; nothing more is claimed of it.
pub assume_specification[ char::is_alphanumeric ](c: char) -> (b: bool)
    ensures
        b == (unicode_alphabetic(c) || unicode_numeric(c)),
;

/// A character, and what Unicode says of it.
#[derive(Clone, Copy, Debug, PartialEq, Eq, Structural)]
pub struct Glyph {
    /// The character.
    pub ch: char,
    /// Whether it is white space.
    pub whitespace: bool,
    /// Whether it is a letter.
    pub alphabetic: bool,
    /// Whether it is a letter or a numeric character.
    pub alphanumeric: bool,
}

/// What a glyph means to the tokenizer when it stands where a token may
/// begin. A glyph belongs to the first class that claims it, in the order
/// in which the classes are listed.
#[derive(Clone, Copy, Debug, PartialEq, Eq, Structural)]
pub enum CharClass {
    /// One of `0` to `9`.
    Digit,
    /// The decimal point `.`.
    Point,
    /// The mark `#`, which opens a comment.
    Hash,
    /// White space.
    Blank,
    /// A letter, which opens a word.
    Letter,
    /// Anything else: a token of its own.
    Other,
}

/// The decimal digits `0` to `9`.
pub open spec fn is_digit(c: char) -> bool {
    '0' <= c && c <= '9'
}

/// The characters a numeric literal is made of.
pub open spec fn in_number(c: char) -> bool {
    is_digit(c) || c == '.'
}

/// The characters a comment runs over: all but the two line breaks.
pub open spec fn in_comment(c: char) -> bool {
    c != '\r' && c != '\n'
}

/// The glyph of `c`: the character with what Unicode says of it.
pub open spec fn glyph_of(c: char) -> Glyph {
    Glyph {
        ch: c,
        whitespace: unicode_whitespace(c),
        alphabetic: unicode_alphabetic(c),
        alphanumeric: unicode_alphabetic(c) || unicode_numeric(c),
    }
}

/// The glyphs of the characters of `text`.
pub open spec fn glyphs_of(text: Seq<char>) -> Seq<Glyph> {
    text.map_values(|c: char| glyph_of(c))
}

/// The characters of `glyphs`.
pub open spec fn chars_in(glyphs: Seq<Glyph>) -> Seq<char> {
    glyphs.map_values(|glyph: Glyph| glyph.ch)
}

/// The class of a glyph.
pub open spec fn class_of(glyph: Glyph) -> CharClass {
    if is_digit(glyph.ch) {
        CharClass::Digit
    } else if glyph.ch == '.' {
        CharClass::Point
    } else if glyph.ch == '#' {
        CharClass::Hash
    } else if glyph.whitespace {
        CharClass::Blank
    } else if glyph.alphabetic {
        CharClass::Letter
    } else {
        CharClass::Other
    }
}

/// Decides `is_digit`.
pub fn is_decimal_digit(c: char) -> (b: bool)
    ensures
        b == is_digit(c),
{
    '0' <= c && c <= '9'
}

/// Computes the class of a glyph.
pub fn classify(glyph: Glyph) -> (class: CharClass)
    ensures
        class == class_of(glyph),
{
    if is_decimal_digit(glyph.ch) {
        CharClass::Digit
    } else if glyph.ch == '.' {
        CharClass::Point
    } else if glyph.ch == '#' {
        CharClass::Hash
    } else if glyph.whitespace {
        CharClass::Blank
    } else if glyph.alphabetic {
        CharClass::Letter
    } else {
        CharClass::Other
    }
}

impl Glyph {
    /// The glyph of `c`, as the standard library describes the character.
    pub fn of(c: char) -> (glyph: Glyph)
        ensures
            glyph == glyph_of(c),
    {
        Glyph {
            ch: c,
            whitespace: c.is_whitespace(),
            alphabetic: c.is_alphabetic(),
            alphanumeric: c.is_alphanumeric(),
        }
    }
}

/// The glyphs of the characters of `text`, in order.
pub fn glyphs(text: &str) -> (glyphs: Vec<Glyph>)
    ensures
        glyphs@ == glyphs_of(text@),
{
    let mut glyphs: Vec<Glyph> = Vec::new();
    let mut rest = text.chars();
    let ghost mut seen: Seq<char> = Seq::empty();
    loop
        invariant
            rest.decrease() is Some,
            seen + rest.remaining() == text@,
            glyphs@ == glyphs_of(seen),
        ensures
            glyphs@ == glyphs_of(text@),
        decreases rest.decrease()->0,
    {
        match rest.next() {
            Some(c) => {
                glyphs.push(Glyph::of(c));
                proof {
                    seen = seen.push(c);
                }
            },
            None => {
                break;
            },
        }
    }
    glyphs
}

} // verus!
