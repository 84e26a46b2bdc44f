use kaleidoscope::chars::{classify, glyphs, is_decimal_digit, CharClass, Glyph};
use kaleidoscope::lexer::{LexError, Lexer, Token};
use kaleidoscope::text::chars_of;

fn class(c: char) -> CharClass {
    classify(Glyph::of(c))
}

fn plain(ch: char) -> Glyph {
    Glyph { ch, whitespace: false, alphabetic: false, alphanumeric: false }
}

fn letter(ch: char) -> Glyph {
    Glyph { ch, whitespace: false, alphabetic: true, alphanumeric: true }
}

fn blank(ch: char) -> Glyph {
    Glyph { ch, whitespace: true, alphabetic: false, alphanumeric: false }
}

#[test]
fn digits_are_the_ten_ascii_digits() {
    for c in "0123456789".chars() {
        assert!(is_decimal_digit(c));
        assert_eq!(class(c), CharClass::Digit);
    }
    for c in ['/', ':', 'a', '.', ' ', '٣', '¾'] {
        assert!(!is_decimal_digit(c));
    }
}

#[test]
fn glyphs_say_what_unicode_says() {
    assert_eq!(
        Glyph::of('a'),
        Glyph { ch: 'a', whitespace: false, alphabetic: true, alphanumeric: true }
    );
    assert_eq!(
        Glyph::of('7'),
        Glyph { ch: '7', whitespace: false, alphabetic: false, alphanumeric: true }
    );
    assert_eq!(
        Glyph::of('\n'),
        Glyph { ch: '\n', whitespace: true, alphabetic: false, alphanumeric: false }
    );
    assert_eq!(
        Glyph::of('+'),
        Glyph { ch: '+', whitespace: false, alphabetic: false, alphanumeric: false }
    );
    assert_eq!(glyphs(""), vec![]);
    assert_eq!(glyphs("a +"), vec![Glyph::of('a'), Glyph::of(' '), Glyph::of('+')]);
}

#[test]
fn every_character_has_one_class() {
    assert_eq!(class('.'), CharClass::Point);
    assert_eq!(class('#'), CharClass::Hash);
    assert_eq!(class(' '), CharClass::Blank);
    assert_eq!(class('\t'), CharClass::Blank);
    assert_eq!(class('\n'), CharClass::Blank);
    assert_eq!(class('\r'), CharClass::Blank);
    assert_eq!(class('\u{a0}'), CharClass::Blank);
    assert_eq!(class('a'), CharClass::Letter);
    assert_eq!(class('Z'), CharClass::Letter);
    assert_eq!(class('é'), CharClass::Letter);
    assert_eq!(class('京'), CharClass::Letter);
    assert_eq!(class('+'), CharClass::Other);
    assert_eq!(class('('), CharClass::Other);
    assert_eq!(class('_'), CharClass::Other);
    assert_eq!(class('٣'), CharClass::Other);
    assert_eq!(class('💝'), CharClass::Other);
}

#[test]
fn fixed_characters_come_before_what_the_glyph_says() {
    let odd = Glyph { ch: '7', whitespace: true, alphabetic: true, alphanumeric: true };
    assert_eq!(classify(odd), CharClass::Digit);
    let odd = Glyph { ch: '.', whitespace: true, alphabetic: true, alphanumeric: true };
    assert_eq!(classify(odd), CharClass::Point);
    let odd = Glyph { ch: '#', whitespace: true, alphabetic: true, alphanumeric: true };
    assert_eq!(classify(odd), CharClass::Hash);
    let odd = Glyph { ch: 'x', whitespace: true, alphabetic: true, alphanumeric: true };
    assert_eq!(classify(odd), CharClass::Blank);
}

#[test]
fn chars_of_keeps_every_character_in_order() {
    assert_eq!(chars_of(""), Vec::<char>::new());
    assert_eq!(chars_of("a1 é\n京"), vec!['a', '1', ' ', 'é', '\n', '京']);
}

#[test]
fn tokens_follow_the_glyphs_that_are_given() {
    let items = Lexer::from_glyphs(vec![
        plain('1'),
        blank(' '),
        plain('+'),
        letter('x'),
        plain('1'),
        blank('_'),
        letter('+'),
        plain('y'),
    ])
    .tokens();
    assert_eq!(items.len(), 6);
    match &items[0] {
        Ok(Token::Number(literal)) => assert_eq!(literal.as_str(), "1"),
        other => panic!("expected a number, found {:?}", other),
    }
    assert_eq!(items[1], Ok(Token::UnknownChar('+')));
    assert_eq!(items[2], Ok(Token::Identifier(String::from("x"))));
    match &items[3] {
        Ok(Token::Number(literal)) => assert_eq!(literal.as_str(), "1"),
        other => panic!("expected a number, found {:?}", other),
    }
    assert_eq!(items[4], Ok(Token::Identifier(String::from("+"))));
    assert_eq!(items[5], Ok(Token::UnknownChar('y')));
}

#[test]
fn from_glyphs_agrees_with_new_on_the_glyphs_of_a_text() {
    let source = "def f(x) # body\n  x * 2.5 + g(1.2.3)";
    let from_text: Vec<Result<Token, LexError>> = Lexer::new(source).tokens();
    let from_glyphs = Lexer::from_glyphs(glyphs(source)).tokens();
    assert_eq!(from_text, from_glyphs);
    assert_eq!(from_text.len(), 13);
}
