use kaleidoscope::lexer::{LexError, Lexer, Token};

fn number(item: Option<Result<Token, LexError>>) -> f64 {
    match item {
        Some(Ok(Token::Number(literal))) => literal.as_str().parse().unwrap(),
        other => panic!("expected a number, found {:?}", other),
    }
}

fn tokens(source: &str) -> Vec<Result<Token, LexError>> {
    let mut lexer = Lexer::new(source);
    let mut items = Vec::new();
    while let Some(item) = lexer.next() {
        items.push(item);
    }
    items
}

#[test]
fn test_simple_tokens_and_value() {
    let mut lexer = Lexer::new("1 + 1 - foo");
    assert_eq!(number(lexer.next()), 1.0);
    assert_eq!(lexer.next().unwrap(), Ok(Token::UnknownChar('+')));
    assert_eq!(number(lexer.next()), 1.0);
    assert_eq!(lexer.next().unwrap(), Ok(Token::UnknownChar('-')));
    assert_eq!(lexer.next().unwrap(), Ok(Token::Identifier(String::from("foo"))));
    assert_eq!(lexer.next(), None);
}

#[test]
fn test_simple_tokens_and_value_no_whitespace() {
    let mut lexer = Lexer::new("1+1-foo");
    assert_eq!(number(lexer.next()), 1.0);
    assert_eq!(lexer.next().unwrap(), Ok(Token::UnknownChar('+')));
    assert_eq!(number(lexer.next()), 1.0);
    assert_eq!(lexer.next().unwrap(), Ok(Token::UnknownChar('-')));
    assert_eq!(lexer.next().unwrap(), Ok(Token::Identifier(String::from("foo"))));
    assert_eq!(lexer.next(), None);
}

#[test]
fn test_comments() {
    let code = "# This is a comment 1+1
        1 + 2 # <- is code
        # this is not";
    let mut lexer = Lexer::new(code);
    assert_eq!(number(lexer.next()), 1.0);
    assert_eq!(lexer.next(), Some(Ok(Token::UnknownChar('+'))));
    assert_eq!(number(lexer.next()), 2.0);
    assert_eq!(lexer.next(), None);
}

#[test]
fn comment_between_lines() {
    let mut lexer = Lexer::new("# c 1+1\n1 + 2 # trailing\n# c");
    assert_eq!(number(lexer.next()), 1.0);
    assert_eq!(lexer.next(), Some(Ok(Token::UnknownChar('+'))));
    assert_eq!(number(lexer.next()), 2.0);
    assert_eq!(lexer.next(), None);
    assert_eq!(lexer.next(), None);
}

#[test]
fn comment_ends_at_carriage_return() {
    let mut lexer = Lexer::new("#a\rb");
    assert_eq!(lexer.next(), Some(Ok(Token::Identifier(String::from("b")))));
    assert_eq!(lexer.next(), None);
}

#[test]
fn whitespace_does_not_change_the_tokens() {
    assert_eq!(tokens("1+1-foo"), tokens("1 + 1 - foo"));
    assert_eq!(tokens("1+1-foo").len(), 5);
}

#[test]
fn number_literals_keep_their_text_and_value() {
    let cases: [(&str, f64); 5] = [
        ("3.14159", 3.14159),
        ("1.", 1.0),
        (".1", 0.1),
        ("1234567890", 1234567890.0),
        ("1", 1.0),
    ];
    for (text, value) in cases {
        let mut lexer = Lexer::new(text);
        match lexer.next() {
            Some(Ok(Token::Number(literal))) => {
                assert_eq!(literal.as_str(), text);
                assert_eq!(literal.as_str().parse::<f64>().unwrap(), value);
            }
            other => panic!("expected a number, found {:?}", other),
        }
        assert_eq!(lexer.next(), None);
    }
}

#[test]
fn second_decimal_point_is_an_error() {
    let mut lexer = Lexer::new("1.2.3 + x");
    assert_eq!(lexer.next(), Some(Err(LexError { text: String::from("1.2.3") })));
    assert_eq!(lexer.next(), Some(Ok(Token::UnknownChar('+'))));
    assert_eq!(lexer.next(), Some(Ok(Token::Identifier(String::from("x")))));
    assert_eq!(lexer.next(), None);
}

#[test]
fn lone_decimal_point_is_an_error() {
    assert_eq!(tokens("."), vec![Err(LexError { text: String::from(".") })]);
    assert_eq!(tokens(".."), vec![Err(LexError { text: String::from("..") })]);
}

#[test]
fn keywords_and_identifiers() {
    assert_eq!(
        tokens("def extern define externs de Def x1 é9"),
        vec![
            Ok(Token::Define),
            Ok(Token::Extern),
            Ok(Token::Identifier(String::from("define"))),
            Ok(Token::Identifier(String::from("externs"))),
            Ok(Token::Identifier(String::from("de"))),
            Ok(Token::Identifier(String::from("Def"))),
            Ok(Token::Identifier(String::from("x1"))),
            Ok(Token::Identifier(String::from("é9"))),
        ]
    );
}

#[test]
fn identifier_stops_at_first_other_character() {
    assert_eq!(
        tokens("foo(bar"),
        vec![
            Ok(Token::Identifier(String::from("foo"))),
            Ok(Token::UnknownChar('(')),
            Ok(Token::Identifier(String::from("bar"))),
        ]
    );
}

#[test]
fn number_followed_by_letters_is_two_tokens() {
    let items = tokens("12ab");
    assert_eq!(items.len(), 2);
    assert_eq!(number(Some(items[0].clone())), 12.0);
    assert_eq!(items[1], Ok(Token::Identifier(String::from("ab"))));
}

#[test]
fn other_characters_are_tokens_of_their_own() {
    assert_eq!(
        tokens("( ) , < * ; @"),
        vec![
            Ok(Token::UnknownChar('(')),
            Ok(Token::UnknownChar(')')),
            Ok(Token::UnknownChar(',')),
            Ok(Token::UnknownChar('<')),
            Ok(Token::UnknownChar('*')),
            Ok(Token::UnknownChar(';')),
            Ok(Token::UnknownChar('@')),
        ]
    );
}

#[test]
fn empty_and_blank_sources_hold_no_token() {
    assert_eq!(tokens(""), vec![]);
    assert_eq!(tokens(" \t\r\n "), vec![]);
    assert_eq!(tokens("# only a comment"), vec![]);
}

#[test]
fn tokens_hands_out_what_is_left() {
    let mut lexer = Lexer::new("def f(x) x < 2");
    assert_eq!(lexer.next(), Some(Ok(Token::Define)));
    let rest = lexer.tokens();
    assert_eq!(rest.len(), 7);
    assert_eq!(rest[0], Ok(Token::Identifier(String::from("f"))));
    assert_eq!(rest[5], Ok(Token::UnknownChar('<')));
    assert_eq!(number(Some(rest[6].clone())), 2.0);
    assert_eq!(Lexer::new("").tokens(), vec![]);
}

#[test]
fn unicode_blanks_letters_and_digits() {
    assert_eq!(
        tokens("\u{a0}x\u{3000}+\u{2003}y"),
        vec![
            Ok(Token::Identifier(String::from("x"))),
            Ok(Token::UnknownChar('+')),
            Ok(Token::Identifier(String::from("y"))),
        ]
    );
    assert_eq!(tokens("京都٣"), vec![Ok(Token::Identifier(String::from("京都٣")))]);
    assert_eq!(
        tokens("٣a"),
        vec![Ok(Token::UnknownChar('٣')), Ok(Token::Identifier(String::from("a")))]
    );
    assert_eq!(tokens("💝"), vec![Ok(Token::UnknownChar('💝'))]);
}

#[test]
fn long_literals_keep_every_digit() {
    let text = "123456789012345678901234567890.123456789012345678901234567890";
    match Lexer::new(text).next() {
        Some(Ok(Token::Number(literal))) => assert_eq!(literal.as_str(), text),
        other => panic!("expected a number, found {:?}", other),
    }
}
