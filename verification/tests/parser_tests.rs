use kaleidoscope::lexer::{LexError, Lexer, NumberLiteral, Token};
use kaleidoscope::parser::{
    parse, Construct, Expr, Function, Item, ParseError, Parser, Prototype,
};

/// An expression with its numbers as floating-point values.
#[derive(Debug, PartialEq)]
enum Ast {
    Number(f64),
    Variable(String),
    Binary { op: char, lhs: Box<Ast>, rhs: Box<Ast> },
    Call { name: String, args: Vec<Ast> },
}

fn ast(expr: &Expr) -> Ast {
    match expr {
        Expr::Number(literal) => Ast::Number(literal.as_str().parse().unwrap()),
        Expr::Variable(name) => Ast::Variable(name.clone()),
        Expr::Binary { op, lhs, rhs } => Ast::Binary {
            op: *op,
            lhs: Box::new(ast(lhs)),
            rhs: Box::new(ast(rhs)),
        },
        Expr::Call { name, args } => Ast::Call {
            name: name.clone(),
            args: args.iter().map(|arg| ast(arg)).collect(),
        },
    }
}

fn num(value: f64) -> Box<Ast> {
    Box::new(Ast::Number(value))
}

fn var(name: &str) -> Box<Ast> {
    Box::new(Ast::Variable(String::from(name)))
}

fn binary(op: char, lhs: Box<Ast>, rhs: Box<Ast>) -> Box<Ast> {
    Box::new(Ast::Binary { op, lhs, rhs })
}

fn tree(source: &str) -> Box<Ast> {
    let mut parser = Parser::from_source(source);
    Box::new(ast(&parser.parse_expression().unwrap()))
}

fn literal(text: &str) -> NumberLiteral {
    NumberLiteral::new(String::from(text)).unwrap()
}

#[test]
fn test_number_parsing() {
    let mut parser = Parser::from_source("1");
    let got = parser.parse_expression().unwrap();
    assert_eq!(ast(&got), Ast::Number(1.0));
    let mut parser = Parser::from_source("1234567890");
    let got = parser.parse_expression().unwrap();
    assert_eq!(ast(&got), Ast::Number(1234567890.0));
    let mut parser = Parser::from_source("3.14159");
    let got = parser.parse_expression().unwrap();
    assert_eq!(ast(&got), Ast::Number(3.14159));
    let mut parser = Parser::from_source("1.");
    let got = parser.parse_expression().unwrap();
    assert_eq!(ast(&got), Ast::Number(1.0));
    let mut parser = Parser::from_source(".1");
    let got = parser.parse_expression().unwrap();
    assert_eq!(ast(&got), Ast::Number(0.1));
}

#[test]
fn test_basic_expression_parsing() {
    let mut parser = Parser::from_source("1 + 1");
    let got = parser.parse_expression().unwrap();
    assert_eq!(
        Box::new(ast(&got)),
        Box::new(Ast::Binary {
            op: '+',
            lhs: Box::new(Ast::Number(1.0)),
            rhs: Box::new(Ast::Number(1.0)),
        })
    )
}

#[test]
fn test_complicated_expression_parsing() {
    let mut parser = Parser::from_source("1 + 2 * 3 - 2");
    let got = parser.parse_expression().unwrap();
    let expected = Box::new(Ast::Binary {
        op: '-',
        lhs: Box::new(Ast::Binary {
            op: '+',
            lhs: Box::new(Ast::Number(1.0)),
            rhs: Box::new(Ast::Binary {
                op: '*',
                lhs: Box::new(Ast::Number(2.0)),
                rhs: Box::new(Ast::Number(3.0)),
            }),
        }),
        rhs: Box::new(Ast::Number(2.0)),
    });
    assert_eq!(Box::new(ast(&got)), expected)
}

#[test]
fn test_prototype_parsing() {
    let mut parser = Parser::from_source("foo()");
    let got = parser.parse_prototype().unwrap();
    let expected = Prototype::new(String::from("foo"), vec![]);
    assert_eq!(got, expected);
    let mut parser = Parser::from_source("bar(a)");
    let got = parser.parse_prototype().unwrap();
    let expected = Prototype::new(String::from("bar"), vec![String::from("a")]);
    assert_eq!(got, expected);
    let mut parser = Parser::from_source("bar(a b c)");
    let got = parser.parse_prototype().unwrap();
    let expected = Prototype::new(
        String::from("bar"),
        vec![String::from("a"), String::from("b"), String::from("c")],
    );
    assert_eq!(got, expected);
}

#[test]
fn test_function_definition_parsing() {
    let mut parser = Parser::from_source("def foo() 1 + 1");
    let got = parser.parse_definition().unwrap();
    let expected = Function::new(
        Prototype::new(String::from("foo"), vec![]),
        Box::new(Expr::Binary {
            op: '+',
            lhs: Box::new(Expr::Number(literal("1"))),
            rhs: Box::new(Expr::Number(literal("1"))),
        }),
    );
    assert_eq!(got, expected);
    assert_eq!(ast(&got.body), *binary('+', num(1.0), num(1.0)));
}

#[test]
fn test_extern_parsing() {
    let mut parser = Parser::from_source("extern sin(a)");
    let got = parser.parse_extern().unwrap();
    let expected = Prototype::new(String::from("sin"), vec![String::from("a")]);
    assert_eq!(got, expected);
}

#[test]
fn top_level_expression_is_wrapped() {
    let mut parser = Parser::from_source("1 + 1");
    let got = parser.parse_top_level_expr().unwrap();
    assert_eq!(got.prototype, Prototype::new(String::from(""), vec![]));
    assert_eq!(ast(&got.body), *binary('+', num(1.0), num(1.0)));
}

#[test]
fn equal_precedence_associates_to_the_left() {
    assert_eq!(tree("a - b - c"), binary('-', binary('-', var("a"), var("b")), var("c")));
    assert_eq!(tree("a - b + c"), binary('+', binary('-', var("a"), var("b")), var("c")));
    assert_eq!(tree("a * b * c"), binary('*', binary('*', var("a"), var("b")), var("c")));
}

#[test]
fn tighter_operator_takes_its_operands_first() {
    assert_eq!(tree("a + b * c"), binary('+', var("a"), binary('*', var("b"), var("c"))));
    assert_eq!(tree("a * b + c"), binary('+', binary('*', var("a"), var("b")), var("c")));
    assert_eq!(
        tree("a < b + c * d"),
        binary('<', var("a"), binary('+', var("b"), binary('*', var("c"), var("d"))))
    );
    assert_eq!(
        tree("a * b + c < d"),
        binary('<', binary('+', binary('*', var("a"), var("b")), var("c")), var("d"))
    );
    assert_eq!(
        tree("a + b * c * d + e"),
        binary(
            '+',
            binary('+', var("a"), binary('*', binary('*', var("b"), var("c")), var("d"))),
            var("e")
        )
    );
}

#[test]
fn parentheses_group_and_leave_no_trace() {
    assert_eq!(tree("(1)"), num(1.0));
    assert_eq!(tree("((x))"), var("x"));
    assert_eq!(tree("(a + b) * c"), binary('*', binary('+', var("a"), var("b")), var("c")));
    assert_eq!(tree("a * (b + c)"), binary('*', var("a"), binary('+', var("b"), var("c"))));
}

#[test]
fn closing_parenthesis_is_consumed() {
    let mut parser = Parser::from_source("(1) + 2");
    let got = parser.parse_expression().unwrap();
    assert_eq!(ast(&got), *binary('+', num(1.0), num(2.0)));
    assert_eq!(parser.current(), &None);
}

#[test]
fn calls_keep_their_arguments_in_order() {
    assert_eq!(
        tree("f(a, 1 + 2, g(b))"),
        Box::new(Ast::Call {
            name: String::from("f"),
            args: vec![
                *var("a"),
                *binary('+', num(1.0), num(2.0)),
                Ast::Call { name: String::from("g"), args: vec![*var("b")] },
            ],
        })
    );
    assert_eq!(tree("f()"), Box::new(Ast::Call { name: String::from("f"), args: vec![] }));
    assert_eq!(
        tree("f(x) + 1"),
        binary(
            '+',
            Box::new(Ast::Call { name: String::from("f"), args: vec![*var("x")] }),
            num(1.0)
        )
    );
}

#[test]
fn expression_stops_in_front_of_what_cannot_continue_it() {
    let mut parser = Parser::from_source("a + b ) c");
    let got = parser.parse_expression().unwrap();
    assert_eq!(ast(&got), *binary('+', var("a"), var("b")));
    assert_eq!(parser.current(), &Some(Ok(Token::UnknownChar(')'))));
    let mut parser = Parser::from_source("a b");
    let got = parser.parse_expression().unwrap();
    assert_eq!(ast(&got), *var("a"));
    assert_eq!(parser.current(), &Some(Ok(Token::Identifier(String::from("b")))));
}

#[test]
fn characters_outside_the_table_are_no_operators() {
    let mut parser = Parser::from_source("a / b");
    let got = parser.parse_expression().unwrap();
    assert_eq!(ast(&got), *var("a"));
    assert_eq!(parser.current(), &Some(Ok(Token::UnknownChar('/'))));
    let mut parser = Parser::from_source("a > b");
    let got = parser.parse_expression().unwrap();
    assert_eq!(ast(&got), *var("a"));
}

#[test]
fn unterminated_parenthesis_is_an_error() {
    let mut parser = Parser::from_source("(1 + 2");
    assert_eq!(
        parser.parse_expression(),
        Err(ParseError::MissingDelimiter {
            delimiter: ')',
            within: Construct::Expression,
            found: None,
        })
    );
    let mut parser = Parser::from_source("(1 + 2 x");
    assert_eq!(
        parser.parse_top_level_expr(),
        Err(ParseError::MissingDelimiter {
            delimiter: ')',
            within: Construct::Expression,
            found: Some(Token::Identifier(String::from("x"))),
        })
    );
}

#[test]
fn missing_comma_between_arguments_is_an_error() {
    let mut parser = Parser::from_source("f(a b)");
    assert_eq!(
        parser.parse_expression(),
        Err(ParseError::MissingDelimiter {
            delimiter: ',',
            within: Construct::Call,
            found: Some(Token::Identifier(String::from("b"))),
        })
    );
    let mut parser = Parser::from_source("f(a");
    assert_eq!(
        parser.parse_expression(),
        Err(ParseError::MissingDelimiter { delimiter: ',', within: Construct::Call, found: None })
    );
}

#[test]
fn prototype_without_closing_parenthesis_is_an_error() {
    let mut parser = Parser::from_source("foo(a b");
    assert_eq!(
        parser.parse_prototype(),
        Err(ParseError::MissingDelimiter {
            delimiter: ')',
            within: Construct::Prototype,
            found: None,
        })
    );
    let mut parser = Parser::from_source("def foo(a, b) a");
    assert_eq!(
        parser.parse_definition(),
        Err(ParseError::MissingDelimiter {
            delimiter: ')',
            within: Construct::Prototype,
            found: Some(Token::UnknownChar(',')),
        })
    );
    assert_eq!(parser.current(), &Some(Ok(Token::UnknownChar(','))));
}

#[test]
fn prototype_without_opening_parenthesis_is_an_error() {
    let mut parser = Parser::from_source("foo a");
    assert_eq!(
        parser.parse_prototype(),
        Err(ParseError::MissingDelimiter {
            delimiter: '(',
            within: Construct::Prototype,
            found: Some(Token::Identifier(String::from("a"))),
        })
    );
}

#[test]
fn prototype_without_name_is_an_error() {
    let mut parser = Parser::from_source("(a)");
    assert_eq!(
        parser.parse_prototype(),
        Err(ParseError::UnexpectedToken {
            expected: Construct::Prototype,
            found: Some(Token::UnknownChar('(')),
        })
    );
    let mut parser = Parser::from_source("extern 1");
    assert_eq!(
        parser.parse_extern(),
        Err(ParseError::UnexpectedToken {
            expected: Construct::Prototype,
            found: Some(Token::Number(literal("1"))),
        })
    );
}

#[test]
fn duplicate_parameter_names_pass_through() {
    let mut parser = Parser::from_source("f(a a)");
    assert_eq!(
        parser.parse_prototype(),
        Ok(Prototype::new(String::from("f"), vec![String::from("a"), String::from("a")]))
    );
}

#[test]
fn expression_cannot_start_with_an_operator() {
    let mut parser = Parser::from_source("+ 1");
    assert_eq!(
        parser.parse_expression(),
        Err(ParseError::UnexpectedToken {
            expected: Construct::Expression,
            found: Some(Token::UnknownChar('+')),
        })
    );
    let mut parser = Parser::from_source("1 +");
    assert_eq!(
        parser.parse_expression(),
        Err(ParseError::UnexpectedToken { expected: Construct::Expression, found: None })
    );
    let mut parser = Parser::from_source("");
    assert_eq!(
        parser.parse_top_level_expr(),
        Err(ParseError::UnexpectedToken { expected: Construct::Expression, found: None })
    );
}

#[test]
fn definition_without_body_is_an_error() {
    let mut parser = Parser::from_source("def foo()");
    assert_eq!(
        parser.parse_definition(),
        Err(ParseError::UnexpectedToken { expected: Construct::Expression, found: None })
    );
    let mut parser = Parser::from_source("def foo() )");
    assert_eq!(
        parser.parse_definition(),
        Err(ParseError::UnexpectedToken {
            expected: Construct::Expression,
            found: Some(Token::UnknownChar(')')),
        })
    );
}

#[test]
fn entry_points_pass_over_the_lookahead_unseen() {
    let mut parser = Parser::from_source("sin cos(a)");
    assert_eq!(
        parser.parse_extern(),
        Ok(Prototype::new(String::from("cos"), vec![String::from("a")]))
    );
    let mut parser = Parser::from_source("foo() 1");
    assert_eq!(
        parser.parse_definition(),
        Err(ParseError::UnexpectedToken {
            expected: Construct::Prototype,
            found: Some(Token::UnknownChar('(')),
        })
    );
    let mut parser = Parser::from_source("");
    assert_eq!(
        parser.parse_extern(),
        Err(ParseError::UnexpectedToken { expected: Construct::Prototype, found: None })
    );
}

#[test]
fn malformed_number_is_a_lexical_error() {
    let mut parser = Parser::from_source("1.2.3");
    assert_eq!(
        parser.parse_expression(),
        Err(ParseError::Lexical(LexError { text: String::from("1.2.3") }))
    );
    let mut parser = Parser::from_source("1 + 4..");
    assert_eq!(
        parser.parse_top_level_expr(),
        Err(ParseError::Lexical(LexError { text: String::from("4..") }))
    );
    let mut parser = Parser::from_source("f(1 .)");
    assert_eq!(
        parser.parse_expression(),
        Err(ParseError::Lexical(LexError { text: String::from(".") }))
    );
}

#[test]
fn parsing_the_same_text_twice_gives_equal_trees() {
    let source = "def f(x y) x * (y + 2) < g(x, y) - 1";
    let first = Parser::from_source(source).parse_definition();
    let second = Parser::from_source(source).parse_definition();
    assert!(first.is_ok());
    assert_eq!(first, second);
    let source = "f(1 2";
    let first = Parser::from_source(source).parse_top_level_expr();
    let second = Parser::from_source(source).parse_top_level_expr();
    assert!(first.is_err());
    assert_eq!(first, second);
}

#[test]
fn parser_can_start_from_a_lexer_under_way() {
    let mut lexer = Lexer::new("def foo(a) a");
    assert_eq!(lexer.next(), Some(Ok(Token::Define)));
    let mut parser = Parser::from_lexer(lexer);
    assert_eq!(parser.current(), &Some(Ok(Token::Identifier(String::from("foo")))));
    assert_eq!(
        parser.parse_prototype(),
        Ok(Prototype::new(String::from("foo"), vec![String::from("a")]))
    );
    parser.get_next_token();
    assert_eq!(parser.current(), &None);
    parser.get_next_token();
    assert_eq!(parser.current(), &None);
}

#[test]
fn number_literal_accepts_only_well_formed_text() {
    assert!(NumberLiteral::new(String::from("0")).is_ok());
    assert!(NumberLiteral::new(String::from("10.5")).is_ok());
    assert_eq!(
        NumberLiteral::new(String::from("")),
        Err(LexError { text: String::from("") })
    );
    assert_eq!(
        NumberLiteral::new(String::from("1a")),
        Err(LexError { text: String::from("1a") })
    );
    assert_eq!(
        NumberLiteral::new(String::from("1.0.")),
        Err(LexError { text: String::from("1.0.") })
    );
}

#[test]
fn first_token_decides_the_item() {
    match parse("def id(x) x") {
        Ok(Item::Definition(function)) => {
            assert_eq!(function.prototype, Prototype::new(String::from("id"), vec![String::from("x")]));
            assert_eq!(ast(&function.body), *var("x"));
        }
        other => panic!("expected a definition, found {:?}", other),
    }
    assert_eq!(
        parse("extern cos(x)"),
        Ok(Item::Declaration(Prototype::new(String::from("cos"), vec![String::from("x")])))
    );
    match parse("cos(1) * 2") {
        Ok(Item::Expression(function)) => {
            assert_eq!(function.prototype, Prototype::new(String::new(), vec![]));
            assert_eq!(
                ast(&function.body),
                *binary(
                    '*',
                    Box::new(Ast::Call { name: String::from("cos"), args: vec![*num(1.0)] }),
                    num(2.0)
                )
            );
        }
        other => panic!("expected an expression, found {:?}", other),
    }
    assert_eq!(
        parse("def 1"),
        Err(ParseError::UnexpectedToken {
            expected: Construct::Prototype,
            found: Some(Token::Number(literal("1"))),
        })
    );
    assert_eq!(
        parse(")"),
        Err(ParseError::UnexpectedToken {
            expected: Construct::Expression,
            found: Some(Token::UnknownChar(')')),
        })
    );
}

#[test]
fn parse_item_continues_where_the_parser_stands() {
    let mut parser = Parser::from_source("extern sin(a) sin(1)");
    assert_eq!(
        parser.parse_item(),
        Ok(Item::Declaration(Prototype::new(String::from("sin"), vec![String::from("a")])))
    );
    match parser.parse_item() {
        Ok(Item::Expression(function)) => assert_eq!(
            ast(&function.body),
            Ast::Call { name: String::from("sin"), args: vec![*num(1.0)] }
        ),
        other => panic!("expected an expression, found {:?}", other),
    }
    assert_eq!(parser.current(), &None);
}

#[test]
fn messages_name_what_was_expected_and_what_was_found() {
    let message = |source: &str| Parser::from_source(source).parse_item().unwrap_err().message();
    assert_eq!(message("(1"), "expected ) in expression, found end of input");
    assert_eq!(message("f(1 2)"), "expected , in argument list, found number 2");
    assert_eq!(message("def f(a, b) a"), "expected ) in prototype, found character ,");
    assert_eq!(message("def f a"), "expected ( in prototype, found identifier a");
    assert_eq!(message("extern def"), "expected prototype, found keyword def");
    assert_eq!(message("def extern"), "expected prototype, found keyword extern");
    assert_eq!(message("*"), "expected expression, found character *");
    assert_eq!(message("1 + 2.3.4"), "malformed number 2.3.4");
    let mut parser = Parser::from_source("def");
    assert_eq!(
        parser.parse_definition().unwrap_err().message(),
        "expected prototype, found end of input"
    );
}

#[test]
fn trees_can_be_copied() {
    let mut parser = Parser::from_source("def f(x) g(x, 1) * (x + 2)");
    let function = parser.parse_definition().unwrap();
    let copy = function.clone();
    assert_eq!(copy, function);
    assert_eq!(ast(&copy.body), ast(&function.body));
    let error = Parser::from_source("f(").parse_expression().unwrap_err();
    assert_eq!(error.clone(), error);
}

#[test]
fn token_precedence_table() {
    use_precedence('*', Some(40));
    use_precedence('+', Some(20));
    use_precedence('-', Some(20));
    use_precedence('<', Some(10));
    use_precedence('>', None);
    use_precedence('/', None);
    use_precedence('(', None);
    use_precedence('a', None);
}

fn use_precedence(c: char, expected: Option<u32>) {
    assert_eq!(kaleidoscope::parser::token_precedence(c), expected);
}
