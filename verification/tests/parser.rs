use alcl::codegen::code_generate;
use alcl::expr::{Expr, Info};
use alcl::function::Function;
use alcl::parse::{Parser, Scanner, Token};
use alcl::type_::Type;
use alcl::type_check::type_check;

fn num(n: i64) -> Expr {
    Expr::Number(n, Info::new())
}

fn var(name: &str) -> Expr {
    Expr::Identifier(name.to_string(), Info::new())
}

fn boxed(e: Expr) -> Box<Expr> {
    Box::new(e)
}

fn tokens(input: &str) -> Vec<Token> {
    let mut scanner = Scanner::new(input);
    let mut out = Vec::new();
    loop {
        let token = scanner.next().unwrap();
        if token == Token::Eof {
            return out;
        }
        out.push(token);
    }
}

fn expression(input: &str) -> Expr {
    Parser::new(input).expression().unwrap()
}

fn id(name: &str) -> Token {
    Token::Identifier(name.to_string())
}

#[test]
fn scanner_reads_punctuation_and_pairs() {
    assert_eq!(
        tokens("+ - * / % = : ; @ . ( ) { } [ ] -> .. == != x"),
        vec![
            Token::Plus,
            Token::Minus,
            Token::Ast,
            Token::Slash,
            Token::Percent,
            Token::Equal,
            Token::Colon,
            Token::Semicolon,
            Token::At,
            Token::Dot,
            Token::LeftParen,
            Token::RightParen,
            Token::LeftBrace,
            Token::RightBrace,
            Token::LeftBracket,
            Token::RightBracket,
            Token::Arrow,
            Token::Ellipsis,
            Token::EqualEqual,
            Token::NotEqual,
            id("x"),
        ]
    );
}

#[test]
fn scanner_reads_keywords_words_numbers_and_strings() {
    assert_eq!(
        tokens("func type let if else for in iff _x1 été 007 \"a b\" \"\""),
        vec![
            Token::Func,
            Token::Type,
            Token::Let,
            Token::If,
            Token::Else,
            Token::For,
            Token::In,
            id("iff"),
            id("_x1"),
            id("été"),
            Token::Number(7),
            Token::String("a b".to_string()),
            Token::String(String::new()),
        ]
    );
}

#[test]
fn scanner_needs_no_space_between_tokens() {
    assert_eq!(
        tokens("a==b!=c->d..e"),
        vec![
            id("a"),
            Token::EqualEqual,
            id("b"),
            Token::NotEqual,
            id("c"),
            Token::Arrow,
            id("d"),
            Token::Ellipsis,
            id("e"),
        ]
    );
    assert_eq!(tokens("1+2"), vec![Token::Number(1), Token::Plus, Token::Number(2)]);
}

#[test]
fn scanner_skips_white_space_and_ends_with_eof() {
    let mut scanner = Scanner::new(" \t\n x \u{3000}\r\n ");
    assert_eq!(scanner.peek(), Ok(id("x")));
    assert_eq!(scanner.peek(), Ok(id("x")));
    assert_eq!(scanner.next(), Ok(id("x")));
    assert_eq!(scanner.peek(), Ok(Token::Eof));
    assert_eq!(scanner.next(), Ok(Token::Eof));
    assert_eq!(scanner.next(), Ok(Token::Eof));
    assert_eq!(Scanner::new("").next(), Ok(Token::Eof));
}

#[test]
fn a_pair_at_the_very_end_is_read_as_single_characters() {
    let mut scanner = Scanner::new("a ==  ");
    assert_eq!(scanner.next(), Ok(id("a")));
    assert_eq!(scanner.next(), Ok(Token::Equal));
    assert_eq!(scanner.next(), Ok(Token::Equal));
    assert_eq!(scanner.next(), Ok(Token::Eof));
    let mut scanner = Scanner::new("->");
    assert_eq!(scanner.next(), Ok(Token::Minus));
    assert_eq!(scanner.next(), Err("unknown token: >".to_string()));
    assert_eq!(scanner.next(), Err("unknown token: >".to_string()));
}

#[test]
fn scanner_reports_what_it_cannot_read() {
    assert_eq!(Scanner::new("  #rest ").next(), Err("unknown token: #rest".to_string()));
    assert_eq!(Scanner::new("\"open").next(), Err("unterminated string: \"open".to_string()));
    assert_eq!(
        Scanner::new("9223372036854775808 x").next(),
        Err("number too large: 9223372036854775808".to_string())
    );
    assert_eq!(Scanner::new("9223372036854775807").next(), Ok(Token::Number(i64::MAX)));
    assert_eq!(
        Scanner::new("99999999999999999999999999999999999999999").peek(),
        Err("number too large: 99999999999999999999999999999999999999999".to_string())
    );
}

#[test]
fn expect_accepts_only_the_given_token() {
    let mut scanner = Scanner::new("( )");
    assert_eq!(scanner.expect(Token::LeftParen), Ok(()));
    assert_eq!(
        scanner.expect(Token::RightBrace),
        Err("parsing error: } was expected, but ) is coming".to_string())
    );
    let mut scanner = Scanner::new("x");
    assert_eq!(scanner.expect(id("x")), Ok(()));
    assert_eq!(
        scanner.expect(Token::Number(-3)),
        Err("parsing error: -3 was expected, but end of input is coming".to_string())
    );
    assert_eq!(
        Scanner::new("\"s\"").expect(Token::Func),
        Err("parsing error: func was expected, but \"s\" is coming".to_string())
    );
}

#[test]
fn multiplication_binds_tighter_than_addition() {
    assert_eq!(
        expression("1 + 2 * 3"),
        Expr::Add(
            boxed(num(1)),
            boxed(Expr::Mult(boxed(num(2)), boxed(num(3)), Info::new())),
            Info::new()
        )
    );
    assert_eq!(
        expression("(1 + 2) * 3"),
        Expr::Mult(
            boxed(Expr::Add(boxed(num(1)), boxed(num(2)), Info::new())),
            boxed(num(3)),
            Info::new()
        )
    );
}

#[test]
fn operators_group_to_the_left() {
    assert_eq!(
        expression("1 - 2 - 3"),
        Expr::Sub(
            boxed(Expr::Sub(boxed(num(1)), boxed(num(2)), Info::new())),
            boxed(num(3)),
            Info::new()
        )
    );
    assert_eq!(
        expression("8 / 4 % 3"),
        Expr::Surplus(
            boxed(Expr::Div(boxed(num(8)), boxed(num(4)), Info::new())),
            boxed(num(3)),
            Info::new()
        )
    );
    assert_eq!(
        expression("a == b != c + 1"),
        Expr::NotEqual(
            boxed(Expr::Equal(boxed(var("a")), boxed(var("b")), Info::new())),
            boxed(Expr::Add(boxed(var("c")), boxed(num(1)), Info::new())),
            Info::new()
        )
    );
}

#[test]
fn calls_collect_their_arguments() {
    assert_eq!(
        expression("f @ 1 @ x.y"),
        Expr::Apply(
            boxed(var("f")),
            vec![num(1), Expr::Dot(boxed(var("x")), "y".to_string(), Info::new())],
            Info::new()
        )
    );
    assert_eq!(expression("f"), var("f"));
}

#[test]
fn field_accesses_chain_to_the_left() {
    assert_eq!(
        expression("a.b.c"),
        Expr::Dot(
            boxed(Expr::Dot(boxed(var("a")), "b".to_string(), Info::new())),
            "c".to_string(),
            Info::new()
        )
    );
    assert_eq!(
        Parser::new("a.1").expression(),
        Err("non Identifier token".to_string())
    );
}

#[test]
fn let_and_sequence_nest_to_the_right() {
    assert_eq!(
        expression("let x = 1; x; 2; \"s\""),
        Expr::Let(
            "x".to_string(),
            boxed(num(1)),
            boxed(Expr::Sequence(
                boxed(var("x")),
                boxed(Expr::Sequence(
                    boxed(num(2)),
                    boxed(Expr::String("s".to_string(), Info::new())),
                    Info::new()
                )),
                Info::new()
            )),
            Info::new()
        )
    );
}

#[test]
fn if_takes_any_number_of_else_if_arms() {
    assert_eq!(
        expression("if a { 1 } else { 2 }"),
        Expr::If(boxed(var("a")), boxed(num(1)), vec![], boxed(num(2)), Info::new())
    );
    assert_eq!(
        expression("if a { 1 } else if b { 2 } else if c { 3 } else { 4 }"),
        Expr::If(
            boxed(var("a")),
            boxed(num(1)),
            vec![(var("b"), num(2)), (var("c"), num(3))],
            boxed(num(4)),
            Info::new()
        )
    );
    assert_eq!(
        Parser::new("if a { 1 }").expression(),
        Err("parsing error: else was expected, but end of input is coming".to_string())
    );
}

#[test]
fn for_reads_its_bounds_and_body() {
    assert_eq!(
        expression("for i in 0 .. n + 1 { i; 0 }"),
        Expr::For(
            "i".to_string(),
            boxed(num(0)),
            boxed(Expr::Add(boxed(var("n")), boxed(num(1)), Info::new())),
            boxed(Expr::Sequence(boxed(var("i")), boxed(num(0)), Info::new())),
            Info::new()
        )
    );
}

#[test]
fn nothing_can_start_with_a_closing_token() {
    assert_eq!(Parser::new(")").expression(), Err("parsing error: unexpected )".to_string()));
    assert_eq!(
        Parser::new("1 +").expression(),
        Err("parsing error: unexpected end of input".to_string())
    );
    assert_eq!(Parser::new("(1").expression(), Err(
        "parsing error: ) was expected, but end of input is coming".to_string()
    ));
}

#[test]
fn types_are_names_containers_and_functions() {
    assert_eq!(Parser::new("Int").type_(), Ok(Type::integer()));
    assert_eq!(Parser::new("Int x").primitive_type(), Ok(Type::integer()));
    assert_eq!(
        Parser::new("List[Int]").type_(),
        Ok(Type::Generic("List".to_string(), Box::new(Type::integer())))
    );
    assert_eq!(
        Parser::new("Int -> Bool -> String x").type_(),
        Ok(Type::Function(Box::new(Type::string()), vec![Type::integer(), Type::boolean()]))
    );
    assert_eq!(
        Parser::new("List[Int -> Int] -> Unit x").type_(),
        Ok(Type::Function(
            Box::new(Type::unit()),
            vec![Type::Generic(
                "List".to_string(),
                Box::new(Type::Function(Box::new(Type::integer()), vec![Type::integer()]))
            )]
        ))
    );
    assert_eq!(
        Parser::new("List[Int").type_(),
        Err("parsing error: ] was expected, but end of input is coming".to_string())
    );
    assert_eq!(Parser::new("3").type_(), Err("non Identifier token".to_string()));
}

#[test]
fn function_has_name_parameters_return_type_and_body() {
    assert_eq!(
        Parser::new("func add a: Int b: Int : Int { a + b }").function(),
        Ok(Function {
            name: "add".to_string(),
            args: vec![("a".to_string(), Type::integer()), ("b".to_string(), Type::integer())],
            return_type: Type::integer(),
            body: Expr::Add(boxed(var("a")), boxed(var("b")), Info::new()),
        })
    );
    assert_eq!(
        Parser::new("func main : Unit { 0 }").function(),
        Ok(Function {
            name: "main".to_string(),
            args: vec![],
            return_type: Type::unit(),
            body: num(0),
        })
    );
}

#[test]
fn program_is_functions_up_to_the_end() {
    let program = Parser::new("func a : Int { 1 }\nfunc b : Int { a @ 2 }\n").program().unwrap();
    assert_eq!(program.functions.len(), 2);
    assert_eq!(program.functions[0].name, "a");
    assert_eq!(program.functions[1].name, "b");
    assert!(program.structs.is_empty());
    assert_eq!(Parser::new("   ").program().unwrap().functions.len(), 0);
    assert_eq!(
        Parser::new("func a : Int { 1 } let").program().err(),
        Some("parsing error: unexpected let".to_string())
    );
    assert_eq!(
        Parser::new("func a : Int { # }").program().err(),
        Some("unknown token: # }".to_string())
    );
}

#[test]
fn parsed_trees_carry_no_annotation() {
    let program = Parser::new("func f n: Int : Int { let m = n; if m == 0 { 1 } else { m } }")
        .program()
        .unwrap();
    let body = &program.functions[0].body;
    assert_eq!(body.type_(), None);
    match body {
        Expr::Let(_, init, rest, _) => {
            assert_eq!(init.type_(), None);
            assert_eq!(rest.type_(), None);
        }
        _ => unreachable!(),
    }
}

#[test]
fn source_text_compiles_from_end_to_end() {
    let mut program = Parser::new("func f n: Int : Int { n + 1 }").program().unwrap();
    assert_eq!(type_check(&mut program), Ok(()));
    assert_eq!(
        code_generate(&program),
        "define i32 @f(i32 %n) {\nentry:\n  %1 = alloca i32, align 4\n  store i32 %n, ptr %1, align 4\n  %2 = load i32, ptr %1, align 4\n  %3 = add i32 %2, 1\n  ret i32 %3\n}\n"
    );
}
