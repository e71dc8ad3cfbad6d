// The lexer and the parser.
use luma::frontend::ast::BinaryOperator;
use luma::frontend::ast::Expression;
use luma::frontend::ast::Statement;
use luma::frontend::ast::UnaryOperator;
use luma::frontend::lexer::Lexer;
use luma::frontend::lexer::Scanned;
use luma::frontend::parser::Parser;
use luma::frontend::token::Token;
use luma::shared::host::HostReply;
use luma::shared::host::HostRequest;

fn reply_to(request: &HostRequest) -> HostReply {
    match request {
        HostRequest::ReadNumber(text) => match text.parse::<f64>() {
            Ok(number) => HostReply::Number(number.to_bits()),
            Err(_) => HostReply::NotANumber,
        },
        HostRequest::WriteNumber(bits) => HostReply::Text(format!("{}", f64::from_bits(*bits))),
        HostRequest::Arithmetic { .. } => panic!("a lexer does no arithmetic"),
    }
}

fn tokens_of(source: &str) -> Result<Vec<Token>, String> {
    let mut lexer = Lexer::new(source);
    let mut reply = None;
    loop {
        match lexer.tokenize(reply.take()).map_err(|e| e.to_string())? {
            Scanned::Done(tokens) => return Ok(tokens),
            Scanned::Ask(request) => reply = Some(reply_to(&request)),
        }
    }
}

fn tokens(source: &str) -> Vec<Token> {
    let mut found = tokens_of(source).unwrap();
    assert_eq!(found.pop(), Some(Token::Eof));
    found
}

fn lex_error(source: &str) -> String {
    tokens_of(source).unwrap_err()
}

fn number(value: f64) -> Token {
    Token::Number(value.to_bits(), format!("{}", value))
}

fn identifier(name: &str) -> Token {
    Token::Identifier(name.to_string())
}

fn statements(source: &str) -> Vec<Statement> {
    Parser::new(tokens_of(source).unwrap()).parse().unwrap()
}

fn parse_error(source: &str) -> String {
    Parser::new(tokens_of(source).unwrap()).parse().unwrap_err().to_string()
}

fn expression(source: &str) -> Expression {
    let mut parsed = statements(&format!("show {}", source));
    assert_eq!(parsed.len(), 1);
    match parsed.pop() {
        Some(Statement::Show(expression)) => expression,
        other => panic!("{:?}", other),
    }
}

fn literal(value: f64) -> Expression {
    Expression::Literal(value.to_bits())
}

fn name(text: &str) -> Expression {
    Expression::Identifier(text.to_string())
}

fn binary(left: Expression, operator: BinaryOperator, right: Expression) -> Expression {
    Expression::binary_op(left, operator, right)
}

#[test]
fn empty_text_is_eof() {
    assert_eq!(tokens_of(""), Ok(vec![Token::Eof]));
    assert_eq!(tokens_of("   \t  "), Ok(vec![Token::Eof]));
    assert_eq!(tokens_of("# nothing"), Ok(vec![Token::Eof]));
}

#[test]
fn keywords_and_identifiers() {
    assert_eq!(
        tokens("let be is show true false and or not if then else while repeat times"),
        vec![
            Token::Let,
            Token::Be,
            Token::Is,
            Token::Show,
            Token::True,
            Token::False,
            Token::And,
            Token::Or,
            Token::Not,
            Token::If,
            Token::Then,
            Token::Else,
            Token::While,
            Token::Repeat,
            Token::Times
        ]
    );
    assert_eq!(
        tokens("lets _x x1 été Let truth"),
        vec![
            identifier("lets"),
            identifier("_x"),
            identifier("x1"),
            identifier("été"),
            identifier("Let"),
            identifier("truth")
        ]
    );
}

#[test]
fn two_word_keywords() {
    assert_eq!(tokens("a is not b"), vec![identifier("a"), Token::IsNot, identifier("b")]);
    assert_eq!(tokens("a is   not"), vec![identifier("a"), Token::IsNot]);
    assert_eq!(tokens("a is note"), vec![identifier("a"), Token::Is, identifier("note")]);
    assert_eq!(tokens("a is\nnot b"), vec![identifier("a"), Token::Is, Token::Newline, Token::Not, identifier("b")]);
    assert_eq!(tokens("a is 5"), vec![identifier("a"), Token::Is, number(5.0)]);
    assert_eq!(tokens("is"), vec![Token::Is]);
    // the word after `is` ends at an underscore
    assert_eq!(tokens("is not_x"), vec![Token::IsNot, identifier("_x")]);
    assert_eq!(tokens("else if x"), vec![Token::ElseIf, identifier("x")]);
    assert_eq!(tokens("else   if"), vec![Token::ElseIf]);
    assert_eq!(tokens("else iffy"), vec![Token::Else, identifier("iffy")]);
    assert_eq!(tokens("else\nif"), vec![Token::Else, Token::Newline, Token::If]);
    assert_eq!(tokens("else"), vec![Token::Else]);
    assert_eq!(tokens("else 1"), vec![Token::Else, number(1.0)]);
}

#[test]
fn operators_and_punctuation() {
    assert_eq!(
        tokens("+ - * / % ( ) , = == != > < >= <="),
        vec![
            Token::Plus,
            Token::Minus,
            Token::Multiply,
            Token::Divide,
            Token::Modulo,
            Token::LeftParen,
            Token::RightParen,
            Token::Comma,
            Token::Assign,
            Token::Equal,
            Token::NotEqual,
            Token::GreaterThan,
            Token::LessThan,
            Token::GreaterEqual,
            Token::LessEqual
        ]
    );
    assert_eq!(tokens("a>=b"), vec![identifier("a"), Token::GreaterEqual, identifier("b")]);
    assert_eq!(tokens("==="), vec![Token::Equal, Token::Assign]);
    assert_eq!(tokens("<"), vec![Token::LessThan]);
}

#[test]
fn numbers_are_read_by_the_host() {
    assert_eq!(tokens("123"), vec![number(123.0)]);
    assert_eq!(tokens("1.5"), vec![number(1.5)]);
    assert_eq!(tokens(".5"), vec![number(0.5)]);
    assert_eq!(tokens("5."), vec![number(5.0)]);
    assert_eq!(tokens("007"), vec![Token::Number(7.0f64.to_bits(), "7".to_string())]);
    assert_eq!(tokens("1.50"), vec![Token::Number(1.5f64.to_bits(), "1.5".to_string())]);
    assert_eq!(tokens("0.1 0.25"), vec![number(0.1), number(0.25)]);
    assert_eq!(tokens("12345678901234567890"), vec![number(12345678901234567890.0)]);
    assert_eq!(tokens("9007199254740993"), vec![Token::Number(9007199254740992.0f64.to_bits(), "9007199254740992".to_string())]);
    assert_eq!(tokens("9223372036854774784"), vec![Token::Number(9223372036854774784.0f64.to_bits(), "9223372036854775000".to_string())]);
    assert_eq!(tokens("1e5"), vec![number(1.0), identifier("e5")]);
    assert_eq!(tokens("1-2"), vec![number(1.0), Token::Minus, number(2.0)]);
    assert_eq!(tokens("x.5"), vec![identifier("x"), number(0.5)]);
    assert_eq!(tokens("x . y"), vec![identifier("x"), identifier("y")]);
    assert_eq!(lex_error("1.2.3"), "Lexical error at line 1: Invalid number '1.2.3'");
    assert_eq!(lex_error("\n\n 1..2"), "Lexical error at line 3: Invalid number '1..2'");
}

#[test]
fn the_lexer_asks_and_waits() {
    let mut lexer = Lexer::new("x 2.5 y");
    match lexer.tokenize(None) {
        Ok(Scanned::Ask(HostRequest::ReadNumber(text))) => assert_eq!(text, "2.5"),
        other => panic!("{:?}", other),
    }
    // no reply, or one of another kind: the request stands
    assert!(matches!(lexer.tokenize(None), Ok(Scanned::Ask(HostRequest::ReadNumber(_)))));
    assert!(matches!(
        lexer.tokenize(Some(HostReply::Text("2.5".to_string()))),
        Ok(Scanned::Ask(HostRequest::ReadNumber(_)))
    ));
    match lexer.tokenize(Some(HostReply::Number(2.5f64.to_bits()))) {
        Ok(Scanned::Ask(HostRequest::WriteNumber(bits))) => assert_eq!(bits, 2.5f64.to_bits()),
        other => panic!("{:?}", other),
    }
    assert!(matches!(lexer.tokenize(None), Ok(Scanned::Ask(HostRequest::WriteNumber(_)))));
    match lexer.tokenize(Some(HostReply::Text("2.5".to_string()))) {
        Ok(Scanned::Done(found)) => assert_eq!(found, vec![identifier("x"), number(2.5), identifier("y"), Token::Eof]),
        other => panic!("{:?}", other),
    }
    assert!(matches!(lexer.tokenize(None), Ok(Scanned::Done(found)) if found == vec![Token::Eof]));
    // a plain integer needs no writing
    let mut lexer = Lexer::new("42");
    assert!(matches!(lexer.tokenize(None), Ok(Scanned::Ask(HostRequest::ReadNumber(_)))));
    assert!(matches!(lexer.tokenize(Some(HostReply::Number(42.0f64.to_bits()))), Ok(Scanned::Done(_))));
}

#[test]
fn strings_keep_their_text() {
    assert_eq!(tokens("\"hello world\""), vec![Token::String("hello world".to_string())]);
    assert_eq!(tokens("'it is'"), vec![Token::String("it is".to_string())]);
    assert_eq!(tokens("\"it's\""), vec![Token::String("it's".to_string())]);
    assert_eq!(tokens("''"), vec![Token::String(String::new())]);
    assert_eq!(tokens("\"a\"\"b\""), vec![Token::String("a".to_string()), Token::String("b".to_string())]);
    assert_eq!(tokens("\"# no comment\" x"), vec![Token::String("# no comment".to_string()), identifier("x")]);
    assert_eq!(lex_error("\"open"), "Lexical error at line 1: Unterminated string");
    assert_eq!(lex_error("x\n'two\nlines"), "Lexical error at line 3: Unterminated string");
    // a string over two lines counts its line
    assert_eq!(lex_error("'a\nb' :"), "Lexical error at line 2: Unexpected character ':'. Use 'then' instead for control structures.");
}

#[test]
fn comments_and_blanks_are_passed_over() {
    assert_eq!(tokens("show 1 # and more"), vec![Token::Show, number(1.0)]);
    assert_eq!(tokens("a # b\nc"), vec![identifier("a"), Token::Newline, identifier("c")]);
    assert_eq!(tokens("a ## b\nc ## d"), vec![identifier("a"), identifier("d")]);
    assert_eq!(tokens("a ## b # c ## d"), vec![identifier("a"), identifier("d")]);
    assert_eq!(tokens("a##b###c"), vec![identifier("a")]);
    assert_eq!(tokens("a##b#b##c"), vec![identifier("a"), identifier("c")]);
    assert_eq!(tokens("a @ $ ~ b ; {c}"), vec![identifier("a"), identifier("b"), identifier("c")]);
    assert_eq!(tokens("a\u{a0}\u{3000}b\r\n"), vec![identifier("a"), identifier("b"), Token::Newline]);
    assert_eq!(tokens("\n\n"), vec![Token::Newline, Token::Newline]);
    assert_eq!(lex_error("a ## b\nc # d"), "Lexical error at line 1: Unterminated multi-line comment");
    assert_eq!(lex_error("\n##"), "Lexical error at line 2: Unterminated multi-line comment");
    // the lines of a comment count
    assert_eq!(lex_error("## a\nb\n## !"), "Lexical error at line 3: Unexpected character '!'. Did you mean '!='?");
    assert_eq!(lex_error("x:"), "Lexical error at line 1: Unexpected character ':'. Use 'then' instead for control structures.");
    assert_eq!(lex_error("a\nb ! c"), "Lexical error at line 2: Unexpected character '!'. Did you mean '!='?");
}

#[test]
fn tokens_are_shown_as_written() {
    let shown: Vec<String> = tokens("let x be 1.50 + \"s\" is not else if\n").iter().map(|token| token.to_string()).collect();
    assert_eq!(shown, vec!["let", "x", "be", "1.5", "+", "\"s\"", "is not", "else if", "\\n"]);
    assert_eq!(Token::Eof.to_string(), "EOF");
    assert_eq!(Token::Comma.to_string(), ",");
    assert_eq!(Token::Multiply.to_string(), "*");
    assert_eq!(Token::Let.kind(), Token::Let.kind());
    assert_eq!(identifier("a").kind(), identifier("b").kind());
    assert_ne!(identifier("a").kind(), Token::String("a".to_string()).kind());
    assert_eq!(identifier("a").clone(), identifier("a"));
    assert_eq!(BinaryOperator::NotEqual.to_string(), "!=");
    assert_eq!(BinaryOperator::And.to_string(), "and");
    assert_eq!(UnaryOperator::Not.to_string(), "not ");
    assert_eq!(UnaryOperator::Minus.to_string(), "-");
}

#[test]
fn operators_bind_by_their_level() {
    // multiplication binds tighter than addition, on either side
    assert_eq!(expression("1 + 2 * 3"), binary(literal(1.0), BinaryOperator::Add, binary(literal(2.0), BinaryOperator::Multiply, literal(3.0))));
    assert_eq!(expression("1 * 2 + 3"), binary(binary(literal(1.0), BinaryOperator::Multiply, literal(2.0)), BinaryOperator::Add, literal(3.0)));
    // each level against the next looser one: the unparenthesized text is the parenthesized one
    let pairs = [
        ("a + b * c", "a + (b * c)"),
        ("a * b - c", "(a * b) - c"),
        ("a - b / c", "a - (b / c)"),
        ("a % b + c", "(a % b) + c"),
        ("a < b + c", "a < (b + c)"),
        ("a - b >= c", "(a - b) >= c"),
        ("a == b < c", "a == (b < c)"),
        ("a > b != c", "(a > b) != c"),
        ("a is b <= c", "a is (b <= c)"),
        ("a and b == c", "a and (b == c)"),
        ("a is not b and c", "(a is not b) and c"),
        ("a or b and c", "a or (b and c)"),
        ("a and b or c", "(a and b) or c"),
        ("a or b and c == d < e + f * g", "a or (b and (c == (d < (e + (f * g)))))"),
        ("a * b + c < d == e and f or g", "((((((a * b) + c) < d) == e) and f) or g)"),
        ("not a and b", "(not a) and b"),
        ("- a * b", "(- a) * b"),
        ("a - - b", "a - (- b)"),
        ("not not a", "not (not a)"),
        ("a - b - c", "(a - b) - c"),
        ("a / b * c", "(a / b) * c"),
        ("a == b != c", "(a == b) != c"),
        ("a or b or c", "(a or b) or c"),
    ];
    for (plain, parenthesized) in pairs {
        assert_eq!(expression(plain), expression(parenthesized), "{}", plain);
    }
    assert_ne!(expression("a + b * c"), expression("(a + b) * c"));
    assert_ne!(expression("a - b - c"), expression("a - (b - c)"));
    assert_eq!(expression("a is b"), binary(name("a"), BinaryOperator::Equal, name("b")));
    assert_eq!(expression("a is not b"), binary(name("a"), BinaryOperator::NotEqual, name("b")));
    assert_eq!(expression("a > b"), binary(name("a"), BinaryOperator::GreaterThan, name("b")));
    assert_eq!(expression("a <= b"), binary(name("a"), BinaryOperator::LessEqual, name("b")));
    assert_eq!(expression("a % b"), binary(name("a"), BinaryOperator::Modulo, name("b")));
    assert_eq!(expression("a or b"), binary(name("a"), BinaryOperator::Or, name("b")));
}

#[test]
fn primary_expressions() {
    assert_eq!(expression("42"), literal(42.0));
    assert_eq!(expression("\"s\""), Expression::StringLiteral("s".to_string()));
    assert_eq!(expression("true"), Expression::BooleanLiteral(true));
    assert_eq!(expression("false"), Expression::BooleanLiteral(false));
    assert_eq!(expression("x"), name("x"));
    assert_eq!(expression("((x))"), name("x"));
    assert_eq!(
        expression("-x"),
        Expression::UnaryOp { operator: UnaryOperator::Minus, operand: Box::new(name("x")) }
    );
    assert_eq!(
        expression("not true"),
        Expression::UnaryOp { operator: UnaryOperator::Not, operand: Box::new(Expression::BooleanLiteral(true)) }
    );
    assert_eq!(expression("f()"), Expression::FunctionCall { name: "f".to_string(), arguments: vec![] });
    assert_eq!(
        expression("f(1, x + 2, g(y))"),
        Expression::FunctionCall {
            name: "f".to_string(),
            arguments: vec![
                literal(1.0),
                binary(name("x"), BinaryOperator::Add, literal(2.0)),
                Expression::FunctionCall { name: "g".to_string(), arguments: vec![name("y")] }
            ]
        }
    );
}

#[test]
fn statements_are_parsed() {
    let assignment = |target: &str, value: Expression| Statement::Assignment { name: target.to_string(), value };
    assert_eq!(statements(""), vec![]);
    assert_eq!(statements("\n\n\n"), vec![]);
    assert_eq!(statements("let x be 1"), vec![assignment("x", literal(1.0))]);
    assert_eq!(statements("let x is 1"), vec![assignment("x", literal(1.0))]);
    assert_eq!(statements("x = 1\n"), vec![assignment("x", literal(1.0))]);
    assert_eq!(statements("x is y"), vec![assignment("x", name("y"))]);
    assert_eq!(
        statements("\nlet x be 1\n\n\nshow x\nshow 2"),
        vec![assignment("x", literal(1.0)), Statement::Show(name("x")), Statement::Show(literal(2.0))]
    );
    assert_eq!(statements("show 1 show 2"), vec![Statement::Show(literal(1.0)), Statement::Show(literal(2.0))]);
}

#[test]
fn control_flow_is_parsed() {
    let show = |value: f64| Statement::Show(literal(value));
    assert_eq!(
        statements("if a then\n  show 1\n  show 2\nelse if b then\n  show 3\nelse if c then\nelse\n  show 4\n"),
        vec![Statement::If {
            condition: name("a"),
            then_branch: vec![show(1.0), show(2.0)],
            else_ifs: vec![(name("b"), vec![show(3.0)]), (name("c"), vec![])],
            else_branch: Some(vec![show(4.0)]),
        }]
    );
    assert_eq!(
        statements("if a then show 1"),
        vec![Statement::If { condition: name("a"), then_branch: vec![show(1.0)], else_ifs: vec![], else_branch: None }]
    );
    // a block runs up to the first token that starts no statement
    assert_eq!(
        statements("while a then\n show 1\n\n show 2"),
        vec![Statement::While { condition: name("a"), body: vec![show(1.0), show(2.0)] }]
    );
    assert_eq!(
        statements("repeat 3 times then\n show 1\n"),
        vec![Statement::Repeat { count: literal(3.0), body: vec![show(1.0)] }]
    );
    assert_eq!(
        statements("if a then\n while b then\n  show 1\n else\n  show 2"),
        vec![Statement::If {
            condition: name("a"),
            then_branch: vec![Statement::While { condition: name("b"), body: vec![show(1.0)] }],
            else_ifs: vec![],
            else_branch: Some(vec![show(2.0)]),
        }]
    );
}

#[test]
fn parse_errors_name_what_was_found() {
    let prefixed = |message: &str| format!("Parse error at line 0: {}", message);
    assert_eq!(parse_error("5"), prefixed("Expected statement, found '5'"));
    assert_eq!(parse_error("1.50"), prefixed("Expected statement, found '1.5'"));
    assert_eq!(parse_error("then"), prefixed("Expected statement, found 'then'"));
    assert_eq!(parse_error("\"s\""), prefixed("Expected statement, found '\"s\"'"));
    assert_eq!(parse_error("show"), prefixed("Expected expression, found 'EOF'"));
    assert_eq!(parse_error("show )"), prefixed("Expected expression, found ')'"));
    assert_eq!(parse_error("show 1 +\n2"), prefixed("Expected expression, found '\\n'"));
    assert_eq!(parse_error("show (1"), prefixed("Expected ')' after expression: expected ')', found 'EOF'"));
    assert_eq!(parse_error("show f(1"), prefixed("Expected ')' after function arguments: expected ')', found 'EOF'"));
    assert_eq!(parse_error("show f(1 2)"), prefixed("Expected ')' after function arguments: expected ')', found '2'"));
    assert_eq!(parse_error("let"), prefixed("Expected identifier after 'let'"));
    assert_eq!(parse_error("let 5 be 1"), prefixed("Expected identifier after 'let'"));
    assert_eq!(parse_error("let x 1"), prefixed("Expected 'be' or 'is' after identifier"));
    assert_eq!(parse_error("let x = 1"), prefixed("Expected 'be' or 'is' after identifier"));
    assert_eq!(parse_error("x be 1"), prefixed("Expected 'is' or '=' after identifier"));
    assert_eq!(parse_error("x"), prefixed("Expected 'is' or '=' after identifier"));
    assert_eq!(parse_error("if x show 1"), prefixed("Expected 'then' after if condition: expected 'then', found 'show'"));
    assert_eq!(
        parse_error("if x then\nelse if y\nshow 1"),
        prefixed("Expected 'then' after else if condition: expected 'then', found '\\n'")
    );
    assert_eq!(
        parse_error("while x\n"),
        prefixed("while statement (expected 'then' after condition): expected 'then', found '\\n'")
    );
    assert_eq!(
        parse_error("repeat 3 then"),
        prefixed("repeat statement (expected 'times' after count): expected 'times', found 'then'")
    );
    assert_eq!(
        parse_error("repeat 3 times\n"),
        prefixed("repeat statement (expected 'then' after 'times'): expected 'then', found '\\n'")
    );
    assert_eq!(parse_error("show 1\nelse"), prefixed("Expected statement, found 'else'"));
}
