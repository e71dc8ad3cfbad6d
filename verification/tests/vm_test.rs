// The whole pipeline: source text to the value that the program shows.
use luma::backend::vm::vm::Action;
use luma::backend::vm::vm::VM;
use luma::frontend::compiler::Compiler;
use luma::frontend::lexer::Lexer;
use luma::frontend::lexer::Scanned;
use luma::frontend::parser::Parser;
use luma::frontend::token::Token;
use luma::shared::chunk::Chunk;
use luma::shared::host::ArithmeticOp;
use luma::shared::host::HostReply;
use luma::shared::host::HostRequest;
use luma::shared::value::Value;

// The host: the floating-point work that the library asks for.
fn answer(request: &HostRequest) -> HostReply {
    match request {
        HostRequest::ReadNumber(text) => match text.parse::<f64>() {
            Ok(number) => HostReply::Number(number.to_bits()),
            Err(_) => HostReply::NotANumber,
        },
        HostRequest::WriteNumber(bits) => HostReply::Text(format!("{}", f64::from_bits(*bits))),
        HostRequest::Arithmetic { op, left, right } => {
            let a = f64::from_bits(*left);
            let b = f64::from_bits(*right);
            let result = match op {
                ArithmeticOp::Add => a + b,
                ArithmeticOp::Subtract => a - b,
                ArithmeticOp::Multiply => a * b,
                ArithmeticOp::Divide => a / b,
                ArithmeticOp::Modulo => a % b,
            };
            HostReply::Number(result.to_bits())
        }
    }
}

fn lex(source: &str) -> Result<Vec<Token>, String> {
    let mut lexer = Lexer::new(source);
    let mut reply = None;
    loop {
        match lexer.tokenize(reply.take()).map_err(|e| e.to_string())? {
            Scanned::Done(tokens) => return Ok(tokens),
            Scanned::Ask(request) => reply = Some(answer(&request)),
        }
    }
}

// Runs a chunk to its end: the result of the run and the values it showed.
fn run(vm: &mut VM, chunk: Chunk) -> Result<(Value, Vec<Value>), String> {
    let mut shown = Vec::new();
    let mut action = vm.interpret(chunk, 64);
    loop {
        action = match action {
            Action::Continue => vm.run(None, 64),
            Action::Ask(request) => vm.run(Some(answer(&request)), 64),
            Action::Print { value, text } => {
                println!("{}", text);
                shown.push(value);
                vm.run(None, 64)
            }
            Action::HotLoop(offset) => {
                println!("Hot loop detected at instruction {}", offset);
                vm.run(None, 64)
            }
            Action::Halt(value) => return Ok((value, shown)),
            Action::Fail(error) => return Err(error.to_string()),
            Action::Idle => return Err("nothing to run".to_string()),
        };
    }
}

// Helper function to run code through the complete pipeline. A program
// ends with `nil` once `show` has taken its value off the stack, so the
// value that counts is the one it showed last.
fn run_code(source: &str) -> Result<Value, String> {
    let tokens = lex(source)?;

    let mut parser = Parser::new(tokens);
    let statements = parser.parse().map_err(|e| e.to_string())?;

    let mut compiler = Compiler::new();
    let chunk = compiler.compile(&statements).map_err(|e| e.to_string())?;

    let mut vm = VM::new();
    let (result, mut shown) = run(&mut vm, chunk)?;
    assert_eq!(result, Value::Nil);
    match shown.pop() {
        Some(value) => Ok(value),
        None => Ok(result),
    }
}

fn number(value: f64) -> Value {
    Value::Number(value.to_bits())
}

#[test]
fn test_simple_number_expression() {
    let source = "show 123";
    let result = run_code(source).unwrap();
    assert_eq!(result, number(123.0));
}

#[test]
fn test_simple_arithmetic() {
    let source = "show 10 + 5";
    let result = run_code(source).unwrap();
    assert_eq!(result, number(15.0));
}

#[test]
fn test_operator_precedence() {
    // Test that 2 * 5 is done before 10 +
    let source = "show 10 + 2 * 5"; // 10 + 10 = 20
    let result = run_code(source).unwrap();
    assert_eq!(result, number(20.0));
}

#[test]
fn test_parentheses_expression() {
    // Test that parentheses override precedence
    let source = "show (10 + 2) * 5"; // 12 * 5 = 60
    let result = run_code(source).unwrap();
    assert_eq!(result, number(60.0));
}

#[test]
fn test_complex_expression() {
    let source = "show (100 - 20) / (2 + 2) + 5 * 2"; // 80 / 4 + 10 -> 20 + 10 = 30
    let result = run_code(source).unwrap();
    assert_eq!(result, number(30.0));
}

#[test]
fn test_subtraction() {
    let source = "show 100 - 25";
    let result = run_code(source).unwrap();
    assert_eq!(result, number(75.0));
}

#[test]
fn test_multiplication() {
    let source = "show 10 * 5";
    let result = run_code(source).unwrap();
    assert_eq!(result, number(50.0));
}

#[test]
fn test_division() {
    let source = "show 100 / 4";
    let result = run_code(source).unwrap();
    assert_eq!(result, number(25.0));
}

#[test]
fn test_division_before_subtraction() {
    let source = "show 20 - 8 / 2"; // 8/2=4, 20-4=16
    let result = run_code(source).unwrap();
    assert_eq!(result, number(16.0));
}

#[test]
fn test_zero() {
    let source = "show 0";
    let result = run_code(source).unwrap();
    assert_eq!(result, number(0.0));
}

// === Phase 2: Variable Tests ===

#[test]
fn test_variable_declaration() {
    let source = r#"
        let price be 2500
        show price
    "#;
    let result = run_code(source).unwrap();
    assert_eq!(result, number(2500.0));
}

#[test]
fn test_variable_in_expression() {
    let source = r#"
        let x be 10
        let y be 5
        show x + y
    "#;
    let result = run_code(source).unwrap();
    assert_eq!(result, number(15.0));
}

#[test]
fn test_complex_variable_expression() {
    let source = r#"
        let a be 5
        let b be 3
        show (a + b) * (a - b)
    "#;
    let result = run_code(source).unwrap();
    assert_eq!(result, number(16.0)); // (5+3) * (5-3) = 8 * 2 = 16
}

// === Comment Tests ===

#[test]
fn test_comment_at_end_of_expression() {
    let source = "show 42 # This is the answer";
    let result = run_code(source).unwrap();
    assert_eq!(result, number(42.0));
}

#[test]
fn test_single_line_comment() {
    let source = r#"
        # This is a comment line
        show 100
        # Another comment
    "#;
    let result = run_code(source).unwrap();
    assert_eq!(result, number(100.0));
}
