// The compiler: the bytes it emits, and what it refuses.
use luma::frontend::ast::BinaryOperator;
use luma::frontend::ast::Expression;
use luma::frontend::ast::Statement;
use luma::frontend::ast::UnaryOperator;
use luma::frontend::compiler::Compiler;
use luma::shared::chunk::Chunk;
use luma::shared::error::LumaError;
use luma::shared::value::Value;

fn literal(value: f64) -> Expression {
    Expression::Literal(value.to_bits())
}

fn name(text: &str) -> Expression {
    Expression::Identifier(text.to_string())
}

fn string(text: &str) -> Value {
    Value::String(text.to_string())
}

fn number(value: f64) -> Value {
    Value::Number(value.to_bits())
}

fn assign(target: &str, value: Expression) -> Statement {
    Statement::Assignment { name: target.to_string(), value }
}

fn show(value: Expression) -> Statement {
    Statement::Show(value)
}

fn call() -> Expression {
    Expression::FunctionCall { name: "f".to_string(), arguments: vec![literal(1.0)] }
}

fn compile(statements: &[Statement]) -> Result<Chunk, LumaError> {
    Compiler::new().compile(statements)
}

fn refusal(statements: &[Statement]) -> String {
    match compile(statements) {
        Ok(_) => panic!("compiled"),
        Err(error) => {
            assert!(matches!(error, LumaError::CompileError { line: 0, .. }));
            error.to_string()
        }
    }
}

#[test]
fn an_empty_program_is_a_return() {
    let chunk = compile(&[]).unwrap();
    assert_eq!(chunk.code, vec![28]);
    assert_eq!(chunk.lines, vec![1]);
    assert!(chunk.constants.is_empty());
}

#[test]
fn redeclared_global_is_updated() {
    let chunk = compile(&[assign("x", literal(1.0)), assign("x", literal(2.0)), show(name("x"))]).unwrap();
    assert_eq!(chunk.code, vec![0, 0, 21, 1, 29, 0, 2, 21, 1, 29, 20, 1, 32, 28]);
    assert_eq!(chunk.lines, vec![2, 2, 2, 2, 2, 4, 4, 4, 4, 4, 6, 6, 6, 6]);
    assert_eq!(chunk.constants, vec![number(1.0), string("x"), number(2.0)]);
    assert_eq!(chunk.code.len(), chunk.lines.len());
}

#[test]
fn operands_come_before_their_operator() {
    let sum = Expression::binary_op(
        literal(10.0),
        BinaryOperator::Add,
        Expression::binary_op(literal(2.0), BinaryOperator::Multiply, literal(5.0)),
    );
    let chunk = compile(&[show(sum)]).unwrap();
    assert_eq!(chunk.code, vec![0, 0, 0, 1, 0, 2, 6, 4, 32, 28]);
    assert_eq!(chunk.constants, vec![number(10.0), number(2.0), number(5.0)]);
}

#[test]
fn every_operator_has_its_opcode() {
    let cases = [
        (BinaryOperator::Add, 4),
        (BinaryOperator::Subtract, 5),
        (BinaryOperator::Multiply, 6),
        (BinaryOperator::Divide, 7),
        (BinaryOperator::Modulo, 8),
        (BinaryOperator::Equal, 10),
        (BinaryOperator::Greater, 11),
        (BinaryOperator::GreaterThan, 11),
        (BinaryOperator::Less, 12),
        (BinaryOperator::LessThan, 12),
        (BinaryOperator::GreaterEqual, 13),
        (BinaryOperator::LessEqual, 14),
        (BinaryOperator::NotEqual, 15),
        (BinaryOperator::And, 17),
        (BinaryOperator::Or, 18),
    ];
    for (operator, byte) in cases {
        let chunk = compile(&[show(Expression::binary_op(literal(1.0), operator, literal(1.0)))]).unwrap();
        assert_eq!(chunk.code, vec![0, 0, 0, 0, byte, 32, 28]);
    }
    let negated = Expression::UnaryOp { operator: UnaryOperator::Minus, operand: Box::new(literal(1.0)) };
    assert_eq!(compile(&[show(negated)]).unwrap().code, vec![0, 0, 9, 32, 28]);
    let not = Expression::UnaryOp {
        operator: UnaryOperator::Not,
        operand: Box::new(Expression::BooleanLiteral(false)),
    };
    assert_eq!(compile(&[show(not)]).unwrap().code, vec![3, 16, 32, 28]);
    let text = Expression::StringLiteral("hi".to_string());
    let chunk = compile(&[show(text), show(Expression::BooleanLiteral(true))]).unwrap();
    assert_eq!(chunk.code, vec![0, 0, 32, 2, 32, 28]);
    assert_eq!(chunk.constants, vec![string("hi")]);
}

#[test]
fn if_with_else_is_patched() {
    let statement = Statement::If {
        condition: Expression::BooleanLiteral(true),
        then_branch: vec![show(literal(1.0))],
        else_ifs: vec![],
        else_branch: Some(vec![show(literal(2.0))]),
    };
    let chunk = compile(&[statement]).unwrap();
    assert_eq!(chunk.code, vec![2, 25, 6, 29, 0, 0, 32, 24, 4, 29, 0, 1, 32, 28]);
    assert_eq!(chunk.lines, vec![2, 0, 0, 2, 2, 2, 2, 0, 0, 2, 2, 2, 2, 2]);
}

#[test]
fn if_without_else_pops_on_both_paths() {
    let statement = Statement::If {
        condition: Expression::BooleanLiteral(true),
        then_branch: vec![show(literal(1.0))],
        else_ifs: vec![],
        else_branch: None,
    };
    let chunk = compile(&[statement]).unwrap();
    assert_eq!(chunk.code, vec![2, 25, 6, 29, 0, 0, 32, 24, 1, 29, 28]);
}

#[test]
fn else_if_chains_repeat_the_pattern() {
    let statement = Statement::If {
        condition: Expression::BooleanLiteral(false),
        then_branch: vec![show(literal(1.0))],
        else_ifs: vec![(Expression::BooleanLiteral(true), vec![show(literal(2.0))])],
        else_branch: Some(vec![show(literal(3.0))]),
    };
    let chunk = compile(&[statement]).unwrap();
    assert_eq!(
        chunk.code,
        vec![
            3, 25, 6, 29, 0, 0, 32, 24, 14, 29, // if false: show 1, jump to the end
            2, 25, 6, 29, 0, 1, 32, 24, 4, 29, // else if true: show 2, jump to the end
            0, 2, 32, // else: show 3
            28
        ]
    );
}

#[test]
fn while_jumps_back_and_out() {
    let statement = Statement::While {
        condition: Expression::BooleanLiteral(false),
        body: vec![show(literal(1.0))],
    };
    let chunk = compile(&[statement]).unwrap();
    assert_eq!(chunk.code, vec![34, 3, 25, 6, 29, 0, 0, 32, 26, 10, 29, 35, 28]);
    assert_eq!(chunk.lines, vec![2, 2, 0, 0, 2, 2, 2, 2, 0, 0, 2, 2, 2]);
}

#[test]
fn repeat_counts_in_two_globals() {
    let statement = Statement::Repeat { count: literal(3.0), body: vec![show(literal(7.0))] };
    let chunk = compile(&[statement]).unwrap();
    assert_eq!(
        chunk.constants,
        vec![
            number(3.0),
            string("__repeat_count_2"),
            number(0.0),
            string("__repeat_counter_2"),
            number(7.0),
            number(1.0)
        ]
    );
    assert_eq!(
        chunk.code,
        vec![
            0, 0, 19, 1, // the count
            0, 2, 19, 3, // the counter, from 0
            34, 20, 3, 20, 1, 12, 25, 14, 29, // while counter < count
            0, 4, 32, // the body
            20, 3, 0, 5, 4, 21, 3, 29, // counter = counter + 1
            26, 22, 29, 35, // back to the test
            28
        ]
    );
}

#[test]
fn locals_live_in_their_block() {
    let block = Statement::While {
        condition: Expression::BooleanLiteral(true),
        body: vec![
            assign("y", literal(1.0)),
            show(name("y")),
            assign("y", literal(2.0)),
            assign("z", name("y")),
            show(name("z")),
            show(name("x")),
        ],
    };
    let chunk = compile(&[block, show(name("y"))]).unwrap();
    assert_eq!(
        chunk.code,
        vec![
            34, 2, 25, 23, 29, // the test
            0, 0, // y is declared: its value stays in slot 0
            22, 0, 32, // show y
            0, 1, 23, 0, 29, // y is overwritten
            22, 0, // z is declared in slot 1
            22, 1, 32, // show z
            20, 2, 32, // x is a global
            29, 29, // z and y leave with the block
            26, 27, 29, 35, // back to the test
            20, 3, 32, // after the block y is a global
            28
        ]
    );
    assert_eq!(chunk.constants, vec![number(1.0), number(2.0), string("x"), string("y")]);
}

#[test]
fn a_function_call_never_compiles() {
    let message = "Compile error at line 0: Function calls not implemented in JIT-VM";
    assert_eq!(refusal(&[show(call())]), message);
    assert_eq!(refusal(&[assign("x", call())]), message);
    let no_arguments = Expression::FunctionCall { name: "now".to_string(), arguments: vec![] };
    assert_eq!(refusal(&[show(no_arguments)]), message);
    let nested = Expression::binary_op(literal(1.0), BinaryOperator::Add, call());
    assert_eq!(refusal(&[show(nested)]), message);
    let negated = Expression::UnaryOp { operator: UnaryOperator::Minus, operand: Box::new(call()) };
    assert_eq!(refusal(&[show(literal(1.0)), show(negated)]), message);
    let condition = Statement::While { condition: call(), body: vec![] };
    assert_eq!(refusal(&[condition]), message);
    let in_branch = Statement::If {
        condition: Expression::BooleanLiteral(true),
        then_branch: vec![],
        else_ifs: vec![(call(), vec![])],
        else_branch: None,
    };
    assert_eq!(refusal(&[in_branch]), message);
}

#[test]
fn the_same_statements_give_the_same_chunk() {
    let program = || {
        vec![
            assign("a", literal(5.0)),
            assign("b", literal(5.0)),
            Statement::Repeat { count: name("a"), body: vec![show(Expression::StringLiteral("a".to_string()))] },
            Statement::If {
                condition: Expression::binary_op(name("a"), BinaryOperator::Equal, name("b")),
                then_branch: vec![show(literal(5.0))],
                else_ifs: vec![],
                else_branch: None,
            },
        ]
    };
    let first = compile(&program()).unwrap();
    let second = compile(&program()).unwrap();
    assert_eq!(first.code, second.code);
    assert_eq!(first.constants, second.constants);
    assert_eq!(first.lines, second.lines);
    assert_eq!(first.globals, second.globals);
    // equal constants were coalesced
    assert_eq!(first.constants.iter().filter(|value| **value == number(5.0)).count(), 1);
    assert_eq!(first.constants.iter().filter(|value| **value == string("a")).count(), 1);
}

#[test]
fn a_compiler_hands_its_chunk_out() {
    let mut compiler = Compiler::default();
    let first = compiler.compile(&[show(literal(1.0))]).unwrap();
    let second = compiler.compile(&[show(literal(2.0))]).unwrap();
    assert_eq!(first.code, vec![0, 0, 32, 28]);
    assert_eq!(second.code, vec![0, 0, 32, 28]);
    assert_eq!(second.constants, vec![number(2.0)]);
}

#[test]
fn too_many_locals_fail() {
    let mut body = Vec::new();
    for i in 0..255 {
        body.push(assign(&format!("v{}", i), Expression::BooleanLiteral(true)));
    }
    let fits = Statement::If {
        condition: Expression::BooleanLiteral(true),
        then_branch: body,
        else_ifs: vec![],
        else_branch: None,
    };
    // 255 locals fit, but their code is too long to jump over
    assert_eq!(refusal(&[fits]), "Compile error at line 0: Too much code to jump over");
    let mut body = Vec::new();
    for i in 0..256 {
        body.push(assign(&format!("v{}", i), Expression::BooleanLiteral(true)));
    }
    let overflows = Statement::If {
        condition: Expression::BooleanLiteral(true),
        then_branch: body,
        else_ifs: vec![],
        else_branch: None,
    };
    assert_eq!(refusal(&[overflows]), "Compile error at line 0: Too many local variables in scope");
}

#[test]
fn long_branches_and_loops_fail() {
    let shows = |n: usize| -> Vec<Statement> { (0..n).map(|_| show(Expression::BooleanLiteral(true))).collect() };
    // 126 statements of two bytes, and the jump of two: 254 bytes to jump over
    let fits = Statement::If {
        condition: Expression::BooleanLiteral(true),
        then_branch: shows(126),
        else_ifs: vec![],
        else_branch: None,
    };
    let chunk = compile(&[fits]).unwrap();
    assert_eq!(chunk.code[2], 255);
    let too_long = Statement::If {
        condition: Expression::BooleanLiteral(true),
        then_branch: shows(127),
        else_ifs: vec![],
        else_branch: None,
    };
    assert_eq!(refusal(&[too_long]), "Compile error at line 0: Too much code to jump over");
    let long_else = Statement::If {
        condition: Expression::BooleanLiteral(true),
        then_branch: vec![],
        else_ifs: vec![],
        else_branch: Some(shows(128)),
    };
    assert_eq!(refusal(&[long_else]), "Compile error at line 0: Too much code to jump over");
    let loops = Statement::While { condition: Expression::BooleanLiteral(true), body: shows(124) };
    let chunk = compile(&[loops]).unwrap();
    assert_eq!(chunk.code[254], 255);
    assert_eq!(chunk.code[3], 251);
    let long_loop = Statement::While { condition: Expression::BooleanLiteral(true), body: shows(125) };
    assert_eq!(refusal(&[long_loop]), "Compile error at line 0: Loop body too large");
}
