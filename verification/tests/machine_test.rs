// The machine: every instruction, every failure, and whole programs.
use luma::backend::vm::instruction::OpCode;
use luma::backend::vm::vm::Action;
use luma::backend::vm::vm::VM;
use luma::frontend::ast::BinaryOperator;
use luma::frontend::ast::Expression;
use luma::frontend::ast::Statement;
use luma::frontend::compiler::Compiler;
use luma::shared::chunk::Chunk;
use luma::shared::error::LumaError;
use luma::shared::host::ArithmeticOp;
use luma::shared::host::HostReply;
use luma::shared::host::HostRequest;
use luma::shared::value::Value;

fn host(request: &HostRequest) -> HostReply {
    match request {
        HostRequest::ReadNumber(text) => match text.parse::<f64>() {
            Ok(number) => HostReply::Number(number.to_bits()),
            Err(_) => HostReply::NotANumber,
        },
        HostRequest::WriteNumber(bits) => HostReply::Text(format!("{}", f64::from_bits(*bits))),
        HostRequest::Arithmetic { op, left, right } => {
            let a = f64::from_bits(*left);
            let b = f64::from_bits(*right);
            let result = match op {
                ArithmeticOp::Add => a + b,
                ArithmeticOp::Subtract => a - b,
                ArithmeticOp::Multiply => a * b,
                ArithmeticOp::Divide => a / b,
                ArithmeticOp::Modulo => a % b,
            };
            HostReply::Number(result.to_bits())
        }
    }
}

struct Outcome {
    result: Result<Value, String>,
    shown: Vec<String>,
    hot: Vec<usize>,
    asked: Vec<String>,
}

// Runs the machine to the end of its run, one step at a time.
fn finish(vm: &mut VM, first: Action) -> Outcome {
    let mut outcome = Outcome { result: Ok(Value::Nil), shown: vec![], hot: vec![], asked: vec![] };
    let mut action = first;
    for _ in 0..100_000 {
        action = match action {
            Action::Continue => vm.step(None),
            Action::Ask(request) => {
                outcome.asked.push(format!("{:?}", request));
                vm.step(Some(host(&request)))
            }
            Action::Print { text, .. } => {
                outcome.shown.push(text);
                vm.step(None)
            }
            Action::HotLoop(offset) => {
                outcome.hot.push(offset);
                vm.step(None)
            }
            Action::Halt(value) => {
                outcome.result = Ok(value);
                return outcome;
            }
            Action::Fail(error) => {
                outcome.result = Err(error.to_string());
                return outcome;
            }
            Action::Idle => {
                outcome.result = Err("idle".to_string());
                return outcome;
            }
        };
    }
    outcome.result = Err("no end".to_string());
    outcome
}

fn execute(vm: &mut VM, chunk: Chunk) -> Outcome {
    vm.load(chunk);
    let first = vm.step(None);
    finish(vm, first)
}

fn number(value: f64) -> Value {
    Value::Number(value.to_bits())
}

fn text(value: &str) -> Value {
    Value::String(value.to_string())
}

// A chunk that pushes `values` and then holds `code`.
fn program(values: &[Value], code: &[u8]) -> Chunk {
    let mut chunk = Chunk::new();
    for value in values {
        chunk.constants.push(value.clone());
        let slot = chunk.constants.len() - 1;
        chunk.write_opcode(OpCode::OpConstant, 1);
        chunk.write_byte(slot as u8, 1);
    }
    for byte in code {
        chunk.write_byte(*byte, 1);
    }
    chunk
}

fn evaluate(values: &[Value], code: &[u8]) -> Result<Value, String> {
    let mut with_return = code.to_vec();
    with_return.push(28);
    execute(&mut VM::new(), program(values, &with_return)).result
}

fn runtime(message: &str) -> Result<Value, String> {
    Err(format!("Runtime error: {}", message))
}

fn stack(message: &str) -> Result<Value, String> {
    Err(format!("Stack error: {}", message))
}

#[test]
fn a_machine_without_a_chunk_is_idle() {
    let mut vm = VM::new();
    assert!(matches!(vm.step(None), Action::Idle));
    assert!(matches!(vm.run(None, 10), Action::Idle));
    assert!(vm.get_execution_stats().is_empty());
    let mut vm = VM::default();
    assert!(matches!(vm.step(Some(HostReply::NotANumber)), Action::Idle));
}

#[test]
fn an_empty_chunk_has_no_instruction() {
    let outcome = execute(&mut VM::new(), Chunk::new());
    assert_eq!(outcome.result, runtime("Instruction pointer out of bounds"));
}

#[test]
fn literals_are_pushed() {
    assert_eq!(evaluate(&[], &[1]), Ok(Value::Nil));
    assert_eq!(evaluate(&[], &[2]), Ok(Value::Boolean(true)));
    assert_eq!(evaluate(&[], &[3]), Ok(Value::Boolean(false)));
    assert_eq!(evaluate(&[number(4.5)], &[]), Ok(number(4.5)));
    assert_eq!(evaluate(&[text("a")], &[]), Ok(text("a")));
    assert_eq!(evaluate(&[], &[]), Ok(Value::Nil));
}

#[test]
fn falling_off_the_end_returns_the_top() {
    assert_eq!(execute(&mut VM::new(), program(&[number(1.0), number(2.0)], &[])).result, Ok(number(2.0)));
    assert_eq!(execute(&mut VM::new(), program(&[number(1.0)], &[29])).result, Ok(Value::Nil));
    // a jump beyond the end ends the run too
    assert_eq!(execute(&mut VM::new(), program(&[number(1.0)], &[24, 200])).result, Ok(number(1.0)));
}

#[test]
fn arithmetic_is_that_of_doubles() {
    let cases: [(u8, f64, f64, f64); 12] = [
        (4, 10.0, 5.0, 15.0),
        (4, 0.1, 0.2, 0.1 + 0.2),
        (5, 100.0, 25.0, 75.0),
        (5, 0.3, 0.1, 0.3 - 0.1),
        (6, 10.0, 5.0, 50.0),
        (6, 1e200, 1e200, f64::INFINITY),
        (7, 100.0, 4.0, 25.0),
        (7, 1.0, 3.0, 1.0 / 3.0),
        (8, 7.0, 3.0, 1.0),
        (8, -7.5, 2.0, -1.5),
        (4, -0.0, 0.0, 0.0),
        (5, 1e16, 1.0, 1e16 - 1.0),
    ];
    for (opcode, left, right, expected) in cases {
        assert_eq!(evaluate(&[number(left), number(right)], &[opcode]), Ok(number(expected)));
    }
    match evaluate(&[number(f64::INFINITY), number(f64::INFINITY)], &[5]) {
        Ok(Value::Number(bits)) => assert!(f64::from_bits(bits).is_nan()),
        other => panic!("{:?}", other),
    }
}

#[test]
fn booleans_and_numerals_are_coerced() {
    assert_eq!(evaluate(&[Value::Boolean(true), number(2.0)], &[4]), Ok(number(3.0)));
    assert_eq!(evaluate(&[Value::Boolean(false), Value::Boolean(true)], &[5]), Ok(number(-1.0)));
    assert_eq!(evaluate(&[text("12"), number(2.0)], &[6]), Ok(number(24.0)));
    assert_eq!(evaluate(&[number(2.0), text("0.5")], &[7]), Ok(number(4.0)));
    assert_eq!(evaluate(&[text("7"), text("4")], &[8]), Ok(number(3.0)));
    assert_eq!(evaluate(&[text("1e2"), number(1.0)], &[5]), Ok(number(99.0)));
    assert_eq!(evaluate(&[text("12")], &[9]), Ok(number(-12.0)));
    assert_eq!(evaluate(&[text("3"), number(3.0)], &[13]), Ok(Value::Boolean(true)));
    assert_eq!(evaluate(&[text("abc"), number(2.0)], &[5]), runtime("Cannot convert 'abc' to number"));
    assert_eq!(evaluate(&[number(2.0), text("")], &[6]), runtime("Cannot convert '' to number"));
    assert_eq!(evaluate(&[Value::Nil, number(2.0)], &[5]), runtime("Cannot convert nil to number"));
    assert_eq!(evaluate(&[number(2.0), Value::Nil], &[4]), runtime("Cannot convert nil to number"));
    assert_eq!(evaluate(&[Value::Nil, text("x")], &[5]), runtime("Cannot convert nil to number"));
    assert_eq!(evaluate(&[text("x"), Value::Nil], &[5]), runtime("Cannot convert 'x' to number"));
    assert_eq!(evaluate(&[Value::Nil], &[9]), runtime("Cannot convert nil to number"));
    assert_eq!(evaluate(&[text("x")], &[9]), runtime("Cannot convert 'x' to number"));
    assert_eq!(evaluate(&[Value::Nil, number(2.0)], &[11]), runtime("Cannot convert nil to number"));
}

#[test]
fn add_joins_as_soon_as_one_side_is_text() {
    assert_eq!(evaluate(&[text("a"), text("b")], &[4]), Ok(text("ab")));
    assert_eq!(evaluate(&[text("n = "), number(3.0)], &[4]), Ok(text("n = 3")));
    assert_eq!(evaluate(&[number(3.0), text(" apples")], &[4]), Ok(text("3 apples")));
    assert_eq!(evaluate(&[text("pi = "), number(3.25)], &[4]), Ok(text("pi = 3.25")));
    assert_eq!(evaluate(&[number(0.5), text("")], &[4]), Ok(text("0.5")));
    assert_eq!(evaluate(&[text("1"), number(2.0)], &[4]), Ok(text("12")));
    assert_eq!(evaluate(&[text("is "), Value::Boolean(true)], &[4]), Ok(text("is true")));
    assert_eq!(evaluate(&[Value::Nil, text("!")], &[4]), Ok(text("nil!")));
    // without a string the sum is a number
    for (left, right) in [(number(1.0), number(2.0)), (Value::Boolean(true), number(2.0))] {
        assert!(matches!(evaluate(&[left, right], &[4]), Ok(Value::Number(_))));
    }
}

#[test]
fn concat_joins_display_forms() {
    assert_eq!(evaluate(&[number(1.0), number(2.0)], &[33]), Ok(text("12")));
    assert_eq!(evaluate(&[number(1.5), number(2.5)], &[33]), Ok(text("1.52.5")));
    assert_eq!(evaluate(&[text("a"), Value::Nil], &[33]), Ok(text("anil")));
    assert_eq!(evaluate(&[Value::Boolean(false), number(-0.25)], &[33]), Ok(text("false-0.25")));
    assert_eq!(evaluate(&[number(1.0)], &[33]), stack("Stack underflow"));
}

#[test]
fn division_and_modulo_by_zero_fail() {
    for zero in [number(0.0), number(-0.0), Value::Boolean(false), text("0"), text("-0.0")] {
        assert_eq!(evaluate(&[number(1.0), zero.clone()], &[7]), runtime("Division by zero"));
        assert_eq!(evaluate(&[number(1.0), zero.clone()], &[8]), runtime("Modulo by zero"));
        assert_eq!(evaluate(&[number(0.0), zero.clone()], &[7]), runtime("Division by zero"));
        assert_eq!(evaluate(&[text("5"), zero], &[8]), runtime("Modulo by zero"));
    }
    // the host is never asked to divide by zero
    let outcome = execute(&mut VM::new(), program(&[number(1.0), number(0.0)], &[7, 28]));
    assert!(outcome.asked.is_empty());
    assert_eq!(evaluate(&[number(0.0), number(2.0)], &[7]), Ok(number(0.0)));
}

#[test]
fn comparisons_are_numeric() {
    let cases: [(u8, f64, f64, bool); 12] = [
        (11, 2.0, 1.0, true),
        (11, 1.0, 1.0, false),
        (12, 1.0, 2.0, true),
        (12, 2.0, 2.0, false),
        (13, 2.0, 2.0, true),
        (13, 1.0, 2.0, false),
        (14, 2.0, 2.0, true),
        (14, 3.0, 2.0, false),
        (12, -1.0, 0.5, true),
        (14, -0.0, 0.0, true),
        (11, f64::NAN, 1.0, false),
        (14, f64::NAN, f64::NAN, false),
    ];
    for (opcode, left, right, expected) in cases {
        assert_eq!(evaluate(&[number(left), number(right)], &[opcode]), Ok(Value::Boolean(expected)));
    }
    assert_eq!(evaluate(&[Value::Boolean(true), number(0.5)], &[11]), Ok(Value::Boolean(true)));
}

#[test]
fn equality_is_without_coercion() {
    assert_eq!(evaluate(&[number(1.0), number(1.0)], &[10]), Ok(Value::Boolean(true)));
    assert_eq!(evaluate(&[number(1.0), text("1")], &[10]), Ok(Value::Boolean(false)));
    assert_eq!(evaluate(&[number(1.0), Value::Boolean(true)], &[10]), Ok(Value::Boolean(false)));
    assert_eq!(evaluate(&[text("a"), text("a")], &[10]), Ok(Value::Boolean(true)));
    assert_eq!(evaluate(&[Value::Nil, Value::Nil], &[10]), Ok(Value::Boolean(true)));
    assert_eq!(evaluate(&[number(f64::NAN), number(f64::NAN)], &[10]), Ok(Value::Boolean(false)));
    assert_eq!(evaluate(&[number(f64::NAN), number(f64::NAN)], &[15]), Ok(Value::Boolean(true)));
    assert_eq!(evaluate(&[number(1.0), number(2.0)], &[15]), Ok(Value::Boolean(true)));
    assert_eq!(evaluate(&[text("a"), text("a")], &[15]), Ok(Value::Boolean(false)));
    assert_eq!(evaluate(&[number(1.0)], &[10]), stack("Stack underflow"));
}

#[test]
fn negate_and_not() {
    assert_eq!(evaluate(&[number(5.0)], &[9]), Ok(number(-5.0)));
    assert_eq!(evaluate(&[number(0.0)], &[9]), Ok(number(-0.0)));
    assert_eq!(evaluate(&[Value::Boolean(true)], &[9]), Ok(number(-1.0)));
    assert_eq!(evaluate(&[], &[9]), stack("Stack underflow"));
    assert_eq!(evaluate(&[], &[2, 16]), Ok(Value::Boolean(false)));
    assert_eq!(evaluate(&[], &[1, 16]), Ok(Value::Boolean(true)));
    assert_eq!(evaluate(&[number(0.0)], &[16]), Ok(Value::Boolean(false)));
    assert_eq!(evaluate(&[text("")], &[16]), Ok(Value::Boolean(false)));
    assert_eq!(evaluate(&[], &[16]), stack("Stack underflow"));
}

#[test]
fn stack_failures() {
    for opcode in [4u8, 5, 6, 7, 8, 10, 11, 12, 13, 14, 15, 33] {
        assert_eq!(evaluate(&[], &[opcode]), stack("Stack underflow"));
        assert_eq!(evaluate(&[number(1.0)], &[opcode]), stack("Stack underflow"));
    }
    assert_eq!(evaluate(&[], &[29]), stack("Stack underflow"));
    assert_eq!(evaluate(&[], &[32]), stack("Stack underflow"));
    assert_eq!(evaluate(&[], &[25, 0]), stack("Stack underflow"));
    let mut code = vec![1u8; 256];
    assert_eq!(evaluate(&[], &code), Ok(Value::Nil));
    code.push(1);
    assert_eq!(evaluate(&[], &code), stack("Stack overflow"));
}

#[test]
fn overflow_keeps_what_was_pushed() {
    let mut vm = VM::new();
    let mut chunk = program(&[number(7.0)], &[]);
    for _ in 0..256 {
        chunk.write_opcode(OpCode::OpTrue, 1);
    }
    let outcome = execute(&mut vm, chunk);
    assert_eq!(outcome.result, stack("Stack overflow"));
    // the machine is still usable, and the 256 values are where they were
    let mut pops = vec![29u8; 255];
    pops.push(28);
    let outcome = execute(&mut vm, program(&[], &pops));
    assert_eq!(outcome.result, Ok(number(7.0)));
}

#[test]
fn bad_bytes_fail() {
    assert_eq!(evaluate(&[], &[36]), runtime("Unknown opcode: 36"));
    assert_eq!(evaluate(&[], &[255]), runtime("Unknown opcode: 255"));
    assert_eq!(evaluate(&[], &[17]), runtime("Unimplemented opcode: OpAnd"));
    assert_eq!(evaluate(&[], &[18]), runtime("Unimplemented opcode: OpOr"));
    assert_eq!(evaluate(&[], &[27]), runtime("Unimplemented opcode: OpCall"));
    assert_eq!(evaluate(&[], &[30]), runtime("Unimplemented opcode: OpDup"));
    assert_eq!(evaluate(&[], &[31]), runtime("Unimplemented opcode: OpSwap"));
    assert_eq!(evaluate(&[], &[0, 0]), runtime("Constant index 0 out of bounds"));
    assert_eq!(evaluate(&[number(1.0)], &[0, 200]), runtime("Constant index 200 out of bounds"));
    assert_eq!(evaluate(&[number(1.0)], &[20, 0]), runtime("Expected string constant"));
    assert_eq!(evaluate(&[number(1.0)], &[21, 9]), runtime("Constant index 9 out of bounds"));
    for opcode in [0u8, 19, 20, 21, 22, 23, 24, 25, 26] {
        let outcome = execute(&mut VM::new(), program(&[number(1.0)], &[opcode]));
        assert_eq!(outcome.result, runtime("Instruction pointer out of bounds"));
    }
    assert_eq!(evaluate(&[], &[26, 3]), runtime("Instruction pointer out of bounds"));
}

#[test]
fn globals_are_defined_set_and_read() {
    let mut vm = VM::new();
    // define a = 5; set a = 6 (the value stays on the stack); read a
    let chunk = program(&[number(5.0), text("a"), number(6.0)], &[21, 1, 29, 29, 19, 1, 20, 1, 28]);
    assert_eq!(execute(&mut vm, chunk).result, Ok(number(5.0)));
    // globals outlive the run
    let chunk = program(&[text("a")], &[29, 20, 0, 28]);
    assert_eq!(execute(&mut vm, chunk).result, Ok(number(5.0)));
    // set creates what was never defined
    let chunk = program(&[text("fresh"), number(1.0)], &[21, 0, 29, 29, 20, 0, 28]);
    assert_eq!(execute(&mut vm, chunk).result, Ok(number(1.0)));
    let chunk = program(&[text("fresh"), text("a")], &[20, 0, 20, 1, 4, 28]);
    assert_eq!(execute(&mut vm, chunk).result, Ok(number(6.0)));
    vm.reset();
    let chunk = program(&[text("a")], &[20, 0, 28]);
    assert_eq!(execute(&mut vm, chunk).result, runtime("Undefined variable 'a' at line 1"));
    assert_eq!(evaluate(&[text("a")], &[29, 19, 0]), stack("Stack underflow"));
    assert_eq!(evaluate(&[text("a")], &[29, 21, 0]), stack("Stack underflow"));
}

#[test]
fn undefined_variables_name_their_line() {
    let mut chunk = Chunk::new();
    chunk.constants.push(text("ghost"));
    chunk.write_opcode(OpCode::OpNil, 7);
    chunk.write_opcode(OpCode::OpGetGlobal, 8);
    chunk.write_byte(0, 8);
    chunk.write_opcode(OpCode::OpReturn, 9);
    let outcome = execute(&mut VM::new(), chunk);
    assert_eq!(outcome.result, runtime("Undefined variable 'ghost' at line 9"));

    let mut chunk = Chunk::new();
    chunk.constants.push(text("ghost"));
    chunk.write_opcode(OpCode::OpNil, 4);
    chunk.write_opcode(OpCode::OpGetGlobal, 0);
    chunk.write_byte(0, 0);
    chunk.write_opcode(OpCode::OpReturn, 0);
    assert_eq!(execute(&mut VM::new(), chunk).result, runtime("Undefined variable 'ghost' at line 4"));

    let mut chunk = Chunk::new();
    chunk.constants.push(text("ghost"));
    chunk.write_opcode(OpCode::OpGetGlobal, 0);
    chunk.write_byte(0, 5);
    assert_eq!(execute(&mut VM::new(), chunk).result, runtime("Undefined variable 'ghost' at line 5"));

    let mut chunk = Chunk::new();
    chunk.constants.push(text("ghost"));
    for _ in 0..7 {
        chunk.write_opcode(OpCode::OpLoopStart, 0);
    }
    chunk.write_opcode(OpCode::OpGetGlobal, 0);
    chunk.write_byte(0, 0);
    // no line is recorded: three instructions to a line, from offset 9
    assert_eq!(execute(&mut VM::new(), chunk).result, runtime("Undefined variable 'ghost' at line 4"));
}

#[test]
fn locals_are_stack_slots() {
    assert_eq!(evaluate(&[number(1.0), number(2.0)], &[22, 0]), Ok(number(1.0)));
    assert_eq!(evaluate(&[number(1.0), number(2.0)], &[22, 1]), Ok(number(2.0)));
    assert_eq!(evaluate(&[number(1.0), number(2.0)], &[22, 2]), runtime("Local slot 2 out of bounds"));
    assert_eq!(evaluate(&[number(1.0), number(2.0)], &[23, 0, 29]), Ok(number(2.0)));
    assert_eq!(evaluate(&[number(1.0), number(2.0)], &[23, 0]), Ok(number(2.0)));
    assert_eq!(evaluate(&[number(1.0)], &[23, 1]), runtime("Local slot 1 out of bounds"));
    assert_eq!(evaluate(&[], &[23, 0]), stack("Stack underflow"));
    assert_eq!(evaluate(&[], &[22, 0]), runtime("Local slot 0 out of bounds"));
}

#[test]
fn jumps_move_the_instruction_pointer() {
    // jump over a `nil`
    assert_eq!(evaluate(&[number(1.0)], &[24, 1, 1]), Ok(number(1.0)));
    assert_eq!(evaluate(&[number(1.0)], &[24, 0, 1]), Ok(Value::Nil));
    // a conditional jump leaves the condition on the stack
    assert_eq!(evaluate(&[], &[3, 25, 1, 1]), Ok(Value::Boolean(false)));
    assert_eq!(evaluate(&[], &[2, 25, 1, 1]), Ok(Value::Nil));
    assert_eq!(evaluate(&[], &[1, 25, 1, 2]), Ok(Value::Nil));
    // true; loop: jump-if-false out; pop; false; back to the test
    assert_eq!(evaluate(&[], &[2, 25, 4, 29, 3, 26, 6]), Ok(Value::Boolean(false)));
}

#[test]
fn print_shows_and_pops() {
    let chunk = program(&[number(3.0), number(2.5), text("hi"), Value::Nil], &[32, 32, 32, 32, 1, 28]);
    let outcome = execute(&mut VM::new(), chunk);
    assert_eq!(outcome.shown, vec!["nil", "hi", "2.5", "3"]);
    assert_eq!(outcome.result, Ok(Value::Nil));
    assert_eq!(outcome.asked, vec![format!("{:?}", HostRequest::WriteNumber(2.5f64.to_bits()))]);
    let outcome = execute(&mut VM::new(), program(&[number(f64::NAN), number(-1e300)], &[32, 32, 28]));
    assert_eq!(outcome.shown, vec!["-9223372036854775808", "NaN"]);
}

#[test]
fn print_hands_out_the_value() {
    let mut vm = VM::new();
    vm.load(program(&[number(2.5)], &[32]));
    assert!(matches!(vm.step(None), Action::Continue));
    assert!(matches!(vm.step(None), Action::Ask(HostRequest::WriteNumber(_))));
    // a reply of another kind is asked for again
    assert!(matches!(vm.step(Some(HostReply::Number(0))), Action::Ask(HostRequest::WriteNumber(_))));
    assert!(matches!(vm.step(None), Action::Ask(HostRequest::WriteNumber(_))));
    match vm.step(Some(HostReply::Text("two and a half".to_string()))) {
        Action::Print { value, text } => {
            assert_eq!(value, number(2.5));
            assert_eq!(text, "two and a half");
        }
        other => panic!("{:?}", other),
    }
    assert!(matches!(vm.step(None), Action::Halt(Value::Nil)));
    assert!(matches!(vm.step(None), Action::Idle));
}

#[test]
fn arithmetic_asks_the_host_once() {
    let mut vm = VM::new();
    vm.load(program(&[text("8"), number(2.0)], &[7, 28]));
    assert!(matches!(vm.run(None, 1), Action::Continue));
    match vm.run(None, 100) {
        Action::Ask(HostRequest::ReadNumber(text)) => assert_eq!(text, "8"),
        other => panic!("{:?}", other),
    }
    match vm.run(Some(HostReply::Number(8.0f64.to_bits())), 100) {
        Action::Ask(HostRequest::Arithmetic { op, left, right }) => {
            assert_eq!(op, ArithmeticOp::Divide);
            assert_eq!(left, 8.0f64.to_bits());
            assert_eq!(right, 2.0f64.to_bits());
        }
        other => panic!("{:?}", other),
    }
    match vm.run(Some(HostReply::Number(4.0f64.to_bits())), 100) {
        Action::Halt(value) => assert_eq!(value, number(4.0)),
        other => panic!("{:?}", other),
    }
}

#[test]
fn a_run_stops_when_its_budget_is_spent() {
    let mut vm = VM::new();
    // an endless loop: loop start, back by 3
    let mut chunk = Chunk::new();
    chunk.write_opcode(OpCode::OpLoopStart, 1);
    chunk.write_opcode(OpCode::OpLoop, 1);
    chunk.write_byte(3, 1);
    assert!(matches!(vm.interpret(chunk, 1000), Action::Continue));
    assert!(matches!(vm.run(None, 0), Action::Continue));
    let stats = vm.get_execution_stats();
    assert_eq!(stats.len(), 2);
    assert_eq!(stats[0].1 + stats[1].1, 1002);
    assert!(stats[0].1 >= stats[1].1);
}

#[test]
fn execution_counts_are_sorted() {
    let mut vm = VM::new();
    // n = 3; while n > 0: n = n - 1, show n
    let mut chunk = Chunk::new();
    chunk.constants = vec![number(3.0), text("n"), number(0.0), number(1.0)];
    for byte in [0u8, 0, 21, 1, 29, 34, 20, 1, 0, 2, 11, 25, 11, 29, 20, 1, 0, 3, 5, 21, 1, 32, 26, 19, 29, 35, 28] {
        chunk.write_byte(byte, 1);
    }
    let outcome = execute(&mut vm, chunk);
    assert_eq!(outcome.result, Ok(Value::Nil));
    assert_eq!(outcome.shown, vec!["2", "1", "0"]);
    let stats = vm.get_execution_stats();
    for pair in stats.windows(2) {
        assert!(pair[0].1 >= pair[1].1);
    }
    let count_at = |offset: usize| stats.iter().find(|entry| entry.0 == offset).map(|entry| entry.1);
    assert_eq!(count_at(0), Some(1));
    assert_eq!(count_at(5), Some(4));
    assert_eq!(count_at(6), Some(4));
    assert_eq!(count_at(14), Some(3));
    assert_eq!(count_at(22), Some(3));
    assert_eq!(count_at(24), Some(1));
    assert_eq!(count_at(26), Some(1));
    assert_eq!(count_at(1), None);
    assert_eq!(stats.len(), 18);
    vm.reset();
    assert!(vm.get_execution_stats().is_empty());
}

#[test]
fn hot_loops_are_reported() {
    let mut vm = VM::new();
    // loop start; false; loop end; back to the start: the offset behind the
    // loop end is dispatched once a round
    let mut chunk = Chunk::new();
    for byte in [34u8, 3, 29, 35, 26, 6] {
        chunk.write_byte(byte, 1);
    }
    vm.load(chunk);
    let mut reports = 0;
    let mut rounds = 0;
    for _ in 0..(1003 * 5) {
        match vm.step(None) {
            Action::Continue => {}
            Action::HotLoop(offset) => {
                assert_eq!(offset, 4);
                reports += 1;
            }
            other => panic!("{:?}", other),
        }
        rounds += 1;
    }
    assert_eq!(rounds, 5015);
    // the count of offset 4 exceeds 1000 from the 1002nd pass of the loop end on
    assert_eq!(reports, 2);
}

#[test]
fn a_false_while_leaves_the_stack_alone() {
    let source = vec![Statement::While {
        condition: Expression::BooleanLiteral(false),
        body: vec![Statement::Show(Expression::StringLiteral("never".to_string()))],
    }];
    let mut chunk = Compiler::new().compile(&source).unwrap();
    // in place of the final return, fall off the end with what is on the stack
    chunk.code.pop();
    chunk.lines.pop();
    let mut vm = VM::new();
    let outcome = execute(&mut vm, program(&[number(11.0), number(22.0)], &[]));
    assert_eq!(outcome.result, Ok(number(22.0)));
    let outcome = execute(&mut vm, chunk);
    assert!(outcome.shown.is_empty());
    assert_eq!(outcome.result, Ok(number(11.0)));
    let dispatched: Vec<usize> = vm.get_execution_stats().iter().map(|entry| entry.0).collect();
    for offset in 4..8 {
        assert!(!dispatched.contains(&offset));
    }
}

#[test]
fn programs_run() {
    let run = |source: Vec<Statement>| execute(&mut VM::new(), Compiler::new().compile(&source).unwrap());
    let literal = |value: f64| Expression::Literal(value.to_bits());
    let name = |text: &str| Expression::Identifier(text.to_string());
    let assign = |target: &str, value: Expression| Statement::Assignment { name: target.to_string(), value };

    let outcome = run(vec![assign("x", literal(1.0)), assign("x", literal(2.0)), Statement::Show(name("x"))]);
    assert_eq!(outcome.shown, vec!["2"]);
    assert_eq!(outcome.result, Ok(Value::Nil));

    let branch = |condition: bool| Statement::If {
        condition: Expression::BooleanLiteral(condition),
        then_branch: vec![Statement::Show(literal(1.0))],
        else_ifs: vec![(Expression::BooleanLiteral(!condition), vec![Statement::Show(literal(2.0))])],
        else_branch: Some(vec![Statement::Show(literal(3.0))]),
    };
    assert_eq!(run(vec![branch(true), Statement::Show(literal(9.0))]).shown, vec!["1", "9"]);
    assert_eq!(run(vec![branch(false), Statement::Show(literal(9.0))]).shown, vec!["2", "9"]);
    let neither = Statement::If {
        condition: Expression::BooleanLiteral(false),
        then_branch: vec![Statement::Show(literal(1.0))],
        else_ifs: vec![(Expression::BooleanLiteral(false), vec![Statement::Show(literal(2.0))])],
        else_branch: Some(vec![Statement::Show(literal(3.0))]),
    };
    assert_eq!(run(vec![neither]).shown, vec!["3"]);

    let repeat = Statement::Repeat {
        count: literal(3.0),
        body: vec![Statement::Repeat { count: literal(2.0), body: vec![Statement::Show(name("x"))] }],
    };
    let outcome = run(vec![assign("x", Expression::StringLiteral("go".to_string())), repeat]);
    assert_eq!(outcome.shown, vec!["go"; 6]);
    assert_eq!(outcome.result, Ok(Value::Nil));
    assert_eq!(run(vec![Statement::Repeat { count: literal(0.0), body: vec![Statement::Show(literal(1.0))] }]).shown.len(), 0);

    // a local of a block shadows the global in the block and is gone after it
    let block = Statement::If {
        condition: Expression::BooleanLiteral(true),
        then_branch: vec![
            assign("x", literal(5.0)),
            Statement::Show(name("x")),
            assign("x", Expression::binary_op(name("x"), BinaryOperator::Add, literal(1.0))),
            Statement::Show(name("x")),
            assign("y", literal(7.0)),
            Statement::Show(name("y")),
        ],
        else_ifs: vec![],
        else_branch: None,
    };
    let outcome = run(vec![assign("x", literal(1.0)), block, Statement::Show(name("x")), Statement::Show(name("y"))]);
    assert_eq!(outcome.shown, vec!["5", "6", "7", "1"]);
    assert_eq!(outcome.result, Err("Runtime error: Undefined variable 'y' at line 8".to_string()));
}

#[test]
fn a_failed_machine_runs_again() {
    let mut vm = VM::new();
    let outcome = execute(&mut vm, program(&[text("g"), text("kept")], &[19, 0, 1, 1, 7]));
    assert_eq!(outcome.result, Err("Runtime error: Cannot convert nil to number".to_string()));
    assert!(matches!(vm.step(None), Action::Idle));
    let outcome = execute(&mut vm, program(&[text("g")], &[20, 0, 28]));
    assert_eq!(outcome.result, Ok(text("kept")));
    assert!(matches!(LumaError::from("x"), LumaError::RuntimeError(_)));
}
