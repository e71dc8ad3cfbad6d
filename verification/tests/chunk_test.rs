// The bytecode container, the instruction set and the operand stack.
use luma::backend::vm::instruction::OpCode;
use luma::backend::vm::stack::Stack;
use luma::shared::chunk::Chunk;
use luma::shared::value::Value;

fn number(value: f64) -> Value {
    Value::Number(value.to_bits())
}

#[test]
fn opcodes_round_trip_through_bytes() {
    for byte in 0..=255u8 {
        match OpCode::from_byte(byte) {
            Some(opcode) => {
                assert!(byte < 36);
                assert_eq!(opcode.to_byte(), byte);
            }
            None => assert!(byte >= 36),
        }
    }
    assert_eq!(OpCode::from_byte(0), Some(OpCode::OpConstant));
    assert_eq!(OpCode::from_byte(28), Some(OpCode::OpReturn));
    assert_eq!(OpCode::from_byte(35), Some(OpCode::OpLoopEnd));
    assert_eq!(OpCode::OpJumpIfFalse.to_byte(), 25);
    assert_eq!(OpCode::OpPrint.name(), "OpPrint");
    assert_eq!(format!("{:?}", OpCode::OpSwap), OpCode::OpSwap.name());
}

#[test]
fn bytes_and_lines_grow_together() {
    let mut chunk = Chunk::new();
    assert!(chunk.code.is_empty() && chunk.constants.is_empty() && chunk.lines.is_empty());
    chunk.write_byte(7, 3);
    chunk.write_opcode(OpCode::OpAdd, 4);
    assert_eq!(chunk.code, vec![7, 4]);
    assert_eq!(chunk.lines, vec![3, 4]);
    assert_eq!(chunk.get_line(0), 3);
    assert_eq!(chunk.get_line(1), 4);
    assert_eq!(chunk.get_line(2), 0);
    assert!(Chunk::default().code.is_empty());
}

#[test]
fn equal_constants_share_a_slot() {
    let mut chunk = Chunk::new();
    assert_eq!(chunk.add_constant(number(1.0)), 0);
    assert_eq!(chunk.add_constant(Value::String("x".to_string())), 1);
    assert_eq!(chunk.add_constant(number(1.0)), 0);
    assert_eq!(chunk.add_constant(Value::String("x".to_string())), 1);
    assert_eq!(chunk.add_constant(number(-0.0)), 2);
    assert_eq!(chunk.add_constant(number(0.0)), 2);
    assert_eq!(chunk.add_constant(number(f64::NAN)), 3);
    assert_eq!(chunk.add_constant(number(f64::NAN)), 4);
    assert_eq!(chunk.constants.len(), 5);
}

#[test]
fn constant_instruction_holds_the_slot() {
    let mut chunk = Chunk::new();
    assert_eq!(chunk.write_constant(number(9.0), 1), 0);
    assert_eq!(chunk.write_constant(number(8.0), 2), 1);
    assert_eq!(chunk.write_constant(number(9.0), 3), 0);
    assert_eq!(chunk.code, vec![0, 0, 0, 1, 0, 0]);
    assert_eq!(chunk.lines, vec![1, 1, 2, 2, 3, 3]);
}

#[test]
fn constant_operand_is_the_low_byte_of_the_slot() {
    let mut chunk = Chunk::new();
    for i in 0..300 {
        assert_eq!(chunk.write_constant(number(i as f64), 1), i);
    }
    assert_eq!(chunk.code[2 * 255 + 1], 255);
    assert_eq!(chunk.code[2 * 256 + 1], 0);
    assert_eq!(chunk.code[2 * 299 + 1], 43);
}

#[test]
fn jumps_are_patched_to_the_end_of_the_code() {
    let mut chunk = Chunk::new();
    chunk.write_opcode(OpCode::OpTrue, 1);
    let offset = chunk.emit_jump(OpCode::OpJumpIfFalse, 1);
    assert_eq!(offset, 2);
    assert_eq!(chunk.code, vec![2, 25, 0]);
    chunk.write_opcode(OpCode::OpPop, 1);
    chunk.write_opcode(OpCode::OpNil, 1);
    chunk.patch_jump(offset);
    assert_eq!(chunk.code, vec![2, 25, 2, 29, 1]);
    let zero = chunk.emit_jump(OpCode::OpJump, 1);
    chunk.patch_jump(zero);
    assert_eq!(chunk.code[zero], 0);
}

#[test]
fn loops_jump_back_to_their_start() {
    let mut chunk = Chunk::new();
    chunk.write_opcode(OpCode::OpNil, 1);
    let start = chunk.code.len();
    chunk.write_opcode(OpCode::OpLoopStart, 1);
    chunk.write_opcode(OpCode::OpPop, 1);
    chunk.emit_loop(start, 5);
    assert_eq!(chunk.code, vec![1, 34, 29, 26, 4]);
    assert_eq!(chunk.lines, vec![1, 1, 1, 5, 5]);
    // the machine stands behind the operand, at 5, and goes back by 4
    assert_eq!(5 - chunk.code[4] as usize, start);
}

#[test]
fn globals_are_bound_to_their_constants() {
    let mut chunk = Chunk::new();
    assert_eq!(chunk.define_global("a".to_string(), number(1.0)), 0);
    assert_eq!(chunk.define_global("b".to_string(), number(2.0)), 1);
    assert_eq!(chunk.define_global("a".to_string(), number(2.0)), 1);
    assert_eq!(chunk.globals, vec![("a".to_string(), 1), ("b".to_string(), 1)]);
    assert_eq!(chunk.constants.len(), 2);
}

#[test]
fn a_full_stack_refuses_and_keeps_its_values() {
    let mut stack = Stack::new();
    assert!(stack.is_empty());
    for i in 0..256 {
        assert_eq!(stack.push(number(i as f64)), Ok(()));
    }
    assert_eq!(stack.len(), 256);
    assert_eq!(stack.push(Value::Nil), Err("Stack overflow".to_string()));
    assert_eq!(stack.push(Value::Nil), Err("Stack overflow".to_string()));
    assert_eq!(stack.len(), 256);
    for i in 0..256 {
        assert_eq!(stack.peek(i), Ok(&number((255 - i) as f64)));
        assert_eq!(stack.get(i), &number(i as f64));
    }
    for i in (0..256).rev() {
        assert_eq!(stack.pop(), Ok(number(i as f64)));
    }
    assert_eq!(stack.pop(), Err("Stack underflow".to_string()));
    assert!(stack.is_empty());
}

#[test]
fn stack_access_by_distance_and_slot() {
    let mut stack = Stack::default();
    assert_eq!(stack.peek(0), Err("Stack underflow".to_string()));
    stack.push(number(1.0)).unwrap();
    stack.push(number(2.0)).unwrap();
    stack.push(number(3.0)).unwrap();
    assert_eq!(stack.peek(0), Ok(&number(3.0)));
    assert_eq!(stack.peek(2), Ok(&number(1.0)));
    assert_eq!(stack.peek(3), Err("Stack underflow".to_string()));
    *stack.peek_mut(1).unwrap() = Value::Nil;
    assert_eq!(stack.peek(1), Ok(&Value::Nil));
    assert!(stack.peek_mut(3).is_err());
    assert!(stack.set(0, Value::Boolean(true)));
    assert!(!stack.set(3, Value::Boolean(true)));
    assert_eq!(stack.get(0), &Value::Boolean(true));
    stack.reset_to(5);
    assert_eq!(stack.len(), 3);
    stack.reset_to(1);
    assert_eq!(stack.len(), 1);
    assert_eq!(stack.peek(0), Ok(&Value::Boolean(true)));
    stack.clear();
    assert_eq!(stack.len(), 0);
}
