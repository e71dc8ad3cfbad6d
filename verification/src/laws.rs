//! What holds of compiled code when the machine runs it.
use vstd::prelude::*;
use crate::backend::vm::instruction::byte_round_trip;
use crate::backend::vm::instruction::OpCode;
use crate::backend::vm::vm::Phase;
use crate::backend::vm::vm::VmView;
use crate::frontend::ast::BinaryOperator;
use crate::frontend::ast::Expression;
use crate::frontend::ast::Statement;
use crate::frontend::compiler::CompilerView;
use crate::frontend::laws::block_restores_locals;
use crate::frontend::laws::expression_follows;
use crate::frontend::laws::follows;
use crate::frontend::laws::scoped;
use crate::backend::vm::vm::ActionView;
use crate::shared::chunk::ChunkView;
use crate::shared::error::LumaErrorView;
use crate::shared::host::ArithmeticOp;
use crate::shared::host::HostReplyView;
use crate::shared::host::HostRequestView;
use crate::shared::number;
use crate::shared::value::ValueView;

verus! {

/// The code offset of the jump that leaves a `while` compiled from
/// `state`: the end of the code of its condition.
pub open spec fn exit_test(state: CompilerView, condition: Expression) -> int {
    state.emit_opcode(OpCode::OpLoopStart).compile_expression(condition)->Ok_0.chunk.code.len() as int
}

/// The machine runs the bytes that the compiler wrote from `from` up to
/// the end of `code`.
pub open spec fn runs(vm: VmView, code: Seq<u8>, from: int) -> bool {
    &&& code.len() <= vm.chunk.code.len() <= usize::MAX
    &&& forall|i: int| from <= i < code.len() ==> vm.chunk.code[i] == code[i]
}

/// A `while` whose condition has come out not truthy runs no instruction
/// of its body: from the jump that tests the condition the machine takes
/// three steps, the jump, a `Pop` and the loop's end marker, and stands
/// behind the loop with the stack as it was before the condition was
/// pushed, and with the globals unchanged.
pub proof fn false_while_skips_its_body(
    state: CompilerView,
    condition: Expression,
    body: Vec<Statement>,
    vm: VmView,
)
    requires
        scoped(state),
        state.compile_statement(Statement::While { condition, body }) is Ok,
        runs(
            vm,
            state.compile_statement(Statement::While { condition, body })->Ok_0.chunk.code,
            state.chunk.code.len() as int,
        ),
        vm.phase == Phase::Running,
        vm.ip == exit_test(state, condition),
        vm.stack.len() >= 1,
        !vm.stack.last().is_truthy(),
    ensures
        ({
            let end = state.compile_statement(Statement::While { condition, body })->Ok_0.chunk.code.len();
            let (first, jumped) = vm.step(None);
            let (second, popped) = first.step(None);
            let (third, ended) = second.step(None);
            &&& jumped is Continue
            &&& popped is Continue
            &&& ended is Continue || ended is HotLoop
            &&& first.ip == end - 2
            &&& third.ip == end
            &&& third.stack == vm.stack.drop_last()
            &&& third.globals == vm.globals
            &&& forall|offset: usize|
                vm.ip < offset < end - 2 ==> third.counts.contains_key(offset) == vm.counts.contains_key(offset)
                    && third.counts[offset] == vm.counts[offset]
        }),
{
    let marked = state.emit_opcode(OpCode::OpLoopStart);
    expression_follows(marked, condition);
    let tested = marked.compile_expression(condition)->Ok_0;
    let test_at = tested.chunk.code.len() as int;
    let entered = tested.emit_jump(OpCode::OpJumpIfFalse).emit_opcode(OpCode::OpPop);
    assert(follows(state, marked));
    assert(scoped(entered)) by {
        assert forall|i: int| 0 <= i < entered.locals.len() implies ((#[trigger] entered.locals[i]).depth matches Some(
            depth,
        ) && depth <= entered.scope_depth) by {
            assert(entered.locals[i] == state.locals[i]);
        }
    }
    block_restores_locals(entered, body@);
    let done = entered.compile_block(body@)->Ok_0;
    let looped = done.emit_loop(state.chunk.code.len() as int)->Ok_0;
    let patched = looped.patch_jump(test_at + 1)->Ok_0;
    let after = patched.emit_opcode(OpCode::OpPop).emit_opcode(OpCode::OpLoopEnd);
    assert(state.compile_statement(Statement::While { condition, body }) == Ok::<
        CompilerView,
        crate::shared::error::LumaErrorView,
    >(after));
    let body_end = done.chunk.code.len() as int;
    assert(entered.chunk.code[test_at] == OpCode::OpJumpIfFalse.byte());
    assert(done.chunk.code[test_at] == entered.chunk.code[test_at]);
    assert(after.chunk.code[test_at] == OpCode::OpJumpIfFalse.byte());
    assert(after.chunk.code[test_at + 1] == (body_end - test_at) as u8);
    assert(after.chunk.code[body_end + 2] == OpCode::OpPop.byte());
    assert(after.chunk.code[body_end + 3] == OpCode::OpLoopEnd.byte());
    assert(after.chunk.code.len() == body_end + 4);
    byte_round_trip(OpCode::OpJumpIfFalse);
    byte_round_trip(OpCode::OpPop);
    byte_round_trip(OpCode::OpLoopEnd);
    assert(vm.chunk.code[test_at] == after.chunk.code[test_at]);
    assert(vm.chunk.code[test_at + 1] == after.chunk.code[test_at + 1]);
    assert(vm.chunk.code[body_end + 2] == after.chunk.code[body_end + 2]);
    assert(vm.chunk.code[body_end + 3] == after.chunk.code[body_end + 3]);
    let (first, jumped) = vm.step(None);
    assert(first.ip == body_end + 2);
    assert(first.stack == vm.stack);
    let (second, popped) = first.step(None);
    assert(second.ip == body_end + 3);
    let (third, ended) = second.step(None);
    assert(third.ip == body_end + 4);
}

/// The arithmetic that a binary operator of the language asks of the
/// host, if it asks for any.
pub open spec fn arithmetic_of(operator: BinaryOperator) -> Option<ArithmeticOp> {
    match operator {
        BinaryOperator::Add => Some(ArithmeticOp::Add),
        BinaryOperator::Subtract => Some(ArithmeticOp::Subtract),
        BinaryOperator::Multiply => Some(ArithmeticOp::Multiply),
        BinaryOperator::Divide => Some(ArithmeticOp::Divide),
        BinaryOperator::Modulo => Some(ArithmeticOp::Modulo),
        _ => None,
    }
}

/// The program that shows `left operator right` for two number literals.
pub open spec fn shown_operation(left: u64, operator: BinaryOperator, right: u64) -> Seq<Statement> {
    seq![
        Statement::Show(
            Expression::BinaryOp {
                left: Box::new(Expression::Literal(left)),
                operator,
                right: Box::new(Expression::Literal(right)),
            },
        ),
    ]
}

/// An arithmetic operation on two number literals compiles, and a new
/// machine that runs it asks the host for exactly that operation on
/// exactly those numbers; the number that the host replies is then the
/// only value on the stack, ready to be shown. (Two literals that are
/// equal as numbers share a constant, so they are taken to be the same
/// bits; a zero divisor is left out, which fails instead.)
pub proof fn literal_arithmetic_is_asked_of_the_host(
    left: u64,
    operator: BinaryOperator,
    right: u64,
    result: u64,
)
    requires
        arithmetic_of(operator) is Some,
        left == right || !number::equal(left, right),
        !((operator == BinaryOperator::Divide || operator == BinaryOperator::Modulo) && number::is_zero(right)),
    ensures
        ({
            let compiled = CompilerView::fresh().compile(shown_operation(left, operator, right));
            let op = arithmetic_of(operator)->Some_0;
            &&& compiled is Ok
            &&& ({
                let (asking, asked) = VmView::fresh().load(compiled->Ok_0).run(None, 2);
                &&& asked == ActionView::Ask(HostRequestView::Arithmetic { op, left, right })
                &&& asking.step(Some(HostReplyView::Number(result))).1 is Continue
                &&& asking.step(Some(HostReplyView::Number(result))).0.stack == seq![ValueView::Number(result)]
            })
        }),
{
    let program = shown_operation(left, operator, right);
    let start = CompilerView::fresh();
    let lined = CompilerView { current_line: 2, ..start };
    let first = ValueView::Number(left);
    let second = ValueView::Number(right);
    assert(program.len() == 1);
    reveal_with_fuel(CompilerView::compile_program, 3);
    reveal_with_fuel(CompilerView::compile_expression, 3);
    reveal_with_fuel(crate::shared::chunk::position_from, 3);
    let after_left = lined.emit_constant(first, OpCode::OpConstant);
    assert(lined.chunk.constant_slot(first) == 0);
    assert(after_left.chunk.constants =~= seq![first]);
    assert(after_left.chunk.code =~= seq![0u8, 0u8]);
    let slot = after_left.chunk.constant_slot(second);
    assert(slot == (if first.equals(second) {
        0int
    } else {
        1int
    }));
    let after_right = after_left.emit_constant(second, OpCode::OpConstant);
    assert(after_right.chunk.constants[0] == first);
    assert(after_right.chunk.constants[slot] == second);
    assert(after_right.chunk.code =~= seq![0u8, 0u8, 0u8, slot as u8]);
    let opcode = crate::frontend::compiler::binary_opcode(operator);
    let shown = after_right.emit_opcode(opcode).emit_opcode(OpCode::OpPrint);
    assert(lined.compile_statement(program[0]) == Ok::<CompilerView, LumaErrorView>(shown));
    let chunk = shown.emit_opcode(OpCode::OpReturn).chunk;
    assert(start.compile(program) == Ok::<ChunkView, LumaErrorView>(chunk));
    assert(chunk.code =~= seq![0u8, 0u8, 0u8, slot as u8, opcode.byte(), 32u8, 28u8]);
    byte_round_trip(OpCode::OpConstant);
    byte_round_trip(opcode);
    let vm = VmView::fresh().load(chunk);
    let (one, pushed_left) = vm.step(None);
    assert(pushed_left is Continue);
    assert(one.stack =~= seq![first]);
    assert(one.ip == 2);
    let (two, pushed_right) = one.step(None);
    assert(pushed_right is Continue);
    assert(two.stack =~= seq![first, second]);
    assert(two.ip == 4);
    let op = arithmetic_of(operator)->Some_0;
    assert(two.execute(opcode, None) == two.arithmetic(op, None));
    let (three, asked) = two.step(None);
    assert(asked == ActionView::Ask(HostRequestView::Arithmetic { op, left, right }));
    assert(three == two);
    reveal_with_fuel(VmView::run_on, 3);
    assert(vm.run(None, 2) == (two, asked));
    let reply = Some(HostReplyView::Number(result));
    assert(two.execute(opcode, reply) == two.arithmetic(op, reply));
    assert(two.base() =~= Seq::<ValueView>::empty());
    assert(two.step(reply).0.stack =~= seq![ValueView::Number(result)]);
}

} // verus!
