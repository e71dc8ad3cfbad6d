//! What holds of every step of the machine.
use vstd::prelude::*;
use crate::backend::vm::instruction::OpCode;
use crate::backend::vm::stack::STACK_MAX;
use crate::backend::vm::vm::overflow;
use crate::backend::vm::vm::zero_divisor;
use crate::backend::vm::vm::ActionView;
use crate::backend::vm::vm::Coerced;
use crate::backend::vm::vm::Phase;
use crate::backend::vm::vm::VmView;
use crate::shared::host::ArithmeticOp;
use crate::shared::host::HostReplyView;
use crate::shared::host::HostRequestView;
use crate::shared::number;
use crate::shared::value::ValueView;

verus! {

/// `Add` on two values of which one is a string joins their display forms
/// and pushes the text; it asks the host for no arithmetic. (An operand
/// that is a number without an integral value is written by the host
/// first, and is a string from then on.)
pub proof fn add_joins_text(vm: VmView, reply: Option<HostReplyView>)
    requires
        vm.stack.len() >= 2,
        vm.stack.len() <= STACK_MAX,
        vm.ip < usize::MAX,
        vm.stack[vm.stack.len() - 2] is String || vm.stack[vm.stack.len() - 1] is String,
    ensures
        ({
            let left = vm.stack[vm.stack.len() - 2];
            let right = vm.stack[vm.stack.len() - 1];
            let (after, action) = vm.add(reply);
            &&& !(action matches ActionView::Ask(HostRequestView::Arithmetic { .. }))
            &&& !left.needs_writing() && !right.needs_writing() ==> action is Continue && after.stack
                == vm.base().push(ValueView::String(left.to_text(Seq::empty()) + right.to_text(Seq::empty())))
        }),
{
}

/// `Add` on two values of which none is a string never puts a string on
/// the stack: whatever the host replies, the stack is left as it was, or
/// without the two operands, or with a number in their place.
pub proof fn add_of_numbers_gives_no_text(vm: VmView, reply: Option<HostReplyView>)
    requires
        vm.stack.len() >= 2,
        !(vm.stack[vm.stack.len() - 2] is String),
        !(vm.stack[vm.stack.len() - 1] is String),
    ensures
        ({
            let (after, action) = vm.add(reply);
            ||| after.stack == vm.stack
            ||| after.stack == vm.base()
            ||| exists|bits: u64| after.stack == vm.base().push(ValueView::Number(bits))
        }),
{
    let (after, action) = vm.add(reply);
    if let Some(HostReplyView::Number(bits)) = reply {
        if after.stack != vm.stack && after.stack != vm.base() {
            assert(after.stack == vm.base().push(ValueView::Number(bits)));
        }
    }
}

/// Division and modulo by a divisor that coerces to zero fail with the
/// typed error, whatever the host replies; the host is not asked to
/// divide, and both operands leave the stack.
pub proof fn zero_divisor_fails(vm: VmView, op: ArithmeticOp, reply: Option<HostReplyView>)
    requires
        op == ArithmeticOp::Divide || op == ArithmeticOp::Modulo,
        vm.stack.len() >= 2,
        !(vm.stack[vm.stack.len() - 2] is String),
        vm.stack[vm.stack.len() - 2].to_number(None) is Ok,
        !(vm.stack[vm.stack.len() - 1] is String),
        vm.stack[vm.stack.len() - 1].to_number(None) matches Ok(divisor) && number::is_zero(divisor),
    ensures
        vm.arithmetic(op, reply).1 == ActionView::Fail(zero_divisor(op)),
        vm.arithmetic(op, reply).0.stack == vm.base(),
        vm.arithmetic(op, reply).0.phase == Phase::Idle,
{
}

/// Arithmetic on two numbers is the host's: the machine asks for `left op
/// right` and changes nothing, and the number that the host replies takes
/// the place of the operands.
pub proof fn arithmetic_is_the_hosts(vm: VmView, op: ArithmeticOp, left: u64, right: u64, result: u64)
    requires
        vm.stack.len() >= 2,
        vm.stack.len() <= STACK_MAX,
        vm.ip < usize::MAX,
        vm.stack[vm.stack.len() - 2] == ValueView::Number(left),
        vm.stack[vm.stack.len() - 1] == ValueView::Number(right),
        !((op == ArithmeticOp::Divide || op == ArithmeticOp::Modulo) && number::is_zero(right)),
    ensures
        vm.arithmetic(op, None) == (vm, ActionView::Ask(HostRequestView::Arithmetic { op, left, right })),
        vm.arithmetic(op, Some(HostReplyView::Number(result))).1 is Continue,
        vm.arithmetic(op, Some(HostReplyView::Number(result))).0.stack == vm.base().push(
            ValueView::Number(result),
        ),
        vm.arithmetic(op, Some(HostReplyView::Number(result))).0.ip == vm.ip + 1,
{
}

/// A push on a full stack fails with the stack error and leaves every
/// value where it was.
pub proof fn push_on_full_stack_fails(vm: VmView, value: ValueView, ip: int)
    requires
        vm.stack.len() >= STACK_MAX,
    ensures
        vm.push(vm.stack, value, ip).1 == ActionView::Fail(overflow()),
        vm.push(vm.stack, value, ip).0.stack == vm.stack,
{
}

/// What every step keeps: the stack within its bound, the chunk and the
/// threshold as they were, and, where the step ends in a request, the
/// whole machine as it was.
pub open spec fn kept(vm: VmView, after: (VmView, ActionView)) -> bool {
    &&& after.0.stack.len() <= STACK_MAX
    &&& after.0.chunk == vm.chunk
    &&& after.0.hot_threshold == vm.hot_threshold
    &&& after.1 is Ask ==> after.0 == vm
}

proof fn pair_keeps(vm: VmView, reply: Option<HostReplyView>)
    requires
        vm.stack.len() <= STACK_MAX,
    ensures
        !(vm.coerce_pair(reply) is Ready) ==> kept(vm, vm.settle(vm.coerce_pair(reply), vm.base())),
        vm.coerce_pair(reply) is Ready ==> vm.stack.len() >= 2,
        vm.coerce_pair(reply) matches Coerced::Absorb(slot, _) ==> 0 <= slot < vm.stack.len(),
{
}

proof fn arithmetic_keeps(vm: VmView, op: ArithmeticOp, reply: Option<HostReplyView>)
    requires
        vm.stack.len() <= STACK_MAX,
    ensures
        kept(vm, vm.arithmetic(op, reply)),
{
    pair_keeps(vm, reply);
}

proof fn comparison_keeps(vm: VmView, opcode: OpCode, reply: Option<HostReplyView>)
    requires
        vm.stack.len() <= STACK_MAX,
    ensures
        kept(vm, vm.comparison(opcode, reply)),
{
    pair_keeps(vm, reply);
}

proof fn concat_keeps(vm: VmView, reply: Option<HostReplyView>)
    requires
        vm.stack.len() <= STACK_MAX,
    ensures
        kept(vm, vm.concat(reply)),
{
}

proof fn negate_keeps(vm: VmView, reply: Option<HostReplyView>)
    requires
        vm.stack.len() <= STACK_MAX,
    ensures
        kept(vm, vm.negate(reply)),
{
}

proof fn print_keeps(vm: VmView, reply: Option<HostReplyView>)
    requires
        vm.stack.len() <= STACK_MAX,
    ensures
        kept(vm, vm.print(reply)),
{
}

proof fn global_keeps(vm: VmView, opcode: OpCode)
    requires
        vm.stack.len() <= STACK_MAX,
    ensures
        kept(vm, vm.global(opcode)),
{
}

proof fn local_keeps(vm: VmView, opcode: OpCode)
    requires
        vm.stack.len() <= STACK_MAX,
    ensures
        kept(vm, vm.local(opcode)),
{
}

proof fn jump_keeps(vm: VmView, opcode: OpCode)
    requires
        vm.stack.len() <= STACK_MAX,
    ensures
        kept(vm, vm.jump(opcode)),
{
}

proof fn execute_keeps(vm: VmView, opcode: OpCode, reply: Option<HostReplyView>)
    requires
        vm.stack.len() <= STACK_MAX,
    ensures
        kept(vm, vm.execute(opcode, reply)),
{
    match opcode {
        OpCode::OpAdd => {
            concat_keeps(vm, reply);
            arithmetic_keeps(vm, ArithmeticOp::Add, reply);
        },
        OpCode::OpSubtract => {
            arithmetic_keeps(vm, ArithmeticOp::Subtract, reply);
        },
        OpCode::OpMultiply => {
            arithmetic_keeps(vm, ArithmeticOp::Multiply, reply);
        },
        OpCode::OpDivide => {
            arithmetic_keeps(vm, ArithmeticOp::Divide, reply);
        },
        OpCode::OpModulo => {
            arithmetic_keeps(vm, ArithmeticOp::Modulo, reply);
        },
        OpCode::OpNegate => {
            negate_keeps(vm, reply);
        },
        OpCode::OpGreater | OpCode::OpLess | OpCode::OpGreaterEqual | OpCode::OpLessEqual => {
            comparison_keeps(vm, opcode, reply);
        },
        OpCode::OpPrint => {
            print_keeps(vm, reply);
        },
        OpCode::OpDefineGlobal | OpCode::OpGetGlobal | OpCode::OpSetGlobal => {
            global_keeps(vm, opcode);
        },
        OpCode::OpGetLocal | OpCode::OpSetLocal => {
            local_keeps(vm, opcode);
        },
        OpCode::OpJump | OpCode::OpJumpIfFalse | OpCode::OpLoop => {
            jump_keeps(vm, opcode);
        },
        OpCode::OpConcat => {
            concat_keeps(vm, reply);
        },
        _ => {},
    }
}

/// No step makes the stack deeper than its bound, and no step changes the
/// chunk or the threshold. A step that ends in a request leaves the
/// machine as it was: the request can be asked again.
pub proof fn step_keeps_the_machine_sound(vm: VmView, reply: Option<HostReplyView>)
    requires
        vm.stack.len() <= STACK_MAX,
    ensures
        kept(vm, vm.step(reply)),
{
    if vm.phase != Phase::Idle && vm.ip < vm.chunk.code.len() {
        if let Some(opcode) = OpCode::of_byte(vm.chunk.code[vm.ip as int]) {
            execute_keeps(vm, opcode, reply);
        }
    }
}

/// A machine that has nothing to run stays as it is.
pub proof fn idle_machine_stays(vm: VmView, reply: Option<HostReplyView>)
    requires
        vm.phase == Phase::Idle,
    ensures
        vm.step(reply) == (vm, ActionView::Idle),
{
}

} // verus!
