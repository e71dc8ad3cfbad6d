//! The virtual machine.
//!
//! The machine runs one instruction at a time. Whatever is floating-point
//! work or output it leaves to its host: a step may end in a request, and
//! the next step takes the reply.
use vstd::prelude::*;
use crate::backend::vm::instruction::OpCode;
use crate::backend::vm::stack::Stack;
use crate::backend::vm::stack::STACK_MAX;
use crate::backend::vm::tables::CountTable;
use crate::backend::vm::tables::GlobalTable;
use crate::shared::chunk::Chunk;
use crate::shared::chunk::ChunkView;
use crate::shared::error::LumaError;
use crate::shared::error::LumaErrorView;
use crate::shared::host::ArithmeticOp;
use crate::shared::host::HostReply;
use crate::shared::host::HostReplyView;
use crate::shared::host::HostRequest;
use crate::shared::host::HostRequestView;
use crate::shared::host::reply_view;
use crate::shared::number;
use crate::shared::text;
use crate::shared::value::Value;
use crate::shared::value::ValueView;

verus! {

/// Where a machine stands in a run.
#[derive(Debug, Clone, Copy, PartialEq, Eq, Structural)]
pub enum Phase {
    /// Nothing to run: no chunk was loaded, or the run has ended.
    Idle,
    /// A chunk was loaded and no instruction of it has run.
    Ready,
    /// At least one instruction has run.
    Running,
}

/// What a step of the machine ended in.
#[derive(Debug)]
pub enum Action {
    /// The run goes on.
    Continue,
    /// The host is asked for something; the next step takes its reply.
    Ask(HostRequest),
    /// The program shows `value`, whose display form is `text`.
    Print { value: Value, text: String },
    /// A loop ended at a code offset that was dispatched more often than
    /// the machine's threshold.
    HotLoop(usize),
    /// The run ended with this value.
    Halt(Value),
    /// The run failed.
    Fail(LumaError),
    /// There is nothing to run.
    Idle,
}

pub enum ActionView {
    Continue,
    Ask(HostRequestView),
    Print { value: ValueView, text: Seq<char> },
    HotLoop(usize),
    Halt(ValueView),
    Fail(LumaErrorView),
    Idle,
}

impl View for Action {
    type V = ActionView;

    open spec fn view(&self) -> ActionView {
        match self {
            Action::Continue => ActionView::Continue,
            Action::Ask(request) => ActionView::Ask(request@),
            Action::Print { value, text } => ActionView::Print { value: value@, text: text@ },
            Action::HotLoop(offset) => ActionView::HotLoop(*offset),
            Action::Halt(value) => ActionView::Halt(value@),
            Action::Fail(error) => ActionView::Fail(error@),
            Action::Idle => ActionView::Idle,
        }
    }
}

pub struct VM {
    chunk: Chunk,
    ip: usize,
    stack: Stack,
    globals: GlobalTable,
    execution_count: CountTable,
    hot_threshold: u64,
    phase: Phase,
}

/// The state of a machine: the chunk it runs, the offset of the next
/// instruction, the operand stack (the top last), the globals, how often
/// each offset was dispatched, the count above which a loop is hot, and
/// the phase of the run.
pub struct VmView {
    pub chunk: ChunkView,
    pub ip: usize,
    pub stack: Seq<ValueView>,
    pub globals: Map<Seq<char>, ValueView>,
    pub counts: Map<usize, u64>,
    pub hot_threshold: u64,
    pub phase: Phase,
}

impl View for VM {
    type V = VmView;

    closed spec fn view(&self) -> VmView {
        VmView {
            chunk: self.chunk@,
            ip: self.ip,
            stack: self.stack@,
            globals: self.globals@,
            counts: self.execution_count@,
            hot_threshold: self.hot_threshold,
            phase: self.phase,
        }
    }
}

/// The count above which a loop is reported as hot.
pub const HOT_THRESHOLD: u64 = 1000;

pub open spec fn out_of_bounds() -> LumaErrorView {
    LumaErrorView::RuntimeError("Instruction pointer out of bounds"@)
}

pub open spec fn underflow() -> LumaErrorView {
    LumaErrorView::StackError("Stack underflow"@)
}

pub open spec fn overflow() -> LumaErrorView {
    LumaErrorView::StackError("Stack overflow"@)
}

pub open spec fn unknown_opcode(byte: u8) -> LumaErrorView {
    LumaErrorView::RuntimeError("Unknown opcode: "@ + text::decimal(byte as nat))
}

pub open spec fn unimplemented_opcode(opcode: OpCode) -> LumaErrorView {
    LumaErrorView::RuntimeError("Unimplemented opcode: "@ + opcode.name_text())
}

pub open spec fn constant_out_of_bounds(index: int) -> LumaErrorView {
    LumaErrorView::RuntimeError("Constant index "@ + text::decimal(index as nat) + " out of bounds"@)
}

pub open spec fn local_out_of_bounds(slot: int) -> LumaErrorView {
    LumaErrorView::RuntimeError("Local slot "@ + text::decimal(slot as nat) + " out of bounds"@)
}

pub open spec fn not_a_name() -> LumaErrorView {
    LumaErrorView::RuntimeError("Expected string constant"@)
}

pub open spec fn undefined_variable(name: Seq<char>, line: usize) -> LumaErrorView {
    LumaErrorView::RuntimeError(
        "Undefined variable '"@ + name + "' at line "@ + text::decimal(line as nat),
    )
}

pub open spec fn zero_divisor(op: ArithmeticOp) -> LumaErrorView {
    if op == ArithmeticOp::Modulo {
        LumaErrorView::RuntimeError("Modulo by zero"@)
    } else {
        LumaErrorView::RuntimeError("Division by zero"@)
    }
}

/// The count after one more dispatch; it stays at the largest count.
pub open spec fn next_count(counts: Map<usize, u64>, offset: usize) -> u64 {
    if !counts.contains_key(offset) {
        1
    } else if counts[offset] < u64::MAX {
        (counts[offset] + 1) as u64
    } else {
        u64::MAX
    }
}

/// The last line before `upto` that is not 0, or 0 if there is none.
pub open spec fn last_line_before(lines: Seq<usize>, upto: int) -> usize
    decreases upto,
{
    if upto <= 0 {
        0
    } else if lines[upto - 1] > 0 {
        lines[upto - 1]
    } else {
        last_line_before(lines, upto - 1)
    }
}

/// The source line for the code offset `offset`: the line recorded there,
/// else the nearest one recorded before it, else an estimate of three
/// instructions to a line.
pub open spec fn line_at(lines: Seq<usize>, offset: int) -> usize {
    if 0 <= offset < lines.len() && lines[offset] > 0 {
        lines[offset]
    } else {
        let upto = if offset < lines.len() {
            offset
        } else {
            lines.len() as int
        };
        if last_line_before(lines, upto) > 0 {
            last_line_before(lines, upto)
        } else {
            (offset / 3 + 1) as usize
        }
    }
}

/// What two operands coerce to.
pub enum Coerced {
    /// Fewer than two values are on the stack.
    Underflow,
    /// The reply was the number of the string at this slot.
    Absorb(int, u64),
    /// The host is to read the text of a string operand.
    Ask(Seq<char>),
    /// An operand has no number.
    Invalid(Seq<char>),
    /// The two numbers.
    Ready(u64, u64),
}

pub open spec fn compare(opcode: OpCode, left: u64, right: u64) -> bool {
    match opcode {
        OpCode::OpGreater => number::less(right, left),
        OpCode::OpLess => number::less(left, right),
        OpCode::OpGreaterEqual => number::less_equal(right, left),
        _ => number::less_equal(left, right),
    }
}

impl VmView {
    /// A machine as `VM::new` makes it.
    pub open spec fn fresh() -> VmView {
        VmView {
            chunk: ChunkView::empty(),
            ip: 0,
            stack: Seq::empty(),
            globals: Map::empty(),
            counts: Map::empty(),
            hot_threshold: HOT_THRESHOLD,
            phase: Phase::Idle,
        }
    }

    /// The machine with `chunk` loaded, at its first instruction.
    pub open spec fn load(self, chunk: ChunkView) -> VmView {
        VmView { chunk, ip: 0, phase: Phase::Ready, ..self }
    }

    /// The machine as `reset` leaves it.
    pub open spec fn reset(self) -> VmView {
        VmView { hot_threshold: self.hot_threshold, ..Self::fresh() }
    }

    /// One more dispatch at the current offset.
    pub open spec fn bumped(self) -> VmView {
        VmView { counts: self.counts.insert(self.ip, next_count(self.counts, self.ip)), ..self }
    }

    /// The instruction fails and the run ends.
    pub open spec fn fail(self, error: LumaErrorView) -> (VmView, ActionView) {
        (VmView { phase: Phase::Idle, ..self.bumped() }, ActionView::Fail(error))
    }

    /// The instruction fails and leaves `stack`.
    pub open spec fn fail_leaving(self, stack: Seq<ValueView>, error: LumaErrorView) -> (VmView, ActionView) {
        VmView { stack, ..self }.fail(error)
    }

    /// The instruction is done: the stack is `stack` and the next
    /// instruction is at `ip`.
    pub open spec fn proceed(self, stack: Seq<ValueView>, ip: int) -> (VmView, ActionView) {
        if ip > usize::MAX {
            self.fail_leaving(stack, out_of_bounds())
        } else {
            (VmView { stack, ip: ip as usize, phase: Phase::Running, ..self.bumped() }, ActionView::Continue)
        }
    }

    /// The instruction is done once `value` is pushed on `base`.
    pub open spec fn push(self, base: Seq<ValueView>, value: ValueView, ip: int) -> (VmView, ActionView) {
        if base.len() >= STACK_MAX {
            self.fail_leaving(base, overflow())
        } else {
            self.proceed(base.push(value), ip)
        }
    }

    /// The reply is taken into slot `slot`; the instruction is tried again
    /// at the next step.
    pub open spec fn absorb(self, slot: int, value: ValueView) -> (VmView, ActionView) {
        (VmView { stack: self.stack.update(slot, value), ..self }, ActionView::Continue)
    }

    pub open spec fn ask(self, request: HostRequestView) -> (VmView, ActionView) {
        (self, ActionView::Ask(request))
    }

    /// The byte after the instruction tag.
    pub open spec fn operand(self) -> Option<u8> {
        if self.ip + 1 < self.chunk.code.len() {
            Some(self.chunk.code[self.ip + 1])
        } else {
            None
        }
    }

    pub open spec fn constant(self, index: int) -> Result<ValueView, LumaErrorView> {
        if 0 <= index < self.chunk.constants.len() {
            Ok(self.chunk.constants[index])
        } else {
            Err(constant_out_of_bounds(index))
        }
    }

    pub open spec fn constant_name(self, index: int) -> Result<Seq<char>, LumaErrorView> {
        match self.constant(index) {
            Ok(ValueView::String(name)) => Ok(name),
            Ok(_) => Err(not_a_name()),
            Err(e) => Err(e),
        }
    }

    /// The stack below the top two values.
    pub open spec fn base(self) -> Seq<ValueView> {
        self.stack.take(self.stack.len() - 2)
    }

    /// The numeric coercion of the top two values, the lower one first. A
    /// string is read by the host, and the reply takes its place.
    pub open spec fn coerce_pair(self, reply: Option<HostReplyView>) -> Coerced {
        let n = self.stack.len() as int;
        if n < 2 {
            Coerced::Underflow
        } else {
            let left = self.stack[n - 2];
            let right = self.stack[n - 1];
            match Self::coerce(left, n - 2, reply) {
                Coerced::Ready(x, _) => match Self::coerce(right, n - 1, reply) {
                    Coerced::Ready(y, _) => Coerced::Ready(x, y),
                    other => other,
                },
                other => other,
            }
        }
    }

    /// The numeric coercion of the value in slot `slot`; a number comes
    /// back as both parts of `Ready`.
    pub open spec fn coerce(value: ValueView, slot: int, reply: Option<HostReplyView>) -> Coerced {
        match value {
            ValueView::String(s) => match reply {
                Some(HostReplyView::Number(bits)) => Coerced::Absorb(slot, bits),
                Some(HostReplyView::NotANumber) => Coerced::Invalid(value.to_number(None)->Err_0),
                _ => Coerced::Ask(s),
            },
            _ => match value.to_number(None) {
                Ok(bits) => Coerced::Ready(bits, bits),
                Err(message) => Coerced::Invalid(message),
            },
        }
    }

    /// What a coercion that did not give its numbers ends the step in. An
    /// operand without a number fails the instruction, which leaves
    /// `remains` on the stack.
    pub open spec fn settle(self, coerced: Coerced, remains: Seq<ValueView>) -> (VmView, ActionView) {
        match coerced {
            Coerced::Underflow => self.fail_leaving(Seq::empty(), underflow()),
            Coerced::Absorb(slot, bits) => self.absorb(slot, ValueView::Number(bits)),
            Coerced::Ask(s) => self.ask(HostRequestView::ReadNumber(s)),
            Coerced::Invalid(message) => self.fail_leaving(remains, LumaErrorView::RuntimeError(message)),
            Coerced::Ready(_, _) => (self, ActionView::Continue),
        }
    }

    /// Arithmetic on the top two values. A zero divisor fails; any other
    /// pair of numbers goes to the host, whose reply is the result.
    pub open spec fn arithmetic(self, op: ArithmeticOp, reply: Option<HostReplyView>) -> (VmView, ActionView) {
        match self.coerce_pair(reply) {
            Coerced::Ready(x, y) => {
                if (op == ArithmeticOp::Divide || op == ArithmeticOp::Modulo) && number::is_zero(y) {
                    self.fail_leaving(self.base(), zero_divisor(op))
                } else {
                    match reply {
                        Some(HostReplyView::Number(bits)) => self.push(
                            self.base(),
                            ValueView::Number(bits),
                            self.ip + 1,
                        ),
                        _ => self.ask(HostRequestView::Arithmetic { op, left: x, right: y }),
                    }
                }
            },
            other => self.settle(other, self.base()),
        }
    }

    /// The display forms of the top two values, joined. A number that is
    /// not integral is written by the host, and the reply takes its place.
    pub open spec fn concat(self, reply: Option<HostReplyView>) -> (VmView, ActionView) {
        let n = self.stack.len() as int;
        if n < 2 {
            self.fail_leaving(Seq::empty(), underflow())
        } else {
            let left = self.stack[n - 2];
            let right = self.stack[n - 1];
            if left.needs_writing() {
                self.write_operand(n - 2, reply)
            } else if right.needs_writing() {
                self.write_operand(n - 1, reply)
            } else {
                self.push(
                    self.base(),
                    ValueView::String(left.to_text(Seq::empty()) + right.to_text(Seq::empty())),
                    self.ip + 1,
                )
            }
        }
    }

    /// The number in slot `slot` is to be written by the host.
    pub open spec fn write_operand(self, slot: int, reply: Option<HostReplyView>) -> (VmView, ActionView) {
        match reply {
            Some(HostReplyView::Text(written)) => self.absorb(slot, ValueView::String(written)),
            _ => self.ask(HostRequestView::WriteNumber(self.stack[slot]->Number_0)),
        }
    }

    /// `Add`: joined text as soon as one operand is a string, else the sum.
    pub open spec fn add(self, reply: Option<HostReplyView>) -> (VmView, ActionView) {
        let n = self.stack.len() as int;
        if n >= 2 && (self.stack[n - 2] is String || self.stack[n - 1] is String) {
            self.concat(reply)
        } else {
            self.arithmetic(ArithmeticOp::Add, reply)
        }
    }

    /// A numeric comparison of the top two values.
    pub open spec fn comparison(self, opcode: OpCode, reply: Option<HostReplyView>) -> (VmView, ActionView) {
        match self.coerce_pair(reply) {
            Coerced::Ready(x, y) => self.push(self.base(), ValueView::Boolean(compare(opcode, x, y)), self.ip + 1),
            other => self.settle(other, self.base()),
        }
    }

    /// Structural equality of the top two values, or its negation.
    pub open spec fn equality(self, negated: bool) -> (VmView, ActionView) {
        let n = self.stack.len() as int;
        if n < 2 {
            self.fail_leaving(Seq::empty(), underflow())
        } else {
            self.push(
                self.base(),
                ValueView::Boolean(self.stack[n - 2].equals(self.stack[n - 1]) != negated),
                self.ip + 1,
            )
        }
    }

    pub open spec fn negate(self, reply: Option<HostReplyView>) -> (VmView, ActionView) {
        let n = self.stack.len() as int;
        if n < 1 {
            self.fail(underflow())
        } else {
            match Self::coerce(self.stack[n - 1], n - 1, reply) {
                Coerced::Ready(x, _) => self.push(
                    self.stack.drop_last(),
                    ValueView::Number(number::negated(x)),
                    self.ip + 1,
                ),
                other => self.settle(other, self.stack.drop_last()),
            }
        }
    }

    /// `Print`: the top value leaves the stack and is shown.
    pub open spec fn print(self, reply: Option<HostReplyView>) -> (VmView, ActionView) {
        let n = self.stack.len() as int;
        if n < 1 {
            self.fail(underflow())
        } else {
            let value = self.stack[n - 1];
            let shown = VmView {
                stack: self.stack.drop_last(),
                ip: (self.ip + 1) as usize,
                phase: Phase::Running,
                ..self.bumped()
            };
            if value.needs_writing() {
                match reply {
                    Some(HostReplyView::Text(written)) => (shown, ActionView::Print { value, text: written }),
                    _ => self.ask(HostRequestView::WriteNumber(value->Number_0)),
                }
            } else {
                (shown, ActionView::Print { value, text: value.to_text(Seq::empty()) })
            }
        }
    }

    /// An instruction whose operand names a global.
    pub open spec fn global(self, opcode: OpCode) -> (VmView, ActionView) {
        let n = self.stack.len() as int;
        match self.operand() {
            None => self.fail(out_of_bounds()),
            Some(index) => match self.constant_name(index as int) {
                Err(e) => self.fail(e),
                Ok(name) => match opcode {
                    OpCode::OpGetGlobal => if self.globals.contains_key(name) {
                        self.push(self.stack, self.globals[name], self.ip + 2)
                    } else {
                        self.fail(undefined_variable(name, line_at(self.chunk.lines, self.ip + 2)))
                    },
                    OpCode::OpDefineGlobal => if n < 1 {
                        self.fail(underflow())
                    } else {
                        VmView { globals: self.globals.insert(name, self.stack[n - 1]), ..self }.proceed(
                            self.stack.drop_last(),
                            self.ip + 2,
                        )
                    },
                    _ => if n < 1 {
                        self.fail(underflow())
                    } else {
                        VmView { globals: self.globals.insert(name, self.stack[n - 1]), ..self }.proceed(
                            self.stack,
                            self.ip + 2,
                        )
                    },
                },
            },
        }
    }

    /// An instruction whose operand is a stack slot.
    pub open spec fn local(self, opcode: OpCode) -> (VmView, ActionView) {
        let n = self.stack.len() as int;
        match self.operand() {
            None => self.fail(out_of_bounds()),
            Some(slot) => if opcode == OpCode::OpGetLocal {
                if slot >= n {
                    self.fail(local_out_of_bounds(slot as int))
                } else {
                    self.push(self.stack, self.stack[slot as int], self.ip + 2)
                }
            } else {
                if n < 1 {
                    self.fail(underflow())
                } else if slot >= n {
                    self.fail(local_out_of_bounds(slot as int))
                } else {
                    self.proceed(self.stack.update(slot as int, self.stack[n - 1]), self.ip + 2)
                }
            },
        }
    }

    /// A jump: forward, forward if the top value is not truthy, or
    /// backward, by the operand.
    pub open spec fn jump(self, opcode: OpCode) -> (VmView, ActionView) {
        let n = self.stack.len() as int;
        match self.operand() {
            None => self.fail(out_of_bounds()),
            Some(offset) => match opcode {
                OpCode::OpJump => self.proceed(self.stack, self.ip + 2 + offset),
                OpCode::OpJumpIfFalse => if n < 1 {
                    self.fail(underflow())
                } else if self.stack[n - 1].is_truthy() {
                    self.proceed(self.stack, self.ip + 2)
                } else {
                    self.proceed(self.stack, self.ip + 2 + offset)
                },
                _ => if offset > self.ip + 2 {
                    self.fail(out_of_bounds())
                } else {
                    self.proceed(self.stack, self.ip + 2 - offset)
                },
            },
        }
    }

    /// The run ends with the top value, which leaves the stack, or with
    /// `nil` on an empty stack.
    pub open spec fn finish(self) -> (VmView, ActionView) {
        if self.stack.len() == 0 {
            (VmView { phase: Phase::Idle, ..self }, ActionView::Halt(ValueView::Nil))
        } else {
            (
                VmView { stack: self.stack.drop_last(), phase: Phase::Idle, ..self },
                ActionView::Halt(self.stack.last()),
            )
        }
    }

    /// `LoopEnd`: the run goes on; a loop whose next offset was dispatched
    /// more often than the threshold is reported.
    pub open spec fn loop_end(self) -> (VmView, ActionView) {
        let next = (self.ip + 1) as usize;
        let after = VmView { ip: next, phase: Phase::Running, ..self.bumped() };
        if after.counts.contains_key(next) && after.counts[next] > self.hot_threshold {
            (after, ActionView::HotLoop(next))
        } else {
            (after, ActionView::Continue)
        }
    }

    /// What the instruction `opcode` at the current offset does.
    pub open spec fn execute(self, opcode: OpCode, reply: Option<HostReplyView>) -> (VmView, ActionView) {
        let n = self.stack.len() as int;
        match opcode {
            OpCode::OpConstant => match self.operand() {
                None => self.fail(out_of_bounds()),
                Some(index) => match self.constant(index as int) {
                    Err(e) => self.fail(e),
                    Ok(value) => self.push(self.stack, value, self.ip + 2),
                },
            },
            OpCode::OpNil => self.push(self.stack, ValueView::Nil, self.ip + 1),
            OpCode::OpTrue => self.push(self.stack, ValueView::Boolean(true), self.ip + 1),
            OpCode::OpFalse => self.push(self.stack, ValueView::Boolean(false), self.ip + 1),
            OpCode::OpAdd => self.add(reply),
            OpCode::OpSubtract => self.arithmetic(ArithmeticOp::Subtract, reply),
            OpCode::OpMultiply => self.arithmetic(ArithmeticOp::Multiply, reply),
            OpCode::OpDivide => self.arithmetic(ArithmeticOp::Divide, reply),
            OpCode::OpModulo => self.arithmetic(ArithmeticOp::Modulo, reply),
            OpCode::OpNegate => self.negate(reply),
            OpCode::OpEqual => self.equality(false),
            OpCode::OpNotEqual => self.equality(true),
            OpCode::OpGreater | OpCode::OpLess | OpCode::OpGreaterEqual | OpCode::OpLessEqual => self.comparison(
                opcode,
                reply,
            ),
            OpCode::OpNot => if n < 1 {
                self.fail(underflow())
            } else {
                self.push(self.stack.drop_last(), ValueView::Boolean(!self.stack[n - 1].is_truthy()), self.ip + 1)
            },
            OpCode::OpPrint => self.print(reply),
            OpCode::OpPop => if n < 1 {
                self.fail(underflow())
            } else {
                self.proceed(self.stack.drop_last(), self.ip + 1)
            },
            OpCode::OpDefineGlobal | OpCode::OpGetGlobal | OpCode::OpSetGlobal => self.global(opcode),
            OpCode::OpGetLocal | OpCode::OpSetLocal => self.local(opcode),
            OpCode::OpJump | OpCode::OpJumpIfFalse | OpCode::OpLoop => self.jump(opcode),
            OpCode::OpReturn => self.bumped().finish(),
            OpCode::OpConcat => self.concat(reply),
            OpCode::OpLoopStart => self.proceed(self.stack, self.ip + 1),
            OpCode::OpLoopEnd => self.loop_end(),
            OpCode::OpAnd | OpCode::OpOr | OpCode::OpCall | OpCode::OpDup | OpCode::OpSwap => self.fail(
                unimplemented_opcode(opcode),
            ),
        }
    }

    /// One step of the machine. A run that has reached the end of the code
    /// ends with the top of the stack; otherwise the instruction at the
    /// current offset is dispatched.
    pub open spec fn step(self, reply: Option<HostReplyView>) -> (VmView, ActionView) {
        if self.phase == Phase::Idle {
            (self, ActionView::Idle)
        } else if self.ip >= self.chunk.code.len() {
            if self.phase == Phase::Running {
                self.finish()
            } else {
                self.fail(out_of_bounds())
            }
        } else {
            match OpCode::of_byte(self.chunk.code[self.ip as int]) {
                None => self.fail(unknown_opcode(self.chunk.code[self.ip as int])),
                Some(opcode) => self.execute(opcode, reply),
            }
        }
    }

    /// The run after a step ended in `Continue`: up to `budget` more steps
    /// while they end in `Continue` too.
    pub open spec fn run_on(self, budget: nat) -> (VmView, ActionView)
        decreases budget,
    {
        if budget == 0 {
            (self, ActionView::Continue)
        } else {
            let (next, action) = self.step(None);
            if action is Continue {
                next.run_on((budget - 1) as nat)
            } else {
                (next, action)
            }
        }
    }

    /// The step that takes `reply`, and up to `budget` more steps while
    /// the run goes on without the host.
    pub open spec fn run(self, reply: Option<HostReplyView>, budget: nat) -> (VmView, ActionView) {
        let (next, action) = self.step(reply);
        if action is Continue {
            next.run_on(budget)
        } else {
            (next, action)
        }
    }
}

fn is_continue(action: &Action) -> (r: bool)
    ensures
        r == (action@ is Continue),
{
    match action {
        Action::Continue => true,
        _ => false,
    }
}

fn runtime_failure(message: &str) -> (e: LumaError)
    ensures
        e@ == LumaErrorView::RuntimeError(message@),
{
    LumaError::RuntimeError(String::from_str(message))
}

fn indexed_failure(prefix: &str, index: usize, suffix: &str) -> (e: LumaError)
    ensures
        e@ == LumaErrorView::RuntimeError(prefix@ + text::decimal(index as nat) + suffix@),
{
    let mut message = String::from_str(prefix);
    text::push_decimal(&mut message, index as u64);
    message.append(suffix);
    LumaError::RuntimeError(message)
}

/// Counts in descending order.
pub open spec fn descending(stats: Seq<(usize, u64)>) -> bool {
    forall|i: int, j: int| 0 <= i < j < stats.len() ==> stats[i].1 >= stats[j].1
}

/// `stats` lists what `counts` holds: every offset with its count, once.
pub open spec fn lists_counts(stats: Seq<(usize, u64)>, counts: Map<usize, u64>) -> bool {
    &&& stats.no_duplicates()
    &&& forall|offset: usize, count: u64|
        stats.contains((offset, count)) <==> (counts.contains_key(offset) && counts[offset] == count)
}

proof fn insert_contains(s: Seq<(usize, u64)>, at: int, item: (usize, u64), x: (usize, u64))
    requires
        0 <= at <= s.len(),
    ensures
        s.insert(at, item).contains(x) <==> (x == item || s.contains(x)),
{
    let t = s.insert(at, item);
    if t.contains(x) {
        let k = choose|k: int| 0 <= k < t.len() && t[k] == x;
        if k < at {
            assert(s[k] == x);
        } else if k > at {
            assert(s[k - 1] == x);
        }
    }
    if x == item {
        assert(t[at] == x);
    }
    if s.contains(x) {
        let k = choose|k: int| 0 <= k < s.len() && s[k] == x;
        if k < at {
            assert(t[k] == x);
        } else {
            assert(t[k + 1] == x);
        }
    }
}

/// The pairs of `pairs` in descending order of count; pairs with the same
/// count keep their order.
fn sort_by_count(pairs: &Vec<(usize, u64)>) -> (sorted: Vec<(usize, u64)>)
    requires
        pairs@.no_duplicates(),
    ensures
        descending(sorted@),
        sorted@.no_duplicates(),
        forall|x: (usize, u64)| sorted@.contains(x) <==> pairs@.contains(x),
{
    let mut sorted: Vec<(usize, u64)> = Vec::new();
    let mut i: usize = 0;
    while i < pairs.len()
        invariant
            i <= pairs.len(),
            pairs@.no_duplicates(),
            descending(sorted@),
            sorted@.no_duplicates(),
            forall|x: (usize, u64)| sorted@.contains(x) <==> pairs@.take(i as int).contains(x),
        decreases pairs.len() - i,
    {
        let item: (usize, u64) = pairs[i];
        let mut at: usize = 0;
        while at < sorted.len() && sorted[at].1 >= item.1
            invariant
                at <= sorted.len(),
                forall|k: int| 0 <= k < at ==> sorted@[k].1 >= item.1,
            decreases sorted.len() - at,
        {
            at = at + 1;
        }
        let ghost before = sorted@;
        sorted.insert(at, item);
        proof {
            let taken = pairs@.take(i as int);
            let grown = pairs@.take(i as int + 1);
            assert(!before.contains(item)) by {
                if taken.contains(item) {
                    let k = choose|k: int| 0 <= k < taken.len() && taken[k] == item;
                    assert(pairs@[k] == pairs@[i as int]);
                }
            }
            assert forall|x: (usize, u64)| sorted@.contains(x) <==> grown.contains(x) by {
                insert_contains(before, at as int, item, x);
                if grown.contains(x) {
                    let k = choose|k: int| 0 <= k < grown.len() && grown[k] == x;
                    if k < i {
                        assert(taken[k] == x);
                    }
                }
                if taken.contains(x) {
                    let k = choose|k: int| 0 <= k < taken.len() && taken[k] == x;
                    assert(grown[k] == x);
                }
                if x == item {
                    assert(grown[i as int] == x);
                }
            }
            assert(sorted@.no_duplicates()) by {
                assert forall|a: int, b: int| 0 <= a < sorted@.len() && 0 <= b < sorted@.len() && a != b implies sorted@[a]
                    != sorted@[b] by {
                    let a0 = if a < at {
                        a
                    } else {
                        a - 1
                    };
                    let b0 = if b < at {
                        b
                    } else {
                        b - 1
                    };
                    if a == at {
                        assert(before[b0] == sorted@[b]);
                        assert(before.contains(before[b0]));
                    } else if b == at {
                        assert(before[a0] == sorted@[a]);
                        assert(before.contains(before[a0]));
                    } else {
                        assert(before[a0] == sorted@[a]);
                        assert(before[b0] == sorted@[b]);
                    }
                }
            }
            assert(descending(sorted@)) by {
                assert forall|a: int, b: int| 0 <= a < b < sorted@.len() implies sorted@[a].1 >= sorted@[b].1 by {
                    if a < at && b > at {
                        assert(sorted@[a] == before[a]);
                        assert(sorted@[b] == before[b - 1]);
                    } else if a < at && b < at {
                        assert(sorted@[a] == before[a]);
                        assert(sorted@[b] == before[b]);
                    } else if a > at {
                        assert(sorted@[a] == before[a - 1]);
                        assert(sorted@[b] == before[b - 1]);
                    } else if a == at {
                        assert(sorted@[b] == before[b - 1]);
                        assert(before[at as int].1 < item.1);
                    }
                }
            }
        }
        i = i + 1;
    }
    assert(pairs@.take(pairs.len() as int) =~= pairs@);
    sorted
}

impl VM {
    pub fn new() -> (vm: VM)
        ensures
            vm@ == VmView::fresh(),
    {
        VM {
            chunk: Chunk::new(),
            ip: 0,
            stack: Stack::new(),
            globals: GlobalTable::new(),
            execution_count: CountTable::new(),
            hot_threshold: HOT_THRESHOLD,
            phase: Phase::Idle,
        }
    }

    /// How often each code offset was dispatched, the most often first.
    /// The order among offsets with the same count is not fixed.
    pub fn get_execution_stats(&self) -> (stats: Vec<(usize, u64)>)
        ensures
            descending(stats@),
            lists_counts(stats@, self@.counts),
    {
        let pairs = self.execution_count.entries();
        sort_by_count(&pairs)
    }

    /// Forgets the chunk, the stack, the globals and the counts.
    pub fn reset(&mut self)
        ensures
            final(self)@ == old(self)@.reset(),
    {
        self.chunk = Chunk::new();
        self.ip = 0;
        self.stack.clear();
        self.globals.clear();
        self.execution_count.clear();
        self.phase = Phase::Idle;
    }

    /// Loads `chunk` for a new run. The stack, the globals and the counts
    /// stay as the last run left them.
    pub fn load(&mut self, chunk: Chunk)
        ensures
            final(self)@ == old(self)@.load(chunk@),
    {
        self.chunk = chunk;
        self.ip = 0;
        self.phase = Phase::Ready;
    }

    fn bump(&mut self)
        ensures
            final(self)@ == old(self)@.bumped(),
    {
        let count: u64 = match self.execution_count.get(self.ip) {
            Some(count) => if *count < u64::MAX {
                *count + 1
            } else {
                u64::MAX
            },
            None => 1,
        };
        self.execution_count.insert(self.ip, count);
    }

    fn fail(&mut self, error: LumaError) -> (action: Action)
        ensures
            (final(self)@, action@) == old(self)@.fail(error@),
    {
        self.bump();
        self.phase = Phase::Idle;
        Action::Fail(error)
    }

    /// Ends the instruction with the stack as it is; the next instruction
    /// is `skip` and `offset` bytes further on.
    fn proceed(&mut self, skip: usize, offset: usize) -> (action: Action)
        ensures
            (final(self)@, action@) == old(self)@.proceed(old(self)@.stack, old(self)@.ip + skip + offset),
    {
        if skip > usize::MAX - self.ip || offset > usize::MAX - self.ip - skip {
            return self.fail(runtime_failure("Instruction pointer out of bounds"));
        }
        self.bump();
        self.ip = self.ip + skip + offset;
        self.phase = Phase::Running;
        Action::Continue
    }

    /// Ends the instruction by pushing `value`.
    fn push(&mut self, value: Value, skip: usize) -> (action: Action)
        ensures
            (final(self)@, action@) == old(self)@.push(old(self)@.stack, value@, old(self)@.ip + skip),
    {
        match self.stack.push(value) {
            Err(message) => self.fail(LumaError::StackError(message)),
            Ok(_) => {
                let action = self.proceed(skip, 0);
                action
            },
        }
    }

    fn finish(&mut self) -> (action: Action)
        ensures
            (final(self)@, action@) == old(self)@.finish(),
    {
        self.phase = Phase::Idle;
        match self.stack.pop() {
            Ok(value) => Action::Halt(value),
            Err(_) => Action::Halt(Value::Nil),
        }
    }

    /// The numeric coercion of the value in slot `slot`. Where it fails the
    /// instruction, the lowest `keep` values stay on the stack.
    fn coerce(&mut self, slot: usize, keep: usize, reply: &Option<HostReply>) -> (r: Result<u64, Action>)
        requires
            slot < old(self)@.stack.len(),
            keep <= old(self)@.stack.len(),
        ensures
            match r {
                Ok(bits) => final(self)@ == old(self)@ && VmView::coerce(
                    old(self)@.stack[slot as int],
                    slot as int,
                    reply_view(*reply),
                ) == Coerced::Ready(bits, bits),
                Err(action) => !(VmView::coerce(old(self)@.stack[slot as int], slot as int, reply_view(*reply))
                    is Ready) && (final(self)@, action@) == old(self)@.settle(
                    VmView::coerce(old(self)@.stack[slot as int], slot as int, reply_view(*reply)),
                    old(self)@.stack.take(keep as int),
                ),
            },
    {
        let value = self.stack.get(slot);
        let converted = value.to_number(None);
        let unread: Option<String> = match value {
            Value::String(s) => Some(s.clone()),
            _ => None,
        };
        match unread {
            Some(s) => match reply {
                Some(HostReply::Number(bits)) => {
                    self.stack.set(slot, Value::Number(*bits));
                    Err(Action::Continue)
                },
                Some(HostReply::NotANumber) => match converted {
                    Err(message) => {
                        self.stack.reset_to(keep);
                        Err(self.fail(LumaError::RuntimeError(message)))
                    },
                    Ok(bits) => Ok(bits),
                },
                _ => Err(Action::Ask(HostRequest::ReadNumber(s))),
            },
            None => match converted {
                Ok(bits) => Ok(bits),
                Err(message) => {
                    self.stack.reset_to(keep);
                    Err(self.fail(LumaError::RuntimeError(message)))
                },
            },
        }
    }

    /// Fails the instruction for want of two operands; the stack is left
    /// empty.
    fn underflow_pair(&mut self) -> (action: Action)
        ensures
            (final(self)@, action@) == old(self)@.fail_leaving(Seq::empty(), underflow()),
    {
        self.stack.clear();
        self.fail(LumaError::StackError(String::from_str("Stack underflow")))
    }

    fn coerce_pair(&mut self, reply: &Option<HostReply>) -> (r: Result<(u64, u64), Action>)
        ensures
            match r {
                Ok(pair) => final(self)@ == old(self)@ && old(self)@.coerce_pair(reply_view(*reply))
                    == Coerced::Ready(pair.0, pair.1) && old(self)@.stack.len() >= 2,
                Err(action) => !(old(self)@.coerce_pair(reply_view(*reply)) is Ready) && (final(self)@, action@)
                    == old(self)@.settle(old(self)@.coerce_pair(reply_view(*reply)), old(self)@.base()),
            },
    {
        let n: usize = self.stack.len();
        if n < 2 {
            return Err(self.underflow_pair());
        }
        let x: u64 = match self.coerce(n - 2, n - 2, reply) {
            Ok(x) => x,
            Err(action) => {
                return Err(action);
            },
        };
        let y: u64 = match self.coerce(n - 1, n - 2, reply) {
            Ok(y) => y,
            Err(action) => {
                return Err(action);
            },
        };
        Ok((x, y))
    }

    fn arithmetic(&mut self, op: ArithmeticOp, reply: &Option<HostReply>) -> (action: Action)
        ensures
            (final(self)@, action@) == old(self)@.arithmetic(op, reply_view(*reply)),
    {
        let (x, y) = match self.coerce_pair(reply) {
            Ok(pair) => pair,
            Err(action) => {
                return action;
            },
        };
        let n: usize = self.stack.len();
        let divides: bool = match op {
            ArithmeticOp::Divide => true,
            ArithmeticOp::Modulo => true,
            _ => false,
        };
        if divides && number::number_is_zero(y) {
            self.stack.reset_to(n - 2);
            let error = match op {
                ArithmeticOp::Modulo => runtime_failure("Modulo by zero"),
                _ => runtime_failure("Division by zero"),
            };
            return self.fail(error);
        }
        match reply {
            Some(HostReply::Number(bits)) => {
                self.stack.reset_to(n - 2);
                self.push(Value::Number(*bits), 1)
            },
            _ => Action::Ask(HostRequest::Arithmetic { op, left: x, right: y }),
        }
    }

    fn comparison(&mut self, opcode: OpCode, reply: &Option<HostReply>) -> (action: Action)
        ensures
            (final(self)@, action@) == old(self)@.comparison(opcode, reply_view(*reply)),
    {
        let (x, y) = match self.coerce_pair(reply) {
            Ok(pair) => pair,
            Err(action) => {
                return action;
            },
        };
        let n: usize = self.stack.len();
        let holds: bool = match opcode {
            OpCode::OpGreater => number::number_less(y, x),
            OpCode::OpLess => number::number_less(x, y),
            OpCode::OpGreaterEqual => number::number_less_equal(y, x),
            _ => number::number_less_equal(x, y),
        };
        self.stack.reset_to(n - 2);
        self.push(Value::Boolean(holds), 1)
    }

    fn equality(&mut self, negated: bool) -> (action: Action)
        ensures
            (final(self)@, action@) == old(self)@.equality(negated),
    {
        let n: usize = self.stack.len();
        if n < 2 {
            return self.underflow_pair();
        }
        let same: bool = *self.stack.get(n - 2) == *self.stack.get(n - 1);
        self.stack.reset_to(n - 2);
        self.push(Value::Boolean(same != negated), 1)
    }

    fn negate(&mut self, reply: &Option<HostReply>) -> (action: Action)
        ensures
            (final(self)@, action@) == old(self)@.negate(reply_view(*reply)),
    {
        let n: usize = self.stack.len();
        if n < 1 {
            return self.fail(LumaError::StackError(String::from_str("Stack underflow")));
        }
        let x: u64 = match self.coerce(n - 1, n - 1, reply) {
            Ok(x) => x,
            Err(action) => {
                return action;
            },
        };
        self.stack.reset_to(n - 1);
        self.push(Value::Number(number::number_negate(x)), 1)
    }

    /// Asks the host to write the number in slot `slot`, or takes its reply.
    fn write_operand(&mut self, slot: usize, reply: &Option<HostReply>) -> (action: Action)
        requires
            slot < old(self)@.stack.len(),
            old(self)@.stack[slot as int].needs_writing(),
        ensures
            (final(self)@, action@) == old(self)@.write_operand(slot as int, reply_view(*reply)),
    {
        match reply {
            Some(HostReply::Text(written)) => {
                self.stack.set(slot, Value::String(written.clone()));
                Action::Continue
            },
            _ => match self.stack.get(slot) {
                Value::Number(bits) => Action::Ask(HostRequest::WriteNumber(*bits)),
                _ => Action::Continue,
            },
        }
    }

    fn concat(&mut self, reply: &Option<HostReply>) -> (action: Action)
        ensures
            (final(self)@, action@) == old(self)@.concat(reply_view(*reply)),
    {
        let n: usize = self.stack.len();
        if n < 2 {
            return self.underflow_pair();
        }
        if self.stack.get(n - 2).needs_writing() {
            return self.write_operand(n - 2, reply);
        }
        if self.stack.get(n - 1).needs_writing() {
            return self.write_operand(n - 1, reply);
        }
        proof {
            reveal_strlit("");
            assert(""@ =~= Seq::<char>::empty());
        }
        let mut joined = self.stack.get(n - 2).to_string("");
        let right = self.stack.get(n - 1).to_string("");
        joined.append(right.as_str());
        self.stack.reset_to(n - 2);
        self.push(Value::String(joined), 1)
    }

    fn add(&mut self, reply: &Option<HostReply>) -> (action: Action)
        ensures
            (final(self)@, action@) == old(self)@.add(reply_view(*reply)),
    {
        let n: usize = self.stack.len();
        if n >= 2 && (self.stack.get(n - 2).needs_reading() || self.stack.get(n - 1).needs_reading()) {
            self.concat(reply)
        } else {
            self.arithmetic(ArithmeticOp::Add, reply)
        }
    }

    fn print(&mut self, reply: &Option<HostReply>) -> (action: Action)
        requires
            old(self)@.ip < old(self)@.chunk.code.len(),
        ensures
            (final(self)@, action@) == old(self)@.print(reply_view(*reply)),
    {
        let n: usize = self.stack.len();
        if n < 1 {
            return self.fail(LumaError::StackError(String::from_str("Stack underflow")));
        }
        let next: usize = self.next_offset();
        let text: String = if self.stack.get(n - 1).needs_writing() {
            match reply {
                Some(HostReply::Text(written)) => written.clone(),
                _ => {
                    return self.write_operand(n - 1, reply);
                },
            }
        } else {
            proof {
                reveal_strlit("");
                assert(""@ =~= Seq::<char>::empty());
            }
            self.stack.get(n - 1).to_string("")
        };
        match self.stack.pop() {
            Ok(value) => {
                self.bump();
                self.ip = next;
                self.phase = Phase::Running;
                Action::Print { value, text }
            },
            Err(message) => self.fail(LumaError::StackError(message)),
        }
    }

    fn global(&mut self, opcode: OpCode) -> (action: Action)
        requires
            old(self)@.ip < old(self)@.chunk.code.len(),
        ensures
            (final(self)@, action@) == old(self)@.global(opcode),
    {
        let index: u8 = match self.operand() {
            Some(index) => index,
            None => {
                return self.fail(runtime_failure("Instruction pointer out of bounds"));
            },
        };
        let name: String = match self.get_constant_string(index as usize) {
            Ok(name) => name,
            Err(e) => {
                return self.fail(e);
            },
        };
        match opcode {
            OpCode::OpGetGlobal => {
                let found: Option<Value> = match self.globals.get(name.as_str()) {
                    Some(value) => Some(value.clone()),
                    None => None,
                };
                match found {
                    Some(value) => self.push(value, 2),
                    None => {
                        let line: usize = self.get_current_line(self.operand_end());
                        let mut message = String::from_str("Undefined variable '");
                        message.append(name.as_str());
                        message.append("' at line ");
                        text::push_decimal(&mut message, line as u64);
                        self.fail(LumaError::RuntimeError(message))
                    },
                }
            },
            OpCode::OpDefineGlobal => match self.stack.pop() {
                Ok(value) => {
                    self.globals.insert(name, value);
                    self.proceed(2, 0)
                },
                Err(message) => self.fail(LumaError::StackError(message)),
            },
            _ => {
                let n: usize = self.stack.len();
                if n < 1 {
                    return self.fail(LumaError::StackError(String::from_str("Stack underflow")));
                }
                let value: Value = self.stack.get(n - 1).clone();
                self.globals.insert(name, value);
                self.proceed(2, 0)
            },
        }
    }

    fn local(&mut self, opcode: OpCode) -> (action: Action)
        requires
            old(self)@.ip < old(self)@.chunk.code.len(),
        ensures
            (final(self)@, action@) == old(self)@.local(opcode),
    {
        let slot: usize = match self.operand() {
            Some(slot) => slot as usize,
            None => {
                return self.fail(runtime_failure("Instruction pointer out of bounds"));
            },
        };
        let n: usize = self.stack.len();
        match opcode {
            OpCode::OpGetLocal => {
                if slot >= n {
                    return self.fail(indexed_failure("Local slot ", slot, " out of bounds"));
                }
                let value: Value = self.stack.get(slot).clone();
                self.push(value, 2)
            },
            _ => {
                if n < 1 {
                    return self.fail(LumaError::StackError(String::from_str("Stack underflow")));
                }
                if slot >= n {
                    return self.fail(indexed_failure("Local slot ", slot, " out of bounds"));
                }
                let value: Value = self.stack.get(n - 1).clone();
                self.stack.set(slot, value);
                self.proceed(2, 0)
            },
        }
    }

    fn jump(&mut self, opcode: OpCode) -> (action: Action)
        requires
            old(self)@.ip < old(self)@.chunk.code.len(),
        ensures
            (final(self)@, action@) == old(self)@.jump(opcode),
    {
        let offset: usize = match self.operand() {
            Some(offset) => offset as usize,
            None => {
                return self.fail(runtime_failure("Instruction pointer out of bounds"));
            },
        };
        match opcode {
            OpCode::OpJump => self.proceed(2, offset),
            OpCode::OpJumpIfFalse => {
                let n: usize = self.stack.len();
                if n < 1 {
                    return self.fail(LumaError::StackError(String::from_str("Stack underflow")));
                }
                if self.stack.get(n - 1).is_truthy() {
                    self.proceed(2, 0)
                } else {
                    self.proceed(2, offset)
                }
            },
            _ => {
                let after: usize = self.operand_end();
                if offset > after {
                    return self.fail(runtime_failure("Instruction pointer out of bounds"));
                }
                self.bump();
                self.ip = after - offset;
                self.phase = Phase::Running;
                Action::Continue
            },
        }
    }

    fn loop_end(&mut self) -> (action: Action)
        requires
            old(self)@.ip < old(self)@.chunk.code.len(),
        ensures
            (final(self)@, action@) == old(self)@.loop_end(),
    {
        let next: usize = self.next_offset();
        self.bump();
        self.ip = next;
        self.phase = Phase::Running;
        let hot: bool = match self.execution_count.get(next) {
            Some(count) => *count > self.hot_threshold,
            None => false,
        };
        if hot {
            Action::HotLoop(next)
        } else {
            Action::Continue
        }
    }

    fn execute(&mut self, opcode: OpCode, reply: &Option<HostReply>) -> (action: Action)
        requires
            old(self)@.ip < old(self)@.chunk.code.len(),
        ensures
            (final(self)@, action@) == old(self)@.execute(opcode, reply_view(*reply)),
    {
        match opcode {
            OpCode::OpConstant => {
                let index: u8 = match self.operand() {
                    Some(index) => index,
                    None => {
                        return self.fail(runtime_failure("Instruction pointer out of bounds"));
                    },
                };
                match self.get_constant(index as usize) {
                    Ok(value) => self.push(value, 2),
                    Err(e) => self.fail(e),
                }
            },
            OpCode::OpNil => self.push(Value::Nil, 1),
            OpCode::OpTrue => self.push(Value::Boolean(true), 1),
            OpCode::OpFalse => self.push(Value::Boolean(false), 1),
            OpCode::OpAdd => self.add(reply),
            OpCode::OpSubtract => self.arithmetic(ArithmeticOp::Subtract, reply),
            OpCode::OpMultiply => self.arithmetic(ArithmeticOp::Multiply, reply),
            OpCode::OpDivide => self.arithmetic(ArithmeticOp::Divide, reply),
            OpCode::OpModulo => self.arithmetic(ArithmeticOp::Modulo, reply),
            OpCode::OpNegate => self.negate(reply),
            OpCode::OpEqual => self.equality(false),
            OpCode::OpNotEqual => self.equality(true),
            OpCode::OpGreater | OpCode::OpLess | OpCode::OpGreaterEqual | OpCode::OpLessEqual => self.comparison(
                opcode,
                reply,
            ),
            OpCode::OpNot => match self.stack.pop() {
                Ok(value) => self.push(Value::Boolean(!value.is_truthy()), 1),
                Err(message) => self.fail(LumaError::StackError(message)),
            },
            OpCode::OpPrint => self.print(reply),
            OpCode::OpPop => match self.stack.pop() {
                Ok(_) => self.proceed(1, 0),
                Err(message) => self.fail(LumaError::StackError(message)),
            },
            OpCode::OpDefineGlobal | OpCode::OpGetGlobal | OpCode::OpSetGlobal => self.global(opcode),
            OpCode::OpGetLocal | OpCode::OpSetLocal => self.local(opcode),
            OpCode::OpJump | OpCode::OpJumpIfFalse | OpCode::OpLoop => self.jump(opcode),
            OpCode::OpReturn => {
                self.bump();
                self.finish()
            },
            OpCode::OpConcat => self.concat(reply),
            OpCode::OpLoopStart => self.proceed(1, 0),
            OpCode::OpLoopEnd => self.loop_end(),
            OpCode::OpAnd | OpCode::OpOr | OpCode::OpCall | OpCode::OpDup | OpCode::OpSwap => {
                let mut message = String::from_str("Unimplemented opcode: ");
                message.append(opcode.name());
                self.fail(LumaError::RuntimeError(message))
            },
        }
    }

    /// One step of the run: the end of a run that has reached the end of
    /// its code, or else one instruction, or the part of one that can be
    /// done before the host has to help. `reply` is the host's answer to
    /// the request that the step before ended in.
    pub fn step(&mut self, reply: Option<HostReply>) -> (action: Action)
        ensures
            (final(self)@, action@) == old(self)@.step(reply_view(reply)),
    {
        match self.phase {
            Phase::Idle => {
                return Action::Idle;
            },
            _ => {},
        }
        if self.ip >= self.chunk.code.len() {
            return match self.phase {
                Phase::Running => self.finish(),
                _ => self.fail(runtime_failure("Instruction pointer out of bounds")),
            };
        }
        let byte: u8 = self.chunk.code[self.ip];
        match OpCode::from_byte(byte) {
            Some(opcode) => self.execute(opcode, &reply),
            None => {
                proof {
                    reveal_strlit("");
                    assert("Unknown opcode: "@ + text::decimal(byte as nat) + ""@ =~= "Unknown opcode: "@
                        + text::decimal(byte as nat));
                }
                self.fail(indexed_failure("Unknown opcode: ", byte as usize, ""))
            },
        }
    }

    /// The step that takes `reply`, and up to `budget` more steps while
    /// the run goes on without the host.
    pub fn run(&mut self, reply: Option<HostReply>, budget: usize) -> (action: Action)
        ensures
            (final(self)@, action@) == old(self)@.run(reply_view(reply), budget as nat),
    {
        let mut action = self.step(reply);
        let mut left: usize = budget;
        while left > 0 && is_continue(&action)
            invariant
                (self@, action@).1 is Continue ==> old(self)@.run(reply_view(reply), budget as nat) == self@.run_on(
                    left as nat,
                ),
                !(action@ is Continue) ==> old(self)@.run(reply_view(reply), budget as nat) == (self@, action@),
            decreases left,
        {
            action = self.step(None);
            left = left - 1;
        }
        action
    }

    /// Loads `chunk` and runs it: the first step, and up to `budget` more
    /// while the run goes on without the host.
    pub fn interpret(&mut self, chunk: Chunk, budget: usize) -> (action: Action)
        ensures
            (final(self)@, action@) == old(self)@.load(chunk@).run(None, budget as nat),
    {
        self.load(chunk);
        self.run(None, budget)
    }

    /// The offset after the instruction tag.
    fn next_offset(&self) -> (next: usize)
        requires
            self@.ip < self@.chunk.code.len(),
        ensures
            next == self@.ip + 1,
    {
        assert(self.ip < self.chunk.code.len());
        self.ip + 1
    }

    /// The offset after the operand.
    fn operand_end(&self) -> (end: usize)
        requires
            self@.ip + 1 < self@.chunk.code.len(),
        ensures
            end == self@.ip + 2,
    {
        assert(self.ip + 1 < self.chunk.code.len());
        self.ip + 2
    }

    fn operand(&self) -> (r: Option<u8>)
        requires
            self@.ip < self@.chunk.code.len(),
        ensures
            r == self@.operand(),
    {
        assert(self.ip < self.chunk.code.len());
        assert(self.ip < self.chunk.code.len());
        if self.ip + 1 < self.chunk.code.len() {
            Some(self.chunk.code[self.ip + 1])
        } else {
            None
        }
    }

    fn get_constant(&self, index: usize) -> (r: Result<Value, LumaError>)
        ensures
            match r {
                Ok(value) => self@.constant(index as int) == Ok::<ValueView, LumaErrorView>(value@),
                Err(e) => self@.constant(index as int) == Err::<ValueView, LumaErrorView>(e@),
            },
    {
        if index < self.chunk.constants.len() {
            Ok(self.chunk.constants[index].clone())
        } else {
            Err(indexed_failure("Constant index ", index, " out of bounds"))
        }
    }

    fn get_constant_string(&self, index: usize) -> (r: Result<String, LumaError>)
        ensures
            match r {
                Ok(name) => self@.constant_name(index as int) == Ok::<Seq<char>, LumaErrorView>(name@),
                Err(e) => self@.constant_name(index as int) == Err::<Seq<char>, LumaErrorView>(e@),
            },
    {
        match self.get_constant(index) {
            Ok(Value::String(name)) => Ok(name),
            Ok(_) => Err(runtime_failure("Expected string constant")),
            Err(e) => Err(e),
        }
    }

    /// The source line for the code offset `offset`.
    fn get_current_line(&self, offset: usize) -> (line: usize)
        ensures
            line == line_at(self@.chunk.lines, offset as int),
    {
        let lines = &self.chunk.lines;
        if offset < lines.len() && lines[offset] > 0 {
            return lines[offset];
        }
        let upto: usize = if offset < lines.len() {
            offset
        } else {
            lines.len()
        };
        let mut i: usize = upto;
        while i > 0
            invariant
                i <= upto <= lines.len(),
                lines@ == self@.chunk.lines,
                !(offset < lines.len() && lines[offset as int] > 0),
                upto == (if offset < lines.len() {
                    offset
                } else {
                    lines.len()
                }),
                last_line_before(lines@, upto as int) == last_line_before(lines@, i as int),
            decreases i,
        {
            i = i - 1;
            if lines[i] > 0 {
                return lines[i];
            }
        }
        offset / 3 + 1
    }
}

impl Default for VM {
    fn default() -> (vm: VM)
        ensures
            vm@ == VmView::fresh(),
    {
        VM::new()
    }
}

} // verus!
