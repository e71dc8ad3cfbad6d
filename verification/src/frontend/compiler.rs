//! The bytecode compiler: from statements to a chunk.
use vstd::prelude::*;
use crate::backend::vm::instruction::OpCode;
use crate::frontend::ast::BinaryOperator;
use crate::frontend::ast::Expression;
use crate::frontend::ast::Statement;
use crate::frontend::ast::UnaryOperator;
use crate::shared::chunk::Chunk;
use crate::shared::chunk::ChunkView;
use crate::shared::error::LumaError;
use crate::shared::error::LumaErrorView;
use crate::shared::number;
use crate::shared::text;
use crate::shared::value::Value;
use crate::shared::value::ValueView;

verus! {

/// The most locals that are declared at one time.
pub const LOCALS_MAX: usize = 255;

/// A variable that lives in a stack slot while its scope is compiled.
pub struct Local {
    pub name: String,
    /// The depth of the scope that declared it.
    pub depth: Option<usize>,
}

pub struct LocalView {
    pub name: Seq<char>,
    pub depth: Option<usize>,
}

impl View for Local {
    type V = LocalView;

    open spec fn view(&self) -> LocalView {
        LocalView { name: self.name@, depth: self.depth }
    }
}

pub open spec fn local_views(locals: Seq<Local>) -> Seq<LocalView> {
    locals.map_values(|local: Local| local@)
}

pub struct Compiler {
    chunk: Chunk,
    locals: Vec<Local>,
    scope_depth: usize,
    current_line: usize,
}

/// The state of a compiler: the chunk written so far, the locals in scope
/// (the latest last), the depth of the scope being compiled, and the line
/// that emitted code is attributed to.
pub struct CompilerView {
    pub chunk: ChunkView,
    pub locals: Seq<LocalView>,
    pub scope_depth: usize,
    pub current_line: usize,
}

impl View for Compiler {
    type V = CompilerView;

    closed spec fn view(&self) -> CompilerView {
        CompilerView {
            chunk: self.chunk@,
            locals: local_views(self.locals@),
            scope_depth: self.scope_depth,
            current_line: self.current_line,
        }
    }
}

pub open spec fn compile_failure(message: Seq<char>) -> LumaErrorView {
    LumaErrorView::CompileError { message, line: 0 }
}

pub open spec fn call_failure() -> LumaErrorView {
    compile_failure("Function calls not implemented in JIT-VM"@)
}

pub open spec fn locals_failure() -> LumaErrorView {
    compile_failure("Too many local variables in scope"@)
}

pub open spec fn jump_failure() -> LumaErrorView {
    compile_failure("Too much code to jump over"@)
}

pub open spec fn loop_failure() -> LumaErrorView {
    compile_failure("Loop body too large"@)
}

pub open spec fn depth_failure() -> LumaErrorView {
    compile_failure("Too many nested scopes"@)
}

/// The line that code for the statement at `index`, counted from 1, is
/// attributed to: two lines for each statement.
pub open spec fn statement_line(index: usize) -> usize {
    if index <= usize::MAX / 2 {
        (index * 2) as usize
    } else {
        usize::MAX
    }
}

/// The last place before `upto` where `locals` holds `name`.
pub open spec fn resolve_before(locals: Seq<LocalView>, name: Seq<char>, upto: int) -> Option<int>
    decreases upto,
{
    if upto <= 0 {
        None
    } else if locals[upto - 1].name == name {
        Some(upto - 1)
    } else {
        resolve_before(locals, name, upto - 1)
    }
}

pub open spec fn binary_opcode(operator: BinaryOperator) -> OpCode {
    match operator {
        BinaryOperator::Add => OpCode::OpAdd,
        BinaryOperator::Subtract => OpCode::OpSubtract,
        BinaryOperator::Multiply => OpCode::OpMultiply,
        BinaryOperator::Divide => OpCode::OpDivide,
        BinaryOperator::Modulo => OpCode::OpModulo,
        BinaryOperator::Equal => OpCode::OpEqual,
        BinaryOperator::NotEqual => OpCode::OpNotEqual,
        BinaryOperator::Greater | BinaryOperator::GreaterThan => OpCode::OpGreater,
        BinaryOperator::GreaterEqual => OpCode::OpGreaterEqual,
        BinaryOperator::Less | BinaryOperator::LessThan => OpCode::OpLess,
        BinaryOperator::LessEqual => OpCode::OpLessEqual,
        BinaryOperator::And => OpCode::OpAnd,
        BinaryOperator::Or => OpCode::OpOr,
    }
}

pub open spec fn unary_opcode(operator: UnaryOperator) -> OpCode {
    match operator {
        UnaryOperator::Minus => OpCode::OpNegate,
        UnaryOperator::Not => OpCode::OpNot,
    }
}

/// The name of the global that counts the rounds of the `repeat` whose
/// count ends at code position `position`.
pub open spec fn counter_name(position: nat) -> Seq<char> {
    "__repeat_counter_"@ + text::decimal(position)
}

/// The name of the global that holds the number of rounds of the `repeat`
/// whose count ends at code position `position`.
pub open spec fn count_name(position: nat) -> Seq<char> {
    "__repeat_count_"@ + text::decimal(position)
}

impl CompilerView {
    pub open spec fn fresh() -> CompilerView {
        CompilerView { chunk: ChunkView::empty(), locals: Seq::empty(), scope_depth: 0, current_line: 1 }
    }

    pub open spec fn emit_opcode(self, opcode: OpCode) -> CompilerView {
        CompilerView { chunk: self.chunk.write_opcode(opcode, self.current_line), ..self }
    }

    pub open spec fn emit_byte(self, byte: u8) -> CompilerView {
        CompilerView { chunk: self.chunk.write_byte(byte, self.current_line), ..self }
    }

    /// A jump with an empty operand; the operand stands one byte after the
    /// old end of the code. Jumps carry line 0.
    pub open spec fn emit_jump(self, opcode: OpCode) -> CompilerView {
        CompilerView { chunk: self.chunk.emit_jump(opcode, 0), ..self }
    }

    /// The instruction `opcode` with the slot of the constant `value` as
    /// its operand.
    pub open spec fn emit_constant(self, value: ValueView, opcode: OpCode) -> CompilerView {
        CompilerView { chunk: self.chunk.add_constant(value), ..self }.emit_opcode(opcode).emit_byte(
            ChunkView::slot_byte(self.chunk.constant_slot(value)),
        )
    }

    /// The slot of the latest local named `name`.
    pub open spec fn resolve_local(self, name: Seq<char>) -> Option<int> {
        resolve_before(self.locals, name, self.locals.len() as int)
    }

    pub open spec fn add_local(self, name: Seq<char>) -> Result<CompilerView, LumaErrorView> {
        if self.locals.len() >= LOCALS_MAX {
            Err(locals_failure())
        } else {
            Ok(
                CompilerView {
                    locals: self.locals.push(LocalView { name, depth: Some(self.scope_depth) }),
                    ..self
                },
            )
        }
    }

    pub open spec fn begin_scope(self) -> CompilerView {
        CompilerView { scope_depth: (self.scope_depth + 1) as usize, ..self }
    }

    /// Drops the locals above depth `self.scope_depth`, the latest first,
    /// with a `Pop` for each.
    pub open spec fn discard_locals(self) -> CompilerView
        decreases self.locals.len(),
    {
        if self.locals.len() == 0 {
            self
        } else if self.locals.last().depth matches Some(depth) && depth <= self.scope_depth {
            self
        } else {
            CompilerView { locals: self.locals.drop_last(), ..self }.emit_opcode(OpCode::OpPop).discard_locals()
        }
    }

    pub open spec fn end_scope(self) -> CompilerView {
        CompilerView { scope_depth: (self.scope_depth - 1) as usize, ..self }.discard_locals()
    }

    /// Makes the jump whose operand is at `offset` land at the end of the
    /// code, if that is within reach.
    pub open spec fn patch_jump(self, offset: int) -> Result<CompilerView, LumaErrorView> {
        if self.chunk.can_patch(offset) {
            Ok(CompilerView { chunk: self.chunk.patch_jump(offset), ..self })
        } else {
            Err(jump_failure())
        }
    }

    /// The backward jump to `loop_start`, if that is within reach. Loops
    /// carry line 0.
    pub open spec fn emit_loop(self, loop_start: int) -> Result<CompilerView, LumaErrorView> {
        if self.chunk.can_loop(loop_start) {
            Ok(CompilerView { chunk: self.chunk.emit_loop(loop_start, 0), ..self })
        } else {
            Err(loop_failure())
        }
    }

    /// The code of an expression: its operands first, then its operator.
    /// The only failure is a function call.
    pub open spec fn compile_expression(self, expression: Expression) -> Result<CompilerView, LumaErrorView>
        decreases expression,
    {
        match expression {
            Expression::Literal(bits) => Ok(self.emit_constant(ValueView::Number(bits), OpCode::OpConstant)),
            Expression::StringLiteral(s) => Ok(self.emit_constant(ValueView::String(s@), OpCode::OpConstant)),
            Expression::BooleanLiteral(b) => Ok(
                self.emit_opcode(
                    if b {
                        OpCode::OpTrue
                    } else {
                        OpCode::OpFalse
                    },
                ),
            ),
            Expression::Identifier(name) => match self.resolve_local(name@) {
                Some(slot) => Ok(self.emit_opcode(OpCode::OpGetLocal).emit_byte(ChunkView::slot_byte(slot))),
                None => Ok(self.emit_constant(ValueView::String(name@), OpCode::OpGetGlobal)),
            },
            Expression::BinaryOp { left, operator, right } => match self.compile_expression(*left) {
                Err(e) => Err(e),
                Ok(after_left) => match after_left.compile_expression(*right) {
                    Err(e) => Err(e),
                    Ok(after_right) => Ok(after_right.emit_opcode(binary_opcode(operator))),
                },
            },
            Expression::UnaryOp { operator, operand } => match self.compile_expression(*operand) {
                Err(e) => Err(e),
                Ok(after) => Ok(after.emit_opcode(unary_opcode(operator))),
            },
            Expression::FunctionCall { .. } => Err(call_failure()),
        }
    }

    /// The code of an assignment once its value is on the stack. Inside a
    /// scope the name is a local: an old one is overwritten, a new one is
    /// declared and keeps the value's slot. Outside every scope it is a
    /// global.
    pub open spec fn assign(self, name: Seq<char>) -> Result<CompilerView, LumaErrorView> {
        if self.scope_depth > 0 {
            match self.resolve_local(name) {
                Some(slot) => Ok(
                    self.emit_opcode(OpCode::OpSetLocal).emit_byte(ChunkView::slot_byte(slot)).emit_opcode(
                        OpCode::OpPop,
                    ),
                ),
                None => self.add_local(name),
            }
        } else {
            Ok(self.emit_constant(ValueView::String(name), OpCode::OpSetGlobal).emit_opcode(OpCode::OpPop))
        }
    }

    /// The statements of a block, in a scope of their own.
    pub open spec fn compile_block(self, statements: Seq<Statement>) -> Result<CompilerView, LumaErrorView>
        decreases statements, statements.len() + 1,
    {
        if self.scope_depth == usize::MAX {
            Err(depth_failure())
        } else {
            match self.begin_scope().compile_statements(statements, 0) {
                Err(e) => Err(e),
                Ok(after) => Ok(after.end_scope()),
            }
        }
    }

    /// The statements from `from` on, one after the other.
    pub open spec fn compile_statements(self, statements: Seq<Statement>, from: int) -> Result<
        CompilerView,
        LumaErrorView,
    >
        decreases statements, statements.len() - from,
    {
        if from < 0 || from >= statements.len() {
            Ok(self)
        } else {
            match self.compile_statement(statements[from]) {
                Err(e) => Err(e),
                Ok(after) => after.compile_statements(statements, from + 1),
            }
        }
    }

    /// A test and the branch it guards, then whatever `rest` compiles the
    /// alternative to, then the end of the jump that leaves the branch.
    pub open spec fn compile_guarded(self, condition: Expression, branch: Seq<Statement>) -> Result<
        (CompilerView, int),
        LumaErrorView,
    >
        decreases branch, branch.len() + 2,
    {
        match self.compile_expression(condition) {
            Err(e) => Err(e),
            Ok(tested) => {
                let else_jump = (tested.chunk.code.len() + 1) as int;
                match tested.emit_jump(OpCode::OpJumpIfFalse).emit_opcode(OpCode::OpPop).compile_block(branch) {
                    Err(e) => Err(e),
                    Ok(taken) => {
                        let end_jump = (taken.chunk.code.len() + 1) as int;
                        match taken.emit_jump(OpCode::OpJump).patch_jump(else_jump) {
                            Err(e) => Err(e),
                            Ok(patched) => Ok((patched.emit_opcode(OpCode::OpPop), end_jump)),
                        }
                    },
                }
            },
        }
    }

    /// The alternatives of an `if` from the `from`-th `else if` on: each is
    /// a test with its branch, the last an unguarded `else` if there is one.
    pub open spec fn compile_alternatives(self, statement: Statement, from: int) -> Result<
        CompilerView,
        LumaErrorView,
    >
        decreases statement, else_ifs_of(statement).len() - from,
    {
        match statement {
            Statement::If { condition, then_branch, else_ifs, else_branch } => {
                if 0 <= from < else_ifs.len() {
                    match self.compile_guarded(else_ifs[from].0, else_ifs[from].1@) {
                        Err(e) => Err(e),
                        Ok((guarded, end_jump)) => match guarded.compile_alternatives(statement, from + 1) {
                            Err(e) => Err(e),
                            Ok(rest) => rest.patch_jump(end_jump),
                        },
                    }
                } else {
                    match else_branch {
                        Some(statements) => self.compile_block(statements@),
                        None => Ok(self),
                    }
                }
            },
            _ => Ok(self),
        }
    }

    /// The code of one statement.
    pub open spec fn compile_statement(self, statement: Statement) -> Result<CompilerView, LumaErrorView>
        decreases statement, else_ifs_of(statement).len() + 1,
    {
        match statement {
            Statement::Assignment { name, value } => match self.compile_expression(value) {
                Err(e) => Err(e),
                Ok(valued) => valued.assign(name@),
            },
            Statement::Show(expression) => match self.compile_expression(expression) {
                Err(e) => Err(e),
                Ok(valued) => Ok(valued.emit_opcode(OpCode::OpPrint)),
            },
            Statement::If { condition, then_branch, else_ifs, else_branch } => match self.compile_guarded(
                condition,
                then_branch@,
            ) {
                Err(e) => Err(e),
                Ok((guarded, end_jump)) => match guarded.compile_alternatives(statement, 0) {
                    Err(e) => Err(e),
                    Ok(rest) => rest.patch_jump(end_jump),
                },
            },
            Statement::While { condition, body } => {
                let loop_start = self.chunk.code.len() as int;
                match self.emit_opcode(OpCode::OpLoopStart).compile_expression(condition) {
                    Err(e) => Err(e),
                    Ok(tested) => tested.emit_jump(OpCode::OpJumpIfFalse).emit_opcode(OpCode::OpPop).compile_loop_body(
                        body@,
                        loop_start,
                        (tested.chunk.code.len() + 1) as int,
                        None,
                    ),
                }
            },
            Statement::Repeat { count, body } => match self.compile_expression(count) {
                Err(e) => Err(e),
                Ok(counted) => {
                    let position = counted.chunk.code.len();
                    let limit = ValueView::String(count_name(position));
                    let counter = ValueView::String(counter_name(position));
                    let ready = counted.emit_constant(limit, OpCode::OpDefineGlobal).emit_constant(
                        ValueView::Number(number::ZERO),
                        OpCode::OpConstant,
                    ).emit_constant(counter, OpCode::OpDefineGlobal);
                    let loop_start = ready.chunk.code.len() as int;
                    let tested = ready.emit_opcode(OpCode::OpLoopStart).emit_constant(
                        counter,
                        OpCode::OpGetGlobal,
                    ).emit_constant(limit, OpCode::OpGetGlobal).emit_opcode(OpCode::OpLess);
                    tested.emit_jump(OpCode::OpJumpIfFalse).emit_opcode(OpCode::OpPop).compile_loop_body(
                        body@,
                        loop_start,
                        (tested.chunk.code.len() + 1) as int,
                        Some(counter_name(position)),
                    )
                },
            },
        }
    }

    /// The body of a loop and what closes the loop: for a counted loop the
    /// step of its counter `counter`, then the jump back to `loop_start`,
    /// the landing of the jump at `exit_jump` that leaves the loop, and the
    /// end marker.
    pub open spec fn compile_loop_body(
        self,
        body: Seq<Statement>,
        loop_start: int,
        exit_jump: int,
        counter: Option<Seq<char>>,
    ) -> Result<CompilerView, LumaErrorView>
        decreases body, body.len() + 2,
    {
        match self.compile_block(body) {
            Err(e) => Err(e),
            Ok(done) => {
                let stepped = match counter {
                    Some(name) => done.step_counter(name),
                    None => done,
                };
                match stepped.emit_loop(loop_start) {
                    Err(e) => Err(e),
                    Ok(looped) => match looped.patch_jump(exit_jump) {
                        Err(e) => Err(e),
                        Ok(patched) => Ok(patched.emit_opcode(OpCode::OpPop).emit_opcode(OpCode::OpLoopEnd)),
                    },
                }
            },
        }
    }

    /// Adds one to the global named `name`.
    pub open spec fn step_counter(self, name: Seq<char>) -> CompilerView {
        let counter = ValueView::String(name);
        self.emit_constant(counter, OpCode::OpGetGlobal).emit_constant(
            ValueView::Number(number::ONE),
            OpCode::OpConstant,
        ).emit_opcode(OpCode::OpAdd).emit_constant(counter, OpCode::OpSetGlobal).emit_opcode(OpCode::OpPop)
    }

    /// The statements of a program from `from` on, each attributed to its
    /// own line.
    pub open spec fn compile_program(self, statements: Seq<Statement>, from: int) -> Result<
        CompilerView,
        LumaErrorView,
    >
        decreases statements.len() - from,
    {
        if from < 0 || from >= statements.len() {
            Ok(self)
        } else {
            let lined = CompilerView { current_line: statement_line((from + 1) as usize), ..self };
            match lined.compile_statement(statements[from]) {
                Err(e) => Err(e),
                Ok(after) => after.compile_program(statements, from + 1),
            }
        }
    }

    /// The chunk that `statements` compile to: their code and a final
    /// `Return`.
    pub open spec fn compile(self, statements: Seq<Statement>) -> Result<ChunkView, LumaErrorView> {
        match self.compile_program(statements, 0) {
            Err(e) => Err(e),
            Ok(after) => Ok(after.emit_opcode(OpCode::OpReturn).chunk),
        }
    }
}

/// The `else if` parts of an `if`; no other statement has any.
pub open spec fn else_ifs_of(statement: Statement) -> Seq<(Expression, Vec<Statement>)> {
    match statement {
        Statement::If { condition, then_branch, else_ifs, else_branch } => else_ifs@,
        _ => Seq::empty(),
    }
}

/// An expression's code leaves the scope depth, the locals and the line as
/// they were.
pub proof fn expression_keeps_scope(state: CompilerView, expression: Expression)
    ensures
        state.compile_expression(expression) matches Ok(after) ==> after.scope_depth == state.scope_depth
            && after.locals == state.locals && after.current_line == state.current_line,
    decreases expression,
{
    match expression {
        Expression::BinaryOp { left, operator, right } => {
            expression_keeps_scope(state, *left);
            if let Ok(after_left) = state.compile_expression(*left) {
                expression_keeps_scope(after_left, *right);
            }
        },
        Expression::UnaryOp { operator, operand } => {
            expression_keeps_scope(state, *operand);
        },
        _ => {},
    }
}

/// Dropping locals leaves the scope depth and the line as they were.
pub proof fn discard_keeps_depth(state: CompilerView)
    ensures
        state.discard_locals().scope_depth == state.scope_depth,
        state.discard_locals().current_line == state.current_line,
    decreases state.locals.len(),
{
    if state.locals.len() == 0 {
    } else if state.locals.last().depth matches Some(depth) && depth <= state.scope_depth {
    } else {
        discard_keeps_depth(
            CompilerView { locals: state.locals.drop_last(), ..state }.emit_opcode(OpCode::OpPop),
        );
    }
}

/// A statement's code leaves the scope depth and the line as they were.
pub proof fn statement_keeps_depth(state: CompilerView, statement: Statement)
    ensures
        state.compile_statement(statement) matches Ok(after) ==> after.scope_depth == state.scope_depth
            && after.current_line == state.current_line,
    decreases statement, else_ifs_of(statement).len() + 1,
{
    match statement {
        Statement::Assignment { name, value } => {
            expression_keeps_scope(state, value);
        },
        Statement::Show(expression) => {
            expression_keeps_scope(state, expression);
        },
        Statement::If { condition, then_branch, else_ifs, else_branch } => {
            guarded_keeps_depth(state, condition, then_branch@);
            if let Ok((guarded, end_jump)) = state.compile_guarded(condition, then_branch@) {
                alternatives_keep_depth(guarded, statement, 0);
            }
        },
        Statement::While { condition, body } => {
            let marked = state.emit_opcode(OpCode::OpLoopStart);
            expression_keeps_scope(marked, condition);
            if let Ok(tested) = marked.compile_expression(condition) {
                loop_body_keeps_depth(
                    tested.emit_jump(OpCode::OpJumpIfFalse).emit_opcode(OpCode::OpPop),
                    body@,
                    state.chunk.code.len() as int,
                    (tested.chunk.code.len() + 1) as int,
                    None,
                );
            }
        },
        Statement::Repeat { count, body } => {
            expression_keeps_scope(state, count);
            if let Ok(counted) = state.compile_expression(count) {
                let position = counted.chunk.code.len();
                let limit = ValueView::String(count_name(position));
                let counter = ValueView::String(counter_name(position));
                let ready = counted.emit_constant(limit, OpCode::OpDefineGlobal).emit_constant(
                    ValueView::Number(number::ZERO),
                    OpCode::OpConstant,
                ).emit_constant(counter, OpCode::OpDefineGlobal);
                let tested = ready.emit_opcode(OpCode::OpLoopStart).emit_constant(
                    counter,
                    OpCode::OpGetGlobal,
                ).emit_constant(limit, OpCode::OpGetGlobal).emit_opcode(OpCode::OpLess);
                loop_body_keeps_depth(
                    tested.emit_jump(OpCode::OpJumpIfFalse).emit_opcode(OpCode::OpPop),
                    body@,
                    ready.chunk.code.len() as int,
                    (tested.chunk.code.len() + 1) as int,
                    Some(counter_name(position)),
                );
            }
        },
    }
}

/// The statements of a list leave the scope depth and the line as they
/// were.
pub proof fn statements_keep_depth(state: CompilerView, statements: Seq<Statement>, from: int)
    ensures
        state.compile_statements(statements, from) matches Ok(after) ==> after.scope_depth
            == state.scope_depth && after.current_line == state.current_line,
    decreases statements, statements.len() - from,
{
    if 0 <= from < statements.len() {
        statement_keeps_depth(state, statements[from]);
        if let Ok(after) = state.compile_statement(statements[from]) {
            statements_keep_depth(after, statements, from + 1);
        }
    }
}

/// A block leaves the scope depth and the line as they were.
pub proof fn block_keeps_depth(state: CompilerView, statements: Seq<Statement>)
    ensures
        state.compile_block(statements) matches Ok(after) ==> after.scope_depth == state.scope_depth
            && after.current_line == state.current_line,
    decreases statements, statements.len() + 1,
{
    if state.scope_depth < usize::MAX {
        statements_keep_depth(state.begin_scope(), statements, 0);
        if let Ok(after) = state.begin_scope().compile_statements(statements, 0) {
            discard_keeps_depth(CompilerView { scope_depth: (after.scope_depth - 1) as usize, ..after });
        }
    }
}

proof fn guarded_keeps_depth(state: CompilerView, condition: Expression, branch: Seq<Statement>)
    ensures
        state.compile_guarded(condition, branch) matches Ok((after, end_jump)) ==> after.scope_depth
            == state.scope_depth && after.current_line == state.current_line,
    decreases branch, branch.len() + 2,
{
    expression_keeps_scope(state, condition);
    if let Ok(tested) = state.compile_expression(condition) {
        block_keeps_depth(tested.emit_jump(OpCode::OpJumpIfFalse).emit_opcode(OpCode::OpPop), branch);
    }
}

proof fn alternatives_keep_depth(state: CompilerView, statement: Statement, from: int)
    ensures
        state.compile_alternatives(statement, from) matches Ok(after) ==> after.scope_depth
            == state.scope_depth && after.current_line == state.current_line,
    decreases statement, else_ifs_of(statement).len() - from,
{
    match statement {
        Statement::If { condition, then_branch, else_ifs, else_branch } => {
            if 0 <= from < else_ifs.len() {
                guarded_keeps_depth(state, else_ifs[from].0, else_ifs[from].1@);
                if let Ok((guarded, end_jump)) = state.compile_guarded(else_ifs[from].0, else_ifs[from].1@) {
                    alternatives_keep_depth(guarded, statement, from + 1);
                }
            } else {
                match else_branch {
                    Some(statements) => {
                        block_keeps_depth(state, statements@);
                    },
                    None => {},
                }
            }
        },
        _ => {},
    }
}

proof fn loop_body_keeps_depth(
    state: CompilerView,
    body: Seq<Statement>,
    loop_start: int,
    exit_jump: int,
    counter: Option<Seq<char>>,
)
    ensures
        state.compile_loop_body(body, loop_start, exit_jump, counter) matches Ok(after)
            ==> after.scope_depth == state.scope_depth && after.current_line == state.current_line,
    decreases body, body.len() + 2,
{
    block_keeps_depth(state, body);
}

/// Whether what a compiling step returned, and the state it left, are what
/// the model says of the state it started in.
pub open spec fn agrees(
    r: Result<(), LumaError>,
    after: CompilerView,
    expected: Result<CompilerView, LumaErrorView>,
) -> bool {
    match r {
        Ok(_) => expected == Ok::<CompilerView, LumaErrorView>(after),
        Err(e) => expected == Err::<CompilerView, LumaErrorView>(e@),
    }
}

fn compile_failure_of(message: &str) -> (e: LumaError)
    ensures
        e@ == compile_failure(message@),
{
    LumaError::compilation_error(String::from_str(message), 0)
}

fn binary_opcode_of(operator: &BinaryOperator) -> (opcode: OpCode)
    ensures
        opcode == binary_opcode(*operator),
{
    match operator {
        BinaryOperator::Add => OpCode::OpAdd,
        BinaryOperator::Subtract => OpCode::OpSubtract,
        BinaryOperator::Multiply => OpCode::OpMultiply,
        BinaryOperator::Divide => OpCode::OpDivide,
        BinaryOperator::Modulo => OpCode::OpModulo,
        BinaryOperator::Equal => OpCode::OpEqual,
        BinaryOperator::NotEqual => OpCode::OpNotEqual,
        BinaryOperator::Greater | BinaryOperator::GreaterThan => OpCode::OpGreater,
        BinaryOperator::GreaterEqual => OpCode::OpGreaterEqual,
        BinaryOperator::Less | BinaryOperator::LessThan => OpCode::OpLess,
        BinaryOperator::LessEqual => OpCode::OpLessEqual,
        BinaryOperator::And => OpCode::OpAnd,
        BinaryOperator::Or => OpCode::OpOr,
    }
}

fn unary_opcode_of(operator: &UnaryOperator) -> (opcode: OpCode)
    ensures
        opcode == unary_opcode(*operator),
{
    match operator {
        UnaryOperator::Minus => OpCode::OpNegate,
        UnaryOperator::Not => OpCode::OpNot,
    }
}

fn slot_byte_of(slot: usize) -> (byte: u8)
    ensures
        byte == ChunkView::slot_byte(slot as int),
{
    (slot % 256) as u8
}

fn synthesized_name(prefix: &str, position: usize) -> (name: String)
    ensures
        name@ == prefix@ + text::decimal(position as nat),
{
    let mut name = String::from_str(prefix);
    text::push_decimal(&mut name, position as u64);
    name
}

impl Compiler {
    pub fn new() -> (compiler: Compiler)
        ensures
            compiler@ == CompilerView::fresh(),
    {
        let compiler = Compiler { chunk: Chunk::new(), locals: Vec::new(), scope_depth: 0, current_line: 1 };
        assert(compiler@.locals =~= Seq::empty());
        compiler
    }

    /// Compiles `statements` to a chunk that ends in `Return`, and leaves
    /// the compiler with an empty chunk. It fails on the first function
    /// call, on the 256th local in scope, and on a jump over more than
    /// [`crate::shared::chunk::JUMP_MAX`] bytes.
    pub fn compile(&mut self, statements: &[Statement]) -> (r: Result<Chunk, LumaError>)
        ensures
            match r {
                Ok(chunk) => old(self)@.compile(statements@) == Ok::<ChunkView, LumaErrorView>(chunk@)
                    && chunk@.code.len() > 0 && chunk@.code.last() == OpCode::OpReturn.byte() && final(self)@
                    == (CompilerView {
                    chunk: ChunkView::empty(),
                    ..old(self)@.compile_program(statements@, 0)->Ok_0
                }),
                Err(e) => old(self)@.compile(statements@) == Err::<ChunkView, LumaErrorView>(e@),
            },
    {
        let mut i: usize = 0;
        while i < statements.len()
            invariant
                i <= statements.len(),
                old(self)@.compile_program(statements@, 0) == self@.compile_program(statements@, i as int),
            decreases statements.len() - i,
        {
            self.current_line = Self::estimate_statement_line(i + 1);
            match self.compile_statement(&statements[i]) {
                Err(e) => {
                    return Err(e);
                },
                Ok(_) => {},
            }
            i = i + 1;
        }
        self.emit_opcode(OpCode::OpReturn);
        let mut chunk = Chunk::new();
        std::mem::swap(&mut chunk, &mut self.chunk);
        Ok(chunk)
    }

    fn estimate_statement_line(statement_index: usize) -> (line: usize)
        ensures
            line == statement_line(statement_index),
    {
        if statement_index <= usize::MAX / 2 {
            statement_index * 2
        } else {
            usize::MAX
        }
    }

    fn compile_statements(&mut self, statements: &Vec<Statement>) -> (r: Result<(), LumaError>)
        ensures
            agrees(r, final(self)@, old(self)@.compile_statements(statements@, 0)),
        decreases statements@, statements@.len(),
    {
        let mut i: usize = 0;
        while i < statements.len()
            invariant
                i <= statements.len(),
                old(self)@.compile_statements(statements@, 0) == self@.compile_statements(statements@, i as int),
            decreases statements.len() - i,
        {
            match self.compile_statement(&statements[i]) {
                Err(e) => {
                    return Err(e);
                },
                Ok(_) => {},
            }
            i = i + 1;
        }
        Ok(())
    }

    fn compile_block(&mut self, statements: &Vec<Statement>) -> (r: Result<(), LumaError>)
        ensures
            agrees(r, final(self)@, old(self)@.compile_block(statements@)),
        decreases statements@, statements@.len() + 1,
    {
        if self.scope_depth == usize::MAX {
            return Err(compile_failure_of("Too many nested scopes"));
        }
        self.begin_scope();
        let ghost begun = self@;
        match self.compile_statements(statements) {
            Err(e) => {
                return Err(e);
            },
            Ok(_) => {},
        }
        proof {
            statements_keep_depth(begun, statements@, 0);
        }
        self.end_scope();
        Ok(())
    }

    fn compile_guarded(&mut self, condition: &Expression, branch: &Vec<Statement>) -> (r: Result<
        usize,
        LumaError,
    >)
        ensures
            match r {
                Ok(end_jump) => old(self)@.compile_guarded(*condition, branch@) == Ok::<
                    (CompilerView, int),
                    LumaErrorView,
                >((final(self)@, end_jump as int)),
                Err(e) => old(self)@.compile_guarded(*condition, branch@) == Err::<
                    (CompilerView, int),
                    LumaErrorView,
                >(e@),
            },
        decreases branch@, branch@.len() + 2,
    {
        match self.compile_expression(condition) {
            Err(e) => {
                return Err(e);
            },
            Ok(_) => {},
        }
        let else_jump = self.emit_jump(OpCode::OpJumpIfFalse);
        self.emit_opcode(OpCode::OpPop);
        match self.compile_block(branch) {
            Err(e) => {
                return Err(e);
            },
            Ok(_) => {},
        }
        let end_jump = self.emit_jump(OpCode::OpJump);
        match self.patch_jump(else_jump) {
            Err(e) => {
                return Err(e);
            },
            Ok(_) => {},
        }
        self.emit_opcode(OpCode::OpPop);
        Ok(end_jump)
    }

    fn compile_alternatives(&mut self, statement: &Statement, from: usize) -> (r: Result<(), LumaError>)
        ensures
            agrees(r, final(self)@, old(self)@.compile_alternatives(*statement, from as int)),
        decreases statement, else_ifs_of(*statement).len() - from,
    {
        match statement {
            Statement::If { condition, then_branch, else_ifs, else_branch } => {
                if from < else_ifs.len() {
                    let end_jump = match self.compile_guarded(&else_ifs[from].0, &else_ifs[from].1) {
                        Err(e) => {
                            return Err(e);
                        },
                        Ok(end_jump) => end_jump,
                    };
                    match self.compile_alternatives(statement, from + 1) {
                        Err(e) => {
                            return Err(e);
                        },
                        Ok(_) => {},
                    }
                    self.patch_jump(end_jump)
                } else {
                    match else_branch {
                        Some(statements) => self.compile_block(statements),
                        None => Ok(()),
                    }
                }
            },
            _ => Ok(()),
        }
    }

    fn compile_loop_body(
        &mut self,
        body: &Vec<Statement>,
        loop_start: usize,
        exit_jump: usize,
        counter: Option<&String>,
    ) -> (r: Result<(), LumaError>)
        ensures
            agrees(
                r,
                final(self)@,
                old(self)@.compile_loop_body(
                    body@,
                    loop_start as int,
                    exit_jump as int,
                    match counter {
                        Some(name) => Some(name@),
                        None => None,
                    },
                ),
            ),
        decreases body@, body@.len() + 2,
    {
        match self.compile_block(body) {
            Err(e) => {
                return Err(e);
            },
            Ok(_) => {},
        }
        match counter {
            Some(name) => {
                self.emit_constant(Value::String(name.clone()), OpCode::OpGetGlobal);
                self.emit_constant(Value::Number(number::ONE), OpCode::OpConstant);
                self.emit_opcode(OpCode::OpAdd);
                self.emit_constant(Value::String(name.clone()), OpCode::OpSetGlobal);
                self.emit_opcode(OpCode::OpPop);
            },
            None => {},
        }
        match self.emit_loop(loop_start) {
            Err(e) => {
                return Err(e);
            },
            Ok(_) => {},
        }
        match self.patch_jump(exit_jump) {
            Err(e) => {
                return Err(e);
            },
            Ok(_) => {},
        }
        self.emit_opcode(OpCode::OpPop);
        self.emit_opcode(OpCode::OpLoopEnd);
        Ok(())
    }

    fn compile_statement(&mut self, statement: &Statement) -> (r: Result<(), LumaError>)
        ensures
            agrees(r, final(self)@, old(self)@.compile_statement(*statement)),
        decreases statement, else_ifs_of(*statement).len() + 1,
    {
        match statement {
            Statement::Assignment { name, value } => {
                match self.compile_expression(value) {
                    Err(e) => {
                        return Err(e);
                    },
                    Ok(_) => {},
                }
                self.assign(name)
            },
            Statement::Show(expression) => {
                match self.compile_expression(expression) {
                    Err(e) => {
                        return Err(e);
                    },
                    Ok(_) => {},
                }
                self.emit_opcode(OpCode::OpPrint);
                Ok(())
            },
            Statement::If { condition, then_branch, else_ifs, else_branch } => {
                let end_jump = match self.compile_guarded(condition, then_branch) {
                    Err(e) => {
                        return Err(e);
                    },
                    Ok(end_jump) => end_jump,
                };
                match self.compile_alternatives(statement, 0) {
                    Err(e) => {
                        return Err(e);
                    },
                    Ok(_) => {},
                }
                self.patch_jump(end_jump)
            },
            Statement::While { condition, body } => {
                let loop_start: usize = self.chunk.code.len();
                self.emit_opcode(OpCode::OpLoopStart);
                match self.compile_expression(condition) {
                    Err(e) => {
                        return Err(e);
                    },
                    Ok(_) => {},
                }
                let exit_jump = self.emit_jump(OpCode::OpJumpIfFalse);
                self.emit_opcode(OpCode::OpPop);
                self.compile_loop_body(body, loop_start, exit_jump, None)
            },
            Statement::Repeat { count, body } => {
                match self.compile_expression(count) {
                    Err(e) => {
                        return Err(e);
                    },
                    Ok(_) => {},
                }
                let position: usize = self.chunk.code.len();
                let limit = synthesized_name("__repeat_count_", position);
                let counter = synthesized_name("__repeat_counter_", position);
                self.emit_constant(Value::String(limit.clone()), OpCode::OpDefineGlobal);
                self.emit_constant(Value::Number(number::ZERO), OpCode::OpConstant);
                self.emit_constant(Value::String(counter.clone()), OpCode::OpDefineGlobal);
                let loop_start: usize = self.chunk.code.len();
                self.emit_opcode(OpCode::OpLoopStart);
                self.emit_constant(Value::String(counter.clone()), OpCode::OpGetGlobal);
                self.emit_constant(Value::String(limit), OpCode::OpGetGlobal);
                self.emit_opcode(OpCode::OpLess);
                let exit_jump = self.emit_jump(OpCode::OpJumpIfFalse);
                self.emit_opcode(OpCode::OpPop);
                self.compile_loop_body(body, loop_start, exit_jump, Some(&counter))
            },
        }
    }

    fn assign(&mut self, name: &String) -> (r: Result<(), LumaError>)
        ensures
            agrees(r, final(self)@, old(self)@.assign(name@)),
    {
        if self.scope_depth > 0 {
            match self.resolve_local(name.as_str()) {
                Some(slot) => {
                    self.emit_opcode(OpCode::OpSetLocal);
                    self.emit_byte(slot_byte_of(slot));
                    self.emit_opcode(OpCode::OpPop);
                    Ok(())
                },
                None => self.add_local(name.clone()),
            }
        } else {
            self.emit_constant(Value::String(name.clone()), OpCode::OpSetGlobal);
            self.emit_opcode(OpCode::OpPop);
            Ok(())
        }
    }

    fn compile_expression(&mut self, expression: &Expression) -> (r: Result<(), LumaError>)
        ensures
            agrees(r, final(self)@, old(self)@.compile_expression(*expression)),
            expression.has_call() <==> r is Err,
        decreases expression,
    {
        match expression {
            Expression::Literal(bits) => {
                self.emit_constant(Value::Number(*bits), OpCode::OpConstant);
                Ok(())
            },
            Expression::StringLiteral(s) => {
                self.emit_constant(Value::String(s.clone()), OpCode::OpConstant);
                Ok(())
            },
            Expression::BooleanLiteral(b) => {
                if *b {
                    self.emit_opcode(OpCode::OpTrue);
                } else {
                    self.emit_opcode(OpCode::OpFalse);
                }
                Ok(())
            },
            Expression::Identifier(name) => {
                match self.resolve_local(name.as_str()) {
                    Some(slot) => {
                        self.emit_opcode(OpCode::OpGetLocal);
                        self.emit_byte(slot_byte_of(slot));
                    },
                    None => {
                        self.emit_constant(Value::String(name.clone()), OpCode::OpGetGlobal);
                    },
                }
                Ok(())
            },
            Expression::BinaryOp { left, operator, right } => {
                match self.compile_expression(left) {
                    Err(e) => {
                        return Err(e);
                    },
                    Ok(_) => {},
                }
                match self.compile_expression(right) {
                    Err(e) => {
                        return Err(e);
                    },
                    Ok(_) => {},
                }
                self.emit_opcode(binary_opcode_of(operator));
                Ok(())
            },
            Expression::UnaryOp { operator, operand } => {
                match self.compile_expression(operand) {
                    Err(e) => {
                        return Err(e);
                    },
                    Ok(_) => {},
                }
                self.emit_opcode(unary_opcode_of(operator));
                Ok(())
            },
            Expression::FunctionCall { .. } => Err(compile_failure_of("Function calls not implemented in JIT-VM")),
        }
    }

    fn emit_opcode(&mut self, opcode: OpCode)
        ensures
            final(self)@ == old(self)@.emit_opcode(opcode),
    {
        self.chunk.write_opcode(opcode, self.current_line);
    }

    fn emit_byte(&mut self, byte: u8)
        ensures
            final(self)@ == old(self)@.emit_byte(byte),
    {
        self.chunk.write_byte(byte, self.current_line);
    }

    fn emit_constant(&mut self, value: Value, opcode: OpCode)
        ensures
            final(self)@ == old(self)@.emit_constant(value@, opcode),
    {
        let slot = self.chunk.add_constant(value);
        self.emit_opcode(opcode);
        self.emit_byte(slot_byte_of(slot));
    }

    fn emit_jump(&mut self, opcode: OpCode) -> (offset: usize)
        ensures
            final(self)@ == old(self)@.emit_jump(opcode),
            offset == old(self)@.chunk.code.len() + 1,
    {
        self.chunk.emit_jump(opcode, 0)
    }

    fn patch_jump(&mut self, offset: usize) -> (r: Result<(), LumaError>)
        ensures
            agrees(r, final(self)@, old(self)@.patch_jump(offset as int)),
    {
        let end: usize = self.chunk.code.len();
        if offset < end && end - offset - 1 <= crate::shared::chunk::JUMP_MAX {
            self.chunk.patch_jump(offset);
            Ok(())
        } else {
            Err(compile_failure_of("Too much code to jump over"))
        }
    }

    fn emit_loop(&mut self, loop_start: usize) -> (r: Result<(), LumaError>)
        ensures
            agrees(r, final(self)@, old(self)@.emit_loop(loop_start as int)),
    {
        let end: usize = self.chunk.code.len();
        if loop_start <= end && end - loop_start <= crate::shared::chunk::JUMP_MAX - 2 {
            self.chunk.emit_loop(loop_start, 0);
            Ok(())
        } else {
            Err(compile_failure_of("Loop body too large"))
        }
    }

    fn add_local(&mut self, name: String) -> (r: Result<(), LumaError>)
        ensures
            agrees(r, final(self)@, old(self)@.add_local(name@)),
    {
        if self.locals.len() >= LOCALS_MAX {
            return Err(compile_failure_of("Too many local variables in scope"));
        }
        self.locals.push(Local { name, depth: Some(self.scope_depth) });
        assert(self@.locals =~= old(self)@.locals.push(LocalView { name: name@, depth: Some(self.scope_depth) }));
        Ok(())
    }

    fn resolve_local(&self, name: &str) -> (r: Option<usize>)
        ensures
            match r {
                Some(slot) => self@.resolve_local(name@) == Some(slot as int),
                None => self@.resolve_local(name@) is None,
            },
    {
        let mut i: usize = self.locals.len();
        while i > 0
            invariant
                i <= self.locals.len(),
                self@.resolve_local(name@) == resolve_before(self@.locals, name@, i as int),
            decreases i,
        {
            i = i - 1;
            if text::same_text(self.locals[i].name.as_str(), name) {
                return Some(i);
            }
        }
        None
    }

    fn begin_scope(&mut self)
        requires
            old(self)@.scope_depth < usize::MAX,
        ensures
            final(self)@ == old(self)@.begin_scope(),
    {
        self.scope_depth = self.scope_depth + 1;
    }

    fn end_scope(&mut self)
        requires
            old(self)@.scope_depth > 0,
        ensures
            final(self)@ == old(self)@.end_scope(),
    {
        self.scope_depth = self.scope_depth - 1;
        let ghost start = self@;
        let mut going: bool = true;
        while going && self.locals.len() > 0
            invariant
                start.discard_locals() == (if going {
                    self@.discard_locals()
                } else {
                    self@
                }),
            decreases
                    self.locals.len() + (if going {
                        1int
                    } else {
                        0int
                    }),
        {
            let last: usize = self.locals.len() - 1;
            let keep: bool = match self.locals[last].depth {
                Some(depth) => depth <= self.scope_depth,
                None => false,
            };
            if keep {
                going = false;
            } else {
                let ghost before = self@;
                self.locals.pop();
                assert(self@.locals =~= before.locals.drop_last());
                self.emit_opcode(OpCode::OpPop);
            }
        }
    }
}

impl Default for Compiler {
    fn default() -> (compiler: Compiler)
        ensures
            compiler@ == CompilerView::fresh(),
    {
        Compiler::new()
    }
}

} // verus!
