//! What holds of everything the compiler emits.
use vstd::prelude::*;
use crate::backend::vm::instruction::OpCode;
use crate::frontend::ast::Expression;
use crate::frontend::ast::Statement;
use crate::frontend::compiler::call_failure;
use crate::frontend::compiler::counter_name;
use crate::frontend::compiler::count_name;
use crate::frontend::compiler::else_ifs_of;
use crate::frontend::compiler::CompilerView;
use crate::shared::chunk::position_is_first;
use crate::shared::chunk::ChunkView;
use crate::shared::error::LumaErrorView;
use crate::shared::number;
use crate::shared::value::ValueView;

verus! {

/// Every local was declared at a depth that the compiler has reached.
pub open spec fn scoped(state: CompilerView) -> bool {
    forall|i: int|
        0 <= i < state.locals.len() ==> ((#[trigger] state.locals[i]).depth matches Some(depth) && depth
            <= state.scope_depth)
}

/// `after` is `before` with more code: the scope depth and the line are
/// the same, the old code bytes and the old locals are all where they
/// were, each code byte still has its line, and the new locals were
/// declared at the depth of `before`.
pub open spec fn follows(before: CompilerView, after: CompilerView) -> bool {
    &&& after.scope_depth == before.scope_depth
    &&& after.current_line == before.current_line
    &&& before.chunk.code.len() <= after.chunk.code.len()
    &&& forall|i: int| 0 <= i < before.chunk.code.len() ==> after.chunk.code[i] == before.chunk.code[i]
    &&& after.chunk.lines.len() - after.chunk.code.len() == before.chunk.lines.len()
        - before.chunk.code.len()
    &&& after.chunk.globals == before.chunk.globals
    &&& before.locals.len() <= after.locals.len()
    &&& forall|i: int| 0 <= i < before.locals.len() ==> after.locals[i] == before.locals[i]
    &&& forall|i: int|
        before.locals.len() <= i < after.locals.len() ==> (#[trigger] after.locals[i]).depth == Some(
            before.scope_depth,
        )
}

/// An expression compiles if and only if no function call stands in it,
/// and a call fails it with the error for calls.
pub proof fn expression_fails_on_calls(state: CompilerView, expression: Expression)
    ensures
        state.compile_expression(expression) is Err <==> expression.has_call(),
        state.compile_expression(expression) matches Err(e) ==> e == call_failure(),
    decreases expression,
{
    match expression {
        Expression::BinaryOp { left, operator, right } => {
            expression_fails_on_calls(state, *left);
            if let Ok(after_left) = state.compile_expression(*left) {
                expression_fails_on_calls(after_left, *right);
            }
        },
        Expression::UnaryOp { operator, operand } => {
            expression_fails_on_calls(state, *operand);
        },
        _ => {},
    }
}

/// A function call fails to compile, whatever its name and arguments, and
/// so does a statement that shows or assigns one.
pub proof fn call_never_compiles(state: CompilerView, name: String, arguments: Vec<Expression>, target: String)
    ensures
        state.compile_expression(Expression::FunctionCall { name, arguments }) == Err::<
            CompilerView,
            LumaErrorView,
        >(call_failure()),
        state.compile_statement(Statement::Show(Expression::FunctionCall { name, arguments })) == Err::<
            CompilerView,
            LumaErrorView,
        >(call_failure()),
        state.compile_statement(
            Statement::Assignment { name: target, value: Expression::FunctionCall { name, arguments } },
        ) == Err::<CompilerView, LumaErrorView>(call_failure()),
{
}

/// Compiling is a function of the compiler's state and the statements:
/// the same two give the same chunk, byte for byte, with the same
/// constants in the same slots.
pub proof fn same_statements_same_chunk(first: CompilerView, second: CompilerView, statements: Seq<Statement>)
    requires
        first == second,
    ensures
        first.compile(statements) == second.compile(statements),
{
}

/// A constant that equals itself takes one slot however often it is added.
pub proof fn constant_is_added_once(chunk: ChunkView, value: ValueView)
    requires
        value.equals(value),
    ensures
        chunk.add_constant(value).add_constant(value) == chunk.add_constant(value),
        chunk.add_constant(value).constant_slot(value) == chunk.constant_slot(value),
        chunk.add_constant(value).constants[chunk.constant_slot(value)].equals(value),
{
    position_is_first(chunk.constants, value, 0);
    let slot = chunk.constant_slot(value);
    let added = chunk.add_constant(value);
    position_is_first(added.constants, value, 0);
    let again = added.constant_slot(value);
    if again < slot {
        assert(added.constants[again] == chunk.constants[again]);
    }
    if slot < chunk.constants.len() {
    } else {
        assert(added.constants[slot] == value);
    }
}

proof fn follows_chain(a: CompilerView, b: CompilerView, c: CompilerView)
    requires
        follows(a, b),
        follows(b, c),
    ensures
        follows(a, c),
{
    assert forall|i: int| a.locals.len() <= i < c.locals.len() implies (#[trigger] c.locals[i]).depth == Some(
        a.scope_depth,
    ) by {
        if i < b.locals.len() {
            assert(c.locals[i] == b.locals[i]);
        }
    }
}

proof fn scoped_follows(before: CompilerView, after: CompilerView)
    requires
        scoped(before),
        follows(before, after),
    ensures
        scoped(after),
{
    assert forall|i: int| 0 <= i < after.locals.len() implies ((#[trigger] after.locals[i]).depth matches Some(
        depth,
    ) && depth <= after.scope_depth) by {
        if i < before.locals.len() {
            assert(after.locals[i] == before.locals[i]);
        }
    }
}

/// A patch at or above the end of `base`'s code keeps what followed
/// `base` following it.
proof fn patch_follows(base: CompilerView, state: CompilerView, offset: int)
    requires
        follows(base, state),
        base.chunk.code.len() <= offset,
    ensures
        state.patch_jump(offset) matches Ok(after) ==> follows(base, after) && after.locals == state.locals,
{
}

proof fn constant_follows(state: CompilerView, value: ValueView, opcode: OpCode)
    ensures
        follows(state, state.emit_constant(value, opcode)),
        state.emit_constant(value, opcode).locals == state.locals,
        state.emit_constant(value, opcode).chunk.code.len() == state.chunk.code.len() + 2,
{
}

/// An expression's code comes after the code before it and declares no
/// local.
pub proof fn expression_follows(state: CompilerView, expression: Expression)
    ensures
        state.compile_expression(expression) matches Ok(after) ==> follows(state, after) && after.locals
            == state.locals,
    decreases expression,
{
    match expression {
        Expression::BinaryOp { left, operator, right } => {
            expression_follows(state, *left);
            if let Ok(after_left) = state.compile_expression(*left) {
                expression_follows(after_left, *right);
                if let Ok(after_right) = after_left.compile_expression(*right) {
                    follows_chain(state, after_left, after_right);
                }
            }
        },
        Expression::UnaryOp { operator, operand } => {
            expression_follows(state, *operand);
        },
        Expression::Literal(bits) => {
            constant_follows(state, ValueView::Number(bits), OpCode::OpConstant);
        },
        Expression::StringLiteral(s) => {
            constant_follows(state, ValueView::String(s@), OpCode::OpConstant);
        },
        Expression::Identifier(name) => {
            constant_follows(state, ValueView::String(name@), OpCode::OpGetGlobal);
        },
        _ => {},
    }
}

/// Leaving a scope drops the locals that were declared in it, with a
/// `Pop` for each, and no other.
proof fn discard_drops_the_scope(state: CompilerView, kept: int)
    requires
        0 <= kept <= state.locals.len(),
        forall|i: int|
            0 <= i < kept ==> ((#[trigger] state.locals[i]).depth matches Some(depth) && depth
                <= state.scope_depth),
        forall|i: int| kept <= i < state.locals.len() ==> (#[trigger] state.locals[i]).depth == Some(
            (state.scope_depth + 1) as usize,
        ),
        state.scope_depth < usize::MAX,
    ensures
        state.discard_locals().locals == state.locals.take(kept),
        state.discard_locals().scope_depth == state.scope_depth,
        state.discard_locals().current_line == state.current_line,
        state.discard_locals().chunk.globals == state.chunk.globals,
        state.discard_locals().chunk.code.len() == state.chunk.code.len() + state.locals.len() - kept,
        forall|i: int|
            0 <= i < state.chunk.code.len() ==> state.discard_locals().chunk.code[i] == state.chunk.code[i],
        state.discard_locals().chunk.lines.len() - state.discard_locals().chunk.code.len()
            == state.chunk.lines.len() - state.chunk.code.len(),
    decreases state.locals.len() - kept,
{
    if state.locals.len() == kept {
        assert(state.locals.take(kept) =~= state.locals);
        if kept > 0 {
            assert(state.locals.last() == state.locals[kept - 1]);
        }
    } else {
        assert(state.locals.last() == state.locals[state.locals.len() - 1]);
        let next = CompilerView { locals: state.locals.drop_last(), ..state }.emit_opcode(OpCode::OpPop);
        assert forall|i: int| 0 <= i < kept implies ((#[trigger] next.locals[i]).depth matches Some(depth)
            && depth <= next.scope_depth) by {
            assert(next.locals[i] == state.locals[i]);
        }
        assert forall|i: int| kept <= i < next.locals.len() implies (#[trigger] next.locals[i]).depth == Some(
            (next.scope_depth + 1) as usize,
        ) by {
            assert(next.locals[i] == state.locals[i]);
        }
        discard_drops_the_scope(next, kept);
        assert(next.locals.take(kept) =~= state.locals.take(kept));
        assert forall|i: int| 0 <= i < state.chunk.code.len() implies state.discard_locals().chunk.code[i]
            == state.chunk.code[i] by {
            assert(next.chunk.code[i] == state.chunk.code[i]);
            assert(next.discard_locals().chunk.code[i] == next.chunk.code[i]);
        }
    }
}

/// A statement's code comes after the code before it.
pub proof fn statement_follows(state: CompilerView, statement: Statement)
    requires
        scoped(state),
    ensures
        state.compile_statement(statement) matches Ok(after) ==> follows(state, after),
    decreases statement, else_ifs_of(statement).len() + 1,
{
    match statement {
        Statement::Assignment { name, value } => {
            expression_follows(state, value);
            if let Ok(valued) = state.compile_expression(value) {
                constant_follows(valued, ValueView::String(name@), OpCode::OpSetGlobal);
                if let Ok(after) = valued.assign(name@) {
                    assert(follows(valued, after));
                    follows_chain(state, valued, after);
                }
            }
        },
        Statement::Show(expression) => {
            expression_follows(state, expression);
        },
        Statement::If { condition, then_branch, else_ifs, else_branch } => {
            guarded_follows(state, condition, then_branch@);
            if let Ok((guarded, end_jump)) = state.compile_guarded(condition, then_branch@) {
                scoped_follows(state, guarded);
                alternatives_follow(guarded, statement, 0);
                if let Ok(rest) = guarded.compile_alternatives(statement, 0) {
                    follows_chain(state, guarded, rest);
                    patch_follows(state, rest, end_jump);
                }
            }
        },
        Statement::While { condition, body } => {
            let marked = state.emit_opcode(OpCode::OpLoopStart);
            expression_follows(marked, condition);
            if let Ok(tested) = marked.compile_expression(condition) {
                let entered = tested.emit_jump(OpCode::OpJumpIfFalse).emit_opcode(OpCode::OpPop);
                follows_chain(state, marked, tested);
                follows_chain(state, tested, entered);
                scoped_follows(state, entered);
                loop_body_follows(
                    state,
                    entered,
                    body@,
                    state.chunk.code.len() as int,
                    (tested.chunk.code.len() + 1) as int,
                    None,
                );
            }
        },
        Statement::Repeat { count, body } => {
            expression_follows(state, count);
            if let Ok(counted) = state.compile_expression(count) {
                let position = counted.chunk.code.len();
                let limit = ValueView::String(count_name(position));
                let counter = ValueView::String(counter_name(position));
                let limited = counted.emit_constant(limit, OpCode::OpDefineGlobal);
                let zeroed = limited.emit_constant(ValueView::Number(number::ZERO), OpCode::OpConstant);
                let ready = zeroed.emit_constant(counter, OpCode::OpDefineGlobal);
                let marked = ready.emit_opcode(OpCode::OpLoopStart);
                let fetched = marked.emit_constant(counter, OpCode::OpGetGlobal);
                let bounded = fetched.emit_constant(limit, OpCode::OpGetGlobal);
                let tested = bounded.emit_opcode(OpCode::OpLess);
                let entered = tested.emit_jump(OpCode::OpJumpIfFalse).emit_opcode(OpCode::OpPop);
                constant_follows(counted, limit, OpCode::OpDefineGlobal);
                constant_follows(limited, ValueView::Number(number::ZERO), OpCode::OpConstant);
                constant_follows(zeroed, counter, OpCode::OpDefineGlobal);
                constant_follows(marked, counter, OpCode::OpGetGlobal);
                constant_follows(fetched, limit, OpCode::OpGetGlobal);
                follows_chain(state, counted, limited);
                follows_chain(state, limited, zeroed);
                follows_chain(state, zeroed, ready);
                follows_chain(state, ready, marked);
                follows_chain(state, marked, fetched);
                follows_chain(state, fetched, bounded);
                follows_chain(state, bounded, tested);
                follows_chain(state, tested, entered);
                scoped_follows(state, entered);
                loop_body_follows(
                    state,
                    entered,
                    body@,
                    ready.chunk.code.len() as int,
                    (tested.chunk.code.len() + 1) as int,
                    Some(counter_name(position)),
                );
            }
        },
    }
}

/// The statements of a list come after the code before them.
pub proof fn statements_follow(state: CompilerView, statements: Seq<Statement>, from: int)
    requires
        scoped(state),
    ensures
        state.compile_statements(statements, from) matches Ok(after) ==> follows(state, after),
    decreases statements, statements.len() - from,
{
    if 0 <= from < statements.len() {
        statement_follows(state, statements[from]);
        if let Ok(after) = state.compile_statement(statements[from]) {
            scoped_follows(state, after);
            statements_follow(after, statements, from + 1);
            if let Ok(last) = after.compile_statements(statements, from + 1) {
                follows_chain(state, after, last);
            }
        }
    }
}

/// A block's code comes after the code before it, and the locals after
/// the block are the locals before it: what a block declares is gone when
/// the block ends.
pub proof fn block_restores_locals(state: CompilerView, statements: Seq<Statement>)
    requires
        scoped(state),
    ensures
        state.compile_block(statements) matches Ok(after) ==> follows(state, after) && after.locals
            == state.locals,
    decreases statements, statements.len() + 1,
{
    if state.scope_depth < usize::MAX {
        let begun = state.begin_scope();
        assert(scoped(begun)) by {
            assert forall|i: int| 0 <= i < begun.locals.len() implies ((#[trigger] begun.locals[i]).depth matches Some(
                depth,
            ) && depth <= begun.scope_depth) by {
                assert(begun.locals[i] == state.locals[i]);
            }
        }
        statements_follow(begun, statements, 0);
        if let Ok(inner) = begun.compile_statements(statements, 0) {
            let left = CompilerView { scope_depth: (inner.scope_depth - 1) as usize, ..inner };
            assert forall|i: int| 0 <= i < state.locals.len() implies ((#[trigger] left.locals[i]).depth matches Some(
                depth,
            ) && depth <= left.scope_depth) by {
                assert(left.locals[i] == state.locals[i]);
            }
            discard_drops_the_scope(left, state.locals.len() as int);
            assert(left.locals.take(state.locals.len() as int) =~= state.locals);
        }
    }
}

proof fn guarded_follows(state: CompilerView, condition: Expression, branch: Seq<Statement>)
    requires
        scoped(state),
    ensures
        state.compile_guarded(condition, branch) matches Ok((after, end_jump)) ==> follows(state, after)
            && after.locals == state.locals && state.chunk.code.len() <= end_jump,
    decreases branch, branch.len() + 2,
{
    expression_follows(state, condition);
    if let Ok(tested) = state.compile_expression(condition) {
        let entered = tested.emit_jump(OpCode::OpJumpIfFalse).emit_opcode(OpCode::OpPop);
        follows_chain(state, tested, entered);
        scoped_follows(state, entered);
        block_restores_locals(entered, branch);
        if let Ok(taken) = entered.compile_block(branch) {
            follows_chain(state, entered, taken);
            let left = taken.emit_jump(OpCode::OpJump);
            follows_chain(state, taken, left);
            patch_follows(state, left, (tested.chunk.code.len() + 1) as int);
        }
    }
}

proof fn alternatives_follow(state: CompilerView, statement: Statement, from: int)
    requires
        scoped(state),
    ensures
        state.compile_alternatives(statement, from) matches Ok(after) ==> follows(state, after)
            && after.locals == state.locals,
    decreases statement, else_ifs_of(statement).len() - from,
{
    match statement {
        Statement::If { condition, then_branch, else_ifs, else_branch } => {
            if 0 <= from < else_ifs.len() {
                guarded_follows(state, else_ifs[from].0, else_ifs[from].1@);
                if let Ok((guarded, end_jump)) = state.compile_guarded(else_ifs[from].0, else_ifs[from].1@) {
                    scoped_follows(state, guarded);
                    alternatives_follow(guarded, statement, from + 1);
                    if let Ok(rest) = guarded.compile_alternatives(statement, from + 1) {
                        follows_chain(state, guarded, rest);
                        patch_follows(state, rest, end_jump);
                    }
                }
            } else {
                match else_branch {
                    Some(statements) => {
                        block_restores_locals(state, statements@);
                    },
                    None => {},
                }
            }
        },
        _ => {},
    }
}

proof fn loop_body_follows(
    base: CompilerView,
    state: CompilerView,
    body: Seq<Statement>,
    loop_start: int,
    exit_jump: int,
    counter: Option<Seq<char>>,
)
    requires
        scoped(state),
        follows(base, state),
        state.locals == base.locals,
        base.chunk.code.len() <= exit_jump,
    ensures
        state.compile_loop_body(body, loop_start, exit_jump, counter) matches Ok(after) ==> follows(
            base,
            after,
        ) && after.locals == base.locals,
    decreases body, body.len() + 2,
{
    block_restores_locals(state, body);
    if let Ok(done) = state.compile_block(body) {
        follows_chain(base, state, done);
        let stepped = match counter {
            Some(name) => done.step_counter(name),
            None => done,
        };
        if let Some(name) = counter {
            let counter_value = ValueView::String(name);
            let fetched = done.emit_constant(counter_value, OpCode::OpGetGlobal);
            let one = fetched.emit_constant(ValueView::Number(number::ONE), OpCode::OpConstant);
            let added = one.emit_opcode(OpCode::OpAdd);
            let stored = added.emit_constant(counter_value, OpCode::OpSetGlobal);
            constant_follows(done, counter_value, OpCode::OpGetGlobal);
            constant_follows(fetched, ValueView::Number(number::ONE), OpCode::OpConstant);
            constant_follows(added, counter_value, OpCode::OpSetGlobal);
            follows_chain(base, done, fetched);
            follows_chain(base, fetched, one);
            follows_chain(base, one, added);
            follows_chain(base, added, stored);
            follows_chain(base, stored, stepped);
        }
        if let Ok(looped) = stepped.emit_loop(loop_start) {
            follows_chain(base, stepped, looped);
            patch_follows(base, looped, exit_jump);
        }
    }
}

/// A program's code comes after the code before it.
pub proof fn program_follows(state: CompilerView, statements: Seq<Statement>, from: int)
    requires
        scoped(state),
    ensures
        state.compile_program(statements, from) matches Ok(after) ==> after.scope_depth == state.scope_depth
            && state.chunk.code.len() <= after.chunk.code.len() && after.chunk.lines.len()
            - after.chunk.code.len() == state.chunk.lines.len() - state.chunk.code.len()
            && after.chunk.globals == state.chunk.globals,
    decreases statements.len() - from,
{
    if 0 <= from < statements.len() {
        let lined = CompilerView { current_line: crate::frontend::compiler::statement_line((from + 1) as usize), ..state };
        statement_follows(lined, statements[from]);
        if let Ok(after) = lined.compile_statement(statements[from]) {
            scoped_follows(lined, after);
            program_follows(after, statements, from + 1);
        }
    }
}

/// A chunk that compiles from a well-formed one is well-formed, and its
/// last instruction is `Return`.
pub proof fn compiled_chunk_is_well_formed(state: CompilerView, statements: Seq<Statement>)
    requires
        scoped(state),
        state.chunk.well_formed(),
    ensures
        state.compile(statements) matches Ok(chunk) ==> chunk.well_formed() && chunk.code.len() > 0
            && chunk.code.last() == OpCode::OpReturn.byte(),
{
    program_follows(state, statements, 0);
}

} // verus!
