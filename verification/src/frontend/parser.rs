//! The parser: from tokens to statements, by recursive descent.
use vstd::prelude::*;
use crate::frontend::ast::expression_views;
use crate::frontend::ast::expression_views_push;
use crate::frontend::ast::statement_views_push;
use crate::frontend::ast::else_if_views_push;
use crate::frontend::ast::statement_views;
use crate::frontend::ast::else_if_views;
use crate::frontend::ast::BinaryOperator;
use crate::frontend::ast::Expression;
use crate::frontend::ast::ExpressionView;
use crate::frontend::ast::Statement;
use crate::frontend::ast::StatementView;
use crate::frontend::ast::UnaryOperator;
use crate::frontend::token::Token;
use crate::frontend::token::TokenView;
use crate::shared::error::LumaError;
use crate::shared::error::LumaErrorView;

verus! {

/// The loosest level of binary operators: `or`.
pub const LEVELS: u8 = 6;

pub open spec fn parse_failure(message: Seq<char>) -> LumaErrorView {
    LumaErrorView::ParseError { message, line: 0 }
}

/// The token at `current`; beyond the tokens it is `Eof`.
pub open spec fn peek(tokens: Seq<Token>, current: int) -> TokenView {
    if 0 <= current < tokens.len() {
        tokens[current]@
    } else {
        TokenView::Eof
    }
}

/// Whether the token at `current` is of the kind of `kind`; `Eof` is of no
/// kind.
pub open spec fn check(tokens: Seq<Token>, current: int, kind: TokenView) -> bool {
    !(peek(tokens, current) is Eof) && peek(tokens, current).kind() == kind.kind()
}

/// The end of the line ends from `current` on.
pub open spec fn newlines_end(tokens: Seq<Token>, current: int) -> int
    decreases tokens.len() - current,
{
    if check(tokens, current, TokenView::Newline) {
        newlines_end(tokens, current + 1)
    } else {
        current
    }
}

pub proof fn newlines_end_bounds(tokens: Seq<Token>, current: int)
    ensures
        current <= newlines_end(tokens, current),
        current <= tokens.len() ==> newlines_end(tokens, current) <= tokens.len(),
    decreases tokens.len() - current,
{
    if check(tokens, current, TokenView::Newline) {
        newlines_end_bounds(tokens, current + 1);
    }
}

pub open spec fn expected(message: Seq<char>, kind: TokenView, found: TokenView) -> LumaErrorView {
    parse_failure(message + ": expected '"@ + kind.to_text() + "', found '"@ + found.to_text() + "'"@)
}

/// The place after the token at `current` if it is of the kind of `kind`.
pub open spec fn consume(tokens: Seq<Token>, current: int, kind: TokenView, message: Seq<char>) -> Result<
    int,
    LumaErrorView,
> {
    if check(tokens, current, kind) {
        Ok(current + 1)
    } else {
        Err(expected(message, kind, peek(tokens, current)))
    }
}

/// The binary operator that `token` stands for at `level`. The levels
/// from the tightest to the loosest: 1 multiplication, 2 addition, 3
/// comparison, 4 equality, 5 `and`, 6 `or`.
pub open spec fn operator_at(level: int, token: TokenView) -> Option<BinaryOperator> {
    if level == 1 {
        match token {
            TokenView::Multiply => Some(BinaryOperator::Multiply),
            TokenView::Divide => Some(BinaryOperator::Divide),
            TokenView::Modulo => Some(BinaryOperator::Modulo),
            _ => None,
        }
    } else if level == 2 {
        match token {
            TokenView::Plus => Some(BinaryOperator::Add),
            TokenView::Minus => Some(BinaryOperator::Subtract),
            _ => None,
        }
    } else if level == 3 {
        match token {
            TokenView::GreaterThan => Some(BinaryOperator::GreaterThan),
            TokenView::LessThan => Some(BinaryOperator::LessThan),
            TokenView::GreaterEqual => Some(BinaryOperator::GreaterEqual),
            TokenView::LessEqual => Some(BinaryOperator::LessEqual),
            _ => None,
        }
    } else if level == 4 {
        match token {
            TokenView::Equal => Some(BinaryOperator::Equal),
            TokenView::NotEqual => Some(BinaryOperator::NotEqual),
            TokenView::Is => Some(BinaryOperator::Equal),
            TokenView::IsNot => Some(BinaryOperator::NotEqual),
            _ => None,
        }
    } else if level == 5 {
        match token {
            TokenView::And => Some(BinaryOperator::And),
            _ => None,
        }
    } else if level == 6 {
        match token {
            TokenView::Or => Some(BinaryOperator::Or),
            _ => None,
        }
    } else {
        None
    }
}

pub open spec fn binary(left: ExpressionView, operator: BinaryOperator, right: ExpressionView) -> ExpressionView {
    ExpressionView::BinaryOp { left: Box::new(left), operator, right: Box::new(right) }
}

/// An expression of binary operators up to `level`, from `current` on,
/// and where it ends: operands of the next tighter level, joined from the
/// left. Level 0 is a unary expression.
pub open spec fn parse_binary(tokens: Seq<Token>, current: int, level: nat) -> Result<
    (ExpressionView, int),
    LumaErrorView,
>
    decreases tokens.len() - current, 2 * level + 2,
{
    if level == 0 {
        parse_unary(tokens, current)
    } else {
        match parse_binary(tokens, current, (level - 1) as nat) {
            Err(e) => Err(e),
            Ok((left, next)) => if current < next <= tokens.len() {
                parse_binary_rest(tokens, next, level, left)
            } else {
                Ok((left, next))
            },
        }
    }
}

/// What follows the operand `left` at `level`: as long as an operator of
/// the level comes next, it and its right operand.
pub open spec fn parse_binary_rest(tokens: Seq<Token>, current: int, level: nat, left: ExpressionView) -> Result<
    (ExpressionView, int),
    LumaErrorView,
>
    decreases tokens.len() - current, 2 * level + 1,
{
    match operator_at(level as int, peek(tokens, current)) {
        None => Ok((left, current)),
        Some(operator) => if level == 0 {
            Ok((left, current))
        } else {
            match parse_binary(tokens, current + 1, (level - 1) as nat) {
                Err(e) => Err(e),
                Ok((right, next)) => if current < next <= tokens.len() {
                    parse_binary_rest(tokens, next, level, binary(left, operator, right))
                } else {
                    Ok((left, next))
                },
            }
        },
    }
}

/// `not` or `-` before a unary expression, or a primary expression.
pub open spec fn parse_unary(tokens: Seq<Token>, current: int) -> Result<(ExpressionView, int), LumaErrorView>
    decreases tokens.len() - current, 1int,
{
    if check(tokens, current, TokenView::Not) || check(tokens, current, TokenView::Minus) {
        match parse_unary(tokens, current + 1) {
            Err(e) => Err(e),
            Ok((operand, next)) => Ok(
                (
                    ExpressionView::UnaryOp {
                        operator: if check(tokens, current, TokenView::Not) {
                            UnaryOperator::Not
                        } else {
                            UnaryOperator::Minus
                        },
                        operand: Box::new(operand),
                    },
                    next,
                ),
            ),
        }
    } else {
        parse_primary(tokens, current)
    }
}

/// A literal, a name, a call, or an expression in parentheses.
pub open spec fn parse_primary(tokens: Seq<Token>, current: int) -> Result<(ExpressionView, int), LumaErrorView>
    decreases tokens.len() - current, 0int,
{
    match peek(tokens, current) {
        TokenView::Number(bits, _) => Ok((ExpressionView::Literal(bits), current + 1)),
        TokenView::String(s) => Ok((ExpressionView::StringLiteral(s), current + 1)),
        TokenView::True => Ok((ExpressionView::BooleanLiteral(true), current + 1)),
        TokenView::False => Ok((ExpressionView::BooleanLiteral(false), current + 1)),
        TokenView::Identifier(name) => if check(tokens, current + 1, TokenView::LeftParen) {
            let listed = if check(tokens, current + 2, TokenView::RightParen) {
                Ok((Seq::empty(), current + 2))
            } else {
                parse_arguments(tokens, current + 2, Seq::empty())
            };
            match listed {
                Err(e) => Err(e),
                Ok((arguments, next)) => match consume(
                    tokens,
                    next,
                    TokenView::RightParen,
                    "Expected ')' after function arguments"@,
                ) {
                    Err(e) => Err(e),
                    Ok(end) => Ok((ExpressionView::FunctionCall { name, arguments }, end)),
                },
            }
        } else {
            Ok((ExpressionView::Identifier(name), current + 1))
        },
        TokenView::LeftParen => match parse_binary(tokens, current + 1, LEVELS as nat) {
            Err(e) => Err(e),
            Ok((inner, next)) => match consume(
                tokens,
                next,
                TokenView::RightParen,
                "Expected ')' after expression"@,
            ) {
                Err(e) => Err(e),
                Ok(end) => Ok((inner, end)),
            },
        },
        found => Err(parse_failure("Expected expression, found '"@ + found.to_text() + "'"@)),
    }
}

/// The arguments of a call after `gathered`, with commas between them.
pub open spec fn parse_arguments(tokens: Seq<Token>, current: int, gathered: Seq<ExpressionView>) -> Result<
    (Seq<ExpressionView>, int),
    LumaErrorView,
>
    decreases tokens.len() - current, 2 * LEVELS + 3,
{
    match parse_binary(tokens, current, LEVELS as nat) {
        Err(e) => Err(e),
        Ok((argument, next)) => if current < next && check(tokens, next, TokenView::Comma) {
            parse_arguments(tokens, next + 1, gathered.push(argument))
        } else {
            Ok((gathered.push(argument), next))
        },
    }
}

/// An expression from `current` on, and where it ends.
pub open spec fn parse_expression(tokens: Seq<Token>, current: int) -> Result<(ExpressionView, int), LumaErrorView> {
    parse_binary(tokens, current, LEVELS as nat)
}

/// An expression that parses ends after its start, within the tokens.
pub proof fn expression_advances(tokens: Seq<Token>, current: int, level: nat)
    requires
        0 <= current,
    ensures
        parse_binary(tokens, current, level) matches Ok((_, next)) ==> current < next <= tokens.len(),
    decreases tokens.len() - current, 2 * level + 2,
{
    if level == 0 {
        unary_advances(tokens, current);
    } else {
        expression_advances(tokens, current, (level - 1) as nat);
        if let Ok((left, next)) = parse_binary(tokens, current, (level - 1) as nat) {
            rest_advances(tokens, next, level, left);
        }
    }
}

proof fn rest_advances(tokens: Seq<Token>, current: int, level: nat, left: ExpressionView)
    requires
        0 <= current <= tokens.len(),
    ensures
        parse_binary_rest(tokens, current, level, left) matches Ok((_, next)) ==> current <= next
            <= tokens.len(),
    decreases tokens.len() - current, 2 * level + 1,
{
    if let Some(operator) = operator_at(level as int, peek(tokens, current)) {
        if level > 0 {
            expression_advances(tokens, current + 1, (level - 1) as nat);
            if let Ok((right, next)) = parse_binary(tokens, current + 1, (level - 1) as nat) {
                rest_advances(tokens, next, level, binary(left, operator, right));
            }
        }
    }
}

proof fn unary_advances(tokens: Seq<Token>, current: int)
    requires
        0 <= current,
    ensures
        parse_unary(tokens, current) matches Ok((_, next)) ==> current < next <= tokens.len(),
    decreases tokens.len() - current, 1int,
{
    if check(tokens, current, TokenView::Not) || check(tokens, current, TokenView::Minus) {
        unary_advances(tokens, current + 1);
    } else {
        primary_advances(tokens, current);
    }
}

proof fn primary_advances(tokens: Seq<Token>, current: int)
    requires
        0 <= current,
    ensures
        parse_primary(tokens, current) matches Ok((_, next)) ==> current < next <= tokens.len(),
    decreases tokens.len() - current, 0int,
{
    match peek(tokens, current) {
        TokenView::Identifier(name) => {
            if check(tokens, current + 1, TokenView::LeftParen) {
                if !check(tokens, current + 2, TokenView::RightParen) {
                    arguments_advance(tokens, current + 2, Seq::empty());
                }
            }
        },
        TokenView::LeftParen => {
            expression_advances(tokens, current + 1, LEVELS as nat);
        },
        _ => {},
    }
}

proof fn arguments_advance(tokens: Seq<Token>, current: int, gathered: Seq<ExpressionView>)
    requires
        0 <= current,
    ensures
        parse_arguments(tokens, current, gathered) matches Ok((_, next)) ==> current < next <= tokens.len(),
    decreases tokens.len() - current, 2 * LEVELS + 3,
{
    expression_advances(tokens, current, LEVELS as nat);
    if let Ok((argument, next)) = parse_binary(tokens, current, LEVELS as nat) {
        if check(tokens, next, TokenView::Comma) {
            arguments_advance(tokens, next + 1, gathered.push(argument));
        }
    }
}

/// Precedence: the operands of an operator of a level are expressions of
/// the next tighter level. Where such an expression is followed by an
/// operator of the level and another such expression, and then by no
/// operator of the level, the three are one binary operation; where more
/// follows, the operation is the left operand of what follows.
pub proof fn operands_are_of_the_tighter_level(
    tokens: Seq<Token>,
    current: int,
    level: nat,
    left: ExpressionView,
    operator: BinaryOperator,
    right: ExpressionView,
    after_left: int,
    after_right: int,
)
    requires
        0 <= current,
        level > 0,
        parse_binary(tokens, current, (level - 1) as nat) == Ok::<(ExpressionView, int), LumaErrorView>(
            (left, after_left),
        ),
        operator_at(level as int, peek(tokens, after_left)) == Some(operator),
        parse_binary(tokens, after_left + 1, (level - 1) as nat) == Ok::<(ExpressionView, int), LumaErrorView>(
            (right, after_right),
        ),
    ensures
        parse_binary(tokens, current, level) == parse_binary_rest(
            tokens,
            after_right,
            level,
            binary(left, operator, right),
        ),
        operator_at(level as int, peek(tokens, after_right)) is None ==> parse_binary(tokens, current, level)
            == Ok::<(ExpressionView, int), LumaErrorView>((binary(left, operator, right), after_right)),
{
    expression_advances(tokens, current, (level - 1) as nat);
    expression_advances(tokens, after_left + 1, (level - 1) as nat);
    let joined = binary(left, operator, right);
    assert(parse_binary(tokens, current, level) == parse_binary_rest(tokens, after_left, level, left));
    assert(parse_binary_rest(tokens, after_left, level, left) == parse_binary_rest(
        tokens,
        after_right,
        level,
        joined,
    ));
    if operator_at(level as int, peek(tokens, after_right)) is None {
        assert(parse_binary_rest(tokens, after_right, level, joined) == Ok::<
            (ExpressionView, int),
            LumaErrorView,
        >((joined, after_right)));
    }
}

/// Whether a statement can start with `token`.
pub open spec fn starts_statement(token: TokenView) -> bool {
    token is Let || token is Show || token is If || token is While || token is Repeat || token is Identifier
}

/// `let name be value`, with `is` in place of `be` if one likes.
pub open spec fn parse_assignment(tokens: Seq<Token>, current: int) -> Result<(StatementView, int), LumaErrorView> {
    match consume(tokens, current, TokenView::Let, "Expected 'let'"@) {
        Err(e) => Err(e),
        Ok(named) => match peek(tokens, named) {
            TokenView::Identifier(name) => if check(tokens, named + 1, TokenView::Be) || check(
                tokens,
                named + 1,
                TokenView::Is,
            ) {
                match parse_expression(tokens, named + 2) {
                    Err(e) => Err(e),
                    Ok((value, next)) => Ok((StatementView::Assignment { name, value }, next)),
                }
            } else {
                Err(parse_failure("Expected 'be' or 'is' after identifier"@))
            },
            _ => Err(parse_failure("Expected identifier after 'let'"@)),
        },
    }
}

/// `name is value` or `name = value`.
pub open spec fn parse_variable_reassignment(tokens: Seq<Token>, current: int) -> Result<
    (StatementView, int),
    LumaErrorView,
> {
    match peek(tokens, current) {
        TokenView::Identifier(name) => if check(tokens, current + 1, TokenView::Is) || check(
            tokens,
            current + 1,
            TokenView::Assign,
        ) {
            match parse_expression(tokens, current + 2) {
                Err(e) => Err(e),
                Ok((value, next)) => Ok((StatementView::Assignment { name, value }, next)),
            }
        } else {
            Err(parse_failure("Expected 'is' or '=' after identifier"@))
        },
        _ => Err(parse_failure("Expected identifier"@)),
    }
}

/// `show expression`.
pub open spec fn parse_show(tokens: Seq<Token>, current: int) -> Result<(StatementView, int), LumaErrorView> {
    match consume(tokens, current, TokenView::Show, "Expected 'show'"@) {
        Err(e) => Err(e),
        Ok(shown) => match parse_expression(tokens, shown) {
            Err(e) => Err(e),
            Ok((expression, next)) => Ok((StatementView::Show(expression), next)),
        },
    }
}

/// The condition after the keyword at `current` and the `then` behind it;
/// what comes back is the condition and the place after `then`.
pub open spec fn parse_condition(tokens: Seq<Token>, current: int, message: Seq<char>) -> Result<
    (ExpressionView, int),
    LumaErrorView,
> {
    match parse_expression(tokens, current + 1) {
        Err(e) => Err(e),
        Ok((condition, next)) => match consume(tokens, next, TokenView::Then, message) {
            Err(e) => Err(e),
            Ok(body) => Ok((condition, body)),
        },
    }
}

/// One statement from `current` on, and where it ends.
pub open spec fn parse_statement(tokens: Seq<Token>, current: int) -> Result<(StatementView, int), LumaErrorView>
    decreases tokens.len() - current, 1int,
{
    if current < 0 {
        Err(parse_failure("Expected statement, found '"@ + peek(tokens, current).to_text() + "'"@))
    } else if check(tokens, current, TokenView::Let) {
        parse_assignment(tokens, current)
    } else if check(tokens, current, TokenView::Show) {
        parse_show(tokens, current)
    } else if check(tokens, current, TokenView::If) {
        match parse_condition(tokens, current, "Expected 'then' after if condition"@) {
            Err(e) => Err(e),
            Ok((condition, then_at)) => {
                proof {
                    expression_advances(tokens, current + 1, LEVELS as nat);
                    newlines_end_bounds(tokens, then_at);
                }
                match parse_block(tokens, newlines_end(tokens, then_at), Seq::empty()) {
                    Err(e) => Err(e),
                    Ok((then_branch, next)) => if current < next <= tokens.len() {
                        match parse_else_ifs(tokens, next, Seq::empty()) {
                            Err(e) => Err(e),
                            Ok((else_ifs, after)) => if check(tokens, after, TokenView::Else) && current < after {
                                proof {
                                    newlines_end_bounds(tokens, after + 1);
                                }
                                match parse_block(tokens, newlines_end(tokens, after + 1), Seq::empty()) {
                                    Err(e) => Err(e),
                                    Ok((else_branch, end)) => Ok(
                                        (
                                            StatementView::If {
                                                condition,
                                                then_branch,
                                                else_ifs,
                                                else_branch: Some(else_branch),
                                            },
                                            end,
                                        ),
                                    ),
                                }
                            } else {
                                Ok(
                                    (
                                        StatementView::If { condition, then_branch, else_ifs, else_branch: None },
                                        after,
                                    ),
                                )
                            },
                        }
                    } else {
                        Ok(
                            (
                                StatementView::If {
                                    condition,
                                    then_branch,
                                    else_ifs: Seq::empty(),
                                    else_branch: None,
                                },
                                next,
                            ),
                        )
                    },
                }
            },
        }
    } else if check(tokens, current, TokenView::While) {
        match parse_condition(tokens, current, "while statement (expected 'then' after condition)"@) {
            Err(e) => Err(e),
            Ok((condition, then_at)) => {
                proof {
                    expression_advances(tokens, current + 1, LEVELS as nat);
                }
                match parse_block(tokens, after_newline(tokens, then_at), Seq::empty()) {
                    Err(e) => Err(e),
                    Ok((body, next)) => Ok((StatementView::While { condition, body }, next)),
                }
            },
        }
    } else if check(tokens, current, TokenView::Repeat) {
        match parse_expression(tokens, current + 1) {
            Err(e) => Err(e),
            Ok((count, counted)) => match consume(
                tokens,
                counted,
                TokenView::Times,
                "repeat statement (expected 'times' after count)"@,
            ) {
                Err(e) => Err(e),
                Ok(timed) => match consume(
                    tokens,
                    timed,
                    TokenView::Then,
                    "repeat statement (expected 'then' after 'times')"@,
                ) {
                    Err(e) => Err(e),
                    Ok(then_at) => {
                        proof {
                            expression_advances(tokens, current + 1, LEVELS as nat);
                        }
                        match parse_block(tokens, after_newline(tokens, then_at), Seq::empty()) {
                            Err(e) => Err(e),
                            Ok((body, next)) => Ok((StatementView::Repeat { count, body }, next)),
                        }
                    },
                },
            },
        }
    } else if peek(tokens, current) is Identifier {
        parse_variable_reassignment(tokens, current)
    } else {
        Err(parse_failure("Expected statement, found '"@ + peek(tokens, current).to_text() + "'"@))
    }
}

/// The place after one line end at `current`, if one is there.
pub open spec fn after_newline(tokens: Seq<Token>, current: int) -> int {
    if check(tokens, current, TokenView::Newline) {
        current + 1
    } else {
        current
    }
}

/// The statements of a block after `gathered`: statements with line ends
/// around them, up to the first token that starts no statement.
pub open spec fn parse_block(tokens: Seq<Token>, current: int, gathered: Seq<StatementView>) -> Result<
    (Seq<StatementView>, int),
    LumaErrorView,
>
    decreases tokens.len() - current, 2int,
{
    if current < 0 || peek(tokens, current) is Eof {
        Ok((gathered, current))
    } else {
        let start = newlines_end(tokens, current);
        proof {
            newlines_end_bounds(tokens, current);
        }
        if starts_statement(peek(tokens, start)) {
            match parse_statement(tokens, start) {
                Err(e) => Err(e),
                Ok((statement, next)) => if start < next <= tokens.len() {
                    proof {
                        newlines_end_bounds(tokens, next);
                    }
                    parse_block(tokens, newlines_end(tokens, next), gathered.push(statement))
                } else {
                    Ok((gathered.push(statement), next))
                },
            }
        } else {
            Ok((gathered, start))
        }
    }
}

/// The `else if` parts of an `if` after `gathered`.
pub open spec fn parse_else_ifs(
    tokens: Seq<Token>,
    current: int,
    gathered: Seq<(ExpressionView, Seq<StatementView>)>,
) -> Result<(Seq<(ExpressionView, Seq<StatementView>)>, int), LumaErrorView>
    decreases tokens.len() - current, 3int,
{
    if current >= 0 && check(tokens, current, TokenView::ElseIf) {
        match parse_condition(tokens, current, "Expected 'then' after else if condition"@) {
            Err(e) => Err(e),
            Ok((condition, then_at)) => {
                proof {
                    expression_advances(tokens, current + 1, LEVELS as nat);
                    newlines_end_bounds(tokens, then_at);
                }
                match parse_block(tokens, newlines_end(tokens, then_at), Seq::empty()) {
                    Err(e) => Err(e),
                    Ok((statements, next)) => if current < next <= tokens.len() {
                        parse_else_ifs(tokens, next, gathered.push((condition, statements)))
                    } else {
                        Ok((gathered.push((condition, statements)), next))
                    },
                }
            },
        }
    } else {
        Ok((gathered, current))
    }
}

/// The statements of a program after `gathered`: statements with line
/// ends between them, up to the end of the tokens.
pub open spec fn parse_program(tokens: Seq<Token>, current: int, gathered: Seq<StatementView>) -> Result<
    (Seq<StatementView>, int),
    LumaErrorView,
>
    decreases tokens.len() - current,
{
    if current < 0 || peek(tokens, current) is Eof {
        Ok((gathered, current))
    } else if check(tokens, current, TokenView::Newline) {
        parse_program(tokens, current + 1, gathered)
    } else {
        match parse_statement(tokens, current) {
            Err(e) => Err(e),
            Ok((statement, next)) => if current < next <= tokens.len() {
                parse_program(tokens, after_newline(tokens, next), gathered.push(statement))
            } else {
                Ok((gathered.push(statement), next))
            },
        }
    }
}

pub struct Parser {
    tokens: Vec<Token>,
    current: usize,
}

/// The state of a parser: the tokens and the place of the next one.
pub struct ParserView {
    pub tokens: Seq<Token>,
    pub current: int,
}

impl View for Parser {
    type V = ParserView;

    closed spec fn view(&self) -> ParserView {
        ParserView { tokens: self.tokens@, current: self.current as int }
    }
}

/// The parser stands within its tokens.
pub open spec fn placed(parser: ParserView) -> bool {
    0 <= parser.current <= parser.tokens.len()
}

/// The parser has the tokens it had and stands where it stood or further
/// on, within them.
pub open spec fn moved(before: ParserView, after: ParserView) -> bool {
    after.tokens == before.tokens && before.current <= after.current <= after.tokens.len()
}

/// Whether what a parsing step returned, and the place it stopped at, are
/// what the grammar says of the place it started at.
pub open spec fn expression_agrees(
    r: Result<Expression, LumaError>,
    stopped: int,
    expected: Result<(ExpressionView, int), LumaErrorView>,
) -> bool {
    match r {
        Ok(expression) => expected == Ok::<(ExpressionView, int), LumaErrorView>((expression@, stopped)),
        Err(e) => expected == Err::<(ExpressionView, int), LumaErrorView>(e@),
    }
}

pub open spec fn statement_agrees(
    r: Result<Statement, LumaError>,
    stopped: int,
    expected: Result<(StatementView, int), LumaErrorView>,
) -> bool {
    match r {
        Ok(statement) => expected == Ok::<(StatementView, int), LumaErrorView>((statement@, stopped)),
        Err(e) => expected == Err::<(StatementView, int), LumaErrorView>(e@),
    }
}

pub open spec fn statements_agree(
    r: Result<Vec<Statement>, LumaError>,
    stopped: int,
    expected: Result<(Seq<StatementView>, int), LumaErrorView>,
) -> bool {
    match r {
        Ok(statements) => expected == Ok::<(Seq<StatementView>, int), LumaErrorView>(
            (statement_views(statements@), stopped),
        ),
        Err(e) => expected == Err::<(Seq<StatementView>, int), LumaErrorView>(e@),
    }
}

fn parse_failure_of(message: &str) -> (e: LumaError)
    ensures
        e@ == parse_failure(message@),
{
    LumaError::parse_error(String::from_str(message), 0)
}

impl Parser {
    pub fn new(tokens: Vec<Token>) -> (parser: Parser)
        ensures
            parser@ == (ParserView { tokens: tokens@, current: 0 }),
    {
        Parser { tokens, current: 0 }
    }

    /// Parses the statements of a program, up to the end of the tokens or
    /// the first error.
    pub fn parse(&mut self) -> (r: Result<Vec<Statement>, LumaError>)
        ensures
            final(self)@.tokens == old(self)@.tokens,
            statements_agree(
                r,
                final(self)@.current,
                parse_program(old(self)@.tokens, old(self)@.current, Seq::empty()),
            ),
    {
        let mut statements: Vec<Statement> = Vec::new();
        assert(statement_views(statements@) =~= Seq::empty());
        while !self.is_at_end()
            invariant
                self.tokens@ == old(self)@.tokens,
                self.current > self.tokens.len() ==> self.current == old(self)@.current,
                parse_program(old(self)@.tokens, old(self)@.current, Seq::empty()) == parse_program(
                    self.tokens@,
                    self.current as int,
                    statement_views(statements@),
                ),
            decreases self.tokens.len() - self.current,
        {
            if self.check(&Token::Newline) {
                self.advance();
                continue ;
            }
            match self.parse_statement() {
                Err(e) => {
                    return Err(e);
                },
                Ok(statement) => {
                    proof {
                        statement_views_push(statements@, statement);
                    }
                    statements.push(statement);
                },
            }
            if self.check(&Token::Newline) {
                self.advance();
            }
        }
        Ok(statements)
    }

    fn parse_statement(&mut self) -> (r: Result<Statement, LumaError>)
        requires
            placed(old(self)@),
        ensures
            moved(old(self)@, final(self)@),
            statement_agrees(r, final(self)@.current, parse_statement(old(self)@.tokens, old(self)@.current)),
            r is Ok ==> old(self)@.current < final(self)@.current,
        decreases old(self)@.tokens.len() - old(self)@.current, 1int,
    {
        proof {
            expression_advances(self.tokens@, self.current + 1, LEVELS as nat);
            expression_advances(self.tokens@, self.current + 2, LEVELS as nat);
        }
        if self.check(&Token::Let) {
            self.parse_assignment()
        } else if self.check(&Token::Show) {
            self.parse_show()
        } else if self.check(&Token::If) {
            self.parse_if_statement()
        } else if self.check(&Token::While) {
            self.parse_while_statement()
        } else if self.check(&Token::Repeat) {
            self.parse_repeat_statement()
        } else if self.peek_is_identifier() {
            self.parse_variable_reassignment()
        } else {
            Err(self.found_failure("Expected statement, found '"))
        }
    }

    fn parse_assignment(&mut self) -> (r: Result<Statement, LumaError>)
        requires
            placed(old(self)@),
            check(old(self)@.tokens, old(self)@.current, TokenView::Let),
        ensures
            moved(old(self)@, final(self)@),
            r is Ok ==> old(self)@.current < final(self)@.current,
            statement_agrees(r, final(self)@.current, parse_assignment(old(self)@.tokens, old(self)@.current)),
    {
        self.advance();
        let name: String = match self.identifier_here() {
            Some(name) => name,
            None => {
                return Err(parse_failure_of("Expected identifier after 'let'"));
            },
        };
        self.advance();
        if self.check(&Token::Be) || self.check(&Token::Is) {
            self.advance();
        } else {
            return Err(parse_failure_of("Expected 'be' or 'is' after identifier"));
        }
        match self.parse_expression() {
            Err(e) => Err(e),
            Ok(value) => Ok(Statement::Assignment { name, value }),
        }
    }

    fn parse_variable_reassignment(&mut self) -> (r: Result<Statement, LumaError>)
        requires
            placed(old(self)@),
        ensures
            moved(old(self)@, final(self)@),
            r is Ok ==> old(self)@.current < final(self)@.current,
            statement_agrees(
                r,
                final(self)@.current,
                parse_variable_reassignment(old(self)@.tokens, old(self)@.current),
            ),
    {
        let name: String = match self.identifier_here() {
            Some(name) => name,
            None => {
                return Err(parse_failure_of("Expected identifier"));
            },
        };
        self.advance();
        if self.check(&Token::Is) || self.check(&Token::Assign) {
            self.advance();
        } else {
            return Err(parse_failure_of("Expected 'is' or '=' after identifier"));
        }
        match self.parse_expression() {
            Err(e) => Err(e),
            Ok(value) => Ok(Statement::Assignment { name, value }),
        }
    }

    fn parse_show(&mut self) -> (r: Result<Statement, LumaError>)
        requires
            placed(old(self)@),
        ensures
            moved(old(self)@, final(self)@),
            r is Ok ==> old(self)@.current < final(self)@.current,
            statement_agrees(r, final(self)@.current, parse_show(old(self)@.tokens, old(self)@.current)),
    {
        match self.consume(&Token::Show, "Expected 'show'") {
            Err(e) => {
                return Err(e);
            },
            Ok(_) => {},
        }
        match self.parse_expression() {
            Err(e) => Err(e),
            Ok(expression) => Ok(Statement::Show(expression)),
        }
    }

    /// The condition after the keyword that the parser stands at, and the
    /// `then` behind it.
    fn parse_condition(&mut self, message: &str) -> (r: Result<Expression, LumaError>)
        requires
            placed(old(self)@),
            !(peek(old(self)@.tokens, old(self)@.current) is Eof),
        ensures
            moved(old(self)@, final(self)@),
            expression_agrees(
                r,
                final(self)@.current,
                parse_condition(old(self)@.tokens, old(self)@.current, message@),
            ),
            r is Ok ==> old(self)@.current + 2 < final(self)@.current,
    {
        proof {
            expression_advances(self.tokens@, self.current + 1, LEVELS as nat);
        }
        self.advance();
        let condition = match self.parse_expression() {
            Err(e) => {
                return Err(e);
            },
            Ok(condition) => condition,
        };
        match self.consume(&Token::Then, message) {
            Err(e) => Err(e),
            Ok(_) => Ok(condition),
        }
    }

    fn parse_if_statement(&mut self) -> (r: Result<Statement, LumaError>)
        requires
            placed(old(self)@),
            check(old(self)@.tokens, old(self)@.current, TokenView::If),
        ensures
            moved(old(self)@, final(self)@),
            statement_agrees(r, final(self)@.current, parse_statement(old(self)@.tokens, old(self)@.current)),
            r is Ok ==> old(self)@.current < final(self)@.current,
        decreases old(self)@.tokens.len() - old(self)@.current, 0int,
    {
        let condition = match self.parse_condition("Expected 'then' after if condition") {
            Err(e) => {
                return Err(e);
            },
            Ok(condition) => condition,
        };
        self.skip_newlines();
        let then_branch = match self.parse_if_block() {
            Err(e) => {
                return Err(e);
            },
            Ok(statements) => statements,
        };
        let else_ifs = match self.parse_else_ifs() {
            Err(e) => {
                return Err(e);
            },
            Ok(else_ifs) => else_ifs,
        };
        let else_branch: Option<Vec<Statement>> = if self.check(&Token::Else) {
            self.advance();
            self.skip_newlines();
            match self.parse_if_block() {
                Err(e) => {
                    return Err(e);
                },
                Ok(statements) => Some(statements),
            }
        } else {
            None
        };
        Ok(Statement::If { condition, then_branch, else_ifs, else_branch })
    }

    /// The `else if` parts of an `if`.
    fn parse_else_ifs(&mut self) -> (r: Result<Vec<(Expression, Vec<Statement>)>, LumaError>)
        requires
            placed(old(self)@),
        ensures
            moved(old(self)@, final(self)@),
            match r {
                Ok(parts) => parse_else_ifs(old(self)@.tokens, old(self)@.current, Seq::empty()) == Ok::<
                    (Seq<(ExpressionView, Seq<StatementView>)>, int),
                    LumaErrorView,
                >((else_if_views(parts@), final(self)@.current)),
                Err(e) => parse_else_ifs(old(self)@.tokens, old(self)@.current, Seq::empty()) == Err::<
                    (Seq<(ExpressionView, Seq<StatementView>)>, int),
                    LumaErrorView,
                >(e@),
            },
        decreases old(self)@.tokens.len() - old(self)@.current, 4int,
    {
        let mut else_ifs: Vec<(Expression, Vec<Statement>)> = Vec::new();
        assert(else_if_views(else_ifs@) =~= Seq::empty());
        while self.check(&Token::ElseIf)
            invariant
                self.tokens@ == old(self)@.tokens,
                old(self)@.current <= self.current <= self.tokens.len(),
                parse_else_ifs(old(self)@.tokens, old(self)@.current, Seq::empty()) == parse_else_ifs(
                    self.tokens@,
                    self.current as int,
                    else_if_views(else_ifs@),
                ),
            decreases self.tokens.len() - self.current,
        {
            let else_if_condition = match self.parse_condition("Expected 'then' after else if condition") {
                Err(e) => {
                    return Err(e);
                },
                Ok(condition) => condition,
            };
            self.skip_newlines();
            let else_if_statements = match self.parse_if_block() {
                Err(e) => {
                    return Err(e);
                },
                Ok(statements) => statements,
            };
            let part = (else_if_condition, else_if_statements);
            proof {
                else_if_views_push(else_ifs@, part);
            }
            else_ifs.push(part);
        }
        Ok(else_ifs)
    }

    /// The statements of a branch of an `if`.
    fn parse_if_block(&mut self) -> (r: Result<Vec<Statement>, LumaError>)
        requires
            placed(old(self)@),
        ensures
            moved(old(self)@, final(self)@),
            statements_agree(
                r,
                final(self)@.current,
                parse_block(old(self)@.tokens, old(self)@.current, Seq::empty()),
            ),
        decreases old(self)@.tokens.len() - old(self)@.current, 3int,
    {
        self.parse_block()
    }

    /// The statements of a block: all that follow, up to the first token
    /// that starts no statement.
    fn parse_block(&mut self) -> (r: Result<Vec<Statement>, LumaError>)
        requires
            placed(old(self)@),
        ensures
            moved(old(self)@, final(self)@),
            statements_agree(
                r,
                final(self)@.current,
                parse_block(old(self)@.tokens, old(self)@.current, Seq::empty()),
            ),
        decreases old(self)@.tokens.len() - old(self)@.current, 2int,
    {
        let mut statements: Vec<Statement> = Vec::new();
        assert(statement_views(statements@) =~= Seq::empty());
        while !self.is_at_end()
            invariant
                self.tokens@ == old(self)@.tokens,
                old(self)@.current <= self.current <= self.tokens.len(),
                parse_block(old(self)@.tokens, old(self)@.current, Seq::empty()) == parse_block(
                    self.tokens@,
                    self.current as int,
                    statement_views(statements@),
                ),
            decreases self.tokens.len() - self.current,
        {
            self.skip_newlines();
            if !self.starts_statement() {
                return Ok(statements);
            }
            match self.parse_statement() {
                Err(e) => {
                    return Err(e);
                },
                Ok(statement) => {
                    proof {
                        statement_views_push(statements@, statement);
                    }
                    statements.push(statement);
                },
            }
            self.skip_newlines();
            proof {
                newlines_end_bounds(self.tokens@, self.current as int);
            }
        }
        Ok(statements)
    }

    fn parse_while_statement(&mut self) -> (r: Result<Statement, LumaError>)
        requires
            placed(old(self)@),
            check(old(self)@.tokens, old(self)@.current, TokenView::While),
        ensures
            moved(old(self)@, final(self)@),
            statement_agrees(r, final(self)@.current, parse_statement(old(self)@.tokens, old(self)@.current)),
            r is Ok ==> old(self)@.current < final(self)@.current,
        decreases old(self)@.tokens.len() - old(self)@.current, 0int,
    {
        let condition = match self.parse_condition("while statement (expected 'then' after condition)") {
            Err(e) => {
                return Err(e);
            },
            Ok(condition) => condition,
        };
        if self.check(&Token::Newline) {
            self.advance();
        }
        match self.parse_block() {
            Err(e) => Err(e),
            Ok(body) => Ok(Statement::While { condition, body }),
        }
    }

    fn parse_repeat_statement(&mut self) -> (r: Result<Statement, LumaError>)
        requires
            placed(old(self)@),
            check(old(self)@.tokens, old(self)@.current, TokenView::Repeat),
        ensures
            moved(old(self)@, final(self)@),
            statement_agrees(r, final(self)@.current, parse_statement(old(self)@.tokens, old(self)@.current)),
            r is Ok ==> old(self)@.current < final(self)@.current,
        decreases old(self)@.tokens.len() - old(self)@.current, 0int,
    {
        proof {
            expression_advances(self.tokens@, self.current + 1, LEVELS as nat);
        }
        self.advance();
        let count = match self.parse_expression() {
            Err(e) => {
                return Err(e);
            },
            Ok(count) => count,
        };
        match self.consume(&Token::Times, "repeat statement (expected 'times' after count)") {
            Err(e) => {
                return Err(e);
            },
            Ok(_) => {},
        }
        match self.consume(&Token::Then, "repeat statement (expected 'then' after 'times')") {
            Err(e) => {
                return Err(e);
            },
            Ok(_) => {},
        }
        if self.check(&Token::Newline) {
            self.advance();
        }
        match self.parse_block() {
            Err(e) => Err(e),
            Ok(body) => Ok(Statement::Repeat { count, body }),
        }
    }

    fn skip_newlines(&mut self)
        requires
            placed(old(self)@),
        ensures
            moved(old(self)@, final(self)@),
            final(self)@.current == newlines_end(old(self)@.tokens, old(self)@.current),
    {
        while self.check(&Token::Newline)
            invariant
                self.tokens@ == old(self)@.tokens,
                old(self)@.current <= self.current <= self.tokens.len(),
                newlines_end(old(self)@.tokens, old(self)@.current) == newlines_end(
                    self.tokens@,
                    self.current as int,
                ),
            decreases self.tokens.len() - self.current,
        {
            self.advance();
        }
    }

    fn parse_expression(&mut self) -> (r: Result<Expression, LumaError>)
        requires
            placed(old(self)@),
        ensures
            moved(old(self)@, final(self)@),
            r is Ok ==> old(self)@.current < final(self)@.current,
            expression_agrees(r, final(self)@.current, parse_expression(old(self)@.tokens, old(self)@.current)),
        decreases old(self)@.tokens.len() - old(self)@.current, 2 * LEVELS + 3,
    {
        proof {
            expression_advances(self.tokens@, self.current as int, LEVELS as nat);
        }
        self.parse_binary(LEVELS)
    }

    /// An expression of binary operators up to `level`.
    fn parse_binary(&mut self, level: u8) -> (r: Result<Expression, LumaError>)
        requires
            placed(old(self)@),
            level <= LEVELS,
        ensures
            moved(old(self)@, final(self)@),
            r is Ok ==> old(self)@.current < final(self)@.current,
            expression_agrees(
                r,
                final(self)@.current,
                parse_binary(old(self)@.tokens, old(self)@.current, level as nat),
            ),
        decreases old(self)@.tokens.len() - old(self)@.current, 2 * level + 2,
    {
        proof {
            expression_advances(self.tokens@, self.current as int, level as nat);
            if level > 0 {
                expression_advances(self.tokens@, self.current as int, (level - 1) as nat);
            }
        }
        if level == 0 {
            return self.parse_unary();
        }
        let mut expression = match self.parse_binary(level - 1) {
            Err(e) => {
                return Err(e);
            },
            Ok(expression) => expression,
        };
        loop
            invariant
                0 < level <= LEVELS,
                self.tokens@ == old(self)@.tokens,
                old(self)@.current < self.current <= self.tokens.len(),
                parse_binary(old(self)@.tokens, old(self)@.current, level as nat) == parse_binary_rest(
                    self.tokens@,
                    self.current as int,
                    level as nat,
                    expression@,
                ),
            decreases self.tokens.len() - self.current,
        {
            let operator: BinaryOperator = match self.operator_here(level) {
                None => {
                    return Ok(expression);
                },
                Some(operator) => operator,
            };
            proof {
                expression_advances(self.tokens@, self.current + 1, (level - 1) as nat);
            }
            self.advance();
            let right = match self.parse_binary(level - 1) {
                Err(e) => {
                    return Err(e);
                },
                Ok(right) => right,
            };
            expression = Expression::binary_op(expression, operator, right);
        }
    }

    fn parse_unary(&mut self) -> (r: Result<Expression, LumaError>)
        requires
            placed(old(self)@),
        ensures
            moved(old(self)@, final(self)@),
            r is Ok ==> old(self)@.current < final(self)@.current,
            expression_agrees(r, final(self)@.current, parse_unary(old(self)@.tokens, old(self)@.current)),
        decreases old(self)@.tokens.len() - old(self)@.current, 1int,
    {
        proof {
            unary_advances(self.tokens@, self.current as int);
        }
        let negation: bool = self.check(&Token::Not);
        if negation || self.check(&Token::Minus) {
            self.advance();
            return match self.parse_unary() {
                Err(e) => Err(e),
                Ok(operand) => Ok(
                    Expression::UnaryOp {
                        operator: if negation {
                            UnaryOperator::Not
                        } else {
                            UnaryOperator::Minus
                        },
                        operand: Box::new(operand),
                    },
                ),
            };
        }
        self.parse_primary()
    }

    fn parse_primary(&mut self) -> (r: Result<Expression, LumaError>)
        requires
            placed(old(self)@),
        ensures
            moved(old(self)@, final(self)@),
            r is Ok ==> old(self)@.current < final(self)@.current,
            expression_agrees(r, final(self)@.current, parse_primary(old(self)@.tokens, old(self)@.current)),
        decreases old(self)@.tokens.len() - old(self)@.current, 0int,
    {
        proof {
            primary_advances(self.tokens@, self.current as int);
        }
        if self.current >= self.tokens.len() {
            return Err(self.found_failure("Expected expression, found '"));
        }
        let simple: Option<Expression> = match &self.tokens[self.current] {
            Token::Number(bits, _) => Some(Expression::Literal(*bits)),
            Token::String(s) => Some(Expression::StringLiteral(s.clone())),
            Token::True => Some(Expression::BooleanLiteral(true)),
            Token::False => Some(Expression::BooleanLiteral(false)),
            _ => None,
        };
        match simple {
            Some(expression) => {
                self.current = self.current + 1;
                return Ok(expression);
            },
            None => {},
        }
        match self.identifier_here() {
            Some(name) => {
                self.current = self.current + 1;
                if self.check(&Token::LeftParen) {
                    self.advance();
                    let arguments: Vec<Expression> = if self.check(&Token::RightParen) {
                        let none: Vec<Expression> = Vec::new();
                        assert(expression_views(none@) =~= Seq::empty());
                        none
                    } else {
                        proof {
                            arguments_advance(self.tokens@, self.current as int, Seq::empty());
                        }
                        match self.parse_arguments() {
                            Err(e) => {
                                return Err(e);
                            },
                            Ok(arguments) => arguments,
                        }
                    };
                    match self.consume(&Token::RightParen, "Expected ')' after function arguments") {
                        Err(e) => {
                            return Err(e);
                        },
                        Ok(_) => {},
                    }
                    return Ok(Expression::FunctionCall { name, arguments });
                }
                return Ok(Expression::Identifier(name));
            },
            None => {},
        }
        if self.check(&Token::LeftParen) {
            self.advance();
            let inner = match self.parse_expression() {
                Err(e) => {
                    return Err(e);
                },
                Ok(inner) => inner,
            };
            return match self.consume(&Token::RightParen, "Expected ')' after expression") {
                Err(e) => Err(e),
                Ok(_) => Ok(inner),
            };
        }
        Err(self.found_failure("Expected expression, found '"))
    }

    /// The arguments of a call, with commas between them.
    fn parse_arguments(&mut self) -> (r: Result<Vec<Expression>, LumaError>)
        requires
            placed(old(self)@),
        ensures
            moved(old(self)@, final(self)@),
            match r {
                Ok(arguments) => parse_arguments(old(self)@.tokens, old(self)@.current, Seq::empty()) == Ok::<
                    (Seq<ExpressionView>, int),
                    LumaErrorView,
                >((expression_views(arguments@), final(self)@.current)),
                Err(e) => parse_arguments(old(self)@.tokens, old(self)@.current, Seq::empty()) == Err::<
                    (Seq<ExpressionView>, int),
                    LumaErrorView,
                >(e@),
            },
        decreases old(self)@.tokens.len() - old(self)@.current, 2 * LEVELS + 4,
    {
        let mut arguments: Vec<Expression> = Vec::new();
        assert(expression_views(arguments@) =~= Seq::empty());
        loop
            invariant
                self.tokens@ == old(self)@.tokens,
                old(self)@.current <= self.current <= self.tokens.len(),
                parse_arguments(old(self)@.tokens, old(self)@.current, Seq::empty()) == parse_arguments(
                    self.tokens@,
                    self.current as int,
                    expression_views(arguments@),
                ),
            decreases self.tokens.len() - self.current,
        {
            match self.parse_expression() {
                Err(e) => {
                    return Err(e);
                },
                Ok(argument) => {
                    proof {
                        expression_views_push(arguments@, argument);
                    }
                    arguments.push(argument);
                },
            }
            if !self.check(&Token::Comma) {
                return Ok(arguments);
            }
            self.advance();
        }
    }

    /// The binary operator of `level` that the parser stands at.
    fn operator_here(&self, level: u8) -> (r: Option<BinaryOperator>)
        ensures
            r == operator_at(level as int, peek(self@.tokens, self@.current)),
    {
        if self.current >= self.tokens.len() {
            return None;
        }
        let token = &self.tokens[self.current];
        if level == 1 {
            match token {
                Token::Multiply => Some(BinaryOperator::Multiply),
                Token::Divide => Some(BinaryOperator::Divide),
                Token::Modulo => Some(BinaryOperator::Modulo),
                _ => None,
            }
        } else if level == 2 {
            match token {
                Token::Plus => Some(BinaryOperator::Add),
                Token::Minus => Some(BinaryOperator::Subtract),
                _ => None,
            }
        } else if level == 3 {
            match token {
                Token::GreaterThan => Some(BinaryOperator::GreaterThan),
                Token::LessThan => Some(BinaryOperator::LessThan),
                Token::GreaterEqual => Some(BinaryOperator::GreaterEqual),
                Token::LessEqual => Some(BinaryOperator::LessEqual),
                _ => None,
            }
        } else if level == 4 {
            match token {
                Token::Equal => Some(BinaryOperator::Equal),
                Token::NotEqual => Some(BinaryOperator::NotEqual),
                Token::Is => Some(BinaryOperator::Equal),
                Token::IsNot => Some(BinaryOperator::NotEqual),
                _ => None,
            }
        } else if level == 5 {
            match token {
                Token::And => Some(BinaryOperator::And),
                _ => None,
            }
        } else if level == 6 {
            match token {
                Token::Or => Some(BinaryOperator::Or),
                _ => None,
            }
        } else {
            None
        }
    }

    fn check(&self, token_type: &Token) -> (r: bool)
        ensures
            r == check(self@.tokens, self@.current, token_type@),
    {
        if self.is_at_end() {
            false
        } else {
            self.tokens[self.current].kind() == token_type.kind()
        }
    }

    fn advance(&mut self)
        requires
            placed(old(self)@),
        ensures
            moved(old(self)@, final(self)@),
            final(self)@.current == (if peek(old(self)@.tokens, old(self)@.current) is Eof {
                old(self)@.current
            } else {
                old(self)@.current + 1
            }),
    {
        if !self.is_at_end() {
            assert(self.current < self.tokens.len());
            self.current = self.current + 1;
        }
    }

    fn is_at_end(&self) -> (r: bool)
        ensures
            r == (peek(self@.tokens, self@.current) is Eof),
    {
        if self.current >= self.tokens.len() {
            true
        } else {
            match &self.tokens[self.current] {
                Token::Eof => true,
                _ => false,
            }
        }
    }

    fn peek_is_identifier(&self) -> (r: bool)
        ensures
            r == (peek(self@.tokens, self@.current) is Identifier),
    {
        if self.current >= self.tokens.len() {
            false
        } else {
            match &self.tokens[self.current] {
                Token::Identifier(_) => true,
                _ => false,
            }
        }
    }

    fn starts_statement(&self) -> (r: bool)
        ensures
            r == starts_statement(peek(self@.tokens, self@.current)),
    {
        if self.current >= self.tokens.len() {
            false
        } else {
            match &self.tokens[self.current] {
                Token::Let => true,
                Token::Show => true,
                Token::If => true,
                Token::While => true,
                Token::Repeat => true,
                Token::Identifier(_) => true,
                _ => false,
            }
        }
    }

    /// The name of the identifier that the parser stands at.
    fn identifier_here(&self) -> (r: Option<String>)
        ensures
            match r {
                Some(name) => peek(self@.tokens, self@.current) == TokenView::Identifier(name@),
                None => !(peek(self@.tokens, self@.current) is Identifier),
            },
    {
        if self.current >= self.tokens.len() {
            None
        } else {
            match &self.tokens[self.current] {
                Token::Identifier(name) => Some(name.clone()),
                _ => None,
            }
        }
    }

    /// The text of the token that the parser stands at.
    fn peek_text(&self) -> (text: String)
        ensures
            text@ == peek(self@.tokens, self@.current).to_text(),
    {
        if self.current >= self.tokens.len() {
            String::from_str("EOF")
        } else {
            self.tokens[self.current].to_string()
        }
    }

    /// The error for a token that nothing starts with.
    fn found_failure(&self, prefix: &str) -> (e: LumaError)
        ensures
            e@ == parse_failure(prefix@ + peek(self@.tokens, self@.current).to_text() + "'"@),
    {
        let mut message = String::from_str(prefix);
        message.append(self.peek_text().as_str());
        message.append("'");
        LumaError::parse_error(message, 0)
    }

    fn consume(&mut self, token_type: &Token, message: &str) -> (r: Result<(), LumaError>)
        requires
            placed(old(self)@),
        ensures
            moved(old(self)@, final(self)@),
            match r {
                Ok(_) => consume(old(self)@.tokens, old(self)@.current, token_type@, message@) == Ok::<
                    int,
                    LumaErrorView,
                >(final(self)@.current) && final(self)@.current == old(self)@.current + 1,
                Err(e) => consume(old(self)@.tokens, old(self)@.current, token_type@, message@) == Err::<
                    int,
                    LumaErrorView,
                >(e@) && final(self)@.current == old(self)@.current,
            },
    {
        if self.check(token_type) {
            self.advance();
            Ok(())
        } else {
            let mut text = String::from_str(message);
            text.append(": expected '");
            text.append(token_type.to_string().as_str());
            text.append("', found '");
            text.append(self.peek_text().as_str());
            text.append("'");
            Err(LumaError::parse_error(text, 0))
        }
    }
}

} // verus!
