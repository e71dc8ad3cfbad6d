//! The syntax tree.
use vstd::prelude::*;

verus! {

#[derive(Debug, PartialEq)]
pub enum Statement {
    Assignment { name: String, value: Expression },
    Show(Expression),
    If {
        condition: Expression,
        then_branch: Vec<Statement>,
        else_ifs: Vec<(Expression, Vec<Statement>)>,
        else_branch: Option<Vec<Statement>>,
    },
    While { condition: Expression, body: Vec<Statement> },
    Repeat { count: Expression, body: Vec<Statement> },
}

#[derive(Debug, PartialEq)]
#[allow(inconsistent_fields)]
pub enum Expression {
    /// A number, as the bits of a double.
    Literal(u64),
    StringLiteral(String),
    BooleanLiteral(bool),
    Identifier(String),
    BinaryOp { left: Box<Expression>, operator: BinaryOperator, right: Box<Expression> },
    UnaryOp { operator: UnaryOperator, operand: Box<Expression> },
    FunctionCall { name: String, arguments: Vec<Expression> },
}

#[derive(Debug, Clone, Copy, PartialEq, Eq, Structural)]
pub enum BinaryOperator {
    Add,
    Subtract,
    Multiply,
    Divide,
    Modulo,
    Equal,
    NotEqual,
    GreaterThan,
    /// The same as `GreaterThan`.
    Greater,
    LessThan,
    /// The same as `LessThan`.
    Less,
    GreaterEqual,
    LessEqual,
    And,
    Or,
}

#[derive(Debug, Clone, Copy, PartialEq, Eq, Structural)]
pub enum UnaryOperator {
    Not,
    Minus,
}

/// An [`Expression`] with its text as sequences of characters.
#[allow(inconsistent_fields)]
pub enum ExpressionView {
    Literal(u64),
    StringLiteral(Seq<char>),
    BooleanLiteral(bool),
    Identifier(Seq<char>),
    BinaryOp { left: Box<ExpressionView>, operator: BinaryOperator, right: Box<ExpressionView> },
    UnaryOp { operator: UnaryOperator, operand: Box<ExpressionView> },
    FunctionCall { name: Seq<char>, arguments: Seq<ExpressionView> },
}

/// A [`Statement`] with its text as sequences of characters.
pub enum StatementView {
    Assignment { name: Seq<char>, value: ExpressionView },
    Show(ExpressionView),
    If {
        condition: ExpressionView,
        then_branch: Seq<StatementView>,
        else_ifs: Seq<(ExpressionView, Seq<StatementView>)>,
        else_branch: Option<Seq<StatementView>>,
    },
    While { condition: ExpressionView, body: Seq<StatementView> },
    Repeat { count: ExpressionView, body: Seq<StatementView> },
}

/// The views of a sequence of expressions, one for one.
pub open spec fn expression_views(expressions: Seq<Expression>) -> Seq<ExpressionView>
    decreases expressions,
{
    Seq::new(
        expressions.len(),
        |i: int|
            if 0 <= i < expressions.len() {
                expression_view(expressions[i])
            } else {
                ExpressionView::BooleanLiteral(false)
            },
    )
}

/// The views of a sequence of statements, one for one.
pub open spec fn statement_views(statements: Seq<Statement>) -> Seq<StatementView>
    decreases statements,
{
    Seq::new(
        statements.len(),
        |i: int|
            if 0 <= i < statements.len() {
                statement_view(statements[i])
            } else {
                StatementView::Show(ExpressionView::BooleanLiteral(false))
            },
    )
}

/// The views of the `else if` parts of an `if`, one for one.
pub open spec fn else_if_views(parts: Seq<(Expression, Vec<Statement>)>) -> Seq<
    (ExpressionView, Seq<StatementView>),
>
    decreases parts,
{
    Seq::new(
        parts.len(),
        |i: int|
            if 0 <= i < parts.len() {
                (parts[i].0@, statement_views(parts[i].1@))
            } else {
                (ExpressionView::BooleanLiteral(false), Seq::empty())
            },
    )
}

/// The views of a sequence with one more expression are the views of the
/// sequence and the view of the expression.
pub proof fn expression_views_push(expressions: Seq<Expression>, last: Expression)
    ensures
        expression_views(expressions.push(last)) == expression_views(expressions).push(last@),
        expression_views(Seq::empty()) == Seq::<ExpressionView>::empty(),
{
    let grown = expression_views(expressions.push(last));
    let pushed = expression_views(expressions).push(last@);
    assert(grown.len() == pushed.len());
    assert forall|i: int| 0 <= i < grown.len() implies grown[i] == pushed[i] by {
        if i < expressions.len() {
            assert(expressions.push(last)[i] == expressions[i]);
        } else {
            assert(expressions.push(last)[i] == last);
        }
    }
    assert(grown =~= pushed);
    assert(expression_views(Seq::empty()) =~= Seq::<ExpressionView>::empty());
}

/// The views of a sequence with one more statement are the views of the
/// sequence and the view of the statement.
pub proof fn statement_views_push(statements: Seq<Statement>, last: Statement)
    ensures
        statement_views(statements.push(last)) == statement_views(statements).push(last@),
        statement_views(Seq::empty()) == Seq::<StatementView>::empty(),
{
    assert(statement_views(statements.push(last)) =~= statement_views(statements).push(last@));
    assert(statement_views(Seq::empty()) =~= Seq::<StatementView>::empty());
}

/// The same of the `else if` parts of an `if`.
pub proof fn else_if_views_push(parts: Seq<(Expression, Vec<Statement>)>, last: (Expression, Vec<Statement>))
    ensures
        else_if_views(parts.push(last)) == else_if_views(parts).push((last.0@, statement_views(last.1@))),
        else_if_views(Seq::empty()) == Seq::<(ExpressionView, Seq<StatementView>)>::empty(),
{
    assert(else_if_views(parts.push(last)) =~= else_if_views(parts).push((last.0@, statement_views(last.1@))));
    assert(else_if_views(Seq::empty()) =~= Seq::<(ExpressionView, Seq<StatementView>)>::empty());
}

/// What an expression is, with its text as sequences of characters.
pub open spec fn expression_view(expression: Expression) -> ExpressionView
    decreases expression,
{
    match expression {
        Expression::Literal(bits) => ExpressionView::Literal(bits),
        Expression::StringLiteral(s) => ExpressionView::StringLiteral(s@),
        Expression::BooleanLiteral(b) => ExpressionView::BooleanLiteral(b),
        Expression::Identifier(name) => ExpressionView::Identifier(name@),
        Expression::BinaryOp { left, operator, right } => ExpressionView::BinaryOp {
            left: Box::new(expression_view(*left)),
            operator,
            right: Box::new(expression_view(*right)),
        },
        Expression::UnaryOp { operator, operand } => ExpressionView::UnaryOp {
            operator,
            operand: Box::new(expression_view(*operand)),
        },
        Expression::FunctionCall { name, arguments } => ExpressionView::FunctionCall {
            name: name@,
            arguments: expression_views(arguments@),
        },
    }
}

impl View for Expression {
    type V = ExpressionView;

    open spec fn view(&self) -> ExpressionView {
        expression_view(*self)
    }
}

/// What a statement is, with its text as sequences of characters.
pub open spec fn statement_view(statement: Statement) -> StatementView
    decreases statement,
{
    match statement {
        Statement::Assignment { name, value } => StatementView::Assignment { name: name@, value: value@ },
        Statement::Show(expression) => StatementView::Show(expression@),
        Statement::If { condition, then_branch, else_ifs, else_branch } => StatementView::If {
            condition: condition@,
            then_branch: statement_views(then_branch@),
            else_ifs: else_if_views(else_ifs@),
            else_branch: match else_branch {
                Some(statements) => Some(statement_views(statements@)),
                None => None,
            },
        },
        Statement::While { condition, body } => StatementView::While {
            condition: condition@,
            body: statement_views(body@),
        },
        Statement::Repeat { count, body } => StatementView::Repeat { count: count@, body: statement_views(body@) },
    }
}

impl View for Statement {
    type V = StatementView;

    open spec fn view(&self) -> StatementView {
        statement_view(*self)
    }
}

impl BinaryOperator {
    /// The operator as it is written in source text.
    pub open spec fn symbol_text(self) -> Seq<char> {
        match self {
            BinaryOperator::Add => "+"@,
            BinaryOperator::Subtract => "-"@,
            BinaryOperator::Multiply => "*"@,
            BinaryOperator::Divide => "/"@,
            BinaryOperator::Modulo => "%"@,
            BinaryOperator::Equal => "=="@,
            BinaryOperator::NotEqual => "!="@,
            BinaryOperator::GreaterThan => ">"@,
            BinaryOperator::LessThan => "<"@,
            BinaryOperator::GreaterEqual => ">="@,
            BinaryOperator::LessEqual => "<="@,
            BinaryOperator::And => "and"@,
            BinaryOperator::Or => "or"@,
            BinaryOperator::Greater => ">"@,
            BinaryOperator::Less => "<"@,
        }
    }

    /// The operator as it is written in source text.
    pub fn to_string(&self) -> (s: String)
        ensures
            s@ == self.symbol_text(),
    {
        match self {
            BinaryOperator::Add => String::from_str("+"),
            BinaryOperator::Subtract => String::from_str("-"),
            BinaryOperator::Multiply => String::from_str("*"),
            BinaryOperator::Divide => String::from_str("/"),
            BinaryOperator::Modulo => String::from_str("%"),
            BinaryOperator::Equal => String::from_str("=="),
            BinaryOperator::NotEqual => String::from_str("!="),
            BinaryOperator::GreaterThan => String::from_str(">"),
            BinaryOperator::LessThan => String::from_str("<"),
            BinaryOperator::GreaterEqual => String::from_str(">="),
            BinaryOperator::LessEqual => String::from_str("<="),
            BinaryOperator::And => String::from_str("and"),
            BinaryOperator::Or => String::from_str("or"),
            BinaryOperator::Greater => String::from_str(">"),
            BinaryOperator::Less => String::from_str("<"),
        }
    }
}

impl UnaryOperator {
    /// The operator as it is written in source text.
    pub open spec fn symbol_text(self) -> Seq<char> {
        match self {
            UnaryOperator::Not => "not "@,
            UnaryOperator::Minus => "-"@,
        }
    }

    /// The operator as it is written in source text.
    pub fn to_string(&self) -> (s: String)
        ensures
            s@ == self.symbol_text(),
    {
        match self {
            UnaryOperator::Not => String::from_str("not "),
            UnaryOperator::Minus => String::from_str("-"),
        }
    }
}

impl Expression {
    /// The binary operation `left operator right`.
    pub fn binary_op(left: Expression, operator: BinaryOperator, right: Expression) -> (e: Expression)
        ensures
            e == (Expression::BinaryOp { left: Box::new(left), operator, right: Box::new(right) }),
    {
        Expression::BinaryOp { left: Box::new(left), operator, right: Box::new(right) }
    }

    /// Whether a function call stands anywhere in the expression but in the
    /// arguments of another call.
    pub open spec fn has_call(self) -> bool
        decreases self,
    {
        match self {
            Expression::BinaryOp { left, operator, right } => left.has_call() || right.has_call(),
            Expression::UnaryOp { operator, operand } => operand.has_call(),
            Expression::FunctionCall { .. } => true,
            _ => false,
        }
    }
}

} // verus!
