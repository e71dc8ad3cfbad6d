//! The failures of every stage.
use vstd::prelude::*;
use vstd::std_specs::convert::FromSpecImpl;
use crate::shared::text;

verus! {

/// A typed failure. The first three carry the source line where one is
/// known, and 0 where none is.
#[derive(Debug)]
pub enum LumaError {
    LexError { message: String, line: usize },
    ParseError { message: String, line: usize },
    CompileError { message: String, line: usize },
    RuntimeError(String),
    StackError(String),
    JitError(String),
    IoError(String),
    SerializationError(String),
}

/// A [`LumaError`] with its message as a sequence of characters.
pub enum LumaErrorView {
    LexError { message: Seq<char>, line: usize },
    ParseError { message: Seq<char>, line: usize },
    CompileError { message: Seq<char>, line: usize },
    RuntimeError(Seq<char>),
    StackError(Seq<char>),
    JitError(Seq<char>),
    IoError(Seq<char>),
    SerializationError(Seq<char>),
}

impl View for LumaError {
    type V = LumaErrorView;

    open spec fn view(&self) -> LumaErrorView {
        match self {
            LumaError::LexError { message, line } => LumaErrorView::LexError { message: message@, line: *line },
            LumaError::ParseError { message, line } => LumaErrorView::ParseError { message: message@, line: *line },
            LumaError::CompileError { message, line } => LumaErrorView::CompileError { message: message@, line: *line },
            LumaError::RuntimeError(message) => LumaErrorView::RuntimeError(message@),
            LumaError::StackError(message) => LumaErrorView::StackError(message@),
            LumaError::JitError(message) => LumaErrorView::JitError(message@),
            LumaError::IoError(message) => LumaErrorView::IoError(message@),
            LumaError::SerializationError(message) => LumaErrorView::SerializationError(message@),
        }
    }
}

impl LumaErrorView {
    /// The line that a failure is reported with, after its kind.
    pub open spec fn located(prefix: Seq<char>, line: usize, message: Seq<char>) -> Seq<char> {
        prefix + text::decimal(line as nat) + ": "@ + message
    }

    /// The text shown to the user.
    pub open spec fn to_text(self) -> Seq<char> {
        match self {
            LumaErrorView::LexError { message, line } => Self::located("Lexical error at line "@, line, message),
            LumaErrorView::ParseError { message, line } => Self::located("Parse error at line "@, line, message),
            LumaErrorView::CompileError { message, line } => Self::located("Compile error at line "@, line, message),
            LumaErrorView::RuntimeError(message) => "Runtime error: "@ + message,
            LumaErrorView::StackError(message) => "Stack error: "@ + message,
            LumaErrorView::JitError(message) => "JIT error: "@ + message,
            LumaErrorView::IoError(message) => "I/O error: "@ + message,
            LumaErrorView::SerializationError(message) => "Serialization error: "@ + message,
        }
    }
}

fn located(prefix: &str, line: usize, message: &String) -> (s: String)
    ensures
        s@ == LumaErrorView::located(prefix@, line, message@),
{
    let mut s = String::from_str(prefix);
    text::push_decimal(&mut s, line as u64);
    s.append(": ");
    s.append(message.as_str());
    s
}

fn prefixed(prefix: &str, message: &String) -> (s: String)
    ensures
        s@ == prefix@ + message@,
{
    let mut s = String::from_str(prefix);
    s.append(message.as_str());
    s
}

impl LumaError {
    pub fn parse_error(message: String, line: usize) -> (e: LumaError)
        ensures
            e@ == (LumaErrorView::ParseError { message: message@, line }),
    {
        LumaError::ParseError { message, line }
    }

    pub fn lex_error(message: String, line: usize) -> (e: LumaError)
        ensures
            e@ == (LumaErrorView::LexError { message: message@, line }),
    {
        LumaError::LexError { message, line }
    }

    pub fn compilation_error(message: String, line: usize) -> (e: LumaError)
        ensures
            e@ == (LumaErrorView::CompileError { message: message@, line }),
    {
        LumaError::CompileError { message, line }
    }

    /// The text shown to the user: the kind of failure, the line where the
    /// kind carries one, and the message.
    pub fn to_string(&self) -> (s: String)
        ensures
            s@ == self@.to_text(),
    {
        match self {
            LumaError::LexError { message, line } => located("Lexical error at line ", *line, message),
            LumaError::ParseError { message, line } => located("Parse error at line ", *line, message),
            LumaError::CompileError { message, line } => located("Compile error at line ", *line, message),
            LumaError::RuntimeError(message) => prefixed("Runtime error: ", message),
            LumaError::StackError(message) => prefixed("Stack error: ", message),
            LumaError::JitError(message) => prefixed("JIT error: ", message),
            LumaError::IoError(message) => prefixed("I/O error: ", message),
            LumaError::SerializationError(message) => prefixed("Serialization error: ", message),
        }
    }
}

impl From<String> for LumaError {
    fn from(message: String) -> (e: LumaError) {
        LumaError::RuntimeError(message)
    }
}

impl FromSpecImpl<String> for LumaError {
    open spec fn obeys_from_spec() -> bool {
        true
    }

    open spec fn from_spec(message: String) -> LumaError {
        LumaError::RuntimeError(message)
    }
}

impl<'a> FromSpecImpl<&'a str> for LumaError {
    open spec fn obeys_from_spec() -> bool {
        false
    }

    open spec fn from_spec(message: &'a str) -> LumaError {
        arbitrary()
    }
}

impl<'a> From<&'a str> for LumaError {
    fn from(message: &'a str) -> (e: LumaError)
        ensures
            e@ == LumaErrorView::RuntimeError(message@),
    {
        LumaError::RuntimeError(String::from_str(message))
    }
}

} // verus!
