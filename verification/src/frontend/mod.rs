pub mod ast;
pub mod chars;
pub mod compiler;
pub mod laws;
pub mod lexer;
pub mod parser;
pub mod token;

pub use ast::BinaryOperator;
pub use ast::Expression;
pub use ast::Statement;
pub use ast::UnaryOperator;
pub use compiler::Compiler;
pub use lexer::Lexer;
pub use parser::Parser;
pub use token::Token;
