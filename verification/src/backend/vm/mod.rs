pub mod instruction;
pub mod laws;
pub mod stack;
pub mod tables;
pub mod vm;

pub use instruction::OpCode;
pub use stack::Stack;
pub use vm::Action;
pub use vm::VM;
