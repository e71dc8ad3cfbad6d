pub mod jit;
pub mod vm;
