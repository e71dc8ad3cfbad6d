//! Luma: a small language toolchain. Source text is lexed and parsed into a
//! syntax tree, compiled to bytecode, and run by a stack machine.
//!
//! Numbers are IEEE 754 doubles held as their 64-bit patterns. The library
//! decides everything that can be decided on the bit pattern; rounding
//! arithmetic, reading a decimal numeral and writing a fractional number are
//! asked of the host through [`shared::host::HostRequest`].
pub mod shared;
pub mod backend;
pub mod frontend;
pub mod laws;
