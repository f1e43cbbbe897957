//! A small verified virtual computer: an 8-bit processor with a 16-bit
//! address space, a memory bus with region-based protection and
//! memory-mapped devices, and a two-pass assembler that produces byte
//! images for that processor.

pub mod bits;
pub mod isa;
pub mod cpu;
pub mod bus;
pub mod device;
pub mod memory;
pub mod vc;
pub mod vm;
pub mod lexer;
pub mod parser;
pub mod assembler;
pub mod laws;
