//! A simulator for a small processor with 16-bit instruction words, and the
//! assembler that compiles its mnemonic language.

pub mod assembler;
pub mod cpu;
pub mod cpu_interface;
pub mod laws;
pub mod rom_editor;
pub mod text;
