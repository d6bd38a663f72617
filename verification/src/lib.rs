//! Core of a minimal native debugger: process control under trace,
//! software breakpoints by patching executable memory, and
//! frame-pointer-based stack unwinding, together with the small
//! data structures and algorithms the surrounding tools use.

pub mod command;
pub mod debugger;
pub mod errors;
pub mod grid;
pub mod hangman;
pub mod inferior;
pub mod linked_list;
pub mod rdiff;
pub mod strutil;
pub mod symbols;
pub mod trace;
pub mod unwind;
pub mod word;

pub use word::align_addr_to_word;
