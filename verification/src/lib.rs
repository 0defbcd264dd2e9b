//! The console shell of a small kernel: a line-oriented command interpreter
//! over a fixed-capacity tree of directories and files.
//!
//! Every structure is a pool of fixed size; nothing is allocated while the
//! shell runs. The modules, leaf first:
//!
//! - `names`: NUL-padded name and token buffers and the text they hold;
//! - `vga_buf`: the text console, a grid of glyph and colour bytes;
//! - `error`: the errors an operation can end in;
//! - `slots`: arrays of slot references with a sentinel for "no slot";
//! - `arena`: the directory pool and the file pool and their records;
//! - `tree`: the namespace as plain values, what makes it a tree, and what
//!   each operation makes of it;
//! - `invariants`: proofs that the operations keep the namespace a tree;
//! - `listing`: the texts printed of the namespace, the path and the tree;
//! - `fs`: the executable operations on directories and files;
//! - `parser`: the line buffer and the split of a line into two tokens;
//! - `keys`: decoded keyboard events;
//! - `commands`: the table of command names and the error messages;
//! - `shell`: the dispatcher and the keystroke state machine;
//! - `laws`: what holds of the operations taken together.
pub mod names;
pub mod vga_buf;
pub mod error;
pub mod slots;
pub mod arena;
pub mod tree;
pub mod invariants;
pub mod listing;
pub mod fs;
pub mod parser;
pub mod keys;
pub mod commands;
pub mod shell;
pub mod laws;

