//! Decoder and encoder for a compact binary description of module interfaces:
//! a version-tagged stream of sections holding function types, imports, exports
//! and function bodies made of a small instruction set.
//!
//! Decoding is lazy and copies nothing: a [`Parser`] is a cursor over bytes
//! that the caller owns, sections and function bodies are cursors carved out
//! of it, and items are decoded one pull at a time. Every failure carries the
//! offset of the token that failed, and leaves the cursor on that token.
//!
//! The wire grammar is written down as specification functions over byte
//! sequences ([`Parse::decode`] for each type that has a place in it), and
//! each decoder is proved to do what the grammar says. Four things are taken
//! on trust, each a function private to the crate and marked as such: the two
//! LEB128 routines of the `leb128` crate, `core::str::from_utf8`, and the
//! value of the schema version constant.

pub mod cursor;
pub mod error;
pub mod func;
pub mod instr;
pub mod parser;
pub mod section;
pub mod stream;
pub mod types;
pub mod varint;

pub use error::{Error, ErrorKind};
pub use func::{Func, Instructions};
pub use instr::{Instruction, Opcode};
pub use parser::{Parse, Parser};
pub use section::{Export, Exports, Funcs, Import, Imports, Section, Types};
pub use types::{Type, ValType};
