//! Schema-driven marshaling between a host and a sandboxed guest.
//!
//! A schema describes records. From it come the declarations for both sides and the code
//! that writes a host value into the guest's linear memory; the rest of the library is the
//! protocol that this code follows and the reading of what the guest leaves behind.

pub mod asc_loader;
pub mod bytes;
pub mod chars;
pub mod definitions;
pub mod gen_as;
pub mod gen_rust;
pub mod lex;
pub mod marshal;
pub mod parse;
pub mod text;
pub mod tg;
pub mod tg_api;
pub mod utf16;

pub use asc_loader::{
    generate_err, read_asc_string, read_i32, Busy, CallError, GuestAbort, Orchestrator, Outcome,
};
pub use definitions::{Field, KrjFile, Struct, Type};
pub use gen_as::GenAs;
pub use gen_rust::{GenRust, GenWrite, GenerationError};
pub use marshal::{encode, write_optional, Memory, Target, WhatToWrite};
pub use parse::{parse, Expected, ParseError};
pub use tg_api::{Chat, Message, SendMessage, Update, UpdateResponse, User};
