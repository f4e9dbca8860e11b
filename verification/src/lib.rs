//! A small stack-based virtual machine for a flat, word-oriented bytecode:
//! tagged scalar values (integer, float, string, boolean, null) with a
//! coercion matrix, an id allocator for variable bindings, an append-only
//! patchable word stream with an interned string side table, a builder that
//! emits one instruction per operation, a scoped variable stack, and a
//! two-phase interpreter that resolves block targets before executing.

pub mod opcodes;

pub mod text;

pub mod idalloc;

pub mod floats;

pub mod value;

pub mod stream;

pub mod cursor;

pub mod scope;

pub mod builder;

pub mod fmt;

pub mod exec;

pub mod assembler;

pub mod laws;
