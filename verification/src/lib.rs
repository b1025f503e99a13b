//! Compiler for a small Lisp-like language: from source text to bytecode
//! for a stack machine, packed into a binary module.
//!
//! The way of a program through the crate:
//!
//! - [`reader`] splits the text of a file into nested pairs, [`parser`]
//!   builds the syntax tree ([`node`]) from them;
//! - [`loader`] says which further files the program needs;
//! - [`emitter`] compiles the tree, form by form ([`forms`], [`control`],
//!   [`bindings`], [`closures`], [`classes`], [`units`]), into instructions
//!   ([`opcode`], [`code`]), with the strings in a constant pool ([`pool`])
//!   and the names resolved by scope ([`scope`], [`selector`]);
//! - [`writer`] lays out the pool and the class table ([`table`]) as the
//!   bytes of a module ([`wire`]).
//!
//! What each form compiles to is defined in [`rules`], as functions from
//! syntax and state to instructions and state. The emitter is verified to
//! compute these functions, and [`laws`], [`supply`] and [`numbering`] hold
//! what follows from them for every program.
//!
//! A second way leads from the tree to C++: [`translate`] defines the text
//! that each form becomes, [`translator`] computes it, and [`generator`]
//! assembles the text of the program from the pieces. [`opened`],
//! [`fetched`] and [`floats`] hold what follows for every program.
//!
//! A third way leads to an intermediate language for native code: [`lower`]
//! turns the tree into the few forms that this back end knows, [`ssa`]
//! defines the lines that each of them becomes, and [`native`] writes them.

pub mod bindings;
pub mod classes;
pub mod closures;
pub mod code;
pub mod control;
pub mod emitter;
pub mod error;
pub mod fetched;
pub mod floats;
pub mod forms;
pub mod generator;
pub mod laws;
pub mod loader;
pub mod lower;
pub mod native;
pub mod node;
pub mod numbering;
pub mod opcode;
pub mod opened;
pub mod parser;
pub mod pool;
pub mod reader;
pub mod rules;
pub mod scope;
pub mod selector;
pub mod ssa;
pub mod supply;
pub mod table;
pub mod text;
pub mod translate;
pub mod translator;
pub mod units;
pub mod wire;
pub mod writer;
