//! The errors that compilation reports.

use vstd::prelude::*;

verus! {

/// The special forms of the language, as named in error reports.
#[derive(Debug, Clone, Copy, PartialEq, Eq, Structural)]
pub enum Form {
    Arithmetic,
    Comparison,
    Inc,
    List,
    Nth,
    If,
    While,
    Switch,
    Let,
    Assign,
    New,
    Abort,
    Fiber,
    Yield,
    Load,
    Class,
    Function,
    Call,
}

/// Why a program could not be compiled.
#[derive(Debug, Clone, Copy, PartialEq, Eq, Structural)]
pub enum CompileError {
    /// A special form has the wrong number or shape of arguments.
    Malformed(Form),
    /// `super` outside a method, or in a class without a parent.
    UnresolvedSuper,
    /// More arguments than the callee declares.
    ArityMismatch,
    /// A limit of the instruction encoding or of the module format is exceeded.
    CapacityOverflow,
    /// A module loads itself, directly or through others.
    CircularLoad,
    /// A loaded module is not among the sources.
    MissingModule,
    /// A node that cannot occur in source that compiles.
    UnsupportedNode,
}

} // verus!
