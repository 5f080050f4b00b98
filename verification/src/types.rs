//! The plain value types the slot interface speaks of: slot type tags, the
//! three-way result of running script text, and the error categories the
//! error hook distinguishes.

use vstd::prelude::*;

verus! {

/// An opaque pointer-sized value, as the engine's user-data and foreign-payload
/// interfaces hand it around.  The layer never looks inside one.
pub type Pointer = usize;

/// The runtime type tag of a slot, as the engine reports it.
///
/// Every slot read first checks this tag; a mismatch is reported as an absent
/// value rather than an undefined read.
#[derive(Clone, Copy, PartialEq, Eq, Structural, Debug)]
pub enum SlotType {
    /// The slot holds a boolean.
    Bool,
    /// The slot holds a number (the engine stores numbers as doubles).
    Num,
    /// The slot holds a foreign object allocated through the foreign-class
    /// interface.
    Foreign,
    /// The slot holds a list.
    List,
    /// The slot holds null.
    Null,
    /// The slot holds a string (a byte array to the engine).
    Str,
    /// The slot holds a value of some other, engine-internal kind, or a value
    /// this layer has no further knowledge of.
    Unknown,
}

/// The outcome of compiling and running script text.
#[derive(Clone, Copy, PartialEq, Eq, Structural, Debug)]
pub enum InterpretResult {
    /// The script compiled and ran to completion.
    Success,
    /// The script failed to compile.
    CompileError,
    /// The script compiled but aborted with a runtime error.
    RuntimeError,
}

/// The three-way outcome as the engine's C interface reports it: 0 for
/// success, 1 for a compile error, 2 for a runtime error.  The engine reports
/// nothing else, so other codes are excluded.
pub fn interpret_result_from_code(code: i32) -> (r: InterpretResult)
    requires
        0 <= code <= 2,
    ensures
        r == (if code == 0 {
            InterpretResult::Success
        } else if code == 1 {
            InterpretResult::CompileError
        } else {
            InterpretResult::RuntimeError
        }),
{
    if code == 0 {
        InterpretResult::Success
    } else if code == 1 {
        InterpretResult::CompileError
    } else {
        InterpretResult::RuntimeError
    }
}

/// The category of a diagnostic handed to the error hook.
#[derive(Clone, Copy, PartialEq, Eq, Structural, Debug)]
pub enum ErrorType {
    /// A compile-time diagnostic, with a module name and a line number.
    Compile,
    /// The message of a runtime error.
    Runtime,
    /// One frame of the stack trace that follows a runtime error.
    StackTrace,
}

} // verus!
