//! The kinds of local variables a method visitor is told of.

use vstd::prelude::*;

verus! {

/// The type of a local variable: a primitive, named by its load opcode, or an object,
/// named by its type.
#[derive(Debug, Clone, Copy, PartialEq, Eq)]
pub enum LocalVariableType<'a> {
    Primitive { opcodes: i8 },
    Object { type_str: &'a str },
}

} // verus!
