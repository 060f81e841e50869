//! The error type shared by every fallible operation of the library.

use vstd::prelude::*;

verus! {

/// What went wrong in an operation on the IR graph.
///
/// The variants fall into two families. `InvalidName` and `TooLarge` reject
/// an input value; the same call with a corrected input can succeed.
/// All the others report a precondition violation — a programmer error such
/// as using a stale handle — and are fatal by design: the graph was left
/// unchanged, and retrying cannot help.
#[derive(Clone, Copy, Debug, PartialEq, Eq, Structural)]
pub enum IrError {
    /// A supplied identifier holds an embedded NUL character.
    InvalidName,
    /// A handle does not belong to the context it was used with.
    CrossContext,
    /// The entity a handle refers to was deleted.
    Stale,
    /// The builder has no insertion point set.
    NoPosition,
    /// A phi node was requested with an empty incoming list.
    EmptyPhi,
    /// The value is not a function, and the operation needs one.
    NotAFunction,
    /// The value is not a global variable, and the operation needs one.
    NotAGlobal,
    /// The type is not a named struct, and the operation needs one.
    NotAStruct,
    /// The named struct already has a body; a body is set exactly once.
    BodyAlreadySet,
    /// A type without a completed layout (opaque, void or function typed)
    /// was used where a sized type is needed.
    OpaqueType,
    /// The result type of the requested instruction cannot be derived from
    /// its operands.
    TypeUnknown,
    /// An index (parameter, field or operand position) is out of range.
    BadIndex,
    /// A size computation exceeds the machine limits.
    TooLarge,
    /// The value is not an instruction, and the operation needs one.
    NotAnInstruction,
    /// The value is not a function parameter, and the operation needs one.
    NotAParameter,
    /// The value is a declaration, whose name is fixed when it is
    /// declared; renaming it would break name lookup.
    FixedName,
}

} // verus!
