//! Attribute positions on a function.

use vstd::prelude::*;

verus! {

/// Where an attribute is attached on a function: the function itself, one
/// of its parameters, or its return value.
#[derive(Clone, Copy, Debug, PartialEq, Eq, Structural)]
pub enum AttributeIndex {
    /// An attribute on the function itself.
    Function,
    /// An attribute on the parameter with the given position.
    Parameter(u32),
    /// An attribute on the return value.
    Return,
}

/// The numeric slot each attribute position is known by: the function slot
/// is the largest `u32`, the return slot is `0`, and parameter `i` sits in
/// slot `i + 1`.
pub open spec fn attr_slot(a: AttributeIndex) -> u32 {
    match a {
        AttributeIndex::Function => 0xffff_ffffu32,
        AttributeIndex::Parameter(i) => (i + 1) as u32,
        AttributeIndex::Return => 0u32,
    }
}

impl AttributeIndex {
    /// The numeric slot of this attribute position.
    ///
    /// A parameter position must leave room for the shift by one; the
    /// largest slot is reserved for the function itself.
    pub fn inner(&self) -> (r: u32)
        requires
            (*self matches AttributeIndex::Parameter(i) ==> i < 0xffff_ffffu32),
        ensures
            r == attr_slot(*self),
    {
        match self {
            AttributeIndex::Function => 0xffff_ffffu32,
            AttributeIndex::Parameter(i) => *i + 1,
            AttributeIndex::Return => 0u32,
        }
    }
}

} // verus!
