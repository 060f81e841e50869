//! Linkage kinds a global declaration can carry.

use vstd::prelude::*;

verus! {

/// The linkage of a global or function declaration.
#[derive(Clone, Copy, Debug, PartialEq, Eq, Structural)]
pub enum Linkage {
    /// The default, externally visible linkage.
    External,
    /// Not emitted to the object file; definitions are used only for
    /// optimization purposes.
    AvailableExternally,
    /// Merged with other globals of the same name during linking; unused
    /// globals are discarded.
    LinkOnceAny,
    /// Like `LinkOnceAny`, but only globals with equivalent definitions
    /// are merged.
    LinkOnceODR,
    /// Like `LinkOnceAny`, but unused globals are kept.
    WeakAny,
    /// Like `LinkOnceODR`, but unused globals are kept.
    WeakODR,
    /// Global arrays are appended together when linking.
    Appending,
    /// Like `Private`, but values are represented as local symbols.
    Internal,
    /// Only directly accessible by objects in the current module.
    Private,
    /// Weak until linked; becomes null instead of undefined.
    ExternalWeak,
    /// Tentative definitions at global scope.
    Common,
}

/// The stable numeric code of each linkage kind.
pub open spec fn linkage_code(l: Linkage) -> u32 {
    match l {
        Linkage::External => 0,
        Linkage::AvailableExternally => 1,
        Linkage::LinkOnceAny => 2,
        Linkage::LinkOnceODR => 3,
        Linkage::WeakAny => 5,
        Linkage::WeakODR => 6,
        Linkage::Appending => 7,
        Linkage::Internal => 8,
        Linkage::Private => 9,
        Linkage::ExternalWeak => 12,
        Linkage::Common => 14,
    }
}

impl Linkage {
    /// The numeric code this linkage is known by in emitted artifacts.
    pub fn inner(&self) -> (r: u32)
        ensures
            r == linkage_code(*self),
    {
        match self {
            Linkage::External => 0,
            Linkage::AvailableExternally => 1,
            Linkage::LinkOnceAny => 2,
            Linkage::LinkOnceODR => 3,
            Linkage::WeakAny => 5,
            Linkage::WeakODR => 6,
            Linkage::Appending => 7,
            Linkage::Internal => 8,
            Linkage::Private => 9,
            Linkage::ExternalWeak => 12,
            Linkage::Common => 14,
        }
    }
}

} // verus!
