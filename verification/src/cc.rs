//! Calling conventions a function can carry.

use vstd::prelude::*;

verus! {

/// The calling convention of a function declaration.
#[derive(Clone, Copy, Debug, PartialEq, Eq, Structural)]
pub enum CallConv {
    /// The default C calling convention.
    C,
    /// Makes calls as fast as possible; allows tail calls.
    Fast,
    /// Assumes the function will not be called frequently.
    Cold,
    /// The calling convention for WebKit JS.
    WebKitJS,
    /// Dynamic calling convention for code patching.
    AnyReg,
    /// The x86 standard calling convention.
    X86Stdcall,
    /// The x86 fast calling convention.
    X86Fastcall,
}

/// The stable numeric code of each calling convention.
pub open spec fn cc_code(cc: CallConv) -> u32 {
    match cc {
        CallConv::C => 0,
        CallConv::Fast => 8,
        CallConv::Cold => 9,
        CallConv::WebKitJS => 12,
        CallConv::AnyReg => 13,
        CallConv::X86Stdcall => 64,
        CallConv::X86Fastcall => 65,
    }
}

impl CallConv {
    /// The numeric code this calling convention is known by in emitted
    /// artifacts.
    pub fn inner(&self) -> (r: u32)
        ensures
            r == cc_code(*self),
    {
        match self {
            CallConv::C => 0,
            CallConv::Fast => 8,
            CallConv::Cold => 9,
            CallConv::WebKitJS => 12,
            CallConv::AnyReg => 13,
            CallConv::X86Stdcall => 64,
            CallConv::X86Fastcall => 65,
        }
    }
}

} // verus!
