//! A lifetime-safe intermediate-representation construction library.
//!
//! A [`context::Context`] is an arena that owns every type, constant,
//! function, global, basic block and instruction created through it.
//! Handles ([`ty::Type`], [`val::Value`], [`bb::BasicBlock`],
//! [`module::Module`]) are small copyable descriptors carrying the owning
//! context's tag and an arena index; they own nothing. A
//! [`builder::Builder`] is a cursor into a basic block through which
//! instructions are emitted in call order.
//!
//! Misuse that would corrupt the graph — emitting with no insertion point,
//! building a phi node with no incoming edges, using a handle after its
//! entity was deleted, or mixing handles from two contexts — is caught at
//! the API boundary and reported as a distinct [`err::IrError`]; such an
//! error is fatal by design and a caller is not expected to recover from
//! it. Absence (a name that is not declared) is an ordinary `None`, not an
//! error.

pub mod attr;
pub mod bb;
pub mod builder;
pub mod cc;
pub mod context;
pub mod err;
pub mod iter;
pub mod link;
pub mod module;
pub mod target;
pub mod text;
pub mod ty;
pub mod types;
pub mod val;
