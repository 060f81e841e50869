//! Factories for the types a context can hold.
//!
//! Structural types are interned: asking twice for the same shape returns
//! the same handle, so type identity can be compared with `==`. Named
//! struct types are nominal: every call of [`create_named_struct`] makes a
//! fresh type.

use vstd::prelude::*;

use crate::context::{name_ok, ty_grown, valid_name, Context, TypeData};
use crate::err::IrError;
use crate::target::TargetData;
use crate::ty::Type;

verus! {

/// Creates a fresh named struct type, opaque until its body is set.
pub fn create_named_struct(ctx: &mut Context, name: &str) -> (r: Result<Type, IrError>)
    requires
        old(ctx).wf(),
        !old(ctx).disposed,
    ensures
        final(ctx).wf(),
        ty_grown(*old(ctx), *final(ctx)),
        match r {
            Ok(t) => {
                &&& valid_name(name@)
                &&& final(ctx).ty_ok(t)
                &&& t.idx == old(ctx).types@.len()
                &&& (final(ctx).ty_at(t.idx as int) matches TypeData::Named {
                    name: n,
                    fields,
                    packed,
                    opaque,
                } && n@ == name@ && fields@.len() == 0 && !packed && opaque)
            },
            Err(e) => {
                &&& e == IrError::InvalidName
                &&& !valid_name(name@)
                &&& final(ctx).types@ == old(ctx).types@
            },
        },
{
    if !name_ok(name) {
        return Err(IrError::InvalidName);
    }
    Ok(ctx.push_named_struct(name.to_owned()))
}

/// The array type of `count` elements of `ty`.
pub fn ty_array(ctx: &mut Context, ty: Type, count: u32) -> (t: Type)
    requires
        old(ctx).wf(),
        !old(ctx).disposed,
        old(ctx).ty_ok(ty),
        old(ctx).sized_at(ty.idx as int),
    ensures
        final(ctx).wf(),
        ty_grown(*old(ctx), *final(ctx)),
        final(ctx).ty_ok(t),
        final(ctx).ty_at(t.idx as int) == (TypeData::Array { elem: ty.idx, count }),
{
    let t = ctx.intern(TypeData::Array { elem: ty.idx, count });
    proof {
        assert(ctx.ty_at(t.idx as int) == (TypeData::Array { elem: ty.idx, count }));
    }
    t
}

/// The anonymous struct type over the given field types.
pub fn ty_struct(ctx: &mut Context, elements: Vec<Type>, packed: bool) -> (t: Type)
    requires
        old(ctx).wf(),
        !old(ctx).disposed,
        forall|k: int|
            0 <= k < elements@.len() ==> old(ctx).ty_ok(#[trigger] elements@[k]) && old(
                ctx,
            ).sized_at(elements@[k].idx as int),
    ensures
        final(ctx).wf(),
        ty_grown(*old(ctx), *final(ctx)),
        final(ctx).ty_ok(t),
        (final(ctx).ty_at(t.idx as int) matches TypeData::Struct { fields, packed: p }
            && fields@.len() == elements@.len() && (forall|j: int|
            0 <= j < elements@.len() ==> #[trigger] fields@[j] == elements@[j].idx) && p
            == packed),
{
    let n = elements.len();
    let mut fields: Vec<usize> = Vec::new();
    let mut i: usize = 0;
    while i < n
        invariant
            i <= n,
            n == elements@.len(),
            fields@.len() == i,
            forall|j: int| 0 <= j < i ==> #[trigger] fields@[j] == elements@[j].idx,
        decreases n - i,
    {
        fields.push(elements[i].idx);
        i += 1;
    }
    ctx.intern(TypeData::Struct { fields, packed })
}

/// The `void` type.
pub fn ty_void(ctx: &Context) -> (t: Type)
    requires
        ctx.wf(),
        !ctx.disposed,
    ensures
        ctx.ty_ok(t),
        ctx.ty_at(t.idx as int) == TypeData::Void,
{
    Type { owner: ctx.id, idx: 0 }
}

/// The 1-bit integer (boolean) type.
pub fn ty_i1(ctx: &Context) -> (t: Type)
    requires
        ctx.wf(),
        !ctx.disposed,
    ensures
        ctx.ty_ok(t),
        ctx.ty_at(t.idx as int) == (TypeData::Int { bits: 1u32 }),
{
    Type { owner: ctx.id, idx: 1 }
}

/// The 8-bit integer type.
pub fn ty_i8(ctx: &Context) -> (t: Type)
    requires
        ctx.wf(),
        !ctx.disposed,
    ensures
        ctx.ty_ok(t),
        ctx.ty_at(t.idx as int) == (TypeData::Int { bits: 8u32 }),
{
    Type { owner: ctx.id, idx: 2 }
}

/// The 16-bit integer type.
pub fn ty_i16(ctx: &Context) -> (t: Type)
    requires
        ctx.wf(),
        !ctx.disposed,
    ensures
        ctx.ty_ok(t),
        ctx.ty_at(t.idx as int) == (TypeData::Int { bits: 16u32 }),
{
    Type { owner: ctx.id, idx: 3 }
}

/// The 32-bit integer type.
pub fn ty_i32(ctx: &Context) -> (t: Type)
    requires
        ctx.wf(),
        !ctx.disposed,
    ensures
        ctx.ty_ok(t),
        ctx.ty_at(t.idx as int) == (TypeData::Int { bits: 32u32 }),
{
    Type { owner: ctx.id, idx: 4 }
}

/// The 64-bit integer type.
pub fn ty_i64(ctx: &Context) -> (t: Type)
    requires
        ctx.wf(),
        !ctx.disposed,
    ensures
        ctx.ty_ok(t),
        ctx.ty_at(t.idx as int) == (TypeData::Int { bits: 64u32 }),
{
    Type { owner: ctx.id, idx: 5 }
}

/// The 128-bit integer type.
pub fn ty_i128(ctx: &Context) -> (t: Type)
    requires
        ctx.wf(),
        !ctx.disposed,
    ensures
        ctx.ty_ok(t),
        ctx.ty_at(t.idx as int) == (TypeData::Int { bits: 128u32 }),
{
    Type { owner: ctx.id, idx: 6 }
}

/// The pointer-sized integer type for a given data layout.
pub fn ty_isize(ctx: &mut Context, data: &TargetData) -> (t: Type)
    requires
        old(ctx).wf(),
        !old(ctx).disposed,
        1 <= data.ptr_bytes < 0x2000_0000u32,
    ensures
        final(ctx).wf(),
        ty_grown(*old(ctx), *final(ctx)),
        final(ctx).ty_ok(t),
        final(ctx).ty_at(t.idx as int) == (TypeData::Int { bits: (data.ptr_bytes * 8) as u32 }),
{
    ty_i(ctx, data.ptr_bytes * 8)
}

/// The integer type of any positive bit width.
pub fn ty_i(ctx: &mut Context, bits: u32) -> (t: Type)
    requires
        old(ctx).wf(),
        !old(ctx).disposed,
        1 <= bits,
    ensures
        final(ctx).wf(),
        ty_grown(*old(ctx), *final(ctx)),
        final(ctx).ty_ok(t),
        final(ctx).ty_at(t.idx as int) == (TypeData::Int { bits }),
{
    let t = ctx.intern(TypeData::Int { bits });
    proof {
        assert(ctx.ty_at(t.idx as int) == (TypeData::Int { bits }));
    }
    t
}

/// The 16-bit floating-point type.
pub fn ty_half(ctx: &Context) -> (t: Type)
    requires
        ctx.wf(),
        !ctx.disposed,
    ensures
        ctx.ty_ok(t),
        ctx.ty_at(t.idx as int) == TypeData::Half,
{
    Type { owner: ctx.id, idx: 7 }
}

/// The 32-bit floating-point type.
pub fn ty_float(ctx: &Context) -> (t: Type)
    requires
        ctx.wf(),
        !ctx.disposed,
    ensures
        ctx.ty_ok(t),
        ctx.ty_at(t.idx as int) == TypeData::Float,
{
    Type { owner: ctx.id, idx: 8 }
}

/// The 64-bit floating-point type.
pub fn ty_double(ctx: &Context) -> (t: Type)
    requires
        ctx.wf(),
        !ctx.disposed,
    ensures
        ctx.ty_ok(t),
        ctx.ty_at(t.idx as int) == TypeData::Double,
{
    Type { owner: ctx.id, idx: 9 }
}

/// The 128-bit floating-point type.
pub fn ty_fp128(ctx: &Context) -> (t: Type)
    requires
        ctx.wf(),
        !ctx.disposed,
    ensures
        ctx.ty_ok(t),
        ctx.ty_at(t.idx as int) == TypeData::Fp128,
{
    Type { owner: ctx.id, idx: 10 }
}

} // verus!
