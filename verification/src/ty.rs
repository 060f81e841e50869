//! The handle for a type owned by a context.

use vstd::prelude::*;

use crate::context::{ctx_same, ty_grown, Context, TypeData, ValData, ValKind};
use crate::err::IrError;
use crate::types::{ty_i32, ty_struct};
use crate::val::Value;

verus! {

/// A handle for a type stored in a [`crate::context::Context`] arena.
///
/// Handles are value-like: copy them freely. A handle is meaningful only
/// together with the context that created it; `owner` carries that
/// context's tag and `idx` the position in its type arena.
#[derive(Clone, Copy, Debug, PartialEq, Eq, Structural)]
pub struct Type {
    /// Tag of the owning context.
    pub owner: u64,
    /// Index in the owning context's type arena.
    pub idx: usize,
}

/// When setting the body of a struct type fails, and with which error:
/// the handle must belong to the context, name a named struct, and be
/// opaque still, and every field must belong to the context and be sized.
pub open spec fn set_body_err(c: Context, t: Type, elems: Seq<Type>) -> Option<IrError> {
    if !c.ty_ok(t) {
        Some(IrError::CrossContext)
    } else if !(c.ty_at(t.idx as int) is Named) {
        Some(IrError::NotAStruct)
    } else if !(c.ty_at(t.idx as int) matches TypeData::Named { opaque: true, .. }) {
        Some(IrError::BodyAlreadySet)
    } else if exists|k: int| 0 <= k < elems.len() && !c.ty_ok(#[trigger] elems[k]) {
        Some(IrError::CrossContext)
    } else if exists|k: int| 0 <= k < elems.len() && !c.sized_at(#[trigger] elems[k].idx as int) {
        Some(IrError::OpaqueType)
    } else {
        None
    }
}

impl Type {
    /// The function signature returning this type and taking the given
    /// parameter types, variadic when `va_args` holds.
    pub fn function(&self, ctx: &mut Context, params: Vec<Type>, va_args: bool) -> (t: Type)
        requires
            old(ctx).wf(),
            !old(ctx).disposed,
            old(ctx).ty_ok(*self),
            forall|k: int| 0 <= k < params@.len() ==> old(ctx).ty_ok(#[trigger] params@[k]),
        ensures
            final(ctx).wf(),
            ty_grown(*old(ctx), *final(ctx)),
            final(ctx).ty_ok(t),
            (final(ctx).ty_at(t.idx as int) matches TypeData::FnTy { ret, params: q, va } && ret
                == self.idx && q@.len() == params@.len() && (forall|j: int|
                0 <= j < params@.len() ==> #[trigger] q@[j] == params@[j].idx) && va == va_args),
    {
        let n = params.len();
        let mut q: Vec<usize> = Vec::new();
        let mut i: usize = 0;
        while i < n
            invariant
                i <= n,
                n == params@.len(),
                q@.len() == i,
                forall|j: int| 0 <= j < i ==> #[trigger] q@[j] == params@[j].idx,
            decreases n - i,
        {
            q.push(params[i].idx);
            i += 1;
        }
        ctx.intern(TypeData::FnTy { ret: self.idx, params: q, va: va_args })
    }

    /// The pointer type to this type.
    pub fn pointer(&self, ctx: &mut Context) -> (t: Type)
        requires
            old(ctx).wf(),
            !old(ctx).disposed,
            old(ctx).ty_ok(*self),
        ensures
            final(ctx).wf(),
            ty_grown(*old(ctx), *final(ctx)),
            final(ctx).ty_ok(t),
            final(ctx).ty_at(t.idx as int) == (TypeData::Ptr { elem: self.idx }),
    {
        let t = ctx.intern(TypeData::Ptr { elem: self.idx });
        proof {
            assert(ctx.ty_at(t.idx as int) == (TypeData::Ptr { elem: self.idx }));
        }
        t
    }

    /// The struct pairing this type with a 32-bit reference counter.
    pub fn rc(&self, ctx: &mut Context) -> (t: Type)
        requires
            old(ctx).wf(),
            !old(ctx).disposed,
            old(ctx).ty_ok(*self),
            old(ctx).sized_at(self.idx as int),
        ensures
            final(ctx).wf(),
            ty_grown(*old(ctx), *final(ctx)),
            final(ctx).ty_ok(t),
            (final(ctx).ty_at(t.idx as int) matches TypeData::Struct { fields, packed }
                && fields@.len() == 2 && fields@[0] == self.idx && (final(ctx).ty_at(
                fields@[1] as int,
            ) == (TypeData::Int { bits: 32u32 })) && !packed),
    {
        let counter = ty_i32(ctx);
        let elems: Vec<Type> = vec![*self, counter];
        let t = ty_struct(ctx, elems, false);
        t
    }

    /// Sets the body of this named struct type. The body is set exactly
    /// once: a second call reports `BodyAlreadySet`. Afterwards the
    /// struct's structural queries reflect the given fields in order.
    pub fn struct_set_body(&self, ctx: &mut Context, elements: Vec<Type>, packed: bool) -> (r:
        Result<(), IrError>)
        requires
            old(ctx).wf(),
            !old(ctx).disposed,
        ensures
            final(ctx).wf(),
            !final(ctx).disposed,
            final(ctx).id == old(ctx).id,
            final(ctx).vals@ == old(ctx).vals@,
            final(ctx).blocks@ == old(ctx).blocks@,
            final(ctx).modules@ == old(ctx).modules@,
            final(ctx).types@.len() == old(ctx).types@.len(),
            (forall|j: int|
                0 <= j < old(ctx).types@.len() && j != self.idx ==> final(ctx).types@[j] == old(
                    ctx,
                ).types@[j]),
            match r {
                Ok(()) => {
                    &&& set_body_err(*old(ctx), *self, elements@) is None
                    &&& (final(ctx).ty_at(self.idx as int) matches TypeData::Named {
                        name,
                        fields,
                        packed: p,
                        opaque,
                    } && name@ == old(ctx).ty_named_name(self.idx as int) && fields@.len()
                        == elements@.len() && (forall|j: int|
                        0 <= j < elements@.len() ==> #[trigger] fields@[j] == elements@[j].idx)
                        && p == packed && !opaque)
                },
                Err(e) => {
                    &&& set_body_err(*old(ctx), *self, elements@) == Some(e)
                    &&& final(ctx).types@ == old(ctx).types@
                },
            },
    {
        if self.owner != ctx.id || self.idx >= ctx.types.len() {
            return Err(IrError::CrossContext);
        }
        let named = match &ctx.types[self.idx] {
            TypeData::Named { opaque, .. } => Some(*opaque),
            _ => None,
        };
        match named {
            None => {
                return Err(IrError::NotAStruct);
            },
            Some(false) => {
                return Err(IrError::BodyAlreadySet);
            },
            Some(true) => {},
        }
        let n = elements.len();
        let mut i: usize = 0;
        while i < n
            invariant
                i <= n,
                n == elements@.len(),
                ctx_same(*old(ctx), *ctx),
                old(ctx).wf(),
                !old(ctx).disposed,
                old(ctx).ty_ok(*self),
                old(ctx).ty_at(self.idx as int) matches TypeData::Named { opaque: true, .. },
                forall|j: int| 0 <= j < i ==> old(ctx).ty_ok(#[trigger] elements@[j]),
            decreases n - i,
        {
            let e = elements[i];
            if e.owner != ctx.id || e.idx >= ctx.types.len() {
                return Err(IrError::CrossContext);
            }
            i += 1;
        }
        let mut fields: Vec<usize> = Vec::new();
        let mut k: usize = 0;
        while k < n
            invariant
                k <= n,
                n == elements@.len(),
                ctx_same(*old(ctx), *ctx),
                old(ctx).wf(),
                !old(ctx).disposed,
                old(ctx).ty_ok(*self),
                old(ctx).ty_at(self.idx as int) matches TypeData::Named { opaque: true, .. },
                forall|j: int| 0 <= j < n ==> old(ctx).ty_ok(#[trigger] elements@[j]),
                fields@.len() == k,
                forall|j: int| 0 <= j < k ==> #[trigger] fields@[j] == elements@[j].idx,
                forall|j: int| 0 <= j < k ==> old(ctx).sized_at(#[trigger] elements@[j].idx as int),
            decreases n - k,
        {
            let e = elements[k];
            if !ctx.is_sized(e.idx) {
                return Err(IrError::OpaqueType);
            }
            fields.push(e.idx);
            k += 1;
        }
        ctx.set_named_body(self.idx, fields, packed);
        Ok(())
    }

    /// The integer constant of this integer type with the given bits,
    /// zero-extended.
    pub fn const_int(&self, ctx: &mut Context, val: u64) -> (v: Value)
        requires
            old(ctx).wf(),
            !old(ctx).disposed,
            old(ctx).ty_ok(*self),
            old(ctx).ty_at(self.idx as int) is Int,
        ensures
            final(ctx).wf(),
            !final(ctx).disposed,
            final(ctx).id == old(ctx).id,
            final(ctx).types@ == old(ctx).types@,
            final(ctx).blocks@ == old(ctx).blocks@,
            final(ctx).modules@ == old(ctx).modules@,
            final(ctx).vals@ == old(ctx).vals@.push(
                ValData { name: None, ty: self.idx, kind: ValKind::ConstInt { value: val } },
            ),
            v == (Value { owner: old(ctx).id, idx: old(ctx).vals@.len() as usize }),
            final(ctx).val_ok(v),
            final(ctx).val_at(v.idx as int).ty == self.idx,
    {
        ctx.push_val(ValData { name: None, ty: self.idx, kind: ValKind::ConstInt { value: val } })
    }

    /// The integer constant of this integer type with the given signed
    /// value, stored as its two's-complement bit pattern.
    pub fn const_signed_int(&self, ctx: &mut Context, val: i64) -> (v: Value)
        requires
            old(ctx).wf(),
            !old(ctx).disposed,
            old(ctx).ty_ok(*self),
            old(ctx).ty_at(self.idx as int) is Int,
        ensures
            final(ctx).wf(),
            !final(ctx).disposed,
            final(ctx).id == old(ctx).id,
            final(ctx).types@ == old(ctx).types@,
            final(ctx).blocks@ == old(ctx).blocks@,
            final(ctx).modules@ == old(ctx).modules@,
            final(ctx).vals@ == old(ctx).vals@.push(
                ValData { name: None, ty: self.idx, kind: ValKind::ConstInt { value: val as u64 } },
            ),
            v == (Value { owner: old(ctx).id, idx: old(ctx).vals@.len() as usize }),
            final(ctx).val_at(v.idx as int).ty == self.idx,
    {
        ctx.push_val(
            ValData { name: None, ty: self.idx, kind: ValKind::ConstInt { value: val as u64 } },
        )
    }

    /// The constant of this named struct type with the given elements.
    pub fn const_struct(&self, ctx: &mut Context, elements: Vec<Value>) -> (v: Value)
        requires
            old(ctx).wf(),
            !old(ctx).disposed,
            old(ctx).ty_ok(*self),
            old(ctx).ty_at(self.idx as int) matches TypeData::Named { opaque, .. } && !opaque,
            forall|k: int| 0 <= k < elements@.len() ==> old(ctx).val_ok(#[trigger] elements@[k]),
        ensures
            final(ctx).wf(),
            !final(ctx).disposed,
            final(ctx).id == old(ctx).id,
            final(ctx).types@ == old(ctx).types@,
            final(ctx).blocks@ == old(ctx).blocks@,
            final(ctx).modules@ == old(ctx).modules@,
            final(ctx).vals@.len() == old(ctx).vals@.len() + 1,
            (forall|j: int|
                0 <= j < old(ctx).vals@.len() ==> final(ctx).vals@[j] == old(ctx).vals@[j]),
            v == (Value { owner: old(ctx).id, idx: old(ctx).vals@.len() as usize }),
            final(ctx).val_at(v.idx as int).ty == self.idx,
            final(ctx).val_at(v.idx as int).name is None,
            (final(ctx).val_at(v.idx as int).kind matches ValKind::ConstStruct { elems }
                && elems@.len() == elements@.len() && (forall|j: int|
                0 <= j < elements@.len() ==> #[trigger] elems@[j] == elements@[j].idx)),
    {
        let idxs = val_idx_vec(&elements);
        ctx.push_val(
            ValData { name: None, ty: self.idx, kind: ValKind::ConstStruct { elems: idxs } },
        )
    }

    /// The constant array whose element type is this type, with the given
    /// elements.
    pub fn const_array(&self, ctx: &mut Context, elements: Vec<Value>) -> (v: Value)
        requires
            old(ctx).wf(),
            !old(ctx).disposed,
            old(ctx).ty_ok(*self),
            old(ctx).sized_at(self.idx as int),
            elements@.len() <= 0xffff_ffffu32,
            forall|k: int| 0 <= k < elements@.len() ==> old(ctx).val_ok(#[trigger] elements@[k]),
        ensures
            final(ctx).wf(),
            !final(ctx).disposed,
            final(ctx).id == old(ctx).id,
            final(ctx).blocks@ == old(ctx).blocks@,
            final(ctx).modules@ == old(ctx).modules@,
            old(ctx).types@.len() <= final(ctx).types@.len(),
            (forall|j: int|
                0 <= j < old(ctx).types@.len() ==> final(ctx).types@[j] == old(ctx).types@[j]),
            final(ctx).vals@.len() == old(ctx).vals@.len() + 1,
            (forall|j: int|
                0 <= j < old(ctx).vals@.len() ==> final(ctx).vals@[j] == old(ctx).vals@[j]),
            v == (Value { owner: old(ctx).id, idx: old(ctx).vals@.len() as usize }),
            (final(ctx).ty_at(final(ctx).val_at(v.idx as int).ty as int) == (TypeData::Array {
                elem: self.idx,
                count: elements@.len() as u32,
            })),
            final(ctx).val_at(v.idx as int).name is None,
            (final(ctx).val_at(v.idx as int).kind matches ValKind::ConstArray { elems }
                && elems@.len() == elements@.len() && (forall|j: int|
                0 <= j < elements@.len() ==> #[trigger] elems@[j] == elements@[j].idx)),
    {
        let count = elements.len() as u32;
        let aty = ctx.intern(TypeData::Array { elem: self.idx, count });
        let ghost mid = *ctx;
        proof {
            assert(ctx.ty_at(aty.idx as int) == (TypeData::Array { elem: self.idx, count }));
        }
        let idxs = val_idx_vec(&elements);
        let v = ctx.push_val(
            ValData { name: None, ty: aty.idx, kind: ValKind::ConstArray { elems: idxs } },
        );
        proof {
            assert forall|j: int| 0 <= j < old(ctx).types@.len() implies ctx.types@[j] == old(
                ctx,
            ).types@[j] by {
                assert(mid.types@[j] == old(ctx).types@[j]);
            }
        }
        v
    }

    /// The undefined value of this type.
    pub fn undef(&self, ctx: &mut Context) -> (v: Value)
        requires
            old(ctx).wf(),
            !old(ctx).disposed,
            old(ctx).ty_ok(*self),
        ensures
            final(ctx).wf(),
            !final(ctx).disposed,
            final(ctx).id == old(ctx).id,
            final(ctx).types@ == old(ctx).types@,
            final(ctx).blocks@ == old(ctx).blocks@,
            final(ctx).modules@ == old(ctx).modules@,
            final(ctx).vals@ == old(ctx).vals@.push(
                ValData { name: None, ty: self.idx, kind: ValKind::Undef },
            ),
            v == (Value { owner: old(ctx).id, idx: old(ctx).vals@.len() as usize }),
            final(ctx).val_at(v.idx as int).ty == self.idx,
    {
        ctx.push_val(ValData { name: None, ty: self.idx, kind: ValKind::Undef })
    }

    /// The zero value of this type.
    pub fn null(&self, ctx: &mut Context) -> (v: Value)
        requires
            old(ctx).wf(),
            !old(ctx).disposed,
            old(ctx).ty_ok(*self),
        ensures
            final(ctx).wf(),
            !final(ctx).disposed,
            final(ctx).id == old(ctx).id,
            final(ctx).types@ == old(ctx).types@,
            final(ctx).blocks@ == old(ctx).blocks@,
            final(ctx).modules@ == old(ctx).modules@,
            final(ctx).vals@ == old(ctx).vals@.push(
                ValData { name: None, ty: self.idx, kind: ValKind::ConstNull },
            ),
            v == (Value { owner: old(ctx).id, idx: old(ctx).vals@.len() as usize }),
            final(ctx).val_at(v.idx as int).ty == self.idx,
    {
        ctx.push_val(ValData { name: None, ty: self.idx, kind: ValKind::ConstNull })
    }

    /// The all-ones value of this integer type.
    pub fn ones(&self, ctx: &mut Context) -> (v: Value)
        requires
            old(ctx).wf(),
            !old(ctx).disposed,
            old(ctx).ty_ok(*self),
            old(ctx).ty_at(self.idx as int) is Int,
        ensures
            final(ctx).wf(),
            !final(ctx).disposed,
            final(ctx).id == old(ctx).id,
            final(ctx).types@ == old(ctx).types@,
            final(ctx).blocks@ == old(ctx).blocks@,
            final(ctx).modules@ == old(ctx).modules@,
            final(ctx).vals@ == old(ctx).vals@.push(
                ValData { name: None, ty: self.idx, kind: ValKind::ConstAllOnes },
            ),
            v == (Value { owner: old(ctx).id, idx: old(ctx).vals@.len() as usize }),
            final(ctx).val_at(v.idx as int).ty == self.idx,
    {
        ctx.push_val(ValData { name: None, ty: self.idx, kind: ValKind::ConstAllOnes })
    }

    /// The null pointer of this pointer type.
    pub fn null_ptr(&self, ctx: &mut Context) -> (v: Value)
        requires
            old(ctx).wf(),
            !old(ctx).disposed,
            old(ctx).ty_ok(*self),
            old(ctx).ty_at(self.idx as int) is Ptr,
        ensures
            final(ctx).wf(),
            !final(ctx).disposed,
            final(ctx).id == old(ctx).id,
            final(ctx).types@ == old(ctx).types@,
            final(ctx).blocks@ == old(ctx).blocks@,
            final(ctx).modules@ == old(ctx).modules@,
            final(ctx).vals@ == old(ctx).vals@.push(
                ValData { name: None, ty: self.idx, kind: ValKind::ConstNullPtr },
            ),
            v == (Value { owner: old(ctx).id, idx: old(ctx).vals@.len() as usize }),
            final(ctx).val_at(v.idx as int).ty == self.idx,
    {
        ctx.push_val(ValData { name: None, ty: self.idx, kind: ValKind::ConstNullPtr })
    }

    /// How many fields this struct type has, once its body is known.
    pub fn field_count(&self, ctx: &Context) -> (r: Result<usize, IrError>)
        requires
            ctx.wf(),
            !ctx.disposed,
        ensures
            match r {
                Ok(n) => {
                    &&& ctx.ty_ok(*self)
                    &&& match ctx.ty_at(self.idx as int) {
                        TypeData::Struct { fields, .. } => n == fields@.len(),
                        TypeData::Named { fields, opaque, .. } => !opaque && n == fields@.len(),
                        _ => false,
                    }
                },
                Err(e) => {
                    &&& if !ctx.ty_ok(*self) {
                        e == IrError::CrossContext
                    } else {
                        match ctx.ty_at(self.idx as int) {
                            TypeData::Struct { .. } => false,
                            TypeData::Named { opaque, .. } => opaque && e == IrError::OpaqueType,
                            _ => e == IrError::NotAStruct,
                        }
                    }
                },
            },
    {
        if self.owner != ctx.id || self.idx >= ctx.types.len() {
            return Err(IrError::CrossContext);
        }
        match &ctx.types[self.idx] {
            TypeData::Struct { fields, .. } => Ok(fields.len()),
            TypeData::Named { fields, opaque, .. } => {
                if *opaque {
                    Err(IrError::OpaqueType)
                } else {
                    Ok(fields.len())
                }
            },
            _ => Err(IrError::NotAStruct),
        }
    }

    /// The field type of this struct type at position `i`, once its body
    /// is known.
    pub fn field_at(&self, ctx: &Context, i: usize) -> (r: Result<Type, IrError>)
        requires
            ctx.wf(),
            !ctx.disposed,
        ensures
            match r {
                Ok(t) => {
                    &&& ctx.ty_ok(*self)
                    &&& ctx.ty_ok(t)
                    &&& match ctx.ty_at(self.idx as int) {
                        TypeData::Struct { fields, .. } => i < fields@.len() && t.idx
                            == fields@[i as int],
                        TypeData::Named { fields, opaque, .. } => !opaque && i < fields@.len()
                            && t.idx == fields@[i as int],
                        _ => false,
                    }
                },
                Err(e) => {
                    &&& if !ctx.ty_ok(*self) {
                        e == IrError::CrossContext
                    } else {
                        match ctx.ty_at(self.idx as int) {
                            TypeData::Struct { fields, .. } => i >= fields@.len() && e
                                == IrError::BadIndex,
                            TypeData::Named { fields, opaque, .. } => if opaque {
                                e == IrError::OpaqueType
                            } else {
                                i >= fields@.len() && e == IrError::BadIndex
                            },
                            _ => e == IrError::NotAStruct,
                        }
                    }
                },
            },
    {
        if self.owner != ctx.id || self.idx >= ctx.types.len() {
            return Err(IrError::CrossContext);
        }
        match &ctx.types[self.idx] {
            TypeData::Struct { fields, .. } => {
                if i < fields.len() {
                    proof {
                        assert(ctx.ty_wf_at(self.idx as int));
                    }
                    Ok(Type { owner: ctx.id, idx: fields[i] })
                } else {
                    Err(IrError::BadIndex)
                }
            },
            TypeData::Named { fields, opaque, .. } => {
                if *opaque {
                    Err(IrError::OpaqueType)
                } else if i < fields.len() {
                    proof {
                        assert(ctx.ty_wf_at(self.idx as int));
                    }
                    Ok(Type { owner: ctx.id, idx: fields[i] })
                } else {
                    Err(IrError::BadIndex)
                }
            },
            _ => Err(IrError::NotAStruct),
        }
    }
}

/// The arena indices of a vector of value handles, in order.
pub(crate) fn val_idx_vec(vals: &Vec<Value>) -> (r: Vec<usize>)
    ensures
        r@.len() == vals@.len(),
        forall|j: int| 0 <= j < vals@.len() ==> #[trigger] r@[j] == vals@[j].idx,
{
    let n = vals.len();
    let mut r: Vec<usize> = Vec::new();
    let mut i: usize = 0;
    while i < n
        invariant
            i <= n,
            n == vals@.len(),
            r@.len() == i,
            forall|j: int| 0 <= j < i ==> #[trigger] r@[j] == vals@[j].idx,
        decreases n - i,
    {
        r.push(vals[i].idx);
        i += 1;
    }
    r
}

} // verus!
