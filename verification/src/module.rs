//! The handle for a module owned by a context.

use vstd::prelude::*;

use crate::cc::CallConv;
use crate::context::{ctx_same, name_ok, valid_name, Context, TypeData, ValData, ValKind};
use crate::err::IrError;
use crate::iter::{Functions, Globals};
use crate::link::Linkage;
use crate::target::TargetData;
use crate::ty::Type;
use crate::val::Value;

verus! {

/// A handle for a module stored in a [`crate::context::Context`] arena.
///
/// A module owns declarations for functions and globals; it is created
/// from exactly one context, and every type or value placed in it must
/// come from that context.
#[derive(Clone, Copy, Debug, PartialEq, Eq, Structural)]
pub struct Module {
    /// Tag of the owning context.
    pub owner: u64,
    /// Index in the owning context's module arena.
    pub idx: usize,
}

/// When declaring a name in a module fails, and with which error: the
/// name must be valid, the module and type handles must belong to the
/// context, and a function declaration needs a function signature type.
pub open spec fn add_decl_err(
    c: Context,
    m: Module,
    name: Seq<char>,
    ty: Type,
    needs_fnty: bool,
) -> Option<IrError> {
    if !valid_name(name) {
        Some(IrError::InvalidName)
    } else if !c.mod_ok(m) {
        Some(IrError::CrossContext)
    } else if !c.ty_ok(ty) {
        Some(IrError::CrossContext)
    } else if needs_fnty && !(c.ty_at(ty.idx as int) is FnTy) {
        Some(IrError::NotAFunction)
    } else {
        None
    }
}

/// What declaring a fresh function does to the context: one function
/// value carrying the name and signature, one parameter value for each
/// parameter of the signature, and the module's function list grown by
/// the new declaration. Everything else is untouched.
pub open spec fn added_function(
    c0: Context,
    c1: Context,
    mi: int,
    name: Seq<char>,
    ty: Type,
    v: Value,
) -> bool {
    let f = c0.vals@.len() as int;
    let ps = c0.fn_param_tys(ty.idx as int);
    &&& v.owner == c0.id
    &&& v.idx == f
    &&& c1.types@ == c0.types@
    &&& c1.blocks@ == c0.blocks@
    &&& c1.vals@.len() == f + 1 + ps.len()
    &&& (forall|j: int| 0 <= j < f ==> c1.vals@[j] == c0.vals@[j])
    &&& c1.v_name(f) == name
    &&& c1.vals@[f].ty == ty.idx
    &&& (c1.vals@[f].kind matches ValKind::Func { module, params, blocks, cc, dead } && module
        == mi && params@.len() == ps.len() && (forall|k: int|
        0 <= k < ps.len() ==> #[trigger] params@[k] == f + 1 + k) && blocks@.len() == 0 && cc
        == CallConv::C && !dead)
    &&& (forall|k: int|
        0 <= k < ps.len() ==> (#[trigger] c1.vals@[f + 1 + k].name is None
            && c1.vals@[f + 1 + k].ty == ps[k] && (c1.vals@[f + 1 + k].kind
            matches ValKind::Param { func, index, align } && func == f && index == k && align
            == 0)))
    &&& c1.modules@.len() == c0.modules@.len()
    &&& (forall|j: int| 0 <= j < c0.modules@.len() && j != mi ==> c1.modules@[j] == c0.modules@[j])
    &&& c1.mod_at(mi).name@ == c0.mod_at(mi).name@
    &&& c1.mod_at(mi).fns@ == c0.mod_at(mi).fns@.push(f as usize)
    &&& c1.mod_at(mi).globals@ == c0.mod_at(mi).globals@
    &&& c1.mod_at(mi).triple == c0.mod_at(mi).triple
    &&& c1.mod_at(mi).layout == c0.mod_at(mi).layout
}

/// What declaring a fresh global does to the context: one global value of
/// pointer type carrying the name, default linkage and no initializer,
/// and the module's global list grown by the new declaration.
pub open spec fn added_global(
    c0: Context,
    c1: Context,
    mi: int,
    name: Seq<char>,
    ty: Type,
    v: Value,
) -> bool {
    let g = c0.vals@.len() as int;
    &&& v.owner == c0.id
    &&& v.idx == g
    &&& c1.blocks@ == c0.blocks@
    &&& c0.types@.len() <= c1.types@.len()
    &&& (forall|j: int| 0 <= j < c0.types@.len() ==> c1.types@[j] == c0.types@[j])
    &&& c1.vals@.len() == g + 1
    &&& (forall|j: int| 0 <= j < g ==> c1.vals@[j] == c0.vals@[j])
    &&& c1.v_name(g) == name
    &&& c1.vals@[g].ty < c1.types@.len()
    &&& c1.ty_at(c1.vals@[g].ty as int) == (TypeData::Ptr { elem: ty.idx })
    &&& (c1.vals@[g].kind matches ValKind::Global {
        module,
        init,
        linkage,
        is_const,
        unnamed_addr,
        align,
        dead,
    } && module == mi && init is None && linkage == Linkage::External && !is_const
        && !unnamed_addr && align == 0 && !dead)
    &&& c1.modules@.len() == c0.modules@.len()
    &&& (forall|j: int| 0 <= j < c0.modules@.len() && j != mi ==> c1.modules@[j] == c0.modules@[j])
    &&& c1.mod_at(mi).name@ == c0.mod_at(mi).name@
    &&& c1.mod_at(mi).fns@ == c0.mod_at(mi).fns@
    &&& c1.mod_at(mi).globals@ == c0.mod_at(mi).globals@.push(g as usize)
    &&& c1.mod_at(mi).triple == c0.mod_at(mi).triple
    &&& c1.mod_at(mi).layout == c0.mod_at(mi).layout
}

impl Module {
    /// Declares a function with the given name and signature type in this
    /// module. Declaring a name that already exists returns the existing
    /// declaration unchanged — the given type is then ignored — so one
    /// name never stands for two declarations.
    pub fn add_function(&self, ctx: &mut Context, name: &str, ty: Type) -> (r: Result<
        Value,
        IrError,
    >)
        requires
            old(ctx).wf(),
            !old(ctx).disposed,
        ensures
            final(ctx).wf(),
            !final(ctx).disposed,
            final(ctx).id == old(ctx).id,
            match r {
                Ok(v) => {
                    &&& add_decl_err(*old(ctx), *self, name@, ty, true) is None
                    &&& final(ctx).val_ok(v)
                    &&& if old(ctx).list_has_named(
                        old(ctx).mod_at(self.idx as int).fns@,
                        name@,
                    ) {
                        &&& ctx_same(*old(ctx), *final(ctx))
                        &&& (exists|k: int|
                            0 <= k < old(ctx).mod_at(self.idx as int).fns@.len()
                                && #[trigger] old(ctx).mod_at(self.idx as int).fns@[k] == v.idx)
                        &&& final(ctx).v_name(v.idx as int) == name@
                    } else {
                        added_function(*old(ctx), *final(ctx), self.idx as int, name@, ty, v)
                    }
                },
                Err(e) => {
                    &&& ctx_same(*old(ctx), *final(ctx))
                    &&& add_decl_err(*old(ctx), *self, name@, ty, true) == Some(e)
                },
            },
    {
        if !name_ok(name) {
            return Err(IrError::InvalidName);
        }
        if self.owner != ctx.id || self.idx >= ctx.modules.len() {
            return Err(IrError::CrossContext);
        }
        if ty.owner != ctx.id || ty.idx >= ctx.types.len() {
            return Err(IrError::CrossContext);
        }
        let is_fnty = match &ctx.types[ty.idx] {
            TypeData::FnTy { .. } => true,
            _ => false,
        };
        if !is_fnty {
            return Err(IrError::NotAFunction);
        }
        let key = name.to_owned();
        proof {
            assert(ctx.mod_wf_at(self.idx as int));
        }
        let found = ctx.find_named(&ctx.modules[self.idx].fns, &key);
        match found {
            Some(vi) => {
                proof {
                    assert(ctx.mod_wf_at(self.idx as int));
                }
                return Ok(Value { owner: ctx.id, idx: vi });
            },
            None => {},
        }
        let f = ctx.vals.len();
        let fv = ctx.push_val(
            ValData {
                name: Some(key),
                ty: ty.idx,
                kind: ValKind::Func {
                    module: self.idx,
                    params: Vec::new(),
                    blocks: Vec::new(),
                    cc: CallConv::C,
                    dead: false,
                },
            },
        );
        proof {
            assert(old(ctx).ty_wf_at(ty.idx as int));
        }
        let ptys = ctx.fn_param_tys_vec(ty.idx);
        let np = ptys.len();
        let mut pidx: Vec<usize> = Vec::new();
        let mut j: usize = 0;
        while j < np
            invariant
                j <= np,
                ctx.wf(),
                !ctx.disposed,
                ctx.id == old(ctx).id,
                ctx.types@ == old(ctx).types@,
                ctx.blocks@ == old(ctx).blocks@,
                ctx.modules@ == old(ctx).modules@,
                f == old(ctx).vals@.len(),
                np == old(ctx).fn_param_tys(ty.idx as int).len(),
                ptys@ == old(ctx).fn_param_tys(ty.idx as int),
                forall|k: int| 0 <= k < np ==> #[trigger] ptys@[k] < old(ctx).types@.len(),
                ctx.vals@.len() == f + 1 + j,
                forall|k: int| 0 <= k < f ==> ctx.vals@[k] == old(ctx).vals@[k],
                ctx.vals@[f as int].name is Some,
                ctx.v_name(f as int) == name@,
                ctx.vals@[f as int].ty == ty.idx,
                (ctx.vals@[f as int].kind matches ValKind::Func {
                    module,
                    params,
                    blocks,
                    cc,
                    dead,
                } && module == self.idx && params@.len() == 0 && blocks@.len() == 0 && cc
                    == CallConv::C && !dead),
                pidx@.len() == j,
                forall|k: int| 0 <= k < j ==> #[trigger] pidx@[k] == f + 1 + k,
                forall|k: int|
                    0 <= k < j ==> (#[trigger] ctx.vals@[f + 1 + k].name is None && ctx.vals@[f + 1
                        + k].ty == ptys@[k] && (ctx.vals@[f + 1 + k].kind matches ValKind::Param {
                        func,
                        index,
                        align,
                    } && func == f && index == k && align == 0)),
            decreases np - j,
        {
            let pv = ctx.push_val(
                ValData {
                    name: None,
                    ty: ptys[j],
                    kind: ValKind::Param { func: f, index: j, align: 0 },
                },
            );
            pidx.push(pv.idx);
            j += 1;
        }
        ctx.set_func_params(f, pidx);
        proof {
            assert(ctx.v_name(f as int) == name@);
            assert forall|k: int|
                0 <= k < ctx.modules@[self.idx as int].fns@.len() implies ctx.v_name(
                #[trigger] ctx.modules@[self.idx as int].fns@[k] as int,
            ) != ctx.v_name(f as int) by {
                let vi = ctx.modules@[self.idx as int].fns@[k];
                assert(old(ctx).mod_wf_at(self.idx as int));
                assert(vi < old(ctx).vals@.len());
                assert(ctx.vals@[vi as int] == old(ctx).vals@[vi as int]);
                assert(!old(ctx).list_has_named(old(ctx).mod_at(self.idx as int).fns@, name@));
                assert(old(ctx).v_name(vi as int) != name@);
            }
        }
        ctx.mod_push_fn(self.idx, f);
        Ok(fv)
    }

    /// Declares a global variable with the given name and content type in
    /// this module. The returned value has pointer type. Declaring a name
    /// that already exists returns the existing declaration unchanged, so
    /// one name never stands for two declarations.
    pub fn add_global(&self, ctx: &mut Context, name: &str, ty: Type) -> (r: Result<
        Value,
        IrError,
    >)
        requires
            old(ctx).wf(),
            !old(ctx).disposed,
        ensures
            final(ctx).wf(),
            !final(ctx).disposed,
            final(ctx).id == old(ctx).id,
            match r {
                Ok(v) => {
                    &&& add_decl_err(*old(ctx), *self, name@, ty, false) is None
                    &&& final(ctx).val_ok(v)
                    &&& if old(ctx).list_has_named(
                        old(ctx).mod_at(self.idx as int).globals@,
                        name@,
                    ) {
                        &&& ctx_same(*old(ctx), *final(ctx))
                        &&& (exists|k: int|
                            0 <= k < old(ctx).mod_at(self.idx as int).globals@.len()
                                && #[trigger] old(ctx).mod_at(self.idx as int).globals@[k]
                                == v.idx)
                        &&& final(ctx).v_name(v.idx as int) == name@
                    } else {
                        added_global(*old(ctx), *final(ctx), self.idx as int, name@, ty, v)
                    }
                },
                Err(e) => {
                    &&& ctx_same(*old(ctx), *final(ctx))
                    &&& add_decl_err(*old(ctx), *self, name@, ty, false) == Some(e)
                },
            },
    {
        if !name_ok(name) {
            return Err(IrError::InvalidName);
        }
        if self.owner != ctx.id || self.idx >= ctx.modules.len() {
            return Err(IrError::CrossContext);
        }
        if ty.owner != ctx.id || ty.idx >= ctx.types.len() {
            return Err(IrError::CrossContext);
        }
        let key = name.to_owned();
        proof {
            assert(ctx.mod_wf_at(self.idx as int));
        }
        let found = ctx.find_named(&ctx.modules[self.idx].globals, &key);
        match found {
            Some(vi) => {
                proof {
                    assert(ctx.mod_wf_at(self.idx as int));
                }
                return Ok(Value { owner: ctx.id, idx: vi });
            },
            None => {},
        }
        let gty = ctx.intern(TypeData::Ptr { elem: ty.idx });
        let ghost mid = *ctx;
        proof {
            assert(ctx.ty_at(gty.idx as int) == (TypeData::Ptr { elem: ty.idx }));
        }
        let g = ctx.vals.len();
        let gv = ctx.push_val(
            ValData {
                name: Some(key),
                ty: gty.idx,
                kind: ValKind::Global {
                    module: self.idx,
                    init: None,
                    linkage: Linkage::External,
                    is_const: false,
                    unnamed_addr: false,
                    align: 0,
                    dead: false,
                },
            },
        );
        proof {
            assert forall|i: int| 0 <= i < old(ctx).types@.len() implies ctx.types@[i] == old(
                ctx,
            ).types@[i] by {
                assert(mid.types@[i] == old(ctx).types@[i]);
            }
            assert(ctx.v_name(g as int) == name@);
            assert forall|k: int|
                0 <= k < ctx.modules@[self.idx as int].globals@.len() implies ctx.v_name(
                #[trigger] ctx.modules@[self.idx as int].globals@[k] as int,
            ) != ctx.v_name(g as int) by {
                let vi = ctx.modules@[self.idx as int].globals@[k];
                assert(old(ctx).mod_wf_at(self.idx as int));
                assert(vi < old(ctx).vals@.len());
                assert(ctx.vals@[vi as int] == old(ctx).vals@[vi as int]);
                assert(!old(ctx).list_has_named(old(ctx).mod_at(self.idx as int).globals@, name@));
                assert(old(ctx).v_name(vi as int) != name@);
            }
        }
        ctx.mod_push_global(self.idx, g);
        Ok(gv)
    }

    /// Looks up the function declared under the given name, or reports
    /// its absence. Absence is a normal outcome, not an error.
    pub fn get_function(&self, ctx: &Context, name: &str) -> (r: Result<Option<Value>, IrError>)
        requires
            ctx.wf(),
            !ctx.disposed,
        ensures
            match r {
                Ok(Some(v)) => {
                    &&& ctx.mod_ok(*self)
                    &&& ctx.val_ok(v)
                    &&& (exists|k: int|
                        0 <= k < ctx.mod_at(self.idx as int).fns@.len() && #[trigger] ctx.mod_at(
                            self.idx as int,
                        ).fns@[k] == v.idx)
                    &&& ctx.v_name(v.idx as int) == name@
                },
                Ok(None) => {
                    &&& ctx.mod_ok(*self)
                    &&& !ctx.list_has_named(ctx.mod_at(self.idx as int).fns@, name@)
                },
                Err(e) => {
                    &&& e == IrError::CrossContext
                    &&& !ctx.mod_ok(*self)
                },
            },
    {
        if self.owner != ctx.id || self.idx >= ctx.modules.len() {
            return Err(IrError::CrossContext);
        }
        let key = name.to_owned();
        proof {
            assert(ctx.mod_wf_at(self.idx as int));
        }
        match ctx.find_named(&ctx.modules[self.idx].fns, &key) {
            Some(vi) => {
                proof {
                    assert(ctx.mod_wf_at(self.idx as int));
                }
                Ok(Some(Value { owner: ctx.id, idx: vi }))
            },
            None => Ok(None),
        }
    }

    /// Looks up the global declared under the given name, or reports its
    /// absence. Absence is a normal outcome, not an error.
    pub fn get_global(&self, ctx: &Context, name: &str) -> (r: Result<Option<Value>, IrError>)
        requires
            ctx.wf(),
            !ctx.disposed,
        ensures
            match r {
                Ok(Some(v)) => {
                    &&& ctx.mod_ok(*self)
                    &&& ctx.val_ok(v)
                    &&& (exists|k: int|
                        0 <= k < ctx.mod_at(self.idx as int).globals@.len()
                            && #[trigger] ctx.mod_at(self.idx as int).globals@[k] == v.idx)
                    &&& ctx.v_name(v.idx as int) == name@
                },
                Ok(None) => {
                    &&& ctx.mod_ok(*self)
                    &&& !ctx.list_has_named(ctx.mod_at(self.idx as int).globals@, name@)
                },
                Err(e) => {
                    &&& e == IrError::CrossContext
                    &&& !ctx.mod_ok(*self)
                },
            },
    {
        if self.owner != ctx.id || self.idx >= ctx.modules.len() {
            return Err(IrError::CrossContext);
        }
        let key = name.to_owned();
        proof {
            assert(ctx.mod_wf_at(self.idx as int));
        }
        match ctx.find_named(&ctx.modules[self.idx].globals, &key) {
            Some(vi) => {
                proof {
                    assert(ctx.mod_wf_at(self.idx as int));
                }
                Ok(Some(Value { owner: ctx.id, idx: vi }))
            },
            None => Ok(None),
        }
    }

    /// Records the target triple of this module.
    pub fn set_triple(&self, ctx: &mut Context, triple: &str) -> (r: Result<(), IrError>)
        requires
            old(ctx).wf(),
            !old(ctx).disposed,
        ensures
            final(ctx).wf(),
            !final(ctx).disposed,
            final(ctx).id == old(ctx).id,
            final(ctx).types@ == old(ctx).types@,
            final(ctx).vals@ == old(ctx).vals@,
            final(ctx).blocks@ == old(ctx).blocks@,
            final(ctx).modules@.len() == old(ctx).modules@.len(),
            (forall|j: int|
                0 <= j < old(ctx).modules@.len() && j != self.idx ==> final(ctx).modules@[j] == old(
                    ctx,
                ).modules@[j]),
            match r {
                Ok(()) => {
                    &&& valid_name(triple@)
                    &&& old(ctx).mod_ok(*self)
                    &&& (final(ctx).mod_at(self.idx as int).triple matches Some(s) && s@
                        == triple@)
                    &&& final(ctx).mod_at(self.idx as int).fns@ == old(ctx).mod_at(
                        self.idx as int,
                    ).fns@
                    &&& final(ctx).mod_at(self.idx as int).globals@ == old(ctx).mod_at(
                        self.idx as int,
                    ).globals@
                    &&& final(ctx).mod_at(self.idx as int).name@ == old(ctx).mod_at(
                        self.idx as int,
                    ).name@
                    &&& final(ctx).mod_at(self.idx as int).layout == old(ctx).mod_at(
                        self.idx as int,
                    ).layout
                },
                Err(e) => {
                    &&& ctx_same(*old(ctx), *final(ctx))
                    &&& if !valid_name(triple@) {
                        e == IrError::InvalidName
                    } else {
                        !old(ctx).mod_ok(*self) && e == IrError::CrossContext
                    }
                },
            },
    {
        if !name_ok(triple) {
            return Err(IrError::InvalidName);
        }
        if self.owner != ctx.id || self.idx >= ctx.modules.len() {
            return Err(IrError::CrossContext);
        }
        ctx.mod_set_triple(self.idx, triple.to_owned());
        Ok(())
    }

    /// Records the data layout of this module.
    pub fn set_data_layout(&self, ctx: &mut Context, data: &TargetData) -> (r: Result<
        (),
        IrError,
    >)
        requires
            old(ctx).wf(),
            !old(ctx).disposed,
        ensures
            final(ctx).wf(),
            !final(ctx).disposed,
            final(ctx).id == old(ctx).id,
            final(ctx).types@ == old(ctx).types@,
            final(ctx).vals@ == old(ctx).vals@,
            final(ctx).blocks@ == old(ctx).blocks@,
            final(ctx).modules@.len() == old(ctx).modules@.len(),
            (forall|j: int|
                0 <= j < old(ctx).modules@.len() && j != self.idx ==> final(ctx).modules@[j] == old(
                    ctx,
                ).modules@[j]),
            match r {
                Ok(()) => {
                    &&& old(ctx).mod_ok(*self)
                    &&& final(ctx).mod_at(self.idx as int).layout == Some(*data)
                    &&& final(ctx).mod_at(self.idx as int).fns@ == old(ctx).mod_at(
                        self.idx as int,
                    ).fns@
                    &&& final(ctx).mod_at(self.idx as int).globals@ == old(ctx).mod_at(
                        self.idx as int,
                    ).globals@
                    &&& final(ctx).mod_at(self.idx as int).name@ == old(ctx).mod_at(
                        self.idx as int,
                    ).name@
                    &&& final(ctx).mod_at(self.idx as int).triple == old(ctx).mod_at(
                        self.idx as int,
                    ).triple
                },
                Err(e) => {
                    &&& ctx_same(*old(ctx), *final(ctx))
                    &&& !old(ctx).mod_ok(*self)
                    &&& e == IrError::CrossContext
                },
            },
    {
        if self.owner != ctx.id || self.idx >= ctx.modules.len() {
            return Err(IrError::CrossContext);
        }
        ctx.mod_set_layout(self.idx, *data);
        Ok(())
    }

    /// Starts a traversal over the functions declared in this module, in
    /// declaration order.
    pub fn functions(&self, ctx: &Context) -> (r: Result<Functions, IrError>)
        requires
            ctx.wf(),
            !ctx.disposed,
        ensures
            match r {
                Ok(it) => ctx.mod_ok(*self) && it.m == *self && it.pos == 0,
                Err(e) => !ctx.mod_ok(*self) && e == IrError::CrossContext,
            },
    {
        if self.owner != ctx.id || self.idx >= ctx.modules.len() {
            return Err(IrError::CrossContext);
        }
        Ok(Functions { m: *self, pos: 0 })
    }

    /// Starts a traversal over the globals declared in this module, in
    /// declaration order.
    pub fn globals(&self, ctx: &Context) -> (r: Result<Globals, IrError>)
        requires
            ctx.wf(),
            !ctx.disposed,
        ensures
            match r {
                Ok(it) => ctx.mod_ok(*self) && it.m == *self && it.pos == 0,
                Err(e) => !ctx.mod_ok(*self) && e == IrError::CrossContext,
            },
    {
        if self.owner != ctx.id || self.idx >= ctx.modules.len() {
            return Err(IrError::CrossContext);
        }
        Ok(Globals { m: *self, pos: 0 })
    }
}

} // verus!
