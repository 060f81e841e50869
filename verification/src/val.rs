//! The handle for a value owned by a context.

use vstd::prelude::*;

use crate::bb::BasicBlock;
use crate::cc::CallConv;
use crate::context::{ctx_same, find_idx, name_ok, valid_name, Context, ValKind};
use crate::err::IrError;
use crate::iter::{Blocks, Params};
use crate::link::Linkage;
use crate::ty::Type;

verus! {

/// A handle for a value (constant, function, global, parameter or
/// instruction) stored in a [`crate::context::Context`] arena.
///
/// Handles are value-like: copy them freely. A handle owns nothing; the
/// entity lives in the context, and deleting the entity (a function, a
/// global, a block) leaves the handle stale.
#[derive(Clone, Copy, Debug, PartialEq, Eq, Structural)]
pub struct Value {
    /// Tag of the owning context.
    pub owner: u64,
    /// Index in the owning context's value arena.
    pub idx: usize,
}

/// When an operation on a live value fails, and with which error: the
/// handle must belong to the context and the value must not have been
/// deleted.
pub open spec fn live_err(c: Context, v: Value) -> Option<IrError> {
    if !c.val_ok(v) {
        Some(IrError::CrossContext)
    } else if !c.val_live_at(v.idx as int) {
        Some(IrError::Stale)
    } else {
        None
    }
}

/// When an operation needing a live function value fails, and with which
/// error.
pub open spec fn func_err(c: Context, v: Value) -> Option<IrError> {
    if !c.val_ok(v) {
        Some(IrError::CrossContext)
    } else if !(c.val_at(v.idx as int).kind is Func) {
        Some(IrError::NotAFunction)
    } else if !c.val_live_at(v.idx as int) {
        Some(IrError::Stale)
    } else {
        None
    }
}

/// When an operation needing a live global value fails, and with which
/// error.
pub open spec fn global_err(c: Context, v: Value) -> Option<IrError> {
    if !c.val_ok(v) {
        Some(IrError::CrossContext)
    } else if !(c.val_at(v.idx as int).kind is Global) {
        Some(IrError::NotAGlobal)
    } else if !c.val_live_at(v.idx as int) {
        Some(IrError::Stale)
    } else {
        None
    }
}

/// The step from `c0` to `c1` replaced the global fields of the value at
/// index `i` with exactly the given ones and touched nothing else: every
/// other value is unchanged, and the global's name, type, owning module
/// and deletion flag stay as they were.
pub open spec fn global_fields_set(
    c0: Context,
    c1: Context,
    i: int,
    init: Option<usize>,
    linkage: Linkage,
    is_const: bool,
    unnamed_addr: bool,
    align: u32,
) -> bool {
    &&& c1.vals@.len() == c0.vals@.len()
    &&& (forall|j: int| 0 <= j < c0.vals@.len() && j != i ==> c1.vals@[j] == c0.vals@[j])
    &&& c1.vals@[i].name == c0.vals@[i].name
    &&& c1.vals@[i].ty == c0.vals@[i].ty
    &&& (c1.vals@[i].kind matches ValKind::Global {
        module,
        init: i2,
        linkage: l2,
        is_const: c2,
        unnamed_addr: u2,
        align: a2,
        dead,
    } && module == c0.vals@[i].kind->Global_module && i2 == init && l2 == linkage && c2 == is_const
        && u2 == unnamed_addr && a2 == align && dead == c0.vals@[i].kind->Global_dead)
}

impl Value {
    /// Classifies this handle as a live function of the context, or
    /// reports why it is not. Shared head of every function operation.
    fn check_func(&self, ctx: &Context) -> (r: Option<IrError>)
        requires
            ctx.wf(),
        ensures
            r == func_err(*ctx, *self),
            r is None ==> self.idx < ctx.vals@.len(),
    {
        if self.owner != ctx.id || self.idx >= ctx.vals.len() {
            return Some(IrError::CrossContext);
        }
        match &ctx.vals[self.idx].kind {
            ValKind::Func { dead, .. } => {
                if *dead {
                    Some(IrError::Stale)
                } else {
                    None
                }
            },
            _ => Some(IrError::NotAFunction),
        }
    }

    /// Classifies this handle as a live global of the context, or reports
    /// why it is not.
    fn check_global(&self, ctx: &Context) -> (r: Option<IrError>)
        requires
            ctx.wf(),
        ensures
            r == global_err(*ctx, *self),
            r is None ==> self.idx < ctx.vals@.len(),
    {
        if self.owner != ctx.id || self.idx >= ctx.vals.len() {
            return Some(IrError::CrossContext);
        }
        match &ctx.vals[self.idx].kind {
            ValKind::Global { dead, .. } => {
                if *dead {
                    Some(IrError::Stale)
                } else {
                    None
                }
            },
            _ => Some(IrError::NotAGlobal),
        }
    }

    /// Classifies this handle as a live value of the context, or reports
    /// why it is not.
    pub(crate) fn check_live(&self, ctx: &Context) -> (r: Option<IrError>)
        requires
            ctx.wf(),
        ensures
            r == live_err(*ctx, *self),
            r is None ==> self.idx < ctx.vals@.len(),
    {
        if self.owner != ctx.id || self.idx >= ctx.vals.len() {
            return Some(IrError::CrossContext);
        }
        let live = match &ctx.vals[self.idx].kind {
            ValKind::Func { dead, .. } => !*dead,
            ValKind::Global { dead, .. } => !*dead,
            ValKind::Param { func, .. } => {
                if *func >= ctx.vals.len() {
                    false
                } else {
                    match &ctx.vals[*func].kind {
                        ValKind::Func { dead, .. } => !*dead,
                        _ => false,
                    }
                }
            },
            ValKind::Instr { block, .. } => {
                if *block >= ctx.blocks.len() {
                    false
                } else {
                    let b = &ctx.blocks[*block];
                    if b.dead || b.func >= ctx.vals.len() {
                        false
                    } else {
                        match &ctx.vals[b.func].kind {
                            ValKind::Func { dead, .. } => !*dead,
                            _ => false,
                        }
                    }
                }
            },
            _ => true,
        };
        if live {
            None
        } else {
            Some(IrError::Stale)
        }
    }

    /// Appends a basic block with the given name to this function.
    pub fn append_basic_block(&self, ctx: &mut Context, name: &str) -> (r: Result<
        BasicBlock,
        IrError,
    >)
        requires
            old(ctx).wf(),
            !old(ctx).disposed,
        ensures
            final(ctx).wf(),
            !final(ctx).disposed,
            final(ctx).id == old(ctx).id,
            final(ctx).types@ == old(ctx).types@,
            final(ctx).modules@ == old(ctx).modules@,
            match r {
                Ok(b) => {
                    &&& valid_name(name@)
                    &&& func_err(*old(ctx), *self) is None
                    &&& b == (BasicBlock {
                        owner: old(ctx).id,
                        idx: old(ctx).blocks@.len() as usize,
                    })
                    &&& final(ctx).blocks@.len() == old(ctx).blocks@.len() + 1
                    &&& (forall|j: int|
                        0 <= j < old(ctx).blocks@.len() ==> final(ctx).blocks@[j] == old(
                            ctx,
                        ).blocks@[j])
                    &&& final(ctx).blk_at(b.idx as int).name@ == name@
                    &&& final(ctx).blk_at(b.idx as int).func == self.idx
                    &&& final(ctx).blk_at(b.idx as int).instrs@ == Seq::<usize>::empty()
                    &&& final(ctx).blk_live(b)
                    &&& final(ctx).vals@.len() == old(ctx).vals@.len()
                    &&& (forall|j: int|
                        0 <= j < old(ctx).vals@.len() && j != self.idx ==> final(ctx).vals@[j]
                            == old(ctx).vals@[j])
                    &&& final(ctx).vals@[self.idx as int].name == old(ctx).vals@[self.idx as int].name
                    &&& final(ctx).vals@[self.idx as int].ty == old(ctx).vals@[self.idx as int].ty
                    &&& (final(ctx).vals@[self.idx as int].kind matches ValKind::Func {
                        module,
                        params,
                        blocks,
                        cc,
                        dead,
                    } && module == old(ctx).vals@[self.idx as int].kind->Func_module && params@
                        == old(ctx).vals@[self.idx as int].kind->Func_params@ && blocks@ == old(
                        ctx,
                    ).vals@[self.idx as int].kind->Func_blocks@.push(b.idx) && cc == old(
                        ctx,
                    ).vals@[self.idx as int].kind->Func_cc && !dead)
                },
                Err(e) => {
                    &&& ctx_same(*old(ctx), *final(ctx))
                    &&& Some(e) == (if !valid_name(name@) {
                        Some(IrError::InvalidName)
                    } else {
                        func_err(*old(ctx), *self)
                    })
                },
            },
    {
        if !name_ok(name) {
            return Err(IrError::InvalidName);
        }
        match self.check_func(ctx) {
            Some(e) => {
                return Err(e);
            },
            None => {},
        }
        let b = ctx.append_block(self.idx, name.to_owned());
        Ok(b)
    }

    /// Deletes this function: it leaves its module and every handle to
    /// it, its parameters and its blocks becomes stale. Any later
    /// operation through such a handle reports `Stale`.
    pub fn delete_function(&self, ctx: &mut Context) -> (r: Result<(), IrError>)
        requires
            old(ctx).wf(),
            !old(ctx).disposed,
        ensures
            final(ctx).wf(),
            !final(ctx).disposed,
            final(ctx).id == old(ctx).id,
            final(ctx).types@ == old(ctx).types@,
            final(ctx).blocks@ == old(ctx).blocks@,
            match r {
                Ok(()) => {
                    &&& func_err(*old(ctx), *self) is None
                    &&& final(ctx).vals@.len() == old(ctx).vals@.len()
                    &&& (forall|j: int|
                        0 <= j < old(ctx).vals@.len() && j != self.idx ==> final(ctx).vals@[j]
                            == old(ctx).vals@[j])
                    &&& !final(ctx).val_live_at(self.idx as int)
                    &&& final(ctx).modules@.len() == old(ctx).modules@.len()
                    &&& (forall|j: int|
                        0 <= j < old(ctx).modules@.len() && j != old(ctx).vals@[
                            self.idx as int
                        ].kind->Func_module ==> final(ctx).modules@[j] == old(ctx).modules@[j])
                    &&& (final(ctx).mod_at(
                        old(ctx).vals@[self.idx as int].kind->Func_module as int,
                    ).fns@ == old(ctx).mod_at(
                        old(ctx).vals@[self.idx as int].kind->Func_module as int,
                    ).fns@.remove_value(self.idx))
                    &&& (final(ctx).mod_at(
                        old(ctx).vals@[self.idx as int].kind->Func_module as int,
                    ).globals@ == old(ctx).mod_at(
                        old(ctx).vals@[self.idx as int].kind->Func_module as int,
                    ).globals@)
                },
                Err(e) => {
                    &&& ctx_same(*old(ctx), *final(ctx))
                    &&& func_err(*old(ctx), *self) == Some(e)
                },
            },
    {
        match self.check_func(ctx) {
            Some(e) => {
                return Err(e);
            },
            None => {},
        }
        let mi = match &ctx.vals[self.idx].kind {
            ValKind::Func { module, .. } => *module,
            _ => 0,
        };
        proof {
            assert(old(ctx).vd_wf(old(ctx).vals@[self.idx as int], self.idx as int));
        }
        match find_idx(&ctx.modules[mi].fns, self.idx) {
            Some(pos) => {
                proof {
                    let l = old(ctx).mod_at(mi as int).fns@;
                    assert(old(ctx).mod_wf_at(mi as int));
                    assert forall|k: int| 0 <= k < pos implies #[trigger] l[k] != self.idx by {}
                    lemma_index_of_first(l, self.idx, pos as int);
                }
                ctx.kill_func(self.idx, pos);
                Ok(())
            },
            None => {
                proof {
                    assert forall|j: int, k: int|
                        0 <= j < ctx.modules@.len() && 0 <= k < ctx.modules@[j].fns@.len()
                            implies #[trigger] ctx.modules@[j].fns@[k] != self.idx by {
                        assert(ctx.mod_wf_at(j));
                        if j != mi {
                            assert(ctx.vals@[ctx.modules@[j].fns@[k] as int].kind->Func_module
                                == j);
                        }
                    }
                    assert forall|j: int, k: int|
                        0 <= j < ctx.modules@.len() && 0 <= k < ctx.modules@[j].globals@.len()
                            implies #[trigger] ctx.modules@[j].globals@[k] != self.idx by {
                        assert(ctx.mod_wf_at(j));
                        assert(ctx.vals@[ctx.modules@[j].globals@[k] as int].kind is Global);
                    }
                    let l = old(ctx).mod_at(mi as int).fns@;
                    l.index_of_first_ensures(self.idx);
                    match l.index_of_first(self.idx) {
                        Some(p) => {
                            assert(l[p] == self.idx);
                            assert(false);
                        },
                        None => {},
                    }
                }
                ctx.kill_unlisted(self.idx);
                Ok(())
            },
        }
    }

    /// Deletes this global: it leaves its module and every handle to it
    /// becomes stale.
    pub fn delete_global(&self, ctx: &mut Context) -> (r: Result<(), IrError>)
        requires
            old(ctx).wf(),
            !old(ctx).disposed,
        ensures
            final(ctx).wf(),
            !final(ctx).disposed,
            final(ctx).id == old(ctx).id,
            final(ctx).types@ == old(ctx).types@,
            final(ctx).blocks@ == old(ctx).blocks@,
            match r {
                Ok(()) => {
                    &&& global_err(*old(ctx), *self) is None
                    &&& final(ctx).vals@.len() == old(ctx).vals@.len()
                    &&& (forall|j: int|
                        0 <= j < old(ctx).vals@.len() && j != self.idx ==> final(ctx).vals@[j]
                            == old(ctx).vals@[j])
                    &&& !final(ctx).val_live_at(self.idx as int)
                    &&& final(ctx).modules@.len() == old(ctx).modules@.len()
                    &&& (forall|j: int|
                        0 <= j < old(ctx).modules@.len() && j != old(ctx).vals@[
                            self.idx as int
                        ].kind->Global_module ==> final(ctx).modules@[j] == old(ctx).modules@[j])
                    &&& (final(ctx).mod_at(
                        old(ctx).vals@[self.idx as int].kind->Global_module as int,
                    ).globals@ == old(ctx).mod_at(
                        old(ctx).vals@[self.idx as int].kind->Global_module as int,
                    ).globals@.remove_value(self.idx))
                },
                Err(e) => {
                    &&& ctx_same(*old(ctx), *final(ctx))
                    &&& global_err(*old(ctx), *self) == Some(e)
                },
            },
    {
        match self.check_global(ctx) {
            Some(e) => {
                return Err(e);
            },
            None => {},
        }
        let mi = match &ctx.vals[self.idx].kind {
            ValKind::Global { module, .. } => *module,
            _ => 0,
        };
        proof {
            assert(old(ctx).vd_wf(old(ctx).vals@[self.idx as int], self.idx as int));
        }
        match find_idx(&ctx.modules[mi].globals, self.idx) {
            Some(pos) => {
                proof {
                    let l = old(ctx).mod_at(mi as int).globals@;
                    assert(old(ctx).mod_wf_at(mi as int));
                    lemma_index_of_first(l, self.idx, pos as int);
                }
                ctx.kill_global(self.idx, pos);
                Ok(())
            },
            None => {
                proof {
                    assert forall|j: int, k: int|
                        0 <= j < ctx.modules@.len() && 0 <= k < ctx.modules@[j].globals@.len()
                            implies #[trigger] ctx.modules@[j].globals@[k] != self.idx by {
                        assert(ctx.mod_wf_at(j));
                        if j != mi {
                            assert(ctx.vals@[ctx.modules@[j].globals@[k] as int].kind->Global_module
                                == j);
                        }
                    }
                    assert forall|j: int, k: int|
                        0 <= j < ctx.modules@.len() && 0 <= k < ctx.modules@[j].fns@.len()
                            implies #[trigger] ctx.modules@[j].fns@[k] != self.idx by {
                        assert(ctx.mod_wf_at(j));
                        assert(ctx.vals@[ctx.modules@[j].fns@[k] as int].kind is Func);
                    }
                    let l = old(ctx).mod_at(mi as int).globals@;
                    l.index_of_first_ensures(self.idx);
                    match l.index_of_first(self.idx) {
                        Some(p) => {
                            assert(l[p] == self.idx);
                            assert(false);
                        },
                        None => {},
                    }
                }
                ctx.kill_unlisted(self.idx);
                Ok(())
            },
        }
    }

    /// Sets the calling convention of this function and hands the handle
    /// back for chaining.
    pub fn set_call_conv(&self, ctx: &mut Context, cc: CallConv) -> (r: Result<Value, IrError>)
        requires
            old(ctx).wf(),
            !old(ctx).disposed,
        ensures
            final(ctx).wf(),
            !final(ctx).disposed,
            final(ctx).id == old(ctx).id,
            final(ctx).types@ == old(ctx).types@,
            final(ctx).blocks@ == old(ctx).blocks@,
            final(ctx).modules@ == old(ctx).modules@,
            match r {
                Ok(v) => {
                    &&& func_err(*old(ctx), *self) is None
                    &&& v == *self
                    &&& final(ctx).vals@.len() == old(ctx).vals@.len()
                    &&& (forall|j: int|
                        0 <= j < old(ctx).vals@.len() && j != self.idx ==> final(ctx).vals@[j]
                            == old(ctx).vals@[j])
                    &&& final(ctx).vals@[self.idx as int].kind->Func_cc == cc
                    &&& final(ctx).vals@[self.idx as int].name == old(ctx).vals@[self.idx as int].name
                    &&& final(ctx).vals@[self.idx as int].ty == old(ctx).vals@[self.idx as int].ty
                    &&& final(ctx).vals@[self.idx as int].kind->Func_params@ == old(ctx).vals@[
                        self.idx as int
                    ].kind->Func_params@
                    &&& final(ctx).vals@[self.idx as int].kind->Func_blocks@ == old(ctx).vals@[
                        self.idx as int
                    ].kind->Func_blocks@
                    &&& final(ctx).vals@[self.idx as int].kind->Func_module == old(ctx).vals@[
                        self.idx as int
                    ].kind->Func_module
                    &&& final(ctx).val_live_at(self.idx as int)
                },
                Err(e) => {
                    &&& ctx_same(*old(ctx), *final(ctx))
                    &&& func_err(*old(ctx), *self) == Some(e)
                },
            },
    {
        match self.check_func(ctx) {
            Some(e) => {
                return Err(e);
            },
            None => {},
        }
        ctx.set_func_cc(self.idx, cc);
        Ok(*self)
    }

    /// Sets the linkage of this global and hands the handle back.
    pub fn set_linkage(&self, ctx: &mut Context, link: Linkage) -> (r: Result<Value, IrError>)
        requires
            old(ctx).wf(),
            !old(ctx).disposed,
        ensures
            final(ctx).wf(),
            !final(ctx).disposed,
            final(ctx).id == old(ctx).id,
            final(ctx).types@ == old(ctx).types@,
            final(ctx).blocks@ == old(ctx).blocks@,
            final(ctx).modules@ == old(ctx).modules@,
            match r {
                Ok(v) => {
                    &&& global_err(*old(ctx), *self) is None
                    &&& v == *self
                    &&& global_fields_set(
                        *old(ctx),
                        *final(ctx),
                        self.idx as int,
                        old(ctx).vals@[self.idx as int].kind->Global_init,
                        link,
                        old(ctx).vals@[self.idx as int].kind->Global_is_const,
                        old(ctx).vals@[self.idx as int].kind->Global_unnamed_addr,
                        old(ctx).vals@[self.idx as int].kind->Global_align,
                    )
                    &&& final(ctx).val_live_at(self.idx as int)
                },
                Err(e) => {
                    &&& ctx_same(*old(ctx), *final(ctx))
                    &&& global_err(*old(ctx), *self) == Some(e)
                },
            },
    {
        match self.check_global(ctx) {
            Some(e) => {
                return Err(e);
            },
            None => {},
        }
        let (init, is_const, unnamed_addr, align) = match &ctx.vals[self.idx].kind {
            ValKind::Global { init, is_const, unnamed_addr, align, .. } => (
                *init,
                *is_const,
                *unnamed_addr,
                *align,
            ),
            _ => (None, false, false, 0),
        };
        proof {
            assert(old(ctx).vd_wf(old(ctx).vals@[self.idx as int], self.idx as int));
        }
        ctx.set_global_fields(self.idx, init, link, is_const, unnamed_addr, align);
        Ok(*self)
    }

    /// Marks this call instruction as a tail call (or not) and hands the
    /// handle back.
    pub fn set_tail_call(&self, ctx: &mut Context, tail: bool) -> (r: Result<Value, IrError>)
        requires
            old(ctx).wf(),
            !old(ctx).disposed,
        ensures
            final(ctx).wf(),
            !final(ctx).disposed,
            final(ctx).id == old(ctx).id,
            final(ctx).types@ == old(ctx).types@,
            final(ctx).blocks@ == old(ctx).blocks@,
            final(ctx).modules@ == old(ctx).modules@,
            match r {
                Ok(v) => {
                    &&& old(ctx).val_ok(*self)
                    &&& old(ctx).val_at(self.idx as int).kind is Instr
                    &&& old(ctx).val_live_at(self.idx as int)
                    &&& v == *self
                    &&& final(ctx).vals@.len() == old(ctx).vals@.len()
                    &&& (forall|j: int|
                        0 <= j < old(ctx).vals@.len() && j != self.idx ==> final(ctx).vals@[j]
                            == old(ctx).vals@[j])
                    &&& final(ctx).vals@[self.idx as int].name == old(ctx).vals@[self.idx as int].name
                    &&& final(ctx).vals@[self.idx as int].ty == old(ctx).vals@[self.idx as int].ty
                    &&& (final(ctx).vals@[self.idx as int].kind matches ValKind::Instr {
                        block,
                        op,
                        args,
                        tail_call,
                        align,
                    } && block == old(ctx).vals@[self.idx as int].kind->Instr_block && op == old(
                        ctx,
                    ).vals@[self.idx as int].kind->Instr_op && args@ == old(ctx).vals@[
                        self.idx as int
                    ].kind->Instr_args@ && tail_call == tail && align == old(ctx).vals@[
                        self.idx as int
                    ].kind->Instr_align)
                },
                Err(e) => {
                    &&& ctx_same(*old(ctx), *final(ctx))
                    &&& Some(e) == (if !old(ctx).val_ok(*self) {
                        Some(IrError::CrossContext)
                    } else if !(old(ctx).val_at(self.idx as int).kind is Instr) {
                        Some(IrError::NotAnInstruction)
                    } else {
                        Some(IrError::Stale)
                    })
                },
            },
    {
        if self.owner != ctx.id || self.idx >= ctx.vals.len() {
            return Err(IrError::CrossContext);
        }
        let align = match &ctx.vals[self.idx].kind {
            ValKind::Instr { align, .. } => Some(*align),
            _ => None,
        };
        let align = match align {
            Some(a) => a,
            None => {
                return Err(IrError::NotAnInstruction);
            },
        };
        match self.check_live(ctx) {
            Some(_) => {
                return Err(IrError::Stale);
            },
            None => {},
        }
        ctx.set_instr_flags(self.idx, tail, align);
        Ok(*self)
    }

    /// Marks this global as constant (or not) and hands the handle back.
    pub fn set_global_const(&self, ctx: &mut Context, constant: bool) -> (r: Result<
        Value,
        IrError,
    >)
        requires
            old(ctx).wf(),
            !old(ctx).disposed,
        ensures
            final(ctx).wf(),
            !final(ctx).disposed,
            final(ctx).id == old(ctx).id,
            final(ctx).types@ == old(ctx).types@,
            final(ctx).blocks@ == old(ctx).blocks@,
            final(ctx).modules@ == old(ctx).modules@,
            match r {
                Ok(v) => {
                    &&& global_err(*old(ctx), *self) is None
                    &&& v == *self
                    &&& global_fields_set(
                        *old(ctx),
                        *final(ctx),
                        self.idx as int,
                        old(ctx).vals@[self.idx as int].kind->Global_init,
                        old(ctx).vals@[self.idx as int].kind->Global_linkage,
                        constant,
                        old(ctx).vals@[self.idx as int].kind->Global_unnamed_addr,
                        old(ctx).vals@[self.idx as int].kind->Global_align,
                    )
                    &&& final(ctx).val_live_at(self.idx as int)
                },
                Err(e) => {
                    &&& ctx_same(*old(ctx), *final(ctx))
                    &&& global_err(*old(ctx), *self) == Some(e)
                },
            },
    {
        match self.check_global(ctx) {
            Some(e) => {
                return Err(e);
            },
            None => {},
        }
        let (init, linkage, unnamed_addr, align) = match &ctx.vals[self.idx].kind {
            ValKind::Global { init, linkage, unnamed_addr, align, .. } => (
                *init,
                *linkage,
                *unnamed_addr,
                *align,
            ),
            _ => (None, Linkage::External, false, 0),
        };
        proof {
            assert(old(ctx).vd_wf(old(ctx).vals@[self.idx as int], self.idx as int));
        }
        ctx.set_global_fields(self.idx, init, linkage, constant, unnamed_addr, align);
        Ok(*self)
    }

    /// Marks the address of this global as insignificant (or not) and
    /// hands the handle back.
    pub fn set_unnamed_addr(&self, ctx: &mut Context, unnamed_addr: bool) -> (r: Result<
        Value,
        IrError,
    >)
        requires
            old(ctx).wf(),
            !old(ctx).disposed,
        ensures
            final(ctx).wf(),
            !final(ctx).disposed,
            final(ctx).id == old(ctx).id,
            final(ctx).types@ == old(ctx).types@,
            final(ctx).blocks@ == old(ctx).blocks@,
            final(ctx).modules@ == old(ctx).modules@,
            match r {
                Ok(v) => {
                    &&& global_err(*old(ctx), *self) is None
                    &&& v == *self
                    &&& global_fields_set(
                        *old(ctx),
                        *final(ctx),
                        self.idx as int,
                        old(ctx).vals@[self.idx as int].kind->Global_init,
                        old(ctx).vals@[self.idx as int].kind->Global_linkage,
                        old(ctx).vals@[self.idx as int].kind->Global_is_const,
                        unnamed_addr,
                        old(ctx).vals@[self.idx as int].kind->Global_align,
                    )
                    &&& final(ctx).val_live_at(self.idx as int)
                },
                Err(e) => {
                    &&& ctx_same(*old(ctx), *final(ctx))
                    &&& global_err(*old(ctx), *self) == Some(e)
                },
            },
    {
        match self.check_global(ctx) {
            Some(e) => {
                return Err(e);
            },
            None => {},
        }
        let (init, linkage, is_const, align) = match &ctx.vals[self.idx].kind {
            ValKind::Global { init, linkage, is_const, align, .. } => (
                *init,
                *linkage,
                *is_const,
                *align,
            ),
            _ => (None, Linkage::External, false, 0),
        };
        proof {
            assert(old(ctx).vd_wf(old(ctx).vals@[self.idx as int], self.idx as int));
        }
        ctx.set_global_fields(self.idx, init, linkage, is_const, unnamed_addr, align);
        Ok(*self)
    }

    /// Sets the initializer of this global and hands the handle back.
    pub fn set_global_initializer(&self, ctx: &mut Context, init: Value) -> (r: Result<
        Value,
        IrError,
    >)
        requires
            old(ctx).wf(),
            !old(ctx).disposed,
        ensures
            final(ctx).wf(),
            !final(ctx).disposed,
            final(ctx).id == old(ctx).id,
            final(ctx).types@ == old(ctx).types@,
            final(ctx).blocks@ == old(ctx).blocks@,
            final(ctx).modules@ == old(ctx).modules@,
            match r {
                Ok(v) => {
                    &&& global_err(*old(ctx), *self) is None
                    &&& old(ctx).val_ok(init)
                    &&& v == *self
                    &&& global_fields_set(
                        *old(ctx),
                        *final(ctx),
                        self.idx as int,
                        Some(init.idx),
                        old(ctx).vals@[self.idx as int].kind->Global_linkage,
                        old(ctx).vals@[self.idx as int].kind->Global_is_const,
                        old(ctx).vals@[self.idx as int].kind->Global_unnamed_addr,
                        old(ctx).vals@[self.idx as int].kind->Global_align,
                    )
                    &&& final(ctx).val_live_at(self.idx as int)
                },
                Err(e) => {
                    &&& ctx_same(*old(ctx), *final(ctx))
                    &&& Some(e) == (if global_err(*old(ctx), *self) is Some {
                        global_err(*old(ctx), *self)
                    } else {
                        Some(IrError::CrossContext)
                    })
                    &&& (global_err(*old(ctx), *self) is None ==> !old(ctx).val_ok(init))
                },
            },
    {
        match self.check_global(ctx) {
            Some(e) => {
                return Err(e);
            },
            None => {},
        }
        if init.owner != ctx.id || init.idx >= ctx.vals.len() {
            return Err(IrError::CrossContext);
        }
        let (linkage, is_const, unnamed_addr, align) = match &ctx.vals[self.idx].kind {
            ValKind::Global { linkage, is_const, unnamed_addr, align, .. } => (
                *linkage,
                *is_const,
                *unnamed_addr,
                *align,
            ),
            _ => (Linkage::External, false, false, 0),
        };
        proof {
            assert(old(ctx).vd_wf(old(ctx).vals@[self.idx as int], self.idx as int));
        }
        ctx.set_global_fields(self.idx, Some(init.idx), linkage, is_const, unnamed_addr, align);
        Ok(*self)
    }

    /// Sets the alignment of this global, instruction or parameter and
    /// hands the handle back.
    pub fn set_alignment(&self, ctx: &mut Context, bytes: u32) -> (r: Result<Value, IrError>)
        requires
            old(ctx).wf(),
            !old(ctx).disposed,
        ensures
            final(ctx).wf(),
            !final(ctx).disposed,
            final(ctx).id == old(ctx).id,
            final(ctx).types@ == old(ctx).types@,
            final(ctx).blocks@ == old(ctx).blocks@,
            final(ctx).modules@ == old(ctx).modules@,
            match r {
                Ok(v) => {
                    &&& live_err(*old(ctx), *self) is None
                    &&& v == *self
                    &&& final(ctx).vals@.len() == old(ctx).vals@.len()
                    &&& (forall|j: int|
                        0 <= j < old(ctx).vals@.len() && j != self.idx ==> final(ctx).vals@[j]
                            == old(ctx).vals@[j])
                    &&& final(ctx).vals@[self.idx as int].name == old(ctx).vals@[self.idx as int].name
                    &&& final(ctx).vals@[self.idx as int].ty == old(ctx).vals@[self.idx as int].ty
                    &&& match old(ctx).vals@[self.idx as int].kind {
                        ValKind::Global { .. } => global_fields_set(
                            *old(ctx),
                            *final(ctx),
                            self.idx as int,
                            old(ctx).vals@[self.idx as int].kind->Global_init,
                            old(ctx).vals@[self.idx as int].kind->Global_linkage,
                            old(ctx).vals@[self.idx as int].kind->Global_is_const,
                            old(ctx).vals@[self.idx as int].kind->Global_unnamed_addr,
                            bytes,
                        ),
                        ValKind::Instr { .. } => final(ctx).vals@[self.idx as int].kind
                            matches ValKind::Instr { block, op, args, tail_call, align } && block
                            == old(ctx).vals@[self.idx as int].kind->Instr_block && op == old(
                            ctx,
                        ).vals@[self.idx as int].kind->Instr_op && args@ == old(ctx).vals@[
                            self.idx as int
                        ].kind->Instr_args@ && tail_call == old(ctx).vals@[
                            self.idx as int
                        ].kind->Instr_tail_call && align == bytes,
                        ValKind::Param { .. } => final(ctx).vals@[self.idx as int].kind
                            matches ValKind::Param { func, index, align } && func == old(
                            ctx,
                        ).vals@[self.idx as int].kind->Param_func && index == old(ctx).vals@[
                            self.idx as int
                        ].kind->Param_index && align == bytes,
                        _ => false,
                    }
                },
                Err(e) => {
                    &&& ctx_same(*old(ctx), *final(ctx))
                    &&& Some(e) == (if live_err(*old(ctx), *self) is Some {
                        live_err(*old(ctx), *self)
                    } else {
                        Some(IrError::NotAnInstruction)
                    })
                },
            },
    {
        match self.check_live(ctx) {
            Some(e) => {
                return Err(e);
            },
            None => {},
        }
        proof {
            assert(old(ctx).vd_wf(old(ctx).vals@[self.idx as int], self.idx as int));
        }
        match &ctx.vals[self.idx].kind {
            ValKind::Global { init, linkage, is_const, unnamed_addr, .. } => {
                let (i2, l2, c2, u2) = (*init, *linkage, *is_const, *unnamed_addr);
                ctx.set_global_fields(self.idx, i2, l2, c2, u2, bytes);
                Ok(*self)
            },
            ValKind::Instr { tail_call, .. } => {
                let t2 = *tail_call;
                ctx.set_instr_flags(self.idx, t2, bytes);
                Ok(*self)
            },
            ValKind::Param { .. } => {
                ctx.set_param_align(self.idx, bytes);
                Ok(*self)
            },
            _ => Err(IrError::NotAnInstruction),
        }
    }

    /// Sets the alignment of this function parameter and hands the handle
    /// back.
    pub fn set_param_alignment(&self, ctx: &mut Context, bytes: u32) -> (r: Result<Value, IrError>)
        requires
            old(ctx).wf(),
            !old(ctx).disposed,
        ensures
            final(ctx).wf(),
            !final(ctx).disposed,
            final(ctx).id == old(ctx).id,
            final(ctx).types@ == old(ctx).types@,
            final(ctx).blocks@ == old(ctx).blocks@,
            final(ctx).modules@ == old(ctx).modules@,
            match r {
                Ok(v) => {
                    &&& live_err(*old(ctx), *self) is None
                    &&& old(ctx).val_at(self.idx as int).kind is Param
                    &&& v == *self
                    &&& final(ctx).vals@.len() == old(ctx).vals@.len()
                    &&& (forall|j: int|
                        0 <= j < old(ctx).vals@.len() && j != self.idx ==> final(ctx).vals@[j]
                            == old(ctx).vals@[j])
                    &&& final(ctx).vals@[self.idx as int].kind->Param_align == bytes
                },
                Err(e) => {
                    &&& ctx_same(*old(ctx), *final(ctx))
                    &&& Some(e) == (if live_err(*old(ctx), *self) is Some {
                        live_err(*old(ctx), *self)
                    } else {
                        Some(IrError::NotAParameter)
                    })
                },
            },
    {
        match self.check_live(ctx) {
            Some(e) => {
                return Err(e);
            },
            None => {},
        }
        match &ctx.vals[self.idx].kind {
            ValKind::Param { .. } => {
                ctx.set_param_align(self.idx, bytes);
                Ok(*self)
            },
            _ => Err(IrError::NotAParameter),
        }
    }

    /// The parameter of this function at the given position.
    pub fn param(&self, ctx: &Context, param: u32) -> (r: Result<Value, IrError>)
        requires
            ctx.wf(),
            !ctx.disposed,
        ensures
            match r {
                Ok(v) => {
                    &&& func_err(*ctx, *self) is None
                    &&& param < ctx.val_at(self.idx as int).kind->Func_params@.len()
                    &&& ctx.val_ok(v)
                    &&& v.idx == ctx.val_at(self.idx as int).kind->Func_params@[param as int]
                    &&& (ctx.val_at(v.idx as int).kind matches ValKind::Param { func, index, .. }
                        && func == self.idx && index == param)
                },
                Err(e) => {
                    &&& Some(e) == (if func_err(*ctx, *self) is Some {
                        func_err(*ctx, *self)
                    } else {
                        Some(IrError::BadIndex)
                    })
                    &&& (func_err(*ctx, *self) is None ==> param >= ctx.val_at(
                        self.idx as int,
                    ).kind->Func_params@.len())
                },
            },
    {
        match self.check_func(ctx) {
            Some(e) => {
                return Err(e);
            },
            None => {},
        }
        proof {
            assert(ctx.vd_wf(ctx.vals@[self.idx as int], self.idx as int));
        }
        match &ctx.vals[self.idx].kind {
            ValKind::Func { params, .. } => {
                let pi = param as usize;
                if pi < params.len() {
                    Ok(Value { owner: ctx.id, idx: params[pi] })
                } else {
                    Err(IrError::BadIndex)
                }
            },
            _ => Err(IrError::BadIndex),
        }
    }

    /// Starts a traversal over the parameters of this function, in
    /// position order.
    pub fn params(&self, ctx: &Context) -> (r: Result<Params, IrError>)
        requires
            ctx.wf(),
            !ctx.disposed,
        ensures
            match r {
                Ok(it) => func_err(*ctx, *self) is None && it.f == *self && it.pos == 0,
                Err(e) => func_err(*ctx, *self) == Some(e),
            },
    {
        match self.check_func(ctx) {
            Some(e) => {
                return Err(e);
            },
            None => {},
        }
        Ok(Params { f: *self, pos: 0 })
    }

    /// Starts a traversal over the basic blocks of this function, in
    /// append order.
    pub fn blocks(&self, ctx: &Context) -> (r: Result<Blocks, IrError>)
        requires
            ctx.wf(),
            !ctx.disposed,
        ensures
            match r {
                Ok(it) => func_err(*ctx, *self) is None && it.f == *self && it.pos == 0,
                Err(e) => func_err(*ctx, *self) == Some(e),
            },
    {
        match self.check_func(ctx) {
            Some(e) => {
                return Err(e);
            },
            None => {},
        }
        Ok(Blocks { f: *self, pos: 0 })
    }

    /// Names this value and hands the handle back. Functions and globals
    /// keep the name they were declared under; renaming them is refused.
    pub fn name(&self, ctx: &mut Context, name: &str) -> (r: Result<Value, IrError>)
        requires
            old(ctx).wf(),
            !old(ctx).disposed,
        ensures
            final(ctx).wf(),
            !final(ctx).disposed,
            final(ctx).id == old(ctx).id,
            final(ctx).types@ == old(ctx).types@,
            final(ctx).blocks@ == old(ctx).blocks@,
            final(ctx).modules@ == old(ctx).modules@,
            match r {
                Ok(v) => {
                    &&& valid_name(name@)
                    &&& live_err(*old(ctx), *self) is None
                    &&& !(old(ctx).val_at(self.idx as int).kind is Func)
                    &&& !(old(ctx).val_at(self.idx as int).kind is Global)
                    &&& v == *self
                    &&& final(ctx).vals@.len() == old(ctx).vals@.len()
                    &&& (forall|j: int|
                        0 <= j < old(ctx).vals@.len() && j != self.idx ==> final(ctx).vals@[j]
                            == old(ctx).vals@[j])
                    &&& final(ctx).v_name(self.idx as int) == name@
                    &&& final(ctx).vals@[self.idx as int].ty == old(ctx).vals@[self.idx as int].ty
                    &&& final(ctx).vals@[self.idx as int].kind == old(ctx).vals@[self.idx as int].kind
                },
                Err(e) => {
                    &&& ctx_same(*old(ctx), *final(ctx))
                    &&& Some(e) == (if !valid_name(name@) {
                        Some(IrError::InvalidName)
                    } else if live_err(*old(ctx), *self) is Some {
                        live_err(*old(ctx), *self)
                    } else {
                        Some(IrError::FixedName)
                    })
                    &&& (valid_name(name@) && live_err(*old(ctx), *self) is None ==> (old(
                        ctx,
                    ).val_at(self.idx as int).kind is Func || old(ctx).val_at(
                        self.idx as int,
                    ).kind is Global))
                },
            },
    {
        if !name_ok(name) {
            return Err(IrError::InvalidName);
        }
        match self.check_live(ctx) {
            Some(e) => {
                return Err(e);
            },
            None => {},
        }
        let renamable = match &ctx.vals[self.idx].kind {
            ValKind::Func { .. } => false,
            ValKind::Global { .. } => false,
            _ => true,
        };
        if !renamable {
            return Err(IrError::FixedName);
        }
        ctx.set_val_name(self.idx, name.to_owned());
        Ok(*self)
    }

    /// The name of this value: `None` when it is unnamed or its name is
    /// empty.
    pub fn get_name(&self, ctx: &Context) -> (r: Result<Option<String>, IrError>)
        requires
            ctx.wf(),
            !ctx.disposed,
        ensures
            match r {
                Ok(o) => {
                    &&& live_err(*ctx, *self) is None
                    &&& match o {
                        Some(s) => s@ == ctx.v_name(self.idx as int) && s@.len() > 0,
                        None => ctx.v_name(self.idx as int).len() == 0,
                    }
                },
                Err(e) => live_err(*ctx, *self) == Some(e),
            },
    {
        match self.check_live(ctx) {
            Some(e) => {
                return Err(e);
            },
            None => {},
        }
        match &ctx.vals[self.idx].name {
            Some(s) => {
                if s.as_str().unicode_len() == 0 {
                    Ok(None)
                } else {
                    Ok(Some(s.clone()))
                }
            },
            None => Ok(None),
        }
    }

    /// The type of this value.
    pub fn ty(&self, ctx: &Context) -> (r: Result<Type, IrError>)
        requires
            ctx.wf(),
            !ctx.disposed,
        ensures
            match r {
                Ok(t) => {
                    &&& live_err(*ctx, *self) is None
                    &&& ctx.ty_ok(t)
                    &&& t.idx == ctx.val_at(self.idx as int).ty
                },
                Err(e) => live_err(*ctx, *self) == Some(e),
            },
    {
        match self.check_live(ctx) {
            Some(e) => {
                return Err(e);
            },
            None => {},
        }
        proof {
            assert(ctx.vd_wf(ctx.vals@[self.idx as int], self.idx as int));
        }
        Ok(Type { owner: ctx.id, idx: ctx.vals[self.idx].ty })
    }
}

/// A position holding the sought element, before which it does not occur,
/// is what `index_of_first` returns.
pub(crate) proof fn lemma_index_of_first(l: Seq<usize>, x: usize, pos: int)
    requires
        0 <= pos < l.len(),
        l[pos] == x,
        forall|k: int| 0 <= k < pos ==> l[k] != x,
    ensures
        l.index_of_first(x) == Some(pos),
        l.remove_value(x) == l.remove(pos),
{
    l.index_of_first_ensures(x);
    match l.index_of_first(x) {
        Some(p) => {
            assert(l[p] == x);
            if p < pos {
                assert(false);
            }
            if p > pos {
                assert(false);
            }
        },
        None => {
            assert(false);
        },
    }
}

} // verus!
