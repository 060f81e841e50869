//! Forward-only traversal of a module's declarations and a function's
//! parameters and blocks.
//!
//! Each traversal is a cursor created by the owning entity
//! (`Module::functions`, `Module::globals`, `Value::params`,
//! `Value::blocks`); `next` hands out the elements in declaration order and
//! ends with `None`. A cursor reads the context it came from; structural
//! mutation of the traversed list during a traversal leaves the remaining
//! elements unspecified, so finish a traversal before mutating.

use vstd::prelude::*;

use crate::bb::BasicBlock;
use crate::context::{Context, ValKind};
use crate::module::Module;
use crate::val::{func_err, Value};

verus! {

/// A cursor over the functions declared in a module.
#[derive(Clone, Copy, Debug)]
pub struct Functions {
    /// The module being traversed.
    pub m: Module,
    /// How many elements were already handed out.
    pub pos: usize,
}

/// A cursor over the globals declared in a module.
#[derive(Clone, Copy, Debug)]
pub struct Globals {
    /// The module being traversed.
    pub m: Module,
    /// How many elements were already handed out.
    pub pos: usize,
}

/// A cursor over the parameters of a function.
#[derive(Clone, Copy, Debug)]
pub struct Params {
    /// The function value whose parameters are traversed.
    pub f: Value,
    /// How many elements were already handed out.
    pub pos: usize,
}

/// A cursor over the basic blocks of a function.
#[derive(Clone, Copy, Debug)]
pub struct Blocks {
    /// The function value whose blocks are traversed.
    pub f: Value,
    /// How many elements were already handed out.
    pub pos: usize,
}

impl Functions {
    /// Hands out the next declared function, or `None` when the traversal
    /// is over or the module handle no longer refers into the context.
    pub fn next(&mut self, ctx: &Context) -> (r: Option<Value>)
        requires
            ctx.wf(),
            !ctx.disposed,
        ensures
            final(self).m == old(self).m,
            match r {
                Some(v) => {
                    &&& ctx.mod_ok(old(self).m)
                    &&& old(self).pos < ctx.mod_at(old(self).m.idx as int).fns@.len()
                    &&& v == (Value {
                        owner: ctx.id,
                        idx: ctx.mod_at(old(self).m.idx as int).fns@[old(self).pos as int],
                    })
                    &&& final(self).pos == old(self).pos + 1
                },
                None => {
                    &&& final(self).pos == old(self).pos
                    &&& (ctx.mod_ok(old(self).m) ==> old(self).pos >= ctx.mod_at(
                        old(self).m.idx as int,
                    ).fns@.len())
                },
            },
    {
        if self.m.owner != ctx.id || self.m.idx >= ctx.modules.len() {
            return None;
        }
        let fns = &ctx.modules[self.m.idx].fns;
        if self.pos < fns.len() {
            let v = Value { owner: ctx.id, idx: fns[self.pos] };
            self.pos = self.pos + 1;
            Some(v)
        } else {
            None
        }
    }

    /// Runs the traversal to its end and collects the remaining functions
    /// in declaration order.
    pub fn collect(&mut self, ctx: &Context) -> (r: Vec<Value>)
        requires
            ctx.wf(),
            !ctx.disposed,
            ctx.mod_ok(old(self).m),
            old(self).pos <= ctx.mod_at(old(self).m.idx as int).fns@.len(),
        ensures
            final(self).m == old(self).m,
            final(self).pos == ctx.mod_at(old(self).m.idx as int).fns@.len(),
            r@.len() == ctx.mod_at(old(self).m.idx as int).fns@.len() - old(self).pos,
            forall|k: int|
                0 <= k < r@.len() ==> #[trigger] r@[k] == (Value {
                    owner: ctx.id,
                    idx: ctx.mod_at(old(self).m.idx as int).fns@[old(self).pos + k],
                }),
    {
        let mut out: Vec<Value> = Vec::new();
        loop
            invariant
                ctx.wf(),
                !ctx.disposed,
                ctx.mod_ok(self.m),
                self.m == old(self).m,
                old(self).pos <= self.pos <= ctx.mod_at(self.m.idx as int).fns@.len(),
                out@.len() == self.pos - old(self).pos,
                forall|k: int|
                    0 <= k < out@.len() ==> #[trigger] out@[k] == (Value {
                        owner: ctx.id,
                        idx: ctx.mod_at(self.m.idx as int).fns@[old(self).pos + k],
                    }),
            decreases ctx.mod_at(self.m.idx as int).fns@.len() - self.pos,
        {
            match self.next(ctx) {
                Some(v) => {
                    out.push(v);
                },
                None => {
                    return out;
                },
            }
        }
    }
}

impl Globals {
    /// Hands out the next declared global, or `None` when the traversal
    /// is over or the module handle no longer refers into the context.
    pub fn next(&mut self, ctx: &Context) -> (r: Option<Value>)
        requires
            ctx.wf(),
            !ctx.disposed,
        ensures
            final(self).m == old(self).m,
            match r {
                Some(v) => {
                    &&& ctx.mod_ok(old(self).m)
                    &&& old(self).pos < ctx.mod_at(old(self).m.idx as int).globals@.len()
                    &&& v == (Value {
                        owner: ctx.id,
                        idx: ctx.mod_at(old(self).m.idx as int).globals@[old(self).pos as int],
                    })
                    &&& final(self).pos == old(self).pos + 1
                },
                None => {
                    &&& final(self).pos == old(self).pos
                    &&& (ctx.mod_ok(old(self).m) ==> old(self).pos >= ctx.mod_at(
                        old(self).m.idx as int,
                    ).globals@.len())
                },
            },
    {
        if self.m.owner != ctx.id || self.m.idx >= ctx.modules.len() {
            return None;
        }
        let globals = &ctx.modules[self.m.idx].globals;
        if self.pos < globals.len() {
            let v = Value { owner: ctx.id, idx: globals[self.pos] };
            self.pos = self.pos + 1;
            Some(v)
        } else {
            None
        }
    }
}

impl Params {
    /// Hands out the next parameter, or `None` when the traversal is over
    /// or the function is stale.
    pub fn next(&mut self, ctx: &Context) -> (r: Option<Value>)
        requires
            ctx.wf(),
            !ctx.disposed,
        ensures
            final(self).f == old(self).f,
            match r {
                Some(v) => {
                    &&& func_err(*ctx, old(self).f) is None
                    &&& old(self).pos < ctx.val_at(
                        old(self).f.idx as int,
                    ).kind->Func_params@.len()
                    &&& v == (Value {
                        owner: ctx.id,
                        idx: ctx.val_at(old(self).f.idx as int).kind->Func_params@[old(
                            self,
                        ).pos as int],
                    })
                    &&& final(self).pos == old(self).pos + 1
                },
                None => {
                    &&& final(self).pos == old(self).pos
                    &&& (func_err(*ctx, old(self).f) is None ==> old(self).pos >= ctx.val_at(
                        old(self).f.idx as int,
                    ).kind->Func_params@.len())
                },
            },
    {
        match self.f.check_live(ctx) {
            Some(_) => {
                return None;
            },
            None => {},
        }
        match &ctx.vals[self.f.idx].kind {
            ValKind::Func { params, .. } => {
                if self.pos < params.len() {
                    let v = Value { owner: ctx.id, idx: params[self.pos] };
                    self.pos = self.pos + 1;
                    Some(v)
                } else {
                    None
                }
            },
            _ => None,
        }
    }
}

impl Blocks {
    /// Hands out the next basic block, or `None` when the traversal is
    /// over or the function is stale.
    pub fn next(&mut self, ctx: &Context) -> (r: Option<BasicBlock>)
        requires
            ctx.wf(),
            !ctx.disposed,
        ensures
            final(self).f == old(self).f,
            match r {
                Some(b) => {
                    &&& func_err(*ctx, old(self).f) is None
                    &&& old(self).pos < ctx.val_at(
                        old(self).f.idx as int,
                    ).kind->Func_blocks@.len()
                    &&& b == (BasicBlock {
                        owner: ctx.id,
                        idx: ctx.val_at(old(self).f.idx as int).kind->Func_blocks@[old(
                            self,
                        ).pos as int],
                    })
                    &&& final(self).pos == old(self).pos + 1
                },
                None => {
                    &&& final(self).pos == old(self).pos
                    &&& (func_err(*ctx, old(self).f) is None ==> old(self).pos >= ctx.val_at(
                        old(self).f.idx as int,
                    ).kind->Func_blocks@.len())
                },
            },
    {
        match self.f.check_live(ctx) {
            Some(_) => {
                return None;
            },
            None => {},
        }
        match &ctx.vals[self.f.idx].kind {
            ValKind::Func { blocks, .. } => {
                if self.pos < blocks.len() {
                    let b = BasicBlock { owner: ctx.id, idx: blocks[self.pos] };
                    self.pos = self.pos + 1;
                    Some(b)
                } else {
                    None
                }
            },
            _ => None,
        }
    }
}

} // verus!
