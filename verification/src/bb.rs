//! The handle for a basic block owned by a context.

use vstd::prelude::*;

use crate::context::{ctx_same, find_idx, Context, ValKind};
use crate::err::IrError;

verus! {

/// A handle for a basic block stored in a [`crate::context::Context`]
/// arena. A block belongs to exactly one function and holds an ordered
/// list of instructions.
#[derive(Clone, Copy, Debug, PartialEq, Eq, Structural)]
pub struct BasicBlock {
    /// Tag of the owning context.
    pub owner: u64,
    /// Index in the owning context's block arena.
    pub idx: usize,
}

/// When an operation on a live block fails, and with which error: the
/// handle must belong to the context and neither the block nor its
/// function may have been deleted.
pub open spec fn blk_err(c: Context, b: BasicBlock) -> Option<IrError> {
    if !c.blk_ok(b) {
        Some(IrError::CrossContext)
    } else if !c.blk_live_at(b.idx as int) {
        Some(IrError::Stale)
    } else {
        None
    }
}

impl BasicBlock {
    /// Classifies this handle as a live block of the context, or reports
    /// why it is not.
    pub(crate) fn check_live(&self, ctx: &Context) -> (r: Option<IrError>)
        requires
            ctx.wf(),
        ensures
            r == blk_err(*ctx, *self),
            r is None ==> self.idx < ctx.blocks@.len(),
    {
        if self.owner != ctx.id || self.idx >= ctx.blocks.len() {
            return Some(IrError::CrossContext);
        }
        let b = &ctx.blocks[self.idx];
        let live = if b.dead || b.func >= ctx.vals.len() {
            false
        } else {
            match &ctx.vals[b.func].kind {
                ValKind::Func { dead, .. } => !*dead,
                _ => false,
            }
        };
        if live {
            None
        } else {
            Some(IrError::Stale)
        }
    }

    /// Deletes this basic block: it leaves its function and every handle
    /// to it and to its instructions becomes stale.
    pub fn delete(&self, ctx: &mut Context) -> (r: Result<(), IrError>)
        requires
            old(ctx).wf(),
            !old(ctx).disposed,
        ensures
            final(ctx).wf(),
            !final(ctx).disposed,
            final(ctx).id == old(ctx).id,
            final(ctx).types@ == old(ctx).types@,
            final(ctx).modules@ == old(ctx).modules@,
            match r {
                Ok(()) => {
                    &&& blk_err(*old(ctx), *self) is None
                    &&& final(ctx).blocks@.len() == old(ctx).blocks@.len()
                    &&& (forall|j: int|
                        0 <= j < old(ctx).blocks@.len() && j != self.idx ==> final(ctx).blocks@[j]
                            == old(ctx).blocks@[j])
                    &&& final(ctx).blk_at(self.idx as int).dead
                    &&& !final(ctx).blk_live_at(self.idx as int)
                    &&& final(ctx).vals@.len() == old(ctx).vals@.len()
                    &&& (forall|j: int|
                        0 <= j < old(ctx).vals@.len() && j != old(ctx).blk_at(self.idx as int).func
                            ==> final(ctx).vals@[j] == old(ctx).vals@[j])
                    &&& (final(ctx).vals@[old(ctx).blk_at(
                        self.idx as int,
                    ).func as int].kind->Func_blocks@ == old(ctx).vals@[old(ctx).blk_at(
                        self.idx as int,
                    ).func as int].kind->Func_blocks@.remove_value(self.idx))
                },
                Err(e) => {
                    &&& ctx_same(*old(ctx), *final(ctx))
                    &&& blk_err(*old(ctx), *self) == Some(e)
                },
            },
    {
        match self.check_live(ctx) {
            Some(e) => {
                return Err(e);
            },
            None => {},
        }
        let f = ctx.blocks[self.idx].func;
        proof {
            assert(old(ctx).blk_wf_at(self.idx as int));
            assert(old(ctx).vd_wf(old(ctx).vals@[f as int], f as int));
        }
        let pos = match &ctx.vals[f].kind {
            ValKind::Func { blocks, .. } => find_idx(blocks, self.idx),
            _ => None,
        };
        match pos {
            Some(p) => {
                proof {
                    let l = old(ctx).vals@[f as int].kind->Func_blocks@;
                    crate::val::lemma_index_of_first(l, self.idx, p as int);
                }
                ctx.kill_block(self.idx, p);
                Ok(())
            },
            None => {
                proof {
                    let l = old(ctx).vals@[f as int].kind->Func_blocks@;
                    l.index_of_first_ensures(self.idx);
                    match l.index_of_first(self.idx) {
                        Some(p) => {
                            assert(l[p] == self.idx);
                            assert(false);
                        },
                        None => {},
                    }
                }
                ctx.set_block_dead(self.idx);
                Ok(())
            },
        }
    }

    /// The name of this basic block: `None` when the name is empty.
    pub fn get_name(&self, ctx: &Context) -> (r: Result<Option<String>, IrError>)
        requires
            ctx.wf(),
            !ctx.disposed,
        ensures
            match r {
                Ok(o) => {
                    &&& blk_err(*ctx, *self) is None
                    &&& match o {
                        Some(s) => s@ == ctx.blk_at(self.idx as int).name@ && s@.len() > 0,
                        None => ctx.blk_at(self.idx as int).name@.len() == 0,
                    }
                },
                Err(e) => blk_err(*ctx, *self) == Some(e),
            },
    {
        match self.check_live(ctx) {
            Some(e) => {
                return Err(e);
            },
            None => {},
        }
        let s = &ctx.blocks[self.idx].name;
        if s.as_str().unicode_len() == 0 {
            Ok(None)
        } else {
            Ok(Some(s.clone()))
        }
    }
}

} // verus!
