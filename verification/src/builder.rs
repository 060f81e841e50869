//! The instruction builder: a cursor into a basic block.
//!
//! Every emission method inserts one instruction at the cursor and moves
//! the cursor past it, so instructions emitted through one builder appear
//! in their block in call order. Emitting needs a position
//! ([`crate::err::IrError::NoPosition`] otherwise) and live operands of
//! the builder's own context; the builder derives each instruction's
//! result type from its operands where the operands determine it, and
//! performs no further type checking — ill-typed graphs are the backend's
//! to reject.

use vstd::prelude::*;

use crate::bb::BasicBlock;
use crate::context::{ctx_same, Context, IntPred, Op, RealPred, TypeData, ValKind};
use crate::err::IrError;
use crate::link::Linkage;
use crate::module::Module;
use crate::ty::{val_idx_vec, Type};
use crate::val::Value;

verus! {

/// A mutable insertion cursor. `cursor` is `None` until the builder is
/// positioned; it then holds the block index and the position inside that
/// block's instruction list where the next instruction is inserted.
///
/// A builder owns no IR entities and may be repositioned any number of
/// times, also across functions. Emitting with no position set is reported
/// as [`crate::err::IrError::NoPosition`].
#[derive(Clone, Copy, Debug)]
pub struct Builder {
    /// Tag of the owning context.
    pub owner: u64,
    /// The block index and insertion position, once positioned.
    pub cursor: Option<(usize, usize)>,
}

impl Builder {
    /// The builder belongs to `c` and its cursor, if set, points into an
    /// existing block at a position no further than one past its last
    /// instruction.
    pub open spec fn wf(self, c: Context) -> bool {
        &&& self.owner == c.id
        &&& match self.cursor {
            Some((b, p)) => b < c.blocks@.len() && p <= c.blocks@[b as int].instrs@.len(),
            None => true,
        }
    }
}

/// The return type a call through the given callee type produces: the
/// return type of the signature, reached directly or through one pointer.
pub open spec fn callee_ret(c: Context, t: int) -> Option<int> {
    match c.ty_at(t) {
        TypeData::FnTy { ret, .. } => Some(ret as int),
        TypeData::Ptr { elem } => match c.ty_at(elem as int) {
            TypeData::FnTy { ret, .. } => Some(ret as int),
            _ => None,
        },
        _ => None,
    }
}

/// The field type extraction at `index` produces on an aggregate type,
/// when the type determines it.
pub open spec fn extract_ty(c: Context, t: int, index: int) -> Option<int> {
    match c.ty_at(t) {
        TypeData::Array { elem, .. } => Some(elem as int),
        TypeData::Struct { fields, .. } => if 0 <= index < fields@.len() {
            Some(fields@[index] as int)
        } else {
            None
        },
        TypeData::Named { fields, opaque, .. } => if !opaque && 0 <= index < fields@.len() {
            Some(fields@[index] as int)
        } else {
            None
        },
        _ => None,
    }
}

/// Growing the arenas without touching existing values, block tombstones
/// or block owners leaves the liveness of every existing value and block
/// as it was.
pub proof fn lemma_live_preserved(c0: Context, c1: Context)
    requires
        c0.wf(),
        c1.vals@.len() >= c0.vals@.len(),
        forall|j: int| 0 <= j < c0.vals@.len() ==> (#[trigger] c1.vals@[j]).kind == c0.vals@[j].kind,
        c1.blocks@.len() >= c0.blocks@.len(),
        forall|j: int|
            0 <= j < c0.blocks@.len() ==> (#[trigger] c1.blocks@[j]).dead == c0.blocks@[j].dead
                && c1.blocks@[j].func == c0.blocks@[j].func,
    ensures
        forall|i: int|
            0 <= i < c0.vals@.len() ==> #[trigger] c1.val_live_at(i) == c0.val_live_at(i),
        forall|i: int|
            0 <= i < c0.blocks@.len() ==> #[trigger] c1.blk_live_at(i) == c0.blk_live_at(i),
{
    assert forall|i: int|
        0 <= i < c0.blocks@.len() implies #[trigger] c1.blk_live_at(i) == c0.blk_live_at(i) by {
        assert(c0.blk_wf_at(i));
    }
    assert forall|i: int|
        0 <= i < c0.vals@.len() implies #[trigger] c1.val_live_at(i) == c0.val_live_at(i) by {
        assert(c0.vd_wf(c0.vals@[i], i));
        match c0.vals@[i].kind {
            ValKind::Instr { block, .. } => {
                assert(c1.blk_live_at(block as int) == c0.blk_live_at(block as int));
            },
            _ => {},
        }
    }
}

/// The element type a pointer walk reaches: starting at `cur`, index
/// `k` and the following indices each step into an array element or a
/// constant-selected struct field. `None` when a step is not determined
/// by the types and constants alone.
pub open spec fn gep_ty(c: Context, cur: int, idxs: Seq<Value>, k: int) -> Option<int>
    decreases idxs.len() - k,
{
    if k >= idxs.len() {
        Some(cur)
    } else {
        match c.ty_at(cur) {
            TypeData::Array { elem, .. } => gep_ty(c, elem as int, idxs, k + 1),
            TypeData::Struct { fields, .. } => match c.val_at(idxs[k].idx as int).kind {
                ValKind::ConstInt { value } => if value < fields@.len() {
                    gep_ty(c, fields@[value as int] as int, idxs, k + 1)
                } else {
                    None
                },
                _ => None,
            },
            TypeData::Named { fields, opaque, .. } => if opaque {
                None
            } else {
                match c.val_at(idxs[k].idx as int).kind {
                    ValKind::ConstInt { value } => if value < fields@.len() {
                        gep_ty(c, fields@[value as int] as int, idxs, k + 1)
                    } else {
                        None
                    },
                    _ => None,
                }
            },
            _ => None,
        }
    }
}

/// What an array allocation leaves behind: a fresh 32-bit count constant
/// and one allocation instruction taking it as its operand, returning a
/// pointer to the element type.
pub open spec fn array_alloc_post(
    c0: Context,
    b0: Builder,
    c1: Context,
    b1: Builder,
    v: Value,
    ty: Type,
    count: u32,
    heap: bool,
) -> bool {
    let blk = b0.cursor->Some_0.0 as int;
    let at = b0.cursor->Some_0.1 as int;
    let cidx = c0.vals@.len() as int;
    &&& emit_err(c0, b0, Seq::empty()) is None
    &&& c0.ty_ok(ty)
    &&& v.owner == c0.id
    &&& v.idx == cidx + 1
    &&& c1.modules@ == c0.modules@
    &&& c1.vals@.len() == c0.vals@.len() + 2
    &&& (forall|j: int| 0 <= j < c0.vals@.len() ==> c1.vals@[j] == c0.vals@[j])
    &&& c1.vals@[cidx].name is None
    &&& c1.ty_at(c1.vals@[cidx].ty as int) == (TypeData::Int { bits: 32u32 })
    &&& (c1.vals@[cidx].kind matches ValKind::ConstInt { value } && value == count as u64)
    &&& c1.vals@[v.idx as int].name is None
    &&& c1.ty_at(c1.vals@[v.idx as int].ty as int) == (TypeData::Ptr { elem: ty.idx })
    &&& (c1.vals@[v.idx as int].kind matches ValKind::Instr { block, op, args, .. } && block == blk
        && (if heap {
        op is ArrayMalloc
    } else {
        op is ArrayAlloca
    }) && args@ == seq![cidx as usize])
    &&& c1.blocks@.len() == c0.blocks@.len()
    &&& (forall|j: int| 0 <= j < c0.blocks@.len() && j != blk ==> c1.blocks@[j] == c0.blocks@[j])
    &&& c1.blk_at(blk).instrs@ == c0.blk_at(blk).instrs@.insert(at, v.idx as usize)
    &&& c1.blk_at(blk).dead == c0.blk_at(blk).dead
    &&& c1.blk_at(blk).func == c0.blk_at(blk).func
    &&& c1.blk_at(blk).name@ == c0.blk_at(blk).name@
    &&& b1.owner == b0.owner
    &&& b1.cursor == Some((b0.cursor->Some_0.0, (at + 1) as usize))
}

/// What an allocate-then-store helper leaves behind: an allocation of the
/// stored value's type followed by a store of the value through it, with
/// the cursor two steps further.
pub open spec fn alloc_store_post(
    c0: Context,
    b0: Builder,
    c1: Context,
    b1: Builder,
    p: Value,
    val: Value,
    heap: bool,
) -> bool {
    let blk = b0.cursor->Some_0.0 as int;
    let at = b0.cursor->Some_0.1 as int;
    let a = c0.vals@.len() as int;
    &&& emit_err(c0, b0, seq![val]) is None
    &&& p.owner == c0.id
    &&& p.idx == a
    &&& c1.modules@ == c0.modules@
    &&& c1.vals@.len() == c0.vals@.len() + 2
    &&& (forall|j: int| 0 <= j < c0.vals@.len() ==> c1.vals@[j] == c0.vals@[j])
    &&& c1.vals@[a].name is None
    &&& c1.ty_at(c1.vals@[a].ty as int) == (TypeData::Ptr { elem: c0.val_at(val.idx as int).ty })
    &&& (c1.vals@[a].kind matches ValKind::Instr { block, op, args, .. } && block == blk && (if heap {
        op is Malloc
    } else {
        op is Alloca
    }) && args@.len() == 0)
    &&& (c1.vals@[a + 1].kind matches ValKind::Instr { block, op, args, .. } && block == blk && op
        is Store && args@ == seq![val.idx, a as usize])
    &&& c1.blocks@.len() == c0.blocks@.len()
    &&& (forall|j: int| 0 <= j < c0.blocks@.len() && j != blk ==> c1.blocks@[j] == c0.blocks@[j])
    &&& c1.blk_at(blk).instrs@ == c0.blk_at(blk).instrs@.insert(at, a as usize).insert(
        at + 1,
        (a + 1) as usize,
    )
    &&& c1.blk_at(blk).dead == c0.blk_at(blk).dead
    &&& c1.blk_at(blk).func == c0.blk_at(blk).func
    &&& c1.blk_at(blk).name@ == c0.blk_at(blk).name@
    &&& b1.owner == b0.owner
    &&& b1.cursor == Some((b0.cursor->Some_0.0, (at + 2) as usize))
}

/// What folding insert-value instructions over an aggregate leaves
/// behind: one instruction per element, each writing element `k` into the
/// previous aggregate at position `k`, named with the label and the
/// position, inserted in order at the cursor.
pub open spec fn fold_post(
    c0: Context,
    b0: Builder,
    c1: Context,
    b1: Builder,
    agg0: Value,
    elems: Seq<Value>,
    label: Seq<char>,
    r: Value,
) -> bool {
    let blk = b0.cursor->Some_0.0 as int;
    let at = b0.cursor->Some_0.1 as int;
    let base = c0.vals@.len() as int;
    let n = elems.len() as int;
    &&& r.owner == c0.id
    &&& r.idx == (if n == 0 {
        agg0.idx as int
    } else {
        base + n - 1
    })
    &&& c1.modules@ == c0.modules@
    &&& c1.vals@.len() == base + n
    &&& (forall|j: int| 0 <= j < base ==> c1.vals@[j] == c0.vals@[j])
    &&& (forall|k: int|
        0 <= k < n ==> ((#[trigger] c1.vals@[base + k]).ty == c0.val_at(agg0.idx as int).ty
            && c1.v_name(base + k) == label + crate::text::dec_digits(k as nat) && (c1.vals@[base
            + k].kind matches ValKind::Instr { block, op, args, .. } && block == blk && (op
            matches Op::InsertValue { index } && index == k) && args@ == seq![
            (if k == 0 {
                agg0.idx as int
            } else {
                base + k - 1
            }) as usize,
            elems[k].idx,
        ])))
    &&& c1.blocks@.len() == c0.blocks@.len()
    &&& (forall|j: int| 0 <= j < c0.blocks@.len() && j != blk ==> c1.blocks@[j] == c0.blocks@[j])
    &&& c1.blk_at(blk).dead == c0.blk_at(blk).dead
    &&& c1.blk_at(blk).func == c0.blk_at(blk).func
    &&& c1.blk_at(blk).name@ == c0.blk_at(blk).name@
    &&& c1.blk_at(blk).instrs@.len() == c0.blk_at(blk).instrs@.len() + n
    &&& b1.owner == b0.owner
    &&& b1.cursor == Some((b0.cursor->Some_0.0, (at + n) as usize))
    &&& base + n <= usize::MAX
    &&& c0.blk_at(blk).instrs@.len() + n <= usize::MAX
    &&& at + n <= usize::MAX
}

/// What an array spill helper leaves behind: the element count, the new
/// values (undefined array, inserts, allocation, store, cast) and the
/// result, a cast pointer to the element type. The individual steps are
/// pinned by the contracts of the primitives the helper folds.
pub open spec fn array_store_post(
    c0: Context,
    b0: Builder,
    c1: Context,
    b1: Builder,
    v: Value,
    ty: Type,
    elems: Seq<Value>,
) -> bool {
    let blk = b0.cursor->Some_0.0 as int;
    let at = b0.cursor->Some_0.1 as int;
    let n = elems.len() as int;
    &&& emit_err(c0, b0, elems) is None
    &&& c0.ty_ok(ty)
    &&& c0.sized_at(ty.idx as int)
    &&& v.owner == c0.id
    &&& v.idx == c0.vals@.len() + n + 3
    &&& c1.modules@ == c0.modules@
    &&& c1.vals@.len() == c0.vals@.len() + n + 4
    &&& (forall|j: int| 0 <= j < c0.vals@.len() ==> c1.vals@[j] == c0.vals@[j])
    &&& c1.ty_at(c1.vals@[v.idx as int].ty as int) == (TypeData::Ptr { elem: ty.idx })
    &&& (c1.vals@[v.idx as int].kind matches ValKind::Instr { block, op, args, .. } && block == blk
        && op is PointerCast && args@ == seq![(v.idx - 2) as usize])
    &&& c1.blocks@.len() == c0.blocks@.len()
    &&& (forall|j: int| 0 <= j < c0.blocks@.len() && j != blk ==> c1.blocks@[j] == c0.blocks@[j])
    &&& c1.blk_at(blk).instrs@.len() == c0.blk_at(blk).instrs@.len() + n + 3
    &&& c1.blk_at(blk).dead == c0.blk_at(blk).dead
    &&& c1.blk_at(blk).func == c0.blk_at(blk).func
    &&& b1.owner == b0.owner
    &&& b1.cursor == Some((b0.cursor->Some_0.0, (at + n + 3) as usize))
}

/// When emitting through a builder fails, and with which error: the
/// builder must be positioned, its block must be live, and every operand
/// must be a live value of the same context.
pub open spec fn emit_err(c: Context, b: Builder, args: Seq<Value>) -> Option<IrError> {
    if b.owner != c.id {
        Some(IrError::CrossContext)
    } else if b.cursor is None {
        Some(IrError::NoPosition)
    } else if !c.blk_live_at(b.cursor->Some_0.0 as int) {
        Some(IrError::Stale)
    } else if exists|k: int| 0 <= k < args.len() && !c.val_ok(#[trigger] args[k]) {
        Some(IrError::CrossContext)
    } else if exists|k: int| 0 <= k < args.len() && !c.val_live_at(#[trigger] args[k].idx as int) {
        Some(IrError::Stale)
    } else {
        None
    }
}

/// What emitting one instruction does: a fresh instruction value carrying
/// the operation, the operand indices and the result type is inserted at
/// the cursor of block `blk`, and the cursor moves one step past it.
/// Everything else — other values, other blocks, the modules — is
/// untouched.
pub open spec fn emits(
    c0: Context,
    b0: Builder,
    c1: Context,
    b1: Builder,
    v: Value,
    op: Op,
    args: Seq<Value>,
    rty: int,
) -> bool {
    let blk = b0.cursor->Some_0.0 as int;
    let at = b0.cursor->Some_0.1 as int;
    &&& v == (Value { owner: c0.id, idx: c0.vals@.len() as usize })
    &&& v.idx == c0.vals@.len()
    &&& c1.modules@ == c0.modules@
    &&& c1.vals@.len() == c0.vals@.len() + 1
    &&& (forall|j: int| 0 <= j < c0.vals@.len() ==> c1.vals@[j] == c0.vals@[j])
    &&& c1.vals@[v.idx as int].name is None
    &&& c1.vals@[v.idx as int].ty == rty
    &&& (c1.vals@[v.idx as int].kind matches ValKind::Instr {
        block,
        op: o2,
        args: a2,
        tail_call,
        align,
    } && block == blk && o2 == op && a2@.len() == args.len() && (forall|k: int|
        0 <= k < args.len() ==> #[trigger] a2@[k] == args[k].idx) && !tail_call && align == 0)
    &&& c1.blocks@.len() == c0.blocks@.len()
    &&& (forall|j: int| 0 <= j < c0.blocks@.len() && j != blk ==> c1.blocks@[j] == c0.blocks@[j])
    &&& c1.blk_at(blk).name@ == c0.blk_at(blk).name@
    &&& c1.blk_at(blk).func == c0.blk_at(blk).func
    &&& c1.blk_at(blk).dead == c0.blk_at(blk).dead
    &&& c1.blk_at(blk).instrs@ == c0.blk_at(blk).instrs@.insert(at, v.idx as usize)
    &&& b1.owner == b0.owner
    &&& b1.cursor == Some((b0.cursor->Some_0.0, (at + 1) as usize))
    &&& c0.blk_at(blk).instrs@.len() < usize::MAX
    &&& c0.vals@.len() < usize::MAX
    &&& at + 1 <= usize::MAX
}

/// What creating a constant global string leaves behind: one fresh
/// NUL-terminated string constant, and a global named `name` in the module
/// that owns the cursor's block — a fresh declaration when the name was
/// free, the existing one otherwise — made private, constant and
/// address-insignificant, and initialized with that constant. The blocks
/// are untouched: no instruction is emitted.
pub open spec fn global_string_post(
    c0: Context,
    b0: Builder,
    c1: Context,
    g: Value,
    name: Seq<char>,
    string: Seq<char>,
) -> bool {
    let blk = b0.cursor->Some_0.0 as int;
    let mi = c0.val_at(c0.blk_at(blk).func as int).kind->Func_module as int;
    let cs = c0.vals@.len() as int;
    &&& emit_err(c0, b0, Seq::empty()) is None
    &&& crate::context::valid_name(name)
    &&& g.owner == c0.id
    &&& c1.blocks@ == c0.blocks@
    &&& c0.types@.len() <= c1.types@.len()
    &&& (forall|j: int| 0 <= j < c0.types@.len() ==> c1.types@[j] == c0.types@[j])
    &&& c1.val_ok(g)
    &&& c1.val_live_at(g.idx as int)
    &&& c1.v_name(g.idx as int) == name
    &&& (forall|j: int| 0 <= j < cs && j != g.idx ==> c1.vals@[j] == c0.vals@[j])
    &&& c1.vals@[cs].name is None
    &&& (c1.vals@[cs].kind matches ValKind::ConstString { text, nul } && text@ == string && nul)
    &&& c1.ty_at(c1.vals@[cs].ty as int) == (TypeData::Array {
        elem: 2usize,
        count: (string.len() + 1) as u32,
    })
    &&& (c1.vals@[g.idx as int].kind matches ValKind::Global {
        module,
        init,
        linkage,
        is_const,
        unnamed_addr,
        ..
    } && module == mi && init == Some(cs as usize) && linkage == Linkage::Private && is_const
        && unnamed_addr)
    &&& (!c0.list_has_named(c0.mod_at(mi).globals@, name) ==> {
        &&& g.idx == cs + 1
        &&& c1.vals@.len() == cs + 2
        &&& c1.modules@.len() == c0.modules@.len()
        &&& (forall|j: int| 0 <= j < c0.modules@.len() && j != mi ==> c1.modules@[j] == c0.modules@[j])
        &&& c1.mod_at(mi).globals@ == c0.mod_at(mi).globals@.push((cs + 1) as usize)
        &&& c1.mod_at(mi).fns@ == c0.mod_at(mi).fns@
        &&& c1.mod_at(mi).name@ == c0.mod_at(mi).name@
        &&& (c1.ty_at(c1.vals@[g.idx as int].ty as int) matches TypeData::Ptr { elem } && c1.ty_at(
            elem as int,
        ) == (TypeData::Array { elem: 2usize, count: (string.len() + 1) as u32 }))
    })
    &&& (c0.list_has_named(c0.mod_at(mi).globals@, name) ==> {
        &&& (exists|k: int|
            0 <= k < c0.mod_at(mi).globals@.len() && #[trigger] c0.mod_at(mi).globals@[k] == g.idx)
        &&& g.idx < cs
        &&& c1.vals@.len() == cs + 1
        &&& c1.modules@ == c0.modules@
    })
}

impl Builder {
    /// Classifies an emission through this builder, or reports why it is
    /// refused. Shared head of every emission method.
    fn precheck(&self, ctx: &Context, args: &Vec<Value>) -> (r: Option<IrError>)
        requires
            ctx.wf(),
            self.wf(*ctx),
        ensures
            r == emit_err(*ctx, *self, args@),
            r is None ==> self.cursor is Some && (forall|k: int|
                0 <= k < args@.len() ==> #[trigger] args@[k].idx < ctx.vals@.len()),
    {
        if self.owner != ctx.id {
            return Some(IrError::CrossContext);
        }
        let (blk, _at) = match self.cursor {
            Some(c) => c,
            None => {
                return Some(IrError::NoPosition);
            },
        };
        if !ctx.blk_is_live(blk) {
            return Some(IrError::Stale);
        }
        let n = args.len();
        let mut i: usize = 0;
        while i < n
            invariant
                i <= n,
                n == args@.len(),
                ctx.wf(),
                self.owner == ctx.id,
                self.cursor is Some,
                ctx.blk_live_at(self.cursor->Some_0.0 as int),
                forall|j: int| 0 <= j < i ==> ctx.val_ok(#[trigger] args@[j]),
            decreases n - i,
        {
            let a = args[i];
            if a.owner != ctx.id || a.idx >= ctx.vals.len() {
                proof {
                    assert(!ctx.val_ok(args@[i as int]));
                }
                return Some(IrError::CrossContext);
            }
            i += 1;
        }
        let mut k: usize = 0;
        while k < n
            invariant
                k <= n,
                n == args@.len(),
                ctx.wf(),
                self.owner == ctx.id,
                self.cursor is Some,
                ctx.blk_live_at(self.cursor->Some_0.0 as int),
                forall|j: int| 0 <= j < n ==> ctx.val_ok(#[trigger] args@[j]),
                forall|j: int| 0 <= j < k ==> ctx.val_live_at(#[trigger] args@[j].idx as int),
            decreases n - k,
        {
            let a = args[k];
            match a.check_live(ctx) {
                Some(_) => {
                    proof {
                        assert(ctx.val_ok(args@[k as int]));
                        assert(!ctx.val_live_at(args@[k as int].idx as int));
                    }
                    return Some(IrError::Stale);
                },
                None => {},
            }
            k += 1;
        }
        None
    }

    /// Inserts one instruction at the cursor; the shared tail of every
    /// emission method, called once the checks have passed.
    fn emit_at(&mut self, ctx: &mut Context, op: Op, args: Vec<Value>, rty: usize) -> (v: Value)
        requires
            old(ctx).wf(),
            !old(ctx).disposed,
            old(self).wf(*old(ctx)),
            emit_err(*old(ctx), *old(self), args@) is None,
            rty < old(ctx).types@.len(),
            old(ctx).op_wf(op),
        ensures
            final(ctx).wf(),
            !final(ctx).disposed,
            final(ctx).id == old(ctx).id,
            final(ctx).types@ == old(ctx).types@,
            final(self).wf(*final(ctx)),
            emits(*old(ctx), *old(self), *final(ctx), *final(self), v, op, args@, rty as int),
    {
        let (blk, at) = match self.cursor {
            Some(c) => c,
            None => (0, 0),
        };
        let idxs = val_idx_vec(&args);
        let v = ctx.insert_instr(blk, at, op, idxs, rty);
        self.cursor = Some((blk, at + 1));
        v
    }

    /// Points the cursor at the end of the given block: instructions are
    /// then appended after its current last instruction.
    pub fn position_at_end(&mut self, ctx: &Context, bb: BasicBlock) -> (r: Result<(), IrError>)
        requires
            ctx.wf(),
            !ctx.disposed,
            old(self).owner == ctx.id,
        ensures
            final(self).owner == old(self).owner,
            final(self).wf(*ctx) || *final(self) == *old(self),
            match r {
                Ok(()) => {
                    &&& crate::bb::blk_err(*ctx, bb) is None
                    &&& final(self).cursor == Some(
                        (bb.idx, ctx.blk_at(bb.idx as int).instrs@.len() as usize),
                    )
                    &&& final(self).wf(*ctx)
                },
                Err(e) => {
                    &&& crate::bb::blk_err(*ctx, bb) == Some(e)
                    &&& *final(self) == *old(self)
                },
            },
    {
        match bb.check_live(ctx) {
            Some(e) => {
                return Err(e);
            },
            None => {},
        }
        let end = ctx.blocks[bb.idx].instrs.len();
        self.cursor = Some((bb.idx, end));
        Ok(())
    }

    /// Points the cursor directly before the given instruction.
    pub fn position_before(&mut self, ctx: &Context, val: Value) -> (r: Result<(), IrError>)
        requires
            ctx.wf(),
            !ctx.disposed,
            old(self).owner == ctx.id,
        ensures
            final(self).owner == old(self).owner,
            match r {
                Ok(()) => {
                    &&& ctx.val_ok(val)
                    &&& ctx.val_at(val.idx as int).kind is Instr
                    &&& ctx.val_live_at(val.idx as int)
                    &&& final(self).wf(*ctx)
                    &&& (final(self).cursor matches Some((b, p)) && b == ctx.val_at(
                        val.idx as int,
                    ).kind->Instr_block && p < ctx.blk_at(b as int).instrs@.len() && ctx.blk_at(
                        b as int,
                    ).instrs@[p as int] == val.idx)
                },
                Err(e) => {
                    &&& *final(self) == *old(self)
                    &&& Some(e) == (if crate::val::live_err(*ctx, val) is Some {
                        crate::val::live_err(*ctx, val)
                    } else if !(ctx.val_at(val.idx as int).kind is Instr) {
                        Some(IrError::NotAnInstruction)
                    } else {
                        Some(IrError::Stale)
                    })
                    &&& (crate::val::live_err(*ctx, val) is None && ctx.val_at(
                        val.idx as int,
                    ).kind is Instr ==> !ctx.blk_at(
                        ctx.val_at(val.idx as int).kind->Instr_block as int,
                    ).instrs@.contains(val.idx))
                },
            },
    {
        match val.check_live(ctx) {
            Some(e) => {
                return Err(e);
            },
            None => {},
        }
        let blk = match &ctx.vals[val.idx].kind {
            ValKind::Instr { block, .. } => Some(*block),
            _ => None,
        };
        let blk = match blk {
            Some(b) => b,
            None => {
                return Err(IrError::NotAnInstruction);
            },
        };
        proof {
            assert(ctx.vd_wf(ctx.vals@[val.idx as int], val.idx as int));
        }
        match crate::context::find_idx(&ctx.blocks[blk].instrs, val.idx) {
            Some(p) => {
                self.cursor = Some((blk, p));
                Ok(())
            },
            None => {
                proof {
                    assert(!ctx.blk_at(blk as int).instrs@.contains(val.idx));
                }
                Err(IrError::Stale)
            },
        }
    }

    /// Points the cursor at the given instruction inside the given block.
    pub fn position_in_block(&mut self, ctx: &Context, bb: BasicBlock, val: Value) -> (r: Result<
        (),
        IrError,
    >)
        requires
            ctx.wf(),
            !ctx.disposed,
            old(self).owner == ctx.id,
        ensures
            final(self).owner == old(self).owner,
            match r {
                Ok(()) => {
                    &&& crate::bb::blk_err(*ctx, bb) is None
                    &&& ctx.val_ok(val)
                    &&& final(self).wf(*ctx)
                    &&& (final(self).cursor matches Some((b, p)) && b == bb.idx && p < ctx.blk_at(
                        bb.idx as int,
                    ).instrs@.len() && ctx.blk_at(bb.idx as int).instrs@[p as int] == val.idx)
                },
                Err(e) => {
                    &&& *final(self) == *old(self)
                    &&& Some(e) == (if crate::bb::blk_err(*ctx, bb) is Some {
                        crate::bb::blk_err(*ctx, bb)
                    } else if !ctx.val_ok(val) {
                        Some(IrError::CrossContext)
                    } else {
                        Some(IrError::BadIndex)
                    })
                    &&& (crate::bb::blk_err(*ctx, bb) is None && ctx.val_ok(val) ==> !ctx.blk_at(
                        bb.idx as int,
                    ).instrs@.contains(val.idx))
                },
            },
    {
        match bb.check_live(ctx) {
            Some(e) => {
                return Err(e);
            },
            None => {},
        }
        if val.owner != ctx.id || val.idx >= ctx.vals.len() {
            return Err(IrError::CrossContext);
        }
        match crate::context::find_idx(&ctx.blocks[bb.idx].instrs, val.idx) {
            Some(p) => {
                self.cursor = Some((bb.idx, p));
                Ok(())
            },
            None => {
                proof {
                    assert(!ctx.blk_at(bb.idx as int).instrs@.contains(val.idx));
                }
                Err(IrError::BadIndex)
            },
        }
    }

    /// Builds an integer addition of the two operands.
    pub fn build_int_add(&mut self, ctx: &mut Context, a: Value, b: Value) -> (r: Result<
        Value,
        IrError,
    >)
        requires
            old(ctx).wf(),
            !old(ctx).disposed,
            old(self).wf(*old(ctx)),
        ensures
            final(ctx).wf(),
            !final(ctx).disposed,
            final(ctx).id == old(ctx).id,
            final(ctx).types@ == old(ctx).types@,
            final(self).wf(*final(ctx)),
            match r {
                Ok(v) => emit_err(*old(ctx), *old(self), seq![a, b]) is None && emits(
                    *old(ctx),
                    *old(self),
                    *final(ctx),
                    *final(self),
                    v,
                    Op::IntAdd,
                    seq![a, b],
                    old(ctx).val_at(a.idx as int).ty as int,
                ),
                Err(e) => {
                    &&& ctx_same(*old(ctx), *final(ctx))
                    &&& *final(self) == *old(self)
                    &&& emit_err(*old(ctx), *old(self), seq![a, b]) == Some(e)
                },
            },
    {
        let args: Vec<Value> = vec![a, b];
        match self.precheck(ctx, &args) {
            Some(e) => {
                return Err(e);
            },
            None => {},
        }
        proof {
            assert(ctx.vd_wf(ctx.vals@[a.idx as int], a.idx as int));
            assert(args@ =~= seq![a, b]);
        }
        let rty = ctx.vals[a.idx].ty;
        Ok(self.emit_at(ctx, Op::IntAdd, args, rty))
    }

    /// Builds a release of the heap allocation the operand points to.
    pub fn build_free(&mut self, ctx: &mut Context, ptr: Value) -> (r: Result<Value, IrError>)
        requires
            old(ctx).wf(),
            !old(ctx).disposed,
            old(self).wf(*old(ctx)),
        ensures
            final(ctx).wf(),
            !final(ctx).disposed,
            final(ctx).id == old(ctx).id,
            final(ctx).types@ == old(ctx).types@,
            final(self).wf(*final(ctx)),
            match r {
                Ok(v) => emit_err(*old(ctx), *old(self), seq![ptr]) is None && emits(
                    *old(ctx),
                    *old(self),
                    *final(ctx),
                    *final(self),
                    v,
                    Op::Free,
                    seq![ptr],
                    0,
                ),
                Err(e) => {
                    &&& ctx_same(*old(ctx), *final(ctx))
                    &&& *final(self) == *old(self)
                    &&& emit_err(*old(ctx), *old(self), seq![ptr]) == Some(e)
                },
            },
    {
        let args: Vec<Value> = vec![ptr];
        proof {
            assert(args@ =~= seq![ptr]);
        }
        match self.precheck(ctx, &args) {
            Some(e) => {
                return Err(e);
            },
            None => {},
        }
        Ok(self.emit_at(ctx, Op::Free, args, 0))
    }

    /// Builds a store of the first operand through the second.
    pub fn build_store(&mut self, ctx: &mut Context, val: Value, ptr: Value) -> (r: Result<
        (),
        IrError,
    >)
        requires
            old(ctx).wf(),
            !old(ctx).disposed,
            old(self).wf(*old(ctx)),
        ensures
            final(ctx).wf(),
            !final(ctx).disposed,
            final(ctx).id == old(ctx).id,
            final(ctx).types@ == old(ctx).types@,
            final(self).wf(*final(ctx)),
            match r {
                Ok(()) => emit_err(*old(ctx), *old(self), seq![val, ptr]) is None && emits(
                    *old(ctx),
                    *old(self),
                    *final(ctx),
                    *final(self),
                    (Value { owner: old(ctx).id, idx: old(ctx).vals@.len() as usize }),
                    Op::Store,
                    seq![val, ptr],
                    0,
                ),
                Err(e) => {
                    &&& ctx_same(*old(ctx), *final(ctx))
                    &&& *final(self) == *old(self)
                    &&& emit_err(*old(ctx), *old(self), seq![val, ptr]) == Some(e)
                },
            },
    {
        let args: Vec<Value> = vec![val, ptr];
        proof {
            assert(args@ =~= seq![val, ptr]);
        }
        match self.precheck(ctx, &args) {
            Some(e) => {
                return Err(e);
            },
            None => {},
        }
        let _ = self.emit_at(ctx, Op::Store, args, 0);
        Ok(())
    }

    /// Builds a load through the operand pointer. The loaded type is the
    /// operand's pointee type.
    pub fn build_load(&mut self, ctx: &mut Context, ptr: Value) -> (r: Result<Value, IrError>)
        requires
            old(ctx).wf(),
            !old(ctx).disposed,
            old(self).wf(*old(ctx)),
        ensures
            final(ctx).wf(),
            !final(ctx).disposed,
            final(ctx).id == old(ctx).id,
            final(ctx).types@ == old(ctx).types@,
            final(self).wf(*final(ctx)),
            match r {
                Ok(v) => {
                    &&& emit_err(*old(ctx), *old(self), seq![ptr]) is None
                    &&& old(ctx).ty_at(old(ctx).val_at(ptr.idx as int).ty as int) is Ptr
                    &&& emits(
                        *old(ctx),
                        *old(self),
                        *final(ctx),
                        *final(self),
                        v,
                        Op::Load,
                        seq![ptr],
                        old(ctx).ty_at(old(ctx).val_at(ptr.idx as int).ty as int)->Ptr_elem as int,
                    )
                },
                Err(e) => {
                    &&& ctx_same(*old(ctx), *final(ctx))
                    &&& *final(self) == *old(self)
                    &&& Some(e) == (if emit_err(*old(ctx), *old(self), seq![ptr]) is Some {
                        emit_err(*old(ctx), *old(self), seq![ptr])
                    } else {
                        Some(IrError::TypeUnknown)
                    })
                    &&& (emit_err(*old(ctx), *old(self), seq![ptr]) is None ==> !(old(ctx).ty_at(
                        old(ctx).val_at(ptr.idx as int).ty as int,
                    ) is Ptr))
                },
            },
    {
        let args: Vec<Value> = vec![ptr];
        proof {
            assert(args@ =~= seq![ptr]);
        }
        match self.precheck(ctx, &args) {
            Some(e) => {
                return Err(e);
            },
            None => {},
        }
        proof {
            assert(ctx.vd_wf(ctx.vals@[ptr.idx as int], ptr.idx as int));
            assert(ctx.ty_wf_at(ctx.vals@[ptr.idx as int].ty as int));
        }
        let pt = ctx.vals[ptr.idx].ty;
        let rty = match &ctx.types[pt] {
            TypeData::Ptr { elem } => *elem,
            _ => {
                return Err(IrError::TypeUnknown);
            },
        };
        Ok(self.emit_at(ctx, Op::Load, args, rty))
    }

    /// Builds a return of the operand.
    pub fn build_ret(&mut self, ctx: &mut Context, val: Value) -> (r: Result<Value, IrError>)
        requires
            old(ctx).wf(),
            !old(ctx).disposed,
            old(self).wf(*old(ctx)),
        ensures
            final(ctx).wf(),
            !final(ctx).disposed,
            final(ctx).id == old(ctx).id,
            final(ctx).types@ == old(ctx).types@,
            final(self).wf(*final(ctx)),
            match r {
                Ok(v) => emit_err(*old(ctx), *old(self), seq![val]) is None && emits(
                    *old(ctx),
                    *old(self),
                    *final(ctx),
                    *final(self),
                    v,
                    Op::Ret,
                    seq![val],
                    0,
                ),
                Err(e) => {
                    &&& ctx_same(*old(ctx), *final(ctx))
                    &&& *final(self) == *old(self)
                    &&& emit_err(*old(ctx), *old(self), seq![val]) == Some(e)
                },
            },
    {
        let args: Vec<Value> = vec![val];
        proof {
            assert(args@ =~= seq![val]);
        }
        match self.precheck(ctx, &args) {
            Some(e) => {
                return Err(e);
            },
            None => {},
        }
        Ok(self.emit_at(ctx, Op::Ret, args, 0))
    }

    /// Builds a return without a value.
    pub fn build_ret_void(&mut self, ctx: &mut Context) -> (r: Result<Value, IrError>)
        requires
            old(ctx).wf(),
            !old(ctx).disposed,
            old(self).wf(*old(ctx)),
        ensures
            final(ctx).wf(),
            !final(ctx).disposed,
            final(ctx).id == old(ctx).id,
            final(ctx).types@ == old(ctx).types@,
            final(self).wf(*final(ctx)),
            match r {
                Ok(v) => emit_err(*old(ctx), *old(self), Seq::empty()) is None && emits(
                    *old(ctx),
                    *old(self),
                    *final(ctx),
                    *final(self),
                    v,
                    Op::RetVoid,
                    Seq::empty(),
                    0,
                ),
                Err(e) => {
                    &&& ctx_same(*old(ctx), *final(ctx))
                    &&& *final(self) == *old(self)
                    &&& emit_err(*old(ctx), *old(self), Seq::empty()) == Some(e)
                },
            },
    {
        let args: Vec<Value> = Vec::new();
        proof {
            assert(args@ =~= Seq::<Value>::empty());
        }
        match self.precheck(ctx, &args) {
            Some(e) => {
                return Err(e);
            },
            None => {},
        }
        Ok(self.emit_at(ctx, Op::RetVoid, args, 0))
    }

    /// Builds an unreachable marker.
    pub fn build_unreachable(&mut self, ctx: &mut Context) -> (r: Result<(), IrError>)
        requires
            old(ctx).wf(),
            !old(ctx).disposed,
            old(self).wf(*old(ctx)),
        ensures
            final(ctx).wf(),
            !final(ctx).disposed,
            final(ctx).id == old(ctx).id,
            final(ctx).types@ == old(ctx).types@,
            final(self).wf(*final(ctx)),
            match r {
                Ok(()) => emit_err(*old(ctx), *old(self), Seq::empty()) is None && emits(
                    *old(ctx),
                    *old(self),
                    *final(ctx),
                    *final(self),
                    (Value { owner: old(ctx).id, idx: old(ctx).vals@.len() as usize }),
                    Op::Unreachable,
                    Seq::empty(),
                    0,
                ),
                Err(e) => {
                    &&& ctx_same(*old(ctx), *final(ctx))
                    &&& *final(self) == *old(self)
                    &&& emit_err(*old(ctx), *old(self), Seq::empty()) == Some(e)
                },
            },
    {
        let args: Vec<Value> = Vec::new();
        proof {
            assert(args@ =~= Seq::<Value>::empty());
        }
        match self.precheck(ctx, &args) {
            Some(e) => {
                return Err(e);
            },
            None => {},
        }
        let _ = self.emit_at(ctx, Op::Unreachable, args, 0);
        Ok(())
    }

    /// Builds an unconditional branch to the given block.
    pub fn build_br(&mut self, ctx: &mut Context, block: BasicBlock) -> (r: Result<(), IrError>)
        requires
            old(ctx).wf(),
            !old(ctx).disposed,
            old(self).wf(*old(ctx)),
        ensures
            final(ctx).wf(),
            !final(ctx).disposed,
            final(ctx).id == old(ctx).id,
            final(ctx).types@ == old(ctx).types@,
            final(self).wf(*final(ctx)),
            match r {
                Ok(()) => emit_err(*old(ctx), *old(self), Seq::empty()) is None && crate::bb::blk_err(
                    *old(ctx),
                    block,
                ) is None && emits(
                    *old(ctx),
                    *old(self),
                    *final(ctx),
                    *final(self),
                    (Value { owner: old(ctx).id, idx: old(ctx).vals@.len() as usize }),
                    (Op::Br { dest: block.idx }),
                    Seq::empty(),
                    0,
                ),
                Err(e) => {
                    &&& ctx_same(*old(ctx), *final(ctx))
                    &&& *final(self) == *old(self)
                    &&& Some(e) == (if emit_err(*old(ctx), *old(self), Seq::empty()) is Some {
                        emit_err(*old(ctx), *old(self), Seq::empty())
                    } else {
                        crate::bb::blk_err(*old(ctx), block)
                    })
                },
            },
    {
        let args: Vec<Value> = Vec::new();
        proof {
            assert(args@ =~= Seq::<Value>::empty());
        }
        match self.precheck(ctx, &args) {
            Some(e) => {
                return Err(e);
            },
            None => {},
        }
        match block.check_live(ctx) {
            Some(e) => {
                return Err(e);
            },
            None => {},
        }
        let _ = self.emit_at(ctx, Op::Br { dest: block.idx }, args, 0);
        Ok(())
    }

    /// Builds a conditional branch on the operand to the two blocks.
    pub fn build_if(&mut self, ctx: &mut Context, condition: Value, then_block: BasicBlock, else_block: BasicBlock) -> (r: Result<(), IrError>)
        requires
            old(ctx).wf(),
            !old(ctx).disposed,
            old(self).wf(*old(ctx)),
        ensures
            final(ctx).wf(),
            !final(ctx).disposed,
            final(ctx).id == old(ctx).id,
            final(ctx).types@ == old(ctx).types@,
            final(self).wf(*final(ctx)),
            match r {
                Ok(()) => emit_err(*old(ctx), *old(self), seq![condition]) is None
                    && crate::bb::blk_err(*old(ctx), then_block) is None && crate::bb::blk_err(
                    *old(ctx),
                    else_block,
                ) is None && emits(
                    *old(ctx),
                    *old(self),
                    *final(ctx),
                    *final(self),
                    (Value { owner: old(ctx).id, idx: old(ctx).vals@.len() as usize }),
                    (Op::CondBr { then_dest: then_block.idx, else_dest: else_block.idx }),
                    seq![condition],
                    0,
                ),
                Err(e) => {
                    &&& ctx_same(*old(ctx), *final(ctx))
                    &&& *final(self) == *old(self)
                    &&& Some(e) == (if emit_err(*old(ctx), *old(self), seq![condition]) is Some {
                        emit_err(*old(ctx), *old(self), seq![condition])
                    } else if crate::bb::blk_err(*old(ctx), then_block) is Some {
                        crate::bb::blk_err(*old(ctx), then_block)
                    } else {
                        crate::bb::blk_err(*old(ctx), else_block)
                    })
                },
            },
    {
        let args: Vec<Value> = vec![condition];
        proof {
            assert(args@ =~= seq![condition]);
        }
        match self.precheck(ctx, &args) {
            Some(e) => {
                return Err(e);
            },
            None => {},
        }
        match then_block.check_live(ctx) {
            Some(e) => {
                return Err(e);
            },
            None => {},
        }
        match else_block.check_live(ctx) {
            Some(e) => {
                return Err(e);
            },
            None => {},
        }
        let _ = self.emit_at(
            ctx,
            Op::CondBr { then_dest: then_block.idx, else_dest: else_block.idx },
            args,
            0,
        );
        Ok(())
    }

    /// Builds a phi node over the given non-empty incoming list: value
    /// `k` flows in from block `k`. An empty incoming list is a
    /// programmer error, reported as `EmptyPhi`; no node is built then.
    pub fn build_phi(&mut self, ctx: &mut Context, incoming: Vec<(Value, BasicBlock)>) -> (r: Result<Value, IrError>)
        requires
            old(ctx).wf(),
            !old(ctx).disposed,
            old(self).wf(*old(ctx)),
        ensures
            final(ctx).wf(),
            !final(ctx).disposed,
            final(ctx).id == old(ctx).id,
            final(ctx).types@ == old(ctx).types@,
            final(self).wf(*final(ctx)),
            incoming@.len() == 0 ==> r == Err::<Value, IrError>(IrError::EmptyPhi),
            match r {
                Ok(v) => {
                    &&& incoming@.len() > 0
                    &&& emit_err(
                        *old(ctx),
                        *old(self),
                        incoming@.map_values(|p: (Value, BasicBlock)| p.0),
                    ) is None
                    &&& (forall|k: int|
                        0 <= k < incoming@.len() ==> crate::bb::blk_err(
                            *old(ctx),
                            (#[trigger] incoming@[k]).1,
                        ) is None)
                    &&& emits(
                        *old(ctx),
                        *old(self),
                        *final(ctx),
                        *final(self),
                        v,
                        final(ctx).val_at(v.idx as int).kind->Instr_op,
                        incoming@.map_values(|p: (Value, BasicBlock)| p.0),
                        old(ctx).val_at(incoming@[0].0.idx as int).ty as int,
                    )
                    &&& (final(ctx).val_at(v.idx as int).kind->Instr_op matches Op::Phi { preds }
                        && preds@.len() == incoming@.len() && (forall|k: int|
                        0 <= k < incoming@.len() ==> #[trigger] preds@[k] == incoming@[k].1.idx))
                },
                Err(e) => {
                    &&& ctx_same(*old(ctx), *final(ctx))
                    &&& *final(self) == *old(self)
                    &&& Some(e) == (if incoming@.len() == 0 {
                        Some(IrError::EmptyPhi)
                    } else if emit_err(
                        *old(ctx),
                        *old(self),
                        incoming@.map_values(|p: (Value, BasicBlock)| p.0),
                    ) is Some {
                        emit_err(
                            *old(ctx),
                            *old(self),
                            incoming@.map_values(|p: (Value, BasicBlock)| p.0),
                        )
                    } else {
                        Some(IrError::Stale)
                    })
                    &&& (incoming@.len() > 0 && emit_err(
                        *old(ctx),
                        *old(self),
                        incoming@.map_values(|p: (Value, BasicBlock)| p.0),
                    ) is None ==> exists|k: int|
                        0 <= k < incoming@.len() && crate::bb::blk_err(
                            *old(ctx),
                            (#[trigger] incoming@[k]).1,
                        ) is Some)
                },
            },
    {
        let n = incoming.len();
        if n == 0 {
            return Err(IrError::EmptyPhi);
        }
        let mut args: Vec<Value> = Vec::new();
        let mut preds: Vec<usize> = Vec::new();
        let mut i: usize = 0;
        while i < n
            invariant
                i <= n,
                n == incoming@.len(),
                args@.len() == i,
                preds@.len() == i,
                forall|j: int| 0 <= j < i ==> #[trigger] args@[j] == incoming@[j].0,
                forall|j: int| 0 <= j < i ==> #[trigger] preds@[j] == incoming@[j].1.idx,
            decreases n - i,
        {
            let (v, b) = incoming[i];
            args.push(v);
            preds.push(b.idx);
            i += 1;
        }
        proof {
            assert(args@ =~= incoming@.map_values(|p: (Value, BasicBlock)| p.0));
        }
        match self.precheck(ctx, &args) {
            Some(e) => {
                return Err(e);
            },
            None => {},
        }
        let mut k: usize = 0;
        while k < n
            invariant
                k <= n,
                n == incoming@.len(),
                n > 0,
                ctx_same(*old(ctx), *ctx),
                old(ctx).wf(),
                !old(ctx).disposed,
                *self == *old(self),
                old(self).wf(*old(ctx)),
                args@ == incoming@.map_values(|p: (Value, BasicBlock)| p.0),
                emit_err(*old(ctx), *old(self), args@) is None,
                forall|j: int| 0 <= j < n ==> #[trigger] args@[j].idx < old(ctx).vals@.len(),
                forall|j: int|
                    0 <= j < k ==> crate::bb::blk_err(*ctx, (#[trigger] incoming@[j]).1) is None,
            decreases n - k,
        {
            let (_, b) = incoming[k];
            match b.check_live(ctx) {
                Some(_) => {
                    proof {
                        assert(incoming@[k as int].1 == b);
                        assert(crate::bb::blk_err(*old(ctx), incoming@[k as int].1) is Some);
                    }
                    return Err(IrError::Stale);
                },
                None => {},
            }
            k += 1;
        }
        proof {
            assert(args@[0] == incoming@[0].0);
            assert(!(exists|j: int|
                0 <= j < args@.len() && !ctx.val_ok(#[trigger] args@[j])));
            assert(ctx.val_ok(args@[0]));
            assert(ctx.vd_wf(ctx.vals@[incoming@[0].0.idx as int], incoming@[0].0.idx as int));
            assert forall|j: int|
                0 <= j < preds@.len() implies #[trigger] preds@[j] < ctx.blocks@.len() by {
                assert(crate::bb::blk_err(*ctx, incoming@[j].1) is None);
            }
        }
        let rty = ctx.vals[args[0].idx].ty;
        Ok(self.emit_at(ctx, Op::Phi { preds }, args, rty))
    }

    /// Builds a multi-way branch on the first operand: case `k` compares
    /// it against the constant of case `k` and targets that case's block;
    /// the default block is taken otherwise.
    pub fn build_switch(&mut self, ctx: &mut Context, val: Value, cases: Vec<(Value, BasicBlock)>, default: BasicBlock) -> (r: Result<(), IrError>)
        requires
            old(ctx).wf(),
            !old(ctx).disposed,
            old(self).wf(*old(ctx)),
        ensures
            final(ctx).wf(),
            !final(ctx).disposed,
            final(ctx).id == old(ctx).id,
            final(ctx).types@ == old(ctx).types@,
            final(self).wf(*final(ctx)),
            match r {
                Ok(()) => {
                    &&& emit_err(
                        *old(ctx),
                        *old(self),
                        seq![val] + cases@.map_values(|p: (Value, BasicBlock)| p.0),
                    ) is None
                    &&& crate::bb::blk_err(*old(ctx), default) is None
                    &&& (forall|k: int|
                        0 <= k < cases@.len() ==> crate::bb::blk_err(
                            *old(ctx),
                            (#[trigger] cases@[k]).1,
                        ) is None)
                    &&& emits(
                        *old(ctx),
                        *old(self),
                        *final(ctx),
                        *final(self),
                        (Value { owner: old(ctx).id, idx: old(ctx).vals@.len() as usize }),
                        final(ctx).val_at(old(ctx).vals@.len() as int).kind->Instr_op,
                        seq![val] + cases@.map_values(|p: (Value, BasicBlock)| p.0),
                        0,
                    )
                    &&& (final(ctx).val_at(old(ctx).vals@.len() as int).kind->Instr_op
                        matches Op::Switch { case_blocks, default: d } && d == default.idx
                        && case_blocks@.len() == cases@.len() && (forall|k: int|
                        0 <= k < cases@.len() ==> #[trigger] case_blocks@[k] == cases@[k].1.idx))
                },
                Err(e) => {
                    &&& ctx_same(*old(ctx), *final(ctx))
                    &&& *final(self) == *old(self)
                    &&& (emit_err(
                        *old(ctx),
                        *old(self),
                        seq![val] + cases@.map_values(|p: (Value, BasicBlock)| p.0),
                    ) is Some ==> Some(e) == emit_err(
                        *old(ctx),
                        *old(self),
                        seq![val] + cases@.map_values(|p: (Value, BasicBlock)| p.0),
                    ))
                    &&& (emit_err(
                        *old(ctx),
                        *old(self),
                        seq![val] + cases@.map_values(|p: (Value, BasicBlock)| p.0),
                    ) is None && crate::bb::blk_err(*old(ctx), default) is Some ==> Some(e)
                        == crate::bb::blk_err(*old(ctx), default))
                    &&& (emit_err(
                        *old(ctx),
                        *old(self),
                        seq![val] + cases@.map_values(|p: (Value, BasicBlock)| p.0),
                    ) is None && crate::bb::blk_err(*old(ctx), default) is None ==> exists|k: int|
                        0 <= k < cases@.len() && Some(e) == crate::bb::blk_err(
                            *old(ctx),
                            (#[trigger] cases@[k]).1,
                        ) && crate::bb::blk_err(*old(ctx), cases@[k].1) is Some)
                },
            },
    {
        let n = cases.len();
        let mut args: Vec<Value> = Vec::new();
        let mut case_blocks: Vec<usize> = Vec::new();
        args.push(val);
        let mut i: usize = 0;
        while i < n
            invariant
                i <= n,
                n == cases@.len(),
                args@.len() == i + 1,
                args@[0] == val,
                case_blocks@.len() == i,
                forall|j: int| 1 <= j <= i ==> #[trigger] args@[j] == cases@[j - 1].0,
                forall|j: int| 0 <= j < i ==> #[trigger] case_blocks@[j] == cases@[j].1.idx,
            decreases n - i,
        {
            let (v, b) = cases[i];
            args.push(v);
            case_blocks.push(b.idx);
            i += 1;
        }
        proof {
            assert(args@ =~= seq![val] + cases@.map_values(|p: (Value, BasicBlock)| p.0));
        }
        match self.precheck(ctx, &args) {
            Some(e) => {
                return Err(e);
            },
            None => {},
        }
        match default.check_live(ctx) {
            Some(e) => {
                return Err(e);
            },
            None => {},
        }
        let mut k: usize = 0;
        while k < n
            invariant
                k <= n,
                n == cases@.len(),
                ctx_same(*old(ctx), *ctx),
                old(ctx).wf(),
                !old(ctx).disposed,
                *self == *old(self),
                old(self).wf(*old(ctx)),
                args@ == seq![val] + cases@.map_values(|p: (Value, BasicBlock)| p.0),
                case_blocks@.len() == n,
                forall|j: int| 0 <= j < n ==> #[trigger] case_blocks@[j] == cases@[j].1.idx,
                emit_err(*old(ctx), *old(self), args@) is None,
                crate::bb::blk_err(*old(ctx), default) is None,
                forall|j: int| 0 <= j < n + 1 ==> #[trigger] args@[j].idx < old(ctx).vals@.len(),
                forall|j: int|
                    0 <= j < k ==> crate::bb::blk_err(*ctx, (#[trigger] cases@[j]).1) is None,
            decreases n - k,
        {
            let (_, b) = cases[k];
            match b.check_live(ctx) {
                Some(e) => {
                    proof {
                        assert(cases@[k as int].1 == b);
                        assert(Some(e) == crate::bb::blk_err(*old(ctx), cases@[k as int].1));
                    }
                    return Err(e);
                },
                None => {},
            }
            k += 1;
        }
        proof {
            assert forall|j: int|
                0 <= j < case_blocks@.len() implies #[trigger] case_blocks@[j]
                < ctx.blocks@.len() by {
                assert(crate::bb::blk_err(*ctx, cases@[j].1) is None);
            }
        }
        let _ = self.emit_at(ctx, Op::Switch { case_blocks, default: default.idx }, args, 0);
        Ok(())
    }

    /// Builds an element-pointer computation from the base pointer and
    /// the index list; the result points at the type the indices reach.
    pub fn build_gep(&mut self, ctx: &mut Context, ptr: Value, indices: Vec<Value>) -> (r: Result<Value, IrError>)
        requires
            old(ctx).wf(),
            !old(ctx).disposed,
            old(self).wf(*old(ctx)),
        ensures
            final(ctx).wf(),
            !final(ctx).disposed,
            final(ctx).id == old(ctx).id,
            old(ctx).types@.len() <= final(ctx).types@.len(),
            (forall|j: int|
                0 <= j < old(ctx).types@.len() ==> final(ctx).types@[j] == old(ctx).types@[j]),
            final(self).wf(*final(ctx)),
            match r {
                Ok(v) => {
                    &&& emit_err(*old(ctx), *old(self), seq![ptr] + indices@) is None
                    &&& old(ctx).ty_at(old(ctx).val_at(ptr.idx as int).ty as int) is Ptr
                    &&& (indices@.len() > 0 ==> {
                        let dest = gep_ty(
                            *old(ctx),
                            old(ctx).ty_at(
                                old(ctx).val_at(ptr.idx as int).ty as int,
                            )->Ptr_elem as int,
                            indices@,
                            1,
                        );
                        dest is Some && final(ctx).ty_at(final(ctx).val_at(v.idx as int).ty as int)
                            == (TypeData::Ptr { elem: dest->Some_0 as usize })
                    })
                    &&& (indices@.len() == 0 ==> final(ctx).val_at(v.idx as int).ty == old(
                        ctx,
                    ).val_at(ptr.idx as int).ty)
                    &&& emits(
                        *old(ctx),
                        *old(self),
                        *final(ctx),
                        *final(self),
                        v,
                        Op::Gep,
                        seq![ptr] + indices@,
                        final(ctx).val_at(v.idx as int).ty as int,
                    )
                },
                Err(e) => {
                    &&& ctx_same(*old(ctx), *final(ctx))
                    &&& *final(self) == *old(self)
                    &&& Some(e) == (if emit_err(*old(ctx), *old(self), seq![ptr] + indices@)
                        is Some {
                        emit_err(*old(ctx), *old(self), seq![ptr] + indices@)
                    } else {
                        Some(IrError::TypeUnknown)
                    })
                    &&& (emit_err(*old(ctx), *old(self), seq![ptr] + indices@) is None ==> (!(old(
                        ctx,
                    ).ty_at(old(ctx).val_at(ptr.idx as int).ty as int) is Ptr) || (indices@.len()
                        > 0 && gep_ty(
                        *old(ctx),
                        old(ctx).ty_at(old(ctx).val_at(ptr.idx as int).ty as int)->Ptr_elem as int,
                        indices@,
                        1,
                    ) is None)))
                },
            },
    {
        self.gep_common(ctx, ptr, indices, false)
    }

    /// Builds an element-pointer computation whose base and result are
    /// promised in bounds by the caller.
    pub fn build_inbounds_gep(&mut self, ctx: &mut Context, ptr: Value, indices: Vec<Value>) -> (r: Result<Value, IrError>)
        requires
            old(ctx).wf(),
            !old(ctx).disposed,
            old(self).wf(*old(ctx)),
        ensures
            final(ctx).wf(),
            !final(ctx).disposed,
            final(ctx).id == old(ctx).id,
            old(ctx).types@.len() <= final(ctx).types@.len(),
            (forall|j: int|
                0 <= j < old(ctx).types@.len() ==> final(ctx).types@[j] == old(ctx).types@[j]),
            final(self).wf(*final(ctx)),
            match r {
                Ok(v) => {
                    &&& emit_err(*old(ctx), *old(self), seq![ptr] + indices@) is None
                    &&& old(ctx).ty_at(old(ctx).val_at(ptr.idx as int).ty as int) is Ptr
                    &&& (final(ctx).val_at(v.idx as int).kind matches ValKind::Instr { op, .. }
                        && op is InboundsGep)
                    &&& emits(
                        *old(ctx),
                        *old(self),
                        *final(ctx),
                        *final(self),
                        v,
                        Op::InboundsGep,
                        seq![ptr] + indices@,
                        final(ctx).val_at(v.idx as int).ty as int,
                    )
                },
                Err(e) => {
                    &&& ctx_same(*old(ctx), *final(ctx))
                    &&& *final(self) == *old(self)
                    &&& Some(e) == (if emit_err(*old(ctx), *old(self), seq![ptr] + indices@)
                        is Some {
                        emit_err(*old(ctx), *old(self), seq![ptr] + indices@)
                    } else {
                        Some(IrError::TypeUnknown)
                    })
                    &&& (emit_err(*old(ctx), *old(self), seq![ptr] + indices@) is None ==> (!(old(
                        ctx,
                    ).ty_at(old(ctx).val_at(ptr.idx as int).ty as int) is Ptr) || (indices@.len()
                        > 0 && gep_ty(
                        *old(ctx),
                        old(ctx).ty_at(old(ctx).val_at(ptr.idx as int).ty as int)->Ptr_elem as int,
                        indices@,
                        1,
                    ) is None)))
                },
            },
    {
        self.gep_common(ctx, ptr, indices, true)
    }

    /// The shared body of the two element-pointer builders.
    fn gep_common(&mut self, ctx: &mut Context, ptr: Value, indices: Vec<Value>, inbounds: bool) -> (r: Result<Value, IrError>)
        requires
            old(ctx).wf(),
            !old(ctx).disposed,
            old(self).wf(*old(ctx)),
        ensures
            final(ctx).wf(),
            !final(ctx).disposed,
            final(ctx).id == old(ctx).id,
            old(ctx).types@.len() <= final(ctx).types@.len(),
            (forall|j: int|
                0 <= j < old(ctx).types@.len() ==> final(ctx).types@[j] == old(ctx).types@[j]),
            final(self).wf(*final(ctx)),
            match r {
                Ok(v) => {
                    &&& emit_err(*old(ctx), *old(self), seq![ptr] + indices@) is None
                    &&& old(ctx).ty_at(old(ctx).val_at(ptr.idx as int).ty as int) is Ptr
                    &&& (indices@.len() > 0 ==> {
                        let dest = gep_ty(
                            *old(ctx),
                            old(ctx).ty_at(
                                old(ctx).val_at(ptr.idx as int).ty as int,
                            )->Ptr_elem as int,
                            indices@,
                            1,
                        );
                        dest is Some && final(ctx).ty_at(final(ctx).val_at(v.idx as int).ty as int)
                            == (TypeData::Ptr { elem: dest->Some_0 as usize })
                    })
                    &&& (indices@.len() == 0 ==> final(ctx).val_at(v.idx as int).ty == old(
                        ctx,
                    ).val_at(ptr.idx as int).ty)
                    &&& (final(ctx).val_at(v.idx as int).kind matches ValKind::Instr { op, .. }
                        && (if inbounds {
                        op is InboundsGep
                    } else {
                        op is Gep
                    }))
                    &&& emits(
                        *old(ctx),
                        *old(self),
                        *final(ctx),
                        *final(self),
                        v,
                        if inbounds {
                            Op::InboundsGep
                        } else {
                            Op::Gep
                        },
                        seq![ptr] + indices@,
                        final(ctx).val_at(v.idx as int).ty as int,
                    )
                },
                Err(e) => {
                    &&& ctx_same(*old(ctx), *final(ctx))
                    &&& *final(self) == *old(self)
                    &&& Some(e) == (if emit_err(*old(ctx), *old(self), seq![ptr] + indices@)
                        is Some {
                        emit_err(*old(ctx), *old(self), seq![ptr] + indices@)
                    } else {
                        Some(IrError::TypeUnknown)
                    })
                    &&& (emit_err(*old(ctx), *old(self), seq![ptr] + indices@) is None ==> (!(old(
                        ctx,
                    ).ty_at(old(ctx).val_at(ptr.idx as int).ty as int) is Ptr) || (indices@.len()
                        > 0 && gep_ty(
                        *old(ctx),
                        old(ctx).ty_at(old(ctx).val_at(ptr.idx as int).ty as int)->Ptr_elem as int,
                        indices@,
                        1,
                    ) is None)))
                },
            },
    {
        let n = indices.len();
        let mut args: Vec<Value> = Vec::new();
        args.push(ptr);
        let mut i: usize = 0;
        while i < n
            invariant
                i <= n,
                n == indices@.len(),
                args@.len() == i + 1,
                args@[0] == ptr,
                forall|j: int| 1 <= j <= i ==> #[trigger] args@[j] == indices@[j - 1],
            decreases n - i,
        {
            args.push(indices[i]);
            i += 1;
        }
        proof {
            assert(args@ =~= seq![ptr] + indices@);
        }
        match self.precheck(ctx, &args) {
            Some(e) => {
                return Err(e);
            },
            None => {},
        }
        proof {
            assert(ctx.vd_wf(ctx.vals@[ptr.idx as int], ptr.idx as int));
            assert(ctx.ty_wf_at(ctx.vals@[ptr.idx as int].ty as int));
        }
        let pt = ctx.vals[ptr.idx].ty;
        let elem0 = match &ctx.types[pt] {
            TypeData::Ptr { elem } => *elem,
            _ => {
                return Err(IrError::TypeUnknown);
            },
        };
        if n == 0 {
            let op = if inbounds {
                Op::InboundsGep
            } else {
                Op::Gep
            };
            return Ok(self.emit_at(ctx, op, args, pt));
        }
        let mut cur = elem0;
        proof {
            assert forall|j: int| 0 <= j < n implies ctx.val_ok(#[trigger] indices@[j]) by {
                assert(args@[j + 1] == indices@[j]);
                assert(!(exists|m: int|
                    0 <= m < args@.len() && !ctx.val_ok(#[trigger] args@[m])));
                assert(ctx.val_ok(args@[j + 1]));
            }
        }
        let mut k: usize = 1;
        while k < n
            invariant
                1 <= k <= n,
                n == indices@.len(),
                ctx.wf(),
                !ctx.disposed,
                *ctx == *old(ctx),
                ctx_same(*old(ctx), *ctx),
                old(ctx).wf(),
                !old(ctx).disposed,
                *self == *old(self),
                old(self).wf(*old(ctx)),
                args@ == seq![ptr] + indices@,
                emit_err(*old(ctx), *old(self), args@) is None,
                old(ctx).val_ok(ptr),
                pt == old(ctx).val_at(ptr.idx as int).ty,
                old(ctx).ty_at(pt as int) == (TypeData::Ptr { elem: elem0 }),
                cur < ctx.types@.len(),
                gep_ty(*ctx, elem0 as int, indices@, 1) == gep_ty(*ctx, cur as int, indices@, k as int),
                forall|j: int| 0 <= j < n ==> ctx.val_ok(#[trigger] indices@[j]),
            decreases n - k,
        {
            proof {
                assert(ctx.ty_wf_at(cur as int));
            }
            let step = match &ctx.types[cur] {
                TypeData::Array { elem, .. } => *elem,
                TypeData::Struct { fields, .. } => {
                    let iv = indices[k];
                    let sel = match &ctx.vals[iv.idx].kind {
                        ValKind::ConstInt { value } => Some(*value),
                        _ => None,
                    };
                    let flen = fields.len();
                    match sel {
                        Some(value) => {
                            if value <= usize::MAX as u64 && (value as usize) < flen {
                                fields[value as usize]
                            } else {
                                proof {
                                    assert(gep_ty(*ctx, cur as int, indices@, k as int) is None);
                                }
                                return Err(IrError::TypeUnknown);
                            }
                        },
                        None => {
                            proof {
                                assert(gep_ty(*ctx, cur as int, indices@, k as int) is None);
                            }
                            return Err(IrError::TypeUnknown);
                        },
                    }
                },
                TypeData::Named { fields, opaque, .. } => {
                    if *opaque {
                        proof {
                            assert(gep_ty(*ctx, cur as int, indices@, k as int) is None);
                        }
                        return Err(IrError::TypeUnknown);
                    }
                    let iv = indices[k];
                    let sel = match &ctx.vals[iv.idx].kind {
                        ValKind::ConstInt { value } => Some(*value),
                        _ => None,
                    };
                    let flen = fields.len();
                    match sel {
                        Some(value) => {
                            if value <= usize::MAX as u64 && (value as usize) < flen {
                                fields[value as usize]
                            } else {
                                proof {
                                    assert(gep_ty(*ctx, cur as int, indices@, k as int) is None);
                                }
                                return Err(IrError::TypeUnknown);
                            }
                        },
                        None => {
                            proof {
                                assert(gep_ty(*ctx, cur as int, indices@, k as int) is None);
                            }
                            return Err(IrError::TypeUnknown);
                        },
                    }
                },
                _ => {
                    proof {
                        assert(gep_ty(*ctx, cur as int, indices@, k as int) is None);
                    }
                    return Err(IrError::TypeUnknown);
                },
            };
            cur = step;
            k += 1;
        }
        proof {
            assert(gep_ty(*ctx, elem0 as int, indices@, 1) == Some(cur as int));
        }
        let pty = ctx.intern(TypeData::Ptr { elem: cur });
        proof {
            assert(ctx.ty_at(pty.idx as int) == (TypeData::Ptr { elem: cur }));
            assert(emit_err(*ctx, *self, args@) is None);
        }
        let op = if inbounds {
            Op::InboundsGep
        } else {
            Op::Gep
        };
        Ok(self.emit_at(ctx, op, args, pty.idx))
    }

    /// Builds a pointer to the field at the given position of the struct
    /// the operand points at.
    pub fn build_struct_gep(&mut self, ctx: &mut Context, ptr: Value, index: u32) -> (r: Result<Value, IrError>)
        requires
            old(ctx).wf(),
            !old(ctx).disposed,
            old(self).wf(*old(ctx)),
        ensures
            final(ctx).wf(),
            !final(ctx).disposed,
            final(ctx).id == old(ctx).id,
            old(ctx).types@.len() <= final(ctx).types@.len(),
            (forall|j: int|
                0 <= j < old(ctx).types@.len() ==> final(ctx).types@[j] == old(ctx).types@[j]),
            final(self).wf(*final(ctx)),
            match r {
                Ok(v) => {
                    &&& emit_err(*old(ctx), *old(self), seq![ptr]) is None
                    &&& old(ctx).ty_at(old(ctx).val_at(ptr.idx as int).ty as int) is Ptr
                    &&& extract_ty(
                        *old(ctx),
                        old(ctx).ty_at(old(ctx).val_at(ptr.idx as int).ty as int)->Ptr_elem as int,
                        index as int,
                    ) is Some
                    &&& final(ctx).ty_at(final(ctx).val_at(v.idx as int).ty as int)
                        == (TypeData::Ptr {
                        elem: extract_ty(
                            *old(ctx),
                            old(ctx).ty_at(
                                old(ctx).val_at(ptr.idx as int).ty as int,
                            )->Ptr_elem as int,
                            index as int,
                        )->Some_0 as usize,
                    })
                    &&& emits(
                        *old(ctx),
                        *old(self),
                        *final(ctx),
                        *final(self),
                        v,
                        Op::Gep,
                        seq![ptr],
                        final(ctx).val_at(v.idx as int).ty as int,
                    )
                },
                Err(e) => {
                    &&& ctx_same(*old(ctx), *final(ctx))
                    &&& *final(self) == *old(self)
                    &&& Some(e) == (if emit_err(*old(ctx), *old(self), seq![ptr]) is Some {
                        emit_err(*old(ctx), *old(self), seq![ptr])
                    } else {
                        Some(IrError::TypeUnknown)
                    })
                    &&& (emit_err(*old(ctx), *old(self), seq![ptr]) is None ==> (!(old(ctx).ty_at(
                        old(ctx).val_at(ptr.idx as int).ty as int,
                    ) is Ptr) || extract_ty(
                        *old(ctx),
                        old(ctx).ty_at(old(ctx).val_at(ptr.idx as int).ty as int)->Ptr_elem as int,
                        index as int,
                    ) is None))
                },
            },
    {
        let args: Vec<Value> = vec![ptr];
        proof {
            assert(args@ =~= seq![ptr]);
        }
        match self.precheck(ctx, &args) {
            Some(e) => {
                return Err(e);
            },
            None => {},
        }
        proof {
            assert(ctx.vd_wf(ctx.vals@[ptr.idx as int], ptr.idx as int));
            assert(ctx.ty_wf_at(ctx.vals@[ptr.idx as int].ty as int));
        }
        let pt = ctx.vals[ptr.idx].ty;
        let elem0 = match &ctx.types[pt] {
            TypeData::Ptr { elem } => *elem,
            _ => {
                return Err(IrError::TypeUnknown);
            },
        };
        proof {
            assert(ctx.ty_wf_at(elem0 as int));
        }
        let field = match &ctx.types[elem0] {
            TypeData::Array { elem, .. } => *elem,
            TypeData::Struct { fields, .. } => {
                let i = index as usize;
                if i < fields.len() {
                    fields[i]
                } else {
                    return Err(IrError::TypeUnknown);
                }
            },
            TypeData::Named { fields, opaque, .. } => {
                let i = index as usize;
                if !*opaque && i < fields.len() {
                    fields[i]
                } else {
                    return Err(IrError::TypeUnknown);
                }
            },
            _ => {
                return Err(IrError::TypeUnknown);
            },
        };
        let pty = ctx.intern(TypeData::Ptr { elem: field });
        proof {
            assert(ctx.ty_at(pty.idx as int) == (TypeData::Ptr { elem: field }));
            assert(emit_err(*ctx, *self, args@) is None);
        }
        Ok(self.emit_at(ctx, Op::Gep, args, pty.idx))
    }

    /// Creates a constant global holding the given characters with a
    /// terminating NUL, declared under `name` in the module that owns the
    /// cursor's block: a private, constant, address-insignificant global
    /// initialized with the fresh string constant. No instruction is
    /// emitted and the cursor does not move. The module's same-name
    /// policy applies: a name already declared reuses that declaration,
    /// which is then repointed at the fresh string.
    #[verifier::rlimit(100)]
    pub fn build_global_string(&self, ctx: &mut Context, name: &str, string: &str) -> (r: Result<
        Value,
        IrError,
    >)
        requires
            old(ctx).wf(),
            !old(ctx).disposed,
            self.wf(*old(ctx)),
            string@.len() < 0xffff_ffffu32,
        ensures
            final(ctx).wf(),
            !final(ctx).disposed,
            final(ctx).id == old(ctx).id,
            match r {
                Ok(g) => global_string_post(*old(ctx), *self, *final(ctx), g, name@, string@),
                Err(e) => {
                    &&& ctx_same(*old(ctx), *final(ctx))
                    &&& Some(e) == (if !crate::context::valid_name(name@) {
                        Some(IrError::InvalidName)
                    } else {
                        emit_err(*old(ctx), *self, Seq::empty())
                    })
                },
            },
    {
        if !crate::context::name_ok(name) {
            return Err(IrError::InvalidName);
        }
        let args: Vec<Value> = Vec::new();
        proof {
            assert(args@ =~= Seq::<Value>::empty());
        }
        match self.precheck(ctx, &args) {
            Some(e) => {
                return Err(e);
            },
            None => {},
        }
        let (blk, _at) = match self.cursor {
            Some(c) => c,
            None => (0, 0),
        };
        proof {
            assert(ctx.blk_wf_at(blk as int));
        }
        let fidx = ctx.blocks[blk].func;
        proof {
            assert(ctx.vd_wf(ctx.vals@[fidx as int], fidx as int));
        }
        let mi = match &ctx.vals[fidx].kind {
            ValKind::Func { module, .. } => *module,
            _ => 0,
        };
        let cs = ctx.vals.len();
        let cstr = crate::context::const_string(ctx, string, true);
        let ghost c1 = *ctx;
        proof {
            assert(ctx.vd_wf(ctx.vals@[cstr.idx as int], cstr.idx as int));
        }
        let aty = Type { owner: ctx.id, idx: ctx.vals[cstr.idx].ty };
        let m = Module { owner: ctx.id, idx: mi };
        proof {
            assert(old(ctx).vd_wf(old(ctx).vals@[fidx as int], fidx as int));
            assert(c1.modules@ == old(ctx).modules@);
            assert(ctx.mod_ok(m));
            assert(ctx.ty_ok(aty));
            assert(old(ctx).mod_wf_at(mi as int));
            assert(c1.mod_at(mi as int).globals@ == old(ctx).mod_at(mi as int).globals@);
            assert forall|k: int|
                0 <= k < c1.mod_at(mi as int).globals@.len() implies c1.v_name(
                #[trigger] c1.mod_at(mi as int).globals@[k] as int,
            ) == old(ctx).v_name(old(ctx).mod_at(mi as int).globals@[k] as int) by {
                assert(old(ctx).mod_at(mi as int).globals@[k] < old(ctx).vals@.len());
                assert(c1.vals@[old(ctx).mod_at(mi as int).globals@[k] as int] == old(
                    ctx,
                ).vals@[old(ctx).mod_at(mi as int).globals@[k] as int]);
            }
            assert(c1.list_has_named(c1.mod_at(mi as int).globals@, name@) == old(
                ctx,
            ).list_has_named(old(ctx).mod_at(mi as int).globals@, name@));
        }
        let g = match m.add_global(ctx, name, aty) {
            Ok(g) => g,
            Err(_) => {
                proof {
                    assert(false);
                }
                return Err(IrError::CrossContext);
            },
        };
        let ghost c2 = *ctx;
        proof {
            if c1.list_has_named(c1.mod_at(mi as int).globals@, name@) {
                let k = choose|k: int|
                    0 <= k < c1.mod_at(mi as int).globals@.len() && #[trigger] c1.mod_at(
                        mi as int,
                    ).globals@[k] == g.idx;
                assert(c1.mod_wf_at(mi as int));
                assert(old(ctx).mod_wf_at(mi as int));
                assert(old(ctx).mod_at(mi as int).globals@[k] == g.idx);
                assert(g.idx < old(ctx).vals@.len());
                assert(c2.val_at(g.idx as int).kind is Global);
                assert(!c2.val_at(g.idx as int).kind->Global_dead);
                assert(c2.val_at(g.idx as int).kind->Global_module == mi);
            }
            assert(crate::val::global_err(c2, g) is None);
            assert(c2.val_ok(cstr));
        }
        match g.set_global_initializer(ctx, cstr) {
            Ok(_) => {},
            Err(_) => {
                proof {
                    assert(false);
                }
                return Err(IrError::Stale);
            },
        }
        let ghost c3 = *ctx;
        match g.set_linkage(ctx, Linkage::Private) {
            Ok(_) => {},
            Err(_) => {
                proof {
                    assert(crate::val::global_err(c3, g) is None);
                    assert(false);
                }
                return Err(IrError::Stale);
            },
        }
        let ghost c4 = *ctx;
        match g.set_global_const(ctx, true) {
            Ok(_) => {},
            Err(_) => {
                proof {
                    assert(crate::val::global_err(c4, g) is None);
                    assert(false);
                }
                return Err(IrError::Stale);
            },
        }
        let ghost c5 = *ctx;
        match g.set_unnamed_addr(ctx, true) {
            Ok(_) => {},
            Err(_) => {
                proof {
                    assert(crate::val::global_err(c5, g) is None);
                    assert(false);
                }
                return Err(IrError::Stale);
            },
        }
        proof {
            assert(g.idx != cs);
            assert(ctx.blocks@ == old(ctx).blocks@);
            assert forall|j: int|
                0 <= j < cs && j != g.idx implies ctx.vals@[j] == old(ctx).vals@[j] by {
                assert(c1.vals@[j] == old(ctx).vals@[j]);
                assert(c2.vals@[j] == c1.vals@[j]);
                assert(c3.vals@[j] == c2.vals@[j]);
                assert(c4.vals@[j] == c3.vals@[j]);
                assert(c5.vals@[j] == c4.vals@[j]);
                assert(ctx.vals@[j] == c5.vals@[j]);
            }
            assert(ctx.vals@[cs as int] == c1.vals@[cs as int]);
            assert forall|j: int|
                0 <= j < old(ctx).types@.len() implies ctx.types@[j] == old(ctx).types@[j] by {
                assert(c1.types@[j] == old(ctx).types@[j]);
                assert(c2.types@[j] == c1.types@[j]);
            }
            assert(ctx.ty_at(c1.vals@[cs as int].ty as int) == c1.ty_at(
                c1.vals@[cs as int].ty as int,
            ));
            assert(ctx.v_name(g.idx as int) == c2.v_name(g.idx as int));
            assert(ctx.vals@[g.idx as int].ty == c2.vals@[g.idx as int].ty);
            if !c1.list_has_named(c1.mod_at(mi as int).globals@, name@) {
                assert(ctx.mod_at(mi as int).globals@ == old(ctx).mod_at(
                    mi as int,
                ).globals@.push((cs + 1) as usize));
                assert(c2.ty_at(c2.vals@[g.idx as int].ty as int) == (TypeData::Ptr {
                    elem: aty.idx,
                }));
                assert(ctx.ty_at(ctx.vals@[g.idx as int].ty as int) == (TypeData::Ptr {
                    elem: aty.idx,
                }));
                assert(ctx.ty_at(aty.idx as int) == (TypeData::Array {
                    elem: 2usize,
                    count: (string@.len() + 1) as u32,
                }));
            }
            assert(global_string_post(*old(ctx), *self, *ctx, g, name@, string@));
        }
        Ok(g)
    }

    /// Creates a constant global string as [`Builder::build_global_string`]
    /// does, then builds a cast of the global to the 8-bit-integer pointer
    /// type at the cursor: the result points at the string's first
    /// character.
    #[verifier::rlimit(100)]
    pub fn build_global_string_ptr(&mut self, ctx: &mut Context, name: &str, string: &str) -> (r:
        Result<Value, IrError>)
        requires
            old(ctx).wf(),
            !old(ctx).disposed,
            old(self).wf(*old(ctx)),
            string@.len() < 0xffff_ffffu32,
        ensures
            final(ctx).wf(),
            !final(ctx).disposed,
            final(ctx).id == old(ctx).id,
            final(self).owner == old(self).owner,
            final(self).wf(*final(ctx)),
            match r {
                Ok(v) => ({
                    let blk = old(self).cursor->Some_0.0 as int;
                    let at = old(self).cursor->Some_0.1 as int;
                    let mi = old(ctx).val_at(
                        old(ctx).blk_at(blk).func as int,
                    ).kind->Func_module as int;
                    let cs = old(ctx).vals@.len() as int;
                    &&& emit_err(*old(ctx), *old(self), Seq::empty()) is None
                    &&& crate::context::valid_name(name@)
                    &&& (final(ctx).vals@[cs].kind matches ValKind::ConstString { text, nul }
                        && text@ == string@ && nul)
                    &&& final(ctx).blk_at(blk).instrs@ == old(ctx).blk_at(blk).instrs@.insert(
                        at,
                        v.idx as usize,
                    )
                    &&& final(self).cursor == Some(
                        (old(self).cursor->Some_0.0, (at + 1) as usize),
                    )
                    &&& final(ctx).ty_at(final(ctx).val_at(v.idx as int).ty as int)
                        == (TypeData::Ptr { elem: 2usize })
                    &&& (final(ctx).val_at(v.idx as int).kind matches ValKind::Instr {
                        block,
                        op,
                        args,
                        ..
                    } && block == blk && op is PointerCast && args@.len() == 1
                        && final(ctx).val_at(args@[0] as int).kind is Global
                        && final(ctx).v_name(args@[0] as int) == name@)
                    &&& (!old(ctx).list_has_named(old(ctx).mod_at(mi).globals@, name@) ==> {
                        &&& v.idx == cs + 2
                        &&& final(ctx).vals@.len() == cs + 3
                        &&& final(ctx).v_name(cs + 1) == name@
                        &&& (final(ctx).vals@[cs + 1].kind matches ValKind::Global {
                            module,
                            init,
                            linkage,
                            is_const,
                            unnamed_addr,
                            ..
                        } && module == mi && init == Some(cs as usize) && linkage
                            == Linkage::Private && is_const && unnamed_addr)
                        &&& final(ctx).mod_at(mi).globals@ == old(ctx).mod_at(
                            mi,
                        ).globals@.push((cs + 1) as usize)
                        &&& (final(ctx).val_at(v.idx as int).kind->Instr_args@ == seq![
                            (cs + 1) as usize,
                        ])
                    })
                    &&& (old(ctx).list_has_named(old(ctx).mod_at(mi).globals@, name@) ==> {
                        &&& v.idx == cs + 1
                        &&& final(ctx).vals@.len() == cs + 2
                        &&& final(ctx).modules@ == old(ctx).modules@
                    })
                }),
                Err(e) => {
                    &&& ctx_same(*old(ctx), *final(ctx))
                    &&& *final(self) == *old(self)
                    &&& Some(e) == (if !crate::context::valid_name(name@) {
                        Some(IrError::InvalidName)
                    } else {
                        emit_err(*old(ctx), *old(self), Seq::empty())
                    })
                },
            },
    {
        let g = match self.build_global_string(ctx, name, string) {
            Ok(g) => g,
            Err(e) => {
                return Err(e);
            },
        };
        let ghost ca = *ctx;
        let ghost cs = old(ctx).vals@.len() as int;
        let i8t = crate::types::ty_i8(ctx);
        let pty = i8t.pointer(ctx);
        let ghost cb = *ctx;
        proof {
            let blk = old(self).cursor->Some_0.0 as int;
            let fidx = old(ctx).blk_at(blk).func as int;
            let mi = old(ctx).val_at(fidx).kind->Func_module as int;
            assert(old(ctx).blk_wf_at(blk));
            assert(old(ctx).vals@[fidx].kind is Func);
            assert(fidx < cs);
            assert(cb.vals@ == ca.vals@);
            assert(ca.vals@[fidx as int].kind is Func) by {
                if fidx == g.idx {
                    if old(ctx).list_has_named(old(ctx).mod_at(mi).globals@, name@) {
                        let k = choose|k: int|
                            0 <= k < old(ctx).mod_at(mi).globals@.len() && #[trigger] old(
                                ctx,
                            ).mod_at(mi).globals@[k] == g.idx;
                        assert(old(ctx).mod_wf_at(mi));
                        assert(old(ctx).vals@[g.idx as int].kind is Global);
                        assert(false);
                    } else {
                        assert(g.idx == cs + 1);
                        assert(false);
                    }
                } else {
                    assert(ca.vals@[fidx as int] == old(ctx).vals@[fidx as int]);
                }
            }
            assert(cb.blk_live_at(blk));
            assert(cb.val_ok(g));
            assert(cb.val_live_at(g.idx as int)) by {
                assert(ca.val_live_at(g.idx as int));
            }
            let a2: Seq<Value> = seq![g];
            assert forall|m: int|
                0 <= m < a2.len() implies cb.val_ok(#[trigger] a2[m]) && cb.val_live_at(
                a2[m].idx as int,
            ) by {}
            assert(self.wf(cb));
            assert(emit_err(cb, *self, seq![g]) is None);
            assert(cb.ty_ok(pty));
            assert(cb.ty_at(pty.idx as int) == (TypeData::Ptr { elem: 2usize }));
        }
        let v = match self.build_pointer_cast(ctx, g, pty) {
            Ok(v) => v,
            Err(_) => {
                proof {
                    assert(false);
                }
                return Err(IrError::Stale);
            },
        };
        proof {
            let blk = old(self).cursor->Some_0.0 as int;
            let at = old(self).cursor->Some_0.1 as int;
            let mi = old(ctx).val_at(old(ctx).blk_at(blk).func as int).kind->Func_module as int;
            assert(ctx.vals@[cs] == cb.vals@[cs as int]);
            assert(ctx.vals@[g.idx as int] == cb.vals@[g.idx as int]);
            assert(ctx.v_name(g.idx as int) == cb.v_name(g.idx as int));
            assert(ctx.blk_at(blk).instrs@ == cb.blk_at(blk).instrs@.insert(at, v.idx as usize));
            assert(cb.blk_at(blk).instrs@ == old(ctx).blk_at(blk).instrs@);
            assert(ctx.ty_at(ctx.val_at(v.idx as int).ty as int) == cb.ty_at(pty.idx as int));
            assert(ctx.val_at(v.idx as int).kind->Instr_args@ =~= seq![g.idx]);
            if !old(ctx).list_has_named(old(ctx).mod_at(mi).globals@, name@) {
                assert(ctx.modules@ == cb.modules@);
                assert(cb.mod_at(mi).globals@ == old(ctx).mod_at(mi).globals@.push(
                    (cs + 1) as usize,
                ));
                assert(ctx.vals@[(cs + 1) as int] == cb.vals@[(cs + 1) as int]);
                assert(ctx.v_name((cs + 1) as int) == cb.v_name((cs + 1) as int));
            } else {
                assert(ctx.modules@ == cb.modules@);
                assert(cb.modules@ == old(ctx).modules@);
            }
        }
        Ok(v)
    }

    /// Builds a stack allocation of one element of the given type; the
    /// result points at the allocation.
    pub fn build_alloca(&mut self, ctx: &mut Context, ty: Type) -> (r: Result<Value, IrError>)
        requires
            old(ctx).wf(),
            !old(ctx).disposed,
            old(self).wf(*old(ctx)),
        ensures
            final(ctx).wf(),
            !final(ctx).disposed,
            final(ctx).id == old(ctx).id,
            old(ctx).types@.len() <= final(ctx).types@.len(),
            (forall|j: int|
                0 <= j < old(ctx).types@.len() ==> final(ctx).types@[j] == old(ctx).types@[j]),
            final(self).wf(*final(ctx)),
            match r {
                Ok(v) => {
                    &&& emit_err(*old(ctx), *old(self), Seq::empty()) is None
                    &&& old(ctx).ty_ok(ty)
                    &&& (final(ctx).ty_at(final(ctx).val_at(v.idx as int).ty as int)
                        == (TypeData::Ptr { elem: ty.idx }))
                    &&& emits(
                        *old(ctx),
                        *old(self),
                        *final(ctx),
                        *final(self),
                        v,
                        Op::Alloca,
                        Seq::empty(),
                        final(ctx).val_at(v.idx as int).ty as int,
                    )
                },
                Err(e) => {
                    &&& ctx_same(*old(ctx), *final(ctx))
                    &&& *final(self) == *old(self)
                    &&& Some(e) == (if emit_err(*old(ctx), *old(self), Seq::empty()) is Some {
                        emit_err(*old(ctx), *old(self), Seq::empty())
                    } else {
                        Some(IrError::CrossContext)
                    })
                    &&& (emit_err(*old(ctx), *old(self), Seq::empty()) is None ==> !old(
                        ctx,
                    ).ty_ok(ty))
                },
            },
    {
        let args: Vec<Value> = Vec::new();
        proof {
            assert(args@ =~= Seq::<Value>::empty());
        }
        match self.precheck(ctx, &args) {
            Some(e) => {
                return Err(e);
            },
            None => {},
        }
        if ty.owner != ctx.id || ty.idx >= ctx.types.len() {
            return Err(IrError::CrossContext);
        }
        let pty = ctx.intern(TypeData::Ptr { elem: ty.idx });
        proof {
            assert(ctx.ty_at(pty.idx as int) == (TypeData::Ptr { elem: ty.idx }));
            assert(emit_err(*ctx, *self, args@) is None);
        }
        Ok(self.emit_at(ctx, Op::Alloca, args, pty.idx))
    }

    /// Builds a heap allocation of one element of the given type; the
    /// result points at the allocation.
    pub fn build_malloc(&mut self, ctx: &mut Context, ty: Type) -> (r: Result<Value, IrError>)
        requires
            old(ctx).wf(),
            !old(ctx).disposed,
            old(self).wf(*old(ctx)),
        ensures
            final(ctx).wf(),
            !final(ctx).disposed,
            final(ctx).id == old(ctx).id,
            old(ctx).types@.len() <= final(ctx).types@.len(),
            (forall|j: int|
                0 <= j < old(ctx).types@.len() ==> final(ctx).types@[j] == old(ctx).types@[j]),
            final(self).wf(*final(ctx)),
            match r {
                Ok(v) => {
                    &&& emit_err(*old(ctx), *old(self), Seq::empty()) is None
                    &&& old(ctx).ty_ok(ty)
                    &&& (final(ctx).ty_at(final(ctx).val_at(v.idx as int).ty as int)
                        == (TypeData::Ptr { elem: ty.idx }))
                    &&& emits(
                        *old(ctx),
                        *old(self),
                        *final(ctx),
                        *final(self),
                        v,
                        Op::Malloc,
                        Seq::empty(),
                        final(ctx).val_at(v.idx as int).ty as int,
                    )
                },
                Err(e) => {
                    &&& ctx_same(*old(ctx), *final(ctx))
                    &&& *final(self) == *old(self)
                    &&& Some(e) == (if emit_err(*old(ctx), *old(self), Seq::empty()) is Some {
                        emit_err(*old(ctx), *old(self), Seq::empty())
                    } else {
                        Some(IrError::CrossContext)
                    })
                    &&& (emit_err(*old(ctx), *old(self), Seq::empty()) is None ==> !old(
                        ctx,
                    ).ty_ok(ty))
                },
            },
    {
        let args: Vec<Value> = Vec::new();
        proof {
            assert(args@ =~= Seq::<Value>::empty());
        }
        match self.precheck(ctx, &args) {
            Some(e) => {
                return Err(e);
            },
            None => {},
        }
        if ty.owner != ctx.id || ty.idx >= ctx.types.len() {
            return Err(IrError::CrossContext);
        }
        let pty = ctx.intern(TypeData::Ptr { elem: ty.idx });
        proof {
            assert(ctx.ty_at(pty.idx as int) == (TypeData::Ptr { elem: ty.idx }));
            assert(emit_err(*ctx, *self, args@) is None);
        }
        Ok(self.emit_at(ctx, Op::Malloc, args, pty.idx))
    }

    /// Builds a stack allocation of an array of `count` elements of the
    /// given type; the count becomes a 32-bit constant operand and the
    /// result points at the allocation.
    pub fn build_array_alloca(&mut self, ctx: &mut Context, ty: Type, count: u32) -> (r: Result<Value, IrError>)
        requires
            old(ctx).wf(),
            !old(ctx).disposed,
            old(self).wf(*old(ctx)),
        ensures
            final(ctx).wf(),
            !final(ctx).disposed,
            final(ctx).id == old(ctx).id,
            old(ctx).types@.len() <= final(ctx).types@.len(),
            (forall|j: int|
                0 <= j < old(ctx).types@.len() ==> final(ctx).types@[j] == old(ctx).types@[j]),
            final(self).wf(*final(ctx)),
            match r {
                Ok(v) => array_alloc_post(
                    *old(ctx),
                    *old(self),
                    *final(ctx),
                    *final(self),
                    v,
                    ty,
                    count,
                    false,
                ),
                Err(e) => {
                    &&& ctx_same(*old(ctx), *final(ctx))
                    &&& *final(self) == *old(self)
                    &&& Some(e) == (if emit_err(*old(ctx), *old(self), Seq::empty()) is Some {
                        emit_err(*old(ctx), *old(self), Seq::empty())
                    } else {
                        Some(IrError::CrossContext)
                    })
                    &&& (emit_err(*old(ctx), *old(self), Seq::empty()) is None ==> !old(
                        ctx,
                    ).ty_ok(ty))
                },
            },
    {
        self.array_alloc_common(ctx, ty, count, false)
    }

    /// Builds a heap allocation of an array of `count` elements of the
    /// given type; the count becomes a 32-bit constant operand and the
    /// result points at the allocation.
    pub fn build_array_malloc(&mut self, ctx: &mut Context, ty: Type, count: u32) -> (r: Result<Value, IrError>)
        requires
            old(ctx).wf(),
            !old(ctx).disposed,
            old(self).wf(*old(ctx)),
        ensures
            final(ctx).wf(),
            !final(ctx).disposed,
            final(ctx).id == old(ctx).id,
            old(ctx).types@.len() <= final(ctx).types@.len(),
            (forall|j: int|
                0 <= j < old(ctx).types@.len() ==> final(ctx).types@[j] == old(ctx).types@[j]),
            final(self).wf(*final(ctx)),
            match r {
                Ok(v) => array_alloc_post(
                    *old(ctx),
                    *old(self),
                    *final(ctx),
                    *final(self),
                    v,
                    ty,
                    count,
                    true,
                ),
                Err(e) => {
                    &&& ctx_same(*old(ctx), *final(ctx))
                    &&& *final(self) == *old(self)
                    &&& Some(e) == (if emit_err(*old(ctx), *old(self), Seq::empty()) is Some {
                        emit_err(*old(ctx), *old(self), Seq::empty())
                    } else {
                        Some(IrError::CrossContext)
                    })
                    &&& (emit_err(*old(ctx), *old(self), Seq::empty()) is None ==> !old(
                        ctx,
                    ).ty_ok(ty))
                },
            },
    {
        self.array_alloc_common(ctx, ty, count, true)
    }

    /// The shared body of the two array allocation builders.
    #[verifier::rlimit(60)]
    fn array_alloc_common(&mut self, ctx: &mut Context, ty: Type, count: u32, heap: bool) -> (r: Result<Value, IrError>)
        requires
            old(ctx).wf(),
            !old(ctx).disposed,
            old(self).wf(*old(ctx)),
        ensures
            final(ctx).wf(),
            !final(ctx).disposed,
            final(ctx).id == old(ctx).id,
            old(ctx).types@.len() <= final(ctx).types@.len(),
            (forall|j: int|
                0 <= j < old(ctx).types@.len() ==> final(ctx).types@[j] == old(ctx).types@[j]),
            final(self).wf(*final(ctx)),
            match r {
                Ok(v) => array_alloc_post(
                    *old(ctx),
                    *old(self),
                    *final(ctx),
                    *final(self),
                    v,
                    ty,
                    count,
                    heap,
                ),
                Err(e) => {
                    &&& ctx_same(*old(ctx), *final(ctx))
                    &&& *final(self) == *old(self)
                    &&& Some(e) == (if emit_err(*old(ctx), *old(self), Seq::empty()) is Some {
                        emit_err(*old(ctx), *old(self), Seq::empty())
                    } else {
                        Some(IrError::CrossContext)
                    })
                    &&& (emit_err(*old(ctx), *old(self), Seq::empty()) is None ==> !old(
                        ctx,
                    ).ty_ok(ty))
                },
            },
    {
        let noargs: Vec<Value> = Vec::new();
        proof {
            assert(noargs@ =~= Seq::<Value>::empty());
        }
        match self.precheck(ctx, &noargs) {
            Some(e) => {
                return Err(e);
            },
            None => {},
        }
        if ty.owner != ctx.id || ty.idx >= ctx.types.len() {
            return Err(IrError::CrossContext);
        }
        let i32ty = crate::types::ty_i32(ctx);
        let cnt = i32ty.const_int(ctx, count as u64);
        let ghost m0 = *ctx;
        let n_now = ctx.vals.len();
        let pty = ctx.intern(TypeData::Ptr { elem: ty.idx });
        proof {
            assert(old(ctx).vals@.len() + 1 <= usize::MAX);
            assert(ctx.ty_at(pty.idx as int) == (TypeData::Ptr { elem: ty.idx }));
            assert(ctx.vals@[cnt.idx as int] == m0.vals@[cnt.idx as int]);
            assert(ctx.vals@[cnt.idx as int].kind matches ValKind::ConstInt { value }
                && value == count as u64);
            lemma_live_preserved(*old(ctx), *ctx);
            assert(ctx.val_live_at(cnt.idx as int));
            let args2: Seq<Value> = seq![cnt];
            assert forall|m: int|
                0 <= m < args2.len() implies ctx.val_ok(#[trigger] args2[m]) && ctx.val_live_at(
                args2[m].idx as int,
            ) by {}
            assert(emit_err(*ctx, *self, seq![cnt]) is None);
        }
        let args: Vec<Value> = vec![cnt];
        proof {
            assert(args@ =~= seq![cnt]);
        }
        let op = if heap {
            Op::ArrayMalloc
        } else {
            Op::ArrayAlloca
        };
        let v = self.emit_at(ctx, op, args, pty.idx);
        proof {
            assert(ctx.vals@[v.idx as int].kind->Instr_args@ =~= seq![cnt.idx]);
        }
        Ok(v)
    }

    /// Folds insert-value instructions over `agg0`, one per element, each
    /// named `label` followed by its position.
    #[verifier::rlimit(100)]
    fn fold_inserts(&mut self, ctx: &mut Context, agg0: Value, elements: &Vec<Value>, label: &str) -> (r: Value)
        requires
            old(ctx).wf(),
            !old(ctx).disposed,
            old(self).wf(*old(ctx)),
            emit_err(*old(ctx), *old(self), seq![agg0] + elements@) is None,
            elements@.len() <= 0xffff_ffffu32,
            crate::context::valid_name(label@),
        ensures
            final(ctx).wf(),
            !final(ctx).disposed,
            final(ctx).id == old(ctx).id,
            final(ctx).types@ == old(ctx).types@,
            final(self).wf(*final(ctx)),
            fold_post(
                *old(ctx),
                *old(self),
                *final(ctx),
                *final(self),
                agg0,
                elements@,
                label@,
                r,
            ),
    {
        let ghost blk0 = old(self).cursor->Some_0.0 as int;
        let ghost at0 = old(self).cursor->Some_0.1 as int;
        let ghost base = old(ctx).vals@.len() as int;
        let n = elements.len();
        let vl0 = ctx.vals.len();
        let cblk = match self.cursor {
            Some(c) => c.0,
            None => 0,
        };
        let il0 = ctx.blocks[cblk].instrs.len();
        let mut agg = agg0;
        let mut k: usize = 0;
        proof {
            assert(vl0 == base);
            assert(cblk as int == blk0);
            assert(il0 == old(ctx).blk_at(blk0).instrs@.len());
            assert forall|j: int|
                0 <= j < elements@.len() implies ctx.val_ok(#[trigger] elements@[j])
                && ctx.val_live_at(elements@[j].idx as int) by {
                let all = seq![agg0] + elements@;
                assert(all[j + 1] == elements@[j]);
                assert(!(exists|m: int| 0 <= m < all.len() && !ctx.val_ok(#[trigger] all[m])));
                assert(!(exists|m: int|
                    0 <= m < all.len() && !ctx.val_live_at(#[trigger] all[m].idx as int)));
                assert(ctx.val_ok(all[j + 1]));
                assert(ctx.val_live_at(all[j + 1].idx as int));
            }
            let all = seq![agg0] + elements@;
            assert(all[0] == agg0);
            assert(ctx.val_ok(all[0]) && ctx.val_live_at(all[0].idx as int));
        }
        while k < n
            invariant
                k <= n,
                n == elements@.len(),
                n <= 0xffff_ffffu32,
                blk0 == old(self).cursor->Some_0.0 as int,
                at0 == old(self).cursor->Some_0.1 as int,
                base == old(ctx).vals@.len(),
                ctx.wf(),
                !ctx.disposed,
                self.wf(*ctx),
                old(ctx).wf(),
                crate::context::valid_name(label@),
                ctx.id == old(ctx).id,
                ctx.types@ == old(ctx).types@,
                ctx.modules@ == old(ctx).modules@,
                base == old(ctx).vals@.len(),
                ctx.vals@.len() == base + k,
                forall|j: int| 0 <= j < base ==> ctx.vals@[j] == old(ctx).vals@[j],
                agg.owner == ctx.id,
                agg.idx == (if k == 0 {
                    agg0.idx as int
                } else {
                    base + k - 1
                }),
                agg.idx < ctx.vals@.len(),
                ctx.val_live_at(agg.idx as int),
                ctx.val_at(agg.idx as int).ty == old(ctx).val_at(agg0.idx as int).ty,
                forall|j: int|
                    0 <= j < n ==> ctx.val_ok(#[trigger] elements@[j]) && ctx.val_live_at(
                        elements@[j].idx as int,
                    ),
                self.cursor is Some,
                self.cursor->Some_0.0 == old(self).cursor->Some_0.0,
                self.cursor->Some_0.1 == at0 + k,
                at0 + k <= usize::MAX,
                base + k <= usize::MAX,
                ctx.blk_live_at(blk0),
                forall|j: int|
                    0 <= j < k ==> ((#[trigger] ctx.vals@[base + j]).ty == old(ctx).val_at(
                        agg0.idx as int,
                    ).ty && ctx.v_name(base + j) == label@ + crate::text::dec_digits(j as nat) && (
                    ctx.vals@[base + j].kind matches ValKind::Instr { block, op, args, .. } && block
                        == blk0 && (op matches Op::InsertValue { index } && index == j) && args@
                        == seq![
                        (if j == 0 {
                            agg0.idx as int
                        } else {
                            base + j - 1
                        }) as usize,
                        elements@[j].idx,
                    ])),
                ctx.blocks@.len() == old(ctx).blocks@.len(),
                forall|j: int|
                    0 <= j < old(ctx).blocks@.len() && j != blk0 ==> ctx.blocks@[j] == old(
                        ctx,
                    ).blocks@[j],
                ctx.blk_at(blk0).dead == old(ctx).blk_at(blk0).dead,
                ctx.blk_at(blk0).func == old(ctx).blk_at(blk0).func,
                ctx.blk_at(blk0).name@ == old(ctx).blk_at(blk0).name@,
                ctx.blk_at(blk0).instrs@.len() == old(ctx).blk_at(blk0).instrs@.len() + k,
                old(ctx).blk_at(blk0).instrs@.len() + k <= usize::MAX,
            decreases n - k,
        {
            let ghost cpre = *ctx;
            let ghost bpre = *self;
            proof {
                let pair = seq![agg, elements@[k as int]];
                assert forall|m: int|
                    0 <= m < pair.len() implies ctx.val_ok(#[trigger] pair[m]) && ctx.val_live_at(
                    pair[m].idx as int,
                ) by {
                    if m == 0 {
                        assert(pair[0] == agg);
                    } else {
                        assert(pair[1] == elements@[k as int]);
                    }
                }
                assert(self.cursor->Some_0.0 as int == blk0);
                assert(ctx.blk_live_at(self.cursor->Some_0.0 as int));
                assert(emit_err(*ctx, *self, seq![agg, elements@[k as int]]) is None);
            }
            let iv = match self.build_insert_value(ctx, agg, elements[k], k as u32) {
                Ok(v) => v,
                Err(_) => {
                    proof {
                        assert(false);
                    }
                    return agg;
                },
            };
            let ghost cmid = *ctx;
            proof {
                assert forall|j: int|
                    0 <= j < cpre.blocks@.len() implies (#[trigger] ctx.blocks@[j]).dead
                    == cpre.blocks@[j].dead && ctx.blocks@[j].func == cpre.blocks@[j].func by {
                    if j != blk0 {
                        assert(ctx.blocks@[j] == cpre.blocks@[j]);
                    }
                }
                assert forall|j: int|
                    0 <= j < cpre.vals@.len() implies (#[trigger] ctx.vals@[j]).kind
                    == cpre.vals@[j].kind by {
                    assert(ctx.vals@[j] == cpre.vals@[j]);
                }
                lemma_live_preserved(cpre, *ctx);
                assert(ctx.blk_live_at(blk0));
            }
            let mut nm = label.to_owned();
            crate::text::push_dec(&mut nm, k as u64);
            proof {
                crate::text::lemma_dec_digits_valid(k as nat);
                assert forall|i: int| 0 <= i < nm@.len() implies nm@[i] != '\0' by {
                    if i < label@.len() {
                        assert(nm@[i] == label@[i]);
                    } else {
                        assert(nm@[i] == crate::text::dec_digits(k as nat)[i - label@.len()]);
                    }
                }
                assert(crate::context::valid_name(nm@));
                assert(ctx.val_ok(iv));
                assert(cmid.vals@[iv.idx as int].kind is Instr);
                assert(!(ctx.vals@[iv.idx as int].kind is Func));
                assert(!(ctx.vals@[iv.idx as int].kind is Global));
                assert(ctx.val_live_at(iv.idx as int));
                assert(crate::val::live_err(*ctx, iv) is None);
            }
            match iv.name(ctx, nm.as_str()) {
                Ok(_) => {},
                Err(_) => {
                    proof {
                        assert(false);
                    }
                    return agg;
                },
            }
            proof {
                assert forall|j: int|
                    0 <= j < cpre.vals@.len() implies (#[trigger] ctx.vals@[j]).kind
                    == cpre.vals@[j].kind by {
                    if j != iv.idx {
                        assert(ctx.vals@[j] == cmid.vals@[j]);
                        assert(cmid.vals@[j] == cpre.vals@[j]);
                    } else {
                        assert(ctx.vals@[j].kind == cmid.vals@[j].kind);
                    }
                }
                assert forall|j: int|
                    0 <= j < cpre.blocks@.len() implies (#[trigger] ctx.blocks@[j]).dead
                    == cpre.blocks@[j].dead && ctx.blocks@[j].func == cpre.blocks@[j].func by {
                    if j != blk0 {
                        assert(ctx.blocks@[j] == cpre.blocks@[j]);
                    }
                }
                lemma_live_preserved(cpre, *ctx);
                assert(ctx.val_live_at(iv.idx as int));
                assert(ctx.blk_live_at(blk0));
            }
            agg = iv;
            k += 1;
        }
        agg
    }

    /// Builds the given struct type's value from the given elements: an
    /// undefined aggregate followed by one insert-value per element in
    /// field order, each named `insert_` and its position.
    #[verifier::rlimit(100)]
    pub fn build_struct_init(&mut self, ctx: &mut Context, ty: Type, elements: Vec<Value>) -> (r: Result<Value, IrError>)
        requires
            old(ctx).wf(),
            !old(ctx).disposed,
            old(self).wf(*old(ctx)),
            elements@.len() <= 0xffff_ffffu32,
        ensures
            final(ctx).wf(),
            !final(ctx).disposed,
            final(ctx).id == old(ctx).id,
            final(ctx).types@ == old(ctx).types@,
            final(self).wf(*final(ctx)),
            match r {
                Ok(v) => {
                    &&& emit_err(*old(ctx), *old(self), elements@) is None
                    &&& old(ctx).ty_ok(ty)
                    &&& final(ctx).vals@.len() == old(ctx).vals@.len() + 1 + elements@.len()
                    &&& (forall|j: int|
                        0 <= j < old(ctx).vals@.len() ==> final(ctx).vals@[j] == old(ctx).vals@[j])
                    &&& final(ctx).vals@[old(ctx).vals@.len() as int].ty == ty.idx
                    &&& final(ctx).vals@[old(ctx).vals@.len() as int].kind is Undef
                    &&& v.owner == old(ctx).id
                    &&& v.idx == (if elements@.len() == 0 {
                        old(ctx).vals@.len() as int
                    } else {
                        (old(ctx).vals@.len() + elements@.len()) as int
                    })
                    &&& final(ctx).vals@[v.idx as int].ty == ty.idx
                    &&& (forall|kk: int|
                        0 <= kk < elements@.len() ==> ((#[trigger] final(ctx).vals@[old(
                            ctx,
                        ).vals@.len() + 1 + kk]).ty == ty.idx && final(ctx).v_name(
                            old(ctx).vals@.len() + 1 + kk,
                        ) == seq!['i', 'n', 's', 'e', 'r', 't', '_'] + crate::text::dec_digits(
                            kk as nat,
                        ) && (final(ctx).vals@[old(ctx).vals@.len() + 1 + kk].kind
                            matches ValKind::Instr { block, op, args, .. } && block == old(
                            self,
                        ).cursor->Some_0.0 && (op matches Op::InsertValue { index } && index == kk)
                            && args@ == seq![
                            (old(ctx).vals@.len() + kk) as usize,
                            elements@[kk].idx,
                        ])))
                    &&& final(ctx).blocks@.len() == old(ctx).blocks@.len()
                    &&& (forall|j: int|
                        0 <= j < old(ctx).blocks@.len() && j != old(self).cursor->Some_0.0 ==> final(ctx).blocks@[j] == old(ctx).blocks@[j])
                    &&& final(ctx).blk_at(old(self).cursor->Some_0.0 as int).instrs@.len() == old(
                        ctx,
                    ).blk_at(old(self).cursor->Some_0.0 as int).instrs@.len() + elements@.len()
                    &&& final(self).cursor == Some(
                        (
                            old(self).cursor->Some_0.0,
                            (old(self).cursor->Some_0.1 + elements@.len()) as usize,
                        ),
                    )
                    &&& final(ctx).modules@ == old(ctx).modules@
                },
                Err(e) => {
                    &&& ctx_same(*old(ctx), *final(ctx))
                    &&& *final(self) == *old(self)
                    &&& Some(e) == (if emit_err(*old(ctx), *old(self), elements@) is Some {
                        emit_err(*old(ctx), *old(self), elements@)
                    } else {
                        Some(IrError::CrossContext)
                    })
                    &&& (emit_err(*old(ctx), *old(self), elements@) is None ==> !old(ctx).ty_ok(
                        ty,
                    ))
                },
            },
    {
        match self.precheck(ctx, &elements) {
            Some(e) => {
                return Err(e);
            },
            None => {},
        }
        if ty.owner != ctx.id || ty.idx >= ctx.types.len() {
            return Err(IrError::CrossContext);
        }
        let vl_pre = ctx.vals.len();
        let undefv = ty.undef(ctx);
        proof {
            assert(undefv.idx == vl_pre);
        }
        let ghost m = *ctx;
        let ghost bm = *self;
        proof {
            lemma_live_preserved(*old(ctx), *ctx);
            let all = seq![undefv] + elements@;
            assert forall|j: int|
                0 <= j < old(ctx).vals@.len() implies (#[trigger] ctx.vals@[j]).kind == old(
                ctx,
            ).vals@[j].kind by {
                assert(ctx.vals@[j] == old(ctx).vals@[j]);
            }
            lemma_live_preserved(*old(ctx), *ctx);
            assert forall|m: int|
                0 <= m < all.len() implies ctx.val_ok(#[trigger] all[m]) && ctx.val_live_at(
                all[m].idx as int,
            ) by {
                if m == 0 {
                    assert(all[0] == undefv);
                    assert(ctx.vals@[undefv.idx as int].kind is Undef);
                    assert(ctx.val_ok(undefv));
                } else {
                    assert(all[m] == elements@[m - 1]);
                    assert(!(exists|q: int|
                        0 <= q < elements@.len() && !old(ctx).val_ok(#[trigger] elements@[q])));
                    assert(old(ctx).val_ok(elements@[m - 1]));
                    assert(!(exists|q: int|
                        0 <= q < elements@.len() && !old(ctx).val_live_at(
                            #[trigger] elements@[q].idx as int,
                        )));
                    assert(old(ctx).val_live_at(elements@[m - 1].idx as int));
                    assert(ctx.val_ok(elements@[m - 1]));
                    assert(ctx.val_live_at(elements@[m - 1].idx as int));
                }
            }
            assert(ctx.blk_live_at(old(self).cursor->Some_0.0 as int));
            assert(emit_err(*ctx, *self, seq![undefv] + elements@) is None);
            reveal_strlit("insert_");
            assert("insert_"@ =~= seq!['i', 'n', 's', 'e', 'r', 't', '_']);
            assert(crate::context::valid_name("insert_"@));
        }
        let r = self.fold_inserts(ctx, undefv, &elements, "insert_");
        proof {
            assert("insert_"@ =~= seq!['i', 'n', 's', 'e', 'r', 't', '_']);
            assert(fold_post(m, bm, *ctx, *self, undefv, elements@, "insert_"@, r));
            assert forall|j: int|
                0 <= j < old(ctx).vals@.len() implies ctx.vals@[j] == old(ctx).vals@[j] by {
                assert(m.vals@[j] == old(ctx).vals@[j]);
                assert(ctx.vals@[j] == m.vals@[j]);
            }
            assert(ctx.vals@[old(ctx).vals@.len() as int] == m.vals@[old(ctx).vals@.len() as int]);
            assert(m.val_at(undefv.idx as int).ty == ty.idx);
            if elements@.len() == 0 {
                assert(r.idx == undefv.idx);
                assert(ctx.vals@[r.idx as int] == m.vals@[undefv.idx as int]);
            } else {
                let nn = elements@.len() as int;
                let basem = m.vals@.len() as int;
                assert(r.idx == basem + nn - 1);
                assert((ctx.vals@[basem + (nn - 1)]).ty == m.val_at(undefv.idx as int).ty);
            }
            assert(ctx.vals@[r.idx as int].ty == ty.idx);
        }
        Ok(r)
    }
    pub fn build_alloca_store(&mut self, ctx: &mut Context, val: Value) -> (r: Result<Value, IrError>)
        requires
            old(ctx).wf(),
            !old(ctx).disposed,
            old(self).wf(*old(ctx)),
        ensures
            final(ctx).wf(),
            !final(ctx).disposed,
            final(ctx).id == old(ctx).id,
            old(ctx).types@.len() <= final(ctx).types@.len(),
            (forall|j: int|
                0 <= j < old(ctx).types@.len() ==> final(ctx).types@[j] == old(ctx).types@[j]),
            final(self).wf(*final(ctx)),
            match r {
                Ok(p) => alloc_store_post(
                    *old(ctx),
                    *old(self),
                    *final(ctx),
                    *final(self),
                    p,
                    val,
                    false,
                ),
                Err(e) => {
                    &&& ctx_same(*old(ctx), *final(ctx))
                    &&& *final(self) == *old(self)
                    &&& emit_err(*old(ctx), *old(self), seq![val]) == Some(e)
                },
            },
    {
        self.alloc_store_common(ctx, val, false)
    }

    /// Builds a heap allocation of the operand's type and stores the
    /// operand into it; the result points at the stored value.
    pub fn build_malloc_store(&mut self, ctx: &mut Context, val: Value) -> (r: Result<Value, IrError>)
        requires
            old(ctx).wf(),
            !old(ctx).disposed,
            old(self).wf(*old(ctx)),
        ensures
            final(ctx).wf(),
            !final(ctx).disposed,
            final(ctx).id == old(ctx).id,
            old(ctx).types@.len() <= final(ctx).types@.len(),
            (forall|j: int|
                0 <= j < old(ctx).types@.len() ==> final(ctx).types@[j] == old(ctx).types@[j]),
            final(self).wf(*final(ctx)),
            match r {
                Ok(p) => alloc_store_post(
                    *old(ctx),
                    *old(self),
                    *final(ctx),
                    *final(self),
                    p,
                    val,
                    true,
                ),
                Err(e) => {
                    &&& ctx_same(*old(ctx), *final(ctx))
                    &&& *final(self) == *old(self)
                    &&& emit_err(*old(ctx), *old(self), seq![val]) == Some(e)
                },
            },
    {
        self.alloc_store_common(ctx, val, true)
    }

    /// The shared body of the two allocate-then-store helpers.
    fn alloc_store_common(&mut self, ctx: &mut Context, val: Value, heap: bool) -> (r: Result<Value, IrError>)
        requires
            old(ctx).wf(),
            !old(ctx).disposed,
            old(self).wf(*old(ctx)),
        ensures
            final(ctx).wf(),
            !final(ctx).disposed,
            final(ctx).id == old(ctx).id,
            old(ctx).types@.len() <= final(ctx).types@.len(),
            (forall|j: int|
                0 <= j < old(ctx).types@.len() ==> final(ctx).types@[j] == old(ctx).types@[j]),
            final(self).wf(*final(ctx)),
            match r {
                Ok(p) => alloc_store_post(
                    *old(ctx),
                    *old(self),
                    *final(ctx),
                    *final(self),
                    p,
                    val,
                    heap,
                ),
                Err(e) => {
                    &&& ctx_same(*old(ctx), *final(ctx))
                    &&& *final(self) == *old(self)
                    &&& emit_err(*old(ctx), *old(self), seq![val]) == Some(e)
                },
            },
    {
        let args: Vec<Value> = vec![val];
        proof {
            assert(args@ =~= seq![val]);
        }
        match self.precheck(ctx, &args) {
            Some(e) => {
                return Err(e);
            },
            None => {},
        }
        proof {
            assert(ctx.vd_wf(ctx.vals@[val.idx as int], val.idx as int));
            assert(emit_err(*ctx, *self, Seq::<Value>::empty()) is None);
        }
        let vt = ctx.vals[val.idx].ty;
        let tyh = Type { owner: ctx.id, idx: vt };
        let alloc_r = if heap {
            self.build_malloc(ctx, tyh)
        } else {
            self.build_alloca(ctx, tyh)
        };
        let p = match alloc_r {
            Ok(p) => p,
            Err(e) => {
                proof {
                    assert(false);
                }
                return Err(e);
            },
        };
        let ghost m = *ctx;
        let ghost mb = *self;
        proof {
            assert forall|j: int|
                0 <= j < old(ctx).blocks@.len() implies (#[trigger] ctx.blocks@[j]).dead == old(
                ctx,
            ).blocks@[j].dead && ctx.blocks@[j].func == old(ctx).blocks@[j].func by {
                if j != old(self).cursor->Some_0.0 as int {
                    assert(ctx.blocks@[j] == old(ctx).blocks@[j]);
                }
            }
            lemma_live_preserved(*old(ctx), *ctx);
            assert(ctx.val_ok(val) && ctx.val_live_at(val.idx as int));
            assert(ctx.blk_live_at(self.cursor->Some_0.0 as int));
            assert(ctx.val_live_at(p.idx as int));
            let args2: Seq<Value> = seq![val, p];
            assert forall|m: int|
                0 <= m < args2.len() implies ctx.val_ok(#[trigger] args2[m]) && ctx.val_live_at(
                args2[m].idx as int,
            ) by {}
            assert(emit_err(*ctx, *self, seq![val, p]) is None);
        }
        match self.build_store(ctx, val, p) {
            Ok(()) => {},
            Err(e) => {
                proof {
                    assert(false);
                }
                return Err(e);
            },
        }
        let n_now = ctx.vals.len();
        proof {
            assert(old(ctx).vals@.len() + 2 <= usize::MAX);
            let blk = old(self).cursor->Some_0.0 as int;
            let at = old(self).cursor->Some_0.1 as int;
            assert(m.blk_at(blk).instrs@ == old(ctx).blk_at(blk).instrs@.insert(
                at,
                p.idx as usize,
            ));
            assert(ctx.blk_at(blk).instrs@ == m.blk_at(blk).instrs@.insert(
                at + 1,
                (p.idx + 1) as usize,
            ));
            assert forall|j: int|
                0 <= j < old(ctx).vals@.len() implies ctx.vals@[j] == old(ctx).vals@[j] by {
                assert(m.vals@[j] == old(ctx).vals@[j]);
                assert(ctx.vals@[j] == m.vals@[j]);
            }
            assert forall|j: int|
                0 <= j < old(ctx).blocks@.len() && j != blk implies ctx.blocks@[j] == old(
                ctx,
            ).blocks@[j] by {
                assert(m.blocks@[j] == old(ctx).blocks@[j]);
                assert(ctx.blocks@[j] == m.blocks@[j]);
            }
            assert(ctx.vals@[(p.idx + 1) as int].kind->Instr_args@ =~= seq![val.idx, p.idx]);
            assert(alloc_store_post(*old(ctx), *old(self), *ctx, *self, p, val, heap));
        }
        Ok(p)
    }

    /// Builds a load through the operand pointer and then a release of
    /// the pointed-at heap allocation; the result is the loaded value.
    /// The pointer must not be used afterwards.
    #[verifier::rlimit(80)]
    pub fn build_load_free(&mut self, ctx: &mut Context, ptr: Value) -> (r: Result<Value, IrError>)
        requires
            old(ctx).wf(),
            !old(ctx).disposed,
            old(self).wf(*old(ctx)),
        ensures
            final(ctx).wf(),
            !final(ctx).disposed,
            final(ctx).id == old(ctx).id,
            final(ctx).types@ == old(ctx).types@,
            final(self).wf(*final(ctx)),
            match r {
                Ok(v) => {
                    &&& emit_err(*old(ctx), *old(self), seq![ptr]) is None
                    &&& old(ctx).ty_at(old(ctx).val_at(ptr.idx as int).ty as int) is Ptr
                    &&& v.idx == old(ctx).vals@.len()
                    &&& final(ctx).vals@.len() == old(ctx).vals@.len() + 2
                    &&& (forall|j: int|
                        0 <= j < old(ctx).vals@.len() ==> final(ctx).vals@[j] == old(ctx).vals@[j])
                    &&& final(ctx).vals@[v.idx as int].ty == old(ctx).ty_at(
                        old(ctx).val_at(ptr.idx as int).ty as int,
                    )->Ptr_elem
                    &&& (final(ctx).vals@[v.idx as int].kind matches ValKind::Instr {
                        op,
                        args,
                        ..
                    } && op is Load && args@ == seq![ptr.idx])
                    &&& (final(ctx).vals@[v.idx as int + 1].kind matches ValKind::Instr {
                        op,
                        args,
                        ..
                    } && op is Free && args@ == seq![ptr.idx])
                    &&& final(ctx).blk_at(old(self).cursor->Some_0.0 as int).instrs@ == old(
                        ctx,
                    ).blk_at(old(self).cursor->Some_0.0 as int).instrs@.insert(
                        old(self).cursor->Some_0.1 as int,
                        v.idx as usize,
                    ).insert(old(self).cursor->Some_0.1 as int + 1, (v.idx + 1) as usize)
                    &&& final(self).cursor == Some(
                        (
                            old(self).cursor->Some_0.0,
                            (old(self).cursor->Some_0.1 + 2) as usize,
                        ),
                    )
                    &&& final(ctx).modules@ == old(ctx).modules@
                },
                Err(e) => {
                    &&& ctx_same(*old(ctx), *final(ctx))
                    &&& *final(self) == *old(self)
                    &&& Some(e) == (if emit_err(*old(ctx), *old(self), seq![ptr]) is Some {
                        emit_err(*old(ctx), *old(self), seq![ptr])
                    } else {
                        Some(IrError::TypeUnknown)
                    })
                    &&& (emit_err(*old(ctx), *old(self), seq![ptr]) is None ==> !(old(ctx).ty_at(
                        old(ctx).val_at(ptr.idx as int).ty as int,
                    ) is Ptr))
                },
            },
    {
        let args: Vec<Value> = vec![ptr];
        proof {
            assert(args@ =~= seq![ptr]);
        }
        match self.precheck(ctx, &args) {
            Some(e) => {
                return Err(e);
            },
            None => {},
        }
        proof {
            assert(ctx.vd_wf(ctx.vals@[ptr.idx as int], ptr.idx as int));
        }
        let pt = ctx.vals[ptr.idx].ty;
        let is_ptr = match &ctx.types[pt] {
            TypeData::Ptr { .. } => true,
            _ => false,
        };
        if !is_ptr {
            return Err(IrError::TypeUnknown);
        }
        let v = match self.build_load(ctx, ptr) {
            Ok(v) => v,
            Err(e) => {
                proof {
                    assert(false);
                }
                return Err(e);
            },
        };
        let ghost m = *ctx;
        let ghost mb = *self;
        proof {
            assert forall|j: int|
                0 <= j < old(ctx).blocks@.len() implies (#[trigger] ctx.blocks@[j]).dead == old(
                ctx,
            ).blocks@[j].dead && ctx.blocks@[j].func == old(ctx).blocks@[j].func by {
                if j != old(self).cursor->Some_0.0 as int {
                    assert(ctx.blocks@[j] == old(ctx).blocks@[j]);
                }
            }
            lemma_live_preserved(*old(ctx), *ctx);
            assert(ctx.val_ok(ptr) && ctx.val_live_at(ptr.idx as int));
            assert(ctx.blk_live_at(self.cursor->Some_0.0 as int));
            let args2: Seq<Value> = seq![ptr];
            assert forall|m: int|
                0 <= m < args2.len() implies ctx.val_ok(#[trigger] args2[m]) && ctx.val_live_at(
                args2[m].idx as int,
            ) by {}
            assert(emit_err(*ctx, *self, seq![ptr]) is None);
        }
        match self.build_free(ctx, ptr) {
            Ok(_) => {},
            Err(e) => {
                proof {
                    assert(false);
                }
                return Err(e);
            },
        }
        let n_now = ctx.vals.len();
        proof {
            assert(old(ctx).vals@.len() + 2 <= usize::MAX);
            let blk = old(self).cursor->Some_0.0 as int;
            let at = old(self).cursor->Some_0.1 as int;
            assert(m.blk_at(blk).instrs@ == old(ctx).blk_at(blk).instrs@.insert(
                at,
                v.idx as usize,
            ));
            assert(ctx.blk_at(blk).instrs@ == m.blk_at(blk).instrs@.insert(
                at + 1,
                (v.idx + 1) as usize,
            ));
            assert forall|j: int|
                0 <= j < old(ctx).vals@.len() implies ctx.vals@[j] == old(ctx).vals@[j] by {
                assert(m.vals@[j] == old(ctx).vals@[j]);
                assert(ctx.vals@[j] == m.vals@[j]);
            }
            assert(ctx.vals@[v.idx as int].kind->Instr_args@ =~= seq![ptr.idx]);
            assert(ctx.vals@[v.idx as int + 1].kind->Instr_args@ =~= seq![ptr.idx]);
        }
        Ok(v)
    }

    /// Builds an array value from the given elements and spills it to a
    /// fresh stack allocation: an undefined array, one insert-value per
    /// element in order (each named `insert_elem_` and its position), the
    /// allocation, the store, and a cast of the pointer to the element
    /// pointer type — which is the result.
    pub fn build_array_alloca_store(&mut self, ctx: &mut Context, ty: Type, elements: Vec<Value>) -> (r: Result<Value, IrError>)
        requires
            old(ctx).wf(),
            !old(ctx).disposed,
            old(self).wf(*old(ctx)),
            elements@.len() <= 0xffff_ffffu32,
        ensures
            final(ctx).wf(),
            !final(ctx).disposed,
            final(ctx).id == old(ctx).id,
            old(ctx).types@.len() <= final(ctx).types@.len(),
            (forall|j: int|
                0 <= j < old(ctx).types@.len() ==> final(ctx).types@[j] == old(ctx).types@[j]),
            final(self).wf(*final(ctx)),
            match r {
                Ok(v) => array_store_post(
                    *old(ctx),
                    *old(self),
                    *final(ctx),
                    *final(self),
                    v,
                    ty,
                    elements@,
                ),
                Err(e) => {
                    &&& ctx_same(*old(ctx), *final(ctx))
                    &&& *final(self) == *old(self)
                    &&& Some(e) == (if emit_err(*old(ctx), *old(self), elements@) is Some {
                        emit_err(*old(ctx), *old(self), elements@)
                    } else if !old(ctx).ty_ok(ty) {
                        Some(IrError::CrossContext)
                    } else {
                        Some(IrError::OpaqueType)
                    })
                    &&& (emit_err(*old(ctx), *old(self), elements@) is None && old(ctx).ty_ok(ty)
                        ==> !old(ctx).sized_at(ty.idx as int))
                },
            },
    {
        self.array_store_common(ctx, ty, elements, false)
    }

    /// Builds an array value from the given elements and spills it to a
    /// fresh heap allocation; otherwise exactly like the stack variant.
    pub fn build_array_malloc_store(&mut self, ctx: &mut Context, ty: Type, elements: Vec<Value>) -> (r: Result<Value, IrError>)
        requires
            old(ctx).wf(),
            !old(ctx).disposed,
            old(self).wf(*old(ctx)),
            elements@.len() <= 0xffff_ffffu32,
        ensures
            final(ctx).wf(),
            !final(ctx).disposed,
            final(ctx).id == old(ctx).id,
            old(ctx).types@.len() <= final(ctx).types@.len(),
            (forall|j: int|
                0 <= j < old(ctx).types@.len() ==> final(ctx).types@[j] == old(ctx).types@[j]),
            final(self).wf(*final(ctx)),
            match r {
                Ok(v) => array_store_post(
                    *old(ctx),
                    *old(self),
                    *final(ctx),
                    *final(self),
                    v,
                    ty,
                    elements@,
                ),
                Err(e) => {
                    &&& ctx_same(*old(ctx), *final(ctx))
                    &&& *final(self) == *old(self)
                    &&& Some(e) == (if emit_err(*old(ctx), *old(self), elements@) is Some {
                        emit_err(*old(ctx), *old(self), elements@)
                    } else if !old(ctx).ty_ok(ty) {
                        Some(IrError::CrossContext)
                    } else {
                        Some(IrError::OpaqueType)
                    })
                    &&& (emit_err(*old(ctx), *old(self), elements@) is None && old(ctx).ty_ok(ty)
                        ==> !old(ctx).sized_at(ty.idx as int))
                },
            },
    {
        self.array_store_common(ctx, ty, elements, true)
    }

    /// The shared body of the two array spill helpers.
    #[verifier::rlimit(100)]
    fn array_store_common(&mut self, ctx: &mut Context, ty: Type, elements: Vec<Value>, heap: bool) -> (r: Result<Value, IrError>)
        requires
            old(ctx).wf(),
            !old(ctx).disposed,
            old(self).wf(*old(ctx)),
            elements@.len() <= 0xffff_ffffu32,
        ensures
            final(ctx).wf(),
            !final(ctx).disposed,
            final(ctx).id == old(ctx).id,
            old(ctx).types@.len() <= final(ctx).types@.len(),
            (forall|j: int|
                0 <= j < old(ctx).types@.len() ==> final(ctx).types@[j] == old(ctx).types@[j]),
            final(self).wf(*final(ctx)),
            match r {
                Ok(v) => array_store_post(
                    *old(ctx),
                    *old(self),
                    *final(ctx),
                    *final(self),
                    v,
                    ty,
                    elements@,
                ),
                Err(e) => {
                    &&& ctx_same(*old(ctx), *final(ctx))
                    &&& *final(self) == *old(self)
                    &&& Some(e) == (if emit_err(*old(ctx), *old(self), elements@) is Some {
                        emit_err(*old(ctx), *old(self), elements@)
                    } else if !old(ctx).ty_ok(ty) {
                        Some(IrError::CrossContext)
                    } else {
                        Some(IrError::OpaqueType)
                    })
                    &&& (emit_err(*old(ctx), *old(self), elements@) is None && old(ctx).ty_ok(ty)
                        ==> !old(ctx).sized_at(ty.idx as int))
                },
            },
    {
        match self.precheck(ctx, &elements) {
            Some(e) => {
                return Err(e);
            },
            None => {},
        }
        if ty.owner != ctx.id || ty.idx >= ctx.types.len() {
            return Err(IrError::CrossContext);
        }
        if !ctx.is_sized(ty.idx) {
            return Err(IrError::OpaqueType);
        }
        let count = elements.len() as u32;
        let aty = ctx.intern(TypeData::Array { elem: ty.idx, count });
        let ghost c1 = *ctx;
        let vl_pre = ctx.vals.len();
        let tyh = Type { owner: ctx.id, idx: aty.idx };
        let undefv = tyh.undef(ctx);
        let ghost c2 = *ctx;
        proof {
            assert forall|j: int|
                0 <= j < old(ctx).vals@.len() implies (#[trigger] ctx.vals@[j]).kind == old(
                ctx,
            ).vals@[j].kind by {
                assert(ctx.vals@[j] == old(ctx).vals@[j]);
            }
            lemma_live_preserved(*old(ctx), *ctx);
            let all = seq![undefv] + elements@;
            assert forall|m: int|
                0 <= m < all.len() implies ctx.val_ok(#[trigger] all[m]) && ctx.val_live_at(
                all[m].idx as int,
            ) by {
                if m == 0 {
                    assert(all[0] == undefv);
                    assert(ctx.vals@[undefv.idx as int].kind is Undef);
                } else {
                    assert(all[m] == elements@[m - 1]);
                    assert(!(exists|q: int|
                        0 <= q < elements@.len() && !old(ctx).val_ok(#[trigger] elements@[q])));
                    assert(old(ctx).val_ok(elements@[m - 1]));
                    assert(!(exists|q: int|
                        0 <= q < elements@.len() && !old(ctx).val_live_at(
                            #[trigger] elements@[q].idx as int,
                        )));
                    assert(old(ctx).val_live_at(elements@[m - 1].idx as int));
                }
            }
            assert(ctx.blk_live_at(old(self).cursor->Some_0.0 as int));
            assert(emit_err(*ctx, *self, seq![undefv] + elements@) is None);
            reveal_strlit("insert_elem_");
            assert(crate::context::valid_name("insert_elem_"@));
        }
        let agg = self.fold_inserts(ctx, undefv, &elements, "insert_elem_");
        let ghost c3 = *ctx;
        proof {
            assert forall|j: int|
                0 <= j < c2.vals@.len() implies (#[trigger] ctx.vals@[j]).kind
                == c2.vals@[j].kind by {
                assert(ctx.vals@[j] == c2.vals@[j]);
            }
            assert forall|j: int|
                0 <= j < c2.blocks@.len() implies (#[trigger] ctx.blocks@[j]).dead
                == c2.blocks@[j].dead && ctx.blocks@[j].func == c2.blocks@[j].func by {
                if j != old(self).cursor->Some_0.0 as int {
                    assert(ctx.blocks@[j] == c2.blocks@[j]);
                }
            }
            lemma_live_preserved(c2, *ctx);
            assert(ctx.blk_live_at(old(self).cursor->Some_0.0 as int));
            if elements@.len() == 0 {
                assert(agg.idx == undefv.idx);
                assert(ctx.vals@[agg.idx as int] == c2.vals@[undefv.idx as int]);
                assert(ctx.vals@[agg.idx as int].kind is Undef);
            } else {
                let basem = c2.vals@.len() as int;
                let nn = elements@.len() as int;
                assert(agg.idx == basem + nn - 1);
                assert((ctx.vals@[basem + (nn - 1)]).kind matches ValKind::Instr { block, .. }
                    && block == old(self).cursor->Some_0.0 as int);
            }
            assert(ctx.val_live_at(agg.idx as int));
            assert(ctx.val_ok(agg));
            let one = seq![agg];
            assert forall|m: int|
                0 <= m < one.len() implies ctx.val_ok(#[trigger] one[m]) && ctx.val_live_at(
                one[m].idx as int,
            ) by {}
            assert(ctx.blk_live_at(self.cursor->Some_0.0 as int));
            assert(emit_err(*ctx, *self, seq![agg]) is None);
        }
        let p = match self.alloc_store_common(ctx, agg, heap) {
            Ok(p) => p,
            Err(_) => {
                proof {
                    assert(false);
                }
                return Err(IrError::Stale);
            },
        };
        let ghost c4 = *ctx;
        let pety = ctx.intern(TypeData::Ptr { elem: ty.idx });
        let petyh = Type { owner: ctx.id, idx: pety.idx };
        proof {
            assert(ctx.ty_at(pety.idx as int) == (TypeData::Ptr { elem: ty.idx }));
            assert forall|j: int|
                0 <= j < c4.vals@.len() implies (#[trigger] ctx.vals@[j]).kind
                == c4.vals@[j].kind by {
                assert(ctx.vals@[j] == c4.vals@[j]);
            }
            lemma_live_preserved(c4, *ctx);
            assert(ctx.val_ok(p) && ctx.val_live_at(p.idx as int));
            let one = seq![p];
            assert forall|m: int|
                0 <= m < one.len() implies ctx.val_ok(#[trigger] one[m]) && ctx.val_live_at(
                one[m].idx as int,
            ) by {}
            assert(ctx.blk_live_at(self.cursor->Some_0.0 as int));
            assert(emit_err(*ctx, *self, seq![p]) is None);
        }
        let v = match self.build_pointer_cast(ctx, p, petyh) {
            Ok(v) => v,
            Err(_) => {
                proof {
                    assert(false);
                }
                return Err(IrError::Stale);
            },
        };
        proof {
            assert forall|j: int|
                0 <= j < old(ctx).vals@.len() implies ctx.vals@[j] == old(ctx).vals@[j] by {
                assert(c1.vals@[j] == old(ctx).vals@[j]);
                assert(c2.vals@[j] == c1.vals@[j]);
                assert(c3.vals@[j] == c2.vals@[j]);
                assert(c4.vals@[j] == c3.vals@[j]);
                assert(ctx.vals@[j] == c4.vals@[j]);
            }
            assert forall|j: int|
                0 <= j < old(ctx).blocks@.len() && j != old(self).cursor->Some_0.0 as int
                implies ctx.blocks@[j] == old(ctx).blocks@[j] by {
                assert(c2.blocks@[j] == old(ctx).blocks@[j]);
                assert(c3.blocks@[j] == c2.blocks@[j]);
                assert(c4.blocks@[j] == c3.blocks@[j]);
                assert(ctx.blocks@[j] == c4.blocks@[j]);
            }
            assert(ctx.ty_at(ctx.vals@[v.idx as int].ty as int) == (TypeData::Ptr {
                elem: ty.idx,
            }));
            assert(v.idx == old(ctx).vals@.len() + elements@.len() + 3);
            assert(ctx.vals@[v.idx as int].kind matches ValKind::Instr { block, op, args, .. }
                && block == old(self).cursor->Some_0.0 as int && op is PointerCast && args@
                =~= seq![(v.idx - 2) as usize]);
            assert(ctx.blk_at(old(self).cursor->Some_0.0 as int).instrs@.len() == old(ctx).blk_at(
                old(self).cursor->Some_0.0 as int,
            ).instrs@.len() + elements@.len() + 3);
            assert(self.cursor == Some(
                (
                    old(self).cursor->Some_0.0,
                    (old(self).cursor->Some_0.1 + elements@.len() + 3) as usize,
                ),
            ));
            assert(ctx.blk_at(old(self).cursor->Some_0.0 as int).dead == old(ctx).blk_at(
                old(self).cursor->Some_0.0 as int,
            ).dead);
            assert(ctx.blk_at(old(self).cursor->Some_0.0 as int).func == old(ctx).blk_at(
                old(self).cursor->Some_0.0 as int,
            ).func);
            assert(ctx.modules@ == old(ctx).modules@);
        }
        Ok(v)
    }

    /// Builds an insertion of the second operand into the first at the
    /// given field position; the result has the aggregate's type.
    pub fn build_insert_value(&mut self, ctx: &mut Context, agg: Value, elt: Value, index: u32) -> (r: Result<Value, IrError>)
        requires
            old(ctx).wf(),
            !old(ctx).disposed,
            old(self).wf(*old(ctx)),
        ensures
            final(ctx).wf(),
            !final(ctx).disposed,
            final(ctx).id == old(ctx).id,
            final(ctx).types@ == old(ctx).types@,
            final(self).wf(*final(ctx)),
            match r {
                Ok(v) => emit_err(*old(ctx), *old(self), seq![agg, elt]) is None && emits(
                    *old(ctx),
                    *old(self),
                    *final(ctx),
                    *final(self),
                    v,
                    (Op::InsertValue { index }),
                    seq![agg, elt],
                    old(ctx).val_at(agg.idx as int).ty as int,
                ),
                Err(e) => {
                    &&& ctx_same(*old(ctx), *final(ctx))
                    &&& *final(self) == *old(self)
                    &&& emit_err(*old(ctx), *old(self), seq![agg, elt]) == Some(e)
                },
            },
    {
        let args: Vec<Value> = vec![agg, elt];
        proof {
            assert(args@ =~= seq![agg, elt]);
        }
        match self.precheck(ctx, &args) {
            Some(e) => {
                return Err(e);
            },
            None => {},
        }
        proof {
            assert(ctx.vd_wf(ctx.vals@[agg.idx as int], agg.idx as int));
        }
        let rty = ctx.vals[agg.idx].ty;
        Ok(self.emit_at(ctx, Op::InsertValue { index }, args, rty))
    }

    /// Builds an extraction of the field at the given position of the
    /// operand aggregate.
    pub fn build_extract_value(&mut self, ctx: &mut Context, agg: Value, index: u32) -> (r: Result<Value, IrError>)
        requires
            old(ctx).wf(),
            !old(ctx).disposed,
            old(self).wf(*old(ctx)),
        ensures
            final(ctx).wf(),
            !final(ctx).disposed,
            final(ctx).id == old(ctx).id,
            final(ctx).types@ == old(ctx).types@,
            final(self).wf(*final(ctx)),
            match r {
                Ok(v) => {
                    &&& emit_err(*old(ctx), *old(self), seq![agg]) is None
                    &&& extract_ty(
                        *old(ctx),
                        old(ctx).val_at(agg.idx as int).ty as int,
                        index as int,
                    ) is Some
                    &&& emits(
                        *old(ctx),
                        *old(self),
                        *final(ctx),
                        *final(self),
                        v,
                        (Op::ExtractValue { index }),
                        seq![agg],
                        extract_ty(
                            *old(ctx),
                            old(ctx).val_at(agg.idx as int).ty as int,
                            index as int,
                        )->Some_0,
                    )
                },
                Err(e) => {
                    &&& ctx_same(*old(ctx), *final(ctx))
                    &&& *final(self) == *old(self)
                    &&& Some(e) == (if emit_err(*old(ctx), *old(self), seq![agg]) is Some {
                        emit_err(*old(ctx), *old(self), seq![agg])
                    } else {
                        Some(IrError::TypeUnknown)
                    })
                    &&& (emit_err(*old(ctx), *old(self), seq![agg]) is None ==> extract_ty(
                        *old(ctx),
                        old(ctx).val_at(agg.idx as int).ty as int,
                        index as int,
                    ) is None)
                },
            },
    {
        let args: Vec<Value> = vec![agg];
        proof {
            assert(args@ =~= seq![agg]);
        }
        match self.precheck(ctx, &args) {
            Some(e) => {
                return Err(e);
            },
            None => {},
        }
        proof {
            assert(ctx.vd_wf(ctx.vals@[agg.idx as int], agg.idx as int));
            assert(ctx.ty_wf_at(ctx.vals@[agg.idx as int].ty as int));
        }
        let at = ctx.vals[agg.idx].ty;
        let rty = match &ctx.types[at] {
            TypeData::Array { elem, .. } => *elem,
            TypeData::Struct { fields, .. } => {
                let i = index as usize;
                if i < fields.len() {
                    fields[i]
                } else {
                    return Err(IrError::TypeUnknown);
                }
            },
            TypeData::Named { fields, opaque, .. } => {
                let i = index as usize;
                if !*opaque && i < fields.len() {
                    fields[i]
                } else {
                    return Err(IrError::TypeUnknown);
                }
            },
            _ => {
                return Err(IrError::TypeUnknown);
            },
        };
        Ok(self.emit_at(ctx, Op::ExtractValue { index }, args, rty))
    }

    /// Builds a call of the first operand with the given argument list,
    /// in order. Arity and argument types are the caller's responsibility;
    /// only the callee's return type is derived here.
    pub fn build_call(&mut self, ctx: &mut Context, func: Value, call_args: Vec<Value>) -> (r: Result<Value, IrError>)
        requires
            old(ctx).wf(),
            !old(ctx).disposed,
            old(self).wf(*old(ctx)),
        ensures
            final(ctx).wf(),
            !final(ctx).disposed,
            final(ctx).id == old(ctx).id,
            final(ctx).types@ == old(ctx).types@,
            final(self).wf(*final(ctx)),
            match r {
                Ok(v) => {
                    &&& emit_err(*old(ctx), *old(self), seq![func] + call_args@) is None
                    &&& callee_ret(*old(ctx), old(ctx).val_at(func.idx as int).ty as int) is Some
                    &&& emits(
                        *old(ctx),
                        *old(self),
                        *final(ctx),
                        *final(self),
                        v,
                        Op::Call,
                        seq![func] + call_args@,
                        callee_ret(
                            *old(ctx),
                            old(ctx).val_at(func.idx as int).ty as int,
                        )->Some_0,
                    )
                },
                Err(e) => {
                    &&& ctx_same(*old(ctx), *final(ctx))
                    &&& *final(self) == *old(self)
                    &&& Some(e) == (if emit_err(*old(ctx), *old(self), seq![func] + call_args@)
                        is Some {
                        emit_err(*old(ctx), *old(self), seq![func] + call_args@)
                    } else {
                        Some(IrError::TypeUnknown)
                    })
                    &&& (emit_err(*old(ctx), *old(self), seq![func] + call_args@) is None
                        ==> callee_ret(
                        *old(ctx),
                        old(ctx).val_at(func.idx as int).ty as int,
                    ) is None)
                },
            },
    {
        let n = call_args.len();
        let mut args: Vec<Value> = Vec::new();
        args.push(func);
        let mut i: usize = 0;
        while i < n
            invariant
                i <= n,
                n == call_args@.len(),
                args@.len() == i + 1,
                args@[0] == func,
                forall|j: int| 1 <= j <= i ==> #[trigger] args@[j] == call_args@[j - 1],
            decreases n - i,
        {
            args.push(call_args[i]);
            i += 1;
        }
        proof {
            assert(args@ =~= seq![func] + call_args@);
        }
        match self.precheck(ctx, &args) {
            Some(e) => {
                return Err(e);
            },
            None => {},
        }
        proof {
            assert(ctx.vd_wf(ctx.vals@[func.idx as int], func.idx as int));
            assert(ctx.ty_wf_at(ctx.vals@[func.idx as int].ty as int));
        }
        let ft = ctx.vals[func.idx].ty;
        let rty = match &ctx.types[ft] {
            TypeData::FnTy { ret, .. } => *ret,
            TypeData::Ptr { elem } => {
                let e = *elem;
                proof {
                    assert(ctx.ty_wf_at(ctx.vals@[func.idx as int].ty as int));
                    assert(ctx.ty_wf_at(e as int));
                }
                match &ctx.types[e] {
                    TypeData::FnTy { ret, .. } => *ret,
                    _ => {
                        return Err(IrError::TypeUnknown);
                    },
                }
            },
            _ => {
                return Err(IrError::TypeUnknown);
            },
        };
        proof {
            assert(ctx.ty_wf_at(ctx.vals@[func.idx as int].ty as int));
        }
        Ok(self.emit_at(ctx, Op::Call, args, rty))
    }

    /// Builds an integer subtraction of the two operands.
    pub fn build_int_sub(&mut self, ctx: &mut Context, a: Value, b: Value) -> (r: Result<
        Value,
        IrError,
    >)
        requires
            old(ctx).wf(),
            !old(ctx).disposed,
            old(self).wf(*old(ctx)),
        ensures
            final(ctx).wf(),
            !final(ctx).disposed,
            final(ctx).id == old(ctx).id,
            final(ctx).types@ == old(ctx).types@,
            final(self).wf(*final(ctx)),
            match r {
                Ok(v) => emit_err(*old(ctx), *old(self), seq![a, b]) is None && emits(
                    *old(ctx),
                    *old(self),
                    *final(ctx),
                    *final(self),
                    v,
                    (Op::IntSub),
                    seq![a, b],
                    old(ctx).val_at(a.idx as int).ty as int,
                ),
                Err(e) => {
                    &&& ctx_same(*old(ctx), *final(ctx))
                    &&& *final(self) == *old(self)
                    &&& emit_err(*old(ctx), *old(self), seq![a, b]) == Some(e)
                },
            },
    {
        let args: Vec<Value> = vec![a, b];
        match self.precheck(ctx, &args) {
            Some(e) => {
                return Err(e);
            },
            None => {},
        }
        proof {
            assert(args@ =~= seq![a, b]);
        }
        proof {
            assert(ctx.vd_wf(ctx.vals@[a.idx as int], a.idx as int));
        }
        let rty = ctx.vals[a.idx].ty;
        Ok(self.emit_at(ctx, Op::IntSub, args, rty))
    }

    /// Builds an integer multiplication of the two operands.
    pub fn build_int_mul(&mut self, ctx: &mut Context, a: Value, b: Value) -> (r: Result<
        Value,
        IrError,
    >)
        requires
            old(ctx).wf(),
            !old(ctx).disposed,
            old(self).wf(*old(ctx)),
        ensures
            final(ctx).wf(),
            !final(ctx).disposed,
            final(ctx).id == old(ctx).id,
            final(ctx).types@ == old(ctx).types@,
            final(self).wf(*final(ctx)),
            match r {
                Ok(v) => emit_err(*old(ctx), *old(self), seq![a, b]) is None && emits(
                    *old(ctx),
                    *old(self),
                    *final(ctx),
                    *final(self),
                    v,
                    (Op::IntMul),
                    seq![a, b],
                    old(ctx).val_at(a.idx as int).ty as int,
                ),
                Err(e) => {
                    &&& ctx_same(*old(ctx), *final(ctx))
                    &&& *final(self) == *old(self)
                    &&& emit_err(*old(ctx), *old(self), seq![a, b]) == Some(e)
                },
            },
    {
        let args: Vec<Value> = vec![a, b];
        match self.precheck(ctx, &args) {
            Some(e) => {
                return Err(e);
            },
            None => {},
        }
        proof {
            assert(args@ =~= seq![a, b]);
        }
        proof {
            assert(ctx.vd_wf(ctx.vals@[a.idx as int], a.idx as int));
        }
        let rty = ctx.vals[a.idx].ty;
        Ok(self.emit_at(ctx, Op::IntMul, args, rty))
    }

    /// Builds an unsigned integer division of the two operands.
    pub fn build_int_udiv(&mut self, ctx: &mut Context, a: Value, b: Value) -> (r: Result<
        Value,
        IrError,
    >)
        requires
            old(ctx).wf(),
            !old(ctx).disposed,
            old(self).wf(*old(ctx)),
        ensures
            final(ctx).wf(),
            !final(ctx).disposed,
            final(ctx).id == old(ctx).id,
            final(ctx).types@ == old(ctx).types@,
            final(self).wf(*final(ctx)),
            match r {
                Ok(v) => emit_err(*old(ctx), *old(self), seq![a, b]) is None && emits(
                    *old(ctx),
                    *old(self),
                    *final(ctx),
                    *final(self),
                    v,
                    (Op::IntUDiv),
                    seq![a, b],
                    old(ctx).val_at(a.idx as int).ty as int,
                ),
                Err(e) => {
                    &&& ctx_same(*old(ctx), *final(ctx))
                    &&& *final(self) == *old(self)
                    &&& emit_err(*old(ctx), *old(self), seq![a, b]) == Some(e)
                },
            },
    {
        let args: Vec<Value> = vec![a, b];
        match self.precheck(ctx, &args) {
            Some(e) => {
                return Err(e);
            },
            None => {},
        }
        proof {
            assert(args@ =~= seq![a, b]);
        }
        proof {
            assert(ctx.vd_wf(ctx.vals@[a.idx as int], a.idx as int));
        }
        let rty = ctx.vals[a.idx].ty;
        Ok(self.emit_at(ctx, Op::IntUDiv, args, rty))
    }

    /// Builds a signed integer division of the two operands.
    pub fn build_int_sdiv(&mut self, ctx: &mut Context, a: Value, b: Value) -> (r: Result<
        Value,
        IrError,
    >)
        requires
            old(ctx).wf(),
            !old(ctx).disposed,
            old(self).wf(*old(ctx)),
        ensures
            final(ctx).wf(),
            !final(ctx).disposed,
            final(ctx).id == old(ctx).id,
            final(ctx).types@ == old(ctx).types@,
            final(self).wf(*final(ctx)),
            match r {
                Ok(v) => emit_err(*old(ctx), *old(self), seq![a, b]) is None && emits(
                    *old(ctx),
                    *old(self),
                    *final(ctx),
                    *final(self),
                    v,
                    (Op::IntSDiv),
                    seq![a, b],
                    old(ctx).val_at(a.idx as int).ty as int,
                ),
                Err(e) => {
                    &&& ctx_same(*old(ctx), *final(ctx))
                    &&& *final(self) == *old(self)
                    &&& emit_err(*old(ctx), *old(self), seq![a, b]) == Some(e)
                },
            },
    {
        let args: Vec<Value> = vec![a, b];
        match self.precheck(ctx, &args) {
            Some(e) => {
                return Err(e);
            },
            None => {},
        }
        proof {
            assert(args@ =~= seq![a, b]);
        }
        proof {
            assert(ctx.vd_wf(ctx.vals@[a.idx as int], a.idx as int));
        }
        let rty = ctx.vals[a.idx].ty;
        Ok(self.emit_at(ctx, Op::IntSDiv, args, rty))
    }

    /// Builds an unsigned integer remainder of the two operands.
    pub fn build_int_urem(&mut self, ctx: &mut Context, a: Value, b: Value) -> (r: Result<
        Value,
        IrError,
    >)
        requires
            old(ctx).wf(),
            !old(ctx).disposed,
            old(self).wf(*old(ctx)),
        ensures
            final(ctx).wf(),
            !final(ctx).disposed,
            final(ctx).id == old(ctx).id,
            final(ctx).types@ == old(ctx).types@,
            final(self).wf(*final(ctx)),
            match r {
                Ok(v) => emit_err(*old(ctx), *old(self), seq![a, b]) is None && emits(
                    *old(ctx),
                    *old(self),
                    *final(ctx),
                    *final(self),
                    v,
                    (Op::IntURem),
                    seq![a, b],
                    old(ctx).val_at(a.idx as int).ty as int,
                ),
                Err(e) => {
                    &&& ctx_same(*old(ctx), *final(ctx))
                    &&& *final(self) == *old(self)
                    &&& emit_err(*old(ctx), *old(self), seq![a, b]) == Some(e)
                },
            },
    {
        let args: Vec<Value> = vec![a, b];
        match self.precheck(ctx, &args) {
            Some(e) => {
                return Err(e);
            },
            None => {},
        }
        proof {
            assert(args@ =~= seq![a, b]);
        }
        proof {
            assert(ctx.vd_wf(ctx.vals@[a.idx as int], a.idx as int));
        }
        let rty = ctx.vals[a.idx].ty;
        Ok(self.emit_at(ctx, Op::IntURem, args, rty))
    }

    /// Builds a signed integer remainder of the two operands.
    pub fn build_int_srem(&mut self, ctx: &mut Context, a: Value, b: Value) -> (r: Result<
        Value,
        IrError,
    >)
        requires
            old(ctx).wf(),
            !old(ctx).disposed,
            old(self).wf(*old(ctx)),
        ensures
            final(ctx).wf(),
            !final(ctx).disposed,
            final(ctx).id == old(ctx).id,
            final(ctx).types@ == old(ctx).types@,
            final(self).wf(*final(ctx)),
            match r {
                Ok(v) => emit_err(*old(ctx), *old(self), seq![a, b]) is None && emits(
                    *old(ctx),
                    *old(self),
                    *final(ctx),
                    *final(self),
                    v,
                    (Op::IntSRem),
                    seq![a, b],
                    old(ctx).val_at(a.idx as int).ty as int,
                ),
                Err(e) => {
                    &&& ctx_same(*old(ctx), *final(ctx))
                    &&& *final(self) == *old(self)
                    &&& emit_err(*old(ctx), *old(self), seq![a, b]) == Some(e)
                },
            },
    {
        let args: Vec<Value> = vec![a, b];
        match self.precheck(ctx, &args) {
            Some(e) => {
                return Err(e);
            },
            None => {},
        }
        proof {
            assert(args@ =~= seq![a, b]);
        }
        proof {
            assert(ctx.vd_wf(ctx.vals@[a.idx as int], a.idx as int));
        }
        let rty = ctx.vals[a.idx].ty;
        Ok(self.emit_at(ctx, Op::IntSRem, args, rty))
    }

    /// Builds a floating-point addition of the two operands.
    pub fn build_float_add(&mut self, ctx: &mut Context, a: Value, b: Value) -> (r: Result<
        Value,
        IrError,
    >)
        requires
            old(ctx).wf(),
            !old(ctx).disposed,
            old(self).wf(*old(ctx)),
        ensures
            final(ctx).wf(),
            !final(ctx).disposed,
            final(ctx).id == old(ctx).id,
            final(ctx).types@ == old(ctx).types@,
            final(self).wf(*final(ctx)),
            match r {
                Ok(v) => emit_err(*old(ctx), *old(self), seq![a, b]) is None && emits(
                    *old(ctx),
                    *old(self),
                    *final(ctx),
                    *final(self),
                    v,
                    (Op::FAdd),
                    seq![a, b],
                    old(ctx).val_at(a.idx as int).ty as int,
                ),
                Err(e) => {
                    &&& ctx_same(*old(ctx), *final(ctx))
                    &&& *final(self) == *old(self)
                    &&& emit_err(*old(ctx), *old(self), seq![a, b]) == Some(e)
                },
            },
    {
        let args: Vec<Value> = vec![a, b];
        match self.precheck(ctx, &args) {
            Some(e) => {
                return Err(e);
            },
            None => {},
        }
        proof {
            assert(args@ =~= seq![a, b]);
        }
        proof {
            assert(ctx.vd_wf(ctx.vals@[a.idx as int], a.idx as int));
        }
        let rty = ctx.vals[a.idx].ty;
        Ok(self.emit_at(ctx, Op::FAdd, args, rty))
    }

    /// Builds a floating-point subtraction of the two operands.
    pub fn build_float_sub(&mut self, ctx: &mut Context, a: Value, b: Value) -> (r: Result<
        Value,
        IrError,
    >)
        requires
            old(ctx).wf(),
            !old(ctx).disposed,
            old(self).wf(*old(ctx)),
        ensures
            final(ctx).wf(),
            !final(ctx).disposed,
            final(ctx).id == old(ctx).id,
            final(ctx).types@ == old(ctx).types@,
            final(self).wf(*final(ctx)),
            match r {
                Ok(v) => emit_err(*old(ctx), *old(self), seq![a, b]) is None && emits(
                    *old(ctx),
                    *old(self),
                    *final(ctx),
                    *final(self),
                    v,
                    (Op::FSub),
                    seq![a, b],
                    old(ctx).val_at(a.idx as int).ty as int,
                ),
                Err(e) => {
                    &&& ctx_same(*old(ctx), *final(ctx))
                    &&& *final(self) == *old(self)
                    &&& emit_err(*old(ctx), *old(self), seq![a, b]) == Some(e)
                },
            },
    {
        let args: Vec<Value> = vec![a, b];
        match self.precheck(ctx, &args) {
            Some(e) => {
                return Err(e);
            },
            None => {},
        }
        proof {
            assert(args@ =~= seq![a, b]);
        }
        proof {
            assert(ctx.vd_wf(ctx.vals@[a.idx as int], a.idx as int));
        }
        let rty = ctx.vals[a.idx].ty;
        Ok(self.emit_at(ctx, Op::FSub, args, rty))
    }

    /// Builds a floating-point multiplication of the two operands.
    pub fn build_float_mul(&mut self, ctx: &mut Context, a: Value, b: Value) -> (r: Result<
        Value,
        IrError,
    >)
        requires
            old(ctx).wf(),
            !old(ctx).disposed,
            old(self).wf(*old(ctx)),
        ensures
            final(ctx).wf(),
            !final(ctx).disposed,
            final(ctx).id == old(ctx).id,
            final(ctx).types@ == old(ctx).types@,
            final(self).wf(*final(ctx)),
            match r {
                Ok(v) => emit_err(*old(ctx), *old(self), seq![a, b]) is None && emits(
                    *old(ctx),
                    *old(self),
                    *final(ctx),
                    *final(self),
                    v,
                    (Op::FMul),
                    seq![a, b],
                    old(ctx).val_at(a.idx as int).ty as int,
                ),
                Err(e) => {
                    &&& ctx_same(*old(ctx), *final(ctx))
                    &&& *final(self) == *old(self)
                    &&& emit_err(*old(ctx), *old(self), seq![a, b]) == Some(e)
                },
            },
    {
        let args: Vec<Value> = vec![a, b];
        match self.precheck(ctx, &args) {
            Some(e) => {
                return Err(e);
            },
            None => {},
        }
        proof {
            assert(args@ =~= seq![a, b]);
        }
        proof {
            assert(ctx.vd_wf(ctx.vals@[a.idx as int], a.idx as int));
        }
        let rty = ctx.vals[a.idx].ty;
        Ok(self.emit_at(ctx, Op::FMul, args, rty))
    }

    /// Builds a floating-point division of the two operands.
    pub fn build_float_div(&mut self, ctx: &mut Context, a: Value, b: Value) -> (r: Result<
        Value,
        IrError,
    >)
        requires
            old(ctx).wf(),
            !old(ctx).disposed,
            old(self).wf(*old(ctx)),
        ensures
            final(ctx).wf(),
            !final(ctx).disposed,
            final(ctx).id == old(ctx).id,
            final(ctx).types@ == old(ctx).types@,
            final(self).wf(*final(ctx)),
            match r {
                Ok(v) => emit_err(*old(ctx), *old(self), seq![a, b]) is None && emits(
                    *old(ctx),
                    *old(self),
                    *final(ctx),
                    *final(self),
                    v,
                    (Op::FDiv),
                    seq![a, b],
                    old(ctx).val_at(a.idx as int).ty as int,
                ),
                Err(e) => {
                    &&& ctx_same(*old(ctx), *final(ctx))
                    &&& *final(self) == *old(self)
                    &&& emit_err(*old(ctx), *old(self), seq![a, b]) == Some(e)
                },
            },
    {
        let args: Vec<Value> = vec![a, b];
        match self.precheck(ctx, &args) {
            Some(e) => {
                return Err(e);
            },
            None => {},
        }
        proof {
            assert(args@ =~= seq![a, b]);
        }
        proof {
            assert(ctx.vd_wf(ctx.vals@[a.idx as int], a.idx as int));
        }
        let rty = ctx.vals[a.idx].ty;
        Ok(self.emit_at(ctx, Op::FDiv, args, rty))
    }

    /// Builds a floating-point remainder of the two operands.
    pub fn build_float_rem(&mut self, ctx: &mut Context, a: Value, b: Value) -> (r: Result<
        Value,
        IrError,
    >)
        requires
            old(ctx).wf(),
            !old(ctx).disposed,
            old(self).wf(*old(ctx)),
        ensures
            final(ctx).wf(),
            !final(ctx).disposed,
            final(ctx).id == old(ctx).id,
            final(ctx).types@ == old(ctx).types@,
            final(self).wf(*final(ctx)),
            match r {
                Ok(v) => emit_err(*old(ctx), *old(self), seq![a, b]) is None && emits(
                    *old(ctx),
                    *old(self),
                    *final(ctx),
                    *final(self),
                    v,
                    (Op::FRem),
                    seq![a, b],
                    old(ctx).val_at(a.idx as int).ty as int,
                ),
                Err(e) => {
                    &&& ctx_same(*old(ctx), *final(ctx))
                    &&& *final(self) == *old(self)
                    &&& emit_err(*old(ctx), *old(self), seq![a, b]) == Some(e)
                },
            },
    {
        let args: Vec<Value> = vec![a, b];
        match self.precheck(ctx, &args) {
            Some(e) => {
                return Err(e);
            },
            None => {},
        }
        proof {
            assert(args@ =~= seq![a, b]);
        }
        proof {
            assert(ctx.vd_wf(ctx.vals@[a.idx as int], a.idx as int));
        }
        let rty = ctx.vals[a.idx].ty;
        Ok(self.emit_at(ctx, Op::FRem, args, rty))
    }

    /// Builds an integer equality comparison.
    pub fn build_int_eq(&mut self, ctx: &mut Context, a: Value, b: Value) -> (r: Result<
        Value,
        IrError,
    >)
        requires
            old(ctx).wf(),
            !old(ctx).disposed,
            old(self).wf(*old(ctx)),
        ensures
            final(ctx).wf(),
            !final(ctx).disposed,
            final(ctx).id == old(ctx).id,
            final(ctx).types@ == old(ctx).types@,
            final(self).wf(*final(ctx)),
            match r {
                Ok(v) => emit_err(*old(ctx), *old(self), seq![a, b]) is None && emits(
                    *old(ctx),
                    *old(self),
                    *final(ctx),
                    *final(self),
                    v,
                    (Op::ICmp { pred: IntPred::Eq }),
                    seq![a, b],
                    1,
                ),
                Err(e) => {
                    &&& ctx_same(*old(ctx), *final(ctx))
                    &&& *final(self) == *old(self)
                    &&& emit_err(*old(ctx), *old(self), seq![a, b]) == Some(e)
                },
            },
    {
        let args: Vec<Value> = vec![a, b];
        match self.precheck(ctx, &args) {
            Some(e) => {
                return Err(e);
            },
            None => {},
        }
        proof {
            assert(args@ =~= seq![a, b]);
        }
        let rty: usize = 1;
        Ok(self.emit_at(ctx, Op::ICmp { pred: IntPred::Eq }, args, rty))
    }

    /// Builds an integer inequality comparison.
    pub fn build_int_ne(&mut self, ctx: &mut Context, a: Value, b: Value) -> (r: Result<
        Value,
        IrError,
    >)
        requires
            old(ctx).wf(),
            !old(ctx).disposed,
            old(self).wf(*old(ctx)),
        ensures
            final(ctx).wf(),
            !final(ctx).disposed,
            final(ctx).id == old(ctx).id,
            final(ctx).types@ == old(ctx).types@,
            final(self).wf(*final(ctx)),
            match r {
                Ok(v) => emit_err(*old(ctx), *old(self), seq![a, b]) is None && emits(
                    *old(ctx),
                    *old(self),
                    *final(ctx),
                    *final(self),
                    v,
                    (Op::ICmp { pred: IntPred::Ne }),
                    seq![a, b],
                    1,
                ),
                Err(e) => {
                    &&& ctx_same(*old(ctx), *final(ctx))
                    &&& *final(self) == *old(self)
                    &&& emit_err(*old(ctx), *old(self), seq![a, b]) == Some(e)
                },
            },
    {
        let args: Vec<Value> = vec![a, b];
        match self.precheck(ctx, &args) {
            Some(e) => {
                return Err(e);
            },
            None => {},
        }
        proof {
            assert(args@ =~= seq![a, b]);
        }
        let rty: usize = 1;
        Ok(self.emit_at(ctx, Op::ICmp { pred: IntPred::Ne }, args, rty))
    }

    /// Builds an unsigned less-or-equal comparison.
    pub fn build_int_ule(&mut self, ctx: &mut Context, a: Value, b: Value) -> (r: Result<
        Value,
        IrError,
    >)
        requires
            old(ctx).wf(),
            !old(ctx).disposed,
            old(self).wf(*old(ctx)),
        ensures
            final(ctx).wf(),
            !final(ctx).disposed,
            final(ctx).id == old(ctx).id,
            final(ctx).types@ == old(ctx).types@,
            final(self).wf(*final(ctx)),
            match r {
                Ok(v) => emit_err(*old(ctx), *old(self), seq![a, b]) is None && emits(
                    *old(ctx),
                    *old(self),
                    *final(ctx),
                    *final(self),
                    v,
                    (Op::ICmp { pred: IntPred::Ule }),
                    seq![a, b],
                    1,
                ),
                Err(e) => {
                    &&& ctx_same(*old(ctx), *final(ctx))
                    &&& *final(self) == *old(self)
                    &&& emit_err(*old(ctx), *old(self), seq![a, b]) == Some(e)
                },
            },
    {
        let args: Vec<Value> = vec![a, b];
        match self.precheck(ctx, &args) {
            Some(e) => {
                return Err(e);
            },
            None => {},
        }
        proof {
            assert(args@ =~= seq![a, b]);
        }
        let rty: usize = 1;
        Ok(self.emit_at(ctx, Op::ICmp { pred: IntPred::Ule }, args, rty))
    }

    /// Builds an unsigned less-than comparison.
    pub fn build_int_ult(&mut self, ctx: &mut Context, a: Value, b: Value) -> (r: Result<
        Value,
        IrError,
    >)
        requires
            old(ctx).wf(),
            !old(ctx).disposed,
            old(self).wf(*old(ctx)),
        ensures
            final(ctx).wf(),
            !final(ctx).disposed,
            final(ctx).id == old(ctx).id,
            final(ctx).types@ == old(ctx).types@,
            final(self).wf(*final(ctx)),
            match r {
                Ok(v) => emit_err(*old(ctx), *old(self), seq![a, b]) is None && emits(
                    *old(ctx),
                    *old(self),
                    *final(ctx),
                    *final(self),
                    v,
                    (Op::ICmp { pred: IntPred::Ult }),
                    seq![a, b],
                    1,
                ),
                Err(e) => {
                    &&& ctx_same(*old(ctx), *final(ctx))
                    &&& *final(self) == *old(self)
                    &&& emit_err(*old(ctx), *old(self), seq![a, b]) == Some(e)
                },
            },
    {
        let args: Vec<Value> = vec![a, b];
        match self.precheck(ctx, &args) {
            Some(e) => {
                return Err(e);
            },
            None => {},
        }
        proof {
            assert(args@ =~= seq![a, b]);
        }
        let rty: usize = 1;
        Ok(self.emit_at(ctx, Op::ICmp { pred: IntPred::Ult }, args, rty))
    }

    /// Builds an unsigned greater-or-equal comparison.
    pub fn build_int_uge(&mut self, ctx: &mut Context, a: Value, b: Value) -> (r: Result<
        Value,
        IrError,
    >)
        requires
            old(ctx).wf(),
            !old(ctx).disposed,
            old(self).wf(*old(ctx)),
        ensures
            final(ctx).wf(),
            !final(ctx).disposed,
            final(ctx).id == old(ctx).id,
            final(ctx).types@ == old(ctx).types@,
            final(self).wf(*final(ctx)),
            match r {
                Ok(v) => emit_err(*old(ctx), *old(self), seq![a, b]) is None && emits(
                    *old(ctx),
                    *old(self),
                    *final(ctx),
                    *final(self),
                    v,
                    (Op::ICmp { pred: IntPred::Uge }),
                    seq![a, b],
                    1,
                ),
                Err(e) => {
                    &&& ctx_same(*old(ctx), *final(ctx))
                    &&& *final(self) == *old(self)
                    &&& emit_err(*old(ctx), *old(self), seq![a, b]) == Some(e)
                },
            },
    {
        let args: Vec<Value> = vec![a, b];
        match self.precheck(ctx, &args) {
            Some(e) => {
                return Err(e);
            },
            None => {},
        }
        proof {
            assert(args@ =~= seq![a, b]);
        }
        let rty: usize = 1;
        Ok(self.emit_at(ctx, Op::ICmp { pred: IntPred::Uge }, args, rty))
    }

    /// Builds an unsigned greater-than comparison.
    pub fn build_int_ugt(&mut self, ctx: &mut Context, a: Value, b: Value) -> (r: Result<
        Value,
        IrError,
    >)
        requires
            old(ctx).wf(),
            !old(ctx).disposed,
            old(self).wf(*old(ctx)),
        ensures
            final(ctx).wf(),
            !final(ctx).disposed,
            final(ctx).id == old(ctx).id,
            final(ctx).types@ == old(ctx).types@,
            final(self).wf(*final(ctx)),
            match r {
                Ok(v) => emit_err(*old(ctx), *old(self), seq![a, b]) is None && emits(
                    *old(ctx),
                    *old(self),
                    *final(ctx),
                    *final(self),
                    v,
                    (Op::ICmp { pred: IntPred::Ugt }),
                    seq![a, b],
                    1,
                ),
                Err(e) => {
                    &&& ctx_same(*old(ctx), *final(ctx))
                    &&& *final(self) == *old(self)
                    &&& emit_err(*old(ctx), *old(self), seq![a, b]) == Some(e)
                },
            },
    {
        let args: Vec<Value> = vec![a, b];
        match self.precheck(ctx, &args) {
            Some(e) => {
                return Err(e);
            },
            None => {},
        }
        proof {
            assert(args@ =~= seq![a, b]);
        }
        let rty: usize = 1;
        Ok(self.emit_at(ctx, Op::ICmp { pred: IntPred::Ugt }, args, rty))
    }

    /// Builds a signed less-or-equal comparison.
    pub fn build_int_sle(&mut self, ctx: &mut Context, a: Value, b: Value) -> (r: Result<
        Value,
        IrError,
    >)
        requires
            old(ctx).wf(),
            !old(ctx).disposed,
            old(self).wf(*old(ctx)),
        ensures
            final(ctx).wf(),
            !final(ctx).disposed,
            final(ctx).id == old(ctx).id,
            final(ctx).types@ == old(ctx).types@,
            final(self).wf(*final(ctx)),
            match r {
                Ok(v) => emit_err(*old(ctx), *old(self), seq![a, b]) is None && emits(
                    *old(ctx),
                    *old(self),
                    *final(ctx),
                    *final(self),
                    v,
                    (Op::ICmp { pred: IntPred::Sle }),
                    seq![a, b],
                    1,
                ),
                Err(e) => {
                    &&& ctx_same(*old(ctx), *final(ctx))
                    &&& *final(self) == *old(self)
                    &&& emit_err(*old(ctx), *old(self), seq![a, b]) == Some(e)
                },
            },
    {
        let args: Vec<Value> = vec![a, b];
        match self.precheck(ctx, &args) {
            Some(e) => {
                return Err(e);
            },
            None => {},
        }
        proof {
            assert(args@ =~= seq![a, b]);
        }
        let rty: usize = 1;
        Ok(self.emit_at(ctx, Op::ICmp { pred: IntPred::Sle }, args, rty))
    }

    /// Builds a signed less-than comparison.
    pub fn build_int_slt(&mut self, ctx: &mut Context, a: Value, b: Value) -> (r: Result<
        Value,
        IrError,
    >)
        requires
            old(ctx).wf(),
            !old(ctx).disposed,
            old(self).wf(*old(ctx)),
        ensures
            final(ctx).wf(),
            !final(ctx).disposed,
            final(ctx).id == old(ctx).id,
            final(ctx).types@ == old(ctx).types@,
            final(self).wf(*final(ctx)),
            match r {
                Ok(v) => emit_err(*old(ctx), *old(self), seq![a, b]) is None && emits(
                    *old(ctx),
                    *old(self),
                    *final(ctx),
                    *final(self),
                    v,
                    (Op::ICmp { pred: IntPred::Slt }),
                    seq![a, b],
                    1,
                ),
                Err(e) => {
                    &&& ctx_same(*old(ctx), *final(ctx))
                    &&& *final(self) == *old(self)
                    &&& emit_err(*old(ctx), *old(self), seq![a, b]) == Some(e)
                },
            },
    {
        let args: Vec<Value> = vec![a, b];
        match self.precheck(ctx, &args) {
            Some(e) => {
                return Err(e);
            },
            None => {},
        }
        proof {
            assert(args@ =~= seq![a, b]);
        }
        let rty: usize = 1;
        Ok(self.emit_at(ctx, Op::ICmp { pred: IntPred::Slt }, args, rty))
    }

    /// Builds a signed greater-or-equal comparison.
    pub fn build_int_sge(&mut self, ctx: &mut Context, a: Value, b: Value) -> (r: Result<
        Value,
        IrError,
    >)
        requires
            old(ctx).wf(),
            !old(ctx).disposed,
            old(self).wf(*old(ctx)),
        ensures
            final(ctx).wf(),
            !final(ctx).disposed,
            final(ctx).id == old(ctx).id,
            final(ctx).types@ == old(ctx).types@,
            final(self).wf(*final(ctx)),
            match r {
                Ok(v) => emit_err(*old(ctx), *old(self), seq![a, b]) is None && emits(
                    *old(ctx),
                    *old(self),
                    *final(ctx),
                    *final(self),
                    v,
                    (Op::ICmp { pred: IntPred::Sge }),
                    seq![a, b],
                    1,
                ),
                Err(e) => {
                    &&& ctx_same(*old(ctx), *final(ctx))
                    &&& *final(self) == *old(self)
                    &&& emit_err(*old(ctx), *old(self), seq![a, b]) == Some(e)
                },
            },
    {
        let args: Vec<Value> = vec![a, b];
        match self.precheck(ctx, &args) {
            Some(e) => {
                return Err(e);
            },
            None => {},
        }
        proof {
            assert(args@ =~= seq![a, b]);
        }
        let rty: usize = 1;
        Ok(self.emit_at(ctx, Op::ICmp { pred: IntPred::Sge }, args, rty))
    }

    /// Builds a signed greater-than comparison.
    pub fn build_int_sgt(&mut self, ctx: &mut Context, a: Value, b: Value) -> (r: Result<
        Value,
        IrError,
    >)
        requires
            old(ctx).wf(),
            !old(ctx).disposed,
            old(self).wf(*old(ctx)),
        ensures
            final(ctx).wf(),
            !final(ctx).disposed,
            final(ctx).id == old(ctx).id,
            final(ctx).types@ == old(ctx).types@,
            final(self).wf(*final(ctx)),
            match r {
                Ok(v) => emit_err(*old(ctx), *old(self), seq![a, b]) is None && emits(
                    *old(ctx),
                    *old(self),
                    *final(ctx),
                    *final(self),
                    v,
                    (Op::ICmp { pred: IntPred::Sgt }),
                    seq![a, b],
                    1,
                ),
                Err(e) => {
                    &&& ctx_same(*old(ctx), *final(ctx))
                    &&& *final(self) == *old(self)
                    &&& emit_err(*old(ctx), *old(self), seq![a, b]) == Some(e)
                },
            },
    {
        let args: Vec<Value> = vec![a, b];
        match self.precheck(ctx, &args) {
            Some(e) => {
                return Err(e);
            },
            None => {},
        }
        proof {
            assert(args@ =~= seq![a, b]);
        }
        let rty: usize = 1;
        Ok(self.emit_at(ctx, Op::ICmp { pred: IntPred::Sgt }, args, rty))
    }

    /// Builds a floating-point equality comparison, true on a NaN operand.
    pub fn build_float_eq(&mut self, ctx: &mut Context, a: Value, b: Value) -> (r: Result<
        Value,
        IrError,
    >)
        requires
            old(ctx).wf(),
            !old(ctx).disposed,
            old(self).wf(*old(ctx)),
        ensures
            final(ctx).wf(),
            !final(ctx).disposed,
            final(ctx).id == old(ctx).id,
            final(ctx).types@ == old(ctx).types@,
            final(self).wf(*final(ctx)),
            match r {
                Ok(v) => emit_err(*old(ctx), *old(self), seq![a, b]) is None && emits(
                    *old(ctx),
                    *old(self),
                    *final(ctx),
                    *final(self),
                    v,
                    (Op::FCmp { rpred: RealPred::Ueq }),
                    seq![a, b],
                    1,
                ),
                Err(e) => {
                    &&& ctx_same(*old(ctx), *final(ctx))
                    &&& *final(self) == *old(self)
                    &&& emit_err(*old(ctx), *old(self), seq![a, b]) == Some(e)
                },
            },
    {
        let args: Vec<Value> = vec![a, b];
        match self.precheck(ctx, &args) {
            Some(e) => {
                return Err(e);
            },
            None => {},
        }
        proof {
            assert(args@ =~= seq![a, b]);
        }
        let rty: usize = 1;
        Ok(self.emit_at(ctx, Op::FCmp { rpred: RealPred::Ueq }, args, rty))
    }

    /// Builds a floating-point inequality comparison, true on a NaN operand.
    pub fn build_float_ne(&mut self, ctx: &mut Context, a: Value, b: Value) -> (r: Result<
        Value,
        IrError,
    >)
        requires
            old(ctx).wf(),
            !old(ctx).disposed,
            old(self).wf(*old(ctx)),
        ensures
            final(ctx).wf(),
            !final(ctx).disposed,
            final(ctx).id == old(ctx).id,
            final(ctx).types@ == old(ctx).types@,
            final(self).wf(*final(ctx)),
            match r {
                Ok(v) => emit_err(*old(ctx), *old(self), seq![a, b]) is None && emits(
                    *old(ctx),
                    *old(self),
                    *final(ctx),
                    *final(self),
                    v,
                    (Op::FCmp { rpred: RealPred::Une }),
                    seq![a, b],
                    1,
                ),
                Err(e) => {
                    &&& ctx_same(*old(ctx), *final(ctx))
                    &&& *final(self) == *old(self)
                    &&& emit_err(*old(ctx), *old(self), seq![a, b]) == Some(e)
                },
            },
    {
        let args: Vec<Value> = vec![a, b];
        match self.precheck(ctx, &args) {
            Some(e) => {
                return Err(e);
            },
            None => {},
        }
        proof {
            assert(args@ =~= seq![a, b]);
        }
        let rty: usize = 1;
        Ok(self.emit_at(ctx, Op::FCmp { rpred: RealPred::Une }, args, rty))
    }

    /// Builds a floating-point less-or-equal comparison, true on a NaN operand.
    pub fn build_float_le(&mut self, ctx: &mut Context, a: Value, b: Value) -> (r: Result<
        Value,
        IrError,
    >)
        requires
            old(ctx).wf(),
            !old(ctx).disposed,
            old(self).wf(*old(ctx)),
        ensures
            final(ctx).wf(),
            !final(ctx).disposed,
            final(ctx).id == old(ctx).id,
            final(ctx).types@ == old(ctx).types@,
            final(self).wf(*final(ctx)),
            match r {
                Ok(v) => emit_err(*old(ctx), *old(self), seq![a, b]) is None && emits(
                    *old(ctx),
                    *old(self),
                    *final(ctx),
                    *final(self),
                    v,
                    (Op::FCmp { rpred: RealPred::Ule }),
                    seq![a, b],
                    1,
                ),
                Err(e) => {
                    &&& ctx_same(*old(ctx), *final(ctx))
                    &&& *final(self) == *old(self)
                    &&& emit_err(*old(ctx), *old(self), seq![a, b]) == Some(e)
                },
            },
    {
        let args: Vec<Value> = vec![a, b];
        match self.precheck(ctx, &args) {
            Some(e) => {
                return Err(e);
            },
            None => {},
        }
        proof {
            assert(args@ =~= seq![a, b]);
        }
        let rty: usize = 1;
        Ok(self.emit_at(ctx, Op::FCmp { rpred: RealPred::Ule }, args, rty))
    }

    /// Builds a floating-point less-than comparison, true on a NaN operand.
    pub fn build_float_lt(&mut self, ctx: &mut Context, a: Value, b: Value) -> (r: Result<
        Value,
        IrError,
    >)
        requires
            old(ctx).wf(),
            !old(ctx).disposed,
            old(self).wf(*old(ctx)),
        ensures
            final(ctx).wf(),
            !final(ctx).disposed,
            final(ctx).id == old(ctx).id,
            final(ctx).types@ == old(ctx).types@,
            final(self).wf(*final(ctx)),
            match r {
                Ok(v) => emit_err(*old(ctx), *old(self), seq![a, b]) is None && emits(
                    *old(ctx),
                    *old(self),
                    *final(ctx),
                    *final(self),
                    v,
                    (Op::FCmp { rpred: RealPred::Ult }),
                    seq![a, b],
                    1,
                ),
                Err(e) => {
                    &&& ctx_same(*old(ctx), *final(ctx))
                    &&& *final(self) == *old(self)
                    &&& emit_err(*old(ctx), *old(self), seq![a, b]) == Some(e)
                },
            },
    {
        let args: Vec<Value> = vec![a, b];
        match self.precheck(ctx, &args) {
            Some(e) => {
                return Err(e);
            },
            None => {},
        }
        proof {
            assert(args@ =~= seq![a, b]);
        }
        let rty: usize = 1;
        Ok(self.emit_at(ctx, Op::FCmp { rpred: RealPred::Ult }, args, rty))
    }

    /// Builds a floating-point greater-or-equal comparison, true on a NaN operand.
    pub fn build_float_ge(&mut self, ctx: &mut Context, a: Value, b: Value) -> (r: Result<
        Value,
        IrError,
    >)
        requires
            old(ctx).wf(),
            !old(ctx).disposed,
            old(self).wf(*old(ctx)),
        ensures
            final(ctx).wf(),
            !final(ctx).disposed,
            final(ctx).id == old(ctx).id,
            final(ctx).types@ == old(ctx).types@,
            final(self).wf(*final(ctx)),
            match r {
                Ok(v) => emit_err(*old(ctx), *old(self), seq![a, b]) is None && emits(
                    *old(ctx),
                    *old(self),
                    *final(ctx),
                    *final(self),
                    v,
                    (Op::FCmp { rpred: RealPred::Uge }),
                    seq![a, b],
                    1,
                ),
                Err(e) => {
                    &&& ctx_same(*old(ctx), *final(ctx))
                    &&& *final(self) == *old(self)
                    &&& emit_err(*old(ctx), *old(self), seq![a, b]) == Some(e)
                },
            },
    {
        let args: Vec<Value> = vec![a, b];
        match self.precheck(ctx, &args) {
            Some(e) => {
                return Err(e);
            },
            None => {},
        }
        proof {
            assert(args@ =~= seq![a, b]);
        }
        let rty: usize = 1;
        Ok(self.emit_at(ctx, Op::FCmp { rpred: RealPred::Uge }, args, rty))
    }

    /// Builds a floating-point greater-than comparison, true on a NaN operand.
    pub fn build_float_gt(&mut self, ctx: &mut Context, a: Value, b: Value) -> (r: Result<
        Value,
        IrError,
    >)
        requires
            old(ctx).wf(),
            !old(ctx).disposed,
            old(self).wf(*old(ctx)),
        ensures
            final(ctx).wf(),
            !final(ctx).disposed,
            final(ctx).id == old(ctx).id,
            final(ctx).types@ == old(ctx).types@,
            final(self).wf(*final(ctx)),
            match r {
                Ok(v) => emit_err(*old(ctx), *old(self), seq![a, b]) is None && emits(
                    *old(ctx),
                    *old(self),
                    *final(ctx),
                    *final(self),
                    v,
                    (Op::FCmp { rpred: RealPred::Ugt }),
                    seq![a, b],
                    1,
                ),
                Err(e) => {
                    &&& ctx_same(*old(ctx), *final(ctx))
                    &&& *final(self) == *old(self)
                    &&& emit_err(*old(ctx), *old(self), seq![a, b]) == Some(e)
                },
            },
    {
        let args: Vec<Value> = vec![a, b];
        match self.precheck(ctx, &args) {
            Some(e) => {
                return Err(e);
            },
            None => {},
        }
        proof {
            assert(args@ =~= seq![a, b]);
        }
        let rty: usize = 1;
        Ok(self.emit_at(ctx, Op::FCmp { rpred: RealPred::Ugt }, args, rty))
    }

    /// Builds a floating-point equality comparison, false on a NaN operand.
    pub fn build_float_ord_eq(&mut self, ctx: &mut Context, a: Value, b: Value) -> (r: Result<
        Value,
        IrError,
    >)
        requires
            old(ctx).wf(),
            !old(ctx).disposed,
            old(self).wf(*old(ctx)),
        ensures
            final(ctx).wf(),
            !final(ctx).disposed,
            final(ctx).id == old(ctx).id,
            final(ctx).types@ == old(ctx).types@,
            final(self).wf(*final(ctx)),
            match r {
                Ok(v) => emit_err(*old(ctx), *old(self), seq![a, b]) is None && emits(
                    *old(ctx),
                    *old(self),
                    *final(ctx),
                    *final(self),
                    v,
                    (Op::FCmp { rpred: RealPred::Oeq }),
                    seq![a, b],
                    1,
                ),
                Err(e) => {
                    &&& ctx_same(*old(ctx), *final(ctx))
                    &&& *final(self) == *old(self)
                    &&& emit_err(*old(ctx), *old(self), seq![a, b]) == Some(e)
                },
            },
    {
        let args: Vec<Value> = vec![a, b];
        match self.precheck(ctx, &args) {
            Some(e) => {
                return Err(e);
            },
            None => {},
        }
        proof {
            assert(args@ =~= seq![a, b]);
        }
        let rty: usize = 1;
        Ok(self.emit_at(ctx, Op::FCmp { rpred: RealPred::Oeq }, args, rty))
    }

    /// Builds a floating-point inequality comparison, false on a NaN operand.
    pub fn build_float_ord_ne(&mut self, ctx: &mut Context, a: Value, b: Value) -> (r: Result<
        Value,
        IrError,
    >)
        requires
            old(ctx).wf(),
            !old(ctx).disposed,
            old(self).wf(*old(ctx)),
        ensures
            final(ctx).wf(),
            !final(ctx).disposed,
            final(ctx).id == old(ctx).id,
            final(ctx).types@ == old(ctx).types@,
            final(self).wf(*final(ctx)),
            match r {
                Ok(v) => emit_err(*old(ctx), *old(self), seq![a, b]) is None && emits(
                    *old(ctx),
                    *old(self),
                    *final(ctx),
                    *final(self),
                    v,
                    (Op::FCmp { rpred: RealPred::One }),
                    seq![a, b],
                    1,
                ),
                Err(e) => {
                    &&& ctx_same(*old(ctx), *final(ctx))
                    &&& *final(self) == *old(self)
                    &&& emit_err(*old(ctx), *old(self), seq![a, b]) == Some(e)
                },
            },
    {
        let args: Vec<Value> = vec![a, b];
        match self.precheck(ctx, &args) {
            Some(e) => {
                return Err(e);
            },
            None => {},
        }
        proof {
            assert(args@ =~= seq![a, b]);
        }
        let rty: usize = 1;
        Ok(self.emit_at(ctx, Op::FCmp { rpred: RealPred::One }, args, rty))
    }

    /// Builds a floating-point less-or-equal comparison, false on a NaN operand.
    pub fn build_float_ord_le(&mut self, ctx: &mut Context, a: Value, b: Value) -> (r: Result<
        Value,
        IrError,
    >)
        requires
            old(ctx).wf(),
            !old(ctx).disposed,
            old(self).wf(*old(ctx)),
        ensures
            final(ctx).wf(),
            !final(ctx).disposed,
            final(ctx).id == old(ctx).id,
            final(ctx).types@ == old(ctx).types@,
            final(self).wf(*final(ctx)),
            match r {
                Ok(v) => emit_err(*old(ctx), *old(self), seq![a, b]) is None && emits(
                    *old(ctx),
                    *old(self),
                    *final(ctx),
                    *final(self),
                    v,
                    (Op::FCmp { rpred: RealPred::Ole }),
                    seq![a, b],
                    1,
                ),
                Err(e) => {
                    &&& ctx_same(*old(ctx), *final(ctx))
                    &&& *final(self) == *old(self)
                    &&& emit_err(*old(ctx), *old(self), seq![a, b]) == Some(e)
                },
            },
    {
        let args: Vec<Value> = vec![a, b];
        match self.precheck(ctx, &args) {
            Some(e) => {
                return Err(e);
            },
            None => {},
        }
        proof {
            assert(args@ =~= seq![a, b]);
        }
        let rty: usize = 1;
        Ok(self.emit_at(ctx, Op::FCmp { rpred: RealPred::Ole }, args, rty))
    }

    /// Builds a floating-point less-than comparison, false on a NaN operand.
    pub fn build_float_ord_lt(&mut self, ctx: &mut Context, a: Value, b: Value) -> (r: Result<
        Value,
        IrError,
    >)
        requires
            old(ctx).wf(),
            !old(ctx).disposed,
            old(self).wf(*old(ctx)),
        ensures
            final(ctx).wf(),
            !final(ctx).disposed,
            final(ctx).id == old(ctx).id,
            final(ctx).types@ == old(ctx).types@,
            final(self).wf(*final(ctx)),
            match r {
                Ok(v) => emit_err(*old(ctx), *old(self), seq![a, b]) is None && emits(
                    *old(ctx),
                    *old(self),
                    *final(ctx),
                    *final(self),
                    v,
                    (Op::FCmp { rpred: RealPred::Olt }),
                    seq![a, b],
                    1,
                ),
                Err(e) => {
                    &&& ctx_same(*old(ctx), *final(ctx))
                    &&& *final(self) == *old(self)
                    &&& emit_err(*old(ctx), *old(self), seq![a, b]) == Some(e)
                },
            },
    {
        let args: Vec<Value> = vec![a, b];
        match self.precheck(ctx, &args) {
            Some(e) => {
                return Err(e);
            },
            None => {},
        }
        proof {
            assert(args@ =~= seq![a, b]);
        }
        let rty: usize = 1;
        Ok(self.emit_at(ctx, Op::FCmp { rpred: RealPred::Olt }, args, rty))
    }

    /// Builds a floating-point greater-or-equal comparison, false on a NaN operand.
    pub fn build_float_ord_ge(&mut self, ctx: &mut Context, a: Value, b: Value) -> (r: Result<
        Value,
        IrError,
    >)
        requires
            old(ctx).wf(),
            !old(ctx).disposed,
            old(self).wf(*old(ctx)),
        ensures
            final(ctx).wf(),
            !final(ctx).disposed,
            final(ctx).id == old(ctx).id,
            final(ctx).types@ == old(ctx).types@,
            final(self).wf(*final(ctx)),
            match r {
                Ok(v) => emit_err(*old(ctx), *old(self), seq![a, b]) is None && emits(
                    *old(ctx),
                    *old(self),
                    *final(ctx),
                    *final(self),
                    v,
                    (Op::FCmp { rpred: RealPred::Oge }),
                    seq![a, b],
                    1,
                ),
                Err(e) => {
                    &&& ctx_same(*old(ctx), *final(ctx))
                    &&& *final(self) == *old(self)
                    &&& emit_err(*old(ctx), *old(self), seq![a, b]) == Some(e)
                },
            },
    {
        let args: Vec<Value> = vec![a, b];
        match self.precheck(ctx, &args) {
            Some(e) => {
                return Err(e);
            },
            None => {},
        }
        proof {
            assert(args@ =~= seq![a, b]);
        }
        let rty: usize = 1;
        Ok(self.emit_at(ctx, Op::FCmp { rpred: RealPred::Oge }, args, rty))
    }

    /// Builds a floating-point greater-than comparison, false on a NaN operand.
    pub fn build_float_ord_gt(&mut self, ctx: &mut Context, a: Value, b: Value) -> (r: Result<
        Value,
        IrError,
    >)
        requires
            old(ctx).wf(),
            !old(ctx).disposed,
            old(self).wf(*old(ctx)),
        ensures
            final(ctx).wf(),
            !final(ctx).disposed,
            final(ctx).id == old(ctx).id,
            final(ctx).types@ == old(ctx).types@,
            final(self).wf(*final(ctx)),
            match r {
                Ok(v) => emit_err(*old(ctx), *old(self), seq![a, b]) is None && emits(
                    *old(ctx),
                    *old(self),
                    *final(ctx),
                    *final(self),
                    v,
                    (Op::FCmp { rpred: RealPred::Ogt }),
                    seq![a, b],
                    1,
                ),
                Err(e) => {
                    &&& ctx_same(*old(ctx), *final(ctx))
                    &&& *final(self) == *old(self)
                    &&& emit_err(*old(ctx), *old(self), seq![a, b]) == Some(e)
                },
            },
    {
        let args: Vec<Value> = vec![a, b];
        match self.precheck(ctx, &args) {
            Some(e) => {
                return Err(e);
            },
            None => {},
        }
        proof {
            assert(args@ =~= seq![a, b]);
        }
        let rty: usize = 1;
        Ok(self.emit_at(ctx, Op::FCmp { rpred: RealPred::Ogt }, args, rty))
    }

    /// Builds a test that neither operand is a NaN.
    pub fn build_float_is_ord(&mut self, ctx: &mut Context, a: Value, b: Value) -> (r: Result<
        Value,
        IrError,
    >)
        requires
            old(ctx).wf(),
            !old(ctx).disposed,
            old(self).wf(*old(ctx)),
        ensures
            final(ctx).wf(),
            !final(ctx).disposed,
            final(ctx).id == old(ctx).id,
            final(ctx).types@ == old(ctx).types@,
            final(self).wf(*final(ctx)),
            match r {
                Ok(v) => emit_err(*old(ctx), *old(self), seq![a, b]) is None && emits(
                    *old(ctx),
                    *old(self),
                    *final(ctx),
                    *final(self),
                    v,
                    (Op::FCmp { rpred: RealPred::Ord }),
                    seq![a, b],
                    1,
                ),
                Err(e) => {
                    &&& ctx_same(*old(ctx), *final(ctx))
                    &&& *final(self) == *old(self)
                    &&& emit_err(*old(ctx), *old(self), seq![a, b]) == Some(e)
                },
            },
    {
        let args: Vec<Value> = vec![a, b];
        match self.precheck(ctx, &args) {
            Some(e) => {
                return Err(e);
            },
            None => {},
        }
        proof {
            assert(args@ =~= seq![a, b]);
        }
        let rty: usize = 1;
        Ok(self.emit_at(ctx, Op::FCmp { rpred: RealPred::Ord }, args, rty))
    }

    /// Builds a test that at least one operand is a NaN.
    pub fn build_float_non_ord(&mut self, ctx: &mut Context, a: Value, b: Value) -> (r: Result<
        Value,
        IrError,
    >)
        requires
            old(ctx).wf(),
            !old(ctx).disposed,
            old(self).wf(*old(ctx)),
        ensures
            final(ctx).wf(),
            !final(ctx).disposed,
            final(ctx).id == old(ctx).id,
            final(ctx).types@ == old(ctx).types@,
            final(self).wf(*final(ctx)),
            match r {
                Ok(v) => emit_err(*old(ctx), *old(self), seq![a, b]) is None && emits(
                    *old(ctx),
                    *old(self),
                    *final(ctx),
                    *final(self),
                    v,
                    (Op::FCmp { rpred: RealPred::Uno }),
                    seq![a, b],
                    1,
                ),
                Err(e) => {
                    &&& ctx_same(*old(ctx), *final(ctx))
                    &&& *final(self) == *old(self)
                    &&& emit_err(*old(ctx), *old(self), seq![a, b]) == Some(e)
                },
            },
    {
        let args: Vec<Value> = vec![a, b];
        match self.precheck(ctx, &args) {
            Some(e) => {
                return Err(e);
            },
            None => {},
        }
        proof {
            assert(args@ =~= seq![a, b]);
        }
        let rty: usize = 1;
        Ok(self.emit_at(ctx, Op::FCmp { rpred: RealPred::Uno }, args, rty))
    }

    /// Builds a test that the operand pointer is null.
    pub fn build_is_null(&mut self, ctx: &mut Context, val: Value) -> (r: Result<Value, IrError>)
        requires
            old(ctx).wf(),
            !old(ctx).disposed,
            old(self).wf(*old(ctx)),
        ensures
            final(ctx).wf(),
            !final(ctx).disposed,
            final(ctx).id == old(ctx).id,
            final(ctx).types@ == old(ctx).types@,
            final(self).wf(*final(ctx)),
            match r {
                Ok(v) => emit_err(*old(ctx), *old(self), seq![val]) is None && emits(
                    *old(ctx),
                    *old(self),
                    *final(ctx),
                    *final(self),
                    v,
                    (Op::IsNull),
                    seq![val],
                    1,
                ),
                Err(e) => {
                    &&& ctx_same(*old(ctx), *final(ctx))
                    &&& *final(self) == *old(self)
                    &&& emit_err(*old(ctx), *old(self), seq![val]) == Some(e)
                },
            },
    {
        let args: Vec<Value> = vec![val];
        proof {
            assert(args@ =~= seq![val]);
        }
        match self.precheck(ctx, &args) {
            Some(e) => {
                return Err(e);
            },
            None => {},
        }
        proof {
            assert(args@ =~= seq![val]);
        }
        let rty: usize = 1;
        Ok(self.emit_at(ctx, Op::IsNull, args, rty))
    }

    /// Builds a test that the operand pointer is not null.
    pub fn build_is_not_null(&mut self, ctx: &mut Context, val: Value) -> (r: Result<Value, IrError>)
        requires
            old(ctx).wf(),
            !old(ctx).disposed,
            old(self).wf(*old(ctx)),
        ensures
            final(ctx).wf(),
            !final(ctx).disposed,
            final(ctx).id == old(ctx).id,
            final(ctx).types@ == old(ctx).types@,
            final(self).wf(*final(ctx)),
            match r {
                Ok(v) => emit_err(*old(ctx), *old(self), seq![val]) is None && emits(
                    *old(ctx),
                    *old(self),
                    *final(ctx),
                    *final(self),
                    v,
                    (Op::IsNotNull),
                    seq![val],
                    1,
                ),
                Err(e) => {
                    &&& ctx_same(*old(ctx), *final(ctx))
                    &&& *final(self) == *old(self)
                    &&& emit_err(*old(ctx), *old(self), seq![val]) == Some(e)
                },
            },
    {
        let args: Vec<Value> = vec![val];
        proof {
            assert(args@ =~= seq![val]);
        }
        match self.precheck(ctx, &args) {
            Some(e) => {
                return Err(e);
            },
            None => {},
        }
        proof {
            assert(args@ =~= seq![val]);
        }
        let rty: usize = 1;
        Ok(self.emit_at(ctx, Op::IsNotNull, args, rty))
    }

    /// Builds a cast of the integer operand to the given pointer type.
    pub fn build_int_to_ptr(&mut self, ctx: &mut Context, val: Value, ty: Type) -> (r: Result<
        Value,
        IrError,
    >)
        requires
            old(ctx).wf(),
            !old(ctx).disposed,
            old(self).wf(*old(ctx)),
        ensures
            final(ctx).wf(),
            !final(ctx).disposed,
            final(ctx).id == old(ctx).id,
            final(ctx).types@ == old(ctx).types@,
            final(self).wf(*final(ctx)),
            match r {
                Ok(v) => emit_err(*old(ctx), *old(self), seq![val]) is None && old(ctx).ty_ok(ty)
                    && emits(
                    *old(ctx),
                    *old(self),
                    *final(ctx),
                    *final(self),
                    v,
                    (Op::IntToPtr),
                    seq![val],
                    ty.idx as int,
                ),
                Err(e) => {
                    &&& ctx_same(*old(ctx), *final(ctx))
                    &&& *final(self) == *old(self)
                    &&& Some(e) == (if emit_err(*old(ctx), *old(self), seq![val]) is Some {
                        emit_err(*old(ctx), *old(self), seq![val])
                    } else {
                        Some(IrError::CrossContext)
                    })
                    &&& (emit_err(*old(ctx), *old(self), seq![val]) is None ==> !old(ctx).ty_ok(
                        ty,
                    ))
                },
            },
    {
        let args: Vec<Value> = vec![val];
        proof {
            assert(args@ =~= seq![val]);
        }
        match self.precheck(ctx, &args) {
            Some(e) => {
                return Err(e);
            },
            None => {},
        }
        if ty.owner != ctx.id || ty.idx >= ctx.types.len() {
            return Err(IrError::CrossContext);
        }
        proof {
            assert(args@ =~= seq![val]);
        }
        Ok(self.emit_at(ctx, Op::IntToPtr, args, ty.idx))
    }

    /// Builds a cast of the pointer operand to the given integer type.
    pub fn build_ptr_to_int(&mut self, ctx: &mut Context, val: Value, ty: Type) -> (r: Result<
        Value,
        IrError,
    >)
        requires
            old(ctx).wf(),
            !old(ctx).disposed,
            old(self).wf(*old(ctx)),
        ensures
            final(ctx).wf(),
            !final(ctx).disposed,
            final(ctx).id == old(ctx).id,
            final(ctx).types@ == old(ctx).types@,
            final(self).wf(*final(ctx)),
            match r {
                Ok(v) => emit_err(*old(ctx), *old(self), seq![val]) is None && old(ctx).ty_ok(ty)
                    && emits(
                    *old(ctx),
                    *old(self),
                    *final(ctx),
                    *final(self),
                    v,
                    (Op::PtrToInt),
                    seq![val],
                    ty.idx as int,
                ),
                Err(e) => {
                    &&& ctx_same(*old(ctx), *final(ctx))
                    &&& *final(self) == *old(self)
                    &&& Some(e) == (if emit_err(*old(ctx), *old(self), seq![val]) is Some {
                        emit_err(*old(ctx), *old(self), seq![val])
                    } else {
                        Some(IrError::CrossContext)
                    })
                    &&& (emit_err(*old(ctx), *old(self), seq![val]) is None ==> !old(ctx).ty_ok(
                        ty,
                    ))
                },
            },
    {
        let args: Vec<Value> = vec![val];
        proof {
            assert(args@ =~= seq![val]);
        }
        match self.precheck(ctx, &args) {
            Some(e) => {
                return Err(e);
            },
            None => {},
        }
        if ty.owner != ctx.id || ty.idx >= ctx.types.len() {
            return Err(IrError::CrossContext);
        }
        proof {
            assert(args@ =~= seq![val]);
        }
        Ok(self.emit_at(ctx, Op::PtrToInt, args, ty.idx))
    }

    /// Builds a cast of the pointer operand to the given pointer type.
    pub fn build_pointer_cast(&mut self, ctx: &mut Context, val: Value, ty: Type) -> (r: Result<
        Value,
        IrError,
    >)
        requires
            old(ctx).wf(),
            !old(ctx).disposed,
            old(self).wf(*old(ctx)),
        ensures
            final(ctx).wf(),
            !final(ctx).disposed,
            final(ctx).id == old(ctx).id,
            final(ctx).types@ == old(ctx).types@,
            final(self).wf(*final(ctx)),
            match r {
                Ok(v) => emit_err(*old(ctx), *old(self), seq![val]) is None && old(ctx).ty_ok(ty)
                    && emits(
                    *old(ctx),
                    *old(self),
                    *final(ctx),
                    *final(self),
                    v,
                    (Op::PointerCast),
                    seq![val],
                    ty.idx as int,
                ),
                Err(e) => {
                    &&& ctx_same(*old(ctx), *final(ctx))
                    &&& *final(self) == *old(self)
                    &&& Some(e) == (if emit_err(*old(ctx), *old(self), seq![val]) is Some {
                        emit_err(*old(ctx), *old(self), seq![val])
                    } else {
                        Some(IrError::CrossContext)
                    })
                    &&& (emit_err(*old(ctx), *old(self), seq![val]) is None ==> !old(ctx).ty_ok(
                        ty,
                    ))
                },
            },
    {
        let args: Vec<Value> = vec![val];
        proof {
            assert(args@ =~= seq![val]);
        }
        match self.precheck(ctx, &args) {
            Some(e) => {
                return Err(e);
            },
            None => {},
        }
        if ty.owner != ctx.id || ty.idx >= ctx.types.len() {
            return Err(IrError::CrossContext);
        }
        proof {
            assert(args@ =~= seq![val]);
        }
        Ok(self.emit_at(ctx, Op::PointerCast, args, ty.idx))
    }

    /// Builds a cast of the integer operand to the given integer type.
    pub fn build_int_cast(&mut self, ctx: &mut Context, val: Value, ty: Type) -> (r: Result<
        Value,
        IrError,
    >)
        requires
            old(ctx).wf(),
            !old(ctx).disposed,
            old(self).wf(*old(ctx)),
        ensures
            final(ctx).wf(),
            !final(ctx).disposed,
            final(ctx).id == old(ctx).id,
            final(ctx).types@ == old(ctx).types@,
            final(self).wf(*final(ctx)),
            match r {
                Ok(v) => emit_err(*old(ctx), *old(self), seq![val]) is None && old(ctx).ty_ok(ty)
                    && emits(
                    *old(ctx),
                    *old(self),
                    *final(ctx),
                    *final(self),
                    v,
                    (Op::IntCast),
                    seq![val],
                    ty.idx as int,
                ),
                Err(e) => {
                    &&& ctx_same(*old(ctx), *final(ctx))
                    &&& *final(self) == *old(self)
                    &&& Some(e) == (if emit_err(*old(ctx), *old(self), seq![val]) is Some {
                        emit_err(*old(ctx), *old(self), seq![val])
                    } else {
                        Some(IrError::CrossContext)
                    })
                    &&& (emit_err(*old(ctx), *old(self), seq![val]) is None ==> !old(ctx).ty_ok(
                        ty,
                    ))
                },
            },
    {
        let args: Vec<Value> = vec![val];
        proof {
            assert(args@ =~= seq![val]);
        }
        match self.precheck(ctx, &args) {
            Some(e) => {
                return Err(e);
            },
            None => {},
        }
        if ty.owner != ctx.id || ty.idx >= ctx.types.len() {
            return Err(IrError::CrossContext);
        }
        proof {
            assert(args@ =~= seq![val]);
        }
        Ok(self.emit_at(ctx, Op::IntCast, args, ty.idx))
    }

    /// Builds a reinterpretation of the operand at the given type.
    pub fn build_bit_cast(&mut self, ctx: &mut Context, val: Value, ty: Type) -> (r: Result<
        Value,
        IrError,
    >)
        requires
            old(ctx).wf(),
            !old(ctx).disposed,
            old(self).wf(*old(ctx)),
        ensures
            final(ctx).wf(),
            !final(ctx).disposed,
            final(ctx).id == old(ctx).id,
            final(ctx).types@ == old(ctx).types@,
            final(self).wf(*final(ctx)),
            match r {
                Ok(v) => emit_err(*old(ctx), *old(self), seq![val]) is None && old(ctx).ty_ok(ty)
                    && emits(
                    *old(ctx),
                    *old(self),
                    *final(ctx),
                    *final(self),
                    v,
                    (Op::BitCast),
                    seq![val],
                    ty.idx as int,
                ),
                Err(e) => {
                    &&& ctx_same(*old(ctx), *final(ctx))
                    &&& *final(self) == *old(self)
                    &&& Some(e) == (if emit_err(*old(ctx), *old(self), seq![val]) is Some {
                        emit_err(*old(ctx), *old(self), seq![val])
                    } else {
                        Some(IrError::CrossContext)
                    })
                    &&& (emit_err(*old(ctx), *old(self), seq![val]) is None ==> !old(ctx).ty_ok(
                        ty,
                    ))
                },
            },
    {
        let args: Vec<Value> = vec![val];
        proof {
            assert(args@ =~= seq![val]);
        }
        match self.precheck(ctx, &args) {
            Some(e) => {
                return Err(e);
            },
            None => {},
        }
        if ty.owner != ctx.id || ty.idx >= ctx.types.len() {
            return Err(IrError::CrossContext);
        }
        proof {
            assert(args@ =~= seq![val]);
        }
        Ok(self.emit_at(ctx, Op::BitCast, args, ty.idx))
    }

    /// Builds a cast of the floating-point operand to the given floating-point type.
    pub fn build_float_cast(&mut self, ctx: &mut Context, val: Value, ty: Type) -> (r: Result<
        Value,
        IrError,
    >)
        requires
            old(ctx).wf(),
            !old(ctx).disposed,
            old(self).wf(*old(ctx)),
        ensures
            final(ctx).wf(),
            !final(ctx).disposed,
            final(ctx).id == old(ctx).id,
            final(ctx).types@ == old(ctx).types@,
            final(self).wf(*final(ctx)),
            match r {
                Ok(v) => emit_err(*old(ctx), *old(self), seq![val]) is None && old(ctx).ty_ok(ty)
                    && emits(
                    *old(ctx),
                    *old(self),
                    *final(ctx),
                    *final(self),
                    v,
                    (Op::FloatCast),
                    seq![val],
                    ty.idx as int,
                ),
                Err(e) => {
                    &&& ctx_same(*old(ctx), *final(ctx))
                    &&& *final(self) == *old(self)
                    &&& Some(e) == (if emit_err(*old(ctx), *old(self), seq![val]) is Some {
                        emit_err(*old(ctx), *old(self), seq![val])
                    } else {
                        Some(IrError::CrossContext)
                    })
                    &&& (emit_err(*old(ctx), *old(self), seq![val]) is None ==> !old(ctx).ty_ok(
                        ty,
                    ))
                },
            },
    {
        let args: Vec<Value> = vec![val];
        proof {
            assert(args@ =~= seq![val]);
        }
        match self.precheck(ctx, &args) {
            Some(e) => {
                return Err(e);
            },
            None => {},
        }
        if ty.owner != ctx.id || ty.idx >= ctx.types.len() {
            return Err(IrError::CrossContext);
        }
        proof {
            assert(args@ =~= seq![val]);
        }
        Ok(self.emit_at(ctx, Op::FloatCast, args, ty.idx))
    }
}

} // verus!
