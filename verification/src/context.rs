//! The context: the arena that owns every IR entity.

use vstd::prelude::*;

use crate::bb::BasicBlock;
use crate::builder::Builder;
use crate::cc::CallConv;
use crate::err::IrError;
use crate::link::Linkage;
use crate::module::Module;
use crate::target::TargetData;
use crate::ty::Type;
use crate::val::Value;

verus! {

/// The stored shape of one type. Component types are arena indices.
#[derive(Clone, Debug)]
pub enum TypeData {
    /// The `void` type.
    Void,
    /// An integer type of the given positive bit width.
    Int {
        /// The bit width, at least 1.
        bits: u32,
    },
    /// The 16-bit floating-point type.
    Half,
    /// The 32-bit floating-point type.
    Float,
    /// The 64-bit floating-point type.
    Double,
    /// The 128-bit floating-point type.
    Fp128,
    /// A pointer to the element type.
    Ptr {
        /// Index of the pointee type.
        elem: usize,
    },
    /// An array of `count` elements.
    Array {
        /// Index of the element type.
        elem: usize,
        /// Number of elements.
        count: u32,
    },
    /// An anonymous struct type.
    Struct {
        /// Indices of the field types, in field order.
        fields: Vec<usize>,
        /// Whether the fields are packed without padding.
        packed: bool,
    },
    /// A named struct type, created opaque; its body is set at most once.
    Named {
        /// The name of the struct.
        name: String,
        /// Indices of the field types; empty while opaque.
        fields: Vec<usize>,
        /// Whether the fields are packed without padding.
        packed: bool,
        /// Whether the body has not been set yet.
        opaque: bool,
    },
    /// A function signature.
    FnTy {
        /// Index of the return type.
        ret: usize,
        /// Indices of the parameter types, in order.
        params: Vec<usize>,
        /// Whether the signature is variadic.
        va: bool,
    },
}

/// Structural equivalence of two stored types. Named structs are nominal
/// and never equivalent; every other kind is equivalent exactly when the
/// components agree.
pub open spec fn td_eqv(a: TypeData, b: TypeData) -> bool {
    match (a, b) {
        (TypeData::Void, TypeData::Void) => true,
        (TypeData::Int { bits: b1 }, TypeData::Int { bits: b2 }) => b1 == b2,
        (TypeData::Half, TypeData::Half) => true,
        (TypeData::Float, TypeData::Float) => true,
        (TypeData::Double, TypeData::Double) => true,
        (TypeData::Fp128, TypeData::Fp128) => true,
        (TypeData::Ptr { elem: e1 }, TypeData::Ptr { elem: e2 }) => e1 == e2,
        (
            TypeData::Array { elem: e1, count: c1 },
            TypeData::Array { elem: e2, count: c2 },
        ) => e1 == e2 && c1 == c2,
        (
            TypeData::Struct { fields: f1, packed: p1 },
            TypeData::Struct { fields: f2, packed: p2 },
        ) => f1@ == f2@ && p1 == p2,
        (
            TypeData::FnTy { ret: r1, params: q1, va: v1 },
            TypeData::FnTy { ret: r2, params: q2, va: v2 },
        ) => r1 == r2 && q1@ == q2@ && v1 == v2,
        _ => false,
    }
}

/// The integer comparison predicates.
#[derive(Clone, Copy, Debug, PartialEq, Eq, Structural)]
pub enum IntPred {
    /// Equal.
    Eq,
    /// Not equal.
    Ne,
    /// Unsigned less than or equal.
    Ule,
    /// Unsigned less than.
    Ult,
    /// Unsigned greater than or equal.
    Uge,
    /// Unsigned greater than.
    Ugt,
    /// Signed less than or equal.
    Sle,
    /// Signed less than.
    Slt,
    /// Signed greater than or equal.
    Sge,
    /// Signed greater than.
    Sgt,
}

/// The floating-point comparison predicates. The `U`-prefixed forms are
/// true when either operand is a NaN; the `O`-prefixed forms are false
/// then. `Ord` and `Uno` classify the pair itself.
#[derive(Clone, Copy, Debug, PartialEq, Eq, Structural)]
pub enum RealPred {
    /// Unordered or equal.
    Ueq,
    /// Unordered or not equal.
    Une,
    /// Unordered or less than or equal.
    Ule,
    /// Unordered or less than.
    Ult,
    /// Unordered or greater than or equal.
    Uge,
    /// Unordered or greater than.
    Ugt,
    /// Ordered and equal.
    Oeq,
    /// Ordered and not equal.
    One,
    /// Ordered and less than or equal.
    Ole,
    /// Ordered and less than.
    Olt,
    /// Ordered and greater than or equal.
    Oge,
    /// Ordered and greater than.
    Ogt,
    /// Both operands are ordered (no NaN).
    Ord,
    /// At least one operand is a NaN.
    Uno,
}

/// The operation an instruction performs. Value operands are kept in the
/// instruction's argument list; block targets and immediates live here.
#[derive(Clone, Debug)]
pub enum Op {
    /// Stack allocation of one element of the derived pointee type.
    Alloca,
    /// Heap allocation of one element of the derived pointee type.
    Malloc,
    /// Stack allocation of an array; the count is the first argument.
    ArrayAlloca,
    /// Heap allocation of an array; the count is the first argument.
    ArrayMalloc,
    /// Releases the heap allocation the argument points to.
    Free,
    /// Calls the first argument with the remaining arguments.
    Call,
    /// Inserts the second argument into the first at a field position.
    InsertValue {
        /// The field position written.
        index: u32,
    },
    /// Extracts a field of the first argument.
    ExtractValue {
        /// The field position read.
        index: u32,
    },
    /// Computes an element pointer from a base pointer and indices.
    Gep,
    /// Like `Gep`, with the in-bounds promise left to the caller.
    InboundsGep,
    /// Stores the first argument through the second.
    Store,
    /// Loads through the argument pointer.
    Load,
    /// Casts an integer to a pointer type.
    IntToPtr,
    /// Casts a pointer to an integer type.
    PtrToInt,
    /// Casts a pointer to another pointer type.
    PointerCast,
    /// Casts an integer to another integer type.
    IntCast,
    /// Reinterprets the argument at another type of the same size.
    BitCast,
    /// Casts a floating-point value to another floating-point type.
    FloatCast,
    /// Returns without a value.
    RetVoid,
    /// Returns the argument.
    Ret,
    /// Marks the position as unreachable.
    Unreachable,
    /// Branches unconditionally.
    Br {
        /// Index of the target block.
        dest: usize,
    },
    /// Branches on the first argument.
    CondBr {
        /// Index of the block taken when the condition holds.
        then_dest: usize,
        /// Index of the block taken otherwise.
        else_dest: usize,
    },
    /// Multi-way branch on the first argument. Case `k` compares against
    /// argument `k + 1` and targets `case_blocks[k]`.
    Switch {
        /// Indices of the case target blocks, in case order.
        case_blocks: Vec<usize>,
        /// Index of the default target block.
        default: usize,
    },
    /// Merges values flowing in from predecessor blocks. Incoming value
    /// `k` is argument `k` and flows from `preds[k]`.
    Phi {
        /// Indices of the predecessor blocks, in incoming order.
        preds: Vec<usize>,
    },
    /// Tests the argument pointer for null.
    IsNull,
    /// Tests the argument pointer for non-null.
    IsNotNull,
    /// Integer addition.
    IntAdd,
    /// Integer subtraction.
    IntSub,
    /// Integer multiplication.
    IntMul,
    /// Unsigned integer division.
    IntUDiv,
    /// Signed integer division.
    IntSDiv,
    /// Unsigned integer remainder.
    IntURem,
    /// Signed integer remainder.
    IntSRem,
    /// Integer comparison with the given predicate.
    ICmp {
        /// The predicate compared with.
        pred: IntPred,
    },
    /// Floating-point addition.
    FAdd,
    /// Floating-point subtraction.
    FSub,
    /// Floating-point multiplication.
    FMul,
    /// Floating-point division.
    FDiv,
    /// Floating-point remainder.
    FRem,
    /// Floating-point comparison with the given predicate.
    FCmp {
        /// The predicate compared with.
        rpred: RealPred,
    },
}

/// The stored shape of one value.
#[derive(Clone, Debug)]
pub enum ValKind {
    /// An integer constant, stored as its raw bit pattern.
    ConstInt {
        /// The bits of the constant, zero-extended.
        value: u64,
    },
    /// A constant struct over earlier constant values.
    ConstStruct {
        /// Indices of the element values, in field order.
        elems: Vec<usize>,
    },
    /// A constant array over earlier constant values.
    ConstArray {
        /// Indices of the element values, in order.
        elems: Vec<usize>,
    },
    /// A constant string.
    ConstString {
        /// The characters of the string.
        text: String,
        /// Whether a terminating NUL is appended.
        nul: bool,
    },
    /// The undefined value of a type.
    Undef,
    /// The zero value of a type.
    ConstNull,
    /// The all-ones value of a type.
    ConstAllOnes,
    /// The null pointer of a pointer type.
    ConstNullPtr,
    /// A function declaration.
    Func {
        /// Index of the module that declares it.
        module: usize,
        /// Indices of the parameter values, in order.
        params: Vec<usize>,
        /// Indices of the basic blocks, in append order.
        blocks: Vec<usize>,
        /// The calling convention.
        cc: CallConv,
        /// Whether the function was deleted.
        dead: bool,
    },
    /// A global variable declaration.
    Global {
        /// Index of the module that declares it.
        module: usize,
        /// Index of the initializer value, once set.
        init: Option<usize>,
        /// The linkage of the global.
        linkage: Linkage,
        /// Whether the global is constant.
        is_const: bool,
        /// Whether the address of the global is insignificant.
        unnamed_addr: bool,
        /// The alignment in bytes; 0 when unset.
        align: u32,
        /// Whether the global was deleted.
        dead: bool,
    },
    /// A parameter of a function.
    Param {
        /// Index of the function value it belongs to.
        func: usize,
        /// Position of the parameter.
        index: usize,
        /// The alignment in bytes; 0 when unset.
        align: u32,
    },
    /// An instruction inside a basic block.
    Instr {
        /// Index of the block that holds it.
        block: usize,
        /// The operation performed.
        op: Op,
        /// Indices of the value operands, in order.
        args: Vec<usize>,
        /// Whether a call is marked as a tail call.
        tail_call: bool,
        /// The alignment in bytes; 0 when unset.
        align: u32,
    },
}

/// One stored value: an optional name, the index of its type, and its
/// shape.
#[derive(Clone, Debug)]
pub struct ValData {
    /// The name of the value, if it has one.
    pub name: Option<String>,
    /// Index of the value's type.
    pub ty: usize,
    /// The shape of the value.
    pub kind: ValKind,
}

/// One stored basic block.
#[derive(Clone, Debug)]
pub struct BlockData {
    /// The name of the block.
    pub name: String,
    /// Index of the function value that owns the block.
    pub func: usize,
    /// Indices of the instruction values, in program order.
    pub instrs: Vec<usize>,
    /// Whether the block was deleted.
    pub dead: bool,
}

/// One stored module.
#[derive(Clone, Debug)]
pub struct ModuleData {
    /// The name of the module.
    pub name: String,
    /// Indices of the live function declarations, in declaration order.
    pub fns: Vec<usize>,
    /// Indices of the live global declarations, in declaration order.
    pub globals: Vec<usize>,
    /// The target triple, once set.
    pub triple: Option<String>,
    /// The data layout, once set.
    pub layout: Option<TargetData>,
}

/// A name is valid when it has no embedded NUL character.
pub open spec fn valid_name(s: Seq<char>) -> bool {
    forall|i: int| 0 <= i < s.len() ==> s[i] != '\0'
}

/// The top-level arena. It owns all types, values, blocks and modules
/// created through it; handles into it carry its `id` tag.
///
/// The fields are public so that contracts can speak of them, and every
/// operation of this library preserves the arena's well-formedness
/// ([`Context::wf`]). Code that writes the fields directly, rather than
/// going through the operations, is outside what is proved here: it can
/// break the invariant that every contract assumes.
#[derive(Debug)]
pub struct Context {
    /// The tag carried by every handle of this context. Callers give each
    /// context they create a distinct tag; mixed-up handles are then
    /// caught at the API boundary.
    pub id: u64,
    /// Whether the context was disposed. A disposed context owns nothing.
    pub disposed: bool,
    /// The type arena.
    pub types: Vec<TypeData>,
    /// The value arena.
    pub vals: Vec<ValData>,
    /// The block arena.
    pub blocks: Vec<BlockData>,
    /// The module arena.
    pub modules: Vec<ModuleData>,
}

impl Context {
    /// The handle refers into this context's type arena.
    pub open spec fn ty_ok(self, t: Type) -> bool {
        t.owner == self.id && t.idx < self.types@.len()
    }

    /// The stored type at index `i`.
    pub open spec fn ty_at(self, i: int) -> TypeData {
        self.types@[i]
    }

    /// The type at index `i` has a completed layout: it is neither void,
    /// nor a function signature, nor an opaque named struct.
    pub open spec fn sized_at(self, i: int) -> bool {
        0 <= i < self.types@.len() && match self.types@[i] {
            TypeData::Void => false,
            TypeData::FnTy { .. } => false,
            TypeData::Named { opaque, .. } => !opaque,
            _ => true,
        }
    }

    /// The handle refers into this context's value arena.
    pub open spec fn val_ok(self, v: Value) -> bool {
        v.owner == self.id && v.idx < self.vals@.len()
    }

    /// The stored value at index `i`.
    pub open spec fn val_at(self, i: int) -> ValData {
        self.vals@[i]
    }

    /// The value at index `i` was not deleted, nor was an owner it
    /// depends on: a parameter dies with its function, an instruction
    /// with its block.
    pub open spec fn val_live_at(self, i: int) -> bool {
        match self.vals@[i].kind {
            ValKind::Func { dead, .. } => !dead,
            ValKind::Global { dead, .. } => !dead,
            ValKind::Param { func, .. } => func < self.vals@.len()
                && match self.vals@[func as int].kind {
                    ValKind::Func { dead, .. } => !dead,
                    _ => false,
                },
            ValKind::Instr { block, .. } => block < self.blocks@.len()
                && self.blk_live_at(block as int),
            _ => true,
        }
    }

    /// The handle is a live value of this context.
    pub open spec fn val_live(self, v: Value) -> bool {
        self.val_ok(v) && self.val_live_at(v.idx as int)
    }

    /// The handle refers into this context's block arena.
    pub open spec fn blk_ok(self, b: BasicBlock) -> bool {
        b.owner == self.id && b.idx < self.blocks@.len()
    }

    /// The stored block at index `i`.
    pub open spec fn blk_at(self, i: int) -> BlockData {
        self.blocks@[i]
    }

    /// The block at index `i` was not deleted, and neither was the
    /// function that owns it.
    pub open spec fn blk_live_at(self, i: int) -> bool {
        let b = self.blocks@[i];
        !b.dead && b.func < self.vals@.len() && match self.vals@[b.func as int].kind {
            ValKind::Func { dead, .. } => !dead,
            _ => false,
        }
    }

    /// The handle is a live block of this context.
    pub open spec fn blk_live(self, b: BasicBlock) -> bool {
        self.blk_ok(b) && self.blk_live_at(b.idx as int)
    }

    /// The handle refers into this context's module arena.
    pub open spec fn mod_ok(self, m: Module) -> bool {
        m.owner == self.id && m.idx < self.modules@.len()
    }

    /// The stored module at index `i`.
    pub open spec fn mod_at(self, i: int) -> ModuleData {
        self.modules@[i]
    }

    /// The view of a stored value's name; empty when unnamed.
    pub open spec fn v_name(self, i: int) -> Seq<char> {
        match self.vals@[i].name {
            Some(s) => s@,
            None => Seq::empty(),
        }
    }

    /// The stored block targets of an operation are in range.
    pub open spec fn op_wf(self, o: Op) -> bool {
        match o {
            Op::Br { dest } => dest < self.blocks@.len(),
            Op::CondBr { then_dest, else_dest } => then_dest < self.blocks@.len()
                && else_dest < self.blocks@.len(),
            Op::Switch { case_blocks, default } => default < self.blocks@.len()
                && forall|k: int|
                    0 <= k < case_blocks@.len() ==> #[trigger] case_blocks@[k]
                        < self.blocks@.len(),
            Op::Phi { preds } => forall|k: int|
                0 <= k < preds@.len() ==> #[trigger] preds@[k] < self.blocks@.len(),
            _ => true,
        }
    }

    /// The shape `vd` is internally consistent when stored at value
    /// index `i`.
    pub open spec fn vd_wf(self, vd: ValData, i: int) -> bool {
        &&& vd.ty < self.types@.len()
        &&& match vd.kind {
            ValKind::ConstInt { .. } => true,
            ValKind::ConstStruct { elems } => forall|k: int|
                0 <= k < elems@.len() ==> #[trigger] elems@[k] < i,
            ValKind::ConstArray { elems } => forall|k: int|
                0 <= k < elems@.len() ==> #[trigger] elems@[k] < i,
            ValKind::ConstString { .. } => true,
            ValKind::Undef => true,
            ValKind::ConstNull => true,
            ValKind::ConstAllOnes => true,
            ValKind::ConstNullPtr => true,
            ValKind::Func { module, params, blocks, .. } => {
                &&& module < self.modules@.len()
                &&& vd.name is Some
                &&& forall|k: int|
                    0 <= k < params@.len() ==> #[trigger] params@[k] < self.vals@.len()
                        && match self.vals@[params@[k] as int].kind {
                            ValKind::Param { func, index, .. } => func == i && index == k,
                            _ => false,
                        }
                &&& forall|k: int|
                    0 <= k < blocks@.len() ==> #[trigger] blocks@[k] < self.blocks@.len()
                        && self.blocks@[blocks@[k] as int].func == i
            },
            ValKind::Global { module, init, .. } => {
                &&& module < self.modules@.len()
                &&& vd.name is Some
                &&& match init {
                    Some(x) => x < self.vals@.len(),
                    None => true,
                }
            },
            ValKind::Param { func, .. } => func < i && match self.vals@[func as int].kind {
                ValKind::Func { .. } => true,
                _ => false,
            },
            ValKind::Instr { block, op, args, .. } => {
                &&& block < self.blocks@.len()
                &&& self.op_wf(op)
                &&& forall|k: int| 0 <= k < args@.len() ==> #[trigger] args@[k] < i
            },
        }
    }

    /// The stored type at index `i` is internally consistent: components
    /// exist, aggregates are built over sized components, and anonymous
    /// components were created before it.
    pub open spec fn ty_wf_at(self, i: int) -> bool {
        match self.types@[i] {
            TypeData::Void => true,
            TypeData::Int { bits } => 1 <= bits,
            TypeData::Half => true,
            TypeData::Float => true,
            TypeData::Double => true,
            TypeData::Fp128 => true,
            TypeData::Ptr { elem } => elem < i,
            TypeData::Array { elem, .. } => elem < i && self.sized_at(elem as int),
            TypeData::Struct { fields, .. } => forall|k: int|
                0 <= k < fields@.len() ==> #[trigger] fields@[k] < i && self.sized_at(
                    fields@[k] as int,
                ),
            TypeData::Named { fields, opaque, .. } => {
                &&& (opaque ==> fields@.len() == 0)
                &&& forall|k: int|
                    0 <= k < fields@.len() ==> #[trigger] fields@[k] < self.types@.len()
                        && self.sized_at(fields@[k] as int)
            },
            TypeData::FnTy { ret, params, .. } => ret < i && forall|k: int|
                0 <= k < params@.len() ==> #[trigger] params@[k] < i,
        }
    }

    /// No two structural type entries are equivalent: every structural
    /// type has exactly one arena slot.
    pub open spec fn interned(self) -> bool {
        forall|i: int, j: int|
            0 <= i < j < self.types@.len() ==> !td_eqv(
                #[trigger] self.types@[i],
                #[trigger] self.types@[j],
            )
    }

    /// The block at index `i` is internally consistent.
    pub open spec fn blk_wf_at(self, i: int) -> bool {
        let b = self.blocks@[i];
        &&& b.func < self.vals@.len()
        &&& match self.vals@[b.func as int].kind {
            ValKind::Func { .. } => true,
            _ => false,
        }
        &&& forall|k: int|
            0 <= k < b.instrs@.len() ==> #[trigger] b.instrs@[k] < self.vals@.len()
                && match self.vals@[b.instrs@[k] as int].kind {
                    ValKind::Instr { block, .. } => block == i,
                    _ => false,
                }
    }

    /// The module at index `i` is internally consistent: its lists hold
    /// live declarations of this module, and no name is declared twice in
    /// one list.
    pub open spec fn mod_wf_at(self, i: int) -> bool {
        let m = self.modules@[i];
        &&& forall|k: int|
            0 <= k < m.fns@.len() ==> #[trigger] m.fns@[k] < self.vals@.len()
                && match self.vals@[m.fns@[k] as int].kind {
                    ValKind::Func { module, dead, .. } => module == i && !dead,
                    _ => false,
                }
        &&& forall|k1: int, k2: int|
            0 <= k1 < k2 < m.fns@.len() ==> self.v_name(#[trigger] m.fns@[k1] as int)
                != self.v_name(#[trigger] m.fns@[k2] as int)
        &&& forall|k: int|
            0 <= k < m.globals@.len() ==> #[trigger] m.globals@[k] < self.vals@.len()
                && match self.vals@[m.globals@[k] as int].kind {
                    ValKind::Global { module, dead, .. } => module == i && !dead,
                    _ => false,
                }
        &&& forall|k1: int, k2: int|
            0 <= k1 < k2 < m.globals@.len() ==> self.v_name(#[trigger] m.globals@[k1] as int)
                != self.v_name(#[trigger] m.globals@[k2] as int)
    }

    /// The primitive types sit at their fixed arena slots.
    pub open spec fn prims_ok(self) -> bool {
        &&& self.types@.len() >= 11
        &&& self.types@[0] == TypeData::Void
        &&& self.types@[1] == (TypeData::Int { bits: 1u32 })
        &&& self.types@[2] == (TypeData::Int { bits: 8u32 })
        &&& self.types@[3] == (TypeData::Int { bits: 16u32 })
        &&& self.types@[4] == (TypeData::Int { bits: 32u32 })
        &&& self.types@[5] == (TypeData::Int { bits: 64u32 })
        &&& self.types@[6] == (TypeData::Int { bits: 128u32 })
        &&& self.types@[7] == TypeData::Half
        &&& self.types@[8] == TypeData::Float
        &&& self.types@[9] == TypeData::Double
        &&& self.types@[10] == TypeData::Fp128
    }

    /// The whole arena is well formed. Constructors establish this and
    /// every operation preserves it.
    pub open spec fn wf(self) -> bool {
        &&& self.prims_ok()
        &&& self.interned()
        &&& forall|i: int| 0 <= i < self.types@.len() ==> self.ty_wf_at(i)
        &&& forall|i: int| 0 <= i < self.vals@.len() ==> self.vd_wf(#[trigger] self.vals@[i], i)
        &&& forall|i: int| 0 <= i < self.blocks@.len() ==> self.blk_wf_at(i)
        &&& forall|i: int| 0 <= i < self.modules@.len() ==> self.mod_wf_at(i)
    }

    /// Creates a fresh context carrying the tag `id`.
    ///
    /// Give each live context its own tag: the tag is how a handle used
    /// with the wrong context is recognized.
    pub fn create(id: u64) -> (c: Context)
        ensures
            c.wf(),
            !c.disposed,
            c.id == id,
            c.types@.len() == 11,
            c.vals@.len() == 0,
            c.blocks@.len() == 0,
            c.modules@.len() == 0,
    {
        let mut types: Vec<TypeData> = Vec::new();
        types.push(TypeData::Void);
        types.push(TypeData::Int { bits: 1 });
        types.push(TypeData::Int { bits: 8 });
        types.push(TypeData::Int { bits: 16 });
        types.push(TypeData::Int { bits: 32 });
        types.push(TypeData::Int { bits: 64 });
        types.push(TypeData::Int { bits: 128 });
        types.push(TypeData::Half);
        types.push(TypeData::Float);
        types.push(TypeData::Double);
        types.push(TypeData::Fp128);
        let c = Context {
            id,
            disposed: false,
            types,
            vals: Vec::new(),
            blocks: Vec::new(),
            modules: Vec::new(),
        };
        proof {
            assert(c.wf());
        }
        c
    }

    /// The shape `td` may be interned: it is structural (never a named
    /// struct) and its components exist, aggregates over sized ones.
    pub open spec fn td_intern_ok(self, td: TypeData) -> bool {
        match td {
            TypeData::Void => true,
            TypeData::Int { bits } => 1 <= bits,
            TypeData::Half => true,
            TypeData::Float => true,
            TypeData::Double => true,
            TypeData::Fp128 => true,
            TypeData::Ptr { elem } => elem < self.types@.len(),
            TypeData::Array { elem, .. } => elem < self.types@.len() && self.sized_at(
                elem as int,
            ),
            TypeData::Struct { fields, .. } => forall|k: int|
                0 <= k < fields@.len() ==> #[trigger] fields@[k] < self.types@.len()
                    && self.sized_at(fields@[k] as int),
            TypeData::Named { .. } => false,
            TypeData::FnTy { ret, params, .. } => ret < self.types@.len() && forall|k: int|
                0 <= k < params@.len() ==> #[trigger] params@[k] < self.types@.len(),
        }
    }

    /// Returns the handle of the arena slot holding a type structurally
    /// equivalent to `td`, adding a slot only when no equivalent entry
    /// exists yet. Interning is what makes structurally equal types
    /// compare equal as handles.
    pub(crate) fn intern(&mut self, td: TypeData) -> (t: Type)
        requires
            old(self).wf(),
            !old(self).disposed,
            old(self).td_intern_ok(td),
        ensures
            final(self).wf(),
            !final(self).disposed,
            final(self).id == old(self).id,
            final(self).vals@ == old(self).vals@,
            final(self).blocks@ == old(self).blocks@,
            final(self).modules@ == old(self).modules@,
            (forall|i: int|
                0 <= i < old(self).types@.len() ==> final(self).types@[i] == old(
                    self,
                ).types@[i]),
            final(self).ty_ok(t),
            td_eqv(final(self).types@[t.idx as int], td),
            (if (exists|i: int|
                0 <= i < old(self).types@.len() && td_eqv(#[trigger] old(self).types@[i], td)) {
                final(self).types@ == old(self).types@
            } else {
                final(self).types@ == old(self).types@.push(td)
            }),
    {
        let n = self.types.len();
        let mut i: usize = 0;
        while i < n
            invariant
                i <= n,
                n == self.types@.len(),
                self.wf(),
                !self.disposed,
                self.id == old(self).id,
                self.types@ == old(self).types@,
                self.vals@ == old(self).vals@,
                self.blocks@ == old(self).blocks@,
                self.modules@ == old(self).modules@,
                forall|j: int| 0 <= j < i ==> !td_eqv(#[trigger] self.types@[j], td),
            decreases n - i,
        {
            if td_eq(&self.types[i], &td) {
                return Type { owner: self.id, idx: i };
            }
            i += 1;
        }
        let t = Type { owner: self.id, idx: n };
        proof {
            lemma_td_eqv_refl(td);
        }
        self.types.push(td);
        proof {
            lemma_push_ty_wf(*old(self), *self, td);
        }
        t
    }

    /// Pushes a fresh opaque named struct type and returns its handle.
    /// Named structs are nominal: every call makes a new type.
    pub(crate) fn push_named_struct(&mut self, name: String) -> (t: Type)
        requires
            old(self).wf(),
            !old(self).disposed,
        ensures
            final(self).wf(),
            ty_grown(*old(self), *final(self)),
            final(self).types@.len() == old(self).types@.len() + 1,
            final(self).ty_ok(t),
            t.idx == old(self).types@.len(),
            (final(self).ty_at(t.idx as int) matches TypeData::Named {
                name: n,
                fields,
                packed,
                opaque,
            } && n@ == name@ && fields@.len() == 0 && !packed && opaque),
    {
        let t = Type { owner: self.id, idx: self.types.len() };
        let td = TypeData::Named { name, fields: Vec::new(), packed: false, opaque: true };
        let ghost td0 = td;
        self.types.push(td);
        proof {
            lemma_push_named_wf(*old(self), *self, td0);
        }
        t
    }

    /// Gives the opaque named struct at type index `i` its body.
    pub(crate) fn set_named_body(&mut self, i: usize, fields: Vec<usize>, packed: bool)
        requires
            old(self).wf(),
            !old(self).disposed,
            i < old(self).types@.len(),
            old(self).types@[i as int] matches TypeData::Named { opaque, .. } && opaque,
            forall|k: int|
                0 <= k < fields@.len() ==> #[trigger] fields@[k] < old(self).types@.len() && old(
                    self,
                ).sized_at(fields@[k] as int),
        ensures
            final(self).wf(),
            final(self).id == old(self).id,
            !final(self).disposed,
            final(self).vals@ == old(self).vals@,
            final(self).blocks@ == old(self).blocks@,
            final(self).modules@ == old(self).modules@,
            final(self).types@.len() == old(self).types@.len(),
            (forall|j: int|
                0 <= j < old(self).types@.len() && j != i ==> final(self).types@[j] == old(
                    self,
                ).types@[j]),
            (final(self).types@[i as int] matches TypeData::Named {
                name,
                fields: f,
                packed: p,
                opaque,
            } && name@ == old(self).ty_named_name(i as int) && f@ == fields@ && p == packed
                && !opaque),
    {
        let ghost fs = fields@;
        let entry = &mut self.types[i];
        match entry {
            TypeData::Named { fields: fr, packed: pr, opaque: or_, .. } => {
                *fr = fields;
                *pr = packed;
                *or_ = false;
            },
            _ => {},
        }
        proof {
            lemma_set_body_wf(*old(self), *self, i as int, fs, packed);
        }
    }

    /// Whether the type at arena index `i` has a completed layout.
    pub fn is_sized(&self, i: usize) -> (r: bool)
        requires
            i < self.types@.len(),
        ensures
            r == self.sized_at(i as int),
    {
        match &self.types[i] {
            TypeData::Void => false,
            TypeData::FnTy { .. } => false,
            TypeData::Named { opaque, .. } => !*opaque,
            _ => true,
        }
    }

    /// The name of the named struct at type index `i`; empty for other
    /// kinds.
    pub open spec fn ty_named_name(self, i: int) -> Seq<char> {
        match self.types@[i] {
            TypeData::Named { name, .. } => name@,
            _ => Seq::empty(),
        }
    }

    /// The shape `vd` may be pushed as a new value.
    pub open spec fn vd_push_ok(self, vd: ValData) -> bool {
        self.vd_wf(vd, self.vals@.len() as int)
    }

    /// Pushes a new value into the arena and returns its handle.
    pub(crate) fn push_val(&mut self, vd: ValData) -> (v: Value)
        requires
            old(self).wf(),
            !old(self).disposed,
            old(self).vd_push_ok(vd),
        ensures
            final(self).wf(),
            !final(self).disposed,
            final(self).id == old(self).id,
            final(self).types@ == old(self).types@,
            final(self).blocks@ == old(self).blocks@,
            final(self).modules@ == old(self).modules@,
            final(self).vals@ == old(self).vals@.push(vd),
            v == (Value { owner: old(self).id, idx: old(self).vals@.len() as usize }),
            v.idx == old(self).vals@.len(),
            final(self).vals@[old(self).vals@.len() as int] == vd,
            final(self).val_ok(v),
    {
        let v = Value { owner: self.id, idx: self.vals.len() };
        self.vals.push(vd);
        proof {
            lemma_push_val_wf(*old(self), *self);
        }
        v
    }

    /// The parameter type indices of the function signature at type
    /// index `ti`; empty for other kinds.
    pub open spec fn fn_param_tys(self, ti: int) -> Seq<usize> {
        match self.types@[ti] {
            TypeData::FnTy { params, .. } => params@,
            _ => Seq::empty(),
        }
    }

    /// Copies the parameter type indices of the signature at `ti`.
    pub(crate) fn fn_param_tys_vec(&self, ti: usize) -> (r: Vec<usize>)
        requires
            ti < self.types@.len(),
            self.types@[ti as int] is FnTy,
        ensures
            r@ == self.fn_param_tys(ti as int),
    {
        let mut r: Vec<usize> = Vec::new();
        match &self.types[ti] {
            TypeData::FnTy { params, .. } => {
                let n = params.len();
                let mut i: usize = 0;
                while i < n
                    invariant
                        i <= n,
                        n == params@.len(),
                        r@.len() == i,
                        forall|j: int| 0 <= j < i ==> #[trigger] r@[j] == params@[j],
                    decreases n - i,
                {
                    r.push(params[i]);
                    i += 1;
                }
                proof {
                    assert(r@ =~= params@);
                }
            },
            _ => {},
        }
        r
    }

    /// Some list entry is a value carrying this name.
    pub open spec fn list_has_named(self, list: Seq<usize>, name: Seq<char>) -> bool {
        exists|k: int| 0 <= k < list.len() && self.v_name(#[trigger] list[k] as int) == name
    }

    /// Finds the first entry of `list` whose value carries the name.
    /// Entries must be named values of this context.
    pub(crate) fn find_named(&self, list: &Vec<usize>, name: &String) -> (r: Option<usize>)
        requires
            forall|k: int|
                0 <= k < list@.len() ==> #[trigger] list@[k] < self.vals@.len() && self.vals@[
                    list@[k] as int
                ].name is Some,
        ensures
            match r {
                Some(v) => exists|k: int|
                    0 <= k < list@.len() && #[trigger] list@[k] == v && self.v_name(v as int)
                        == name@,
                None => !self.list_has_named(list@, name@),
            },
    {
        let n = list.len();
        let mut i: usize = 0;
        while i < n
            invariant
                i <= n,
                n == list@.len(),
                forall|k: int|
                    0 <= k < list@.len() ==> #[trigger] list@[k] < self.vals@.len() && self.vals@[
                        list@[k] as int
                    ].name is Some,
                forall|k: int| 0 <= k < i ==> self.v_name(#[trigger] list@[k] as int) != name@,
            decreases n - i,
        {
            let vi = list[i];
            match &self.vals[vi].name {
                Some(s) => {
                    if s.eq(name) {
                        proof {
                            assert(list@[i as int] == vi);
                            assert(self.v_name(vi as int) == name@);
                        }
                        return Some(vi);
                    }
                },
                None => {
                    proof {
                        assert(self.vals@[list@[i as int] as int].name is Some);
                        assert(false);
                    }
                },
            }
            i += 1;
        }
        None
    }

    /// Replaces the parameter list of the function value at index `f`.
    pub(crate) fn set_func_params(&mut self, f: usize, params: Vec<usize>)
        requires
            old(self).wf(),
            !old(self).disposed,
            f < old(self).vals@.len(),
            old(self).vals@[f as int].kind is Func,
            forall|k: int|
                0 <= k < params@.len() ==> #[trigger] params@[k] < old(self).vals@.len() && match
                    old(self).vals@[params@[k] as int].kind {
                    ValKind::Param { func, index, .. } => func == f && index == k,
                    _ => false,
                },
        ensures
            final(self).wf(),
            !final(self).disposed,
            final(self).id == old(self).id,
            final(self).types@ == old(self).types@,
            final(self).blocks@ == old(self).blocks@,
            final(self).modules@ == old(self).modules@,
            final(self).vals@.len() == old(self).vals@.len(),
            (forall|j: int|
                0 <= j < old(self).vals@.len() && j != f ==> final(self).vals@[j] == old(
                    self,
                ).vals@[j]),
            final(self).vals@[f as int].name == old(self).vals@[f as int].name,
            final(self).vals@[f as int].ty == old(self).vals@[f as int].ty,
            (final(self).vals@[f as int].kind matches ValKind::Func {
                module,
                params: p,
                blocks,
                cc,
                dead,
            } && module == old(self).vals@[f as int].kind->Func_module && p@ == params@ && blocks@
                == old(self).vals@[f as int].kind->Func_blocks@ && cc == old(
                self,
            ).vals@[f as int].kind->Func_cc && dead == old(self).vals@[f as int].kind->Func_dead),
    {
        let entry = &mut self.vals[f];
        match &mut entry.kind {
            ValKind::Func { params: pr, .. } => {
                *pr = params;
            },
            _ => {},
        }
        proof {
            lemma_update_func_wf(*old(self), *self, f as int);
        }
    }

    /// Appends a freshly declared function to a module's function list.
    pub(crate) fn mod_push_fn(&mut self, mi: usize, f: usize)
        requires
            old(self).wf(),
            !old(self).disposed,
            mi < old(self).modules@.len(),
            f < old(self).vals@.len(),
            (old(self).vals@[f as int].kind matches ValKind::Func { module, dead, .. } && module
                == mi && !dead),
            !old(self).list_has_named(old(self).modules@[mi as int].fns@, old(self).v_name(
                f as int,
            )),
        ensures
            final(self).wf(),
            !final(self).disposed,
            final(self).id == old(self).id,
            final(self).types@ == old(self).types@,
            final(self).vals@ == old(self).vals@,
            final(self).blocks@ == old(self).blocks@,
            final(self).modules@.len() == old(self).modules@.len(),
            (forall|j: int|
                0 <= j < old(self).modules@.len() && j != mi ==> final(self).modules@[j] == old(
                    self,
                ).modules@[j]),
            final(self).mod_at(mi as int).name@ == old(self).mod_at(mi as int).name@,
            final(self).mod_at(mi as int).fns@ == old(self).mod_at(mi as int).fns@.push(f),
            final(self).mod_at(mi as int).globals@ == old(self).mod_at(mi as int).globals@,
            final(self).mod_at(mi as int).triple == old(self).mod_at(mi as int).triple,
            final(self).mod_at(mi as int).layout == old(self).mod_at(mi as int).layout,
    {
        let entry = &mut self.modules[mi];
        entry.fns.push(f);
        proof {
            lemma_mod_push_wf(*old(self), *self, mi as int, f, true);
        }
    }

    /// Appends a freshly declared global to a module's global list.
    pub(crate) fn mod_push_global(&mut self, mi: usize, g: usize)
        requires
            old(self).wf(),
            !old(self).disposed,
            mi < old(self).modules@.len(),
            g < old(self).vals@.len(),
            (old(self).vals@[g as int].kind matches ValKind::Global { module, dead, .. } && module
                == mi && !dead),
            !old(self).list_has_named(old(self).modules@[mi as int].globals@, old(self).v_name(
                g as int,
            )),
        ensures
            final(self).wf(),
            !final(self).disposed,
            final(self).id == old(self).id,
            final(self).types@ == old(self).types@,
            final(self).vals@ == old(self).vals@,
            final(self).blocks@ == old(self).blocks@,
            final(self).modules@.len() == old(self).modules@.len(),
            (forall|j: int|
                0 <= j < old(self).modules@.len() && j != mi ==> final(self).modules@[j] == old(
                    self,
                ).modules@[j]),
            final(self).mod_at(mi as int).name@ == old(self).mod_at(mi as int).name@,
            final(self).mod_at(mi as int).fns@ == old(self).mod_at(mi as int).fns@,
            final(self).mod_at(mi as int).globals@ == old(self).mod_at(mi as int).globals@.push(g),
            final(self).mod_at(mi as int).triple == old(self).mod_at(mi as int).triple,
            final(self).mod_at(mi as int).layout == old(self).mod_at(mi as int).layout,
    {
        let entry = &mut self.modules[mi];
        entry.globals.push(g);
        proof {
            lemma_mod_push_wf(*old(self), *self, mi as int, g, false);
        }
    }

    /// Appends a fresh basic block to the function value at index `f`.
    pub(crate) fn append_block(&mut self, f: usize, name: String) -> (b: BasicBlock)
        requires
            old(self).wf(),
            !old(self).disposed,
            f < old(self).vals@.len(),
            old(self).vals@[f as int].kind is Func,
        ensures
            final(self).wf(),
            !final(self).disposed,
            final(self).id == old(self).id,
            final(self).types@ == old(self).types@,
            final(self).modules@ == old(self).modules@,
            b == (BasicBlock { owner: old(self).id, idx: old(self).blocks@.len() as usize }),
            b.idx == old(self).blocks@.len(),
            final(self).blocks@.len() == old(self).blocks@.len() + 1,
            (forall|j: int|
                0 <= j < old(self).blocks@.len() ==> final(self).blocks@[j] == old(
                    self,
                ).blocks@[j]),
            final(self).blk_at(b.idx as int).name@ == name@,
            final(self).blk_at(b.idx as int).func == f,
            final(self).blk_at(b.idx as int).instrs@ == Seq::<usize>::empty(),
            !final(self).blk_at(b.idx as int).dead,
            final(self).vals@.len() == old(self).vals@.len(),
            (forall|j: int|
                0 <= j < old(self).vals@.len() && j != f ==> final(self).vals@[j] == old(
                    self,
                ).vals@[j]),
            final(self).vals@[f as int].name == old(self).vals@[f as int].name,
            final(self).vals@[f as int].ty == old(self).vals@[f as int].ty,
            (final(self).vals@[f as int].kind matches ValKind::Func {
                module,
                params,
                blocks,
                cc,
                dead,
            } && module == old(self).vals@[f as int].kind->Func_module && params@ == old(
                self,
            ).vals@[f as int].kind->Func_params@ && blocks@ == old(
                self,
            ).vals@[f as int].kind->Func_blocks@.push(b.idx) && cc == old(
                self,
            ).vals@[f as int].kind->Func_cc && dead == old(self).vals@[f as int].kind->Func_dead),
    {
        let b = BasicBlock { owner: self.id, idx: self.blocks.len() };
        let ghost c0 = *self;
        self.blocks.push(BlockData { name, func: f, instrs: Vec::new(), dead: false });
        proof {
            lemma_push_block_wf(c0, *self, f as int);
        }
        let ghost c05 = *self;
        let bi = b.idx;
        let entry = &mut self.vals[f];
        match &mut entry.kind {
            ValKind::Func { blocks: br, .. } => {
                br.push(bi);
            },
            _ => {},
        }
        proof {
            assert forall|k: int|
                0 <= k < self.vals@[f as int].kind->Func_params@.len()
                    implies #[trigger] self.vals@[f as int].kind->Func_params@[k]
                < self.vals@.len() && match self.vals@[self.vals@[f as int].kind->Func_params@[
                k
            ] as int].kind {
                ValKind::Param { func, index, .. } => func == f as int && index == k,
                _ => false,
            } by {
                assert(c05.vd_wf(c05.vals@[f as int], f as int));
            }
            assert forall|k: int|
                0 <= k < self.vals@[f as int].kind->Func_blocks@.len()
                    implies #[trigger] self.vals@[f as int].kind->Func_blocks@[k]
                < self.blocks@.len() && self.blocks@[self.vals@[f as int].kind->Func_blocks@[
                k
            ] as int].func == f as int by {
                assert(c05.vd_wf(c05.vals@[f as int], f as int));
                if k < c05.vals@[f as int].kind->Func_blocks@.len() {
                } else {
                    assert(self.vals@[f as int].kind->Func_blocks@[k] == b.idx);
                }
            }
            lemma_update_func_wf(c05, *self, f as int);
        }
        b
    }

    /// Deletes the function value at index `f`: it leaves its module's
    /// function list and is tombstoned, leaving every handle to it, its
    /// parameters and its blocks stale.
    pub(crate) fn kill_func(&mut self, f: usize, pos: usize)
        requires
            old(self).wf(),
            !old(self).disposed,
            f < old(self).vals@.len(),
            (old(self).vals@[f as int].kind matches ValKind::Func { dead, module, .. } && !dead
                && pos < old(self).modules@[module as int].fns@.len() && old(self).modules@[
                module as int
            ].fns@[pos as int] == f),
        ensures
            final(self).wf(),
            !final(self).disposed,
            final(self).id == old(self).id,
            final(self).types@ == old(self).types@,
            final(self).blocks@ == old(self).blocks@,
            final(self).vals@.len() == old(self).vals@.len(),
            (forall|j: int|
                0 <= j < old(self).vals@.len() && j != f ==> final(self).vals@[j] == old(
                    self,
                ).vals@[j]),
            final(self).vals@[f as int].name == old(self).vals@[f as int].name,
            final(self).vals@[f as int].ty == old(self).vals@[f as int].ty,
            (final(self).vals@[f as int].kind matches ValKind::Func { dead, .. } && dead),
            !final(self).val_live_at(f as int),
            final(self).modules@.len() == old(self).modules@.len(),
            (forall|j: int|
                0 <= j < old(self).modules@.len() && j != old(self).vals@[
                    f as int
                ].kind->Func_module ==> final(self).modules@[j] == old(self).modules@[j]),
            (final(self).mod_at(old(self).vals@[f as int].kind->Func_module as int).fns@ == old(
                self,
            ).mod_at(old(self).vals@[f as int].kind->Func_module as int).fns@.remove(pos as int)),
            (final(self).mod_at(old(self).vals@[f as int].kind->Func_module as int).globals@ == old(
                self,
            ).mod_at(old(self).vals@[f as int].kind->Func_module as int).globals@),
            (final(self).mod_at(old(self).vals@[f as int].kind->Func_module as int).name@ == old(
                self,
            ).mod_at(old(self).vals@[f as int].kind->Func_module as int).name@),
            (final(self).mod_at(old(self).vals@[f as int].kind->Func_module as int).triple == old(
                self,
            ).mod_at(old(self).vals@[f as int].kind->Func_module as int).triple),
            (final(self).mod_at(old(self).vals@[f as int].kind->Func_module as int).layout == old(
                self,
            ).mod_at(old(self).vals@[f as int].kind->Func_module as int).layout),
    {
        let mi = match &self.vals[f].kind {
            ValKind::Func { module, .. } => *module,
            _ => 0,
        };
        self.modules[mi].fns.remove(pos);
        let ghost c05 = *self;
        let entry = &mut self.vals[f];
        match &mut entry.kind {
            ValKind::Func { dead, .. } => {
                *dead = true;
            },
            _ => {},
        }
        proof {
            lemma_kill_decl_wf(*old(self), *self, f as int, mi as int, pos as int, true);
        }
    }

    /// Deletes the global value at index `g`: it leaves its module's
    /// global list and is tombstoned.
    pub(crate) fn kill_global(&mut self, g: usize, pos: usize)
        requires
            old(self).wf(),
            !old(self).disposed,
            g < old(self).vals@.len(),
            (old(self).vals@[g as int].kind matches ValKind::Global { dead, module, .. } && !dead
                && pos < old(self).modules@[module as int].globals@.len() && old(self).modules@[
                module as int
            ].globals@[pos as int] == g),
        ensures
            final(self).wf(),
            !final(self).disposed,
            final(self).id == old(self).id,
            final(self).types@ == old(self).types@,
            final(self).blocks@ == old(self).blocks@,
            final(self).vals@.len() == old(self).vals@.len(),
            (forall|j: int|
                0 <= j < old(self).vals@.len() && j != g ==> final(self).vals@[j] == old(
                    self,
                ).vals@[j]),
            final(self).vals@[g as int].name == old(self).vals@[g as int].name,
            final(self).vals@[g as int].ty == old(self).vals@[g as int].ty,
            (final(self).vals@[g as int].kind matches ValKind::Global { dead, .. } && dead),
            !final(self).val_live_at(g as int),
            final(self).modules@.len() == old(self).modules@.len(),
            (forall|j: int|
                0 <= j < old(self).modules@.len() && j != old(self).vals@[
                    g as int
                ].kind->Global_module ==> final(self).modules@[j] == old(self).modules@[j]),
            (final(self).mod_at(old(self).vals@[g as int].kind->Global_module as int).globals@
                == old(self).mod_at(
                old(self).vals@[g as int].kind->Global_module as int,
            ).globals@.remove(pos as int)),
            (final(self).mod_at(old(self).vals@[g as int].kind->Global_module as int).fns@ == old(
                self,
            ).mod_at(old(self).vals@[g as int].kind->Global_module as int).fns@),
    {
        let mi = match &self.vals[g].kind {
            ValKind::Global { module, .. } => *module,
            _ => 0,
        };
        self.modules[mi].globals.remove(pos);
        let entry = &mut self.vals[g];
        match &mut entry.kind {
            ValKind::Global { dead, .. } => {
                *dead = true;
            },
            _ => {},
        }
        proof {
            lemma_kill_decl_wf(*old(self), *self, g as int, mi as int, pos as int, false);
        }
    }

    /// Replaces the settable fields of the global value at index `g`.
    pub(crate) fn set_global_fields(
        &mut self,
        g: usize,
        init: Option<usize>,
        linkage: Linkage,
        is_const: bool,
        unnamed_addr: bool,
        align: u32,
    )
        requires
            old(self).wf(),
            !old(self).disposed,
            g < old(self).vals@.len(),
            old(self).vals@[g as int].kind is Global,
            (init matches Some(x) ==> x < old(self).vals@.len()),
        ensures
            final(self).wf(),
            !final(self).disposed,
            final(self).id == old(self).id,
            final(self).types@ == old(self).types@,
            final(self).blocks@ == old(self).blocks@,
            final(self).modules@ == old(self).modules@,
            final(self).vals@.len() == old(self).vals@.len(),
            (forall|j: int|
                0 <= j < old(self).vals@.len() && j != g ==> final(self).vals@[j] == old(
                    self,
                ).vals@[j]),
            final(self).vals@[g as int].name == old(self).vals@[g as int].name,
            final(self).vals@[g as int].ty == old(self).vals@[g as int].ty,
            (final(self).vals@[g as int].kind matches ValKind::Global {
                module,
                init: i2,
                linkage: l2,
                is_const: c2,
                unnamed_addr: u2,
                align: a2,
                dead,
            } && module == old(self).vals@[g as int].kind->Global_module && i2 == init && l2
                == linkage && c2 == is_const && u2 == unnamed_addr && a2 == align && dead == old(
                self,
            ).vals@[g as int].kind->Global_dead),
    {
        let entry = &mut self.vals[g];
        match &mut entry.kind {
            ValKind::Global {
                init: ir,
                linkage: lr,
                is_const: cr,
                unnamed_addr: ur,
                align: ar,
                ..
            } => {
                *ir = init;
                *lr = linkage;
                *cr = is_const;
                *ur = unnamed_addr;
                *ar = align;
            },
            _ => {},
        }
        proof {
            lemma_update_leaf_wf(*old(self), *self, g as int);
        }
    }

    /// Replaces the flag fields of the instruction value at index `i`.
    pub(crate) fn set_instr_flags(&mut self, i: usize, tail_call: bool, align: u32)
        requires
            old(self).wf(),
            !old(self).disposed,
            i < old(self).vals@.len(),
            old(self).vals@[i as int].kind is Instr,
        ensures
            final(self).wf(),
            !final(self).disposed,
            final(self).id == old(self).id,
            final(self).types@ == old(self).types@,
            final(self).blocks@ == old(self).blocks@,
            final(self).modules@ == old(self).modules@,
            final(self).vals@.len() == old(self).vals@.len(),
            (forall|j: int|
                0 <= j < old(self).vals@.len() && j != i ==> final(self).vals@[j] == old(
                    self,
                ).vals@[j]),
            final(self).vals@[i as int].name == old(self).vals@[i as int].name,
            final(self).vals@[i as int].ty == old(self).vals@[i as int].ty,
            (final(self).vals@[i as int].kind matches ValKind::Instr {
                block,
                op,
                args,
                tail_call: t2,
                align: a2,
            } && block == old(self).vals@[i as int].kind->Instr_block && op == old(self).vals@[
                i as int
            ].kind->Instr_op && args@ == old(self).vals@[i as int].kind->Instr_args@ && t2
                == tail_call && a2 == align),
    {
        let entry = &mut self.vals[i];
        match &mut entry.kind {
            ValKind::Instr { tail_call: tr, align: ar, .. } => {
                *tr = tail_call;
                *ar = align;
            },
            _ => {},
        }
        proof {
            lemma_update_leaf_wf(*old(self), *self, i as int);
        }
    }

    /// Replaces the alignment of the parameter value at index `p`.
    pub(crate) fn set_param_align(&mut self, p: usize, align: u32)
        requires
            old(self).wf(),
            !old(self).disposed,
            p < old(self).vals@.len(),
            old(self).vals@[p as int].kind is Param,
        ensures
            final(self).wf(),
            !final(self).disposed,
            final(self).id == old(self).id,
            final(self).types@ == old(self).types@,
            final(self).blocks@ == old(self).blocks@,
            final(self).modules@ == old(self).modules@,
            final(self).vals@.len() == old(self).vals@.len(),
            (forall|j: int|
                0 <= j < old(self).vals@.len() && j != p ==> final(self).vals@[j] == old(
                    self,
                ).vals@[j]),
            final(self).vals@[p as int].name == old(self).vals@[p as int].name,
            final(self).vals@[p as int].ty == old(self).vals@[p as int].ty,
            (final(self).vals@[p as int].kind matches ValKind::Param { func, index, align: a2 }
                && func == old(self).vals@[p as int].kind->Param_func && index == old(self).vals@[
                p as int
            ].kind->Param_index && a2 == align),
    {
        let entry = &mut self.vals[p];
        match &mut entry.kind {
            ValKind::Param { align: ar, .. } => {
                *ar = align;
            },
            _ => {},
        }
        proof {
            lemma_update_leaf_wf(*old(self), *self, p as int);
        }
    }

    /// Replaces the calling convention of the function value at index `f`.
    pub(crate) fn set_func_cc(&mut self, f: usize, cc: CallConv)
        requires
            old(self).wf(),
            !old(self).disposed,
            f < old(self).vals@.len(),
            old(self).vals@[f as int].kind is Func,
        ensures
            final(self).wf(),
            !final(self).disposed,
            final(self).id == old(self).id,
            final(self).types@ == old(self).types@,
            final(self).blocks@ == old(self).blocks@,
            final(self).modules@ == old(self).modules@,
            final(self).vals@.len() == old(self).vals@.len(),
            (forall|j: int|
                0 <= j < old(self).vals@.len() && j != f ==> final(self).vals@[j] == old(
                    self,
                ).vals@[j]),
            final(self).vals@[f as int].name == old(self).vals@[f as int].name,
            final(self).vals@[f as int].ty == old(self).vals@[f as int].ty,
            (final(self).vals@[f as int].kind matches ValKind::Func {
                module,
                params,
                blocks,
                cc: c2,
                dead,
            } && module == old(self).vals@[f as int].kind->Func_module && params@ == old(
                self,
            ).vals@[f as int].kind->Func_params@ && blocks@ == old(self).vals@[
                f as int
            ].kind->Func_blocks@ && c2 == cc && dead == old(self).vals@[f as int].kind->Func_dead),
    {
        let entry = &mut self.vals[f];
        match &mut entry.kind {
            ValKind::Func { cc: cr, .. } => {
                *cr = cc;
            },
            _ => {},
        }
        proof {
            let c0 = *old(self);
            assert forall|k: int|
                0 <= k < self.vals@[f as int].kind->Func_params@.len()
                    implies #[trigger] self.vals@[f as int].kind->Func_params@[k]
                < self.vals@.len() && match self.vals@[self.vals@[f as int].kind->Func_params@[
                k
            ] as int].kind {
                ValKind::Param { func, index, .. } => func == f as int && index == k,
                _ => false,
            } by {
                assert(c0.vd_wf(c0.vals@[f as int], f as int));
                assert(self.vals@[f as int].kind->Func_params@[k] != f);
            }
            assert forall|k: int|
                0 <= k < self.vals@[f as int].kind->Func_blocks@.len()
                    implies #[trigger] self.vals@[f as int].kind->Func_blocks@[k]
                < self.blocks@.len() && self.blocks@[self.vals@[f as int].kind->Func_blocks@[
                k
            ] as int].func == f as int by {
                assert(c0.vd_wf(c0.vals@[f as int], f as int));
            }
            lemma_update_func_wf(c0, *self, f as int);
        }
    }

    /// Replaces the name of the value at index `i`; declarations keep
    /// their name, so the value must not be a function or global.
    pub(crate) fn set_val_name(&mut self, i: usize, name: String)
        requires
            old(self).wf(),
            !old(self).disposed,
            i < old(self).vals@.len(),
            !(old(self).vals@[i as int].kind is Func),
            !(old(self).vals@[i as int].kind is Global),
        ensures
            final(self).wf(),
            !final(self).disposed,
            final(self).id == old(self).id,
            final(self).types@ == old(self).types@,
            final(self).blocks@ == old(self).blocks@,
            final(self).modules@ == old(self).modules@,
            final(self).vals@.len() == old(self).vals@.len(),
            (forall|j: int|
                0 <= j < old(self).vals@.len() && j != i ==> final(self).vals@[j] == old(
                    self,
                ).vals@[j]),
            final(self).v_name(i as int) == name@,
            final(self).vals@[i as int].ty == old(self).vals@[i as int].ty,
            final(self).vals@[i as int].kind == old(self).vals@[i as int].kind,
    {
        let entry = &mut self.vals[i];
        entry.name = Some(name);
        proof {
            lemma_set_val_name_wf(*old(self), *self, i as int);
        }
    }

    /// Deletes the basic block at index `b`: it leaves its function's
    /// block list and is tombstoned, leaving handles to it and to its
    /// instructions stale.
    pub(crate) fn kill_block(&mut self, b: usize, pos: usize)
        requires
            old(self).wf(),
            !old(self).disposed,
            b < old(self).blocks@.len(),
            old(self).blocks@[b as int].func < old(self).vals@.len(),
            old(self).vals@[old(self).blocks@[b as int].func as int].kind is Func,
            pos < old(self).vals@[old(self).blocks@[b as int].func as int].kind->Func_blocks@.len(),
            old(self).vals@[old(self).blocks@[b as int].func as int].kind->Func_blocks@[pos as int]
                == b,
        ensures
            final(self).wf(),
            !final(self).disposed,
            final(self).id == old(self).id,
            final(self).types@ == old(self).types@,
            final(self).modules@ == old(self).modules@,
            final(self).blocks@.len() == old(self).blocks@.len(),
            (forall|j: int|
                0 <= j < old(self).blocks@.len() && j != b ==> final(self).blocks@[j] == old(
                    self,
                ).blocks@[j]),
            final(self).blk_at(b as int).name@ == old(self).blk_at(b as int).name@,
            final(self).blk_at(b as int).func == old(self).blk_at(b as int).func,
            final(self).blk_at(b as int).instrs@ == old(self).blk_at(b as int).instrs@,
            final(self).blk_at(b as int).dead,
            final(self).vals@.len() == old(self).vals@.len(),
            (forall|j: int|
                0 <= j < old(self).vals@.len() && j != old(self).blocks@[b as int].func ==> final(self).vals@[j] == old(self).vals@[j]),
            (final(self).vals@[old(self).blocks@[b as int].func as int].kind->Func_blocks@ == old(
                self,
            ).vals@[old(self).blocks@[b as int].func as int].kind->Func_blocks@.remove(pos as int)),
            final(self).vals@[old(self).blocks@[b as int].func as int].name == old(self).vals@[old(
                self,
            ).blocks@[b as int].func as int].name,
            (final(self).vals@[old(self).blocks@[b as int].func as int].kind
                matches ValKind::Func { dead, .. } && dead == old(self).vals@[old(self).blocks@[
                b as int
            ].func as int].kind->Func_dead),
    {
        let f = self.blocks[b].func;
        let ghost c0 = *self;
        let entry = &mut self.vals[f];
        match &mut entry.kind {
            ValKind::Func { blocks: br, .. } => {
                proof {
                    br@.remove_ensures(pos as int);
                }
                br.remove(pos);
            },
            _ => {},
        }
        proof {
            assert forall|k: int|
                0 <= k < self.vals@[f as int].kind->Func_params@.len()
                    implies #[trigger] self.vals@[f as int].kind->Func_params@[k]
                < self.vals@.len() && match self.vals@[self.vals@[f as int].kind->Func_params@[
                k
            ] as int].kind {
                ValKind::Param { func, index, .. } => func == f as int && index == k,
                _ => false,
            } by {
                assert(c0.vd_wf(c0.vals@[f as int], f as int));
                assert(self.vals@[f as int].kind->Func_params@[k] != f);
            }
            assert forall|k: int|
                0 <= k < self.vals@[f as int].kind->Func_blocks@.len()
                    implies #[trigger] self.vals@[f as int].kind->Func_blocks@[k]
                < self.blocks@.len() && self.blocks@[self.vals@[f as int].kind->Func_blocks@[
                k
            ] as int].func == f as int by {
                assert(c0.vd_wf(c0.vals@[f as int], f as int));
                let l0 = c0.vals@[f as int].kind->Func_blocks@;
                l0.remove_ensures(pos as int);
                if k < pos {
                    assert(self.vals@[f as int].kind->Func_blocks@[k] == l0[k]);
                } else {
                    assert(self.vals@[f as int].kind->Func_blocks@[k] == l0[k + 1]);
                }
            }
            lemma_update_func_wf(c0, *self, f as int);
        }
        let ghost c05 = *self;
        let bentry = &mut self.blocks[b];
        bentry.dead = true;
        proof {
            lemma_block_dead_wf(c05, *self, b as int);
        }
    }

    /// Tombstones the block at index `b` without touching any list; used
    /// when the owning function does not list the block.
    pub(crate) fn set_block_dead(&mut self, b: usize)
        requires
            old(self).wf(),
            !old(self).disposed,
            b < old(self).blocks@.len(),
        ensures
            final(self).wf(),
            !final(self).disposed,
            final(self).id == old(self).id,
            final(self).types@ == old(self).types@,
            final(self).vals@ == old(self).vals@,
            final(self).modules@ == old(self).modules@,
            final(self).blocks@.len() == old(self).blocks@.len(),
            (forall|j: int|
                0 <= j < old(self).blocks@.len() && j != b ==> final(self).blocks@[j] == old(
                    self,
                ).blocks@[j]),
            final(self).blk_at(b as int).name@ == old(self).blk_at(b as int).name@,
            final(self).blk_at(b as int).func == old(self).blk_at(b as int).func,
            final(self).blk_at(b as int).instrs@ == old(self).blk_at(b as int).instrs@,
            final(self).blk_at(b as int).dead,
    {
        let entry = &mut self.blocks[b];
        entry.dead = true;
        proof {
            lemma_block_dead_wf(*old(self), *self, b as int);
        }
    }

    /// Tombstones a function or global value that no module list holds.
    pub(crate) fn kill_unlisted(&mut self, x: usize)
        requires
            old(self).wf(),
            !old(self).disposed,
            x < old(self).vals@.len(),
            old(self).vals@[x as int].kind is Func || old(self).vals@[x as int].kind is Global,
            forall|j: int, k: int|
                0 <= j < old(self).modules@.len() && 0 <= k < old(self).modules@[j].fns@.len()
                    ==> #[trigger] old(self).modules@[j].fns@[k] != x,
            forall|j: int, k: int|
                0 <= j < old(self).modules@.len() && 0 <= k < old(self).modules@[j].globals@.len()
                    ==> #[trigger] old(self).modules@[j].globals@[k] != x,
        ensures
            final(self).wf(),
            !final(self).disposed,
            final(self).id == old(self).id,
            final(self).types@ == old(self).types@,
            final(self).blocks@ == old(self).blocks@,
            final(self).modules@ == old(self).modules@,
            final(self).vals@.len() == old(self).vals@.len(),
            (forall|j: int|
                0 <= j < old(self).vals@.len() && j != x ==> final(self).vals@[j] == old(
                    self,
                ).vals@[j]),
            !final(self).val_live_at(x as int),
    {
        let ghost c0 = *self;
        let entry = &mut self.vals[x];
        match &mut entry.kind {
            ValKind::Func { dead, .. } => {
                *dead = true;
            },
            ValKind::Global { dead, .. } => {
                *dead = true;
            },
            _ => {},
        }
        proof {
            lemma_kill_unlisted_wf(c0, *self, x as int);
        }
    }

    /// Whether the block at arena index `b` is live.
    pub(crate) fn blk_is_live(&self, b: usize) -> (r: bool)
        requires
            b < self.blocks@.len(),
        ensures
            r == self.blk_live_at(b as int),
    {
        let bd = &self.blocks[b];
        if bd.dead || bd.func >= self.vals.len() {
            false
        } else {
            match &self.vals[bd.func].kind {
                ValKind::Func { dead, .. } => !*dead,
                _ => false,
            }
        }
    }

    /// Creates an instruction value and threads it into a block's
    /// instruction list at the given position.
    pub(crate) fn insert_instr(&mut self, b: usize, at: usize, op: Op, args: Vec<usize>, rty: usize) -> (v:
        Value)
        requires
            old(self).wf(),
            !old(self).disposed,
            b < old(self).blocks@.len(),
            at <= old(self).blocks@[b as int].instrs@.len(),
            rty < old(self).types@.len(),
            old(self).op_wf(op),
            forall|k: int| 0 <= k < args@.len() ==> #[trigger] args@[k] < old(self).vals@.len(),
        ensures
            final(self).wf(),
            !final(self).disposed,
            final(self).id == old(self).id,
            final(self).types@ == old(self).types@,
            final(self).modules@ == old(self).modules@,
            v == (Value { owner: old(self).id, idx: old(self).vals@.len() as usize }),
            v.idx == old(self).vals@.len(),
            final(self).vals@.len() == old(self).vals@.len() + 1,
            (forall|j: int|
                0 <= j < old(self).vals@.len() ==> final(self).vals@[j] == old(self).vals@[j]),
            final(self).vals@[v.idx as int].name is None,
            final(self).vals@[v.idx as int].ty == rty,
            (final(self).vals@[v.idx as int].kind matches ValKind::Instr {
                block,
                op: o2,
                args: a2,
                tail_call,
                align,
            } && block == b && o2 == op && a2@ == args@ && !tail_call && align == 0),
            final(self).blocks@.len() == old(self).blocks@.len(),
            (forall|j: int|
                0 <= j < old(self).blocks@.len() && j != b ==> final(self).blocks@[j] == old(
                    self,
                ).blocks@[j]),
            final(self).blk_at(b as int).name@ == old(self).blk_at(b as int).name@,
            final(self).blk_at(b as int).func == old(self).blk_at(b as int).func,
            final(self).blk_at(b as int).dead == old(self).blk_at(b as int).dead,
            final(self).blk_at(b as int).instrs@ == old(self).blk_at(b as int).instrs@.insert(
                at as int,
                v.idx as usize,
            ),
            old(self).blk_at(b as int).instrs@.len() < usize::MAX,
            old(self).vals@.len() < usize::MAX,
    {
        let v = self.push_val(
            ValData {
                name: None,
                ty: rty,
                kind: ValKind::Instr { block: b, op, args, tail_call: false, align: 0 },
            },
        );
        let nv = self.vals.len();
        proof {
            assert(nv == old(self).vals@.len() + 1);
        }
        let ghost c05 = *self;
        let vi = v.idx;
        let entry = &mut self.blocks[b];
        entry.instrs.insert(at, vi);
        let grown = entry.instrs.len();
        proof {
            assert(grown == c05.blocks@[b as int].instrs@.len() + 1);
            lemma_block_insert_wf(c05, *self, b as int, at as int, vi);
        }
        v
    }

    /// Sets the target triple recorded in a module.
    pub(crate) fn mod_set_triple(&mut self, mi: usize, triple: String)
        requires
            old(self).wf(),
            !old(self).disposed,
            mi < old(self).modules@.len(),
        ensures
            final(self).wf(),
            !final(self).disposed,
            final(self).id == old(self).id,
            final(self).types@ == old(self).types@,
            final(self).vals@ == old(self).vals@,
            final(self).blocks@ == old(self).blocks@,
            final(self).modules@.len() == old(self).modules@.len(),
            (forall|j: int|
                0 <= j < old(self).modules@.len() && j != mi ==> final(self).modules@[j] == old(
                    self,
                ).modules@[j]),
            final(self).mod_at(mi as int).name@ == old(self).mod_at(mi as int).name@,
            final(self).mod_at(mi as int).fns@ == old(self).mod_at(mi as int).fns@,
            final(self).mod_at(mi as int).globals@ == old(self).mod_at(mi as int).globals@,
            (final(self).mod_at(mi as int).triple matches Some(s) && s@ == triple@),
            final(self).mod_at(mi as int).layout == old(self).mod_at(mi as int).layout,
    {
        let entry = &mut self.modules[mi];
        entry.triple = Some(triple);
        proof {
            lemma_mod_meta_wf(*old(self), *self, mi as int);
        }
    }

    /// Sets the data layout recorded in a module.
    pub(crate) fn mod_set_layout(&mut self, mi: usize, layout: TargetData)
        requires
            old(self).wf(),
            !old(self).disposed,
            mi < old(self).modules@.len(),
        ensures
            final(self).wf(),
            !final(self).disposed,
            final(self).id == old(self).id,
            final(self).types@ == old(self).types@,
            final(self).vals@ == old(self).vals@,
            final(self).blocks@ == old(self).blocks@,
            final(self).modules@.len() == old(self).modules@.len(),
            (forall|j: int|
                0 <= j < old(self).modules@.len() && j != mi ==> final(self).modules@[j] == old(
                    self,
                ).modules@[j]),
            final(self).mod_at(mi as int).name@ == old(self).mod_at(mi as int).name@,
            final(self).mod_at(mi as int).fns@ == old(self).mod_at(mi as int).fns@,
            final(self).mod_at(mi as int).globals@ == old(self).mod_at(mi as int).globals@,
            final(self).mod_at(mi as int).triple == old(self).mod_at(mi as int).triple,
            final(self).mod_at(mi as int).layout == Some(layout),
    {
        let entry = &mut self.modules[mi];
        entry.layout = Some(layout);
        proof {
            lemma_mod_meta_wf(*old(self), *self, mi as int);
        }
    }

    /// Creates a module with the given name in this context.
    pub fn create_module(&mut self, name: &str) -> (r: Result<Module, IrError>)
        requires
            old(self).wf(),
            !old(self).disposed,
        ensures
            final(self).wf(),
            !final(self).disposed,
            final(self).id == old(self).id,
            final(self).types@ == old(self).types@,
            final(self).vals@ == old(self).vals@,
            final(self).blocks@ == old(self).blocks@,
            match r {
                Ok(m) => {
                    &&& valid_name(name@)
                    &&& m == (Module {
                        owner: old(self).id,
                        idx: old(self).modules@.len() as usize,
                    })
                    &&& final(self).modules@.len() == old(self).modules@.len() + 1
                    &&& (forall|j: int|
                        0 <= j < old(self).modules@.len() ==> final(self).modules@[j] == old(
                            self,
                        ).modules@[j])
                    &&& final(self).mod_at(m.idx as int).name@ == name@
                    &&& final(self).mod_at(m.idx as int).fns@ == Seq::<usize>::empty()
                    &&& final(self).mod_at(m.idx as int).globals@ == Seq::<usize>::empty()
                    &&& final(self).mod_at(m.idx as int).triple is None
                    &&& final(self).mod_at(m.idx as int).layout is None
                },
                Err(e) => {
                    &&& e == IrError::InvalidName
                    &&& !valid_name(name@)
                    &&& final(self).modules@ == old(self).modules@
                },
            },
    {
        if !name_ok(name) {
            return Err(IrError::InvalidName);
        }
        let md = ModuleData {
            name: name.to_owned(),
            fns: Vec::new(),
            globals: Vec::new(),
            triple: None,
            layout: None,
        };
        let m = Module { owner: self.id, idx: self.modules.len() };
        self.modules.push(md);
        proof {
            lemma_push_module_wf(*old(self), *self);
        }
        Ok(m)
    }

    /// Creates a builder in this context, with no insertion point set.
    pub fn create_builder(&self) -> (b: Builder)
        ensures
            b.owner == self.id,
            b.cursor is None,
            b.wf(*self),
    {
        Builder { owner: self.id, cursor: None }
    }

    /// Releases everything the context owns. Idempotent: disposing twice
    /// leaves the same empty, disposed context. Handles into a disposed
    /// context must not be used again; operations demand an undisposed
    /// context.
    pub fn dispose(&mut self)
        ensures
            final(self).disposed,
            final(self).id == old(self).id,
            final(self).types@.len() == 0,
            final(self).vals@.len() == 0,
            final(self).blocks@.len() == 0,
            final(self).modules@.len() == 0,
    {
        self.disposed = true;
        self.types.clear();
        self.vals.clear();
        self.blocks.clear();
        self.modules.clear();
    }
}

/// The two context states hold the same arenas, tag and disposal state.
pub open spec fn ctx_same(c0: Context, c1: Context) -> bool {
    &&& c1.id == c0.id
    &&& c1.disposed == c0.disposed
    &&& c1.types@ == c0.types@
    &&& c1.vals@ == c0.vals@
    &&& c1.blocks@ == c0.blocks@
    &&& c1.modules@ == c0.modules@
}

/// The step from `c0` to `c1` only grew the type arena: every other part
/// of the context, and every existing type slot, is untouched.
pub open spec fn ty_grown(c0: Context, c1: Context) -> bool {
    &&& c1.id == c0.id
    &&& c1.disposed == c0.disposed
    &&& c1.vals@ == c0.vals@
    &&& c1.blocks@ == c0.blocks@
    &&& c1.modules@ == c0.modules@
    &&& c0.types@.len() <= c1.types@.len()
    &&& forall|i: int| 0 <= i < c0.types@.len() ==> c1.types@[i] == c0.types@[i]
}

/// Structural equivalence is symmetric.
pub proof fn lemma_td_eqv_sym(a: TypeData, b: TypeData)
    ensures
        td_eqv(a, b) == td_eqv(b, a),
{
}

/// In a well-formed context, structurally equivalent type slots are the
/// same slot: a structural type has exactly one handle. This is what
/// makes a type factory return the same handle on every call.
pub proof fn lemma_interned_unique(c: Context, a: Type, b: Type)
    requires
        c.wf(),
        c.ty_ok(a),
        c.ty_ok(b),
        td_eqv(c.ty_at(a.idx as int), c.ty_at(b.idx as int)),
    ensures
        a == b,
{
    if a.idx < b.idx {
        assert(!td_eqv(c.types@[a.idx as int], c.types@[b.idx as int]));
    } else if b.idx < a.idx {
        lemma_td_eqv_sym(c.ty_at(a.idx as int), c.ty_at(b.idx as int));
        assert(!td_eqv(c.types@[b.idx as int], c.types@[a.idx as int]));
    }
}

/// Pushing a fresh opaque named struct onto the type arena keeps the
/// context well formed; named structs are nominal and never interfere
/// with interning.
proof fn lemma_push_named_wf(c0: Context, c1: Context, td: TypeData)
    requires
        c0.wf(),
        c1.types@ == c0.types@.push(td),
        c1.vals@ == c0.vals@,
        c1.blocks@ == c0.blocks@,
        c1.modules@ == c0.modules@,
        td matches TypeData::Named { opaque, fields, .. } && opaque && fields@.len() == 0,
    ensures
        c1.wf(),
{
    let n = c0.types@.len() as int;
    assert forall|i: int| 0 <= i < c1.types@.len() implies c1.ty_wf_at(i) by {
        if i < n {
            assert(c0.ty_wf_at(i));
            assert(c1.types@[i] == c0.types@[i]);
            assert forall|e: int| 0 <= e < n && c0.sized_at(e) implies c1.sized_at(e) by {
                assert(c1.types@[e] == c0.types@[e]);
            }
        } else {
            assert(c1.types@[i] == td);
        }
    }
    assert forall|i: int, j: int| 0 <= i < j < c1.types@.len() implies !td_eqv(
        c1.types@[i],
        c1.types@[j],
    ) by {
        if j < n {
            assert(c1.types@[i] == c0.types@[i]);
            assert(c1.types@[j] == c0.types@[j]);
        } else {
            assert(c1.types@[j] == td);
        }
    }
    assert forall|i: int| 0 <= i < c1.vals@.len() implies c1.vd_wf(c1.vals@[i], i) by {
        assert(c0.vd_wf(c0.vals@[i], i));
    }
    assert forall|i: int| 0 <= i < c1.blocks@.len() implies c1.blk_wf_at(i) by {
        assert(c0.blk_wf_at(i));
    }
    assert forall|i: int| 0 <= i < c1.modules@.len() implies c1.mod_wf_at(i) by {
        assert(c0.mod_wf_at(i));
    }
}

/// Replacing the parameter list, block list or calling convention of a
/// function value — keeping its name, type, module and liveness — keeps
/// the context well formed, provided the new lists point back at it.
proof fn lemma_update_func_wf(c0: Context, c1: Context, f: int)
    requires
        c0.wf(),
        c1.types@ == c0.types@,
        c1.blocks@ == c0.blocks@,
        c1.modules@ == c0.modules@,
        c1.vals@.len() == c0.vals@.len(),
        0 <= f < c0.vals@.len(),
        forall|j: int| 0 <= j < c0.vals@.len() && j != f ==> c1.vals@[j] == c0.vals@[j],
        c0.vals@[f].kind is Func,
        c1.vals@[f].kind is Func,
        c1.vals@[f].name == c0.vals@[f].name,
        c1.vals@[f].ty == c0.vals@[f].ty,
        c1.vals@[f].kind->Func_module == c0.vals@[f].kind->Func_module,
        c1.vals@[f].kind->Func_dead == c0.vals@[f].kind->Func_dead,
        forall|k: int|
            0 <= k < c1.vals@[f].kind->Func_params@.len()
                ==> #[trigger] c1.vals@[f].kind->Func_params@[k] < c1.vals@.len() && match c1.vals@[
                c1.vals@[f].kind->Func_params@[k] as int
            ].kind {
                ValKind::Param { func, index, .. } => func == f && index == k,
                _ => false,
            },
        forall|k: int|
            0 <= k < c1.vals@[f].kind->Func_blocks@.len()
                ==> #[trigger] c1.vals@[f].kind->Func_blocks@[k] < c1.blocks@.len()
                && c1.blocks@[c1.vals@[f].kind->Func_blocks@[k] as int].func == f,
    ensures
        c1.wf(),
{
    assert forall|i: int| 0 <= i < c1.types@.len() implies c1.ty_wf_at(i) by {
        assert(c0.ty_wf_at(i));
    }
    assert forall|i: int| 0 <= i < c1.vals@.len() implies c1.vd_wf(c1.vals@[i], i) by {
        assert(c0.vd_wf(c0.vals@[i], i));
        if i != f {
            match c0.vals@[i].kind {
                ValKind::Func { params, blocks, .. } => {
                    assert forall|k: int| 0 <= k < params@.len() implies #[trigger] params@[k]
                        != f by {
                        assert(c0.vals@[params@[k] as int].kind is Param);
                    }
                },
                _ => {},
            }
        }
    }
    assert forall|i: int| 0 <= i < c1.blocks@.len() implies c1.blk_wf_at(i) by {
        assert(c0.blk_wf_at(i));
        let b = c0.blocks@[i];
        assert forall|k: int| 0 <= k < b.instrs@.len() implies #[trigger] b.instrs@[k] != f by {
            assert(c0.vals@[b.instrs@[k] as int].kind is Instr);
        }
    }
    assert forall|i: int| 0 <= i < c1.modules@.len() implies c1.mod_wf_at(i) by {
        assert(c0.mod_wf_at(i));
        let m = c0.modules@[i];
        assert forall|k: int| 0 <= k < m.globals@.len() implies #[trigger] m.globals@[k] != f by {
            assert(c0.vals@[m.globals@[k] as int].kind is Global);
        }
        assert forall|k: int| 0 <= k < m.fns@.len() implies c1.v_name(#[trigger] m.fns@[k] as int)
            == c0.v_name(m.fns@[k] as int) by {}
    }
}

/// Appending a live declaration of a fresh name to a module's list keeps
/// the context well formed.
#[verifier::rlimit(60)]
proof fn lemma_mod_push_wf(c0: Context, c1: Context, mi: int, x: usize, is_fn: bool)
    requires
        c0.wf(),
        c1.types@ == c0.types@,
        c1.vals@ == c0.vals@,
        c1.blocks@ == c0.blocks@,
        c1.modules@.len() == c0.modules@.len(),
        0 <= mi < c0.modules@.len(),
        x < c0.vals@.len(),
        forall|j: int| 0 <= j < c0.modules@.len() && j != mi ==> c1.modules@[j] == c0.modules@[j],
        c1.modules@[mi].name == c0.modules@[mi].name,
        c1.modules@[mi].triple == c0.modules@[mi].triple,
        c1.modules@[mi].layout == c0.modules@[mi].layout,
        is_fn ==> {
            &&& c1.modules@[mi].fns@ == c0.modules@[mi].fns@.push(x)
            &&& c1.modules@[mi].globals@ == c0.modules@[mi].globals@
            &&& (c0.vals@[x as int].kind matches ValKind::Func { module, dead, .. } && module == mi
                && !dead)
            &&& !c0.list_has_named(c0.modules@[mi].fns@, c0.v_name(x as int))
        },
        !is_fn ==> {
            &&& c1.modules@[mi].fns@ == c0.modules@[mi].fns@
            &&& c1.modules@[mi].globals@ == c0.modules@[mi].globals@.push(x)
            &&& (c0.vals@[x as int].kind matches ValKind::Global { module, dead, .. } && module == mi
                && !dead)
            &&& !c0.list_has_named(c0.modules@[mi].globals@, c0.v_name(x as int))
        },
    ensures
        c1.wf(),
{
    assert forall|i: int| 0 <= i < c1.types@.len() implies c1.ty_wf_at(i) by {
        assert(c0.ty_wf_at(i));
    }
    assert forall|i: int| 0 <= i < c1.vals@.len() implies c1.vd_wf(c1.vals@[i], i) by {
        assert(c0.vd_wf(c0.vals@[i], i));
    }
    assert forall|i: int| 0 <= i < c1.blocks@.len() implies c1.blk_wf_at(i) by {
        assert(c0.blk_wf_at(i));
    }
    assert forall|i: int| 0 <= i < c1.modules@.len() implies c1.mod_wf_at(i) by {
        assert(c0.mod_wf_at(i));
        if i == mi {
            let l0 = if is_fn {
                c0.modules@[mi].fns@
            } else {
                c0.modules@[mi].globals@
            };
            let l1 = if is_fn {
                c1.modules@[mi].fns@
            } else {
                c1.modules@[mi].globals@
            };
            assert(l1 == l0.push(x));
            assert(l1.len() == l0.len() + 1);
            assert(l1[l0.len() as int] == x);
            assert forall|k: int| 0 <= k < l0.len() implies #[trigger] l1[k] == l0[k] by {}
            assert forall|k1: int, k2: int| 0 <= k1 < k2 < l1.len() implies c1.v_name(
                #[trigger] l1[k1] as int,
            ) != c1.v_name(#[trigger] l1[k2] as int) by {
                if k2 == l0.len() {
                    assert(l1[k2] == x);
                    assert(!c0.list_has_named(l0, c0.v_name(x as int)));
                    assert(l0[k1] == l1[k1]);
                    assert(c0.v_name(l0[k1] as int) != c0.v_name(x as int));
                } else {
                    assert(l1[k1] == l0[k1] && l1[k2] == l0[k2]);
                    assert(c0.v_name(l0[k1] as int) != c0.v_name(l0[k2] as int));
                }
            }
            assert forall|k: int| 0 <= k < l1.len() implies #[trigger] l1[k] < c1.vals@.len() by {
                if k < l0.len() {
                    assert(l1[k] == l0[k]);
                }
            }
        }
    }
}

/// Pushing a fresh empty block that points at an existing function keeps
/// the context well formed.
proof fn lemma_push_block_wf(c0: Context, c1: Context, f: int)
    requires
        c0.wf(),
        c1.types@ == c0.types@,
        c1.vals@ == c0.vals@,
        c1.modules@ == c0.modules@,
        c1.blocks@.len() == c0.blocks@.len() + 1,
        forall|j: int| 0 <= j < c0.blocks@.len() ==> c1.blocks@[j] == c0.blocks@[j],
        0 <= f < c0.vals@.len(),
        c0.vals@[f].kind is Func,
        c1.blocks@[c0.blocks@.len() as int].func == f,
        c1.blocks@[c0.blocks@.len() as int].instrs@.len() == 0,
    ensures
        c1.wf(),
{
    let n = c0.blocks@.len() as int;
    assert forall|i: int| 0 <= i < c1.types@.len() implies c1.ty_wf_at(i) by {
        assert(c0.ty_wf_at(i));
    }
    assert forall|i: int| 0 <= i < c1.vals@.len() implies c1.vd_wf(c1.vals@[i], i) by {
        assert(c0.vd_wf(c0.vals@[i], i));
        match c0.vals@[i].kind {
            ValKind::Func { blocks, .. } => {
                assert forall|k: int| 0 <= k < blocks@.len() implies #[trigger] blocks@[k]
                    < c1.blocks@.len() && c1.blocks@[blocks@[k] as int].func == i by {
                    assert(blocks@[k] < c0.blocks@.len());
                    assert(c1.blocks@[blocks@[k] as int] == c0.blocks@[blocks@[k] as int]);
                }
            },
            ValKind::Instr { block, op, .. } => {
                assert(c1.op_wf(op));
            },
            _ => {},
        }
    }
    assert forall|i: int| 0 <= i < c1.blocks@.len() implies c1.blk_wf_at(i) by {
        if i < n {
            assert(c0.blk_wf_at(i));
            assert(c1.blocks@[i] == c0.blocks@[i]);
        }
    }
    assert forall|i: int| 0 <= i < c1.modules@.len() implies c1.mod_wf_at(i) by {
        assert(c0.mod_wf_at(i));
    }
}

/// Tombstoning a function or global and removing it from its module's
/// list keeps the context well formed.
#[verifier::rlimit(100)]
proof fn lemma_kill_decl_wf(c0: Context, c1: Context, x: int, mi: int, pos: int, is_fn: bool)
    requires
        c0.wf(),
        c1.types@ == c0.types@,
        c1.blocks@ == c0.blocks@,
        c1.vals@.len() == c0.vals@.len(),
        0 <= x < c0.vals@.len(),
        forall|j: int| 0 <= j < c0.vals@.len() && j != x ==> c1.vals@[j] == c0.vals@[j],
        c1.vals@[x].name == c0.vals@[x].name,
        c1.vals@[x].ty == c0.vals@[x].ty,
        c1.modules@.len() == c0.modules@.len(),
        0 <= mi < c0.modules@.len(),
        forall|j: int| 0 <= j < c0.modules@.len() && j != mi ==> c1.modules@[j] == c0.modules@[j],
        c1.modules@[mi].name == c0.modules@[mi].name,
        c1.modules@[mi].triple == c0.modules@[mi].triple,
        c1.modules@[mi].layout == c0.modules@[mi].layout,
        is_fn ==> {
            &&& (c0.vals@[x].kind matches ValKind::Func { module, dead, .. } && module == mi
                && !dead)
            &&& (c1.vals@[x].kind matches ValKind::Func { module, dead, .. } && module == mi
                && dead)
            &&& c1.vals@[x].kind->Func_params@ == c0.vals@[x].kind->Func_params@
            &&& c1.vals@[x].kind->Func_blocks@ == c0.vals@[x].kind->Func_blocks@
            &&& 0 <= pos < c0.modules@[mi].fns@.len()
            &&& c0.modules@[mi].fns@[pos] == x
            &&& c1.modules@[mi].fns@ == c0.modules@[mi].fns@.remove(pos)
            &&& c1.modules@[mi].globals@ == c0.modules@[mi].globals@
        },
        !is_fn ==> {
            &&& (c0.vals@[x].kind matches ValKind::Global { module, dead, init, .. } && module
                == mi && !dead)
            &&& (c1.vals@[x].kind matches ValKind::Global { module, dead, .. } && module == mi
                && dead)
            &&& c1.vals@[x].kind->Global_init == c0.vals@[x].kind->Global_init
            &&& 0 <= pos < c0.modules@[mi].globals@.len()
            &&& c0.modules@[mi].globals@[pos] == x
            &&& c1.modules@[mi].globals@ == c0.modules@[mi].globals@.remove(pos)
            &&& c1.modules@[mi].fns@ == c0.modules@[mi].fns@
        },
    ensures
        c1.wf(),
{
    let l0 = if is_fn {
        c0.modules@[mi].fns@
    } else {
        c0.modules@[mi].globals@
    };
    let l1 = if is_fn {
        c1.modules@[mi].fns@
    } else {
        c1.modules@[mi].globals@
    };
    l0.remove_ensures(pos);
    assert(l1.len() == l0.len() - 1);
    assert(c0.mod_wf_at(mi));
    // the deleted declaration occurs nowhere else in its list: a second
    // occurrence would carry the same name twice
    assert forall|k: int| 0 <= k < l0.len() && k != pos implies #[trigger] l0[k] != x by {
        if l0[k] == x {
            if k < pos {
                assert(c0.v_name(l0[k] as int) != c0.v_name(l0[pos] as int));
            } else {
                assert(c0.v_name(l0[pos] as int) != c0.v_name(l0[k] as int));
            }
        }
    }
    assert forall|k: int| 0 <= k < l1.len() implies #[trigger] l1[k] != x && l1[k]
        < c0.vals@.len() by {
        if k < pos {
            assert(l1[k] == l0[k]);
        } else {
            assert(l1[k] == l0[k + 1]);
        }
    }
    assert forall|i: int| 0 <= i < c1.types@.len() implies c1.ty_wf_at(i) by {
        assert(c0.ty_wf_at(i));
    }
    assert forall|i: int| 0 <= i < c1.vals@.len() implies c1.vd_wf(c1.vals@[i], i) by {
        assert(c0.vd_wf(c0.vals@[i], i));
        if i != x {
            match c0.vals@[i].kind {
                ValKind::Func { params, .. } => {
                    assert forall|k: int| 0 <= k < params@.len() implies #[trigger] params@[k]
                        != x by {
                        assert(c0.vals@[params@[k] as int].kind is Param);
                    }
                },
                _ => {},
            }
        } else {
            if is_fn {
                assert forall|k: int|
                    0 <= k < c1.vals@[x].kind->Func_params@.len()
                        implies #[trigger] c1.vals@[x].kind->Func_params@[k] != x by {
                    assert(c0.vals@[c0.vals@[x].kind->Func_params@[k] as int].kind is Param);
                }
            }
        }
    }
    assert forall|i: int| 0 <= i < c1.blocks@.len() implies c1.blk_wf_at(i) by {
        assert(c0.blk_wf_at(i));
        let b = c0.blocks@[i];
        assert forall|k: int| 0 <= k < b.instrs@.len() implies #[trigger] b.instrs@[k] != x by {
            assert(c0.vals@[b.instrs@[k] as int].kind is Instr);
        }
    }
    assert forall|i: int| 0 <= i < c1.modules@.len() implies c1.mod_wf_at(i) by {
        assert(c0.mod_wf_at(i));
        if i != mi {
            assert(c1.modules@[i] == c0.modules@[i]);
            assert forall|k: int|
                0 <= k < c0.modules@[i].fns@.len() implies #[trigger] c0.modules@[i].fns@[k]
                != x by {
                if is_fn {
                    assert(c0.vals@[c0.modules@[i].fns@[k] as int].kind->Func_module == i);
                } else {
                    assert(c0.vals@[c0.modules@[i].fns@[k] as int].kind is Func);
                }
            }
            assert forall|k: int|
                0 <= k < c0.modules@[i].globals@.len() implies #[trigger] c0.modules@[i].globals@[k]
                != x by {
                if is_fn {
                    assert(c0.vals@[c0.modules@[i].globals@[k] as int].kind is Global);
                } else {
                    assert(c0.vals@[c0.modules@[i].globals@[k] as int].kind->Global_module == i);
                }
            }
        } else {
            let other0 = if is_fn {
                c0.modules@[mi].globals@
            } else {
                c0.modules@[mi].fns@
            };
            assert forall|k: int| 0 <= k < other0.len() implies #[trigger] other0[k] != x by {
                if is_fn {
                    assert(c0.vals@[other0[k] as int].kind is Global);
                } else {
                    assert(c0.vals@[other0[k] as int].kind is Func);
                }
            }
            assert forall|k1: int, k2: int| 0 <= k1 < k2 < l1.len() implies c1.v_name(
                #[trigger] l1[k1] as int,
            ) != c1.v_name(#[trigger] l1[k2] as int) by {
                let a = if k1 < pos {
                    k1
                } else {
                    k1 + 1
                };
                let b = if k2 < pos {
                    k2
                } else {
                    k2 + 1
                };
                assert(l1[k1] == l0[a]);
                assert(l1[k2] == l0[b]);
                assert(c0.v_name(l0[a] as int) != c0.v_name(l0[b] as int));
            }
        }
    }
}

/// Updating a global, instruction or parameter value in place — keeping
/// its name, type and every field other entries rely on — keeps the
/// context well formed.
proof fn lemma_update_leaf_wf(c0: Context, c1: Context, i: int)
    requires
        c0.wf(),
        c1.types@ == c0.types@,
        c1.blocks@ == c0.blocks@,
        c1.modules@ == c0.modules@,
        c1.vals@.len() == c0.vals@.len(),
        0 <= i < c0.vals@.len(),
        forall|j: int| 0 <= j < c0.vals@.len() && j != i ==> c1.vals@[j] == c0.vals@[j],
        c1.vals@[i].name == c0.vals@[i].name,
        c1.vals@[i].ty == c0.vals@[i].ty,
        c1.vd_wf(c1.vals@[i], i),
        match (c0.vals@[i].kind, c1.vals@[i].kind) {
            (
                ValKind::Global { module: m0, dead: d0, .. },
                ValKind::Global { module: m1, dead: d1, .. },
            ) => m0 == m1 && d0 == d1,
            (ValKind::Instr { block: b0, .. }, ValKind::Instr { block: b1, .. }) => b0 == b1,
            (
                ValKind::Param { func: f0, index: i0, .. },
                ValKind::Param { func: f1, index: i1, .. },
            ) => f0 == f1 && i0 == i1,
            _ => false,
        },
    ensures
        c1.wf(),
{
    assert forall|j: int| 0 <= j < c1.types@.len() implies c1.ty_wf_at(j) by {
        assert(c0.ty_wf_at(j));
    }
    assert forall|j: int| 0 <= j < c1.vals@.len() implies c1.vd_wf(c1.vals@[j], j) by {
        assert(c0.vd_wf(c0.vals@[j], j));
    }
    assert forall|j: int| 0 <= j < c1.blocks@.len() implies c1.blk_wf_at(j) by {
        assert(c0.blk_wf_at(j));
        assert(c0.vals@[c0.blocks@[j].func as int].kind is Func);
        assert(c0.blocks@[j].func != i);
    }
    assert forall|j: int| 0 <= j < c1.modules@.len() implies c1.mod_wf_at(j) by {
        assert(c0.mod_wf_at(j));
        let m = c0.modules@[j];
        assert forall|k: int| 0 <= k < m.fns@.len() implies #[trigger] m.fns@[k] != i by {
            assert(c0.vals@[m.fns@[k] as int].kind is Func);
        }
        assert forall|k: int|
            0 <= k < m.globals@.len() implies c1.v_name(#[trigger] m.globals@[k] as int)
            == c0.v_name(m.globals@[k] as int) by {
            if m.globals@[k] == i {
                assert(c1.vals@[i].name == c0.vals@[i].name);
            }
        }
    }
}

/// Renaming a value that is not a declaration keeps the context well
/// formed: module lists key only function and global names.
proof fn lemma_set_val_name_wf(c0: Context, c1: Context, i: int)
    requires
        c0.wf(),
        c1.types@ == c0.types@,
        c1.blocks@ == c0.blocks@,
        c1.modules@ == c0.modules@,
        c1.vals@.len() == c0.vals@.len(),
        0 <= i < c0.vals@.len(),
        forall|j: int| 0 <= j < c0.vals@.len() && j != i ==> c1.vals@[j] == c0.vals@[j],
        c1.vals@[i].ty == c0.vals@[i].ty,
        c1.vals@[i].kind == c0.vals@[i].kind,
        c1.vals@[i].name is Some,
        !(c0.vals@[i].kind is Func),
        !(c0.vals@[i].kind is Global),
    ensures
        c1.wf(),
{
    assert forall|j: int| 0 <= j < c1.types@.len() implies c1.ty_wf_at(j) by {
        assert(c0.ty_wf_at(j));
    }
    assert forall|j: int| 0 <= j < c1.vals@.len() implies c1.vd_wf(c1.vals@[j], j) by {
        assert(c0.vd_wf(c0.vals@[j], j));
    }
    assert forall|j: int| 0 <= j < c1.blocks@.len() implies c1.blk_wf_at(j) by {
        assert(c0.blk_wf_at(j));
        assert(c0.vals@[c0.blocks@[j].func as int].kind is Func);
        assert(c0.blocks@[j].func != i);
    }
    assert forall|j: int| 0 <= j < c1.modules@.len() implies c1.mod_wf_at(j) by {
        assert(c0.mod_wf_at(j));
        let m = c0.modules@[j];
        assert forall|k: int| 0 <= k < m.fns@.len() implies c1.v_name(#[trigger] m.fns@[k] as int)
            == c0.v_name(m.fns@[k] as int) by {
            assert(c0.vals@[m.fns@[k] as int].kind is Func);
            assert(m.fns@[k] != i);
        }
        assert forall|k: int|
            0 <= k < m.globals@.len() implies c1.v_name(#[trigger] m.globals@[k] as int)
            == c0.v_name(m.globals@[k] as int) by {
            assert(c0.vals@[m.globals@[k] as int].kind is Global);
            assert(m.globals@[k] != i);
        }
    }
}

/// Threading a freshly pushed instruction into the block it names keeps
/// the context well formed.
proof fn lemma_block_insert_wf(c0: Context, c1: Context, b: int, at: int, vi: usize)
    requires
        c0.wf(),
        c1.types@ == c0.types@,
        c1.vals@ == c0.vals@,
        c1.modules@ == c0.modules@,
        c1.blocks@.len() == c0.blocks@.len(),
        0 <= b < c0.blocks@.len(),
        forall|j: int| 0 <= j < c0.blocks@.len() && j != b ==> c1.blocks@[j] == c0.blocks@[j],
        c1.blocks@[b].func == c0.blocks@[b].func,
        0 <= at <= c0.blocks@[b].instrs@.len(),
        c1.blocks@[b].instrs@ == c0.blocks@[b].instrs@.insert(at, vi),
        vi < c0.vals@.len(),
        (c0.vals@[vi as int].kind matches ValKind::Instr { block, .. } && block == b),
    ensures
        c1.wf(),
{
    assert forall|j: int| 0 <= j < c1.types@.len() implies c1.ty_wf_at(j) by {
        assert(c0.ty_wf_at(j));
    }
    assert forall|j: int| 0 <= j < c1.vals@.len() implies c1.vd_wf(c1.vals@[j], j) by {
        assert(c0.vd_wf(c0.vals@[j], j));
        match c0.vals@[j].kind {
            ValKind::Func { blocks, .. } => {
                assert forall|k: int| 0 <= k < blocks@.len() implies #[trigger] blocks@[k]
                    < c1.blocks@.len() && c1.blocks@[blocks@[k] as int].func == j by {
                    if blocks@[k] != b {
                        assert(c1.blocks@[blocks@[k] as int] == c0.blocks@[blocks@[k] as int]);
                    }
                }
            },
            _ => {},
        }
    }
    assert forall|j: int| 0 <= j < c1.blocks@.len() implies c1.blk_wf_at(j) by {
        assert(c0.blk_wf_at(j));
        if j == b {
            let l0 = c0.blocks@[b].instrs@;
            let l1 = c1.blocks@[b].instrs@;
            assert(l1 == l0.insert(at, vi));
            assert forall|k: int| 0 <= k < l1.len() implies #[trigger] l1[k] < c1.vals@.len()
                && match c1.vals@[l1[k] as int].kind {
                ValKind::Instr { block, .. } => block == j,
                _ => false,
            } by {
                if k < at {
                    assert(l1[k] == l0[k]);
                } else if k == at {
                    assert(l1[k] == vi);
                } else {
                    assert(l1[k] == l0[k - 1]);
                }
            }
        } else {
            assert(c1.blocks@[j] == c0.blocks@[j]);
        }
    }
    assert forall|j: int| 0 <= j < c1.modules@.len() implies c1.mod_wf_at(j) by {
        assert(c0.mod_wf_at(j));
    }
}

/// Tombstoning a block — leaving its name, owner and instruction list in
/// place — keeps the context well formed.
proof fn lemma_block_dead_wf(c0: Context, c1: Context, b: int)
    requires
        c0.wf(),
        c1.types@ == c0.types@,
        c1.vals@ == c0.vals@,
        c1.modules@ == c0.modules@,
        c1.blocks@.len() == c0.blocks@.len(),
        0 <= b < c0.blocks@.len(),
        forall|j: int| 0 <= j < c0.blocks@.len() && j != b ==> c1.blocks@[j] == c0.blocks@[j],
        c1.blocks@[b].func == c0.blocks@[b].func,
        c1.blocks@[b].instrs@ == c0.blocks@[b].instrs@,
    ensures
        c1.wf(),
{
    assert forall|j: int| 0 <= j < c1.types@.len() implies c1.ty_wf_at(j) by {
        assert(c0.ty_wf_at(j));
    }
    assert forall|j: int| 0 <= j < c1.vals@.len() implies c1.vd_wf(c1.vals@[j], j) by {
        assert(c0.vd_wf(c0.vals@[j], j));
        match c0.vals@[j].kind {
            ValKind::Func { blocks, .. } => {
                assert forall|k: int| 0 <= k < blocks@.len() implies #[trigger] blocks@[k]
                    < c1.blocks@.len() && c1.blocks@[blocks@[k] as int].func == j by {
                    if blocks@[k] != b {
                        assert(c1.blocks@[blocks@[k] as int] == c0.blocks@[blocks@[k] as int]);
                    }
                }
            },
            _ => {},
        }
    }
    assert forall|j: int| 0 <= j < c1.blocks@.len() implies c1.blk_wf_at(j) by {
        assert(c0.blk_wf_at(j));
        if j != b {
            assert(c1.blocks@[j] == c0.blocks@[j]);
        }
    }
    assert forall|j: int| 0 <= j < c1.modules@.len() implies c1.mod_wf_at(j) by {
        assert(c0.mod_wf_at(j));
    }
}

/// Tombstoning a declaration that no module list holds keeps the context
/// well formed.
proof fn lemma_kill_unlisted_wf(c0: Context, c1: Context, x: int)
    requires
        c0.wf(),
        c1.types@ == c0.types@,
        c1.blocks@ == c0.blocks@,
        c1.modules@ == c0.modules@,
        c1.vals@.len() == c0.vals@.len(),
        0 <= x < c0.vals@.len(),
        forall|j: int| 0 <= j < c0.vals@.len() && j != x ==> c1.vals@[j] == c0.vals@[j],
        c1.vals@[x].name == c0.vals@[x].name,
        c1.vals@[x].ty == c0.vals@[x].ty,
        match (c0.vals@[x].kind, c1.vals@[x].kind) {
            (
                ValKind::Func { module: m0, params: p0, blocks: b0, cc: cc0, .. },
                ValKind::Func { module: m1, params: p1, blocks: b1, cc: cc1, .. },
            ) => m0 == m1 && p0@ == p1@ && b0@ == b1@ && cc0 == cc1,
            (
                ValKind::Global { module: m0, init: i0, .. },
                ValKind::Global { module: m1, init: i1, .. },
            ) => m0 == m1 && i0 == i1,
            _ => false,
        },
        forall|j: int, k: int|
            0 <= j < c0.modules@.len() && 0 <= k < c0.modules@[j].fns@.len()
                ==> #[trigger] c0.modules@[j].fns@[k] != x,
        forall|j: int, k: int|
            0 <= j < c0.modules@.len() && 0 <= k < c0.modules@[j].globals@.len()
                ==> #[trigger] c0.modules@[j].globals@[k] != x,
    ensures
        c1.wf(),
{
    assert forall|j: int| 0 <= j < c1.types@.len() implies c1.ty_wf_at(j) by {
        assert(c0.ty_wf_at(j));
    }
    assert forall|j: int| 0 <= j < c1.vals@.len() implies c1.vd_wf(c1.vals@[j], j) by {
        assert(c0.vd_wf(c0.vals@[j], j));
        if j != x {
            match c0.vals@[j].kind {
                ValKind::Func { params, .. } => {
                    assert forall|k: int| 0 <= k < params@.len() implies #[trigger] params@[k]
                        != x by {
                        assert(c0.vals@[params@[k] as int].kind is Param);
                    }
                },
                _ => {},
            }
        } else {
            match c0.vals@[x].kind {
                ValKind::Func { params, .. } => {
                    assert forall|k: int|
                        0 <= k < c1.vals@[x].kind->Func_params@.len()
                            implies #[trigger] c1.vals@[x].kind->Func_params@[k] != x by {
                        assert(c0.vals@[c0.vals@[x].kind->Func_params@[k] as int].kind is Param);
                    }
                },
                _ => {},
            }
        }
    }
    assert forall|j: int| 0 <= j < c1.blocks@.len() implies c1.blk_wf_at(j) by {
        assert(c0.blk_wf_at(j));
        let b = c0.blocks@[j];
        assert forall|k: int| 0 <= k < b.instrs@.len() implies #[trigger] b.instrs@[k] != x by {
            assert(c0.vals@[b.instrs@[k] as int].kind is Instr);
        }
    }
    assert forall|j: int| 0 <= j < c1.modules@.len() implies c1.mod_wf_at(j) by {
        assert(c0.mod_wf_at(j));
    }
}

/// Changing only a module's triple or layout record keeps the context
/// well formed.
proof fn lemma_mod_meta_wf(c0: Context, c1: Context, mi: int)
    requires
        c0.wf(),
        c1.types@ == c0.types@,
        c1.vals@ == c0.vals@,
        c1.blocks@ == c0.blocks@,
        c1.modules@.len() == c0.modules@.len(),
        0 <= mi < c0.modules@.len(),
        forall|j: int| 0 <= j < c0.modules@.len() && j != mi ==> c1.modules@[j] == c0.modules@[j],
        c1.modules@[mi].fns@ == c0.modules@[mi].fns@,
        c1.modules@[mi].globals@ == c0.modules@[mi].globals@,
    ensures
        c1.wf(),
{
    assert forall|i: int| 0 <= i < c1.types@.len() implies c1.ty_wf_at(i) by {
        assert(c0.ty_wf_at(i));
    }
    assert forall|i: int| 0 <= i < c1.vals@.len() implies c1.vd_wf(c1.vals@[i], i) by {
        assert(c0.vd_wf(c0.vals@[i], i));
    }
    assert forall|i: int| 0 <= i < c1.blocks@.len() implies c1.blk_wf_at(i) by {
        assert(c0.blk_wf_at(i));
    }
    assert forall|i: int| 0 <= i < c1.modules@.len() implies c1.mod_wf_at(i) by {
        assert(c0.mod_wf_at(i));
    }
}

/// Completing an opaque named struct with a sized body keeps the context
/// well formed.
proof fn lemma_set_body_wf(c0: Context, c1: Context, i: int, fields: Seq<usize>, packed: bool)
    requires
        c0.wf(),
        0 <= i < c0.types@.len(),
        c0.types@[i] matches TypeData::Named { opaque, .. } && opaque,
        forall|k: int|
            0 <= k < fields.len() ==> #[trigger] fields[k] < c0.types@.len() && c0.sized_at(
                fields[k] as int,
            ),
        c1.vals@ == c0.vals@,
        c1.blocks@ == c0.blocks@,
        c1.modules@ == c0.modules@,
        c1.types@.len() == c0.types@.len(),
        forall|j: int| 0 <= j < c0.types@.len() && j != i ==> c1.types@[j] == c0.types@[j],
        c1.types@[i] matches TypeData::Named { fields: f, packed: p, opaque, .. } && f@ == fields
            && p == packed && !opaque,
    ensures
        c1.wf(),
{
    assert(c1.prims_ok());
    assert forall|e: int| 0 <= e < c0.types@.len() && c0.sized_at(e) implies c1.sized_at(e) by {
        if e != i {
            assert(c1.types@[e] == c0.types@[e]);
        }
    }
    assert forall|a: int, b: int| 0 <= a < b < c1.types@.len() implies !td_eqv(
        c1.types@[a],
        c1.types@[b],
    ) by {
        if a != i && b != i {
            assert(c1.types@[a] == c0.types@[a]);
            assert(c1.types@[b] == c0.types@[b]);
        }
    }
    assert forall|j: int| 0 <= j < c1.types@.len() implies c1.ty_wf_at(j) by {
        if j != i {
            assert(c0.ty_wf_at(j));
            assert(c1.types@[j] == c0.types@[j]);
        }
    }
    assert forall|j: int| 0 <= j < c1.vals@.len() implies c1.vd_wf(c1.vals@[j], j) by {
        assert(c0.vd_wf(c0.vals@[j], j));
    }
    assert forall|j: int| 0 <= j < c1.blocks@.len() implies c1.blk_wf_at(j) by {
        assert(c0.blk_wf_at(j));
    }
    assert forall|j: int| 0 <= j < c1.modules@.len() implies c1.mod_wf_at(j) by {
        assert(c0.mod_wf_at(j));
    }
}

/// Structural equivalence is reflexive on every shape but named structs.
proof fn lemma_td_eqv_refl(td: TypeData)
    requires
        !(td is Named),
    ensures
        td_eqv(td, td),
{
}

/// Pushing a fresh, consistent structural shape onto the type arena keeps
/// the context well formed.
proof fn lemma_push_ty_wf(c0: Context, c1: Context, td: TypeData)
    requires
        c0.wf(),
        c1.types@ == c0.types@.push(td),
        c1.vals@ == c0.vals@,
        c1.blocks@ == c0.blocks@,
        c1.modules@ == c0.modules@,
        c0.td_intern_ok(td),
        forall|i: int| 0 <= i < c0.types@.len() ==> !td_eqv(#[trigger] c0.types@[i], td),
    ensures
        c1.wf(),
{
    let n = c0.types@.len() as int;
    assert forall|i: int| 0 <= i < c1.types@.len() implies c1.ty_wf_at(i) by {
        if i < n {
            assert(c0.ty_wf_at(i));
            assert(c1.types@[i] == c0.types@[i]);
            assert forall|e: int| 0 <= e < n && c0.sized_at(e) implies c1.sized_at(e) by {
                assert(c1.types@[e] == c0.types@[e]);
            }
        } else {
            assert(c1.types@[i] == td);
            assert forall|e: int| 0 <= e < n && c0.sized_at(e) implies c1.sized_at(e) by {
                assert(c1.types@[e] == c0.types@[e]);
            }
        }
    }
    assert forall|i: int, j: int| 0 <= i < j < c1.types@.len() implies !td_eqv(
        c1.types@[i],
        c1.types@[j],
    ) by {
        if j < n {
            assert(c1.types@[i] == c0.types@[i]);
            assert(c1.types@[j] == c0.types@[j]);
        } else {
            assert(c1.types@[i] == c0.types@[i]);
            assert(c1.types@[j] == td);
        }
    }
    assert forall|i: int| 0 <= i < c1.vals@.len() implies c1.vd_wf(c1.vals@[i], i) by {
        assert(c0.vd_wf(c0.vals@[i], i));
    }
    assert forall|i: int| 0 <= i < c1.blocks@.len() implies c1.blk_wf_at(i) by {
        assert(c0.blk_wf_at(i));
    }
    assert forall|i: int| 0 <= i < c1.modules@.len() implies c1.mod_wf_at(i) by {
        assert(c0.mod_wf_at(i));
    }
}

/// Pushing a consistent value onto the value arena keeps the context well
/// formed.
proof fn lemma_push_val_wf(c0: Context, c1: Context)
    requires
        c0.wf(),
        c1.types@ == c0.types@,
        c1.blocks@ == c0.blocks@,
        c1.modules@ == c0.modules@,
        c1.vals@.len() == c0.vals@.len() + 1,
        forall|j: int| 0 <= j < c0.vals@.len() ==> c1.vals@[j] == c0.vals@[j],
        c0.vd_wf(c1.vals@[c0.vals@.len() as int], c0.vals@.len() as int),
    ensures
        c1.wf(),
{
    let n = c0.vals@.len() as int;
    assert forall|i: int| 0 <= i < c1.types@.len() implies c1.ty_wf_at(i) by {
        assert(c0.ty_wf_at(i));
    }
    assert forall|i: int| 0 <= i < c1.vals@.len() implies c1.vd_wf(c1.vals@[i], i) by {
        if i < n {
            assert(c0.vd_wf(c0.vals@[i], i));
        } else {
            assert(c0.vd_wf(c1.vals@[n], n));
        }
    }
    assert forall|i: int| 0 <= i < c1.blocks@.len() implies c1.blk_wf_at(i) by {
        assert(c0.blk_wf_at(i));
    }
    assert forall|i: int| 0 <= i < c1.modules@.len() implies c1.mod_wf_at(i) by {
        assert(c0.mod_wf_at(i));
        assert forall|k: int|
            0 <= k < c0.modules@[i].fns@.len() implies c1.v_name(
            #[trigger] c0.modules@[i].fns@[k] as int,
        ) == c0.v_name(c0.modules@[i].fns@[k] as int) by {}
        assert forall|k: int|
            0 <= k < c0.modules@[i].globals@.len() implies c1.v_name(
            #[trigger] c0.modules@[i].globals@[k] as int,
        ) == c0.v_name(c0.modules@[i].globals@[k] as int) by {}
    }
}

/// Pushing a module with empty declaration lists keeps the context well
/// formed.
proof fn lemma_push_module_wf(c0: Context, c1: Context)
    requires
        c0.wf(),
        c1.types@ == c0.types@,
        c1.vals@ == c0.vals@,
        c1.blocks@ == c0.blocks@,
        c1.modules@.len() == c0.modules@.len() + 1,
        forall|j: int| 0 <= j < c0.modules@.len() ==> c1.modules@[j] == c0.modules@[j],
        c1.modules@[c0.modules@.len() as int].fns@.len() == 0,
        c1.modules@[c0.modules@.len() as int].globals@.len() == 0,
    ensures
        c1.wf(),
{
    let n = c0.modules@.len() as int;
    assert forall|i: int| 0 <= i < c1.types@.len() implies c1.ty_wf_at(i) by {
        assert(c0.ty_wf_at(i));
    }
    assert forall|i: int| 0 <= i < c1.vals@.len() implies c1.vd_wf(c1.vals@[i], i) by {
        assert(c0.vd_wf(c0.vals@[i], i));
    }
    assert forall|i: int| 0 <= i < c1.blocks@.len() implies c1.blk_wf_at(i) by {
        assert(c0.blk_wf_at(i));
    }
    assert forall|i: int| 0 <= i < c1.modules@.len() implies c1.mod_wf_at(i) by {
        if i < n {
            assert(c1.modules@[i] == c0.modules@[i]);
            assert(c0.mod_wf_at(i));
        }
    }
}

/// Whether two stored types are structurally equivalent.
fn td_eq(a: &TypeData, b: &TypeData) -> (r: bool)
    ensures
        r == td_eqv(*a, *b),
{
    match (a, b) {
        (TypeData::Void, TypeData::Void) => true,
        (TypeData::Int { bits: b1 }, TypeData::Int { bits: b2 }) => *b1 == *b2,
        (TypeData::Half, TypeData::Half) => true,
        (TypeData::Float, TypeData::Float) => true,
        (TypeData::Double, TypeData::Double) => true,
        (TypeData::Fp128, TypeData::Fp128) => true,
        (TypeData::Ptr { elem: e1 }, TypeData::Ptr { elem: e2 }) => *e1 == *e2,
        (
            TypeData::Array { elem: e1, count: c1 },
            TypeData::Array { elem: e2, count: c2 },
        ) => *e1 == *e2 && *c1 == *c2,
        (
            TypeData::Struct { fields: f1, packed: p1 },
            TypeData::Struct { fields: f2, packed: p2 },
        ) => *p1 == *p2 && usize_vec_eq(f1, f2),
        (
            TypeData::FnTy { ret: r1, params: q1, va: v1 },
            TypeData::FnTy { ret: r2, params: q2, va: v2 },
        ) => *r1 == *r2 && *v1 == *v2 && usize_vec_eq(q1, q2),
        _ => false,
    }
}

/// Whether two index vectors hold the same indices in the same order.
fn usize_vec_eq(a: &Vec<usize>, b: &Vec<usize>) -> (r: bool)
    ensures
        r == (a@ == b@),
{
    if a.len() != b.len() {
        return false;
    }
    let n = a.len();
    let mut i: usize = 0;
    while i < n
        invariant
            i <= n,
            n == a@.len(),
            a@.len() == b@.len(),
            forall|j: int| 0 <= j < i ==> a@[j] == b@[j],
        decreases n - i,
    {
        if a[i] != b[i] {
            return false;
        }
        i += 1;
    }
    proof {
        assert(a@ =~= b@);
    }
    true
}

/// The position of the first occurrence of `x` in `list`, if any.
pub(crate) fn find_idx(list: &Vec<usize>, x: usize) -> (r: Option<usize>)
    ensures
        match r {
            Some(p) => p < list@.len() && list@[p as int] == x && (forall|k: int|
                0 <= k < p ==> #[trigger] list@[k] != x),
            None => forall|k: int| 0 <= k < list@.len() ==> #[trigger] list@[k] != x,
        },
{
    let n = list.len();
    let mut i: usize = 0;
    while i < n
        invariant
            i <= n,
            n == list@.len(),
            forall|k: int| 0 <= k < i ==> #[trigger] list@[k] != x,
        decreases n - i,
    {
        if list[i] == x {
            return Some(i);
        }
        i += 1;
    }
    None
}

/// A constant anonymous struct over the given element values: its type is
/// the anonymous struct of the elements' types, in order.
pub fn const_struct(ctx: &mut Context, elements: Vec<Value>, packed: bool) -> (v: Value)
    requires
        old(ctx).wf(),
        !old(ctx).disposed,
        forall|k: int| 0 <= k < elements@.len() ==> old(ctx).val_ok(#[trigger] elements@[k]),
        forall|k: int|
            0 <= k < elements@.len() ==> old(ctx).sized_at(
                old(ctx).val_at((#[trigger] elements@[k]).idx as int).ty as int,
            ),
    ensures
        final(ctx).wf(),
        !final(ctx).disposed,
        final(ctx).id == old(ctx).id,
        final(ctx).blocks@ == old(ctx).blocks@,
        final(ctx).modules@ == old(ctx).modules@,
        old(ctx).types@.len() <= final(ctx).types@.len(),
        (forall|j: int|
            0 <= j < old(ctx).types@.len() ==> final(ctx).types@[j] == old(ctx).types@[j]),
        final(ctx).vals@.len() == old(ctx).vals@.len() + 1,
        (forall|j: int| 0 <= j < old(ctx).vals@.len() ==> final(ctx).vals@[j] == old(ctx).vals@[j]),
        v == (Value { owner: old(ctx).id, idx: old(ctx).vals@.len() as usize }),
        final(ctx).val_at(v.idx as int).name is None,
        (final(ctx).ty_at(final(ctx).val_at(v.idx as int).ty as int) matches TypeData::Struct {
            fields,
            packed: p,
        } && fields@.len() == elements@.len() && (forall|j: int|
            0 <= j < elements@.len() ==> #[trigger] fields@[j] == old(ctx).val_at(
                elements@[j].idx as int,
            ).ty) && p == packed),
        (final(ctx).val_at(v.idx as int).kind matches ValKind::ConstStruct { elems }
            && elems@.len() == elements@.len() && (forall|j: int|
            0 <= j < elements@.len() ==> #[trigger] elems@[j] == elements@[j].idx)),
{
    let n = elements.len();
    let mut fields: Vec<usize> = Vec::new();
    let mut i: usize = 0;
    while i < n
        invariant
            i <= n,
            n == elements@.len(),
            ctx.wf(),
            !ctx.disposed,
            *ctx == *old(ctx),
            forall|k: int| 0 <= k < n ==> ctx.val_ok(#[trigger] elements@[k]),
            fields@.len() == i,
            forall|j: int|
                0 <= j < i ==> #[trigger] fields@[j] == ctx.val_at(elements@[j].idx as int).ty,
        decreases n - i,
    {
        let e = elements[i];
        proof {
            assert(ctx.vd_wf(ctx.vals@[e.idx as int], e.idx as int));
        }
        fields.push(ctx.vals[e.idx].ty);
        i += 1;
    }
    proof {
        assert forall|k: int|
            0 <= k < fields@.len() implies #[trigger] fields@[k] < ctx.types@.len()
            && ctx.sized_at(fields@[k] as int) by {
            assert(ctx.vd_wf(ctx.vals@[elements@[k].idx as int], elements@[k].idx as int));
        }
    }
    let sty = ctx.intern(TypeData::Struct { fields, packed });
    let ghost mid = *ctx;
    let idxs = crate::ty::val_idx_vec(&elements);
    let v = ctx.push_val(
        ValData { name: None, ty: sty.idx, kind: ValKind::ConstStruct { elems: idxs } },
    );
    proof {
        assert forall|j: int| 0 <= j < old(ctx).types@.len() implies ctx.types@[j] == old(
            ctx,
        ).types@[j] by {
            assert(mid.types@[j] == old(ctx).types@[j]);
        }
    }
    v
}

/// A constant string holding the given characters, of the array type over
/// 8-bit integers; a terminating NUL is counted in when asked for.
pub fn const_string(ctx: &mut Context, text: &str, null_terminated: bool) -> (v: Value)
    requires
        old(ctx).wf(),
        !old(ctx).disposed,
        text@.len() < 0xffff_ffffu32,
    ensures
        final(ctx).wf(),
        !final(ctx).disposed,
        final(ctx).id == old(ctx).id,
        final(ctx).blocks@ == old(ctx).blocks@,
        final(ctx).modules@ == old(ctx).modules@,
        old(ctx).types@.len() <= final(ctx).types@.len(),
        (forall|j: int|
            0 <= j < old(ctx).types@.len() ==> final(ctx).types@[j] == old(ctx).types@[j]),
        final(ctx).vals@.len() == old(ctx).vals@.len() + 1,
        (forall|j: int| 0 <= j < old(ctx).vals@.len() ==> final(ctx).vals@[j] == old(ctx).vals@[j]),
        v == (Value { owner: old(ctx).id, idx: old(ctx).vals@.len() as usize }),
        final(ctx).val_at(v.idx as int).name is None,
        final(ctx).ty_at(final(ctx).val_at(v.idx as int).ty as int) == (TypeData::Array {
            elem: 2usize,
            count: (text@.len() + (if null_terminated {
                1int
            } else {
                0int
            })) as u32,
        }),
        (final(ctx).val_at(v.idx as int).kind matches ValKind::ConstString { text: t, nul } && t@
            == text@ && nul == null_terminated),
{
    let n = text.unicode_len();
    let count: u32 = if null_terminated {
        (n + 1) as u32
    } else {
        n as u32
    };
    let aty = ctx.intern(TypeData::Array { elem: 2, count });
    let ghost mid = *ctx;
    proof {
        assert(ctx.ty_at(aty.idx as int) == (TypeData::Array { elem: 2usize, count }));
    }
    let v = ctx.push_val(
        ValData {
            name: None,
            ty: aty.idx,
            kind: ValKind::ConstString { text: text.to_owned(), nul: null_terminated },
        },
    );
    proof {
        assert forall|j: int| 0 <= j < old(ctx).types@.len() implies ctx.types@[j] == old(
            ctx,
        ).types@[j] by {
            assert(mid.types@[j] == old(ctx).types@[j]);
        }
    }
    v
}

/// Whether a supplied identifier is free of embedded NUL characters.
pub fn name_ok(s: &str) -> (r: bool)
    ensures
        r == valid_name(s@),
{
    let n = s.unicode_len();
    let mut i: usize = 0;
    while i < n
        invariant
            i <= n,
            n == s@.len(),
            forall|j: int| 0 <= j < i ==> s@[j] != '\0',
        decreases n - i,
    {
        if s.get_char(i) == '\0' {
            return false;
        }
        i += 1;
    }
    true
}

} // verus!
