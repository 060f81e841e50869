//! Deterministic textual rendering of modules.

use vstd::prelude::*;

use crate::context::{Context, Op, ValKind};
use crate::err::IrError;
use crate::module::Module;

verus! {

/// The decimal digits of `n`, most significant first.
pub open spec fn dec_digits(n: nat) -> Seq<char>
    decreases n,
{
    let d = digit_char((n % 10) as nat);
    if n < 10 {
        seq![d]
    } else {
        dec_digits(n / 10).push(d)
    }
}

/// The character for one decimal digit.
pub open spec fn digit_char(d: nat) -> char {
    if d == 0 {
        '0'
    } else if d == 1 {
        '1'
    } else if d == 2 {
        '2'
    } else if d == 3 {
        '3'
    } else if d == 4 {
        '4'
    } else if d == 5 {
        '5'
    } else if d == 6 {
        '6'
    } else if d == 7 {
        '7'
    } else if d == 8 {
        '8'
    } else {
        '9'
    }
}

/// Decimal digits contain no NUL character.
pub proof fn lemma_dec_digits_valid(n: nat)
    ensures
        forall|i: int| 0 <= i < dec_digits(n).len() ==> dec_digits(n)[i] != '\0',
    decreases n,
{
    if n < 10 {
        assert(dec_digits(n) == seq![digit_char((n % 10) as nat)]);
    } else {
        lemma_dec_digits_valid(n / 10);
        assert forall|i: int| 0 <= i < dec_digits(n).len() implies dec_digits(n)[i] != '\0' by {
            if i < dec_digits(n / 10).len() {
                assert(dec_digits(n)[i] == dec_digits(n / 10)[i]);
            } else {
                assert(dec_digits(n)[i] == digit_char((n % 10) as nat));
            }
        }
    }
}

/// Appends the decimal digits of `n` to `out`.
pub fn push_dec(out: &mut String, n: u64)
    ensures
        final(out)@ == old(out)@ + dec_digits(n as nat),
    decreases n,
{
    if n < 10 {
        push_digit(out, n);
    } else {
        push_dec(out, n / 10);
        push_digit(out, n % 10);
        proof {
            assert(out@ =~= old(out)@ + dec_digits(n as nat));
        }
    }
}

/// Appends one decimal digit to `out`.
fn push_digit(out: &mut String, d: u64)
    requires
        d < 10,
    ensures
        final(out)@ == old(out)@ + seq![digit_char(d as nat)],
{
    if d == 0 {
        out.append("0");
        proof {
            reveal_strlit("0");
            assert(out@ =~= old(out)@ + seq![digit_char(d as nat)]);
        }
    } else if d == 1 {
        out.append("1");
        proof {
            reveal_strlit("1");
            assert(out@ =~= old(out)@ + seq![digit_char(d as nat)]);
        }
    } else if d == 2 {
        out.append("2");
        proof {
            reveal_strlit("2");
            assert(out@ =~= old(out)@ + seq![digit_char(d as nat)]);
        }
    } else if d == 3 {
        out.append("3");
        proof {
            reveal_strlit("3");
            assert(out@ =~= old(out)@ + seq![digit_char(d as nat)]);
        }
    } else if d == 4 {
        out.append("4");
        proof {
            reveal_strlit("4");
            assert(out@ =~= old(out)@ + seq![digit_char(d as nat)]);
        }
    } else if d == 5 {
        out.append("5");
        proof {
            reveal_strlit("5");
            assert(out@ =~= old(out)@ + seq![digit_char(d as nat)]);
        }
    } else if d == 6 {
        out.append("6");
        proof {
            reveal_strlit("6");
            assert(out@ =~= old(out)@ + seq![digit_char(d as nat)]);
        }
    } else if d == 7 {
        out.append("7");
        proof {
            reveal_strlit("7");
            assert(out@ =~= old(out)@ + seq![digit_char(d as nat)]);
        }
    } else if d == 8 {
        out.append("8");
        proof {
            reveal_strlit("8");
            assert(out@ =~= old(out)@ + seq![digit_char(d as nat)]);
        }
    } else {
        out.append("9");
        proof {
            reveal_strlit("9");
            assert(out@ =~= old(out)@ + seq![digit_char(d as nat)]);
        }
    }
}


/// The mnemonic of each operation.
pub open spec fn op_name(op: Op) -> Seq<char> {
    match op {
        Op::Alloca => seq!['a', 'l', 'l', 'o', 'c', 'a'],
        Op::Malloc => seq!['m', 'a', 'l', 'l', 'o', 'c'],
        Op::ArrayAlloca => seq!['a', 'r', 'r', 'a', 'y', '.', 'a', 'l', 'l', 'o', 'c', 'a'],
        Op::ArrayMalloc => seq!['a', 'r', 'r', 'a', 'y', '.', 'm', 'a', 'l', 'l', 'o', 'c'],
        Op::Free => seq!['f', 'r', 'e', 'e'],
        Op::Call => seq!['c', 'a', 'l', 'l'],
        Op::InsertValue { .. } => seq!['i', 'n', 's', 'e', 'r', 't', 'v', 'a', 'l', 'u', 'e'],
        Op::ExtractValue { .. } => seq!['e', 'x', 't', 'r', 'a', 'c', 't', 'v', 'a', 'l', 'u', 'e'],
        Op::Gep => seq!['g', 'e', 'p'],
        Op::InboundsGep => seq!['g', 'e', 'p', '.', 'i', 'n', 'b', 'o', 'u', 'n', 'd', 's'],
        Op::Store => seq!['s', 't', 'o', 'r', 'e'],
        Op::Load => seq!['l', 'o', 'a', 'd'],
        Op::IntToPtr => seq!['i', 'n', 't', 't', 'o', 'p', 't', 'r'],
        Op::PtrToInt => seq!['p', 't', 'r', 't', 'o', 'i', 'n', 't'],
        Op::PointerCast => seq!['p', 't', 'r', 'c', 'a', 's', 't'],
        Op::IntCast => seq!['i', 'n', 't', 'c', 'a', 's', 't'],
        Op::BitCast => seq!['b', 'i', 't', 'c', 'a', 's', 't'],
        Op::FloatCast => seq!['f', 'p', 'c', 'a', 's', 't'],
        Op::RetVoid => seq!['r', 'e', 't', '.', 'v', 'o', 'i', 'd'],
        Op::Ret => seq!['r', 'e', 't'],
        Op::Unreachable => seq!['u', 'n', 'r', 'e', 'a', 'c', 'h', 'a', 'b', 'l', 'e'],
        Op::Br { .. } => seq!['b', 'r'],
        Op::CondBr { .. } => seq!['c', 'o', 'n', 'd', 'b', 'r'],
        Op::Switch { .. } => seq!['s', 'w', 'i', 't', 'c', 'h'],
        Op::Phi { .. } => seq!['p', 'h', 'i'],
        Op::IsNull => seq!['i', 's', 'n', 'u', 'l', 'l'],
        Op::IsNotNull => seq!['i', 's', 'n', 'o', 't', 'n', 'u', 'l', 'l'],
        Op::IntAdd => seq!['a', 'd', 'd'],
        Op::IntSub => seq!['s', 'u', 'b'],
        Op::IntMul => seq!['m', 'u', 'l'],
        Op::IntUDiv => seq!['u', 'd', 'i', 'v'],
        Op::IntSDiv => seq!['s', 'd', 'i', 'v'],
        Op::IntURem => seq!['u', 'r', 'e', 'm'],
        Op::IntSRem => seq!['s', 'r', 'e', 'm'],
        Op::ICmp { .. } => seq!['i', 'c', 'm', 'p'],
        Op::FAdd => seq!['f', 'a', 'd', 'd'],
        Op::FSub => seq!['f', 's', 'u', 'b'],
        Op::FMul => seq!['f', 'm', 'u', 'l'],
        Op::FDiv => seq!['f', 'd', 'i', 'v'],
        Op::FRem => seq!['f', 'r', 'e', 'm'],
        Op::FCmp { .. } => seq!['f', 'c', 'm', 'p'],
    }
}

/// Appends the mnemonic of `op` to `out`.
pub fn push_op_name(out: &mut String, op: &Op)
    ensures
        final(out)@ == old(out)@ + op_name(*op),
{
    match op {
        Op::Alloca => {
            out.append("alloca");
            proof {
                reveal_strlit("alloca");
                assert(out@ =~= old(out)@ + op_name(*op));
            }
        },
        Op::Malloc => {
            out.append("malloc");
            proof {
                reveal_strlit("malloc");
                assert(out@ =~= old(out)@ + op_name(*op));
            }
        },
        Op::ArrayAlloca => {
            out.append("array.alloca");
            proof {
                reveal_strlit("array.alloca");
                assert(out@ =~= old(out)@ + op_name(*op));
            }
        },
        Op::ArrayMalloc => {
            out.append("array.malloc");
            proof {
                reveal_strlit("array.malloc");
                assert(out@ =~= old(out)@ + op_name(*op));
            }
        },
        Op::Free => {
            out.append("free");
            proof {
                reveal_strlit("free");
                assert(out@ =~= old(out)@ + op_name(*op));
            }
        },
        Op::Call => {
            out.append("call");
            proof {
                reveal_strlit("call");
                assert(out@ =~= old(out)@ + op_name(*op));
            }
        },
        Op::InsertValue { .. } => {
            out.append("insertvalue");
            proof {
                reveal_strlit("insertvalue");
                assert(out@ =~= old(out)@ + op_name(*op));
            }
        },
        Op::ExtractValue { .. } => {
            out.append("extractvalue");
            proof {
                reveal_strlit("extractvalue");
                assert(out@ =~= old(out)@ + op_name(*op));
            }
        },
        Op::Gep => {
            out.append("gep");
            proof {
                reveal_strlit("gep");
                assert(out@ =~= old(out)@ + op_name(*op));
            }
        },
        Op::InboundsGep => {
            out.append("gep.inbounds");
            proof {
                reveal_strlit("gep.inbounds");
                assert(out@ =~= old(out)@ + op_name(*op));
            }
        },
        Op::Store => {
            out.append("store");
            proof {
                reveal_strlit("store");
                assert(out@ =~= old(out)@ + op_name(*op));
            }
        },
        Op::Load => {
            out.append("load");
            proof {
                reveal_strlit("load");
                assert(out@ =~= old(out)@ + op_name(*op));
            }
        },
        Op::IntToPtr => {
            out.append("inttoptr");
            proof {
                reveal_strlit("inttoptr");
                assert(out@ =~= old(out)@ + op_name(*op));
            }
        },
        Op::PtrToInt => {
            out.append("ptrtoint");
            proof {
                reveal_strlit("ptrtoint");
                assert(out@ =~= old(out)@ + op_name(*op));
            }
        },
        Op::PointerCast => {
            out.append("ptrcast");
            proof {
                reveal_strlit("ptrcast");
                assert(out@ =~= old(out)@ + op_name(*op));
            }
        },
        Op::IntCast => {
            out.append("intcast");
            proof {
                reveal_strlit("intcast");
                assert(out@ =~= old(out)@ + op_name(*op));
            }
        },
        Op::BitCast => {
            out.append("bitcast");
            proof {
                reveal_strlit("bitcast");
                assert(out@ =~= old(out)@ + op_name(*op));
            }
        },
        Op::FloatCast => {
            out.append("fpcast");
            proof {
                reveal_strlit("fpcast");
                assert(out@ =~= old(out)@ + op_name(*op));
            }
        },
        Op::RetVoid => {
            out.append("ret.void");
            proof {
                reveal_strlit("ret.void");
                assert(out@ =~= old(out)@ + op_name(*op));
            }
        },
        Op::Ret => {
            out.append("ret");
            proof {
                reveal_strlit("ret");
                assert(out@ =~= old(out)@ + op_name(*op));
            }
        },
        Op::Unreachable => {
            out.append("unreachable");
            proof {
                reveal_strlit("unreachable");
                assert(out@ =~= old(out)@ + op_name(*op));
            }
        },
        Op::Br { .. } => {
            out.append("br");
            proof {
                reveal_strlit("br");
                assert(out@ =~= old(out)@ + op_name(*op));
            }
        },
        Op::CondBr { .. } => {
            out.append("condbr");
            proof {
                reveal_strlit("condbr");
                assert(out@ =~= old(out)@ + op_name(*op));
            }
        },
        Op::Switch { .. } => {
            out.append("switch");
            proof {
                reveal_strlit("switch");
                assert(out@ =~= old(out)@ + op_name(*op));
            }
        },
        Op::Phi { .. } => {
            out.append("phi");
            proof {
                reveal_strlit("phi");
                assert(out@ =~= old(out)@ + op_name(*op));
            }
        },
        Op::IsNull => {
            out.append("isnull");
            proof {
                reveal_strlit("isnull");
                assert(out@ =~= old(out)@ + op_name(*op));
            }
        },
        Op::IsNotNull => {
            out.append("isnotnull");
            proof {
                reveal_strlit("isnotnull");
                assert(out@ =~= old(out)@ + op_name(*op));
            }
        },
        Op::IntAdd => {
            out.append("add");
            proof {
                reveal_strlit("add");
                assert(out@ =~= old(out)@ + op_name(*op));
            }
        },
        Op::IntSub => {
            out.append("sub");
            proof {
                reveal_strlit("sub");
                assert(out@ =~= old(out)@ + op_name(*op));
            }
        },
        Op::IntMul => {
            out.append("mul");
            proof {
                reveal_strlit("mul");
                assert(out@ =~= old(out)@ + op_name(*op));
            }
        },
        Op::IntUDiv => {
            out.append("udiv");
            proof {
                reveal_strlit("udiv");
                assert(out@ =~= old(out)@ + op_name(*op));
            }
        },
        Op::IntSDiv => {
            out.append("sdiv");
            proof {
                reveal_strlit("sdiv");
                assert(out@ =~= old(out)@ + op_name(*op));
            }
        },
        Op::IntURem => {
            out.append("urem");
            proof {
                reveal_strlit("urem");
                assert(out@ =~= old(out)@ + op_name(*op));
            }
        },
        Op::IntSRem => {
            out.append("srem");
            proof {
                reveal_strlit("srem");
                assert(out@ =~= old(out)@ + op_name(*op));
            }
        },
        Op::ICmp { .. } => {
            out.append("icmp");
            proof {
                reveal_strlit("icmp");
                assert(out@ =~= old(out)@ + op_name(*op));
            }
        },
        Op::FAdd => {
            out.append("fadd");
            proof {
                reveal_strlit("fadd");
                assert(out@ =~= old(out)@ + op_name(*op));
            }
        },
        Op::FSub => {
            out.append("fsub");
            proof {
                reveal_strlit("fsub");
                assert(out@ =~= old(out)@ + op_name(*op));
            }
        },
        Op::FMul => {
            out.append("fmul");
            proof {
                reveal_strlit("fmul");
                assert(out@ =~= old(out)@ + op_name(*op));
            }
        },
        Op::FDiv => {
            out.append("fdiv");
            proof {
                reveal_strlit("fdiv");
                assert(out@ =~= old(out)@ + op_name(*op));
            }
        },
        Op::FRem => {
            out.append("frem");
            proof {
                reveal_strlit("frem");
                assert(out@ =~= old(out)@ + op_name(*op));
            }
        },
        Op::FCmp { .. } => {
            out.append("fcmp");
            proof {
                reveal_strlit("fcmp");
                assert(out@ =~= old(out)@ + op_name(*op));
            }
        },
    }
}

/// The rendered line of the instruction value at `vi`: two spaces, its
/// mnemonic and a newline.
pub open spec fn instr_line(c: Context, vi: int) -> Seq<char> {
    if 0 <= vi < c.vals@.len() {
        match c.vals@[vi].kind {
            ValKind::Instr { op, .. } => seq![' ', ' '] + op_name(op) + seq!['\n'],
            _ => Seq::empty(),
        }
    } else {
        Seq::empty()
    }
}

/// The rendered text of the first `i` instructions of the list.
pub open spec fn instrs_prefix(c: Context, l: Seq<usize>, i: int) -> Seq<char>
    decreases i,
{
    if i <= 0 {
        Seq::empty()
    } else {
        instrs_prefix(c, l, i - 1) + instr_line(c, l[i - 1] as int)
    }
}

/// The rendered text of the block at `bi`: its name, a colon, and its
/// instructions in program order.
pub open spec fn block_text(c: Context, bi: int) -> Seq<char> {
    if 0 <= bi < c.blocks@.len() {
        c.blocks@[bi].name@ + seq![':', '\n'] + instrs_prefix(
            c,
            c.blocks@[bi].instrs@,
            c.blocks@[bi].instrs@.len() as int,
        )
    } else {
        Seq::empty()
    }
}

/// The rendered text of the first `i` blocks of the list.
pub open spec fn blocks_prefix(c: Context, l: Seq<usize>, i: int) -> Seq<char>
    decreases i,
{
    if i <= 0 {
        Seq::empty()
    } else {
        blocks_prefix(c, l, i - 1) + block_text(c, l[i - 1] as int)
    }
}

/// The rendered text of the function value at `vi`: `define` when it has
/// blocks, `declare` otherwise, its name, and its blocks in order.
pub open spec fn func_text(c: Context, vi: int) -> Seq<char> {
    if 0 <= vi < c.vals@.len() {
        match c.vals@[vi].kind {
            ValKind::Func { blocks, .. } => (if blocks@.len() == 0 {
                seq!['d', 'e', 'c', 'l', 'a', 'r', 'e', ' ', '@']
            } else {
                seq!['d', 'e', 'f', 'i', 'n', 'e', ' ', '@']
            }) + c.v_name(vi) + seq!['\n'] + blocks_prefix(c, blocks@, blocks@.len() as int),
            _ => Seq::empty(),
        }
    } else {
        Seq::empty()
    }
}

/// The rendered text of the first `i` functions of the list.
pub open spec fn fns_prefix(c: Context, l: Seq<usize>, i: int) -> Seq<char>
    decreases i,
{
    if i <= 0 {
        Seq::empty()
    } else {
        fns_prefix(c, l, i - 1) + func_text(c, l[i - 1] as int)
    }
}

/// The rendered line of the global value at `vi`.
pub open spec fn global_line(c: Context, vi: int) -> Seq<char> {
    seq!['g', 'l', 'o', 'b', 'a', 'l', ' ', '@'] + c.v_name(vi) + seq!['\n']
}

/// The rendered text of the first `i` globals of the list.
pub open spec fn globals_prefix(c: Context, l: Seq<usize>, i: int) -> Seq<char>
    decreases i,
{
    if i <= 0 {
        Seq::empty()
    } else {
        globals_prefix(c, l, i - 1) + global_line(c, l[i - 1] as int)
    }
}

/// The rendered header of the module at `mi`: its name and, once set, its
/// target triple.
pub open spec fn module_header(c: Context, mi: int) -> Seq<char> {
    seq!['m', 'o', 'd', 'u', 'l', 'e', ' '] + c.modules@[mi].name@ + seq!['\n'] + (
    match c.modules@[mi].triple {
        Some(t) => seq!['t', 'r', 'i', 'p', 'l', 'e', ' '] + t@ + seq!['\n'],
        None => Seq::empty(),
    })
}

/// The rendered text of the module at `mi`: header, globals, functions.
/// A pure function of the module's structure, so rendering a
/// structurally identical module twice gives the identical text.
pub open spec fn module_text(c: Context, mi: int) -> Seq<char> {
    if 0 <= mi < c.modules@.len() {
        module_header(c, mi) + globals_prefix(
            c,
            c.modules@[mi].globals@,
            c.modules@[mi].globals@.len() as int,
        ) + fns_prefix(c, c.modules@[mi].fns@, c.modules@[mi].fns@.len() as int)
    } else {
        Seq::empty()
    }
}

impl Module {
    /// Renders this module as deterministic text: the same module
    /// structure always yields the same string.
    pub fn to_text(&self, ctx: &Context) -> (r: Result<String, IrError>)
        requires
            ctx.wf(),
            !ctx.disposed,
        ensures
            match r {
                Ok(s) => ctx.mod_ok(*self) && s@ == module_text(*ctx, self.idx as int),
                Err(e) => !ctx.mod_ok(*self) && e == IrError::CrossContext,
            },
    {
        if self.owner != ctx.id || self.idx >= ctx.modules.len() {
            return Err(IrError::CrossContext);
        }
        let mut out = String::new();
        out.append("module ");
        out.append(ctx.modules[self.idx].name.as_str());
        out.append("\n");
        match &ctx.modules[self.idx].triple {
            Some(t) => {
                out.append("triple ");
                out.append(t.as_str());
                out.append("\n");
                proof {
                    reveal_strlit("module ");
                    reveal_strlit("triple ");
                    reveal_strlit("\n");
                    assert(out@ =~= module_header(*ctx, self.idx as int));
                }
            },
            None => {
                proof {
                    reveal_strlit("module ");
                    reveal_strlit("\n");
                    assert(out@ =~= module_header(*ctx, self.idx as int));
                }
            },
        }
        let gl = &ctx.modules[self.idx].globals;
        let ng = gl.len();
        let mut i: usize = 0;
        while i < ng
            invariant
                i <= ng,
                ctx.wf(),
                ctx.mod_ok(*self),
                gl@ == ctx.modules@[self.idx as int].globals@,
                ng == gl@.len(),
                out@ == module_header(*ctx, self.idx as int) + globals_prefix(
                    *ctx,
                    gl@,
                    i as int,
                ),
            decreases ng - i,
        {
            let gi = gl[i];
            proof {
                assert(ctx.mod_wf_at(self.idx as int));
            }
            out.append("global @");
            match &ctx.vals[gi].name {
                Some(s) => out.append(s.as_str()),
                None => {},
            }
            out.append("\n");
            proof {
                reveal_strlit("global @");
                reveal_strlit("\n");
                assert(out@ =~= module_header(*ctx, self.idx as int) + globals_prefix(
                    *ctx,
                    gl@,
                    i + 1,
                ));
            }
            i += 1;
        }
        let ghost hdrg = module_header(*ctx, self.idx as int) + globals_prefix(
            *ctx,
            gl@,
            ng as int,
        );
        let fl = &ctx.modules[self.idx].fns;
        let nf = fl.len();
        let mut fi: usize = 0;
        while fi < nf
            invariant
                fi <= nf,
                ctx.wf(),
                ctx.mod_ok(*self),
                fl@ == ctx.modules@[self.idx as int].fns@,
                nf == fl@.len(),
                hdrg == module_header(*ctx, self.idx as int) + globals_prefix(
                    *ctx,
                    ctx.modules@[self.idx as int].globals@,
                    ctx.modules@[self.idx as int].globals@.len() as int,
                ),
                out@ == hdrg + fns_prefix(*ctx, fl@, fi as int),
            decreases nf - fi,
        {
            let fv = fl[fi];
            proof {
                assert(ctx.mod_wf_at(self.idx as int));
                assert(ctx.vd_wf(ctx.vals@[fv as int], fv as int));
            }
            let ghost fbase = out@;
            match &ctx.vals[fv].kind {
                ValKind::Func { blocks, .. } => {
                    if blocks.len() == 0 {
                        out.append("declare @");
                        proof {
                            reveal_strlit("declare @");
                        }
                    } else {
                        out.append("define @");
                        proof {
                            reveal_strlit("define @");
                        }
                    }
                    match &ctx.vals[fv].name {
                        Some(s) => out.append(s.as_str()),
                        None => {},
                    }
                    out.append("\n");
                    proof {
                        reveal_strlit("\n");
                    }
                    let ghost intro = out@;
                    let nb = blocks.len();
                    let mut bj: usize = 0;
                    while bj < nb
                        invariant
                            bj <= nb,
                            ctx.wf(),
                            fv < ctx.vals@.len(),
                            ctx.vals@[fv as int].kind matches ValKind::Func { blocks: bl, .. }
                                && bl@ == blocks@,
                            nb == blocks@.len(),
                            forall|q: int|
                                0 <= q < nb ==> #[trigger] blocks@[q] < ctx.blocks@.len(),
                            out@ == intro + blocks_prefix(*ctx, blocks@, bj as int),
                        decreases nb - bj,
                    {
                        let bi = blocks[bj];
                        out.append(ctx.blocks[bi].name.as_str());
                        out.append(":\n");
                        proof {
                            reveal_strlit(":\n");
                        }
                        let ghost bbase = out@;
                        let il = &ctx.blocks[bi].instrs;
                        let ni = il.len();
                        let mut ik: usize = 0;
                        while ik < ni
                            invariant
                                ik <= ni,
                                ctx.wf(),
                                bi < ctx.blocks@.len(),
                                il@ == ctx.blocks@[bi as int].instrs@,
                                ni == il@.len(),
                                out@ == bbase + instrs_prefix(*ctx, il@, ik as int),
                            decreases ni - ik,
                        {
                            let iv = il[ik];
                            proof {
                                assert(ctx.blk_wf_at(bi as int));
                            }
                            out.append("  ");
                            match &ctx.vals[iv].kind {
                                ValKind::Instr { op, .. } => {
                                    push_op_name(&mut out, op);
                                },
                                _ => {},
                            }
                            out.append("\n");
                            proof {
                                reveal_strlit("  ");
                                reveal_strlit("\n");
                                assert(out@ =~= bbase + instrs_prefix(*ctx, il@, ik + 1));
                            }
                            ik += 1;
                        }
                        proof {
                            assert(out@ =~= intro + blocks_prefix(*ctx, blocks@, bj + 1));
                        }
                        bj += 1;
                    }
                    proof {
                        assert(out@ =~= fbase + func_text(*ctx, fv as int));
                    }
                },
                _ => {},
            }
            proof {
                assert(out@ =~= hdrg + fns_prefix(*ctx, fl@, fi as int + 1));
            }
            fi += 1;
        }
        Ok(out)
    }
}

} // verus!
