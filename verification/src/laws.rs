//! Proved laws of the IR generator: every virtual register the lowering
//! produces is killed exactly once and only after its last use, pointer
//! arithmetic scales its non-pointer operand before combining, and the
//! short-circuit branch of a logical `&&` jumps past the right operand's
//! whole lowering.

use vstd::prelude::*;

use crate::common::{IRInfoType, IRType, IrModel, ND, Node, TY, node_size, nodes_size,
    spec_irinfo_ty, spec_size_of};
use crate::ir::{GenState, spec_gen_args, spec_gen_binop, spec_gen_expr, spec_gen_func,
    spec_gen_lval, spec_gen_stmt, spec_gen_stmts, spec_push_kills, spec_store_args};

verus! {

/// Whether an instruction reads or writes register `q`, as determined by its
/// opcode's operand shape (a kill marker is not a use).
pub open spec fn refs_reg(ir: IrModel, q: usize) -> bool {
    match spec_irinfo_ty(ir.op) {
        IRInfoType::REG | IRInfoType::REG_IMN | IRInfoType::REG_LABEL => ir.lhs == q,
        IRInfoType::REG_REG => ir.lhs == q || ir.rhs == q,
        IRInfoType::CALL => ir.lhs == q || ir.args.contains(q),
        _ => false,
    }
}

/// How many kill markers in `c` target register `q`.
pub open spec fn kill_count(c: Seq<IrModel>, q: usize) -> nat
    decreases c.len(),
{
    if c.len() == 0 {
        0
    } else {
        kill_count(c.drop_last(), q) + (if c.last().op == IRType::KILL && c.last().lhs == q {
            1nat
        } else {
            0nat
        })
    }
}

/// Counting kills distributes over appending one instruction.
proof fn lemma_kill_count_push(c: Seq<IrModel>, x: IrModel, q: usize)
    ensures
        kill_count(c.push(x), q) == kill_count(c, q) + (if x.op == IRType::KILL && x.lhs == q {
            1nat
        } else {
            0nat
        }),
{
    assert(c.push(x).drop_last() =~= c);
}

/// Counting kills is monotone over prefixes.
proof fn lemma_kill_count_mono(c: Seq<IrModel>, k1: int, k2: int, q: usize)
    requires
        0 <= k1 <= k2 <= c.len(),
    ensures
        kill_count(c.take(k1), q) <= kill_count(c.take(k2), q),
    decreases k2 - k1,
{
    if k1 < k2 {
        lemma_kill_count_mono(c, k1, k2 - 1, q);
        assert(c.take(k2).drop_last() =~= c.take(k2 - 1));
    }
}

/// A step that adds no kill of `q` contains no kill marker targeting `q`.
proof fn lemma_no_kill_in_segment(c1: Seq<IrModel>, c2: Seq<IrModel>, q: usize)
    requires
        c1.len() <= c2.len(),
        c2.take(c1.len() as int) == c1,
        kill_count(c2, q) == kill_count(c1, q),
    ensures
        forall|i: int|
            c1.len() <= i < c2.len() ==> !((#[trigger] c2[i]).op == IRType::KILL && c2[i].lhs
                == q),
{
    assert forall|i: int|
        c1.len() <= i < c2.len() implies !((#[trigger] c2[i]).op == IRType::KILL && c2[i].lhs
        == q) by {
        if c2[i].op == IRType::KILL && c2[i].lhs == q {
            assert(c2.take(i + 1).drop_last() =~= c2.take(i));
            assert(c2.take(i + 1).last() == c2[i]);
            assert(kill_count(c2.take(i + 1), q) == kill_count(c2.take(i), q) + 1);
            lemma_kill_count_mono(c2, c1.len() as int, i, q);
            lemma_kill_count_mono(c2, i + 1, c2.len() as int, q);
            assert(c2.take(c2.len() as int) =~= c2);
        }
    }
}

/// The kill ledger of one lowering step for register `q`: the step adds
/// exactly one kill for each freshly produced register that is not handed
/// back live, and none for any other register.
pub open spec fn kill_ok(st: GenState, st2: GenState, live: Seq<usize>, q: usize) -> bool {
    kill_count(st2.code, q) == kill_count(st.code, q) + (if st.regno <= q < st2.regno
        && !live.contains(q) {
        1nat
    } else {
        0nat
    })
}

/// The register-discipline facts of one lowering step from `st` to `st2`:
/// the earlier code is untouched, the counters only grow, every register the
/// new code mentions is the frame base or one of the freshly produced ones,
/// every freshly produced register except those handed back in `live` is
/// killed exactly once, no new instruction mentions a register after the
/// kill that freed it, and every label the new code defines is freshly
/// numbered.
pub open spec fn disciplined(st: GenState, st2: GenState, live: Seq<usize>) -> bool {
    &&& st.code.len() <= st2.code.len()
    &&& st2.code.take(st.code.len() as int) == st.code
    &&& 1 <= st.regno <= st2.regno
    &&& st.label <= st2.label
    &&& forall|q: usize| kill_ok(st, st2, live, q)
    &&& forall|q: usize, i: int, j: int|
        st.code.len() <= i < j < st2.code.len() && (#[trigger] st2.code[i]).op == IRType::KILL
            && st2.code[i].lhs == q ==> !(#[trigger] refs_reg(st2.code[j], q))
    &&& forall|q: usize, i: int|
        st.code.len() <= i < st2.code.len() && #[trigger] refs_reg(st2.code[i], q) ==> q == 0 || (
        st.regno <= q < st2.regno)
    &&& forall|i: int|
        st.code.len() <= i < st2.code.len() && (#[trigger] st2.code[i]).op == IRType::LABEL
            ==> st.label <= st2.code[i].lhs < st2.label
}

/// Pushing one instruction that mentions only the frame base or live fresh
/// registers, kills nothing, and defines no label preserves discipline.
proof fn lemma_disciplined_push(st: GenState, st2: GenState, live: Seq<usize>, x: IrModel)
    requires
        disciplined(st, st2, live),
        x.op != IRType::KILL,
        x.op != IRType::LABEL,
        forall|q: usize|
            refs_reg(x, q) ==> q == 0 || (st.regno <= q < st2.regno && live.contains(q)),
    ensures
        disciplined(
            st,
            GenState { code: st2.code.push(x), regno: st2.regno, label: st2.label },
            live,
        ),
{
    let st3 = GenState { code: st2.code.push(x), regno: st2.regno, label: st2.label };
    assert(st3.code.take(st.code.len() as int) =~= st2.code.take(st.code.len() as int));
    assert forall|q: usize| kill_ok(st, st3, live, q) by {
        lemma_kill_count_push(st2.code, x, q);
        assert(kill_ok(st, st2, live, q));
    }
    assert forall|q: usize, i: int|
        st.code.len() <= i < st3.code.len() && #[trigger] refs_reg(st3.code[i], q) implies q == 0
        || (st.regno <= q < st3.regno) by {
        if i < st2.code.len() {
            assert(st3.code[i] == st2.code[i]);
        } else {
            assert(st3.code[i] == x);
        }
    }
    assert forall|i: int|
        st.code.len() <= i < st3.code.len() && (#[trigger] st3.code[i]).op == IRType::LABEL implies
        st.label <= st3.code[i].lhs < st3.label by {
        if i < st2.code.len() {
            assert(st3.code[i] == st2.code[i]);
        } else {
            assert(st3.code[i] == x);
        }
    }
    assert forall|q: usize, i: int, j: int|
        st.code.len() <= i < j < st3.code.len() && (#[trigger] st3.code[i]).op == IRType::KILL
            && st3.code[i].lhs == q implies !(#[trigger] refs_reg(st3.code[j], q)) by {
        assert(st3.code[i] == st2.code[i]);
        if j < st2.code.len() {
            assert(st3.code[j] == st2.code[j]);
        } else {
            assert(st3.code[j] == x);
            if refs_reg(x, q) {
                assert(kill_ok(st, st2, live, q));
                lemma_no_kill_in_segment(st.code, st2.code, q);
            }
        }
    }
}

/// Discipline composes across two consecutive lowering steps, keeping the
/// registers live in either.
proof fn lemma_disciplined_trans(
    st: GenState,
    st2: GenState,
    st3: GenState,
    live1: Seq<usize>,
    live2: Seq<usize>,
    live: Seq<usize>,
)
    requires
        disciplined(st, st2, live1),
        disciplined(st2, st3, live2),
        forall|q: usize|
            st.regno <= q < st2.regno ==> (#[trigger] live.contains(q) <==> live1.contains(q)),
        forall|q: usize|
            st2.regno <= q < st3.regno ==> (#[trigger] live.contains(q) <==> live2.contains(q)),
    ensures
        disciplined(st, st3, live),
{
    assert(st3.code.take(st.code.len() as int) =~= st2.code.take(st.code.len() as int)) by {
        assert forall|i: int| 0 <= i < st.code.len() implies st3.code[i] == st2.code[i] by {
            assert(st3.code.take(st2.code.len() as int)[i] == st3.code[i]);
            assert(st2.code.take(st.code.len() as int)[i] == st2.code[i]);
        }
    }
    assert forall|q: usize| kill_ok(st, st3, live, q) by {
        assert(kill_ok(st, st2, live1, q));
        assert(kill_ok(st2, st3, live2, q));
        if st.regno <= q < st2.regno {
            assert(live.contains(q) <==> live1.contains(q));
        } else if st2.regno <= q < st3.regno {
            assert(live.contains(q) <==> live2.contains(q));
        }
    }
    assert forall|q: usize, i: int|
        st.code.len() <= i < st3.code.len() && #[trigger] refs_reg(st3.code[i], q) implies q == 0
        || (st.regno <= q < st3.regno) by {
        if i < st2.code.len() {
            assert(st3.code.take(st2.code.len() as int)[i] == st3.code[i]);
            assert(st2.code[i] == st3.code[i]);
        }
    }
    assert forall|i: int|
        st.code.len() <= i < st3.code.len() && (#[trigger] st3.code[i]).op == IRType::LABEL implies
        st.label <= st3.code[i].lhs < st3.label by {
        if i < st2.code.len() {
            assert(st3.code.take(st2.code.len() as int)[i] == st3.code[i]);
            assert(st2.code[i] == st3.code[i]);
        }
    }
    assert forall|q: usize, i: int, j: int|
        st.code.len() <= i < j < st3.code.len() && (#[trigger] st3.code[i]).op == IRType::KILL
            && st3.code[i].lhs == q implies !(#[trigger] refs_reg(st3.code[j], q)) by {
        if i < st2.code.len() {
            assert(st3.code.take(st2.code.len() as int)[i] == st3.code[i]);
            assert(st2.code[i] == st3.code[i]);
        }
        if j < st2.code.len() {
            assert(st3.code.take(st2.code.len() as int)[j] == st3.code[j]);
            assert(st2.code[j] == st3.code[j]);
        }
        if i < st2.code.len() && j >= st2.code.len() && refs_reg(st3.code[j], q) {
            // a register killed in the first step is never mentioned by the
            // second: the second step's refs are the frame base or its own
            // fresh range, and neither is killed by the first
            assert(q == 0 || st2.regno <= q < st3.regno);
            assert(kill_ok(st, st2, live1, q));
            lemma_no_kill_in_segment(st.code, st2.code, q);
        }
    }
}

/// Appending a kill of a live fresh register moves it out of the live set.
proof fn lemma_disciplined_kill(
    st: GenState,
    st2: GenState,
    live: Seq<usize>,
    live2: Seq<usize>,
    k: usize,
)
    requires
        disciplined(st, st2, live),
        st.regno <= k < st2.regno,
        live.contains(k),
        !live2.contains(k),
        forall|q: usize| q != k ==> (#[trigger] live2.contains(q) <==> live.contains(q)),
    ensures
        disciplined(
            st,
            GenState {
                code: st2.code.push(crate::common::ir_model(IRType::KILL, k, 0)),
                regno: st2.regno,
                label: st2.label,
            },
            live2,
        ),
{
    let x = crate::common::ir_model(IRType::KILL, k, 0);
    let st3 = GenState { code: st2.code.push(x), regno: st2.regno, label: st2.label };
    assert(st3.code.take(st.code.len() as int) =~= st2.code.take(st.code.len() as int));
    assert forall|q: usize| kill_ok(st, st3, live2, q) by {
        lemma_kill_count_push(st2.code, x, q);
        assert(kill_ok(st, st2, live, q));
        if q != k {
            assert(live2.contains(q) <==> live.contains(q));
        }
    }
    assert forall|q: usize, i: int|
        st.code.len() <= i < st3.code.len() && #[trigger] refs_reg(st3.code[i], q) implies q == 0
        || (st.regno <= q < st3.regno) by {
        if i < st2.code.len() {
            assert(st3.code[i] == st2.code[i]);
        } else {
            assert(st3.code[i] == x);
        }
    }
    assert forall|i: int|
        st.code.len() <= i < st3.code.len() && (#[trigger] st3.code[i]).op == IRType::LABEL implies
        st.label <= st3.code[i].lhs < st3.label by {
        if i < st2.code.len() {
            assert(st3.code[i] == st2.code[i]);
        } else {
            assert(st3.code[i] == x);
        }
    }
    assert forall|q: usize, i: int, j: int|
        st.code.len() <= i < j < st3.code.len() && (#[trigger] st3.code[i]).op == IRType::KILL
            && st3.code[i].lhs == q implies !(#[trigger] refs_reg(st3.code[j], q)) by {
        assert(st3.code[i] == st2.code[i]);
        if j < st2.code.len() {
            assert(st3.code[j] == st2.code[j]);
        } else {
            assert(st3.code[j] == x);
        }
    }
}

/// Appending a definition of a freshly numbered label keeps discipline.
proof fn lemma_disciplined_label(st: GenState, st2: GenState, live: Seq<usize>, x: usize)
    requires
        disciplined(st, st2, live),
        st.label <= x < st2.label,
    ensures
        disciplined(
            st,
            GenState {
                code: st2.code.push(crate::common::ir_model(IRType::LABEL, x, 0)),
                regno: st2.regno,
                label: st2.label,
            },
            live,
        ),
{
    let ir = crate::common::ir_model(IRType::LABEL, x, 0);
    let st3 = GenState { code: st2.code.push(ir), regno: st2.regno, label: st2.label };
    assert(st3.code.take(st.code.len() as int) =~= st2.code.take(st.code.len() as int));
    assert forall|q: usize| kill_ok(st, st3, live, q) by {
        lemma_kill_count_push(st2.code, ir, q);
        assert(kill_ok(st, st2, live, q));
    }
    assert forall|q: usize, i: int|
        st.code.len() <= i < st3.code.len() && #[trigger] refs_reg(st3.code[i], q) implies q == 0
        || (st.regno <= q < st3.regno) by {
        if i < st2.code.len() {
            assert(st3.code[i] == st2.code[i]);
        } else {
            assert(st3.code[i] == ir);
        }
    }
    assert forall|i: int|
        st.code.len() <= i < st3.code.len() && (#[trigger] st3.code[i]).op == IRType::LABEL implies
        st.label <= st3.code[i].lhs < st3.label by {
        if i < st2.code.len() {
            assert(st3.code[i] == st2.code[i]);
        } else {
            assert(st3.code[i] == ir);
        }
    }
    assert forall|q: usize, i: int, j: int|
        st.code.len() <= i < j < st3.code.len() && (#[trigger] st3.code[i]).op == IRType::KILL
            && st3.code[i].lhs == q implies !(#[trigger] refs_reg(st3.code[j], q)) by {
        assert(st3.code[i] == st2.code[i]);
        if j < st2.code.len() {
            assert(st3.code[j] == st2.code[j]);
        } else {
            assert(st3.code[j] == ir);
        }
    }
}

/// Discipline of an empty step.
proof fn lemma_disciplined_refl(st: GenState, live: Seq<usize>)
    requires
        st.regno >= 1,
    ensures
        disciplined(st, st, live),
{
    assert(st.code.take(st.code.len() as int) =~= st.code);
    assert forall|q: usize| kill_ok(st, st, live, q) by {}
}

/// Taking a fresh register (or label) without emitting code keeps discipline,
/// with the fresh register handed back live.
proof fn lemma_disciplined_fresh(st: GenState, st2: GenState, live: Seq<usize>, st3: GenState)
    requires
        disciplined(st, st2, live),
        st3.code == st2.code,
        st2.regno <= st3.regno,
        st2.label <= st3.label,
        forall|q: usize| st2.regno <= q < st3.regno ==> #[trigger] live.contains(q),
    ensures
        disciplined(st, st3, live),
{
    assert forall|q: usize| kill_ok(st, st3, live, q) by {
        assert(kill_ok(st, st2, live, q));
    }
}

/// The argument-store prologue stores through frame offsets only: it uses no
/// register, kills nothing, and defines no label.
proof fn lemma_store_args_disciplined(args: Seq<Node>, i: int, st: GenState)
    ensures
        ({
            let st2 = spec_store_args(args, i, st);
            &&& st2.regno == st.regno
            &&& st2.label == st.label
            &&& st.code.len() <= st2.code.len()
            &&& st2.code.take(st.code.len() as int) == st.code
            &&& forall|q: usize| kill_count(st2.code, q) == kill_count(st.code, q)
            &&& forall|q: usize, j: int|
                st.code.len() <= j < st2.code.len() ==> !(#[trigger] refs_reg(st2.code[j], q))
            &&& forall|j: int|
                st.code.len() <= j < st2.code.len() ==> (#[trigger] st2.code[j]).op
                    != IRType::LABEL
        }),
    decreases args.len() - i,
{
    let st2 = spec_store_args(args, i, st);
    if i < 0 || i >= args.len() {
        assert(st2.code.take(st.code.len() as int) =~= st.code);
    } else {
        let op = match args[i].ty.ty {
            TY::CHAR => IRType::STORE8_ARG,
            TY::INT => IRType::STORE32_ARG,
            TY::PTR => IRType::STORE64_ARG,
            TY::ARY => IRType::STORE64_ARG,
        };
        let stm = crate::ir::gpush(st, op, args[i].offset, i as usize);
        lemma_store_args_disciplined(args, i + 1, stm);
        assert(st2.code.take(st.code.len() as int) =~= st.code) by {
            assert(st2.code.take(stm.code.len() as int) == stm.code);
            assert forall|j: int| 0 <= j < st.code.len() implies st2.code[j] == st.code[j] by {
                assert(st2.code.take(stm.code.len() as int)[j] == st2.code[j]);
                assert(stm.code[j] == st.code[j]);
            }
        }
        assert forall|q: usize| kill_count(st2.code, q) == kill_count(st.code, q) by {
            lemma_kill_count_push(st.code, crate::common::ir_model(op, args[i].offset, i as usize), q);
        }
        assert forall|q: usize, j: int|
            st.code.len() <= j < st2.code.len() implies !(#[trigger] refs_reg(st2.code[j], q)) by {
            if j == st.code.len() {
                assert(st2.code.take(stm.code.len() as int)[j] == st2.code[j]);
                assert(st2.code[j] == stm.code[j]);
            }
        }
        assert forall|j: int|
            st.code.len() <= j < st2.code.len() implies (#[trigger] st2.code[j]).op
            != IRType::LABEL by {
            if j == st.code.len() {
                assert(st2.code.take(stm.code.len() as int)[j] == st2.code[j]);
                assert(st2.code[j] == stm.code[j]);
            }
        }
    }
}

/// Membership in a concatenation of register lists.
proof fn lemma_concat_contains(a: Seq<usize>, b: Seq<usize>, q: usize)
    ensures
        (a + b).contains(q) <==> (a.contains(q) || b.contains(q)),
{
    if a.contains(q) {
        let j = choose|j: int| 0 <= j < a.len() && #[trigger] a[j] == q;
        assert((a + b)[j] == q);
    }
    if b.contains(q) {
        let j = choose|j: int| 0 <= j < b.len() && #[trigger] b[j] == q;
        assert((a + b)[a.len() + j] == q);
    }
    if (a + b).contains(q) {
        let j = choose|j: int| 0 <= j < (a + b).len() && #[trigger] (a + b)[j] == q;
        if j < a.len() {
            assert(a[j] == q);
        } else {
            assert(b[j - a.len()] == q);
        }
    }
}

/// Membership in the tail of a register list.
proof fn lemma_skip_contains(regs: Seq<usize>, i: int, q: usize)
    requires
        0 <= i < regs.len(),
    ensures
        regs.skip(i).contains(q) <==> (regs[i] == q || regs.skip(i + 1).contains(q)),
{
    if regs[i] == q {
        assert(regs.skip(i)[0] == q);
    }
    if regs.skip(i + 1).contains(q) {
        let j = choose|j: int| 0 <= j < regs.skip(i + 1).len() && #[trigger] regs.skip(i + 1)[j] == q;
        assert(regs.skip(i)[j + 1] == q);
    }
    if regs.skip(i).contains(q) && regs[i] != q {
        let j = choose|j: int| 0 <= j < regs.skip(i).len() && #[trigger] regs.skip(i)[j] == q;
        assert(j != 0);
        assert(regs.skip(i + 1)[j - 1] == q);
    }
}

/// The kills appended after a call remove exactly the (strictly increasing)
/// collected argument registers from the live set.
proof fn lemma_push_kills_disciplined(
    st: GenState,
    st2: GenState,
    regs: Seq<usize>,
    i: int,
    base: GenState,
    live: Seq<usize>,
    live2: Seq<usize>,
)
    requires
        0 <= i <= regs.len(),
        disciplined(base, st, live),
        forall|k1: int, k2: int| i <= k1 < k2 < regs.len() ==> regs[k1] < regs[k2],
        forall|k: int| i <= k < regs.len() ==> base.regno <= #[trigger] regs[k] < st.regno,
        forall|k: int| i <= k < regs.len() ==> live.contains(#[trigger] regs[k]),
        forall|q: usize|
            #[trigger] live2.contains(q) <==> (live.contains(q) && !regs.skip(i).contains(q)),
        st2 == spec_push_kills(st, regs, i),
    ensures
        disciplined(base, st2, live2),
    decreases regs.len() - i,
{
    if i >= regs.len() {
        assert(regs.skip(i).len() == 0);
        assert forall|q: usize| kill_ok(base, st2, live2, q) by {
            assert(kill_ok(base, st, live, q));
            assert(!regs.skip(i).contains(q));
            assert(live2.contains(q) <==> live.contains(q));
        }
    } else {
        let k = regs[i];
        let stm = crate::ir::gpush(st, IRType::KILL, k, 0);
        let mid = live2 + regs.skip(i + 1);
        assert(regs.skip(i)[0] == k);
        assert(live.contains(k));
        assert(!live2.contains(k));
        assert forall|q: usize| q != k implies (#[trigger] mid.contains(q) <==> live.contains(q))
            by {
            lemma_concat_contains(live2, regs.skip(i + 1), q);
            lemma_skip_contains(regs, i, q);
            if regs.skip(i + 1).contains(q) {
                let j = choose|j: int|
                    0 <= j < regs.skip(i + 1).len() && #[trigger] regs.skip(i + 1)[j] == q;
                assert(regs[i + 1 + j] == q);
                assert(live.contains(regs[i + 1 + j]));
            }
        }
        assert(!mid.contains(k)) by {
            lemma_concat_contains(live2, regs.skip(i + 1), k);
            if regs.skip(i + 1).contains(k) {
                let j = choose|j: int|
                    0 <= j < regs.skip(i + 1).len() && #[trigger] regs.skip(i + 1)[j] == k;
                assert(regs[i + 1 + j] == k);
                assert(regs[i] < regs[i + 1 + j]);
            }
        }
        lemma_disciplined_kill(base, st, live, mid, k);
        assert(stm == GenState {
            code: st.code.push(crate::common::ir_model(IRType::KILL, k, 0)),
            regno: st.regno,
            label: st.label,
        });
        assert forall|kk: int| i + 1 <= kk < regs.len() implies mid.contains(
            #[trigger] regs[kk],
        ) by {
            assert(regs.skip(i + 1)[kk - (i + 1)] == regs[kk]);
            lemma_concat_contains(live2, regs.skip(i + 1), regs[kk]);
        }
        assert forall|q: usize|
            #[trigger] live2.contains(q) <==> (mid.contains(q) && !regs.skip(i + 1).contains(
                q,
            )) by {
            lemma_concat_contains(live2, regs.skip(i + 1), q);
            lemma_skip_contains(regs, i, q);
            if live2.contains(q) && regs.skip(i + 1).contains(q) {
                assert(regs.skip(i).contains(q));
            }
        }
        lemma_push_kills_disciplined(stm, st2, regs, i + 1, base, mid, live2);
    }
}

/// Appending kills leaves the counters untouched.
proof fn lemma_push_kills_counters(st: GenState, regs: Seq<usize>, i: int)
    ensures
        spec_push_kills(st, regs, i).regno == st.regno,
        spec_push_kills(st, regs, i).label == st.label,
    decreases regs.len() - i,
{
    if 0 <= i < regs.len() {
        lemma_push_kills_counters(crate::ir::gpush(st, IRType::KILL, regs[i], 0), regs, i + 1);
    }
}

/// Membership after appending one register.
proof fn lemma_push_contains(s: Seq<usize>, x: usize, q: usize)
    ensures
        s.push(x).contains(q) <==> (s.contains(q) || q == x),
{
    if s.contains(q) {
        let j = choose|j: int| 0 <= j < s.len() && #[trigger] s[j] == q;
        assert(s.push(x)[j] == q);
    }
    assert(s.push(x)[s.len() as int] == x);
    if s.push(x).contains(q) && q != x {
        let j = choose|j: int| 0 <= j < s.push(x).len() && #[trigger] s.push(x)[j] == q;
        assert(s[j] == q);
    }
}

/// Two live sets that agree on the produced range are interchangeable.
proof fn lemma_disciplined_live_equiv(
    st: GenState,
    st2: GenState,
    live: Seq<usize>,
    live2: Seq<usize>,
)
    requires
        disciplined(st, st2, live),
        forall|q: usize|
            st.regno <= q < st2.regno ==> (#[trigger] live2.contains(q) <==> live.contains(q)),
    ensures
        disciplined(st, st2, live2),
{
    assert forall|q: usize| kill_ok(st, st2, live2, q) by {
        assert(kill_ok(st, st2, live, q));
        if st.regno <= q < st2.regno {
            assert(live2.contains(q) <==> live.contains(q));
        }
    }
}

/// Discipline of address lowering: the produced register is handed back live.
proof fn lemma_lval_disciplined(node: Node, st: GenState, st2: GenState, r: usize)
    requires
        st.regno >= 1,
        spec_gen_lval(node, st) == Some::<(GenState, usize)>((st2, r)),
    ensures
        disciplined(st, st2, seq![r]),
        st.regno <= r < st2.regno,
    decreases node_size(node), 0int,
{
    match node.op {
        ND::DEREF => {
            lemma_expr_disciplined(*node.expr->Some_0, st, st2, r);
        },
        ND::LVAR => {
            let st1 = GenState { code: st.code, regno: (st.regno + 1) as usize, label: st.label };
            assert(seq![r][0] == r);
            lemma_disciplined_refl(st, seq![r]);
            lemma_disciplined_fresh(st, st, seq![r], st1);
            lemma_disciplined_push(st, st1, seq![r], crate::common::ir_model(IRType::MOV, r, 0));
            let stm = GenState {
                code: st1.code.push(crate::common::ir_model(IRType::MOV, r, 0)),
                regno: st1.regno,
                label: st1.label,
            };
            lemma_disciplined_push(
                st,
                stm,
                seq![r],
                crate::common::ir_model(IRType::SUB_IMM, r, node.offset),
            );
        },
        _ => {},
    }
}

/// Discipline of binary-operation lowering.
proof fn lemma_binop_disciplined(
    op: IRType,
    lhs: Node,
    rhs: Node,
    st: GenState,
    st2: GenState,
    r: usize,
)
    requires
        st.regno >= 1,
        spec_irinfo_ty(op) == IRInfoType::REG_REG,
        spec_gen_binop(op, lhs, rhs, st) == Some::<(GenState, usize)>((st2, r)),
    ensures
        disciplined(st, st2, seq![r]),
        st.regno <= r < st2.regno,
    decreases node_size(lhs) + node_size(rhs), 0int,
{
    let (stA, r1) = spec_gen_expr(lhs, st)->Some_0;
    lemma_expr_disciplined(lhs, st, stA, r1);
    let (stB, r2) = spec_gen_expr(rhs, stA)->Some_0;
    lemma_expr_disciplined(rhs, stA, stB, r2);
    assert(seq![r1, r2][0] == r1);
    assert(seq![r1, r2][1] == r2);
    assert(seq![r1][0] == r1);
    assert(seq![r2][0] == r2);
    lemma_disciplined_trans(st, stA, stB, seq![r1], seq![r2], seq![r1, r2]);
    lemma_disciplined_push(st, stB, seq![r1, r2], crate::common::ir_model(op, r1, r2));
    let stC = GenState {
        code: stB.code.push(crate::common::ir_model(op, r1, r2)),
        regno: stB.regno,
        label: stB.label,
    };
    lemma_disciplined_kill(st, stC, seq![r1, r2], seq![r1], r2);
}

/// Discipline of argument lowering: the collected registers are live,
/// strictly increasing, and all freshly produced.
proof fn lemma_args_disciplined(args: Seq<Node>, st: GenState, st2: GenState, regs: Seq<usize>)
    requires
        st.regno >= 1,
        spec_gen_args(args, st) == Some::<(GenState, Seq<usize>)>((st2, regs)),
    ensures
        disciplined(st, st2, regs),
        regs.len() == args.len(),
        forall|k: int| 0 <= k < regs.len() ==> st.regno <= #[trigger] regs[k] < st2.regno,
        forall|k1: int, k2: int| 0 <= k1 < k2 < regs.len() ==> regs[k1] < regs[k2],
    decreases nodes_size(args), 3int,
{
    if args.len() == 0 {
        lemma_disciplined_refl(st, regs);
    } else {
        proof_nodes_size_facts(args);
        let (stA, r) = spec_gen_expr(args[0], st)->Some_0;
        lemma_expr_disciplined(args[0], st, stA, r);
        let (stB, rest) = spec_gen_args(args.drop_first(), stA)->Some_0;
        lemma_args_disciplined(args.drop_first(), stA, stB, rest);
        assert(regs == seq![r] + rest);
        assert(seq![r][0] == r);
        assert forall|q: usize| #[trigger] regs.contains(q) <==> (q == r || rest.contains(q)) by {
            lemma_concat_contains(seq![r], rest, q);
            if seq![r].contains(q) {
                let j = choose|j: int| 0 <= j < seq![r].len() && #[trigger] seq![r][j] == q;
            }
        }
        assert forall|q: usize|
            st.regno <= q < stA.regno implies (#[trigger] regs.contains(q) <==> seq![r].contains(
            q,
        )) by {
            if rest.contains(q) {
                let j = choose|j: int| 0 <= j < rest.len() && #[trigger] rest[j] == q;
            }
        }
        assert forall|q: usize|
            stA.regno <= q < stB.regno implies (#[trigger] regs.contains(q) <==> rest.contains(
            q,
        )) by {}
        lemma_disciplined_trans(st, stA, stB, seq![r], rest, regs);
        assert forall|k: int| 0 <= k < regs.len() implies st.regno <= #[trigger] regs[k]
            < st2.regno by {
            if k > 0 {
                assert(regs[k] == rest[k - 1]);
            }
        }
        assert forall|k1: int, k2: int| 0 <= k1 < k2 < regs.len() implies regs[k1] < regs[k2] by {
            if k1 > 0 {
                assert(regs[k1] == rest[k1 - 1]);
            }
            assert(regs[k2] == rest[k2 - 1]);
        }
    }
}

/// The structural-size facts of a nonempty node sequence.
proof fn proof_nodes_size_facts(args: Seq<Node>)
    requires
        args.len() > 0,
    ensures
        node_size(args[0]) <= nodes_size(args),
        nodes_size(args.drop_first()) < nodes_size(args),
{
    crate::common::lemma_nodes_size_elem(args, 0);
    crate::common::lemma_nodes_size_drop_first(args);
}

/// Discipline of expression lowering: every temporary the expression produced
/// has been killed except the returned value register, which is handed back
/// live; the code mentions only the frame base and freshly produced
/// registers; and every label defined inside is freshly numbered.
#[verifier::rlimit(100)]
proof fn lemma_expr_disciplined(node: Node, st: GenState, st2: GenState, r: usize)
    requires
        st.regno >= 1,
        spec_gen_expr(node, st) == Some::<(GenState, usize)>((st2, r)),
    ensures
        disciplined(st, st2, seq![r]),
        st.regno <= r < st2.regno,
    decreases node_size(node), 1int,
{
    assert(seq![r][0] == r);
    match node.op {
        ND::NUM => {
            let st1 = GenState { code: st.code, regno: (st.regno + 1) as usize, label: st.label };
            lemma_disciplined_refl(st, seq![r]);
            lemma_disciplined_fresh(st, st, seq![r], st1);
            let v = crate::common::spec_parse_usize(node.val@)->Some_0;
            lemma_disciplined_push(st, st1, seq![r], crate::common::ir_model(IRType::IMM, r, v));
        },
        ND::LVAR => {
            let (stL, r0) = spec_gen_lval(node, st)->Some_0;
            lemma_lval_disciplined(node, st, stL, r0);
            lemma_disciplined_push(
                st,
                stL,
                seq![r],
                crate::common::ir_model(crate::ir::load_op(node.ty.ty), r, r),
            );
        },
        ND::LOGAND => {
            let lb = node.lhs->Some_0;
            let rb = node.rhs->Some_0;
            let x = st.label;
            let st0 = GenState { code: st.code, regno: st.regno, label: (st.label + 1) as usize };
            let (stA, r1) = spec_gen_expr(*lb, st0)->Some_0;
            lemma_expr_disciplined(*lb, st0, stA, r1);
            lemma_disciplined_refl(st, seq![r1]);
            lemma_disciplined_fresh(st, st, seq![r1], st0);
            lemma_disciplined_trans(st, st0, stA, seq![r1], seq![r1], seq![r1]);
            lemma_disciplined_push(
                st,
                stA,
                seq![r1],
                crate::common::ir_model(IRType::UNLESS, r1, x),
            );
            let stB = GenState {
                code: stA.code.push(crate::common::ir_model(IRType::UNLESS, r1, x)),
                regno: stA.regno,
                label: stA.label,
            };
            let (stC, r2) = spec_gen_expr(*rb, stB)->Some_0;
            lemma_expr_disciplined(*rb, stB, stC, r2);
            assert(seq![r1, r2][0] == r1);
            assert(seq![r1, r2][1] == r2);
            assert(seq![r1][0] == r1);
            assert(seq![r2][0] == r2);
            lemma_disciplined_trans(st, stB, stC, seq![r1], seq![r2], seq![r1, r2]);
            lemma_disciplined_push(
                st,
                stC,
                seq![r1, r2],
                crate::common::ir_model(IRType::MOV, r1, r2),
            );
            let stD = GenState {
                code: stC.code.push(crate::common::ir_model(IRType::MOV, r1, r2)),
                regno: stC.regno,
                label: stC.label,
            };
            lemma_disciplined_kill(st, stD, seq![r1, r2], seq![r1], r2);
            let stE = GenState {
                code: stD.code.push(crate::common::ir_model(IRType::KILL, r2, 0)),
                regno: stD.regno,
                label: stD.label,
            };
            lemma_disciplined_push(
                st,
                stE,
                seq![r1],
                crate::common::ir_model(IRType::UNLESS, r1, x),
            );
            let stF = GenState {
                code: stE.code.push(crate::common::ir_model(IRType::UNLESS, r1, x)),
                regno: stE.regno,
                label: stE.label,
            };
            lemma_disciplined_push(st, stF, seq![r1], crate::common::ir_model(IRType::IMM, r1, 1));
            let stG = GenState {
                code: stF.code.push(crate::common::ir_model(IRType::IMM, r1, 1)),
                regno: stF.regno,
                label: stF.label,
            };
            lemma_disciplined_label(st, stG, seq![r1], x);
        },
        ND::LOGOR => {
            let lb = node.lhs->Some_0;
            let rb = node.rhs->Some_0;
            let x = st.label;
            let la = (st.label + 1) as usize;
            let y = la;
            let st0 = GenState { code: st.code, regno: st.regno, label: (la + 1) as usize };
            let (stA, r1) = spec_gen_expr(*lb, st0)->Some_0;
            lemma_expr_disciplined(*lb, st0, stA, r1);
            lemma_disciplined_refl(st, seq![r1]);
            lemma_disciplined_fresh(st, st, seq![r1], st0);
            lemma_disciplined_trans(st, st0, stA, seq![r1], seq![r1], seq![r1]);
            lemma_disciplined_push(
                st,
                stA,
                seq![r1],
                crate::common::ir_model(IRType::UNLESS, r1, x),
            );
            let stB = GenState {
                code: stA.code.push(crate::common::ir_model(IRType::UNLESS, r1, x)),
                regno: stA.regno,
                label: stA.label,
            };
            lemma_disciplined_push(st, stB, seq![r1], crate::common::ir_model(IRType::IMM, r1, 1));
            let stB2 = GenState {
                code: stB.code.push(crate::common::ir_model(IRType::IMM, r1, 1)),
                regno: stB.regno,
                label: stB.label,
            };
            lemma_disciplined_push(st, stB2, seq![r1], crate::common::ir_model(IRType::JMP, y, 0));
            let stB3 = GenState {
                code: stB2.code.push(crate::common::ir_model(IRType::JMP, y, 0)),
                regno: stB2.regno,
                label: stB2.label,
            };
            lemma_disciplined_label(st, stB3, seq![r1], x);
            let stB4 = GenState {
                code: stB3.code.push(crate::common::ir_model(IRType::LABEL, x, 0)),
                regno: stB3.regno,
                label: stB3.label,
            };
            let (stC, r2) = spec_gen_expr(*rb, stB4)->Some_0;
            lemma_expr_disciplined(*rb, stB4, stC, r2);
            assert(seq![r1, r2][0] == r1);
            assert(seq![r1, r2][1] == r2);
            assert(seq![r1][0] == r1);
            assert(seq![r2][0] == r2);
            lemma_disciplined_trans(st, stB4, stC, seq![r1], seq![r2], seq![r1, r2]);
            lemma_disciplined_push(
                st,
                stC,
                seq![r1, r2],
                crate::common::ir_model(IRType::MOV, r1, r2),
            );
            let stD = GenState {
                code: stC.code.push(crate::common::ir_model(IRType::MOV, r1, r2)),
                regno: stC.regno,
                label: stC.label,
            };
            lemma_disciplined_kill(st, stD, seq![r1, r2], seq![r1], r2);
            let stE = GenState {
                code: stD.code.push(crate::common::ir_model(IRType::KILL, r2, 0)),
                regno: stD.regno,
                label: stD.label,
            };
            lemma_disciplined_push(
                st,
                stE,
                seq![r1],
                crate::common::ir_model(IRType::UNLESS, r1, y),
            );
            let stF = GenState {
                code: stE.code.push(crate::common::ir_model(IRType::UNLESS, r1, y)),
                regno: stE.regno,
                label: stE.label,
            };
            lemma_disciplined_push(st, stF, seq![r1], crate::common::ir_model(IRType::IMM, r1, 1));
            let stG = GenState {
                code: stF.code.push(crate::common::ir_model(IRType::IMM, r1, 1)),
                regno: stF.regno,
                label: stF.label,
            };
            lemma_disciplined_label(st, stG, seq![r1], y);
        },
        ND::CALL => {
            let (stA, regs) = spec_gen_args(node.args@, st)->Some_0;
            lemma_args_disciplined(node.args@, st, stA, regs);
            let st_inc = GenState {
                code: stA.code,
                regno: (stA.regno + 1) as usize,
                label: stA.label,
            };
            assert forall|q: usize|
                st.regno <= q < stA.regno implies (#[trigger] regs.push(r).contains(q)
                <==> regs.contains(q)) by {
                lemma_push_contains(regs, r, q);
            }
            lemma_disciplined_live_equiv(st, stA, regs, regs.push(r));
            assert(regs.push(r).contains(r)) by {
                lemma_push_contains(regs, r, r);
            }
            lemma_disciplined_fresh(st, stA, regs.push(r), st_inc);
            let call_ir = IrModel {
                op: IRType::CALL,
                lhs: r,
                rhs: 0,
                name: node.val@,
                args: regs,
            };
            assert forall|q: usize| refs_reg(call_ir, q) implies q == 0 || (st.regno <= q
                < st_inc.regno) by {
                if regs.contains(q) {
                    let j = choose|j: int| 0 <= j < regs.len() && #[trigger] regs[j] == q;
                }
            }
            lemma_disciplined_push(st, st_inc, regs.push(r), call_ir);
            let st_call = GenState {
                code: st_inc.code.push(call_ir),
                regno: st_inc.regno,
                label: st_inc.label,
            };
            assert(regs.skip(0) =~= regs);
            assert forall|q: usize|
                #[trigger] seq![r].contains(q) <==> (regs.push(r).contains(q) && !regs.skip(
                    0,
                ).contains(q)) by {
                lemma_push_contains(regs, r, q);
                if regs.contains(q) {
                    let j = choose|j: int| 0 <= j < regs.len() && #[trigger] regs[j] == q;
                }
            }
            assert forall|k: int| 0 <= k < regs.len() implies regs.push(r).contains(
                #[trigger] regs[k],
            ) by {
                lemma_push_contains(regs, r, regs[k]);
            }
            lemma_push_kills_disciplined(
                st_call,
                st2,
                regs,
                0,
                st,
                regs.push(r),
                seq![r],
            );
            lemma_push_kills_counters(st_call, regs, 0);
        },
        ND::ADDR => {
            lemma_lval_disciplined(*node.expr->Some_0, st, st2, r);
        },
        ND::DEREF => {
            let (stA, r0) = spec_gen_expr(*node.expr->Some_0, st)->Some_0;
            lemma_expr_disciplined(*node.expr->Some_0, st, stA, r0);
            lemma_disciplined_push(
                st,
                stA,
                seq![r],
                crate::common::ir_model(crate::ir::load_op(node.ty.ty), r, r),
            );
        },
        ND::OPE('=') => {
            let lb = node.lhs->Some_0;
            let rb = node.rhs->Some_0;
            let (stA, rr) = spec_gen_expr(*rb, st)->Some_0;
            lemma_expr_disciplined(*rb, st, stA, rr);
            let (stB, lr) = spec_gen_lval(*lb, stA)->Some_0;
            lemma_lval_disciplined(*lb, stA, stB, lr);
            assert(seq![rr, lr][0] == rr);
            assert(seq![rr, lr][1] == lr);
            assert(seq![rr][0] == rr);
            assert(seq![lr][0] == lr);
            lemma_disciplined_trans(st, stA, stB, seq![rr], seq![lr], seq![rr, lr]);
            lemma_disciplined_push(
                st,
                stB,
                seq![rr, lr],
                crate::common::ir_model(crate::ir::store_op(node.ty.ty), lr, rr),
            );
            let stC = GenState {
                code: stB.code.push(
                    crate::common::ir_model(crate::ir::store_op(node.ty.ty), lr, rr),
                ),
                regno: stB.regno,
                label: stB.label,
            };
            lemma_disciplined_kill(st, stC, seq![rr, lr], seq![lr], rr);
        },
        ND::OPE('<') => {
            lemma_binop_disciplined(
                IRType::LT,
                *node.lhs->Some_0,
                *node.rhs->Some_0,
                st,
                st2,
                r,
            );
        },
        ND::OPE('+') | ND::OPE('-') => {
            let lb = node.lhs->Some_0;
            let rb = node.rhs->Some_0;
            let insn = if node.op == ND::OPE('+') {
                IRType::ADD
            } else {
                IRType::SUB
            };
            if lb.ty.ty != TY::PTR {
                lemma_binop_disciplined(insn, *lb, *rb, st, st2, r);
            } else {
                let (stA, rr) = spec_gen_expr(*rb, st)->Some_0;
                lemma_expr_disciplined(*rb, st, stA, rr);
                let t = stA.regno;
                let st_inc = GenState {
                    code: stA.code,
                    regno: (stA.regno + 1) as usize,
                    label: stA.label,
                };
                assert(seq![rr, t][0] == rr);
                assert(seq![rr, t][1] == t);
                assert(seq![rr][0] == rr);
                lemma_disciplined_live_equiv(st, stA, seq![rr], seq![rr, t]);
                lemma_disciplined_fresh(st, stA, seq![rr, t], st_inc);
                let sz = spec_size_of(*lb.ty.ptr_of->Some_0)->Some_0;
                lemma_disciplined_push(
                    st,
                    st_inc,
                    seq![rr, t],
                    crate::common::ir_model(IRType::IMM, t, sz as usize),
                );
                let stB = GenState {
                    code: st_inc.code.push(crate::common::ir_model(IRType::IMM, t, sz as usize)),
                    regno: st_inc.regno,
                    label: st_inc.label,
                };
                lemma_disciplined_push(
                    st,
                    stB,
                    seq![rr, t],
                    crate::common::ir_model(IRType::MUL, rr, t),
                );
                let stC = GenState {
                    code: stB.code.push(crate::common::ir_model(IRType::MUL, rr, t)),
                    regno: stB.regno,
                    label: stB.label,
                };
                lemma_disciplined_kill(st, stC, seq![rr, t], seq![rr], t);
                let stD = GenState {
                    code: stC.code.push(crate::common::ir_model(IRType::KILL, t, 0)),
                    regno: stC.regno,
                    label: stC.label,
                };
                let (stE, lr) = spec_gen_expr(*lb, stD)->Some_0;
                lemma_expr_disciplined(*lb, stD, stE, lr);
                assert(seq![rr, lr][0] == rr);
                assert(seq![rr, lr][1] == lr);
                assert(seq![lr][0] == lr);
                lemma_disciplined_trans(st, stD, stE, seq![rr], seq![lr], seq![rr, lr]);
                lemma_disciplined_push(
                    st,
                    stE,
                    seq![rr, lr],
                    crate::common::ir_model(insn, lr, rr),
                );
                let stF = GenState {
                    code: stE.code.push(crate::common::ir_model(insn, lr, rr)),
                    regno: stE.regno,
                    label: stE.label,
                };
                lemma_disciplined_kill(st, stF, seq![rr, lr], seq![lr], rr);
            }
        },
        ND::OPE('*') => {
            lemma_binop_disciplined(
                IRType::MUL,
                *node.lhs->Some_0,
                *node.rhs->Some_0,
                st,
                st2,
                r,
            );
        },
        ND::OPE('/') => {
            lemma_binop_disciplined(
                IRType::DIV,
                *node.lhs->Some_0,
                *node.rhs->Some_0,
                st,
                st2,
                r,
            );
        },
        _ => {},
    }
}

/// Discipline of statement lowering: a statement leaves no register live.
#[verifier::rlimit(100)]
proof fn lemma_stmt_disciplined(node: Node, st: GenState, st2: GenState)
    requires
        st.regno >= 1,
        spec_gen_stmt(node, st) == Some::<GenState>(st2),
    ensures
        disciplined(st, st2, Seq::<usize>::empty()),
    decreases node_size(node), 2int,
{
    let none: Seq<usize> = Seq::empty();
    match node.op {
        ND::VARDEF => {
            match node.init {
                None => {
                    lemma_disciplined_refl(st, none);
                },
                Some(ib) => {
                    let (stA, rr) = spec_gen_expr(*ib, st)->Some_0;
                    lemma_expr_disciplined(*ib, st, stA, rr);
                    let lr = stA.regno;
                    let st_inc = GenState {
                        code: stA.code,
                        regno: (stA.regno + 1) as usize,
                        label: stA.label,
                    };
                    assert(seq![rr, lr][0] == rr);
                    assert(seq![rr, lr][1] == lr);
                    assert(seq![rr][0] == rr);
                    lemma_disciplined_live_equiv(st, stA, seq![rr], seq![rr, lr]);
                    lemma_disciplined_fresh(st, stA, seq![rr, lr], st_inc);
                    lemma_disciplined_push(
                        st,
                        st_inc,
                        seq![rr, lr],
                        crate::common::ir_model(IRType::MOV, lr, 0),
                    );
                    let stB = GenState {
                        code: st_inc.code.push(crate::common::ir_model(IRType::MOV, lr, 0)),
                        regno: st_inc.regno,
                        label: st_inc.label,
                    };
                    lemma_disciplined_push(
                        st,
                        stB,
                        seq![rr, lr],
                        crate::common::ir_model(IRType::SUB_IMM, lr, node.offset),
                    );
                    let stC = GenState {
                        code: stB.code.push(
                            crate::common::ir_model(IRType::SUB_IMM, lr, node.offset),
                        ),
                        regno: stB.regno,
                        label: stB.label,
                    };
                    let sop = crate::ir::store_op(node.ty.ty);
                    lemma_disciplined_push(
                        st,
                        stC,
                        seq![rr, lr],
                        crate::common::ir_model(sop, lr, rr),
                    );
                    let stD = GenState {
                        code: stC.code.push(crate::common::ir_model(sop, lr, rr)),
                        regno: stC.regno,
                        label: stC.label,
                    };
                    lemma_disciplined_kill(st, stD, seq![rr, lr], seq![rr], lr);
                    let stE = GenState {
                        code: stD.code.push(crate::common::ir_model(IRType::KILL, lr, 0)),
                        regno: stD.regno,
                        label: stD.label,
                    };
                    lemma_disciplined_kill(st, stE, seq![rr], none, rr);
                },
            }
        },
        ND::IF => {
            let cb = node.cond->Some_0;
            let tb = node.thn->Some_0;
            let x = st.label;
            let stl = GenState { code: st.code, regno: st.regno, label: (st.label + 1) as usize };
            match node.els {
                Some(eb) => {
                    let y = stl.label;
                    let stl2 = GenState {
                        code: stl.code,
                        regno: stl.regno,
                        label: (stl.label + 1) as usize,
                    };
                    let (stA, r) = spec_gen_expr(*cb, stl2)->Some_0;
                    lemma_expr_disciplined(*cb, stl2, stA, r);
                    assert(seq![r][0] == r);
                    lemma_disciplined_refl(st, seq![r]);
                    lemma_disciplined_fresh(st, st, seq![r], stl2);
                    lemma_disciplined_trans(st, stl2, stA, seq![r], seq![r], seq![r]);
                    lemma_disciplined_push(
                        st,
                        stA,
                        seq![r],
                        crate::common::ir_model(IRType::UNLESS, r, x),
                    );
                    let stB = GenState {
                        code: stA.code.push(crate::common::ir_model(IRType::UNLESS, r, x)),
                        regno: stA.regno,
                        label: stA.label,
                    };
                    lemma_disciplined_kill(st, stB, seq![r], none, r);
                    let stC = GenState {
                        code: stB.code.push(crate::common::ir_model(IRType::KILL, r, 0)),
                        regno: stB.regno,
                        label: stB.label,
                    };
                    let stD = spec_gen_stmt(*tb, stC)->Some_0;
                    lemma_stmt_disciplined(*tb, stC, stD);
                    lemma_disciplined_trans(st, stC, stD, none, none, none);
                    lemma_disciplined_push(st, stD, none, crate::common::ir_model(IRType::JMP, y, 0));
                    let stE = GenState {
                        code: stD.code.push(crate::common::ir_model(IRType::JMP, y, 0)),
                        regno: stD.regno,
                        label: stD.label,
                    };
                    lemma_disciplined_label(st, stE, none, x);
                    let stF = GenState {
                        code: stE.code.push(crate::common::ir_model(IRType::LABEL, x, 0)),
                        regno: stE.regno,
                        label: stE.label,
                    };
                    let stG = spec_gen_stmt(*eb, stF)->Some_0;
                    lemma_stmt_disciplined(*eb, stF, stG);
                    lemma_disciplined_trans(st, stF, stG, none, none, none);
                    lemma_disciplined_label(st, stG, none, y);
                },
                None => {
                    let (stA, r) = spec_gen_expr(*cb, stl)->Some_0;
                    lemma_expr_disciplined(*cb, stl, stA, r);
                    assert(seq![r][0] == r);
                    lemma_disciplined_refl(st, seq![r]);
                    lemma_disciplined_fresh(st, st, seq![r], stl);
                    lemma_disciplined_trans(st, stl, stA, seq![r], seq![r], seq![r]);
                    lemma_disciplined_push(
                        st,
                        stA,
                        seq![r],
                        crate::common::ir_model(IRType::UNLESS, r, x),
                    );
                    let stB = GenState {
                        code: stA.code.push(crate::common::ir_model(IRType::UNLESS, r, x)),
                        regno: stA.regno,
                        label: stA.label,
                    };
                    lemma_disciplined_kill(st, stB, seq![r], none, r);
                    let stC = GenState {
                        code: stB.code.push(crate::common::ir_model(IRType::KILL, r, 0)),
                        regno: stB.regno,
                        label: stB.label,
                    };
                    let stD = spec_gen_stmt(*tb, stC)->Some_0;
                    lemma_stmt_disciplined(*tb, stC, stD);
                    lemma_disciplined_trans(st, stC, stD, none, none, none);
                    lemma_disciplined_label(st, stD, none, x);
                },
            }
        },
        ND::FOR => {
            let ib = node.init->Some_0;
            let cb = node.cond->Some_0;
            let incb = node.inc->Some_0;
            let bb = node.body->Some_0;
            let x = st.label;
            let la = (st.label + 1) as usize;
            let y = la;
            let st0 = GenState { code: st.code, regno: st.regno, label: (la + 1) as usize };
            let stA = spec_gen_stmt(*ib, st0)->Some_0;
            lemma_stmt_disciplined(*ib, st0, stA);
            lemma_disciplined_refl(st, none);
            lemma_disciplined_fresh(st, st, none, st0);
            lemma_disciplined_trans(st, st0, stA, none, none, none);
            lemma_disciplined_label(st, stA, none, x);
            let stB = GenState {
                code: stA.code.push(crate::common::ir_model(IRType::LABEL, x, 0)),
                regno: stA.regno,
                label: stA.label,
            };
            let (stC, r2) = spec_gen_expr(*cb, stB)->Some_0;
            lemma_expr_disciplined(*cb, stB, stC, r2);
            assert(seq![r2][0] == r2);
            lemma_disciplined_trans(st, stB, stC, none, seq![r2], seq![r2]);
            lemma_disciplined_push(
                st,
                stC,
                seq![r2],
                crate::common::ir_model(IRType::UNLESS, r2, y),
            );
            let stD = GenState {
                code: stC.code.push(crate::common::ir_model(IRType::UNLESS, r2, y)),
                regno: stC.regno,
                label: stC.label,
            };
            lemma_disciplined_kill(st, stD, seq![r2], none, r2);
            let stE = GenState {
                code: stD.code.push(crate::common::ir_model(IRType::KILL, r2, 0)),
                regno: stD.regno,
                label: stD.label,
            };
            let stF = spec_gen_stmt(*bb, stE)->Some_0;
            lemma_stmt_disciplined(*bb, stE, stF);
            lemma_disciplined_trans(st, stE, stF, none, none, none);
            let (stG, r3) = spec_gen_expr(*incb, stF)->Some_0;
            lemma_expr_disciplined(*incb, stF, stG, r3);
            assert(seq![r3][0] == r3);
            lemma_disciplined_trans(st, stF, stG, none, seq![r3], seq![r3]);
            lemma_disciplined_kill(st, stG, seq![r3], none, r3);
            let stH = GenState {
                code: stG.code.push(crate::common::ir_model(IRType::KILL, r3, 0)),
                regno: stG.regno,
                label: stG.label,
            };
            lemma_disciplined_push(st, stH, none, crate::common::ir_model(IRType::JMP, x, 0));
            let stI = GenState {
                code: stH.code.push(crate::common::ir_model(IRType::JMP, x, 0)),
                regno: stH.regno,
                label: stH.label,
            };
            lemma_disciplined_label(st, stI, none, y);
        },
        ND::RETURN => {
            let e = node.expr->Some_0;
            let (stA, r) = spec_gen_expr(*e, st)->Some_0;
            lemma_expr_disciplined(*e, st, stA, r);
            assert(seq![r][0] == r);
            lemma_disciplined_push(st, stA, seq![r], crate::common::ir_model(IRType::RETURN, r, 0));
            let stB = GenState {
                code: stA.code.push(crate::common::ir_model(IRType::RETURN, r, 0)),
                regno: stA.regno,
                label: stA.label,
            };
            lemma_disciplined_kill(st, stB, seq![r], none, r);
        },
        ND::EXPR_STMT => {
            let e = node.expr->Some_0;
            let (stA, r) = spec_gen_expr(*e, st)->Some_0;
            lemma_expr_disciplined(*e, st, stA, r);
            assert(seq![r][0] == r);
            lemma_disciplined_kill(st, stA, seq![r], none, r);
        },
        ND::COMP_STMT => {
            lemma_stmts_disciplined(node.stmts@, st, st2);
        },
        _ => {},
    }
}

/// Discipline of a statement sequence.
proof fn lemma_stmts_disciplined(stmts: Seq<Node>, st: GenState, st2: GenState)
    requires
        st.regno >= 1,
        spec_gen_stmts(stmts, st) == Some::<GenState>(st2),
    ensures
        disciplined(st, st2, Seq::<usize>::empty()),
    decreases nodes_size(stmts), 3int,
{
    let none: Seq<usize> = Seq::empty();
    if stmts.len() == 0 {
        lemma_disciplined_refl(st, none);
    } else {
        proof_nodes_size_facts(stmts);
        let stA = spec_gen_stmt(stmts[0], st)->Some_0;
        lemma_stmt_disciplined(stmts[0], st, stA);
        lemma_stmts_disciplined(stmts.drop_first(), stA, st2);
        lemma_disciplined_trans(st, stA, st2, none, none, none);
    }
}

/// The kill discipline of an instruction stream whose produced registers are
/// ids 1 up to `bound`: every produced register is killed exactly once, the
/// kill comes after every instruction that mentions the register, no kill
/// targets the reserved frame-base register or a register that was never
/// produced, and every register the stream mentions is the frame base or a
/// produced one.
pub open spec fn kill_discipline_holds(irs: Seq<IrModel>, bound: usize) -> bool {
    &&& 1 <= bound
    &&& forall|q: usize|
        kill_count(irs, q) == (if 1 <= q < bound {
            1nat
        } else {
            0nat
        })
    &&& forall|q: usize, i: int|
        0 <= i < irs.len() && #[trigger] refs_reg(irs[i], q) ==> q == 0 || 1 <= q < bound
    &&& forall|q: usize, i: int, j: int|
        0 <= i < j < irs.len() && (#[trigger] irs[i]).op == IRType::KILL && irs[i].lhs == q
            ==> !(#[trigger] refs_reg(irs[j], q))
}

/// Every virtual register a function's lowering produces is killed exactly
/// once; no kill targets the reserved frame-base register or a register that
/// was never produced; and every register the stream mentions is the frame
/// base or a produced one. (The produced registers are ids 1 up to some
/// bound: the final value of the per-function register counter.)
pub proof fn lemma_kill_discipline(node: Node, fm: crate::common::FunctionModel)
    requires
        spec_gen_func(node) == Some::<crate::common::FunctionModel>(fm),
    ensures
        kill_count(fm.irs, 0) == 0,
        exists|bound: usize| #[trigger] kill_discipline_holds(fm.irs, bound),
{
    let st0 = GenState { code: Seq::empty(), regno: 1, label: 0 };
    let st1 = spec_store_args(node.args@, 0, st0);
    lemma_store_args_disciplined(node.args@, 0, st0);
    let st2 = spec_gen_stmt(*node.body->Some_0, st1)->Some_0;
    lemma_stmt_disciplined(*node.body->Some_0, st1, st2);
    let bound = st2.regno;
    assert forall|q: usize|
        kill_count(fm.irs, q) == (if 1 <= q < bound {
            1nat
        } else {
            0nat
        }) by {
        assert(kill_ok(st1, st2, Seq::<usize>::empty(), q));
        assert(kill_count(st1.code, q) == kill_count(st0.code, q));
        assert(kill_count(Seq::<IrModel>::empty(), q) == 0);
        assert(!Seq::<usize>::empty().contains(q));
    }
    assert forall|q: usize, i: int|
        0 <= i < fm.irs.len() && #[trigger] refs_reg(fm.irs[i], q) implies q == 0 || 1 <= q
        < bound by {
        if i < st1.code.len() {
            assert(st2.code.take(st1.code.len() as int)[i] == st2.code[i]);
            assert(st1.code[i] == st2.code[i]);
        }
    }
    assert forall|q: usize, i: int, j: int|
        0 <= i < j < fm.irs.len() && (#[trigger] fm.irs[i]).op == IRType::KILL && fm.irs[i].lhs
            == q implies !(#[trigger] refs_reg(fm.irs[j], q)) by {
        if i < st1.code.len() {
            // the argument-store prologue kills nothing
            lemma_no_kill_in_segment(st0.code, st1.code, q);
            assert(st2.code.take(st1.code.len() as int)[i] == st2.code[i]);
            assert(st1.code[i] == st2.code[i]);
            assert(kill_count(Seq::<IrModel>::empty(), q) == 0);
        }
    }
    assert(kill_discipline_holds(fm.irs, bound));
}

/// Lowering `p + e` (or `p - e`) for a pointer-typed `p` scales the other
/// operand by the pointee size before combining: right after `e`'s own code,
/// the stream loads `sizeof(*p)` as an immediate into a fresh register and
/// multiplies `e`'s value register by it, and the combining add or subtract
/// is the second-to-last instruction emitted, followed only by the kill of
/// the scaled operand's register.
pub proof fn lemma_ptr_add_scales(node: Node, st: GenState, st2: GenState, res: usize)
    requires
        st.regno >= 1,
        node.op == ND::OPE('+') || node.op == ND::OPE('-'),
        node.lhs matches Some(lb) && lb.ty.ty == TY::PTR,
        node.rhs is Some,
        spec_gen_expr(node, st) == Some::<(GenState, usize)>((st2, res)),
    ensures
        spec_gen_expr(*node.rhs->Some_0, st) is Some,
        node.lhs->Some_0.ty.ptr_of is Some,
        spec_size_of(*node.lhs->Some_0.ty.ptr_of->Some_0) is Some,
        ({
            let (st1, q) = spec_gen_expr(*node.rhs->Some_0, st)->Some_0;
            let t = st1.regno;
            let sz = spec_size_of(*node.lhs->Some_0.ty.ptr_of->Some_0)->Some_0;
            let insn = if node.op == ND::OPE('+') {
                IRType::ADD
            } else {
                IRType::SUB
            };
            &&& st1.code.len() + 5 <= st2.code.len()
            &&& st2.code[st1.code.len() as int] == crate::common::ir_model(
                IRType::IMM,
                t,
                sz as usize,
            )
            &&& st2.code[st1.code.len() as int + 1] == crate::common::ir_model(IRType::MUL, q, t)
            &&& st2.code[st1.code.len() as int + 2] == crate::common::ir_model(IRType::KILL, t, 0)
            &&& st2.code[st2.code.len() as int - 2] == crate::common::ir_model(insn, res, q)
            &&& st2.code.last() == crate::common::ir_model(IRType::KILL, q, 0)
        }),
{
    let lb = node.lhs->Some_0;
    let rb = node.rhs->Some_0;
    let (st1, q) = spec_gen_expr(*rb, st)->Some_0;
    let t = st1.regno;
    let st_inc = GenState { code: st1.code, regno: (st1.regno + 1) as usize, label: st1.label };
    let sz = spec_size_of(*lb.ty.ptr_of->Some_0)->Some_0;
    let insn = if node.op == ND::OPE('+') {
        IRType::ADD
    } else {
        IRType::SUB
    };
    let st3 = crate::ir::gpush(st_inc, IRType::IMM, t, sz as usize);
    let st4 = crate::ir::gpush(st3, IRType::MUL, q, t);
    let st5 = crate::ir::gpush(st4, IRType::KILL, t, 0);
    let (st6, lr) = spec_gen_expr(*lb, st5)->Some_0;
    lemma_expr_disciplined(*lb, st5, st6, lr);
    assert(st2.code[st1.code.len() as int] == st3.code[st1.code.len() as int]) by {
        assert(st6.code.take(st5.code.len() as int) == st5.code);
        assert(st6.code.take(st5.code.len() as int)[st1.code.len() as int] == st6.code[st1.code.len() as int]);
    }
    assert(st2.code[st1.code.len() as int + 1] == st4.code[st1.code.len() as int + 1]) by {
        assert(st6.code.take(st5.code.len() as int) == st5.code);
        assert(st6.code.take(st5.code.len() as int)[st1.code.len() as int + 1]
            == st6.code[st1.code.len() as int + 1]);
    }
    assert(st2.code[st1.code.len() as int + 2] == st5.code[st1.code.len() as int + 2]) by {
        assert(st6.code.take(st5.code.len() as int) == st5.code);
        assert(st6.code.take(st5.code.len() as int)[st1.code.len() as int + 2]
            == st6.code[st1.code.len() as int + 2]);
    }
}

/// In `a && b`, the branch taken when `a` is false jumps to a label that is
/// defined exactly once: as the very last instruction of the lowering, after
/// every instruction of `b`'s lowering. No instruction belonging to `b` is
/// therefore reachable from that branch.
pub proof fn lemma_logand_short_circuit(node: Node, st: GenState, st2: GenState, res: usize)
    requires
        st.regno >= 1,
        node.op == ND::LOGAND,
        spec_gen_expr(node, st) == Some::<(GenState, usize)>((st2, res)),
    ensures
        ({
            let x = st.label;
            let st0 = GenState {
                code: st.code,
                regno: st.regno,
                label: (st.label + 1) as usize,
            };
            &&& spec_gen_expr(*node.lhs->Some_0, st0) is Some
            &&& {
                let (st1, r1) = spec_gen_expr(*node.lhs->Some_0, st0)->Some_0;
                // the test after the left operand branches to label x ...
                &&& st1.code.len() < st2.code.len()
                &&& st2.code[st1.code.len() as int] == crate::common::ir_model(
                    IRType::UNLESS,
                    r1,
                    x,
                )
                // ... which is defined exactly once, as the last instruction,
                // after everything the right operand lowered to:
                &&& st2.code.last() == crate::common::ir_model(IRType::LABEL, x, 0)
                &&& forall|i: int|
                    st.code.len() <= i < st2.code.len() - 1 && (#[trigger] st2.code[i]).op
                        == IRType::LABEL ==> st2.code[i].lhs != x
            }
        }),
{
    let x = st.label;
    let st0 = GenState { code: st.code, regno: st.regno, label: (st.label + 1) as usize };
    let (st1, r1) = spec_gen_expr(*node.lhs->Some_0, st0)->Some_0;
    lemma_expr_disciplined(*node.lhs->Some_0, st0, st1, r1);
    let stB = crate::ir::gpush(st1, IRType::UNLESS, r1, x);
    let (stC, r2) = spec_gen_expr(*node.rhs->Some_0, stB)->Some_0;
    lemma_expr_disciplined(*node.rhs->Some_0, stB, stC, r2);
    let stD = crate::ir::gpush(stC, IRType::MOV, r1, r2);
    let stE = crate::ir::gpush(stD, IRType::KILL, r2, 0);
    let stF = crate::ir::gpush(stE, IRType::UNLESS, r1, x);
    let stG = crate::ir::gpush(stF, IRType::IMM, r1, 1);
    assert(st2.code[st1.code.len() as int] == stB.code[st1.code.len() as int]) by {
        assert(stC.code.take(stB.code.len() as int) == stB.code);
        assert(stC.code.take(stB.code.len() as int)[st1.code.len() as int] == stC.code[st1.code.len() as int]);
    }
    assert forall|i: int|
        st.code.len() <= i < st2.code.len() - 1 && (#[trigger] st2.code[i]).op == IRType::LABEL
        implies st2.code[i].lhs != x by {
        if i < st1.code.len() {
            // a label defined inside the left operand's lowering is numbered
            // above x
            assert(stC.code.take(stB.code.len() as int) == stB.code);
            assert(stC.code.take(stB.code.len() as int)[i] == stC.code[i]);
            assert(st2.code[i] == st1.code[i]);
            assert(st0.label <= st1.code[i].lhs < st1.label);
        } else if i == st1.code.len() {
            // the test instruction is not a label definition
            assert(stC.code.take(stB.code.len() as int) == stB.code);
            assert(stC.code.take(stB.code.len() as int)[i] == stC.code[i]);
            assert(st2.code[i] == stB.code[i]);
        } else if i < stC.code.len() {
            // a label defined inside the right operand's lowering is numbered
            // above x
            assert(st2.code[i] == stC.code[i]);
            assert(stB.label <= stC.code[i].lhs < stC.label);
        } else {
            // the four instructions between b's code and the label definition
            assert(st2.code[i] == stG.code[i]);
        }
    }
}

} // verus!