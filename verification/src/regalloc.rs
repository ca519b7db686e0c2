//! Register allocator: rewrites the virtual register ids of each function's
//! instruction list to physical indices (0..7) in one forward pass, freeing a
//! physical register at each kill marker and rewriting the kill to a no-op.
//!
//! The whole pass is modelled by the spec functions below ([`spec_alloc_regs`]
//! and its helpers); the executable pass is proved to compute exactly what the
//! model says, which makes allocation deterministic by construction
//! ([`lemma_alloc_regs_deterministic`]).

use vstd::prelude::*;

use crate::common::{CompileError, Function, FunctionModel, IR, IRInfoType, IRType, IrModel,
    fns_model, irs_model, spec_irinfo_ty};

verus! {

/// Number of physical registers available for allocation.
pub const NUM_REGS: usize = 8;

/// Allocator state: the mapping from virtual register id to physical index,
/// and the occupancy of the eight physical registers.
pub struct AllocState {
    pub map: Map<usize, usize>,
    pub used: Seq<bool>,
}

/// How an allocation pass can fail: more than eight simultaneously live
/// virtual registers (a hard resource limit), or an instruction stream that
/// breaks the allocator's invariants (a kill of an unmapped or free register,
/// or a mapping to an occupied slot that is not marked occupied).
pub enum AllocFailure {
    Exhausted,
    Corrupt,
}

/// Initial state for one function: virtual id 0 is pre-bound to physical
/// register 0 (the frame base), which is permanently occupied.
pub open spec fn init_alloc_state() -> AllocState {
    AllocState {
        map: Map::empty().insert(0, 0),
        used: seq![true, false, false, false, false, false, false, false],
    }
}

/// Index of the first free physical register at or after `i`, if any.
pub open spec fn spec_first_free(used: Seq<bool>, i: int) -> Option<usize>
    decreases NUM_REGS - i,
{
    if i < 0 || i >= NUM_REGS {
        None
    } else if !used[i] {
        Some(i as usize)
    } else {
        spec_first_free(used, i + 1)
    }
}

/// Allocate a physical register for virtual id `r`: return the existing
/// mapping if there is one (its register must still be occupied), otherwise
/// the lowest free physical register, marking it occupied.
pub open spec fn spec_alloc(st: AllocState, r: usize) -> Result<(AllocState, usize), AllocFailure> {
    if st.map.contains_key(r) {
        let p = st.map[r];
        if p < NUM_REGS && st.used[p as int] {
            Ok((st, p))
        } else {
            Err(AllocFailure::Corrupt)
        }
    } else {
        match spec_first_free(st.used, 0) {
            Some(i) => Ok(
                (AllocState { map: st.map.insert(r, i), used: st.used.update(i as int, true) }, i),
            ),
            None => Err(AllocFailure::Exhausted),
        }
    }
}

/// Free the physical register mapped to virtual id `r`, which must be mapped
/// and occupied.
pub open spec fn spec_kill(st: AllocState, r: usize) -> Result<AllocState, AllocFailure> {
    if st.map.contains_key(r) && st.map[r] < NUM_REGS && st.used[st.map[r] as int] {
        Ok(AllocState { map: st.map, used: st.used.update(st.map[r] as int, false) })
    } else {
        Err(AllocFailure::Corrupt)
    }
}

/// Allocate the argument registers of a call, in order, starting at index `i`.
pub open spec fn spec_alloc_args(st: AllocState, args: Seq<usize>, i: int) -> Result<
    (AllocState, Seq<usize>),
    AllocFailure,
>
    decreases args.len() - i,
{
    if i < 0 || i >= args.len() {
        Ok((st, args))
    } else {
        match spec_alloc(st, args[i]) {
            Ok((st1, p)) => spec_alloc_args(st1, args.update(i, p), i + 1),
            Err(e) => Err(e),
        }
    }
}

/// Process one instruction: allocate its register operands according to its
/// operand shape, then, for a kill, free the killed register and rewrite the
/// instruction to a no-op (its operand fields are left as they are, so the
/// stream's length and label positions are unaffected).
pub open spec fn spec_visit_ir(st: AllocState, ir: IrModel) -> Result<
    (AllocState, IrModel),
    AllocFailure,
> {
    let shaped = match spec_irinfo_ty(ir.op) {
        IRInfoType::REG | IRInfoType::REG_IMN | IRInfoType::REG_LABEL => match spec_alloc(
            st,
            ir.lhs,
        ) {
            Ok((st1, l)) => Ok(
                (st1, IrModel { op: ir.op, lhs: l, rhs: ir.rhs, name: ir.name, args: ir.args }),
            ),
            Err(e) => Err(e),
        },
        IRInfoType::REG_REG => match spec_alloc(st, ir.lhs) {
            Ok((st1, l)) => match spec_alloc(st1, ir.rhs) {
                Ok((st2, r)) => Ok(
                    (st2, IrModel { op: ir.op, lhs: l, rhs: r, name: ir.name, args: ir.args }),
                ),
                Err(e) => Err(e),
            },
            Err(e) => Err(e),
        },
        IRInfoType::CALL => match spec_alloc(st, ir.lhs) {
            Ok((st1, l)) => match spec_alloc_args(st1, ir.args, 0) {
                Ok((st2, aa)) => Ok(
                    (st2, IrModel { op: ir.op, lhs: l, rhs: ir.rhs, name: ir.name, args: aa }),
                ),
                Err(e) => Err(e),
            },
            Err(e) => Err(e),
        },
        _ => Ok((st, ir)),
    };
    match shaped {
        Ok((st2, ir2)) => if ir.op == IRType::KILL {
            match spec_kill(st2, ir.lhs) {
                Ok(st3) => Ok(
                    (
                        st3,
                        IrModel {
                            op: IRType::NOP,
                            lhs: ir2.lhs,
                            rhs: ir2.rhs,
                            name: ir2.name,
                            args: ir2.args,
                        },
                    ),
                ),
                Err(e) => Err(e),
            }
        } else {
            Ok((st2, ir2))
        },
        Err(e) => Err(e),
    }
}

/// Process an instruction list front to back.
pub open spec fn spec_visit(irs: Seq<IrModel>, st: AllocState) -> Result<
    (Seq<IrModel>, AllocState),
    AllocFailure,
>
    decreases irs.len(),
{
    if irs.len() == 0 {
        Ok((irs, st))
    } else {
        match spec_visit_ir(st, irs[0]) {
            Ok((st1, ir1)) => match spec_visit(irs.drop_first(), st1) {
                Ok((rest, st2)) => Ok((seq![ir1] + rest, st2)),
                Err(e) => Err(e),
            },
            Err(e) => Err(e),
        }
    }
}

/// Allocate one function: a fresh allocator state per function, the name and
/// stack size unchanged.
pub open spec fn spec_alloc_fn(f: FunctionModel) -> Result<FunctionModel, AllocFailure> {
    match spec_visit(f.irs, init_alloc_state()) {
        Ok((irs, _)) => Ok(FunctionModel { name: f.name, irs, stack_size: f.stack_size }),
        Err(e) => Err(e),
    }
}

/// Allocate every function independently, in order, stopping at the first
/// failure.
pub open spec fn spec_alloc_regs(fns: Seq<FunctionModel>) -> Result<
    Seq<FunctionModel>,
    AllocFailure,
>
    decreases fns.len(),
{
    if fns.len() == 0 {
        Ok(fns)
    } else {
        match spec_alloc_fn(fns[0]) {
            Ok(f1) => match spec_alloc_regs(fns.drop_first()) {
                Ok(rest) => Ok(seq![f1] + rest),
                Err(e) => Err(e),
            },
            Err(e) => Err(e),
        }
    }
}

/// The allocator state represented by the executable pass's lookup vector and
/// occupancy vector.
pub open spec fn state_of(reg_map: Seq<Option<usize>>, used: Seq<bool>) -> AllocState {
    AllocState {
        map: Map::new(
            |k: usize| 0 <= k < reg_map.len() && reg_map[k as int] is Some,
            |k: usize| reg_map[k as int]->Some_0,
        ),
        used: used,
    }
}

/// Allocation is deterministic: identical unallocated instruction streams
/// yield identical physical-register assignments.
pub proof fn lemma_alloc_regs_deterministic(fns1: Seq<FunctionModel>, fns2: Seq<FunctionModel>)
    requires
        fns1 =~= fns2,
    ensures
        spec_alloc_regs(fns1) == spec_alloc_regs(fns2),
{
}

/// Allocation rewrites the stream in place: its length is unchanged, every
/// kill marker becomes a no-op and no other opcode changes, and label
/// definitions keep their positions and their ids, so label offsets are
/// unaffected.
pub proof fn lemma_alloc_preserves_shape(
    irs: Seq<IrModel>,
    st: AllocState,
    out: Seq<IrModel>,
    st2: AllocState,
)
    requires
        spec_visit(irs, st) == Ok::<(Seq<IrModel>, AllocState), AllocFailure>((out, st2)),
    ensures
        out.len() == irs.len(),
        forall|i: int|
            0 <= i < out.len() ==> (#[trigger] out[i]).op == (if irs[i].op == IRType::KILL {
                IRType::NOP
            } else {
                irs[i].op
            }),
        forall|i: int|
            0 <= i < out.len() && (#[trigger] irs[i]).op == IRType::LABEL ==> out[i].lhs
                == irs[i].lhs,
    decreases irs.len(),
{
    if irs.len() > 0 {
        let (st1, ir1) = spec_visit_ir(st, irs[0])->Ok_0;
        let (rest, stf) = spec_visit(irs.drop_first(), st1)->Ok_0;
        lemma_alloc_preserves_shape(irs.drop_first(), st1, rest, stf);
        assert(out == seq![ir1] + rest);
        assert forall|i: int|
            0 <= i < out.len() implies (#[trigger] out[i]).op == (if irs[i].op == IRType::KILL {
            IRType::NOP
        } else {
            irs[i].op
        }) by {
            if i == 0 {
                assert(out[0] == ir1);
            } else {
                assert(out[i] == rest[i - 1]);
                assert(irs[i] == irs.drop_first()[i - 1]);
            }
        }
        assert forall|i: int|
            0 <= i < out.len() && (#[trigger] irs[i]).op == IRType::LABEL implies out[i].lhs
            == irs[i].lhs by {
            if i == 0 {
                assert(out[0] == ir1);
            } else {
                assert(out[i] == rest[i - 1]);
                assert(irs[i] == irs.drop_first()[i - 1]);
            }
        }
    }
}

#[verifier::loop_isolation(false)]
fn alloc_reg(ir_reg: usize, reg_map: &mut Vec<Option<usize>>, used: &mut Vec<bool>) -> (r: Result<
    usize,
    CompileError,
>)
    requires
        old(used)@.len() == NUM_REGS,
    ensures
        final(used)@.len() == NUM_REGS,
        match spec_alloc(state_of(old(reg_map)@, old(used)@), ir_reg) {
            Ok((st, p)) => r == Ok::<usize, CompileError>(p)
                && state_of(final(reg_map)@, final(used)@) == st && p < NUM_REGS,
            Err(AllocFailure::Exhausted) => r == Err::<usize, CompileError>(
                CompileError::RegisterExhausted,
            ),
            Err(AllocFailure::Corrupt) => r matches Err(e) && e is Internal,
        },
{
    let ghost st0 = state_of(reg_map@, used@);
    if ir_reg < reg_map.len() {
        if let Some(p) = reg_map[ir_reg] {
            if p < used.len() && used[p] {
                return Ok(p);
            } else {
                return Err(
                    CompileError::Internal(String::from_str("allocated register not in use")),
                );
            }
        }
    }
    assert(!st0.map.contains_key(ir_reg));
    while reg_map.len() <= ir_reg
        invariant
            state_of(reg_map@, used@).map =~= st0.map,
        decreases ir_reg + 1 - reg_map.len(),
    {
        reg_map.push(None);
        proof {
            assert(state_of(reg_map@, used@).map =~= st0.map);
        }
    }
    let mut i: usize = 0;
    while i < NUM_REGS
        invariant
            i <= NUM_REGS,
            ir_reg < reg_map@.len(),
            *used == *old(used),
            state_of(reg_map@, used@).map =~= st0.map,
            spec_first_free(used@, 0) == spec_first_free(used@, i as int),
        decreases NUM_REGS - i,
    {
        if !used[i] {
            let ghost pre_used = used@;
            used[i] = true;
            reg_map[ir_reg] = Some(i);
            proof {
                assert(spec_first_free(pre_used, i as int) == Some(i));
                assert(state_of(reg_map@, used@).map =~= st0.map.insert(ir_reg, i));
                assert(used@ =~= st0.used.update(i as int, true));
            }
            return Ok(i);
        }
        i += 1;
    }
    assert(spec_first_free(st0.used, 0) is None);
    Err(CompileError::RegisterExhausted)
}

fn kill(r: usize, used: &mut Vec<bool>) -> (res: Result<(), CompileError>)
    requires
        old(used)@.len() == NUM_REGS,
    ensures
        final(used)@.len() == NUM_REGS,
        r < NUM_REGS && old(used)@[r as int] ==> res == Ok::<(), CompileError>(())
            && final(used)@ == old(used)@.update(r as int, false),
        !(r < NUM_REGS && old(used)@[r as int]) ==> (res matches Err(e) && e is Internal)
            && final(used)@ == old(used)@,
{
    if r < used.len() && used[r] {
        used[r] = false;
        Ok(())
    } else {
        Err(CompileError::Internal(String::from_str("kill of a register that is not in use")))
    }
}

/// Composing a processed prefix `done` with the remaining work `rest` is
/// unchanged by processing one more instruction.
proof fn lemma_visit_step(
    done: Seq<IrModel>,
    rest: Seq<IrModel>,
    st: AllocState,
    st2: AllocState,
    ir2: IrModel,
)
    requires
        rest.len() > 0,
        spec_visit_ir(st, rest[0]) == Ok::<(AllocState, IrModel), AllocFailure>((st2, ir2)),
    ensures
        (match spec_visit(rest, st) {
            Ok((tail, f)) => Ok::<(Seq<IrModel>, AllocState), AllocFailure>((done + tail, f)),
            Err(e) => Err(e),
        }) == (match spec_visit(rest.drop_first(), st2) {
            Ok((tail, f)) => Ok::<(Seq<IrModel>, AllocState), AllocFailure>(
                (done.push(ir2) + tail, f),
            ),
            Err(e) => Err(e),
        }),
{
    match spec_visit(rest.drop_first(), st2) {
        Ok((tail, f)) => {
            assert(done + (seq![ir2] + tail) =~= done.push(ir2) + tail);
        },
        Err(_) => {},
    }
}

/// An empty processed prefix composes to the plain run.
proof fn lemma_visit_empty_prefix(rest: Seq<IrModel>, st: AllocState)
    ensures
        spec_visit(rest, st) == (match spec_visit(rest, st) {
            Ok((tail, f)) => Ok::<(Seq<IrModel>, AllocState), AllocFailure>(
                (Seq::<IrModel>::empty() + tail, f),
            ),
            Err(e) => Err(e),
        }),
{
    match spec_visit(rest, st) {
        Ok((tail, f)) => {
            assert(Seq::<IrModel>::empty() + tail =~= tail);
        },
        Err(_) => {},
    }
}

#[verifier::loop_isolation(false)]
fn visit(irs: &mut Vec<IR>, reg_map: &mut Vec<Option<usize>>, used: &mut Vec<bool>) -> (r: Result<
    (),
    CompileError,
>)
    requires
        old(used)@.len() == NUM_REGS,
    ensures
        match spec_visit(irs_model(old(irs)@), state_of(old(reg_map)@, old(used)@)) {
            Ok((out, st)) => r == Ok::<(), CompileError>(()) && irs_model(final(irs)@) == out
                && state_of(final(reg_map)@, final(used)@) == st,
            Err(AllocFailure::Exhausted) => r == Err::<(), CompileError>(
                CompileError::RegisterExhausted,
            ),
            Err(AllocFailure::Corrupt) => r matches Err(e) && e is Internal,
        },
{
    let ghost orig = irs_model(irs@);
    let ghost st0 = state_of(reg_map@, used@);
    proof {
        lemma_visit_empty_prefix(orig, st0);
        assert(irs_model(irs@).skip(0) =~= orig);
        assert(irs_model(irs@).take(0) =~= Seq::<IrModel>::empty());
    }
    let n = irs.len();
    let mut idx: usize = 0;
    while idx < n
        invariant
            used@.len() == NUM_REGS,
            idx <= n,
            irs@.len() == n,
            forall|j: int| idx <= j < n ==> irs@[j] == old(irs)@[j],
            spec_visit(orig, st0) == (match spec_visit(
                irs_model(irs@).skip(idx as int),
                state_of(reg_map@, used@),
            ) {
                Ok((tail, stf)) => Ok::<_, AllocFailure>(
                    (irs_model(irs@).take(idx as int) + tail, stf),
                ),
                Err(e) => Err(e),
            }),
        decreases n - idx,
    {
        let ghost pre_models = irs_model(irs@);
        let ghost pre_irs = irs@;
        let ghost st_pre = state_of(reg_map@, used@);
        let ghost cur = pre_models[idx as int];
        proof {
            assert(pre_models.skip(idx as int)[0] == cur);
            assert(pre_models.skip(idx as int).drop_first() =~= pre_models.skip(idx as int + 1));
        }
        let op = irs[idx].op;
        let shape = irs[idx].get_irinfo().ty;
        match shape {
            IRInfoType::REG | IRInfoType::REG_IMN | IRInfoType::REG_LABEL => {
                let v = irs[idx].lhs;
                match alloc_reg(v, reg_map, used) {
                    Ok(p) => {
                        irs[idx].lhs = p;
                    },
                    Err(e) => {
                        return Err(e);
                    },
                }
            },
            IRInfoType::REG_REG => {
                let v = irs[idx].lhs;
                match alloc_reg(v, reg_map, used) {
                    Ok(p) => {
                        irs[idx].lhs = p;
                    },
                    Err(e) => {
                        return Err(e);
                    },
                }
                let w = irs[idx].rhs;
                match alloc_reg(w, reg_map, used) {
                    Ok(p) => {
                        irs[idx].rhs = p;
                    },
                    Err(e) => {
                        return Err(e);
                    },
                }
            },
            IRInfoType::CALL => {
                let v = irs[idx].lhs;
                match alloc_reg(v, reg_map, used) {
                    Ok(p) => {
                        irs[idx].lhs = p;
                    },
                    Err(e) => {
                        return Err(e);
                    },
                }
                let ghost st_args0 = state_of(reg_map@, used@);
                let ghost args0 = irs@[idx as int].args@;
                let ghost elem1 = irs@[idx as int];
                let na = irs[idx].args.len();
                let mut j: usize = 0;
                while j < na
                    invariant
                        used@.len() == NUM_REGS,
                        j <= na,
                        irs@.len() == n,
                        idx < n,
                        forall|k: int| 0 <= k < n && k != idx ==> irs@[k] == pre_irs[k],
                        irs@[idx as int].op == cur.op,
                        irs@[idx as int].lhs == elem1.lhs,
                        irs@[idx as int].rhs == cur.rhs,
                        irs@[idx as int].name@ == cur.name,
                        irs@[idx as int].args@.len() == na,
                        spec_alloc_args(st_args0, args0, 0) == spec_alloc_args(
                            state_of(reg_map@, used@),
                            irs@[idx as int].args@,
                            j as int,
                        ),
                    decreases na - j,
                {
                    let a = irs[idx].args[j];
                    let ghost pre_args = irs@[idx as int].args@;
                    match alloc_reg(a, reg_map, used) {
                        Ok(p) => {
                            irs[idx].args[j] = p;
                            proof {
                                assert(irs@[idx as int].args@ =~= pre_args.update(j as int, p));
                            }
                        },
                        Err(e) => {
                            return Err(e);
                        },
                    }
                    j += 1;
                }
            },
            _ => {},
        }
        if op == IRType::KILL {
            let v = irs[idx].lhs;
            let pm = if v < reg_map.len() {
                reg_map[v]
            } else {
                None
            };
            match pm {
                Some(p) => {
                    match kill(p, used) {
                        Ok(u) => {},
                        Err(e) => {
                            return Err(e);
                        },
                    }
                },
                None => {
                    return Err(
                        CompileError::Internal(String::from_str("kill of an unmapped register")),
                    );
                },
            }
            irs[idx].op = IRType::NOP;
        }
        proof {
            let new_models = irs_model(irs@);
            let st_now = state_of(reg_map@, used@);
            assert(spec_visit_ir(st_pre, cur) == Ok::<(AllocState, IrModel), AllocFailure>(
                (st_now, new_models[idx as int]),
            ));
            assert forall|k: int| 0 <= k < n && k != idx implies irs@[k] == pre_irs[k] by {}
            assert forall|k: int| 0 <= k < n && k != idx implies new_models[k] == pre_models[k] by {
                assert(irs@[k] == pre_irs[k]);
            }
            assert(new_models.take(idx as int) =~= pre_models.take(idx as int));
            assert(new_models.skip(idx as int + 1) =~= pre_models.skip(idx as int).drop_first());
            lemma_visit_step(
                pre_models.take(idx as int),
                pre_models.skip(idx as int),
                st_pre,
                st_now,
                new_models[idx as int],
            );
            assert(pre_models.take(idx as int).push(new_models[idx as int]) =~= new_models.take(
                idx as int + 1,
            ));
        }
        idx += 1;
    }
    proof {
        assert(irs_model(irs@).skip(n as int) =~= Seq::<IrModel>::empty());
        assert(irs_model(irs@).take(n as int) =~= irs_model(irs@));
    }
    Ok(())
}

/// Rewrite every function's virtual register ids to physical indices, in
/// place, each function independently. Returns the register-exhaustion error
/// when more than eight virtual registers are live at once, and an internal
/// error when a kill targets an unmapped or already-free register. On
/// failure the compilation is abandoned and the vector is left partially
/// rewritten: only the successful result is specified.
#[verifier::loop_isolation(false)]
pub fn alloc_regs(fns: &mut Vec<Function>) -> (r: Result<(), CompileError>)
    ensures
        match spec_alloc_regs(fns_model(old(fns)@)) {
            Ok(out) => r == Ok::<(), CompileError>(()) && fns_model(final(fns)@) == out,
            Err(AllocFailure::Exhausted) => r == Err::<(), CompileError>(
                CompileError::RegisterExhausted,
            ),
            Err(AllocFailure::Corrupt) => r matches Err(e) && e is Internal,
        },
{
    let ghost orig = fns_model(fns@);
    let mut out: Vec<Function> = Vec::new();
    proof {
        assert(fns_model(out@) =~= Seq::<FunctionModel>::empty());
    }
    while fns.len() > 0
        invariant
            spec_alloc_regs(orig) == (match spec_alloc_regs(fns_model(fns@)) {
                Ok(tail) => Ok::<Seq<FunctionModel>, AllocFailure>(fns_model(out@) + tail),
                Err(e) => Err(e),
            }),
        decreases fns@.len(),
    {
        let ghost pre_fns = fns_model(fns@);
        let mut f = fns.remove(0);
        proof {
            assert(fns_model(fns@) =~= pre_fns.drop_first());
            assert(f@ == pre_fns[0]);
        }
        let mut reg_map: Vec<Option<usize>> = Vec::new();
        let mut used: Vec<bool> = Vec::new();
        used.push(true);
        while used.len() < NUM_REGS
            invariant
                1 <= used@.len() <= NUM_REGS,
                used@[0] == true,
                forall|j: int| 1 <= j < used@.len() ==> used@[j] == false,
            decreases NUM_REGS - used@.len(),
        {
            used.push(false);
        }
        // Virtual id 0 is reserved: it is pre-bound to physical register 0,
        // the frame base, and is never killed.
        reg_map.push(Some(0));
        proof {
            assert(state_of(reg_map@, used@).map =~= init_alloc_state().map);
            assert(state_of(reg_map@, used@).used =~= init_alloc_state().used);
        }
        let ghost pre_f = f@;
        match visit(&mut f.irs, &mut reg_map, &mut used) {
            Ok(u) => {},
            Err(e) => {
                return Err(e);
            },
        }
        let ghost done = fns_model(out@);
        out.push(f);
        proof {
            assert(spec_alloc_fn(pre_fns[0]) == Ok::<FunctionModel, AllocFailure>(f@));
            assert(fns_model(out@) =~= done.push(f@));
            match spec_alloc_regs(fns_model(fns@)) {
                Ok(tail) => {
                    assert(done + (seq![f@] + tail) =~= done.push(f@) + tail);
                },
                Err(_) => {},
            }
        }
    }
    proof {
        assert(fns_model(fns@) =~= Seq::<FunctionModel>::empty());
        assert(fns_model(out@) + Seq::<FunctionModel>::empty() =~= fns_model(out@));
    }
    *fns = out;
    Ok(())
}

} // verus!
