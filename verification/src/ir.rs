//! IR generator: lowers each typed, offset-resolved function tree into a
//! linear instruction list over an unbounded virtual-register namespace.
//!
//! The whole lowering is modelled by the spec functions below
//! ([`spec_gen_ir`] and its helpers), which mirror the lowering rules: every
//! executable method is proved to compute exactly what the model says.

use vstd::prelude::*;

use crate::common::{CompileError, Function, FunctionModel, IR, IRType, IrModel, ND, Node, TY,
    fns_model, ir_model, irs_model, lemma_nodes_size_drop_first, lemma_nodes_size_elem, node_size,
    nodes_size, parse_usize, spec_parse_usize, spec_size_of};

verus! {

/// Generator state: the instructions emitted so far and the two per-function
/// monotonic counters (virtual registers start at 1; id 0 is the reserved
/// frame-base register).
pub struct GenState {
    pub code: Seq<IrModel>,
    pub regno: usize,
    pub label: usize,
}

/// `st` with one plain instruction appended.
pub open spec fn gpush(st: GenState, op: IRType, lhs: usize, rhs: usize) -> GenState {
    GenState { code: st.code.push(ir_model(op, lhs, rhs)), regno: st.regno, label: st.label }
}

/// Lower an lvalue to the register holding its address: a dereference lowers
/// its inner expression; a local variable takes a fresh register, copies the
/// frame base into it, and subtracts the variable's frame offset. Any other
/// shape is an internal error (`None`).
pub open spec fn spec_gen_lval(node: Node, st: GenState) -> Option<(GenState, usize)>
    decreases node_size(node), 0int,
{
    match node.op {
        ND::DEREF => match node.expr {
            Some(e) => spec_gen_expr(*e, st),
            None => None,
        },
        ND::LVAR => if st.regno == usize::MAX {
            None
        } else {
            let r = st.regno;
            let st1 = GenState { code: st.code, regno: (st.regno + 1) as usize, label: st.label };
            Some((gpush(gpush(st1, IRType::MOV, r, 0), IRType::SUB_IMM, r, node.offset), r))
        },
        _ => None,
    }
}

/// Lower a plain binary operation: left operand, right operand, the operation
/// into the left register, then kill the right register.
pub open spec fn spec_gen_binop(op: IRType, lhs: Node, rhs: Node, st: GenState) -> Option<
    (GenState, usize),
>
    decreases node_size(lhs) + node_size(rhs), 0int,
{
    match spec_gen_expr(lhs, st) {
        Some((st1, r1)) => match spec_gen_expr(rhs, st1) {
            Some((st2, r2)) => Some((gpush(gpush(st2, op, r1, r2), IRType::KILL, r2, 0), r1)),
            None => None,
        },
        None => None,
    }
}

/// Lower each call argument left to right, collecting the registers that hold
/// the argument values.
pub open spec fn spec_gen_args(args: Seq<Node>, st: GenState) -> Option<(GenState, Seq<usize>)>
    decreases nodes_size(args), 3int,
    via spec_gen_args_decreases
{
    if args.len() == 0 {
        Some((st, Seq::empty()))
    } else {
        match spec_gen_expr(args[0], st) {
            Some((st1, r)) => match spec_gen_args(args.drop_first(), st1) {
                Some((st2, rest)) => Some((st2, seq![r] + rest)),
                None => None,
            },
            None => None,
        }
    }
}

#[via_fn]
proof fn spec_gen_args_decreases(args: Seq<Node>, st: GenState) {
    if args.len() > 0 {
        lemma_nodes_size_elem(args, 0);
        lemma_nodes_size_drop_first(args);
    }
}

/// Append one kill per collected argument register, in order.
pub open spec fn spec_push_kills(st: GenState, regs: Seq<usize>, i: int) -> GenState
    decreases regs.len() - i,
{
    if i < 0 || i >= regs.len() {
        st
    } else {
        spec_push_kills(gpush(st, IRType::KILL, regs[i], 0), regs, i + 1)
    }
}

/// The typed-load opcode for a value of source type `t`.
pub open spec fn load_op(t: TY) -> IRType {
    match t {
        TY::CHAR => IRType::LOAD8,
        TY::INT => IRType::LOAD32,
        TY::PTR => IRType::LOAD64,
        TY::ARY => IRType::LOAD64,
    }
}

/// The typed-store opcode for a value of source type `t`.
pub open spec fn store_op(t: TY) -> IRType {
    match t {
        TY::CHAR => IRType::STORE8,
        TY::INT => IRType::STORE32,
        TY::PTR => IRType::STORE64,
        TY::ARY => IRType::STORE64,
    }
}

/// Lower an expression to the register holding its value, per the lowering
/// rules: literals load an immediate into a fresh register; variable reads
/// address-lower then load at the variable's width; a dereference lowers its
/// operand to an address and loads in place at the pointee's width (the
/// dereference node's own resolved type); logical operators
/// short-circuit through fresh labels and clamp to 1; calls lower their
/// arguments, emit one call instruction, then kill the argument registers;
/// assignment stores the right value through the left address and yields the
/// address register; pointer `+`/`-` scales the non-pointer operand by the
/// pointee size first. A tree shape with no rule, a malformed literal, or a
/// counter that would overflow is an internal failure (`None`).
pub open spec fn spec_gen_expr(node: Node, st: GenState) -> Option<(GenState, usize)>
    decreases node_size(node), 1int,
{
    match node.op {
        ND::NUM => match spec_parse_usize(node.val@) {
            Some(v) => if st.regno == usize::MAX {
                None
            } else {
                let r = st.regno;
                let st1 = GenState {
                    code: st.code,
                    regno: (st.regno + 1) as usize,
                    label: st.label,
                };
                Some((gpush(st1, IRType::IMM, r, v), r))
            },
            None => None,
        },
        ND::LVAR => match spec_gen_lval(node, st) {
            Some((st1, r)) => Some((gpush(st1, load_op(node.ty.ty), r, r), r)),
            None => None,
        },
        ND::LOGAND => match (node.lhs, node.rhs) {
            (Some(lb), Some(rb)) => if st.label == usize::MAX {
                None
            } else {
                let x = st.label;
                let st0 = GenState {
                    code: st.code,
                    regno: st.regno,
                    label: (st.label + 1) as usize,
                };
                match spec_gen_expr(*lb, st0) {
                    Some((st1, r1)) => {
                        let st2 = gpush(st1, IRType::UNLESS, r1, x);
                        match spec_gen_expr(*rb, st2) {
                            Some((st3, r2)) => {
                                let st4 = gpush(st3, IRType::MOV, r1, r2);
                                let st5 = gpush(st4, IRType::KILL, r2, 0);
                                let st6 = gpush(st5, IRType::UNLESS, r1, x);
                                let st7 = gpush(st6, IRType::IMM, r1, 1);
                                Some((gpush(st7, IRType::LABEL, x, 0), r1))
                            },
                            None => None,
                        }
                    },
                    None => None,
                }
            },
            _ => None,
        },
        ND::LOGOR => match (node.lhs, node.rhs) {
            (Some(lb), Some(rb)) => if st.label == usize::MAX {
                None
            } else {
                let x = st.label;
                let la = (st.label + 1) as usize;
                if la == usize::MAX {
                    None
                } else {
                    let y = la;
                    let st0 = GenState {
                        code: st.code,
                        regno: st.regno,
                        label: (la + 1) as usize,
                    };
                    match spec_gen_expr(*lb, st0) {
                        Some((st1, r1)) => {
                            let st2 = gpush(st1, IRType::UNLESS, r1, x);
                            let st3 = gpush(st2, IRType::IMM, r1, 1);
                            let st4 = gpush(st3, IRType::JMP, y, 0);
                            let st5 = gpush(st4, IRType::LABEL, x, 0);
                            match spec_gen_expr(*rb, st5) {
                                Some((st6, r2)) => {
                                    let st7 = gpush(st6, IRType::MOV, r1, r2);
                                    let st8 = gpush(st7, IRType::KILL, r2, 0);
                                    let st9 = gpush(st8, IRType::UNLESS, r1, y);
                                    let st10 = gpush(st9, IRType::IMM, r1, 1);
                                    Some((gpush(st10, IRType::LABEL, y, 0), r1))
                                },
                                None => None,
                            }
                        },
                        None => None,
                    }
                }
            },
            _ => None,
        },
        ND::CALL => match spec_gen_args(node.args@, st) {
            Some((st1, regs)) => if st1.regno == usize::MAX {
                None
            } else {
                let r = st1.regno;
                let st2 = GenState {
                    code: st1.code,
                    regno: (st1.regno + 1) as usize,
                    label: st1.label,
                };
                let call_ir = IrModel {
                    op: IRType::CALL,
                    lhs: r,
                    rhs: 0,
                    name: node.val@,
                    args: regs,
                };
                let st3 = GenState {
                    code: st2.code.push(call_ir),
                    regno: st2.regno,
                    label: st2.label,
                };
                Some((spec_push_kills(st3, regs, 0), r))
            },
            None => None,
        },
        ND::ADDR => match node.expr {
            Some(e) => spec_gen_lval(*e, st),
            None => None,
        },
        ND::DEREF => match node.expr {
            Some(e) => match spec_gen_expr(*e, st) {
                Some((st1, r)) => Some((gpush(st1, load_op(node.ty.ty), r, r), r)),
                None => None,
            },
            None => None,
        },
        ND::OPE('=') => match (node.lhs, node.rhs) {
            (Some(lb), Some(rb)) => match spec_gen_expr(*rb, st) {
                Some((st1, rhs_r)) => match spec_gen_lval(*lb, st1) {
                    Some((st2, lhs_r)) => {
                        let st3 = gpush(st2, store_op(node.ty.ty), lhs_r, rhs_r);
                        Some((gpush(st3, IRType::KILL, rhs_r, 0), lhs_r))
                    },
                    None => None,
                },
                None => None,
            },
            _ => None,
        },
        ND::OPE('<') => match (node.lhs, node.rhs) {
            (Some(lb), Some(rb)) => spec_gen_binop(IRType::LT, *lb, *rb, st),
            _ => None,
        },
        ND::OPE('+') | ND::OPE('-') => match (node.lhs, node.rhs) {
            (Some(lb), Some(rb)) => {
                let insn = if node.op == ND::OPE('+') {
                    IRType::ADD
                } else {
                    IRType::SUB
                };
                if lb.ty.ty != TY::PTR {
                    spec_gen_binop(insn, *lb, *rb, st)
                } else {
                    match spec_gen_expr(*rb, st) {
                        Some((st1, rhs_r)) => if st1.regno == usize::MAX {
                            None
                        } else {
                            let r = st1.regno;
                            let st2 = GenState {
                                code: st1.code,
                                regno: (st1.regno + 1) as usize,
                                label: st1.label,
                            };
                            match lb.ty.ptr_of {
                                Some(p) => match spec_size_of(*p) {
                                    Some(sz) => {
                                        let st3 = gpush(st2, IRType::IMM, r, sz as usize);
                                        let st4 = gpush(st3, IRType::MUL, rhs_r, r);
                                        let st5 = gpush(st4, IRType::KILL, r, 0);
                                        match spec_gen_expr(*lb, st5) {
                                            Some((st6, lhs_r)) => {
                                                let st7 = gpush(st6, insn, lhs_r, rhs_r);
                                                Some(
                                                    (gpush(st7, IRType::KILL, rhs_r, 0), lhs_r),
                                                )
                                            },
                                            None => None,
                                        }
                                    },
                                    None => None,
                                },
                                None => None,
                            }
                        },
                        None => None,
                    }
                }
            },
            _ => None,
        },
        ND::OPE('*') => match (node.lhs, node.rhs) {
            (Some(lb), Some(rb)) => spec_gen_binop(IRType::MUL, *lb, *rb, st),
            _ => None,
        },
        ND::OPE('/') => match (node.lhs, node.rhs) {
            (Some(lb), Some(rb)) => spec_gen_binop(IRType::DIV, *lb, *rb, st),
            _ => None,
        },
        _ => None,
    }
}

/// Lower a statement. Declarations with an initializer store the value into
/// the variable's frame slot at the declared width; `if` and `for` branch
/// through fresh labels;
/// `return` emits a return of the value register; every temporary the
/// statement produced is killed before it ends.
pub open spec fn spec_gen_stmt(node: Node, st: GenState) -> Option<GenState>
    decreases node_size(node), 2int,
{
    match node.op {
        ND::VARDEF => match node.init {
            None => Some(st),
            Some(ib) => match spec_gen_expr(*ib, st) {
                Some((st1, rhs_r)) => if st1.regno == usize::MAX {
                    None
                } else {
                    let lhs_r = st1.regno;
                    let st2 = GenState {
                        code: st1.code,
                        regno: (st1.regno + 1) as usize,
                        label: st1.label,
                    };
                    let st3 = gpush(st2, IRType::MOV, lhs_r, 0);
                    let st4 = gpush(st3, IRType::SUB_IMM, lhs_r, node.offset);
                    let st5 = gpush(st4, store_op(node.ty.ty), lhs_r, rhs_r);
                    let st6 = gpush(st5, IRType::KILL, lhs_r, 0);
                    Some(gpush(st6, IRType::KILL, rhs_r, 0))
                },
                None => None,
            },
        },
        ND::IF => match (node.cond, node.thn) {
            (Some(cb), Some(tb)) => if st.label == usize::MAX {
                None
            } else {
                let x = st.label;
                let stl = GenState {
                    code: st.code,
                    regno: st.regno,
                    label: (st.label + 1) as usize,
                };
                match node.els {
                    Some(eb) => if stl.label == usize::MAX {
                        None
                    } else {
                        let y = stl.label;
                        let stl2 = GenState {
                            code: stl.code,
                            regno: stl.regno,
                            label: (stl.label + 1) as usize,
                        };
                        match spec_gen_expr(*cb, stl2) {
                            Some((st1, r)) => {
                                let st2 = gpush(st1, IRType::UNLESS, r, x);
                                let st3 = gpush(st2, IRType::KILL, r, 0);
                                match spec_gen_stmt(*tb, st3) {
                                    Some(st4) => {
                                        let st5 = gpush(st4, IRType::JMP, y, 0);
                                        let st6 = gpush(st5, IRType::LABEL, x, 0);
                                        match spec_gen_stmt(*eb, st6) {
                                            Some(st7) => Some(gpush(st7, IRType::LABEL, y, 0)),
                                            None => None,
                                        }
                                    },
                                    None => None,
                                }
                            },
                            None => None,
                        }
                    },
                    None => match spec_gen_expr(*cb, stl) {
                        Some((st1, r)) => {
                            let st2 = gpush(st1, IRType::UNLESS, r, x);
                            let st3 = gpush(st2, IRType::KILL, r, 0);
                            match spec_gen_stmt(*tb, st3) {
                                Some(st4) => Some(gpush(st4, IRType::LABEL, x, 0)),
                                None => None,
                            }
                        },
                        None => None,
                    },
                }
            },
            _ => None,
        },
        ND::FOR => match (node.init, node.cond, node.inc, node.body) {
            (Some(ib), Some(cb), Some(incb), Some(bb)) => if st.label == usize::MAX {
                None
            } else {
                let x = st.label;
                let la = (st.label + 1) as usize;
                if la == usize::MAX {
                    None
                } else {
                    let y = la;
                    let st0 = GenState {
                        code: st.code,
                        regno: st.regno,
                        label: (la + 1) as usize,
                    };
                    match spec_gen_stmt(*ib, st0) {
                        Some(st1) => {
                            let st2 = gpush(st1, IRType::LABEL, x, 0);
                            match spec_gen_expr(*cb, st2) {
                                Some((st3, r2)) => {
                                    let st4 = gpush(st3, IRType::UNLESS, r2, y);
                                    let st5 = gpush(st4, IRType::KILL, r2, 0);
                                    match spec_gen_stmt(*bb, st5) {
                                        Some(st6) => match spec_gen_expr(*incb, st6) {
                                            Some((st7, r3)) => {
                                                let st8 = gpush(st7, IRType::KILL, r3, 0);
                                                let st9 = gpush(st8, IRType::JMP, x, 0);
                                                Some(gpush(st9, IRType::LABEL, y, 0))
                                            },
                                            None => None,
                                        },
                                        None => None,
                                    }
                                },
                                None => None,
                            }
                        },
                        None => None,
                    }
                }
            },
            _ => None,
        },
        ND::RETURN => match node.expr {
            Some(e) => match spec_gen_expr(*e, st) {
                Some((st1, r)) => Some(
                    gpush(gpush(st1, IRType::RETURN, r, 0), IRType::KILL, r, 0),
                ),
                None => None,
            },
            None => None,
        },
        ND::EXPR_STMT => match node.expr {
            Some(e) => match spec_gen_expr(*e, st) {
                Some((st1, r)) => Some(gpush(st1, IRType::KILL, r, 0)),
                None => None,
            },
            None => None,
        },
        ND::COMP_STMT => spec_gen_stmts(node.stmts@, st),
        _ => None,
    }
}

/// Lower a sequence of statements in order.
pub open spec fn spec_gen_stmts(stmts: Seq<Node>, st: GenState) -> Option<GenState>
    decreases nodes_size(stmts), 3int,
    via spec_gen_stmts_decreases
{
    if stmts.len() == 0 {
        Some(st)
    } else {
        match spec_gen_stmt(stmts[0], st) {
            Some(st1) => spec_gen_stmts(stmts.drop_first(), st1),
            None => None,
        }
    }
}

#[via_fn]
proof fn spec_gen_stmts_decreases(stmts: Seq<Node>, st: GenState) {
    if stmts.len() > 0 {
        lemma_nodes_size_elem(stmts, 0);
        lemma_nodes_size_drop_first(stmts);
    }
}

/// Emit the argument-store prologue of a function: each incoming argument is
/// stored into its parameter's frame slot at the parameter's declared width.
pub open spec fn spec_store_args(args: Seq<Node>, i: int, st: GenState) -> GenState
    decreases args.len() - i,
{
    if i < 0 || i >= args.len() {
        st
    } else {
        let op = match args[i].ty.ty {
            TY::CHAR => IRType::STORE8_ARG,
            TY::INT => IRType::STORE32_ARG,
            TY::PTR => IRType::STORE64_ARG,
            TY::ARY => IRType::STORE64_ARG,
        };
        spec_store_args(args, i + 1, gpush(st, op, args[i].offset, i as usize))
    }
}

/// Lower one function definition: the counters reset (registers restart at 1,
/// labels at 0), the argument stores come first, then the lowered body.
pub open spec fn spec_gen_func(node: Node) -> Option<FunctionModel> {
    if node.op != ND::FUNC {
        None
    } else {
        match node.body {
            Some(b) => {
                let st0 = GenState { code: Seq::empty(), regno: 1, label: 0 };
                let st1 = spec_store_args(node.args@, 0, st0);
                match spec_gen_stmt(*b, st1) {
                    Some(st2) => Some(
                        FunctionModel {
                            name: node.val@,
                            irs: st2.code,
                            stack_size: node.stack_size,
                        },
                    ),
                    None => None,
                }
            },
            None => None,
        }
    }
}

/// Lower every function tree, in order; each function is independent of all
/// others.
pub open spec fn spec_gen_ir(nodes: Seq<Node>) -> Option<Seq<FunctionModel>>
    decreases nodes.len(),
{
    if nodes.len() == 0 {
        Some(Seq::empty())
    } else {
        match spec_gen_func(nodes[0]) {
            Some(f) => match spec_gen_ir(nodes.drop_first()) {
                Some(rest) => Some(seq![f] + rest),
                None => None,
            },
            None => None,
        }
    }
}

/// Composing collected argument registers with the remaining arguments is
/// unchanged by lowering one more argument.
proof fn lemma_gen_args_step(
    done: Seq<usize>,
    args: Seq<Node>,
    st: GenState,
    st2: GenState,
    r: usize,
)
    requires
        args.len() > 0,
        spec_gen_expr(args[0], st) == Some::<(GenState, usize)>((st2, r)),
    ensures
        (match spec_gen_args(args, st) {
            Some((sf, rest)) => Some::<(GenState, Seq<usize>)>((sf, done + rest)),
            None => None,
        }) == (match spec_gen_args(args.drop_first(), st2) {
            Some((sf, rest)) => Some::<(GenState, Seq<usize>)>((sf, done.push(r) + rest)),
            None => None,
        }),
{
    match spec_gen_args(args.drop_first(), st2) {
        Some((sf, rest)) => {
            assert(done + (seq![r] + rest) =~= done.push(r) + rest);
        },
        None => {},
    }
}

/// An empty collected prefix composes to the plain lowering of the arguments.
proof fn lemma_gen_args_empty_prefix(args: Seq<Node>, st: GenState)
    ensures
        spec_gen_args(args, st) == (match spec_gen_args(args, st) {
            Some((sf, rest)) => Some::<(GenState, Seq<usize>)>(
                (sf, Seq::<usize>::empty() + rest),
            ),
            None => None,
        }),
{
    match spec_gen_args(args, st) {
        Some((sf, rest)) => {
            assert(Seq::<usize>::empty() + rest =~= rest);
        },
        None => {},
    }
}

/// Composing lowered functions with the remaining trees is unchanged by
/// lowering one more function.
proof fn lemma_gen_ir_step(done: Seq<FunctionModel>, nodes: Seq<Node>, f: FunctionModel)
    requires
        nodes.len() > 0,
        spec_gen_func(nodes[0]) == Some::<FunctionModel>(f),
    ensures
        (match spec_gen_ir(nodes) {
            Some(rest) => Some::<Seq<FunctionModel>>(done + rest),
            None => None,
        }) == (match spec_gen_ir(nodes.drop_first()) {
            Some(rest) => Some::<Seq<FunctionModel>>(done.push(f) + rest),
            None => None,
        }),
{
    match spec_gen_ir(nodes.drop_first()) {
        Some(rest) => {
            assert(done + (seq![f] + rest) =~= done.push(f) + rest);
        },
        None => {},
    }
}

/// An empty lowered prefix composes to the plain lowering of the trees.
proof fn lemma_gen_ir_empty_prefix(nodes: Seq<Node>)
    ensures
        spec_gen_ir(nodes) == (match spec_gen_ir(nodes) {
            Some(rest) => Some::<Seq<FunctionModel>>(Seq::<FunctionModel>::empty() + rest),
            None => None,
        }),
{
    match spec_gen_ir(nodes) {
        Some(rest) => {
            assert(Seq::<FunctionModel>::empty() + rest =~= rest);
        },
        None => {},
    }
}

/// The IR generator: the instruction list being built for the current
/// function and the per-function virtual-register and label counters.
pub struct IrGenerator {
    code: Vec<IR>,
    regno: usize,
    label: usize,
}

impl View for IrGenerator {
    type V = GenState;

    closed spec fn view(&self) -> GenState {
        GenState { code: irs_model(self.code@), regno: self.regno, label: self.label }
    }
}

impl IrGenerator {
    /// A fresh generator: no instructions, registers starting at 1 (id 0 is
    /// the reserved frame base), labels starting at 0.
    pub fn new() -> (r: IrGenerator)
        ensures
            r@ == (GenState { code: Seq::<IrModel>::empty(), regno: 1usize, label: 0usize }),
    {
        let r = IrGenerator { code: Vec::new(), regno: 1, label: 0 };
        proof {
            assert(irs_model(r.code@) =~= Seq::<IrModel>::empty());
        }
        r
    }

    /// Append one plain instruction.
    fn add(&mut self, op: IRType, lhs: usize, rhs: usize)
        ensures
            final(self)@ == gpush(old(self)@, op, lhs, rhs),
    {
        let ghost pre = self.code@;
        self.code.push(IR { op, lhs, rhs, name: String::new(), args: Vec::new() });
        proof {
            assert(irs_model(self.code@) =~= irs_model(pre).push(ir_model(op, lhs, rhs)));
        }
    }

    /// Append a kill of register `r`.
    fn kill(&mut self, r: usize)
        ensures
            final(self)@ == gpush(old(self)@, IRType::KILL, r, 0),
    {
        self.add(IRType::KILL, r, 0);
    }

    /// Append a definition of label `x`.
    fn label(&mut self, x: usize)
        ensures
            final(self)@ == gpush(old(self)@, IRType::LABEL, x, 0),
    {
        self.add(IRType::LABEL, x, 0);
    }

    /// Take a fresh virtual register id from the per-function counter.
    fn fresh_reg(&mut self) -> (r: Result<usize, CompileError>)
        ensures
            old(self)@.regno == usize::MAX ==> (r matches Err(e) && e is Internal) && *final(self)
                == *old(self),
            old(self)@.regno != usize::MAX ==> r == Ok::<usize, CompileError>(old(self)@.regno)
                && final(self)@ == (GenState {
                code: old(self)@.code,
                regno: (old(self)@.regno + 1) as usize,
                label: old(self)@.label,
            }),
    {
        if self.regno == usize::MAX {
            return Err(CompileError::Internal(String::from_str("virtual register ids exhausted")));
        }
        let r = self.regno;
        self.regno = self.regno + 1;
        Ok(r)
    }

    /// Take a fresh label id from the per-function counter.
    fn fresh_label(&mut self) -> (r: Result<usize, CompileError>)
        ensures
            old(self)@.label == usize::MAX ==> (r matches Err(e) && e is Internal) && *final(self)
                == *old(self),
            old(self)@.label != usize::MAX ==> r == Ok::<usize, CompileError>(old(self)@.label)
                && final(self)@ == (GenState {
                code: old(self)@.code,
                regno: old(self)@.regno,
                label: (old(self)@.label + 1) as usize,
            }),
    {
        if self.label == usize::MAX {
            return Err(CompileError::Internal(String::from_str("label ids exhausted")));
        }
        let x = self.label;
        self.label = self.label + 1;
        Ok(x)
    }

    /// Lower an lvalue to the register holding its address.
    fn gen_lval(&mut self, node: Node) -> (r: Result<usize, CompileError>)
        ensures
            match spec_gen_lval(node, old(self)@) {
                Some((st, reg)) => r == Ok::<usize, CompileError>(reg) && final(self)@ == st,
                None => r matches Err(e) && e is Internal,
            },
        decreases node_size(node), 0int,
    {
        if let ND::DEREF = node.op {
            return match node.expr {
                Some(e) => self.gen_expr(*e),
                None => Err(
                    CompileError::Internal(String::from_str("dereference without an operand")),
                ),
            };
        }
        if let ND::LVAR = node.op {
            let r = match self.fresh_reg() {
                Ok(r) => r,
                Err(e) => {
                    return Err(e);
                },
            };
            self.add(IRType::MOV, r, 0);
            self.add(IRType::SUB_IMM, r, node.offset);
            return Ok(r);
        }
        Err(CompileError::Internal(String::from_str("not an lvalue")))
    }

    /// Lower a plain binary operation.
    fn gen_binop(&mut self, ty: IRType, lhs: Node, rhs: Node) -> (r: Result<usize, CompileError>)
        ensures
            match spec_gen_binop(ty, lhs, rhs, old(self)@) {
                Some((st, reg)) => r == Ok::<usize, CompileError>(reg) && final(self)@ == st,
                None => r matches Err(e) && e is Internal,
            },
        decreases node_size(lhs) + node_size(rhs), 0int,
    {
        let r1 = match self.gen_expr(lhs) {
            Ok(r1) => r1,
            Err(e) => {
                return Err(e);
            },
        };
        let r2 = match self.gen_expr(rhs) {
            Ok(r2) => r2,
            Err(e) => {
                return Err(e);
            },
        };
        self.add(ty, r1, r2);
        self.kill(r2);
        Ok(r1)
    }

    /// Lower an expression to the register holding its value.
    #[verifier::loop_isolation(false)]
    fn gen_expr(&mut self, node: Node) -> (r: Result<usize, CompileError>)
        ensures
            match spec_gen_expr(node, old(self)@) {
                Some((st, reg)) => r == Ok::<usize, CompileError>(reg) && final(self)@ == st,
                None => r matches Err(e) && e is Internal,
            },
        decreases node_size(node), 1int,
    {
        let ghost node0 = node;
        match node.op {
            ND::NUM => {
                match parse_usize(&node.val) {
                    Some(v) => {
                        let r = match self.fresh_reg() {
                            Ok(r) => r,
                            Err(e) => {
                                return Err(e);
                            },
                        };
                        self.add(IRType::IMM, r, v);
                        Ok(r)
                    },
                    None => Err(
                        CompileError::Internal(String::from_str("malformed numeric literal")),
                    ),
                }
            },
            ND::LVAR => {
                let tyty = node.ty.ty;
                let r = match self.gen_lval(node) {
                    Ok(r) => r,
                    Err(e) => {
                        return Err(e);
                    },
                };
                match tyty {
                    TY::CHAR => self.add(IRType::LOAD8, r, r),
                    TY::INT => self.add(IRType::LOAD32, r, r),
                    TY::PTR => self.add(IRType::LOAD64, r, r),
                    TY::ARY => self.add(IRType::LOAD64, r, r),
                }
                Ok(r)
            },
            ND::LOGAND => {
                let (lb, rb) = match (node.lhs, node.rhs) {
                    (Some(lb), Some(rb)) => (lb, rb),
                    _ => {
                        return Err(
                            CompileError::Internal(
                                String::from_str("logical and without operands"),
                            ),
                        );
                    },
                };
                let x = match self.fresh_label() {
                    Ok(x) => x,
                    Err(e) => {
                        return Err(e);
                    },
                };
                let r1 = match self.gen_expr(*lb) {
                    Ok(r1) => r1,
                    Err(e) => {
                        return Err(e);
                    },
                };
                self.add(IRType::UNLESS, r1, x);
                let r2 = match self.gen_expr(*rb) {
                    Ok(r2) => r2,
                    Err(e) => {
                        return Err(e);
                    },
                };
                self.add(IRType::MOV, r1, r2);
                self.kill(r2);
                self.add(IRType::UNLESS, r1, x);
                self.add(IRType::IMM, r1, 1);
                self.label(x);
                Ok(r1)
            },
            ND::LOGOR => {
                let (lb, rb) = match (node.lhs, node.rhs) {
                    (Some(lb), Some(rb)) => (lb, rb),
                    _ => {
                        return Err(
                            CompileError::Internal(String::from_str("logical or without operands")),
                        );
                    },
                };
                let x = match self.fresh_label() {
                    Ok(x) => x,
                    Err(e) => {
                        return Err(e);
                    },
                };
                let y = match self.fresh_label() {
                    Ok(y) => y,
                    Err(e) => {
                        return Err(e);
                    },
                };
                let r1 = match self.gen_expr(*lb) {
                    Ok(r1) => r1,
                    Err(e) => {
                        return Err(e);
                    },
                };
                self.add(IRType::UNLESS, r1, x);
                self.add(IRType::IMM, r1, 1);
                self.add(IRType::JMP, y, 0);
                self.label(x);
                let r2 = match self.gen_expr(*rb) {
                    Ok(r2) => r2,
                    Err(e) => {
                        return Err(e);
                    },
                };
                self.add(IRType::MOV, r1, r2);
                self.kill(r2);
                self.add(IRType::UNLESS, r1, y);
                self.add(IRType::IMM, r1, 1);
                self.label(y);
                Ok(r1)
            },
            ND::CALL => {
                let mut rest = node.args;
                let name = node.val;
                let ghost st_in = self@;
                let ghost all_args = rest@;
                let mut regs: Vec<usize> = Vec::new();
                let mut kill_list: Vec<usize> = Vec::new();
                proof {
                    lemma_gen_args_empty_prefix(all_args, st_in);
                    assert(regs@ =~= Seq::<usize>::empty());
                }
                while rest.len() > 0
                    invariant
                        nodes_size(rest@) <= nodes_size(node0.args@),
                        kill_list@ == regs@,
                        spec_gen_args(all_args, st_in) == (match spec_gen_args(rest@, self@) {
                            Some((sf, tail)) => Some::<(GenState, Seq<usize>)>(
                                (sf, regs@ + tail),
                            ),
                            None => None,
                        }),
                    decreases rest@.len(),
                {
                    let ghost pre_rest = rest@;
                    let a = rest.remove(0);
                    proof {
                        assert(rest@ =~= pre_rest.drop_first());
                        lemma_nodes_size_elem(pre_rest, 0);
                        lemma_nodes_size_drop_first(pre_rest);
                        assert(nodes_size(node0.args@) < node_size(node0));
                    }
                    let ghost st_a = self@;
                    let r = match self.gen_expr(a) {
                        Ok(r) => r,
                        Err(e) => {
                            return Err(e);
                        },
                    };
                    proof {
                        lemma_gen_args_step(regs@, pre_rest, st_a, self@, r);
                    }
                    regs.push(r);
                    kill_list.push(r);
                }
                let r = match self.fresh_reg() {
                    Ok(r) => r,
                    Err(e) => {
                        return Err(e);
                    },
                };
                let nregs = kill_list.len();
                let ghost collected = regs@;
                let ghost pre_call = self.code@;
                self.code.push(IR { op: IRType::CALL, lhs: r, rhs: 0, name, args: regs });
                proof {
                    assert(irs_model(self.code@) =~= irs_model(pre_call).push(
                        IrModel {
                            op: IRType::CALL,
                            lhs: r,
                            rhs: 0,
                            name: node0.val@,
                            args: collected,
                        },
                    ));
                }
                let ghost st_call = self@;
                let mut j: usize = 0;
                while j < nregs
                    invariant
                        j <= nregs,
                        nregs == collected.len(),
                        kill_list@ == collected,
                        spec_push_kills(st_call, collected, 0) == spec_push_kills(
                            self@,
                            collected,
                            j as int,
                        ),
                    decreases nregs - j,
                {
                    let kr = kill_list[j];
                    self.kill(kr);
                    j += 1;
                }
                Ok(r)
            },
            ND::ADDR => match node.expr {
                Some(e) => self.gen_lval(*e),
                None => Err(
                    CompileError::Internal(String::from_str("address-of without an operand")),
                ),
            },
            ND::DEREF => match node.expr {
                Some(e) => {
                    let tyty = node.ty.ty;
                    let r = match self.gen_expr(*e) {
                        Ok(r) => r,
                        Err(e2) => {
                            return Err(e2);
                        },
                    };
                    match tyty {
                        TY::CHAR => self.add(IRType::LOAD8, r, r),
                        TY::INT => self.add(IRType::LOAD32, r, r),
                        TY::PTR => self.add(IRType::LOAD64, r, r),
                        TY::ARY => self.add(IRType::LOAD64, r, r),
                    }
                    Ok(r)
                },
                None => Err(
                    CompileError::Internal(String::from_str("dereference without an operand")),
                ),
            },
            ND::OPE('=') => {
                let (lb, rb) = match (node.lhs, node.rhs) {
                    (Some(lb), Some(rb)) => (lb, rb),
                    _ => {
                        return Err(
                            CompileError::Internal(String::from_str("assignment without operands")),
                        );
                    },
                };
                let rhs_r = match self.gen_expr(*rb) {
                    Ok(r) => r,
                    Err(e) => {
                        return Err(e);
                    },
                };
                let lhs_r = match self.gen_lval(*lb) {
                    Ok(r) => r,
                    Err(e) => {
                        return Err(e);
                    },
                };
                match node.ty.ty {
                    TY::CHAR => self.add(IRType::STORE8, lhs_r, rhs_r),
                    TY::INT => self.add(IRType::STORE32, lhs_r, rhs_r),
                    TY::PTR => self.add(IRType::STORE64, lhs_r, rhs_r),
                    TY::ARY => self.add(IRType::STORE64, lhs_r, rhs_r),
                }
                self.kill(rhs_r);
                Ok(lhs_r)
            },
            ND::OPE('<') => {
                match (node.lhs, node.rhs) {
                    (Some(lb), Some(rb)) => self.gen_binop(IRType::LT, *lb, *rb),
                    _ => Err(
                        CompileError::Internal(String::from_str("comparison without operands")),
                    ),
                }
            },
            ND::OPE('+') | ND::OPE('-') => {
                let insn = if matches!(node.op, ND::OPE('+')) {
                    IRType::ADD
                } else {
                    IRType::SUB
                };
                let (lb, rb) = match (node.lhs, node.rhs) {
                    (Some(lb), Some(rb)) => (lb, rb),
                    _ => {
                        return Err(
                            CompileError::Internal(String::from_str("addition without operands")),
                        );
                    },
                };
                if !matches!(lb.ty.ty, TY::PTR) {
                    return self.gen_binop(insn, *lb, *rb);
                }
                let rhs_r = match self.gen_expr(*rb) {
                    Ok(r) => r,
                    Err(e) => {
                        return Err(e);
                    },
                };
                let r = match self.fresh_reg() {
                    Ok(r) => r,
                    Err(e) => {
                        return Err(e);
                    },
                };
                let sz = match &lb.ty.ptr_of {
                    Some(p) => match p.size_of() {
                        Some(sz) => sz,
                        None => {
                            return Err(
                                CompileError::Internal(
                                    String::from_str("pointee size does not fit"),
                                ),
                            );
                        },
                    },
                    None => {
                        return Err(
                            CompileError::Internal(String::from_str("pointer with no pointee type")),
                        );
                    },
                };
                self.add(IRType::IMM, r, sz);
                self.add(IRType::MUL, rhs_r, r);
                self.kill(r);
                let lhs_r = match self.gen_expr(*lb) {
                    Ok(r2) => r2,
                    Err(e) => {
                        return Err(e);
                    },
                };
                self.add(insn, lhs_r, rhs_r);
                self.kill(rhs_r);
                Ok(lhs_r)
            },
            ND::OPE('*') => {
                match (node.lhs, node.rhs) {
                    (Some(lb), Some(rb)) => self.gen_binop(IRType::MUL, *lb, *rb),
                    _ => Err(
                        CompileError::Internal(String::from_str("multiplication without operands")),
                    ),
                }
            },
            ND::OPE('/') => {
                match (node.lhs, node.rhs) {
                    (Some(lb), Some(rb)) => self.gen_binop(IRType::DIV, *lb, *rb),
                    _ => Err(CompileError::Internal(String::from_str("division without operands"))),
                }
            },
            _ => Err(CompileError::Internal(String::from_str("unexpected expression node"))),
        }
    }

    /// Lower a statement.
    #[verifier::loop_isolation(false)]
    fn gen_stmt(&mut self, node: Node) -> (r: Result<(), CompileError>)
        ensures
            match spec_gen_stmt(node, old(self)@) {
                Some(st) => r == Ok::<(), CompileError>(()) && final(self)@ == st,
                None => r matches Err(e) && e is Internal,
            },
        decreases node_size(node), 2int,
    {
        let ghost node0 = node;
        match node.op {
            ND::VARDEF => {
                let ib = match node.init {
                    None => {
                        return Ok(());
                    },
                    Some(ib) => ib,
                };
                let rhs_r = match self.gen_expr(*ib) {
                    Ok(r) => r,
                    Err(e) => {
                        return Err(e);
                    },
                };
                let lhs_r = match self.fresh_reg() {
                    Ok(r) => r,
                    Err(e) => {
                        return Err(e);
                    },
                };
                self.add(IRType::MOV, lhs_r, 0);
                self.add(IRType::SUB_IMM, lhs_r, node.offset);
                match node.ty.ty {
                    TY::CHAR => self.add(IRType::STORE8, lhs_r, rhs_r),
                    TY::INT => self.add(IRType::STORE32, lhs_r, rhs_r),
                    TY::PTR => self.add(IRType::STORE64, lhs_r, rhs_r),
                    TY::ARY => self.add(IRType::STORE64, lhs_r, rhs_r),
                }
                self.kill(lhs_r);
                self.kill(rhs_r);
                Ok(())
            },
            ND::IF => {
                let (cb, tb) = match (node.cond, node.thn) {
                    (Some(cb), Some(tb)) => (cb, tb),
                    _ => {
                        return Err(
                            CompileError::Internal(
                                String::from_str("conditional without a condition or branch"),
                            ),
                        );
                    },
                };
                let x = match self.fresh_label() {
                    Ok(x) => x,
                    Err(e) => {
                        return Err(e);
                    },
                };
                match node.els {
                    Some(eb) => {
                        let y = match self.fresh_label() {
                            Ok(y) => y,
                            Err(e) => {
                                return Err(e);
                            },
                        };
                        let r = match self.gen_expr(*cb) {
                            Ok(r) => r,
                            Err(e) => {
                                return Err(e);
                            },
                        };
                        self.add(IRType::UNLESS, r, x);
                        self.kill(r);
                        match self.gen_stmt(*tb) {
                            Ok(u) => {},
                            Err(e) => {
                                return Err(e);
                            },
                        }
                        self.add(IRType::JMP, y, 0);
                        self.label(x);
                        match self.gen_stmt(*eb) {
                            Ok(u) => {},
                            Err(e) => {
                                return Err(e);
                            },
                        }
                        self.label(y);
                        Ok(())
                    },
                    None => {
                        let r = match self.gen_expr(*cb) {
                            Ok(r) => r,
                            Err(e) => {
                                return Err(e);
                            },
                        };
                        self.add(IRType::UNLESS, r, x);
                        self.kill(r);
                        match self.gen_stmt(*tb) {
                            Ok(u) => {},
                            Err(e) => {
                                return Err(e);
                            },
                        }
                        self.label(x);
                        Ok(())
                    },
                }
            },
            ND::FOR => {
                let (ib, cb, incb, bb) = match (node.init, node.cond, node.inc, node.body) {
                    (Some(ib), Some(cb), Some(incb), Some(bb)) => (ib, cb, incb, bb),
                    _ => {
                        return Err(
                            CompileError::Internal(String::from_str("loop without its clauses")),
                        );
                    },
                };
                let x = match self.fresh_label() {
                    Ok(x) => x,
                    Err(e) => {
                        return Err(e);
                    },
                };
                let y = match self.fresh_label() {
                    Ok(y) => y,
                    Err(e) => {
                        return Err(e);
                    },
                };
                match self.gen_stmt(*ib) {
                    Ok(u) => {},
                    Err(e) => {
                        return Err(e);
                    },
                }
                self.label(x);
                let r2 = match self.gen_expr(*cb) {
                    Ok(r) => r,
                    Err(e) => {
                        return Err(e);
                    },
                };
                self.add(IRType::UNLESS, r2, y);
                self.kill(r2);
                match self.gen_stmt(*bb) {
                    Ok(u) => {},
                    Err(e) => {
                        return Err(e);
                    },
                }
                let r3 = match self.gen_expr(*incb) {
                    Ok(r) => r,
                    Err(e) => {
                        return Err(e);
                    },
                };
                self.kill(r3);
                self.add(IRType::JMP, x, 0);
                self.label(y);
                Ok(())
            },
            ND::RETURN => {
                let e = match node.expr {
                    Some(e) => e,
                    None => {
                        return Err(
                            CompileError::Internal(String::from_str("return without a value")),
                        );
                    },
                };
                let r = match self.gen_expr(*e) {
                    Ok(r) => r,
                    Err(e2) => {
                        return Err(e2);
                    },
                };
                self.add(IRType::RETURN, r, 0);
                self.kill(r);
                Ok(())
            },
            ND::EXPR_STMT => {
                let e = match node.expr {
                    Some(e) => e,
                    None => {
                        return Err(
                            CompileError::Internal(
                                String::from_str("expression statement without an expression"),
                            ),
                        );
                    },
                };
                let r = match self.gen_expr(*e) {
                    Ok(r) => r,
                    Err(e2) => {
                        return Err(e2);
                    },
                };
                self.kill(r);
                Ok(())
            },
            ND::COMP_STMT => {
                let mut rest = node.stmts;
                let ghost st_in = self@;
                let ghost all = rest@;
                while rest.len() > 0
                    invariant
                        nodes_size(rest@) <= nodes_size(node0.stmts@),
                        spec_gen_stmts(all, st_in) == spec_gen_stmts(rest@, self@),
                    decreases rest@.len(),
                {
                    let ghost pre_rest = rest@;
                    let n = rest.remove(0);
                    proof {
                        assert(rest@ =~= pre_rest.drop_first());
                        lemma_nodes_size_elem(pre_rest, 0);
                        lemma_nodes_size_drop_first(pre_rest);
                        assert(nodes_size(node0.stmts@) < node_size(node0));
                    }
                    match self.gen_stmt(n) {
                        Ok(u) => {},
                        Err(e) => {
                            return Err(e);
                        },
                    }
                }
                Ok(())
            },
            _ => Err(CompileError::Internal(String::from_str("unexpected statement node"))),
        }
    }

    /// Lower every function tree into its instruction list and stack size.
    /// Trees that are not function definitions, shapes with no lowering rule,
    /// malformed literals, and counter overflow are internal errors.
    #[verifier::loop_isolation(false)]
    pub fn gen_ir(&mut self, nodes: Vec<Node>) -> (r: Result<Vec<Function>, CompileError>)
        ensures
            match spec_gen_ir(nodes@) {
                Some(out) => r matches Ok(fs) && fns_model(fs@) == out,
                None => r matches Err(e) && e is Internal,
            },
    {
        let ghost all = nodes@;
        let mut rest = nodes;
        let mut funcs: Vec<Function> = Vec::new();
        proof {
            lemma_gen_ir_empty_prefix(all);
            assert(fns_model(funcs@) =~= Seq::<FunctionModel>::empty());
        }
        while rest.len() > 0
            invariant
                spec_gen_ir(all) == (match spec_gen_ir(rest@) {
                    Some(tail) => Some::<Seq<FunctionModel>>(fns_model(funcs@) + tail),
                    None => None,
                }),
            decreases rest@.len(),
        {
            let ghost pre_rest = rest@;
            let node = rest.remove(0);
            proof {
                assert(rest@ =~= pre_rest.drop_first());
            }
            if !matches!(node.op, ND::FUNC) {
                return Err(
                    CompileError::Internal(String::from_str("top-level tree is not a function")),
                );
            }
            self.code = Vec::new();
            self.regno = 1;
            self.label = 0;
            proof {
                assert(irs_model(self.code@) =~= Seq::<IrModel>::empty());
            }
            let ghost node1 = node;
            let ghost st_reset = self@;
            let na = node.args.len();
            let mut i: usize = 0;
            while i < na
                invariant
                    i <= na,
                    na == node1.args@.len(),
                    spec_store_args(node1.args@, 0, st_reset) == spec_store_args(
                        node1.args@,
                        i as int,
                        self@,
                    ),
                decreases na - i,
            {
                let off = node.args[i].offset;
                match node.args[i].ty.ty {
                    TY::CHAR => self.add(IRType::STORE8_ARG, off, i),
                    TY::INT => self.add(IRType::STORE32_ARG, off, i),
                    TY::PTR => self.add(IRType::STORE64_ARG, off, i),
                    TY::ARY => self.add(IRType::STORE64_ARG, off, i),
                }
                i += 1;
            }
            let name = node.val;
            let stack_size = node.stack_size;
            let body = match node.body {
                Some(b) => b,
                None => {
                    return Err(
                        CompileError::Internal(String::from_str("function without a body")),
                    );
                },
            };
            match self.gen_stmt(*body) {
                Ok(u) => {},
                Err(e) => {
                    return Err(e);
                },
            }
            let ghost done = fns_model(funcs@);
            let f = Function { name, irs: self.take_code(), stack_size };
            proof {
                assert(spec_gen_func(pre_rest[0]) == Some::<FunctionModel>(f@));
                lemma_gen_ir_step(done, pre_rest, f@);
            }
            funcs.push(f);
            proof {
                assert(fns_model(funcs@) =~= done.push(f@));
            }
        }
        proof {
            assert(rest@ =~= Seq::<Node>::empty());
            assert(fns_model(funcs@) + Seq::<FunctionModel>::empty() =~= fns_model(funcs@));
        }
        Ok(funcs)
    }

    /// Move the instruction list being built out of the generator, leaving it
    /// empty.
    fn take_code(&mut self) -> (r: Vec<IR>)
        ensures
            irs_model(r@) == old(self)@.code,
            final(self)@ == (GenState {
                code: Seq::<IrModel>::empty(),
                regno: old(self)@.regno,
                label: old(self)@.label,
            }),
    {
        let mut taken: Vec<IR> = Vec::new();
        core::mem::swap(&mut taken, &mut self.code);
        proof {
            assert(irs_model(Seq::<IR>::empty()) =~= Seq::<IrModel>::empty());
        }
        taken
    }
}

} // verus!
