//! Semantic pass: resolves identifiers to stack offsets and concrete types,
//! inserts array-to-pointer decay at value-use sites, computes each function's
//! total frame size, and rejects undeclared identifiers and pointer-plus-
//! pointer arithmetic.

use vstd::prelude::*;
use vstd::string::StringExecFns;

use crate::common::{CompileError, ND, Node, TY, Type, lemma_nodes_size_drop_first,
    lemma_nodes_size_elem, node_size, nodes_size, spec_size_of};

verus! {

/// Whether the tree declares a variable anywhere.
pub open spec fn has_vardef(n: Node) -> bool
    decreases n,
{
    ||| n.op == ND::VARDEF
    ||| opt_has_vardef(n.lhs)
    ||| opt_has_vardef(n.rhs)
    ||| opt_has_vardef(n.expr)
    ||| opt_has_vardef(n.cond)
    ||| opt_has_vardef(n.thn)
    ||| opt_has_vardef(n.els)
    ||| opt_has_vardef(n.init)
    ||| opt_has_vardef(n.inc)
    ||| opt_has_vardef(n.body)
    ||| seq_has_vardef(n.stmts@)
    ||| seq_has_vardef(n.args@)
}

/// Whether an optional child declares a variable.
pub open spec fn opt_has_vardef(o: Option<Box<Node>>) -> bool
    decreases o,
{
    match o {
        Some(b) => has_vardef(*b),
        None => false,
    }
}

/// Whether any node of a sequence declares a variable.
pub open spec fn seq_has_vardef(s: Seq<Node>) -> bool
    decreases s,
{
    if s.len() == 0 {
        false
    } else {
        has_vardef(s[0]) || seq_has_vardef(s.drop_first())
    }
}

/// A declaration-free sequence has declaration-free elements and tail.
proof fn lemma_seq_no_vardef(s: Seq<Node>)
    requires
        s.len() > 0,
        !seq_has_vardef(s),
    ensures
        !has_vardef(s[0]),
        !seq_has_vardef(s.drop_first()),
{
}

/// A resolved variable: its type and its stack offset.
pub struct Var {
    pub ty: Type,
    pub offset: usize,
}

/// The variable bindings of the semantic pass, newest last. A later binding
/// of the same name shadows an earlier one.
pub open spec fn spec_lookup(vars: Seq<(String, Var)>, name: Seq<char>) -> Option<Var>
    decreases vars.len(),
{
    if vars.len() == 0 {
        None
    } else if vars.last().0@ == name {
        Some(vars.last().1)
    } else {
        spec_lookup(vars.drop_last(), name)
    }
}

/// The semantic pass over one function: the variables in scope and the frame
/// size accumulated from their declarations.
pub struct SemaGenerator {
    vars: Vec<(String, Var)>,
    stack_size: usize,
}

impl SemaGenerator {
    /// A fresh pass: no variables, an empty frame.
    pub fn new() -> (r: SemaGenerator)
        ensures
            r.bindings() == Seq::<(String, Var)>::empty(),
            r.frame_size() == 0,
    {
        SemaGenerator { vars: Vec::new(), stack_size: 0 }
    }

    /// The bindings currently in scope, oldest first.
    pub closed spec fn bindings(&self) -> Seq<(String, Var)> {
        self.vars@
    }

    /// The frame size accumulated so far.
    pub closed spec fn frame_size(&self) -> usize {
        self.stack_size
    }

    /// Exchange two optional children (used to canonicalize pointer
    /// arithmetic so the pointer operand is on the left).
    pub fn swap(&self, p: Option<Box<Node>>, q: Option<Box<Node>>) -> (r: (
        Option<Box<Node>>,
        Option<Box<Node>>,
    ))
        ensures
            r.0 == q,
            r.1 == p,
    {
        (q, p)
    }

    /// Find the newest binding of `name`, if any.
    fn lookup(&self, name: &String) -> (r: Option<Var>)
        ensures
            r == spec_lookup(self.bindings(), name@),
    {
        let mut i = self.vars.len();
        proof {
            assert(self.vars@.take(self.vars@.len() as int) =~= self.vars@);
        }
        while i > 0
            invariant
                i <= self.vars@.len(),
                spec_lookup(self.bindings(), name@) == spec_lookup(
                    self.vars@.take(i as int),
                    name@,
                ),
            decreases i,
        {
            i = i - 1;
            let ghost pre = self.vars@.take(i as int + 1);
            if self.vars[i].0.eq(name) {
                proof {
                    assert(pre.last() == self.vars@[i as int]);
                }
                let v = &self.vars[i].1;
                return Some(Var { ty: v.ty.clone_type(), offset: v.offset });
            }
            proof {
                assert(pre.last() == self.vars@[i as int]);
                assert(pre.drop_last() =~= self.vars@.take(i as int));
            }
        }
        proof {
            assert(self.vars@.take(0) =~= Seq::<(String, Var)>::empty());
        }
        None
    }

    /// Resolve one node. `decay` says whether an array value decays to a
    /// pointer to its first element at this use site. Identifiers must be
    /// bound (an unbound one is a user error), pointer-plus-pointer and the
    /// unsupported `sizeof` are user errors, and tree shapes that cannot
    /// appear at this stage are internal errors.
    #[verifier::loop_isolation(false)]
    #[verifier::rlimit(100)]
    pub fn walk(&mut self, node: Node, decay: bool) -> (r: Result<Node, CompileError>)
        ensures
            r matches Err(e) ==> (e is UserInput || e is Internal),
            // only a declaration somewhere in the tree can change the scope
            // or the frame size
            !has_vardef(node) ==> final(self).bindings() == old(self).bindings()
                && final(self).frame_size() == old(self).frame_size(),
            // only identifier resolution rewrites the node kind
            node.op != ND::IDENT ==> (r matches Ok(out) ==> out.op == node.op),
            // literals pass through untouched
            node.op == ND::NUM ==> (r matches Ok(out) && out == node),
            // identifier resolution: the newest binding decides; an array
            // value use decays to a pointer to its first element, an lvalue
            // use keeps the variable's type; the declaration's offset is
            // filled in; an unbound name is a user error
            node.op == ND::IDENT ==> match spec_lookup(old(self).bindings(), node.val@) {
                None => r matches Err(e) && e is UserInput,
                Some(var) => if decay && var.ty.ty == TY::ARY {
                    match var.ty.ary_of {
                        Some(elem) => r matches Ok(out) && out.op == ND::ADDR && out.ty.ty
                            == TY::PTR && (out.ty.ptr_of matches Some(p) && *p == *elem) && (
                        out.expr matches Some(e2) && e2.op == ND::LVAR && e2.offset == var.offset
                            && e2.val == node.val && e2.ty == node.ty),
                        None => r matches Err(e) && e is Internal,
                    }
                } else {
                    r matches Ok(out) && out.op == ND::LVAR && out.offset == var.offset && out.ty
                        == var.ty && out.val == node.val
                },
            },
            // a declaration takes the next frame slot: its offset is the
            // running sum of the declared sizes, its own included, and its
            // name is bound to its type at that offset
            node.op == ND::VARDEF ==> match spec_size_of(node.ty) {
                None => r matches Err(e) && e is Internal,
                Some(sz) => if old(self).frame_size() + sz > usize::MAX {
                    r matches Err(e) && e is Internal
                } else {
                    &&& (r matches Ok(out) ==> out.val == node.val && out.ty == node.ty
                        && out.offset == old(self).frame_size() + sz && (out.init is None
                        <==> node.init is None))
                    &&& (!opt_has_vardef(node.init) ==> (r is Ok
                        ==> final(self).frame_size() == old(self).frame_size() + sz
                        && final(self).bindings().len() == old(self).bindings().len() + 1
                        && final(self).bindings().last().0 == node.val
                        && final(self).bindings().last().1.ty == node.ty
                        && final(self).bindings().last().1.offset == old(self).frame_size() + sz
                        && final(self).bindings().take(old(self).bindings().len() as int)
                            == old(self).bindings()))
                    &&& (node.init is None ==> r is Ok)
                },
            },
            // dereference takes the pointee type; its operand must have
            // resolved to a pointer
            node.op == ND::DEREF ==> (r matches Ok(out) ==> (out.expr matches Some(e2) && e2.ty.ty
                == TY::PTR && (e2.ty.ptr_of matches Some(p) && out.ty == *p))),
            // binary operators take the (possibly exchanged) left operand's
            // type
            (node.op matches ND::OPE(_) || node.op == ND::LOGAND || node.op == ND::LOGOR) ==> (
            r matches Ok(out) ==> (out.lhs matches Some(l2) && out.ty == l2.ty) && out.rhs
                is Some),
            // after canonicalization the right operand of `+`/`-` is never a
            // pointer: pointer-plus-pointer has been rejected
            (node.op == ND::OPE('+') || node.op == ND::OPE('-')) ==> (r matches Ok(out)
                ==> out.rhs matches Some(r2) && r2.ty.ty != TY::PTR),
            // a call resolves its arguments in place and takes the int type
            node.op == ND::CALL ==> (r matches Ok(out) ==> out.val == node.val && out.args@.len()
                == node.args@.len() && out.ty.ty == TY::INT && out.ty.ptr_of is None
                && out.ty.ary_of is None && out.ty.len == 0),
            node.op == ND::FUNC ==> (r matches Ok(n2) ==> n2.op == ND::FUNC && n2.val@
                == node.val@ && n2.args@.len() == node.args@.len() && n2.body is Some),
            node.op == ND::COMP_STMT ==> (r matches Ok(out) ==> out.stmts@.len()
                == node.stmts@.len()),
            node.op == ND::SIZEOF ==> (r matches Err(e) && e is UserInput),
        decreases node_size(node), 1int,
    {
        let ghost node0 = node;
        let mut node = node;
        match node.op {
            ND::NUM => Ok(node),
            ND::IDENT => {
                match self.lookup(&node.val) {
                    None => Err(
                        CompileError::UserInput(
                            String::from_str("undefined variable: ").concat(node.val.as_str()),
                        ),
                    ),
                    Some(var) => {
                        node.op = ND::LVAR;
                        node.offset = var.offset;
                        if decay && matches!(var.ty.ty, TY::ARY) {
                            let elem = match var.ty.ary_of {
                                Some(b) => *b,
                                None => {
                                    return Err(
                                        CompileError::Internal(
                                            String::from_str("array without an element type"),
                                        ),
                                    );
                                },
                            };
                            Ok(node.addr_of(elem))
                        } else {
                            node.ty = var.ty;
                            Ok(node)
                        }
                    },
                }
            },
            ND::VARDEF => {
                let sz = match node.ty.size_of() {
                    Some(sz) => sz,
                    None => {
                        return Err(
                            CompileError::Internal(String::from_str("type without a size")),
                        );
                    },
                };
                let new_size = match self.stack_size.checked_add(sz) {
                    Some(s) => s,
                    None => {
                        return Err(
                            CompileError::Internal(String::from_str("stack frame too large")),
                        );
                    },
                };
                self.stack_size = new_size;
                self.vars.push(
                    (node.val.clone(), Var { ty: node.ty.clone_type(), offset: new_size }),
                );
                node.offset = new_size;
                if node.init.is_some() {
                    let ib = match node.init {
                        Some(ib) => ib,
                        None => {
                            return Err(
                                CompileError::Internal(String::from_str("missing initializer")),
                            );
                        },
                    };
                    let walked = match self.walk(*ib, true) {
                        Ok(w) => w,
                        Err(e) => {
                            return Err(e);
                        },
                    };
                    node.init = Some(Box::new(walked));
                }
                Ok(node)
            },
            ND::IF => {
                let cb = match node.cond {
                    Some(cb) => cb,
                    None => {
                        return Err(
                            CompileError::Internal(String::from_str("conditional without a test")),
                        );
                    },
                };
                let tb = match node.thn {
                    Some(tb) => tb,
                    None => {
                        return Err(
                            CompileError::Internal(
                                String::from_str("conditional without a branch"),
                            ),
                        );
                    },
                };
                let wc = match self.walk(*cb, true) {
                    Ok(w) => w,
                    Err(e) => {
                        return Err(e);
                    },
                };
                node.cond = Some(Box::new(wc));
                let wt = match self.walk(*tb, true) {
                    Ok(w) => w,
                    Err(e) => {
                        return Err(e);
                    },
                };
                node.thn = Some(Box::new(wt));
                if node.els.is_some() {
                    let eb = match node.els {
                        Some(eb) => eb,
                        None => {
                            return Err(
                                CompileError::Internal(String::from_str("missing else branch")),
                            );
                        },
                    };
                    let we = match self.walk(*eb, true) {
                        Ok(w) => w,
                        Err(e) => {
                            return Err(e);
                        },
                    };
                    node.els = Some(Box::new(we));
                }
                Ok(node)
            },
            ND::FOR => {
                let (ib, cb, incb, bb) = match (node.init, node.cond, node.inc, node.body) {
                    (Some(ib), Some(cb), Some(incb), Some(bb)) => (ib, cb, incb, bb),
                    _ => {
                        return Err(
                            CompileError::Internal(String::from_str("loop without its clauses")),
                        );
                    },
                };
                let wi = match self.walk(*ib, true) {
                    Ok(w) => w,
                    Err(e) => {
                        return Err(e);
                    },
                };
                let wc = match self.walk(*cb, true) {
                    Ok(w) => w,
                    Err(e) => {
                        return Err(e);
                    },
                };
                let winc = match self.walk(*incb, true) {
                    Ok(w) => w,
                    Err(e) => {
                        return Err(e);
                    },
                };
                let wb = match self.walk(*bb, true) {
                    Ok(w) => w,
                    Err(e) => {
                        return Err(e);
                    },
                };
                node.init = Some(Box::new(wi));
                node.cond = Some(Box::new(wc));
                node.inc = Some(Box::new(winc));
                node.body = Some(Box::new(wb));
                Ok(node)
            },
            ND::OPE('+') | ND::OPE('-') => {
                let (lb, rb) = match (node.lhs, node.rhs) {
                    (Some(lb), Some(rb)) => (lb, rb),
                    _ => {
                        return Err(
                            CompileError::Internal(String::from_str("operator without operands")),
                        );
                    },
                };
                let wl = match self.walk(*lb, true) {
                    Ok(w) => w,
                    Err(e) => {
                        return Err(e);
                    },
                };
                let wr = match self.walk(*rb, true) {
                    Ok(w) => w,
                    Err(e) => {
                        return Err(e);
                    },
                };
                node.lhs = Some(Box::new(wl));
                node.rhs = Some(Box::new(wr));
                if matches!(node.rhs.as_ref().unwrap().ty.ty, TY::PTR) {
                    let (l2, r2) = self.swap(node.lhs, node.rhs);
                    node.lhs = l2;
                    node.rhs = r2;
                }
                if matches!(node.rhs.as_ref().unwrap().ty.ty, TY::PTR) {
                    return Err(
                        CompileError::UserInput(
                            String::from_str("pointer-plus-pointer is not defined"),
                        ),
                    );
                }
                node.ty = node.lhs.as_ref().unwrap().ty.clone_type();
                Ok(node)
            },
            ND::OPE('=') => {
                let (lb, rb) = match (node.lhs, node.rhs) {
                    (Some(lb), Some(rb)) => (lb, rb),
                    _ => {
                        return Err(
                            CompileError::Internal(String::from_str("assignment without operands")),
                        );
                    },
                };
                let wl = match self.walk(*lb, false) {
                    Ok(w) => w,
                    Err(e) => {
                        return Err(e);
                    },
                };
                let wr = match self.walk(*rb, true) {
                    Ok(w) => w,
                    Err(e) => {
                        return Err(e);
                    },
                };
                node.ty = wl.ty.clone_type();
                node.lhs = Some(Box::new(wl));
                node.rhs = Some(Box::new(wr));
                Ok(node)
            },
            ND::OPE(_) | ND::LOGAND | ND::LOGOR => {
                let (lb, rb) = match (node.lhs, node.rhs) {
                    (Some(lb), Some(rb)) => (lb, rb),
                    _ => {
                        return Err(
                            CompileError::Internal(String::from_str("operator without operands")),
                        );
                    },
                };
                let wl = match self.walk(*lb, true) {
                    Ok(w) => w,
                    Err(e) => {
                        return Err(e);
                    },
                };
                let wr = match self.walk(*rb, true) {
                    Ok(w) => w,
                    Err(e) => {
                        return Err(e);
                    },
                };
                node.ty = wl.ty.clone_type();
                node.lhs = Some(Box::new(wl));
                node.rhs = Some(Box::new(wr));
                Ok(node)
            },
            ND::DEREF => {
                let eb = match node.expr {
                    Some(eb) => eb,
                    None => {
                        return Err(
                            CompileError::Internal(
                                String::from_str("dereference without an operand"),
                            ),
                        );
                    },
                };
                let we = match self.walk(*eb, true) {
                    Ok(w) => w,
                    Err(e) => {
                        return Err(e);
                    },
                };
                if !matches!(we.ty.ty, TY::PTR) {
                    return Err(
                        CompileError::UserInput(String::from_str("operand must be a pointer")),
                    );
                }
                let pointee = match &we.ty.ptr_of {
                    Some(p) => p.clone_type(),
                    None => {
                        return Err(
                            CompileError::Internal(
                                String::from_str("pointer without a pointee type"),
                            ),
                        );
                    },
                };
                node.ty = pointee;
                node.expr = Some(Box::new(we));
                Ok(node)
            },
            ND::RETURN => {
                let eb = match node.expr {
                    Some(eb) => eb,
                    None => {
                        return Err(
                            CompileError::Internal(String::from_str("return without a value")),
                        );
                    },
                };
                let we = match self.walk(*eb, true) {
                    Ok(w) => w,
                    Err(e) => {
                        return Err(e);
                    },
                };
                node.expr = Some(Box::new(we));
                Ok(node)
            },
            ND::CALL => {
                let mut rest = node.args;
                let mut walked: Vec<Node> = Vec::new();
                while rest.len() > 0
                    invariant
                        nodes_size(rest@) <= nodes_size(node0.args@),
                        walked@.len() + rest@.len() == node0.args@.len(),
                        !has_vardef(node0) ==> (self.bindings() == old(self).bindings()
                            && self.frame_size() == old(self).frame_size() && !seq_has_vardef(
                            rest@,
                        )),
                    decreases rest@.len(),
                {
                    let ghost pre_rest = rest@;
                    let a = rest.remove(0);
                    proof {
                        assert(rest@ =~= pre_rest.drop_first());
                        lemma_nodes_size_elem(pre_rest, 0);
                        lemma_nodes_size_drop_first(pre_rest);
                        assert(nodes_size(node0.args@) < node_size(node0));
                        if !has_vardef(node0) {
                            lemma_seq_no_vardef(pre_rest);
                        }
                    }
                    let w = match self.walk(a, true) {
                        Ok(w) => w,
                        Err(e) => {
                            return Err(e);
                        },
                    };
                    walked.push(w);
                }
                node.args = walked;
                node.ty = Type::default();
                Ok(node)
            },
            ND::FUNC => {
                let mut rest = node.args;
                let mut walked: Vec<Node> = Vec::new();
                while rest.len() > 0
                    invariant
                        nodes_size(rest@) <= nodes_size(node0.args@),
                        walked@.len() + rest@.len() == node0.args@.len(),
                        !has_vardef(node0) ==> (self.bindings() == old(self).bindings()
                            && self.frame_size() == old(self).frame_size() && !seq_has_vardef(
                            rest@,
                        )),
                    decreases rest@.len(),
                {
                    let ghost pre_rest = rest@;
                    let a = rest.remove(0);
                    proof {
                        assert(rest@ =~= pre_rest.drop_first());
                        lemma_nodes_size_elem(pre_rest, 0);
                        lemma_nodes_size_drop_first(pre_rest);
                        assert(nodes_size(node0.args@) < node_size(node0));
                        if !has_vardef(node0) {
                            lemma_seq_no_vardef(pre_rest);
                        }
                    }
                    let w = match self.walk(a, true) {
                        Ok(w) => w,
                        Err(e) => {
                            return Err(e);
                        },
                    };
                    walked.push(w);
                }
                node.args = walked;
                let bb = match node.body {
                    Some(bb) => bb,
                    None => {
                        return Err(
                            CompileError::Internal(String::from_str("function without a body")),
                        );
                    },
                };
                let wb = match self.walk(*bb, true) {
                    Ok(w) => w,
                    Err(e) => {
                        return Err(e);
                    },
                };
                node.body = Some(Box::new(wb));
                Ok(node)
            },
            ND::COMP_STMT => {
                let mut rest = node.stmts;
                let mut walked: Vec<Node> = Vec::new();
                while rest.len() > 0
                    invariant
                        nodes_size(rest@) <= nodes_size(node0.stmts@),
                        walked@.len() + rest@.len() == node0.stmts@.len(),
                        !has_vardef(node0) ==> (self.bindings() == old(self).bindings()
                            && self.frame_size() == old(self).frame_size() && !seq_has_vardef(
                            rest@,
                        )),
                    decreases rest@.len(),
                {
                    let ghost pre_rest = rest@;
                    let s = rest.remove(0);
                    proof {
                        assert(rest@ =~= pre_rest.drop_first());
                        lemma_nodes_size_elem(pre_rest, 0);
                        lemma_nodes_size_drop_first(pre_rest);
                        assert(nodes_size(node0.stmts@) < node_size(node0));
                        if !has_vardef(node0) {
                            lemma_seq_no_vardef(pre_rest);
                        }
                    }
                    let w = match self.walk(s, true) {
                        Ok(w) => w,
                        Err(e) => {
                            return Err(e);
                        },
                    };
                    walked.push(w);
                }
                node.stmts = walked;
                Ok(node)
            },
            ND::EXPR_STMT => {
                let eb = match node.expr {
                    Some(eb) => eb,
                    None => {
                        return Err(
                            CompileError::Internal(
                                String::from_str("statement without an expression"),
                            ),
                        );
                    },
                };
                let we = match self.walk(*eb, true) {
                    Ok(w) => w,
                    Err(e) => {
                        return Err(e);
                    },
                };
                node.expr = Some(Box::new(we));
                Ok(node)
            },
            ND::SIZEOF => Err(
                CompileError::UserInput(String::from_str("sizeof is not supported")),
            ),
            _ => Err(CompileError::Internal(String::from_str("unexpected node in semantic pass"))),
        }
    }

    /// Resolve every function tree: per function, the variable scope and the
    /// frame size start fresh, and the computed frame size is recorded on the
    /// function node. Every result is a function definition; a top-level tree
    /// that is not one is an internal error.
    #[verifier::loop_isolation(false)]
    pub fn sema(&mut self, nodes: Vec<Node>) -> (r: Result<Vec<Node>, CompileError>)
        ensures
            r matches Ok(res) ==> res@.len() == nodes@.len() && forall|i: int|
                0 <= i < res@.len() ==> (#[trigger] res@[i]).op == ND::FUNC && res@[i].val@
                    == nodes@[i].val@ && res@[i].args@.len() == nodes@[i].args@.len()
                    && res@[i].body is Some,
            r matches Err(e) ==> (e is UserInput || e is Internal),
    {
        let ghost all = nodes@;
        let mut rest = nodes;
        let mut out: Vec<Node> = Vec::new();
        let ghost total = rest@.len();
        while rest.len() > 0
            invariant
                out@.len() + rest@.len() == total,
                rest@ == all.skip(out@.len() as int),
                forall|i: int|
                    0 <= i < out@.len() ==> (#[trigger] out@[i]).op == ND::FUNC && out@[i].val@
                        == all[i].val@ && out@[i].args@.len() == all[i].args@.len()
                        && out@[i].body is Some,
            decreases rest@.len(),
        {
            let ghost pre_rest = rest@;
            let node = rest.remove(0);
            proof {
                assert(rest@ =~= all.skip(out@.len() as int + 1));
                assert(node == all[out@.len() as int]);
            }
            if !matches!(node.op, ND::FUNC) {
                return Err(
                    CompileError::Internal(String::from_str("top-level tree is not a function")),
                );
            }
            self.vars = Vec::new();
            self.stack_size = 0;
            let mut walked = match self.walk(node, true) {
                Ok(w) => w,
                Err(e) => {
                    return Err(e);
                },
            };
            walked.stack_size = self.stack_size;
            out.push(walked);
        }
        proof {
            assert(all.skip(out@.len() as int).len() == 0);
        }
        Ok(out)
    }
}

} // verus!