use rugcc::common::{IR, IRInfoType, IRType, ND, Node, TY, Type};

#[test]
fn type_sizes_follow_the_width_table() {
    assert_eq!(Type::default().size_of(), Some(4));
    assert_eq!(Type::new_char().size_of(), Some(1));
    assert_eq!(Type::default().ptr_of().size_of(), Some(8));
    assert_eq!(Type::default().ary_of(2).size_of(), Some(8));
    assert_eq!(Type::new_char().ary_of(10).size_of(), Some(10));
    assert_eq!(Type::default().ary_of(3).ary_of(5).size_of(), Some(60));
}

#[test]
fn huge_array_has_no_size() {
    assert_eq!(Type::default().ary_of(usize::MAX).size_of(), None);
}

#[test]
fn ptr_of_wraps_the_pointee() {
    let t = Type::new_char().ptr_of();
    assert_eq!(t.ty, TY::PTR);
    assert_eq!(t.ptr_of.as_ref().unwrap().ty, TY::CHAR);
}

#[test]
fn ary_of_wraps_the_element_type() {
    let t = Type::default().ary_of(2);
    assert_eq!(t.ty, TY::ARY);
    assert_eq!(t.len, 2);
    assert_eq!(t.ary_of.as_ref().unwrap().ty, TY::INT);
}

#[test]
fn get_ope_returns_the_operator_character() {
    let n = Node { op: ND::OPE('+'), ..Default::default() };
    assert_eq!(n.get_ope(), '+');
}

#[test]
fn addr_of_wraps_a_node_in_a_pointer() {
    let n = Node { op: ND::LVAR, val: "x".to_string(), offset: 4, ..Default::default() };
    let a = n.addr_of(Type::default());
    assert_eq!(a.op, ND::ADDR);
    assert_eq!(a.ty.ty, TY::PTR);
    assert_eq!(a.ty.ptr_of.as_ref().unwrap().ty, TY::INT);
    assert_eq!(a.expr.as_ref().unwrap().op, ND::LVAR);
    assert_eq!(a.expr.as_ref().unwrap().offset, 4);
}

#[test]
fn tostr_renders_the_dump_line() {
    let mk = |op: IRType, lhs: usize, rhs: usize| IR { op, lhs, rhs, ..Default::default() };
    assert_eq!(mk(IRType::ADD, 1, 2).tostr(), "ADD r1, r2");
    assert_eq!(mk(IRType::IMM, 3, 42).tostr(), "MOV r3, 42");
    assert_eq!(mk(IRType::SUB_IMM, 1, 8).tostr(), "SUB r1, 8");
    assert_eq!(mk(IRType::LABEL, 5, 0).tostr(), ".L5:");
    assert_eq!(mk(IRType::UNLESS, 1, 0).tostr(), "UNLESS r1, .L0");
    assert_eq!(mk(IRType::RETURN, 7, 0).tostr(), "RET r7");
    assert_eq!(mk(IRType::JMP, 2, 0).tostr(), "  JMP .L2");
    assert_eq!(mk(IRType::KILL, 4, 0).tostr(), "KILL");
    assert_eq!(mk(IRType::STORE32_ARG, 4, 0).tostr(), "STORE32_ARG 4, 0");
    assert_eq!(mk(IRType::STORE64, 1, 2).tostr(), "STORE64 r1, r2");
    let call = IR { op: IRType::CALL, lhs: 3, rhs: 0, name: "add".to_string(), args: vec![1, 2] };
    assert_eq!(call.tostr(), "r3 = add(");
}

#[test]
fn irinfo_classifies_operand_shapes() {
    let mk = |op: IRType| IR { op, lhs: 0, rhs: 0, ..Default::default() };
    assert_eq!(mk(IRType::ADD).get_irinfo().ty, IRInfoType::REG_REG);
    assert_eq!(mk(IRType::IMM).get_irinfo().ty, IRInfoType::REG_IMN);
    assert_eq!(mk(IRType::SUB_IMM).get_irinfo().ty, IRInfoType::REG_IMN);
    assert_eq!(mk(IRType::RETURN).get_irinfo().ty, IRInfoType::REG);
    assert_eq!(mk(IRType::UNLESS).get_irinfo().ty, IRInfoType::REG_LABEL);
    assert_eq!(mk(IRType::LABEL).get_irinfo().ty, IRInfoType::LABEL);
    assert_eq!(mk(IRType::JMP).get_irinfo().ty, IRInfoType::JMP);
    assert_eq!(mk(IRType::CALL).get_irinfo().ty, IRInfoType::CALL);
    assert_eq!(mk(IRType::KILL).get_irinfo().ty, IRInfoType::NOARG);
    assert_eq!(mk(IRType::NOP).get_irinfo().ty, IRInfoType::NOARG);
    assert_eq!(mk(IRType::STORE32_ARG).get_irinfo().ty, IRInfoType::IMM_IMM);
    assert_eq!(mk(IRType::LOAD8).get_irinfo().ty, IRInfoType::REG_REG);
    assert_eq!(mk(IRType::KILL).get_irinfo().name, "KILL");
    assert_eq!(mk(IRType::IMM).get_irinfo().name, "MOV");
}
