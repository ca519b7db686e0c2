use rugcc::common::{Function, IR, IRType, ND, Node, TY, Type};
use rugcc::ir::IrGenerator;

fn num(v: &str) -> Node {
    Node { op: ND::NUM, val: v.to_string(), ..Default::default() }
}

fn binop(c: char, lhs: Node, rhs: Node) -> Node {
    Node {
        op: ND::OPE(c),
        lhs: Some(Box::new(lhs)),
        rhs: Some(Box::new(rhs)),
        ..Default::default()
    }
}

fn ir(op: IRType, lhs: usize, rhs: usize) -> IR {
    IR { op, lhs, rhs, ..Default::default() }
}

#[test]
fn can_gen_ir_arithmetic_expr() {
    let input = vec![Node {
        op: ND::FUNC,
        val: "main".to_string(),
        body: Some(Box::new(Node {
            op: ND::COMP_STMT,
            stmts: vec![Node {
                op: ND::RETURN,
                expr: Some(Box::new(binop(
                    '-',
                    binop('/', binop('+', num("2"), binop('*', num("2"), num("3"))), num("2")),
                    num("1"),
                ))),
                ..Default::default()
            }],
            ..Default::default()
        })),
        ..Default::default()
    }];

    let mut generator = IrGenerator::new();
    let result = generator.gen_ir(input).unwrap();

    let expect = vec![Function {
        name: "main".to_string(),
        irs: vec![
            ir(IRType::IMM, 1, 2),
            ir(IRType::IMM, 2, 2),
            ir(IRType::IMM, 3, 3),
            ir(IRType::MUL, 2, 3),
            ir(IRType::KILL, 3, 0),
            ir(IRType::ADD, 1, 2),
            ir(IRType::KILL, 2, 0),
            ir(IRType::IMM, 4, 2),
            ir(IRType::DIV, 1, 4),
            ir(IRType::KILL, 4, 0),
            ir(IRType::IMM, 5, 1),
            ir(IRType::SUB, 1, 5),
            ir(IRType::KILL, 5, 0),
            ir(IRType::RETURN, 1, 0),
            ir(IRType::KILL, 1, 0),
        ],
        stack_size: 0,
    }];

    assert_eq!(result.len(), expect.len());
    for i in 0..result.len() {
        assert_eq!(result[i], expect[i]);
    }
}

#[test]
fn can_gen_ir_function() {
    let input = vec![
        Node {
            op: ND::FUNC,
            val: "add".to_string(),
            args: vec![
                Node { op: ND::VARDEF, val: "a".to_string(), offset: 4, ..Default::default() },
                Node { op: ND::VARDEF, val: "b".to_string(), offset: 8, ..Default::default() },
            ],
            body: Some(Box::new(Node {
                op: ND::COMP_STMT,
                stmts: vec![Node {
                    op: ND::RETURN,
                    expr: Some(Box::new(binop(
                        '+',
                        Node {
                            op: ND::LVAR,
                            val: "a".to_string(),
                            offset: 4,
                            ..Default::default()
                        },
                        Node {
                            op: ND::LVAR,
                            val: "b".to_string(),
                            offset: 8,
                            ..Default::default()
                        },
                    ))),
                    ..Default::default()
                }],
                ..Default::default()
            })),
            stack_size: 8,
            ..Default::default()
        },
        Node {
            op: ND::FUNC,
            val: "main".to_string(),
            body: Some(Box::new(Node {
                op: ND::COMP_STMT,
                stmts: vec![Node {
                    op: ND::RETURN,
                    expr: Some(Box::new(Node {
                        op: ND::CALL,
                        val: "add".to_string(),
                        args: vec![num("1"), num("2")],
                        ..Default::default()
                    })),
                    ..Default::default()
                }],
                ..Default::default()
            })),
            ..Default::default()
        },
    ];

    let mut generator = IrGenerator::new();
    let result = generator.gen_ir(input).unwrap();

    let expect = vec![
        Function {
            name: "add".to_string(),
            irs: vec![
                ir(IRType::STORE32_ARG, 4, 0),
                ir(IRType::STORE32_ARG, 8, 1),
                ir(IRType::MOV, 1, 0),
                ir(IRType::SUB_IMM, 1, 4),
                ir(IRType::LOAD32, 1, 1),
                ir(IRType::MOV, 2, 0),
                ir(IRType::SUB_IMM, 2, 8),
                ir(IRType::LOAD32, 2, 2),
                ir(IRType::ADD, 1, 2),
                ir(IRType::KILL, 2, 0),
                ir(IRType::RETURN, 1, 0),
                ir(IRType::KILL, 1, 0),
            ],
            stack_size: 8,
        },
        Function {
            name: "main".to_string(),
            irs: vec![
                ir(IRType::IMM, 1, 1),
                ir(IRType::IMM, 2, 2),
                IR {
                    op: IRType::CALL,
                    lhs: 3,
                    rhs: 0,
                    name: "add".to_string(),
                    args: vec![1, 2],
                },
                ir(IRType::KILL, 1, 0),
                ir(IRType::KILL, 2, 0),
                ir(IRType::RETURN, 3, 0),
                ir(IRType::KILL, 3, 0),
            ],
            stack_size: 0,
        },
    ];

    assert_eq!(result.len(), expect.len());
    for i in 0..result.len() {
        assert_eq!(result[i], expect[i]);
    }
}

fn int_type() -> Type {
    Type::default()
}

fn ptr_to_int() -> Type {
    Type { ty: TY::PTR, ptr_of: Some(Box::new(int_type())), ..Default::default() }
}

fn ary_lvar(offset: usize) -> Node {
    Node { op: ND::LVAR, val: "ary".to_string(), offset, ..Default::default() }
}

fn addr_of_ary(offset: usize) -> Node {
    Node {
        op: ND::ADDR,
        ty: ptr_to_int(),
        expr: Some(Box::new(ary_lvar(offset))),
        ..Default::default()
    }
}

#[test]
fn can_gen_ir_pointer() {
    let input = vec![Node {
        op: ND::FUNC,
        val: "main".to_string(),
        body: Some(Box::new(Node {
            op: ND::COMP_STMT,
            stmts: vec![
                Node {
                    op: ND::VARDEF,
                    ty: Type {
                        ty: TY::ARY,
                        ary_of: Some(Box::new(int_type())),
                        len: 2,
                        ..Default::default()
                    },
                    val: "ary".to_string(),
                    offset: 8,
                    ..Default::default()
                },
                Node {
                    op: ND::EXPR_STMT,
                    expr: Some(Box::new(Node {
                        op: ND::OPE('='),
                        lhs: Some(Box::new(Node {
                            op: ND::DEREF,
                            expr: Some(Box::new(addr_of_ary(8))),
                            ..Default::default()
                        })),
                        rhs: Some(Box::new(num("3"))),
                        ..Default::default()
                    })),
                    ..Default::default()
                },
                Node {
                    op: ND::EXPR_STMT,
                    expr: Some(Box::new(Node {
                        op: ND::OPE('='),
                        lhs: Some(Box::new(Node {
                            op: ND::DEREF,
                            expr: Some(Box::new(Node {
                                op: ND::OPE('+'),
                                ty: ptr_to_int(),
                                lhs: Some(Box::new(addr_of_ary(8))),
                                rhs: Some(Box::new(num("1"))),
                                ..Default::default()
                            })),
                            ..Default::default()
                        })),
                        rhs: Some(Box::new(num("7"))),
                        ..Default::default()
                    })),
                    ..Default::default()
                },
                Node {
                    op: ND::RETURN,
                    expr: Some(Box::new(Node {
                        op: ND::OPE('+'),
                        lhs: Some(Box::new(Node {
                            op: ND::DEREF,
                            expr: Some(Box::new(addr_of_ary(8))),
                            ..Default::default()
                        })),
                        rhs: Some(Box::new(Node {
                            op: ND::DEREF,
                            expr: Some(Box::new(Node {
                                op: ND::OPE('+'),
                                ty: ptr_to_int(),
                                lhs: Some(Box::new(addr_of_ary(8))),
                                rhs: Some(Box::new(num("1"))),
                                ..Default::default()
                            })),
                            ..Default::default()
                        })),
                        ..Default::default()
                    })),
                    ..Default::default()
                },
            ],
            ..Default::default()
        })),
        stack_size: 8,
        ..Default::default()
    }];

    let mut generator = IrGenerator::new();
    let result = generator.gen_ir(input).unwrap();

    let expect = vec![Function {
        name: "main".to_string(),
        irs: vec![
            ir(IRType::IMM, 1, 3),
            ir(IRType::MOV, 2, 0),
            ir(IRType::SUB_IMM, 2, 8),
            ir(IRType::STORE32, 2, 1),
            ir(IRType::KILL, 1, 0),
            ir(IRType::KILL, 2, 0),
            ir(IRType::IMM, 3, 7),
            ir(IRType::IMM, 4, 1),
            ir(IRType::IMM, 5, 4),
            ir(IRType::MUL, 4, 5),
            ir(IRType::KILL, 5, 0),
            ir(IRType::MOV, 6, 0),
            ir(IRType::SUB_IMM, 6, 8),
            ir(IRType::ADD, 6, 4),
            ir(IRType::KILL, 4, 0),
            ir(IRType::STORE32, 6, 3),
            ir(IRType::KILL, 3, 0),
            ir(IRType::KILL, 6, 0),
            ir(IRType::MOV, 7, 0),
            ir(IRType::SUB_IMM, 7, 8),
            ir(IRType::LOAD32, 7, 7),
            ir(IRType::IMM, 8, 1),
            ir(IRType::IMM, 9, 4),
            ir(IRType::MUL, 8, 9),
            ir(IRType::KILL, 9, 0),
            ir(IRType::MOV, 10, 0),
            ir(IRType::SUB_IMM, 10, 8),
            ir(IRType::ADD, 10, 8),
            ir(IRType::KILL, 8, 0),
            ir(IRType::LOAD32, 10, 10),
            ir(IRType::ADD, 7, 10),
            ir(IRType::KILL, 10, 0),
            ir(IRType::RETURN, 7, 0),
            ir(IRType::KILL, 7, 0),
        ],
        stack_size: 8,
    }];

    assert_eq!(result.len(), expect.len());
    for i in 0..result.len() {
        assert_eq!(result[i], expect[i]);
    }
}
