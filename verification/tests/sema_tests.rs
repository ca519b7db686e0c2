use rugcc::common::{ND, Node, TY, Type};
use rugcc::sema::SemaGenerator;

fn num(v: &str) -> Node {
    Node { op: ND::NUM, val: v.to_string(), ..Default::default() }
}

fn binop(c: char, lhs: Node, rhs: Node) -> Node {
    Node {
        op: ND::OPE(c),
        lhs: Some(Box::new(lhs)),
        rhs: Some(Box::new(rhs)),
        ..Default::default()
    }
}

fn int_type() -> Type {
    Type::default()
}

fn ptr_to_int() -> Type {
    Type { ty: TY::PTR, ptr_of: Some(Box::new(int_type())), ..Default::default() }
}

#[test]
fn can_gen_walk_arithmetic_expr() {
    let arith = |b: fn() -> Node| -> Node {
        Node {
            op: ND::FUNC,
            val: "main".to_string(),
            body: Some(Box::new(Node {
                op: ND::COMP_STMT,
                stmts: vec![Node {
                    op: ND::RETURN,
                    expr: Some(Box::new(b())),
                    ..Default::default()
                }],
                ..Default::default()
            })),
            ..Default::default()
        }
    };
    let expr = || {
        binop(
            '-',
            binop('/', binop('+', num("2"), binop('*', num("2"), num("3"))), num("2")),
            num("1"),
        )
    };
    let input = vec![arith(expr)];
    let mut sema = SemaGenerator::new();
    let result = sema.sema(input).unwrap();
    let expect = vec![arith(expr)];
    assert_eq!(result.len(), expect.len());
    for i in 0..result.len() {
        assert_eq!(result[i], expect[i]);
    }
}

#[test]
fn can_gen_walk_function() {
    let input = vec![
        Node {
            op: ND::FUNC,
            val: "add".to_string(),
            args: vec![
                Node { op: ND::VARDEF, val: "a".to_string(), ..Default::default() },
                Node { op: ND::VARDEF, val: "b".to_string(), ..Default::default() },
            ],
            body: Some(Box::new(Node {
                op: ND::COMP_STMT,
                stmts: vec![Node {
                    op: ND::RETURN,
                    expr: Some(Box::new(binop(
                        '+',
                        Node { op: ND::IDENT, val: "a".to_string(), ..Default::default() },
                        Node { op: ND::IDENT, val: "b".to_string(), ..Default::default() },
                    ))),
                    ..Default::default()
                }],
                ..Default::default()
            })),
            ..Default::default()
        },
        Node {
            op: ND::FUNC,
            val: "main".to_string(),
            body: Some(Box::new(Node {
                op: ND::COMP_STMT,
                stmts: vec![Node {
                    op: ND::RETURN,
                    expr: Some(Box::new(Node {
                        op: ND::CALL,
                        val: "add".to_string(),
                        args: vec![num("1"), num("2")],
                        ..Default::default()
                    })),
                    ..Default::default()
                }],
                ..Default::default()
            })),
            ..Default::default()
        },
    ];

    let mut sema = SemaGenerator::new();
    let result = sema.sema(input).unwrap();

    let expect = vec![
        Node {
            op: ND::FUNC,
            val: "add".to_string(),
            args: vec![
                Node { op: ND::VARDEF, val: "a".to_string(), offset: 4, ..Default::default() },
                Node { op: ND::VARDEF, val: "b".to_string(), offset: 8, ..Default::default() },
            ],
            body: Some(Box::new(Node {
                op: ND::COMP_STMT,
                stmts: vec![Node {
                    op: ND::RETURN,
                    expr: Some(Box::new(binop(
                        '+',
                        Node {
                            op: ND::LVAR,
                            val: "a".to_string(),
                            offset: 4,
                            ..Default::default()
                        },
                        Node {
                            op: ND::LVAR,
                            val: "b".to_string(),
                            offset: 8,
                            ..Default::default()
                        },
                    ))),
                    ..Default::default()
                }],
                ..Default::default()
            })),
            stack_size: 8,
            ..Default::default()
        },
        Node {
            op: ND::FUNC,
            val: "main".to_string(),
            body: Some(Box::new(Node {
                op: ND::COMP_STMT,
                stmts: vec![Node {
                    op: ND::RETURN,
                    expr: Some(Box::new(Node {
                        op: ND::CALL,
                        val: "add".to_string(),
                        args: vec![num("1"), num("2")],
                        ..Default::default()
                    })),
                    ..Default::default()
                }],
                ..Default::default()
            })),
            ..Default::default()
        },
    ];

    assert_eq!(result.len(), expect.len());
    for i in 0..result.len() {
        assert_eq!(result[i], expect[i]);
    }
}

#[test]
fn can_gen_walk_pointer() {
    let ident_ary = || Node { op: ND::IDENT, val: "ary".to_string(), ..Default::default() };
    let input = vec![Node {
        op: ND::FUNC,
        val: "main".to_string(),
        body: Some(Box::new(Node {
            op: ND::COMP_STMT,
            stmts: vec![
                Node {
                    op: ND::VARDEF,
                    ty: Type {
                        ty: TY::ARY,
                        ary_of: Some(Box::new(int_type())),
                        len: 2,
                        ..Default::default()
                    },
                    val: "ary".to_string(),
                    ..Default::default()
                },
                Node {
                    op: ND::EXPR_STMT,
                    expr: Some(Box::new(binop(
                        '=',
                        Node {
                            op: ND::DEREF,
                            expr: Some(Box::new(ident_ary())),
                            ..Default::default()
                        },
                        num("3"),
                    ))),
                    ..Default::default()
                },
                Node {
                    op: ND::EXPR_STMT,
                    expr: Some(Box::new(binop(
                        '=',
                        Node {
                            op: ND::DEREF,
                            expr: Some(Box::new(binop('+', ident_ary(), num("1")))),
                            ..Default::default()
                        },
                        num("7"),
                    ))),
                    ..Default::default()
                },
                Node {
                    op: ND::RETURN,
                    expr: Some(Box::new(binop(
                        '+',
                        Node {
                            op: ND::DEREF,
                            expr: Some(Box::new(ident_ary())),
                            ..Default::default()
                        },
                        Node {
                            op: ND::DEREF,
                            expr: Some(Box::new(binop('+', ident_ary(), num("1")))),
                            ..Default::default()
                        },
                    ))),
                    ..Default::default()
                },
            ],
            ..Default::default()
        })),
        ..Default::default()
    }];

    let mut sema = SemaGenerator::new();
    let result = sema.sema(input).unwrap();

    let lvar_ary = || Node {
        op: ND::LVAR,
        val: "ary".to_string(),
        offset: 8,
        ..Default::default()
    };
    let addr_ary = || Node {
        op: ND::ADDR,
        ty: ptr_to_int(),
        expr: Some(Box::new(lvar_ary())),
        ..Default::default()
    };

    let expect = vec![Node {
        op: ND::FUNC,
        val: "main".to_string(),
        body: Some(Box::new(Node {
            op: ND::COMP_STMT,
            stmts: vec![
                Node {
                    op: ND::VARDEF,
                    ty: Type {
                        ty: TY::ARY,
                        ary_of: Some(Box::new(int_type())),
                        len: 2,
                        ..Default::default()
                    },
                    val: "ary".to_string(),
                    offset: 8,
                    ..Default::default()
                },
                Node {
                    op: ND::EXPR_STMT,
                    expr: Some(Box::new(binop(
                        '=',
                        Node {
                            op: ND::DEREF,
                            expr: Some(Box::new(addr_ary())),
                            ..Default::default()
                        },
                        num("3"),
                    ))),
                    ..Default::default()
                },
                Node {
                    op: ND::EXPR_STMT,
                    expr: Some(Box::new(binop(
                        '=',
                        Node {
                            op: ND::DEREF,
                            expr: Some(Box::new(Node {
                                op: ND::OPE('+'),
                                ty: ptr_to_int(),
                                lhs: Some(Box::new(addr_ary())),
                                rhs: Some(Box::new(num("1"))),
                                ..Default::default()
                            })),
                            ..Default::default()
                        },
                        num("7"),
                    ))),
                    ..Default::default()
                },
                Node {
                    op: ND::RETURN,
                    expr: Some(Box::new(binop(
                        '+',
                        Node {
                            op: ND::DEREF,
                            expr: Some(Box::new(addr_ary())),
                            ..Default::default()
                        },
                        Node {
                            op: ND::DEREF,
                            expr: Some(Box::new(Node {
                                op: ND::OPE('+'),
                                ty: ptr_to_int(),
                                lhs: Some(Box::new(addr_ary())),
                                rhs: Some(Box::new(num("1"))),
                                ..Default::default()
                            })),
                            ..Default::default()
                        },
                    ))),
                    ..Default::default()
                },
            ],
            ..Default::default()
        })),
        stack_size: 8,
        ..Default::default()
    }];

    assert_eq!(result.len(), expect.len());
    for i in 0..result.len() {
        assert_eq!(result[i], expect[i]);
    }
}
