use rugcc::common::{ND, Node, TK, TY, Token, Type};
use rugcc::node::parse;

fn tok(ty: TK, val: &str) -> Token {
    Token { ty, val: val.to_string() }
}

fn num(v: &str) -> Node {
    Node { op: ND::NUM, val: v.to_string(), ..Default::default() }
}

fn ident(v: &str) -> Node {
    Node { op: ND::IDENT, val: v.to_string(), ..Default::default() }
}

fn binop(c: char, lhs: Node, rhs: Node) -> Node {
    Node {
        op: ND::OPE(c),
        lhs: Some(Box::new(lhs)),
        rhs: Some(Box::new(rhs)),
        ..Default::default()
    }
}

#[test]
fn can_parse_arithmetic_expr() {
    let mut input = vec![
        tok(TK::EOF, "EOF"),
        tok(TK::OPE('}'), "}"),
        tok(TK::END_LINE, ";"),
        tok(TK::NUM, "1"),
        tok(TK::OPE('-'), "-"),
        tok(TK::NUM, "2"),
        tok(TK::OPE('/'), "/"),
        tok(TK::OPE(')'), ")"),
        tok(TK::NUM, "3"),
        tok(TK::OPE('*'), "*"),
        tok(TK::NUM, "2"),
        tok(TK::OPE('+'), "+"),
        tok(TK::NUM, "2"),
        tok(TK::OPE('('), "("),
        tok(TK::RETURN, "return"),
        tok(TK::OPE('{'), "{"),
        tok(TK::OPE(')'), ")"),
        tok(TK::OPE('('), "("),
        tok(TK::IDENT, "main"),
        tok(TK::INT, "int"),
    ];
    let result = parse(&mut input).unwrap();

    let expect = vec![Node {
        op: ND::FUNC,
        val: "main".to_string(),
        body: Some(Box::new(Node {
            op: ND::COMP_STMT,
            stmts: vec![Node {
                op: ND::RETURN,
                expr: Some(Box::new(binop(
                    '-',
                    binop('/', binop('+', num("2"), binop('*', num("2"), num("3"))), num("2")),
                    num("1"),
                ))),
                ..Default::default()
            }],
            ..Default::default()
        })),
        ..Default::default()
    }];
    assert_eq!(result.len(), expect.len());
    for i in 0..result.len() {
        assert_eq!(result[i], expect[i]);
    }
}

#[test]
fn can_parse_function() {
    let mut input = vec![
        tok(TK::EOF, "EOF"),
        tok(TK::OPE('}'), "}"),
        tok(TK::END_LINE, ";"),
        tok(TK::OPE(')'), ")"),
        tok(TK::NUM, "2"),
        tok(TK::OPE(','), ","),
        tok(TK::NUM, "1"),
        tok(TK::OPE('('), "("),
        tok(TK::IDENT, "add"),
        tok(TK::RETURN, "return"),
        tok(TK::OPE('{'), "{"),
        tok(TK::OPE(')'), ")"),
        tok(TK::OPE('('), "("),
        tok(TK::IDENT, "main"),
        tok(TK::INT, "int"),
        tok(TK::OPE('}'), "}"),
        tok(TK::END_LINE, ";"),
        tok(TK::IDENT, "b"),
        tok(TK::OPE('+'), "+"),
        tok(TK::IDENT, "a"),
        tok(TK::RETURN, "return"),
        tok(TK::OPE('{'), "{"),
        tok(TK::OPE(')'), ")"),
        tok(TK::IDENT, "b"),
        tok(TK::INT, "int"),
        tok(TK::OPE(','), ","),
        tok(TK::IDENT, "a"),
        tok(TK::INT, "int"),
        tok(TK::OPE('('), "("),
        tok(TK::IDENT, "add"),
        tok(TK::INT, "int"),
    ];

    let result = parse(&mut input).unwrap();

    let expect = vec![
        Node {
            op: ND::FUNC,
            val: "add".to_string(),
            args: vec![
                Node { op: ND::VARDEF, val: "a".to_string(), ..Default::default() },
                Node { op: ND::VARDEF, val: "b".to_string(), ..Default::default() },
            ],
            body: Some(Box::new(Node {
                op: ND::COMP_STMT,
                stmts: vec![Node {
                    op: ND::RETURN,
                    expr: Some(Box::new(binop('+', ident("a"), ident("b")))),
                    ..Default::default()
                }],
                ..Default::default()
            })),
            ..Default::default()
        },
        Node {
            op: ND::FUNC,
            val: "main".to_string(),
            body: Some(Box::new(Node {
                op: ND::COMP_STMT,
                stmts: vec![Node {
                    op: ND::RETURN,
                    expr: Some(Box::new(Node {
                        op: ND::CALL,
                        val: "add".to_string(),
                        args: vec![num("1"), num("2")],
                        ..Default::default()
                    })),
                    ..Default::default()
                }],
                ..Default::default()
            })),
            ..Default::default()
        },
    ];

    assert_eq!(result.len(), expect.len());
    for i in 0..result.len() {
        assert_eq!(result[i], expect[i]);
    }
}

#[test]
fn greater_than_parses_as_less_than_with_swapped_operands() {
    let mut input = vec![
        tok(TK::EOF, "EOF"),
        tok(TK::OPE('}'), "}"),
        tok(TK::END_LINE, ";"),
        tok(TK::NUM, "1"),
        tok(TK::OPE('>'), ">"),
        tok(TK::NUM, "2"),
        tok(TK::RETURN, "return"),
        tok(TK::OPE('{'), "{"),
        tok(TK::OPE(')'), ")"),
        tok(TK::OPE('('), "("),
        tok(TK::IDENT, "main"),
        tok(TK::INT, "int"),
    ];
    let result = parse(&mut input).unwrap();
    let ret = result[0].body.as_ref().unwrap().stmts[0].expr.as_ref().unwrap();
    assert_eq!(ret.op, ND::OPE('<'));
    assert_eq!(ret.lhs.as_ref().unwrap().val, "1");
    assert_eq!(ret.rhs.as_ref().unwrap().val, "2");
}

#[test]
fn index_expression_desugars_to_dereference() {
    let mut input = vec![
        tok(TK::EOF, "EOF"),
        tok(TK::OPE('}'), "}"),
        tok(TK::END_LINE, ";"),
        tok(TK::OPE(']'), "]"),
        tok(TK::NUM, "1"),
        tok(TK::OPE('['), "["),
        tok(TK::IDENT, "ary"),
        tok(TK::RETURN, "return"),
        tok(TK::OPE('{'), "{"),
        tok(TK::OPE(')'), ")"),
        tok(TK::OPE('('), "("),
        tok(TK::IDENT, "main"),
        tok(TK::INT, "int"),
    ];
    let result = parse(&mut input).unwrap();
    let ret = result[0].body.as_ref().unwrap().stmts[0].expr.as_ref().unwrap();
    assert_eq!(ret.op, ND::DEREF);
    let sum = ret.expr.as_ref().unwrap();
    assert_eq!(sum.op, ND::OPE('+'));
    assert_eq!(sum.lhs.as_ref().unwrap().op, ND::IDENT);
    assert_eq!(sum.lhs.as_ref().unwrap().val, "ary");
    assert_eq!(sum.rhs.as_ref().unwrap().op, ND::NUM);
    assert_eq!(sum.rhs.as_ref().unwrap().val, "1");
}

#[test]
fn can_parse_pointer() {
    let mut input = vec![
        tok(TK::EOF, "EOF"),
        tok(TK::OPE('}'), "}"),
        tok(TK::END_LINE, ";"),
        tok(TK::OPE(')'), ")"),
        tok(TK::NUM, "1"),
        tok(TK::OPE('+'), "+"),
        tok(TK::IDENT, "ary"),
        tok(TK::OPE('('), "("),
        tok(TK::OPE('*'), "*"),
        tok(TK::OPE('+'), "+"),
        tok(TK::IDENT, "ary"),
        tok(TK::OPE('*'), "*"),
        tok(TK::RETURN, "return"),
        tok(TK::END_LINE, ";"),
        tok(TK::NUM, "7"),
        tok(TK::OPE('='), "="),
        tok(TK::OPE(')'), ")"),
        tok(TK::NUM, "1"),
        tok(TK::OPE('+'), "+"),
        tok(TK::IDENT, "ary"),
        tok(TK::OPE('('), "("),
        tok(TK::OPE('*'), "*"),
        tok(TK::END_LINE, ";"),
        tok(TK::NUM, "3"),
        tok(TK::OPE('='), "="),
        tok(TK::IDENT, "ary"),
        tok(TK::OPE('*'), "*"),
        tok(TK::END_LINE, ";"),
        tok(TK::OPE(']'), "]"),
        tok(TK::NUM, "2"),
        tok(TK::OPE('['), "["),
        tok(TK::IDENT, "ary"),
        tok(TK::INT, "int"),
        tok(TK::OPE('{'), "{"),
        tok(TK::OPE(')'), ")"),
        tok(TK::OPE('('), "("),
        tok(TK::IDENT, "main"),
        tok(TK::INT, "int"),
    ];

    let result = parse(&mut input).unwrap();

    let expect = vec![Node {
        op: ND::FUNC,
        val: "main".to_string(),
        body: Some(Box::new(Node {
            op: ND::COMP_STMT,
            stmts: vec![
                Node {
                    op: ND::VARDEF,
                    ty: Type {
                        ty: TY::ARY,
                        ary_of: Some(Box::new(Type::default())),
                        len: 2,
                        ..Default::default()
                    },
                    val: "ary".to_string(),
                    ..Default::default()
                },
                Node {
                    op: ND::EXPR_STMT,
                    expr: Some(Box::new(binop(
                        '=',
                        Node {
                            op: ND::DEREF,
                            expr: Some(Box::new(ident("ary"))),
                            ..Default::default()
                        },
                        num("3"),
                    ))),
                    ..Default::default()
                },
                Node {
                    op: ND::EXPR_STMT,
                    expr: Some(Box::new(binop(
                        '=',
                        Node {
                            op: ND::DEREF,
                            expr: Some(Box::new(binop('+', ident("ary"), num("1")))),
                            ..Default::default()
                        },
                        num("7"),
                    ))),
                    ..Default::default()
                },
                Node {
                    op: ND::RETURN,
                    expr: Some(Box::new(binop(
                        '+',
                        Node {
                            op: ND::DEREF,
                            expr: Some(Box::new(ident("ary"))),
                            ..Default::default()
                        },
                        Node {
                            op: ND::DEREF,
                            expr: Some(Box::new(binop('+', ident("ary"), num("1")))),
                            ..Default::default()
                        },
                    ))),
                    ..Default::default()
                },
            ],
            ..Default::default()
        })),
        ..Default::default()
    }];

    assert_eq!(result.len(), expect.len());
    for i in 0..result.len() {
        assert_eq!(result[i], expect[i]);
    }
}
