use rugcc::common::{TK, Token};
use rugcc::token::tokenize;

fn tok(ty: TK, val: &str) -> Token {
    Token { ty, val: val.to_string() }
}

#[test]
fn can_tokenize_arithmetic_expr() {
    let input = "int main() { return (2+2*3)/2-1;}".chars().collect();

    let result = tokenize(input).unwrap();
    let expect = vec![
        tok(TK::EOF, "EOF"),
        tok(TK::OPE('}'), "}"),
        tok(TK::END_LINE, ";"),
        tok(TK::NUM, "1"),
        tok(TK::OPE('-'), "-"),
        tok(TK::NUM, "2"),
        tok(TK::OPE('/'), "/"),
        tok(TK::OPE(')'), ")"),
        tok(TK::NUM, "3"),
        tok(TK::OPE('*'), "*"),
        tok(TK::NUM, "2"),
        tok(TK::OPE('+'), "+"),
        tok(TK::NUM, "2"),
        tok(TK::OPE('('), "("),
        tok(TK::RETURN, "return"),
        tok(TK::OPE('{'), "{"),
        tok(TK::OPE(')'), ")"),
        tok(TK::OPE('('), "("),
        tok(TK::IDENT, "main"),
        tok(TK::INT, "int"),
    ];
    assert_eq!(result.len(), expect.len());
    for i in 0..result.len() {
        assert_eq!(result[i], expect[i]);
    }
}

#[test]
fn can_tokenize_function() {
    let input = "int add(int a,int b) {return a+b;} int main() { return add(1,2); }"
        .chars()
        .collect();

    let result = tokenize(input).unwrap();

    let expect = vec![
        tok(TK::EOF, "EOF"),
        tok(TK::OPE('}'), "}"),
        tok(TK::END_LINE, ";"),
        tok(TK::OPE(')'), ")"),
        tok(TK::NUM, "2"),
        tok(TK::OPE(','), ","),
        tok(TK::NUM, "1"),
        tok(TK::OPE('('), "("),
        tok(TK::IDENT, "add"),
        tok(TK::RETURN, "return"),
        tok(TK::OPE('{'), "{"),
        tok(TK::OPE(')'), ")"),
        tok(TK::OPE('('), "("),
        tok(TK::IDENT, "main"),
        tok(TK::INT, "int"),
        tok(TK::OPE('}'), "}"),
        tok(TK::END_LINE, ";"),
        tok(TK::IDENT, "b"),
        tok(TK::OPE('+'), "+"),
        tok(TK::IDENT, "a"),
        tok(TK::RETURN, "return"),
        tok(TK::OPE('{'), "{"),
        tok(TK::OPE(')'), ")"),
        tok(TK::IDENT, "b"),
        tok(TK::INT, "int"),
        tok(TK::OPE(','), ","),
        tok(TK::IDENT, "a"),
        tok(TK::INT, "int"),
        tok(TK::OPE('('), "("),
        tok(TK::IDENT, "add"),
        tok(TK::INT, "int"),
    ];

    assert_eq!(result.len(), expect.len());
    for i in 0..result.len() {
        assert_eq!(result[i], expect[i]);
    }
}

#[test]
fn can_tokenize_pointer() {
    let input = "int main() { int ary[2]; *ary=3; *(ary+1)=7; return *ary + *(ary+1);}"
        .chars()
        .collect();

    let result = tokenize(input).unwrap();

    let expect = vec![
        tok(TK::EOF, "EOF"),
        tok(TK::OPE('}'), "}"),
        tok(TK::END_LINE, ";"),
        tok(TK::OPE(')'), ")"),
        tok(TK::NUM, "1"),
        tok(TK::OPE('+'), "+"),
        tok(TK::IDENT, "ary"),
        tok(TK::OPE('('), "("),
        tok(TK::OPE('*'), "*"),
        tok(TK::OPE('+'), "+"),
        tok(TK::IDENT, "ary"),
        tok(TK::OPE('*'), "*"),
        tok(TK::RETURN, "return"),
        tok(TK::END_LINE, ";"),
        tok(TK::NUM, "7"),
        tok(TK::OPE('='), "="),
        tok(TK::OPE(')'), ")"),
        tok(TK::NUM, "1"),
        tok(TK::OPE('+'), "+"),
        tok(TK::IDENT, "ary"),
        tok(TK::OPE('('), "("),
        tok(TK::OPE('*'), "*"),
        tok(TK::END_LINE, ";"),
        tok(TK::NUM, "3"),
        tok(TK::OPE('='), "="),
        tok(TK::IDENT, "ary"),
        tok(TK::OPE('*'), "*"),
        tok(TK::END_LINE, ";"),
        tok(TK::OPE(']'), "]"),
        tok(TK::NUM, "2"),
        tok(TK::OPE('['), "["),
        tok(TK::IDENT, "ary"),
        tok(TK::INT, "int"),
        tok(TK::OPE('{'), "{"),
        tok(TK::OPE(')'), ")"),
        tok(TK::OPE('('), "("),
        tok(TK::IDENT, "main"),
        tok(TK::INT, "int"),
    ];

    assert_eq!(result.len(), expect.len());
    for i in 0..result.len() {
        assert_eq!(result[i], expect[i]);
    }
}

#[test]
fn tokenize_rejects_unknown_characters() {
    let input = "int main() { return 1 ? 2; }".chars().collect();
    let err = tokenize(input).unwrap_err();
    assert!(matches!(err, rugcc::common::CompileError::UserInput(_)));
}

#[test]
fn tokenize_rejects_single_vertical_bar() {
    let input = "int main() { return 1 | 2; }".chars().collect();
    let err = tokenize(input).unwrap_err();
    assert!(matches!(err, rugcc::common::CompileError::UserInput(_)));
}

#[test]
fn tokenize_pairs_logical_operators() {
    let input = "a && b || c & d".chars().collect();
    let result = tokenize(input).unwrap();
    let expect = vec![
        tok(TK::EOF, "EOF"),
        tok(TK::IDENT, "d"),
        tok(TK::OPE('&'), "&"),
        tok(TK::IDENT, "c"),
        tok(TK::LOGOR, "||"),
        tok(TK::IDENT, "b"),
        tok(TK::LOGAND, "&&"),
        tok(TK::IDENT, "a"),
    ];
    assert_eq!(result, expect);
}
