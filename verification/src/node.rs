//! Recursive-descent parser: turns the reversed token stream into one tree
//! per top-level function. Tokens are consumed by popping from the end of the
//! vector (the tokenizer reverses the stream so the first token is last).
//!
//! Every parsing function consumes only tokens (the stream never grows), a
//! successful parse of a construct consumes at least one token, and every
//! failure, including a truncated stream, is a user-input error.

use vstd::prelude::*;
use vstd::string::StringExecFns;

use crate::common::{CompileError, ND, Node, TK, Token, Type};

verus! {

/// Token kinds that extend a multiplicative expression when they follow it:
/// index brackets and the multiplicative operators.
pub open spec fn continues_mul(t: TK) -> bool {
    t == TK::OPE('[') || t == TK::OPE('*') || t == TK::OPE('/')
}

/// Token kinds that extend an additive expression.
pub open spec fn continues_add(t: TK) -> bool {
    continues_mul(t) || t == TK::OPE('+') || t == TK::OPE('-')
}

/// Token kinds that extend a relational expression.
pub open spec fn continues_rel(t: TK) -> bool {
    continues_add(t) || t == TK::OPE('<') || t == TK::OPE('>')
}

/// Token kinds that extend a logical-and expression.
pub open spec fn continues_logand(t: TK) -> bool {
    continues_rel(t) || t == TK::LOGAND
}

/// Token kinds that extend a logical-or expression.
pub open spec fn continues_logor(t: TK) -> bool {
    continues_logand(t) || t == TK::LOGOR
}

/// Token kinds that extend an assignment expression. A number followed by any
/// other token parses as a complete expression by itself.
pub open spec fn continues_expr(t: TK) -> bool {
    continues_logor(t) || t == TK::OPE('=')
}

/// A parse failure: bad or truncated user input.
fn perr(m: &str) -> (e: CompileError)
    ensures
        e is UserInput,
{
    CompileError::UserInput(String::from_str(m))
}

/// A binary-operator node with the given children.
pub fn new_binop(op: ND, lhs: Node, rhs: Node) -> (r: Node)
    ensures
        r.op == op,
        r.lhs matches Some(l) && *l == lhs,
        r.rhs matches Some(rr) && *rr == rhs,
{
    let mut r = Node::default();
    r.op = op;
    r.lhs = Some(Box::new(lhs));
    r.rhs = Some(Box::new(rhs));
    r
}

/// A unary node with the given operand.
pub fn new_expr(op: ND, expr: Node) -> (r: Node)
    ensures
        r.op == op,
        r.expr matches Some(e) && *e == expr,
{
    let mut r = Node::default();
    r.op = op;
    r.expr = Some(Box::new(expr));
    r
}

/// Pop the next token, which must be of kind `ty`; an empty stream passes
/// silently.
pub fn expect(ty: TK, tokens: &mut Vec<Token>) -> (r: Result<(), CompileError>)
    ensures
        old(tokens)@.len() == 0 ==> r is Ok && final(tokens)@ == old(tokens)@,
        old(tokens)@.len() > 0 ==> final(tokens)@ == old(tokens)@.drop_last() && (r is Ok
            <==> old(tokens)@.last().ty == ty),
        r matches Err(e) ==> e is UserInput,
{
    match tokens.pop() {
        Some(t) => {
            if t.ty == ty {
                Ok(())
            } else {
                Err(perr("unexpected token"))
            }
        },
        None => Ok(()),
    }
}

/// Pop the next token if it is of kind `ope`; otherwise leave the stream
/// unchanged.
pub fn consume(ope: TK, tokens: &mut Vec<Token>) -> (r: bool)
    ensures
        r == (old(tokens)@.len() > 0 && old(tokens)@.last().ty == ope),
        r ==> final(tokens)@ == old(tokens)@.drop_last(),
        !r ==> final(tokens)@ == old(tokens)@,
{
    match tokens.pop() {
        Some(t) => {
            if t.ty == ope {
                true
            } else {
                let ghost pre = tokens@;
                tokens.push(t);
                proof {
                    assert(tokens@ =~= old(tokens)@);
                }
                false
            }
        },
        None => false,
    }
}

/// Whether the next token begins a type name.
pub fn is_typename(tokens: &Vec<Token>) -> (r: bool)
    ensures
        r == (tokens@.len() > 0 && (tokens@.last().ty == TK::INT || tokens@.last().ty
            == TK::CHAR)),
{
    if tokens.len() == 0 {
        return false;
    }
    let t = &tokens[tokens.len() - 1];
    t.ty == TK::INT || t.ty == TK::CHAR
}

/// Parse a primary expression: a parenthesized expression, a number, or an
/// identifier (possibly a call with arguments).
#[verifier::loop_isolation(false)]
fn primary(tokens: &mut Vec<Token>) -> (r: Result<Node, CompileError>)
    ensures
        old(tokens)@.len() >= 1 && old(tokens)@.last().ty == TK::NUM ==> (r matches Ok(n)
            && n.op == ND::NUM && n.val == old(tokens)@.last().val && final(tokens)@
            == old(tokens)@.drop_last()),
        old(tokens)@.len() >= 2 && old(tokens)@.last().ty == TK::IDENT && old(tokens)@[old(
            tokens,
        )@.len() - 2].ty != TK::OPE('(') ==> (r matches Ok(n) && n.op == ND::IDENT && n.val
            == old(tokens)@.last().val && final(tokens)@ == old(tokens)@.drop_last()),
        final(tokens)@.len() <= old(tokens)@.len(),
        r is Ok ==> final(tokens)@.len() < old(tokens)@.len(),
        r matches Err(e) ==> e is UserInput,
    decreases tokens@.len(), 0int,
{
    let token = match tokens.pop() {
        Some(t) => t,
        None => {
            return Err(perr("unexpected end of input"));
        },
    };
    if token.ty == TK::OPE('(') {
        let node = match assign(tokens) {
            Ok(n) => n,
            Err(e) => {
                return Err(e);
            },
        };
        match expect(TK::OPE(')'), tokens) {
            Ok(u) => {},
            Err(e) => {
                return Err(e);
            },
        }
        return Ok(node);
    }
    if token.ty == TK::NUM {
        let mut node = Node::default();
        node.op = ND::NUM;
        node.val = token.val;
        return Ok(node);
    }
    if token.ty == TK::IDENT {
        let mut node = Node::default();
        node.op = ND::IDENT;
        node.val = token.val;
        if !consume(TK::OPE('('), tokens) {
            return Ok(node);
        }
        node.op = ND::CALL;
        if consume(TK::OPE(')'), tokens) {
            return Ok(node);
        }
        let first = match assign(tokens) {
            Ok(n) => n,
            Err(e) => {
                return Err(e);
            },
        };
        node.args.push(first);
        let mut more = consume(TK::OPE(','), tokens);
        while more
            invariant
                tokens@.len() < old(tokens)@.len(),
            decreases tokens@.len(), (if more {
                1int
            } else {
                0int
            }),
        {
            let next = match assign(tokens) {
                Ok(n) => n,
                Err(e) => {
                    return Err(e);
                },
            };
            node.args.push(next);
            more = consume(TK::OPE(','), tokens);
        }
        match expect(TK::OPE(')'), tokens) {
            Ok(u) => {},
            Err(e) => {
                return Err(e);
            },
        }
        return Ok(node);
    }
    Err(perr("primary expression expected"))
}

/// Parse a postfix expression: a primary followed by index operators, each
/// sugar for a dereference of a pointer offset.
#[verifier::loop_isolation(false)]
fn postfix(tokens: &mut Vec<Token>) -> (r: Result<Node, CompileError>)
    ensures
        old(tokens)@.len() >= 1 && old(tokens)@.last().ty == TK::NUM && (old(tokens)@.len() >= 2
            ==> !continues_mul(old(tokens)@[old(tokens)@.len() - 2].ty)) ==> (r matches Ok(n)
            && n.op == ND::NUM && n.val == old(tokens)@.last().val && final(tokens)@
            == old(tokens)@.drop_last()),
        // an index suffix is sugar for a dereference of a pointer offset: the
        // indexing of a variable by a number parses to exactly that shape
        ({
            let ts = old(tokens)@;
            ts.len() == 4 && ts[3].ty == TK::IDENT && ts[2].ty == TK::OPE('[') && ts[1].ty
                == TK::NUM && ts[0].ty == TK::OPE(']')
        }) ==> (r matches Ok(n) && n.op == ND::DEREF && final(tokens)@.len() == 0 && (
        n.expr matches Some(e) && e.op == ND::OPE('+') && (e.lhs matches Some(b) && b.op
            == ND::IDENT && b.val == old(tokens)@[3].val) && (e.rhs matches Some(ix) && ix.op
            == ND::NUM && ix.val == old(tokens)@[1].val))),
        final(tokens)@.len() <= old(tokens)@.len(),
        r is Ok ==> final(tokens)@.len() < old(tokens)@.len(),
        r matches Err(e) ==> e is UserInput,
    decreases tokens@.len(), 1int,
{
    let mut lhs = match primary(tokens) {
        Ok(n) => n,
        Err(e) => {
            return Err(e);
        },
    };
    let mut more = consume(TK::OPE('['), tokens);
    proof {
        let ts = old(tokens)@;
        if ts.len() == 4 && ts[3].ty == TK::IDENT && ts[2].ty == TK::OPE('[') && ts[1].ty
            == TK::NUM && ts[0].ty == TK::OPE(']') {
            assert(ts.drop_last() =~= ts.take(3));
            assert(ts.take(3).last() == ts[2]);
            assert(ts.take(3).drop_last() =~= ts.take(2));
        }
    }
    while more
        invariant
            tokens@.len() < old(tokens)@.len(),
            (old(tokens)@.len() >= 1 && old(tokens)@.last().ty == TK::NUM && (old(tokens)@.len() >= 2 ==> !continues_mul(old(tokens)@[old(tokens)@.len() - 2].ty))) ==> (!more && lhs.op == ND::NUM && lhs.val == old(tokens)@.last().val && tokens@ == old(tokens)@.drop_last()),
            ({
                let ts = old(tokens)@;
                ts.len() == 4 && ts[3].ty == TK::IDENT && ts[2].ty == TK::OPE('[') && ts[1].ty
                    == TK::NUM && ts[0].ty == TK::OPE(']')
            }) ==> ((more && lhs.op == ND::IDENT && lhs.val == old(tokens)@[3].val && tokens@
                == old(tokens)@.take(2)) || (!more && lhs.op == ND::DEREF && tokens@.len() == 0
                && (
            lhs.expr matches Some(e) && e.op == ND::OPE('+') && (e.lhs matches Some(b) && b.op
                == ND::IDENT && b.val == old(tokens)@[3].val) && (e.rhs matches Some(ix)
                && ix.op == ND::NUM && ix.val == old(tokens)@[1].val)))),
        decreases tokens@.len(), (if more {
            1int
        } else {
            0int
        }),
    {
        proof {
            let ts = old(tokens)@;
            if ts.len() == 4 && ts[3].ty == TK::IDENT && ts[2].ty == TK::OPE('[') && ts[1].ty
                == TK::NUM && ts[0].ty == TK::OPE(']') && tokens@ == ts.take(2) {
                assert(ts.take(2).last() == ts[1]);
                assert(ts.take(2)[0] == ts[0]);
                assert(ts.take(2).drop_last() =~= ts.take(1));
                assert(ts.take(1).last() == ts[0]);
                assert(ts.take(1).drop_last() =~= ts.take(0));
            }
        }
        let idx = match assign(tokens) {
            Ok(n) => n,
            Err(e) => {
                return Err(e);
            },
        };
        lhs = new_expr(ND::DEREF, new_binop(ND::OPE('+'), lhs, idx));
        match expect(TK::OPE(']'), tokens) {
            Ok(u) => {},
            Err(e) => {
                return Err(e);
            },
        }
        more = consume(TK::OPE('['), tokens);
    }
    Ok(lhs)
}

/// Parse a unary expression: dereference, address-of, sizeof, or a postfix
/// expression.
fn unary(tokens: &mut Vec<Token>) -> (r: Result<Node, CompileError>)
    ensures
        old(tokens)@.len() >= 1 && old(tokens)@.last().ty == TK::NUM && (old(tokens)@.len() >= 2
            ==> !continues_mul(old(tokens)@[old(tokens)@.len() - 2].ty)) ==> (r matches Ok(n)
            && n.op == ND::NUM && n.val == old(tokens)@.last().val && final(tokens)@
            == old(tokens)@.drop_last()),
        final(tokens)@.len() <= old(tokens)@.len(),
        r is Ok ==> final(tokens)@.len() < old(tokens)@.len(),
        r matches Err(e) ==> e is UserInput,
    decreases tokens@.len(), 2int,
{
    if consume(TK::OPE('*'), tokens) {
        let inner = match crate::node::mul(tokens) {
            Ok(n) => n,
            Err(e) => {
                return Err(e);
            },
        };
        return Ok(new_expr(ND::DEREF, inner));
    }
    if consume(TK::OPE('&'), tokens) {
        let inner = match crate::node::mul(tokens) {
            Ok(n) => n,
            Err(e) => {
                return Err(e);
            },
        };
        return Ok(new_expr(ND::ADDR, inner));
    }
    if consume(TK::SIZEOF, tokens) {
        let inner = match unary(tokens) {
            Ok(n) => n,
            Err(e) => {
                return Err(e);
            },
        };
        return Ok(new_expr(ND::SIZEOF, inner));
    }
    postfix(tokens)
}

/// Parse a multiplicative expression: unary expressions joined by `*` or `/`,
/// left associative.
#[verifier::loop_isolation(false)]
fn mul(tokens: &mut Vec<Token>) -> (r: Result<Node, CompileError>)
    ensures
        old(tokens)@.len() >= 1 && old(tokens)@.last().ty == TK::NUM && (old(tokens)@.len() >= 2
            ==> !continues_mul(old(tokens)@[old(tokens)@.len() - 2].ty)) ==> (r matches Ok(n)
            && n.op == ND::NUM && n.val == old(tokens)@.last().val && final(tokens)@
            == old(tokens)@.drop_last()),
        final(tokens)@.len() <= old(tokens)@.len(),
        r is Ok ==> final(tokens)@.len() < old(tokens)@.len(),
        r matches Err(e) ==> e is UserInput,
    decreases tokens@.len(), 3int,
{
    let mut lhs = match unary(tokens) {
        Ok(n) => n,
        Err(e) => {
            return Err(e);
        },
    };
    let mut go = true;
    while go
        invariant
            tokens@.len() < old(tokens)@.len(),
            (old(tokens)@.len() >= 1 && old(tokens)@.last().ty == TK::NUM && (old(tokens)@.len() >= 2 ==> !continues_mul(old(tokens)@[old(tokens)@.len() - 2].ty))) ==> (lhs.op == ND::NUM && lhs.val == old(tokens)@.last().val
                && tokens@ == old(tokens)@.drop_last()),
        decreases tokens@.len(), (if go {
            1int
        } else {
            0int
        }),
    {
        let ghost tk0 = tokens@;
        match tokens.pop() {
            Some(token) => {
                if token.ty == TK::OPE('*') || token.ty == TK::OPE('/') {
                    let o: char = if token.ty == TK::OPE('*') {
                        '*'
                    } else {
                        '/'
                    };
                    let rhs = match unary(tokens) {
                        Ok(n) => n,
                        Err(e) => {
                            return Err(e);
                        },
                    };
                    lhs = new_binop(ND::OPE(o), lhs, rhs);
                } else {
                    tokens.push(token);
                    proof {
                        assert(tokens@ =~= tk0);
                    }
                    go = false;
                }
            },
            None => {
                go = false;
            },
        }
    }
    Ok(lhs)
}

/// Parse an additive expression: multiplicative expressions joined by `+` or
/// `-`, left associative.
#[verifier::loop_isolation(false)]
fn add(tokens: &mut Vec<Token>) -> (r: Result<Node, CompileError>)
    ensures
        old(tokens)@.len() >= 1 && old(tokens)@.last().ty == TK::NUM && (old(tokens)@.len() >= 2
            ==> !continues_add(old(tokens)@[old(tokens)@.len() - 2].ty)) ==> (r matches Ok(n)
            && n.op == ND::NUM && n.val == old(tokens)@.last().val && final(tokens)@
            == old(tokens)@.drop_last()),
        final(tokens)@.len() <= old(tokens)@.len(),
        r is Ok ==> final(tokens)@.len() < old(tokens)@.len(),
        r matches Err(e) ==> e is UserInput,
    decreases tokens@.len(), 4int,
{
    let mut lhs = match crate::node::mul(tokens) {
        Ok(n) => n,
        Err(e) => {
            return Err(e);
        },
    };
    let mut go = true;
    while go
        invariant
            tokens@.len() < old(tokens)@.len(),
            (old(tokens)@.len() >= 1 && old(tokens)@.last().ty == TK::NUM && (old(tokens)@.len() >= 2 ==> !continues_add(old(tokens)@[old(tokens)@.len() - 2].ty))) ==> (lhs.op == ND::NUM && lhs.val == old(tokens)@.last().val
                && tokens@ == old(tokens)@.drop_last()),
        decreases tokens@.len(), (if go {
            1int
        } else {
            0int
        }),
    {
        let ghost tk0 = tokens@;
        match tokens.pop() {
            Some(token) => {
                if token.ty == TK::OPE('+') || token.ty == TK::OPE('-') {
                    let o: char = if token.ty == TK::OPE('+') {
                        '+'
                    } else {
                        '-'
                    };
                    let rhs = match crate::node::mul(tokens) {
                        Ok(n) => n,
                        Err(e) => {
                            return Err(e);
                        },
                    };
                    lhs = new_binop(ND::OPE(o), lhs, rhs);
                } else {
                    tokens.push(token);
                    proof {
                        assert(tokens@ =~= tk0);
                    }
                    go = false;
                }
            },
            None => {
                go = false;
            },
        }
    }
    Ok(lhs)
}

/// Parse a relational expression: additive expressions joined by `<` or `>`
/// (the latter is parsed as `<` with the operands exchanged).
#[verifier::loop_isolation(false)]
fn rel(tokens: &mut Vec<Token>) -> (r: Result<Node, CompileError>)
    ensures
        old(tokens)@.len() >= 1 && old(tokens)@.last().ty == TK::NUM && (old(tokens)@.len() >= 2
            ==> !continues_rel(old(tokens)@[old(tokens)@.len() - 2].ty)) ==> (r matches Ok(n)
            && n.op == ND::NUM && n.val == old(tokens)@.last().val && final(tokens)@
            == old(tokens)@.drop_last()),
        // a lone comparison always parses to a less-than node: `a < b` keeps
        // its operands, `a > b` exchanges them
        ({
            let ts = old(tokens)@;
            ts.len() == 3 && ts[2].ty == TK::NUM && (ts[1].ty == TK::OPE('<') || ts[1].ty
                == TK::OPE('>')) && ts[0].ty == TK::NUM
        }) ==> (r matches Ok(n) && n.op == ND::OPE('<') && final(tokens)@.len() == 0 && (
        n.lhs matches Some(l2) && n.rhs matches Some(r2) && l2.op == ND::NUM && r2.op == ND::NUM
            && (old(tokens)@[1].ty == TK::OPE('<') ==> l2.val == old(tokens)@[2].val && r2.val
            == old(tokens)@[0].val) && (old(tokens)@[1].ty == TK::OPE('>') ==> l2.val
            == old(tokens)@[0].val && r2.val == old(tokens)@[2].val))),
        final(tokens)@.len() <= old(tokens)@.len(),
        r is Ok ==> final(tokens)@.len() < old(tokens)@.len(),
        r matches Err(e) ==> e is UserInput,
    decreases tokens@.len(), 5int,
{
    let mut lhs = match crate::node::add(tokens) {
        Ok(n) => n,
        Err(e) => {
            return Err(e);
        },
    };
    let mut go = true;
    while go
        invariant
            tokens@.len() < old(tokens)@.len(),
            (old(tokens)@.len() >= 1 && old(tokens)@.last().ty == TK::NUM && (old(tokens)@.len() >= 2 ==> !continues_rel(old(tokens)@[old(tokens)@.len() - 2].ty))) ==> (lhs.op == ND::NUM && lhs.val == old(tokens)@.last().val
                && tokens@ == old(tokens)@.drop_last()),
            ({
                let ts = old(tokens)@;
                ts.len() == 3 && ts[2].ty == TK::NUM && (ts[1].ty == TK::OPE('<') || ts[1].ty
                    == TK::OPE('>')) && ts[0].ty == TK::NUM
            }) ==> ((go && lhs.op == ND::NUM && lhs.val == old(tokens)@[2].val && tokens@
                == old(tokens)@.take(2)) || (lhs.op == ND::OPE('<') && tokens@.len() == 0
                && (lhs.lhs matches Some(l2) && lhs.rhs matches Some(r2) && l2.op == ND::NUM
                && r2.op == ND::NUM && (old(tokens)@[1].ty == TK::OPE('<') ==> l2.val
                == old(tokens)@[2].val && r2.val == old(tokens)@[0].val) && (old(tokens)@[1].ty
                == TK::OPE('>') ==> l2.val == old(tokens)@[0].val && r2.val
                == old(tokens)@[2].val)))),
        decreases tokens@.len(), (if go {
            1int
        } else {
            0int
        }),
    {
        let ghost tk0 = tokens@;
        match tokens.pop() {
            Some(token) => {
                proof {
                    let ts = old(tokens)@;
                    if ts.len() == 3 && ts[2].ty == TK::NUM && (ts[1].ty == TK::OPE('<')
                        || ts[1].ty == TK::OPE('>')) && ts[0].ty == TK::NUM && tk0 == ts.take(2) {
                        assert(tokens@ =~= ts.take(1));
                        assert(ts.take(1).last() == ts[0]);
                        assert(ts.take(1).drop_last() =~= ts.take(0));
                    }
                }
                if token.ty == TK::OPE('<') {
                    let rhs = match crate::node::add(tokens) {
                        Ok(n) => n,
                        Err(e) => {
                            return Err(e);
                        },
                    };
                    lhs = new_binop(ND::OPE('<'), lhs, rhs);
                } else if token.ty == TK::OPE('>') {
                    let rhs = match crate::node::add(tokens) {
                        Ok(n) => n,
                        Err(e) => {
                            return Err(e);
                        },
                    };
                    lhs = new_binop(ND::OPE('<'), rhs, lhs);
                } else {
                    tokens.push(token);
                    proof {
                        assert(tokens@ =~= tk0);
                    }
                    go = false;
                }
            },
            None => {
                go = false;
            },
        }
    }
    Ok(lhs)
}

/// Parse a logical-and expression.
#[verifier::loop_isolation(false)]
fn logand(tokens: &mut Vec<Token>) -> (r: Result<Node, CompileError>)
    ensures
        old(tokens)@.len() >= 1 && old(tokens)@.last().ty == TK::NUM && (old(tokens)@.len() >= 2
            ==> !continues_logand(old(tokens)@[old(tokens)@.len() - 2].ty)) ==> (r matches Ok(n)
            && n.op == ND::NUM && n.val == old(tokens)@.last().val && final(tokens)@
            == old(tokens)@.drop_last()),
        final(tokens)@.len() <= old(tokens)@.len(),
        r is Ok ==> final(tokens)@.len() < old(tokens)@.len(),
        r matches Err(e) ==> e is UserInput,
    decreases tokens@.len(), 6int,
{
    let mut lhs = match rel(tokens) {
        Ok(n) => n,
        Err(e) => {
            return Err(e);
        },
    };
    let mut go = true;
    while go
        invariant
            tokens@.len() < old(tokens)@.len(),
            (old(tokens)@.len() >= 1 && old(tokens)@.last().ty == TK::NUM && (old(tokens)@.len() >= 2 ==> !continues_logand(old(tokens)@[old(tokens)@.len() - 2].ty))) ==> (lhs.op == ND::NUM && lhs.val == old(tokens)@.last().val
                && tokens@ == old(tokens)@.drop_last()),
        decreases tokens@.len(), (if go {
            1int
        } else {
            0int
        }),
    {
        let ghost tk0 = tokens@;
        match tokens.pop() {
            Some(token) => {
                if token.ty == TK::LOGAND {
                    let rhs = match rel(tokens) {
                        Ok(n) => n,
                        Err(e) => {
                            return Err(e);
                        },
                    };
                    lhs = new_binop(ND::LOGAND, lhs, rhs);
                } else {
                    tokens.push(token);
                    proof {
                        assert(tokens@ =~= tk0);
                    }
                    go = false;
                }
            },
            None => {
                go = false;
            },
        }
    }
    Ok(lhs)
}

/// Parse a logical-or expression.
#[verifier::loop_isolation(false)]
fn logor(tokens: &mut Vec<Token>) -> (r: Result<Node, CompileError>)
    ensures
        old(tokens)@.len() >= 1 && old(tokens)@.last().ty == TK::NUM && (old(tokens)@.len() >= 2
            ==> !continues_logor(old(tokens)@[old(tokens)@.len() - 2].ty)) ==> (r matches Ok(n)
            && n.op == ND::NUM && n.val == old(tokens)@.last().val && final(tokens)@
            == old(tokens)@.drop_last()),
        final(tokens)@.len() <= old(tokens)@.len(),
        r is Ok ==> final(tokens)@.len() < old(tokens)@.len(),
        r matches Err(e) ==> e is UserInput,
    decreases tokens@.len(), 7int,
{
    let mut lhs = match logand(tokens) {
        Ok(n) => n,
        Err(e) => {
            return Err(e);
        },
    };
    let mut go = true;
    while go
        invariant
            tokens@.len() < old(tokens)@.len(),
            (old(tokens)@.len() >= 1 && old(tokens)@.last().ty == TK::NUM && (old(tokens)@.len() >= 2 ==> !continues_logor(old(tokens)@[old(tokens)@.len() - 2].ty))) ==> (lhs.op == ND::NUM && lhs.val == old(tokens)@.last().val
                && tokens@ == old(tokens)@.drop_last()),
        decreases tokens@.len(), (if go {
            1int
        } else {
            0int
        }),
    {
        let ghost tk0 = tokens@;
        match tokens.pop() {
            Some(token) => {
                if token.ty == TK::LOGOR {
                    let rhs = match logand(tokens) {
                        Ok(n) => n,
                        Err(e) => {
                            return Err(e);
                        },
                    };
                    lhs = new_binop(ND::LOGOR, lhs, rhs);
                } else {
                    tokens.push(token);
                    proof {
                        assert(tokens@ =~= tk0);
                    }
                    go = false;
                }
            },
            None => {
                go = false;
            },
        }
    }
    Ok(lhs)
}

/// Parse an assignment expression (right-hand side mandatory after `=`).
fn assign(tokens: &mut Vec<Token>) -> (r: Result<Node, CompileError>)
    ensures
        old(tokens)@.len() >= 1 && old(tokens)@.last().ty == TK::NUM && (old(tokens)@.len() >= 2
            ==> !continues_expr(old(tokens)@[old(tokens)@.len() - 2].ty)) ==> (r matches Ok(n)
            && n.op == ND::NUM && n.val == old(tokens)@.last().val && final(tokens)@
            == old(tokens)@.drop_last()),
        final(tokens)@.len() <= old(tokens)@.len(),
        r is Ok ==> final(tokens)@.len() < old(tokens)@.len(),
        r matches Err(e) ==> e is UserInput,
    decreases tokens@.len(), 8int,
{
    let lhs = match logor(tokens) {
        Ok(n) => n,
        Err(e) => {
            return Err(e);
        },
    };
    if consume(TK::OPE('='), tokens) {
        let rhs = match logor(tokens) {
            Ok(n) => n,
            Err(e) => {
                return Err(e);
            },
        };
        Ok(new_binop(ND::OPE('='), lhs, rhs))
    } else {
        Ok(lhs)
    }
}

/// Parse the leading half of a type name: `int` or `char` followed by any
/// number of `*`.
#[verifier::loop_isolation(false)]
fn get_type(tokens: &mut Vec<Token>) -> (r: Result<Type, CompileError>)
    ensures
        final(tokens)@.len() <= old(tokens)@.len(),
        r is Ok ==> final(tokens)@.len() < old(tokens)@.len(),
        r matches Err(e) ==> e is UserInput,
    decreases tokens@.len(), 0int,
{
    let token = match tokens.pop() {
        Some(t) => t,
        None => {
            return Err(perr("type name expected"));
        },
    };
    let mut ty = if token.ty == TK::INT {
        Type::default()
    } else if token.ty == TK::CHAR {
        Type::new_char()
    } else {
        return Err(perr("type name expected"));
    };
    let mut more = consume(TK::OPE('*'), tokens);
    while more
        invariant
            tokens@.len() < old(tokens)@.len(),
        decreases tokens@.len(), (if more {
            1int
        } else {
            0int
        }),
    {
        ty = ty.ptr_of();
        more = consume(TK::OPE('*'), tokens);
    }
    Ok(ty)
}

/// Parse the trailing half of a declaration's type: `[n]` suffixes, applied
/// so the outermost dimension is declared first.
#[verifier::loop_isolation(false)]
fn read_array(ty: Type, tokens: &mut Vec<Token>) -> (r: Result<Type, CompileError>)
    ensures
        final(tokens)@.len() <= old(tokens)@.len(),
        r matches Err(e) ==> e is UserInput,
    decreases tokens@.len(), 0int,
{
    let mut sizes: Vec<usize> = Vec::new();
    let mut more = consume(TK::OPE('['), tokens);
    while more
        invariant
            tokens@.len() <= old(tokens)@.len(),
        decreases tokens@.len(), (if more {
            1int
        } else {
            0int
        }),
    {
        let len_node = match primary(tokens) {
            Ok(n) => n,
            Err(e) => {
                return Err(e);
            },
        };
        if !matches!(len_node.op, ND::NUM) {
            return Err(perr("number expected for an array length"));
        }
        let n = match crate::common::parse_usize(&len_node.val) {
            Some(n) => n,
            None => {
                return Err(perr("malformed array length"));
            },
        };
        sizes.push(n);
        match expect(TK::OPE(']'), tokens) {
            Ok(u) => {},
            Err(e) => {
                return Err(e);
            },
        }
        more = consume(TK::OPE('['), tokens);
    }
    let mut ty = ty;
    let mut i: usize = 0;
    let n = sizes.len();
    while i < n
        invariant
            i <= n,
        decreases n - i,
    {
        ty = ty.ary_of(sizes[i]);
        i += 1;
    }
    Ok(ty)
}

/// Parse a declaration: type, name, array suffixes, optional initializer,
/// and the terminating semicolon.
fn decl(tokens: &mut Vec<Token>) -> (r: Result<Node, CompileError>)
    ensures
        final(tokens)@.len() <= old(tokens)@.len(),
        r is Ok ==> final(tokens)@.len() < old(tokens)@.len(),
        r matches Err(e) ==> e is UserInput,
    decreases tokens@.len(), 9int,
{
    let ty = match get_type(tokens) {
        Ok(t) => t,
        Err(e) => {
            return Err(e);
        },
    };
    let mut node = Node::default();
    node.op = ND::VARDEF;
    let token = match tokens.pop() {
        Some(t) => t,
        None => {
            return Err(perr("variable name expected"));
        },
    };
    if !(token.ty == TK::IDENT) {
        return Err(perr("variable name expected"));
    }
    node.val = token.val;
    node.ty = match read_array(ty, tokens) {
        Ok(t) => t,
        Err(e) => {
            return Err(e);
        },
    };
    if consume(TK::OPE('='), tokens) {
        let init = match assign(tokens) {
            Ok(n) => n,
            Err(e) => {
                return Err(e);
            },
        };
        node.init = Some(Box::new(init));
    }
    match expect(TK::END_LINE, tokens) {
        Ok(u) => {},
        Err(e) => {
            return Err(e);
        },
    }
    Ok(node)
}

/// Parse one function parameter: a type and a name.
fn param(tokens: &mut Vec<Token>) -> (r: Result<Node, CompileError>)
    ensures
        final(tokens)@.len() <= old(tokens)@.len(),
        r is Ok ==> final(tokens)@.len() < old(tokens)@.len(),
        r matches Err(e) ==> e is UserInput,
    decreases tokens@.len(), 1int,
{
    let ty = match get_type(tokens) {
        Ok(t) => t,
        Err(e) => {
            return Err(e);
        },
    };
    let mut node = Node::default();
    node.op = ND::VARDEF;
    node.ty = ty;
    let token = match tokens.pop() {
        Some(t) => t,
        None => {
            return Err(perr("parameter name expected"));
        },
    };
    if !(token.ty == TK::IDENT) {
        return Err(perr("parameter name expected"));
    }
    node.val = token.val;
    Ok(node)
}

/// Parse an expression statement (an expression and its semicolon).
fn expr_stmt(tokens: &mut Vec<Token>) -> (r: Result<Node, CompileError>)
    ensures
        final(tokens)@.len() <= old(tokens)@.len(),
        r is Ok ==> final(tokens)@.len() < old(tokens)@.len(),
        r matches Err(e) ==> e is UserInput,
        old(tokens)@.len() >= 2 && old(tokens)@.last().ty == TK::NUM && old(tokens)@[old(tokens)@.len() - 2].ty == TK::END_LINE ==> (r matches Ok(n) && n.op == ND::EXPR_STMT && (
        n.expr matches Some(e) && e.op == ND::NUM && e.val == old(tokens)@.last().val) && final(tokens)@ == old(tokens)@.take(old(tokens)@.len() - 2)),
    decreases tokens@.len(), 9int,
{
    let e = match assign(tokens) {
        Ok(n) => n,
        Err(e) => {
            return Err(e);
        },
    };
    let node = new_expr(ND::EXPR_STMT, e);
    match expect(TK::END_LINE, tokens) {
        Ok(u) => {},
        Err(e) => {
            return Err(e);
        },
    }
    proof {
        if old(tokens)@.len() >= 2 && old(tokens)@.last().ty == TK::NUM && old(tokens)@[old(tokens)@.len() - 2].ty == TK::END_LINE {
            assert(tokens@ =~= old(tokens)@.take(old(tokens)@.len() - 2));
        }
    }
    Ok(node)
}

/// Parse one statement: a declaration, an `if`/`else`, a block, a `for`
/// loop, a `return`, or an expression statement.
#[verifier::loop_isolation(false)]
fn stmt(tokens: &mut Vec<Token>) -> (r: Result<Node, CompileError>)
    ensures
        final(tokens)@.len() <= old(tokens)@.len(),
        r is Ok ==> final(tokens)@.len() < old(tokens)@.len(),
        r matches Err(e) ==> e is UserInput,
        old(tokens)@.len() >= 2 && old(tokens)@.last().ty == TK::NUM && old(tokens)@[old(tokens)@.len() - 2].ty == TK::END_LINE ==> (r matches Ok(n) && n.op == ND::EXPR_STMT && (
        n.expr matches Some(e) && e.op == ND::NUM && e.val == old(tokens)@.last().val) && final(tokens)@ == old(tokens)@.take(old(tokens)@.len() - 2)),
    decreases tokens@.len(), 10int,
{
    let token = match tokens.pop() {
        Some(t) => t,
        None => {
            return Err(perr("statement expected"));
        },
    };
    if token.ty == TK::INT || token.ty == TK::CHAR {
        let ghost pre = tokens@;
        tokens.push(token);
        proof {
            assert(tokens@ =~= old(tokens)@);
        }
        return decl(tokens);
    }
    if token.ty == TK::IF {
        let mut node = Node::default();
        node.op = ND::IF;
        match expect(TK::OPE('('), tokens) {
            Ok(u) => {},
            Err(e) => {
                return Err(e);
            },
        }
        let cond = match assign(tokens) {
            Ok(n) => n,
            Err(e) => {
                return Err(e);
            },
        };
        node.cond = Some(Box::new(cond));
        match expect(TK::OPE(')'), tokens) {
            Ok(u) => {},
            Err(e) => {
                return Err(e);
            },
        }
        let thn = match stmt(tokens) {
            Ok(n) => n,
            Err(e) => {
                return Err(e);
            },
        };
        node.thn = Some(Box::new(thn));
        if consume(TK::ELSE, tokens) {
            let els = match stmt(tokens) {
                Ok(n) => n,
                Err(e) => {
                    return Err(e);
                },
            };
            node.els = Some(Box::new(els));
        }
        return Ok(node);
    }
    if token.ty == TK::OPE('{') {
        let mut node = Node::default();
        node.op = ND::COMP_STMT;
        let mut closed = consume(TK::OPE('}'), tokens);
        while !closed
            invariant
                tokens@.len() < old(tokens)@.len(),
            decreases tokens@.len(), (if closed {
                0int
            } else {
                1int
            }),
        {
            let s = match stmt(tokens) {
                Ok(n) => n,
                Err(e) => {
                    return Err(e);
                },
            };
            node.stmts.push(s);
            closed = consume(TK::OPE('}'), tokens);
        }
        return Ok(node);
    }
    if token.ty == TK::FOR {
        let mut node = Node::default();
        node.op = ND::FOR;
        match expect(TK::OPE('('), tokens) {
            Ok(u) => {},
            Err(e) => {
                return Err(e);
            },
        }
        if is_typename(tokens) {
            let init = match decl(tokens) {
                Ok(n) => n,
                Err(e) => {
                    return Err(e);
                },
            };
            node.init = Some(Box::new(init));
        } else {
            let init = match expr_stmt(tokens) {
                Ok(n) => n,
                Err(e) => {
                    return Err(e);
                },
            };
            node.init = Some(Box::new(init));
        }
        let cond = match assign(tokens) {
            Ok(n) => n,
            Err(e) => {
                return Err(e);
            },
        };
        node.cond = Some(Box::new(cond));
        match expect(TK::END_LINE, tokens) {
            Ok(u) => {},
            Err(e) => {
                return Err(e);
            },
        }
        let inc = match assign(tokens) {
            Ok(n) => n,
            Err(e) => {
                return Err(e);
            },
        };
        node.inc = Some(Box::new(inc));
        match expect(TK::OPE(')'), tokens) {
            Ok(u) => {},
            Err(e) => {
                return Err(e);
            },
        }
        let body = match stmt(tokens) {
            Ok(n) => n,
            Err(e) => {
                return Err(e);
            },
        };
        node.body = Some(Box::new(body));
        return Ok(node);
    }
    if token.ty == TK::RETURN {
        let mut node = Node::default();
        node.op = ND::RETURN;
        let e = match assign(tokens) {
            Ok(n) => n,
            Err(e) => {
                return Err(e);
            },
        };
        node.expr = Some(Box::new(e));
        match expect(TK::END_LINE, tokens) {
            Ok(u) => {},
            Err(e) => {
                return Err(e);
            },
        }
        return Ok(node);
    }
    let ghost pre = tokens@;
    tokens.push(token);
    proof {
        assert(tokens@ =~= old(tokens)@);
    }
    expr_stmt(tokens)
}

/// Parse the statements of a function body up to the closing brace (or the
/// end of the stream).
#[verifier::loop_isolation(false)]
fn compound_stmt(tokens: &mut Vec<Token>) -> (r: Result<Node, CompileError>)
    ensures
        final(tokens)@.len() <= old(tokens)@.len(),
        r matches Err(e) ==> e is UserInput,
        old(tokens)@.len() >= 1 && old(tokens)@.last().ty == TK::OPE('}') ==> (r matches Ok(n)
            && n.op == ND::COMP_STMT && n.stmts@.len() == 0 && final(tokens)@
            == old(tokens)@.drop_last()),
    decreases tokens@.len(), 11int,
{
    let mut node = Node::default();
    node.op = ND::COMP_STMT;
    let mut closed = consume(TK::OPE('}'), tokens);
    while !closed
        invariant
            tokens@.len() <= old(tokens)@.len(),
            (old(tokens)@.len() >= 1 && old(tokens)@.last().ty == TK::OPE('}')) ==> (closed
                && node.op == ND::COMP_STMT && node.stmts@.len() == 0 && tokens@
                == old(tokens)@.drop_last()),
        decreases tokens@.len(), (if closed {
            0int
        } else {
            1int
        }),
    {
        let peeked = match tokens.pop() {
            Some(t) => t,
            None => {
                return Ok(node);
            },
        };
        if peeked.ty == TK::EOF {
            return Ok(node);
        }
        let ghost pre = tokens@;
        tokens.push(peeked);
        let s = match stmt(tokens) {
            Ok(n) => n,
            Err(e) => {
                return Err(e);
            },
        };
        node.stmts.push(s);
        closed = consume(TK::OPE('}'), tokens);
    }
    Ok(node)
}

/// Parse one function definition: return type, name, parameter list, and
/// braced body.
#[verifier::loop_isolation(false)]
fn function(tokens: &mut Vec<Token>) -> (r: Result<Node, CompileError>)
    ensures
        final(tokens)@.len() <= old(tokens)@.len(),
        r is Ok ==> final(tokens)@.len() < old(tokens)@.len(),
        r matches Ok(n) ==> n.op == ND::FUNC,
        r matches Err(e) ==> e is UserInput,
        ({
            let ts = old(tokens)@;
            let l = ts.len() as int;
            l >= 6 && ts[l - 1].ty == TK::INT && ts[l - 2].ty == TK::IDENT && ts[l - 3].ty
                == TK::OPE('(') && ts[l - 4].ty == TK::OPE(')') && ts[l - 5].ty == TK::OPE('{')
                && ts[l - 6].ty == TK::OPE('}')
        }) ==> (r matches Ok(n) && n.op == ND::FUNC && n.val == old(tokens)@[old(tokens)@.len()
            - 2].val && n.args@.len() == 0 && (n.body matches Some(b) && b.op == ND::COMP_STMT
            && b.stmts@.len() == 0) && final(tokens)@ == old(tokens)@.take(
            old(tokens)@.len() - 6,
        )),
    decreases tokens@.len(), 12int,
{
    let t = match tokens.pop() {
        Some(t) => t,
        None => {
            return Err(perr("function return type expected"));
        },
    };
    if !(t.ty == TK::INT) {
        return Err(perr("function return type expected"));
    }
    let token = match tokens.pop() {
        Some(t2) => t2,
        None => {
            return Err(perr("function name expected"));
        },
    };
    if !(token.ty == TK::IDENT) {
        return Err(perr("function name expected"));
    }
    match expect(TK::OPE('('), tokens) {
        Ok(u) => {},
        Err(e) => {
            return Err(e);
        },
    }
    let mut node = Node::default();
    node.op = ND::FUNC;
    node.val = token.val;
    if !consume(TK::OPE(')'), tokens) {
        let first = match param(tokens) {
            Ok(n) => n,
            Err(e) => {
                return Err(e);
            },
        };
        node.args.push(first);
        let mut more = consume(TK::OPE(','), tokens);
        while more
            invariant
                tokens@.len() < old(tokens)@.len(),
                node.op == ND::FUNC,
            decreases tokens@.len(), (if more {
                1int
            } else {
                0int
            }),
        {
            let next = match param(tokens) {
                Ok(n) => n,
                Err(e) => {
                    return Err(e);
                },
            };
            node.args.push(next);
            more = consume(TK::OPE(','), tokens);
        }
        match expect(TK::OPE(')'), tokens) {
            Ok(u) => {},
            Err(e) => {
                return Err(e);
            },
        }
    }
    match expect(TK::OPE('{'), tokens) {
        Ok(u) => {},
        Err(e) => {
            return Err(e);
        },
    }
    let ghost before_body = tokens@;
    let body = match compound_stmt(tokens) {
        Ok(n) => n,
        Err(e) => {
            return Err(e);
        },
    };
    node.body = Some(Box::new(body));
    proof {
        let ts = old(tokens)@;
        let l = ts.len() as int;
        if l >= 6 && ts[l - 1].ty == TK::INT && ts[l - 2].ty == TK::IDENT && ts[l - 3].ty
            == TK::OPE('(') && ts[l - 4].ty == TK::OPE(')') && ts[l - 5].ty == TK::OPE('{') && ts[l
            - 6].ty == TK::OPE('}') {
            assert(before_body =~= ts.take(l - 5));
            assert(before_body.last() == ts[l - 6]);
            assert(tokens@ =~= ts.take(l - 6));
        }
    }
    Ok(node)
}

/// Parse the whole (reversed) token stream into one tree per top-level
/// function, stopping at the end-of-input token.
#[verifier::loop_isolation(false)]
pub fn parse(tokens: &mut Vec<Token>) -> (r: Result<Vec<Node>, CompileError>)
    ensures
        final(tokens)@.len() <= old(tokens)@.len(),
        r matches Ok(nodes) ==> forall|i: int|
            0 <= i < nodes@.len() ==> (#[trigger] nodes@[i]).op == ND::FUNC,
        r matches Err(e) ==> e is UserInput,
        old(tokens)@.len() >= 1 && old(tokens)@.last().ty == TK::EOF ==> (r matches Ok(nodes)
            && nodes@.len() == 0 && final(tokens)@ == old(tokens)@.drop_last()),
    decreases tokens@.len(), 13int,
{
    let mut nodes: Vec<Node> = Vec::new();
    let mut token = match tokens.pop() {
        Some(t) => t,
        None => {
            return Err(perr("unexpected end of input"));
        },
    };
    while !(token.ty == TK::EOF)
        invariant
            tokens@.len() < old(tokens)@.len(),
            forall|i: int| 0 <= i < nodes@.len() ==> (#[trigger] nodes@[i]).op == ND::FUNC,
            (old(tokens)@.len() >= 1 && old(tokens)@.last().ty == TK::EOF) ==> (token.ty
                == TK::EOF && nodes@.len() == 0 && tokens@ == old(tokens)@.drop_last()),
        decreases tokens@.len(),
    {
        tokens.push(token);
        let f = match function(tokens) {
            Ok(n) => n,
            Err(e) => {
                return Err(e);
            },
        };
        nodes.push(f);
        token = match tokens.pop() {
            Some(t) => t,
            None => {
                return Err(perr("unexpected end of input"));
            },
        };
    }
    Ok(nodes)
}

} // verus!