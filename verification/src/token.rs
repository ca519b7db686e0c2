//! Tokenizer: turns source text (a sequence of characters) into a token
//! stream. The stream is reversed before it is returned, so the parser can
//! consume it by popping from the end; its first element is the end-of-input
//! token.
//!
//! Character classes are the ASCII ones: letters, digits and `_` form
//! identifiers and keywords, `;` ends a statement, a fixed set of operator
//! characters form operator tokens (`&&` and `||` pair up), and any other
//! character is a user-input error.

use vstd::prelude::*;
use vstd::string::StringExecFns;

use crate::common::{CompileError, TK, Token, TokenModel, is_digit_char, tokens_model};

verus! {

/// Relies on String::push: appends exactly the given character.
#[verifier::external_body]
fn push_char(s: &mut String, c: char)
    ensures
        final(s)@ == old(s)@.push(c),
{
    s.push(c);
}

/// ASCII whitespace.
pub open spec fn is_space_char(c: char) -> bool {
    c == ' ' || c == '\t' || c == '\n' || c == '\r'
}

/// Characters that form single-character operator tokens.
pub open spec fn is_op_char(c: char) -> bool {
    c == '+' || c == '-' || c == '*' || c == '/' || c == '=' || c == '(' || c == ')' || c == ','
        || c == '{' || c == '}' || c == '<' || c == '>' || c == '[' || c == ']'
}

/// Characters that may start an identifier.
pub open spec fn is_ident_start_char(c: char) -> bool {
    ('a' <= c && c <= 'z') || ('A' <= c && c <= 'Z') || c == '_'
}

/// Characters that may continue an identifier.
pub open spec fn is_ident_char(c: char) -> bool {
    is_ident_start_char(c) || is_digit_char(c)
}

/// The token kind of an identifier: a keyword's own kind, or a plain
/// identifier.
pub open spec fn spec_keyword_tk(name: Seq<char>) -> TK {
    if name == "return"@ {
        TK::RETURN
    } else if name == "if"@ {
        TK::IF
    } else if name == "else"@ {
        TK::ELSE
    } else if name == "for"@ {
        TK::FOR
    } else if name == "int"@ {
        TK::INT
    } else if name == "char"@ {
        TK::CHAR
    } else if name == "sizeof"@ {
        TK::SIZEOF
    } else {
        TK::IDENT
    }
}

fn is_space(c: char) -> (r: bool)
    ensures
        r == is_space_char(c),
{
    c == ' ' || c == '\t' || c == '\n' || c == '\r'
}

fn is_op(c: char) -> (r: bool)
    ensures
        r == is_op_char(c),
{
    c == '+' || c == '-' || c == '*' || c == '/' || c == '=' || c == '(' || c == ')' || c == ','
        || c == '{' || c == '}' || c == '<' || c == '>' || c == '[' || c == ']'
}

fn is_ident_start(c: char) -> (r: bool)
    ensures
        r == is_ident_start_char(c),
{
    let u = c as u32;
    (97 <= u && u <= 122) || (65 <= u && u <= 90) || u == 95
}

fn is_ident_cont(c: char) -> (r: bool)
    ensures
        r == is_ident_char(c),
{
    let u = c as u32;
    (97 <= u && u <= 122) || (65 <= u && u <= 90) || u == 95 || (48 <= u && u <= 57)
}

fn is_digit(c: char) -> (r: bool)
    ensures
        r == is_digit_char(c),
{
    let u = c as u32;
    48 <= u && u <= 57
}

/// The text of a single-character operator token.
fn op_text(c: char) -> (r: String)
    ensures
        r@ == seq![c],
{
    let mut s = String::new();
    push_char(&mut s, c);
    s
}

/// The token kind of an identifier: a keyword's own kind, or a plain
/// identifier.
fn keyword_tk(name: &String) -> (r: TK)
    ensures
        r == spec_keyword_tk(name@),
{
    if name.eq(&String::from_str("return")) {
        TK::RETURN
    } else if name.eq(&String::from_str("if")) {
        TK::IF
    } else if name.eq(&String::from_str("else")) {
        TK::ELSE
    } else if name.eq(&String::from_str("for")) {
        TK::FOR
    } else if name.eq(&String::from_str("int")) {
        TK::INT
    } else if name.eq(&String::from_str("char")) {
        TK::CHAR
    } else if name.eq(&String::from_str("sizeof")) {
        TK::SIZEOF
    } else {
        TK::IDENT
    }
}

/// Position of the first character at or after `i` that cannot continue an
/// identifier.
pub open spec fn ident_end(s: Seq<char>, i: int) -> int
    decreases s.len() - i,
{
    if i < 0 || i >= s.len() || !is_ident_char(s[i]) {
        i
    } else {
        ident_end(s, i + 1)
    }
}

/// Position of the first character at or after `i` that is not a digit.
pub open spec fn num_end(s: Seq<char>, i: int) -> int
    decreases s.len() - i,
{
    if i < 0 || i >= s.len() || !is_digit_char(s[i]) {
        i
    } else {
        num_end(s, i + 1)
    }
}

/// `ident_end` and `num_end` never move backwards and stay within the text.
proof fn lemma_scan_end_bounds(s: Seq<char>, i: int)
    requires
        0 <= i <= s.len(),
    ensures
        i <= ident_end(s, i) <= s.len(),
        i <= num_end(s, i) <= s.len(),
    decreases s.len() - i,
{
    if i < s.len() {
        lemma_scan_end_bounds(s, i + 1);
    }
}

/// Prepend one token to an optional token list.
pub open spec fn tok_cons(t: TokenModel, rest: Option<Seq<TokenModel>>) -> Option<
    Seq<TokenModel>,
> {
    match rest {
        Some(r) => Some(seq![t] + r),
        None => None,
    }
}

/// The tokens of the text from position `i` on, in source order; `None` when
/// a character fits no token class. Whitespace is skipped; `&&` and `||` pair
/// up (a lone `|` fits nothing); operator characters, `;`, identifiers and
/// keywords, and digit runs each form one token carrying their source text.
pub open spec fn spec_scan(s: Seq<char>, i: int) -> Option<Seq<TokenModel>>
    decreases s.len() - i,
    via spec_scan_decreases
{
    if i < 0 || i >= s.len() {
        Some(Seq::empty())
    } else {
        let c = s[i];
        if is_space_char(c) {
            spec_scan(s, i + 1)
        } else if c == '&' {
            if i + 1 < s.len() && s[i + 1] == '&' {
                tok_cons(TokenModel { ty: TK::LOGAND, val: "&&"@ }, spec_scan(s, i + 2))
            } else {
                tok_cons(TokenModel { ty: TK::OPE('&'), val: seq!['&'] }, spec_scan(s, i + 1))
            }
        } else if c == '|' {
            if i + 1 < s.len() && s[i + 1] == '|' {
                tok_cons(TokenModel { ty: TK::LOGOR, val: "||"@ }, spec_scan(s, i + 2))
            } else {
                None
            }
        } else if is_op_char(c) {
            tok_cons(TokenModel { ty: TK::OPE(c), val: seq![c] }, spec_scan(s, i + 1))
        } else if c == ';' {
            tok_cons(TokenModel { ty: TK::END_LINE, val: seq![';'] }, spec_scan(s, i + 1))
        } else if is_ident_start_char(c) {
            let e = ident_end(s, i + 1);
            tok_cons(
                TokenModel { ty: spec_keyword_tk(s.subrange(i, e)), val: s.subrange(i, e) },
                spec_scan(s, e),
            )
        } else if is_digit_char(c) {
            let e = num_end(s, i + 1);
            tok_cons(TokenModel { ty: TK::NUM, val: s.subrange(i, e) }, spec_scan(s, e))
        } else {
            None
        }
    }
}

#[via_fn]
proof fn spec_scan_decreases(s: Seq<char>, i: int) {
    if 0 <= i < s.len() {
        lemma_scan_end_bounds(s, i + 1);
    }
}

/// The end-of-input token.
pub open spec fn eof_token() -> TokenModel {
    TokenModel { ty: TK::EOF, val: "EOF"@ }
}

/// The token stream of a whole text: the tokens in source order, the
/// end-of-input token appended, the whole reversed; `None` when some
/// character fits no token class.
pub open spec fn spec_tokenize(s: Seq<char>) -> Option<Seq<TokenModel>> {
    match spec_scan(s, 0) {
        Some(toks) => Some(toks.push(eof_token()).reverse()),
        None => None,
    }
}

/// Composing scanned tokens with the remaining text is unchanged by scanning
/// one more token.
proof fn lemma_scan_compose(done: Seq<TokenModel>, t: TokenModel, rest: Option<Seq<TokenModel>>)
    ensures
        (match tok_cons(t, rest) {
            Some(w) => Some::<Seq<TokenModel>>(done + w),
            None => None,
        }) == (match rest {
            Some(r) => Some::<Seq<TokenModel>>(done.push(t) + r),
            None => None,
        }),
{
    match rest {
        Some(r) => {
            assert(done + (seq![t] + r) =~= done.push(t) + r);
        },
        None => {},
    }
}

/// Tokenize source text, per [`spec_tokenize`]: on success the returned
/// stream is reversed (the first token of the source is last) and its first
/// element is the end-of-input token; a character that fits no token class,
/// or a `|` with no second `|`, is a user-input error.
#[verifier::loop_isolation(false)]
#[verifier::rlimit(100)]
pub fn tokenize(s: Vec<char>) -> (r: Result<Vec<Token>, CompileError>)
    ensures
        match spec_tokenize(s@) {
            Some(ts) => r matches Ok(v) && tokens_model(v@) == ts,
            None => r matches Err(e) && e is UserInput,
        },
{
    let n = s.len();
    let mut tokens: Vec<Token> = Vec::new();
    let mut counter: usize = 0;
    proof {
        assert(tokens_model(tokens@) =~= Seq::<TokenModel>::empty());
        match spec_scan(s@, 0) {
            Some(w) => {
                assert(Seq::<TokenModel>::empty() + w =~= w);
            },
            None => {},
        }
    }
    while counter < n
        invariant
            counter <= n,
            n == s@.len(),
            match spec_scan(s@, counter as int) {
                Some(rest) => spec_scan(s@, 0) == Some::<Seq<TokenModel>>(
                    tokens_model(tokens@) + rest,
                ),
                None => spec_scan(s@, 0) is None,
            },
        decreases n - counter,
    {
        let ghost c0 = counter;
        let ghost done = tokens_model(tokens@);
        let c = s[counter];
        if is_space(c) {
            counter += 1;
        } else if c == '&' {
            if counter + 1 < n && s[counter + 1] == '&' {
                let tok = Token { ty: TK::LOGAND, val: String::from_str("&&") };
                proof {
                    lemma_scan_compose(done, tok@, spec_scan(s@, c0 + 2));
                    assert(tokens_model(tokens@.push(tok)) =~= done.push(tok@));
                }
                tokens.push(tok);
                counter += 2;
            } else {
                let tok = Token { ty: TK::OPE('&'), val: op_text('&') };
                proof {
                    lemma_scan_compose(done, tok@, spec_scan(s@, c0 + 1));
                    assert(tokens_model(tokens@.push(tok)) =~= done.push(tok@));
                }
                tokens.push(tok);
                counter += 1;
            }
        } else if c == '|' {
            if counter + 1 < n && s[counter + 1] == '|' {
                let tok = Token { ty: TK::LOGOR, val: String::from_str("||") };
                proof {
                    lemma_scan_compose(done, tok@, spec_scan(s@, c0 + 2));
                    assert(tokens_model(tokens@.push(tok)) =~= done.push(tok@));
                }
                tokens.push(tok);
                counter += 2;
            } else {
                return Err(CompileError::UserInput(String::from_str("cannot tokenize")));
            }
        } else if is_op(c) {
            let tok = Token { ty: TK::OPE(c), val: op_text(c) };
            proof {
                lemma_scan_compose(done, tok@, spec_scan(s@, c0 + 1));
                assert(tokens_model(tokens@.push(tok)) =~= done.push(tok@));
            }
            tokens.push(tok);
            counter += 1;
        } else if c == ';' {
            let tok = Token { ty: TK::END_LINE, val: op_text(';') };
            proof {
                lemma_scan_compose(done, tok@, spec_scan(s@, c0 + 1));
                assert(tokens_model(tokens@.push(tok)) =~= done.push(tok@));
            }
            tokens.push(tok);
            counter += 1;
        } else if is_ident_start(c) {
            let mut name = String::new();
            push_char(&mut name, c);
            counter += 1;
            proof {
                assert(name@ =~= s@.subrange(c0 as int, counter as int));
            }
            while counter < n && is_ident_cont(s[counter])
                invariant
                    c0 < counter <= n,
                    name@ == s@.subrange(c0 as int, counter as int),
                    ident_end(s@, c0 + 1) == ident_end(s@, counter as int),
                decreases n - counter,
            {
                push_char(&mut name, s[counter]);
                counter += 1;
                proof {
                    assert(name@ =~= s@.subrange(c0 as int, counter as int));
                }
            }
            proof {
                assert(ident_end(s@, counter as int) == counter);
            }
            let ty = keyword_tk(&name);
            let tok = Token { ty, val: name };
            proof {
                lemma_scan_compose(done, tok@, spec_scan(s@, counter as int));
                assert(tokens_model(tokens@.push(tok)) =~= done.push(tok@));
            }
            tokens.push(tok);
        } else if is_digit(c) {
            let mut num = String::new();
            push_char(&mut num, c);
            counter += 1;
            proof {
                assert(num@ =~= s@.subrange(c0 as int, counter as int));
            }
            while counter < n && is_digit(s[counter])
                invariant
                    c0 < counter <= n,
                    num@ == s@.subrange(c0 as int, counter as int),
                    num_end(s@, c0 + 1) == num_end(s@, counter as int),
                decreases n - counter,
            {
                push_char(&mut num, s[counter]);
                counter += 1;
                proof {
                    assert(num@ =~= s@.subrange(c0 as int, counter as int));
                }
            }
            proof {
                assert(num_end(s@, counter as int) == counter);
            }
            let tok = Token { ty: TK::NUM, val: num };
            proof {
                lemma_scan_compose(done, tok@, spec_scan(s@, counter as int));
                assert(tokens_model(tokens@.push(tok)) =~= done.push(tok@));
            }
            tokens.push(tok);
        } else {
            return Err(CompileError::UserInput(String::from_str("cannot tokenize")));
        }
    }
    let eof = Token { ty: TK::EOF, val: String::from_str("EOF") };
    proof {
        assert(spec_scan(s@, n as int) == Some(Seq::<TokenModel>::empty()));
        assert(tokens_model(tokens@) + Seq::<TokenModel>::empty() =~= tokens_model(tokens@));
        assert(tokens_model(tokens@.push(eof)) =~= tokens_model(tokens@).push(eof@));
    }
    tokens.push(eof);
    let ghost forward = tokens@;
    let mut rev: Vec<Token> = Vec::new();
    while tokens.len() > 0
        invariant
            tokens@ == forward.take(tokens@.len() as int),
            rev@.len() + tokens@.len() == forward.len(),
            forall|k: int|
                0 <= k < rev@.len() ==> #[trigger] rev@[k] == forward[forward.len() - 1 - k],
        decreases tokens@.len(),
    {
        let t = match tokens.pop() {
            Some(t) => t,
            None => {
                return Err(CompileError::UserInput(String::from_str("cannot tokenize")));
            },
        };
        proof {
            assert(tokens@ =~= forward.take(tokens@.len() as int));
        }
        rev.push(t);
    }
    proof {
        assert(tokens_model(rev@) =~= tokens_model(forward).reverse());
    }
    Ok(rev)
}

} // verus!