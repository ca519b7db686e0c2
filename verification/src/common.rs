//! Shared data model: tokens, source types, syntax-tree nodes, IR opcodes and
//! instructions, per-function instruction lists, and the opcode-to-operand-shape
//! table that both the register allocator and the code generator consult.

use vstd::prelude::*;

verus! {

/// Token kinds produced by the tokenizer.
#[derive(PartialEq, Eq, Structural, Debug, Clone, Copy)]
pub enum TK {
    NUM,
    OPE(char),
    EOF,
    RETURN,
    IDENT,
    SIZEOF,
    INT,
    CHAR,
    IF,
    ELSE,
    LOGOR,
    LOGAND,
    FOR,
    END_LINE,
}

/// One token: its kind and its source text.
#[derive(Debug, Clone, PartialEq)]
pub struct Token {
    pub ty: TK,
    pub val: String,
}

/// Mathematical model of a token: the kind and the text as a character sequence.
pub struct TokenModel {
    pub ty: TK,
    pub val: Seq<char>,
}

impl View for Token {
    type V = TokenModel;

    open spec fn view(&self) -> TokenModel {
        TokenModel { ty: self.ty, val: self.val@ }
    }
}

/// The models of a list of tokens.
pub open spec fn tokens_model(ts: Seq<Token>) -> Seq<TokenModel> {
    ts.map_values(|t: Token| t@)
}

/// Source-level type constructors: int, char, pointer, array.
#[derive(PartialEq, Eq, Structural, Debug, Clone, Copy)]
pub enum TY {
    INT,
    CHAR,
    PTR,
    ARY,
}

/// A resolved source type. `ptr_of` is the pointee of a PTR, `ary_of` the
/// element type of an ARY, and `len` the element count of an ARY.
#[derive(PartialEq, Debug)]
pub struct Type {
    pub ty: TY,
    pub ptr_of: Option<Box<Type>>,
    pub ary_of: Option<Box<Type>>,
    pub len: usize,
}

impl Default for Type {
    /// The default type is a plain `int`.
    fn default() -> (r: Type)
        ensures
            r.ty == TY::INT,
            r.ptr_of is None,
            r.ary_of is None,
            r.len == 0,
    {
        Type { ty: TY::INT, ptr_of: None, ary_of: None, len: 0 }
    }
}

/// Size in bytes of a type: int is 4, char is 1, pointers are 8, and an array
/// is its element size times its length. A malformed array (no element type),
/// or a size that does not fit in `usize`, has no size.
pub open spec fn spec_size_of(t: Type) -> Option<nat>
    decreases t,
{
    match t.ty {
        TY::INT => Some(4nat),
        TY::CHAR => Some(1nat),
        TY::PTR => Some(8nat),
        TY::ARY => match t.ary_of {
            Some(inner) => match spec_size_of(*inner) {
                Some(s) => if s * t.len as nat <= usize::MAX {
                    Some(s * t.len as nat)
                } else {
                    None
                },
                None => None,
            },
            None => None,
        },
    }
}

impl Type {
    /// A plain `char` type.
    pub fn new_char() -> (r: Type)
        ensures
            r.ty == TY::CHAR,
            r.ptr_of is None,
            r.ary_of is None,
            r.len == 0,
    {
        Type { ty: TY::CHAR, ptr_of: None, ary_of: None, len: 0 }
    }

    /// Size of the type in bytes; `None` for a malformed array or a size that
    /// does not fit in `usize`.
    pub fn size_of(&self) -> (r: Option<usize>)
        ensures
            match spec_size_of(*self) {
                Some(s) => r == Some(s as usize),
                None => r is None,
            },
        decreases *self,
    {
        match self.ty {
            TY::INT => Some(4),
            TY::CHAR => Some(1),
            TY::PTR => Some(8),
            TY::ARY => match &self.ary_of {
                Some(inner) => match inner.size_of() {
                    Some(s) => s.checked_mul(self.len),
                    None => None,
                },
                None => None,
            },
        }
    }

    /// An array of `len` elements of this type.
    pub fn ary_of(&self, len: usize) -> (r: Type)
        ensures
            r.ty == TY::ARY,
            r.ary_of matches Some(inner) && *inner == *self,
            r.ptr_of is None,
            r.len == len,
    {
        Type { ty: TY::ARY, ary_of: Some(Box::new(self.clone_type())), ptr_of: None, len }
    }

    /// A pointer to this type.
    pub fn ptr_of(&self) -> (r: Type)
        ensures
            r.ty == TY::PTR,
            r.ptr_of matches Some(inner) && *inner == *self,
            r.ary_of is None,
            r.len == 0,
    {
        Type { ty: TY::PTR, ptr_of: Some(Box::new(self.clone_type())), ary_of: None, len: 0 }
    }

    /// Structure-preserving copy of a type.
    pub fn clone_type(&self) -> (r: Type)
        ensures
            r == *self,
        decreases *self,
    {
        Type {
            ty: self.ty,
            ptr_of: match &self.ptr_of {
                Some(t) => Some(Box::new(t.clone_type())),
                None => None,
            },
            ary_of: match &self.ary_of {
                Some(t) => Some(Box::new(t.clone_type())),
                None => None,
            },
            len: self.len,
        }
    }
}

/// Syntax-tree node kinds.
#[derive(PartialEq, Eq, Structural, Debug, Clone, Copy)]
pub enum ND {
    NUM,
    IDENT,
    VARDEF,
    LVAR,
    DEREF,
    ADDR,
    SIZEOF,
    CALL,
    FUNC,
    FOR,
    OPE(char),
    IF,
    LOGOR,
    LOGAND,
    RETURN,
    COMP_STMT,
    EXPR_STMT,
}

/// One syntax-tree node. Which children are populated depends on `op`:
/// binary operators use `lhs`/`rhs`, unary ones `expr`, `if` uses
/// `cond`/`thn`/`els`, `for` uses `init`/`cond`/`inc`/`body`, compound
/// statements use `stmts`, calls and function definitions use `args`.
#[derive(PartialEq, Debug)]
pub struct Node {
    pub op: ND,
    pub ty: Type,
    pub lhs: Option<Box<Node>>,
    pub rhs: Option<Box<Node>>,
    pub val: String,
    pub expr: Option<Box<Node>>,
    pub stmts: Vec<Node>,
    pub cond: Option<Box<Node>>,
    pub thn: Option<Box<Node>>,
    pub els: Option<Box<Node>>,
    pub init: Option<Box<Node>>,
    pub inc: Option<Box<Node>>,
    pub args: Vec<Node>,
    pub body: Option<Box<Node>>,
    pub stack_size: usize,
    pub offset: usize,
}

impl Default for Node {
    /// A number node with no children, empty text, int type, and zeroed fields.
    fn default() -> (r: Node)
        ensures
            r.op == ND::NUM,
            r.ty.ty == TY::INT && r.ty.ptr_of is None && r.ty.ary_of is None && r.ty.len == 0,
            r.lhs is None && r.rhs is None && r.expr is None,
            r.cond is None && r.thn is None && r.els is None,
            r.init is None && r.inc is None && r.body is None,
            r.val@ == Seq::<char>::empty(),
            r.stmts@ == Seq::<Node>::empty(),
            r.args@ == Seq::<Node>::empty(),
            r.stack_size == 0 && r.offset == 0,
    {
        Node {
            op: ND::NUM,
            ty: Type { ty: TY::INT, ptr_of: None, ary_of: None, len: 0 },
            lhs: None,
            rhs: None,
            val: String::new(),
            expr: None,
            stmts: Vec::new(),
            cond: None,
            thn: None,
            els: None,
            init: None,
            inc: None,
            args: Vec::new(),
            body: None,
            stack_size: 0,
            offset: 0,
        }
    }
}

impl Node {
    /// The operator character of an operator node.
    pub fn get_ope(&self) -> (r: char)
        requires
            self.op matches ND::OPE(_),
        ensures
            self.op == ND::OPE(r),
    {
        match self.op {
            ND::OPE(c) => c,
            _ => ' ',
        }
    }

    /// Wrap this node in an address-of node whose type is a pointer to `ty`.
    pub fn addr_of(self, ty: Type) -> (r: Node)
        ensures
            r.op == ND::ADDR,
            r.ty.ty == TY::PTR,
            r.ty.ptr_of matches Some(p) && *p == ty,
            r.expr matches Some(e) && *e == self,
    {
        let pty = ty.ptr_of();
        let mut r = Node::default();
        r.op = ND::ADDR;
        r.ty = pty;
        r.expr = Some(Box::new(self));
        r
    }
}

/// IR opcodes.
#[derive(Clone, Copy, Debug, PartialEq, Eq, Structural)]
pub enum IRType {
    IMM,
    SUB_IMM,
    MOV,
    LABEL,
    UNLESS,
    LOAD8,
    LOAD32,
    LOAD64,
    STORE8,
    STORE32,
    STORE64,
    STORE8_ARG,
    STORE32_ARG,
    STORE64_ARG,
    RETURN,
    CALL,
    JMP,
    KILL,
    NOP,
    LT,
    ADD,
    SUB,
    MUL,
    DIV,
}

/// One IR instruction. The meaning of `lhs` and `rhs` (register id, immediate,
/// or label id) depends on the opcode's operand shape; `name` and `args` are
/// used by call instructions only.
#[derive(Clone, Debug, PartialEq)]
pub struct IR {
    pub op: IRType,
    pub lhs: usize,
    pub rhs: usize,
    pub name: String,
    pub args: Vec<usize>,
}

/// Mathematical model of an instruction.
pub struct IrModel {
    pub op: IRType,
    pub lhs: usize,
    pub rhs: usize,
    pub name: Seq<char>,
    pub args: Seq<usize>,
}

impl View for IR {
    type V = IrModel;

    open spec fn view(&self) -> IrModel {
        IrModel { op: self.op, lhs: self.lhs, rhs: self.rhs, name: self.name@, args: self.args@ }
    }
}

/// Model of a plain instruction with empty name and argument list.
pub open spec fn ir_model(op: IRType, lhs: usize, rhs: usize) -> IrModel {
    IrModel { op, lhs, rhs, name: Seq::empty(), args: Seq::empty() }
}

/// The models of a list of instructions.
pub open spec fn irs_model(irs: Seq<IR>) -> Seq<IrModel> {
    irs.map_values(|ir: IR| ir@)
}

/// The models of a list of functions.
pub open spec fn fns_model(fns: Seq<Function>) -> Seq<FunctionModel> {
    fns.map_values(|f: Function| f@)
}

impl Default for IR {
    /// A no-op instruction with zeroed operands.
    fn default() -> (r: IR)
        ensures
            r@ == ir_model(IRType::NOP, 0, 0),
    {
        IR { op: IRType::NOP, lhs: 0, rhs: 0, name: String::new(), args: Vec::new() }
    }
}

/// A function: its name, its instruction list, and its stack frame size.
#[derive(PartialEq, Debug)]
pub struct Function {
    pub name: String,
    pub irs: Vec<IR>,
    pub stack_size: usize,
}

/// Mathematical model of a function.
pub struct FunctionModel {
    pub name: Seq<char>,
    pub irs: Seq<IrModel>,
    pub stack_size: usize,
}

impl View for Function {
    type V = FunctionModel;

    open spec fn view(&self) -> FunctionModel {
        FunctionModel { name: self.name@, irs: irs_model(self.irs@), stack_size: self.stack_size }
    }
}

impl Default for Function {
    /// A function with empty name, no instructions, and no stack frame.
    fn default() -> (r: Function)
        ensures
            r@.name == Seq::<char>::empty(),
            r@.irs == Seq::<IrModel>::empty(),
            r@.stack_size == 0,
    {
        proof {
            assert(irs_model(Seq::empty()) =~= Seq::<IrModel>::empty());
        }
        Function { name: String::new(), irs: Vec::new(), stack_size: 0 }
    }
}

/// Operand shapes: how an opcode's `lhs`/`rhs`/`args` fields are interpreted.
/// This classification governs both register allocation and emission.
#[derive(Clone, Copy, Debug, PartialEq, Eq, Structural)]
pub enum IRInfoType {
    NOARG,
    REG,
    LABEL,
    REG_REG,
    REG_IMN,
    REG_LABEL,
    CALL,
    IMM,
    IMM_IMM,
    JMP,
}

/// Display name and operand shape of an opcode.
#[derive(Clone, Copy, Debug)]
pub struct IRInfo<'a> {
    pub op: IRType,
    pub name: &'a str,
    pub ty: IRInfoType,
}

/// The opcode-to-operand-shape table: the single source of truth consulted by
/// both the register allocator and the code generator.
pub open spec fn spec_irinfo_ty(op: IRType) -> IRInfoType {
    match op {
        IRType::ADD => IRInfoType::REG_REG,
        IRType::SUB => IRInfoType::REG_REG,
        IRType::MUL => IRInfoType::REG_REG,
        IRType::DIV => IRInfoType::REG_REG,
        IRType::IMM => IRInfoType::REG_IMN,
        IRType::SUB_IMM => IRInfoType::REG_IMN,
        IRType::MOV => IRInfoType::REG_REG,
        IRType::LABEL => IRInfoType::LABEL,
        IRType::UNLESS => IRInfoType::REG_LABEL,
        IRType::RETURN => IRInfoType::REG,
        IRType::LOAD8 => IRInfoType::REG_REG,
        IRType::LOAD32 => IRInfoType::REG_REG,
        IRType::LOAD64 => IRInfoType::REG_REG,
        IRType::STORE8 => IRInfoType::REG_REG,
        IRType::STORE32 => IRInfoType::REG_REG,
        IRType::STORE64 => IRInfoType::REG_REG,
        IRType::STORE8_ARG => IRInfoType::IMM_IMM,
        IRType::STORE32_ARG => IRInfoType::IMM_IMM,
        IRType::STORE64_ARG => IRInfoType::IMM_IMM,
        IRType::LT => IRInfoType::REG_REG,
        IRType::KILL => IRInfoType::NOARG,
        IRType::NOP => IRInfoType::NOARG,
        IRType::JMP => IRInfoType::JMP,
        IRType::CALL => IRInfoType::CALL,
    }
}

/// The display name of an opcode in the diagnostic IR dump.
pub open spec fn spec_irinfo_name(op: IRType) -> Seq<char> {
    match op {
        IRType::ADD => "ADD"@,
        IRType::SUB => "SUB"@,
        IRType::MUL => "MUL"@,
        IRType::DIV => "DIV"@,
        IRType::IMM => "MOV"@,
        IRType::SUB_IMM => "SUB"@,
        IRType::MOV => "MOV"@,
        IRType::LABEL => ""@,
        IRType::UNLESS => "UNLESS"@,
        IRType::RETURN => "RET"@,
        IRType::LOAD8 => "LOAD8"@,
        IRType::LOAD32 => "LOAD32"@,
        IRType::LOAD64 => "LOAD64"@,
        IRType::STORE8 => "STORE8"@,
        IRType::STORE32 => "STORE32"@,
        IRType::STORE64 => "STORE64"@,
        IRType::STORE8_ARG => "STORE8_ARG"@,
        IRType::STORE32_ARG => "STORE32_ARG"@,
        IRType::STORE64_ARG => "STORE64_ARG"@,
        IRType::LT => "LT"@,
        IRType::KILL => "KILL"@,
        IRType::NOP => "NOP"@,
        IRType::JMP => "JMP"@,
        IRType::CALL => "CALL"@,
    }
}

impl IR {
    /// Display name and operand shape of this instruction's opcode, as given
    /// by the shared shape table.
    pub fn get_irinfo(&self) -> (info: IRInfo<'static>)
        ensures
            info.op == self.op,
            info.ty == spec_irinfo_ty(self.op),
            info.name@ == spec_irinfo_name(self.op),
    {
        match self.op {
            IRType::ADD => IRInfo { op: self.op, name: "ADD", ty: IRInfoType::REG_REG },
            IRType::SUB => IRInfo { op: self.op, name: "SUB", ty: IRInfoType::REG_REG },
            IRType::MUL => IRInfo { op: self.op, name: "MUL", ty: IRInfoType::REG_REG },
            IRType::DIV => IRInfo { op: self.op, name: "DIV", ty: IRInfoType::REG_REG },
            IRType::IMM => IRInfo { op: self.op, name: "MOV", ty: IRInfoType::REG_IMN },
            IRType::SUB_IMM => IRInfo { op: self.op, name: "SUB", ty: IRInfoType::REG_IMN },
            IRType::MOV => IRInfo { op: self.op, name: "MOV", ty: IRInfoType::REG_REG },
            IRType::LABEL => IRInfo { op: self.op, name: "", ty: IRInfoType::LABEL },
            IRType::UNLESS => IRInfo { op: self.op, name: "UNLESS", ty: IRInfoType::REG_LABEL },
            IRType::RETURN => IRInfo { op: self.op, name: "RET", ty: IRInfoType::REG },
            IRType::LOAD8 => IRInfo { op: self.op, name: "LOAD8", ty: IRInfoType::REG_REG },
            IRType::LOAD32 => IRInfo { op: self.op, name: "LOAD32", ty: IRInfoType::REG_REG },
            IRType::LOAD64 => IRInfo { op: self.op, name: "LOAD64", ty: IRInfoType::REG_REG },
            IRType::STORE8 => IRInfo { op: self.op, name: "STORE8", ty: IRInfoType::REG_REG },
            IRType::STORE32 => IRInfo { op: self.op, name: "STORE32", ty: IRInfoType::REG_REG },
            IRType::STORE64 => IRInfo { op: self.op, name: "STORE64", ty: IRInfoType::REG_REG },
            IRType::STORE8_ARG => IRInfo { op: self.op, name: "STORE8_ARG", ty: IRInfoType::IMM_IMM },
            IRType::STORE32_ARG => IRInfo { op: self.op, name: "STORE32_ARG", ty: IRInfoType::IMM_IMM },
            IRType::STORE64_ARG => IRInfo { op: self.op, name: "STORE64_ARG", ty: IRInfoType::IMM_IMM },
            IRType::LT => IRInfo { op: self.op, name: "LT", ty: IRInfoType::REG_REG },
            IRType::KILL => IRInfo { op: self.op, name: "KILL", ty: IRInfoType::NOARG },
            IRType::NOP => IRInfo { op: self.op, name: "NOP", ty: IRInfoType::NOARG },
            IRType::JMP => IRInfo { op: self.op, name: "JMP", ty: IRInfoType::JMP },
            IRType::CALL => IRInfo { op: self.op, name: "CALL", ty: IRInfoType::CALL },
        }
    }
}

/// The three terminal error classes: bad user input, an internal compiler
/// defect, and exhaustion of the eight-register pool.
#[derive(Debug, PartialEq)]
pub enum CompileError {
    UserInput(String),
    Internal(String),
    RegisterExhausted,
}

/// Structural size of a node: itself plus all of its descendants. Serves as
/// the termination measure of every recursive pass over the tree.
pub open spec fn node_size(n: Node) -> nat
    decreases n,
{
    1 + opt_node_size(n.lhs) + opt_node_size(n.rhs) + opt_node_size(n.expr) + opt_node_size(n.cond)
        + opt_node_size(n.thn) + opt_node_size(n.els) + opt_node_size(n.init) + opt_node_size(
        n.inc,
    ) + opt_node_size(n.body) + nodes_size(n.stmts@) + nodes_size(n.args@)
}

/// Structural size of an optional child.
pub open spec fn opt_node_size(o: Option<Box<Node>>) -> nat
    decreases o,
{
    match o {
        Some(b) => node_size(*b),
        None => 0,
    }
}

/// Total structural size of a sequence of nodes.
pub open spec fn nodes_size(s: Seq<Node>) -> nat
    decreases s,
{
    if s.len() == 0 {
        0
    } else {
        node_size(s[0]) + nodes_size(s.drop_first())
    }
}

/// Every element of a sequence of nodes is no larger than the whole sequence.
pub proof fn lemma_nodes_size_elem(s: Seq<Node>, k: int)
    requires
        0 <= k < s.len(),
    ensures
        node_size(s[k]) <= nodes_size(s),
    decreases s.len(),
{
    if k > 0 {
        lemma_nodes_size_elem(s.drop_first(), k - 1);
    }
}

/// Dropping the first node shrinks the total size of a nonempty sequence.
pub proof fn lemma_nodes_size_drop_first(s: Seq<Node>)
    requires
        s.len() > 0,
    ensures
        nodes_size(s.drop_first()) < nodes_size(s),
{
    assert(node_size(s[0]) >= 1);
}

/// Whether `c` is a decimal digit.
pub open spec fn is_digit_char(c: char) -> bool {
    '0' <= c && c <= '9'
}

/// Numeric value of a decimal digit.
pub open spec fn digit_char_val(c: char) -> nat {
    (c as int - '0' as int) as nat
}

/// Whether `s` is a nonempty string of decimal digits.
pub open spec fn is_dec_string(s: Seq<char>) -> bool {
    s.len() > 0 && forall|i: int| 0 <= i < s.len() ==> is_digit_char(#[trigger] s[i])
}

/// The number denoted by a string of decimal digits.
pub open spec fn dec_val(s: Seq<char>) -> nat
    decreases s.len(),
{
    if s.len() == 0 {
        0
    } else {
        dec_val(s.drop_last()) * 10 + digit_char_val(s.last())
    }
}

/// The value of a decimal string is monotone in its prefixes.
pub proof fn lemma_dec_val_prefix_le(s: Seq<char>, i: int)
    requires
        0 <= i <= s.len(),
    ensures
        dec_val(s.take(i)) <= dec_val(s),
    decreases s.len() - i,
{
    if i < s.len() {
        lemma_dec_val_prefix_le(s, i + 1);
        assert(s.take(i + 1).drop_last() =~= s.take(i));
        assert(dec_val(s.take(i + 1)) == dec_val(s.take(i)) * 10 + digit_char_val(
            s.take(i + 1).last(),
        ));
    } else {
        assert(s.take(i) =~= s);
    }
}

/// The number denoted by the digit string `s`, when `s` is a nonempty digit
/// string whose value fits in `usize`; `None` otherwise.
pub open spec fn spec_parse_usize(s: Seq<char>) -> Option<usize> {
    if is_dec_string(s) && dec_val(s) <= usize::MAX {
        Some(dec_val(s) as usize)
    } else {
        None
    }
}

/// Parse a nonempty decimal string into a `usize`.
#[verifier::loop_isolation(false)]
pub fn parse_usize(s: &String) -> (r: Option<usize>)
    ensures
        r == spec_parse_usize(s@),
{
    let n = s.as_str().unicode_len();
    if n == 0 {
        return None;
    }
    let mut acc: usize = 0;
    let mut i: usize = 0;
    while i < n
        invariant
            0 <= i <= n,
            n == s@.len(),
            acc == dec_val(s@.take(i as int)),
            forall|j: int| 0 <= j < i ==> is_digit_char(#[trigger] s@[j]),
        decreases n - i,
    {
        let c = s.as_str().get_char(i);
        let u = c as u32;
        if u < 48 || u > 57 {
            assert(!is_digit_char(s@[i as int]));
            return None;
        }
        let d = (u - 48) as usize;
        assert(d == digit_char_val(s@[i as int]));
        if acc > (usize::MAX - d) / 10 {
            proof {
                assert(s@.take(i as int + 1).drop_last() =~= s@.take(i as int));
                assert(dec_val(s@.take(i as int + 1)) > usize::MAX) by (nonlinear_arith)
                    requires
                        acc > (usize::MAX - d) / 10,
                        acc == dec_val(s@.take(i as int)),
                        d == digit_char_val(s@[i as int]),
                        d <= 9,
                        dec_val(s@.take(i as int + 1)) == dec_val(s@.take(i as int)) * 10
                            + digit_char_val(s@[i as int]),
                ;
                lemma_dec_val_prefix_le(s@, i as int + 1);
            }
            return None;
        }
        proof {
            assert(acc * 10 + d <= usize::MAX) by (nonlinear_arith)
                requires
                    acc <= (usize::MAX - d) / 10,
                    d <= 9,
            ;
            assert(s@.take(i as int + 1).drop_last() =~= s@.take(i as int));
            assert(s@.take(i as int + 1).last() == s@[i as int]);
        }
        acc = acc * 10 + d;
        i += 1;
    }
    proof {
        assert(s@.take(n as int) =~= s@);
    }
    Some(acc)
}

} // verus!

