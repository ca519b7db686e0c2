//! Code generator: renders fully allocated functions as one textual x86-64
//! assembly program in Intel syntax, handling the calling convention, frame
//! layout, and per-type instruction widths.
//!
//! The whole rendering is modelled by the spec functions below
//! ([`spec_gen_x86`] and its helpers): the executable renderer is proved to
//! produce exactly the text the model says. Rendering succeeds if and only if
//! every register operand names one of the eight physical registers, calls
//! pass at most six arguments, and no kill marker survived allocation.

use vstd::prelude::*;
use vstd::string::StrSliceExecFns;
use vstd::string::StringExecFns;

use crate::common::{CompileError, Function, FunctionModel, IR, IRInfoType, IRType, IrModel,
    fns_model, spec_irinfo_name, spec_irinfo_ty};

verus! {

/// Decimal digit character for a value below ten.
pub open spec fn digit_char(d: nat) -> char {
    if d == 0 {
        '0'
    } else if d == 1 {
        '1'
    } else if d == 2 {
        '2'
    } else if d == 3 {
        '3'
    } else if d == 4 {
        '4'
    } else if d == 5 {
        '5'
    } else if d == 6 {
        '6'
    } else if d == 7 {
        '7'
    } else if d == 8 {
        '8'
    } else {
        '9'
    }
}

/// Decimal rendering of a number, most significant digit first.
pub open spec fn dec_str(n: nat) -> Seq<char>
    decreases n,
{
    if n < 10 {
        seq![digit_char(n)]
    } else {
        dec_str(n / 10).push(digit_char(n % 10))
    }
}

/// One decimal digit as text.
fn digit_str(d: usize) -> (r: &'static str)
    requires
        d < 10,
    ensures
        r@ == seq![digit_char(d as nat)],
{
    match d {
        0 => {
            proof {
                reveal_strlit("0");
            }
            "0"
        },
        1 => {
            proof {
                reveal_strlit("1");
            }
            "1"
        },
        2 => {
            proof {
                reveal_strlit("2");
            }
            "2"
        },
        3 => {
            proof {
                reveal_strlit("3");
            }
            "3"
        },
        4 => {
            proof {
                reveal_strlit("4");
            }
            "4"
        },
        5 => {
            proof {
                reveal_strlit("5");
            }
            "5"
        },
        6 => {
            proof {
                reveal_strlit("6");
            }
            "6"
        },
        7 => {
            proof {
                reveal_strlit("7");
            }
            "7"
        },
        8 => {
            proof {
                reveal_strlit("8");
            }
            "8"
        },
        _ => {
            proof {
                reveal_strlit("9");
            }
            "9"
        },
    }
}

/// Render a number in decimal.
pub fn usize_to_string(n: usize) -> (s: String)
    ensures
        s@ == dec_str(n as nat),
    decreases n,
{
    if n < 10 {
        String::from_str(digit_str(n))
    } else {
        let mut s = usize_to_string(n / 10);
        s.append(digit_str(n % 10));
        proof {
            assert(s@ =~= dec_str((n / 10) as nat).push(digit_char((n % 10) as nat)));
        }
        s
    }
}

/// 64-bit name of physical register `i`.
pub open spec fn spec_reg64(i: int) -> Seq<char> {
    if i == 0 {
        "rbp"@
    } else if i == 1 {
        "r10"@
    } else if i == 2 {
        "r11"@
    } else if i == 3 {
        "r9"@
    } else if i == 4 {
        "r12"@
    } else if i == 5 {
        "r13"@
    } else if i == 6 {
        "r14"@
    } else {
        "r15"@
    }
}

/// 8-bit name of physical register `i`.
pub open spec fn spec_reg8(i: int) -> Seq<char> {
    if i == 0 {
        "bpl"@
    } else if i == 1 {
        "r10b"@
    } else if i == 2 {
        "r11b"@
    } else if i == 3 {
        "bl"@
    } else if i == 4 {
        "r12b"@
    } else if i == 5 {
        "r13b"@
    } else if i == 6 {
        "r14b"@
    } else {
        "r15b"@
    }
}

/// 32-bit name of physical register `i`.
pub open spec fn spec_reg32(i: int) -> Seq<char> {
    if i == 0 {
        "ebp"@
    } else if i == 1 {
        "r10d"@
    } else if i == 2 {
        "r11d"@
    } else if i == 3 {
        "ebx"@
    } else if i == 4 {
        "r12d"@
    } else if i == 5 {
        "r13d"@
    } else if i == 6 {
        "r14d"@
    } else {
        "r15d"@
    }
}

/// 64-bit name of calling-convention argument register `i`.
pub open spec fn spec_argreg64(i: int) -> Seq<char> {
    if i == 0 {
        "rdi"@
    } else if i == 1 {
        "rsi"@
    } else if i == 2 {
        "rdx"@
    } else if i == 3 {
        "rcx"@
    } else if i == 4 {
        "r8"@
    } else {
        "r9"@
    }
}

/// 32-bit name of calling-convention argument register `i`.
pub open spec fn spec_argreg32(i: int) -> Seq<char> {
    if i == 0 {
        "edi"@
    } else if i == 1 {
        "esi"@
    } else if i == 2 {
        "edx"@
    } else if i == 3 {
        "ecx"@
    } else if i == 4 {
        "r8d"@
    } else {
        "r9d"@
    }
}

/// 8-bit name of calling-convention argument register `i`.
pub open spec fn spec_argreg8(i: int) -> Seq<char> {
    if i == 0 {
        "dil"@
    } else if i == 1 {
        "sil"@
    } else if i == 2 {
        "dl"@
    } else if i == 3 {
        "cl"@
    } else if i == 4 {
        "r8b"@
    } else {
        "r9b"@
    }
}

fn reg64(i: usize) -> (r: &'static str)
    requires
        i < 8,
    ensures
        r@ == spec_reg64(i as int),
{
    match i {
        0 => "rbp",
        1 => "r10",
        2 => "r11",
        3 => "r9",
        4 => "r12",
        5 => "r13",
        6 => "r14",
        _ => "r15",
    }
}

fn reg8(i: usize) -> (r: &'static str)
    requires
        i < 8,
    ensures
        r@ == spec_reg8(i as int),
{
    match i {
        0 => "bpl",
        1 => "r10b",
        2 => "r11b",
        3 => "bl",
        4 => "r12b",
        5 => "r13b",
        6 => "r14b",
        _ => "r15b",
    }
}

fn reg32(i: usize) -> (r: &'static str)
    requires
        i < 8,
    ensures
        r@ == spec_reg32(i as int),
{
    match i {
        0 => "ebp",
        1 => "r10d",
        2 => "r11d",
        3 => "ebx",
        4 => "r12d",
        5 => "r13d",
        6 => "r14d",
        _ => "r15d",
    }
}

fn argreg64(i: usize) -> (r: &'static str)
    requires
        i < 6,
    ensures
        r@ == spec_argreg64(i as int),
{
    match i {
        0 => "rdi",
        1 => "rsi",
        2 => "rdx",
        3 => "rcx",
        4 => "r8",
        _ => "r9",
    }
}

fn argreg32(i: usize) -> (r: &'static str)
    requires
        i < 6,
    ensures
        r@ == spec_argreg32(i as int),
{
    match i {
        0 => "edi",
        1 => "esi",
        2 => "edx",
        3 => "ecx",
        4 => "r8d",
        _ => "r9d",
    }
}

fn argreg8(i: usize) -> (r: &'static str)
    requires
        i < 6,
    ensures
        r@ == spec_argreg8(i as int),
{
    match i {
        0 => "dil",
        1 => "sil",
        2 => "dl",
        3 => "cl",
        4 => "r8b",
        _ => "r9b",
    }
}

/// Text moving each call argument register into its calling-convention
/// register, in order; `None` when more than six arguments are passed or an
/// argument names no physical register.
pub open spec fn spec_emit_call_args(args: Seq<usize>, i: int) -> Option<Seq<char>>
    decreases args.len() - i,
{
    if i < 0 || i >= args.len() {
        Some(Seq::empty())
    } else if i >= 6 || args[i] >= 8 {
        None
    } else {
        match spec_emit_call_args(args, i + 1) {
            Some(rest) => Some(
                "\tmov "@ + spec_argreg64(i) + ", "@ + spec_reg64(args[i] as int) + "\n"@ + rest,
            ),
            None => None,
        }
    }
}

/// The emission of one allocated instruction, per the per-opcode emission
/// table; `lend` is the function's unique end label and `fnum` the decimal
/// text of the function's index, which qualifies every internal label
/// (`.L<index>_<id>`) so that labels stay unique across functions even though
/// label ids restart at 0 in each one. `None` when a register operand is out
/// of range or a kill marker survived allocation.
pub open spec fn spec_emit_ir(ir: IrModel, lend: Seq<char>, fnum: Seq<char>) -> Option<
    Seq<char>,
> {
    match ir.op {
        IRType::IMM => if ir.lhs < 8 {
            Some("\tmov "@ + spec_reg64(ir.lhs as int) + ", "@ + dec_str(ir.rhs as nat) + "\n"@)
        } else {
            None
        },
        IRType::MOV => if ir.lhs < 8 && ir.rhs < 8 {
            Some(
                "\tmov "@ + spec_reg64(ir.lhs as int) + ", "@ + spec_reg64(ir.rhs as int) + "\n"@,
            )
        } else {
            None
        },
        IRType::SUB_IMM => if ir.lhs < 8 {
            Some("\tsub "@ + spec_reg64(ir.lhs as int) + ", "@ + dec_str(ir.rhs as nat) + "\n"@)
        } else {
            None
        },
        IRType::RETURN => if ir.lhs < 8 {
            Some("\tmov rax, "@ + spec_reg64(ir.lhs as int) + "\n\tjmp "@ + lend + "\n"@)
        } else {
            None
        },
        IRType::ADD => if ir.lhs < 8 && ir.rhs < 8 {
            Some(
                "\tadd "@ + spec_reg64(ir.lhs as int) + ", "@ + spec_reg64(ir.rhs as int) + "\n"@,
            )
        } else {
            None
        },
        IRType::SUB => if ir.lhs < 8 && ir.rhs < 8 {
            Some(
                "\tsub "@ + spec_reg64(ir.lhs as int) + ", "@ + spec_reg64(ir.rhs as int) + "\n"@,
            )
        } else {
            None
        },
        IRType::MUL => if ir.lhs < 8 && ir.rhs < 8 {
            Some(
                "\tmov rax, "@ + spec_reg64(ir.rhs as int) + "\n\tmul "@ + spec_reg64(
                    ir.lhs as int,
                ) + "\n\tmov "@ + spec_reg64(ir.lhs as int) + ", rax\n"@,
            )
        } else {
            None
        },
        IRType::DIV => if ir.lhs < 8 && ir.rhs < 8 {
            Some(
                "\tmov rax, "@ + spec_reg64(ir.lhs as int) + "\n\tcqo\n\tdiv "@ + spec_reg64(
                    ir.rhs as int,
                ) + "\n\tmov "@ + spec_reg64(ir.lhs as int) + ", rax\n"@,
            )
        } else {
            None
        },
        IRType::CALL => if ir.lhs < 8 {
            match spec_emit_call_args(ir.args, 0) {
                Some(moves) => Some(
                    moves + "\tpush r10\n\tpush r11\n\tmov rax, 0\n\tcall _"@ + ir.name
                        + "\n\tpop r11\n\tpop r10\n\tmov "@ + spec_reg64(ir.lhs as int)
                        + ", rax\n"@,
                ),
                None => None,
            }
        } else {
            None
        },
        IRType::STORE8_ARG => if ir.rhs < 6 {
            Some(
                "\tmov [rbp-"@ + dec_str(ir.lhs as nat) + "], "@ + spec_argreg8(ir.rhs as int)
                    + "\n"@,
            )
        } else {
            None
        },
        IRType::STORE32_ARG => if ir.rhs < 6 {
            Some(
                "\tmov [rbp-"@ + dec_str(ir.lhs as nat) + "], "@ + spec_argreg32(ir.rhs as int)
                    + "\n"@,
            )
        } else {
            None
        },
        IRType::STORE64_ARG => if ir.rhs < 6 {
            Some(
                "\tmov [rbp-"@ + dec_str(ir.lhs as nat) + "], "@ + spec_argreg64(ir.rhs as int)
                    + "\n"@,
            )
        } else {
            None
        },
        IRType::LT => if ir.lhs < 8 && ir.rhs < 8 {
            Some(
                "\tcmp "@ + spec_reg64(ir.lhs as int) + ", "@ + spec_reg64(ir.rhs as int)
                    + "\n\tsetl "@ + spec_reg8(ir.lhs as int) + "\n\tmovzx "@ + spec_reg64(
                    ir.lhs as int,
                ) + ", "@ + spec_reg8(ir.lhs as int) + "\n"@,
            )
        } else {
            None
        },
        IRType::LABEL => Some(".L"@ + fnum + "_"@ + dec_str(ir.lhs as nat) + ":\n"@),
        IRType::UNLESS => if ir.lhs < 8 {
            Some(
                "\tcmp "@ + spec_reg64(ir.lhs as int) + ", 0\n\tje .L"@ + fnum + "_"@ + dec_str(
                    ir.rhs as nat,
                ) + "\n"@,
            )
        } else {
            None
        },
        IRType::JMP => Some("\tjmp .L"@ + fnum + "_"@ + dec_str(ir.lhs as nat) + "\n"@),
        IRType::LOAD8 => if ir.lhs < 8 && ir.rhs < 8 {
            Some(
                "\tmov "@ + spec_reg8(ir.lhs as int) + ", ["@ + spec_reg64(ir.rhs as int)
                    + "]\n\tmovzx "@ + spec_reg64(ir.lhs as int) + ", "@ + spec_reg8(
                    ir.lhs as int,
                ) + "\n"@,
            )
        } else {
            None
        },
        IRType::LOAD32 => if ir.lhs < 8 && ir.rhs < 8 {
            Some(
                "\tmov "@ + spec_reg32(ir.lhs as int) + ", ["@ + spec_reg64(ir.rhs as int)
                    + "]\n"@,
            )
        } else {
            None
        },
        IRType::LOAD64 => if ir.lhs < 8 && ir.rhs < 8 {
            Some(
                "\tmov "@ + spec_reg64(ir.lhs as int) + ", ["@ + spec_reg64(ir.rhs as int)
                    + "]\n"@,
            )
        } else {
            None
        },
        IRType::STORE8 => if ir.lhs < 8 && ir.rhs < 8 {
            Some(
                "\tmov ["@ + spec_reg64(ir.lhs as int) + "], "@ + spec_reg8(ir.rhs as int)
                    + "\n"@,
            )
        } else {
            None
        },
        IRType::STORE32 => if ir.lhs < 8 && ir.rhs < 8 {
            Some(
                "\tmov ["@ + spec_reg64(ir.lhs as int) + "], "@ + spec_reg32(ir.rhs as int)
                    + "\n"@,
            )
        } else {
            None
        },
        IRType::STORE64 => if ir.lhs < 8 && ir.rhs < 8 {
            Some(
                "\tmov ["@ + spec_reg64(ir.lhs as int) + "], "@ + spec_reg64(ir.rhs as int)
                    + "\n"@,
            )
        } else {
            None
        },
        IRType::NOP => Some(Seq::empty()),
        IRType::KILL => None,
    }
}

/// The emission of an allocated instruction list, in order.
pub open spec fn spec_emit_irs(irs: Seq<IrModel>, lend: Seq<char>, fnum: Seq<char>) -> Option<
    Seq<char>,
>
    decreases irs.len(),
{
    if irs.len() == 0 {
        Some(Seq::empty())
    } else {
        match spec_emit_ir(irs[0], lend, fnum) {
            Some(t) => match spec_emit_irs(irs.drop_first(), lend, fnum) {
                Some(rest) => Some(t + rest),
                None => None,
            },
            None => None,
        }
    }
}

/// The rendering of one function: an (empty) data section, the globally
/// visible entry label, the prologue that establishes the frame and saves the
/// callee-saved registers, the emission of each instruction, and the epilogue
/// at the function's unique end label, numbered by the function's index.
pub open spec fn spec_gen_fn(f: FunctionModel, label: usize) -> Option<Seq<char>> {
    let fnum = dec_str(label as nat);
    let lend = ".Lend"@ + fnum;
    match spec_emit_irs(f.irs, lend, fnum) {
        Some(body) => Some(
            ".data\n.text\n.global _"@ + f.name + "\n_"@ + f.name
                + ":\n\tpush rbp\n\tmov rbp, rsp\n\tsub rsp, "@ + dec_str(f.stack_size as nat)
                + "\n\tpush r12\n\tpush r13\n\tpush r14\n\tpush r15\n"@ + body + lend
                + ":\n\tpop r15\n\tpop r14\n\tpop r13\n\tpop r12\n\tmov rsp, rbp\n\tpop rbp\n\tret\n"@,
        ),
        None => None,
    }
}

/// The rendering of the functions from index `label` on.
pub open spec fn spec_gen_fns(fns: Seq<FunctionModel>, label: usize) -> Option<Seq<char>>
    decreases fns.len(),
{
    if fns.len() == 0 {
        Some(Seq::empty())
    } else if label == usize::MAX {
        None
    } else {
        match spec_gen_fn(fns[0], label) {
            Some(t) => match spec_gen_fns(fns.drop_first(), (label + 1) as usize) {
                Some(rest) => Some(t + rest),
                None => None,
            },
            None => None,
        }
    }
}

/// The rendering of a whole program: the syntax directive, then each function
/// in order.
pub open spec fn spec_gen_x86(fns: Seq<FunctionModel>) -> Option<Seq<char>> {
    match spec_gen_fns(fns, 0) {
        Some(t) => Some(".intel_syntax noprefix\n"@ + t),
        None => None,
    }
}

/// The diagnostic display text of one instruction, by its operand shape:
/// register operands as `r<id>`, label operands as `.L<id>`, immediates and
/// frame offsets in decimal, a call as its result register, callee name and
/// opening parenthesis.
pub open spec fn spec_tostr(ir: IrModel) -> Seq<char> {
    let name = spec_irinfo_name(ir.op);
    match spec_irinfo_ty(ir.op) {
        IRInfoType::LABEL => ".L"@ + dec_str(ir.lhs as nat) + ":"@,
        IRInfoType::REG => name + " r"@ + dec_str(ir.lhs as nat),
        IRInfoType::REG_REG => name + " r"@ + dec_str(ir.lhs as nat) + ", r"@ + dec_str(
            ir.rhs as nat,
        ),
        IRInfoType::REG_IMN => name + " r"@ + dec_str(ir.lhs as nat) + ", "@ + dec_str(
            ir.rhs as nat,
        ),
        IRInfoType::REG_LABEL => name + " r"@ + dec_str(ir.lhs as nat) + ", .L"@ + dec_str(
            ir.rhs as nat,
        ),
        IRInfoType::NOARG => name,
        IRInfoType::CALL => "r"@ + dec_str(ir.lhs as nat) + " = "@ + ir.name + "("@,
        IRInfoType::IMM => name + " "@ + dec_str(ir.lhs as nat) + "\n"@,
        IRInfoType::IMM_IMM => name + " "@ + dec_str(ir.lhs as nat) + ", "@ + dec_str(
            ir.rhs as nat,
        ),
        IRInfoType::JMP => "  "@ + name + " .L"@ + dec_str(ir.lhs as nat),
    }
}

impl IR {
    /// Render this instruction for the diagnostic IR dump.
    #[verifier::rlimit(100)]
    pub fn tostr(&self) -> (r: String)
        ensures
            r@ == spec_tostr(self@),
    {
        let info = self.get_irinfo();
        let mut out = String::new();
        match info.ty {
            IRInfoType::LABEL => {
                out.append(".L");
                let t = usize_to_string(self.lhs);
                out.append(t.as_str());
                out.append(":");
                proof {
                    assert(out@ =~= ".L"@ + dec_str(self@.lhs as nat) + ":"@);
                }
            },
            IRInfoType::REG => {
                out.append(info.name);
                out.append(" r");
                let t = usize_to_string(self.lhs);
                out.append(t.as_str());
                proof {
                    assert(out@ =~= spec_irinfo_name(self@.op) + " r"@ + dec_str(
                        self@.lhs as nat,
                    ));
                }
            },
            IRInfoType::REG_REG => {
                out.append(info.name);
                out.append(" r");
                let t = usize_to_string(self.lhs);
                out.append(t.as_str());
                out.append(", r");
                let t2 = usize_to_string(self.rhs);
                out.append(t2.as_str());
                proof {
                    assert(out@ =~= spec_irinfo_name(self@.op) + " r"@ + dec_str(self@.lhs as nat)
                        + ", r"@ + dec_str(self@.rhs as nat));
                }
            },
            IRInfoType::REG_IMN => {
                out.append(info.name);
                out.append(" r");
                let t = usize_to_string(self.lhs);
                out.append(t.as_str());
                out.append(", ");
                let t2 = usize_to_string(self.rhs);
                out.append(t2.as_str());
                proof {
                    assert(out@ =~= spec_irinfo_name(self@.op) + " r"@ + dec_str(self@.lhs as nat)
                        + ", "@ + dec_str(self@.rhs as nat));
                }
            },
            IRInfoType::REG_LABEL => {
                out.append(info.name);
                out.append(" r");
                let t = usize_to_string(self.lhs);
                out.append(t.as_str());
                out.append(", .L");
                let t2 = usize_to_string(self.rhs);
                out.append(t2.as_str());
                proof {
                    assert(out@ =~= spec_irinfo_name(self@.op) + " r"@ + dec_str(self@.lhs as nat)
                        + ", .L"@ + dec_str(self@.rhs as nat));
                }
            },
            IRInfoType::NOARG => {
                out.append(info.name);
                proof {
                    assert(out@ =~= spec_irinfo_name(self@.op));
                }
            },
            IRInfoType::CALL => {
                out.append("r");
                let t = usize_to_string(self.lhs);
                out.append(t.as_str());
                out.append(" = ");
                out.append(self.name.as_str());
                out.append("(");
                proof {
                    assert(out@ =~= "r"@ + dec_str(self@.lhs as nat) + " = "@ + self@.name
                        + "("@);
                }
            },
            IRInfoType::IMM => {
                out.append(info.name);
                out.append(" ");
                let t = usize_to_string(self.lhs);
                out.append(t.as_str());
                out.append("\n");
                proof {
                    assert(out@ =~= spec_irinfo_name(self@.op) + " "@ + dec_str(self@.lhs as nat)
                        + "\n"@);
                }
            },
            IRInfoType::IMM_IMM => {
                out.append(info.name);
                out.append(" ");
                let t = usize_to_string(self.lhs);
                out.append(t.as_str());
                out.append(", ");
                let t2 = usize_to_string(self.rhs);
                out.append(t2.as_str());
                proof {
                    assert(out@ =~= spec_irinfo_name(self@.op) + " "@ + dec_str(self@.lhs as nat)
                        + ", "@ + dec_str(self@.rhs as nat));
                }
            },
            IRInfoType::JMP => {
                out.append("  ");
                out.append(info.name);
                out.append(" .L");
                let t = usize_to_string(self.lhs);
                out.append(t.as_str());
                proof {
                    assert(out@ =~= "  "@ + spec_irinfo_name(self@.op) + " .L"@ + dec_str(
                        self@.lhs as nat,
                    ));
                }
            },
        }
        out
    }
}

/// Concatenating under an optional tail is associative.
proof fn lemma_opt_concat_assoc(done: Seq<char>, piece: Seq<char>, rest_opt: Option<Seq<char>>)
    ensures
        (match rest_opt {
            Some(rest) => Some::<Seq<char>>(done + (piece + rest)),
            None => None,
        }) == (match rest_opt {
            Some(rest) => Some::<Seq<char>>((done + piece) + rest),
            None => None,
        }),
{
    match rest_opt {
        Some(rest) => {
            assert(done + (piece + rest) =~= (done + piece) + rest);
        },
        None => {},
    }
}

/// An empty prefix concatenated under an optional tail is the tail.
proof fn lemma_opt_concat_empty(rest_opt: Option<Seq<char>>)
    ensures
        rest_opt == (match rest_opt {
            Some(rest) => Some::<Seq<char>>(Seq::<char>::empty() + rest),
            None => None,
        }),
{
    match rest_opt {
        Some(rest) => {
            assert(Seq::<char>::empty() + rest =~= rest);
        },
        None => {},
    }
}

/// An internal rendering failure: an operand outside the physical register
/// file, a call with more than six arguments, or a kill marker that survived
/// allocation.
fn render_err() -> (e: CompileError)
    ensures
        e is Internal,
{
    CompileError::Internal(String::from_str("instruction cannot be rendered"))
}

/// Append the rendering of a typed load, store, argument store, or compare.
#[verifier::loop_isolation(false)]
#[verifier::rlimit(100)]
fn emit_access(out: &mut String, ir: &IR, ret: &str, fnum: &str) -> (r: Result<(), CompileError>)
    requires
        ir.op == IRType::LOAD8 || ir.op == IRType::LOAD32 || ir.op == IRType::LOAD64 || ir.op
            == IRType::STORE8 || ir.op == IRType::STORE32 || ir.op == IRType::STORE64 || ir.op
            == IRType::STORE8_ARG || ir.op == IRType::STORE32_ARG || ir.op == IRType::STORE64_ARG
            || ir.op == IRType::LT,
    ensures
        match spec_emit_ir(ir@, ret@, fnum@) {
            Some(t) => r == Ok::<(), CompileError>(()) && final(out)@ == old(out)@ + t,
            None => r matches Err(e) && e is Internal,
        },
{
    let ghost pre = out@;
    match ir.op {
        IRType::STORE8_ARG => {
            if ir.rhs >= 6 {
                return Err(render_err());
            }
            out.append("\tmov [rbp-");
            let t = usize_to_string(ir.lhs);
            out.append(t.as_str());
            out.append("], ");
            out.append(argreg8(ir.rhs));
            out.append("\n");
            proof {
                assert(out@ =~= pre + ("\tmov [rbp-"@ + dec_str(ir@.lhs as nat) + "], "@
                    + spec_argreg8(ir@.rhs as int) + "\n"@));
            }
            Ok(())
        },
        IRType::STORE32_ARG => {
            if ir.rhs >= 6 {
                return Err(render_err());
            }
            out.append("\tmov [rbp-");
            let t = usize_to_string(ir.lhs);
            out.append(t.as_str());
            out.append("], ");
            out.append(argreg32(ir.rhs));
            out.append("\n");
            proof {
                assert(out@ =~= pre + ("\tmov [rbp-"@ + dec_str(ir@.lhs as nat) + "], "@
                    + spec_argreg32(ir@.rhs as int) + "\n"@));
            }
            Ok(())
        },
        IRType::STORE64_ARG => {
            if ir.rhs >= 6 {
                return Err(render_err());
            }
            out.append("\tmov [rbp-");
            let t = usize_to_string(ir.lhs);
            out.append(t.as_str());
            out.append("], ");
            out.append(argreg64(ir.rhs));
            out.append("\n");
            proof {
                assert(out@ =~= pre + ("\tmov [rbp-"@ + dec_str(ir@.lhs as nat) + "], "@
                    + spec_argreg64(ir@.rhs as int) + "\n"@));
            }
            Ok(())
        },
        IRType::LT => {
            if ir.lhs >= 8 || ir.rhs >= 8 {
                return Err(render_err());
            }
            out.append("\tcmp ");
            out.append(reg64(ir.lhs));
            out.append(", ");
            out.append(reg64(ir.rhs));
            out.append("\n\tsetl ");
            out.append(reg8(ir.lhs));
            out.append("\n\tmovzx ");
            out.append(reg64(ir.lhs));
            out.append(", ");
            out.append(reg8(ir.lhs));
            out.append("\n");
            proof {
                assert(out@ =~= pre + ("\tcmp "@ + spec_reg64(ir@.lhs as int) + ", "@ + spec_reg64(
                    ir@.rhs as int,
                ) + "\n\tsetl "@ + spec_reg8(ir@.lhs as int) + "\n\tmovzx "@ + spec_reg64(
                    ir@.lhs as int,
                ) + ", "@ + spec_reg8(ir@.lhs as int) + "\n"@));
            }
            Ok(())
        },
        IRType::LOAD8 => {
            if ir.lhs >= 8 || ir.rhs >= 8 {
                return Err(render_err());
            }
            out.append("\tmov ");
            out.append(reg8(ir.lhs));
            out.append(", [");
            out.append(reg64(ir.rhs));
            out.append("]\n\tmovzx ");
            out.append(reg64(ir.lhs));
            out.append(", ");
            out.append(reg8(ir.lhs));
            out.append("\n");
            proof {
                assert(out@ =~= pre + ("\tmov "@ + spec_reg8(ir@.lhs as int) + ", ["@ + spec_reg64(
                    ir@.rhs as int,
                ) + "]\n\tmovzx "@ + spec_reg64(ir@.lhs as int) + ", "@ + spec_reg8(ir@.lhs as int)
                    + "\n"@));
            }
            Ok(())
        },
        IRType::LOAD32 => {
            if ir.lhs >= 8 || ir.rhs >= 8 {
                return Err(render_err());
            }
            out.append("\tmov ");
            out.append(reg32(ir.lhs));
            out.append(", [");
            out.append(reg64(ir.rhs));
            out.append("]\n");
            proof {
                assert(out@ =~= pre + ("\tmov "@ + spec_reg32(ir@.lhs as int) + ", ["@
                    + spec_reg64(ir@.rhs as int) + "]\n"@));
            }
            Ok(())
        },
        IRType::LOAD64 => {
            if ir.lhs >= 8 || ir.rhs >= 8 {
                return Err(render_err());
            }
            out.append("\tmov ");
            out.append(reg64(ir.lhs));
            out.append(", [");
            out.append(reg64(ir.rhs));
            out.append("]\n");
            proof {
                assert(out@ =~= pre + ("\tmov "@ + spec_reg64(ir@.lhs as int) + ", ["@
                    + spec_reg64(ir@.rhs as int) + "]\n"@));
            }
            Ok(())
        },
        IRType::STORE8 => {
            if ir.lhs >= 8 || ir.rhs >= 8 {
                return Err(render_err());
            }
            out.append("\tmov [");
            out.append(reg64(ir.lhs));
            out.append("], ");
            out.append(reg8(ir.rhs));
            out.append("\n");
            proof {
                assert(out@ =~= pre + ("\tmov ["@ + spec_reg64(ir@.lhs as int) + "], "@
                    + spec_reg8(ir@.rhs as int) + "\n"@));
            }
            Ok(())
        },
        IRType::STORE32 => {
            if ir.lhs >= 8 || ir.rhs >= 8 {
                return Err(render_err());
            }
            out.append("\tmov [");
            out.append(reg64(ir.lhs));
            out.append("], ");
            out.append(reg32(ir.rhs));
            out.append("\n");
            proof {
                assert(out@ =~= pre + ("\tmov ["@ + spec_reg64(ir@.lhs as int) + "], "@
                    + spec_reg32(ir@.rhs as int) + "\n"@));
            }
            Ok(())
        },
        IRType::STORE64 => {
            if ir.lhs >= 8 || ir.rhs >= 8 {
                return Err(render_err());
            }
            out.append("\tmov [");
            out.append(reg64(ir.lhs));
            out.append("], ");
            out.append(reg64(ir.rhs));
            out.append("\n");
            proof {
                assert(out@ =~= pre + ("\tmov ["@ + spec_reg64(ir@.lhs as int) + "], "@
                    + spec_reg64(ir@.rhs as int) + "\n"@));
            }
            Ok(())
        },
        _ => Err(render_err()),
    }
}

/// Append the rendering of one allocated instruction to `out`; `fnum` is the
/// decimal text of the function's index, qualifying internal labels.
#[verifier::loop_isolation(false)]
#[verifier::rlimit(100)]
fn emit_ir(out: &mut String, ir: &IR, ret: &str, fnum: &str) -> (r: Result<(), CompileError>)
    ensures
        match spec_emit_ir(ir@, ret@, fnum@) {
            Some(t) => r == Ok::<(), CompileError>(()) && final(out)@ == old(out)@ + t,
            None => r matches Err(e) && e is Internal,
        },
{
    let ghost pre = out@;
    match ir.op {
        IRType::IMM => {
            if ir.lhs >= 8 {
                return Err(render_err());
            }
            out.append("\tmov ");
            out.append(reg64(ir.lhs));
            out.append(", ");
            let t = usize_to_string(ir.rhs);
            out.append(t.as_str());
            out.append("\n");
            proof {
                assert(out@ =~= pre + ("\tmov "@ + spec_reg64(ir@.lhs as int) + ", "@ + dec_str(
                    ir@.rhs as nat,
                ) + "\n"@));
            }
            Ok(())
        },
        IRType::MOV => {
            if ir.lhs >= 8 || ir.rhs >= 8 {
                return Err(render_err());
            }
            out.append("\tmov ");
            out.append(reg64(ir.lhs));
            out.append(", ");
            out.append(reg64(ir.rhs));
            out.append("\n");
            proof {
                assert(out@ =~= pre + ("\tmov "@ + spec_reg64(ir@.lhs as int) + ", "@ + spec_reg64(
                    ir@.rhs as int,
                ) + "\n"@));
            }
            Ok(())
        },
        IRType::SUB_IMM => {
            if ir.lhs >= 8 {
                return Err(render_err());
            }
            out.append("\tsub ");
            out.append(reg64(ir.lhs));
            out.append(", ");
            let t = usize_to_string(ir.rhs);
            out.append(t.as_str());
            out.append("\n");
            proof {
                assert(out@ =~= pre + ("\tsub "@ + spec_reg64(ir@.lhs as int) + ", "@ + dec_str(
                    ir@.rhs as nat,
                ) + "\n"@));
            }
            Ok(())
        },
        IRType::RETURN => {
            if ir.lhs >= 8 {
                return Err(render_err());
            }
            out.append("\tmov rax, ");
            out.append(reg64(ir.lhs));
            out.append("\n\tjmp ");
            out.append(ret);
            out.append("\n");
            proof {
                assert(out@ =~= pre + ("\tmov rax, "@ + spec_reg64(ir@.lhs as int) + "\n\tjmp "@
                    + ret@ + "\n"@));
            }
            Ok(())
        },
        IRType::ADD => {
            if ir.lhs >= 8 || ir.rhs >= 8 {
                return Err(render_err());
            }
            out.append("\tadd ");
            out.append(reg64(ir.lhs));
            out.append(", ");
            out.append(reg64(ir.rhs));
            out.append("\n");
            proof {
                assert(out@ =~= pre + ("\tadd "@ + spec_reg64(ir@.lhs as int) + ", "@ + spec_reg64(
                    ir@.rhs as int,
                ) + "\n"@));
            }
            Ok(())
        },
        IRType::SUB => {
            if ir.lhs >= 8 || ir.rhs >= 8 {
                return Err(render_err());
            }
            out.append("\tsub ");
            out.append(reg64(ir.lhs));
            out.append(", ");
            out.append(reg64(ir.rhs));
            out.append("\n");
            proof {
                assert(out@ =~= pre + ("\tsub "@ + spec_reg64(ir@.lhs as int) + ", "@ + spec_reg64(
                    ir@.rhs as int,
                ) + "\n"@));
            }
            Ok(())
        },
        IRType::MUL => {
            if ir.lhs >= 8 || ir.rhs >= 8 {
                return Err(render_err());
            }
            out.append("\tmov rax, ");
            out.append(reg64(ir.rhs));
            out.append("\n\tmul ");
            out.append(reg64(ir.lhs));
            out.append("\n\tmov ");
            out.append(reg64(ir.lhs));
            out.append(", rax\n");
            proof {
                assert(out@ =~= pre + ("\tmov rax, "@ + spec_reg64(ir@.rhs as int) + "\n\tmul "@
                    + spec_reg64(ir@.lhs as int) + "\n\tmov "@ + spec_reg64(ir@.lhs as int)
                    + ", rax\n"@));
            }
            Ok(())
        },
        IRType::DIV => {
            if ir.lhs >= 8 || ir.rhs >= 8 {
                return Err(render_err());
            }
            out.append("\tmov rax, ");
            out.append(reg64(ir.lhs));
            out.append("\n\tcqo\n\tdiv ");
            out.append(reg64(ir.rhs));
            out.append("\n\tmov ");
            out.append(reg64(ir.lhs));
            out.append(", rax\n");
            proof {
                assert(out@ =~= pre + ("\tmov rax, "@ + spec_reg64(ir@.lhs as int)
                    + "\n\tcqo\n\tdiv "@ + spec_reg64(ir@.rhs as int) + "\n\tmov "@ + spec_reg64(
                    ir@.lhs as int,
                ) + ", rax\n"@));
            }
            Ok(())
        },
        IRType::CALL => {
            if ir.lhs >= 8 {
                return Err(render_err());
            }
            let ghost args = ir@.args;
            let na = ir.args.len();
            let ghost moves0 = spec_emit_call_args(args, 0);
            let ghost done0: Seq<char> = Seq::empty();
            proof {
                lemma_opt_concat_empty(moves0);
            }
            let mut done_text: Ghost<Seq<char>> = Ghost(done0);
            let mut i: usize = 0;
            while i < na
                invariant
                    i <= na,
                    na == args.len(),
                    out@ == pre + done_text@,
                    moves0 == (match spec_emit_call_args(args, i as int) {
                        Some(rest) => Some::<Seq<char>>(done_text@ + rest),
                        None => None,
                    }),
                decreases na - i,
            {
                if i >= 6 || ir.args[i] >= 8 {
                    return Err(render_err());
                }
                let a = ir.args[i];
                out.append("\tmov ");
                out.append(argreg64(i));
                out.append(", ");
                out.append(reg64(a));
                out.append("\n");
                let ghost piece = "\tmov "@ + spec_argreg64(i as int) + ", "@ + spec_reg64(
                    a as int,
                ) + "\n"@;
                proof {
                    assert(out@ =~= pre + (done_text@ + piece));
                    lemma_opt_concat_assoc(
                        done_text@,
                        piece,
                        spec_emit_call_args(args, i as int + 1),
                    );
                }
                done_text = Ghost(done_text@ + piece);
                i += 1;
            }
            out.append("\tpush r10\n\tpush r11\n\tmov rax, 0\n\tcall _");
            out.append(ir.name.as_str());
            out.append("\n\tpop r11\n\tpop r10\n\tmov ");
            out.append(reg64(ir.lhs));
            out.append(", rax\n");
            proof {
                assert(moves0 == Some::<Seq<char>>(done_text@ + Seq::<char>::empty()));
                assert(done_text@ + Seq::<char>::empty() =~= done_text@);
                assert(out@ =~= pre + (done_text@
                    + "\tpush r10\n\tpush r11\n\tmov rax, 0\n\tcall _"@ + ir@.name
                    + "\n\tpop r11\n\tpop r10\n\tmov "@ + spec_reg64(ir@.lhs as int)
                    + ", rax\n"@));
            }
            Ok(())
        },
        IRType::STORE8_ARG
        | IRType::STORE32_ARG
        | IRType::STORE64_ARG
        | IRType::LT => {
            return emit_access(out, ir, ret, fnum);
        },
        IRType::LABEL => {
            out.append(".L");
            out.append(fnum);
            out.append("_");
            let t = usize_to_string(ir.lhs);
            out.append(t.as_str());
            out.append(":\n");
            proof {
                assert(out@ =~= pre + (".L"@ + fnum@ + "_"@ + dec_str(ir@.lhs as nat) + ":\n"@));
            }
            Ok(())
        },
        IRType::UNLESS => {
            if ir.lhs >= 8 {
                return Err(render_err());
            }
            out.append("\tcmp ");
            out.append(reg64(ir.lhs));
            out.append(", 0\n\tje .L");
            out.append(fnum);
            out.append("_");
            let t = usize_to_string(ir.rhs);
            out.append(t.as_str());
            out.append("\n");
            proof {
                assert(out@ =~= pre + ("\tcmp "@ + spec_reg64(ir@.lhs as int) + ", 0\n\tje .L"@
                    + fnum@ + "_"@ + dec_str(ir@.rhs as nat) + "\n"@));
            }
            Ok(())
        },
        IRType::JMP => {
            out.append("\tjmp .L");
            out.append(fnum);
            out.append("_");
            let t = usize_to_string(ir.lhs);
            out.append(t.as_str());
            out.append("\n");
            proof {
                assert(out@ =~= pre + ("\tjmp .L"@ + fnum@ + "_"@ + dec_str(ir@.lhs as nat)
                    + "\n"@));
            }
            Ok(())
        },
        IRType::LOAD8
        | IRType::LOAD32
        | IRType::LOAD64
        | IRType::STORE8
        | IRType::STORE32
        | IRType::STORE64 => {
            return emit_access(out, ir, ret, fnum);
        },
        IRType::NOP => {
            proof {
                assert(out@ =~= pre + Seq::<char>::empty());
            }
            Ok(())
        },
        IRType::KILL => Err(render_err()),
    }
}

/// Append the rendering of one function, whose end label is numbered by the
/// function's index in the program.
#[verifier::loop_isolation(false)]
fn gen(out: &mut String, func: &Function, label: usize) -> (r: Result<(), CompileError>)
    ensures
        match spec_gen_fn(func@, label) {
            Some(t) => r == Ok::<(), CompileError>(()) && final(out)@ == old(out)@ + t,
            None => r matches Err(e) && e is Internal,
        },
{
    let ghost pre = out@;
    let lnum = usize_to_string(label);
    let mut ret = String::from_str(".Lend");
    ret.append(lnum.as_str());
    let ghost fnum = dec_str(label as nat);
    let ghost lend = ".Lend"@ + fnum;
    proof {
        assert(ret@ == lend);
    }
    out.append(".data\n.text\n.global _");
    out.append(func.name.as_str());
    out.append("\n_");
    out.append(func.name.as_str());
    out.append(":\n\tpush rbp\n\tmov rbp, rsp\n\tsub rsp, ");
    let ssz = usize_to_string(func.stack_size);
    out.append(ssz.as_str());
    out.append("\n\tpush r12\n\tpush r13\n\tpush r14\n\tpush r15\n");
    let ghost head = ".data\n.text\n.global _"@ + func@.name + "\n_"@ + func@.name
        + ":\n\tpush rbp\n\tmov rbp, rsp\n\tsub rsp, "@ + dec_str(func@.stack_size as nat)
        + "\n\tpush r12\n\tpush r13\n\tpush r14\n\tpush r15\n"@;
    proof {
        assert(out@ =~= pre + head);
    }
    let ghost irs = func@.irs;
    let ghost body0 = spec_emit_irs(irs, lend, fnum);
    let mut done_text: Ghost<Seq<char>> = Ghost(Seq::<char>::empty());
    proof {
        lemma_opt_concat_empty(body0);
        assert(irs.skip(0) =~= irs);
    }
    let n = func.irs.len();
    let mut i: usize = 0;
    while i < n
        invariant
            i <= n,
            n == irs.len(),
            out@ == pre + head + done_text@,
            body0 == (match spec_emit_irs(irs.skip(i as int), lend, fnum) {
                Some(rest) => Some::<Seq<char>>(done_text@ + rest),
                None => None,
            }),
        decreases n - i,
    {
        let ghost cur = irs.skip(i as int);
        proof {
            assert(cur[0] == irs[i as int]);
            assert(cur.drop_first() =~= irs.skip(i as int + 1));
        }
        let ghost out_pre = out@;
        match emit_ir(out, &func.irs[i], ret.as_str(), lnum.as_str()) {
            Ok(u) => {},
            Err(e) => {
                return Err(e);
            },
        }
        proof {
            let piece = spec_emit_ir(irs[i as int], lend, fnum)->Some_0;
            lemma_opt_concat_assoc(
                done_text@,
                piece,
                spec_emit_irs(cur.drop_first(), lend, fnum),
            );
            assert(out@ =~= pre + head + (done_text@ + piece));
        }
        done_text = Ghost(done_text@ + spec_emit_ir(irs[i as int], lend, fnum)->Some_0);
        i += 1;
    }
    proof {
        assert(irs.skip(n as int) =~= Seq::<IrModel>::empty());
        assert(done_text@ + Seq::<char>::empty() =~= done_text@);
    }
    out.append(ret.as_str());
    out.append(
        ":\n\tpop r15\n\tpop r14\n\tpop r13\n\tpop r12\n\tmov rsp, rbp\n\tpop rbp\n\tret\n",
    );
    proof {
        assert(out@ =~= pre + (head + done_text@ + lend
            + ":\n\tpop r15\n\tpop r14\n\tpop r13\n\tpop r12\n\tmov rsp, rbp\n\tpop rbp\n\tret\n"@));
    }
    Ok(())
}

/// Render a whole program: the Intel-syntax directive, then each allocated
/// function in order. Fails with an internal error when an operand is outside
/// the physical register file, a call passes more than six arguments, or a
/// kill marker survived allocation.
#[verifier::loop_isolation(false)]
pub fn gen_x86(fns: Vec<Function>) -> (r: Result<String, CompileError>)
    ensures
        match spec_gen_x86(fns_model(fns@)) {
            Some(t) => r matches Ok(s) && s@ == t,
            None => r matches Err(e) && e is Internal,
        },
{
    let ghost models = fns_model(fns@);
    let mut out = String::from_str(".intel_syntax noprefix\n");
    let ghost head = ".intel_syntax noprefix\n"@;
    let ghost whole = spec_gen_fns(models, 0);
    let mut done_text: Ghost<Seq<char>> = Ghost(Seq::<char>::empty());
    proof {
        lemma_opt_concat_empty(whole);
        assert(models.skip(0) =~= models);
        assert(out@ =~= head + done_text@);
    }
    let n = fns.len();
    let mut i: usize = 0;
    while i < n
        invariant
            i <= n,
            n == models.len(),
            out@ == head + done_text@,
            whole == (match spec_gen_fns(models.skip(i as int), i) {
                Some(rest) => Some::<Seq<char>>(done_text@ + rest),
                None => None,
            }),
        decreases n - i,
    {
        let ghost cur = models.skip(i as int);
        proof {
            assert(cur[0] == models[i as int]);
            assert(cur.drop_first() =~= models.skip(i as int + 1));
        }
        match gen(&mut out, &fns[i], i) {
            Ok(u) => {},
            Err(e) => {
                return Err(e);
            },
        }
        proof {
            let piece = spec_gen_fn(models[i as int], i)->Some_0;
            lemma_opt_concat_assoc(
                done_text@,
                piece,
                spec_gen_fns(cur.drop_first(), (i + 1) as usize),
            );
            assert(out@ =~= head + (done_text@ + piece));
        }
        done_text = Ghost(done_text@ + spec_gen_fn(models[i as int], i)->Some_0);
        i += 1;
    }
    proof {
        assert(models.skip(n as int) =~= Seq::<FunctionModel>::empty());
        assert(done_text@ + Seq::<char>::empty() =~= done_text@);
    }
    Ok(out)
}

} // verus!
