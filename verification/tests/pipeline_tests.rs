use rugcc::codegen::{gen_x86, usize_to_string};
use rugcc::common::{CompileError, Function, IRType, parse_usize};
use rugcc::ir::IrGenerator;
use rugcc::node::parse;
use rugcc::regalloc::alloc_regs;
use rugcc::sema::SemaGenerator;
use rugcc::token::tokenize;

fn compile(source: &str) -> Result<String, CompileError> {
    let mut tokens = tokenize(source.chars().collect())?;
    let nodes = parse(&mut tokens)?;
    let mut sema = SemaGenerator::new();
    let nodes = sema.sema(nodes)?;
    let mut generator = IrGenerator::new();
    let mut fns = generator.gen_ir(nodes)?;
    alloc_regs(&mut fns)?;
    gen_x86(fns)
}

fn lower(source: &str) -> Result<Vec<Function>, CompileError> {
    let mut tokens = tokenize(source.chars().collect())?;
    let nodes = parse(&mut tokens)?;
    let mut sema = SemaGenerator::new();
    let nodes = sema.sema(nodes)?;
    let mut generator = IrGenerator::new();
    generator.gen_ir(nodes)
}

#[test]
fn compiles_arithmetic_program() {
    let text = compile("int main(){return 2+2*3/2-1;}").unwrap();
    assert!(text.starts_with(".intel_syntax noprefix\n"));
    assert!(text.contains(".global _main\n"));
    assert!(text.contains("_main:\n"));
    assert!(text.contains("\tmul "));
    assert!(text.contains("\tdiv "));
    assert!(text.contains("\tret\n"));
}

#[test]
fn compiles_two_function_program() {
    let text = compile("int add(int a,int b){return a+b;} int main(){return add(1,2);}").unwrap();
    assert!(text.contains(".global _add\n"));
    assert!(text.contains(".global _main\n"));
    assert!(text.contains("\tcall _add\n"));
    // each function closes its frame at its own numbered end label
    assert!(text.contains(".Lend0:\n"));
    assert!(text.contains(".Lend1:\n"));
    // the first incoming argument lands in the first parameter's frame slot
    assert!(text.contains("\tmov [rbp-4], edi\n"));
    assert!(text.contains("\tmov [rbp-8], esi\n"));
}

#[test]
fn local_variable_uses_one_store_and_one_load_at_same_offset() {
    let fns = lower("int main(){int x; x=3; return x;}").unwrap();
    assert_eq!(fns.len(), 1);
    let irs = &fns[0].irs;
    let stores: Vec<usize> = (0..irs.len()).filter(|&i| irs[i].op == IRType::STORE32).collect();
    let loads: Vec<usize> = (0..irs.len()).filter(|&i| irs[i].op == IRType::LOAD32).collect();
    assert_eq!(stores.len(), 1);
    assert_eq!(loads.len(), 1);
    // the address feeding each access comes from the same frame offset
    let store_addr_off = irs[stores[0] - 1].rhs;
    assert_eq!(irs[stores[0] - 1].op, IRType::SUB_IMM);
    let load_addr_off = irs[loads[0] - 1].rhs;
    assert_eq!(irs[loads[0] - 1].op, IRType::SUB_IMM);
    assert_eq!(store_addr_off, load_addr_off);
    assert_eq!(store_addr_off, 4);
}

#[test]
fn array_accesses_scale_offsets_by_element_size() {
    let fns = lower("int main(){int ary[2]; *ary=3; *(ary+1)=7; return *ary + *(ary+1);}")
        .unwrap();
    assert_eq!(fns.len(), 1);
    let irs = &fns[0].irs;
    // both pointer-offset computations scale by the int size: an
    // immediate-load of 4 and a multiply right before each address add
    let muls: Vec<usize> = (0..irs.len()).filter(|&i| irs[i].op == IRType::MUL).collect();
    assert_eq!(muls.len(), 2);
    for &i in &muls {
        assert_eq!(irs[i - 1].op, IRType::IMM);
        assert_eq!(irs[i - 1].rhs, 4);
        assert_eq!(irs[i - 1].lhs, irs[i].rhs);
    }
    // and the whole program still compiles to assembly
    assert!(compile("int main(){int ary[2]; *ary=3; *(ary+1)=7; return *ary + *(ary+1);}")
        .is_ok());
}

#[test]
fn eight_live_values_fit_and_a_ninth_exhausts_the_registers() {
    // Seven simultaneously live temporaries plus the reserved frame base make
    // exactly eight live registers: that fits.
    let fits = "int main(){return 1+(2+(3+(4+(5+(6+7)))));}";
    assert!(compile(fits).is_ok());
    // One more simultaneously live temporary needs a ninth register.
    let too_many = "int main(){return 1+(2+(3+(4+(5+(6+(7+8))))));}";
    assert_eq!(compile(too_many).unwrap_err(), CompileError::RegisterExhausted);
}

#[test]
fn logical_and_branches_past_right_operand() {
    let fns = lower("int main(){return 1 && 2;}").unwrap();
    let irs = &fns[0].irs;
    // the first branch-if-zero targets a label defined exactly once, after
    // every instruction belonging to the right operand's lowering
    let unless = (0..irs.len()).find(|&i| irs[i].op == IRType::UNLESS).unwrap();
    let target = irs[unless].rhs;
    let defs: Vec<usize> = (0..irs.len())
        .filter(|&i| irs[i].op == IRType::LABEL && irs[i].lhs == target)
        .collect();
    assert_eq!(defs.len(), 1);
    // the right operand's value register is produced right after the branch;
    // everything that touches it comes before the label definition
    let rhs_reg = irs[unless + 1].lhs;
    assert_eq!(irs[unless + 1].op, IRType::IMM);
    for i in 0..irs.len() {
        let touches = irs[i].lhs == rhs_reg || irs[i].rhs == rhs_reg;
        if touches && !matches!(irs[i].op, IRType::LABEL | IRType::JMP) {
            assert!(i < defs[0]);
        }
    }
}

#[test]
fn every_produced_register_is_killed_exactly_once() {
    let fns = lower(
        "int add(int a,int b){return a+b;} int main(){int x; x=2; if (x && 1) x = add(x, 3); return x;}",
    )
    .unwrap();
    for f in &fns {
        let mut highest = 0;
        for ir in &f.irs {
            let reg_bearing = !matches!(
                ir.op,
                IRType::KILL
                    | IRType::LABEL
                    | IRType::JMP
                    | IRType::NOP
                    | IRType::STORE8_ARG
                    | IRType::STORE32_ARG
                    | IRType::STORE64_ARG
            );
            if reg_bearing && ir.lhs > highest {
                highest = ir.lhs;
            }
        }
        for v in 1..=highest {
            let kills = f.irs.iter().filter(|i| i.op == IRType::KILL && i.lhs == v).count();
            assert_eq!(kills, 1, "register {} in {}", v, f.name);
        }
        let zero_kills = f.irs.iter().filter(|i| i.op == IRType::KILL && i.lhs == 0).count();
        assert_eq!(zero_kills, 0);
    }
}

#[test]
fn undefined_variable_is_a_user_error() {
    let err = compile("int main(){return y;}").unwrap_err();
    assert!(matches!(err, CompileError::UserInput(_)));
}

#[test]
fn pointer_plus_pointer_is_a_user_error() {
    let err = compile("int main(){int ary[2]; return ary + ary;}").unwrap_err();
    assert!(matches!(err, CompileError::UserInput(_)));
}

#[test]
fn malformed_program_is_a_user_error() {
    let err = compile("int main(){return 1").unwrap_err();
    assert!(matches!(err, CompileError::UserInput(_)));
}

#[test]
fn surviving_kill_marker_is_an_internal_error() {
    // the code generator refuses a stream that never went through allocation
    let fns = lower("int main(){return 1;}").unwrap();
    let err = gen_x86(fns).unwrap_err();
    assert!(matches!(err, CompileError::Internal(_)));
}

#[test]
fn compiles_if_else_statement() {
    let text =
        compile("int main(){int x; x=1; if (x < 2) x = 10; else x = 20; return x;}").unwrap();
    assert!(text.contains("\tsetl "));
    assert!(text.contains("\tje .L0_0\n"));
    assert!(text.contains(".L0_0:\n"));
    assert!(text.contains(".L0_1:\n"));
}

#[test]
fn compiles_for_loop() {
    let src = "int main(){int i; int s; s=0; for (i=0; i<10; i=i+1) s=s+i; return s;}";
    let text = compile(src).unwrap();
    // loop head, exit label, and back edge are all present
    assert!(text.contains(".L0_0:\n"));
    assert!(text.contains(".L0_1:\n"));
    assert!(text.contains("\tjmp .L0_0\n"));
    assert!(text.contains("\tje .L0_1\n"));
}

#[test]
fn compiles_logical_or() {
    let fns = lower("int main(){return 0 || 3;}").unwrap();
    let irs = &fns[0].irs;
    // the short-circuit-true path sets 1 and jumps past the right operand
    let jmp = (0..irs.len()).find(|&i| irs[i].op == IRType::JMP).unwrap();
    let target = irs[jmp].lhs;
    let defs: Vec<usize> = (0..irs.len())
        .filter(|&i| irs[i].op == IRType::LABEL && irs[i].lhs == target)
        .collect();
    assert_eq!(defs.len(), 1);
    assert!(defs[0] > jmp);
    assert!(compile("int main(){return 0 || 3;}").is_ok());
}

#[test]
fn char_variables_use_byte_width_accesses() {
    let fns = lower("int main(){char c; c=7; return c;}").unwrap();
    let irs = &fns[0].irs;
    assert!(irs.iter().any(|i| i.op == IRType::STORE8));
    assert!(irs.iter().any(|i| i.op == IRType::LOAD8));
    let text = compile("int main(){char c; c=7; return c;}").unwrap();
    assert!(text.contains("\tmovzx "));
}

#[test]
fn labels_are_unique_across_functions() {
    // label ids restart at 0 in each function, so the emitted labels carry
    // the function index: two functions with control flow must not define
    // the same assembly label twice
    let src = "int f(int a){if (a) a = 1; return a;} int main(){if (2) return f(3); return 4;}";
    let text = compile(src).unwrap();
    assert!(text.contains(".L0_0:\n"));
    assert!(text.contains(".L1_0:\n"));
    let mut defs: Vec<&str> = text.lines().filter(|l| l.ends_with(":")).collect();
    let total = defs.len();
    defs.sort();
    defs.dedup();
    assert_eq!(defs.len(), total);
}

#[test]
fn dereference_loads_at_the_pointee_width() {
    // dereferencing a pointer to char reads one byte; to int, four
    let fns = lower("int main(){char ary[2]; *ary=7; return *ary;}").unwrap();
    let irs = &fns[0].irs;
    assert!(irs.iter().any(|i| i.op == IRType::LOAD8));
    assert!(irs.iter().any(|i| i.op == IRType::STORE8));
    let fns = lower("int main(){int ary[2]; *ary=3; return *ary;}").unwrap();
    let irs = &fns[0].irs;
    assert!(irs.iter().any(|i| i.op == IRType::LOAD32));
    assert!(!irs.iter().any(|i| i.op == IRType::LOAD64));
}

#[test]
fn declaration_initializer_stores_at_the_declared_width() {
    let fns = lower("int main(){char c = 7; return c;}").unwrap();
    let irs = &fns[0].irs;
    assert!(irs.iter().any(|i| i.op == IRType::STORE8));
    assert!(!irs.iter().any(|i| i.op == IRType::STORE32));
    let fns = lower("int main(){int x = 3; return x;}").unwrap();
    let irs = &fns[0].irs;
    assert!(irs.iter().any(|i| i.op == IRType::STORE32));
    assert!(!irs.iter().any(|i| i.op == IRType::STORE8));
}

#[test]
fn parse_usize_reads_decimal_strings() {
    assert_eq!(parse_usize(&"0".to_string()), Some(0));
    assert_eq!(parse_usize(&"42".to_string()), Some(42));
    assert_eq!(parse_usize(&"18446744073709551615".to_string()), Some(usize::MAX));
    assert_eq!(parse_usize(&"18446744073709551616".to_string()), None);
    assert_eq!(parse_usize(&"".to_string()), None);
    assert_eq!(parse_usize(&"1a".to_string()), None);
}

#[test]
fn usize_to_string_renders_decimal() {
    assert_eq!(usize_to_string(0), "0");
    assert_eq!(usize_to_string(7), "7");
    assert_eq!(usize_to_string(12345), "12345");
    assert_eq!(usize_to_string(usize::MAX), "18446744073709551615");
}

#[test]
fn assembly_for_return_of_constant() {
    let text = compile("int main(){return 6;}").unwrap();
    let expect = ".intel_syntax noprefix\n\
                  .data\n\
                  .text\n\
                  .global _main\n\
                  _main:\n\
                  \tpush rbp\n\
                  \tmov rbp, rsp\n\
                  \tsub rsp, 0\n\
                  \tpush r12\n\
                  \tpush r13\n\
                  \tpush r14\n\
                  \tpush r15\n\
                  \tmov r10, 6\n\
                  \tmov rax, r10\n\
                  \tjmp .Lend0\n\
                  .Lend0:\n\
                  \tpop r15\n\
                  \tpop r14\n\
                  \tpop r13\n\
                  \tpop r12\n\
                  \tmov rsp, rbp\n\
                  \tpop rbp\n\
                  \tret\n";
    assert_eq!(text, expect);
}
