use rugcc::common::{CompileError, Function, IR, IRType};
use rugcc::regalloc::alloc_regs;

fn ir(op: IRType, lhs: usize, rhs: usize) -> IR {
    IR { op, lhs, rhs, ..Default::default() }
}

#[test]
fn can_alloc() {
    let mut input = vec![Function {
        name: "main".to_string(),
        irs: vec![
            ir(IRType::IMM, 1, 2),
            ir(IRType::IMM, 2, 2),
            ir(IRType::IMM, 3, 3),
            ir(IRType::MUL, 2, 3),
            ir(IRType::KILL, 3, 0),
            ir(IRType::ADD, 1, 2),
            ir(IRType::KILL, 2, 0),
            ir(IRType::IMM, 4, 2),
            ir(IRType::DIV, 1, 4),
            ir(IRType::KILL, 4, 0),
            ir(IRType::IMM, 5, 1),
            ir(IRType::SUB, 1, 5),
            ir(IRType::KILL, 5, 0),
            ir(IRType::RETURN, 1, 0),
            ir(IRType::KILL, 1, 0),
        ],
        stack_size: 0,
    }];

    alloc_regs(&mut input).unwrap();

    let expect = vec![Function {
        name: "main".to_string(),
        irs: vec![
            ir(IRType::IMM, 1, 2),
            ir(IRType::IMM, 2, 2),
            ir(IRType::IMM, 3, 3),
            ir(IRType::MUL, 2, 3),
            ir(IRType::NOP, 3, 0),
            ir(IRType::ADD, 1, 2),
            ir(IRType::NOP, 2, 0),
            ir(IRType::IMM, 2, 2),
            ir(IRType::DIV, 1, 2),
            ir(IRType::NOP, 4, 0),
            ir(IRType::IMM, 2, 1),
            ir(IRType::SUB, 1, 2),
            ir(IRType::NOP, 5, 0),
            ir(IRType::RETURN, 1, 0),
            ir(IRType::NOP, 1, 0),
        ],
        stack_size: 0,
    }];

    assert_eq!(input.len(), expect.len());
    for i in 0..input.len() {
        assert_eq!(input[i], expect[i]);
    }
}

#[test]
fn alloc_is_deterministic() {
    let stream = || {
        vec![Function {
            name: "main".to_string(),
            irs: vec![
                ir(IRType::IMM, 1, 10),
                ir(IRType::IMM, 2, 20),
                ir(IRType::ADD, 1, 2),
                ir(IRType::KILL, 2, 0),
                ir(IRType::RETURN, 1, 0),
                ir(IRType::KILL, 1, 0),
            ],
            stack_size: 0,
        }]
    };
    let mut first = stream();
    let mut second = stream();
    alloc_regs(&mut first).unwrap();
    alloc_regs(&mut second).unwrap();
    assert_eq!(first, second);
}

#[test]
fn alloc_reuses_freed_registers_first_fit() {
    // After r2 is killed, the next fresh virtual id takes physical slot 1
    // again (the lowest free one; slot 0 is the reserved frame base).
    let mut input = vec![Function {
        name: "f".to_string(),
        irs: vec![
            ir(IRType::IMM, 1, 5),
            ir(IRType::KILL, 1, 0),
            ir(IRType::IMM, 2, 6),
            ir(IRType::RETURN, 2, 0),
            ir(IRType::KILL, 2, 0),
        ],
        stack_size: 0,
    }];
    alloc_regs(&mut input).unwrap();
    assert_eq!(input[0].irs[0], ir(IRType::IMM, 1, 5));
    assert_eq!(input[0].irs[2], ir(IRType::IMM, 1, 6));
}

#[test]
fn alloc_rejects_a_ninth_live_register() {
    // Virtual id 0 is pre-bound to physical register 0, so eight
    // simultaneously live virtual registers (the frame base plus seven
    // temporaries) fit, and one more is a resource-exhaustion error.
    let mut fits = Vec::new();
    for v in 1..8usize {
        fits.push(ir(IRType::IMM, v, v));
    }
    for v in 1..8usize {
        fits.push(ir(IRType::KILL, v, 0));
    }
    let mut ok_input = vec![Function { name: "f".to_string(), irs: fits, stack_size: 0 }];
    assert!(alloc_regs(&mut ok_input).is_ok());

    let mut too_many = Vec::new();
    for v in 1..9usize {
        too_many.push(ir(IRType::IMM, v, v));
    }
    for v in 1..9usize {
        too_many.push(ir(IRType::KILL, v, 0));
    }
    let mut bad_input = vec![Function { name: "f".to_string(), irs: too_many, stack_size: 0 }];
    assert_eq!(alloc_regs(&mut bad_input).unwrap_err(), CompileError::RegisterExhausted);
}

#[test]
fn alloc_rejects_kill_of_unmapped_register() {
    let mut input = vec![Function {
        name: "f".to_string(),
        irs: vec![ir(IRType::KILL, 7, 0)],
        stack_size: 0,
    }];
    let err = alloc_regs(&mut input).unwrap_err();
    assert!(matches!(err, CompileError::Internal(_)));
}

#[test]
fn alloc_rejects_double_kill() {
    let mut input = vec![Function {
        name: "f".to_string(),
        irs: vec![
            ir(IRType::IMM, 1, 5),
            ir(IRType::KILL, 1, 0),
            ir(IRType::KILL, 1, 0),
        ],
        stack_size: 0,
    }];
    let err = alloc_regs(&mut input).unwrap_err();
    assert!(matches!(err, CompileError::Internal(_)));
}
