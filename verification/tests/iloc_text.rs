use compilador::instructions::{CodeLine, IlocCode, Instruction, Label, Operation, Register};

#[test]
fn label_and_register_names() {
    assert_eq!(Label(0).to_string(), "L0");
    assert_eq!(Label(42).to_string(), "L42");
    assert_eq!(Register::Rfp.to_string(), "rfp");
    assert_eq!(Register::Rsp.to_string(), "rsp");
    assert_eq!(Register::Rbss.to_string(), "rbss");
    assert_eq!(Register::R(17).to_string(), "r17");
}

#[test]
fn operation_texts() {
    let cases: Vec<(Operation, &str)> = vec![
        (Operation::Load(Register::R(1), Register::R(2)), "load r1 => r2"),
        (Operation::LoadI(-1024, Register::Rfp), "loadI -1024 => rfp"),
        (Operation::LoadAI(Register::Rfp, 4, Register::R(3)), "loadAI rfp, 4 => r3"),
        (Operation::LoadAO(Register::R(1), Register::R(2), Register::R(3)), "loadAO r1, r2 => r3"),
        (Operation::StoreAI(Register::R(0), Register::Rsp, 8), "storeAI r0 => rsp, 8"),
        (Operation::StoreAO(Register::R(0), Register::R(1), Register::R(2)), "storeAO r0 => r1, r2"),
        (Operation::Jump(Register::R(5)), "jump -> r5"),
        (Operation::JumpI(Label(3)), "jumpI -> L3"),
        (Operation::Cbr(Register::R(1), Label(1), Label(2)), "cbr r1 -> L1, L2"),
        (Operation::CmpLT(Register::R(1), Register::R(2), Register::R(3)), "cmp_LT r1, r2 -> r3"),
        (Operation::CmpNE(Register::R(1), Register::R(2), Register::R(3)), "cmp_NE r1, r2 -> r3"),
        (Operation::Halt, "halt"),
        (Operation::Nop, "nop"),
        (Operation::I2i(Register::Rsp, Register::Rfp), "i2i rsp => rfp"),
        (Operation::AddI(Register::Rsp, 16, Register::Rsp), "addI rsp, 16 => rsp"),
        (Operation::DivI(Register::R(1), -2147483648, Register::R(2)), "divI r1, -2147483648 => r2"),
        (Operation::And(Register::R(1), Register::R(2)), "and r1 => r2"),
        (Operation::Not(Register::R(9)), "not -> r9"),
    ];
    for (op, text) in cases {
        assert_eq!(op.to_string().unwrap(), text);
    }
}

#[test]
fn labelled_instruction_text() {
    let i = Instruction::Labeled(Label(7), Operation::Nop);
    assert_eq!(i.to_string().unwrap(), "L7: nop");
}

#[test]
fn collect_without_main_fails() {
    let mut code = IlocCode::new();
    let err = code.collect_promises().unwrap_err();
    assert_eq!(err.error_code(), 1);
}

#[test]
fn collect_lays_out_the_prologue() {
    let mut code = IlocCode::new();
    let main_label = code.add_fn_label("main".to_string());
    code.push_code(CodeLine::Deliver(Instruction::Labeled(main_label, Operation::Nop)));
    code.collect_promises().unwrap();
    let listing = code.listing();
    assert_eq!(
        listing,
        vec![
            "loadI 1024 => rfp",
            "loadI 1024 => rsp",
            "loadI 10 => rbss",
            "loadI 8 => r0",
            "storeAI r0 => rsp, 0",
            "storeAI rsp => rsp, 4",
            "storeAI rfp => rsp, 8",
            "jumpI -> L0",
            "halt",
            "L0: nop",
        ]
    );
}

#[test]
fn labels_and_registers_are_handed_out_in_order() {
    let mut code = IlocCode::new();
    assert_eq!(code.new_label(), Label(0));
    assert_eq!(code.add_fn_label("f".to_string()), Label(1));
    assert_eq!(code.new_label(), Label(2));
    assert_eq!(code.new_register(), Register::R(1));
    assert_eq!(code.new_register(), Register::R(2));
}

#[test]
fn paid_promises_are_laid_out_in_place() {
    let mut code = IlocCode::new();
    let main_label = code.add_fn_label("main".to_string());
    code.push_code(CodeLine::Deliver(Instruction::Labeled(main_label, Operation::Nop)));
    let voucher = code.generate_promise();
    assert_eq!(voucher, compilador::instructions::Voucher(2));
    code.push_code(CodeLine::Promise(voucher));
    code.push_code(CodeLine::Deliver(Instruction::Unlabeled(Operation::Halt)));
    let listing = code.listing();
    assert_eq!(listing[10], "Unpaid promise: Voucher(2)");
    code.pay_promise(
        voucher,
        vec![
            Instruction::Unlabeled(Operation::LoadI(3, Register::R(1))),
            Instruction::Unlabeled(Operation::AddI(Register::R(1), 4, Register::R(2))),
        ],
    );
    code.collect_promises().unwrap();
    let listing = code.listing();
    assert_eq!(listing.len(), 13);
    assert_eq!(listing[2], "loadI 13 => rbss");
    assert_eq!(listing[7], "jumpI -> L0");
    assert_eq!(listing[9], "L0: nop");
    assert_eq!(listing[10], "loadI 3 => r1");
    assert_eq!(listing[11], "addI r1, 4 => r2");
    assert_eq!(listing[12], "halt");
}

#[test]
fn an_unpaid_promise_cannot_be_collected() {
    let mut code = IlocCode::new();
    code.add_fn_label("main".to_string());
    let voucher = code.generate_promise();
    code.push_code(CodeLine::Promise(voucher));
    let before = code.listing();
    match code.collect_promises() {
        Err(compilador::error::CompilerError::IlocErrorUndefinedBehavior(m)) => assert_eq!(m, "Unpaid voucher: Voucher(2)"),
        other => panic!("{:?}", other),
    }
    assert_eq!(code.listing(), before);
}

#[test]
fn missing_main_is_reported() {
    let mut code = IlocCode::new();
    match code.collect_promises() {
        Err(compilador::error::CompilerError::IlocErrorUndefinedBehavior(m)) => assert_eq!(m, "No main() function found."),
        other => panic!("{:?}", other),
    }
}

#[test]
fn collected_code_holds_no_promise() {
    let mut code = IlocCode::new();
    code.add_fn_label("main".to_string());
    let first = code.generate_promise();
    let second = code.generate_promise();
    code.push_code(CodeLine::Promise(second));
    code.push_code(CodeLine::Promise(first));
    code.pay_promise(first, vec![Instruction::Unlabeled(Operation::Nop)]);
    code.pay_promise(second, vec![]);
    code.collect_promises().unwrap();
    let listing = code.listing();
    assert!(listing.iter().all(|line| !line.starts_with("Unpaid")));
    assert_eq!(listing[2], format!("loadI {} => rbss", listing.len()));
    assert_eq!(listing.len(), 10);
}
