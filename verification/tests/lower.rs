use wasmrust::lower::{lower_mir_to_wasmir, lower_operand, lower_rvalue, LoweringContext};
use wasmrust::mir_lowering::{
    MirBasicBlock, MirBinOp, MirConstant, MirFunction, MirLocalDecl, MirOperand, MirPlace, MirProjection,
    MirRvalue, MirSignature, MirSourceInfo, MirSpan, MirStatement, MirTerminator, MirType,
};
use wasmrust::wasmir::{BlockId, Constant, Instruction, LinearOp, Operand, Terminator};

fn source() -> MirSourceInfo {
    MirSourceInfo { span: MirSpan { filename: "lower.rs".to_string(), line: 1, column: 1 } }
}

fn decl(ty: MirType) -> MirLocalDecl {
    MirLocalDecl { ty, source_info: source() }
}

fn local(l: u32) -> Box<MirPlace> {
    Box::new(MirPlace::Local(l))
}

/// Two blocks: the first moves a host reference, copies an integer and
/// switches on it; the second returns.
fn switching_body() -> MirFunction {
    MirFunction {
        name: "switching".to_string(),
        signature: MirSignature { inputs: vec![], output: MirType::Unit },
        basic_blocks: vec![
            MirBasicBlock {
                statements: vec![
                    MirStatement::StorageLive(1),
                    MirStatement::Assign(MirPlace::Local(1), MirRvalue::Use(MirOperand::Move(local(2)))),
                    MirStatement::Assign(MirPlace::Local(0), MirRvalue::Use(MirOperand::Copy(local(3)))),
                    MirStatement::Assign(
                        MirPlace::Local(3),
                        MirRvalue::BinaryOp(MirBinOp::Add, MirOperand::Copy(local(3)), MirOperand::Copy(local(3))),
                    ),
                ],
                terminator: MirTerminator::SwitchInt {
                    discr: MirOperand::Copy(local(3)),
                    targets: vec![(7, 1), (-1, 0)],
                    otherwise: 1,
                },
            },
            MirBasicBlock { statements: vec![MirStatement::Nop], terminator: MirTerminator::Return },
        ],
        local_decls: vec![
            decl(MirType::I32),
            decl(MirType::ExternRef("JsObject".to_string())),
            decl(MirType::ExternRef("JsObject".to_string())),
            decl(MirType::I32),
        ],
        source_info: source(),
    }
}

#[test]
fn lowers_moves_of_linear_values_to_consume() {
    let f = lower_mir_to_wasmir(&switching_body());
    assert_eq!(f.name, "function_name");
    assert!(f.signature.params.is_empty());
    assert!(f.signature.returns.is_none());
    assert_eq!(f.basic_blocks.len(), 2);
    assert_eq!(
        f.basic_blocks[0].instructions,
        vec![
            Instruction::LinearOp { op: LinearOp::Consume, value: Operand::Local(2) },
            Instruction::LocalSet { index: 0, value: Operand::Local(3) },
            Instruction::LocalSet { index: 3, value: Operand::Constant(Constant::I32(0)) },
        ]
    );
    assert_eq!(
        f.basic_blocks[0].terminator,
        Terminator::Switch {
            value: Operand::Local(3),
            targets: vec![
                (Operand::Constant(Constant::I64(7)), BlockId(1)),
                (Operand::Constant(Constant::I64(-1)), BlockId(0)),
            ],
            default_target: BlockId(1),
        }
    );
    assert!(f.basic_blocks[1].instructions.is_empty());
    assert_eq!(f.basic_blocks[1].terminator, Terminator::Return { value: None });
    assert_eq!(f.basic_blocks[1].id, BlockId(1));
}

#[test]
fn lowers_goto_and_other_terminators() {
    let body = MirFunction {
        name: "jumps".to_string(),
        signature: MirSignature { inputs: vec![], output: MirType::Unit },
        basic_blocks: vec![
            MirBasicBlock { statements: vec![], terminator: MirTerminator::Goto { target: 1 } },
            MirBasicBlock {
                statements: vec![],
                terminator: MirTerminator::Call { func: MirOperand::Constant(MirConstant::Unit), args: vec![], destination: None },
            },
        ],
        local_decls: vec![],
        source_info: source(),
    };
    let f = lower_mir_to_wasmir(&body);
    assert_eq!(f.basic_blocks[0].terminator, Terminator::Jump { target: BlockId(1) });
    assert_eq!(f.basic_blocks[1].terminator, Terminator::Unreachable);
}

#[test]
fn a_second_body_gets_new_blocks() {
    let mut context = LoweringContext::new();
    context.lower_body(&switching_body());
    let second = MirFunction {
        name: "second".to_string(),
        signature: MirSignature { inputs: vec![], output: MirType::Unit },
        basic_blocks: vec![MirBasicBlock { statements: vec![], terminator: MirTerminator::Goto { target: 0 } }],
        local_decls: vec![],
        source_info: source(),
    };
    context.lower_body(&second);
    let f = context.finish();
    assert_eq!(f.basic_blocks.len(), 3);
    assert_eq!(f.basic_blocks[2].id, BlockId(2));
    assert_eq!(f.basic_blocks[2].terminator, Terminator::Jump { target: BlockId(2) });
    assert_eq!(f.basic_blocks[1].terminator, Terminator::Return { value: None });
}

#[test]
fn operands_lower_to_root_locals_and_placeholders() {
    let projected = MirOperand::Move(Box::new(MirPlace::Projection(local(5), Box::new(MirProjection::Field(2)))));
    assert_eq!(lower_operand(&projected), Operand::Local(5));
    assert_eq!(lower_operand(&MirOperand::Constant(MirConstant::I64(9))), Operand::Constant(Constant::I32(0)));
    assert_eq!(lower_rvalue(&MirRvalue::Len(MirOperand::Copy(local(1)))), Operand::Constant(Constant::I32(0)));
    assert_eq!(lower_rvalue(&MirRvalue::Use(MirOperand::Copy(local(4)))), Operand::Local(4));
}

/// A body of one block holding one assignment `_2 = rvalue`, then a return;
/// local 1 has the given type.
fn single_assignment(rvalue: MirRvalue, source_type: MirType) -> MirFunction {
    MirFunction {
        name: "assign".to_string(),
        signature: MirSignature { inputs: vec![], output: MirType::Unit },
        basic_blocks: vec![MirBasicBlock {
            statements: vec![MirStatement::Assign(MirPlace::Local(2), rvalue)],
            terminator: MirTerminator::Return,
        }],
        local_decls: vec![decl(MirType::Unit), decl(source_type), decl(MirType::I32)],
        source_info: source(),
    }
}

#[test]
fn test_simple_assignment_lowering() {
    let mir_body = single_assignment(MirRvalue::Use(MirOperand::Copy(local(1))), MirType::I32);
    let wasmir_func = lower_mir_to_wasmir(&mir_body);
    let first_block = &wasmir_func.basic_blocks[0];
    assert_eq!(first_block.instructions.len(), 1);
    if let Instruction::LocalSet { index, value } = &first_block.instructions[0] {
        assert_eq!(*index, 2);
        if let Operand::Local(src_index) = value {
            assert_eq!(*src_index, 1);
        } else {
            panic!("Expected a Local operand");
        }
    } else {
        panic!("Expected a LocalSet instruction");
    }
}

#[test]
fn test_linear_move_lowering() {
    let mir_body = single_assignment(
        MirRvalue::Use(MirOperand::Move(local(1))),
        MirType::ExternRef("LinearResource".to_string()),
    );
    let wasmir_func = lower_mir_to_wasmir(&mir_body);
    let first_block = &wasmir_func.basic_blocks[0];
    assert_eq!(first_block.instructions.len(), 1);
    if let Instruction::LinearOp { op, value } = &first_block.instructions[0] {
        assert_eq!(*op, LinearOp::Consume);
        if let Operand::Local(src_index) = value {
            assert_eq!(*src_index, 1);
        } else {
            panic!("Expected a Local operand");
        }
    } else {
        panic!("Expected a LinearOp instruction");
    }
}
