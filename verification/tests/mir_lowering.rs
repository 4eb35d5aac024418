use wasmrust::linear::{LinearLivenessAnalysis, LinearLivenessState, LinearObjectDropScan, LinearTypeError};
use wasmrust::mir_lowering::{
    MirBasicBlock, MirBinOp, MirConstant, MirFunction, MirLocalDecl, MirLoweringContext, MirOperand,
    MirPlace, MirRvalue, MirSignature, MirSourceInfo, MirSpan, MirStatement, MirTerminator, MirType,
    MirUnOp, OwnershipTracker,
};
use wasmrust::wasmir::{
    BinaryOp, BlockId, Capability, Constant, Instruction, Operand, OwnershipState, SourceLocation,
    Terminator, Type, UnaryOp,
};

fn source(line: u32, column: u32) -> MirSourceInfo {
    MirSourceInfo { span: MirSpan { filename: "test.rs".to_string(), line, column } }
}

fn decl(ty: MirType, line: u32, column: u32) -> MirLocalDecl {
    MirLocalDecl { ty, source_info: source(line, column) }
}

fn copy_of(l: u32) -> MirOperand {
    MirOperand::Copy(Box::new(MirPlace::Local(l)))
}

fn move_of(l: u32) -> MirOperand {
    MirOperand::Move(Box::new(MirPlace::Local(l)))
}

fn add_mir() -> MirFunction {
    MirFunction {
        name: "add".to_string(),
        signature: MirSignature { inputs: vec![MirType::I32, MirType::I32], output: MirType::I32 },
        basic_blocks: vec![MirBasicBlock {
            statements: vec![MirStatement::Assign(
                MirPlace::Local(2),
                MirRvalue::BinaryOp(MirBinOp::Add, copy_of(0), copy_of(1)),
            )],
            terminator: MirTerminator::Return,
        }],
        local_decls: vec![
            decl(MirType::I32, 1, 10),
            decl(MirType::I32, 1, 20),
            decl(MirType::I32, 1, 30),
        ],
        source_info: source(1, 1),
    }
}

fn externref_mir() -> MirFunction {
    MirFunction {
        name: "use_externref".to_string(),
        signature: MirSignature {
            inputs: vec![MirType::ExternRef("JsObject".to_string())],
            output: MirType::Unit,
        },
        basic_blocks: vec![MirBasicBlock {
            statements: vec![MirStatement::Assign(MirPlace::Local(1), MirRvalue::Use(move_of(0)))],
            terminator: MirTerminator::Return,
        }],
        local_decls: vec![
            decl(MirType::ExternRef("JsObject".to_string()), 1, 10),
            decl(MirType::ExternRef("JsObject".to_string()), 2, 10),
        ],
        source_info: source(1, 1),
    }
}

#[test]
fn test_mir_lowering_context_creation() {
    let context = MirLoweringContext::new();
    assert!(!context.has_errors());
    assert_eq!(context.get_errors().len(), 0);
    assert_eq!(context.local_mapping_count(), 0);
    assert_eq!(context.block_mapping_count(), 0);
}

#[test]
fn test_simple_function_creation() {
    let mut context = MirLoweringContext::new();
    let func = context.create_simple_function("test_func".to_string());
    assert_eq!(func.name, "test_func");
    assert_eq!(func.signature.params.len(), 2);
    assert_eq!(func.signature.returns, Some(Type::I32));
    assert_eq!(func.basic_blocks.len(), 1);
}

#[test]
fn test_into_wasmir() {
    let context = MirLoweringContext::new();
    let result = context.into_wasmir();
    assert!(result.is_ok());
    let func = result.unwrap();
    assert_eq!(func.name, "default_function");
    assert_eq!(func.basic_blocks.len(), 1);
}

#[test]
fn mir_lowering_test_error_handling() {
    let mut context = MirLoweringContext::new();
    assert!(!context.has_errors());
    context.add_error("Test error".to_string());
    assert!(context.has_errors());
    assert_eq!(context.get_errors().len(), 1);
    assert_eq!(context.get_errors()[0], "Test error");
}

#[test]
fn test_type_conversion() {
    let context = MirLoweringContext::new();
    assert_eq!(context.convert_type(&MirType::I32).unwrap(), Type::I32);
    assert_eq!(context.convert_type(&MirType::I64).unwrap(), Type::I64);
    assert_eq!(context.convert_type(&MirType::F32).unwrap(), Type::F32);
    assert_eq!(context.convert_type(&MirType::F64).unwrap(), Type::F64);
    assert_eq!(context.convert_type(&MirType::Bool).unwrap(), Type::I32);
    assert_eq!(context.convert_type(&MirType::Unit).unwrap(), Type::Void);
    let externref_type = context.convert_type(&MirType::ExternRef("JsObject".to_string())).unwrap();
    assert_eq!(externref_type, Type::ExternRef("JsObject".to_string()));
    assert_eq!(context.convert_type(&MirType::FuncRef).unwrap(), Type::FuncRef);
}

#[test]
fn test_signature_conversion() {
    let context = MirLoweringContext::new();
    let mir_sig = MirSignature { inputs: vec![MirType::I32, MirType::F32], output: MirType::I64 };
    let wasmir_sig = context.convert_signature(&mir_sig).unwrap();
    assert_eq!(wasmir_sig.params.len(), 2);
    assert_eq!(wasmir_sig.params[0], Type::I32);
    assert_eq!(wasmir_sig.params[1], Type::F32);
    assert_eq!(wasmir_sig.returns, Some(Type::I64));
}

#[test]
fn test_constant_conversion() {
    let context = MirLoweringContext::new();
    assert_eq!(context.convert_constant(&MirConstant::I32(42)).unwrap(), Constant::I32(42));
    assert_eq!(context.convert_constant(&MirConstant::I64(123)).unwrap(), Constant::I64(123));
    let pi_bits = 3.14f32.to_bits();
    assert_eq!(context.convert_constant(&MirConstant::F32(pi_bits)).unwrap(), Constant::F32(pi_bits));
    let e_bits = 2.71f64.to_bits();
    assert_eq!(context.convert_constant(&MirConstant::F64(e_bits)).unwrap(), Constant::F64(e_bits));
    assert_eq!(context.convert_constant(&MirConstant::Bool(true)).unwrap(), Constant::Boolean(true));
    assert_eq!(context.convert_constant(&MirConstant::Unit).unwrap(), Constant::I32(0));
}

#[test]
fn test_binary_op_conversion() {
    let context = MirLoweringContext::new();
    assert_eq!(context.convert_binary_op(MirBinOp::Add).unwrap(), BinaryOp::Add);
    assert_eq!(context.convert_binary_op(MirBinOp::Sub).unwrap(), BinaryOp::Sub);
    assert_eq!(context.convert_binary_op(MirBinOp::Mul).unwrap(), BinaryOp::Mul);
    assert_eq!(context.convert_binary_op(MirBinOp::Div).unwrap(), BinaryOp::Div);
    assert_eq!(context.convert_binary_op(MirBinOp::Rem).unwrap(), BinaryOp::Mod);
    assert_eq!(context.convert_binary_op(MirBinOp::BitXor).unwrap(), BinaryOp::Xor);
    assert_eq!(context.convert_binary_op(MirBinOp::BitAnd).unwrap(), BinaryOp::And);
    assert_eq!(context.convert_binary_op(MirBinOp::BitOr).unwrap(), BinaryOp::Or);
    assert_eq!(context.convert_binary_op(MirBinOp::Shl).unwrap(), BinaryOp::Shl);
    assert_eq!(context.convert_binary_op(MirBinOp::Shr).unwrap(), BinaryOp::Shr);
    assert_eq!(context.convert_binary_op(MirBinOp::Eq).unwrap(), BinaryOp::Eq);
    assert_eq!(context.convert_binary_op(MirBinOp::Lt).unwrap(), BinaryOp::Lt);
    assert_eq!(context.convert_binary_op(MirBinOp::Le).unwrap(), BinaryOp::Le);
    assert_eq!(context.convert_binary_op(MirBinOp::Ne).unwrap(), BinaryOp::Ne);
    assert_eq!(context.convert_binary_op(MirBinOp::Ge).unwrap(), BinaryOp::Ge);
    assert_eq!(context.convert_binary_op(MirBinOp::Gt).unwrap(), BinaryOp::Gt);
}

#[test]
fn test_unary_op_conversion() {
    let context = MirLoweringContext::new();
    assert_eq!(context.convert_unary_op(MirUnOp::Not).unwrap(), UnaryOp::Not);
    assert_eq!(context.convert_unary_op(MirUnOp::Neg).unwrap(), UnaryOp::Neg);
}

#[test]
fn test_linear_type_detection() {
    let mut context = MirLoweringContext::new();
    assert!(context.is_linear_type(&MirType::ExternRef("JsObject".to_string())));
    assert!(context.is_linear_type(&MirType::FuncRef));
    assert!(!context.is_linear_type(&MirType::I32));
    assert!(!context.is_linear_type(&MirType::F64));
    assert!(!context.is_linear_type(&MirType::Bool));
    assert!(!context.is_linear_type(&MirType::Unit));
}

#[test]
fn test_ownership_tracker() {
    let mut tracker = OwnershipTracker::new();
    let location = SourceLocation { file: "test.rs".to_string(), line: 10, column: 5 };
    tracker.set_ownership(0, OwnershipState::Owned, location.clone());
    assert_eq!(tracker.get_ownership(0), Some(OwnershipState::Owned));
    tracker.set_ownership(0, OwnershipState::Moved, location.clone());
    assert_eq!(tracker.get_ownership(0), Some(OwnershipState::Moved));
    let annotations = tracker.into_annotations();
    assert_eq!(annotations.len(), 2);
    assert_eq!(annotations[0].variable, 0);
    assert_eq!(annotations[0].state, OwnershipState::Owned);
    assert_eq!(annotations[1].variable, 0);
    assert_eq!(annotations[1].state, OwnershipState::Moved);
}

#[test]
fn test_complete_mir_lowering() {
    let mut context = MirLoweringContext::new();
    let result = context.lower_function(&add_mir());
    assert!(result.is_ok());
    let wasmir_func = result.unwrap();
    assert_eq!(wasmir_func.name, "add");
    assert_eq!(wasmir_func.signature.params.len(), 2);
    assert_eq!(wasmir_func.signature.returns, Some(Type::I32));
    assert_eq!(wasmir_func.basic_blocks.len(), 1);
    assert_eq!(wasmir_func.locals.len(), 3);
    assert!(wasmir_func.validate().is_ok());
}

#[test]
fn test_mir_lowering_with_linear_types() {
    let mut context = MirLoweringContext::new();
    let result = context.lower_function(&externref_mir());
    assert!(result.is_ok());
    let wasmir_func = result.unwrap();
    assert_eq!(wasmir_func.name, "use_externref");
    assert_eq!(wasmir_func.signature.params.len(), 1);
    assert_eq!(wasmir_func.signature.returns, None);
    assert!(!wasmir_func.ownership_annotations.is_empty());
    assert!(wasmir_func.capabilities.contains(&Capability::JsInterop));
    assert!(wasmir_func.validate().is_ok());
}

// The lowered instructions of `a + b`: MIR locals map after the parameters.
#[test]
fn test_add_function_lowering() {
    let mut context = MirLoweringContext::new();
    let w = context.lower_function(&add_mir()).unwrap();
    let block = &w.basic_blocks[0];
    assert_eq!(block.id, BlockId(0));
    assert_eq!(
        block.instructions,
        vec![
            Instruction::BinaryOp { op: BinaryOp::Add, left: Operand::Local(2), right: Operand::Local(3) },
            Instruction::LocalSet { index: 4, value: Operand::StackValue(0) },
        ]
    );
    assert_eq!(block.terminator, Terminator::Return { value: None });
    assert!(w.ownership_annotations.is_empty());
    assert!(w.capabilities.is_empty());
}

// Moving a linear value records the move and the new owner.
#[test]
fn test_linear_type_move_lowering() {
    let mut context = MirLoweringContext::new();
    let w = context.lower_function(&externref_mir()).unwrap();
    assert_eq!(
        w.basic_blocks[0].instructions,
        vec![Instruction::LocalSet { index: 2, value: Operand::Local(1) }]
    );
    let states: Vec<(u32, OwnershipState)> =
        w.ownership_annotations.iter().map(|a| (a.variable, a.state)).collect();
    assert_eq!(
        states,
        vec![
            (1, OwnershipState::Owned),
            (2, OwnershipState::Owned),
            (1, OwnershipState::Moved),
            (1, OwnershipState::Moved),
            (2, OwnershipState::Owned),
        ]
    );
    assert_eq!(w.ownership_annotations[2].source_location.line, 1);
}

// Two mutable slices stay two distinct pointer locals.
#[test]
fn test_aliasing_invariant_lowering() {
    let slice = MirType::Ref(Box::new(MirType::Array(Box::new(MirType::I32), 4)));
    let mir = MirFunction {
        name: "sum_slices".to_string(),
        signature: MirSignature { inputs: vec![], output: MirType::Unit },
        basic_blocks: vec![MirBasicBlock { statements: vec![], terminator: MirTerminator::Return }],
        local_decls: vec![decl(slice, 1, 1), decl(MirType::Ref(Box::new(MirType::I32)), 1, 2)],
        source_info: source(1, 1),
    };
    let mut context = MirLoweringContext::new();
    let w = context.lower_function(&mir).unwrap();
    assert_eq!(
        w.locals[0],
        Type::Pointer(Box::new(Type::Array { element_type: Box::new(Type::I32), size: Some(4) }))
    );
    assert_eq!(w.locals[1], Type::Pointer(Box::new(Type::I32)));
}

// An `ExternRef` parameter lowers to `externref` and needs JavaScript interop.
#[test]
fn test_externref_lowering() {
    let mir = MirFunction {
        name: "get_host_object_id".to_string(),
        signature: MirSignature {
            inputs: vec![MirType::ExternRef("HostObject".to_string())],
            output: MirType::I32,
        },
        basic_blocks: vec![MirBasicBlock {
            statements: vec![MirStatement::Assign(
                MirPlace::Local(1),
                MirRvalue::Cast(copy_of(0), MirType::ExternRef("HostObject".to_string())),
            )],
            terminator: MirTerminator::Return,
        }],
        local_decls: vec![decl(MirType::I32, 1, 1), decl(MirType::I32, 1, 2)],
        source_info: source(1, 1),
    };
    let mut context = MirLoweringContext::new();
    let w = context.lower_function(&mir).unwrap();
    assert_eq!(w.signature.params[0], Type::ExternRef("HostObject".to_string()));
    assert_eq!(
        w.basic_blocks[0].instructions,
        vec![Instruction::ExternRefCast {
            externref: Operand::Local(1),
            target_type: Type::ExternRef("HostObject".to_string()),
        }]
    );
    assert_eq!(w.capabilities, vec![Capability::JsInterop]);
}

#[test]
fn test_unknown_local_is_reported() {
    let mut mir = add_mir();
    mir.basic_blocks[0].statements =
        vec![MirStatement::Assign(MirPlace::Local(7), MirRvalue::Use(copy_of(0)))];
    let mut context = MirLoweringContext::new();
    let r = context.lower_function(&mir);
    assert_eq!(r.unwrap_err(), "Unknown local: 7");
}

#[test]
fn test_invalid_goto_target_is_reported() {
    let mut mir = add_mir();
    mir.basic_blocks[0].terminator = MirTerminator::Goto { target: 5 };
    let mut context = MirLoweringContext::new();
    assert_eq!(context.lower_function(&mir).unwrap_err(), "Invalid block target: 5");
}

#[test]
fn test_switch_lowering() {
    let mut mir = add_mir();
    mir.basic_blocks[0].terminator =
        MirTerminator::SwitchInt { discr: copy_of(0), targets: vec![(1, 0), (2, 9)], otherwise: 0 };
    let mut context = MirLoweringContext::new();
    assert_eq!(context.lower_function(&mir).unwrap_err(), "Invalid switch target: 9");
    let mut mir = add_mir();
    mir.basic_blocks[0].terminator =
        MirTerminator::SwitchInt { discr: copy_of(0), targets: vec![(1, 0)], otherwise: 0 };
    let mut context = MirLoweringContext::new();
    let w = context.lower_function(&mir).unwrap();
    assert_eq!(
        w.basic_blocks[0].terminator,
        Terminator::Switch {
            value: Operand::Local(2),
            targets: vec![(Operand::Constant(Constant::I32(1)), BlockId(0))],
            default_target: BlockId(0),
        }
    );
}

#[test]
fn test_validation_failure_is_reported() {
    let mut mir = add_mir();
    mir.local_decls.truncate(2);
    // Local 2 is unknown now.
    let mut context = MirLoweringContext::new();
    assert_eq!(context.lower_function(&mir).unwrap_err(), "Unknown local: 2");
}

#[test]
fn test_storage_markers_track_ownership() {
    let mut mir = externref_mir();
    mir.basic_blocks[0].statements = vec![MirStatement::StorageLive(0), MirStatement::StorageDead(0)];
    let mut context = MirLoweringContext::new();
    let w = context.lower_function(&mir).unwrap();
    assert!(w.basic_blocks[0].instructions.is_empty());
    let states: Vec<(u32, OwnershipState)> =
        w.ownership_annotations.iter().map(|a| (a.variable, a.state)).collect();
    assert_eq!(
        states,
        vec![
            (1, OwnershipState::Owned),
            (2, OwnershipState::Owned),
            (1, OwnershipState::Owned),
            (1, OwnershipState::Consumed),
        ]
    );
}

#[test]
fn test_drop_scan_consumed_local_is_clean() {
    let mir = MirFunction {
        name: "f".to_string(),
        signature: MirSignature { inputs: vec![], output: MirType::Unit },
        basic_blocks: vec![MirBasicBlock {
            statements: vec![
                MirStatement::StorageLive(0),
                MirStatement::Assign(MirPlace::Local(1), MirRvalue::Use(move_of(0))),
                MirStatement::StorageDead(0),
            ],
            terminator: MirTerminator::Return,
        }],
        local_decls: vec![decl(MirType::FuncRef, 1, 1), decl(MirType::I32, 1, 2)],
        source_info: source(1, 1),
    };
    let mut scan = LinearObjectDropScan::new();
    assert!(scan.analyze(&mir).is_empty());
}

#[test]
fn test_drop_scan_reports_violations() {
    let mir = MirFunction {
        name: "f".to_string(),
        signature: MirSignature { inputs: vec![], output: MirType::Unit },
        basic_blocks: vec![MirBasicBlock {
            statements: vec![
                MirStatement::StorageLive(0),
                MirStatement::StorageDead(0),
                MirStatement::Assign(MirPlace::Local(1), MirRvalue::Use(move_of(0))),
                MirStatement::Assign(MirPlace::Local(1), MirRvalue::Use(copy_of(0))),
            ],
            terminator: MirTerminator::Return,
        }],
        local_decls: vec![decl(MirType::FuncRef, 1, 1), decl(MirType::I32, 1, 2)],
        source_info: source(1, 1),
    };
    let mut scan = LinearObjectDropScan::new();
    assert_eq!(
        scan.analyze(&mir),
        vec![LinearTypeError::ImplicitDrop { var: 0 }, LinearTypeError::UseAfterConsume { var: 0 }]
    );
    let mir2 = MirFunction {
        name: "g".to_string(),
        signature: MirSignature { inputs: vec![], output: MirType::Unit },
        basic_blocks: vec![MirBasicBlock {
            statements: vec![MirStatement::StorageLive(0)],
            terminator: MirTerminator::Return,
        }],
        local_decls: vec![decl(MirType::ExternRef("A".to_string()), 1, 1)],
        source_info: source(1, 1),
    };
    let mut scan = LinearObjectDropScan::new();
    assert_eq!(scan.analyze(&mir2), vec![LinearTypeError::UnconsumedReturn { var: 0 }]);
}

#[test]
fn test_liveness_effect() {
    let analysis = LinearLivenessAnalysis { local_count: 2 };
    let mut state = analysis.bottom_value();
    assert_eq!(state, vec![LinearLivenessState::Uninitialized; 2]);
    analysis.apply_statement_effect(
        &mut state,
        &MirStatement::Assign(MirPlace::Local(1), MirRvalue::Use(move_of(0))),
    );
    assert_eq!(state, vec![LinearLivenessState::Consumed, LinearLivenessState::Active]);
}
