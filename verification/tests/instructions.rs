use wasm_decoder::errors::DecodeError;
use wasm_decoder::instructions::{
    ControlInstructions, Expression, Instructions, MemoryInstructions, NumericInstructions,
    ParametricInstructions, Primitives, VariableInstructions,
};

#[test]
fn expression_ends_at_first_unmatched_end() {
    let bytes = [0x41, 42, 0x1A, 0x0B, 0x0B];
    let (expr, end) = Expression::from_bytes(&bytes, 0).unwrap();
    assert_eq!(end, 4);
    assert_eq!(expr.instructions.len(), 2);
    match &expr.instructions[1] {
        Instructions::ParametricInstructions(ParametricInstructions::Drop) => {}
        other => panic!("unexpected instruction {:?}", other),
    }
}

#[test]
fn nested_blocks_decode_recursively() {
    // block (empty) { nop; loop (empty) { } } end
    let bytes = [0x02, 0x40, 0x01, 0x03, 0x40, 0x0B, 0x0B, 0x0B];
    let (expr, end) = Expression::from_bytes(&bytes, 0).unwrap();
    assert_eq!(end, bytes.len());
    assert_eq!(expr.instructions.len(), 1);
    match &expr.instructions[0] {
        Instructions::ControlInstructions(ControlInstructions::Block(_, body)) => {
            assert_eq!(body.instructions.len(), 2);
        }
        other => panic!("unexpected instruction {:?}", other),
    }
}

#[test]
fn if_with_else_decodes_both_arms() {
    // if (empty) { nop } else { unreachable } end end
    let bytes = [0x04, 0x40, 0x01, 0x05, 0x00, 0x0B, 0x0B];
    let (expr, _) = Expression::from_bytes(&bytes, 0).unwrap();
    match &expr.instructions[0] {
        Instructions::ControlInstructions(ControlInstructions::If(_, thn, els)) => {
            assert_eq!(thn.instructions.len(), 1);
            assert_eq!(els.as_ref().unwrap().instructions.len(), 1);
        }
        other => panic!("unexpected instruction {:?}", other),
    }
}

#[test]
fn variable_and_memory_immediates_decode() {
    // local.get 5; i32.load align=2 offset=16; end
    let bytes = [0x20, 5, 0x28, 2, 16, 0x0B];
    let (expr, _) = Expression::from_bytes(&bytes, 0).unwrap();
    match &expr.instructions[0] {
        Instructions::VariableInstructions(VariableInstructions::LocalGet(x)) => {
            assert_eq!(*x, 5)
        }
        other => panic!("unexpected instruction {:?}", other),
    }
    match &expr.instructions[1] {
        Instructions::MemoryInstructions(MemoryInstructions::I32Load(m)) => {
            assert_eq!(m.align, 2);
            assert_eq!(m.offset, 16);
        }
        other => panic!("unexpected instruction {:?}", other),
    }
}

#[test]
fn float_constants_keep_their_bit_patterns() {
    // f32.const 1.0; f64.const 1.0; end
    let bytes = [
        0x43, 0x00, 0x00, 0x80, 0x3F, 0x44, 0x00, 0x00, 0x00, 0x00, 0x00, 0x00, 0xF0, 0x3F,
        0x0B,
    ];
    let (expr, _) = Expression::from_bytes(&bytes, 0).unwrap();
    match &expr.instructions[0] {
        Instructions::NumericInstructions(op, Some(Primitives::F32(bits))) => {
            assert!(op.is_f32());
            assert_eq!(f32::from_bits(*bits), 1.0f32);
        }
        other => panic!("unexpected instruction {:?}", other),
    }
    match &expr.instructions[1] {
        Instructions::NumericInstructions(op, Some(Primitives::F64(bits))) => {
            assert!(op.is_f64());
            assert_eq!(f64::from_bits(*bits), 1.0f64);
        }
        other => panic!("unexpected instruction {:?}", other),
    }
}

#[test]
fn numeric_predicates_identify_const_opcodes() {
    assert!(NumericInstructions::I32Const.is_i32());
    assert!(!NumericInstructions::I32Const.is_i64());
    assert!(NumericInstructions::I64Const.is_i64());
    assert!(NumericInstructions::F32Const.is_f32());
    assert!(NumericInstructions::F64Const.is_f64());
    assert!(!NumericInstructions::I32Add.is_i32());
}

#[test]
fn i64_const_decodes_signed() {
    let bytes = [0x42, 0x84, 0x79, 0x0B];
    let (expr, _) = Expression::from_bytes(&bytes, 0).unwrap();
    match &expr.instructions[0] {
        Instructions::NumericInstructions(op, Some(Primitives::I64(v))) => {
            assert!(op.is_i64());
            assert_eq!(*v, -892);
        }
        other => panic!("unexpected instruction {:?}", other),
    }
}

#[test]
fn unknown_opcode_is_rejected() {
    assert_eq!(
        Expression::from_bytes(&[0x12, 0x0B], 0).unwrap_err(),
        DecodeError::InvalidOpcode
    );
}

#[test]
fn unterminated_expression_is_rejected() {
    assert_eq!(
        Expression::from_bytes(&[0x01], 0).unwrap_err(),
        DecodeError::UnterminatedExpression
    );
}

#[test]
fn stray_else_is_rejected() {
    assert_eq!(
        Expression::from_bytes(&[0x05, 0x0B], 0).unwrap_err(),
        DecodeError::InvalidOpcode
    );
}

#[test]
fn too_deep_nesting_is_rejected() {
    let mut bytes = Vec::new();
    for _ in 0..1025 {
        bytes.push(0x02);
        bytes.push(0x40);
    }
    for _ in 0..1026 {
        bytes.push(0x0B);
    }
    assert_eq!(
        Expression::from_bytes(&bytes, 0).unwrap_err(),
        DecodeError::NestingTooDeep
    );
}

#[test]
fn constant_expression_allows_only_one_const() {
    let (expr, end) = Expression::const_from_bytes(&[0x41, 7, 0x0B], 0).unwrap();
    assert_eq!(end, 3);
    assert_eq!(expr.instructions.len(), 1);
    assert_eq!(
        Expression::const_from_bytes(&[0x01, 0x0B], 0).unwrap_err(),
        DecodeError::InvalidOpcode
    );
    assert_eq!(
        Expression::const_from_bytes(&[0x41, 7, 0x1A, 0x0B], 0).unwrap_err(),
        DecodeError::InvalidOpcode
    );
}
