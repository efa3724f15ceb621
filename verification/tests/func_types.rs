use wasm_decoder::errors::DecodeError;
use wasm_decoder::sections::types::{FunctionType, GlobalType, Limits, Mutable, NumberType, ValueType};

#[test]
fn function_no_param_no_return_should_work() {
    let func_bytes = [0x60, 0, 0u8];
    let (func, _) = FunctionType::from_bytes(&func_bytes, 0).unwrap();

    assert_eq!(func.param_types.len(), 0);
    assert_eq!(func.return_types.len(), 0);
}

#[test]
fn function_no_param_one_return_should_work() {
    let func_bytes = [0x60, 0, 1, 0x7c];
    let (func, _) = FunctionType::from_bytes(&func_bytes, 0).unwrap();

    assert_eq!(func.param_types.len(), 0);
    assert_eq!(func.return_types.len(), 1);
}

#[test]
fn function_one_param_no_return_should_work() {
    let func_bytes = [0x60, 1, 0x7c, 0];
    let (func, _) = FunctionType::from_bytes(&func_bytes, 0).unwrap();

    assert_eq!(func.param_types.len(), 1);
    assert_eq!(func.return_types.len(), 0);
}

#[test]
fn function_four_params_four_return_should_work() {
    // In latest webassembly spec, the feature multi values is stablized.
    let func_bytes = [0x60, 4, 0x7c, 0x7d, 0x7e, 0x7f, 4, 0x7c, 0x7d, 0x7e, 0x7f];
    let (func, _) = FunctionType::from_bytes(&func_bytes, 0).unwrap();

    assert_eq!(func.param_types.len(), 4);
    assert_eq!(func.return_types.len(), 4);
}

#[test]
fn function_type_needs_its_tag() {
    let func_bytes = [0x61, 0, 0];
    assert_eq!(
        FunctionType::from_bytes(&func_bytes, 0),
        Err(DecodeError::InvalidFunctionTypeTag)
    );
    assert_eq!(FunctionType::id(), 0x60);
}

#[test]
fn unknown_value_type_is_rejected() {
    let func_bytes = [0x60, 1, 0x50, 0];
    assert_eq!(
        FunctionType::from_bytes(&func_bytes, 0),
        Err(DecodeError::InvalidValueType)
    );
}

#[test]
fn reserved_vector_type_is_not_decoded() {
    let func_bytes = [0x60, 1, 0x7b, 0];
    assert_eq!(
        FunctionType::from_bytes(&func_bytes, 0),
        Err(DecodeError::InvalidValueType)
    );
}

#[test]
fn invalid_limits_tag_is_rejected() {
    assert_eq!(
        Limits::from_bytes(&[2, 0], 0),
        Err(DecodeError::InvalidLimitsTag)
    );
}

#[test]
fn limits_without_max() {
    let (limits, end) = Limits::from_bytes(&[0, 9], 0).unwrap();
    assert_eq!(limits.min, 9);
    assert_eq!(limits.max, None);
    assert_eq!(end, 2);
}

#[test]
fn global_type_mutability() {
    let (g, _) = GlobalType::from_bytes(&[0x7e, 1], 0).unwrap();
    assert_eq!(g.val_type, ValueType::NumType(NumberType::I64));
    assert_eq!(g.mutable, Mutable::Yes);
    assert_eq!(
        GlobalType::from_bytes(&[0x7f, 2], 0),
        Err(DecodeError::InvalidMutabilityTag)
    );
}
