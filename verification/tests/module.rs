use wasm_decoder::errors::DecodeError;
use wasm_decoder::sections::type_section::TypeSection;
use wasm_decoder::sections::WasmModule;

fn magic() -> Vec<u8> {
    vec![0x00, 0x61, 0x73, 0x6d, 0x01, 0x00, 0x00, 0x00]
}

#[test]
fn empty_module_decodes() {
    let bytes = magic();
    let module = WasmModule::from_bytes(&bytes).unwrap();
    assert_eq!(module.magic_section.version(), 1);
    assert!(module.custom_sections.is_empty());
    assert!(module.type_section.is_none());
    assert!(module.import_section.is_none());
    assert!(module.function_section.is_none());
    assert!(module.table_section.is_none());
    assert!(module.memory_section.is_none());
    assert!(module.global_section.is_none());
    assert!(module.export_section.is_none());
    assert!(module.start_section.is_none());
    assert!(module.element_section.is_none());
    assert!(module.code_section.is_none());
    assert!(module.data_section.is_none());
}

#[test]
fn module_with_sections_decodes() {
    let mut bytes = magic();
    // type section: one type, () -> ()
    bytes.extend_from_slice(&[1, 4, 1, 0x60, 0, 0]);
    // function section: one function of type 0
    bytes.extend_from_slice(&[3, 2, 1, 0]);
    // memory section: limits 0..=17
    bytes.extend_from_slice(&[5, 3, 1, 0, 17]);
    // export section: "func1" -> function 0
    bytes.extend_from_slice(&[7, 9, 1, 5, 102, 117, 110, 99, 49, 0, 0]);
    // code section: one empty body
    bytes.extend_from_slice(&[10, 4, 1, 2, 0, 0x0B]);
    let module = WasmModule::from_bytes(&bytes).unwrap();
    assert_eq!(module.type_section.as_ref().unwrap().func_types.len(), 1);
    assert_eq!(module.function_section.as_ref().unwrap().type_idx, vec![0]);
    assert_eq!(module.memory_section.as_ref().unwrap().limits.max, Some(17));
    assert_eq!(module.export_section.as_ref().unwrap().exports[0].name, "func1");
    assert_eq!(module.code_section.as_ref().unwrap().codes.len(), 1);
}

#[test]
fn custom_sections_may_repeat_anywhere() {
    let mut bytes = magic();
    bytes.extend_from_slice(&[0, 2, 1, 97]);
    bytes.extend_from_slice(&[5, 3, 1, 0, 17]);
    bytes.extend_from_slice(&[0, 2, 1, 98]);
    let module = WasmModule::from_bytes(&bytes).unwrap();
    assert_eq!(module.custom_sections.len(), 2);
    assert_eq!(module.custom_sections[0].name, "a");
    assert_eq!(module.custom_sections[1].name, "b");
    assert!(module.memory_section.is_some());
}

#[test]
fn bad_magic_is_rejected() {
    let bytes = [0x00, 0x61, 0x73, 0x6e, 0x01, 0x00, 0x00, 0x00];
    assert_eq!(
        WasmModule::from_bytes(&bytes).unwrap_err(),
        DecodeError::InvalidMagicNumber
    );
}

#[test]
fn unsupported_version_is_rejected() {
    let bytes = [0x00, 0x61, 0x73, 0x6d, 0x02, 0x00, 0x00, 0x00];
    assert_eq!(
        WasmModule::from_bytes(&bytes).unwrap_err(),
        DecodeError::UnsupportedVersion
    );
}

#[test]
fn short_preamble_is_rejected() {
    let bytes = [0x00, 0x61, 0x73, 0x6d, 0x01];
    assert_eq!(WasmModule::from_bytes(&bytes).unwrap_err(), DecodeError::UnexpectedEof);
}

#[test]
fn unknown_section_id_is_rejected() {
    let mut bytes = magic();
    bytes.extend_from_slice(&[13, 1, 0]);
    assert_eq!(
        WasmModule::from_bytes(&bytes).unwrap_err(),
        DecodeError::InvalidSectionId
    );
}

#[test]
fn out_of_order_sections_are_rejected() {
    // Export (id 7) before function (id 3).
    let mut bytes = magic();
    bytes.extend_from_slice(&[7, 9, 1, 5, 102, 117, 110, 99, 49, 0, 0]);
    bytes.extend_from_slice(&[3, 2, 1, 0]);
    assert_eq!(
        WasmModule::from_bytes(&bytes).unwrap_err(),
        DecodeError::SectionOutOfOrder
    );
}

#[test]
fn repeated_section_is_rejected() {
    let mut bytes = magic();
    bytes.extend_from_slice(&[5, 3, 1, 0, 17]);
    bytes.extend_from_slice(&[5, 3, 1, 0, 17]);
    assert_eq!(
        WasmModule::from_bytes(&bytes).unwrap_err(),
        DecodeError::SectionOutOfOrder
    );
}

#[test]
fn function_without_body_is_rejected() {
    // One declared function, no code section: the cross-section pairing
    // leaves it without a body.
    let mut bytes = magic();
    bytes.extend_from_slice(&[1, 4, 1, 0x60, 0, 0]);
    bytes.extend_from_slice(&[3, 2, 1, 0]);
    assert_eq!(
        WasmModule::from_bytes(&bytes).unwrap_err(),
        DecodeError::IndexOutOfRange
    );
}

#[test]
fn reframing_a_decoded_section_reproduces_its_bytes() {
    // Decode a module, take a decoded section's recorded byte span out of
    // the original buffer, and decode that subslice alone: the result is
    // the same section.
    let mut bytes = magic();
    let type_bytes = [1, 13, 3, 0x60, 1, 125, 0, 0x60, 1, 127, 1, 127, 0x60, 0, 0];
    bytes.extend_from_slice(&type_bytes);
    let module = WasmModule::from_bytes(&bytes).unwrap();
    let sec = module.type_section.as_ref().unwrap();
    let start = 8;
    let span = &bytes[start..start + sec.byte_count()];
    assert_eq!(span, &type_bytes);
    let again = TypeSection::from_bytes(span, 0).unwrap();
    assert_eq!(again.func_types, sec.func_types);
    assert_eq!(again.byte_count(), sec.byte_count());
}

#[test]
fn to_le() {
    let a = 892u32;
    assert_eq!(a.to_le_bytes(), [0x7c, 0x03, 0x00, 0x00]);
    assert_eq!(a.to_be_bytes(), [0x00, 0x00, 0x03, 0x7c]);
}

#[test]
fn data_count_section_is_skipped() {
    let mut bytes = magic();
    bytes.extend_from_slice(&[12, 1, 0]);
    let module = WasmModule::from_bytes(&bytes).unwrap();
    assert!(module.data_section.is_none());
}
