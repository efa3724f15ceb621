use wasm_decoder::errors::DecodeError;
use wasm_decoder::instructions::{Instructions, Primitives};
use wasm_decoder::sections::code_section::CodeSection;
use wasm_decoder::sections::custom_section::CustomSection;
use wasm_decoder::sections::data_section::DataSection;
use wasm_decoder::sections::element_section::ElementSection;
use wasm_decoder::sections::export_section::{ExportSection, ExportType};
use wasm_decoder::sections::global_section::GlobalSection;
use wasm_decoder::sections::import_section::{ImportDesc, ImportDescription, ImportSection, ImportTag};
use wasm_decoder::sections::magic_section::MagicSection;
use wasm_decoder::sections::memory_section::MemorySection;
use wasm_decoder::sections::start_section::StartSection;
use wasm_decoder::sections::table_section::{ReferenceType, TableSection};
use wasm_decoder::sections::type_section::TypeSection;
use wasm_decoder::sections::types::{Limits, Mutable, NumberType, Tag, ValueType};

#[test]
fn magic_section_should_work() {
    let magic_bytes = vec![0x00, 0x61, 0x73, 0x6d, 0x01, 0x00, 0x00, 0x00];
    let magic_sec = MagicSection::from_bytes(&magic_bytes).unwrap();

    // check magic number
    assert_eq!(magic_sec.magic_number(), "\u{0}asm");

    // check version number
    assert_eq!(magic_sec.version(), 1);

    // check length of magic section
    assert_eq!(magic_sec.length(), 8);
}

#[test]
fn deserialize_type_scetion_should_work() {
    // three functions in the type section
    let type_sec_bytes = [1, 13, 3, 96, 1, 125, 0, 96, 1, 127, 1, 127, 96, 0, 0];
    let type_sec = TypeSection::from_bytes(&type_sec_bytes, 0).unwrap();

    assert_eq!(type_sec.id(), type_sec_bytes[0]);
    assert_eq!(type_sec.byte_count(), type_sec_bytes.len());
    assert_eq!(type_sec.func_types.len(), 3);

    // (f32) -> ()
    assert_eq!(
        type_sec.func_types[0].param_types,
        vec![ValueType::NumType(NumberType::F32)]
    );
    assert_eq!(type_sec.func_types[0].return_types, vec![]);
    // (i32) -> (i32)
    assert_eq!(
        type_sec.func_types[1].param_types,
        vec![ValueType::NumType(NumberType::I32)]
    );
    assert_eq!(
        type_sec.func_types[1].return_types,
        vec![ValueType::NumType(NumberType::I32)]
    );
    // () -> ()
    assert_eq!(type_sec.func_types[2].param_types, vec![]);
    assert_eq!(type_sec.func_types[2].return_types, vec![]);
}

#[test]
fn deserialize_limits_should_work() {
    let limits_bytes_with_max = [1, 13, 13];
    let (limits, _) = Limits::from_bytes(&limits_bytes_with_max, 0).unwrap();
    let tag = Tag::One;
    assert_eq!(limits.tag, tag);
    assert_eq!(limits.min, limits_bytes_with_max[1] as u32);
    assert_eq!(limits.max, Some(limits_bytes_with_max[2] as u32));
}

#[test]
fn deserialize_table_section_should_work() {
    let table_bytes = [4, 5, 1, 112, 1, 13, 13];
    let table_sec = TableSection::from_bytes(&table_bytes, 0).unwrap();

    assert_eq!(table_sec.table_types.len(), 1);
    assert_eq!(table_sec.table_types[0].ref_type, ReferenceType::FuncRef);
    assert_eq!(table_sec.table_types[0].limits.tag, Tag::One);
    assert_eq!(table_sec.table_types[0].limits.min, 13);
    assert_eq!(table_sec.table_types[0].limits.max, Some(13));
}

#[test]
fn deserialize_memory_section_should_work() {
    let memory_bytes = [5, 3, 1, 0, 17];
    let memory_sec = MemorySection::from_bytes(&memory_bytes, 0).unwrap();
    assert_eq!(memory_sec.limits.tag, Tag::One);
    assert_eq!(memory_sec.limits.min, memory_bytes[3] as u32);
    assert_eq!(memory_sec.limits.max, Some(memory_bytes[4] as u32));
}

#[test]
fn deserialize_export_section_should_work() {
    let exports_bytes = [7, 9, 1, 5, 102, 117, 110, 99, 49, 0, 1];
    let export_section = ExportSection::from_bytes(&exports_bytes, 0).unwrap();

    assert_eq!(export_section.exports.len(), 1);
    assert_eq!(export_section.exports[0].name, "func1");
    assert_eq!(export_section.exports[0].desc.export_type, ExportType::Func);
    assert_eq!(export_section.exports[0].desc.index, 1);
}

#[test]
fn deserialoze_import_section_should_work() {
    let import_sec_bytes = [2u8, 11, 1, 3, 102, 111, 111, 3, 98, 97, 114, 0, 0];
    let import_sec = ImportSection::from_bytes(&import_sec_bytes, 0).unwrap();

    assert_eq!(import_sec.imports.len(), 1);
    assert_eq!(import_sec.imports[0].module(), "foo");
    assert_eq!(import_sec.imports[0].name, "bar");
    assert_eq!(import_sec.imports[0].tag, ImportTag::Func);
    assert_eq!(import_sec.imports[0].desc, ImportDesc::Func(0));
}

#[test]
fn deserialize_global_section_should_work() {
    let global_bytes = [
        6, 25, 3, 127, 1, 65, 128, 128, 192, 0, 11, 127, 0, 65, 160, 132, 192, 0, 11, 127, 0,
        65, 160, 132, 192, 0, 11,
    ];

    let global_section = GlobalSection::from_bytes(&global_bytes, 0).unwrap();
    assert_eq!(global_section.globals.len(), 3);
    assert_eq!(
        global_section.globals[0].global_type.val_type,
        ValueType::NumType(NumberType::I32)
    );
    assert_eq!(global_section.globals[0].global_type.mutable, Mutable::Yes);
    assert_eq!(global_section.globals[1].global_type.mutable, Mutable::No);
    match &global_section.globals[0].init_expr.instructions[..] {
        [Instructions::NumericInstructions(op, Some(Primitives::I32(v)))] => {
            assert!(op.is_i32());
            assert_eq!(*v, 1048576);
        }
        other => panic!("unexpected initializer {:?}", other),
    }
}

#[test]
fn deserialize_code_section_should_work() {
    let code_bytes = [10, 10, 2, 2, 0, 11, 5, 0, 65, 42, 26, 11];
    let code_section = CodeSection::from_bytes(&code_bytes, 0).unwrap();
    assert!(code_section.codes.len() == 2);
    assert_eq!(code_section.codes[0].locals.len(), 0);
    assert_eq!(code_section.codes[0].body.instructions.len(), 0);
    assert_eq!(code_section.codes[1].body.instructions.len(), 2);
    match &code_section.codes[1].body.instructions[0] {
        Instructions::NumericInstructions(op, Some(Primitives::I32(v))) => {
            assert!(op.is_i32());
            assert_eq!(*v, 42);
        }
        other => panic!("unexpected instruction {:?}", other),
    }
}

#[test]
fn deserialize_data_section_should_work() {
    let data_bytes = [11, 8, 1, 0, 65, 0, 11, 2, 104, 105];
    let data_section = DataSection::from_bytes(&data_bytes, 0).unwrap();
    assert_eq!(data_section.datas.len(), 1);
    assert_eq!(data_section.datas[0].mem_idx, 0);
    assert_eq!(data_section.datas[0].init, vec![104, 105]);
    assert_eq!(data_section.datas[0].offset_expr.instructions.len(), 1);
}

#[test]
fn deserialize_custom_section_should_work() {
    let custom_bytes = [0, 5, 2, 104, 105, 1, 2];
    let custom = CustomSection::from_bytes(&custom_bytes, 0).unwrap();
    assert_eq!(custom.name, "hi");
    assert_eq!(custom.payload, vec![1, 2]);
    assert_eq!(custom.byte_count(), custom_bytes.len());
    assert_eq!(CustomSection::id(), 0);
}

#[test]
fn deserialize_start_section_should_work() {
    let start_bytes = [8, 1, 3];
    let start = StartSection::from_bytes(&start_bytes, 0).unwrap();
    assert_eq!(start.func_idx, 3);
    assert_eq!(start.data_len, 3);
    assert_eq!(StartSection::id(), 8);
}

#[test]
fn deserialize_element_section_should_work() {
    let element_bytes = [9, 7, 1, 0, 65, 0, 11, 1, 5];
    let element = ElementSection::from_bytes(&element_bytes, 0).unwrap();
    assert_eq!(element.elem.len(), 1);
    assert_eq!(element.elem[0].table_idx, 0);
    assert_eq!(element.elem[0].func_indices, vec![5]);
    assert_eq!(ElementSection::id(), 9);
}

#[test]
fn section_with_wrong_declared_length_is_rejected() {
    // The limits take three bytes but the frame declares four.
    let memory_bytes = [5, 4, 1, 0, 17, 0];
    assert_eq!(
        MemorySection::from_bytes(&memory_bytes, 0),
        Err(DecodeError::SectionLengthMismatch)
    );
}

#[test]
fn truncated_sections_are_rejected() {
    // Each well-formed section, cut by its last byte, must fail rather
    // than silently decode short.
    let type_sec_bytes = [1, 13, 3, 96, 1, 125, 0, 96, 1, 127, 1, 127, 96, 0, 0];
    let cut = &type_sec_bytes[..type_sec_bytes.len() - 1];
    assert_eq!(
        TypeSection::from_bytes(cut, 0),
        Err(DecodeError::UnexpectedEof)
    );

    let memory_bytes = [5, 3, 1, 0, 17];
    assert_eq!(
        MemorySection::from_bytes(&memory_bytes[..4], 0),
        Err(DecodeError::UnexpectedEof)
    );

    let exports_bytes = [7, 9, 1, 5, 102, 117, 110, 99, 49, 0, 1];
    assert_eq!(
        ExportSection::from_bytes(&exports_bytes[..10], 0),
        Err(DecodeError::UnexpectedEof)
    );
}

#[test]
fn invalid_utf8_name_is_rejected() {
    let exports_bytes = [7, 5, 1, 1, 0xFF, 0, 1];
    assert_eq!(
        ExportSection::from_bytes(&exports_bytes, 0),
        Err(DecodeError::InvalidUtf8)
    );
}

#[test]
fn invalid_export_tag_is_rejected() {
    assert_eq!(ExportType::from_byte(4), Err(DecodeError::InvalidExportTag));
    let exports_bytes = [7, 5, 1, 1, 97, 4, 1];
    assert_eq!(
        ExportSection::from_bytes(&exports_bytes, 0),
        Err(DecodeError::InvalidExportTag)
    );
}

#[test]
fn invalid_import_tag_is_rejected() {
    let entry = [0, 0, 4];
    assert_eq!(
        ImportDescription::from_bytes(&entry, 0),
        Err(DecodeError::InvalidImportTag)
    );
}

#[test]
fn table_section_with_two_tables_is_rejected() {
    let table_bytes = [4, 8, 2, 112, 1, 13, 13, 112, 0, 0];
    assert_eq!(
        TableSection::from_bytes(&table_bytes, 0),
        Err(DecodeError::SectionLengthMismatch)
    );
}
