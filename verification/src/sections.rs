//! The sections of a module, and the module decoder that assembles them.
//!
//! Every non-custom section is framed as one id byte, a LEB128 content
//! length, and exactly that many content bytes; a decoder that consumes any
//! other number of bytes is a framing error.

pub mod code_section;
pub mod custom_section;
pub mod data_section;
pub mod element_section;
pub mod export_section;
pub mod function_section;
pub mod global_section;
pub mod import_section;
pub mod magic_section;
pub mod memory_section;
pub mod start_section;
pub mod table_section;
pub mod type_section;
pub mod types;

use vstd::prelude::*;

use crate::errors::DecodeError;
use crate::utils::{calc_len_and_offset, spec_unsigned_leb128};
use crate::sections::code_section::{spec_code_section, CodeSection, CodeSectionV};
use crate::sections::custom_section::{spec_custom_section, CustomSection, CustomSectionV};
use crate::sections::data_section::{spec_data_section, DataSection, DataSectionV};
use crate::sections::element_section::{spec_element_section, ElementSection, ElementSectionV};
use crate::sections::export_section::{spec_export_section, ExportSection, ExportSectionV};
use crate::sections::function_section::{spec_function_section, FunctionSection, FunctionSectionV};
use crate::sections::global_section::{spec_global_section, GlobalSection, GlobalSectionV};
use crate::sections::import_section::{spec_import_section, ImportSection, ImportSectionV};
use crate::sections::magic_section::{spec_magic_section, MagicSection};
use crate::sections::memory_section::{spec_memory_section, MemorySection};
use crate::sections::start_section::{spec_start_section, StartSection};
use crate::sections::table_section::{spec_table_section, TableSection, TableSectionV};
use crate::sections::type_section::{spec_type_section, TypeSection, TypeSectionV};

verus! {

/// The frame of the section starting at `off`: its id byte must be `id`,
/// then its LEB128 content length, which must fit in the buffer.  Returns
/// the offset of the first content byte and the offset just past the
/// content.
pub open spec fn spec_section_frame(s: Seq<u8>, off: nat, id: u8) -> Result<(nat, nat), DecodeError> {
    if off >= s.len() {
        Err(DecodeError::UnexpectedEof)
    } else if s[off as int] != id {
        Err(DecodeError::InvalidSectionId)
    } else {
        match spec_unsigned_leb128(s, off + 1) {
            Err(e) => Err(e),
            Ok((len, body)) => if body + len > s.len() {
                Err(DecodeError::UnexpectedEof)
            } else {
                Ok((body, (body + len) as nat))
            },
        }
    }
}

/// Read the frame of the section starting at `offset`, checking its id byte.
pub fn section_frame(bytes: &[u8], offset: usize, id: u8) -> (r: Result<(usize, usize), DecodeError>)
    ensures
        ({
            let sr = spec_section_frame(bytes@, offset as nat, id);
            match r {
                Ok((body, end)) => sr == Ok::<(nat, nat), DecodeError>((body as nat, end as nat))
                    && offset < body <= end <= bytes@.len(),
                Err(e) => sr == Err::<(nat, nat), DecodeError>(e),
            }
        }),
{
    if offset >= bytes.len() {
        return Err(DecodeError::UnexpectedEof);
    }
    if bytes[offset] != id {
        return Err(DecodeError::InvalidSectionId);
    }
    match calc_len_and_offset(bytes, offset + 1) {
        Err(e) => Err(e),
        Ok((len, body)) => {
            if len > (bytes.len() - body) as u64 {
                Err(DecodeError::UnexpectedEof)
            } else {
                Ok((body, body + len as usize))
            }
        },
    }
}

// ---------------------------------------------------------------------------
// The module decoder
// ---------------------------------------------------------------------------

/// A decoded module: the preamble, the custom sections in file order, and
/// at most one section of each other kind.  Non-custom sections must appear
/// with strictly increasing ids; custom sections may sit anywhere.
#[derive(Debug)]
pub struct WasmModule {
    pub magic_section: MagicSection,
    pub custom_sections: Vec<CustomSection>,
    pub type_section: Option<TypeSection>,
    pub import_section: Option<ImportSection>,
    pub function_section: Option<FunctionSection>,
    pub table_section: Option<TableSection>,
    pub memory_section: Option<MemorySection>,
    pub global_section: Option<GlobalSection>,
    pub export_section: Option<ExportSection>,
    pub start_section: Option<StartSection>,
    pub element_section: Option<ElementSection>,
    pub code_section: Option<CodeSection>,
    pub data_section: Option<DataSection>,
}

/// Mathematical shape of a `WasmModule`.
pub struct WasmModuleV {
    pub magic_section: MagicSection,
    pub custom_sections: Seq<CustomSectionV>,
    pub type_section: Option<TypeSectionV>,
    pub import_section: Option<ImportSectionV>,
    pub function_section: Option<FunctionSectionV>,
    pub table_section: Option<TableSectionV>,
    pub memory_section: Option<MemorySection>,
    pub global_section: Option<GlobalSectionV>,
    pub export_section: Option<ExportSectionV>,
    pub start_section: Option<StartSection>,
    pub element_section: Option<ElementSectionV>,
    pub code_section: Option<CodeSectionV>,
    pub data_section: Option<DataSectionV>,
}

/// Pointwise view of a sequence of custom sections.
pub open spec fn customs_view(v: Seq<CustomSection>) -> Seq<CustomSectionV> {
    Seq::new(v.len(), |i: int| v[i]@)
}

impl View for WasmModule {
    type V = WasmModuleV;

    open spec fn view(&self) -> WasmModuleV {
        WasmModuleV {
            magic_section: self.magic_section,
            custom_sections: customs_view(self.custom_sections@),
            type_section: match self.type_section {
                Some(x) => Some(x@),
                None => None,
            },
            import_section: match self.import_section {
                Some(x) => Some(x@),
                None => None,
            },
            function_section: match self.function_section {
                Some(x) => Some(x@),
                None => None,
            },
            table_section: match self.table_section {
                Some(x) => Some(x@),
                None => None,
            },
            memory_section: self.memory_section,
            global_section: match self.global_section {
                Some(x) => Some(x@),
                None => None,
            },
            export_section: match self.export_section {
                Some(x) => Some(x@),
                None => None,
            },
            start_section: self.start_section,
            element_section: match self.element_section {
                Some(x) => Some(x@),
                None => None,
            },
            code_section: match self.code_section {
                Some(x) => Some(x@),
                None => None,
            },
            data_section: match self.data_section {
                Some(x) => Some(x@),
                None => None,
            },
        }
    }
}

/// A module with the given preamble and no sections yet.
pub open spec fn spec_empty_module(magic: MagicSection) -> WasmModuleV {
    WasmModuleV {
        magic_section: magic,
        custom_sections: Seq::empty(),
        type_section: None,
        import_section: None,
        function_section: None,
        table_section: None,
        memory_section: None,
        global_section: None,
        export_section: None,
        start_section: None,
        element_section: None,
        code_section: None,
        data_section: None,
    }
}

/// The number of functions the function section declares.
pub open spec fn spec_fn_count(m: WasmModuleV) -> nat {
    match m.function_section {
        Some(f) => f.type_idx.len(),
        None => 0,
    }
}

/// The number of bodies the code section holds.
pub open spec fn spec_code_count(m: WasmModuleV) -> nat {
    match m.code_section {
        Some(c) => c.codes.len(),
        None => 0,
    }
}

/// The run of sections from `off` to the end of the buffer, accumulated
/// onto `m`.  `last_id` is the id of the last non-custom section seen;
/// every further non-custom id must be strictly greater.  Id 12, the
/// data-count section, is framed and skipped: its payload is outside the
/// decoded scope.
#[verifier::opaque]
pub open spec fn spec_sections(s: Seq<u8>, off: nat, last_id: u8, m: WasmModuleV) -> Result<WasmModuleV, DecodeError>
    decreases s.len() - off,
{
    if off >= s.len() {
        Ok(m)
    } else {
        let id = s[off as int];
        if id > 12 {
            Err(DecodeError::InvalidSectionId)
        } else if id != 0 && id <= last_id {
            Err(DecodeError::SectionOutOfOrder)
        } else {
            match spec_section_frame(s, off, id) {
                Err(e) => Err(e),
                Ok((body, end)) => if end <= off || end > s.len() {
                    // Unreachable: a framed section always advances the
                    // cursor and stays inside the buffer.
                    Err(DecodeError::UnexpectedEof)
                } else {
                    let next = if id == 0 { last_id } else { id };
                    if id == 0 {
                        match spec_custom_section(s, off) {
                            Err(e) => Err(e),
                            Ok((v, _end)) => spec_sections(
                                s,
                                end,
                                next,
                                WasmModuleV { custom_sections: m.custom_sections.push(v), ..m },
                            ),
                        }
                    } else if id == 1 {
                        match spec_type_section(s, off) {
                            Err(e) => Err(e),
                            Ok((v, _end)) => spec_sections(
                                s,
                                end,
                                next,
                                WasmModuleV { type_section: Some(v), ..m },
                            ),
                        }
                    } else if id == 2 {
                        match spec_import_section(s, off) {
                            Err(e) => Err(e),
                            Ok((v, _end)) => spec_sections(
                                s,
                                end,
                                next,
                                WasmModuleV { import_section: Some(v), ..m },
                            ),
                        }
                    } else if id == 3 {
                        match spec_function_section(s, off) {
                            Err(e) => Err(e),
                            Ok((v, _end)) => spec_sections(
                                s,
                                end,
                                next,
                                WasmModuleV { function_section: Some(v), ..m },
                            ),
                        }
                    } else if id == 4 {
                        match spec_table_section(s, off) {
                            Err(e) => Err(e),
                            Ok((v, _end)) => spec_sections(
                                s,
                                end,
                                next,
                                WasmModuleV { table_section: Some(v), ..m },
                            ),
                        }
                    } else if id == 5 {
                        match spec_memory_section(s, off) {
                            Err(e) => Err(e),
                            Ok((v, _end)) => spec_sections(
                                s,
                                end,
                                next,
                                WasmModuleV { memory_section: Some(v), ..m },
                            ),
                        }
                    } else if id == 6 {
                        match spec_global_section(s, off) {
                            Err(e) => Err(e),
                            Ok((v, _end)) => spec_sections(
                                s,
                                end,
                                next,
                                WasmModuleV { global_section: Some(v), ..m },
                            ),
                        }
                    } else if id == 7 {
                        match spec_export_section(s, off) {
                            Err(e) => Err(e),
                            Ok((v, _end)) => spec_sections(
                                s,
                                end,
                                next,
                                WasmModuleV { export_section: Some(v), ..m },
                            ),
                        }
                    } else if id == 8 {
                        match spec_start_section(s, off) {
                            Err(e) => Err(e),
                            Ok((v, _end)) => spec_sections(
                                s,
                                end,
                                next,
                                WasmModuleV { start_section: Some(v), ..m },
                            ),
                        }
                    } else if id == 9 {
                        match spec_element_section(s, off) {
                            Err(e) => Err(e),
                            Ok((v, _end)) => spec_sections(
                                s,
                                end,
                                next,
                                WasmModuleV { element_section: Some(v), ..m },
                            ),
                        }
                    } else if id == 10 {
                        match spec_code_section(s, off) {
                            Err(e) => Err(e),
                            Ok((v, _end)) => spec_sections(
                                s,
                                end,
                                next,
                                WasmModuleV { code_section: Some(v), ..m },
                            ),
                        }
                    } else if id == 11 {
                        match spec_data_section(s, off) {
                            Err(e) => Err(e),
                            Ok((v, _end)) => spec_sections(
                                s,
                                end,
                                next,
                                WasmModuleV { data_section: Some(v), ..m },
                            ),
                        }
                    } else {
                        spec_sections(s, end, next, m)
                    }
                },
            }
        }
    }
}

/// Past the end of the buffer the run of sections is complete.
proof fn lemma_spec_sections_done(s: Seq<u8>, off: nat, last_id: u8, m: WasmModuleV)
    requires
        off >= s.len(),
    ensures
        spec_sections(s, off, last_id, m) == Ok::<WasmModuleV, DecodeError>(m),
{
    reveal(spec_sections);
}

/// A whole module: the preamble, then the run of sections to the end of the
/// buffer, then the cross-section pairing of bodies to functions.
pub open spec fn spec_module(s: Seq<u8>) -> Result<WasmModuleV, DecodeError> {
    match spec_magic_section(s) {
        Err(e) => Err(e),
        Ok(magic) => match spec_sections(s, 8, 0, spec_empty_module(magic)) {
            Err(e) => Err(e),
            Ok(m) => if spec_fn_count(m) != spec_code_count(m) {
                Err(DecodeError::IndexOutOfRange)
            } else {
                Ok(m)
            },
        },
    }
}

impl WasmModule {
    /// Decode the single section starting at `cur` and fold it into the
    /// module, returning the new cursor and the new last non-custom id.
    #[verifier::rlimit(100)]
    #[verifier::spinoff_prover]
    fn decode_one_section(bytes: &[u8], cur: usize, last_id: u8, module: WasmModule) -> (r: Result<
        (WasmModule, usize, u8),
        DecodeError,
    >)
        requires
            cur < bytes@.len(),
        ensures
            ({
                let step = spec_sections(bytes@, cur as nat, last_id, module@);
                match r {
                    Ok((m2, end, last2)) => cur < end <= bytes@.len() && step == spec_sections(
                        bytes@,
                        end as nat,
                        last2,
                        m2@,
                    ),
                    Err(e) => step == Err::<WasmModuleV, DecodeError>(e),
                }
            }),
    {
        proof {
            reveal(spec_sections);
        }
        let mut module = module;
        let id = bytes[cur];
        if id > 12 {
            return Err(DecodeError::InvalidSectionId);
        }
        if id != 0 && id <= last_id {
            return Err(DecodeError::SectionOutOfOrder);
        }
        let (_body, end) = match section_frame(bytes, cur, id) {
            Err(e) => {
                return Err(e);
            },
            Ok(p) => p,
        };
        if id == 0 {
            match CustomSection::from_bytes(bytes, cur) {
                Err(e) => Err(e),
                Ok(sec) => {
                    let ghost m_before = module@;
                    proof {
                        assert(customs_view(module.custom_sections@.push(sec)) =~= customs_view(
                            module.custom_sections@,
                        ).push(sec@));
                    }
                    module.custom_sections.push(sec);
                    proof {
                        assert(module@ =~= WasmModuleV {
                            custom_sections: m_before.custom_sections.push(sec@),
                            ..m_before
                        });
                    }
                    Ok((module, end, last_id))
                },
            }
        } else if id == 1 {
            match TypeSection::from_bytes(bytes, cur) {
                Err(e) => Err(e),
                Ok(sec) => {
                    let ghost m_before = module@;
                    module.type_section = Some(sec);
                    proof {
                        assert(module@ =~= WasmModuleV { type_section: Some(sec@), ..m_before });
                    }
                    Ok((module, end, id))
                },
            }
        } else if id == 2 {
            match ImportSection::from_bytes(bytes, cur) {
                Err(e) => Err(e),
                Ok(sec) => {
                    let ghost m_before = module@;
                    module.import_section = Some(sec);
                    proof {
                        assert(module@ =~= WasmModuleV { import_section: Some(sec@), ..m_before });
                    }
                    Ok((module, end, id))
                },
            }
        } else if id == 3 {
            match FunctionSection::from_bytes(bytes, cur) {
                Err(e) => Err(e),
                Ok(sec) => {
                    let ghost m_before = module@;
                    module.function_section = Some(sec);
                    proof {
                        assert(module@ =~= WasmModuleV { function_section: Some(sec@), ..m_before });
                    }
                    Ok((module, end, id))
                },
            }
        } else if id == 4 {
            match TableSection::from_bytes(bytes, cur) {
                Err(e) => Err(e),
                Ok(sec) => {
                    let ghost m_before = module@;
                    module.table_section = Some(sec);
                    proof {
                        assert(module@ =~= WasmModuleV { table_section: Some(sec@), ..m_before });
                    }
                    Ok((module, end, id))
                },
            }
        } else if id == 5 {
            match MemorySection::from_bytes(bytes, cur) {
                Err(e) => Err(e),
                Ok(sec) => {
                    let ghost m_before = module@;
                    module.memory_section = Some(sec);
                    proof {
                        assert(module@ =~= WasmModuleV { memory_section: Some(sec), ..m_before });
                    }
                    Ok((module, end, id))
                },
            }
        } else if id == 6 {
            match GlobalSection::from_bytes(bytes, cur) {
                Err(e) => Err(e),
                Ok(sec) => {
                    let ghost m_before = module@;
                    module.global_section = Some(sec);
                    proof {
                        assert(module@ =~= WasmModuleV { global_section: Some(sec@), ..m_before });
                    }
                    Ok((module, end, id))
                },
            }
        } else if id == 7 {
            match ExportSection::from_bytes(bytes, cur) {
                Err(e) => Err(e),
                Ok(sec) => {
                    let ghost m_before = module@;
                    module.export_section = Some(sec);
                    proof {
                        assert(module@ =~= WasmModuleV { export_section: Some(sec@), ..m_before });
                    }
                    Ok((module, end, id))
                },
            }
        } else if id == 8 {
            match StartSection::from_bytes(bytes, cur) {
                Err(e) => Err(e),
                Ok(sec) => {
                    let ghost m_before = module@;
                    module.start_section = Some(sec);
                    proof {
                        assert(module@ =~= WasmModuleV { start_section: Some(sec), ..m_before });
                    }
                    Ok((module, end, id))
                },
            }
        } else if id == 9 {
            match ElementSection::from_bytes(bytes, cur) {
                Err(e) => Err(e),
                Ok(sec) => {
                    let ghost m_before = module@;
                    module.element_section = Some(sec);
                    proof {
                        assert(module@ =~= WasmModuleV { element_section: Some(sec@), ..m_before });
                    }
                    Ok((module, end, id))
                },
            }
        } else if id == 10 {
            match CodeSection::from_bytes(bytes, cur) {
                Err(e) => Err(e),
                Ok(sec) => {
                    let ghost m_before = module@;
                    module.code_section = Some(sec);
                    proof {
                        assert(module@ =~= WasmModuleV { code_section: Some(sec@), ..m_before });
                    }
                    Ok((module, end, id))
                },
            }
        } else if id == 11 {
            match DataSection::from_bytes(bytes, cur) {
                Err(e) => Err(e),
                Ok(sec) => {
                    let ghost m_before = module@;
                    module.data_section = Some(sec);
                    proof {
                        assert(module@ =~= WasmModuleV { data_section: Some(sec@), ..m_before });
                    }
                    Ok((module, end, id))
                },
            }
        } else {
            // Id 12: the data-count section is framed and skipped.
            Ok((module, end, id))
        }
    }

    /// Decode a whole module from one contiguous buffer: check the
    /// preamble, then decode each section in file order, requiring strictly
    /// ascending non-custom ids, and finally require the code section to
    /// hold exactly one body per declared function.
    pub fn from_bytes(bytes: &[u8]) -> (r: Result<WasmModule, DecodeError>)
        ensures
            ({
                let sr = spec_module(bytes@);
                match r {
                    Ok(m) => sr == Ok::<WasmModuleV, DecodeError>(m@),
                    Err(e) => sr == Err::<WasmModuleV, DecodeError>(e),
                }
            }),
    {
        let magic = match MagicSection::from_bytes(bytes) {
            Err(e) => {
                return Err(e);
            },
            Ok(m) => m,
        };
        let mut module = WasmModule {
            magic_section: magic,
            custom_sections: Vec::new(),
            type_section: None,
            import_section: None,
            function_section: None,
            table_section: None,
            memory_section: None,
            global_section: None,
            export_section: None,
            start_section: None,
            element_section: None,
            code_section: None,
            data_section: None,
        };
        proof {
            assert(customs_view(Seq::empty()) =~= Seq::<CustomSectionV>::empty());
            assert(module@ =~= spec_empty_module(magic));
        }
        let mut cur: usize = 8;
        let mut last_id: u8 = 0;
        while cur < bytes.len()
            invariant
                8 <= cur <= bytes@.len(),
                spec_magic_section(bytes@) == Ok::<MagicSection, DecodeError>(magic),
                spec_sections(bytes@, cur as nat, last_id, module@) == spec_sections(
                    bytes@,
                    8,
                    0,
                    spec_empty_module(magic),
                ),
            decreases bytes@.len() - cur,
        {
            match Self::decode_one_section(bytes, cur, last_id, module) {
                Err(e) => {
                    return Err(e);
                },
                Ok((m2, end, last2)) => {
                    module = m2;
                    cur = end;
                    last_id = last2;
                },
            }
        }
        proof {
            lemma_spec_sections_done(bytes@, cur as nat, last_id, module@);
        }
        let fn_count = match &module.function_section {
            Some(f) => f.type_idx.len(),
            None => 0,
        };
        let code_count = match &module.code_section {
            Some(c) => c.codes.len(),
            None => 0,
        };
        if fn_count != code_count {
            return Err(DecodeError::IndexOutOfRange);
        }
        Ok(module)
    }
}

// ---------------------------------------------------------------------------
// Laws of the section framing
// ---------------------------------------------------------------------------

/// Re-framing: a decoded section's byte span is fully determined by its
/// length field, and reading the frame again from that span — the original
/// subslice, byte for byte — yields the same content bounds.
pub proof fn lemma_section_reframe(s: Seq<u8>, off: nat, id: u8)
    requires
        spec_section_frame(s, off, id) matches Ok(p),
    ensures
        spec_section_frame(s, off, id) matches Ok(p) ==> spec_section_frame(
            s.subrange(off as int, p.1 as int),
            0,
            id,
        ) == Ok::<(nat, nat), DecodeError>(((p.0 - off) as nat, (p.1 - off) as nat)),
{
    if let Ok(p) = spec_section_frame(s, off, id) {
        let t = s.subrange(off as int, p.1 as int);
        crate::utils::lemma_uleb128_rec_range(s, off + 1, 10);
        if let Ok(u) = crate::utils::spec_uleb128_rec(s, off + 1, 10) {
            let w = u.1 - (off + 1);
            assert(t.subrange(1, (1 + w) as int) =~= s.subrange(off as int + 1, u.1 as int)) by {
                assert forall|i: int| 0 <= i < w implies #[trigger] (t.subrange(
                    1,
                    (1 + w) as int,
                )[i]) == s.subrange(off as int + 1, u.1 as int)[i] by {
                    assert(t[i + 1] == s[off + i + 1]);
                }
            }
            crate::utils::lemma_uleb128_rec_translate(s, t, off + 1, 1, 10);
            assert(t[0] == s[off as int]);
        }
    }
}

/// Truncating a well-formed section by its last byte breaks the frame: the
/// declared content length no longer fits the buffer, or the length field
/// itself is cut, and the decode reports an unexpected end of input rather
/// than silently succeeding short.
pub proof fn lemma_truncated_frame(s: Seq<u8>, id: u8)
    requires
        spec_section_frame(s, 0, id) matches Ok(p) && p.1 == s.len(),
    ensures
        spec_section_frame(s.take(s.len() - 1), 0, id) == Err::<(nat, nat), DecodeError>(
            DecodeError::UnexpectedEof,
        ),
{
    let t = s.take(s.len() - 1);
    if let Ok(p) = spec_section_frame(s, 0, id) {
        crate::utils::lemma_uleb128_rec_range(s, 1, 10);
        if let Ok(u) = crate::utils::spec_uleb128_rec(s, 1, 10) {
            assert(t[0] == s[0]);
            if u.1 < s.len() {
                let w = u.1 - 1;
                assert(t.subrange(1, (1 + w) as int) =~= s.subrange(1, u.1 as int)) by {
                    assert forall|i: int| 0 <= i < w implies #[trigger] (t.subrange(
                        1,
                        (1 + w) as int,
                    )[i]) == s.subrange(1, u.1 as int)[i] by {
                        assert(t[i + 1] == s[i + 1]);
                    }
                }
                crate::utils::lemma_uleb128_rec_translate(s, t, 1, 1, 10);
            } else {
                crate::utils::lemma_uleb128_rec_cut(s, 1, 10);
            }
        }
    }
}

/// A non-custom section whose id is not strictly greater than the previous
/// non-custom id fails with the ordering error, whatever its content.
pub proof fn lemma_out_of_order_section(s: Seq<u8>, off: nat, last_id: u8, m: WasmModuleV)
    requires
        off < s.len(),
        1 <= s[off as int] <= 12,
        s[off as int] <= last_id,
    ensures
        spec_sections(s, off, last_id, m) == Err::<WasmModuleV, DecodeError>(
            DecodeError::SectionOutOfOrder,
        ),
{
    reveal(spec_sections);
}

/// The custom section records as `data_len` exactly the byte span its frame
/// declares, and re-framing that span reproduces the same bounds.
pub proof fn lemma_custom_section_reframe(s: Seq<u8>, off: nat)
    requires
        spec_custom_section(s, off) matches Ok(p),
    ensures
        spec_custom_section(s, off) matches Ok(p) ==> (spec_section_frame(s, off, 0) matches Ok(q)
            && q.1 == p.1 && p.0.data_len == p.1 - off && spec_section_frame(
            s.subrange(off as int, p.1 as int),
            0,
            0,
        ) == Ok::<(nat, nat), DecodeError>(((q.0 - off) as nat, (p.1 - off) as nat))),
{
    lemma_section_reframe(s, off, 0);
    crate::utils::lemma_uleb128_rec_range(s, off + 1, 10);
}

/// Truncating a well-formed custom section's content by one byte makes its
/// decode fail rather than silently succeed short.
pub proof fn lemma_truncated_custom_section_fails(s: Seq<u8>)
    requires
        spec_custom_section(s, 0) matches Ok(p) && p.1 == s.len(),
    ensures
        spec_custom_section(s.take(s.len() - 1), 0) == Err::<(CustomSectionV, nat), DecodeError>(
            DecodeError::UnexpectedEof,
        ),
{
    lemma_truncated_frame(s, 0);
}

/// The type section records as `data_len` exactly the byte span its frame
/// declares, and re-framing that span reproduces the same bounds.
pub proof fn lemma_type_section_reframe(s: Seq<u8>, off: nat)
    requires
        spec_type_section(s, off) matches Ok(p),
    ensures
        spec_type_section(s, off) matches Ok(p) ==> (spec_section_frame(s, off, 1) matches Ok(q)
            && q.1 == p.1 && p.0.data_len == p.1 - off && spec_section_frame(
            s.subrange(off as int, p.1 as int),
            0,
            1,
        ) == Ok::<(nat, nat), DecodeError>(((q.0 - off) as nat, (p.1 - off) as nat))),
{
    lemma_section_reframe(s, off, 1);
    crate::utils::lemma_uleb128_rec_range(s, off + 1, 10);
}

/// Truncating a well-formed type section's content by one byte makes its
/// decode fail rather than silently succeed short.
pub proof fn lemma_truncated_type_section_fails(s: Seq<u8>)
    requires
        spec_type_section(s, 0) matches Ok(p) && p.1 == s.len(),
    ensures
        spec_type_section(s.take(s.len() - 1), 0) == Err::<(TypeSectionV, nat), DecodeError>(
            DecodeError::UnexpectedEof,
        ),
{
    lemma_truncated_frame(s, 1);
}

/// The import section records as `data_len` exactly the byte span its frame
/// declares, and re-framing that span reproduces the same bounds.
pub proof fn lemma_import_section_reframe(s: Seq<u8>, off: nat)
    requires
        spec_import_section(s, off) matches Ok(p),
    ensures
        spec_import_section(s, off) matches Ok(p) ==> (spec_section_frame(s, off, 2) matches Ok(q)
            && q.1 == p.1 && p.0.data_len == p.1 - off && spec_section_frame(
            s.subrange(off as int, p.1 as int),
            0,
            2,
        ) == Ok::<(nat, nat), DecodeError>(((q.0 - off) as nat, (p.1 - off) as nat))),
{
    lemma_section_reframe(s, off, 2);
    crate::utils::lemma_uleb128_rec_range(s, off + 1, 10);
}

/// Truncating a well-formed import section's content by one byte makes its
/// decode fail rather than silently succeed short.
pub proof fn lemma_truncated_import_section_fails(s: Seq<u8>)
    requires
        spec_import_section(s, 0) matches Ok(p) && p.1 == s.len(),
    ensures
        spec_import_section(s.take(s.len() - 1), 0) == Err::<(ImportSectionV, nat), DecodeError>(
            DecodeError::UnexpectedEof,
        ),
{
    lemma_truncated_frame(s, 2);
}

/// The function section records as `data_len` exactly the byte span its frame
/// declares, and re-framing that span reproduces the same bounds.
pub proof fn lemma_function_section_reframe(s: Seq<u8>, off: nat)
    requires
        spec_function_section(s, off) matches Ok(p),
    ensures
        spec_function_section(s, off) matches Ok(p) ==> (spec_section_frame(s, off, 3) matches Ok(q)
            && q.1 == p.1 && p.0.data_len == p.1 - off && spec_section_frame(
            s.subrange(off as int, p.1 as int),
            0,
            3,
        ) == Ok::<(nat, nat), DecodeError>(((q.0 - off) as nat, (p.1 - off) as nat))),
{
    lemma_section_reframe(s, off, 3);
    crate::utils::lemma_uleb128_rec_range(s, off + 1, 10);
}

/// Truncating a well-formed function section's content by one byte makes its
/// decode fail rather than silently succeed short.
pub proof fn lemma_truncated_function_section_fails(s: Seq<u8>)
    requires
        spec_function_section(s, 0) matches Ok(p) && p.1 == s.len(),
    ensures
        spec_function_section(s.take(s.len() - 1), 0) == Err::<(FunctionSectionV, nat), DecodeError>(
            DecodeError::UnexpectedEof,
        ),
{
    lemma_truncated_frame(s, 3);
}

/// The table section records as `data_len` exactly the byte span its frame
/// declares, and re-framing that span reproduces the same bounds.
pub proof fn lemma_table_section_reframe(s: Seq<u8>, off: nat)
    requires
        spec_table_section(s, off) matches Ok(p),
    ensures
        spec_table_section(s, off) matches Ok(p) ==> (spec_section_frame(s, off, 4) matches Ok(q)
            && q.1 == p.1 && p.0.data_len == p.1 - off && spec_section_frame(
            s.subrange(off as int, p.1 as int),
            0,
            4,
        ) == Ok::<(nat, nat), DecodeError>(((q.0 - off) as nat, (p.1 - off) as nat))),
{
    lemma_section_reframe(s, off, 4);
    crate::utils::lemma_uleb128_rec_range(s, off + 1, 10);
}

/// Truncating a well-formed table section's content by one byte makes its
/// decode fail rather than silently succeed short.
pub proof fn lemma_truncated_table_section_fails(s: Seq<u8>)
    requires
        spec_table_section(s, 0) matches Ok(p) && p.1 == s.len(),
    ensures
        spec_table_section(s.take(s.len() - 1), 0) == Err::<(TableSectionV, nat), DecodeError>(
            DecodeError::UnexpectedEof,
        ),
{
    lemma_truncated_frame(s, 4);
}

/// The memory section records as `data_len` exactly the byte span its frame
/// declares, and re-framing that span reproduces the same bounds.  The span
/// is held in a machine word, so the buffer must fit one.
pub proof fn lemma_memory_section_reframe(s: Seq<u8>, off: nat)
    requires
        s.len() <= usize::MAX,
        spec_memory_section(s, off) matches Ok(p),
    ensures
        spec_memory_section(s, off) matches Ok(p) ==> (spec_section_frame(s, off, 5) matches Ok(q)
            && q.1 == p.1 && p.0.data_len == p.1 - off && spec_section_frame(
            s.subrange(off as int, p.1 as int),
            0,
            5,
        ) == Ok::<(nat, nat), DecodeError>(((q.0 - off) as nat, (p.1 - off) as nat))),
{
    lemma_section_reframe(s, off, 5);
    crate::utils::lemma_uleb128_rec_range(s, off + 1, 10);
}

/// Truncating a well-formed memory section's content by one byte makes its
/// decode fail rather than silently succeed short.
pub proof fn lemma_truncated_memory_section_fails(s: Seq<u8>)
    requires
        spec_memory_section(s, 0) matches Ok(p) && p.1 == s.len(),
    ensures
        spec_memory_section(s.take(s.len() - 1), 0) == Err::<(MemorySection, nat), DecodeError>(
            DecodeError::UnexpectedEof,
        ),
{
    lemma_truncated_frame(s, 5);
}

/// The global section records as `data_len` exactly the byte span its frame
/// declares, and re-framing that span reproduces the same bounds.
pub proof fn lemma_global_section_reframe(s: Seq<u8>, off: nat)
    requires
        spec_global_section(s, off) matches Ok(p),
    ensures
        spec_global_section(s, off) matches Ok(p) ==> (spec_section_frame(s, off, 6) matches Ok(q)
            && q.1 == p.1 && p.0.data_len == p.1 - off && spec_section_frame(
            s.subrange(off as int, p.1 as int),
            0,
            6,
        ) == Ok::<(nat, nat), DecodeError>(((q.0 - off) as nat, (p.1 - off) as nat))),
{
    lemma_section_reframe(s, off, 6);
    crate::utils::lemma_uleb128_rec_range(s, off + 1, 10);
}

/// Truncating a well-formed global section's content by one byte makes its
/// decode fail rather than silently succeed short.
pub proof fn lemma_truncated_global_section_fails(s: Seq<u8>)
    requires
        spec_global_section(s, 0) matches Ok(p) && p.1 == s.len(),
    ensures
        spec_global_section(s.take(s.len() - 1), 0) == Err::<(GlobalSectionV, nat), DecodeError>(
            DecodeError::UnexpectedEof,
        ),
{
    lemma_truncated_frame(s, 6);
}

/// The export section records as `data_len` exactly the byte span its frame
/// declares, and re-framing that span reproduces the same bounds.
pub proof fn lemma_export_section_reframe(s: Seq<u8>, off: nat)
    requires
        spec_export_section(s, off) matches Ok(p),
    ensures
        spec_export_section(s, off) matches Ok(p) ==> (spec_section_frame(s, off, 7) matches Ok(q)
            && q.1 == p.1 && p.0.data_len == p.1 - off && spec_section_frame(
            s.subrange(off as int, p.1 as int),
            0,
            7,
        ) == Ok::<(nat, nat), DecodeError>(((q.0 - off) as nat, (p.1 - off) as nat))),
{
    lemma_section_reframe(s, off, 7);
    crate::utils::lemma_uleb128_rec_range(s, off + 1, 10);
}

/// Truncating a well-formed export section's content by one byte makes its
/// decode fail rather than silently succeed short.
pub proof fn lemma_truncated_export_section_fails(s: Seq<u8>)
    requires
        spec_export_section(s, 0) matches Ok(p) && p.1 == s.len(),
    ensures
        spec_export_section(s.take(s.len() - 1), 0) == Err::<(ExportSectionV, nat), DecodeError>(
            DecodeError::UnexpectedEof,
        ),
{
    lemma_truncated_frame(s, 7);
}

/// The start section records as `data_len` exactly the byte span its frame
/// declares, and re-framing that span reproduces the same bounds.  The span
/// is held in a machine word, so the buffer must fit one.
pub proof fn lemma_start_section_reframe(s: Seq<u8>, off: nat)
    requires
        s.len() <= usize::MAX,
        spec_start_section(s, off) matches Ok(p),
    ensures
        spec_start_section(s, off) matches Ok(p) ==> (spec_section_frame(s, off, 8) matches Ok(q)
            && q.1 == p.1 && p.0.data_len == p.1 - off && spec_section_frame(
            s.subrange(off as int, p.1 as int),
            0,
            8,
        ) == Ok::<(nat, nat), DecodeError>(((q.0 - off) as nat, (p.1 - off) as nat))),
{
    lemma_section_reframe(s, off, 8);
    crate::utils::lemma_uleb128_rec_range(s, off + 1, 10);
}

/// Truncating a well-formed start section's content by one byte makes its
/// decode fail rather than silently succeed short.
pub proof fn lemma_truncated_start_section_fails(s: Seq<u8>)
    requires
        spec_start_section(s, 0) matches Ok(p) && p.1 == s.len(),
    ensures
        spec_start_section(s.take(s.len() - 1), 0) == Err::<(StartSection, nat), DecodeError>(
            DecodeError::UnexpectedEof,
        ),
{
    lemma_truncated_frame(s, 8);
}

/// The element section records as `data_len` exactly the byte span its frame
/// declares, and re-framing that span reproduces the same bounds.
pub proof fn lemma_element_section_reframe(s: Seq<u8>, off: nat)
    requires
        spec_element_section(s, off) matches Ok(p),
    ensures
        spec_element_section(s, off) matches Ok(p) ==> (spec_section_frame(s, off, 9) matches Ok(q)
            && q.1 == p.1 && p.0.data_len == p.1 - off && spec_section_frame(
            s.subrange(off as int, p.1 as int),
            0,
            9,
        ) == Ok::<(nat, nat), DecodeError>(((q.0 - off) as nat, (p.1 - off) as nat))),
{
    lemma_section_reframe(s, off, 9);
    crate::utils::lemma_uleb128_rec_range(s, off + 1, 10);
}

/// Truncating a well-formed element section's content by one byte makes its
/// decode fail rather than silently succeed short.
pub proof fn lemma_truncated_element_section_fails(s: Seq<u8>)
    requires
        spec_element_section(s, 0) matches Ok(p) && p.1 == s.len(),
    ensures
        spec_element_section(s.take(s.len() - 1), 0) == Err::<(ElementSectionV, nat), DecodeError>(
            DecodeError::UnexpectedEof,
        ),
{
    lemma_truncated_frame(s, 9);
}

/// The code section records as `data_len` exactly the byte span its frame
/// declares, and re-framing that span reproduces the same bounds.
pub proof fn lemma_code_section_reframe(s: Seq<u8>, off: nat)
    requires
        spec_code_section(s, off) matches Ok(p),
    ensures
        spec_code_section(s, off) matches Ok(p) ==> (spec_section_frame(s, off, 10) matches Ok(q)
            && q.1 == p.1 && p.0.data_len == p.1 - off && spec_section_frame(
            s.subrange(off as int, p.1 as int),
            0,
            10,
        ) == Ok::<(nat, nat), DecodeError>(((q.0 - off) as nat, (p.1 - off) as nat))),
{
    lemma_section_reframe(s, off, 10);
    crate::utils::lemma_uleb128_rec_range(s, off + 1, 10);
}

/// Truncating a well-formed code section's content by one byte makes its
/// decode fail rather than silently succeed short.
pub proof fn lemma_truncated_code_section_fails(s: Seq<u8>)
    requires
        spec_code_section(s, 0) matches Ok(p) && p.1 == s.len(),
    ensures
        spec_code_section(s.take(s.len() - 1), 0) == Err::<(CodeSectionV, nat), DecodeError>(
            DecodeError::UnexpectedEof,
        ),
{
    lemma_truncated_frame(s, 10);
}

/// The data section records as `data_len` exactly the byte span its frame
/// declares, and re-framing that span reproduces the same bounds.
pub proof fn lemma_data_section_reframe(s: Seq<u8>, off: nat)
    requires
        spec_data_section(s, off) matches Ok(p),
    ensures
        spec_data_section(s, off) matches Ok(p) ==> (spec_section_frame(s, off, 11) matches Ok(q)
            && q.1 == p.1 && p.0.data_len == p.1 - off && spec_section_frame(
            s.subrange(off as int, p.1 as int),
            0,
            11,
        ) == Ok::<(nat, nat), DecodeError>(((q.0 - off) as nat, (p.1 - off) as nat))),
{
    lemma_section_reframe(s, off, 11);
    crate::utils::lemma_uleb128_rec_range(s, off + 1, 10);
}

/// Truncating a well-formed data section's content by one byte makes its
/// decode fail rather than silently succeed short.
pub proof fn lemma_truncated_data_section_fails(s: Seq<u8>)
    requires
        spec_data_section(s, 0) matches Ok(p) && p.1 == s.len(),
    ensures
        spec_data_section(s.take(s.len() - 1), 0) == Err::<(DataSectionV, nat), DecodeError>(
            DecodeError::UnexpectedEof,
        ),
{
    lemma_truncated_frame(s, 11);
}

/// Somewhere in `s` a custom section decodes to exactly `v`, spanning the
/// `v.data_len` bytes from its own offset.
pub open spec fn spec_custom_section_in(s: Seq<u8>, v: CustomSectionV) -> bool {
    exists|off: nat|
        spec_custom_section(s, off) == Ok::<(CustomSectionV, nat), DecodeError>(
            (v, (off + v.data_len) as nat),
        )
}

/// Somewhere in `s` a type section decodes to exactly `v`, spanning the
/// `v.data_len` bytes from its own offset.
pub open spec fn spec_type_section_in(s: Seq<u8>, v: TypeSectionV) -> bool {
    exists|off: nat|
        spec_type_section(s, off) == Ok::<(TypeSectionV, nat), DecodeError>(
            (v, (off + v.data_len) as nat),
        )
}

/// Somewhere in `s` a import section decodes to exactly `v`, spanning the
/// `v.data_len` bytes from its own offset.
pub open spec fn spec_import_section_in(s: Seq<u8>, v: ImportSectionV) -> bool {
    exists|off: nat|
        spec_import_section(s, off) == Ok::<(ImportSectionV, nat), DecodeError>(
            (v, (off + v.data_len) as nat),
        )
}

/// Somewhere in `s` a function section decodes to exactly `v`, spanning the
/// `v.data_len` bytes from its own offset.
pub open spec fn spec_function_section_in(s: Seq<u8>, v: FunctionSectionV) -> bool {
    exists|off: nat|
        spec_function_section(s, off) == Ok::<(FunctionSectionV, nat), DecodeError>(
            (v, (off + v.data_len) as nat),
        )
}

/// Somewhere in `s` a table section decodes to exactly `v`, spanning the
/// `v.data_len` bytes from its own offset.
pub open spec fn spec_table_section_in(s: Seq<u8>, v: TableSectionV) -> bool {
    exists|off: nat|
        spec_table_section(s, off) == Ok::<(TableSectionV, nat), DecodeError>(
            (v, (off + v.data_len) as nat),
        )
}

/// Somewhere in `s` a memory section decodes to exactly `v`, spanning the
/// `v.data_len` bytes from its own offset.
pub open spec fn spec_memory_section_in(s: Seq<u8>, v: MemorySection) -> bool {
    exists|off: nat|
        spec_memory_section(s, off) == Ok::<(MemorySection, nat), DecodeError>(
            (v, (off + v.data_len) as nat),
        )
}

/// Somewhere in `s` a global section decodes to exactly `v`, spanning the
/// `v.data_len` bytes from its own offset.
pub open spec fn spec_global_section_in(s: Seq<u8>, v: GlobalSectionV) -> bool {
    exists|off: nat|
        spec_global_section(s, off) == Ok::<(GlobalSectionV, nat), DecodeError>(
            (v, (off + v.data_len) as nat),
        )
}

/// Somewhere in `s` a export section decodes to exactly `v`, spanning the
/// `v.data_len` bytes from its own offset.
pub open spec fn spec_export_section_in(s: Seq<u8>, v: ExportSectionV) -> bool {
    exists|off: nat|
        spec_export_section(s, off) == Ok::<(ExportSectionV, nat), DecodeError>(
            (v, (off + v.data_len) as nat),
        )
}

/// Somewhere in `s` a start section decodes to exactly `v`, spanning the
/// `v.data_len` bytes from its own offset.
pub open spec fn spec_start_section_in(s: Seq<u8>, v: StartSection) -> bool {
    exists|off: nat|
        spec_start_section(s, off) == Ok::<(StartSection, nat), DecodeError>(
            (v, (off + v.data_len) as nat),
        )
}

/// Somewhere in `s` a element section decodes to exactly `v`, spanning the
/// `v.data_len` bytes from its own offset.
pub open spec fn spec_element_section_in(s: Seq<u8>, v: ElementSectionV) -> bool {
    exists|off: nat|
        spec_element_section(s, off) == Ok::<(ElementSectionV, nat), DecodeError>(
            (v, (off + v.data_len) as nat),
        )
}

/// Somewhere in `s` a code section decodes to exactly `v`, spanning the
/// `v.data_len` bytes from its own offset.
pub open spec fn spec_code_section_in(s: Seq<u8>, v: CodeSectionV) -> bool {
    exists|off: nat|
        spec_code_section(s, off) == Ok::<(CodeSectionV, nat), DecodeError>(
            (v, (off + v.data_len) as nat),
        )
}

/// Somewhere in `s` a data section decodes to exactly `v`, spanning the
/// `v.data_len` bytes from its own offset.
pub open spec fn spec_data_section_in(s: Seq<u8>, v: DataSectionV) -> bool {
    exists|off: nat|
        spec_data_section(s, off) == Ok::<(DataSectionV, nat), DecodeError>(
            (v, (off + v.data_len) as nat),
        )
}

/// Each section that a decoded run holds beyond what it started with was
/// decoded from some position in the buffer, spanning exactly its recorded
/// `data_len` bytes there.
#[verifier::rlimit(100)]
#[verifier::spinoff_prover]
proof fn lemma_spec_sections_spans(s: Seq<u8>, off: nat, last_id: u8, acc: WasmModuleV)
    requires
        s.len() <= usize::MAX,
        spec_sections(s, off, last_id, acc) matches Ok(m),
    ensures
        spec_sections(s, off, last_id, acc) matches Ok(m) ==> {
            &&& m.custom_sections.len() >= acc.custom_sections.len()
            &&& forall|i: int|
                0 <= i < acc.custom_sections.len() ==> m.custom_sections[i]
                    == acc.custom_sections[i]
            &&& forall|i: int|
                acc.custom_sections.len() <= i < m.custom_sections.len()
                    ==> spec_custom_section_in(s, #[trigger] m.custom_sections[i])
            &&& (m.type_section matches Some(v) ==> acc.type_section == Some(v)
                || spec_type_section_in(s, v))
            &&& (m.import_section matches Some(v) ==> acc.import_section == Some(v)
                || spec_import_section_in(s, v))
            &&& (m.function_section matches Some(v) ==> acc.function_section == Some(v)
                || spec_function_section_in(s, v))
            &&& (m.table_section matches Some(v) ==> acc.table_section == Some(v)
                || spec_table_section_in(s, v))
            &&& (m.memory_section matches Some(v) ==> acc.memory_section == Some(v)
                || spec_memory_section_in(s, v))
            &&& (m.global_section matches Some(v) ==> acc.global_section == Some(v)
                || spec_global_section_in(s, v))
            &&& (m.export_section matches Some(v) ==> acc.export_section == Some(v)
                || spec_export_section_in(s, v))
            &&& (m.start_section matches Some(v) ==> acc.start_section == Some(v)
                || spec_start_section_in(s, v))
            &&& (m.element_section matches Some(v) ==> acc.element_section == Some(v)
                || spec_element_section_in(s, v))
            &&& (m.code_section matches Some(v) ==> acc.code_section == Some(v)
                || spec_code_section_in(s, v))
            &&& (m.data_section matches Some(v) ==> acc.data_section == Some(v)
                || spec_data_section_in(s, v))
        },
    decreases s.len() - off,
{
    reveal(spec_sections);
    if off < s.len() {
        let id = s[off as int];
        if id <= 12 && (id == 0 || id > last_id) {
            match spec_section_frame(s, off, id) {
                Err(_) => {},
                Ok((body, end)) => {
                    if off < end <= s.len() {
                        let next = if id == 0 { last_id } else { id };
                        if id == 0 {
                            match spec_custom_section(s, off) {
                                Err(_) => {},
                                Ok((v, e2)) => {
                                    lemma_custom_section_reframe(s, off);
                                    assert(spec_custom_section(s, off) == Ok::<
                                        (CustomSectionV, nat),
                                        DecodeError,
                                    >((v, (off + v.data_len) as nat)));
                                    assert(spec_custom_section_in(s, v));
                                    let acc2 = WasmModuleV {
                                        custom_sections: acc.custom_sections.push(v),
                                        ..acc
                                    };
                                    lemma_spec_sections_spans(s, end, next, acc2);
                                    if let Ok(m) = spec_sections(s, off, last_id, acc) {
                                        assert forall|i: int|
                                            acc.custom_sections.len() <= i
                                                < m.custom_sections.len() implies spec_custom_section_in(
                                            s,
                                            #[trigger] m.custom_sections[i],
                                        ) by {
                                            if i < acc2.custom_sections.len() {
                                                assert(m.custom_sections[i]
                                                    == acc2.custom_sections[i]);
                                                assert(acc2.custom_sections[i] == v);
                                            }
                                        }
                                    }
                                },
                            }
                        } else if id == 1 {
                            match spec_type_section(s, off) {
                                Err(_) => {},
                                Ok((v, e2)) => {
                                    lemma_type_section_reframe(s, off);
                                    assert(spec_type_section(s, off) == Ok::<
                                        (TypeSectionV, nat),
                                        DecodeError,
                                    >((v, (off + v.data_len) as nat)));
                                    assert(spec_type_section_in(s, v));
                                    lemma_spec_sections_spans(
                                        s,
                                        end,
                                        next,
                                        WasmModuleV { type_section: Some(v), ..acc },
                                    );
                                },
                            }
                        } else if id == 2 {
                            match spec_import_section(s, off) {
                                Err(_) => {},
                                Ok((v, e2)) => {
                                    lemma_import_section_reframe(s, off);
                                    assert(spec_import_section(s, off) == Ok::<
                                        (ImportSectionV, nat),
                                        DecodeError,
                                    >((v, (off + v.data_len) as nat)));
                                    assert(spec_import_section_in(s, v));
                                    lemma_spec_sections_spans(
                                        s,
                                        end,
                                        next,
                                        WasmModuleV { import_section: Some(v), ..acc },
                                    );
                                },
                            }
                        } else if id == 3 {
                            match spec_function_section(s, off) {
                                Err(_) => {},
                                Ok((v, e2)) => {
                                    lemma_function_section_reframe(s, off);
                                    assert(spec_function_section(s, off) == Ok::<
                                        (FunctionSectionV, nat),
                                        DecodeError,
                                    >((v, (off + v.data_len) as nat)));
                                    assert(spec_function_section_in(s, v));
                                    lemma_spec_sections_spans(
                                        s,
                                        end,
                                        next,
                                        WasmModuleV { function_section: Some(v), ..acc },
                                    );
                                },
                            }
                        } else if id == 4 {
                            match spec_table_section(s, off) {
                                Err(_) => {},
                                Ok((v, e2)) => {
                                    lemma_table_section_reframe(s, off);
                                    assert(spec_table_section(s, off) == Ok::<
                                        (TableSectionV, nat),
                                        DecodeError,
                                    >((v, (off + v.data_len) as nat)));
                                    assert(spec_table_section_in(s, v));
                                    lemma_spec_sections_spans(
                                        s,
                                        end,
                                        next,
                                        WasmModuleV { table_section: Some(v), ..acc },
                                    );
                                },
                            }
                        } else if id == 5 {
                            match spec_memory_section(s, off) {
                                Err(_) => {},
                                Ok((v, e2)) => {
                                    lemma_memory_section_reframe(s, off);
                                    assert(spec_memory_section(s, off) == Ok::<
                                        (MemorySection, nat),
                                        DecodeError,
                                    >((v, (off + v.data_len) as nat)));
                                    assert(spec_memory_section_in(s, v));
                                    lemma_spec_sections_spans(
                                        s,
                                        end,
                                        next,
                                        WasmModuleV { memory_section: Some(v), ..acc },
                                    );
                                },
                            }
                        } else if id == 6 {
                            match spec_global_section(s, off) {
                                Err(_) => {},
                                Ok((v, e2)) => {
                                    lemma_global_section_reframe(s, off);
                                    assert(spec_global_section(s, off) == Ok::<
                                        (GlobalSectionV, nat),
                                        DecodeError,
                                    >((v, (off + v.data_len) as nat)));
                                    assert(spec_global_section_in(s, v));
                                    lemma_spec_sections_spans(
                                        s,
                                        end,
                                        next,
                                        WasmModuleV { global_section: Some(v), ..acc },
                                    );
                                },
                            }
                        } else if id == 7 {
                            match spec_export_section(s, off) {
                                Err(_) => {},
                                Ok((v, e2)) => {
                                    lemma_export_section_reframe(s, off);
                                    assert(spec_export_section(s, off) == Ok::<
                                        (ExportSectionV, nat),
                                        DecodeError,
                                    >((v, (off + v.data_len) as nat)));
                                    assert(spec_export_section_in(s, v));
                                    lemma_spec_sections_spans(
                                        s,
                                        end,
                                        next,
                                        WasmModuleV { export_section: Some(v), ..acc },
                                    );
                                },
                            }
                        } else if id == 8 {
                            match spec_start_section(s, off) {
                                Err(_) => {},
                                Ok((v, e2)) => {
                                    lemma_start_section_reframe(s, off);
                                    assert(spec_start_section(s, off) == Ok::<
                                        (StartSection, nat),
                                        DecodeError,
                                    >((v, (off + v.data_len) as nat)));
                                    assert(spec_start_section_in(s, v));
                                    lemma_spec_sections_spans(
                                        s,
                                        end,
                                        next,
                                        WasmModuleV { start_section: Some(v), ..acc },
                                    );
                                },
                            }
                        } else if id == 9 {
                            match spec_element_section(s, off) {
                                Err(_) => {},
                                Ok((v, e2)) => {
                                    lemma_element_section_reframe(s, off);
                                    assert(spec_element_section(s, off) == Ok::<
                                        (ElementSectionV, nat),
                                        DecodeError,
                                    >((v, (off + v.data_len) as nat)));
                                    assert(spec_element_section_in(s, v));
                                    lemma_spec_sections_spans(
                                        s,
                                        end,
                                        next,
                                        WasmModuleV { element_section: Some(v), ..acc },
                                    );
                                },
                            }
                        } else if id == 10 {
                            match spec_code_section(s, off) {
                                Err(_) => {},
                                Ok((v, e2)) => {
                                    lemma_code_section_reframe(s, off);
                                    assert(spec_code_section(s, off) == Ok::<
                                        (CodeSectionV, nat),
                                        DecodeError,
                                    >((v, (off + v.data_len) as nat)));
                                    assert(spec_code_section_in(s, v));
                                    lemma_spec_sections_spans(
                                        s,
                                        end,
                                        next,
                                        WasmModuleV { code_section: Some(v), ..acc },
                                    );
                                },
                            }
                        } else if id == 11 {
                            match spec_data_section(s, off) {
                                Err(_) => {},
                                Ok((v, e2)) => {
                                    lemma_data_section_reframe(s, off);
                                    assert(spec_data_section(s, off) == Ok::<
                                        (DataSectionV, nat),
                                        DecodeError,
                                    >((v, (off + v.data_len) as nat)));
                                    assert(spec_data_section_in(s, v));
                                    lemma_spec_sections_spans(
                                        s,
                                        end,
                                        next,
                                        WasmModuleV { data_section: Some(v), ..acc },
                                    );
                                },
                            }
                        } else {
                            lemma_spec_sections_spans(s, end, next, acc);
                        }
                    }
                },
            }
        }
    }
}

/// Re-framing at module scope: every section a valid module holds was
/// decoded from its place in the original buffer, and its recorded
/// `data_len` is exactly the byte span its frame declared there.
pub proof fn lemma_module_sections_spans(s: Seq<u8>)
    requires
        s.len() <= usize::MAX,
        spec_module(s) matches Ok(m),
    ensures
        spec_module(s) matches Ok(m) ==> {
            &&& forall|i: int|
                0 <= i < m.custom_sections.len() ==> spec_custom_section_in(
                    s,
                    #[trigger] m.custom_sections[i],
                )
            &&& (m.type_section matches Some(v) ==> spec_type_section_in(s, v))
            &&& (m.import_section matches Some(v) ==> spec_import_section_in(s, v))
            &&& (m.function_section matches Some(v) ==> spec_function_section_in(s, v))
            &&& (m.table_section matches Some(v) ==> spec_table_section_in(s, v))
            &&& (m.memory_section matches Some(v) ==> spec_memory_section_in(s, v))
            &&& (m.global_section matches Some(v) ==> spec_global_section_in(s, v))
            &&& (m.export_section matches Some(v) ==> spec_export_section_in(s, v))
            &&& (m.start_section matches Some(v) ==> spec_start_section_in(s, v))
            &&& (m.element_section matches Some(v) ==> spec_element_section_in(s, v))
            &&& (m.code_section matches Some(v) ==> spec_code_section_in(s, v))
            &&& (m.data_section matches Some(v) ==> spec_data_section_in(s, v))
        },
{
    if let Ok(magic) = spec_magic_section(s) {
        lemma_spec_sections_spans(s, 8, 0, spec_empty_module(magic));
    }
}

} // verus!
