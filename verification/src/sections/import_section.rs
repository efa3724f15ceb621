use vstd::prelude::*;

use crate::errors::DecodeError;
use crate::sections::spec_section_frame;
use crate::sections::section_frame;
use crate::sections::types::{
    spec_global_type, spec_limits, spec_table_type, GlobalType, Limits, TableType,
};
use crate::utils::{decode_name, spec_name, spec_uleb128_u32, uleb128_decode_u32};

verus! {

/// The kind of an imported item, tag bytes 0..=3.
#[derive(Debug, Clone, Copy, PartialEq, Eq)]
pub enum ImportTag {
    Func,
    Table,
    Mem,
    Global,
}

/// An imported function's type index.
pub type TypeIndex = u32;

/// The tag-dependent description of an import.  Only function imports are
/// semantically decoded; table, memory and global imports are parsed far
/// enough to skip them correctly, and their contents are not kept.
#[derive(Debug, Clone, Copy, PartialEq, Eq)]
pub enum ImportDesc {
    Func(TypeIndex),
    Table,
    Mem,
    Global,
}

/// One import entry: the providing module's name, the item's name, and what
/// is imported.
#[derive(Debug, Clone, PartialEq, Eq)]
pub struct ImportDescription {
    pub module: String,
    pub name: String,
    pub tag: ImportTag,
    pub desc: ImportDesc,
}

/// Mathematical shape of an `ImportDescription`.
pub struct ImportDescriptionV {
    pub module: Seq<char>,
    pub name: Seq<char>,
    pub tag: ImportTag,
    pub desc: ImportDesc,
}

impl View for ImportDescription {
    type V = ImportDescriptionV;

    open spec fn view(&self) -> ImportDescriptionV {
        ImportDescriptionV {
            module: self.module@,
            name: self.name@,
            tag: self.tag,
            desc: self.desc,
        }
    }
}

/// The import section, id 2: the module's imports, in order.
#[derive(Debug, Clone, PartialEq, Eq)]
pub struct ImportSection {
    /// Total framed length of the section: id byte, length field, content.
    pub data_len: usize,
    pub imports: Vec<ImportDescription>,
}

/// Mathematical shape of an `ImportSection`.
pub struct ImportSectionV {
    pub data_len: nat,
    pub imports: Seq<ImportDescriptionV>,
}

/// Pointwise view of a sequence of import entries.
pub open spec fn imports_view(v: Seq<ImportDescription>) -> Seq<ImportDescriptionV> {
    Seq::new(v.len(), |i: int| v[i]@)
}

impl View for ImportSection {
    type V = ImportSectionV;

    open spec fn view(&self) -> ImportSectionV {
        ImportSectionV { data_len: self.data_len as nat, imports: imports_view(self.imports@) }
    }
}

/// One import entry at `off`: two names, a tag byte, and the tag-dependent
/// description.  Non-function descriptions are decoded only to find their
/// end.
pub open spec fn spec_import_description(s: Seq<u8>, off: nat) -> Result<(ImportDescriptionV, nat), DecodeError> {
    match spec_name(s, off) {
        Err(e) => Err(e),
        Ok((module, o1)) => match spec_name(s, o1) {
            Err(e) => Err(e),
            Ok((name, o2)) => if o2 >= s.len() {
                Err(DecodeError::UnexpectedEof)
            } else {
                let tag = s[o2 as int];
                if tag == 0 {
                    match spec_uleb128_u32(s, o2 + 1) {
                        Err(e) => Err(e),
                        Ok((idx, end)) => Ok(
                            (
                                ImportDescriptionV {
                                    module,
                                    name,
                                    tag: ImportTag::Func,
                                    desc: ImportDesc::Func(idx),
                                },
                                end,
                            ),
                        ),
                    }
                } else if tag == 1 {
                    match spec_table_type(s, o2 + 1) {
                        Err(e) => Err(e),
                        Ok((_tt, end)) => Ok(
                            (
                                ImportDescriptionV {
                                    module,
                                    name,
                                    tag: ImportTag::Table,
                                    desc: ImportDesc::Table,
                                },
                                end,
                            ),
                        ),
                    }
                } else if tag == 2 {
                    match spec_limits(s, o2 + 1) {
                        Err(e) => Err(e),
                        Ok((_l, end)) => Ok(
                            (
                                ImportDescriptionV {
                                    module,
                                    name,
                                    tag: ImportTag::Mem,
                                    desc: ImportDesc::Mem,
                                },
                                end,
                            ),
                        ),
                    }
                } else if tag == 3 {
                    match spec_global_type(s, o2 + 1) {
                        Err(e) => Err(e),
                        Ok((_g, end)) => Ok(
                            (
                                ImportDescriptionV {
                                    module,
                                    name,
                                    tag: ImportTag::Global,
                                    desc: ImportDesc::Global,
                                },
                                end,
                            ),
                        ),
                    }
                } else {
                    Err(DecodeError::InvalidImportTag)
                }
            },
        },
    }
}

/// `count` import entries in a row starting at `off`.
pub open spec fn spec_imports(s: Seq<u8>, off: nat, count: nat) -> Result<(Seq<ImportDescriptionV>, nat), DecodeError>
    decreases count,
{
    if count == 0 {
        Ok((Seq::empty(), off))
    } else {
        match spec_import_description(s, off) {
            Err(e) => Err(e),
            Ok((im, o1)) => match spec_imports(s, o1, (count - 1) as nat) {
                Err(e) => Err(e),
                Ok((rest, end)) => Ok((seq![im] + rest, end)),
            },
        }
    }
}

/// The import section at `off`: its frame, an entry count, then that many
/// entries filling the content exactly.
pub open spec fn spec_import_section(s: Seq<u8>, off: nat) -> Result<(ImportSectionV, nat), DecodeError> {
    match spec_section_frame(s, off, 2) {
        Err(e) => Err(e),
        Ok((body, end)) => match spec_uleb128_u32(s, body) {
            Err(e) => Err(e),
            Ok((count, o1)) => match spec_imports(s, o1, count as nat) {
                Err(e) => Err(e),
                Ok((imports, consumed)) => if consumed != end {
                    Err(DecodeError::SectionLengthMismatch)
                } else {
                    Ok((ImportSectionV { data_len: (end - off) as nat, imports }, end))
                },
            },
        },
    }
}

impl ImportDescription {
    /// Decode one import entry at `offset`.
    pub fn from_bytes(bytes: &[u8], offset: usize) -> (r: Result<
        (ImportDescription, usize),
        DecodeError,
    >)
        ensures
            ({
                let sr = spec_import_description(bytes@, offset as nat);
                match r {
                    Ok((im, end)) => sr == Ok::<(ImportDescriptionV, nat), DecodeError>(
                        (im@, end as nat),
                    ) && offset < end <= bytes@.len(),
                    Err(e) => sr == Err::<(ImportDescriptionV, nat), DecodeError>(e),
                }
            }),
    {
        match decode_name(bytes, offset) {
            Err(e) => Err(e),
            Ok((module, o1)) => match decode_name(bytes, o1) {
                Err(e) => Err(e),
                Ok((name, o2)) => {
                    if o2 >= bytes.len() {
                        return Err(DecodeError::UnexpectedEof);
                    }
                    let tag = bytes[o2];
                    if tag == 0 {
                        match uleb128_decode_u32(bytes, o2 + 1) {
                            Err(e) => Err(e),
                            Ok((idx, end)) => Ok(
                                (
                                    ImportDescription {
                                        module,
                                        name,
                                        tag: ImportTag::Func,
                                        desc: ImportDesc::Func(idx),
                                    },
                                    end,
                                ),
                            ),
                        }
                    } else if tag == 1 {
                        match TableType::from_bytes(bytes, o2 + 1) {
                            Err(e) => Err(e),
                            Ok((_tt, end)) => Ok(
                                (
                                    ImportDescription {
                                        module,
                                        name,
                                        tag: ImportTag::Table,
                                        desc: ImportDesc::Table,
                                    },
                                    end,
                                ),
                            ),
                        }
                    } else if tag == 2 {
                        match Limits::from_bytes(bytes, o2 + 1) {
                            Err(e) => Err(e),
                            Ok((_l, end)) => Ok(
                                (
                                    ImportDescription {
                                        module,
                                        name,
                                        tag: ImportTag::Mem,
                                        desc: ImportDesc::Mem,
                                    },
                                    end,
                                ),
                            ),
                        }
                    } else if tag == 3 {
                        match GlobalType::from_bytes(bytes, o2 + 1) {
                            Err(e) => Err(e),
                            Ok((_g, end)) => Ok(
                                (
                                    ImportDescription {
                                        module,
                                        name,
                                        tag: ImportTag::Global,
                                        desc: ImportDesc::Global,
                                    },
                                    end,
                                ),
                            ),
                        }
                    } else {
                        Err(DecodeError::InvalidImportTag)
                    }
                },
            },
        }
    }

    /// The name of the module this import comes from.
    pub fn module(&self) -> (r: &str)
        ensures
            r@ == self.module@,
    {
        self.module.as_str()
    }
}

impl ImportSection {
    /// The id byte of every import section.
    pub fn id(&self) -> (r: u8)
        ensures
            r == 2,
    {
        2
    }

    /// Decode the import section at `offset`.
    pub fn from_bytes(bytes: &[u8], offset: usize) -> (r: Result<ImportSection, DecodeError>)
        ensures
            ({
                let sr = spec_import_section(bytes@, offset as nat);
                match r {
                    Ok(sec) => sr matches Ok(p) && p.0 == sec@ && offset + sec.data_len == p.1,
                    Err(e) => sr == Err::<(ImportSectionV, nat), DecodeError>(e),
                }
            }),
    {
        match section_frame(bytes, offset, 2) {
            Err(e) => Err(e),
            Ok((body, end)) => match uleb128_decode_u32(bytes, body) {
                Err(e) => Err(e),
                Ok((count, o1)) => match decode_imports(bytes, o1, count) {
                    Err(e) => Err(e),
                    Ok((imports, consumed)) => if consumed != end {
                        Err(DecodeError::SectionLengthMismatch)
                    } else {
                        Ok(ImportSection { data_len: end - offset, imports })
                    },
                },
            },
        }
    }
}

/// Decode `count` consecutive import entries.
fn decode_imports(bytes: &[u8], offset: usize, count: u32) -> (r: Result<
    (Vec<ImportDescription>, usize),
    DecodeError,
>)
    ensures
        ({
            let sr = spec_imports(bytes@, offset as nat, count as nat);
            match r {
                Ok((v, end)) => sr == Ok::<(Seq<ImportDescriptionV>, nat), DecodeError>(
                    (imports_view(v@), end as nat),
                ) && offset <= end && (end <= bytes@.len() || end == offset),
                Err(e) => sr == Err::<(Seq<ImportDescriptionV>, nat), DecodeError>(e),
            }
        }),
{
    let mut acc: Vec<ImportDescription> = Vec::new();
    let mut cur = offset;
    let mut i: u32 = 0;
    while i < count
        invariant
            i <= count,
            offset <= cur && (cur <= bytes@.len() || cur == offset),
            acc@.len() == i as nat,
            ({
                let whole = spec_imports(bytes@, offset as nat, count as nat);
                match spec_imports(bytes@, cur as nat, (count - i) as nat) {
                    Ok((rest, end)) => whole == Ok::<(Seq<ImportDescriptionV>, nat), DecodeError>(
                        (imports_view(acc@) + rest, end),
                    ),
                    Err(e) => whole == Err::<(Seq<ImportDescriptionV>, nat), DecodeError>(e),
                }
            }),
        decreases count - i,
    {
        match ImportDescription::from_bytes(bytes, cur) {
            Err(e) => {
                return Err(e);
            },
            Ok((im, end)) => {
                proof {
                    assert(imports_view(acc@.push(im)) =~= imports_view(acc@).push(im@));
                    match spec_imports(bytes@, end as nat, (count - i - 1) as nat) {
                        Ok((rest, e2)) => {
                            assert(imports_view(acc@) + (seq![im@] + rest) =~= imports_view(
                                acc@,
                            ).push(im@) + rest);
                        },
                        Err(_) => {},
                    }
                }
                acc.push(im);
                cur = end;
                i = i + 1;
            },
        }
    }
    proof {
        assert(imports_view(acc@) + Seq::<ImportDescriptionV>::empty() =~= imports_view(acc@));
    }
    Ok((acc, cur))
}

} // verus!
