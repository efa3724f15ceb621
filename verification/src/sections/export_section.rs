use vstd::prelude::*;

use crate::errors::DecodeError;
use crate::sections::spec_section_frame;
use crate::sections::section_frame;
use crate::utils::{decode_name, spec_name, spec_uleb128_u32, uleb128_decode_u32};

verus! {

/// What an export exposes: one of the four exportable kinds, tag bytes
/// 0..=3.
#[derive(Debug, Clone, Copy, PartialEq, Eq)]
pub enum ExportType {
    Func,
    Table,
    Mem,
    Global,
}

/// The target of an export: its kind and its index in that kind's space.
#[derive(Debug, Clone, Copy, PartialEq, Eq)]
pub struct ExportDesc {
    pub index: u32,
    pub export_type: ExportType,
}

/// One export entry: a name and what it designates.
#[derive(Debug, Clone, PartialEq, Eq)]
pub struct Export {
    pub name: String,
    pub desc: ExportDesc,
}

/// Mathematical shape of an `Export`.
pub struct ExportV {
    pub name: Seq<char>,
    pub desc: ExportDesc,
}

impl View for Export {
    type V = ExportV;

    open spec fn view(&self) -> ExportV {
        ExportV { name: self.name@, desc: self.desc }
    }
}

/// The export section, id 7: the module's named exports, in order.
#[derive(Debug, Clone, PartialEq, Eq)]
pub struct ExportSection {
    /// Total framed length of the section: id byte, length field, content.
    pub data_len: usize,
    pub exports: Vec<Export>,
}

/// Mathematical shape of an `ExportSection`.
pub struct ExportSectionV {
    pub data_len: nat,
    pub exports: Seq<ExportV>,
}

/// Pointwise view of a sequence of exports.
pub open spec fn exports_view(v: Seq<Export>) -> Seq<ExportV> {
    Seq::new(v.len(), |i: int| v[i]@)
}

impl View for ExportSection {
    type V = ExportSectionV;

    open spec fn view(&self) -> ExportSectionV {
        ExportSectionV { data_len: self.data_len as nat, exports: exports_view(self.exports@) }
    }
}

/// What an export tag byte decodes to.
pub open spec fn spec_export_type(b: u8) -> Result<ExportType, DecodeError> {
    if b == 0 {
        Ok(ExportType::Func)
    } else if b == 1 {
        Ok(ExportType::Table)
    } else if b == 2 {
        Ok(ExportType::Mem)
    } else if b == 3 {
        Ok(ExportType::Global)
    } else {
        Err(DecodeError::InvalidExportTag)
    }
}

impl ExportType {
    /// Decode one export tag byte.
    pub fn from_byte(b: u8) -> (r: Result<ExportType, DecodeError>)
        ensures
            r == spec_export_type(b),
    {
        if b == 0 {
            Ok(ExportType::Func)
        } else if b == 1 {
            Ok(ExportType::Table)
        } else if b == 2 {
            Ok(ExportType::Mem)
        } else if b == 3 {
            Ok(ExportType::Global)
        } else {
            Err(DecodeError::InvalidExportTag)
        }
    }
}

/// One export entry at `off`: a name, a tag byte, and an index.
pub open spec fn spec_export(s: Seq<u8>, off: nat) -> Result<(ExportV, nat), DecodeError> {
    match spec_name(s, off) {
        Err(e) => Err(e),
        Ok((name, o1)) => if o1 >= s.len() {
            Err(DecodeError::UnexpectedEof)
        } else {
            match spec_export_type(s[o1 as int]) {
                Err(e) => Err(e),
                Ok(ty) => match spec_uleb128_u32(s, o1 + 1) {
                    Err(e) => Err(e),
                    Ok((index, end)) => Ok(
                        (ExportV { name, desc: ExportDesc { index, export_type: ty } }, end),
                    ),
                },
            }
        },
    }
}

/// `count` export entries in a row starting at `off`.
pub open spec fn spec_exports(s: Seq<u8>, off: nat, count: nat) -> Result<(Seq<ExportV>, nat), DecodeError>
    decreases count,
{
    if count == 0 {
        Ok((Seq::empty(), off))
    } else {
        match spec_export(s, off) {
            Err(e) => Err(e),
            Ok((ex, o1)) => match spec_exports(s, o1, (count - 1) as nat) {
                Err(e) => Err(e),
                Ok((rest, end)) => Ok((seq![ex] + rest, end)),
            },
        }
    }
}

/// The export section at `off`: its frame, an entry count, then that many
/// entries filling the content exactly.
pub open spec fn spec_export_section(s: Seq<u8>, off: nat) -> Result<(ExportSectionV, nat), DecodeError> {
    match spec_section_frame(s, off, 7) {
        Err(e) => Err(e),
        Ok((body, end)) => match spec_uleb128_u32(s, body) {
            Err(e) => Err(e),
            Ok((count, o1)) => match spec_exports(s, o1, count as nat) {
                Err(e) => Err(e),
                Ok((exports, consumed)) => if consumed != end {
                    Err(DecodeError::SectionLengthMismatch)
                } else {
                    Ok((ExportSectionV { data_len: (end - off) as nat, exports }, end))
                },
            },
        },
    }
}

/// Decode one export entry at `offset`.
fn decode_export(bytes: &[u8], offset: usize) -> (r: Result<(Export, usize), DecodeError>)
    ensures
        ({
            let sr = spec_export(bytes@, offset as nat);
            match r {
                Ok((ex, end)) => sr == Ok::<(ExportV, nat), DecodeError>((ex@, end as nat))
                    && offset < end <= bytes@.len(),
                Err(e) => sr == Err::<(ExportV, nat), DecodeError>(e),
            }
        }),
{
    match decode_name(bytes, offset) {
        Err(e) => Err(e),
        Ok((name, o1)) => {
            if o1 >= bytes.len() {
                return Err(DecodeError::UnexpectedEof);
            }
            match ExportType::from_byte(bytes[o1]) {
                Err(e) => Err(e),
                Ok(ty) => match uleb128_decode_u32(bytes, o1 + 1) {
                    Err(e) => Err(e),
                    Ok((index, end)) => Ok(
                        (Export { name, desc: ExportDesc { index, export_type: ty } }, end),
                    ),
                },
            }
        },
    }
}

impl ExportSection {
    /// The id byte of every export section.
    pub fn id() -> (r: u8)
        ensures
            r == 7,
    {
        7
    }

    /// Decode the export section at `offset`.
    pub fn from_bytes(bytes: &[u8], offset: usize) -> (r: Result<ExportSection, DecodeError>)
        ensures
            ({
                let sr = spec_export_section(bytes@, offset as nat);
                match r {
                    Ok(sec) => sr matches Ok(p) && p.0 == sec@ && offset + sec.data_len == p.1,
                    Err(e) => sr == Err::<(ExportSectionV, nat), DecodeError>(e),
                }
            }),
    {
        match section_frame(bytes, offset, 7) {
            Err(e) => Err(e),
            Ok((body, end)) => match uleb128_decode_u32(bytes, body) {
                Err(e) => Err(e),
                Ok((count, o1)) => match decode_exports(bytes, o1, count) {
                    Err(e) => Err(e),
                    Ok((exports, consumed)) => if consumed != end {
                        Err(DecodeError::SectionLengthMismatch)
                    } else {
                        Ok(ExportSection { data_len: end - offset, exports })
                    },
                },
            },
        }
    }
}

/// Decode `count` consecutive export entries.
fn decode_exports(bytes: &[u8], offset: usize, count: u32) -> (r: Result<
    (Vec<Export>, usize),
    DecodeError,
>)
    ensures
        ({
            let sr = spec_exports(bytes@, offset as nat, count as nat);
            match r {
                Ok((v, end)) => sr == Ok::<(Seq<ExportV>, nat), DecodeError>(
                    (exports_view(v@), end as nat),
                ) && offset <= end && (end <= bytes@.len() || end == offset),
                Err(e) => sr == Err::<(Seq<ExportV>, nat), DecodeError>(e),
            }
        }),
{
    let mut acc: Vec<Export> = Vec::new();
    let mut cur = offset;
    let mut i: u32 = 0;
    while i < count
        invariant
            i <= count,
            offset <= cur && (cur <= bytes@.len() || cur == offset),
            acc@.len() == i as nat,
            ({
                let whole = spec_exports(bytes@, offset as nat, count as nat);
                match spec_exports(bytes@, cur as nat, (count - i) as nat) {
                    Ok((rest, end)) => whole == Ok::<(Seq<ExportV>, nat), DecodeError>(
                        (exports_view(acc@) + rest, end),
                    ),
                    Err(e) => whole == Err::<(Seq<ExportV>, nat), DecodeError>(e),
                }
            }),
        decreases count - i,
    {
        match decode_export(bytes, cur) {
            Err(e) => {
                return Err(e);
            },
            Ok((ex, end)) => {
                proof {
                    assert(exports_view(acc@.push(ex)) =~= exports_view(acc@).push(ex@));
                    match spec_exports(bytes@, end as nat, (count - i - 1) as nat) {
                        Ok((rest, e2)) => {
                            assert(exports_view(acc@) + (seq![ex@] + rest) =~= exports_view(
                                acc@,
                            ).push(ex@) + rest);
                        },
                        Err(_) => {},
                    }
                }
                acc.push(ex);
                cur = end;
                i = i + 1;
            },
        }
    }
    proof {
        assert(exports_view(acc@) + Seq::<ExportV>::empty() =~= exports_view(acc@));
    }
    Ok((acc, cur))
}

} // verus!
