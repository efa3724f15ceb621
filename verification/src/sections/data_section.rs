use vstd::prelude::*;

use crate::errors::DecodeError;
use crate::instructions::{spec_expression, Expression, InstructionsV};
use crate::sections::spec_section_frame;
use crate::sections::section_frame;
use crate::utils::{slice_range_to_vec, spec_uleb128_u32, uleb128_decode_u32};

verus! {

/// One data segment: the memory it initializes, the offset expression, and
/// the raw bytes it installs there.
#[derive(Debug)]
pub struct Data {
    pub mem_idx: u32,
    pub offset_expr: Expression,
    pub init: Vec<u8>,
}

/// Mathematical shape of a `Data`.
pub struct DataV {
    pub mem_idx: u32,
    pub offset_expr: Seq<InstructionsV>,
    pub init: Seq<u8>,
}

impl View for Data {
    type V = DataV;

    open spec fn view(&self) -> DataV {
        DataV { mem_idx: self.mem_idx, offset_expr: self.offset_expr@, init: self.init@ }
    }
}

/// The data section, id 11: the module's data segments, in order.
#[derive(Debug)]
pub struct DataSection {
    /// Total framed length of the section: id byte, length field, content.
    pub data_len: usize,
    pub datas: Vec<Data>,
}

/// Mathematical shape of a `DataSection`.
pub struct DataSectionV {
    pub data_len: nat,
    pub datas: Seq<DataV>,
}

/// Pointwise view of a sequence of data segments.
pub open spec fn datas_view(v: Seq<Data>) -> Seq<DataV> {
    Seq::new(v.len(), |i: int| v[i]@)
}

impl View for DataSection {
    type V = DataSectionV;

    open spec fn view(&self) -> DataSectionV {
        DataSectionV { data_len: self.data_len as nat, datas: datas_view(self.datas@) }
    }
}

/// One data segment at `off`: a memory index, an offset expression, then a
/// byte count and the raw initialization bytes.
pub open spec fn spec_data(s: Seq<u8>, off: nat) -> Result<(DataV, nat), DecodeError> {
    match spec_uleb128_u32(s, off) {
        Err(e) => Err(e),
        Ok((mem_idx, o1)) => match spec_expression(s, o1) {
            Err(e) => Err(e),
            Ok((offset_expr, o2)) => match spec_uleb128_u32(s, o2) {
                Err(e) => Err(e),
                Ok((len, o3)) => if o3 + len > s.len() {
                    Err(DecodeError::UnexpectedEof)
                } else {
                    Ok(
                        (
                            DataV {
                                mem_idx,
                                offset_expr,
                                init: s.subrange(o3 as int, o3 + len),
                            },
                            (o3 + len) as nat,
                        ),
                    )
                },
            },
        },
    }
}

/// Decode one data segment at `offset`.
fn decode_data(bytes: &[u8], offset: usize) -> (r: Result<(Data, usize), DecodeError>)
    ensures
        ({
            let sr = spec_data(bytes@, offset as nat);
            match r {
                Ok((d, end)) => sr == Ok::<(DataV, nat), DecodeError>((d@, end as nat))
                    && offset < end <= bytes@.len(),
                Err(e) => sr == Err::<(DataV, nat), DecodeError>(e),
            }
        }),
{
    match uleb128_decode_u32(bytes, offset) {
        Err(e) => Err(e),
        Ok((mem_idx, o1)) => match Expression::from_bytes(bytes, o1) {
            Err(e) => Err(e),
            Ok((offset_expr, o2)) => match uleb128_decode_u32(bytes, o2) {
                Err(e) => Err(e),
                Ok((len, o3)) => {
                    if (len as u64) > (bytes.len() - o3) as u64 {
                        return Err(DecodeError::UnexpectedEof);
                    }
                    let end = o3 + len as usize;
                    let init = slice_range_to_vec(bytes, o3, end);
                    Ok((Data { mem_idx, offset_expr, init }, end))
                },
            },
        },
    }
}

/// `count` data segments in a row starting at `off`.
pub open spec fn spec_datas(s: Seq<u8>, off: nat, count: nat) -> Result<(Seq<DataV>, nat), DecodeError>
    decreases count,
{
    if count == 0 {
        Ok((Seq::empty(), off))
    } else {
        match spec_data(s, off) {
            Err(e) => Err(e),
            Ok((x, o1)) => match spec_datas(s, o1, (count - 1) as nat) {
                Err(e) => Err(e),
                Ok((rest, end)) => Ok((seq![x] + rest, end)),
            },
        }
    }
}

/// The data section at `off`: its frame, an entry count, then that many
/// entries filling the content exactly.
pub open spec fn spec_data_section(s: Seq<u8>, off: nat) -> Result<(DataSectionV, nat), DecodeError> {
    match spec_section_frame(s, off, 11) {
        Err(e) => Err(e),
        Ok((body, end)) => match spec_uleb128_u32(s, body) {
            Err(e) => Err(e),
            Ok((count, o1)) => match spec_datas(s, o1, count as nat) {
                Err(e) => Err(e),
                Ok((datas, consumed)) => if consumed != end {
                    Err(DecodeError::SectionLengthMismatch)
                } else {
                    Ok((DataSectionV { data_len: (end - off) as nat, datas }, end))
                },
            },
        },
    }
}

impl DataSection {
    /// The id byte of every data section.
    pub fn id() -> (r: u8)
        ensures
            r == 11,
    {
        11
    }


    /// Decode the data section at `offset`.
    pub fn from_bytes(bytes: &[u8], offset: usize) -> (r: Result<DataSection, DecodeError>)
        ensures
            ({
                let sr = spec_data_section(bytes@, offset as nat);
                match r {
                    Ok(sec) => sr matches Ok(p) && p.0 == sec@ && offset + sec.data_len == p.1,
                    Err(e) => sr == Err::<(DataSectionV, nat), DecodeError>(e),
                }
            }),
    {
        match section_frame(bytes, offset, 11) {
            Err(e) => Err(e),
            Ok((body, end)) => match uleb128_decode_u32(bytes, body) {
                Err(e) => Err(e),
                Ok((count, o1)) => match decode_datas(bytes, o1, count) {
                    Err(e) => Err(e),
                    Ok((datas, consumed)) => if consumed != end {
                        Err(DecodeError::SectionLengthMismatch)
                    } else {
                        Ok(DataSection { data_len: end - offset, datas })
                    },
                },
            },
        }
    }
}

/// Decode `count` consecutive data segments.
fn decode_datas(bytes: &[u8], offset: usize, count: u32) -> (r: Result<
    (Vec<Data>, usize),
    DecodeError,
>)
    ensures
        ({
            let sr = spec_datas(bytes@, offset as nat, count as nat);
            match r {
                Ok((v, end)) => sr == Ok::<(Seq<DataV>, nat), DecodeError>(
                    (datas_view(v@), end as nat),
                ) && offset <= end && (end <= bytes@.len() || end == offset),
                Err(e) => sr == Err::<(Seq<DataV>, nat), DecodeError>(e),
            }
        }),
{
    let mut acc: Vec<Data> = Vec::new();
    let mut cur = offset;
    let mut i: u32 = 0;
    while i < count
        invariant
            i <= count,
            offset <= cur && (cur <= bytes@.len() || cur == offset),
            acc@.len() == i as nat,
            ({
                let whole = spec_datas(bytes@, offset as nat, count as nat);
                match spec_datas(bytes@, cur as nat, (count - i) as nat) {
                    Ok((rest, end)) => whole == Ok::<(Seq<DataV>, nat), DecodeError>(
                        (datas_view(acc@) + rest, end),
                    ),
                    Err(e) => whole == Err::<(Seq<DataV>, nat), DecodeError>(e),
                }
            }),
        decreases count - i,
    {
        match decode_data(bytes, cur) {
            Err(e) => {
                return Err(e);
            },
            Ok((x, end)) => {
                proof {
                    assert(datas_view(acc@.push(x)) =~= datas_view(acc@).push(x@));
                    match spec_datas(bytes@, end as nat, (count - i - 1) as nat) {
                        Ok((rest, e2)) => {
                            assert(datas_view(acc@) + (seq![x@] + rest) =~= datas_view(
                                acc@,
                            ).push(x@) + rest);
                        },
                        Err(_) => {},
                    }
                }
                acc.push(x);
                cur = end;
                i = i + 1;
            },
        }
    }
    proof {
        assert(datas_view(acc@) + Seq::<DataV>::empty() =~= datas_view(acc@));
    }
    Ok((acc, cur))
}

} // verus!
