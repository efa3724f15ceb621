use vstd::prelude::*;

use crate::errors::DecodeError;
use crate::instructions::{
    decode_u32_list, spec_expression, spec_u32_list, Expression, InstructionsV,
};
use crate::sections::spec_section_frame;
use crate::sections::section_frame;
use crate::utils::{spec_uleb128_u32, uleb128_decode_u32};

verus! {

/// One element segment: the table it fills, the offset expression, and the
/// function indices it installs.
#[derive(Debug)]
pub struct Element {
    pub table_idx: u32,
    pub offset_expr: Expression,
    pub func_indices: Vec<u32>,
}

/// Mathematical shape of an `Element`.
pub struct ElementV {
    pub table_idx: u32,
    pub offset_expr: Seq<InstructionsV>,
    pub func_indices: Seq<u32>,
}

impl View for Element {
    type V = ElementV;

    open spec fn view(&self) -> ElementV {
        ElementV {
            table_idx: self.table_idx,
            offset_expr: self.offset_expr@,
            func_indices: self.func_indices@,
        }
    }
}

/// The element section, id 9: the module's element segments, in order.
#[derive(Debug)]
pub struct ElementSection {
    /// Total framed length of the section: id byte, length field, content.
    pub data_len: usize,
    pub elem: Vec<Element>,
}

/// Mathematical shape of an `ElementSection`.
pub struct ElementSectionV {
    pub data_len: nat,
    pub elem: Seq<ElementV>,
}

/// Pointwise view of a sequence of element segments.
pub open spec fn elements_view(v: Seq<Element>) -> Seq<ElementV> {
    Seq::new(v.len(), |i: int| v[i]@)
}

impl View for ElementSection {
    type V = ElementSectionV;

    open spec fn view(&self) -> ElementSectionV {
        ElementSectionV { data_len: self.data_len as nat, elem: elements_view(self.elem@) }
    }
}

/// One element segment at `off`: a table index, an offset expression, then
/// a count of function indices and the indices themselves.
pub open spec fn spec_element(s: Seq<u8>, off: nat) -> Result<(ElementV, nat), DecodeError> {
    match spec_uleb128_u32(s, off) {
        Err(e) => Err(e),
        Ok((table_idx, o1)) => match spec_expression(s, o1) {
            Err(e) => Err(e),
            Ok((offset_expr, o2)) => match spec_uleb128_u32(s, o2) {
                Err(e) => Err(e),
                Ok((count, o3)) => match spec_u32_list(s, o3, count as nat) {
                    Err(e) => Err(e),
                    Ok((func_indices, end)) => Ok(
                        (ElementV { table_idx, offset_expr, func_indices }, end),
                    ),
                },
            },
        },
    }
}

/// Decode one element segment at `offset`.
fn decode_element(bytes: &[u8], offset: usize) -> (r: Result<(Element, usize), DecodeError>)
    ensures
        ({
            let sr = spec_element(bytes@, offset as nat);
            match r {
                Ok((el, end)) => sr == Ok::<(ElementV, nat), DecodeError>((el@, end as nat))
                    && offset < end <= bytes@.len(),
                Err(e) => sr == Err::<(ElementV, nat), DecodeError>(e),
            }
        }),
{
    match uleb128_decode_u32(bytes, offset) {
        Err(e) => Err(e),
        Ok((table_idx, o1)) => match Expression::from_bytes(bytes, o1) {
            Err(e) => Err(e),
            Ok((offset_expr, o2)) => match uleb128_decode_u32(bytes, o2) {
                Err(e) => Err(e),
                Ok((count, o3)) => match decode_u32_list(bytes, o3, count) {
                    Err(e) => Err(e),
                    Ok((func_indices, end)) => Ok(
                        (Element { table_idx, offset_expr, func_indices }, end),
                    ),
                },
            },
        },
    }
}

/// `count` element segments in a row starting at `off`.
pub open spec fn spec_elements(s: Seq<u8>, off: nat, count: nat) -> Result<(Seq<ElementV>, nat), DecodeError>
    decreases count,
{
    if count == 0 {
        Ok((Seq::empty(), off))
    } else {
        match spec_element(s, off) {
            Err(e) => Err(e),
            Ok((x, o1)) => match spec_elements(s, o1, (count - 1) as nat) {
                Err(e) => Err(e),
                Ok((rest, end)) => Ok((seq![x] + rest, end)),
            },
        }
    }
}

/// The element section at `off`: its frame, an entry count, then that many
/// entries filling the content exactly.
pub open spec fn spec_element_section(s: Seq<u8>, off: nat) -> Result<(ElementSectionV, nat), DecodeError> {
    match spec_section_frame(s, off, 9) {
        Err(e) => Err(e),
        Ok((body, end)) => match spec_uleb128_u32(s, body) {
            Err(e) => Err(e),
            Ok((count, o1)) => match spec_elements(s, o1, count as nat) {
                Err(e) => Err(e),
                Ok((elem, consumed)) => if consumed != end {
                    Err(DecodeError::SectionLengthMismatch)
                } else {
                    Ok((ElementSectionV { data_len: (end - off) as nat, elem }, end))
                },
            },
        },
    }
}

impl ElementSection {
    /// The id byte of every element section.
    pub fn id() -> (r: u8)
        ensures
            r == 9,
    {
        9
    }


    /// Decode the element section at `offset`.
    pub fn from_bytes(bytes: &[u8], offset: usize) -> (r: Result<ElementSection, DecodeError>)
        ensures
            ({
                let sr = spec_element_section(bytes@, offset as nat);
                match r {
                    Ok(sec) => sr matches Ok(p) && p.0 == sec@ && offset + sec.data_len == p.1,
                    Err(e) => sr == Err::<(ElementSectionV, nat), DecodeError>(e),
                }
            }),
    {
        match section_frame(bytes, offset, 9) {
            Err(e) => Err(e),
            Ok((body, end)) => match uleb128_decode_u32(bytes, body) {
                Err(e) => Err(e),
                Ok((count, o1)) => match decode_elements(bytes, o1, count) {
                    Err(e) => Err(e),
                    Ok((elem, consumed)) => if consumed != end {
                        Err(DecodeError::SectionLengthMismatch)
                    } else {
                        Ok(ElementSection { data_len: end - offset, elem })
                    },
                },
            },
        }
    }
}

/// Decode `count` consecutive element segments.
fn decode_elements(bytes: &[u8], offset: usize, count: u32) -> (r: Result<
    (Vec<Element>, usize),
    DecodeError,
>)
    ensures
        ({
            let sr = spec_elements(bytes@, offset as nat, count as nat);
            match r {
                Ok((v, end)) => sr == Ok::<(Seq<ElementV>, nat), DecodeError>(
                    (elements_view(v@), end as nat),
                ) && offset <= end && (end <= bytes@.len() || end == offset),
                Err(e) => sr == Err::<(Seq<ElementV>, nat), DecodeError>(e),
            }
        }),
{
    let mut acc: Vec<Element> = Vec::new();
    let mut cur = offset;
    let mut i: u32 = 0;
    while i < count
        invariant
            i <= count,
            offset <= cur && (cur <= bytes@.len() || cur == offset),
            acc@.len() == i as nat,
            ({
                let whole = spec_elements(bytes@, offset as nat, count as nat);
                match spec_elements(bytes@, cur as nat, (count - i) as nat) {
                    Ok((rest, end)) => whole == Ok::<(Seq<ElementV>, nat), DecodeError>(
                        (elements_view(acc@) + rest, end),
                    ),
                    Err(e) => whole == Err::<(Seq<ElementV>, nat), DecodeError>(e),
                }
            }),
        decreases count - i,
    {
        match decode_element(bytes, cur) {
            Err(e) => {
                return Err(e);
            },
            Ok((x, end)) => {
                proof {
                    assert(elements_view(acc@.push(x)) =~= elements_view(acc@).push(x@));
                    match spec_elements(bytes@, end as nat, (count - i - 1) as nat) {
                        Ok((rest, e2)) => {
                            assert(elements_view(acc@) + (seq![x@] + rest) =~= elements_view(
                                acc@,
                            ).push(x@) + rest);
                        },
                        Err(_) => {},
                    }
                }
                acc.push(x);
                cur = end;
                i = i + 1;
            },
        }
    }
    proof {
        assert(elements_view(acc@) + Seq::<ElementV>::empty() =~= elements_view(acc@));
    }
    Ok((acc, cur))
}

} // verus!
