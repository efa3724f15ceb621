use vstd::prelude::*;

use crate::errors::DecodeError;
use crate::sections::spec_section_frame;
use crate::sections::section_frame;
use crate::sections::types::{spec_function_type, FunctionType, FunctionTypeV};
use crate::utils::{spec_uleb128_u32, uleb128_decode_u32};

verus! {

/// The type section, id 1: the module's function types, in order.
#[derive(Debug, Clone, PartialEq, Eq)]
pub struct TypeSection {
    /// Total framed length of the section: id byte, length field, content.
    pub data_len: usize,
    pub func_types: Vec<FunctionType>,
}

/// Mathematical shape of a `TypeSection`.
pub struct TypeSectionV {
    pub data_len: nat,
    pub func_types: Seq<FunctionTypeV>,
}

/// Pointwise view of a sequence of function types.
pub open spec fn func_types_view(v: Seq<FunctionType>) -> Seq<FunctionTypeV> {
    Seq::new(v.len(), |i: int| v[i]@)
}

impl View for TypeSection {
    type V = TypeSectionV;

    open spec fn view(&self) -> TypeSectionV {
        TypeSectionV { data_len: self.data_len as nat, func_types: func_types_view(self.func_types@) }
    }
}

/// `count` function types in a row starting at `off`.
pub open spec fn spec_function_types(s: Seq<u8>, off: nat, count: nat) -> Result<(Seq<FunctionTypeV>, nat), DecodeError>
    decreases count,
{
    if count == 0 {
        Ok((Seq::empty(), off))
    } else {
        match spec_function_type(s, off) {
            Err(e) => Err(e),
            Ok((ft, o1)) => match spec_function_types(s, o1, (count - 1) as nat) {
                Err(e) => Err(e),
                Ok((rest, end)) => Ok((seq![ft] + rest, end)),
            },
        }
    }
}

/// The type section at `off`: its frame, an item count, then that many
/// function types filling the content exactly.
pub open spec fn spec_type_section(s: Seq<u8>, off: nat) -> Result<(TypeSectionV, nat), DecodeError> {
    match spec_section_frame(s, off, 1) {
        Err(e) => Err(e),
        Ok((body, end)) => match spec_uleb128_u32(s, body) {
            Err(e) => Err(e),
            Ok((count, o1)) => match spec_function_types(s, o1, count as nat) {
                Err(e) => Err(e),
                Ok((func_types, consumed)) => if consumed != end {
                    Err(DecodeError::SectionLengthMismatch)
                } else {
                    Ok((TypeSectionV { data_len: (end - off) as nat, func_types }, end))
                },
            },
        },
    }
}

impl TypeSection {
    /// The id byte of every type section.
    pub fn id(&self) -> (r: u8)
        ensures
            r == 1,
    {
        1
    }

    /// Total framed length of this section in the original buffer.
    pub fn byte_count(&self) -> (r: usize)
        ensures
            r == self.data_len,
    {
        self.data_len
    }

    /// Decode the type section at `offset`.
    pub fn from_bytes(bytes: &[u8], offset: usize) -> (r: Result<TypeSection, DecodeError>)
        ensures
            ({
                let sr = spec_type_section(bytes@, offset as nat);
                match r {
                    Ok(sec) => sr matches Ok(p) && p.0 == sec@ && offset + sec.data_len == p.1,
                    Err(e) => sr == Err::<(TypeSectionV, nat), DecodeError>(e),
                }
            }),
    {
        match section_frame(bytes, offset, 1) {
            Err(e) => Err(e),
            Ok((body, end)) => match uleb128_decode_u32(bytes, body) {
                Err(e) => Err(e),
                Ok((count, o1)) => match decode_function_types(bytes, o1, count) {
                    Err(e) => Err(e),
                    Ok((func_types, consumed)) => if consumed != end {
                        Err(DecodeError::SectionLengthMismatch)
                    } else {
                        Ok(TypeSection { data_len: end - offset, func_types })
                    },
                },
            },
        }
    }
}

/// Decode `count` consecutive function types.
fn decode_function_types(bytes: &[u8], offset: usize, count: u32) -> (r: Result<
    (Vec<FunctionType>, usize),
    DecodeError,
>)
    ensures
        ({
            let sr = spec_function_types(bytes@, offset as nat, count as nat);
            match r {
                Ok((v, end)) => sr == Ok::<(Seq<FunctionTypeV>, nat), DecodeError>(
                    (func_types_view(v@), end as nat),
                ) && offset <= end && (end <= bytes@.len() || end == offset),
                Err(e) => sr == Err::<(Seq<FunctionTypeV>, nat), DecodeError>(e),
            }
        }),
{
    let mut acc: Vec<FunctionType> = Vec::new();
    let mut cur = offset;
    let mut i: u32 = 0;
    while i < count
        invariant
            i <= count,
            offset <= cur && (cur <= bytes@.len() || cur == offset),
            acc@.len() == i as nat,
            ({
                let whole = spec_function_types(bytes@, offset as nat, count as nat);
                match spec_function_types(bytes@, cur as nat, (count - i) as nat) {
                    Ok((rest, end)) => whole == Ok::<(Seq<FunctionTypeV>, nat), DecodeError>(
                        (func_types_view(acc@) + rest, end),
                    ),
                    Err(e) => whole == Err::<(Seq<FunctionTypeV>, nat), DecodeError>(e),
                }
            }),
        decreases count - i,
    {
        match FunctionType::from_bytes(bytes, cur) {
            Err(e) => {
                return Err(e);
            },
            Ok((ft, end)) => {
                proof {
                    assert(func_types_view(acc@.push(ft)) =~= func_types_view(acc@).push(ft@));
                    match spec_function_types(bytes@, end as nat, (count - i - 1) as nat) {
                        Ok((rest, e2)) => {
                            assert(func_types_view(acc@) + (seq![ft@] + rest) =~= func_types_view(
                                acc@,
                            ).push(ft@) + rest);
                        },
                        Err(_) => {},
                    }
                }
                acc.push(ft);
                cur = end;
                i = i + 1;
            },
        }
    }
    proof {
        assert(func_types_view(acc@) + Seq::<FunctionTypeV>::empty() =~= func_types_view(acc@));
    }
    Ok((acc, cur))
}

} // verus!
