use vstd::prelude::*;

use crate::errors::DecodeError;
use crate::instructions::{decode_u32_list, spec_u32_list};
use crate::sections::spec_section_frame;
use crate::sections::section_frame;
use crate::utils::{spec_uleb128_u32, uleb128_decode_u32};

verus! {

/// The function section, id 3: one type index per function defined in the
/// module, matched by position to the code section's bodies.
#[derive(Debug, Clone, PartialEq, Eq)]
pub struct FunctionSection {
    /// Total framed length of the section: id byte, length field, content.
    pub data_len: usize,
    pub type_idx: Vec<u32>,
}

/// Mathematical shape of a `FunctionSection`.
pub struct FunctionSectionV {
    pub data_len: nat,
    pub type_idx: Seq<u32>,
}

impl View for FunctionSection {
    type V = FunctionSectionV;

    open spec fn view(&self) -> FunctionSectionV {
        FunctionSectionV { data_len: self.data_len as nat, type_idx: self.type_idx@ }
    }
}

/// The function section at `off`: its frame, an index count, then that many
/// type indices filling the content exactly.
pub open spec fn spec_function_section(s: Seq<u8>, off: nat) -> Result<(FunctionSectionV, nat), DecodeError> {
    match spec_section_frame(s, off, 3) {
        Err(e) => Err(e),
        Ok((body, end)) => match spec_uleb128_u32(s, body) {
            Err(e) => Err(e),
            Ok((count, o1)) => match spec_u32_list(s, o1, count as nat) {
                Err(e) => Err(e),
                Ok((type_idx, consumed)) => if consumed != end {
                    Err(DecodeError::SectionLengthMismatch)
                } else {
                    Ok((FunctionSectionV { data_len: (end - off) as nat, type_idx }, end))
                },
            },
        },
    }
}

impl FunctionSection {
    /// The id byte of every function section.
    pub fn id() -> (r: u8)
        ensures
            r == 3,
    {
        3
    }

    /// Decode the function section at `offset`.
    pub fn from_bytes(bytes: &[u8], offset: usize) -> (r: Result<FunctionSection, DecodeError>)
        ensures
            ({
                let sr = spec_function_section(bytes@, offset as nat);
                match r {
                    Ok(sec) => sr matches Ok(p) && p.0 == sec@ && offset + sec.data_len == p.1,
                    Err(e) => sr == Err::<(FunctionSectionV, nat), DecodeError>(e),
                }
            }),
    {
        match section_frame(bytes, offset, 3) {
            Err(e) => Err(e),
            Ok((body, end)) => match uleb128_decode_u32(bytes, body) {
                Err(e) => Err(e),
                Ok((count, o1)) => match decode_u32_list(bytes, o1, count) {
                    Err(e) => Err(e),
                    Ok((type_idx, consumed)) => if consumed != end {
                        Err(DecodeError::SectionLengthMismatch)
                    } else {
                        Ok(FunctionSection { data_len: end - offset, type_idx })
                    },
                },
            },
        }
    }
}

} // verus!
