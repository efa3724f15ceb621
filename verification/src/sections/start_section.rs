use vstd::prelude::*;

use crate::errors::DecodeError;
use crate::sections::spec_section_frame;
use crate::sections::section_frame;
use crate::utils::{spec_uleb128_u32, uleb128_decode_u32};

verus! {

/// The start section, id 8: the index of the function to run first.
#[derive(Debug, Clone, Copy, PartialEq, Eq)]
pub struct StartSection {
    /// Total framed length of the section: id byte, length field, content.
    pub data_len: usize,
    pub func_idx: u32,
}

/// The start section at `off`: its frame, then one function index filling
/// the content exactly.
pub open spec fn spec_start_section(s: Seq<u8>, off: nat) -> Result<(StartSection, nat), DecodeError> {
    match spec_section_frame(s, off, 8) {
        Err(e) => Err(e),
        Ok((body, end)) => match spec_uleb128_u32(s, body) {
            Err(e) => Err(e),
            Ok((func_idx, consumed)) => if consumed != end {
                Err(DecodeError::SectionLengthMismatch)
            } else {
                Ok((StartSection { data_len: (end - off) as usize, func_idx }, end))
            },
        },
    }
}

impl StartSection {
    /// The id byte of every start section.
    pub fn id() -> (r: u8)
        ensures
            r == 8,
    {
        8
    }

    /// Decode the start section at `offset`.
    pub fn from_bytes(bytes: &[u8], offset: usize) -> (r: Result<StartSection, DecodeError>)
        ensures
            ({
                let sr = spec_start_section(bytes@, offset as nat);
                match r {
                    Ok(sec) => sr matches Ok(p) && p.0 == sec && offset + sec.data_len == p.1,
                    Err(e) => sr == Err::<(StartSection, nat), DecodeError>(e),
                }
            }),
    {
        match section_frame(bytes, offset, 8) {
            Err(e) => Err(e),
            Ok((body, end)) => match uleb128_decode_u32(bytes, body) {
                Err(e) => Err(e),
                Ok((func_idx, consumed)) => if consumed != end {
                    Err(DecodeError::SectionLengthMismatch)
                } else {
                    Ok(StartSection { data_len: end - offset, func_idx })
                },
            },
        }
    }
}

} // verus!
