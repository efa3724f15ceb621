use vstd::prelude::*;

use crate::errors::DecodeError;
use crate::sections::spec_section_frame;
use crate::sections::section_frame;
use crate::sections::types::{spec_limits, Limits};

verus! {

/// The memory section, id 5: exactly one limits value bounding linear
/// memory.
#[derive(Debug, Clone, Copy, PartialEq, Eq)]
pub struct MemorySection {
    /// Total framed length of the section: id byte, length field, content.
    pub data_len: usize,
    pub limits: Limits,
}

/// The memory section at `off`: its frame, then one limits value filling the
/// content exactly.
pub open spec fn spec_memory_section(s: Seq<u8>, off: nat) -> Result<(MemorySection, nat), DecodeError> {
    match spec_section_frame(s, off, 5) {
        Err(e) => Err(e),
        Ok((body, end)) => match spec_limits(s, body) {
            Err(e) => Err(e),
            Ok((limits, consumed)) => if consumed != end {
                Err(DecodeError::SectionLengthMismatch)
            } else {
                Ok((MemorySection { data_len: (end - off) as usize, limits }, end))
            },
        },
    }
}

impl MemorySection {
    /// The id byte of every memory section.
    pub fn id() -> (r: u8)
        ensures
            r == 5,
    {
        5
    }

    /// Decode the memory section at `offset`.
    pub fn from_bytes(bytes: &[u8], offset: usize) -> (r: Result<MemorySection, DecodeError>)
        ensures
            ({
                let sr = spec_memory_section(bytes@, offset as nat);
                match r {
                    Ok(sec) => sr matches Ok(p) && p.0 == sec && offset + sec.data_len == p.1,
                    Err(e) => sr == Err::<(MemorySection, nat), DecodeError>(e),
                }
            }),
    {
        match section_frame(bytes, offset, 5) {
            Err(e) => Err(e),
            Ok((body, end)) => match Limits::from_bytes(bytes, body) {
                Err(e) => Err(e),
                Ok((limits, consumed)) => if consumed != end {
                    Err(DecodeError::SectionLengthMismatch)
                } else {
                    Ok(MemorySection { data_len: end - offset, limits })
                },
            },
        }
    }
}

} // verus!
